use starmap::client::{
    build_list_items_query, build_lists_query, build_starred_query, check_graphql_response,
    cursor_arg, plan_push, select_token, split_owner_name, stars_title, GraphqlFailure, PushError,
    PushPlan, TokenError,
};
use starmap::paging::{PageRequest, StarListsFetch, StarredFetch};
use starmap::types::{
    ListItemsConnection, ListsConnection, PageInfo, RawRepository, RawUserList, StarredConnection,
};

fn raw(nwo: &str) -> RawRepository {
    RawRepository {
        name_with_owner: nwo.into(),
        description: None,
        url: format!("https://github.com/{nwo}"),
        is_private: false,
        stargazer_count: None,
        primary_language: None,
        repository_topics: None,
    }
}

fn page(has_next: bool, cursor: Option<&str>) -> PageInfo {
    PageInfo { has_next_page: has_next, end_cursor: cursor.map(str::to_string) }
}

#[test]
fn cursor_argument() {
    assert_eq!(cursor_arg(&None), "");
    assert_eq!(cursor_arg(&Some("abc".into())), ", after: \"abc\"");
}

#[test]
fn queries_embed_cursor_and_id() {
    let q = build_lists_query(&Some("C1".into()));
    assert!(q.starts_with("{\n  viewer {\n    lists(first: 100, after: \"C1\") {\n"));
    assert!(q.ends_with("      pageInfo { hasNextPage endCursor }\n    }\n  }\n}"));
    let q = build_starred_query(&None);
    assert!(q.contains("starredRepositories(first: 100) {"));
    assert!(q.contains("repositoryTopics(first: 10)"));
    let q = build_list_items_query("L9", &Some("X".into()));
    assert!(q.contains("node(id: \"L9\")"));
    assert!(q.contains("items(first: 100, after: \"X\")"));
}

#[test]
fn graphql_checks() {
    assert_eq!(check_graphql_response(200, false, true), Ok(()));
    assert_eq!(check_graphql_response(502, true, false), Err(GraphqlFailure::Status(502)));
    assert_eq!(check_graphql_response(200, true, true), Err(GraphqlFailure::Errors));
    assert_eq!(check_graphql_response(200, false, false), Err(GraphqlFailure::NoData));
}

#[test]
fn token_selection() {
    assert_eq!(select_token(Some("env".into()), Some(b"gh\n".to_vec())), Ok("env".to_string()));
    assert_eq!(select_token(Some(String::new()), Some(b" gh \n".to_vec())), Ok("gh".to_string()));
    assert_eq!(select_token(None, Some(b"  \n".to_vec())), Err(TokenError::NotFound));
    assert_eq!(select_token(None, Some(vec![0xff])), Err(TokenError::NotUtf8));
    assert_eq!(select_token(None, None), Err(TokenError::NotFound));
}

#[test]
fn owner_name_split() {
    assert_eq!(split_owner_name("owner/name"), Some(("owner", "name")));
    assert_eq!(split_owner_name("a/b/c"), Some(("a", "b/c")));
    assert_eq!(split_owner_name("noslash"), None);
    assert_eq!(stars_title("octo"), "octo stars");
}

#[test]
fn push_plans() {
    assert_eq!(plan_push(None), Ok(PushPlan::Create));
    assert_eq!(plan_push(Some(None)), Err(PushError::EmptyContent));
    assert_eq!(plan_push(Some(Some("s".into()))), Ok(PushPlan::Update { sha: "s".into() }));
}

#[test]
fn star_lists_pagination() {
    let mut f = StarListsFetch::new();
    assert!(matches!(f.next_request(), Some(PageRequest::Lists { .. })));
    f.receive_lists(ListsConnection {
        nodes: vec![
            RawUserList {
                id: "L1".into(),
                name: "One".into(),
                description: None,
                items: ListItemsConnection { nodes: vec![Some(raw("a/1"))], page_info: page(true, Some("i1")) },
            },
            RawUserList {
                id: "L2".into(),
                name: "Two".into(),
                description: None,
                items: ListItemsConnection { nodes: vec![Some(raw("b/1"))], page_info: page(false, None) },
            },
        ],
        page_info: page(true, Some("p2")),
    });
    match f.next_request() {
        Some(PageRequest::ListItems { query }) => {
            assert!(query.contains("node(id: \"L1\")"));
            assert!(query.contains("after: \"i1\""));
        }
        _ => panic!("expected list items"),
    }
    f.receive_items(ListItemsConnection { nodes: vec![None, Some(raw("a/2"))], page_info: page(false, None) });
    match f.next_request() {
        Some(PageRequest::Lists { query }) => assert!(query.contains("after: \"p2\"")),
        _ => panic!("expected lists"),
    }
    f.receive_lists(ListsConnection { nodes: vec![], page_info: page(false, None) });
    assert!(f.is_done());
    assert!(f.next_request().is_none());
    let lists = f.into_lists();
    assert_eq!(lists.len(), 2);
    let names: Vec<_> = lists[0].repositories.iter().map(|r| r.name_with_owner.clone()).collect();
    assert_eq!(names, vec!["a/1", "a/2"]);
    assert_eq!(lists[1].repositories.len(), 1);
}

#[test]
fn starred_pagination() {
    let mut f = StarredFetch::new();
    assert!(f.next_query().is_some());
    f.receive(StarredConnection { nodes: vec![Some(raw("a/1")), None], page_info: page(true, Some("c")) });
    assert!(f.next_query().unwrap().contains("after: \"c\""));
    f.receive(StarredConnection { nodes: vec![Some(raw("a/2"))], page_info: page(false, Some("d")) });
    assert!(f.next_query().is_none());
    assert_eq!(f.into_repos().len(), 2);
}

#[test]
fn queries_ask_repositories_for_privacy() {
    let q = build_lists_query(&None);
    assert!(q.contains("... on Repository {\n              nameWithOwner\n              description\n              url\n              isPrivate\n            }"));
    let q = build_starred_query(&None);
    assert!(q.contains("        url\n        isPrivate\n        stargazerCount\n"));
    let q = build_list_items_query("L9", &None);
    assert!(q.contains("... on Repository {\n            nameWithOwner\n            description\n            url\n            isPrivate\n          }"));
}
