use starmap::types::{
    ListItemsConnection, PageInfo, RawLanguage, RawRepository, RawTopicName, RawTopicNode, RawTopics,
    RawUserList, Repository, StarList, StarredConnection,
};

fn raw(nwo: &str, desc: Option<&str>, url: &str, is_private: bool) -> RawRepository {
    RawRepository {
        name_with_owner: nwo.into(),
        description: desc.map(str::to_string),
        url: url.into(),
        is_private,
        stargazer_count: None,
        primary_language: None,
        repository_topics: None,
    }
}

fn last_page() -> PageInfo {
    PageInfo { has_next_page: false, end_cursor: None }
}

#[test]
fn list_items_connection_tolerates_null_nodes() {
    let conn = ListItemsConnection {
        nodes: vec![
            Some(raw("a/b", None, "https://github.com/a/b", false)),
            None,
            Some(raw("c/d", Some("ok"), "https://github.com/c/d", false)),
        ],
        page_info: last_page(),
    };
    assert_eq!(conn.nodes.len(), 3);
    let repos: Vec<Repository> = conn.nodes.into_iter().flatten().map(Repository::from).collect();
    assert_eq!(repos.len(), 2);
    assert_eq!(repos[0].name_with_owner, "a/b");
    assert_eq!(repos[1].name_with_owner, "c/d");
}

#[test]
fn star_list_drops_private_repos() {
    let raw_list = RawUserList {
        id: "L1".into(),
        name: "Mixed".into(),
        description: None,
        items: ListItemsConnection {
            nodes: vec![
                Some(raw("public/a", None, "u", false)),
                Some(raw("secret/b", None, "u", true)),
                Some(raw("public/c", None, "u", false)),
            ],
            page_info: last_page(),
        },
    };
    let star_list: StarList = raw_list.into();
    let names: Vec<_> = star_list.repositories.iter().map(|r| r.name_with_owner.as_str()).collect();
    assert_eq!(names, vec!["public/a", "public/c"]);
}

#[test]
fn starred_connection_tolerates_null_nodes() {
    let conn = StarredConnection {
        nodes: vec![None, Some(raw("a/b", None, "https://github.com/a/b", false))],
        page_info: last_page(),
    };
    let repos: Vec<Repository> = conn.nodes.into_iter().flatten().map(Repository::from).collect();
    assert_eq!(repos.len(), 1);
    assert_eq!(repos[0].name_with_owner, "a/b");
}

#[test]
fn repository_conversion_keeps_metadata() {
    let mut r = raw("o/n", Some("d"), "u", false);
    r.stargazer_count = Some(7);
    r.primary_language = Some(RawLanguage { name: "Go".into() });
    r.repository_topics = Some(RawTopics {
        nodes: vec![
            RawTopicNode { topic: RawTopicName { name: "x".into() } },
            RawTopicNode { topic: RawTopicName { name: "y".into() } },
        ],
    });
    let repo = Repository::from(r);
    assert_eq!(repo.stargazer_count, Some(7));
    assert_eq!(repo.language.as_deref(), Some("Go"));
    assert_eq!(repo.topics, vec!["x".to_string(), "y".to_string()]);
    let bare = Repository::from(raw("o/m", None, "u", false));
    assert!(bare.topics.is_empty());
    assert_eq!(bare.language, None);
}
