//! Domain types (Star Lists and repositories) and the raw shapes in which
//! GitHub's GraphQL API delivers them, with the conversion between the two.

use vstd::prelude::*;
use vstd::std_specs::convert::FromSpecImpl;

verus! {

/// The text of an optional string.
pub open spec fn opt_text(o: Option<String>) -> Option<Seq<char>> {
    match o {
        Some(s) => Some(s@),
        None => None,
    }
}

/// A starred repository as the generators see it.
#[derive(Debug, Clone)]
pub struct Repository {
    pub name_with_owner: String,
    pub description: Option<String>,
    pub url: String,
    pub stargazer_count: Option<u64>,
    pub language: Option<String>,
    pub topics: Vec<String>,
}

/// A GitHub Star List with its (public) repositories.
#[derive(Debug, Clone)]
pub struct StarList {
    pub name: String,
    pub description: Option<String>,
    pub repositories: Vec<Repository>,
}

/// Mathematical model of a [`Repository`].
pub struct RepositoryModel {
    pub name_with_owner: Seq<char>,
    pub description: Option<Seq<char>>,
    pub url: Seq<char>,
    pub stargazer_count: Option<u64>,
    pub language: Option<Seq<char>>,
    pub topics: Seq<Seq<char>>,
}

/// Mathematical model of a [`StarList`].
pub struct StarListModel {
    pub name: Seq<char>,
    pub description: Option<Seq<char>>,
    pub repositories: Seq<RepositoryModel>,
}

/// The texts of a vector of strings.
pub open spec fn texts(v: Seq<String>) -> Seq<Seq<char>> {
    v.map_values(|s: String| s@)
}

impl View for Repository {
    type V = RepositoryModel;

    open spec fn view(&self) -> RepositoryModel {
        RepositoryModel {
            name_with_owner: self.name_with_owner@,
            description: opt_text(self.description),
            url: self.url@,
            stargazer_count: self.stargazer_count,
            language: opt_text(self.language),
            topics: texts(self.topics@),
        }
    }
}

/// The models of a sequence of repositories.
pub open spec fn repo_models(v: Seq<Repository>) -> Seq<RepositoryModel> {
    v.map_values(|r: Repository| r@)
}

impl View for StarList {
    type V = StarListModel;

    open spec fn view(&self) -> StarListModel {
        StarListModel {
            name: self.name@,
            description: opt_text(self.description),
            repositories: repo_models(self.repositories@),
        }
    }
}

/// The models of a sequence of star lists.
pub open spec fn list_models(v: Seq<StarList>) -> Seq<StarListModel> {
    v.map_values(|l: StarList| l@)
}

// --- Raw GraphQL response shapes ---------------------------------------

/// `data` of the `viewer.lists` query.
pub struct ListsQueryData {
    pub viewer: ListsViewer,
}

/// `viewer` of the `viewer.lists` query.
pub struct ListsViewer {
    pub lists: ListsConnection,
}

/// One page of the viewer's lists.
pub struct ListsConnection {
    pub nodes: Vec<RawUserList>,
    pub page_info: PageInfo,
}

/// A Star List as GraphQL returns it.
pub struct RawUserList {
    pub id: String,
    pub name: String,
    pub description: Option<String>,
    pub items: ListItemsConnection,
}

/// One page of the items of a list. An entry is `None` where GitHub returns
/// null for a repository the viewer cannot access.
pub struct ListItemsConnection {
    pub nodes: Vec<Option<RawRepository>>,
    pub page_info: PageInfo,
}

/// `data` of the `node(id)` query for further pages of a list's items.
pub struct ListItemsQueryData {
    pub node: RawUserListNode,
}

/// The list node of a `node(id)` query.
pub struct RawUserListNode {
    pub items: ListItemsConnection,
}

/// `data` of the `viewer.starredRepositories` query.
pub struct StarredQueryData {
    pub viewer: StarredViewer,
}

/// `viewer` of the `viewer.starredRepositories` query.
pub struct StarredViewer {
    pub starred_repositories: StarredConnection,
}

/// One page of starred repositories; `None` entries as in [`ListItemsConnection`].
pub struct StarredConnection {
    pub nodes: Vec<Option<RawRepository>>,
    pub page_info: PageInfo,
}

/// A repository as GraphQL returns it.
pub struct RawRepository {
    pub name_with_owner: String,
    pub description: Option<String>,
    pub url: String,
    /// True for private repositories, which never reach a [`StarList`].
    pub is_private: bool,
    pub stargazer_count: Option<u64>,
    pub primary_language: Option<RawLanguage>,
    pub repository_topics: Option<RawTopics>,
}

/// `primaryLanguage { name }`.
pub struct RawLanguage {
    pub name: String,
}

/// `repositoryTopics { nodes }`.
pub struct RawTopics {
    pub nodes: Vec<RawTopicNode>,
}

/// One node of `repositoryTopics`.
pub struct RawTopicNode {
    pub topic: RawTopicName,
}

/// `topic { name }`.
pub struct RawTopicName {
    pub name: String,
}

/// Pagination state of a connection.
pub struct PageInfo {
    pub has_next_page: bool,
    pub end_cursor: Option<String>,
}

// --- Raw -> domain -----------------------------------------------------

/// The topic names of an optional `repositoryTopics` field (none when absent).
pub open spec fn topic_names(t: Option<RawTopics>) -> Seq<Seq<char>> {
    match t {
        Some(t) => t.nodes@.map_values(|n: RawTopicNode| n.topic.name@),
        None => seq![],
    }
}

/// The domain model of a raw repository.
pub open spec fn model_of_raw(raw: RawRepository) -> RepositoryModel {
    RepositoryModel {
        name_with_owner: raw.name_with_owner@,
        description: opt_text(raw.description),
        url: raw.url@,
        stargazer_count: raw.stargazer_count,
        language: match raw.primary_language {
            Some(l) => Some(l.name@),
            None => None,
        },
        topics: topic_names(raw.repository_topics),
    }
}

/// The repositories of a page of nodes that reach the domain: null entries
/// are skipped, and so are private repositories.
pub open spec fn visible_models(nodes: Seq<Option<RawRepository>>) -> Seq<RepositoryModel>
    decreases nodes.len(),
{
    if nodes.len() == 0 {
        seq![]
    } else {
        let rest = visible_models(nodes.drop_last());
        match nodes.last() {
            Some(r) => if r.is_private { rest } else { rest.push(model_of_raw(r)) },
            None => rest,
        }
    }
}

/// The node is a public repository with the model `m`.
pub open spec fn public_node_of(node: Option<RawRepository>, m: RepositoryModel) -> bool {
    node matches Some(r) && !r.is_private && model_of_raw(r) == m
}

/// Some public node of `nodes` has the model `m`.
pub open spec fn comes_from_public_node(nodes: Seq<Option<RawRepository>>, m: RepositoryModel) -> bool {
    exists|i: int| 0 <= i < nodes.len() && #[trigger] public_node_of(nodes[i], m)
}

/// Law of the private filter: the repositories that reach the domain are
/// exactly the public, non-null nodes; in particular no private repository
/// ever does.
pub proof fn lemma_visible_models(nodes: Seq<Option<RawRepository>>)
    ensures
        forall|a: int|
            0 <= a < visible_models(nodes).len() ==> #[trigger] comes_from_public_node(nodes, visible_models(nodes)[a]),
        forall|i: int|
            0 <= i < nodes.len() && (#[trigger] nodes[i] matches Some(r) && !r.is_private) ==> visible_models(
                nodes,
            ).contains(model_of_raw(nodes[i]->Some_0)),
    decreases nodes.len(),
{
    if nodes.len() > 0 {
        let prev = visible_models(nodes.drop_last());
        let v = visible_models(nodes);
        lemma_visible_models(nodes.drop_last());
        assert forall|a: int|
            0 <= a < visible_models(nodes).len() implies #[trigger] comes_from_public_node(nodes, visible_models(nodes)[a]) by {
            assert(v[a] == visible_models(nodes)[a]);
            if a < prev.len() {
                assert(v[a] == prev[a]);
                assert(comes_from_public_node(nodes.drop_last(), prev[a]));
                let i = choose|i: int|
                    0 <= i < nodes.drop_last().len() && #[trigger] public_node_of(nodes.drop_last()[i], prev[a]);
                assert(nodes[i] == nodes.drop_last()[i]);
                assert(public_node_of(nodes[i], v[a]));
                assert(0 <= i < nodes.len());
            } else {
                assert(nodes.last() == nodes[nodes.len() - 1]);
                assert(public_node_of(nodes[nodes.len() - 1], v[a]));
            }
        }
        assert forall|i: int|
            0 <= i < nodes.len() && (#[trigger] nodes[i] matches Some(r) && !r.is_private) implies v.contains(
                model_of_raw(nodes[i]->Some_0),
            ) by {
            if i < nodes.len() - 1 {
                assert(nodes.drop_last()[i] == nodes[i]);
                let a = choose|a: int| 0 <= a < prev.len() && prev[a] == model_of_raw(nodes[i]->Some_0);
                assert(v[a] == prev[a]);
            } else {
                assert(v[v.len() - 1] == model_of_raw(nodes[i]->Some_0));
            }
        }
    } else {
        assert(visible_models(nodes).len() == 0);
    }
}

fn topic_names_of(t: Option<RawTopics>) -> (v: Vec<String>)
    ensures
        texts(v@) == topic_names(t),
{
    let mut v: Vec<String> = Vec::new();
    match t {
        Some(t) => {
            let n = t.nodes.len();
            for i in 0..n
                invariant
                    n == t.nodes.len(),
                    texts(v@) =~= t.nodes@.take(i as int).map_values(
                        |n: RawTopicNode| n.topic.name@,
                    ),
            {
                let name = t.nodes[i].topic.name.clone();
                let ghost before = v@;
                v.push(name);
                assert(texts(v@) =~= texts(before).push(name@));
                assert(t.nodes@.take(i + 1) =~= t.nodes@.take(i as int).push(t.nodes@[i as int]));
            }
            assert(t.nodes@.take(n as int) =~= t.nodes@);
        },
        None => {
            assert(texts(v@) =~= seq![]);
        },
    }
    v
}

impl From<RawRepository> for Repository {
    fn from(raw: RawRepository) -> (r: Repository)
        ensures
            r@ == model_of_raw(raw),
    {
        let language = match raw.primary_language {
            Some(l) => Some(l.name),
            None => None,
        };
        Repository {
            name_with_owner: raw.name_with_owner,
            description: raw.description,
            url: raw.url,
            stargazer_count: raw.stargazer_count,
            language,
            topics: topic_names_of(raw.repository_topics),
        }
    }
}

/// The contract of this conversion is the `ensures` of `from` above; no
/// separate specification value is claimed.
impl FromSpecImpl<RawRepository> for Repository {
    open spec fn obeys_from_spec() -> bool {
        false
    }

    open spec fn from_spec(v: RawRepository) -> Repository {
        vstd::pervasive::arbitrary()
    }
}

/// The repositories of a page of nodes, in order, without null entries and
/// without private repositories.
pub fn repositories_from_nodes(nodes: Vec<Option<RawRepository>>) -> (r: Vec<Repository>)
    ensures
        repo_models(r@) == visible_models(nodes@),
{
    let mut r: Vec<Repository> = Vec::new();
    let ghost all = nodes@;
    for node in it: nodes
        invariant
            it.seq() == all,
            repo_models(r@) == visible_models(all.take(it.index() as int)),
    {
        let ghost k = it.index();
        assert(all.take(k + 1).drop_last() =~= all.take(k as int));
        let ghost before = r@;
        match node {
            Some(raw) => {
                if !raw.is_private {
                    r.push(Repository::from(raw));
                    assert(repo_models(r@) =~= repo_models(before).push(r@.last()@));
                }
            },
            None => {},
        }
    }
    assert(all.take(all.len() as int) =~= all);
    r
}

/// The domain model of a raw list: its first page of items, less null
/// entries and private repositories.
pub open spec fn list_model_of_raw(raw: RawUserList) -> StarListModel {
    StarListModel {
        name: raw.name@,
        description: opt_text(raw.description),
        repositories: visible_models(raw.items.nodes@),
    }
}

impl From<RawUserList> for StarList {
    fn from(raw: RawUserList) -> (l: StarList)
        ensures
            l@ == list_model_of_raw(raw),
    {
        StarList {
            name: raw.name,
            description: raw.description,
            repositories: repositories_from_nodes(raw.items.nodes),
        }
    }
}

/// The contract of this conversion is the `ensures` of `from` above; no
/// separate specification value is claimed.
impl FromSpecImpl<RawUserList> for StarList {
    open spec fn obeys_from_spec() -> bool {
        false
    }

    open spec fn from_spec(v: RawUserList) -> StarList {
        vstd::pervasive::arbitrary()
    }
}

} // verus!
