//! The pagination decisions of fetching Star Lists and starred repositories.
//! The caller performs each requested query and hands the decoded page back;
//! these types decide what to ask next and accumulate the results.

use vstd::prelude::*;
use crate::client::{build_list_items_query, build_lists_query, build_starred_query, list_items_query, lists_query, starred_query};
use crate::types::{
    list_model_of_raw, list_models, opt_text, repo_models, repositories_from_nodes,
    visible_models, ListItemsConnection, ListsConnection, RawUserList, Repository,
    RepositoryModel, StarList, StarListModel, StarredConnection,
};

verus! {

/// A query to perform next, tagged with the page type its answer decodes to.
pub enum PageRequest {
    /// Answered by a `ListsQueryData`.
    Lists { query: String },
    /// Answered by a `ListItemsQueryData`.
    ListItems { query: String },
}

/// A list whose items continue on further pages.
pub struct PendingItems {
    pub list_index: usize,
    pub list_id: String,
    pub cursor: Option<String>,
}

/// Model of a [`PendingItems`]: list position, list id, cursor.
pub open spec fn pending_model(p: PendingItems) -> (int, Seq<char>, Option<Seq<char>>) {
    (p.list_index as int, p.list_id@, opt_text(p.cursor))
}

/// Progress of fetching all Star Lists with all their items.
pub struct StarListsFetch {
    lists: Vec<StarList>,
    pending: Vec<PendingItems>,
    next_page: Option<Option<String>>,
}

/// Mathematical model of a [`StarListsFetch`].
pub struct StarListsFetchModel {
    /// The lists fetched so far.
    pub lists: Seq<StarListModel>,
    /// Lists whose further item pages are still to be fetched, first one next.
    pub pending: Seq<(int, Seq<char>, Option<Seq<char>>)>,
    /// `Some(cursor)` while another page of lists is to be fetched.
    pub next_page: Option<Option<Seq<char>>>,
}

/// The model of an optional page cursor.
pub open spec fn next_model(n: Option<Option<String>>) -> Option<Option<Seq<char>>> {
    match n {
        Some(c) => Some(opt_text(c)),
        None => None,
    }
}

impl View for StarListsFetch {
    type V = StarListsFetchModel;

    closed spec fn view(&self) -> StarListsFetchModel {
        StarListsFetchModel {
            lists: list_models(self.lists@),
            pending: self.pending@.map_values(|p: PendingItems| pending_model(p)),
            next_page: next_model(self.next_page),
        }
    }
}

/// The continuations recorded for a page of lists whose first list lands at
/// position `base`: one for each list whose items have a next page.
pub open spec fn continuations(nodes: Seq<RawUserList>, base: int) -> Seq<(int, Seq<char>, Option<Seq<char>>)>
    decreases nodes.len(),
{
    if nodes.len() == 0 {
        seq![]
    } else {
        let rest = continuations(nodes.drop_last(), base);
        let l = nodes.last();
        if l.items.page_info.has_next_page {
            rest.push((base + nodes.len() - 1, l.id@, opt_text(l.items.page_info.end_cursor)))
        } else {
            rest
        }
    }
}

/// Law of continuations: each one points at the list built from the node
/// it was recorded for (position `base + i` for node `i`, with that node's
/// id and items cursor), only nodes whose items have a next page get one,
/// every such node gets one, and they come in node order.
pub proof fn lemma_continuations(nodes: Seq<RawUserList>, base: int)
    ensures
        forall|j: int| 0 <= j < continuations(nodes, base).len() ==> {
            let (idx, id, cur) = #[trigger] continuations(nodes, base)[j];
            &&& base <= idx < base + nodes.len()
            &&& nodes[idx - base].items.page_info.has_next_page
            &&& id == nodes[idx - base].id@
            &&& cur == opt_text(nodes[idx - base].items.page_info.end_cursor)
        },
        forall|j: int, k: int|
            0 <= j < k < continuations(nodes, base).len() ==> continuations(nodes, base)[j].0
                < continuations(nodes, base)[k].0,
        forall|i: int|
            0 <= i < nodes.len() && #[trigger] nodes[i].items.page_info.has_next_page ==> exists|j: int|
                0 <= j < continuations(nodes, base).len() && #[trigger] continuations(nodes, base)[j].0 == base + i,
    decreases nodes.len(),
{
    if nodes.len() > 0 {
        let t = nodes.drop_last();
        lemma_continuations(t, base);
        let prev = continuations(t, base);
        let c = continuations(nodes, base);
        assert forall|j: int| 0 <= j < c.len() implies {
            let (idx, id, cur) = #[trigger] c[j];
            &&& base <= idx < base + nodes.len()
            &&& nodes[idx - base].items.page_info.has_next_page
            &&& id == nodes[idx - base].id@
            &&& cur == opt_text(nodes[idx - base].items.page_info.end_cursor)
        } by {
            if j < prev.len() {
                assert(c[j] == prev[j]);
                assert(nodes[prev[j].0 - base] == t[prev[j].0 - base]);
            }
        }
        assert forall|j: int, k: int| 0 <= j < k < c.len() implies c[j].0 < c[k].0 by {
            if k < prev.len() {
                assert(c[j] == prev[j] && c[k] == prev[k]);
            } else {
                assert(c[j] == prev[j]);
            }
        }
        assert forall|i: int| 0 <= i < nodes.len() && #[trigger] nodes[i].items.page_info.has_next_page implies exists|j: int|
            0 <= j < c.len() && #[trigger] c[j].0 == base + i by {
            if i < t.len() {
                assert(t[i] == nodes[i]);
                assert(t[i].items.page_info.has_next_page);
                let j = choose|j: int| 0 <= j < prev.len() && #[trigger] prev[j].0 == base + i;
                assert(c[j] == prev[j]);
            } else {
                assert(c[c.len() - 1].0 == base + i);
            }
        }
    }
}

/// The page cursor that follows a page with the given page info.
pub open spec fn following(has_next_page: bool, end_cursor: Option<String>) -> Option<Option<Seq<char>>> {
    if has_next_page {
        Some(opt_text(end_cursor))
    } else {
        None
    }
}

impl StarListsFetch {
    #[verifier::type_invariant]
    spec fn pending_in_range(self) -> bool {
        forall|i: int| 0 <= i < self.pending.len() ==> #[trigger] self.pending@[i].list_index < self.lists.len()
    }

    /// Nothing fetched yet; the first page of lists comes next.
    pub fn new() -> (f: StarListsFetch)
        ensures
            f@.lists.len() == 0,
            f@.pending.len() == 0,
            f@.next_page == Some(Option::<Seq<char>>::None),
    {
        StarListsFetch { lists: Vec::new(), pending: Vec::new(), next_page: Some(None) }
    }

    /// The query to perform next: further items of the first pending list,
    /// else the next page of lists; `None` when everything has been fetched.
    pub fn next_request(&self) -> (r: Option<PageRequest>)
        ensures
            self@.pending.len() > 0 ==> (r matches Some(PageRequest::ListItems { query })
                && query@ == list_items_query(self@.pending[0].1, self@.pending[0].2)),
            self@.pending.len() == 0 ==> match self@.next_page {
                Some(c) => (r matches Some(PageRequest::Lists { query }) && query@ == lists_query(c)),
                None => r is None,
            },
    {
        if self.pending.len() > 0 {
            let p = &self.pending[0];
            Some(PageRequest::ListItems { query: build_list_items_query(p.list_id.as_str(), &p.cursor) })
        } else {
            match &self.next_page {
                Some(c) => Some(PageRequest::Lists { query: build_lists_query(c) }),
                None => None,
            }
        }
    }

    /// Takes in a page of lists: each becomes a [`StarList`] with its first
    /// page of items, lists with more items are queued, and the page info
    /// decides whether another page of lists follows.
    pub fn receive_lists(&mut self, page: ListsConnection)
        ensures
            final(self)@.lists == old(self)@.lists + page.nodes@.map_values(
                |l: RawUserList| list_model_of_raw(l),
            ),
            final(self)@.pending == old(self)@.pending + continuations(
                page.nodes@,
                old(self)@.lists.len() as int,
            ),
            final(self)@.next_page == following(page.page_info.has_next_page, page.page_info.end_cursor),
    {
        proof {
            use_type_invariant(&*self);
        }
        let ghost nodes = page.nodes@;
        let ghost base = self.lists.len() as int;
        let ghost old_lists = list_models(self.lists@);
        let ghost old_pending = self.pending@.map_values(|p: PendingItems| pending_model(p));
        let ListsConnection { nodes: raw_lists, page_info } = page;
        let mut pending: Vec<PendingItems> = Vec::new();
        std::mem::swap(&mut pending, &mut self.pending);
        let mut lists: Vec<StarList> = Vec::new();
        std::mem::swap(&mut lists, &mut self.lists);
        for raw in it: raw_lists
            invariant
                it.seq() == nodes,
                base == old_lists.len(),
                list_models(lists@) == old_lists + nodes.take(it.index() as int).map_values(
                    |l: RawUserList| list_model_of_raw(l),
                ),
                pending@.map_values(|p: PendingItems| pending_model(p)) == old_pending
                    + continuations(nodes.take(it.index() as int), base),
                forall|i: int| 0 <= i < pending.len() ==> #[trigger] pending@[i].list_index < lists.len(),
        {
            let ghost k = it.index();
            assert(nodes.take(k + 1).drop_last() =~= nodes.take(k as int));
            assert(nodes.take(k + 1).last() == raw);
            if raw.items.page_info.has_next_page {
                let ghost before = pending@;
                pending.push(PendingItems {
                    list_index: lists.len(),
                    list_id: raw.id.clone(),
                    cursor: raw.items.page_info.end_cursor.clone(),
                });
                assert(pending@.map_values(|p: PendingItems| pending_model(p)) =~= before.map_values(
                    |p: PendingItems| pending_model(p),
                ).push(pending_model(pending@.last())));
            }
            let ghost before_lists = lists@;
            lists.push(StarList::from(raw));
            assert(list_models(lists@) =~= list_models(before_lists).push(lists@.last()@));
            assert(nodes.take(k + 1).map_values(|l: RawUserList| list_model_of_raw(l)) =~= nodes.take(
                k as int,
            ).map_values(|l: RawUserList| list_model_of_raw(l)).push(list_model_of_raw(raw)));
        }
        assert(nodes.take(nodes.len() as int) =~= nodes);
        self.lists = lists;
        self.pending = pending;
        self.next_page = if page_info.has_next_page { Some(page_info.end_cursor) } else { None };
    }

    /// Takes in a further page of items of the first pending list: its
    /// repositories are appended to that list, and the list stays pending
    /// (with the new cursor) while more pages follow. Without a pending list
    /// nothing changes.
    pub fn receive_items(&mut self, page: ListItemsConnection)
        ensures
            old(self)@.pending.len() == 0 ==> final(self)@ == old(self)@,
            old(self)@.pending.len() > 0 ==> {
                let (i, id, _) = old(self)@.pending[0];
                &&& final(self)@.lists == old(self)@.lists.update(
                    i,
                    StarListModel {
                        repositories: old(self)@.lists[i].repositories + visible_models(page.nodes@),
                        ..old(self)@.lists[i]
                    },
                )
                &&& final(self)@.pending == if page.page_info.has_next_page {
                    old(self)@.pending.update(0, (i, id, opt_text(page.page_info.end_cursor)))
                } else {
                    old(self)@.pending.drop_first()
                }
                &&& final(self)@.next_page == old(self)@.next_page
            },
    {
        proof {
            use_type_invariant(&*self);
        }
        if self.pending.len() == 0 {
            return;
        }
        let ListItemsConnection { nodes, page_info } = page;
        let mut pending: Vec<PendingItems> = Vec::new();
        std::mem::swap(&mut pending, &mut self.pending);
        let mut lists: Vec<StarList> = Vec::new();
        std::mem::swap(&mut lists, &mut self.lists);
        let ghost old_lists = lists@;
        let ghost old_pending = pending@;
        let idx = pending[0].list_index;
        let mut list = lists.remove(idx);
        let more = repositories_from_nodes(nodes);
        let ghost before_repos = list.repositories@;
        let mut more_mut = more;
        list.repositories.append(&mut more_mut);
        assert(repo_models(list.repositories@) =~= repo_models(before_repos) + repo_models(more@));
        lists.insert(idx, list);
        assert(lists@ =~= old_lists.update(idx as int, list));
        assert(list_models(lists@) =~= list_models(old_lists).update(idx as int, list@));
        if page_info.has_next_page {
            let first = pending.remove(0);
            pending.insert(0, PendingItems { list_index: first.list_index, list_id: first.list_id, cursor: page_info.end_cursor });
            assert(pending@.map_values(|p: PendingItems| pending_model(p)) =~= old_pending.map_values(
                |p: PendingItems| pending_model(p),
            ).update(0, pending_model(pending@[0])));
        } else {
            pending.remove(0);
            assert(pending@.map_values(|p: PendingItems| pending_model(p)) =~= old_pending.map_values(
                |p: PendingItems| pending_model(p),
            ).drop_first());
        }
        self.lists = lists;
        self.pending = pending;
    }

    /// Whether every page has been fetched.
    pub fn is_done(&self) -> (b: bool)
        ensures
            b == (self@.pending.len() == 0 && self@.next_page is None),
    {
        self.pending.len() == 0 && self.next_page.is_none()
    }

    /// The lists fetched.
    pub fn into_lists(self) -> (lists: Vec<StarList>)
        ensures
            list_models(lists@) == self@.lists,
    {
        self.lists
    }
}

/// Progress of fetching all starred repositories.
pub struct StarredFetch {
    repos: Vec<Repository>,
    next_page: Option<Option<String>>,
}

/// Mathematical model of a [`StarredFetch`].
pub struct StarredFetchModel {
    /// The repositories fetched so far.
    pub repos: Seq<RepositoryModel>,
    /// `Some(cursor)` while another page is to be fetched.
    pub next_page: Option<Option<Seq<char>>>,
}

impl View for StarredFetch {
    type V = StarredFetchModel;

    closed spec fn view(&self) -> StarredFetchModel {
        StarredFetchModel { repos: repo_models(self.repos@), next_page: next_model(self.next_page) }
    }
}

impl StarredFetch {
    /// Nothing fetched yet; the first page comes next.
    pub fn new() -> (f: StarredFetch)
        ensures
            f@.repos.len() == 0,
            f@.next_page == Some(Option::<Seq<char>>::None),
    {
        StarredFetch { repos: Vec::new(), next_page: Some(None) }
    }

    /// The query for the next page, or `None` when every page has been fetched.
    pub fn next_query(&self) -> (q: Option<String>)
        ensures
            match self@.next_page {
                Some(c) => (q matches Some(q) && q@ == starred_query(c)),
                None => q is None,
            },
    {
        match &self.next_page {
            Some(c) => Some(build_starred_query(c)),
            None => None,
        }
    }

    /// Takes in a page: its repositories are appended, and the page info
    /// decides whether another page follows.
    pub fn receive(&mut self, page: StarredConnection)
        ensures
            final(self)@.repos == old(self)@.repos + visible_models(page.nodes@),
            final(self)@.next_page == following(page.page_info.has_next_page, page.page_info.end_cursor),
    {
        let StarredConnection { nodes, page_info } = page;
        let mut more = repositories_from_nodes(nodes);
        let ghost before = self.repos@;
        let ghost added = more@;
        self.repos.append(&mut more);
        assert(repo_models(self.repos@) =~= repo_models(before) + repo_models(added));
        self.next_page = if page_info.has_next_page { Some(page_info.end_cursor) } else { None };
    }

    /// The repositories fetched.
    pub fn into_repos(self) -> (repos: Vec<Repository>)
        ensures
            repo_models(repos@) == self@.repos,
    {
        self.repos
    }
}

} // verus!
