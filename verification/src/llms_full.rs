//! The llms-full archive: every listed repository with its metadata and
//! (truncated) README.

use vstd::prelude::*;
use crate::config::Config;
use crate::llms_txt::{apply_order, list_names, ordered_positions};
use crate::markdown::{alphabetical, alphabetical_positions, in_name_order, lemma_alphabetical};
use crate::readme::{fitting_prefix, lemma_fitting_prefix, lemma_prefix_utf8_len, truncate_utf8};
use crate::text::{decimal, join, lemma_join_push, u64_to_decimal};
use crate::types::{
    list_models, opt_text, repo_models, texts, Repository, RepositoryModel, StarList,
    StarListModel,
};

verus! {

/// The README texts fetched so far, by `owner/name`: `Some` content, or
/// `None` where the README is unavailable. A later insert for the same key
/// replaces the earlier one.
pub struct Readmes {
    entries: Vec<(String, Option<String>)>,
}

/// The map that a sequence of inserts builds.
pub open spec fn entries_map(e: Seq<(String, Option<String>)>) -> Map<Seq<char>, Option<Seq<char>>>
    decreases e.len(),
{
    if e.len() == 0 {
        Map::empty()
    } else {
        entries_map(e.drop_last()).insert(e.last().0@, opt_text(e.last().1))
    }
}

impl View for Readmes {
    type V = Map<Seq<char>, Option<Seq<char>>>;

    closed spec fn view(&self) -> Self::V {
        entries_map(self.entries@)
    }
}

impl Readmes {
    /// An empty collection.
    pub fn new() -> (r: Readmes)
        ensures
            r@ == Map::<Seq<char>, Option<Seq<char>>>::empty(),
    {
        Readmes { entries: Vec::new() }
    }

    /// Records the README of `key`, replacing any earlier one.
    pub fn insert(&mut self, key: String, value: Option<String>)
        ensures
            final(self)@ == old(self)@.insert(key@, opt_text(value)),
    {
        let ghost k = key@;
        let ghost v = opt_text(value);
        self.entries.push((key, value));
        assert(self.entries@.drop_last() =~= old(self).entries@);
    }

    /// The README recorded for `key`, if any.
    pub fn get(&self, key: &String) -> (r: Option<&Option<String>>)
        ensures
            match r {
                Some(v) => self@.contains_key(key@) && self@[key@] == opt_text(*v),
                None => !self@.contains_key(key@),
            },
    {
        let mut i = self.entries.len();
        assert(self.entries@.take(i as int) =~= self.entries@);
        while i > 0
            invariant
                i <= self.entries.len(),
                self@ == entries_map(self.entries@),
                entries_map(self.entries@).contains_key(key@) == entries_map(
                    self.entries@.take(i as int),
                ).contains_key(key@),
                entries_map(self.entries@).contains_key(key@) ==> entries_map(self.entries@)[key@]
                    == entries_map(self.entries@.take(i as int))[key@],
            decreases i,
        {
            assert(self.entries@.take(i as int).drop_last() =~= self.entries@.take(i - 1));
            assert(self.entries@.take(i as int).last() == self.entries@[i - 1]);
            if self.entries[i - 1].0 == *key {
                return Some(&self.entries[i - 1].1);
            }
            i -= 1;
        }
        None
    }
}

/// The README store after [`Readmes::new`] and then [`Readmes::insert`] of
/// each `(key, value)` of `writes`, in order (as their contracts say).
pub open spec fn after_writes(writes: Seq<(Seq<char>, Option<Seq<char>>)>) -> Map<Seq<char>, Option<Seq<char>>>
    decreases writes.len(),
{
    if writes.len() == 0 {
        Map::empty()
    } else {
        after_writes(writes.drop_last()).insert(writes.last().0, writes.last().1)
    }
}

/// The value of the last write to `key` among `writes`, if any.
pub open spec fn last_write(writes: Seq<(Seq<char>, Option<Seq<char>>)>, key: Seq<char>) -> Option<Option<Seq<char>>>
    decreases writes.len(),
{
    if writes.len() == 0 {
        None
    } else if writes.last().0 == key {
        Some(writes.last().1)
    } else {
        last_write(writes.drop_last(), key)
    }
}

/// Law of the README store: after any sequence of inserts, [`Readmes::get`]
/// of a key finds the value of the last insert for that key, and finds
/// nothing for a key never inserted.
pub proof fn lemma_readmes_last_write_wins(writes: Seq<(Seq<char>, Option<Seq<char>>)>, key: Seq<char>)
    ensures
        after_writes(writes).contains_key(key) <==> last_write(writes, key) is Some,
        last_write(writes, key) matches Some(v) ==> after_writes(writes)[key] == v,
    decreases writes.len(),
{
    if writes.len() > 0 {
        lemma_readmes_last_write_wins(writes.drop_last(), key);
    }
}

/// The last position among `all` of a repository named `name`, if any.
pub open spec fn last_named(all: Seq<RepositoryModel>, name: Seq<char>) -> Option<int>
    decreases all.len(),
{
    if all.len() == 0 {
        None
    } else if all.last().name_with_owner == name {
        Some(all.len() - 1)
    } else {
        last_named(all.drop_last(), name)
    }
}

/// The metadata shown for a listed repository: the last entry of all
/// starred repositories with the same name (richer), else the list entry.
pub open spec fn metadata_for(all: Seq<RepositoryModel>, r: RepositoryModel) -> RepositoryModel {
    match last_named(all, r.name_with_owner) {
        Some(p) => all[p],
        None => r,
    }
}

/// The byte budget for a README of `kb` kilobytes (saturating).
pub open spec fn readme_budget(kb: usize) -> nat {
    if kb * 1024 > usize::MAX {
        usize::MAX as nat
    } else {
        (kb * 1024) as nat
    }
}

/// The README part of an entry.
pub open spec fn readme_block(readmes: Map<Seq<char>, Option<Seq<char>>>, name: Seq<char>, kb: usize) -> Seq<char> {
    if readmes.contains_key(name) && readmes[name] is Some {
        let content = readmes[name]->Some_0;
        let t = fitting_prefix(content, readme_budget(kb));
        "<details>\n<summary>README</summary>\n\n"@ + t + (if t.len() < content.len() {
            "\n\n*(truncated at "@ + decimal(kb as nat) + " KB; see source repo for full README)*\n"@
        } else {
            seq![]
        }) + "\n</details>\n\n"@
    } else {
        "*(README unavailable)*\n\n"@
    }
}

/// The description bullet, when there is a nonempty description.
pub open spec fn description_line(d: Option<Seq<char>>) -> Seq<char> {
    match d {
        Some(d) => if d.len() > 0 { "- **Description:** "@ + d + "\n"@ } else { seq![] },
        None => seq![],
    }
}

/// The topics bullet, when there are topics.
pub open spec fn topics_line(t: Seq<Seq<char>>) -> Seq<char> {
    if t.len() > 0 {
        "- **Topics:** "@ + join(t, ", "@) + "\n"@
    } else {
        seq![]
    }
}

/// The language bullet, when the language is known.
pub open spec fn language_line(l: Option<Seq<char>>) -> Seq<char> {
    match l {
        Some(l) => "- **Language:** "@ + l + "\n"@,
        None => seq![],
    }
}

/// The stars bullet, when the count is known.
pub open spec fn stars_line(s: Option<u64>) -> Seq<char> {
    match s {
        Some(s) => "- **Stars:** "@ + decimal(s as nat) + "\n"@,
        None => seq![],
    }
}

/// The metadata bullets of an entry.
pub open spec fn metadata_lines(r: RepositoryModel) -> Seq<char> {
    description_line(r.description) + topics_line(r.topics) + language_line(r.language)
        + stars_line(r.stargazer_count)
}

/// The archive entry of one repository.
pub open spec fn entry(r: RepositoryModel, readmes: Map<Seq<char>, Option<Seq<char>>>, kb: usize) -> Seq<char> {
    "### ["@ + r.name_with_owner + "]("@ + r.url + ")\n"@ + metadata_lines(r) + "\n"@
        + readme_block(readmes, r.name_with_owner, kb) + "---\n\n"@
}

/// The entries of the list repositories at the positions `order`.
pub open spec fn entries_at(
    repos: Seq<RepositoryModel>,
    order: Seq<usize>,
    all: Seq<RepositoryModel>,
    readmes: Map<Seq<char>, Option<Seq<char>>>,
    kb: usize,
) -> Seq<char>
    decreases order.len(),
{
    if order.len() == 0 {
        seq![]
    } else {
        entries_at(repos, order.drop_last(), all, readmes, kb) + entry(
            metadata_for(all, repos[order.last() as int]),
            readmes,
            kb,
        )
    }
}

/// The archive section of one list.
pub open spec fn archive_section(
    l: StarListModel,
    all: Seq<RepositoryModel>,
    readmes: Map<Seq<char>, Option<Seq<char>>>,
    kb: usize,
) -> Seq<char> {
    "## "@ + l.name + "\n\n"@ + entries_at(l.repositories, alphabetical(l.repositories), all, readmes, kb)
}

/// Law of archive sections: a list's section shows each of its
/// repositories once, sorted case-insensitively by `owner/name`.
pub proof fn lemma_archive_section_sorted(
    l: StarListModel,
    all: Seq<RepositoryModel>,
    readmes: Map<Seq<char>, Option<Seq<char>>>,
    kb: usize,
)
    requires
        l.repositories.len() <= usize::MAX,
    ensures
        exists|ord: Seq<usize>|
            #[trigger] in_name_order(ord, l.repositories) && archive_section(l, all, readmes, kb) == "## "@
                + l.name + "\n\n"@ + entries_at(l.repositories, ord, all, readmes, kb),
{
    lemma_alphabetical(l.repositories);
    assert(in_name_order(alphabetical(l.repositories), l.repositories));
}

/// The archive sections of the lists at the positions `order`.
pub open spec fn archive_sections(
    lists: Seq<StarListModel>,
    order: Seq<usize>,
    all: Seq<RepositoryModel>,
    readmes: Map<Seq<char>, Option<Seq<char>>>,
    kb: usize,
) -> Seq<char>
    decreases order.len(),
{
    if order.len() == 0 {
        seq![]
    } else {
        archive_sections(lists, order.drop_last(), all, readmes, kb) + archive_section(
            lists[order.last() as int],
            all,
            readmes,
            kb,
        )
    }
}

/// The llms-full archive.
pub open spec fn archive(
    title: Seq<char>,
    lists: Seq<StarListModel>,
    all: Seq<RepositoryModel>,
    readmes: Map<Seq<char>, Option<Seq<char>>>,
    order: Seq<Seq<char>>,
    kb: usize,
) -> Seq<char> {
    "# "@ + title + " — Full archive\n\n"@
        + "> Description, topics, and README of each starred repository.\n> Capped at "@
        + decimal(kb as nat) + " KB per README.\n\n"@ + archive_sections(
        lists,
        ordered_positions(list_names(lists), order),
        all,
        readmes,
        kb,
    )
}

fn last_named_in(all: &[Repository], name: &String) -> (p: Option<usize>)
    ensures
        match p {
            Some(p) => last_named(repo_models(all@), name@) == Some(p as int),
            None => last_named(repo_models(all@), name@) is None,
        },
        p matches Some(p) ==> p < all.len(),
{
    let ghost ms = repo_models(all@);
    let mut i = all.len();
    assert(ms.take(i as int) =~= ms);
    while i > 0
        invariant
            i <= all.len(),
            ms == repo_models(all@),
            last_named(ms, name@) == last_named(ms.take(i as int), name@),
        decreases i,
    {
        assert(ms.take(i as int).drop_last() =~= ms.take(i - 1));
        if all[i - 1].name_with_owner == *name {
            return Some(i - 1);
        }
        i -= 1;
    }
    None
}

fn write_description(out: &mut String, d: &Option<String>)
    ensures
        final(out)@ == old(out)@ + description_line(opt_text(*d)),
{
    match d {
        Some(d) => {
            if !d.as_str().is_empty() {
                out.append("- **Description:** ");
                out.append(d.as_str());
                out.append("\n");
            }
        },
        None => {},
    }
    assert(out@ =~= old(out)@ + description_line(opt_text(*d)));
}

fn write_topics(out: &mut String, topics: &Vec<String>)
    ensures
        final(out)@ == old(out)@ + topics_line(texts(topics@)),
{
    if topics.len() > 0 {
        out.append("- **Topics:** ");
        let ghost head = out@;
        let n = topics.len();
        assert(texts(topics@).take(0) =~= Seq::<Seq<char>>::empty());
        for k in 0..n
            invariant
                n == topics.len(),
                out@ == head + join(texts(topics@).take(k as int), ", "@),
        {
            proof {
                lemma_join_push(texts(topics@).take(k as int), ", "@, topics@[k as int]@);
                assert(texts(topics@).take(k + 1) =~= texts(topics@).take(k as int).push(
                    topics@[k as int]@,
                ));
            }
            if k > 0 {
                out.append(", ");
            }
            out.append(topics[k].as_str());
        }
        assert(texts(topics@).take(n as int) =~= texts(topics@));
        out.append("\n");
    }
    assert(out@ =~= old(out)@ + topics_line(texts(topics@)));
}

fn write_language(out: &mut String, l: &Option<String>)
    ensures
        final(out)@ == old(out)@ + language_line(opt_text(*l)),
{
    match l {
        Some(l) => {
            out.append("- **Language:** ");
            out.append(l.as_str());
            out.append("\n");
        },
        None => {},
    }
    assert(out@ =~= old(out)@ + language_line(opt_text(*l)));
}

fn write_stars(out: &mut String, s: Option<u64>)
    ensures
        final(out)@ == old(out)@ + stars_line(s),
{
    match s {
        Some(s) => {
            out.append("- **Stars:** ");
            let digits = u64_to_decimal(s);
            out.append(digits.as_str());
            out.append("\n");
        },
        None => {},
    }
    assert(out@ =~= old(out)@ + stars_line(s));
}

fn write_metadata(out: &mut String, r: &Repository)
    ensures
        final(out)@ == old(out)@ + metadata_lines(r@),
{
    write_description(out, &r.description);
    write_topics(out, &r.topics);
    write_language(out, &r.language);
    write_stars(out, r.stargazer_count);
    assert(out@ =~= old(out)@ + metadata_lines(r@));
}

fn write_readme(out: &mut String, name: &String, readmes: &Readmes, max_kb: usize)
    ensures
        final(out)@ == old(out)@ + readme_block(readmes@, name@, max_kb),
{
    let max_bytes = match max_kb.checked_mul(1024) {
        Some(b) => b,
        None => usize::MAX,
    };
    assert(max_bytes as nat == readme_budget(max_kb));
    match readmes.get(name) {
        Some(Some(content)) => {
            let truncated = truncate_utf8(content.as_str(), max_bytes);
            out.append("<details>\n<summary>README</summary>\n\n");
            out.append(truncated);
            proof {
                lemma_fitting_prefix(content@, max_bytes as nat);
                let m = truncated@.len() as int;
                lemma_prefix_utf8_len(content@, m, content@.len() as int);
                assert(content@.take(content@.len() as int) =~= content@);
            }
            if content.as_str().as_bytes().len() > truncated.as_bytes().len() {
                out.append("\n\n*(truncated at ");
                let digits = u64_to_decimal(max_kb as u64);
                out.append(digits.as_str());
                out.append(" KB; see source repo for full README)*\n");
            }
            out.append("\n</details>\n\n");
        },
        _ => {
            out.append("*(README unavailable)*\n\n");
        },
    }
    assert(out@ =~= old(out)@ + readme_block(readmes@, name@, max_kb));
}

fn render_repo(out: &mut String, r: &Repository, readmes: &Readmes, max_kb: usize)
    ensures
        final(out)@ == old(out)@ + entry(r@, readmes@, max_kb),
{
    out.append("### [");
    out.append(r.name_with_owner.as_str());
    out.append("](");
    out.append(r.url.as_str());
    out.append(")\n");
    write_metadata(out, r);
    out.append("\n");
    write_readme(out, &r.name_with_owner, readmes, max_kb);
    out.append("---\n\n");
    assert(out@ =~= old(out)@ + entry(r@, readmes@, max_kb));
}

fn write_archive_section(
    out: &mut String,
    list: &StarList,
    all_starred: &[Repository],
    readmes: &Readmes,
    max_kb: usize,
)
    ensures
        final(out)@ == old(out)@ + archive_section(list@, repo_models(all_starred@), readmes@, max_kb),
{
    let ghost all = repo_models(all_starred@);
    out.append("## ");
    out.append(list.name.as_str());
    out.append("\n\n");
    let repos = list.repositories.as_slice();
    let ghost models = repo_models(repos@);
    let order = alphabetical_positions(repos);
    let ghost head = out@;
    let n = order.len();
    assert(order@.take(0) =~= Seq::<usize>::empty());
    for k in 0..n
        invariant
            n == order.len(),
            models == repo_models(repos@),
            all == repo_models(all_starred@),
            forall|i: int| 0 <= i < order.len() ==> order[i] < repos.len(),
            out@ == head + entries_at(models, order@.take(k as int), all, readmes@, max_kb),
    {
        let repo = &repos[order[k]];
        let meta = match last_named_in(all_starred, &repo.name_with_owner) {
            Some(p) => &all_starred[p],
            None => repo,
        };
        assert(meta@ == metadata_for(all, models[order[k as int] as int]));
        render_repo(out, meta, readmes, max_kb);
        assert(order@.take(k + 1).drop_last() =~= order@.take(k as int));
        assert(out@ =~= head + entries_at(models, order@.take(k + 1), all, readmes@, max_kb));
    }
    assert(order@.take(n as int) =~= order@);
    assert(out@ =~= old(out)@ + archive_section(list@, all, readmes@, max_kb));
}

/// Renders the llms-full archive: the lists in configured order, each
/// repository with metadata (preferring the entry among all starred
/// repositories) and its README, truncated to the configured size.
pub fn generate(
    title: &str,
    lists: &[StarList],
    all_starred: &[Repository],
    readmes: &Readmes,
    config: &Config,
) -> (out: String)
    ensures
        out@ == archive(
            title@,
            list_models(lists@),
            repo_models(all_starred@),
            readmes@,
            texts(config.order@),
            config.llms_full.max_readme_size_kb,
        ),
{
    let ghost ls = list_models(lists@);
    let ghost all = repo_models(all_starred@);
    let kb = config.llms_full.max_readme_size_kb;
    let mut out = String::new();
    out.append("# ");
    out.append(title);
    out.append(" — Full archive\n\n");
    out.append("> Description, topics, and README of each starred repository.\n> Capped at ");
    let digits = u64_to_decimal(kb as u64);
    out.append(digits.as_str());
    out.append(" KB per README.\n\n");
    let ordered = apply_order(lists, config.order.as_slice());
    let ghost head = out@;
    let n = ordered.len();
    assert(ordered@.take(0) =~= Seq::<usize>::empty());
    for k in 0..n
        invariant
            n == ordered.len(),
            ls == list_models(lists@),
            all == repo_models(all_starred@),
            forall|i: int| 0 <= i < ordered.len() ==> ordered[i] < lists.len(),
            out@ == head + archive_sections(ls, ordered@.take(k as int), all, readmes@, kb),
    {
        write_archive_section(&mut out, &lists[ordered[k]], all_starred, readmes, kb);
        assert(ordered@.take(k + 1).drop_last() =~= ordered@.take(k as int));
        assert(out@ =~= head + archive_sections(ls, ordered@.take(k + 1), all, readmes@, kb));
    }
    assert(ordered@.take(n as int) =~= ordered@);
    assert(out@ =~= archive(title@, ls, all, readmes@, texts(config.order@), kb));
    out
}

} // verus!
