//! The llmstxt.org-compliant index: one section per Star List, in the order
//! the configuration asks for.

use vstd::prelude::*;
use crate::config::Config;
use crate::markdown::{alphabetical, alphabetical_positions, in_name_order, lemma_alphabetical};
use crate::text::{chars_of, push_char};
use crate::types::{list_models, repo_models, texts, Repository, RepositoryModel, StarList, StarListModel};

verus! {

/// The names of the lists.
pub open spec fn list_names(lists: Seq<StarListModel>) -> Seq<Seq<char>> {
    lists.map_values(|l: StarListModel| l.name)
}

/// The last position in `names` that holds `name`, if any.
pub open spec fn last_position(names: Seq<Seq<char>>, name: Seq<char>) -> Option<usize>
    decreases names.len(),
{
    if names.len() == 0 {
        None
    } else if names.last() == name {
        Some((names.len() - 1) as usize)
    } else {
        last_position(names.drop_last(), name)
    }
}

/// The lists picked by the first `k` entries of `order`: each entry, unless
/// an earlier entry has the same name, picks the last list with that name.
pub open spec fn picked(names: Seq<Seq<char>>, order: Seq<Seq<char>>, k: nat) -> Seq<usize>
    decreases k,
{
    if k == 0 {
        seq![]
    } else {
        let rest = picked(names, order, (k - 1) as nat);
        let name = order[k - 1];
        if order.take(k - 1).contains(name) {
            rest
        } else {
            match last_position(names, name) {
                Some(p) => rest.push(p),
                None => rest,
            }
        }
    }
}

/// The positions among the first `n` lists of those whose names `order`
/// does not mention, in their own order.
pub open spec fn unordered(names: Seq<Seq<char>>, order: Seq<Seq<char>>, n: nat) -> Seq<usize>
    decreases n,
{
    if n == 0 {
        seq![]
    } else {
        let rest = unordered(names, order, (n - 1) as nat);
        if order.contains(names[n - 1]) {
            rest
        } else {
            rest.push((n - 1) as usize)
        }
    }
}

/// The lists in configured order: those named by `order` first, in the order
/// of `order`, then the others in their own order.
pub open spec fn ordered_positions(names: Seq<Seq<char>>, order: Seq<Seq<char>>) -> Seq<usize> {
    picked(names, order, order.len()) + unordered(names, order, names.len())
}

fn text_in(v: &[String], upto: usize, s: &String) -> (b: bool)
    requires
        upto <= v.len(),
    ensures
        b == texts(v@).take(upto as int).contains(s@),
{
    for j in 0..upto
        invariant
            upto <= v.len(),
            forall|k: int| 0 <= k < j ==> texts(v@)[k] != s@,
    {
        if v[j] == *s {
            assert(texts(v@).take(upto as int)[j as int] == s@);
            return true;
        }
    }
    false
}

fn last_position_of(lists: &[StarList], name: &String) -> (p: Option<usize>)
    ensures
        p == last_position(list_names(list_models(lists@)), name@),
{
    let ghost names = list_names(list_models(lists@));
    let mut i = lists.len();
    assert(names.take(i as int) =~= names);
    while i > 0
        invariant
            i <= lists.len(),
            names == list_names(list_models(lists@)),
            last_position(names, name@) == last_position(names.take(i as int), name@),
        decreases i,
    {
        assert(names.take(i as int).drop_last() =~= names.take(i - 1));
        if lists[i - 1].name == *name {
            return Some(i - 1);
        }
        i -= 1;
    }
    None
}

/// The positions of `lists` in the order `order` asks for: lists named in
/// `order` first, in that order, then the rest in the order they come in.
pub fn apply_order(lists: &[StarList], order: &[String]) -> (r: Vec<usize>)
    ensures
        r@ == ordered_positions(list_names(list_models(lists@)), texts(order@)),
        forall|i: int| 0 <= i < r.len() ==> r[i] < lists.len(),
{
    let ghost names = list_names(list_models(lists@));
    let ghost ord = texts(order@);
    let mut r: Vec<usize> = Vec::new();
    let k_end = order.len();
    for k in 0..k_end
        invariant
            k_end == order.len(),
            names == list_names(list_models(lists@)),
            ord == texts(order@),
            r@ == picked(names, ord, k as nat),
            forall|i: int| 0 <= i < r.len() ==> r[i] < lists.len(),
    {
        assert(ord.take(k as int) == texts(order@).take(k as int));
        if !text_in(order, k, &order[k]) {
            match last_position_of(lists, &order[k]) {
                Some(p) => {
                    proof {
                        assert(names.len() == lists.len());
                        lemma_last_position_bound(names, ord[k as int]);
                    }
                    r.push(p);
                },
                None => {},
            }
        }
    }
    let ghost head = r@;
    let n = lists.len();
    for i in 0..n
        invariant
            n == lists.len(),
            k_end == order.len(),
            names == list_names(list_models(lists@)),
            ord == texts(order@),
            r@ == head + unordered(names, ord, i as nat),
            forall|j: int| 0 <= j < r.len() ==> r[j] < lists.len(),
    {
        assert(ord.take(k_end as int) =~= ord);
        if !text_in(order, k_end, &lists[i].name) {
            r.push(i);
        }
    }
    r
}

proof fn lemma_last_position_bound(names: Seq<Seq<char>>, name: Seq<char>)
    requires
        names.len() <= usize::MAX,
    ensures
        last_position(names, name) matches Some(p) ==> p < names.len() && names[p as int] == name,
    decreases names.len(),
{
    if names.len() > 0 && names.last() != name {
        lemma_last_position_bound(names.drop_last(), name);
        if let Some(p) = last_position(names.drop_last(), name) {
            assert(names.drop_last()[p as int] == names[p as int]);
        }
    }
}


proof fn lemma_picked(names: Seq<Seq<char>>, order: Seq<Seq<char>>, k: nat)
    requires
        names.len() <= usize::MAX,
        k <= order.len(),
    ensures
        picked(names, order, k).no_duplicates(),
        forall|a: int|
            0 <= a < picked(names, order, k).len() ==> {
                let x = #[trigger] picked(names, order, k)[a];
                &&& x < names.len()
                &&& order.take(k as int).contains(names[x as int])
                &&& last_position(names, names[x as int]) == Some(x)
            },
        forall|j: int|
            0 <= j < k && !order.take(j).contains(order[j]) && names.contains(order[j]) ==> exists|a: int|
                0 <= a < picked(names, order, k).len() && names[#[trigger] picked(names, order, k)[a] as int]
                    == order[j],
    decreases k,
{
    if k > 0 {
        let prev = picked(names, order, (k - 1) as nat);
        lemma_picked(names, order, (k - 1) as nat);
        assert(order.take(k as int).drop_last() =~= order.take(k - 1));
        let name = order[k - 1];
        lemma_last_position_bound(names, name);
        lemma_last_position_found(names, name);
        let r = picked(names, order, k);
        assert forall|a: int| 0 <= a < r.len() implies {
            let x = #[trigger] r[a];
            &&& x < names.len()
            &&& order.take(k as int).contains(names[x as int])
            &&& last_position(names, names[x as int]) == Some(x)
        } by {
            if a < prev.len() {
                assert(r[a] == prev[a]);
                let x = r[a];
                let w = choose|w: int| 0 <= w < k - 1 && #[trigger] order.take(k - 1)[w] == names[x as int];
                assert(order.take(k as int)[w] == names[x as int]);
            } else {
                assert(order.take(k as int)[k - 1] == name);
            }
        }
        if !order.take(k - 1).contains(name) {
            if let Some(p) = last_position(names, name) {
                assert forall|a: int| 0 <= a < prev.len() implies prev[a] != p by {
                    let x = prev[a];
                    if x == p {
                        assert(names[x as int] == name);
                    }
                }
                assert(r.no_duplicates());
            }
        }
        assert forall|j: int|
            0 <= j < k && !order.take(j).contains(order[j]) && names.contains(order[j]) implies exists|a: int|
                0 <= a < r.len() && names[#[trigger] r[a] as int] == order[j] by {
            if j < k - 1 {
                let a = choose|a: int| 0 <= a < prev.len() && names[#[trigger] prev[a] as int] == order[j];
                assert(r[a] == prev[a]);
            } else {
                assert(j == k - 1);
                assert(order.take(j) =~= order.take(k - 1));
                let p = last_position(names, name)->Some_0;
                assert(r[r.len() - 1] == p);
            }
        }
    }
}

proof fn lemma_last_position_found(names: Seq<Seq<char>>, name: Seq<char>)
    requires
        names.len() <= usize::MAX,
    ensures
        names.contains(name) <==> last_position(names, name) is Some,
        last_position(names, name) matches Some(p) ==> forall|i: int|
            p < i < names.len() ==> names[i] != name,
    decreases names.len(),
{
    if names.len() > 0 {
        lemma_last_position_found(names.drop_last(), name);
        if names.drop_last().contains(name) {
            let i = choose|i: int| 0 <= i < names.len() - 1 && #[trigger] names.drop_last()[i] == name;
            assert(names[i] == name);
        }
        if names.contains(name) && names.last() != name {
            let i = choose|i: int| 0 <= i < names.len() && #[trigger] names[i] == name;
            assert(names.drop_last()[i] == name);
        }
        if let Some(p) = last_position(names.drop_last(), name) {
            if names.last() != name {
                assert forall|i: int| p < i < names.len() implies names[i] != name by {
                    if i < names.len() - 1 {
                        assert(names.drop_last()[i] == names[i]);
                    }
                }
            }
        }
    }
}

proof fn lemma_unordered(names: Seq<Seq<char>>, order: Seq<Seq<char>>, n: nat)
    requires
        n <= names.len() <= usize::MAX,
    ensures
        forall|a: int, b: int|
            0 <= a < b < unordered(names, order, n).len() ==> unordered(names, order, n)[a]
                < unordered(names, order, n)[b],
        forall|a: int|
            0 <= a < unordered(names, order, n).len() ==> {
                let x = #[trigger] unordered(names, order, n)[a];
                x < n && !order.contains(names[x as int])
            },
        forall|i: int|
            0 <= i < n && !order.contains(names[i]) ==> unordered(names, order, n).contains(
                i as usize,
            ),
    decreases n,
{
    if n > 0 {
        lemma_unordered(names, order, (n - 1) as nat);
        let prev = unordered(names, order, (n - 1) as nat);
        let r = unordered(names, order, n);
        assert forall|i: int| 0 <= i < n && !order.contains(names[i]) implies r.contains(i as usize) by {
            if i < n - 1 {
                let a = choose|a: int| 0 <= a < prev.len() && #[trigger] prev[a] == i as usize;
                assert(r[a] == prev[a]);
            } else {
                assert(r[r.len() - 1] == i as usize);
            }
        }
    }
}

/// Laws of the configured order. No list shows up twice. Lists whose names
/// `order` does not mention all show up, after every list it mentions, in
/// the order they come in. When the list names are distinct, every list
/// shows up exactly once.
pub proof fn lemma_ordered_positions(names: Seq<Seq<char>>, order: Seq<Seq<char>>)
    requires
        names.len() <= usize::MAX,
    ensures
        ordered_positions(names, order).no_duplicates(),
        forall|a: int|
            0 <= a < ordered_positions(names, order).len() ==> #[trigger] ordered_positions(
                names,
                order,
            )[a] < names.len(),
        forall|i: int|
            0 <= i < names.len() && !order.contains(names[i]) ==> ordered_positions(
                names,
                order,
            ).contains(i as usize),
        forall|a: int, b: int|
            0 <= a < b < ordered_positions(names, order).len() && !order.contains(
                names[ordered_positions(names, order)[a] as int],
            ) ==> !order.contains(names[ordered_positions(names, order)[b] as int])
                && ordered_positions(names, order)[a] < ordered_positions(names, order)[b],
        names.no_duplicates() ==> forall|i: usize|
            i < names.len() ==> #[trigger] ordered_positions(names, order).contains(i),
{
    let pk = picked(names, order, order.len());
    let un = unordered(names, order, names.len());
    let r = ordered_positions(names, order);
    lemma_picked(names, order, order.len());
    lemma_unordered(names, order, names.len());
    assert(order.take(order.len() as int) =~= order);
    assert forall|a: int, b: int| 0 <= a < b < r.len() implies r[a] != r[b] by {
        if b < pk.len() {
            assert(r[a] == pk[a] && r[b] == pk[b]);
        } else if a >= pk.len() {
            assert(r[a] == un[a - pk.len()] && r[b] == un[b - pk.len()]);
        } else {
            assert(r[a] == pk[a] && r[b] == un[b - pk.len()]);
            assert(order.contains(names[pk[a] as int]));
        }
    }
    assert forall|a: int| 0 <= a < r.len() implies #[trigger] r[a] < names.len() by {
        if a < pk.len() {
            assert(r[a] == pk[a]);
        } else {
            assert(r[a] == un[a - pk.len()]);
        }
    }
    assert forall|i: int| 0 <= i < names.len() && !order.contains(names[i]) implies r.contains(
        i as usize,
    ) by {
        let a = choose|a: int| 0 <= a < un.len() && #[trigger] un[a] == i as usize;
        assert(r[a + pk.len()] == un[a]);
    }
    assert forall|a: int, b: int|
        0 <= a < b < r.len() && !order.contains(names[r[a] as int]) implies !order.contains(
            names[r[b] as int],
        ) && r[a] < r[b] by {
        if a < pk.len() {
            assert(r[a] == pk[a]);
        } else {
            assert(r[a] == un[a - pk.len()] && r[b] == un[b - pk.len()]);
        }
    }
    if names.no_duplicates() {
        assert forall|i: usize| i < names.len() implies #[trigger] r.contains(i) by {
            if order.contains(names[i as int]) {
                let j0 = choose|j: int| 0 <= j < order.len() && #[trigger] order[j] == names[i as int];
                let j = first_mention(order, names[i as int], j0);
                assert(names.contains(order[j]));
                let a = choose|a: int| 0 <= a < pk.len() && names[#[trigger] pk[a] as int] == order[j];
                assert(r[a] == pk[a]);
                assert(names[pk[a] as int] == names[i as int]);
            }
        }
    }
}

/// The first position at or before `j` where `order` mentions `name`.
proof fn first_mention(order: Seq<Seq<char>>, name: Seq<char>, j: int) -> (f: int)
    requires
        0 <= j < order.len(),
        order[j] == name,
    ensures
        0 <= f <= j,
        order[f] == name,
        !order.take(f).contains(name),
    decreases j,
{
    if order.take(j).contains(name) {
        let k = choose|k: int| 0 <= k < j && #[trigger] order.take(j)[k] == name;
        first_mention(order, name, k)
    } else {
        j
    }
}

/// `s` with every line feed and carriage return replaced by a space.
pub open spec fn collapse_newlines(s: Seq<char>) -> Seq<char> {
    s.map_values(|c: char| if c == '\n' || c == '\r' { ' ' } else { c })
}

/// The one-line description of a repository in the index (empty when none).
pub open spec fn index_description(r: RepositoryModel) -> Seq<char> {
    collapse_newlines(
        match r.description {
            Some(d) => d,
            None => seq![],
        },
    )
}

/// One index entry: `- [owner/name](url): description`, or without the
/// colon when the description is empty.
pub open spec fn index_line(r: RepositoryModel) -> Seq<char> {
    let d = index_description(r);
    if d.len() == 0 {
        "- ["@ + r.name_with_owner + "]("@ + r.url + ")\n"@
    } else {
        "- ["@ + r.name_with_owner + "]("@ + r.url + "): "@ + d + "\n"@
    }
}

/// The index entries of `repos` at the positions `order`, in that order.
pub open spec fn index_lines(repos: Seq<RepositoryModel>, order: Seq<usize>) -> Seq<char>
    decreases order.len(),
{
    if order.len() == 0 {
        seq![]
    } else {
        index_lines(repos, order.drop_last()) + index_line(repos[order.last() as int])
    }
}

/// Law of the index: a description never carries a line break into the
/// index, so every entry is a single line.
pub proof fn lemma_index_description_one_line(r: RepositoryModel)
    ensures
        forall|i: int|
            0 <= i < index_description(r).len() ==> #[trigger] index_description(r)[i] != '\n'
                && index_description(r)[i] != '\r',
{
}

/// The index section of one list.
pub open spec fn index_section(l: StarListModel) -> Seq<char> {
    "## "@ + l.name + "\n\n"@ + index_lines(l.repositories, alphabetical(l.repositories))
        + "\n"@
}

/// Law of index sections: a list's section shows each of its repositories
/// once, sorted case-insensitively by `owner/name`.
pub proof fn lemma_index_section_sorted(l: StarListModel)
    requires
        l.repositories.len() <= usize::MAX,
    ensures
        exists|ord: Seq<usize>|
            #[trigger] in_name_order(ord, l.repositories) && index_section(l) == "## "@ + l.name + "\n\n"@
                + index_lines(l.repositories, ord) + "\n"@,
{
    lemma_alphabetical(l.repositories);
    assert(in_name_order(alphabetical(l.repositories), l.repositories));
}

/// The index sections of the lists at the positions `order`, in that order.
pub open spec fn index_sections(lists: Seq<StarListModel>, order: Seq<usize>) -> Seq<char>
    decreases order.len(),
{
    if order.len() == 0 {
        seq![]
    } else {
        index_sections(lists, order.drop_last()) + index_section(lists[order.last() as int])
    }
}

/// The llms.txt index with the given title.
pub open spec fn llms_index(title: Seq<char>, lists: Seq<StarListModel>, order: Seq<Seq<char>>) -> Seq<char> {
    "# "@ + title + "\n\n"@ + "> Personally curated GitHub stars\n\n"@ + index_sections(
        lists,
        ordered_positions(list_names(lists), order),
    )
}

/// Appends `s` with line feeds and carriage returns turned into spaces.
fn append_collapsed(out: &mut String, s: &str)
    ensures
        final(out)@ == old(out)@ + collapse_newlines(s@),
{
    let cs = chars_of(s);
    let n = cs.len();
    for i in 0..n
        invariant
            n == cs.len(),
            cs@ == s@,
            out@ == old(out)@ + collapse_newlines(cs@.take(i as int)),
    {
        let c = cs[i];
        let d = if c == '\n' || c == '\r' { ' ' } else { c };
        push_char(out, d);
        assert(collapse_newlines(cs@.take(i + 1)) =~= collapse_newlines(cs@.take(i as int)).push(d));
    }
    assert(cs@.take(n as int) =~= cs@);
}

fn write_index_line(out: &mut String, r: &Repository)
    ensures
        final(out)@ == old(out)@ + index_line(r@),
{
    let mut desc = String::new();
    match &r.description {
        Some(d) => append_collapsed(&mut desc, d.as_str()),
        None => {},
    }
    assert(desc@ =~= index_description(r@));
    out.append("- [");
    out.append(r.name_with_owner.as_str());
    out.append("](");
    out.append(r.url.as_str());
    if desc.as_str().is_empty() {
        out.append(")\n");
    } else {
        out.append("): ");
        out.append(desc.as_str());
        out.append("\n");
    }
    assert(out@ =~= old(out)@ + index_line(r@));
}

fn write_index_section(out: &mut String, list: &StarList)
    ensures
        final(out)@ == old(out)@ + index_section(list@),
{
    out.append("## ");
    out.append(list.name.as_str());
    out.append("\n\n");
    let repos = list.repositories.as_slice();
    let order = alphabetical_positions(repos);
    let ghost models = repo_models(repos@);
    let ghost head = out@;
    let n = order.len();
    assert(order@.take(0) =~= Seq::<usize>::empty());
    for k in 0..n
        invariant
            n == order.len(),
            models == repo_models(repos@),
            forall|i: int| 0 <= i < order.len() ==> order[i] < repos.len(),
            out@ == head + index_lines(models, order@.take(k as int)),
    {
        write_index_line(out, &repos[order[k]]);
        assert(order@.take(k + 1).drop_last() =~= order@.take(k as int));
        assert(out@ =~= head + index_lines(models, order@.take(k + 1)));
    }
    assert(order@.take(n as int) =~= order@);
    out.append("\n");
    assert(out@ =~= old(out)@ + index_section(list@));
}

/// Generates the llmstxt.org-compliant index of starred repositories: the
/// lists in configured order, each with its repositories alphabetically.
pub fn generate(title: &str, lists: &[StarList], config: &Config) -> (out: String)
    ensures
        out@ == llms_index(title@, list_models(lists@), texts(config.order@)),
{
    let ghost ls = list_models(lists@);
    let mut out = String::new();
    out.append("# ");
    out.append(title);
    out.append("\n\n");
    out.append("> Personally curated GitHub stars\n\n");
    let ordered = apply_order(lists, config.order.as_slice());
    let ghost head = out@;
    let n = ordered.len();
    assert(ordered@.take(0) =~= Seq::<usize>::empty());
    for k in 0..n
        invariant
            n == ordered.len(),
            ls == list_models(lists@),
            forall|i: int| 0 <= i < ordered.len() ==> ordered[i] < lists.len(),
            out@ == head + index_sections(ls, ordered@.take(k as int)),
    {
        write_index_section(&mut out, &lists[ordered[k]]);
        assert(ordered@.take(k + 1).drop_last() =~= ordered@.take(k as int));
        assert(out@ =~= head + index_sections(ls, ordered@.take(k + 1)));
    }
    assert(ordered@.take(n as int) =~= ordered@);
    assert(out@ =~= llms_index(title@, ls, texts(config.order@)));
    out
}

} // verus!
