//! The Awesome List: a Markdown document with a Focus legend, a table of
//! contents, one section per Star List that is not a Focus List, and an
//! "Uncategorized" section for the rest.

use vstd::prelude::*;
use crate::config::Config;
use crate::llms_txt::{apply_order, list_names, ordered_positions, unordered};
use crate::sorting::{key_views, lemma_sort_by_key, sort_by_key, sort_positions, sorted_by_key};
use crate::types::{list_models, opt_text, repo_models, texts, Repository, RepositoryModel, StarList, StarListModel};
use crate::text::{alphanumeric, chars_of, is_alphanumeric, is_ascii_char, char_is_ascii, lowercase, push_char, to_lowercase};

verus! {

/// What an anchor keeps of one lowercased character: a space or `-` becomes
/// `-`, an alphanumeric character or `_` stays, anything else is dropped.
pub open spec fn anchor_piece(c: char) -> Seq<char> {
    if c == ' ' || c == '-' {
        seq!['-']
    } else if alphanumeric(c) || c == '_' {
        seq![c]
    } else {
        seq![]
    }
}

/// The anchor of already lowercased text: each character replaced by its
/// [`anchor_piece`].
pub open spec fn anchor_slug(s: Seq<char>) -> Seq<char>
    decreases s.len(),
{
    if s.len() == 0 {
        seq![]
    } else {
        anchor_slug(s.drop_last()) + anchor_piece(s.last())
    }
}

/// The GitHub anchor of a heading: lowercased, everything but alphanumeric
/// characters, `-`, `_` and spaces dropped, and each space turned into `-`.
pub open spec fn anchor(name: Seq<char>) -> Seq<char> {
    anchor_slug(lowercase(name))
}

/// Law of anchors: an anchor holds no space; each of its characters is `-`,
/// `_` or alphanumeric.
pub proof fn lemma_anchor_chars(name: Seq<char>)
    ensures
        forall|i: int|
            0 <= i < anchor(name).len() ==> #[trigger] anchor(name)[i] != ' ' && (anchor(name)[i] == '-'
                || anchor(name)[i] == '_' || alphanumeric(anchor(name)[i])),
{
    lemma_slug_chars(lowercase(name));
}

proof fn lemma_slug_chars(s: Seq<char>)
    ensures
        forall|i: int|
            0 <= i < anchor_slug(s).len() ==> #[trigger] anchor_slug(s)[i] != ' ' && (anchor_slug(s)[i]
                == '-' || anchor_slug(s)[i] == '_' || alphanumeric(anchor_slug(s)[i])),
    decreases s.len(),
{
    if s.len() > 0 {
        lemma_slug_chars(s.drop_last());
        let a = anchor_slug(s.drop_last());
        let r = anchor_slug(s);
        assert forall|i: int| 0 <= i < r.len() implies #[trigger] r[i] != ' ' && (r[i] == '-'
            || r[i] == '_' || alphanumeric(r[i])) by {
            if i < a.len() {
                assert(r[i] == a[i]);
            }
        }
    }
}

/// Law of anchors: every alphanumeric character and `_` is kept, every
/// space becomes `-`, every `-` stays. So on lowercased text made only of
/// such characters the anchor has the same length, with spaces turned into
/// `-` and every other character unchanged.
pub proof fn lemma_anchor_keeps(s: Seq<char>)
    requires
        forall|i: int| 0 <= i < s.len() ==> alphanumeric(#[trigger] s[i]) || s[i] == '_' || s[i] == '-' || s[i] == ' ',
    ensures
        anchor_slug(s).len() == s.len(),
        forall|i: int| 0 <= i < s.len() ==> #[trigger] anchor_slug(s)[i] == if s[i] == ' ' { '-' } else { s[i] },
    decreases s.len(),
{
    if s.len() > 0 {
        let t = s.drop_last();
        assert forall|i: int| 0 <= i < t.len() implies alphanumeric(#[trigger] t[i]) || t[i] == '_' || t[i] == '-'
            || t[i] == ' ' by {
            assert(t[i] == s[i]);
        }
        lemma_anchor_keeps(t);
        let r = anchor_slug(s);
        let c = s.last();
        assert(alphanumeric(s[s.len() - 1]) || c == '_' || c == '-' || c == ' ');
        assert(anchor_piece(c) =~= seq![if c == ' ' { '-' } else { c }]);
        assert forall|i: int| 0 <= i < s.len() implies #[trigger] r[i] == if s[i] == ' ' { '-' } else { s[i] } by {
            if i < t.len() {
                assert(r[i] == anchor_slug(t)[i]);
                assert(t[i] == s[i]);
            }
        }
    }
}

/// The anchor of already lowercased text: spaces and `-` become `-`,
/// alphanumeric characters and `_` stay, the rest is dropped.
pub fn anchor_from_lowercase(lower: &str) -> (a: String)
    ensures
        a@ == anchor_slug(lower@),
{
    let cs = chars_of(lower);
    let mut out = String::new();
    let n = cs.len();
    assert(cs@.take(0) =~= Seq::<char>::empty());
    for i in 0..n
        invariant
            n == cs.len(),
            out@ == anchor_slug(cs@.take(i as int)),
    {
        let c = cs[i];
        assert(cs@.take(i + 1).drop_last() =~= cs@.take(i as int));
        assert(cs@.take(i + 1).last() == c);
        if c == ' ' || c == '-' {
            push_char(&mut out, '-');
        } else if c == '_' || is_alphanumeric(c) {
            push_char(&mut out, c);
        }
        assert(out@ =~= anchor_slug(cs@.take(i + 1)));
    }
    assert(cs@.take(n as int) =~= lower@);
    out
}

/// Converts a section name to a GitHub-compatible anchor.
pub fn to_anchor(name: &str) -> (a: String)
    ensures
        a@ == anchor(name@),
{
    let lower = to_lowercase(name);
    anchor_from_lowercase(lower.as_str())
}

/// A list name with an emoji prefix removed: when the name starts with a
/// non-ASCII character followed by a space, the text after that space;
/// otherwise the name itself.
pub open spec fn without_emoji_prefix(name: Seq<char>) -> Seq<char> {
    if name.len() >= 2 && !is_ascii_char(name[0]) && name[1] == ' ' {
        name.skip(2)
    } else {
        name
    }
}

/// If `name` starts with a non-ASCII character followed by an ASCII space,
/// returns the remainder after that space; otherwise returns `name`.
pub fn strip_emoji_prefix(name: &str) -> (r: &str)
    ensures
        r@ == without_emoji_prefix(name@),
{
    let len = name.unicode_len();
    if len < 2 {
        return name;
    }
    let first = name.get_char(0);
    if char_is_ascii(first) {
        return name;
    }
    if name.get_char(1) != ' ' {
        return name;
    }
    name.substring_char(2, len)
}

/// The prefix that marks a Focus List.
pub open spec fn focus_marker() -> Seq<char> {
    "Focus: "@
}

/// Whether a list name designates a Focus List: after an optional emoji
/// prefix it starts with `Focus: ` (capital F, colon, space).
pub open spec fn focus_list(name: Seq<char>) -> bool {
    focus_marker().is_prefix_of(without_emoji_prefix(name))
}

/// Law of Focus Lists: any name that starts with `Focus: ` is a Focus List.
pub proof fn lemma_focus_marker(rest: Seq<char>)
    ensures
        focus_list(focus_marker() + rest),
{
    reveal_strlit("Focus: ");
    let s = focus_marker() + rest;
    assert(s.take(focus_marker().len() as int) =~= focus_marker());
}

/// Returns true when the list name designates a Focus List.
pub fn is_focus_list(name: &str) -> (b: bool)
    ensures
        b == focus_list(name@),
{
    let rest = chars_of(strip_emoji_prefix(name));
    let marker = chars_of("Focus: ");
    if rest.len() < marker.len() {
        return false;
    }
    let mut i: usize = 0;
    while i < marker.len()
        invariant
            i <= marker.len() <= rest.len(),
            marker@ == focus_marker(),
            rest@ == without_emoji_prefix(name@),
            forall|k: int| 0 <= k < i ==> marker@[k] == rest@[k],
        decreases marker.len() - i,
    {
        if marker[i] != rest[i] {
            return false;
        }
        i += 1;
    }
    true
}


/// The length of a name's emoji prefix: 2 when it starts with a non-ASCII
/// character followed by a space, 0 otherwise.
pub open spec fn emoji_prefix_len(name: Seq<char>) -> int {
    if name.len() >= 2 && !is_ascii_char(name[0]) && name[1] == ' ' {
        2
    } else {
        0
    }
}

/// The display name of a Focus List: what follows `Focus: `.
pub open spec fn focus_display(name: Seq<char>) -> Seq<char> {
    without_emoji_prefix(name).skip(focus_marker().len() as int)
}

/// The inline tag of a Focus List: its emoji prefix, if any, and its
/// display name (`🔥 Focus: In Production` gives `🔥 In Production`).
pub open spec fn focus_tag(name: Seq<char>) -> Seq<char> {
    name.take(emoji_prefix_len(name)) + focus_display(name)
}

/// The tag a list contributes: `Some(tag)` for a Focus List with a nonempty
/// display name, `None` for every other list.
pub open spec fn label_of(l: StarListModel) -> Option<Seq<char>> {
    if focus_list(l.name) && focus_display(l.name).len() > 0 {
        Some(focus_tag(l.name))
    } else {
        None
    }
}

/// The tag of a Focus List with a nonempty display name; `None` otherwise.
pub fn focus_label(name: &str) -> (r: Option<String>)
    ensures
        opt_text(r) == (if focus_list(name@) && focus_display(name@).len() > 0 {
            Some(focus_tag(name@))
        } else {
            None
        }),
{
    if !is_focus_list(name) {
        return None;
    }
    let cs = chars_of(name);
    let p: usize = if cs.len() >= 2 && !char_is_ascii(cs[0]) && cs[1] == ' ' {
        2
    } else {
        0
    };
    proof {
        assert(p as int == emoji_prefix_len(name@));
        if p == 0 {
            assert(without_emoji_prefix(name@) == name@);
        } else {
            assert(without_emoji_prefix(name@) == name@.skip(2));
        }
        assert(focus_marker().len() == 7) by {
            reveal_strlit("Focus: ");
        }
    }
    let start = p + 7;
    if cs.len() <= start {
        assert(focus_display(name@).len() == 0);
        return None;
    }
    let mut out = String::new();
    for i in 0..p
        invariant
            p <= 2,
            p < cs.len(),
            cs@ == name@,
            out@ == cs@.take(i as int),
    {
        push_char(&mut out, cs[i]);
        assert(cs@.take(i + 1) =~= cs@.take(i as int).push(cs[i as int]));
    }
    let ghost head = out@;
    let n = cs.len();
    for i in start..n
        invariant
            start <= n,
            n == cs.len(),
            cs@ == name@,
            out@ == head + cs@.subrange(start as int, i as int),
    {
        push_char(&mut out, cs[i]);
        assert(cs@.subrange(start as int, i + 1) =~= cs@.subrange(start as int, i as int).push(
            cs[i as int],
        ));
    }
    assert(head =~= name@.take(emoji_prefix_len(name@)));
    assert(cs@.subrange(start as int, n as int) =~= focus_display(name@));
    Some(out)
}

/// Whether list `l` holds a repository named `name`.
pub open spec fn holds(l: StarListModel, name: Seq<char>) -> bool {
    exists|j: int| 0 <= j < l.repositories.len() && #[trigger] l.repositories[j].name_with_owner == name
}

/// The inline tags of the repository named `name`: one `` `tag` `` for each
/// Focus List of `ls` (with a nonempty display name) that holds it, in the
/// order of `ls`.
pub open spec fn focus_tags(ls: Seq<StarListModel>, name: Seq<char>) -> Seq<char>
    decreases ls.len(),
{
    if ls.len() == 0 {
        seq![]
    } else {
        let prev = focus_tags(ls.drop_last(), name);
        match label_of(ls.last()) {
            Some(t) => if holds(ls.last(), name) {
                prev + " `"@ + t + "`"@
            } else {
                prev
            },
            None => prev,
        }
    }
}

/// Whether `w` occurs in `s` as a contiguous piece.
pub open spec fn occurs(w: Seq<char>, s: Seq<char>) -> bool {
    exists|k: int| 0 <= k && k + w.len() <= s.len() && #[trigger] s.subrange(k, k + w.len()) == w
}

/// Law of Focus tags: every Focus List (with a nonempty display name) that
/// holds a repository contributes its tag `` `tag` `` to that repository's
/// tags, whichever position it has among the lists; a repository that no
/// such list holds gets no tags at all.
pub proof fn lemma_focus_tags_complete(ls: Seq<StarListModel>, name: Seq<char>)
    ensures
        forall|i: int|
            0 <= i < ls.len() && #[trigger] label_of(ls[i]) is Some && holds(ls[i], name) ==> occurs(
                " `"@ + label_of(ls[i])->0 + "`"@,
                focus_tags(ls, name),
            ),
        (forall|i: int| 0 <= i < ls.len() ==> !(#[trigger] label_of(ls[i]) is Some && holds(ls[i], name)))
            ==> focus_tags(ls, name).len() == 0,
    decreases ls.len(),
{
    if ls.len() > 0 {
        let t = ls.drop_last();
        lemma_focus_tags_complete(t, name);
        let prev = focus_tags(t, name);
        let ft = focus_tags(ls, name);
        assert(ft.subrange(0, prev.len() as int) =~= prev);
        assert forall|i: int|
            0 <= i < ls.len() && #[trigger] label_of(ls[i]) is Some && holds(ls[i], name) implies occurs(
                " `"@ + label_of(ls[i])->0 + "`"@,
                ft,
            ) by {
            let w = " `"@ + label_of(ls[i])->0 + "`"@;
            if i < t.len() {
                assert(t[i] == ls[i]);
                assert(label_of(t[i]) is Some && holds(t[i], name));
                let k = choose|k: int| 0 <= k && k + w.len() <= prev.len() && #[trigger] prev.subrange(k, k + w.len()) == w;
                assert(ft.subrange(k, k + w.len()) =~= prev.subrange(k, k + w.len()));
            } else {
                assert(ls.last() == ls[i]);
                assert(ft =~= prev + w);
                assert(ft.subrange(prev.len() as int, (prev.len() + w.len()) as int) =~= w);
            }
        }
        if forall|i: int| 0 <= i < ls.len() ==> !(#[trigger] label_of(ls[i]) is Some && holds(ls[i], name)) {
            assert forall|i: int| 0 <= i < t.len() implies !(#[trigger] label_of(t[i]) is Some && holds(t[i], name)) by {
                assert(t[i] == ls[i]);
            }
            assert(!(label_of(ls[ls.len() - 1]) is Some && holds(ls[ls.len() - 1], name)));
        }
    }
}

/// The description shown for a repository that has none.
pub open spec fn no_description() -> Seq<char> {
    "No description provided"@
}

/// One bullet of the Awesome List: `- [owner/name](url) - description`,
/// followed by the repository's Focus tags among the lists `ls`.
pub open spec fn repo_line(r: RepositoryModel, ls: Seq<StarListModel>) -> Seq<char> {
    "- ["@ + r.name_with_owner + "]("@ + r.url + ") - "@ + match r.description {
        Some(d) => d,
        None => no_description(),
    } + focus_tags(ls, r.name_with_owner) + "\n"@
}

/// The sort keys of repositories: their lowercased `owner/name`.
pub open spec fn name_keys(repos: Seq<RepositoryModel>) -> Seq<Seq<char>> {
    repos.map_values(|r: RepositoryModel| lowercase(r.name_with_owner))
}

/// The bullets of `repos` at the positions `order`, in that order, tagged
/// by the Focus Lists among `ls`.
pub open spec fn lines_at(repos: Seq<RepositoryModel>, order: Seq<usize>, ls: Seq<StarListModel>) -> Seq<char>
    decreases order.len(),
{
    if order.len() == 0 {
        seq![]
    } else {
        lines_at(repos, order.drop_last(), ls) + repo_line(repos[order.last() as int], ls)
    }
}

/// The positions `0..n`.
pub open spec fn positions(n: nat) -> Seq<usize> {
    Seq::new(n, |i: int| i as usize)
}

/// The positions of `repos` sorted (stably) by lowercased `owner/name`.
pub open spec fn alphabetical(repos: Seq<RepositoryModel>) -> Seq<usize> {
    sort_by_key(positions(repos.len()), name_keys(repos))
}

/// One legend entry: `` - `tag` - description `` (without the description
/// part when there is none).
pub open spec fn legend_entry(tag: Seq<char>, d: Option<Seq<char>>) -> Seq<char> {
    "- `"@ + tag + "`"@ + match d {
        Some(d) => if d.len() > 0 { " - "@ + d } else { seq![] },
        None => seq![],
    } + "\n"@
}

/// The legend entries of the Focus Lists among `ls`, in order.
pub open spec fn legend_entries(ls: Seq<StarListModel>) -> Seq<char>
    decreases ls.len(),
{
    if ls.len() == 0 {
        seq![]
    } else {
        legend_entries(ls.drop_last()) + match label_of(ls.last()) {
            Some(t) => legend_entry(t, ls.last().description),
            None => seq![],
        }
    }
}

/// The Focus legend at the top of the document; empty without Focus Lists.
pub open spec fn legend(ls: Seq<StarListModel>) -> Seq<char> {
    if legend_entries(ls).len() > 0 {
        "**Focus**\n\n"@ + legend_entries(ls) + "\n"@
    } else {
        seq![]
    }
}

/// One table-of-contents entry: `- [name](#anchor)`.
pub open spec fn toc_entry(l: StarListModel) -> Seq<char> {
    "- ["@ + l.name + "](#"@ + anchor(l.name) + ")\n"@
}

/// The table-of-contents entries of the lists that are not Focus Lists.
pub open spec fn toc(lists: Seq<StarListModel>) -> Seq<char>
    decreases lists.len(),
{
    if lists.len() == 0 {
        seq![]
    } else if focus_list(lists.last().name) {
        toc(lists.drop_last())
    } else {
        toc(lists.drop_last()) + toc_entry(lists.last())
    }
}

/// The quoted description under a section heading, when there is a nonempty one.
pub open spec fn quoted_description(d: Option<Seq<char>>) -> Seq<char> {
    match d {
        Some(d) => if d.len() > 0 { "> "@ + d + "\n\n"@ } else { seq![] },
        None => seq![],
    }
}

/// The section of one list: heading, description, and its repositories in
/// alphabetical order, tagged by the Focus Lists among `ls`.
pub open spec fn section(l: StarListModel, ls: Seq<StarListModel>) -> Seq<char> {
    "## "@ + l.name + "\n\n"@ + quoted_description(l.description) + lines_at(
        l.repositories,
        alphabetical(l.repositories),
        ls,
    ) + "\n"@
}

/// The sections of the lists of `lists` that are not Focus Lists, in order.
pub open spec fn sections(lists: Seq<StarListModel>, ls: Seq<StarListModel>) -> Seq<char>
    decreases lists.len(),
{
    if lists.len() == 0 {
        seq![]
    } else if focus_list(lists.last().name) {
        sections(lists.drop_last(), ls)
    } else {
        sections(lists.drop_last(), ls) + section(lists.last(), ls)
    }
}

/// Whether some list (Focus List or not) holds a repository named `name`.
pub open spec fn is_listed(lists: Seq<StarListModel>, name: Seq<char>) -> bool {
    exists|i: int, j: int|
        0 <= i < lists.len() && 0 <= j < lists[i].repositories.len() && #[trigger] lists[i].repositories[j].name_with_owner == name
}

/// The positions among the first `n` starred repositories of those that no
/// list holds.
pub open spec fn unlisted(lists: Seq<StarListModel>, all: Seq<RepositoryModel>, n: nat) -> Seq<usize>
    decreases n,
{
    if n == 0 {
        seq![]
    } else {
        let rest = unlisted(lists, all, (n - 1) as nat);
        if is_listed(lists, all[n - 1].name_with_owner) {
            rest
        } else {
            rest.push((n - 1) as usize)
        }
    }
}

/// The positions of the uncategorized stars, in alphabetical order.
pub open spec fn uncategorized(lists: Seq<StarListModel>, all: Seq<RepositoryModel>) -> Seq<usize> {
    sort_by_key(unlisted(lists, all, all.len()), name_keys(all))
}

/// The Awesome List for `lists` (in the order given) and all starred
/// repositories `all`. Focus Lists get no section and no table-of-contents
/// entry: they show up as the legend and as tags on their repositories.
pub open spec fn awesome_list(lists: Seq<StarListModel>, all: Seq<RepositoryModel>) -> Seq<char> {
    let unc = uncategorized(lists, all);
    "# Awesome Stars\n\n"@ + "> A curated list of my GitHub stars, organized by lists.\n\n"@
        + legend(lists) + "## Contents\n\n"@ + toc(lists) + (if unc.len() > 0 {
        "- [Uncategorized](#uncategorized)\n"@
    } else {
        seq![]
    }) + "\n"@ + sections(lists, lists) + (if unc.len() > 0 {
        "## Uncategorized\n\n"@ + lines_at(all, unc, lists) + "\n"@
    } else {
        seq![]
    })
}

/// The lists of `lists` that are not Focus Lists, in order.
pub open spec fn topic_lists(lists: Seq<StarListModel>) -> Seq<StarListModel>
    decreases lists.len(),
{
    if lists.len() == 0 {
        seq![]
    } else if focus_list(lists.last().name) {
        topic_lists(lists.drop_last())
    } else {
        topic_lists(lists.drop_last()).push(lists.last())
    }
}

/// Law of Focus Lists in the document: they get no table-of-contents entry
/// and no section. The contents and sections are those of the other lists
/// alone, and none of those is a Focus List.
pub proof fn lemma_focus_lists_get_no_section(lists: Seq<StarListModel>, ls: Seq<StarListModel>)
    ensures
        toc(lists) == toc(topic_lists(lists)),
        sections(lists, ls) == sections(topic_lists(lists), ls),
        forall|i: int| 0 <= i < topic_lists(lists).len() ==> !focus_list(#[trigger] topic_lists(lists)[i].name),
    decreases lists.len(),
{
    let t = topic_lists(lists);
    if lists.len() > 0 {
        lemma_focus_lists_get_no_section(lists.drop_last(), ls);
        let t0 = topic_lists(lists.drop_last());
        if !focus_list(lists.last().name) {
            assert(t.drop_last() =~= t0);
            assert forall|i: int| 0 <= i < t.len() implies !focus_list(#[trigger] t[i].name) by {
                if i < t0.len() {
                    assert(t[i] == t0[i]);
                }
            }
        }
    }
}

/// The lists at the positions `ord`, in that order.
pub open spec fn arranged(lists: Seq<StarListModel>, ord: Seq<usize>) -> Seq<StarListModel> {
    ord.map_values(|p: usize| lists[p as int])
}

/// The Awesome List with the lists in the order `order` asks for (lists it
/// does not name come last, in their own order).
pub open spec fn ordered_awesome_list(
    lists: Seq<StarListModel>,
    all: Seq<RepositoryModel>,
    order: Seq<Seq<char>>,
) -> Seq<char> {
    awesome_list(arranged(lists, ordered_positions(list_names(lists), order)), all)
}

proof fn lemma_unordered_all(names: Seq<Seq<char>>, n: nat)
    requires
        n <= names.len() <= usize::MAX,
    ensures
        unordered(names, seq![], n) =~= positions(n),
    decreases n,
{
    if n > 0 {
        lemma_unordered_all(names, (n - 1) as nat);
        assert(!Seq::<Seq<char>>::empty().contains(names[n - 1]));
        assert(positions(n) =~= positions((n - 1) as nat).push((n - 1) as usize));
    }
}

/// Without a configured order the lists keep their own order.
pub proof fn lemma_no_order_keeps_lists(lists: Seq<StarListModel>, all: Seq<RepositoryModel>)
    requires
        lists.len() <= usize::MAX,
    ensures
        ordered_awesome_list(lists, all, seq![]) == awesome_list(lists, all),
{
    let names = list_names(lists);
    lemma_unordered_all(names, names.len());
    let ord = ordered_positions(names, seq![]);
    assert(ord =~= positions(lists.len()));
    assert(arranged(lists, ord) =~= lists);
}

proof fn lemma_unlisted(lists: Seq<StarListModel>, all: Seq<RepositoryModel>, n: nat)
    requires
        n <= all.len() <= usize::MAX,
    ensures
        unlisted(lists, all, n).no_duplicates(),
        forall|p: usize| #[trigger] unlisted(lists, all, n).contains(p) <==> p < n && !is_listed(lists, all[p as int].name_with_owner),
    decreases n,
{
    if n > 0 {
        lemma_unlisted(lists, all, (n - 1) as nat);
        let prev = unlisted(lists, all, (n - 1) as nat);
        let r = unlisted(lists, all, n);
        assert forall|a: int| 0 <= a < prev.len() implies prev[a] < n - 1 by {
            assert(prev.contains(prev[a]));
        }
        assert forall|p: usize| #[trigger] r.contains(p) <==> p < n && !is_listed(lists, all[p as int].name_with_owner) by {
            if !is_listed(lists, all[n - 1].name_with_owner) {
                if prev.contains(p) {
                    let a = choose|a: int| 0 <= a < prev.len() && prev[a] == p;
                    assert(r[a] == p);
                }
                if r.contains(p) && p != (n - 1) as usize {
                    let a = choose|a: int| 0 <= a < r.len() && r[a] == p;
                    assert(prev[a] == p);
                }
                if p == (n - 1) as usize {
                    assert(r[r.len() - 1] == p);
                }
            }
        }
    }
}

/// Law of the Uncategorized section: it holds each starred repository that
/// no list (Focus List or not) holds, once, and nothing else, in
/// alphabetical order of names.
pub proof fn lemma_uncategorized(lists: Seq<StarListModel>, all: Seq<RepositoryModel>)
    requires
        all.len() <= usize::MAX,
    ensures
        uncategorized(lists, all).no_duplicates(),
        forall|p: usize| #[trigger] uncategorized(lists, all).contains(p) <==> p < all.len() && !is_listed(lists, all[p as int].name_with_owner),
        sorted_by_key(uncategorized(lists, all), name_keys(all)),
{
    let u = unlisted(lists, all, all.len());
    lemma_unlisted(lists, all, all.len());
    lemma_sort_by_key(u, name_keys(all));
    let r = uncategorized(lists, all);
    broadcast use vstd::seq_lib::group_to_multiset_ensures;
    assert forall|p: usize| #[trigger] r.contains(p) <==> u.contains(p) by {
        assert(r.to_multiset().count(p) == u.to_multiset().count(p));
    }
    u.lemma_multiset_has_no_duplicates();
    r.lemma_multiset_has_no_duplicates_conv();
}

/// Law of every section: it lists each repository of its list once, in
/// alphabetical order of names.
pub proof fn lemma_alphabetical(repos: Seq<RepositoryModel>)
    requires
        repos.len() <= usize::MAX,
    ensures
        alphabetical(repos).to_multiset() =~= positions(repos.len()).to_multiset(),
        sorted_by_key(alphabetical(repos), name_keys(repos)),
{
    lemma_sort_by_key(positions(repos.len()), name_keys(repos));
}

/// Whether `ord` lists every position of `repos` once, in nondecreasing
/// order of lowercased `owner/name`.
pub open spec fn in_name_order(ord: Seq<usize>, repos: Seq<RepositoryModel>) -> bool {
    &&& ord.to_multiset() =~= positions(repos.len()).to_multiset()
    &&& sorted_by_key(ord, name_keys(repos))
}

/// Law of sections: a list's section shows each of its repositories once,
/// sorted case-insensitively by `owner/name`, under its heading and
/// description.
pub proof fn lemma_section_sorted(l: StarListModel, ls: Seq<StarListModel>)
    requires
        l.repositories.len() <= usize::MAX,
    ensures
        exists|ord: Seq<usize>|
            #[trigger] in_name_order(ord, l.repositories) && section(l, ls) == "## "@ + l.name + "\n\n"@
                + quoted_description(l.description) + lines_at(l.repositories, ord, ls) + "\n"@,
{
    lemma_alphabetical(l.repositories);
    assert(in_name_order(alphabetical(l.repositories), l.repositories));
}

/// The lists `lists` at positions `ord`, with the tags `labels` computed for
/// them.
pub open spec fn labelled(lists: Seq<StarList>, ord: Seq<usize>, labels: Seq<Option<String>>) -> bool {
    &&& ord.len() == labels.len()
    &&& forall|k: int| 0 <= k < ord.len() ==> #[trigger] ord[k] < lists.len()
    &&& forall|k: int|
        0 <= k < ord.len() ==> opt_text(#[trigger] labels[k]) == label_of(lists[ord[k] as int]@)
}

/// Whether `list` holds a repository named `name`.
fn holds_repo(list: &StarList, name: &String) -> (b: bool)
    ensures
        b == holds(list@, name@),
{
    let repos = &list.repositories;
    let m = repos.len();
    for j in 0..m
        invariant
            m == repos.len(),
            repos@ == list.repositories@,
            forall|jj: int| 0 <= jj < j ==> #[trigger] list@.repositories[jj].name_with_owner != name@,
    {
        if repos[j].name_with_owner == *name {
            assert(list@.repositories[j as int].name_with_owner == name@);
            return true;
        }
    }
    false
}

/// The tags of the lists at positions `ord`.
fn labels_of(lists: &[StarList], ord: &Vec<usize>) -> (labels: Vec<Option<String>>)
    requires
        forall|k: int| 0 <= k < ord.len() ==> #[trigger] ord[k] < lists.len(),
    ensures
        labelled(lists@, ord@, labels@),
{
    let mut labels: Vec<Option<String>> = Vec::new();
    let n = ord.len();
    for k in 0..n
        invariant
            n == ord.len(),
            forall|k: int| 0 <= k < ord.len() ==> #[trigger] ord[k] < lists.len(),
            labels.len() == k,
            forall|a: int|
                0 <= a < k ==> opt_text(#[trigger] labels@[a]) == label_of(lists@[ord[a] as int]@),
    {
        let l = focus_label(lists[ord[k]].name.as_str());
        labels.push(l);
    }
    labels
}

/// Appends the Focus tags of the repository named `name`.
fn write_tags(out: &mut String, name: &String, lists: &[StarList], ord: &Vec<usize>, labels: &Vec<Option<String>>)
    requires
        labelled(lists@, ord@, labels@),
    ensures
        final(out)@ == old(out)@ + focus_tags(arranged(list_models(lists@), ord@), name@),
{
    let ghost ls = arranged(list_models(lists@), ord@);
    let n = ord.len();
    assert(ls.take(0) =~= Seq::<StarListModel>::empty());
    for k in 0..n
        invariant
            n == ord.len(),
            ls == arranged(list_models(lists@), ord@),
            labelled(lists@, ord@, labels@),
            out@ == old(out)@ + focus_tags(ls.take(k as int), name@),
    {
        assert(ls.take(k + 1).drop_last() =~= ls.take(k as int));
        assert(ls.take(k + 1).last() == lists@[ord[k as int] as int]@);
        assert(opt_text(labels@[k as int]) == label_of(lists@[ord[k as int] as int]@));
        match &labels[k] {
            Some(t) => {
                if holds_repo(&lists[ord[k]], name) {
                    out.append(" `");
                    out.append(t.as_str());
                    out.append("`");
                }
            },
            None => {},
        }
        assert(out@ =~= old(out)@ + focus_tags(ls.take(k + 1), name@));
    }
    assert(ls.take(n as int) =~= ls);
}

/// Appends the bullet of one repository, with its Focus tags.
fn write_repo_line(out: &mut String, repo: &Repository, lists: &[StarList], ord: &Vec<usize>, labels: &Vec<Option<String>>)
    requires
        labelled(lists@, ord@, labels@),
    ensures
        final(out)@ == old(out)@ + repo_line(repo@, arranged(list_models(lists@), ord@)),
{
    out.append("- [");
    out.append(repo.name_with_owner.as_str());
    out.append("](");
    out.append(repo.url.as_str());
    out.append(") - ");
    match &repo.description {
        Some(d) => out.append(d.as_str()),
        None => out.append("No description provided"),
    }
    write_tags(out, &repo.name_with_owner, lists, ord, labels);
    out.append("\n");
    assert(out@ =~= old(out)@ + repo_line(repo@, arranged(list_models(lists@), ord@)));
}

/// Appends the bullets of `repos` at the positions `order`.
fn write_lines(
    out: &mut String,
    repos: &[Repository],
    order: &Vec<usize>,
    lists: &[StarList],
    ord: &Vec<usize>,
    labels: &Vec<Option<String>>,
)
    requires
        forall|i: int| 0 <= i < order.len() ==> order[i] < repos.len(),
        labelled(lists@, ord@, labels@),
    ensures
        final(out)@ == old(out)@ + lines_at(repo_models(repos@), order@, arranged(list_models(lists@), ord@)),
{
    let ghost models = repo_models(repos@);
    let ghost ls = arranged(list_models(lists@), ord@);
    let n = order.len();
    assert(order@.take(0) =~= Seq::<usize>::empty());
    assert(old(out)@ + lines_at(models, seq![], ls) =~= old(out)@);
    for k in 0..n
        invariant
            n == order.len(),
            models == repo_models(repos@),
            ls == arranged(list_models(lists@), ord@),
            forall|i: int| 0 <= i < order.len() ==> order[i] < repos.len(),
            labelled(lists@, ord@, labels@),
            out@ == old(out)@ + lines_at(models, order@.take(k as int), ls),
    {
        let p = order[k];
        write_repo_line(out, &repos[p], lists, ord, labels);
        assert(order@.take(k + 1).drop_last() =~= order@.take(k as int));
        assert(out@ =~= old(out)@ + lines_at(models, order@.take(k + 1), ls));
    }
    assert(order@.take(n as int) =~= order@);
}

/// The lowercased names of `repos`, used as sort keys.
fn name_keys_of(repos: &[Repository]) -> (keys: Vec<Vec<char>>)
    ensures
        key_views(keys@) == name_keys(repo_models(repos@)),
        keys.len() == repos.len(),
{
    let mut keys: Vec<Vec<char>> = Vec::new();
    let n = repos.len();
    for i in 0..n
        invariant
            n == repos.len(),
            key_views(keys@) =~= name_keys(repo_models(repos@)).take(i as int),
            keys.len() == i,
    {
        let lower = to_lowercase(repos[i].name_with_owner.as_str());
        let k = chars_of(lower.as_str());
        let ghost before = keys@;
        keys.push(k);
        assert(key_views(keys@) =~= key_views(before).push(k@));
    }
    keys
}

/// The positions of `repos` in alphabetical order of their names.
pub(crate) fn alphabetical_positions(repos: &[Repository]) -> (order: Vec<usize>)
    ensures
        order@ == alphabetical(repo_models(repos@)),
        forall|i: int| 0 <= i < order.len() ==> order[i] < repos.len(),
{
    let keys = name_keys_of(repos);
    let mut all: Vec<usize> = Vec::new();
    let n = repos.len();
    for i in 0..n
        invariant
            n == repos.len(),
            all@ =~= positions(i as nat),
    {
        all.push(i);
    }
    assert(forall|k: int| 0 <= k < all.len() ==> all[k] < keys.len());
    sort_positions(&all, &keys)
}

/// Whether some list at positions `ord` holds a repository with the given
/// name.
fn listed_in(lists: &[StarList], ord: &Vec<usize>, name: &String) -> (b: bool)
    requires
        forall|k: int| 0 <= k < ord.len() ==> #[trigger] ord[k] < lists.len(),
    ensures
        b == is_listed(arranged(list_models(lists@), ord@), name@),
{
    let ghost ls = arranged(list_models(lists@), ord@);
    let n = ord.len();
    for k in 0..n
        invariant
            n == ord.len(),
            ls == arranged(list_models(lists@), ord@),
            forall|k: int| 0 <= k < ord.len() ==> #[trigger] ord[k] < lists.len(),
            forall|a: int, j: int|
                0 <= a < k && 0 <= j < ls[a].repositories.len()
                    ==> #[trigger] ls[a].repositories[j].name_with_owner != name@,
    {
        let list = &lists[ord[k]];
        assert(ls[k as int] == list@);
        if holds_repo(list, name) {
            let ghost j = choose|j: int|
                0 <= j < list@.repositories.len() && #[trigger] list@.repositories[j].name_with_owner == name@;
            assert(ls[k as int].repositories[j].name_with_owner == name@);
            return true;
        }
    }
    false
}

/// Appends the section of one list.
fn write_section(out: &mut String, list: &StarList, lists: &[StarList], ord: &Vec<usize>, labels: &Vec<Option<String>>)
    requires
        labelled(lists@, ord@, labels@),
    ensures
        final(out)@ == old(out)@ + section(list@, arranged(list_models(lists@), ord@)),
{
    out.append("## ");
    out.append(list.name.as_str());
    out.append("\n\n");
    let ghost mid = out@;
    match &list.description {
        Some(desc) => {
            if !desc.as_str().is_empty() {
                out.append("> ");
                out.append(desc.as_str());
                out.append("\n\n");
            }
        },
        None => {},
    }
    assert(out@ =~= mid + quoted_description(list@.description));
    let order = alphabetical_positions(list.repositories.as_slice());
    write_lines(out, list.repositories.as_slice(), &order, lists, ord, labels);
    out.append("\n");
    assert(out@ =~= old(out)@ + section(list@, arranged(list_models(lists@), ord@)));
}

/// Appends the Focus legend.
fn write_legend(out: &mut String, lists: &[StarList], ord: &Vec<usize>, labels: &Vec<Option<String>>)
    requires
        labelled(lists@, ord@, labels@),
    ensures
        final(out)@ == old(out)@ + legend(arranged(list_models(lists@), ord@)),
{
    let ghost ls = arranged(list_models(lists@), ord@);
    let mut entries = String::new();
    let n = ord.len();
    assert(ls.take(0) =~= Seq::<StarListModel>::empty());
    for k in 0..n
        invariant
            n == ord.len(),
            ls == arranged(list_models(lists@), ord@),
            labelled(lists@, ord@, labels@),
            entries@ == legend_entries(ls.take(k as int)),
    {
        assert(ls.take(k + 1).drop_last() =~= ls.take(k as int));
        assert(ls.take(k + 1).last() == lists@[ord[k as int] as int]@);
        assert(opt_text(labels@[k as int]) == label_of(lists@[ord[k as int] as int]@));
        match &labels[k] {
            Some(t) => {
                entries.append("- `");
                entries.append(t.as_str());
                entries.append("`");
                match &lists[ord[k]].description {
                    Some(d) => {
                        if !d.as_str().is_empty() {
                            entries.append(" - ");
                            entries.append(d.as_str());
                        }
                    },
                    None => {},
                }
                entries.append("\n");
            },
            None => {},
        }
        assert(entries@ =~= legend_entries(ls.take(k + 1)));
    }
    assert(ls.take(n as int) =~= ls);
    if !entries.as_str().is_empty() {
        out.append("**Focus**\n\n");
        out.append(entries.as_str());
        out.append("\n");
    }
    assert(out@ =~= old(out)@ + legend(ls));
}

/// The Awesome List of the lists at positions `ord`.
fn render(lists: &[StarList], ord: &Vec<usize>, all_starred: &[Repository]) -> (md: String)
    requires
        forall|k: int| 0 <= k < ord.len() ==> #[trigger] ord[k] < lists.len(),
    ensures
        md@ == awesome_list(arranged(list_models(lists@), ord@), repo_models(all_starred@)),
{
    let ghost ls = arranged(list_models(lists@), ord@);
    let ghost all = repo_models(all_starred@);
    let labels = labels_of(lists, ord);
    let mut out = String::new();
    out.append("# Awesome Stars\n\n");
    out.append("> A curated list of my GitHub stars, organized by lists.\n\n");
    write_legend(&mut out, lists, ord, &labels);

    // Stars that belong to no list, alphabetically.
    let mut unlisted_pos: Vec<usize> = Vec::new();
    let n = all_starred.len();
    for i in 0..n
        invariant
            n == all_starred.len(),
            ls == arranged(list_models(lists@), ord@),
            all == repo_models(all_starred@),
            forall|k: int| 0 <= k < ord.len() ==> #[trigger] ord[k] < lists.len(),
            unlisted_pos@ == unlisted(ls, all, i as nat),
            forall|k: int| 0 <= k < unlisted_pos.len() ==> unlisted_pos[k] < i,
    {
        if !listed_in(lists, ord, &all_starred[i].name_with_owner) {
            unlisted_pos.push(i);
        }
    }
    let keys = name_keys_of(all_starred);
    let unc = sort_positions(&unlisted_pos, &keys);

    // Contents
    out.append("## Contents\n\n");
    let ghost head = out@;
    let m = ord.len();
    assert(ls.take(0) =~= Seq::<StarListModel>::empty());
    for k in 0..m
        invariant
            m == ord.len(),
            ls == arranged(list_models(lists@), ord@),
            forall|k: int| 0 <= k < ord.len() ==> #[trigger] ord[k] < lists.len(),
            out@ == head + toc(ls.take(k as int)),
    {
        let list = &lists[ord[k]];
        assert(ls.take(k + 1).drop_last() =~= ls.take(k as int));
        assert(ls.take(k + 1).last() == list@);
        if !is_focus_list(list.name.as_str()) {
            let anchor_text = to_anchor(list.name.as_str());
            out.append("- [");
            out.append(list.name.as_str());
            out.append("](#");
            out.append(anchor_text.as_str());
            out.append(")\n");
        }
        assert(out@ =~= head + toc(ls.take(k + 1)));
    }
    assert(ls.take(m as int) =~= ls);
    if unc.len() > 0 {
        out.append("- [Uncategorized](#uncategorized)\n");
    }
    out.append("\n");

    // List sections
    let ghost head2 = out@;
    for k in 0..m
        invariant
            m == ord.len(),
            ls == arranged(list_models(lists@), ord@),
            labelled(lists@, ord@, labels@),
            out@ == head2 + sections(ls.take(k as int), ls),
    {
        let list = &lists[ord[k]];
        assert(ls.take(k + 1).drop_last() =~= ls.take(k as int));
        assert(ls.take(k + 1).last() == list@);
        if !is_focus_list(list.name.as_str()) {
            write_section(&mut out, list, lists, ord, &labels);
        }
        assert(out@ =~= head2 + sections(ls.take(k + 1), ls));
    }
    assert(ls.take(m as int) =~= ls);

    // Uncategorized section
    if unc.len() > 0 {
        out.append("## Uncategorized\n\n");
        write_lines(&mut out, all_starred, &unc, lists, ord, &labels);
        out.append("\n");
    }
    assert(out@ =~= awesome_list(ls, all));
    out
}

/// Generates the Awesome List Markdown from the Star Lists and all starred
/// repositories, with the lists in their own order. Stars that belong to no
/// list are grouped under an "Uncategorized" section; Focus Lists become a
/// legend and inline tags instead of sections.
pub fn generate(lists: &[StarList], all_starred: &[Repository]) -> (md: String)
    ensures
        md@ == awesome_list(list_models(lists@), repo_models(all_starred@)),
{
    let mut ord: Vec<usize> = Vec::new();
    let n = lists.len();
    for i in 0..n
        invariant
            n == lists.len(),
            ord@ =~= positions(i as nat),
    {
        ord.push(i);
    }
    assert(arranged(list_models(lists@), ord@) =~= list_models(lists@));
    render(lists, &ord, all_starred)
}

/// Generates the Awesome List with the lists in the order the configuration
/// asks for: lists named in `order` first, in that order, then the rest.
pub fn generate_with_config(lists: &[StarList], all_starred: &[Repository], config: &Config) -> (md: String)
    ensures
        md@ == ordered_awesome_list(list_models(lists@), repo_models(all_starred@), texts(config.order@)),
{
    let ord = apply_order(lists, config.order.as_slice());
    render(lists, &ord, all_starred)
}

} // verus!
