//! Stable sorting of item positions by text keys, the order in which every
//! section of the generated documents lists its repositories.

use vstd::prelude::*;
use crate::text::{chars_lt, lemma_text_lt_total, lemma_text_lt_transitive, text_lt};

verus! {

broadcast use vstd::seq_lib::group_to_multiset_ensures;

/// `a` does not come after `b`.
pub open spec fn key_le(a: Seq<char>, b: Seq<char>) -> bool {
    !text_lt(b, a)
}

/// Inserts position `x` into `s` behind every position whose key is not
/// greater than the key of `x` (so that equal keys keep their order).
pub open spec fn insert_by_key(s: Seq<usize>, x: usize, keys: Seq<Seq<char>>) -> Seq<usize>
    decreases s.len(),
{
    if s.len() == 0 || key_le(keys[s.last() as int], keys[x as int]) {
        s.push(x)
    } else {
        insert_by_key(s.drop_last(), x, keys).push(s.last())
    }
}

/// The stable sort of the positions `s` by `keys`: positions with equal keys
/// keep the order they have in `s`.
pub open spec fn sort_by_key(s: Seq<usize>, keys: Seq<Seq<char>>) -> Seq<usize>
    decreases s.len(),
{
    if s.len() == 0 {
        s
    } else {
        insert_by_key(sort_by_key(s.drop_last(), keys), s.last(), keys)
    }
}

/// `s` lists positions in nondecreasing key order.
pub open spec fn sorted_by_key(s: Seq<usize>, keys: Seq<Seq<char>>) -> bool {
    forall|i: int, j: int| 0 <= i < j < s.len() ==> key_le(keys[s[i] as int], keys[s[j] as int])
}

proof fn lemma_insert_at(s: Seq<usize>, x: usize, keys: Seq<Seq<char>>, p: int)
    requires
        0 <= p <= s.len(),
        forall|j: int| p <= j < s.len() ==> text_lt(keys[x as int], keys[s[j] as int]),
        p == 0 || key_le(keys[s[p - 1] as int], keys[x as int]),
    ensures
        insert_by_key(s, x, keys) == s.insert(p, x),
    decreases s.len(),
{
    if p == s.len() {
        assert(s.insert(p, x) =~= s.push(x));
    } else {
        lemma_insert_at(s.drop_last(), x, keys, p);
        assert(s.insert(p, x) =~= s.drop_last().insert(p, x).push(s.last()));
    }
}

proof fn lemma_key_le_transitive(a: Seq<char>, b: Seq<char>, c: Seq<char>)
    requires
        key_le(a, b),
        key_le(b, c),
    ensures
        key_le(a, c),
{
    lemma_text_lt_total(a, b);
    lemma_text_lt_total(b, c);
    lemma_text_lt_total(a, c);
    if text_lt(a, b) && text_lt(b, c) {
        lemma_text_lt_transitive(a, b, c);
    }
}

proof fn lemma_insert_multiset(s: Seq<usize>, x: usize, keys: Seq<Seq<char>>)
    ensures
        insert_by_key(s, x, keys).to_multiset() =~= s.to_multiset().insert(x),
    decreases s.len(),
{
    if s.len() == 0 || key_le(keys[s.last() as int], keys[x as int]) {
    } else {
        lemma_insert_multiset(s.drop_last(), x, keys);
        assert(s.drop_last().push(s.last()) == s);
    }
}

proof fn lemma_insert_sorted(s: Seq<usize>, x: usize, keys: Seq<Seq<char>>)
    requires
        sorted_by_key(s, keys),
    ensures
        sorted_by_key(insert_by_key(s, x, keys), keys),
    decreases s.len(),
{
    let r = insert_by_key(s, x, keys);
    if s.len() == 0 || key_le(keys[s.last() as int], keys[x as int]) {
        assert forall|i: int, j: int| 0 <= i < j < r.len() implies key_le(
            keys[r[i] as int],
            keys[r[j] as int],
        ) by {
            if j == s.len() && i < s.len() - 1 {
                lemma_key_le_transitive(keys[s[i] as int], keys[s.last() as int], keys[x as int]);
            }
        }
    } else {
        let t = insert_by_key(s.drop_last(), x, keys);
        lemma_insert_sorted(s.drop_last(), x, keys);
        lemma_insert_multiset(s.drop_last(), x, keys);
        lemma_text_lt_total(keys[x as int], keys[s.last() as int]);
        assert forall|i: int, j: int| 0 <= i < j < r.len() implies key_le(
            keys[r[i] as int],
            keys[r[j] as int],
        ) by {
            if j == t.len() {
                let e = t[i];
                assert(t.to_multiset().count(e) > 0);
                if e != x {
                    assert(s.drop_last().to_multiset().count(e) > 0);
                    let k = choose|k: int| 0 <= k < s.drop_last().len() && s.drop_last()[k] == e;
                    assert(s[k] == e);
                } else {
                    assert(key_le(keys[x as int], keys[s.last() as int]));
                }
            }
        }
    }
}

/// Laws of the stable sort: it lists the same positions (as a multiset) and
/// in nondecreasing key order.
pub proof fn lemma_sort_by_key(s: Seq<usize>, keys: Seq<Seq<char>>)
    ensures
        sort_by_key(s, keys).to_multiset() =~= s.to_multiset(),
        sorted_by_key(sort_by_key(s, keys), keys),
    decreases s.len(),
{
    if s.len() > 0 {
        lemma_sort_by_key(s.drop_last(), keys);
        lemma_insert_multiset(sort_by_key(s.drop_last(), keys), s.last(), keys);
        lemma_insert_sorted(sort_by_key(s.drop_last(), keys), s.last(), keys);
        assert(s.drop_last().push(s.last()) == s);
    }
}

/// The texts held by a vector of key vectors.
pub open spec fn key_views(keys: Seq<Vec<char>>) -> Seq<Seq<char>> {
    keys.map_values(|k: Vec<char>| k@)
}

/// Sorts the positions `items` stably by `keys` (insertion sort).
pub fn sort_positions(items: &Vec<usize>, keys: &Vec<Vec<char>>) -> (r: Vec<usize>)
    requires
        forall|i: int| 0 <= i < items.len() ==> items[i] < keys.len(),
    ensures
        r@ == sort_by_key(items@, key_views(keys@)),
        forall|i: int| 0 <= i < r.len() ==> r[i] < keys.len(),
{
    let ghost kv = key_views(keys@);
    let mut r: Vec<usize> = Vec::new();
    let n = items.len();
    assert(items@.take(0) =~= Seq::<usize>::empty());
    for i in 0..n
        invariant
            n == items.len(),
            kv == key_views(keys@),
            forall|k: int| 0 <= k < items.len() ==> items[k] < keys.len(),
            r@ == sort_by_key(items@.take(i as int), kv),
            forall|k: int| 0 <= k < r.len() ==> r[k] < keys.len(),
    {
        let x = items[i];
        let mut p = r.len();
        while p > 0 && chars_lt(&keys[x], &keys[r[p - 1]])
            invariant
                p <= r.len(),
                x < keys.len(),
                kv == key_views(keys@),
                forall|k: int| 0 <= k < r.len() ==> r[k] < keys.len(),
                forall|j: int| p <= j < r.len() ==> text_lt(kv[x as int], kv[r[j] as int]),
            decreases p,
        {
            p -= 1;
        }
        proof {
            if p > 0 {
                lemma_text_lt_total(kv[x as int], kv[r[p - 1] as int]);
            }
            lemma_insert_at(r@, x, kv, p as int);
            assert(items@.take(i + 1).drop_last() =~= items@.take(i as int));
        }
        r.insert(p, x);
    }
    assert(items@.take(n as int) =~= items@);
    r
}

} // verus!
