//! Stable insertion order by a string key: the specification of every sort in the crate.
use vstd::prelude::*;
use crate::text::{lex_le, lex_lt, lemma_lex_lt_total, lemma_lex_lt_transitive};

verus! {

/// The position at which an element with key `kx` is inserted into `out`:
/// after every element whose key is not greater than `kx` (which keeps equal keys in
/// arrival order), that is, before the first element whose key is greater.
pub open spec fn insert_pos<T>(out: Seq<T>, kx: Seq<char>, key: spec_fn(T) -> Seq<char>) -> nat
    decreases out.len(),
{
    if out.len() == 0 {
        0
    } else if lex_lt(kx, key(out[0])) {
        0
    } else {
        1 + insert_pos(out.drop_first(), kx, key)
    }
}

/// Stable sort of `s` by `key`: elements with smaller keys come first, and elements with
/// equal keys keep the order they arrived in.
pub open spec fn sort_by_key<T>(s: Seq<T>, key: spec_fn(T) -> Seq<char>) -> Seq<T>
    decreases s.len(),
{
    if s.len() == 0 {
        s
    } else {
        let o = sort_by_key(s.drop_last(), key);
        o.insert(insert_pos(o, key(s.last()), key) as int, s.last())
    }
}

/// Keys are in non-decreasing lexicographic order.
pub open spec fn sorted_by_key<T>(s: Seq<T>, key: spec_fn(T) -> Seq<char>) -> bool {
    forall|i: int, j: int| 0 <= i < j < s.len() ==> lex_le(#[trigger] key(s[i]), #[trigger] key(s[j]))
}

pub proof fn lemma_insert_pos_bounds<T>(out: Seq<T>, kx: Seq<char>, key: spec_fn(T) -> Seq<char>)
    ensures
        insert_pos(out, kx, key) <= out.len(),
        forall|i: int| 0 <= i < insert_pos(out, kx, key) ==> !lex_lt(kx, #[trigger] key(out[i])),
        insert_pos(out, kx, key) < out.len() ==> lex_lt(kx, key(out[insert_pos(out, kx, key) as int])),
    decreases out.len(),
{
    if out.len() > 0 && !lex_lt(kx, key(out[0])) {
        lemma_insert_pos_bounds(out.drop_first(), kx, key);
        assert forall|i: int| 0 <= i < insert_pos(out, kx, key) implies !lex_lt(kx, #[trigger] key(out[i])) by {
            if i > 0 {
                assert(out[i] == out.drop_first()[i - 1]);
            }
        }
    }
}

/// Inserting at `insert_pos` keeps a sorted sequence sorted.
pub proof fn lemma_insert_sorted<T>(out: Seq<T>, x: T, key: spec_fn(T) -> Seq<char>)
    requires
        sorted_by_key(out, key),
    ensures
        sorted_by_key(out.insert(insert_pos(out, key(x), key) as int, x), key),
{
    let p = insert_pos(out, key(x), key) as int;
    lemma_insert_pos_bounds(out, key(x), key);
    let r = out.insert(p, x);
    assert forall|i: int, j: int| 0 <= i < j < r.len() implies lex_le(#[trigger] key(r[i]), #[trigger] key(r[j])) by {
        if i < p && j == p {
            lemma_lex_lt_total(key(x), key(out[i]));
        } else if i == p && j > p {
            // key(x) < key(out[p]) <= key(out[j - 1])
            assert(r[j] == out[j - 1]);
            assert(lex_le(key(out[p]), key(out[j - 1])));
            if key(out[p]) != key(out[j - 1]) {
                lemma_lex_lt_transitive(key(x), key(out[p]), key(out[j - 1]));
            }
        } else if i < p && j < p {
        } else if i < p && j > p {
            assert(r[j] == out[j - 1]);
        } else {
            assert(r[i] == out[i - 1]);
            assert(r[j] == out[j - 1]);
        }
    }
}

/// `sort_by_key` produces a sorted permutation of its input.
pub proof fn lemma_sort_by_key_sorted_permutation<T>(s: Seq<T>, key: spec_fn(T) -> Seq<char>)
    ensures
        sorted_by_key(sort_by_key(s, key), key),
        sort_by_key(s, key).to_multiset() == s.to_multiset(),
        sort_by_key(s, key).len() == s.len(),
    decreases s.len(),
{
    broadcast use vstd::seq_lib::group_to_multiset_ensures;
    if s.len() > 0 {
        let o = sort_by_key(s.drop_last(), key);
        lemma_sort_by_key_sorted_permutation(s.drop_last(), key);
        lemma_insert_sorted(o, s.last(), key);
        lemma_insert_pos_bounds(o, key(s.last()), key);
        assert(s =~= s.drop_last().push(s.last()));
    }
}

/// Every element of a sorted sequence is, for the purpose of membership, also in its input.
pub proof fn lemma_sort_by_key_contains<T>(s: Seq<T>, key: spec_fn(T) -> Seq<char>, x: T)
    ensures
        sort_by_key(s, key).contains(x) <==> s.contains(x),
{
    broadcast use vstd::seq_lib::group_to_multiset_ensures;
    lemma_sort_by_key_sorted_permutation(s, key);
    assert(sort_by_key(s, key).to_multiset().count(x) == s.to_multiset().count(x));
}

/// Index of the first element of `s` that satisfies `p`, if any.
pub open spec fn first_index<T>(s: Seq<T>, p: spec_fn(T) -> bool) -> Option<nat>
    decreases s.len(),
{
    if s.len() == 0 {
        None
    } else if p(s[0]) {
        Some(0)
    } else {
        match first_index(s.drop_first(), p) {
            Some(i) => Some(i + 1),
            None => None,
        }
    }
}

pub proof fn lemma_first_index<T>(s: Seq<T>, p: spec_fn(T) -> bool)
    ensures
        first_index(s, p) matches Some(i) ==> i < s.len() && p(s[i as int]) && forall|j: int|
            0 <= j < i ==> !p(#[trigger] s[j]),
        first_index(s, p) is None ==> forall|j: int| 0 <= j < s.len() ==> !p(#[trigger] s[j]),
    decreases s.len(),
{
    if s.len() > 0 {
        lemma_first_index(s.drop_first(), p);
        if !p(s[0]) {
            assert forall|j: int| 1 <= j < s.len() implies s[j] == s.drop_first()[j - 1] by {}
        }
    }
}

/// Stepping a search forward: the first match in `s.skip(k)` when `s[k]` does not match.
pub proof fn lemma_first_index_skip<T>(s: Seq<T>, p: spec_fn(T) -> bool, k: int)
    requires
        0 <= k < s.len(),
        !p(s[k]),
    ensures
        first_index(s.skip(k), p) == (match first_index(s.skip(k + 1), p) {
            Some(i) => Some(i + 1),
            None => None::<nat>,
        }),
{
    assert(s.skip(k).drop_first() =~= s.skip(k + 1));
}

} // verus!
