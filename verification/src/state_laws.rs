//! Laws of the section state: what every operation keeps, what one call undoes.
use vstd::prelude::*;
use crate::order::{
    insert_pos, lemma_insert_sorted, lemma_sort_by_key_contains, lemma_sort_by_key_sorted_permutation,
    sort_by_key, sorted_by_key,
};
use crate::state::{
    differs_from, named_sorted, new_section_pos, renamed_sections, repo_key, section_insert_key,
    section_sort_key, sections_wf, sorted_repos, tracks, with_repo_added, with_repo_moved,
    with_section_added, with_section_removed, without_repo, SectionView,
};
use crate::persist::{
    join_components, join_parts, loaded_section, loaded_sections, resolved_dirs, spec_make_relative, spec_resolve_path,
};
use crate::watcher::{components, keep_part, lemma_split_slash_nonempty, split_slash};
use crate::text::{lemma_lex_lt_asymmetric, lemma_lex_lt_irreflexive, lex_le, spec_lowercase};

verus! {

/// Membership in a filtered path list.
proof fn lemma_filter_differs(s: Seq<Seq<char>>, p: Seq<char>, x: Seq<char>)
    ensures
        s.filter(differs_from(p)).contains(x) <==> (s.contains(x) && x != p),
{
    broadcast use vstd::seq_lib::group_filter_ensures;
    if s.filter(differs_from(p)).contains(x) {
        s.lemma_filter_contains_rev(differs_from(p), x);
        let i = choose|i: int| 0 <= i < s.filter(differs_from(p)).len() && s.filter(differs_from(p))[i] == x;
        assert((differs_from(p))(s.filter(differs_from(p))[i]));
    }
    if s.contains(x) && x != p {
        let i = choose|i: int| 0 <= i < s.len() && s[i] == x;
        assert((differs_from(p))(s[i]));
    }
}

/// Membership in a sorted path list is membership in the list.
proof fn lemma_sorted_contains(s: Seq<Seq<char>>, cs: bool, x: Seq<char>)
    ensures
        sorted_repos(s, cs).contains(x) <==> s.contains(x),
{
    lemma_sort_by_key_contains(s, repo_key(cs), x);
}

/// Adding a repository makes it tracked, in the section it was added to, and keeps
/// every repository that was tracked before.
pub proof fn law_added_repo_is_tracked(ss: Seq<SectionView>, idx: int, path: Seq<char>)
    requires
        0 <= idx < ss.len(),
    ensures
        with_repo_added(ss, idx, path)[idx].repos.contains(path),
        tracks(with_repo_added(ss, idx, path), path),
        forall|q: Seq<char>| tracks(ss, q) ==> tracks(with_repo_added(ss, idx, path), q),
{
    let after = with_repo_added(ss, idx, path);
    lemma_sorted_contains(ss[idx].repos.push(path), false, path);
    assert(ss[idx].repos.push(path)[ss[idx].repos.len() as int] == path);
    assert(after[idx].repos.contains(path));
    assert forall|q: Seq<char>| tracks(ss, q) implies tracks(after, q) by {
        let i = choose|i: int| 0 <= i < ss.len() && #[trigger] ss[i].repos.contains(q);
        if i == idx {
            lemma_sorted_contains(ss[idx].repos.push(path), false, q);
            let j = choose|j: int| 0 <= j < ss[idx].repos.len() && ss[idx].repos[j] == q;
            assert(ss[idx].repos.push(path)[j] == q);
        }
        assert(after[i].repos.contains(q));
    }
}

/// The section a repository is added to stays sorted (case-insensitively by path).
pub proof fn law_added_repo_section_sorted(ss: Seq<SectionView>, idx: int, path: Seq<char>)
    requires
        0 <= idx < ss.len(),
    ensures
        sorted_by_key(with_repo_added(ss, idx, path)[idx].repos, repo_key(false)),
{
    lemma_sort_by_key_sorted_permutation(ss[idx].repos.push(path), repo_key(false));
}

/// After removing a repository it is no longer tracked, and every other repository is
/// tracked exactly when it was before.
pub proof fn law_removed_repo_is_untracked(ss: Seq<SectionView>, path: Seq<char>)
    ensures
        !tracks(without_repo(ss, path), path),
        forall|q: Seq<char>| q != path ==> (tracks(without_repo(ss, path), q) <==> tracks(ss, q)),
{
    let after = without_repo(ss, path);
    if tracks(after, path) {
        let i = choose|i: int| 0 <= i < after.len() && #[trigger] after[i].repos.contains(path);
        lemma_filter_differs(ss[i].repos, path, path);
    }
    assert forall|q: Seq<char>| q != path implies (tracks(after, q) <==> tracks(ss, q)) by {
        if tracks(after, q) {
            let i = choose|i: int| 0 <= i < after.len() && #[trigger] after[i].repos.contains(q);
            lemma_filter_differs(ss[i].repos, path, q);
            assert(ss[i].repos.contains(q));
        }
        if tracks(ss, q) {
            let i = choose|i: int| 0 <= i < ss.len() && #[trigger] ss[i].repos.contains(q);
            lemma_filter_differs(ss[i].repos, path, q);
            assert(after[i].repos.contains(q));
        }
    }
}

/// Adding a repository that was not tracked and then removing it again leaves exactly
/// the repositories that were tracked before.
pub proof fn law_add_then_remove_restores(ss: Seq<SectionView>, idx: int, path: Seq<char>)
    requires
        0 <= idx < ss.len(),
        !tracks(ss, path),
    ensures
        forall|q: Seq<char>| tracks(without_repo(with_repo_added(ss, idx, path), path), q) <==> tracks(ss, q),
{
    let added = with_repo_added(ss, idx, path);
    law_removed_repo_is_untracked(added, path);
    law_added_repo_is_tracked(ss, idx, path);
    assert forall|q: Seq<char>| tracks(without_repo(added, path), q) <==> tracks(ss, q) by {
        if q != path && tracks(added, q) {
            let i = choose|i: int| 0 <= i < added.len() && #[trigger] added[i].repos.contains(q);
            if i == idx {
                lemma_sorted_contains(ss[idx].repos.push(path), false, q);
                let j = choose|j: int| 0 <= j < ss[idx].repos.len() + 1 && ss[idx].repos.push(path)[j] == q;
                assert(ss[idx].repos[j] == q);
            }
            assert(ss[i].repos.contains(q));
        }
    }
}

/// Renaming a named section to a name no other named section carries (case-
/// insensitively) returns an index, and the section there is the renamed one: the new
/// name, with the repositories and the collapsed flag it had.
pub proof fn law_rename_returns_renamed(ss: Seq<SectionView>, idx: int, new_name: Seq<char>)
    requires
        1 <= idx < ss.len(),
        ss[0].name is None,
        !crate::state::name_taken(ss, spec_lowercase(new_name), idx),
    ensures
        ({
            let after = renamed_sections(ss, idx, new_name);
            let k = crate::order::first_index(after, crate::state::named_lower(spec_lowercase(new_name)));
            &&& k is Some
            &&& after[k->0 as int] == (SectionView { name: Some(new_name), ..ss[idx] })
        }),
{
    let lower = spec_lowercase(new_name);
    let p = crate::state::named_lower(lower);
    let sec = SectionView { name: Some(new_name), ..ss[idx] };
    let renamed = ss.update(idx, sec);
    let tail = renamed.skip(1);
    let key = section_sort_key();
    let sorted = sort_by_key(tail, key);
    let after = renamed_sections(ss, idx, new_name);
    assert(after == seq![renamed[0]] + sorted);
    assert(tail[idx - 1] == sec);
    crate::order::lemma_sort_by_key_contains(tail, key, sec);
    let j = choose|j: int| 0 <= j < sorted.len() && sorted[j] == sec;
    assert(after[j + 1] == sec);
    assert(p(after[j + 1]));
    crate::order::lemma_first_index(after, p);
    let k = crate::order::first_index(after, p)->0 as int;
    assert(p(after[k]));
    assert(k != 0) by {
        assert(after[0] == ss[0]);
    }
    assert(after[k] == sorted[k - 1]);
    crate::order::lemma_sort_by_key_contains(tail, key, after[k]);
    let m = choose|m: int| 0 <= m < tail.len() && tail[m] == after[k];
    assert(tail[m] == renamed[m + 1]);
    if m + 1 != idx {
        assert(renamed[m + 1] == ss[m + 1]);
        assert(crate::state::has_lower_name(ss[m + 1], lower));
        assert(crate::state::name_taken(ss, lower, idx));
    }
}

/// The number of repositories in sections `0..k`.
pub open spec fn repos_before(ss: Seq<SectionView>, k: nat) -> nat
    decreases k,
{
    if k == 0 { 0 } else { repos_before(ss, (k - 1) as nat) + ss[k - 1].repos.len() }
}

proof fn lemma_repos_before_shift(ss: Seq<SectionView>, k: nat)
    requires
        1 <= k <= ss.len(),
    ensures
        repos_before(ss, k) == ss[0].repos.len() + repos_before(ss.drop_first(), (k - 1) as nat),
    decreases k,
{
    if k > 1 {
        lemma_repos_before_shift(ss, (k - 1) as nat);
        assert(ss.drop_first()[k - 2] == ss[k - 1]);
        assert(repos_before(ss, k) == repos_before(ss, (k - 1) as nat) + ss[k - 1].repos.len());
        assert(repos_before(ss.drop_first(), (k - 1) as nat) == repos_before(ss.drop_first(), (k - 2) as nat)
            + ss.drop_first()[k - 2].repos.len());
    } else {
        assert(repos_before(ss, 1) == repos_before(ss, 0) + ss[0].repos.len());
        assert(repos_before(ss.drop_first(), 0) == 0);
    }
}

/// The section owning flat repository index `f` (see `section_idx_for_flat_repo_idx`)
/// is the one whose repositories cover `f` when the sections' repositories are counted
/// in order: section `k` owns `f` exactly when
/// `repos_before(k) <= f < repos_before(k + 1)`; past the last repository no section
/// owns it.
pub proof fn law_flat_owner_prefix_sums(ss: Seq<SectionView>, f: int)
    requires
        0 <= f,
    ensures
        crate::state::flat_owner(ss, f) matches Some(k) ==> k < ss.len() && repos_before(ss, k) <= f < repos_before(ss, k + 1),
        f < repos_before(ss, ss.len()) ==> crate::state::flat_owner(ss, f) is Some,
        f >= repos_before(ss, ss.len()) ==> crate::state::flat_owner(ss, f) is None,
    decreases ss.len(),
{
    if ss.len() > 0 {
        lemma_repos_before_shift(ss, ss.len());
        lemma_repos_before_shift(ss, 1);
        if f >= ss[0].repos.len() {
            let g = f - ss[0].repos.len();
            law_flat_owner_prefix_sums(ss.drop_first(), g);
            match crate::state::flat_owner(ss.drop_first(), g) {
                Some(k) => {
                    lemma_repos_before_shift(ss, k + 1);
                    lemma_repos_before_shift(ss, k + 2);
                },
                None => {},
            }
        }
    }
}

/// The repositories of sections `0..k`, flattened, number `repos_before(k)`, and the
/// next section's repositories follow them.
proof fn lemma_flat_repos_take(ss: Seq<SectionView>, k: nat)
    requires
        k <= ss.len(),
    ensures
        crate::state::flat_repos(ss.take(k as int)).len() == repos_before(ss, k),
        k < ss.len() ==> crate::state::flat_repos(ss.take(k + 1 as int)) == crate::state::flat_repos(ss.take(k as int)) + ss[k as int].repos,
    decreases k,
{
    if k < ss.len() {
        assert(ss.take(k + 1 as int).drop_last() =~= ss.take(k as int));
        assert(ss.take(k + 1 as int).last() == ss[k as int]);
    }
    if k > 0 {
        lemma_flat_repos_take(ss, (k - 1) as nat);
    } else {
        assert(ss.take(0) =~= Seq::<SectionView>::empty());
    }
}

/// The flattened repositories of sections `0..k` are a prefix of all of them.
proof fn lemma_flat_repos_prefix(ss: Seq<SectionView>, k: nat, i: int)
    requires
        k <= ss.len(),
        0 <= i < crate::state::flat_repos(ss.take(k as int)).len(),
    ensures
        i < crate::state::flat_repos(ss).len(),
        crate::state::flat_repos(ss)[i] == crate::state::flat_repos(ss.take(k as int))[i],
    decreases ss.len() - k,
{
    if k == ss.len() {
        assert(ss.take(k as int) =~= ss);
    } else {
        lemma_flat_repos_take(ss, k);
        lemma_flat_repos_prefix(ss, k + 1, i);
    }
}

/// The section that `section_idx_for_flat_repo_idx` names for a position of
/// `all_repos_flat()` holds the repository found there: position `f` lies in section
/// `k`'s repositories at `f - repos_before(k)`.  There are `repos_before(ss.len())`
/// repositories in all, and past them no section owns a position.
pub proof fn law_flat_owner_holds_repo(ss: Seq<SectionView>, f: int)
    requires
        0 <= f,
    ensures
        crate::state::flat_repos(ss).len() == repos_before(ss, ss.len()),
        f < crate::state::flat_repos(ss).len() ==> (crate::state::flat_owner(ss, f) matches Some(k) && k < ss.len()
            && repos_before(ss, k) <= f < repos_before(ss, k + 1)
            && crate::state::flat_repos(ss)[f] == ss[k as int].repos[f - repos_before(ss, k)]
            && ss[k as int].repos.contains(crate::state::flat_repos(ss)[f])),
        f >= crate::state::flat_repos(ss).len() ==> crate::state::flat_owner(ss, f) is None,
{
    lemma_flat_repos_take(ss, ss.len());
    assert(ss.take(ss.len() as int) =~= ss);
    law_flat_owner_prefix_sums(ss, f);
    if f < crate::state::flat_repos(ss).len() {
        let k = crate::state::flat_owner(ss, f)->Some_0;
        lemma_flat_repos_take(ss, k);
        lemma_flat_repos_take(ss, k + 1);
        let j = f - repos_before(ss, k);
        lemma_flat_repos_prefix(ss, k + 1, f);
        assert(crate::state::flat_repos(ss.take(k + 1 as int))[f] == ss[k as int].repos[j]);
        assert(ss[k as int].repos.contains(ss[k as int].repos[j]));
    }
}

/// Filtering out a value that does not occur keeps the sequence.
proof fn lemma_filter_keeps_all(s: Seq<Seq<char>>, p: Seq<char>)
    requires
        !s.contains(p),
    ensures
        s.filter(differs_from(p)) == s,
    decreases s.len(),
{
    reveal(Seq::filter);
    if s.len() > 0 {
        assert(!s.drop_last().contains(p)) by {
            if s.drop_last().contains(p) {
                let i = choose|i: int| 0 <= i < s.drop_last().len() && s.drop_last()[i] == p;
                assert(s[i] == p);
            }
        }
        lemma_filter_keeps_all(s.drop_last(), p);
        assert(s[s.len() - 1] != p);
        assert(s.drop_last().push(s.last()) =~= s);
    }
}

/// Sorting an ordered sequence with one more item inserts the item where `insert_pos`
/// puts it.
proof fn lemma_sort_push_sorted<T>(r: Seq<T>, x: T, key: spec_fn(T) -> Seq<char>)
    requires
        sorted_by_key(r, key),
    ensures
        sort_by_key(r.push(x), key) == r.insert(insert_pos(r, key(x), key) as int, x),
{
    lemma_sort_sorted_identity(r, key);
    assert(r.push(x).drop_last() =~= r);
    assert(r.push(x).last() == x);
}

/// Filtering a value out of a sequence it was inserted into, where it did not occur.
proof fn lemma_filter_inserted(r: Seq<Seq<char>>, pos: int, p: Seq<char>)
    requires
        !r.contains(p),
        0 <= pos <= r.len(),
    ensures
        r.insert(pos, p).filter(differs_from(p)) == r,
    decreases r.len(),
{
    reveal(Seq::filter);
    let t = r.insert(pos, p);
    if pos == r.len() {
        assert(t.drop_last() =~= r);
        assert(t.last() == p);
        lemma_filter_keeps_all(r, p);
    } else {
        assert(!r.drop_last().contains(p)) by {
            if r.drop_last().contains(p) {
                let i = choose|i: int| 0 <= i < r.drop_last().len() && r.drop_last()[i] == p;
                assert(r[i] == p);
            }
        }
        lemma_filter_inserted(r.drop_last(), pos, p);
        assert(t.drop_last() =~= r.drop_last().insert(pos, p));
        assert(t.last() == r.last());
        assert(r.last() != p) by {
            assert(r[r.len() - 1] == r.last());
        }
        assert(r.drop_last().push(r.last()) =~= r);
    }
}

/// Adding a repository that was not tracked to a section whose repositories are in
/// order (case-insensitively), then removing it again, gives back exactly the sections
/// there were: names, repositories in the same order, and collapsed flags.
pub proof fn law_add_then_remove_restores_exactly(ss: Seq<SectionView>, idx: int, path: Seq<char>)
    requires
        0 <= idx < ss.len(),
        !tracks(ss, path),
        sorted_by_key(ss[idx].repos, repo_key(false)),
    ensures
        without_repo(with_repo_added(ss, idx, path), path) == ss,
{
    let r = ss[idx].repos;
    let key = repo_key(false);
    lemma_sort_push_sorted(r, path, key);
    crate::order::lemma_insert_pos_bounds(r, key(path), key);
    assert(!r.contains(path));
    lemma_filter_inserted(r, insert_pos(r, key(path), key) as int, path);
    let after = without_repo(with_repo_added(ss, idx, path), path);
    assert forall|j: int| 0 <= j < ss.len() implies #[trigger] after[j] == ss[j] by {
        assert(!ss[j].repos.contains(path));
        if j != idx {
            lemma_filter_keeps_all(ss[j].repos, path);
        }
    }
    assert(after =~= ss);
}

/// Removing a named section keeps every repository tracked (its repositories move to
/// the default section).
pub proof fn law_remove_section_keeps_repos(ss: Seq<SectionView>, idx: int)
    ensures
        forall|q: Seq<char>| tracks(with_section_removed(ss, idx), q) <==> tracks(ss, q),
{
    if !(idx == 0 || idx < 0 || idx >= ss.len()) {
        let after = with_section_removed(ss, idx);
        let merged = ss[0].repos + ss[idx].repos;
        assert forall|q: Seq<char>| tracks(after, q) <==> tracks(ss, q) by {
            lemma_sorted_contains(merged, false, q);
            if tracks(after, q) {
                let i = choose|i: int| 0 <= i < after.len() && #[trigger] after[i].repos.contains(q);
                if i == 0 {
                    let j = choose|j: int| 0 <= j < merged.len() && merged[j] == q;
                    if j < ss[0].repos.len() {
                        assert(ss[0].repos[j] == q);
                        assert(ss[0].repos.contains(q));
                    } else {
                        assert(ss[idx].repos[j - ss[0].repos.len()] == q);
                        assert(ss[idx].repos.contains(q));
                    }
                } else if i < idx {
                    assert(ss[i].repos.contains(q));
                } else {
                    assert(ss[i + 1].repos.contains(q));
                }
            }
            if tracks(ss, q) {
                let i = choose|i: int| 0 <= i < ss.len() && #[trigger] ss[i].repos.contains(q);
                if i == 0 || i == idx {
                    let j = choose|j: int| 0 <= j < ss[i].repos.len() && ss[i].repos[j] == q;
                    if i == 0 {
                        assert(merged[j] == q);
                    } else {
                        assert(merged[ss[0].repos.len() + j] == q);
                    }
                    assert(after[0].repos.contains(q));
                } else if i < idx {
                    assert(after[i].repos.contains(q));
                } else {
                    assert(after[i - 1].repos.contains(q));
                }
            }
        }
    }
}

/// After moving a repository to a valid target section it is in that section and in no
/// other, and every other repository is tracked exactly when it was before.
pub proof fn law_moved_repo_in_target_only(ss: Seq<SectionView>, path: Seq<char>, target: int)
    requires
        0 <= target < ss.len(),
    ensures
        with_repo_moved(ss, path, target)[target].repos.contains(path),
        forall|i: int| 0 <= i < ss.len() && i != target ==> !(#[trigger] with_repo_moved(ss, path, target)[i]).repos.contains(path),
        forall|q: Seq<char>| q != path ==> (tracks(with_repo_moved(ss, path, target), q) <==> tracks(ss, q)),
{
    let w = without_repo(ss, path);
    let after = with_repo_moved(ss, path, target);
    law_removed_repo_is_untracked(ss, path);
    law_added_repo_is_tracked(w, target, path);
    assert(after == with_repo_added(w, target, path));
    assert forall|i: int| 0 <= i < ss.len() && i != target implies !(#[trigger] after[i]).repos.contains(path) by {
        lemma_filter_differs(ss[i].repos, path, path);
    }
    assert forall|q: Seq<char>| q != path implies (tracks(after, q) <==> tracks(ss, q)) by {
        if tracks(after, q) {
            let i = choose|i: int| 0 <= i < after.len() && #[trigger] after[i].repos.contains(q);
            if i == target {
                lemma_sorted_contains(w[target].repos.push(path), false, q);
                let j = choose|j: int| 0 <= j < w[target].repos.len() + 1 && w[target].repos.push(path)[j] == q;
                assert(w[target].repos[j] == q);
            }
            assert(w[i].repos.contains(q));
            assert(tracks(w, q));
        }
    }
}

/// Adding a named section puts it, empty and expanded, at an index after the default
/// section, and removing that index gives back the sections there were.
pub proof fn law_add_section_position(ss: Seq<SectionView>, name: Seq<char>)
    requires
        ss.len() >= 1,
    ensures
        ({
            let k = new_section_pos(ss, spec_lowercase(name)) as int;
            let after = with_section_added(ss, name);
            &&& 1 <= k <= ss.len()
            &&& after.len() == ss.len() + 1
            &&& after[k] == (SectionView { name: Some(name), repos: Seq::empty(), collapsed: false })
            &&& after.remove(k) == ss
        }),
{
    let lower = spec_lowercase(name);
    crate::order::lemma_insert_pos_bounds(ss.skip(1), lower, section_insert_key());
    let k = new_section_pos(ss, lower) as int;
    let sec = SectionView { name: Some(name), repos: Seq::empty(), collapsed: false };
    assert(ss.insert(k, sec).remove(k) =~= ss);
}

/// Adding a named section keeps the default section first, every other section named,
/// and the named sections in case-insensitive alphabetical order.
pub proof fn law_add_section_keeps_order(ss: Seq<SectionView>, name: Seq<char>)
    requires
        sections_wf(ss),
        named_sorted(ss),
    ensures
        sections_wf(with_section_added(ss, name)),
        named_sorted(with_section_added(ss, name)),
{
    let key = section_insert_key();
    let lower = spec_lowercase(name);
    let sec = SectionView { name: Some(name), repos: Seq::empty(), collapsed: false };
    let p = insert_pos(ss.skip(1), lower, key);
    assert(key(sec) == lower);
    lemma_insert_sorted(ss.skip(1), sec, key);
    let after = with_section_added(ss, name);
    assert(new_section_pos(ss, lower) == 1 + p);
    crate::order::lemma_insert_pos_bounds(ss.skip(1), lower, key);
    assert(after.skip(1) =~= ss.skip(1).insert(p as int, sec));
    assert forall|i: int| 1 <= i < after.len() implies (#[trigger] after[i]).name is Some by {
        if i < 1 + p {
            assert(after[i] == ss[i]);
        } else if i > 1 + p {
            assert(after[i] == ss[i - 1]);
        }
    }
}

/// Renaming a section leaves the named sections sorted by their lower-cased names and
/// keeps the default section first and every other section named.
pub proof fn law_rename_section_keeps_order(ss: Seq<SectionView>, idx: int, name: Seq<char>)
    requires
        sections_wf(ss),
        1 <= idx < ss.len(),
    ensures
        sections_wf(renamed_sections(ss, idx, name)),
        sorted_by_key(renamed_sections(ss, idx, name).skip(1), section_sort_key()),
        renamed_sections(ss, idx, name).len() == ss.len(),
{
    broadcast use vstd::seq_lib::group_to_multiset_ensures;
    let renamed = ss.update(idx, SectionView { name: Some(name), ..ss[idx] });
    let sorted = sort_by_key(renamed.skip(1), section_sort_key());
    lemma_sort_by_key_sorted_permutation(renamed.skip(1), section_sort_key());
    let after = renamed_sections(ss, idx, name);
    assert(after.skip(1) =~= sorted);
    assert forall|i: int| 1 <= i < after.len() implies (#[trigger] after[i]).name is Some by {
        assert(sorted[i - 1] == after[i]);
        assert(sorted.contains(after[i]));
        assert(sorted.to_multiset().count(after[i]) > 0);
        assert(renamed.skip(1).contains(after[i]));
        let j = choose|j: int| 0 <= j < renamed.skip(1).len() && renamed.skip(1)[j] == after[i];
        assert(renamed[j + 1] == after[i]);
    }
}

/// Removing a section keeps the default section first and every other section named.
pub proof fn law_remove_section_keeps_shape(ss: Seq<SectionView>, idx: int)
    requires
        sections_wf(ss),
    ensures
        sections_wf(with_section_removed(ss, idx)),
{
    let after = with_section_removed(ss, idx);
    if !(idx == 0 || idx < 0 || idx >= ss.len()) {
        assert forall|i: int| 1 <= i < after.len() implies (#[trigger] after[i]).name is Some by {
            if i < idx {
                assert(after[i] == ss[i]);
            } else {
                assert(after[i] == ss[i + 1]);
            }
        }
    }
}

/// An element whose key is not below any key of `out` goes at its end.
proof fn lemma_insert_pos_end<T>(out: Seq<T>, kx: Seq<char>, key: spec_fn(T) -> Seq<char>)
    requires
        forall|i: int| 0 <= i < out.len() ==> lex_le(#[trigger] key(out[i]), kx),
    ensures
        insert_pos(out, kx, key) == out.len(),
    decreases out.len(),
{
    if out.len() > 0 {
        lemma_lex_lt_irreflexive(kx);
        if key(out[0]) != kx {
            lemma_lex_lt_asymmetric(key(out[0]), kx);
        }
        assert forall|i: int| 0 <= i < out.drop_first().len() implies lex_le(#[trigger] key(out.drop_first()[i]), kx) by {
            assert(out.drop_first()[i] == out[i + 1]);
        }
        lemma_insert_pos_end(out.drop_first(), kx, key);
    }
}

/// Sorting a sequence that is already in order leaves it unchanged.
pub proof fn lemma_sort_sorted_identity<T>(s: Seq<T>, key: spec_fn(T) -> Seq<char>)
    requires
        sorted_by_key(s, key),
    ensures
        sort_by_key(s, key) == s,
    decreases s.len(),
{
    if s.len() > 0 {
        let init = s.drop_last();
        assert forall|i: int, j: int| 0 <= i < j < init.len() implies lex_le(#[trigger] key(init[i]), #[trigger] key(init[j])) by {
            assert(init[i] == s[i] && init[j] == s[j]);
        }
        lemma_sort_sorted_identity(init, key);
        assert forall|i: int| 0 <= i < init.len() implies lex_le(#[trigger] key(init[i]), key(s.last())) by {
            assert(init[i] == s[i]);
            assert(key(s[i]) == key(init[i]));
            assert(key(s[s.len() - 1]) == key(s.last()));
        }
        lemma_insert_pos_end(init, key(s.last()), key);
        assert(init.insert(init.len() as int, s.last()) =~= s);
    }
}

/// Resolving the relative forms of paths, each of which resolves back to itself and is
/// a directory, gives the paths again.
proof fn lemma_resolved_relative(ps: Seq<Seq<char>>, b: Seq<char>, dirs: Seq<Seq<char>>)
    requires
        forall|j: int| 0 <= j < ps.len() ==> dirs.contains(#[trigger] ps[j]) && spec_resolve_path(
            spec_make_relative(ps[j], b),
            b,
        ) == ps[j],
    ensures
        resolved_dirs(ps.map_values(|p: Seq<char>| spec_make_relative(p, b)), b, dirs) == ps,
    decreases ps.len(),
{
    if ps.len() > 0 {
        let m = ps.map_values(|p: Seq<char>| spec_make_relative(p, b));
        assert(m.drop_last() =~= ps.drop_last().map_values(|p: Seq<char>| spec_make_relative(p, b)));
        assert forall|j: int| 0 <= j < ps.drop_last().len() implies dirs.contains(#[trigger] ps.drop_last()[j])
            && spec_resolve_path(spec_make_relative(ps.drop_last()[j], b), b) == ps.drop_last()[j] by {
            assert(ps.drop_last()[j] == ps[j]);
        }
        lemma_resolved_relative(ps.drop_last(), b, dirs);
        assert(m.last() == spec_make_relative(ps[ps.len() - 1], b));
        assert(ps.drop_last().push(ps.last()) =~= ps);
    }
}

/// The sections as `saveable_sections` writes them for the state file in `base_dir`.
pub open spec fn saved_form(ss: Seq<SectionView>, base_dir: Seq<char>) -> Seq<SectionView> {
    ss.map_values(|s: SectionView| SectionView {
        repos: s.repos.map_values(|p: Seq<char>| spec_make_relative(p, base_dir)),
        ..s
    })
}

/// Saving the sections and loading them back gives the same sections when every path
/// is one that its relative form resolves back to (see `law_save_load_round_trip`).
proof fn lemma_save_load_round_trip(ss: Seq<SectionView>, base_dir: Seq<char>, dirs: Seq<Seq<char>>)
    requires
        ss.len() >= 1,
        ss[0].name is None,
        forall|k: int| 0 <= k < ss.len() ==> sorted_by_key(#[trigger] ss[k].repos, repo_key(false)),
        forall|k: int, j: int|
            0 <= k < ss.len() && 0 <= j < ss[k].repos.len() ==> dirs.contains(#[trigger] ss[k].repos[j])
                && spec_resolve_path(spec_make_relative(ss[k].repos[j], base_dir), base_dir) == ss[k].repos[j],
    ensures
        loaded_sections(saved_form(ss, base_dir), Seq::empty(), base_dir, dirs) == ss,
{
    let saved = saved_form(ss, base_dir);
    assert(saved[0].name is None);
    assert forall|k: int| 0 <= k < ss.len() implies loaded_section(#[trigger] saved[k], base_dir, dirs) == ss[k] by {
        assert forall|j: int| 0 <= j < ss[k].repos.len() implies dirs.contains(#[trigger] ss[k].repos[j])
            && spec_resolve_path(spec_make_relative(ss[k].repos[j], base_dir), base_dir) == ss[k].repos[j] by {}
        lemma_resolved_relative(ss[k].repos, base_dir, dirs);
        lemma_sort_sorted_identity(ss[k].repos, repo_key(false));
        assert(saved[k].repos == ss[k].repos.map_values(|p: Seq<char>| spec_make_relative(p, base_dir)));
    }
    assert(saved.map_values(|s: SectionView| loaded_section(s, base_dir, dirs)) =~= ss);
}

/// No character of `p` is a `/`.
pub open spec fn no_slash(p: Seq<char>) -> bool {
    forall|j: int| 0 <= j < p.len() ==> p[j] != '/'
}

/// The pieces between separators hold no separator.
proof fn lemma_split_pieces_no_slash(s: Seq<char>)
    ensures
        forall|i: int| 0 <= i < split_slash(s).len() ==> no_slash(#[trigger] split_slash(s)[i]),
    decreases s.len(),
{
    if s.len() > 0 {
        lemma_split_pieces_no_slash(s.drop_last());
        lemma_split_slash_nonempty(s.drop_last());
        let r = split_slash(s.drop_last());
        if s.last() != '/' {
            let last = r.last().push(s.last());
            assert(no_slash(r[r.len() - 1]));
            assert(no_slash(last)) by {
                assert forall|j: int| 0 <= j < last.len() implies last[j] != '/' by {
                    if j < r.last().len() {
                        assert(last[j] == r[r.len() - 1][j]);
                    }
                }
            }
            assert forall|i: int| 0 <= i < split_slash(s).len() implies no_slash(#[trigger] split_slash(s)[i]) by {
                if i < r.len() - 1 {
                    assert(split_slash(s)[i] == r[i]);
                }
            }
        } else {
            assert forall|i: int| 0 <= i < split_slash(s).len() implies no_slash(#[trigger] split_slash(s)[i]) by {
                if i < r.len() {
                    assert(split_slash(s)[i] == r[i]);
                } else {
                    assert(split_slash(s)[i] =~= Seq::<char>::empty());
                }
            }
        }
    }
}

/// Every component after a leading root is a non-empty name without a separator.
proof fn lemma_component_names(s: Seq<char>)
    ensures
        forall|i: int| 0 <= i < components(s).len() && !(i == 0 && s.len() > 0 && s[0] == '/') ==> {
            &&& (#[trigger] components(s)[i]).len() > 0
            &&& no_slash(components(s)[i])
        },
{
    broadcast use vstd::seq_lib::group_filter_ensures;
    lemma_split_pieces_no_slash(s);
    let f = split_slash(s).filter(keep_part());
    let r0: int = if s.len() > 0 && s[0] == '/' { 1 } else { 0 };
    assert forall|i: int| 0 <= i < components(s).len() && !(i == 0 && s.len() > 0 && s[0] == '/') implies {
        &&& (#[trigger] components(s)[i]).len() > 0
        &&& no_slash(components(s)[i])
    } by {
        assert(components(s)[i] == f[i - r0]);
        assert((keep_part())(f[i - r0]));
        assert(f.contains(f[i - r0]));
        split_slash(s).lemma_filter_contains_rev(keep_part(), f[i - r0]);
        let j = choose|j: int| 0 <= j < split_slash(s).len() && split_slash(s)[j] == f[i - r0];
        assert(no_slash(split_slash(s)[j]));
    }
}

/// A join starts with the first character of its first part.
proof fn lemma_join_first(x: Seq<Seq<char>>)
    requires
        x.len() >= 1,
        x[0].len() >= 1,
    ensures
        join_parts(x).len() >= 1,
        join_parts(x)[0] == x[0][0],
    decreases x.len(),
{
    if x.len() > 1 {
        assert(x.drop_last()[0] == x[0]);
        lemma_join_first(x.drop_last());
    }
}

/// Joining splits at any inner boundary: the parts before it, a `/`, the parts after.
proof fn lemma_join_split(x: Seq<Seq<char>>, m: int)
    requires
        1 <= m < x.len(),
    ensures
        join_parts(x) == join_parts(x.take(m)) + "/"@ + join_parts(x.skip(m)),
    decreases x.len(),
{
    if m == x.len() - 1 {
        assert(x.take(m) =~= x.drop_last());
        assert(x.skip(m) =~= seq![x.last()]);
    } else {
        lemma_join_split(x.drop_last(), m);
        assert(x.drop_last().take(m) =~= x.take(m));
        assert(x.skip(m).drop_last() =~= x.drop_last().skip(m));
        assert(x.skip(m).last() == x.last());
        assert(join_parts(x.skip(m)) == join_parts(x.skip(m).drop_last()) + "/"@ + x.skip(m).last());
    }
}

/// A path is in normal form when it is the join of its own components: no repeated or
/// trailing `/`, no `.` component.
pub open spec fn is_normal_path(p: Seq<char>) -> bool {
    join_components(components(p)) == p
}

/// An absolute path in normal form that is not the directory itself comes back from its
/// relative form: relative to a normal absolute directory above it, resolved against
/// that directory; unchanged when it lies elsewhere.
pub proof fn law_relative_path_round_trip(p: Seq<char>, b: Seq<char>)
    requires
        p.len() > 0 && p[0] == '/',
        b.len() > 0 && b[0] == '/',
        is_normal_path(p),
        is_normal_path(b),
        components(p) != components(b),
    ensures
        spec_resolve_path(spec_make_relative(p, b), b) == p,
{
    let ca = components(p);
    let cb = components(b);
    if cb.len() <= ca.len() && ca.take(cb.len() as int) == cb {
        let k = cb.len() as int;
        assert(ca[0] == "/"@ && cb[0] == "/"@);
        lemma_component_names(p);
        lemma_component_names(b);
        if k == ca.len() {
            assert(ca =~= cb);
        }
        assert(k < ca.len());
        let rest = ca.skip(k);
        assert(rest[0] == ca[k]);
        assert(ca[k].len() > 0 && no_slash(ca[k]));
        assert(rest[0] != "/"@) by {
            if rest[0] == "/"@ {
                assert(ca[k][0] == '/');
            }
        }
        let rel = join_parts(rest);
        assert(spec_make_relative(p, b) == rel);
        lemma_join_first(rest);
        assert(rel[0] == ca[k][0]);
        let x = ca.skip(1);
        assert(p == "/"@ + join_parts(x));
        if k == 1 {
            assert(cb =~= seq!["/"@]);
            assert(join_parts(cb.skip(1)) =~= Seq::<char>::empty());
            assert(b =~= "/"@);
            assert(rest =~= x);
            reveal_strlit("/");
            assert(b.last() == '/');
            assert(spec_resolve_path(rel, b) =~= "/"@ + join_parts(x));
        } else {
            assert(cb.skip(1) =~= x.take(k - 1));
            assert(rest =~= x.skip(k - 1));
            let bj = join_parts(cb.skip(1));
            assert(b == "/"@ + bj);
            assert(cb.skip(1).last() == cb[k - 1]);
            assert(cb[k - 1].len() > 0 && no_slash(cb[k - 1]));
            if cb.skip(1).len() == 1 {
                assert(bj == cb.skip(1)[0]);
            } else {
                assert(bj == join_parts(cb.skip(1).drop_last()) + "/"@ + cb.skip(1).last());
            }
            assert(bj.last() == cb[k - 1].last());
            assert(b.last() == bj.last());
            lemma_join_split(x, k - 1);
            assert(spec_resolve_path(rel, b) =~= "/"@ + join_parts(x));
        }
        assert(spec_resolve_path(spec_make_relative(p, b), b) == p);
    } else {
        assert(spec_make_relative(p, b) == p);
    }
}

/// Saving the sections to the state file in `base_dir` and loading the file back gives
/// the same sections, when the default section comes first, each section's
/// repositories are in the order a load puts them (case-insensitive), every repository
/// is still a directory, and every repository path and the directory are absolute
/// paths in normal form, no repository being the directory itself.
pub proof fn law_save_load_round_trip(ss: Seq<SectionView>, base_dir: Seq<char>, dirs: Seq<Seq<char>>)
    requires
        ss.len() >= 1,
        ss[0].name is None,
        forall|k: int| 0 <= k < ss.len() ==> sorted_by_key(#[trigger] ss[k].repos, repo_key(false)),
        base_dir.len() > 0 && base_dir[0] == '/',
        is_normal_path(base_dir),
        forall|k: int, j: int|
            0 <= k < ss.len() && 0 <= j < ss[k].repos.len() ==> {
                let p = #[trigger] ss[k].repos[j];
                &&& dirs.contains(p)
                &&& p.len() > 0 && p[0] == '/'
                &&& is_normal_path(p)
                &&& components(p) != components(base_dir)
            },
    ensures
        loaded_sections(saved_form(ss, base_dir), Seq::empty(), base_dir, dirs) == ss,
{
    assert forall|k: int, j: int| 0 <= k < ss.len() && 0 <= j < ss[k].repos.len() implies dirs.contains(
        #[trigger] ss[k].repos[j],
    ) && spec_resolve_path(spec_make_relative(ss[k].repos[j], base_dir), base_dir) == ss[k].repos[j] by {
        law_relative_path_round_trip(ss[k].repos[j], base_dir);
    }
    lemma_save_load_round_trip(ss, base_dir, dirs);
}

} // verus!
