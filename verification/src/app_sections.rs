//! Repository and section management from the Repositories pane: adding and removing
//! repos, collapsing, creating, renaming and removing sections, moving a repo between
//! sections, and keeping `repos` in the order of the sections.  Saving the state after
//! a change is left to the application.
use vstd::prelude::*;
use crate::app::{App, AppMode, VisibleRow, repo_rows, repos_from, rows_from, spec_visible_rows};
use crate::app_log::{ops_unique, op_lookup};
use crate::git::RepoStatus;
use crate::order::{first_index, lemma_first_index, lemma_first_index_skip};
use crate::state::{
    SectionView, flat_owner, flat_repos, name_taken, named_lower, new_section_pos, renamed_sections, strings_view,
    with_repo_added, with_repo_moved, with_section_added, with_section_removed, without_repo, tracks,
};
use crate::text::spec_lowercase;
use crate::text::{chars_of, push_str, spec_trim, str_eq, string_from_chars, trimmed};

verus! {

/// What the application found at a path offered as a new repository.
#[derive(Debug, Clone, Copy, PartialEq, Eq, Structural)]
pub enum RepoCheck {
    /// The path is not a directory.
    NotADirectory,
    /// The directory is not a git repository.
    NotARepository,
    /// The directory is a bare repository.
    Bare,
    /// The directory is a git repository with a working tree.
    Repository,
}

/// The predicate "this row is `t`".
pub open spec fn is_row(t: VisibleRow) -> spec_fn(VisibleRow) -> bool {
    |r: VisibleRow| r == t
}

/// The predicate "this row is a repo row".
pub open spec fn is_repo_row() -> spec_fn(VisibleRow) -> bool {
    |r: VisibleRow| r is Repo
}

/// `sel` clamped to `n` rows (0 when there are none).
pub open spec fn clamp_row(sel: usize, n: nat) -> usize {
    if n == 0 {
        0
    } else if sel >= n {
        (n - 1) as usize
    } else {
        sel
    }
}

/// The counts the Repositories pane works with fit in a `usize`.
pub open spec fn state_fits(ss: Seq<SectionView>) -> bool {
    ss.len() >= 1 && repos_from(ss, 0) + ss.len() <= usize::MAX
}

/// The row of `t` among the rows of `ss`, if shown.
pub open spec fn row_of(ss: Seq<SectionView>, t: VisibleRow) -> Option<nat> {
    first_index(spec_visible_rows(ss), is_row(t))
}

/// The last repository with path `p`.
pub open spec fn last_with_path(repos: Seq<RepoStatus>, p: Seq<char>) -> Option<int>
    decreases repos.len(),
{
    if repos.len() == 0 {
        None
    } else if repos.last().path@ == p {
        Some(repos.len() - 1)
    } else {
        last_with_path(repos.drop_last(), p)
    }
}

/// `repos` arranged in the order of `ordered`: for each path (its first occurrence), the
/// last repository with that path; paths without a repository are skipped.
pub open spec fn reordered(repos: Seq<RepoStatus>, ordered: Seq<Seq<char>>) -> Seq<RepoStatus>
    decreases ordered.len(),
{
    if ordered.len() == 0 {
        Seq::empty()
    } else {
        let rest = reordered(repos, ordered.drop_last());
        let p = ordered.last();
        if ordered.drop_last().contains(p) {
            rest
        } else {
            match last_with_path(repos, p) {
                Some(j) => rest.push(repos[j]),
                None => rest,
            }
        }
    }
}

/// The sections a repository in section `current` can move to, from index `i` on:
/// every named section but `current`, with its name.
pub open spec fn targets_from(ss: Seq<SectionView>, current: nat, i: nat) -> Seq<(usize, Seq<char>)>
    decreases ss.len() - i,
{
    if i >= ss.len() {
        Seq::empty()
    } else {
        let own = if i == current {
            Seq::empty()
        } else {
            seq![(i as usize, match ss[i as int].name {
                Some(n) => n,
                None => Seq::empty(),
            })]
        };
        own + targets_from(ss, current, i + 1)
    }
}

/// The move targets offered for a repository in section `current`: the default
/// section (as "Default") unless it is the current one, then the other named sections.
pub open spec fn move_targets(ss: Seq<SectionView>, current: nat) -> Seq<(usize, Seq<char>)> {
    (if current != 0 { seq![(0usize, "Default"@)] } else { Seq::empty() }) + targets_from(ss, current, 1)
}

pub open spec fn targets_view(items: Seq<(usize, String)>) -> Seq<(usize, Seq<char>)> {
    items.map_values(|t: (usize, String)| (t.0, t.1@))
}

/// The error text of `add_repo_path` for a rejected path.
pub open spec fn repo_check_error(check: RepoCheck, path: Seq<char>) -> Seq<char> {
    match check {
        RepoCheck::NotADirectory => "Not a directory: "@ + path,
        RepoCheck::NotARepository => "Not a git repository: "@ + path,
        RepoCheck::Bare => "Bare repositories are not supported: "@ + path,
        RepoCheck::Repository => Seq::empty(),
    }
}

/// Sections that differ only in `collapsed` flags have the same repository counts.
proof fn lemma_repos_from_update_same_len(ss: Seq<SectionView>, i: int, s: SectionView, k: nat)
    requires
        0 <= i < ss.len(),
        s.repos.len() == ss[i].repos.len(),
    ensures
        repos_from(ss.update(i, s), k) == repos_from(ss, k),
    decreases ss.len() - k,
{
    if k < ss.len() {
        lemma_repos_from_update_same_len(ss, i, s, k + 1);
    }
}

/// Title rows name sections `>= max(k, 1)` and below the section count.
proof fn lemma_rows_from_titles(ss: Seq<SectionView>, k: nat, flat: nat)
    requires
        ss.len() <= usize::MAX,
    ensures
        forall|j: int| 0 <= j < rows_from(ss, k, flat).len() ==> (#[trigger] rows_from(ss, k, flat)[j] matches VisibleRow::SectionTitle(t)
            ==> 1 <= t && k <= t && t < ss.len()),
    decreases ss.len() - k,
{
    if k < ss.len() {
        lemma_rows_from_titles(ss, k + 1, flat + ss[k as int].repos.len());
        let s = ss[k as int];
        let own = if k == 0 {
            repo_rows(flat, s.repos.len())
        } else if s.collapsed {
            seq![VisibleRow::SectionTitle(k as usize)]
        } else {
            seq![VisibleRow::SectionTitle(k as usize)] + repo_rows(flat, s.repos.len())
        };
        let rest = rows_from(ss, k + 1, flat + s.repos.len());
        assert(rows_from(ss, k, flat) == own + rest);
        assert forall|j: int| 0 <= j < rows_from(ss, k, flat).len() implies (#[trigger] rows_from(ss, k, flat)[j] matches VisibleRow::SectionTitle(t)
            ==> 1 <= t && k <= t && t < ss.len()) by {
            if j < own.len() {
                assert(rows_from(ss, k, flat)[j] == own[j]);
                if k == 0 {
                    assert(own[j] == VisibleRow::Repo((flat + j) as usize));
                } else if !s.collapsed && j >= 1 {
                    assert(own[j] == repo_rows(flat, s.repos.len())[j - 1]);
                }
            } else {
                assert(rows_from(ss, k, flat)[j] == rest[j - own.len()]);
            }
        }
    }
}

/// The owner of a flat repository index is a section.
proof fn lemma_flat_owner_range(ss: Seq<SectionView>, f: int)
    ensures
        flat_owner(ss, f) matches Some(i) ==> i < ss.len(),
    decreases ss.len(),
{
    if ss.len() > 0 && f >= ss[0].repos.len() {
        lemma_flat_owner_range(ss.drop_first(), f - ss[0].repos.len());
    }
}

/// The current section is one of the sections.
pub proof fn lemma_current_section_in_range(app: &App)
    requires
        app.inv(),
    ensures
        app.spec_current_section_idx() < app.state.ss().len(),
{
    lemma_rows_from_titles(app.state.ss(), 0, 0);
    match app.selected_row() {
        Some(VisibleRow::Repo(i)) => lemma_flat_owner_range(app.state.ss(), i as int),
        _ => {},
    }
}

fn find_row(rows: &Vec<VisibleRow>, t: VisibleRow) -> (res: Option<usize>)
    ensures
        res matches Some(i) ==> first_index(rows@, is_row(t)) == Some(i as nat),
        res is None ==> first_index(rows@, is_row(t)) is None,
{
    let ghost s = rows@;
    let mut i: usize = 0;
    assert(s.skip(0) =~= s);
    while i < rows.len()
        invariant
            s == rows@,
            i <= s.len(),
            first_index(s, is_row(t)) == (match first_index(s.skip(i as int), is_row(t)) {
                Some(j) => Some((j + i) as nat),
                None => None::<nat>,
            }),
        decreases s.len() - i,
    {
        assert(s.skip(i as int)[0] == s[i as int]);
        if rows[i] == t {
            assert((is_row(t))(s.skip(i as int)[0]));
            return Some(i);
        }
        proof { lemma_first_index_skip(s, is_row(t), i as int); }
        i += 1;
    }
    assert(s.skip(i as int).len() == 0);
    None
}

fn find_repo_row(rows: &Vec<VisibleRow>) -> (res: Option<usize>)
    ensures
        res matches Some(i) ==> first_index(rows@, is_repo_row()) == Some(i as nat),
        res is None ==> first_index(rows@, is_repo_row()) is None,
{
    let ghost s = rows@;
    let mut i: usize = 0;
    assert(s.skip(0) =~= s);
    while i < rows.len()
        invariant
            s == rows@,
            i <= s.len(),
            first_index(s, is_repo_row()) == (match first_index(s.skip(i as int), is_repo_row()) {
                Some(j) => Some((j + i) as nat),
                None => None::<nat>,
            }),
        decreases s.len() - i,
    {
        assert(s.skip(i as int)[0] == s[i as int]);
        match rows[i] {
            VisibleRow::Repo(_) => {
                assert((is_repo_row())(s.skip(i as int)[0]));
                return Some(i);
            },
            VisibleRow::SectionTitle(_) => {},
        }
        proof { lemma_first_index_skip(s, is_repo_row(), i as int); }
        i += 1;
    }
    assert(s.skip(i as int).len() == 0);
    None
}

/// A copy of a string.
fn copy_string(s: &String) -> (res: String)
    ensures
        res@ == s@,
{
    string_from_chars(chars_of(s.as_str()).as_slice())
}

/// `last_with_path` gives a repository with that path, and the last one.
proof fn lemma_last_with_path(repos: Seq<RepoStatus>, p: Seq<char>)
    ensures
        last_with_path(repos, p) matches Some(j) ==> 0 <= j < repos.len() && repos[j].path@ == p && forall|x: int|
            j < x < repos.len() ==> #[trigger] repos[x].path@ != p,
        last_with_path(repos, p) is None ==> forall|x: int| 0 <= x < repos.len() ==> #[trigger] repos[x].path@ != p,
    decreases repos.len(),
{
    if repos.len() > 0 {
        lemma_last_with_path(repos.drop_last(), p);
        if repos.last().path@ != p {
            assert forall|x: int| 0 <= x < repos.len() - 1 implies #[trigger] repos[x] == repos.drop_last()[x] by {}
        }
    }
}

/// The index of the last repository whose path is `p`.
fn last_index_with_path(paths: &Vec<String>, p: &str, Ghost(repos): Ghost<Seq<RepoStatus>>) -> (res: Option<usize>)
    requires
        paths@.len() == repos.len(),
        forall|j: int| 0 <= j < repos.len() ==> #[trigger] paths@[j]@ == repos[j].path@,
    ensures
        res matches Some(j) ==> last_with_path(repos, p@) == Some(j as int),
        res is None ==> last_with_path(repos, p@) is None,
{
    let mut i: usize = paths.len();
    assert(repos.take(i as int) =~= repos);
    while i > 0
        invariant
            i <= repos.len(),
            paths@.len() == repos.len(),
            forall|j: int| 0 <= j < repos.len() ==> #[trigger] paths@[j]@ == repos[j].path@,
            last_with_path(repos, p@) == last_with_path(repos.take(i as int), p@),
        decreases i,
    {
        assert(repos.take(i as int).last() == repos[i - 1]);
        assert(repos.take(i as int).drop_last() =~= repos.take(i - 1));
        if str_eq(paths[i - 1].as_str(), p) {
            return Some(i - 1);
        }
        i -= 1;
    }
    None
}

/// Whether `p` occurs among the first `n` entries of `v`.
fn contains_before(v: &Vec<String>, n: usize, p: &str) -> (res: bool)
    requires
        n <= v@.len(),
    ensures
        res == strings_view(v@).take(n as int).contains(p@),
{
    let mut i: usize = 0;
    while i < n
        invariant
            n <= v@.len(),
            i <= n,
            forall|j: int| 0 <= j < i ==> (#[trigger] v@[j])@ != p@,
        decreases n - i,
    {
        if str_eq(v[i].as_str(), p) {
            assert(strings_view(v@).take(n as int)[i as int] == p@);
            return true;
        }
        i += 1;
    }
    assert forall|j: int| 0 <= j < n implies strings_view(v@).take(n as int)[j] != p@ by {
        assert(strings_view(v@).take(n as int)[j] == v@[j]@);
    }
    false
}

/// `repos` arranged in the order of the paths `ordered` (see `reordered`).
fn reorder_repos(repos: Vec<RepoStatus>, ordered: &Vec<String>) -> (res: Vec<RepoStatus>)
    ensures
        res@ == reordered(repos@, strings_view(ordered@)),
{
    let ghost orig = repos@;
    let ghost ord = strings_view(ordered@);
    let mut paths: Vec<String> = Vec::new();
    let mut slots: Vec<Option<RepoStatus>> = Vec::new();
    let mut pool = repos;
    let n = pool.len();
    let mut k: usize = 0;
    assert(orig.skip(0) =~= orig);
    while k < n
        invariant
            n == orig.len(),
            k <= n,
            pool@ == orig.skip(k as int),
            paths@.len() == k,
            slots@.len() == k,
            forall|j: int| 0 <= j < k ==> #[trigger] paths@[j]@ == orig[j].path@,
            forall|j: int| 0 <= j < k ==> #[trigger] slots@[j] == Some(orig[j]),
        decreases n - k,
    {
        let r = pool.remove(0);
        assert(r == orig[k as int]);
        assert(pool@ =~= orig.skip(k + 1));
        paths.push(copy_string(&r.path));
        slots.push(Some(r));
        k += 1;
    }
    let mut out: Vec<RepoStatus> = Vec::new();
    let mut i: usize = 0;
    while i < ordered.len()
        invariant
            n == orig.len(),
            ord == strings_view(ordered@),
            i <= ord.len(),
            paths@.len() == n,
            slots@.len() == n,
            forall|j: int| 0 <= j < n ==> #[trigger] paths@[j]@ == orig[j].path@,
            forall|j: int| 0 <= j < n ==> (#[trigger] slots@[j] is Some ==> slots@[j] == Some(orig[j])),
            forall|j: int| 0 <= j < n ==> (#[trigger] slots@[j] is None ==> ord.take(i as int).contains(orig[j].path@)),
            out@ == reordered(orig, ord.take(i as int)),
        decreases ord.len() - i,
    {
        assert(ord.take(i + 1).drop_last() =~= ord.take(i as int));
        assert(ord.take(i + 1).last() == ordered@[i as int]@);
        let p = ordered[i].as_str();
        if !contains_before(ordered, i, p) {
            assert(!ord.take(i as int).contains(p@));
            match last_index_with_path(&paths, p, Ghost(orig)) {
                Some(j) => {
                    proof { lemma_last_with_path(orig, p@); }
                    assert(slots@[j as int] is Some);
                    let taken = slots[j].take();
                    match taken {
                        Some(r) => {
                            out.push(r);
                        },
                        None => {},
                    }
                    proof {
                        assert forall|x: int| 0 <= x < n implies (#[trigger] slots@[x] is None ==> ord.take(i + 1).contains(orig[x].path@)) by {
                            if slots@[x] is None {
                                if x == j {
                                    assert(ord.take(i + 1)[i as int] == p@);
                                } else {
                                    let w = choose|w: int| 0 <= w < ord.take(i as int).len() && ord.take(i as int)[w] == orig[x].path@;
                                    assert(ord.take(i + 1)[w] == orig[x].path@);
                                }
                            }
                        }
                    }
                },
                None => {
                    proof {
                        assert forall|x: int| 0 <= x < n implies (#[trigger] slots@[x] is None ==> ord.take(i + 1).contains(orig[x].path@)) by {
                            if slots@[x] is None {
                                let w = choose|w: int| 0 <= w < ord.take(i as int).len() && ord.take(i as int)[w] == orig[x].path@;
                                assert(ord.take(i + 1)[w] == orig[x].path@);
                            }
                        }
                    }
                },
            }
        } else {
            proof {
                assert forall|x: int| 0 <= x < n implies (#[trigger] slots@[x] is None ==> ord.take(i + 1).contains(orig[x].path@)) by {
                    if slots@[x] is None {
                        let w = choose|w: int| 0 <= w < ord.take(i as int).len() && ord.take(i as int)[w] == orig[x].path@;
                        assert(ord.take(i + 1)[w] == orig[x].path@);
                    }
                }
            }
        }
        i += 1;
    }
    assert(ord.take(ord.len() as int) =~= ord);
    out
}

/// The sections and the index of the created or renamed section after confirming the
/// section name `name` (already trimmed and non-empty).
#[verifier::opaque]
pub open spec fn named_outcome(ss: Seq<SectionView>, name: Seq<char>, is_create: bool, target: usize) -> (Seq<SectionView>, Option<usize>) {
    let lower = spec_lowercase(name);
    if is_create {
        if name_taken(ss, lower, 0) {
            (ss, None)
        } else {
            (with_section_added(ss, name), Some(new_section_pos(ss, lower) as usize))
        }
    } else if target == 0 || target >= ss.len() || name_taken(ss, lower, target as int) {
        (ss, None)
    } else {
        let after = renamed_sections(ss, target as int, name);
        (after, Some(match first_index(after, named_lower(lower)) {
            Some(i) => i as usize,
            None => target,
        }))
    }
}

/// The selection after the rows changed to those of `ss`: the row of `t`, when the
/// counts fit and the row is shown; `sel` otherwise.
pub open spec fn select_row_of(ss: Seq<SectionView>, t: VisibleRow, sel: usize) -> usize {
    if state_fits(ss) {
        match row_of(ss, t) {
            Some(p) => p as usize,
            None => sel,
        }
    } else {
        sel
    }
}

/// The selection after a section was removed: the first repo row (0 without one), when
/// the counts fit; `sel` otherwise.
pub open spec fn first_repo_selection(ss: Seq<SectionView>, sel: usize) -> usize {
    if state_fits(ss) {
        match first_index(spec_visible_rows(ss), is_repo_row()) {
            Some(p) => p as usize,
            None => 0,
        }
    } else {
        sel
    }
}

/// The predicate "this row shows a repository whose path is `p`".
pub open spec fn is_repo_with_path(repos: Seq<RepoStatus>, p: Seq<char>) -> spec_fn(VisibleRow) -> bool {
    |r: VisibleRow| r matches VisibleRow::Repo(i) && i < repos.len() && repos[i as int].path@ == p
}

/// Create (`is_create`) or rename (`sections[target]`) a section named `name`.
fn apply_section_name(state: &mut crate::state::State, name: String, is_create: bool, target: usize) -> (res: Option<usize>)
    ensures
        (final(state).ss(), res) == named_outcome(old(state).ss(), name@, is_create, target),
        final(state).same_flags(old(state)),
{
    proof { reveal(named_outcome); }
    if is_create {
        state.add_section(name)
    } else {
        state.rename_section(target, name)
    }
}

/// Rearrange `repos` in the display order of `state`'s sections.
fn reorder_in_place(repos: &mut Vec<RepoStatus>, state: &crate::state::State)
    ensures
        final(repos)@ == reordered(old(repos)@, flat_repos(state.ss())),
{
    let ordered = state.all_repos_flat();
    let mut taken: Vec<RepoStatus> = Vec::new();
    std::mem::swap(&mut taken, repos);
    let r = reorder_repos(taken, &ordered);
    *repos = r;
}

/// Remove `sections[k]` when `k` is given.
fn remove_section_opt(state: &mut crate::state::State, k: Option<usize>)
    ensures
        final(state).ss() == (match k {
            Some(i) => with_section_removed(old(state).ss(), i as int),
            None => old(state).ss(),
        }),
        final(state).same_flags(old(state)),
{
    match k {
        Some(i) => state.remove_section(i),
        None => {},
    }
}

/// Expand `sections[target]` when it is a named section, then move `path` there.
fn move_into_section(state: &mut crate::state::State, path: &str, target: usize)
    ensures
        ({
            let ss = old(state).ss();
            let expanded = if 0 < target < ss.len() {
                ss.update(target as int, SectionView { collapsed: false, ..ss[target as int] })
            } else {
                ss
            };
            final(state).ss() == with_repo_moved(expanded, path@, target as int)
        }),
        final(state).same_flags(old(state)),
{
    if target > 0 && target < state.sections.len() {
        state.set_section_collapsed(target, false);
    }
    state.move_repo_to_section(path, target);
}

impl App {
    /// Whether the section counts fit in a `usize` (they always do for a state that
    /// exists in memory).
    fn state_fits_exec(&self) -> (res: bool)
        ensures
            res == state_fits(self.state.ss()),
    {
        let ghost ss = self.state.ss();
        let n = self.state.sections.len();
        if n == 0 {
            return false;
        }
        let mut total: usize = n;
        let mut k: usize = 0;
        while k < n
            invariant
                ss == self.state.ss(),
                n == ss.len(),
                k <= n,
                total == n + repos_from(ss, 0) - repos_from(ss, k as nat),
                repos_from(ss, 0) >= repos_from(ss, k as nat),
            decreases n - k,
        {
            let len = self.state.sections[k].repos.len();
            assert(ss[k as int].repos.len() == len);
            if total > usize::MAX - len {
                return false;
            }
            total = total + len;
            k += 1;
        }
        true
    }

    /// Remove the selected repository from tracking: from the state, from the running
    /// operations and from `repos`; the selection is clamped to the remaining rows and
    /// the base mode restored.  Returns the removed path; no-op (returning `None`) on a
    /// section title row.
    pub fn remove_selected(&mut self) -> (res: Option<String>)
        requires
            old(self).inv(),
            ops_unique(old(self).operations@),
            old(self).spec_selected_repo_idx() matches Some(i) ==> i < old(self).repos@.len(),
        ensures
            old(self).spec_selected_repo_idx() is None ==> res is None && *final(self) == *old(self),
            old(self).spec_selected_repo_idx() matches Some(i) ==> {
                let path = old(self).repos@[i as int].path@;
                &&& res matches Some(p) && p@ == path
                &&& final(self).state.ss() == without_repo(old(self).state.ss(), path)
                &&& final(self).state.same_flags(&old(self).state)
                &&& final(self).repos@ == old(self).repos@.remove(i as int)
                &&& ops_unique(final(self).operations@)
                &&& op_lookup(final(self).operations@, path) is None
                &&& forall|k: Seq<char>| k != path ==> #[trigger] op_lookup(final(self).operations@, k)
                    == op_lookup(old(self).operations@, k)
                &&& final(self).selected == (if state_fits(final(self).state.ss()) {
                    clamp_row(old(self).selected, spec_visible_rows(final(self).state.ss()).len())
                } else {
                    old(self).selected
                })
                &&& final(self).mode == old(self).base_mode()
                &&& *final(self) == (App {
                    state: final(self).state,
                    repos: final(self).repos,
                    operations: final(self).operations,
                    selected: final(self).selected,
                    mode: final(self).mode,
                    ..*old(self)
                })
            },
    {
        let repo_idx = match self.selected_repo_idx() {
            Some(i) => i,
            None => return None,
        };
        let path = copy_string(&self.repos[repo_idx].path);
        self.state.remove_repo(path.as_str());
        self.end_operation(path.as_str());
        self.repos.remove(repo_idx);
        let sel = self.clamped_selection();
        self.selected = sel;
        self.restore_base_mode();
        Some(path)
    }

    /// The selection clamped to the rows of the current state (unchanged when the
    /// counts would not fit).
    fn clamped_selection(&self) -> (res: usize)
        requires
            history_rows_fit(self),
        ensures
            res == (if state_fits(self.state.ss()) {
                clamp_row(self.selected, spec_visible_rows(self.state.ss()).len())
            } else {
                self.selected
            }),
    {
        if !self.state_fits_exec() {
            return self.selected;
        }
        let n = self.visible_rows().len();
        if n == 0 {
            0
        } else if self.selected >= n {
            n - 1
        } else {
            self.selected
        }
    }

    /// Track the directory `path` (which the application examined: `check`) in the
    /// section of the selected row.  A path that is not a directory, not a git
    /// repository or a bare repository is refused with a message; otherwise the result
    /// is `Some(path)` when it was newly added and `None` when it was already tracked.
    pub fn add_repo_path(&mut self, path: &str, check: RepoCheck) -> (res: Result<Option<String>, String>)
        requires
            old(self).inv(),
        ensures
            check != RepoCheck::Repository ==> (res matches Err(e) && e@ == repo_check_error(check, path@)),
            check != RepoCheck::Repository ==> *final(self) == *old(self),
            check == RepoCheck::Repository ==> {
                let added = !tracks(old(self).state.ss(), path@);
                let k = old(self).spec_current_section_idx();
                let idx = if k < old(self).state.ss().len() - 1 { k as int } else { old(self).state.ss().len() - 1 };
                &&& (added ==> (res matches Ok(Some(p)) && p@ == path@))
                &&& (!added ==> res matches Ok(None))
                &&& (added ==> final(self).state.ss() == with_repo_added(old(self).state.ss(), idx, path@))
                &&& (!added ==> final(self).state.ss() == old(self).state.ss())
                &&& final(self).state.same_flags(&old(self).state)
                &&& *final(self) == (App { state: final(self).state, ..*old(self) })
            },
    {
        let mut msg = String::new();
        match check {
            RepoCheck::NotADirectory => {
                push_str(&mut msg, "Not a directory: ");
                push_str(&mut msg, path);
                return Err(msg);
            },
            RepoCheck::NotARepository => {
                push_str(&mut msg, "Not a git repository: ");
                push_str(&mut msg, path);
                return Err(msg);
            },
            RepoCheck::Bare => {
                push_str(&mut msg, "Bare repositories are not supported: ");
                push_str(&mut msg, path);
                return Err(msg);
            },
            RepoCheck::Repository => {},
        }
        let target = self.current_section_idx();
        let added = self.state.add_repo_to_section(path, target);
        if added {
            Ok(Some(string_from_chars(chars_of(path).as_slice())))
        } else {
            Ok(None)
        }
    }

    /// The row of section `k`'s title in the current rows, or the selection clamped to
    /// the rows when the title is not shown.
    fn selection_at_title(&self, k: usize) -> (res: usize)
        requires
            self.inv(),
        ensures
            res == (match row_of(self.state.ss(), VisibleRow::SectionTitle(k)) {
                Some(p) => p as usize,
                None => clamp_row(self.selected, spec_visible_rows(self.state.ss()).len()),
            }),
    {
        let rows = self.visible_rows();
        match find_row(&rows, VisibleRow::SectionTitle(k)) {
            Some(p) => p,
            None => {
                let n = rows.len();
                if n == 0 {
                    0
                } else if self.selected >= n {
                    n - 1
                } else {
                    self.selected
                }
            },
        }
    }

    /// Collapse the current named section and select its title row; no-op for the
    /// default section.
    pub fn collapse_current_section(&mut self)
        requires
            old(self).inv(),
        ensures
            old(self).spec_current_section_idx() == 0 ==> *final(self) == *old(self),
            old(self).spec_current_section_idx() != 0 ==> {
                let k = old(self).spec_current_section_idx();
                let ss2 = old(self).state.ss().update(k as int, SectionView { collapsed: true, ..old(self).state.ss()[k as int] });
                &&& k < old(self).state.ss().len()
                &&& final(self).state.ss() == ss2
                &&& final(self).state.same_flags(&old(self).state)
                &&& final(self).selected == (match row_of(ss2, VisibleRow::SectionTitle(k)) {
                    Some(p) => p as usize,
                    None => clamp_row(old(self).selected, spec_visible_rows(ss2).len()),
                })
                &&& *final(self) == (App { state: final(self).state, selected: final(self).selected, ..*old(self) })
            },
    {
        let k = self.current_section_idx();
        if k == 0 {
            return;
        }
        proof {
            lemma_current_section_in_range(self);
            lemma_repos_from_update_same_len(
                self.state.ss(),
                k as int,
                SectionView { collapsed: true, ..self.state.ss()[k as int] },
                0,
            );
        }
        self.state.set_section_collapsed(k, true);
        let sel = self.selection_at_title(k);
        self.selected = sel;
    }

    /// Expand the current named section; no-op for the default section.
    pub fn expand_current_section(&mut self)
        requires
            old(self).inv(),
        ensures
            old(self).spec_current_section_idx() == 0 ==> *final(self) == *old(self),
            old(self).spec_current_section_idx() != 0 ==> {
                let k = old(self).spec_current_section_idx();
                &&& k < old(self).state.ss().len()
                &&& final(self).state.ss() == old(self).state.ss().update(
                    k as int,
                    SectionView { collapsed: false, ..old(self).state.ss()[k as int] },
                )
                &&& final(self).state.same_flags(&old(self).state)
                &&& *final(self) == (App { state: final(self).state, ..*old(self) })
            },
    {
        let k = self.current_section_idx();
        if k == 0 {
            return;
        }
        proof { lemma_current_section_in_range(self); }
        self.state.set_section_collapsed(k, false);
    }

    /// Open the name input for a new section.
    pub fn open_create_section_input(&mut self)
        ensures
            final(self).section_input@.len() == 0,
            *final(self) == (App {
                section_input: final(self).section_input,
                section_input_is_create: true,
                section_input_target_idx: 0,
                mode: AppMode::SectionNameInput,
                ..*old(self)
            }),
    {
        self.section_input = String::new();
        self.section_input_is_create = true;
        self.section_input_target_idx = 0;
        self.mode = AppMode::SectionNameInput;
    }

    /// Open the name input for renaming the current named section, pre-filled with its
    /// name; no-op for the default section.
    pub fn open_rename_section_input(&mut self)
        requires
            old(self).inv(),
        ensures
            old(self).spec_current_section_idx() == 0 ==> *final(self) == *old(self),
            old(self).spec_current_section_idx() != 0 ==> {
                let k = old(self).spec_current_section_idx();
                &&& final(self).section_input@ == (match old(self).state.ss()[k as int].name {
                    Some(n) => n,
                    None => Seq::empty(),
                })
                &&& *final(self) == (App {
                    section_input: final(self).section_input,
                    section_input_is_create: false,
                    section_input_target_idx: k,
                    mode: AppMode::SectionNameInput,
                    ..*old(self)
                })
            },
    {
        let k = self.current_section_idx();
        if k == 0 {
            return;
        }
        proof { lemma_current_section_in_range(self); }
        let name = match &self.state.sections[k].name {
            Some(n) => copy_string(n),
            None => String::new(),
        };
        self.set_section_input(name, false, k);
    }

    fn set_section_input(&mut self, name: String, is_create: bool, k: usize)
        ensures
            *final(self) == (App {
                section_input: name,
                section_input_is_create: is_create,
                section_input_target_idx: k,
                mode: AppMode::SectionNameInput,
                ..*old(self)
            }),
    {
        self.section_input = name;
        self.section_input_is_create = is_create;
        self.section_input_target_idx = k;
        self.mode = AppMode::SectionNameInput;
    }

    /// Ask for confirmation before removing the current named section; no-op for the
    /// default section.
    pub fn open_confirm_remove_section(&mut self)
        requires
            old(self).inv(),
        ensures
            old(self).spec_current_section_idx() == 0 ==> *final(self) == *old(self),
            old(self).spec_current_section_idx() != 0 ==> *final(self) == (App {
                section_to_remove_idx: Some(old(self).spec_current_section_idx()),
                mode: AppMode::ConfirmRemoveSection,
                ..*old(self)
            }),
    {
        let k = self.current_section_idx();
        if k == 0 {
            return;
        }
        self.section_to_remove_idx = Some(k);
        self.mode = AppMode::ConfirmRemoveSection;
    }

    /// Replace the repositories by `repos` (read afresh), put them in the display order
    /// of the sections, and keep the selection on a row: past the last row it moves to
    /// the last one.
    #[verifier::spinoff_prover]
    #[verifier::rlimit(50)]
    pub fn set_repos(&mut self, repos: Vec<RepoStatus>)
        requires
            old(self).inv(),
        ensures
            final(self).repos@ == reordered(repos@, flat_repos(old(self).state.ss())),
            final(self).selected == (if old(self).selected >= old(self).rows().len() && old(self).rows().len() > 0 {
                (old(self).rows().len() - 1) as usize
            } else {
                old(self).selected
            }),
            *final(self) == (App { repos: final(self).repos, selected: final(self).selected, ..*old(self) }),
    {
        let n = self.visible_rows().len();
        let mut fresh = repos;
        reorder_in_place(&mut fresh, &self.state);
        let sel = if self.selected >= n && n > 0 { n - 1 } else { self.selected };
        self.repos = fresh;
        self.selected = sel;
    }

    /// Rearrange `repos` in the display order of the sections (dropping repositories
    /// that no section holds).
    pub fn reorder_repos_to_match_sections(&mut self)
        ensures
            final(self).repos@ == reordered(old(self).repos@, flat_repos(old(self).state.ss())),
            *final(self) == (App { repos: final(self).repos, ..*old(self) }),
    {
        reorder_in_place(&mut self.repos, &self.state);
    }

    /// The row to select for `t` in the current rows (`sel` when not shown or when the
    /// counts do not fit).
    fn row_selection(&self, t: VisibleRow, sel: usize) -> (res: usize)
        requires
            history_rows_fit(self),
        ensures
            res == select_row_of(self.state.ss(), t, sel),
    {
        if !self.state_fits_exec() {
            return sel;
        }
        let rows = self.visible_rows();
        match find_row(&rows, t) {
            Some(p) => p,
            None => sel,
        }
    }

    /// Confirm the section name input: the trimmed name creates a new section or renames
    /// the target section, whose title row is then selected; an empty name, a name
    /// another section already has (case-insensitively) or an invalid target changes
    /// nothing.  The base mode is restored in every case.
    #[verifier::rlimit(100)]
    pub fn confirm_section_name_input(&mut self)
        requires
            old(self).inv(),
        ensures
            ({
                let name = spec_trim(old(self).section_input@);
                let out = named_outcome(
                    old(self).state.ss(),
                    name,
                    old(self).section_input_is_create,
                    old(self).section_input_target_idx,
                );
                &&& name.len() == 0 ==> *final(self) == (App { mode: old(self).base_mode(), ..*old(self) })
                &&& name.len() > 0 ==> {
                    &&& final(self).state.ss() == out.0
                    &&& final(self).state.same_flags(&old(self).state)
                    &&& final(self).selected == (match out.1 {
                        Some(n) => select_row_of(out.0, VisibleRow::SectionTitle(n), old(self).selected),
                        None => old(self).selected,
                    })
                    &&& *final(self) == (App {
                        state: final(self).state,
                        selected: final(self).selected,
                        mode: old(self).base_mode(),
                        ..*old(self)
                    })
                }
            }),
    {
        let name = trimmed(self.section_input.as_str());
        if name.as_str().unicode_len() == 0 {
            self.restore_base_mode();
            return;
        }
        let is_create = self.section_input_is_create;
        let target = self.section_input_target_idx;
        let res = apply_section_name(&mut self.state, name, is_create, target);
        let sel = match res {
            Some(n) => self.row_selection(VisibleRow::SectionTitle(n), self.selected),
            None => self.selected,
        };
        let m = if self.show_history { AppMode::History } else { AppMode::Normal };
        self.set_selected_mode(sel, m);
    }

    /// Remove the section staged for removal (its repos join the default section),
    /// rearrange `repos` accordingly, select the first repo row (or row 0) and restore
    /// the base mode.
    #[verifier::rlimit(100)]
    pub fn confirm_remove_section(&mut self)
        requires
            old(self).inv(),
        ensures
            ({
                let ss2 = match old(self).section_to_remove_idx {
                    Some(k) => with_section_removed(old(self).state.ss(), k as int),
                    None => old(self).state.ss(),
                };
                &&& final(self).state.ss() == ss2
                &&& final(self).state.same_flags(&old(self).state)
                &&& final(self).repos@ == (match old(self).section_to_remove_idx {
                    Some(k) => reordered(old(self).repos@, flat_repos(ss2)),
                    None => old(self).repos@,
                })
                &&& final(self).selected == first_repo_selection(ss2, old(self).selected)
                &&& *final(self) == (App {
                    state: final(self).state,
                    repos: final(self).repos,
                    section_to_remove_idx: None,
                    selected: final(self).selected,
                    mode: old(self).base_mode(),
                    ..*old(self)
                })
            }),
    {
        self.remove_staged_section();
        let sel = self.first_repo_row_selection();
        let m = if self.show_history { AppMode::History } else { AppMode::Normal };
        self.set_selected_mode(sel, m);
    }

    #[verifier::spinoff_prover]
    #[verifier::rlimit(100)]
    fn remove_staged_section(&mut self)
        ensures
            ({
                let ss2 = match old(self).section_to_remove_idx {
                    Some(k) => with_section_removed(old(self).state.ss(), k as int),
                    None => old(self).state.ss(),
                };
                &&& final(self).state.ss() == ss2
                &&& final(self).state.same_flags(&old(self).state)
                &&& final(self).repos@ == (match old(self).section_to_remove_idx {
                    Some(k) => reordered(old(self).repos@, flat_repos(ss2)),
                    None => old(self).repos@,
                })
                &&& *final(self) == (App {
                    state: final(self).state,
                    repos: final(self).repos,
                    section_to_remove_idx: None,
                    ..*old(self)
                })
            }),
    {
        let k = self.section_to_remove_idx;
        remove_section_opt(&mut self.state, k);
        if k.is_some() {
            reorder_in_place(&mut self.repos, &self.state);
        }
        self.section_to_remove_idx = None;
    }

    fn set_selected_mode(&mut self, sel: usize, m: AppMode)
        ensures
            *final(self) == (App { selected: sel, mode: m, ..*old(self) }),
    {
        self.selected = sel;
        self.mode = m;
    }

    fn first_repo_row_selection(&self) -> (res: usize)
        requires
            history_rows_fit(self),
        ensures
            res == first_repo_selection(self.state.ss(), self.selected),
    {
        if !self.state_fits_exec() {
            return self.selected;
        }
        let rows = self.visible_rows();
        match find_repo_row(&rows) {
            Some(p) => p,
            None => 0,
        }
    }

    /// Open the popup of target sections for moving the selected repository: the
    /// default section (unless the repo is there) and every other named section.  No-op
    /// on a section title row, without named sections, or when there is no target.
    #[verifier::rlimit(100)]
    pub fn open_move_repo_section_select(&mut self)
        requires
            old(self).inv(),
            old(self).spec_selected_repo_idx() matches Some(i) ==> i < old(self).repos@.len(),
        ensures
            ({
                let ss = old(self).state.ss();
                match old(self).spec_selected_repo_idx() {
                    Some(i) => {
                        let current = match first_index(ss, crate::state::holds_path(old(self).repos@[i as int].path@)) {
                            Some(c) => c,
                            None => 0,
                        };
                        let items = move_targets(ss, current);
                        if ss.len() > 1 && items.len() > 0 {
                            &&& targets_view(final(self).section_select_items@) == items
                            &&& *final(self) == (App {
                                section_select_items: final(self).section_select_items,
                                section_select_selected: 0,
                                mode: AppMode::SectionSelect,
                                ..*old(self)
                            })
                        } else {
                            *final(self) == *old(self)
                        }
                    },
                    None => *final(self) == *old(self),
                }
            }),
    {
        let repo_idx = match self.selected_repo_idx() {
            Some(i) => i,
            None => return,
        };
        if !self.state.has_named_sections() {
            return;
        }
        let current = match self.state.section_idx_for_path(self.repos[repo_idx].path.as_str()) {
            Some(c) => c,
            None => 0,
        };
        proof {
            lemma_first_index(self.state.ss(), crate::state::holds_path(self.repos@[repo_idx as int].path@));
        }
        let items = self.move_target_items(current);
        if items.len() == 0 {
            return;
        }
        self.set_section_select(items);
    }

    fn set_section_select(&mut self, items: Vec<(usize, String)>)
        ensures
            *final(self) == (App {
                section_select_items: items,
                section_select_selected: 0,
                mode: AppMode::SectionSelect,
                ..*old(self)
            }),
    {
        self.section_select_items = items;
        self.section_select_selected = 0;
        self.mode = AppMode::SectionSelect;
    }

    fn move_target_items(&self, current: usize) -> (res: Vec<(usize, String)>)
        ensures
            targets_view(res@) == move_targets(self.state.ss(), current as nat),
    {
        let ghost ss = self.state.ss();
        let mut items: Vec<(usize, String)> = Vec::new();
        if current != 0 {
            let mut d = String::new();
            push_str(&mut d, "Default");
            items.push((0, d));
        }
        let ghost head = targets_view(items@);
        assert(head =~= (if current != 0 { seq![(0usize, "Default"@)] } else { Seq::empty() }));
        let n = self.state.sections.len();
        let mut i: usize = 1;
        while i < n
            invariant
                ss == self.state.ss(),
                n == ss.len(),
                1 <= i,
                i <= n || n == 0,
                head + targets_from(ss, current as nat, 1) == targets_view(items@) + targets_from(ss, current as nat, i as nat),
            decreases n - i,
        {
            if i != current {
                let name = match &self.state.sections[i].name {
                    Some(nm) => copy_string(nm),
                    None => String::new(),
                };
                let ghost e = (i, name@);
                assert(targets_view(items@.push((i, name))) =~= targets_view(items@).push(e));
                items.push((i, name));
                assert(targets_from(ss, current as nat, i as nat) =~= seq![e] + targets_from(ss, current as nat, (i + 1) as nat));
                assert(targets_view(items@).drop_last() + seq![e] + targets_from(ss, current as nat, (i + 1) as nat)
                    =~= targets_view(items@) + targets_from(ss, current as nat, (i + 1) as nat));
            } else {
                assert(targets_from(ss, current as nat, i as nat) =~= targets_from(ss, current as nat, (i + 1) as nat));
            }
            i += 1;
        }
        assert(targets_from(ss, current as nat, i as nat) =~= Seq::<(usize, Seq<char>)>::empty());
        assert(targets_view(items@) =~= head + targets_from(ss, current as nat, 1));
        items
    }

    /// `new` is `old` after moving repository `path` into section `target`: the target
    /// expanded, the repo moved (re-sorted), `repos` rearranged, the repo's new row
    /// selected (when shown) and the base mode restored.
    #[verifier::opaque]
    pub open spec fn moved_to(old: &App, new: &App, path: Seq<char>, target: usize) -> bool {
        let ss = old.state.ss();
        let expanded = if 0 < target < ss.len() {
            ss.update(target as int, SectionView { collapsed: false, ..ss[target as int] })
        } else {
            ss
        };
        let ss2 = with_repo_moved(expanded, path, target as int);
        let repos2 = reordered(old.repos@, flat_repos(ss2));
        &&& new.state.ss() == ss2
        &&& new.state.same_flags(&old.state)
        &&& new.repos@ == repos2
        &&& new.selected == (if state_fits(ss2) {
            match first_index(spec_visible_rows(ss2), is_repo_with_path(repos2, path)) {
                Some(p) => p as usize,
                None => old.selected,
            }
        } else {
            old.selected
        })
        &&& *new == (App {
            state: new.state,
            repos: new.repos,
            selected: new.selected,
            mode: old.base_mode(),
            ..*old
        })
    }

    /// The path of the selected repository and the highlighted target section, when a
    /// repo row is selected and a target highlighted.
    pub open spec fn move_target(&self) -> Option<(Seq<char>, usize)> {
        match self.spec_selected_repo_idx() {
            Some(i) => if self.section_select_selected < self.section_select_items@.len() {
                Some((self.repos@[i as int].path@, self.section_select_items@[self.section_select_selected as int].0))
            } else {
                None
            },
            None => None,
        }
    }

    /// Move the selected repository to the section highlighted in the target popup (see
    /// `moved_to`).  On a section title row or without a highlighted target only the
    /// base mode is restored.
    #[verifier::spinoff_prover]
    #[verifier::rlimit(100)]
    pub fn execute_move_repo(&mut self)
        requires
            old(self).inv(),
            old(self).spec_selected_repo_idx() matches Some(i) ==> i < old(self).repos@.len(),
        ensures
            old(self).move_target() matches Some((p, t)) ==> Self::moved_to(old(self), final(self), p, t),
            old(self).move_target() is None ==> *final(self) == (App { mode: old(self).base_mode(), ..*old(self) }),
    {
        let request = self.move_request();
        match request {
            Some((path, target)) => self.move_and_select(path.as_str(), target),
            None => self.restore_base_mode(),
        }
    }

    /// The path of the selected repository and the highlighted target section.
    fn move_request(&self) -> (res: Option<(String, usize)>)
        requires
            self.inv(),
            self.spec_selected_repo_idx() matches Some(i) ==> i < self.repos@.len(),
        ensures
            self.move_target() is None <==> res is None,
            res matches Some((p, t)) ==> self.move_target() == Some((p@, t)),
    {
        let repo_idx = match self.selected_repo_idx() {
            Some(i) => i,
            None => return None,
        };
        if self.section_select_selected >= self.section_select_items.len() {
            return None;
        }
        let path = copy_string(&self.repos[repo_idx].path);
        let target = self.section_select_items[self.section_select_selected].0;
        Some((path, target))
    }

    fn move_and_select(&mut self, path: &str, target: usize)
        requires
            history_rows_fit(old(self)),
        ensures
            Self::moved_to(old(self), final(self), path@, target),
    {
        proof { reveal(App::moved_to); }
        self.move_repo_into(path, target);
        let sel = self.moved_repo_selection(path);
        let m = if self.show_history { AppMode::History } else { AppMode::Normal };
        self.set_selected_mode(sel, m);
    }

    fn move_repo_into(&mut self, path: &str, target: usize)
        ensures
            ({
                let ss = old(self).state.ss();
                let expanded = if 0 < target < ss.len() {
                    ss.update(target as int, SectionView { collapsed: false, ..ss[target as int] })
                } else {
                    ss
                };
                let ss2 = with_repo_moved(expanded, path@, target as int);
                &&& final(self).state.ss() == ss2
                &&& final(self).state.same_flags(&old(self).state)
                &&& final(self).repos@ == reordered(old(self).repos@, flat_repos(ss2))
                &&& *final(self) == (App { state: final(self).state, repos: final(self).repos, ..*old(self) })
            }),
    {
        move_into_section(&mut self.state, path, target);
        reorder_in_place(&mut self.repos, &self.state);
    }

    fn moved_repo_selection(&self, path: &str) -> (res: usize)
        requires
            history_rows_fit(self),
        ensures
            res == (if state_fits(self.state.ss()) {
                match first_index(spec_visible_rows(self.state.ss()), is_repo_with_path(self.repos@, path@)) {
                    Some(p) => p as usize,
                    None => self.selected,
                }
            } else {
                self.selected
            }),
    {
        if !self.state_fits_exec() {
            return self.selected;
        }
        let rows = self.visible_rows();
        let ghost s = rows@;
        let ghost pred = is_repo_with_path(self.repos@, path@);
        let mut i: usize = 0;
        assert(s.skip(0) =~= s);
        while i < rows.len()
            invariant
                s == rows@,
                s == spec_visible_rows(self.state.ss()),
                state_fits(self.state.ss()),
                pred == is_repo_with_path(self.repos@, path@),
                i <= s.len(),
                first_index(s, pred) == (match first_index(s.skip(i as int), pred) {
                    Some(j) => Some((j + i) as nat),
                    None => None::<nat>,
                }),
            decreases s.len() - i,
        {
            assert(s.skip(i as int)[0] == s[i as int]);
            let hit = match rows[i] {
                VisibleRow::Repo(ri) => ri < self.repos.len() && str_eq(self.repos[ri].path.as_str(), path),
                VisibleRow::SectionTitle(_) => false,
            };
            if hit {
                assert(pred(s.skip(i as int)[0]));
                return i;
            }
            proof { lemma_first_index_skip(s, pred, i as int); }
            i += 1;
        }
        assert(s.skip(i as int).len() == 0);
        self.selected
    }
}

/// The history row count fits (the part of `inv` that state changes keep).
pub open spec fn history_rows_fit(app: &App) -> bool {
    crate::app::history_rows(app.history@) <= usize::MAX
}

} // verus!
