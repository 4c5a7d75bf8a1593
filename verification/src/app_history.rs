//! The History, Branches and Details panes: what to load when they open or follow the
//! selection, and how loaded data is shown.  Reading commits, branches and diffs from
//! the repository is the application's part: these methods say what to read and take
//! what was read.
use vstd::prelude::*;
use crate::app::{App, AppMode, DetailsMode, DetailsSource, Focus, history_row};
use crate::app_focus::DetailsLoad;
use crate::git::{AheadBehind, BranchInfo, CommitEntry, FileStatusKind, FilterView, HistoryFilter};
use crate::order::{first_index, lemma_first_index_skip};
use crate::text::{chars_of, str_eq, string_from_chars};

verus! {

/// The commits to read for the History pane: the repository at `path`, under the first
/// of `candidates` that yields commits (the last candidate is taken even when empty).
pub struct HistoryLoad {
    pub path: String,
    pub candidates: Vec<HistoryFilter>,
}

/// The steps of `reload_history_if_open`.
enum ReloadPlan {
    Nothing,
    Clear,
    FromBranches,
    Load(HistoryLoad),
}

pub open spec fn filters_view(v: Seq<HistoryFilter>) -> Seq<FilterView> {
    v.map_values(|f: HistoryFilter| f@)
}

/// The filters tried, in order, when the History pane follows the selection to a
/// repository with trunk `trunk` and upstream `up`: an ahead/behind filter is tried
/// as stored, then against the trunk and against the upstream (each reference once),
/// then the full log; other filters are kept as they are.
pub open spec fn history_candidates(f: FilterView, trunk: Option<Seq<char>>, up: Option<Seq<char>>) -> Seq<FilterView> {
    match f {
        FilterView::AheadOf(r) => alt_candidates(f, true, r, trunk, up),
        FilterView::BehindOf(r) => alt_candidates(f, false, r, trunk, up),
        _ => seq![f],
    }
}

pub open spec fn ahead_or_behind(ahead: bool, r: Seq<char>) -> FilterView {
    if ahead { FilterView::AheadOf(r) } else { FilterView::BehindOf(r) }
}

pub open spec fn alt_candidates(
    f: FilterView,
    ahead: bool,
    stored: Seq<char>,
    trunk: Option<Seq<char>>,
    up: Option<Seq<char>>,
) -> Seq<FilterView> {
    let trunk_new = trunk matches Some(t) && t != stored;
    let with_trunk = seq![f] + (if trunk_new { seq![ahead_or_behind(ahead, trunk.unwrap())] } else { Seq::empty() });
    let up_new = up matches Some(u) && u != stored && !(trunk_new && u == trunk.unwrap());
    (with_trunk + (if up_new { seq![ahead_or_behind(ahead, up.unwrap())] } else { Seq::empty() })).push(FilterView::Full)
}

pub open spec fn branch_name(ab: Option<AheadBehind>) -> Option<Seq<char>> {
    match ab {
        Some(a) => Some(a.branch@),
        None => None,
    }
}

/// The predicate "this is the checked-out branch".
pub open spec fn is_current_branch() -> spec_fn(BranchInfo) -> bool {
    |b: BranchInfo| b.is_current
}

/// The index of the first current branch, 0 when there is none.
pub open spec fn current_branch_pos(bs: Seq<BranchInfo>) -> usize {
    match first_index(bs, is_current_branch()) {
        Some(i) => i as usize,
        None => 0,
    }
}

fn copy_str(s: &str) -> (res: String)
    ensures
        res@ == s@,
{
    string_from_chars(chars_of(s).as_slice())
}

fn ahead_or_behind_exec(ahead: bool, r: &str) -> (res: HistoryFilter)
    ensures
        res@ == ahead_or_behind(ahead, r@),
{
    if ahead { HistoryFilter::AheadOf(copy_str(r)) } else { HistoryFilter::BehindOf(copy_str(r)) }
}

fn copy_filter(f: &HistoryFilter) -> (res: HistoryFilter)
    ensures
        res@ == f@,
{
    match f {
        HistoryFilter::Full => HistoryFilter::Full,
        HistoryFilter::AheadOf(r) => HistoryFilter::AheadOf(copy_str(r.as_str())),
        HistoryFilter::BehindOf(r) => HistoryFilter::BehindOf(copy_str(r.as_str())),
        HistoryFilter::BranchFull(b) => HistoryFilter::BranchFull(copy_str(b.as_str())),
        HistoryFilter::BranchAheadOf { branch, of } => HistoryFilter::BranchAheadOf {
            branch: copy_str(branch.as_str()),
            of: copy_str(of.as_str()),
        },
        HistoryFilter::BranchBehindOf { branch, of } => HistoryFilter::BranchBehindOf {
            branch: copy_str(branch.as_str()),
            of: copy_str(of.as_str()),
        },
    }
}

/// The candidate filters (see `history_candidates`).
pub fn candidate_filters(f: &HistoryFilter, trunk: &Option<AheadBehind>, up: &Option<AheadBehind>) -> (res: Vec<HistoryFilter>)
    ensures
        filters_view(res@) == history_candidates(f@, branch_name(*trunk), branch_name(*up)),
{
    let (ahead, stored) = match f {
        HistoryFilter::AheadOf(r) => (true, r.as_str()),
        HistoryFilter::BehindOf(r) => (false, r.as_str()),
        _ => {
            let v = vec![copy_filter(f)];
            assert(filters_view(v@) =~= seq![f@]);
            return v;
        },
    };
    let mut out: Vec<HistoryFilter> = Vec::new();
    out.push(copy_filter(f));
    let trunk_new = match trunk {
        Some(t) => !str_eq(t.branch.as_str(), stored),
        None => false,
    };
    if trunk_new {
        match trunk {
            Some(t) => out.push(ahead_or_behind_exec(ahead, t.branch.as_str())),
            None => {},
        }
    }
    let up_new = match up {
        Some(u) => !str_eq(u.branch.as_str(), stored) && !(trunk_new && match trunk {
            Some(t) => str_eq(u.branch.as_str(), t.branch.as_str()),
            None => false,
        }),
        None => false,
    };
    if up_new {
        match up {
            Some(u) => out.push(ahead_or_behind_exec(ahead, u.branch.as_str())),
            None => {},
        }
    }
    out.push(HistoryFilter::Full);
    assert(filters_view(out@) =~= history_candidates(f@, branch_name(*trunk), branch_name(*up)));
    out
}

/// Whether the commits read under `filter` are the ones to show: any commits at all,
/// or the full log even when empty.
pub fn accept_history(filter: &HistoryFilter, commits: &Vec<CommitEntry>) -> (res: bool)
    ensures
        res == (commits@.len() > 0 || filter@ is Full),
{
    commits.len() > 0 || matches!(filter, HistoryFilter::Full)
}

fn current_branch_index(bs: &Vec<BranchInfo>) -> (res: usize)
    ensures
        res == current_branch_pos(bs@),
{
    let ghost s = bs@;
    let mut i: usize = 0;
    assert(s.skip(0) =~= s);
    while i < bs.len()
        invariant
            s == bs@,
            i <= s.len(),
            first_index(s, is_current_branch()) == (match first_index(s.skip(i as int), is_current_branch()) {
                Some(j) => Some((j + i) as nat),
                None => None::<nat>,
            }),
        decreases s.len() - i,
    {
        assert(s.skip(i as int)[0] == s[i as int]);
        if bs[i].is_current {
            assert((is_current_branch())(s.skip(i as int)[0]));
            return i;
        }
        proof { lemma_first_index_skip(s, is_current_branch(), i as int); }
        i += 1;
    }
    assert(s.skip(i as int).len() == 0);
    0
}

impl App {
    /// The path of the selected repository when a repo row is selected and it was read
    /// without error: the repository the History and Branches panes are opened for.
    pub open spec fn spec_history_source(&self) -> Option<Seq<char>> {
        match self.spec_selected_repo_idx() {
            Some(i) => if i < self.repos@.len() && self.repos@[i as int].error is None {
                Some(self.repos@[i as int].path@)
            } else {
                None
            },
            None => None,
        }
    }

    /// The repository the History and Branches panes are opened for (see
    /// `spec_history_source`).
    pub fn history_source(&self) -> (res: Option<String>)
        requires
            self.inv(),
        ensures
            res matches Some(p) ==> self.spec_history_source() == Some(p@),
            res is None ==> self.spec_history_source() is None,
    {
        match self.selected_repo_idx() {
            Some(i) => if i < self.repos.len() && self.repos[i].error.is_none() {
                Some(copy_str(self.repos[i].path.as_str()))
            } else {
                None
            },
            None => None,
        }
    }

    /// Show `commits`, read from `path` under `filter`, in the History pane, with the
    /// selection and scroll at the top.
    pub fn load_history(&mut self, path: String, filter: HistoryFilter, commits: Vec<CommitEntry>)
        ensures
            *final(self) == (App {
                history: commits,
                history_repo_path: path,
                history_filter: filter,
                history_selected: 0,
                history_scroll: 0,
                ..*old(self)
            }),
    {
        self.history = commits;
        self.history_repo_path = path;
        self.history_filter = filter;
        self.history_selected = 0;
        self.history_scroll = 0;
    }

    fn show_history_pane(&mut self, branches_active: bool)
        ensures
            *final(self) == (App {
                show_history: true,
                focus: Focus::History,
                branches_history_active: branches_active,
                mode: AppMode::History,
                state: crate::state::State { show_history: true, ..old(self).state },
                ..*old(self)
            }),
    {
        self.show_history = true;
        self.focus = Focus::History;
        self.branches_history_active = branches_active;
        self.state.show_history = true;
        self.mode = AppMode::History;
    }

    /// Open the History pane with `commits`, which the application read from the
    /// repository of `history_source()` under `filter`: the history is shown from the
    /// top, the pane focused, its visibility copied into the persisted state and the
    /// History mode entered.  No-op when there is no such repository.
    pub fn open_history(&mut self, filter: HistoryFilter, commits: Vec<CommitEntry>)
        requires
            old(self).inv(),
        ensures
            old(self).spec_history_source() is None ==> *final(self) == *old(self),
            old(self).spec_history_source() matches Some(p) ==> {
                &&& final(self).history_repo_path@ == p
                &&& *final(self) == (App {
                    history: commits,
                    history_repo_path: final(self).history_repo_path,
                    history_filter: filter,
                    history_selected: 0,
                    history_scroll: 0,
                    show_history: true,
                    focus: Focus::History,
                    mode: AppMode::History,
                    state: crate::state::State { show_history: true, ..old(self).state },
                    ..*old(self)
                })
            },
    {
        let path = match self.history_source() {
            Some(p) => p,
            None => return,
        };
        self.load_history(path, filter, commits);
        let active = self.branches_history_active;
        self.show_history_pane(active);
    }

    /// Open the History pane for a branch (from the branch menu) with `commits` read
    /// under `filter`; as `open_history`, and the history now follows the Branches pane.
    pub fn open_history_for_branch(&mut self, filter: HistoryFilter, commits: Vec<CommitEntry>)
        requires
            old(self).inv(),
        ensures
            old(self).spec_history_source() is None ==> *final(self) == *old(self),
            old(self).spec_history_source() matches Some(p) ==> {
                &&& final(self).history_repo_path@ == p
                &&& *final(self) == (App {
                    history: commits,
                    history_repo_path: final(self).history_repo_path,
                    history_filter: filter,
                    history_selected: 0,
                    history_scroll: 0,
                    show_history: true,
                    focus: Focus::History,
                    branches_history_active: true,
                    mode: AppMode::History,
                    state: crate::state::State { show_history: true, ..old(self).state },
                    ..*old(self)
                })
            },
    {
        let path = match self.history_source() {
            Some(p) => p,
            None => return,
        };
        self.load_history(path, filter, commits);
        self.show_history_pane(true);
    }

    /// Close the History pane: the focus leaves it for Repositories, the visibility is
    /// copied into the persisted state and Normal mode restored.
    pub fn close_history(&mut self)
        ensures
            final(self).focus == (if old(self).focus == Focus::History { Focus::Repos } else { old(self).focus }),
            *final(self) == (App {
                show_history: false,
                focus: final(self).focus,
                mode: AppMode::Normal,
                state: crate::state::State { show_history: false, ..old(self).state },
                ..*old(self)
            }),
    {
        let f = if self.focus == Focus::History { Focus::Repos } else { self.focus };
        self.hide_history_pane(f);
    }

    #[verifier::spinoff_prover]
    #[verifier::rlimit(100)]
    fn hide_history_pane(&mut self, f: Focus)
        ensures
            *final(self) == (App {
                show_history: false,
                focus: f,
                mode: AppMode::Normal,
                state: crate::state::State { show_history: false, ..old(self).state },
                ..*old(self)
            }),
    {
        self.show_history = false;
        self.focus = f;
        self.state.show_history = false;
        self.mode = AppMode::Normal;
    }

    /// What `reload_history_if_open` asks the application to read.
    pub open spec fn spec_history_reload(&self, force: bool) -> Option<(Seq<char>, Seq<FilterView>)> {
        match self.spec_selected_repo_idx() {
            Some(i) => if self.show_history && i < self.repos@.len() && self.repos@[i as int].error is None {
                let p = self.repos@[i as int].path@;
                if (!force && p == self.history_repo_path@) || (force && p != self.history_repo_path@) {
                    None
                } else if self.show_branches && self.branches_history_active {
                    self.spec_branch_history_load()
                } else {
                    Some((p, history_candidates(
                        self.history_filter@,
                        branch_name(self.repos@[i as int].trunk),
                        branch_name(self.repos@[i as int].upstream),
                    )))
                }
            } else {
                None
            },
            None => None,
        }
    }

    /// Follow the selection with the History pane (when it is open).  On a section
    /// title row the stale history is cleared.  Otherwise, for a repository read
    /// without error, the history is reloaded when it shows another repository
    /// (`force == false`) or when it shows this one (`force == true`): from the
    /// selected branch while the history follows the Branches pane, else with the
    /// current filter adapted to the repository (see `history_candidates`).  Returns
    /// what the application must read, then pass to `load_history`.
    #[verifier::spinoff_prover]
    #[verifier::rlimit(100)]
    pub fn reload_history_if_open(&mut self, force: bool) -> (res: Option<HistoryLoad>)
        requires
            old(self).inv(),
        ensures
            match res {
                Some(l) => old(self).spec_history_reload(force) == Some((l.path@, filters_view(l.candidates@))),
                None => old(self).spec_history_reload(force) is None,
            },
            (old(self).show_history && old(self).selected_row() matches Some(crate::app::VisibleRow::SectionTitle(_))) ==> {
                &&& final(self).history@.len() == 0
                &&& final(self).history_repo_path@.len() == 0
                &&& *final(self) == (App {
                    history: final(self).history,
                    history_repo_path: final(self).history_repo_path,
                    history_selected: 0,
                    history_scroll: 0,
                    ..*old(self)
                })
            },
            !(old(self).show_history && old(self).selected_row() matches Some(crate::app::VisibleRow::SectionTitle(_)))
                ==> *final(self) == (App {
                branches_history_active: final(self).branches_history_active,
                ..*old(self)
            }),
            final(self).branches_history_active == (old(self).branches_history_active || (res is Some
                && old(self).show_branches && old(self).branches_history_active)),
    {
        let plan = self.reload_plan(force);
        match plan {
            ReloadPlan::Clear => {
                self.clear_history();
                None
            },
            ReloadPlan::FromBranches => self.reload_history_from_branches(),
            ReloadPlan::Load(l) => Some(l),
            ReloadPlan::Nothing => None,
        }
    }

    /// What `reload_history_if_open` does, decided on the current state.
    fn reload_plan(&self, force: bool) -> (res: ReloadPlan)
        requires
            self.inv(),
        ensures
            (res is Clear) <==> (self.show_history && self.selected_row() matches Some(crate::app::VisibleRow::SectionTitle(_))),
            res is FromBranches ==> self.spec_history_reload(force) == self.spec_branch_history_load(),
            res is FromBranches ==> self.show_branches && self.branches_history_active,
            res matches ReloadPlan::Load(l) ==> self.spec_history_reload(force) == Some((l.path@, filters_view(l.candidates@))),
            (res is Nothing || res is Clear) ==> self.spec_history_reload(force) is None,
    {
        if !self.show_history {
            return ReloadPlan::Nothing;
        }
        let rows = self.visible_rows();
        if self.selected >= rows.len() {
            return ReloadPlan::Nothing;
        }
        let repo_idx = match rows[self.selected] {
            crate::app::VisibleRow::Repo(i) => i,
            crate::app::VisibleRow::SectionTitle(_) => return ReloadPlan::Clear,
        };
        if repo_idx >= self.repos.len() || self.repos[repo_idx].error.is_some() {
            return ReloadPlan::Nothing;
        }
        let same = str_eq(self.repos[repo_idx].path.as_str(), self.history_repo_path.as_str());
        if (!force && same) || (force && !same) {
            return ReloadPlan::Nothing;
        }
        if self.show_branches && self.branches_history_active {
            return ReloadPlan::FromBranches;
        }
        let r = &self.repos[repo_idx];
        let candidates = candidate_filters(&self.history_filter, &r.trunk, &r.upstream);
        ReloadPlan::Load(HistoryLoad { path: copy_str(r.path.as_str()), candidates })
    }

    fn clear_history(&mut self)
        ensures
            final(self).history@.len() == 0,
            final(self).history_repo_path@.len() == 0,
            *final(self) == (App {
                history: final(self).history,
                history_repo_path: final(self).history_repo_path,
                history_selected: 0,
                history_scroll: 0,
                ..*old(self)
            }),
    {
        self.history = Vec::new();
        self.history_repo_path = String::new();
        self.history_selected = 0;
        self.history_scroll = 0;
    }

    /// What `reload_history_from_branches` asks the application to read: the full log
    /// of the branch selected in the Branches pane, for `repos[selected]` (the row
    /// index taken as a repository index).
    pub open spec fn spec_branch_history_load(&self) -> Option<(Seq<char>, Seq<FilterView>)> {
        if self.show_history && self.show_branches && self.branches_pane_selected < self.branch_info_list@.len()
            && self.selected < self.repos@.len() && self.repos@[self.selected as int].error is None {
            Some((
                self.repos@[self.selected as int].path@,
                seq![FilterView::BranchFull(self.branch_info_list@[self.branches_pane_selected as int].name@)],
            ))
        } else {
            None
        }
    }

    /// Make the History pane show the branch selected in the Branches pane (both panes
    /// open): returns what to read, and the history follows the Branches pane from now
    /// on.  No-op otherwise.
    #[verifier::spinoff_prover]
    #[verifier::rlimit(100)]
    pub fn reload_history_from_branches(&mut self) -> (res: Option<HistoryLoad>)
        ensures
            match res {
                Some(l) => old(self).spec_branch_history_load() == Some((l.path@, filters_view(l.candidates@))),
                None => old(self).spec_branch_history_load() is None,
            },
            *final(self) == (App {
                branches_history_active: old(self).branches_history_active || res is Some,
                ..*old(self)
            }),
    {
        if !self.show_history || !self.show_branches || self.branches_pane_selected >= self.branch_info_list.len() {
            return None;
        }
        if self.selected >= self.repos.len() || self.repos[self.selected].error.is_some() {
            return None;
        }
        let name = copy_str(self.branch_info_list[self.branches_pane_selected].name.as_str());
        let path = copy_str(self.repos[self.selected].path.as_str());
        let candidates = vec![HistoryFilter::BranchFull(name)];
        assert(filters_view(candidates@) =~= seq![FilterView::BranchFull(self.branch_info_list@[self.branches_pane_selected as int].name@)]);
        self.branches_history_active = true;
        Some(HistoryLoad { path, candidates })
    }

    /// Open the Branches pane with `branches`, which the application read from the
    /// repository of `history_source()`: the current branch is selected, the pane shown
    /// in place of Repositories and focused, and the base mode restored.  When the
    /// History pane is open it then follows the selected branch: the result is what to
    /// read for it.  No-op (returning `None`) when there is no such repository.
    #[verifier::spinoff_prover]
    #[verifier::rlimit(100)]
    pub fn open_branches_pane(&mut self, branches: Vec<BranchInfo>) -> (res: Option<HistoryLoad>)
        requires
            old(self).inv(),
        ensures
            old(self).spec_history_source() is None ==> res is None && *final(self) == *old(self),
            old(self).spec_history_source() is Some ==> {
                let mid = App {
                    branch_info_list: branches,
                    branches_pane_selected: current_branch_pos(branches@),
                    branches_pane_scroll: 0,
                    show_branches: true,
                    focus: Focus::Branches,
                    ..*old(self)
                };
                &&& match res {
                    Some(l) => mid.spec_branch_history_load() == Some((l.path@, filters_view(l.candidates@))),
                    None => mid.spec_branch_history_load() is None,
                }
                &&& *final(self) == (App {
                    branches_history_active: old(self).branches_history_active || res is Some,
                    mode: old(self).base_mode(),
                    ..mid
                })
            },
    {
        if self.history_source().is_none() {
            return None;
        }
        let pos = current_branch_index(&branches);
        self.set_branch_pane(branches, pos);
        let load = self.reload_history_from_branches();
        self.restore_base_mode();
        load
    }

    fn set_branch_pane(&mut self, branches: Vec<BranchInfo>, pos: usize)
        ensures
            *final(self) == (App {
                branch_info_list: branches,
                branches_pane_selected: pos,
                branches_pane_scroll: 0,
                show_branches: true,
                focus: Focus::Branches,
                ..*old(self)
            }),
    {
        self.branch_info_list = branches;
        self.branches_pane_selected = pos;
        self.branches_pane_scroll = 0;
        self.show_branches = true;
        self.focus = Focus::Branches;
    }

    /// Close the Branches pane: Repositories returns (taking the focus from Branches);
    /// a History pane that followed the Branches pane goes back to the full log of the
    /// selected repository (the result says what to read) and stops following it.  The
    /// base mode is restored.
    #[verifier::spinoff_prover]
    #[verifier::rlimit(100)]
    pub fn close_branches_pane(&mut self) -> (res: Option<HistoryLoad>)
        requires
            old(self).inv(),
        ensures
            (old(self).show_history && old(self).branches_history_active) ==> match old(self).spec_history_source() {
                Some(p) => res matches Some(l) && l.path@ == p && filters_view(l.candidates@) == seq![FilterView::Full],
                None => res is None,
            },
            !(old(self).show_history && old(self).branches_history_active) ==> res is None,
            *final(self) == (App {
                show_branches: false,
                focus: if old(self).focus == Focus::Branches { Focus::Repos } else { old(self).focus },
                branches_history_active: if old(self).show_history { false } else { old(self).branches_history_active },
                mode: old(self).base_mode(),
                ..*old(self)
            }),
    {
        let load = if self.show_history && self.branches_history_active {
            match self.history_source() {
                Some(p) => {
                    let candidates = vec![HistoryFilter::Full];
                    assert(filters_view(candidates@) =~= seq![FilterView::Full]);
                    Some(HistoryLoad { path: p, candidates })
                },
                None => None,
            }
        } else {
            None
        };
        let f = if self.focus == Focus::Branches { Focus::Repos } else { self.focus };
        let active = if self.show_history { false } else { self.branches_history_active };
        let m = if self.show_history { AppMode::History } else { AppMode::Normal };
        self.set_branches_closed(f, active, m);
        load
    }

    fn set_branches_closed(&mut self, f: Focus, active: bool, m: AppMode)
        ensures
            *final(self) == (App { show_branches: false, focus: f, branches_history_active: active, mode: m, ..*old(self) }),
    {
        self.show_branches = false;
        self.focus = f;
        self.branches_history_active = active;
        self.mode = m;
    }

    /// Whether re-reading the branches of `repo_path` matters to the Branches pane: it
    /// is open and shows that repository.
    pub open spec fn spec_wants_branch_refresh(&self, repo_path: Seq<char>) -> bool {
        &&& self.show_branches
        &&& self.spec_selected_repo_idx() matches Some(i)
        &&& i < self.repos@.len()
        &&& self.repos@[i as int].path@ == repo_path
    }

    /// See `spec_wants_branch_refresh`.
    pub fn wants_branch_refresh(&self, repo_path: &str) -> (res: bool)
        requires
            self.inv(),
        ensures
            res == self.spec_wants_branch_refresh(repo_path@),
    {
        if !self.show_branches {
            return false;
        }
        match self.selected_repo_idx() {
            Some(i) => i < self.repos.len() && str_eq(self.repos[i].path.as_str(), repo_path),
            None => false,
        }
    }

    /// Show `branches`, re-read from `repo_path`, in the Branches pane when it shows that
    /// repository, clamping the selection to the new list; no-op otherwise.
    pub fn refresh_branches_for_repo(&mut self, repo_path: &str, branches: Vec<BranchInfo>)
        requires
            old(self).inv(),
        ensures
            !old(self).spec_wants_branch_refresh(repo_path@) ==> *final(self) == *old(self),
            old(self).spec_wants_branch_refresh(repo_path@) ==> *final(self) == (App {
                branch_info_list: branches,
                branches_pane_selected: if branches@.len() > 0 && old(self).branches_pane_selected >= branches@.len() {
                    (branches@.len() - 1) as usize
                } else {
                    old(self).branches_pane_selected
                },
                ..*old(self)
            }),
    {
        if !self.wants_branch_refresh(repo_path) {
            return;
        }
        let n = branches.len();
        let sel = if n > 0 && self.branches_pane_selected >= n { n - 1 } else { self.branches_pane_selected };
        self.branch_info_list = branches;
        self.branches_pane_selected = sel;
    }

    /// `load` names the working-tree diff of the file selected in the File Status pane
    /// (of a repository read without error), or is `None` when there is no such file.
    pub open spec fn is_file_status_load(&self, load: Option<DetailsLoad>) -> bool {
            match load {
                Some(DetailsLoad::FileStatus { repo_path, file_path, untracked }) => {
                    &&& self.spec_history_source() == Some(repo_path@)
                    &&& self.file_status_selected < self.spec_selected_files().len()
                    &&& file_path@ == self.spec_selected_files()[self.file_status_selected as int].path@
                    &&& untracked == (self.spec_selected_files()[self.file_status_selected as int].status
                        == FileStatusKind::Untracked)
                },
                Some(DetailsLoad::HistoryFile { .. }) => false,
                None => self.spec_history_source() is None || self.file_status_selected >= self.spec_selected_files().len(),
            }
    }

    /// The diff to read for the file selected in the File Status pane.
    fn file_status_load(&self) -> (res: Option<DetailsLoad>)
        requires
            self.inv(),
        ensures
            self.is_file_status_load(res),
    {
        let path = match self.history_source() {
            Some(p) => p,
            None => return None,
        };
        match self.selected_file_entry() {
            Some(f) => Some(DetailsLoad::FileStatus {
                repo_path: path,
                file_path: copy_str(f.path.as_str()),
                untracked: f.status == FileStatusKind::Untracked,
            }),
            None => None,
        }
    }

    /// The diff to read for the file row selected in the History pane.
    fn history_file_load(&self) -> (res: Option<DetailsLoad>)
        requires
            self.inv(),
        ensures
            match history_row(self.history@, self.history_selected as int) {
                Some((ci, Some(fi))) => res matches Some(DetailsLoad::HistoryFile { repo_path, short_hash, file_path })
                    && repo_path@ == self.history_repo_path@ && short_hash@ == self.history@[ci as int].short_hash@
                    && file_path@ == self.history@[ci as int].files@[fi as int].path@,
                _ => res is None,
            },
    {
        let hl = self.history.len();
        proof { crate::app::lemma_history_row_bounds(self.history@, self.history_selected as int); }
        match self.history_row_at(self.history_selected) {
            Some((ci, Some(fi))) => {
                let c = &self.history[ci];
                Some(DetailsLoad::HistoryFile {
                    repo_path: copy_str(self.history_repo_path.as_str()),
                    short_hash: copy_str(c.short_hash.as_str()),
                    file_path: copy_str(c.files[fi].path.as_str()),
                })
            },
            _ => None,
        }
    }

    /// The Details pane's source and mode after `refresh_details` (when it acts).
    pub open spec fn spec_details_target(&self) -> (DetailsSource, DetailsMode) {
        match self.focus {
            Focus::FileStatus => (DetailsSource::FileStatus, DetailsMode::Diff),
            Focus::History => match history_row(self.history@, self.history_selected as int) {
                Some((_, None)) => (DetailsSource::HistoryCommit, DetailsMode::Commit),
                Some((_, Some(_))) => (DetailsSource::HistoryFile, DetailsMode::Diff),
                None => (self.details_source, DetailsMode::Empty),
            },
            _ => (self.details_source, DetailsMode::Empty),
        }
    }

    /// `load` is the diff to read for what the focused pane selects: the selected
    /// file's working-tree diff (File Status), the selected file's diff in its commit
    /// (History, on a file row), nothing otherwise.
    pub open spec fn is_details_load(&self, load: Option<DetailsLoad>) -> bool {
        match self.focus {
            Focus::FileStatus => self.is_file_status_load(load),
            Focus::History => match history_row(self.history@, self.history_selected as int) {
                Some((ci, Some(fi))) => load matches Some(DetailsLoad::HistoryFile { repo_path, short_hash, file_path })
                    && repo_path@ == self.history_repo_path@ && short_hash@ == self.history@[ci as int].short_hash@
                    && file_path@ == self.history@[ci as int].files@[fi as int].path@,
                _ => load is None,
            },
            _ => load is None,
        }
    }

    /// `after` is `before` after `refresh_details` returned `load`: nothing changes when
    /// the Details pane is hidden or focused; otherwise its source and mode follow the
    /// focused pane (`spec_details_target`), its content is emptied and scrolled to the
    /// top, and `load` is what to read into it.
    #[verifier::opaque]
    pub open spec fn details_refreshed(before: &App, after: &App, load: Option<DetailsLoad>) -> bool {
        if !before.show_details || before.focus == Focus::Details {
            load is None && *after == *before
        } else {
            &&& after.details_content@.len() == 0
            &&& *after == (App {
                details_source: before.spec_details_target().0,
                details_mode: before.spec_details_target().1,
                details_content: after.details_content,
                details_scroll: 0,
                ..*before
            })
            &&& before.is_details_load(load)
        }
    }

    fn details_plan(&self) -> (res: (DetailsSource, DetailsMode, Option<DetailsLoad>))
        requires
            self.inv(),
        ensures
            res.0 == self.spec_details_target().0,
            res.1 == self.spec_details_target().1,
            self.is_details_load(res.2),
    {
        match self.focus {
            Focus::FileStatus => (DetailsSource::FileStatus, DetailsMode::Diff, self.file_status_load()),
            Focus::History => {
                let load = self.history_file_load();
                match self.history_row_at(self.history_selected) {
                    Some((_, None)) => (DetailsSource::HistoryCommit, DetailsMode::Commit, load),
                    Some((_, Some(_))) => (DetailsSource::HistoryFile, DetailsMode::Diff, load),
                    None => (self.details_source, DetailsMode::Empty, load),
                }
            },
            _ => (self.details_source, DetailsMode::Empty, None),
        }
    }

    /// Point the Details pane at what the focused pane selects (see
    /// `details_refreshed`); the result says which diff the application must read into
    /// `details_content`.
    pub fn refresh_details(&mut self) -> (res: Option<DetailsLoad>)
        requires
            old(self).inv(),
        ensures
            Self::details_refreshed(old(self), final(self), res),
    {
        proof { reveal(App::details_refreshed); }
        if !self.show_details || self.focus == Focus::Details {
            return None;
        }
        let (src, mode, load) = self.details_plan();
        self.set_details(src, mode);
        load
    }

    fn set_details(&mut self, src: DetailsSource, mode: DetailsMode)
        ensures
            final(self).details_content@.len() == 0,
            *final(self) == (App {
                details_source: src,
                details_mode: mode,
                details_content: final(self).details_content,
                details_scroll: 0,
                ..*old(self)
            }),
    {
        self.details_source = src;
        self.details_mode = mode;
        self.details_content = String::new();
        self.details_scroll = 0;
    }

    /// Fill the Details pane with `content` (the diff the application read).
    pub fn set_details_content(&mut self, content: String)
        ensures
            *final(self) == (App { details_content: content, ..*old(self) }),
    {
        self.details_content = content;
    }

    /// Show or hide the Details pane.  Hiding it moves the focus from it to
    /// Repositories and empties it; showing it refreshes it (see `details_refreshed`;
    /// the result says which diff to read).  The visibility is copied into the
    /// persisted state.
    pub fn toggle_details(&mut self) -> (res: Option<DetailsLoad>)
        requires
            old(self).inv(),
        ensures
            old(self).show_details ==> {
                &&& res is None
                &&& final(self).details_content@.len() == 0
                &&& *final(self) == (App {
                    show_details: false,
                    focus: if old(self).focus == Focus::Details { Focus::Repos } else { old(self).focus },
                    details_content: final(self).details_content,
                    details_mode: DetailsMode::Empty,
                    state: crate::state::State { show_details: false, ..old(self).state },
                    ..*old(self)
                })
            },
            !old(self).show_details ==> Self::details_refreshed(
                &App {
                    show_details: true,
                    state: crate::state::State { show_details: true, ..old(self).state },
                    ..*old(self)
                },
                final(self),
                res,
            ),
    {
        if self.show_details {
            let f = if self.focus == Focus::Details { Focus::Repos } else { self.focus };
            self.hide_details(f);
            None
        } else {
            self.mark_details_shown();
            self.refresh_details()
        }
    }

    fn mark_details_shown(&mut self)
        ensures
            *final(self) == (App {
                show_details: true,
                state: crate::state::State { show_details: true, ..old(self).state },
                ..*old(self)
            }),
    {
        self.show_details = true;
        self.state.show_details = true;
    }

    fn hide_details(&mut self, f: Focus)
        ensures
            final(self).details_content@.len() == 0,
            *final(self) == (App {
                show_details: false,
                focus: f,
                details_content: final(self).details_content,
                details_mode: DetailsMode::Empty,
                state: crate::state::State { show_details: false, ..old(self).state },
                ..*old(self)
            }),
    {
        self.show_details = false;
        self.focus = f;
        self.details_content = String::new();
        self.details_mode = DetailsMode::Empty;
        self.state.show_details = false;
    }
}

} // verus!
