//! Focus cycling, pane toggles, the Details pane source and the simple mode switches.
use vstd::prelude::*;
use crate::app::{App, AppMode, DetailsMode, DetailsSource, Focus, THEME_COUNT};
use crate::config::Config;
use crate::git::HistoryFilter;
use crate::state::{SectionView, State, sorted_repos};
use crate::order::{first_index, lemma_first_index_skip};

verus! {

/// What the application must read to fill the Details pane after `refresh_details`.
#[derive(Debug, Clone)]
pub enum DetailsLoad {
    /// The working-tree diff of `file_path` in `repo_path` (its whole content when the
    /// file is untracked).
    FileStatus { repo_path: String, file_path: String, untracked: bool },
    /// The diff of `file_path` in commit `short_hash` of `repo_path`.
    HistoryFile { repo_path: String, short_hash: String, file_path: String },
}

/// The predicate "is this focus `f`".
pub open spec fn is_focus(f: Focus) -> spec_fn(Focus) -> bool {
    |g: Focus| g == f
}

/// Position of `f` in `order`, or 0 when it does not occur.
pub open spec fn focus_pos(order: Seq<Focus>, f: Focus) -> nat {
    match first_index(order, is_focus(f)) {
        Some(i) => i,
        None => 0,
    }
}

/// The ten frames of the busy spinner.
pub open spec fn spinner_frames() -> Seq<Seq<char>> {
    seq!["⠋"@, "⠙"@, "⠹"@, "⠸"@, "⠼"@, "⠴"@, "⠦"@, "⠧"@, "⠇"@, "⠏"@]
}

fn focus_position(order: &Vec<Focus>, f: Focus) -> (res: usize)
    ensures
        res == focus_pos(order@, f),
{
    let ghost s = order@;
    let mut i: usize = 0;
    assert(s.skip(0) =~= s);
    while i < order.len()
        invariant
            s == order@,
            i <= s.len(),
            first_index(s, is_focus(f)) == (match first_index(s.skip(i as int), is_focus(f)) {
                Some(j) => Some((j + i) as nat),
                None => None::<nat>,
            }),
        decreases s.len() - i,
    {
        assert(s.skip(i as int)[0] == s[i as int]);
        if order[i] == f {
            return i;
        }
        proof { lemma_first_index_skip(s, is_focus(f), i as int); }
        i += 1;
    }
    0
}

impl App {
    /// The focusable panes in Tab order: Repositories (or Branches when that pane
    /// replaces it), File Status, History, Details (only beside File Status or History)
    /// and Log, each when shown.
    pub open spec fn spec_focus_order(&self) -> Seq<Focus> {
        let s0 = if self.show_branches { seq![Focus::Branches] } else { seq![Focus::Repos] };
        let s1 = if self.show_file_status && !self.show_branches { s0.push(Focus::FileStatus) } else { s0 };
        let s2 = if self.show_history { s1.push(Focus::History) } else { s1 };
        let s3 = if self.show_details && (self.show_file_status || self.show_history) {
            s2.push(Focus::Details)
        } else {
            s2
        };
        if self.show_log { s3.push(Focus::Log) } else { s3 }
    }

    /// The focus after `cycle_focus`.
    pub open spec fn spec_next_focus(&self) -> Focus {
        let order = self.spec_focus_order();
        if order.len() < 2 {
            Focus::Repos
        } else {
            let i = focus_pos(order, self.focus);
            if i + 1 < order.len() { order[i + 1 as int] } else { order[0] }
        }
    }

    /// The focus after `cycle_focus_reverse`.
    pub open spec fn spec_previous_focus(&self) -> Focus {
        let order = self.spec_focus_order();
        if order.len() < 2 {
            Focus::Repos
        } else {
            let i = focus_pos(order, self.focus);
            if i > 0 { order[i - 1] } else { order[order.len() - 1] }
        }
    }

    /// The mode a transient popup returns to: History while the History pane is open,
    /// Normal otherwise.
    pub open spec fn base_mode(&self) -> AppMode {
        if self.show_history { AppMode::History } else { AppMode::Normal }
    }

    /// The focusable panes in Tab order (see `spec_focus_order`).
    pub fn focus_order(&self) -> (res: Vec<Focus>)
        ensures
            res@ == self.spec_focus_order(),
    {
        let mut order: Vec<Focus> = if self.show_branches { vec![Focus::Branches] } else { vec![Focus::Repos] };
        if self.show_file_status && !self.show_branches {
            order.push(Focus::FileStatus);
        }
        if self.show_history {
            order.push(Focus::History);
        }
        if self.show_details && (self.show_file_status || self.show_history) {
            order.push(Focus::Details);
        }
        if self.show_log {
            order.push(Focus::Log);
        }
        order
    }

    fn next_focus_value(&self, forward: bool) -> (res: Focus)
        ensures
            forward ==> res == self.spec_next_focus(),
            !forward ==> res == self.spec_previous_focus(),
    {
        let order = self.focus_order();
        let n = order.len();
        if n < 2 {
            return Focus::Repos;
        }
        let idx = focus_position(&order, self.focus);
        proof { crate::order::lemma_first_index(order@, is_focus(self.focus)); }
        if forward {
            if idx + 1 < n { order[idx + 1] } else { order[0] }
        } else {
            if idx > 0 { order[idx - 1] } else { order[n - 1] }
        }
    }

    /// Move the keyboard focus to the next visible pane, wrapping around; with a single
    /// pane the focus goes to Repositories.
    pub fn cycle_focus(&mut self)
        ensures
            *final(self) == (App { focus: old(self).spec_next_focus(), ..*old(self) }),
    {
        self.focus = self.next_focus_value(true);
    }

    /// Move the keyboard focus to the previous visible pane, wrapping around; with a
    /// single pane the focus goes to Repositories.
    pub fn cycle_focus_reverse(&mut self)
        ensures
            *final(self) == (App { focus: old(self).spec_previous_focus(), ..*old(self) }),
    {
        self.focus = self.next_focus_value(false);
    }

    /// Dismiss a transient popup: History mode while the History pane is open, Normal
    /// mode otherwise.
    pub fn restore_base_mode(&mut self)
        ensures
            *final(self) == (App { mode: old(self).base_mode(), ..*old(self) }),
    {
        if self.show_history {
            self.mode = AppMode::History;
        } else {
            self.mode = AppMode::Normal;
        }
    }

    /// Copy the pane visibility flags into the persisted state (which the application
    /// then saves).
    pub fn sync_pane_state(&mut self)
        ensures
            *final(self) == (App {
                state: crate::state::State {
                    show_file_status: old(self).show_file_status,
                    show_log: old(self).show_log,
                    show_history: old(self).show_history,
                    show_details: old(self).show_details,
                    ..old(self).state
                },
                ..*old(self)
            }),
    {
        self.state.show_file_status = self.show_file_status;
        self.state.show_log = self.show_log;
        self.state.show_history = self.show_history;
        self.state.show_details = self.show_details;
    }

    /// Show or hide the File Status pane.  Showing it focuses it and resets its
    /// selection and scroll; hiding it moves the focus from it to Repositories.  The
    /// visibility is copied into the persisted state.
    pub fn toggle_file_status(&mut self)
        ensures
            final(self).show_file_status == !old(self).show_file_status,
            final(self).state.show_file_status == !old(self).show_file_status,
            final(self).file_status_selected == (if !old(self).show_file_status { 0 } else { old(self).file_status_selected }),
            final(self).file_status_scroll == (if !old(self).show_file_status { 0 } else { old(self).file_status_scroll }),
            final(self).focus == (if !old(self).show_file_status {
                Focus::FileStatus
            } else if old(self).focus == Focus::FileStatus {
                Focus::Repos
            } else {
                old(self).focus
            }),
            *final(self) == (App {
                show_file_status: final(self).show_file_status,
                file_status_selected: final(self).file_status_selected,
                file_status_scroll: final(self).file_status_scroll,
                focus: final(self).focus,
                state: crate::state::State {
                    show_file_status: final(self).show_file_status,
                    show_log: old(self).show_log,
                    show_history: old(self).show_history,
                    show_details: old(self).show_details,
                    ..old(self).state
                },
                ..*old(self)
            }),
    {
        let show = !self.show_file_status;
        let sel = if show { 0 } else { self.file_status_selected };
        let scroll = if show { 0 } else { self.file_status_scroll };
        let focus = if show {
            Focus::FileStatus
        } else if self.focus == Focus::FileStatus {
            Focus::Repos
        } else {
            self.focus
        };
        self.set_file_status_pane(show, sel, scroll, focus);
        self.sync_pane_state();
    }

    fn set_file_status_pane(&mut self, show: bool, sel: usize, scroll: usize, focus: Focus)
        ensures
            *final(self) == (App {
                show_file_status: show,
                file_status_selected: sel,
                file_status_scroll: scroll,
                focus: focus,
                ..*old(self)
            }),
    {
        self.show_file_status = show;
        self.file_status_selected = sel;
        self.file_status_scroll = scroll;
        self.focus = focus;
    }

    /// Show or hide the output log.  Showing it focuses it, snaps it to the tail and
    /// follows new entries; hiding it moves the focus from it to Repositories.  The
    /// visibility is copied into the persisted state.
    pub fn toggle_log(&mut self)
        ensures
            final(self).show_log == !old(self).show_log,
            final(self).log_follow == (if !old(self).show_log { true } else { old(self).log_follow }),
            final(self).log_offset == (if !old(self).show_log { 0 } else { old(self).log_offset }),
            final(self).focus == (if !old(self).show_log {
                Focus::Log
            } else if old(self).focus == Focus::Log {
                Focus::Repos
            } else {
                old(self).focus
            }),
            *final(self) == (App {
                show_log: final(self).show_log,
                log_follow: final(self).log_follow,
                log_offset: final(self).log_offset,
                focus: final(self).focus,
                state: crate::state::State {
                    show_file_status: old(self).show_file_status,
                    show_log: final(self).show_log,
                    show_history: old(self).show_history,
                    show_details: old(self).show_details,
                    ..old(self).state
                },
                ..*old(self)
            }),
    {
        let show = !self.show_log;
        let follow = if show { true } else { self.log_follow };
        let offset = if show { 0 } else { self.log_offset };
        let focus = if show {
            Focus::Log
        } else if self.focus == Focus::Log {
            Focus::Repos
        } else {
            self.focus
        };
        self.set_log_pane(show, follow, offset, focus);
        self.sync_pane_state();
    }

    fn set_log_pane(&mut self, show: bool, follow: bool, offset: usize, focus: Focus)
        ensures
            *final(self) == (App { show_log: show, log_follow: follow, log_offset: offset, focus: focus, ..*old(self) }),
    {
        self.show_log = show;
        self.log_follow = follow;
        self.log_offset = offset;
        self.focus = focus;
    }

    /// Advance to the next colour theme, cycling.
    pub fn next_theme(&mut self)
        ensures
            *final(self) == (App { theme_idx: ((old(self).theme_idx + 1) % (THEME_COUNT as int)) as usize, ..*old(self) }),
    {
        self.theme_idx = if self.theme_idx < THEME_COUNT - 1 { self.theme_idx + 1 } else { 0 };
        assert(THEME_COUNT == 1);
    }

    /// The spinner frame for the current tick: the ten frames in turn.
    pub fn spinner_frame(&self) -> (res: &'static str)
        ensures
            res@ == spinner_frames()[(self.spinner_tick % 10) as int],
    {
        proof {
            reveal_strlit("⠋");
            reveal_strlit("⠙");
            reveal_strlit("⠹");
            reveal_strlit("⠸");
            reveal_strlit("⠼");
            reveal_strlit("⠴");
            reveal_strlit("⠦");
            reveal_strlit("⠧");
            reveal_strlit("⠇");
            reveal_strlit("⠏");
        }
        match self.spinner_tick % 10 {
            0 => "⠋",
            1 => "⠙",
            2 => "⠹",
            3 => "⠸",
            4 => "⠼",
            5 => "⠴",
            6 => "⠦",
            7 => "⠧",
            8 => "⠇",
            _ => "⠏",
        }
    }

    /// Ask for confirmation before removing the selected repo; no-op on a section title
    /// row (or when nothing is selected).
    pub fn request_remove_selected(&mut self)
        requires
            old(self).inv(),
        ensures
            final(self).mode == (if old(self).spec_selected_repo_idx() is Some {
                AppMode::ConfirmRemove
            } else {
                old(self).mode
            }),
            *final(self) == (App { mode: final(self).mode, ..*old(self) }),
    {
        let m = if self.selected_repo_idx().is_some() { AppMode::ConfirmRemove } else { self.mode };
        self.mode = m;
    }

    /// Dismiss the remove confirmation without removing anything.
    pub fn cancel_remove(&mut self)
        ensures
            *final(self) == (App { mode: old(self).base_mode(), ..*old(self) }),
    {
        self.restore_base_mode();
    }

    /// Close the action menu.
    pub fn close_menu(&mut self)
        ensures
            *final(self) == (App { mode: old(self).base_mode(), ..*old(self) }),
    {
        self.restore_base_mode();
    }

    /// Close the branch selection popup.
    pub fn close_branch_select(&mut self)
        ensures
            *final(self) == (App { mode: old(self).base_mode(), ..*old(self) }),
    {
        self.restore_base_mode();
    }

    /// Close the new-branch name input.
    pub fn close_new_branch_input(&mut self)
        ensures
            *final(self) == (App { mode: old(self).base_mode(), ..*old(self) }),
    {
        self.restore_base_mode();
    }

    /// Ask for confirmation before force-pushing the selected repo.
    pub fn confirm_force_push(&mut self)
        ensures
            *final(self) == (App { mode: AppMode::ConfirmForcePush, ..*old(self) }),
    {
        self.mode = AppMode::ConfirmForcePush;
    }

    /// Ask for confirmation before force-pushing branch `name`.
    pub fn confirm_force_push_branch(&mut self, name: String)
        ensures
            *final(self) == (App { branch_to_force_push: name, mode: AppMode::ConfirmForcePushBranch, ..*old(self) }),
    {
        self.branch_to_force_push = name;
        self.mode = AppMode::ConfirmForcePushBranch;
    }

    /// Open the new-branch name input, branching off HEAD.
    pub fn open_new_branch_input(&mut self)
        ensures
            final(self).branch_input@.len() == 0,
            final(self).branch_input_base@.len() == 0,
            *final(self) == (App {
                branch_input: final(self).branch_input,
                branch_input_base: final(self).branch_input_base,
                mode: AppMode::NewBranchInput,
                ..*old(self)
            }),
    {
        self.branch_input = String::new();
        self.branch_input_base = String::new();
        self.mode = AppMode::NewBranchInput;
    }

    /// Open the new-branch name input, branching off `base`.
    pub fn open_new_branch_from_input(&mut self, base: String)
        ensures
            final(self).branch_input@.len() == 0,
            *final(self) == (App {
                branch_input: final(self).branch_input,
                branch_input_base: base,
                mode: AppMode::NewBranchInput,
                ..*old(self)
            }),
    {
        self.branch_input = String::new();
        self.branch_input_base = base;
        self.mode = AppMode::NewBranchInput;
    }

    /// Open the commit message dialog for a new commit (the application resets the text
    /// area).
    pub fn open_commit_input(&mut self)
        ensures
            *final(self) == (App { commit_is_amend: false, mode: AppMode::CommitMessageInput, ..*old(self) }),
    {
        self.commit_is_amend = false;
        self.mode = AppMode::CommitMessageInput;
    }

    /// Open the commit message dialog for amending HEAD, which changed
    /// `head_file_count` files (the application fills the text area with HEAD's
    /// message).
    pub fn open_amend_input(&mut self, head_file_count: usize)
        ensures
            *final(self) == (App {
                commit_head_file_count: head_file_count,
                commit_is_amend: true,
                mode: AppMode::CommitMessageInput,
                ..*old(self)
            }),
    {
        self.commit_head_file_count = head_file_count;
        self.commit_is_amend = true;
        self.mode = AppMode::CommitMessageInput;
    }

    /// The repository paths of all sections, in display order.
    pub fn tracked_paths(&self) -> (res: Vec<String>)
        requires
            self.inv(),
        ensures
            crate::state::strings_view(res@) == crate::state::flat_repos(self.state.ss()),
    {
        self.state.all_repos_flat()
    }

    /// A new application state for `config` and the persisted `state`: the state's
    /// repositories sorted within each section (case-sensitively when the configuration
    /// asks for it), the pane visibility taken from the state, Normal mode, Repositories
    /// focused, everything else empty or at its start.
    pub fn new_with(config: Config, state: State) -> (res: App)
        ensures
            res.state.ss().len() == state.ss().len(),
            forall|i: int| 0 <= i < state.ss().len() ==> #[trigger] res.state.ss()[i] == (SectionView {
                repos: sorted_repos(state.ss()[i].repos, config.general.case_sensitive_path_sorting),
                ..state.ss()[i]
            }),
            res.state.same_flags(&state),
            res.config == config,
            res.show_file_status == state.show_file_status,
            res.show_log == state.show_log,
            res.show_history == state.show_history,
            res.show_details == state.show_details,
            res.repos@.len() == 0 && res.log@.len() == 0 && res.operations@.len() == 0,
            res.menu_items@.len() == 0 && res.branch_items@.len() == 0 && res.history@.len() == 0,
            res.branch_info_list@.len() == 0 && res.section_select_items@.len() == 0,
            res.branch_input@.len() == 0 && res.branch_input_base@.len() == 0,
            res.branch_to_delete@.len() == 0 && res.branch_to_force_push@.len() == 0,
            res.history_repo_path@.len() == 0 && res.details_content@.len() == 0 && res.section_input@.len() == 0,
            res.selected == 0 && res.table_offset == 0 && res.spinner_tick == 0,
            res.file_status_selected == 0 && res.file_status_scroll == 0 && res.log_offset == 0,
            res.menu_selected == 0 && res.menu_scroll == 0 && res.branch_selected == 0,
            res.commit_head_file_count == 0 && res.theme_idx == 0,
            res.history_selected == 0 && res.history_scroll == 0,
            res.branches_pane_selected == 0 && res.branches_pane_scroll == 0,
            res.details_scroll == 0 && res.help_overlay_scroll == 0 && res.help_overlay_max_scroll == usize::MAX,
            res.section_input_target_idx == 0 && res.section_select_selected == 0,
            !res.should_quit && !res.scanning && !res.commit_is_amend && !res.show_branches,
            !res.branches_history_active && res.section_input_is_create,
            !res.dragging_repos_divider && !res.hover_repos_divider,
            !res.dragging_details_divider && !res.hover_details_divider,
            res.log_follow,
            res.mode == AppMode::Normal,
            res.focus == Focus::Repos,
            res.history_filter is Full,
            res.details_mode == DetailsMode::Empty,
            res.details_source == DetailsSource::FileStatus,
            res.reselect_file_path is None && res.popup_message is None && res.section_to_remove_idx is None,
            res.repos_height_override is None && res.details_width_override is None,
    {
        let mut state = state;
        state.sort_all_section_repos(config.general.case_sensitive_path_sorting);
        let show_file_status = state.show_file_status;
        let show_log = state.show_log;
        let show_history = state.show_history;
        let show_details = state.show_details;
        App {
            repos: Vec::new(),
            selected: 0,
            should_quit: false,
            mode: AppMode::Normal,
            config,
            state,
            scanning: false,
            operations: Vec::new(),
            log: Vec::new(),
            show_file_status,
            show_log,
            table_offset: 0,
            spinner_tick: 0,
            focus: Focus::Repos,
            file_status_selected: 0,
            file_status_scroll: 0,
            reselect_file_path: None,
            log_offset: 0,
            log_follow: true,
            menu_items: Vec::new(),
            menu_selected: 0,
            menu_scroll: 0,
            branch_items: Vec::new(),
            branch_selected: 0,
            branch_input: String::new(),
            branch_input_base: String::new(),
            branch_to_delete: String::new(),
            branch_to_force_push: String::new(),
            commit_is_amend: false,
            commit_head_file_count: 0,
            theme_idx: 0,
            history: Vec::new(),
            show_history,
            history_repo_path: String::new(),
            history_filter: HistoryFilter::Full,
            history_selected: 0,
            history_scroll: 0,
            popup_message: None,
            show_branches: false,
            branch_info_list: Vec::new(),
            branches_pane_selected: 0,
            branches_pane_scroll: 0,
            branches_history_active: false,
            show_details,
            details_mode: DetailsMode::Empty,
            details_content: String::new(),
            details_scroll: 0,
            details_source: DetailsSource::FileStatus,
            help_overlay_scroll: 0,
            help_overlay_max_scroll: usize::MAX,
            section_input: String::new(),
            section_input_is_create: true,
            section_input_target_idx: 0,
            section_to_remove_idx: None,
            section_select_items: Vec::new(),
            section_select_selected: 0,
            repos_height_override: None,
            dragging_repos_divider: false,
            hover_repos_divider: false,
            details_width_override: None,
            dragging_details_divider: false,
            hover_details_divider: false,
        }
    }
}

} // verus!
