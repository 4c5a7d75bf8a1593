//! What a key press asks for, in each mode: the decisions of the key handlers.  The
//! application reads the key, asks here for the action, and performs it (calling the
//! state methods, or starting git operations and reading from the repository).
use vstd::prelude::*;
use crate::app::{App, AppMode, Focus, RepoOperation};
use crate::app_menus::MenuItemView;
use crate::git::{AheadBehind, FileStatusKind, FilterView, HistoryFilter};
use crate::ops::OpRequest;
use crate::text::{chars_of, push_str, string_from_chars};
use crate::state::strings_view;

verus! {

/// A key press, as far as the key handlers tell keys apart.
#[derive(Debug, Clone, Copy, PartialEq, Eq, Structural)]
pub enum Key {
    Up,
    Down,
    PageUp,
    PageDown,
    Enter,
    Esc,
    Tab,
    BackTab,
    Left,
    Right,
    Char(char),
    Other,
}

/// What the application does in answer to a key.
#[derive(Debug, Clone)]
pub enum Action {
    Nothing,
    CycleFocus,
    CycleFocusReverse,
    /// Move in the focused pane; the History pane then follows the selection (the
    /// Branches pane's branch when it is focused) and the Details pane is refreshed.
    Next,
    Previous,
    NextPage,
    PreviousPage,
    RefreshRepos,
    EnterPicker,
    RequestRemove,
    ToggleFileStatus,
    ToggleLog,
    ToggleDetails,
    OpenBranchesPane,
    CloseBranchesPane,
    OpenBranchMenu,
    OpenLogMenu,
    OpenFileMenu,
    OpenRepoMenu,
    /// Start a git operation on the selected repository.
    Launch(OpRequest),
    OpenBranchSelect,
    OpenHistory(HistoryFilter),
    OpenHistoryForBranch(HistoryFilter),
    NextTheme,
    ShowHelp,
    ConfirmForcePush,
    OpenNewBranchInput,
    OpenNewBranchFrom(String),
    ConfirmDeleteBranch,
    CopyLog,
    ClearLog,
    /// Run a custom repo command (its raw text, before substitution).
    RunRepoCommand { name: String, cmd: String, background: bool },
    CloseHistory,
    NextCommit,
    PreviousCommit,
    MenuNext,
    MenuPrevious,
    MenuNextPage,
    MenuPreviousPage,
    CloseMenu,
    OpenCommitInput,
    OpenAmendInput,
    ConfirmForcePushBranch(String),
    CreateSection,
    RenameSection,
    RemoveSection,
    MoveRepoToSection,
    CollapseSection,
    ExpandSection,
}

/// An operation request as plain values (the fields the key handlers fill).
pub enum RequestView {
    Fetch,
    Pull,
    Push,
    CheckoutBranch(Seq<char>, bool),
    PullBranch(Seq<char>, Seq<char>),
    StageFile(Seq<char>),
    UnstageFile(Seq<char>),
    RevertFile(Seq<char>, bool),
    DiscardFile(Seq<char>),
    SavePatchAndRevert(Seq<char>),
    ApplyPatch(Seq<char>),
    PushBranch(Seq<char>),
    UndoCommit,
    Other,
}

pub open spec fn request_view(r: OpRequest) -> RequestView {
    match r {
        OpRequest::Fetch => RequestView::Fetch,
        OpRequest::Pull => RequestView::Pull,
        OpRequest::Push => RequestView::Push,
        OpRequest::CheckoutBranch { name, is_remote } => RequestView::CheckoutBranch(name@, is_remote),
        OpRequest::PullBranch { name, upstream } => RequestView::PullBranch(name@, upstream@),
        OpRequest::StageFile(p) => RequestView::StageFile(p@),
        OpRequest::UnstageFile(p) => RequestView::UnstageFile(p@),
        OpRequest::RevertFile { file_path, is_conflict } => RequestView::RevertFile(file_path@, is_conflict),
        OpRequest::DiscardFile(p) => RequestView::DiscardFile(p@),
        OpRequest::SavePatchAndRevert { file_path } => RequestView::SavePatchAndRevert(file_path@),
        OpRequest::ApplyPatch { file_path } => RequestView::ApplyPatch(file_path@),
        OpRequest::PushBranch { name } => RequestView::PushBranch(name@),
        OpRequest::UndoCommit => RequestView::UndoCommit,
        _ => RequestView::Other,
    }
}

/// An action as plain values.
pub enum ActionView {
    Simple(Action),
    Launch(RequestView),
    OpenHistory(FilterView),
    OpenHistoryForBranch(FilterView),
    OpenNewBranchFrom(Seq<char>),
    RunRepoCommand(Seq<char>, Seq<char>, bool),
    ConfirmForcePushBranch(Seq<char>),
}

pub open spec fn action_view(a: Action) -> ActionView {
    match a {
        Action::Launch(r) => ActionView::Launch(request_view(r)),
        Action::OpenHistory(f) => ActionView::OpenHistory(f@),
        Action::OpenHistoryForBranch(f) => ActionView::OpenHistoryForBranch(f@),
        Action::OpenNewBranchFrom(b) => ActionView::OpenNewBranchFrom(b@),
        Action::RunRepoCommand { name, cmd, background } => ActionView::RunRepoCommand(name@, cmd@, background),
        Action::ConfirmForcePushBranch(b) => ActionView::ConfirmForcePushBranch(b@),
        _ => ActionView::Simple(a),
    }
}

/// The activity shown for a repository while `r` runs.
pub open spec fn spec_op_activity(r: OpRequest) -> RepoOperation {
    match r {
        OpRequest::Fetch => RepoOperation::Fetching,
        OpRequest::Pull => RepoOperation::Pulling,
        OpRequest::PullBranch { .. } => RepoOperation::Pulling,
        OpRequest::Push => RepoOperation::Pushing,
        OpRequest::ForcePush => RepoOperation::Pushing,
        _ => RepoOperation::Fetching,
    }
}

/// See `spec_op_activity`.
pub fn op_activity(r: &OpRequest) -> (res: RepoOperation)
    ensures
        res == spec_op_activity(*r),
{
    match r {
        OpRequest::Fetch => RepoOperation::Fetching,
        OpRequest::Pull | OpRequest::PullBranch { .. } => RepoOperation::Pulling,
        OpRequest::Push | OpRequest::ForcePush => RepoOperation::Pushing,
        _ => RepoOperation::Fetching,
    }
}

fn copy(s: &str) -> (res: String)
    ensures
        res@ == s@,
{
    string_from_chars(chars_of(s).as_slice())
}

/// `origin/<name>`.
fn origin_ref(name: &str) -> (res: String)
    ensures
        res@ == "origin/"@ + name@,
{
    let mut out = String::new();
    push_str(&mut out, "origin/");
    push_str(&mut out, name);
    out
}

impl Action {
    /// The repository action menu stays open after these actions (moving in it,
    /// closing it); any other action closes it before it is performed.
    pub fn keeps_menu_open(&self) -> (res: bool)
        ensures
            res == (*self is MenuNext || *self is MenuPrevious || *self is MenuNextPage || *self is MenuPreviousPage
                || *self is CloseMenu),
    {
        match self {
            Action::MenuNext | Action::MenuPrevious | Action::MenuNextPage | Action::MenuPreviousPage | Action::CloseMenu => true,
            _ => false,
        }
    }
}

/// The predicate "this is a custom command item with key `c`".
pub open spec fn command_key_is(c: char) -> spec_fn(MenuItemView) -> bool {
    |m: MenuItemView| !m.is_separator && m.key == c && m.repo_cmd is Some
}

/// What activating menu item `m` does: run its custom command, or the repo menu
/// action of its key.
pub open spec fn item_action(app: &App, m: MenuItemView) -> ActionView {
    match m.repo_cmd {
        Some((cmd, bg)) => ActionView::RunRepoCommand(m.label, cmd, bg),
        None => app.spec_repo_menu_action(m.key),
    }
}

pub open spec fn ab_branch(ab: Option<AheadBehind>) -> Seq<char> {
    match ab {
        Some(a) => a.branch@,
        None => Seq::empty(),
    }
}

impl App {
    /// The action of a key in Normal (and History-pane) mode:
    /// Tab/BackTab cycle the focus; arrows and page keys move; `r` refreshes all repos;
    /// `A` adds a repo; `D` asks to remove one; `s`, `l`, `d` toggle File Status, Log
    /// and Details; `b` toggles the Branches pane; Enter opens the menu of the focused
    /// pane (Branches, Log, File Status, else Repositories); `f`, `p`, `P` fetch, pull
    /// (fast-forwarding the selected branch in the Branches pane when possible) and
    /// push; `c` checks out the selected branch in the Branches pane, else opens the
    /// branch selection; `h` opens the full history; `T` cycles themes; `?` shows help;
    /// Esc closes the Branches pane when it is focused; Left and Right collapse and
    /// expand the current section when Repositories is focused.
    pub open spec fn spec_normal_key_action(&self, key: Key) -> ActionView {
        match key {
            Key::Tab => ActionView::Simple(Action::CycleFocus),
            Key::BackTab => ActionView::Simple(Action::CycleFocusReverse),
            Key::Down => ActionView::Simple(Action::Next),
            Key::Up => ActionView::Simple(Action::Previous),
            Key::PageDown => ActionView::Simple(Action::NextPage),
            Key::PageUp => ActionView::Simple(Action::PreviousPage),
            Key::Enter => if self.focus == Focus::Branches {
                ActionView::Simple(Action::OpenBranchMenu)
            } else if self.focus == Focus::Log && self.show_log {
                ActionView::Simple(Action::OpenLogMenu)
            } else if self.focus == Focus::FileStatus && self.show_file_status {
                ActionView::Simple(Action::OpenFileMenu)
            } else {
                ActionView::Simple(Action::OpenRepoMenu)
            },
            Key::Esc => if self.focus == Focus::Branches {
                ActionView::Simple(Action::CloseBranchesPane)
            } else {
                ActionView::Simple(Action::Nothing)
            },
            Key::Char(c) => if c == 'r' {
                ActionView::Simple(Action::RefreshRepos)
            } else if c == 'A' {
                ActionView::Simple(Action::EnterPicker)
            } else if c == 'D' {
                ActionView::Simple(Action::RequestRemove)
            } else if c == 's' {
                ActionView::Simple(Action::ToggleFileStatus)
            } else if c == 'l' {
                ActionView::Simple(Action::ToggleLog)
            } else if c == 'd' {
                ActionView::Simple(Action::ToggleDetails)
            } else if c == 'b' {
                if self.show_branches {
                    ActionView::Simple(Action::CloseBranchesPane)
                } else {
                    ActionView::Simple(Action::OpenBranchesPane)
                }
            } else if c == 'f' {
                ActionView::Launch(RequestView::Fetch)
            } else if c == 'p' {
                match self.spec_branch_pull() {
                    Some((n, u)) => ActionView::Launch(RequestView::PullBranch(n, u)),
                    None => ActionView::Launch(RequestView::Pull),
                }
            } else if c == 'P' {
                ActionView::Launch(RequestView::Push)
            } else if c == 'c' {
                if self.focus == Focus::Branches {
                    match self.spec_branch_checkout() {
                        Some((n, r)) => ActionView::Launch(RequestView::CheckoutBranch(n, r)),
                        None => ActionView::Simple(Action::Nothing),
                    }
                } else {
                    ActionView::Simple(Action::OpenBranchSelect)
                }
            } else if c == 'h' {
                ActionView::OpenHistory(FilterView::Full)
            } else if c == 'T' {
                ActionView::Simple(Action::NextTheme)
            } else if c == '?' {
                ActionView::Simple(Action::ShowHelp)
            } else {
                ActionView::Simple(Action::Nothing)
            },
            Key::Left => if self.focus == Focus::Repos {
                ActionView::Simple(Action::CollapseSection)
            } else {
                ActionView::Simple(Action::Nothing)
            },
            Key::Right => if self.focus == Focus::Repos {
                ActionView::Simple(Action::ExpandSection)
            } else {
                ActionView::Simple(Action::Nothing)
            },
            Key::Other => ActionView::Simple(Action::Nothing),
        }
    }

    /// The fast-forward pull `p` starts in the Branches pane: the selected branch when
    /// it is not checked out and is behind (and not ahead of) its upstream.
    pub open spec fn spec_branch_pull(&self) -> Option<(Seq<char>, Seq<char>)> {
        if self.focus == Focus::Branches && self.branches_pane_selected < self.branch_info_list@.len() {
            let b = self.branch_info_list@[self.branches_pane_selected as int];
            match b.upstream {
                Some(u) => if !b.is_current && u.behind > 0 && u.ahead == 0 {
                    Some((b.name@, u.branch@))
                } else {
                    None
                },
                None => None,
            }
        } else {
            None
        }
    }

    /// The checkout `c` starts in the Branches pane: the selected branch unless it is
    /// checked out (`origin/<name>` with tracking for a remote-only branch).
    pub open spec fn spec_branch_checkout(&self) -> Option<(Seq<char>, bool)> {
        if self.branches_pane_selected < self.branch_info_list@.len() {
            let b = self.branch_info_list@[self.branches_pane_selected as int];
            if b.is_current {
                None
            } else if b.is_remote_only {
                Some(("origin/"@ + b.name@, true))
            } else {
                Some((b.name@, false))
            }
        } else {
            None
        }
    }

    fn branch_pull_op(&self) -> (res: Option<OpRequest>)
        ensures
            match res {
                Some(r) => self.spec_branch_pull() matches Some((n, u)) && request_view(r) == RequestView::PullBranch(n, u),
                None => self.spec_branch_pull() is None,
            },
    {
        if self.focus != Focus::Branches || self.branches_pane_selected >= self.branch_info_list.len() {
            return None;
        }
        let b = &self.branch_info_list[self.branches_pane_selected];
        match &b.upstream {
            Some(u) => if !b.is_current && u.behind > 0 && u.ahead == 0 {
                Some(OpRequest::PullBranch { name: copy(b.name.as_str()), upstream: copy(u.branch.as_str()) })
            } else {
                None
            },
            None => None,
        }
    }

    fn branch_checkout_op(&self) -> (res: Option<OpRequest>)
        ensures
            match res {
                Some(r) => self.spec_branch_checkout() matches Some((n, rem)) && request_view(r)
                    == RequestView::CheckoutBranch(n, rem),
                None => self.spec_branch_checkout() is None,
            },
    {
        if self.branches_pane_selected >= self.branch_info_list.len() {
            return None;
        }
        let b = &self.branch_info_list[self.branches_pane_selected];
        if b.is_current {
            None
        } else if b.is_remote_only {
            Some(OpRequest::CheckoutBranch { name: origin_ref(b.name.as_str()), is_remote: true })
        } else {
            Some(OpRequest::CheckoutBranch { name: copy(b.name.as_str()), is_remote: false })
        }
    }

    /// See `spec_normal_key_action`.
    pub fn normal_key_action(&self, key: Key) -> (res: Action)
        ensures
            action_view(res) == self.spec_normal_key_action(key),
    {
        match key {
            Key::Tab => Action::CycleFocus,
            Key::BackTab => Action::CycleFocusReverse,
            Key::Down => Action::Next,
            Key::Up => Action::Previous,
            Key::PageDown => Action::NextPage,
            Key::PageUp => Action::PreviousPage,
            Key::Enter => if self.focus == Focus::Branches {
                Action::OpenBranchMenu
            } else if self.focus == Focus::Log && self.show_log {
                Action::OpenLogMenu
            } else if self.focus == Focus::FileStatus && self.show_file_status {
                Action::OpenFileMenu
            } else {
                Action::OpenRepoMenu
            },
            Key::Esc => if self.focus == Focus::Branches { Action::CloseBranchesPane } else { Action::Nothing },
            Key::Char(c) => if c == 'r' {
                Action::RefreshRepos
            } else if c == 'A' {
                Action::EnterPicker
            } else if c == 'D' {
                Action::RequestRemove
            } else if c == 's' {
                Action::ToggleFileStatus
            } else if c == 'l' {
                Action::ToggleLog
            } else if c == 'd' {
                Action::ToggleDetails
            } else if c == 'b' {
                if self.show_branches { Action::CloseBranchesPane } else { Action::OpenBranchesPane }
            } else if c == 'f' {
                Action::Launch(OpRequest::Fetch)
            } else if c == 'p' {
                match self.branch_pull_op() {
                    Some(r) => Action::Launch(r),
                    None => Action::Launch(OpRequest::Pull),
                }
            } else if c == 'P' {
                Action::Launch(OpRequest::Push)
            } else if c == 'c' {
                if self.focus == Focus::Branches {
                    match self.branch_checkout_op() {
                        Some(r) => Action::Launch(r),
                        None => Action::Nothing,
                    }
                } else {
                    Action::OpenBranchSelect
                }
            } else if c == 'h' {
                Action::OpenHistory(HistoryFilter::Full)
            } else if c == 'T' {
                Action::NextTheme
            } else if c == '?' {
                Action::ShowHelp
            } else {
                Action::Nothing
            },
            Key::Left => if self.focus == Focus::Repos { Action::CollapseSection } else { Action::Nothing },
            Key::Right => if self.focus == Focus::Repos { Action::ExpandSection } else { Action::Nothing },
            Key::Other => Action::Nothing,
        }
    }

    /// The action of a menu key letter in the repository action menu: `f`, `p`, `P`
    /// fetch, pull and push; `F` asks to force-push; `c` opens the branch selection;
    /// `n` the new-branch input; `h` the full history; `u`/`U` the history ahead of /
    /// behind the upstream and `t`/`T` ahead of / behind the trunk of the selected
    /// repository (just closing the menu when it has none); `N` creates a section, `M`
    /// moves the repository to another section, `R` renames and `X` removes the selected
    /// section.  The application closes the menu before performing any action but
    /// `Nothing`.
    pub open spec fn spec_repo_menu_action(&self, c: char) -> ActionView {
        let (up, trunk) = match self.spec_selected_repo_idx() {
            Some(i) => if i < self.repos@.len() {
                (ab_branch(self.repos@[i as int].upstream), ab_branch(self.repos@[i as int].trunk))
            } else {
                (Seq::empty(), Seq::empty())
            },
            None => (Seq::empty(), Seq::empty()),
        };
        if c == 'f' {
            ActionView::Launch(RequestView::Fetch)
        } else if c == 'p' {
            ActionView::Launch(RequestView::Pull)
        } else if c == 'P' {
            ActionView::Launch(RequestView::Push)
        } else if c == 'F' {
            ActionView::Simple(Action::ConfirmForcePush)
        } else if c == 'c' {
            ActionView::Simple(Action::OpenBranchSelect)
        } else if c == 'n' {
            ActionView::Simple(Action::OpenNewBranchInput)
        } else if c == 'h' {
            ActionView::OpenHistory(FilterView::Full)
        } else if c == 'u' && up.len() > 0 {
            ActionView::OpenHistory(FilterView::AheadOf(up))
        } else if c == 'U' && up.len() > 0 {
            ActionView::OpenHistory(FilterView::BehindOf(up))
        } else if c == 't' && trunk.len() > 0 {
            ActionView::OpenHistory(FilterView::AheadOf(trunk))
        } else if c == 'T' && trunk.len() > 0 {
            ActionView::OpenHistory(FilterView::BehindOf(trunk))
        } else if c == 'u' || c == 'U' || c == 't' || c == 'T' {
            ActionView::Simple(Action::CloseMenu)
        } else if c == 'N' {
            ActionView::Simple(Action::CreateSection)
        } else if c == 'M' {
            ActionView::Simple(Action::MoveRepoToSection)
        } else if c == 'R' {
            ActionView::Simple(Action::RenameSection)
        } else if c == 'X' {
            ActionView::Simple(Action::RemoveSection)
        } else {
            ActionView::Simple(Action::Nothing)
        }
    }

    /// See `spec_repo_menu_action`.
    pub fn repo_menu_action(&self, c: char) -> (res: Action)
        requires
            self.inv(),
        ensures
            action_view(res) == self.spec_repo_menu_action(c),
    {
        let sel = self.selected_repo_idx();
        let (up, trunk) = match sel {
            Some(i) => if i < self.repos.len() {
                let r = &self.repos[i];
                let u = match &r.upstream {
                    Some(a) => copy(a.branch.as_str()),
                    None => String::new(),
                };
                let t = match &r.trunk {
                    Some(a) => copy(a.branch.as_str()),
                    None => String::new(),
                };
                (u, t)
            } else {
                (String::new(), String::new())
            },
            None => (String::new(), String::new()),
        };
        let has_up = up.as_str().unicode_len() > 0;
        let has_trunk = trunk.as_str().unicode_len() > 0;
        if c == 'f' {
            Action::Launch(OpRequest::Fetch)
        } else if c == 'p' {
            Action::Launch(OpRequest::Pull)
        } else if c == 'P' {
            Action::Launch(OpRequest::Push)
        } else if c == 'F' {
            Action::ConfirmForcePush
        } else if c == 'c' {
            Action::OpenBranchSelect
        } else if c == 'n' {
            Action::OpenNewBranchInput
        } else if c == 'h' {
            Action::OpenHistory(HistoryFilter::Full)
        } else if c == 'u' && has_up {
            Action::OpenHistory(HistoryFilter::AheadOf(up))
        } else if c == 'U' && has_up {
            Action::OpenHistory(HistoryFilter::BehindOf(up))
        } else if c == 't' && has_trunk {
            Action::OpenHistory(HistoryFilter::AheadOf(trunk))
        } else if c == 'T' && has_trunk {
            Action::OpenHistory(HistoryFilter::BehindOf(trunk))
        } else if c == 'u' || c == 'U' || c == 't' || c == 'T' {
            Action::CloseMenu
        } else if c == 'N' {
            Action::CreateSection
        } else if c == 'M' {
            Action::MoveRepoToSection
        } else if c == 'R' {
            Action::RenameSection
        } else if c == 'X' {
            Action::RemoveSection
        } else {
            Action::Nothing
        }
    }

    /// The action of a menu key letter in a file's action menu, for the file selected
    /// in the File Status pane: `s` stage, `u` unstage, `r` revert (resetting first for a
    /// conflict), `d` discard, `p` save a patch and revert, `P` apply the patch, `c`
    /// opens the commit message input and `a` the amend input; other letters do nothing.
    /// Without a selected file the menu is just closed.
    pub open spec fn spec_file_menu_action(&self, c: char) -> ActionView {
        let files = self.spec_selected_files();
        if self.file_status_selected >= files.len() {
            ActionView::Simple(Action::CloseMenu)
        } else {
            let f = files[self.file_status_selected as int];
            if c == 's' {
                ActionView::Launch(RequestView::StageFile(f.path@))
            } else if c == 'u' {
                ActionView::Launch(RequestView::UnstageFile(f.path@))
            } else if c == 'r' {
                ActionView::Launch(RequestView::RevertFile(f.path@, f.status == FileStatusKind::Conflict))
            } else if c == 'd' {
                ActionView::Launch(RequestView::DiscardFile(f.path@))
            } else if c == 'p' {
                ActionView::Launch(RequestView::SavePatchAndRevert(f.path@))
            } else if c == 'P' {
                ActionView::Launch(RequestView::ApplyPatch(f.path@))
            } else if c == 'c' {
                ActionView::Simple(Action::OpenCommitInput)
            } else if c == 'a' {
                ActionView::Simple(Action::OpenAmendInput)
            } else {
                ActionView::Simple(Action::Nothing)
            }
        }
    }

    /// See `spec_file_menu_action`.
    pub fn file_menu_action(&self, c: char) -> (res: Action)
        requires
            self.inv(),
        ensures
            action_view(res) == self.spec_file_menu_action(c),
    {
        let f = match self.selected_file_entry() {
            Some(f) => f,
            None => return Action::CloseMenu,
        };
        let p = copy(f.path.as_str());
        if c == 's' {
            Action::Launch(OpRequest::StageFile(p))
        } else if c == 'u' {
            Action::Launch(OpRequest::UnstageFile(p))
        } else if c == 'r' {
            Action::Launch(OpRequest::RevertFile { file_path: p, is_conflict: f.status == FileStatusKind::Conflict })
        } else if c == 'd' {
            Action::Launch(OpRequest::DiscardFile(p))
        } else if c == 'p' {
            Action::Launch(OpRequest::SavePatchAndRevert { file_path: p })
        } else if c == 'P' {
            Action::Launch(OpRequest::ApplyPatch { file_path: p })
        } else if c == 'c' {
            Action::OpenCommitInput
        } else if c == 'a' {
            Action::OpenAmendInput
        } else {
            Action::Nothing
        }
    }

    /// The action of a menu key letter in a branch's action menu, for the branch
    /// selected in the Branches pane: `c` checks it out (`origin/<name>` with tracking
    /// when remote-only), `h` shows its history, `u`/`U` and `t`/`T` its history ahead
    /// of / behind its upstream and trunk (nothing without one), `p` fast-forwards it
    /// to its upstream (`origin/<name>` without one), `n` opens the new-branch input
    /// based on it, `d` asks to delete it, `P` pushes it and `F` asks to force-push it.
    /// Without a selected branch the menu is just closed.
    pub open spec fn spec_branch_menu_action(&self, c: char) -> ActionView {
        if self.branches_pane_selected >= self.branch_info_list@.len() {
            ActionView::Simple(Action::CloseMenu)
        } else {
            let b = self.branch_info_list@[self.branches_pane_selected as int];
            let up = ab_branch(b.upstream);
            let trunk = ab_branch(b.trunk);
            if c == 'c' {
                if b.is_remote_only {
                    ActionView::Launch(RequestView::CheckoutBranch("origin/"@ + b.name@, true))
                } else {
                    ActionView::Launch(RequestView::CheckoutBranch(b.name@, false))
                }
            } else if c == 'h' {
                ActionView::OpenHistoryForBranch(FilterView::BranchFull(b.name@))
            } else if c == 'u' && up.len() > 0 {
                ActionView::OpenHistoryForBranch(FilterView::BranchAheadOf(b.name@, up))
            } else if c == 'U' && up.len() > 0 {
                ActionView::OpenHistoryForBranch(FilterView::BranchBehindOf(b.name@, up))
            } else if c == 't' && trunk.len() > 0 {
                ActionView::OpenHistoryForBranch(FilterView::BranchAheadOf(b.name@, trunk))
            } else if c == 'T' && trunk.len() > 0 {
                ActionView::OpenHistoryForBranch(FilterView::BranchBehindOf(b.name@, trunk))
            } else if c == 'u' || c == 'U' || c == 't' || c == 'T' {
                ActionView::Simple(Action::CloseMenu)
            } else if c == 'p' {
                ActionView::Launch(RequestView::PullBranch(
                    b.name@,
                    match b.upstream {
                        Some(u) => u.branch@,
                        None => "origin/"@ + b.name@,
                    },
                ))
            } else if c == 'n' {
                ActionView::OpenNewBranchFrom(b.name@)
            } else if c == 'd' {
                ActionView::Simple(Action::ConfirmDeleteBranch)
            } else if c == 'P' {
                ActionView::Launch(RequestView::PushBranch(b.name@))
            } else if c == 'F' {
                ActionView::ConfirmForcePushBranch(b.name@)
            } else {
                ActionView::Simple(Action::Nothing)
            }
        }
    }

    /// See `spec_branch_menu_action`.
    pub fn branch_menu_action(&self, c: char) -> (res: Action)
        ensures
            action_view(res) == self.spec_branch_menu_action(c),
    {
        if self.branches_pane_selected >= self.branch_info_list.len() {
            return Action::CloseMenu;
        }
        let b = &self.branch_info_list[self.branches_pane_selected];
        let up = match &b.upstream {
            Some(a) => copy(a.branch.as_str()),
            None => String::new(),
        };
        let trunk = match &b.trunk {
            Some(a) => copy(a.branch.as_str()),
            None => String::new(),
        };
        let has_up = up.as_str().unicode_len() > 0;
        let has_trunk = trunk.as_str().unicode_len() > 0;
        let name = copy(b.name.as_str());
        if c == 'c' {
            if b.is_remote_only {
                Action::Launch(OpRequest::CheckoutBranch { name: origin_ref(b.name.as_str()), is_remote: true })
            } else {
                Action::Launch(OpRequest::CheckoutBranch { name, is_remote: false })
            }
        } else if c == 'h' {
            Action::OpenHistoryForBranch(HistoryFilter::BranchFull(name))
        } else if c == 'u' && has_up {
            Action::OpenHistoryForBranch(HistoryFilter::BranchAheadOf { branch: name, of: up })
        } else if c == 'U' && has_up {
            Action::OpenHistoryForBranch(HistoryFilter::BranchBehindOf { branch: name, of: up })
        } else if c == 't' && has_trunk {
            Action::OpenHistoryForBranch(HistoryFilter::BranchAheadOf { branch: name, of: trunk })
        } else if c == 'T' && has_trunk {
            Action::OpenHistoryForBranch(HistoryFilter::BranchBehindOf { branch: name, of: trunk })
        } else if c == 'u' || c == 'U' || c == 't' || c == 'T' {
            Action::CloseMenu
        } else if c == 'p' {
            let upstream = match &b.upstream {
                Some(u) => copy(u.branch.as_str()),
                None => origin_ref(b.name.as_str()),
            };
            Action::Launch(OpRequest::PullBranch { name, upstream })
        } else if c == 'n' {
            Action::OpenNewBranchFrom(name)
        } else if c == 'd' {
            Action::ConfirmDeleteBranch
        } else if c == 'P' {
            Action::Launch(OpRequest::PushBranch { name })
        } else if c == 'F' {
            Action::ConfirmForcePushBranch(name)
        } else {
            Action::Nothing
        }
    }

    /// The action of a menu key letter in the log menu: `c` copies the log, `x` clears
    /// it.
    pub fn log_menu_action(&self, c: char) -> (res: Action)
        ensures
            action_view(res) == (if c == 'c' {
                ActionView::Simple(Action::CopyLog)
            } else if c == 'x' {
                ActionView::Simple(Action::ClearLog)
            } else {
                ActionView::Simple(Action::Nothing)
            }),
    {
        if c == 'c' {
            Action::CopyLog
        } else if c == 'x' {
            Action::ClearLog
        } else {
            Action::Nothing
        }
    }

    /// The action of a menu key letter in the commit menu of the History pane: `u`
    /// undoes the last commit.
    pub fn history_menu_action(&self, c: char) -> (res: Action)
        ensures
            action_view(res) == (if c == 'u' {
                ActionView::Launch(RequestView::UndoCommit)
            } else {
                ActionView::Simple(Action::Nothing)
            }),
    {
        if c == 'u' {
            Action::Launch(OpRequest::UndoCommit)
        } else {
            Action::Nothing
        }
    }

    /// The action of a key while the History pane is open: `h` closes it; with the
    /// History pane focused, Shift+Down or `.` and Shift+Up or `,` move between
    /// commits; Enter opens a menu only for Branches, Log, File Status or Repositories
    /// (not for the History and Details panes); everything else as in Normal mode.
    pub open spec fn spec_history_key_action(&self, key: Key, shift: bool) -> ActionView {
        if key == Key::Char('h') {
            ActionView::Simple(Action::CloseHistory)
        } else if self.focus == Focus::History && ((key == Key::Down && shift) || key == Key::Char('.')) {
            ActionView::Simple(Action::NextCommit)
        } else if self.focus == Focus::History && ((key == Key::Up && shift) || key == Key::Char(',')) {
            ActionView::Simple(Action::PreviousCommit)
        } else if key == Key::Enter && !(self.focus == Focus::Branches || (self.focus == Focus::Log && self.show_log)
            || (self.focus == Focus::FileStatus && self.show_file_status)) && self.focus != Focus::Repos {
            ActionView::Simple(Action::Nothing)
        } else {
            self.spec_normal_key_action(key)
        }
    }

    /// See `spec_history_key_action`.
    pub fn history_key_action(&self, key: Key, shift: bool) -> (res: Action)
        ensures
            action_view(res) == self.spec_history_key_action(key, shift),
    {
        if key == Key::Char('h') {
            Action::CloseHistory
        } else if self.focus == Focus::History && ((key == Key::Down && shift) || key == Key::Char('.')) {
            Action::NextCommit
        } else if self.focus == Focus::History && ((key == Key::Up && shift) || key == Key::Char(',')) {
            Action::PreviousCommit
        } else if key == Key::Enter && !(self.focus == Focus::Branches || (self.focus == Focus::Log && self.show_log)
            || (self.focus == Focus::FileStatus && self.show_file_status)) && self.focus != Focus::Repos {
            Action::Nothing
        } else {
            self.normal_key_action(key)
        }
    }

    /// Keys of the Normal and History modes go by the History pane's rules in History
    /// mode, and in Normal mode while the History pane is open and focused.
    pub open spec fn spec_uses_history_keys(&self) -> bool {
        self.mode == AppMode::History || (self.show_history && self.focus == Focus::History)
    }

    /// See `spec_uses_history_keys`.
    pub fn uses_history_keys(&self) -> (res: bool)
        ensures
            res == self.spec_uses_history_keys(),
    {
        self.mode == AppMode::History || (self.show_history && self.focus == Focus::History)
    }

    /// Enter on the focused History pane opens the commit menu.
    pub fn key_opens_history_menu(&self, key: Key) -> (res: bool)
        ensures
            res == (self.spec_uses_history_keys() && key == Key::Enter && self.focus == Focus::History),
    {
        self.uses_history_keys() && key == Key::Enter && self.focus == Focus::History
    }

    /// The action of a key in the Normal and History modes: by the History pane's
    /// rules where `spec_uses_history_keys` holds, by Normal mode's otherwise.
    pub fn pane_key_action(&self, key: Key, shift: bool) -> (res: Action)
        ensures
            action_view(res) == (if self.spec_uses_history_keys() {
                self.spec_history_key_action(key, shift)
            } else {
                self.spec_normal_key_action(key)
            }),
    {
        if self.uses_history_keys() {
            self.history_key_action(key, shift)
        } else {
            self.normal_key_action(key)
        }
    }

    /// The action of a key in the repository action menu: arrows and page keys move,
    /// Esc closes; Enter activates the highlighted item and a letter the item with that
    /// key — a custom repo command item runs its command, any other item acts as
    /// `repo_menu_action` of its key letter (a letter of no repo command is passed to
    /// `repo_menu_action` as well).
    pub open spec fn spec_menu_key_action(&self, key: Key) -> ActionView {
        let items = crate::app_menus::menu_view(self.menu_items@);
        match key {
            Key::Down => ActionView::Simple(Action::MenuNext),
            Key::Up => ActionView::Simple(Action::MenuPrevious),
            Key::PageDown => ActionView::Simple(Action::MenuNextPage),
            Key::PageUp => ActionView::Simple(Action::MenuPreviousPage),
            Key::Esc => ActionView::Simple(Action::CloseMenu),
            Key::Enter => if self.menu_selected < items.len() && !items[self.menu_selected as int].is_separator {
                item_action(self, items[self.menu_selected as int])
            } else {
                ActionView::Simple(Action::Nothing)
            },
            Key::Char(c) => match crate::order::first_index(items, command_key_is(c)) {
                Some(i) => item_action(self, items[i as int]),
                None => self.spec_repo_menu_action(c),
            },
            _ => ActionView::Simple(Action::Nothing),
        }
    }

    fn item_action_exec(&self, item: &crate::app::MenuItem) -> (res: Action)
        requires
            self.inv(),
        ensures
            action_view(res) == item_action(self, item@),
    {
        match &item.repo_cmd {
            Some((cmd, bg)) => Action::RunRepoCommand {
                name: copy(item.label.as_str()),
                cmd: copy(cmd.as_str()),
                background: *bg,
            },
            None => self.repo_menu_action(item.key),
        }
    }

    /// See `spec_menu_key_action`.
    pub fn menu_key_action(&self, key: Key) -> (res: Action)
        requires
            self.inv(),
        ensures
            action_view(res) == self.spec_menu_key_action(key),
    {
        let ghost items = crate::app_menus::menu_view(self.menu_items@);
        match key {
            Key::Down => Action::MenuNext,
            Key::Up => Action::MenuPrevious,
            Key::PageDown => Action::MenuNextPage,
            Key::PageUp => Action::MenuPreviousPage,
            Key::Esc => Action::CloseMenu,
            Key::Enter => {
                if self.menu_selected < self.menu_items.len() && !self.menu_items[self.menu_selected].is_separator {
                    assert(items[self.menu_selected as int] == self.menu_items@[self.menu_selected as int]@);
                    self.item_action_exec(&self.menu_items[self.menu_selected])
                } else {
                    Action::Nothing
                }
            },
            Key::Char(c) => {
                let mut i: usize = 0;
                assert(items.skip(0) =~= items);
                while i < self.menu_items.len()
                    invariant
                        self.inv(),
                        key == Key::Char(c),
                        items == crate::app_menus::menu_view(self.menu_items@),
                        i <= items.len(),
                        crate::order::first_index(items, command_key_is(c)) == (match crate::order::first_index(items.skip(i as int), command_key_is(c)) {
                            Some(j) => Some((j + i) as nat),
                            None => None::<nat>,
                        }),
                    decreases items.len() - i,
                {
                    assert(items.skip(i as int)[0] == items[i as int]);
                    assert(items[i as int] == self.menu_items@[i as int]@);
                    let m = &self.menu_items[i];
                    if !m.is_separator && m.key == c && m.repo_cmd.is_some() {
                        assert((command_key_is(c))(items.skip(i as int)[0]));
                        assert(crate::order::first_index(items.skip(i as int), command_key_is(c)) == Some(0nat));
                        return self.item_action_exec(m);
                    }
                    proof { crate::order::lemma_first_index_skip(items, command_key_is(c), i as int); }
                    i += 1;
                }
                assert(items.skip(i as int).len() == 0);
                self.repo_menu_action(c)
            },
            _ => Action::Nothing,
        }
    }

    /// The checkout Enter starts in the branch selection: the highlighted branch
    /// (`origin/<name>` with tracking when remote).
    pub fn branch_select_request(&self) -> (res: Option<OpRequest>)
        ensures
            self.branch_selected >= self.branch_items@.len() ==> res is None,
            self.branch_selected < self.branch_items@.len() ==> ({
                let b = self.branch_items@[self.branch_selected as int];
                res matches Some(r) && request_view(r) == (if b.is_remote {
                    RequestView::CheckoutBranch("origin/"@ + b.name@, true)
                } else {
                    RequestView::CheckoutBranch(b.name@, false)
                })
            }),
    {
        match self.selected_branch_item() {
            Some(b) => if b.is_remote {
                Some(OpRequest::CheckoutBranch { name: origin_ref(b.name.as_str()), is_remote: true })
            } else {
                Some(OpRequest::CheckoutBranch { name: copy(b.name.as_str()), is_remote: false })
            },
            None => None,
        }
    }

    /// The branch creation Enter starts in the new-branch input: the sanitised name,
    /// off HEAD or off the remembered base branch; none for an empty name.
    pub fn new_branch_request(&self) -> (res: Option<OpRequest>)
        ensures
            ({
                let name = crate::app_log::branch_chars(crate::text::spec_trim(self.branch_input@));
                &&& name.len() == 0 ==> res is None
                &&& name.len() > 0 && self.branch_input_base@.len() == 0 ==> (res matches Some(OpRequest::CreateBranch(n))
                    && n@ == name)
                &&& name.len() > 0 && self.branch_input_base@.len() > 0 ==> (res matches Some(
                    OpRequest::CreateBranchFrom { name: n, base },
                ) && n@ == name && base@ == self.branch_input_base@)
            }),
    {
        let name = self.sanitised_branch_name();
        if name.as_str().unicode_len() == 0 {
            return None;
        }
        if self.branch_input_base.as_str().unicode_len() == 0 {
            Some(OpRequest::CreateBranch(name))
        } else {
            Some(OpRequest::CreateBranchFrom { name, base: copy(self.branch_input_base.as_str()) })
        }
    }

    /// Record the result of an operation on `repo_path`: its activity ends; a failure
    /// is logged as an error (`'LABEL' failed in PATH`) and opens the log when hidden;
    /// each output line is logged as an Info line indented by two spaces (see
    /// `op_result_entries`).
    pub fn record_op_result(&mut self, repo_path: &str, op_label: &str, success: bool, lines: &Vec<String>)
        requires
            crate::app_log::ops_unique(old(self).operations@),
        ensures
            crate::app_log::ops_unique(final(self).operations@),
            crate::app_log::op_lookup(final(self).operations@, repo_path@) is None,
            forall|k: Seq<char>| k != repo_path@ ==> #[trigger] crate::app_log::op_lookup(final(self).operations@, k)
                == crate::app_log::op_lookup(old(self).operations@, k),
            crate::app_log::log_entries(final(self).log@) == crate::app_log::appended(
                crate::app_log::log_entries(old(self).log@),
                crate::app_log::op_result_entries(op_label@, repo_path@, success, strings_view(lines@)),
            ),
            forall|i: int| 0 <= i < final(self).log@.len() ==> crate::app::is_hms(#[trigger] final(self).log@[i].timestamp@)
                || old(self).log@.contains(final(self).log@[i]),
            final(self).show_log == (old(self).show_log || !success),
            (!success && !old(self).show_log) ==> final(self).focus == crate::app::Focus::Log && final(self).log_follow
                && final(self).log_offset == 0,
            !(!success && !old(self).show_log) ==> final(self).focus == old(self).focus && final(self).log_follow
                == old(self).log_follow && final(self).log_offset == old(self).log_offset,
            final(self).mode == old(self).mode,
            final(self).repos == old(self).repos,
            final(self).selected == old(self).selected,
            final(self).state.sections == old(self).state.sections,
    {
        self.end_operation(repo_path);
        log_op_result(&mut self.log, repo_path, op_label, success, lines);
        if !success && !self.show_log {
            self.toggle_log();
        }
    }
}

/// The log part of `record_op_result`.
fn log_op_result(log: &mut Vec<crate::app::LogLine>, repo_path: &str, op_label: &str, success: bool, lines: &Vec<String>)
    ensures
        crate::app_log::log_entries(final(log)@) == crate::app_log::appended(
            crate::app_log::log_entries(old(log)@),
            crate::app_log::op_result_entries(op_label@, repo_path@, success, strings_view(lines@)),
        ),
        forall|i: int| 0 <= i < final(log)@.len() ==> crate::app::is_hms(#[trigger] final(log)@[i].timestamp@)
            || old(log)@.contains(final(log)@[i]),
{
    let ghost e0 = crate::app_log::log_entries(log@);
    let ghost o = log@;
    let ghost err: Seq<(crate::app::LogLevel, Seq<char>)> = if success {
        Seq::empty()
    } else {
        seq![(crate::app::LogLevel::Error, "'"@ + op_label@ + "' failed in "@ + repo_path@)]
    };
    if !success {
        log_failure(log, repo_path, op_label);
    } else {
        assert(crate::app_log::appended(e0, err) == e0);
    }
    log_output(log, lines, Ghost(e0), Ghost(err), Ghost(o));
    assert(crate::app_log::op_result_entries(op_label@, repo_path@, success, strings_view(lines@))
        =~= err + strings_view(lines@).map_values(|l: Seq<char>| (crate::app::LogLevel::Info, "  "@ + l)));
}

/// Log `'LABEL' failed in PATH` as an error.
fn log_failure(log: &mut Vec<crate::app::LogLine>, repo_path: &str, op_label: &str)
    ensures
        crate::app_log::log_entries(final(log)@) == crate::app_log::appended(
            crate::app_log::log_entries(old(log)@),
            seq![(crate::app::LogLevel::Error, "'"@ + op_label@ + "' failed in "@ + repo_path@)],
        ),
        forall|j: int| 0 <= j < final(log)@.len() ==> crate::app::is_hms(#[trigger] final(log)@[j].timestamp@)
            || old(log)@.contains(final(log)@[j]),
{
    let mut msg = String::new();
    push_str(&mut msg, "'");
    push_str(&mut msg, op_label);
    push_str(&mut msg, "' failed in ");
    push_str(&mut msg, repo_path);
    let ghost before = log@;
    crate::app_log::push_log_line(log, crate::app::LogLevel::Error, msg.as_str());
    proof {
        crate::app_log::lemma_capped_elems(before, log@.last());
        crate::app_log::lemma_log_entries_push(before, log@.last());
        crate::app_log::lemma_appended_push(
            crate::app_log::log_entries(before),
            Seq::<(crate::app::LogLevel, Seq<char>)>::empty(),
            (crate::app::LogLevel::Error, msg@),
        );
        assert(Seq::<(crate::app::LogLevel, Seq<char>)>::empty().push((crate::app::LogLevel::Error, msg@))
            =~= seq![(crate::app::LogLevel::Error, "'"@ + op_label@ + "' failed in "@ + repo_path@)]);
    }
}

/// Log each output line as an Info line indented by two spaces, after the `prefix`
/// entries already appended to a log whose entries were `e0`.
fn log_output(
    log: &mut Vec<crate::app::LogLine>,
    lines: &Vec<String>,
    Ghost(e0): Ghost<Seq<(crate::app::LogLevel, Seq<char>)>>,
    Ghost(prefix): Ghost<Seq<(crate::app::LogLevel, Seq<char>)>>,
    Ghost(base): Ghost<Seq<crate::app::LogLine>>,
)
    requires
        crate::app_log::log_entries(old(log)@) == crate::app_log::appended(e0, prefix),
        forall|j: int| 0 <= j < old(log)@.len() ==> crate::app::is_hms(#[trigger] old(log)@[j].timestamp@)
            || base.contains(old(log)@[j]),
    ensures
        crate::app_log::log_entries(final(log)@) == crate::app_log::appended(
            e0,
            prefix + strings_view(lines@).map_values(|l: Seq<char>| (crate::app::LogLevel::Info, "  "@ + l)),
        ),
        forall|j: int| 0 <= j < final(log)@.len() ==> crate::app::is_hms(#[trigger] final(log)@[j].timestamp@)
            || base.contains(final(log)@[j]),
{
    let ghost lv = strings_view(lines@);
    let ghost mut added = prefix;
    let mut i: usize = 0;
    assert(prefix =~= prefix + lv.take(0).map_values(|l: Seq<char>| (crate::app::LogLevel::Info, "  "@ + l)));
    while i < lines.len()
        invariant
            lv == strings_view(lines@),
            i <= lines.len(),
            crate::app_log::log_entries(log@) == crate::app_log::appended(e0, added),
            added == prefix + lv.take(i as int).map_values(|l: Seq<char>| (crate::app::LogLevel::Info, "  "@ + l)),
            forall|j: int| 0 <= j < log@.len() ==> crate::app::is_hms(#[trigger] log@[j].timestamp@)
                || base.contains(log@[j]),
        decreases lines.len() - i,
    {
        let mut msg = String::new();
        push_str(&mut msg, "  ");
        push_str(&mut msg, lines[i].as_str());
        let ghost before = log@;
        crate::app_log::push_log_line(log, crate::app::LogLevel::Info, msg.as_str());
        proof {
            crate::app_log::lemma_capped_elems(before, log@.last());
            assert forall|j: int| 0 <= j < log@.len() implies crate::app::is_hms(#[trigger] log@[j].timestamp@)
                || base.contains(log@[j]) by {
                if log@[j] != log@.last() {
                    let k = choose|k: int| 0 <= k < before.len() && before[k] == log@[j];
                    assert(crate::app::is_hms(before[k].timestamp@) || base.contains(before[k]));
                }
            }
            crate::app_log::lemma_log_entries_push(before, log@.last());
            crate::app_log::lemma_appended_push(e0, added, (crate::app::LogLevel::Info, msg@));
            added = added.push((crate::app::LogLevel::Info, msg@));
            assert(lv.take(i + 1) =~= lv.take(i as int).push(lv[i as int]));
            assert(lv.take(i + 1).map_values(|l: Seq<char>| (crate::app::LogLevel::Info, "  "@ + l))
                =~= lv.take(i as int).map_values(|l: Seq<char>| (crate::app::LogLevel::Info, "  "@ + l)).push(
                (crate::app::LogLevel::Info, "  "@ + lv[i as int])));
            assert(added =~= prefix + lv.take(i + 1).map_values(|l: Seq<char>| (crate::app::LogLevel::Info, "  "@ + l)));
        }
        i += 1;
    }
    assert(lv.take(lines.len() as int) =~= lv);
}

} // verus!
