//! What a mouse event means in each state of the application, and the keys of the help
//! overlay and of the confirmation prompts.  The application reads the terminal's
//! events, converts them to `MouseEv`, and carries out the `MouseAction`.
use vstd::prelude::*;
use crate::app::{App, AppMode, Focus, history_rows};
use crate::keys::Key;
use crate::ops::OpRequest;
use crate::panes::{
    Area, PaneAreas, dragged_height, is_double_click, on_divider, pane_at, row_under, spec_contains,
    spec_double_click, spec_dragged_height, spec_on_divider, spec_pane_at, spec_row_under,
};

verus! {

/// The kinds of mouse event the application tells apart (left button only).
#[derive(Debug, Clone, Copy, PartialEq, Eq, Structural)]
pub enum MouseKind {
    LeftDown,
    LeftDrag,
    LeftUp,
    Moved,
    ScrollUp,
    ScrollDown,
    Other,
}

/// A mouse event at a terminal cell.
#[derive(Debug, Clone, Copy, PartialEq, Eq, Structural)]
pub struct MouseEv {
    pub kind: MouseKind,
    pub column: u16,
    pub row: u16,
}

/// Where things were on the last drawn screen.
#[derive(Debug, Clone, Copy)]
pub struct MouseLayout {
    /// The panes, once a screen has been drawn.
    pub panes: Option<PaneAreas>,
    /// The open action menu's rectangle.
    pub menu: Area,
    /// The rows of the branch-select popup, inside its border.
    pub branch_select: Area,
    /// The help overlay's rectangle, once drawn.
    pub help: Option<Area>,
}

/// The previous left click: when (milliseconds) and where (column, row).
#[derive(Debug, Clone, Copy, PartialEq, Eq, Structural)]
pub struct LastClick {
    pub at_ms: u64,
    pub column: u16,
    pub row: u16,
}

/// What the application does in answer to a mouse event.
#[derive(Debug, Clone, Copy, PartialEq, Eq, Structural)]
pub enum MouseAction {
    Nothing,
    /// Scroll the help overlay up (`true`) or down.
    ScrollHelp(bool),
    /// Close the help overlay.
    CloseHelp,
    /// Select this menu item and activate it, as `Enter` does.
    ChooseMenuItem(usize),
    CloseMenu,
    /// Move the menu selection up (`true`) or down.
    MoveMenu(bool),
    /// Select this branch (when given) and confirm the branch selection, as `Enter`
    /// does.
    ChooseBranch(Option<usize>),
    CloseBranchSelect,
    /// Start dragging the divider under the Repositories pane.
    StartDividerDrag,
    /// Give Repositories this height (when given) while dragging; `stop` ends the drag.
    ResizeRepos { height: Option<u16>, stop: bool },
    /// Whether the pointer rests on the divider.
    Hover(bool),
    /// A single click: focus this pane (when one is under the mouse) and select the
    /// data row clicked in it (when one is).
    Click { pane: Option<Focus>, row: Option<usize> },
    /// A double click on the Repositories pane: open the repository action menu.
    OpenRepoMenu,
    /// A double click on the File Status pane: open the file action menu.
    OpenFileMenu,
    /// A double click on another pane: nothing happens beyond recording it.
    DoubleClickIgnored,
    /// The wheel: focus the pane under the mouse (when one is), then move the selection
    /// up (`true`) or down.
    Scroll { pane: Option<Focus>, up: bool },
}

impl MouseAction {
    /// Whether the action comes from a left click on the panes, which the application
    /// records to tell a double click.
    pub open spec fn spec_is_click(self) -> bool {
        self is Click || self is OpenRepoMenu || self is OpenFileMenu || self is DoubleClickIgnored
    }

    /// See `spec_is_click`.
    pub fn is_click(&self) -> (res: bool)
        ensures
            res == self.spec_is_click(),
    {
        match self {
            MouseAction::Click { .. } | MouseAction::OpenRepoMenu | MouseAction::OpenFileMenu
            | MouseAction::DoubleClickIgnored => true,
            _ => false,
        }
    }
}

/// Whether `m` is one of the action-menu modes.
pub open spec fn is_menu_mode(m: AppMode) -> bool {
    m == AppMode::ActionMenu || m == AppMode::FileActionMenu || m == AppMode::BranchActionMenu
        || m == AppMode::LogActionMenu || m == AppMode::HistoryActionMenu
}

/// The first branch shown by the branch-select popup, `visible` rows tall, with
/// `selected` kept on screen.
pub open spec fn branch_window_start(selected: usize, visible: u16) -> int {
    if selected >= visible { selected + 1 - visible } else { 0 }
}

/// The help overlay's scroll offset `s` moved `step` lines up (towards 0) or down
/// (towards `max`).
pub open spec fn help_scrolled(s: usize, max: usize, up: bool, step: usize) -> usize {
    if up {
        if s >= step { (s - step) as usize } else { 0 }
    } else if s + step < max {
        (s + step) as usize
    } else {
        max
    }
}

/// The keys that scroll the help overlay: whether up, and by how many lines.
pub open spec fn help_scroll_key(k: Key) -> Option<(bool, usize)> {
    match k {
        Key::Down => Some((false, 1usize)),
        Key::Up => Some((true, 1usize)),
        Key::PageDown => Some((false, 10usize)),
        Key::PageUp => Some((true, 10usize)),
        _ => None,
    }
}

/// The keys that close the help overlay.
pub open spec fn help_closing_key(k: Key) -> bool {
    k == Key::Esc || k == Key::Enter || k == Key::Char('?')
}

/// See `help_scroll_key` and `help_closing_key`.
fn help_key_kind(k: Key) -> (res: (Option<(bool, usize)>, bool))
    ensures
        res.0 == help_scroll_key(k),
        res.1 == help_closing_key(k),
{
    match k {
        Key::Down => (Some((false, 1)), false),
        Key::Up => (Some((true, 1)), false),
        Key::PageDown => (Some((false, 10)), false),
        Key::PageUp => (Some((true, 10)), false),
        Key::Esc | Key::Enter => (None, true),
        Key::Char(c) => (None, c == '?'),
        _ => (None, false),
    }
}

/// The previous click's time and position, as `spec_double_click` takes them.
pub open spec fn last_ms(last: Option<LastClick>) -> Option<u64> {
    match last {
        Some(c) => Some(c.at_ms),
        None => None,
    }
}

pub open spec fn last_pos(last: Option<LastClick>) -> Option<(u16, u16)> {
    match last {
        Some(c) => Some((c.column, c.row)),
        None => None,
    }
}

impl App {
    /// The data row clicked in `pane`: File Status and History rows start right under
    /// the top border, Branches and Repositories rows under a header line; each list is
    /// scrolled by its pane's offset.
    pub open spec fn spec_clicked_row(&self, p: PaneAreas, pane: Focus, row: u16) -> Option<usize> {
        match pane {
            Focus::FileStatus => match p.file_status {
                Some(a) => spec_row_under(a, row, 0, self.file_status_scroll, self.spec_selected_files().len() as usize),
                None => None,
            },
            Focus::History => match p.history {
                Some(a) => spec_row_under(a, row, 0, self.history_scroll, history_rows(self.history@) as usize),
                None => None,
            },
            Focus::Branches => match p.branches {
                Some(a) => spec_row_under(a, row, 1, self.branches_pane_scroll, self.branch_info_list@.len() as usize),
                None => None,
            },
            Focus::Repos => spec_row_under(p.repos, row, 1, self.table_offset, self.rows().len() as usize),
            _ => None,
        }
    }

    /// A left click on the panes (in Normal or History mode, off the divider): a double
    /// click on Repositories or File Status opens its action menu; otherwise a single
    /// click focuses the pane under the mouse and selects the row clicked.
    pub open spec fn spec_pane_click(&self, p: PaneAreas, ev: MouseEv, last: Option<LastClick>, now_ms: u64) -> MouseAction {
        if spec_double_click(last_ms(last), last_pos(last), now_ms, (ev.column, ev.row)) {
            if self.focus == Focus::Repos {
                MouseAction::OpenRepoMenu
            } else if self.focus == Focus::FileStatus {
                MouseAction::OpenFileMenu
            } else {
                MouseAction::DoubleClickIgnored
            }
        } else {
            match spec_pane_at(p, ev.column, ev.row) {
                Some(f) => MouseAction::Click { pane: Some(f), row: self.spec_clicked_row(p, f, ev.row) },
                None => MouseAction::Click { pane: None, row: None },
            }
        }
    }

    /// What a mouse event means:
    /// - over the help overlay, the wheel scrolls it and a click outside it closes it;
    /// - in an action menu, a click on a selectable item activates it, a click on a
    ///   separator does nothing, a click outside the item rows closes the menu, and the
    ///   wheel moves the selection;
    /// - in the branch-select popup, a click on a row chooses that branch, a click
    ///   outside closes the popup;
    /// - in Normal and History mode, a click on the divider under Repositories starts
    ///   dragging it, dragging and releasing resize Repositories, moving shows whether
    ///   the pointer rests on the divider, the wheel focuses the pane under the mouse
    ///   and moves its selection, and other clicks are pane clicks (`spec_pane_click`);
    /// - anything else does nothing.
    pub open spec fn spec_mouse_action(&self, ev: MouseEv, layout: MouseLayout, last: Option<LastClick>, now_ms: u64) -> MouseAction {
        let normal = self.mode == AppMode::Normal || self.mode == AppMode::History;
        if self.mode == AppMode::HelpOverlay {
            match ev.kind {
                MouseKind::ScrollUp => MouseAction::ScrollHelp(true),
                MouseKind::ScrollDown => MouseAction::ScrollHelp(false),
                MouseKind::LeftDown => if (match layout.help {
                    Some(a) => spec_contains(a, ev.column, ev.row),
                    None => false,
                }) {
                    MouseAction::Nothing
                } else {
                    MouseAction::CloseHelp
                },
                _ => MouseAction::Nothing,
            }
        } else if is_menu_mode(self.mode) {
            match ev.kind {
                MouseKind::LeftDown => match spec_row_under(layout.menu, ev.row, 0, self.menu_scroll, self.menu_items@.len() as usize) {
                    Some(i) => if !spec_contains(layout.menu, ev.column, ev.row) {
                        MouseAction::CloseMenu
                    } else if self.menu_items@[i as int].is_separator {
                        MouseAction::Nothing
                    } else {
                        MouseAction::ChooseMenuItem(i)
                    },
                    None => MouseAction::CloseMenu,
                },
                MouseKind::ScrollUp => MouseAction::MoveMenu(true),
                MouseKind::ScrollDown => MouseAction::MoveMenu(false),
                _ => MouseAction::Nothing,
            }
        } else if self.mode == AppMode::BranchSelect {
            match ev.kind {
                MouseKind::LeftDown => if spec_contains(layout.branch_select, ev.column, ev.row) {
                    let i = branch_window_start(self.branch_selected, layout.branch_select.height) + (ev.row - layout.branch_select.y);
                    MouseAction::ChooseBranch(if i < self.branch_items@.len() { Some(i as usize) } else { None })
                } else {
                    MouseAction::CloseBranchSelect
                },
                _ => MouseAction::Nothing,
            }
        } else if !normal {
            MouseAction::Nothing
        } else {
            match layout.panes {
                None => match ev.kind {
                    MouseKind::LeftDown => self.spec_pane_click_without_panes(ev, last, now_ms),
                    MouseKind::Moved => MouseAction::Hover(false),
                    MouseKind::ScrollUp => MouseAction::Scroll { pane: None, up: true },
                    MouseKind::ScrollDown => MouseAction::Scroll { pane: None, up: false },
                    MouseKind::LeftDrag | MouseKind::LeftUp => if self.dragging_repos_divider {
                        MouseAction::ResizeRepos { height: None, stop: ev.kind == MouseKind::LeftUp }
                    } else {
                        MouseAction::Nothing
                    },
                    MouseKind::Other => MouseAction::Nothing,
                },
                Some(p) => match ev.kind {
                    MouseKind::LeftDown => if spec_on_divider(p, ev.row) {
                        MouseAction::StartDividerDrag
                    } else {
                        self.spec_pane_click(p, ev, last, now_ms)
                    },
                    MouseKind::LeftDrag | MouseKind::LeftUp => if self.dragging_repos_divider {
                        MouseAction::ResizeRepos { height: spec_dragged_height(p, ev.row), stop: ev.kind == MouseKind::LeftUp }
                    } else {
                        MouseAction::Nothing
                    },
                    MouseKind::Moved => MouseAction::Hover(spec_on_divider(p, ev.row)),
                    MouseKind::ScrollUp => MouseAction::Scroll { pane: spec_pane_at(p, ev.column, ev.row), up: true },
                    MouseKind::ScrollDown => MouseAction::Scroll { pane: spec_pane_at(p, ev.column, ev.row), up: false },
                    MouseKind::Other => MouseAction::Nothing,
                },
            }
        }
    }

    /// A left click before any screen was drawn: only a double click can mean
    /// something.
    pub open spec fn spec_pane_click_without_panes(&self, ev: MouseEv, last: Option<LastClick>, now_ms: u64) -> MouseAction {
        if spec_double_click(last_ms(last), last_pos(last), now_ms, (ev.column, ev.row)) {
            if self.focus == Focus::Repos {
                MouseAction::OpenRepoMenu
            } else if self.focus == Focus::FileStatus {
                MouseAction::OpenFileMenu
            } else {
                MouseAction::DoubleClickIgnored
            }
        } else {
            MouseAction::Click { pane: None, row: None }
        }
    }

    fn clicked_row(&self, p: &PaneAreas, pane: Focus, row: u16) -> (res: Option<usize>)
        requires
            self.inv(),
        ensures
            res == self.spec_clicked_row(*p, pane, row),
    {
        match pane {
            Focus::FileStatus => match &p.file_status {
                Some(a) => row_under(a, row, 0, self.file_status_scroll, self.selected_files().len()),
                None => None,
            },
            Focus::History => match &p.history {
                Some(a) => row_under(a, row, 0, self.history_scroll, self.history_row_count()),
                None => None,
            },
            Focus::Branches => match &p.branches {
                Some(a) => row_under(a, row, 1, self.branches_pane_scroll, self.branch_info_list.len()),
                None => None,
            },
            Focus::Repos => row_under(&p.repos, row, 1, self.table_offset, self.visible_rows().len()),
            _ => None,
        }
    }

    fn double_click_action(&self) -> (res: MouseAction)
        ensures
            res == (if self.focus == Focus::Repos {
                MouseAction::OpenRepoMenu
            } else if self.focus == Focus::FileStatus {
                MouseAction::OpenFileMenu
            } else {
                MouseAction::DoubleClickIgnored
            }),
    {
        match self.focus {
            Focus::Repos => MouseAction::OpenRepoMenu,
            Focus::FileStatus => MouseAction::OpenFileMenu,
            _ => MouseAction::DoubleClickIgnored,
        }
    }

    /// See `spec_mouse_action`.
    pub fn mouse_action(&self, ev: &MouseEv, layout: &MouseLayout, last: Option<LastClick>, now_ms: u64) -> (res: MouseAction)
        requires
            self.inv(),
        ensures
            res == self.spec_mouse_action(*ev, *layout, last, now_ms),
    {
        let normal = self.mode == AppMode::Normal || self.mode == AppMode::History;
        if self.mode == AppMode::HelpOverlay {
            return match ev.kind {
                MouseKind::ScrollUp => MouseAction::ScrollHelp(true),
                MouseKind::ScrollDown => MouseAction::ScrollHelp(false),
                MouseKind::LeftDown => {
                    let inside = match &layout.help {
                        Some(a) => crate::panes::area_contains(a, ev.column, ev.row),
                        None => false,
                    };
                    if inside { MouseAction::Nothing } else { MouseAction::CloseHelp }
                },
                _ => MouseAction::Nothing,
            };
        }
        let menu_mode = self.mode == AppMode::ActionMenu || self.mode == AppMode::FileActionMenu
            || self.mode == AppMode::BranchActionMenu || self.mode == AppMode::LogActionMenu
            || self.mode == AppMode::HistoryActionMenu;
        if menu_mode {
            return match ev.kind {
                MouseKind::LeftDown => match row_under(&layout.menu, ev.row, 0, self.menu_scroll, self.menu_items.len()) {
                    Some(i) => if !crate::panes::area_contains(&layout.menu, ev.column, ev.row) {
                        MouseAction::CloseMenu
                    } else if self.menu_items[i].is_separator {
                        MouseAction::Nothing
                    } else {
                        MouseAction::ChooseMenuItem(i)
                    },
                    None => MouseAction::CloseMenu,
                },
                MouseKind::ScrollUp => MouseAction::MoveMenu(true),
                MouseKind::ScrollDown => MouseAction::MoveMenu(false),
                _ => MouseAction::Nothing,
            };
        }
        if self.mode == AppMode::BranchSelect {
            return match ev.kind {
                MouseKind::LeftDown => if crate::panes::area_contains(&layout.branch_select, ev.column, ev.row) {
                    let visible = layout.branch_select.height;
                    let start: usize = if self.branch_selected >= visible as usize {
                        self.branch_selected - visible as usize + 1
                    } else {
                        0
                    };
                    let off = (ev.row - layout.branch_select.y) as usize;
                    let chosen = if start < self.branch_items.len() && off < self.branch_items.len() - start {
                        Some(start + off)
                    } else {
                        None
                    };
                    MouseAction::ChooseBranch(chosen)
                } else {
                    MouseAction::CloseBranchSelect
                },
                _ => MouseAction::Nothing,
            };
        }
        if !normal {
            return MouseAction::Nothing;
        }
        let pos = (ev.column, ev.row);
        let (last_at, last_at_pos) = match last {
            Some(c) => (Some(c.at_ms), Some((c.column, c.row))),
            None => (None, None),
        };
        match &layout.panes {
            None => match ev.kind {
                MouseKind::LeftDown => if is_double_click(last_at, last_at_pos, now_ms, pos) {
                    self.double_click_action()
                } else {
                    MouseAction::Click { pane: None, row: None }
                },
                MouseKind::Moved => MouseAction::Hover(false),
                MouseKind::ScrollUp => MouseAction::Scroll { pane: None, up: true },
                MouseKind::ScrollDown => MouseAction::Scroll { pane: None, up: false },
                MouseKind::LeftDrag | MouseKind::LeftUp => if self.dragging_repos_divider {
                    MouseAction::ResizeRepos { height: None, stop: ev.kind == MouseKind::LeftUp }
                } else {
                    MouseAction::Nothing
                },
                MouseKind::Other => MouseAction::Nothing,
            },
            Some(p) => match ev.kind {
                MouseKind::LeftDown => if on_divider(p, ev.row) {
                    MouseAction::StartDividerDrag
                } else if is_double_click(last_at, last_at_pos, now_ms, pos) {
                    self.double_click_action()
                } else {
                    match pane_at(p, ev.column, ev.row) {
                        Some(f) => MouseAction::Click { pane: Some(f), row: self.clicked_row(p, f, ev.row) },
                        None => MouseAction::Click { pane: None, row: None },
                    }
                },
                MouseKind::LeftDrag | MouseKind::LeftUp => if self.dragging_repos_divider {
                    MouseAction::ResizeRepos { height: dragged_height(p, ev.row), stop: ev.kind == MouseKind::LeftUp }
                } else {
                    MouseAction::Nothing
                },
                MouseKind::Moved => MouseAction::Hover(on_divider(p, ev.row)),
                MouseKind::ScrollUp => MouseAction::Scroll { pane: pane_at(p, ev.column, ev.row), up: true },
                MouseKind::ScrollDown => MouseAction::Scroll { pane: pane_at(p, ev.column, ev.row), up: false },
                MouseKind::Other => MouseAction::Nothing,
            },
        }
    }

    /// Scroll the help overlay by `step` lines, up or down, within
    /// `0..=help_overlay_max_scroll`.
    pub fn scroll_help(&mut self, up: bool, step: usize)
        ensures
            *final(self) == (App {
                help_overlay_scroll: help_scrolled(old(self).help_overlay_scroll, old(self).help_overlay_max_scroll, up, step),
                ..*old(self)
            }),
    {
        if up {
            self.help_overlay_scroll = if self.help_overlay_scroll >= step { self.help_overlay_scroll - step } else { 0 };
        } else {
            let max = self.help_overlay_max_scroll;
            self.help_overlay_scroll = if self.help_overlay_scroll < max && step < max - self.help_overlay_scroll {
                self.help_overlay_scroll + step
            } else {
                max
            };
        }
    }

    /// Close the help overlay: back to the base mode, scrolled to the top for next time.
    pub fn close_help(&mut self)
        ensures
            *final(self) == (App { help_overlay_scroll: 0, mode: old(self).base_mode(), ..*old(self) }),
    {
        self.help_overlay_scroll = 0;
        self.restore_base_mode();
    }

    /// A key on the help overlay: `Down`/`Up` scroll by one line, `PageDown`/`PageUp`
    /// by ten (see `help_scroll_key`), `Esc`, `Enter` and `?` close it; other keys do
    /// nothing.
    pub fn help_key(&mut self, key: Key)
        ensures
            help_scroll_key(key) matches Some((up, step)) ==> *final(self) == (App {
                help_overlay_scroll: help_scrolled(old(self).help_overlay_scroll, old(self).help_overlay_max_scroll, up, step),
                ..*old(self)
            }),
            help_closing_key(key) ==> *final(self) == (App { help_overlay_scroll: 0, mode: old(self).base_mode(), ..*old(self) }),
            help_scroll_key(key) is None && !help_closing_key(key) ==> *final(self) == *old(self),
    {
        let (scroll, closing) = help_key_kind(key);
        match scroll {
            Some((up, step)) => self.scroll_help(up, step),
            None => if closing {
                self.close_help();
            },
        }
    }

    /// Select menu item `i` (before activating it).
    pub fn choose_menu_item(&mut self, i: usize)
        ensures
            *final(self) == (App { menu_selected: i, ..*old(self) }),
    {
        self.menu_selected = i;
    }

    /// Select branch `i` of the branch-select popup (before confirming it).
    pub fn choose_branch(&mut self, i: usize)
        ensures
            *final(self) == (App { branch_selected: i, ..*old(self) }),
    {
        self.branch_selected = i;
    }

    /// The operation a confirmation prompt asks for when answered yes: a force push, a
    /// force push of the branch named in `branch_to_force_push`, or deleting the branch
    /// named in `branch_to_delete`; none in any other mode.
    pub fn confirmed_request(&self) -> (res: Option<OpRequest>)
        ensures
            self.mode == AppMode::ConfirmForcePush ==> res matches Some(OpRequest::ForcePush),
            self.mode == AppMode::ConfirmForcePushBranch ==> (res matches Some(OpRequest::ForcePushBranch { name })
                && name@ == self.branch_to_force_push@),
            self.mode == AppMode::ConfirmDeleteLocalBranch ==> (res matches Some(OpRequest::DeleteBranch(name))
                && name@ == self.branch_to_delete@),
            !(self.mode == AppMode::ConfirmForcePush || self.mode == AppMode::ConfirmForcePushBranch
                || self.mode == AppMode::ConfirmDeleteLocalBranch) ==> res is None,
    {
        match self.mode {
            AppMode::ConfirmForcePush => Some(OpRequest::ForcePush),
            AppMode::ConfirmForcePushBranch => Some(OpRequest::ForcePushBranch {
                name: crate::text::string_from_chars(crate::text::chars_of(self.branch_to_force_push.as_str()).as_slice()),
            }),
            AppMode::ConfirmDeleteLocalBranch => Some(OpRequest::DeleteBranch(
                crate::text::string_from_chars(crate::text::chars_of(self.branch_to_delete.as_str()).as_slice()),
            )),
            _ => None,
        }
    }
}

} // verus!
