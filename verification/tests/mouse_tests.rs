//! What mouse events, help-overlay keys and confirmations mean.
use gitover::app::{App, AppMode, Focus, MenuItem};
use gitover::config::Config;
use gitover::keys::Key;
use gitover::mouse::{LastClick, MouseAction, MouseEv, MouseKind, MouseLayout};
use gitover::ops::OpRequest;
use gitover::panes::{Area, PaneAreas};
use gitover::state::State;

fn app() -> App {
    App::new_with(Config::default(), State::default())
}

fn area(x: u16, y: u16, width: u16, height: u16) -> Area {
    Area { x, y, width, height }
}

fn ev(kind: MouseKind, column: u16, row: u16) -> MouseEv {
    MouseEv { kind, column, row }
}

/// Repositories on rows 3..13, File Status below on rows 13..23.
fn panes() -> PaneAreas {
    PaneAreas {
        terminal: area(0, 0, 80, 24),
        repos: area(0, 3, 80, 10),
        branches: None,
        file_status: Some(area(0, 13, 80, 10)),
        history: None,
        log: None,
        details: None,
    }
}

fn layout() -> MouseLayout {
    MouseLayout { panes: Some(panes()), menu: area(10, 5, 20, 5), branch_select: area(20, 6, 30, 4), help: Some(area(5, 2, 40, 10)) }
}

#[test]
fn help_overlay_wheel_scrolls_and_outside_click_closes() {
    let mut a = app();
    a.mode = AppMode::HelpOverlay;
    assert_eq!(a.mouse_action(&ev(MouseKind::ScrollDown, 10, 5), &layout(), None, 0), MouseAction::ScrollHelp(false));
    assert_eq!(a.mouse_action(&ev(MouseKind::ScrollUp, 10, 5), &layout(), None, 0), MouseAction::ScrollHelp(true));
    assert_eq!(a.mouse_action(&ev(MouseKind::LeftDown, 10, 5), &layout(), None, 0), MouseAction::Nothing);
    assert_eq!(a.mouse_action(&ev(MouseKind::LeftDown, 70, 20), &layout(), None, 0), MouseAction::CloseHelp);
}

#[test]
fn menu_click_chooses_item_skips_separator_and_outside_closes() {
    let mut a = app();
    a.mode = AppMode::ActionMenu;
    a.menu_items = vec![MenuItem::item("Fetch", 'f'), MenuItem::separator(), MenuItem::item("Pull", 'p')];
    // Item rows start under the menu's top border (row 6).
    assert_eq!(a.mouse_action(&ev(MouseKind::LeftDown, 12, 6), &layout(), None, 0), MouseAction::ChooseMenuItem(0));
    assert_eq!(a.mouse_action(&ev(MouseKind::LeftDown, 12, 7), &layout(), None, 0), MouseAction::Nothing);
    assert_eq!(a.mouse_action(&ev(MouseKind::LeftDown, 12, 8), &layout(), None, 0), MouseAction::ChooseMenuItem(2));
    assert_eq!(a.mouse_action(&ev(MouseKind::LeftDown, 60, 6), &layout(), None, 0), MouseAction::CloseMenu);
    assert_eq!(a.mouse_action(&ev(MouseKind::LeftDown, 12, 5), &layout(), None, 0), MouseAction::CloseMenu);
    assert_eq!(a.mouse_action(&ev(MouseKind::ScrollDown, 12, 6), &layout(), None, 0), MouseAction::MoveMenu(false));
}

#[test]
fn branch_select_click_picks_the_row_in_view() {
    let mut a = app();
    a.mode = AppMode::BranchSelect;
    a.branch_items = Vec::new();
    assert_eq!(a.mouse_action(&ev(MouseKind::LeftDown, 25, 7), &layout(), None, 0), MouseAction::ChooseBranch(None));
    assert_eq!(a.mouse_action(&ev(MouseKind::LeftDown, 5, 7), &layout(), None, 0), MouseAction::CloseBranchSelect);
}

#[test]
fn click_focuses_pane_and_divider_starts_drag() {
    let a = app();
    // The Repositories pane's bottom border (row 12) is the divider.
    assert_eq!(a.mouse_action(&ev(MouseKind::LeftDown, 5, 12), &layout(), None, 0), MouseAction::StartDividerDrag);
    // No files are listed, so no row is selected in File Status.
    assert_eq!(
        a.mouse_action(&ev(MouseKind::LeftDown, 5, 15), &layout(), None, 0),
        MouseAction::Click { pane: Some(Focus::FileStatus), row: None }
    );
    assert_eq!(a.mouse_action(&ev(MouseKind::Moved, 5, 12), &layout(), None, 0), MouseAction::Hover(true));
    assert_eq!(a.mouse_action(&ev(MouseKind::Moved, 5, 11), &layout(), None, 0), MouseAction::Hover(false));
}

#[test]
fn double_click_opens_the_focused_pane_menu() {
    let mut a = app();
    a.focus = Focus::Repos;
    let last = Some(LastClick { at_ms: 1000, column: 5, row: 6 });
    assert_eq!(a.mouse_action(&ev(MouseKind::LeftDown, 5, 6), &layout(), last, 1200), MouseAction::OpenRepoMenu);
    // Too late, or elsewhere: a single click.
    assert!(matches!(a.mouse_action(&ev(MouseKind::LeftDown, 5, 6), &layout(), last, 1400), MouseAction::Click { .. }));
    assert!(matches!(a.mouse_action(&ev(MouseKind::LeftDown, 6, 6), &layout(), last, 1200), MouseAction::Click { .. }));
    a.focus = Focus::FileStatus;
    assert_eq!(a.mouse_action(&ev(MouseKind::LeftDown, 5, 6), &layout(), last, 1200), MouseAction::OpenFileMenu);
    assert!(MouseAction::OpenFileMenu.is_click());
    assert!(!MouseAction::Hover(true).is_click());
}

#[test]
fn wheel_focuses_the_pane_under_the_mouse() {
    let a = app();
    assert_eq!(
        a.mouse_action(&ev(MouseKind::ScrollDown, 5, 15), &layout(), None, 0),
        MouseAction::Scroll { pane: Some(Focus::FileStatus), up: false }
    );
    assert_eq!(
        a.mouse_action(&ev(MouseKind::ScrollUp, 5, 5), &layout(), None, 0),
        MouseAction::Scroll { pane: Some(Focus::Repos), up: true }
    );
}

#[test]
fn dragging_the_divider_resizes_repositories() {
    let mut a = app();
    a.dragging_repos_divider = true;
    assert_eq!(
        a.mouse_action(&ev(MouseKind::LeftUp, 5, 9), &layout(), None, 0),
        MouseAction::ResizeRepos { height: Some(7), stop: true }
    );
    a.dragging_repos_divider = false;
    assert_eq!(a.mouse_action(&ev(MouseKind::LeftDrag, 5, 9), &layout(), None, 0), MouseAction::Nothing);
}

#[test]
fn help_keys_scroll_within_bounds_and_close() {
    let mut a = app();
    a.mode = AppMode::HelpOverlay;
    a.help_overlay_max_scroll = 12;
    a.help_key(Key::PageDown);
    assert_eq!(a.help_overlay_scroll, 10);
    a.help_key(Key::PageDown);
    assert_eq!(a.help_overlay_scroll, 12);
    a.help_key(Key::Up);
    assert_eq!(a.help_overlay_scroll, 11);
    a.help_key(Key::PageUp);
    assert_eq!(a.help_overlay_scroll, 1);
    a.help_key(Key::Char('x'));
    assert_eq!(a.help_overlay_scroll, 1);
    a.help_key(Key::Char('?'));
    assert_eq!(a.help_overlay_scroll, 0);
    assert_eq!(a.mode, AppMode::Normal);
}

#[test]
fn confirmation_prompts_name_their_operation() {
    let mut a = app();
    a.mode = AppMode::ConfirmForcePush;
    assert!(matches!(a.confirmed_request(), Some(OpRequest::ForcePush)));
    a.mode = AppMode::ConfirmDeleteLocalBranch;
    a.branch_to_delete = "old".to_string();
    assert!(matches!(a.confirmed_request(), Some(OpRequest::DeleteBranch(n)) if n == "old"));
    a.mode = AppMode::ConfirmForcePushBranch;
    a.branch_to_force_push = "topic".to_string();
    assert!(matches!(a.confirmed_request(), Some(OpRequest::ForcePushBranch { name }) if name == "topic"));
    a.mode = AppMode::Normal;
    assert!(a.confirmed_request().is_none());
}
