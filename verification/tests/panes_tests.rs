//! How the panes share the screen and what a mouse position refers to.
use gitover::app::Focus;
use gitover::panes::{
    area_contains, details_width, dragged_height, is_double_click, on_divider, pane_at, pane_slots, row_under, Area,
    PaneAreas, Slot,
};

fn rect(x: u16, y: u16, width: u16, height: u16) -> Area {
    Area { x, y, width, height }
}

fn screen() -> PaneAreas {
    PaneAreas {
        terminal: rect(0, 0, 100, 40),
        repos: rect(0, 3, 100, 13),
        branches: None,
        file_status: Some(rect(0, 16, 50, 12)),
        history: None,
        log: Some(rect(0, 28, 100, 12)),
        details: Some(rect(50, 16, 50, 12)),
    }
}

#[test]
fn slots_share_rows_equally_with_remainder_to_repos() {
    let v = pane_slots(40, true, false, true, None);
    assert_eq!(v, vec![Slot::Length(3), Slot::Length(13), Slot::Length(12), Slot::Length(12)]);
}

#[test]
fn slots_give_everything_to_repos_without_open_panes() {
    assert_eq!(pane_slots(40, false, false, false, None), vec![Slot::Length(3), Slot::Length(37)]);
    assert_eq!(pane_slots(2, false, false, false, None), vec![Slot::Length(3), Slot::Length(0)]);
}

#[test]
fn slots_with_dragged_height_fill_the_rest() {
    let v = pane_slots(40, true, true, false, Some(30));
    assert_eq!(v, vec![Slot::Length(3), Slot::Length(30), Slot::Fill, Slot::Fill]);
    let clamped = pane_slots(40, true, true, true, Some(2));
    assert_eq!(clamped[1], Slot::Length(4));
}

#[test]
fn details_width_is_half_and_clamped() {
    assert_eq!(details_width(100, None), 50);
    assert_eq!(details_width(100, Some(95)), 85);
    assert_eq!(details_width(100, Some(3)), 15);
    assert_eq!(details_width(20, None), 15);
}

#[test]
fn rows_under_mouse_skip_borders_and_header() {
    let a = rect(0, 3, 100, 13);
    assert_eq!(row_under(&a, 3, 1, 0, 50), None);
    assert_eq!(row_under(&a, 4, 1, 0, 50), None);
    assert_eq!(row_under(&a, 5, 1, 0, 50), Some(0));
    assert_eq!(row_under(&a, 7, 1, 10, 50), Some(12));
    assert_eq!(row_under(&a, 15, 1, 0, 50), None);
    assert_eq!(row_under(&a, 7, 1, 0, 2), None);
    assert_eq!(row_under(&a, 7, 0, 0, 10), Some(3));
}

#[test]
fn pane_at_prefers_smaller_panes() {
    let p = screen();
    assert_eq!(pane_at(&p, 10, 20), Some(Focus::FileStatus));
    assert_eq!(pane_at(&p, 60, 20), Some(Focus::Details));
    assert_eq!(pane_at(&p, 10, 30), Some(Focus::Log));
    assert_eq!(pane_at(&p, 10, 5), Some(Focus::Repos));
    assert_eq!(pane_at(&p, 10, 1), None);
    assert!(area_contains(&p.repos, 99, 15));
    assert!(!area_contains(&p.repos, 100, 15));
}

#[test]
fn double_click_needs_same_place_and_short_gap() {
    assert!(is_double_click(Some(1000), Some((4, 5)), 1200, (4, 5)));
    assert!(!is_double_click(Some(1000), Some((4, 5)), 1300, (4, 5)));
    assert!(!is_double_click(Some(1000), Some((4, 6)), 1100, (4, 5)));
    assert!(!is_double_click(None, None, 10, (4, 5)));
    assert!(is_double_click(Some(2000), Some((1, 1)), 1500, (1, 1)));
}

#[test]
fn divider_is_bottom_border_of_repos_when_panes_below() {
    let p = screen();
    assert!(on_divider(&p, 15));
    assert!(!on_divider(&p, 14));
    let alone = PaneAreas { file_status: None, log: None, details: None, ..p };
    assert!(!on_divider(&alone, 15));
    assert_eq!(dragged_height(&alone, 20), None);
}

#[test]
fn dragging_divider_sets_clamped_height() {
    let p = screen();
    assert_eq!(dragged_height(&p, 20), Some(18));
    assert_eq!(dragged_height(&p, 3), Some(4));
    assert_eq!(dragged_height(&p, 39), Some(31));
}
