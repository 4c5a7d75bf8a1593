//! Screen geometry: how the panes share the terminal, and what a mouse position or
//! click refers to.  Rectangles are plain values here; the application converts its
//! widget library's rectangles to and from them.
use vstd::prelude::*;
use crate::app::Focus;
use crate::layout::{clamp_repos_height, spec_repos_height};

verus! {

/// Rows of the header.
pub const HEADER_HEIGHT: u16 = 3;
/// Narrowest width of the Details pane.
pub const DETAILS_MIN_WIDTH: u16 = 15;
/// Longest gap between two clicks at one position that makes a double click, in
/// milliseconds.
pub const DOUBLE_CLICK_MS: u64 = 300;

/// A rectangle of terminal cells.
#[derive(Debug, Clone, Copy, PartialEq, Eq, Structural)]
pub struct Area {
    pub x: u16,
    pub y: u16,
    pub width: u16,
    pub height: u16,
}

/// How tall one vertical slot of the screen is: a fixed number of rows, or an equal
/// share of what the fixed slots leave.
#[derive(Debug, Clone, Copy, PartialEq, Eq, Structural)]
pub enum Slot {
    Length(u16),
    Fill,
}

/// How many of the optional panes below Repositories are open.
pub open spec fn open_count(file_status: bool, history: bool, log: bool) -> int {
    (if file_status { 1int } else { 0int }) + (if history { 1int } else { 0int }) + (if log { 1int } else { 0int })
}

/// The vertical slots of the screen: the header, Repositories, then File Status,
/// History and Log when open.  Without an open pane Repositories takes all the rows
/// below the header; with a height chosen by dragging it takes that height (clamped,
/// see `spec_repos_height`) and the open panes share the rest equally; otherwise all
/// of them get an equal share, Repositories also the remainder.
pub open spec fn spec_slots(total: u16, file_status: bool, history: bool, log: bool, repos_height: Option<u16>) -> Seq<Slot> {
    let available = if total >= HEADER_HEIGHT { (total - HEADER_HEIGHT) as int } else { 0int };
    let open = open_count(file_status, history, log);
    let share = available / (open + 1);
    if open == 0 {
        seq![Slot::Length(HEADER_HEIGHT), Slot::Length(available as u16)]
    } else {
        match repos_height {
            Some(h) => seq![Slot::Length(HEADER_HEIGHT), Slot::Length(spec_repos_height(h, available as u16, open as u16))]
                + Seq::new(open as nat, |i: int| Slot::Fill),
            None => seq![Slot::Length(HEADER_HEIGHT), Slot::Length((share + available % (open + 1)) as u16)]
                + Seq::new(open as nat, |i: int| Slot::Length(share as u16)),
        }
    }
}

/// See `spec_slots`.
pub fn pane_slots(total: u16, file_status: bool, history: bool, log: bool, repos_height: Option<u16>) -> (res: Vec<Slot>)
    ensures
        res@ == spec_slots(total, file_status, history, log, repos_height),
{
    let available: u16 = if total >= HEADER_HEIGHT { total - HEADER_HEIGHT } else { 0 };
    let open: u16 = (if file_status { 1u16 } else { 0u16 }) + (if history { 1u16 } else { 0u16 }) + (if log { 1u16 } else { 0u16 });
    let mut v: Vec<Slot> = Vec::new();
    v.push(Slot::Length(HEADER_HEIGHT));
    if open == 0 {
        v.push(Slot::Length(available));
        assert(v@ =~= spec_slots(total, file_status, history, log, repos_height));
        return v;
    }
    let share = available / (open + 1);
    let (first, rest) = match repos_height {
        Some(h) => (clamp_repos_height(h, available, open), Slot::Fill),
        None => (share + available % (open + 1), Slot::Length(share)),
    };
    v.push(Slot::Length(first));
    let ghost head = v@;
    let mut i: u16 = 0;
    while i < open
        invariant
            i <= open,
            v@ == head + Seq::new(i as nat, |j: int| rest),
        decreases open - i,
    {
        v.push(rest);
        i += 1;
        assert(v@ =~= head + Seq::new(i as nat, |j: int| rest));
    }
    assert(v@ =~= spec_slots(total, file_status, history, log, repos_height));
    v
}

/// The Details pane's width on a screen `full` columns wide: the width chosen by
/// dragging, else half the screen, kept between `DETAILS_MIN_WIDTH` and the screen
/// width less `DETAILS_MIN_WIDTH` (at least `DETAILS_MIN_WIDTH`).
pub open spec fn spec_details_width(full: u16, chosen: Option<u16>) -> u16 {
    let w = match chosen {
        Some(c) => c,
        None => (full / 2) as u16,
    };
    let hi = if full >= 2 * DETAILS_MIN_WIDTH { (full - DETAILS_MIN_WIDTH) as u16 } else { DETAILS_MIN_WIDTH };
    if w < DETAILS_MIN_WIDTH { DETAILS_MIN_WIDTH } else if w > hi { hi } else { w }
}

/// See `spec_details_width`.
pub fn details_width(full: u16, chosen: Option<u16>) -> (res: u16)
    ensures
        res == spec_details_width(full, chosen),
{
    let w = match chosen {
        Some(c) => c,
        None => full / 2,
    };
    let hi = if full >= 2 * DETAILS_MIN_WIDTH { full - DETAILS_MIN_WIDTH } else { DETAILS_MIN_WIDTH };
    if w < DETAILS_MIN_WIDTH {
        DETAILS_MIN_WIDTH
    } else if w > hi {
        hi
    } else {
        w
    }
}

/// The widest an action menu may be, in percent of its pane's width.
pub const ACTION_MENU_MAX_WIDTH_PCT: u16 = 80;

pub open spec fn min_u16(a: u16, b: u16) -> u16 {
    if a < b { a } else { b }
}

pub open spec fn max_u16(a: u16, b: u16) -> u16 {
    if a < b { b } else { a }
}

/// A popup of `width` x `height` at the top edge of `pane`, centred horizontally and
/// no wider than the pane.
pub open spec fn spec_pane_top_rect(width: u16, height: u16, pane: Area) -> Area {
    let spare: u16 = if pane.width > width { (pane.width - width) as u16 } else { 0 };
    Area { x: (pane.x + spare / 2) as u16, y: pane.y, width: min_u16(width, pane.width), height }
}

/// See `spec_pane_top_rect`.
pub fn pane_top_rect(width: u16, height: u16, pane: &Area) -> (res: Area)
    requires
        pane.x + pane.width <= u16::MAX,
    ensures
        res == spec_pane_top_rect(width, height, *pane),
{
    let spare = pane.width.saturating_sub(width);
    Area { x: pane.x + spare / 2, y: pane.y, width: if width < pane.width { width } else { pane.width }, height }
}

/// The narrowest an action menu is, in percent of the terminal's width.
pub const ACTION_MENU_MIN_WIDTH_PCT: u16 = 40;

/// The action menu's area for a title of `title_w` characters, a widest item label of
/// `label_w` characters and `n_items` rows: as wide as its content (the title with the
/// borders, or a label with the key column and the borders) but at least
/// `ACTION_MENU_MIN_WIDTH_PCT` of the terminal, then at most
/// `ACTION_MENU_MAX_WIDTH_PCT` of the pane, and never narrower than 10; as tall as its
/// rows with the borders, at most down to the terminal's bottom but at least 3; placed
/// by `spec_pane_top_rect`.
pub open spec fn spec_action_menu_area(title_w: u16, label_w: u16, n_items: u16, pane: Area, terminal: Area) -> Area {
    let natural = max_u16(max_u16((title_w + 2) as u16, (label_w + 6) as u16),
        (terminal.width * ACTION_MENU_MIN_WIDTH_PCT / 100) as u16);
    let max_allowed = max_u16((pane.width * ACTION_MENU_MAX_WIDTH_PCT / 100) as u16, 10);
    let width = max_u16(min_u16(natural, max_allowed), 10);
    let bottom = terminal.y + terminal.height;
    let available: u16 = if bottom > pane.y { (bottom - pane.y) as u16 } else { 0 };
    let height = max_u16(min_u16((n_items + 2) as u16, available), 3);
    spec_pane_top_rect(width, height, pane)
}

/// See `spec_action_menu_area`.
pub fn action_menu_area(title_w: u16, label_w: u16, n_items: u16, pane: &Area, terminal: &Area) -> (res: Area)
    requires
        title_w + 2 <= u16::MAX,
        label_w + 6 <= u16::MAX,
        n_items + 2 <= u16::MAX,
        pane.width * ACTION_MENU_MAX_WIDTH_PCT <= u16::MAX,
        terminal.width * ACTION_MENU_MIN_WIDTH_PCT <= u16::MAX,
        pane.x + pane.width <= u16::MAX,
        terminal.y + terminal.height <= u16::MAX,
    ensures
        res == spec_action_menu_area(title_w, label_w, n_items, *pane, *terminal),
{
    let a = title_w + 2;
    let b = label_w + 6;
    let content = if a < b { b } else { a };
    let least = terminal.width * ACTION_MENU_MIN_WIDTH_PCT / 100;
    let natural = if content < least { least } else { content };
    let pct = pane.width * ACTION_MENU_MAX_WIDTH_PCT / 100;
    let max_allowed = if pct < 10 { 10 } else { pct };
    let capped = if natural < max_allowed { natural } else { max_allowed };
    let width = if capped < 10 { 10 } else { capped };
    let available = (terminal.y + terminal.height).saturating_sub(pane.y);
    let rows = n_items + 2;
    let fitted = if rows < available { rows } else { available };
    let height = if fitted < 3 { 3 } else { fitted };
    pane_top_rect(width, height, pane)
}

/// Whether the cell at (`col`, `row`) lies in `a`.
pub open spec fn spec_contains(a: Area, col: u16, row: u16) -> bool {
    a.x <= col < a.x + a.width && a.y <= row < a.y + a.height
}

/// See `spec_contains`.
pub fn area_contains(a: &Area, col: u16, row: u16) -> (res: bool)
    ensures
        res == spec_contains(*a, col, row),
{
    col >= a.x && (col - a.x) < a.width && row >= a.y && (row - a.y) < a.height
}

/// The data row at screen row `row` of a bordered pane whose rows start `header`
/// lines below its top border and are scrolled by `scroll`: none on the borders and
/// header or past the last of `count` rows.
pub open spec fn spec_row_under(a: Area, row: u16, header: u16, scroll: usize, count: usize) -> Option<usize> {
    let top = a.y + 1 + header;
    let bottom = a.y + a.height - 1;
    if row < top || row >= bottom {
        None
    } else if row - top + scroll < count {
        Some((row - top + scroll) as usize)
    } else {
        None
    }
}

/// See `spec_row_under`.
pub fn row_under(a: &Area, row: u16, header: u16, scroll: usize, count: usize) -> (res: Option<usize>)
    ensures
        res == spec_row_under(*a, row, header, scroll, count),
{
    let top: u32 = a.y as u32 + 1 + header as u32;
    let bottom: u32 = a.y as u32 + a.height as u32;
    if (row as u32) < top || (row as u32) + 1 >= bottom {
        return None;
    }
    let offset = (row as u32 - top) as usize;
    if offset < count && scroll < count - offset {
        Some(offset + scroll)
    } else {
        None
    }
}

/// The pane rectangles of the last drawn screen.
#[derive(Debug, Clone, Copy)]
pub struct PaneAreas {
    pub terminal: Area,
    pub repos: Area,
    pub branches: Option<Area>,
    pub file_status: Option<Area>,
    pub history: Option<Area>,
    pub log: Option<Area>,
    pub details: Option<Area>,
}

pub open spec fn in_opt(a: Option<Area>, col: u16, row: u16) -> bool {
    match a {
        Some(r) => spec_contains(r, col, row),
        None => false,
    }
}

/// The pane under (`col`, `row`), the smaller panes first: File Status, History,
/// Details, Log, Branches, then Repositories.
pub open spec fn spec_pane_at(p: PaneAreas, col: u16, row: u16) -> Option<Focus> {
    if in_opt(p.file_status, col, row) {
        Some(Focus::FileStatus)
    } else if in_opt(p.history, col, row) {
        Some(Focus::History)
    } else if in_opt(p.details, col, row) {
        Some(Focus::Details)
    } else if in_opt(p.log, col, row) {
        Some(Focus::Log)
    } else if in_opt(p.branches, col, row) {
        Some(Focus::Branches)
    } else if spec_contains(p.repos, col, row) {
        Some(Focus::Repos)
    } else {
        None
    }
}

fn opt_contains(a: &Option<Area>, col: u16, row: u16) -> (res: bool)
    ensures
        res == in_opt(*a, col, row),
{
    match a {
        Some(r) => area_contains(r, col, row),
        None => false,
    }
}

/// See `spec_pane_at`.
pub fn pane_at(p: &PaneAreas, col: u16, row: u16) -> (res: Option<Focus>)
    ensures
        res == spec_pane_at(*p, col, row),
{
    if opt_contains(&p.file_status, col, row) {
        Some(Focus::FileStatus)
    } else if opt_contains(&p.history, col, row) {
        Some(Focus::History)
    } else if opt_contains(&p.details, col, row) {
        Some(Focus::Details)
    } else if opt_contains(&p.log, col, row) {
        Some(Focus::Log)
    } else if opt_contains(&p.branches, col, row) {
        Some(Focus::Branches)
    } else if area_contains(&p.repos, col, row) {
        Some(Focus::Repos)
    } else {
        None
    }
}

/// A click is a double click when the previous one was at the same position less than
/// `DOUBLE_CLICK_MS` earlier (times in milliseconds; a previous time after `now`
/// counts as no time passed).
pub open spec fn spec_double_click(last_ms: Option<u64>, last_pos: Option<(u16, u16)>, now_ms: u64, pos: (u16, u16)) -> bool {
    match (last_ms, last_pos) {
        (Some(t), Some(p)) => p == pos && (if now_ms >= t { now_ms - t } else { 0 }) < DOUBLE_CLICK_MS,
        _ => false,
    }
}

/// See `spec_double_click`.
pub fn is_double_click(last_ms: Option<u64>, last_pos: Option<(u16, u16)>, now_ms: u64, pos: (u16, u16)) -> (res: bool)
    ensures
        res == spec_double_click(last_ms, last_pos, now_ms, pos),
{
    match (last_ms, last_pos) {
        (Some(t), Some(p)) => {
            let gap = if now_ms >= t { now_ms - t } else { 0 };
            p.0 == pos.0 && p.1 == pos.1 && gap < DOUBLE_CLICK_MS
        },
        _ => false,
    }
}

/// Whether any pane below Repositories is open (and the divider can be dragged).
pub open spec fn panes_below(p: PaneAreas) -> bool {
    p.file_status is Some || p.history is Some || p.log is Some
}

/// Whether `row` is the bottom border of the Repositories pane while a pane below it
/// is open: the divider that can be dragged.
pub open spec fn spec_on_divider(p: PaneAreas, row: u16) -> bool {
    panes_below(p) && row == p.repos.y + (if p.repos.height >= 1 { p.repos.height - 1 } else { 0 })
}

/// See `spec_on_divider`.
pub fn on_divider(p: &PaneAreas, row: u16) -> (res: bool)
    ensures
        res == spec_on_divider(*p, row),
{
    let below = p.file_status.is_some() || p.history.is_some() || p.log.is_some();
    let last: u32 = p.repos.y as u32 + (if p.repos.height >= 1 { p.repos.height - 1 } else { 0 }) as u32;
    below && row as u32 == last
}

/// The Repositories height that puts its bottom border at `row` while dragging the
/// divider: the rows from its top to `row`, clamped as `spec_repos_height` clamps a
/// chosen height against the rows from its top to the bottom of the terminal; none
/// when no pane below is open.
pub open spec fn spec_dragged_height(p: PaneAreas, row: u16) -> Option<u16> {
    let open = (if p.file_status is Some { 1int } else { 0int }) + (if p.history is Some { 1int } else { 0int })
        + (if p.log is Some { 1int } else { 0int });
    let end = p.terminal.y + p.terminal.height;
    let total = if end >= p.repos.y { if end - p.repos.y > u16::MAX { u16::MAX as int } else { end - p.repos.y } } else { 0 };
    let wanted = if row >= p.repos.y { if row - p.repos.y + 1 > u16::MAX { u16::MAX as int } else { row - p.repos.y + 1 } } else { 1 };
    if open == 0 {
        None
    } else {
        Some(spec_repos_height(wanted as u16, total as u16, open as u16))
    }
}

/// See `spec_dragged_height`.
pub fn dragged_height(p: &PaneAreas, row: u16) -> (res: Option<u16>)
    ensures
        res == spec_dragged_height(*p, row),
{
    let open: u16 = (if p.file_status.is_some() { 1u16 } else { 0u16 }) + (if p.history.is_some() { 1u16 } else { 0u16 })
        + (if p.log.is_some() { 1u16 } else { 0u16 });
    if open == 0 {
        return None;
    }
    let end: u32 = p.terminal.y as u32 + p.terminal.height as u32;
    let total: u16 = if end >= p.repos.y as u32 {
        let d = end - p.repos.y as u32;
        if d > 65535 { 65535 } else { d as u16 }
    } else {
        0
    };
    let wanted: u16 = if row >= p.repos.y {
        let d = (row - p.repos.y) as u32 + 1;
        if d > 65535 { 65535 } else { d as u16 }
    } else {
        1
    };
    Some(clamp_repos_height(wanted, total, open))
}

} // verus!
