//! Action menus: which items each menu offers, moving through them, and the branch and
//! section selection popups.
use vstd::prelude::*;
use crate::app::{App, AppMode, BranchItem, MenuItem, PAGE_STEP, VisibleRow, history_row};
use crate::config::RepoCommand;
use crate::git::{AheadBehind, BranchInfo, FileStatusKind, HistoryFilter, RepoStatus};
use crate::text::{ends_with, has_suffix, push_str};

verus! {

/// What a menu item shows and does, as plain values.
pub struct MenuItemView {
    pub label: Seq<char>,
    pub key: char,
    pub is_separator: bool,
    pub repo_cmd: Option<(Seq<char>, bool)>,
}

impl View for MenuItem {
    type V = MenuItemView;

    open spec fn view(&self) -> MenuItemView {
        MenuItemView {
            label: self.label@,
            key: self.key,
            is_separator: self.is_separator,
            repo_cmd: match self.repo_cmd {
                Some((c, b)) => Some((c@, b)),
                None => None,
            },
        }
    }
}

pub open spec fn menu_view(items: Seq<MenuItem>) -> Seq<MenuItemView> {
    items.map_values(|m: MenuItem| m@)
}

/// An ordinary item.
pub open spec fn item_v(label: Seq<char>, key: char) -> MenuItemView {
    MenuItemView { label, key, is_separator: false, repo_cmd: None }
}

/// A separator row.
pub open spec fn sep_v() -> MenuItemView {
    MenuItemView { label: Seq::empty(), key: '\0', is_separator: true, repo_cmd: None }
}

/// The decimal digit `d` (< 10) as a character.
pub open spec fn digit_char(d: nat) -> char {
    (48 + d) as char
}

/// The history items for a reference `ab` is ahead of / behind: one each when the
/// count is non-zero, with the given keys.
pub open spec fn ab_items(ab: AheadBehind, ahead_key: char, behind_key: char) -> Seq<MenuItemView> {
    (if ab.ahead > 0 { seq![item_v("History: Ahead of "@ + ab.branch@, ahead_key)] } else { Seq::empty() })
        + (if ab.behind > 0 { seq![item_v("History: Behind "@ + ab.branch@, behind_key)] } else { Seq::empty() })
}

/// Name of the upstream branch, empty when there is none.
pub open spec fn upstream_name(up: Option<AheadBehind>) -> Seq<char> {
    match up {
        Some(u) => u.branch@,
        None => Seq::empty(),
    }
}

/// Ahead/behind history items for the upstream (`u`/`U`) and, unless it is the same
/// branch as the upstream, for the trunk (`t`/`T`).
pub open spec fn tracking_items(up: Option<AheadBehind>, trunk: Option<AheadBehind>) -> Seq<MenuItemView> {
    (match up {
        Some(u) => ab_items(u, 'u', 'U'),
        None => Seq::empty(),
    }) + (match trunk {
        Some(t) => if t.branch@ != upstream_name(up) { ab_items(t, 't', 'T') } else { Seq::empty() },
        None => Seq::empty(),
    })
}

/// Items of the custom repo commands, keyed `1`..`9`, `0` by position.
pub open spec fn command_items(cmds: Seq<RepoCommand>) -> Seq<MenuItemView> {
    Seq::new(
        cmds.len(),
        |i: int|
            MenuItemView {
                label: cmds[i].name@,
                key: digit_char(((i + 1) % 10) as nat),
                is_separator: false,
                repo_cmd: Some((cmds[i].cmd@, cmds[i].background)),
            },
    )
}

/// The action menu of a repository row.
pub open spec fn repo_row_menu(r: RepoStatus, has_named_sections: bool, cmds: Seq<RepoCommand>) -> Seq<MenuItemView> {
    let ok = r.error is None;
    let git_items = if ok {
        seq![
            item_v("Fetch"@, 'f'),
            item_v("Pull Branch"@, 'p'),
            item_v("Push Branch"@, 'P'),
            item_v("Force Push Branch"@, 'F'),
            item_v("Checkout Branch"@, 'c'),
            item_v("Create Branch"@, 'n'),
            item_v("Commit History"@, 'h'),
        ] + tracking_items(r.upstream, r.trunk)
    } else {
        Seq::empty()
    };
    let section_items = seq![sep_v(), item_v("Create Repo Section"@, 'N')] + (if has_named_sections {
        seq![item_v("Move to Repo Section"@, 'M')]
    } else {
        Seq::empty()
    });
    let custom = if ok && cmds.len() > 0 { seq![sep_v()] + command_items(cmds) } else { Seq::empty() };
    git_items + section_items + custom
}

/// The action menu of a section title row.
pub open spec fn section_menu(section_idx: usize) -> Seq<MenuItemView> {
    seq![item_v("Create Repo Section"@, 'N')] + (if section_idx > 0 {
        seq![item_v("Rename Repo Section"@, 'R'), item_v("Remove Repo Section"@, 'X')]
    } else {
        Seq::empty()
    })
}

pub open spec fn is_patch_path(p: Seq<char>) -> bool {
    has_suffix(p, ".patch"@)
}

/// The action menu of a changed file.
pub open spec fn file_menu(kind: FileStatusKind, path: Seq<char>) -> Seq<MenuItemView> {
    (match kind {
        FileStatusKind::Staged => seq![
            item_v("Commit"@, 'c'),
            item_v("Amend Commit"@, 'a'),
            item_v("Unstage File"@, 'u'),
            item_v("Save as Patch and Revert File"@, 'p'),
        ],
        FileStatusKind::Modified => seq![
            item_v("Stage File"@, 's'),
            item_v("Revert File"@, 'r'),
            item_v("Save as Patch and Revert File"@, 'p'),
        ],
        FileStatusKind::Deleted => seq![
            item_v("Stage Deletion"@, 's'),
            item_v("Revert File"@, 'r'),
            item_v("Save as Patch and Revert File"@, 'p'),
        ],
        FileStatusKind::Conflict => seq![item_v("Revert File"@, 'r')],
        FileStatusKind::Untracked => seq![item_v("Stage File"@, 's'), item_v("Discard File"@, 'd')],
    }) + (if is_patch_path(path) { seq![item_v("Apply Patch"@, 'P')] } else { Seq::empty() })
}

/// The action menu of a branch in the Branches pane.
pub open spec fn branch_menu(b: BranchInfo) -> Seq<MenuItemView> {
    let checkout = if !b.is_current { seq![item_v("Checkout"@, 'c')] } else { Seq::empty() };
    let pull = match b.upstream {
        Some(u) => if u.behind > 0 && u.ahead == 0 {
            seq![item_v("Pull Branch (fast-forward)"@, 'p')]
        } else {
            Seq::empty()
        },
        None => Seq::empty(),
    };
    let can_push = match b.upstream {
        Some(u) => u.ahead > 0,
        None => true,
    };
    let push = if !b.is_remote_only && can_push {
        seq![item_v("Push Branch"@, 'P'), item_v("Force Push Branch"@, 'F')]
    } else {
        Seq::empty()
    };
    let delete = if !b.is_current && !b.is_remote_only && !b.is_trunk {
        seq![sep_v(), item_v("Delete Branch"@, 'd')]
    } else {
        Seq::empty()
    };
    checkout + pull + push + seq![item_v("Create Branch"@, 'n'), item_v("Commit History"@, 'h')]
        + tracking_items(b.upstream, b.trunk) + delete
}

/// The first selectable (non-separator) item at or after `i`.
pub open spec fn next_selectable(items: Seq<MenuItemView>, i: int) -> Option<int>
    decreases items.len() - i,
{
    if i < 0 || i >= items.len() {
        None
    } else if !items[i].is_separator {
        Some(i)
    } else {
        next_selectable(items, i + 1)
    }
}

/// The last selectable item before `i`.
pub open spec fn previous_selectable(items: Seq<MenuItemView>, i: int) -> Option<int>
    decreases i,
{
    if i <= 0 || i > items.len() {
        None
    } else if !items[i - 1].is_separator {
        Some(i - 1)
    } else {
        previous_selectable(items, i - 1)
    }
}

/// The selection after `menu_next` from `sel`.
pub open spec fn menu_step_down(items: Seq<MenuItemView>, sel: usize) -> usize {
    match next_selectable(items, sel + 1) {
        Some(j) => j as usize,
        None => sel,
    }
}

/// The selection after `menu_previous` from `sel`.
pub open spec fn menu_step_up(items: Seq<MenuItemView>, sel: usize) -> usize {
    match previous_selectable(items, sel as int) {
        Some(j) => j as usize,
        None => sel,
    }
}

/// The selection after `k` steps down.
pub open spec fn menu_steps_down(items: Seq<MenuItemView>, sel: usize, k: nat) -> usize
    decreases k,
{
    if k == 0 { sel } else { menu_steps_down(items, menu_step_down(items, sel), (k - 1) as nat) }
}

/// The selection after `k` steps up.
pub open spec fn menu_steps_up(items: Seq<MenuItemView>, sel: usize, k: nat) -> usize
    decreases k,
{
    if k == 0 { sel } else { menu_steps_up(items, menu_step_up(items, sel), (k - 1) as nat) }
}

/// One step forward through `n` entries, wrapping to the first.
pub open spec fn wrap_next(sel: usize, n: nat) -> usize {
    if n > 0 { ((sel + 1) % (n as int)) as usize } else { sel }
}

/// One step back through `n` entries, wrapping to the last.
pub open spec fn wrap_previous(sel: usize, n: nat) -> usize {
    if n == 0 {
        sel
    } else if sel == 0 {
        (n - 1) as usize
    } else {
        (sel - 1) as usize
    }
}

/// The branch-select items: every branch but the current one, remote-only ones marked.
pub open spec fn branch_items_of(bs: Seq<BranchInfo>) -> Seq<(Seq<char>, bool)>
    decreases bs.len(),
{
    if bs.len() == 0 {
        Seq::empty()
    } else {
        let rest = branch_items_of(bs.drop_last());
        if bs.last().is_current { rest } else { rest.push((bs.last().name@, bs.last().is_remote_only)) }
    }
}

pub open spec fn branch_items_view(items: Seq<BranchItem>) -> Seq<(Seq<char>, bool)> {
    items.map_values(|b: BranchItem| (b.name@, b.is_remote))
}

proof fn lemma_menu_view_push(items: Seq<MenuItem>, m: MenuItem)
    ensures
        menu_view(items.push(m)) == menu_view(items).push(m@),
{
    assert(menu_view(items.push(m)) =~= menu_view(items).push(m@));
}

fn push_item(items: &mut Vec<MenuItem>, label: &str, key: char)
    ensures
        menu_view(final(items)@) == menu_view(old(items)@).push(item_v(label@, key)),
{
    let m = MenuItem::item(label, key);
    proof { lemma_menu_view_push(items@, m); }
    items.push(m);
}

fn push_separator(items: &mut Vec<MenuItem>)
    ensures
        menu_view(final(items)@) == menu_view(old(items)@).push(sep_v()),
{
    let m = MenuItem::separator();
    assert(m.label@ =~= Seq::<char>::empty());
    proof { lemma_menu_view_push(items@, m); }
    items.push(m);
}

/// The digit character of `d < 10`.
fn digit(d: usize) -> (res: char)
    requires
        d < 10,
    ensures
        res == digit_char(d as nat),
{
    match d {
        0 => '0',
        1 => '1',
        2 => '2',
        3 => '3',
        4 => '4',
        5 => '5',
        6 => '6',
        7 => '7',
        8 => '8',
        _ => '9',
    }
}

fn push_ab_items(items: &mut Vec<MenuItem>, ab: &AheadBehind, ahead_key: char, behind_key: char)
    ensures
        menu_view(final(items)@) == menu_view(old(items)@) + ab_items(*ab, ahead_key, behind_key),
{
    let ghost start = menu_view(items@);
    if ab.ahead > 0 {
        let mut label = String::new();
        push_str(&mut label, "History: Ahead of ");
        push_str(&mut label, ab.branch.as_str());
        push_item(items, label.as_str(), ahead_key);
    }
    let ghost mid = menu_view(items@);
    if ab.behind > 0 {
        let mut label = String::new();
        push_str(&mut label, "History: Behind ");
        push_str(&mut label, ab.branch.as_str());
        push_item(items, label.as_str(), behind_key);
    }
    assert(menu_view(items@) =~= start + ab_items(*ab, ahead_key, behind_key));
}

fn push_tracking_items(items: &mut Vec<MenuItem>, up: &Option<AheadBehind>, trunk: &Option<AheadBehind>)
    ensures
        menu_view(final(items)@) == menu_view(old(items)@) + tracking_items(*up, *trunk),
{
    let ghost start = menu_view(items@);
    match up {
        Some(u) => push_ab_items(items, u, 'u', 'U'),
        None => {},
    }
    let ghost mid = menu_view(items@);
    assert(mid =~= start + (match *up {
        Some(u) => ab_items(u, 'u', 'U'),
        None => Seq::empty(),
    }));
    match trunk {
        Some(t) => {
            let same = match up {
                Some(u) => crate::text::str_eq(t.branch.as_str(), u.branch.as_str()),
                None => t.branch.as_str().unicode_len() == 0,
            };
            if !same {
                push_ab_items(items, t, 't', 'T');
            } else {
                assert(t.branch@ == upstream_name(*up));
            }
        },
        None => {},
    }
    assert(menu_view(items@) =~= start + tracking_items(*up, *trunk));
}

fn wrap_next_exec(sel: usize, n: usize) -> (res: usize)
    ensures
        res == wrap_next(sel, n as nat),
{
    if n > 0 {
        let r = sel % n;
        proof {
            vstd::arithmetic::div_mod::lemma_add_mod_noop_right(1, sel as int, n as int);
            vstd::arithmetic::div_mod::lemma_mod_bound(sel as int, n as int);
        }
        (r + 1) % n
    } else {
        sel
    }
}

fn wrap_previous_exec(sel: usize, n: usize) -> (res: usize)
    ensures
        res == wrap_previous(sel, n as nat),
{
    if n == 0 {
        sel
    } else if sel == 0 {
        n - 1
    } else {
        sel - 1
    }
}

pub(crate) fn step_down_exec(v: usize, n: usize) -> (res: usize)
    ensures
        res == App::step_down(v, n as nat),
{
    if n > 0 && v < n - 1 { v + 1 } else { v }
}

pub(crate) fn step_up_exec(v: usize) -> (res: usize)
    ensures
        res == App::step_up(v),
{
    if v > 0 { v - 1 } else { 0 }
}

impl App {
    /// Show `items` in a menu popup of kind `mode`, with the first item highlighted.
    fn open_menu(&mut self, items: Vec<MenuItem>, mode: AppMode)
        ensures
            *final(self) == (App { menu_items: items, menu_selected: 0, menu_scroll: 0, mode: mode, ..*old(self) }),
    {
        self.menu_items = items;
        self.menu_selected = 0;
        self.menu_scroll = 0;
        self.mode = mode;
    }

    /// `open_menu` when there are items to show, no change otherwise.
    fn open_menu_if(&mut self, items: Option<Vec<MenuItem>>, mode: AppMode)
        ensures
            items is None ==> *final(self) == *old(self),
            items matches Some(v) ==> *final(self) == (App {
                menu_items: v,
                menu_selected: 0,
                menu_scroll: 0,
                mode: mode,
                ..*old(self)
            }),
    {
        match items {
            Some(v) => self.open_menu(v, mode),
            None => {},
        }
    }

    /// Highlight the next selectable item; stays put at the last one.
    pub fn menu_next(&mut self)
        ensures
            final(self).menu_selected == menu_step_down(menu_view(old(self).menu_items@), old(self).menu_selected),
            *final(self) == (App { menu_selected: final(self).menu_selected, ..*old(self) }),
    {
        let v = self.menu_next_index(self.menu_selected);
        self.menu_selected = v;
    }

    fn menu_next_index(&self, sel: usize) -> (res: usize)
        ensures
            res == menu_step_down(menu_view(self.menu_items@), sel),
    {
        let ghost items = menu_view(self.menu_items@);
        let n = self.menu_items.len();
        if sel >= n {
            return sel;
        }
        let mut idx = sel + 1;
        while idx < n
            invariant
                items == menu_view(self.menu_items@),
                n == items.len(),
                sel < idx <= n,
                next_selectable(items, sel + 1) == next_selectable(items, idx as int),
            decreases n - idx,
        {
            if !self.menu_items[idx].is_separator {
                return idx;
            }
            idx += 1;
        }
        sel
    }

    /// Highlight the previous selectable item; stays put at the first one.
    pub fn menu_previous(&mut self)
        ensures
            final(self).menu_selected == menu_step_up(menu_view(old(self).menu_items@), old(self).menu_selected),
            *final(self) == (App { menu_selected: final(self).menu_selected, ..*old(self) }),
    {
        let v = self.menu_previous_index(self.menu_selected);
        self.menu_selected = v;
    }

    fn menu_previous_index(&self, sel: usize) -> (res: usize)
        ensures
            res == menu_step_up(menu_view(self.menu_items@), sel),
    {
        let ghost items = menu_view(self.menu_items@);
        let n = self.menu_items.len();
        if sel > n {
            return sel;
        }
        let mut idx = sel;
        while idx > 0
            invariant
                items == menu_view(self.menu_items@),
                n == items.len(),
                idx <= sel <= n,
                previous_selectable(items, sel as int) == previous_selectable(items, idx as int),
            decreases idx,
        {
            idx -= 1;
            if !self.menu_items[idx].is_separator {
                return idx;
            }
        }
        sel
    }

    /// Move down `PAGE_STEP` selectable items (stopping at the last).
    pub fn menu_next_page(&mut self)
        ensures
            final(self).menu_selected == menu_steps_down(
                menu_view(old(self).menu_items@),
                old(self).menu_selected,
                PAGE_STEP as nat,
            ),
            *final(self) == (App { menu_selected: final(self).menu_selected, ..*old(self) }),
    {
        let ghost items = menu_view(self.menu_items@);
        let mut sel = self.menu_selected;
        let mut k: usize = 0;
        while k < PAGE_STEP
            invariant
                items == menu_view(self.menu_items@),
                k <= PAGE_STEP,
                menu_steps_down(items, old(self).menu_selected, PAGE_STEP as nat) == menu_steps_down(
                    items,
                    sel,
                    (PAGE_STEP - k) as nat,
                ),
            decreases PAGE_STEP - k,
        {
            sel = self.menu_next_index(sel);
            k += 1;
        }
        self.menu_selected = sel;
    }

    /// Move up `PAGE_STEP` selectable items (stopping at the first).
    pub fn menu_previous_page(&mut self)
        ensures
            final(self).menu_selected == menu_steps_up(
                menu_view(old(self).menu_items@),
                old(self).menu_selected,
                PAGE_STEP as nat,
            ),
            *final(self) == (App { menu_selected: final(self).menu_selected, ..*old(self) }),
    {
        let ghost items = menu_view(self.menu_items@);
        let mut sel = self.menu_selected;
        let mut k: usize = 0;
        while k < PAGE_STEP
            invariant
                items == menu_view(self.menu_items@),
                k <= PAGE_STEP,
                menu_steps_up(items, old(self).menu_selected, PAGE_STEP as nat) == menu_steps_up(
                    items,
                    sel,
                    (PAGE_STEP - k) as nat,
                ),
            decreases PAGE_STEP - k,
        {
            sel = self.menu_previous_index(sel);
            k += 1;
        }
        self.menu_selected = sel;
    }

    /// The items of a repository row's menu for `r`.
    fn repo_row_items(&self, r: &RepoStatus) -> (res: Vec<MenuItem>)
        ensures
            menu_view(res@) == repo_row_menu(*r, self.state.ss().len() > 1, self.config.repo_commands@),
    {
        let ok = r.error.is_none();
        let mut items: Vec<MenuItem> = Vec::new();
        assert(menu_view(items@) =~= Seq::<MenuItemView>::empty());
        if ok {
            push_item(&mut items, "Fetch", 'f');
            push_item(&mut items, "Pull Branch", 'p');
            push_item(&mut items, "Push Branch", 'P');
            push_item(&mut items, "Force Push Branch", 'F');
            push_item(&mut items, "Checkout Branch", 'c');
            push_item(&mut items, "Create Branch", 'n');
            push_item(&mut items, "Commit History", 'h');
            push_tracking_items(&mut items, &r.upstream, &r.trunk);
        }
        let ghost git_part = menu_view(items@);
        push_separator(&mut items);
        push_item(&mut items, "Create Repo Section", 'N');
        let has_named = self.state.has_named_sections();
        if has_named {
            push_item(&mut items, "Move to Repo Section", 'M');
        }
        let ghost section_part = menu_view(items@);
        let cmds = &self.config.repo_commands;
        if ok && cmds.len() > 0 {
            push_separator(&mut items);
            let ghost before = menu_view(items@);
            let mut i: usize = 0;
            while i < cmds.len()
                invariant
                    cmds == &self.config.repo_commands,
                    i <= cmds@.len(),
                    menu_view(items@) == before + command_items(cmds@).take(i as int),
                decreases cmds@.len() - i,
            {
                let rc = &cmds[i];
                let key = digit((i + 1) % 10);
                let m = MenuItem::repo_command(rc.name.as_str(), key, rc.cmd.clone(), rc.background);
                proof {
                    lemma_menu_view_push(items@, m);
                    assert(command_items(cmds@).take(i + 1) =~= command_items(cmds@).take(i as int).push(m@));
                }
                items.push(m);
                i += 1;
            }
            assert(command_items(cmds@).take(cmds@.len() as int) =~= command_items(cmds@));
        }
        assert(menu_view(items@) =~= repo_row_menu(*r, self.state.ss().len() > 1, self.config.repo_commands@));
        items
    }

    /// Open the action menu for the selected row of the Repositories pane: the section
    /// menu on a section title (create; rename and remove for named sections), the repo
    /// menu on a repo row; no-op when nothing is selected.
    pub fn open_repo_action_menu(&mut self)
        requires
            old(self).inv(),
            old(self).spec_selected_repo_idx() matches Some(i) ==> i < old(self).repos@.len(),
        ensures
            old(self).spec_action_menu() is None ==> *final(self) == *old(self),
            old(self).spec_action_menu() matches Some(v) ==> {
                &&& *final(self) == (App {
                    menu_items: final(self).menu_items,
                    menu_selected: 0,
                    menu_scroll: 0,
                    mode: AppMode::ActionMenu,
                    ..*old(self)
                })
                &&& menu_view(final(self).menu_items@) == v
            },
    {
        let items = self.action_menu_items();
        self.open_menu_if(items, AppMode::ActionMenu);
    }

    /// The menu for the selected row: the section menu on a section title, the repo
    /// menu on a repo row, none when nothing is selected.
    pub open spec fn spec_action_menu(&self) -> Option<Seq<MenuItemView>> {
        match self.selected_row() {
            Some(VisibleRow::SectionTitle(k)) => Some(section_menu(k)),
            Some(VisibleRow::Repo(i)) => Some(
                repo_row_menu(self.repos@[i as int], self.state.ss().len() > 1, self.config.repo_commands@),
            ),
            None => None,
        }
    }

    fn action_menu_items(&self) -> (res: Option<Vec<MenuItem>>)
        requires
            self.inv(),
            self.spec_selected_repo_idx() matches Some(i) ==> i < self.repos@.len(),
        ensures
            self.spec_action_menu() is None <==> res is None,
            self.spec_action_menu() matches Some(m) ==> (res matches Some(v) && menu_view(v@) == m),
    {
        let rows = self.visible_rows();
        if self.selected >= rows.len() {
            return None;
        }
        match rows[self.selected] {
            VisibleRow::SectionTitle(k) => {
                let mut items: Vec<MenuItem> = Vec::new();
                assert(menu_view(items@) =~= Seq::<MenuItemView>::empty());
                push_item(&mut items, "Create Repo Section", 'N');
                if k > 0 {
                    push_item(&mut items, "Rename Repo Section", 'R');
                    push_item(&mut items, "Remove Repo Section", 'X');
                }
                assert(menu_view(items@) =~= section_menu(k));
                Some(items)
            },
            VisibleRow::Repo(i) => Some(self.repo_row_items(&self.repos[i])),
        }
    }

    /// The menu of the selected file, or `None` when no file is selected.
    fn file_menu_items(&self) -> (res: Option<Vec<MenuItem>>)
        requires
            self.inv(),
        ensures
            self.file_status_selected < self.spec_selected_files().len() ==> (res matches Some(v) && menu_view(v@)
                == file_menu(
                self.spec_selected_files()[self.file_status_selected as int].status,
                self.spec_selected_files()[self.file_status_selected as int].path@,
            )),
            self.file_status_selected >= self.spec_selected_files().len() ==> res is None,
    {
        let entry = match self.selected_file_entry() {
            Some(e) => e,
            None => return None,
        };
        let mut items: Vec<MenuItem> = Vec::new();
        assert(menu_view(items@) =~= Seq::<MenuItemView>::empty());
        match entry.status {
            FileStatusKind::Staged => {
                push_item(&mut items, "Commit", 'c');
                push_item(&mut items, "Amend Commit", 'a');
                push_item(&mut items, "Unstage File", 'u');
                push_item(&mut items, "Save as Patch and Revert File", 'p');
            },
            FileStatusKind::Modified => {
                push_item(&mut items, "Stage File", 's');
                push_item(&mut items, "Revert File", 'r');
                push_item(&mut items, "Save as Patch and Revert File", 'p');
            },
            FileStatusKind::Deleted => {
                push_item(&mut items, "Stage Deletion", 's');
                push_item(&mut items, "Revert File", 'r');
                push_item(&mut items, "Save as Patch and Revert File", 'p');
            },
            FileStatusKind::Conflict => {
                push_item(&mut items, "Revert File", 'r');
            },
            FileStatusKind::Untracked => {
                push_item(&mut items, "Stage File", 's');
                push_item(&mut items, "Discard File", 'd');
            },
        }
        if ends_with(entry.path.as_str(), ".patch") {
            push_item(&mut items, "Apply Patch", 'P');
        }
        assert(menu_view(items@) =~= file_menu(entry.status, entry.path@));
        Some(items)
    }

    /// Open the action menu of the selected file (its items depend on the file's kind;
    /// `.patch` files also offer Apply Patch); no-op when no file is selected.
    pub fn open_file_action_menu(&mut self)
        requires
            old(self).inv(),
        ensures
            old(self).file_status_selected >= old(self).spec_selected_files().len() ==> *final(self) == *old(self),
            old(self).file_status_selected < old(self).spec_selected_files().len() ==> {
                &&& *final(self) == (App {
                    menu_items: final(self).menu_items,
                    menu_selected: 0,
                    menu_scroll: 0,
                    mode: AppMode::FileActionMenu,
                    ..*old(self)
                })
                &&& menu_view(final(self).menu_items@) == file_menu(
                    old(self).spec_selected_files()[old(self).file_status_selected as int].status,
                    old(self).spec_selected_files()[old(self).file_status_selected as int].path@,
                )
            },
    {
        let items = self.file_menu_items();
        self.open_menu_if(items, AppMode::FileActionMenu);
    }

    /// Open the Output Log menu: Copy Log Output (`c`) and Clear Log (`x`).
    pub fn open_log_action_menu(&mut self)
        ensures
            *final(self) == (App {
                menu_items: final(self).menu_items,
                menu_selected: 0,
                menu_scroll: 0,
                mode: AppMode::LogActionMenu,
                ..*old(self)
            }),
            menu_view(final(self).menu_items@) == seq![item_v("Copy Log Output"@, 'c'), item_v("Clear Log"@, 'x')],
    {
        let mut items: Vec<MenuItem> = Vec::new();
        assert(menu_view(items@) =~= Seq::<MenuItemView>::empty());
        push_item(&mut items, "Copy Log Output", 'c');
        push_item(&mut items, "Clear Log", 'x');
        assert(menu_view(items@) =~= seq![item_v("Copy Log Output"@, 'c'), item_v("Clear Log"@, 'x')]);
        self.open_menu(items, AppMode::LogActionMenu);
    }

    /// Whether the History menu may open: the full log is shown and the selection is
    /// on the header row of its first commit (HEAD).
    pub open spec fn history_menu_allowed(&self) -> bool {
        &&& self.history_filter is Full
        &&& history_row(self.history@, self.history_selected as int) == Some((0usize, None::<usize>))
    }

    /// Open the commit menu (Undo Commit, `u`) on HEAD's header row of the full log;
    /// no-op anywhere else.
    pub fn open_history_action_menu(&mut self)
        ensures
            !old(self).history_menu_allowed() ==> *final(self) == *old(self),
            old(self).history_menu_allowed() ==> {
                &&& *final(self) == (App {
                    menu_items: final(self).menu_items,
                    menu_selected: 0,
                    menu_scroll: 0,
                    mode: AppMode::HistoryActionMenu,
                    ..*old(self)
                })
                &&& menu_view(final(self).menu_items@) == seq![item_v("Undo Commit"@, 'u')]
            },
    {
        let allowed = match self.history_row_at(self.history_selected) {
            Some((0, None)) => matches!(self.history_filter, HistoryFilter::Full),
            _ => false,
        };
        if allowed {
            let mut items: Vec<MenuItem> = Vec::new();
            assert(menu_view(items@) =~= Seq::<MenuItemView>::empty());
            push_item(&mut items, "Undo Commit", 'u');
            assert(menu_view(items@) =~= seq![item_v("Undo Commit"@, 'u')]);
            self.open_menu(items, AppMode::HistoryActionMenu);
        }
    }

    /// The menu of branch `b`.
    fn branch_menu_items(b: &BranchInfo) -> (res: Vec<MenuItem>)
        ensures
            menu_view(res@) == branch_menu(*b),
    {
        let mut items: Vec<MenuItem> = Vec::new();
        assert(menu_view(items@) =~= Seq::<MenuItemView>::empty());
        if !b.is_current {
            push_item(&mut items, "Checkout", 'c');
        }
        let ghost p1 = menu_view(items@);
        match &b.upstream {
            Some(u) => {
                if u.behind > 0 && u.ahead == 0 {
                    push_item(&mut items, "Pull Branch (fast-forward)", 'p');
                }
            },
            None => {},
        }
        let ghost p2 = menu_view(items@);
        let can_push = match &b.upstream {
            Some(u) => u.ahead > 0,
            None => true,
        };
        if !b.is_remote_only && can_push {
            push_item(&mut items, "Push Branch", 'P');
            push_item(&mut items, "Force Push Branch", 'F');
        }
        let ghost p3 = menu_view(items@);
        push_item(&mut items, "Create Branch", 'n');
        push_item(&mut items, "Commit History", 'h');
        let ghost p4 = menu_view(items@);
        push_tracking_items(&mut items, &b.upstream, &b.trunk);
        let ghost p5 = menu_view(items@);
        if !b.is_current && !b.is_remote_only && !b.is_trunk {
            push_separator(&mut items);
            push_item(&mut items, "Delete Branch", 'd');
        }
        assert(menu_view(items@) =~= branch_menu(*b));
        items
    }

    /// Open the action menu of the branch selected in the Branches pane; no-op when no
    /// branch is selected.
    pub fn open_branch_action_menu(&mut self)
        ensures
            old(self).branches_pane_selected >= old(self).branch_info_list@.len() ==> *final(self) == *old(self),
            old(self).branches_pane_selected < old(self).branch_info_list@.len() ==> {
                &&& *final(self) == (App {
                    menu_items: final(self).menu_items,
                    menu_selected: 0,
                    menu_scroll: 0,
                    mode: AppMode::BranchActionMenu,
                    ..*old(self)
                })
                &&& menu_view(final(self).menu_items@) == branch_menu(
                    old(self).branch_info_list@[old(self).branches_pane_selected as int],
                )
            },
    {
        if self.branches_pane_selected < self.branch_info_list.len() {
            let items = Self::branch_menu_items(&self.branch_info_list[self.branches_pane_selected]);
            self.open_menu(items, AppMode::BranchActionMenu);
        }
    }

    /// Whether the selected branch may be deleted: it exists and is neither the current
    /// branch, a remote-only branch nor the trunk.
    pub open spec fn branch_deletable(&self) -> bool {
        &&& self.branches_pane_selected < self.branch_info_list@.len()
        &&& !self.branch_info_list@[self.branches_pane_selected as int].is_current
        &&& !self.branch_info_list@[self.branches_pane_selected as int].is_remote_only
        &&& !self.branch_info_list@[self.branches_pane_selected as int].is_trunk
    }

    /// Ask for confirmation before deleting the selected local branch; no-op for the
    /// current branch, a remote-only branch or the trunk.
    pub fn open_confirm_delete_local_branch(&mut self)
        ensures
            !old(self).branch_deletable() ==> *final(self) == *old(self),
            old(self).branch_deletable() ==> {
                &&& *final(self) == (App {
                    branch_to_delete: final(self).branch_to_delete,
                    mode: AppMode::ConfirmDeleteLocalBranch,
                    ..*old(self)
                })
                &&& final(self).branch_to_delete@ == old(self).branch_info_list@[old(self).branches_pane_selected as int].name@
            },
    {
        if self.branches_pane_selected >= self.branch_info_list.len() {
            return;
        }
        let b = &self.branch_info_list[self.branches_pane_selected];
        if b.is_current || b.is_remote_only || b.is_trunk {
            return;
        }
        let name = crate::text::string_from_chars(crate::text::chars_of(b.name.as_str()).as_slice());
        self.branch_to_delete = name;
        self.mode = AppMode::ConfirmDeleteLocalBranch;
    }

    /// The path of the selected repository, if a repo row is selected.
    pub fn selected_repo_path(&self) -> (res: Option<String>)
        requires
            self.inv(),
        ensures
            res matches Some(p) ==> (self.spec_selected_repo_idx() matches Some(i) && i < self.repos@.len() && p@
                == self.repos@[i as int].path@),
            res is None ==> !(self.spec_selected_repo_idx() matches Some(i) && i < self.repos@.len()),
    {
        match self.selected_repo_idx() {
            Some(i) => if i < self.repos.len() {
                Some(crate::text::string_from_chars(crate::text::chars_of(self.repos[i].path.as_str()).as_slice()))
            } else {
                None
            },
            None => None,
        }
    }

    /// Open the branch selection popup with `branches` (the branches of the selected
    /// repository as the application read them): every branch except the current one,
    /// remote-only ones marked; no-op when no repo row is selected.
    pub fn open_branch_select(&mut self, branches: Vec<BranchInfo>)
        requires
            old(self).inv(),
        ensures
            !(old(self).spec_selected_repo_idx() matches Some(i) && i < old(self).repos@.len()) ==> *final(self) == *old(self),
            (old(self).spec_selected_repo_idx() matches Some(i) && i < old(self).repos@.len()) ==> {
                &&& *final(self) == (App {
                    branch_items: final(self).branch_items,
                    branch_selected: 0,
                    mode: AppMode::BranchSelect,
                    ..*old(self)
                })
                &&& branch_items_view(final(self).branch_items@) == branch_items_of(branches@)
            },
    {
        let has_repo = match self.selected_repo_idx() {
            Some(i) => i < self.repos.len(),
            None => false,
        };
        if !has_repo {
            return;
        }
        let mut items: Vec<BranchItem> = Vec::new();
        let mut i: usize = 0;
        assert(branch_items_view(items@) =~= branch_items_of(branches@.take(0)));
        while i < branches.len()
            invariant
                i <= branches@.len(),
                branch_items_view(items@) == branch_items_of(branches@.take(i as int)),
            decreases branches@.len() - i,
        {
            assert(branches@.take(i + 1).drop_last() =~= branches@.take(i as int));
            let b = &branches[i];
            if !b.is_current {
                let item = BranchItem {
                    name: crate::text::string_from_chars(crate::text::chars_of(b.name.as_str()).as_slice()),
                    is_remote: b.is_remote_only,
                };
                assert(branch_items_view(items@.push(item)) =~= branch_items_view(items@).push((item.name@, item.is_remote)));
                items.push(item);
            }
            i += 1;
        }
        assert(branches@.take(branches@.len() as int) =~= branches@);
        self.set_branch_items(items);
    }

    fn set_branch_items(&mut self, items: Vec<BranchItem>)
        ensures
            *final(self) == (App { branch_items: items, branch_selected: 0, mode: AppMode::BranchSelect, ..*old(self) }),
    {
        self.branch_items = items;
        self.branch_selected = 0;
        self.mode = AppMode::BranchSelect;
    }

    /// Highlight the next branch, wrapping to the first.
    pub fn branch_select_next(&mut self)
        ensures
            final(self).branch_selected == wrap_next(old(self).branch_selected, old(self).branch_items@.len()),
            *final(self) == (App { branch_selected: final(self).branch_selected, ..*old(self) }),
    {
        let v = wrap_next_exec(self.branch_selected, self.branch_items.len());
        self.branch_selected = v;
    }

    /// Highlight the previous branch, wrapping to the last.
    pub fn branch_select_previous(&mut self)
        ensures
            final(self).branch_selected == wrap_previous(old(self).branch_selected, old(self).branch_items@.len()),
            *final(self) == (App { branch_selected: final(self).branch_selected, ..*old(self) }),
    {
        let v = wrap_previous_exec(self.branch_selected, self.branch_items.len());
        self.branch_selected = v;
    }

    /// The highlighted branch of the selection popup, if any.
    pub fn selected_branch_item(&self) -> (res: Option<&BranchItem>)
        ensures
            self.branch_selected < self.branch_items@.len() ==> res == Some(&self.branch_items@[self.branch_selected as int]),
            self.branch_selected >= self.branch_items@.len() ==> res is None,
    {
        if self.branch_selected < self.branch_items.len() {
            Some(&self.branch_items[self.branch_selected])
        } else {
            None
        }
    }

    /// The highlighted branch of the Branches pane, if any.
    pub fn selected_branch_info(&self) -> (res: Option<&BranchInfo>)
        ensures
            self.branches_pane_selected < self.branch_info_list@.len() ==> res == Some(
                &self.branch_info_list@[self.branches_pane_selected as int],
            ),
            self.branches_pane_selected >= self.branch_info_list@.len() ==> res is None,
    {
        if self.branches_pane_selected < self.branch_info_list.len() {
            Some(&self.branch_info_list[self.branches_pane_selected])
        } else {
            None
        }
    }

    /// Highlight the next target section (stays at the last).
    pub fn section_select_next(&mut self)
        ensures
            final(self).section_select_selected == App::step_down(
                old(self).section_select_selected,
                old(self).section_select_items@.len(),
            ),
            *final(self) == (App { section_select_selected: final(self).section_select_selected, ..*old(self) }),
    {
        let v = step_down_exec(self.section_select_selected, self.section_select_items.len());
        self.section_select_selected = v;
    }

    /// Highlight the previous target section (stays at the first).
    pub fn section_select_previous(&mut self)
        ensures
            final(self).section_select_selected == App::step_up(old(self).section_select_selected),
            *final(self) == (App { section_select_selected: final(self).section_select_selected, ..*old(self) }),
    {
        let v = step_up_exec(self.section_select_selected);
        self.section_select_selected = v;
    }
}

} // verus!
