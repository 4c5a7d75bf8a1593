//! The application's user-interface state and the rules by which it changes:
//! selection and scrolling in each pane, focus cycling, menus, sections, history rows
//! and the output log.  Terminal drawing, timers, the file picker, the commit text area
//! and all git and file I/O live in the application around this module.
use vstd::prelude::*;
use crate::config::Config;
use crate::git::{BranchInfo, CommitEntry, FileEntry, HistoryFilter, RepoStatus};
use crate::state::{flat_owner, SectionView, State};
use crate::text::{push_char, push_str};

verus! {

/// What kind of git operation is currently running for a repo.
#[derive(Debug, Clone, Copy, PartialEq, Eq, Structural)]
pub enum RepoOperation {
    Scanning,
    Fetching,
    Pulling,
    Pushing,
    Rebasing,
    Committing,
    Working,
}

impl RepoOperation {
    /// The word shown in the activity column.
    pub fn label(&self) -> (res: &'static str)
        ensures
            res@ == (match *self {
                RepoOperation::Scanning => "scanning"@,
                RepoOperation::Fetching => "fetching"@,
                RepoOperation::Pulling => "pulling"@,
                RepoOperation::Pushing => "pushing"@,
                RepoOperation::Rebasing => "rebasing"@,
                RepoOperation::Committing => "committing"@,
                RepoOperation::Working => "working"@,
            }),
    {
        match self {
            RepoOperation::Scanning => "scanning",
            RepoOperation::Fetching => "fetching",
            RepoOperation::Pulling => "pulling",
            RepoOperation::Pushing => "pushing",
            RepoOperation::Rebasing => "rebasing",
            RepoOperation::Committing => "committing",
            RepoOperation::Working => "working",
        }
    }
}

/// Severity level of a log line.
#[derive(Debug, Clone, Copy, PartialEq, Eq, Structural)]
pub enum LogLevel {
    Debug,
    Info,
    Warn,
    Error,
}

pub open spec fn spec_level_label(l: LogLevel) -> Seq<char> {
    match l {
        LogLevel::Debug => "DEBUG"@,
        LogLevel::Info => "INFO"@,
        LogLevel::Warn => "WARN"@,
        LogLevel::Error => "ERROR"@,
    }
}

impl LogLevel {
    /// Upper-case label.
    pub fn label(self) -> (res: &'static str)
        ensures
            res@ == spec_level_label(self),
    {
        match self {
            LogLevel::Debug => "DEBUG",
            LogLevel::Info => "INFO",
            LogLevel::Warn => "WARN",
            LogLevel::Error => "ERROR",
        }
    }
}

impl Default for LogLevel {
    /// `Info`.
    fn default() -> (res: Self)
        ensures
            res == LogLevel::Info,
    {
        LogLevel::Info
    }
}

/// Whether `t` has the shape `HH:MM:SS`: two digits, a colon, two digits, a colon,
/// two digits.
pub open spec fn is_hms(t: Seq<char>) -> bool {
    &&& t.len() == 8
    &&& t[2] == ':' && t[5] == ':'
    &&& forall|i: int| 0 <= i < 8 && i != 2 && i != 5 ==> '0' <= #[trigger] t[i] <= '9'
}

/// The local wall-clock time, from `chrono::Local::now()` formatted with `%H:%M:%S`.
/// chrono documents each of `%H`, `%M` and `%S` as two zero-padded digits, so the text
/// has the shape `HH:MM:SS`; which time it shows depends on the clock and is not
/// stated.
#[verifier::external_body]
fn current_hms() -> (res: String)
    ensures
        is_hms(res@),
{
    chrono::Local::now().format("%H:%M:%S").to_string()
}

/// One line of the output log.
#[derive(Debug, Clone)]
pub struct LogLine {
    /// Wall-clock time the line was recorded (`HH:MM:SS`).
    pub timestamp: String,
    pub level: LogLevel,
    pub text: String,
}

/// `s` right-aligned in a field of five characters.
pub open spec fn pad5(s: Seq<char>) -> Seq<char> {
    if s.len() >= 5 {
        s
    } else {
        Seq::new((5 - s.len()) as nat, |i: int| ' ') + s
    }
}

/// The rendering of a log line: `[HH:MM:SS LEVEL] text`, the level right-aligned.
pub open spec fn spec_formatted(l: LogLine) -> Seq<char> {
    "["@ + l.timestamp@ + " "@ + pad5(spec_level_label(l.level)) + "] "@ + l.text@
}

impl LogLine {
    /// An `Info` line stamped with the current time (`HH:MM:SS`).
    pub fn new(text: &str) -> (res: Self)
        ensures
            res.level == LogLevel::Info,
            res.text@ == text@,
            is_hms(res.timestamp@),
    {
        Self::new_at(LogLevel::Info, text)
    }

    /// A line of the given level stamped with the current time (`HH:MM:SS`).
    pub fn new_at(level: LogLevel, text: &str) -> (res: Self)
        ensures
            res.level == level,
            res.text@ == text@,
            is_hms(res.timestamp@),
    {
        Self::stamped(current_hms(), level, text)
    }

    /// A line of the given level with the given time stamp.
    pub fn stamped(timestamp: String, level: LogLevel, text: &str) -> (res: Self)
        ensures
            res.timestamp@ == timestamp@,
            res.level == level,
            res.text@ == text@,
    {
        LogLine { timestamp, level, text: String::from_str(text) }
    }

    /// `[HH:MM:SS LEVEL] text` with the level right-aligned to five characters.
    pub fn formatted(&self) -> (res: String)
        ensures
            res@ == spec_formatted(*self),
    {
        let mut out = String::new();
        push_str(&mut out, "[");
        push_str(&mut out, self.timestamp.as_str());
        push_str(&mut out, " ");
        let label = self.level.label();
        let n = label.unicode_len();
        let ghost start = out@;
        let mut k: usize = n;
        while k < 5
            invariant
                n <= k <= 5 || (n > 5 && k == n),
                out@ == start + Seq::new((k - n) as nat, |i: int| ' '),
            decreases 5 - k,
        {
            let ghost before = out@;
            push_char(&mut out, ' ');
            k += 1;
            assert(out@ =~= start + Seq::new((k - n) as nat, |i: int| ' '));
        }
        assert(out@ =~= start + (pad5(label@).take(pad5(label@).len() - label@.len())));
        push_str(&mut out, label);
        assert(out@ =~= start + pad5(label@));
        push_str(&mut out, "] ");
        push_str(&mut out, self.text.as_str());
        out
    }
}

/// Which pane has keyboard focus.
#[derive(Debug, Clone, Copy, PartialEq, Eq, Structural)]
pub enum Focus {
    Repos,
    Branches,
    FileStatus,
    Log,
    History,
    Details,
}

/// Which source last drove the content of the Details pane.
#[derive(Debug, Clone, Copy, PartialEq, Eq, Structural)]
pub enum DetailsSource {
    FileStatus,
    HistoryFile,
    HistoryCommit,
}

/// What the Details pane is displaying.
#[derive(Debug, Clone, Copy, PartialEq, Eq, Structural)]
pub enum DetailsMode {
    Diff,
    Commit,
    Empty,
}

/// What the UI is currently showing.
#[derive(Debug, Clone, Copy, PartialEq, Eq, Structural)]
pub enum AppMode {
    Normal,
    FilePicker,
    ConfirmRemove,
    ActionMenu,
    BranchSelect,
    NewBranchInput,
    CommitMessageInput,
    ConfirmForcePush,
    ConfirmForcePushBranch,
    ConfirmDeleteLocalBranch,
    History,
    HistoryActionMenu,
    LogActionMenu,
    FileActionMenu,
    BranchActionMenu,
    PopupMessage,
    HelpOverlay,
    SectionNameInput,
    ConfirmRemoveSection,
    SectionSelect,
}

/// One row of the Repositories pane.
#[derive(Debug, Clone, Copy, PartialEq, Eq, Structural)]
pub enum VisibleRow {
    /// A named section's title row; the index into `state.sections` (>= 1).
    SectionTitle(usize),
    /// A repository row; the index into `app.repos`.
    Repo(usize),
}

/// One entry of an action menu.
#[derive(Debug, Clone)]
pub struct MenuItem {
    pub label: String,
    pub key: char,
    /// A separator row, which cannot be selected or activated.
    pub is_separator: bool,
    /// Raw shell command and background flag of a custom repo command.
    pub repo_cmd: Option<(String, bool)>,
}

impl MenuItem {
    /// An ordinary item.
    pub fn item(label: &str, key: char) -> (res: Self)
        ensures
            res.label@ == label@,
            res.key == key,
            !res.is_separator,
            res.repo_cmd is None,
    {
        MenuItem { label: String::from_str(label), key, is_separator: false, repo_cmd: None }
    }

    /// A separator row.
    pub fn separator() -> (res: Self)
        ensures
            res.label@.len() == 0,
            res.key == '\0',
            res.is_separator,
            res.repo_cmd is None,
    {
        MenuItem { label: String::new(), key: '\0', is_separator: true, repo_cmd: None }
    }

    /// A custom repo command item.
    pub fn repo_command(label: &str, key: char, cmd: String, background: bool) -> (res: Self)
        ensures
            res.label@ == label@,
            res.key == key,
            !res.is_separator,
            res.repo_cmd matches Some((c, b)) && c@ == cmd@ && b == background,
    {
        MenuItem { label: String::from_str(label), key, is_separator: false, repo_cmd: Some((cmd, background)) }
    }
}

/// An item of the branch selection list.
#[derive(Debug, Clone)]
pub struct BranchItem {
    pub name: String,
    pub is_remote: bool,
}


/// Maximum number of log lines retained.
pub const MAX_LOG_LINES: usize = 1000;

/// Rows to jump with PageUp/PageDown.
pub const PAGE_STEP: usize = 10;

/// Maximum number of commits loaded into the History pane.
pub const HISTORY_COMMIT_LIMIT: usize = 200;

/// Number of colour themes the application offers.
pub const THEME_COUNT: usize = 1;

/// Repository rows `Repo(start)`, ..., `Repo(start + n - 1)`.
pub open spec fn repo_rows(start: nat, n: nat) -> Seq<VisibleRow> {
    Seq::new(n, |i: int| VisibleRow::Repo((start + i) as usize))
}

/// The rows contributed by sections `k..`, whose first repository has flat index `flat`:
/// the default section (index 0) shows its repos without a title; each named section
/// shows its title row, then its repos unless it is collapsed.
pub open spec fn rows_from(ss: Seq<SectionView>, k: nat, flat: nat) -> Seq<VisibleRow>
    decreases ss.len() - k,
{
    if k >= ss.len() {
        Seq::empty()
    } else {
        let s = ss[k as int];
        let own = if k == 0 {
            repo_rows(flat, s.repos.len())
        } else if s.collapsed {
            seq![VisibleRow::SectionTitle(k as usize)]
        } else {
            seq![VisibleRow::SectionTitle(k as usize)] + repo_rows(flat, s.repos.len())
        };
        own + rows_from(ss, k + 1, flat + s.repos.len())
    }
}

/// The rows of the Repositories pane.
pub open spec fn spec_visible_rows(ss: Seq<SectionView>) -> Seq<VisibleRow> {
    rows_from(ss, 0, 0)
}

/// Number of repositories in sections `k..`.
pub open spec fn repos_from(ss: Seq<SectionView>, k: nat) -> nat
    decreases ss.len() - k,
{
    if k >= ss.len() {
        0
    } else {
        ss[k as int].repos.len() + repos_from(ss, k + 1)
    }
}

/// Number of rows of the History pane: one per commit plus one per changed file.
pub open spec fn history_rows(h: Seq<CommitEntry>) -> nat
    decreases h.len(),
{
    if h.len() == 0 {
        0
    } else {
        1 + h[0].files@.len() + history_rows(h.drop_first())
    }
}

/// The commit (and, for a file row, the file) shown at row `r` of the History pane.
pub open spec fn history_row(h: Seq<CommitEntry>, r: int) -> Option<(usize, Option<usize>)>
    decreases h.len(),
{
    if h.len() == 0 || r < 0 {
        None
    } else if r == 0 {
        Some((0usize, None))
    } else if r - 1 < h[0].files@.len() {
        Some((0usize, Some((r - 1) as usize)))
    } else {
        match history_row(h.drop_first(), r - 1 - h[0].files@.len()) {
            Some((ci, fi)) => Some(((ci + 1) as usize, fi)),
            None => None,
        }
    }
}

/// Number of lines of a text as `str::lines` yields them: a final line break does not
/// start another line, and the empty text has none.
pub open spec fn line_count(s: Seq<char>) -> nat {
    if s.len() == 0 {
        0
    } else {
        newline_count(s) + if s.last() == '\n' { 0nat } else { 1nat }
    }
}

pub open spec fn newline_count(s: Seq<char>) -> nat
    decreases s.len(),
{
    if s.len() == 0 {
        0
    } else {
        newline_count(s.drop_last()) + if s.last() == '\n' { 1nat } else { 0nat }
    }
}

proof fn lemma_newline_count_bound(s: Seq<char>)
    ensures
        newline_count(s) <= s.len(),
    decreases s.len(),
{
    if s.len() > 0 {
        lemma_newline_count_bound(s.drop_last());
    }
}

/// Number of lines of a string (see `line_count`).
pub fn count_lines(s: &str) -> (res: usize)
    ensures
        res == line_count(s@),
{
    let cs = crate::text::chars_of(s);
    let mut n: usize = 0;
    let mut i: usize = 0;
    while i < cs.len()
        invariant
            cs@ == s@,
            i <= cs.len(),
            n == newline_count(cs@.take(i as int)),
            n <= i,
        decreases cs.len() - i,
    {
        assert(cs@.take(i + 1).drop_last() =~= cs@.take(i as int));
        if cs[i] == '\n' {
            n += 1;
        }
        i += 1;
    }
    assert(cs@.take(i as int) =~= cs@);
    if cs.len() == 0 {
        0
    } else if cs[cs.len() - 1] == '\n' {
        n
    } else {
        proof { lemma_newline_count_bound(cs@.drop_last()); }
        n + 1
    }
}

/// Where `next_commit` moves the History selection from `sel`.
pub open spec fn next_commit_row(h: Seq<CommitEntry>, sel: usize) -> usize {
    match history_row(h, sel as int) {
        Some((ci, _)) => if ci + 1 < h.len() { commit_header_row(h, ci + 1) as usize } else { sel },
        None => sel,
    }
}

/// Where `previous_commit` moves the History selection from `sel`.
pub open spec fn previous_commit_row(h: Seq<CommitEntry>, sel: usize) -> usize {
    match history_row(h, sel as int) {
        Some((ci, fi)) => commit_header_row(h, if fi is None && ci > 0 { ci - 1 } else { ci as int }) as usize,
        None => sel,
    }
}

/// The row of commit `ci`'s header in the History pane.
pub open spec fn commit_header_row(h: Seq<CommitEntry>, ci: int) -> nat {
    history_rows(h.take(ci))
}

pub proof fn lemma_history_rows_push(h: Seq<CommitEntry>, c: CommitEntry)
    ensures
        history_rows(h.push(c)) == history_rows(h) + 1 + c.files@.len(),
    decreases h.len(),
{
    if h.len() > 0 {
        lemma_history_rows_push(h.drop_first(), c);
        assert(h.push(c).drop_first() =~= h.drop_first().push(c));
        assert(h.push(c)[0] == h[0]);
        assert(history_rows(h) == 1 + h[0].files@.len() + history_rows(h.drop_first()));
        assert(history_rows(h.push(c)) == 1 + h[0].files@.len() + history_rows(h.push(c).drop_first()));
    } else {
        assert(h.push(c).drop_first() =~= Seq::<CommitEntry>::empty());
        assert(h.push(c)[0] == c);
        assert(history_rows(Seq::<CommitEntry>::empty()) == 0);
        assert(history_rows(h) == 0);
        assert(history_rows(h.push(c)) == 1 + c.files@.len() + history_rows(h.push(c).drop_first()));
    }
}

/// Row counts of prefixes grow with the prefix.
pub proof fn lemma_history_rows_take(h: Seq<CommitEntry>, k: int, n: int)
    requires
        0 <= k <= n <= h.len(),
    ensures
        history_rows(h.take(k)) <= history_rows(h.take(n)),
        history_rows(h.take(n)) <= history_rows(h),
    decreases h.len() - k,
{
    if k < h.len() {
        lemma_history_rows_take(h, k + 1, if n > k + 1 { n } else { k + 1 });
        lemma_history_rows_push(h.take(k), h[k]);
        assert(h.take(k + 1) =~= h.take(k).push(h[k]));
    } else {
        assert(h.take(k) =~= h);
        assert(h.take(n) =~= h);
    }
}

/// A resolved row names an existing commit (and file).
pub proof fn lemma_history_row_bounds(h: Seq<CommitEntry>, r: int)
    requires
        h.len() <= usize::MAX,
    ensures
        history_row(h, r) matches Some((ci, fi)) ==> ci < h.len() && (fi matches Some(f) ==> f < h[ci as int].files@.len()),
    decreases h.len(),
{
    if h.len() > 0 && r > 0 {
        if r - 1 < h[0].files@.len() {
        } else {
            lemma_history_row_bounds(h.drop_first(), r - 1 - h[0].files@.len());
            match history_row(h.drop_first(), r - 1 - h[0].files@.len()) {
                Some((ci, fi)) => {
                    assert(h[ci + 1] == h.drop_first()[ci as int]);
                },
                None => {},
            }
        }
    }
}

/// `min(v + PAGE_STEP, n - 1)` for `n > 0`, without overflow; `v` when `n == 0`.
fn page_down_exec(v: usize, n: usize) -> (res: usize)
    ensures
        res == App::page_down(v, n as nat),
{
    if n == 0 {
        v
    } else if v < n - 1 && n - 1 - v > PAGE_STEP {
        v + PAGE_STEP
    } else {
        n - 1
    }
}

/// The application's UI state.
pub struct App {
    pub repos: Vec<RepoStatus>,
    /// Index into the visible rows of the Repositories pane.
    pub selected: usize,
    pub should_quit: bool,
    pub mode: AppMode,
    pub config: Config,
    pub state: State,
    /// True while the initial/global scan is running.
    pub scanning: bool,
    /// Per-repo active operation, at most one per path.
    pub operations: Vec<(String, RepoOperation)>,
    /// Log lines from git command output.
    pub log: Vec<LogLine>,
    pub show_file_status: bool,
    pub show_log: bool,
    /// Top row of the repo table viewport.
    pub table_offset: usize,
    /// Spinner animation tick.
    pub spinner_tick: u64,
    pub focus: Focus,
    pub file_status_selected: usize,
    pub file_status_scroll: usize,
    /// File to reselect after the next file-operation refresh.
    pub reselect_file_path: Option<String>,
    /// Scroll of the log, in lines back from the tail.
    pub log_offset: usize,
    /// Whether the log follows new entries.
    pub log_follow: bool,
    pub menu_items: Vec<MenuItem>,
    pub menu_selected: usize,
    pub menu_scroll: usize,
    pub branch_items: Vec<BranchItem>,
    pub branch_selected: usize,
    pub branch_input: String,
    /// Base branch for a new branch; empty means HEAD.
    pub branch_input_base: String,
    pub branch_to_delete: String,
    pub branch_to_force_push: String,
    pub commit_is_amend: bool,
    pub commit_head_file_count: usize,
    pub theme_idx: usize,
    pub history: Vec<CommitEntry>,
    pub show_history: bool,
    pub history_repo_path: String,
    pub history_filter: HistoryFilter,
    pub history_selected: usize,
    pub history_scroll: usize,
    pub popup_message: Option<String>,
    pub show_branches: bool,
    pub branch_info_list: Vec<BranchInfo>,
    pub branches_pane_selected: usize,
    pub branches_pane_scroll: usize,
    pub branches_history_active: bool,
    pub show_details: bool,
    pub details_mode: DetailsMode,
    pub details_content: String,
    pub details_scroll: usize,
    pub details_source: DetailsSource,
    pub help_overlay_scroll: usize,
    pub help_overlay_max_scroll: usize,
    pub section_input: String,
    pub section_input_is_create: bool,
    pub section_input_target_idx: usize,
    pub section_to_remove_idx: Option<usize>,
    pub section_select_items: Vec<(usize, String)>,
    pub section_select_selected: usize,
    pub repos_height_override: Option<u16>,
    pub dragging_repos_divider: bool,
    pub hover_repos_divider: bool,
    pub details_width_override: Option<u16>,
    pub dragging_details_divider: bool,
    pub hover_details_divider: bool,
}

impl App {
    /// The shape every method relies on: a default section exists, and the counts of
    /// repositories and history rows fit in a `usize`.
    pub open spec fn inv(&self) -> bool {
        &&& self.state.ss().len() >= 1
        &&& repos_from(self.state.ss(), 0) + self.state.ss().len() <= usize::MAX
        &&& history_rows(self.history@) <= usize::MAX
    }

    pub open spec fn rows(&self) -> Seq<VisibleRow> {
        spec_visible_rows(self.state.ss())
    }

    /// The row under the selection, if the selection is on a row.
    pub open spec fn selected_row(&self) -> Option<VisibleRow> {
        if self.selected < self.rows().len() {
            Some(self.rows()[self.selected as int])
        } else {
            None
        }
    }

    pub open spec fn spec_selected_repo_idx(&self) -> Option<usize> {
        match self.selected_row() {
            Some(VisibleRow::Repo(i)) => Some(i),
            _ => None,
        }
    }

    pub open spec fn spec_current_section_idx(&self) -> usize {
        match self.selected_row() {
            Some(VisibleRow::SectionTitle(k)) => k,
            Some(VisibleRow::Repo(i)) => match flat_owner(self.state.ss(), i as int) {
                Some(k) => k as usize,
                None => 0,
            },
            None => 0,
        }
    }

    /// The files of the selected repository (empty when no repo row is selected).
    pub open spec fn spec_selected_files(&self) -> Seq<FileEntry> {
        match self.spec_selected_repo_idx() {
            Some(i) => if i < self.repos@.len() { self.repos@[i as int].files@ } else { Seq::empty() },
            None => Seq::empty(),
        }
    }

    /// The rows of the Repositories pane: named sections show a title row, collapsed
    /// sections hide their repos; repo rows carry indices into `repos` in display order.
    pub fn visible_rows(&self) -> (res: Vec<VisibleRow>)
        requires
            self.inv(),
        ensures
            res@ == self.rows(),
    {
        let ghost ss = self.state.ss();
        let mut rows: Vec<VisibleRow> = Vec::new();
        let mut flat: usize = 0;
        let mut k: usize = 0;
        while k < self.state.sections.len()
            invariant
                ss == self.state.ss(),
                self.inv(),
                k <= ss.len(),
                flat + repos_from(ss, k as nat) == repos_from(ss, 0),
                rows@ + rows_from(ss, k as nat, flat as nat) == rows_from(ss, 0, 0),
            decreases ss.len() - k,
        {
            let n = self.state.sections[k].repos.len();
            let collapsed = self.state.sections[k].collapsed;
            assert(ss[k as int].repos.len() == n);
            let ghost before = rows@;
            if k > 0 {
                rows.push(VisibleRow::SectionTitle(k));
            }
            let ghost mid = rows@;
            if k == 0 || !collapsed {
                let mut j: usize = 0;
                while j < n
                    invariant
                        flat + n <= repos_from(ss, 0),
                        repos_from(ss, 0) <= usize::MAX,
                        j <= n,
                        rows@ == mid + repo_rows(flat as nat, j as nat),
                    decreases n - j,
                {
                    rows.push(VisibleRow::Repo(flat + j));
                    j += 1;
                    assert(rows@ =~= mid + repo_rows(flat as nat, j as nat));
                }
            }
            assert(rows@ + rows_from(ss, (k + 1) as nat, (flat + n) as nat) =~= before + rows_from(ss, k as nat, flat as nat));
            flat = flat + n;
            k += 1;
        }
        assert(rows@ =~= rows_from(ss, 0, 0));
        rows
    }

    /// The index into `repos` of the selected row when it is a repo row; `None` for a
    /// section title row or a selection past the last row.
    pub fn selected_repo_idx(&self) -> (res: Option<usize>)
        requires
            self.inv(),
        ensures
            res == self.spec_selected_repo_idx(),
    {
        let rows = self.visible_rows();
        if self.selected < rows.len() {
            match rows[self.selected] {
                VisibleRow::Repo(i) => Some(i),
                VisibleRow::SectionTitle(_) => None,
            }
        } else {
            None
        }
    }

    /// The section index when the selected row is a section title, otherwise `None`.
    pub fn selected_section_title_idx(&self) -> (res: Option<usize>)
        requires
            self.inv(),
        ensures
            res == (match self.selected_row() {
                Some(VisibleRow::SectionTitle(k)) => Some(k),
                _ => None::<usize>,
            }),
    {
        let rows = self.visible_rows();
        if self.selected < rows.len() {
            match rows[self.selected] {
                VisibleRow::SectionTitle(k) => Some(k),
                VisibleRow::Repo(_) => None,
            }
        } else {
            None
        }
    }

    /// The section containing the selected row: the titled section, or the section that
    /// owns the selected repo; 0 when nothing is selected.
    pub fn current_section_idx(&self) -> (res: usize)
        requires
            self.inv(),
        ensures
            res == self.spec_current_section_idx(),
    {
        let rows = self.visible_rows();
        if self.selected < rows.len() {
            match rows[self.selected] {
                VisibleRow::SectionTitle(k) => k,
                VisibleRow::Repo(i) => self.state.section_idx_for_flat_repo_idx(i),
            }
        } else {
            0
        }
    }

    /// The name of the current section when it is a named one.
    pub open spec fn title_section(&self) -> Option<Seq<char>> {
        let k = self.spec_current_section_idx();
        if k == 0 {
            None
        } else {
            Some(match self.state.ss()[k as int].name {
                Some(n) => n,
                None => Seq::empty(),
            })
        }
    }

    /// The last path component of the selected repository, when a repo row is selected.
    pub open spec fn title_repo(&self) -> Option<Seq<char>> {
        match self.spec_selected_repo_idx() {
            Some(i) => if i < self.repos@.len() {
                Some(crate::utils::path_base(self.repos@[i as int].path@))
            } else {
                None
            },
            None => None,
        }
    }

    pub open spec fn spec_repos_pane_title(&self) -> Seq<char> {
        match (self.title_section(), self.title_repo()) {
            (Some(s), Some(r)) => "Repositories ( "@ + s + " - "@ + r + " )"@,
            (Some(s), None) => "Repositories ( "@ + s + " )"@,
            (None, Some(r)) => "Repositories ( "@ + r + " )"@,
            (None, None) => "Repositories"@,
        }
    }

    /// Title of the Repositories pane: `Repositories ( <section> - <repo> )` for a repo
    /// of a named section, `Repositories ( <section> )` for a named section's title row,
    /// `Repositories ( <repo> )` for a repo of the default section, and `Repositories`
    /// when nothing is selected (`<repo>` is the last component of its path).
    pub fn repos_pane_title(&self) -> (res: String)
        requires
            self.inv(),
        ensures
            res@ == self.spec_repos_pane_title(),
    {
        proof { crate::app_sections::lemma_current_section_in_range(self); }
        let section_idx = self.current_section_idx();
        let repo: Option<String> = match self.selected_repo_idx() {
            Some(i) => if i < self.repos.len() {
                Some(crate::utils::last_component(self.repos[i].path.as_str()))
            } else {
                None
            },
            None => None,
        };
        let mut out = String::new();
        push_str(&mut out, "Repositories");
        if section_idx == 0 && repo.is_none() {
            proof { reveal_strlit("Repositories"); }
            return out;
        }
        push_str(&mut out, " ( ");
        if section_idx != 0 {
            match &self.state.sections[section_idx].name {
                Some(n) => push_str(&mut out, n.as_str()),
                None => {},
            }
            if repo.is_some() {
                push_str(&mut out, " - ");
            }
        }
        match &repo {
            Some(r) => push_str(&mut out, r.as_str()),
            None => {},
        }
        push_str(&mut out, " )");
        proof {
            reveal_strlit("Repositories");
            reveal_strlit(" ( ");
            reveal_strlit(" - ");
            reveal_strlit(" )");
            reveal_strlit("Repositories ( ");
        }
        out
    }

    /// The files of the selected repository; empty when no repo row is selected.
    pub fn selected_files(&self) -> (res: &[FileEntry])
        requires
            self.inv(),
        ensures
            res@ == self.spec_selected_files(),
    {
        match self.selected_repo_idx() {
            Some(i) => {
                if i < self.repos.len() {
                    self.repos[i].files.as_slice()
                } else {
                    &[]
                }
            },
            None => &[],
        }
    }

    /// The file selected in the File Status pane, if any.
    pub fn selected_file_entry(&self) -> (res: Option<&FileEntry>)
        requires
            self.inv(),
        ensures
            self.file_status_selected < self.spec_selected_files().len() ==> res == Some(
                &self.spec_selected_files()[self.file_status_selected as int],
            ),
            self.file_status_selected >= self.spec_selected_files().len() ==> res is None,
    {
        let files = self.selected_files();
        if self.file_status_selected < files.len() {
            Some(&files[self.file_status_selected])
        } else {
            None
        }
    }

    /// Number of staged files of the selected repository (0 when none is selected).
    pub fn staged_file_count(&self) -> (res: usize)
        requires
            self.inv(),
        ensures
            res == (match self.spec_selected_repo_idx() {
                Some(i) => if i < self.repos@.len() { self.repos@[i as int].staged } else { 0 },
                None => 0,
            }),
    {
        match self.selected_repo_idx() {
            Some(i) => if i < self.repos.len() { self.repos[i].staged } else { 0 },
            None => 0,
        }
    }

    /// Rows of the History pane: one per commit and one per changed file.
    pub fn history_row_count(&self) -> (res: usize)
        requires
            self.inv(),
        ensures
            res == history_rows(self.history@),
    {
        let ghost h = self.history@;
        let mut total: usize = 0;
        let mut i: usize = 0;
        assert(h.skip(0) =~= h);
        while i < self.history.len()
            invariant
                h == self.history@,
                history_rows(h) <= usize::MAX,
                i <= h.len(),
                total + history_rows(h.skip(i as int)) == history_rows(h),
            decreases h.len() - i,
        {
            assert(h.skip(i as int)[0] == h[i as int]);
            assert(h.skip(i as int).drop_first() =~= h.skip(i + 1));
            total = total + 1 + self.history[i].files.len();
            i += 1;
        }
        total
    }

    /// Resolve a flat History row into `(commit_index, None)` for a commit header or
    /// `(commit_index, Some(file_index))` for a file row; `None` past the last row.
    pub fn history_row_at(&self, row_index: usize) -> (res: Option<(usize, Option<usize>)>)
        ensures
            res == history_row(self.history@, row_index as int),
    {
        let ghost h = self.history@;
        let mut remaining: usize = row_index;
        let mut ci: usize = 0;
        let hl = self.history.len();
        assert(h.len() == hl);
        assert(h.skip(0) =~= h);
        while ci < self.history.len()
            invariant
                h == self.history@,
                h.len() <= usize::MAX,
                ci <= h.len(),
                history_row(h, row_index as int) == (match history_row(h.skip(ci as int), remaining as int) {
                    Some((c, f)) => Some(((c + ci) as usize, f)),
                    None => None::<(usize, Option<usize>)>,
                }),
            decreases h.len() - ci,
        {
            let n = self.history[ci].files.len();
            assert(h.skip(ci as int)[0] == h[ci as int]);
            assert(h.skip(ci as int).drop_first() =~= h.skip(ci + 1));
            proof {
                if remaining > n {
                    lemma_history_row_bounds(h.skip(ci + 1), remaining - 1 - n);
                }
            }
            if remaining == 0 {
                return Some((ci, None));
            }
            remaining -= 1;
            if remaining < n {
                return Some((ci, Some(remaining)));
            }
            remaining -= n;
            ci += 1;
        }
        None
    }

    /// The flat row of commit `ci`'s header.
    fn history_commit_flat_row(&self, ci: usize) -> (res: usize)
        requires
            self.inv(),
            ci <= self.history@.len(),
        ensures
            res == commit_header_row(self.history@, ci as int),
    {
        let ghost h = self.history@;
        let mut total: usize = 0;
        let mut i: usize = 0;
        while i < ci
            invariant
                h == self.history@,
                history_rows(h) <= usize::MAX,
                ci <= h.len(),
                i <= ci,
                total == history_rows(h.take(i as int)),
            decreases ci - i,
        {
            proof {
                lemma_history_rows_push(h.take(i as int), h[i as int]);
                lemma_history_rows_take(h, i + 1, i + 1);
            }
            assert(h.take(i + 1) =~= h.take(i as int).push(h[i as int]));
            total = total + 1 + self.history[i].files.len();
            i += 1;
        }
        total
    }

    /// The row `next_commit` moves to.
    fn next_commit_target(&self) -> (res: usize)
        requires
            self.inv(),
        ensures
            res == next_commit_row(self.history@, self.history_selected),
    {
        match self.history_row_at(self.history_selected) {
            Some((ci, _)) => {
                let hl = self.history.len();
                proof { lemma_history_row_bounds(self.history@, self.history_selected as int); }
                if ci + 1 < hl {
                    self.history_commit_flat_row(ci + 1)
                } else {
                    self.history_selected
                }
            },
            None => self.history_selected,
        }
    }

    /// The row `previous_commit` moves to.
    fn previous_commit_target(&self) -> (res: usize)
        requires
            self.inv(),
        ensures
            res == previous_commit_row(self.history@, self.history_selected),
    {
        match self.history_row_at(self.history_selected) {
            Some((ci, fi)) => {
                let hl = self.history.len();
                proof { lemma_history_row_bounds(self.history@, self.history_selected as int); }
                let target = if fi.is_none() && ci > 0 { ci - 1 } else { ci };
                self.history_commit_flat_row(target)
            },
            None => self.history_selected,
        }
    }

    /// Move the History selection to the next commit's header row; stays on the last
    /// commit.  No-op when the selection is not on a row.
    pub fn next_commit(&mut self)
        requires
            old(self).inv(),
        ensures
            final(self).history_selected == next_commit_row(old(self).history@, old(self).history_selected),
            *final(self) == (App { history_selected: final(self).history_selected, ..*old(self) }),
    {
        self.history_selected = self.next_commit_target();
    }

    /// Move the History selection to the header of the current commit when on a file
    /// row, or to the previous commit's header when on a header (staying on the first).
    pub fn previous_commit(&mut self)
        requires
            old(self).inv(),
        ensures
            final(self).history_selected == previous_commit_row(old(self).history@, old(self).history_selected),
            *final(self) == (App { history_selected: final(self).history_selected, ..*old(self) }),
    {
        self.history_selected = self.previous_commit_target();
    }

    /// The number of lines the Details pane can scroll through.
    pub open spec fn spec_details_lines(&self) -> nat {
        match self.details_mode {
            DetailsMode::Diff => line_count(self.details_content@),
            DetailsMode::Commit => match history_row(self.history@, self.history_selected as int) {
                Some((ci, None)) => if ci < self.history@.len() {
                    let b = line_count(self.history@[ci as int].body@);
                    4 + if b > 1 { b } else { 1 }
                } else {
                    0
                },
                _ => 0,
            },
            DetailsMode::Empty => 0,
        }
    }

    /// Number of lines of the Details pane: the diff's lines, or for a commit the four
    /// header lines plus its body lines (at least one); 0 when empty.  Saturates at
    /// `usize::MAX`.
    pub fn details_line_count(&self) -> (res: usize)
        ensures
            res == if self.spec_details_lines() <= usize::MAX { self.spec_details_lines() } else { usize::MAX as nat },
    {
        match self.details_mode {
            DetailsMode::Diff => count_lines(self.details_content.as_str()),
            DetailsMode::Commit => match self.history_row_at(self.history_selected) {
                Some((ci, None)) => {
                    if ci < self.history.len() {
                        let b = count_lines(self.history[ci].body.as_str());
                        let m = if b > 1 { b } else { 1 };
                        m.saturating_add(4)
                    } else {
                        0
                    }
                },
                _ => 0,
            },
            DetailsMode::Empty => 0,
        }
    }

    /// The Details line count as `details_line_count` returns it.
    pub open spec fn details_lines_capped(&self) -> nat {
        if self.spec_details_lines() <= usize::MAX { self.spec_details_lines() } else { usize::MAX as nat }
    }

    /// Only the navigation fields differ between `self` and `other`.
    pub open spec fn same_but_nav(&self, other: &App) -> bool {
        *self == (App {
            selected: self.selected,
            file_status_selected: self.file_status_selected,
            file_status_scroll: self.file_status_scroll,
            branches_pane_selected: self.branches_pane_selected,
            log_offset: self.log_offset,
            log_follow: self.log_follow,
            history_selected: self.history_selected,
            details_scroll: self.details_scroll,
            ..*other
        })
    }

    /// `v + 1` when that stays below `n`, else `v`.
    pub open spec fn step_down(v: usize, n: nat) -> usize {
        if v + 1 < n { (v + 1) as usize } else { v }
    }

    /// `v - 1`, not below 0.
    pub open spec fn step_up(v: usize) -> usize {
        if v > 0 { (v - 1) as usize } else { 0 }
    }

    /// Move the selection down one row in the focused pane (clamped at the last row).
    /// In the Repositories pane (when it has rows) this also resets the File Status
    /// selection and scroll; in the log it scrolls toward the tail (offset 0) and
    /// re-enables follow mode there.  Only these fields change.
    fn set_nav4a(&mut self, a: usize, b: usize, c: usize, d: usize)
        ensures
            final(self).selected == a,
            final(self).file_status_selected == b,
            final(self).file_status_scroll == c,
            final(self).branches_pane_selected == d,
            *final(self) == (App {
                selected: final(self).selected,
                file_status_selected: final(self).file_status_selected,
                file_status_scroll: final(self).file_status_scroll,
                branches_pane_selected: final(self).branches_pane_selected,
                ..*old(self)
            }),
    {
        self.selected = a;
        self.file_status_selected = b;
        self.file_status_scroll = c;
        self.branches_pane_selected = d;
    }

    fn set_nav4b(&mut self, a: usize, b: bool, c: usize, d: usize)
        ensures
            final(self).log_offset == a,
            final(self).log_follow == b,
            final(self).history_selected == c,
            final(self).details_scroll == d,
            *final(self) == (App {
                log_offset: final(self).log_offset,
                log_follow: final(self).log_follow,
                history_selected: final(self).history_selected,
                details_scroll: final(self).details_scroll,
                ..*old(self)
            }),
    {
        self.log_offset = a;
        self.log_follow = b;
        self.history_selected = c;
        self.details_scroll = d;
    }

    /// Store the navigation fields (in the order of `nav_next`).
    fn set_nav(&mut self, v: (usize, usize, usize, usize, usize, bool, usize, usize))
        ensures
            final(self).same_but_nav(old(self)),
            final(self).selected == v.0,
            final(self).file_status_selected == v.1,
            final(self).file_status_scroll == v.2,
            final(self).branches_pane_selected == v.3,
            final(self).log_offset == v.4,
            final(self).log_follow == v.5,
            final(self).history_selected == v.6,
            final(self).details_scroll == v.7,
    {
        self.set_nav4a(v.0, v.1, v.2, v.3);
        self.set_nav4b(v.4, v.5, v.6, v.7);
    }

    /// The navigation fields after `next`:
    /// (selected, file_status_selected, file_status_scroll, branches_pane_selected,
    /// log_offset, log_follow, history_selected, details_scroll).
    fn nav_next(&self) -> (res: (usize, usize, usize, usize, usize, bool, usize, usize))
        requires
            self.inv(),
        ensures
            res.0 == (if self.focus == Focus::Repos {
                Self::step_down(self.selected, self.rows().len())
            } else {
                self.selected
            }),
            res.1 == (if self.focus == Focus::Repos && self.rows().len() > 0 {
                0
            } else if self.focus == Focus::FileStatus {
                Self::step_down(self.file_status_selected, self.spec_selected_files().len())
            } else {
                self.file_status_selected
            }),
            res.2 == (if self.focus == Focus::Repos && self.rows().len() > 0 {
                0
            } else {
                self.file_status_scroll
            }),
            res.3 == (if self.focus == Focus::Branches {
                Self::step_down(self.branches_pane_selected, self.branch_info_list@.len())
            } else {
                self.branches_pane_selected
            }),
            res.4 == (if self.focus == Focus::Log {
                Self::step_up(self.log_offset)
            } else {
                self.log_offset
            }),
            res.5 == (if self.focus == Focus::Log && self.log_offset <= 1 {
                true
            } else {
                self.log_follow
            }),
            res.6 == (if self.focus == Focus::History {
                Self::step_down(self.history_selected, history_rows(self.history@))
            } else {
                self.history_selected
            }),
            res.7 == (if self.focus == Focus::Details {
                Self::step_down(self.details_scroll, self.details_lines_capped())
            } else {
                self.details_scroll
            }),
    {
        let mut r = (self.selected, self.file_status_selected, self.file_status_scroll, self.branches_pane_selected,
            self.log_offset, self.log_follow, self.history_selected, self.details_scroll);
        match self.focus {
            Focus::Repos => {
                let n = self.visible_rows().len();
                if n > 0 {
                    r.0 = if self.selected < n - 1 { self.selected + 1 } else { self.selected };
                    r.1 = 0;
                    r.2 = 0;
                }
            },
            Focus::Branches => {
                let n = self.branch_info_list.len();
                r.3 = if n > 0 && self.branches_pane_selected < n - 1 {
                    self.branches_pane_selected + 1
                } else {
                    self.branches_pane_selected
                };
            },
            Focus::FileStatus => {
                let n = self.selected_files().len();
                r.1 = if n > 0 && self.file_status_selected < n - 1 {
                    self.file_status_selected + 1
                } else {
                    self.file_status_selected
                };
            },
            Focus::Log => {
                let off = if self.log_offset > 0 { self.log_offset - 1 } else { 0 };
                r.4 = off;
                r.5 = if off == 0 { true } else { self.log_follow };
            },
            Focus::History => {
                let n = self.history_row_count();
                r.6 = if n > 0 && self.history_selected < n - 1 { self.history_selected + 1 } else { self.history_selected };
            },
            Focus::Details => {
                let n = self.details_line_count();
                r.7 = if n > 0 && self.details_scroll < n - 1 { self.details_scroll + 1 } else { self.details_scroll };
            },
        }
        r
    }

    pub fn next(&mut self)
        requires
            old(self).inv(),
        ensures
            final(self).same_but_nav(old(self)),
            final(self).selected == (if old(self).focus == Focus::Repos {
                Self::step_down(old(self).selected, old(self).rows().len())
            } else {
                old(self).selected
            }),
            final(self).file_status_selected == (if old(self).focus == Focus::Repos && old(self).rows().len() > 0 {
                0
            } else if old(self).focus == Focus::FileStatus {
                Self::step_down(old(self).file_status_selected, old(self).spec_selected_files().len())
            } else {
                old(self).file_status_selected
            }),
            final(self).file_status_scroll == (if old(self).focus == Focus::Repos && old(self).rows().len() > 0 {
                0
            } else {
                old(self).file_status_scroll
            }),
            final(self).branches_pane_selected == (if old(self).focus == Focus::Branches {
                Self::step_down(old(self).branches_pane_selected, old(self).branch_info_list@.len())
            } else {
                old(self).branches_pane_selected
            }),
            final(self).log_offset == (if old(self).focus == Focus::Log {
                Self::step_up(old(self).log_offset)
            } else {
                old(self).log_offset
            }),
            final(self).log_follow == (if old(self).focus == Focus::Log && old(self).log_offset <= 1 {
                true
            } else {
                old(self).log_follow
            }),
            final(self).history_selected == (if old(self).focus == Focus::History {
                Self::step_down(old(self).history_selected, history_rows(old(self).history@))
            } else {
                old(self).history_selected
            }),
            final(self).details_scroll == (if old(self).focus == Focus::Details {
                Self::step_down(old(self).details_scroll, old(self).details_lines_capped())
            } else {
                old(self).details_scroll
            }),
    {
        let v = self.nav_next();
        self.set_nav(v);
    }

    /// Move the selection up one row in the focused pane (clamped at the first row).
    /// In the Repositories pane (when it has rows) this also resets the File Status
    /// selection and scroll; in the log it scrolls away from the tail (not past the first
    /// entry) and turns follow mode off.  Only these fields change.
    /// The navigation fields after `previous` (same order as `nav_next`).
    fn nav_previous(&self) -> (res: (usize, usize, usize, usize, usize, bool, usize, usize))
        requires
            self.inv(),
        ensures
            res.0 == (if self.focus == Focus::Repos && self.rows().len() > 0 {
                Self::step_up(self.selected)
            } else {
                self.selected
            }),
            res.1 == (if self.focus == Focus::Repos && self.rows().len() > 0 {
                0
            } else if self.focus == Focus::FileStatus {
                Self::step_up(self.file_status_selected)
            } else {
                self.file_status_selected
            }),
            res.2 == (if self.focus == Focus::Repos && self.rows().len() > 0 {
                0
            } else {
                self.file_status_scroll
            }),
            res.3 == (if self.focus == Focus::Branches {
                Self::step_up(self.branches_pane_selected)
            } else {
                self.branches_pane_selected
            }),
            res.4 == (if self.focus == Focus::Log && self.log_offset + 1 < self.log@.len() {
                (self.log_offset + 1) as usize
            } else {
                self.log_offset
            }),
            res.5 == (if self.focus == Focus::Log { false } else { self.log_follow }),
            res.6 == (if self.focus == Focus::History {
                Self::step_up(self.history_selected)
            } else {
                self.history_selected
            }),
            res.7 == (if self.focus == Focus::Details {
                Self::step_up(self.details_scroll)
            } else {
                self.details_scroll
            }),
    {
        let mut r = (self.selected, self.file_status_selected, self.file_status_scroll, self.branches_pane_selected,
            self.log_offset, self.log_follow, self.history_selected, self.details_scroll);
        match self.focus {
            Focus::Repos => {
                let n = self.visible_rows().len();
                if n > 0 {
                    r.0 = if self.selected > 0 { self.selected - 1 } else { 0 };
                    r.1 = 0;
                    r.2 = 0;
                }
            },
            Focus::Branches => {
                r.3 = if self.branches_pane_selected > 0 { self.branches_pane_selected - 1 } else { 0 };
            },
            Focus::FileStatus => {
                r.1 = if self.file_status_selected > 0 { self.file_status_selected - 1 } else { 0 };
            },
            Focus::Log => {
                let max_back = if self.log.len() > 0 { self.log.len() - 1 } else { 0 };
                r.4 = if self.log_offset < max_back { self.log_offset + 1 } else { self.log_offset };
                r.5 = false;
            },
            Focus::History => {
                r.6 = if self.history_selected > 0 { self.history_selected - 1 } else { 0 };
            },
            Focus::Details => {
                r.7 = if self.details_scroll > 0 { self.details_scroll - 1 } else { 0 };
            },
        }
        r
    }

    pub fn previous(&mut self)
        requires
            old(self).inv(),
        ensures
            final(self).same_but_nav(old(self)),
            final(self).selected == (if old(self).focus == Focus::Repos && old(self).rows().len() > 0 {
                Self::step_up(old(self).selected)
            } else {
                old(self).selected
            }),
            final(self).file_status_selected == (if old(self).focus == Focus::Repos && old(self).rows().len() > 0 {
                0
            } else if old(self).focus == Focus::FileStatus {
                Self::step_up(old(self).file_status_selected)
            } else {
                old(self).file_status_selected
            }),
            final(self).file_status_scroll == (if old(self).focus == Focus::Repos && old(self).rows().len() > 0 {
                0
            } else {
                old(self).file_status_scroll
            }),
            final(self).branches_pane_selected == (if old(self).focus == Focus::Branches {
                Self::step_up(old(self).branches_pane_selected)
            } else {
                old(self).branches_pane_selected
            }),
            final(self).log_offset == (if old(self).focus == Focus::Log && old(self).log_offset + 1 < old(self).log@.len() {
                (old(self).log_offset + 1) as usize
            } else {
                old(self).log_offset
            }),
            final(self).log_follow == (if old(self).focus == Focus::Log { false } else { old(self).log_follow }),
            final(self).history_selected == (if old(self).focus == Focus::History {
                Self::step_up(old(self).history_selected)
            } else {
                old(self).history_selected
            }),
            final(self).details_scroll == (if old(self).focus == Focus::Details {
                Self::step_up(old(self).details_scroll)
            } else {
                old(self).details_scroll
            }),
    {
        let v = self.nav_previous();
        self.set_nav(v);
    }

    /// `v + PAGE_STEP`, but not past the last of `n` rows; `v` when there are none.
    pub open spec fn page_down(v: usize, n: nat) -> usize {
        if n == 0 {
            v
        } else if v + PAGE_STEP < n {
            (v + PAGE_STEP) as usize
        } else {
            (n - 1) as usize
        }
    }

    /// `v - PAGE_STEP`, not below 0.
    pub open spec fn page_up(v: usize) -> usize {
        if v >= PAGE_STEP { (v - PAGE_STEP) as usize } else { 0 }
    }

    /// The navigation fields after `next_page` (same order as `nav_next`).
    fn nav_next_page(&self) -> (res: (usize, usize, usize, usize, usize, bool, usize, usize))
        requires
            self.inv(),
        ensures
            res.0 == (if self.focus == Focus::Repos {
                Self::page_down(self.selected, self.rows().len())
            } else {
                self.selected
            }),
            res.1 == (if self.focus == Focus::Repos && self.rows().len() > 0 {
                0
            } else if self.focus == Focus::FileStatus {
                Self::page_down(self.file_status_selected, self.spec_selected_files().len())
            } else {
                self.file_status_selected
            }),
            res.2 == (if self.focus == Focus::Repos && self.rows().len() > 0 {
                0
            } else {
                self.file_status_scroll
            }),
            res.3 == (if self.focus == Focus::Branches {
                Self::page_down(self.branches_pane_selected, self.branch_info_list@.len())
            } else {
                self.branches_pane_selected
            }),
            res.4 == (if self.focus == Focus::Log { Self::page_up(self.log_offset) } else { self.log_offset }),
            res.5 == (if self.focus == Focus::Log && self.log_offset <= PAGE_STEP {
                true
            } else {
                self.log_follow
            }),
            res.6 == (if self.focus == Focus::History {
                Self::page_down(self.history_selected, history_rows(self.history@))
            } else {
                self.history_selected
            }),
            res.7 == (if self.focus == Focus::Details {
                Self::page_down(self.details_scroll, self.details_lines_capped())
            } else {
                self.details_scroll
            }),
    {
        let mut r = (self.selected, self.file_status_selected, self.file_status_scroll, self.branches_pane_selected,
            self.log_offset, self.log_follow, self.history_selected, self.details_scroll);
        match self.focus {
            Focus::Repos => {
                let n = self.visible_rows().len();
                if n > 0 {
                    r.0 = page_down_exec(self.selected, n);
                    r.1 = 0;
                    r.2 = 0;
                }
            },
            Focus::Branches => {
                r.3 = page_down_exec(self.branches_pane_selected, self.branch_info_list.len());
            },
            Focus::FileStatus => {
                r.1 = page_down_exec(self.file_status_selected, self.selected_files().len());
            },
            Focus::Log => {
                let off = if self.log_offset >= PAGE_STEP { self.log_offset - PAGE_STEP } else { 0 };
                r.4 = off;
                r.5 = if off == 0 { true } else { self.log_follow };
            },
            Focus::History => {
                r.6 = page_down_exec(self.history_selected, self.history_row_count());
            },
            Focus::Details => {
                r.7 = page_down_exec(self.details_scroll, self.details_line_count());
            },
        }
        r
    }

    /// Move down by `PAGE_STEP` rows in the focused pane, clamped at the last row (no
    /// wrap-around).  The Repositories pane (when it has rows) also resets the File
    /// Status selection and scroll; the log pages toward the tail and follows again
    /// once it reaches it.  Only the navigation fields change.
    pub fn next_page(&mut self)
        requires
            old(self).inv(),
        ensures
            final(self).same_but_nav(old(self)),
            final(self).selected == (if old(self).focus == Focus::Repos {
                Self::page_down(old(self).selected, old(self).rows().len())
            } else {
                old(self).selected
            }),
            final(self).file_status_selected == (if old(self).focus == Focus::Repos && old(self).rows().len() > 0 {
                0
            } else if old(self).focus == Focus::FileStatus {
                Self::page_down(old(self).file_status_selected, old(self).spec_selected_files().len())
            } else {
                old(self).file_status_selected
            }),
            final(self).file_status_scroll == (if old(self).focus == Focus::Repos && old(self).rows().len() > 0 {
                0
            } else {
                old(self).file_status_scroll
            }),
            final(self).branches_pane_selected == (if old(self).focus == Focus::Branches {
                Self::page_down(old(self).branches_pane_selected, old(self).branch_info_list@.len())
            } else {
                old(self).branches_pane_selected
            }),
            final(self).log_offset == (if old(self).focus == Focus::Log {
                Self::page_up(old(self).log_offset)
            } else {
                old(self).log_offset
            }),
            final(self).log_follow == (if old(self).focus == Focus::Log && old(self).log_offset <= PAGE_STEP {
                true
            } else {
                old(self).log_follow
            }),
            final(self).history_selected == (if old(self).focus == Focus::History {
                Self::page_down(old(self).history_selected, history_rows(old(self).history@))
            } else {
                old(self).history_selected
            }),
            final(self).details_scroll == (if old(self).focus == Focus::Details {
                Self::page_down(old(self).details_scroll, old(self).details_lines_capped())
            } else {
                old(self).details_scroll
            }),
    {
        let v = self.nav_next_page();
        self.set_nav(v);
    }

    /// The navigation fields after `previous_page` (same order as `nav_next`).
    fn nav_previous_page(&self) -> (res: (usize, usize, usize, usize, usize, bool, usize, usize))
        requires
            self.inv(),
        ensures
            res.0 == (if self.focus == Focus::Repos { Self::page_up(self.selected) } else { self.selected }),
            res.1 == (if self.focus == Focus::Repos {
                0
            } else if self.focus == Focus::FileStatus {
                Self::page_up(self.file_status_selected)
            } else {
                self.file_status_selected
            }),
            res.2 == (if self.focus == Focus::Repos { 0 } else { self.file_status_scroll }),
            res.3 == (if self.focus == Focus::Branches {
                Self::page_up(self.branches_pane_selected)
            } else {
                self.branches_pane_selected
            }),
            res.4 == (if self.focus == Focus::Log {
                if self.log@.len() == 0 {
                    0
                } else if self.log_offset + PAGE_STEP < self.log@.len() - 1 {
                    (self.log_offset + PAGE_STEP) as usize
                } else {
                    (self.log@.len() - 1) as usize
                }
            } else {
                self.log_offset
            }),
            res.5 == (if self.focus == Focus::Log { false } else { self.log_follow }),
            res.6 == (if self.focus == Focus::History { Self::page_up(self.history_selected) } else { self.history_selected }),
            res.7 == (if self.focus == Focus::Details { Self::page_up(self.details_scroll) } else { self.details_scroll }),
    {
        let mut r = (self.selected, self.file_status_selected, self.file_status_scroll, self.branches_pane_selected,
            self.log_offset, self.log_follow, self.history_selected, self.details_scroll);
        match self.focus {
            Focus::Repos => {
                r.0 = if self.selected >= PAGE_STEP { self.selected - PAGE_STEP } else { 0 };
                r.1 = 0;
                r.2 = 0;
            },
            Focus::Branches => {
                r.3 = if self.branches_pane_selected >= PAGE_STEP { self.branches_pane_selected - PAGE_STEP } else { 0 };
            },
            Focus::FileStatus => {
                r.1 = if self.file_status_selected >= PAGE_STEP { self.file_status_selected - PAGE_STEP } else { 0 };
            },
            Focus::Log => {
                let max_back = if self.log.len() > 0 { self.log.len() - 1 } else { 0 };
                r.4 = if self.log_offset < max_back && max_back - self.log_offset > PAGE_STEP {
                    self.log_offset + PAGE_STEP
                } else {
                    max_back
                };
                r.5 = false;
            },
            Focus::History => {
                r.6 = if self.history_selected >= PAGE_STEP { self.history_selected - PAGE_STEP } else { 0 };
            },
            Focus::Details => {
                r.7 = if self.details_scroll >= PAGE_STEP { self.details_scroll - PAGE_STEP } else { 0 };
            },
        }
        r
    }

    /// Move up by `PAGE_STEP` rows in the focused pane, clamped at the first row.  The
    /// Repositories pane also resets the File Status selection and scroll; the log
    /// pages away from the tail (not past its first entry) and stops following.  Only
    /// the navigation fields change.
    pub fn previous_page(&mut self)
        requires
            old(self).inv(),
        ensures
            final(self).same_but_nav(old(self)),
            final(self).selected == (if old(self).focus == Focus::Repos {
                Self::page_up(old(self).selected)
            } else {
                old(self).selected
            }),
            final(self).file_status_selected == (if old(self).focus == Focus::Repos {
                0
            } else if old(self).focus == Focus::FileStatus {
                Self::page_up(old(self).file_status_selected)
            } else {
                old(self).file_status_selected
            }),
            final(self).file_status_scroll == (if old(self).focus == Focus::Repos {
                0
            } else {
                old(self).file_status_scroll
            }),
            final(self).branches_pane_selected == (if old(self).focus == Focus::Branches {
                Self::page_up(old(self).branches_pane_selected)
            } else {
                old(self).branches_pane_selected
            }),
            final(self).log_offset == (if old(self).focus == Focus::Log {
                if old(self).log@.len() == 0 {
                    0
                } else if old(self).log_offset + PAGE_STEP < old(self).log@.len() - 1 {
                    (old(self).log_offset + PAGE_STEP) as usize
                } else {
                    (old(self).log@.len() - 1) as usize
                }
            } else {
                old(self).log_offset
            }),
            final(self).log_follow == (if old(self).focus == Focus::Log { false } else { old(self).log_follow }),
            final(self).history_selected == (if old(self).focus == Focus::History {
                Self::page_up(old(self).history_selected)
            } else {
                old(self).history_selected
            }),
            final(self).details_scroll == (if old(self).focus == Focus::Details {
                Self::page_up(old(self).details_scroll)
            } else {
                old(self).details_scroll
            }),
    {
        let v = self.nav_previous_page();
        self.set_nav(v);
    }
}

} // verus!
