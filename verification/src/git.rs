//! Repository status model: changed-file kinds, per-repo status, branches and history.
use vstd::prelude::*;
use crate::text::{has_prefix, push_str, starts_with};

verus! {

/// Commits ahead of / behind a reference.
#[derive(Debug, Clone)]
pub struct AheadBehind {
    pub ahead: usize,
    pub behind: usize,
    /// Human-readable name of the reference compared against (e.g. "origin/main").
    pub branch: String,
}

impl AheadBehind {
    /// `↑<ahead> ↓<behind> <branch>`, the counts in decimal.
    pub fn text(&self) -> (res: String)
        ensures
            res@ == "↑"@ + crate::text::decimal(self.ahead as nat) + " ↓"@ + crate::text::decimal(self.behind as nat)
                + " "@ + self.branch@,
    {
        let mut out = String::new();
        push_str(&mut out, "↑");
        crate::text::push_decimal(&mut out, self.ahead);
        push_str(&mut out, " ↓");
        crate::text::push_decimal(&mut out, self.behind);
        push_str(&mut out, " ");
        push_str(&mut out, self.branch.as_str());
        out
    }
}

/// The kind of change of one file in a repository's working tree or index.
#[derive(Debug, Clone, Copy, PartialEq, Eq, Structural)]
pub enum FileStatusKind {
    Staged,
    Modified,
    Deleted,
    Conflict,
    Untracked,
}

impl FileStatusKind {
    /// One-letter code.
    pub fn code(&self) -> (res: &'static str)
        ensures
            res@ == spec_status_code(*self),
    {
        match self {
            FileStatusKind::Staged => "S",
            FileStatusKind::Modified => "M",
            FileStatusKind::Deleted => "D",
            FileStatusKind::Conflict => "C",
            FileStatusKind::Untracked => "U",
        }
    }

    /// Lower-case label.
    pub fn label(&self) -> (res: &'static str)
        ensures
            res@ == spec_status_label(*self),
    {
        match self {
            FileStatusKind::Staged => "staged",
            FileStatusKind::Modified => "modified",
            FileStatusKind::Deleted => "deleted",
            FileStatusKind::Conflict => "conflict",
            FileStatusKind::Untracked => "untracked",
        }
    }

    /// Display priority: Conflict first, then Staged, Modified, Deleted, Untracked.
    pub fn sort_priority(&self) -> (res: u8)
        ensures
            res == spec_priority(*self),
    {
        match self {
            FileStatusKind::Conflict => 0,
            FileStatusKind::Staged => 1,
            FileStatusKind::Modified => 2,
            FileStatusKind::Deleted => 3,
            FileStatusKind::Untracked => 4,
        }
    }
}

pub open spec fn spec_status_code(k: FileStatusKind) -> Seq<char> {
    match k {
        FileStatusKind::Staged => "S"@,
        FileStatusKind::Modified => "M"@,
        FileStatusKind::Deleted => "D"@,
        FileStatusKind::Conflict => "C"@,
        FileStatusKind::Untracked => "U"@,
    }
}

pub open spec fn spec_status_label(k: FileStatusKind) -> Seq<char> {
    match k {
        FileStatusKind::Staged => "staged"@,
        FileStatusKind::Modified => "modified"@,
        FileStatusKind::Deleted => "deleted"@,
        FileStatusKind::Conflict => "conflict"@,
        FileStatusKind::Untracked => "untracked"@,
    }
}

pub open spec fn spec_priority(k: FileStatusKind) -> u8 {
    match k {
        FileStatusKind::Conflict => 0,
        FileStatusKind::Staged => 1,
        FileStatusKind::Modified => 2,
        FileStatusKind::Deleted => 3,
        FileStatusKind::Untracked => 4,
    }
}

/// One entry of a repository's changed-files list.
#[derive(Debug, Clone)]
pub struct FileEntry {
    pub path: String,
    pub status: FileStatusKind,
}

/// Status of one tracked repository.
#[derive(Debug, Clone)]
pub struct RepoStatus {
    pub path: String,
    pub branch: String,
    pub added: usize,
    pub modified: usize,
    pub staged: usize,
    pub deleted: usize,
    pub conflict: usize,
    /// Ahead/behind vs the upstream tracking branch.
    pub upstream: Option<AheadBehind>,
    /// Ahead/behind vs the trunk branch.
    pub trunk: Option<AheadBehind>,
    /// All local branch names.
    pub local_branches: Vec<String>,
    /// Remote branches without a corresponding local branch.
    pub remote_only_branches: Vec<String>,
    /// Local branches already merged into the trunk branch.
    pub merged_branches: Vec<String>,
    /// Per-file status entries.
    pub files: Vec<FileEntry>,
    /// Error message when scanning this path failed.
    pub error: Option<String>,
}

impl RepoStatus {
    /// Clean: no scan error and no changed, staged, deleted, untracked or conflicting file.
    pub fn is_clean(&self) -> (res: bool)
        ensures
            res == (self.error.is_none() && self.added == 0 && self.modified == 0 && self.staged == 0
                && self.deleted == 0 && self.conflict == 0),
    {
        self.error.is_none() && self.added == 0 && self.modified == 0 && self.staged == 0
            && self.deleted == 0 && self.conflict == 0
    }

    /// A placeholder entry for a path whose scan failed: everything empty, the message
    /// kept as the error.
    pub fn error_entry(path: &str, msg: String) -> (res: Self)
        ensures
            res.path@ == path@,
            res.branch@.len() == 0,
            res.added == 0 && res.modified == 0 && res.staged == 0 && res.deleted == 0 && res.conflict == 0,
            res.upstream is None && res.trunk is None,
            res.local_branches@.len() == 0,
            res.remote_only_branches@.len() == 0,
            res.merged_branches@.len() == 0,
            res.files@.len() == 0,
            res.error matches Some(e) && e@ == msg@,
    {
        RepoStatus {
            path: String::from_str(path),
            branch: String::new(),
            added: 0,
            modified: 0,
            staged: 0,
            deleted: 0,
            conflict: 0,
            upstream: None,
            trunk: None,
            local_branches: Vec::new(),
            remote_only_branches: Vec::new(),
            merged_branches: Vec::new(),
            files: Vec::new(),
            error: Some(msg),
        }
    }
}

/// Kind of change of a file within a commit.
#[derive(Debug, Clone, Copy, PartialEq, Eq, Structural)]
pub enum DeltaKind {
    Added,
    Modified,
    Deleted,
    Renamed,
    Other,
}

impl DeltaKind {
    /// One-letter code ("?" for other kinds).
    pub fn code(&self) -> (res: &'static str)
        ensures
            res@ == (match *self {
                DeltaKind::Added => "A"@,
                DeltaKind::Modified => "M"@,
                DeltaKind::Deleted => "D"@,
                DeltaKind::Renamed => "R"@,
                DeltaKind::Other => "?"@,
            }),
    {
        match self {
            DeltaKind::Added => "A",
            DeltaKind::Modified => "M",
            DeltaKind::Deleted => "D",
            DeltaKind::Renamed => "R",
            DeltaKind::Other => "?",
        }
    }
}

/// One changed file within a commit.
#[derive(Debug, Clone)]
pub struct CommitFileDelta {
    pub kind: DeltaKind,
    pub path: String,
}

/// One commit shown in the History pane.
#[derive(Debug, Clone)]
pub struct CommitEntry {
    pub short_hash: String,
    pub timestamp: String,
    pub author: String,
    pub author_email: String,
    pub summary: String,
    pub body: String,
    pub files: Vec<CommitFileDelta>,
}

/// One local (or remote-only) branch shown in the Branches pane.
#[derive(Debug, Clone)]
pub struct BranchInfo {
    pub name: String,
    pub is_current: bool,
    pub is_remote_only: bool,
    pub is_trunk: bool,
    pub upstream: Option<AheadBehind>,
    pub trunk: Option<AheadBehind>,
    /// Fully merged to the trunk: no commit ahead of it and at least one behind.
    pub is_merged: bool,
}

impl BranchInfo {
    /// The Branches pane's three-column marker: `*` for the current branch, `✓` for one
    /// merged to the trunk, both for the current branch when it is merged.
    pub fn marker(&self) -> (res: &'static str)
        ensures
            res@ == (match (self.is_current, self.is_merged) {
                (true, true) => "*✓ "@,
                (true, false) => "*  "@,
                (false, true) => "✓  "@,
                (false, false) => "   "@,
            }),
    {
        match (self.is_current, self.is_merged) {
            (true, true) => "*✓ ",
            (true, false) => "*  ",
            (false, true) => "✓  ",
            (false, false) => "   ",
        }
    }
}

/// How a line of a diff is coloured in the Details pane.
#[derive(Debug, Clone, Copy, PartialEq, Eq, Structural)]
pub enum DiffLineKind {
    /// An added line (`+`, but not the `+++` file header).
    Added,
    /// A removed line (`-`, but not the `---` file header).
    Removed,
    /// A hunk header (`@@`).
    Hunk,
    /// A file header (`diff `, `index `, `+++`, `---`, `Binary `).
    Header,
    /// Any other line.
    Context,
}

/// The kind of a diff line (see `DiffLineKind`); the first rule that applies decides.
pub open spec fn spec_diff_line_kind(l: Seq<char>) -> DiffLineKind {
    if has_prefix(l, "+"@) && !has_prefix(l, "+++"@) {
        DiffLineKind::Added
    } else if has_prefix(l, "-"@) && !has_prefix(l, "---"@) {
        DiffLineKind::Removed
    } else if has_prefix(l, "@@"@) {
        DiffLineKind::Hunk
    } else if has_prefix(l, "diff "@) || has_prefix(l, "index "@) || has_prefix(l, "+++"@) || has_prefix(l, "---"@)
        || has_prefix(l, "Binary "@) {
        DiffLineKind::Header
    } else {
        DiffLineKind::Context
    }
}

/// Classify one line of a diff (see `spec_diff_line_kind`).
pub fn diff_line_kind(line: &str) -> (res: DiffLineKind)
    ensures
        res == spec_diff_line_kind(line@),
{
    proof {
        reveal_strlit("+");
        reveal_strlit("+++");
        reveal_strlit("-");
        reveal_strlit("---");
        reveal_strlit("@@");
        reveal_strlit("diff ");
        reveal_strlit("index ");
        reveal_strlit("Binary ");
    }
    if starts_with(line, "+") && !starts_with(line, "+++") {
        DiffLineKind::Added
    } else if starts_with(line, "-") && !starts_with(line, "---") {
        DiffLineKind::Removed
    } else if starts_with(line, "@@") {
        DiffLineKind::Hunk
    } else if starts_with(line, "diff ") || starts_with(line, "index ") || starts_with(line, "+++")
        || starts_with(line, "---") || starts_with(line, "Binary ") {
        DiffLineKind::Header
    } else {
        DiffLineKind::Context
    }
}

/// One part of a repository's status summary: a count and its kind's code, shown as
/// `<count>-<code>` when the count is not zero.
pub open spec fn status_part(count: usize, code: Seq<char>) -> Seq<(usize, Seq<char>)> {
    if count > 0 { seq![(count, code)] } else { Seq::empty() }
}

/// The non-zero counts of a status in the order staged, conflict, modified, deleted,
/// untracked, each with its code.
pub open spec fn spec_status_parts(r: RepoStatus) -> Seq<(usize, Seq<char>)> {
    status_part(r.staged, "S"@) + status_part(r.conflict, "C"@) + status_part(r.modified, "M"@)
        + status_part(r.deleted, "D"@) + status_part(r.added, "U"@)
}

pub open spec fn parts_view(v: Seq<(usize, &'static str)>) -> Seq<(usize, Seq<char>)> {
    v.map_values(|p: (usize, &'static str)| (p.0, p.1@))
}

fn push_status_part(v: &mut Vec<(usize, &'static str)>, count: usize, code: &'static str)
    ensures
        parts_view(final(v)@) == parts_view(old(v)@) + status_part(count, code@),
{
    let ghost before = parts_view(v@);
    if count > 0 {
        v.push((count, code));
        assert(parts_view(v@) =~= before + status_part(count, code@));
    } else {
        assert(parts_view(v@) =~= before + status_part(count, code@));
    }
}

impl RepoStatus {
    /// The parts of the Repositories pane's status column (see `spec_status_parts`);
    /// none for a clean repository, which shows `clean`.
    pub fn status_parts(&self) -> (res: Vec<(usize, &'static str)>)
        ensures
            parts_view(res@) == spec_status_parts(*self),
    {
        proof {
            reveal_strlit("S");
            reveal_strlit("C");
            reveal_strlit("M");
            reveal_strlit("D");
            reveal_strlit("U");
        }
        let mut v: Vec<(usize, &'static str)> = Vec::new();
        assert(parts_view(v@) =~= Seq::<(usize, Seq<char>)>::empty());
        push_status_part(&mut v, self.staged, "S");
        push_status_part(&mut v, self.conflict, "C");
        push_status_part(&mut v, self.modified, "M");
        push_status_part(&mut v, self.deleted, "D");
        push_status_part(&mut v, self.added, "U");
        assert(parts_view(v@) =~= spec_status_parts(*self));
        v
    }
}

/// Which commits the History pane shows.
#[derive(Debug, Clone, PartialEq, Eq)]
pub enum HistoryFilter {
    /// The full log of the current branch.
    Full,
    /// Commits of HEAD not in the given ref.
    AheadOf(String),
    /// Commits of the given ref not in HEAD.
    BehindOf(String),
    /// The full log of the given branch.
    BranchFull(String),
    /// Commits of `branch` not in `of`.
    BranchAheadOf { branch: String, of: String },
    /// Commits of `of` not in `branch`.
    BranchBehindOf { branch: String, of: String },
}

/// A history filter as plain values.
pub enum FilterView {
    Full,
    AheadOf(Seq<char>),
    BehindOf(Seq<char>),
    BranchFull(Seq<char>),
    BranchAheadOf(Seq<char>, Seq<char>),
    BranchBehindOf(Seq<char>, Seq<char>),
}

impl View for HistoryFilter {
    type V = FilterView;

    open spec fn view(&self) -> FilterView {
        match self {
            HistoryFilter::Full => FilterView::Full,
            HistoryFilter::AheadOf(r) => FilterView::AheadOf(r@),
            HistoryFilter::BehindOf(r) => FilterView::BehindOf(r@),
            HistoryFilter::BranchFull(b) => FilterView::BranchFull(b@),
            HistoryFilter::BranchAheadOf { branch, of } => FilterView::BranchAheadOf(branch@, of@),
            HistoryFilter::BranchBehindOf { branch, of } => FilterView::BranchBehindOf(branch@, of@),
        }
    }
}

/// The title suffix shown for a history filter.
pub open spec fn spec_filter_label(f: HistoryFilter) -> Seq<char> {
    match f {
        HistoryFilter::Full => Seq::empty(),
        HistoryFilter::AheadOf(r) => "ahead of "@ + r@,
        HistoryFilter::BehindOf(r) => "behind "@ + r@,
        HistoryFilter::BranchFull(b) => b@,
        HistoryFilter::BranchAheadOf { branch, of } => branch@ + " ahead of "@ + of@,
        HistoryFilter::BranchBehindOf { branch, of } => branch@ + " behind "@ + of@,
    }
}

impl HistoryFilter {
    /// The label shown in the History pane title ("" for the full log).
    pub fn label(&self) -> (res: String)
        ensures
            res@ == spec_filter_label(*self),
    {
        let mut out = String::new();
        match self {
            HistoryFilter::Full => {},
            HistoryFilter::AheadOf(r) => {
                push_str(&mut out, "ahead of ");
                push_str(&mut out, r.as_str());
            },
            HistoryFilter::BehindOf(r) => {
                push_str(&mut out, "behind ");
                push_str(&mut out, r.as_str());
            },
            HistoryFilter::BranchFull(b) => {
                push_str(&mut out, b.as_str());
            },
            HistoryFilter::BranchAheadOf { branch, of } => {
                push_str(&mut out, branch.as_str());
                push_str(&mut out, " ahead of ");
                push_str(&mut out, of.as_str());
            },
            HistoryFilter::BranchBehindOf { branch, of } => {
                push_str(&mut out, branch.as_str());
                push_str(&mut out, " behind ");
                push_str(&mut out, of.as_str());
            },
        }
        out
    }
}

/// The commits a filter shows: those reachable from the first reference and, when a
/// second one is given, not reachable from it (HEAD for the selected repository's own
/// branch).
pub open spec fn spec_revision_range(f: FilterView) -> (Seq<char>, Option<Seq<char>>) {
    match f {
        FilterView::Full => ("HEAD"@, None),
        FilterView::AheadOf(r) => ("HEAD"@, Some(r)),
        FilterView::BehindOf(r) => (r, Some("HEAD"@)),
        FilterView::BranchFull(b) => (b, None),
        FilterView::BranchAheadOf(b, of) => (b, Some(of)),
        FilterView::BranchBehindOf(b, of) => (of, Some(b)),
    }
}

pub open spec fn opt_view(o: Option<String>) -> Option<Seq<char>> {
    match o {
        Some(s) => Some(s@),
        None => None,
    }
}

impl HistoryFilter {
    /// See `spec_revision_range`.
    pub fn revision_range(&self) -> (res: (String, Option<String>))
        ensures
            (res.0@, opt_view(res.1)) == spec_revision_range(self@),
    {
        match self {
            HistoryFilter::Full => (String::from_str("HEAD"), None),
            HistoryFilter::AheadOf(r) => (String::from_str("HEAD"), Some(r.clone())),
            HistoryFilter::BehindOf(r) => (r.clone(), Some(String::from_str("HEAD"))),
            HistoryFilter::BranchFull(b) => (b.clone(), None),
            HistoryFilter::BranchAheadOf { branch, of } => (branch.clone(), Some(of.clone())),
            HistoryFilter::BranchBehindOf { branch, of } => (of.clone(), Some(branch.clone())),
        }
    }
}

} // verus!
