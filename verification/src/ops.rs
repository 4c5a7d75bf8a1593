//! Git operations on one repository: their labels, and the sequence of commands each one
//! runs.  The application runs the commands (`OpStep`) one at a time and reports each
//! outcome back to `OpRun::step`, which decides what comes next.
use vstd::prelude::*;
use crate::git::RepoStatus;
use crate::state::strings_view;
use crate::text::{chars_of, push_str, string_from_chars};

verus! {

/// Result of a background git operation, sent back to the main loop.
pub struct OpResult {
    pub repo_path: String,
    pub op_label: String,
    pub success: bool,
    pub lines: Vec<String>,
    /// Filled by `OpRequest::Refresh`: the freshly read repository status.
    pub fresh_status: Option<RepoStatus>,
}

/// Which git operation to execute.
#[derive(Debug, Clone)]
pub enum OpRequest {
    Fetch,
    Pull,
    Push,
    ForcePush,
    /// Check out a branch; `is_remote` adds `--track`.
    CheckoutBranch { name: String, is_remote: bool },
    CreateBranch(String),
    /// Create a branch off `base`: `git checkout -b <name> <base>`.
    CreateBranchFrom { name: String, base: String },
    DeleteBranch(String),
    /// `git add -- <path>`.
    StageFile(String),
    /// `git reset -- <path>`.
    UnstageFile(String),
    /// `git checkout -- <path>`, after `git reset -- <path>` for a conflict.
    RevertFile { file_path: String, is_conflict: bool },
    /// Delete an untracked file.
    DiscardFile(String),
    /// Fast-forward a local branch to `upstream` without checking it out.
    PullBranch { name: String, upstream: String },
    /// Push a local branch to origin.
    PushBranch { name: String },
    /// Force-push a local branch to origin.
    ForcePushBranch { name: String },
    /// A custom shell command from the configuration (already substituted).
    RunRepoCommand { name: String, cmd: String, background: bool },
    /// Save the file's diff as `<file_path>.patch`, then revert the file.
    SavePatchAndRevert { file_path: String },
    /// `git apply -- <file_path>`, tried again with `--ignore-whitespace` when it fails.
    ApplyPatch { file_path: String },
    /// Create a commit (or amend HEAD) with the message.
    Commit { message: String, amend: bool },
    /// `git reset --mixed HEAD~1`.
    UndoCommit,
    /// Re-read the repository status.
    Refresh { case_sensitive_sort: bool },
}

/// One command the application runs for an operation.
#[derive(Debug, Clone)]
pub enum OpStep {
    /// Run git with these arguments in the repository; report whether it succeeded.
    Git(Vec<String>),
    /// Run `git status --porcelain`; report whether it printed anything (local changes).
    CheckDirty,
    /// Stash the local changes under an autostash message; report whether it succeeded.
    Stash,
    /// Run the shell command in the repository (without waiting when `background`);
    /// report whether it succeeded.
    Shell { cmd: String, background: bool },
    /// Delete the file (relative to the repository root); report whether it succeeded.
    DeleteFile(String),
    /// Save the file's diff against HEAD as `<file>.patch`; report whether a non-empty
    /// diff was saved.
    SavePatch(String),
    /// The operation is over, with this outcome.
    Done(bool),
}

/// A step as plain values.
pub enum StepView {
    Git(Seq<Seq<char>>),
    CheckDirty,
    Stash,
    Shell(Seq<char>, bool),
    DeleteFile(Seq<char>),
    SavePatch(Seq<char>),
    Done(bool),
}

impl View for OpStep {
    type V = StepView;

    open spec fn view(&self) -> StepView {
        match self {
            OpStep::Git(a) => StepView::Git(strings_view(a@)),
            OpStep::CheckDirty => StepView::CheckDirty,
            OpStep::Stash => StepView::Stash,
            OpStep::Shell { cmd, background } => StepView::Shell(cmd@, *background),
            OpStep::DeleteFile(p) => StepView::DeleteFile(p@),
            OpStep::SavePatch(p) => StepView::SavePatch(p@),
            OpStep::Done(b) => StepView::Done(*b),
        }
    }
}

/// The label of an operation (shown in the log).
pub open spec fn spec_op_label(r: OpRequest) -> Seq<char> {
    match r {
        OpRequest::Fetch => "fetch"@,
        OpRequest::Pull => "pull"@,
        OpRequest::Push => "push"@,
        OpRequest::ForcePush => "force push"@,
        OpRequest::CheckoutBranch { .. } => "checkout"@,
        OpRequest::CreateBranch(_) => "create branch"@,
        OpRequest::CreateBranchFrom { .. } => "create branch"@,
        OpRequest::DeleteBranch(_) => "delete branch"@,
        OpRequest::StageFile(_) => "stage file"@,
        OpRequest::UnstageFile(_) => "unstage file"@,
        OpRequest::RevertFile { .. } => "revert file"@,
        OpRequest::DiscardFile(_) => "discard file"@,
        OpRequest::PullBranch { name, .. } => "pull branch "@ + name@,
        OpRequest::PushBranch { name } => "push branch "@ + name@,
        OpRequest::ForcePushBranch { name } => "force push branch "@ + name@,
        OpRequest::RunRepoCommand { name, .. } => name@,
        OpRequest::SavePatchAndRevert { .. } => "save patch and revert"@,
        OpRequest::ApplyPatch { .. } => "apply patch"@,
        OpRequest::Commit { amend, .. } => if amend { "amend commit"@ } else { "commit"@ },
        OpRequest::UndoCommit => "undo commit"@,
        OpRequest::Refresh { .. } => "scan"@,
    }
}

/// The git arguments of the command an operation is built around (for the operations
/// that run one main git command).
pub open spec fn main_args(r: OpRequest) -> Option<Seq<Seq<char>>> {
    match r {
        OpRequest::Fetch => Some(seq!["fetch"@, "origin"@, "--prune"@]),
        OpRequest::Pull => Some(seq!["pull"@, "--prune"@]),
        OpRequest::Push => Some(seq!["push"@, "--set-upstream"@, "origin"@, "HEAD"@]),
        OpRequest::ForcePush => Some(seq!["push"@, "--force"@, "--set-upstream"@, "origin"@, "HEAD"@]),
        OpRequest::CheckoutBranch { name, is_remote } => Some(
            if is_remote { seq!["checkout"@, "--track"@, name@] } else { seq!["checkout"@, name@] },
        ),
        OpRequest::CreateBranch(name) => Some(seq!["checkout"@, "-b"@, name@]),
        OpRequest::CreateBranchFrom { name, base } => Some(seq!["checkout"@, "-b"@, name@, base@]),
        OpRequest::DeleteBranch(name) => Some(seq!["branch"@, "-D"@, name@]),
        OpRequest::StageFile(p) => Some(seq!["add"@, "--"@, p@]),
        OpRequest::UnstageFile(p) => Some(seq!["reset"@, "--"@, p@]),
        OpRequest::RevertFile { file_path, .. } => Some(seq!["checkout"@, "--"@, file_path@]),
        OpRequest::PullBranch { name, upstream } => Some(seq!["branch"@, "-f"@, name@, upstream@]),
        OpRequest::PushBranch { name } => Some(seq!["push"@, "--set-upstream"@, "origin"@, name@]),
        OpRequest::ForcePushBranch { name } => Some(seq!["push"@, "--force"@, "--set-upstream"@, "origin"@, name@]),
        OpRequest::ApplyPatch { file_path } => Some(seq!["apply"@, "--"@, file_path@]),
        OpRequest::Commit { message, amend } => Some(
            if amend { seq!["commit"@, "--amend"@, "-m"@, message@] } else { seq!["commit"@, "-m"@, message@] },
        ),
        OpRequest::UndoCommit => Some(seq!["reset"@, "--mixed"@, "HEAD~1"@]),
        _ => None,
    }
}

/// `git reset -- <file>` and `git checkout -- <file>`.
pub open spec fn reset_args(f: Seq<char>) -> Seq<Seq<char>> {
    seq!["reset"@, "--"@, f]
}

pub open spec fn checkout_args(f: Seq<char>) -> Seq<Seq<char>> {
    seq!["checkout"@, "--"@, f]
}

/// The main git command wrapped in an autostash: check for local changes, stash them
/// when there are any, run the command, pop the stash when one was made; the outcome
/// is the main command's.  `o[i]` is what step `i` reported.
pub open spec fn stashed_steps(args: Seq<Seq<char>>, o: Seq<bool>) -> Seq<StepView> {
    if o[0] {
        seq![StepView::CheckDirty, StepView::Stash, StepView::Git(args)] + (if o[1] {
            seq![StepView::Git(seq!["stash"@, "pop"@]), StepView::Done(o[2])]
        } else {
            seq![StepView::Done(o[2])]
        })
    } else {
        seq![StepView::CheckDirty, StepView::Git(args), StepView::Done(o[1])]
    }
}

/// `git apply --ignore-whitespace -- <path>`: the second try of a patch that did not
/// apply as it is.
pub open spec fn lenient_apply_args(path: Seq<char>) -> Seq<Seq<char>> {
    seq!["apply"@, "--ignore-whitespace"@, "--"@, path]
}

/// The steps of an operation when step `i` reports `o[i]` (a step only depends on the
/// outcomes before it).  The last step is `Done` with the operation's outcome.
pub open spec fn op_steps(r: OpRequest, o: Seq<bool>) -> Seq<StepView> {
    match r {
        OpRequest::Pull => stashed_steps(main_args(r).unwrap(), o),
        OpRequest::CheckoutBranch { .. } => stashed_steps(main_args(r).unwrap(), o),
        OpRequest::RevertFile { file_path, is_conflict } => if is_conflict {
            seq![StepView::Git(reset_args(file_path@)), StepView::Git(checkout_args(file_path@)), StepView::Done(o[1])]
        } else {
            seq![StepView::Git(checkout_args(file_path@)), StepView::Done(o[0])]
        },
        OpRequest::DiscardFile(p) => seq![StepView::DeleteFile(p@), StepView::Done(o[0])],
        OpRequest::SavePatchAndRevert { file_path } => if o[0] {
            seq![
                StepView::SavePatch(file_path@),
                StepView::Git(reset_args(file_path@)),
                StepView::Git(checkout_args(file_path@)),
                StepView::Done(o[2]),
            ]
        } else {
            seq![StepView::SavePatch(file_path@), StepView::Done(false)]
        },
        OpRequest::RunRepoCommand { cmd, background, .. } => seq![StepView::Shell(cmd@, background), StepView::Done(o[0])],
        OpRequest::ApplyPatch { file_path } => if o[0] {
            seq![StepView::Git(main_args(r).unwrap()), StepView::Done(true)]
        } else {
            seq![
                StepView::Git(main_args(r).unwrap()),
                StepView::Git(lenient_apply_args(file_path@)),
                StepView::Done(o[1]),
            ]
        },
        OpRequest::Refresh { .. } => seq![StepView::Done(true)],
        _ => seq![StepView::Git(main_args(r).unwrap()), StepView::Done(o[0])],
    }
}

impl OpRequest {
    /// The operation's label: "fetch", "pull", "push", "force push", "checkout",
    /// "create branch", "delete branch", "stage file", "unstage file", "revert file",
    /// "discard file", "pull branch NAME", "push branch NAME", "force push branch NAME",
    /// the custom command's name, "save patch and revert", "apply patch", "commit" or
    /// "amend commit", "undo commit", and "scan" for a refresh.
    pub fn label(&self) -> (res: String)
        ensures
            res@ == spec_op_label(*self),
    {
        let mut out = String::new();
        match self {
            OpRequest::Fetch => push_str(&mut out, "fetch"),
            OpRequest::Pull => push_str(&mut out, "pull"),
            OpRequest::Push => push_str(&mut out, "push"),
            OpRequest::ForcePush => push_str(&mut out, "force push"),
            OpRequest::CheckoutBranch { .. } => push_str(&mut out, "checkout"),
            OpRequest::CreateBranch(_) => push_str(&mut out, "create branch"),
            OpRequest::CreateBranchFrom { .. } => push_str(&mut out, "create branch"),
            OpRequest::DeleteBranch(_) => push_str(&mut out, "delete branch"),
            OpRequest::StageFile(_) => push_str(&mut out, "stage file"),
            OpRequest::UnstageFile(_) => push_str(&mut out, "unstage file"),
            OpRequest::RevertFile { .. } => push_str(&mut out, "revert file"),
            OpRequest::DiscardFile(_) => push_str(&mut out, "discard file"),
            OpRequest::PullBranch { name, .. } => {
                push_str(&mut out, "pull branch ");
                push_str(&mut out, name.as_str());
            },
            OpRequest::PushBranch { name } => {
                push_str(&mut out, "push branch ");
                push_str(&mut out, name.as_str());
            },
            OpRequest::ForcePushBranch { name } => {
                push_str(&mut out, "force push branch ");
                push_str(&mut out, name.as_str());
            },
            OpRequest::RunRepoCommand { name, .. } => push_str(&mut out, name.as_str()),
            OpRequest::SavePatchAndRevert { .. } => push_str(&mut out, "save patch and revert"),
            OpRequest::ApplyPatch { .. } => push_str(&mut out, "apply patch"),
            OpRequest::Commit { amend, .. } => if *amend {
                push_str(&mut out, "amend commit")
            } else {
                push_str(&mut out, "commit")
            },
            OpRequest::UndoCommit => push_str(&mut out, "undo commit"),
            OpRequest::Refresh { .. } => push_str(&mut out, "scan"),
        }
        assert(out@ =~= spec_op_label(*self));
        out
    }
}

fn push_arg(args: &mut Vec<String>, a: &str)
    ensures
        strings_view(final(args)@) == strings_view(old(args)@).push(a@),
{
    args.push(string_from_chars(chars_of(a).as_slice()));
    assert(strings_view(args@) =~= strings_view(old(args)@).push(a@));
}

fn git_args(parts: &[&str]) -> (res: Vec<String>)
    ensures
        strings_view(res@) == parts@.map_values(|p: &str| p@),
{
    let mut out: Vec<String> = Vec::new();
    let mut i: usize = 0;
    while i < parts.len()
        invariant
            i <= parts@.len(),
            strings_view(out@) == parts@.take(i as int).map_values(|p: &str| p@),
        decreases parts@.len() - i,
    {
        push_arg(&mut out, parts[i]);
        assert(parts@.take(i + 1).map_values(|p: &str| p@) =~= parts@.take(i as int).map_values(|p: &str| p@).push(parts@[i as int]@));
        i += 1;
    }
    assert(parts@.take(parts@.len() as int) =~= parts@);
    out
}

/// The arguments of the operation's main git command (see `main_args`).
fn main_git_args(r: &OpRequest) -> (res: Option<Vec<String>>)
    ensures
        match res {
            Some(a) => main_args(*r) == Some(strings_view(a@)),
            None => main_args(*r) is None,
        },
{
    let a = match r {
        OpRequest::Fetch => git_args(&["fetch", "origin", "--prune"]),
        OpRequest::Pull => git_args(&["pull", "--prune"]),
        OpRequest::Push => git_args(&["push", "--set-upstream", "origin", "HEAD"]),
        OpRequest::ForcePush => git_args(&["push", "--force", "--set-upstream", "origin", "HEAD"]),
        OpRequest::CheckoutBranch { name, is_remote } => if *is_remote {
            git_args(&["checkout", "--track", name.as_str()])
        } else {
            git_args(&["checkout", name.as_str()])
        },
        OpRequest::CreateBranch(name) => git_args(&["checkout", "-b", name.as_str()]),
        OpRequest::CreateBranchFrom { name, base } => git_args(&["checkout", "-b", name.as_str(), base.as_str()]),
        OpRequest::DeleteBranch(name) => git_args(&["branch", "-D", name.as_str()]),
        OpRequest::StageFile(p) => git_args(&["add", "--", p.as_str()]),
        OpRequest::UnstageFile(p) => git_args(&["reset", "--", p.as_str()]),
        OpRequest::RevertFile { file_path, .. } => git_args(&["checkout", "--", file_path.as_str()]),
        OpRequest::PullBranch { name, upstream } => git_args(&["branch", "-f", name.as_str(), upstream.as_str()]),
        OpRequest::PushBranch { name } => git_args(&["push", "--set-upstream", "origin", name.as_str()]),
        OpRequest::ForcePushBranch { name } => git_args(&["push", "--force", "--set-upstream", "origin", name.as_str()]),
        OpRequest::ApplyPatch { file_path } => git_args(&["apply", "--", file_path.as_str()]),
        OpRequest::Commit { message, amend } => if *amend {
            git_args(&["commit", "--amend", "-m", message.as_str()])
        } else {
            git_args(&["commit", "-m", message.as_str()])
        },
        OpRequest::UndoCommit => git_args(&["reset", "--mixed", "HEAD~1"]),
        _ => return None,
    };
    assert(main_args(*r) == Some(strings_view(a@)));
    Some(a)
}

/// The progress of one operation: the outcomes reported so far and the number of
/// steps issued.
pub struct OpRun {
    pub outcomes: Vec<bool>,
    pub issued: usize,
}

impl OpRun {
    /// Nothing issued yet.
    pub fn new() -> (res: OpRun)
        ensures
            res.issued == 0,
            res.outcomes@.len() == 0,
    {
        OpRun { outcomes: Vec::new(), issued: 0 }
    }

    /// The run is consistent: every issued step but the last has reported an outcome.
    pub open spec fn wf(&self) -> bool {
        (self.issued == 0 && self.outcomes@.len() == 0) || self.outcomes@.len() + 1 == self.issued
    }

    /// Whether step `issued` exists (the previous one was not `Done`).
    pub open spec fn more(&self, r: OpRequest, last: bool) -> bool {
        let o = if self.issued == 0 { self.outcomes@ } else { self.outcomes@.push(last) };
        self.issued < op_steps(r, o).len()
    }

    /// Record `last`, the outcome of the previously issued step (ignored for the first
    /// step), and return the next step of operation `r` (see `op_steps`).
    pub fn step(&mut self, r: &OpRequest, last: bool) -> (res: OpStep)
        requires
            old(self).wf(),
            old(self).more(*r, last),
        ensures
            final(self).wf(),
            final(self).issued == old(self).issued + 1,
            final(self).outcomes@ == (if old(self).issued == 0 { old(self).outcomes@ } else { old(self).outcomes@.push(last) }),
            res@ == op_steps(*r, final(self).outcomes@)[old(self).issued as int],
    {
        if self.issued > 0 {
            self.outcomes.push(last);
        }
        let k = self.issued;
        let step = self.step_at(r, k);
        self.issued = k + 1;
        step
    }

    /// Step `k` of `r`, given the outcomes of the steps before it.
    fn step_at(&self, r: &OpRequest, k: usize) -> (res: OpStep)
        requires
            self.outcomes@.len() == k,
            k < op_steps(*r, self.outcomes@).len(),
        ensures
            res@ == op_steps(*r, self.outcomes@)[k as int],
    {
        let o = &self.outcomes;
        match r {
            OpRequest::Pull | OpRequest::CheckoutBranch { .. } => {
                let args = match main_git_args(r) {
                    Some(a) => a,
                    None => Vec::new(),
                };
                if k == 0 {
                    OpStep::CheckDirty
                } else if o[0] {
                    if k == 1 {
                        OpStep::Stash
                    } else if k == 2 {
                        OpStep::Git(args)
                    } else if o[1] && k == 3 {
                        let a = git_args(&["stash", "pop"]);
                        assert(strings_view(a@) =~= seq!["stash"@, "pop"@]);
                        OpStep::Git(a)
                    } else {
                        OpStep::Done(o[2])
                    }
                } else if k == 1 {
                    OpStep::Git(args)
                } else {
                    OpStep::Done(o[1])
                }
            },
            OpRequest::RevertFile { file_path, is_conflict } => {
                if *is_conflict {
                    if k == 0 {
                        { let a = git_args(&["reset", "--", file_path.as_str()]); assert(strings_view(a@) =~= seq!["reset"@, "--"@, file_path@]); OpStep::Git(a) }
                    } else if k == 1 {
                        { let a = git_args(&["checkout", "--", file_path.as_str()]); assert(strings_view(a@) =~= seq!["checkout"@, "--"@, file_path@]); OpStep::Git(a) }
                    } else {
                        OpStep::Done(o[1])
                    }
                } else if k == 0 {
                    { let a = git_args(&["checkout", "--", file_path.as_str()]); assert(strings_view(a@) =~= seq!["checkout"@, "--"@, file_path@]); OpStep::Git(a) }
                } else {
                    OpStep::Done(o[0])
                }
            },
            OpRequest::DiscardFile(p) => if k == 0 {
                OpStep::DeleteFile(string_from_chars(chars_of(p.as_str()).as_slice()))
            } else {
                OpStep::Done(o[0])
            },
            OpRequest::SavePatchAndRevert { file_path } => {
                if k == 0 {
                    OpStep::SavePatch(string_from_chars(chars_of(file_path.as_str()).as_slice()))
                } else if !o[0] {
                    OpStep::Done(false)
                } else if k == 1 {
                    { let a = git_args(&["reset", "--", file_path.as_str()]); assert(strings_view(a@) =~= seq!["reset"@, "--"@, file_path@]); OpStep::Git(a) }
                } else if k == 2 {
                    { let a = git_args(&["checkout", "--", file_path.as_str()]); assert(strings_view(a@) =~= seq!["checkout"@, "--"@, file_path@]); OpStep::Git(a) }
                } else {
                    OpStep::Done(o[2])
                }
            },
            OpRequest::RunRepoCommand { cmd, background, .. } => if k == 0 {
                OpStep::Shell { cmd: string_from_chars(chars_of(cmd.as_str()).as_slice()), background: *background }
            } else {
                OpStep::Done(o[0])
            },
            OpRequest::ApplyPatch { file_path } => {
                if k == 0 {
                    let args = match main_git_args(r) {
                        Some(a) => a,
                        None => Vec::new(),
                    };
                    OpStep::Git(args)
                } else if o[0] {
                    OpStep::Done(true)
                } else if k == 1 {
                    let a = git_args(&["apply", "--ignore-whitespace", "--", file_path.as_str()]);
                    assert(strings_view(a@) =~= lenient_apply_args(file_path@));
                    OpStep::Git(a)
                } else {
                    OpStep::Done(o[1])
                }
            },
            OpRequest::Refresh { .. } => OpStep::Done(true),
            _ => {
                let args = match main_git_args(r) {
                    Some(a) => a,
                    None => Vec::new(),
                };
                if k == 0 {
                    OpStep::Git(args)
                } else {
                    OpStep::Done(o[0])
                }
            },
        }
    }
}

/// Whether an operation works on one file of the File Status pane, after which that
/// file is selected again.
pub open spec fn spec_is_file_op(r: OpRequest) -> bool {
    match r {
        OpRequest::StageFile(_) | OpRequest::UnstageFile(_) | OpRequest::RevertFile { .. } | OpRequest::DiscardFile(_)
        | OpRequest::SavePatchAndRevert { .. } | OpRequest::ApplyPatch { .. } => true,
        _ => false,
    }
}

impl OpRequest {
    /// See `spec_is_file_op`.
    pub fn is_file_op(&self) -> (res: bool)
        ensures
            res == spec_is_file_op(*self),
    {
        match self {
            OpRequest::StageFile(_) | OpRequest::UnstageFile(_) | OpRequest::RevertFile { .. } | OpRequest::DiscardFile(_)
            | OpRequest::SavePatchAndRevert { .. } | OpRequest::ApplyPatch { .. } => true,
            _ => false,
        }
    }
}

} // verus!
