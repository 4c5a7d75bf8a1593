//! Operation labels and the command sequences operations run.
use gitover::ops::{OpRequest, OpRun, OpStep};

fn run(r: &OpRequest, outcomes: &[bool]) -> Vec<String> {
    let mut op = OpRun::new();
    let mut last = false;
    let mut i = 0;
    let mut out = Vec::new();
    loop {
        let step = op.step(r, last);
        let (text, done) = match step {
            OpStep::Git(args) => (format!("git {}", args.join(" ")), false),
            OpStep::CheckDirty => ("check-dirty".to_string(), false),
            OpStep::Stash => ("stash".to_string(), false),
            OpStep::Shell { cmd, background } => (format!("sh {cmd} {background}"), false),
            OpStep::DeleteFile(p) => (format!("delete {p}"), false),
            OpStep::SavePatch(p) => (format!("save-patch {p}"), false),
            OpStep::Done(ok) => (format!("done {ok}"), true),
        };
        out.push(text);
        if done {
            break;
        }
        last = outcomes.get(i).copied().unwrap_or(true);
        i += 1;
    }
    out
}

#[test]
fn op_labels() {
    assert_eq!(OpRequest::Fetch.label(), "fetch");
    assert_eq!(OpRequest::ForcePush.label(), "force push");
    assert_eq!(OpRequest::CreateBranchFrom { name: "a".into(), base: "b".into() }.label(), "create branch");
    assert_eq!(OpRequest::PullBranch { name: "dev".into(), upstream: "origin/dev".into() }.label(), "pull branch dev");
    assert_eq!(OpRequest::ForcePushBranch { name: "x".into() }.label(), "force push branch x");
    assert_eq!(
        OpRequest::RunRepoCommand { name: "Build".into(), cmd: "make".into(), background: false }.label(),
        "Build"
    );
    assert_eq!(OpRequest::Commit { message: "m".into(), amend: true }.label(), "amend commit");
    assert_eq!(OpRequest::Commit { message: "m".into(), amend: false }.label(), "commit");
    assert_eq!(OpRequest::Refresh { case_sensitive_sort: false }.label(), "scan");
}

#[test]
fn fetch_runs_one_command() {
    assert_eq!(run(&OpRequest::Fetch, &[true]), vec!["git fetch origin --prune", "done true"]);
    assert_eq!(run(&OpRequest::Fetch, &[false]), vec!["git fetch origin --prune", "done false"]);
}

#[test]
fn pull_with_local_changes_stashes_and_pops() {
    assert_eq!(
        run(&OpRequest::Pull, &[true, true, false, true]),
        vec!["check-dirty", "stash", "git pull --prune", "git stash pop", "done false"]
    );
}

#[test]
fn pull_when_stash_fails_does_not_pop() {
    assert_eq!(
        run(&OpRequest::Pull, &[true, false, true]),
        vec!["check-dirty", "stash", "git pull --prune", "done true"]
    );
}

#[test]
fn clean_checkout_of_remote_branch_tracks_it() {
    let r = OpRequest::CheckoutBranch { name: "origin/x".into(), is_remote: true };
    assert_eq!(run(&r, &[false, true]), vec!["check-dirty", "git checkout --track origin/x", "done true"]);
}

#[test]
fn revert_conflict_resets_first() {
    let r = OpRequest::RevertFile { file_path: "a.txt".into(), is_conflict: true };
    assert_eq!(run(&r, &[false, true]), vec!["git reset -- a.txt", "git checkout -- a.txt", "done true"]);
    let r2 = OpRequest::RevertFile { file_path: "a.txt".into(), is_conflict: false };
    assert_eq!(run(&r2, &[false]), vec!["git checkout -- a.txt", "done false"]);
}

#[test]
fn save_patch_reverts_only_after_saving() {
    let r = OpRequest::SavePatchAndRevert { file_path: "f.rs".into() };
    assert_eq!(
        run(&r, &[true, true, true]),
        vec!["save-patch f.rs", "git reset -- f.rs", "git checkout -- f.rs", "done true"]
    );
    assert_eq!(run(&r, &[false]), vec!["save-patch f.rs", "done false"]);
}

#[test]
fn commit_and_amend_arguments() {
    let c = OpRequest::Commit { message: "msg".into(), amend: false };
    assert_eq!(run(&c, &[true]), vec!["git commit -m msg", "done true"]);
    let a = OpRequest::Commit { message: "msg".into(), amend: true };
    assert_eq!(run(&a, &[true]), vec!["git commit --amend -m msg", "done true"]);
}

#[test]
fn other_operations_arguments() {
    assert_eq!(run(&OpRequest::UndoCommit, &[true])[0], "git reset --mixed HEAD~1");
    assert_eq!(run(&OpRequest::Push, &[true])[0], "git push --set-upstream origin HEAD");
    assert_eq!(run(&OpRequest::DeleteBranch("old".into()), &[true])[0], "git branch -D old");
    assert_eq!(
        run(&OpRequest::CreateBranchFrom { name: "n".into(), base: "b".into() }, &[true])[0],
        "git checkout -b n b"
    );
    assert_eq!(run(&OpRequest::DiscardFile("t.tmp".into()), &[true]), vec!["delete t.tmp", "done true"]);
    assert_eq!(
        run(&OpRequest::RunRepoCommand { name: "n".into(), cmd: "ls".into(), background: true }, &[true]),
        vec!["sh ls true", "done true"]
    );
    assert_eq!(run(&OpRequest::Refresh { case_sensitive_sort: true }, &[]), vec!["done true"]);
}

#[test]
fn file_operations_are_recognised() {
    assert!(OpRequest::StageFile("a".to_string()).is_file_op());
    assert!(OpRequest::RevertFile { file_path: "a".to_string(), is_conflict: false }.is_file_op());
    assert!(OpRequest::ApplyPatch { file_path: "a.patch".to_string() }.is_file_op());
    assert!(!OpRequest::Fetch.is_file_op());
    assert!(!OpRequest::DeleteBranch("x".to_string()).is_file_op());
}

#[test]
fn apply_patch_retries_ignoring_whitespace() {
    let r = OpRequest::ApplyPatch { file_path: "a.patch".to_string() };
    assert_eq!(run(&r, &[true]), vec!["git apply -- a.patch", "done true"]);
    assert_eq!(
        run(&r, &[false, true]),
        vec!["git apply -- a.patch", "git apply --ignore-whitespace -- a.patch", "done true"]
    );
    assert_eq!(
        run(&r, &[false, false]),
        vec!["git apply -- a.patch", "git apply --ignore-whitespace -- a.patch", "done false"]
    );
}
