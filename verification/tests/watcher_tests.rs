//! Which file-system changes are relevant to a repository's status.
use gitover::watcher::{
    is_relevant_git_path, is_relevant_path, is_relevant_worktree_path, mtime_changed, on_quiet, wait_ms, QuietStep,
};

#[test]
fn git_path_git_dir_itself_is_relevant() {
    let git_dir = "/repo/.git";
    assert!(is_relevant_git_path(git_dir, git_dir));
}

#[test]
fn git_path_objects_dir_is_skipped() {
    let git_dir = "/repo/.git";
    assert!(!is_relevant_git_path(
        "/repo/.git/objects/ab/cd1234",
        git_dir
    ));
}

#[test]
fn git_path_lock_file_is_skipped() {
    let git_dir = "/repo/.git";
    assert!(!is_relevant_git_path("/repo/.git/index.lock", git_dir));
}

#[test]
fn git_path_cache_file_is_skipped() {
    let git_dir = "/repo/.git";
    assert!(!is_relevant_git_path(
        "/repo/.git/something.cache",
        git_dir
    ));
}

#[test]
fn git_path_hooks_dir_is_skipped() {
    let git_dir = "/repo/.git";
    assert!(!is_relevant_git_path(
        "/repo/.git/hooks/pre-commit",
        git_dir
    ));
}

#[test]
fn git_path_modules_dir_is_skipped() {
    let git_dir = "/repo/.git";
    assert!(!is_relevant_git_path(
        "/repo/.git/modules/sub/HEAD",
        git_dir
    ));
}

#[test]
fn git_path_packed_refs_is_skipped() {
    let git_dir = "/repo/.git";
    assert!(!is_relevant_git_path("/repo/.git/packed-refs", git_dir));
}

#[test]
fn git_path_commit_editmsg_is_skipped() {
    let git_dir = "/repo/.git";
    assert!(!is_relevant_git_path(
        "/repo/.git/COMMIT_EDITMSG",
        git_dir
    ));
    assert!(!is_relevant_git_path(
        "/repo/.git/PREPARE_COMMIT_MSG",
        git_dir
    ));
    assert!(!is_relevant_git_path(
        "/repo/.git/GIT_COLA_MSG",
        git_dir
    ));
}

#[test]
fn git_path_lfs_tmp_is_skipped() {
    let git_dir = "/repo/.git";
    assert!(!is_relevant_git_path(
        "/repo/.git/lfs/objects/tmp/abc",
        git_dir
    ));
}

#[test]
fn git_path_head_is_relevant() {
    let git_dir = "/repo/.git";
    assert!(is_relevant_git_path("/repo/.git/HEAD", git_dir));
}

#[test]
fn git_path_index_is_relevant() {
    let git_dir = "/repo/.git";
    assert!(is_relevant_git_path("/repo/.git/index", git_dir));
}

#[test]
fn git_path_refs_is_relevant() {
    let git_dir = "/repo/.git";
    assert!(is_relevant_git_path(
        "/repo/.git/refs/heads/main",
        git_dir
    ));
}

#[test]
fn git_path_config_is_relevant() {
    let git_dir = "/repo/.git";
    assert!(is_relevant_git_path("/repo/.git/config", git_dir));
}

#[test]
fn git_path_rebase_merge_is_relevant() {
    let git_dir = "/repo/.git";
    assert!(is_relevant_git_path(
        "/repo/.git/rebase-merge/head-name",
        git_dir
    ));
}

#[test]
fn worktree_repo_root_itself_is_not_relevant() {
    let root = "/repo";
    assert!(!is_relevant_worktree_path(root, root, false));
}

#[test]
fn worktree_ds_store_is_skipped() {
    let root = "/repo";
    assert!(!is_relevant_worktree_path(
        "/repo/.DS_Store",
        root,
        false
    ));
}

#[test]
fn worktree_pycache_is_skipped() {
    let root = "/repo";
    assert!(!is_relevant_worktree_path(
        "/repo/__pycache__",
        root,
        false
    ));
}

#[test]
fn worktree_regular_source_file_is_relevant() {
    let root = "/repo";
    assert!(is_relevant_worktree_path(
        "/repo/src/main.rs",
        root,
        false
    ));
}

#[test]
fn worktree_nested_file_is_relevant() {
    let root = "/repo";
    assert!(is_relevant_worktree_path(
        "/repo/a/b/c/file.txt",
        root,
        false
    ));
}

#[test]
fn git_path_outside_git_dir_is_not_relevant() {
    assert!(!is_relevant_git_path("/repo/src/main.rs", "/repo/.git"));
}

#[test]
fn git_path_trailing_slash_is_same_dir() {
    assert!(is_relevant_git_path("/repo/.git/", "/repo/.git"));
}

#[test]
fn worktree_ignored_file_is_skipped() {
    assert!(!is_relevant_worktree_path("/repo/target/x", "/repo", true));
}

#[test]
fn relevant_path_dispatches_on_git_dir() {
    assert!(!is_relevant_path("/repo/.git/objects/ab/cd", "/repo", "/repo/.git", false));
    assert!(is_relevant_path("/repo/.git/HEAD", "/repo", "/repo/.git", true));
    assert!(is_relevant_path("/repo/src/main.rs", "/repo", "/repo/.git", false));
    assert!(!is_relevant_path("/repo/target/out.o", "/repo", "/repo/.git", true));
    assert!(!is_relevant_path("/repo", "/repo", "/repo/.git", false));
}

#[test]
fn wait_covers_rest_of_debounce_window() {
    assert_eq!(wait_ms(None, 10_000), 2000);
    assert_eq!(wait_ms(Some(1000), 1200), 300);
    assert_eq!(wait_ms(Some(1000), 1500), 0);
    assert_eq!(wait_ms(Some(1000), 9000), 0);
    assert_eq!(wait_ms(Some(1000), 900), 500);
}

#[test]
fn quiet_period_reports_polls_or_waits() {
    assert_eq!(on_quiet(Some(1000), 1500), QuietStep::Report);
    assert_eq!(on_quiet(Some(1000), 1499), QuietStep::Wait);
    assert_eq!(on_quiet(None, 5), QuietStep::Poll);
}

#[test]
fn first_mtime_is_a_baseline() {
    assert!(!mtime_changed(None, (5, 1)));
    assert!(!mtime_changed(Some((5, 1)), (5, 1)));
    assert!(mtime_changed(Some((5, 1)), (5, 2)));
    assert!(mtime_changed(Some((5, 1)), (6, 1)));
}
