//! Merged branches, per-commit file order, diff colouring, status parts and the
//! action menu's geometry.
use gitover::git::{diff_line_kind, BranchInfo, CommitEntry, CommitFileDelta, DeltaKind, DiffLineKind, RepoStatus};
use gitover::panes::{action_menu_area, pane_top_rect, Area};
use gitover::scan::{assemble_branches, merged_to_trunk, sort_commit_files, sort_history_files, LocalBranchFacts};

fn s(x: &str) -> String {
    x.to_string()
}

fn delta(kind: DeltaKind, path: &str) -> CommitFileDelta {
    CommitFileDelta { kind, path: s(path) }
}

fn paths(v: &[CommitFileDelta]) -> Vec<&str> {
    v.iter().map(|d| d.path.as_str()).collect()
}

fn local(name: &str, is_head: bool, against_trunk: Option<(usize, usize)>) -> LocalBranchFacts {
    LocalBranchFacts { name: s(name), is_head, upstream: None, against_trunk }
}

fn branch(current: bool, merged: bool) -> BranchInfo {
    BranchInfo {
        name: s("b"),
        is_current: current,
        is_remote_only: false,
        is_trunk: false,
        upstream: None,
        trunk: None,
        is_merged: merged,
    }
}

#[test]
fn merged_needs_nothing_ahead_and_something_behind() {
    assert!(merged_to_trunk(Some((0, 1))));
    assert!(merged_to_trunk(Some((0, 7))));
    assert!(!merged_to_trunk(Some((0, 0))));
    assert!(!merged_to_trunk(Some((1, 3))));
    assert!(!merged_to_trunk(None));
}

#[test]
fn branches_mark_merged_locals_only() {
    let locals = vec![
        local("done", false, Some((0, 2))),
        local("wip", true, Some((1, 2))),
        local("main", false, Some((0, 4))),
        local("fresh", false, Some((0, 0))),
    ];
    let remote = vec![s("origin/old")];
    let out = assemble_branches(locals, &remote, &Some(s("origin/main")));
    assert_eq!(out.len(), 5);
    assert!(out[0].is_merged);
    assert!(!out[1].is_merged);
    // The trunk's own counterpart is never marked merged.
    assert!(out[2].is_trunk && !out[2].is_merged);
    assert!(!out[3].is_merged);
    assert!(out[4].is_remote_only && !out[4].is_merged);
}

#[test]
fn branches_without_trunk_are_not_merged() {
    let out = assemble_branches(vec![local("dev", true, Some((0, 3)))], &Vec::new(), &None);
    assert!(!out[0].is_merged);
}

#[test]
fn branch_markers() {
    assert_eq!(branch(true, true).marker(), "*✓ ");
    assert_eq!(branch(true, false).marker(), "*  ");
    assert_eq!(branch(false, true).marker(), "✓  ");
    assert_eq!(branch(false, false).marker(), "   ");
}

#[test]
fn commit_files_sorted_case_insensitively_by_default() {
    let files = vec![
        delta(DeltaKind::Modified, "src/b.rs"),
        delta(DeltaKind::Added, "README.md"),
        delta(DeltaKind::Deleted, "Cargo.toml"),
        delta(DeltaKind::Renamed, "docs/a.md"),
    ];
    let out = sort_commit_files(files, false);
    assert_eq!(paths(&out), vec!["Cargo.toml", "docs/a.md", "README.md", "src/b.rs"]);
    assert_eq!(out[0].kind, DeltaKind::Deleted);
    assert_eq!(out[1].kind, DeltaKind::Renamed);
    assert_eq!(out[2].kind, DeltaKind::Added);
    assert_eq!(out[3].kind, DeltaKind::Modified);
}

#[test]
fn commit_files_sorted_case_sensitively_when_asked() {
    let files = vec![
        delta(DeltaKind::Modified, "src/b.rs"),
        delta(DeltaKind::Added, "README.md"),
        delta(DeltaKind::Deleted, "Cargo.toml"),
        delta(DeltaKind::Renamed, "docs/a.md"),
    ];
    let out = sort_commit_files(files, true);
    assert_eq!(paths(&out), vec!["Cargo.toml", "README.md", "docs/a.md", "src/b.rs"]);
}

#[test]
fn commit_files_sort_is_stable_and_keeps_all() {
    let files = vec![delta(DeltaKind::Added, "A.txt"), delta(DeltaKind::Deleted, "a.txt"), delta(DeltaKind::Modified, "a.txt")];
    let out = sort_commit_files(files, false);
    assert_eq!(paths(&out), vec!["A.txt", "a.txt", "a.txt"]);
    assert_eq!(out[1].kind, DeltaKind::Deleted);
    assert_eq!(out[2].kind, DeltaKind::Modified);
    assert!(sort_commit_files(Vec::new(), false).is_empty());
}

#[test]
fn history_files_sorted_per_commit() {
    let commit = |hash: &str, files: Vec<CommitFileDelta>| CommitEntry {
        short_hash: s(hash),
        timestamp: s("2024-01-02 03:04:05"),
        author: s("Ann"),
        author_email: s("ann@example.org"),
        summary: s("change"),
        body: s(""),
        files,
    };
    let commits = vec![
        commit("abc12345", vec![delta(DeltaKind::Added, "z"), delta(DeltaKind::Added, "Y")]),
        commit("def67890", vec![delta(DeltaKind::Modified, "b"), delta(DeltaKind::Modified, "a")]),
    ];
    let out = sort_history_files(commits, false);
    assert_eq!(out.len(), 2);
    assert_eq!(out[0].short_hash, "abc12345");
    assert_eq!(paths(&out[0].files), vec!["Y", "z"]);
    assert_eq!(out[1].short_hash, "def67890");
    assert_eq!(paths(&out[1].files), vec!["a", "b"]);
    assert_eq!(out[1].author_email, "ann@example.org");
}

#[test]
fn diff_lines_are_classified() {
    assert_eq!(diff_line_kind("+added"), DiffLineKind::Added);
    assert_eq!(diff_line_kind("+++ b/file"), DiffLineKind::Header);
    assert_eq!(diff_line_kind("-gone"), DiffLineKind::Removed);
    assert_eq!(diff_line_kind("--- a/file"), DiffLineKind::Header);
    assert_eq!(diff_line_kind("@@ -1,2 +1,3 @@"), DiffLineKind::Hunk);
    assert_eq!(diff_line_kind("diff --git a/x b/x"), DiffLineKind::Header);
    assert_eq!(diff_line_kind("index 123..456"), DiffLineKind::Header);
    assert_eq!(diff_line_kind("Binary files differ"), DiffLineKind::Header);
    assert_eq!(diff_line_kind(" context"), DiffLineKind::Context);
    assert_eq!(diff_line_kind(""), DiffLineKind::Context);
}

#[test]
fn status_parts_list_nonzero_counts_in_order() {
    let mut r = RepoStatus::error_entry("/r", s("x"));
    r.error = None;
    assert!(r.status_parts().is_empty());
    r.added = 2;
    r.staged = 1;
    r.deleted = 3;
    assert_eq!(r.status_parts(), vec![(1, "S"), (3, "D"), (2, "U")]);
    r.conflict = 4;
    r.modified = 5;
    assert_eq!(r.status_parts(), vec![(1, "S"), (4, "C"), (5, "M"), (3, "D"), (2, "U")]);
}

#[test]
fn pane_top_rect_centres_and_clamps() {
    let pane = Area { x: 10, y: 5, width: 40, height: 20 };
    assert_eq!(pane_top_rect(20, 6, &pane), Area { x: 20, y: 5, width: 20, height: 6 });
    assert_eq!(pane_top_rect(21, 6, &pane), Area { x: 19, y: 5, width: 21, height: 6 });
    assert_eq!(pane_top_rect(60, 6, &pane), Area { x: 10, y: 5, width: 40, height: 6 });
}

#[test]
fn action_menu_area_fits_content_and_pane() {
    let pane = Area { x: 0, y: 3, width: 100, height: 13 };
    let terminal = Area { x: 0, y: 0, width: 100, height: 40 };
    // At least 40% of the terminal: 40 beats the label 20 + 6 and the title 14 + 2;
    // 5 items + 2 borders.
    assert_eq!(action_menu_area(14, 20, 5, &pane, &terminal), Area { x: 30, y: 3, width: 40, height: 7 });
    // Content wider than that: the widest label 50 + 6.
    assert_eq!(action_menu_area(14, 50, 5, &pane, &terminal), Area { x: 22, y: 3, width: 56, height: 7 });
    // At most 80% of the pane.
    assert_eq!(action_menu_area(200, 0, 5, &pane, &terminal), Area { x: 10, y: 3, width: 80, height: 7 });
    // Never lower than 3.
    assert_eq!(action_menu_area(0, 0, 0, &pane, &terminal), Area { x: 30, y: 3, width: 40, height: 3 });
    // No taller than what is left down to the terminal's bottom.
    assert_eq!(action_menu_area(10, 10, 60, &pane, &terminal), Area { x: 30, y: 3, width: 40, height: 37 });
    // At least 10 wide, but never wider than the pane itself.
    let small = Area { x: 0, y: 0, width: 8, height: 10 };
    assert_eq!(action_menu_area(0, 0, 1, &small, &small), Area { x: 0, y: 0, width: 8, height: 3 });
}
