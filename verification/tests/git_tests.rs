//! Status kinds, filters and repository status helpers.
use gitover::git::{DeltaKind, FileEntry, FileStatusKind, HistoryFilter, RepoStatus};

#[test]
fn file_status_kind_codes() {
    assert_eq!(FileStatusKind::Staged.code(), "S");
    assert_eq!(FileStatusKind::Modified.code(), "M");
    assert_eq!(FileStatusKind::Deleted.code(), "D");
    assert_eq!(FileStatusKind::Conflict.code(), "C");
    assert_eq!(FileStatusKind::Untracked.code(), "U");
}

#[test]
fn file_status_kind_labels() {
    assert_eq!(FileStatusKind::Staged.label(), "staged");
    assert_eq!(FileStatusKind::Modified.label(), "modified");
    assert_eq!(FileStatusKind::Deleted.label(), "deleted");
    assert_eq!(FileStatusKind::Conflict.label(), "conflict");
    assert_eq!(FileStatusKind::Untracked.label(), "untracked");
}

#[test]
fn file_status_sort_priority_order() {
    // Conflict < Staged < Modified < Deleted < Untracked
    assert!(FileStatusKind::Conflict.sort_priority() < FileStatusKind::Staged.sort_priority());
    assert!(FileStatusKind::Staged.sort_priority() < FileStatusKind::Modified.sort_priority());
    assert!(FileStatusKind::Modified.sort_priority() < FileStatusKind::Deleted.sort_priority());
    assert!(FileStatusKind::Deleted.sort_priority() < FileStatusKind::Untracked.sort_priority());
}

#[test]
fn delta_kind_codes() {
    assert_eq!(DeltaKind::Added.code(), "A");
    assert_eq!(DeltaKind::Modified.code(), "M");
    assert_eq!(DeltaKind::Deleted.code(), "D");
    assert_eq!(DeltaKind::Renamed.code(), "R");
    assert_eq!(DeltaKind::Other.code(), "?");
}

#[test]
fn history_filter_label_full_is_empty() {
    assert_eq!(HistoryFilter::Full.label(), "");
}

#[test]
fn history_filter_label_ahead_of() {
    assert_eq!(
        HistoryFilter::AheadOf("origin/main".to_string()).label(),
        "ahead of origin/main"
    );
}

#[test]
fn history_filter_label_behind_of() {
    assert_eq!(
        HistoryFilter::BehindOf("origin/main".to_string()).label(),
        "behind origin/main"
    );
}

#[test]
fn history_filter_label_branch_full() {
    assert_eq!(
        HistoryFilter::BranchFull("feature-x".to_string()).label(),
        "feature-x"
    );
}

#[test]
fn history_filter_label_branch_ahead_of() {
    let filter = HistoryFilter::BranchAheadOf {
        branch: "feat".to_string(),
        of: "origin/main".to_string(),
    };
    assert_eq!(filter.label(), "feat ahead of origin/main");
}

#[test]
fn history_filter_label_branch_behind_of() {
    let filter = HistoryFilter::BranchBehindOf {
        branch: "feat".to_string(),
        of: "origin/main".to_string(),
    };
    assert_eq!(filter.label(), "feat behind origin/main");
}

#[test]
fn repo_status_is_clean_with_no_changes() {
    let s = RepoStatus {
        path: "/tmp/repo".into(),
        branch: "main".into(),
        added: 0,
        modified: 0,
        staged: 0,
        deleted: 0,
        conflict: 0,
        upstream: None,
        trunk: None,
        local_branches: vec![],
        remote_only_branches: vec![],
        merged_branches: vec![],
        files: vec![],
        error: None,
    };
    assert!(s.is_clean());
}

#[test]
fn repo_status_is_not_clean_with_modified() {
    let s = RepoStatus {
        path: "/tmp/repo".into(),
        branch: "main".into(),
        added: 0,
        modified: 1,
        staged: 0,
        deleted: 0,
        conflict: 0,
        upstream: None,
        trunk: None,
        local_branches: vec![],
        remote_only_branches: vec![],
        merged_branches: vec![],
        files: vec![],
        error: None,
    };
    assert!(!s.is_clean());
}

#[test]
fn repo_status_is_not_clean_with_error() {
    let s = RepoStatus::error_entry("/tmp/bad", "not a repo".to_string());
    assert!(!s.is_clean());
    assert_eq!(s.error.as_deref(), Some("not a repo"));
    assert_eq!(s.path, "/tmp/bad");
}

#[test]
fn file_sort_order_conflict_first() {
    let mut files = vec![
        FileEntry {
            path: "c.txt".into(),
            status: FileStatusKind::Untracked,
        },
        FileEntry {
            path: "b.txt".into(),
            status: FileStatusKind::Modified,
        },
        FileEntry {
            path: "a.txt".into(),
            status: FileStatusKind::Conflict,
        },
        FileEntry {
            path: "d.txt".into(),
            status: FileStatusKind::Staged,
        },
        FileEntry {
            path: "e.txt".into(),
            status: FileStatusKind::Deleted,
        },
    ];

    files.sort_by(|a, b| {
        a.status
            .sort_priority()
            .cmp(&b.status.sort_priority())
            .then_with(|| a.path.cmp(&b.path))
    });

    assert_eq!(files[0].status, FileStatusKind::Conflict);
    assert_eq!(files[1].status, FileStatusKind::Staged);
    assert_eq!(files[2].status, FileStatusKind::Modified);
    assert_eq!(files[3].status, FileStatusKind::Deleted);
    assert_eq!(files[4].status, FileStatusKind::Untracked);
}

#[test]
fn file_sort_order_alphabetical_within_group() {
    let mut files = vec![
        FileEntry {
            path: "z.txt".into(),
            status: FileStatusKind::Untracked,
        },
        FileEntry {
            path: "a.txt".into(),
            status: FileStatusKind::Untracked,
        },
        FileEntry {
            path: "m.txt".into(),
            status: FileStatusKind::Untracked,
        },
    ];

    files.sort_by(|a, b| {
        a.status
            .sort_priority()
            .cmp(&b.status.sort_priority())
            .then_with(|| a.path.cmp(&b.path))
    });

    assert_eq!(files[0].path, "a.txt");
    assert_eq!(files[1].path, "m.txt");
    assert_eq!(files[2].path, "z.txt");
}


#[test]
fn ahead_behind_text_shows_counts_and_branch() {
    let ab = gitover::git::AheadBehind { ahead: 12, behind: 0, branch: "origin/main".to_string() };
    assert_eq!(ab.text(), "↑12 ↓0 origin/main");
    let ab = gitover::git::AheadBehind { ahead: 3, behind: 105, branch: String::new() };
    assert_eq!(ab.text(), "↑3 ↓105 ");
}
