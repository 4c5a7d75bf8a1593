//! Classifying status entries, branch labels, trunk candidates and branch lists.
use gitover::git::{AheadBehind, FileStatusKind, HistoryFilter};
use gitover::scan::{
    ahead_behind_entry, pick_trunk, upstream_label,
    assemble_branches, LocalBranchFacts, branch_label, classify_entries, get_repo_status, merged_branch_names, remote_only_branches,
    trunk_candidates, HeadState, STATUS_CONFLICTED, STATUS_INDEX_MODIFIED, STATUS_INDEX_NEW,
    STATUS_WT_DELETED, STATUS_WT_MODIFIED, STATUS_WT_NEW, STATUS_WT_TYPECHANGE,
};

fn s(x: &str) -> String {
    x.to_string()
}

#[test]
fn classify_counts_and_orders_files() {
    let entries = vec![
        (Some(s("z.txt")), STATUS_WT_NEW),
        (Some(s("b.rs")), STATUS_INDEX_MODIFIED | STATUS_WT_MODIFIED),
        (Some(s("a.rs")), STATUS_WT_MODIFIED),
        (Some(s("c.rs")), STATUS_CONFLICTED | STATUS_INDEX_NEW | STATUS_WT_MODIFIED),
        (Some(s("gone.rs")), STATUS_WT_DELETED),
        (None, STATUS_WT_TYPECHANGE),
    ];
    let c = classify_entries(&entries, false);
    assert_eq!(c.conflict, 1);
    assert_eq!(c.staged, 1);
    assert_eq!(c.modified, 3);
    assert_eq!(c.deleted, 1);
    assert_eq!(c.added, 1);
    let got: Vec<(String, FileStatusKind)> = c.files.iter().map(|f| (f.path.clone(), f.status)).collect();
    assert_eq!(
        got,
        vec![
            (s("c.rs"), FileStatusKind::Conflict),
            (s("b.rs"), FileStatusKind::Staged),
            (s("?"), FileStatusKind::Modified),
            (s("a.rs"), FileStatusKind::Modified),
            (s("b.rs"), FileStatusKind::Modified),
            (s("gone.rs"), FileStatusKind::Deleted),
            (s("z.txt"), FileStatusKind::Untracked),
        ]
    );
}

#[test]
fn classify_no_entries_is_clean() {
    let c = classify_entries(&Vec::new(), false);
    assert_eq!((c.added, c.modified, c.staged, c.deleted, c.conflict), (0, 0, 0, 0, 0));
    assert!(c.files.is_empty());
}

#[test]
fn classify_entry_without_known_flags_lists_nothing() {
    let c = classify_entries(&vec![(Some(s("ignored.log")), 1 << 14)], false);
    assert!(c.files.is_empty());
}

#[test]
fn branch_label_cases() {
    assert_eq!(branch_label(&HeadState::Branch(Some(s("main")))), "main");
    assert_eq!(branch_label(&HeadState::Branch(None)), "unknown");
    assert_eq!(
        branch_label(&HeadState::Detached(Some(s("0123456789abcdef0123456789abcdef01234567")))),
        "detached 01234567"
    );
    assert_eq!(branch_label(&HeadState::Detached(None)), "detached");
    assert_eq!(branch_label(&HeadState::Unborn(Some(s("refs/heads/trunk")))), "trunk");
    assert_eq!(branch_label(&HeadState::Unborn(Some(s("refs/tags/x")))), "unborn");
    assert_eq!(branch_label(&HeadState::Unborn(None)), "unborn");
    assert_eq!(branch_label(&HeadState::Unreadable), "detached");
}

#[test]
fn trunk_candidates_order() {
    let plain = trunk_candidates(&None);
    assert_eq!(
        plain,
        vec![
            (s("refs/remotes/origin/main"), s("origin/main")),
            (s("refs/remotes/origin/develop"), s("origin/develop")),
            (s("refs/remotes/origin/master"), s("origin/master")),
        ]
    );
    let configured = trunk_candidates(&Some(s("release")));
    assert_eq!(configured[0], (s("refs/remotes/release"), s("release")));
    assert_eq!(configured[1], (s("refs/remotes/origin/release"), s("origin/release")));
    assert_eq!(configured.len(), 5);
}

#[test]
fn remote_only_skips_head_and_tracked_names() {
    let local = vec![s("main"), s("feature")];
    let remotes = vec![s("origin/zeta"), s("origin/HEAD"), s("origin/main"), s("upstream/alpha"), s("origin/feature")];
    assert_eq!(remote_only_branches(&local, &remotes), vec![s("origin/zeta"), s("upstream/alpha")]);
}

#[test]
fn merged_names_need_zero_ahead() {
    let results = vec![
        (s("topic"), Some((0, 4))),
        (s("wip"), Some((2, 0))),
        (s("main"), Some((0, 0))),
        (s("broken"), None),
    ];
    assert_eq!(merged_branch_names(&results), vec![s("main"), s("topic")]);
}

#[test]
fn repo_status_of_missing_path_is_an_error() {
    assert!(get_repo_status("/definitely/not/a/repository/here", false).is_err());
}

#[test]
fn branches_list_locals_then_remote_only() {
    let up = AheadBehind { ahead: 1, behind: 0, branch: s("origin/feature") };
    let locals = vec![
        LocalBranchFacts { name: s("feature"), is_head: true, upstream: Some(up), against_trunk: Some((3, 1)) },
        LocalBranchFacts { name: s("main"), is_head: false, upstream: None, against_trunk: Some((0, 0)) },
    ];
    let remote = vec![s("origin/hotfix"), s("origin/main")];
    let out = assemble_branches(locals, &remote, &Some(s("origin/main")));
    assert_eq!(out.len(), 4);
    assert_eq!(out[0].name, "feature");
    assert!(out[0].is_current && !out[0].is_trunk && !out[0].is_remote_only);
    assert_eq!(out[0].upstream.as_ref().map(|u| (u.ahead, u.behind, u.branch.clone())), Some((1, 0, s("origin/feature"))));
    assert_eq!(out[0].trunk.as_ref().map(|t| (t.ahead, t.behind, t.branch.clone())), Some((3, 1, s("origin/main"))));
    assert_eq!(out[1].name, "main");
    assert!(out[1].is_trunk && out[1].trunk.is_none());
    assert_eq!(out[2].name, "hotfix");
    assert!(out[2].is_remote_only && !out[2].is_trunk && out[2].upstream.is_none());
    assert_eq!(out[3].name, "main");
    assert!(out[3].is_remote_only && out[3].is_trunk);
}

#[test]
fn branches_without_trunk_have_no_trunk_column() {
    let locals = vec![LocalBranchFacts { name: s("dev"), is_head: true, upstream: None, against_trunk: Some((2, 2)) }];
    let out = assemble_branches(locals, &Vec::new(), &None);
    assert_eq!(out.len(), 1);
    assert!(out[0].trunk.is_none() && !out[0].is_trunk);
}

#[test]
fn revision_ranges_of_filters() {
    assert_eq!(HistoryFilter::Full.revision_range(), (s("HEAD"), None));
    assert_eq!(HistoryFilter::AheadOf(s("origin/main")).revision_range(), (s("HEAD"), Some(s("origin/main"))));
    assert_eq!(HistoryFilter::BehindOf(s("origin/main")).revision_range(), (s("origin/main"), Some(s("HEAD"))));
    assert_eq!(HistoryFilter::BranchFull(s("dev")).revision_range(), (s("dev"), None));
    assert_eq!(
        HistoryFilter::BranchAheadOf { branch: s("dev"), of: s("origin/dev") }.revision_range(),
        (s("dev"), Some(s("origin/dev")))
    );
    assert_eq!(
        HistoryFilter::BranchBehindOf { branch: s("dev"), of: s("origin/dev") }.revision_range(),
        (s("origin/dev"), Some(s("dev")))
    );
}

#[test]
fn expand_home_replaces_leading_tilde() {
    assert_eq!(gitover::utils::expand_home("~/projects", "/home/u"), "/home/u/projects");
    assert_eq!(gitover::utils::expand_home("~", "/home/u"), "/home/u");
    assert_eq!(gitover::utils::expand_home("~other/x", "/home/u"), "~other/x");
    assert_eq!(gitover::utils::expand_home("/absolute/path", "/home/u"), "/absolute/path");
}

#[test]
fn classify_orders_paths_case_insensitively_unless_asked() {
    let entries = vec![
        (Some(s("B.txt")), STATUS_WT_NEW),
        (Some(s("a.txt")), STATUS_WT_NEW),
        (Some(s("C.rs")), STATUS_WT_MODIFIED),
        (Some(s("b.rs")), STATUS_WT_MODIFIED),
    ];
    let paths = |cs: bool| -> Vec<String> { classify_entries(&entries, cs).files.iter().map(|f| f.path.clone()).collect() };
    assert_eq!(paths(false), vec![s("b.rs"), s("C.rs"), s("a.txt"), s("B.txt")]);
    assert_eq!(paths(true), vec![s("C.rs"), s("b.rs"), s("B.txt"), s("a.txt")]);
}

#[test]
fn ahead_behind_entries_keep_counts_in_order() {
    let e = ahead_behind_entry(Some((3, 7)), s("origin/main")).unwrap();
    assert_eq!((e.ahead, e.behind, e.branch.as_str()), (3, 7, "origin/main"));
    assert!(ahead_behind_entry(None, s("x")).is_none());
    assert_eq!(upstream_label(None), "upstream");
    assert_eq!(upstream_label(Some(s("origin/dev"))), "origin/dev");
    assert_eq!(upstream_label(Some(String::new())), "");
}

#[test]
fn trunk_is_the_first_candidate_found() {
    let cands = trunk_candidates(&None);
    let oid = git2::Oid::from_str("0123456789abcdef0123456789abcdef01234567").unwrap();
    let found = vec![None, Some(Some(oid)), Some(None)];
    assert_eq!(pick_trunk(&cands, &found), Some((Some(oid), s("origin/develop"))));
    assert_eq!(pick_trunk(&cands, &vec![None, None, None]), None);
    assert_eq!(pick_trunk(&cands, &vec![None, None, Some(None)]), Some((None, s("origin/master"))));
}
