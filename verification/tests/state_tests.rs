//! Sections and repositories of the persisted state, and configuration defaults.
use gitover::config::Config;
use gitover::persist::{make_relative, resolve_path, SavedState};
use gitover::state::{sort_section_repos, RepoSection, State};

#[test]
fn repo_section_default_has_no_name() {
    let section = RepoSection::new_default();
    assert!(section.is_default());
    assert!(section.name.is_none());
}

#[test]
fn repo_section_named_is_not_default() {
    let section = RepoSection {
        name: Some("Work".to_string()),
        repos: vec![],
        collapsed: false,
    };
    assert!(!section.is_default());
}

#[test]
fn default_section_returns_immutable_ref_to_first_section() {
    let state = State::default();
    assert!(state.default_section().is_default());
    assert!(state.default_section().repos.is_empty());
}

#[test]
fn default_section_mut_allows_modifying_first_section() {
    let mut state = State::default();
    state.default_section_mut().repos.push("/some/path".to_string());
    assert_eq!(state.sections[0].repos.len(), 1);
}

#[test]
fn only_named_sections_false_when_no_named_sections() {
    let state = State::default();
    assert!(!state.only_named_sections());
}

#[test]
fn only_named_sections_true_when_default_empty_and_named_exists() {
    let mut state = State::default();
    state.add_section("Work".to_string());
    assert!(state.only_named_sections());
}

#[test]
fn section_idx_for_flat_repo_idx_finds_correct_section() {
    let mut state = State::default();
    state.sections[0].repos.push("/repo/a".to_string());
    state.sections[0].repos.push("/repo/b".to_string());
    state.add_section("Work".to_string());
    state.sections[1].repos.push("/repo/c".to_string());

    assert_eq!(state.section_idx_for_flat_repo_idx(0), 0);
    assert_eq!(state.section_idx_for_flat_repo_idx(1), 0);
    assert_eq!(state.section_idx_for_flat_repo_idx(2), 1);
    assert_eq!(state.section_idx_for_flat_repo_idx(99), 0);
}

#[test]
fn section_idx_for_path_finds_repo_in_named_section() {
    let mut state = State::default();
    state.add_section("Work".to_string());
    state.sections[1].repos.push("/work/repo".to_string());

    assert_eq!(state.section_idx_for_path("/work/repo"), Some(1));
    assert_eq!(state.section_idx_for_path("/not/there"), None);
}

#[test]
fn sort_section_repos_case_sensitive_uses_ascii_order() {
    let mut section = RepoSection {
        name: None,
        repos: vec!["/b/repo".to_string(), "/A/repo".to_string()],
        collapsed: false,
    };
    sort_section_repos(&mut section, true);
    assert_eq!(section.repos[0], "/A/repo");
}

#[test]
fn rename_section_invalid_idx_returns_none() {
    let mut state = State::default();
    assert!(state.rename_section(0, "Name".to_string()).is_none());
    assert!(state.rename_section(99, "Name".to_string()).is_none());
}

#[test]
fn rename_section_duplicate_name_returns_none() {
    let mut state = State::default();
    state.add_section("Alpha".to_string());
    state.add_section("Beta".to_string());
    let alpha_idx = state
        .sections
        .iter()
        .position(|s| s.name.as_deref() == Some("Alpha"))
        .unwrap();
    assert!(state.rename_section(alpha_idx, "Beta".to_string()).is_none());
}

#[test]
fn remove_section_idx_zero_is_noop() {
    let mut state = State::default();
    state.add_section("Work".to_string());
    let len = state.sections.len();
    state.remove_section(0);
    assert_eq!(state.sections.len(), len);
}

#[test]
fn remove_section_out_of_bounds_is_noop() {
    let mut state = State::default();
    let len = state.sections.len();
    state.remove_section(99);
    assert_eq!(state.sections.len(), len);
}

#[test]
fn config_default_has_no_git_override() {
    let cfg = Config::default();
    assert!(cfg.general.git.is_none());
}

#[test]
fn state_add_and_remove_repo() {
    let mut state = State::default();
    assert!(!state.has_any_repos());

    let added = state.add_repo("/tmp/repo-a");
    assert!(added, "first add should return true");
    assert_eq!(state.all_repos_flat().len(), 1);
    assert_eq!(state.sections[0].repos[0], "/tmp/repo-a");

    let duplicate = state.add_repo("/tmp/repo-a");
    assert!(!duplicate, "duplicate add should return false");
    assert_eq!(state.all_repos_flat().len(), 1);

    state.remove_repo("/tmp/repo-a");
    assert!(!state.has_any_repos());
}

#[test]
fn state_repos_sorted_on_add() {
    let mut state = State::default();
    state.add_repo("/tmp/z-repo");
    state.add_repo("/tmp/a-repo");
    state.add_repo("/tmp/m-repo");

    let repos = &state.sections[0].repos;
    assert_eq!(repos[0], "/tmp/a-repo");
    assert_eq!(repos[1], "/tmp/m-repo");
    assert_eq!(repos[2], "/tmp/z-repo");
}

#[test]
fn state_remove_nonexistent_is_noop() {
    let mut state = State::default();
    state.add_repo("/tmp/real-repo");
    state.remove_repo("/tmp/does-not-exist");
    assert_eq!(state.all_repos_flat().len(), 1);
}

#[test]
fn state_add_section_and_repos() {
    let mut state = State::default();
    let section_idx = state.add_section("Work".to_string()).unwrap();
    assert_eq!(section_idx, 1);
    assert_eq!(state.sections.len(), 2);
    assert_eq!(state.sections[1].name.as_deref(), Some("Work"));

    let added = state.add_repo_to_section("/tmp/work-repo", 1);
    assert!(added);
    assert_eq!(state.sections[1].repos.len(), 1);

    assert_eq!(state.all_repos_flat(), vec!["/tmp/work-repo".to_string()]);
}

#[test]
fn state_add_section_duplicate_name_is_rejected() {
    let mut state = State::default();
    state.add_section("Work".to_string()).unwrap();
    assert!(state.add_section("work".to_string()).is_none());
}

#[test]
fn state_named_sections_sorted_alphabetically() {
    let mut state = State::default();
    state.add_section("Zebra".to_string()).unwrap();
    state.add_section("Alpha".to_string()).unwrap();
    state.add_section("Middle".to_string()).unwrap();

    assert_eq!(state.sections[1].name.as_deref(), Some("Alpha"));
    assert_eq!(state.sections[2].name.as_deref(), Some("Middle"));
    assert_eq!(state.sections[3].name.as_deref(), Some("Zebra"));
}

#[test]
fn state_rename_section_updates_name_and_resorts() {
    let mut state = State::default();
    state.add_section("Aardvark".to_string()).unwrap();
    state.add_section("Zebra".to_string()).unwrap();

    let new_idx = state.rename_section(1, "Monkey".to_string()).unwrap();
    assert_eq!(state.sections[new_idx].name.as_deref(), Some("Monkey"));
}

#[test]
fn state_remove_section_moves_repos_to_default() {
    let mut state = State::default();
    state.add_section("Work".to_string()).unwrap();
    state.add_repo_to_section("/tmp/repo-a", 1);
    state.add_repo_to_section("/tmp/repo-b", 1);

    state.remove_section(1);
    assert_eq!(state.sections.len(), 1);
    assert_eq!(state.sections[0].repos.len(), 2);
    assert!(state.sections[0].repos.contains(&"/tmp/repo-a".to_string()));
    assert!(state.sections[0].repos.contains(&"/tmp/repo-b".to_string()));
}

#[test]
fn state_move_repo_to_section() {
    let mut state = State::default();
    state.add_repo("/tmp/repo-a");
    state.add_section("Work".to_string()).unwrap();

    state.move_repo_to_section("/tmp/repo-a", 1);
    assert!(state.sections[0].repos.is_empty());
    assert_eq!(state.sections[1].repos[0], "/tmp/repo-a");
}

#[test]
fn state_default_has_no_repos_and_hidden_panes() {
    let state = State::default();
    assert_eq!(state.sections.len(), 1);
    assert!(!state.show_file_status);
    assert!(!state.show_log);
    assert!(!state.show_history);
    assert!(!state.show_details);
}

#[test]
fn state_add_then_remove_restores_sections() {
    let mut state = State::default();
    state.add_section("Work".to_string()).unwrap();
    state.add_repo_to_section("/w/b", 1);
    let before: Vec<Vec<String>> = state.sections.iter().map(|s| s.repos.clone()).collect();
    assert!(state.add_repo_to_section("/w/a", 1));
    state.remove_repo("/w/a");
    let after: Vec<Vec<String>> = state.sections.iter().map(|s| s.repos.clone()).collect();
    assert_eq!(before, after);
}

#[test]
fn state_add_repo_to_out_of_range_section_uses_last() {
    let mut state = State::default();
    state.add_section("Work".to_string()).unwrap();
    assert!(state.add_repo_to_section("/w/x", 7));
    assert_eq!(state.sections[1].repos, vec!["/w/x".to_string()]);
}

#[test]
fn resolve_path_relative_and_absolute() {
    assert_eq!(resolve_path("repo", "/home/me"), "/home/me/repo");
    assert_eq!(resolve_path("repo", "/home/me/"), "/home/me/repo");
    assert_eq!(resolve_path("/abs/repo", "/home/me"), "/abs/repo");
    assert_eq!(resolve_path("repo", ""), "repo");
}

#[test]
fn make_relative_strips_base() {
    assert_eq!(make_relative("/home/me/repo", "/home/me"), "repo");
    assert_eq!(make_relative("/home/me/a/b", "/home/me/"), "a/b");
    assert_eq!(make_relative("/other/repo", "/home/me"), "/other/repo");
    assert_eq!(make_relative("/home/mex/repo", "/home/me"), "/home/mex/repo");
    assert_eq!(make_relative("/home/me", "/home/me"), "");
}

#[test]
fn from_saved_inserts_default_section_when_named_is_first() {
    let saved = SavedState {
        repos: vec![],
        sections: vec![RepoSection { name: Some("Work".to_string()), repos: vec!["w".to_string()], collapsed: true }],
        show_file_status: true,
        show_log: false,
        show_history: false,
        show_details: false,
    };
    let dirs = vec!["/base/w".to_string()];
    let st = State::from_saved(saved, "/base/state.yaml".to_string(), "/base", &dirs);
    assert_eq!(st.sections.len(), 2);
    assert!(st.sections[0].is_default());
    assert_eq!(st.sections[1].name.as_deref(), Some("Work"));
    assert_eq!(st.sections[1].repos, vec!["/base/w".to_string()]);
    assert!(st.sections[1].collapsed);
    assert!(st.show_file_status);
    assert_eq!(st.path, "/base/state.yaml");
}

#[test]
fn from_saved_drops_missing_dirs_and_sorts() {
    let saved = SavedState {
        repos: vec![],
        sections: vec![RepoSection {
            name: None,
            repos: vec!["Zed".to_string(), "gone".to_string(), "/abs/alpha".to_string()],
            collapsed: false,
        }],
        show_file_status: false,
        show_log: true,
        show_history: false,
        show_details: false,
    };
    let dirs = vec!["/b/Zed".to_string(), "/abs/alpha".to_string()];
    let st = State::from_saved(saved, "/b/s.yaml".to_string(), "/b", &dirs);
    assert_eq!(st.sections[0].repos, vec!["/abs/alpha".to_string(), "/b/Zed".to_string()]);
    assert!(st.show_log);
}

#[test]
fn from_saved_migrates_legacy_flat_list() {
    let saved = SavedState {
        repos: vec!["legacy".to_string()],
        sections: vec![],
        show_file_status: false,
        show_log: false,
        show_history: false,
        show_details: false,
    };
    let dirs = vec!["/b/legacy".to_string()];
    let st = State::from_saved(saved, "/b/s.yaml".to_string(), "/b", &dirs);
    assert_eq!(st.sections.len(), 1);
    assert_eq!(st.sections[0].repos, vec!["/b/legacy".to_string()]);
}

#[test]
fn from_saved_empty_gives_default_section() {
    let saved = SavedState {
        repos: vec![],
        sections: vec![],
        show_file_status: false,
        show_log: false,
        show_history: false,
        show_details: false,
    };
    let st = State::from_saved(saved, "s.yaml".to_string(), "", &vec![]);
    assert_eq!(st.sections.len(), 1);
    assert!(st.sections[0].is_default());
}

#[test]
fn saveable_sections_round_trip_with_resolve() {
    let mut state = State::default();
    state.add_repo("/base/one");
    state.add_repo("/elsewhere/two");
    let saved = state.saveable_sections("/base");
    assert_eq!(saved[0].repos, vec!["one".to_string(), "/elsewhere/two".to_string()]);
    for (orig, rel) in state.sections[0].repos.iter().zip(saved[0].repos.iter()) {
        assert_eq!(&resolve_path(rel, "/base"), orig);
    }
}

#[test]
fn saved_sections_load_back_unchanged() {
    let mut st = State::default();
    st.add_repo("/home/u/code/alpha");
    st.add_repo("/elsewhere/beta");
    let idx = st.add_section("Work".to_string()).unwrap();
    st.add_repo_to_section("/home/u/code/work/gamma", idx);
    let saved_sections = st.saveable_sections("/home/u/code");
    let names: Vec<Vec<String>> = saved_sections.iter().map(|s| s.repos.clone()).collect();
    assert_eq!(names, vec![vec!["/elsewhere/beta".to_string(), "alpha".to_string()], vec!["work/gamma".to_string()]]);
    let dirs = vec![
        "/home/u/code/alpha".to_string(),
        "/elsewhere/beta".to_string(),
        "/home/u/code/work/gamma".to_string(),
    ];
    let saved = SavedState {
        repos: vec![],
        sections: saved_sections,
        show_file_status: true,
        show_log: false,
        show_history: true,
        show_details: false,
    };
    let back = State::from_saved(saved, "/home/u/code/gitover.state.yaml".to_string(), "/home/u/code", &dirs);
    let before: Vec<(Option<String>, Vec<String>)> = st.sections.iter().map(|s| (s.name.clone(), s.repos.clone())).collect();
    let after: Vec<(Option<String>, Vec<String>)> = back.sections.iter().map(|s| (s.name.clone(), s.repos.clone())).collect();
    assert_eq!(before, after);
    assert!(back.show_file_status && back.show_history && !back.show_log && !back.show_details);
}

#[test]
fn flat_repo_owner_holds_that_repo() {
    let mut state = State::default();
    state.sections[0].repos.push("/repo/a".to_string());
    state.add_section("Work".to_string());
    state.add_section("Home".to_string());
    let work = state.sections.iter().position(|s| s.name.as_deref() == Some("Work")).unwrap();
    state.sections[work].repos.push("/repo/w1".to_string());
    state.sections[work].repos.push("/repo/w2".to_string());
    let flat = state.all_repos_flat();
    assert_eq!(flat.len(), 3);
    for (i, path) in flat.iter().enumerate() {
        let owner = state.section_idx_for_flat_repo_idx(i);
        assert!(state.sections[owner].repos.contains(path));
    }
    assert_eq!(state.section_idx_for_flat_repo_idx(2), work);
    assert_eq!(state.section_idx_for_flat_repo_idx(3), 0);
}
