//! What each key asks for in the different modes.
use gitover::app::{App, Focus, MenuItem};
use gitover::config::Config;
use gitover::git::{AheadBehind, BranchInfo, FileEntry, FileStatusKind, HistoryFilter, RepoStatus};
use gitover::keys::{Action, Key};
use gitover::ops::OpRequest;
use gitover::state::State;

fn s(x: &str) -> String {
    x.to_string()
}

fn clean_repo(path: &str) -> RepoStatus {
    let mut r = RepoStatus::error_entry(path, String::new());
    r.error = None;
    r
}

fn app_with(repo: RepoStatus) -> App {
    let mut app = App::new_with(Config::default(), State::default());
    app.state.sections[0].repos.push(repo.path.clone());
    app.repos = vec![repo];
    app.selected = 0;
    app
}

fn branch(name: &str, current: bool, upstream: Option<AheadBehind>) -> BranchInfo {
    BranchInfo { name: s(name), is_current: current, is_remote_only: false, is_trunk: false, upstream, trunk: None, is_merged: false }
}

#[test]
fn normal_keys_map_to_actions() {
    let app = app_with(clean_repo("/r/a"));
    assert!(matches!(app.normal_key_action(Key::Tab), Action::CycleFocus));
    assert!(matches!(app.normal_key_action(Key::Down), Action::Next));
    assert!(matches!(app.normal_key_action(Key::Char('r')), Action::RefreshRepos));
    assert!(matches!(app.normal_key_action(Key::Char('f')), Action::Launch(OpRequest::Fetch)));
    assert!(matches!(app.normal_key_action(Key::Char('p')), Action::Launch(OpRequest::Pull)));
    assert!(matches!(app.normal_key_action(Key::Char('h')), Action::OpenHistory(HistoryFilter::Full)));
    assert!(matches!(app.normal_key_action(Key::Enter), Action::OpenRepoMenu));
    assert!(matches!(app.normal_key_action(Key::Left), Action::CollapseSection));
    assert!(matches!(app.normal_key_action(Key::Right), Action::ExpandSection));
    assert!(matches!(app.normal_key_action(Key::Char('z')), Action::Nothing));
}

#[test]
fn branches_pane_pull_fast_forwards_selected_branch() {
    let mut app = app_with(clean_repo("/r/a"));
    let up = AheadBehind { ahead: 0, behind: 2, branch: s("origin/topic") };
    app.branch_info_list = vec![branch("main", true, None), branch("topic", false, Some(up))];
    app.show_branches = true;
    app.focus = Focus::Branches;
    app.branches_pane_selected = 1;
    match app.normal_key_action(Key::Char('p')) {
        Action::Launch(OpRequest::PullBranch { name, upstream }) => {
            assert_eq!(name, "topic");
            assert_eq!(upstream, "origin/topic");
        }
        other => panic!("unexpected {other:?}"),
    }
    match app.normal_key_action(Key::Char('c')) {
        Action::Launch(OpRequest::CheckoutBranch { name, is_remote }) => {
            assert_eq!(name, "topic");
            assert!(!is_remote);
        }
        other => panic!("unexpected {other:?}"),
    }
    assert!(matches!(app.normal_key_action(Key::Esc), Action::CloseBranchesPane));
    assert!(matches!(app.normal_key_action(Key::Left), Action::Nothing));
}

#[test]
fn repo_menu_letters_use_selected_repo_tracking() {
    let mut repo = clean_repo("/r/a");
    repo.upstream = Some(AheadBehind { ahead: 1, behind: 0, branch: s("origin/main") });
    let app = app_with(repo);
    assert!(matches!(app.repo_menu_action('u'), Action::OpenHistory(HistoryFilter::AheadOf(ref b)) if b == "origin/main"));
    assert!(matches!(app.repo_menu_action('U'), Action::OpenHistory(HistoryFilter::BehindOf(ref b)) if b == "origin/main"));
    assert!(matches!(app.repo_menu_action('t'), Action::CloseMenu));
    assert!(matches!(app.repo_menu_action('F'), Action::ConfirmForcePush));
    assert!(matches!(app.repo_menu_action('N'), Action::CreateSection));
    assert!(matches!(app.repo_menu_action('M'), Action::MoveRepoToSection));
    assert!(matches!(app.repo_menu_action('R'), Action::RenameSection));
    assert!(matches!(app.repo_menu_action('X'), Action::RemoveSection));
    assert!(matches!(app.repo_menu_action('q'), Action::Nothing));
}

#[test]
fn menu_keys_navigate_and_run_repo_commands() {
    let mut app = app_with(clean_repo("/r/a"));
    app.menu_items = vec![
        MenuItem::item("Fetch", 'f'),
        MenuItem::separator(),
        MenuItem::repo_command("Open editor", '1', s("code ${ROOT}"), true),
    ];
    app.menu_selected = 0;
    assert!(matches!(app.menu_key_action(Key::Down), Action::MenuNext));
    assert!(matches!(app.menu_key_action(Key::Esc), Action::CloseMenu));
    assert!(matches!(app.menu_key_action(Key::Enter), Action::Launch(OpRequest::Fetch)));
    match app.menu_key_action(Key::Char('1')) {
        Action::RunRepoCommand { name, cmd, background } => {
            assert_eq!(name, "Open editor");
            assert_eq!(cmd, "code ${ROOT}");
            assert!(background);
        }
        other => panic!("unexpected {other:?}"),
    }
    app.menu_selected = 1;
    assert!(matches!(app.menu_key_action(Key::Enter), Action::Nothing));
}

#[test]
fn file_menu_letters_act_on_selected_file() {
    let mut repo = clean_repo("/r/a");
    repo.files = vec![FileEntry { path: s("src/x.rs"), status: FileStatusKind::Conflict }];
    let mut app = app_with(repo);
    app.file_status_selected = 0;
    match app.file_menu_action('r') {
        Action::Launch(OpRequest::RevertFile { file_path, is_conflict }) => {
            assert_eq!(file_path, "src/x.rs");
            assert!(is_conflict);
        }
        other => panic!("unexpected {other:?}"),
    }
    assert!(matches!(app.file_menu_action('s'), Action::Launch(OpRequest::StageFile(ref p)) if p == "src/x.rs"));
    assert!(matches!(app.file_menu_action('c'), Action::OpenCommitInput));
    assert!(matches!(app.file_menu_action('a'), Action::OpenAmendInput));
    assert!(matches!(app.file_menu_action('z'), Action::Nothing));
    app.file_status_selected = 5;
    assert!(matches!(app.file_menu_action('s'), Action::CloseMenu));
}

#[test]
fn branch_menu_letters_act_on_selected_branch() {
    let mut app = app_with(clean_repo("/r/a"));
    let mut remote = branch("feature", false, None);
    remote.is_remote_only = true;
    app.branch_info_list = vec![remote];
    app.branches_pane_selected = 0;
    match app.branch_menu_action('c') {
        Action::Launch(OpRequest::CheckoutBranch { name, is_remote }) => {
            assert_eq!(name, "origin/feature");
            assert!(is_remote);
        }
        other => panic!("unexpected {other:?}"),
    }
    match app.branch_menu_action('p') {
        Action::Launch(OpRequest::PullBranch { name, upstream }) => {
            assert_eq!(name, "feature");
            assert_eq!(upstream, "origin/feature");
        }
        other => panic!("unexpected {other:?}"),
    }
    assert!(matches!(app.branch_menu_action('P'), Action::Launch(OpRequest::PushBranch { ref name }) if name == "feature"));
    assert!(matches!(app.branch_menu_action('F'), Action::ConfirmForcePushBranch(ref n) if n == "feature"));
    assert!(matches!(app.branch_menu_action('d'), Action::ConfirmDeleteBranch));
    assert!(matches!(app.branch_menu_action('u'), Action::CloseMenu));
    app.branches_pane_selected = 3;
    assert!(matches!(app.branch_menu_action('c'), Action::CloseMenu));
}

#[test]
fn log_and_history_menu_letters() {
    let app = app_with(clean_repo("/r/a"));
    assert!(matches!(app.log_menu_action('c'), Action::CopyLog));
    assert!(matches!(app.log_menu_action('x'), Action::ClearLog));
    assert!(matches!(app.log_menu_action('y'), Action::Nothing));
    assert!(matches!(app.history_menu_action('u'), Action::Launch(OpRequest::UndoCommit)));
    assert!(matches!(app.history_menu_action('x'), Action::Nothing));
}

#[test]
fn history_keys_move_between_commits() {
    let mut app = app_with(clean_repo("/r/a"));
    app.show_history = true;
    app.focus = Focus::History;
    assert!(matches!(app.history_key_action(Key::Char('h'), false), Action::CloseHistory));
    assert!(matches!(app.history_key_action(Key::Down, true), Action::NextCommit));
    assert!(matches!(app.history_key_action(Key::Char(','), false), Action::PreviousCommit));
    assert!(matches!(app.history_key_action(Key::Down, false), Action::Next));
    assert!(matches!(app.history_key_action(Key::Enter, false), Action::Nothing));
    app.focus = Focus::Repos;
    assert!(matches!(app.history_key_action(Key::Char('.'), false), Action::Nothing));
}

#[test]
fn new_branch_request_uses_sanitised_name_and_base() {
    let mut app = app_with(clean_repo("/r/a"));
    app.branch_input = s("  my feature ");
    match app.new_branch_request() {
        Some(OpRequest::CreateBranch(n)) => assert_eq!(n, "my-feature"),
        other => panic!("unexpected {other:?}"),
    }
    app.branch_input_base = s("develop");
    match app.new_branch_request() {
        Some(OpRequest::CreateBranchFrom { name, base }) => {
            assert_eq!(name, "my-feature");
            assert_eq!(base, "develop");
        }
        other => panic!("unexpected {other:?}"),
    }
    app.branch_input = s("   ");
    assert!(app.new_branch_request().is_none());
}

#[test]
fn set_repos_orders_by_sections_and_clamps_selection() {
    let mut app = App::new_with(Config::default(), State::default());
    app.state.sections[0].repos = vec![s("/r/a"), s("/r/b")];
    app.selected = 7;
    app.set_repos(vec![clean_repo("/r/b"), clean_repo("/r/gone"), clean_repo("/r/a")]);
    let paths: Vec<String> = app.repos.iter().map(|r| r.path.clone()).collect();
    assert_eq!(paths, vec![s("/r/a"), s("/r/b")]);
    assert_eq!(app.selected, 1);
}

#[test]
fn op_result_failure_is_logged_and_opens_the_log() {
    let mut app = App::new_with(Config::default(), State::default());
    app.show_log = false;
    app.record_op_result("/r", "pull", false, &vec![s("error: x"), s("hint: y")]);
    let got: Vec<(gitover::app::LogLevel, String)> = app.log.iter().map(|l| (l.level, l.text.clone())).collect();
    let n = got.len();
    assert!(n >= 3);
    assert_eq!(
        got[n - 3..].to_vec(),
        vec![
            (gitover::app::LogLevel::Error, s("'pull' failed in /r")),
            (gitover::app::LogLevel::Info, s("  error: x")),
            (gitover::app::LogLevel::Info, s("  hint: y")),
        ]
    );
    assert!(app.show_log);
    assert_eq!(app.focus, Focus::Log);
}

#[test]
fn op_result_success_logs_output_only() {
    let mut app = App::new_with(Config::default(), State::default());
    let before = app.log.len();
    let shown = app.show_log;
    app.record_op_result("/r", "fetch", true, &vec![s("From origin")]);
    assert_eq!(app.log.len(), before + 1);
    assert_eq!(app.log.last().unwrap().text, "  From origin");
    assert_eq!(app.show_log, shown);
}

#[test]
fn pane_keys_follow_history_rules_only_where_history_is_in_use() {
    let mut app = app_with(clean_repo("/r/a"));
    assert!(!app.uses_history_keys());
    assert!(matches!(app.pane_key_action(Key::Char('h'), false), Action::OpenHistory(HistoryFilter::Full)));
    assert!(!app.key_opens_history_menu(Key::Enter));
    app.show_history = true;
    app.focus = Focus::History;
    assert!(app.uses_history_keys());
    assert!(matches!(app.pane_key_action(Key::Char('h'), false), Action::CloseHistory));
    assert!(matches!(app.pane_key_action(Key::Char('.'), false), Action::NextCommit));
    assert!(matches!(app.pane_key_action(Key::Down, true), Action::NextCommit));
    assert!(app.key_opens_history_menu(Key::Enter));
    assert!(!app.key_opens_history_menu(Key::Char('x')));
    app.focus = Focus::Repos;
    assert!(!app.uses_history_keys());
    assert!(matches!(app.pane_key_action(Key::Enter, false), Action::OpenRepoMenu));
}

#[test]
fn menu_stays_open_only_for_moves_and_close() {
    assert!(Action::MenuNext.keeps_menu_open());
    assert!(Action::MenuPreviousPage.keeps_menu_open());
    assert!(Action::CloseMenu.keeps_menu_open());
    assert!(!Action::Nothing.keeps_menu_open());
    assert!(!Action::RefreshRepos.keeps_menu_open());
}
