//! Text utilities and command-line flags.
use gitover::layout::{clamp_repos_height, file_status_panel_height, log_panel_height, table_visible_rows, word_wrap};
use gitover::parse_path_flag;
use gitover::utils::{expand_vars, truncate_middle};

#[test]
fn truncate_middle_short_text_unchanged() {
    assert_eq!(truncate_middle("hello", 10), "hello");
}

#[test]
fn truncate_middle_exact_fit_unchanged() {
    assert_eq!(truncate_middle("hello", 5), "hello");
}

#[test]
fn truncate_middle_max_three_or_less_returns_ellipsis() {
    assert_eq!(truncate_middle("hello", 3), "...");
    assert_eq!(truncate_middle("hello", 1), "...");
    assert_eq!(truncate_middle("hello", 0), "...");
}

#[test]
fn truncate_middle_even_split() {
    assert_eq!(truncate_middle("abcdefgh", 7), "ab...gh");
}

#[test]
fn truncate_middle_odd_split_right_gets_extra() {
    assert_eq!(truncate_middle("abcdefgh", 6), "a...gh");
}

#[test]
fn truncate_middle_unicode_chars() {
    assert_eq!(truncate_middle("αβγδεζ", 5), "α...ζ");
}

#[test]
fn expand_vars_substitutes_known_var() {
    let (result, missing) = expand_vars("Hello ${NAME}!", &[("NAME", "World")]);
    assert_eq!(result, "Hello World!");
    assert!(missing.is_empty());
}

#[test]
fn expand_vars_leaves_unknown_var_unexpanded() {
    let (result, missing) = expand_vars("${UNKNOWN}", &[]);
    assert_eq!(result, "${UNKNOWN}");
    assert_eq!(missing, vec!["UNKNOWN"]);
}

#[test]
fn expand_vars_multiple_vars() {
    let (result, missing) = expand_vars("${A}-${B}", &[("A", "foo"), ("B", "bar")]);
    assert_eq!(result, "foo-bar");
    assert!(missing.is_empty());
}

#[test]
fn expand_vars_empty_braces_left_as_is() {
    let (result, missing) = expand_vars("${}ok", &[]);
    assert_eq!(result, "${}ok");
    assert!(missing.is_empty());
}

#[test]
fn expand_vars_empty_input() {
    let (result, missing) = expand_vars("", &[]);
    assert_eq!(result, "");
    assert!(missing.is_empty());
}

#[test]
fn expand_vars_unterminated_reference_is_closed() {
    let (result, missing) = expand_vars("a${B", &[]);
    assert_eq!(result, "a${B}");
    assert_eq!(missing, vec!["B"]);
}

#[test]
fn expand_vars_first_pair_wins() {
    let (result, _) = expand_vars("${K}", &[("K", "one"), ("K", "two")]);
    assert_eq!(result, "one");
}

#[test]
fn truncate_middle_result_fits_limit() {
    for max in 0..12 {
        let t = truncate_middle("abcdefghijk", max);
        assert!(t.chars().count() <= max.max(3));
    }
}

#[test]
fn parse_path_flag_returns_value_after_flag() {
    let args = &["gitover".to_string(), "--config".to_string(), "/etc/my.yaml".to_string()];
    assert_eq!(parse_path_flag(args, "--config"), Some("/etc/my.yaml".to_string()));
}

#[test]
fn parse_path_flag_not_present_returns_none() {
    let args = &["gitover".to_string(), "--version".to_string()];
    assert_eq!(parse_path_flag(args, "--config"), None);
    assert_eq!(parse_path_flag(args, "--state"), None);
}

#[test]
fn parse_path_flag_missing_value_returns_none() {
    let args = &["gitover".to_string(), "--config".to_string()];
    assert_eq!(parse_path_flag(args, "--config"), None);
}

#[test]
fn parse_path_flag_both_flags_present() {
    let args = &[
        "gitover".to_string(),
        "--config".to_string(),
        "/cfg.yaml".to_string(),
        "--state".to_string(),
        "/state.yaml".to_string(),
    ];
    assert_eq!(parse_path_flag(args, "--config"), Some("/cfg.yaml".to_string()));
    assert_eq!(parse_path_flag(args, "--state"), Some("/state.yaml".to_string()));
}

#[test]
fn parse_path_flag_returns_first_occurrence() {
    let args = &[
        "gitover".to_string(),
        "--config".to_string(),
        "/first.yaml".to_string(),
        "--config".to_string(),
        "/second.yaml".to_string(),
    ];
    assert_eq!(parse_path_flag(args, "--config"), Some("/first.yaml".to_string()));
}

#[test]
fn clamp_repos_height_limits() {
    assert_eq!(clamp_repos_height(2, 40, 2), 4);
    assert_eq!(clamp_repos_height(50, 40, 2), 34);
    assert_eq!(clamp_repos_height(10, 40, 2), 10);
    assert_eq!(clamp_repos_height(10, 5, 3), 4);
}

#[test]
fn pane_heights() {
    assert_eq!(table_visible_rows(10), 7);
    assert_eq!(table_visible_rows(2), 0);
    assert_eq!(file_status_panel_height(0), 5);
    assert_eq!(file_status_panel_height(4), 7);
    assert_eq!(file_status_panel_height(40), 15);
    assert_eq!(log_panel_height(0), 5);
    assert_eq!(log_panel_height(5), 7);
    assert_eq!(log_panel_height(100), 10);
}

#[test]
fn word_wrap_fills_lines_greedily() {
    assert_eq!(word_wrap("the quick brown fox", 10), vec!["the quick", "brown fox"]);
    assert_eq!(word_wrap("  spaced   words  ", 20), vec!["spaced words"]);
    assert_eq!(word_wrap("averyveryverylongword x", 5), vec!["averyveryverylongword", "x"]);
}

#[test]
fn word_wrap_edge_cases() {
    assert_eq!(word_wrap("keep as is", 0), vec!["keep as is"]);
    assert_eq!(word_wrap("   ", 8), vec![""]);
    assert_eq!(word_wrap("", 8), vec![""]);
}

#[test]
fn word_wrap_counts_bytes() {
    // "αβ" is four bytes: "αβ x" is six bytes and does not fit in five.
    assert_eq!(word_wrap("αβ x", 5), vec!["αβ", "x"]);
    assert_eq!(word_wrap("αβ x", 6), vec!["αβ x"]);
}

#[test]
fn expanding_twice_changes_nothing_with_plain_values() {
    let vars = [("HOME", "/home/u"), ("USER", "u")];
    let (once, missing) = expand_vars("$${HOME}/x/${USER}/${NOPE}/${}", &vars);
    assert_eq!(once, "$/home/u/x/u/${NOPE}/${}");
    assert_eq!(missing, vec!["NOPE".to_string()]);
    let (twice, missing_again) = expand_vars(&once, &vars);
    assert_eq!(twice, once);
    assert_eq!(missing_again, missing);
}

#[test]
fn trimming_removes_unicode_white_space() {
    assert_eq!(gitover::text::trimmed("\u{a0}\u{3000} msg \t\u{2029}"), "msg");
    assert_eq!(gitover::text::trimmed("\u{200b}x"), "\u{200b}x");
}

#[test]
fn auto_fetch_interval_zero_disables() {
    let mut g = gitover::config::GeneralConfig::default();
    assert_eq!(g.auto_fetch_delay(), Some(600));
    g.auto_fetch_interval = Some(0);
    assert_eq!(g.auto_fetch_delay(), None);
    g.auto_fetch_interval = Some(30);
    assert_eq!(g.auto_fetch_delay(), Some(30));
}
