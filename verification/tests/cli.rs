use gitlogue::cli::{
    collect_ignore_patterns, diff_settings, git_root_candidates, load_initial_commit, is_range_mode,
    parent_of, playback_settings, resolve_order, should_keep_repo_ref, Args, PlaybackOrder,
    ValidateError,
};
use gitlogue::config::Config;
use gitlogue::player::CommitRequest;

fn args(path: Option<&str>) -> Args {
    Args {
        path: path.map(|p| p.to_string()),
        commit: None,
        speed: None,
        theme: None,
        background: None,
        order: None,
        loop_playback: None,
        license: false,
        author: None,
        before: None,
        after: None,
        ignore: Vec::new(),
        ignore_file: None,
        speed_rule: Vec::new(),
        command: None,
    }
}

fn strings(v: &[&str]) -> Vec<String> {
    v.iter().map(|s| s.to_string()).collect()
}

#[test]
fn resolve_order_defaults_filtered_modes_to_asc_without_overriding_cli() {
    assert_eq!(
        resolve_order(None, "desc", false, false),
        PlaybackOrder::Desc
    );
    assert_eq!(
        resolve_order(None, "random", true, false),
        PlaybackOrder::Asc
    );
    assert_eq!(
        resolve_order(Some(PlaybackOrder::Desc), "asc", true, true),
        PlaybackOrder::Desc
    );
}

#[test]
fn should_keep_repo_ref_only_drops_one_shot_commit_playback() {
    assert!(should_keep_repo_ref(true, false, true, false));
    assert!(should_keep_repo_ref(false, true, true, false));
    assert!(should_keep_repo_ref(false, false, false, false));
    assert!(should_keep_repo_ref(false, false, true, true));
    assert!(!should_keep_repo_ref(false, false, true, false));
}

#[test]
fn resolve_order_reads_configured_names() {
    assert_eq!(resolve_order(None, "asc", false, false), PlaybackOrder::Asc);
    assert_eq!(resolve_order(None, "random", false, false), PlaybackOrder::Random);
    assert_eq!(resolve_order(None, "sideways", false, false), PlaybackOrder::Random);
    assert_eq!(resolve_order(None, "desc", false, true), PlaybackOrder::Asc);
    assert_eq!(resolve_order(Some(PlaybackOrder::Random), "asc", false, false), PlaybackOrder::Random);
}

#[test]
fn is_range_mode_needs_two_dots() {
    assert!(is_range_mode(Some("HEAD~5..HEAD")));
    assert!(is_range_mode(Some("abc123..")));
    assert!(!is_range_mode(Some("abc.123")));
    assert!(!is_range_mode(None));
}

#[test]
fn parent_of_follows_path_parent() {
    assert_eq!(parent_of("/a/b/c"), Some("/a/b".to_string()));
    assert_eq!(parent_of("/a"), Some("/".to_string()));
    assert_eq!(parent_of("/"), None);
    assert_eq!(parent_of("a"), Some(String::new()));
    assert_eq!(parent_of(""), None);
}

#[test]
fn git_root_candidates_walk_up_to_the_root() {
    assert_eq!(
        git_root_candidates("/home/me/repo", false),
        strings(&["/home/me/repo", "/home/me", "/home", "/"])
    );
    assert_eq!(
        git_root_candidates("/home/me/repo/main.rs", true),
        strings(&["/home/me/repo", "/home/me", "/home", "/"])
    );
    assert_eq!(git_root_candidates("/", true), Vec::<String>::new());
}

#[test]
fn validate_resolves_git_root_from_nested_files() {
    let a = args(Some("repo/src/main.rs"));
    let cands = git_root_candidates("/tmp/repo/src/main.rs", true);
    let has_git: Vec<bool> = cands.iter().map(|c| c == "/tmp/repo").collect();
    assert_eq!(
        a.validate(true, Some("/tmp/repo/src/main.rs"), true, &has_git),
        Ok("/tmp/repo".to_string())
    );
}

#[test]
fn validate_rejects_missing_and_non_repo_paths() {
    let missing = args(Some("/tmp/gitlogue_missing_repo"));
    let missing_error = missing.validate(false, None, false, &vec![]).unwrap_err();
    assert!(missing_error.message().contains("Path does not exist"));
    assert_eq!(
        missing_error,
        ValidateError::PathDoesNotExist("/tmp/gitlogue_missing_repo".to_string())
    );

    let plain = args(Some("/tmp/plain-dir"));
    let error = plain
        .validate(true, Some("/tmp/plain-dir"), false, &vec![false, false, false])
        .unwrap_err();
    assert!(error.message().contains("Not a Git repository"));
    assert_eq!(
        error.message(),
        "Not a Git repository: /tmp/plain-dir (or any parent directories)"
    );
}

#[test]
fn validate_defaults_to_the_current_directory() {
    let a = args(None);
    assert_eq!(a.start_path(), ".");
    assert_eq!(
        a.validate(false, None, false, &vec![]),
        Err(ValidateError::PathDoesNotExist(".".to_string()))
    );
    assert_eq!(a.validate(true, None, false, &vec![]), Err(ValidateError::ResolveFailed));
    assert_eq!(
        ValidateError::ResolveFailed.message(),
        "Failed to resolve path"
    );
    assert_eq!(
        a.validate(true, Some("/w/x"), false, &vec![false, true, true]),
        Ok("/w".to_string())
    );
}

#[test]
fn collect_ignore_patterns_merges_config_file_and_cli_sources() {
    let patterns = collect_ignore_patterns(
        &strings(&["dist/**"]),
        Some("*.tmp\n\n# comment\ncoverage/**\n"),
        &strings(&["*.png"]),
    );
    assert_eq!(patterns, strings(&["dist/**", "*.tmp", "coverage/**", "*.png"]));
}

#[test]
fn collect_ignore_patterns_skips_blank_lines_and_handles_crlf() {
    let patterns = collect_ignore_patterns(&vec![], Some("  \t\r\n#x\r\n*.log\r\n  # not a comment"), &vec![]);
    assert_eq!(patterns, strings(&["*.log", "  # not a comment"]));
    assert_eq!(collect_ignore_patterns(&vec![], None, &vec![]), Vec::<String>::new());
}

#[test]
fn load_initial_commit_selects_range_commit_or_order() {
    let (range, req) = load_initial_commit(Some("HEAD~2..HEAD"), PlaybackOrder::Asc);
    assert_eq!(range, Some("HEAD~2..HEAD".to_string()));
    assert_eq!(req, CommitRequest::NextInRangeAsc);

    let (range, req) = load_initial_commit(Some("HEAD~2..HEAD"), PlaybackOrder::Desc);
    assert_eq!(range, Some("HEAD~2..HEAD".to_string()));
    assert_eq!(req, CommitRequest::NextInRangeDesc);

    let (range, req) = load_initial_commit(Some("abc123"), PlaybackOrder::Random);
    assert_eq!(range, None);
    assert_eq!(req, CommitRequest::Specific("abc123".to_string()));

    let (range, req) = load_initial_commit(None, PlaybackOrder::Asc);
    assert_eq!(range, None);
    assert_eq!(req, CommitRequest::NextAsc);

    let (_, req) = load_initial_commit(None, PlaybackOrder::Random);
    assert_eq!(req, CommitRequest::Random);
}

#[test]
fn playback_settings_prefer_command_line_over_config() {
    let mut config = Config::default();
    config.order = "desc".to_string();
    config.loop_playback = true;
    let mut a = args(None);
    let s = playback_settings(&a, &config, false, false);
    assert_eq!(s.theme, "tokyo-night");
    assert_eq!(s.speed, 30);
    assert!(s.background);
    assert_eq!(s.order, PlaybackOrder::Desc);
    assert!(s.loop_playback);

    a.theme = Some("nord".to_string());
    a.speed = Some(5);
    a.background = Some(false);
    a.loop_playback = Some(false);
    let s = playback_settings(&a, &config, true, false);
    assert_eq!(s.theme, "nord");
    assert_eq!(s.speed, 5);
    assert!(!s.background);
    assert_eq!(s.order, PlaybackOrder::Asc);
    assert!(!s.loop_playback);
}

#[test]
fn diff_settings_play_oldest_first_and_loop_only_on_request() {
    let mut config = Config::default();
    config.loop_playback = true;
    let s = diff_settings(None, &None, None, None, &config);
    assert_eq!(s.order, PlaybackOrder::Asc);
    assert!(!s.loop_playback);
    assert_eq!(s.speed, 30);
    let s = diff_settings(Some(7), &Some("dracula".to_string()), Some(false), Some(true), &config);
    assert_eq!(s.theme, "dracula");
    assert_eq!(s.speed, 7);
    assert!(!s.background);
    assert!(s.loop_playback);
}

#[test]
fn is_filtered_by_author_or_dates() {
    let mut a = args(None);
    assert!(!a.is_filtered());
    a.before = Some("yesterday".to_string());
    assert!(a.is_filtered());
}

#[test]
fn find_git_root_takes_the_nearest_repository() {
    assert_eq!(Args::find_git_root("/a/b/c", false, &vec![false, true, true, false]), Some("/a/b".to_string()));
    assert_eq!(Args::find_git_root("/a/b/c", false, &vec![true]), Some("/a/b/c".to_string()));
    assert_eq!(Args::find_git_root("/a/b/c", true, &vec![true]), Some("/a/b".to_string()));
    assert_eq!(Args::find_git_root("/a", false, &vec![false, false]), None);
    assert_eq!(Args::find_git_root("/a", false, &vec![]), None);
}
