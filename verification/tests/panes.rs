use gitlogue::commit::{CommitMetadata, DiffHunk, FileChange, FileStatus, LineChange, LineChangeType};
use gitlogue::file_tree::{build_tree_lines, FileTreePane};
use gitlogue::status_bar::StatusBarPane;
use gitlogue::terminal::TerminalPane;
use gitlogue::theme::{Color, StyledLine, Theme};

fn theme() -> Theme {
    Theme {
        background_left: Color::Indexed(0),
        background_right: Color::Indexed(1),
        editor_line_number: Color::Indexed(2),
        editor_line_number_cursor: Color::Indexed(3),
        editor_separator: Color::Indexed(4),
        editor_cursor_char_bg: Color::Indexed(5),
        editor_cursor_char_fg: Color::Indexed(6),
        editor_cursor_line_bg: Color::Indexed(7),
        file_tree_added: Color::Indexed(8),
        file_tree_deleted: Color::Indexed(9),
        file_tree_modified: Color::Indexed(10),
        file_tree_renamed: Color::Indexed(11),
        file_tree_directory: Color::Indexed(12),
        file_tree_current_file_bg: Color::Indexed(13),
        file_tree_current_file_fg: Color::Indexed(14),
        file_tree_default: Color::Indexed(15),
        file_tree_stats_added: Color::Indexed(16),
        file_tree_stats_deleted: Color::Indexed(17),
        terminal_command: Color::Indexed(18),
        terminal_output: Color::Indexed(19),
        terminal_cursor_bg: Color::Indexed(20),
        terminal_cursor_fg: Color::Indexed(21),
        status_hash: Color::Indexed(22),
        status_author: Color::Indexed(23),
        status_date: Color::Indexed(24),
        status_message: Color::Indexed(25),
        status_no_commit: Color::Indexed(26),
        separator: Color::Indexed(27),
        syntax_keyword: Color::Indexed(28),
        syntax_type: Color::Indexed(29),
        syntax_function: Color::Indexed(30),
        syntax_variable: Color::Indexed(31),
        syntax_string: Color::Indexed(32),
        syntax_number: Color::Indexed(33),
        syntax_comment: Color::Indexed(34),
        syntax_operator: Color::Indexed(35),
        syntax_punctuation: Color::Indexed(36),
        syntax_constant: Color::Indexed(37),
        syntax_parameter: Color::Indexed(38),
        syntax_property: Color::Indexed(39),
        syntax_label: Color::Indexed(40),
    }
}

fn text(line: &StyledLine) -> String {
    line.spans.iter().map(|s| s.content.as_str()).collect()
}

fn change(change_type: LineChangeType) -> LineChange {
    LineChange { change_type, content: String::new() }
}

fn file_change(path: &str, status: FileStatus, lines: &[LineChangeType]) -> FileChange {
    FileChange {
        path: path.to_string(),
        status,
        hunks: vec![DiffHunk { lines: lines.iter().cloned().map(change).collect() }],
    }
}

fn metadata_with(changes: Vec<FileChange>) -> CommitMetadata {
    CommitMetadata {
        hash: "deadbeef".to_string(),
        author: "Author".to_string(),
        date: 0,
        message: "message".to_string(),
        changes,
    }
}

fn commit(hash: &str, message: &str) -> CommitMetadata {
    CommitMetadata {
        hash: hash.to_string(),
        author: "Author".to_string(),
        date: 1_704_067_200,
        message: message.to_string(),
        changes: vec![],
    }
}

#[test]
fn build_tree_lines_groups_and_sorts_files_with_stats() {
    let theme = theme();
    let metadata = metadata_with(vec![
        file_change(
            "src/zeta.rs",
            FileStatus::Modified,
            &[
                LineChangeType::Addition,
                LineChangeType::Context,
                LineChangeType::Deletion,
                LineChangeType::Addition,
            ],
        ),
        file_change("README.md", FileStatus::Added, &[LineChangeType::Addition]),
        file_change("src/alpha.rs", FileStatus::Deleted, &[LineChangeType::Deletion, LineChangeType::Deletion]),
    ]);

    let (lines, current_line_index) = build_tree_lines(&metadata, 0, &theme);
    let rendered = lines.iter().map(text).collect::<Vec<_>>();

    assert_eq!(
        rendered,
        vec!["+ README.md +1 -0", "src/", "  - alpha.rs +0 -2", "  ~ zeta.rs +2 -1"]
    );
    assert_eq!(current_line_index, Some(3));
    assert_eq!(lines[1].spans[0].style.fg, Some(theme.file_tree_directory));
    assert!(lines[1].spans[0].style.bold);
    assert_eq!(lines[3].spans[1].style.fg, Some(theme.file_tree_modified));
    assert_eq!(lines[3].spans[2].style.fg, Some(theme.file_tree_current_file_fg));
    assert!(lines[3].spans[2].style.bold);
}

#[test]
fn set_commit_metadata_updates_cached_selection() {
    let theme = theme();
    let metadata = metadata_with(vec![
        file_change("beta.rs", FileStatus::Modified, &[]),
        file_change("alpha.rs", FileStatus::Renamed, &[]),
    ]);
    let mut pane = FileTreePane::new();

    assert_eq!(text(&pane.lines()[0]), "No commit loaded");
    assert_eq!(pane.current_line_index(), None);

    pane.set_commit_metadata(&metadata, 0, &theme);
    assert_eq!(pane.lines().iter().map(text).collect::<Vec<_>>(), vec!["> alpha.rs +0 -0", "~ beta.rs +0 -0"]);
    assert_eq!(pane.current_line_index(), Some(1));

    pane.set_commit_metadata(&metadata, 1, &theme);
    assert_eq!(pane.current_line_index(), Some(0));
    assert_eq!(pane.lines()[0].spans[2].style.fg, Some(theme.file_tree_current_file_fg));
}

#[test]
fn set_commit_metadata_reuses_cached_lines_when_cache_key_matches() {
    let theme = theme();
    let mut alternate_theme = theme;
    alternate_theme.file_tree_modified = Color::Yellow;
    let metadata = metadata_with(vec![file_change("file.rs", FileStatus::Modified, &[])]);
    let mut pane = FileTreePane::new();

    pane.set_commit_metadata(&metadata, 0, &theme);
    pane.set_commit_metadata(&metadata, 0, &alternate_theme);

    assert_eq!(pane.lines()[0].spans[1].style.fg, Some(theme.file_tree_modified));
    assert_ne!(pane.lines()[0].spans[1].style.fg, Some(alternate_theme.file_tree_modified));
}

#[test]
fn build_tree_lines_falls_back_to_default_marker_for_non_standard_statuses() {
    let theme = theme();
    let metadata = metadata_with(vec![file_change("copy.rs", FileStatus::Copied, &[])]);

    let (lines, current_line_index) = build_tree_lines(&metadata, 0, &theme);

    assert_eq!(current_line_index, Some(0));
    assert_eq!(text(&lines[0]), "  copy.rs +0 -0");
    assert_eq!(lines[0].spans[1].style.fg, Some(theme.file_tree_default));
}

#[test]
fn build_tree_lines_nests_directories() {
    let theme = theme();
    let metadata = metadata_with(vec![
        file_change("a/b/c.rs", FileStatus::Added, &[]),
        file_change("a/d.rs", FileStatus::Added, &[]),
    ]);
    let (lines, current) = build_tree_lines(&metadata, 1, &theme);
    assert_eq!(
        lines.iter().map(text).collect::<Vec<_>>(),
        vec!["a/", "  + d.rs +0 -0", "a/b/", "  + c.rs +0 -0"]
    );
    assert_eq!(current, Some(1));
}

#[test]
fn status_bar_shows_placeholder_when_no_commit_is_loaded() {
    let theme = theme();
    let lines = StatusBarPane.view_lines(None, &theme);
    assert_eq!(lines.len(), 1);
    assert_eq!(text(&lines[0]), "No commit loaded");
    assert_eq!(lines[0].spans[0].style.fg, Some(theme.status_no_commit));
}

#[test]
fn status_bar_formats_regular_commit_with_short_hash_and_date() {
    let theme = theme();
    let metadata = commit("1234567890abcdef", "subject line");
    let lines = StatusBarPane.view_lines(Some(&metadata), &theme);

    assert_eq!(text(&lines[0]), "hash: 1234567");
    assert_eq!(text(&lines[1]), "author: Author");
    assert_eq!(text(&lines[2]), "date: 2024-01-01 00:00:00");
    assert_eq!(text(&lines[3]), "subject line");
    assert_eq!(lines[0].spans[1].style.fg, Some(theme.status_hash));
    assert_eq!(lines[1].spans[1].style.fg, Some(theme.status_author));
    assert_eq!(lines[2].spans[1].style.fg, Some(theme.status_date));
    assert_eq!(lines[3].spans[0].style.fg, Some(theme.status_message));
}

#[test]
fn status_bar_working_tree_omits_date_and_skips_blank_message_lines() {
    let theme = theme();
    let metadata = commit("working-tree", "subject line\n\nbody line");
    let lines = StatusBarPane.view_lines(Some(&metadata), &theme);

    assert_eq!(lines.iter().map(text).collect::<Vec<_>>(), vec![
        "hash: working",
        "author: Author",
        "subject line",
        "body line",
    ]);
    assert_eq!(lines[0].spans[1].style.fg, Some(theme.status_hash));
    assert_eq!(lines[2].spans[0].style.fg, Some(theme.status_message));
}

#[test]
fn status_bar_short_hash_keeps_short_hashes() {
    assert_eq!(StatusBarPane.short_hash("abc"), "abc");
    assert_eq!(StatusBarPane.short_hash("0123456789"), "0123456");
}

#[test]
fn terminal_keeps_last_visible_lines_and_draws_cursor_on_active_command() {
    let theme = theme();
    let lines = vec![
        "old output".to_string(),
        "~ git status".to_string(),
        " M src/main.rs".to_string(),
        "~ cargo test".to_string(),
    ];
    let rows = TerminalPane.view_lines(&lines, true, true, 5, &theme);

    assert_eq!(rows.iter().map(text).collect::<Vec<_>>(), vec!["~ git status", " M src/main.rs", "~ cargo test "]);
    assert_eq!(rows[0].spans[0].style.fg, Some(theme.terminal_command));
    assert_eq!(rows[1].spans[0].style.fg, Some(theme.terminal_output));
    let cursor = &rows[2].spans[1];
    assert_eq!(cursor.content, " ");
    assert_eq!(cursor.style.bg, Some(theme.terminal_cursor_bg));
    assert_eq!(cursor.style.fg, Some(theme.terminal_cursor_fg));
    assert!(cursor.style.bold);
}

#[test]
fn terminal_shows_empty_placeholder_line() {
    let theme = theme();
    let rows = TerminalPane.view_lines(&vec![], true, true, 4, &theme);
    assert_eq!(rows.len(), 1);
    assert!(rows[0].spans.is_empty());
}

#[test]
fn terminal_hides_cursor_when_inactive() {
    let theme = theme();
    let rows = TerminalPane.view_lines(&vec!["~ ls".to_string()], true, false, 4, &theme);
    assert_eq!(rows[0].spans.len(), 1);
}
