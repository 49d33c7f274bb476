use gitlogue::theme::{Color, Theme, ThemeError};

fn base() -> Theme {
    let mut t = Theme {
        background_left: Color::Indexed(0),
        background_right: Color::Indexed(1),
        editor_line_number: Color::Indexed(2),
        editor_line_number_cursor: Color::Indexed(3),
        editor_separator: Color::Indexed(4),
        editor_cursor_char_bg: Color::Indexed(5),
        editor_cursor_char_fg: Color::Indexed(6),
        editor_cursor_line_bg: Color::Indexed(7),
        file_tree_added: Color::Indexed(8),
        file_tree_deleted: Color::Indexed(9),
        file_tree_modified: Color::Indexed(10),
        file_tree_renamed: Color::Indexed(11),
        file_tree_directory: Color::Indexed(12),
        file_tree_current_file_bg: Color::Indexed(13),
        file_tree_current_file_fg: Color::Indexed(14),
        file_tree_default: Color::Indexed(15),
        file_tree_stats_added: Color::Indexed(16),
        file_tree_stats_deleted: Color::Indexed(17),
        terminal_command: Color::Indexed(18),
        terminal_output: Color::Indexed(19),
        terminal_cursor_bg: Color::Indexed(20),
        terminal_cursor_fg: Color::Indexed(21),
        status_hash: Color::Indexed(22),
        status_author: Color::Indexed(23),
        status_date: Color::Indexed(24),
        status_message: Color::Indexed(25),
        status_no_commit: Color::Indexed(26),
        separator: Color::Indexed(27),
        syntax_keyword: Color::Indexed(28),
        syntax_type: Color::Indexed(29),
        syntax_function: Color::Indexed(30),
        syntax_variable: Color::Indexed(31),
        syntax_string: Color::Indexed(32),
        syntax_number: Color::Indexed(33),
        syntax_comment: Color::Indexed(34),
        syntax_operator: Color::Indexed(35),
        syntax_punctuation: Color::Indexed(36),
        syntax_constant: Color::Indexed(37),
        syntax_parameter: Color::Indexed(38),
        syntax_property: Color::Indexed(39),
        syntax_label: Color::Indexed(40),
    };
    t.separator = Color::Rgb(1, 2, 3);
    t
}

#[test]
fn with_transparent_background_resets_only_backgrounds() {
    let t = base();
    let clear = t.with_transparent_background();
    assert_eq!(clear.background_left, Color::Reset);
    assert_eq!(clear.background_right, Color::Reset);
    assert_eq!(clear.separator, Color::Rgb(1, 2, 3));
    assert_eq!(clear.syntax_label, t.syntax_label);
    let twice = clear.with_transparent_background();
    assert_eq!(twice.background_left, Color::Reset);
    assert_eq!(twice.editor_cursor_line_bg, t.editor_cursor_line_bg);
}

#[test]
fn available_themes_lists_every_builtin_theme() {
    let names = Theme::available_themes();
    assert_eq!(names.len(), 17);
    assert_eq!(names[0], "ayu-dark");
    assert!(names.contains(&"tokyo-night"));
    assert!(names.contains(&"nord"));
}

#[test]
fn lookup_finds_known_themes_and_refuses_unknown_ones() {
    let names = Theme::available_themes();
    for (i, n) in names.iter().enumerate() {
        assert_eq!(Theme::lookup(n), Ok(i));
    }
    let err = Theme::lookup("no-such-theme").unwrap_err();
    assert_eq!(err, ThemeError::Unknown("no-such-theme".to_string()));
    assert_eq!(err.message(), "Unknown theme: no-such-theme");
    assert!(err.hint().starts_with("Available themes: ayu-dark, catppuccin, "));
    assert!(err.hint().ends_with(", telemetry, tokyo-night"));
}
