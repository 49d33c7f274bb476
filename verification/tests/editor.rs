use gitlogue::editor::{EditorPane, EditorState, HighlightContext};
use gitlogue::syntax::{HighlightSpan, TokenType};
use gitlogue::theme::{Color, StyledLine, Theme};

fn theme() -> Theme {
    Theme {
        background_left: Color::Indexed(0),
        background_right: Color::Indexed(1),
        editor_line_number: Color::Indexed(2),
        editor_line_number_cursor: Color::Indexed(3),
        editor_separator: Color::Indexed(4),
        editor_cursor_char_bg: Color::Indexed(5),
        editor_cursor_char_fg: Color::Indexed(6),
        editor_cursor_line_bg: Color::Indexed(7),
        file_tree_added: Color::Indexed(8),
        file_tree_deleted: Color::Indexed(9),
        file_tree_modified: Color::Indexed(10),
        file_tree_renamed: Color::Indexed(11),
        file_tree_directory: Color::Indexed(12),
        file_tree_current_file_bg: Color::Indexed(13),
        file_tree_current_file_fg: Color::Indexed(14),
        file_tree_default: Color::Indexed(15),
        file_tree_stats_added: Color::Indexed(16),
        file_tree_stats_deleted: Color::Indexed(17),
        terminal_command: Color::Indexed(18),
        terminal_output: Color::Indexed(19),
        terminal_cursor_bg: Color::Indexed(20),
        terminal_cursor_fg: Color::Indexed(21),
        status_hash: Color::Indexed(22),
        status_author: Color::Indexed(23),
        status_date: Color::Indexed(24),
        status_message: Color::Indexed(25),
        status_no_commit: Color::Indexed(26),
        separator: Color::Indexed(27),
        syntax_keyword: Color::Indexed(28),
        syntax_type: Color::Indexed(29),
        syntax_function: Color::Indexed(30),
        syntax_variable: Color::Indexed(31),
        syntax_string: Color::Indexed(32),
        syntax_number: Color::Indexed(33),
        syntax_comment: Color::Indexed(34),
        syntax_operator: Color::Indexed(35),
        syntax_punctuation: Color::Indexed(36),
        syntax_constant: Color::Indexed(37),
        syntax_parameter: Color::Indexed(38),
        syntax_property: Color::Indexed(39),
        syntax_label: Color::Indexed(40),
    }
}

fn highlight(start: usize, end: usize, token_type: TokenType) -> HighlightSpan {
    HighlightSpan { start, end, token_type }
}

fn text(line: &StyledLine) -> String {
    line.spans.iter().map(|s| s.content.as_str()).collect()
}

fn state(lines: &[&str]) -> EditorState {
    EditorState {
        lines: lines.iter().map(|l| l.to_string()).collect(),
        scroll_offset: 0,
        cursor_line: 0,
        cursor_col: 0,
        cursor_visible: false,
        editor_active: false,
        old_highlights: vec![],
        new_highlights: vec![],
        old_content_line_offsets: vec![],
        new_content_line_offsets: vec![],
        line_offset: 0,
    }
}

#[test]
fn calculate_byte_offset_falls_back_to_last_known_offset_or_zero() {
    let pane = EditorPane;

    assert_eq!(pane.calculate_byte_offset(5, 0, 0, &[0, 4]), 4);
    assert_eq!(pane.calculate_byte_offset(5, 0, 0, &[]), 0);
}

#[test]
fn calculate_byte_offset_shifts_lines_below_the_cursor() {
    let pane = EditorPane;
    assert_eq!(pane.calculate_byte_offset(3, 1, 1, &[0, 10, 20, 30]), 20);
    assert_eq!(pane.calculate_byte_offset(1, 1, 1, &[0, 10, 20, 30]), 10);
    assert_eq!(pane.calculate_byte_offset(2, 1, 5, &[0, 10, 20, 30]), 0);
    assert_eq!(pane.calculate_byte_offset(2, 1, -1, &[0, 10, 20, 30]), 30);
}

#[test]
fn build_line_overlays_cursor_character_when_editor_is_active() {
    let theme = theme();
    let pane = EditorPane;
    let mut st = state(&["ab"]);
    st.cursor_line = 0;
    st.cursor_col = 1;
    st.cursor_visible = true;
    st.editor_active = true;
    st.new_highlights = vec![highlight(0, 2, TokenType::Keyword)];
    st.new_content_line_offsets = vec![0];

    let line = pane.build_line("ab", 0, 3, &st, &theme);

    assert_eq!(line.spans[0].content, "  1 ");
    assert_eq!(line.spans[0].style.fg, Some(theme.editor_line_number_cursor));
    assert!(line.spans[0].style.bold);
    assert_eq!(line.spans[1].content, "  ");
    assert_eq!(line.spans[1].style.fg, Some(theme.editor_separator));
    assert_eq!(line.spans[2].style.fg, Some(theme.syntax_keyword));
    assert_eq!(line.spans[3].content, "b");
    assert_eq!(line.spans[3].style.fg, Some(theme.editor_cursor_char_fg));
    assert_eq!(line.spans[3].style.bg, Some(theme.editor_cursor_char_bg));
    assert!(line.spans[3].style.bold);
}

#[test]
fn highlight_line_uses_old_offsets_below_cursor_and_defaults_to_variable_color() {
    let theme = theme();
    let pane = EditorPane;
    let old_highlights = vec![highlight(4, 5, TokenType::Number)];
    let new_highlights = Vec::new();
    let old_offsets = vec![0, 4];
    let new_offsets = Vec::new();

    let spans = pane.highlight_line(HighlightContext {
        line_content: "xyz",
        line_num: 2,
        show_cursor: false,
        cursor_col: 0,
        cursor_line: 0,
        old_highlights: &old_highlights,
        new_highlights: &new_highlights,
        old_line_offsets: &old_offsets,
        new_line_offsets: &new_offsets,
        line_offset: 1,
        theme: &theme,
    });

    assert_eq!(spans.len(), 3);
    assert_eq!(spans[0].content, "x");
    assert_eq!(spans[0].style.fg, Some(theme.syntax_number));
    assert_eq!(spans[1].style.fg, Some(theme.syntax_variable));
    assert_eq!(spans[2].style.fg, Some(theme.syntax_variable));
}

#[test]
fn view_lines_shows_scrolled_lines_and_selects_cursor_row() {
    let theme = theme();
    let pane = EditorPane;
    let mut st = state(&["skip", "let", "tail"]);
    st.scroll_offset = 1;
    st.cursor_line = 2;
    st.cursor_col = 4;
    st.cursor_visible = true;
    st.editor_active = true;
    st.new_highlights = vec![highlight(5, 8, TokenType::Keyword), highlight(9, 13, TokenType::String)];
    st.new_content_line_offsets = vec![0, 5, 9];

    let (lines, selected) = pane.view_lines(&st, 4, &theme);

    assert_eq!(lines.len(), 2);
    assert_eq!(text(&lines[0]), "  2   let");
    assert_eq!(text(&lines[1]), "  3   tail ");
    assert_eq!(selected, Some(1));
    assert_eq!(lines[1].spans[0].style.fg, Some(theme.editor_line_number_cursor));
    assert_eq!(lines[1].spans[2].style.fg, Some(theme.syntax_string));
    let cursor = lines[1].spans.last().unwrap();
    assert_eq!(cursor.content, " ");
    assert_eq!(cursor.style.bg, Some(theme.editor_cursor_char_bg));
    assert_eq!(cursor.style.fg, Some(theme.editor_cursor_char_fg));
}

#[test]
fn view_lines_does_not_select_rows_when_cursor_is_outside_visible_window() {
    let theme = theme();
    let pane = EditorPane;
    let mut above = state(&["one", "two", "three"]);
    above.scroll_offset = 1;
    above.cursor_line = 0;
    assert_eq!(pane.view_lines(&above, 4, &theme).1, None);

    let mut below = state(&["one", "two", "three"]);
    below.cursor_line = 2;
    let (lines, selected) = pane.view_lines(&below, 4, &theme);
    assert_eq!(lines.len(), 2);
    assert_eq!(selected, None);
}

#[test]
fn render_line_number_pads_to_width() {
    let theme = theme();
    let pane = EditorPane;
    let span = pane.render_line_number(41, false, 3, &theme);
    assert_eq!(span.content, " 42 ");
    assert_eq!(span.style.fg, Some(theme.editor_line_number));
    assert!(!span.style.bold);
    let wide = pane.render_line_number(12344, true, 3, &theme);
    assert_eq!(wide.content, "12345 ");
}

#[test]
fn view_lines_widens_line_numbers_for_long_buffers() {
    let theme = theme();
    let pane = EditorPane;
    let lines: Vec<String> = (0..1200).map(|i| format!("l{i}")).collect();
    let refs: Vec<&str> = lines.iter().map(|s| s.as_str()).collect();
    let st = state(&refs);
    let (out, _) = pane.view_lines(&st, 3, &theme);
    assert_eq!(out.len(), 1);
    assert_eq!(text(&out[0]), "   1   l0");
}
