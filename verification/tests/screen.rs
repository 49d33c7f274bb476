use gitlogue::screen::{
    pane_areas, about_lines, centered_rect, dialog_layout, key_binding_lines, menu_lines, overlay,
    separator_text, typing_dialog, Rect,
};
use gitlogue::theme::{Color, StyledLine, Theme};
use gitlogue::ui::UIState;

fn theme() -> Theme {
    Theme {
        background_left: Color::Indexed(0),
        background_right: Color::Indexed(1),
        editor_line_number: Color::Indexed(2),
        editor_line_number_cursor: Color::Indexed(3),
        editor_separator: Color::Indexed(4),
        editor_cursor_char_bg: Color::Indexed(5),
        editor_cursor_char_fg: Color::Indexed(6),
        editor_cursor_line_bg: Color::Indexed(7),
        file_tree_added: Color::Indexed(8),
        file_tree_deleted: Color::Indexed(9),
        file_tree_modified: Color::Indexed(10),
        file_tree_renamed: Color::Indexed(11),
        file_tree_directory: Color::Indexed(12),
        file_tree_current_file_bg: Color::Indexed(13),
        file_tree_current_file_fg: Color::Indexed(14),
        file_tree_default: Color::Indexed(15),
        file_tree_stats_added: Color::Indexed(16),
        file_tree_stats_deleted: Color::Indexed(17),
        terminal_command: Color::Indexed(18),
        terminal_output: Color::Indexed(19),
        terminal_cursor_bg: Color::Indexed(20),
        terminal_cursor_fg: Color::Indexed(21),
        status_hash: Color::Indexed(22),
        status_author: Color::Indexed(23),
        status_date: Color::Indexed(24),
        status_message: Color::Indexed(25),
        status_no_commit: Color::Indexed(26),
        separator: Color::Indexed(27),
        syntax_keyword: Color::Indexed(28),
        syntax_type: Color::Indexed(29),
        syntax_function: Color::Indexed(30),
        syntax_variable: Color::Indexed(31),
        syntax_string: Color::Indexed(32),
        syntax_number: Color::Indexed(33),
        syntax_comment: Color::Indexed(34),
        syntax_operator: Color::Indexed(35),
        syntax_punctuation: Color::Indexed(36),
        syntax_constant: Color::Indexed(37),
        syntax_parameter: Color::Indexed(38),
        syntax_property: Color::Indexed(39),
        syntax_label: Color::Indexed(40),
    }
}

fn text(line: &StyledLine) -> String {
    line.spans.iter().map(|s| s.content.as_str()).collect()
}

fn rect(x: u16, y: u16, width: u16, height: u16) -> Rect {
    Rect { x, y, width, height }
}

#[test]
fn centered_rect_clamps_requested_size_to_outer_area() {
    let r = centered_rect(rect(4, 2, 20, 10), 40, 12);
    assert_eq!(r, rect(4, 2, 20, 10));
}

#[test]
fn centered_rect_centres_smaller_boxes() {
    assert_eq!(centered_rect(rect(0, 0, 80, 24), 30, 7), rect(25, 8, 30, 7));
    assert_eq!(centered_rect(rect(10, 5, 81, 25), 30, 7), rect(35, 14, 30, 7));
}

#[test]
fn dialog_is_at_least_sixty_columns_and_at_most_the_screen() {
    let (area, padding) = dialog_layout(rect(0, 0, 80, 24), 9);
    assert_eq!(area, rect(10, 10, 60, 3));
    assert_eq!(padding, 47);
    let (area, padding) = dialog_layout(rect(0, 0, 100, 24), 70);
    assert_eq!(area, rect(10, 10, 80, 3));
    assert_eq!(padding, 6);
    let (area, padding) = dialog_layout(rect(0, 0, 40, 2), 9);
    assert_eq!(area, rect(0, 0, 40, 3));
    assert_eq!(padding, 27);
    let (area, _) = dialog_layout(rect(0, 0, 80, 24), usize::MAX);
    assert_eq!(area.width, 80);
}

#[test]
fn typing_dialog_measures_display_width() {
    let theme = theme();
    let d = typing_dialog(rect(0, 0, 80, 24), &theme, "Open File...", "src/ui.rs");
    assert_eq!(d.title, "Open File...");
    assert_eq!(d.area, rect(10, 10, 60, 3));
    assert_eq!(d.lines.len(), 1);
    assert_eq!(d.lines[0].spans[0].content, "src/ui.rs");
    assert_eq!(d.lines[0].spans[0].style.fg, Some(theme.file_tree_current_file_fg));
    assert_eq!(d.lines[0].spans[1].content, " ".repeat(47));
    assert_eq!(d.lines[0].spans[1].style.bg, Some(theme.editor_cursor_line_bg));
    assert_eq!(d.style.bg, Some(theme.editor_cursor_line_bg));

    let wide = typing_dialog(rect(0, 0, 80, 24), &theme, "t", "日本語");
    assert_eq!(wide.lines[0].spans[1].content.len(), 56 - 6);
}

#[test]
fn separator_repeats_the_box_dash() {
    assert_eq!(separator_text(3), "───");
    assert_eq!(separator_text(0), "");
}

#[test]
fn render_menu_shows_selected_item() {
    let theme = theme();
    let lines = menu_lines(&theme, 1);
    assert_eq!(lines.iter().map(text).collect::<Vec<_>>(), vec!["  Key Bindings", "> About", "  Exit"]);
    assert_eq!(lines[1].spans[0].style.fg, Some(theme.file_tree_current_file_fg));
    assert_eq!(lines[0].spans[0].style.fg, Some(theme.status_message));
}

#[test]
fn render_keybindings_and_about_overlays_include_expected_copy() {
    let theme = theme();
    let keys = key_binding_lines(&theme);
    let keys_text = keys.iter().map(text).collect::<Vec<_>>();
    assert_eq!(keys.len(), 10);
    assert!(keys_text.contains(&"  h / l   Step line back / forward".to_string()));
    assert!(keys_text.contains(&"  p / n   Previous / Next commit".to_string()));
    assert!(keys[4].spans.is_empty());

    let about = about_lines(&theme, "0.1.0");
    let about_text = about.iter().map(text).collect::<Vec<_>>();
    assert_eq!(about_text[0], "gitlogue");
    assert_eq!(about_text[1], "Version 0.1.0");
    assert_eq!(about_text[6], "https://github.com/unhappychoice/gitlogue");
}

#[test]
fn overlay_follows_the_screen_state() {
    let theme = theme();
    let screen = rect(0, 0, 80, 24);
    let menu = overlay(UIState::Menu, screen, &theme, 0, "1").unwrap();
    assert_eq!(menu.title, " Menu (Esc to close) ");
    assert_eq!(menu.area, rect(25, 8, 30, 7));
    let keys = overlay(UIState::KeyBindings, screen, &theme, 0, "1").unwrap();
    assert_eq!(keys.title, " Key Bindings (Esc to close) ");
    assert_eq!(keys.area, rect(18, 5, 44, 14));
    assert_eq!(keys.style.fg, Some(theme.status_message));
    let about = overlay(UIState::About, screen, &theme, 0, "1").unwrap();
    assert_eq!(about.title, " About (Esc to close) ");
    assert_eq!(about.area, rect(16, 6, 48, 11));
    assert!(overlay(UIState::Playing, screen, &theme, 0, "1").is_none());
    assert!(overlay(UIState::Finished, screen, &theme, 0, "1").is_none());
}

#[test]
fn pane_areas_tile_the_screen() {
    let a = pane_areas(rect(0, 0, 80, 24));
    assert_eq!(a.file_tree.x, 0);
    assert_eq!(a.file_tree.width, 24);
    assert_eq!(a.editor.x, 24);
    assert_eq!(a.editor.width, 56);
    for (top, sep, bottom) in [(a.file_tree, a.left_separator, a.status), (a.editor, a.right_separator, a.terminal)] {
        assert_eq!(top.y, 0);
        assert_eq!(sep.height, 1);
        assert_eq!(sep.y, top.y + top.height);
        assert_eq!(bottom.y, sep.y + 1);
        assert_eq!(bottom.y + bottom.height, 24);
        assert!(top.height > bottom.height);
    }
}
