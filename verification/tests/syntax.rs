use gitlogue::syntax::{
    capture_index, capture_name_to_token, injection_depth_allowed, injection_language_name,
    merge_injection_spans, offset_spans, spans_from_captures, usable_injection_range, Capture,
    HighlightSpan, TokenType,
};
use gitlogue::theme::{Color, Theme};

fn theme() -> Theme {
    Theme {
        background_left: Color::Indexed(0),
        background_right: Color::Indexed(1),
        editor_line_number: Color::Indexed(2),
        editor_line_number_cursor: Color::Indexed(3),
        editor_separator: Color::Indexed(4),
        editor_cursor_char_bg: Color::Indexed(5),
        editor_cursor_char_fg: Color::Indexed(6),
        editor_cursor_line_bg: Color::Indexed(7),
        file_tree_added: Color::Indexed(8),
        file_tree_deleted: Color::Indexed(9),
        file_tree_modified: Color::Indexed(10),
        file_tree_renamed: Color::Indexed(11),
        file_tree_directory: Color::Indexed(12),
        file_tree_current_file_bg: Color::Indexed(13),
        file_tree_current_file_fg: Color::Indexed(14),
        file_tree_default: Color::Indexed(15),
        file_tree_stats_added: Color::Indexed(16),
        file_tree_stats_deleted: Color::Indexed(17),
        terminal_command: Color::Indexed(18),
        terminal_output: Color::Indexed(19),
        terminal_cursor_bg: Color::Indexed(20),
        terminal_cursor_fg: Color::Indexed(21),
        status_hash: Color::Indexed(22),
        status_author: Color::Indexed(23),
        status_date: Color::Indexed(24),
        status_message: Color::Indexed(25),
        status_no_commit: Color::Indexed(26),
        separator: Color::Indexed(27),
        syntax_keyword: Color::Indexed(28),
        syntax_type: Color::Indexed(29),
        syntax_function: Color::Indexed(30),
        syntax_variable: Color::Indexed(31),
        syntax_string: Color::Indexed(32),
        syntax_number: Color::Indexed(33),
        syntax_comment: Color::Indexed(34),
        syntax_operator: Color::Indexed(35),
        syntax_punctuation: Color::Indexed(36),
        syntax_constant: Color::Indexed(37),
        syntax_parameter: Color::Indexed(38),
        syntax_property: Color::Indexed(39),
        syntax_label: Color::Indexed(40),
    }
}

fn span_tuples(spans: &[HighlightSpan]) -> Vec<(usize, usize, TokenType)> {
    spans.iter().map(|span| (span.start, span.end, span.token_type)).collect()
}

fn names(v: &[&str]) -> Vec<String> {
    v.iter().map(|s| s.to_string()).collect()
}

#[test]
fn merge_injection_spans_replaces_overlaps_and_sorts_output() {
    let outer = vec![
        HighlightSpan {
            start: 12,
            end: 15,
            token_type: TokenType::Comment,
        },
        HighlightSpan {
            start: 0,
            end: 4,
            token_type: TokenType::Keyword,
        },
        HighlightSpan {
            start: 6,
            end: 10,
            token_type: TokenType::Variable,
        },
    ];
    let merged = merge_injection_spans(
        outer,
        vec![(
            5..11,
            vec![
                HighlightSpan {
                    start: 5,
                    end: 8,
                    token_type: TokenType::Function,
                },
                HighlightSpan {
                    start: 8,
                    end: 9,
                    token_type: TokenType::Number,
                },
            ],
        )],
    );

    assert_eq!(
        span_tuples(&merged),
        vec![
            (0, 4, TokenType::Keyword),
            (5, 8, TokenType::Function),
            (8, 9, TokenType::Number),
            (12, 15, TokenType::Comment),
        ]
    );
}

#[test]
fn merge_injection_spans_without_injections_keeps_outer_order() {
    let outer = vec![
        HighlightSpan { start: 9, end: 10, token_type: TokenType::Type },
        HighlightSpan { start: 1, end: 2, token_type: TokenType::Label },
    ];
    let merged = merge_injection_spans(outer, vec![]);
    assert_eq!(span_tuples(&merged), vec![(9, 10, TokenType::Type), (1, 2, TokenType::Label)]);
}

#[test]
fn merge_injection_spans_keeps_equal_starts_in_order() {
    let outer = vec![
        HighlightSpan { start: 20, end: 22, token_type: TokenType::Operator },
        HighlightSpan { start: 3, end: 4, token_type: TokenType::Label },
    ];
    let merged = merge_injection_spans(
        outer,
        vec![
            (10..12, vec![HighlightSpan { start: 3, end: 4, token_type: TokenType::Number }]),
            (4..5, vec![]),
        ],
    );
    assert_eq!(
        span_tuples(&merged),
        vec![(3, 4, TokenType::Label), (3, 4, TokenType::Number), (20, 22, TokenType::Operator)]
    );
}

#[test]
fn capture_names_map_to_tokens_and_theme_colors() {
    let theme = theme();
    let cases = [
        ("comment", TokenType::Comment, theme.syntax_comment),
        ("boolean", TokenType::Constant, theme.syntax_constant),
        ("function.method", TokenType::Function, theme.syntax_function),
        ("keyword", TokenType::Keyword, theme.syntax_keyword),
        ("label", TokenType::Label, theme.syntax_label),
        ("number", TokenType::Number, theme.syntax_number),
        ("operator", TokenType::Operator, theme.syntax_operator),
        ("parameter", TokenType::Parameter, theme.syntax_parameter),
        ("property", TokenType::Property, theme.syntax_property),
        ("punctuation.delimiter", TokenType::Punctuation, theme.syntax_punctuation),
        ("string.special", TokenType::String, theme.syntax_string),
        ("struct", TokenType::Type, theme.syntax_type),
        ("variable", TokenType::Variable, theme.syntax_variable),
    ];

    assert!(cases.into_iter().all(|(capture, token, color)| {
        capture_name_to_token(capture) == Some(token) && token.color(&theme) == color
    }));
    assert_eq!(capture_name_to_token("unknown"), None);
    assert_eq!(capture_name_to_token(""), None);
    assert_eq!(capture_name_to_token(".keyword"), None);
}

#[test]
fn capture_index_finds_first_matching_name() {
    let n = names(&["injection.language", "injection.content", "injection.content"]);
    assert_eq!(capture_index(&n, "injection.content"), Some(1));
    assert_eq!(capture_index(&n, "injection.language"), Some(0));
    assert_eq!(capture_index(&n, "missing"), None);
}

#[test]
fn spans_from_captures_keeps_highlighted_captures_sorted() {
    let n = names(&["keyword", "spell", "string.special"]);
    let caps = vec![
        Capture { start: 10, end: 14, index: 2 },
        Capture { start: 0, end: 3, index: 0 },
        Capture { start: 4, end: 8, index: 1 },
        Capture { start: 0, end: 5, index: 2 },
    ];
    assert_eq!(
        span_tuples(&spans_from_captures(&caps, &n)),
        vec![(0, 3, TokenType::Keyword), (0, 5, TokenType::String), (10, 14, TokenType::String)]
    );
}

#[test]
fn injection_language_name_cleans_captured_text() {
    assert_eq!(injection_language_name("Rust,ignore {1}"), Some("rust".to_string()));
    assert_eq!(injection_language_name("  \"JavaScript\" "), Some("javascript".to_string()));
    assert_eq!(injection_language_name("`sql`"), Some("sql".to_string()));
    assert_eq!(injection_language_name("python{x}"), Some("python".to_string()));
    assert_eq!(injection_language_name("  \"\"  "), None);
    assert_eq!(injection_language_name(",rust"), None);
    assert_eq!(injection_language_name(""), None);
}

#[test]
fn injection_limits_and_ranges() {
    assert!(injection_depth_allowed(0));
    assert!(injection_depth_allowed(3));
    assert!(!injection_depth_allowed(4));
    assert!(usable_injection_range(&(2..5), 5));
    assert!(!usable_injection_range(&(5..5), 10));
    assert!(!usable_injection_range(&(2..11), 10));
}

#[test]
fn offset_spans_move_spans_by_the_slice_start() {
    let spans = vec![
        HighlightSpan { start: 0, end: 5, token_type: TokenType::Keyword },
        HighlightSpan { start: 6, end: 12, token_type: TokenType::Variable },
    ];
    assert_eq!(
        span_tuples(&offset_spans(&spans, 7)),
        vec![(7, 12, TokenType::Keyword), (13, 19, TokenType::Variable)]
    );
    let edge = vec![HighlightSpan { start: usize::MAX - 1, end: usize::MAX, token_type: TokenType::Type }];
    assert_eq!(span_tuples(&offset_spans(&edge, 5)), vec![(usize::MAX, usize::MAX, TokenType::Type)]);
}
