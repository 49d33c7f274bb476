use gitlogue::highlight::{gather_injections, language_by_name, language_for_path_of, slice_of, Highlighter, LanguageId};
use gitlogue::syntax::{HighlightSpan, TokenType};

fn sorted(spans: &[HighlightSpan]) -> bool {
    spans.windows(2).all(|w| w[0].start <= w[1].start)
}

#[test]
fn set_language_from_path_clears_previous_state_for_unknown_extensions() {
    let mut highlighter = Highlighter::new();

    assert!(highlighter.set_language_from_path("default.nix"));
    assert_eq!(highlighter.language(), Some(LanguageId::Nix));
    assert!(!highlighter.highlight("let x = 1; in x\n").is_empty());

    assert!(!highlighter.set_language_from_path("README.unknown"));
    assert_eq!(highlighter.language(), None);
    assert!(highlighter.highlight("let x = 1; in x\n").is_empty());
}

#[test]
fn highlight_nix_source_gives_sorted_spans_inside_the_text() {
    let source = "{ pkgs }:\nlet\n  name = \"hello\"; # greeting\nin pkgs.writeText name \"hi\"\n";
    let mut highlighter = Highlighter::new();
    assert!(highlighter.set_language_from_path("pkgs/default.nix"));
    let spans = highlighter.highlight(source);
    assert!(!spans.is_empty());
    assert!(sorted(&spans));
    assert!(spans.iter().all(|s| s.start <= s.end && s.end <= source.len()));
    assert!(spans.iter().any(|s| s.token_type == TokenType::Keyword && &source[s.start..s.end] == "let"));
    assert!(spans.iter().any(|s| s.token_type == TokenType::Comment));
    let again = highlighter.highlight(source);
    assert_eq!(
        spans.iter().map(|s| (s.start, s.end, s.token_type)).collect::<Vec<_>>(),
        again.iter().map(|s| (s.start, s.end, s.token_type)).collect::<Vec<_>>()
    );
}

#[test]
fn highlight_dart_source_finds_keywords_and_strings() {
    let source = "void main() {\n  print('hi');\n}\n";
    let mut highlighter = Highlighter::default();
    assert!(highlighter.set_language_from_path("lib/main.dart"));
    let spans = highlighter.highlight(source);
    assert!(sorted(&spans));
    assert!(spans.iter().any(|s| s.token_type == TokenType::String));
}

#[test]
fn highlighter_without_language_highlights_nothing() {
    let mut highlighter = Highlighter::new();
    assert!(highlighter.highlight("let x = 1; in x").is_empty());
}

#[test]
fn language_for_path_reads_the_extension_of_the_file_name() {
    assert_eq!(language_for_path_of("a/b.dart"), Some(LanguageId::Dart));
    assert_eq!(language_for_path_of("flake.nix"), Some(LanguageId::Nix));
    assert_eq!(language_for_path_of("dir.nix/file"), None);
    assert_eq!(language_for_path_of(".nix"), None);
    assert_eq!(language_for_path_of("x.dartx"), None);
    assert_eq!(language_by_name("nix"), Some(LanguageId::Nix));
    assert_eq!(language_by_name("dart"), Some(LanguageId::Dart));
    assert_eq!(language_by_name("bash"), None);
}

#[test]
fn slice_of_respects_character_boundaries() {
    assert_eq!(slice_of("hello", 1, 3), Some("el".to_string()));
    assert_eq!(slice_of("hello", 3, 3), Some(String::new()));
    assert_eq!(slice_of("hello", 3, 9), None);
    assert_eq!(slice_of("hello", 4, 2), None);
    assert_eq!(slice_of("héllo", 1, 2), None);
    assert_eq!(slice_of("héllo", 1, 3), Some("é".to_string()));
}

#[test]
fn gather_injections_stops_at_depth_four_and_keeps_ranges_inside_the_source() {
    let source = "{\n  buildPhase = ''\n    make all\n  '';\n}\n";
    assert!(gather_injections(LanguageId::Nix, source, 4).is_empty());
    assert!(gather_injections(LanguageId::Dart, "void main() {}", 0).is_empty());
    for (range, spans) in gather_injections(LanguageId::Nix, source, 0) {
        assert!(range.start < range.end && range.end <= source.len());
        assert!(spans.iter().all(|s| range.start <= s.start && s.end <= range.end));
    }
}
