//! Colours and themes: a theme gives one colour to every element of the
//! screen; span styles say how a piece of text is drawn.

use vstd::prelude::*;
use crate::text::str_eq;
use vstd::string::StringExecFns;

verus! {

/// A terminal colour (the palette of the terminal backend).
#[derive(Debug, Clone, Copy, PartialEq, Eq, Structural)]
pub enum Color {
    Reset,
    Black,
    Red,
    Green,
    Yellow,
    Blue,
    Magenta,
    Cyan,
    Gray,
    DarkGray,
    LightRed,
    LightGreen,
    LightYellow,
    LightBlue,
    LightMagenta,
    LightCyan,
    White,
    Rgb(u8, u8, u8),
    Indexed(u8),
}

/// How a piece of text is drawn: foreground, background, bold.
#[derive(Debug, Clone, Copy, PartialEq, Eq, Structural)]
pub struct SpanStyle {
    pub fg: Option<Color>,
    pub bg: Option<Color>,
    pub bold: bool,
}

/// A piece of text with its style.
pub struct StyledSpan {
    pub content: String,
    pub style: SpanStyle,
}

/// One screen line: its spans from left to right.
pub struct StyledLine {
    pub spans: Vec<StyledSpan>,
}

/// Mathematical form of a styled span.
pub struct StyledSpanView {
    pub content: Seq<char>,
    pub style: SpanStyle,
}

impl View for StyledSpan {
    type V = StyledSpanView;

    open spec fn view(&self) -> StyledSpanView {
        StyledSpanView { content: self.content@, style: self.style }
    }
}

impl View for StyledLine {
    type V = Seq<StyledSpanView>;

    open spec fn view(&self) -> Seq<StyledSpanView> {
        self.spans@.map_values(|s: StyledSpan| s@)
    }
}

/// A style with only a foreground colour.
pub open spec fn fg_style(c: Color) -> SpanStyle {
    SpanStyle { fg: Some(c), bg: None, bold: false }
}

/// A style with a foreground colour, in bold.
pub open spec fn fg_bold_style(c: Color) -> SpanStyle {
    SpanStyle { fg: Some(c), bg: None, bold: true }
}

/// The default style: nothing set.
pub open spec fn plain_style() -> SpanStyle {
    SpanStyle { fg: None, bg: None, bold: false }
}

/// A foreground-only style.
pub fn style_fg(c: Color) -> (s: SpanStyle)
    ensures
        s == fg_style(c),
{
    SpanStyle { fg: Some(c), bg: None, bold: false }
}

/// A bold foreground style.
pub fn style_fg_bold(c: Color) -> (s: SpanStyle)
    ensures
        s == fg_bold_style(c),
{
    SpanStyle { fg: Some(c), bg: None, bold: true }
}

/// The colours of every element of the screen.
#[derive(Debug, Clone, Copy)]
pub struct Theme {
    pub background_left: Color,
    pub background_right: Color,
    pub editor_line_number: Color,
    pub editor_line_number_cursor: Color,
    pub editor_separator: Color,
    pub editor_cursor_char_bg: Color,
    pub editor_cursor_char_fg: Color,
    pub editor_cursor_line_bg: Color,
    pub file_tree_added: Color,
    pub file_tree_deleted: Color,
    pub file_tree_modified: Color,
    pub file_tree_renamed: Color,
    pub file_tree_directory: Color,
    pub file_tree_current_file_bg: Color,
    pub file_tree_current_file_fg: Color,
    pub file_tree_default: Color,
    pub file_tree_stats_added: Color,
    pub file_tree_stats_deleted: Color,
    pub terminal_command: Color,
    pub terminal_output: Color,
    pub terminal_cursor_bg: Color,
    pub terminal_cursor_fg: Color,
    pub status_hash: Color,
    pub status_author: Color,
    pub status_date: Color,
    pub status_message: Color,
    pub status_no_commit: Color,
    pub separator: Color,
    pub syntax_keyword: Color,
    pub syntax_type: Color,
    pub syntax_function: Color,
    pub syntax_variable: Color,
    pub syntax_string: Color,
    pub syntax_number: Color,
    pub syntax_comment: Color,
    pub syntax_operator: Color,
    pub syntax_punctuation: Color,
    pub syntax_constant: Color,
    pub syntax_parameter: Color,
    pub syntax_property: Color,
    pub syntax_label: Color,
}

impl Theme {
    /// The same theme with both background colours reset, for terminals
    /// with a transparent background; every other colour is kept.
    pub fn with_transparent_background(self) -> (t: Theme)
        ensures
            t == (Theme { background_left: Color::Reset, background_right: Color::Reset, ..self }),
    {
        let mut t = self;
        t.background_left = Color::Reset;
        t.background_right = Color::Reset;
        t
    }
}

/// Names of the built-in themes, in the order they are listed.
pub open spec fn theme_names() -> Seq<Seq<char>> {
    seq![
        "ayu-dark"@, "catppuccin"@, "dracula"@, "everforest"@, "fluorite"@, "github-dark"@,
        "gruvbox"@, "material"@, "monokai"@, "night-owl"@, "nord"@, "one-dark"@, "rose-pine"@,
        "solarized-dark"@, "solarized-light"@, "telemetry"@, "tokyo-night"@,
    ]
}

/// Why a theme name was refused.
#[derive(Debug, PartialEq, Eq)]
pub enum ThemeError {
    /// No built-in theme has this name.
    Unknown(String),
}


/// The text of a list of names joined by `", "`.
pub open spec fn comma_joined(names: Seq<Seq<char>>) -> Seq<char>
    decreases names.len(),
{
    if names.len() == 0 {
        Seq::empty()
    } else if names.len() == 1 {
        names[0]
    } else {
        comma_joined(names.drop_last()) + ", "@ + names.last()
    }
}

/// No two built-in themes share a name, so a name selects one theme.
pub proof fn lemma_theme_names_unique()
    ensures
        forall|i: int, j: int| 0 <= i < j < theme_names().len() ==> theme_names()[i] != theme_names()[j],
{
    reveal_strlit("ayu-dark");
    reveal_strlit("catppuccin");
    reveal_strlit("dracula");
    reveal_strlit("everforest");
    reveal_strlit("fluorite");
    reveal_strlit("github-dark");
    reveal_strlit("gruvbox");
    reveal_strlit("material");
    reveal_strlit("monokai");
    reveal_strlit("night-owl");
    reveal_strlit("nord");
    reveal_strlit("one-dark");
    reveal_strlit("rose-pine");
    reveal_strlit("solarized-dark");
    reveal_strlit("solarized-light");
    reveal_strlit("telemetry");
    reveal_strlit("tokyo-night");
    let n = theme_names();
    assert forall|i: int, j: int| 0 <= i < j < n.len() implies n[i] != n[j] by {
        if n[i].len() == n[j].len() {
            if n[i][0] == n[j][0] {
                assert(n[i][1] != n[j][1] || n[i][2] != n[j][2] || n[i][9] != n[j][9]);
            }
        }
    }
}

impl Theme {
    /// Names of all built-in themes.
    pub fn available_themes() -> (r: Vec<&'static str>)
        ensures
            r@.map_values(|n: &str| n@) == theme_names(),
    {
        let r = vec!["ayu-dark", "catppuccin", "dracula", "everforest", "fluorite", "github-dark", "gruvbox", "material", "monokai", "night-owl", "nord", "one-dark", "rose-pine", "solarized-dark", "solarized-light", "telemetry", "tokyo-night"];
        assert(r@.map_values(|n: &str| n@) =~= theme_names());
        r
    }

    /// Position of `name` among the built-in themes; an unknown name is
    /// refused with `ThemeError::Unknown`.
    pub fn lookup(name: &str) -> (r: Result<usize, ThemeError>)
        ensures
            match r {
                Ok(i) => i < theme_names().len() && theme_names()[i as int] == name@,
                Err(ThemeError::Unknown(n)) => n@ == name@ && !theme_names().contains(name@),
            },
    {
        let names = Theme::available_themes();
        let mut i: usize = 0;
        while i < names.len()
            invariant
                names@.map_values(|n: &str| n@) == theme_names(),
                i <= names@.len(),
                forall|j: int| 0 <= j < i ==> theme_names()[j] != name@,
            decreases names@.len() - i,
        {
            if str_eq(names[i], name) {
                assert(names@.map_values(|n: &str| n@)[i as int] == names@[i as int]@);
                return Ok(i);
            }
            assert(names@.map_values(|n: &str| n@)[i as int] == names@[i as int]@);
            i += 1;
        }
        Err(ThemeError::Unknown(String::from_str(name)))
    }
}

impl ThemeError {
    /// The error line: `Unknown theme: <name>`.
    pub fn message(&self) -> (m: String)
        ensures
            match self {
                ThemeError::Unknown(n) => m@ == "Unknown theme: "@ + n@,
            },
    {
        match self {
            ThemeError::Unknown(n) => {
                let mut m = String::from_str("Unknown theme: ");
                m.append(n.as_str());
                m
            },
        }
    }

    /// The hint shown above the error: every built-in theme, comma-separated.
    pub fn hint(&self) -> (h: String)
        ensures
            h@ == "Available themes: "@ + comma_joined(theme_names()),
    {
        let names = Theme::available_themes();
        let mut h = String::from_str("Available themes: ");
        let ghost views = names@.map_values(|n: &str| n@);
        let mut i: usize = 0;
        while i < names.len()
            invariant
                views == theme_names(),
                views == names@.map_values(|n: &str| n@),
                i <= names@.len(),
                h@ == "Available themes: "@ + comma_joined(views.take(i as int)),
            decreases names@.len() - i,
        {
            proof {
                assert(views.take(i + 1).drop_last() =~= views.take(i as int));
                assert(views[i as int] == names@[i as int]@);
            }
            if i > 0 {
                h.append(", ");
            } else {
                assert(views.take(0) =~= Seq::<Seq<char>>::empty());
            }
            h.append(names[i]);
            proof {
                if i == 0 {
                    assert(views.take(1) =~= seq![views[0]]);
                }
            }
            i += 1;
        }
        assert(views.take(views.len() as int) =~= views);
        h
    }
}

} // verus!
