//! Screen geometry and the fixed texts drawn over the panes: centred
//! rectangles, the typing dialog, the separators, the menu, the key
//! bindings and the about box.

use vstd::prelude::*;
use vstd::string::StringExecFns;
use crate::status_bar::lines_view;
use crate::text::{push_char, push_spaces, spaces};
use crate::theme::{SpanStyle, StyledLine, StyledSpan, StyledSpanView, Theme, fg_style, plain_style};
use crate::ui::UIState;
use ratatui::layout as tui;

verus! {

/// A rectangle of terminal cells.
#[derive(Debug, Clone, Copy, PartialEq, Eq, Structural)]
pub struct Rect {
    pub x: u16,
    pub y: u16,
    pub width: u16,
    pub height: u16,
}

/// `a - b`, or 0 when that is negative.
pub open spec fn sat_sub(a: int, b: int) -> int {
    if a > b {
        a - b
    } else {
        0
    }
}

/// The smaller of two integers.
pub open spec fn min_int(a: int, b: int) -> int {
    if a < b {
        a
    } else {
        b
    }
}

/// The larger of two integers.
pub open spec fn max_int(a: int, b: int) -> int {
    if a < b {
        b
    } else {
        a
    }
}

/// The rectangle lies inside the coordinate range.
pub open spec fn rect_in_bounds(r: Rect) -> bool {
    r.x + r.width <= u16::MAX && r.y + r.height <= u16::MAX
}

/// A `width` × `height` rectangle centred in `outer`, clamped to its size.
pub open spec fn centered(outer: Rect, width: u16, height: u16) -> Rect {
    Rect {
        x: (outer.x + sat_sub(outer.width as int, width as int) / 2) as u16,
        y: (outer.y + sat_sub(outer.height as int, height as int) / 2) as u16,
        width: min_int(width as int, outer.width as int) as u16,
        height: min_int(height as int, outer.height as int) as u16,
    }
}

/// The centred rectangle's corner is a coordinate.
pub open spec fn centered_fits(outer: Rect, width: u16, height: u16) -> bool {
    &&& outer.x + sat_sub(outer.width as int, width as int) / 2 <= u16::MAX
    &&& outer.y + sat_sub(outer.height as int, height as int) / 2 <= u16::MAX
}

/// `centered` computed.
pub fn centered_rect(outer: Rect, width: u16, height: u16) -> (r: Rect)
    requires
        centered_fits(outer, width, height),
    ensures
        r == centered(outer, width, height),
{
    Rect {
        x: outer.x + outer.width.saturating_sub(width) / 2,
        y: outer.y + outer.height.saturating_sub(height) / 2,
        width: if width < outer.width { width } else { outer.width },
        height: if height < outer.height { height } else { outer.height },
    }
}

/// Display width in terminal columns of a text, as `unicode-width`
/// measures it.
pub uninterp spec fn display_width(s: Seq<char>) -> usize;

/// Calls `UnicodeWidthStr::width` of `unicode-width` (the sum of the
/// characters' column widths, wide East Asian characters counting two).
/// The contract claims only that the result is a function of the text.
#[verifier::external_body]
fn text_width(s: &str) -> (w: usize)
    ensures
        w == display_width(s@),
{
    unicode_width::UnicodeWidthStr::width(s)
}

/// A style with only a background colour.
pub open spec fn bg_style(c: crate::theme::Color) -> SpanStyle {
    SpanStyle { fg: None, bg: Some(c), bold: false }
}

/// Width of the typing dialog for a text `text_width` columns wide: ten
/// more than the text, at least 60, at most the screen.
pub open spec fn dialog_width_for(screen_width: u16, text_width: int) -> int {
    min_int(max_int(text_width + 10, 60), screen_width as int)
}

/// The typing dialog's rectangle: three rows, centred on the screen.
pub open spec fn dialog_rect(screen: Rect, text_width: int) -> Rect {
    let w = dialog_width_for(screen.width, text_width);
    Rect {
        x: (sat_sub(screen.width as int, w) / 2) as u16,
        y: (sat_sub(screen.height as int, 3) / 2) as u16,
        width: w as u16,
        height: 3,
    }
}

/// Spaces after the text, filling the dialog's content width (the width
/// less two border and two padding columns).
pub open spec fn dialog_padding(dialog_width: int, text_width: int) -> nat {
    sat_sub(sat_sub(dialog_width, 4), text_width) as nat
}

/// The dialog's line: the text, then the filling spaces on the cursor-line
/// background.
pub open spec fn dialog_line_view(theme: Theme, text: Seq<char>, padding: nat) -> Seq<StyledSpanView> {
    seq![
        StyledSpanView { content: text, style: fg_style(theme.file_tree_current_file_fg) },
        StyledSpanView { content: spaces(padding), style: bg_style(theme.editor_cursor_line_bg) },
    ]
}

/// The style of the dialog and of the menu box.
pub open spec fn highlight_box_style(theme: Theme) -> SpanStyle {
    SpanStyle { fg: Some(theme.file_tree_current_file_fg), bg: Some(theme.editor_cursor_line_bg), bold: false }
}

/// The style of the key-bindings and about boxes.
pub open spec fn plain_box_style(theme: Theme) -> SpanStyle {
    SpanStyle { fg: Some(theme.status_message), bg: Some(theme.editor_cursor_line_bg), bold: false }
}

/// The typing dialog's rectangle and filling, for a text `text_width`
/// columns wide.
pub fn dialog_layout(screen: Rect, text_width: usize) -> (r: (Rect, usize))
    ensures
        r.0 == dialog_rect(screen, text_width as int),
        r.1 == dialog_padding(r.0.width as int, text_width as int),
{
    let wide = text_width.saturating_add(10);
    let at_least = if wide < 60 { 60 } else { wide };
    let sw = screen.width as usize;
    let w: u16 = if at_least < sw { at_least as u16 } else { screen.width };
    let x = screen.width.saturating_sub(w) / 2;
    let y = screen.height.saturating_sub(3) / 2;
    let content = w.saturating_sub(4) as usize;
    let padding = content.saturating_sub(text_width);
    (Rect { x, y, width: w, height: 3 }, padding)
}

/// A box drawn over the panes: its title, lines, rectangle and style.
pub struct Overlay {
    pub title: String,
    pub lines: Vec<StyledLine>,
    pub area: Rect,
    pub style: SpanStyle,
}

/// The typing dialog for `text` under `title`: its rectangle, sized by the
/// text's display width, its line and its style.
pub fn typing_dialog(screen: Rect, theme: &Theme, title: &str, text: &str) -> (d: Overlay)
    ensures
        d.title@ == title@,
        d.area == dialog_rect(screen, display_width(text@) as int),
        lines_view(d.lines@) == seq![
            dialog_line_view(*theme, text@, dialog_padding(d.area.width as int, display_width(text@) as int)),
        ],
        d.style == highlight_box_style(*theme),
{
    let tw = text_width(text);
    let (area, padding) = dialog_layout(screen, tw);
    let mut fill = String::new();
    push_spaces(&mut fill, padding);
    let mut spans: Vec<StyledSpan> = Vec::new();
    spans.push(StyledSpan {
        content: String::from_str(text),
        style: SpanStyle { fg: Some(theme.file_tree_current_file_fg), bg: None, bold: false },
    });
    spans.push(StyledSpan { content: fill, style: SpanStyle { fg: None, bg: Some(theme.editor_cursor_line_bg), bold: false } });
    let line = StyledLine { spans };
    let mut lines: Vec<StyledLine> = Vec::new();
    lines.push(line);
    proof {
        assert(fill@ =~= spaces(padding as nat));
        assert(line@ =~= dialog_line_view(*theme, text@, padding as nat));
        assert(lines_view(lines@) =~= seq![line@]);
    }
    Overlay {
        title: String::from_str(title),
        lines,
        area,
        style: SpanStyle {
            fg: Some(theme.file_tree_current_file_fg),
            bg: Some(theme.editor_cursor_line_bg),
            bold: false,
        },
    }
}

/// The horizontal separator between two panes: `width` box-drawing dashes.
pub fn separator_text(width: u16) -> (s: String)
    ensures
        s@ == Seq::new(width as nat, |i: int| '─'),
{
    let mut s = String::new();
    let mut i: u16 = 0;
    while i < width
        invariant
            i <= width,
            s@ == Seq::new(i as nat, |k: int| '─'),
        decreases width - i,
    {
        push_char(&mut s, '─');
        assert(s@ =~= Seq::new((i + 1) as nat, |k: int| '─'));
        i += 1;
    }
    s
}

/// The menu's items.
pub open spec fn menu_items() -> Seq<Seq<char>> {
    seq!["Key Bindings"@, "About"@, "Exit"@]
}

/// The menu's line for item `i`: a `> ` marker and the highlight colour on
/// the selected item, two spaces and the message colour on the others.
pub open spec fn menu_item_line(theme: Theme, i: int, selected: int) -> Seq<StyledSpanView> {
    if i == selected {
        seq![StyledSpanView { content: "> "@ + menu_items()[i], style: fg_style(theme.file_tree_current_file_fg) }]
    } else {
        seq![StyledSpanView { content: "  "@ + menu_items()[i], style: fg_style(theme.status_message) }]
    }
}

/// The menu's lines.
pub open spec fn menu_view(theme: Theme, selected: int) -> Seq<Seq<StyledSpanView>> {
    Seq::new(3, |i: int| menu_item_line(theme, i, selected))
}

/// A line of one span.
fn single_span_line(text: &str, style: SpanStyle) -> (l: StyledLine)
    ensures
        l@ == seq![StyledSpanView { content: text@, style }],
{
    let mut spans: Vec<StyledSpan> = Vec::new();
    spans.push(StyledSpan { content: String::from_str(text), style });
    let l = StyledLine { spans };
    assert(l@ =~= seq![StyledSpanView { content: text@, style }]);
    l
}

/// A line with no span (an empty line).
fn empty_line() -> (l: StyledLine)
    ensures
        l@ == Seq::<StyledSpanView>::empty(),
{
    let l = StyledLine { spans: Vec::new() };
    assert(l@ =~= Seq::<StyledSpanView>::empty());
    l
}

fn menu_item(theme: &Theme, item: &str, is_selected: bool) -> (l: StyledLine)
    ensures
        l@ == if is_selected {
            seq![StyledSpanView { content: "> "@ + item@, style: fg_style(theme.file_tree_current_file_fg) }]
        } else {
            seq![StyledSpanView { content: "  "@ + item@, style: fg_style(theme.status_message) }]
        },
{
    let mut text = if is_selected {
        String::from_str("> ")
    } else {
        String::from_str("  ")
    };
    text.append(item);
    let style = if is_selected {
        SpanStyle { fg: Some(theme.file_tree_current_file_fg), bg: None, bold: false }
    } else {
        SpanStyle { fg: Some(theme.status_message), bg: None, bold: false }
    };
    let mut spans: Vec<StyledSpan> = Vec::new();
    spans.push(StyledSpan { content: text, style });
    let l = StyledLine { spans };
    proof {
        reveal_strlit("> ");
        reveal_strlit("  ");
    }
    assert(l@ =~= seq![StyledSpanView { content: text@, style }]);
    l
}

/// The menu's lines with item `selected` highlighted.
pub fn menu_lines(theme: &Theme, selected: usize) -> (r: Vec<StyledLine>)
    ensures
        lines_view(r@) == menu_view(*theme, selected as int),
{
    proof {
        reveal_strlit("Key Bindings");
        reveal_strlit("About");
        reveal_strlit("Exit");
    }
    let mut r: Vec<StyledLine> = Vec::new();
    r.push(menu_item(theme, "Key Bindings", selected == 0));
    r.push(menu_item(theme, "About", selected == 1));
    r.push(menu_item(theme, "Exit", selected == 2));
    assert(lines_view(r@) =~= menu_view(*theme, selected as int));
    r
}

/// A heading line in the highlight colour.
pub open spec fn heading(theme: Theme, text: Seq<char>) -> Seq<StyledSpanView> {
    seq![StyledSpanView { content: text, style: fg_style(theme.file_tree_current_file_fg) }]
}

/// A line of unstyled text.
pub open spec fn plain(text: Seq<char>) -> Seq<StyledSpanView> {
    seq![StyledSpanView { content: text, style: plain_style() }]
}

/// The key-bindings box's lines.
pub open spec fn key_bindings_view(theme: Theme) -> Seq<Seq<StyledSpanView>> {
    seq![
        heading(theme, "General"@),
        plain("  Esc     Menu"@),
        plain("  q       Quit"@),
        plain("  Ctrl+c  Quit"@),
        Seq::empty(),
        heading(theme, "Playback Controls"@),
        plain("  Space   Play / Pause"@),
        plain("  h / l   Step line back / forward"@),
        plain("  H / L   Step change back / forward"@),
        plain("  p / n   Previous / Next commit"@),
    ]
}

/// The key-bindings box's lines.
pub fn key_binding_lines(theme: &Theme) -> (r: Vec<StyledLine>)
    ensures
        lines_view(r@) == key_bindings_view(*theme),
{
    let head = SpanStyle { fg: Some(theme.file_tree_current_file_fg), bg: None, bold: false };
    let none = SpanStyle { fg: None, bg: None, bold: false };
    let mut r: Vec<StyledLine> = Vec::new();
    r.push(single_span_line("General", head));
    r.push(single_span_line("  Esc     Menu", none));
    r.push(single_span_line("  q       Quit", none));
    r.push(single_span_line("  Ctrl+c  Quit", none));
    r.push(empty_line());
    r.push(single_span_line("Playback Controls", head));
    r.push(single_span_line("  Space   Play / Pause", none));
    r.push(single_span_line("  h / l   Step line back / forward", none));
    r.push(single_span_line("  H / L   Step change back / forward", none));
    r.push(single_span_line("  p / n   Previous / Next commit", none));
    assert(lines_view(r@) =~= key_bindings_view(*theme));
    r
}

/// The about box's lines, for the program's `version`.
pub open spec fn about_view(theme: Theme, version: Seq<char>) -> Seq<Seq<StyledSpanView>> {
    seq![
        heading(theme, "gitlogue"@),
        plain("Version "@ + version),
        Seq::empty(),
        plain("A cinematic Git commit replay tool"@),
        plain("for the terminal."@),
        Seq::empty(),
        plain("https://github.com/unhappychoice/gitlogue"@),
    ]
}

/// The about box's lines, for the program's `version`.
pub fn about_lines(theme: &Theme, version: &str) -> (r: Vec<StyledLine>)
    ensures
        lines_view(r@) == about_view(*theme, version@),
{
    let head = SpanStyle { fg: Some(theme.file_tree_current_file_fg), bg: None, bold: false };
    let none = SpanStyle { fg: None, bg: None, bold: false };
    let mut version_text = String::from_str("Version ");
    version_text.append(version);
    let mut version_spans: Vec<StyledSpan> = Vec::new();
    version_spans.push(StyledSpan { content: version_text, style: none });
    let version_line = StyledLine { spans: version_spans };
    assert(version_line@ =~= plain("Version "@ + version@));
    let mut r: Vec<StyledLine> = Vec::new();
    r.push(single_span_line("gitlogue", head));
    r.push(version_line);
    r.push(empty_line());
    r.push(single_span_line("A cinematic Git commit replay tool", none));
    r.push(single_span_line("for the terminal.", none));
    r.push(empty_line());
    r.push(single_span_line("https://github.com/unhappychoice/gitlogue", none));
    assert(lines_view(r@) =~= about_view(*theme, version@));
    r
}

/// The box drawn over the panes in `state`, if any: the menu (30 columns
/// wide), the key bindings (44) or the about box (48), each as tall as its
/// lines plus four, centred on the screen.
pub open spec fn overlay_for(state: UIState, screen: Rect, theme: Theme, selected: int, version: Seq<char>) -> Option<
    (Seq<char>, Seq<Seq<StyledSpanView>>, Rect, SpanStyle),
> {
    match state {
        UIState::Menu => Some(
            (" Menu (Esc to close) "@, menu_view(theme, selected), centered(screen, 30, 7), highlight_box_style(theme)),
        ),
        UIState::KeyBindings => Some(
            (" Key Bindings (Esc to close) "@, key_bindings_view(theme), centered(screen, 44, 14), plain_box_style(theme)),
        ),
        UIState::About => Some(
            (" About (Esc to close) "@, about_view(theme, version), centered(screen, 48, 11), plain_box_style(theme)),
        ),
        _ => None,
    }
}

/// The box drawn over the panes in `state` (see `overlay_for`).
pub fn overlay(state: UIState, screen: Rect, theme: &Theme, selected: usize, version: &str) -> (r: Option<Overlay>)
    requires
        rect_in_bounds(screen),
    ensures
        match (r, overlay_for(state, screen, *theme, selected as int, version@)) {
            (Some(o), Some(want)) => (o.title@, lines_view(o.lines@), o.area, o.style) == want,
            (None, None) => true,
            _ => false,
        },
{
    let highlight = SpanStyle {
        fg: Some(theme.file_tree_current_file_fg),
        bg: Some(theme.editor_cursor_line_bg),
        bold: false,
    };
    let boxed = SpanStyle { fg: Some(theme.status_message), bg: Some(theme.editor_cursor_line_bg), bold: false };
    match state {
        UIState::Menu => Some(Overlay {
            title: String::from_str(" Menu (Esc to close) "),
            lines: menu_lines(theme, selected),
            area: centered_rect(screen, 30, 7),
            style: highlight,
        }),
        UIState::KeyBindings => Some(Overlay {
            title: String::from_str(" Key Bindings (Esc to close) "),
            lines: key_binding_lines(theme),
            area: centered_rect(screen, 44, 14),
            style: boxed,
        }),
        UIState::About => Some(Overlay {
            title: String::from_str(" About (Esc to close) "),
            lines: about_lines(theme, version),
            area: centered_rect(screen, 48, 11),
            style: boxed,
        }),
        _ => None,
    }
}

/// How much of a split a part takes: a percentage of the whole, or a
/// number of cells.
#[derive(Debug, Clone, Copy, PartialEq, Eq, Structural)]
pub enum Constraint {
    Percentage(u16),
    Length(u16),
}

/// The parts ratatui's layout solver gives `area` when split into `parts`
/// side by side (`vertical` false) or one above the other.
pub uninterp spec fn layout_split(area: Rect, vertical: bool, parts: Seq<Constraint>) -> Seq<Rect>;

/// Splits a rectangle with ratatui's `Layout` (direction, constraints, no
/// margin, no spacing, then `split`). The contract claims that the parts
/// are `layout_split` of the arguments, one per constraint.
#[verifier::external_body]
fn split_area(area: Rect, vertical: bool, parts: &Vec<Constraint>) -> (r: Vec<Rect>)
    ensures
        r@ == layout_split(area, vertical, parts@),
        r@.len() == parts@.len(),
{
    let direction = if vertical { tui::Direction::Vertical } else { tui::Direction::Horizontal };
    let constraints: Vec<tui::Constraint> = parts.iter().map(|p| match p {
        Constraint::Percentage(n) => tui::Constraint::Percentage(*n),
        Constraint::Length(n) => tui::Constraint::Length(*n),
    }).collect();
    let outer = tui::Rect { x: area.x, y: area.y, width: area.width, height: area.height };
    let split = tui::Layout::default().direction(direction).constraints(constraints).margin(0).spacing(0).split(outer);
    split.iter().map(|r| Rect { x: r.x, y: r.y, width: r.width, height: r.height }).collect()
}

/// Where the panes go: the left column (30%) holds the file tree (80%), a
/// one-row separator and the status pane (20%); the right column (70%)
/// holds the editor (80%), a separator and the terminal (20%).
#[derive(Debug, Clone, Copy, PartialEq, Eq, Structural)]
pub struct PaneAreas {
    pub file_tree: Rect,
    pub left_separator: Rect,
    pub status: Rect,
    pub editor: Rect,
    pub right_separator: Rect,
    pub terminal: Rect,
}

/// The columns of the screen.
pub open spec fn column_parts() -> Seq<Constraint> {
    seq![Constraint::Percentage(30), Constraint::Percentage(70)]
}

/// The rows of a column.
pub open spec fn row_parts() -> Seq<Constraint> {
    seq![Constraint::Percentage(80), Constraint::Length(1), Constraint::Percentage(20)]
}

/// The panes' areas on a screen (see `PaneAreas`).
pub open spec fn pane_layout(screen: Rect) -> PaneAreas {
    let cols = layout_split(screen, false, column_parts());
    let left = layout_split(cols[0], true, row_parts());
    let right = layout_split(cols[1], true, row_parts());
    PaneAreas {
        file_tree: left[0],
        left_separator: left[1],
        status: left[2],
        editor: right[0],
        right_separator: right[1],
        terminal: right[2],
    }
}

fn rows() -> (r: Vec<Constraint>)
    ensures
        r@ == row_parts(),
{
    let r = vec![Constraint::Percentage(80), Constraint::Length(1), Constraint::Percentage(20)];
    assert(r@ =~= row_parts());
    r
}

/// The panes' areas on a screen (see `pane_layout`).
pub fn pane_areas(screen: Rect) -> (r: PaneAreas)
    ensures
        r == pane_layout(screen),
{
    let column_constraints = vec![Constraint::Percentage(30), Constraint::Percentage(70)];
    assert(column_constraints@ =~= column_parts());
    let cols = split_area(screen, false, &column_constraints);
    let left = split_area(cols[0], true, &rows());
    let right = split_area(cols[1], true, &rows());
    PaneAreas {
        file_tree: left[0],
        left_separator: left[1],
        status: left[2],
        editor: right[0],
        right_separator: right[1],
        terminal: right[2],
    }
}

} // verus!
