//! The editor pane: the visible window of the animated text buffer, line
//! numbers, syntax colours per character and the typing cursor.

use vstd::prelude::*;
use vstd::string::{StrSliceExecFns, StringExecFns};
use crate::syntax::{HighlightSpan, TokenType, token_color};
use crate::text::{
    push_decimal,
    char_utf8_len, chars_of, decimal, lemma_str_len_is_utf8_width, lemma_utf8_width_prefix,
    pad_left, push_char, decimal_padded, utf8_len, utf8_width,
};
use crate::theme::{Color, SpanStyle, StyledLine, StyledSpan, StyledSpanView, Theme, fg_bold_style, fg_style};

verus! {

/// The editor pane (it keeps no state of its own).
pub struct EditorPane;

/// What the editor pane needs of one line and the buffer around it.
pub struct HighlightContext<'a> {
    pub line_content: &'a str,
    pub line_num: usize,
    pub show_cursor: bool,
    pub cursor_col: usize,
    pub cursor_line: usize,
    pub old_highlights: &'a [HighlightSpan],
    pub new_highlights: &'a [HighlightSpan],
    pub old_line_offsets: &'a [usize],
    pub new_line_offsets: &'a [usize],
    pub line_offset: isize,
    pub theme: &'a Theme,
}

/// A highlight cut to a line: start byte, end byte, token class.
pub type LineHighlight = (usize, usize, TokenType);

/// Lines at or above the cursor are already rewritten: they use the new
/// content's offsets; lines below still show the old content.
pub open spec fn uses_new_content(line_num: int, cursor_line: int) -> bool {
    line_num <= cursor_line
}

/// The content line a screen line shows: below the cursor, the old content
/// shifted by `line_offset` (never above line 0).
pub open spec fn target_line(line_num: int, cursor_line: int, line_offset: int) -> int {
    if line_num > cursor_line {
        if line_num - line_offset < 0 {
            0
        } else {
            line_num - line_offset
        }
    } else {
        line_num
    }
}

/// The byte offset of content line `t`: its entry in `offsets`, else the
/// last known offset, else 0.
pub open spec fn offset_at(offsets: Seq<usize>, t: int) -> usize {
    if 0 <= t < offsets.len() {
        offsets[t]
    } else if offsets.len() > 0 {
        offsets.last()
    } else {
        0
    }
}

/// The `line_num > cursor_line` branch of `calculate_byte_offset` computes
/// without overflow.
pub open spec fn shift_fits(line_num: int, cursor_line: int, line_offset: int) -> bool {
    line_num > cursor_line ==> line_num <= isize::MAX && isize::MIN <= line_num - line_offset <= isize::MAX
}

/// A highlight touches the byte range `[from, to)`.
pub open spec fn touches(h: HighlightSpan, from: int, to: int) -> bool {
    h.start < to && h.end > from
}

/// The highlights touching `[from, to)`, cut down to their fields.
pub open spec fn line_highlights(hs: Seq<HighlightSpan>, from: int, to: int) -> Seq<LineHighlight> {
    hs.filter(|h: HighlightSpan| touches(h, from, to)).map_values(
        |h: HighlightSpan| (h.start, h.end, h.token_type),
    )
}

/// Colour of the character occupying bytes `[start, end)`: that of the
/// first highlight covering it, else the variable colour.
pub open spec fn cover_color(hs: Seq<LineHighlight>, start: int, end: int, theme: Theme) -> Color
    decreases hs.len(),
{
    if hs.len() == 0 {
        theme.syntax_variable
    } else if start >= hs[0].0 && end <= hs[0].1 {
        token_color(hs[0].2, theme)
    } else {
        cover_color(hs.drop_first(), start, end, theme)
    }
}

/// The style of the character under the cursor.
pub open spec fn cursor_style(theme: Theme) -> SpanStyle {
    SpanStyle { fg: Some(theme.editor_cursor_char_fg), bg: Some(theme.editor_cursor_char_bg), bold: true }
}

/// One span per character, coloured by the highlights (byte offsets count
/// from `byte_offset`), the cursor character drawn in the cursor style.
pub open spec fn char_spans(
    chars: Seq<char>,
    byte_offset: int,
    hs: Seq<LineHighlight>,
    show_cursor: bool,
    cursor_col: int,
    theme: Theme,
) -> Seq<StyledSpanView> {
    Seq::new(
        chars.len(),
        |k: int|
            {
                let start = byte_offset + utf8_width(chars.take(k));
                let end = start + utf8_len(chars[k]);
                if show_cursor && k == cursor_col {
                    StyledSpanView { content: seq![chars[k]], style: cursor_style(theme) }
                } else {
                    StyledSpanView { content: seq![chars[k]], style: fg_style(cover_color(hs, start, end, theme)) }
                }
            },
    )
}

/// The spans of a line: its characters, plus a blank cursor cell when the
/// cursor stands after the last character.
pub open spec fn highlighted_line(
    chars: Seq<char>,
    byte_offset: int,
    hs: Seq<LineHighlight>,
    show_cursor: bool,
    cursor_col: int,
    theme: Theme,
) -> Seq<StyledSpanView> {
    char_spans(chars, byte_offset, hs, show_cursor, cursor_col, theme) + if show_cursor && cursor_col
        >= chars.len() {
        seq![StyledSpanView { content: " "@, style: cursor_style(theme) }]
    } else {
        Seq::empty()
    }
}

/// Views of a sequence of spans.
pub open spec fn span_views(v: Seq<StyledSpan>) -> Seq<StyledSpanView> {
    v.map_values(|s: StyledSpan| s@)
}

proof fn lemma_cover_color_skip(hs: Seq<LineHighlight>, i: int, start: int, end: int, theme: Theme)
    requires
        0 <= i < hs.len(),
        !(start >= hs[i].0 && end <= hs[i].1),
    ensures
        cover_color(hs.skip(i), start, end, theme) == cover_color(hs.skip(i + 1), start, end, theme),
{
    assert(hs.skip(i).drop_first() =~= hs.skip(i + 1));
}

/// The highlights a screen line uses (new content at or above the cursor).
pub open spec fn chosen_highlights(line_num: int, cursor_line: int, old_h: Seq<HighlightSpan>, new_h: Seq<HighlightSpan>) -> Seq<HighlightSpan> {
    if uses_new_content(line_num, cursor_line) { new_h } else { old_h }
}

/// The line offsets a screen line uses.
pub open spec fn chosen_offsets(line_num: int, cursor_line: int, old_o: Seq<usize>, new_o: Seq<usize>) -> Seq<usize> {
    if uses_new_content(line_num, cursor_line) { new_o } else { old_o }
}

/// Byte offset where the content shown on screen line `line_num` starts.
pub open spec fn content_offset(
    line_num: int,
    cursor_line: int,
    line_offset: int,
    old_o: Seq<usize>,
    new_o: Seq<usize>,
) -> usize {
    offset_at(chosen_offsets(line_num, cursor_line, old_o, new_o), target_line(line_num, cursor_line, line_offset))
}

/// A line can be highlighted without arithmetic overflow.
pub open spec fn line_fits(
    content: Seq<char>,
    line_num: int,
    cursor_line: int,
    line_offset: int,
    old_o: Seq<usize>,
    new_o: Seq<usize>,
) -> bool {
    &&& shift_fits(line_num, cursor_line, line_offset)
    &&& content_offset(line_num, cursor_line, line_offset, old_o, new_o) + utf8_width(content) <= usize::MAX
}

/// The spans of a line's text: its highlights cut to the line's bytes,
/// applied character by character.
pub open spec fn line_spans(
    content: Seq<char>,
    line_num: int,
    show_cursor: bool,
    cursor_col: int,
    cursor_line: int,
    old_h: Seq<HighlightSpan>,
    new_h: Seq<HighlightSpan>,
    old_o: Seq<usize>,
    new_o: Seq<usize>,
    line_offset: int,
    theme: Theme,
) -> Seq<StyledSpanView> {
    let off = content_offset(line_num, cursor_line, line_offset, old_o, new_o);
    highlighted_line(
        content,
        off as int,
        line_highlights(chosen_highlights(line_num, cursor_line, old_h, new_h), off as int, off + utf8_width(content)),
        show_cursor,
        cursor_col,
        theme,
    )
}

/// `line_fits` for a context.
pub open spec fn context_fits(ctx: HighlightContext) -> bool {
    line_fits(ctx.line_content@, ctx.line_num as int, ctx.cursor_line as int, ctx.line_offset as int,
        ctx.old_line_offsets@, ctx.new_line_offsets@)
}

/// `line_spans` for a context.
pub open spec fn context_spans(ctx: HighlightContext) -> Seq<StyledSpanView> {
    line_spans(ctx.line_content@, ctx.line_num as int, ctx.show_cursor, ctx.cursor_col as int,
        ctx.cursor_line as int, ctx.old_highlights@, ctx.new_highlights@, ctx.old_line_offsets@,
        ctx.new_line_offsets@, ctx.line_offset as int, *ctx.theme)
}

/// The line-number cell: the 1-based number right-aligned to `width`, then
/// a space; bold in the cursor colour on the cursor line.
pub open spec fn line_number_span(line_num: int, is_cursor_line: bool, width: nat, theme: Theme) -> StyledSpanView {
    StyledSpanView {
        content: pad_left(decimal((line_num + 1) as nat), width) + " "@,
        style: if is_cursor_line {
            fg_bold_style(theme.editor_line_number_cursor)
        } else {
            fg_style(theme.editor_line_number)
        },
    }
}

impl EditorPane {
    /// New highlights and offsets for lines at or above the cursor, old ones below.
    pub fn select_highlights_and_offsets<'a>(
        &self,
        line_num: usize,
        cursor_line: usize,
        old_highlights: &'a [HighlightSpan],
        new_highlights: &'a [HighlightSpan],
        old_line_offsets: &'a [usize],
        new_line_offsets: &'a [usize],
    ) -> (r: (&'a [HighlightSpan], &'a [usize]))
        ensures
            uses_new_content(line_num as int, cursor_line as int) ==> r.0@ == new_highlights@
                && r.1@ == new_line_offsets@,
            !uses_new_content(line_num as int, cursor_line as int) ==> r.0@ == old_highlights@
                && r.1@ == old_line_offsets@,
    {
        if line_num <= cursor_line {
            (new_highlights, new_line_offsets)
        } else {
            (old_highlights, old_line_offsets)
        }
    }

    /// Byte offset where the content of screen line `line_num` starts.
    pub fn calculate_byte_offset(
        &self,
        line_num: usize,
        cursor_line: usize,
        line_offset: isize,
        line_offsets: &[usize],
    ) -> (r: usize)
        requires
            shift_fits(line_num as int, cursor_line as int, line_offset as int),
        ensures
            r == offset_at(line_offsets@, target_line(line_num as int, cursor_line as int, line_offset as int)),
    {
        let target: usize = if line_num > cursor_line {
            let shifted = (line_num as isize) - line_offset;
            if shifted < 0 {
                0
            } else {
                shifted as usize
            }
        } else {
            line_num
        };
        if target < line_offsets.len() {
            line_offsets[target]
        } else if line_offsets.len() > 0 {
            line_offsets[line_offsets.len() - 1]
        } else {
            0
        }
    }

    /// The highlights that touch the line's bytes `[byte_offset, byte_offset + line_len)`.
    pub fn filter_line_highlights(&self, highlights: &[HighlightSpan], byte_offset: usize, line_len: usize)
        -> (r: Vec<LineHighlight>)
        requires
            byte_offset + line_len <= usize::MAX,
        ensures
            r@ == line_highlights(highlights@, byte_offset as int, byte_offset + line_len),
    {
        let line_end = byte_offset + line_len;
        let ghost keep = |h: HighlightSpan| touches(h, byte_offset as int, line_end as int);
        let ghost cut = |h: HighlightSpan| (h.start, h.end, h.token_type);
        let mut r: Vec<LineHighlight> = Vec::new();
        let mut i: usize = 0;
        while i < highlights.len()
            invariant
                i <= highlights@.len(),
                line_end == byte_offset + line_len,
                keep == (|h: HighlightSpan| touches(h, byte_offset as int, line_end as int)),
                cut == (|h: HighlightSpan| (h.start, h.end, h.token_type)),
                r@ == highlights@.take(i as int).filter(keep).map_values(cut),
            decreases highlights@.len() - i,
        {
            let h = highlights[i];
            proof {
                assert(highlights@.take(i + 1) =~= highlights@.take(i as int).push(h));
                highlights@.take(i as int).lemma_filter_push(h, keep);
            }
            if h.start < line_end && h.end > byte_offset {
                let ghost before = r@;
                r.push((h.start, h.end, h.token_type));
                proof {
                    assert(highlights@.take(i as int).filter(keep).push(h).map_values(cut)
                        =~= before.push(cut(h)));
                }
            }
            i += 1;
        }
        assert(highlights@.take(highlights@.len() as int) =~= highlights@);
        r
    }

    /// Colour of the character at bytes `[char_byte_start, char_byte_end)`.
    pub fn get_char_color(
        &self,
        char_byte_start: usize,
        char_byte_end: usize,
        line_highlights: &[LineHighlight],
        theme: &Theme,
    ) -> (c: Color)
        ensures
            c == cover_color(line_highlights@, char_byte_start as int, char_byte_end as int, *theme),
    {
        let mut i: usize = 0;
        assert(line_highlights@.skip(0) =~= line_highlights@);
        while i < line_highlights.len()
            invariant
                i <= line_highlights@.len(),
                cover_color(line_highlights@, char_byte_start as int, char_byte_end as int, *theme)
                    == cover_color(line_highlights@.skip(i as int), char_byte_start as int, char_byte_end as int, *theme),
            decreases line_highlights@.len() - i,
        {
            let h = line_highlights[i];
            if char_byte_start >= h.0 && char_byte_end <= h.1 {
                assert(line_highlights@.skip(i as int)[0] == h);
                return h.2.color(theme);
            }
            proof {
                lemma_cover_color_skip(line_highlights@, i as int, char_byte_start as int, char_byte_end as int, *theme);
            }
            i += 1;
        }
        assert(line_highlights@.skip(i as int) =~= Seq::<LineHighlight>::empty());
        theme.syntax_variable
    }

    /// The spans of a line's characters (see `highlighted_line`).
    pub fn apply_highlights(&self, line_highlights: &[LineHighlight], byte_offset: usize, ctx: &HighlightContext)
        -> (spans: Vec<StyledSpan>)
        requires
            byte_offset + utf8_width(ctx.line_content@) <= usize::MAX,
        ensures
            span_views(spans@) == highlighted_line(
                ctx.line_content@,
                byte_offset as int,
                line_highlights@,
                ctx.show_cursor,
                ctx.cursor_col as int,
                *ctx.theme,
            ),
    {
        let chars = chars_of(ctx.line_content);
        let ghost want = char_spans(chars@, byte_offset as int, line_highlights@, ctx.show_cursor,
            ctx.cursor_col as int, *ctx.theme);
        let cstyle = SpanStyle {
            fg: Some(ctx.theme.editor_cursor_char_fg),
            bg: Some(ctx.theme.editor_cursor_char_bg),
            bold: true,
        };
        let mut spans: Vec<StyledSpan> = Vec::new();
        let mut relative_byte: usize = 0;
        let mut k: usize = 0;
        while k < chars.len()
            invariant
                chars@ == ctx.line_content@,
                k <= chars@.len(),
                relative_byte == utf8_width(chars@.take(k as int)),
                byte_offset + utf8_width(chars@) <= usize::MAX,
                cstyle == cursor_style(*ctx.theme),
                want == char_spans(chars@, byte_offset as int, line_highlights@, ctx.show_cursor,
                    ctx.cursor_col as int, *ctx.theme),
                span_views(spans@) == want.take(k as int),
            decreases chars@.len() - k,
        {
            let ch = chars[k];
            let len = char_utf8_len(ch);
            proof {
                assert(chars@.take(k + 1).drop_last() =~= chars@.take(k as int));
                lemma_utf8_width_prefix(chars@, k + 1);
            }
            let char_byte_start = byte_offset + relative_byte;
            let char_byte_end = char_byte_start + len;
            relative_byte += len;
            let mut content = String::new();
            push_char(&mut content, ch);
            let style = if ctx.show_cursor && k == ctx.cursor_col {
                cstyle
            } else {
                let color = self.get_char_color(char_byte_start, char_byte_end, line_highlights, ctx.theme);
                SpanStyle { fg: Some(color), bg: None, bold: false }
            };
            let ghost before = span_views(spans@);
            spans.push(StyledSpan { content, style });
            proof {
                assert(content@ =~= seq![ch]);
                assert(span_views(spans@) =~= before.push(want[k as int]));
                assert(want.take(k + 1) =~= want.take(k as int).push(want[k as int]));
            }
            k += 1;
        }
        assert(want.take(chars@.len() as int) =~= want);
        if ctx.show_cursor && ctx.cursor_col >= chars.len() {
            let ghost before = span_views(spans@);
            spans.push(StyledSpan { content: String::from_str(" "), style: cstyle });
            assert(span_views(spans@) =~= before.push(StyledSpanView { content: " "@, style: cstyle }));
        }
        proof {
            assert(span_views(spans@) =~= highlighted_line(ctx.line_content@, byte_offset as int,
                line_highlights@, ctx.show_cursor, ctx.cursor_col as int, *ctx.theme));
        }
        spans
    }
}


/// What the editor pane shows of the animation: the text buffer, its
/// scroll position and cursor, the highlights and line offsets of the old
/// and new file content, how far the new content has shifted the lines
/// below the cursor, and whether the cursor blinks on in the editor.
pub struct EditorState {
    pub lines: Vec<String>,
    pub scroll_offset: usize,
    pub cursor_line: usize,
    pub cursor_col: usize,
    pub cursor_visible: bool,
    pub editor_active: bool,
    pub old_highlights: Vec<HighlightSpan>,
    pub new_highlights: Vec<HighlightSpan>,
    pub old_content_line_offsets: Vec<usize>,
    pub new_content_line_offsets: Vec<usize>,
    pub line_offset: isize,
}

/// The cursor is drawn on line `line_num`.
pub open spec fn shows_cursor_on(state: EditorState, line_num: int) -> bool {
    line_num == state.cursor_line && state.cursor_visible && state.editor_active
}

/// Buffer line `line_num` holding `content` can be drawn without overflow.
pub open spec fn state_line_fits(state: EditorState, content: Seq<char>, line_num: int) -> bool {
    &&& line_num < usize::MAX
    &&& line_fits(content, line_num, state.cursor_line as int, state.line_offset as int,
            state.old_content_line_offsets@, state.new_content_line_offsets@)
}

/// A screen line of the editor: line number, a two-space separator, then
/// the highlighted text.
pub open spec fn editor_line(state: EditorState, content: Seq<char>, line_num: int, width: nat, theme: Theme)
    -> Seq<StyledSpanView> {
    seq![
        line_number_span(line_num, line_num == state.cursor_line, width, theme),
        StyledSpanView { content: "  "@, style: fg_style(theme.editor_separator) },
    ] + line_spans(content, line_num, shows_cursor_on(state, line_num), state.cursor_col as int,
        state.cursor_line as int, state.old_highlights@, state.new_highlights@,
        state.old_content_line_offsets@, state.new_content_line_offsets@, state.line_offset as int, theme)
}

impl EditorPane {
    /// One screen line of the editor (see `editor_line`).
    pub fn build_line(
        &self,
        line_content: &str,
        line_num: usize,
        line_num_width: usize,
        state: &EditorState,
        theme: &Theme,
    ) -> (line: StyledLine)
        requires
            state_line_fits(*state, line_content@, line_num as int),
        ensures
            line@ == editor_line(*state, line_content@, line_num as int, line_num_width as nat, *theme),
    {
        let is_cursor_line = line_num == state.cursor_line;
        let mut spans: Vec<StyledSpan> = Vec::new();
        spans.push(self.render_line_number(line_num, is_cursor_line, line_num_width, theme));
        spans.push(StyledSpan {
            content: String::from_str("  "),
            style: SpanStyle { fg: Some(theme.editor_separator), bg: None, bold: false },
        });
        let show_cursor = is_cursor_line && state.cursor_visible && state.editor_active;
        let ctx = HighlightContext {
            line_content,
            line_num,
            show_cursor,
            cursor_col: state.cursor_col,
            cursor_line: state.cursor_line,
            old_highlights: state.old_highlights.as_slice(),
            new_highlights: state.new_highlights.as_slice(),
            old_line_offsets: state.old_content_line_offsets.as_slice(),
            new_line_offsets: state.new_content_line_offsets.as_slice(),
            line_offset: state.line_offset,
            theme,
        };
        let mut rest = self.highlight_line(ctx);
        let ghost head = span_views(spans@);
        let ghost tail = span_views(rest@);
        spans.append(&mut rest);
        let line = StyledLine { spans };
        assert(line@ =~= head + tail);
        line
    }

    /// The spans of one line's text (see `context_spans`).
    pub fn highlight_line(&self, ctx: HighlightContext) -> (spans: Vec<StyledSpan>)
        requires
            context_fits(ctx),
        ensures
            span_views(spans@) == context_spans(ctx),
    {
        let (highlights, line_offsets) = self.select_highlights_and_offsets(
            ctx.line_num,
            ctx.cursor_line,
            ctx.old_highlights,
            ctx.new_highlights,
            ctx.old_line_offsets,
            ctx.new_line_offsets,
        );
        let byte_offset = self.calculate_byte_offset(ctx.line_num, ctx.cursor_line, ctx.line_offset, line_offsets);
        proof {
            lemma_str_len_is_utf8_width(ctx.line_content@);
        }
        let line_highlights = self.filter_line_highlights(highlights, byte_offset, ctx.line_content.len());
        self.apply_highlights(line_highlights.as_slice(), byte_offset, &ctx)
    }

    /// The line-number cell of a line (see `line_number_span`).
    pub fn render_line_number(&self, line_num: usize, is_cursor_line: bool, width: usize, theme: &Theme)
        -> (span: StyledSpan)
        requires
            line_num < usize::MAX,
        ensures
            span@ == line_number_span(line_num as int, is_cursor_line, width as nat, *theme),
    {
        let mut content = decimal_padded(line_num + 1, width);
        content.append(" ");
        let style = if is_cursor_line {
            SpanStyle { fg: Some(theme.editor_line_number_cursor), bg: None, bold: true }
        } else {
            SpanStyle { fg: Some(theme.editor_line_number), bg: None, bold: false }
        };
        StyledSpan { content, style }
    }
}


/// Rows available for text in a pane of `height` rows (one row of padding
/// above and below).
pub open spec fn content_height(height: u16) -> nat {
    if height >= 2 { (height - 2) as nat } else { 0 }
}

/// How many buffer lines are visible from the scroll position.
pub open spec fn visible_count(state: EditorState, height: u16) -> nat {
    let n = state.lines@.len();
    if state.scroll_offset >= n {
        0
    } else if n - state.scroll_offset < content_height(height) {
        (n - state.scroll_offset) as nat
    } else {
        content_height(height)
    }
}

/// Width of the line-number column: the digits of the line count, at least 3.
pub open spec fn line_number_width(line_count: nat) -> nat {
    if decimal(line_count).len() > 3 { decimal(line_count).len() } else { 3 }
}

/// The row of the cursor among the visible rows, if it is visible.
pub open spec fn selected_row(state: EditorState, count: nat) -> Option<usize> {
    if state.cursor_line >= state.scroll_offset && state.cursor_line - state.scroll_offset < count {
        Some((state.cursor_line - state.scroll_offset) as usize)
    } else {
        None
    }
}

/// Every visible line can be drawn without overflow.
pub open spec fn visible_lines_fit(state: EditorState, height: u16) -> bool {
    forall|i: int| 0 <= i < visible_count(state, height) ==> #[trigger] state_line_fits(
        state,
        state.lines@[state.scroll_offset + i]@,
        state.scroll_offset + i,
    )
}

/// The rows the editor pane shows.
pub open spec fn editor_rows(state: EditorState, height: u16, theme: Theme) -> Seq<Seq<StyledSpanView>> {
    let width = line_number_width(state.lines@.len());
    Seq::new(
        visible_count(state, height),
        |i: int| editor_line(state, state.lines@[state.scroll_offset + i]@, state.scroll_offset + i, width, theme),
    )
}

impl EditorPane {
    /// What the pane shows in a pane of `height` rows: the visible lines
    /// from the scroll position, and the row of the cursor line (selected,
    /// drawn with the cursor-line background) when it is visible.
    pub fn view_lines(&self, state: &EditorState, height: u16, theme: &Theme)
        -> (r: (Vec<StyledLine>, Option<usize>))
        requires
            visible_lines_fit(*state, height),
        ensures
            r.0@.map_values(|l: StyledLine| l@) == editor_rows(*state, height, *theme),
            r.1 == selected_row(*state, visible_count(*state, height)),
    {
        let content_height: usize = if height >= 2 { (height - 2) as usize } else { 0 };
        let n = state.lines.len();
        let mut digits = String::new();
        push_decimal(&mut digits, n as u64);
        let dlen = digits.as_str().unicode_len();
        let width = if dlen > 3 { dlen } else { 3 };
        let count: usize = if state.scroll_offset >= n {
            0
        } else if n - state.scroll_offset < content_height {
            n - state.scroll_offset
        } else {
            content_height
        };
        let ghost want = editor_rows(*state, height, *theme);
        let mut lines: Vec<StyledLine> = Vec::new();
        let mut i: usize = 0;
        while i < count
            invariant
                i <= count,
                count == visible_count(*state, height),
                count > 0 ==> state.scroll_offset + count <= state.lines.len(),
                width == line_number_width(state.lines@.len()),
                visible_lines_fit(*state, height),
                want == editor_rows(*state, height, *theme),
                lines@.map_values(|l: StyledLine| l@) == want.take(i as int),
            decreases count - i,
        {
            let line_num = state.scroll_offset + i;
            assert(state_line_fits(*state, state.lines@[state.scroll_offset + i]@, state.scroll_offset + i));
            let line = self.build_line(state.lines[line_num].as_str(), line_num, width, state, theme);
            let ghost before = lines@.map_values(|l: StyledLine| l@);
            lines.push(line);
            proof {
                assert(lines@.map_values(|l: StyledLine| l@) =~= before.push(line@));
                assert(want.take(i + 1) =~= want.take(i as int).push(want[i as int]));
            }
            i += 1;
        }
        assert(want.take(count as int) =~= want);
        let selected = if state.cursor_line >= state.scroll_offset && state.cursor_line - state.scroll_offset < count {
            Some(state.cursor_line - state.scroll_offset)
        } else {
            None
        };
        (lines, selected)
    }
}

} // verus!
