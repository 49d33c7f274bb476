//! The terminal pane: the last lines of the simulated terminal that fit,
//! commands (`~ ` lines) and their output in different colours, and the
//! cursor after the last command while the terminal is active.

use vstd::prelude::*;
use vstd::string::StringExecFns;
use crate::editor::content_height;
use crate::text::string_views;
use crate::theme::{SpanStyle, StyledLine, StyledSpan, StyledSpanView, Theme, fg_style};

verus! {

/// The terminal pane (it keeps no state of its own).
pub struct TerminalPane;

/// A command line starts with `"~ "`.
pub open spec fn is_command(line: Seq<char>) -> bool {
    line.len() >= 2 && line[0] == '~' && line[1] == ' '
}

/// The style of the terminal cursor cell.
pub open spec fn terminal_cursor_style(theme: Theme) -> SpanStyle {
    SpanStyle { fg: Some(theme.terminal_cursor_fg), bg: Some(theme.terminal_cursor_bg), bold: true }
}

/// How one terminal line is drawn.
pub open spec fn terminal_line(line: Seq<char>, show_cursor: bool, theme: Theme) -> Seq<StyledSpanView> {
    if is_command(line) {
        seq![StyledSpanView { content: line, style: fg_style(theme.terminal_command) }] + if show_cursor {
            seq![StyledSpanView { content: " "@, style: terminal_cursor_style(theme) }]
        } else {
            Seq::empty()
        }
    } else {
        seq![StyledSpanView { content: line, style: fg_style(theme.terminal_output) }]
    }
}

/// Index of the first terminal line shown: the last lines that fit.
pub open spec fn first_shown(total: nat, height: u16) -> nat {
    if total > content_height(height) { (total - content_height(height)) as nat } else { 0 }
}

/// What the pane shows in `height` rows: the last lines that fit, the
/// cursor on the last line when it blinks on in the active terminal; a
/// single empty line when there is no output.
pub open spec fn terminal_rows(
    lines: Seq<Seq<char>>,
    cursor_visible: bool,
    terminal_active: bool,
    height: u16,
    theme: Theme,
) -> Seq<Seq<StyledSpanView>> {
    let total = lines.len();
    if total == 0 {
        seq![Seq::empty()]
    } else {
        let start = first_shown(total, height);
        Seq::new(
            (total - start) as nat,
            |i: int| terminal_line(lines[start + i], start + i == total - 1 && cursor_visible && terminal_active, theme),
        )
    }
}

/// The cursor cell shows only while it blinks on in the active terminal,
/// and only after the last line: with the cursor off or the terminal
/// inactive every row is at most one span and no span has a background;
/// whatever the cursor, every row but the last is at most one span; with
/// the cursor on in the active terminal, room for a row and a command as
/// the last line, the last row is that command in the command colour followed by a blank
/// cell in the cursor colours.
pub proof fn lemma_terminal_cursor(
    lines: Seq<Seq<char>>,
    cursor_visible: bool,
    terminal_active: bool,
    height: u16,
    theme: Theme,
)
    ensures
        ({
            let rows = terminal_rows(lines, cursor_visible, terminal_active, height, theme);
            &&& !(cursor_visible && terminal_active) ==> forall|k: int|
                0 <= k < rows.len() ==> #[trigger] rows[k].len() <= 1 && forall|s: int|
                    0 <= s < rows[k].len() ==> (#[trigger] rows[k][s]).style.bg is None
            &&& forall|k: int| 0 <= k < rows.len() - 1 ==> #[trigger] rows[k].len() <= 1
            &&& (cursor_visible && terminal_active && height > 2 && lines.len() > 0 && is_command(
                lines.last(),
            )) ==> rows.last() == seq![
                StyledSpanView {
                    content: lines.last(),
                    style: SpanStyle { fg: Some(theme.terminal_command), bg: None, bold: false },
                },
                StyledSpanView {
                    content: seq![' '],
                    style: SpanStyle {
                        fg: Some(theme.terminal_cursor_fg),
                        bg: Some(theme.terminal_cursor_bg),
                        bold: true,
                    },
                },
            ]
        }),
{
    reveal_strlit(" ");
    let rows = terminal_rows(lines, cursor_visible, terminal_active, height, theme);
    let total = lines.len();
    if total > 0 {
        let start = first_shown(total, height);
        assert(rows.len() == total - start);
        if cursor_visible && terminal_active && height > 2 && is_command(lines.last()) {
            assert(start < total);
            assert(" "@ =~= seq![' ']);
            assert(rows.last() == terminal_line(lines[total - 1], true, theme));
            assert(rows.last() =~= seq![
                StyledSpanView {
                    content: lines.last(),
                    style: SpanStyle { fg: Some(theme.terminal_command), bg: None, bold: false },
                },
                StyledSpanView {
                    content: seq![' '],
                    style: SpanStyle {
                        fg: Some(theme.terminal_cursor_fg),
                        bg: Some(theme.terminal_cursor_bg),
                        bold: true,
                    },
                },
            ]);
        }
    }
}

impl TerminalPane {
    /// The lines the pane shows (see `terminal_rows`).
    pub fn view_lines(
        &self,
        terminal_lines: &Vec<String>,
        cursor_visible: bool,
        terminal_active: bool,
        height: u16,
        theme: &Theme,
    ) -> (r: Vec<StyledLine>)
        ensures
            r@.map_values(|l: StyledLine| l@) == terminal_rows(
                string_views(terminal_lines@),
                cursor_visible,
                terminal_active,
                height,
                *theme,
            ),
    {
        let ghost want = terminal_rows(string_views(terminal_lines@), cursor_visible, terminal_active, height, *theme);
        let mut out: Vec<StyledLine> = Vec::new();
        let total = terminal_lines.len();
        if total == 0 {
            out.push(StyledLine { spans: Vec::new() });
            assert(out@[0]@ =~= Seq::<StyledSpanView>::empty());
            assert(out@.map_values(|l: StyledLine| l@) =~= want);
            return out;
        }
        let h: usize = if height >= 2 { (height - 2) as usize } else { 0 };
        let start = if total > h { total - h } else { 0 };
        let mut idx: usize = start;
        while idx < total
            invariant
                start <= idx <= total,
                total == terminal_lines@.len(),
                total > 0,
                start == first_shown(total as nat, height),
                want == terminal_rows(string_views(terminal_lines@), cursor_visible, terminal_active, height, *theme),
                out@.map_values(|l: StyledLine| l@) == want.take(idx - start),
            decreases total - idx,
        {
            let line = &terminal_lines[idx];
            let chars = crate::text::chars_of(line.as_str());
            let command = chars.len() >= 2 && chars[0] == '~' && chars[1] == ' ';
            let show_cursor = idx == total - 1 && cursor_visible && terminal_active;
            let mut spans: Vec<StyledSpan> = Vec::new();
            if command {
                spans.push(StyledSpan {
                    content: String::from_str(line.as_str()),
                    style: SpanStyle { fg: Some(theme.terminal_command), bg: None, bold: false },
                });
                if show_cursor {
                    spans.push(StyledSpan {
                        content: String::from_str(" "),
                        style: SpanStyle { fg: Some(theme.terminal_cursor_fg), bg: Some(theme.terminal_cursor_bg), bold: true },
                    });
                }
            } else {
                spans.push(StyledSpan {
                    content: String::from_str(line.as_str()),
                    style: SpanStyle { fg: Some(theme.terminal_output), bg: None, bold: false },
                });
            }
            let l = StyledLine { spans };
            let ghost before = out@.map_values(|l: StyledLine| l@);
            out.push(l);
            proof {
                let k = idx - start;
                assert(string_views(terminal_lines@)[idx as int] == line@);
                assert(l@ =~= want[k as int]);
                assert(out@.map_values(|l: StyledLine| l@) =~= before.push(l@));
                assert(want.take(k + 1) =~= want.take(k as int).push(want[k as int]));
            }
            idx += 1;
        }
        assert(want.take(total - start) =~= want);
        out
    }
}

} // verus!
