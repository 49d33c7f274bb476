//! The status pane: the loaded commit's short hash, author, date and the
//! non-blank lines of its message.

use vstd::prelude::*;
use vstd::string::{StringExecFns, StringSliceAdditionalSpecFns};
use vstd::utf8::{decode_utf8, encode_utf8, is_char_boundary};
use crate::commit::CommitMetadata;
use crate::text::{blank, is_blank, lines_of, split_lines, str_eq, string_views};
use crate::theme::{SpanStyle, StyledLine, StyledSpan, StyledSpanView, Theme, fg_style, plain_style};

verus! {

broadcast use vstd::utf8::group_utf8_lib;

/// Text of a Unix time (seconds, UTC) in a `chrono` format pattern, `None`
/// when `chrono` cannot represent the time.
pub uninterp spec fn utc_timestamp_text(secs: i64, pattern: Seq<char>) -> Option<Seq<char>>;

/// Formats a Unix time in UTC with `chrono`: calls
/// `chrono::DateTime::from_timestamp(secs, 0)` and, when it gives a date,
/// `DateTime::format(pattern)` rendered with `to_string`. The contract
/// claims only that the result is a function of `secs` and `pattern`. The
/// pattern is the date pattern, whose specifiers chrono all knows (an
/// unknown specifier makes the rendering panic).
#[verifier::external_body]
fn format_utc_timestamp(secs: i64, pattern: &str) -> (r: Option<String>)
    requires
        pattern@ == date_pattern(),
    ensures
        match r {
            Some(t) => utc_timestamp_text(secs, pattern@) == Some(t@),
            None => utc_timestamp_text(secs, pattern@) is None,
        },
{
    match chrono::DateTime::from_timestamp(secs, 0) {
        Some(d) => Some(d.format(pattern).to_string()),
        None => None,
    }
}

/// The pattern of the commit date: `2024-01-01 00:00:00`.
pub open spec fn date_pattern() -> Seq<char> {
    "%Y-%m-%d %H:%M:%S"@
}

/// The status pane (it keeps no state of its own).
pub struct StatusBarPane;

/// The hash shown for a commit: at most its first 7 bytes, `working` for
/// the working tree.
pub open spec fn short_hash_bytes(hash: Seq<char>) -> Seq<u8> {
    let bytes = encode_utf8(hash);
    if bytes.len() < 7 {
        bytes
    } else {
        bytes.take(7)
    }
}

/// The first 7 bytes of the hash end on a character boundary (hashes are
/// ASCII in practice; cutting inside a character is not possible).
pub open spec fn hash_cut_ok(hash: Seq<char>) -> bool {
    let bytes = encode_utf8(hash);
    is_char_boundary(bytes, if bytes.len() < 7 { bytes.len() as int } else { 7 })
}

/// The message lines shown: all non-blank lines.
pub open spec fn shown_message_lines(message: Seq<char>) -> Seq<Seq<char>> {
    lines_of(message).filter(|l: Seq<char>| !is_blank(l))
}

/// A label followed by a coloured value.
pub open spec fn labelled(label: Seq<char>, value: Seq<char>, style: SpanStyle) -> Seq<StyledSpanView> {
    seq![
        StyledSpanView { content: label, style: plain_style() },
        StyledSpanView { content: value, style },
    ]
}

/// The pane's lines for a loaded commit, given the hash shown and the date
/// text: `hash: …`, `author: …`, then `date: …` unless it is the working
/// tree, then each non-blank message line.
pub open spec fn commit_status_lines(
    hash_shown: Seq<char>,
    is_working_tree: bool,
    author: Seq<char>,
    date_text: Seq<char>,
    message: Seq<char>,
    theme: Theme,
) -> Seq<Seq<StyledSpanView>> {
    seq![
        labelled("hash: "@, hash_shown, fg_style(theme.status_hash)),
        labelled("author: "@, author, fg_style(theme.status_author)),
    ] + (if is_working_tree {
        Seq::empty()
    } else {
        seq![labelled("date: "@, date_text, fg_style(theme.status_date))]
    }) + shown_message_lines(message).map_values(
        |l: Seq<char>| seq![StyledSpanView { content: l, style: fg_style(theme.status_message) }],
    )
}

/// The hash shown: `working` for the working tree, else the text of the
/// hash's first 7 bytes.
pub open spec fn shown_hash(hash: Seq<char>) -> Seq<char> {
    if hash == "working-tree"@ {
        "working"@
    } else {
        decode_utf8(short_hash_bytes(hash))
    }
}

/// `lines` show the commit `m` with `date_text` as its date.
pub open spec fn shows_commit(lines: Seq<Seq<StyledSpanView>>, m: CommitMetadata, date_text: Seq<char>, theme: Theme) -> bool {
    lines == commit_status_lines(shown_hash(m.hash@), m.hash@ == "working-tree"@, m.author@, date_text, m.message@, theme)
}

/// The date text of a commit time: `chrono`'s rendering in `date_pattern()`,
/// empty when `chrono` cannot represent the time.
pub open spec fn commit_date_text(secs: i64) -> Seq<char> {
    match utc_timestamp_text(secs, date_pattern()) {
        Some(t) => t,
        None => Seq::empty(),
    }
}

/// The placeholder line when no commit is loaded.
pub open spec fn no_commit_lines(theme: Theme) -> Seq<Seq<StyledSpanView>> {
    seq![seq![StyledSpanView { content: "No commit loaded"@, style: fg_style(theme.status_no_commit) }]]
}

/// Views of a sequence of lines.
pub open spec fn lines_view(v: Seq<StyledLine>) -> Seq<Seq<StyledSpanView>> {
    v.map_values(|l: StyledLine| l@)
}

fn labelled_line(label: &str, value: String, style: SpanStyle) -> (l: StyledLine)
    ensures
        l@ == labelled(label@, value@, style),
{
    let mut spans: Vec<StyledSpan> = Vec::new();
    spans.push(StyledSpan { content: String::from_str(label), style: SpanStyle { fg: None, bg: None, bold: false } });
    spans.push(StyledSpan { content: value, style });
    let l = StyledLine { spans };
    assert(l@ =~= labelled(label@, value@, style));
    l
}

impl StatusBarPane {
    /// The hash shown for a commit (see `short_hash_bytes`).
    pub fn short_hash(&self, hash: &str) -> (r: String)
        requires
            hash_cut_ok(hash@),
        ensures
            encode_utf8(r@) == short_hash_bytes(hash@),
            r@ == decode_utf8(short_hash_bytes(hash@)),
    {
        let n = hash.as_bytes().len();
        let k = if n < 7 { n } else { 7 };
        let (head, _) = hash.split_at(k);
        let r = head.to_owned();
        assert(encode_utf8(r@) =~= short_hash_bytes(hash@));
        r
    }

    /// The pane's lines for `metadata` given the text of its date (see
    /// `commit_status_lines`), or the placeholder.
    pub fn lines_with_date(&self, metadata: Option<&CommitMetadata>, date_text: &str, theme: &Theme)
        -> (r: Vec<StyledLine>)
        requires
            metadata matches Some(m) ==> (m.hash@ != "working-tree"@ ==> hash_cut_ok(m.hash@)),
        ensures
            match metadata {
                Some(m) => shows_commit(lines_view(r@), *m, date_text@, *theme),
                None => lines_view(r@) == no_commit_lines(*theme),
            },
    {
        let mut lines: Vec<StyledLine> = Vec::new();
        match metadata {
            None => {
                let mut spans: Vec<StyledSpan> = Vec::new();
                spans.push(StyledSpan {
                    content: String::from_str("No commit loaded"),
                    style: SpanStyle { fg: Some(theme.status_no_commit), bg: None, bold: false },
                });
                lines.push(StyledLine { spans });
                assert(lines@[0]@ =~= no_commit_lines(*theme)[0]);
                assert(lines_view(lines@) =~= no_commit_lines(*theme));
                lines
            },
            Some(meta) => {
                let is_working_tree = str_eq(meta.hash.as_str(), "working-tree");
                let shown = if is_working_tree {
                    String::from_str("working")
                } else {
                    self.short_hash(meta.hash.as_str())
                };
                let ghost shown_view = shown@;
                lines.push(labelled_line("hash: ", shown, SpanStyle { fg: Some(theme.status_hash), bg: None, bold: false }));
                lines.push(labelled_line("author: ", String::from_str(meta.author.as_str()),
                    SpanStyle { fg: Some(theme.status_author), bg: None, bold: false }));
                if !is_working_tree {
                    lines.push(labelled_line("date: ", String::from_str(date_text),
                        SpanStyle { fg: Some(theme.status_date), bg: None, bold: false }));
                }
                let ghost head = lines_view(lines@);
                let ghost keep = |l: Seq<char>| !is_blank(l);
                let ghost as_line = |l: Seq<char>| seq![StyledSpanView { content: l, style: fg_style(theme.status_message) }];
                let msg = split_lines(meta.message.as_str());
                let mut i: usize = 0;
                while i < msg.len()
                    invariant
                        i <= msg@.len(),
                        string_views(msg@) == lines_of(meta.message@),
                        keep == (|l: Seq<char>| !is_blank(l)),
                        as_line == (|l: Seq<char>| seq![StyledSpanView { content: l, style: fg_style(theme.status_message) }]),
                        lines_view(lines@) == head + string_views(msg@).take(i as int).filter(keep).map_values(as_line),
                    decreases msg@.len() - i,
                {
                    let ghost prefix = string_views(msg@).take(i as int);
                    proof {
                        assert(string_views(msg@).take(i + 1) =~= prefix.push(msg@[i as int]@));
                        prefix.lemma_filter_push(msg@[i as int]@, keep);
                    }
                    if !blank(msg[i].as_str()) {
                        let mut spans: Vec<StyledSpan> = Vec::new();
                        spans.push(StyledSpan {
                            content: String::from_str(msg[i].as_str()),
                            style: SpanStyle { fg: Some(theme.status_message), bg: None, bold: false },
                        });
                        let line = StyledLine { spans };
                        let ghost before = lines_view(lines@);
                        lines.push(line);
                        proof {
                            assert(line@ =~= as_line(msg@[i as int]@));
                            assert(lines_view(lines@) =~= before.push(line@));
                            assert(prefix.filter(keep).push(msg@[i as int]@).map_values(as_line)
                                =~= prefix.filter(keep).map_values(as_line).push(as_line(msg@[i as int]@)));
                        }
                    }
                    i += 1;
                }
                proof {
                    assert(string_views(msg@).take(msg@.len() as int) =~= string_views(msg@));
                    let wt = meta.hash@ == "working-tree"@;
                    assert(lines_view(lines@) =~= commit_status_lines(shown_view, wt, meta.author@, date_text@,
                        meta.message@, *theme));
                    assert(shown_view == shown_hash(meta.hash@));
                    assert(shows_commit(lines_view(lines@), *meta, date_text@, *theme));
                }
                lines
            },
        }
    }

    /// The pane's lines for `metadata`; the date is `chrono`'s rendering of
    /// the commit time in `date_pattern()` (an empty date when `chrono`
    /// cannot represent the time).
    pub fn view_lines(&self, metadata: Option<&CommitMetadata>, theme: &Theme) -> (r: Vec<StyledLine>)
        requires
            metadata matches Some(m) ==> (m.hash@ != "working-tree"@ ==> hash_cut_ok(m.hash@)),
        ensures
            match metadata {
                Some(m) => shows_commit(lines_view(r@), *m, commit_date_text(m.date), *theme),
                None => lines_view(r@) == no_commit_lines(*theme),
            },
    {
        match metadata {
            Some(m) => {
                proof {
                    reveal_strlit("%Y-%m-%d %H:%M:%S");
                }
                let date = match format_utc_timestamp(m.date, "%Y-%m-%d %H:%M:%S") {
                    Some(t) => t,
                    None => String::new(),
                };
                assert(date@ == match utc_timestamp_text(m.date, date_pattern()) {
                    Some(t) => t,
                    None => Seq::<char>::empty(),
                });
                self.lines_with_date(metadata, date.as_str(), theme)
            },
            None => self.lines_with_date(metadata, "", theme),
        }
    }
}

} // verus!
