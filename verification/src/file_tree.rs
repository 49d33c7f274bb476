//! The file-tree pane: the changed files of a commit grouped by
//! directory, directories in name order, files in name order within their
//! directory, each with its status marker and line statistics.

use vstd::prelude::*;
use vstd::string::StringExecFns;
use crate::commit::{
    CommitMetadata, FileChange, FileStatus, LineChangeType, count_kind_in_hunks,
    count_lines_of_kind, line_counts_fit, line_total,
};
use crate::theme::{
    Color, SpanStyle, StyledLine, StyledSpan, StyledSpanView, Theme, fg_bold_style, fg_style,
    plain_style, style_fg, style_fg_bold,
};
use crate::text::{
    decimal, push_char, push_decimal,
    chars_less, chars_of, find_last, last_index_of, lemma_seq_lt_irreflexive,
    lemma_seq_lt_total, lemma_seq_lt_transitive, seq_lt, string_from_prefix,
    string_from_range,
};

verus! {

/// A changed file placed in the tree: its directory (empty at the root),
/// file name, position in the commit's change list, status and counts of
/// added and deleted lines.
pub struct FileEntry {
    pub dir: String,
    pub name: String,
    pub index: usize,
    pub status: FileStatus,
    pub additions: usize,
    pub deletions: usize,
}

/// Mathematical form of a `FileEntry`.
pub struct FileEntryView {
    pub dir: Seq<char>,
    pub name: Seq<char>,
    pub index: int,
    pub status: FileStatus,
    pub additions: nat,
    pub deletions: nat,
}

impl View for FileEntry {
    type V = FileEntryView;

    open spec fn view(&self) -> FileEntryView {
        FileEntryView {
            dir: self.dir@,
            name: self.name@,
            index: self.index as int,
            status: self.status,
            additions: self.additions as nat,
            deletions: self.deletions as nat,
        }
    }
}

/// The directory part of a path: everything before its last `/`.
pub open spec fn dir_of(path: Seq<char>) -> Seq<char> {
    let k = last_index_of(path, '/');
    if k < 0 {
        Seq::empty()
    } else {
        path.take(k)
    }
}

/// The file-name part of a path: everything after its last `/`.
pub open spec fn name_of(path: Seq<char>) -> Seq<char> {
    let k = last_index_of(path, '/');
    if k < 0 {
        path
    } else {
        path.skip(k + 1)
    }
}

/// The tree entry of the change at position `i`.
pub open spec fn entry_of(c: FileChange, i: int) -> FileEntryView {
    FileEntryView {
        dir: dir_of(c.path@),
        name: name_of(c.path@),
        index: i,
        status: c.status,
        additions: count_kind_in_hunks(c.hunks@, LineChangeType::Addition),
        deletions: count_kind_in_hunks(c.hunks@, LineChangeType::Deletion),
    }
}

/// Listing order: by directory, then file name, then position in the commit.
pub open spec fn entry_lt(a: FileEntryView, b: FileEntryView) -> bool {
    ||| seq_lt(a.dir, b.dir)
    ||| a.dir == b.dir && seq_lt(a.name, b.name)
    ||| a.dir == b.dir && a.name == b.name && a.index < b.index
}

/// Some entry of `es` is the change at position `i`.
pub open spec fn lists_index(es: Seq<FileEntryView>, i: int) -> bool {
    exists|j: int| 0 <= j < es.len() && #[trigger] es[j].index == i
}

/// `es` lists the entries of all `changes`, each once, in listing order.
pub open spec fn is_listing(es: Seq<FileEntryView>, changes: Seq<FileChange>) -> bool {
    &&& es.len() == changes.len()
    &&& forall|j: int| 0 <= j < es.len() ==> 0 <= #[trigger] es[j].index < changes.len()
            && es[j] == entry_of(changes[es[j].index], es[j].index)
    &&& forall|i: int| 0 <= i < changes.len() ==> #[trigger] lists_index(es, i)
    &&& forall|a: int, b: int| 0 <= a < b < es.len() ==> entry_lt(es[a], es[b])
}

/// A listing shows every changed file exactly once: no two rows are the
/// same change.
pub proof fn lemma_listing_shows_each_file_once(es: Seq<FileEntryView>, changes: Seq<FileChange>)
    requires
        is_listing(es, changes),
    ensures
        forall|a: int, b: int| 0 <= a < b < es.len() ==> es[a].index != es[b].index,
{
    assert forall|a: int, b: int| 0 <= a < b < es.len() implies es[a].index != es[b].index by {
        if es[a].index == es[b].index {
            lemma_entry_lt_total(es[a], es[b]);
            assert(es[a] == es[b]);
        }
    }
}

/// Views of a sequence of entries.
pub open spec fn entry_views(v: Seq<FileEntry>) -> Seq<FileEntryView> {
    v.map_values(|e: FileEntry| e@)
}

proof fn lemma_entry_lt_total(a: FileEntryView, b: FileEntryView)
    ensures
        a.index != b.index ==> entry_lt(a, b) || entry_lt(b, a),
        !(entry_lt(a, b) && entry_lt(b, a)),
        !entry_lt(a, a),
{
    lemma_seq_lt_total(a.dir, b.dir);
    lemma_seq_lt_total(a.name, b.name);
    lemma_seq_lt_irreflexive(a.dir);
    lemma_seq_lt_irreflexive(a.name);
    lemma_seq_lt_irreflexive(b.dir);
    lemma_seq_lt_irreflexive(b.name);
}

proof fn lemma_entry_lt_transitive(a: FileEntryView, b: FileEntryView, c: FileEntryView)
    requires
        entry_lt(a, b),
        entry_lt(b, c),
    ensures
        entry_lt(a, c),
{
    if seq_lt(a.dir, b.dir) && seq_lt(b.dir, c.dir) {
        lemma_seq_lt_transitive(a.dir, b.dir, c.dir);
    }
    if a.dir == b.dir && b.dir == c.dir && seq_lt(a.name, b.name) && seq_lt(b.name, c.name) {
        lemma_seq_lt_transitive(a.name, b.name, c.name);
    }
}

/// The tree entry of one change.
fn entry_for(change: &FileChange, index: usize) -> (e: FileEntry)
    requires
        line_total(change.hunks@) <= usize::MAX,
    ensures
        e@ == entry_of(*change, index as int),
{
    let path = chars_of(change.path.as_str());
    let (dir, name) = match find_last(&path, '/') {
        Some(k) => (string_from_prefix(&path, k), string_from_range(&path, k + 1, path.len())),
        None => (String::new(), string_from_prefix(&path, path.len())),
    };
    proof {
        assert(path@.take(path@.len() as int) =~= path@);
        let k = last_index_of(path@, '/');
        if k >= 0 {
            assert(path@.subrange(k + 1, path@.len() as int) =~= path@.skip(k + 1));
        }
    }
    FileEntry {
        dir,
        name,
        index,
        status: change.status,
        additions: count_lines_of_kind(&change.hunks, LineChangeType::Addition),
        deletions: count_lines_of_kind(&change.hunks, LineChangeType::Deletion),
    }
}

/// `entry_lt` on two entries.
fn entry_less(a: &FileEntry, b: &FileEntry) -> (r: bool)
    ensures
        r == entry_lt(a@, b@),
{
    let ad = chars_of(a.dir.as_str());
    let bd = chars_of(b.dir.as_str());
    if chars_less(&ad, &bd) {
        return true;
    }
    if chars_less(&bd, &ad) {
        proof {
            lemma_seq_lt_total(a.dir@, b.dir@);
            lemma_seq_lt_irreflexive(a.dir@);
        }
        return false;
    }
    proof {
        lemma_seq_lt_total(a.dir@, b.dir@);
    }
    let an = chars_of(a.name.as_str());
    let bn = chars_of(b.name.as_str());
    if chars_less(&an, &bn) {
        return true;
    }
    if chars_less(&bn, &an) {
        proof {
            lemma_seq_lt_total(a.name@, b.name@);
            lemma_seq_lt_irreflexive(a.name@);
        }
        return false;
    }
    proof {
        lemma_seq_lt_total(a.name@, b.name@);
    }
    a.index < b.index
}

/// The entries of all changed files in listing order.
pub fn sorted_entries(metadata: &CommitMetadata) -> (es: Vec<FileEntry>)
    requires
        line_counts_fit(metadata.changes@),
    ensures
        is_listing(entry_views(es@), metadata.changes@),
{
    let changes = &metadata.changes;
    let mut out: Vec<FileEntry> = Vec::new();
    let mut i: usize = 0;
    while i < changes.len()
        invariant
            i <= changes@.len(),
            changes@ == metadata.changes@,
            line_counts_fit(changes@),
            out@.len() == i,
            forall|j: int| 0 <= j < out@.len() ==> 0 <= #[trigger] entry_views(out@)[j].index < i
                && entry_views(out@)[j] == entry_of(changes@[entry_views(out@)[j].index], entry_views(out@)[j].index),
            forall|t: int| 0 <= t < i ==> #[trigger] lists_index(entry_views(out@), t),
            forall|a: int, b: int| 0 <= a < b < out@.len() ==> entry_lt(entry_views(out@)[a], entry_views(out@)[b]),
        decreases changes@.len() - i,
    {
        proof {
            assert(line_total(changes@[i as int].hunks@) <= usize::MAX);
        }
        let x = entry_for(&changes[i], i);
        let mut p: usize = 0;
        while p < out.len() && !entry_less(&x, &out[p])
            invariant
                p <= out@.len(),
                forall|j: int| 0 <= j < p ==> !entry_lt(x@, #[trigger] entry_views(out@)[j]),
            decreases out@.len() - p,
        {
            p += 1;
        }
        let ghost old_v = entry_views(out@);
        proof {
            assert forall|j: int| 0 <= j < p implies entry_lt(#[trigger] old_v[j], x@) by {
                lemma_entry_lt_total(old_v[j], x@);
            }
            assert forall|j: int| p <= j < old_v.len() implies entry_lt(x@, #[trigger] old_v[j]) by {
                if j > p {
                    lemma_entry_lt_transitive(x@, old_v[p as int], old_v[j]);
                }
            }
        }
        out.insert(p, x);
        proof {
            let v = entry_views(out@);
            assert(v =~= old_v.insert(p as int, x@));
            assert forall|a: int, b: int| 0 <= a < b < v.len() implies entry_lt(v[a], v[b]) by {
                if a < p && b > p {
                    lemma_entry_lt_transitive(old_v[a], x@, old_v[b - 1]);
                }
            }
            assert forall|t: int| 0 <= t < i + 1 implies #[trigger] lists_index(v, t) by {
                if t == i {
                    assert(v[p as int].index == t);
                } else {
                    assert(lists_index(old_v, t));
                    let j = choose|j: int| 0 <= j < old_v.len() && #[trigger] old_v[j].index == t;
                    if j < p {
                        assert(v[j].index == t);
                    } else {
                        assert(v[j + 1].index == t);
                    }
                }
            }
        }
        i += 1;
    }
    out
}


/// A row of the file tree: a directory header or a file.
pub enum TreeRow {
    Directory { path: String },
    File {
        index: usize,
        indented: bool,
        status: FileStatus,
        name: String,
        additions: usize,
        deletions: usize,
    },
}

/// Mathematical form of a `TreeRow`.
pub enum TreeRowView {
    Directory { path: Seq<char> },
    File {
        index: int,
        indented: bool,
        status: FileStatus,
        name: Seq<char>,
        additions: nat,
        deletions: nat,
    },
}

impl View for TreeRow {
    type V = TreeRowView;

    open spec fn view(&self) -> TreeRowView {
        match self {
            TreeRow::Directory { path } => TreeRowView::Directory { path: path@ },
            TreeRow::File { index, indented, status, name, additions, deletions } => TreeRowView::File {
                index: *index as int,
                indented: *indented,
                status: *status,
                name: name@,
                additions: *additions as nat,
                deletions: *deletions as nat,
            },
        }
    }
}

/// Views of a sequence of rows.
pub open spec fn row_views(v: Seq<TreeRow>) -> Seq<TreeRowView> {
    v.map_values(|r: TreeRow| r@)
}

/// The row of a file entry; files inside a directory are indented.
pub open spec fn file_row(e: FileEntryView) -> TreeRowView {
    TreeRowView::File {
        index: e.index,
        indented: e.dir.len() > 0,
        status: e.status,
        name: e.name,
        additions: e.additions,
        deletions: e.deletions,
    }
}

/// The rows of a listing: each file after a header for its directory when
/// the directory changes (the top-level directory has no header).
pub open spec fn rows_of(es: Seq<FileEntryView>) -> Seq<TreeRowView>
    decreases es.len(),
{
    if es.len() == 0 {
        Seq::empty()
    } else {
        let e = es.last();
        let rest = es.drop_last();
        let opens_dir = rest.len() == 0 || rest.last().dir != e.dir;
        let header = if opens_dir && e.dir.len() > 0 {
            seq![TreeRowView::Directory { path: e.dir }]
        } else {
            Seq::empty()
        };
        rows_of(rest) + header + seq![file_row(e)]
    }
}

/// Position of the row of the file at commit position `index`, if listed.
pub open spec fn row_of_file(rows: Seq<TreeRowView>, index: int) -> Option<int>
    decreases rows.len(),
{
    if rows.len() == 0 {
        None
    } else if rows.last() matches TreeRowView::File { index: i, .. } && i == index {
        Some(rows.len() - 1)
    } else {
        row_of_file(rows.drop_last(), index)
    }
}

proof fn lemma_row_of_file_push(rows: Seq<TreeRowView>, r: TreeRowView, index: int)
    ensures
        row_of_file(rows.push(r), index) == if r matches TreeRowView::File { index: i, .. } && i == index {
            Some(rows.len() as int)
        } else {
            row_of_file(rows, index)
        },
{
    assert(rows.push(r).drop_last() =~= rows);
}

proof fn lemma_row_of_file_bound(rows: Seq<TreeRowView>, index: int)
    ensures
        row_of_file(rows, index) matches Some(k) ==> 0 <= k < rows.len(),
    decreases rows.len(),
{
    if rows.len() > 0 {
        lemma_row_of_file_bound(rows.drop_last(), index);
    }
}

/// `cur` is the position `row_of_file` finds.
pub open spec fn is_row_of_file(cur: Option<usize>, rows: Seq<TreeRowView>, index: int) -> bool {
    match cur {
        Some(k) => row_of_file(rows, index) == Some(k as int),
        None => row_of_file(rows, index) is None,
    }
}

impl FileEntry {
    fn to_row(&self) -> (r: TreeRow)
        ensures
            r@ == file_row(self@),
    {
        let indented = self.dir.as_str().unicode_len() > 0;
        TreeRow::File {
            index: self.index,
            indented,
            status: self.status,
            name: String::from_str(self.name.as_str()),
            additions: self.additions,
            deletions: self.deletions,
        }
    }
}

/// The rows of the file tree of a commit, with the position of the row of
/// the file at `current_file_index` (`None` when there is no such file).
pub fn tree_rows(metadata: &CommitMetadata, current_file_index: usize) -> (r: (Vec<TreeRow>, Option<usize>))
    requires
        line_counts_fit(metadata.changes@),
    ensures
        exists|es: Seq<FileEntryView>| #[trigger] is_listing(es, metadata.changes@)
            && row_views(r.0@) == rows_of(es),
        is_row_of_file(r.1, row_views(r.0@), current_file_index as int),
{
    let es = sorted_entries(metadata);
    let mut rows: Vec<TreeRow> = Vec::new();
    let mut current: Option<usize> = None;
    let mut i: usize = 0;
    while i < es.len()
        invariant
            i <= es@.len(),
            row_views(rows@) == rows_of(entry_views(es@).take(i as int)),
            is_row_of_file(current, row_views(rows@), current_file_index as int),
        decreases es@.len() - i,
    {
        let ghost prefix = entry_views(es@).take(i as int);
        let ghost e = es@[i as int]@;
        proof {
            assert(entry_views(es@).take(i + 1).drop_last() =~= prefix);
            assert(entry_views(es@).take(i + 1).last() == e);
        }
        let opens_dir = if i == 0 {
            true
        } else {
            let a = chars_of(es[i - 1].dir.as_str());
            let b = chars_of(es[i].dir.as_str());
            proof {
                assert(prefix.last() == es@[i - 1]@);
            }
            !crate::text::chars_equal(&a, &b)
        };
        if opens_dir && es[i].dir.as_str().unicode_len() > 0 {
            let ghost before = rows@;
            rows.push(TreeRow::Directory { path: String::from_str(es[i].dir.as_str()) });
            proof {
                assert(row_views(rows@) =~= row_views(before).push(TreeRowView::Directory { path: e.dir }));
                lemma_row_of_file_push(row_views(before), TreeRowView::Directory { path: e.dir }, current_file_index as int);
            }
        }
        let ghost before = rows@;
        let is_current = es[i].index == current_file_index;
        let pos = rows.len();
        rows.push(es[i].to_row());
        proof {
            assert(row_views(rows@) =~= row_views(before).push(file_row(e)));
            lemma_row_of_file_push(row_views(before), file_row(e), current_file_index as int);
            assert(rows_of(entry_views(es@).take(i + 1)) =~= row_views(rows@));
        }
        if is_current {
            current = Some(pos);
        }
        i += 1;
    }
    proof {
        assert(entry_views(es@).take(es@.len() as int) =~= entry_views(es@));
    }
    (rows, current)
}

/// The status marker of a file: `+` added, `-` deleted, `~` modified,
/// `>` renamed, blank otherwise.
pub open spec fn status_marker(status: FileStatus) -> char {
    match status {
        FileStatus::Added => '+',
        FileStatus::Deleted => '-',
        FileStatus::Modified => '~',
        FileStatus::Renamed => '>',
        _ => ' ',
    }
}

/// The colour of a status marker.
pub open spec fn status_color(status: FileStatus, theme: Theme) -> Color {
    match status {
        FileStatus::Added => theme.file_tree_added,
        FileStatus::Deleted => theme.file_tree_deleted,
        FileStatus::Modified => theme.file_tree_modified,
        FileStatus::Renamed => theme.file_tree_renamed,
        _ => theme.file_tree_default,
    }
}

/// How a row is drawn. A directory: `dir/` in bold. A file: indentation,
/// status marker, name (bold in the current-file colour for the current
/// file), ` +additions` and ` -deletions`.
pub open spec fn row_line(row: TreeRowView, current: int, theme: Theme) -> Seq<StyledSpanView> {
    match row {
        TreeRowView::Directory { path } => seq![
            StyledSpanView { content: path + "/"@, style: fg_bold_style(theme.file_tree_directory) },
        ],
        TreeRowView::File { index, indented, status, name, additions, deletions } => seq![
            StyledSpanView { content: if indented { "  "@ } else { Seq::empty() }, style: plain_style() },
            StyledSpanView { content: seq![status_marker(status), ' '], style: fg_bold_style(status_color(status, theme)) },
            StyledSpanView {
                content: name,
                style: if index == current {
                    fg_bold_style(theme.file_tree_current_file_fg)
                } else {
                    fg_style(theme.file_tree_default)
                },
            },
            StyledSpanView { content: " +"@ + decimal(additions), style: fg_style(theme.file_tree_stats_added) },
            StyledSpanView { content: " -"@ + decimal(deletions), style: fg_style(theme.file_tree_stats_deleted) },
        ],
    }
}

/// Views of a sequence of lines.
pub open spec fn line_views(v: Seq<StyledLine>) -> Seq<Seq<StyledSpanView>> {
    v.map_values(|l: StyledLine| l@)
}

fn span(content: String, style: SpanStyle) -> (s: StyledSpan)
    ensures
        s@ == (StyledSpanView { content: content@, style }),
{
    StyledSpan { content, style }
}

fn marker_and_color(status: FileStatus, theme: &Theme) -> (r: (char, Color))
    ensures
        r == (status_marker(status), status_color(status, *theme)),
{
    match status {
        FileStatus::Added => ('+', theme.file_tree_added),
        FileStatus::Deleted => ('-', theme.file_tree_deleted),
        FileStatus::Modified => ('~', theme.file_tree_modified),
        FileStatus::Renamed => ('>', theme.file_tree_renamed),
        _ => (' ', theme.file_tree_default),
    }
}

impl TreeRow {
    /// The styled line of this row (see `row_line`).
    pub fn to_line(&self, current: usize, theme: &Theme) -> (l: StyledLine)
        ensures
            l@ == row_line(self@, current as int, *theme),
    {
        let mut spans: Vec<StyledSpan> = Vec::new();
        match self {
            TreeRow::Directory { path } => {
                let mut text = String::from_str(path.as_str());
                text.append("/");
                spans.push(span(text, style_fg_bold(theme.file_tree_directory)));
            },
            TreeRow::File { index, indented, status, name, additions, deletions } => {
                let indent = if *indented { String::from_str("  ") } else { String::new() };
                spans.push(span(indent, SpanStyle { fg: None, bg: None, bold: false }));
                let (marker, color) = marker_and_color(*status, theme);
                let mut st = String::new();
                push_char(&mut st, marker);
                push_char(&mut st, ' ');
                spans.push(span(st, style_fg_bold(color)));
                let name_style = if *index == current {
                    style_fg_bold(theme.file_tree_current_file_fg)
                } else {
                    style_fg(theme.file_tree_default)
                };
                spans.push(span(String::from_str(name.as_str()), name_style));
                let mut add = String::from_str(" +");
                push_decimal(&mut add, *additions as u64);
                spans.push(span(add, style_fg(theme.file_tree_stats_added)));
                let mut del = String::from_str(" -");
                push_decimal(&mut del, *deletions as u64);
                spans.push(span(del, style_fg(theme.file_tree_stats_deleted)));
            },
        }
        let l = StyledLine { spans };
        proof {
            match self {
                TreeRow::Directory { .. } => {
                    assert(l@ =~= row_line(self@, current as int, *theme));
                },
                TreeRow::File { index, indented, status, name, additions, deletions } => {
                    let want = row_line(self@, current as int, *theme);
                    assert(l@.len() == 5);
                    assert(l@[0] == want[0]);
                    assert(l@[1].content =~= want[1].content);
                    assert(l@[1] == want[1]);
                    assert(l@[2] == want[2]);
                    assert(l@[3] == want[3]);
                    assert(l@[4] == want[4]);
                    assert(l@ =~= want);
                },
            }
        }
        l
    }
}

/// The styled lines of the file tree of a commit, with the position of the
/// current file's line.
pub fn build_tree_lines(metadata: &CommitMetadata, current_file_index: usize, theme: &Theme)
    -> (r: (Vec<StyledLine>, Option<usize>))
    requires
        line_counts_fit(metadata.changes@),
    ensures
        exists|es: Seq<FileEntryView>| #[trigger] is_listing(es, metadata.changes@)
            && line_views(r.0@) == rows_of(es).map_values(
                |row: TreeRowView| row_line(row, current_file_index as int, *theme),
            ) && is_row_of_file(r.1, rows_of(es), current_file_index as int),
{
    let (rows, current) = tree_rows(metadata, current_file_index);
    let mut lines: Vec<StyledLine> = Vec::new();
    let mut i: usize = 0;
    while i < rows.len()
        invariant
            i <= rows@.len(),
            line_views(lines@) == row_views(rows@).take(i as int).map_values(
                |row: TreeRowView| row_line(row, current_file_index as int, *theme),
            ),
        decreases rows@.len() - i,
    {
        let l = rows[i].to_line(current_file_index, theme);
        let ghost before = line_views(lines@);
        lines.push(l);
        proof {
            assert(line_views(lines@) =~= before.push(l@));
            assert(row_views(rows@).take(i + 1) =~= row_views(rows@).take(i as int).push(rows@[i as int]@));
            assert(line_views(lines@) =~= row_views(rows@).take(i + 1).map_values(
                |row: TreeRowView| row_line(row, current_file_index as int, *theme),
            ));
        }
        i += 1;
    }
    assert(row_views(rows@).take(rows@.len() as int) =~= row_views(rows@));
    (lines, current)
}


/// `lines` and `cur` draw the file tree of `changes` with the file at
/// position `current` marked.
pub open spec fn shows_tree(
    lines: Seq<Seq<StyledSpanView>>,
    cur: Option<usize>,
    changes: Seq<FileChange>,
    current: int,
    theme: Theme,
) -> bool {
    exists|es: Seq<FileEntryView>| #[trigger] is_listing(es, changes)
        && lines == rows_of(es).map_values(|row: TreeRowView| row_line(row, current, theme))
        && is_row_of_file(cur, rows_of(es), current)
}

/// The marker of a file row is its status sign followed by a blank, in
/// bold: `+` in the theme's added colour for an added file, `-` in the
/// deleted colour for a deleted one, `~` in the modified colour for a
/// modified one, `>` in the renamed colour for a renamed one, and a blank
/// in the default colour for a copied one.
pub proof fn lemma_file_marker_colours(
    index: int,
    indented: bool,
    status: FileStatus,
    name: Seq<char>,
    additions: nat,
    deletions: nat,
    current: int,
    theme: Theme,
)
    ensures
        ({
            let m = row_line(
                TreeRowView::File { index, indented, status, name, additions, deletions },
                current,
                theme,
            )[1];
            &&& status == FileStatus::Added ==> m == (StyledSpanView {
                content: seq!['+', ' '],
                style: SpanStyle { fg: Some(theme.file_tree_added), bg: None, bold: true },
            })
            &&& status == FileStatus::Deleted ==> m == (StyledSpanView {
                content: seq!['-', ' '],
                style: SpanStyle { fg: Some(theme.file_tree_deleted), bg: None, bold: true },
            })
            &&& status == FileStatus::Modified ==> m == (StyledSpanView {
                content: seq!['~', ' '],
                style: SpanStyle { fg: Some(theme.file_tree_modified), bg: None, bold: true },
            })
            &&& status == FileStatus::Renamed ==> m == (StyledSpanView {
                content: seq!['>', ' '],
                style: SpanStyle { fg: Some(theme.file_tree_renamed), bg: None, bold: true },
            })
            &&& status == FileStatus::Copied ==> m == (StyledSpanView {
                content: seq![' ', ' '],
                style: SpanStyle { fg: Some(theme.file_tree_default), bg: None, bold: true },
            })
        }),
{
}

proof fn lemma_rows_of_shape(es: Seq<FileEntryView>, j: int)
    requires
        0 <= j < rows_of(es).len(),
    ensures
        rows_of(es)[j] is Directory || exists|k: int| 0 <= k < es.len() && rows_of(es)[j] == file_row(
            #[trigger] es[k],
        ),
    decreases es.len(),
{
    let e = es.last();
    let rest = es.drop_last();
    let opens_dir = rest.len() == 0 || rest.last().dir != e.dir;
    let header = if opens_dir && e.dir.len() > 0 {
        seq![TreeRowView::Directory { path: e.dir }]
    } else {
        Seq::empty()
    };
    assert(rows_of(es) == rows_of(rest) + header + seq![file_row(e)]);
    if j < rows_of(rest).len() {
        lemma_rows_of_shape(rest, j);
        if !(rows_of(rest)[j] is Directory) {
            let k = choose|k: int| 0 <= k < rest.len() && rows_of(rest)[j] == file_row(#[trigger] rest[k]);
            assert(es[k] == rest[k]);
        }
    } else if j < rows_of(rest).len() + header.len() {
    } else {
        assert(es[es.len() - 1] == e);
    }
}

/// In a drawn file tree every line of a file (a line of more than one
/// span) belongs to one changed file: its name is that file's name and its
/// marker is that file's status sign in the status colour.
pub proof fn lemma_tree_marker_colours(
    lines: Seq<Seq<StyledSpanView>>,
    cur: Option<usize>,
    changes: Seq<FileChange>,
    current: int,
    theme: Theme,
    j: int,
)
    requires
        shows_tree(lines, cur, changes, current, theme),
        0 <= j < lines.len(),
        lines[j].len() > 1,
    ensures
        exists|i: int| 0 <= i < changes.len() && ({
            let c = #[trigger] changes[i];
            let m = lines[j][1];
            &&& lines[j][2].content == name_of(c.path@)
            &&& c.status == FileStatus::Added ==> m == (StyledSpanView {
                content: seq!['+', ' '],
                style: SpanStyle { fg: Some(theme.file_tree_added), bg: None, bold: true },
            })
            &&& c.status == FileStatus::Deleted ==> m == (StyledSpanView {
                content: seq!['-', ' '],
                style: SpanStyle { fg: Some(theme.file_tree_deleted), bg: None, bold: true },
            })
            &&& c.status == FileStatus::Modified ==> m == (StyledSpanView {
                content: seq!['~', ' '],
                style: SpanStyle { fg: Some(theme.file_tree_modified), bg: None, bold: true },
            })
            &&& c.status == FileStatus::Renamed ==> m == (StyledSpanView {
                content: seq!['>', ' '],
                style: SpanStyle { fg: Some(theme.file_tree_renamed), bg: None, bold: true },
            })
            &&& c.status == FileStatus::Copied ==> m == (StyledSpanView {
                content: seq![' ', ' '],
                style: SpanStyle { fg: Some(theme.file_tree_default), bg: None, bold: true },
            })
        }),
{
    let es = choose|es: Seq<FileEntryView>| #[trigger] is_listing(es, changes)
        && lines == rows_of(es).map_values(|row: TreeRowView| row_line(row, current, theme))
        && is_row_of_file(cur, rows_of(es), current);
    let rows = rows_of(es);
    assert(lines[j] == row_line(rows[j], current, theme));
    lemma_rows_of_shape(es, j);
    let k = choose|k: int| 0 <= k < es.len() && rows[j] == file_row(#[trigger] es[k]);
    let i = es[k].index;
    assert(es[k] == entry_of(changes[i], i));
    let r = file_row(es[k]);
    lemma_file_marker_colours(
        r->index,
        r->indented,
        r->status,
        r->name,
        r->additions,
        r->deletions,
        current,
        theme,
    );
    assert(changes[i] == changes[i]);
}

/// The file-tree pane: the lines last built and the commit and file they
/// were built for.
pub struct FileTreePane {
    cached_lines: Vec<StyledLine>,
    cached_current_line_index: Option<usize>,
    cached_metadata_id: Option<String>,
    cached_current_file_index: Option<usize>,
}

/// Mathematical form of the pane.
pub struct FileTreePaneView {
    pub lines: Seq<Seq<StyledSpanView>>,
    pub current_line_index: Option<usize>,
    pub metadata_id: Option<Seq<char>>,
    pub current_file_index: Option<usize>,
}

impl View for FileTreePane {
    type V = FileTreePaneView;

    closed spec fn view(&self) -> FileTreePaneView {
        FileTreePaneView {
            lines: line_views(self.cached_lines@),
            current_line_index: self.cached_current_line_index,
            metadata_id: match self.cached_metadata_id {
                Some(h) => Some(h@),
                None => None,
            },
            current_file_index: self.cached_current_file_index,
        }
    }
}

/// The placeholder shown before any commit is loaded.
pub open spec fn placeholder_lines() -> Seq<Seq<StyledSpanView>> {
    seq![seq![StyledSpanView { content: "No commit loaded"@, style: plain_style() }]]
}

impl FileTreePane {
    /// A pane showing the placeholder line, with no commit.
    pub fn new() -> (p: FileTreePane)
        ensures
            p@.lines == placeholder_lines(),
            p@.current_line_index is None,
            p@.metadata_id is None,
            p@.current_file_index is None,
    {
        let mut spans: Vec<StyledSpan> = Vec::new();
        spans.push(span(String::from_str("No commit loaded"), SpanStyle { fg: None, bg: None, bold: false }));
        let mut lines: Vec<StyledLine> = Vec::new();
        lines.push(StyledLine { spans });
        let p = FileTreePane {
            cached_lines: lines,
            cached_current_line_index: None,
            cached_metadata_id: None,
            cached_current_file_index: None,
        };
        assert(p.cached_lines@[0]@ =~= placeholder_lines()[0]);
        assert(p@.lines =~= placeholder_lines());
        p
    }

    /// Shows the tree of `metadata` with the file at `current_file_index`
    /// marked. Nothing is rebuilt when the pane already shows that commit
    /// (same hash) and that file.
    pub fn set_commit_metadata(&mut self, metadata: &CommitMetadata, current_file_index: usize, theme: &Theme)
        requires
            line_counts_fit(metadata.changes@),
        ensures
            (old(self)@.metadata_id == Some(metadata.hash@)
                && old(self)@.current_file_index == Some(current_file_index))
                ==> final(self)@ == old(self)@,
            !(old(self)@.metadata_id == Some(metadata.hash@)
                && old(self)@.current_file_index == Some(current_file_index)) ==> {
                &&& final(self)@.metadata_id == Some(metadata.hash@)
                &&& final(self)@.current_file_index == Some(current_file_index)
                &&& shows_tree(final(self)@.lines, final(self)@.current_line_index,
                        metadata.changes@, current_file_index as int, *theme)
            },
    {
        let same_commit = match &self.cached_metadata_id {
            Some(id) => crate::text::str_eq(id.as_str(), metadata.hash.as_str()),
            None => false,
        };
        let same_file = match self.cached_current_file_index {
            Some(i) => i == current_file_index,
            None => false,
        };
        if same_commit && same_file {
            return;
        }
        let (lines, current_line_index) = build_tree_lines(metadata, current_file_index, theme);
        self.cached_lines = lines;
        self.cached_current_line_index = current_line_index;
        self.cached_metadata_id = Some(String::from_str(metadata.hash.as_str()));
        self.cached_current_file_index = Some(current_file_index);
    }

    /// The lines the pane shows.
    pub fn lines(&self) -> (l: &Vec<StyledLine>)
        ensures
            line_views(l@) == self@.lines,
    {
        &self.cached_lines
    }

    /// Position of the current file's line, if it is shown.
    pub fn current_line_index(&self) -> (i: Option<usize>)
        ensures
            i == self@.current_line_index,
    {
        self.cached_current_line_index
    }
}

} // verus!
