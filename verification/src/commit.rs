//! The commit data the panes and the player work on: a commit's
//! metadata and, for each changed file, its diff hunks.

use vstd::prelude::*;

verus! {

/// Kind of one diff line.
#[derive(Debug, Clone, Copy, PartialEq, Eq, Structural)]
pub enum LineChangeType {
    Addition,
    Deletion,
    Context,
}

/// One line of a diff hunk.
pub struct LineChange {
    pub change_type: LineChangeType,
    pub content: String,
}

/// A diff hunk: its lines in order.
pub struct DiffHunk {
    pub lines: Vec<LineChange>,
}

/// How a file changed in a commit.
#[derive(Debug, Clone, Copy, PartialEq, Eq, Structural)]
pub enum FileStatus {
    Added,
    Deleted,
    Modified,
    Renamed,
    Copied,
}

/// A changed file: its path (with `/` between directories), status and hunks.
pub struct FileChange {
    pub path: String,
    pub status: FileStatus,
    pub hunks: Vec<DiffHunk>,
}

/// A commit (or the working tree, whose hash is `"working-tree"`):
/// hash, author, commit time in seconds since the Unix epoch (UTC),
/// message and changed files.
pub struct CommitMetadata {
    pub hash: String,
    pub author: String,
    pub date: i64,
    pub message: String,
    pub changes: Vec<FileChange>,
}

/// Number of lines of kind `t` in `lines`.
pub open spec fn count_kind(lines: Seq<LineChange>, t: LineChangeType) -> nat
    decreases lines.len(),
{
    if lines.len() == 0 {
        0
    } else {
        count_kind(lines.drop_last(), t) + if lines.last().change_type == t {
            1nat
        } else {
            0nat
        }
    }
}

/// Number of lines of kind `t` over all hunks.
pub open spec fn count_kind_in_hunks(hunks: Seq<DiffHunk>, t: LineChangeType) -> nat
    decreases hunks.len(),
{
    if hunks.len() == 0 {
        0
    } else {
        count_kind_in_hunks(hunks.drop_last(), t) + count_kind(hunks.last().lines@, t)
    }
}

/// Number of lines over all hunks.
pub open spec fn line_total(hunks: Seq<DiffHunk>) -> nat
    decreases hunks.len(),
{
    if hunks.len() == 0 {
        0
    } else {
        line_total(hunks.drop_last()) + hunks.last().lines@.len()
    }
}

/// Every changed file's hunks hold at most `usize::MAX` lines in all.
pub open spec fn line_counts_fit(changes: Seq<FileChange>) -> bool {
    forall|i: int| 0 <= i < changes.len() ==> #[trigger] line_total(changes[i].hunks@) <= usize::MAX
}

pub proof fn lemma_count_kind_bounded(lines: Seq<LineChange>, t: LineChangeType)
    ensures
        count_kind(lines, t) <= lines.len(),
    decreases lines.len(),
{
    if lines.len() > 0 {
        lemma_count_kind_bounded(lines.drop_last(), t);
    }
}

pub proof fn lemma_count_in_hunks_bounded(hunks: Seq<DiffHunk>, t: LineChangeType, h: int)
    requires
        0 <= h <= hunks.len(),
    ensures
        count_kind_in_hunks(hunks.take(h), t) <= line_total(hunks.take(h)),
        line_total(hunks.take(h)) <= line_total(hunks),
    decreases hunks.len(),
{
    if hunks.len() > 0 {
        if h == hunks.len() {
            assert(hunks.take(h) =~= hunks);
            assert(hunks.drop_last().take(h - 1) =~= hunks.drop_last());
            lemma_count_in_hunks_bounded(hunks.drop_last(), t, h - 1);
            lemma_count_kind_bounded(hunks.last().lines@, t);
        } else {
            assert(hunks.drop_last().take(h) =~= hunks.take(h));
            lemma_count_in_hunks_bounded(hunks.drop_last(), t, h);
        }
    } else {
        assert(hunks.take(h) =~= hunks);
    }
}

/// Counts the lines of kind `t` in all hunks.
pub fn count_lines_of_kind(hunks: &Vec<DiffHunk>, t: LineChangeType) -> (n: usize)
    requires
        line_total(hunks@) <= usize::MAX,
    ensures
        n == count_kind_in_hunks(hunks@, t),
{
    let mut n: usize = 0;
    let mut h: usize = 0;
    while h < hunks.len()
        invariant
            h <= hunks@.len(),
            line_total(hunks@) <= usize::MAX,
            n == count_kind_in_hunks(hunks@.take(h as int), t),
        decreases hunks@.len() - h,
    {
        let lines = &hunks[h].lines;
        let ghost base = n;
        proof {
            assert(hunks@.take(h + 1).drop_last() =~= hunks@.take(h as int));
            lemma_count_in_hunks_bounded(hunks@, t, h + 1);
        }
        let mut l: usize = 0;
        while l < lines.len()
            invariant
                l <= lines@.len(),
                lines@ == hunks@[h as int].lines@,
                h < hunks@.len(),
                base == count_kind_in_hunks(hunks@.take(h as int), t),
                n == base + count_kind(lines@.take(l as int), t),
                base + count_kind(lines@, t) <= usize::MAX,
            decreases lines@.len() - l,
        {
            proof {
                assert(lines@.take(l + 1).drop_last() =~= lines@.take(l as int));
                assert(lines@.take(lines@.len() as int) =~= lines@);
                lemma_count_kind_prefix(lines@, t, l + 1);
            }
            if lines[l].change_type == t {
                n += 1;
            }
            l += 1;
        }
        assert(lines@.take(lines@.len() as int) =~= lines@);
        h += 1;
    }
    assert(hunks@.take(hunks@.len() as int) =~= hunks@);
    n
}

proof fn lemma_count_kind_prefix(lines: Seq<LineChange>, t: LineChangeType, l: int)
    requires
        0 <= l <= lines.len(),
    ensures
        count_kind(lines.take(l), t) <= count_kind(lines, t),
    decreases lines.len(),
{
    if l < lines.len() {
        assert(lines.drop_last().take(l) =~= lines.take(l));
        lemma_count_kind_prefix(lines.drop_last(), t, l);
    } else {
        assert(lines.take(l) =~= lines);
    }
}

} // verus!
