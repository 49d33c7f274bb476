//! Character-level helpers shared by the other modules.

use vstd::prelude::*;
use vstd::string::{StrSliceExecFns, StringExecFns};

verus! {

broadcast use vstd::string::group_string_axioms;

/// Appends one character to a string (`String::push`).
#[verifier::external_body]
pub(crate) fn push_char(s: &mut String, c: char)
    ensures
        final(s)@ == old(s)@.push(c),
{
    s.push(c);
}

/// The characters of a string slice, in order.
pub fn chars_of(s: &str) -> (r: Vec<char>)
    ensures
        r@ == s@,
{
    let mut r: Vec<char> = Vec::new();
    for c in it: s.chars()
        invariant
            r@.len() == it.index(),
            forall|i: int| 0 <= i < r@.len() ==> r@[i] == it.seq()[i],
    {
        r.push(c);
    }
    assert(r@ =~= s@);
    r
}


/// Whether two string slices hold the same characters.
pub fn str_eq(a: &str, b: &str) -> (r: bool)
    ensures
        r == (a@ == b@),
{
    let x = chars_of(a);
    let y = chars_of(b);
    if x.len() != y.len() {
        return false;
    }
    let mut i: usize = 0;
    while i < x.len()
        invariant
            x@ == a@,
            y@ == b@,
            x@.len() == y@.len(),
            i <= x@.len(),
            forall|j: int| 0 <= j < i ==> x@[j] == y@[j],
        decreases x@.len() - i,
    {
        if x[i] != y[i] {
            return false;
        }
        i += 1;
    }
    assert(x@ =~= y@);
    true
}

/// `s` holds two consecutive dots somewhere.
pub open spec fn has_double_dot(s: Seq<char>) -> bool {
    exists|i: int| 0 <= i && i + 1 < s.len() && #[trigger] s[i] == '.' && s[i + 1] == '.'
}

/// Whether `s` contains the substring `".."`.
pub fn contains_double_dot(s: &str) -> (r: bool)
    ensures
        r == has_double_dot(s@),
{
    let v = chars_of(s);
    let mut i: usize = 0;
    while i < v.len() && i + 1 < v.len()
        invariant
            v@ == s@,
            forall|j: int| 0 <= j < i && j + 1 < v@.len() ==> !(#[trigger] v@[j] == '.' && v@[j + 1] == '.'),
        decreases v@.len() - i,
    {
        if v[i] == '.' && v[i + 1] == '.' {
            return true;
        }
        i += 1;
    }
    false
}


/// The first `n` characters of `v` as a string.
pub fn string_from_prefix(v: &Vec<char>, n: usize) -> (r: String)
    requires
        n <= v@.len(),
    ensures
        r@ == v@.take(n as int),
{
    let mut r = String::new();
    let mut i: usize = 0;
    while i < n
        invariant
            i <= n <= v@.len(),
            r@ == v@.take(i as int),
        decreases n - i,
    {
        push_char(&mut r, v[i]);
        assert(v@.take(i + 1) =~= v@.take(i as int).push(v@[i as int]));
        i += 1;
    }
    r
}

/// The characters of `v` in the index range `[from, to)` as a string.
pub fn string_from_range(v: &Vec<char>, from: usize, to: usize) -> (r: String)
    requires
        from <= to <= v@.len(),
    ensures
        r@ == v@.subrange(from as int, to as int),
{
    let mut r = String::new();
    let mut i: usize = from;
    while i < to
        invariant
            from <= i <= to <= v@.len(),
            r@ == v@.subrange(from as int, i as int),
        decreases to - i,
    {
        push_char(&mut r, v[i]);
        assert(v@.subrange(from as int, i + 1) =~= v@.subrange(from as int, i as int).push(v@[i as int]));
        i += 1;
    }
    r
}

/// The text of `s` before its first occurrence of `c` (all of `s` when `c`
/// does not occur): what `s.split(c).next()` yields.
pub open spec fn prefix_before(s: Seq<char>, c: char) -> Seq<char>
    decreases s.len(),
{
    if s.len() == 0 {
        s
    } else if s[0] == c {
        Seq::empty()
    } else {
        seq![s[0]] + prefix_before(s.drop_first(), c)
    }
}

proof fn lemma_prefix_before(s: Seq<char>, c: char, i: int)
    requires
        0 <= i <= s.len(),
        i < s.len() ==> s[i] == c,
        forall|j: int| 0 <= j < i ==> s[j] != c,
    ensures
        prefix_before(s, c) == s.take(i),
    decreases i,
{
    if i == 0 {
        if s.len() > 0 {
            assert(s.take(0) =~= Seq::<char>::empty());
        }
    } else {
        lemma_prefix_before(s.drop_first(), c, i - 1);
        assert(s.take(i) =~= seq![s[0]] + s.drop_first().take(i - 1));
    }
}

/// `prefix_before` computed on a string slice.
pub fn text_before(s: &str, c: char) -> (r: String)
    ensures
        r@ == prefix_before(s@, c),
{
    let v = chars_of(s);
    let mut i: usize = 0;
    while i < v.len() && v[i] != c
        invariant
            v@ == s@,
            i <= v@.len(),
            forall|j: int| 0 <= j < i ==> v@[j] != c,
        decreases v@.len() - i,
    {
        i += 1;
    }
    proof {
        lemma_prefix_before(s@, c, i as int);
    }
    string_from_prefix(&v, i)
}


/// Lexicographic order on character sequences, by code point: the order of
/// `String`'s `Ord` (UTF-8 byte order agrees with code-point order).
pub open spec fn seq_lt(a: Seq<char>, b: Seq<char>) -> bool
    decreases a.len(),
{
    if a.len() == 0 {
        b.len() > 0
    } else if b.len() == 0 {
        false
    } else if a[0] != b[0] {
        (a[0] as int) < (b[0] as int)
    } else {
        seq_lt(a.drop_first(), b.drop_first())
    }
}

/// No sequence is below itself.
pub proof fn lemma_seq_lt_irreflexive(a: Seq<char>)
    ensures
        !seq_lt(a, a),
    decreases a.len(),
{
    if a.len() > 0 {
        lemma_seq_lt_irreflexive(a.drop_first());
    }
}

/// Of two different sequences one is below the other, and never both.
pub proof fn lemma_seq_lt_total(a: Seq<char>, b: Seq<char>)
    ensures
        a != b ==> seq_lt(a, b) || seq_lt(b, a),
        !(seq_lt(a, b) && seq_lt(b, a)),
    decreases a.len(),
{
    if a.len() > 0 && b.len() > 0 {
        lemma_seq_lt_total(a.drop_first(), b.drop_first());
        if a[0] == b[0] && a.drop_first() == b.drop_first() {
            assert(a =~= seq![a[0]] + a.drop_first());
            assert(b =~= seq![b[0]] + b.drop_first());
        }
    } else if a.len() == 0 && b.len() == 0 {
        assert(a =~= b);
    }
}

/// The order is transitive.
pub proof fn lemma_seq_lt_transitive(a: Seq<char>, b: Seq<char>, c: Seq<char>)
    requires
        seq_lt(a, b),
        seq_lt(b, c),
    ensures
        seq_lt(a, c),
    decreases a.len(),
{
    if a.len() > 0 && b.len() > 0 && c.len() > 0 {
        if a[0] == b[0] && b[0] == c[0] {
            lemma_seq_lt_transitive(a.drop_first(), b.drop_first(), c.drop_first());
        }
    }
}

proof fn lemma_seq_lt_common_prefix(a: Seq<char>, b: Seq<char>, i: int)
    requires
        0 <= i <= a.len(),
        i <= b.len(),
        forall|j: int| 0 <= j < i ==> a[j] == b[j],
    ensures
        seq_lt(a, b) == seq_lt(a.skip(i), b.skip(i)),
    decreases i,
{
    if i > 0 {
        lemma_seq_lt_common_prefix(a.drop_first(), b.drop_first(), i - 1);
        assert(a.drop_first().skip(i - 1) =~= a.skip(i));
        assert(b.drop_first().skip(i - 1) =~= b.skip(i));
    } else {
        assert(a.skip(0) =~= a);
        assert(b.skip(0) =~= b);
    }
}

/// `seq_lt` on two character vectors.
pub fn chars_less(a: &Vec<char>, b: &Vec<char>) -> (r: bool)
    ensures
        r == seq_lt(a@, b@),
{
    let mut i: usize = 0;
    while i < a.len() && i < b.len() && a[i] == b[i]
        invariant
            i <= a@.len(),
            i <= b@.len(),
            forall|j: int| 0 <= j < i ==> a@[j] == b@[j],
        decreases a@.len() - i,
    {
        i += 1;
    }
    proof {
        lemma_seq_lt_common_prefix(a@, b@, i as int);
    }
    if i == a.len() {
        i < b.len()
    } else if i == b.len() {
        false
    } else {
        assert(a@.skip(i as int)[0] == a@[i as int]);
        assert(b@.skip(i as int)[0] == b@[i as int]);
        a[i] < b[i]
    }
}

/// Index of the last occurrence of `c` in `s`, or -1.
pub open spec fn last_index_of(s: Seq<char>, c: char) -> int
    decreases s.len(),
{
    if s.len() == 0 {
        -1
    } else if s.last() == c {
        s.len() - 1
    } else {
        last_index_of(s.drop_last(), c)
    }
}

proof fn lemma_last_index_of(s: Seq<char>, c: char, k: int)
    requires
        -1 <= k < s.len(),
        k >= 0 ==> s[k] == c,
        forall|j: int| k < j < s.len() ==> s[j] != c,
    ensures
        last_index_of(s, c) == k,
    decreases s.len(),
{
    if s.len() > 0 && k < s.len() - 1 {
        lemma_last_index_of(s.drop_last(), c, k);
    }
}

/// `last_index_of` is -1 or the index of an occurrence of `c`.
pub proof fn lemma_last_index_of_bounds(s: Seq<char>, c: char)
    ensures
        -1 <= last_index_of(s, c) < s.len(),
        last_index_of(s, c) >= 0 ==> s[last_index_of(s, c)] == c,
    decreases s.len(),
{
    if s.len() > 0 && s.last() != c {
        lemma_last_index_of_bounds(s.drop_last(), c);
    }
}

/// Exec counterpart of `last_index_of` on a character vector (`None` for -1).
pub fn find_last(v: &Vec<char>, c: char) -> (r: Option<usize>)
    ensures
        match r {
            Some(k) => k < v.len() && last_index_of(v@, c) == k,
            None => last_index_of(v@, c) == -1,
        },
{
    let mut k: usize = v.len();
    while k > 0
        invariant
            k <= v@.len(),
            forall|j: int| k <= j < v@.len() ==> v@[j] != c,
        decreases k,
    {
        if v[k - 1] == c {
            proof {
                lemma_last_index_of(v@, c, k - 1);
            }
            return Some(k - 1);
        }
        k -= 1;
    }
    proof {
        lemma_last_index_of(v@, c, -1);
    }
    None
}


/// The decimal digit character of `d` (`'9'` for anything above 8).
pub open spec fn digit_char(d: nat) -> char {
    if d == 0 {
        '0'
    } else if d == 1 {
        '1'
    } else if d == 2 {
        '2'
    } else if d == 3 {
        '3'
    } else if d == 4 {
        '4'
    } else if d == 5 {
        '5'
    } else if d == 6 {
        '6'
    } else if d == 7 {
        '7'
    } else if d == 8 {
        '8'
    } else {
        '9'
    }
}

/// Decimal text of a number, without leading zeros.
pub open spec fn decimal(n: nat) -> Seq<char>
    decreases n,
{
    if n < 10 {
        seq![digit_char(n)]
    } else {
        decimal(n / 10).push(digit_char(n % 10))
    }
}

fn digit(d: u64) -> (c: char)
    requires
        d < 10,
    ensures
        c == digit_char(d as nat),
{
    if d == 0 {
        '0'
    } else if d == 1 {
        '1'
    } else if d == 2 {
        '2'
    } else if d == 3 {
        '3'
    } else if d == 4 {
        '4'
    } else if d == 5 {
        '5'
    } else if d == 6 {
        '6'
    } else if d == 7 {
        '7'
    } else if d == 8 {
        '8'
    } else {
        '9'
    }
}

/// Appends the decimal text of `n`.
pub fn push_decimal(s: &mut String, n: u64)
    ensures
        final(s)@ == old(s)@ + decimal(n as nat),
    decreases n,
{
    if n >= 10 {
        push_decimal(s, n / 10);
    }
    push_char(s, digit(n % 10));
}

/// `count` spaces.
pub open spec fn spaces(count: nat) -> Seq<char> {
    Seq::new(count, |i: int| ' ')
}

/// `text` right-aligned in a field of `width` characters (padded with
/// spaces on the left; never cut).
pub open spec fn pad_left(text: Seq<char>, width: nat) -> Seq<char> {
    if text.len() >= width {
        text
    } else {
        spaces((width - text.len()) as nat) + text
    }
}

/// Appends `count` spaces.
pub fn push_spaces(s: &mut String, count: usize)
    ensures
        final(s)@ == old(s)@ + spaces(count as nat),
{
    let ghost start = s@;
    let mut i: usize = 0;
    while i < count
        invariant
            i <= count,
            s@ == start + spaces(i as nat),
        decreases count - i,
    {
        push_char(s, ' ');
        assert(spaces((i + 1) as nat) =~= spaces(i as nat).push(' '));
        i += 1;
    }
}

/// The decimal text of `n` right-aligned to `width`, as `format!("{:>width$}", n)`.
pub fn decimal_padded(n: usize, width: usize) -> (r: String)
    ensures
        r@ == pad_left(decimal(n as nat), width as nat),
{
    let mut digits = String::new();
    push_decimal(&mut digits, n as u64);
    let len = digits.as_str().unicode_len();
    assert(digits@ =~= decimal(n as nat));
    if len >= width {
        digits
    } else {
        let mut r = String::new();
        push_spaces(&mut r, width - len);
        r.append(digits.as_str());
        assert(r@ =~= pad_left(decimal(n as nat), width as nat));
        r
    }
}


/// Whether two character vectors are equal.
pub fn chars_equal(a: &Vec<char>, b: &Vec<char>) -> (r: bool)
    ensures
        r == (a@ == b@),
{
    if a.len() != b.len() {
        return false;
    }
    let mut i: usize = 0;
    while i < a.len()
        invariant
            a@.len() == b@.len(),
            i <= a@.len(),
            forall|j: int| 0 <= j < i ==> a@[j] == b@[j],
        decreases a@.len() - i,
    {
        if a[i] != b[i] {
            return false;
        }
        i += 1;
    }
    assert(a@ =~= b@);
    true
}


/// Bytes of a character in UTF-8 (`char::len_utf8`).
pub open spec fn utf8_len(c: char) -> nat {
    if (c as u32) < 0x80 {
        1
    } else if (c as u32) < 0x800 {
        2
    } else if (c as u32) < 0x10000 {
        3
    } else {
        4
    }
}

/// Bytes of a character sequence in UTF-8.
pub open spec fn utf8_width(s: Seq<char>) -> nat
    decreases s.len(),
{
    if s.len() == 0 {
        0
    } else {
        utf8_width(s.drop_last()) + utf8_len(s.last())
    }
}

/// `utf8_len` of a character.
pub fn char_utf8_len(c: char) -> (n: usize)
    ensures
        n == utf8_len(c),
{
    let v = c as u32;
    if v < 0x80 {
        1
    } else if v < 0x800 {
        2
    } else if v < 0x10000 {
        3
    } else {
        4
    }
}

/// The UTF-8 width of a prefix is at most that of the whole sequence.
pub proof fn lemma_utf8_width_prefix(s: Seq<char>, k: int)
    requires
        0 <= k <= s.len(),
    ensures
        utf8_width(s.take(k)) <= utf8_width(s),
    decreases s.len(),
{
    if k < s.len() {
        assert(s.drop_last().take(k) =~= s.take(k));
        lemma_utf8_width_prefix(s.drop_last(), k);
    } else {
        assert(s.take(k) =~= s);
    }
}


proof fn lemma_utf8_width_prepend(c: char, rest: Seq<char>)
    ensures
        utf8_width(seq![c] + rest) == utf8_len(c) + utf8_width(rest),
    decreases rest.len(),
{
    if rest.len() > 0 {
        assert((seq![c] + rest).drop_last() =~= seq![c] + rest.drop_last());
        assert((seq![c] + rest).last() == rest.last());
        lemma_utf8_width_prepend(c, rest.drop_last());
    } else {
        assert(seq![c] + rest =~= seq![c]);
        assert(seq![c].drop_last() =~= Seq::<char>::empty());
        assert(utf8_width(Seq::<char>::empty()) == 0);
        assert(utf8_width(seq![c]) == utf8_len(c));
    }
}

/// The byte length of a string slice is the UTF-8 width of its characters.
pub proof fn lemma_str_len_is_utf8_width(s: Seq<char>)
    ensures
        vstd::utf8::encode_utf8(s).len() == utf8_width(s),
    decreases s.len(),
{
    if s.len() > 0 {
        lemma_str_len_is_utf8_width(s.drop_first());
        assert(s =~= seq![s[0]] + s.drop_first());
        lemma_utf8_width_prepend(s[0], s.drop_first());
        vstd::utf8::char_is_scalar(s[0]);
        assert(vstd::utf8::encode_scalar(s[0] as u32).len() == utf8_len(s[0]));
    }
}


/// Unicode `White_Space` (what `char::is_whitespace` tests).
pub open spec fn is_ws(c: char) -> bool {
    let v = c as u32;
    ||| 0x09 <= v <= 0x0D
    ||| v == 0x20
    ||| v == 0x85
    ||| v == 0xA0
    ||| v == 0x1680
    ||| 0x2000 <= v <= 0x200A
    ||| v == 0x2028
    ||| v == 0x2029
    ||| v == 0x202F
    ||| v == 0x205F
    ||| v == 0x3000
}

/// `is_ws` on a character.
pub fn is_whitespace(c: char) -> (r: bool)
    ensures
        r == is_ws(c),
{
    let v = c as u32;
    (0x09 <= v && v <= 0x0D) || v == 0x20 || v == 0x85 || v == 0xA0 || v == 0x1680 || (0x2000 <= v && v
        <= 0x200A) || v == 0x2028 || v == 0x2029 || v == 0x202F || v == 0x205F || v == 0x3000
}

/// Only white space: what `s.trim().is_empty()` tests.
pub open spec fn is_blank(s: Seq<char>) -> bool {
    forall|i: int| 0 <= i < s.len() ==> is_ws(#[trigger] s[i])
}

/// `is_blank` on a string slice.
pub fn blank(s: &str) -> (r: bool)
    ensures
        r == is_blank(s@),
{
    let v = chars_of(s);
    let mut i: usize = 0;
    while i < v.len()
        invariant
            v@ == s@,
            i <= v@.len(),
            forall|j: int| 0 <= j < i ==> is_ws(#[trigger] v@[j]),
        decreases v@.len() - i,
    {
        if !is_whitespace(v[i]) {
            return false;
        }
        i += 1;
    }
    true
}

/// Index of the first `'\n'` in `s`, or `s.len()`.
pub open spec fn newline_index(s: Seq<char>) -> int
    decreases s.len(),
{
    if s.len() == 0 {
        0
    } else if s[0] == '\n' {
        0
    } else {
        1 + newline_index(s.drop_first())
    }
}

proof fn lemma_newline_index(s: Seq<char>, k: int)
    requires
        0 <= k <= s.len(),
        k < s.len() ==> s[k] == '\n',
        forall|j: int| 0 <= j < k ==> s[j] != '\n',
    ensures
        newline_index(s) == k,
    decreases k,
{
    if k > 0 {
        lemma_newline_index(s.drop_first(), k - 1);
    }
}

pub proof fn lemma_newline_index_bounds(s: Seq<char>)
    ensures
        0 <= newline_index(s) <= s.len(),
        newline_index(s) < s.len() ==> s[newline_index(s)] == '\n',
    decreases s.len(),
{
    if s.len() > 0 && s[0] != '\n' {
        lemma_newline_index_bounds(s.drop_first());
    }
}

/// A line without the `'\r'` of a `"\r\n"` ending.
pub open spec fn strip_cr(l: Seq<char>) -> Seq<char> {
    if l.len() > 0 && l.last() == '\r' {
        l.drop_last()
    } else {
        l
    }
}

/// The lines of a text as `str::lines` yields them: split at `"\n"` or
/// `"\r\n"`; a final line ending adds no empty line; no line for "".
pub open spec fn lines_of(s: Seq<char>) -> Seq<Seq<char>>
    decreases s.len(),
{
    if s.len() == 0 {
        Seq::empty()
    } else {
        proof {
            lemma_newline_index_bounds(s);
        }
        let k = newline_index(s);
        if k >= s.len() {
            seq![s]
        } else {
            seq![strip_cr(s.take(k))] + lines_of(s.skip(k + 1))
        }
    }
}

/// Views of a sequence of strings.
pub open spec fn string_views(v: Seq<String>) -> Seq<Seq<char>> {
    v.map_values(|x: String| x@)
}

/// The lines of a string slice (see `lines_of`).
pub fn split_lines(s: &str) -> (r: Vec<String>)
    ensures
        string_views(r@) == lines_of(s@),
{
    let v = chars_of(s);
    let mut out: Vec<String> = Vec::new();
    let mut start: usize = 0;
    let mut i: usize = 0;
    assert(s@.skip(0) =~= s@);
    assert(string_views(out@) + lines_of(s@) =~= lines_of(s@));
    while i < v.len()
        invariant
            v@ == s@,
            start <= i <= v@.len(),
            lines_of(s@) == string_views(out@) + lines_of(s@.skip(start as int)),
            forall|j: int| start <= j < i ==> v@[j] != '\n',
        decreases v@.len() - i,
    {
        if v[i] == '\n' {
            let ghost rest = s@.skip(start as int);
            proof {
                lemma_newline_index(rest, i - start);
                assert(rest.take(i - start) =~= s@.subrange(start as int, i as int));
                assert(rest.skip(i - start + 1) =~= s@.skip(i + 1));
            }
            let end = if i > start && v[i - 1] == '\r' { i - 1 } else { i };
            let line = string_from_range(&v, start, end);
            proof {
                assert(line@ =~= strip_cr(s@.subrange(start as int, i as int)));
            }
            let ghost before = string_views(out@);
            out.push(line);
            proof {
                assert(string_views(out@) =~= before.push(line@));
                assert(string_views(out@) + lines_of(s@.skip(i + 1)) =~= before + lines_of(rest));
            }
            start = i + 1;
        }
        i += 1;
    }
    if start < v.len() {
        let ghost rest = s@.skip(start as int);
        proof {
            lemma_newline_index(rest, rest.len() as int);
        }
        let line = string_from_range(&v, start, v.len());
        let ghost before = string_views(out@);
        out.push(line);
        proof {
            assert(line@ =~= rest);
            assert(string_views(out@) =~= before.push(rest));
            assert(lines_of(s@.skip(start as int)) =~= seq![rest]);
        }
    } else {
        assert(s@.skip(start as int) =~= Seq::<char>::empty());
    }
    assert(string_views(out@) =~= lines_of(s@));
    out
}

} // verus!
