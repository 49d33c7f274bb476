//! Syntax-highlighting spans: the token classes, how tree-sitter capture
//! names map onto them, and how spans of embedded languages replace the
//! spans of the outer language.

use vstd::prelude::*;
use std::ops::Range;
use crate::text::{chars_of, is_whitespace, is_ws, prefix_before, str_eq, string_from_range, string_views, text_before};
use vstd::string::StringExecFns;
use crate::theme::{Color, Theme};

verus! {

broadcast use vstd::seq_lib::group_seq_properties;

/// Class of a highlighted token.
#[derive(Debug, Clone, Copy, PartialEq, Eq, Structural)]
pub enum TokenType {
    Comment,
    Constant,
    Function,
    Keyword,
    Label,
    Number,
    Operator,
    Parameter,
    Property,
    Punctuation,
    String,
    Type,
    Variable,
}

/// The theme colour of each token class.
pub open spec fn token_color(t: TokenType, theme: Theme) -> Color {
    match t {
        TokenType::Comment => theme.syntax_comment,
        TokenType::Constant => theme.syntax_constant,
        TokenType::Function => theme.syntax_function,
        TokenType::Keyword => theme.syntax_keyword,
        TokenType::Label => theme.syntax_label,
        TokenType::Number => theme.syntax_number,
        TokenType::Operator => theme.syntax_operator,
        TokenType::Parameter => theme.syntax_parameter,
        TokenType::Property => theme.syntax_property,
        TokenType::Punctuation => theme.syntax_punctuation,
        TokenType::String => theme.syntax_string,
        TokenType::Type => theme.syntax_type,
        TokenType::Variable => theme.syntax_variable,
    }
}

impl TokenType {
    /// The colour the theme gives this token class.
    pub fn color(&self, theme: &Theme) -> (c: Color)
        ensures
            c == token_color(*self, *theme),
    {
        match self {
            TokenType::Comment => theme.syntax_comment,
            TokenType::Constant => theme.syntax_constant,
            TokenType::Function => theme.syntax_function,
            TokenType::Keyword => theme.syntax_keyword,
            TokenType::Label => theme.syntax_label,
            TokenType::Number => theme.syntax_number,
            TokenType::Operator => theme.syntax_operator,
            TokenType::Parameter => theme.syntax_parameter,
            TokenType::Property => theme.syntax_property,
            TokenType::Punctuation => theme.syntax_punctuation,
            TokenType::String => theme.syntax_string,
            TokenType::Type => theme.syntax_type,
            TokenType::Variable => theme.syntax_variable,
        }
    }
}

/// A highlighted byte range `[start, end)` of a source text.
#[derive(Debug, Clone, Copy)]
pub struct HighlightSpan {
    pub start: usize,
    pub end: usize,
    pub token_type: TokenType,
}

/// Spans that begin at byte `k`.
pub open spec fn starts_at(k: usize) -> spec_fn(HighlightSpan) -> bool {
    |s: HighlightSpan| s.start == k
}

/// Spans ordered by start offset, ties in any order.
pub open spec fn sorted_by_start(s: Seq<HighlightSpan>) -> bool {
    forall|i: int, j: int| 0 <= i <= j < s.len() ==> s[i].start <= s[j].start
}

/// `out` is `inp` stably sorted by start offset: sorted, and for every start
/// offset the spans beginning there come in the order `inp` has them.
pub open spec fn stably_sorted_from(out: Seq<HighlightSpan>, inp: Seq<HighlightSpan>) -> bool {
    &&& sorted_by_start(out)
    &&& forall|k: usize| #[trigger] out.filter(starts_at(k)) == inp.filter(starts_at(k))
}

/// A span overlaps a byte range when they share at least one byte.
pub open spec fn overlaps(s: HighlightSpan, r: Range<usize>) -> bool {
    s.start < r.end && r.start < s.end
}

/// A span overlaps one of the injected ranges.
pub open spec fn overlaps_any(s: HighlightSpan, inj: Seq<(Range<usize>, Vec<HighlightSpan>)>) -> bool {
    exists|j: int| 0 <= j < inj.len() && #[trigger] overlaps(s, inj[j].0)
}

/// All spans of the injected languages, injection after injection.
pub open spec fn injected_spans(inj: Seq<(Range<usize>, Vec<HighlightSpan>)>) -> Seq<HighlightSpan>
    decreases inj.len(),
{
    if inj.len() == 0 {
        Seq::empty()
    } else {
        injected_spans(inj.drop_last()) + inj.last().1@
    }
}

/// The spans kept from the outer language: those overlapping no injected range.
pub open spec fn kept_outer(outer: Seq<HighlightSpan>, inj: Seq<(Range<usize>, Vec<HighlightSpan>)>) -> Seq<HighlightSpan> {
    outer.filter(|s: HighlightSpan| !overlaps_any(s, inj))
}

proof fn lemma_filter_none<A>(s: Seq<A>, p: spec_fn(A) -> bool)
    requires
        forall|i: int| 0 <= i < s.len() ==> !p(#[trigger] s[i]),
    ensures
        s.filter(p) == Seq::<A>::empty(),
    decreases s.len(),
{
    reveal(Seq::filter);
    if s.len() > 0 {
        lemma_filter_none(s.drop_last(), p);
    }
}

proof fn lemma_insert_keeps_groups(s: Seq<HighlightSpan>, p: int, x: HighlightSpan, k: usize)
    requires
        0 <= p <= s.len(),
        forall|j: int| 0 <= j < p ==> #[trigger] s[j].start <= x.start,
        forall|j: int| p <= j < s.len() ==> #[trigger] s[j].start > x.start,
    ensures
        s.insert(p, x).filter(starts_at(k)) == if x.start == k {
            s.filter(starts_at(k)).push(x)
        } else {
            s.filter(starts_at(k))
        },
{
    let a = s.take(p);
    let b = s.skip(p);
    assert(s =~= a + b);
    assert(s.insert(p, x) =~= a + seq![x] + b);
    Seq::filter_distributes_over_add(a, b, starts_at(k));
    Seq::filter_distributes_over_add(a + seq![x], b, starts_at(k));
    Seq::filter_distributes_over_add(a, seq![x], starts_at(k));
    reveal_with_fuel(Seq::filter, 2);
    assert(seq![x].drop_last() =~= Seq::<HighlightSpan>::empty());
    if x.start == k {
        lemma_filter_none(b, starts_at(k));
        assert(a.filter(starts_at(k)) + seq![x] =~= a.filter(starts_at(k)).push(x));
    } else {
        assert(seq![x].filter(starts_at(k)) =~= Seq::<HighlightSpan>::empty());
    }
}

/// The spans of `s` stably ordered by start offset (there is exactly one
/// such order: see `lemma_stable_order_unique`).
pub open spec fn by_start(s: Seq<HighlightSpan>) -> Seq<HighlightSpan> {
    choose|r: Seq<HighlightSpan>| stably_sorted_from(r, s)
}

proof fn lemma_same_groups_equal(a: Seq<HighlightSpan>, b: Seq<HighlightSpan>)
    requires
        sorted_by_start(a),
        sorted_by_start(b),
        forall|k: usize| #[trigger] a.filter(starts_at(k)) == b.filter(starts_at(k)),
    ensures
        a == b,
    decreases a.len() + b.len(),
{
    if a.len() == 0 && b.len() == 0 {
        assert(a =~= b);
        return;
    }
    if a.len() == 0 {
        let y = b.last();
        b.drop_last().lemma_filter_push(y, starts_at(y.start));
        assert(b.drop_last().push(y) =~= b);
        lemma_filter_none(a, starts_at(y.start));
        assert(a.filter(starts_at(y.start)) == b.filter(starts_at(y.start)));
        assert(false);
    }
    if b.len() == 0 {
        let x = a.last();
        a.drop_last().lemma_filter_push(x, starts_at(x.start));
        assert(a.drop_last().push(x) =~= a);
        lemma_filter_none(b, starts_at(x.start));
        assert(a.filter(starts_at(x.start)) == b.filter(starts_at(x.start)));
        assert(false);
    }
    let x = a.last();
    let y = b.last();
    let a0 = a.drop_last();
    let b0 = b.drop_last();
    assert(a0.push(x) =~= a);
    assert(b0.push(y) =~= b);
    if x.start < y.start {
        b0.lemma_filter_push(y, starts_at(y.start));
        assert forall|i: int| 0 <= i < a.len() implies !starts_at(y.start)(a[i]) by {
            assert(a[i].start <= a[a.len() - 1].start);
        }
        lemma_filter_none(a, starts_at(y.start));
        assert(a.filter(starts_at(y.start)) == b.filter(starts_at(y.start)));
        assert(false);
    }
    if y.start < x.start {
        a0.lemma_filter_push(x, starts_at(x.start));
        assert forall|i: int| 0 <= i < b.len() implies !starts_at(x.start)(b[i]) by {
            assert(b[i].start <= b[b.len() - 1].start);
        }
        lemma_filter_none(b, starts_at(x.start));
        assert(a.filter(starts_at(x.start)) == b.filter(starts_at(x.start)));
        assert(false);
    }
    a0.lemma_filter_push(x, starts_at(x.start));
    b0.lemma_filter_push(y, starts_at(x.start));
    assert(a.filter(starts_at(x.start)) == b.filter(starts_at(x.start)));
    assert(a0.filter(starts_at(x.start)).push(x) == b0.filter(starts_at(x.start)).push(y));
    assert(x == a0.filter(starts_at(x.start)).push(x).last());
    assert(x == y);
    assert(a0.filter(starts_at(x.start)) =~= a0.filter(starts_at(x.start)).push(x).drop_last());
    assert forall|k: usize| #[trigger] a0.filter(starts_at(k)) == b0.filter(starts_at(k)) by {
        a0.lemma_filter_push(x, starts_at(k));
        b0.lemma_filter_push(y, starts_at(k));
        assert(a.filter(starts_at(k)) == b.filter(starts_at(k)));
        if x.start == k {
            assert(a0.filter(starts_at(k)) =~= a.filter(starts_at(k)).drop_last());
            assert(b0.filter(starts_at(k)) =~= b.filter(starts_at(k)).drop_last());
        }
    }
    lemma_same_groups_equal(a0, b0);
}

/// There is exactly one stable order by start offset of a sequence of
/// spans.
pub proof fn lemma_stable_order_unique(a: Seq<HighlightSpan>, b: Seq<HighlightSpan>, s: Seq<HighlightSpan>)
    requires
        stably_sorted_from(a, s),
        stably_sorted_from(b, s),
    ensures
        a == b,
{
    lemma_same_groups_equal(a, b);
}

/// A stable order by start offset is `by_start`.
pub proof fn lemma_by_start(r: Seq<HighlightSpan>, s: Seq<HighlightSpan>)
    requires
        stably_sorted_from(r, s),
    ensures
        r == by_start(s),
{
    let c = by_start(s);
    assert(stably_sorted_from(c, s));
    lemma_stable_order_unique(r, c, s);
}

/// Where a span goes when inserted into spans sorted by start: after
/// every span that starts no later.
pub open spec fn insert_at(s: Seq<HighlightSpan>, x: HighlightSpan) -> int
    decreases s.len(),
{
    if s.len() == 0 {
        0
    } else if s.last().start <= x.start {
        s.len() as int
    } else {
        insert_at(s.drop_last(), x)
    }
}

/// The spans sorted by insertion, one after the other.
pub open spec fn insertion_sorted(s: Seq<HighlightSpan>) -> Seq<HighlightSpan>
    decreases s.len(),
{
    if s.len() == 0 {
        Seq::empty()
    } else {
        let t = insertion_sorted(s.drop_last());
        t.insert(insert_at(t, s.last()), s.last())
    }
}

proof fn lemma_insert_at(t: Seq<HighlightSpan>, x: HighlightSpan)
    requires
        sorted_by_start(t),
    ensures
        0 <= insert_at(t, x) <= t.len(),
        forall|j: int| 0 <= j < insert_at(t, x) ==> #[trigger] t[j].start <= x.start,
        forall|j: int| insert_at(t, x) <= j < t.len() ==> #[trigger] t[j].start > x.start,
    decreases t.len(),
{
    if t.len() > 0 {
        if t.last().start <= x.start {
            assert forall|j: int| 0 <= j < t.len() implies #[trigger] t[j].start <= x.start by {
                assert(t[j].start <= t[t.len() - 1].start);
            }
        } else {
            let u = t.drop_last();
            lemma_insert_at(u, x);
            assert forall|j: int| insert_at(t, x) <= j < t.len() implies #[trigger] t[j].start > x.start by {
                if j < t.len() - 1 {
                    assert(t[j] == u[j]);
                }
            }
            assert forall|j: int| 0 <= j < insert_at(t, x) implies #[trigger] t[j].start <= x.start by {
                assert(t[j] == u[j]);
            }
        }
    }
}

proof fn lemma_insertion_sorted(s: Seq<HighlightSpan>)
    ensures
        stably_sorted_from(insertion_sorted(s), s),
    decreases s.len(),
{
    if s.len() == 0 {
        assert forall|k: usize| #[trigger] insertion_sorted(s).filter(starts_at(k)) == s.filter(starts_at(k)) by {
            assert(insertion_sorted(s) =~= s);
        }
    } else {
        let x = s.last();
        let s0 = s.drop_last();
        let t = insertion_sorted(s0);
        lemma_insertion_sorted(s0);
        lemma_insert_at(t, x);
        let p = insert_at(t, x);
        let out = t.insert(p, x);
        assert(out == insertion_sorted(s));
        assert forall|a: int, b: int| 0 <= a <= b < out.len() implies out[a].start <= out[b].start by {
            if a < p && b > p {
                assert(t[a].start <= x.start);
                assert(t[b - 1].start > x.start);
            } else if a < p && b == p {
                assert(t[a].start <= x.start);
            } else if a == p && b > p {
                assert(t[b - 1].start > x.start);
            } else if a > p {
                assert(t[a - 1].start <= t[b - 1].start);
            }
        }
        assert(s0.push(x) =~= s);
        assert forall|k: usize| #[trigger] out.filter(starts_at(k)) == s.filter(starts_at(k)) by {
            lemma_insert_keeps_groups(t, p, x, k);
            s0.lemma_filter_push(x, starts_at(k));
            assert(t.filter(starts_at(k)) == s0.filter(starts_at(k)));
        }
    }
}

/// `by_start` is a stable order by start: such an order always exists.
pub proof fn lemma_by_start_sorts(s: Seq<HighlightSpan>)
    ensures
        stably_sorted_from(by_start(s), s),
{
    lemma_insertion_sorted(s);
}

/// Every span lies within the byte range `[lo, hi]` and starts no later
/// than it ends.
pub open spec fn spans_within(s: Seq<HighlightSpan>, lo: int, hi: int) -> bool {
    forall|i: int| 0 <= i < s.len() ==> lo <= (#[trigger] s[i]).start <= s[i].end <= hi
}

/// Reordering stably by start keeps the spans within their bounds.
pub proof fn lemma_stable_order_keeps_bounds(r: Seq<HighlightSpan>, s: Seq<HighlightSpan>, lo: int, hi: int)
    requires
        stably_sorted_from(r, s),
        spans_within(s, lo, hi),
    ensures
        spans_within(r, lo, hi),
{
    assert forall|i: int| 0 <= i < r.len() implies lo <= (#[trigger] r[i]).start <= r[i].end <= hi by {
        let x = r[i];
        r.lemma_filter_contains(starts_at(x.start), i);
        assert(s.filter(starts_at(x.start)) == r.filter(starts_at(x.start)));
        s.lemma_filter_contains_rev(starts_at(x.start), x);
        let j = choose|j: int| 0 <= j < s.len() && s[j] == x;
        assert(lo <= s[j].start <= s[j].end <= hi);
    }
}

/// Keeping some of the spans keeps them within their bounds.
pub proof fn lemma_filter_keeps_bounds(s: Seq<HighlightSpan>, p: spec_fn(HighlightSpan) -> bool, lo: int, hi: int)
    requires
        spans_within(s, lo, hi),
    ensures
        spans_within(s.filter(p), lo, hi),
{
    assert forall|i: int| 0 <= i < s.filter(p).len() implies lo <= (#[trigger] s.filter(p)[i]).start
        <= s.filter(p)[i].end <= hi by {
        let x = s.filter(p)[i];
        assert(s.filter(p).contains(x));
        s.lemma_filter_contains_rev(p, x);
        let j = choose|j: int| 0 <= j < s.len() && s[j] == x;
        assert(lo <= s[j].start);
    }
}

/// Stable sort by start offset (insertion into the sorted prefix, after
/// every span that starts no later).
fn sort_spans_by_start(v: &Vec<HighlightSpan>) -> (out: Vec<HighlightSpan>)
    ensures
        stably_sorted_from(out@, v@),
{
    let mut out: Vec<HighlightSpan> = Vec::new();
    let mut i: usize = 0;
    while i < v.len()
        invariant
            i <= v@.len(),
            sorted_by_start(out@),
            forall|k: usize| #[trigger] out@.filter(starts_at(k)) == v@.take(i as int).filter(starts_at(k)),
        decreases v@.len() - i,
    {
        let x = v[i];
        let mut p: usize = 0;
        while p < out.len() && out[p].start <= x.start
            invariant
                p <= out@.len(),
                forall|j: int| 0 <= j < p ==> #[trigger] out@[j].start <= x.start,
            decreases out@.len() - p,
        {
            p += 1;
        }
        proof {
            assert forall|j: int| p <= j < out@.len() implies #[trigger] out@[j].start > x.start by {
                assert(out@[p as int].start > x.start);
            }
            assert forall|k: usize| #[trigger] out@.insert(p as int, x).filter(starts_at(k))
                == v@.take(i + 1).filter(starts_at(k)) by {
                lemma_insert_keeps_groups(out@, p as int, x, k);
                assert(v@.take(i + 1) =~= v@.take(i as int).push(x));
                v@.take(i as int).lemma_filter_push(x, starts_at(k));
            }
        }
        let ghost old_out = out@;
        out.insert(p, x);
        proof {
            assert forall|a: int, b: int| 0 <= a <= b < out@.len() implies out@[a].start <= out@[b].start by {
                if a < p && b > p {
                    assert(old_out[a].start <= x.start);
                    assert(old_out[b - 1].start > x.start);
                }
            }
        }
        i += 1;
    }
    assert(v@.take(v@.len() as int) =~= v@);
    out
}

fn overlaps_some_range(s: HighlightSpan, injections: &Vec<(Range<usize>, Vec<HighlightSpan>)>) -> (r: bool)
    ensures
        r == overlaps_any(s, injections@),
{
    let mut j: usize = 0;
    while j < injections.len()
        invariant
            j <= injections@.len(),
            forall|t: int| 0 <= t < j ==> !#[trigger] overlaps(s, injections@[t].0),
        decreases injections@.len() - j,
    {
        let r = &injections[j].0;
        if s.start < r.end && r.start < s.end {
            assert(overlaps(s, injections@[j as int].0));
            return true;
        }
        j += 1;
    }
    false
}

/// Replaces the outer-language spans that overlap an injected range by the
/// injected spans, then orders everything stably by start offset. With no
/// injection the outer spans come back as they are.
pub fn merge_injection_spans(
    outer: Vec<HighlightSpan>,
    injections: Vec<(Range<usize>, Vec<HighlightSpan>)>,
) -> (merged: Vec<HighlightSpan>)
    ensures
        injections@.len() == 0 ==> merged@ == outer@,
        injections@.len() > 0 ==> stably_sorted_from(
            merged@,
            kept_outer(outer@, injections@) + injected_spans(injections@),
        ),
{
    if injections.len() == 0 {
        return outer;
    }
    let mut candidates: Vec<HighlightSpan> = Vec::new();
    let mut i: usize = 0;
    while i < outer.len()
        invariant
            i <= outer@.len(),
            candidates@ == kept_outer(outer@.take(i as int), injections@),
        decreases outer@.len() - i,
    {
        let s = outer[i];
        let keep = !overlaps_some_range(s, &injections);
        proof {
            assert(outer@.take(i + 1) =~= outer@.take(i as int).push(s));
            outer@.take(i as int).lemma_filter_push(s, |s: HighlightSpan| !overlaps_any(s, injections@));
        }
        if keep {
            candidates.push(s);
        }
        i += 1;
    }
    assert(outer@.take(outer@.len() as int) =~= outer@);
    let ghost kept = candidates@;
    let mut t: usize = 0;
    while t < injections.len()
        invariant
            t <= injections@.len(),
            candidates@ == kept + injected_spans(injections@.take(t as int)),
        decreases injections@.len() - t,
    {
        let inner = &injections[t].1;
        let ghost before = candidates@;
        let mut u: usize = 0;
        while u < inner.len()
            invariant
                u <= inner@.len(),
                inner@ == injections@[t as int].1@,
                candidates@ == before + inner@.take(u as int),
            decreases inner@.len() - u,
        {
            candidates.push(inner[u]);
            proof {
                assert(inner@.take(u + 1) =~= inner@.take(u as int).push(inner@[u as int]));
            }
            u += 1;
        }
        proof {
            assert(inner@.take(inner@.len() as int) =~= inner@);
            assert(injections@.take(t + 1).drop_last() =~= injections@.take(t as int));
        }
        t += 1;
    }
    assert(injections@.take(injections@.len() as int) =~= injections@);
    sort_spans_by_start(&candidates)
}


/// The token class of a capture-name base (the part before the first `.`).
pub open spec fn token_for_base(base: Seq<char>) -> Option<TokenType> {
    if base == "annotation"@ || base == "attribute"@ || base == "decorator"@ {
        Some(TokenType::Keyword)
    } else if base == "boolean"@ {
        Some(TokenType::Constant)
    } else if base == "character"@ {
        Some(TokenType::String)
    } else if base == "class"@ || base == "constructor"@ || base == "enum"@ || base == "interface"@ || base == "struct"@ || base == "trait"@ {
        Some(TokenType::Type)
    } else if base == "comment"@ {
        Some(TokenType::Comment)
    } else if base == "conditional"@ || base == "exception"@ || base == "include"@ || base == "repeat"@ || base == "storageclass"@ {
        Some(TokenType::Keyword)
    } else if base == "constant"@ {
        Some(TokenType::Constant)
    } else if base == "delimiter"@ {
        Some(TokenType::Punctuation)
    } else if base == "escape"@ {
        Some(TokenType::Operator)
    } else if base == "field"@ {
        Some(TokenType::Property)
    } else if base == "float"@ {
        Some(TokenType::Number)
    } else if base == "function"@ {
        Some(TokenType::Function)
    } else if base == "identifier"@ {
        Some(TokenType::Variable)
    } else if base == "keyword"@ {
        Some(TokenType::Keyword)
    } else if base == "label"@ {
        Some(TokenType::Label)
    } else if base == "macro"@ || base == "method"@ {
        Some(TokenType::Function)
    } else if base == "module"@ || base == "namespace"@ {
        Some(TokenType::Type)
    } else if base == "number"@ {
        Some(TokenType::Number)
    } else if base == "operator"@ {
        Some(TokenType::Operator)
    } else if base == "parameter"@ {
        Some(TokenType::Parameter)
    } else if base == "property"@ {
        Some(TokenType::Property)
    } else if base == "punctuation"@ {
        Some(TokenType::Punctuation)
    } else if base == "regexp"@ {
        Some(TokenType::String)
    } else if base == "special"@ {
        Some(TokenType::Operator)
    } else if base == "string"@ {
        Some(TokenType::String)
    } else if base == "tag"@ {
        Some(TokenType::Type)
    } else if base == "text"@ {
        Some(TokenType::String)
    } else if base == "type"@ {
        Some(TokenType::Type)
    } else if base == "variable"@ {
        Some(TokenType::Variable)
    } else {
        None
    }
}

/// The capture-name bases drawn in each token class, as the highlight
/// queries use them.
pub open spec fn bases_of_keyword() -> Set<Seq<char>> {
    set!["annotation"@, "attribute"@, "decorator"@, "conditional"@, "exception"@, "include"@, "repeat"@, "storageclass"@, "keyword"@]
}

pub open spec fn bases_of_constant() -> Set<Seq<char>> {
    set!["boolean"@, "constant"@]
}

pub open spec fn bases_of_string() -> Set<Seq<char>> {
    set!["character"@, "regexp"@, "string"@, "text"@]
}

pub open spec fn bases_of_type() -> Set<Seq<char>> {
    set!["class"@, "constructor"@, "enum"@, "interface"@, "struct"@, "trait"@, "module"@, "namespace"@, "tag"@, "type"@]
}

pub open spec fn bases_of_comment() -> Set<Seq<char>> {
    set!["comment"@]
}

pub open spec fn bases_of_punctuation() -> Set<Seq<char>> {
    set!["delimiter"@, "punctuation"@]
}

pub open spec fn bases_of_operator() -> Set<Seq<char>> {
    set!["escape"@, "operator"@, "special"@]
}

pub open spec fn bases_of_property() -> Set<Seq<char>> {
    set!["field"@, "property"@]
}

pub open spec fn bases_of_number() -> Set<Seq<char>> {
    set!["float"@, "number"@]
}

pub open spec fn bases_of_function() -> Set<Seq<char>> {
    set!["function"@, "macro"@, "method"@]
}

pub open spec fn bases_of_variable() -> Set<Seq<char>> {
    set!["identifier"@, "variable"@]
}

pub open spec fn bases_of_label() -> Set<Seq<char>> {
    set!["label"@]
}

pub open spec fn bases_of_parameter() -> Set<Seq<char>> {
    set!["parameter"@]
}

proof fn lemma_token_table()
    ensures
        token_for_base("annotation"@) == Some(TokenType::Keyword),
        token_for_base("attribute"@) == Some(TokenType::Keyword),
        token_for_base("decorator"@) == Some(TokenType::Keyword),
        token_for_base("conditional"@) == Some(TokenType::Keyword),
        token_for_base("exception"@) == Some(TokenType::Keyword),
        token_for_base("include"@) == Some(TokenType::Keyword),
        token_for_base("repeat"@) == Some(TokenType::Keyword),
        token_for_base("storageclass"@) == Some(TokenType::Keyword),
        token_for_base("keyword"@) == Some(TokenType::Keyword),
        token_for_base("boolean"@) == Some(TokenType::Constant),
        token_for_base("constant"@) == Some(TokenType::Constant),
        token_for_base("character"@) == Some(TokenType::String),
        token_for_base("regexp"@) == Some(TokenType::String),
        token_for_base("string"@) == Some(TokenType::String),
        token_for_base("text"@) == Some(TokenType::String),
        token_for_base("class"@) == Some(TokenType::Type),
        token_for_base("constructor"@) == Some(TokenType::Type),
        token_for_base("enum"@) == Some(TokenType::Type),
        token_for_base("interface"@) == Some(TokenType::Type),
        token_for_base("struct"@) == Some(TokenType::Type),
        token_for_base("trait"@) == Some(TokenType::Type),
        token_for_base("module"@) == Some(TokenType::Type),
        token_for_base("namespace"@) == Some(TokenType::Type),
        token_for_base("tag"@) == Some(TokenType::Type),
        token_for_base("type"@) == Some(TokenType::Type),
        token_for_base("comment"@) == Some(TokenType::Comment),
        token_for_base("delimiter"@) == Some(TokenType::Punctuation),
        token_for_base("punctuation"@) == Some(TokenType::Punctuation),
        token_for_base("escape"@) == Some(TokenType::Operator),
        token_for_base("operator"@) == Some(TokenType::Operator),
        token_for_base("special"@) == Some(TokenType::Operator),
        token_for_base("field"@) == Some(TokenType::Property),
        token_for_base("property"@) == Some(TokenType::Property),
        token_for_base("float"@) == Some(TokenType::Number),
        token_for_base("number"@) == Some(TokenType::Number),
        token_for_base("function"@) == Some(TokenType::Function),
        token_for_base("macro"@) == Some(TokenType::Function),
        token_for_base("method"@) == Some(TokenType::Function),
        token_for_base("identifier"@) == Some(TokenType::Variable),
        token_for_base("variable"@) == Some(TokenType::Variable),
        token_for_base("label"@) == Some(TokenType::Label),
        token_for_base("parameter"@) == Some(TokenType::Parameter),
{
    reveal_strlit("annotation");
    reveal_strlit("attribute");
    reveal_strlit("decorator");
    reveal_strlit("conditional");
    reveal_strlit("exception");
    reveal_strlit("include");
    reveal_strlit("repeat");
    reveal_strlit("storageclass");
    reveal_strlit("keyword");
    reveal_strlit("boolean");
    reveal_strlit("constant");
    reveal_strlit("character");
    reveal_strlit("regexp");
    reveal_strlit("string");
    reveal_strlit("text");
    reveal_strlit("class");
    reveal_strlit("constructor");
    reveal_strlit("enum");
    reveal_strlit("interface");
    reveal_strlit("struct");
    reveal_strlit("trait");
    reveal_strlit("module");
    reveal_strlit("namespace");
    reveal_strlit("tag");
    reveal_strlit("type");
    reveal_strlit("comment");
    reveal_strlit("delimiter");
    reveal_strlit("punctuation");
    reveal_strlit("escape");
    reveal_strlit("operator");
    reveal_strlit("special");
    reveal_strlit("field");
    reveal_strlit("property");
    reveal_strlit("float");
    reveal_strlit("number");
    reveal_strlit("function");
    reveal_strlit("macro");
    reveal_strlit("method");
    reveal_strlit("identifier");
    reveal_strlit("variable");
    reveal_strlit("label");
    reveal_strlit("parameter");
    assert("annotation"@.len() == 10 && "annotation"@[0] == 'a' && "annotation"@[1] == 'n' && "annotation"@[2] == 'n' && "annotation"@[3] == 'o');
    assert("attribute"@.len() == 9 && "attribute"@[0] == 'a' && "attribute"@[1] == 't' && "attribute"@[2] == 't' && "attribute"@[3] == 'r');
    assert("decorator"@.len() == 9 && "decorator"@[0] == 'd' && "decorator"@[1] == 'e' && "decorator"@[2] == 'c' && "decorator"@[3] == 'o');
    assert("conditional"@.len() == 11 && "conditional"@[0] == 'c' && "conditional"@[1] == 'o' && "conditional"@[2] == 'n' && "conditional"@[3] == 'd');
    assert("exception"@.len() == 9 && "exception"@[0] == 'e' && "exception"@[1] == 'x' && "exception"@[2] == 'c' && "exception"@[3] == 'e');
    assert("include"@.len() == 7 && "include"@[0] == 'i' && "include"@[1] == 'n' && "include"@[2] == 'c' && "include"@[3] == 'l');
    assert("repeat"@.len() == 6 && "repeat"@[0] == 'r' && "repeat"@[1] == 'e' && "repeat"@[2] == 'p' && "repeat"@[3] == 'e');
    assert("storageclass"@.len() == 12 && "storageclass"@[0] == 's' && "storageclass"@[1] == 't' && "storageclass"@[2] == 'o' && "storageclass"@[3] == 'r');
    assert("keyword"@.len() == 7 && "keyword"@[0] == 'k' && "keyword"@[1] == 'e' && "keyword"@[2] == 'y' && "keyword"@[3] == 'w');
    assert("boolean"@.len() == 7 && "boolean"@[0] == 'b' && "boolean"@[1] == 'o' && "boolean"@[2] == 'o' && "boolean"@[3] == 'l');
    assert("constant"@.len() == 8 && "constant"@[0] == 'c' && "constant"@[1] == 'o' && "constant"@[2] == 'n' && "constant"@[3] == 's');
    assert("character"@.len() == 9 && "character"@[0] == 'c' && "character"@[1] == 'h' && "character"@[2] == 'a' && "character"@[3] == 'r');
    assert("regexp"@.len() == 6 && "regexp"@[0] == 'r' && "regexp"@[1] == 'e' && "regexp"@[2] == 'g' && "regexp"@[3] == 'e');
    assert("string"@.len() == 6 && "string"@[0] == 's' && "string"@[1] == 't' && "string"@[2] == 'r' && "string"@[3] == 'i');
    assert("text"@.len() == 4 && "text"@[0] == 't' && "text"@[1] == 'e' && "text"@[2] == 'x' && "text"@[3] == 't');
    assert("class"@.len() == 5 && "class"@[0] == 'c' && "class"@[1] == 'l' && "class"@[2] == 'a' && "class"@[3] == 's');
    assert("constructor"@.len() == 11 && "constructor"@[0] == 'c' && "constructor"@[1] == 'o' && "constructor"@[2] == 'n' && "constructor"@[3] == 's');
    assert("enum"@.len() == 4 && "enum"@[0] == 'e' && "enum"@[1] == 'n' && "enum"@[2] == 'u' && "enum"@[3] == 'm');
    assert("interface"@.len() == 9 && "interface"@[0] == 'i' && "interface"@[1] == 'n' && "interface"@[2] == 't' && "interface"@[3] == 'e');
    assert("struct"@.len() == 6 && "struct"@[0] == 's' && "struct"@[1] == 't' && "struct"@[2] == 'r' && "struct"@[3] == 'u');
    assert("trait"@.len() == 5 && "trait"@[0] == 't' && "trait"@[1] == 'r' && "trait"@[2] == 'a' && "trait"@[3] == 'i');
    assert("module"@.len() == 6 && "module"@[0] == 'm' && "module"@[1] == 'o' && "module"@[2] == 'd' && "module"@[3] == 'u');
    assert("namespace"@.len() == 9 && "namespace"@[0] == 'n' && "namespace"@[1] == 'a' && "namespace"@[2] == 'm' && "namespace"@[3] == 'e');
    assert("tag"@.len() == 3 && "tag"@[0] == 't' && "tag"@[1] == 'a' && "tag"@[2] == 'g');
    assert("type"@.len() == 4 && "type"@[0] == 't' && "type"@[1] == 'y' && "type"@[2] == 'p' && "type"@[3] == 'e');
    assert("comment"@.len() == 7 && "comment"@[0] == 'c' && "comment"@[1] == 'o' && "comment"@[2] == 'm' && "comment"@[3] == 'm');
    assert("delimiter"@.len() == 9 && "delimiter"@[0] == 'd' && "delimiter"@[1] == 'e' && "delimiter"@[2] == 'l' && "delimiter"@[3] == 'i');
    assert("punctuation"@.len() == 11 && "punctuation"@[0] == 'p' && "punctuation"@[1] == 'u' && "punctuation"@[2] == 'n' && "punctuation"@[3] == 'c');
    assert("escape"@.len() == 6 && "escape"@[0] == 'e' && "escape"@[1] == 's' && "escape"@[2] == 'c' && "escape"@[3] == 'a');
    assert("operator"@.len() == 8 && "operator"@[0] == 'o' && "operator"@[1] == 'p' && "operator"@[2] == 'e' && "operator"@[3] == 'r');
    assert("special"@.len() == 7 && "special"@[0] == 's' && "special"@[1] == 'p' && "special"@[2] == 'e' && "special"@[3] == 'c');
    assert("field"@.len() == 5 && "field"@[0] == 'f' && "field"@[1] == 'i' && "field"@[2] == 'e' && "field"@[3] == 'l');
    assert("property"@.len() == 8 && "property"@[0] == 'p' && "property"@[1] == 'r' && "property"@[2] == 'o' && "property"@[3] == 'p');
    assert("float"@.len() == 5 && "float"@[0] == 'f' && "float"@[1] == 'l' && "float"@[2] == 'o' && "float"@[3] == 'a');
    assert("number"@.len() == 6 && "number"@[0] == 'n' && "number"@[1] == 'u' && "number"@[2] == 'm' && "number"@[3] == 'b');
    assert("function"@.len() == 8 && "function"@[0] == 'f' && "function"@[1] == 'u' && "function"@[2] == 'n' && "function"@[3] == 'c');
    assert("macro"@.len() == 5 && "macro"@[0] == 'm' && "macro"@[1] == 'a' && "macro"@[2] == 'c' && "macro"@[3] == 'r');
    assert("method"@.len() == 6 && "method"@[0] == 'm' && "method"@[1] == 'e' && "method"@[2] == 't' && "method"@[3] == 'h');
    assert("identifier"@.len() == 10 && "identifier"@[0] == 'i' && "identifier"@[1] == 'd' && "identifier"@[2] == 'e' && "identifier"@[3] == 'n');
    assert("variable"@.len() == 8 && "variable"@[0] == 'v' && "variable"@[1] == 'a' && "variable"@[2] == 'r' && "variable"@[3] == 'i');
    assert("label"@.len() == 5 && "label"@[0] == 'l' && "label"@[1] == 'a' && "label"@[2] == 'b' && "label"@[3] == 'e');
    assert("parameter"@.len() == 9 && "parameter"@[0] == 'p' && "parameter"@[1] == 'a' && "parameter"@[2] == 'r' && "parameter"@[3] == 'a');
}

/// Every capture name is drawn by the class its base (the part before
/// the first `.`) belongs to: keywords, constants, strings, types,
/// comments, punctuation, operators, properties, numbers, functions,
/// variables, labels and parameters each have their own bases (so
/// `type` and `type.builtin` are types, `function.method` a function);
/// a name whose base is in no class is not highlighted.
pub proof fn lemma_capture_name_classes(name: Seq<char>)
    ensures
        bases_of_keyword().contains(prefix_before(name, '.')) ==> token_for_base(prefix_before(name, '.')) == Some(TokenType::Keyword),
        bases_of_constant().contains(prefix_before(name, '.')) ==> token_for_base(prefix_before(name, '.')) == Some(TokenType::Constant),
        bases_of_string().contains(prefix_before(name, '.')) ==> token_for_base(prefix_before(name, '.')) == Some(TokenType::String),
        bases_of_type().contains(prefix_before(name, '.')) ==> token_for_base(prefix_before(name, '.')) == Some(TokenType::Type),
        bases_of_comment().contains(prefix_before(name, '.')) ==> token_for_base(prefix_before(name, '.')) == Some(TokenType::Comment),
        bases_of_punctuation().contains(prefix_before(name, '.')) ==> token_for_base(prefix_before(name, '.')) == Some(TokenType::Punctuation),
        bases_of_operator().contains(prefix_before(name, '.')) ==> token_for_base(prefix_before(name, '.')) == Some(TokenType::Operator),
        bases_of_property().contains(prefix_before(name, '.')) ==> token_for_base(prefix_before(name, '.')) == Some(TokenType::Property),
        bases_of_number().contains(prefix_before(name, '.')) ==> token_for_base(prefix_before(name, '.')) == Some(TokenType::Number),
        bases_of_function().contains(prefix_before(name, '.')) ==> token_for_base(prefix_before(name, '.')) == Some(TokenType::Function),
        bases_of_variable().contains(prefix_before(name, '.')) ==> token_for_base(prefix_before(name, '.')) == Some(TokenType::Variable),
        bases_of_label().contains(prefix_before(name, '.')) ==> token_for_base(prefix_before(name, '.')) == Some(TokenType::Label),
        bases_of_parameter().contains(prefix_before(name, '.')) ==> token_for_base(prefix_before(name, '.')) == Some(TokenType::Parameter),
        (!bases_of_keyword().contains(prefix_before(name, '.')) && !bases_of_constant().contains(prefix_before(name, '.')) && !bases_of_string().contains(prefix_before(name, '.')) && !bases_of_type().contains(prefix_before(name, '.')) && !bases_of_comment().contains(prefix_before(name, '.')) && !bases_of_punctuation().contains(prefix_before(name, '.')) && !bases_of_operator().contains(prefix_before(name, '.')) && !bases_of_property().contains(prefix_before(name, '.')) && !bases_of_number().contains(prefix_before(name, '.')) && !bases_of_function().contains(prefix_before(name, '.')) && !bases_of_variable().contains(prefix_before(name, '.')) && !bases_of_label().contains(prefix_before(name, '.')) && !bases_of_parameter().contains(prefix_before(name, '.'))) ==> token_for_base(prefix_before(name, '.')) is None,
{
    lemma_token_table();
    let b = prefix_before(name, '.');
}

/// The token class of a tree-sitter capture name: decided by the part of the
/// name before its first `.` (`"function.method"` is a function); `None`
/// for names that are not highlighted.
pub fn capture_name_to_token(capture_name: &str) -> (r: Option<TokenType>)
    ensures
        r == token_for_base(prefix_before(capture_name@, '.')),
{
    let base = text_before(capture_name, '.');
    let b = base.as_str();
    if str_eq(b, "annotation") || str_eq(b, "attribute") || str_eq(b, "decorator") {
        Some(TokenType::Keyword)
    } else if str_eq(b, "boolean") {
        Some(TokenType::Constant)
    } else if str_eq(b, "character") {
        Some(TokenType::String)
    } else if str_eq(b, "class") || str_eq(b, "constructor") || str_eq(b, "enum") || str_eq(b, "interface") || str_eq(b, "struct") || str_eq(b, "trait") {
        Some(TokenType::Type)
    } else if str_eq(b, "comment") {
        Some(TokenType::Comment)
    } else if str_eq(b, "conditional") || str_eq(b, "exception") || str_eq(b, "include") || str_eq(b, "repeat") || str_eq(b, "storageclass") {
        Some(TokenType::Keyword)
    } else if str_eq(b, "constant") {
        Some(TokenType::Constant)
    } else if str_eq(b, "delimiter") {
        Some(TokenType::Punctuation)
    } else if str_eq(b, "escape") {
        Some(TokenType::Operator)
    } else if str_eq(b, "field") {
        Some(TokenType::Property)
    } else if str_eq(b, "float") {
        Some(TokenType::Number)
    } else if str_eq(b, "function") {
        Some(TokenType::Function)
    } else if str_eq(b, "identifier") {
        Some(TokenType::Variable)
    } else if str_eq(b, "keyword") {
        Some(TokenType::Keyword)
    } else if str_eq(b, "label") {
        Some(TokenType::Label)
    } else if str_eq(b, "macro") || str_eq(b, "method") {
        Some(TokenType::Function)
    } else if str_eq(b, "module") || str_eq(b, "namespace") {
        Some(TokenType::Type)
    } else if str_eq(b, "number") {
        Some(TokenType::Number)
    } else if str_eq(b, "operator") {
        Some(TokenType::Operator)
    } else if str_eq(b, "parameter") {
        Some(TokenType::Parameter)
    } else if str_eq(b, "property") {
        Some(TokenType::Property)
    } else if str_eq(b, "punctuation") {
        Some(TokenType::Punctuation)
    } else if str_eq(b, "regexp") {
        Some(TokenType::String)
    } else if str_eq(b, "special") {
        Some(TokenType::Operator)
    } else if str_eq(b, "string") {
        Some(TokenType::String)
    } else if str_eq(b, "tag") {
        Some(TokenType::Type)
    } else if str_eq(b, "text") {
        Some(TokenType::String)
    } else if str_eq(b, "type") {
        Some(TokenType::Type)
    } else if str_eq(b, "variable") {
        Some(TokenType::Variable)
    } else {
        None
    }
}

/// A capture of a highlight query: the captured node's byte range and the
/// position of the capture's name among the query's capture names.
#[derive(Debug, Clone, Copy)]
pub struct Capture {
    pub start: usize,
    pub end: usize,
    pub index: u32,
}

/// The spans of the captures whose names are highlighted, in capture
/// order.
pub open spec fn captured_spans(caps: Seq<Capture>, names: Seq<Seq<char>>) -> Seq<HighlightSpan>
    decreases caps.len(),
{
    if caps.len() == 0 {
        Seq::empty()
    } else {
        let c = caps.last();
        let rest = captured_spans(caps.drop_last(), names);
        match token_for_base(prefix_before(names[c.index as int], '.')) {
            Some(t) => rest.push(HighlightSpan { start: c.start, end: c.end, token_type: t }),
            None => rest,
        }
    }
}

/// Spans of captures within a byte range lie within it.
pub proof fn lemma_captured_within(caps: Seq<Capture>, names: Seq<Seq<char>>, lo: int, hi: int)
    requires
        forall|i: int| 0 <= i < caps.len() ==> lo <= (#[trigger] caps[i]).start <= caps[i].end <= hi,
    ensures
        spans_within(captured_spans(caps, names), lo, hi),
    decreases caps.len(),
{
    if caps.len() > 0 {
        let c = caps.last();
        assert(caps[caps.len() - 1] == c);
        lemma_captured_within(caps.drop_last(), names, lo, hi);
    }
}

/// The highlight spans of a query's captures: one for each capture whose
/// name is highlighted, stably ordered by start offset.
pub fn spans_from_captures(captures: &Vec<Capture>, names: &Vec<String>) -> (r: Vec<HighlightSpan>)
    requires
        forall|i: int| 0 <= i < captures@.len() ==> (#[trigger] captures@[i]).index < names@.len(),
    ensures
        stably_sorted_from(r@, captured_spans(captures@, string_views(names@))),
{
    let mut spans: Vec<HighlightSpan> = Vec::new();
    let mut i: usize = 0;
    while i < captures.len()
        invariant
            i <= captures@.len(),
            forall|j: int| 0 <= j < captures@.len() ==> (#[trigger] captures@[j]).index < names@.len(),
            spans@ == captured_spans(captures@.take(i as int), string_views(names@)),
        decreases captures@.len() - i,
    {
        let c = captures[i];
        proof {
            assert(captures@.take(i + 1).drop_last() =~= captures@.take(i as int));
            assert(captures@[i as int].index < names@.len());
        }
        let idx = c.index as usize;
        match capture_name_to_token(names[idx].as_str()) {
            Some(t) => {
                spans.push(HighlightSpan { start: c.start, end: c.end, token_type: t });
            },
            None => {},
        }
        i += 1;
    }
    assert(captures@.take(captures@.len() as int) =~= captures@);
    sort_spans_by_start(&spans)
}

/// Position of the first occurrence of `name` in `names`.
pub open spec fn first_index_of(names: Seq<Seq<char>>, name: Seq<char>) -> Option<int>
    decreases names.len(),
{
    if names.len() == 0 {
        None
    } else if names[0] == name {
        Some(0)
    } else {
        match first_index_of(names.drop_first(), name) {
            Some(i) => Some(i + 1),
            None => None,
        }
    }
}

proof fn lemma_first_index_of(names: Seq<Seq<char>>, name: Seq<char>, k: int)
    requires
        0 <= k <= names.len(),
        k < names.len() ==> names[k] == name,
        forall|j: int| 0 <= j < k ==> names[j] != name,
    ensures
        first_index_of(names, name) == if k < names.len() {
            Some(k)
        } else {
            None::<int>
        },
    decreases k,
{
    if k > 0 {
        lemma_first_index_of(names.drop_first(), name, k - 1);
    }
}

/// Position of a capture name among a query's capture names, as a capture
/// index.
pub fn capture_index(names: &Vec<String>, name: &str) -> (r: Option<u32>)
    ensures
        r == match first_index_of(string_views(names@), name@) {
            Some(i) => Some(i as u32),
            None => None::<u32>,
        },
{
    let ghost views = string_views(names@);
    let mut i: usize = 0;
    while i < names.len()
        invariant
            i <= names@.len(),
            views == string_views(names@),
            forall|j: int| 0 <= j < i ==> views[j] != name@,
        decreases names@.len() - i,
    {
        if str_eq(names[i].as_str(), name) {
            proof {
                lemma_first_index_of(views, name@, i as int);
            }
            return Some(i as u32);
        }
        i += 1;
    }
    proof {
        lemma_first_index_of(views, name@, views.len() as int);
    }
    None
}

/// `s` without the characters satisfying `p` at its start.
pub open spec fn trim_start_by(s: Seq<char>, p: spec_fn(char) -> bool) -> Seq<char>
    decreases s.len(),
{
    if s.len() > 0 && p(s[0]) {
        trim_start_by(s.drop_first(), p)
    } else {
        s
    }
}

/// `s` without the characters satisfying `p` at its end.
pub open spec fn trim_end_by(s: Seq<char>, p: spec_fn(char) -> bool) -> Seq<char>
    decreases s.len(),
{
    if s.len() > 0 && p(s.last()) {
        trim_end_by(s.drop_last(), p)
    } else {
        s
    }
}

/// `s` without the characters satisfying `p` at either end.
pub open spec fn trim_by(s: Seq<char>, p: spec_fn(char) -> bool) -> Seq<char> {
    trim_end_by(trim_start_by(s, p), p)
}

/// White space.
pub open spec fn ws() -> spec_fn(char) -> bool {
    |c: char| is_ws(c)
}

/// The quotes around an injected language's name.
pub open spec fn quote() -> spec_fn(char) -> bool {
    |c: char| c == '"' || c == '\'' || c == '`'
}

/// What ends a language name: white space, `,` or `{`.
pub open spec fn name_end() -> spec_fn(char) -> bool {
    |c: char| is_ws(c) || c == ',' || c == '{'
}

/// The text of `s` before its first character satisfying `p`.
pub open spec fn prefix_until(s: Seq<char>, p: spec_fn(char) -> bool) -> Seq<char>
    decreases s.len(),
{
    if s.len() == 0 || p(s[0]) {
        Seq::empty()
    } else {
        seq![s[0]] + prefix_until(s.drop_first(), p)
    }
}

/// ASCII letters in lower case, other characters as they are.
pub open spec fn ascii_lower(s: Seq<char>) -> Seq<char> {
    s.map_values(|c: char| if 'A' <= c <= 'Z' { ((c as u32) + 32) as char } else { c })
}

/// The language an injection names in its captured text: the text
/// trimmed of white space and quotes, up to white space, `,` or `{`,
/// in ASCII lower case; none when that is empty (so ```` ```Rust,ignore ````
/// names `rust`).
pub open spec fn language_name_of(text: Seq<char>) -> Option<Seq<char>> {
    let cleaned = trim_by(trim_by(text, ws()), quote());
    let first = trim_by(prefix_until(cleaned, name_end()), ws());
    if first.len() == 0 {
        None
    } else {
        Some(ascii_lower(first))
    }
}

fn char_matches(c: char, which: u8) -> (r: bool)
    ensures
        which == 0 ==> r == ws()(c),
        which == 1 ==> r == quote()(c),
        which == 2 ==> r == name_end()(c),
{
    if which == 0 {
        is_whitespace(c)
    } else if which == 1 {
        c == '"' || c == '\'' || c == '`'
    } else {
        is_whitespace(c) || c == ',' || c == '{'
    }
}

/// The predicate a selector stands for.
pub open spec fn pred_of(which: u8) -> spec_fn(char) -> bool {
    if which == 0 {
        ws()
    } else if which == 1 {
        quote()
    } else {
        name_end()
    }
}

/// Trims `v[lo..hi]` of the characters `which` selects, at both ends.
fn trim_range(v: &Vec<char>, lo: usize, hi: usize, which: u8) -> (r: (usize, usize))
    requires
        lo <= hi <= v@.len(),
        which <= 2,
    ensures
        lo <= r.0 <= r.1 <= hi,
        v@.subrange(r.0 as int, r.1 as int) == trim_by(v@.subrange(lo as int, hi as int), pred_of(which)),
{
    let ghost p = pred_of(which);
    let mut a = lo;
    while a < hi && char_matches(v[a], which)
        invariant
            lo <= a <= hi <= v@.len(),
            which <= 2,
            p == pred_of(which),
            trim_start_by(v@.subrange(lo as int, hi as int), p) == trim_start_by(v@.subrange(a as int, hi as int), p),
        decreases hi - a,
    {
        assert(v@.subrange(a as int, hi as int).drop_first() =~= v@.subrange(a + 1, hi as int));
        a += 1;
    }
    assert(trim_start_by(v@.subrange(a as int, hi as int), p) == v@.subrange(a as int, hi as int));
    let mut b = hi;
    while b > a && char_matches(v[b - 1], which)
        invariant
            lo <= a <= b <= hi <= v@.len(),
            which <= 2,
            p == pred_of(which),
            trim_end_by(v@.subrange(a as int, hi as int), p) == trim_end_by(v@.subrange(a as int, b as int), p),
        decreases b - a,
    {
        assert(v@.subrange(a as int, b as int).drop_last() =~= v@.subrange(a as int, b - 1));
        b -= 1;
    }
    (a, b)
}

/// The language an injection names in its captured text (see
/// `language_name_of`).
#[verifier::spinoff_prover]
#[verifier::rlimit(40)]
pub fn injection_language_name(text: &str) -> (r: Option<String>)
    ensures
        match (r, language_name_of(text@)) {
            (Some(a), Some(b)) => a@ == b,
            (None, None) => true,
            _ => false,
        },
{
    let v = chars_of(text);
    assert(v@.subrange(0, v@.len() as int) =~= text@);
    let (a, b) = trim_range(&v, 0, v.len(), 0);
    let (c, d) = trim_range(&v, a, b, 1);
    let ghost cleaned = v@.subrange(c as int, d as int);
    let mut e = c;
    while e < d && !char_matches(v[e], 2)
        invariant
            c <= e <= d <= v@.len(),
            cleaned == v@.subrange(c as int, d as int),
            prefix_until(cleaned, name_end()) == v@.subrange(c as int, e as int) + prefix_until(
                v@.subrange(e as int, d as int),
                name_end(),
            ),
        decreases d - e,
    {
        assert(v@.subrange(e as int, d as int).drop_first() =~= v@.subrange(e + 1, d as int));
        assert(v@.subrange(c as int, e + 1) =~= v@.subrange(c as int, e as int) + seq![v@[e as int]]);
        e += 1;
    }
    assert(prefix_until(v@.subrange(e as int, d as int), name_end()) =~= Seq::<char>::empty());
    assert(prefix_until(cleaned, name_end()) =~= v@.subrange(c as int, e as int));
    let (f, g) = trim_range(&v, c, e, 0);
    if f == g {
        return None;
    }
    let mut out = String::new();
    let mut i = f;
    while i < g
        invariant
            f <= i <= g <= v@.len(),
            out@ == ascii_lower(v@.subrange(f as int, i as int)),
        decreases g - i,
    {
        let ch = v[i];
        let lower = if 'A' <= ch && ch <= 'Z' {
            let code = (ch as u8) + 32;
            code as char
        } else {
            ch
        };
        crate::text::push_char(&mut out, lower);
        assert(v@.subrange(f as int, i + 1) =~= v@.subrange(f as int, i as int).push(ch));
        assert(out@ =~= ascii_lower(v@.subrange(f as int, i + 1)));
        i += 1;
    }
    Some(out)
}

/// An injection may be highlighted at nesting `depth` (fewer than four
/// levels).
pub fn injection_depth_allowed(depth: u8) -> (r: bool)
    ensures
        r == (depth < 4),
{
    depth < 4
}

/// A captured range can be highlighted as an injection: non-empty and
/// within the source.
pub fn usable_injection_range(range: &Range<usize>, source_len: usize) -> (r: bool)
    ensures
        r == (range.start < range.end && range.end <= source_len),
{
    !(range.start >= range.end || range.end > source_len)
}

/// A span moved `base` bytes further (offsets that would pass the end of
/// the address range stay at its end).
pub open spec fn shifted(s: HighlightSpan, base: usize) -> HighlightSpan {
    HighlightSpan {
        start: if s.start + base > usize::MAX { usize::MAX } else { (s.start + base) as usize },
        end: if s.end + base > usize::MAX { usize::MAX } else { (s.end + base) as usize },
        token_type: s.token_type,
    }
}

/// Spans of an injected slice moved to the position of the slice in the
/// whole source.
pub fn offset_spans(spans: &Vec<HighlightSpan>, base_offset: usize) -> (r: Vec<HighlightSpan>)
    ensures
        r@ == spans@.map_values(|s: HighlightSpan| shifted(s, base_offset)),
{
    let mut r: Vec<HighlightSpan> = Vec::new();
    let mut i: usize = 0;
    while i < spans.len()
        invariant
            i <= spans@.len(),
            r@ == spans@.take(i as int).map_values(|s: HighlightSpan| shifted(s, base_offset)),
        decreases spans@.len() - i,
    {
        let s = spans[i];
        r.push(HighlightSpan {
            start: s.start.saturating_add(base_offset),
            end: s.end.saturating_add(base_offset),
            token_type: s.token_type,
        });
        assert(spans@.take(i + 1) =~= spans@.take(i as int).push(s));
        assert(r@ =~= spans@.take(i + 1).map_values(|s: HighlightSpan| shifted(s, base_offset)));
        i += 1;
    }
    assert(spans@.take(spans@.len() as int) =~= spans@);
    r
}

} // verus!
