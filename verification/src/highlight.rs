//! Syntax highlighting of a source text: the language chosen from the
//! file's path, tree-sitter's highlight query over the text, and the
//! languages embedded in it (injections), highlighted in turn up to four
//! levels deep and merged into the outer spans.

use vstd::prelude::*;
use vstd::string::{StrSliceExecFns, StringExecFns, StringSliceAdditionalSpecFns};
use vstd::utf8::{decode_utf8, encode_utf8, is_char_boundary};
use std::ops::Range;
use streaming_iterator::StreamingIterator;
use tree_sitter::{Language, Parser, Query, QueryCursor};
use crate::file_tree::name_of;
use crate::syntax::{
    Capture, HighlightSpan, ascii_lower, by_start, capture_index, captured_spans, first_index_of,
    injected_spans, injection_depth_allowed, injection_language_name, kept_outer, language_name_of,
    lemma_by_start, lemma_captured_within, lemma_filter_keeps_bounds, lemma_stable_order_keeps_bounds,
    merge_injection_spans, sorted_by_start, spans_within, offset_spans, overlaps, overlaps_any, shifted,
    spans_from_captures, stably_sorted_from, usable_injection_range,
};
use crate::text::{chars_of, find_last, last_index_of, lemma_last_index_of_bounds, push_char, str_eq, string_views};

verus! {

broadcast use vstd::utf8::group_utf8_lib;

/// A language the highlighter knows.
#[derive(Debug, Clone, Copy, PartialEq, Eq, Structural)]
pub enum LanguageId {
    Dart,
    Nix,
}

/// A match of a query: the property settings of its pattern (key and
/// value) and its captures.
pub struct QueryMatch {
    pub properties: Vec<(String, Option<String>)>,
    pub captures: Vec<Capture>,
}

/// What a query found in a text: the query's capture names and its
/// matches, in the order tree-sitter reports them.
pub struct QueryRun {
    pub names: Vec<String>,
    pub matches: Vec<QueryMatch>,
}

/// Mathematical form of a query match.
pub struct QueryMatchView {
    pub properties: Seq<(Seq<char>, Option<Seq<char>>)>,
    pub captures: Seq<Capture>,
}

/// Mathematical form of a query run.
pub struct QueryRunView {
    pub names: Seq<Seq<char>>,
    pub matches: Seq<QueryMatchView>,
}

/// Views of property settings.
pub open spec fn properties_view(p: Seq<(String, Option<String>)>) -> Seq<(Seq<char>, Option<Seq<char>>)> {
    p.map_values(
        |e: (String, Option<String>)|
            (
                e.0@,
                match e.1 {
                    Some(v) => Some(v@),
                    None => None,
                },
            ),
    )
}

impl View for QueryMatch {
    type V = QueryMatchView;

    open spec fn view(&self) -> QueryMatchView {
        QueryMatchView { properties: properties_view(self.properties@), captures: self.captures@ }
    }
}

impl View for QueryRun {
    type V = QueryRunView;

    open spec fn view(&self) -> QueryRunView {
        QueryRunView { names: string_views(self.names@), matches: self.matches@.map_values(|m: QueryMatch| m@) }
    }
}

/// The text of a language's highlight query (`injections` false) or
/// injection query (`injections` true).
pub uninterp spec fn query_text(lang: LanguageId, injections: bool) -> Seq<char>;

/// What tree-sitter finds when it parses `source` in `lang` and runs the
/// query `query` over the tree: the query's capture names, and for each
/// match the property settings of its pattern and its captures; `None`
/// when the query or the parse fails.
pub open spec fn tree_query(lang: LanguageId, query: Seq<char>, source: Seq<char>) -> Option<QueryRunView> {
    match (query_info(lang, query), tree_matches(lang, query, source)) {
        (Some(info), Some(ms)) => Some(
            QueryRunView {
                names: info.names,
                matches: ms.map_values(
                    |m: RawMatchView| QueryMatchView { properties: info.properties[m.pattern as int], captures: m.captures },
                ),
            },
        ),
        _ => None,
    }
}

/// Every capture of the run names one of the query's capture names.
pub open spec fn captures_named(run: QueryRunView) -> bool {
    forall|j: int, i: int|
        0 <= j < run.matches.len() && 0 <= i < run.matches[j].captures.len() ==> (#[trigger] run.matches[j].captures[i]).index
            < run.names.len()
}

/// The language has an injection query.
pub open spec fn has_injections(lang: LanguageId) -> bool {
    lang == LanguageId::Nix
}

/// The highlight query of a language: `HIGHLIGHTS_QUERY` of
/// `tree-sitter-dart` or `tree-sitter-nix`. The contract claims only that
/// the text is `query_text(lang, false)`.
#[verifier::external_body]
fn highlights_query(lang: LanguageId) -> (q: &'static str)
    ensures
        q@ == query_text(lang, false),
{
    match lang {
        LanguageId::Dart => tree_sitter_dart::HIGHLIGHTS_QUERY,
        LanguageId::Nix => tree_sitter_nix::HIGHLIGHTS_QUERY,
    }
}

/// The injection query of a language: `INJECTIONS_QUERY` of
/// `tree-sitter-nix`; `tree-sitter-dart` exports none. The contract claims
/// which language has one and that its text is `query_text(lang, true)`.
#[verifier::external_body]
fn injections_query(lang: LanguageId) -> (q: Option<&'static str>)
    ensures
        q is Some <==> has_injections(lang),
        q matches Some(t) ==> t@ == query_text(lang, true),
{
    match lang {
        LanguageId::Dart => None,
        LanguageId::Nix => Some(tree_sitter_nix::INJECTIONS_QUERY),
    }
}

/// What a compiled query says of itself: its capture names and, for each
/// pattern, its property settings.
pub struct QueryInfo {
    pub names: Vec<String>,
    pub properties: Vec<Vec<(String, Option<String>)>>,
}

/// Mathematical form of a query's description.
pub struct QueryInfoView {
    pub names: Seq<Seq<char>>,
    pub properties: Seq<Seq<(Seq<char>, Option<Seq<char>>)>>,
}

impl View for QueryInfo {
    type V = QueryInfoView;

    open spec fn view(&self) -> QueryInfoView {
        QueryInfoView {
            names: string_views(self.names@),
            properties: self.properties@.map_values(|p: Vec<(String, Option<String>)>| properties_view(p@)),
        }
    }
}

/// A match as tree-sitter reports it: the index of its pattern and its
/// captures.
pub struct RawMatch {
    pub pattern: usize,
    pub captures: Vec<Capture>,
}

/// Mathematical form of a reported match.
pub struct RawMatchView {
    pub pattern: usize,
    pub captures: Seq<Capture>,
}

impl View for RawMatch {
    type V = RawMatchView;

    open spec fn view(&self) -> RawMatchView {
        RawMatchView { pattern: self.pattern, captures: self.captures@ }
    }
}

/// Views of reported matches.
pub open spec fn raw_matches_view(v: Seq<RawMatch>) -> Seq<RawMatchView> {
    v.map_values(|m: RawMatch| m@)
}

/// What tree-sitter's compiled `query` for `lang` says of itself; `None`
/// when it does not compile.
pub uninterp spec fn query_info(lang: LanguageId, query: Seq<char>) -> Option<QueryInfoView>;

/// The matches tree-sitter reports for `query` over the parse of `source`
/// in `lang`; `None` when the query or the parse fails.
pub uninterp spec fn tree_matches(lang: LanguageId, query: Seq<char>, source: Seq<char>) -> Option<Seq<RawMatchView>>;

/// Every match names a pattern of the query, and every capture a capture
/// name of the query.
pub open spec fn matches_fit(ms: Seq<RawMatchView>, info: QueryInfoView) -> bool {
    forall|j: int|
        0 <= j < ms.len() ==> (#[trigger] ms[j]).pattern < info.properties.len() && forall|i: int|
            0 <= i < ms[j].captures.len() ==> (#[trigger] ms[j].captures[i]).index < info.names.len()
}

/// Every capture's byte range lies inside a text of `len` bytes.
pub open spec fn ranges_fit(ms: Seq<RawMatchView>, len: int) -> bool {
    forall|j: int, i: int|
        0 <= j < ms.len() && 0 <= i < ms[j].captures.len() ==> (#[trigger] ms[j].captures[i]).start
            <= ms[j].captures[i].end <= len
}

/// Every capture of a run lies inside a text of `len` bytes.
pub open spec fn run_ranges_fit(run: QueryRunView, len: int) -> bool {
    forall|j: int, i: int|
        0 <= j < run.matches.len() && 0 <= i < run.matches[j].captures.len() ==> (
        #[trigger] run.matches[j].captures[i]).start <= run.matches[j].captures[i].end <= len
}

/// Compiles `query` for the language's tree-sitter grammar
/// (`Query::new`) and reads its capture names (`capture_names`) and each
/// pattern's property settings (`property_settings`). The contract claims
/// only that the result is `query_info` of the arguments.
#[verifier::external_body]
fn describe_query(lang: LanguageId, query: &str) -> (r: Option<QueryInfo>)
    ensures
        match r {
            Some(info) => query_info(lang, query@) == Some(info@),
            None => query_info(lang, query@) is None,
        },
{
    let language = Language::new(match lang { LanguageId::Dart => tree_sitter_dart::LANGUAGE, LanguageId::Nix => tree_sitter_nix::LANGUAGE });
    let q = Query::new(&language, query).ok()?;
    let names = q.capture_names().iter().map(|n| n.to_string()).collect();
    let properties = (0..q.pattern_count()).map(|i| q.property_settings(i).iter().map(|p| (p.key.to_string(), p.value.as_ref().map(|v| v.to_string()))).collect()).collect();
    Some(QueryInfo { names, properties })
}

/// Parses `source` with the language's tree-sitter grammar
/// (`Parser::parse`) and runs the compiled `query` over the tree
/// (`QueryCursor::matches`), reporting each match's pattern index and its
/// captures' byte ranges and capture indices. The contract claims that the
/// result is `tree_matches` of the arguments, that, the same query
/// compiling, every pattern and capture index is one of the query's, and
/// that every captured node's byte range lies inside the source.
#[verifier::external_body]
fn match_query(lang: LanguageId, query: &str, source: &str) -> (r: Option<Vec<RawMatch>>)
    ensures
        match r {
            Some(ms) => tree_matches(lang, query@, source@) == Some(raw_matches_view(ms@)) && (query_info(
                lang,
                query@,
            ) matches Some(info) && matches_fit(raw_matches_view(ms@), info)) && ranges_fit(
                raw_matches_view(ms@),
                encode_utf8(source@).len() as int,
            ),
            None => tree_matches(lang, query@, source@) is None,
        },
{
    let language = Language::new(match lang { LanguageId::Dart => tree_sitter_dart::LANGUAGE, LanguageId::Nix => tree_sitter_nix::LANGUAGE });
    let mut parser = Parser::new();
    parser.set_language(&language).ok()?;
    let q = Query::new(&language, query).ok()?;
    let tree = parser.parse(source, None)?;
    let mut cursor = QueryCursor::new();
    let found = cursor.matches(&q, tree.root_node(), source.as_bytes());
    Some(found.map_deref(|m| RawMatch { pattern: m.pattern_index, captures: m.captures().iter().map(|c| Capture { start: c.node.start_byte(), end: c.node.end_byte(), index: c.index }).collect() }).collect())
}

fn copy_properties(p: &Vec<(String, Option<String>)>) -> (r: Vec<(String, Option<String>)>)
    ensures
        properties_view(r@) == properties_view(p@),
{
    let mut r: Vec<(String, Option<String>)> = Vec::new();
    let mut i: usize = 0;
    while i < p.len()
        invariant
            i <= p@.len(),
            properties_view(r@) == properties_view(p@).take(i as int),
        decreases p@.len() - i,
    {
        let key = p[i].0.clone();
        let value = match &p[i].1 {
            Some(v) => Some(v.clone()),
            None => None,
        };
        let ghost before = r@;
        r.push((key, value));
        assert(properties_view(r@) =~= properties_view(before).push(properties_view(p@)[i as int]));
        assert(properties_view(r@) =~= properties_view(p@).take(i + 1));
        i += 1;
    }
    assert(properties_view(p@).take(p@.len() as int) =~= properties_view(p@));
    r
}

/// Runs a query over a source text (see `tree_query`).
fn run_query(lang: LanguageId, query: &str, source: &str) -> (r: Option<QueryRun>)
    ensures
        match r {
            Some(run) => tree_query(lang, query@, source@) == Some(run@) && captures_named(run@)
                && run_ranges_fit(run@, encode_utf8(source@).len() as int),
            None => tree_query(lang, query@, source@) is None,
        },
{
    let info = match describe_query(lang, query) {
        Some(info) => info,
        None => {
            return None;
        },
    };
    let raw = match match_query(lang, query, source) {
        Some(ms) => ms,
        None => {
            return None;
        },
    };
    let ghost iv = info@;
    let ghost rv = raw_matches_view(raw@);
    let ghost want = rv.map_values(
        |m: RawMatchView| QueryMatchView { properties: iv.properties[m.pattern as int], captures: m.captures },
    );
    let mut matches: Vec<QueryMatch> = Vec::new();
    let mut j: usize = 0;
    while j < raw.len()
        invariant
            j <= raw@.len(),
            iv == info@,
            rv == raw_matches_view(raw@),
            matches_fit(rv, iv),
            want == rv.map_values(
                |m: RawMatchView| QueryMatchView { properties: iv.properties[m.pattern as int], captures: m.captures },
            ),
            matches@.map_values(|m: QueryMatch| m@) == want.take(j as int),
        decreases raw@.len() - j,
    {
        assert(rv[j as int] == raw@[j as int]@);
        let pattern = raw[j].pattern;
        assert(pattern < iv.properties.len());
        let properties = copy_properties(&info.properties[pattern]);
        assert(iv.properties[pattern as int] == properties_view(info.properties@[pattern as int]@));
        let captures = raw[j].captures.clone();
        assert(captures@ == raw@[j as int].captures@);
        let m = QueryMatch { properties, captures };
        let ghost before = matches@;
        matches.push(m);
        assert(matches@.map_values(|m: QueryMatch| m@) =~= before.map_values(|m: QueryMatch| m@).push(m@));
        assert(matches@.map_values(|m: QueryMatch| m@) =~= want.take(j + 1));
        j += 1;
    }
    assert(want.take(want.len() as int) =~= want);
    let run = QueryRun { names: info.names, matches };
    assert(run@.matches =~= want);
    assert(run@.names == iv.names);
    proof {
        assert forall|j: int, i: int|
            0 <= j < run@.matches.len() && 0 <= i < run@.matches[j].captures.len() implies (
            #[trigger] run@.matches[j].captures[i]).index < run@.names.len() by {
            assert(run@.matches[j].captures == rv[j].captures);
            assert(rv[j].captures[i].index < iv.names.len());
        }
        assert forall|j: int, i: int|
            0 <= j < run@.matches.len() && 0 <= i < run@.matches[j].captures.len() implies (
            #[trigger] run@.matches[j].captures[i]).start <= run@.matches[j].captures[i].end
            <= encode_utf8(source@).len() by {
            assert(run@.matches[j].captures == rv[j].captures);
            assert(rv[j].captures[i].start <= rv[j].captures[i].end);
        }
    }
    Some(run)
}

/// `s` ends with `suffix`.
pub open spec fn has_suffix(s: Seq<char>, suffix: Seq<char>) -> bool {
    s.len() >= suffix.len() && s.skip(s.len() - suffix.len()) == suffix
}

/// The language of a file by its extension: `.dart` or `.nix` after a
/// non-empty file name.
pub open spec fn language_for_path(path: Seq<char>) -> Option<LanguageId> {
    let name = name_of(path);
    if name.len() > 5 && has_suffix(name, seq!['.', 'd', 'a', 'r', 't']) {
        Some(LanguageId::Dart)
    } else if name.len() > 4 && has_suffix(name, seq!['.', 'n', 'i', 'x']) {
        Some(LanguageId::Nix)
    } else {
        None
    }
}

/// The language an injection names: `dart` or `nix`.
pub open spec fn language_named(name: Seq<char>) -> Option<LanguageId> {
    if name == "dart"@ {
        Some(LanguageId::Dart)
    } else if name == "nix"@ {
        Some(LanguageId::Nix)
    } else {
        None
    }
}

/// The text of the bytes `[start, end)` of `source`, when they lie inside
/// it and both ends are character boundaries.
pub open spec fn byte_slice(source: Seq<char>, start: int, end: int) -> Option<Seq<char>> {
    let b = encode_utf8(source);
    if 0 <= start <= end <= b.len() && is_char_boundary(b, start) && is_char_boundary(b, end) {
        Some(decode_utf8(b.subrange(start, end)))
    } else {
        None
    }
}

/// The language a pattern's `injection.language` property names (the
/// first such setting with a value), in ASCII lower case.
pub open spec fn property_language(props: Seq<(Seq<char>, Option<Seq<char>>)>) -> Option<Seq<char>>
    decreases props.len(),
{
    if props.len() == 0 {
        None
    } else if props[0].0 == "injection.language"@ && props[0].1 is Some {
        Some(ascii_lower(props[0].1->0))
    } else {
        property_language(props.drop_first())
    }
}

/// The first capture with capture index `idx`.
pub open spec fn first_capture_with(caps: Seq<Capture>, idx: u32) -> Option<Capture>
    decreases caps.len(),
{
    if caps.len() == 0 {
        None
    } else if caps[0].index == idx {
        Some(caps[0])
    } else {
        first_capture_with(caps.drop_first(), idx)
    }
}

/// The language a match injects: named by its pattern's property, else by
/// the text of its `injection.language` capture (see `language_name_of`).
pub open spec fn match_language(names: Seq<Seq<char>>, m: QueryMatchView, source: Seq<char>) -> Option<Seq<char>> {
    match property_language(m.properties) {
        Some(l) => Some(l),
        None => match first_index_of(names, "injection.language"@) {
            None => None,
            Some(li) => match first_capture_with(m.captures, li as u32) {
                None => None,
                Some(c) => match byte_slice(source, c.start as int, c.end as int) {
                    None => None,
                    Some(t) => language_name_of(t),
                },
            },
        },
    }
}

/// All captures of the matches, match after match.
pub open spec fn all_captures(ms: Seq<QueryMatchView>) -> Seq<Capture>
    decreases ms.len(),
{
    if ms.len() == 0 {
        Seq::empty()
    } else {
        all_captures(ms.drop_last()) + ms.last().captures
    }
}

/// The spans of a highlight query's captures, stably ordered by start.
pub open spec fn run_spans(run: QueryRunView) -> Seq<HighlightSpan> {
    by_start(captured_spans(all_captures(run.matches), run.names))
}

/// A span overlaps one of the injected byte ranges.
pub open spec fn overlaps_injection(s: HighlightSpan, inj: Seq<(usize, usize, Seq<HighlightSpan>)>) -> bool {
    exists|j: int| 0 <= j < inj.len() && s.start < (#[trigger] inj[j]).1 && inj[j].0 < s.end
}

/// All injected spans, injection after injection.
pub open spec fn injection_spans(inj: Seq<(usize, usize, Seq<HighlightSpan>)>) -> Seq<HighlightSpan>
    decreases inj.len(),
{
    if inj.len() == 0 {
        Seq::empty()
    } else {
        injection_spans(inj.drop_last()) + inj.last().2
    }
}

/// The outer spans that overlap no injection, then the injected spans,
/// stably ordered by start; the outer spans alone when nothing is
/// injected (what `merge_injection_spans` computes).
pub open spec fn merged(outer: Seq<HighlightSpan>, inj: Seq<(usize, usize, Seq<HighlightSpan>)>) -> Seq<HighlightSpan> {
    if inj.len() == 0 {
        outer
    } else {
        by_start(outer.filter(|s: HighlightSpan| !overlaps_injection(s, inj)) + injection_spans(inj))
    }
}

/// The spans of `source` in `lang` at injection depth `depth`: the
/// highlight query's spans merged with the injected languages' spans.
pub open spec fn highlighted_at(lang: LanguageId, source: Seq<char>, depth: int) -> Seq<HighlightSpan>
    decreases 4 - depth, 4int, 0int, 0int,
{
    match tree_query(lang, query_text(lang, false), source) {
        None => Seq::empty(),
        Some(run) => merged(run_spans(run), gathered(lang, source, depth)),
    }
}

/// The injections of `source` in `lang` at depth `depth` (none from depth
/// four on): for each match of the injection query whose language is
/// known, each of its content captures over a non-empty range inside the
/// source, with the spans of that slice.
pub open spec fn gathered(lang: LanguageId, source: Seq<char>, depth: int) -> Seq<(usize, usize, Seq<HighlightSpan>)>
    decreases 4 - depth, 3int, 0int, 0int,
{
    if depth >= 4 || !has_injections(lang) {
        Seq::empty()
    } else {
        match tree_query(lang, query_text(lang, true), source) {
            None => Seq::empty(),
            Some(run) => match first_index_of(run.names, "injection.content"@) {
                None => Seq::empty(),
                Some(ci) => gathered_matches(run, source, ci as u32, depth, run.matches.len() as int),
            },
        }
    }
}

/// The injections of the first `n` matches.
pub open spec fn gathered_matches(run: QueryRunView, source: Seq<char>, ci: u32, depth: int, n: int) -> Seq<
    (usize, usize, Seq<HighlightSpan>),
>
    decreases 4 - depth, 2int, n, 0int,
{
    if n <= 0 || depth >= 4 || n > run.matches.len() {
        Seq::empty()
    } else {
        let m = run.matches[n - 1];
        gathered_matches(run, source, ci, depth, n - 1) + match match_language(run.names, m, source) {
            None => Seq::empty(),
            Some(name) => match language_named(name) {
                None => Seq::empty(),
                Some(sub) => gathered_captures(m.captures, source, ci, sub, depth, m.captures.len() as int),
            },
        }
    }
}

/// The injections of the first `k` captures of a match injecting `sub`.
pub open spec fn gathered_captures(
    caps: Seq<Capture>,
    source: Seq<char>,
    ci: u32,
    sub: LanguageId,
    depth: int,
    k: int,
) -> Seq<(usize, usize, Seq<HighlightSpan>)>
    decreases 4 - depth, 1int, 0int, k,
{
    if k <= 0 || depth >= 4 || k > caps.len() {
        Seq::empty()
    } else {
        let c = caps[k - 1];
        gathered_captures(caps, source, ci, sub, depth, k - 1) + if c.index == ci && c.start < c.end && c.end
            <= encode_utf8(source).len() {
            match byte_slice(source, c.start as int, c.end as int) {
                Some(t) => seq![(c.start, c.end, slice_spans(sub, t, c.start, depth + 1))],
                None => Seq::empty(),
            }
        } else {
            Seq::empty()
        }
    }
}

/// The spans of an injected slice, moved to where the slice starts.
pub open spec fn slice_spans(lang: LanguageId, text: Seq<char>, base: usize, depth: int) -> Seq<HighlightSpan>
    decreases 4 - depth, 5int, 0int, 0int,
{
    highlighted_at(lang, text, depth).map_values(|s: HighlightSpan| shifted(s, base))
}

/// The language, when its highlight query compiles.
pub open spec fn usable_language(lang: Option<LanguageId>) -> Option<LanguageId> {
    match lang {
        Some(l) => if query_info(l, query_text(l, false)) is Some {
            Some(l)
        } else {
            None
        },
        None => None,
    }
}

/// The spans a highlighter for `lang` gives `source`: none without a
/// language.
pub open spec fn highlighted_spans(lang: Option<LanguageId>, source: Seq<char>) -> Seq<HighlightSpan> {
    match lang {
        None => Seq::empty(),
        Some(l) => highlighted_at(l, source, 0),
    }
}

/// Views of injections as start, end and spans.
pub open spec fn injections_view(v: Seq<(Range<usize>, Vec<HighlightSpan>)>) -> Seq<(usize, usize, Seq<HighlightSpan>)> {
    v.map_values(|e: (Range<usize>, Vec<HighlightSpan>)| (e.0.start, e.0.end, e.1@))
}

proof fn lemma_injected_view(inj: Seq<(Range<usize>, Vec<HighlightSpan>)>)
    ensures
        injected_spans(inj) == injection_spans(injections_view(inj)),
    decreases inj.len(),
{
    if inj.len() > 0 {
        lemma_injected_view(inj.drop_last());
        assert(injections_view(inj.drop_last()) =~= injections_view(inj).drop_last());
    }
}

/// `merge_injection_spans` computes `merged`.
proof fn lemma_merge_view(outer: Seq<HighlightSpan>, inj: Seq<(Range<usize>, Vec<HighlightSpan>)>, r: Seq<HighlightSpan>)
    requires
        inj.len() == 0 ==> r == outer,
        inj.len() > 0 ==> stably_sorted_from(r, kept_outer(outer, inj) + injected_spans(inj)),
    ensures
        r == merged(outer, injections_view(inj)),
{
    let iv = injections_view(inj);
    if inj.len() > 0 {
        lemma_injected_view(inj);
        assert forall|s: HighlightSpan| overlaps_any(s, inj) == overlaps_injection(s, iv) by {
            if overlaps_any(s, inj) {
                let j = choose|j: int| 0 <= j < inj.len() && #[trigger] overlaps(s, inj[j].0);
                assert(s.start < iv[j].1 && iv[j].0 < s.end);
            }
            if overlaps_injection(s, iv) {
                let j = choose|j: int| 0 <= j < iv.len() && s.start < (#[trigger] iv[j]).1 && iv[j].0 < s.end;
                assert(overlaps(s, inj[j].0));
            }
        }
        assert((|s: HighlightSpan| !overlaps_any(s, inj)) =~= (|s: HighlightSpan| !overlaps_injection(s, iv)));
        lemma_by_start(r, kept_outer(outer, inj) + injected_spans(inj));
    }
}

/// Injected spans that lie inside their injections' ranges lie inside the
/// source.
proof fn lemma_injected_within(inj: Seq<(Range<usize>, Vec<HighlightSpan>)>, len: int)
    requires
        forall|k: int|
            0 <= k < inj.len() ==> (#[trigger] inj[k]).0.end <= len && spans_within(
                inj[k].1@,
                inj[k].0.start as int,
                inj[k].0.end as int,
            ),
    ensures
        spans_within(injected_spans(inj), 0, len),
    decreases inj.len(),
{
    if inj.len() > 0 {
        let last = inj.last();
        assert(inj[inj.len() - 1] == last);
        lemma_injected_within(inj.drop_last(), len);
        let a = injected_spans(inj.drop_last());
        assert(injected_spans(inj) == a + last.1@);
        assert forall|i: int| 0 <= i < injected_spans(inj).len() implies 0 <= (
        #[trigger] injected_spans(inj)[i]).start <= injected_spans(inj)[i].end <= len by {
            if i >= a.len() {
                assert(injected_spans(inj)[i] == last.1@[i - a.len()]);
            } else {
                assert(injected_spans(inj)[i] == a[i]);
            }
        }
    }
}

/// An injection lies inside a source of `len` bytes and its spans inside
/// its range.
pub open spec fn injection_fits(e: (Range<usize>, Vec<HighlightSpan>), len: int) -> bool {
    e.0.start < e.0.end <= len && spans_within(e.1@, e.0.start as int, e.0.end as int)
}

/// `language_for_path` computed.
pub fn language_for_path_of(path: &str) -> (r: Option<LanguageId>)
    ensures
        r == language_for_path(path@),
{
    let v = chars_of(path);
    proof {
        lemma_last_index_of_bounds(path@, '/');
    }
    let from: usize = match find_last(&v, '/') {
        Some(k) => k + 1,
        None => 0,
    };
    let ghost name = name_of(path@);
    assert(name =~= v@.skip(from as int));
    let n = v.len() - from;
    if n > 5 && v[v.len() - 5] == '.' && v[v.len() - 4] == 'd' && v[v.len() - 3] == 'a' && v[v.len() - 2] == 'r'
        && v[v.len() - 1] == 't' {
        assert(name.skip(name.len() - 5) =~= seq!['.', 'd', 'a', 'r', 't']);
        return Some(LanguageId::Dart);
    }
    if n > 5 {
        assert(!has_suffix(name, seq!['.', 'd', 'a', 'r', 't'])) by {
            if has_suffix(name, seq!['.', 'd', 'a', 'r', 't']) {
                assert(name.skip(name.len() - 5)[0] == v@[v@.len() - 5]);
                assert(name.skip(name.len() - 5)[1] == v@[v@.len() - 4]);
                assert(name.skip(name.len() - 5)[2] == v@[v@.len() - 3]);
                assert(name.skip(name.len() - 5)[3] == v@[v@.len() - 2]);
                assert(name.skip(name.len() - 5)[4] == v@[v@.len() - 1]);
            }
        }
    }
    if n > 4 && v[v.len() - 4] == '.' && v[v.len() - 3] == 'n' && v[v.len() - 2] == 'i' && v[v.len() - 1] == 'x' {
        assert(name.skip(name.len() - 4) =~= seq!['.', 'n', 'i', 'x']);
        return Some(LanguageId::Nix);
    }
    if n > 4 {
        assert(!has_suffix(name, seq!['.', 'n', 'i', 'x'])) by {
            if has_suffix(name, seq!['.', 'n', 'i', 'x']) {
                assert(name.skip(name.len() - 4)[0] == v@[v@.len() - 4]);
                assert(name.skip(name.len() - 4)[1] == v@[v@.len() - 3]);
                assert(name.skip(name.len() - 4)[2] == v@[v@.len() - 2]);
                assert(name.skip(name.len() - 4)[3] == v@[v@.len() - 1]);
            }
        }
    }
    None
}

/// `language_named` computed.
pub fn language_by_name(name: &str) -> (r: Option<LanguageId>)
    ensures
        r == language_named(name@),
{
    if str_eq(name, "dart") {
        Some(LanguageId::Dart)
    } else if str_eq(name, "nix") {
        Some(LanguageId::Nix)
    } else {
        None
    }
}

/// `byte_slice` computed (what `str::get` with a byte range gives).
pub fn slice_of(source: &str, start: usize, end: usize) -> (r: Option<String>)
    ensures
        match (r, byte_slice(source@, start as int, end as int)) {
            (Some(a), Some(b)) => a@ == b,
            (None, None) => true,
            _ => false,
        },
        r matches Some(a) ==> encode_utf8(a@).len() == end - start,
{
    if start <= end && source.is_char_boundary(start) && source.is_char_boundary(end) {
        let ghost b = encode_utf8(source@);
        let (head, _) = source.split_at(end);
        assert(encode_utf8(head@) == b.subrange(0, end as int));
        proof {
            let hb = encode_utf8(head@);
            if start < end {
                assert(hb[start as int] == b[start as int]);
                assert(is_char_boundary(hb, start as int));
            } else {
                assert(is_char_boundary(hb, hb.len() as int));
            }
        }
        let (_, mid) = head.split_at(start);
        assert(encode_utf8(mid@) =~= b.subrange(start as int, end as int));
        assert(mid@ == decode_utf8(encode_utf8(mid@)));
        assert(byte_slice(source@, start as int, end as int) == Some(mid@));
        let r = String::from_str(mid);
        assert(r@ == mid@);
        Some(r)
    } else {
        assert(byte_slice(source@, start as int, end as int) is None);
        None
    }
}

/// The text in ASCII lower case.
fn lower_ascii(s: &str) -> (r: String)
    ensures
        r@ == ascii_lower(s@),
{
    let v = chars_of(s);
    let mut out = String::new();
    let mut i: usize = 0;
    while i < v.len()
        invariant
            i <= v@.len(),
            v@ == s@,
            out@ == ascii_lower(v@.take(i as int)),
        decreases v@.len() - i,
    {
        let ch = v[i];
        let lower = if 'A' <= ch && ch <= 'Z' {
            let code = (ch as u8) + 32;
            code as char
        } else {
            ch
        };
        push_char(&mut out, lower);
        assert(v@.take(i + 1) =~= v@.take(i as int).push(ch));
        assert(out@ =~= ascii_lower(v@.take(i + 1)));
        i += 1;
    }
    assert(v@.take(v@.len() as int) =~= v@);
    out
}

fn find_property_language(props: &Vec<(String, Option<String>)>) -> (r: Option<String>)
    ensures
        match (r, property_language(properties_view(props@))) {
            (Some(a), Some(b)) => a@ == b,
            (None, None) => true,
            _ => false,
        },
{
    let ghost pv = properties_view(props@);
    assert(pv.skip(0) =~= pv);
    let mut i: usize = 0;
    while i < props.len()
        invariant
            i <= props@.len(),
            pv == properties_view(props@),
            property_language(pv) == property_language(pv.skip(i as int)),
        decreases props@.len() - i,
    {
        proof {
            assert(pv.skip(i as int).drop_first() =~= pv.skip(i + 1));
            assert(pv.skip(i as int)[0] == pv[i as int]);
        }
        if str_eq(props[i].0.as_str(), "injection.language") {
            match &props[i].1 {
                Some(v) => {
                    return Some(lower_ascii(v.as_str()));
                },
                None => {},
            }
        }
        i += 1;
    }
    assert(pv.skip(i as int) =~= Seq::<(Seq<char>, Option<Seq<char>>)>::empty());
    None
}

fn find_capture_with(caps: &Vec<Capture>, idx: u32) -> (r: Option<Capture>)
    ensures
        r == first_capture_with(caps@, idx),
{
    assert(caps@.skip(0) =~= caps@);
    let mut i: usize = 0;
    while i < caps.len()
        invariant
            i <= caps@.len(),
            first_capture_with(caps@, idx) == first_capture_with(caps@.skip(i as int), idx),
        decreases caps@.len() - i,
    {
        proof {
            assert(caps@.skip(i as int).drop_first() =~= caps@.skip(i + 1));
        }
        if caps[i].index == idx {
            return Some(caps[i]);
        }
        i += 1;
    }
    assert(caps@.skip(i as int) =~= Seq::<Capture>::empty());
    None
}

/// The language a match injects (see `match_language`).
fn language_of_match(names: &Vec<String>, m: &QueryMatch, source: &str) -> (r: Option<String>)
    ensures
        match (r, match_language(string_views(names@), m@, source@)) {
            (Some(a), Some(b)) => a@ == b,
            (None, None) => true,
            _ => false,
        },
{
    match find_property_language(&m.properties) {
        Some(l) => Some(l),
        None => match capture_index(names, "injection.language") {
            None => None,
            Some(li) => match find_capture_with(&m.captures, li) {
                None => None,
                Some(c) => match slice_of(source, c.start, c.end) {
                    None => None,
                    Some(t) => injection_language_name(t.as_str()),
                },
            },
        },
    }
}

/// The spans of `source` in `lang` at injection depth `depth` (see
/// `highlighted_at`).
fn highlight_at(lang: LanguageId, source: &str, depth: u8) -> (r: Vec<HighlightSpan>)
    requires
        depth <= 4,
    ensures
        r@ == highlighted_at(lang, source@, depth as int),
        sorted_by_start(r@),
        spans_within(r@, 0, encode_utf8(source@).len() as int),
    decreases 4 - depth, 4int, 0int, 0int,
{
    let query = highlights_query(lang);
    match run_query(lang, query, source) {
        None => Vec::new(),
        Some(run) => {
            let mut caps: Vec<Capture> = Vec::new();
            let mut j: usize = 0;
            while j < run.matches.len()
                invariant
                    j <= run.matches@.len(),
                    captures_named(run@),
                    caps@ == all_captures(run@.matches.take(j as int)),
                    forall|i: int| 0 <= i < caps@.len() ==> (#[trigger] caps@[i]).index < run.names@.len(),
                    run_ranges_fit(run@, encode_utf8(source@).len() as int),
                    forall|i: int| 0 <= i < caps@.len() ==> (#[trigger] caps@[i]).start <= caps@[i].end
                        <= encode_utf8(source@).len(),
                decreases run.matches@.len() - j,
            {
                let ghost before = caps@;
                let mut i: usize = 0;
                while i < run.matches[j].captures.len()
                    invariant
                        j < run.matches@.len(),
                        i <= run.matches@[j as int].captures@.len(),
                        captures_named(run@),
                        caps@ == before + run.matches@[j as int].captures@.take(i as int),
                        forall|t: int| 0 <= t < before.len() ==> (#[trigger] before[t]).index < run.names@.len(),
                        run_ranges_fit(run@, encode_utf8(source@).len() as int),
                        forall|t: int| 0 <= t < before.len() ==> (#[trigger] before[t]).start <= before[t].end
                            <= encode_utf8(source@).len(),
                    decreases run.matches@[j as int].captures@.len() - i,
                {
                    let c = run.matches[j].captures[i];
                    proof {
                        assert(run@.matches[j as int] == run.matches@[j as int]@);
                        assert(run@.matches[j as int].captures[i as int] == c);
                    }
                    caps.push(c);
                    assert(run.matches@[j as int].captures@.take(i + 1) =~= run.matches@[j as int].captures@.take(
                        i as int,
                    ).push(c));
                    i += 1;
                }
                proof {
                    let ms = run@.matches;
                    assert(ms.take(j + 1).drop_last() =~= ms.take(j as int));
                    assert(ms.take(j + 1).last() == run.matches@[j as int]@);
                    assert(run.matches@[j as int].captures@.take(i as int) =~= run.matches@[j as int].captures@);
                    assert forall|t: int| 0 <= t < caps@.len() implies (#[trigger] caps@[t]).index
                        < run.names@.len() by {
                        if t >= before.len() {
                            let k = t - before.len();
                            assert(caps@[t] == run.matches@[j as int].captures@[k]);
                            assert(run@.matches[j as int].captures[k] == caps@[t]);
                        }
                    }
                    assert forall|t: int| 0 <= t < caps@.len() implies (#[trigger] caps@[t]).start <= caps@[t].end
                        <= encode_utf8(source@).len() by {
                        if t >= before.len() {
                            let k = t - before.len();
                            assert(caps@[t] == run.matches@[j as int].captures@[k]);
                            assert(run@.matches[j as int].captures[k] == caps@[t]);
                        } else {
                            assert(caps@[t] == before[t]);
                        }
                    }
                }
                j += 1;
            }
            proof {
                assert(run@.matches.take(run@.matches.len() as int) =~= run@.matches);
            }
            let ghost len = encode_utf8(source@).len() as int;
            let outer = spans_from_captures(&caps, &run.names);
            proof {
                lemma_by_start(outer@, captured_spans(caps@, string_views(run.names@)));
                lemma_captured_within(caps@, string_views(run.names@), 0, len);
                lemma_stable_order_keeps_bounds(outer@, captured_spans(caps@, string_views(run.names@)), 0, len);
            }
            let injections = gather_injections(lang, source, depth);
            let ghost inj = injections@;
            let ghost outer_v = outer@;
            let out = merge_injection_spans(outer, injections);
            proof {
                lemma_merge_view(run_spans(run@), inj, out@);
                if inj.len() > 0 {
                    assert forall|k: int| 0 <= k < inj.len() implies (#[trigger] inj[k]).0.end <= len && spans_within(
                        inj[k].1@,
                        inj[k].0.start as int,
                        inj[k].0.end as int,
                    ) by {
                        assert(injection_fits(inj[k], len));
                    }
                    lemma_injected_within(inj, len);
                    lemma_filter_keeps_bounds(outer_v, |s: HighlightSpan| !overlaps_any(s, inj), 0, len);
                    let all = kept_outer(outer_v, inj) + injected_spans(inj);
                    assert forall|i: int| 0 <= i < all.len() implies 0 <= (#[trigger] all[i]).start <= all[i].end
                        <= len by {
                        if i < kept_outer(outer_v, inj).len() {
                            assert(all[i] == kept_outer(outer_v, inj)[i]);
                        } else {
                            assert(all[i] == injected_spans(inj)[i - kept_outer(outer_v, inj).len()]);
                        }
                    }
                    lemma_stable_order_keeps_bounds(out@, all, 0, len);
                }
            }
            out
        },
    }
}

/// The injections of `source` in `lang` at depth `depth` (see `gathered`):
/// none from depth four on; each injection's range is non-empty and inside
/// the source, and its spans lie inside that range.
pub fn gather_injections(lang: LanguageId, source: &str, depth: u8) -> (r: Vec<(Range<usize>, Vec<HighlightSpan>)>)
    ensures
        depth >= 4 ==> r@.len() == 0,
        injections_view(r@) == gathered(lang, source@, depth as int),
        forall|k: int| 0 <= k < r@.len() ==> injection_fits(#[trigger] r@[k], encode_utf8(source@).len() as int),
    decreases 4 - depth, 3int, 0int, 0int,
{
    let mut out: Vec<(Range<usize>, Vec<HighlightSpan>)> = Vec::new();
    assert(injections_view(out@) =~= Seq::<(usize, usize, Seq<HighlightSpan>)>::empty());
    if !injection_depth_allowed(depth) {
        return out;
    }
    let query = match injections_query(lang) {
        Some(q) => q,
        None => {
            return out;
        },
    };
    let run = match run_query(lang, query, source) {
        Some(run) => run,
        None => {
            return out;
        },
    };
    let ci = match capture_index(&run.names, "injection.content") {
        Some(ci) => ci,
        None => {
            return out;
        },
    };
    let mut j: usize = 0;
    while j < run.matches.len()
        invariant
            depth < 4,
            j <= run.matches@.len(),
            tree_query(lang, query_text(lang, true), source@) == Some(run@),
            first_index_of(run@.names, "injection.content"@) matches Some(k) && k as u32 == ci,
            injections_view(out@) == gathered_matches(run@, source@, ci, depth as int, j as int),
            forall|k: int| 0 <= k < out@.len() ==> injection_fits(#[trigger] out@[k], encode_utf8(source@).len() as int),
        decreases run.matches@.len() - j,
    {
        let ghost before = injections_view(out@);
        let m = &run.matches[j];
        assert(run@.matches[j as int] == m@);
        match language_of_match(&run.names, m, source) {
            None => {},
            Some(name) => match language_by_name(name.as_str()) {
                None => {},
                Some(sub) => {
                    let mut i: usize = 0;
                    assert(before + Seq::<(usize, usize, Seq<HighlightSpan>)>::empty() =~= before);
                    while i < m.captures.len()
                        invariant
                            depth < 4,
                            i <= m.captures@.len(),
                            injections_view(out@) == before + gathered_captures(
                                m.captures@,
                                source@,
                                ci,
                                sub,
                                depth as int,
                                i as int,
                            ),
                            forall|k: int| 0 <= k < out@.len() ==> injection_fits(
                                #[trigger] out@[k],
                                encode_utf8(source@).len() as int,
                            ),
                        decreases m.captures@.len() - i,
                    {
                        let c = m.captures[i];
                        assert(m.captures@[i as int] == c);
                        let ghost prev = injections_view(out@);
                        let ghost want = gathered_captures(m.captures@, source@, ci, sub, depth as int, i + 1);
                        assert(want == gathered_captures(m.captures@, source@, ci, sub, depth as int, i as int) + if c.index == ci && c.start < c.end && c.end
                            <= encode_utf8(source@).len() {
                            match byte_slice(source@, c.start as int, c.end as int) {
                                Some(t) => seq![(c.start, c.end, slice_spans(sub, t, c.start, depth + 1))],
                                None => Seq::empty(),
                            }
                        } else {
                            Seq::empty()
                        });
                        let range = c.start..c.end;
                        let source_len = source.as_bytes().len();
                        if c.index == ci && usable_injection_range(&range, source_len) {
                            match slice_of(source, c.start, c.end) {
                                Some(text) => {
                                    let inner = highlight_at(sub, text.as_str(), depth + 1);
                                    let moved = offset_spans(&inner, c.start);
                                    proof {
                                        assert forall|t: int| 0 <= t < moved@.len() implies c.start <= (
                                        #[trigger] moved@[t]).start <= moved@[t].end <= c.end by {
                                            assert(moved@[t] == shifted(inner@[t], c.start));
                                        }
                                    }
                                    let ghost before_push = out@;
                                    out.push((range, moved));
                                    proof {
                                        assert forall|k: int| 0 <= k < out@.len() implies injection_fits(
                                            #[trigger] out@[k],
                                            encode_utf8(source@).len() as int,
                                        ) by {
                                            if k < before_push.len() {
                                                assert(out@[k] == before_push[k]);
                                            }
                                        }
                                    }
                                    assert(injections_view(out@) =~= prev.push(
                                        (c.start, c.end, slice_spans(sub, text@, c.start, depth + 1)),
                                    ));
                                },
                                None => {},
                            }
                        }
                        assert(injections_view(out@) =~= before + gathered_captures(
                            m.captures@,
                            source@,
                            ci,
                            sub,
                            depth as int,
                            i + 1,
                        ));
                        i += 1;
                    }
                },
            },
        }
        assert(injections_view(out@) =~= gathered_matches(run@, source@, ci, depth as int, j + 1));
        j += 1;
    }
    out
}

/// A syntax highlighter: the language of the file it highlights, if known.
#[derive(Debug, Clone, Copy)]
pub struct Highlighter {
    language: Option<LanguageId>,
}

impl View for Highlighter {
    type V = Option<LanguageId>;

    closed spec fn view(&self) -> Option<LanguageId> {
        self.language
    }
}

impl Highlighter {
    /// A highlighter with no language: it highlights nothing.
    pub fn new() -> (h: Highlighter)
        ensures
            h@ is None,
    {
        Highlighter { language: None }
    }

    /// Chooses the language by the file's path (see `language_for_path`);
    /// `false`, and no language, when the path names none or the language's
    /// highlight query does not compile.
    pub fn set_language_from_path(&mut self, path: &str) -> (known: bool)
        ensures
            final(self)@ == usable_language(language_for_path(path@)),
            known == (final(self)@ is Some),
    {
        self.language = None;
        match language_for_path_of(path) {
            None => false,
            Some(lang) => {
                let query = highlights_query(lang);
                match describe_query(lang, query) {
                    None => false,
                    Some(_) => {
                        self.language = Some(lang);
                        true
                    },
                }
            },
        }
    }

    /// The language chosen.
    pub fn language(&self) -> (l: Option<LanguageId>)
        ensures
            l == self@,
    {
        self.language
    }

    /// The highlight spans of `source` (see `highlighted_spans`).
    pub fn highlight(&mut self, source: &str) -> (r: Vec<HighlightSpan>)
        ensures
            final(self)@ == old(self)@,
            r@ == highlighted_spans(old(self)@, source@),
            sorted_by_start(r@),
            spans_within(r@, 0, encode_utf8(source@).len() as int),
    {
        match self.language {
            None => Vec::new(),
            Some(lang) => highlight_at(lang, source, 0),
        }
    }
}

impl Default for Highlighter {
    fn default() -> (h: Self)
        ensures
            h@ is None,
    {
        Highlighter::new()
    }
}

} // verus!
