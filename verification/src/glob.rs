//! Glob patterns: compilation and matching.
//!
//! A pattern is a `/`-separated sequence of segments. A segment that is
//! exactly `**` matches any number of path components, including none; any
//! other segment must match exactly one component, character by character:
//! `*` matches any run of characters within the component, `?` matches any
//! one character, `[...]` (or `[!...]` for its complement) matches one
//! character out of a set, and every other character matches itself. `/` is
//! not allowed inside a character class. A matcher built from several
//! patterns accepts a path when at least one pattern matches its normal
//! components.

use crate::path::{path_components, split_path, views_of};
use crate::text::str_to_chars;
use crate::{ErrorModel, PipelineError};
use vstd::prelude::*;

verus! {

/// Ghost form of one in-segment matching unit.
pub enum SpecTok {
    Lit(char),
    Star,
    Question,
    Class { chars: Seq<char>, negated: bool },
}

/// Ghost form of one pattern segment.
pub enum SpecSeg {
    Globstar,
    Toks(Seq<SpecTok>),
}

/// One in-segment matching unit of a compiled pattern.
#[derive(Debug)]
pub enum SegTok {
    Lit(char),
    Star,
    Question,
    Class { chars: Vec<char>, negated: bool },
}

/// One segment of a compiled pattern.
#[derive(Debug)]
pub enum PatSeg {
    Globstar,
    Toks(Vec<SegTok>),
}

/// One pattern string, compiled.
#[derive(Debug)]
pub struct CompiledPattern {
    pub segs: Vec<PatSeg>,
}

/// The disjunction of one or more compiled patterns.
#[derive(Debug)]
pub struct CombinedMatcher {
    pub patterns: Vec<CompiledPattern>,
}

impl View for SegTok {
    type V = SpecTok;

    open spec fn view(&self) -> SpecTok {
        match self {
            SegTok::Lit(c) => SpecTok::Lit(*c),
            SegTok::Star => SpecTok::Star,
            SegTok::Question => SpecTok::Question,
            SegTok::Class { chars, negated } => SpecTok::Class {
                chars: chars@,
                negated: *negated,
            },
        }
    }
}

pub open spec fn toks_view(v: Seq<SegTok>) -> Seq<SpecTok> {
    v.map_values(|t: SegTok| t@)
}

impl View for PatSeg {
    type V = SpecSeg;

    open spec fn view(&self) -> SpecSeg {
        match self {
            PatSeg::Globstar => SpecSeg::Globstar,
            PatSeg::Toks(toks) => SpecSeg::Toks(toks_view(toks@)),
        }
    }
}

pub open spec fn segs_view(v: Seq<PatSeg>) -> Seq<SpecSeg> {
    v.map_values(|s: PatSeg| s@)
}

impl View for CompiledPattern {
    type V = Seq<SpecSeg>;

    open spec fn view(&self) -> Seq<SpecSeg> {
        segs_view(self.segs@)
    }
}

impl View for CombinedMatcher {
    type V = Seq<Seq<SpecSeg>>;

    open spec fn view(&self) -> Seq<Seq<SpecSeg>> {
        self.patterns@.map_values(|p: CompiledPattern| p@)
    }
}

/// The ways a pattern string can fail to parse.
#[derive(Debug, Clone, Copy, PartialEq, Eq)]
pub enum GlobDefect {
    /// A `[` with no closing `]` in its segment.
    UnbalancedBracket,
    /// A `[]` or `[!]` class with no characters in it.
    EmptyClass,
    /// An empty segment, as produced by a leading, trailing or doubled `/`.
    EmptySegment,
    /// A `*` adjacent to another `*` in a segment that is not exactly `**`.
    AdjacentStars,
}

pub open spec fn defect_message(d: GlobDefect) -> Seq<char> {
    match d {
        GlobDefect::UnbalancedBracket => "unbalanced bracket"@,
        GlobDefect::EmptyClass => "empty character class"@,
        GlobDefect::EmptySegment => "empty segment"@,
        GlobDefect::AdjacentStars => "`**` must be a whole segment"@,
    }
}

/// Parses one segment from position `i` on. `class` holds the negation flag
/// and the characters collected so far of a character class whose `[` has
/// been consumed but whose `]` has not.
pub open spec fn parse_segment_from(
    s: Seq<char>,
    i: int,
    class: Option<(bool, Seq<char>)>,
) -> Result<Seq<SpecTok>, GlobDefect>
    decreases s.len() - i,
    when 0 <= i <= s.len()
{
    if i == s.len() {
        match class {
            None => Ok(Seq::empty()),
            Some(_) => Err(GlobDefect::UnbalancedBracket),
        }
    } else {
        let c = s[i];
        match class {
            Some((negated, cs)) => {
                if c == ']' {
                    if cs.len() == 0 {
                        Err(GlobDefect::EmptyClass)
                    } else {
                        match parse_segment_from(s, i + 1, None) {
                            Ok(ts) => Ok(seq![SpecTok::Class { chars: cs, negated }] + ts),
                            Err(d) => Err(d),
                        }
                    }
                } else {
                    parse_segment_from(s, i + 1, Some((negated, cs.push(c))))
                }
            },
            None => {
                if c == '*' {
                    if i + 1 < s.len() && s[i + 1] == '*' {
                        Err(GlobDefect::AdjacentStars)
                    } else {
                        match parse_segment_from(s, i + 1, None) {
                            Ok(ts) => Ok(seq![SpecTok::Star] + ts),
                            Err(d) => Err(d),
                        }
                    }
                } else if c == '?' {
                    match parse_segment_from(s, i + 1, None) {
                        Ok(ts) => Ok(seq![SpecTok::Question] + ts),
                        Err(d) => Err(d),
                    }
                } else if c == '[' {
                    if i + 1 < s.len() && s[i + 1] == '!' {
                        parse_segment_from(s, i + 2, Some((true, Seq::empty())))
                    } else {
                        parse_segment_from(s, i + 1, Some((false, Seq::empty())))
                    }
                } else {
                    match parse_segment_from(s, i + 1, None) {
                        Ok(ts) => Ok(seq![SpecTok::Lit(c)] + ts),
                        Err(d) => Err(d),
                    }
                }
            },
        }
    }
}

/// Parses a pattern's pieces, one segment each.
pub open spec fn parse_pattern_pieces(pieces: Seq<Seq<char>>) -> Result<Seq<SpecSeg>, GlobDefect>
    decreases pieces.len(),
{
    if pieces.len() == 0 {
        Ok(Seq::empty())
    } else {
        let head = pieces[0];
        if head.len() == 0 {
            Err(GlobDefect::EmptySegment)
        } else if head == seq!['*', '*'] {
            match parse_pattern_pieces(pieces.skip(1)) {
                Ok(ss) => Ok(seq![SpecSeg::Globstar] + ss),
                Err(d) => Err(d),
            }
        } else {
            match parse_segment_from(head, 0, None) {
                Ok(ts) => match parse_pattern_pieces(pieces.skip(1)) {
                    Ok(ss) => Ok(seq![SpecSeg::Toks(ts)] + ss),
                    Err(d) => Err(d),
                },
                Err(d) => Err(d),
            }
        }
    }
}

/// Parses a whole pattern string.
pub open spec fn parse_pattern(p: Seq<char>) -> Result<Seq<SpecSeg>, GlobDefect> {
    parse_pattern_pieces(split_path(p))
}

/// Compiles a list of pattern strings; the first defect wins, together with
/// the pattern that holds it.
pub open spec fn compile_list(ps: Seq<Seq<char>>) -> Result<
    Seq<Seq<SpecSeg>>,
    (Seq<char>, GlobDefect),
>
    decreases ps.len(),
{
    if ps.len() == 0 {
        Ok(Seq::empty())
    } else {
        match parse_pattern(ps[0]) {
            Err(d) => Err((ps[0], d)),
            Ok(segs) => match compile_list(ps.skip(1)) {
                Ok(rest) => Ok(seq![segs] + rest),
                Err(e) => Err(e),
            },
        }
    }
}

pub open spec fn strs_view(ps: Seq<String>) -> Seq<Seq<char>> {
    ps.map_values(|s: String| s@)
}

/// Whether one character is accepted by a character class.
pub open spec fn class_matches(chars: Seq<char>, negated: bool, c: char) -> bool {
    chars.contains(c) != negated
}

/// Whether a segment's tokens match a component, character by character.
pub open spec fn tokens_match(toks: Seq<SpecTok>, s: Seq<char>) -> bool
    decreases toks.len(), s.len(),
{
    if toks.len() == 0 {
        s.len() == 0
    } else {
        match toks[0] {
            SpecTok::Star => tokens_match(toks.skip(1), s) || (s.len() > 0 && tokens_match(
                toks,
                s.skip(1),
            )),
            SpecTok::Question => s.len() > 0 && tokens_match(toks.skip(1), s.skip(1)),
            SpecTok::Lit(c) => s.len() > 0 && s[0] == c && tokens_match(toks.skip(1), s.skip(1)),
            SpecTok::Class { chars, negated } => s.len() > 0 && class_matches(chars, negated, s[0])
                && tokens_match(toks.skip(1), s.skip(1)),
        }
    }
}

/// Whether a pattern's segments match a path's components. A `**` segment
/// absorbs any number of leading components; any other segment consumes
/// exactly one.
pub open spec fn segments_match(psegs: Seq<SpecSeg>, comps: Seq<Seq<char>>) -> bool
    decreases psegs.len(), comps.len(),
{
    if psegs.len() == 0 {
        comps.len() == 0
    } else {
        match psegs[0] {
            SpecSeg::Globstar => segments_match(psegs.skip(1), comps) || (comps.len() > 0
                && segments_match(psegs, comps.skip(1))),
            SpecSeg::Toks(toks) => comps.len() > 0 && tokens_match(toks, comps[0])
                && segments_match(psegs.skip(1), comps.skip(1)),
        }
    }
}

/// Whether at least one pattern of the matcher accepts the path's normal
/// components.
pub open spec fn matcher_matches(m: Seq<Seq<SpecSeg>>, path: Seq<char>) -> bool {
    exists|k: int| 0 <= k < m.len() && segments_match(m[k], path_components(path))
}

/// Whether some segment of the pattern is `**`.
pub open spec fn has_globstar(psegs: Seq<SpecSeg>) -> bool {
    exists|i: int| 0 <= i < psegs.len() && psegs[i] is Globstar
}

/// A pattern without `**` matches only paths of exactly its own depth, so it
/// never matches a file that sits deeper under its literal segments.
pub proof fn lemma_no_globstar_fixed_depth(psegs: Seq<SpecSeg>, comps: Seq<Seq<char>>)
    requires
        !has_globstar(psegs),
        segments_match(psegs, comps),
    ensures
        comps.len() == psegs.len(),
    decreases psegs.len(),
{
    if psegs.len() == 0 {
    } else {
        match psegs[0] {
            SpecSeg::Globstar => {
                assert(has_globstar(psegs));
            },
            SpecSeg::Toks(_) => {
                assert(!has_globstar(psegs.skip(1))) by {
                    if has_globstar(psegs.skip(1)) {
                        let i = choose|i: int|
                            0 <= i < psegs.skip(1).len() && psegs.skip(1)[i] is Globstar;
                        assert(psegs[i + 1] is Globstar);
                    }
                }
                lemma_no_globstar_fixed_depth(psegs.skip(1), comps.skip(1));
            },
        }
    }
}

/// A pattern with a `**` segment matches at any depth: whatever it matches,
/// it still matches after one more path level is inserted where the `**`
/// stands. Iterating this puts matched files arbitrarily deep.
pub proof fn lemma_globstar_matches_deeper(
    psegs: Seq<SpecSeg>,
    comps: Seq<Seq<char>>,
    extra: Seq<char>,
)
    requires
        has_globstar(psegs),
        segments_match(psegs, comps),
    ensures
        exists|j: int| 0 <= j <= comps.len() && segments_match(psegs, comps.insert(j, extra)),
    decreases psegs.len(),
{
    match psegs[0] {
        SpecSeg::Globstar => {
            let deeper = comps.insert(0, extra);
            assert(deeper.skip(1) =~= comps);
            assert(segments_match(psegs, deeper));
            assert(0 <= 0 <= comps.len() && segments_match(psegs, comps.insert(0, extra)));
        },
        SpecSeg::Toks(_) => {
            assert(has_globstar(psegs.skip(1))) by {
                let i = choose|i: int| 0 <= i < psegs.len() && psegs[i] is Globstar;
                assert(psegs.skip(1)[i - 1] is Globstar);
            }
            lemma_globstar_matches_deeper(psegs.skip(1), comps.skip(1), extra);
            let j = choose|j: int|
                0 <= j <= comps.skip(1).len() && segments_match(
                    psegs.skip(1),
                    comps.skip(1).insert(j, extra),
                );
            let deeper = comps.insert(j + 1, extra);
            assert(deeper[0] == comps[0]);
            assert(deeper.skip(1) =~= comps.skip(1).insert(j, extra));
            assert(segments_match(psegs, deeper));
        },
    }
}

/// Matching is a pure function of the normalized candidate path: a matcher
/// accepts a path exactly when it accepts its normalized form.
pub proof fn lemma_match_normalized(m: Seq<Seq<SpecSeg>>, path: Seq<char>)
    ensures
        matcher_matches(m, crate::path::normalize_spec(path)) == matcher_matches(m, path),
{
    crate::path::lemma_components_normalize(path);
}

/// Maps a parse defect to its report text.
fn defect_text(d: GlobDefect) -> (r: String)
    ensures
        r@ == defect_message(d),
{
    match d {
        GlobDefect::UnbalancedBracket => String::from_str("unbalanced bracket"),
        GlobDefect::EmptyClass => String::from_str("empty character class"),
        GlobDefect::EmptySegment => String::from_str("empty segment"),
        GlobDefect::AdjacentStars => String::from_str("`**` must be a whole segment"),
    }
}

/// Parses one segment, from `i` on, mirroring `parse_segment_from`.
fn parse_segment_exec(s: &Vec<char>, i: usize, class: Option<(bool, Vec<char>)>) -> (r: Result<
    Vec<SegTok>,
    GlobDefect,
>)
    requires
        i <= s@.len(),
    ensures
        (match parse_segment_from(
            s@,
            i as int,
            match class {
                None => None,
                Some((negated, cs)) => Some((negated, cs@)),
            },
        ) {
            Ok(ts) => r matches Ok(v) && toks_view(v@) == ts,
            Err(d) => r matches Err(e) && e == d,
        }),
    decreases s@.len() - i,
{
    if i == s.len() {
        match class {
            None => {
                let r: Vec<SegTok> = Vec::new();
                proof {
                    assert(toks_view(r@) =~= Seq::<SpecTok>::empty());
                }
                Ok(r)
            },
            Some(_) => Err(GlobDefect::UnbalancedBracket),
        }
    } else {
        let c = s[i];
        match class {
            Some((negated, cs)) => {
                if c == ']' {
                    if cs.len() == 0 {
                        Err(GlobDefect::EmptyClass)
                    } else {
                        match parse_segment_exec(s, i + 1, None) {
                            Ok(mut v) => {
                                let ghost tail = toks_view(v@);
                                v.insert(0, SegTok::Class { chars: cs, negated });
                                proof {
                                    assert(toks_view(v@) =~= seq![
                                        SpecTok::Class { chars: cs@, negated },
                                    ] + tail);
                                }
                                Ok(v)
                            },
                            Err(d) => Err(d),
                        }
                    }
                } else {
                    let mut cs2 = cs;
                    cs2.push(c);
                    parse_segment_exec(s, i + 1, Some((negated, cs2)))
                }
            },
            None => {
                if c == '*' {
                    if i + 1 < s.len() && s[i + 1] == '*' {
                        Err(GlobDefect::AdjacentStars)
                    } else {
                        match parse_segment_exec(s, i + 1, None) {
                            Ok(mut v) => {
                                let ghost tail = toks_view(v@);
                                v.insert(0, SegTok::Star);
                                proof {
                                    assert(toks_view(v@) =~= seq![SpecTok::Star] + tail);
                                }
                                Ok(v)
                            },
                            Err(d) => Err(d),
                        }
                    }
                } else if c == '?' {
                    match parse_segment_exec(s, i + 1, None) {
                        Ok(mut v) => {
                            let ghost tail = toks_view(v@);
                            v.insert(0, SegTok::Question);
                            proof {
                                assert(toks_view(v@) =~= seq![SpecTok::Question] + tail);
                            }
                            Ok(v)
                        },
                        Err(d) => Err(d),
                    }
                } else if c == '[' {
                    if i + 1 < s.len() && s[i + 1] == '!' {
                        parse_segment_exec(s, i + 2, Some((true, Vec::new())))
                    } else {
                        parse_segment_exec(s, i + 1, Some((false, Vec::new())))
                    }
                } else {
                    match parse_segment_exec(s, i + 1, None) {
                        Ok(mut v) => {
                            let ghost tail = toks_view(v@);
                            let ghost ov = v@;
                            v.insert(0, SegTok::Lit(c));
                            proof {
                                ov.insert_ensures(0, SegTok::Lit(c));
                                assert(v@[0] == SegTok::Lit(c));
                                assert(v@[0]@ == SpecTok::Lit(c));
                                assert forall|j: int| 0 <= j < v@.len() implies toks_view(v@)[j]
                                    == (seq![SpecTok::Lit(c)] + tail)[j] by {
                                    if j > 0 {
                                        assert(v@[j] == ov[j - 1]);
                                        assert(v@[j]@ == tail[j - 1]);
                                    }
                                }
                                assert(toks_view(v@) =~= seq![SpecTok::Lit(c)] + tail);
                            }
                            Ok(v)
                        },
                        Err(d) => Err(d),
                    }
                }
            },
        }
    }
}

/// Parses the pattern pieces from `from` on, mirroring
/// `parse_pattern_pieces`.
fn parse_pieces_exec(pieces: &Vec<Vec<char>>, from: usize) -> (r: Result<Vec<PatSeg>, GlobDefect>)
    requires
        from <= pieces@.len(),
    ensures
        (match parse_pattern_pieces(views_of(pieces@).skip(from as int)) {
            Ok(ss) => r matches Ok(v) && segs_view(v@) == ss,
            Err(d) => r matches Err(e) && e == d,
        }),
    decreases pieces@.len() - from,
{
    let ghost s = views_of(pieces@).skip(from as int);
    if from == pieces.len() {
        let r: Vec<PatSeg> = Vec::new();
        proof {
            assert(s =~= Seq::<Seq<char>>::empty());
            assert(segs_view(r@) =~= Seq::<SpecSeg>::empty());
        }
        Ok(r)
    } else {
        proof {
            assert(s[0] == pieces@[from as int]@);
            assert(s.skip(1) =~= views_of(pieces@).skip(from + 1 as int));
        }
        let head = &pieces[from];
        if head.len() == 0 {
            Err(GlobDefect::EmptySegment)
        } else if head.len() == 2 && head[0] == '*' && head[1] == '*' {
            proof {
                assert(head@ =~= seq!['*', '*']);
            }
            match parse_pieces_exec(pieces, from + 1) {
                Ok(mut v) => {
                    let ghost tail = segs_view(v@);
                    v.insert(0, PatSeg::Globstar);
                    proof {
                        assert(segs_view(v@) =~= seq![SpecSeg::Globstar] + tail);
                    }
                    Ok(v)
                },
                Err(d) => Err(d),
            }
        } else {
            proof {
                assert(head@ != seq!['*', '*']) by {
                    if head@ == seq!['*', '*'] {
                        assert(head@.len() == 2 && head@[0] == '*' && head@[1] == '*');
                    }
                }
            }
            match parse_segment_exec(head, 0, None) {
                Ok(toks) => {
                    proof {
                        assert(head@.skip(0) =~= head@);
                    }
                    match parse_pieces_exec(pieces, from + 1) {
                        Ok(mut v) => {
                            let ghost tail = segs_view(v@);
                            let ghost ts = toks_view(toks@);
                            v.insert(0, PatSeg::Toks(toks));
                            proof {
                                assert(segs_view(v@) =~= seq![SpecSeg::Toks(ts)] + tail);
                            }
                            Ok(v)
                        },
                        Err(d) => Err(d),
                    }
                },
                Err(d) => Err(d),
            }
        }
    }
}

/// Compiles one pattern string, or reports the defect that stops it from
/// parsing.
pub fn compile_pattern(pattern: &str) -> (r: Result<CompiledPattern, PipelineError>)
    ensures
        (match parse_pattern(pattern@) {
            Ok(ss) => r matches Ok(p) && p@ == ss,
            Err(d) => r matches Err(e) && e@ == (ErrorModel::PatternSyntax {
                pattern: pattern@,
                message: defect_message(d),
            }),
        }),
{
    let chars = str_to_chars(pattern);
    let pieces = crate::path::split_from(&chars, 0);
    proof {
        assert(chars@.skip(0) =~= chars@);
        assert(views_of(pieces@).skip(0) =~= views_of(pieces@));
    }
    match parse_pieces_exec(&pieces, 0) {
        Ok(segs) => Ok(CompiledPattern { segs }),
        Err(d) => Err(
            PipelineError::PatternSyntaxError {
                pattern: pattern.to_owned(),
                message: defect_text(d),
            },
        ),
    }
}

/// Compiles the patterns from `from` on; the first defect wins.
fn compile_from(patterns: &Vec<String>, from: usize) -> (r: Result<
    Vec<CompiledPattern>,
    PipelineError,
>)
    requires
        from <= patterns@.len(),
    ensures
        (match compile_list(strs_view(patterns@).skip(from as int)) {
            Ok(ms) => r matches Ok(v) && v@.map_values(|p: CompiledPattern| p@) == ms,
            Err((p, d)) => r matches Err(e) && e@ == (ErrorModel::PatternSyntax {
                pattern: p,
                message: defect_message(d),
            }),
        }),
    decreases patterns@.len() - from,
{
    let ghost s = strs_view(patterns@).skip(from as int);
    if from == patterns.len() {
        let r: Vec<CompiledPattern> = Vec::new();
        proof {
            assert(s =~= Seq::<Seq<char>>::empty());
            assert(r@.map_values(|p: CompiledPattern| p@) =~= Seq::<Seq<SpecSeg>>::empty());
        }
        Ok(r)
    } else {
        proof {
            assert(s[0] == patterns@[from as int]@);
            assert(s.skip(1) =~= strs_view(patterns@).skip(from + 1 as int));
        }
        match compile_pattern(patterns[from].as_str()) {
            Err(e) => Err(e),
            Ok(p) => {
                match compile_from(patterns, from + 1) {
                    Err(e) => Err(e),
                    Ok(mut v) => {
                        let ghost tail = v@.map_values(|p: CompiledPattern| p@);
                        let ghost pv = p@;
                        v.insert(0, p);
                        proof {
                            assert(v@.map_values(|p: CompiledPattern| p@) =~= seq![pv] + tail);
                        }
                        Ok(v)
                    },
                }
            },
        }
    }
}

/// Compiles a non-empty list of pattern strings into one combined matcher,
/// or reports the first pattern that does not parse, with its defect.
pub fn compile_patterns(patterns: &Vec<String>) -> (r: Result<CombinedMatcher, PipelineError>)
    requires
        patterns@.len() > 0,
    ensures
        (match compile_list(strs_view(patterns@)) {
            Ok(ms) => r matches Ok(m) && m@ == ms,
            Err((p, d)) => r matches Err(e) && e@ == (ErrorModel::PatternSyntax {
                pattern: p,
                message: defect_message(d),
            }),
        }),
{
    proof {
        assert(strs_view(patterns@).skip(0) =~= strs_view(patterns@));
    }
    match compile_from(patterns, 0) {
        Ok(v) => Ok(CombinedMatcher { patterns: v }),
        Err(e) => Err(e),
    }
}

/// Whether the class characters contain `c`.
fn class_contains(chars: &Vec<char>, c: char) -> (r: bool)
    ensures
        r == chars@.contains(c),
{
    let mut k: usize = 0;
    while k < chars.len()
        invariant
            k <= chars@.len(),
            forall|j: int| 0 <= j < k ==> chars@[j] != c,
        decreases chars@.len() - k,
    {
        if chars[k] == c {
            return true;
        }
        k = k + 1;
    }
    false
}

/// Matches the tokens from `ti` on against the component characters from
/// `si` on, mirroring `tokens_match`.
fn tokens_match_exec(toks: &Vec<SegTok>, ti: usize, s: &Vec<char>, si: usize) -> (r: bool)
    requires
        ti <= toks@.len(),
        si <= s@.len(),
    ensures
        r == tokens_match(toks_view(toks@).skip(ti as int), s@.skip(si as int)),
    decreases toks@.len() - ti, s@.len() - si,
{
    let ghost tv = toks_view(toks@).skip(ti as int);
    let ghost sv = s@.skip(si as int);
    if ti == toks.len() {
        proof {
            assert(tv =~= Seq::<SpecTok>::empty());
        }
        si == s.len()
    } else {
        proof {
            assert(tv[0] == toks@[ti as int]@);
            assert(tv.skip(1) =~= toks_view(toks@).skip(ti + 1 as int));
            if si < s@.len() {
                assert(sv[0] == s@[si as int]);
                assert(sv.skip(1) =~= s@.skip(si + 1 as int));
            }
        }
        match &toks[ti] {
            SegTok::Star => {
                if tokens_match_exec(toks, ti + 1, s, si) {
                    true
                } else if si < s.len() {
                    tokens_match_exec(toks, ti, s, si + 1)
                } else {
                    false
                }
            },
            SegTok::Question => {
                if si < s.len() {
                    tokens_match_exec(toks, ti + 1, s, si + 1)
                } else {
                    false
                }
            },
            SegTok::Lit(c) => {
                if si < s.len() && s[si] == *c {
                    tokens_match_exec(toks, ti + 1, s, si + 1)
                } else {
                    false
                }
            },
            SegTok::Class { chars, negated } => {
                if si < s.len() && class_contains(chars, s[si]) != *negated {
                    tokens_match_exec(toks, ti + 1, s, si + 1)
                } else {
                    false
                }
            },
        }
    }
}

/// Matches the pattern segments from `pi` on against the path components
/// from `ci` on, mirroring `segments_match`.
fn segments_match_exec(segs: &Vec<PatSeg>, pi: usize, comps: &Vec<Vec<char>>, ci: usize) -> (r:
    bool)
    requires
        pi <= segs@.len(),
        ci <= comps@.len(),
    ensures
        r == segments_match(segs_view(segs@).skip(pi as int), views_of(comps@).skip(ci as int)),
    decreases segs@.len() - pi, comps@.len() - ci,
{
    let ghost pv = segs_view(segs@).skip(pi as int);
    let ghost cv = views_of(comps@).skip(ci as int);
    if pi == segs.len() {
        proof {
            assert(pv =~= Seq::<SpecSeg>::empty());
        }
        ci == comps.len()
    } else {
        proof {
            assert(pv[0] == segs@[pi as int]@);
            assert(pv.skip(1) =~= segs_view(segs@).skip(pi + 1 as int));
            if ci < comps@.len() {
                assert(cv[0] == comps@[ci as int]@);
                assert(cv.skip(1) =~= views_of(comps@).skip(ci + 1 as int));
            }
        }
        match &segs[pi] {
            PatSeg::Globstar => {
                if segments_match_exec(segs, pi + 1, comps, ci) {
                    true
                } else if ci < comps.len() {
                    segments_match_exec(segs, pi, comps, ci + 1)
                } else {
                    false
                }
            },
            PatSeg::Toks(toks) => {
                if ci < comps.len() {
                    proof {
                        assert(toks@.map_values(|t: SegTok| t@).skip(0) =~= toks_view(toks@));
                        assert(comps@[ci as int]@.skip(0) =~= comps@[ci as int]@);
                    }
                    if tokens_match_exec(toks, 0, &comps[ci], 0) {
                        segments_match_exec(segs, pi + 1, comps, ci + 1)
                    } else {
                        false
                    }
                } else {
                    false
                }
            },
        }
    }
}

/// Whether at least one pattern of the matcher accepts the path: matching is
/// evaluated against the path's normal components.
pub fn is_match(m: &CombinedMatcher, path: &str) -> (r: bool)
    ensures
        r == matcher_matches(m@, path@),
{
    let chars = str_to_chars(path);
    let comps = crate::path::components_of(&chars);
    let mut k: usize = 0;
    while k < m.patterns.len()
        invariant
            k <= m@.len(),
            m@.len() == m.patterns@.len(),
            views_of(comps@) == path_components(path@),
            forall|j: int| 0 <= j < k ==> !segments_match(m@[j], path_components(path@)),
        decreases m.patterns@.len() - k,
    {
        proof {
            assert(segs_view(m.patterns@[k as int].segs@).skip(0) =~= m@[k as int]);
            assert(views_of(comps@).skip(0) =~= views_of(comps@));
        }
        if segments_match_exec(&m.patterns[k].segs, 0, &comps, 0) {
            assert(segments_match(m@[k as int], path_components(path@)));
            return true;
        }
        k = k + 1;
    }
    false
}

} // verus!
