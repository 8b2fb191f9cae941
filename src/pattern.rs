use vstd::prelude::*;
use vstd::string::*;
use crate::path::{lemma_split_on_no_sep, path_segments, split_path, string_views};

verus! {

/// One segment of a route pattern as the contracts see it.
pub enum SegmentSpec {
    Lit(Seq<char>),
    Par(Seq<char>),
}

/// One segment of a route pattern: a literal, or a named parameter (`:id`).
#[derive(Clone, Debug)]
pub enum Segment {
    Literal(String),
    Param(String),
}

impl View for Segment {
    type V = SegmentSpec;

    open spec fn view(&self) -> SegmentSpec {
        match self {
            Segment::Literal(s) => SegmentSpec::Lit(s@),
            Segment::Param(s) => SegmentSpec::Par(s@),
        }
    }
}

/// A path template: the ordered sequence of its segments.
#[derive(Clone, Debug)]
pub struct RoutePattern {
    pub segments: Vec<Segment>,
}

impl View for RoutePattern {
    type V = Seq<SegmentSpec>;

    open spec fn view(&self) -> Seq<SegmentSpec> {
        self.segments@.map_values(|s: Segment| s@)
    }
}

/// A segment written `:name` is the parameter `name`; any other is a literal.
pub open spec fn segment_of_text(s: Seq<char>) -> SegmentSpec {
    if s.len() > 0 && s[0] == ':' {
        SegmentSpec::Par(s.drop_first())
    } else {
        SegmentSpec::Lit(s)
    }
}

pub open spec fn pattern_of(p: Seq<char>) -> Seq<SegmentSpec> {
    path_segments(p).map_values(|s: Seq<char>| segment_of_text(s))
}

pub open spec fn is_param(p: SegmentSpec) -> bool {
    p is Par
}

pub open spec fn segment_accepts(p: SegmentSpec, s: Seq<char>) -> bool {
    match p {
        SegmentSpec::Lit(l) => l == s,
        SegmentSpec::Par(_) => true,
    }
}

/// Same segment count; every literal equals its request segment; a parameter takes any.
pub open spec fn pattern_matches(pat: Seq<SegmentSpec>, segs: Seq<Seq<char>>) -> bool {
    &&& pat.len() == segs.len()
    &&& forall|i: int| 0 <= i < pat.len() ==> segment_accepts(#[trigger] pat[i], segs[i])
}

/// The (name, value) bindings of the parameters among the first `n` segments, in order.
pub open spec fn captures_upto(pat: Seq<SegmentSpec>, segs: Seq<Seq<char>>, n: nat) -> Seq<
    (Seq<char>, Seq<char>),
>
    decreases n,
{
    if n == 0 {
        Seq::empty()
    } else {
        let prev = captures_upto(pat, segs, (n - 1) as nat);
        match pat[n - 1] {
            SegmentSpec::Par(name) => prev.push((name, segs[n - 1])),
            SegmentSpec::Lit(_) => prev,
        }
    }
}

pub open spec fn captures(pat: Seq<SegmentSpec>, segs: Seq<Seq<char>>) -> Seq<
    (Seq<char>, Seq<char>),
> {
    captures_upto(pat, segs, pat.len())
}

pub open spec fn pair_views(v: Seq<(String, String)>) -> Seq<(Seq<char>, Seq<char>)> {
    v.map_values(|p: (String, String)| (p.0@, p.1@))
}

/// `a` beats `b` when, at the first position where one has a literal and the other a
/// parameter, `a` has the literal.
pub open spec fn more_specific(a: Seq<SegmentSpec>, b: Seq<SegmentSpec>) -> bool
    decreases a.len(),
{
    if a.len() == 0 || b.len() == 0 {
        false
    } else if is_param(a[0]) != is_param(b[0]) {
        !is_param(a[0])
    } else {
        more_specific(a.drop_first(), b.drop_first())
    }
}

pub open spec fn same_kinds(a: Seq<SegmentSpec>, b: Seq<SegmentSpec>) -> bool {
    &&& a.len() == b.len()
    &&& forall|i: int| 0 <= i < a.len() ==> is_param(#[trigger] a[i]) == is_param(b[i])
}

/// Equal up to the names of parameters: two such patterns are one route.
pub open spec fn same_shape(a: Seq<SegmentSpec>, b: Seq<SegmentSpec>) -> bool {
    &&& a.len() == b.len()
    &&& forall|i: int|
        0 <= i < a.len() ==> match (#[trigger] a[i], b[i]) {
            (SegmentSpec::Lit(x), SegmentSpec::Lit(y)) => x == y,
            (SegmentSpec::Par(_), SegmentSpec::Par(_)) => true,
            _ => false,
        }
}

pub proof fn lemma_more_specific_transitive(
    a: Seq<SegmentSpec>,
    b: Seq<SegmentSpec>,
    c: Seq<SegmentSpec>,
)
    requires
        more_specific(a, b),
        more_specific(b, c),
    ensures
        more_specific(a, c),
    decreases a.len(),
{
    if is_param(a[0]) == is_param(b[0]) && is_param(b[0]) == is_param(c[0]) {
        lemma_more_specific_transitive(a.drop_first(), b.drop_first(), c.drop_first());
    }
}

pub proof fn lemma_more_specific_total(a: Seq<SegmentSpec>, b: Seq<SegmentSpec>)
    requires
        a.len() == b.len(),
        !same_kinds(a, b),
    ensures
        more_specific(a, b) || more_specific(b, a),
    decreases a.len(),
{
    if a.len() > 0 && is_param(a[0]) == is_param(b[0]) {
        let (a1, b1) = (a.drop_first(), b.drop_first());
        if same_kinds(a1, b1) {
            assert forall|i: int| 0 <= i < a.len() implies is_param(#[trigger] a[i]) == is_param(
                b[i],
            ) by {
                if i > 0 {
                    assert(a[i] == a1[i - 1] && b[i] == b1[i - 1]);
                }
            }
        }
        lemma_more_specific_total(a1, b1);
    }
}

/// Two patterns that accept the same path and agree on where their parameters
/// stand are the same route.
pub proof fn lemma_matching_same_kinds(
    a: Seq<SegmentSpec>,
    b: Seq<SegmentSpec>,
    segs: Seq<Seq<char>>,
)
    requires
        pattern_matches(a, segs),
        pattern_matches(b, segs),
        same_kinds(a, b),
    ensures
        same_shape(a, b),
{
    assert forall|i: int| 0 <= i < a.len() implies match (#[trigger] a[i], b[i]) {
        (SegmentSpec::Lit(x), SegmentSpec::Lit(y)) => x == y,
        (SegmentSpec::Par(_), SegmentSpec::Par(_)) => true,
        _ => false,
    } by {
        assert(segment_accepts(a[i], segs[i]));
        assert(segment_accepts(b[i], segs[i]));
        assert(is_param(a[i]) == is_param(b[i]));
    }
}

/// A pattern of one literal segment, `/name`.
pub proof fn lemma_pattern_one_literal(p: Seq<char>)
    requires
        p.len() >= 1,
        p[0] == '/',
        forall|i: int| 1 <= i < p.len() ==> p[i] != '/',
        p.len() == 1 || p[1] != ':',
    ensures
        pattern_of(p) == seq![SegmentSpec::Lit(p.drop_first())],
        pattern_of(p).len() == 1,
        pattern_of(p)[0] == SegmentSpec::Lit(p.drop_first()),
{
    let t = p.drop_first();
    lemma_split_on_no_sep(t, '/');
    assert(path_segments(p) == seq![t]);
    assert(pattern_of(p) =~= seq![segment_of_text(t)]);
}

/// Parses a route pattern such as `/items/:id`.
pub fn parse_pattern(p: &str) -> (r: RoutePattern)
    ensures
        r@ == pattern_of(p@),
{
    let texts = split_path(p);
    let ghost segs = path_segments(p@);
    let mut segments: Vec<Segment> = Vec::new();
    let mut i: usize = 0;
    while i < texts.len()
        invariant
            i <= texts@.len(),
            string_views(texts@) == segs,
            segments@.map_values(|s: Segment| s@) =~= segs.take(i as int).map_values(
                |s: Seq<char>| segment_of_text(s),
            ),
        decreases texts@.len() - i,
    {
        let t = texts[i].as_str();
        let n = t.unicode_len();
        let ghost old_segments = segments@;
        assert(t@ == segs[i as int]);
        let seg = if n > 0 && t.get_char(0) == ':' {
            Segment::Param(String::from_str(t.substring_char(1, n)))
        } else {
            Segment::Literal(String::from_str(t))
        };
        proof {
            if n > 0 && t@[0] == ':' {
                assert(t@.subrange(1, n as int) =~= t@.drop_first());
            }
        }
        segments.push(seg);
        assert(segs.take(i + 1) =~= segs.take(i as int).push(segs[i as int]));
        assert(segments@.map_values(|s: Segment| s@) =~= old_segments.map_values(|s: Segment| s@).push(
            seg@,
        ));
        i = i + 1;
    }
    assert(segs.take(i as int) =~= segs);
    RoutePattern { segments }
}

/// Whether `a` beats `b` in the tie-break between two matching patterns.
pub fn more_specific_exec(a: &RoutePattern, b: &RoutePattern) -> (r: bool)
    ensures
        r == more_specific(a@, b@),
{
    let mut i: usize = 0;
    assert(a@.skip(0) =~= a@ && b@.skip(0) =~= b@);
    while i < a.segments.len() && i < b.segments.len()
        invariant
            i <= a@.len(),
            i <= b@.len(),
            more_specific(a@, b@) == more_specific(a@.skip(i as int), b@.skip(i as int)),
        decreases a@.len() - i,
    {
        assert(a@[i as int] == a.segments@[i as int]@);
        assert(b@[i as int] == b.segments@[i as int]@);
        let pa = match &a.segments[i] {
            Segment::Param(_) => true,
            Segment::Literal(_) => false,
        };
        let pb = match &b.segments[i] {
            Segment::Param(_) => true,
            Segment::Literal(_) => false,
        };
        assert(a@.skip(i as int)[0] == a@[i as int]);
        assert(b@.skip(i as int)[0] == b@[i as int]);
        if pa != pb {
            return !pa;
        }
        assert(a@.skip(i as int).drop_first() =~= a@.skip(i + 1));
        assert(b@.skip(i as int).drop_first() =~= b@.skip(i + 1));
        i = i + 1;
    }
    false
}

/// Whether two patterns are equal up to the names of their parameters.
pub fn same_shape_exec(a: &RoutePattern, b: &RoutePattern) -> (r: bool)
    ensures
        r == same_shape(a@, b@),
{
    if a.segments.len() != b.segments.len() {
        return false;
    }
    let mut i: usize = 0;
    while i < a.segments.len()
        invariant
            i <= a@.len(),
            a@.len() == b@.len(),
            forall|j: int|
                0 <= j < i ==> match (#[trigger] a@[j], b@[j]) {
                    (SegmentSpec::Lit(x), SegmentSpec::Lit(y)) => x == y,
                    (SegmentSpec::Par(_), SegmentSpec::Par(_)) => true,
                    _ => false,
                },
        decreases a@.len() - i,
    {
        assert(a@[i as int] == a.segments@[i as int]@);
        assert(b@[i as int] == b.segments@[i as int]@);
        let ok = match (&a.segments[i], &b.segments[i]) {
            (Segment::Literal(x), Segment::Literal(y)) => x.eq(y),
            (Segment::Param(_), Segment::Param(_)) => true,
            _ => false,
        };
        if !ok {
            return false;
        }
        i = i + 1;
    }
    true
}

/// Matches request segments against a pattern; on success gives the parameter bindings.
pub fn match_pattern(pat: &RoutePattern, segs: &Vec<String>) -> (r: Option<Vec<(String, String)>>)
    ensures
        r.is_some() == pattern_matches(pat@, string_views(segs@)),
        r.is_some() ==> pair_views(r.unwrap()@) == captures(pat@, string_views(segs@)),
{
    let ghost sv = string_views(segs@);
    if pat.segments.len() != segs.len() {
        return None;
    }
    let mut out: Vec<(String, String)> = Vec::new();
    let mut i: usize = 0;
    while i < pat.segments.len()
        invariant
            i <= pat@.len(),
            pat@.len() == sv.len(),
            sv == string_views(segs@),
            forall|j: int| 0 <= j < i ==> segment_accepts(#[trigger] pat@[j], sv[j]),
            pair_views(out@) == captures_upto(pat@, sv, i as nat),
        decreases pat@.len() - i,
    {
        let ghost old_out = out@;
        assert(sv[i as int] == segs@[i as int]@);
        assert(pat@[i as int] == pat.segments@[i as int]@);
        match &pat.segments[i] {
            Segment::Literal(l) => {
                if !l.eq(&segs[i]) {
                    return None;
                }
            },
            Segment::Param(name) => {
                assert(segment_accepts(pat@[i as int], sv[i as int]));
                out.push((name.clone(), segs[i].clone()));
                assert(pair_views(out@) =~= pair_views(old_out).push((name@, sv[i as int])));
            },
        }
        i = i + 1;
    }
    Some(out)
}

} // verus!
