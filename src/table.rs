use vstd::prelude::*;
use crate::path::{path_segments, split_path, string_views};
use crate::pattern::{
    captures, captures_upto, lemma_matching_same_kinds, lemma_more_specific_total, lemma_more_specific_transitive,
    match_pattern, more_specific, more_specific_exec, pair_views, parse_pattern, pattern_matches,
    pattern_of, same_kinds, same_shape, same_shape_exec, RoutePattern, Segment, SegmentSpec,
};
use crate::query::{key_index, lemma_key_index_props};
use crate::route::{param_name_spec, Handler, Method};

verus! {

/// One registered route.
#[derive(Clone, Debug)]
pub struct RouteEntry {
    pub method: Method,
    pub pattern: RoutePattern,
    pub handler: Handler,
}

/// A registered route as the contracts see it.
pub struct EntrySpec {
    pub method: Method,
    pub pattern: Seq<SegmentSpec>,
    pub handler: Handler,
}

impl View for RouteEntry {
    type V = EntrySpec;

    open spec fn view(&self) -> EntrySpec {
        EntrySpec { method: self.method, pattern: self.pattern@, handler: self.handler }
    }
}

/// Why a route could not be registered.
#[derive(Clone, Copy, Debug, PartialEq, Eq, Structural)]
pub enum RouteError {
    /// The method already has a route of the same shape.
    DuplicateRoute,
    /// The handler reads a path parameter that the pattern does not name.
    MissingParameter,
}

/// The outcome of looking a request up in the table.
#[derive(Clone, Debug)]
pub enum MatchResult {
    Matched { route: usize, handler: Handler, params: Vec<(String, String)> },
    NoMatch,
}

/// The routes of a server, built once before serving.
#[derive(Clone, Debug)]
pub struct RouteTable {
    entries: Vec<RouteEntry>,
}

impl View for RouteTable {
    type V = Seq<EntrySpec>;

    closed spec fn view(&self) -> Seq<EntrySpec> {
        self.entries@.map_values(|e: RouteEntry| e@)
    }
}

/// No method has two routes of the same shape, and every route's pattern names the
/// path parameter its handler reads.
pub open spec fn table_wf(v: Seq<EntrySpec>) -> bool {
    &&& forall|i: int, j: int|
        0 <= i < v.len() && 0 <= j < v.len() && i != j && v[i].method == v[j].method
            ==> !same_shape(#[trigger] v[i].pattern, #[trigger] v[j].pattern)
    &&& forall|i: int| 0 <= i < v.len() ==> !param_missing(#[trigger] v[i].pattern, v[i].handler)
}

pub open spec fn has_param(pat: Seq<SegmentSpec>, name: Seq<char>) -> bool {
    exists|i: int| 0 <= i < pat.len() && pat[i] == SegmentSpec::Par(name)
}

pub open spec fn param_missing(pat: Seq<SegmentSpec>, h: Handler) -> bool {
    param_name_spec(h) is Some && !has_param(pat, param_name_spec(h).unwrap())
}

pub open spec fn shape_taken(v: Seq<EntrySpec>, m: Method, pat: Seq<SegmentSpec>) -> bool {
    exists|i: int| 0 <= i < v.len() && v[i].method == m && same_shape(#[trigger] v[i].pattern, pat)
}

/// Entry `i` is a route of `m` that accepts `segs`.
pub open spec fn accepts(v: Seq<EntrySpec>, m: Method, segs: Seq<Seq<char>>, i: int) -> bool {
    0 <= i < v.len() && v[i].method == m && pattern_matches(v[i].pattern, segs)
}

pub open spec fn no_route_accepts(v: Seq<EntrySpec>, m: Method, segs: Seq<Seq<char>>) -> bool {
    forall|i: int| !accepts(v, m, segs, i)
}

/// What `lookup` owes: no match exactly when no route of the method accepts the path;
/// otherwise the route that beats every other accepting one, with its bindings.
pub open spec fn lookup_post(v: Seq<EntrySpec>, m: Method, path: Seq<char>, r: MatchResult) -> bool {
    let segs = path_segments(path);
    match r {
        MatchResult::NoMatch => no_route_accepts(v, m, segs),
        MatchResult::Matched { route, handler, params } => {
            &&& accepts(v, m, segs, route as int)
            &&& handler == v[route as int].handler
            &&& pair_views(params@) == captures(v[route as int].pattern, segs)
            &&& forall|k: int|
                k != route && #[trigger] accepts(v, m, segs, k) ==> more_specific(
                    v[route as int].pattern,
                    v[k].pattern,
                )
        },
    }
}

impl RouteTable {
    /// An empty table.
    pub fn new() -> (r: RouteTable)
        ensures
            r@ == Seq::<EntrySpec>::empty(),
            table_wf(r@),
    {
        RouteTable { entries: Vec::new() }
    }

    pub open spec fn wf(&self) -> bool {
        table_wf(self@)
    }

    /// The number of routes.
    pub fn len(&self) -> (r: usize)
        ensures
            r == self@.len(),
    {
        self.entries.len()
    }

    /// Adds a route for `method` and the pattern text `pattern`.
    pub fn register(&mut self, method: Method, pattern: &str, handler: Handler) -> (r: Result<
        (),
        RouteError,
    >)
        requires
            old(self).wf(),
        ensures
            final(self).wf(),
            r == Err::<(), RouteError>(RouteError::MissingParameter) <==> param_missing(
                pattern_of(pattern@),
                handler,
            ),
            r == Err::<(), RouteError>(RouteError::DuplicateRoute) <==> !param_missing(
                pattern_of(pattern@),
                handler,
            ) && shape_taken(old(self)@, method, pattern_of(pattern@)),
            r is Ok <==> !param_missing(pattern_of(pattern@), handler) && !shape_taken(
                old(self)@,
                method,
                pattern_of(pattern@),
            ),
            r is Ok ==> final(self)@ == old(self)@.push(
                EntrySpec { method, pattern: pattern_of(pattern@), handler },
            ),
            r is Err ==> final(self)@ == old(self)@,
    {
        let pat = parse_pattern(pattern);
        if let Some(name) = handler.param_name() {
            let mut found = false;
            let mut i: usize = 0;
            while i < pat.segments.len()
                invariant
                    i <= pat@.len(),
                    found == exists|j: int| 0 <= j < i && pat@[j] == SegmentSpec::Par(name@),
                decreases pat@.len() - i,
            {
                assert(pat@[i as int] == pat.segments@[i as int]@);
                if let Segment::Param(p) = &pat.segments[i] {
                    if p.eq(&name) {
                        found = true;
                    }
                }
                i = i + 1;
            }
            if !found {
                return Err(RouteError::MissingParameter);
            }
        }
        assert(!param_missing(pat@, handler));
        let mut k: usize = 0;
        while k < self.entries.len()
            invariant
                k <= self@.len(),
                self@ == old(self)@,
                table_wf(self@),
                pat@ == pattern_of(pattern@),
                !param_missing(pat@, handler),
                forall|j: int|
                    0 <= j < k ==> !(self@[j].method == method && same_shape(
                        #[trigger] self@[j].pattern,
                        pat@,
                    )),
            decreases self@.len() - k,
        {
            let e = &self.entries[k];
            assert(self@[k as int] == e@);
            if e.method == method && same_shape_exec(&e.pattern, &pat) {
                assert(self@[k as int].method == method && same_shape(self@[k as int].pattern, pat@));
                return Err(RouteError::DuplicateRoute);
            }
            k = k + 1;
        }
        let ghost before = self@;
        let entry = RouteEntry { method, pattern: pat, handler };
        self.entries.push(entry);
        assert(self@ =~= before.push(entry@));
        proof {
            assert forall|i: int| 0 <= i < self@.len() implies !param_missing(
                #[trigger] self@[i].pattern,
                self@[i].handler,
            ) by {
                if i < before.len() {
                    assert(self@[i] == before[i]);
                }
            }
            assert forall|i: int, j: int|
                0 <= i < self@.len() && 0 <= j < self@.len() && i != j && self@[i].method
                    == self@[j].method implies !same_shape(
                #[trigger] self@[i].pattern,
                #[trigger] self@[j].pattern,
            ) by {
                if i == before.len() as int {
                    lemma_same_shape_symmetric(self@[j].pattern, self@[i].pattern);
                }
            }
        }
        Ok(())
    }

    /// Finds the route for a request, or reports that none fits.
    pub fn lookup(&self, method: Method, path: &str) -> (r: MatchResult)
        requires
            self.wf(),
        ensures
            lookup_post(self@, method, path@, r),
    {
        let segs = split_path(path);
        let ghost sv = path_segments(path@);
        let ghost v = self@;
        let mut best: Option<(usize, Vec<(String, String)>)> = None;
        let mut i: usize = 0;
        while i < self.entries.len()
            invariant
                i <= v.len(),
                v == self@,
                table_wf(v),
                string_views(segs@) == sv,
                best is None ==> forall|k: int| 0 <= k < i ==> !#[trigger] accepts(v, method, sv, k),
                best is Some ==> ({
                    let (b, params) = best.unwrap();
                    &&& b < i
                    &&& accepts(v, method, sv, b as int)
                    &&& pair_views(params@) == captures(v[b as int].pattern, sv)
                    &&& forall|k: int|
                        0 <= k < i && k != b && #[trigger] accepts(v, method, sv, k)
                            ==> more_specific(v[b as int].pattern, v[k].pattern)
                }),
            decreases v.len() - i,
        {
            let e = &self.entries[i];
            assert(v[i as int] == e@);
            if e.method == method {
                if let Some(params) = match_pattern(&e.pattern, &segs) {
                    let ghost pi = v[i as int].pattern;
                    match best {
                        None => {
                            best = Some((i, params));
                        },
                        Some((b, old_params)) => {
                            let ghost pb = v[b as int].pattern;
                            assert(v[b as int] == self.entries@[b as int]@);
                            if more_specific_exec(&e.pattern, &self.entries[b].pattern) {
                                proof {
                                    assert forall|k: int|
                                        0 <= k < i + 1 && k != i && #[trigger] accepts(
                                            v,
                                            method,
                                            sv,
                                            k,
                                        ) implies more_specific(pi, v[k].pattern) by {
                                        if k != b {
                                            lemma_more_specific_transitive(pi, pb, v[k].pattern);
                                        }
                                    }
                                }
                                best = Some((i, params));
                            } else {
                                proof {
                                    assert(!same_shape(pb, pi));
                                    if same_kinds(pb, pi) {
                                        lemma_matching_same_kinds(pb, pi, sv);
                                    }
                                    lemma_more_specific_total(pb, pi);
                                    assert(accepts(v, method, sv, i as int));
                                }
                                best = Some((b, old_params));
                            }
                        },
                    }
                }
            }
            i = i + 1;
        }
        match best {
            None => MatchResult::NoMatch,
            Some((b, params)) => {
                let handler = self.entries[b].handler;
                assert(v[b as int] == self.entries@[b as int]@);
                MatchResult::Matched { route: b, handler, params }
            },
        }
    }
}

pub proof fn lemma_same_shape_symmetric(a: Seq<SegmentSpec>, b: Seq<SegmentSpec>)
    ensures
        same_shape(a, b) == same_shape(b, a),
{
}

} // verus!

verus! {

/// A route of method `m` whose pattern accepts `path`, where no other accepting
/// route of `m` is more specific, is the one `lookup` finds: its parameter names
/// are bound, in order, to the path's segments at their positions.
pub proof fn lookup_binds_pattern_params(
    t: RouteTable,
    m: Method,
    path: Seq<char>,
    e: int,
    r: MatchResult,
)
    requires
        t.wf(),
        accepts(t@, m, path_segments(path), e),
        forall|k: int|
            k != e && #[trigger] accepts(t@, m, path_segments(path), k) ==> !more_specific(
                t@[k].pattern,
                t@[e].pattern,
            ),
        lookup_post(t@, m, path, r),
    ensures
        r matches MatchResult::Matched { route, params, .. } && route == e && pair_views(params@)
            == captures(t@[e].pattern, path_segments(path)),
{
    let segs = path_segments(path);
    if let MatchResult::Matched { route, .. } = r {
        if route != e {
            assert(accepts(t@, m, segs, route as int));
        }
    } else {
        assert(!accepts(t@, m, segs, e));
    }
}

} // verus!

verus! {

/// A request that no route of its method accepts is never matched: `lookup`
/// reports no match, and so the fallback answers it.
pub proof fn unmatched_lookup_is_no_match(t: RouteTable, m: Method, path: Seq<char>, r: MatchResult)
    requires
        t.wf(),
        no_route_accepts(t@, m, path_segments(path)),
        lookup_post(t@, m, path, r),
    ensures
        r is NoMatch,
{
    if let MatchResult::Matched { route, .. } = r {
        assert(accepts(t@, m, path_segments(path), route as int));
    }
}

} // verus!

verus! {

pub proof fn lemma_captures_hold_param(
    pat: Seq<SegmentSpec>,
    segs: Seq<Seq<char>>,
    name: Seq<char>,
    n: nat,
    i: int,
)
    requires
        0 <= i < n <= pat.len(),
        pat[i] == SegmentSpec::Par(name),
    ensures
        exists|j: int| 0 <= j < captures_upto(pat, segs, n).len() && #[trigger] captures_upto(pat, segs, n)[j].0 == name,
    decreases n,
{
    let prev = captures_upto(pat, segs, (n - 1) as nat);
    let cur = captures_upto(pat, segs, n);
    if i == n - 1 {
        assert(cur[prev.len() as int].0 == name);
    } else {
        lemma_captures_hold_param(pat, segs, name, (n - 1) as nat, i);
        let j = choose|j: int| 0 <= j < prev.len() && #[trigger] prev[j].0 == name;
        assert(cur[j] == prev[j]);
    }
}

/// A path parameter is never missing while serving: the bindings of a matched route
/// hold the parameter its handler reads.
pub proof fn matched_route_binds_its_parameter(t: RouteTable, m: Method, path: Seq<char>, r: MatchResult)
    requires
        t.wf(),
        lookup_post(t@, m, path, r),
        r matches MatchResult::Matched { handler, .. } && param_name_spec(handler) is Some,
    ensures
        r matches MatchResult::Matched { handler, params, .. } && key_index(
            pair_views(params@),
            param_name_spec(handler).unwrap(),
        ) < pair_views(params@).len(),
{
    if let MatchResult::Matched { route, handler, params } = r {
        let segs = path_segments(path);
        let pat = t@[route as int].pattern;
        let name = param_name_spec(handler).unwrap();
        assert(!param_missing(t@[route as int].pattern, t@[route as int].handler));
        let i = choose|i: int| 0 <= i < pat.len() && pat[i] == SegmentSpec::Par(name);
        lemma_captures_hold_param(pat, segs, name, pat.len(), i);
        let caps = captures(pat, segs);
        let j = choose|j: int| 0 <= j < caps.len() && #[trigger] caps[j].0 == name;
        lemma_key_index_props(caps, name);
        assert(caps[j].0 == name);
    }
}

} // verus!
