//! An ordered route table with first-match-wins resolution.
//!
//! Routes are registered once at startup; lookup never mutates the table.
//! Extracted parameters are returned as values, never stored back onto the
//! shared route entries, so concurrent lookups on one table cannot leak a
//! parameter across requests.
use crate::matcher::capture_split_at;
use crate::matcher::literal_pattern;
use crate::matcher::valid_pattern;
use crate::matcher::PathMatcher;
use crate::matcher::PatternError;
use vstd::prelude::*;

verus! {

/// HTTP request methods the router distinguishes.
#[derive(Debug, Clone, Copy, PartialEq, Eq, Structural)]
pub enum Method {
    Get,
    Post,
    Put,
    Delete,
    Head,
    Options,
    Patch,
}

/// One registered route: a method, a compiled pattern, and the symbolic
/// name of the handler it dispatches to. `params` is the parameter list a
/// lookup hands back; on a registered route it is empty.
pub struct Route {
    pub method: Method,
    pub path: PathMatcher,
    pub name: String,
    pub params: Vec<String>,
}

impl Clone for PathMatcher {
    /// An equal matcher, field for field.
    fn clone(&self) -> (r: Self)
        ensures
            r.prefix@ == self.prefix@,
            r.capture == self.capture,
            r.suffix@ == self.suffix@,
    {
        let prefix = self.prefix.clone();
        let suffix = self.suffix.clone();
        proof {
            assert(prefix@ =~= self.prefix@);
            assert(suffix@ =~= self.suffix@);
        }
        PathMatcher { prefix, capture: self.capture, suffix }
    }
}

impl Clone for Route {
    /// An equal route: same method, pattern, name and parameters.
    fn clone(&self) -> (r: Self)
        ensures
            r.method == self.method,
            r.path.prefix@ == self.path.prefix@,
            r.path.capture == self.path.capture,
            r.path.suffix@ == self.path.suffix@,
            r.name@ == self.name@,
            r.params.deep_view() == self.params.deep_view(),
    {
        let params = self.params.clone();
        proof {
            assert(params.deep_view() =~= self.params.deep_view());
        }
        Route { method: self.method, path: self.path.clone(), name: self.name.clone(), params }
    }
}

/// Builds a route, letting the handler name be set after the pattern.
pub struct RouteBuilder {
    pub route: Route,
}

impl RouteBuilder {
    /// Wraps a route whose handler name is still to be chosen.
    pub fn new(route: Route) -> (b: RouteBuilder)
        ensures
            b.route == route,
    {
        RouteBuilder { route }
    }

    /// Names the handler the finished route dispatches to.
    pub fn name(self, name: &str) -> (r: Route)
        ensures
            r.method == self.route.method,
            r.path == self.route.path,
            r.name@ == name@,
            r.params == self.route.params,
    {
        let mut route = self.route;
        route.name = name.to_owned();
        route
    }
}

impl Route {
    /// A GET route for `path`; exactly the valid patterns are accepted.
    pub fn get(path: &str) -> (r: Result<RouteBuilder, PatternError>)
        ensures
            r is Ok <==> valid_pattern(path@),
            match r {
                Ok(b) => {
                    &&& b.route.method == Method::Get
                    &&& b.route.name@ == Seq::<char>::empty()
                    &&& b.route.params@ == Seq::<String>::empty()
                    &&& (literal_pattern(path@) ==> !b.route.path.capture && b.route.path.prefix@
                        == path@)
                    &&& forall|k: int|
                        capture_split_at(path@, k) ==> b.route.path.capture
                            && b.route.path.prefix@ == path@.subrange(0, k)
                            && b.route.path.suffix@ == path@.skip(k + 5)
                },
                Err(e) => e == PatternError::InvalidPattern,
            },
    {
        Route::from_parts(Method::Get, path)
    }

    /// A route for `method` and `path`; exactly the valid patterns compile.
    fn from_parts(method: Method, path: &str) -> (r: Result<RouteBuilder, PatternError>)
        ensures
            r is Ok <==> valid_pattern(path@),
            match r {
                Ok(b) => {
                    &&& b.route.method == method
                    &&& b.route.name@ == Seq::<char>::empty()
                    &&& b.route.params@ == Seq::<String>::empty()
                    &&& (literal_pattern(path@) ==> !b.route.path.capture && b.route.path.prefix@
                        == path@)
                    &&& forall|k: int|
                        capture_split_at(path@, k) ==> b.route.path.capture
                            && b.route.path.prefix@ == path@.subrange(0, k)
                            && b.route.path.suffix@ == path@.skip(k + 5)
                },
                Err(e) => e == PatternError::InvalidPattern,
            },
    {
        let matcher = match PathMatcher::compile(path) {
            Ok(m) => m,
            Err(e) => {
                return Err(e);
            },
        };
        let name = String::new();
        Ok(RouteBuilder::new(Route { method, path: matcher, name, params: Vec::new() }))
    }
}

/// Whether a route answers `method` on `path`.
pub open spec fn route_matches(r: Route, method: Method, path: Seq<char>) -> bool {
    r.method == method && r.path.spec_matches(path)
}

/// Index of the first route satisfying `pred`, or -1 if none does.
pub open spec fn first_where(routes: Seq<Route>, pred: spec_fn(Route) -> bool) -> int
    decreases routes.len(),
{
    if routes.len() == 0 {
        -1
    } else if pred(routes[0]) {
        0
    } else if first_where(routes.skip(1), pred) == -1 {
        -1
    } else {
        1 + first_where(routes.skip(1), pred)
    }
}

/// `first_where` is -1 exactly on tables where no route satisfies `pred`.
pub proof fn lemma_first_where_none(routes: Seq<Route>, pred: spec_fn(Route) -> bool)
    requires
        forall|j: int| 0 <= j < routes.len() ==> !pred(routes[j]),
    ensures
        first_where(routes, pred) == -1,
    decreases routes.len(),
{
    if routes.len() > 0 {
        assert(forall|j: int|
            0 <= j < routes.skip(1).len() ==> routes.skip(1)[j] == routes[j + 1]);
        lemma_first_where_none(routes.skip(1), pred);
    }
}

/// `first_where` is the first index whose route satisfies `pred`.
pub proof fn lemma_first_where_is(routes: Seq<Route>, pred: spec_fn(Route) -> bool, i: int)
    requires
        0 <= i < routes.len(),
        pred(routes[i]),
        forall|j: int| 0 <= j < i ==> !pred(routes[j]),
    ensures
        first_where(routes, pred) == i,
    decreases routes.len(),
{
    if i > 0 {
        assert(!pred(routes[0]));
        assert(forall|j: int|
            0 <= j < routes.skip(1).len() ==> routes.skip(1)[j] == routes[j + 1]);
        lemma_first_where_is(routes.skip(1), pred, i - 1);
    }
}

/// First-match-wins: a lookup answers exactly when some registration
/// satisfies `pred`, and the index it answers with satisfies `pred` while
/// every earlier registration does not.
pub proof fn lemma_first_where_spec(routes: Seq<Route>, pred: spec_fn(Route) -> bool)
    ensures
        first_where(routes, pred) == -1 <==> (forall|j: int|
            0 <= j < routes.len() ==> !pred(routes[j])),
        first_where(routes, pred) != -1 ==> {
            let i = first_where(routes, pred);
            &&& 0 <= i < routes.len()
            &&& pred(routes[i])
            &&& forall|j: int| 0 <= j < i ==> !pred(routes[j])
        },
    decreases routes.len(),
{
    if routes.len() > 0 && !pred(routes[0]) {
        let rest = routes.skip(1);
        assert(forall|j: int| 0 <= j < rest.len() ==> rest[j] == routes[j + 1]);
        lemma_first_where_spec(rest, pred);
        let k = first_where(rest, pred);
        if k == -1 {
            assert forall|j: int| 0 <= j < routes.len() implies !pred(routes[j]) by {
                if j > 0 {
                    assert(routes[j] == rest[j - 1]);
                }
            }
        }
        if k != -1 {
            assert(first_where(routes, pred) == 1 + k);
            assert(pred(routes[1 + k]));
            assert forall|j: int| 0 <= j < 1 + k implies !pred(routes[j]) by {
                if j > 0 {
                    assert(routes[j] == rest[j - 1]);
                }
            }
        }
    }
}

/// What a successful lookup hands back: the matched route's handler name
/// and the parameters extracted from the path, in order.
pub struct ResolvedRoute {
    pub handler_name: String,
    pub params: Vec<String>,
}

/// The parameter list a lookup of `path` on route `rt` returns: the
/// registered parameters, then the captured digits if the pattern captures.
pub open spec fn lookup_params(rt: Route, path: Seq<char>) -> Seq<Seq<char>> {
    if rt.path.capture {
        rt.params.deep_view() + seq![rt.path.spec_captured(path)]
    } else {
        rt.params.deep_view()
    }
}

/// An ordered list of routes; the first registration wins.
pub struct Router {
    pub routes: Vec<Route>,
}

impl Router {
    /// An empty table.
    pub fn new() -> (r: Router)
        ensures
            r.routes@ == Seq::<Route>::empty(),
    {
        Router { routes: Vec::new() }
    }

    /// Appends a route; lookups try it after every route already present.
    pub fn add(&mut self, route: Route)
        ensures
            final(self).routes@ == old(self).routes@.push(route),
    {
        self.routes.push(route);
    }

    /// Finds the first registration whose method and pattern both accept
    /// the request, in registration order, and returns its handler name
    /// and extracted parameters; `None` exactly when no route matches.
    #[verifier::loop_isolation(false)]
    pub fn resolve(&self, method: Method, path: &str) -> (r: Option<ResolvedRoute>)
        ensures
            ({
                let i = first_where(
                    self.routes@,
                    (|rt: Route| route_matches(rt, method, path@)),
                );
                match r {
                    Some(res) => {
                        &&& i >= 0
                        &&& res.handler_name@ == self.routes@[i].name@
                        &&& res.params.deep_view() == lookup_params(self.routes@[i], path@)
                    },
                    None => i == -1,
                }
            }),
    {
        let ghost pred = (|rt: Route| route_matches(rt, method, path@));
        let n = self.routes.len();
        let mut i: usize = 0;
        while i < n
            invariant
                0 <= i <= n == self.routes.len(),
                forall|j: int| 0 <= j < i ==> !pred(self.routes@[j]),
            decreases n - i,
        {
            let rt = &self.routes[i];
            if rt.method == method {
                match rt.path.try_match(path) {
                    Some(m) => {
                        proof {
                            lemma_first_where_is(self.routes@, pred, i as int);
                        }
                        let mut params = rt.params.clone();
                        proof {
                            assert(params.deep_view() =~= rt.params.deep_view());
                        }
                        match m.captured {
                            Some(c) => {
                                params.push(c);
                                proof {
                                    assert(params.deep_view() =~= lookup_params(
                                        self.routes@[i as int],
                                        path@,
                                    ));
                                }
                            },
                            None => {
                                proof {
                                    assert(params.deep_view() =~= lookup_params(
                                        self.routes@[i as int],
                                        path@,
                                    ));
                                }
                            },
                        }
                        return Some(
                            ResolvedRoute { handler_name: rt.name.clone(), params },
                        );
                    },
                    None => {
                        proof {
                            assert(!pred(self.routes@[i as int]));
                        }
                    },
                }
            } else {
                proof {
                    assert(!pred(self.routes@[i as int]));
                }
            }
            i += 1;
        }
        proof {
            lemma_first_where_none(self.routes@, pred);
        }
        None
    }

    /// Finds the first registration whose pattern accepts the path, any
    /// method, and returns a copy of it with the extracted parameters
    /// appended; the shared table itself is never written.
    #[verifier::loop_isolation(false)]
    pub fn is_match(&self, path: &str) -> (r: Option<Route>)
        ensures
            ({
                let i = first_where(self.routes@, (|rt: Route| rt.path.spec_matches(path@)));
                match r {
                    Some(res) => {
                        &&& i >= 0
                        &&& res.method == self.routes@[i].method
                        &&& res.name@ == self.routes@[i].name@
                        &&& res.params.deep_view() == lookup_params(self.routes@[i], path@)
                    },
                    None => i == -1,
                }
            }),
    {
        let ghost pred = (|rt: Route| rt.path.spec_matches(path@));
        let n = self.routes.len();
        let mut i: usize = 0;
        while i < n
            invariant
                0 <= i <= n == self.routes.len(),
                forall|j: int| 0 <= j < i ==> !pred(self.routes@[j]),
            decreases n - i,
        {
            let rt = &self.routes[i];
            match rt.path.try_match(path) {
                Some(m) => {
                    proof {
                        lemma_first_where_is(self.routes@, pred, i as int);
                    }
                    let mut out = rt.clone();
                    match m.captured {
                        Some(c) => {
                            out.params.push(c);
                            proof {
                                assert(out.params.deep_view() =~= lookup_params(
                                    self.routes@[i as int],
                                    path@,
                                ));
                            }
                        },
                        None => {
                            proof {
                                assert(out.params.deep_view() =~= lookup_params(
                                    self.routes@[i as int],
                                    path@,
                                ));
                            }
                        },
                    }
                    return Some(out);
                },
                None => {
                    proof {
                        assert(!pred(self.routes@[i as int]));
                    }
                },
            }
            i += 1;
        }
        proof {
            lemma_first_where_none(self.routes@, pred);
        }
        None
    }
}

} // verus!
