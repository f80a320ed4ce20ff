//! The router: an ordered route list with a three-tier resolution
//! algorithm.
//!
//! Resolution scans the routes in registration order. The first route whose
//! pattern and method both match wins immediately. If only the path of some
//! route matches, the method-not-supported handler is returned with the
//! parameters of the latest such route; if nothing matches, the not-found
//! handler with empty parameters. Resolution is total: it always hands back
//! a handler, never an error.

use crate::method::{method_eq, Method};
use crate::parameters::RouteParameters;
use crate::path::{pattern_matches, pattern_params};
use crate::route::Route;
use vstd::prelude::*;

verus! {

/// Whether a route matches both the path and the method of a request.
pub open spec fn full_match<H>(r: Route<H>, m: Method, c: Seq<char>) -> bool {
    pattern_matches(r.path, c) && method_eq(r.method, m)
}

/// Whether a route matches the path of a request but not its method.
pub open spec fn path_only_match<H>(r: Route<H>, m: Method, c: Seq<char>) -> bool {
    pattern_matches(r.path, c) && !method_eq(r.method, m)
}

/// Whether some route matches both path and method.
pub open spec fn has_full_match<H>(routes: Seq<Route<H>>, m: Method, c: Seq<char>) -> bool {
    exists|i: int| 0 <= i < routes.len() && full_match(routes[i], m, c)
}

/// Whether some route matches the path under a different method.
pub open spec fn has_path_only_match<H>(routes: Seq<Route<H>>, m: Method, c: Seq<char>) -> bool {
    exists|i: int| 0 <= i < routes.len() && path_only_match(routes[i], m, c)
}

/// The position of the earliest route matching both path and method;
/// meaningful only when one exists.
pub open spec fn first_full_match<H>(routes: Seq<Route<H>>, m: Method, c: Seq<char>) -> int
    decreases routes.len(),
{
    if routes.len() == 0 {
        0
    } else if full_match(routes[0], m, c) {
        0
    } else {
        1 + first_full_match(routes.drop_first(), m, c)
    }
}

/// The position of the latest route matching the path under a different
/// method; meaningful only when one exists.
pub open spec fn last_path_only_match<H>(routes: Seq<Route<H>>, m: Method, c: Seq<char>) -> int
    decreases routes.len(),
{
    if routes.len() == 0 {
        0
    } else if path_only_match(routes.last(), m, c) {
        routes.len() - 1
    } else {
        last_path_only_match(routes.drop_last(), m, c)
    }
}

/// When some route matches fully, the earliest such position holds a full
/// match and every position before it does not.
pub proof fn lemma_first_full_match<H>(routes: Seq<Route<H>>, m: Method, c: Seq<char>)
    requires
        has_full_match(routes, m, c),
    ensures
        0 <= first_full_match(routes, m, c) < routes.len(),
        full_match(routes[first_full_match(routes, m, c)], m, c),
        forall|j: int| 0 <= j < first_full_match(routes, m, c) ==> !full_match(routes[j], m, c),
    decreases routes.len(),
{
    if !full_match(routes[0], m, c) {
        let w = choose|i: int| 0 <= i < routes.len() && full_match(routes[i], m, c);
        assert(routes.drop_first()[w - 1] == routes[w]);
        assert(has_full_match(routes.drop_first(), m, c));
        lemma_first_full_match(routes.drop_first(), m, c);
        let f = first_full_match(routes.drop_first(), m, c);
        assert(routes.drop_first()[f] == routes[f + 1]);
        assert forall|j: int| 0 <= j < 1 + f implies !full_match(routes[j], m, c) by {
            if j >= 1 {
                assert(routes.drop_first()[j - 1] == routes[j]);
            }
        }
    }
}

/// A position holding a full match with none before it is the earliest one.
proof fn lemma_first_full_match_is<H>(routes: Seq<Route<H>>, m: Method, c: Seq<char>, i: int)
    requires
        0 <= i < routes.len(),
        full_match(routes[i], m, c),
        forall|j: int| 0 <= j < i ==> !full_match(routes[j], m, c),
    ensures
        first_full_match(routes, m, c) == i,
    decreases routes.len(),
{
    if i > 0 {
        assert(routes.drop_first()[i - 1] == routes[i]);
        assert(forall|j: int| 0 <= j < i - 1 ==> routes.drop_first()[j] == routes[j + 1]);
        lemma_first_full_match_is(routes.drop_first(), m, c, i - 1);
    }
}

/// When some route matches the path alone, the latest such position holds a
/// path-only match and every position after it does not.
pub proof fn lemma_last_path_only_match<H>(routes: Seq<Route<H>>, m: Method, c: Seq<char>)
    requires
        has_path_only_match(routes, m, c),
    ensures
        0 <= last_path_only_match(routes, m, c) < routes.len(),
        path_only_match(routes[last_path_only_match(routes, m, c)], m, c),
        forall|j: int|
            last_path_only_match(routes, m, c) < j < routes.len() ==> !path_only_match(
                routes[j],
                m,
                c,
            ),
    decreases routes.len(),
{
    if !path_only_match(routes.last(), m, c) {
        let w = choose|i: int| 0 <= i < routes.len() && path_only_match(routes[i], m, c);
        assert(w < routes.len() - 1);
        assert(routes.drop_last()[w] == routes[w]);
        assert(has_path_only_match(routes.drop_last(), m, c));
        lemma_last_path_only_match(routes.drop_last(), m, c);
        let f = last_path_only_match(routes.drop_last(), m, c);
        assert(routes.drop_last()[f] == routes[f]);
        assert forall|j: int| f < j < routes.len() implies !path_only_match(routes[j], m, c) by {
            if j < routes.len() - 1 {
                assert(routes.drop_last()[j] == routes[j]);
            }
        }
    }
}

/// A position holding a path-only match with none after it is the latest
/// one.
proof fn lemma_last_path_only_match_is<H>(routes: Seq<Route<H>>, m: Method, c: Seq<char>, i: int)
    requires
        0 <= i < routes.len(),
        path_only_match(routes[i], m, c),
        forall|j: int| i < j < routes.len() ==> !path_only_match(routes[j], m, c),
    ensures
        last_path_only_match(routes, m, c) == i,
    decreases routes.len(),
{
    if i < routes.len() - 1 {
        assert(routes.drop_last()[i] == routes[i]);
        lemma_last_path_only_match_is(routes.drop_last(), m, c, i);
    }
}

/// First-match-wins: whenever two routes both match a request's path and
/// method, resolution selects a position no later than the earlier of the
/// two, so a later registration can never override an earlier full match.
pub proof fn lemma_first_match_wins<H>(
    routes: Seq<Route<H>>,
    m: Method,
    c: Seq<char>,
    i: int,
    j: int,
)
    requires
        0 <= i < j < routes.len(),
        full_match(routes[i], m, c),
        full_match(routes[j], m, c),
    ensures
        has_full_match(routes, m, c),
        first_full_match(routes, m, c) <= i < j,
        full_match(routes[first_full_match(routes, m, c)], m, c),
{
    assert(has_full_match(routes, m, c));
    lemma_first_full_match(routes, m, c);
    if first_full_match(routes, m, c) > i {
        assert(!full_match(routes[i], m, c));
    }
}

/// An ordered route table with configurable fallback handlers, immutable
/// once built and queried by [`Router::find_handler`].
#[derive(Debug)]
pub struct Router<H> {
    /// The routes, in registration order; the order is significant.
    pub routes: Vec<Route<H>>,
    /// Returned when no route's pattern matches the request path.
    pub not_found_handler: H,
    /// Returned when some route's pattern matches the request path but no
    /// such route matches the request method.
    pub method_not_supported_handler: H,
}

impl<H> Router<H> {
    /// A router with no routes and the given fallback handlers.
    pub fn empty(not_found_handler: H, method_not_supported_handler: H) -> (r: Router<H>)
        ensures
            r.routes@ == Seq::<Route<H>>::empty(),
            r.not_found_handler == not_found_handler,
            r.method_not_supported_handler == method_not_supported_handler,
    {
        Router::new(Vec::new(), not_found_handler, method_not_supported_handler)
    }

    /// A router holding the given routes, in their order, with the given
    /// fallback handlers.
    pub fn new(
        routes: Vec<Route<H>>,
        not_found_handler: H,
        method_not_supported_handler: H,
    ) -> (r: Router<H>)
        ensures
            r.routes == routes,
            r.not_found_handler == not_found_handler,
            r.method_not_supported_handler == method_not_supported_handler,
    {
        Router { routes, not_found_handler, method_not_supported_handler }
    }

    /// Replaces the not-found handler.
    pub fn not_found(self, handler: H) -> (r: Self)
        ensures
            r.routes == self.routes,
            r.not_found_handler == handler,
            r.method_not_supported_handler == self.method_not_supported_handler,
    {
        Router { not_found_handler: handler, ..self }
    }

    /// Replaces the method-not-supported handler.
    pub fn method_not_supported(self, handler: H) -> (r: Self)
        ensures
            r.routes == self.routes,
            r.not_found_handler == self.not_found_handler,
            r.method_not_supported_handler == handler,
    {
        Router { method_not_supported_handler: handler, ..self }
    }

    /// Appends a route, after all routes registered so far.
    pub fn add(self, route: Route<H>) -> (r: Self)
        ensures
            r.routes@ == self.routes@.push(route),
            r.not_found_handler == self.not_found_handler,
            r.method_not_supported_handler == self.method_not_supported_handler,
    {
        let mut s = self;
        s.routes.push(route);
        s
    }

    /// Resolves a request to a handler and the captured parameters.
    ///
    /// The first route matching both path and method wins, in registration
    /// order. Failing that, if some route matched the path alone, the
    /// method-not-supported handler is returned with the parameters of the
    /// latest such route; otherwise the not-found handler with empty
    /// parameters. The function is total: absence of a route is an ordinary
    /// result, not an error.
    pub fn find_handler<'a>(&'a self, method: Method, path: &str) -> (r: (
        &'a H,
        RouteParameters,
    ))
        ensures
            has_full_match(self.routes@, method, path@) ==> {
                let i = first_full_match(self.routes@, method, path@);
                &&& *r.0 == self.routes@[i].handler
                &&& r.1@ == pattern_params(self.routes@[i].path, path@)
            },
            !has_full_match(self.routes@, method, path@) && has_path_only_match(
                self.routes@,
                method,
                path@,
            ) ==> {
                let k = last_path_only_match(self.routes@, method, path@);
                &&& *r.0 == self.method_not_supported_handler
                &&& r.1@ == pattern_params(self.routes@[k].path, path@)
            },
            !has_full_match(self.routes@, method, path@) && !has_path_only_match(
                self.routes@,
                method,
                path@,
            ) ==> {
                &&& *r.0 == self.not_found_handler
                &&& r.1@ == Map::<Seq<char>, Seq<char>>::empty()
            },
    {
        let ghost rs = self.routes@;
        let ghost c = path@;
        let mut path_match: Option<RouteParameters> = None;
        let ghost mut best_j: int = 0;
        let n = self.routes.len();
        let mut i: usize = 0;
        while i < n
            invariant
                i <= n,
                n == self.routes@.len(),
                rs == self.routes@,
                c == path@,
                forall|j: int| 0 <= j < i ==> !full_match(rs[j], method, c),
                match path_match {
                    Some(p) => {
                        &&& 0 <= best_j < i
                        &&& path_only_match(rs[best_j], method, c)
                        &&& p@ == pattern_params(rs[best_j].path, c)
                        &&& forall|k: int| best_j < k < i ==> !path_only_match(rs[k], method, c)
                    },
                    None => forall|j: int| 0 <= j < i ==> !path_only_match(rs[j], method, c),
                },
            decreases n - i,
        {
            let route = &self.routes[i];
            let m = route.path.matches(path);
            if let Some(params) = m {
                if route.method == method {
                    proof {
                        assert(full_match(rs[i as int], method, c));
                        lemma_first_full_match_is(rs, method, c, i as int);
                    }
                    return (&route.handler, params);
                } else {
                    path_match = Some(params);
                    proof {
                        best_j = i as int;
                    }
                }
            }
            i = i + 1;
        }
        if let Some(p) = path_match {
            proof {
                assert(path_only_match(rs[best_j], method, c));
                lemma_last_path_only_match_is(rs, method, c, best_j);
            }
            (&self.method_not_supported_handler, p)
        } else {
            (&self.not_found_handler, RouteParameters::none())
        }
    }
}

/// A fluent accumulator that produces an immutable [`Router`]: routes are
/// appended in registration order, the fallback handlers may be replaced,
/// and `build` seals the result.
#[derive(Debug)]
pub struct RouterBuilder<H> {
    /// The routes registered so far, in order.
    pub routes: Vec<Route<H>>,
    /// The not-found handler the built router will carry.
    pub not_found_handler: H,
    /// The method-not-supported handler the built router will carry.
    pub method_not_supported_handler: H,
}

impl<H> RouterBuilder<H> {
    /// Starts a builder with no routes and the given fallback handlers.
    pub fn new(not_found_handler: H, method_not_supported_handler: H) -> (r: RouterBuilder<H>)
        ensures
            r.routes@ == Seq::<Route<H>>::empty(),
            r.not_found_handler == not_found_handler,
            r.method_not_supported_handler == method_not_supported_handler,
    {
        RouterBuilder {
            routes: Vec::new(),
            not_found_handler,
            method_not_supported_handler,
        }
    }

    /// Appends a route for the router being built.
    pub fn add(self, route: Route<H>) -> (r: Self)
        ensures
            r.routes@ == self.routes@.push(route),
            r.not_found_handler == self.not_found_handler,
            r.method_not_supported_handler == self.method_not_supported_handler,
    {
        let mut s = self;
        s.routes.push(route);
        s
    }

    /// Replaces the not-found handler of the router being built.
    pub fn not_found(self, handler: H) -> (r: Self)
        ensures
            r.routes == self.routes,
            r.not_found_handler == handler,
            r.method_not_supported_handler == self.method_not_supported_handler,
    {
        RouterBuilder { not_found_handler: handler, ..self }
    }

    /// Replaces the method-not-supported handler of the router being built.
    pub fn method_not_supported(self, handler: H) -> (r: Self)
        ensures
            r.routes == self.routes,
            r.not_found_handler == self.not_found_handler,
            r.method_not_supported_handler == handler,
    {
        RouterBuilder { method_not_supported_handler: handler, ..self }
    }

    /// Produces the immutable router: exactly the accumulated routes, in
    /// their registration order, with exactly the configured fallback
    /// handlers.
    pub fn build(self) -> (r: Router<H>)
        ensures
            r.routes == self.routes,
            r.not_found_handler == self.not_found_handler,
            r.method_not_supported_handler == self.method_not_supported_handler,
    {
        Router::new(self.routes, self.not_found_handler, self.method_not_supported_handler)
    }
}

} // verus!
