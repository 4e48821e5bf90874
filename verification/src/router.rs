//! The route table: registration, structural matching and lookup.

use crate::params::bindings;
use crate::params::lemma_bound_by_some_pair;
use crate::params::lemma_distinct_names_count;
use crate::params::lemma_last_binding;
use crate::params::Params;
use crate::response::not_found;
use crate::response::not_found_response;
use crate::response::Response;
use crate::response::ResponseView;
use crate::route::dynamic_matches;
use crate::route::path_tokens;
use crate::route::static_matches;
use crate::route::well_formed;
use crate::route::DynamicSegmentView;
use crate::route::RawRoute;
use crate::route::RawSegmentView;
use crate::route::Route;
use crate::route::RouteView;
use crate::route::StaticSegmentView;
use std::collections::HashMap;
use vstd::prelude::*;

verus! {

broadcast use vstd::std_specs::hash::group_hash_axioms;

/// The request methods a route can be registered under.
#[derive(Clone, Copy, Debug, PartialEq, Eq, Hash, Structural)]
pub enum Method {
    Get,
    Head,
    Post,
    Put,
    Delete,
    Connect,
    Options,
    Trace,
    Patch,
}

impl Method {
    /// The key a method is stored under; distinct methods have distinct keys.
    pub open spec fn key(self) -> u8 {
        match self {
            Method::Get => 0,
            Method::Head => 1,
            Method::Post => 2,
            Method::Put => 3,
            Method::Delete => 4,
            Method::Connect => 5,
            Method::Options => 6,
            Method::Trace => 7,
            Method::Patch => 8,
        }
    }

    fn to_key(self) -> (key: u8)
        ensures
            key == self.key(),
    {
        match self {
            Method::Get => 0,
            Method::Head => 1,
            Method::Post => 2,
            Method::Put => 3,
            Method::Delete => 4,
            Method::Connect => 5,
            Method::Options => 6,
            Method::Trace => 7,
            Method::Patch => 8,
        }
    }
}

/// A static segment is met when the path has a token at the segment's
/// position and that token matches it.
pub open spec fn static_hit(segment: StaticSegmentView, raw: Seq<RawSegmentView>) -> bool {
    segment.position < raw.len() && static_matches(segment, raw[segment.position as int])
}

/// A dynamic segment is met when the path has a token at the segment's
/// position; what the token says does not matter.
pub open spec fn dynamic_hit(segment: DynamicSegmentView, raw: Seq<RawSegmentView>) -> bool {
    segment.position < raw.len() && dynamic_matches(segment, raw[segment.position as int])
}

/// A route matches a tokenized path when the path has exactly as many tokens
/// as the route has segments and every segment is met.
pub open spec fn route_matches<H>(route: RouteView<H>, raw: Seq<RawSegmentView>) -> bool {
    &&& raw.len() == route.static_segments.len() + route.dynamic_segments.len()
    &&& forall|i: int|
        0 <= i < route.static_segments.len() ==> static_hit(
            #[trigger] route.static_segments[i],
            raw,
        )
    &&& forall|i: int|
        0 <= i < route.dynamic_segments.len() ==> dynamic_hit(
            #[trigger] route.dynamic_segments[i],
            raw,
        )
}

/// `index` is the first route of `routes`, in registration order, that
/// matches `raw`.
pub open spec fn is_first_match<H>(
    routes: Seq<RouteView<H>>,
    raw: Seq<RawSegmentView>,
    index: int,
) -> bool {
    &&& 0 <= index < routes.len()
    &&& route_matches(routes[index], raw)
    &&& forall|j: int| 0 <= j < index ==> !route_matches(#[trigger] routes[j], raw)
}

/// The index of the first matching route, if any route matches.
pub open spec fn first_match<H>(routes: Seq<RouteView<H>>, raw: Seq<RawSegmentView>) -> Option<int> {
    if exists|i: int| is_first_match(routes, raw, i) {
        Some(choose|i: int| is_first_match(routes, raw, i))
    } else {
        None
    }
}

/// The parameters a matched route captures: each dynamic segment's name
/// bound to the text of the token at its position.
pub open spec fn captured(
    dynamic_segments: Seq<DynamicSegmentView>,
    raw: Seq<RawSegmentView>,
) -> Map<Seq<char>, Seq<char>> {
    bindings(
        Seq::new(
            dynamic_segments.len(),
            |i: int| (dynamic_segments[i].name, raw[dynamic_segments[i].position as int].value),
        ),
    )
}

/// The routes registered under `method`, in registration order.
pub open spec fn routes_of<H>(
    table: Map<Method, Seq<RouteView<H>>>,
    method: Method,
) -> Seq<RouteView<H>> {
    if table.contains_key(method) {
        table[method]
    } else {
        Seq::empty()
    }
}

/// The table after registering `route` under `method` with `handler`: the
/// route, now carrying the handler, goes to the end of the method's list.
pub open spec fn table_add<H>(
    table: Map<Method, Seq<RouteView<H>>>,
    method: Method,
    route: RouteView<H>,
    handler: H,
) -> Map<Method, Seq<RouteView<H>>> {
    table.insert(
        method,
        routes_of(table, method).push(RouteView { handler: Some(handler), ..route }),
    )
}

/// What a lookup resolves to, as plain values.
pub enum DispatchView<H> {
    /// Run `handler`, the handler of the route at `index` in its method's
    /// list, with the captured `params`.
    Invoke { index: int, handler: H, params: Map<Seq<char>, Seq<char>> },
    /// Answer with this response; no handler runs.
    Respond(ResponseView),
}

/// The resolution of a request: the first route registered under `method`
/// that matches the tokens of `path`, with its captured parameters; the 404
/// response where the method has no routes or none of them matches. (A route
/// without a handler cannot be dispatched to; registration always attaches
/// one.)
pub open spec fn table_lookup<H>(
    table: Map<Method, Seq<RouteView<H>>>,
    method: Method,
    path: Seq<char>,
) -> DispatchView<H> {
    let routes = routes_of(table, method);
    let raw = path_tokens(path);
    match first_match(routes, raw) {
        Some(index) => match routes[index].handler {
            Some(handler) => DispatchView::Invoke {
                index,
                handler,
                params: captured(routes[index].dynamic_segments, raw),
            },
            None => DispatchView::Respond(not_found_response()),
        },
        None => DispatchView::Respond(not_found_response()),
    }
}

/// A path whose number of tokens differs from the route's number of
/// segments does not match, whatever the tokens say.
pub proof fn lemma_arity_mismatch<H>(route: RouteView<H>, raw: Seq<RawSegmentView>)
    requires
        raw.len() != route.static_segments.len() + route.dynamic_segments.len(),
    ensures
        !route_matches(route, raw),
{
}

/// Static segments are exact: if a path matches and the text of the token
/// under one static segment is replaced by any other text, everything else
/// unchanged, the path no longer matches.
pub proof fn lemma_static_exact<H>(
    route: RouteView<H>,
    raw: Seq<RawSegmentView>,
    k: int,
    text: Seq<char>,
)
    requires
        route_matches(route, raw),
        0 <= k < route.static_segments.len(),
        text != route.static_segments[k].value,
    ensures
        !route_matches(
            route,
            raw.update(
                route.static_segments[k].position as int,
                RawSegmentView {
                    value: text,
                    position: raw[route.static_segments[k].position as int].position,
                },
            ),
        ),
{
    // the changed token sits where segment `k` looks, and its text differs
    assert(static_hit(route.static_segments[k], raw));
}

/// Dynamic segments are permissive: if a path matches a well-formed route
/// and the text of the token under one dynamic segment is replaced by any
/// text at all, the path still matches.
pub proof fn lemma_dynamic_permissive<H>(
    route: RouteView<H>,
    raw: Seq<RawSegmentView>,
    k: int,
    text: Seq<char>,
)
    requires
        well_formed(route),
        route_matches(route, raw),
        0 <= k < route.dynamic_segments.len(),
    ensures
        route_matches(
            route,
            raw.update(
                route.dynamic_segments[k].position as int,
                RawSegmentView {
                    value: text,
                    position: raw[route.dynamic_segments[k].position as int].position,
                },
            ),
        ),
{
    let at = route.dynamic_segments[k].position as int;
    let changed = raw.update(at, RawSegmentView { value: text, position: raw[at].position });
    assert(dynamic_hit(route.dynamic_segments[k], raw));
    // no static segment looks at the changed token, and dynamic segments
    // do not read the text
    assert forall|i: int| 0 <= i < route.static_segments.len() implies static_hit(
        #[trigger] route.static_segments[i],
        changed,
    ) by {
        assert(static_hit(route.static_segments[i], raw));
    }
    assert forall|i: int| 0 <= i < route.dynamic_segments.len() implies dynamic_hit(
        #[trigger] route.dynamic_segments[i],
        changed,
    ) by {
        assert(dynamic_hit(route.dynamic_segments[i], raw));
    }
}

/// What `first_match` returns is a matching route in front of which no
/// route matches, and it returns nothing only where no route matches.
pub proof fn lemma_first_match<H>(routes: Seq<RouteView<H>>, raw: Seq<RawSegmentView>)
    ensures
        match first_match(routes, raw) {
            Some(index) => is_first_match(routes, raw, index),
            None => forall|i: int| 0 <= i < routes.len() ==> !route_matches(#[trigger] routes[i], raw),
        },
{
    if first_match(routes, raw) is None {
        assert forall|i: int| 0 <= i < routes.len() implies !route_matches(
            #[trigger] routes[i],
            raw,
        ) by {
            if route_matches(routes[i], raw) {
                lemma_some_match_has_first(routes, raw, i);
            }
        }
    }
}

/// Where some route matches, there is a first one, at or in front of it.
proof fn lemma_some_match_has_first<H>(routes: Seq<RouteView<H>>, raw: Seq<RawSegmentView>, i: int)
    requires
        0 <= i < routes.len(),
        route_matches(routes[i], raw),
    ensures
        exists|k: int| 0 <= k <= i && is_first_match(routes, raw, k),
    decreases i,
{
    if exists|j: int| 0 <= j < i && route_matches(#[trigger] routes[j], raw) {
        let j = choose|j: int| 0 <= j < i && route_matches(#[trigger] routes[j], raw);
        lemma_some_match_has_first(routes, raw, j);
    } else {
        assert(is_first_match(routes, raw, i));
    }
}

/// Registration under one method leaves every other method's routes as
/// they were.
pub proof fn lemma_add_keeps_other_methods<H>(
    table: Map<Method, Seq<RouteView<H>>>,
    method: Method,
    route: RouteView<H>,
    handler: H,
    other: Method,
    path: Seq<char>,
)
    requires
        other != method,
    ensures
        routes_of(table_add(table, method, route, handler), other) == routes_of(table, other),
        table_lookup(table_add(table, method, route, handler), other, path) == table_lookup(
            table,
            other,
            path,
        ),
{
}

/// Registration never changes the answer to a path that an earlier route
/// already matched: routes registered earlier take precedence.
pub proof fn lemma_add_keeps_earlier_matches<H>(
    table: Map<Method, Seq<RouteView<H>>>,
    method: Method,
    route: RouteView<H>,
    handler: H,
    path: Seq<char>,
)
    requires
        first_match(routes_of(table, method), path_tokens(path)) is Some,
    ensures
        table_lookup(table_add(table, method, route, handler), method, path) == table_lookup(
            table,
            method,
            path,
        ),
{
    let raw = path_tokens(path);
    let earlier = routes_of(table, method);
    let later = routes_of(table_add(table, method, route, handler), method);
    lemma_first_match(earlier, raw);
    let index = first_match(earlier, raw)->0;
    assert(later == earlier.push(RouteView { handler: Some(handler), ..route }));
    assert forall|j: int| 0 <= j <= index implies #[trigger] later[j] == earlier[j] by {}
    assert(is_first_match(later, raw, index));
}

/// A newly registered route answers exactly the paths that it matches and
/// that no earlier route of its method matched; for them lookup resolves to
/// its handler and its captures. Paths that it does not match stay unrouted.
pub proof fn lemma_add_then_lookup<H>(
    table: Map<Method, Seq<RouteView<H>>>,
    method: Method,
    route: RouteView<H>,
    handler: H,
    path: Seq<char>,
)
    requires
        first_match(routes_of(table, method), path_tokens(path)) is None,
    ensures
        table_lookup(table_add(table, method, route, handler), method, path) == if route_matches(
            route,
            path_tokens(path),
        ) {
            DispatchView::Invoke {
                index: routes_of(table, method).len() as int,
                handler,
                params: captured(route.dynamic_segments, path_tokens(path)),
            }
        } else {
            DispatchView::Respond(not_found_response())
        },
{
    let raw = path_tokens(path);
    let earlier = routes_of(table, method);
    let later = routes_of(table_add(table, method, route, handler), method);
    lemma_first_match(earlier, raw);
    assert(later == earlier.push(RouteView { handler: Some(handler), ..route }));
    assert forall|j: int| 0 <= j < earlier.len() implies !route_matches(
        #[trigger] later[j],
        raw,
    ) by {
        assert(later[j] == earlier[j]);
    }
    if route_matches(route, raw) {
        assert(is_first_match(later, raw, earlier.len() as int));
    } else {
        lemma_first_match(later, raw);
    }
}

/// First registered wins: when two routes registered one after the other
/// under the same method both match a path, lookup never resolves to the
/// second; and where no earlier route of that method matches, it resolves to
/// the first one's handler with the first one's captures.
pub proof fn lemma_first_registered_wins<H>(
    table: Map<Method, Seq<RouteView<H>>>,
    method: Method,
    first: RouteView<H>,
    first_handler: H,
    second: RouteView<H>,
    second_handler: H,
    path: Seq<char>,
)
    requires
        route_matches(first, path_tokens(path)),
        route_matches(second, path_tokens(path)),
    ensures
        ({
            let earlier = routes_of(table, method);
            let both = table_add(
                table_add(table, method, first, first_handler),
                method,
                second,
                second_handler,
            );
            &&& routes_of(both, method).len() == earlier.len() + 2
            &&& routes_of(both, method)[earlier.len() as int] == (RouteView {
                handler: Some(first_handler),
                ..first
            })
            &&& routes_of(both, method)[earlier.len() as int + 1] == (RouteView {
                handler: Some(second_handler),
                ..second
            })
            &&& first_match(routes_of(both, method), path_tokens(path)) is Some
            &&& first_match(routes_of(both, method), path_tokens(path))->0 <= earlier.len()
            &&& first_match(earlier, path_tokens(path)) is None ==> table_lookup(both, method, path)
                == (DispatchView::Invoke {
                index: earlier.len() as int,
                handler: first_handler,
                params: captured(first.dynamic_segments, path_tokens(path)),
            })
        }),
{
    let raw = path_tokens(path);
    let earlier = routes_of(table, method);
    let one = table_add(table, method, first, first_handler);
    let both = table_add(one, method, second, second_handler);
    let routes = routes_of(both, method);
    let n = earlier.len() as int;
    assert(routes == earlier.push(RouteView { handler: Some(first_handler), ..first }).push(
        RouteView { handler: Some(second_handler), ..second },
    ));
    lemma_some_match_has_first(routes, raw, n);
    lemma_first_match(routes, raw);
    if first_match(earlier, raw) is None {
        lemma_first_match(earlier, raw);
        assert(is_first_match(routes, raw, n));
    }
}

/// Captured parameters are complete: for dynamic segments with pairwise
/// different names, the map holds exactly one entry per segment, the entry
/// for a segment's name is the text of the token at the segment's position,
/// and no other name is bound.
pub proof fn lemma_params_complete(
    dynamic_segments: Seq<DynamicSegmentView>,
    raw: Seq<RawSegmentView>,
)
    requires
        forall|i: int, j: int|
            0 <= i < j < dynamic_segments.len() ==> (#[trigger] dynamic_segments[i]).name != (
            #[trigger] dynamic_segments[j]).name,
    ensures
        captured(dynamic_segments, raw).dom().finite(),
        captured(dynamic_segments, raw).dom().len() == dynamic_segments.len(),
        forall|i: int|
            0 <= i < dynamic_segments.len() ==> {
                &&& captured(dynamic_segments, raw).contains_key(
                    (#[trigger] dynamic_segments[i]).name,
                )
                &&& captured(dynamic_segments, raw)[dynamic_segments[i].name]
                    == raw[dynamic_segments[i].position as int].value
            },
        forall|name: Seq<char>|
            #[trigger] captured(dynamic_segments, raw).contains_key(name) ==> exists|i: int|
                0 <= i < dynamic_segments.len() && (#[trigger] dynamic_segments[i]).name == name,
{
    let pairs = Seq::new(
        dynamic_segments.len(),
        |i: int| (dynamic_segments[i].name, raw[dynamic_segments[i].position as int].value),
    );
    lemma_distinct_names_count(pairs);
    assert forall|i: int| 0 <= i < dynamic_segments.len() implies {
        &&& captured(dynamic_segments, raw).contains_key((#[trigger] dynamic_segments[i]).name)
        &&& captured(dynamic_segments, raw)[dynamic_segments[i].name]
            == raw[dynamic_segments[i].position as int].value
    } by {
        lemma_last_binding(pairs, i);
    }
    assert forall|name: Seq<char>| #[trigger]
        captured(dynamic_segments, raw).contains_key(name) implies exists|i: int|
        0 <= i < dynamic_segments.len() && (#[trigger] dynamic_segments[i]).name == name by {
        lemma_bound_by_some_pair(pairs, name);
        let i = choose|i: int| 0 <= i < pairs.len() && (#[trigger] pairs[i]).0 == name;
        assert(dynamic_segments[i].name == name);
    }
}

/// Every unrouted request gets the same answer: where the method has no
/// routes, or none of its routes matches the path, lookup resolves to the
/// 404 response, which depends on nothing in the request.
pub proof fn lemma_unrouted_is_not_found<H>(
    table: Map<Method, Seq<RouteView<H>>>,
    method: Method,
    path: Seq<char>,
)
    requires
        forall|i: int|
            0 <= i < routes_of(table, method).len() ==> !route_matches(
                #[trigger] routes_of(table, method)[i],
                path_tokens(path),
            ),
    ensures
        table_lookup(table, method, path) == DispatchView::<H>::Respond(not_found_response()),
{
}

/// A method under which nothing was registered has no routes, so every
/// request to it resolves to the 404 response.
pub proof fn lemma_unregistered_method_is_not_found<H>(
    table: Map<Method, Seq<RouteView<H>>>,
    method: Method,
    path: Seq<char>,
)
    requires
        !table.contains_key(method),
    ensures
        table_lookup(table, method, path) == DispatchView::<H>::Respond(not_found_response()),
{
}

/// What a lookup resolves to.
pub enum Dispatch<'a, H> {
    /// Run the matched route's handler with the captured parameters.
    Invoke { index: usize, handler: &'a H, params: Params },
    /// Answer with this response; no handler runs.
    Respond(Response),
}

impl<'a, H> View for Dispatch<'a, H> {
    type V = DispatchView<H>;

    open spec fn view(&self) -> DispatchView<H> {
        match self {
            Dispatch::Invoke { index, handler, params } => DispatchView::Invoke {
                index: *index as int,
                handler: **handler,
                params: params@,
            },
            Dispatch::Respond(response) => DispatchView::Respond(response@),
        }
    }
}

/// Whether `route` structurally matches the tokenized path `raw_route`.
pub fn paths_match<H>(route: &Route<H>, raw_route: &RawRoute) -> (matched: bool)
    ensures
        matched == route_matches(route@, raw_route@),
{
    let tokens = raw_route.raw_segments.len();
    let statics = route.static_segments.len();
    let dynamics = route.dynamic_segments.len();
    if tokens < statics || tokens - statics != dynamics {
        return false;
    }
    let mut i: usize = 0;
    while i < statics
        invariant
            i <= statics,
            statics == route.static_segments@.len(),
            tokens == raw_route.raw_segments@.len(),
            forall|j: int| 0 <= j < i ==> static_hit(#[trigger] route@.static_segments[j], raw_route@),
        decreases statics - i,
    {
        let segment = &route.static_segments[i];
        if segment.position >= tokens || !segment.matches(&raw_route.raw_segments[segment.position]) {
            assert(!static_hit(route@.static_segments[i as int], raw_route@));
            return false;
        }
        i = i + 1;
    }
    let mut k: usize = 0;
    while k < dynamics
        invariant
            k <= dynamics,
            dynamics == route.dynamic_segments@.len(),
            tokens == raw_route.raw_segments@.len(),
            forall|j: int|
                0 <= j < k ==> dynamic_hit(#[trigger] route@.dynamic_segments[j], raw_route@),
        decreases dynamics - k,
    {
        let segment = &route.dynamic_segments[k];
        if segment.position >= tokens || !segment.matches(&raw_route.raw_segments[segment.position]) {
            assert(!dynamic_hit(route@.dynamic_segments[k as int], raw_route@));
            return false;
        }
        k = k + 1;
    }
    true
}

/// Build the parameters of a route that matches `raw_route`: one binding per
/// dynamic segment, in order.
pub fn capture<H>(route: &Route<H>, raw_route: &RawRoute) -> (params: Params)
    requires
        route_matches(route@, raw_route@),
    ensures
        params@ == captured(route@.dynamic_segments, raw_route@),
{
    let mut params = Params::new();
    let ghost pairs = Seq::new(
        route@.dynamic_segments.len(),
        |i: int|
            (
                route@.dynamic_segments[i].name,
                raw_route@[route@.dynamic_segments[i].position as int].value,
            ),
    );
    let mut i: usize = 0;
    while i < route.dynamic_segments.len()
        invariant
            i <= route.dynamic_segments@.len(),
            route_matches(route@, raw_route@),
            pairs.len() == route.dynamic_segments@.len(),
            forall|j: int|
                0 <= j < pairs.len() ==> #[trigger] pairs[j] == (
                    route@.dynamic_segments[j].name,
                    raw_route@[route@.dynamic_segments[j].position as int].value,
                ),
            params@ == bindings(pairs.take(i as int)),
        decreases route.dynamic_segments@.len() - i,
    {
        let segment = &route.dynamic_segments[i];
        assert(dynamic_hit(route@.dynamic_segments[i as int], raw_route@));
        let token = &raw_route.raw_segments[segment.position];
        params.insert(segment.name.clone(), token.value.clone());
        proof {
            assert(pairs.take(i + 1).drop_last() == pairs.take(i as int));
        }
        i = i + 1;
    }
    proof {
        assert(pairs.take(i as int) == pairs);
    }
    params
}

/// The router: for each method, the routes registered under it, in the
/// order of their registration. Lookup returns the first route that matches.
pub struct Router<H> {
    table: HashMap<u8, Vec<Route<H>>>,
}

/// The plain-value form of a list of routes.
pub open spec fn route_views<H>(routes: Seq<Route<H>>) -> Seq<RouteView<H>> {
    Seq::new(routes.len(), |i: int| routes[i]@)
}

impl<H> View for Router<H> {
    type V = Map<Method, Seq<RouteView<H>>>;

    closed spec fn view(&self) -> Map<Method, Seq<RouteView<H>>> {
        Map::new(
            |method: Method| self.table@.contains_key(method.key()),
            |method: Method| route_views(self.table@[method.key()]@),
        )
    }
}

impl<H> Router<H> {
    /// A router with no routes.
    pub fn new() -> (router: Router<H>)
        ensures
            router@ == Map::<Method, Seq<RouteView<H>>>::empty(),
    {
        Router { table: HashMap::new() }
    }

    /// Register `route` under `method` and attach `handler` to it. The route
    /// goes behind every route registered earlier under the same method.
    pub fn add(&mut self, method: Method, route: Route<H>, handler: H)
        ensures
            final(self)@ == table_add(old(self)@, method, route@, handler),
    {
        let ghost pattern = route@;
        let mut attached = route;
        attached.handler = Some(handler);
        let key = method.to_key();
        let mut routes = match self.table.remove(&key) {
            Some(routes) => routes,
            None => Vec::new(),
        };
        let ghost before = routes@;
        routes.push(attached);
        self.table.insert(key, routes);
        proof {
            assert(route_views(before.push(attached)) =~= route_views(before).push(attached@));
            assert(route_views(before) =~= routes_of(old(self)@, method));
        }
    }

    /// Resolve a request: the handler and parameters of the first route
    /// registered under `method` that matches `path`, or the 404 response.
    pub fn lookup(&self, method: Method, path: &str) -> (dispatch: Dispatch<'_, H>)
        ensures
            dispatch@ == table_lookup(self@, method, path@),
    {
        let raw_route = RawRoute::from_path(path);
        let key = method.to_key();
        match self.table.get(&key) {
            Some(routes) => {
                let mut i: usize = 0;
                while i < routes.len()
                    invariant
                        i <= routes@.len(),
                        key == method.key(),
                        self.table@.contains_key(key),
                        self.table@[key] == *routes,
                        raw_route@ == path_tokens(path@),
                        forall|j: int|
                            0 <= j < i ==> !route_matches(
                                #[trigger] route_views(routes@)[j],
                                raw_route@,
                            ),
                    decreases routes@.len() - i,
                {
                    let route = &routes[i];
                    if paths_match(route, &raw_route) {
                        let params = capture(route, &raw_route);
                        assert(is_first_match(route_views(routes@), raw_route@, i as int));
                        match &route.handler {
                            Some(handler) => {
                                return Dispatch::Invoke { index: i, handler, params };
                            },
                            None => {
                                return Dispatch::Respond(not_found());
                            },
                        }
                    }
                    i = i + 1;
                }
                Dispatch::Respond(not_found())
            },
            None => Dispatch::Respond(not_found()),
        }
    }
}

} // verus!
