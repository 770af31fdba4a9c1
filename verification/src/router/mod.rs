//! The route table: which route serves which method on which path.
//!
//! Every route is kept under its path in normal form. A path with a named
//! parameter, such as `/users/:id`, is also kept in the list of patterns,
//! which is consulted, in the order of registration, where no path matches
//! exactly.

use crate::http::request::Method;
use crate::http::response::{HttpResponse, Response};
use crate::middleware::{MiddlewareManager, Next, NextView, Terminal};
use crate::path::{
    dynamic_match, has_parameter, is_pattern, lemma_normalized, lemma_prefixed_differ,
    match_dynamic_path, normalize_path, normalized,
};
use crate::string_map::{
    distinct_keys, lemma_position, lemma_position_is, lemma_put, lookup, position, put, StringMap,
};
use crate::text::{extend_str, from_chars, to_chars};
use vstd::prelude::*;

verus! {

/// A middleware chain and the handler that it surrounds, as they were when
/// the route was registered.
#[derive(Debug)]
pub struct Route {
    pub middlewares: MiddlewareManager,
    pub handler: u64,
}

/// The mathematical value of a route.
pub struct RouteView {
    pub middlewares: Seq<u64>,
    pub handler: u64,
}

impl View for Route {
    type V = RouteView;

    open spec fn view(&self) -> RouteView {
        RouteView { middlewares: self.middlewares@, handler: self.handler }
    }
}

impl RouteView {
    /// The pipeline that serves a request by this route: its middleware,
    /// from the first on, and then its handler.
    pub open spec fn pipeline(self) -> NextView {
        NextView { chain: self.middlewares, terminal: Terminal::Handler(self.handler) }
    }
}

impl Route {
    /// A route with the same chain and handler.
    pub fn duplicate(&self) -> (r: Route)
        ensures
            r@ == self@,
    {
        Route { middlewares: self.middlewares.duplicate(), handler: self.handler }
    }

    /// The pipeline that serves a request by this route.
    pub fn handle(&self) -> (next: Next)
        ensures
            next@ == self@.pipeline(),
    {
        let next = self.middlewares.call(Next::new(self.handler));
        assert(next@.chain =~= self.middlewares@);
        next
    }
}

/// The routes of one path, by method.
#[derive(Debug)]
pub struct PathRoutes {
    pub path: String,
    pub methods: Vec<(Method, Route)>,
}

/// The methods and routes that `methods` stands for.
pub open spec fn methods_view(methods: Seq<(Method, Route)>) -> Seq<(Method, RouteView)> {
    Seq::new(methods.len(), |i: int| (methods[i].0, methods[i].1@))
}

/// The paths and routes that `routes` stands for.
pub open spec fn routes_view(routes: Seq<PathRoutes>) -> Seq<(Seq<char>, Seq<(Method, RouteView)>)> {
    Seq::new(routes.len(), |i: int| (routes[i].path@, methods_view(routes[i].methods@)))
}

/// The route table.
#[derive(Debug)]
pub struct Router {
    /// The middleware that routes registered from now on are wrapped in.
    pub middlewares: MiddlewareManager,
    pub routes: Vec<PathRoutes>,
    /// The paths with parameters, in the order of registration.
    pub dynamic_routes: Vec<String>,
}

/// The mathematical value of a route table.
pub struct RouterView {
    pub middlewares: Seq<u64>,
    pub routes: Seq<(Seq<char>, Seq<(Method, RouteView)>)>,
    pub dynamic: Seq<Seq<char>>,
}

/// The views of the strings of `paths`.
pub open spec fn paths_view(paths: Seq<String>) -> Seq<Seq<char>> {
    Seq::new(paths.len(), |i: int| paths[i]@)
}

impl View for Router {
    type V = RouterView;

    open spec fn view(&self) -> RouterView {
        RouterView {
            middlewares: self.middlewares@,
            routes: routes_view(self.routes@),
            dynamic: paths_view(self.dynamic_routes@),
        }
    }
}

/// How a request is served.
#[derive(Debug)]
pub enum Dispatch {
    /// By this route.
    Route(Route),
    /// By this route, which is the path's route for `GET`: the request is
    /// served as a `GET`, and the body of the response is discarded.
    Head(Route),
    /// By this middleware chain, which is that of the path's route for
    /// `GET`, around an empty response with the status 200 in place of the
    /// handler.
    Options(MiddlewareManager),
    /// By no route.
    Unrouted,
}

/// The mathematical value of a `Dispatch`.
pub enum DispatchView {
    Route(RouteView),
    Head(RouteView),
    Options(Seq<u64>),
    Unrouted,
}

impl View for Dispatch {
    type V = DispatchView;

    open spec fn view(&self) -> DispatchView {
        match self {
            Dispatch::Route(route) => DispatchView::Route(route@),
            Dispatch::Head(route) => DispatchView::Head(route@),
            Dispatch::Options(middlewares) => DispatchView::Options(middlewares@),
            Dispatch::Unrouted => DispatchView::Unrouted,
        }
    }
}

impl DispatchView {
    /// The pipeline to invoke, if the request is served by a route.
    pub open spec fn pipeline(self) -> Option<NextView> {
        match self {
            DispatchView::Route(route) => Some(route.pipeline()),
            DispatchView::Head(route) => Some(route.pipeline()),
            DispatchView::Options(middlewares) => Some(
                NextView { chain: middlewares, terminal: Terminal::EmptyOk },
            ),
            DispatchView::Unrouted => None,
        }
    }
}

/// How the method `method` is served on a path with the routes `methods`:
/// by its own route; else, for `HEAD` and `OPTIONS`, with the help of the
/// route for `GET`, if there is one.
pub open spec fn served_by(methods: Seq<(Method, RouteView)>, method: Method) -> Option<DispatchView> {
    match lookup(methods, method) {
        Some(route) => Some(DispatchView::Route(route)),
        None => match lookup(methods, Method::GET) {
            Some(get) => if method == Method::HEAD {
                Some(DispatchView::Head(get))
            } else if method == Method::OPTIONS {
                Some(DispatchView::Options(get.middlewares))
            } else {
                None
            },
            None => None,
        },
    }
}

impl RouterView {
    /// The table with `route` kept for `method` under `path`, which is
    /// taken as it is. A route that was kept there before is replaced. A
    /// path with a parameter is recorded as a pattern.
    pub open spec fn with(self, path: Seq<char>, method: Method, route: RouteView) -> RouterView {
        let methods = match lookup(self.routes, path) {
            Some(m) => m,
            None => Seq::empty(),
        };
        RouterView {
            middlewares: self.middlewares,
            routes: put(self.routes, path, put(methods, method, route)),
            dynamic: if is_pattern(path) {
                self.dynamic.push(path)
            } else {
                self.dynamic
            },
        }
    }

    /// The table after `handler` was registered for `method` on `path`: the
    /// route is kept under the path's normal form, with the table's
    /// middleware as they are now.
    pub open spec fn with_route(self, method: Method, path: Seq<char>, handler: u64) -> RouterView {
        self.with(normalized(path), method, RouteView { middlewares: self.middlewares, handler })
    }

    /// The table after one route of a mounted table was taken over: it is
    /// kept under the normal form of the prefix and its path, and its chain
    /// is this table's middleware followed by its own.
    pub open spec fn with_mounted_route(
        self,
        prefix: Seq<char>,
        key: Seq<char>,
        method: Method,
        route: RouteView,
    ) -> RouterView {
        self.with(
            normalized(prefix + key),
            method,
            RouteView {
                middlewares: self.middlewares + route.middlewares,
                handler: route.handler,
            },
        )
    }

    /// The table after the routes `methods` of the path `key` of a mounted
    /// table were taken over, from the first to the last.
    pub open spec fn with_mounted_methods(
        self,
        prefix: Seq<char>,
        key: Seq<char>,
        methods: Seq<(Method, RouteView)>,
    ) -> RouterView
        decreases methods.len(),
    {
        if methods.len() == 0 {
            self
        } else {
            self.with_mounted_methods(prefix, key, methods.drop_last()).with_mounted_route(
                prefix,
                key,
                methods.last().0,
                methods.last().1,
            )
        }
    }

    /// The table after the paths `entries` of a mounted table were taken
    /// over, from the first to the last.
    pub open spec fn with_mounted(
        self,
        prefix: Seq<char>,
        entries: Seq<(Seq<char>, Seq<(Method, RouteView)>)>,
    ) -> RouterView
        decreases entries.len(),
    {
        if entries.len() == 0 {
            self
        } else {
            self.with_mounted(prefix, entries.drop_last()).with_mounted_methods(
                prefix,
                entries.last().0,
                entries.last().1,
            )
        }
    }

    /// How `method` on `path` is served by the first of the patterns
    /// `patterns` that matches the path and has a route to serve it with,
    /// and the parameters that this pattern binds.
    pub open spec fn resolve_dynamic(self, patterns: Seq<Seq<char>>, path: Seq<char>, method: Method) -> Option<
        (DispatchView, Seq<(Seq<char>, Seq<char>)>),
    >
        decreases patterns.len(),
    {
        if patterns.len() == 0 {
            None
        } else {
            let rest = self.resolve_dynamic(patterns.skip(1), path, method);
            match dynamic_match(patterns[0], path) {
                Some(params) => match lookup(self.routes, patterns[0]) {
                    Some(methods) => match served_by(methods, method) {
                        Some(dispatch) => Some((dispatch, params)),
                        None => rest,
                    },
                    None => rest,
                },
                None => rest,
            }
        }
    }

    /// How `method` on `path` is served by a route kept under exactly this
    /// path.
    pub open spec fn resolve_static(self, path: Seq<char>, method: Method) -> Option<DispatchView> {
        match lookup(self.routes, path) {
            Some(methods) => served_by(methods, method),
            None => None,
        }
    }

    /// How `method` on `path` is served, and the path parameters that are
    /// bound for it: by a route kept under exactly this path; else by a
    /// pattern; else by no route.
    pub open spec fn resolve(self, path: Seq<char>, method: Method) -> (
        DispatchView,
        Option<Seq<(Seq<char>, Seq<char>)>>,
    ) {
        match self.resolve_static(path, method) {
            Some(dispatch) => (dispatch, None),
            None => match self.resolve_dynamic(self.dynamic, path, method) {
                Some((dispatch, params)) => (dispatch, Some(params)),
                None => (DispatchView::Unrouted, None),
            },
        }
    }
}

impl RouterView {
    /// Every path that routes are kept under is in normal form.
    pub open spec fn keys_normalized(self) -> bool {
        forall|i: int|
            0 <= i < self.routes.len() ==> normalized((#[trigger] self.routes[i]).0)
                == self.routes[i].0
    }
}

/// The paths of a table stay in normal form, whatever is registered or
/// mounted: no path is kept with a trailing slash, but the root.
pub proof fn lemma_keys_stay_normalized(
    router: RouterView,
    method: Method,
    path: Seq<char>,
    handler: u64,
    prefix: Seq<char>,
    route: RouteView,
)
    requires
        router.keys_normalized(),
    ensures
        router.with_route(method, path, handler).keys_normalized(),
        router.with_mounted_route(prefix, path, method, route).keys_normalized(),
{
    lemma_with_keeps_keys_normalized(
        router,
        path,
        method,
        RouteView { middlewares: router.middlewares, handler },
    );
    lemma_with_keeps_keys_normalized(
        router,
        prefix + path,
        method,
        RouteView { middlewares: router.middlewares + route.middlewares, handler: route.handler },
    );
}

proof fn lemma_with_keeps_keys_normalized(
    router: RouterView,
    path: Seq<char>,
    method: Method,
    route: RouteView,
)
    requires
        router.keys_normalized(),
    ensures
        router.with(normalized(path), method, route).keys_normalized(),
{
    let p = normalized(path);
    lemma_normalized(path);
    lemma_position(router.routes, p);
    let after = router.with(p, method, route).routes;
    assert forall|i: int| 0 <= i < after.len() implies normalized((#[trigger] after[i]).0)
        == after[i].0 by {
        if i != position(router.routes, p) {
            assert(after[i] == router.routes[i]);
        }
    }
}

/// A route that was registered is found again: a request for the method on
/// any path with the same normal form as the registered path is served by
/// the route that was registered, with the middleware that the table had
/// then.
pub proof fn lemma_registered_route_resolves(
    router: RouterView,
    method: Method,
    path: Seq<char>,
    handler: u64,
    requested: Seq<char>,
)
    requires
        normalized(requested) == normalized(path),
    ensures
        router.with_route(method, path, handler).resolve(normalized(requested), method) == (
            DispatchView::Route(RouteView { middlewares: router.middlewares, handler }),
            None::<Seq<(Seq<char>, Seq<char>)>>,
        ),
{
    let p = normalized(path);
    let route = RouteView { middlewares: router.middlewares, handler };
    let methods = match lookup(router.routes, p) {
        Some(m) => m,
        None => Seq::empty(),
    };
    lemma_put(router.routes, p, put(methods, method, route), p);
    lemma_put(methods, method, route, method);
}

/// A route that was taken over from a mounted table is found under the
/// prefix and its own path, and its chain is the mounting table's
/// middleware followed by its own.
pub proof fn lemma_mounted_route_resolves(
    router: RouterView,
    prefix: Seq<char>,
    key: Seq<char>,
    method: Method,
    route: RouteView,
)
    ensures
        router.with_mounted_route(prefix, key, method, route).resolve(
            normalized(prefix + key),
            method,
        ) == (
            DispatchView::Route(
                RouteView {
                    middlewares: router.middlewares + route.middlewares,
                    handler: route.handler,
                },
            ),
            None::<Seq<(Seq<char>, Seq<char>)>>,
        ),
{
    let p = normalized(prefix + key);
    let merged = RouteView {
        middlewares: router.middlewares + route.middlewares,
        handler: route.handler,
    };
    let methods = match lookup(router.routes, p) {
        Some(m) => m,
        None => Seq::empty(),
    };
    lemma_put(router.routes, p, put(methods, method, merged), p);
    lemma_put(methods, method, merged, method);
}

impl RouterView {
    /// The route that is kept for `method` under exactly the path `path`.
    pub open spec fn route_at(self, path: Seq<char>, method: Method) -> Option<RouteView> {
        match lookup(self.routes, path) {
            Some(methods) => lookup(methods, method),
            None => None,
        }
    }

    /// Whether the table is one that registration and mounting build: its
    /// paths are in normal form, no path stands in it twice, and no path has
    /// two routes for one method.
    pub open spec fn wf(self) -> bool {
        &&& self.keys_normalized()
        &&& distinct_keys(self.routes)
        &&& forall|i: int| 0 <= i < self.routes.len() ==> distinct_keys((#[trigger] self.routes[i]).1)
    }

    /// The route that a route of a mounted table becomes in this table: its
    /// chain is this table's middleware followed by its own.
    pub open spec fn merged(self, route: RouteView) -> RouteView {
        RouteView { middlewares: self.middlewares + route.middlewares, handler: route.handler }
    }
}

/// Keeping a route puts it under its path and method, and leaves the route
/// of every other path and method, and the table's middleware, as they
/// were.
pub proof fn lemma_with(
    router: RouterView,
    path: Seq<char>,
    method: Method,
    route: RouteView,
    other_path: Seq<char>,
    other_method: Method,
)
    ensures
        router.with(path, method, route).route_at(path, method) == Some(route),
        router.with(path, method, route).middlewares == router.middlewares,
        other_path != path || other_method != method ==> router.with(path, method, route).route_at(
            other_path,
            other_method,
        ) == router.route_at(other_path, other_method),
{
    let methods = match lookup(router.routes, path) {
        Some(m) => m,
        None => Seq::empty(),
    };
    let kept = put(methods, method, route);
    lemma_put(router.routes, path, kept, other_path);
    lemma_put(methods, method, route, other_method);
    if other_path == path && other_method != method {
        if lookup(router.routes, path).is_none() {
            assert(lookup(methods, other_method).is_none());
        }
    }
}

/// A table that registration and mounting build stays one when a route is
/// kept under a path in normal form.
pub proof fn lemma_with_keeps_wf(
    router: RouterView,
    path: Seq<char>,
    method: Method,
    route: RouteView,
)
    requires
        router.wf(),
    ensures
        router.with(normalized(path), method, route).wf(),
{
    let p = normalized(path);
    lemma_with_keeps_keys_normalized(router, path, method, route);
    let methods = match lookup(router.routes, p) {
        Some(m) => m,
        None => Seq::empty(),
    };
    let kept = put(methods, method, route);
    lemma_position(router.routes, p);
    lemma_put(router.routes, p, kept, p);
    lemma_put(methods, method, route, method);
    let after = router.with(p, method, route).routes;
    assert forall|i: int| 0 <= i < after.len() implies distinct_keys((#[trigger] after[i]).1) by {
        if i != position(router.routes, p) {
            assert(after[i] == router.routes[i]);
        } else {
            if position(router.routes, p) < router.routes.len() {
                assert(methods == router.routes[i].1);
            }
        }
    }
}

/// After the routes `methods` of one path of a mounted table were taken
/// over, each of them is found under the prefix and the path, with the
/// table's middleware before its own. What is kept under other paths, and
/// the table's middleware, are as they were.
pub proof fn lemma_mounted_methods(
    router: RouterView,
    prefix: Seq<char>,
    key: Seq<char>,
    methods: Seq<(Method, RouteView)>,
    j: int,
    other_path: Seq<char>,
    other_method: Method,
)
    requires
        distinct_keys(methods),
    ensures
        router.with_mounted_methods(prefix, key, methods).middlewares == router.middlewares,
        0 <= j < methods.len() ==> router.with_mounted_methods(prefix, key, methods).route_at(
            normalized(prefix + key),
            methods[j].0,
        ) == Some(router.merged(methods[j].1)),
        other_path != normalized(prefix + key) ==> router.with_mounted_methods(
            prefix,
            key,
            methods,
        ).route_at(other_path, other_method) == router.route_at(other_path, other_method),
    decreases methods.len(),
{
    if methods.len() > 0 {
        let before = methods.drop_last();
        let last = methods.last();
        let inner = router.with_mounted_methods(prefix, key, before);
        let target = normalized(prefix + key);
        assert(distinct_keys(before)) by {
            assert forall|a: int, b: int| 0 <= a < b < before.len() implies (#[trigger] before[a]).0
                != (#[trigger] before[b]).0 by {
                assert(before[a] == methods[a]);
                assert(before[b] == methods[b]);
            }
        }
        lemma_mounted_methods(router, prefix, key, before, j, other_path, other_method);
        lemma_with(inner, target, last.0, inner.merged(last.1), other_path, other_method);
        if 0 <= j < methods.len() {
            lemma_with(inner, target, last.0, inner.merged(last.1), target, methods[j].0);
            if j < methods.len() - 1 {
                assert(before[j] == methods[j]);
                assert(methods[j].0 != methods[methods.len() - 1].0);
            }
        }
    }
}

/// The path under which the routes of the entry at `i` of a mounted table
/// are kept.
pub open spec fn mounted_at(
    prefix: Seq<char>,
    entries: Seq<(Seq<char>, Seq<(Method, RouteView)>)>,
    i: int,
) -> Seq<char> {
    normalized(prefix + entries[i].0)
}

/// After the paths `entries` of a mounted table were taken over, where no
/// two of them come to stand under the same path, the route at `j` of the
/// entry at `i` is found under the prefix and its path, with the table's
/// middleware before its own; and the table's middleware are as they were.
pub proof fn lemma_mounted_entries(
    router: RouterView,
    prefix: Seq<char>,
    entries: Seq<(Seq<char>, Seq<(Method, RouteView)>)>,
    i: int,
    j: int,
)
    requires
        0 <= i < entries.len(),
        0 <= j < entries[i].1.len(),
        forall|a: int| 0 <= a < entries.len() ==> distinct_keys((#[trigger] entries[a]).1),
        forall|a: int, b: int|
            0 <= a < b < entries.len() ==> mounted_at(prefix, entries, a) != mounted_at(
                prefix,
                entries,
                b,
            ),
    ensures
        router.with_mounted(prefix, entries).middlewares == router.middlewares,
        router.with_mounted(prefix, entries).route_at(
            mounted_at(prefix, entries, i),
            entries[i].1[j].0,
        ) == Some(router.merged(entries[i].1[j].1)),
    decreases entries.len(),
{
    let before = entries.drop_last();
    let last = entries.last();
    let inner = router.with_mounted(prefix, before);
    let target = mounted_at(prefix, entries, i);
    let method = entries[i].1[j].0;
    lemma_mounted_middlewares(router, prefix, before);
    lemma_mounted_methods(inner, prefix, last.0, last.1, j, target, method);
    if i < entries.len() - 1 {
        assert(before[i] == entries[i]);
        assert forall|a: int| 0 <= a < before.len() implies distinct_keys(
            (#[trigger] before[a]).1,
        ) by {
            assert(before[a] == entries[a]);
        }
        assert forall|a: int, b: int| 0 <= a < b < before.len() implies mounted_at(
            prefix,
            before,
            a,
        ) != mounted_at(prefix, before, b) by {
            assert(before[a] == entries[a]);
            assert(before[b] == entries[b]);
            assert(mounted_at(prefix, entries, a) != mounted_at(prefix, entries, b));
        }
        lemma_mounted_entries(router, prefix, before, i, j);
        assert(mounted_at(prefix, entries, i) != mounted_at(prefix, entries, entries.len() - 1));
    }
}

/// Taking over the routes of a mounted table leaves the table's own
/// middleware as they were.
pub proof fn lemma_mounted_middlewares(
    router: RouterView,
    prefix: Seq<char>,
    entries: Seq<(Seq<char>, Seq<(Method, RouteView)>)>,
)
    ensures
        router.with_mounted(prefix, entries).middlewares == router.middlewares,
    decreases entries.len(),
{
    if entries.len() > 0 {
        lemma_mounted_middlewares(router, prefix, entries.drop_last());
        lemma_methods_middlewares(
            router.with_mounted(prefix, entries.drop_last()),
            prefix,
            entries.last().0,
            entries.last().1,
        );
    }
}

proof fn lemma_methods_middlewares(
    router: RouterView,
    prefix: Seq<char>,
    key: Seq<char>,
    methods: Seq<(Method, RouteView)>,
)
    ensures
        router.with_mounted_methods(prefix, key, methods).middlewares == router.middlewares,
    decreases methods.len(),
{
    if methods.len() > 0 {
        lemma_methods_middlewares(router, prefix, key, methods.drop_last());
    }
}

/// Every route of a mounted table is found again: after the table
/// `mounted` was mounted under `prefix`, a request for the method of any of
/// its routes on the prefix and the route's path is served by that route's
/// handler, behind the mounting table's middleware followed by the route's
/// own. The mounting table's middleware are what they were.
pub proof fn lemma_mounted_routes_resolve(
    router: RouterView,
    prefix: Seq<char>,
    mounted: RouterView,
    i: int,
    j: int,
)
    requires
        mounted.wf(),
        0 <= i < mounted.routes.len(),
        0 <= j < mounted.routes[i].1.len(),
    ensures
        router.with_mounted(prefix, mounted.routes).middlewares == router.middlewares,
        router.with_mounted(prefix, mounted.routes).resolve(
            normalized(prefix + mounted.routes[i].0),
            mounted.routes[i].1[j].0,
        ) == (
            DispatchView::Route(
                RouteView {
                    middlewares: router.middlewares + mounted.routes[i].1[j].1.middlewares,
                    handler: mounted.routes[i].1[j].1.handler,
                },
            ),
            None::<Seq<(Seq<char>, Seq<char>)>>,
        ),
{
    let entries = mounted.routes;
    assert forall|a: int, b: int| 0 <= a < b < entries.len() implies mounted_at(
        prefix,
        entries,
        a,
    ) != mounted_at(prefix, entries, b) by {
        assert(normalized(entries[a].0) == entries[a].0);
        assert(normalized(entries[b].0) == entries[b].0);
        assert(entries[a].0 != entries[b].0);
        lemma_prefixed_differ(prefix, entries[a].0, entries[b].0);
    }
    lemma_mounted_entries(router, prefix, entries, i, j);
}

/// On a path that has a route for `GET` and none for `HEAD`, a `HEAD`
/// request is served by the route for `GET`. On a path that has a route for
/// `GET` and none for `OPTIONS`, an `OPTIONS` request is served by the
/// middleware of the route for `GET` around an empty response with the
/// status 200: no handler runs.
pub proof fn lemma_head_and_options(router: RouterView, path: Seq<char>, get: RouteView)
    requires
        router.resolve_static(path, Method::GET) == Some(DispatchView::Route(get)),
    ensures
        router.resolve_static(path, Method::HEAD).is_some(),
        router.resolve_static(path, Method::OPTIONS).is_some(),
        lookup(lookup(router.routes, path).unwrap(), Method::HEAD).is_none() ==> router.resolve(
            path,
            Method::HEAD,
        ).0 == DispatchView::Head(get),
        lookup(lookup(router.routes, path).unwrap(), Method::OPTIONS).is_none() ==> router.resolve(
            path,
            Method::OPTIONS,
        ).0 == DispatchView::Options(get.middlewares) && router.resolve(
            path,
            Method::OPTIONS,
        ).0.pipeline().unwrap().terminal == Terminal::EmptyOk,
{
}

/// The index of the route for `method` in `methods`.
fn find_method(methods: &Vec<(Method, Route)>, method: Method) -> (i: usize)
    ensures
        i == position(methods_view(methods@), method),
        i <= methods@.len(),
{
    let mut i: usize = 0;
    while i < methods.len() && !(methods[i].0 == method)
        invariant
            i <= methods@.len(),
            forall|j: int| 0 <= j < i ==> (#[trigger] methods_view(methods@)[j]).0 != method,
        decreases methods@.len() - i,
    {
        i = i + 1;
    }
    proof {
        lemma_position_is(methods_view(methods@), method, i as int);
    }
    i
}

/// How `method` is served on a path with the routes `methods`.
fn choose_route(methods: &Vec<(Method, Route)>, method: Method) -> (r: Option<Dispatch>)
    ensures
        match r {
            Some(d) => served_by(methods_view(methods@), method) == Some(d@),
            None => served_by(methods_view(methods@), method).is_none(),
        },
{
    let i = find_method(methods, method);
    if i < methods.len() {
        return Some(Dispatch::Route(methods[i].1.duplicate()));
    }
    let g = find_method(methods, Method::GET);
    if g < methods.len() {
        if method == Method::HEAD {
            return Some(Dispatch::Head(methods[g].1.duplicate()));
        }
        if method == Method::OPTIONS {
            return Some(Dispatch::Options(methods[g].1.middlewares.duplicate()));
        }
    }
    None
}

impl Router {
    /// The empty table without middleware.
    pub fn new() -> (r: Router)
        ensures
            r@ == (RouterView {
                middlewares: Seq::empty(),
                routes: Seq::empty(),
                dynamic: Seq::empty(),
            }),
    {
        let r = Router {
            middlewares: MiddlewareManager::new(),
            routes: Vec::new(),
            dynamic_routes: Vec::new(),
        };
        assert(r@.routes =~= Seq::empty());
        assert(r@.dynamic =~= Seq::empty());
        r
    }

    /// The index of the entry for `path`.
    fn find_path(&self, path: &String) -> (i: usize)
        ensures
            i == position(self@.routes, path@),
            i <= self.routes@.len(),
    {
        let mut i: usize = 0;
        while i < self.routes.len() && !(self.routes[i].path == *path)
            invariant
                i <= self.routes@.len(),
                forall|j: int| 0 <= j < i ==> (#[trigger] self@.routes[j]).0 != path@,
            decreases self.routes@.len() - i,
        {
            i = i + 1;
        }
        proof {
            lemma_position_is(self@.routes, path@, i as int);
        }
        i
    }

    /// Keeps `route` for `method` under `path`, which is taken as it is.
    fn insert(&mut self, path: String, method: Method, route: Route)
        ensures
            final(self)@ == old(self)@.with(path@, method, route@),
    {
        let ghost before = self@;
        let i = self.find_path(&path);
        if i == self.routes.len() {
            self.routes.push(PathRoutes { path: path.clone(), methods: Vec::new() });
        }
        if has_parameter(path.as_str()) {
            self.dynamic_routes.push(path.clone());
        }
        let ghost methods = methods_view(self.routes@[i as int].methods@);
        let ghost mid = self.routes@;
        proof {
            lemma_position(before.routes, path@);
            if i < before.routes.len() {
                assert(methods == before.routes[i as int].1);
                assert(before.routes[i as int].0 == path@);
            } else {
                assert(methods =~= Seq::empty());
            }
            assert(mid[i as int].path@ == path@);
        }
        let j = find_method(&self.routes[i].methods, method);
        if j < self.routes[i].methods.len() {
            self.routes[i].methods.set(j, (method, route));
        } else {
            self.routes[i].methods.push((method, route));
        }
        proof {
            let after = methods_view(self.routes@[i as int].methods@);
            assert(after =~= put(methods, method, route@));
            assert(self.routes@.len() == mid.len());
            assert(self.routes@[i as int].path == mid[i as int].path);
            assert forall|k: int| 0 <= k < mid.len() && k != i implies self.routes@[k] == mid[k] by {}
            let target = put(before.routes, path@, after);
            assert(self@.routes.len() == target.len());
            assert forall|k: int| 0 <= k < target.len() implies self@.routes[k] == target[k] by {
                if k != i {
                    assert(self.routes@[k] == mid[k]);
                    assert(mid[k] == old(self).routes@[k]);
                }
            }
            assert(self@.routes =~= target);
            assert(self@.dynamic =~= before.with(path@, method, route@).dynamic);
        }
    }

    /// Registers `handler` for `method` on `path`.
    pub fn add(&mut self, method: Method, path: &str, handler: u64)
        ensures
            final(self)@ == old(self)@.with_route(method, path@, handler),
    {
        let path = normalize_path(path);
        let route = Route { middlewares: self.middlewares.duplicate(), handler };
        self.insert(path, method, route);
    }

    /// Registers `handler` for `GET` on `path`.
    pub fn get(&mut self, path: &str, handler: u64) -> (r: &mut Self)
        ensures
            r@ == old(self)@.with_route(Method::GET, path@, handler),
            *final(self) == *final(r),
    {
        self.add(Method::GET, path, handler);
        self
    }

    /// Registers `handler` for `POST` on `path`.
    pub fn post(&mut self, path: &str, handler: u64) -> (r: &mut Self)
        ensures
            r@ == old(self)@.with_route(Method::POST, path@, handler),
            *final(self) == *final(r),
    {
        self.add(Method::POST, path, handler);
        self
    }

    /// Registers `handler` for `PUT` on `path`.
    pub fn put(&mut self, path: &str, handler: u64) -> (r: &mut Self)
        ensures
            r@ == old(self)@.with_route(Method::PUT, path@, handler),
            *final(self) == *final(r),
    {
        self.add(Method::PUT, path, handler);
        self
    }

    /// Registers `handler` for `PATCH` on `path`.
    pub fn patch(&mut self, path: &str, handler: u64) -> (r: &mut Self)
        ensures
            r@ == old(self)@.with_route(Method::PATCH, path@, handler),
            *final(self) == *final(r),
    {
        self.add(Method::PATCH, path, handler);
        self
    }

    /// Registers `handler` for `DELETE` on `path`.
    pub fn delete(&mut self, path: &str, handler: u64) -> (r: &mut Self)
        ensures
            r@ == old(self)@.with_route(Method::DELETE, path@, handler),
            *final(self) == *final(r),
    {
        self.add(Method::DELETE, path, handler);
        self
    }

    /// Registers `handler` for `HEAD` on `path`.
    pub fn head(&mut self, path: &str, handler: u64) -> (r: &mut Self)
        ensures
            r@ == old(self)@.with_route(Method::HEAD, path@, handler),
            *final(self) == *final(r),
    {
        self.add(Method::HEAD, path, handler);
        self
    }

    /// Registers `handler` for `CONNECT` on `path`.
    pub fn connect(&mut self, path: &str, handler: u64) -> (r: &mut Self)
        ensures
            r@ == old(self)@.with_route(Method::CONNECT, path@, handler),
            *final(self) == *final(r),
    {
        self.add(Method::CONNECT, path, handler);
        self
    }

    /// Registers `handler` for `OPTIONS` on `path`.
    pub fn options(&mut self, path: &str, handler: u64) -> (r: &mut Self)
        ensures
            r@ == old(self)@.with_route(Method::OPTIONS, path@, handler),
            *final(self) == *final(r),
    {
        self.add(Method::OPTIONS, path, handler);
        self
    }

    /// Registers `handler` for `TRACE` on `path`.
    pub fn trace(&mut self, path: &str, handler: u64) -> (r: &mut Self)
        ensures
            r@ == old(self)@.with_route(Method::TRACE, path@, handler),
            *final(self) == *final(r),
    {
        self.add(Method::TRACE, path, handler);
        self
    }

    /// Adds `middleware` to the middleware that routes registered from now
    /// on are wrapped in, as the innermost.
    pub fn middleware(&mut self, middleware: u64)
        ensures
            final(self)@ == (RouterView {
                middlewares: old(self)@.middlewares.push(middleware),
                ..old(self)@
            }),
    {
        self.middlewares.add(middleware);
    }

    /// Takes over the routes of `router` under the prefix `path`.
    pub fn mount(&mut self, path: &str, router: Router)
        ensures
            final(self)@ == old(self)@.with_mounted(path@, router@.routes),
    {
        let ghost entries = router@.routes;
        let mut i: usize = 0;
        proof {
            assert(entries.take(0) =~= Seq::empty());
        }
        while i < router.routes.len()
            invariant
                i <= router.routes@.len(),
                entries == router@.routes,
                self@ == old(self)@.with_mounted(path@, entries.take(i as int)),
            decreases router.routes@.len() - i,
        {
            let entry = &router.routes[i];
            let mut full = to_chars(path);
            extend_str(&mut full, entry.path.as_str());
            let full = from_chars(full.as_slice());
            let target = normalize_path(full.as_str());
            let ghost start = self@;
            let ghost methods = methods_view(entry.methods@);
            assert(entries[i as int] == (entry.path@, methods));
            let mut j: usize = 0;
            proof {
                assert(methods.take(0) =~= Seq::empty());
                assert(entries.take(i + 1).drop_last() =~= entries.take(i as int));
            }
            while j < entry.methods.len()
                invariant
                    j <= entry.methods@.len(),
                    methods == methods_view(entry.methods@),
                    target@ == normalized(path@ + entry.path@),
                    self@ == start.with_mounted_methods(path@, entry.path@, methods.take(j as int)),
                decreases entry.methods@.len() - j,
            {
                let method = entry.methods[j].0;
                let inner = &entry.methods[j].1;
                let mut chain = self.middlewares.duplicate();
                chain.append(inner.middlewares.duplicate());
                proof {
                    assert(methods.take(j + 1).drop_last() =~= methods.take(j as int));
                    assert(methods[j as int] == (method, inner@));
                }
                self.insert(target.clone(), method, Route { middlewares: chain, handler: inner.handler });
                j = j + 1;
            }
            proof {
                assert(methods.take(entry.methods@.len() as int) =~= methods);
            }
            i = i + 1;
        }
        proof {
            assert(entries.take(router.routes@.len() as int) =~= entries);
        }
    }

    /// How `method` on `path` is served by the patterns from the index
    /// `from` on.
    fn resolve_patterns(&self, path: &str, method: Method) -> (r: Option<(Dispatch, StringMap)>)
        ensures
            match r {
                Some((d, params)) => self@.resolve_dynamic(self@.dynamic, path@, method) == Some(
                    (d@, params@),
                ),
                None => self@.resolve_dynamic(self@.dynamic, path@, method).is_none(),
            },
    {
        let ghost patterns = self@.dynamic;
        let mut i: usize = 0;
        proof {
            assert(patterns.skip(0) =~= patterns);
        }
        while i < self.dynamic_routes.len()
            invariant
                i <= self.dynamic_routes@.len(),
                patterns == self@.dynamic,
                self@.resolve_dynamic(patterns.skip(i as int), path@, method)
                    == self@.resolve_dynamic(patterns, path@, method),
            decreases self.dynamic_routes@.len() - i,
        {
            let pattern = &self.dynamic_routes[i];
            proof {
                assert(patterns.skip(i as int)[0] == pattern@);
                assert(patterns.skip(i as int).skip(1) =~= patterns.skip(i + 1));
            }
            match match_dynamic_path(pattern.as_str(), path) {
                Some(params) => {
                    let k = self.find_path(pattern);
                    if k < self.routes.len() {
                        match choose_route(&self.routes[k].methods, method) {
                            Some(dispatch) => {
                                return Some((dispatch, params));
                            },
                            None => {},
                        }
                    }
                },
                None => {},
            }
            i = i + 1;
        }
        None
    }

    /// How `method` on `path` is served, and the path parameters that are
    /// bound for it.
    pub fn resolve(&self, path: &str, method: Method) -> (r: (Dispatch, Option<StringMap>))
        ensures
            r.0@ == self@.resolve(path@, method).0,
            match r.1 {
                Some(params) => self@.resolve(path@, method).1 == Some(params@),
                None => self@.resolve(path@, method).1.is_none(),
            },
    {
        let owned = path.to_owned();
        let k = self.find_path(&owned);
        if k < self.routes.len() {
            match choose_route(&self.routes[k].methods, method) {
                Some(dispatch) => {
                    return (dispatch, None);
                },
                None => {},
            }
        }
        match self.resolve_patterns(path, method) {
            Some((dispatch, params)) => (dispatch, Some(params)),
            None => (Dispatch::Unrouted, None),
        }
    }
}

impl Dispatch {
    /// The pipeline to invoke, if the request is served by a route.
    pub fn pipeline(&self) -> (r: Option<Next>)
        ensures
            match r {
                Some(next) => self@.pipeline() == Some(next@),
                None => self@.pipeline().is_none(),
            },
    {
        match self {
            Dispatch::Route(route) => Some(route.handle()),
            Dispatch::Head(route) => Some(route.handle()),
            Dispatch::Options(middlewares) => {
                let next = middlewares.call(Next::new_handler(Terminal::EmptyOk));
                assert(next@.chain =~= middlewares@);
                Some(next)
            },
            Dispatch::Unrouted => None,
        }
    }

    /// What is sent, given what the pipeline answered with: for a `HEAD`
    /// request that the route for `GET` served, the response without its
    /// body; in every other case the answer as it is.
    pub fn complete(&self, answer: HttpResponse) -> (r: HttpResponse)
        ensures
            match answer {
                Ok(response) => r matches Ok(sent) && sent@ == if self@ is Head {
                    response@.with_body(Seq::empty())
                } else {
                    response@
                },
                Err(e) => r == Err::<Response, _>(e),
            },
    {
        match answer {
            Ok(response) => match self {
                Dispatch::Head(_) => {
                    let mut response = response;
                    response.body = String::new();
                    Ok(response)
                },
                _ => Ok(response),
            },
            Err(e) => Err(e),
        }
    }
}

} // verus!
