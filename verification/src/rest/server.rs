//! go-zero style server builder over a framework-neutral route table.
use vstd::prelude::*;
use std::marker::PhantomData;
use crate::rest::config::RestConf;
use crate::rest::engine::Engine;
use crate::rest::middleware::max_bytes::BodyLimit;
use crate::rest::web::HttpMethod;
use crate::text::{chars_of_string, eq_chars};

verus! {

/// One registered route.
#[derive(Debug, Clone)]
pub struct RouteEntry {
    pub method: HttpMethod,
    pub path: String,
}

/// A middleware layer wrapped around every route.
#[derive(Debug, Clone, Copy, PartialEq, Eq, Structural)]
pub enum Layer {
    /// Requests that take longer answer `504 Gateway Timeout`.
    Timeout { millis: u64 },
    /// Request bodies beyond the limit are refused.
    BodyLimit(BodyLimit),
}

/// Two routes collide when they share method and path.
pub open spec fn collide(a: RouteEntry, b: RouteEntry) -> bool {
    a.method == b.method && a.path@ == b.path@
}

/// Which requests a layer wraps: the routes at indices `from..to` of its router,
/// and the fallback (not-found) handler when `fallback` holds.
#[derive(Debug, Clone, Copy, PartialEq, Eq, Structural)]
pub struct LayerScope {
    pub from: usize,
    pub to: usize,
    pub fallback: bool,
}

/// The scopes of a router's layers after `other` is merged in: the routes of
/// `other` come after the `n` routes already there, each side's layers keep their
/// routes, and only the layers of the side whose fallback is kept wrap it (the
/// other side's fallback, when set, replaces the default one).
pub open spec fn merged_scopes(
    mine: Seq<LayerScope>,
    n: nat,
    theirs: Seq<LayerScope>,
    their_fallback: bool,
) -> Seq<LayerScope> {
    mine.map_values(|c: LayerScope| LayerScope { fallback: c.fallback && !their_fallback, ..c })
        + theirs.map_values(
        |c: LayerScope|
            LayerScope {
                from: (c.from + n) as usize,
                to: (c.to + n) as usize,
                fallback: c.fallback && their_fallback,
            },
    )
}

/// A route table with state type `S`: routes, layers (innermost first) with the
/// requests each wraps, whether a fallback (not-found) handler is set, and whether
/// the state has been supplied.
#[derive(Debug)]
pub struct Router<S> {
    routes: Vec<RouteEntry>,
    layers: Vec<Layer>,
    scopes: Vec<LayerScope>,
    fallback: bool,
    state_applied: bool,
    marker: PhantomData<S>,
}

impl<S> Router<S> {
    /// Every layer has a scope, within the routes.
    #[verifier::type_invariant]
    closed spec fn scoped(self) -> bool {
        &&& self.layers@.len() == self.scopes@.len()
        &&& forall|k: int|
            0 <= k < self.scopes@.len() ==> (#[trigger] self.scopes@[k]).from <= self.scopes@[k].to
                <= self.routes@.len()
    }

    pub closed spec fn routes(&self) -> Seq<RouteEntry> {
        self.routes@
    }

    pub closed spec fn layers(&self) -> Seq<Layer> {
        self.layers@
    }

    /// What each layer (by index in `layers`) wraps.
    pub closed spec fn scopes(&self) -> Seq<LayerScope> {
        self.scopes@
    }

    pub closed spec fn has_fallback(&self) -> bool {
        self.fallback
    }

    pub closed spec fn state_applied(&self) -> bool {
        self.state_applied
    }

    /// A router holds at most `usize::MAX` routes.
    pub proof fn lemma_routes_fit(&self)
        ensures
            self.routes().len() <= usize::MAX,
    {
        assert(self.routes.len() == self.routes@.len());
    }

    /// Layer `k` wraps the route at index `i`.
    pub open spec fn wraps_route(&self, k: int, i: int) -> bool {
        0 <= k < self.scopes().len() && self.scopes()[k].from <= i < self.scopes()[k].to
    }

    /// Layer `k` wraps the fallback handler.
    pub open spec fn wraps_fallback(&self, k: int) -> bool {
        0 <= k < self.scopes().len() && self.scopes()[k].fallback
    }

    /// No route of `self` collides with a route of `other`.
    pub open spec fn disjoint<T>(&self, other: &Router<T>) -> bool {
        forall|i: int, j: int|
            0 <= i < self.routes().len() && 0 <= j < other.routes().len() ==> !collide(
                #[trigger] self.routes()[i],
                #[trigger] other.routes()[j],
            )
    }

    pub fn new() -> (r: Self)
        ensures
            r.routes().len() == 0,
            r.layers().len() == 0,
            r.scopes().len() == 0,
            !r.has_fallback(),
            !r.state_applied(),
    {
        Router {
            routes: Vec::new(),
            layers: Vec::new(),
            scopes: Vec::new(),
            fallback: false,
            state_applied: false,
            marker: PhantomData,
        }
    }

    /// What each layer wraps, in the order the layers were added.
    pub fn layer_scopes(&self) -> (v: Vec<LayerScope>)
        ensures
            v@ == self.scopes(),
    {
        let mut v: Vec<LayerScope> = Vec::new();
        let mut i: usize = 0;
        while i < self.scopes.len()
            invariant
                i <= self.scopes.len(),
                v@ == self.scopes@.subrange(0, i as int),
            decreases self.scopes.len() - i,
        {
            v.push(self.scopes[i]);
            assert(self.scopes@.subrange(0, i + 1) =~= self.scopes@.subrange(0, i as int).push(self.scopes[i as int]));
            i = i + 1;
        }
        assert(self.scopes@.subrange(0, self.scopes.len() as int) =~= self.scopes@);
        v
    }

    /// Whether a route with `method` and `path` is registered.
    pub fn has_route(&self, method: HttpMethod, path: &String) -> (b: bool)
        ensures
            b == exists|i: int|
                0 <= i < self.routes().len() && #[trigger] collide(
                    self.routes()[i],
                    RouteEntry { method, path: *path },
                ),
    {
        let p = chars_of_string(path);
        let mut i: usize = 0;
        while i < self.routes.len()
            invariant
                i <= self.routes.len(),
                p@ == path@,
                forall|k: int|
                    0 <= k < i ==> !collide(
                        #[trigger] self.routes@[k],
                        RouteEntry { method, path: *path },
                    ),
            decreases self.routes.len() - i,
        {
            let q = chars_of_string(&self.routes[i].path);
            if self.routes[i].method == method && eq_chars(&q, &p) {
                assert(collide(self.routes()[i as int], RouteEntry { method, path: *path }));
                return true;
            }
            i = i + 1;
        }
        false
    }

    /// Registers a route. Registering the same method and path twice is refused
    /// by the native routers (they panic), so it is excluded here. No layer added
    /// before wraps it.
    pub fn route(self, method: HttpMethod, path: String) -> (r: Self)
        requires
            forall|i: int|
                0 <= i < self.routes().len() ==> !collide(
                    #[trigger] self.routes()[i],
                    RouteEntry { method, path },
                ),
        ensures
            r.routes() == self.routes().push(RouteEntry { method, path }),
            r.layers() == self.layers(),
            r.scopes() == self.scopes(),
            r.has_fallback() == self.has_fallback(),
            r.state_applied() == self.state_applied(),
    {
        proof {
            use_type_invariant(&self);
        }
        let Router { routes, layers, scopes, fallback, state_applied, marker } = self;
        let mut routes = routes;
        routes.push(RouteEntry { method, path });
        Router { routes, layers, scopes, fallback, state_applied, marker }
    }

    /// Wraps the routes registered so far and the fallback in `l` (axum `layer`).
    pub fn layer(self, l: Layer) -> (r: Self)
        ensures
            r.routes() == self.routes(),
            r.layers() == self.layers().push(l),
            r.scopes() == self.scopes().push(
                LayerScope { from: 0, to: self.routes().len() as usize, fallback: true },
            ),
            r.has_fallback() == self.has_fallback(),
            r.state_applied() == self.state_applied(),
    {
        self.add_layer(l, true)
    }

    /// Wraps the routes registered so far, but not the fallback, in `l` (axum
    /// `route_layer`).
    pub fn route_layer(self, l: Layer) -> (r: Self)
        ensures
            r.routes() == self.routes(),
            r.layers() == self.layers().push(l),
            r.scopes() == self.scopes().push(
                LayerScope { from: 0, to: self.routes().len() as usize, fallback: false },
            ),
            r.has_fallback() == self.has_fallback(),
            r.state_applied() == self.state_applied(),
    {
        self.add_layer(l, false)
    }

    fn add_layer(self, l: Layer, fallback: bool) -> (r: Self)
        ensures
            r.routes() == self.routes(),
            r.layers() == self.layers().push(l),
            r.scopes() == self.scopes().push(
                LayerScope { from: 0, to: self.routes().len() as usize, fallback },
            ),
            r.has_fallback() == self.has_fallback(),
            r.state_applied() == self.state_applied(),
    {
        proof {
            use_type_invariant(&self);
        }
        let Router { routes, layers, scopes, fallback: fb, state_applied, marker } = self;
        let n = routes.len();
        let mut layers = layers;
        let mut scopes = scopes;
        layers.push(l);
        scopes.push(LayerScope { from: 0, to: n, fallback });
        Router { routes, layers, scopes, fallback: fb, state_applied, marker }
    }

    /// Sets the fallback (not-found) handler. The layers added before wrap only
    /// the handler they saw, so none wraps the new one.
    pub fn fallback(self) -> (r: Self)
        ensures
            r.routes() == self.routes(),
            r.layers() == self.layers(),
            r.scopes() == self.scopes().map_values(
                |c: LayerScope| LayerScope { fallback: false, ..c },
            ),
            r.has_fallback(),
            r.state_applied() == self.state_applied(),
    {
        proof {
            use_type_invariant(&self);
        }
        let Router { routes, layers, scopes, fallback: _, state_applied, marker } = self;
        let mut out: Vec<LayerScope> = Vec::new();
        let mut i: usize = 0;
        while i < scopes.len()
            invariant
                i <= scopes.len(),
                out@ == scopes@.subrange(0, i as int).map_values(
                    |c: LayerScope| LayerScope { fallback: false, ..c },
                ),
            decreases scopes.len() - i,
        {
            let c = scopes[i];
            out.push(LayerScope { from: c.from, to: c.to, fallback: false });
            assert(scopes@.subrange(0, i + 1) =~= scopes@.subrange(0, i as int).push(c));
            i = i + 1;
        }
        assert(scopes@.subrange(0, scopes.len() as int) =~= scopes@);
        Router { routes, layers, scopes: out, fallback: true, state_applied, marker }
    }

    /// Merges the routes of `other` into `self`: each keeps the layers it had (see
    /// `merged_scopes`). Colliding routes, or two fallbacks, are refused by the
    /// native routers (they panic), so they are excluded.
    pub fn merge(self, other: Router<S>) -> (r: Self)
        requires
            self.disjoint(&other),
            !(self.has_fallback() && other.has_fallback()),
        ensures
            r.routes() == self.routes() + other.routes(),
            r.layers() == self.layers() + other.layers(),
            r.scopes() == merged_scopes(
                self.scopes(),
                self.routes().len(),
                other.scopes(),
                other.has_fallback(),
            ),
            r.has_fallback() == (self.has_fallback() || other.has_fallback()),
            r.state_applied() == self.state_applied(),
    {
        proof {
            use_type_invariant(&self);
            use_type_invariant(&other);
        }
        let Router { routes, layers, scopes, fallback, state_applied, marker } = self;
        let Router { routes: o_routes, layers: o_layers, scopes: o_scopes, fallback: o_fallback, .. } =
            other;
        let n = routes.len();
        let m = o_routes.len();
        let ghost lens = (layers@.len(), o_layers@.len());
        let mut routes = routes;
        let mut more = o_routes;
        routes.append(&mut more);
        let total = routes.len();
        assert(total == n + m);
        let mut layers = layers;
        let mut more_layers = o_layers;
        layers.append(&mut more_layers);
        let ghost mine = scopes@;
        let ghost theirs = o_scopes@;
        let mut out: Vec<LayerScope> = Vec::new();
        let mut i: usize = 0;
        while i < scopes.len()
            invariant
                i <= scopes.len(),
                mine == scopes@,
                out@ == mine.subrange(0, i as int).map_values(
                    |c: LayerScope| LayerScope { fallback: c.fallback && !o_fallback, ..c },
                ),
            decreases scopes.len() - i,
        {
            let c = scopes[i];
            out.push(LayerScope { from: c.from, to: c.to, fallback: c.fallback && !o_fallback });
            assert(mine.subrange(0, i + 1) =~= mine.subrange(0, i as int).push(c));
            i = i + 1;
        }
        assert(mine.subrange(0, scopes.len() as int) =~= mine);
        let ghost head = out@;
        let mut j: usize = 0;
        while j < o_scopes.len()
            invariant
                j <= o_scopes.len(),
                theirs == o_scopes@,
                total == n + m,
                forall|k: int|
                    0 <= k < theirs.len() ==> (#[trigger] theirs[k]).from <= theirs[k].to <= m,
                out@ == head + theirs.subrange(0, j as int).map_values(
                    |c: LayerScope|
                        LayerScope {
                            from: (c.from + n) as usize,
                            to: (c.to + n) as usize,
                            fallback: c.fallback && o_fallback,
                        },
                ),
            decreases o_scopes.len() - j,
        {
            let c = o_scopes[j];
            assert(theirs[j as int] == c);
            out.push(LayerScope { from: c.from + n, to: c.to + n, fallback: c.fallback && o_fallback });
            assert(theirs.subrange(0, j + 1) =~= theirs.subrange(0, j as int).push(c));
            j = j + 1;
        }
        assert(theirs.subrange(0, o_scopes.len() as int) =~= theirs);
        assert(out@ == merged_scopes(mine, n as nat, theirs, o_fallback));
        assert forall|k: int| 0 <= k < out@.len() implies (#[trigger] out@[k]).from <= out@[k].to
            <= routes@.len() by {
            if k < mine.len() {
                assert(out@[k] == LayerScope { fallback: mine[k].fallback && !o_fallback, ..mine[k] });
            } else {
                let c = theirs[k - mine.len()];
                assert(out@[k] == LayerScope {
                    from: (c.from + n) as usize,
                    to: (c.to + n) as usize,
                    fallback: c.fallback && o_fallback,
                });
            }
        }
        let r = Router { routes, layers, scopes: out, fallback: fallback || o_fallback, state_applied, marker };
        r
    }

    /// Fixes the state, giving a router that needs none.
    pub fn with_state(self, _state: S) -> (r: Router<()>)
        ensures
            r.routes() == self.routes(),
            r.layers() == self.layers(),
            r.scopes() == self.scopes(),
            r.has_fallback() == self.has_fallback(),
            r.state_applied(),
    {
        proof {
            use_type_invariant(&self);
        }
        let Router { routes, layers, scopes, fallback, state_applied: _, marker: _ } = self;
        Router { routes, layers, scopes, fallback, state_applied: true, marker: PhantomData }
    }
}

/// go-zero style server: an engine and the routes it will serve.
#[derive(Debug)]
pub struct Server<S> {
    engine: Engine,
    router: Router<S>,
}

impl<S> Server<S> {
    pub closed spec fn engine_spec(&self) -> Engine {
        self.engine
    }

    pub closed spec fn router_spec(&self) -> Router<S> {
        self.router
    }

    /// A server for `conf`, refused with `validate`'s message when `conf` is invalid.
    pub fn new(conf: RestConf) -> (r: Result<Server<S>, String>)
        ensures
            match r {
                Ok(s) => conf.valid() && s.engine_spec().conf == conf && s.router_spec().routes().len()
                    == 0 && s.router_spec().layers().len() == 0 && !s.router_spec().has_fallback()
                    && !s.router_spec().state_applied(),
                Err(m) => !conf.valid() && conf.validate_spec() == Err::<(), Seq<char>>(m@),
            },
    {
        match conf.validate() {
            Err(m) => Err(m),
            Ok(()) => Ok(Server { engine: Engine::new(conf), router: Router::new() }),
        }
    }

    /// Like `new`, for a configuration known to be valid (an invalid one panics).
    pub fn must_new(conf: RestConf) -> (s: Server<S>)
        requires
            conf.valid(),
        ensures
            s.engine_spec().conf == conf,
            s.router_spec().routes().len() == 0,
            s.router_spec().layers().len() == 0,
            !s.router_spec().has_fallback(),
            !s.router_spec().state_applied(),
    {
        match Self::new(conf) {
            Ok(s) => s,
            Err(_) => vstd::pervasive::unreached(),
        }
    }

    /// Replaces the routes.
    pub fn with_router(self, router: Router<S>) -> (r: Self)
        ensures
            r.engine_spec() == self.engine_spec(),
            r.router_spec() == router,
            builds(self, Build::WithRouter(router), r),
    {
        Server { router, ..self }
    }

    /// Adds a group of routes (the native routers refuse colliding routes).
    pub fn add_routes(self, routes: Router<S>) -> (r: Self)
        requires
            self.router_spec().disjoint(&routes),
            !(self.router_spec().has_fallback() && routes.has_fallback()),
        ensures
            r.engine_spec() == self.engine_spec(),
            r.router_spec().routes() == self.router_spec().routes() + routes.routes(),
            r.router_spec().layers() == self.router_spec().layers() + routes.layers(),
            r.router_spec().scopes() == merged_scopes(
                self.router_spec().scopes(),
                self.router_spec().routes().len(),
                routes.scopes(),
                routes.has_fallback(),
            ),
            forall|k: int, i: int|
                0 <= k < self.router_spec().scopes().len() ==> (r.router_spec().wraps_route(k, i)
                    <==> self.router_spec().wraps_route(k, i)),
            r.router_spec().has_fallback() == (self.router_spec().has_fallback()
                || routes.has_fallback()),
            r.router_spec().state_applied() == self.router_spec().state_applied(),
            builds(self, Build::AddRoutes(routes), r),
    {
        let Server { engine, router } = self;
        Server { engine, router: router.merge(routes) }
    }

    /// Adds a single route group (same as `add_routes`).
    pub fn add_route(self, route: Router<S>) -> (r: Self)
        requires
            self.router_spec().disjoint(&route),
            !(self.router_spec().has_fallback() && route.has_fallback()),
        ensures
            r.engine_spec() == self.engine_spec(),
            r.router_spec().routes() == self.router_spec().routes() + route.routes(),
            r.router_spec().layers() == self.router_spec().layers() + route.layers(),
            r.router_spec().scopes() == merged_scopes(
                self.router_spec().scopes(),
                self.router_spec().routes().len(),
                route.scopes(),
                route.has_fallback(),
            ),
            forall|k: int, i: int|
                0 <= k < self.router_spec().scopes().len() ==> (r.router_spec().wraps_route(k, i)
                    <==> self.router_spec().wraps_route(k, i)),
            r.router_spec().has_fallback() == (self.router_spec().has_fallback()
                || route.has_fallback()),
            r.router_spec().state_applied() == self.router_spec().state_applied(),
            builds(self, Build::AddRoute(route), r),
    {
        self.add_routes(route)
    }

    /// Wraps the routes registered so far in `l`: not the fallback, and not the
    /// routes added later (axum `route_layer`).
    pub fn use_layer(self, l: Layer) -> (r: Self)
        ensures
            builds(self, Build::UseLayer(l), r),
            r.engine_spec() == self.engine_spec(),
            r.router_spec().routes() == self.router_spec().routes(),
            r.router_spec().layers() == self.router_spec().layers().push(l),
            ({
                let k = self.router_spec().scopes().len() as int;
                &&& forall|i: int| r.router_spec().wraps_route(k, i) <==> 0 <= i < self.router_spec().routes().len()
                &&& !r.router_spec().wraps_fallback(k)
            }),
            r.router_spec().has_fallback() == self.router_spec().has_fallback(),
            r.router_spec().state_applied() == self.router_spec().state_applied(),
    {
        proof {
            self.router_spec().lemma_routes_fit();
        }
        let Server { engine, router } = self;
        Server { engine, router: router.route_layer(l) }
    }

    /// Sets the 404 handler.
    pub fn with_not_found_handler(self) -> (r: Self)
        ensures
            r.engine_spec() == self.engine_spec(),
            r.router_spec().routes() == self.router_spec().routes(),
            r.router_spec().layers() == self.router_spec().layers(),
            forall|k: int| !r.router_spec().wraps_fallback(k),
            r.router_spec().has_fallback(),
            r.router_spec().state_applied() == self.router_spec().state_applied(),
            builds(self, Build::NotFound, r),
    {
        let Server { engine, router } = self;
        Server { engine, router: router.fallback() }
    }

    /// Fixes the state, giving a server that can be started.
    pub fn with_state(self, state: S) -> (r: Server<()>)
        ensures
            r.engine_spec() == self.engine_spec(),
            r.router_spec().routes() == self.router_spec().routes(),
            r.router_spec().layers() == self.router_spec().layers(),
            r.router_spec().has_fallback() == self.router_spec().has_fallback(),
            r.router_spec().state_applied(),
    {
        let Server { engine, router } = self;
        Server { engine, router: router.with_state(state) }
    }

    pub fn into_router(self) -> (r: Router<S>)
        ensures
            r == self.router_spec(),
    {
        self.router
    }

    pub fn conf(&self) -> (c: &RestConf)
        ensures
            *c == self.engine_spec().conf,
    {
        &self.engine.conf
    }

    /// The router a start serves: the built-in middlewares applied to the routes.
    pub fn prepared_router(self) -> (r: (Engine, Router<S>))
        ensures
            r.0 == self.engine_spec(),
            r.1.routes() == self.router_spec().routes(),
            r.1.layers() == self.router_spec().layers() + crate::rest::engine::default_layers(
                self.engine_spec().conf,
            ),
    {
        let Server { engine, router } = self;
        let router = engine.apply_defaults(router);
        (engine, router)
    }
}

/// A builder call on a server, with its argument.
pub ghost enum Build<S> {
    WithRouter(Router<S>),
    AddRoutes(Router<S>),
    AddRoute(Router<S>),
    UseLayer(Layer),
    NotFound,
}

/// `t`'s router is `s`'s with the routes of `x` added.
pub open spec fn merged_into<S>(s: Server<S>, x: Router<S>, t: Server<S>) -> bool {
    &&& t.router_spec().routes() == s.router_spec().routes() + x.routes()
    &&& t.router_spec().layers() == s.router_spec().layers() + x.layers()
    &&& t.router_spec().scopes() == merged_scopes(
        s.router_spec().scopes(),
        s.router_spec().routes().len(),
        x.scopes(),
        x.has_fallback(),
    )
    &&& t.router_spec().has_fallback() == (s.router_spec().has_fallback() || x.has_fallback())
    &&& t.router_spec().state_applied() == s.router_spec().state_applied()
}

/// Whether the builder call `b` is admitted on `s`: the native routers refuse
/// colliding routes and a second fallback.
pub open spec fn admits<S>(s: Server<S>, b: Build<S>) -> bool {
    match b {
        Build::AddRoutes(x) => s.router_spec().disjoint(&x) && !(s.router_spec().has_fallback()
            && x.has_fallback()),
        Build::AddRoute(x) => s.router_spec().disjoint(&x) && !(s.router_spec().has_fallback()
            && x.has_fallback()),
        _ => true,
    }
}

/// What the builder call `b` on `s` gives: the same engine, and the router it sets.
pub open spec fn builds<S>(s: Server<S>, b: Build<S>, t: Server<S>) -> bool {
    &&& t.engine_spec() == s.engine_spec()
    &&& match b {
        Build::WithRouter(x) => t.router_spec() == x,
        Build::AddRoutes(x) => merged_into(s, x, t),
        Build::AddRoute(x) => merged_into(s, x, t),
        Build::UseLayer(l) => {
            &&& t.router_spec().routes() == s.router_spec().routes()
            &&& t.router_spec().layers() == s.router_spec().layers().push(l)
            &&& t.router_spec().scopes() == s.router_spec().scopes().push(
                LayerScope { from: 0, to: s.router_spec().routes().len() as usize, fallback: false },
            )
            &&& t.router_spec().has_fallback() == s.router_spec().has_fallback()
            &&& t.router_spec().state_applied() == s.router_spec().state_applied()
        },
        Build::NotFound => {
            &&& t.router_spec().routes() == s.router_spec().routes()
            &&& t.router_spec().layers() == s.router_spec().layers()
            &&& t.router_spec().scopes() == s.router_spec().scopes().map_values(
                |c: LayerScope| LayerScope { fallback: false, ..c },
            )
            &&& t.router_spec().has_fallback()
            &&& t.router_spec().state_applied() == s.router_spec().state_applied()
        },
    }
}

/// `ts` is `s` followed by the results of the admitted builder calls `bs`, in turn.
pub open spec fn build_chain<S>(s: Server<S>, bs: Seq<Build<S>>, ts: Seq<Server<S>>) -> bool {
    &&& ts.len() == bs.len() + 1
    &&& ts[0] == s
    &&& forall|i: int|
        #![trigger bs[i]]
        0 <= i < bs.len() ==> admits(ts[i], bs[i]) && builds(ts[i], bs[i], ts[i + 1])
}

proof fn lemma_chain_keeps_engine<S>(s: Server<S>, bs: Seq<Build<S>>, ts: Seq<Server<S>>, k: int)
    requires
        build_chain(s, bs, ts),
        0 <= k < ts.len(),
    ensures
        ts[k].engine_spec() == s.engine_spec(),
    decreases k,
{
    if k > 0 {
        lemma_chain_keeps_engine(s, bs, ts, k - 1);
        assert(builds(ts[k - 1], bs[k - 1], ts[k]));
    }
}

/// No builder call changes the configuration: after any chain of builder calls,
/// `conf()` is the configuration the server was made with.
pub proof fn law_builders_keep_conf<S>(s: Server<S>, bs: Seq<Build<S>>, ts: Seq<Server<S>>)
    requires
        build_chain(s, bs, ts),
    ensures
        forall|k: int| 0 <= k < ts.len() ==> (#[trigger] ts[k]).engine_spec().conf == s.engine_spec().conf,
{
    assert forall|k: int| 0 <= k < ts.len() implies (#[trigger] ts[k]).engine_spec().conf
        == s.engine_spec().conf by {
        lemma_chain_keeps_engine(s, bs, ts, k);
    }
}

proof fn lemma_layer_kept<S>(s: Server<S>, bs: Seq<Build<S>>, ts: Seq<Server<S>>, p: int, q: int)
    requires
        build_chain(s, bs, ts),
        0 <= p < bs.len(),
        bs[p] is UseLayer,
        forall|q2: int| p < q2 < bs.len() ==> !(#[trigger] bs[q2] is WithRouter),
        p < q < ts.len(),
    ensures
        ts[p].router_spec().scopes().len() < ts[q].router_spec().scopes().len(),
        ts[q].router_spec().scopes()[ts[p].router_spec().scopes().len() as int] == (LayerScope {
            from: 0,
            to: ts[p].router_spec().routes().len() as usize,
            fallback: false,
        }),
    decreases q,
{
    let k = ts[p].router_spec().scopes().len() as int;
    if q == p + 1 {
        assert(builds(ts[p], bs[p], ts[p + 1]));
    } else {
        lemma_layer_kept(s, bs, ts, p, q - 1);
        let b = bs[q - 1];
        assert(builds(ts[q - 1], b, ts[q]));
        assert(!(b is WithRouter));
        let before = ts[q - 1].router_spec().scopes();
        let after = ts[q].router_spec().scopes();
        match b {
            Build::AddRoutes(x) => {
                assert(after[k] == before.map_values(
                    |c: LayerScope| LayerScope { fallback: c.fallback && !x.has_fallback(), ..c },
                )[k]);
            },
            Build::AddRoute(x) => {
                assert(after[k] == before.map_values(
                    |c: LayerScope| LayerScope { fallback: c.fallback && !x.has_fallback(), ..c },
                )[k]);
            },
            _ => {},
        }
    }
}

/// A layer added with `use_layer` wraps exactly the routes registered at that
/// moment: later builder calls (other than `with_router`, which replaces the whole
/// router) neither extend it to the routes they add nor to the fallback.
pub proof fn law_use_layer_scope<S>(s: Server<S>, bs: Seq<Build<S>>, ts: Seq<Server<S>>, p: int)
    requires
        build_chain(s, bs, ts),
        0 <= p < bs.len(),
        bs[p] is UseLayer,
        forall|q: int| p < q < bs.len() ==> !(#[trigger] bs[q] is WithRouter),
    ensures
        ({
            let k = ts[p].router_spec().scopes().len() as int;
            let last = ts[ts.len() - 1].router_spec();
            &&& forall|i: int| last.wraps_route(k, i) <==> 0 <= i < ts[p].router_spec().routes().len()
            &&& !last.wraps_fallback(k)
        }),
{
    lemma_layer_kept(s, bs, ts, p, ts.len() - 1);
    ts[p].router_spec().lemma_routes_fit();
}

/// `add_route` is `add_routes`: admitted on the same servers, with the same result.
pub proof fn law_add_route_is_add_routes<S>(s: Server<S>, x: Router<S>, t: Server<S>)
    ensures
        admits(s, Build::AddRoute(x)) == admits(s, Build::AddRoutes(x)),
        builds(s, Build::AddRoute(x), t) == builds(s, Build::AddRoutes(x), t),
{
}

/// `must_new` is admitted exactly on the configurations `validate` accepts (on the
/// others the native constructor panics), and `new` fails on exactly those.
pub proof fn law_must_new_admits_valid(c: RestConf)
    ensures
        c.valid() <==> c.validate_spec() is Ok,
{
}

} // verus!
