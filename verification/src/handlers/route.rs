//! The router: an exact-match table from method and path to handler, with
//! one handler for everything else.
use crate::request::{HttpRequest, Method, MethodView};
use vstd::prelude::*;

verus! {

/// A route: requests with this method and path go to this handler.
#[derive(Debug)]
pub struct RouteInfo<H> {
    pub method: Method,
    pub path_suffix: String,
    pub handler: H,
}

impl<H> RouteInfo<H> {
    /// Whether the route is for the method `method` and the path `path`.
    pub open spec fn serves(&self, method: MethodView, path: Seq<char>) -> bool {
        self.method@ == method && self.path_suffix@ == path
    }

    /// Tells whether the route is for `method` and `path_suffix`.
    pub fn is_for(&self, method: &Method, path_suffix: &String) -> (b: bool)
        ensures
            b == self.serves(method@, path_suffix@),
    {
        self.method.same_as(method) && self.path_suffix == *path_suffix
    }
}

/// Why a router could not be built or extended.
#[derive(Debug)]
pub enum RouterError {
    /// There already is a route for this method and path.
    DuplicateRoute { method: Method, path_suffix: String },
}

/// The position of the first route at or after `start` that is for `method`
/// and `path`.
pub open spec fn route_index_from<H>(
    routes: Seq<RouteInfo<H>>,
    method: MethodView,
    path: Seq<char>,
    start: int,
) -> Option<int>
    decreases routes.len() - start,
{
    if start < 0 || start >= routes.len() {
        None
    } else if routes[start].serves(method, path) {
        Some(start)
    } else {
        route_index_from(routes, method, path, start + 1)
    }
}

/// The position of the route for `method` and `path`, if there is one.
pub open spec fn route_index<H>(routes: Seq<RouteInfo<H>>, method: MethodView, path: Seq<char>)
    -> Option<int> {
    route_index_from(routes, method, path, 0)
}

/// Whether no two of `routes` are for the same method and path.
pub open spec fn routes_are_distinct<H>(routes: Seq<RouteInfo<H>>) -> bool {
    forall|i: int, j: int|
        0 <= i < j < routes.len() ==> !(#[trigger] routes[i]).serves(
            (#[trigger] routes[j]).method@,
            routes[j].path_suffix@,
        )
}

/// The position of the first route that repeats the method and path of a
/// route before it.
pub open spec fn first_duplicate<H>(routes: Seq<RouteInfo<H>>, j: int) -> bool {
    &&& 0 <= j < routes.len()
    &&& route_index(routes.take(j), routes[j].method@, routes[j].path_suffix@) is Some
    &&& routes_are_distinct(routes.take(j))
}

/// The handler that a request with `method` and `path` is dispatched to:
/// the handler of the route for them, and the default handler if there is
/// no such route.
pub open spec fn dispatched<H>(
    routes: Seq<RouteInfo<H>>,
    default_route: H,
    method: MethodView,
    path: Seq<char>,
) -> H {
    match route_index(routes, method, path) {
        Some(i) => routes[i].handler,
        None => default_route,
    }
}

/// The position of the route for `method` and `path_suffix` among `routes`.
pub fn find_route<H>(routes: &Vec<RouteInfo<H>>, method: &Method, path_suffix: &String) -> (r:
    Option<usize>)
    ensures
        r is Some <==> route_index(routes@, method@, path_suffix@) is Some,
        r matches Some(i) ==> i < routes@.len() && route_index(routes@, method@, path_suffix@)
            == Some(i as int),
{
    let mut i: usize = 0;
    while i < routes.len()
        invariant
            i <= routes@.len(),
            route_index(routes@, method@, path_suffix@) == route_index_from(
                routes@,
                method@,
                path_suffix@,
                i as int,
            ),
        decreases routes@.len() - i,
    {
        if routes[i].is_for(method, path_suffix) {
            return Some(i);
        }
        i += 1;
    }
    None
}

/// Routes requests to handlers by exact match of method and path.
#[derive(Debug)]
pub struct Router<H> {
    routes: Vec<RouteInfo<H>>,
    default_route: H,
}

impl<H> Router<H> {
    /// The registered routes, in the order of their registration.
    pub closed spec fn routes(&self) -> Seq<RouteInfo<H>> {
        self.routes@
    }

    /// The handler for requests that no route is for.
    pub closed spec fn default_route(&self) -> H {
        self.default_route
    }

    /// No two routes are for the same method and path.
    #[verifier::type_invariant]
    pub closed spec fn wf(self) -> bool {
        routes_are_distinct(self.routes@)
    }

    /// A router with the default handler alone.
    pub fn with_default(default_route: H) -> (router: Self)
        ensures
            router.routes() == Seq::<RouteInfo<H>>::empty(),
            router.default_route() == default_route,
    {
        Self { routes: Vec::new(), default_route }
    }

    /// Builds a router from `routes` and the default handler. Two routes
    /// for the same method and path are refused: the error names the
    /// method and path of the first route that repeats an earlier one, and
    /// no router is built.
    pub fn new(routes: Vec<RouteInfo<H>>, default_route: H) -> (r: Result<Self, RouterError>)
        ensures
            r is Ok <==> routes_are_distinct(routes@),
            r matches Ok(router) ==> router.routes() == routes@ && router.default_route()
                == default_route,
            r matches Err(RouterError::DuplicateRoute { method, path_suffix }) ==> exists|j: int|
                first_duplicate(routes@, j) && method@ == (#[trigger] routes@[j]).method@
                    && path_suffix@ == routes@[j].path_suffix@,
    {
        let mut j: usize = 0;
        while j < routes.len()
            invariant
                j <= routes@.len(),
                routes_are_distinct(routes@.take(j as int)),
            decreases routes@.len() - j,
        {
            let mut i: usize = 0;
            while i < j
                invariant
                    i <= j < routes@.len(),
                    routes_are_distinct(routes@.take(j as int)),
                    route_index(
                        routes@.take(j as int),
                        routes@[j as int].method@,
                        routes@[j as int].path_suffix@,
                    ) == route_index_from(
                        routes@.take(j as int),
                        routes@[j as int].method@,
                        routes@[j as int].path_suffix@,
                        i as int,
                    ),
                decreases j - i,
            {
                if routes[i].is_for(&routes[j].method, &routes[j].path_suffix) {
                    proof {
                        assert(routes@.take(j as int)[i as int] == routes@[i as int]);
                        assert(first_duplicate(routes@, j as int));
                        assert(!routes_are_distinct(routes@));
                    }
                    return Err(
                        RouterError::DuplicateRoute {
                            method: routes[j].method.clone(),
                            path_suffix: routes[j].path_suffix.clone(),
                        },
                    );
                }
                proof {
                    assert(routes@.take(j as int)[i as int] == routes@[i as int]);
                }
                i += 1;
            }
            proof {
                lemma_route_index_from(
                    routes@.take(j as int),
                    routes@[j as int].method@,
                    routes@[j as int].path_suffix@,
                    0,
                );
                let longer = routes@.take(j + 1);
                assert forall|a: int, b: int| 0 <= a < b < longer.len() implies !(
                #[trigger] longer[a]).serves(
                    (#[trigger] longer[b]).method@,
                    longer[b].path_suffix@,
                ) by {
                    assert(longer[a] == routes@.take(j as int)[a]);
                    if b < j {
                        assert(longer[b] == routes@.take(j as int)[b]);
                    }
                }
            }
            j += 1;
        }
        proof {
            assert(routes@.take(j as int) =~= routes@);
        }
        Ok(Self { routes, default_route })
    }

    /// Adds a route for `method` and `path_suffix`. Where there already is
    /// a route for them the router stays as it was and the error names
    /// them.
    pub fn register(&mut self, method: Method, path_suffix: String, handler: H) -> (r: Result<
        (),
        RouterError,
    >)
        ensures
            final(self).default_route() == old(self).default_route(),
            r is Ok <==> route_index(old(self).routes(), method@, path_suffix@) is None,
            r is Ok ==> final(self).routes() == old(self).routes().push(
                RouteInfo { method, path_suffix, handler },
            ),
            r is Err ==> final(self).routes() == old(self).routes() && r == Err::<(), RouterError>(
                RouterError::DuplicateRoute { method, path_suffix },
            ),
    {
        proof {
            use_type_invariant(&*self);
        }
        match find_route(&self.routes, &method, &path_suffix) {
            Some(_) => Err(RouterError::DuplicateRoute { method, path_suffix }),
            None => {
                let ghost before = self.routes@;
                proof {
                    lemma_route_index_from(before, method@, path_suffix@, 0);
                }
                // The routes are taken out while the new one is added, so
                // that the router is well formed whenever it can be seen.
                let mut routes: Vec<RouteInfo<H>> = Vec::new();
                std::mem::swap(&mut routes, &mut self.routes);
                routes.push(RouteInfo { method, path_suffix, handler });
                proof {
                    assert forall|a: int, b: int| 0 <= a < b < routes@.len() implies !(
                    #[trigger] routes@[a]).serves(
                        (#[trigger] routes@[b]).method@,
                        routes@[b].path_suffix@,
                    ) by {
                        assert(routes@[a] == before[a]);
                        if b < before.len() {
                            assert(routes@[b] == before[b]);
                        }
                    }
                }
                std::mem::swap(&mut routes, &mut self.routes);
                Ok(())
            },
        }
    }

    /// The handler for `request`: that of the route for the request's
    /// method and path, and the default handler if there is no such route.
    pub fn dispatch(&self, request: &HttpRequest) -> (handler: &H)
        ensures
            *handler == dispatched(
                self.routes(),
                self.default_route(),
                request.method@,
                request.path_suffix@,
            ),
    {
        match find_route(&self.routes, &request.method, &request.path_suffix) {
            Some(i) => &self.routes[i].handler,
            None => &self.default_route,
        }
    }
}

proof fn lemma_route_index_from<H>(
    routes: Seq<RouteInfo<H>>,
    method: MethodView,
    path: Seq<char>,
    start: int,
)
    requires
        0 <= start,
    ensures
        match route_index_from(routes, method, path, start) {
            Some(i) => {
                &&& start <= i < routes.len()
                &&& routes[i].serves(method, path)
                &&& forall|j: int| start <= j < i ==> !(#[trigger] routes[j]).serves(method, path)
            },
            None => forall|j: int|
                start <= j < routes.len() ==> !(#[trigger] routes[j]).serves(method, path),
        },
    decreases routes.len() - start,
{
    if start < routes.len() && !routes[start].serves(method, path) {
        lemma_route_index_from(routes, method, path, start + 1);
    }
}

/// At most one route matches. Among distinct routes, a route that is for
/// a method and path is the one that requests with them are dispatched to;
/// where no route is for them, they go to the default handler.
pub proof fn lemma_at_most_one_route_matches<H>(
    routes: Seq<RouteInfo<H>>,
    default_route: H,
    method: MethodView,
    path: Seq<char>,
)
    requires
        routes_are_distinct(routes),
    ensures
        forall|i: int|
            0 <= i < routes.len() && (#[trigger] routes[i]).serves(method, path) ==> route_index(
                routes,
                method,
                path,
            ) == Some(i) && dispatched(routes, default_route, method, path) == routes[i].handler,
        (forall|i: int| 0 <= i < routes.len() ==> !(#[trigger] routes[i]).serves(method, path))
            ==> dispatched(routes, default_route, method, path) == default_route,
{
    lemma_route_index_from(routes, method, path, 0);
    assert forall|i: int|
        0 <= i < routes.len() && (#[trigger] routes[i]).serves(method, path) implies route_index(
        routes,
        method,
        path,
    ) == Some(i) by {
        let found = route_index(routes, method, path)->0;
        if found < i {
            assert(routes[found].serves(routes[i].method@, routes[i].path_suffix@));
        }
    }
}

/// A router with a single route sends exactly the requests with that
/// route's method and path to the route's handler, and every other
/// combination of method and path to the default handler.
pub proof fn lemma_single_route<H>(
    route: RouteInfo<H>,
    default_route: H,
    method: MethodView,
    path: Seq<char>,
)
    ensures
        dispatched(seq![route], default_route, method, path) == if method == route.method@ && path
            == route.path_suffix@ {
            route.handler
        } else {
            default_route
        },
{
    let routes = seq![route];
    assert(routes[0] == route);
    lemma_route_index_from(routes, method, path, 0);
}

} // verus!
