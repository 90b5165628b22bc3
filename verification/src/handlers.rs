//! The request handlers and the router that chooses among them.
pub mod connection;
pub mod route;
pub mod static_file;
pub mod utils;

use crate::handlers::connection::{connection_info_path, ConnectionInfoHandler};
use crate::handlers::route::{dispatched, lemma_single_route, RouteInfo, Router, RouterError};
use crate::handlers::static_file::StaticFileHandler;
use crate::request::MethodView;
use vstd::prelude::*;

verus! {

/// The handlers that a request can be routed to.
#[derive(Debug)]
pub enum RequestHandler {
    /// The introspection endpoint.
    ConnectionInfo(ConnectionInfoHandler),
    /// The static file handler.
    StaticFile(StaticFileHandler),
}

/// Builds the router of the server: the introspection endpoint on its
/// route, and `default_route` for every other request.
pub fn create_handlers(default_route: StaticFileHandler) -> (r: Result<
    Router<RequestHandler>,
    RouterError,
>)
    ensures
        r matches Ok(router) && router.default_route() == RequestHandler::StaticFile(default_route)
            && router.routes().len() == 1 && router.routes()[0].method@ == MethodView::Get
            && router.routes()[0].path_suffix@ == connection_info_path()
            && router.routes()[0].handler is ConnectionInfo,
{
    let mut routes: Vec<RouteInfo<RequestHandler>> = Vec::new();
    let mut connection_routes = connection::create_routes();
    match connection_routes.pop() {
        Some(route) => {
            routes.push(
                RouteInfo {
                    method: route.method,
                    path_suffix: route.path_suffix,
                    handler: RequestHandler::ConnectionInfo(route.handler),
                },
            );
        },
        None => {},
    }
    Router::new(routes, RequestHandler::StaticFile(default_route))
}

/// The server's router sends `GET connection_info` to the introspection
/// endpoint and every other combination of method and path to the static
/// file handler.
pub proof fn lemma_server_routes(router: Router<RequestHandler>, method: MethodView, path: Seq<char>)
    requires
        router.routes().len() == 1,
        router.routes()[0].method@ == MethodView::Get,
        router.routes()[0].path_suffix@ == connection_info_path(),
    ensures
        dispatched(router.routes(), router.default_route(), method, path) == if method
            == MethodView::Get && path == connection_info_path() {
            router.routes()[0].handler
        } else {
            router.default_route()
        },
{
    assert(router.routes() =~= seq![router.routes()[0]]);
    lemma_single_route(router.routes()[0], router.default_route(), method, path);
}

} // verus!
