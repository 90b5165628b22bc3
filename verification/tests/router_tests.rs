use http_server::config::StaticFileConfiguration;
use http_server::connection::ConnectionID;
use http_server::handlers::route::{find_route, RouteInfo, Router, RouterError};
use http_server::handlers::static_file::StaticFileHandler;
use http_server::handlers::utils::{
    build_json_body_response, build_json_response, build_status_code_response,
};
use http_server::handlers::{create_handlers, RequestHandler};
use http_server::request::{path_suffix, HttpRequest, Method, RequestID};
use http_server::response::{
    build_cached_status_code_response, build_permanent_redirect_response, CacheControl,
    ContentType, StatusCode,
};
use http_server::static_file::StaticFileRulesService;
use http_server::version::{get_verison_info, BuildInfo};

fn request(method: Method, path: &str) -> HttpRequest {
    HttpRequest::new(ConnectionID(1), RequestID(1), method, path.to_owned())
}

fn route(method: Method, path: &str, handler: u32) -> RouteInfo<u32> {
    RouteInfo { method, path_suffix: path.to_owned(), handler }
}

fn all_methods() -> Vec<Method> {
    vec![
        Method::Get,
        Method::Head,
        Method::Post,
        Method::Put,
        Method::Delete,
        Method::Connect,
        Method::Options,
        Method::Trace,
        Method::Patch,
        Method::Extension("PURGE".to_owned()),
    ]
}

#[test]
fn dispatch_returns_the_handler_of_the_exact_route_and_the_default_otherwise() {
    let router = Router::new(vec![route(Method::Get, "connection_info", 7)], 0).unwrap();
    for method in all_methods() {
        for path in ["connection_info", "connection_info/", "/connection_info", "", "index.html"] {
            let expected = if method.same_as(&Method::Get) && path == "connection_info" {
                7
            } else {
                0
            };
            assert_eq!(*router.dispatch(&request(method.clone(), path)), expected);
        }
    }
}

#[test]
fn duplicate_route_fails_the_build() {
    let routes = vec![
        route(Method::Get, "a", 1),
        route(Method::Post, "a", 2),
        route(Method::Get, "b", 3),
        route(Method::Post, "a", 4),
        route(Method::Get, "a", 5),
    ];
    match Router::new(routes, 0) {
        Err(RouterError::DuplicateRoute { method, path_suffix }) => {
            assert!(method.same_as(&Method::Post));
            assert_eq!(path_suffix, "a");
        }
        Ok(_) => panic!("a duplicate route was accepted"),
    }
}

#[test]
fn same_path_with_different_methods_is_no_duplicate() {
    let router = Router::new(
        vec![
            route(Method::Get, "a", 1),
            route(Method::Post, "a", 2),
            route(Method::Extension("PURGE".to_owned()), "a", 3),
            route(Method::Extension("LINK".to_owned()), "a", 4),
            route(Method::Get, "b", 5),
        ],
        0,
    )
    .unwrap();
    assert_eq!(*router.dispatch(&request(Method::Get, "a")), 1);
    assert_eq!(*router.dispatch(&request(Method::Post, "a")), 2);
    assert_eq!(*router.dispatch(&request(Method::Extension("PURGE".to_owned()), "a")), 3);
    assert_eq!(*router.dispatch(&request(Method::Extension("LINK".to_owned()), "a")), 4);
    assert_eq!(*router.dispatch(&request(Method::Extension("UNLINK".to_owned()), "a")), 0);
    assert_eq!(*router.dispatch(&request(Method::Get, "b")), 5);
    assert_eq!(*router.dispatch(&request(Method::Post, "b")), 0);
}

#[test]
fn register_refuses_a_route_that_is_already_present() {
    let mut router = Router::with_default(0u32);
    assert!(router.register(Method::Get, "a".to_owned(), 1).is_ok());
    assert!(router.register(Method::Put, "a".to_owned(), 2).is_ok());
    match router.register(Method::Get, "a".to_owned(), 3) {
        Err(RouterError::DuplicateRoute { method, path_suffix }) => {
            assert!(method.same_as(&Method::Get));
            assert_eq!(path_suffix, "a");
        }
        Ok(()) => panic!("a duplicate route was accepted"),
    }
    assert_eq!(*router.dispatch(&request(Method::Get, "a")), 1);
    assert_eq!(*router.dispatch(&request(Method::Put, "a")), 2);
    assert_eq!(*router.dispatch(&request(Method::Get, "c")), 0);
}

#[test]
fn find_route_gives_the_position() {
    let routes = vec![route(Method::Get, "a", 1), route(Method::Get, "b", 2)];
    assert_eq!(find_route(&routes, &Method::Get, &"b".to_owned()), Some(1));
    assert_eq!(find_route(&routes, &Method::Head, &"b".to_owned()), None);
    assert!(routes[0].is_for(&Method::Get, &"a".to_owned()));
    assert!(!routes[0].is_for(&Method::Get, &"b".to_owned()));
}

#[test]
fn methods_are_compared_by_name() {
    let methods = all_methods();
    for (i, a) in methods.iter().enumerate() {
        for (j, b) in methods.iter().enumerate() {
            assert_eq!(a.same_as(b), i == j);
        }
        assert!(a.clone().same_as(a));
    }
    assert!(!Method::Extension("A".to_owned()).same_as(&Method::Extension("B".to_owned())));
}

#[test]
fn server_router_has_the_introspection_route_and_the_static_file_default() {
    let configuration = StaticFileConfiguration {
        path: "/var/www".to_owned(),
        precompressed_gz: false,
        precompressed_br: false,
        client_error_page_path: "/error.html".to_owned(),
        cache_rules: Vec::new(),
    };
    let default_route = StaticFileHandler::new(&configuration, StaticFileRulesService::empty());
    let router = create_handlers(default_route).unwrap();
    assert!(matches!(
        router.dispatch(&request(Method::Get, "connection_info")),
        RequestHandler::ConnectionInfo(_)
    ));
    assert!(matches!(
        router.dispatch(&request(Method::Post, "connection_info")),
        RequestHandler::StaticFile(_)
    ));
    assert!(matches!(
        router.dispatch(&request(Method::Get, "missing/file.html")),
        RequestHandler::StaticFile(_)
    ));
}

#[test]
fn json_responses() {
    let response = build_json_body_response("{\"connections\":[]}".to_owned());
    assert_eq!(response.status, StatusCode::Success);
    assert_eq!(response.status.as_u16(), 200);
    assert_eq!(response.content_type, Some(ContentType::Json));
    assert_eq!(response.cache_control, None);
    assert_eq!(response.location, None);
    assert_eq!(response.body, "{\"connections\":[]}");

    let response = build_json_response(Ok("[1]".to_owned()));
    assert_eq!(response.status, StatusCode::Success);
    assert_eq!(response.content_type, Some(ContentType::Json));
    assert_eq!(response.body, "[1]");

    let response = build_json_response(Err("key must be a string".to_owned()));
    assert_eq!(response.status, StatusCode::InternalServerError);
    assert_eq!(response.content_type, None);
    assert_eq!(response.body, "");
}

#[test]
fn status_and_redirect_responses() {
    let response = build_status_code_response(StatusCode::BadRequest);
    assert_eq!(response.status, StatusCode::BadRequest);
    assert_eq!(response.cache_control, None);
    assert_eq!(response.body, "");

    let response =
        build_cached_status_code_response(StatusCode::BadRequest, CacheControl::NoCache);
    assert_eq!(response.status, StatusCode::BadRequest);
    assert_eq!(response.cache_control, Some(CacheControl::NoCache));

    assert_eq!(CacheControl::NoCache.as_str(), "no-cache");
    assert_eq!(ContentType::Json.as_str(), "application/json");

    let response = build_permanent_redirect_response("/error.html", CacheControl::NoCache);
    assert_eq!(response.status, StatusCode::PermanentRedirect);
    assert_eq!(response.location.as_deref(), Some("/error.html"));
    assert_eq!(response.cache_control, Some(CacheControl::NoCache));
    assert_eq!(response.body, "");
}

#[test]
fn version_info_lists_the_build_values_by_key() {
    let build = BuildInfo {
        cargo_pkg_version: "1.2.3".to_owned(),
        build_timestamp: "2024-02-29T12:34:56Z".to_owned(),
        cargo_target_triple: "x86_64-unknown-linux-gnu".to_owned(),
        rustc_semver: "1.76.0".to_owned(),
        sysinfo_cpu_core_count: "8".to_owned(),
        sysinfo_name: "Linux".to_owned(),
    };
    let entries = get_verison_info(&build);
    let expected = vec![
        ("CARGO_PKG_VERSION", "1.2.3"),
        ("VERGEN_BUILD_TIMESTAMP", "2024-02-29T12:34:56Z"),
        ("VERGEN_CARGO_TARGET_TRIPLE", "x86_64-unknown-linux-gnu"),
        ("VERGEN_RUSTC_SEMVER", "1.76.0"),
        ("VERGEN_SYSINFO_CPU_CORE_COUNT", "8"),
        ("VERGEN_SYSINFO_NAME", "Linux"),
    ];
    assert_eq!(entries.len(), expected.len());
    for (entry, (key, value)) in entries.iter().zip(expected) {
        assert_eq!(entry.0, key);
        assert_eq!(entry.1, value);
    }
}

#[test]
fn path_suffix_is_the_path_without_its_leading_slashes() {
    assert_eq!(path_suffix("/connection_info"), "connection_info");
    assert_eq!(path_suffix("connection_info"), "connection_info");
    assert_eq!(path_suffix("///a/b/"), "a/b/");
    assert_eq!(path_suffix("/"), "");
    assert_eq!(path_suffix("//"), "");
    assert_eq!(path_suffix(""), "");
    assert_eq!(path_suffix("/\u{e9}t\u{e9}/x"), "\u{e9}t\u{e9}/x");
    assert_eq!(path_suffix("a//b"), "a//b");
}
