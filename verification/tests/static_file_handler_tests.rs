use http_server::config::{StaticFileCacheRule, StaticFileCacheRuleType, StaticFileConfiguration};
use http_server::handlers::static_file::{
    create_default_route, duration_header_seconds, has_dot_segment, ResolveOutcome,
    StaticFileHandler, StaticFileResponse,
};
use http_server::response::{CacheControl, HttpResponse, StatusCode};
use http_server::static_file::{ResolvedFile, StaticFileRulesService};
use http_server::time::{Duration, Timestamp};

fn configuration(cache_rules: Vec<StaticFileCacheRule>) -> StaticFileConfiguration {
    StaticFileConfiguration {
        path: "/var/www".to_owned(),
        precompressed_gz: false,
        precompressed_br: false,
        client_error_page_path: "/errors/client.html".to_owned(),
        cache_rules,
    }
}

fn handler_with(cache_rules: Vec<StaticFileCacheRule>) -> StaticFileHandler {
    let configuration = configuration(cache_rules);
    let rules = StaticFileRulesService::new(&configuration.cache_rules).unwrap();
    StaticFileHandler::new(&configuration, rules)
}

fn found(path: &str, modified: Option<i64>) -> ResolveOutcome {
    ResolveOutcome::Found(ResolvedFile {
        path: Some(path.to_owned()),
        modified: modified.map(Timestamp::from_unix_secs),
    })
}

fn assert_error_page_redirect(response: &HttpResponse) {
    assert_eq!(response.status, StatusCode::PermanentRedirect);
    assert_eq!(response.status.as_u16(), 308);
    assert_eq!(response.location.as_deref(), Some("/errors/client.html"));
    assert_eq!(response.cache_control, Some(CacheControl::NoCache));
    assert_eq!(response.content_type, None);
    assert_eq!(response.body, "");
}

fn assert_bare_status(response: &HttpResponse, status: StatusCode) {
    assert_eq!(response.status, status);
    assert_eq!(response.location, None);
    assert_eq!(response.cache_control, Some(CacheControl::NoCache));
    assert_eq!(response.content_type, None);
    assert_eq!(response.body, "");
}

fn responded(decision: StaticFileResponse) -> HttpResponse {
    match decision {
        StaticFileResponse::Respond(response) => response,
        StaticFileResponse::ServeResolved { .. } => panic!("the request was served"),
    }
}

#[test]
fn dot_segments_are_recognised() {
    assert!(has_dot_segment(".env"));
    assert!(has_dot_segment("a/.git/config"));
    assert!(has_dot_segment("a/b/.hidden"));
    assert!(has_dot_segment("."));
    assert!(has_dot_segment("a/."));
    assert!(has_dot_segment("/.well-known/x"));
    assert!(!has_dot_segment(""));
    assert!(!has_dot_segment("index.html"));
    assert!(!has_dot_segment("a/b.c/d.e"));
    assert!(!has_dot_segment("a/b/"));
    assert!(!has_dot_segment("a./b"));
}

#[test]
fn dot_paths_redirect_to_the_error_page() {
    let handler = handler_with(vec![StaticFileCacheRule {
        path_regex: ".*".to_owned(),
        rule_type: StaticFileCacheRuleType::FixedTime,
        duration: Duration::from_secs(60),
    }]);
    let now = Timestamp::from_unix_secs(0);
    for path in [".env", "a/.git/config"] {
        let response = responded(handler.handle(&Ok(found(path, Some(0))), now));
        assert_error_page_redirect(&response);
        let blocked = handler.block_dot_paths(&found(path, Some(0))).unwrap();
        assert_error_page_redirect(&blocked);
    }
    let directory = ResolveOutcome::IsDirectory { redirect_to: "/docs/.private/".to_owned() };
    assert_error_page_redirect(&responded(handler.handle(&Ok(directory), now)));
}

#[test]
fn other_paths_are_not_blocked() {
    let handler = handler_with(Vec::new());
    assert!(handler.block_dot_paths(&found("index.html", None)).is_none());
    assert!(handler
        .block_dot_paths(&ResolveOutcome::IsDirectory { redirect_to: "/docs/".to_owned() })
        .is_none());
    assert!(handler.block_dot_paths(&ResolveOutcome::NotFound).is_none());
    assert!(handler
        .block_dot_paths(&ResolveOutcome::Found(ResolvedFile { path: None, modified: None }))
        .is_none());
}

#[test]
fn missing_file_redirects_to_the_error_page_without_caching() {
    let handler = handler_with(Vec::new());
    let now = Timestamp::from_unix_secs(1_700_000_000);
    let response = responded(handler.handle(&Ok(ResolveOutcome::NotFound), now));
    assert_error_page_redirect(&response);
    let response = responded(handler.handle(&Ok(ResolveOutcome::PermissionDenied), now));
    assert_error_page_redirect(&response);
    assert_error_page_redirect(&handler.build_client_error_page_response());
}

#[test]
fn unhandled_method_is_a_bad_request() {
    let handler = handler_with(Vec::new());
    let response = responded(
        handler.handle(&Ok(ResolveOutcome::MethodNotMatched), Timestamp::from_unix_secs(0)),
    );
    assert_bare_status(&response, StatusCode::BadRequest);
    assert_eq!(response.status.as_u16(), 400);
}

#[test]
fn resolver_failure_is_an_internal_server_error() {
    let handler = handler_with(Vec::new());
    let response =
        responded(handler.handle(&Err("disk on fire".to_owned()), Timestamp::from_unix_secs(0)));
    assert_bare_status(&response, StatusCode::InternalServerError);
    assert_eq!(response.status.as_u16(), 500);
    assert_bare_status(&handler.build_failure_response(), StatusCode::InternalServerError);
}

#[test]
fn resolve_errors_are_told_from_servable_outcomes() {
    let handler = handler_with(Vec::new());
    assert_bare_status(
        &handler.handle_resolve_errors(&ResolveOutcome::MethodNotMatched).unwrap(),
        StatusCode::BadRequest,
    );
    assert_error_page_redirect(&handler.handle_resolve_errors(&ResolveOutcome::NotFound).unwrap());
    assert_error_page_redirect(
        &handler.handle_resolve_errors(&ResolveOutcome::PermissionDenied).unwrap(),
    );
    assert!(handler.handle_resolve_errors(&found(".env", None)).is_none());
    assert!(handler
        .handle_resolve_errors(&ResolveOutcome::IsDirectory { redirect_to: "/a/".to_owned() })
        .is_none());
}

#[test]
fn found_file_is_served_with_the_freshness_of_its_rule() {
    let handler = handler_with(vec![
        StaticFileCacheRule {
            path_regex: r"^assets/".to_owned(),
            rule_type: StaticFileCacheRuleType::FixedTime,
            duration: Duration::from_secs(3_600),
        },
        StaticFileCacheRule {
            path_regex: r"\.png$".to_owned(),
            rule_type: StaticFileCacheRuleType::ModTimePlusDelta,
            duration: Duration::new(900, 999_999_999).unwrap(),
        },
    ]);
    let now = Timestamp::from_unix_secs(10_000);
    assert!(matches!(
        handler.handle(&Ok(found("assets/app.js", None)), now),
        StaticFileResponse::ServeResolved { cache_headers: Some(3_600) }
    ));
    assert!(matches!(
        handler.handle(&Ok(found("stats/day.png", Some(9_500))), now),
        StaticFileResponse::ServeResolved { cache_headers: Some(400) }
    ));
    assert!(matches!(
        handler.handle(&Ok(found("stats/day.png", None)), now),
        StaticFileResponse::ServeResolved { cache_headers: Some(0) }
    ));
    assert!(matches!(
        handler.handle(&Ok(found("index.html", Some(9_500))), now),
        StaticFileResponse::ServeResolved { cache_headers: None }
    ));
    assert_eq!(handler.build_cache_headers(&found("assets/app.js", None), now), Some(3_600));
    assert_eq!(handler.build_cache_headers(&found("index.html", None), now), None);
    assert_eq!(handler.build_cache_headers(&ResolveOutcome::NotFound, now), None);
}

#[test]
fn directory_is_served_without_caching_directive() {
    let handler = handler_with(vec![StaticFileCacheRule {
        path_regex: ".*".to_owned(),
        rule_type: StaticFileCacheRuleType::FixedTime,
        duration: Duration::from_secs(60),
    }]);
    assert!(matches!(
        handler.handle(
            &Ok(ResolveOutcome::IsDirectory { redirect_to: "/docs/".to_owned() }),
            Timestamp::from_unix_secs(0)
        ),
        StaticFileResponse::ServeResolved { cache_headers: None }
    ));
}

#[test]
fn freshness_in_seconds() {
    assert_eq!(duration_header_seconds(Duration::new(59, 999_999_999).unwrap()), 59);
    assert_eq!(duration_header_seconds(Duration::from_secs(4_294_967_295)), 4_294_967_295);
    assert_eq!(duration_header_seconds(Duration::from_secs(4_294_967_296)), 0);
    assert_eq!(duration_header_seconds(Duration::zero()), 0);
}

#[test]
fn freshness_beyond_the_longest_duration_is_sent_as_zero() {
    let handler = handler_with(vec![StaticFileCacheRule {
        path_regex: "a".to_owned(),
        rule_type: StaticFileCacheRuleType::ModTimePlusDelta,
        duration: Duration::new(u64::MAX, 999_999_999).unwrap(),
    }]);
    let now = Timestamp::from_unix_secs(100);
    assert_eq!(handler.build_cache_headers(&found("a", Some(100)), now), Some(0));
    assert_eq!(handler.build_cache_headers(&found("a", Some(101)), now), Some(0));
    assert_eq!(handler.build_cache_headers(&found("a", Some(i64::MAX)), now), Some(0));
    assert!(matches!(
        handler.handle(&Ok(found("a", Some(i64::MAX))), now),
        StaticFileResponse::ServeResolved { cache_headers: Some(0) }
    ));
}

#[test]
fn default_route_is_the_static_file_handler() {
    let configuration = configuration(Vec::new());
    let handler = create_default_route(&configuration, StaticFileRulesService::empty());
    assert_error_page_redirect(&handler.build_client_error_page_response());
}
