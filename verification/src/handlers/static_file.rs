//! The static file handler: what to answer once a request path has been
//! resolved against the document root.
use crate::config::StaticFileConfiguration;
use crate::response::{
    build_cached_status_code_response, build_permanent_redirect_response, redirect_response,
    status_response, CacheControl, HttpResponse, HttpResponseView, StatusCode,
};
use crate::static_file::{cache_header_nanos, CacheRule, ResolvedFile, StaticFileRulesService};
use crate::time::{Duration, Timestamp};
use vstd::prelude::*;

verus! {

/// What resolving a request against the document root came to.
#[derive(Debug)]
pub enum ResolveOutcome {
    /// The request method is not one that files are served for.
    MethodNotMatched,
    /// There is no such file.
    NotFound,
    /// The file may not be read.
    PermissionDenied,
    /// A directory was requested as if it were a file; the client is to be
    /// redirected to `redirect_to`.
    IsDirectory { redirect_to: String },
    /// The file was found.
    Found(ResolvedFile),
}

/// What the static file handler decides for a request.
#[derive(Debug)]
pub enum StaticFileResponse {
    /// Send this response.
    Respond(HttpResponse),
    /// Answer from what was resolved: stream the file, or redirect to the
    /// directory. `cache_headers` is the freshness of the response in
    /// seconds; without it no caching directive is sent.
    ServeResolved { cache_headers: Option<u32> },
}

/// A decision with the text of its strings.
pub enum StaticFileResponseView {
    Respond(HttpResponseView),
    ServeResolved { cache_headers: Option<u32> },
}

impl View for StaticFileResponse {
    type V = StaticFileResponseView;

    open spec fn view(&self) -> StaticFileResponseView {
        match self {
            StaticFileResponse::Respond(response) => StaticFileResponseView::Respond(response@),
            StaticFileResponse::ServeResolved { cache_headers } => {
                StaticFileResponseView::ServeResolved { cache_headers: *cache_headers }
            },
        }
    }
}

/// The view of an optional response.
pub open spec fn optional_response_view(response: Option<HttpResponse>) -> Option<
    HttpResponseView,
> {
    match response {
        Some(r) => Some(r@),
        None => None,
    }
}

/// Whether a path segment starts at position `i` of `path`: at the very
/// beginning and after every `/`.
pub open spec fn segment_starts_at(path: Seq<char>, i: int) -> bool {
    i == 0 || path[i - 1] == '/'
}

/// Whether `path` names a hidden file or leads through a hidden directory:
/// one of its segments starts with a dot.
pub open spec fn is_dot_path(path: Seq<char>) -> bool {
    exists|i: int| 0 <= i < path.len() && #[trigger] path[i] == '.' && segment_starts_at(path, i)
}

/// The path of `outcome` that is checked for hidden segments: that of a
/// found file, and the target of a directory redirect.
pub open spec fn checked_path(outcome: ResolveOutcome) -> Option<Seq<char>> {
    match outcome {
        ResolveOutcome::Found(file) => match file.path {
            Some(path) => Some(path@),
            None => None,
        },
        ResolveOutcome::IsDirectory { redirect_to } => Some(redirect_to@),
        _ => None,
    }
}

/// Whether `outcome` is refused because its path has a hidden segment.
pub open spec fn is_blocked(outcome: ResolveOutcome) -> bool {
    checked_path(outcome) matches Some(path) && is_dot_path(path)
}

/// A freshness in nanoseconds as the whole seconds that a caching directive
/// carries. A freshness too long for the directive's 32 bits is sent as
/// zero.
pub open spec fn header_seconds(nanos: nat) -> u32 {
    if nanos / 1_000_000_000 <= u32::MAX {
        (nanos / 1_000_000_000) as u32
    } else {
        0
    }
}

/// The freshness in seconds of the response to `outcome` under the policy
/// `rules`: defined for found files that a rule applies to.
pub open spec fn cache_headers(rules: Seq<CacheRule>, outcome: ResolveOutcome, now: Timestamp)
    -> Option<u32> {
    match outcome {
        ResolveOutcome::Found(file) => match cache_header_nanos(
            rules,
            file.path_text(),
            file.modified,
            now,
        ) {
            Some(nanos) => Some(header_seconds(nanos)),
            None => None,
        },
        _ => None,
    }
}

/// The answer to a request that did not resolve to something servable:
/// a bad request for a method that files are not served for, and a redirect
/// to the error page for a file that is missing or unreadable.
pub open spec fn resolve_error_response(error_page: Seq<char>, outcome: ResolveOutcome) -> Option<
    HttpResponseView,
> {
    match outcome {
        ResolveOutcome::MethodNotMatched => Some(
            status_response(StatusCode::BadRequest, Some(CacheControl::NoCache)),
        ),
        ResolveOutcome::NotFound | ResolveOutcome::PermissionDenied => Some(
            redirect_response(error_page, Some(CacheControl::NoCache)),
        ),
        _ => None,
    }
}

/// The handler's decision for a request. A failed resolution is an internal
/// server error. A method that files are not served for is a bad request.
/// Missing and unreadable files, and every path with a hidden segment,
/// redirect to the error page. None of these may be cached. Anything else
/// is served from what was resolved, with the freshness that the cache
/// policy gives it.
pub open spec fn static_file_response(
    error_page: Seq<char>,
    rules: Seq<CacheRule>,
    resolved: Result<ResolveOutcome, String>,
    now: Timestamp,
) -> StaticFileResponseView {
    match resolved {
        Err(_) => StaticFileResponseView::Respond(
            status_response(StatusCode::InternalServerError, Some(CacheControl::NoCache)),
        ),
        Ok(outcome) => match resolve_error_response(error_page, outcome) {
            Some(response) => StaticFileResponseView::Respond(response),
            None => if is_blocked(outcome) {
                StaticFileResponseView::Respond(
                    redirect_response(error_page, Some(CacheControl::NoCache)),
                )
            } else {
                StaticFileResponseView::ServeResolved {
                    cache_headers: cache_headers(rules, outcome, now),
                }
            },
        },
    }
}

/// Tells whether `path` is a dot path.
pub fn has_dot_segment(path: &str) -> (b: bool)
    ensures
        b == is_dot_path(path@),
{
    let mut at_segment_start: bool = true;
    let mut found: bool = false;
    for c in it: path.chars()
        invariant
            it.seq() == path@,
            at_segment_start == segment_starts_at(path@, it.index() as int),
            found == exists|i: int|
                0 <= i < it.index() && #[trigger] path@[i] == '.' && segment_starts_at(path@, i),
    {
        if at_segment_start && c == '.' {
            found = true;
        }
        at_segment_start = c == '/';
    }
    found
}

/// The whole seconds of `duration` for a caching directive.
pub fn duration_header_seconds(duration: Duration) -> (seconds: u32)
    ensures
        seconds == header_seconds(duration@),
{
    let secs: u64 = duration.as_secs();
    if secs <= 0xffff_ffff {
        secs as u32
    } else {
        0
    }
}

/// Serves static files according to a cache policy, and sends clients to an
/// error page for what it will not serve.
#[derive(Debug)]
pub struct StaticFileHandler {
    client_error_page_path: String,
    rules_service: StaticFileRulesService,
}

impl StaticFileHandler {
    /// Where clients are sent when a file cannot be served.
    pub closed spec fn error_page(&self) -> Seq<char> {
        self.client_error_page_path@
    }

    /// The cache policy.
    pub closed spec fn rules(&self) -> Seq<CacheRule> {
        self.rules_service@
    }

    /// A handler for the settings `configuration` with the cache policy
    /// `rules_service`.
    pub fn new(configuration: &StaticFileConfiguration, rules_service: StaticFileRulesService) -> (handler:
        Self)
        ensures
            handler.error_page() == configuration.client_error_page_path@,
            handler.rules() == rules_service@,
    {
        Self {
            client_error_page_path: configuration.client_error_page_path.clone(),
            rules_service,
        }
    }

    /// The redirect to the error page. It is never cached.
    pub fn build_client_error_page_response(&self) -> (r: HttpResponse)
        ensures
            r@ == redirect_response(self.error_page(), Some(CacheControl::NoCache)),
    {
        build_permanent_redirect_response(
            self.client_error_page_path.as_str(),
            CacheControl::NoCache,
        )
    }

    /// The response for a request that did not resolve to something
    /// servable; none for one that did.
    pub fn handle_resolve_errors(&self, resolve_result: &ResolveOutcome) -> (r: Option<
        HttpResponse,
    >)
        ensures
            optional_response_view(r) == resolve_error_response(self.error_page(), *resolve_result),
    {
        match resolve_result {
            ResolveOutcome::MethodNotMatched => Some(
                build_cached_status_code_response(StatusCode::BadRequest, CacheControl::NoCache),
            ),
            ResolveOutcome::NotFound | ResolveOutcome::PermissionDenied => Some(
                self.build_client_error_page_response(),
            ),
            _ => None,
        }
    }

    /// The redirect to the error page for a found file or a directory
    /// redirect whose path has a hidden segment; none otherwise.
    pub fn block_dot_paths(&self, resolve_result: &ResolveOutcome) -> (r: Option<HttpResponse>)
        ensures
            optional_response_view(r) == if is_blocked(*resolve_result) {
                Some(redirect_response(self.error_page(), Some(CacheControl::NoCache)))
            } else {
                None
            },
    {
        let str_path_option: Option<&str> = match resolve_result {
            ResolveOutcome::Found(resolved_file) => match &resolved_file.path {
                Some(path) => Some(path.as_str()),
                None => None,
            },
            ResolveOutcome::IsDirectory { redirect_to } => Some(redirect_to.as_str()),
            _ => None,
        };
        if let Some(str_path) = str_path_option {
            if has_dot_segment(str_path) {
                return Some(self.build_client_error_page_response());
            }
        }
        None
    }

    /// The freshness in seconds of the response to a found file, where a
    /// cache rule applies to it.
    pub fn build_cache_headers(&self, resolve_result: &ResolveOutcome, now: Timestamp) -> (r:
        Option<u32>)
        ensures
            r == cache_headers(self.rules(), *resolve_result, now),
    {
        match resolve_result {
            ResolveOutcome::Found(resolved_file) => {
                let selected = self.rules_service.matching_rule(resolved_file.path_str());
                if self.rules_service.check_selected_header_fits(selected, resolved_file, now) {
                    match self.rules_service.selected_cache_header(selected, resolved_file, now) {
                        Some(cache_duration) => Some(duration_header_seconds(cache_duration)),
                        None => None,
                    }
                } else {
                    // A freshness beyond the longest duration is beyond what
                    // the directive can carry.
                    Some(0)
                }
            },
            _ => None,
        }
    }

    /// Decides the answer to a request from the outcome of resolving it,
    /// at the time `now`.
    pub fn handle(&self, resolved: &Result<ResolveOutcome, String>, now: Timestamp) -> (r:
        StaticFileResponse)
        ensures
            r@ == static_file_response(self.error_page(), self.rules(), *resolved, now),
    {
        let resolve_result = match resolved {
            Ok(resolve_result) => resolve_result,
            Err(_) => {
                return StaticFileResponse::Respond(
                    build_cached_status_code_response(
                        StatusCode::InternalServerError,
                        CacheControl::NoCache,
                    ),
                );
            },
        };
        if let Some(response) = self.handle_resolve_errors(resolve_result) {
            return StaticFileResponse::Respond(response);
        }
        if let Some(response) = self.block_dot_paths(resolve_result) {
            return StaticFileResponse::Respond(response);
        }
        let cache_headers = self.build_cache_headers(resolve_result, now);
        StaticFileResponse::ServeResolved { cache_headers }
    }

    /// The response when the resolved file could not be turned into a
    /// response after all: an internal server error that is never cached.
    pub fn build_failure_response(&self) -> (r: HttpResponse)
        ensures
            r@ == status_response(StatusCode::InternalServerError, Some(CacheControl::NoCache)),
    {
        build_cached_status_code_response(StatusCode::InternalServerError, CacheControl::NoCache)
    }
}

/// The handler for every request that no route claims.
pub fn create_default_route(
    configuration: &StaticFileConfiguration,
    rules_service: StaticFileRulesService,
) -> (handler: StaticFileHandler)
    ensures
        handler.error_page() == configuration.client_error_page_path@,
        handler.rules() == rules_service@,
{
    StaticFileHandler::new(configuration, rules_service)
}

/// Hidden paths are never served: whatever the cache policy and the time,
/// a found file or a directory redirect whose path has a segment starting
/// with a dot is answered with the uncached redirect to the error page.
pub proof fn lemma_dot_paths_are_blocked(
    error_page: Seq<char>,
    rules: Seq<CacheRule>,
    outcome: ResolveOutcome,
    now: Timestamp,
)
    requires
        is_blocked(outcome),
    ensures
        static_file_response(error_page, rules, Ok(outcome), now)
            == StaticFileResponseView::Respond(
            redirect_response(error_page, Some(CacheControl::NoCache)),
        ),
{
}

/// A path is a dot path exactly if it starts with a dot or holds a slash
/// directly followed by a dot.
pub proof fn lemma_dot_path_by_prefix_and_infix(path: Seq<char>)
    ensures
        is_dot_path(path) <==> (path.len() > 0 && path[0] == '.') || (exists|i: int|
            0 <= i && i + 1 < path.len() && #[trigger] path[i] == '/' && path[i + 1] == '.'),
{
    if is_dot_path(path) {
        let i = choose|i: int|
            0 <= i < path.len() && #[trigger] path[i] == '.' && segment_starts_at(path, i);
        if i != 0 {
            assert(path[i - 1] == '/' && path[i - 1 + 1] == '.');
        }
    }
    if path.len() > 0 && path[0] == '.' {
        assert(path[0] == '.' && segment_starts_at(path, 0));
    }
    if exists|i: int|
        0 <= i && i + 1 < path.len() && #[trigger] path[i] == '/' && path[i + 1] == '.' {
        let i = choose|i: int|
            0 <= i && i + 1 < path.len() && #[trigger] path[i] == '/' && path[i + 1] == '.';
        assert(path[i + 1] == '.' && segment_starts_at(path, i + 1));
    }
}

} // verus!
