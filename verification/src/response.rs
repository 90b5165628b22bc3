//! Responses as plain values: what the serving core decides to send, for
//! the embedding program to put on the wire.
use vstd::prelude::*;

verus! {

/// The status codes that the serving core answers with.
#[derive(Clone, Copy, Debug, PartialEq, Eq, Structural)]
pub enum StatusCode {
    Success,
    PermanentRedirect,
    BadRequest,
    InternalServerError,
}

impl StatusCode {
    /// The numeric status code.
    pub open spec fn code(self) -> u16 {
        match self {
            StatusCode::Success => 200,
            StatusCode::PermanentRedirect => 308,
            StatusCode::BadRequest => 400,
            StatusCode::InternalServerError => 500,
        }
    }

    /// The numeric status code.
    pub fn as_u16(&self) -> (n: u16)
        ensures
            n == self.code(),
    {
        match self {
            StatusCode::Success => 200,
            StatusCode::PermanentRedirect => 308,
            StatusCode::BadRequest => 400,
            StatusCode::InternalServerError => 500,
        }
    }
}

/// The caching directives that the serving core sets itself. The freshness
/// of a served file is not among them: it travels as a number of seconds to
/// whoever streams the file.
#[derive(Clone, Copy, Debug, PartialEq, Eq, Structural)]
pub enum CacheControl {
    /// The response must not be reused without revalidation.
    NoCache,
}

impl CacheControl {
    /// The directive as the value of a `Cache-Control` header.
    pub fn as_str(&self) -> (value: &'static str)
        ensures
            value@ == "no-cache"@,
    {
        match self {
            CacheControl::NoCache => "no-cache",
        }
    }
}

/// The media types of the bodies that the serving core produces.
#[derive(Clone, Copy, Debug, PartialEq, Eq, Structural)]
pub enum ContentType {
    /// `application/json`
    Json,
}

impl ContentType {
    /// The media type as the value of a `Content-Type` header.
    pub fn as_str(&self) -> (value: &'static str)
        ensures
            value@ == "application/json"@,
    {
        match self {
            ContentType::Json => "application/json",
        }
    }
}

/// A complete response.
#[derive(Debug)]
pub struct HttpResponse {
    pub status: StatusCode,
    pub content_type: Option<ContentType>,
    pub cache_control: Option<CacheControl>,
    /// Target of a redirect.
    pub location: Option<String>,
    pub body: String,
}

/// A response with the text of its strings.
pub struct HttpResponseView {
    pub status: StatusCode,
    pub content_type: Option<ContentType>,
    pub cache_control: Option<CacheControl>,
    pub location: Option<Seq<char>>,
    pub body: Seq<char>,
}

impl View for HttpResponse {
    type V = HttpResponseView;

    open spec fn view(&self) -> HttpResponseView {
        HttpResponseView {
            status: self.status,
            content_type: self.content_type,
            cache_control: self.cache_control,
            location: match self.location {
                Some(target) => Some(target@),
                None => None,
            },
            body: self.body@,
        }
    }
}

/// A bare status with an empty body and the given caching directive.
pub open spec fn status_response(
    status: StatusCode,
    cache_control: Option<CacheControl>,
) -> HttpResponseView {
    HttpResponseView {
        status,
        content_type: None,
        cache_control,
        location: None,
        body: Seq::<char>::empty(),
    }
}

/// A permanent redirect to `location` with the given caching directive.
pub open spec fn redirect_response(
    location: Seq<char>,
    cache_control: Option<CacheControl>,
) -> HttpResponseView {
    HttpResponseView {
        status: StatusCode::PermanentRedirect,
        content_type: None,
        cache_control,
        location: Some(location),
        body: Seq::<char>::empty(),
    }
}

/// A successful response carrying `body` as JSON.
pub open spec fn json_response(body: Seq<char>) -> HttpResponseView {
    HttpResponseView {
        status: StatusCode::Success,
        content_type: Some(ContentType::Json),
        cache_control: None,
        location: None,
        body,
    }
}

/// A response with nothing but `status` and the caching directive
/// `cache_control`.
pub fn build_cached_status_code_response(status: StatusCode, cache_control: CacheControl) -> (r:
    HttpResponse)
    ensures
        r@ == status_response(status, Some(cache_control)),
{
    HttpResponse {
        status,
        content_type: None,
        cache_control: Some(cache_control),
        location: None,
        body: String::new(),
    }
}

/// A permanent redirect to `location` with the caching directive
/// `cache_control`.
pub fn build_permanent_redirect_response(location: &str, cache_control: CacheControl) -> (r:
    HttpResponse)
    ensures
        r@ == redirect_response(location@, Some(cache_control)),
{
    HttpResponse {
        status: StatusCode::PermanentRedirect,
        content_type: None,
        cache_control: Some(cache_control),
        location: Some(location.to_owned()),
        body: String::new(),
    }
}

} // verus!
