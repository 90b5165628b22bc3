//! Requests as plain values: what the router and the handlers read of a
//! request.
use crate::connection::{wrapping_successor, ConnectionID, FIRST_ID};
use vstd::prelude::*;

verus! {

/// Identifies a request in the logs for as long as the process lives.
#[derive(Clone, Copy, Debug, PartialEq, Eq, Structural)]
pub struct RequestID(pub u64);

impl RequestID {
    /// The identifier as a number.
    pub fn as_u64(&self) -> (n: u64)
        ensures
            n == self.0,
    {
        self.0
    }
}

/// Hands out request identifiers, counting up as connection identifiers
/// do. Its view is the identifier that it hands out next.
#[derive(Debug)]
pub struct RequestIDFactory {
    next_request_id: u64,
}

impl View for RequestIDFactory {
    type V = u64;

    closed spec fn view(&self) -> u64 {
        self.next_request_id
    }
}

impl RequestIDFactory {
    pub fn new() -> (factory: Self)
        ensures
            factory@ == FIRST_ID,
    {
        Self { next_request_id: FIRST_ID }
    }

    /// Hands out the next identifier.
    pub fn new_request_id(&mut self) -> (id: RequestID)
        ensures
            id == RequestID(old(self)@),
            final(self)@ == wrapping_successor(old(self)@),
    {
        let id: u64 = self.next_request_id;
        self.next_request_id = if id == u64::MAX {
            0
        } else {
            id + 1
        };
        RequestID(id)
    }
}

/// A request method.
#[derive(Debug)]
pub enum Method {
    Get,
    Head,
    Post,
    Put,
    Delete,
    Connect,
    Options,
    Trace,
    Patch,
    /// Any other method, by its name.
    Extension(String),
}

/// A request method with the text of its name.
pub enum MethodView {
    Get,
    Head,
    Post,
    Put,
    Delete,
    Connect,
    Options,
    Trace,
    Patch,
    Extension(Seq<char>),
}

impl View for Method {
    type V = MethodView;

    open spec fn view(&self) -> MethodView {
        match self {
            Method::Get => MethodView::Get,
            Method::Head => MethodView::Head,
            Method::Post => MethodView::Post,
            Method::Put => MethodView::Put,
            Method::Delete => MethodView::Delete,
            Method::Connect => MethodView::Connect,
            Method::Options => MethodView::Options,
            Method::Trace => MethodView::Trace,
            Method::Patch => MethodView::Patch,
            Method::Extension(name) => MethodView::Extension(name@),
        }
    }
}

impl Clone for Method {
    fn clone(&self) -> (copy: Method)
        ensures
            copy@ == self@,
    {
        match self {
            Method::Get => Method::Get,
            Method::Head => Method::Head,
            Method::Post => Method::Post,
            Method::Put => Method::Put,
            Method::Delete => Method::Delete,
            Method::Connect => Method::Connect,
            Method::Options => Method::Options,
            Method::Trace => Method::Trace,
            Method::Patch => Method::Patch,
            Method::Extension(name) => Method::Extension(name.clone()),
        }
    }
}

impl Method {
    /// Whether `self` and `other` are the same method.
    pub fn same_as(&self, other: &Method) -> (b: bool)
        ensures
            b == (self@ == other@),
    {
        match (self, other) {
            (Method::Get, Method::Get) => true,
            (Method::Head, Method::Head) => true,
            (Method::Post, Method::Post) => true,
            (Method::Put, Method::Put) => true,
            (Method::Delete, Method::Delete) => true,
            (Method::Connect, Method::Connect) => true,
            (Method::Options, Method::Options) => true,
            (Method::Trace, Method::Trace) => true,
            (Method::Patch, Method::Patch) => true,
            (Method::Extension(a), Method::Extension(b)) => *a == *b,
            _ => false,
        }
    }
}

/// The position of the first character of `path` at or after `start` that
/// is not a slash; the length of `path` where there is none.
pub open spec fn first_non_slash(path: Seq<char>, start: int) -> int
    decreases path.len() - start,
{
    if 0 <= start < path.len() && path[start] == '/' {
        first_non_slash(path, start + 1)
    } else {
        start
    }
}

/// The part of the request path `path` that routes are matched against:
/// the path without the slashes that it starts with.
pub open spec fn path_suffix_of(path: Seq<char>) -> Seq<char> {
    path.skip(first_non_slash(path, 0))
}

/// The part of the request path `path` that routes are matched against.
pub fn path_suffix(path: &str) -> (suffix: &str)
    ensures
        suffix@ == path_suffix_of(path@),
{
    let len: usize = path.unicode_len();
    let mut slashes: usize = 0;
    let mut leading: bool = true;
    for c in it: path.chars()
        invariant
            it.seq() == path@,
            len == path@.len(),
            slashes <= it.index(),
            leading ==> slashes == it.index() && first_non_slash(path@, 0) == first_non_slash(
                path@,
                it.index(),
            ),
            !leading ==> slashes == first_non_slash(path@, 0),
    {
        if leading && c == '/' {
            slashes += 1;
        } else {
            leading = false;
        }
    }
    path.substring_char(slashes, len)
}

/// The path suffix is what is left of the path after the slashes at its
/// start: the path is slashes followed by the suffix, and the suffix does
/// not start with a slash.
pub proof fn lemma_path_suffix(path: Seq<char>)
    ensures
        0 <= first_non_slash(path, 0) <= path.len(),
        forall|i: int| 0 <= i < first_non_slash(path, 0) ==> path[i] == '/',
        path_suffix_of(path).len() > 0 ==> path_suffix_of(path)[0] != '/',
        path == path.take(first_non_slash(path, 0)) + path_suffix_of(path),
{
    lemma_first_non_slash(path, 0);
    assert(path =~= path.take(first_non_slash(path, 0)) + path_suffix_of(path));
}

proof fn lemma_first_non_slash(path: Seq<char>, start: int)
    requires
        0 <= start <= path.len(),
    ensures
        start <= first_non_slash(path, start) <= path.len(),
        forall|i: int| start <= i < first_non_slash(path, start) ==> path[i] == '/',
        first_non_slash(path, start) < path.len() ==> path[first_non_slash(path, start)] != '/',
    decreases path.len() - start,
{
    if start < path.len() && path[start] == '/' {
        lemma_first_non_slash(path, start + 1);
    }
}

/// What the serving core reads of a request.
#[derive(Debug)]
pub struct HttpRequest {
    /// The connection that the request arrived on.
    pub connection_id: ConnectionID,
    pub request_id: RequestID,
    pub method: Method,
    /// The part of the request path that routes are matched against.
    pub path_suffix: String,
}

impl HttpRequest {
    pub fn new(
        connection_id: ConnectionID,
        request_id: RequestID,
        method: Method,
        path_suffix: String,
    ) -> (request: Self)
        ensures
            request.connection_id == connection_id,
            request.request_id == request_id,
            request.method == method,
            request.path_suffix == path_suffix,
    {
        Self { connection_id, request_id, method, path_suffix }
    }
}

} // verus!
