//! The settings that the serving core is built from. Reading them from a
//! file is the embedding program's business; these are the values it hands
//! over.
use crate::time::Duration;
use vstd::prelude::*;

verus! {

/// The HTTP protocol version that a listener speaks on its connections.
#[derive(Clone, Copy, Debug, PartialEq, Eq, Structural)]
pub enum ServerProtocol {
    Http1,
    Http2,
}

/// The kind of socket that a listener accepts connections on.
#[derive(Clone, Copy, Debug, PartialEq, Eq, Structural)]
pub enum ServerSocketType {
    Unix,
    Tcp,
}

/// How a cache rule turns its duration into the freshness of a response.
#[derive(Clone, Copy, Debug, PartialEq, Eq, Structural)]
pub enum StaticFileCacheRuleType {
    /// The duration itself, whatever the file's age.
    FixedTime,
    /// The time left until the duration has passed since the file was last
    /// modified.
    ModTimePlusDelta,
}

/// One configured cache rule: files whose resolved path matches
/// `path_regex` are cached according to `rule_type` and `duration`.
#[derive(Debug)]
pub struct StaticFileCacheRule {
    pub path_regex: String,
    pub rule_type: StaticFileCacheRuleType,
    pub duration: Duration,
}

/// Settings of the static file handler.
#[derive(Debug)]
pub struct StaticFileConfiguration {
    /// Document root.
    pub path: String,
    /// Whether a pre-compressed gzip variant may be served.
    pub precompressed_gz: bool,
    /// Whether a pre-compressed brotli variant may be served.
    pub precompressed_br: bool,
    /// Where clients are sent when a file cannot be served.
    pub client_error_page_path: String,
    /// Cache rules in order of precedence: the first match wins.
    pub cache_rules: Vec<StaticFileCacheRule>,
}

/// Settings of one listener.
#[derive(Debug)]
pub struct ServerConfiguration {
    /// A file system path for a Unix socket, `host:port` for TCP.
    pub bind_address: String,
    pub server_protocol: ServerProtocol,
    /// How long a connection may live before it is asked to shut down.
    pub connection_max_lifetime: Duration,
    /// How long a connection gets to finish once it was asked to shut down.
    pub connection_graceful_shutdown_timeout: Duration,
}

} // verus!
