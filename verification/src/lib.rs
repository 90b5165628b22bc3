//! The request-serving core of a small self-hosted HTTP server: connection
//! tracking, the connection lifecycle with its escalating timeouts, exact
//! method-and-path routing, and the cache policy for static files.
//!
//! Everything here works on plain values. Sockets, timers, the file system
//! and the HTTP codec stay with the embedding program, which feeds what it
//! observed into these functions and carries out what they decide.
pub mod calendar;
pub mod config;
pub mod connection;
pub mod handlers;
pub mod pattern;
pub mod request;
pub mod response;
pub mod server;
pub mod static_file;
pub mod time;
pub mod version;
