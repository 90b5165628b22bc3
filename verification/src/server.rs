//! What happens to an accepted connection: the lifecycle that the listeners
//! drive each connection through.
pub mod connection;
