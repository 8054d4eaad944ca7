//! Messages of the protocol, by the side that sends them.
pub mod client;
pub mod server;
