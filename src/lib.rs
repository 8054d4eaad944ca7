//! A client library for QEMU's machine protocol (QMP): a line-delimited JSON
//! protocol of commands, replies and events spoken over a local socket.
//!
//! The library holds the protocol's logic: the JSON model and its codec, the
//! shapes of the messages each side sends, and the session engine that numbers
//! commands, correlates replies with their callbacks and answers the greeting.
//! Sockets, tasks and the command line are left to the program around it.
pub mod cli;
pub mod json;
pub mod messages;
pub mod session;
