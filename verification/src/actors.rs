//! Per-connection actors: MUXRPC handlers and replication sessions.

pub mod muxrpc;
pub mod network;
pub mod replication;
