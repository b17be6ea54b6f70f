//! Actors that accept and dial peer connections.

pub mod tcp_server;
