//! Core of a peer-to-peer replication node for a gossip network of signed,
//! append-only feeds: the key-value store adapter, the MUXRPC frame header,
//! the blob want/have/get handler and the EBT replication session.
//!
//! The connection actors that own sockets, timers and channels live outside
//! this crate. They feed the handlers one input at a time and carry out the
//! actions that the handlers return.

pub mod actors;
pub mod broker;
pub mod error;
pub mod feed;
pub mod json;
pub mod node;
pub mod storage;
