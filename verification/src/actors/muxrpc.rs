//! MUXRPC session layer: inputs, actions and the handlers that turn one into
//! the other.

pub mod blobs_wants;
pub mod ebt;
pub mod frame;
pub mod handler;
