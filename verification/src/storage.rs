//! Persistent state: the blob identifiers and the key-value store of feeds.

pub mod blob;
pub mod codec;
pub mod feed_laws;
pub mod kv;
pub mod listing_laws;
