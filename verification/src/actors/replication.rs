//! Feed replication.

pub mod ebt;
