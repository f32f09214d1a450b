//! Continuous backup and point-in-time restore of a write-ahead-logged
//! database: the decision logic of the replicator, with its contracts.
//!
//! The library holds no file, socket or clock. It is handed plain values
//! (bytes, counters, timestamps) and hands back plain values and the actions
//! that its caller is to perform against the object store and the local disk.

pub mod admin;
pub mod batch;
pub mod batching_laws;
pub mod codec;
pub mod compression;
pub mod config;
pub mod copier;
pub mod generation;
pub mod hrana;
pub mod image;
pub mod integrity;
pub mod key_laws;
pub mod keys;
pub mod meta;
pub mod page_cache;
pub mod program;
pub mod replay;
pub mod replay_laws;
pub mod replication;
pub mod replicator;
pub mod restore;
pub mod text;
pub mod wal;
