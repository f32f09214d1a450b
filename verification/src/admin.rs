//! What the server reports of a database.

use vstd::prelude::*;
use crate::replication::FrameNo;

verus! {

/// The engine that runs a database.
#[derive(Debug, Clone, Copy, PartialEq, Eq, Structural)]
pub enum Backend {
    Libsql,
}

/// What is known of a database.
#[derive(Debug, Clone, Copy, PartialEq, Eq, Structural)]
pub struct DatabaseInfo {
    pub current_frame_no: FrameNo,
}

/// The counters of a database, as they are reported.
#[derive(Debug, Clone, Copy, PartialEq, Eq, Structural)]
pub struct StatsResponse {
    pub rows_read_count: u64,
    pub rows_written_count: u64,
    pub storage_bytes_used: u64,
    pub write_requests_delegated: u64,
}

/// The number of rows that a statement counts as read: what the engine
/// counted, but one row where it counted neither a row read nor a row
/// written, so that no statement is free.
pub fn rows_read_charged(rows_read: u64, rows_written: u64) -> (charged: u64)
    ensures
        charged == if rows_read == 0 && rows_written == 0 {
            1
        } else {
            rows_read
        },
{
    if rows_read == 0 && rows_written == 0 {
        1
    } else {
        rows_read
    }
}

} // verus!
