//! What a replica keeps of the log that it follows, and the frames that a
//! primary hands to it.

use vstd::prelude::*;
use crate::generation::{spec_uuid_parsed, Generation};

verus! {

/// Number of a frame in a replicated log.
pub type FrameNo = u64;

/// A request for the frames of a log from `next_offset` on.
#[derive(Debug, Clone, Copy, PartialEq, Eq, Structural)]
pub struct FramesRequest {
    pub next_offset: u64,
}

/// One frame of a replicated log, as its bytes.
#[derive(Debug)]
pub struct Frame {
    pub data: Vec<u8>,
}

/// A run of frames, in the order of the log.
#[derive(Debug)]
pub struct Frames {
    pub frames: Vec<Frame>,
}

impl Frames {
    /// The frames, in order.
    pub open spec fn view(&self) -> Seq<Frame> {
        self.frames@
    }

    /// No frames.
    pub fn new() -> (frames: Frames)
        ensures
            frames@ == Seq::<Frame>::empty(),
    {
        Frames { frames: Vec::new() }
    }

    /// Adds a frame at the end.
    pub fn push(&mut self, frame: Frame)
        ensures
            final(self)@ == old(self)@.push(frame),
    {
        self.frames.push(frame);
    }

    /// Whether there is no frame.
    pub fn is_empty(&self) -> (empty: bool)
        ensures
            empty == (self@.len() == 0),
    {
        self.frames.len() == 0
    }
}

/// The frame after which a request for frames is served: the one before
/// `next_offset`. There is none to serve from where the log does not reach
/// `next_offset` yet.
pub fn frames_start(request: &FramesRequest, max_available_frame_no: FrameNo) -> (start: Option<
    FrameNo,
>)
    ensures
        start == if max_available_frame_no < request.next_offset {
            None
        } else {
            Some(
                if request.next_offset == 0 {
                    0
                } else {
                    (request.next_offset - 1) as u64
                },
            )
        },
{
    if max_available_frame_no < request.next_offset {
        None
    } else if request.next_offset == 0 {
        Some(0)
    } else {
        Some(request.next_offset - 1)
    }
}

/// The log that a replica follows is not the log of its primary.
#[derive(Debug, Clone, Copy, PartialEq, Eq, Structural)]
pub enum ReplicationError {
    /// The primary serves another log than the one the replica has frames
    /// of.
    LogIncompatible,
    /// The primary did not name its log by a valid identifier.
    InvalidLogId,
}

/// What a replica records of the log that it follows.
#[derive(Debug, Clone, Copy, PartialEq, Eq, Structural)]
pub struct WalIndexMetaData {
    /// Identifier of the replicated log.
    pub log_id: u128,
    /// Number of the last frame that was committed; `FrameNo::MAX` while
    /// there is none.
    pub committed_frame_no: FrameNo,
}

/// The record of a replica, which is empty until the replica has met its
/// primary.
#[derive(Debug, Clone, Copy, PartialEq, Eq, Structural)]
pub struct WalIndexMeta {
    pub data: Option<WalIndexMetaData>,
}

impl WalIndexMeta {
    /// Takes note of the log that the primary says it serves. A replica
    /// without a record starts one for that log, with no frame committed; a
    /// replica with a record accepts the primary only where it serves the
    /// log of the record.
    pub fn merge_hello(&mut self, log_id: &[u8]) -> (merged: Result<(), ReplicationError>)
        ensures
            match spec_uuid_parsed(log_id@) {
                None => merged == Err::<(), ReplicationError>(ReplicationError::InvalidLogId)
                    && final(self).data == old(self).data,
                Some(id) => match old(self).data {
                    Some(meta) => final(self).data == old(self).data && merged == if meta.log_id
                        == id {
                        Ok::<(), ReplicationError>(())
                    } else {
                        Err::<(), ReplicationError>(ReplicationError::LogIncompatible)
                    },
                    None => merged == Ok::<(), ReplicationError>(()) && final(self).data == Some(
                        WalIndexMetaData { log_id: id, committed_frame_no: FrameNo::MAX },
                    ),
                },
            },
    {
        let hello_log_id: u128 = match Generation::parse(log_id) {
            Some(g) => g.id,
            None => {
                return Err(ReplicationError::InvalidLogId);
            },
        };
        match self.data {
            Some(meta) => {
                if meta.log_id != hello_log_id {
                    Err(ReplicationError::LogIncompatible)
                } else {
                    Ok(())
                }
            },
            None => {
                self.data = Some(
                    WalIndexMetaData { log_id: hello_log_id, committed_frame_no: FrameNo::MAX },
                );
                Ok(())
            },
        }
    }

    /// Records the number of the last committed frame. Without a record
    /// there is nothing to set it in, and nothing changes.
    pub fn set_commit_frame_no(&mut self, commit_fno: FrameNo) -> (set: bool)
        ensures
            set == old(self).data.is_some(),
            final(self).data == match old(self).data {
                Some(meta) => Some(
                    WalIndexMetaData { log_id: meta.log_id, committed_frame_no: commit_fno },
                ),
                None => None,
            },
    {
        match self.data {
            Some(meta) => {
                self.data = Some(
                    WalIndexMetaData { log_id: meta.log_id, committed_frame_no: commit_fno },
                );
                true
            },
            None => false,
        }
    }

    /// Number of the last committed frame, where there is one.
    pub fn current_frame_no(&self) -> (current: Option<FrameNo>)
        ensures
            current == match self.data {
                Some(meta) => if meta.committed_frame_no == FrameNo::MAX {
                    None
                } else {
                    Some(meta.committed_frame_no)
                },
                None => None,
            },
    {
        match self.data {
            Some(meta) => if meta.committed_frame_no == FrameNo::MAX {
                None
            } else {
                Some(meta.committed_frame_no)
            },
            None => None,
        }
    }
}

} // verus!
