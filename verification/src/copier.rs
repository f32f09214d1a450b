//! The plan of the copier: where in the local WAL each batch of a run is
//! read from, how long it is, and under which key it is stored.

use vstd::prelude::*;
use crate::batch::{spec_batch, spec_batch_count, split_batches};
use crate::compression::CompressionKind;
use crate::generation::Generation;
use crate::keys::{batch_key, spec_generation_object_key, spec_segment_name, WalSegmentSummary};
use crate::meta::GenerationMeta;
use crate::replicator::FrameRange;
use crate::wal::{spec_frame_count, spec_frame_offset, spec_frame_size, WalFileReader};

verus! {

/// One batch to copy.
#[derive(Debug)]
pub struct BatchPlan {
    /// What the name of the batch tells.
    pub summary: WalSegmentSummary,
    /// The key under which the batch is stored.
    pub key: Vec<u8>,
    /// Where the first frame of the batch starts in the WAL.
    pub wal_offset: u64,
    /// Number of bytes of the batch in the WAL: its frames, header and page.
    pub len: u64,
}

/// Whether a run of frames lies in a WAL of `frame_count` frames.
pub open spec fn spec_run_in_wal(frames: FrameRange, frame_count: int) -> bool {
    1 <= frames.first <= frames.last <= frame_count
}

/// Whether `plan` is the plan of batch `i` of a run: it tells of the frames
/// of the batch, written at `timestamp` and compressed as `kind`; it is
/// stored under the key of that batch; and it is read from where its first
/// frame starts, as long as its frames are.
pub open spec fn spec_plan_of(
    plan: BatchPlan,
    db_name: Seq<u8>,
    generation: Generation,
    frames: FrameRange,
    max_frames_per_batch: usize,
    timestamp: u64,
    kind: CompressionKind,
    page_size: u32,
    i: int,
) -> bool {
    let part = spec_batch(frames, max_frames_per_batch, i);
    &&& plan.summary == (WalSegmentSummary {
        first_frame_no: part.first,
        last_frame_no: part.last,
        timestamp,
        compression_kind: kind,
    })
    &&& plan.key@ == spec_generation_object_key(db_name, generation, spec_segment_name(plan.summary))
    &&& plan.wal_offset == spec_frame_offset(part.first, page_size)
    &&& plan.len == (part.last - part.first + 1) * spec_frame_size(page_size)
}

/// Plans the copy of a run of frames of the local WAL: the run is cut into
/// batches of at most `max_frames_per_batch` frames, and each batch gets its
/// key and its place in the WAL. There is no plan for a run that does not lie
/// in the WAL.
pub fn plan_batches(
    wal: &WalFileReader,
    db_name: &[u8],
    generation: &Generation,
    frames: FrameRange,
    max_frames_per_batch: usize,
    timestamp: u64,
    kind: CompressionKind,
) -> (plans: Option<Vec<BatchPlan>>)
    ensures
        match plans {
            None => !spec_run_in_wal(
                frames,
                spec_frame_count(wal.spec_file_len(), wal.spec_page_size()),
            ),
            Some(plans) => {
                &&& spec_run_in_wal(
                    frames,
                    spec_frame_count(wal.spec_file_len(), wal.spec_page_size()),
                )
                &&& plans@.len() == spec_batch_count(frames, max_frames_per_batch)
                &&& forall|i: int|
                    0 <= i < plans@.len() ==> spec_plan_of(
                        #[trigger] plans@[i],
                        db_name@,
                        *generation,
                        frames,
                        max_frames_per_batch,
                        timestamp,
                        kind,
                        wal.spec_page_size(),
                        i,
                    ) && plans@[i].wal_offset + plans@[i].len <= wal.spec_file_len()
            },
        },
{
    let count: u32 = wal.frame_count();
    if frames.first < 1 || frames.first > frames.last || frames.last > count {
        return None;
    }
    let frame_size: u64 = wal.page_size() as u64 + 24;
    let parts: Vec<FrameRange> = split_batches(frames, max_frames_per_batch);
    let mut plans: Vec<BatchPlan> = Vec::new();
    let mut i: usize = 0;
    while i < parts.len()
        invariant
            i <= parts@.len(),
            plans@.len() == i,
            count == spec_frame_count(wal.spec_file_len(), wal.spec_page_size()),
            spec_run_in_wal(frames, count as int),
            frame_size == spec_frame_size(wal.spec_page_size()),
            parts@.len() == spec_batch_count(frames, max_frames_per_batch),
            forall|k: int|
                0 <= k < parts@.len() ==> #[trigger] parts@[k] == spec_batch(
                    frames,
                    max_frames_per_batch,
                    k,
                ),
            forall|k: int|
                0 <= k < i ==> spec_plan_of(
                    #[trigger] plans@[k],
                    db_name@,
                    *generation,
                    frames,
                    max_frames_per_batch,
                    timestamp,
                    kind,
                    wal.spec_page_size(),
                    k,
                ) && plans@[k].wal_offset + plans@[k].len <= wal.spec_file_len(),
        decreases parts@.len() - i,
    {
        let part: FrameRange = parts[i];
        proof {
            crate::batch::lemma_batch_within_run(frames, max_frames_per_batch, i as int);
        }
        let wal_offset: u64 = match wal.frame_offset(part.first) {
            Some(offset) => offset,
            None => {
                return None;
            },
        };
        let last_offset: u64 = match wal.frame_offset(part.last) {
            Some(offset) => offset,
            None => {
                return None;
            },
        };
        proof {
            let fs = frame_size as int;
            assert((part.last - 1) * fs - (part.first - 1) * fs + fs == (part.last - part.first
                + 1) * fs) by (nonlinear_arith);
            assert((part.first - 1) * fs <= (part.last - 1) * fs) by (nonlinear_arith)
                requires
                    part.first <= part.last,
                    fs >= 0,
            ;
        }
        let len: u64 = last_offset - wal_offset + frame_size;
        let summary = WalSegmentSummary {
            first_frame_no: part.first,
            last_frame_no: part.last,
            timestamp,
            compression_kind: kind,
        };
        let key: Vec<u8> = batch_key(db_name, generation, &summary);
        let ghost before = plans@;
        plans.push(BatchPlan { summary, key, wal_offset, len });
        assert forall|k: int| 0 <= k < i + 1 implies spec_plan_of(
            #[trigger] plans@[k],
            db_name@,
            *generation,
            frames,
            max_frames_per_batch,
            timestamp,
            kind,
            wal.spec_page_size(),
            k,
        ) && plans@[k].wal_offset + plans@[k].len <= wal.spec_file_len() by {
            if k < i {
                assert(plans@[k] == before[k]);
            }
        }
        i += 1;
    }
    Some(plans)
}

/// What is stored as `.meta` before a run is copied: the page size and the
/// initial checksum of the WAL, where the run starts the generation, that
/// is, at frame 1. A run that starts later stores none.
pub fn meta_for_run(wal: &WalFileReader, frames: FrameRange) -> (meta: Option<
    GenerationMeta,
>)
    ensures
        meta == if frames.first == 1 {
            Some(
                GenerationMeta {
                    page_size: wal.spec_page_size(),
                    initial_checksum: wal.spec_checksum(),
                },
            )
        } else {
            None
        },
{
    if frames.first == 1 {
        Some(
            GenerationMeta {
                page_size: wal.page_size(),
                initial_checksum: wal.checksum(),
            },
        )
    } else {
        None
    }
}

} // verus!
