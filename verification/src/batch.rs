//! How the frames that wait are cut into batch objects.
//!
//! The batching task takes every frame that waits as one run; the copier
//! cuts the run into batches of at most `max_frames_per_batch` frames, each
//! of which becomes one object. Runs follow each other without a gap, and so
//! do the batches within a run.

use vstd::prelude::*;
use crate::replicator::FrameRange;

verus! {

/// Number of frames that a batch holds at most: the option, but at least one
/// frame and no more than a frame number can count.
pub open spec fn spec_batch_capacity(max_frames_per_batch: usize) -> int {
    if max_frames_per_batch == 0 {
        1
    } else if max_frames_per_batch > u32::MAX {
        u32::MAX as int
    } else {
        max_frames_per_batch as int
    }
}

/// Number of frames in a run; none where its last frame lies before its
/// first.
pub open spec fn spec_range_len(frames: FrameRange) -> int {
    if frames.first <= frames.last {
        frames.last - frames.first + 1
    } else {
        0
    }
}

/// Number of batches into which a run is cut.
pub open spec fn spec_batch_count(frames: FrameRange, max_frames_per_batch: usize) -> int {
    let cap = spec_batch_capacity(max_frames_per_batch);
    (spec_range_len(frames) + cap - 1) / cap
}

/// The `i`-th batch of a run, counted from 0: it starts where `i` full
/// batches end, and is full unless the run ends before.
pub open spec fn spec_batch(frames: FrameRange, max_frames_per_batch: usize, i: int) -> FrameRange {
    let cap = spec_batch_capacity(max_frames_per_batch);
    let first = frames.first + i * cap;
    let full_last = first + cap - 1;
    FrameRange {
        first: first as u32,
        last: if full_last < frames.last {
            full_last as u32
        } else {
            frames.last
        },
    }
}

/// The frames that the batching task takes, given the counters: every frame
/// after the last one sent, up to the last one submitted.
pub open spec fn spec_take(next_frame_no: u32, last_sent_frame_no: u32) -> Option<FrameRange> {
    if last_sent_frame_no + 1 < next_frame_no {
        Some(
            FrameRange {
                first: (last_sent_frame_no + 1) as u32,
                last: (next_frame_no - 1) as u32,
            },
        )
    } else {
        None
    }
}

/// Cuts a run of frames into batches of at most `max_frames_per_batch`
/// frames, in order.
pub fn split_batches(frames: FrameRange, max_frames_per_batch: usize) -> (batches: Vec<FrameRange>)
    ensures
        batches@.len() == spec_batch_count(frames, max_frames_per_batch),
        forall|i: int|
            0 <= i < batches@.len() ==> #[trigger] batches@[i] == spec_batch(
                frames,
                max_frames_per_batch,
                i,
            ),
{
    let mut out: Vec<FrameRange> = Vec::new();
    if frames.first > frames.last {
        proof {
            let c = spec_batch_capacity(max_frames_per_batch);
            assert((0 + c - 1) / c == 0) by (nonlinear_arith)
                requires
                    c >= 1,
            ;
        }
        return out;
    }
    let cap: u64 = if max_frames_per_batch == 0 {
        1
    } else if max_frames_per_batch as u64 > u32::MAX as u64 {
        u32::MAX as u64
    } else {
        max_frames_per_batch as u64
    };
    let last: u64 = frames.last as u64;
    let mut cur: u64 = frames.first as u64;
    let ghost len = spec_range_len(frames);
    let ghost mut k: int = 0;
    loop
        invariant_except_break
            frames.first <= frames.last,
            cap == spec_batch_capacity(max_frames_per_batch),
            1 <= cap <= u32::MAX,
            last == frames.last,
            len == frames.last - frames.first + 1,
            0 <= k,
            cur == frames.first + k * cap,
            cur <= last,
            out@.len() == k,
            forall|i: int|
                0 <= i < k ==> #[trigger] out@[i] == spec_batch(frames, max_frames_per_batch, i),
        ensures
            out@.len() == spec_batch_count(frames, max_frames_per_batch),
            forall|i: int|
                0 <= i < out@.len() ==> #[trigger] out@[i] == spec_batch(
                    frames,
                    max_frames_per_batch,
                    i,
                ),
        decreases last - cur,
    {
        let full_last: u64 = cur + cap - 1;
        let end: u64 = if full_last < last {
            full_last
        } else {
            last
        };
        out.push(FrameRange { first: cur as u32, last: end as u32 });
        proof {
            assert((k + 1) * cap == k * cap + cap) by (nonlinear_arith);
        }
        if end == last {
            proof {
                // The run ends in this batch: k full batches lie before it.
                assert(k * cap < len);
                assert(len <= k * cap + cap);
                assert((len + cap - 1) / (cap as int) == k + 1) by (nonlinear_arith)
                    requires
                        k * cap < len,
                        len <= k * cap + cap,
                        cap >= 1,
                        k >= 0,
                ;
            }
            break ;
        }
        cur = end + 1;
        proof {
            k = k + 1;
        }
    }
    out
}

/// Contiguity within a run: each batch starts at the frame after the one
/// where the batch before it ends.
pub proof fn lemma_batches_contiguous(frames: FrameRange, max_frames_per_batch: usize, i: int)
    requires
        frames.first <= frames.last,
        0 <= i,
        i + 1 < spec_batch_count(frames, max_frames_per_batch),
    ensures
        spec_batch(frames, max_frames_per_batch, i + 1).first == spec_batch(
            frames,
            max_frames_per_batch,
            i,
        ).last + 1,
{
    let cap = spec_batch_capacity(max_frames_per_batch);
    let len = spec_range_len(frames);
    assert((i + 1) * cap == i * cap + cap) by (nonlinear_arith);
    assert((i + 1) * cap < len) by (nonlinear_arith)
        requires
            i + 1 < (len + cap - 1) / cap,
            cap >= 1,
            i >= 0,
    ;
}

/// The batches of a run cover it: the first starts where the run starts and
/// the last ends where the run ends.
pub proof fn lemma_batches_cover(frames: FrameRange, max_frames_per_batch: usize)
    requires
        frames.first <= frames.last,
    ensures
        spec_batch_count(frames, max_frames_per_batch) >= 1,
        spec_batch(frames, max_frames_per_batch, 0).first == frames.first,
        spec_batch(
            frames,
            max_frames_per_batch,
            spec_batch_count(frames, max_frames_per_batch) - 1,
        ).last == frames.last,
{
    let cap = spec_batch_capacity(max_frames_per_batch);
    let len = spec_range_len(frames);
    let n = spec_batch_count(frames, max_frames_per_batch);
    assert(0 * cap == 0) by (nonlinear_arith);
    assert(n >= 1 && (n - 1) * cap < len && len <= (n - 1) * cap + cap) by (nonlinear_arith)
        requires
            n == (len + cap - 1) / cap,
            cap >= 1,
            len >= 1,
    ;
}

/// Batch size bound: no batch holds more frames than `max_frames_per_batch`
/// allows, and none is empty.
pub proof fn lemma_batch_size_bound(frames: FrameRange, max_frames_per_batch: usize, i: int)
    requires
        frames.first <= frames.last,
        0 <= i < spec_batch_count(frames, max_frames_per_batch),
    ensures
        1 <= spec_range_len(spec_batch(frames, max_frames_per_batch, i)) <= spec_batch_capacity(
            max_frames_per_batch,
        ),
        max_frames_per_batch >= 1 ==> spec_range_len(spec_batch(frames, max_frames_per_batch, i))
            <= max_frames_per_batch,
{
    let cap = spec_batch_capacity(max_frames_per_batch);
    let len = spec_range_len(frames);
    assert(i * cap < len && 0 <= i * cap) by (nonlinear_arith)
        requires
            0 <= i < (len + cap - 1) / cap,
            cap >= 1,
    ;
}

/// Contiguity across runs: where the batching task takes a run and, after
/// more frames were submitted and none dropped, takes the next one, the
/// second run starts at the frame after the one where the first ends.
pub proof fn lemma_runs_contiguous(next1: u32, sent1: u32, next2: u32)
    requires
        spec_take(next1, sent1) is Some,
        next1 <= next2,
        spec_take(next2, (next1 - 1) as u32) is Some,
    ensures
        spec_take(next2, (next1 - 1) as u32).unwrap().first == spec_take(next1, sent1).unwrap().last
            + 1,
{
}

/// Every batch of a run lies in the run.
pub proof fn lemma_batch_within_run(frames: FrameRange, max_frames_per_batch: usize, i: int)
    requires
        frames.first <= frames.last,
        0 <= i < spec_batch_count(frames, max_frames_per_batch),
    ensures
        frames.first <= spec_batch(frames, max_frames_per_batch, i).first <= spec_batch(
            frames,
            max_frames_per_batch,
            i,
        ).last <= frames.last,
{
    let cap = spec_batch_capacity(max_frames_per_batch);
    let len = spec_range_len(frames);
    assert(i * cap < len && 0 <= i * cap) by (nonlinear_arith)
        requires
            0 <= i < (len + cap - 1) / cap,
            cap >= 1,
    ;
}

} // verus!
