//! What holds of every run of the batching task within one generation: the
//! batches that it produces are dense. The first starts at frame 1, each
//! starts at the frame after the one before it, none is empty and none holds
//! more frames than a batch may. And what the watchers of commits are told
//! never goes back.
//!
//! Frame numbers are counted in 32 bits; a submission that would take the
//! counter beyond them is not made, and the law speaks of the submissions
//! that are.
//!
//! A replicator keeps the same account of its own batches: that they are
//! dense is part of its invariant, and `Replicator::take_batch` says so of
//! every state that it leaves.

use vstd::prelude::*;
use crate::batch::{
    lemma_batch_size_bound, lemma_batches_contiguous, lemma_batches_cover, spec_batch,
    spec_batch_capacity, spec_batch_count, spec_range_len, spec_take,
};
use crate::replicator::{spec_committed_after, FrameRange};

verus! {

/// What happens to the counters of a generation, in turn.
pub enum BatchingEvent {
    /// The host engine submits so many frames.
    Submit(u32),
    /// The batching task takes the frames that wait.
    Flush,
    /// The copier reports that the frames up to this one are stored.
    Stored(u32),
}

/// The counters of a generation and the batches that were produced in it.
pub struct BatchingState {
    /// Number of the next frame that the database will write.
    pub next_frame_no: u32,
    /// Number of the last frame that was handed on to be stored.
    pub last_sent_frame_no: u32,
    /// Number of the last frame that the watchers of commits were told of.
    pub last_committed_frame_no: u32,
    /// The batches that were produced, in turn.
    pub batches: Seq<FrameRange>,
}

/// The batches into which a run is cut, in turn.
pub open spec fn spec_run_batches(run: FrameRange, max_frames_per_batch: usize) -> Seq<FrameRange> {
    Seq::new(
        spec_batch_count(run, max_frames_per_batch) as nat,
        |i: int| spec_batch(run, max_frames_per_batch, i),
    )
}

/// A generation as it starts: frame 1 is next, nothing was sent, and no batch
/// was produced.
pub open spec fn spec_batching_start() -> BatchingState {
    BatchingState {
        next_frame_no: 1,
        last_sent_frame_no: 0,
        last_committed_frame_no: 0,
        batches: Seq::<FrameRange>::empty(),
    }
}

/// The state after an event, where the event can happen: a submission has to
/// leave the counter within its 32 bits. A submission moves the counter; a
/// flush takes the run of the frames that wait, counts them as sent, and
/// adds the batches of the run to the batches that were produced; a report
/// of stored frames is passed on to the watchers of commits.
pub open spec fn spec_batching_step(
    s: BatchingState,
    e: BatchingEvent,
    max_frames_per_batch: usize,
) -> Option<BatchingState> {
    match e {
        BatchingEvent::Submit(n) => if s.next_frame_no + n <= u32::MAX {
            Some(BatchingState { next_frame_no: (s.next_frame_no + n) as u32, ..s })
        } else {
            None
        },
        BatchingEvent::Flush => Some(
            BatchingState {
                next_frame_no: s.next_frame_no,
                last_sent_frame_no: (s.next_frame_no - 1) as u32,
                last_committed_frame_no: s.last_committed_frame_no,
                batches: spec_batches_after_take(
                    s.next_frame_no,
                    s.last_sent_frame_no,
                    s.batches,
                    max_frames_per_batch,
                ),
            },
        ),
        BatchingEvent::Stored(reported) => Some(
            BatchingState {
                last_committed_frame_no: spec_committed_after(
                    s.last_committed_frame_no,
                    s.last_sent_frame_no,
                    reported,
                ),
                ..s
            },
        ),
    }
}

/// The state of a generation after a sequence of events, where each of them
/// can happen.
pub open spec fn spec_batching_after(events: Seq<BatchingEvent>, max_frames_per_batch: usize) -> Option<
    BatchingState,
>
    decreases events.len(),
{
    if events.len() == 0 {
        Some(spec_batching_start())
    } else {
        match spec_batching_after(events.drop_last(), max_frames_per_batch) {
            Some(s) => spec_batching_step(s, events.last(), max_frames_per_batch),
            None => None,
        }
    }
}

/// Whether batches account, without a gap, for the frames that were sent
/// after frame `after`: the first batch starts at the frame that follows
/// `after`; each batch starts at the frame after the one before it; the last
/// one ends at the last frame sent; and every batch holds one frame at least
/// and no more than a batch may. Without a batch, no frame was sent since.
pub open spec fn spec_dense_after(
    after: u32,
    last_sent_frame_no: u32,
    batches: Seq<FrameRange>,
    max_frames_per_batch: usize,
) -> bool {
    &&& batches.len() == 0 ==> last_sent_frame_no == after
    &&& batches.len() > 0 ==> batches[0].first == after + 1 && batches.last().last
        == last_sent_frame_no
    &&& forall|k: int|
        0 <= k < batches.len() - 1 ==> (#[trigger] batches[k + 1]).first == batches[k].last + 1
    &&& forall|k: int|
        0 <= k < batches.len() ==> 1 <= spec_range_len(#[trigger] batches[k])
            <= spec_batch_capacity(max_frames_per_batch)
}

/// The batches that were produced once the frames that wait were taken: the
/// batches before, and after them those of the run that was taken.
pub open spec fn spec_batches_after_take(
    next_frame_no: u32,
    last_sent_frame_no: u32,
    batches: Seq<FrameRange>,
    max_frames_per_batch: usize,
) -> Seq<FrameRange> {
    match spec_take(next_frame_no, last_sent_frame_no) {
        Some(run) => batches + spec_run_batches(run, max_frames_per_batch),
        None => batches,
    }
}

/// Whether the batches of a state are dense and account for every frame that
/// was sent: the counters are in order; the first batch starts at frame 1;
/// each batch starts at the frame after the one before it; the last one ends
/// at the last frame sent; and every batch holds one frame at least and no
/// more than a batch may.
pub open spec fn spec_dense(s: BatchingState, max_frames_per_batch: usize) -> bool {
    &&& s.last_committed_frame_no <= s.last_sent_frame_no
    &&& s.last_sent_frame_no + 1 <= s.next_frame_no
    &&& spec_dense_after(0, s.last_sent_frame_no, s.batches, max_frames_per_batch)
}

/// The batches of a run are dense within the run.
pub proof fn lemma_run_batches_dense(run: FrameRange, max_frames_per_batch: usize)
    requires
        run.first <= run.last,
    ensures
        spec_run_batches(run, max_frames_per_batch).len() >= 1,
        spec_run_batches(run, max_frames_per_batch)[0].first == run.first,
        spec_run_batches(run, max_frames_per_batch).last().last == run.last,
        forall|k: int|
            0 <= k < spec_run_batches(run, max_frames_per_batch).len() - 1 ==> (
            #[trigger] spec_run_batches(run, max_frames_per_batch)[k + 1]).first
                == spec_run_batches(run, max_frames_per_batch)[k].last + 1,
        forall|k: int|
            0 <= k < spec_run_batches(run, max_frames_per_batch).len() ==> 1 <= spec_range_len(
                #[trigger] spec_run_batches(run, max_frames_per_batch)[k],
            ) <= spec_batch_capacity(max_frames_per_batch),
{
    let bs = spec_run_batches(run, max_frames_per_batch);
    lemma_batches_cover(run, max_frames_per_batch);
    assert forall|k: int| 0 <= k < bs.len() - 1 implies (#[trigger] bs[k + 1]).first == bs[k].last
        + 1 by {
        lemma_batches_contiguous(run, max_frames_per_batch, k);
    }
    assert forall|k: int| 0 <= k < bs.len() implies 1 <= spec_range_len(#[trigger] bs[k])
        <= spec_batch_capacity(max_frames_per_batch) by {
        lemma_batch_size_bound(run, max_frames_per_batch, k);
    }
}

/// Taking the frames that wait keeps the batches dense: the batches of the
/// run that is taken follow the batches before them without a gap, and end
/// at the last frame that was submitted.
pub proof fn lemma_take_keeps_dense(
    after: u32,
    next_frame_no: u32,
    last_sent_frame_no: u32,
    batches: Seq<FrameRange>,
    max_frames_per_batch: usize,
)
    requires
        last_sent_frame_no + 1 <= next_frame_no,
        spec_dense_after(after, last_sent_frame_no, batches, max_frames_per_batch),
    ensures
        spec_dense_after(
            after,
            (next_frame_no - 1) as u32,
            spec_batches_after_take(
                next_frame_no,
                last_sent_frame_no,
                batches,
                max_frames_per_batch,
            ),
            max_frames_per_batch,
        ),
{
    let all = spec_batches_after_take(
        next_frame_no,
        last_sent_frame_no,
        batches,
        max_frames_per_batch,
    );
    match spec_take(next_frame_no, last_sent_frame_no) {
        None => {},
        Some(run) => {
            let add = spec_run_batches(run, max_frames_per_batch);
            let old_len = batches.len() as int;
            lemma_run_batches_dense(run, max_frames_per_batch);
            assert(all == batches + add);
            assert(all.last() == add.last());
            assert forall|k: int| 0 <= k < all.len() - 1 implies (#[trigger] all[k + 1]).first
                == all[k].last + 1 by {
                if k + 1 < old_len {
                    assert(all[k + 1] == batches[k + 1]);
                    assert(all[k] == batches[k]);
                } else if k + 1 == old_len {
                    assert(all[k + 1] == add[0]);
                    assert(all[k] == batches.last());
                } else {
                    assert(all[k + 1] == add[k - old_len + 1]);
                    assert(all[k] == add[k - old_len]);
                }
            }
            assert forall|k: int| 0 <= k < all.len() implies 1 <= spec_range_len(
                #[trigger] all[k],
            ) <= spec_batch_capacity(max_frames_per_batch) by {
                if k < old_len {
                    assert(all[k] == batches[k]);
                } else {
                    assert(all[k] == add[k - old_len]);
                }
            }
            if old_len == 0 {
                assert(all[0] == add[0]);
            } else {
                assert(all[0] == batches[0]);
            }
        },
    }
}

/// An event that can happen keeps the batches dense.
pub proof fn lemma_step_keeps_dense(s: BatchingState, e: BatchingEvent, max_frames_per_batch: usize)
    requires
        spec_dense(s, max_frames_per_batch),
        spec_batching_step(s, e, max_frames_per_batch) is Some,
    ensures
        spec_dense(spec_batching_step(s, e, max_frames_per_batch).unwrap(), max_frames_per_batch),
{
    match e {
        BatchingEvent::Submit(_) => {},
        BatchingEvent::Stored(_) => {},
        BatchingEvent::Flush => {
            lemma_take_keeps_dense(
                0,
                s.next_frame_no,
                s.last_sent_frame_no,
                s.batches,
                max_frames_per_batch,
            );
        },
    }
}

/// Contiguity and batch size bound, for every run of the batching task: after
/// any sequence of submissions and flushes within a generation, the batches
/// that were produced are dense. The first starts at frame 1, each starts at
/// the frame after the one before it, the last ends at the last frame sent,
/// and none holds more frames than a batch may.
pub proof fn lemma_batches_dense(events: Seq<BatchingEvent>, max_frames_per_batch: usize)
    requires
        spec_batching_after(events, max_frames_per_batch) is Some,
    ensures
        spec_dense(spec_batching_after(events, max_frames_per_batch).unwrap(), max_frames_per_batch),
    decreases events.len(),
{
    if events.len() > 0 {
        lemma_batches_dense(events.drop_last(), max_frames_per_batch);
        lemma_step_keeps_dense(
            spec_batching_after(events.drop_last(), max_frames_per_batch).unwrap(),
            events.last(),
            max_frames_per_batch,
        );
    }
}

/// Counter monotonicity, for every run within a generation: whatever is
/// submitted, flushed and reported after the watchers of commits were told
/// of a frame, they are never told of an earlier one, and never of one that
/// was not sent.
pub proof fn lemma_committed_never_goes_back(
    events: Seq<BatchingEvent>,
    more: Seq<BatchingEvent>,
    max_frames_per_batch: usize,
)
    requires
        spec_batching_after(events + more, max_frames_per_batch) is Some,
    ensures
        spec_batching_after(events, max_frames_per_batch) is Some,
        spec_batching_after(events, max_frames_per_batch).unwrap().last_committed_frame_no
            <= spec_batching_after(
            events + more,
            max_frames_per_batch,
        ).unwrap().last_committed_frame_no,
        spec_batching_after(events + more, max_frames_per_batch).unwrap().last_committed_frame_no
            <= spec_batching_after(events + more, max_frames_per_batch).unwrap().last_sent_frame_no,
    decreases more.len(),
{
    lemma_batches_dense(events + more, max_frames_per_batch);
    if more.len() == 0 {
        assert(events + more =~= events);
    } else {
        assert((events + more).drop_last() =~= events + more.drop_last());
        assert((events + more).last() == more.last());
        lemma_committed_never_goes_back(events, more.drop_last(), max_frames_per_batch);
        lemma_batches_dense(events + more.drop_last(), max_frames_per_batch);
    }
}

} // verus!
