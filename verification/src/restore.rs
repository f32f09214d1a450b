//! The restore planner: which generation to restore from, whether the local
//! files can be kept, how far back the chain of generations is walked, and
//! how the frames of the batches are replayed.
//!
//! The planner decides; its caller fetches objects and writes files. Each
//! decision is a function from what the caller found to what it is to do
//! next.

use vstd::prelude::*;
use crate::generation::Generation;
use crate::keys::{generation_of_key, spec_generation_of_key, spec_parse_segment_key, WalSegmentSummary};
use crate::page_cache::CacheError;
use crate::replicator::PageSizeConflict;
use crate::wal::ChecksumMismatch;

verus! {

/// Largest number of generations without a snapshot that a restore walks
/// back through: at least one in so many consecutive generations has to hold
/// a snapshot.
pub const MAX_RESTORE_STACK_DEPTH: usize = 100;

/// What the caller of a restore is to do with the database afterwards.
#[derive(Debug, Clone, Copy, PartialEq, Eq, Structural)]
pub enum RestoreAction {
    /// Take a snapshot of the main database file into a new generation.
    SnapshotMainDbFile,
    /// Go on in the given generation.
    ReuseGeneration(Generation),
}

/// Why a restore was given up.
#[derive(Debug, Clone, Copy, PartialEq, Eq, Structural)]
pub enum RestoreError {
    /// The generation is no younger than the tombstone of the database.
    Tombstoned { generation: Generation, tombstone: i64 },
    /// No snapshot was found within the allowed number of generations.
    RestoreDepthExceeded,
    /// A generation records another page size than the one that is set.
    PageSizeConflict(PageSizeConflict),
    /// The checksum of a frame did not continue the chain.
    ChecksumMismatch { frame_no: u32, mismatch: ChecksumMismatch },
    /// A frame carries a page that the cache cannot take.
    InvalidFrame { frame_no: u32, reason: CacheError },
    /// A batch ends in the middle of a frame.
    TruncatedBatch { frame_no: u32 },
    /// A batch holds more frames than a frame number can count.
    FrameNumberOverflow,
}

/// Whether a tombstone forbids a restore from a generation: there is a
/// tombstone, the generation holds a creation time, and the tombstone lies at
/// or after it.
pub open spec fn spec_tombstoned(tombstone: Option<i64>, generation: Generation) -> bool {
    tombstone is Some && generation.spec_timestamp_millis() is Some && tombstone.unwrap() * 1000
        >= generation.spec_timestamp_millis().unwrap()
}

/// Checks a generation against the tombstone of its database, which is a Unix
/// time in seconds.
pub fn check_tombstone(tombstone: Option<i64>, generation: Generation) -> (checked: Result<
    (),
    RestoreError,
>)
    ensures
        checked == if spec_tombstoned(tombstone, generation) {
            Err::<(), RestoreError>(
                RestoreError::Tombstoned { generation, tombstone: tombstone.unwrap() },
            )
        } else {
            Ok::<(), RestoreError>(())
        },
{
    let at: i64 = match tombstone {
        Some(t) => t,
        None => {
            return Ok(());
        },
    };
    let made: u64 = match generation.timestamp_millis() {
        Some(m) => m,
        None => {
            return Ok(());
        },
    };
    if at as i128 * 1000 >= made as i128 {
        Err(RestoreError::Tombstoned { generation, tombstone: at })
    } else {
        Ok(())
    }
}

/// Whether a generation can be restored to the state at `threshold_millis`:
/// no time is asked for, or the generation holds no creation time, or it was
/// made at or before the time that is asked for.
pub open spec fn spec_generation_admitted(generation: Generation, threshold_millis: Option<u64>) -> bool {
    threshold_millis is None || generation.spec_timestamp_millis() is None
        || generation.spec_timestamp_millis().unwrap() <= threshold_millis.unwrap()
}

/// Whether the key at `i` names a generation that is admitted.
pub open spec fn spec_key_admitted(
    db_name: Seq<u8>,
    keys: Seq<Vec<u8>>,
    threshold_millis: Option<u64>,
    i: int,
) -> bool {
    spec_generation_of_key(db_name, keys[i]@) is Some && spec_generation_admitted(
        spec_generation_of_key(db_name, keys[i]@).unwrap(),
        threshold_millis,
    )
}

/// The generation to restore from, among the keys of one page of a listing
/// of the database's objects: the generation of the first key that names an
/// admitted one. The listing meets newer generations first, so this is the
/// newest generation that is not younger than the time asked for.
pub fn latest_generation_before(
    db_name: &[u8],
    keys: &Vec<Vec<u8>>,
    threshold_millis: Option<u64>,
) -> (found: Option<Generation>)
    ensures
        match found {
            Some(g) => exists|i: int|
                0 <= i < keys@.len() && #[trigger] spec_key_admitted(
                    db_name@,
                    keys@,
                    threshold_millis,
                    i,
                ) && spec_generation_of_key(db_name@, keys@[i]@) == Some(g) && forall|j: int|
                    0 <= j < i ==> !#[trigger] spec_key_admitted(
                        db_name@,
                        keys@,
                        threshold_millis,
                        j,
                    ),
            None => forall|j: int|
                0 <= j < keys@.len() ==> !#[trigger] spec_key_admitted(
                    db_name@,
                    keys@,
                    threshold_millis,
                    j,
                ),
        },
{
    let mut i: usize = 0;
    while i < keys.len()
        invariant
            i <= keys@.len(),
            forall|j: int|
                0 <= j < i ==> !#[trigger] spec_key_admitted(db_name@, keys@, threshold_millis, j),
        decreases keys@.len() - i,
    {
        match generation_of_key(db_name, keys[i].as_slice()) {
            Some(g) => {
                let admitted: bool = match threshold_millis {
                    None => true,
                    Some(threshold) => match g.timestamp_millis() {
                        None => true,
                        Some(made) => made <= threshold,
                    },
                };
                if admitted {
                    assert(spec_key_admitted(db_name@, keys@, threshold_millis, i as int));
                    return Some(g);
                }
            },
            None => {},
        }
        i += 1;
    }
    None
}

/// The last frame of the batches among the first `n` keys: the greatest last
/// frame that a batch name among them tells, or 0.
pub open spec fn spec_last_frame(keys: Seq<Vec<u8>>, n: int) -> u32
    decreases n,
{
    if n <= 0 {
        0
    } else {
        let rest = spec_last_frame(keys, n - 1);
        match spec_parse_segment_key(keys[n - 1]@) {
            Some(s) => if s.last_frame_no > rest {
                s.last_frame_no
            } else {
                rest
            },
            None => rest,
        }
    }
}

/// The last consistent frame of a generation, given the keys of its objects:
/// the greatest last frame among its batches, or 0 where it has none.
pub fn last_consistent_frame(keys: &Vec<Vec<u8>>) -> (last: u32)
    ensures
        last == spec_last_frame(keys@, keys@.len() as int),
{
    let mut last: u32 = 0;
    let mut i: usize = 0;
    while i < keys.len()
        invariant
            i <= keys@.len(),
            last == spec_last_frame(keys@, i as int),
        decreases keys@.len() - i,
    {
        match WalSegmentSummary::parse(keys[i].as_slice()) {
            Some(s) => {
                if s.last_frame_no > last {
                    last = s.last_frame_no;
                }
            },
            None => {},
        }
        i += 1;
    }
    last
}

/// What the comparison of the local files with a generation says: go on in
/// the generation, snapshot the local database, or, where neither is in
/// order, restore.
pub open spec fn spec_compare_with_local(
    generation: Generation,
    local_counter: u32,
    remote_counter: u32,
    wal_pages: u32,
    last_consistent_frame: u32,
) -> Option<RestoreAction> {
    if local_counter == remote_counter {
        if wal_pages == last_consistent_frame {
            Some(RestoreAction::ReuseGeneration(generation))
        } else if wal_pages > last_consistent_frame {
            Some(RestoreAction::SnapshotMainDbFile)
        } else {
            None
        }
    } else if local_counter > remote_counter {
        Some(RestoreAction::SnapshotMainDbFile)
    } else {
        None
    }
}

/// What a walk along the chain of generations comes to. `has_snapshot` tells
/// of each generation of the chain, from the one to restore towards its
/// ancestors, whether it holds a snapshot; `depth` generations were tried
/// already. The walk ends at the first generation with a snapshot or at the
/// end of the chain, with the number of generations to replay; it fails once
/// more generations without a snapshot were tried than are allowed.
pub open spec fn spec_walk(has_snapshot: Seq<bool>, depth: nat) -> Result<nat, RestoreError>
    decreases has_snapshot.len() - depth,
{
    if depth >= has_snapshot.len() {
        Ok(depth)
    } else if has_snapshot[depth as int] {
        Ok(depth + 1)
    } else if depth + 1 > MAX_RESTORE_STACK_DEPTH {
        Err(RestoreError::RestoreDepthExceeded)
    } else {
        spec_walk(has_snapshot, depth + 1)
    }
}

/// What the caller is to do next while the chain is walked.
#[derive(Debug, Clone, Copy, PartialEq, Eq, Structural)]
pub enum StackStep {
    /// Look for the snapshot of this generation.
    TrySnapshot(Generation),
    /// The walk is over: replay the generations of the stack.
    Replay,
}

/// The walk along the chain of generations, from the one to restore towards
/// a snapshot. It holds the generations that were tried: the one to restore,
/// and the ancestors that were tried after it.
#[derive(Debug)]
pub struct ChainWalk {
    first: Generation,
    ancestors: Vec<Generation>,
}

/// The generations from which a database is restored: the one asked for and
/// as many of its ancestors as lie between it and a snapshot.
#[derive(Debug)]
pub struct RestoreStack {
    stack: Vec<Generation>,
    applied_wal_frame: bool,
}

impl ChainWalk {
    /// The generations that were tried, the one to restore first.
    pub closed spec fn view(&self) -> Seq<Generation> {
        seq![self.first] + self.ancestors@
    }

    /// Starts the walk at `generation`, whose snapshot the caller is to look
    /// for first.
    pub fn begin(generation: Generation) -> (walk: ChainWalk)
        ensures
            walk@ == seq![generation],
    {
        let walk = ChainWalk { first: generation, ancestors: Vec::new() };
        assert(walk@ =~= seq![generation]);
        walk
    }

    /// The generation that was tried last did not hold a snapshot. Where more
    /// generations were tried than are allowed the restore fails; otherwise
    /// the generation whose parent the caller is to look up comes back.
    pub fn snapshot_missing(&self) -> (child: Result<Generation, RestoreError>)
        ensures
            self@.len() > 0,
            child == if self@.len() > MAX_RESTORE_STACK_DEPTH {
                Err::<Generation, RestoreError>(RestoreError::RestoreDepthExceeded)
            } else {
                Ok::<Generation, RestoreError>(self@.last())
            },
    {
        if self.ancestors.len() >= MAX_RESTORE_STACK_DEPTH {
            Err(RestoreError::RestoreDepthExceeded)
        } else if self.ancestors.len() == 0 {
            Ok(self.first)
        } else {
            Ok(self.ancestors[self.ancestors.len() - 1])
        }
    }

    /// The parent of the generation that was tried last was looked up. With
    /// a parent the walk goes on there; without one the chain has ended and
    /// the replay begins.
    pub fn parent_found(&mut self, parent: Option<Generation>) -> (step: StackStep)
        ensures
            match parent {
                Some(p) => final(self)@ == old(self)@.push(p) && step == StackStep::TrySnapshot(p),
                None => final(self)@ == old(self)@ && step == StackStep::Replay,
            },
    {
        match parent {
            Some(p) => {
                self.ancestors.push(p);
                assert(self@ =~= old(self)@.push(p));
                StackStep::TrySnapshot(p)
            },
            None => StackStep::Replay,
        }
    }

    /// Ends the walk, at a snapshot or at the end of the chain: the
    /// generations that were tried are the ones to replay.
    pub fn into_stack(self) -> (stack: RestoreStack)
        ensures
            stack@ == self@,
            !stack.spec_applied_wal_frame(),
    {
        let ChainWalk { first, ancestors } = self;
        let mut stack: Vec<Generation> = Vec::new();
        stack.push(first);
        let mut i: usize = 0;
        while i < ancestors.len()
            invariant
                i <= ancestors@.len(),
                stack@ == seq![first] + ancestors@.take(i as int),
            decreases ancestors@.len() - i,
        {
            stack.push(ancestors[i]);
            assert(ancestors@.take(i + 1) =~= ancestors@.take(i as int).push(ancestors@[i as int]));
            assert(stack@ =~= seq![first] + ancestors@.take(i + 1));
            i += 1;
        }
        assert(ancestors@.take(ancestors@.len() as int) =~= ancestors@);
        RestoreStack { stack, applied_wal_frame: false }
    }
}

impl RestoreStack {
    /// The generations of the stack, the one asked for first.
    pub closed spec fn view(&self) -> Seq<Generation> {
        self.stack@
    }

    /// Whether the replay of a generation that was taken off the stack
    /// applied a transaction.
    pub closed spec fn spec_applied_wal_frame(&self) -> bool {
        self.applied_wal_frame
    }

    /// Number of generations in the stack.
    pub fn len(&self) -> (n: usize)
        ensures
            n == self@.len(),
    {
        self.stack.len()
    }

    /// Takes the next generation to replay off the stack: the oldest first.
    /// With it comes the frame beyond which its replay does not go. Only the
    /// last generation, the one that was asked for, is held to a frame: to
    /// `last_consistent_frame`, the last frame that it held when the restore
    /// began, since it may still be written to. The generations before it are
    /// replayed whole.
    pub fn pop(&mut self, last_consistent_frame: u32) -> (next: Option<(Generation, Option<u32>)>)
        ensures
            final(self).spec_applied_wal_frame() == old(self).spec_applied_wal_frame(),
            match next {
                Some((g, bound)) => {
                    &&& old(self)@.len() > 0
                    &&& g == old(self)@.last()
                    &&& final(self)@ == old(self)@.drop_last()
                    &&& bound == if old(self)@.len() == 1 {
                        Some(last_consistent_frame)
                    } else {
                        None
                    }
                },
                None => old(self)@.len() == 0 && final(self)@ == old(self)@,
            },
    {
        match self.stack.pop() {
            Some(g) => {
                let bound: Option<u32> = if self.stack.len() == 0 {
                    Some(last_consistent_frame)
                } else {
                    None
                };
                Some((g, bound))
            },
            None => None,
        }
    }

    /// Takes note of how the replay of a generation ended:
    /// `last_applied_timestamp` is the time of the batch that held its last
    /// committed transaction, or nothing where it applied none.
    pub fn record_replay(&mut self, last_applied_timestamp: Option<u64>)
        ensures
            final(self)@ == old(self)@,
            final(self).spec_applied_wal_frame() == (old(self).spec_applied_wal_frame()
                || last_applied_timestamp is Some),
    {
        if last_applied_timestamp.is_some() {
            self.applied_wal_frame = true;
        }
    }

    /// What the restore of `generation` comes to, after the generations of
    /// the stack were replayed: a database to which a transaction was applied
    /// is to be snapshotted, one that is as the snapshot left it goes on in
    /// the generation. Either way the database was recovered from the backup.
    pub fn outcome(&self, generation: Generation) -> (outcome: (RestoreAction, bool))
        ensures
            outcome.1,
            outcome.0 == if self.spec_applied_wal_frame() {
                RestoreAction::SnapshotMainDbFile
            } else {
                RestoreAction::ReuseGeneration(generation)
            },
    {
        restore_outcome(generation, self.applied_wal_frame)
    }
}

/// Walks a chain that is known beforehand: `chain` lists the generation to
/// restore and its ancestors in turn, each with whether it holds a snapshot.
/// Hands back the generations to replay, the one to restore first, or the
/// failure of the walk.
pub fn walk_chain(chain: &Vec<(Generation, bool)>) -> (walked: Result<RestoreStack, RestoreError>)
    ensures
        match walked {
            Ok(stack) => spec_walk(spec_snapshot_flags(chain@), 0) == Ok::<nat, RestoreError>(
                stack@.len(),
            ) && stack@ == spec_generations(chain@).take(stack@.len() as int)
                && !stack.spec_applied_wal_frame(),
            Err(e) => spec_walk(spec_snapshot_flags(chain@), 0) == Err::<nat, RestoreError>(e),
        },
{
    let ghost flags = spec_snapshot_flags(chain@);
    let ghost gens = spec_generations(chain@);
    if chain.len() == 0 {
        let stack = RestoreStack { stack: Vec::new(), applied_wal_frame: false };
        assert(stack@ =~= gens.take(0));
        return Ok(stack);
    }
    let mut walk: ChainWalk = ChainWalk::begin(chain[0].0);
    assert(walk@ =~= gens.take(1));
    let mut i: usize = 0;
    loop
        invariant
            flags == spec_snapshot_flags(chain@),
            gens == spec_generations(chain@),
            i < chain@.len(),
            walk@ == gens.take(i + 1),
            spec_walk(flags, 0) == spec_walk(flags, i as nat),
        decreases chain@.len() - i,
    {
        if chain[i].1 {
            return Ok(walk.into_stack());
        }
        match walk.snapshot_missing() {
            Err(e) => {
                return Err(e);
            },
            Ok(_) => {},
        }
        let parent: Option<Generation> = if i + 1 < chain.len() {
            Some(chain[i + 1].0)
        } else {
            None
        };
        match walk.parent_found(parent) {
            StackStep::Replay => {
                assert(spec_walk(flags, (i + 1) as nat) == Ok::<nat, RestoreError>(
                    (i + 1) as nat,
                ));
                return Ok(walk.into_stack());
            },
            StackStep::TrySnapshot(_) => {
                assert(gens.take(i + 2) =~= gens.take(i + 1).push(gens[i + 1]));
                i += 1;
            },
        }
    }
}

/// Of each generation of a chain, whether it holds a snapshot.
pub open spec fn spec_snapshot_flags(chain: Seq<(Generation, bool)>) -> Seq<bool> {
    Seq::new(chain.len(), |i: int| chain[i].1)
}

/// The generations of a chain.
pub open spec fn spec_generations(chain: Seq<(Generation, bool)>) -> Seq<Generation> {
    Seq::new(chain.len(), |i: int| chain[i].0)
}

/// Depth bound, the failing half: where none of the first 101 generations of
/// a chain holds a snapshot, the walk fails.
pub proof fn lemma_depth_exceeded(has_snapshot: Seq<bool>, depth: nat)
    requires
        depth <= MAX_RESTORE_STACK_DEPTH,
        has_snapshot.len() > MAX_RESTORE_STACK_DEPTH,
        forall|i: int| depth <= i <= MAX_RESTORE_STACK_DEPTH ==> !has_snapshot[i],
    ensures
        spec_walk(has_snapshot, depth) == Err::<nat, RestoreError>(
            RestoreError::RestoreDepthExceeded,
        ),
    decreases MAX_RESTORE_STACK_DEPTH - depth,
{
    if depth < MAX_RESTORE_STACK_DEPTH {
        lemma_depth_exceeded(has_snapshot, depth + 1);
    }
}

/// Depth bound, the succeeding half: where the first snapshot of a chain
/// lies no deeper than 100 generations below the one to restore, the walk
/// ends there, with every generation down to it on the stack.
pub proof fn lemma_depth_within_bound(has_snapshot: Seq<bool>, depth: nat, at: nat)
    requires
        depth <= at <= MAX_RESTORE_STACK_DEPTH,
        at < has_snapshot.len(),
        has_snapshot[at as int],
        forall|i: int| depth <= i < at ==> !has_snapshot[i],
    ensures
        spec_walk(has_snapshot, depth) == Ok::<nat, RestoreError>(at + 1),
    decreases at - depth,
{
    if depth < at {
        lemma_depth_within_bound(has_snapshot, depth + 1, at);
    }
}

/// A chain that ends before the bound without a snapshot is replayed from
/// its root: a database that was never snapshotted is restored from its WAL
/// alone.
pub proof fn lemma_chain_without_snapshot(has_snapshot: Seq<bool>, depth: nat)
    requires
        depth <= has_snapshot.len() <= MAX_RESTORE_STACK_DEPTH,
        forall|i: int| depth <= i < has_snapshot.len() ==> !has_snapshot[i],
    ensures
        spec_walk(has_snapshot, depth) == Ok::<nat, RestoreError>(has_snapshot.len()),
    decreases has_snapshot.len() - depth,
{
    if depth < has_snapshot.len() {
        lemma_chain_without_snapshot(has_snapshot, depth + 1);
    }
}

/// Tombstone honoured: a generation made before the second of the tombstone
/// is refused, one made after it is let through.
pub proof fn lemma_tombstone_honoured(tombstone: i64, generation: Generation)
    requires
        generation.spec_timestamp_millis() is Some,
    ensures
        generation.spec_timestamp_millis().unwrap() < tombstone * 1000 ==> spec_tombstoned(
            Some(tombstone),
            generation,
        ),
        generation.spec_timestamp_millis().unwrap() > tombstone * 1000 ==> !spec_tombstoned(
            Some(tombstone),
            generation,
        ),
        !spec_tombstoned(None, generation),
{
}

/// What the result of a restore says, given whether frames were applied: a
/// database to which frames were applied is to be snapshotted; one that is
/// as its generation left it goes on in that generation. Either way the
/// database was recovered from the backup.
pub fn restore_outcome(generation: Generation, applied_wal_frame: bool) -> (outcome: (
    RestoreAction,
    bool,
))
    ensures
        outcome.1,
        outcome.0 == if applied_wal_frame {
            RestoreAction::SnapshotMainDbFile
        } else {
            RestoreAction::ReuseGeneration(generation)
        },
{
    if applied_wal_frame {
        (RestoreAction::SnapshotMainDbFile, true)
    } else {
        (RestoreAction::ReuseGeneration(generation), true)
    }
}

/// What a restore comes to where no generation is found to restore from:
/// the caller is to snapshot what it has, and nothing was recovered.
pub fn nothing_to_restore() -> (outcome: (RestoreAction, bool))
    ensures
        outcome == (RestoreAction::SnapshotMainDbFile, false),
{
    (RestoreAction::SnapshotMainDbFile, false)
}

} // verus!
