//! The replicator's own state: the three frame counters, the active
//! generation, the page size, and what the watchers of commits and snapshots
//! are told.
//!
//! The host engine submits the frames that it appends to the WAL. A batching
//! task takes the frames that wait, has them copied into batch files, and
//! records the outcome, which those who wait for a commit then see.

use vstd::prelude::*;
use crate::batch::spec_take;
use crate::batching_laws::{lemma_take_keeps_dense, spec_batches_after_take, spec_dense_after};
use crate::compression::CompressionKind;
use crate::config::{ConfigError, Options};
use crate::generation::{spec_clamped_millis, Generation};
use crate::meta::GenerationMeta;
use crate::replay::{ReplayModel, WalReplay};
use crate::restore::{spec_compare_with_local, RestoreAction, RestoreError};

verus! {

/// The page size was set before, to another value.
#[derive(Debug, Clone, Copy, PartialEq, Eq, Structural)]
pub struct PageSizeConflict {
    /// The page size that was asked for.
    pub requested: usize,
    /// The page size that is set.
    pub current: usize,
}

/// The replicator has no generation yet.
#[derive(Debug, Clone, Copy, PartialEq, Eq, Structural)]
pub struct GenerationNotSet;

/// How far the frames are that someone waits for.
#[derive(Debug, Clone, Copy, PartialEq, Eq, Structural)]
pub enum CommitProgress {
    /// The frames are stored; the number is that of the last stored frame.
    Committed(u32),
    /// The last attempt to store frames failed.
    Failed,
    /// The frames are not stored yet.
    Pending,
}

/// What the watchers of snapshots were last told.
#[derive(Debug, Clone, Copy, PartialEq, Eq, Structural)]
pub enum SnapshotStatus {
    /// Nothing yet.
    Idle,
    /// The snapshot of this generation is stored, or the generation needs
    /// none.
    Done(Generation),
    /// The last snapshot failed.
    Failed,
}

/// How far the snapshot is that someone waits for.
#[derive(Debug, Clone, Copy, PartialEq, Eq, Structural)]
pub enum SnapshotProgress {
    /// The snapshot of the active generation is stored.
    Snapshotted,
    /// There is nothing to wait for: no generation, or no data to snapshot.
    NotNeeded,
    /// The snapshot failed.
    Failed,
    /// The snapshot is not stored yet.
    Pending,
}

/// A run of frames, both ends included.
#[derive(Debug, Clone, Copy, PartialEq, Eq, Structural)]
pub struct FrameRange {
    pub first: u32,
    pub last: u32,
}

/// A page of a listing of stored pages, with the marker of the next page.
#[derive(Debug)]
pub struct FetchedResults {
    pub pages: Vec<(i32, Vec<u8>)>,
    pub next_marker: Option<String>,
}

/// The frame counters of a replicator. Beside them stand, for the proofs
/// alone, the batches into which the frames that were handed out are cut,
/// and the frame after which those batches begin.
struct FrameCounters {
    next_frame_no: u32,
    last_sent_frame_no: u32,
    last_committed_frame_no: u32,
    batches_after: Ghost<u32>,
    batches: Ghost<Seq<FrameRange>>,
}

/// The state of a replicator.
pub struct Replicator {
    frames: FrameCounters,
    commit_failed: bool,
    flush_requested: bool,
    snapshot_status: SnapshotStatus,
    snapshot_interval: Option<u64>,
    page_size: usize,
    generation: Option<Generation>,
    verify_crc: bool,
    use_compression: CompressionKind,
    max_frames_per_batch: usize,
    s3_upload_max_parallelism: usize,
    restore_transaction_page_swap_after: u32,
    restore_transaction_cache_fpath: String,
    bucket: String,
    db_path: String,
    db_name: String,
}

/// The frames that wait to be sent, given the counters.
pub open spec fn spec_pending(next_frame_no: u32, last_sent_frame_no: u32) -> int {
    next_frame_no - last_sent_frame_no - 1
}

impl Replicator {
    /// The page size of a replicator that was told none.
    pub const UNSET_PAGE_SIZE: usize = usize::MAX;

    /// The counters are ordered: what is committed was sent, and what was
    /// sent was submitted. And the batches of the frames that were handed out
    /// leave no gap up to the last frame sent.
    #[verifier::type_invariant]
    pub closed spec fn inv(&self) -> bool {
        &&& self.frames.last_committed_frame_no <= self.frames.last_sent_frame_no
        &&& self.frames.last_sent_frame_no + 1 <= self.frames.next_frame_no
        &&& spec_dense_after(
            self.frames.batches_after@,
            self.frames.last_sent_frame_no,
            self.frames.batches@,
            self.max_frames_per_batch,
        )
    }

    /// The batches into which the frames that were handed out to be stored
    /// are cut, in turn, since the counters were last set back behind a frame
    /// that was sent.
    pub closed spec fn spec_batches(&self) -> Seq<FrameRange> {
        self.frames.batches@
    }

    /// The frame after which the batches begin: 0 in a generation whose
    /// counters were never set back.
    pub closed spec fn spec_batches_after(&self) -> u32 {
        self.frames.batches_after@
    }

    /// Whether the batches here are what the batches of `other` become once
    /// the counters are set for a log whose last valid frame is `frame_no`.
    /// They stay where no frame beyond it was sent. Else none is left, and
    /// the batches begin after that frame.
    pub open spec fn batches_set_back(&self, other: &Replicator, frame_no: u32) -> bool {
        if other.spec_last_sent_frame_no() <= frame_no {
            self.same_batches(other)
        } else {
            self.spec_batches() == Seq::<FrameRange>::empty() && self.spec_batches_after()
                == frame_no
        }
    }

    /// Whether the same batches were produced here as in `other`.
    pub open spec fn same_batches(&self, other: &Replicator) -> bool {
        &&& self.spec_batches() == other.spec_batches()
        &&& self.spec_batches_after() == other.spec_batches_after()
    }

    /// Number of the next frame that the database will write.
    pub closed spec fn spec_next_frame_no(&self) -> u32 {
        self.frames.next_frame_no
    }

    /// Number of the last frame that was handed on to be stored.
    pub closed spec fn spec_last_sent_frame_no(&self) -> u32 {
        self.frames.last_sent_frame_no
    }

    /// Number of the last frame that the watchers of commits were told of.
    pub closed spec fn spec_last_committed_frame_no(&self) -> u32 {
        self.frames.last_committed_frame_no
    }

    /// Whether the watchers of commits were last told of a failure.
    pub closed spec fn spec_commit_failed(&self) -> bool {
        self.commit_failed
    }

    /// Whether a flush was asked for since the last batch was taken.
    pub closed spec fn spec_flush_requested(&self) -> bool {
        self.flush_requested
    }

    /// What the watchers of snapshots were last told.
    pub closed spec fn spec_snapshot_status(&self) -> SnapshotStatus {
        self.snapshot_status
    }

    /// Least time in seconds between two snapshots, where there is one.
    pub closed spec fn spec_snapshot_interval(&self) -> Option<u64> {
        self.snapshot_interval
    }

    /// The page size of the database, or `UNSET_PAGE_SIZE`.
    pub closed spec fn spec_page_size(&self) -> usize {
        self.page_size
    }

    /// The active generation, where there is one.
    pub closed spec fn spec_generation(&self) -> Option<Generation> {
        self.generation
    }

    /// Largest number of frames in a batch object.
    pub closed spec fn spec_max_frames_per_batch(&self) -> usize {
        self.max_frames_per_batch
    }

    /// Whether checksums are verified during a restore.
    pub closed spec fn spec_verify_crc(&self) -> bool {
        self.verify_crc
    }

    /// Kind of compression applied to what is sent.
    pub closed spec fn spec_use_compression(&self) -> CompressionKind {
        self.use_compression
    }

    /// Largest number of uploads that run at the same time.
    pub closed spec fn spec_s3_upload_max_parallelism(&self) -> usize {
        self.s3_upload_max_parallelism
    }

    /// Number of pages of a restored transaction that are kept in memory.
    pub closed spec fn spec_restore_transaction_page_swap_after(&self) -> u32 {
        self.restore_transaction_page_swap_after
    }

    /// Path of the file for the pages that are not kept in memory.
    pub closed spec fn spec_restore_transaction_cache_fpath(&self) -> Seq<char> {
        self.restore_transaction_cache_fpath@
    }

    /// Name of the database in the object store.
    pub closed spec fn spec_db_name(&self) -> Seq<char> {
        self.db_name@
    }

    /// Path of the local database file.
    pub closed spec fn spec_db_path(&self) -> Seq<char> {
        self.db_path@
    }

    /// Name of the bucket.
    pub closed spec fn spec_bucket(&self) -> Seq<char> {
        self.bucket@
    }

    /// What is set when a replicator is made and never changes.
    pub open spec fn same_config(&self, other: &Replicator) -> bool {
        &&& self.spec_max_frames_per_batch() == other.spec_max_frames_per_batch()
        &&& self.spec_verify_crc() == other.spec_verify_crc()
        &&& self.spec_use_compression() == other.spec_use_compression()
        &&& self.spec_snapshot_interval() == other.spec_snapshot_interval()
        &&& self.spec_db_name() == other.spec_db_name()
        &&& self.spec_db_path() == other.spec_db_path()
        &&& self.spec_bucket() == other.spec_bucket()
        &&& self.spec_s3_upload_max_parallelism() == other.spec_s3_upload_max_parallelism()
        &&& self.spec_restore_transaction_page_swap_after()
            == other.spec_restore_transaction_page_swap_after()
        &&& self.spec_restore_transaction_cache_fpath()
            == other.spec_restore_transaction_cache_fpath()
    }

    /// What the methods that touch only the counters leave alone.
    pub open spec fn same_settings(&self, other: &Replicator) -> bool {
        &&& self.same_config(other)
        &&& self.spec_page_size() == other.spec_page_size()
        &&& self.spec_generation() == other.spec_generation()
        &&& self.spec_snapshot_status() == other.spec_snapshot_status()
    }

    /// A replicator for the database at `db_path`. It starts with frame 1 as
    /// the next frame, nothing sent, nothing committed, no generation and no
    /// page size. The options must name the database and hold the three
    /// credentials of the store.
    pub fn with_options(db_path: String, options: Options) -> (made: Result<
        Replicator,
        ConfigError,
    >)
        ensures
            match made {
                Ok(r) => {
                    &&& options.region.is_some()
                    &&& options.access_key_id.is_some()
                    &&& options.secret_access_key.is_some()
                    &&& options.db_id.is_some()
                    &&& r.spec_next_frame_no() == 1
                    &&& r.spec_last_sent_frame_no() == 0
                    &&& r.spec_last_committed_frame_no() == 0
                    &&& r.spec_batches() == Seq::<FrameRange>::empty()
                    &&& r.spec_batches_after() == 0
                    &&& !r.spec_commit_failed()
                    &&& !r.spec_flush_requested()
                    &&& r.spec_snapshot_status() == SnapshotStatus::Idle
                    &&& r.spec_snapshot_interval() == options.snapshot_interval
                    &&& r.spec_page_size() == Replicator::UNSET_PAGE_SIZE
                    &&& r.spec_generation().is_none()
                    &&& r.spec_max_frames_per_batch() == options.max_frames_per_batch
                    &&& r.spec_verify_crc() == options.verify_crc
                    &&& r.spec_use_compression() == options.use_compression
                    &&& r.spec_db_name() == options.db_id.unwrap()@
                    &&& r.spec_db_path() == db_path@
                    &&& r.spec_bucket() == options.bucket_name@
                    &&& r.spec_s3_upload_max_parallelism() == options.s3_upload_max_parallelism
                    &&& r.spec_restore_transaction_page_swap_after()
                        == options.restore_transaction_page_swap_after
                    &&& r.spec_restore_transaction_cache_fpath()
                        == options.restore_transaction_cache_fpath@
                },
                Err(e) => e == if options.region.is_none() {
                    ConfigError::RegionNotSet
                } else if options.access_key_id.is_none() {
                    ConfigError::AccessKeyIdNotSet
                } else if options.secret_access_key.is_none() {
                    ConfigError::SecretAccessKeyNotSet
                } else {
                    ConfigError::DatabaseIdNotSet
                } && (options.region.is_none() || options.access_key_id.is_none()
                    || options.secret_access_key.is_none() || options.db_id.is_none()),
            },
    {
        match options.client_config() {
            Ok(_) => {},
            Err(e) => {
                return Err(e);
            },
        }
        let Options {
            verify_crc,
            use_compression,
            db_id,
            bucket_name,
            max_frames_per_batch,
            s3_upload_max_parallelism,
            restore_transaction_page_swap_after,
            restore_transaction_cache_fpath,
            snapshot_interval,
            ..
        } = options;
        let db_name: String = match db_id {
            Some(name) => name,
            None => {
                return Err(ConfigError::DatabaseIdNotSet);
            },
        };
        Ok(
            Replicator {
                frames: FrameCounters {
                    next_frame_no: 1,
                    last_sent_frame_no: 0,
                    last_committed_frame_no: 0,
                    batches_after: Ghost(0),
                    batches: Ghost(Seq::empty()),
                },
                commit_failed: false,
                flush_requested: false,
                snapshot_status: SnapshotStatus::Idle,
                snapshot_interval,
                page_size: Replicator::UNSET_PAGE_SIZE,
                generation: None,
                verify_crc,
                use_compression,
                max_frames_per_batch,
                s3_upload_max_parallelism,
                restore_transaction_page_swap_after,
                restore_transaction_cache_fpath,
                bucket: bucket_name,
                db_path,
                db_name,
            },
        )
    }

    /// Number of the next frame that the database will write.
    pub fn next_frame_no(&self) -> (n: u32)
        ensures
            n == self.spec_next_frame_no(),
            n >= 1,
    {
        proof {
            use_type_invariant(self);
        }
        self.frames.next_frame_no
    }

    /// Number of the last frame that was submitted.
    pub fn last_known_frame(&self) -> (n: u32)
        ensures
            n == self.spec_next_frame_no() - 1,
    {
        proof {
            use_type_invariant(self);
        }
        self.frames.next_frame_no - 1
    }

    /// Number of the last frame that was handed on to be stored.
    pub fn last_sent_frame_no(&self) -> (n: u32)
        ensures
            n == self.spec_last_sent_frame_no(),
            n <= self.spec_next_frame_no() - 1,
            spec_dense_after(
                self.spec_batches_after(),
                self.spec_last_sent_frame_no(),
                self.spec_batches(),
                self.spec_max_frames_per_batch(),
            ),
    {
        proof {
            use_type_invariant(self);
        }
        self.frames.last_sent_frame_no
    }

    /// Number of the last frame that is known to be stored.
    pub fn last_committed_frame_no(&self) -> (n: u32)
        ensures
            n == self.spec_last_committed_frame_no(),
            n <= self.spec_last_sent_frame_no(),
    {
        proof {
            use_type_invariant(self);
        }
        self.frames.last_committed_frame_no
    }

    /// Number of frames that wait to be replicated.
    pub fn pending_frames(&self) -> (n: u32)
        ensures
            n == spec_pending(self.spec_next_frame_no(), self.spec_last_sent_frame_no()),
    {
        proof {
            use_type_invariant(self);
        }
        self.frames.next_frame_no - self.frames.last_sent_frame_no - 1
    }

    /// The page size of the database, or `UNSET_PAGE_SIZE`.
    pub fn page_size(&self) -> (size: usize)
        ensures
            size == self.spec_page_size(),
    {
        self.page_size
    }

    /// Name of the database in the object store.
    pub fn db_name(&self) -> (name: &String)
        ensures
            name@ == self.spec_db_name(),
    {
        &self.db_name
    }

    /// Path of the local database file.
    pub fn db_path(&self) -> (path: &String)
        ensures
            path@ == self.spec_db_path(),
    {
        &self.db_path
    }

    /// Name of the bucket.
    pub fn bucket(&self) -> (name: &String)
        ensures
            name@ == self.spec_bucket(),
    {
        &self.bucket
    }

    /// Kind of compression applied to what is sent.
    pub fn use_compression(&self) -> (kind: CompressionKind)
        ensures
            kind == self.spec_use_compression(),
    {
        self.use_compression
    }

    /// Whether checksums are verified during a restore.
    pub fn verify_crc(&self) -> (verify: bool)
        ensures
            verify == self.spec_verify_crc(),
    {
        self.verify_crc
    }

    /// Largest number of frames in a batch object.
    pub fn max_frames_per_batch(&self) -> (n: usize)
        ensures
            n == self.spec_max_frames_per_batch(),
    {
        self.max_frames_per_batch
    }

    /// Largest number of uploads that run at the same time.
    pub fn s3_upload_max_parallelism(&self) -> (n: usize)
        ensures
            n == self.spec_s3_upload_max_parallelism(),
    {
        self.s3_upload_max_parallelism
    }

    /// Number of pages of a restored transaction that are kept in memory.
    pub fn restore_transaction_page_swap_after(&self) -> (n: u32)
        ensures
            n == self.spec_restore_transaction_page_swap_after(),
    {
        self.restore_transaction_page_swap_after
    }

    /// Path of the file for the pages that are not kept in memory.
    pub fn restore_transaction_cache_fpath(&self) -> (path: &String)
        ensures
            path@ == self.spec_restore_transaction_cache_fpath(),
    {
        &self.restore_transaction_cache_fpath
    }

    /// Tells the replicator the page size of the database. The page size
    /// cannot change once it is set: setting it again to the same value is
    /// accepted, to another value refused.
    pub fn set_page_size(&mut self, page_size: usize) -> (set: Result<(), PageSizeConflict>)
        ensures
            final(self).same_config(old(self)),
            final(self).spec_commit_failed() == old(self).spec_commit_failed(),
            final(self).spec_flush_requested() == old(self).spec_flush_requested(),
            final(self).spec_snapshot_status() == old(self).spec_snapshot_status(),
            final(self).spec_next_frame_no() == old(self).spec_next_frame_no(),
            final(self).spec_last_sent_frame_no() == old(self).spec_last_sent_frame_no(),
            final(self).spec_last_committed_frame_no() == old(self).spec_last_committed_frame_no(),
            final(self).spec_generation() == old(self).spec_generation(),
            set == match spec_set_page_size(old(self).spec_page_size(), page_size) {
                Ok(_) => Ok::<(), PageSizeConflict>(()),
                Err(conflict) => Err::<(), PageSizeConflict>(conflict),
            },
            final(self).spec_page_size() == match spec_set_page_size(
                old(self).spec_page_size(),
                page_size,
            ) {
                Ok(size) => size,
                Err(_) => old(self).spec_page_size(),
            },
            final(self).same_batches(old(self)),
    {
        proof {
            use_type_invariant(&*self);
        }
        if self.page_size != Replicator::UNSET_PAGE_SIZE && self.page_size != page_size {
            return Err(PageSizeConflict { requested: page_size, current: self.page_size });
        }
        self.page_size = page_size;
        Ok(())
    }

    /// Sets the counters for a log whose last valid frame is `frame_no`:
    /// that frame is the last one known, and nothing beyond it counts as sent
    /// or committed.
    fn reset_frames(&mut self, frame_no: u32)
        requires
            frame_no < u32::MAX,
        ensures
            final(self).spec_next_frame_no() == frame_no + 1,
            final(self).spec_last_sent_frame_no() == if old(self).spec_last_sent_frame_no()
                < frame_no {
                old(self).spec_last_sent_frame_no()
            } else {
                frame_no
            },
            final(self).spec_last_committed_frame_no() == if old(
                self,
            ).spec_last_committed_frame_no() < frame_no {
                old(self).spec_last_committed_frame_no()
            } else {
                frame_no
            },
            final(self).spec_commit_failed() == old(self).spec_commit_failed(),
            final(self).spec_flush_requested() == old(self).spec_flush_requested(),
            final(self).same_settings(old(self)),
            final(self).batches_set_back(old(self), frame_no),
    {
        proof {
            use_type_invariant(&*self);
        }
        if self.frames.last_committed_frame_no > frame_no {
            self.frames.last_committed_frame_no = frame_no;
        }
        if self.frames.last_sent_frame_no > frame_no {
            self.frames = FrameCounters {
                next_frame_no: frame_no + 1,
                last_sent_frame_no: frame_no,
                last_committed_frame_no: self.frames.last_committed_frame_no,
                batches_after: Ghost(frame_no),
                batches: Ghost(Seq::empty()),
            };
        } else {
            self.frames.next_frame_no = frame_no + 1;
        }
    }

    /// Starts a new generation, made for a clock that reads `now_millis`
    /// milliseconds since the epoch, and hands back the generation that was
    /// active before. The counters start over.
    pub fn new_generation(&mut self, now_millis: u64) -> (previous: Option<Generation>)
        ensures
            final(self).same_config(old(self)),
            final(self).spec_commit_failed() == old(self).spec_commit_failed(),
            final(self).spec_flush_requested() == old(self).spec_flush_requested(),
            final(self).spec_snapshot_status() == old(self).spec_snapshot_status(),
            previous == old(self).spec_generation(),
            final(self).spec_generation() is Some,
            final(self).spec_generation().unwrap().spec_timestamp_millis() == Some(
                spec_clamped_millis(now_millis),
            ),
            final(self).spec_next_frame_no() == 1,
            final(self).spec_last_sent_frame_no() == 0,
            final(self).spec_last_committed_frame_no() == 0,
            final(self).spec_page_size() == old(self).spec_page_size(),
            final(self).spec_batches() == Seq::<FrameRange>::empty(),
            final(self).spec_batches_after() == 0,
    {
        let curr: Generation = Generation::new(now_millis);
        self.set_generation(curr)
    }

    /// Makes `generation` the active one, as when a generation of the object
    /// store is taken up again, and hands back the generation that was active
    /// before. The counters start over.
    pub fn set_generation(&mut self, generation: Generation) -> (previous: Option<Generation>)
        ensures
            final(self).same_config(old(self)),
            final(self).spec_flush_requested() == old(self).spec_flush_requested(),
            final(self).spec_snapshot_status() == old(self).spec_snapshot_status(),
            previous == old(self).spec_generation(),
            final(self).spec_generation() == Some(generation),
            final(self).spec_next_frame_no() == 1,
            final(self).spec_last_sent_frame_no() == 0,
            final(self).spec_last_committed_frame_no() == 0,
            final(self).spec_page_size() == old(self).spec_page_size(),
            final(self).spec_commit_failed() == old(self).spec_commit_failed(),
            final(self).spec_batches() == Seq::<FrameRange>::empty(),
            final(self).spec_batches_after() == 0,
    {
        proof {
            use_type_invariant(&*self);
        }
        let previous: Option<Generation> = self.generation;
        self.generation = Some(generation);
        self.frames = FrameCounters {
            next_frame_no: 1,
            last_sent_frame_no: 0,
            last_committed_frame_no: 0,
            batches_after: Ghost(0),
            batches: Ghost(Seq::empty()),
        };
        previous
    }

    /// The active generation.
    pub fn generation(&self) -> (active: Result<Generation, GenerationNotSet>)
        ensures
            match active {
                Ok(g) => self.spec_generation() == Some(g),
                Err(_) => self.spec_generation().is_none(),
            },
    {
        match self.generation {
            Some(g) => Ok(g),
            None => Err(GenerationNotSet),
        }
    }

    /// Number of the last valid frame in the replicated log.
    pub fn peek_last_valid_frame(&self) -> (n: u32)
        ensures
            n == self.spec_next_frame_no() - 1,
    {
        proof {
            use_type_invariant(self);
        }
        self.frames.next_frame_no - 1
    }

    /// Tells the replicator the last valid frame of the log. Where it is not
    /// the frame that the replicator knows as the last, the counters are set
    /// for it.
    pub fn register_last_valid_frame(&mut self, frame: u32)
        requires
            frame < u32::MAX,
        ensures
            final(self).spec_next_frame_no() == frame + 1,
            final(self).spec_last_sent_frame_no() == if old(self).spec_last_sent_frame_no()
                < frame {
                old(self).spec_last_sent_frame_no()
            } else {
                frame
            },
            final(self).spec_last_committed_frame_no() == if old(
                self,
            ).spec_last_committed_frame_no() < frame {
                old(self).spec_last_committed_frame_no()
            } else {
                frame
            },
            final(self).same_settings(old(self)),
            final(self).batches_set_back(old(self), frame),
    {
        proof {
            use_type_invariant(&*self);
        }
        if frame != self.peek_last_valid_frame() {
            self.reset_frames(frame);
        }
    }

    /// Submits the next `frame_count` frames to be replicated, and asks for
    /// a flush where as many frames wait as a batch holds. Hands back whether
    /// it asked.
    pub fn submit_frames(&mut self, frame_count: u32) -> (flush: bool)
        requires
            old(self).spec_next_frame_no() + frame_count <= u32::MAX,
        ensures
            final(self).spec_next_frame_no() == old(self).spec_next_frame_no() + frame_count,
            final(self).spec_last_sent_frame_no() == old(self).spec_last_sent_frame_no(),
            final(self).spec_last_committed_frame_no() == old(self).spec_last_committed_frame_no(),
            flush == (spec_pending(
                final(self).spec_next_frame_no(),
                final(self).spec_last_sent_frame_no(),
            ) >= old(self).spec_max_frames_per_batch()),
            final(self).spec_flush_requested() == (old(self).spec_flush_requested() || flush),
            final(self).spec_commit_failed() == old(self).spec_commit_failed(),
            final(self).same_settings(old(self)),
            final(self).same_batches(old(self)),
    {
        proof {
            use_type_invariant(&*self);
        }
        self.frames.next_frame_no = self.frames.next_frame_no + frame_count;
        let waiting: u32 = self.frames.next_frame_no - 1 - self.frames.last_sent_frame_no;
        if waiting as u64 >= self.max_frames_per_batch as u64 {
            self.flush_requested = true;
            true
        } else {
            false
        }
    }

    /// Asks for the frames that wait to be sent now.
    pub fn request_flush(&mut self)
        ensures
            final(self).spec_flush_requested(),
            final(self).spec_next_frame_no() == old(self).spec_next_frame_no(),
            final(self).spec_last_sent_frame_no() == old(self).spec_last_sent_frame_no(),
            final(self).spec_last_committed_frame_no() == old(self).spec_last_committed_frame_no(),
            final(self).spec_commit_failed() == old(self).spec_commit_failed(),
            final(self).same_settings(old(self)),
            final(self).same_batches(old(self)),
    {
        proof {
            use_type_invariant(&*self);
        }
        self.flush_requested = true;
    }

    /// Drops the frames after `last_valid_frame`, which were not committed
    /// by the database.
    pub fn rollback_to_frame(&mut self, last_valid_frame: u32)
        requires
            last_valid_frame < u32::MAX,
        ensures
            final(self).spec_next_frame_no() == last_valid_frame + 1,
            final(self).spec_last_sent_frame_no() == if old(self).spec_last_sent_frame_no()
                < last_valid_frame {
                old(self).spec_last_sent_frame_no()
            } else {
                last_valid_frame
            },
            final(self).spec_last_committed_frame_no() == if old(
                self,
            ).spec_last_committed_frame_no() < last_valid_frame {
                old(self).spec_last_committed_frame_no()
            } else {
                last_valid_frame
            },
            final(self).same_settings(old(self)),
            final(self).batches_set_back(old(self), last_valid_frame),
    {
        self.reset_frames(last_valid_frame);
    }

    /// Compares the local files with the generation to restore from, to tell
    /// whether they can be kept. `local_counter` and `remote_counter` are the
    /// change counters of the local database file and of the generation's
    /// snapshot, `wal_pages` the number of frames in the local WAL, and
    /// `last_consistent_frame` the last frame that the generation holds.
    ///
    /// With equal counters and as many local frames as the generation holds,
    /// the generation is taken up where it ended. With equal counters and
    /// more local frames, or with a greater local counter, the local database
    /// is ahead and is to be snapshotted. Otherwise nothing is decided: the
    /// database is to be restored. In every case the generation becomes the
    /// active one, so that a generation that follows names it as its parent.
    pub fn compare_with_local(
        &mut self,
        generation: Generation,
        local_counter: u32,
        remote_counter: u32,
        wal_pages: u32,
        last_consistent_frame: u32,
    ) -> (action: Option<RestoreAction>)
        requires
            wal_pages < u32::MAX,
        ensures
            final(self).same_config(old(self)),
            action == spec_compare_with_local(
                generation,
                local_counter,
                remote_counter,
                wal_pages,
                last_consistent_frame,
            ),
            final(self).spec_generation() == Some(generation),
            final(self).spec_page_size() == old(self).spec_page_size(),
            action == Some(RestoreAction::ReuseGeneration(generation)) ==> {
                &&& final(self).spec_next_frame_no() == wal_pages + 1
                &&& final(self).spec_last_sent_frame_no() == if old(self).spec_last_sent_frame_no()
                    < wal_pages {
                    old(self).spec_last_sent_frame_no()
                } else {
                    wal_pages
                }
                &&& final(self).spec_last_committed_frame_no() == if old(
                    self,
                ).spec_last_committed_frame_no() < wal_pages {
                    old(self).spec_last_committed_frame_no()
                } else {
                    wal_pages
                }
            },
            final(self).spec_commit_failed() == old(self).spec_commit_failed(),
            final(self).spec_flush_requested() == old(self).spec_flush_requested(),
            final(self).spec_snapshot_status() == old(self).spec_snapshot_status(),
            action != Some(RestoreAction::ReuseGeneration(generation)) ==> {
                &&& final(self).spec_next_frame_no() == old(self).spec_next_frame_no()
                &&& final(self).spec_last_sent_frame_no() == old(self).spec_last_sent_frame_no()
                &&& final(self).spec_last_committed_frame_no() == old(
                    self,
                ).spec_last_committed_frame_no()
            },
            action == Some(RestoreAction::ReuseGeneration(generation)) ==> final(self).batches_set_back(
                old(self),
                wal_pages,
            ),
            action != Some(RestoreAction::ReuseGeneration(generation)) ==> final(self).same_batches(
                old(self),
            ),
    {
        proof {
            use_type_invariant(&*self);
        }
        self.generation = Some(generation);
        if local_counter == remote_counter {
            if wal_pages == last_consistent_frame {
                self.reset_frames(wal_pages);
                Some(RestoreAction::ReuseGeneration(generation))
            } else if wal_pages > last_consistent_frame {
                Some(RestoreAction::SnapshotMainDbFile)
            } else {
                None
            }
        } else if local_counter > remote_counter {
            Some(RestoreAction::SnapshotMainDbFile)
        } else {
            None
        }
    }

    /// Begins the replay of a generation during a restore. The page size of
    /// the generation becomes the page size of the replicator, which fails
    /// where another page size is set. The replay is made with the settings
    /// of the replicator, for frames chained from the checksum of the
    /// generation, and held to `last_consistent_frame` and `utc_time` where
    /// they are given.
    pub fn replay_generation(
        &mut self,
        meta: GenerationMeta,
        last_consistent_frame: Option<u32>,
        utc_time: Option<u64>,
    ) -> (begun: Result<WalReplay, RestoreError>)
        ensures
            final(self).same_config(old(self)),
            final(self).spec_commit_failed() == old(self).spec_commit_failed(),
            final(self).spec_flush_requested() == old(self).spec_flush_requested(),
            final(self).spec_snapshot_status() == old(self).spec_snapshot_status(),
            final(self).spec_next_frame_no() == old(self).spec_next_frame_no(),
            final(self).spec_last_sent_frame_no() == old(self).spec_last_sent_frame_no(),
            final(self).spec_last_committed_frame_no() == old(self).spec_last_committed_frame_no(),
            final(self).spec_generation() == old(self).spec_generation(),
            final(self).spec_page_size() == match spec_set_page_size(
                old(self).spec_page_size(),
                meta.page_size as usize,
            ) {
                Ok(size) => size,
                Err(_) => old(self).spec_page_size(),
            },
            match begun {
                Err(e) => spec_set_page_size(old(self).spec_page_size(), meta.page_size as usize)
                    == Err::<usize, PageSizeConflict>(e->PageSizeConflict_0) && e is PageSizeConflict,
                Ok(replay) => {
                    &&& spec_set_page_size(old(self).spec_page_size(), meta.page_size as usize)
                        is Ok
                    &&& replay.wf()
                    &&& replay.spec_page_size() == meta.page_size
                    &&& replay.spec_verify_crc() == old(self).spec_verify_crc()
                    &&& replay.spec_last_consistent_frame() == last_consistent_frame
                    &&& replay.spec_utc_time() == utc_time
                    &&& replay.spec_swap_after() == old(
                        self,
                    ).spec_restore_transaction_page_swap_after()
                    &&& replay.spec_pending_len() == 0
                    &&& forall|p: u32| !#[trigger] replay.spec_in_memory(p)
                    &&& replay.spec_spill() == Seq::<u8>::empty()
                    &&& replay.model() == (ReplayModel {
                        checksum: meta.initial_checksum,
                        last_received_frame_no: 0,
                        last_applied_timestamp: None,
                        batch_timestamp: 0,
                        pending: Map::<u32, Seq<u8>>::empty(),
                        committed: Map::<u32, Seq<u8>>::empty(),
                    })
                },
            },
            final(self).same_batches(old(self)),
    {
        match self.set_page_size(meta.page_size as usize) {
            Ok(()) => {},
            Err(conflict) => {
                return Err(RestoreError::PageSizeConflict(conflict));
            },
        }
        Ok(
            WalReplay::new(
                meta.page_size,
                self.restore_transaction_page_swap_after,
                self.verify_crc,
                meta.initial_checksum,
                last_consistent_frame,
                utc_time,
            ),
        )
    }

    /// The step of the batching task, taken when a flush was asked for or
    /// the batch interval has passed: every frame that waits counts as sent
    /// from now on, and the run of those frames is handed back to be copied.
    /// Where no frame waits there is nothing to copy.
    pub fn take_batch(&mut self) -> (frames: Option<FrameRange>)
        ensures
            final(self).spec_next_frame_no() == old(self).spec_next_frame_no(),
            final(self).spec_last_sent_frame_no() == old(self).spec_next_frame_no() - 1,
            final(self).spec_last_committed_frame_no() == old(self).spec_last_committed_frame_no(),
            !final(self).spec_flush_requested(),
            final(self).spec_commit_failed() == old(self).spec_commit_failed(),
            final(self).same_settings(old(self)),
            frames == spec_take(
                old(self).spec_next_frame_no(),
                old(self).spec_last_sent_frame_no(),
            ),
            final(self).spec_batches_after() == old(self).spec_batches_after(),
            final(self).spec_batches() == spec_batches_after_take(
                old(self).spec_next_frame_no(),
                old(self).spec_last_sent_frame_no(),
                old(self).spec_batches(),
                old(self).spec_max_frames_per_batch(),
            ),
            spec_dense_after(
                final(self).spec_batches_after(),
                final(self).spec_last_sent_frame_no(),
                final(self).spec_batches(),
                final(self).spec_max_frames_per_batch(),
            ),
    {
        proof {
            use_type_invariant(&*self);
        }
        let next_frame: u32 = self.frames.next_frame_no;
        let last_sent_frame: u32 = self.frames.last_sent_frame_no;
        let ghost after = self.frames.batches_after@;
        let ghost batches = spec_batches_after_take(
            next_frame,
            last_sent_frame,
            self.frames.batches@,
            self.max_frames_per_batch,
        );
        proof {
            lemma_take_keeps_dense(
                after,
                next_frame,
                last_sent_frame,
                self.frames.batches@,
                self.max_frames_per_batch,
            );
        }
        self.frames = FrameCounters {
            next_frame_no: next_frame,
            last_sent_frame_no: next_frame - 1,
            last_committed_frame_no: self.frames.last_committed_frame_no,
            batches_after: Ghost(after),
            batches: Ghost(batches),
        };
        self.flush_requested = false;
        if last_sent_frame + 1 < next_frame {
            Some(FrameRange { first: last_sent_frame + 1, last: next_frame - 1 })
        } else {
            None
        }
    }

    /// Records that the frames up to `last_frame` are stored, and tells the
    /// watchers. What the watchers are told never lies beyond the frames that
    /// were sent, and an older report does not take back a newer one.
    pub fn record_commit(&mut self, last_frame: u32)
        ensures
            final(self).spec_last_committed_frame_no() == spec_committed_after(
                old(self).spec_last_committed_frame_no(),
                old(self).spec_last_sent_frame_no(),
                last_frame,
            ),
            !final(self).spec_commit_failed(),
            final(self).spec_next_frame_no() == old(self).spec_next_frame_no(),
            final(self).spec_last_sent_frame_no() == old(self).spec_last_sent_frame_no(),
            final(self).spec_flush_requested() == old(self).spec_flush_requested(),
            final(self).same_settings(old(self)),
            final(self).same_batches(old(self)),
    {
        proof {
            use_type_invariant(&*self);
        }
        let reached: u32 = if last_frame < self.frames.last_sent_frame_no {
            last_frame
        } else {
            self.frames.last_sent_frame_no
        };
        if reached > self.frames.last_committed_frame_no {
            self.frames.last_committed_frame_no = reached;
        }
        self.commit_failed = false;
    }

    /// Records that frames could not be stored, and tells the watchers.
    /// Batching goes on.
    pub fn record_commit_failure(&mut self)
        ensures
            final(self).spec_commit_failed(),
            final(self).spec_last_committed_frame_no() == old(self).spec_last_committed_frame_no(),
            final(self).spec_next_frame_no() == old(self).spec_next_frame_no(),
            final(self).spec_last_sent_frame_no() == old(self).spec_last_sent_frame_no(),
            final(self).spec_flush_requested() == old(self).spec_flush_requested(),
            final(self).same_settings(old(self)),
            final(self).same_batches(old(self)),
    {
        proof {
            use_type_invariant(&*self);
        }
        self.commit_failed = true;
    }

    /// What someone who waits for frame `frame_no` to be stored is told: a
    /// failure where the last attempt failed, the last stored frame where it
    /// is `frame_no` or a later one, and to wait on otherwise.
    pub fn wait_until_committed(&self, frame_no: u32) -> (progress: CommitProgress)
        ensures
            progress == if self.spec_commit_failed() {
                CommitProgress::Failed
            } else if self.spec_last_committed_frame_no() >= frame_no {
                CommitProgress::Committed(self.spec_last_committed_frame_no())
            } else {
                CommitProgress::Pending
            },
    {
        if self.commit_failed {
            CommitProgress::Failed
        } else if self.frames.last_committed_frame_no >= frame_no {
            CommitProgress::Committed(self.frames.last_committed_frame_no)
        } else {
            CommitProgress::Pending
        }
    }

    /// Tells the watchers of snapshots that the active generation needs no
    /// snapshot.
    pub fn skip_snapshot_for_current_generation(&mut self)
        ensures
            final(self).same_config(old(self)),
            final(self).spec_commit_failed() == old(self).spec_commit_failed(),
            final(self).spec_flush_requested() == old(self).spec_flush_requested(),
            final(self).spec_page_size() == old(self).spec_page_size(),
            final(self).spec_snapshot_status() == match old(self).spec_generation() {
                Some(g) => SnapshotStatus::Done(g),
                None => SnapshotStatus::Idle,
            },
            final(self).spec_next_frame_no() == old(self).spec_next_frame_no(),
            final(self).spec_last_sent_frame_no() == old(self).spec_last_sent_frame_no(),
            final(self).spec_last_committed_frame_no() == old(self).spec_last_committed_frame_no(),
            final(self).spec_generation() == old(self).spec_generation(),
            final(self).same_batches(old(self)),
    {
        proof {
            use_type_invariant(&*self);
        }
        self.snapshot_status = match self.generation {
            Some(g) => SnapshotStatus::Done(g),
            None => SnapshotStatus::Idle,
        };
    }

    /// Records how a snapshot ended, and tells the watchers.
    pub fn record_snapshot(&mut self, status: SnapshotStatus)
        ensures
            final(self).same_config(old(self)),
            final(self).spec_commit_failed() == old(self).spec_commit_failed(),
            final(self).spec_flush_requested() == old(self).spec_flush_requested(),
            final(self).spec_page_size() == old(self).spec_page_size(),
            final(self).spec_snapshot_status() == status,
            final(self).spec_next_frame_no() == old(self).spec_next_frame_no(),
            final(self).spec_last_sent_frame_no() == old(self).spec_last_sent_frame_no(),
            final(self).spec_last_committed_frame_no() == old(self).spec_last_committed_frame_no(),
            final(self).spec_generation() == old(self).spec_generation(),
            final(self).same_batches(old(self)),
    {
        proof {
            use_type_invariant(&*self);
        }
        self.snapshot_status = status;
    }

    /// What someone who waits for the snapshot of the active generation is
    /// told. `db_file_len` is the length of the database file, zero where
    /// there is none: an empty database needs no snapshot, and the watchers
    /// are told so.
    pub fn wait_until_snapshotted(&mut self, db_file_len: u64) -> (progress: SnapshotProgress)
        ensures
            final(self).same_config(old(self)),
            final(self).spec_commit_failed() == old(self).spec_commit_failed(),
            final(self).spec_flush_requested() == old(self).spec_flush_requested(),
            final(self).spec_page_size() == old(self).spec_page_size(),
            progress == spec_snapshot_progress(
                old(self).spec_generation(),
                old(self).spec_snapshot_status(),
                db_file_len,
            ),
            final(self).spec_snapshot_status() == if old(self).spec_generation() is Some
                && db_file_len == 0 {
                SnapshotStatus::Done(old(self).spec_generation().unwrap())
            } else {
                old(self).spec_snapshot_status()
            },
            final(self).spec_next_frame_no() == old(self).spec_next_frame_no(),
            final(self).spec_last_sent_frame_no() == old(self).spec_last_sent_frame_no(),
            final(self).spec_last_committed_frame_no() == old(self).spec_last_committed_frame_no(),
            final(self).spec_generation() == old(self).spec_generation(),
            final(self).same_batches(old(self)),
    {
        proof {
            use_type_invariant(&*self);
        }
        let generation: Generation = match self.generation {
            Some(g) => g,
            None => {
                return SnapshotProgress::NotNeeded;
            },
        };
        if db_file_len == 0 {
            self.snapshot_status = SnapshotStatus::Done(generation);
            return SnapshotProgress::NotNeeded;
        }
        match self.snapshot_status {
            SnapshotStatus::Done(g) => {
                if g == generation {
                    SnapshotProgress::Snapshotted
                } else {
                    SnapshotProgress::Pending
                }
            },
            SnapshotStatus::Idle => SnapshotProgress::Pending,
            SnapshotStatus::Failed => SnapshotProgress::Failed,
        }
    }

    /// Whether a snapshot is to be taken now. None is taken of an empty
    /// database, and none before the snapshot interval has passed since the
    /// generation `last_snapshot` of the last snapshot was made. Where none
    /// is taken the watchers are told that the active generation is done.
    pub fn snapshot(&mut self, db_file_len: u64, last_snapshot: Option<Generation>, now_millis: u64) -> (take: Result<
        bool,
        GenerationNotSet,
    >)
        ensures
            final(self).same_config(old(self)),
            final(self).spec_commit_failed() == old(self).spec_commit_failed(),
            final(self).spec_flush_requested() == old(self).spec_flush_requested(),
            final(self).spec_page_size() == old(self).spec_page_size(),
            match take {
                Err(_) => old(self).spec_generation().is_none() && final(self).spec_snapshot_status()
                    == old(self).spec_snapshot_status(),
                Ok(take) => {
                    &&& old(self).spec_generation() is Some
                    &&& take == (db_file_len > 0 && spec_snapshot_interval_passed(
                        old(self).spec_snapshot_interval(),
                        last_snapshot,
                        now_millis,
                    ))
                    &&& final(self).spec_snapshot_status() == if take {
                        old(self).spec_snapshot_status()
                    } else {
                        SnapshotStatus::Done(old(self).spec_generation().unwrap())
                    }
                },
            },
            final(self).spec_next_frame_no() == old(self).spec_next_frame_no(),
            final(self).spec_last_sent_frame_no() == old(self).spec_last_sent_frame_no(),
            final(self).spec_last_committed_frame_no() == old(self).spec_last_committed_frame_no(),
            final(self).spec_generation() == old(self).spec_generation(),
            final(self).same_batches(old(self)),
    {
        proof {
            use_type_invariant(&*self);
        }
        let generation: Generation = match self.generation {
            Some(g) => g,
            None => {
                return Err(GenerationNotSet);
            },
        };
        if db_file_len == 0 || !snapshot_interval_passed(
            self.snapshot_interval,
            last_snapshot,
            now_millis,
        ) {
            self.snapshot_status = SnapshotStatus::Done(generation);
            return Ok(false);
        }
        Ok(true)
    }
}

/// What setting the page size to `requested` comes to, where it is
/// `current`: the page size that is set from then on, or the conflict.
pub open spec fn spec_set_page_size(current: usize, requested: usize) -> Result<
    usize,
    PageSizeConflict,
> {
    if current != Replicator::UNSET_PAGE_SIZE && current != requested {
        Err(PageSizeConflict { requested, current })
    } else {
        Ok(requested)
    }
}

/// Page-size pinning: once a page size is set, setting another one is
/// refused, and the page size stays as it is.
pub proof fn lemma_page_size_pinned(a: usize, b: usize)
    requires
        a != b,
        a != Replicator::UNSET_PAGE_SIZE,
    ensures
        spec_set_page_size(Replicator::UNSET_PAGE_SIZE, a) == Ok::<usize, PageSizeConflict>(a),
        spec_set_page_size(a, b) == Err::<usize, PageSizeConflict>(
            PageSizeConflict { requested: b, current: a },
        ),
        spec_set_page_size(a, a) == Ok::<usize, PageSizeConflict>(a),
{
}

/// Counter monotonicity: a report of stored frames never takes the watchers
/// of commits back, and never tells them of frames that were not sent.
pub proof fn lemma_commit_monotonic(committed: u32, sent: u32, reported: u32)
    requires
        committed <= sent,
    ensures
        committed <= spec_committed_after(committed, sent, reported) <= sent,
        reported <= sent ==> spec_committed_after(committed, sent, reported) >= reported,
{
}

/// What the watchers of commits are told after a report that the frames up
/// to `reported` are stored: the report, cut down to what was sent, unless
/// they were told of a later frame before.
pub open spec fn spec_committed_after(committed: u32, sent: u32, reported: u32) -> u32 {
    let reached = if reported < sent {
        reported
    } else {
        sent
    };
    if reached > committed {
        reached
    } else {
        committed
    }
}

/// What someone who waits for a snapshot is told.
pub open spec fn spec_snapshot_progress(
    generation: Option<Generation>,
    status: SnapshotStatus,
    db_file_len: u64,
) -> SnapshotProgress {
    if generation.is_none() || db_file_len == 0 {
        SnapshotProgress::NotNeeded
    } else {
        match status {
            SnapshotStatus::Done(g) => if g == generation.unwrap() {
                SnapshotProgress::Snapshotted
            } else {
                SnapshotProgress::Pending
            },
            SnapshotStatus::Idle => SnapshotProgress::Pending,
            SnapshotStatus::Failed => SnapshotProgress::Failed,
        }
    }
}

/// Whether enough time has passed since the last snapshot: there is no
/// interval to keep, or no last snapshot with a creation time, or the time of
/// the last snapshot and the interval lie at or before `now_millis`.
pub open spec fn spec_snapshot_interval_passed(
    interval_secs: Option<u64>,
    last_snapshot: Option<Generation>,
    now_millis: u64,
) -> bool {
    match (interval_secs, last_snapshot) {
        (Some(interval), Some(g)) => match g.spec_timestamp_millis() {
            Some(taken) => taken + interval * 1000 <= now_millis,
            None => true,
        },
        _ => true,
    }
}

/// Whether enough time has passed since the last snapshot for the next one.
pub fn snapshot_interval_passed(
    interval_secs: Option<u64>,
    last_snapshot: Option<Generation>,
    now_millis: u64,
) -> (passed: bool)
    ensures
        passed == spec_snapshot_interval_passed(interval_secs, last_snapshot, now_millis),
{
    let interval: u64 = match interval_secs {
        Some(i) => i,
        None => {
            return true;
        },
    };
    let taken: u64 = match last_snapshot {
        Some(g) => match g.timestamp_millis() {
            Some(t) => t,
            None => {
                return true;
            },
        },
        None => {
            return true;
        },
    };
    taken as u128 + interval as u128 * 1000 <= now_millis as u128
}

/// The dependency to store when a generation follows another: the new
/// generation depends on the one before it, unless there was none or it is
/// the same.
pub fn dependency_to_store(previous: Option<Generation>, current: Generation) -> (parent: Option<
    Generation,
>)
    ensures
        parent == match previous {
            Some(p) => if p != current {
                Some(p)
            } else {
                None
            },
            None => None,
        },
{
    match previous {
        Some(p) => if p.id != current.id {
            Some(p)
        } else {
            None
        },
        None => None,
    }
}

} // verus!
