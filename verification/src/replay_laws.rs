//! What holds of a replay as a whole: it can be cut into batches anywhere,
//! a damaged frame stops it before anything of the frame's transaction is
//! written, a batch body gives back the frames that it was made of, and a
//! restore that is run again changes nothing.

use vstd::prelude::*;
use crate::integrity::{lemma_damaged_header_is_refused, lemma_damaged_page_is_refused};
use crate::generation::Generation;
use crate::key_laws::lemma_batch_key_round_trip;
use crate::keys::{spec_generation_object_key, spec_segment_name, WalSegmentSummary};
use crate::replay::{
    spec_frame_applied, spec_frame_refusal, spec_header_at, spec_offer, spec_page_at,
    BatchDecision, ReplayModel,
};
use crate::restore::RestoreError;
use crate::wal::{
    lemma_frame_header_round_trip, spec_frame_checksum, spec_frame_header,
    spec_frame_header_bytes, ChecksumMismatch, WalFrameHeader, WAL_FRAME_HEADER_SIZE,
};

verus! {

/// What a replay comes to after the frames `frames`, each a header and its
/// page: the frames are applied in turn, and the first frame that is refused
/// ends the replay with its error.
pub open spec fn spec_replay(
    m: ReplayModel,
    verify_crc: bool,
    page_size: u32,
    frames: Seq<(WalFrameHeader, Seq<u8>)>,
) -> Result<ReplayModel, RestoreError>
    decreases frames.len(),
{
    if frames.len() == 0 {
        Ok(m)
    } else {
        match spec_replay(m, verify_crc, page_size, frames.drop_last()) {
            Err(e) => Err(e),
            Ok(before) => match spec_frame_refusal(
                before,
                verify_crc,
                page_size,
                frames.last().0,
                frames.last().1,
            ) {
                Some(e) => Err(e),
                None => Ok(
                    spec_frame_applied(before, verify_crc, frames.last().0, frames.last().1),
                ),
            },
        }
    }
}

/// The database after a restore: what it held before, with every page that
/// the replay handed out in place of what was there.
pub open spec fn spec_restored(db: Map<u32, Seq<u8>>, m: ReplayModel) -> Map<u32, Seq<u8>> {
    db.union_prefer_right(m.committed)
}

/// The bytes of a batch that holds the frames `frames`: each header, then its
/// page, in turn.
pub open spec fn spec_batch_body(frames: Seq<(WalFrameHeader, Seq<u8>)>) -> Seq<u8>
    decreases frames.len(),
{
    if frames.len() == 0 {
        Seq::<u8>::empty()
    } else {
        spec_batch_body(frames.drop_last()) + spec_frame_header_bytes(frames.last().0)
            + frames.last().1
    }
}

/// Restore identity, for the cut into batches: frames that are replayed batch
/// by batch come to what they come to when they are replayed in one go,
/// wherever the batches are cut.
pub proof fn lemma_replay_in_parts(
    m: ReplayModel,
    verify_crc: bool,
    page_size: u32,
    a: Seq<(WalFrameHeader, Seq<u8>)>,
    b: Seq<(WalFrameHeader, Seq<u8>)>,
)
    ensures
        spec_replay(m, verify_crc, page_size, a + b) == match spec_replay(
            m,
            verify_crc,
            page_size,
            a,
        ) {
            Err(e) => Err::<ReplayModel, RestoreError>(e),
            Ok(mid) => spec_replay(mid, verify_crc, page_size, b),
        },
    decreases b.len(),
{
    if b.len() == 0 {
        assert(a + b =~= a);
    } else {
        assert((a + b).drop_last() =~= a + b.drop_last());
        assert((a + b).last() == b.last());
        lemma_replay_in_parts(m, verify_crc, page_size, a, b.drop_last());
    }
}

/// Restore identity, for the batch body: in the body of a batch whose pages
/// are all of the page size, each frame stands at its place, and its header
/// reads back as it was written.
pub proof fn lemma_batch_body_holds_frames(
    frames: Seq<(WalFrameHeader, Seq<u8>)>,
    page_size: nat,
    i: int,
)
    requires
        forall|k: int| 0 <= k < frames.len() ==> (#[trigger] frames[k]).1.len() == page_size,
        0 <= i < frames.len(),
    ensures
        spec_batch_body(frames).len() == frames.len() * (WAL_FRAME_HEADER_SIZE + page_size),
        spec_frame_header(
            spec_batch_body(frames).subrange(
                i * (WAL_FRAME_HEADER_SIZE + page_size),
                i * (WAL_FRAME_HEADER_SIZE + page_size) + WAL_FRAME_HEADER_SIZE,
            ),
        ) == frames[i].0,
        spec_batch_body(frames).subrange(
            i * (WAL_FRAME_HEADER_SIZE + page_size) + WAL_FRAME_HEADER_SIZE,
            (i + 1) * (WAL_FRAME_HEADER_SIZE + page_size),
        ) == frames[i].1,
    decreases frames.len(),
{
    let fs = (WAL_FRAME_HEADER_SIZE + page_size) as int;
    let n = frames.len() as int;
    let rest = frames.drop_last();
    let head = spec_frame_header_bytes(frames.last().0);
    let page = frames.last().1;
    let body = spec_batch_body(frames);
    lemma_batch_body_len(rest, page_size);
    lemma_frame_header_round_trip(frames.last().0);
    assert(n * fs == (n - 1) * fs + fs) by (nonlinear_arith);
    assert((i + 1) * fs == i * fs + fs) by (nonlinear_arith);
    assert(body.len() == n * fs);
    if i == n - 1 {
        assert(body.subrange(i * fs, i * fs + 24) =~= head);
        assert(body.subrange(i * fs + 24, (i + 1) * fs) =~= page);
    } else {
        assert forall|k: int| 0 <= k < rest.len() implies (#[trigger] rest[k]).1.len()
            == page_size by {
            assert(rest[k] == frames[k]);
        }
        lemma_batch_body_holds_frames(rest, page_size, i);
        assert((i + 1) * fs <= (n - 1) * fs) by (nonlinear_arith)
            requires
                i + 1 <= n - 1,
                fs >= 0,
        ;
        assert(0 <= i * fs) by (nonlinear_arith)
            requires
                0 <= i,
                fs >= 0,
        ;
        assert(body.subrange(i * fs, i * fs + 24) =~= spec_batch_body(rest).subrange(
            i * fs,
            i * fs + 24,
        ));
        assert(body.subrange(i * fs + 24, (i + 1) * fs) =~= spec_batch_body(rest).subrange(
            i * fs + 24,
            (i + 1) * fs,
        ));
        assert(rest[i] == frames[i]);
    }
}

/// The body of a batch is as long as its frames are.
pub proof fn lemma_batch_body_len(frames: Seq<(WalFrameHeader, Seq<u8>)>, page_size: nat)
    requires
        forall|k: int| 0 <= k < frames.len() ==> (#[trigger] frames[k]).1.len() == page_size,
    ensures
        spec_batch_body(frames).len() == frames.len() * (WAL_FRAME_HEADER_SIZE + page_size),
    decreases frames.len(),
{
    let fs = (WAL_FRAME_HEADER_SIZE + page_size) as int;
    let n = frames.len() as int;
    if n > 0 {
        let rest = frames.drop_last();
        assert forall|k: int| 0 <= k < rest.len() implies (#[trigger] rest[k]).1.len()
            == page_size by {
            assert(rest[k] == frames[k]);
        }
        lemma_batch_body_len(rest, page_size);
        lemma_frame_header_round_trip(frames.last().0);
        assert(n * fs == (n - 1) * fs + fs) by (nonlinear_arith);
    } else {
        assert(0 * fs == 0) by (nonlinear_arith);
    }
}

/// Checksum rejection, in the replay: where checksums are verified, a frame
/// that would be applied is refused once a byte of its page is changed, or
/// its page number, its size after commit or its checksum words. The replay
/// ends at that frame with a checksum mismatch; by the contract of
/// `apply_frame` nothing of the replay changes, so that what was committed
/// before stays as it is.
pub proof fn lemma_damaged_frame_is_refused(
    m: ReplayModel,
    page_size: u32,
    header: WalFrameHeader,
    page: Seq<u8>,
    damaged_header: WalFrameHeader,
    damaged_page: Seq<u8>,
)
    requires
        spec_frame_refusal(m, true, page_size, header, page) is None,
        page_size % 8 == 0,
        ({
            ||| (damaged_header == header && exists|at: int, byte: u8|
                0 <= at < page.len() && byte != page[at] && damaged_page == page.update(at, byte))
            ||| (damaged_page == page && damaged_header.crc == header.crc && (damaged_header.pgno
                != header.pgno || damaged_header.size_after != header.size_after))
            ||| (damaged_page == page && damaged_header.pgno == header.pgno
                && damaged_header.size_after == header.size_after && damaged_header.crc
                != header.crc)
        }),
    ensures
        spec_frame_refusal(m, true, page_size, damaged_header, damaged_page) == Some(
            RestoreError::ChecksumMismatch {
                frame_no: (m.last_received_frame_no + 1) as u32,
                mismatch: ChecksumMismatch {
                    pgno: damaged_header.pgno,
                    expected: damaged_header.crc,
                    computed: spec_frame_checksum(m.checksum, damaged_header, damaged_page),
                },
            },
        ),
{
    if damaged_header == header && damaged_page != page {
        let (at, byte) = choose|at: int, byte: u8|
            0 <= at < page.len() && byte != page[at] && damaged_page == page.update(at, byte);
        lemma_damaged_page_is_refused(m.checksum, header, page, at, byte);
    } else {
        lemma_damaged_header_is_refused(m.checksum, header, damaged_header, page);
    }
}

/// Idempotent recovery: a database that was restored is left as it is by the
/// same restore run again, whether or not the second run starts from the
/// snapshot.
pub proof fn lemma_restore_idempotent(db: Map<u32, Seq<u8>>, m: ReplayModel)
    ensures
        spec_restored(spec_restored(db, m), m) == spec_restored(db, m),
{
    assert(spec_restored(spec_restored(db, m), m) =~= spec_restored(db, m));
}

/// A replay only adds to what is committed: every page that was handed out
/// before a frame is still part of the database after it, unless the frame
/// commits a newer version of the page.
pub proof fn lemma_committed_grows(
    m: ReplayModel,
    verify_crc: bool,
    header: WalFrameHeader,
    page: Seq<u8>,
    p: u32,
)
    requires
        m.committed.contains_key(p),
    ensures
        spec_frame_applied(m, verify_crc, header, page).committed.contains_key(p),
        !header.spec_is_committed() ==> spec_frame_applied(m, verify_crc, header, page).committed
            == m.committed,
{
}

/// The frames that a batch body holds, read as the batch reader reads them:
/// one after the other, each a header and a page of the page size.
pub open spec fn spec_frames_in(body: Seq<u8>, page_size: u32) -> Seq<(WalFrameHeader, Seq<u8>)> {
    Seq::new(
        (body.len() / (WAL_FRAME_HEADER_SIZE + page_size) as nat) as nat,
        |k: int|
            (
                spec_header_at(body, k * (WAL_FRAME_HEADER_SIZE + page_size)),
                spec_page_at(body, k * (WAL_FRAME_HEADER_SIZE + page_size), page_size as usize),
            ),
    )
}

/// The bodies of the batches that hold the frames of `parts`, batch by batch.
pub open spec fn spec_bodies_of(parts: Seq<Seq<(WalFrameHeader, Seq<u8>)>>) -> Seq<Seq<u8>> {
    Seq::new(parts.len(), |i: int| spec_batch_body(parts[i]))
}

/// The frames of `parts`, one batch after the other.
pub open spec fn spec_all_frames(parts: Seq<Seq<(WalFrameHeader, Seq<u8>)>>) -> Seq<
    (WalFrameHeader, Seq<u8>),
>
    decreases parts.len(),
{
    if parts.len() == 0 {
        Seq::<(WalFrameHeader, Seq<u8>)>::empty()
    } else {
        spec_all_frames(parts.drop_last()) + parts.last()
    }
}

/// What a replay comes to after the batches with the bodies `bodies`, in
/// turn: the frames of each body are read and applied, and the first frame
/// that is refused ends the replay.
pub open spec fn spec_replay_batches(
    m: ReplayModel,
    verify_crc: bool,
    page_size: u32,
    bodies: Seq<Seq<u8>>,
) -> Result<ReplayModel, RestoreError>
    decreases bodies.len(),
{
    if bodies.len() == 0 {
        Ok(m)
    } else {
        match spec_replay_batches(m, verify_crc, page_size, bodies.drop_last()) {
            Err(e) => Err(e),
            Ok(before) => spec_replay(
                before,
                verify_crc,
                page_size,
                spec_frames_in(bodies.last(), page_size),
            ),
        }
    }
}

/// A replay as it begins: no frame was applied, and the checksums are chained
/// from `checksum`.
pub open spec fn spec_replay_start(checksum: u64) -> ReplayModel {
    ReplayModel {
        checksum,
        last_received_frame_no: 0,
        last_applied_timestamp: None,
        batch_timestamp: 0,
        pending: Map::<u32, Seq<u8>>::empty(),
        committed: Map::<u32, Seq<u8>>::empty(),
    }
}

/// The pages of a database after the restore of a generation onto `db`, the
/// pages of its snapshot, from the batches with the bodies `bodies`; or the
/// error that ends the restore.
pub open spec fn spec_restore(
    db: Map<u32, Seq<u8>>,
    checksum: u64,
    verify_crc: bool,
    page_size: u32,
    bodies: Seq<Seq<u8>>,
) -> Result<Map<u32, Seq<u8>>, RestoreError> {
    match spec_replay_batches(spec_replay_start(checksum), verify_crc, page_size, bodies) {
        Ok(m) => Ok(spec_restored(db, m)),
        Err(e) => Err(e),
    }
}

/// The body of a batch gives back the frames that it was made of.
pub proof fn lemma_frames_in_body(frames: Seq<(WalFrameHeader, Seq<u8>)>, page_size: u32)
    requires
        forall|k: int| 0 <= k < frames.len() ==> (#[trigger] frames[k]).1.len() == page_size,
    ensures
        spec_frames_in(spec_batch_body(frames), page_size) == frames,
{
    let body = spec_batch_body(frames);
    let fs = (WAL_FRAME_HEADER_SIZE + page_size) as int;
    let n = frames.len() as int;
    lemma_batch_body_len(frames, page_size as nat);
    assert((n * fs) / fs == n) by (nonlinear_arith)
        requires
            fs > 0,
            n >= 0,
    ;
    let read = spec_frames_in(body, page_size);
    assert(read.len() == n);
    assert forall|k: int| 0 <= k < n implies read[k] == frames[k] by {
        lemma_batch_body_holds_frames(frames, page_size as nat, k);
        assert((k + 1) * fs == k * fs + fs) by (nonlinear_arith);
    }
    assert(read =~= frames);
}

/// Restore identity, for the replay: frames that were cut into batches
/// anywhere, stored as the bodies of the batches, and read back and replayed
/// batch by batch, come to what they come to when they are applied directly,
/// one after the other. The same frames are accepted, the same one is
/// refused, and the same pages are committed, in the same order.
pub proof fn lemma_replay_of_batches(
    m: ReplayModel,
    verify_crc: bool,
    page_size: u32,
    parts: Seq<Seq<(WalFrameHeader, Seq<u8>)>>,
)
    requires
        forall|i: int, k: int|
            0 <= i < parts.len() && 0 <= k < parts[i].len() ==> (#[trigger] parts[i][k]).1.len()
                == page_size,
    ensures
        spec_replay_batches(m, verify_crc, page_size, spec_bodies_of(parts)) == spec_replay(
            m,
            verify_crc,
            page_size,
            spec_all_frames(parts),
        ),
    decreases parts.len(),
{
    if parts.len() > 0 {
        let rest = parts.drop_last();
        let last = parts.last();
        assert forall|i: int, k: int| 0 <= i < rest.len() && 0 <= k < rest[i].len() implies (
        #[trigger] rest[i][k]).1.len() == page_size by {
            assert(rest[i] == parts[i]);
        }
        lemma_replay_of_batches(m, verify_crc, page_size, rest);
        assert(spec_bodies_of(parts).drop_last() =~= spec_bodies_of(rest));
        assert(spec_bodies_of(parts).last() == spec_batch_body(last));
        assert forall|k: int| 0 <= k < last.len() implies (#[trigger] last[k]).1.len()
            == page_size by {
            assert(last[k] == parts[parts.len() - 1][k]);
        }
        lemma_frames_in_body(last, page_size);
        lemma_replay_in_parts(m, verify_crc, page_size, spec_all_frames(rest), last);
    }
}

/// Restore identity: the restore of a generation onto its snapshot, from
/// batches that hold the frames of its transactions, cut anywhere, leaves
/// the database that the snapshot and the transactions, applied directly,
/// come to. Every page that a transaction committed holds the bytes that
/// were committed last; every other page is as the snapshot has it.
pub proof fn lemma_restore_identity(
    db: Map<u32, Seq<u8>>,
    checksum: u64,
    verify_crc: bool,
    page_size: u32,
    parts: Seq<Seq<(WalFrameHeader, Seq<u8>)>>,
)
    requires
        forall|i: int, k: int|
            0 <= i < parts.len() && 0 <= k < parts[i].len() ==> (#[trigger] parts[i][k]).1.len()
                == page_size,
    ensures
        spec_restore(db, checksum, verify_crc, page_size, spec_bodies_of(parts)) == match spec_replay(
            spec_replay_start(checksum),
            verify_crc,
            page_size,
            spec_all_frames(parts),
        ) {
            Ok(m) => Ok::<Map<u32, Seq<u8>>, RestoreError>(db.union_prefer_right(m.committed)),
            Err(e) => Err::<Map<u32, Seq<u8>>, RestoreError>(e),
        },
{
    lemma_replay_of_batches(spec_replay_start(checksum), verify_crc, page_size, parts);
}

/// Idempotent recovery, for the whole restore: where the restore of a
/// generation has left a database, the same restore, run again from the same
/// batches onto that database, ends as the first one did and leaves the
/// database as it is.
pub proof fn lemma_restore_again(
    db: Map<u32, Seq<u8>>,
    checksum: u64,
    verify_crc: bool,
    page_size: u32,
    bodies: Seq<Seq<u8>>,
)
    ensures
        match spec_restore(db, checksum, verify_crc, page_size, bodies) {
            Ok(restored) => spec_restore(restored, checksum, verify_crc, page_size, bodies) == Ok::<
                Map<u32, Seq<u8>>,
                RestoreError,
            >(restored),
            Err(e) => forall|other: Map<u32, Seq<u8>>|
                #[trigger] spec_restore(other, checksum, verify_crc, page_size, bodies) == Err::<
                    Map<u32, Seq<u8>>,
                    RestoreError,
                >(e),
        },
{
    match spec_replay_batches(spec_replay_start(checksum), verify_crc, page_size, bodies) {
        Ok(m) => {
            lemma_restore_idempotent(db, m);
        },
        Err(_) => {},
    }
}

/// A replay counts the frames that it applies: after a run of frames that
/// were all applied, the last frame applied is as many frames further.
pub proof fn lemma_replay_counts_frames(
    m: ReplayModel,
    verify_crc: bool,
    page_size: u32,
    frames: Seq<(WalFrameHeader, Seq<u8>)>,
)
    requires
        spec_replay(m, verify_crc, page_size, frames) is Ok,
    ensures
        spec_replay(m, verify_crc, page_size, frames).unwrap().last_received_frame_no
            == m.last_received_frame_no + frames.len(),
        spec_replay(m, verify_crc, page_size, frames).unwrap().batch_timestamp == m.batch_timestamp,
    decreases frames.len(),
{
    if frames.len() > 0 {
        lemma_replay_counts_frames(m, verify_crc, page_size, frames.drop_last());
    }
}

/// A replay that applied a committing frame knows so: it holds the time of a
/// batch with a committed transaction, and the restore ends with a database
/// that is to be snapshotted.
pub proof fn lemma_commit_is_noted(
    m: ReplayModel,
    verify_crc: bool,
    page_size: u32,
    frames: Seq<(WalFrameHeader, Seq<u8>)>,
    k: int,
)
    requires
        spec_replay(m, verify_crc, page_size, frames) is Ok,
        0 <= k < frames.len(),
        frames[k].0.spec_is_committed(),
    ensures
        spec_replay(m, verify_crc, page_size, frames).unwrap().last_applied_timestamp is Some,
    decreases frames.len(),
{
    if k < frames.len() - 1 {
        lemma_commit_is_noted(m, verify_crc, page_size, frames.drop_last(), k);
    }
}

/// A replay without a committing frame notes no commit that was not noted
/// before: frames of a transaction that is still open change no page of the
/// database.
pub proof fn lemma_open_transaction_changes_nothing(
    m: ReplayModel,
    verify_crc: bool,
    page_size: u32,
    frames: Seq<(WalFrameHeader, Seq<u8>)>,
)
    requires
        spec_replay(m, verify_crc, page_size, frames) is Ok,
        forall|k: int| 0 <= k < frames.len() ==> !(#[trigger] frames[k]).0.spec_is_committed(),
    ensures
        spec_replay(m, verify_crc, page_size, frames).unwrap().committed == m.committed,
        spec_replay(m, verify_crc, page_size, frames).unwrap().last_applied_timestamp
            == m.last_applied_timestamp,
    decreases frames.len(),
{
    if frames.len() > 0 {
        let rest = frames.drop_last();
        assert forall|k: int| 0 <= k < rest.len() implies !(#[trigger] rest[k]).0.spec_is_committed() by {
            assert(rest[k] == frames[k]);
        }
        lemma_open_transaction_changes_nothing(m, verify_crc, page_size, rest);
        assert(!frames[frames.len() - 1].0.spec_is_committed());
    }
}

/// A batch that follows the last frame applied is applied: the object that is
/// stored under the key of a batch is taken for that batch, where the batch
/// starts at the frame after the last one applied and lies within the frame
/// and the time that the replay is held to.
pub proof fn lemma_next_batch_is_applied(
    db_name: Seq<u8>,
    generation: Generation,
    s: WalSegmentSummary,
    last_received_frame_no: u32,
    last_consistent_frame: Option<u32>,
    utc_time: Option<u64>,
)
    requires
        s.first_frame_no == last_received_frame_no + 1,
        last_consistent_frame is Some ==> s.last_frame_no <= last_consistent_frame.unwrap(),
        utc_time is Some ==> s.timestamp <= utc_time.unwrap(),
    ensures
        spec_offer(
            spec_generation_object_key(db_name, generation, spec_segment_name(s)),
            last_received_frame_no,
            last_consistent_frame,
            utc_time,
        ) == BatchDecision::Apply(s),
{
    lemma_batch_key_round_trip(db_name, generation, s);
}

} // verus!
