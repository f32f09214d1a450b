//! The replay of batches onto a restored database: which batches of a
//! generation are applied, and what each of their frames does.
//!
//! Batches are taken in the order of their keys. A batch is applied where it
//! starts at the frame after the last one applied, does not reach beyond the
//! last consistent frame, and was not written after the time to restore to.
//! The pages of a transaction are gathered until the frame that commits it;
//! only then are they handed out to be written into the database file.

use vstd::prelude::*;
use crate::keys::{spec_parse_segment_key, WalSegmentSummary};
use crate::page_cache::{spec_writes_hold, CacheError, PageWrite, TransactionPageCache};
use crate::restore::RestoreError;
use crate::wal::{
    spec_frame_checksum, spec_frame_header, ChecksumMismatch, WalFrameHeader,
    WAL_FRAME_HEADER_SIZE,
};

verus! {

/// A reader of the frames of a batch whose body is at hand, uncompressed.
#[derive(Debug)]
pub struct BatchReader {
    content: Vec<u8>,
    pos: usize,
    next_frame_no: u32,
    page_size: usize,
}

/// A batch ended inside a frame: in its header, or where its page was due.
#[derive(Debug, Clone, Copy, PartialEq, Eq, Structural)]
pub struct UnexpectedEof;

impl BatchReader {
    /// The body of the batch.
    pub closed spec fn spec_content(&self) -> Seq<u8> {
        self.content@
    }

    /// How far the body was read.
    pub closed spec fn spec_pos(&self) -> int {
        self.pos as int
    }

    /// Number of the frame that is read next.
    pub closed spec fn spec_next_frame_no(&self) -> u32 {
        self.next_frame_no
    }

    /// Size of the pages in the batch.
    pub closed spec fn spec_page_size(&self) -> usize {
        self.page_size
    }

    /// A reader never stands beyond the end of the body.
    #[verifier::type_invariant]
    pub closed spec fn inv(&self) -> bool {
        self.pos <= self.content@.len()
    }

    /// A reader at the start of `content`, the uncompressed body of a batch
    /// whose first frame has the number `init_frame_no`.
    pub fn new(init_frame_no: u32, content: Vec<u8>, page_size: usize) -> (reader: BatchReader)
        ensures
            reader.spec_content() == content@,
            reader.spec_pos() == 0,
            reader.spec_next_frame_no() == init_frame_no,
            reader.spec_page_size() == page_size,
    {
        BatchReader { content, pos: 0, next_frame_no: init_frame_no, page_size }
    }

    /// Number of the frame that is read next.
    pub fn next_frame_no(&self) -> (n: u32)
        ensures
            n == self.spec_next_frame_no(),
    {
        self.next_frame_no
    }

    /// Reads the header of the next frame, without its page. There is none
    /// at the clean end of the batch, where no byte is left. A batch that ends
    /// inside a header has not ended cleanly: that is an error, and nothing is
    /// read.
    pub fn next_frame_header(&mut self) -> (header: Result<Option<WalFrameHeader>, UnexpectedEof>)
        ensures
            final(self).spec_content() == old(self).spec_content(),
            final(self).spec_next_frame_no() == old(self).spec_next_frame_no(),
            final(self).spec_page_size() == old(self).spec_page_size(),
            0 <= old(self).spec_pos() <= old(self).spec_content().len(),
            match header {
                Ok(Some(h)) => {
                    &&& old(self).spec_pos() + WAL_FRAME_HEADER_SIZE <= old(self).spec_content().len()
                    &&& h == spec_frame_header(
                        old(self).spec_content().subrange(
                            old(self).spec_pos(),
                            old(self).spec_pos() + WAL_FRAME_HEADER_SIZE,
                        ),
                    )
                    &&& final(self).spec_pos() == old(self).spec_pos() + WAL_FRAME_HEADER_SIZE
                },
                Ok(None) => {
                    &&& old(self).spec_pos() == old(self).spec_content().len()
                    &&& final(self).spec_pos() == old(self).spec_pos()
                },
                Err(_) => {
                    &&& old(self).spec_pos() < old(self).spec_content().len()
                    &&& old(self).spec_content().len() < old(self).spec_pos()
                        + WAL_FRAME_HEADER_SIZE
                    &&& final(self).spec_pos() == old(self).spec_pos()
                },
            },
    {
        proof {
            use_type_invariant(&*self);
        }
        if self.content.len() == self.pos {
            return Ok(None);
        }
        if self.content.len() - self.pos < 24 {
            return Err(UnexpectedEof);
        }
        let mut bytes: Vec<u8> = Vec::new();
        let from: usize = self.pos;
        let total: usize = self.content.len();
        let mut i: usize = 0;
        while i < 24
            invariant
                i <= 24,
                total == self.content@.len(),
                from + 24 <= total,
                bytes@ == self.content@.subrange(from as int, from + i),
            decreases 24 - i,
        {
            bytes.push(self.content[from + i]);
            assert(self.content@.subrange(from as int, from + i + 1) =~= self.content@.subrange(
                from as int,
                from + i,
            ).push(self.content@[from + i]));
            i += 1;
        }
        let header: Option<WalFrameHeader> = WalFrameHeader::parse(bytes.as_slice());
        self.pos = from + 24;
        Ok(header)
    }

    /// Reads the page of the frame whose header was read last into
    /// `page_buf`, which then holds exactly one page. Where fewer bytes are
    /// left than a page has, nothing is read. The number of the next frame
    /// goes up by one, as far as frame numbers go.
    pub fn next_page(&mut self, page_buf: &mut Vec<u8>) -> (read: Result<(), UnexpectedEof>)
        ensures
            final(self).spec_content() == old(self).spec_content(),
            final(self).spec_page_size() == old(self).spec_page_size(),
            0 <= old(self).spec_pos() <= old(self).spec_content().len(),
            match read {
                Ok(()) => {
                    &&& old(self).spec_pos() + old(self).spec_page_size() <= old(
                        self,
                    ).spec_content().len()
                    &&& final(page_buf)@ == old(self).spec_content().subrange(
                        old(self).spec_pos(),
                        old(self).spec_pos() + old(self).spec_page_size(),
                    )
                    &&& final(self).spec_pos() == old(self).spec_pos() + old(self).spec_page_size()
                    &&& final(self).spec_next_frame_no() == if old(self).spec_next_frame_no()
                        < u32::MAX {
                        (old(self).spec_next_frame_no() + 1) as u32
                    } else {
                        u32::MAX
                    }
                },
                Err(_) => {
                    &&& old(self).spec_pos() + old(self).spec_page_size() > old(
                        self,
                    ).spec_content().len()
                    &&& final(page_buf)@ == old(page_buf)@
                    &&& final(self).spec_pos() == old(self).spec_pos()
                    &&& final(self).spec_next_frame_no() == old(self).spec_next_frame_no()
                },
            },
    {
        proof {
            use_type_invariant(&*self);
        }
        if self.content.len() - self.pos < self.page_size {
            return Err(UnexpectedEof);
        }
        page_buf.clear();
        let from: usize = self.pos;
        let n: usize = self.page_size;
        let total: usize = self.content.len();
        let mut i: usize = 0;
        while i < n
            invariant
                i <= n,
                total == self.content@.len(),
                from + n <= total,
                page_buf@ == self.content@.subrange(from as int, from + i),
            decreases n - i,
        {
            page_buf.push(self.content[from + i]);
            assert(self.content@.subrange(from as int, from + i + 1) =~= self.content@.subrange(
                from as int,
                from + i,
            ).push(self.content@[from + i]));
            i += 1;
        }
        self.pos = from + n;
        if self.next_frame_no < u32::MAX {
            self.next_frame_no = self.next_frame_no + 1;
        }
        Ok(())
    }
}

/// Why the replay of a generation ends before its last batch.
#[derive(Debug, Clone, Copy, PartialEq, Eq, Structural)]
pub enum StopReason {
    /// The batch does not start at the frame after the last one applied:
    /// frames are missing.
    Gap,
    /// The batch reaches beyond the last consistent frame.
    BeyondConsistentFrame,
    /// The batch was written after the time to restore to.
    TooRecent,
}

/// What is done with an object of a generation during the replay.
#[derive(Debug, Clone, Copy, PartialEq, Eq, Structural)]
pub enum BatchDecision {
    /// The object is no batch: go on with the next key.
    Skip,
    /// The replay of the generation ends here.
    Stop(StopReason),
    /// The batch is fetched and its frames are applied.
    Apply(WalSegmentSummary),
}

/// What the caller is to do after a frame was applied.
#[derive(Debug)]
pub struct FrameEffect {
    /// Where in the spill file the caller is to write the page of the frame;
    /// nowhere where the page is kept in memory.
    pub spill_at: Option<u64>,
    /// The pages to write into the database file, where the frame commits a
    /// transaction. Once they are written the spill file is started over.
    pub flush: Option<Vec<PageWrite>>,
}

/// What a replay has come to, as far as the database is concerned.
pub struct ReplayModel {
    /// The checksum that the next frame has to continue.
    pub checksum: u64,
    /// Number of the last frame that was applied.
    pub last_received_frame_no: u32,
    /// Time of the batch that held the last committed transaction.
    pub last_applied_timestamp: Option<u64>,
    /// Time of the batch whose frames are applied.
    pub batch_timestamp: u64,
    /// The pages of the transaction that is not committed yet.
    pub pending: Map<u32, Seq<u8>>,
    /// The pages that were handed out to be written, each with the bytes
    /// that were handed out last.
    pub committed: Map<u32, Seq<u8>>,
}

/// What is done with the object under `key`.
pub open spec fn spec_offer(
    key: Seq<u8>,
    last_received_frame_no: u32,
    last_consistent_frame: Option<u32>,
    utc_time: Option<u64>,
) -> BatchDecision {
    match spec_parse_segment_key(key) {
        None => BatchDecision::Skip,
        Some(s) => if s.first_frame_no != last_received_frame_no + 1 {
            BatchDecision::Stop(StopReason::Gap)
        } else if last_consistent_frame is Some && s.last_frame_no
            > last_consistent_frame.unwrap() {
            BatchDecision::Stop(StopReason::BeyondConsistentFrame)
        } else if utc_time is Some && s.timestamp > utc_time.unwrap() {
            BatchDecision::Stop(StopReason::TooRecent)
        } else {
            BatchDecision::Apply(s)
        },
    }
}

/// Why a frame is refused, where it is: its number cannot be counted, its
/// checksum does not continue the chain, or its page is none that the
/// database can hold.
pub open spec fn spec_frame_refusal(
    m: ReplayModel,
    verify_crc: bool,
    page_size: u32,
    header: WalFrameHeader,
    page: Seq<u8>,
) -> Option<RestoreError> {
    let frame_no = (m.last_received_frame_no + 1) as u32;
    if m.last_received_frame_no == u32::MAX {
        Some(RestoreError::FrameNumberOverflow)
    } else if verify_crc && spec_frame_checksum(m.checksum, header, page) != header.crc {
        Some(
            RestoreError::ChecksumMismatch {
                frame_no,
                mismatch: ChecksumMismatch {
                    pgno: header.pgno,
                    expected: header.crc,
                    computed: spec_frame_checksum(m.checksum, header, page),
                },
            },
        )
    } else if header.pgno == 0 {
        Some(RestoreError::InvalidFrame { frame_no, reason: CacheError::InvalidPageNumber })
    } else if page.len() != page_size {
        Some(RestoreError::InvalidFrame { frame_no, reason: CacheError::PageSizeMismatch })
    } else {
        None
    }
}

/// What a frame that is not refused does: its page joins the pages of the
/// open transaction, and where the frame commits, those pages become part of
/// the database.
pub open spec fn spec_frame_applied(
    m: ReplayModel,
    verify_crc: bool,
    header: WalFrameHeader,
    page: Seq<u8>,
) -> ReplayModel {
    let pending = m.pending.insert(header.pgno, page);
    ReplayModel {
        checksum: if verify_crc {
            header.crc
        } else {
            m.checksum
        },
        last_received_frame_no: (m.last_received_frame_no + 1) as u32,
        last_applied_timestamp: if header.spec_is_committed() {
            Some(m.batch_timestamp)
        } else {
            m.last_applied_timestamp
        },
        batch_timestamp: m.batch_timestamp,
        pending: if header.spec_is_committed() {
            Map::<u32, Seq<u8>>::empty()
        } else {
            pending
        },
        committed: if header.spec_is_committed() {
            m.committed.union_prefer_right(pending)
        } else {
            m.committed
        },
    }
}

/// Whether `applied` is what comes of applying a frame to a replay that has
/// come to `before`, with `spill` in its spill file, and leaves the replay at
/// `after`, with `spill_after` in its spill file.
///
/// A frame that is not refused is applied. Its page is kept in memory where
/// `keeps_in_memory` says so, and spilled at the end of the spill file
/// otherwise; where the frame commits, every page of the transaction is
/// handed out. A frame that is refused changes nothing; the error is the
/// refusal, or, for a page that is to be spilled, that the spill file cannot
/// grow.
pub open spec fn spec_frame_outcome(
    before: ReplayModel,
    verify_crc: bool,
    page_size: u32,
    spill: Seq<u8>,
    keeps_in_memory: bool,
    header: WalFrameHeader,
    page: Seq<u8>,
    applied: Result<FrameEffect, RestoreError>,
    after: ReplayModel,
    spill_after: Seq<u8>,
) -> bool {
    match applied {
        Ok(effect) => {
            &&& spec_frame_refusal(before, verify_crc, page_size, header, page) is None
            &&& after == spec_frame_applied(before, verify_crc, header, page)
            &&& match effect.spill_at {
                Some(offset) => !keeps_in_memory && offset == spill.len() && spill.len()
                    + page.len() <= u64::MAX,
                None => keeps_in_memory,
            }
            &&& match effect.flush {
                Some(writes) => {
                    &&& header.spec_is_committed()
                    &&& spec_writes_hold(
                        writes@,
                        before.pending.insert(header.pgno, page),
                        if effect.spill_at is Some {
                            spill + page
                        } else {
                            spill
                        },
                        page_size,
                    )
                    &&& spill_after == Seq::<u8>::empty()
                },
                None => {
                    &&& !header.spec_is_committed()
                    &&& spill_after == if effect.spill_at is Some {
                        spill + page
                    } else {
                        spill
                    }
                },
            }
        },
        Err(e) => {
            &&& after == before
            &&& spill_after == spill
            &&& match spec_frame_refusal(before, verify_crc, page_size, header, page) {
                Some(refusal) => e == refusal,
                None => e == (RestoreError::InvalidFrame {
                    frame_no: (before.last_received_frame_no + 1) as u32,
                    reason: CacheError::SpillOverflow,
                }) && !keeps_in_memory && spill.len() + page.len() > u64::MAX,
            }
        },
    }
}

/// The replay of the batches of one generation.
pub struct WalReplay {
    page_size: u32,
    verify_crc: bool,
    checksum: u64,
    last_consistent_frame: Option<u32>,
    utc_time: Option<u64>,
    last_received_frame_no: u32,
    last_applied_timestamp: Option<u64>,
    batch_timestamp: u64,
    pending: TransactionPageCache,
    committed: Ghost<Map<u32, Seq<u8>>>,
}

impl WalReplay {
    /// What the replay has come to.
    pub closed spec fn model(&self) -> ReplayModel {
        ReplayModel {
            checksum: self.checksum,
            last_received_frame_no: self.last_received_frame_no,
            last_applied_timestamp: self.last_applied_timestamp,
            batch_timestamp: self.batch_timestamp,
            pending: self.pending.pages(),
            committed: self.committed@,
        }
    }

    /// Size of the pages of the generation.
    pub closed spec fn spec_page_size(&self) -> u32 {
        self.page_size
    }

    /// Whether the checksums of frames are verified.
    pub closed spec fn spec_verify_crc(&self) -> bool {
        self.verify_crc
    }

    /// The frame beyond which no batch is applied, where there is one.
    pub closed spec fn spec_last_consistent_frame(&self) -> Option<u32> {
        self.last_consistent_frame
    }

    /// The time after which no batch is applied, where there is one.
    pub closed spec fn spec_utc_time(&self) -> Option<u64> {
        self.utc_time
    }

    /// What the spill file holds, where the caller wrote what it was told.
    pub closed spec fn spec_spill(&self) -> Seq<u8> {
        self.pending.spec_spill()
    }

    /// Number of pages of a transaction that are kept in memory.
    pub closed spec fn spec_swap_after(&self) -> u32 {
        self.pending.spec_swap_after()
    }

    /// Number of pages of the open transaction.
    pub closed spec fn spec_pending_len(&self) -> nat {
        self.pending.spec_len()
    }

    /// Whether the open transaction holds page `pgno` in memory.
    pub closed spec fn spec_in_memory(&self, pgno: u32) -> bool {
        self.pending.spec_in_memory(pgno)
    }

    /// Whether the page `pgno` is kept in memory when it comes next: the
    /// open transaction holds it in memory already, or does not hold it and
    /// holds fewer pages than are kept in memory.
    pub open spec fn spec_keeps_in_memory(&self, pgno: u32) -> bool {
        if self.model().pending.contains_key(pgno) {
            self.spec_in_memory(pgno)
        } else {
            self.spec_pending_len() < self.spec_swap_after()
        }
    }

    /// Whether `after` holds the pages of the open transaction where a
    /// replay that was at `self` holds them after a frame with page `pgno`
    /// was applied, whose page was kept in memory or not, and which committed
    /// the transaction or not.
    pub open spec fn placed(&self, after: &WalReplay, pgno: u32, in_memory: bool, committed: bool) -> bool {
        if committed {
            &&& after.spec_pending_len() == 0
            &&& forall|p: u32| !#[trigger] after.spec_in_memory(p)
        } else {
            &&& after.spec_pending_len() == if self.model().pending.contains_key(pgno) {
                self.spec_pending_len()
            } else {
                self.spec_pending_len() + 1
            }
            &&& forall|p: u32|
                #[trigger] after.spec_in_memory(p) == if p == pgno {
                    in_memory
                } else {
                    self.spec_in_memory(p)
                }
        }
    }

    /// Whether `after` holds the pages of the open transaction as `self`
    /// does.
    pub open spec fn same_placement(&self, after: &WalReplay) -> bool {
        &&& after.spec_pending_len() == self.spec_pending_len()
        &&& forall|p: u32| #[trigger] after.spec_in_memory(p) == self.spec_in_memory(p)
    }

    /// The replay is in order: its cache is, and holds pages of its size.
    pub closed spec fn wf(&self) -> bool {
        &&& self.pending.wf()
        &&& self.pending.spec_page_size() == self.page_size
    }

    /// Every page of the open transaction has a number from 1 on and is one
    /// page long.
    pub proof fn lemma_pending_pages_are_whole(&self)
        requires
            self.wf(),
        ensures
            forall|p: u32| #[trigger]
                self.model().pending.contains_key(p) ==> p >= 1 && self.model().pending[p].len()
                    == self.spec_page_size(),
    {
        self.pending.lemma_pages_are_whole();
    }

    /// What stays as it is while frames are applied.
    pub open spec fn same_bounds(&self, other: &WalReplay) -> bool {
        &&& self.spec_page_size() == other.spec_page_size()
        &&& self.spec_verify_crc() == other.spec_verify_crc()
        &&& self.spec_last_consistent_frame() == other.spec_last_consistent_frame()
        &&& self.spec_utc_time() == other.spec_utc_time()
        &&& self.spec_swap_after() == other.spec_swap_after()
    }

    /// A replay of a generation with pages of `page_size` bytes, whose frame
    /// checksums are chained from `checksum`. The replay keeps
    /// `swap_after_pages` pages of a transaction in memory; it does not go
    /// beyond `last_consistent_frame` nor beyond batches written at
    /// `utc_time`, where these are given.
    pub fn new(
        page_size: u32,
        swap_after_pages: u32,
        verify_crc: bool,
        checksum: u64,
        last_consistent_frame: Option<u32>,
        utc_time: Option<u64>,
    ) -> (replay: WalReplay)
        ensures
            replay.wf(),
            replay.spec_page_size() == page_size,
            replay.spec_verify_crc() == verify_crc,
            replay.spec_last_consistent_frame() == last_consistent_frame,
            replay.spec_utc_time() == utc_time,
            replay.spec_swap_after() == swap_after_pages,
            replay.spec_pending_len() == 0,
            forall|p: u32| !#[trigger] replay.spec_in_memory(p),
            replay.spec_spill() == Seq::<u8>::empty(),
            replay.model() == (ReplayModel {
                checksum,
                last_received_frame_no: 0,
                last_applied_timestamp: None,
                batch_timestamp: 0,
                pending: Map::<u32, Seq<u8>>::empty(),
                committed: Map::<u32, Seq<u8>>::empty(),
            }),
    {
        WalReplay {
            page_size,
            verify_crc,
            checksum,
            last_consistent_frame,
            utc_time,
            last_received_frame_no: 0,
            last_applied_timestamp: None,
            batch_timestamp: 0,
            pending: TransactionPageCache::new(swap_after_pages, page_size),
            committed: Ghost(Map::<u32, Seq<u8>>::empty()),
        }
    }

    /// Number of the last frame that was applied.
    pub fn last_received_frame_no(&self) -> (n: u32)
        ensures
            n == self.model().last_received_frame_no,
    {
        self.last_received_frame_no
    }

    /// The checksum that the next frame has to continue.
    pub fn checksum(&self) -> (sum: u64)
        ensures
            sum == self.model().checksum,
    {
        self.checksum
    }

    /// Time of the batch that held the last transaction that was committed,
    /// where one was: the replay changed the database if and only if there
    /// is such a time.
    pub fn last_applied_timestamp(&self) -> (at: Option<u64>)
        ensures
            at == self.model().last_applied_timestamp,
    {
        self.last_applied_timestamp
    }

    /// Decides what is done with the object under `key`, the next in the
    /// listing of the generation. Where the decision is to apply the batch,
    /// the frames that follow count as its frames.
    pub fn offer(&mut self, key: &[u8]) -> (decision: BatchDecision)
        requires
            old(self).wf(),
        ensures
            final(self).wf(),
            final(self).same_bounds(old(self)),
            final(self).spec_spill() == old(self).spec_spill(),
            old(self).same_placement(final(self)),
            decision == spec_offer(
                key@,
                old(self).model().last_received_frame_no,
                old(self).spec_last_consistent_frame(),
                old(self).spec_utc_time(),
            ),
            final(self).model() == (ReplayModel {
                batch_timestamp: match decision {
                    BatchDecision::Apply(s) => s.timestamp,
                    _ => old(self).model().batch_timestamp,
                },
                ..old(self).model()
            }),
    {
        let summary: WalSegmentSummary = match WalSegmentSummary::parse(key) {
            Some(s) => s,
            None => {
                return BatchDecision::Skip;
            },
        };
        if summary.first_frame_no as u64 != self.last_received_frame_no as u64 + 1 {
            return BatchDecision::Stop(StopReason::Gap);
        }
        match self.last_consistent_frame {
            Some(frame) => {
                if summary.last_frame_no > frame {
                    return BatchDecision::Stop(StopReason::BeyondConsistentFrame);
                }
            },
            None => {},
        }
        match self.utc_time {
            Some(threshold) => {
                if summary.timestamp > threshold {
                    return BatchDecision::Stop(StopReason::TooRecent);
                }
            },
            None => {},
        }
        self.batch_timestamp = summary.timestamp;
        BatchDecision::Apply(summary)
    }

    /// Applies the next frame of the batch. The frame is checked against the
    /// checksum chain, where checksums are verified, and its page joins the
    /// pages of the open transaction. Where the frame commits the
    /// transaction, its pages are handed out to be written into the database
    /// file. A frame that is refused changes nothing: what was committed
    /// before stays as it is, and no page of the open transaction is handed
    /// out.
    pub fn apply_frame(&mut self, header: &WalFrameHeader, page: &[u8]) -> (applied: Result<
        FrameEffect,
        RestoreError,
    >)
        requires
            old(self).wf(),
        ensures
            final(self).wf(),
            final(self).same_bounds(old(self)),
            spec_frame_outcome(
                old(self).model(),
                old(self).spec_verify_crc(),
                old(self).spec_page_size(),
                old(self).spec_spill(),
                old(self).spec_keeps_in_memory(header.pgno),
                *header,
                page@,
                applied,
                final(self).model(),
                final(self).spec_spill(),
            ),
            match applied {
                Ok(effect) => old(self).placed(
                    final(self),
                    header.pgno,
                    effect.spill_at is None,
                    header.spec_is_committed(),
                ),
                Err(_) => old(self).same_placement(final(self)),
            },
    {
        if self.last_received_frame_no == u32::MAX {
            return Err(RestoreError::FrameNumberOverflow);
        }
        let frame_no: u32 = self.last_received_frame_no + 1;
        let checksum: u64 = if self.verify_crc {
            match header.verify(self.checksum, page) {
                Ok(sum) => sum,
                Err(mismatch) => {
                    return Err(RestoreError::ChecksumMismatch { frame_no, mismatch });
                },
            }
        } else {
            self.checksum
        };
        let spill_at: Option<u64> = match self.pending.insert(header.pgno, page) {
            Ok(at) => at,
            Err(reason) => {
                return Err(RestoreError::InvalidFrame { frame_no, reason });
            },
        };
        let flush: Option<Vec<PageWrite>> = if header.is_committed() {
            let ghost pages = self.pending.pages();
            let writes: Vec<PageWrite> = self.pending.flush();
            proof {
                self.committed@ = self.committed@.union_prefer_right(pages);
            }
            self.last_applied_timestamp = Some(self.batch_timestamp);
            Some(writes)
        } else {
            None
        };
        self.checksum = checksum;
        self.last_received_frame_no = frame_no;
        Ok(FrameEffect { spill_at, flush })
    }

    /// Reads the next frame of a batch and applies it. At the clean end of
    /// the batch, where no byte is left, there is no frame, and nothing
    /// happens. A batch that ends inside a frame, in its header or in its
    /// page, ends the restore; a frame that is read is applied as
    /// `apply_frame` says, and its page is left in `page_buf` for the caller
    /// to spill.
    pub fn apply_next(&mut self, reader: &mut BatchReader, page_buf: &mut Vec<u8>) -> (applied:
        Result<Option<FrameEffect>, RestoreError>)
        requires
            old(self).wf(),
        ensures
            final(self).wf(),
            final(self).same_bounds(old(self)),
            final(reader).spec_content() == old(reader).spec_content(),
            final(reader).spec_page_size() == old(reader).spec_page_size(),
            0 <= old(reader).spec_pos() <= old(reader).spec_content().len(),
            match applied {
                Ok(Some(effect)) => old(self).placed(
                    final(self),
                    spec_header_at(old(reader).spec_content(), old(reader).spec_pos()).pgno,
                    effect.spill_at is None,
                    spec_header_at(
                        old(reader).spec_content(),
                        old(reader).spec_pos(),
                    ).spec_is_committed(),
                ),
                _ => old(self).same_placement(final(self)),
            },
            applied matches Ok(None) <==> old(reader).spec_pos() == old(reader).spec_content().len(),
            old(reader).spec_pos() == old(reader).spec_content().len() ==> {
                &&& final(self).model() == old(self).model()
                &&& final(self).spec_spill() == old(self).spec_spill()
                &&& final(reader).spec_pos() == old(reader).spec_pos()
            },
            old(reader).spec_pos() < old(reader).spec_content().len() && old(reader).spec_pos()
                + WAL_FRAME_HEADER_SIZE + old(reader).spec_page_size() > old(
                reader,
            ).spec_content().len() ==> {
                &&& applied == Err::<Option<FrameEffect>, RestoreError>(
                    RestoreError::TruncatedBatch {
                        frame_no: if old(self).model().last_received_frame_no < u32::MAX {
                            (old(self).model().last_received_frame_no + 1) as u32
                        } else {
                            u32::MAX
                        },
                    },
                )
                &&& final(self).model() == old(self).model()
                &&& final(self).spec_spill() == old(self).spec_spill()
                &&& final(reader).spec_pos() == if old(reader).spec_pos() + WAL_FRAME_HEADER_SIZE
                    > old(reader).spec_content().len() {
                    old(reader).spec_pos()
                } else {
                    old(reader).spec_pos() + WAL_FRAME_HEADER_SIZE
                }
            },
            old(reader).spec_pos() + WAL_FRAME_HEADER_SIZE + old(reader).spec_page_size() <= old(
                reader,
            ).spec_content().len() ==> {
                &&& final(reader).spec_pos() == old(reader).spec_pos() + WAL_FRAME_HEADER_SIZE
                    + old(reader).spec_page_size()
                &&& final(page_buf)@ == spec_page_at(
                    old(reader).spec_content(),
                    old(reader).spec_pos(),
                    old(reader).spec_page_size(),
                )
                &&& match applied {
                    Ok(None) => false,
                    Ok(Some(effect)) => spec_frame_outcome(
                        old(self).model(),
                        old(self).spec_verify_crc(),
                        old(self).spec_page_size(),
                        old(self).spec_spill(),
                        old(self).spec_keeps_in_memory(
                            spec_header_at(old(reader).spec_content(), old(reader).spec_pos()).pgno,
                        ),
                        spec_header_at(old(reader).spec_content(), old(reader).spec_pos()),
                        final(page_buf)@,
                        Ok::<FrameEffect, RestoreError>(effect),
                        final(self).model(),
                        final(self).spec_spill(),
                    ),
                    Err(e) => spec_frame_outcome(
                        old(self).model(),
                        old(self).spec_verify_crc(),
                        old(self).spec_page_size(),
                        old(self).spec_spill(),
                        old(self).spec_keeps_in_memory(
                            spec_header_at(old(reader).spec_content(), old(reader).spec_pos()).pgno,
                        ),
                        spec_header_at(old(reader).spec_content(), old(reader).spec_pos()),
                        final(page_buf)@,
                        Err::<FrameEffect, RestoreError>(e),
                        final(self).model(),
                        final(self).spec_spill(),
                    ),
                }
            },
    {
        let frame_no: u32 = if self.last_received_frame_no < u32::MAX {
            self.last_received_frame_no + 1
        } else {
            u32::MAX
        };
        let header: WalFrameHeader = match reader.next_frame_header() {
            Ok(Some(h)) => h,
            Ok(None) => {
                return Ok(None);
            },
            Err(_) => {
                return Err(RestoreError::TruncatedBatch { frame_no });
            },
        };
        if reader.next_page(page_buf).is_err() {
            return Err(RestoreError::TruncatedBatch { frame_no });
        }
        match self.apply_frame(&header, page_buf.as_slice()) {
            Ok(effect) => Ok(Some(effect)),
            Err(e) => Err(e),
        }
    }
}

/// The header of the frame that starts at `pos` in the body of a batch.
pub open spec fn spec_header_at(content: Seq<u8>, pos: int) -> WalFrameHeader {
    spec_frame_header(content.subrange(pos, pos + WAL_FRAME_HEADER_SIZE))
}

/// The page of the frame that starts at `pos` in the body of a batch.
pub open spec fn spec_page_at(content: Seq<u8>, pos: int, page_size: usize) -> Seq<u8> {
    content.subrange(pos + WAL_FRAME_HEADER_SIZE, pos + WAL_FRAME_HEADER_SIZE + page_size)
}

} // verus!
