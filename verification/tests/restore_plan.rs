use bottomless::compression::CompressionKind;
use bottomless::generation::Generation;
use bottomless::keys::{batch_key, meta_key, snapshot_key, WalSegmentSummary};
use bottomless::page_cache::{CacheError, PageSource, PageWrite, TransactionPageCache};
use bottomless::replay::{
    BatchDecision, BatchReader, FrameEffect, StopReason, UnexpectedEof, WalReplay,
};
use bottomless::restore::{
    check_tombstone, last_consistent_frame, latest_generation_before, nothing_to_restore,
    restore_outcome, walk_chain, ChainWalk, RestoreAction, RestoreError, StackStep,
    MAX_RESTORE_STACK_DEPTH,
};
use bottomless::batch::split_batches;
use bottomless::replicator::FrameRange;
use bottomless::wal::WalFrameHeader;

const PAGE: u32 = 64;

fn page(fill: u8) -> Vec<u8> {
    (0..PAGE).map(|i| fill.wrapping_add(i as u8)).collect()
}

fn summary(first: u32, last: u32, timestamp: u64) -> WalSegmentSummary {
    WalSegmentSummary {
        first_frame_no: first,
        last_frame_no: last,
        timestamp,
        compression_kind: CompressionKind::Raw,
    }
}

/// A database file and a spill file in memory, written as the library says.
struct Files {
    db: Vec<u8>,
    spill: Vec<u8>,
}

impl Files {
    fn new() -> Files {
        Files { db: Vec::new(), spill: Vec::new() }
    }

    fn spill_at(&mut self, offset: Option<u64>, page: &[u8]) {
        if let Some(offset) = offset {
            let end = offset as usize + page.len();
            if self.spill.len() < end {
                self.spill.resize(end, 0);
            }
            self.spill[offset as usize..end].copy_from_slice(page);
        }
    }

    fn write(&mut self, writes: Vec<PageWrite>) {
        for w in writes {
            let bytes = match w.source {
                PageSource::Memory(b) => b,
                PageSource::Spill { offset } => {
                    self.spill[offset as usize..offset as usize + PAGE as usize].to_vec()
                }
            };
            let end = w.db_offset as usize + bytes.len();
            if self.db.len() < end {
                self.db.resize(end, 0);
            }
            self.db[w.db_offset as usize..end].copy_from_slice(&bytes);
        }
        self.spill.clear();
    }

    fn apply(&mut self, effect: FrameEffect, page: &[u8]) {
        self.spill_at(effect.spill_at, page);
        if let Some(writes) = effect.flush {
            self.write(writes);
        }
    }

    fn page(&self, pgno: u32) -> &[u8] {
        let at = (pgno as usize - 1) * PAGE as usize;
        &self.db[at..at + PAGE as usize]
    }
}

/// Frames whose checksums are chained from `seed`: page number, fill of the
/// page, and size after commit.
fn frames(seed: u64, spec: &[(u32, u8, u32)]) -> Vec<(WalFrameHeader, Vec<u8>)> {
    let mut crc = seed;
    let mut out = Vec::new();
    for &(pgno, fill, size_after) in spec {
        let p = page(fill);
        let h = WalFrameHeader::seal(pgno, size_after, 0x5a5a, crc, &p);
        crc = h.crc;
        out.push((h, p));
    }
    out
}

fn body(frames: &[(WalFrameHeader, Vec<u8>)]) -> Vec<u8> {
    let mut out = Vec::new();
    for (h, p) in frames {
        out.extend(h.to_bytes());
        out.extend(p);
    }
    out
}

#[test]
fn tombstone_blocks_restore() {
    let t0_secs: i64 = 1_700_000_000;
    let g = Generation::new(t0_secs as u64 * 1000);
    assert_eq!(
        check_tombstone(Some(t0_secs + 1), g),
        Err(RestoreError::Tombstoned { generation: g, tombstone: t0_secs + 1 })
    );
}

#[test]
fn tombstone_at_and_around_the_generation() {
    let g = Generation::new(1_700_000_000_500);
    assert_eq!(check_tombstone(None, g), Ok(()));
    assert_eq!(check_tombstone(Some(1_700_000_000), g), Ok(()));
    assert!(check_tombstone(Some(1_700_000_001), g).is_err());
    let on_the_second = Generation::new(1_700_000_000_000);
    assert!(check_tombstone(Some(1_700_000_000), on_the_second).is_err());
    assert_eq!(check_tombstone(Some(1_699_999_999), on_the_second), Ok(()));
    assert_eq!(check_tombstone(Some(-5), on_the_second), Ok(()));
    assert_eq!(check_tombstone(Some(i64::MIN), on_the_second), Ok(()));
    assert!(check_tombstone(Some(i64::MAX), on_the_second).is_err());
}

#[test]
fn tombstone_leaves_generations_without_time_alone() {
    let g = Generation::from_u128(5);
    assert_eq!(check_tombstone(Some(i64::MAX), g), Ok(()));
}

#[test]
fn latest_generation_is_the_first_listed() {
    let newer = Generation::new(1_700_000_002_000);
    let older = Generation::new(1_700_000_001_000);
    let keys = vec![
        b"mydb.tombstone".to_vec(),
        meta_key(b"mydb", &newer),
        batch_key(b"mydb", &newer, &summary(1, 3, 5)),
        snapshot_key(b"mydb", &older, CompressionKind::Gzip),
    ];
    assert_eq!(latest_generation_before(b"mydb", &keys, None), Some(newer));
    assert_eq!(latest_generation_before(b"mydb", &keys, Some(1_700_000_002_000)), Some(newer));
    assert_eq!(latest_generation_before(b"mydb", &keys, Some(1_700_000_001_999)), Some(older));
    assert_eq!(latest_generation_before(b"mydb", &keys, Some(1_700_000_001_000)), Some(older));
    assert_eq!(latest_generation_before(b"mydb", &keys, Some(1_700_000_000_999)), None);
    assert_eq!(latest_generation_before(b"mydb", &Vec::new(), None), None);
    assert_eq!(latest_generation_before(b"mydb", &vec![b"mydb-x/.meta".to_vec()], None), None);
}

#[test]
fn last_consistent_frame_is_the_greatest_last_frame() {
    let g = Generation::from_u128(1);
    let keys = vec![
        meta_key(b"db", &g),
        batch_key(b"db", &g, &summary(1, 3, 5)),
        batch_key(b"db", &g, &summary(4, 9, 5)),
        batch_key(b"db", &g, &summary(10, 7, 5)),
        snapshot_key(b"db", &g, CompressionKind::Gzip),
    ];
    assert_eq!(last_consistent_frame(&keys), 9);
    assert_eq!(last_consistent_frame(&vec![meta_key(b"db", &g)]), 0);
    assert_eq!(last_consistent_frame(&Vec::new()), 0);
}

#[test]
fn cross_generation_chain() {
    let g1 = Generation::new(1_700_000_000_000);
    let g2 = Generation::new(1_700_000_001_000);
    let mut stack = walk_chain(&vec![(g2, false), (g1, true)]).unwrap();
    assert_eq!(stack.len(), 2);
    assert_eq!(stack.pop(5), Some((g1, None)));
    stack.record_replay(Some(1_700_000_000_500));
    assert_eq!(stack.pop(5), Some((g2, Some(5))));
    stack.record_replay(Some(1_700_000_001_500));
    assert_eq!(stack.pop(5), None);
    assert_eq!(stack.outcome(g2), (RestoreAction::SnapshotMainDbFile, true));
}

#[test]
fn chain_walk_step_by_step() {
    let g1 = Generation::from_u128(1);
    let g2 = Generation::from_u128(2);
    let mut walk = ChainWalk::begin(g2);
    assert_eq!(walk.snapshot_missing(), Ok(g2));
    assert_eq!(walk.parent_found(Some(g1)), StackStep::TrySnapshot(g1));
    assert_eq!(walk.snapshot_missing(), Ok(g1));
    assert_eq!(walk.parent_found(None), StackStep::Replay);
    let mut stack = walk.into_stack();
    assert_eq!(stack.len(), 2);
    assert_eq!(stack.pop(0), Some((g1, None)));
    stack.record_replay(None);
    assert_eq!(stack.pop(0), Some((g2, Some(0))));
    stack.record_replay(None);
    assert_eq!(stack.outcome(g2), (RestoreAction::ReuseGeneration(g2), true));
}

fn chain(len: usize, snapshot_at: Option<usize>) -> Vec<(Generation, bool)> {
    (0..len).map(|i| (Generation::from_u128(i as u128 + 1), Some(i) == snapshot_at)).collect()
}

#[test]
fn walk_fails_after_a_hundred_and_one_generations() {
    let mut walk = ChainWalk::begin(Generation::from_u128(0));
    for i in 1..=100u128 {
        assert!(walk.snapshot_missing().is_ok());
        walk.parent_found(Some(Generation::from_u128(i)));
    }
    assert_eq!(walk.snapshot_missing(), Err(RestoreError::RestoreDepthExceeded));
    assert_eq!(walk.into_stack().len(), 101);
}

#[test]
fn chain_deeper_than_the_bound_fails() {
    assert_eq!(MAX_RESTORE_STACK_DEPTH, 100);
    assert_eq!(walk_chain(&chain(101, None)).err(), Some(RestoreError::RestoreDepthExceeded));
    assert_eq!(walk_chain(&chain(500, None)).err(), Some(RestoreError::RestoreDepthExceeded));
    assert_eq!(
        walk_chain(&chain(500, Some(101))).err(),
        Some(RestoreError::RestoreDepthExceeded)
    );
}

#[test]
fn chain_with_a_snapshot_within_the_bound_succeeds() {
    assert_eq!(walk_chain(&chain(500, Some(100))).unwrap().len(), 101);
    assert_eq!(walk_chain(&chain(500, Some(99))).unwrap().len(), 100);
    assert_eq!(walk_chain(&chain(500, Some(0))).unwrap().len(), 1);
    assert_eq!(walk_chain(&chain(101, Some(100))).unwrap().len(), 101);
}

#[test]
fn chain_that_ends_without_a_snapshot_is_replayed_from_its_root() {
    assert_eq!(walk_chain(&chain(100, None)).unwrap().len(), 100);
    assert_eq!(walk_chain(&chain(1, None)).unwrap().len(), 1);
    assert_eq!(walk_chain(&chain(0, None)).unwrap().len(), 0);
}

#[test]
fn one_applied_transaction_asks_for_a_snapshot() {
    let g = Generation::from_u128(4);
    let mut stack = walk_chain(&chain(3, Some(2))).unwrap();
    assert_eq!(stack.outcome(g), (RestoreAction::ReuseGeneration(g), true));
    assert_eq!(stack.pop(u32::MAX).unwrap().1, None);
    stack.record_replay(Some(7));
    assert_eq!(stack.pop(u32::MAX).unwrap().1, None);
    stack.record_replay(None);
    assert_eq!(stack.pop(u32::MAX).unwrap().1, Some(u32::MAX));
    stack.record_replay(None);
    assert_eq!(stack.outcome(g), (RestoreAction::SnapshotMainDbFile, true));
}

#[test]
fn restore_outcomes() {
    let g = Generation::from_u128(4);
    assert_eq!(restore_outcome(g, false), (RestoreAction::ReuseGeneration(g), true));
    assert_eq!(restore_outcome(g, true), (RestoreAction::SnapshotMainDbFile, true));
    assert_eq!(nothing_to_restore(), (RestoreAction::SnapshotMainDbFile, false));
}

#[test]
fn spill_cache() {
    let mut cache = TransactionPageCache::new(2, PAGE);
    let mut files = Files::new();
    for pgno in 1..=5u32 {
        let p = page(pgno as u8 * 10);
        let at = cache.insert(pgno, &p).unwrap();
        assert_eq!(at.is_some(), pgno > 2);
        files.spill_at(at, &p);
    }
    assert_eq!(cache.len(), 5);
    assert_eq!(cache.spill_len(), 3 * PAGE as u64);
    assert_eq!(files.spill.len(), 3 * PAGE as usize);
    let writes = cache.flush();
    assert_eq!(writes.len(), 5);
    files.write(writes);
    assert_eq!(files.db.len(), 5 * PAGE as usize);
    for pgno in 1..=5u32 {
        assert_eq!(files.page(pgno), &page(pgno as u8 * 10)[..]);
    }
    assert!(cache.is_empty());
    assert_eq!(cache.spill_len(), 0);
}

#[test]
fn cache_keeps_the_last_bytes_of_a_page() {
    let mut cache = TransactionPageCache::new(1, PAGE);
    let mut files = Files::new();
    let steps: [(u32, u8); 6] = [(3, 1), (9, 2), (3, 3), (9, 4), (9, 5), (1, 6)];
    for (pgno, fill) in steps {
        let p = page(fill);
        let at = cache.insert(pgno, &p).unwrap();
        files.spill_at(at, &p);
    }
    assert_eq!(cache.len(), 3);
    assert_eq!(cache.page_size(), PAGE);
    // Page 9 was spilled three times and page 1 once: the file is a log.
    assert_eq!(cache.spill_len(), 4 * PAGE as u64);
    let writes = cache.flush();
    let mut offsets: Vec<(u32, u64)> = writes.iter().map(|w| (w.pgno, w.db_offset)).collect();
    offsets.sort();
    assert_eq!(offsets, vec![(1, 0), (3, 2 * PAGE as u64), (9, 8 * PAGE as u64)]);
    files.write(writes);
    assert_eq!(files.page(3), &page(3)[..]);
    assert_eq!(files.page(9), &page(5)[..]);
    assert_eq!(files.page(1), &page(6)[..]);
}

#[test]
fn cache_refuses_what_it_cannot_hold() {
    let mut cache = TransactionPageCache::new(2, PAGE);
    assert_eq!(cache.insert(0, &page(1)), Err(CacheError::InvalidPageNumber));
    assert_eq!(cache.insert(1, &page(1)[1..]), Err(CacheError::PageSizeMismatch));
    assert_eq!(cache.insert(0, &[]), Err(CacheError::InvalidPageNumber));
    assert!(cache.is_empty());
    assert_eq!(cache.insert(u32::MAX, &page(1)), Ok(None));
    let writes = cache.flush();
    assert_eq!(writes[0].db_offset, (u32::MAX as u64 - 1) * PAGE as u64);
}

#[test]
fn cache_without_memory_spills_everything() {
    let mut cache = TransactionPageCache::new(0, PAGE);
    assert_eq!(cache.insert(7, &page(1)), Ok(Some(0)));
    assert_eq!(cache.insert(7, &page(2)), Ok(Some(PAGE as u64)));
    assert_eq!(cache.insert(8, &page(3)), Ok(Some(2 * PAGE as u64)));
    assert_eq!(cache.len(), 2);
}

#[test]
fn batch_reader_reads_frames_in_turn() {
    let fs = frames(0, &[(1, 10, 0), (2, 20, 2)]);
    let mut reader = BatchReader::new(4, body(&fs), PAGE as usize);
    let mut buf = Vec::new();
    assert_eq!(reader.next_frame_no(), 4);
    assert_eq!(reader.next_frame_header(), Ok(Some(fs[0].0)));
    assert_eq!(reader.next_page(&mut buf), Ok(()));
    assert_eq!(buf, fs[0].1);
    assert_eq!(reader.next_frame_no(), 5);
    assert_eq!(reader.next_frame_header(), Ok(Some(fs[1].0)));
    assert_eq!(reader.next_page(&mut buf), Ok(()));
    assert_eq!(buf, fs[1].1);
    assert_eq!(reader.next_frame_no(), 6);
    assert_eq!(reader.next_frame_header(), Ok(None));
    assert_eq!(reader.next_frame_header(), Ok(None));
}

#[test]
fn batch_reader_at_the_end_of_a_cut_batch() {
    let fs = frames(0, &[(1, 10, 1)]);
    let mut cut = body(&fs);
    cut.truncate(24 + 10);
    let mut reader = BatchReader::new(1, cut, PAGE as usize);
    let mut buf = vec![9u8; 3];
    assert_eq!(reader.next_frame_header(), Ok(Some(fs[0].0)));
    assert_eq!(reader.next_page(&mut buf), Err(UnexpectedEof));
    assert_eq!(buf, vec![9u8; 3]);
    assert_eq!(reader.next_frame_no(), 1);
    let mut empty = BatchReader::new(1, Vec::new(), PAGE as usize);
    assert_eq!(empty.next_frame_header(), Ok(None));
}

#[test]
fn batch_reader_inside_a_cut_header() {
    for left in [1usize, 12, 23] {
        let mut short = BatchReader::new(1, vec![0u8; left], PAGE as usize);
        assert_eq!(short.next_frame_header(), Err(UnexpectedEof));
        assert_eq!(short.next_frame_header(), Err(UnexpectedEof));
        assert_eq!(short.next_frame_no(), 1);
    }
    let fs = frames(0, &[(1, 10, 1)]);
    let mut cut = body(&fs);
    cut.extend_from_slice(&[7u8; 5]);
    let mut reader = BatchReader::new(1, cut, PAGE as usize);
    let mut buf = Vec::new();
    assert_eq!(reader.next_frame_header(), Ok(Some(fs[0].0)));
    assert_eq!(reader.next_page(&mut buf), Ok(()));
    assert_eq!(reader.next_frame_header(), Err(UnexpectedEof));
    let mut whole = BatchReader::new(1, vec![0u8; 24], PAGE as usize);
    assert!(matches!(whole.next_frame_header(), Ok(Some(_))));
}

fn replay_all(
    replay: &mut WalReplay,
    files: &mut Files,
    fs: &[(WalFrameHeader, Vec<u8>)],
) -> Result<(), RestoreError> {
    let mut reader = BatchReader::new(replay.last_received_frame_no() + 1, body(fs), PAGE as usize);
    let mut buf = Vec::new();
    while let Some(effect) = replay.apply_next(&mut reader, &mut buf)? {
        files.apply(effect, &buf);
    }
    Ok(())
}

#[test]
fn replay_applies_committed_transactions() {
    let g = Generation::from_u128(1);
    let seed = 0x0102_0304_0506_0708;
    let fs = frames(seed, &[(1, 10, 0), (2, 20, 2), (2, 21, 0), (3, 30, 3), (1, 11, 0)]);
    let mut replay = WalReplay::new(PAGE, 1000, true, seed, None, None);
    let mut files = Files::new();
    let key = batch_key(b"db", &g, &summary(1, 5, 1234));
    assert_eq!(replay.offer(&key), BatchDecision::Apply(summary(1, 5, 1234)));
    assert_eq!(replay_all(&mut replay, &mut files, &fs), Ok(()));
    assert_eq!(replay.last_received_frame_no(), 5);
    assert_eq!(replay.last_applied_timestamp(), Some(1234));
    assert_eq!(replay.checksum(), fs[4].0.crc);
    // The last frame was not committed: page 1 stays as the first
    // transaction left it.
    assert_eq!(files.db.len(), 3 * PAGE as usize);
    assert_eq!(files.page(1), &page(10)[..]);
    assert_eq!(files.page(2), &page(21)[..]);
    assert_eq!(files.page(3), &page(30)[..]);
}

#[test]
fn gap_aborts_replay() {
    let g = Generation::from_u128(1);
    let fs = frames(7, &[(1, 10, 0), (2, 20, 0), (3, 30, 3)]);
    let mut replay = WalReplay::new(PAGE, 1000, true, 7, None, None);
    let mut files = Files::new();
    assert_eq!(
        replay.offer(&batch_key(b"db", &g, &summary(1, 3, 5))),
        BatchDecision::Apply(summary(1, 3, 5))
    );
    replay_all(&mut replay, &mut files, &fs).unwrap();
    assert_eq!(
        replay.offer(&batch_key(b"db", &g, &summary(5, 7, 6))),
        BatchDecision::Stop(StopReason::Gap)
    );
    assert_eq!(replay.last_received_frame_no(), 3);
    assert_eq!(files.db.len(), 3 * PAGE as usize);
    assert_eq!(files.page(3), &page(30)[..]);
}

#[test]
fn replay_decisions() {
    let g = Generation::from_u128(1);
    let mut replay = WalReplay::new(PAGE, 1000, true, 0, Some(6), Some(100));
    assert_eq!(replay.offer(&meta_key(b"db", &g)), BatchDecision::Skip);
    assert_eq!(replay.offer(b"db-x/0000000001-0000000003.gz"), BatchDecision::Skip);
    assert_eq!(
        replay.offer(&batch_key(b"db", &g, &summary(2, 3, 5))),
        BatchDecision::Stop(StopReason::Gap)
    );
    assert_eq!(
        replay.offer(&batch_key(b"db", &g, &summary(0, 3, 5))),
        BatchDecision::Stop(StopReason::Gap)
    );
    assert_eq!(
        replay.offer(&batch_key(b"db", &g, &summary(1, 7, 5))),
        BatchDecision::Stop(StopReason::BeyondConsistentFrame)
    );
    assert_eq!(
        replay.offer(&batch_key(b"db", &g, &summary(1, 6, 101))),
        BatchDecision::Stop(StopReason::TooRecent)
    );
    assert_eq!(
        replay.offer(&batch_key(b"db", &g, &summary(1, 6, 100))),
        BatchDecision::Apply(summary(1, 6, 100))
    );
    let mut free = WalReplay::new(PAGE, 1000, true, 0, None, None);
    assert_eq!(
        free.offer(&batch_key(b"db", &g, &summary(1, u32::MAX, u64::MAX))),
        BatchDecision::Apply(summary(1, u32::MAX, u64::MAX))
    );
}

#[test]
fn damaged_frame_aborts_replay_and_keeps_what_was_committed() {
    let seed = 99;
    let fs = frames(seed, &[(1, 10, 1), (2, 20, 0), (3, 30, 3)]);
    for (at, expected_pages) in [(24usize, 0usize), (24 + 64 + 24 + 5, 1), (2 * 88 + 3, 1)] {
        let mut damaged = body(&fs);
        damaged[at] ^= 1;
        let mut replay = WalReplay::new(PAGE, 1000, true, seed, None, None);
        let mut files = Files::new();
        let mut reader = BatchReader::new(1, damaged, PAGE as usize);
        let mut buf = Vec::new();
        let mut failed_at = None;
        while let Ok(Some(h)) = reader.next_frame_header() {
            reader.next_page(&mut buf).unwrap();
            match replay.apply_frame(&h, &buf) {
                Ok(effect) => files.apply(effect, &buf),
                Err(e) => {
                    failed_at = Some(e);
                    break;
                }
            }
        }
        match failed_at {
            Some(RestoreError::ChecksumMismatch { frame_no, .. }) => {
                assert_eq!(frame_no as usize, at / 88 + 1);
                assert_eq!(replay.last_received_frame_no() as usize, at / 88);
            }
            other => panic!("{:?}", other),
        }
        assert_eq!(files.db.len(), expected_pages * PAGE as usize);
        if expected_pages == 1 {
            assert_eq!(files.page(1), &page(10)[..]);
        }
    }
}

#[test]
fn damaged_frame_passes_without_verification() {
    let fs = frames(99, &[(1, 10, 1)]);
    let mut damaged = body(&fs);
    damaged[30] ^= 1;
    let mut replay = WalReplay::new(PAGE, 1000, false, 99, None, None);
    let mut files = Files::new();
    let mut reader = BatchReader::new(1, damaged.clone(), PAGE as usize);
    let mut buf = Vec::new();
    let h = reader.next_frame_header().unwrap().unwrap();
    reader.next_page(&mut buf).unwrap();
    let effect = replay.apply_frame(&h, &buf).unwrap();
    files.apply(effect, &buf);
    assert_eq!(files.page(1), &damaged[24..]);
    assert_eq!(replay.checksum(), 99);
}

#[test]
fn replay_refuses_frames_it_cannot_place() {
    let mut replay = WalReplay::new(PAGE, 1000, false, 0, None, None);
    let zero = WalFrameHeader { pgno: 0, size_after: 1, salt: 0, crc: 0 };
    assert_eq!(
        replay.apply_frame(&zero, &page(1)).err(),
        Some(RestoreError::InvalidFrame { frame_no: 1, reason: CacheError::InvalidPageNumber })
    );
    let one = WalFrameHeader { pgno: 1, size_after: 1, salt: 0, crc: 0 };
    assert_eq!(
        replay.apply_frame(&one, &page(1)[..10]).err(),
        Some(RestoreError::InvalidFrame { frame_no: 1, reason: CacheError::PageSizeMismatch })
    );
    assert_eq!(replay.last_received_frame_no(), 0);
    assert_eq!(replay.last_applied_timestamp(), None);
}

#[test]
fn replay_spills_large_transactions() {
    let seed = 5;
    let fs = frames(seed, &[(1, 1, 0), (2, 2, 0), (3, 3, 0), (4, 4, 0), (5, 5, 5), (6, 6, 6)]);
    let mut replay = WalReplay::new(PAGE, 2, true, seed, None, None);
    let mut files = Files::new();
    let mut spilled = 0;
    let mut reader = BatchReader::new(1, body(&fs), PAGE as usize);
    let mut buf = Vec::new();
    while let Ok(Some(h)) = reader.next_frame_header() {
        reader.next_page(&mut buf).unwrap();
        let effect = replay.apply_frame(&h, &buf).unwrap();
        if effect.spill_at.is_some() {
            spilled += 1;
        }
        files.apply(effect, &buf);
    }
    assert_eq!(spilled, 3);
    for pgno in 1..=6u32 {
        assert_eq!(files.page(pgno), &page(pgno as u8)[..]);
    }
}

#[test]
fn restore_twice_gives_the_same_database() {
    let seed = 5;
    let fs = frames(seed, &[(2, 1, 0), (1, 2, 2), (2, 3, 2)]);
    let mut first = Files::new();
    let mut replay = WalReplay::new(PAGE, 1, true, seed, None, None);
    replay_all(&mut replay, &mut first, &fs).unwrap();
    let mut second = Files::new();
    second.db = first.db.clone();
    let mut again = WalReplay::new(PAGE, 1, true, seed, None, None);
    replay_all(&mut again, &mut second, &fs).unwrap();
    assert_eq!(first.db, second.db);
    assert_eq!(first.page(2), &page(3)[..]);
}

#[test]
fn batch_that_ends_in_a_frame_ends_the_restore() {
    let fs = frames(5, &[(1, 1, 1), (2, 2, 2)]);
    let mut cut = body(&fs);
    cut.truncate(88 + 24 + 10);
    let mut replay = WalReplay::new(PAGE, 10, true, 5, None, None);
    let mut files = Files::new();
    let mut reader = BatchReader::new(1, cut, PAGE as usize);
    let mut buf = Vec::new();
    let first = replay.apply_next(&mut reader, &mut buf).unwrap().unwrap();
    files.apply(first, &buf);
    assert_eq!(
        replay.apply_next(&mut reader, &mut buf).err(),
        Some(RestoreError::TruncatedBatch { frame_no: 2 })
    );
    assert_eq!(replay.last_received_frame_no(), 1);
    assert_eq!(files.db.len(), PAGE as usize);
    let mut done = BatchReader::new(1, Vec::new(), PAGE as usize);
    assert!(replay.apply_next(&mut done, &mut buf).unwrap().is_none());
}

#[test]
fn batch_that_ends_in_a_header_ends_the_restore() {
    let fs = frames(5, &[(1, 1, 1), (2, 2, 2)]);
    for left in [1usize, 5, 23] {
        let mut cut = body(&fs);
        cut.truncate(88 + left);
        let mut replay = WalReplay::new(PAGE, 10, true, 5, None, None);
        let mut files = Files::new();
        let mut reader = BatchReader::new(1, cut, PAGE as usize);
        let mut buf = Vec::new();
        let first = replay.apply_next(&mut reader, &mut buf).unwrap().unwrap();
        files.apply(first, &buf);
        assert_eq!(
            replay.apply_next(&mut reader, &mut buf).err(),
            Some(RestoreError::TruncatedBatch { frame_no: 2 })
        );
        assert_eq!(replay.last_received_frame_no(), 1);
        assert_eq!(files.db.len(), PAGE as usize);
    }
    let mut replay = WalReplay::new(PAGE, 10, true, 5, None, None);
    let mut stub = BatchReader::new(1, vec![0u8; 5], PAGE as usize);
    let mut buf = Vec::new();
    assert_eq!(
        replay.apply_next(&mut stub, &mut buf).err(),
        Some(RestoreError::TruncatedBatch { frame_no: 1 })
    );
}

#[test]
fn restore_gives_back_what_was_backed_up() {
    let g = Generation::from_u128(1);
    let seed = 0xfeed;
    let fs = frames(
        seed,
        &[(1, 1, 0), (2, 2, 2), (3, 3, 0), (1, 4, 0), (2, 5, 3), (4, 6, 4), (5, 7, 5)],
    );
    // The database as the transactions leave it, applied directly.
    let mut expected = Files::new();
    let mut direct = WalReplay::new(PAGE, 1000, true, seed, None, None);
    replay_all(&mut direct, &mut expected, &fs).unwrap();

    // The same frames, cut into batches of three, stored under their keys
    // and replayed in the order of the keys.
    let mut stored: Vec<(Vec<u8>, Vec<u8>)> = Vec::new();
    for part in split_batches(FrameRange { first: 1, last: 7 }, 3) {
        let key = batch_key(b"db", &g, &summary(part.first, part.last, 50));
        let frames = &fs[part.first as usize - 1..part.last as usize];
        stored.push((key, body(frames)));
    }
    stored.sort();
    assert_eq!(stored.len(), 3);
    let mut restored = Files::new();
    let mut replay = WalReplay::new(PAGE, 2, true, seed, Some(7), None);
    let mut buf = Vec::new();
    for (key, body) in stored {
        let s = match replay.offer(&key) {
            BatchDecision::Apply(s) => s,
            other => panic!("{:?}", other),
        };
        let mut reader = BatchReader::new(s.first_frame_no, body, PAGE as usize);
        while let Some(effect) = replay.apply_next(&mut reader, &mut buf).unwrap() {
            restored.apply(effect, &buf);
        }
        assert_eq!(reader.next_frame_no(), s.last_frame_no + 1);
    }
    assert_eq!(replay.last_received_frame_no(), 7);
    assert_eq!(restored.db, expected.db);
    assert_eq!(restored.page(1), &page(4)[..]);
    assert_eq!(restored.page(2), &page(5)[..]);
    assert_eq!(restored.page(5), &page(7)[..]);
}
