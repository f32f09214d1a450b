use bottomless::batch::split_batches;
use bottomless::compression::CompressionKind;
use bottomless::config::{ConfigError, Options};
use bottomless::generation::Generation;
use bottomless::replicator::{
    dependency_to_store, snapshot_interval_passed, CommitProgress, FrameRange, GenerationNotSet,
    PageSizeConflict, Replicator, SnapshotProgress, SnapshotStatus,
};
use bottomless::meta::GenerationMeta;
use bottomless::restore::{RestoreAction, RestoreError};

fn options(max_frames: usize) -> Options {
    let mut o = Options::new();
    o.db_id = Some("mydb".to_string());
    o.region = Some("eu".to_string());
    o.access_key_id = Some("key".to_string());
    o.secret_access_key = Some("SECRET-REDACTED".to_string());
    o.max_frames_per_batch = max_frames;
    o
}

fn replicator(max_frames: usize) -> Replicator {
    Replicator::with_options("data/db".to_string(), options(max_frames)).unwrap()
}

fn range(first: u32, last: u32) -> FrameRange {
    FrameRange { first, last }
}

#[test]
fn new_replicator_starts_at_frame_one() {
    let r = replicator(500);
    assert_eq!(r.next_frame_no(), 1);
    assert_eq!(r.last_known_frame(), 0);
    assert_eq!(r.last_sent_frame_no(), 0);
    assert_eq!(r.last_committed_frame_no(), 0);
    assert_eq!(r.pending_frames(), 0);
    assert_eq!(r.peek_last_valid_frame(), 0);
    assert_eq!(r.page_size(), Replicator::UNSET_PAGE_SIZE);
    assert_eq!(r.generation(), Err(GenerationNotSet));
    assert_eq!(r.db_name(), "mydb");
    assert_eq!(r.db_path(), "data/db");
    assert_eq!(r.bucket(), "bottomless");
    assert_eq!(r.use_compression(), CompressionKind::Gzip);
    assert!(r.verify_crc());
    assert_eq!(r.max_frames_per_batch(), 500);
    assert_eq!(r.s3_upload_max_parallelism(), 32);
    assert_eq!(r.restore_transaction_page_swap_after(), 1000);
    assert_eq!(r.restore_transaction_cache_fpath(), ".bottomless.restore");
}

#[test]
fn replicator_needs_credentials_and_a_database() {
    let mut o = options(3);
    o.region = None;
    o.db_id = None;
    assert_eq!(
        Replicator::with_options("db".to_string(), o).err(),
        Some(ConfigError::RegionNotSet)
    );
    let mut o = options(3);
    o.access_key_id = None;
    o.secret_access_key = None;
    assert_eq!(
        Replicator::with_options("db".to_string(), o).err(),
        Some(ConfigError::AccessKeyIdNotSet)
    );
    let mut o = options(3);
    o.secret_access_key = None;
    assert_eq!(
        Replicator::with_options("db".to_string(), o).err(),
        Some(ConfigError::SecretAccessKeyNotSet)
    );
    let mut o = options(3);
    o.db_id = None;
    assert_eq!(
        Replicator::with_options("db".to_string(), o).err(),
        Some(ConfigError::DatabaseIdNotSet)
    );
}

#[test]
fn basic_round_trip_of_seven_frames() {
    let mut r = replicator(3);
    r.set_generation(Generation::from_u128(1));
    let mut uploaded: Vec<FrameRange> = Vec::new();

    assert!(r.submit_frames(3));
    let run = r.take_batch().unwrap();
    assert_eq!(run, range(1, 3));
    uploaded.extend(split_batches(run, r.max_frames_per_batch()));
    r.record_commit(run.last);
    assert_eq!(r.wait_until_committed(3), CommitProgress::Committed(3));
    assert_eq!(r.wait_until_committed(7), CommitProgress::Pending);

    assert!(r.submit_frames(4));
    let run = r.take_batch().unwrap();
    assert_eq!(run, range(4, 7));
    uploaded.extend(split_batches(run, r.max_frames_per_batch()));
    r.record_commit(run.last);

    assert_eq!(uploaded, vec![range(1, 3), range(4, 6), range(7, 7)]);
    assert_eq!(r.wait_until_committed(7), CommitProgress::Committed(7));
    assert_eq!(r.pending_frames(), 0);
    assert_eq!(r.take_batch(), None);
}

#[test]
fn submit_asks_for_a_flush_at_the_threshold() {
    let mut r = replicator(3);
    assert!(!r.submit_frames(2));
    assert_eq!(r.pending_frames(), 2);
    assert!(r.submit_frames(1));
    assert_eq!(r.pending_frames(), 3);
    assert_eq!(r.next_frame_no(), 4);
    assert!(r.submit_frames(0));
    r.take_batch();
    assert!(!r.submit_frames(0));
}

#[test]
fn take_batch_without_frames_takes_nothing() {
    let mut r = replicator(3);
    assert_eq!(r.take_batch(), None);
    r.request_flush();
    assert_eq!(r.take_batch(), None);
    r.submit_frames(1);
    assert_eq!(r.take_batch(), Some(range(1, 1)));
    assert_eq!(r.last_sent_frame_no(), 1);
    assert_eq!(r.take_batch(), None);
}

#[test]
fn runs_follow_each_other_without_a_gap() {
    let mut r = replicator(100);
    r.submit_frames(5);
    let a = r.take_batch().unwrap();
    assert_eq!(a, range(1, 5));
    assert_eq!(r.take_batch(), None);
    r.submit_frames(2);
    let b = r.take_batch().unwrap();
    assert_eq!(b.first, a.last + 1);
    assert_eq!(b, range(6, 7));
}

#[test]
fn commits_never_go_back() {
    let mut r = replicator(100);
    r.submit_frames(10);
    r.take_batch();
    r.record_commit(6);
    assert_eq!(r.last_committed_frame_no(), 6);
    r.record_commit(4);
    assert_eq!(r.last_committed_frame_no(), 6);
    r.record_commit(10);
    assert_eq!(r.last_committed_frame_no(), 10);
}

#[test]
fn commits_never_pass_what_was_sent() {
    let mut r = replicator(100);
    r.submit_frames(10);
    r.record_commit(5);
    assert_eq!(r.last_committed_frame_no(), 0);
    r.take_batch();
    r.record_commit(50);
    assert_eq!(r.last_committed_frame_no(), 10);
}

#[test]
fn failed_commit_is_surfaced_until_the_next_success() {
    let mut r = replicator(100);
    r.submit_frames(4);
    r.take_batch();
    r.record_commit_failure();
    assert_eq!(r.wait_until_committed(0), CommitProgress::Failed);
    assert_eq!(r.wait_until_committed(4), CommitProgress::Failed);
    r.submit_frames(1);
    assert_eq!(r.take_batch(), Some(range(5, 5)));
    r.record_commit(5);
    assert_eq!(r.wait_until_committed(4), CommitProgress::Committed(5));
}

#[test]
fn page_size_is_pinned() {
    let mut r = replicator(3);
    assert_eq!(r.set_page_size(4096), Ok(()));
    assert_eq!(r.page_size(), 4096);
    assert_eq!(r.set_page_size(4096), Ok(()));
    assert_eq!(
        r.set_page_size(8192),
        Err(PageSizeConflict { requested: 8192, current: 4096 })
    );
    assert_eq!(r.page_size(), 4096);
}

#[test]
fn unset_page_size_pins_nothing() {
    let mut r = replicator(3);
    assert_eq!(r.set_page_size(Replicator::UNSET_PAGE_SIZE), Ok(()));
    assert_eq!(r.set_page_size(512), Ok(()));
    assert_eq!(r.page_size(), 512);
}

#[test]
fn rollback_drops_the_tail() {
    let mut r = replicator(100);
    r.submit_frames(10);
    r.take_batch();
    r.record_commit(10);
    r.submit_frames(5);
    r.rollback_to_frame(12);
    assert_eq!(r.next_frame_no(), 13);
    assert_eq!(r.last_sent_frame_no(), 10);
    assert_eq!(r.last_committed_frame_no(), 10);
    r.rollback_to_frame(7);
    assert_eq!(r.next_frame_no(), 8);
    assert_eq!(r.last_sent_frame_no(), 7);
    assert_eq!(r.last_committed_frame_no(), 7);
    assert_eq!(r.pending_frames(), 0);
    r.rollback_to_frame(0);
    assert_eq!(r.next_frame_no(), 1);
    assert_eq!(r.last_sent_frame_no(), 0);
    assert_eq!(r.last_committed_frame_no(), 0);
}

#[test]
fn register_last_valid_frame_sets_the_counters() {
    let mut r = replicator(100);
    r.register_last_valid_frame(0);
    assert_eq!(r.next_frame_no(), 1);
    r.register_last_valid_frame(9);
    assert_eq!(r.next_frame_no(), 10);
    assert_eq!(r.peek_last_valid_frame(), 9);
    assert_eq!(r.last_sent_frame_no(), 0);
    assert_eq!(r.pending_frames(), 9);
    r.register_last_valid_frame(9);
    assert_eq!(r.next_frame_no(), 10);
}

#[test]
fn generations_follow_each_other() {
    let mut r = replicator(100);
    r.submit_frames(5);
    assert_eq!(r.new_generation(1_700_000_000_000), None);
    let first = r.generation().unwrap();
    assert_eq!(first.timestamp_millis(), Some(1_700_000_000_000));
    assert_eq!(r.next_frame_no(), 1);
    r.submit_frames(5);
    r.take_batch();
    r.record_commit(5);
    assert_eq!(r.new_generation(1_700_000_001_000), Some(first));
    let second = r.generation().unwrap();
    assert_ne!(first, second);
    assert!(second.as_u128() < first.as_u128());
    assert_eq!(r.next_frame_no(), 1);
    assert_eq!(r.last_sent_frame_no(), 0);
    assert_eq!(r.last_committed_frame_no(), 0);
    let taken_up = Generation::from_u128(77);
    assert_eq!(r.set_generation(taken_up), Some(second));
    assert_eq!(r.generation(), Ok(taken_up));
}

#[test]
fn dependency_is_stored_between_different_generations() {
    let a = Generation::from_u128(1);
    let b = Generation::from_u128(2);
    assert_eq!(dependency_to_store(Some(a), b), Some(a));
    assert_eq!(dependency_to_store(Some(b), b), None);
    assert_eq!(dependency_to_store(None, b), None);
}

#[test]
fn split_into_batches() {
    assert_eq!(split_batches(range(1, 3), 3), vec![range(1, 3)]);
    assert_eq!(split_batches(range(4, 7), 3), vec![range(4, 6), range(7, 7)]);
    assert_eq!(split_batches(range(1, 7), 3), vec![range(1, 3), range(4, 6), range(7, 7)]);
    assert_eq!(split_batches(range(1, 6), 3), vec![range(1, 3), range(4, 6)]);
    assert_eq!(split_batches(range(5, 5), 500), vec![range(5, 5)]);
    assert_eq!(split_batches(range(1, 3), 1), vec![range(1, 1), range(2, 2), range(3, 3)]);
    assert_eq!(split_batches(range(3, 2), 3), vec![]);
}

#[test]
fn split_at_the_edges() {
    assert_eq!(split_batches(range(1, 3), 0), vec![range(1, 1), range(2, 2), range(3, 3)]);
    assert_eq!(
        split_batches(range(u32::MAX - 1, u32::MAX), 1),
        vec![range(u32::MAX - 1, u32::MAX - 1), range(u32::MAX, u32::MAX)]
    );
    assert_eq!(split_batches(range(0, u32::MAX), usize::MAX).len(), 2);
    assert_eq!(
        split_batches(range(1, u32::MAX), usize::MAX),
        vec![range(1, u32::MAX)]
    );
}

#[test]
fn batches_are_bounded_and_contiguous() {
    for max in [1usize, 2, 3, 7, 500] {
        let parts = split_batches(range(11, 1011), max);
        assert_eq!(parts.first().unwrap().first, 11);
        assert_eq!(parts.last().unwrap().last, 1011);
        for p in &parts {
            assert!(p.first <= p.last);
            assert!((p.last - p.first + 1) as usize <= max);
        }
        for w in parts.windows(2) {
            assert_eq!(w[1].first, w[0].last + 1);
        }
    }
}

#[test]
fn compare_with_local_in_every_case() {
    let g = Generation::from_u128(9);
    let mut r = replicator(100);
    assert_eq!(r.compare_with_local(g, 5, 5, 7, 7), Some(RestoreAction::ReuseGeneration(g)));
    assert_eq!(r.next_frame_no(), 8);
    assert_eq!(r.generation(), Ok(g));

    let mut r = replicator(100);
    assert_eq!(r.compare_with_local(g, 5, 5, 8, 7), Some(RestoreAction::SnapshotMainDbFile));
    assert_eq!(r.next_frame_no(), 1);
    assert_eq!(r.generation(), Ok(g));

    let mut r = replicator(100);
    assert_eq!(r.compare_with_local(g, 5, 5, 6, 7), None);
    assert_eq!(r.compare_with_local(g, 6, 5, 0, 7), Some(RestoreAction::SnapshotMainDbFile));
    assert_eq!(r.compare_with_local(g, 4, 5, 7, 7), None);
    assert_eq!(r.compare_with_local(g, 0, 0, 0, 0), Some(RestoreAction::ReuseGeneration(g)));
    assert_eq!(r.next_frame_no(), 1);
}

#[test]
fn change_counters_compare_as_their_bytes() {
    let g = Generation::from_u128(9);
    let mut r = replicator(100);
    let local = u32::from_be_bytes([0, 0, 1, 0]);
    let remote = u32::from_be_bytes([0, 0, 0, 255]);
    assert_eq!(r.compare_with_local(g, local, remote, 0, 0), Some(RestoreAction::SnapshotMainDbFile));
}

#[test]
fn snapshot_is_skipped_for_an_empty_database() {
    let mut r = replicator(100);
    assert_eq!(r.snapshot(10, None, 0), Err(GenerationNotSet));
    let g = Generation::new(1_700_000_000_000);
    r.set_generation(g);
    assert_eq!(r.snapshot(0, None, 1_700_000_000_000), Ok(false));
    assert_eq!(r.wait_until_snapshotted(4096), SnapshotProgress::Snapshotted);
}

#[test]
fn snapshot_waits_for_its_interval() {
    let mut o = options(100);
    o.snapshot_interval = Some(60);
    let mut r = Replicator::with_options("db".to_string(), o).unwrap();
    let last = Generation::new(1_700_000_000_000);
    r.set_generation(Generation::new(1_700_000_030_000));
    assert_eq!(r.snapshot(4096, Some(last), 1_700_000_059_999), Ok(false));
    assert_eq!(r.snapshot(4096, Some(last), 1_700_000_060_000), Ok(true));
    assert_eq!(r.snapshot(4096, None, 1_700_000_000_000), Ok(true));
    assert_eq!(r.snapshot(4096, Some(Generation::from_u128(5)), 0), Ok(true));
}

#[test]
fn snapshot_interval_passed_exactly() {
    let last = Generation::new(1_000_000);
    assert!(snapshot_interval_passed(None, Some(last), 0));
    assert!(snapshot_interval_passed(Some(10), None, 0));
    assert!(!snapshot_interval_passed(Some(10), Some(last), 1_009_999));
    assert!(snapshot_interval_passed(Some(10), Some(last), 1_010_000));
    assert!(!snapshot_interval_passed(Some(u64::MAX), Some(last), u64::MAX));
    assert!(snapshot_interval_passed(Some(0), Some(last), 1_000_000));
}

#[test]
fn waiting_for_a_snapshot() {
    let mut r = replicator(100);
    assert_eq!(r.wait_until_snapshotted(4096), SnapshotProgress::NotNeeded);
    let g = Generation::from_u128(3);
    r.set_generation(g);
    assert_eq!(r.wait_until_snapshotted(4096), SnapshotProgress::Pending);
    r.record_snapshot(SnapshotStatus::Done(Generation::from_u128(2)));
    assert_eq!(r.wait_until_snapshotted(4096), SnapshotProgress::Pending);
    r.record_snapshot(SnapshotStatus::Failed);
    assert_eq!(r.wait_until_snapshotted(4096), SnapshotProgress::Failed);
    r.record_snapshot(SnapshotStatus::Done(g));
    assert_eq!(r.wait_until_snapshotted(4096), SnapshotProgress::Snapshotted);
    r.record_snapshot(SnapshotStatus::Idle);
    assert_eq!(r.wait_until_snapshotted(0), SnapshotProgress::NotNeeded);
    assert_eq!(r.wait_until_snapshotted(1), SnapshotProgress::Snapshotted);
    r.record_snapshot(SnapshotStatus::Idle);
    r.skip_snapshot_for_current_generation();
    assert_eq!(r.wait_until_snapshotted(1), SnapshotProgress::Snapshotted);
}

#[test]
fn replay_of_a_generation_pins_the_page_size() {
    let mut r = replicator(100);
    let meta = GenerationMeta { page_size: 4096, initial_checksum: 77 };
    let replay = r.replay_generation(meta, Some(9), None).unwrap();
    assert_eq!(r.page_size(), 4096);
    assert_eq!(replay.checksum(), 77);
    assert_eq!(replay.last_received_frame_no(), 0);
    assert_eq!(replay.last_applied_timestamp(), None);
    assert!(r.replay_generation(meta, None, None).is_ok());
    let other = GenerationMeta { page_size: 512, initial_checksum: 77 };
    assert_eq!(
        r.replay_generation(other, None, None).err(),
        Some(RestoreError::PageSizeConflict(PageSizeConflict { requested: 512, current: 4096 }))
    );
    assert_eq!(r.page_size(), 4096);
}
