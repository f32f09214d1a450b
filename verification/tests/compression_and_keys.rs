use bottomless::compression::CompressionKind;
use bottomless::generation::{Generation, REVERSED_EPOCH_MILLIS};
use bottomless::keys::{
    batch_key, change_counter_key, dependency_key, fpath_to_key, generation_of_key,
    generation_prefix, meta_key, snapshot_key, tombstone_key, WalSegmentSummary,
};

#[test]
fn parse_known_compression_kinds() {
    assert_eq!(CompressionKind::parse("gz"), Ok(CompressionKind::Gzip));
    assert_eq!(CompressionKind::parse("gzip"), Ok(CompressionKind::Gzip));
    assert_eq!(CompressionKind::parse("raw"), Ok(CompressionKind::Raw));
    assert_eq!(CompressionKind::parse(""), Ok(CompressionKind::Raw));
}

#[test]
fn parse_unknown_compression_kind_hands_the_name_back() {
    assert_eq!(CompressionKind::parse("xz"), Err("xz"));
    assert_eq!(CompressionKind::parse("GZ"), Err("GZ"));
    assert_eq!(CompressionKind::parse("gz "), Err("gz "));
}

#[test]
fn compression_extension_and_default() {
    assert_eq!(CompressionKind::Raw.extension(), "raw");
    assert_eq!(CompressionKind::Gzip.extension(), "gz");
    assert_eq!(CompressionKind::default(), CompressionKind::Raw);
}

#[test]
fn generation_formats_as_hyphenated_lower_hex() {
    let g = Generation::from_u128(0xa1a2a3a4_b1b2_c1c2_d1d2_d3d4d5d6d7d8);
    assert_eq!(g.to_hyphenated(), b"a1a2a3a4-b1b2-c1c2-d1d2-d3d4d5d6d7d8".to_vec());
    let zero = Generation::from_u128(0x0123456789abcdef_0123456789abcdef);
    assert_eq!(zero.to_hyphenated(), b"01234567-89ab-cdef-0123-456789abcdef".to_vec());
}

#[test]
fn generation_parses_what_it_formats() {
    let g = Generation::from_u128(0x018f_2a3b_4c5d_7e6f_8a9b_0c1d_2e3f_4a5b);
    let text = g.to_hyphenated();
    assert_eq!(Generation::parse(&text), Some(g));
    assert_eq!(Generation::parse(b"not-a-uuid"), None);
    assert_eq!(Generation::parse(b""), None);
}

#[test]
fn generation_embeds_the_reversed_time() {
    let now: u64 = 1_700_000_000_123;
    let g = Generation::new(now);
    assert_eq!(g.timestamp_millis(), Some(now));
    assert_eq!((g.as_u128() >> 80) as u64, REVERSED_EPOCH_MILLIS - now);
    assert_eq!((g.as_u128() >> 76) & 0xf, 7);
}

#[test]
fn generation_beyond_the_reversed_epoch_is_clamped() {
    let g = Generation::new(u64::MAX);
    assert_eq!(g.timestamp_millis(), Some(REVERSED_EPOCH_MILLIS));
    assert_eq!((g.as_u128() >> 80) as u64, 0);
}

#[test]
fn reversed_epoch_is_late_in_the_year_9998() {
    // 2 932 531 days lie between the epoch and the last day of that year;
    // 23 hours of the day have passed.
    assert_eq!(REVERSED_EPOCH_MILLIS, (2_932_531u64 * 86_400 + 23 * 3_600) * 1_000 + 999);
}

#[test]
fn newer_generation_sorts_first() {
    let older = Generation::new(1_700_000_000_000);
    let newer = Generation::new(1_700_000_000_001);
    assert!(newer.as_u128() < older.as_u128());
    assert!(newer.to_hyphenated() < older.to_hyphenated());
}

#[test]
fn generation_without_version_seven_has_no_time() {
    let g = Generation::from_u128(0xa1a2a3a4_b1b2_41c2_d1d2_d3d4d5d6d7d8);
    assert_eq!(g.timestamp_millis(), None);
    let far = Generation::from_u128(0xffffffff_ffff_7000_8000_000000000000);
    assert_eq!(far.timestamp_millis(), None);
}

#[test]
fn generation_bytes_round_trip() {
    let g = Generation::from_u128(0xa1a2a3a4_b1b2_c1c2_d1d2_d3d4d5d6d7d8);
    let bytes = g.to_bytes();
    assert_eq!(
        bytes,
        vec![
            0xa1, 0xa2, 0xa3, 0xa4, 0xb1, 0xb2, 0xc1, 0xc2, 0xd1, 0xd2, 0xd3, 0xd4, 0xd5, 0xd6,
            0xd7, 0xd8
        ]
    );
    assert_eq!(Generation::from_bytes(&bytes), Some(g));
    assert_eq!(Generation::from_bytes(&bytes[..15]), None);
    assert_eq!(Generation::from_bytes(&[0u8; 17]), None);
}

fn summary(first: u32, last: u32, timestamp: u64, kind: CompressionKind) -> WalSegmentSummary {
    WalSegmentSummary {
        first_frame_no: first,
        last_frame_no: last,
        timestamp,
        compression_kind: kind,
    }
}

#[test]
fn batch_name_pads_frame_numbers_to_ten_digits() {
    let s = summary(1, 3, 1_700_000_000_123, CompressionKind::Gzip);
    assert_eq!(s.file_name(), b"0000000001-0000000003-1700000000123.gz".to_vec());
    let t = summary(4_294_967_295, 4_294_967_295, 0, CompressionKind::Raw);
    assert_eq!(t.file_name(), b"4294967295-4294967295-0.raw".to_vec());
}

#[test]
fn batch_key_stands_under_its_generation() {
    let g = Generation::from_u128(0xa1a2a3a4_b1b2_c1c2_d1d2_d3d4d5d6d7d8);
    let s = summary(4, 6, 17, CompressionKind::Raw);
    assert_eq!(
        batch_key(b"mydb", &g, &s),
        b"mydb-a1a2a3a4-b1b2-c1c2-d1d2-d3d4d5d6d7d8/0000000004-0000000006-17.raw".to_vec()
    );
}

#[test]
fn batch_key_round_trip() {
    let g = Generation::new(1_700_000_000_000);
    for s in [
        summary(1, 3, 1_700_000_000_123, CompressionKind::Gzip),
        summary(7, 7, 0, CompressionKind::Raw),
        summary(0, 4_294_967_295, u64::MAX, CompressionKind::Gzip),
    ] {
        let key = batch_key(b"db/with-slash", &g, &s);
        assert_eq!(WalSegmentSummary::parse(&key), Some(s));
    }
}

#[test]
fn batch_name_without_time_is_refused() {
    assert_eq!(WalSegmentSummary::parse(b"db-x/0000000001-0000000003.gz"), None);
    assert_eq!(WalSegmentSummary::parse_name(b"0000000001-0000000003.gz"), None);
}

#[test]
fn malformed_batch_names_are_refused() {
    assert_eq!(WalSegmentSummary::parse(b"0000000001-0000000003-17.gz"), None);
    assert_eq!(WalSegmentSummary::parse_name(b""), None);
    assert_eq!(WalSegmentSummary::parse_name(b"1-2-3"), None);
    assert_eq!(WalSegmentSummary::parse_name(b"1-2-3.xz"), None);
    assert_eq!(WalSegmentSummary::parse_name(b"1-2-3.gzip"), None);
    assert_eq!(WalSegmentSummary::parse_name(b"1-2-3."), None);
    assert_eq!(WalSegmentSummary::parse_name(b"-2-3.gz"), None);
    assert_eq!(WalSegmentSummary::parse_name(b"1--3.gz"), None);
    assert_eq!(WalSegmentSummary::parse_name(b"1-2-.gz"), None);
    assert_eq!(WalSegmentSummary::parse_name(b"1-2-3-4.gz"), None);
    assert_eq!(WalSegmentSummary::parse_name(b"a-2-3.gz"), None);
    assert_eq!(WalSegmentSummary::parse_name(b"+1-2-3.gz"), None);
    assert_eq!(WalSegmentSummary::parse_name(b"4294967296-2-3.gz"), None);
    assert_eq!(WalSegmentSummary::parse_name(b"1-2-18446744073709551616.gz"), None);
    assert_eq!(WalSegmentSummary::parse_name(b".meta"), None);
    assert_eq!(WalSegmentSummary::parse_name(b"db.gz"), None);
}

#[test]
fn unpadded_batch_names_are_read() {
    assert_eq!(
        WalSegmentSummary::parse_name(b"1-2-18446744073709551615.raw"),
        Some(summary(1, 2, u64::MAX, CompressionKind::Raw))
    );
    assert_eq!(
        WalSegmentSummary::parse_name(b"000000000000005-4294967295-7.gz"),
        Some(summary(5, 4_294_967_295, 7, CompressionKind::Gzip))
    );
}

#[test]
fn batch_frame_count() {
    assert_eq!(summary(4, 6, 0, CompressionKind::Raw).frame_count(), 3);
    assert_eq!(summary(7, 7, 0, CompressionKind::Raw).frame_count(), 1);
    assert_eq!(summary(8, 7, 0, CompressionKind::Raw).frame_count(), 0);
    assert_eq!(summary(0, u32::MAX, 0, CompressionKind::Raw).frame_count(), 4_294_967_296);
}

#[test]
fn padded_names_sort_as_their_frames() {
    let a = summary(9, 9, 5, CompressionKind::Gzip).file_name();
    let b = summary(10, 12, 5, CompressionKind::Gzip).file_name();
    let c = summary(100, 100, 5, CompressionKind::Gzip).file_name();
    assert!(a < b);
    assert!(b < c);
}

#[test]
fn keys_of_the_small_objects() {
    let g = Generation::from_u128(0xa1a2a3a4_b1b2_c1c2_d1d2_d3d4d5d6d7d8);
    let dir = "mydb-a1a2a3a4-b1b2-c1c2-d1d2-d3d4d5d6d7d8";
    assert_eq!(generation_prefix(b"mydb", &g), dir.as_bytes().to_vec());
    assert_eq!(meta_key(b"mydb", &g), format!("{}/.meta", dir).into_bytes());
    assert_eq!(change_counter_key(b"mydb", &g), format!("{}/.changecounter", dir).into_bytes());
    assert_eq!(dependency_key(b"mydb", &g), format!("{}/.dep", dir).into_bytes());
    assert_eq!(
        snapshot_key(b"mydb", &g, CompressionKind::Raw),
        format!("{}/db.db", dir).into_bytes()
    );
    assert_eq!(
        snapshot_key(b"mydb", &g, CompressionKind::Gzip),
        format!("{}/db.gz", dir).into_bytes()
    );
    assert_eq!(tombstone_key(b"mydb"), b"mydb.tombstone".to_vec());
}

#[test]
fn generation_of_an_object_key() {
    let g = Generation::from_u128(0xa1a2a3a4_b1b2_c1c2_d1d2_d3d4d5d6d7d8);
    assert_eq!(
        generation_of_key(b"mydb", b"mydb-a1a2a3a4-b1b2-c1c2-d1d2-d3d4d5d6d7d8/.meta"),
        Some(g)
    );
    assert_eq!(generation_of_key(b"mydb", b"a1a2a3a4-b1b2-c1c2-d1d2-d3d4d5d6d7d8"), Some(g));
    assert_eq!(generation_of_key(b"mydb", b"mydb-nothing/.meta"), None);
    assert_eq!(generation_of_key(b"mydb", b"my/x"), None);
    assert_eq!(generation_of_key(b"mydb", b"mydb/"), None);
    assert_eq!(generation_of_key(b"mydb", b"mydb.tombstone"), None);
}

#[test]
fn staging_path_to_key() {
    let dir = b"mydb-a1a2a3a4-b1b2-c1c2-d1d2-d3d4d5d6d7d8";
    assert_eq!(
        fpath_to_key(
            b"bottomless/mydb-a1a2a3a4-b1b2-c1c2-d1d2-d3d4d5d6d7d8/0000000001-0000000003-5.gz",
            dir
        ),
        Some(b"mydb-a1a2a3a4-b1b2-c1c2-d1d2-d3d4d5d6d7d8/0000000001-0000000003-5.gz".to_vec())
    );
    assert_eq!(fpath_to_key(b"a/x/b/x/c.raw", b"x"), Some(b"x/c.raw".to_vec()));
    assert_eq!(fpath_to_key(b"a/x/.meta", b"x"), Some(b"x/.meta".to_vec()));
    assert_eq!(fpath_to_key(b"a/x/.dep", b"x"), Some(b"x/.dep".to_vec()));
    assert_eq!(fpath_to_key(b"a/x/.changecounter", b"x"), Some(b"x/.changecounter".to_vec()));
    assert_eq!(fpath_to_key(b"a/x/db.db", b"x"), Some(b"x/db.db".to_vec()));
    assert_eq!(fpath_to_key(b"a/x/notes.txt", b"x"), None);
    assert_eq!(fpath_to_key(b"a/y/c.raw", b"x"), None);
    assert_eq!(fpath_to_key(b"c.raw", b""), Some(b"".to_vec()));
}
