use bottomless::meta::{
    change_counter_from_object, change_counter_to_bytes, local_change_counter,
    read_change_counter, read_page_size, tombstone_from_bytes, tombstone_to_bytes, GenerationMeta,
};
use bottomless::compression::CompressionKind;
use bottomless::copier::{meta_for_run, plan_batches};
use bottomless::generation::Generation;
use bottomless::replicator::FrameRange;
use bottomless::wal::{
    checksum_be, ChecksumMismatch, WalError, WalFileReader, WalFrameHeader, WAL_MAGIC,
};

fn wal_header(magic: u32, page_size: u32, checksum: u64) -> Vec<u8> {
    let mut h = vec![0u8; 32];
    h[0..4].copy_from_slice(&magic.to_be_bytes());
    h[4..8].copy_from_slice(&3_007_000u32.to_be_bytes());
    h[8..12].copy_from_slice(&page_size.to_be_bytes());
    h[16..20].copy_from_slice(&0xaabbccddu32.to_be_bytes());
    h[20..24].copy_from_slice(&0x11223344u32.to_be_bytes());
    h[24..32].copy_from_slice(&checksum.to_be_bytes());
    h
}

#[test]
fn wal_without_a_file_is_absent() {
    assert_eq!(WalFileReader::open(None, 0).err(), Some(WalError::WalAbsent));
    assert_eq!(WalFileReader::open(None, 4096).err(), Some(WalError::WalAbsent));
}

#[test]
fn wal_header_is_read() {
    let h = wal_header(WAL_MAGIC, 4096, 0x0102030405060708);
    let wal = WalFileReader::open(Some(&h), 32 + 7 * (4096 + 24)).unwrap();
    assert_eq!(wal.page_size(), 4096);
    assert_eq!(wal.checksum(), 0x0102030405060708);
    assert_eq!(wal.frame_count(), 7);
    assert_eq!(wal.frame_offset(1), Some(32));
    assert_eq!(wal.frame_offset(2), Some(32 + 4120));
    assert_eq!(wal.frame_offset(7), Some(32 + 6 * 4120));
    assert_eq!(wal.frame_offset(0), None);
    assert_eq!(wal.frame_offset(8), None);
}

#[test]
fn wal_with_either_magic_is_taken() {
    let h = wal_header(WAL_MAGIC + 1, 512, 9);
    let wal = WalFileReader::open(Some(&h), 32).unwrap();
    assert_eq!(wal.frame_count(), 0);
    assert_eq!(wal.page_size(), 512);
}

#[test]
fn wal_with_bad_magic_is_corrupt() {
    let h = wal_header(WAL_MAGIC + 2, 4096, 0);
    assert_eq!(WalFileReader::open(Some(&h), 32).err(), Some(WalError::WalCorrupt));
    let z = wal_header(0, 4096, 0);
    assert_eq!(WalFileReader::open(Some(&z), 32).err(), Some(WalError::WalCorrupt));
}

#[test]
fn wal_of_uneven_length_is_corrupt() {
    let h = wal_header(WAL_MAGIC, 4096, 0);
    assert_eq!(WalFileReader::open(Some(&h), 32 + 4120 + 1).err(), Some(WalError::WalCorrupt));
    assert_eq!(WalFileReader::open(Some(&h), 33).err(), Some(WalError::WalCorrupt));
}

#[test]
fn wal_shorter_than_its_header_is_corrupt() {
    let h = wal_header(WAL_MAGIC, 4096, 0);
    assert_eq!(WalFileReader::open(Some(&h[..31]), 31).err(), Some(WalError::WalCorrupt));
    assert_eq!(WalFileReader::open(Some(&[]), 0).err(), Some(WalError::WalCorrupt));
    assert_eq!(WalFileReader::open(Some(&h), 31).err(), Some(WalError::WalCorrupt));
}

#[test]
fn wal_with_more_frames_than_can_be_counted_is_corrupt() {
    let h = wal_header(WAL_MAGIC, 0, 0);
    let len: u64 = 32 + 24 * (u32::MAX as u64 + 1);
    assert_eq!(WalFileReader::open(Some(&h), len).err(), Some(WalError::WalCorrupt));
    let most = WalFileReader::open(Some(&h), 32 + 24 * (u32::MAX as u64)).unwrap();
    assert_eq!(most.frame_count(), u32::MAX);
    assert_eq!(most.frame_offset(u32::MAX), Some(32 + 24 * (u32::MAX as u64 - 1)));
}

#[test]
fn checksum_of_known_chunks() {
    assert_eq!(checksum_be(0, &[0, 0, 0, 1, 0, 0, 0, 2]), 0x0000_0001_0000_0003);
    assert_eq!(
        checksum_be(0, &[0, 0, 0, 1, 0, 0, 0, 2, 0, 0, 0, 3, 0, 0, 0, 4]),
        0x0000_0007_0000_000e
    );
    assert_eq!(checksum_be(0x0000_0001_0000_0003, &[0, 0, 0, 3, 0, 0, 0, 4]), 0x0000_0007_0000_000e);
}

#[test]
fn checksum_wraps() {
    assert_eq!(
        checksum_be(0xffff_ffff_ffff_ffff, &[0, 0, 0, 1, 0, 0, 0, 0]),
        0xffff_ffff_ffff_fffe
    );
}

#[test]
fn checksum_reads_words_big_endian() {
    assert_eq!(
        checksum_be(0, &[0x12, 0x34, 0x56, 0x78, 0x9a, 0xbc, 0xde, 0xf0]),
        0x1234_5678_acf1_3568
    );
}

#[test]
fn checksum_of_nothing_is_the_seed() {
    assert_eq!(checksum_be(0xdead_beef_0bad_f00d, &[]), 0xdead_beef_0bad_f00d);
}

#[test]
fn checksum_leaves_out_a_trailing_part_chunk() {
    assert_eq!(checksum_be(5, &[1, 2, 3, 4, 5, 6, 7]), 5);
    assert_eq!(
        checksum_be(0, &[0, 0, 0, 1, 0, 0, 0, 2, 9, 9, 9]),
        checksum_be(0, &[0, 0, 0, 1, 0, 0, 0, 2])
    );
}

#[test]
fn frame_header_is_read_from_24_bytes() {
    let mut b = vec![0u8; 24];
    b[0..4].copy_from_slice(&7u32.to_be_bytes());
    b[4..8].copy_from_slice(&12u32.to_be_bytes());
    b[8..16].copy_from_slice(&0xaabbccdd11223344u64.to_be_bytes());
    b[16..24].copy_from_slice(&0x0102030405060708u64.to_be_bytes());
    let h = WalFrameHeader::parse(&b).unwrap();
    assert_eq!(h.pgno(), 7);
    assert_eq!(h.size_after(), 12);
    assert_eq!(h.salt, 0xaabbccdd11223344);
    assert_eq!(h.crc(), 0x0102030405060708);
    assert!(h.is_committed());
    assert_eq!(h.to_bytes(), b);
    assert_eq!(WalFrameHeader::SIZE, 24);
}

#[test]
fn frame_header_of_another_length_is_none() {
    assert_eq!(WalFrameHeader::parse(&[0u8; 23]), None);
    assert_eq!(WalFrameHeader::parse(&[0u8; 25]), None);
    assert_eq!(WalFrameHeader::parse(&[]), None);
}

#[test]
fn frame_without_size_after_is_not_committed() {
    let h = WalFrameHeader { pgno: 1, size_after: 0, salt: 0, crc: 0 };
    assert!(!h.is_committed());
}

#[test]
fn frame_checksum_covers_head_and_page() {
    let page = vec![0u8, 0, 0, 3, 0, 0, 0, 4];
    // The head holds the words 1 and 2, the page the words 3 and 4.
    let h = WalFrameHeader { pgno: 1, size_after: 2, salt: 77, crc: 0x0000_0007_0000_000e };
    assert_eq!(h.verify(0, &page), Ok(0x0000_0007_0000_000e));
    let sealed = WalFrameHeader::seal(1, 2, 77, 0, &page);
    assert_eq!(sealed, h);
}

#[test]
fn frame_with_wrong_checksum_is_refused() {
    let page = vec![0u8, 0, 0, 3, 0, 0, 0, 4];
    let h = WalFrameHeader { pgno: 1, size_after: 2, salt: 77, crc: 0x0000_0007_0000_000f };
    assert_eq!(
        h.verify(0, &page),
        Err(ChecksumMismatch {
            pgno: 1,
            expected: 0x0000_0007_0000_000f,
            computed: 0x0000_0007_0000_000e
        })
    );
}

#[test]
fn single_changed_byte_is_told_by_the_checksum() {
    let mut page = vec![0u8; 512];
    for (i, b) in page.iter_mut().enumerate() {
        *b = (i * 7 % 251) as u8;
    }
    let h = WalFrameHeader::seal(3, 0, 1, 0x1111_2222_3333_4444, &page);
    assert_eq!(h.verify(0x1111_2222_3333_4444, &page), Ok(h.crc));
    for at in [0usize, 1, 7, 8, 255, 504, 511] {
        let mut damaged = page.clone();
        damaged[at] ^= 0x40;
        assert!(h.verify(0x1111_2222_3333_4444, &damaged).is_err());
    }
    let other_page_no = WalFrameHeader { pgno: 4, ..h };
    assert!(other_page_no.verify(0x1111_2222_3333_4444, &page).is_err());
    let other_size = WalFrameHeader { size_after: 1, ..h };
    assert!(other_size.verify(0x1111_2222_3333_4444, &page).is_err());
    let other_crc = WalFrameHeader { crc: h.crc ^ 1, ..h };
    assert!(other_crc.verify(0x1111_2222_3333_4444, &page).is_err());
    let other_salt = WalFrameHeader { salt: 2, ..h };
    assert_eq!(other_salt.verify(0x1111_2222_3333_4444, &page), Ok(h.crc));
}

#[test]
fn meta_is_twelve_bytes() {
    let m = GenerationMeta { page_size: 4096, initial_checksum: 0x0102030405060708 };
    let bytes = m.to_bytes();
    assert_eq!(bytes, vec![0, 0, 0x10, 0, 1, 2, 3, 4, 5, 6, 7, 8]);
    assert_eq!(GenerationMeta::from_bytes(&bytes), Some(m));
    assert_eq!(GenerationMeta::from_bytes(&bytes[..11]), None);
    assert_eq!(GenerationMeta::from_bytes(&[0u8; 13]), None);
}

#[test]
fn tombstone_is_eight_bytes() {
    assert_eq!(tombstone_to_bytes(1_700_000_000), vec![0, 0, 0, 0, 0x65, 0x53, 0xf1, 0x00]);
    assert_eq!(tombstone_from_bytes(&[0, 0, 0, 0, 0x65, 0x53, 0xf1, 0x00]), Some(1_700_000_000));
    assert_eq!(tombstone_to_bytes(-1), vec![0xff; 8]);
    assert_eq!(tombstone_from_bytes(&[0xff; 8]), Some(-1));
    assert_eq!(tombstone_from_bytes(&i64::MIN.to_be_bytes()), Some(i64::MIN));
    assert_eq!(tombstone_to_bytes(i64::MIN), i64::MIN.to_be_bytes().to_vec());
    assert_eq!(tombstone_from_bytes(&i64::MAX.to_be_bytes()), Some(i64::MAX));
    assert_eq!(tombstone_from_bytes(&[0u8; 7]), None);
    assert_eq!(tombstone_from_bytes(&[0u8; 9]), None);
}

#[test]
fn page_size_of_a_database_header() {
    let mut h = vec![0u8; 100];
    h[16] = 0x10;
    h[17] = 0x00;
    assert_eq!(read_page_size(&h), Some(4096));
    h[16] = 0;
    h[17] = 1;
    assert_eq!(read_page_size(&h), Some(65536));
    h[16] = 0x02;
    h[17] = 0x00;
    assert_eq!(read_page_size(&h), Some(512));
    assert_eq!(read_page_size(&h[..18]), Some(512));
    assert_eq!(read_page_size(&h[..17]), None);
    assert_eq!(read_page_size(&[]), None);
}

#[test]
fn change_counter_of_a_database_header() {
    let mut h = vec![0u8; 100];
    h[24..28].copy_from_slice(&[0, 0, 1, 2]);
    assert_eq!(read_change_counter(&h), Some(258));
    assert_eq!(read_change_counter(&h[..28]), Some(258));
    assert_eq!(read_change_counter(&h[..27]), None);
}

#[test]
fn copy_plan_of_a_run() {
    let h = wal_header(WAL_MAGIC, 4096, 0x0102030405060708);
    let wal = WalFileReader::open(Some(&h), 32 + 7 * 4120).unwrap();
    let g = Generation::from_u128(0xa1a2a3a4_b1b2_c1c2_d1d2_d3d4d5d6d7d8);
    let dir = "mydb-a1a2a3a4-b1b2-c1c2-d1d2-d3d4d5d6d7d8";
    let run = FrameRange { first: 4, last: 7 };
    let plans = plan_batches(&wal, b"mydb", &g, run, 3, 99, CompressionKind::Gzip).unwrap();
    assert_eq!(plans.len(), 2);
    assert_eq!(plans[0].key, format!("{}/0000000004-0000000006-99.gz", dir).into_bytes());
    assert_eq!(plans[0].wal_offset, 32 + 3 * 4120);
    assert_eq!(plans[0].len, 3 * 4120);
    assert_eq!(plans[0].summary.first_frame_no, 4);
    assert_eq!(plans[0].summary.last_frame_no, 6);
    assert_eq!(plans[0].summary.timestamp, 99);
    assert_eq!(plans[1].key, format!("{}/0000000007-0000000007-99.gz", dir).into_bytes());
    assert_eq!(plans[1].wal_offset, 32 + 6 * 4120);
    assert_eq!(plans[1].len, 4120);
    assert_eq!(meta_for_run(&wal, run), None);
    assert_eq!(
        meta_for_run(&wal, FrameRange { first: 1, last: 3 }),
        Some(GenerationMeta { page_size: 4096, initial_checksum: 0x0102030405060708 })
    );
}

#[test]
fn no_copy_plan_for_frames_outside_the_wal() {
    let h = wal_header(WAL_MAGIC, 4096, 0);
    let wal = WalFileReader::open(Some(&h), 32 + 7 * 4120).unwrap();
    let g = Generation::from_u128(1);
    for (first, last) in [(0u32, 3u32), (1, 8), (5, 4), (8, 8)] {
        let run = FrameRange { first, last };
        assert!(plan_batches(&wal, b"db", &g, run, 3, 0, CompressionKind::Raw).is_none());
    }
    let all = FrameRange { first: 1, last: 7 };
    assert_eq!(plan_batches(&wal, b"db", &g, all, 500, 0, CompressionKind::Raw).unwrap().len(), 1);
}

#[test]
fn change_counters_of_objects_and_files() {
    assert_eq!(change_counter_to_bytes(258), vec![0, 0, 1, 2]);
    assert_eq!(change_counter_from_object(Some(&[0, 0, 1, 2])), 258);
    assert_eq!(change_counter_from_object(Some(&[0, 0, 1])), 0);
    assert_eq!(change_counter_from_object(Some(&[0, 0, 1, 2, 3])), 0);
    assert_eq!(change_counter_from_object(None), 0);
    let mut h = vec![0u8; 100];
    h[24..28].copy_from_slice(&[1, 0, 0, 0]);
    assert_eq!(local_change_counter(Some(&h)), 1 << 24);
    assert_eq!(local_change_counter(Some(&h[..27])), 0);
    assert_eq!(local_change_counter(None), 0);
}
