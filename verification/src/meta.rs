//! The small fixed-layout objects of a backup and the two fields of the
//! database file's header that the replicator reads.

use vstd::prelude::*;
use crate::codec::{
    lemma_u32_round_trip, lemma_u64_round_trip, push_be_u32, push_be_u64, read_be_u16,
    read_be_u32, read_be_u64, spec_be_u16, spec_be_u32, spec_be_u64, spec_u32_bytes,
    spec_u64_bytes,
};

verus! {

/// Length of a `.meta` object.
pub const META_SIZE: usize = 12;

/// Length of a tombstone object.
pub const TOMBSTONE_SIZE: usize = 8;

/// Where the page size stands in the header of a database file.
pub const DB_PAGE_SIZE_OFFSET: usize = 16;

/// Where the change counter stands in the header of a database file.
pub const DB_CHANGE_COUNTER_OFFSET: usize = 24;

/// What a generation's `.meta` object holds.
#[derive(Debug, Clone, Copy, PartialEq, Eq, Structural)]
pub struct GenerationMeta {
    /// Page size of the database.
    pub page_size: u32,
    /// The checksum from which the frames of the generation are chained.
    pub initial_checksum: u64,
}

/// The 12 bytes of a `.meta` object: the page size, then the checksum.
pub open spec fn spec_meta_bytes(m: GenerationMeta) -> Seq<u8> {
    spec_u32_bytes(m.page_size) + spec_u64_bytes(m.initial_checksum)
}

/// What 12 bytes say as a `.meta` object.
pub open spec fn spec_meta(b: Seq<u8>) -> GenerationMeta {
    GenerationMeta { page_size: spec_be_u32(b, 0), initial_checksum: spec_be_u64(b, 4) }
}

/// A signed number of seconds as the unsigned number with the same 64 bits.
pub open spec fn spec_tombstone_bits(secs: i64) -> u64 {
    if secs >= 0 {
        secs as u64
    } else {
        (secs + 0x1_0000_0000_0000_0000) as u64
    }
}

/// The signed number of seconds with the given 64 bits.
pub open spec fn spec_tombstone_secs(bits: u64) -> i64 {
    if bits < 0x8000_0000_0000_0000 {
        bits as i64
    } else {
        (bits - 0x1_0000_0000_0000_0000) as i64
    }
}

/// The page size that the header of a database file records: a 16-bit
/// number, where 1 stands for 65536.
pub open spec fn spec_db_page_size(header: Seq<u8>) -> u32 {
    if spec_be_u16(header, DB_PAGE_SIZE_OFFSET as int) == 1 {
        65536
    } else {
        spec_be_u16(header, DB_PAGE_SIZE_OFFSET as int) as u32
    }
}

impl GenerationMeta {
    /// The 12 bytes to store as `.meta`.
    pub fn to_bytes(&self) -> (bytes: Vec<u8>)
        ensures
            bytes@ == spec_meta_bytes(*self),
            bytes@.len() == META_SIZE,
    {
        let mut out: Vec<u8> = Vec::new();
        push_be_u32(&mut out, self.page_size);
        push_be_u64(&mut out, self.initial_checksum);
        assert(out@ =~= spec_meta_bytes(*self));
        out
    }

    /// Reads a `.meta` object, which is exactly 12 bytes.
    pub fn from_bytes(bytes: &[u8]) -> (meta: Option<GenerationMeta>)
        ensures
            meta == if bytes@.len() == META_SIZE {
                Some(spec_meta(bytes@))
            } else {
                None
            },
    {
        if bytes.len() != META_SIZE {
            return None;
        }
        Some(
            GenerationMeta {
                page_size: read_be_u32(bytes, 0),
                initial_checksum: read_be_u64(bytes, 4),
            },
        )
    }
}

/// The 8 bytes of a tombstone: a Unix time in seconds, big-endian.
pub fn tombstone_to_bytes(secs: i64) -> (bytes: Vec<u8>)
    ensures
        bytes@ == spec_u64_bytes(spec_tombstone_bits(secs)),
        bytes@.len() == TOMBSTONE_SIZE,
{
    let bits: u64 = if secs >= 0 {
        secs as u64
    } else {
        (secs as i128 + 0x1_0000_0000_0000_0000) as u64
    };
    let mut out: Vec<u8> = Vec::new();
    push_be_u64(&mut out, bits);
    assert(out@ =~= spec_u64_bytes(bits));
    out
}

/// Reads a tombstone, which is exactly 8 bytes.
pub fn tombstone_from_bytes(bytes: &[u8]) -> (secs: Option<i64>)
    ensures
        secs == if bytes@.len() == TOMBSTONE_SIZE {
            Some(spec_tombstone_secs(spec_be_u64(bytes@, 0)))
        } else {
            None
        },
{
    if bytes.len() != TOMBSTONE_SIZE {
        return None;
    }
    let bits: u64 = read_be_u64(bytes, 0);
    if bits < 0x8000_0000_0000_0000 {
        Some(bits as i64)
    } else {
        Some((bits as i128 - 0x1_0000_0000_0000_0000) as i64)
    }
}

/// The page size that the start of a database file records, where the file
/// is long enough to hold one.
pub fn read_page_size(header: &[u8]) -> (page_size: Option<u32>)
    ensures
        page_size == if header@.len() >= DB_PAGE_SIZE_OFFSET + 2 {
            Some(spec_db_page_size(header@))
        } else {
            None
        },
{
    if header.len() < DB_PAGE_SIZE_OFFSET + 2 {
        return None;
    }
    let raw: u16 = read_be_u16(header, DB_PAGE_SIZE_OFFSET);
    if raw == 1 {
        Some(65536)
    } else {
        Some(raw as u32)
    }
}

/// The change counter that the start of a database file records, where the
/// file is long enough to hold one. The four bytes are read as one number, so
/// that counters compare as their bytes do.
pub fn read_change_counter(header: &[u8]) -> (counter: Option<u32>)
    ensures
        counter == if header@.len() >= DB_CHANGE_COUNTER_OFFSET + 4 {
            Some(spec_be_u32(header@, DB_CHANGE_COUNTER_OFFSET as int))
        } else {
            None
        },
{
    if header.len() < DB_CHANGE_COUNTER_OFFSET + 4 {
        return None;
    }
    Some(read_be_u32(header, DB_CHANGE_COUNTER_OFFSET))
}

/// The four bytes of a change counter, as `.changecounter` holds them.
pub fn change_counter_to_bytes(counter: u32) -> (bytes: Vec<u8>)
    ensures
        bytes@ == spec_u32_bytes(counter),
        bytes@.len() == 4,
{
    let mut out: Vec<u8> = Vec::new();
    push_be_u32(&mut out, counter);
    assert(out@ =~= spec_u32_bytes(counter));
    out
}

/// The change counter that a `.changecounter` object holds. A generation
/// without such an object, or with one that is not four bytes long, counts
/// as zero.
pub fn change_counter_from_object(object: Option<&[u8]>) -> (counter: u32)
    ensures
        counter == match object {
            Some(bytes) => if bytes@.len() == 4 {
                spec_be_u32(bytes@, 0)
            } else {
                0
            },
            None => 0,
        },
{
    match object {
        Some(bytes) => if bytes.len() == 4 {
            read_be_u32(bytes, 0)
        } else {
            0
        },
        None => 0,
    }
}

/// The change counter of the local database file, given its first bytes: zero
/// where there is no file or the file is too short to hold one.
pub fn local_change_counter(header: Option<&[u8]>) -> (counter: u32)
    ensures
        counter == match header {
            Some(bytes) => if bytes@.len() >= DB_CHANGE_COUNTER_OFFSET + 4 {
                spec_be_u32(bytes@, DB_CHANGE_COUNTER_OFFSET as int)
            } else {
                0
            },
            None => 0,
        },
{
    match header {
        Some(bytes) => match read_change_counter(bytes) {
            Some(counter) => counter,
            None => 0,
        },
        None => 0,
    }
}

/// What is stored as `.meta` is what is read from it.
pub proof fn lemma_meta_round_trip(m: GenerationMeta)
    ensures
        spec_meta_bytes(m).len() == META_SIZE,
        spec_meta(spec_meta_bytes(m)) == m,
{
    let e = Seq::<u8>::empty();
    lemma_u32_round_trip(e, m.page_size, spec_u64_bytes(m.initial_checksum));
    lemma_u64_round_trip(spec_u32_bytes(m.page_size), m.initial_checksum, e);
    assert(spec_meta_bytes(m) =~= e + spec_u32_bytes(m.page_size) + spec_u64_bytes(
        m.initial_checksum,
    ));
    assert(spec_meta_bytes(m) =~= spec_u32_bytes(m.page_size) + spec_u64_bytes(m.initial_checksum)
        + e);
}

/// What is stored as a tombstone is what is read from it.
pub proof fn lemma_tombstone_round_trip(secs: i64)
    ensures
        spec_u64_bytes(spec_tombstone_bits(secs)).len() == TOMBSTONE_SIZE,
        spec_tombstone_secs(spec_be_u64(spec_u64_bytes(spec_tombstone_bits(secs)), 0)) == secs,
{
    let e = Seq::<u8>::empty();
    let bits = spec_tombstone_bits(secs);
    lemma_u64_round_trip(e, bits, e);
    assert(e + spec_u64_bytes(bits) + e =~= spec_u64_bytes(bits));
}

} // verus!
