//! The write-ahead log as the replicator reads it: the file header, the frame
//! headers and the rolling checksum that chains the frames together.

use vstd::prelude::*;
use crate::codec::{
    lemma_u32_round_trip, lemma_u64_round_trip, push_be_u32, push_be_u64, read_be_u32, read_be_u64,
    spec_be_u32, spec_be_u64, spec_u32_bytes, spec_u64_bytes,
};

verus! {

/// Size of the header at the start of a WAL file.
pub const WAL_HEADER_SIZE: u64 = 32;

/// Size of the header in front of every page of a WAL file.
pub const WAL_FRAME_HEADER_SIZE: u64 = 24;

/// Magic number of a WAL file; its lowest bit tells the byte order of the
/// checksum words and is not part of the magic.
pub const WAL_MAGIC: u32 = 0x377f_0682;

/// Why a local WAL file could not be used.
#[derive(Debug, Clone, Copy, PartialEq, Eq, Structural)]
pub enum WalError {
    /// There is no WAL file.
    WalAbsent,
    /// The file is too short for its header, has a wrong magic number, or its
    /// length is not a header followed by whole frames.
    WalCorrupt,
}

/// Size of one frame, header and page, of a WAL with the given page size.
pub open spec fn spec_frame_size(page_size: u32) -> int {
    page_size as int + WAL_FRAME_HEADER_SIZE as int
}

/// Whether `header` and `file_len` are the start and the length of a WAL file
/// that the replicator accepts.
pub open spec fn wal_is_sound(header: Seq<u8>, file_len: u64) -> bool {
    &&& header.len() >= WAL_HEADER_SIZE
    &&& file_len >= WAL_HEADER_SIZE
    &&& (spec_be_u32(header, 0) == WAL_MAGIC || spec_be_u32(header, 0) == WAL_MAGIC + 1)
    &&& (file_len - WAL_HEADER_SIZE) % spec_frame_size(spec_be_u32(header, 8)) == 0
    &&& (file_len - WAL_HEADER_SIZE) / spec_frame_size(spec_be_u32(header, 8)) <= u32::MAX
}

/// Number of frames in a WAL file of `file_len` bytes.
pub open spec fn spec_frame_count(file_len: u64, page_size: u32) -> int {
    (file_len - WAL_HEADER_SIZE) / spec_frame_size(page_size)
}

/// Where frame `frame_no` (counted from 1) starts in a WAL file.
pub open spec fn spec_frame_offset(frame_no: u32, page_size: u32) -> int {
    WAL_HEADER_SIZE + (frame_no - 1) * spec_frame_size(page_size)
}

/// What the replicator keeps of a local WAL file: its page size, the checksum
/// that seeds the chain of frame checksums, and its length.
#[derive(Debug, Clone, Copy)]
pub struct WalFileReader {
    page_size: u32,
    checksum: u64,
    file_len: u64,
}

impl WalFileReader {
    /// Page size of the database, as the WAL header records it.
    pub closed spec fn spec_page_size(&self) -> u32 {
        self.page_size
    }

    /// The two checksum words of the WAL header, the first in the upper half.
    pub closed spec fn spec_checksum(&self) -> u64 {
        self.checksum
    }

    /// Length of the WAL file.
    pub closed spec fn spec_file_len(&self) -> u64 {
        self.file_len
    }

    /// A reader holds a length that is its header followed by whole frames,
    /// not more of them than a frame number can count.
    #[verifier::type_invariant]
    pub closed spec fn inv(&self) -> bool {
        &&& self.file_len >= WAL_HEADER_SIZE
        &&& (self.file_len - WAL_HEADER_SIZE) % spec_frame_size(self.page_size) == 0
        &&& spec_frame_count(self.file_len, self.page_size) <= u32::MAX
    }

    /// Reads the header of a WAL file. `header` holds the first bytes of the
    /// file (at least 32 of them where the file has as many), or nothing where
    /// there is no file; `file_len` is the length of the file.
    pub fn open(header: Option<&[u8]>, file_len: u64) -> (opened: Result<WalFileReader, WalError>)
        ensures
            match opened {
                Ok(wal) => {
                    &&& header.is_some()
                    &&& wal_is_sound(header.unwrap()@, file_len)
                    &&& wal.spec_page_size() == spec_be_u32(header.unwrap()@, 8)
                    &&& wal.spec_checksum() == spec_be_u64(header.unwrap()@, 24)
                    &&& wal.spec_file_len() == file_len
                },
                Err(WalError::WalAbsent) => header.is_none(),
                Err(WalError::WalCorrupt) => header.is_some() && !wal_is_sound(
                    header.unwrap()@,
                    file_len,
                ),
            },
    {
        let bytes: &[u8] = match header {
            Some(bytes) => bytes,
            None => {
                return Err(WalError::WalAbsent);
            },
        };
        if bytes.len() < 32 || file_len < WAL_HEADER_SIZE {
            return Err(WalError::WalCorrupt);
        }
        let magic: u32 = read_be_u32(bytes, 0);
        if magic != WAL_MAGIC && magic != WAL_MAGIC + 1 {
            return Err(WalError::WalCorrupt);
        }
        let page_size: u32 = read_be_u32(bytes, 8);
        let frame_size: u64 = page_size as u64 + WAL_FRAME_HEADER_SIZE;
        let body: u64 = file_len - WAL_HEADER_SIZE;
        if body % frame_size != 0 || body / frame_size > u32::MAX as u64 {
            return Err(WalError::WalCorrupt);
        }
        Ok(WalFileReader { page_size, checksum: read_be_u64(bytes, 24), file_len })
    }

    /// Page size of the database, as the WAL header records it.
    pub fn page_size(&self) -> (size: u32)
        ensures
            size == self.spec_page_size(),
    {
        self.page_size
    }

    /// The two checksum words of the WAL header, the first in the upper half.
    pub fn checksum(&self) -> (seed: u64)
        ensures
            seed == self.spec_checksum(),
    {
        self.checksum
    }

    /// Number of frames in the file.
    pub fn frame_count(&self) -> (count: u32)
        ensures
            count == spec_frame_count(self.spec_file_len(), self.spec_page_size()),
    {
        proof {
            use_type_invariant(self);
        }
        let frame_size: u64 = self.page_size as u64 + WAL_FRAME_HEADER_SIZE;
        ((self.file_len - WAL_HEADER_SIZE) / frame_size) as u32
    }

    /// Where frame `frame_no` starts in the file, where it is a frame of the
    /// file. Frames are counted from 1.
    pub fn frame_offset(&self, frame_no: u32) -> (offset: Option<u64>)
        ensures
            offset == if 1 <= frame_no <= spec_frame_count(
                self.spec_file_len(),
                self.spec_page_size(),
            ) {
                Some(spec_frame_offset(frame_no, self.spec_page_size()) as u64)
            } else {
                None
            },
            offset is Some ==> spec_frame_offset(frame_no, self.spec_page_size()) + spec_frame_size(
                self.spec_page_size(),
            ) <= self.spec_file_len(),
    {
        proof {
            use_type_invariant(self);
        }
        if frame_no < 1 || frame_no > self.frame_count() {
            return None;
        }
        let frame_size: u64 = self.page_size as u64 + WAL_FRAME_HEADER_SIZE;
        let body: u64 = self.file_len - WAL_HEADER_SIZE;
        assert(frame_no * frame_size <= body) by (nonlinear_arith)
            requires
                frame_no <= body as int / frame_size as int,
                frame_size > 0,
        ;
        assert((frame_no - 1) * frame_size == frame_no * frame_size - frame_size)
            by (nonlinear_arith);
        Some(WAL_HEADER_SIZE + (frame_no as u64 - 1) * frame_size)
    }
}

/// One round of the rolling checksum: two 32-bit words are folded into the
/// two halves of the state, each half feeding the other.
pub open spec fn checksum_step(s: (u32, u32), w0: u32, w1: u32) -> (u32, u32) {
    let upper = s.0.wrapping_add(w0).wrapping_add(s.1);
    let lower = s.1.wrapping_add(w1).wrapping_add(upper);
    (upper, lower)
}

/// The checksum state after the first `chunks` eight-byte chunks of `data`.
pub open spec fn checksum_chunks(s: (u32, u32), data: Seq<u8>, chunks: nat) -> (u32, u32)
    decreases chunks,
{
    if chunks == 0 {
        s
    } else {
        checksum_step(
            checksum_chunks(s, data, (chunks - 1) as nat),
            spec_be_u32(data, 8 * (chunks - 1)),
            spec_be_u32(data, 8 * (chunks - 1) + 4),
        )
    }
}

/// The two halves of a checksum, the first word in the upper half.
pub open spec fn checksum_halves(sum: u64) -> (u32, u32) {
    ((sum / 0x1_0000_0000) as u32, (sum % 0x1_0000_0000) as u32)
}

/// A checksum from its two halves.
pub open spec fn checksum_join(s: (u32, u32)) -> u64 {
    (s.0 as int * 0x1_0000_0000 + s.1 as int) as u64
}

/// The rolling checksum of `data`, continued from `init`. The words are read
/// big-endian, eight bytes at a time; bytes after the last whole chunk do not
/// count.
pub open spec fn spec_checksum_be(init: u64, data: Seq<u8>) -> u64 {
    checksum_join(checksum_chunks(checksum_halves(init), data, data.len() / 8))
}

/// Continues the rolling checksum `init` over `data`.
pub fn checksum_be(init: u64, data: &[u8]) -> (sum: u64)
    ensures
        sum == spec_checksum_be(init, data@),
{
    let mut upper: u32 = (init / 0x1_0000_0000) as u32;
    let mut lower: u32 = (init % 0x1_0000_0000) as u32;
    let mut i: usize = 0;
    let ghost mut k: nat = 0;
    while data.len() - i >= 8
        invariant
            i <= data.len(),
            i == 8 * k,
            (upper, lower) == checksum_chunks(checksum_halves(init), data@, k),
        decreases data.len() - i,
    {
        let w0: u32 = read_be_u32(data, i);
        let w1: u32 = read_be_u32(data, i + 4);
        upper = upper.wrapping_add(w0).wrapping_add(lower);
        lower = lower.wrapping_add(w1).wrapping_add(upper);
        i += 8;
        proof {
            k = k + 1;
        }
    }
    assert(k == data@.len() / 8);
    (upper as u64) * 0x1_0000_0000 + (lower as u64)
}

/// A frame's checksum did not continue the chain.
#[derive(Debug, Clone, Copy, PartialEq, Eq, Structural)]
pub struct ChecksumMismatch {
    /// Page number of the frame that was refused.
    pub pgno: u32,
    /// Checksum that the frame header carries.
    pub expected: u64,
    /// Checksum that the frame's bytes give.
    pub computed: u64,
}

/// The header in front of a page in the WAL and in a batch.
#[derive(Debug, Clone, Copy, PartialEq, Eq, Structural)]
pub struct WalFrameHeader {
    /// Number of the page that follows, counted from 1.
    pub pgno: u32,
    /// Size of the database in pages after the transaction, on the frame that
    /// commits it; zero on every other frame.
    pub size_after: u32,
    /// The two salt words, copied from the WAL header.
    pub salt: u64,
    /// The two checksum words, the first in the upper half.
    pub crc: u64,
}

/// The frame header that 24 bytes spell.
pub open spec fn spec_frame_header(b: Seq<u8>) -> WalFrameHeader {
    WalFrameHeader {
        pgno: spec_be_u32(b, 0),
        size_after: spec_be_u32(b, 4),
        salt: spec_be_u64(b, 8),
        crc: spec_be_u64(b, 16),
    }
}

/// The 24 bytes of a frame header.
pub open spec fn spec_frame_header_bytes(h: WalFrameHeader) -> Seq<u8> {
    spec_u32_bytes(h.pgno) + spec_u32_bytes(h.size_after) + spec_u64_bytes(h.salt)
        + spec_u64_bytes(h.crc)
}

/// The checksum that a frame must carry to continue the chain from `prev`:
/// it covers the first eight bytes of the header and then the page.
pub open spec fn spec_frame_checksum(prev: u64, h: WalFrameHeader, page: Seq<u8>) -> u64 {
    spec_checksum_be(
        spec_checksum_be(prev, spec_u32_bytes(h.pgno) + spec_u32_bytes(h.size_after)),
        page,
    )
}

impl WalFrameHeader {
    /// Size of a frame header in bytes.
    pub const SIZE: usize = 24;

    /// Reads a frame header from exactly 24 bytes.
    pub fn parse(bytes: &[u8]) -> (header: Option<WalFrameHeader>)
        ensures
            header == if bytes@.len() == 24 {
                Some(spec_frame_header(bytes@))
            } else {
                None
            },
    {
        if bytes.len() != 24 {
            return None;
        }
        Some(
            WalFrameHeader {
                pgno: read_be_u32(bytes, 0),
                size_after: read_be_u32(bytes, 4),
                salt: read_be_u64(bytes, 8),
                crc: read_be_u64(bytes, 16),
            },
        )
    }

    /// The 24 bytes of this header.
    pub fn to_bytes(&self) -> (bytes: Vec<u8>)
        ensures
            bytes@ == spec_frame_header_bytes(*self),
            bytes@.len() == 24,
    {
        let mut out: Vec<u8> = Vec::new();
        push_be_u32(&mut out, self.pgno);
        push_be_u32(&mut out, self.size_after);
        push_be_u64(&mut out, self.salt);
        push_be_u64(&mut out, self.crc);
        assert(out@ =~= spec_frame_header_bytes(*self));
        out
    }

    /// Number of the page that this frame carries.
    pub fn pgno(&self) -> (n: u32)
        ensures
            n == self.pgno,
    {
        self.pgno
    }

    /// Size of the database after the transaction, zero unless this frame
    /// commits one.
    pub fn size_after(&self) -> (n: u32)
        ensures
            n == self.size_after,
    {
        self.size_after
    }

    /// The checksum that this frame carries.
    pub fn crc(&self) -> (sum: u64)
        ensures
            sum == self.crc,
    {
        self.crc
    }

    /// Whether this frame ends a transaction.
    pub open spec fn spec_is_committed(&self) -> bool {
        self.size_after != 0
    }

    /// Whether this frame ends a transaction.
    #[verifier::when_used_as_spec(spec_is_committed)]
    pub fn is_committed(&self) -> (committed: bool)
        ensures
            committed == self.spec_is_committed(),
    {
        self.size_after != 0
    }

    /// Checks that this frame continues the checksum chain from `init_crc`
    /// over `page_data`, and hands back the checksum to continue from.
    pub fn verify(&self, init_crc: u64, page_data: &[u8]) -> (verified: Result<
        u64,
        ChecksumMismatch,
    >)
        ensures
            verified == if spec_frame_checksum(init_crc, *self, page_data@) == self.crc {
                Ok::<u64, ChecksumMismatch>(self.crc)
            } else {
                Err::<u64, ChecksumMismatch>(
                    ChecksumMismatch {
                        pgno: self.pgno,
                        expected: self.crc,
                        computed: spec_frame_checksum(init_crc, *self, page_data@),
                    },
                )
            },
    {
        let mut head: Vec<u8> = Vec::new();
        push_be_u32(&mut head, self.pgno);
        push_be_u32(&mut head, self.size_after);
        assert(head@ =~= spec_u32_bytes(self.pgno) + spec_u32_bytes(self.size_after));
        let crc: u64 = checksum_be(checksum_be(init_crc, head.as_slice()), page_data);
        if crc == self.crc {
            Ok(crc)
        } else {
            Err(ChecksumMismatch { pgno: self.pgno, expected: self.crc, computed: crc })
        }
    }

    /// A header for `page_data` that continues the checksum chain from
    /// `init_crc`.
    pub fn seal(pgno: u32, size_after: u32, salt: u64, init_crc: u64, page_data: &[u8]) -> (header:
        WalFrameHeader)
        ensures
            header.pgno == pgno,
            header.size_after == size_after,
            header.salt == salt,
            header.crc == spec_frame_checksum(init_crc, header, page_data@),
    {
        let mut head: Vec<u8> = Vec::new();
        push_be_u32(&mut head, pgno);
        push_be_u32(&mut head, size_after);
        assert(head@ =~= spec_u32_bytes(pgno) + spec_u32_bytes(size_after));
        let crc: u64 = checksum_be(checksum_be(init_crc, head.as_slice()), page_data);
        WalFrameHeader { pgno, size_after, salt, crc }
    }
}

/// What is written is what is read: a header survives its 24 bytes.
pub proof fn lemma_frame_header_round_trip(h: WalFrameHeader)
    ensures
        spec_frame_header_bytes(h).len() == 24,
        spec_frame_header(spec_frame_header_bytes(h)) == h,
{
    let e = Seq::<u8>::empty();
    let p = spec_u32_bytes(h.pgno);
    let s = spec_u32_bytes(h.size_after);
    let t = spec_u64_bytes(h.salt);
    let c = spec_u64_bytes(h.crc);
    let b = spec_frame_header_bytes(h);
    lemma_u32_round_trip(e, h.pgno, s + t + c);
    lemma_u32_round_trip(p, h.size_after, t + c);
    lemma_u64_round_trip(p + s, h.salt, c);
    lemma_u64_round_trip(p + s + t, h.crc, e);
    assert(b =~= e + p + (s + t + c));
    assert(b =~= p + s + (t + c));
    assert(b =~= (p + s) + t + c);
    assert(b =~= (p + s + t) + c + e);
}

} // verus!
