//! Why a damaged frame does not pass: the rolling checksum tells every
//! change of a single byte that it covers.
//!
//! The checksum of a frame covers the page and the first eight bytes of the
//! header, and it is held against the checksum words of the header. The salt
//! words of the header are not covered.

use vstd::prelude::*;
use crate::codec::{lemma_be_u32_injective, lemma_u32_round_trip, spec_be_u32, spec_u32_bytes};
use crate::wal::{
    checksum_chunks, checksum_halves, checksum_join, checksum_step, spec_checksum_be,
    spec_frame_checksum, WalFrameHeader,
};

verus! {

/// One round of the checksum loses nothing of the state: two states that a
/// round takes to the same state, with the same words, are the same.
pub proof fn lemma_step_keeps_states_apart(s: (u32, u32), t: (u32, u32), w0: u32, w1: u32)
    requires
        s != t,
    ensures
        checksum_step(s, w0, w1) != checksum_step(t, w0, w1),
{
}

/// One round of the checksum loses nothing of the words: two pairs of words
/// that take a state to the same state are the same.
pub proof fn lemma_step_keeps_words_apart(s: (u32, u32), w0: u32, w1: u32, v0: u32, v1: u32)
    requires
        w0 != v0 || w1 != v1,
    ensures
        checksum_step(s, w0, w1) != checksum_step(s, v0, v1),
{
}

/// States that differ still differ after any number of chunks of the same
/// data.
pub proof fn lemma_chunks_keep_states_apart(s: (u32, u32), t: (u32, u32), data: Seq<u8>, n: nat)
    requires
        s != t,
    ensures
        checksum_chunks(s, data, n) != checksum_chunks(t, data, n),
    decreases n,
{
    if n > 0 {
        lemma_chunks_keep_states_apart(s, t, data, (n - 1) as nat);
        lemma_step_keeps_states_apart(
            checksum_chunks(s, data, (n - 1) as nat),
            checksum_chunks(t, data, (n - 1) as nat),
            spec_be_u32(data, 8 * (n - 1)),
            spec_be_u32(data, 8 * (n - 1) + 4),
        );
    }
}

/// The state after `n` chunks depends on the first `n` chunks only.
pub proof fn lemma_chunks_of_equal_starts(s: (u32, u32), a: Seq<u8>, b: Seq<u8>, n: nat)
    requires
        8 * n <= a.len(),
        8 * n <= b.len(),
        forall|i: int| 0 <= i < 8 * n ==> a[i] == b[i],
    ensures
        checksum_chunks(s, a, n) == checksum_chunks(s, b, n),
    decreases n,
{
    if n > 0 {
        lemma_chunks_of_equal_starts(s, a, b, (n - 1) as nat);
    }
}

/// A change of one byte changes the state after every chunk from the one
/// that holds the byte.
pub proof fn lemma_changed_byte_changes_state(
    s: (u32, u32),
    data: Seq<u8>,
    at: int,
    byte: u8,
    n: nat,
)
    requires
        0 <= at < data.len(),
        byte != data[at],
        at / 8 < n,
        8 * n <= data.len(),
    ensures
        checksum_chunks(s, data, n) != checksum_chunks(s, data.update(at, byte), n),
    decreases n,
{
    let changed = data.update(at, byte);
    let c = at / 8;
    let before = (n - 1) as nat;
    let off = 8 * (n - 1);
    if c == n - 1 {
        lemma_chunks_of_equal_starts(s, data, changed, before);
        if spec_be_u32(data, 8 * c) == spec_be_u32(changed, 8 * c) && spec_be_u32(data, 8 * c + 4)
            == spec_be_u32(changed, 8 * c + 4) {
            lemma_be_u32_injective(data, 8 * c, changed, 8 * c);
            lemma_be_u32_injective(data, 8 * c + 4, changed, 8 * c + 4);
            assert(false);
        }
        lemma_step_keeps_words_apart(
            checksum_chunks(s, data, before),
            spec_be_u32(data, 8 * c),
            spec_be_u32(data, 8 * c + 4),
            spec_be_u32(changed, 8 * c),
            spec_be_u32(changed, 8 * c + 4),
        );
    } else {
        lemma_changed_byte_changes_state(s, data, at, byte, before);
        assert(spec_be_u32(data, off) == spec_be_u32(changed, off));
        assert(spec_be_u32(data, off + 4) == spec_be_u32(changed, off + 4));
        lemma_step_keeps_states_apart(
            checksum_chunks(s, data, before),
            checksum_chunks(s, changed, before),
            spec_be_u32(data, off),
            spec_be_u32(data, off + 4),
        );
    }
}

/// Checksums that continue from different checksums over the same data
/// differ.
pub proof fn lemma_checksum_keeps_seeds_apart(a: u64, b: u64, data: Seq<u8>)
    requires
        a != b,
    ensures
        spec_checksum_be(a, data) != spec_checksum_be(b, data),
{
    assert(checksum_halves(a) != checksum_halves(b));
    lemma_chunks_keep_states_apart(
        checksum_halves(a),
        checksum_halves(b),
        data,
        data.len() / 8,
    );
}

/// A change of one byte of data that is made of whole chunks changes its
/// checksum.
pub proof fn lemma_checksum_tells_changed_byte(init: u64, data: Seq<u8>, at: int, byte: u8)
    requires
        0 <= at < data.len(),
        byte != data[at],
        data.len() % 8 == 0,
    ensures
        spec_checksum_be(init, data) != spec_checksum_be(init, data.update(at, byte)),
{
    lemma_changed_byte_changes_state(checksum_halves(init), data, at, byte, data.len() / 8);
}

/// Checksum rejection, for the page: a frame that continues the checksum
/// chain does not continue it once a byte of its page is changed.
pub proof fn lemma_damaged_page_is_refused(
    prev: u64,
    header: WalFrameHeader,
    page: Seq<u8>,
    at: int,
    byte: u8,
)
    requires
        spec_frame_checksum(prev, header, page) == header.crc,
        page.len() % 8 == 0,
        0 <= at < page.len(),
        byte != page[at],
    ensures
        spec_frame_checksum(prev, header, page.update(at, byte)) != header.crc,
{
    let head = spec_u32_bytes(header.pgno) + spec_u32_bytes(header.size_after);
    lemma_checksum_tells_changed_byte(spec_checksum_be(prev, head), page, at, byte);
}

/// The first eight bytes of a frame header are one chunk, whose words are
/// the page number and the size after commit.
pub proof fn lemma_head_words(pgno: u32, size_after: u32)
    ensures
        (spec_u32_bytes(pgno) + spec_u32_bytes(size_after)).len() == 8,
        spec_be_u32(spec_u32_bytes(pgno) + spec_u32_bytes(size_after), 0) == pgno,
        spec_be_u32(spec_u32_bytes(pgno) + spec_u32_bytes(size_after), 4) == size_after,
{
    let e = Seq::<u8>::empty();
    let head = spec_u32_bytes(pgno) + spec_u32_bytes(size_after);
    lemma_u32_round_trip(e, pgno, spec_u32_bytes(size_after));
    lemma_u32_round_trip(spec_u32_bytes(pgno), size_after, e);
    assert(e + spec_u32_bytes(pgno) + spec_u32_bytes(size_after) =~= head);
    assert(spec_u32_bytes(pgno) + spec_u32_bytes(size_after) + e =~= head);
}

/// A checksum is told by its two halves.
pub proof fn lemma_join_keeps_states_apart(s: (u32, u32), t: (u32, u32))
    requires
        s != t,
    ensures
        checksum_join(s) != checksum_join(t),
{
}

/// The checksums of two headers that differ in their page number or their
/// size after commit differ.
pub proof fn lemma_head_checksums_differ(prev: u64, a: WalFrameHeader, b: WalFrameHeader)
    requires
        a.pgno != b.pgno || a.size_after != b.size_after,
    ensures
        spec_checksum_be(prev, spec_u32_bytes(a.pgno) + spec_u32_bytes(a.size_after))
            != spec_checksum_be(prev, spec_u32_bytes(b.pgno) + spec_u32_bytes(b.size_after)),
{
    let head = spec_u32_bytes(a.pgno) + spec_u32_bytes(a.size_after);
    let other = spec_u32_bytes(b.pgno) + spec_u32_bytes(b.size_after);
    lemma_head_words(a.pgno, a.size_after);
    lemma_head_words(b.pgno, b.size_after);
    let s = checksum_halves(prev);
    assert(checksum_chunks(s, head, 0) == s);
    assert(checksum_chunks(s, other, 0) == s);
    assert(checksum_chunks(s, head, 1) == checksum_step(s, a.pgno, a.size_after));
    assert(checksum_chunks(s, other, 1) == checksum_step(s, b.pgno, b.size_after));
    lemma_step_keeps_words_apart(s, a.pgno, a.size_after, b.pgno, b.size_after);
    lemma_join_keeps_states_apart(checksum_chunks(s, head, 1), checksum_chunks(s, other, 1));
}

/// Checksum rejection, for the header: a frame that continues the checksum
/// chain does not continue it once its page number, its size after commit or
/// its checksum words are changed.
pub proof fn lemma_damaged_header_is_refused(
    prev: u64,
    header: WalFrameHeader,
    damaged: WalFrameHeader,
    page: Seq<u8>,
)
    requires
        spec_frame_checksum(prev, header, page) == header.crc,
        damaged.pgno != header.pgno || damaged.size_after != header.size_after || damaged.crc
            != header.crc,
        (damaged.pgno != header.pgno || damaged.size_after != header.size_after) ==> damaged.crc
            == header.crc,
    ensures
        spec_frame_checksum(prev, damaged, page) != damaged.crc,
{
    if damaged.pgno != header.pgno || damaged.size_after != header.size_after {
        lemma_head_checksums_differ(prev, header, damaged);
        lemma_checksum_keeps_seeds_apart(
            spec_checksum_be(prev, spec_u32_bytes(header.pgno) + spec_u32_bytes(header.size_after)),
            spec_checksum_be(
                prev,
                spec_u32_bytes(damaged.pgno) + spec_u32_bytes(damaged.size_after),
            ),
            page,
        );
    }
}

} // verus!
