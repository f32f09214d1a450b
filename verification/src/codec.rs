//! Big-endian integers as bytes.
//!
//! Every fixed-layout blob of the backup (`.meta`, the tombstone, WAL headers)
//! is made of these.

use vstd::prelude::*;

verus! {

/// The big-endian 16-bit number that starts at `at`.
pub open spec fn spec_be_u16(b: Seq<u8>, at: int) -> u16 {
    (b[at] as int * 0x100 + b[at + 1] as int) as u16
}

/// The big-endian 32-bit number that starts at `at`.
pub open spec fn spec_be_u32(b: Seq<u8>, at: int) -> u32 {
    (b[at] as int * 0x100_0000 + b[at + 1] as int * 0x1_0000 + b[at + 2] as int * 0x100 + b[at
        + 3] as int) as u32
}

/// The big-endian 64-bit number that starts at `at`.
pub open spec fn spec_be_u64(b: Seq<u8>, at: int) -> u64 {
    (spec_be_u32(b, at) as int * 0x1_0000_0000 + spec_be_u32(b, at + 4) as int) as u64
}

/// The big-endian 128-bit number that starts at `at`.
pub open spec fn spec_be_u128(b: Seq<u8>, at: int) -> u128 {
    (spec_be_u64(b, at) as int * 0x1_0000_0000_0000_0000 + spec_be_u64(b, at + 8) as int) as u128
}

/// The four bytes of `v`, most significant first.
pub open spec fn spec_u32_bytes(v: u32) -> Seq<u8> {
    seq![
        (v / 0x100_0000) as u8,
        (v / 0x1_0000 % 0x100) as u8,
        (v / 0x100 % 0x100) as u8,
        (v % 0x100) as u8,
    ]
}

/// The eight bytes of `v`, most significant first.
pub open spec fn spec_u64_bytes(v: u64) -> Seq<u8> {
    spec_u32_bytes((v / 0x1_0000_0000) as u32) + spec_u32_bytes((v % 0x1_0000_0000) as u32)
}

/// The sixteen bytes of `v`, most significant first.
pub open spec fn spec_u128_bytes(v: u128) -> Seq<u8> {
    spec_u64_bytes((v / 0x1_0000_0000_0000_0000) as u64) + spec_u64_bytes(
        (v % 0x1_0000_0000_0000_0000) as u64,
    )
}

/// Reads the big-endian 16-bit number that starts at `at`.
pub fn read_be_u16(b: &[u8], at: usize) -> (v: u16)
    requires
        at + 2 <= b.len(),
    ensures
        v == spec_be_u16(b@, at as int),
{
    (b[at] as u16) * 0x100 + (b[at + 1] as u16)
}

/// Reads the big-endian 32-bit number that starts at `at`.
pub fn read_be_u32(b: &[u8], at: usize) -> (v: u32)
    requires
        at + 4 <= b.len(),
    ensures
        v == spec_be_u32(b@, at as int),
{
    (b[at] as u32) * 0x100_0000 + (b[at + 1] as u32) * 0x1_0000 + (b[at + 2] as u32) * 0x100 + (
    b[at + 3] as u32)
}

/// Reads the big-endian 64-bit number that starts at `at`.
pub fn read_be_u64(b: &[u8], at: usize) -> (v: u64)
    requires
        at + 8 <= b.len(),
    ensures
        v == spec_be_u64(b@, at as int),
{
    let hi: u32 = read_be_u32(b, at);
    let lo: u32 = read_be_u32(b, at + 4);
    (hi as u64) * 0x1_0000_0000 + (lo as u64)
}

/// Reads the big-endian 128-bit number that starts at `at`.
pub fn read_be_u128(b: &[u8], at: usize) -> (v: u128)
    requires
        at + 16 <= b.len(),
    ensures
        v == spec_be_u128(b@, at as int),
{
    let hi: u64 = read_be_u64(b, at);
    let lo: u64 = read_be_u64(b, at + 8);
    (hi as u128) * 0x1_0000_0000_0000_0000 + (lo as u128)
}

/// Appends the four bytes of `v`, most significant first.
pub fn push_be_u32(out: &mut Vec<u8>, v: u32)
    ensures
        final(out)@ == old(out)@ + spec_u32_bytes(v),
{
    out.push((v / 0x100_0000) as u8);
    out.push((v / 0x1_0000 % 0x100) as u8);
    out.push((v / 0x100 % 0x100) as u8);
    out.push((v % 0x100) as u8);
    assert(out@ =~= old(out)@ + spec_u32_bytes(v));
}

/// Appends the eight bytes of `v`, most significant first.
pub fn push_be_u64(out: &mut Vec<u8>, v: u64)
    ensures
        final(out)@ == old(out)@ + spec_u64_bytes(v),
{
    push_be_u32(out, (v / 0x1_0000_0000) as u32);
    push_be_u32(out, (v % 0x1_0000_0000) as u32);
    assert(out@ =~= old(out)@ + spec_u64_bytes(v));
}

/// Appends the sixteen bytes of `v`, most significant first.
pub fn push_be_u128(out: &mut Vec<u8>, v: u128)
    ensures
        final(out)@ == old(out)@ + spec_u128_bytes(v),
{
    push_be_u64(out, (v / 0x1_0000_0000_0000_0000) as u64);
    push_be_u64(out, (v % 0x1_0000_0000_0000_0000) as u64);
    assert(out@ =~= old(out)@ + spec_u128_bytes(v));
}

/// Reading back what was written gives the number that was written, wherever
/// the four bytes stand.
pub proof fn lemma_u32_round_trip(pre: Seq<u8>, v: u32, post: Seq<u8>)
    ensures
        spec_u32_bytes(v).len() == 4,
        spec_be_u32(pre + spec_u32_bytes(v) + post, pre.len() as int) == v,
{
    let b = pre + spec_u32_bytes(v) + post;
    let at = pre.len() as int;
    assert(b[at] == spec_u32_bytes(v)[0]);
    assert(b[at + 1] == spec_u32_bytes(v)[1]);
    assert(b[at + 2] == spec_u32_bytes(v)[2]);
    assert(b[at + 3] == spec_u32_bytes(v)[3]);
}

/// Reading back what was written gives the number that was written, wherever
/// the eight bytes stand.
pub proof fn lemma_u64_round_trip(pre: Seq<u8>, v: u64, post: Seq<u8>)
    ensures
        spec_u64_bytes(v).len() == 8,
        spec_be_u64(pre + spec_u64_bytes(v) + post, pre.len() as int) == v,
{
    let hi = (v / 0x1_0000_0000) as u32;
    let lo = (v % 0x1_0000_0000) as u32;
    let b = pre + spec_u64_bytes(v) + post;
    lemma_u32_round_trip(pre, hi, spec_u32_bytes(lo) + post);
    lemma_u32_round_trip(pre + spec_u32_bytes(hi), lo, post);
    assert(b =~= pre + spec_u32_bytes(hi) + (spec_u32_bytes(lo) + post));
    assert(b =~= (pre + spec_u32_bytes(hi)) + spec_u32_bytes(lo) + post);
}

/// Reading back what was written gives the number that was written, wherever
/// the sixteen bytes stand.
pub proof fn lemma_u128_round_trip(pre: Seq<u8>, v: u128, post: Seq<u8>)
    ensures
        spec_u128_bytes(v).len() == 16,
        spec_be_u128(pre + spec_u128_bytes(v) + post, pre.len() as int) == v,
{
    let hi = (v / 0x1_0000_0000_0000_0000) as u64;
    let lo = (v % 0x1_0000_0000_0000_0000) as u64;
    let b = pre + spec_u128_bytes(v) + post;
    lemma_u64_round_trip(pre, hi, spec_u64_bytes(lo) + post);
    lemma_u64_round_trip(pre + spec_u64_bytes(hi), lo, post);
    assert(b =~= pre + spec_u64_bytes(hi) + (spec_u64_bytes(lo) + post));
    assert(b =~= (pre + spec_u64_bytes(hi)) + spec_u64_bytes(lo) + post);
}

/// Two runs of four bytes that read as the same number are the same bytes.
pub proof fn lemma_be_u32_injective(a: Seq<u8>, i: int, b: Seq<u8>, j: int)
    requires
        0 <= i,
        i + 4 <= a.len(),
        0 <= j,
        j + 4 <= b.len(),
        spec_be_u32(a, i) == spec_be_u32(b, j),
    ensures
        a[i] == b[j],
        a[i + 1] == b[j + 1],
        a[i + 2] == b[j + 2],
        a[i + 3] == b[j + 3],
{
}

} // verus!
