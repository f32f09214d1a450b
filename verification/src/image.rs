//! The database file as bytes: what it holds once the pages that a flush
//! hands out are written into it.
//!
//! The library does not write the file. It says where each page belongs, and
//! this module says what a file holds after its caller has written the pages
//! there: every page at `(pgno - 1) * page_size`, and every byte that belongs
//! to no page of the transaction as it was.

use vstd::prelude::*;
use crate::page_cache::{spec_db_offset, spec_source_bytes, spec_writes_hold, PageWrite};

verus! {

/// A file after `bytes` were written into it at `offset`. A write beyond the
/// end of the file makes the file longer; what lies between the old end and
/// the write reads as zero.
pub open spec fn spec_write_at(file: Seq<u8>, offset: int, bytes: Seq<u8>) -> Seq<u8> {
    Seq::new(
        if file.len() >= offset + bytes.len() {
            file.len()
        } else {
            (offset + bytes.len()) as nat
        },
        |i: int|
            if offset <= i < offset + bytes.len() {
                bytes[i - offset]
            } else if i < file.len() {
                file[i]
            } else {
                0u8
            },
    )
}

/// A file after the pages of `writes` were written into it, in turn, each at
/// its place, with the bytes that its source stands for.
pub open spec fn spec_write_pages(
    file: Seq<u8>,
    writes: Seq<PageWrite>,
    spill: Seq<u8>,
    page_size: u32,
) -> Seq<u8>
    decreases writes.len(),
{
    if writes.len() == 0 {
        file
    } else {
        spec_write_at(
            spec_write_pages(file, writes.drop_last(), spill, page_size),
            writes.last().db_offset as int,
            spec_source_bytes(writes.last().source, spill, page_size),
        )
    }
}

/// The byte of a file at `i`, or zero beyond its end.
pub open spec fn spec_byte_or_zero(file: Seq<u8>, i: int) -> u8 {
    if 0 <= i < file.len() {
        file[i]
    } else {
        0u8
    }
}

/// Whether the byte at `i` belongs to one of the first `n` pages of `writes`.
pub open spec fn spec_in_written_page(writes: Seq<PageWrite>, n: int, page_size: u32, i: int) -> bool {
    exists|k: int|
        0 <= k < n && (#[trigger] writes[k]).db_offset <= i < writes[k].db_offset + page_size
}

/// Pages with different numbers do not overlap in the file.
pub proof fn lemma_pages_apart(a: u32, b: u32, page_size: u32)
    requires
        1 <= a < b,
    ensures
        spec_db_offset(a, page_size) + page_size <= spec_db_offset(b, page_size),
{
    assert((a - 1) * page_size + page_size <= (b - 1) * page_size) by (nonlinear_arith)
        requires
            1 <= a < b,
            page_size >= 0,
    ;
}

/// What a file holds after the pages of `writes` were written into it: each
/// page stands whole at its place, and every byte outside the pages is as it
/// was, or zero where the file was shorter.
pub proof fn lemma_written_file(
    file: Seq<u8>,
    writes: Seq<PageWrite>,
    spill: Seq<u8>,
    page_size: u32,
)
    requires
        forall|k: int|
            0 <= k < writes.len() ==> (#[trigger] writes[k]).pgno >= 1 && writes[k].db_offset
                == spec_db_offset(writes[k].pgno, page_size) && spec_source_bytes(
                writes[k].source,
                spill,
                page_size,
            ).len() == page_size,
        forall|j: int, k: int|
            0 <= j < k < writes.len() ==> (#[trigger] writes[j]).pgno != (#[trigger] writes[k]).pgno,
    ensures
        spec_write_pages(file, writes, spill, page_size).len() >= file.len(),
        forall|k: int|
            0 <= k < writes.len() ==> (#[trigger] writes[k]).db_offset + page_size
                <= spec_write_pages(file, writes, spill, page_size).len() && spec_write_pages(
                file,
                writes,
                spill,
                page_size,
            ).subrange(writes[k].db_offset as int, writes[k].db_offset + page_size)
                == spec_source_bytes(writes[k].source, spill, page_size),
        forall|i: int|
            0 <= i < spec_write_pages(file, writes, spill, page_size).len()
                && !spec_in_written_page(writes, writes.len() as int, page_size, i)
                ==> #[trigger] spec_write_pages(file, writes, spill, page_size)[i]
                == spec_byte_or_zero(file, i),
    decreases writes.len(),
{
    let n = writes.len() as int;
    if n > 0 {
        let rest = writes.drop_last();
        let last = writes.last();
        let before = spec_write_pages(file, rest, spill, page_size);
        let after = spec_write_pages(file, writes, spill, page_size);
        let bytes = spec_source_bytes(last.source, spill, page_size);
        let at = last.db_offset as int;
        assert forall|k: int| 0 <= k < rest.len() implies (#[trigger] rest[k]).pgno >= 1
            && rest[k].db_offset == spec_db_offset(rest[k].pgno, page_size) && spec_source_bytes(
            rest[k].source,
            spill,
            page_size,
        ).len() == page_size by {
            assert(rest[k] == writes[k]);
        }
        assert forall|j: int, k: int| 0 <= j < k < rest.len() implies (#[trigger] rest[j]).pgno != (
        #[trigger] rest[k]).pgno by {
            assert(rest[j] == writes[j] && rest[k] == writes[k]);
        }
        lemma_written_file(file, rest, spill, page_size);
        assert(after == spec_write_at(before, at, bytes));
        assert forall|k: int| 0 <= k < n implies (#[trigger] writes[k]).db_offset + page_size
            <= after.len() && after.subrange(
            writes[k].db_offset as int,
            writes[k].db_offset + page_size,
        ) == spec_source_bytes(writes[k].source, spill, page_size) by {
            if k == n - 1 {
                assert(after.subrange(at, at + page_size) =~= bytes);
            } else {
                assert(rest[k] == writes[k]);
                assert(writes[k].pgno != writes[n - 1].pgno);
                if writes[k].pgno < last.pgno {
                    lemma_pages_apart(writes[k].pgno, last.pgno, page_size);
                } else {
                    lemma_pages_apart(last.pgno, writes[k].pgno, page_size);
                }
                assert(after.subrange(writes[k].db_offset as int, writes[k].db_offset + page_size)
                    =~= before.subrange(
                    writes[k].db_offset as int,
                    writes[k].db_offset + page_size,
                ));
            }
        }
        assert forall|i: int|
            0 <= i < after.len() && !spec_in_written_page(writes, n, page_size, i) implies
            #[trigger] after[i] == spec_byte_or_zero(file, i) by {
            assert(!(writes[n - 1].db_offset <= i < writes[n - 1].db_offset + page_size));
            if i < before.len() {
                if spec_in_written_page(rest, n - 1, page_size, i) {
                    let k = choose|k: int|
                        0 <= k < n - 1 && (#[trigger] rest[k]).db_offset <= i < rest[k].db_offset
                            + page_size;
                    assert(rest[k] == writes[k]);
                    assert(false);
                }
                assert(before[i] == spec_byte_or_zero(file, i));
            }
        }
    }
}

/// The pages of a flush, written into the database file: every page of the
/// transaction stands at `(pgno - 1) * page_size` with the bytes that were
/// committed, and no byte outside those pages changes.
pub proof fn lemma_flushed_pages_in_file(
    file: Seq<u8>,
    writes: Seq<PageWrite>,
    pages: Map<u32, Seq<u8>>,
    spill: Seq<u8>,
    page_size: u32,
)
    requires
        spec_writes_hold(writes, pages, spill, page_size),
        forall|p: u32| #[trigger] pages.contains_key(p) ==> p >= 1 && pages[p].len() == page_size,
    ensures
        spec_write_pages(file, writes, spill, page_size).len() >= file.len(),
        forall|p: u32| #[trigger]
            pages.contains_key(p) ==> spec_db_offset(p, page_size) + page_size <= spec_write_pages(
                file,
                writes,
                spill,
                page_size,
            ).len() && spec_write_pages(file, writes, spill, page_size).subrange(
                spec_db_offset(p, page_size),
                spec_db_offset(p, page_size) + page_size,
            ) == pages[p],
        forall|i: int|
            0 <= i < spec_write_pages(file, writes, spill, page_size).len()
                && !spec_in_written_page(writes, writes.len() as int, page_size, i)
                ==> #[trigger] spec_write_pages(file, writes, spill, page_size)[i]
                == spec_byte_or_zero(file, i),
{
    assert forall|k: int| 0 <= k < writes.len() implies (#[trigger] writes[k]).pgno >= 1
        && writes[k].db_offset == spec_db_offset(writes[k].pgno, page_size) && spec_source_bytes(
        writes[k].source,
        spill,
        page_size,
    ).len() == page_size by {
        assert(pages.contains_key(writes[k].pgno));
    }
    lemma_written_file(file, writes, spill, page_size);
    assert forall|p: u32| #[trigger] pages.contains_key(p) implies spec_db_offset(p, page_size)
        + page_size <= spec_write_pages(file, writes, spill, page_size).len() && spec_write_pages(
        file,
        writes,
        spill,
        page_size,
    ).subrange(spec_db_offset(p, page_size), spec_db_offset(p, page_size) + page_size)
        == pages[p] by {
        let k = choose|k: int| 0 <= k < writes.len() && (#[trigger] writes[k]).pgno == p;
        assert(writes[k].db_offset == spec_db_offset(p, page_size));
    }
}

} // verus!
