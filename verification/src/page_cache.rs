//! The pages of one replayed transaction, kept until the transaction
//! commits.
//!
//! Pages are kept in memory up to a threshold; pages beyond it are appended
//! to a spill file, of which the cache keeps the offsets. The cache does not
//! touch the file: `insert` says where the caller is to write the page, and
//! `flush` says where each page is to be read from and where in the database
//! file it belongs.

use std::collections::HashMap;
use vstd::prelude::*;
use vstd::slice::slice_to_vec;

verus! {

/// Where the bytes of a cached page are.
#[derive(Debug)]
pub enum PageSource {
    /// In memory: these are the bytes.
    Memory(Vec<u8>),
    /// In the spill file, one page long from this offset.
    Spill { offset: u64 },
}

/// One page to write into the database file.
#[derive(Debug)]
pub struct PageWrite {
    /// Number of the page, counted from 1.
    pub pgno: u32,
    /// Where the page starts in the database file.
    pub db_offset: u64,
    /// Where the bytes of the page are.
    pub source: PageSource,
}

/// Why a page was not taken into the cache.
#[derive(Debug, Clone, Copy, PartialEq, Eq, Structural)]
pub enum CacheError {
    /// Pages are counted from 1.
    InvalidPageNumber,
    /// The page is not of the page size of the cache.
    PageSizeMismatch,
    /// The spill file would grow beyond what an offset can address.
    SpillOverflow,
}

struct CacheEntry {
    pgno: u32,
    source: PageSource,
}

/// The pages of the transaction that is being replayed.
pub struct TransactionPageCache {
    swap_after_pages: u32,
    page_size: u32,
    entries: Vec<CacheEntry>,
    index: HashMap<u32, usize>,
    spill_len: u64,
    spill: Ghost<Seq<u8>>,
}

/// The bytes that a source stands for, given what the spill file holds.
pub open spec fn spec_source_bytes(source: PageSource, spill: Seq<u8>, page_size: u32) -> Seq<u8> {
    match source {
        PageSource::Memory(bytes) => bytes@,
        PageSource::Spill { offset } => spill.subrange(offset as int, offset + page_size),
    }
}

/// Where page `pgno` starts in the database file.
pub open spec fn spec_db_offset(pgno: u32, page_size: u32) -> int {
    (pgno - 1) * page_size
}

/// Whether `writes` hand out the pages of `pages`: each write is a page of
/// `pages`, at its place in the database file, with a source that stands for
/// the page's bytes; every page is written; and none is written twice.
pub open spec fn spec_writes_hold(
    writes: Seq<PageWrite>,
    pages: Map<u32, Seq<u8>>,
    spill: Seq<u8>,
    page_size: u32,
) -> bool {
    &&& forall|i: int|
        0 <= i < writes.len() ==> {
            &&& pages.contains_key((#[trigger] writes[i]).pgno)
            &&& writes[i].db_offset == spec_db_offset(writes[i].pgno, page_size)
            &&& spec_source_bytes(writes[i].source, spill, page_size) == pages[writes[i].pgno]
        }
    &&& forall|p: u32| #[trigger]
        pages.contains_key(p) ==> exists|i: int|
            0 <= i < writes.len() && (#[trigger] writes[i]).pgno == p
    &&& forall|i: int, j: int|
        0 <= i < j < writes.len() ==> (#[trigger] writes[i]).pgno != (#[trigger] writes[j]).pgno
}

impl TransactionPageCache {
    /// The page size of the cache.
    pub closed spec fn spec_page_size(&self) -> u32 {
        self.page_size
    }

    /// Number of pages that are kept in memory before pages are spilled.
    pub closed spec fn spec_swap_after(&self) -> u32 {
        self.swap_after_pages
    }

    /// What the spill file holds, where the caller wrote what `insert` told
    /// it to.
    pub closed spec fn spec_spill(&self) -> Seq<u8> {
        self.spill@
    }

    /// Number of pages in the cache.
    pub closed spec fn spec_len(&self) -> nat {
        self.entries@.len()
    }

    /// The page numbers in the cache, in the order in which they came in
    /// first.
    pub closed spec fn spec_order(&self) -> Seq<u32> {
        Seq::new(self.entries@.len(), |i: int| self.entries@[i].pgno)
    }

    /// Whether the cache holds page `pgno` in memory.
    pub closed spec fn spec_in_memory(&self, pgno: u32) -> bool {
        self.index@.contains_key(pgno) && self.entries@[self.index@[pgno] as int].source is Memory
    }

    /// Whether the cache keeps page `pgno` in memory when it is inserted
    /// next: it holds the page in memory already, or it does not hold the page
    /// and holds fewer pages than its threshold.
    pub open spec fn spec_keeps_in_memory(&self, pgno: u32) -> bool {
        if self.pages().contains_key(pgno) {
            self.spec_in_memory(pgno)
        } else {
            self.spec_len() < self.spec_swap_after()
        }
    }

    /// The pages in the cache: for each page number the bytes that were
    /// inserted last.
    pub closed spec fn pages(&self) -> Map<u32, Seq<u8>> {
        Map::new(
            |p: u32| self.index@.contains_key(p),
            |p: u32|
                spec_source_bytes(
                    self.entries@[self.index@[p] as int].source,
                    self.spill@,
                    self.page_size,
                ),
        )
    }

    /// The cache is in order: its index knows every page, at its place, and
    /// every page is where its entry says.
    pub closed spec fn wf(&self) -> bool {
        &&& self.spill_len == self.spill@.len()
        &&& forall|i: int|
            0 <= i < self.entries@.len() ==> {
                &&& (#[trigger] self.entries@[i]).pgno >= 1
                &&& self.index@.contains_key(self.entries@[i].pgno)
                &&& self.index@[self.entries@[i].pgno] == i
                &&& match self.entries@[i].source {
                    PageSource::Memory(bytes) => bytes@.len() == self.page_size,
                    PageSource::Spill { offset } => offset + self.page_size <= self.spill@.len(),
                }
            }
        &&& forall|p: u32| #[trigger]
            self.index@.contains_key(p) ==> self.index@[p] < self.entries@.len()
                && self.entries@[self.index@[p] as int].pgno == p
    }

    /// Every page in the cache has a number from 1 on and is one page long.
    pub proof fn lemma_pages_are_whole(&self)
        requires
            self.wf(),
        ensures
            forall|p: u32| #[trigger]
                self.pages().contains_key(p) ==> p >= 1 && self.pages()[p].len()
                    == self.spec_page_size(),
    {
        assert forall|p: u32| #[trigger] self.pages().contains_key(p) implies p >= 1
            && self.pages()[p].len() == self.spec_page_size() by {
            let i = self.index@[p] as int;
            assert(self.index@.contains_key(p));
            assert(self.entries@[i].pgno == p);
        }
    }

    /// An empty cache for pages of `page_size` bytes that keeps
    /// `swap_after_pages` pages in memory.
    pub fn new(swap_after_pages: u32, page_size: u32) -> (cache: TransactionPageCache)
        ensures
            cache.wf(),
            cache.pages() == Map::<u32, Seq<u8>>::empty(),
            cache.spec_len() == 0,
            cache.spec_order() == Seq::<u32>::empty(),
            cache.spec_spill() == Seq::<u8>::empty(),
            cache.spec_page_size() == page_size,
            cache.spec_swap_after() == swap_after_pages,
            forall|p: u32| !#[trigger] cache.spec_in_memory(p),
    {
        let cache = TransactionPageCache {
            swap_after_pages,
            page_size,
            entries: Vec::new(),
            index: HashMap::new(),
            spill_len: 0,
            spill: Ghost(Seq::<u8>::empty()),
        };
        assert(cache.pages() =~= Map::<u32, Seq<u8>>::empty());
        assert(cache.spec_order() =~= Seq::<u32>::empty());
        cache
    }

    /// Number of pages in the cache.
    pub fn len(&self) -> (n: usize)
        ensures
            n == self.spec_len(),
    {
        self.entries.len()
    }

    /// Whether the cache holds no page.
    pub fn is_empty(&self) -> (empty: bool)
        ensures
            empty == (self.spec_len() == 0),
    {
        self.entries.len() == 0
    }

    /// Length of the spill file.
    pub fn spill_len(&self) -> (n: u64)
        requires
            self.wf(),
        ensures
            n == self.spec_spill().len(),
    {
        self.spill_len
    }

    /// The page size of the cache.
    pub fn page_size(&self) -> (n: u32)
        ensures
            n == self.spec_page_size(),
    {
        self.page_size
    }

    /// Takes a page into the cache, in place of what the cache held for the
    /// same page number. Where the page is to be kept in the spill file, the
    /// offset at which the caller is to write it comes back: the end of the
    /// file.
    ///
    /// A page is kept in memory where the cache holds it in memory already,
    /// or holds fewer pages than its threshold; every other page is spilled.
    pub fn insert(&mut self, pgno: u32, page: &[u8]) -> (spilled: Result<Option<u64>, CacheError>)
        requires
            old(self).wf(),
        ensures
            final(self).wf(),
            final(self).spec_page_size() == old(self).spec_page_size(),
            final(self).spec_swap_after() == old(self).spec_swap_after(),
            match spilled {
                Ok(at) => {
                    &&& pgno >= 1
                    &&& page@.len() == old(self).spec_page_size()
                    &&& final(self).pages() == old(self).pages().insert(pgno, page@)
                    &&& final(self).spec_len() == if old(self).pages().contains_key(pgno) {
                        old(self).spec_len()
                    } else {
                        old(self).spec_len() + 1
                    }
                    &&& match at {
                        Some(offset) => {
                            &&& offset == old(self).spec_spill().len()
                            &&& final(self).spec_spill() == old(self).spec_spill() + page@
                        },
                        None => final(self).spec_spill() == old(self).spec_spill(),
                    }
                    &&& final(self).spec_order() == if old(self).pages().contains_key(pgno) {
                        old(self).spec_order()
                    } else {
                        old(self).spec_order().push(pgno)
                    }
                    &&& at is None <==> old(self).spec_keeps_in_memory(pgno)
                    &&& at is Some ==> old(self).spec_spill().len() + page@.len() <= u64::MAX
                    &&& forall|p: u32|
                        #[trigger] final(self).spec_in_memory(p) == if p == pgno {
                            at is None
                        } else {
                            old(self).spec_in_memory(p)
                        }
                },
                Err(e) => {
                    &&& final(self).pages() == old(self).pages()
                    &&& forall|p: u32|
                        #[trigger] final(self).spec_in_memory(p) == old(self).spec_in_memory(p)
                    &&& final(self).spec_order() == old(self).spec_order()
                    &&& final(self).spec_len() == old(self).spec_len()
                    &&& final(self).spec_spill() == old(self).spec_spill()
                    &&& e == if pgno == 0 {
                        CacheError::InvalidPageNumber
                    } else if page@.len() != old(self).spec_page_size() {
                        CacheError::PageSizeMismatch
                    } else {
                        CacheError::SpillOverflow
                    }
                    &&& (e == CacheError::SpillOverflow ==> old(self).spec_spill().len() + page@.len()
                        > u64::MAX && !old(self).spec_keeps_in_memory(pgno))
                },
            },
    {
        broadcast use vstd::std_specs::hash::group_hash_axioms;

        if pgno == 0 {
            return Err(CacheError::InvalidPageNumber);
        }
        if page.len() != self.page_size as usize {
            return Err(CacheError::PageSizeMismatch);
        }
        let ghost before = *self;
        let found: Option<usize> = match self.index.get(&pgno) {
            Some(at) => Some(*at),
            None => None,
        };
        let in_memory: bool = match found {
            Some(at) => match &self.entries[at].source {
                PageSource::Memory(_) => true,
                PageSource::Spill { .. } => false,
            },
            None => self.entries.len() < self.swap_after_pages as usize,
        };
        let (source, spilled): (PageSource, Option<u64>) = if in_memory {
            (PageSource::Memory(slice_to_vec(page)), None)
        } else {
            let offset: u64 = self.spill_len;
            let end: u64 = match offset.checked_add(self.page_size as u64) {
                Some(end) => end,
                None => {
                    return Err(CacheError::SpillOverflow);
                },
            };
            self.spill_len = end;
            proof {
                self.spill@ = self.spill@ + page@;
            }
            (PageSource::Spill { offset }, Some(offset))
        };
        assert(spec_source_bytes(source, self.spill@, self.page_size) =~= page@);
        assert forall|i: int| 0 <= i < before.entries@.len() implies spec_source_bytes(
            #[trigger] before.entries@[i].source,
            self.spill@,
            self.page_size,
        ) == spec_source_bytes(before.entries@[i].source, before.spill@, self.page_size) by {
            match before.entries@[i].source {
                PageSource::Memory(_) => {},
                PageSource::Spill { offset } => {
                    assert(self.spill@.subrange(offset as int, offset + self.page_size)
                        =~= before.spill@.subrange(offset as int, offset + self.page_size));
                },
            }
        }
        match found {
            Some(at) => {
                self.entries[at] = CacheEntry { pgno, source };
                assert(self.index@ == before.index@);
                assert(self.entries@ == before.entries@.update(
                    at as int,
                    CacheEntry { pgno, source },
                ));
            },
            None => {
                let at: usize = self.entries.len();
                self.entries.push(CacheEntry { pgno, source });
                self.index.insert(pgno, at);
                assert(self.index@ == before.index@.insert(pgno, at));
                assert(self.entries@ == before.entries@.push(CacheEntry { pgno, source }));
            },
        }
        proof {
            assert forall|i: int| 0 <= i < self.entries@.len() implies {
                &&& (#[trigger] self.entries@[i]).pgno >= 1
                &&& self.index@.contains_key(self.entries@[i].pgno)
                &&& self.index@[self.entries@[i].pgno] == i
                &&& match self.entries@[i].source {
                    PageSource::Memory(bytes) => bytes@.len() == self.page_size,
                    PageSource::Spill { offset } => offset + self.page_size <= self.spill@.len(),
                }
            } by {
                if i < before.entries@.len() && before.entries@[i].pgno != pgno {
                    assert(self.entries@[i] == before.entries@[i]);
                }
            }
            assert forall|p: u32| #[trigger] self.index@.contains_key(p) implies self.index@[p]
                < self.entries@.len() && self.entries@[self.index@[p] as int].pgno == p by {
                if p != pgno {
                    assert(before.index@.contains_key(p));
                }
            }
            assert forall|p: u32| #[trigger]
                self.pages().contains_key(p) implies self.pages()[p] == before.pages().insert(
                pgno,
                page@,
            )[p] by {
                if p != pgno {
                    assert(before.index@.contains_key(p));
                    let i = before.index@[p] as int;
                    assert(before.entries@[i].pgno == p);
                    assert(self.entries@[i] == before.entries@[i]);
                }
            }
            assert(self.pages() =~= before.pages().insert(pgno, page@));
            if before.pages().contains_key(pgno) {
                assert(self.spec_order() =~= before.spec_order());
            } else {
                assert(self.spec_order() =~= before.spec_order().push(pgno));
            }
            assert forall|p: u32| #[trigger]
                self.spec_in_memory(p) == if p == pgno {
                    spilled is None
                } else {
                    before.spec_in_memory(p)
                } by {
                if p != pgno && before.index@.contains_key(p) {
                    let i = before.index@[p] as int;
                    assert(before.entries@[i].pgno == p);
                    assert(self.entries@[i] == before.entries@[i]);
                }
            }
        }
        Ok(spilled)
    }

    /// Empties the cache and hands out its pages, each with its place in the
    /// database file. Every page of the transaction is handed out, once, with
    /// the bytes that were inserted last; the spill file can be started over
    /// once the pages are written.
    pub fn flush(&mut self) -> (writes: Vec<PageWrite>)
        requires
            old(self).wf(),
        ensures
            final(self).wf(),
            final(self).pages() == Map::<u32, Seq<u8>>::empty(),
            final(self).spec_len() == 0,
            final(self).spec_order() == Seq::<u32>::empty(),
            final(self).spec_spill() == Seq::<u8>::empty(),
            final(self).spec_page_size() == old(self).spec_page_size(),
            final(self).spec_swap_after() == old(self).spec_swap_after(),
            forall|p: u32| !#[trigger] final(self).spec_in_memory(p),
            writes@.len() == old(self).spec_len(),
            forall|j: int|
                0 <= j < writes@.len() ==> {
                    &&& (#[trigger] writes@[j]).pgno == old(self).spec_order()[writes@.len() - 1
                        - j]
                    &&& writes@[j].source is Memory <==> old(self).spec_in_memory(writes@[j].pgno)
                },
            spec_writes_hold(
                writes@,
                old(self).pages(),
                old(self).spec_spill(),
                old(self).spec_page_size(),
            ),
    {
        let ghost before = *self;
        let mut taken: Vec<CacheEntry> = Vec::new();
        core::mem::swap(&mut self.entries, &mut taken);
        self.index.clear();
        self.spill_len = 0;
        proof {
            self.spill@ = Seq::<u8>::empty();
        }
        assert(self.pages() =~= Map::<u32, Seq<u8>>::empty());
        assert(self.spec_order() =~= Seq::<u32>::empty());
        let page_size: u32 = self.page_size;
        let ghost n = taken@.len() as int;
        let mut writes: Vec<PageWrite> = Vec::new();
        while taken.len() > 0
            invariant
                before.wf(),
                page_size == before.page_size,
                n == before.entries@.len(),
                taken@.len() + writes@.len() == n,
                taken@ == before.entries@.take(taken@.len() as int),
                forall|j: int|
                    0 <= j < writes@.len() ==> {
                        &&& (#[trigger] writes@[j]).pgno == before.entries@[n - 1 - j].pgno
                        &&& writes@[j].source == before.entries@[n - 1 - j].source
                        &&& writes@[j].db_offset == spec_db_offset(writes@[j].pgno, page_size)
                    },
            decreases taken@.len(),
        {
            let ghost at = taken@.len() - 1;
            let entry: CacheEntry = taken.pop().unwrap();
            assert(entry == before.entries@[at]);
            assert(before.entries@[at].pgno >= 1);
            assert((entry.pgno - 1) * page_size <= 0xffff_ffff * 0xffff_ffff) by (nonlinear_arith)
                requires
                    1 <= entry.pgno <= 0xffff_ffff,
                    page_size <= 0xffff_ffff,
            ;
            let db_offset: u64 = (entry.pgno as u64 - 1) * (page_size as u64);
            writes.push(PageWrite { pgno: entry.pgno, db_offset, source: entry.source });
        }
        proof {
            assert forall|i: int| 0 <= i < writes@.len() implies {
                &&& before.pages().contains_key((#[trigger] writes@[i]).pgno)
                &&& spec_source_bytes(writes@[i].source, before.spill@, before.page_size)
                    == before.pages()[writes@[i].pgno]
            } by {
                let e = before.entries@[n - 1 - i];
                assert(before.index@.contains_key(e.pgno));
                assert(before.index@[e.pgno] == n - 1 - i);
            }
            assert forall|p: u32| #[trigger] before.pages().contains_key(p) implies exists|i: int|
                0 <= i < writes@.len() && (#[trigger] writes@[i]).pgno == p by {
                let k = before.index@[p] as int;
                assert(before.index@.contains_key(p));
                assert(before.entries@[k].pgno == p);
                assert(writes@[n - 1 - k].pgno == p);
            }
            assert forall|j: int| 0 <= j < writes@.len() implies {
                &&& (#[trigger] writes@[j]).pgno == before.spec_order()[writes@.len() - 1 - j]
                &&& writes@[j].source is Memory <==> before.spec_in_memory(writes@[j].pgno)
            } by {
                let e = before.entries@[n - 1 - j];
                assert(before.index@.contains_key(e.pgno));
                assert(before.index@[e.pgno] == n - 1 - j);
            }
            assert forall|i: int, j: int| 0 <= i < j < writes@.len() implies (
            #[trigger] writes@[i]).pgno != (#[trigger] writes@[j]).pgno by {
                let a = before.entries@[n - 1 - i];
                let b = before.entries@[n - 1 - j];
                assert(before.index@[a.pgno] == n - 1 - i);
                assert(before.index@[b.pgno] == n - 1 - j);
            }
        }
        writes
    }
}

} // verus!
