//! Hierarchical bitmap of free physical pages.
//!
//! Each level is a bitmap over blocks of memory: level 0 tracks individual
//! 4 KiB pages, and every level above tracks blocks eight times larger, so
//! that one byte of a level summarises one 64-bit word of the level below.
//! A set bit means the block (every page under it) is busy; a clear bit
//! means at least one page under it is free. Every update recomputes the
//! summaries above the changed word, so the levels never drift apart.
//!
//! Finding a free page scans the words of the coarsest level for one that
//! is not all ones and then descends, one word per level, to a free page.

use vstd::prelude::*;
use vstd::string::StringExecFns;

use crate::bits::{
    bit_set, byte_bit_set, byte_full, byte_of, collapse_8bit_and, first_clear_bit,
    is_collapse_of, lemma_all_ones, lemma_all_ones_collapse, lemma_bit_in_byte, lemma_byte_full,
    clear_bits, lemma_collapse_unique, lemma_test_bit, lemma_with_bit, lemma_with_byte, set_byte, with_bit_clear, with_bit_set,
    with_byte,
};
use crate::text::{bits_text, decimal, push_bits, push_decimal};
use crate::geometry::{
    bitmap_bytes, lemma_level_bytes_bounds, lemma_levels_bytes_bounds, level_bits, level_bytes, levels_bytes, page_bitmap_level_size, page_bitmap_size,
    valid_max_memory, BLOCK_SIZE, MAX_MEMORY_SUPPORTED_PAGES, PAGE_BITMAP_LEVEL_NUMBER,
};

verus! {

broadcast use vstd::array::group_array_axioms;

/// Why a page could not be allocated or freed.
#[derive(Debug, Copy, Clone, PartialEq, Eq, Structural)]
pub enum PageBitmapError {
    /// The page to free is not allocated.
    PageIsNotAllocated,
    /// The page to free lies in none of the ranges of RAM the bitmap was
    /// built with.
    PageIsReserved,
    /// No page is free.
    OutOfMemory,
}

/// Number of a 4 KiB physical page; the page starts at `pfn * 4096`.
#[derive(Debug, Copy, Clone, PartialEq, Eq, PartialOrd, Ord, Structural)]
pub struct PageFrameNumber(pub usize);

impl PageFrameNumber {
    pub fn new(pfn: usize) -> (r: Self)
        ensures
            r.0 == pfn,
    {
        Self(pfn)
    }

    pub fn pfn(&self) -> (r: usize)
        ensures
            r == self.0,
    {
        self.0
    }

    /// Physical address of the start of the page.
    pub fn phys_address(&self) -> (r: usize)
        requires
            self.0 * BLOCK_SIZE <= usize::MAX,
        ensures
            r == self.0 * BLOCK_SIZE,
    {
        self.0 * BLOCK_SIZE
    }
}

/// A run of `page_count` pages starting at `start_pfn`.
#[derive(Debug, Copy, Clone)]
pub struct PageRange {
    pub start_pfn: PageFrameNumber,
    pub page_count: usize,
}

impl PageRange {
    /// The pages `start_pfn .. start_pfn + page_count`; a range is never
    /// empty.
    pub fn new(start_pfn: PageFrameNumber, page_count: usize) -> (r: Self)
        requires
            page_count > 0,
        ensures
            r.wf(),
            r.start_pfn == start_pfn,
            r.page_count == page_count,
    {
        Self { start_pfn, page_count }
    }

    pub open spec fn start(&self) -> int {
        self.start_pfn.0 as int
    }

    pub open spec fn end(&self) -> int {
        self.start_pfn.0 + self.page_count
    }

    pub open spec fn contains(&self, pfn: int) -> bool {
        self.start() <= pfn < self.end()
    }

    /// A range is never empty.
    pub open spec fn wf(&self) -> bool {
        self.page_count > 0
    }

    pub fn start_phys_address(&self) -> (r: usize)
        requires
            self.wf(),
            self.start_pfn.0 * BLOCK_SIZE <= usize::MAX,
        ensures
            r == self.start_pfn.0 * BLOCK_SIZE,
    {
        self.start_pfn.0 * BLOCK_SIZE
    }

    /// Physical address just past the end of the range.
    pub fn end_phys_address(&self) -> (r: usize)
        requires
            self.wf(),
            self.end() * BLOCK_SIZE <= usize::MAX,
        ensures
            r == self.end() * BLOCK_SIZE,
            r > self.start_pfn.0 * BLOCK_SIZE,
    {
        proof {
            assert(self.start_pfn.0 * BLOCK_SIZE + self.page_count * BLOCK_SIZE == self.end()
                * BLOCK_SIZE) by (nonlinear_arith);
        }
        self.start_phys_address() + self.page_count * BLOCK_SIZE
    }

    pub fn page_count(&self) -> (r: usize)
        requires
            self.wf(),
        ensures
            r == self.page_count,
            r > 0,
    {
        self.page_count
    }

    /// Size of the range in bytes.
    pub fn size(&self) -> (r: usize)
        requires
            self.wf(),
            self.page_count * BLOCK_SIZE <= usize::MAX,
        ensures
            r == self.page_count * BLOCK_SIZE,
            r >= BLOCK_SIZE,
    {
        self.page_count * BLOCK_SIZE
    }
}

/// Whether the word array moved between the one who built the bitmap and
/// the one who takes it over.
pub enum PageBitmapRelocation {
    NotRelocated,
    Relocate(usize),
}

impl PageBitmapRelocation {
    /// Bytes the word array moved by.
    pub open spec fn spec_amount(&self) -> usize {
        match self {
            PageBitmapRelocation::NotRelocated => 0,
            PageBitmapRelocation::Relocate(amount) => *amount,
        }
    }

    /// Bytes the word array moved by.
    pub fn amount(&self) -> (r: usize)
        ensures
            r == self.spec_amount(),
    {
        match self {
            PageBitmapRelocation::NotRelocated => 0,
            PageBitmapRelocation::Relocate(amount) => *amount,
        }
    }
}

proof fn lemma_div_parts(n: int, c: int, t: int)
    requires
        0 <= t < 64,
        n == 64 * c + t,
    ensures
        n / 64 == c,
        n % 64 == t,
{
    vstd::arithmetic::div_mod::lemma_fundamental_div_mod_converse(n, 64, c, t);
}

/// Index of the level-`level` block that holds page `pfn`, that is
/// `pfn / 8^level`.
pub open spec fn level_index(pfn: int, level: int) -> int
    decreases level,
{
    if level <= 0 {
        pfn
    } else {
        level_index(pfn, level - 1) / 8
    }
}

/// Words of storage of level `level`.
pub open spec fn level_words(max_memory: int, level: int) -> int {
    level_bytes(max_memory, level) / 8
}

/// Page `pfn` lies in memory of `max_memory` bytes and every level has a
/// bit for the block that holds it. Where whole blocks of a level exactly
/// fill its words, the partial block at the end of memory has no bit: the
/// pages under it cannot be tracked.
pub open spec fn trackable(max_memory: int, pfn: int) -> bool {
    &&& 0 <= pfn < max_memory / BLOCK_SIZE as int
    &&& forall|level: int|
        0 <= level < PAGE_BITMAP_LEVEL_NUMBER ==> #[trigger] level_index(pfn, level) < 64
            * level_words(max_memory, level)
}

/// Pages of all the ranges.
pub open spec fn ranges_pages(ranges: Seq<PageRange>) -> Set<int> {
    Set::new(|p: int| exists|i: int| 0 <= i < ranges.len() && #[trigger] ranges[i].contains(p))
}

/// Pages of the first `n` ranges.
pub open spec fn ranges_pages_upto(ranges: Seq<PageRange>, n: int) -> Set<int> {
    Set::new(|p: int| exists|i: int| 0 <= i < n && #[trigger] ranges[i].contains(p))
}

/// Sum of the page counts of the first `n` ranges.
pub open spec fn ranges_page_count(ranges: Seq<PageRange>, n: int) -> int
    decreases n,
{
    if n <= 0 {
        0
    } else {
        ranges_page_count(ranges, n - 1) + ranges[n - 1].page_count
    }
}

/// No two of the ranges share a page.
pub open spec fn disjoint_ranges(ranges: Seq<PageRange>) -> bool {
    forall|i: int, j: int, p: int|
        0 <= i < j < ranges.len() && #[trigger] ranges[i].contains(p) ==> !#[trigger] ranges[j].contains(p)
}

/// The ranges can seed a bitmap of `max_memory` bytes: none is empty, no
/// two share a page, and every page of them is one the bitmap can track.
pub open spec fn valid_ranges(max_memory: int, ranges: Seq<PageRange>) -> bool {
    &&& forall|i: int| 0 <= i < ranges.len() ==> #[trigger] ranges[i].wf()
    &&& disjoint_ranges(ranges)
    &&& forall|i: int, p: int|
        0 <= i < ranges.len() && #[trigger] ranges[i].contains(p) ==> trackable(max_memory, p)
}

// ASCII signatures between the fields. They make the structure easy to
// find in physical memory and tell a valid structure from corrupted memory.
// "PgeBtM_0"
pub const PAGE_BITMAP_SIGNATURE0: u64 = 0x305f4d7442656750;

// "PgeBtM_1"
pub const PAGE_BITMAP_SIGNATURE1: u64 = 0x315f4d7442656750;

// "PgeBtM_2"
pub const PAGE_BITMAP_SIGNATURE2: u64 = 0x325f4d7442656750;

// "PgeBtM_3"
pub const PAGE_BITMAP_SIGNATURE3: u64 = 0x335f4d7442656750;

// "PgeBtM_4"
pub const PAGE_BITMAP_SIGNATURE4: u64 = 0x345f4d7442656750;

// "PgeBtM_5"
pub const PAGE_BITMAP_SIGNATURE5: u64 = 0x355f4d7442656750;

// "PgeBtM_6"
pub const PAGE_BITMAP_SIGNATURE6: u64 = 0x365f4d7442656750;

/// A hierarchical bitmap that tracks which physical pages are free.
pub struct PageBitmap {
    signature0: u64,
    max_memory: usize,
    signature1: u64,
    available_pages: usize,
    signature2: u64,
    levels_number: usize,
    signature3: u64,
    bitmap_size: usize,
    signature4: u64,
    /// The words of all levels, level 0 first.
    bitmap: Vec<u64>,
    signature5: u64,
    /// First word of each level in `bitmap`.
    level_start: [usize; 8],
    signature6: u64,
    /// Words of each level.
    level_size: [usize; 8],
    /// The RAM the bitmap was built with: pages outside it are reserved
    /// and can never be freed.
    ranges: Vec<PageRange>,
}

impl PageBitmap {
    /// Where each level lies in the word array, and the fixed fields.
    pub closed spec fn wf_layout(&self) -> bool {
        let m = self.max_memory as int;
        &&& valid_max_memory(m)
        &&& self.levels_number == PAGE_BITMAP_LEVEL_NUMBER
        &&& self.bitmap_size == bitmap_bytes(m)
        &&& self.signature0 == PAGE_BITMAP_SIGNATURE0
        &&& self.signature1 == PAGE_BITMAP_SIGNATURE1
        &&& self.signature2 == PAGE_BITMAP_SIGNATURE2
        &&& self.signature3 == PAGE_BITMAP_SIGNATURE3
        &&& self.signature4 == PAGE_BITMAP_SIGNATURE4
        &&& self.signature5 == PAGE_BITMAP_SIGNATURE5
        &&& self.signature6 == PAGE_BITMAP_SIGNATURE6
        &&& forall|k: int|
            0 <= k < PAGE_BITMAP_LEVEL_NUMBER ==> #[trigger] self.level_size[k] == level_words(
                m,
                k,
            ) && self.level_start[k] == levels_bytes(m, k) / 8
        &&& self.level_start[0] == 0
        &&& forall|k: int|
            0 <= k < PAGE_BITMAP_LEVEL_NUMBER - 1 ==> #[trigger] self.level_start[k + 1]
                == self.level_start[k] + self.level_size[k]
        &&& forall|k: int| 0 <= k < PAGE_BITMAP_LEVEL_NUMBER ==> #[trigger] self.level_size[k] >= 1
        &&& self.level_start[7] + self.level_size[7] <= self.bitmap@.len()
        &&& self.level_start[7] + self.level_size[7] <= 0x100_0000
    }

    spec fn words_of(&self, k: int) -> int {
        self.level_size[k] as int
    }

    /// Word `c` of level `k`.
    spec fn word(&self, k: int, c: int) -> u64 {
        self.bitmap@[self.level_start[k] + c]
    }

    /// Index `i` is a bit of level `k`.
    spec fn in_level(&self, k: int, i: int) -> bool {
        0 <= i < 64 * self.words_of(k)
    }

    /// Bit `i` of level `k`.
    spec fn bit(&self, k: int, i: int) -> bool {
        bit_set(self.word(k, i / 64), i % 64)
    }

    /// Block `i` of level `k` is busy; a block past the end of the level is.
    spec fn busy(&self, k: int, i: int) -> bool {
        if self.in_level(k, i) {
            self.bit(k, i)
        } else {
            true
        }
    }

    proof fn lemma_levels_disjoint(&self, j: int, c: int, k: int, d: int)
        requires
            self.wf_layout(),
            0 <= j < PAGE_BITMAP_LEVEL_NUMBER,
            0 <= k < PAGE_BITMAP_LEVEL_NUMBER,
            0 <= c < self.words_of(j),
            0 <= d < self.words_of(k),
        ensures
            (self.level_start[j] + c == self.level_start[k] + d) <==> (j == k && c == d),
            self.level_start[j] + c < self.bitmap@.len(),
            self.level_start[j] + c < 0x100_0000,
    {
        if j <= k {
            self.lemma_starts_ordered(j, k);
        } else {
            self.lemma_starts_ordered(k, j);
        }
        self.lemma_starts_ordered(j, 7);
    }

    proof fn lemma_starts_ordered(&self, j: int, k: int)
        requires
            self.wf_layout(),
            0 <= j <= k < PAGE_BITMAP_LEVEL_NUMBER,
        ensures
            j < k ==> self.level_start[j] + self.level_size[j] <= self.level_start[k],
            self.level_start[j] <= self.level_start[k],
        decreases k - j,
    {
        if j < k {
            self.lemma_starts_ordered(j + 1, k);
            assert(self.level_start[j + 1] == self.level_start[j] + self.level_size[j]);
        }
    }

    fn get_word(&self, level: usize, c: usize) -> (r: u64)
        requires
            self.wf_layout(),
            level < PAGE_BITMAP_LEVEL_NUMBER,
            c < self.words_of(level as int),
        ensures
            r == self.word(level as int, c as int),
    {
        proof {
            self.lemma_levels_disjoint(level as int, c as int, level as int, c as int);
        }
        self.bitmap[self.level_start[level] + c]
    }

    fn set_word(&mut self, level: usize, c: usize, v: u64)
        requires
            old(self).wf_layout(),
            level < PAGE_BITMAP_LEVEL_NUMBER,
            c < old(self).words_of(level as int),
        ensures
            final(self).wf_layout(),
            final(self).word(level as int, c as int) == v,
            forall|j: int, d: int|
                0 <= j < PAGE_BITMAP_LEVEL_NUMBER && 0 <= d < old(self).words_of(j) && (j != level
                    || d != c) ==> #[trigger] final(self).word(j, d) == old(self).word(j, d),
            final(self).max_memory == old(self).max_memory,
            final(self).available_pages == old(self).available_pages,
            final(self).ranges == old(self).ranges,
            final(self).level_start == old(self).level_start,
            final(self).level_size == old(self).level_size,
    {
        proof {
            self.lemma_levels_disjoint(level as int, c as int, level as int, c as int);
        }
        let i = self.level_start[level] + c;
        self.bitmap.set(i, v);
        proof {
            assert forall|j: int, d: int|
                0 <= j < PAGE_BITMAP_LEVEL_NUMBER && 0 <= d < old(self).words_of(j) && (j != level
                    || d != c) implies #[trigger] self.word(j, d) == old(self).word(j, d) by {
                old(self).lemma_levels_disjoint(j, d, level as int, c as int);
            }
        }
    }

    /// Byte `c % 8` of word `c / 8` of level `k` summarises word `c` of
    /// level `k - 1`.
    spec fn summary_ok(&self, k: int, c: int) -> bool {
        (0 <= c < self.words_of(k - 1) && c / 8 < self.words_of(k)) ==> is_collapse_of(
            byte_of(self.word(k, c / 8), c % 8),
            self.word(k - 1, c),
        )
    }

    /// A byte of level `k` with no word of level `k - 1` under it is all
    /// ones.
    spec fn padding_ok(&self, k: int, w: int, b: int) -> bool {
        (0 <= w < self.words_of(k) && 0 <= b < 8 && 8 * w + b >= self.words_of(k - 1)) ==> byte_of(
            self.word(k, w),
            b,
        ) == 0xffu8
    }

    /// A word of level `k` with no byte of level `k + 1` over it is all
    /// ones.
    spec fn orphan_ok(&self, k: int, c: int) -> bool {
        (0 <= c < self.words_of(k) && c / 8 >= self.words_of(k + 1)) ==> self.word(k, c) == u64::MAX
    }

    spec fn summaries_ok_except(&self, level: int, c0: int) -> bool {
        forall|k: int, c: int|
            1 <= k < PAGE_BITMAP_LEVEL_NUMBER && (k != level || c != c0) ==> #[trigger] self.summary_ok(k, c)
    }

    spec fn levels_ok(&self) -> bool {
        &&& forall|k: int, w: int, b: int|
            1 <= k < PAGE_BITMAP_LEVEL_NUMBER ==> #[trigger] self.padding_ok(k, w, b)
        &&& forall|k: int, c: int|
            1 <= k < PAGE_BITMAP_LEVEL_NUMBER - 1 ==> #[trigger] self.orphan_ok(k, c)
    }

    /// Every free page is one that the levels above can track.
    spec fn free_trackable(&self) -> bool {
        forall|i: int|
            self.in_level(0, i) && !#[trigger] self.bit(0, i) ==> trackable(self.max_memory as int, i)
    }

    /// The levels agree with each other.
    #[verifier::opaque]
    spec fn wf_bits(&self) -> bool {
        &&& self.summaries_ok_except(0, 0)
        &&& self.levels_ok()
        &&& self.free_trackable()
    }

    /// Page numbers whose bit in level 0 is clear.
    pub closed spec fn free_pages(&self) -> Set<int> {
        Set::new(|i: int| self.in_level(0, i) && !self.bit(0, i))
    }

    /// The bitmap is consistent: its levels agree, `available_pages`
    /// counts the free pages, and every free page lies in the ranges of RAM
    /// it was built with.
    pub closed spec fn wf(&self) -> bool {
        &&& self.wf_layout()
        &&& self.wf_bits()
        &&& self.available_pages == self.free_pages().len()
        &&& valid_ranges(self.max_memory as int, self.ranges@)
        &&& self.free_pages().subset_of(ranges_pages(self.ranges@))
    }

    /// The ranges of RAM the bitmap was built with.
    pub closed spec fn spec_ranges(&self) -> Seq<PageRange> {
        self.ranges@
    }

    /// What a consistent bitmap promises: finitely many free pages, all of
    /// them in its ranges of RAM, and every page of those ranges one that
    /// the levels track, inside memory.
    pub proof fn lemma_wf_facts(&self)
        requires
            self.wf(),
        ensures
            self.free_pages().finite(),
            self.free_pages().subset_of(ranges_pages(self.spec_ranges())),
            valid_ranges(self.spec_max_memory(), self.spec_ranges()),
            forall|p: int| #[trigger]
                ranges_pages(self.spec_ranges()).contains(p) ==> trackable(
                    self.spec_max_memory(),
                    p,
                ) && 0 <= p < self.spec_max_memory() / BLOCK_SIZE as int,
    {
        self.lemma_free_pages_finite();
        assert forall|p: int| #[trigger]
            ranges_pages(self.spec_ranges()).contains(p) implies trackable(
                self.spec_max_memory(),
                p,
            ) && 0 <= p < self.spec_max_memory() / BLOCK_SIZE as int by {
            let i = choose|i: int| 0 <= i < self.ranges@.len() && #[trigger] self.ranges@[i].contains(p);
        }
    }

    /// Memory tracked, in bytes.
    pub closed spec fn spec_max_memory(&self) -> int {
        self.max_memory as int
    }

    proof fn lemma_word_ancestor(p: int, k: int)
        requires
            0 <= p,
            0 <= k,
        ensures
            level_index(p / 64, k) == level_index(p, k) / 64,
            level_index(p, k) >= 0,
        decreases k,
    {
        if k > 0 {
            Self::lemma_word_ancestor(p, k - 1);
            let x = level_index(p, k - 1);
            vstd::arithmetic::div_mod::lemma_div_denominator(x, 64, 8);
            vstd::arithmetic::div_mod::lemma_div_denominator(x, 8, 64);
        }
    }

    /// Recomputes the summaries above word `c0` of level 0, from level 1 up
    /// to the coarsest level.
    fn propagate(&mut self, c0: usize)
        requires
            old(self).wf_layout(),
            old(self).summaries_ok_except(1, c0 as int),
            old(self).levels_ok(),
            forall|k: int|
                0 <= k < PAGE_BITMAP_LEVEL_NUMBER ==> #[trigger] level_index(c0 as int, k)
                    < old(self).words_of(k),
        ensures
            final(self).wf_layout(),
            final(self).summaries_ok_except(0, 0),
            final(self).levels_ok(),
            forall|c: int| 0 <= c < old(self).words_of(0) ==> #[trigger] final(self).word(0, c) == old(self).word(0, c),
            final(self).max_memory == old(self).max_memory,
            final(self).available_pages == old(self).available_pages,
            final(self).ranges == old(self).ranges,
            final(self).level_size == old(self).level_size,
            final(self).level_start == old(self).level_start,
    {
        let mut c: usize = c0;
        let mut level: usize = 1;
        while level < PAGE_BITMAP_LEVEL_NUMBER
            invariant
                1 <= level <= PAGE_BITMAP_LEVEL_NUMBER,
                self.wf_layout(),
                c as int == level_index(c0 as int, level - 1),
                self.summaries_ok_except(level as int, c as int),
                self.levels_ok(),
                forall|k: int|
                    0 <= k < PAGE_BITMAP_LEVEL_NUMBER ==> #[trigger] level_index(c0 as int, k)
                        < self.words_of(k),
                forall|d: int| 0 <= d < self.words_of(0) ==> #[trigger] self.word(0, d) == old(self).word(0, d),
                self.max_memory == old(self).max_memory,
                self.available_pages == old(self).available_pages,
                self.ranges == old(self).ranges,
                self.level_size == old(self).level_size,
                self.level_start == old(self).level_start,
            decreases PAGE_BITMAP_LEVEL_NUMBER - level,
        {
            assert(level_index(c0 as int, level as int) == c / 8);
            assert(level_index(c0 as int, level as int - 1) < self.words_of(level as int - 1));
            assert(level_index(c0 as int, level as int) < self.words_of(level as int));
            let child = self.get_word(level - 1, c);
            let byte = collapse_8bit_and(child);
            let w = c / 8;
            let parent = self.get_word(level, w);
            let new_parent = set_byte(parent, c % 8, byte);
            let ghost prev = *self;
            self.set_word(level, w, new_parent);
            proof {
                let lv = level as int;
                assert forall|k: int, d: int|
                    1 <= k < PAGE_BITMAP_LEVEL_NUMBER && (k != lv + 1 || d != w) implies #[trigger] self.summary_ok(k, d) by {
                    if 0 <= d < self.words_of(k - 1) && d / 8 < self.words_of(k) {
                        if k == lv && d / 8 == w {
                            lemma_with_byte(parent, (c % 8) as u64, byte, (d % 8) as u64);
                            assert(prev.summary_ok(k, d) || d == c);
                        } else {
                            assert(prev.summary_ok(k, d));
                        }
                    }
                }
                assert forall|k: int, ww: int, b: int|
                    1 <= k < PAGE_BITMAP_LEVEL_NUMBER implies #[trigger] self.padding_ok(k, ww, b) by {
                    if 0 <= ww < self.words_of(k) && 0 <= b < 8 && 8 * ww + b >= self.words_of(k - 1) {
                        assert(prev.padding_ok(k, ww, b));
                        if k == lv && ww == w {
                            lemma_with_byte(parent, (c % 8) as u64, byte, b as u64);
                        }
                    }
                }
                assert forall|k: int, d: int|
                    1 <= k < PAGE_BITMAP_LEVEL_NUMBER - 1 implies #[trigger] self.orphan_ok(k, d) by {
                    assert(prev.orphan_ok(k, d));
                    if k == lv && d == w {
                        assert(level_index(c0 as int, lv + 1) == w / 8);
                        assert(level_index(c0 as int, lv + 1) < self.words_of(lv + 1));
                    }
                }
            }
            c = w;
            level += 1;
        }
    }

    /// Bit `i` of level `k` is the AND of the eight blocks under it in
    /// level `k - 1`.
    proof fn lemma_summary(&self, k: int, i: int)
        requires
            self.wf_layout(),
            self.wf_bits(),
            1 <= k < PAGE_BITMAP_LEVEL_NUMBER,
            self.in_level(k, i),
        ensures
            self.bit(k, i) == forall|s: int| 0 <= s < 8 ==> #[trigger] self.busy(k - 1, 8 * i + s),
    {
        reveal(PageBitmap::wf_bits);
        let w = i / 64;
        let r = i % 64;
        let b = r / 8;
        let t = r % 8;
        let c = 8 * w + b;
        assert(i == 64 * w + r && r == 8 * b + t && 0 <= b < 8 && 0 <= t < 8);
        lemma_bit_in_byte(self.word(k, w), b as u64, t as u64);
        assert forall|s: int| 0 <= s < 8 implies #[trigger] self.busy(k - 1, 8 * i + s)
            == if c < self.words_of(k - 1) {
            bit_set(self.word(k - 1, c), 8 * t + s)
        } else {
            true
        } by {
            vstd::arithmetic::div_mod::lemma_fundamental_div_mod_converse(8 * i + s, 64, c, 8 * t + s);
        }
        if c < self.words_of(k - 1) {
            assert(self.summary_ok(k, c));
            assert(c / 8 == w && c % 8 == b);
            lemma_byte_full(self.word(k - 1, c), t as u64);
            assert(self.busy(k - 1, 8 * i + 0) == bit_set(self.word(k - 1, c), 8 * t + 0));
            assert(self.busy(k - 1, 8 * i + 1) == bit_set(self.word(k - 1, c), 8 * t + 1));
            assert(self.busy(k - 1, 8 * i + 2) == bit_set(self.word(k - 1, c), 8 * t + 2));
            assert(self.busy(k - 1, 8 * i + 3) == bit_set(self.word(k - 1, c), 8 * t + 3));
            assert(self.busy(k - 1, 8 * i + 4) == bit_set(self.word(k - 1, c), 8 * t + 4));
            assert(self.busy(k - 1, 8 * i + 5) == bit_set(self.word(k - 1, c), 8 * t + 5));
            assert(self.busy(k - 1, 8 * i + 6) == bit_set(self.word(k - 1, c), 8 * t + 6));
            assert(self.busy(k - 1, 8 * i + 7) == bit_set(self.word(k - 1, c), 8 * t + 7));
        } else {
            assert(self.padding_ok(k, w, b));
            lemma_all_ones(t as u64);
        }
    }

    /// A free block of a level below the coarsest one has a bit in the
    /// level above.
    proof fn lemma_parent_in_level(&self, k: int, i: int)
        requires
            self.wf_layout(),
            self.wf_bits(),
            0 <= k < PAGE_BITMAP_LEVEL_NUMBER - 1,
            !self.busy(k, i),
        ensures
            self.in_level(k + 1, i / 8),
    {
        reveal(PageBitmap::wf_bits);
        if k == 0 {
            assert(trackable(self.max_memory as int, i));
            assert(level_index(i, 0) == i);
            assert(level_index(i, 1) == i / 8);
            assert(level_index(i, 1) < 64 * level_words(self.max_memory as int, 1));
        } else {
            let c = i / 64;
            assert(self.orphan_ok(k, c));
            if c / 8 >= self.words_of(k + 1) {
                lemma_all_ones((i % 64) as u64);
            }
            vstd::arithmetic::div_mod::lemma_div_denominator(i, 64, 8);
            vstd::arithmetic::div_mod::lemma_div_denominator(i, 8, 64);
        }
    }

    /// The blocks that hold a free page are free at every level.
    proof fn lemma_free_ancestor(&self, p: int, k: int)
        requires
            self.wf_layout(),
            self.wf_bits(),
            0 <= k < PAGE_BITMAP_LEVEL_NUMBER,
            !self.busy(0, p),
        ensures
            !self.busy(k, level_index(p, k)),
        decreases k,
    {
        if k > 0 {
            self.lemma_free_ancestor(p, k - 1);
            let x = level_index(p, k - 1);
            self.lemma_parent_in_level(k - 1, x);
            self.lemma_summary(k, x / 8);
            assert(8 * (x / 8) + x % 8 == x);
            assert(self.busy(k - 1, 8 * (x / 8) + x % 8) == self.busy(k - 1, x));
        }
    }

    /// Every block below a block index that is busy in level `k` is busy.
    proof fn lemma_busy_children(&self, k: int, i: int, j: int)
        requires
            self.wf_layout(),
            self.wf_bits(),
            1 <= k < PAGE_BITMAP_LEVEL_NUMBER,
            forall|a: int| a < i ==> #[trigger] self.busy(k, a),
            j < 8 * i,
        ensures
            self.busy(k - 1, j),
    {
        if !self.busy(k - 1, j) {
            self.lemma_parent_in_level(k - 1, j);
            assert(j / 8 < i);
            assert(self.busy(k, j / 8));
            self.lemma_summary(k, j / 8);
            assert(8 * (j / 8) + j % 8 == j);
            assert(self.busy(k - 1, 8 * (j / 8) + j % 8));
        }
    }

    /// The first block of the coarsest level that has a free page under it.
    fn find_free_top(&self) -> (r: Option<usize>)
        requires
            self.wf_layout(),
            self.wf_bits(),
        ensures
            match r {
                None => forall|j: int| #[trigger] self.busy(7, j),
                Some(i) => !self.busy(7, i as int) && forall|j: int| j < i ==> #[trigger] self.busy(
                    7,
                    j,
                ),
            },
    {
        let n = self.level_size[7];
        let mut c: usize = 0;
        while c < n
            invariant
                self.wf_layout(),
            self.wf_bits(),
                n == self.words_of(7),
                c <= n,
                forall|j: int| j < 64 * c ==> #[trigger] self.busy(7, j),
            decreases n - c,
        {
            let block = self.get_word(7, c);
            if block != u64::MAX {
                let t = first_clear_bit(block);
                let i = c * 64 + t;
                proof {
                    assert(i / 64 == c && i % 64 == t);
                    assert forall|j: int| j < i implies #[trigger] self.busy(7, j) by {
                        if j >= 64 * c {
                            assert(j / 64 == c && j % 64 < t);
                        }
                    }
                }
                return Some(i);
            }
            proof {
                assert forall|j: int| j < 64 * (c + 1) implies #[trigger] self.busy(7, j) by {
                    if j >= 64 * c {
                        assert(j / 64 == c);
                        lemma_all_ones((j % 64) as u64);
                    }
                }
            }
            c += 1;
        }
        proof {
            assert forall|j: int| #[trigger] self.busy(7, j) by {
                if j < 64 * c {
                }
            }
        }
        None
    }

    proof fn lemma_descend_rest(&self, lv: int, i: int, c: int, t: int)
        requires
            self.wf_layout(),
            self.wf_bits(),
            1 <= lv < PAGE_BITMAP_LEVEL_NUMBER,
            forall|j: int| j < i ==> #[trigger] self.busy(lv, j),
            0 <= c,
            0 <= t < 64,
            64 * c <= 8 * i,
            0 <= c < self.words_of(lv - 1),
            forall|a: int| 0 <= a < t ==> #[trigger] bit_set(self.word(lv - 1, c), a),
        ensures
            forall|j: int| j < 64 * c + t ==> #[trigger] self.busy(lv - 1, j),
    {
        assert forall|j: int| j < 64 * c + t implies #[trigger] self.busy(lv - 1, j) by {
            if j < 8 * i {
                self.lemma_busy_children(lv, i, j);
            } else {
                lemma_div_parts(j, c, j - 64 * c);
            }
        }
    }

    /// The blocks under a free block of level `lv` lie in one word of the
    /// level below, and that word has a clear bit.
    proof fn lemma_descend_word(&self, lv: int, i: int)
        requires
            self.wf_layout(),
            self.wf_bits(),
            1 <= lv < PAGE_BITMAP_LEVEL_NUMBER,
            !self.busy(lv, i),
        ensures
            0 <= i / 8 < self.words_of(lv - 1),
            self.word(lv - 1, i / 8) != u64::MAX,
            64 * (i / 8) <= 8 * i,
            self.words_of(lv - 1) <= 0x100_0000,
    {
        self.lemma_starts_ordered(lv - 1, 7);
        self.lemma_summary(lv, i);
        let s = choose|s: int| 0 <= s < 8 && !#[trigger] self.busy(lv - 1, 8 * i + s);
        assert(self.in_level(lv - 1, 8 * i + s));
        lemma_div_parts(8 * i + s, i / 8, 8 * (i % 8) + s);
        lemma_all_ones(((8 * i + s) % 64) as u64);
    }

    /// One step down: from a free block of `level` whose predecessors are
    /// all busy to the first free block of the level below.
    fn descend(&self, level: usize, index: usize) -> (r: usize)
        requires
            self.wf_layout(),
            self.wf_bits(),
            1 <= level < PAGE_BITMAP_LEVEL_NUMBER,
            !self.busy(level as int, index as int),
            forall|j: int| j < index ==> #[trigger] self.busy(level as int, j),
        ensures
            !self.busy(level - 1, r as int),
            forall|j: int| j < r ==> #[trigger] self.busy(level - 1, j),
    {
        let ghost i = index as int;
        let ghost lv = level as int;
        proof {
            self.lemma_descend_word(lv, i);
        }
        let c = index / 8;
        let block = self.get_word(level - 1, c);
        let t = first_clear_bit(block);
        let r = c * 64 + t;
        proof {
            lemma_div_parts(r as int, c as int, t as int);
            self.lemma_descend_rest(lv, i, c as int, t as int);
        }
        r
    }

    /// The lowest free page, found by descending from the coarsest level.
    fn find_free_page(&self) -> (r: Option<PageFrameNumber>)
        requires
            self.wf_layout(),
            self.wf_bits(),
        ensures
            r.is_none() ==> forall|q: int| !#[trigger] self.free_pages().contains(q),
            r.is_some() ==> self.free_pages().contains(r.unwrap().0 as int) && forall|q: int|
                #[trigger] self.free_pages().contains(q) ==> r.unwrap().0 <= q,
    {
        let top = self.find_free_top();
        match top {
            None => {
                proof {
                    assert(forall|j: int| #[trigger] self.busy(7, j));
                    assert forall|p: int| !#[trigger] self.free_pages().contains(p) by {
                        if self.free_pages().contains(p) {
                            assert(!self.busy(0, p));
                            self.lemma_free_ancestor(p, 7);
                            assert(self.busy(7, level_index(p, 7)));
                        }
                    }
                }
                None
            },
            Some(top_index) => {
                let mut free_block_bit_index: usize = top_index;
                let mut level: usize = 7;
                while level > 0
                    invariant
                        self.wf_layout(),
                        self.wf_bits(),
                        level < PAGE_BITMAP_LEVEL_NUMBER,
                        !self.busy(level as int, free_block_bit_index as int),
                        forall|j: int| j < free_block_bit_index ==> #[trigger] self.busy(
                            level as int,
                            j,
                        ),
                    decreases level,
                {
                    free_block_bit_index = self.descend(level, free_block_bit_index);
                    level -= 1;
                }
                proof {
                    let p = free_block_bit_index as int;
                    assert(!self.busy(0, p));
                    assert(self.free_pages().contains(p));
                    assert forall|q: int| #[trigger] self.free_pages().contains(q) implies p <= q by {
                        if q < p {
                            assert(self.busy(0, q));
                        }
                    }
                }
                Some(PageFrameNumber(free_block_bit_index))
            },
        }
    }

    /// Bit `block_index` of level `level` is clear.
    fn is_block_free(&self, level: usize, block_index: usize) -> (r: bool)
        requires
            self.wf_layout(),
            level < PAGE_BITMAP_LEVEL_NUMBER,
            self.in_level(level as int, block_index as int),
        ensures
            r == !self.bit(level as int, block_index as int),
    {
        let bitmap_index = block_index / 64;
        let bit_offset = block_index % 64;
        let block = self.get_word(level, bitmap_index);
        proof {
            lemma_test_bit(block, bit_offset as u64);
        }
        block & (1u64 << bit_offset as u64) == 0
    }

    /// Marks page `pfn` allocated or free in level 0 and recomputes the
    /// summaries above it.
    fn mark_all_levels(&mut self, pfn: PageFrameNumber, allocated: bool)
        requires
            old(self).wf_layout(),
            old(self).wf_bits(),
            trackable(old(self).max_memory as int, pfn.0 as int),
        ensures
            final(self).wf_layout(),
            final(self).wf_bits(),
            final(self).free_pages() == if allocated {
                old(self).free_pages().remove(pfn.0 as int)
            } else {
                old(self).free_pages().insert(pfn.0 as int)
            },
            final(self).max_memory == old(self).max_memory,
            final(self).available_pages == old(self).available_pages,
            final(self).ranges == old(self).ranges,
    {
        let ghost m = self.max_memory as int;
        let ghost p = pfn.0 as int;
        proof {
            reveal(PageBitmap::wf_bits);
        }
        let block_index = pfn.0;
        let c0 = block_index / 64;
        let t = block_index % 64;
        proof {
            assert forall|k: int| 0 <= k < PAGE_BITMAP_LEVEL_NUMBER implies #[trigger] level_index(
                c0 as int,
                k,
            ) < self.words_of(k) by {
                Self::lemma_word_ancestor(p, k);
                assert(level_index(p, k) < 64 * level_words(m, k));
            }
            assert(level_index(c0 as int, 0) == c0);
        }
        let w = self.get_word(0, c0);
        let nw = if allocated {
            w | (1u64 << t as u64)
        } else {
            w & !(1u64 << t as u64)
        };
        let ghost prev = *self;
        self.set_word(0, c0, nw);
        proof {
            assert forall|k: int, d: int|
                1 <= k < PAGE_BITMAP_LEVEL_NUMBER && (k != 1 || d != c0) implies #[trigger] self.summary_ok(k, d) by {
                assert(prev.summary_ok(k, d));
            }
            assert forall|k: int, ww: int, b: int|
                1 <= k < PAGE_BITMAP_LEVEL_NUMBER implies #[trigger] self.padding_ok(k, ww, b) by {
                assert(prev.padding_ok(k, ww, b));
            }
            assert forall|k: int, d: int|
                1 <= k < PAGE_BITMAP_LEVEL_NUMBER - 1 implies #[trigger] self.orphan_ok(k, d) by {
                assert(prev.orphan_ok(k, d));
            }
        }
        let ghost mid = *self;
        self.propagate(c0);
        proof {
            assert forall|i: int| self.in_level(0, i) implies #[trigger] self.bit(0, i) == if i == p {
                allocated
            } else {
                prev.bit(0, i)
            } by {
                assert(self.word(0, i / 64) == mid.word(0, i / 64));
                if i / 64 == c0 {
                    lemma_with_bit(w, t as u64, (i % 64) as u64);
                    lemma_div_parts(p, c0 as int, t as int);
                    lemma_div_parts(i, c0 as int, i % 64);
                }
            }
            assert forall|i: int| self.in_level(0, i) && !#[trigger] self.bit(0, i) implies trackable(
                m,
                i,
            ) by {
                if i != p {
                    assert(!prev.bit(0, i));
                }
            }
            assert(self.wf_bits());
            if allocated {
                assert(self.free_pages() =~= prev.free_pages().remove(p));
            } else {
                assert(self.free_pages() =~= prev.free_pages().insert(p));
            }
        }
    }

    /// Maximum memory supported by the bitmap, in bytes.
    pub fn max_memory(&self) -> (r: usize)
        ensures
            r == self.spec_max_memory(),
    {
        self.max_memory
    }

    /// Size of the bitmap storage in bytes.
    pub fn size(&self) -> (r: usize)
        requires
            self.wf(),
        ensures
            r == bitmap_bytes(self.spec_max_memory()),
    {
        self.bitmap_size
    }

    /// Number of levels in the bitmap.
    pub fn levels_number(&self) -> (r: usize)
        requires
            self.wf(),
        ensures
            r == PAGE_BITMAP_LEVEL_NUMBER,
    {
        self.levels_number
    }

    /// Number of free pages.
    pub fn available_pages(&self) -> (r: usize)
        requires
            self.wf(),
        ensures
            r == self.free_pages().len(),
    {
        self.available_pages
    }

    /// Whether page `pfn` is free.
    pub fn is_page_free(&self, pfn: PageFrameNumber) -> (r: bool)
        requires
            self.wf(),
            pfn.0 < self.spec_max_memory() / BLOCK_SIZE as int,
        ensures
            r == self.free_pages().contains(pfn.0 as int),
    {
        proof {
            lemma_level_bytes_bounds(self.max_memory as int, 0);
            assert(level_bits(self.max_memory as int, 0) == self.max_memory / 4096);
        }
        self.is_block_free(0, pfn.0)
    }

    proof fn lemma_free_pages_finite(&self)
        requires
            self.wf_layout(),
        ensures
            self.free_pages().finite(),
            self.free_pages().len() <= 64 * self.words_of(0),
            self.words_of(0) <= 0x100_0000,
    {
        let range = vstd::set_lib::set_int_range(0, 64 * self.words_of(0));
        vstd::set_lib::lemma_int_range(0, 64 * self.words_of(0));
        assert(self.free_pages().subset_of(range));
        vstd::set_lib::lemma_len_subset(self.free_pages(), range);
        self.lemma_starts_ordered(0, 7);
    }

    /// The line `dump` writes for word `idx` of a level holding `w`.
    pub open spec fn word_line(w: u64, idx: int) -> Seq<char> {
        "\t|"@ + bits_text(w) + "| # "@ + decimal((64 * idx) as nat) + ".."@ + decimal(
            (64 * (idx + 1)) as nat,
        ) + "\n"@
    }

    /// Word `c` of level `k`.
    pub closed spec fn spec_word(&self, k: int, c: int) -> u64 {
        self.word(k, c)
    }

    /// First word of level `k` in the word array.
    pub closed spec fn spec_level_start(&self, k: int) -> nat {
        self.level_start[k] as nat
    }

    /// Words of level `k`.
    pub closed spec fn spec_level_size(&self, k: int) -> nat {
        self.level_size[k] as nat
    }

    /// The count of free pages the bitmap keeps.
    pub closed spec fn spec_available_pages(&self) -> nat {
        self.available_pages as nat
    }

    /// The lines for the first `n` words of level `k`.
    pub open spec fn word_lines(&self, k: int, n: int) -> Seq<char>
        decreases n,
    {
        if n <= 0 {
            Seq::empty()
        } else {
            self.word_lines(k, n - 1) + Self::word_line(self.spec_word(k, n - 1), n - 1)
        }
    }

    /// The heading `dump` writes for level `k`.
    pub open spec fn level_heading(&self, k: int) -> Seq<char> {
        ">>> Level "@ + decimal(k as nat) + ", starts @ "@ + decimal(self.spec_level_start(k))
            + ", size "@ + decimal(self.spec_level_size(k)) + "\n"@
    }

    /// What `dump` writes for the levels below `n`.
    pub open spec fn levels_text(&self, n: int) -> Seq<char>
        decreases n,
    {
        if n <= 0 {
            Seq::empty()
        } else {
            self.levels_text(n - 1) + self.level_heading(n - 1) + self.word_lines(
                n - 1,
                self.spec_level_size(n - 1) as int,
            )
        }
    }

    /// The text `dump` writes: the number of available pages, then for each
    /// level its first word, its size in words and each of its words, bit
    /// 0 first, with the range of blocks the word covers.
    pub open spec fn dump_text(&self) -> Seq<char> {
        "*** PAGE BITMAP, available pages: "@ + decimal(self.spec_available_pages()) + "\n"@
            + self.levels_text(PAGE_BITMAP_LEVEL_NUMBER as int)
    }

    /// Renders the bitmap as text.
    pub fn dump(&self) -> (r: String)
        requires
            self.wf(),
        ensures
            r@ == self.dump_text(),
    {
        let mut out = String::new();
        out.append("*** PAGE BITMAP, available pages: ");
        push_decimal(&mut out, self.available_pages);
        out.append("\n");
        let ghost header = out@;
        assert(header =~= "*** PAGE BITMAP, available pages: "@ + decimal(
            self.available_pages as nat,
        ) + "\n"@);
        let mut level: usize = 0;
        while level < PAGE_BITMAP_LEVEL_NUMBER
            invariant
                self.wf_layout(),
                level <= PAGE_BITMAP_LEVEL_NUMBER,
                out@ == header + self.levels_text(level as int),
                header == "*** PAGE BITMAP, available pages: "@ + decimal(
                    self.available_pages as nat,
                ) + "\n"@,
            decreases PAGE_BITMAP_LEVEL_NUMBER - level,
        {
            let level_start = self.level_start[level];
            let level_size = self.level_size[level];
            out.append(">>> Level ");
            push_decimal(&mut out, level);
            out.append(", starts @ ");
            push_decimal(&mut out, level_start);
            out.append(", size ");
            push_decimal(&mut out, level_size);
            out.append("\n");
            let ghost before = header + self.levels_text(level as int) + self.level_heading(
                level as int,
            );
            assert(out@ =~= before);
            proof {
                if level < 7 {
                    self.lemma_starts_ordered(level as int, 7);
                }
            }
            let mut idx: usize = 0;
            while idx < level_size
                invariant
                    self.wf_layout(),
                    level < PAGE_BITMAP_LEVEL_NUMBER,
                    level_size == self.words_of(level as int),
                    level_size <= 0x100_0000,
                    idx <= level_size,
                    out@ == before + self.word_lines(level as int, idx as int),
                decreases level_size - idx,
            {
                let block = self.get_word(level, idx);
                let ghost at = out@;
                out.append("\t|");
                push_bits(&mut out, block);
                out.append("| # ");
                push_decimal(&mut out, idx * 64);
                out.append("..");
                push_decimal(&mut out, (idx + 1) * 64);
                out.append("\n");
                assert(out@ =~= at + Self::word_line(block, idx as int));
                assert(out@ =~= before + self.word_lines(level as int, idx + 1));
                idx += 1;
            }
            assert(out@ =~= header + self.levels_text(level + 1));
            level += 1;
        }
        out
    }

    /// Whether the levels agree with each other and every free page is one
    /// the levels can track.
    #[verifier::rlimit(40)]
    fn check_levels(&self) -> (r: bool)
        requires
            self.wf_layout(),
        ensures
            r == self.wf_bits(),
    {
        proof {
            reveal(PageBitmap::wf_bits);
            self.lemma_starts_ordered(0, 7);
        }
        // Each byte of a level summarises its word of the level below, or
        // is all ones where there is none.
        let mut k: usize = 1;
        while k < PAGE_BITMAP_LEVEL_NUMBER
            invariant
                self.wf_layout(),
                1 <= k <= PAGE_BITMAP_LEVEL_NUMBER,
                forall|j: int, c: int| 1 <= j < k ==> #[trigger] self.summary_ok(j, c),
                forall|j: int, w: int, b: int| 1 <= j < k ==> #[trigger] self.padding_ok(j, w, b),
            decreases PAGE_BITMAP_LEVEL_NUMBER - k,
        {
            let below = self.level_size[k - 1];
            let size = self.level_size[k];
            let mut w: usize = 0;
            while w < size
                invariant
                    self.wf_layout(),
                    1 <= k < PAGE_BITMAP_LEVEL_NUMBER,
                    below == self.words_of(k - 1),
                    size == self.words_of(k as int),
                    w <= size,
                    forall|j: int, c: int| 1 <= j < k ==> #[trigger] self.summary_ok(j, c),
                    forall|j: int, w2: int, b: int| 1 <= j < k ==> #[trigger] self.padding_ok(j, w2, b),
                    forall|c: int| c < 8 * w ==> #[trigger] self.summary_ok(k as int, c),
                    forall|w2: int, b: int| w2 < w ==> #[trigger] self.padding_ok(k as int, w2, b),
                decreases size - w,
            {
                let word = self.get_word(k, w);
                let mut b: usize = 0;
                while b < 8
                    invariant
                        self.wf_layout(),
                        1 <= k < PAGE_BITMAP_LEVEL_NUMBER,
                        below == self.words_of(k - 1),
                        size == self.words_of(k as int),
                        w < size,
                        word == self.word(k as int, w as int),
                        b <= 8,
                        forall|c: int| c < 8 * w + b ==> #[trigger] self.summary_ok(k as int, c),
                        forall|b2: int| b2 < b ==> #[trigger] self.padding_ok(k as int, w as int, b2),
                        forall|w2: int, b2: int| w2 < w ==> #[trigger] self.padding_ok(k as int, w2, b2),
                    decreases 8 - b,
                {
                    let byte = ((word >> (8 * b as u64)) & 0xff) as u8;
                    let c = 8 * w + b;
                    if c < below {
                        let child = self.get_word(k - 1, c);
                        let summary = collapse_8bit_and(child);
                        if byte != summary {
                            proof {
                                reveal(PageBitmap::wf_bits);
                                assert(c / 8 == w && c % 8 == b);
                                assert(byte == byte_of(word, b as int));
                                if is_collapse_of(byte, child) {
                                    lemma_collapse_unique(byte, summary, child);
                                }
                                assert(!self.summary_ok(k as int, c as int));
                            }
                            return false;
                        }
                        proof {
                            assert(c / 8 == w && c % 8 == b);
                        }
                    } else if byte != 0xff {
                        proof {
                            reveal(PageBitmap::wf_bits);
                            assert(!self.padding_ok(k as int, w as int, b as int));
                        }
                        return false;
                    }
                    proof {
                        assert forall|c2: int| c2 < 8 * w + b + 1 implies #[trigger] self.summary_ok(
                            k as int,
                            c2,
                        ) by {
                            if c2 == c {
                                assert(c2 / 8 == w && c2 % 8 == b);
                            }
                        }
                    }
                    b += 1;
                }
                proof {
                    assert forall|c: int| c < 8 * (w + 1) implies #[trigger] self.summary_ok(k as int, c) by {
                        assert(c < 8 * w + 8);
                    }
                    assert forall|w2: int, b2: int| w2 < w + 1 implies #[trigger] self.padding_ok(
                        k as int,
                        w2,
                        b2,
                    ) by {
                        if w2 == w && !(0 <= b2 < 8) {
                        }
                    }
                }
                w += 1;
            }
            proof {
                assert forall|c: int| #[trigger] self.summary_ok(k as int, c) by {
                    if c >= 8 * w && 0 <= c < self.words_of(k - 1) {
                        assert(c / 8 >= w);
                    }
                }
                assert forall|w2: int, b: int| #[trigger] self.padding_ok(k as int, w2, b) by {
                    if w2 >= w {
                    }
                }
            }
            k += 1;
        }
        // A word without a byte over it is all ones.
        let mut k: usize = 1;
        while k < PAGE_BITMAP_LEVEL_NUMBER - 1
            invariant
                self.wf_layout(),
                1 <= k <= PAGE_BITMAP_LEVEL_NUMBER - 1,
                forall|j: int, c: int| 1 <= j < PAGE_BITMAP_LEVEL_NUMBER ==> #[trigger] self.summary_ok(j, c),
                forall|j: int, w: int, b: int|
                    1 <= j < PAGE_BITMAP_LEVEL_NUMBER ==> #[trigger] self.padding_ok(j, w, b),
                forall|j: int, c: int| 1 <= j < k ==> #[trigger] self.orphan_ok(j, c),
            decreases PAGE_BITMAP_LEVEL_NUMBER - k,
        {
            let size = self.level_size[k];
            let above = self.level_size[k + 1];
            let mut c: usize = 0;
            while c < size
                invariant
                    self.wf_layout(),
                    1 <= k < PAGE_BITMAP_LEVEL_NUMBER - 1,
                    size == self.words_of(k as int),
                    above == self.words_of(k + 1),
                    c <= size,
                    forall|j: int, c2: int| 1 <= j < k ==> #[trigger] self.orphan_ok(j, c2),
                    forall|c2: int| c2 < c ==> #[trigger] self.orphan_ok(k as int, c2),
                decreases size - c,
            {
                if c / 8 >= above && self.get_word(k, c) != u64::MAX {
                    proof {
                        reveal(PageBitmap::wf_bits);
                        assert(!self.orphan_ok(k as int, c as int));
                    }
                    return false;
                }
                c += 1;
            }
            proof {
                assert forall|c2: int| #[trigger] self.orphan_ok(k as int, c2) by {
                    if c2 >= c {
                    }
                }
            }
            k += 1;
        }
        // Every free page can be tracked.
        let n = self.level_size[0];
        let mut c: usize = 0;
        while c < n
            invariant
                self.wf_layout(),
                n == self.words_of(0),
                n <= 0x100_0000,
                c <= n,
                forall|i: int|
                    0 <= i < 64 * c && !#[trigger] self.bit(0, i) ==> trackable(self.max_memory as int, i),
            decreases n - c,
        {
            let word = self.get_word(0, c);
            let mut u: usize = 0;
            while u < 64
                invariant
                    self.wf_layout(),
                    n == self.words_of(0),
                    n <= 0x100_0000,
                    c < n,
                    word == self.word(0, c as int),
                    u <= 64,
                    forall|i: int|
                        0 <= i < 64 * c + u && !#[trigger] self.bit(0, i) ==> trackable(
                            self.max_memory as int,
                            i,
                        ),
                decreases 64 - u,
            {
                let pfn = 64 * c + u;
                proof {
                    lemma_div_parts(pfn as int, c as int, u as int);
                    lemma_test_bit(word, u as u64);
                }
                if word & (1u64 << u as u64) == 0 {
                    if !self.page_trackable(pfn) {
                        proof {
                            reveal(PageBitmap::wf_bits);
                            assert(self.in_level(0, pfn as int));
                            assert(!self.bit(0, pfn as int));
                        }
                        return false;
                    }
                }
                u += 1;
            }
            c += 1;
        }
        proof {
            assert(self.free_trackable());
            assert(self.summaries_ok_except(0, 0));
            assert(self.levels_ok());
        }
        true
    }

    /// Whether page `pfn` lies in memory and every level has a bit for its
    /// block.
    fn page_trackable(&self, pfn: usize) -> (r: bool)
        requires
            self.wf_layout(),
        ensures
            r == trackable(self.max_memory as int, pfn as int),
    {
        let ghost m = self.max_memory as int;
        if pfn >= self.max_memory / BLOCK_SIZE {
            return false;
        }
        let mut index = pfn;
        let mut level: usize = 0;
        while level < PAGE_BITMAP_LEVEL_NUMBER
            invariant
                self.wf_layout(),
                m == self.max_memory,
                level <= PAGE_BITMAP_LEVEL_NUMBER,
                index == level_index(pfn as int, level as int),
                forall|j: int|
                    0 <= j < level ==> #[trigger] level_index(pfn as int, j) < 64 * level_words(m, j),
            decreases PAGE_BITMAP_LEVEL_NUMBER - level,
        {
            if index / 64 >= self.level_size[level] {
                return false;
            }
            index = index / 8;
            level += 1;
        }
        true
    }

    /// Number of free pages, counted bit by bit.
    fn count_free_pages(&self) -> (r: usize)
        requires
            self.wf_layout(),
        ensures
            r == self.free_pages().len(),
    {
        proof {
            self.lemma_starts_ordered(0, 7);
        }
        let n = self.level_size[0] * 64;
        let mut count: usize = 0;
        let mut i: usize = 0;
        let ghost mut seen: Set<int> = Set::empty();
        while i < n
            invariant
                self.wf_layout(),
                n == 64 * self.words_of(0),
                n <= 0x4000_0000,
                i <= n,
                seen == Set::new(|p: int| 0 <= p < i && self.in_level(0, p) && !self.bit(0, p)),
                seen.finite(),
                count == seen.len(),
                count <= i,
            decreases n - i,
        {
            if self.is_block_free(0, i) {
                proof {
                    assert(Set::new(|p: int| 0 <= p < i + 1 && self.in_level(0, p) && !self.bit(0, p))
                        =~= seen.insert(i as int));
                    seen = seen.insert(i as int);
                }
                count += 1;
            } else {
                proof {
                    assert(Set::new(|p: int| 0 <= p < i + 1 && self.in_level(0, p) && !self.bit(0, p))
                        =~= seen);
                }
            }
            i += 1;
        }
        assert(seen =~= self.free_pages());
        count
    }

    /// Whether `ranges` can seed this bitmap: none is empty, no two share
    /// a page, and every page of them is one the levels can track.
    fn ranges_valid(&self, ranges: &[PageRange]) -> (r: bool)
        requires
            self.wf_layout(),
        ensures
            r == valid_ranges(self.max_memory as int, ranges@),
    {
        let ghost m = self.max_memory as int;
        let n = ranges.len();
        let mut i: usize = 0;
        while i < n
            invariant
                self.wf_layout(),
                m == self.max_memory,
                n == ranges@.len(),
                i <= n,
                forall|j: int| 0 <= j < i ==> #[trigger] ranges@[j].wf(),
                forall|j: int| 0 <= j < i ==> #[trigger] ranges@[j].end() <= usize::MAX,
                forall|j: int, p: int|
                    0 <= j < i && #[trigger] ranges@[j].contains(p) ==> trackable(m, p),
            decreases n - i,
        {
            let range = ranges[i];
            if range.page_count == 0 {
                proof {
                    assert(!ranges@[i as int].wf());
                }
                return false;
            }
            if range.start_pfn.0 > usize::MAX - range.page_count {
                proof {
                    let last = range.start_pfn.0 + range.page_count - 1;
                    assert(ranges@[i as int].contains(last));
                    assert(!trackable(m, last));
                }
                return false;
            }
            let last = range.start_pfn.0 + range.page_count - 1;
            if !self.page_trackable(last) {
                proof {
                    assert(ranges@[i as int].contains(last as int));
                }
                return false;
            }
            proof {
                assert forall|j: int, p: int|
                    0 <= j < i + 1 && #[trigger] ranges@[j].contains(p) implies trackable(m, p) by {
                    if j == i {
                        lemma_trackable_prefix(m, p, last as int);
                    }
                }
            }
            i += 1;
        }
        let mut i: usize = 0;
        while i < n
            invariant
                n == ranges@.len(),
                i <= n,
                forall|j: int| 0 <= j < n ==> #[trigger] ranges@[j].wf(),
                forall|j: int| 0 <= j < n ==> #[trigger] ranges@[j].end() <= usize::MAX,
                forall|a: int, b: int, p: int|
                    0 <= a < i && a < b < n && #[trigger] ranges@[a].contains(p) ==> !#[trigger] ranges@[b].contains(p),
            decreases n - i,
        {
            let ri = ranges[i];
            let mut j: usize = i + 1;
            while j < n
                invariant
                    n == ranges@.len(),
                    i < n,
                    i < j <= n,
                    ri == ranges@[i as int],
                    forall|k: int| 0 <= k < n ==> #[trigger] ranges@[k].wf(),
                    forall|k: int| 0 <= k < n ==> #[trigger] ranges@[k].end() <= usize::MAX,
                    forall|a: int, b: int, p: int|
                        0 <= a < i && a < b < n && #[trigger] ranges@[a].contains(p) ==> !#[trigger] ranges@[b].contains(p),
                    forall|b: int, p: int|
                        i < b < j && #[trigger] ranges@[i as int].contains(p) ==> !#[trigger] ranges@[b].contains(p),
                decreases n - j,
            {
                let rj = ranges[j];
                assert(ranges@[i as int].end() <= usize::MAX);
                assert(ranges@[j as int].end() <= usize::MAX);
                if ri.start_pfn.0 < rj.start_pfn.0 + rj.page_count && rj.start_pfn.0
                    < ri.start_pfn.0 + ri.page_count {
                    proof {
                        let p = if ri.start_pfn.0 < rj.start_pfn.0 {
                            rj.start_pfn.0 as int
                        } else {
                            ri.start_pfn.0 as int
                        };
                        assert(ranges@[i as int].wf() && ranges@[j as int].wf());
                        assert(ranges@[i as int].contains(p) && ranges@[j as int].contains(p));
                    }
                    return false;
                }
                j += 1;
            }
            i += 1;
        }
        true
    }

    /// Whether every free page lies in one of `ranges`.
    fn free_in_ranges(&self, ranges: &[PageRange]) -> (r: bool)
        requires
            self.wf_layout(),
        ensures
            r == self.free_pages().subset_of(ranges_pages(ranges@)),
    {
        proof {
            self.lemma_starts_ordered(0, 7);
        }
        let n = self.level_size[0] * 64;
        let mut i: usize = 0;
        while i < n
            invariant
                self.wf_layout(),
                n == 64 * self.words_of(0),
                i <= n,
                forall|p: int| 0 <= p < i && #[trigger] self.free_pages().contains(p) ==> ranges_pages(ranges@).contains(p),
            decreases n - i,
        {
            if self.is_block_free(0, i) && !ranges_contain(ranges, i) {
                proof {
                    assert(self.free_pages().contains(i as int));
                }
                return false;
            }
            i += 1;
        }
        true
    }

    /// Two bitmaps with the same words and layout have the same levels.
    proof fn lemma_same_bits(a: Self, b: Self)
        requires
            a.bitmap@ == b.bitmap@,
            a.level_start == b.level_start,
            a.level_size == b.level_size,
            a.max_memory == b.max_memory,
        ensures
            a.wf_bits() == b.wf_bits(),
            a.free_pages() == b.free_pages(),
    {
        reveal(PageBitmap::wf_bits);
        assert(forall|k: int, c: int|
            #![trigger a.summary_ok(k, c)]
            #![trigger b.summary_ok(k, c)]
            a.summary_ok(k, c) == b.summary_ok(k, c));
        assert(forall|k: int, w: int, c: int|
            #![trigger a.padding_ok(k, w, c)]
            #![trigger b.padding_ok(k, w, c)]
            a.padding_ok(k, w, c) == b.padding_ok(k, w, c));
        assert(forall|k: int, c: int|
            #![trigger a.orphan_ok(k, c)]
            #![trigger b.orphan_ok(k, c)]
            a.orphan_ok(k, c) == b.orphan_ok(k, c));
        assert(forall|i: int| #![trigger a.bit(0, i)] #![trigger b.bit(0, i)] a.bit(0, i) == b.bit(0, i));
        assert(a.summaries_ok_except(0, 0) == b.summaries_ok_except(0, 0));
        assert(a.levels_ok() == b.levels_ok());
        assert(a.free_trackable() == b.free_trackable());
        assert(a.free_pages() =~= b.free_pages());
    }

    /// Allocates the lowest free page.
    pub fn allocate_page(&mut self) -> (r: Result<PageFrameNumber, PageBitmapError>)
        requires
            old(self).wf(),
        ensures
            final(self).wf(),
            final(self).spec_max_memory() == old(self).spec_max_memory(),
            final(self).spec_ranges() == old(self).spec_ranges(),
            old(self).free_pages().finite(),
            match r {
                Ok(p) => {
                    &&& old(self).free_pages().contains(p.0 as int)
                    &&& forall|q: int| #[trigger] old(self).free_pages().contains(q) ==> p.0 <= q
                    &&& final(self).free_pages() == old(self).free_pages().remove(p.0 as int)
                    &&& final(self).free_pages().len() == old(self).free_pages().len() - 1
                    &&& ranges_pages(old(self).spec_ranges()).contains(p.0 as int)
                    &&& trackable(old(self).spec_max_memory(), p.0 as int)
                    &&& p.0 < old(self).spec_max_memory() / BLOCK_SIZE as int
                },
                Err(e) => {
                    &&& e == PageBitmapError::OutOfMemory
                    &&& old(self).free_pages() == Set::<int>::empty()
                    &&& *final(self) == *old(self)
                },
            },
    {
        proof {
            self.lemma_free_pages_finite();
        }
        if let Some(p) = self.find_free_page() {
            proof {
                reveal(PageBitmap::wf_bits);
                self.lemma_free_pages_finite();
                assert(trackable(self.max_memory as int, p.0 as int));
            }
            self.mark_page_as_allocated(p);
            proof {
                old(self).lemma_free_pages_finite();
                assert(self.free_pages().len() == old(self).free_pages().len() - 1);
            }
            let ghost marked = *self;
            self.available_pages -= 1;
            proof {
                Self::lemma_same_bits(marked, *self);
            }
            Ok(p)
        } else {
            proof {
                assert(self.free_pages() =~= Set::<int>::empty());
            }
            Err(PageBitmapError::OutOfMemory)
        }
    }

    /// Whether page `pfn` lies in one of the ranges of RAM the bitmap was
    /// built with.
    fn in_ranges(&self, pfn: usize) -> (r: bool)
        ensures
            r == ranges_pages(self.ranges@).contains(pfn as int),
    {
        ranges_contain(self.ranges.as_slice(), pfn)
    }

    /// Whether page `pfn` is reserved: in none of the ranges of RAM the
    /// bitmap was built with, so never free.
    pub fn is_page_reserved(&self, pfn: PageFrameNumber) -> (r: bool)
        ensures
            r == !ranges_pages(self.spec_ranges()).contains(pfn.0 as int),
    {
        !self.in_ranges(pfn.0)
    }

    /// Frees an allocated page. A reserved page, and a page that is already
    /// free, are refused and nothing changes.
    pub fn free_page(&mut self, page: PageFrameNumber) -> (r: Result<(), PageBitmapError>)
        requires
            old(self).wf(),
            page.0 < old(self).spec_max_memory() / BLOCK_SIZE as int,
        ensures
            final(self).wf(),
            final(self).spec_max_memory() == old(self).spec_max_memory(),
            final(self).spec_ranges() == old(self).spec_ranges(),
            old(self).free_pages().finite(),
            !ranges_pages(old(self).spec_ranges()).contains(page.0 as int) ==> {
                &&& r == Err::<(), PageBitmapError>(PageBitmapError::PageIsReserved)
                &&& *final(self) == *old(self)
            },
            ranges_pages(old(self).spec_ranges()).contains(page.0 as int) && old(
                self,
            ).free_pages().contains(page.0 as int) ==> {
                &&& r == Err::<(), PageBitmapError>(PageBitmapError::PageIsNotAllocated)
                &&& *final(self) == *old(self)
            },
            ranges_pages(old(self).spec_ranges()).contains(page.0 as int) && !old(
                self,
            ).free_pages().contains(page.0 as int) ==> {
                &&& r == Ok::<(), PageBitmapError>(())
                &&& final(self).free_pages() == old(self).free_pages().insert(page.0 as int)
                &&& final(self).free_pages().len() == old(self).free_pages().len() + 1
            },
    {
        proof {
            self.lemma_free_pages_finite();
            assert(level_index(page.0 as int, 0) == page.0);
        }
        if !self.in_ranges(page.0) {
            return Err(PageBitmapError::PageIsReserved);
        }
        proof {
            let i = choose|i: int|
                0 <= i < self.ranges@.len() && #[trigger] self.ranges@[i].contains(page.0 as int);
            assert(trackable(self.max_memory as int, page.0 as int));
        }
        if self.is_page_free(page) {
            return Err(PageBitmapError::PageIsNotAllocated);
        }
        self.mark_page_as_free(page);
        proof {
            old(self).lemma_free_pages_finite();
            self.lemma_free_pages_finite();
            assert(self.free_pages().len() == old(self).free_pages().len() + 1);
        }
        let ghost marked = *self;
        self.available_pages += 1;
        proof {
            Self::lemma_same_bits(marked, *self);
            assert(self.wf_layout());
            assert(self.available_pages == marked.free_pages().len());
            assert(self.free_pages().subset_of(ranges_pages(self.ranges@)));
        }
        Ok(())
    }

    fn mark_page_as_allocated(&mut self, pfn: PageFrameNumber)
        requires
            old(self).wf_layout(),
            old(self).wf_bits(),
            trackable(old(self).max_memory as int, pfn.0 as int),
        ensures
            final(self).wf_layout(),
            final(self).wf_bits(),
            final(self).free_pages() == old(self).free_pages().remove(pfn.0 as int),
            final(self).max_memory == old(self).max_memory,
            final(self).available_pages == old(self).available_pages,
            final(self).ranges == old(self).ranges,
    {
        self.mark_all_levels(pfn, true);
    }

    fn mark_page_as_free(&mut self, pfn: PageFrameNumber)
        requires
            old(self).wf_layout(),
            old(self).wf_bits(),
            trackable(old(self).max_memory as int, pfn.0 as int),
        ensures
            final(self).wf_layout(),
            final(self).wf_bits(),
            final(self).free_pages() == old(self).free_pages().insert(pfn.0 as int),
            final(self).max_memory == old(self).max_memory,
            final(self).available_pages == old(self).available_pages,
            final(self).ranges == old(self).ranges,
    {
        self.mark_all_levels(pfn, false);
    }

    /// Replaces word `c` of level 0 by `v` and recomputes the summaries
    /// above it. Every bit that `v` frees belongs to a page the levels can
    /// track.
    fn update_page_word(&mut self, c: usize, v: u64, Ghost(q): Ghost<int>)
        requires
            old(self).wf_layout(),
            old(self).wf_bits(),
            q / 64 == c,
            trackable(old(self).max_memory as int, q),
            forall|u: int|
                0 <= u < 64 && !#[trigger] bit_set(v, u) ==> bit_set(old(self).word(0, c as int), u)
                    ==> trackable(old(self).max_memory as int, 64 * c + u),
        ensures
            final(self).wf_layout(),
            final(self).wf_bits(),
            final(self).word(0, c as int) == v,
            forall|d: int|
                0 <= d < old(self).words_of(0) && d != c ==> #[trigger] final(self).word(0, d)
                    == old(self).word(0, d),
            final(self).max_memory == old(self).max_memory,
            final(self).available_pages == old(self).available_pages,
            final(self).ranges == old(self).ranges,
            final(self).level_size == old(self).level_size,
            final(self).level_start == old(self).level_start,
    {
        let ghost m = self.max_memory as int;
        proof {
            reveal(PageBitmap::wf_bits);
            assert forall|k: int| 0 <= k < PAGE_BITMAP_LEVEL_NUMBER implies #[trigger] level_index(
                c as int,
                k,
            ) < self.words_of(k) by {
                Self::lemma_word_ancestor(q, k);
                assert(level_index(q, k) < 64 * level_words(m, k));
            }
            assert(level_index(c as int, 0) == c);
        }
        let ghost prev = *self;
        self.set_word(0, c, v);
        proof {
            assert forall|k: int, d: int|
                1 <= k < PAGE_BITMAP_LEVEL_NUMBER && (k != 1 || d != c) implies #[trigger] self.summary_ok(k, d) by {
                assert(prev.summary_ok(k, d));
            }
            assert forall|k: int, ww: int, b: int|
                1 <= k < PAGE_BITMAP_LEVEL_NUMBER implies #[trigger] self.padding_ok(k, ww, b) by {
                assert(prev.padding_ok(k, ww, b));
            }
            assert forall|k: int, d: int|
                1 <= k < PAGE_BITMAP_LEVEL_NUMBER - 1 implies #[trigger] self.orphan_ok(k, d) by {
                assert(prev.orphan_ok(k, d));
            }
        }
        let ghost mid = *self;
        self.propagate(c);
        proof {
            assert forall|i: int| self.in_level(0, i) && !#[trigger] self.bit(0, i) implies trackable(
                m,
                i,
            ) by {
                assert(self.word(0, i / 64) == mid.word(0, i / 64));
                if i / 64 != c {
                    assert(!prev.bit(0, i));
                } else {
                    lemma_div_parts(i, c as int, i % 64);
                    if !bit_set(prev.word(0, c as int), i % 64) {
                        assert(!prev.bit(0, i));
                    }
                }
            }
            assert(self.wf_bits());
        }
    }

    /// Clears the bits of the pages `start .. end` in level 0, word by
    /// word, and recomputes the summaries above each changed word.
    fn clear_range(&mut self, start: usize, end: usize)
        requires
            old(self).wf_layout(),
            old(self).wf_bits(),
            start < end,
            forall|p: int| start <= p < end ==> trackable(old(self).max_memory as int, p),
        ensures
            final(self).wf_layout(),
            final(self).wf_bits(),
            final(self).free_pages() == old(self).free_pages().union(
                Set::new(|p: int| start <= p < end),
            ),
            final(self).max_memory == old(self).max_memory,
            final(self).available_pages == old(self).available_pages,
            final(self).ranges == old(self).ranges,
    {
        let ghost m = self.max_memory as int;
        let first = start / 64;
        let last = (end - 1) / 64;
        let mut c = first;
        while c <= last
            invariant
                self.wf_layout(),
                self.wf_bits(),
                first <= c <= last + 1,
                first == start / 64,
                last == (end - 1) / 64,
                start < end,
                forall|p: int| start <= p < end ==> trackable(m, p),
                m == self.max_memory,
                self.max_memory == old(self).max_memory,
                self.available_pages == old(self).available_pages,
                self.ranges == old(self).ranges,
                self.level_size == old(self).level_size,
                self.level_start == old(self).level_start,
                forall|i: int|
                    old(self).in_level(0, i) ==> #[trigger] self.bit(0, i) == (old(self).bit(0, i)
                        && !(start <= i < end && i < 64 * c)),
            decreases last + 1 - c,
        {
            let ghost q: int = if c == first { start as int } else { 64 * c };
            proof {
                assert(start <= q < end);
                lemma_div_parts(q, c as int, q - 64 * c);
                assert(trackable(m, q));
                assert(level_index(q, 0) == q);
            }
            let lo: usize = if c == first { start % 64 } else { 0 };
            let hi: usize = if c == last { (end - 1) % 64 + 1 } else { 64 };
            let w = self.get_word(0, c);
            let v = clear_bits(w, lo as u64, hi as u64);
            proof {
                lemma_div_parts(start as int, first as int, (start % 64) as int);
                lemma_div_parts(end - 1, last as int, ((end - 1) % 64) as int);
                assert(c == first ==> start == 64 * c + lo);
                assert(c != first ==> start <= 64 * c && lo == 0);
                assert(c == last ==> end == 64 * c + hi);
                assert(c != last ==> end >= 64 * c + 64 && hi == 64);
            }
            let ghost prev = *self;
            self.update_page_word(c, v, Ghost(q));
            proof {
                assert forall|i: int| old(self).in_level(0, i) implies #[trigger] self.bit(0, i) == (
                old(self).bit(0, i) && !(start <= i < end && i < 64 * (c + 1))) by {
                    assert(prev.bit(0, i) == (old(self).bit(0, i) && !(start <= i < end && i < 64
                        * c)));
                    if i / 64 == c {
                        lemma_div_parts(i, c as int, i % 64);
                    } else {
                        assert(self.word(0, i / 64) == prev.word(0, i / 64));
                    }
                }
            }
            c += 1;
        }
        proof {
            assert(end <= 64 * c);
            assert forall|p: int| start <= p < end implies #[trigger] old(self).in_level(0, p) by {
                assert(trackable(m, p));
                assert(level_index(p, 0) == p);
            }
            assert forall|p: int| #[trigger] self.free_pages().contains(p) == old(self).free_pages().union(
                Set::new(|p: int| start <= p < end),
            ).contains(p) by {
                if start <= p < end {
                    assert(old(self).in_level(0, p));
                }
            }
            assert(self.free_pages() =~= old(self).free_pages().union(
                Set::new(|p: int| start <= p < end),
            ));
        }
    }

    /// Marks every block of every level busy.
    fn fill_busy(&mut self)
        requires
            old(self).wf_layout(),
        ensures
            final(self).wf_layout(),
            final(self).wf_bits(),
            final(self).free_pages() == Set::<int>::empty(),
            final(self).max_memory == old(self).max_memory,
            final(self).available_pages == old(self).available_pages,
            final(self).ranges == old(self).ranges,
            final(self).level_size == old(self).level_size,
            final(self).level_start == old(self).level_start,
    {
        let mut level: usize = 0;
        while level < PAGE_BITMAP_LEVEL_NUMBER
            invariant
                self.wf_layout(),
                level <= PAGE_BITMAP_LEVEL_NUMBER,
                forall|k: int, d: int|
                    0 <= k < level && 0 <= d < self.words_of(k) ==> #[trigger] self.word(k, d)
                        == u64::MAX,
                self.max_memory == old(self).max_memory,
                self.available_pages == old(self).available_pages,
                self.ranges == old(self).ranges,
                self.level_size == old(self).level_size,
                self.level_start == old(self).level_start,
            decreases PAGE_BITMAP_LEVEL_NUMBER - level,
        {
            let n = self.level_size[level];
            let mut c: usize = 0;
            while c < n
                invariant
                    self.wf_layout(),
                    level < PAGE_BITMAP_LEVEL_NUMBER,
                    n == self.words_of(level as int),
                    c <= n,
                    forall|k: int, d: int|
                        (0 <= k < level || (k == level && d < c)) && 0 <= d < self.words_of(k)
                            ==> #[trigger] self.word(k, d) == u64::MAX,
                    self.max_memory == old(self).max_memory,
                    self.available_pages == old(self).available_pages,
                    self.ranges == old(self).ranges,
                    self.level_size == old(self).level_size,
                    self.level_start == old(self).level_start,
                decreases n - c,
            {
                self.set_word(level, c, u64::MAX);
                c += 1;
            }
            level += 1;
        }
        proof {
            reveal(PageBitmap::wf_bits);
            lemma_all_ones_collapse();
            assert forall|k: int, c: int| 1 <= k < PAGE_BITMAP_LEVEL_NUMBER implies #[trigger] self.summary_ok(k, c) by {
                if 0 <= c < self.words_of(k - 1) && c / 8 < self.words_of(k) {
                    assert(self.word(k, c / 8) == u64::MAX);
                    assert(self.word(k - 1, c) == u64::MAX);
                }
            }
            assert forall|k: int, w: int, b: int| 1 <= k < PAGE_BITMAP_LEVEL_NUMBER implies #[trigger] self.padding_ok(k, w, b) by {
                if 0 <= w < self.words_of(k) && 0 <= b < 8 {
                    assert(self.word(k, w) == u64::MAX);
                }
            }
            assert forall|i: int| self.in_level(0, i) implies #[trigger] self.bit(0, i) by {
                assert(self.word(0, i / 64) == u64::MAX);
                lemma_all_ones((i % 64) as u64);
            }
            assert(self.wf_bits());
            assert(self.free_pages() =~= Set::<int>::empty());
        }
    }

    /// Marks everything busy, then frees the pages of each range in turn.
    fn init(&mut self, available_ram_map: &[PageRange])
        requires
            old(self).wf_layout(),
            old(self).available_pages == 0,
            valid_ranges(old(self).max_memory as int, available_ram_map@),
            old(self).ranges@ == available_ram_map@,
        ensures
            final(self).ranges@ == old(self).ranges@,
            final(self).wf(),
            final(self).max_memory == old(self).max_memory,
            final(self).free_pages() == ranges_pages(available_ram_map@),
            final(self).free_pages().len() == ranges_page_count(
                available_ram_map@,
                available_ram_map@.len() as int,
            ),
    {
        let ghost m = self.max_memory as int;
        let ghost ranges = available_ram_map@;
        self.fill_busy();
        proof {
            assert(ranges_pages_upto(ranges, 0) =~= Set::<int>::empty());
        }
        let mut i: usize = 0;
        while i < available_ram_map.len()
            invariant
                self.wf_layout(),
                self.wf_bits(),
                i <= ranges.len(),
                ranges == available_ram_map@,
                m == self.max_memory,
                m == old(self).max_memory,
                valid_ranges(m, ranges),
                self.ranges@ == ranges,
                self.free_pages() == ranges_pages_upto(ranges, i as int),
                self.free_pages().len() == ranges_page_count(ranges, i as int),
                self.available_pages == self.free_pages().len(),
            decreases ranges.len() - i,
        {
            let range = available_ram_map[i];
            let ghost ri = i as int;
            proof {
                assert(ranges[ri].wf());
                assert(ranges[ri].contains(range.start_pfn.0 as int));
                assert(trackable(m, range.start_pfn.0 as int));
                assert(ranges[ri].contains(range.start_pfn.0 + range.page_count - 1));
                assert(trackable(m, range.start_pfn.0 + range.page_count - 1));
            }
            let start = range.start_pfn.0;
            let end = start + range.page_count;
            let ghost before = self.free_pages();
            proof {
                self.lemma_free_pages_finite();
                assert forall|p: int| start <= p < end implies trackable(m, p) by {
                    assert(ranges[ri].contains(p));
                }
            }
            self.clear_range(start, end);
            let ghost pages = Set::new(|p: int| start <= p < end);
            proof {
                assert(pages =~= vstd::set_lib::set_int_range(start as int, end as int));
                vstd::set_lib::lemma_int_range(start as int, end as int);
                assert(before.disjoint(pages)) by {
                    assert forall|p: int| before.contains(p) implies !pages.contains(p) by {
                        let j = choose|j: int| 0 <= j < ri && #[trigger] ranges[j].contains(p);
                        assert(!ranges[ri].contains(p));
                    }
                }
                vstd::set_lib::lemma_set_disjoint_lens(before, pages);
                assert(self.free_pages() =~= ranges_pages_upto(ranges, ri + 1)) by {
                    assert forall|p: int| #[trigger] self.free_pages().contains(p) == ranges_pages_upto(ranges, ri + 1).contains(p) by {
                        if pages.contains(p) {
                            assert(ranges[ri].contains(p));
                        }
                        if ranges_pages_upto(ranges, ri + 1).contains(p) && !pages.contains(p) {
                            let j = choose|j: int| 0 <= j < ri + 1 && #[trigger] ranges[j].contains(p);
                            assert(j != ri);
                            assert(before.contains(p));
                        }
                    }
                }
                self.lemma_free_pages_finite();
            }
            let ghost cleared = *self;
            self.available_pages += range.page_count;
            proof {
                Self::lemma_same_bits(cleared, *self);
            }
            i += 1;
        }
        proof {
            assert(ranges_pages_upto(ranges, ranges.len() as int) =~= ranges_pages(ranges));
            assert(self.free_pages().subset_of(ranges_pages(self.ranges@)));
        }
    }

    /// Creates the bitmap over `bitmap_storage`, which must hold the
    /// `bitmap_size` bytes that `page_bitmap_size` gives for `max_memory`,
    /// and frees the pages of `available_ram_map`: RAM, not ROM or MMIO.
    fn build(
        bitmap_size: usize,
        bitmap_storage: Vec<u64>,
        max_memory: usize,
        available_ram_map: &[PageRange],
    ) -> (r: Self)
        requires
            valid_max_memory(max_memory as int),
            bitmap_size == bitmap_bytes(max_memory as int),
            bitmap_storage@.len() * 8 >= bitmap_size,
            valid_ranges(max_memory as int, available_ram_map@),
        ensures
            r.wf(),
            r.spec_max_memory() == max_memory,
            r.free_pages() == ranges_pages(available_ram_map@),
            r.free_pages().len() == ranges_page_count(
                available_ram_map@,
                available_ram_map@.len() as int,
            ),
            r.spec_ranges() == available_ram_map@,
    {
        let ghost m = max_memory as int;
        let mut level_start: [usize; 8] = [0; 8];
        let mut level_size = page_bitmap_level_size(max_memory);
        let mut current_level_start: usize = 0;
        let mut level: usize = 0;
        while level < PAGE_BITMAP_LEVEL_NUMBER
            invariant
                valid_max_memory(m),
                level <= PAGE_BITMAP_LEVEL_NUMBER,
                current_level_start == levels_bytes(m, level as int),
                forall|j: int| 0 <= j < level ==> #[trigger] level_start[j] == levels_bytes(m, j) / 8,
                forall|j: int| 0 <= j < level ==> #[trigger] level_size[j] == level_words(m, j),
                forall|j: int|
                    level <= j < PAGE_BITMAP_LEVEL_NUMBER ==> #[trigger] level_size[j]
                        == level_bytes(m, j),
            decreases PAGE_BITMAP_LEVEL_NUMBER - level,
        {
            proof {
                lemma_levels_bytes_bounds(m, level as int + 1);
            }
            let size = level_size[level];
            level_start[level] = current_level_start / 8;
            level_size[level] = size / 8;
            current_level_start += size;
            level += 1;
        }
        let mut page_bitmap = Self {
            signature0: PAGE_BITMAP_SIGNATURE0,
            signature1: PAGE_BITMAP_SIGNATURE1,
            signature2: PAGE_BITMAP_SIGNATURE2,
            signature3: PAGE_BITMAP_SIGNATURE3,
            signature4: PAGE_BITMAP_SIGNATURE4,
            signature5: PAGE_BITMAP_SIGNATURE5,
            signature6: PAGE_BITMAP_SIGNATURE6,
            levels_number: PAGE_BITMAP_LEVEL_NUMBER,
            max_memory,
            bitmap: bitmap_storage,
            bitmap_size,
            level_start,
            level_size,
            available_pages: 0,
            ranges: copy_ranges(available_ram_map),
        };
        proof {
            assert forall|k: int| 0 <= k < PAGE_BITMAP_LEVEL_NUMBER - 1 implies #[trigger] level_start[k
                + 1] == level_start[k] + level_size[k] by {
                lemma_levels_bytes_bounds(m, k);
                lemma_level_bytes_bounds(m, k);
                assert(levels_bytes(m, k + 1) == levels_bytes(m, k) + level_bytes(m, k));
            }
            assert forall|k: int| 0 <= k < PAGE_BITMAP_LEVEL_NUMBER implies #[trigger] level_size[k]
                >= 1 by {
                lemma_level_bytes_bounds(m, k);
            }
            lemma_levels_bytes_bounds(m, 7);
            lemma_level_bytes_bounds(m, 7);
            lemma_levels_bytes_bounds(m, 8);
            assert(levels_bytes(m, 8) == levels_bytes(m, 7) + level_bytes(m, 7));
            assert(levels_bytes(m, 0) == 0);
            assert(page_bitmap.wf_layout());
        }
        page_bitmap.init(available_ram_map);
        page_bitmap
    }

    /// Whether the bitmap can track page `pfn`: it lies in the memory and
    /// every level has a bit for the block that holds it.
    pub fn tracks_page(&self, pfn: PageFrameNumber) -> (r: bool)
        requires
            self.wf(),
        ensures
            r == trackable(self.spec_max_memory(), pfn.0 as int),
    {
        let ghost m = self.max_memory as int;
        let pages = self.max_memory / BLOCK_SIZE;
        if pfn.0 >= pages {
            return false;
        }
        let mut index = pfn.0;
        let mut level: usize = 0;
        while level < PAGE_BITMAP_LEVEL_NUMBER
            invariant
                self.wf(),
                m == self.max_memory,
                level <= PAGE_BITMAP_LEVEL_NUMBER,
                index == level_index(pfn.0 as int, level as int),
                forall|j: int|
                    0 <= j < level ==> #[trigger] level_index(pfn.0 as int, j) < 64 * level_words(
                        m,
                        j,
                    ),
            decreases PAGE_BITMAP_LEVEL_NUMBER - level,
        {
            if index / 64 >= self.level_size[level] {
                proof {
                    assert(!(level_index(pfn.0 as int, level as int) < 64 * level_words(
                        m,
                        level as int,
                    )));
                }
                return false;
            }
            index = index / 8;
            level += 1;
        }
        true
    }
}

} // verus!

verus! {

/// The page bitmap with the default number of levels.
pub type DefaultPageBitmap = PageBitmap;

impl DefaultPageBitmap {
    /// Creates a bitmap that tracks `max_memory` bytes over
    /// `bitmap_storage`, which holds at least `bitmap_storage_size` bytes,
    /// with exactly the pages of `available_ram_map` free; every other page
    /// is reserved for good.
    ///
    /// The ranges must lie in memory, share no page, and hold only pages the
    /// levels can track (`trackable`): where the whole blocks of a level
    /// exactly fill its words, as with 513 pages or 1 GiB and one page, the
    /// partial block at the end of memory has no bit in that level, and its
    /// pages cannot be made available.
    pub fn new(max_memory: usize, bitmap_storage: Vec<u64>, available_ram_map: &[PageRange]) -> (r: Self)
        requires
            valid_max_memory(max_memory as int),
            bitmap_storage@.len() * 8 >= bitmap_bytes(max_memory as int),
            valid_ranges(max_memory as int, available_ram_map@),
        ensures
            r.wf(),
            r.spec_max_memory() == max_memory,
            r.free_pages() == ranges_pages(available_ram_map@),
            r.free_pages().len() == ranges_page_count(
                available_ram_map@,
                available_ram_map@.len() as int,
            ),
            r.spec_ranges() == available_ram_map@,
    {
        PageBitmap::build(
            page_bitmap_size(max_memory),
            bitmap_storage,
            max_memory,
            available_ram_map,
        )
    }

    /// Bytes of storage the bitmap needs to track `max_memory` bytes.
    pub fn bitmap_storage_size(max_memory: usize) -> (r: usize)
        requires
            valid_max_memory(max_memory as int),
        ensures
            r == bitmap_bytes(max_memory as int),
    {
        page_bitmap_size(max_memory)
    }
}

} // verus!

verus! {

proof fn lemma_level_index_monotone(p: int, q: int, k: int)
    requires
        0 <= p <= q,
        0 <= k,
    ensures
        0 <= level_index(p, k) <= level_index(q, k),
    decreases k,
{
    if k > 0 {
        lemma_level_index_monotone(p, q, k - 1);
        vstd::arithmetic::div_mod::lemma_div_is_ordered(
            level_index(p, k - 1),
            level_index(q, k - 1),
            8,
        );
    }
}

/// The pages below a trackable page are trackable.
proof fn lemma_trackable_prefix(m: int, p: int, q: int)
    requires
        trackable(m, q),
        0 <= p <= q,
    ensures
        trackable(m, p),
{
    assert forall|k: int| 0 <= k < PAGE_BITMAP_LEVEL_NUMBER implies #[trigger] level_index(p, k)
        < 64 * level_words(m, k) by {
        lemma_level_index_monotone(p, q, k);
    }
}

/// Whether page `pfn` lies in one of `ranges`.
fn ranges_contain(ranges: &[PageRange], pfn: usize) -> (r: bool)
    ensures
        r == ranges_pages(ranges@).contains(pfn as int),
{
    let mut i: usize = 0;
    while i < ranges.len()
        invariant
            i <= ranges@.len(),
            forall|j: int| 0 <= j < i ==> !#[trigger] ranges@[j].contains(pfn as int),
        decreases ranges@.len() - i,
    {
        let range = ranges[i];
        if range.start_pfn.0 <= pfn && pfn - range.start_pfn.0 < range.page_count {
            proof {
                assert(ranges@[i as int].contains(pfn as int));
            }
            return true;
        }
        i += 1;
    }
    false
}

/// A copy of the ranges.
fn copy_ranges(ranges: &[PageRange]) -> (r: Vec<PageRange>)
    ensures
        r@ == ranges@,
{
    let mut r: Vec<PageRange> = Vec::new();
    let mut i: usize = 0;
    while i < ranges.len()
        invariant
            i <= ranges@.len(),
            r@ == ranges@.subrange(0, i as int),
        decreases ranges@.len() - i,
    {
        r.push(ranges[i]);
        assert(r@ =~= ranges@.subrange(0, i + 1));
        i += 1;
    }
    assert(r@ =~= ranges@);
    r
}

/// Free pages left from `free` once the first `k` pages of `taken` have
/// been handed out.
pub open spec fn remaining(free: Set<int>, taken: Seq<int>, k: int) -> Set<int> {
    Set::new(|p: int| free.contains(p) && forall|i: int| 0 <= i < k ==> taken[i] != p)
}

/// `taken` is what successive allocations hand out starting from the free
/// pages `free`: each one a page that is free at that point, which the
/// allocation then removes (as `allocate_page` ensures).
pub open spec fn is_allocation_run(free: Set<int>, taken: Seq<int>) -> bool {
    forall|k: int| 0 <= k < taken.len() ==> #[trigger] remaining(free, taken, k).contains(taken[k])
}

/// The pages of disjoint ranges number the sum of their page counts.
pub proof fn lemma_ranges_pages_len(ranges: Seq<PageRange>, n: int)
    requires
        disjoint_ranges(ranges),
        0 <= n <= ranges.len(),
    ensures
        ranges_pages_upto(ranges, n).finite(),
        ranges_pages_upto(ranges, n).len() == ranges_page_count(ranges, n),
    decreases n,
{
    if n == 0 {
        assert(ranges_pages_upto(ranges, 0) =~= Set::<int>::empty());
    } else {
        lemma_ranges_pages_len(ranges, n - 1);
        let before = ranges_pages_upto(ranges, n - 1);
        let r = ranges[n - 1];
        let pages = vstd::set_lib::set_int_range(r.start(), r.end());
        vstd::set_lib::lemma_int_range(r.start(), r.end());
        assert(before.disjoint(pages)) by {
            assert forall|p: int| before.contains(p) implies !pages.contains(p) by {
                let j = choose|j: int| 0 <= j < n - 1 && #[trigger] ranges[j].contains(p);
                assert(!ranges[n - 1].contains(p));
            }
        }
        vstd::set_lib::lemma_set_disjoint_lens(before, pages);
        assert forall|p: int| #[trigger] ranges_pages_upto(ranges, n).contains(p) == before.union(
            pages,
        ).contains(p) by {
            if ranges_pages_upto(ranges, n).contains(p) && !pages.contains(p) {
                let j = choose|j: int| 0 <= j < n && #[trigger] ranges[j].contains(p);
                assert(j != n - 1);
            }
            if pages.contains(p) {
                assert(ranges[n - 1].contains(p));
            }
        }
        assert(ranges_pages_upto(ranges, n) =~= before.union(pages));
    }
}

proof fn lemma_run_prefix(free: Set<int>, taken: Seq<int>, k: int)
    requires
        free.finite(),
        is_allocation_run(free, taken),
        0 <= k <= taken.len(),
    ensures
        remaining(free, taken, k).finite(),
        remaining(free, taken, k).len() == free.len() - k,
    decreases k,
{
    if k == 0 {
        assert(remaining(free, taken, 0) =~= free);
    } else {
        lemma_run_prefix(free, taken, k - 1);
        let before = remaining(free, taken, k - 1);
        assert(before.contains(taken[k - 1]));
        assert(remaining(free, taken, k) =~= before.remove(taken[k - 1]));
    }
}

/// Round trip: a bitmap built over disjoint ranges of `K` pages in all has
/// exactly those `K` pages free. Allocations in a row from it hand out
/// distinct pages, all in the ranges; while fewer than `K` have been handed
/// out a page is still free, so the next allocation succeeds, and after `K`
/// none is, so the next one fails with `OutOfMemory`.
pub proof fn law_round_trip_allocation(ranges: Seq<PageRange>, taken: Seq<int>)
    requires
        disjoint_ranges(ranges),
        is_allocation_run(ranges_pages(ranges), taken),
        taken.len() <= ranges_page_count(ranges, ranges.len() as int),
    ensures
        ranges_pages(ranges).finite(),
        ranges_pages(ranges).len() == ranges_page_count(ranges, ranges.len() as int),
        taken.no_duplicates(),
        forall|k: int| 0 <= k < taken.len() ==> ranges_pages(ranges).contains(#[trigger] taken[k]),
        taken.len() < ranges_page_count(ranges, ranges.len() as int) ==> remaining(
            ranges_pages(ranges),
            taken,
            taken.len() as int,
        ).len() > 0,
        taken.len() == ranges_page_count(ranges, ranges.len() as int) ==> remaining(
            ranges_pages(ranges),
            taken,
            taken.len() as int,
        ) == Set::<int>::empty(),
{
    let free = ranges_pages(ranges);
    lemma_ranges_pages_len(ranges, ranges.len() as int);
    assert(ranges_pages_upto(ranges, ranges.len() as int) =~= free);
    lemma_run_prefix(free, taken, taken.len() as int);
    assert forall|i: int, j: int| 0 <= i < taken.len() && 0 <= j < taken.len() && i != j implies taken[i]
        != taken[j] by {
        if i < j {
            assert(remaining(free, taken, j).contains(taken[j]));
        } else {
            assert(remaining(free, taken, i).contains(taken[i]));
        }
    }
    assert forall|k: int| 0 <= k < taken.len() implies free.contains(#[trigger] taken[k]) by {
        assert(remaining(free, taken, k).contains(taken[k]));
    }
    if taken.len() == free.len() {
        let rest = remaining(free, taken, taken.len() as int);
        vstd::set_lib::lemma_set_empty_equivalency_len(rest);
    }
}

/// Reservation exclusion: a page in none of the ranges a bitmap was built
/// from is busy from the start, and allocations in a row never hand it out.
pub proof fn law_reserved_never_allocated(
    ranges: Seq<PageRange>,
    taken: Seq<int>,
    reserved: int,
)
    requires
        disjoint_ranges(ranges),
        !ranges_pages(ranges).contains(reserved),
        is_allocation_run(ranges_pages(ranges), taken),
    ensures
        forall|k: int| 0 <= k < taken.len() ==> #[trigger] taken[k] != reserved,
{
    assert forall|k: int| 0 <= k < taken.len() implies #[trigger] taken[k] != reserved by {
        assert(remaining(ranges_pages(ranges), taken, k).contains(taken[k]));
    }
}

impl PageBitmap {
    /// Freeing undoes allocating: once a page allocated from `before` is
    /// freed again, it is free, the free pages (and so `available_pages`)
    /// are those of `before`, and freeing it once more is refused with
    /// `PageIsNotAllocated`.
    pub proof fn law_free_undoes_allocate(
        before: PageBitmap,
        allocated: PageBitmap,
        freed: PageBitmap,
        pfn: int,
    )
        requires
            before.wf(),
            allocated.wf(),
            freed.wf(),
            before.free_pages().contains(pfn),
            allocated.free_pages() == before.free_pages().remove(pfn),
            freed.free_pages() == allocated.free_pages().insert(pfn),
        ensures
            !allocated.free_pages().contains(pfn),
            freed.free_pages().contains(pfn),
            freed.free_pages() == before.free_pages(),
            freed.free_pages().len() == before.free_pages().len(),
    {
        assert(freed.free_pages() =~= before.free_pages());
    }
}

} // verus!

verus! {

/// Words in the fixed layout of a bitmap's header.
pub const PAGE_BITMAP_HEADER_WORDS: usize = 28;

/// The fields of a bitmap's header, the part that the boot loader hands
/// over to the kernel: the bitmap's words lie elsewhere, at
/// `bitmap_address`.
#[derive(Debug, Copy, Clone, PartialEq, Eq)]
pub struct PageBitmapHeader {
    pub max_memory: u64,
    pub available_pages: u64,
    pub levels_number: u64,
    /// Bytes of the word array.
    pub bitmap_size: u64,
    /// Physical address of the word array.
    pub bitmap_address: u64,
    pub level_start: [u64; 8],
    pub level_size: [u64; 8],
}

/// The header as it lies in memory: each field after its own signature,
/// in a fixed order.
pub open spec fn header_words(h: PageBitmapHeader) -> Seq<u64> {
    seq![
        PAGE_BITMAP_SIGNATURE0,
        h.max_memory,
        PAGE_BITMAP_SIGNATURE1,
        h.available_pages,
        PAGE_BITMAP_SIGNATURE2,
        h.levels_number,
        PAGE_BITMAP_SIGNATURE3,
        h.bitmap_size,
        PAGE_BITMAP_SIGNATURE4,
        h.bitmap_address,
        PAGE_BITMAP_SIGNATURE5,
    ] + h.level_start@ + seq![PAGE_BITMAP_SIGNATURE6] + h.level_size@
}

/// `w` starts with a header: every signature in place, the number of
/// levels this bitmap has, a memory size it can track, the storage size
/// that memory size needs, and level 0 first.
pub open spec fn header_valid(w: Seq<u64>) -> bool {
    &&& w.len() >= PAGE_BITMAP_HEADER_WORDS
    &&& w[0] == PAGE_BITMAP_SIGNATURE0
    &&& w[2] == PAGE_BITMAP_SIGNATURE1
    &&& w[4] == PAGE_BITMAP_SIGNATURE2
    &&& w[6] == PAGE_BITMAP_SIGNATURE3
    &&& w[8] == PAGE_BITMAP_SIGNATURE4
    &&& w[10] == PAGE_BITMAP_SIGNATURE5
    &&& w[19] == PAGE_BITMAP_SIGNATURE6
    &&& w[5] == PAGE_BITMAP_LEVEL_NUMBER
    &&& w[1] <= usize::MAX
    &&& valid_max_memory(w[1] as int)
    &&& w[7] == bitmap_bytes(w[1] as int)
    &&& w[11] == 0
}

/// The header fields place the levels where the geometry of its memory
/// size puts them.
pub open spec fn header_layout_ok(h: PageBitmapHeader) -> bool {
    &&& h.levels_number == PAGE_BITMAP_LEVEL_NUMBER
    &&& h.max_memory <= usize::MAX
    &&& valid_max_memory(h.max_memory as int)
    &&& h.bitmap_size == bitmap_bytes(h.max_memory as int)
    &&& forall|k: int|
        0 <= k < PAGE_BITMAP_LEVEL_NUMBER ==> #[trigger] h.level_start[k] == levels_bytes(
            h.max_memory as int,
            k,
        ) / 8 && h.level_size[k] == level_words(h.max_memory as int, k)
}

impl PageBitmapHeader {
    /// The header laid out in memory.
    pub fn to_words(&self) -> (r: Vec<u64>)
        ensures
            r@ == header_words(*self),
    {
        let mut r: Vec<u64> = Vec::new();
        r.push(PAGE_BITMAP_SIGNATURE0);
        r.push(self.max_memory);
        r.push(PAGE_BITMAP_SIGNATURE1);
        r.push(self.available_pages);
        r.push(PAGE_BITMAP_SIGNATURE2);
        r.push(self.levels_number);
        r.push(PAGE_BITMAP_SIGNATURE3);
        r.push(self.bitmap_size);
        r.push(PAGE_BITMAP_SIGNATURE4);
        r.push(self.bitmap_address);
        r.push(PAGE_BITMAP_SIGNATURE5);
        let ghost head = r@;
        let mut k: usize = 0;
        while k < PAGE_BITMAP_LEVEL_NUMBER
            invariant
                k <= PAGE_BITMAP_LEVEL_NUMBER,
                r@ == head + self.level_start@.take(k as int),
            decreases PAGE_BITMAP_LEVEL_NUMBER - k,
        {
            r.push(self.level_start[k]);
            assert(r@ =~= head + self.level_start@.take(k + 1));
            k += 1;
        }
        r.push(PAGE_BITMAP_SIGNATURE6);
        let ghost middle = r@;
        let mut k: usize = 0;
        while k < PAGE_BITMAP_LEVEL_NUMBER
            invariant
                k <= PAGE_BITMAP_LEVEL_NUMBER,
                r@ == middle + self.level_size@.take(k as int),
            decreases PAGE_BITMAP_LEVEL_NUMBER - k,
        {
            r.push(self.level_size[k]);
            assert(r@ =~= middle + self.level_size@.take(k + 1));
            k += 1;
        }
        assert(self.level_start@.take(8) =~= self.level_start@);
        assert(self.level_size@.take(8) =~= self.level_size@);
        assert(r@ =~= header_words(*self));
        r
    }

    /// Reads a header from the words where one should lie, and moves its
    /// word array by `relocation`. Nothing is returned unless every
    /// signature and the redundant fields check out.
    pub fn from_words(words: &[u64], relocation: &PageBitmapRelocation) -> (r: Option<
        PageBitmapHeader,
    >)
        ensures
            r is Some <==> header_valid(words@) && words@[9] + relocation.spec_amount() <= u64::MAX,
            r is Some ==> {
                let h = r->Some_0;
                &&& h.max_memory == words@[1]
                &&& h.available_pages == words@[3]
                &&& h.levels_number == words@[5]
                &&& h.bitmap_size == words@[7]
                &&& h.bitmap_address == words@[9] + relocation.spec_amount()
                &&& h.level_start@ == words@.subrange(11, 19)
                &&& h.level_size@ == words@.subrange(20, 28)
            },
    {
        if words.len() < PAGE_BITMAP_HEADER_WORDS {
            return None;
        }
        let max_memory = words[1];
        if !(words[0] == PAGE_BITMAP_SIGNATURE0 && words[2] == PAGE_BITMAP_SIGNATURE1 && words[4]
            == PAGE_BITMAP_SIGNATURE2 && words[6] == PAGE_BITMAP_SIGNATURE3 && words[8]
            == PAGE_BITMAP_SIGNATURE4 && words[10] == PAGE_BITMAP_SIGNATURE5 && words[19]
            == PAGE_BITMAP_SIGNATURE6 && words[5] == PAGE_BITMAP_LEVEL_NUMBER as u64 && words[11]
            == 0) {
            return None;
        }
        if !(max_memory <= usize::MAX as u64 && max_memory > 0 && max_memory % 4096 == 0
            && max_memory / 4096 <= MAX_MEMORY_SUPPORTED_PAGES as u64) {
            return None;
        }
        if words[7] != page_bitmap_size(max_memory as usize) as u64 {
            return None;
        }
        let amount = relocation.amount() as u64;
        if words[9] > u64::MAX - amount {
            return None;
        }
        let mut level_start: [u64; 8] = [0; 8];
        let mut level_size: [u64; 8] = [0; 8];
        let mut k: usize = 0;
        while k < PAGE_BITMAP_LEVEL_NUMBER
            invariant
                k <= PAGE_BITMAP_LEVEL_NUMBER,
                words@.len() >= PAGE_BITMAP_HEADER_WORDS,
                forall|j: int| 0 <= j < k ==> #[trigger] level_start[j] == words@[11 + j],
                forall|j: int| 0 <= j < k ==> #[trigger] level_size[j] == words@[20 + j],
            decreases PAGE_BITMAP_LEVEL_NUMBER - k,
        {
            level_start[k] = words[11 + k];
            level_size[k] = words[20 + k];
            k += 1;
        }
        assert(level_start@ =~= words@.subrange(11, 19));
        assert(level_size@ =~= words@.subrange(20, 28));
        Some(
            PageBitmapHeader {
                max_memory,
                available_pages: words[3],
                levels_number: words[5],
                bitmap_size: words[7],
                bitmap_address: words[9] + amount,
                level_start,
                level_size,
            },
        )
    }
}

/// Round trip of the header layout: the words of a header that places the
/// levels where its memory size puts them read back as a valid header with
/// the same fields, the word array's address moved by the relocation.
pub proof fn law_header_round_trip(h: PageBitmapHeader, amount: usize)
    requires
        header_layout_ok(h),
        h.bitmap_address + amount <= u64::MAX,
    ensures
        header_valid(header_words(h)),
        header_words(h)[1] == h.max_memory,
        header_words(h)[3] == h.available_pages,
        header_words(h)[5] == h.levels_number,
        header_words(h)[7] == h.bitmap_size,
        header_words(h)[9] + amount == h.bitmap_address + amount,
        header_words(h).subrange(11, 19) == h.level_start@,
        header_words(h).subrange(20, 28) == h.level_size@,
{
    let w = header_words(h);
    assert(h.level_start[0] == levels_bytes(h.max_memory as int, 0) / 8);
    assert(w[11] == h.level_start[0]);
    assert(w.subrange(11, 19) =~= h.level_start@);
    assert(w.subrange(20, 28) =~= h.level_size@);
}

impl PageBitmap {
    /// The words of all levels, level 0 first.
    pub closed spec fn spec_storage(&self) -> Seq<u64> {
        self.bitmap@
    }

    /// Gives back the word array, to hand it over with the header.
    pub fn into_storage(self) -> (r: Vec<u64>)
        ensures
            r@ == self.spec_storage(),
    {
        self.bitmap
    }

    /// The header to hand over for this bitmap, whose word array lies at
    /// `bitmap_address`.
    pub fn header(&self, bitmap_address: u64) -> (r: PageBitmapHeader)
        requires
            self.wf(),
        ensures
            header_layout_ok(r),
            r.max_memory == self.spec_max_memory(),
            r.available_pages == self.free_pages().len(),
            r.bitmap_address == bitmap_address,
    {
        let mut level_start: [u64; 8] = [0; 8];
        let mut level_size: [u64; 8] = [0; 8];
        let mut k: usize = 0;
        while k < PAGE_BITMAP_LEVEL_NUMBER
            invariant
                self.wf(),
                k <= PAGE_BITMAP_LEVEL_NUMBER,
                forall|j: int| 0 <= j < k ==> #[trigger] level_start[j] == self.level_start[j],
                forall|j: int| 0 <= j < k ==> #[trigger] level_size[j] == self.level_size[j],
            decreases PAGE_BITMAP_LEVEL_NUMBER - k,
        {
            level_start[k] = self.level_start[k] as u64;
            level_size[k] = self.level_size[k] as u64;
            k += 1;
        }
        let r = PageBitmapHeader {
            max_memory: self.max_memory as u64,
            available_pages: self.available_pages as u64,
            levels_number: self.levels_number as u64,
            bitmap_size: self.bitmap_size as u64,
            bitmap_address,
            level_start,
            level_size,
        };
        proof {
            assert forall|k: int| 0 <= k < PAGE_BITMAP_LEVEL_NUMBER implies #[trigger] r.level_start[k]
                == levels_bytes(r.max_memory as int, k) / 8 && r.level_size[k] == level_words(
                r.max_memory as int,
                k,
            ) by {
                assert(self.level_size[k] == level_words(self.max_memory as int, k));
            }
        }
        r
    }

    /// Takes over a bitmap from its header, its word array and the ranges
    /// of RAM it was built with. It is returned exactly when the header
    /// places the levels where its memory size puts them, the array is large
    /// enough, the levels agree with each other, the ranges could seed the
    /// bitmap and hold every free page, and the free pages number
    /// `available_pages`; so the parts of any consistent bitmap come back as
    /// that bitmap.
    pub fn from_header(
        header: PageBitmapHeader,
        bitmap_storage: Vec<u64>,
        available_ram_map: &[PageRange],
    ) -> (r: Option<PageBitmap>)
        ensures
            !header_layout_ok(header) ==> r is None,
            header_layout_ok(header) && bitmap_storage@.len() * 8 < header.bitmap_size ==> r is None,
            forall|b: PageBitmap| #[trigger]
                is_handoff_of(b, header, bitmap_storage@, available_ram_map@) ==> r is Some
                    && r->Some_0.free_pages() == b.free_pages(),
            r is Some ==> {
                let b = r->Some_0;
                &&& is_handoff_of(b, header, bitmap_storage@, available_ram_map@)
                &&& b.free_pages() == Set::new(
                    |i: int|
                        0 <= i < 64 * level_words(header.max_memory as int, 0) && !bit_set(
                            bitmap_storage@[i / 64],
                            i % 64,
                        ),
                )
            },
    {
        let ghost sv = bitmap_storage@;
        let ghost rv = available_ram_map@;
        if header.levels_number != PAGE_BITMAP_LEVEL_NUMBER as u64 {
            return None;
        }
        let m = header.max_memory;
        if !(m <= usize::MAX as u64 && m > 0 && m % 4096 == 0 && m / 4096
            <= MAX_MEMORY_SUPPORTED_PAGES as u64) {
            return None;
        }
        let max_memory = m as usize;
        let bitmap_size = page_bitmap_size(max_memory);
        if header.bitmap_size != bitmap_size as u64 {
            return None;
        }
        let ghost mm = max_memory as int;
        let mut level_start: [usize; 8] = [0; 8];
        let mut level_size = page_bitmap_level_size(max_memory);
        let mut current_level_start: usize = 0;
        let mut level: usize = 0;
        while level < PAGE_BITMAP_LEVEL_NUMBER
            invariant
                valid_max_memory(mm),
                mm == header.max_memory,
                level <= PAGE_BITMAP_LEVEL_NUMBER,
                current_level_start == levels_bytes(mm, level as int),
                forall|j: int| 0 <= j < level ==> #[trigger] level_start[j] == levels_bytes(mm, j) / 8,
                forall|j: int| 0 <= j < level ==> #[trigger] level_size[j] == level_words(mm, j),
                forall|j: int|
                    level <= j < PAGE_BITMAP_LEVEL_NUMBER ==> #[trigger] level_size[j]
                        == level_bytes(mm, j),
            decreases PAGE_BITMAP_LEVEL_NUMBER - level,
        {
            proof {
                lemma_levels_bytes_bounds(mm, level as int + 1);
            }
            let size = level_size[level];
            level_start[level] = current_level_start / 8;
            level_size[level] = size / 8;
            current_level_start += size;
            level += 1;
        }
        let mut k: usize = 0;
        while k < PAGE_BITMAP_LEVEL_NUMBER
            invariant
                k <= PAGE_BITMAP_LEVEL_NUMBER,
                valid_max_memory(mm),
                mm == header.max_memory,
                current_level_start == levels_bytes(mm, 8),
                forall|j: int|
                    0 <= j < PAGE_BITMAP_LEVEL_NUMBER ==> #[trigger] level_start[j] == levels_bytes(
                        mm,
                        j,
                    ) / 8,
                forall|j: int|
                    0 <= j < PAGE_BITMAP_LEVEL_NUMBER ==> #[trigger] level_size[j] == level_words(
                        mm,
                        j,
                    ),
                forall|j: int|
                    0 <= j < k ==> #[trigger] header.level_start[j] == level_start[j],
                forall|j: int|
                    0 <= j < k ==> #[trigger] header.level_size[j] == level_size[j],
            decreases PAGE_BITMAP_LEVEL_NUMBER - k,
        {
            if header.level_start[k] != level_start[k] as u64 || header.level_size[k]
                != level_size[k] as u64 {
                proof {
                    assert(!header_layout_ok(header));
                }
                return None;
            }
            k += 1;
        }
        proof {
            lemma_levels_bytes_bounds(mm, 7);
            lemma_level_bytes_bounds(mm, 7);
            lemma_levels_bytes_bounds(mm, 8);
            assert(levels_bytes(mm, 8) == levels_bytes(mm, 7) + level_bytes(mm, 7));
        }
        if bitmap_storage.len() < bitmap_size / 8 {
            proof {
                assert forall|b: PageBitmap| !#[trigger] is_handoff_of(b, header, sv, rv) by {
                    if is_handoff_of(b, header, sv, rv) {
                        assert(b.level_start[7] + b.level_size[7] <= b.bitmap@.len());
                    }
                }
            }
            return None;
        }
        if header.available_pages > usize::MAX as u64 {
            return None;
        }
        let bitmap = Self {
            signature0: PAGE_BITMAP_SIGNATURE0,
            signature1: PAGE_BITMAP_SIGNATURE1,
            signature2: PAGE_BITMAP_SIGNATURE2,
            signature3: PAGE_BITMAP_SIGNATURE3,
            signature4: PAGE_BITMAP_SIGNATURE4,
            signature5: PAGE_BITMAP_SIGNATURE5,
            signature6: PAGE_BITMAP_SIGNATURE6,
            levels_number: PAGE_BITMAP_LEVEL_NUMBER,
            max_memory,
            bitmap: bitmap_storage,
            bitmap_size,
            level_start,
            level_size,
            available_pages: header.available_pages as usize,
            ranges: copy_ranges(available_ram_map),
        };
        proof {
            assert forall|k: int| 0 <= k < PAGE_BITMAP_LEVEL_NUMBER - 1 implies #[trigger] level_start[k
                + 1] == level_start[k] + level_size[k] by {
                lemma_levels_bytes_bounds(mm, k);
                lemma_level_bytes_bounds(mm, k);
                assert(levels_bytes(mm, k + 1) == levels_bytes(mm, k) + level_bytes(mm, k));
            }
            assert forall|k: int| 0 <= k < PAGE_BITMAP_LEVEL_NUMBER implies #[trigger] level_size[k]
                >= 1 by {
                lemma_level_bytes_bounds(mm, k);
            }
            assert(levels_bytes(mm, 0) == 0);
            assert(bitmap.wf_layout());
        }
        let levels_ok = bitmap.check_levels();
        if !levels_ok {
            proof {
                assert forall|b: PageBitmap| !#[trigger] is_handoff_of(b, header, sv, rv) by {
                    if is_handoff_of(b, header, sv, rv) {
                        Self::lemma_same_parts(b, bitmap);
                    }
                }
            }
            return None;
        }
        if bitmap.count_free_pages() != bitmap.available_pages {
            proof {
                assert forall|b: PageBitmap| !#[trigger] is_handoff_of(b, header, sv, rv) by {
                    if is_handoff_of(b, header, sv, rv) {
                        Self::lemma_same_parts(b, bitmap);
                    }
                }
            }
            return None;
        }
        if !bitmap.ranges_valid(available_ram_map) || !bitmap.free_in_ranges(available_ram_map) {
            proof {
                assert forall|b: PageBitmap| !#[trigger] is_handoff_of(b, header, sv, rv) by {
                    if is_handoff_of(b, header, sv, rv) {
                        Self::lemma_same_parts(b, bitmap);
                    }
                }
            }
            return None;
        }
        proof {
            assert(bitmap.free_pages() =~= Set::new(
                |i: int|
                    0 <= i < 64 * level_words(header.max_memory as int, 0) && !bit_set(
                        sv[i / 64],
                        i % 64,
                    ),
            ));
            assert(bitmap.wf());
            assert forall|b: PageBitmap| #[trigger] is_handoff_of(b, header, sv, rv) implies bitmap.free_pages()
                == b.free_pages() by {
                Self::lemma_same_parts(b, bitmap);
            }
        }
        Some(bitmap)
    }

    /// Two bitmaps of the same memory size over the same words, laid out
    /// as the geometry puts them, have the same levels.
    proof fn lemma_same_parts(a: Self, b: Self)
        requires
            a.wf_layout(),
            b.wf_layout(),
            a.bitmap@ == b.bitmap@,
            a.max_memory == b.max_memory,
        ensures
            a.wf_bits() == b.wf_bits(),
            a.free_pages() == b.free_pages(),
    {
        let m = a.max_memory as int;
        assert forall|k: int| 0 <= k < PAGE_BITMAP_LEVEL_NUMBER implies a.level_start[k]
            == b.level_start[k] && a.level_size[k] == b.level_size[k] by {
            assert(a.level_size[k] == level_words(m, k));
            assert(b.level_size[k] == level_words(m, k));
        }
        assert(a.level_start =~= b.level_start);
        assert(a.level_size =~= b.level_size);
        Self::lemma_same_bits(a, b);
    }
}

/// `b` is the bitmap whose header is `header`, whose words are `storage`
/// and which was built with `ranges`.
pub open spec fn is_handoff_of(
    b: PageBitmap,
    header: PageBitmapHeader,
    storage: Seq<u64>,
    ranges: Seq<PageRange>,
) -> bool {
    &&& b.wf()
    &&& header_layout_ok(header)
    &&& header.max_memory == b.spec_max_memory()
    &&& header.available_pages == b.free_pages().len()
    &&& storage == b.spec_storage()
    &&& ranges == b.spec_ranges()
}

} // verus!
