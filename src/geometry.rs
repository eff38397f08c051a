//! How much storage each level of the page bitmap needs.
//!
//! Level 0 tracks 4 KiB pages, one bit per page; every level above it tracks
//! blocks eight times larger than the level below. Each level is stored as a
//! whole number of 64-bit words.

use vstd::prelude::*;

verus! {

/// Number of levels of the page bitmap.
pub const PAGE_BITMAP_LEVEL_NUMBER: usize = 8;

/// Size of a page, the block tracked by level 0, in bytes.
pub const BLOCK_SIZE: usize = 4096;

/// The most memory the bitmap can track, in pages (64 GiB).
pub const MAX_MEMORY_SUPPORTED_PAGES: usize = 0x100_0000;

/// `max_memory` is a memory size the bitmap can track: non-zero, a whole
/// number of pages and at most 64 GiB.
pub open spec fn valid_max_memory(max_memory: int) -> bool {
    &&& max_memory > 0
    &&& max_memory % BLOCK_SIZE as int == 0
    &&& max_memory / BLOCK_SIZE as int <= MAX_MEMORY_SUPPORTED_PAGES
}

/// Number of whole blocks of level `level` in `max_memory` bytes, that is
/// `max_memory / (4096 * 8^level)`.
pub open spec fn level_bits(max_memory: int, level: int) -> int
    decreases level,
{
    if level <= 0 {
        max_memory / BLOCK_SIZE as int
    } else {
        level_bits(max_memory, level - 1) / 8
    }
}

/// `n` rounded up to a multiple of `align`.
pub open spec fn round_up(n: int, align: int) -> int {
    (n + align - 1) / align * align
}

/// Bytes of storage for level `level`: one bit per whole block, rounded up
/// to whole bytes and then to whole 64-bit words; one word where not even
/// one whole block fits.
pub open spec fn level_bytes(max_memory: int, level: int) -> int {
    let bits = level_bits(max_memory, level);
    if bits == 0 {
        8
    } else {
        round_up(round_up(bits, 8) / 8, 8)
    }
}

/// Bytes of storage for the levels below `n`.
pub open spec fn levels_bytes(max_memory: int, n: int) -> int
    decreases n,
{
    if n <= 0 {
        0
    } else {
        levels_bytes(max_memory, n - 1) + level_bytes(max_memory, n - 1)
    }
}

/// Bytes of storage for the whole bitmap.
pub open spec fn bitmap_bytes(max_memory: int) -> int {
    levels_bytes(max_memory, PAGE_BITMAP_LEVEL_NUMBER as int)
}

pub proof fn lemma_level_bits_bounds(max_memory: int, level: int)
    requires
        valid_max_memory(max_memory),
        0 <= level,
    ensures
        0 <= level_bits(max_memory, level) <= MAX_MEMORY_SUPPORTED_PAGES,
        level > 0 ==> level_bits(max_memory, level) <= level_bits(max_memory, level - 1),
    decreases level,
{
    if level > 0 {
        lemma_level_bits_bounds(max_memory, level - 1);
    }
}

pub proof fn lemma_level_bytes_bounds(max_memory: int, level: int)
    requires
        valid_max_memory(max_memory),
        0 <= level,
    ensures
        8 <= level_bytes(max_memory, level) <= 0x20_0008,
        level_bytes(max_memory, level) % 8 == 0,
        level_bits(max_memory, level) <= 8 * level_bytes(max_memory, level),
{
    lemma_level_bits_bounds(max_memory, level);
    let bits = level_bits(max_memory, level);
    if bits != 0 {
        let b = round_up(bits, 8) / 8;
        assert(round_up(bits, 8) == (bits + 7) / 8 * 8);
        assert(b == (bits + 7) / 8) by {
            vstd::arithmetic::div_mod::lemma_div_multiples_vanish((bits + 7) / 8, 8);
        }
        assert(round_up(b, 8) == (b + 7) / 8 * 8);
        assert((b + 7) / 8 * 8 >= b) by {
            vstd::arithmetic::div_mod::lemma_fundamental_div_mod(b + 7, 8);
        }
        assert(b * 8 >= bits) by {
            vstd::arithmetic::div_mod::lemma_fundamental_div_mod(bits + 7, 8);
        }
        assert((b + 7) / 8 * 8 % 8 == 0) by {
            vstd::arithmetic::div_mod::lemma_mod_multiples_basic((b + 7) / 8, 8);
        }
    }
}

pub proof fn lemma_levels_bytes_bounds(max_memory: int, n: int)
    requires
        valid_max_memory(max_memory),
        0 <= n,
    ensures
        0 <= levels_bytes(max_memory, n) <= n * 0x20_0008,
        levels_bytes(max_memory, n) % 8 == 0,
    decreases n,
{
    if n > 0 {
        lemma_levels_bytes_bounds(max_memory, n - 1);
        lemma_level_bytes_bounds(max_memory, n - 1);
    }
}

/// `n` rounded up to a multiple of `align`.
fn align_to(n: usize, align: usize) -> (r: usize)
    requires
        align > 0,
        n + align - 1 <= usize::MAX,
    ensures
        r == round_up(n as int, align as int),
{
    let t = n + (align - 1);
    proof {
        vstd::arithmetic::div_mod::lemma_fundamental_div_mod(t as int, align as int);
        vstd::arithmetic::div_mod::lemma_mod_pos_bound(t as int, align as int);
        assert((t / align) * align <= t) by (nonlinear_arith)
            requires
                (t / align) * align + t % align == t,
                t % align >= 0,
        ;
    }
    t / align * align
}

/// The size in bytes of each level of the page bitmap for `max_memory`
/// bytes of memory. Each is a whole number of `u64`'s.
pub fn page_bitmap_level_size(max_memory: usize) -> (r: [usize; 8])
    requires
        valid_max_memory(max_memory as int),
    ensures
        forall|level: int|
            0 <= level < PAGE_BITMAP_LEVEL_NUMBER ==> #[trigger] r[level] == level_bytes(
                max_memory as int,
                level,
            ),
{
    let mut bitmap_size_bytes: [usize; 8] = [0; 8];
    let mut level_bits: usize = max_memory / BLOCK_SIZE;
    let mut level: usize = 0;
    while level < PAGE_BITMAP_LEVEL_NUMBER
        invariant
            valid_max_memory(max_memory as int),
            level <= PAGE_BITMAP_LEVEL_NUMBER,
            level_bits == self::level_bits(max_memory as int, level as int),
            forall|j: int|
                0 <= j < level ==> #[trigger] bitmap_size_bytes[j] == level_bytes(
                    max_memory as int,
                    j,
                ),
        decreases PAGE_BITMAP_LEVEL_NUMBER - level,
    {
        proof {
            lemma_level_bits_bounds(max_memory as int, level as int);
        }
        if level_bits == 0 {
            bitmap_size_bytes[level] = 8;
        } else {
            let level_bytes = align_to(level_bits, 8) / 8;
            proof {
                lemma_level_bytes_bounds(max_memory as int, level as int);
            }
            bitmap_size_bytes[level] = align_to(level_bytes, 8);
        }
        level_bits = level_bits / 8;
        level += 1;
    }
    bitmap_size_bytes
}

/// The size in bytes of the whole page bitmap for `max_memory` bytes of
/// memory: the sum of the sizes of its levels.
pub fn page_bitmap_size(max_memory: usize) -> (r: usize)
    requires
        valid_max_memory(max_memory as int),
    ensures
        r == bitmap_bytes(max_memory as int),
{
    let level_sizes = page_bitmap_level_size(max_memory);
    let mut bitmap_size_bytes: usize = 0;
    let mut level: usize = 0;
    while level < PAGE_BITMAP_LEVEL_NUMBER
        invariant
            valid_max_memory(max_memory as int),
            level <= PAGE_BITMAP_LEVEL_NUMBER,
            forall|j: int|
                0 <= j < PAGE_BITMAP_LEVEL_NUMBER ==> #[trigger] level_sizes[j] == level_bytes(
                    max_memory as int,
                    j,
                ),
            bitmap_size_bytes == levels_bytes(max_memory as int, level as int),
        decreases PAGE_BITMAP_LEVEL_NUMBER - level,
    {
        proof {
            lemma_levels_bytes_bounds(max_memory as int, level as int + 1);
        }
        bitmap_size_bytes += level_sizes[level];
        level += 1;
    }
    bitmap_size_bytes
}

} // verus!
