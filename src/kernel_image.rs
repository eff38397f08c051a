//! How much memory the loadable segments of the kernel image need.

use vstd::prelude::*;

use crate::geometry::round_up;

verus! {

/// Segment type of a loadable segment.
pub const PT_LOAD: u32 = 1;

/// What the loader reads from a program header of the kernel image.
#[derive(Debug, Copy, Clone, PartialEq, Eq, Structural)]
pub struct ProgramSegment {
    pub p_type: u32,
    /// Bytes of the segment in memory.
    pub p_memsz: u64,
    /// Bytes of the segment in the image.
    pub p_filesz: u64,
    pub p_paddr: u64,
    pub p_vaddr: u64,
}

/// Bytes the first `n` segments take in memory: each loadable one rounded
/// up to whole 4 KiB pages.
pub open spec fn load_size(segments: Seq<ProgramSegment>, n: int) -> int
    decreases n,
{
    if n <= 0 {
        0
    } else {
        load_size(segments, n - 1) + if segments[n - 1].p_type == PT_LOAD {
            round_up(segments[n - 1].p_memsz as int, 4096)
        } else {
            0
        }
    }
}

proof fn lemma_load_size_grows(segments: Seq<ProgramSegment>, i: int, n: int)
    requires
        0 <= i <= n <= segments.len(),
    ensures
        0 <= load_size(segments, i) <= load_size(segments, n),
    decreases n,
{
    if n > i {
        lemma_load_size_grows(segments, i, n - 1);
        if segments[n - 1].p_type == PT_LOAD {
            let m = segments[n - 1].p_memsz as int;
            assert(round_up(m, 4096) >= 0) by {
                vstd::arithmetic::div_mod::lemma_div_pos_is_pos(m + 4095, 4096);
            }
        }
    } else if i > 0 {
        lemma_load_size_grows(segments, i - 1, i - 1);
        if segments[i - 1].p_type == PT_LOAD {
            let m = segments[i - 1].p_memsz as int;
            assert(round_up(m, 4096) >= 0) by {
                vstd::arithmetic::div_mod::lemma_div_pos_is_pos(m + 4095, 4096);
            }
        }
    }
}

/// Bytes to allocate for the loadable segments, whole pages each; `None`
/// where that does not fit in 64 bits.
pub fn loaded_image_size(segments: &[ProgramSegment]) -> (r: Option<u64>)
    ensures
        r == if load_size(segments@, segments@.len() as int) <= u64::MAX {
            Some(load_size(segments@, segments@.len() as int) as u64)
        } else {
            None::<u64>
        },
{
    let mut loaded_size: u64 = 0;
    let mut i: usize = 0;
    while i < segments.len()
        invariant
            i <= segments@.len(),
            loaded_size == load_size(segments@, i as int),
        decreases segments@.len() - i,
    {
        proof {
            lemma_load_size_grows(segments@, i as int + 1, segments@.len() as int);
            lemma_load_size_grows(segments@, i as int, i as int + 1);
        }
        let ph = segments[i];
        if ph.p_type == PT_LOAD {
            let pages = ph.p_memsz / 4096 + if ph.p_memsz % 4096 == 0 {
                0
            } else {
                1
            };
            proof {
                let m = ph.p_memsz as int;
                vstd::arithmetic::div_mod::lemma_fundamental_div_mod(m, 4096);
                vstd::arithmetic::div_mod::lemma_fundamental_div_mod(m + 4095, 4096);
                assert(pages == (m + 4095) / 4096);
            }
            if pages > (u64::MAX - loaded_size) / 4096 {
                proof {
                    assert(loaded_size + pages * 4096 > u64::MAX) by (nonlinear_arith)
                        requires
                            pages > (u64::MAX - loaded_size) as int / 4096,
                    ;
                }
                return None;
            }
            proof {
                assert(loaded_size + pages * 4096 <= u64::MAX) by (nonlinear_arith)
                    requires
                        pages <= (u64::MAX - loaded_size) as int / 4096,
                        loaded_size <= u64::MAX,
                ;
            }
            loaded_size = loaded_size + pages * 4096;
        }
        i += 1;
    }
    Some(loaded_size)
}

} // verus!
