//! Walking the translation tables that `TTBR0_EL1` points to, depth first,
//! assuming a 4 KiB granule. The walk decides which table to read next and
//! which entries to report; reading the tables from memory is up to the
//! caller.

use vstd::prelude::*;

use crate::aarch64_regs::{PageTableEntry, TranslationBase0El1};
use crate::bits::field_of;

verus! {

/// A descriptor that points to a table of the next level: both low bits
/// set.
pub open spec fn is_table(entry: u64) -> bool {
    entry & 3u64 == 3u64
}

/// A descriptor the hardware uses: the low bit set.
pub open spec fn is_valid(entry: u64) -> bool {
    entry & 1u64 == 1u64
}

/// Physical address of the table a table descriptor points to.
pub open spec fn table_address(entry: u64) -> u64 {
    (field_of(entry, 12, 35) << 12u64) as u64
}

/// An entry of a table of `level` that the walk reports as a block or page
/// descriptor: every entry of a level-3 table, and the valid entries that
/// are not tables above it.
pub open spec fn is_reported(level: int, entry: u64) -> bool {
    level >= 3 || (is_valid(entry) && !is_table(entry))
}

/// An entry of a table of `level` that the walk goes down into.
pub open spec fn is_walked(level: int, entry: u64) -> bool {
    level < 3 && is_table(entry)
}

/// The entries the walk reports from the last `k` entries of a table of
/// `level`, taken last to first.
pub open spec fn reported(level: int, entries: Seq<u64>, k: int) -> Seq<u64>
    decreases k,
{
    if k <= 0 {
        Seq::empty()
    } else {
        let e = entries[entries.len() - k];
        reported(level, entries, k - 1) + if is_reported(level, e) {
            seq![e]
        } else {
            Seq::empty()
        }
    }
}

/// The tables, with their level, the walk adds from the last `k` entries of
/// a table of `level`, taken last to first.
pub open spec fn walked(level: int, entries: Seq<u64>, k: int) -> Seq<(u64, u64)>
    decreases k,
{
    if k <= 0 {
        Seq::empty()
    } else {
        let e = entries[entries.len() - k];
        walked(level, entries, k - 1) + if is_walked(level, e) {
            seq![((level + 1) as u64, e)]
        } else {
            Seq::empty()
        }
    }
}

proof fn lemma_table_descriptor(x: u64)
    by (bit_vector)
    ensures
        (x | 3u64) & 3u64 == 3u64,
        x & 3u64 == 3u64 ==> x & 1u64 == 1u64,
{
}

/// The tables still to read, the last one next.
pub struct PageTableWalk {
    stack: Vec<(u64, u64)>,
}

impl PageTableWalk {
    /// Tables still to read, with their level, the last one next.
    pub closed spec fn pending(&self) -> Seq<(u64, u64)> {
        self.stack@
    }

    /// Every pending entry is a table descriptor of a level up to 3.
    pub closed spec fn wf(&self) -> bool {
        forall|i: int|
            0 <= i < self.stack@.len() ==> is_table(#[trigger] self.stack@[i].1)
                && self.stack@[i].0 <= 3
    }

    /// A walk from the level 0 table that `ttbr0` points to.
    pub fn new(ttbr0: &TranslationBase0El1) -> (r: Self)
        ensures
            r.wf(),
            r.pending() == seq![(0u64, field_of(ttbr0.0, 0, 48) | 3u64)],
    {
        let baddr = ttbr0.baddr();
        let entry = baddr | 0b11;
        proof {
            lemma_table_descriptor(baddr);
        }
        let mut stack = Vec::new();
        stack.push((0u64, entry));
        Self { stack }
    }

    /// The next table to read: its level and physical address, or `None`
    /// when the walk is over.
    pub fn next_table(&mut self) -> (r: Option<(u64, u64)>)
        requires
            old(self).wf(),
        ensures
            final(self).wf(),
            old(self).pending().len() == 0 ==> r is None && final(self).pending() == old(
                self,
            ).pending(),
            old(self).pending().len() > 0 ==> {
                let top = old(self).pending().last();
                &&& r == Some((top.0, table_address(top.1)))
                &&& final(self).pending() == old(self).pending().drop_last()
            },
    {
        match self.stack.pop() {
            None => None,
            Some((level, entry)) => {
                let table = PageTableEntry::from_bits(entry);
                let pfn = table.next_table_pfn();
                proof {
                    assert(field_of(entry, 12, 35) < 0x8_0000_0000u64) by (bit_vector);
                }
                Some((level, pfn << 12))
            },
        }
    }

    /// Takes in the entries of the table of `level` just read: returns the
    /// block and page descriptors to report, and adds the tables below to
    /// the walk, both taken from the last entry to the first.
    pub fn visit(&mut self, level: u64, entries: &[u64]) -> (r: Vec<u64>)
        requires
            old(self).wf(),
            level <= 3,
        ensures
            final(self).wf(),
            final(self).pending() == old(self).pending() + walked(
                level as int,
                entries@,
                entries@.len() as int,
            ),
            r@ == reported(level as int, entries@, entries@.len() as int),
    {
        let mut r: Vec<u64> = Vec::new();
        let ghost start = self.stack@;
        let mut i = entries.len();
        while i > 0
            invariant
                i <= entries@.len(),
                level <= 3,
                self.wf(),
                self.stack@ == start + walked(level as int, entries@, entries@.len() - i),
                r@ == reported(level as int, entries@, entries@.len() - i),
            decreases i,
        {
            i -= 1;
            let entry = entries[i];
            proof {
                lemma_table_descriptor(entry);
                assert(entries@.len() - (entries@.len() - i) == i);
            }
            if level >= 3 || (entry & 1 == 1 && entry & 0b11 != 0b11) {
                r.push(entry);
            }
            if level < 3 && entry & 0b11 == 0b11 {
                self.stack.push((level + 1, entry));
            }
            assert(r@ =~= reported(level as int, entries@, entries@.len() - i));
            assert(self.stack@ =~= start + walked(level as int, entries@, entries@.len() - i));
        }
        r
    }
}

} // verus!
