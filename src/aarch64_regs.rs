//! AArch64 system registers the boot loader reads and reports on, and the
//! translation table descriptors it walks, as plain 64-bit values with
//! typed fields.

use vstd::prelude::*;

use crate::bits::{byte_of, field_mask, field_of, get_field, set_field, with_field_of};

verus! {

/// Exception level.
#[derive(Debug, Copy, Clone, PartialEq, Eq, Structural)]
pub enum El {
    EL0,
    EL1,
    EL2,
    EL3,
}

impl El {
    /// The encoding of the value in its register field.
    pub open spec fn spec_bits(self) -> u64 {
        match self {
            El::EL0 => 0x0,
            El::EL1 => 0x1,
            El::EL2 => 0x2,
            El::EL3 => 0x3,
        }
    }

    /// `value` encodes one of the values.
    pub open spec fn valid_bits(value: u64) -> bool {
        value == 0x0 || value == 0x1 || value == 0x2 || value == 0x3
    }

    pub fn bits(self) -> (r: u64)
        ensures
            r == self.spec_bits(),
    {
        match self {
            El::EL0 => 0x0,
            El::EL1 => 0x1,
            El::EL2 => 0x2,
            El::EL3 => 0x3,
        }
    }

    /// The value that `value` encodes.
    pub fn from_bits(value: u64) -> (r: Self)
        requires
            Self::valid_bits(value),
        ensures
            r.spec_bits() == value,
    {
        if value == 0x0 {
            El::EL0
        } else if value == 0x1 {
            El::EL1
        } else if value == 0x2 {
            El::EL2
        } else {
            El::EL3
        }
    }
}

/// Exception level and stack pointer a saved program state returns to.
#[derive(Debug, Copy, Clone, PartialEq, Eq, Structural)]
pub enum SavedProgramStateMode {
    EL0t,
    EL1t,
    EL1h,
    EL2t,
    EL2h,
    EL3t,
    EL3h,
}

impl SavedProgramStateMode {
    /// The encoding of the value in its register field.
    pub open spec fn spec_bits(self) -> u64 {
        match self {
            SavedProgramStateMode::EL0t => 0x0,
            SavedProgramStateMode::EL1t => 0x4,
            SavedProgramStateMode::EL1h => 0x5,
            SavedProgramStateMode::EL2t => 0x8,
            SavedProgramStateMode::EL2h => 0x9,
            SavedProgramStateMode::EL3t => 0xc,
            SavedProgramStateMode::EL3h => 0xd,
        }
    }

    /// `value` encodes one of the values.
    pub open spec fn valid_bits(value: u64) -> bool {
        value == 0x0 || value == 0x4 || value == 0x5 || value == 0x8 || value == 0x9 || value == 0xc || value == 0xd
    }

    pub fn bits(self) -> (r: u64)
        ensures
            r == self.spec_bits(),
    {
        match self {
            SavedProgramStateMode::EL0t => 0x0,
            SavedProgramStateMode::EL1t => 0x4,
            SavedProgramStateMode::EL1h => 0x5,
            SavedProgramStateMode::EL2t => 0x8,
            SavedProgramStateMode::EL2h => 0x9,
            SavedProgramStateMode::EL3t => 0xc,
            SavedProgramStateMode::EL3h => 0xd,
        }
    }

    /// The value that `value` encodes.
    pub fn from_bits(value: u64) -> (r: Self)
        requires
            Self::valid_bits(value),
        ensures
            r.spec_bits() == value,
    {
        if value == 0x0 {
            SavedProgramStateMode::EL0t
        } else if value == 0x4 {
            SavedProgramStateMode::EL1t
        } else if value == 0x5 {
            SavedProgramStateMode::EL1h
        } else if value == 0x8 {
            SavedProgramStateMode::EL2t
        } else if value == 0x9 {
            SavedProgramStateMode::EL2h
        } else if value == 0xc {
            SavedProgramStateMode::EL3t
        } else {
            SavedProgramStateMode::EL3h
        }
    }
}

/// Granule size for `TTBR0_EL1`.
#[derive(Debug, Copy, Clone, PartialEq, Eq, Structural)]
#[allow(non_camel_case_types)]
pub enum TranslationGranule0 {
    _4KB,
    _64KB,
    _16KB,
}

impl TranslationGranule0 {
    /// The encoding of the value in its register field.
    pub open spec fn spec_bits(self) -> u64 {
        match self {
            TranslationGranule0::_4KB => 0x0,
            TranslationGranule0::_64KB => 0x1,
            TranslationGranule0::_16KB => 0x2,
        }
    }

    /// `value` encodes one of the values.
    pub open spec fn valid_bits(value: u64) -> bool {
        value == 0x0 || value == 0x1 || value == 0x2
    }

    pub fn bits(self) -> (r: u64)
        ensures
            r == self.spec_bits(),
    {
        match self {
            TranslationGranule0::_4KB => 0x0,
            TranslationGranule0::_64KB => 0x1,
            TranslationGranule0::_16KB => 0x2,
        }
    }

    /// The value that `value` encodes.
    pub fn from_bits(value: u64) -> (r: Self)
        requires
            Self::valid_bits(value),
        ensures
            r.spec_bits() == value,
    {
        if value == 0x0 {
            TranslationGranule0::_4KB
        } else if value == 0x1 {
            TranslationGranule0::_64KB
        } else {
            TranslationGranule0::_16KB
        }
    }
}

/// Granule size for `TTBR1_EL1`.
#[derive(Debug, Copy, Clone, PartialEq, Eq, Structural)]
#[allow(non_camel_case_types)]
pub enum TranslationGranule1 {
    _Invalid,
    _16KB,
    _4KB,
    _64KB,
}

impl TranslationGranule1 {
    /// The encoding of the value in its register field.
    pub open spec fn spec_bits(self) -> u64 {
        match self {
            TranslationGranule1::_Invalid => 0x0,
            TranslationGranule1::_16KB => 0x1,
            TranslationGranule1::_4KB => 0x2,
            TranslationGranule1::_64KB => 0x3,
        }
    }

    /// `value` encodes one of the values.
    pub open spec fn valid_bits(value: u64) -> bool {
        value == 0x0 || value == 0x1 || value == 0x2 || value == 0x3
    }

    pub fn bits(self) -> (r: u64)
        ensures
            r == self.spec_bits(),
    {
        match self {
            TranslationGranule1::_Invalid => 0x0,
            TranslationGranule1::_16KB => 0x1,
            TranslationGranule1::_4KB => 0x2,
            TranslationGranule1::_64KB => 0x3,
        }
    }

    /// The value that `value` encodes.
    pub fn from_bits(value: u64) -> (r: Self)
        requires
            Self::valid_bits(value),
        ensures
            r.spec_bits() == value,
    {
        if value == 0x0 {
            TranslationGranule1::_Invalid
        } else if value == 0x1 {
            TranslationGranule1::_16KB
        } else if value == 0x2 {
            TranslationGranule1::_4KB
        } else {
            TranslationGranule1::_64KB
        }
    }
}

/// Intermediate physical address size.
#[derive(Debug, Copy, Clone, PartialEq, Eq, Structural)]
#[allow(non_camel_case_types)]
pub enum IntermPhysAddrSize {
    _32_bits_4GB,
    _36_bits_64GB,
    _40_bits_1TB,
    _42_bits_4TB,
    _44_bits_16TB,
    _48_bits_256TB,
    _52_bits_4PB,
    _56_bits_64PB,
}

impl IntermPhysAddrSize {
    /// The encoding of the value in its register field.
    pub open spec fn spec_bits(self) -> u64 {
        match self {
            IntermPhysAddrSize::_32_bits_4GB => 0x0,
            IntermPhysAddrSize::_36_bits_64GB => 0x1,
            IntermPhysAddrSize::_40_bits_1TB => 0x2,
            IntermPhysAddrSize::_42_bits_4TB => 0x3,
            IntermPhysAddrSize::_44_bits_16TB => 0x4,
            IntermPhysAddrSize::_48_bits_256TB => 0x5,
            IntermPhysAddrSize::_52_bits_4PB => 0x6,
            IntermPhysAddrSize::_56_bits_64PB => 0x7,
        }
    }

    /// `value` encodes one of the values.
    pub open spec fn valid_bits(value: u64) -> bool {
        value == 0x0 || value == 0x1 || value == 0x2 || value == 0x3 || value == 0x4 || value == 0x5 || value == 0x6 || value == 0x7
    }

    pub fn bits(self) -> (r: u64)
        ensures
            r == self.spec_bits(),
    {
        match self {
            IntermPhysAddrSize::_32_bits_4GB => 0x0,
            IntermPhysAddrSize::_36_bits_64GB => 0x1,
            IntermPhysAddrSize::_40_bits_1TB => 0x2,
            IntermPhysAddrSize::_42_bits_4TB => 0x3,
            IntermPhysAddrSize::_44_bits_16TB => 0x4,
            IntermPhysAddrSize::_48_bits_256TB => 0x5,
            IntermPhysAddrSize::_52_bits_4PB => 0x6,
            IntermPhysAddrSize::_56_bits_64PB => 0x7,
        }
    }

    /// The value that `value` encodes.
    pub fn from_bits(value: u64) -> (r: Self)
        requires
            Self::valid_bits(value),
        ensures
            r.spec_bits() == value,
    {
        if value == 0x0 {
            IntermPhysAddrSize::_32_bits_4GB
        } else if value == 0x1 {
            IntermPhysAddrSize::_36_bits_64GB
        } else if value == 0x2 {
            IntermPhysAddrSize::_40_bits_1TB
        } else if value == 0x3 {
            IntermPhysAddrSize::_42_bits_4TB
        } else if value == 0x4 {
            IntermPhysAddrSize::_44_bits_16TB
        } else if value == 0x5 {
            IntermPhysAddrSize::_48_bits_256TB
        } else if value == 0x6 {
            IntermPhysAddrSize::_52_bits_4PB
        } else {
            IntermPhysAddrSize::_56_bits_64PB
        }
    }
}

/// Physical address range supported.
#[derive(Debug, Copy, Clone, PartialEq, Eq, Structural)]
#[allow(non_camel_case_types)]
pub enum MmfPaRange {
    _32_bits_4GB,
    _36_bits_64GB,
    _40_bits_1TB,
    _42_bits_4TB,
    _44_bits_16TB,
    _48_bits_256TB,
    _52_bits_4PB,
    _56_bits_64PB,
}

impl MmfPaRange {
    /// The encoding of the value in its register field.
    pub open spec fn spec_bits(self) -> u64 {
        match self {
            MmfPaRange::_32_bits_4GB => 0x0,
            MmfPaRange::_36_bits_64GB => 0x1,
            MmfPaRange::_40_bits_1TB => 0x2,
            MmfPaRange::_42_bits_4TB => 0x3,
            MmfPaRange::_44_bits_16TB => 0x4,
            MmfPaRange::_48_bits_256TB => 0x5,
            MmfPaRange::_52_bits_4PB => 0x6,
            MmfPaRange::_56_bits_64PB => 0x7,
        }
    }

    /// `value` encodes one of the values.
    pub open spec fn valid_bits(value: u64) -> bool {
        value == 0x0 || value == 0x1 || value == 0x2 || value == 0x3 || value == 0x4 || value == 0x5 || value == 0x6 || value == 0x7
    }

    pub fn bits(self) -> (r: u64)
        ensures
            r == self.spec_bits(),
    {
        match self {
            MmfPaRange::_32_bits_4GB => 0x0,
            MmfPaRange::_36_bits_64GB => 0x1,
            MmfPaRange::_40_bits_1TB => 0x2,
            MmfPaRange::_42_bits_4TB => 0x3,
            MmfPaRange::_44_bits_16TB => 0x4,
            MmfPaRange::_48_bits_256TB => 0x5,
            MmfPaRange::_52_bits_4PB => 0x6,
            MmfPaRange::_56_bits_64PB => 0x7,
        }
    }

    /// The value that `value` encodes.
    pub fn from_bits(value: u64) -> (r: Self)
        requires
            Self::valid_bits(value),
        ensures
            r.spec_bits() == value,
    {
        if value == 0x0 {
            MmfPaRange::_32_bits_4GB
        } else if value == 0x1 {
            MmfPaRange::_36_bits_64GB
        } else if value == 0x2 {
            MmfPaRange::_40_bits_1TB
        } else if value == 0x3 {
            MmfPaRange::_42_bits_4TB
        } else if value == 0x4 {
            MmfPaRange::_44_bits_16TB
        } else if value == 0x5 {
            MmfPaRange::_48_bits_256TB
        } else if value == 0x6 {
            MmfPaRange::_52_bits_4PB
        } else {
            MmfPaRange::_56_bits_64PB
        }
    }
}

/// Number of ASID bits.
#[derive(Debug, Copy, Clone, PartialEq, Eq, Structural)]
#[allow(non_camel_case_types)]
pub enum MmfAsidBits {
    _8_bits_ASID,
    _16_bits_ASID,
}

impl MmfAsidBits {
    /// The encoding of the value in its register field.
    pub open spec fn spec_bits(self) -> u64 {
        match self {
            MmfAsidBits::_8_bits_ASID => 0x0,
            MmfAsidBits::_16_bits_ASID => 0x2,
        }
    }

    /// `value` encodes one of the values.
    pub open spec fn valid_bits(value: u64) -> bool {
        value == 0x0 || value == 0x2
    }

    pub fn bits(self) -> (r: u64)
        ensures
            r == self.spec_bits(),
    {
        match self {
            MmfAsidBits::_8_bits_ASID => 0x0,
            MmfAsidBits::_16_bits_ASID => 0x2,
        }
    }

    /// The value that `value` encodes.
    pub fn from_bits(value: u64) -> (r: Self)
        requires
            Self::valid_bits(value),
        ensures
            r.spec_bits() == value,
    {
        if value == 0x0 {
            MmfAsidBits::_8_bits_ASID
        } else {
            MmfAsidBits::_16_bits_ASID
        }
    }
}

/// Support for 4 KiB granules at stage 2.
#[derive(Debug, Copy, Clone, PartialEq, Eq, Structural)]
#[allow(non_camel_case_types)]
pub enum MmfTGran4KBStage2 {
    AsStage1,
    No,
    Yes,
    Yes_52bit,
}

impl MmfTGran4KBStage2 {
    /// The encoding of the value in its register field.
    pub open spec fn spec_bits(self) -> u64 {
        match self {
            MmfTGran4KBStage2::AsStage1 => 0x0,
            MmfTGran4KBStage2::No => 0x1,
            MmfTGran4KBStage2::Yes => 0x2,
            MmfTGran4KBStage2::Yes_52bit => 0x3,
        }
    }

    /// `value` encodes one of the values.
    pub open spec fn valid_bits(value: u64) -> bool {
        value == 0x0 || value == 0x1 || value == 0x2 || value == 0x3
    }

    pub fn bits(self) -> (r: u64)
        ensures
            r == self.spec_bits(),
    {
        match self {
            MmfTGran4KBStage2::AsStage1 => 0x0,
            MmfTGran4KBStage2::No => 0x1,
            MmfTGran4KBStage2::Yes => 0x2,
            MmfTGran4KBStage2::Yes_52bit => 0x3,
        }
    }

    /// The value that `value` encodes.
    pub fn from_bits(value: u64) -> (r: Self)
        requires
            Self::valid_bits(value),
        ensures
            r.spec_bits() == value,
    {
        if value == 0x0 {
            MmfTGran4KBStage2::AsStage1
        } else if value == 0x1 {
            MmfTGran4KBStage2::No
        } else if value == 0x2 {
            MmfTGran4KBStage2::Yes
        } else {
            MmfTGran4KBStage2::Yes_52bit
        }
    }
}

/// Support for 16 KiB granules at stage 2.
#[derive(Debug, Copy, Clone, PartialEq, Eq, Structural)]
#[allow(non_camel_case_types)]
pub enum MmfTGran16KBStage2 {
    AsStage1,
    No,
    Yes,
    Yes_52bit,
}

impl MmfTGran16KBStage2 {
    /// The encoding of the value in its register field.
    pub open spec fn spec_bits(self) -> u64 {
        match self {
            MmfTGran16KBStage2::AsStage1 => 0x0,
            MmfTGran16KBStage2::No => 0x1,
            MmfTGran16KBStage2::Yes => 0x2,
            MmfTGran16KBStage2::Yes_52bit => 0x3,
        }
    }

    /// `value` encodes one of the values.
    pub open spec fn valid_bits(value: u64) -> bool {
        value == 0x0 || value == 0x1 || value == 0x2 || value == 0x3
    }

    pub fn bits(self) -> (r: u64)
        ensures
            r == self.spec_bits(),
    {
        match self {
            MmfTGran16KBStage2::AsStage1 => 0x0,
            MmfTGran16KBStage2::No => 0x1,
            MmfTGran16KBStage2::Yes => 0x2,
            MmfTGran16KBStage2::Yes_52bit => 0x3,
        }
    }

    /// The value that `value` encodes.
    pub fn from_bits(value: u64) -> (r: Self)
        requires
            Self::valid_bits(value),
        ensures
            r.spec_bits() == value,
    {
        if value == 0x0 {
            MmfTGran16KBStage2::AsStage1
        } else if value == 0x1 {
            MmfTGran16KBStage2::No
        } else if value == 0x2 {
            MmfTGran16KBStage2::Yes
        } else {
            MmfTGran16KBStage2::Yes_52bit
        }
    }
}

/// Support for 64 KiB granules at stage 2.
#[derive(Debug, Copy, Clone, PartialEq, Eq, Structural)]
pub enum MmfTGran64KBStage2 {
    AsStage1,
    No,
    Yes,
}

impl MmfTGran64KBStage2 {
    /// The encoding of the value in its register field.
    pub open spec fn spec_bits(self) -> u64 {
        match self {
            MmfTGran64KBStage2::AsStage1 => 0x0,
            MmfTGran64KBStage2::No => 0x1,
            MmfTGran64KBStage2::Yes => 0x2,
        }
    }

    /// `value` encodes one of the values.
    pub open spec fn valid_bits(value: u64) -> bool {
        value == 0x0 || value == 0x1 || value == 0x2
    }

    pub fn bits(self) -> (r: u64)
        ensures
            r == self.spec_bits(),
    {
        match self {
            MmfTGran64KBStage2::AsStage1 => 0x0,
            MmfTGran64KBStage2::No => 0x1,
            MmfTGran64KBStage2::Yes => 0x2,
        }
    }

    /// The value that `value` encodes.
    pub fn from_bits(value: u64) -> (r: Self)
        requires
            Self::valid_bits(value),
        ensures
            r.spec_bits() == value,
    {
        if value == 0x0 {
            MmfTGran64KBStage2::AsStage1
        } else if value == 0x1 {
            MmfTGran64KBStage2::No
        } else {
            MmfTGran64KBStage2::Yes
        }
    }
}

/// Support for 4 KiB granules.
#[derive(Debug, Copy, Clone, PartialEq, Eq, Structural)]
#[allow(non_camel_case_types)]
pub enum MmfTGran4KB {
    Yes,
    Yes_52bit,
    No,
}

impl MmfTGran4KB {
    /// The encoding of the value in its register field.
    pub open spec fn spec_bits(self) -> u64 {
        match self {
            MmfTGran4KB::Yes => 0x0,
            MmfTGran4KB::Yes_52bit => 0x1,
            MmfTGran4KB::No => 0xf,
        }
    }

    /// `value` encodes one of the values.
    pub open spec fn valid_bits(value: u64) -> bool {
        value == 0x0 || value == 0x1 || value == 0xf
    }

    pub fn bits(self) -> (r: u64)
        ensures
            r == self.spec_bits(),
    {
        match self {
            MmfTGran4KB::Yes => 0x0,
            MmfTGran4KB::Yes_52bit => 0x1,
            MmfTGran4KB::No => 0xf,
        }
    }

    /// The value that `value` encodes.
    pub fn from_bits(value: u64) -> (r: Self)
        requires
            Self::valid_bits(value),
        ensures
            r.spec_bits() == value,
    {
        if value == 0x0 {
            MmfTGran4KB::Yes
        } else if value == 0x1 {
            MmfTGran4KB::Yes_52bit
        } else {
            MmfTGran4KB::No
        }
    }
}

/// Support for 16 KiB granules.
#[derive(Debug, Copy, Clone, PartialEq, Eq, Structural)]
#[allow(non_camel_case_types)]
pub enum MmfTGran16KB {
    No,
    Yes,
    Yes_52bit,
}

impl MmfTGran16KB {
    /// The encoding of the value in its register field.
    pub open spec fn spec_bits(self) -> u64 {
        match self {
            MmfTGran16KB::No => 0x0,
            MmfTGran16KB::Yes => 0x1,
            MmfTGran16KB::Yes_52bit => 0x2,
        }
    }

    /// `value` encodes one of the values.
    pub open spec fn valid_bits(value: u64) -> bool {
        value == 0x0 || value == 0x1 || value == 0x2
    }

    pub fn bits(self) -> (r: u64)
        ensures
            r == self.spec_bits(),
    {
        match self {
            MmfTGran16KB::No => 0x0,
            MmfTGran16KB::Yes => 0x1,
            MmfTGran16KB::Yes_52bit => 0x2,
        }
    }

    /// The value that `value` encodes.
    pub fn from_bits(value: u64) -> (r: Self)
        requires
            Self::valid_bits(value),
        ensures
            r.spec_bits() == value,
    {
        if value == 0x0 {
            MmfTGran16KB::No
        } else if value == 0x1 {
            MmfTGran16KB::Yes
        } else {
            MmfTGran16KB::Yes_52bit
        }
    }
}

/// Support for 64 KiB granules.
#[derive(Debug, Copy, Clone, PartialEq, Eq, Structural)]
pub enum MmfTGran64KB {
    Yes,
    No,
}

impl MmfTGran64KB {
    /// The encoding of the value in its register field.
    pub open spec fn spec_bits(self) -> u64 {
        match self {
            MmfTGran64KB::Yes => 0x0,
            MmfTGran64KB::No => 0xf,
        }
    }

    /// `value` encodes one of the values.
    pub open spec fn valid_bits(value: u64) -> bool {
        value == 0x0 || value == 0xf
    }

    pub fn bits(self) -> (r: u64)
        ensures
            r == self.spec_bits(),
    {
        match self {
            MmfTGran64KB::Yes => 0x0,
            MmfTGran64KB::No => 0xf,
        }
    }

    /// The value that `value` encodes.
    pub fn from_bits(value: u64) -> (r: Self)
        requires
            Self::valid_bits(value),
        ensures
            r.spec_bits() == value,
    {
        if value == 0x0 {
            MmfTGran64KB::Yes
        } else {
            MmfTGran64KB::No
        }
    }
}

/// Memory attributes a `MAIR_EL1` slot can hold.
#[derive(Debug, Copy, Clone, PartialEq, Eq, Structural)]
#[allow(non_camel_case_types)]
pub enum MemoryAttributeEl1 {
    Device_nGnRnE,
    Normal_NonCacheable,
    Normal_WriteThrough,
    Normal_WriteBack,
}

impl MemoryAttributeEl1 {
    /// The encoding of the attribute in a `MAIR_EL1` slot.
    pub open spec fn spec_bits(self) -> u8 {
        match self {
            MemoryAttributeEl1::Device_nGnRnE => 0x00,
            MemoryAttributeEl1::Normal_NonCacheable => 0x44,
            MemoryAttributeEl1::Normal_WriteThrough => 0xbb,
            MemoryAttributeEl1::Normal_WriteBack => 0xff,
        }
    }

    pub fn bits(self) -> (r: u8)
        ensures
            r == self.spec_bits(),
    {
        match self {
            MemoryAttributeEl1::Device_nGnRnE => 0x00,
            MemoryAttributeEl1::Normal_NonCacheable => 0x44,
            MemoryAttributeEl1::Normal_WriteThrough => 0xbb,
            MemoryAttributeEl1::Normal_WriteBack => 0xff,
        }
    }
}

/// `MAIR_EL1`: eight memory attribute slots, one byte each; translation
/// table entries refer to a slot by its index.
#[derive(Debug, Clone, Copy)]
pub struct MemoryAttributeIndirectionEl1(pub [u8; 8]);

impl MemoryAttributeIndirectionEl1 {
    /// All slots `Device_nGnRnE`.
    pub fn new() -> (r: Self)
        ensures
            forall|i: int| 0 <= i < 8 ==> #[trigger] r.0[i] == 0,
    {
        Self([0; 8])
    }

    /// The first slot that holds `a`.
    pub fn get_index(&self, a: MemoryAttributeEl1) -> (r: Option<usize>)
        ensures
            match r {
                Some(i) => i < 8 && self.0[i as int] == a.spec_bits() && forall|j: int|
                    0 <= j < i ==> #[trigger] self.0[j] != a.spec_bits(),
                None => forall|j: int| 0 <= j < 8 ==> #[trigger] self.0[j] != a.spec_bits(),
            },
    {
        let value = a.bits();
        let mut i: usize = 0;
        while i < 8
            invariant
                i <= 8,
                value == a.spec_bits(),
                forall|j: int| 0 <= j < i ==> #[trigger] self.0[j] != value,
            decreases 8 - i,
        {
            if self.0[i] == value {
                return Some(i);
            }
            i += 1;
        }
        None
    }

    /// The slots of the register value `bits`, slot 0 in the lowest byte.
    pub fn from_bits(bits: u64) -> (r: Self)
        ensures
            forall|i: int| 0 <= i < 8 ==> #[trigger] r.0[i] == byte_of(bits, i),
    {
        let r = Self(
            [
                (bits & 0xff) as u8,
                ((bits >> 8) & 0xff) as u8,
                ((bits >> 16) & 0xff) as u8,
                ((bits >> 24) & 0xff) as u8,
                ((bits >> 32) & 0xff) as u8,
                ((bits >> 40) & 0xff) as u8,
                ((bits >> 48) & 0xff) as u8,
                ((bits >> 56) & 0xff) as u8,
            ],
        );
        proof {
            assert forall|i: int| 0 <= i < 8 implies #[trigger] r.0[i] == byte_of(bits, i) by {
                if i == 0 {
                    assert(bits >> 0u64 == bits) by (bit_vector);
                }
            }
        }
        r
    }

    /// The register value, slot 0 in the lowest byte.
    pub fn into_bits(self) -> (r: u64)
        ensures
            forall|i: int| 0 <= i < 8 ==> #[trigger] byte_of(r, i) == self.0[i],
    {
        let b = self.0;
        let r = (b[0] as u64) | ((b[1] as u64) << 8) | ((b[2] as u64) << 16) | ((b[3] as u64) << 24)
            | ((b[4] as u64) << 32) | ((b[5] as u64) << 40) | ((b[6] as u64) << 48) | ((b[7] as u64)
            << 56);
        proof {
            lemma_bytes_word(b[0], b[1], b[2], b[3], b[4], b[5], b[6], b[7]);
            assert forall|i: int| 0 <= i < 8 implies #[trigger] byte_of(r, i) == self.0[i] by {
                if i == 0 {
                } else if i == 1 {
                } else if i == 2 {
                } else if i == 3 {
                } else if i == 4 {
                } else if i == 5 {
                } else if i == 6 {
                } else {
                }
            }
        }
        r
    }
}

proof fn lemma_bytes_word(b0: u8, b1: u8, b2: u8, b3: u8, b4: u8, b5: u8, b6: u8, b7: u8)
    by (bit_vector)
    ensures
        ({
            let r = (b0 as u64) | ((b1 as u64) << 8u64) | ((b2 as u64) << 16u64) | ((b3 as u64)
                << 24u64) | ((b4 as u64) << 32u64) | ((b5 as u64) << 40u64) | ((b6 as u64) << 48u64)
                | ((b7 as u64) << 56u64);
            &&& byte_of(r, 0) == b0
            &&& byte_of(r, 1) == b1
            &&& byte_of(r, 2) == b2
            &&& byte_of(r, 3) == b3
            &&& byte_of(r, 4) == b4
            &&& byte_of(r, 5) == b5
            &&& byte_of(r, 6) == b6
            &&& byte_of(r, 7) == b7
        }),
{
}

impl Default for MemoryAttributeIndirectionEl1 {
    /// Slot 0 device memory, 1 normal non-cacheable, 2 normal write-back,
    /// 3 normal write-through, the rest device memory.
    fn default() -> (r: Self)
        ensures
            r.0@ == seq![0x00u8, 0x44, 0xff, 0xbb, 0x00, 0x00, 0x00, 0x00],
    {
        let r = Self(
            [
                MemoryAttributeEl1::Device_nGnRnE.bits(),
                MemoryAttributeEl1::Normal_NonCacheable.bits(),
                MemoryAttributeEl1::Normal_WriteBack.bits(),
                MemoryAttributeEl1::Normal_WriteThrough.bits(),
                MemoryAttributeEl1::Device_nGnRnE.bits(),
                MemoryAttributeEl1::Device_nGnRnE.bits(),
                MemoryAttributeEl1::Device_nGnRnE.bits(),
                MemoryAttributeEl1::Device_nGnRnE.bits(),
            ],
        );
        assert(r.0@ =~= seq![0x00u8, 0x44, 0xff, 0xbb, 0x00, 0x00, 0x00, 0x00]);
        r
    }
}

/// `SCTLR_EL1` as the loader sets it up: exception entry and return are
/// context synchronizing, TLS for EL0 and load/store multiple stay as
/// AArch64 expects, and `SETEND` and `IT` of AArch32 are disabled at EL0.
pub const SCTLR_EL1_DEFAULT: u64 = 0x3050_0980;

impl Default for SystemControlEl1 {
    fn default() -> (r: Self)
        ensures
            r.0 == SCTLR_EL1_DEFAULT,
    {
        // eos, tscxt, eis, n_tlsmd, lsmaoe, sed, itd.
        let bits = set_field(0, 11, 1, 1);
        let bits = set_field(bits, 20, 1, 1);
        let bits = set_field(bits, 22, 1, 1);
        let bits = set_field(bits, 28, 1, 1);
        let bits = set_field(bits, 29, 1, 1);
        let bits = set_field(bits, 8, 1, 1);
        let bits = set_field(bits, 7, 1, 1);
        proof {
            let b0 = with_field_of(0, 11, 1, 1);
            let b1 = with_field_of(b0, 20, 1, 1);
            let b2 = with_field_of(b1, 22, 1, 1);
            let b3 = with_field_of(b2, 28, 1, 1);
            let b4 = with_field_of(b3, 29, 1, 1);
            let b5 = with_field_of(b4, 8, 1, 1);
            assert(with_field_of(b5, 7, 1, 1) == 0x3050_0980u64) by (bit_vector)
                requires
                    b0 == with_field_of(0, 11, 1, 1),
                    b1 == with_field_of(b0, 20, 1, 1),
                    b2 == with_field_of(b1, 22, 1, 1),
                    b3 == with_field_of(b2, 28, 1, 1),
                    b4 == with_field_of(b3, 29, 1, 1),
                    b5 == with_field_of(b4, 8, 1, 1),
            ;
        }
        Self(bits)
    }
}

/// A system register as the loader reports it.
pub trait Aarch64Register {
    /// The register's architectural name.
    fn name(&self) -> &'static str;

    /// The raw register value.
    fn bits(&self) -> u64;
}

/// `CurrentEL`: the current exception level.
#[derive(Debug, Copy, Clone, PartialEq, Eq, Structural)]
pub struct CurrentEl(pub u64);

impl CurrentEl {
    pub fn from_bits(bits: u64) -> (r: Self)
        ensures
            r.0 == bits,
    {
        Self(bits)
    }

    pub fn into_bits(self) -> (r: u64)
        ensures
            r == self.0,
    {
        self.0
    }

    pub fn el(&self) -> (r: El)
        requires
            El::valid_bits(field_of(self.0, 2, 2)),
        ensures
            r.spec_bits() == field_of(self.0, 2, 2),
    {
        El::from_bits(get_field(self.0, 2, 2))
    }
}

/// `SCTLR_EL1`: system control at EL1 and EL0.
#[derive(Debug, Copy, Clone, PartialEq, Eq, Structural)]
pub struct SystemControlEl1(pub u64);

impl SystemControlEl1 {
    pub fn from_bits(bits: u64) -> (r: Self)
        ensures
            r.0 == bits,
    {
        Self(bits)
    }

    pub fn into_bits(self) -> (r: u64)
        ensures
            r == self.0,
    {
        self.0
    }

    pub fn m(&self) -> (r: u64)
        ensures
            r == field_of(self.0, 0, 1),
    {
        get_field(self.0, 0, 1)
    }

    pub fn a(&self) -> (r: u64)
        ensures
            r == field_of(self.0, 1, 1),
    {
        get_field(self.0, 1, 1)
    }

    pub fn c(&self) -> (r: u64)
        ensures
            r == field_of(self.0, 2, 1),
    {
        get_field(self.0, 2, 1)
    }

    pub fn sa(&self) -> (r: u64)
        ensures
            r == field_of(self.0, 3, 1),
    {
        get_field(self.0, 3, 1)
    }

    pub fn sa0(&self) -> (r: u64)
        ensures
            r == field_of(self.0, 4, 1),
    {
        get_field(self.0, 4, 1)
    }

    pub fn cp15ben(&self) -> (r: u64)
        ensures
            r == field_of(self.0, 5, 1),
    {
        get_field(self.0, 5, 1)
    }

    pub fn n_aa(&self) -> (r: u64)
        ensures
            r == field_of(self.0, 6, 1),
    {
        get_field(self.0, 6, 1)
    }

    pub fn itd(&self) -> (r: u64)
        ensures
            r == field_of(self.0, 7, 1),
    {
        get_field(self.0, 7, 1)
    }

    pub fn sed(&self) -> (r: u64)
        ensures
            r == field_of(self.0, 8, 1),
    {
        get_field(self.0, 8, 1)
    }

    pub fn uma(&self) -> (r: u64)
        ensures
            r == field_of(self.0, 9, 1),
    {
        get_field(self.0, 9, 1)
    }

    pub fn en_rctx(&self) -> (r: u64)
        ensures
            r == field_of(self.0, 10, 1),
    {
        get_field(self.0, 10, 1)
    }

    pub fn eos(&self) -> (r: u64)
        ensures
            r == field_of(self.0, 11, 1),
    {
        get_field(self.0, 11, 1)
    }

    pub fn i(&self) -> (r: u64)
        ensures
            r == field_of(self.0, 12, 1),
    {
        get_field(self.0, 12, 1)
    }

    pub fn en_db(&self) -> (r: u64)
        ensures
            r == field_of(self.0, 13, 1),
    {
        get_field(self.0, 13, 1)
    }

    pub fn dze(&self) -> (r: u64)
        ensures
            r == field_of(self.0, 14, 1),
    {
        get_field(self.0, 14, 1)
    }

    pub fn uct(&self) -> (r: u64)
        ensures
            r == field_of(self.0, 15, 1),
    {
        get_field(self.0, 15, 1)
    }

    pub fn n_twi(&self) -> (r: u64)
        ensures
            r == field_of(self.0, 16, 1),
    {
        get_field(self.0, 16, 1)
    }

    pub fn n_twe(&self) -> (r: u64)
        ensures
            r == field_of(self.0, 18, 1),
    {
        get_field(self.0, 18, 1)
    }

    pub fn wxn(&self) -> (r: u64)
        ensures
            r == field_of(self.0, 19, 1),
    {
        get_field(self.0, 19, 1)
    }

    pub fn tscxt(&self) -> (r: u64)
        ensures
            r == field_of(self.0, 20, 1),
    {
        get_field(self.0, 20, 1)
    }

    pub fn iesb(&self) -> (r: u64)
        ensures
            r == field_of(self.0, 21, 1),
    {
        get_field(self.0, 21, 1)
    }

    pub fn eis(&self) -> (r: u64)
        ensures
            r == field_of(self.0, 22, 1),
    {
        get_field(self.0, 22, 1)
    }

    pub fn span(&self) -> (r: u64)
        ensures
            r == field_of(self.0, 23, 1),
    {
        get_field(self.0, 23, 1)
    }

    pub fn e0e(&self) -> (r: u64)
        ensures
            r == field_of(self.0, 24, 1),
    {
        get_field(self.0, 24, 1)
    }

    pub fn ee(&self) -> (r: u64)
        ensures
            r == field_of(self.0, 25, 1),
    {
        get_field(self.0, 25, 1)
    }

    pub fn uci(&self) -> (r: u64)
        ensures
            r == field_of(self.0, 26, 1),
    {
        get_field(self.0, 26, 1)
    }

    pub fn en_da(&self) -> (r: u64)
        ensures
            r == field_of(self.0, 27, 1),
    {
        get_field(self.0, 27, 1)
    }

    pub fn n_tlsmd(&self) -> (r: u64)
        ensures
            r == field_of(self.0, 28, 1),
    {
        get_field(self.0, 28, 1)
    }

    pub fn lsmaoe(&self) -> (r: u64)
        ensures
            r == field_of(self.0, 29, 1),
    {
        get_field(self.0, 29, 1)
    }

    pub fn en_ib(&self) -> (r: u64)
        ensures
            r == field_of(self.0, 30, 1),
    {
        get_field(self.0, 30, 1)
    }

    pub fn en_ia(&self) -> (r: u64)
        ensures
            r == field_of(self.0, 31, 1),
    {
        get_field(self.0, 31, 1)
    }

    pub fn cmow(&self) -> (r: u64)
        ensures
            r == field_of(self.0, 32, 1),
    {
        get_field(self.0, 32, 1)
    }

    pub fn msc_en(&self) -> (r: u64)
        ensures
            r == field_of(self.0, 33, 1),
    {
        get_field(self.0, 33, 1)
    }

    pub fn bt0(&self) -> (r: u64)
        ensures
            r == field_of(self.0, 35, 1),
    {
        get_field(self.0, 35, 1)
    }

    pub fn bt1(&self) -> (r: u64)
        ensures
            r == field_of(self.0, 36, 1),
    {
        get_field(self.0, 36, 1)
    }

    pub fn itfsb(&self) -> (r: u64)
        ensures
            r == field_of(self.0, 37, 1),
    {
        get_field(self.0, 37, 1)
    }

    pub fn tcf0(&self) -> (r: u64)
        ensures
            r == field_of(self.0, 38, 2),
    {
        get_field(self.0, 38, 2)
    }

    pub fn tcf(&self) -> (r: u64)
        ensures
            r == field_of(self.0, 40, 2),
    {
        get_field(self.0, 40, 2)
    }

    pub fn ata0(&self) -> (r: u64)
        ensures
            r == field_of(self.0, 42, 1),
    {
        get_field(self.0, 42, 1)
    }

    pub fn ata(&self) -> (r: u64)
        ensures
            r == field_of(self.0, 43, 1),
    {
        get_field(self.0, 43, 1)
    }

    pub fn dssbs(&self) -> (r: u64)
        ensures
            r == field_of(self.0, 44, 1),
    {
        get_field(self.0, 44, 1)
    }

    pub fn twed_en(&self) -> (r: u64)
        ensures
            r == field_of(self.0, 45, 1),
    {
        get_field(self.0, 45, 1)
    }

    pub fn twedel(&self) -> (r: u64)
        ensures
            r == field_of(self.0, 46, 4),
    {
        get_field(self.0, 46, 4)
    }

    pub fn tmt0(&self) -> (r: u64)
        ensures
            r == field_of(self.0, 50, 1),
    {
        get_field(self.0, 50, 1)
    }

    pub fn tmt(&self) -> (r: u64)
        ensures
            r == field_of(self.0, 51, 1),
    {
        get_field(self.0, 51, 1)
    }

    pub fn tme0(&self) -> (r: u64)
        ensures
            r == field_of(self.0, 52, 1),
    {
        get_field(self.0, 52, 1)
    }

    pub fn tme(&self) -> (r: u64)
        ensures
            r == field_of(self.0, 53, 1),
    {
        get_field(self.0, 53, 1)
    }

    pub fn en_asr(&self) -> (r: u64)
        ensures
            r == field_of(self.0, 54, 1),
    {
        get_field(self.0, 54, 1)
    }

    pub fn en_as0(&self) -> (r: u64)
        ensures
            r == field_of(self.0, 55, 1),
    {
        get_field(self.0, 55, 1)
    }

    pub fn en_als(&self) -> (r: u64)
        ensures
            r == field_of(self.0, 56, 1),
    {
        get_field(self.0, 56, 1)
    }

    pub fn epan(&self) -> (r: u64)
        ensures
            r == field_of(self.0, 57, 1),
    {
        get_field(self.0, 57, 1)
    }

    pub fn tcso0(&self) -> (r: u64)
        ensures
            r == field_of(self.0, 58, 1),
    {
        get_field(self.0, 58, 1)
    }

    pub fn tcso(&self) -> (r: u64)
        ensures
            r == field_of(self.0, 59, 1),
    {
        get_field(self.0, 59, 1)
    }

    pub fn en_tp2(&self) -> (r: u64)
        ensures
            r == field_of(self.0, 60, 1),
    {
        get_field(self.0, 60, 1)
    }

    pub fn nmi(&self) -> (r: u64)
        ensures
            r == field_of(self.0, 61, 1),
    {
        get_field(self.0, 61, 1)
    }

    pub fn spintmask(&self) -> (r: u64)
        ensures
            r == field_of(self.0, 62, 1),
    {
        get_field(self.0, 62, 1)
    }

    pub fn tidcp(&self) -> (r: u64)
        ensures
            r == field_of(self.0, 63, 1),
    {
        get_field(self.0, 63, 1)
    }
}

/// `VBAR_EL1`: base of the exception vectors, 2 KiB aligned.
#[derive(Debug, Copy, Clone, PartialEq, Eq, Structural)]
pub struct VectorBaseEl1(pub u64);

impl VectorBaseEl1 {
    pub fn from_bits(bits: u64) -> (r: Self)
        ensures
            r.0 == bits,
    {
        Self(bits)
    }

    pub fn into_bits(self) -> (r: u64)
        ensures
            r == self.0,
    {
        self.0
    }

    pub fn vbar_shift_11(&self) -> (r: u64)
        ensures
            r == field_of(self.0, 11, 53),
    {
        get_field(self.0, 11, 53)
    }
}

/// `ELR_EL1`: where an exception taken to EL1 returns to.
#[derive(Debug, Copy, Clone, PartialEq, Eq, Structural)]
pub struct ExceptionLinkEl1(pub u64);

impl ExceptionLinkEl1 {
    pub fn from_bits(bits: u64) -> (r: Self)
        ensures
            r.0 == bits,
    {
        Self(bits)
    }

    pub fn into_bits(self) -> (r: u64)
        ensures
            r == self.0,
    {
        self.0
    }

    pub fn bits(&self) -> (r: u64)
        ensures
            r == field_of(self.0, 0, 64),
    {
        get_field(self.0, 0, 64)
    }
}

/// `ESR_EL1`: why an exception was taken to EL1.
#[derive(Debug, Copy, Clone, PartialEq, Eq, Structural)]
pub struct ExceptionSyndromeEl1(pub u64);

impl ExceptionSyndromeEl1 {
    pub fn from_bits(bits: u64) -> (r: Self)
        ensures
            r.0 == bits,
    {
        Self(bits)
    }

    pub fn into_bits(self) -> (r: u64)
        ensures
            r == self.0,
    {
        self.0
    }

    pub fn bits(&self) -> (r: u64)
        ensures
            r == field_of(self.0, 0, 64),
    {
        get_field(self.0, 0, 64)
    }
}

/// `SPSR_EL1`: the state saved when an exception is taken to EL1.
#[derive(Debug, Copy, Clone, PartialEq, Eq, Structural)]
pub struct SavedProgramStateEl1(pub u64);

impl SavedProgramStateEl1 {
    pub fn from_bits(bits: u64) -> (r: Self)
        ensures
            r.0 == bits,
    {
        Self(bits)
    }

    pub fn into_bits(self) -> (r: u64)
        ensures
            r == self.0,
    {
        self.0
    }

    pub fn mode(&self) -> (r: SavedProgramStateMode)
        requires
            SavedProgramStateMode::valid_bits(field_of(self.0, 0, 4)),
        ensures
            r.spec_bits() == field_of(self.0, 0, 4),
    {
        SavedProgramStateMode::from_bits(get_field(self.0, 0, 4))
    }

    pub fn aarch32(&self) -> (r: bool)
        ensures
            r == (field_of(self.0, 4, 1) == 1),
    {
        get_field(self.0, 4, 1) == 1
    }

    pub fn f(&self) -> (r: bool)
        ensures
            r == (field_of(self.0, 6, 1) == 1),
    {
        get_field(self.0, 6, 1) == 1
    }

    pub fn i(&self) -> (r: bool)
        ensures
            r == (field_of(self.0, 7, 1) == 1),
    {
        get_field(self.0, 7, 1) == 1
    }

    pub fn a(&self) -> (r: bool)
        ensures
            r == (field_of(self.0, 8, 1) == 1),
    {
        get_field(self.0, 8, 1) == 1
    }

    pub fn d(&self) -> (r: bool)
        ensures
            r == (field_of(self.0, 9, 1) == 1),
    {
        get_field(self.0, 9, 1) == 1
    }
}

/// `MIDR_EL1`: identification of the processor.
#[derive(Debug, Copy, Clone, PartialEq, Eq, Structural)]
pub struct MainIdEl1(pub u64);

impl MainIdEl1 {
    pub fn from_bits(bits: u64) -> (r: Self)
        ensures
            r.0 == bits,
    {
        Self(bits)
    }

    pub fn into_bits(self) -> (r: u64)
        ensures
            r == self.0,
    {
        self.0
    }

    pub fn revision(&self) -> (r: u64)
        ensures
            r == field_of(self.0, 0, 4),
    {
        get_field(self.0, 0, 4)
    }

    pub fn part_num(&self) -> (r: u64)
        ensures
            r == field_of(self.0, 4, 12),
    {
        get_field(self.0, 4, 12)
    }

    pub fn architecture(&self) -> (r: u64)
        ensures
            r == field_of(self.0, 16, 4),
    {
        get_field(self.0, 16, 4)
    }

    pub fn variant(&self) -> (r: u64)
        ensures
            r == field_of(self.0, 20, 4),
    {
        get_field(self.0, 20, 4)
    }

    pub fn implementer(&self) -> (r: u64)
        ensures
            r == field_of(self.0, 24, 8),
    {
        get_field(self.0, 24, 8)
    }
}

/// `ID_AA64PFR0_EL1`: processor features.
#[derive(Debug, Copy, Clone, PartialEq, Eq, Structural)]
pub struct ProcessorFeatures0El1(pub u64);

impl ProcessorFeatures0El1 {
    pub fn from_bits(bits: u64) -> (r: Self)
        ensures
            r.0 == bits,
    {
        Self(bits)
    }

    pub fn into_bits(self) -> (r: u64)
        ensures
            r == self.0,
    {
        self.0
    }

    pub fn el0(&self) -> (r: u64)
        ensures
            r == field_of(self.0, 0, 4),
    {
        get_field(self.0, 0, 4)
    }

    pub fn el1(&self) -> (r: u64)
        ensures
            r == field_of(self.0, 4, 4),
    {
        get_field(self.0, 4, 4)
    }

    pub fn el2(&self) -> (r: u64)
        ensures
            r == field_of(self.0, 8, 4),
    {
        get_field(self.0, 8, 4)
    }

    pub fn el3(&self) -> (r: u64)
        ensures
            r == field_of(self.0, 12, 4),
    {
        get_field(self.0, 12, 4)
    }

    pub fn fp(&self) -> (r: u64)
        ensures
            r == field_of(self.0, 16, 4),
    {
        get_field(self.0, 16, 4)
    }

    pub fn adv_simd(&self) -> (r: u64)
        ensures
            r == field_of(self.0, 20, 4),
    {
        get_field(self.0, 20, 4)
    }

    pub fn gic(&self) -> (r: u64)
        ensures
            r == field_of(self.0, 24, 4),
    {
        get_field(self.0, 24, 4)
    }

    pub fn ras(&self) -> (r: u64)
        ensures
            r == field_of(self.0, 28, 4),
    {
        get_field(self.0, 28, 4)
    }

    pub fn sve(&self) -> (r: u64)
        ensures
            r == field_of(self.0, 32, 4),
    {
        get_field(self.0, 32, 4)
    }

    pub fn sel2(&self) -> (r: u64)
        ensures
            r == field_of(self.0, 36, 4),
    {
        get_field(self.0, 36, 4)
    }

    pub fn mpam(&self) -> (r: u64)
        ensures
            r == field_of(self.0, 40, 4),
    {
        get_field(self.0, 40, 4)
    }

    pub fn amu(&self) -> (r: u64)
        ensures
            r == field_of(self.0, 44, 4),
    {
        get_field(self.0, 44, 4)
    }

    pub fn dit(&self) -> (r: u64)
        ensures
            r == field_of(self.0, 48, 4),
    {
        get_field(self.0, 48, 4)
    }

    pub fn rme(&self) -> (r: u64)
        ensures
            r == field_of(self.0, 52, 4),
    {
        get_field(self.0, 52, 4)
    }

    pub fn csv2(&self) -> (r: u64)
        ensures
            r == field_of(self.0, 56, 4),
    {
        get_field(self.0, 56, 4)
    }

    pub fn csv3(&self) -> (r: u64)
        ensures
            r == field_of(self.0, 60, 4),
    {
        get_field(self.0, 60, 4)
    }
}

/// `ID_AA64PFR1_EL1`: more processor features.
#[derive(Debug, Copy, Clone, PartialEq, Eq, Structural)]
pub struct ProcessorFeatures1El1(pub u64);

impl ProcessorFeatures1El1 {
    pub fn from_bits(bits: u64) -> (r: Self)
        ensures
            r.0 == bits,
    {
        Self(bits)
    }

    pub fn into_bits(self) -> (r: u64)
        ensures
            r == self.0,
    {
        self.0
    }

    pub fn bt(&self) -> (r: u64)
        ensures
            r == field_of(self.0, 0, 4),
    {
        get_field(self.0, 0, 4)
    }

    pub fn ssbs(&self) -> (r: u64)
        ensures
            r == field_of(self.0, 4, 4),
    {
        get_field(self.0, 4, 4)
    }

    pub fn mte(&self) -> (r: u64)
        ensures
            r == field_of(self.0, 8, 4),
    {
        get_field(self.0, 8, 4)
    }

    pub fn ras_frac(&self) -> (r: u64)
        ensures
            r == field_of(self.0, 12, 4),
    {
        get_field(self.0, 12, 4)
    }

    pub fn mpam_frac(&self) -> (r: u64)
        ensures
            r == field_of(self.0, 16, 4),
    {
        get_field(self.0, 16, 4)
    }

    pub fn res0(&self) -> (r: u64)
        ensures
            r == field_of(self.0, 20, 4),
    {
        get_field(self.0, 20, 4)
    }

    pub fn sme(&self) -> (r: u64)
        ensures
            r == field_of(self.0, 24, 4),
    {
        get_field(self.0, 24, 4)
    }

    pub fn rndr_trap(&self) -> (r: u64)
        ensures
            r == field_of(self.0, 28, 4),
    {
        get_field(self.0, 28, 4)
    }

    pub fn csv2_frac(&self) -> (r: u64)
        ensures
            r == field_of(self.0, 32, 4),
    {
        get_field(self.0, 32, 4)
    }

    pub fn nmi(&self) -> (r: u64)
        ensures
            r == field_of(self.0, 36, 4),
    {
        get_field(self.0, 36, 4)
    }

    pub fn mte_frac(&self) -> (r: u64)
        ensures
            r == field_of(self.0, 40, 4),
    {
        get_field(self.0, 40, 4)
    }

    pub fn gcs(&self) -> (r: u64)
        ensures
            r == field_of(self.0, 44, 4),
    {
        get_field(self.0, 44, 4)
    }

    pub fn the(&self) -> (r: u64)
        ensures
            r == field_of(self.0, 48, 4),
    {
        get_field(self.0, 48, 4)
    }

    pub fn mtex(&self) -> (r: u64)
        ensures
            r == field_of(self.0, 52, 4),
    {
        get_field(self.0, 52, 4)
    }

    pub fn df2(&self) -> (r: u64)
        ensures
            r == field_of(self.0, 56, 4),
    {
        get_field(self.0, 56, 4)
    }

    pub fn pfar(&self) -> (r: u64)
        ensures
            r == field_of(self.0, 60, 4),
    {
        get_field(self.0, 60, 4)
    }
}

/// `TCR_EL1`: control of stage 1 translation at EL1 and EL0.
#[derive(Debug, Copy, Clone, PartialEq, Eq, Structural)]
pub struct TranslationControlEl1(pub u64);

impl TranslationControlEl1 {
    pub fn from_bits(bits: u64) -> (r: Self)
        ensures
            r.0 == bits,
    {
        Self(bits)
    }

    pub fn into_bits(self) -> (r: u64)
        ensures
            r == self.0,
    {
        self.0
    }

    pub fn t0sz(&self) -> (r: u64)
        ensures
            r == field_of(self.0, 0, 6),
    {
        get_field(self.0, 0, 6)
    }

    pub fn epd0(&self) -> (r: u64)
        ensures
            r == field_of(self.0, 7, 1),
    {
        get_field(self.0, 7, 1)
    }

    pub fn irgn0(&self) -> (r: u64)
        ensures
            r == field_of(self.0, 8, 2),
    {
        get_field(self.0, 8, 2)
    }

    pub fn orgn0(&self) -> (r: u64)
        ensures
            r == field_of(self.0, 10, 2),
    {
        get_field(self.0, 10, 2)
    }

    pub fn sh0(&self) -> (r: u64)
        ensures
            r == field_of(self.0, 12, 2),
    {
        get_field(self.0, 12, 2)
    }

    pub fn tg0(&self) -> (r: TranslationGranule0)
        requires
            TranslationGranule0::valid_bits(field_of(self.0, 14, 2)),
        ensures
            r.spec_bits() == field_of(self.0, 14, 2),
    {
        TranslationGranule0::from_bits(get_field(self.0, 14, 2))
    }

    pub fn t1sz(&self) -> (r: u64)
        ensures
            r == field_of(self.0, 16, 6),
    {
        get_field(self.0, 16, 6)
    }

    pub fn a1(&self) -> (r: u64)
        ensures
            r == field_of(self.0, 22, 1),
    {
        get_field(self.0, 22, 1)
    }

    pub fn epd1(&self) -> (r: u64)
        ensures
            r == field_of(self.0, 23, 1),
    {
        get_field(self.0, 23, 1)
    }

    pub fn irgn1(&self) -> (r: u64)
        ensures
            r == field_of(self.0, 24, 2),
    {
        get_field(self.0, 24, 2)
    }

    pub fn orgn1(&self) -> (r: u64)
        ensures
            r == field_of(self.0, 26, 2),
    {
        get_field(self.0, 26, 2)
    }

    pub fn sh1(&self) -> (r: u64)
        ensures
            r == field_of(self.0, 28, 2),
    {
        get_field(self.0, 28, 2)
    }

    pub fn tg1(&self) -> (r: TranslationGranule1)
        requires
            TranslationGranule1::valid_bits(field_of(self.0, 30, 2)),
        ensures
            r.spec_bits() == field_of(self.0, 30, 2),
    {
        TranslationGranule1::from_bits(get_field(self.0, 30, 2))
    }

    pub fn ips(&self) -> (r: IntermPhysAddrSize)
        requires
            IntermPhysAddrSize::valid_bits(field_of(self.0, 32, 3)),
        ensures
            r.spec_bits() == field_of(self.0, 32, 3),
    {
        IntermPhysAddrSize::from_bits(get_field(self.0, 32, 3))
    }

    pub fn a_s(&self) -> (r: u64)
        ensures
            r == field_of(self.0, 36, 1),
    {
        get_field(self.0, 36, 1)
    }

    pub fn tbi0(&self) -> (r: u64)
        ensures
            r == field_of(self.0, 37, 1),
    {
        get_field(self.0, 37, 1)
    }

    pub fn tbi1(&self) -> (r: u64)
        ensures
            r == field_of(self.0, 38, 1),
    {
        get_field(self.0, 38, 1)
    }

    pub fn ha(&self) -> (r: u64)
        ensures
            r == field_of(self.0, 39, 1),
    {
        get_field(self.0, 39, 1)
    }

    pub fn hd(&self) -> (r: u64)
        ensures
            r == field_of(self.0, 40, 1),
    {
        get_field(self.0, 40, 1)
    }

    pub fn hpd0(&self) -> (r: u64)
        ensures
            r == field_of(self.0, 41, 1),
    {
        get_field(self.0, 41, 1)
    }

    pub fn hpd1(&self) -> (r: u64)
        ensures
            r == field_of(self.0, 42, 1),
    {
        get_field(self.0, 42, 1)
    }

    pub fn hwu059(&self) -> (r: u64)
        ensures
            r == field_of(self.0, 43, 1),
    {
        get_field(self.0, 43, 1)
    }

    pub fn hwu060(&self) -> (r: u64)
        ensures
            r == field_of(self.0, 44, 1),
    {
        get_field(self.0, 44, 1)
    }

    pub fn hwu061(&self) -> (r: u64)
        ensures
            r == field_of(self.0, 45, 1),
    {
        get_field(self.0, 45, 1)
    }

    pub fn hwu062(&self) -> (r: u64)
        ensures
            r == field_of(self.0, 46, 1),
    {
        get_field(self.0, 46, 1)
    }

    pub fn hwu159(&self) -> (r: u64)
        ensures
            r == field_of(self.0, 47, 1),
    {
        get_field(self.0, 47, 1)
    }

    pub fn hwu160(&self) -> (r: u64)
        ensures
            r == field_of(self.0, 48, 1),
    {
        get_field(self.0, 48, 1)
    }

    pub fn hwu161(&self) -> (r: u64)
        ensures
            r == field_of(self.0, 49, 1),
    {
        get_field(self.0, 49, 1)
    }

    pub fn hwu162(&self) -> (r: u64)
        ensures
            r == field_of(self.0, 50, 1),
    {
        get_field(self.0, 50, 1)
    }

    pub fn tbid0(&self) -> (r: u64)
        ensures
            r == field_of(self.0, 51, 1),
    {
        get_field(self.0, 51, 1)
    }

    pub fn tbid1(&self) -> (r: u64)
        ensures
            r == field_of(self.0, 52, 1),
    {
        get_field(self.0, 52, 1)
    }

    pub fn nfd0(&self) -> (r: u64)
        ensures
            r == field_of(self.0, 53, 1),
    {
        get_field(self.0, 53, 1)
    }

    pub fn nfd1(&self) -> (r: u64)
        ensures
            r == field_of(self.0, 54, 1),
    {
        get_field(self.0, 54, 1)
    }

    pub fn e0pd0(&self) -> (r: u64)
        ensures
            r == field_of(self.0, 55, 1),
    {
        get_field(self.0, 55, 1)
    }

    pub fn e0pd1(&self) -> (r: u64)
        ensures
            r == field_of(self.0, 56, 1),
    {
        get_field(self.0, 56, 1)
    }

    pub fn tcma0(&self) -> (r: u64)
        ensures
            r == field_of(self.0, 57, 1),
    {
        get_field(self.0, 57, 1)
    }

    pub fn tcma1(&self) -> (r: u64)
        ensures
            r == field_of(self.0, 58, 1),
    {
        get_field(self.0, 58, 1)
    }

    pub fn ds(&self) -> (r: u64)
        ensures
            r == field_of(self.0, 59, 1),
    {
        get_field(self.0, 59, 1)
    }

    pub fn mtx0(&self) -> (r: u64)
        ensures
            r == field_of(self.0, 60, 1),
    {
        get_field(self.0, 60, 1)
    }

    pub fn mtx1(&self) -> (r: u64)
        ensures
            r == field_of(self.0, 61, 1),
    {
        get_field(self.0, 61, 1)
    }
}

/// `TTBR0_EL1`: base of the lower half's translation tables.
#[derive(Debug, Copy, Clone, PartialEq, Eq, Structural)]
pub struct TranslationBase0El1(pub u64);

impl TranslationBase0El1 {
    pub fn from_bits(bits: u64) -> (r: Self)
        ensures
            r.0 == bits,
    {
        Self(bits)
    }

    pub fn into_bits(self) -> (r: u64)
        ensures
            r == self.0,
    {
        self.0
    }

    pub fn baddr(&self) -> (r: u64)
        ensures
            r == field_of(self.0, 0, 48),
    {
        get_field(self.0, 0, 48)
    }

    pub fn asid(&self) -> (r: u64)
        ensures
            r == field_of(self.0, 48, 16),
    {
        get_field(self.0, 48, 16)
    }
}

/// `TTBR1_EL1`: base of the upper half's translation tables.
#[derive(Debug, Copy, Clone, PartialEq, Eq, Structural)]
pub struct TranslationBase1El1(pub u64);

impl TranslationBase1El1 {
    pub fn from_bits(bits: u64) -> (r: Self)
        ensures
            r.0 == bits,
    {
        Self(bits)
    }

    pub fn into_bits(self) -> (r: u64)
        ensures
            r == self.0,
    {
        self.0
    }

    pub fn baddr(&self) -> (r: u64)
        ensures
            r == field_of(self.0, 0, 48),
    {
        get_field(self.0, 0, 48)
    }

    pub fn asid(&self) -> (r: u64)
        ensures
            r == field_of(self.0, 48, 16),
    {
        get_field(self.0, 48, 16)
    }
}

/// `ID_AA64MMFR0_EL1`: memory model features.
#[derive(Debug, Copy, Clone, PartialEq, Eq, Structural)]
pub struct MmFeatures0El1(pub u64);

impl MmFeatures0El1 {
    pub fn from_bits(bits: u64) -> (r: Self)
        ensures
            r.0 == bits,
    {
        Self(bits)
    }

    pub fn into_bits(self) -> (r: u64)
        ensures
            r == self.0,
    {
        self.0
    }

    pub fn pa_range(&self) -> (r: MmfPaRange)
        requires
            MmfPaRange::valid_bits(field_of(self.0, 0, 4)),
        ensures
            r.spec_bits() == field_of(self.0, 0, 4),
    {
        MmfPaRange::from_bits(get_field(self.0, 0, 4))
    }

    pub fn asid_bits(&self) -> (r: MmfAsidBits)
        requires
            MmfAsidBits::valid_bits(field_of(self.0, 4, 4)),
        ensures
            r.spec_bits() == field_of(self.0, 4, 4),
    {
        MmfAsidBits::from_bits(get_field(self.0, 4, 4))
    }

    pub fn big_end(&self) -> (r: u64)
        ensures
            r == field_of(self.0, 8, 4),
    {
        get_field(self.0, 8, 4)
    }

    pub fn sns_mem(&self) -> (r: u64)
        ensures
            r == field_of(self.0, 12, 4),
    {
        get_field(self.0, 12, 4)
    }

    pub fn big_end_el0(&self) -> (r: u64)
        ensures
            r == field_of(self.0, 16, 4),
    {
        get_field(self.0, 16, 4)
    }

    pub fn t_gran16(&self) -> (r: MmfTGran16KB)
        requires
            MmfTGran16KB::valid_bits(field_of(self.0, 20, 4)),
        ensures
            r.spec_bits() == field_of(self.0, 20, 4),
    {
        MmfTGran16KB::from_bits(get_field(self.0, 20, 4))
    }

    pub fn t_gran64(&self) -> (r: MmfTGran64KB)
        requires
            MmfTGran64KB::valid_bits(field_of(self.0, 24, 4)),
        ensures
            r.spec_bits() == field_of(self.0, 24, 4),
    {
        MmfTGran64KB::from_bits(get_field(self.0, 24, 4))
    }

    pub fn t_gran4(&self) -> (r: MmfTGran4KB)
        requires
            MmfTGran4KB::valid_bits(field_of(self.0, 28, 4)),
        ensures
            r.spec_bits() == field_of(self.0, 28, 4),
    {
        MmfTGran4KB::from_bits(get_field(self.0, 28, 4))
    }

    pub fn t_gran16_2(&self) -> (r: MmfTGran16KBStage2)
        requires
            MmfTGran16KBStage2::valid_bits(field_of(self.0, 32, 4)),
        ensures
            r.spec_bits() == field_of(self.0, 32, 4),
    {
        MmfTGran16KBStage2::from_bits(get_field(self.0, 32, 4))
    }

    pub fn t_gran64_2(&self) -> (r: MmfTGran64KBStage2)
        requires
            MmfTGran64KBStage2::valid_bits(field_of(self.0, 36, 4)),
        ensures
            r.spec_bits() == field_of(self.0, 36, 4),
    {
        MmfTGran64KBStage2::from_bits(get_field(self.0, 36, 4))
    }

    pub fn t_gran4_2(&self) -> (r: MmfTGran4KBStage2)
        requires
            MmfTGran4KBStage2::valid_bits(field_of(self.0, 40, 4)),
        ensures
            r.spec_bits() == field_of(self.0, 40, 4),
    {
        MmfTGran4KBStage2::from_bits(get_field(self.0, 40, 4))
    }

    pub fn ex_s(&self) -> (r: u64)
        ensures
            r == field_of(self.0, 44, 4),
    {
        get_field(self.0, 44, 4)
    }

    pub fn fgt(&self) -> (r: u64)
        ensures
            r == field_of(self.0, 56, 4),
    {
        get_field(self.0, 56, 4)
    }

    pub fn ecv(&self) -> (r: u64)
        ensures
            r == field_of(self.0, 60, 4),
    {
        get_field(self.0, 60, 4)
    }
}

/// `ID_AA64MMFR1_EL1`: memory model features.
#[derive(Debug, Copy, Clone, PartialEq, Eq, Structural)]
pub struct MmFeatures1El1(pub u64);

impl MmFeatures1El1 {
    pub fn from_bits(bits: u64) -> (r: Self)
        ensures
            r.0 == bits,
    {
        Self(bits)
    }

    pub fn into_bits(self) -> (r: u64)
        ensures
            r == self.0,
    {
        self.0
    }

    pub fn hafdbs(&self) -> (r: u64)
        ensures
            r == field_of(self.0, 0, 4),
    {
        get_field(self.0, 0, 4)
    }

    pub fn vmid_bits(&self) -> (r: u64)
        ensures
            r == field_of(self.0, 4, 4),
    {
        get_field(self.0, 4, 4)
    }

    pub fn vh(&self) -> (r: u64)
        ensures
            r == field_of(self.0, 8, 4),
    {
        get_field(self.0, 8, 4)
    }

    pub fn hpds(&self) -> (r: u64)
        ensures
            r == field_of(self.0, 12, 4),
    {
        get_field(self.0, 12, 4)
    }

    pub fn lo(&self) -> (r: u64)
        ensures
            r == field_of(self.0, 16, 4),
    {
        get_field(self.0, 16, 4)
    }

    pub fn pan(&self) -> (r: u64)
        ensures
            r == field_of(self.0, 20, 4),
    {
        get_field(self.0, 20, 4)
    }

    pub fn spec_sei(&self) -> (r: u64)
        ensures
            r == field_of(self.0, 24, 4),
    {
        get_field(self.0, 24, 4)
    }

    pub fn twed(&self) -> (r: u64)
        ensures
            r == field_of(self.0, 28, 4),
    {
        get_field(self.0, 28, 4)
    }

    pub fn xnx(&self) -> (r: u64)
        ensures
            r == field_of(self.0, 32, 4),
    {
        get_field(self.0, 32, 4)
    }

    pub fn ets(&self) -> (r: u64)
        ensures
            r == field_of(self.0, 36, 4),
    {
        get_field(self.0, 36, 4)
    }

    pub fn hcx(&self) -> (r: u64)
        ensures
            r == field_of(self.0, 40, 4),
    {
        get_field(self.0, 40, 4)
    }

    pub fn afp(&self) -> (r: u64)
        ensures
            r == field_of(self.0, 44, 4),
    {
        get_field(self.0, 44, 4)
    }

    pub fn n_tlbpa(&self) -> (r: u64)
        ensures
            r == field_of(self.0, 48, 4),
    {
        get_field(self.0, 48, 4)
    }

    pub fn tidcp1(&self) -> (r: u64)
        ensures
            r == field_of(self.0, 52, 4),
    {
        get_field(self.0, 52, 4)
    }

    pub fn cmow(&self) -> (r: u64)
        ensures
            r == field_of(self.0, 56, 4),
    {
        get_field(self.0, 56, 4)
    }

    pub fn ecbhb(&self) -> (r: u64)
        ensures
            r == field_of(self.0, 60, 4),
    {
        get_field(self.0, 60, 4)
    }
}

/// `ID_AA64MMFR2_EL1`: memory model features.
#[derive(Debug, Copy, Clone, PartialEq, Eq, Structural)]
pub struct MmFeatures2El1(pub u64);

impl MmFeatures2El1 {
    pub fn from_bits(bits: u64) -> (r: Self)
        ensures
            r.0 == bits,
    {
        Self(bits)
    }

    pub fn into_bits(self) -> (r: u64)
        ensures
            r == self.0,
    {
        self.0
    }

    pub fn cn_p(&self) -> (r: u64)
        ensures
            r == field_of(self.0, 0, 4),
    {
        get_field(self.0, 0, 4)
    }

    pub fn uao(&self) -> (r: u64)
        ensures
            r == field_of(self.0, 4, 4),
    {
        get_field(self.0, 4, 4)
    }

    pub fn lsm(&self) -> (r: u64)
        ensures
            r == field_of(self.0, 8, 4),
    {
        get_field(self.0, 8, 4)
    }

    pub fn iesb(&self) -> (r: u64)
        ensures
            r == field_of(self.0, 12, 4),
    {
        get_field(self.0, 12, 4)
    }

    pub fn va_range(&self) -> (r: u64)
        ensures
            r == field_of(self.0, 16, 4),
    {
        get_field(self.0, 16, 4)
    }

    pub fn ccidx(&self) -> (r: u64)
        ensures
            r == field_of(self.0, 20, 4),
    {
        get_field(self.0, 20, 4)
    }

    pub fn nv(&self) -> (r: u64)
        ensures
            r == field_of(self.0, 24, 4),
    {
        get_field(self.0, 24, 4)
    }

    pub fn st(&self) -> (r: u64)
        ensures
            r == field_of(self.0, 28, 4),
    {
        get_field(self.0, 28, 4)
    }

    pub fn at(&self) -> (r: u64)
        ensures
            r == field_of(self.0, 32, 4),
    {
        get_field(self.0, 32, 4)
    }

    pub fn ids(&self) -> (r: u64)
        ensures
            r == field_of(self.0, 36, 4),
    {
        get_field(self.0, 36, 4)
    }

    pub fn fwb(&self) -> (r: u64)
        ensures
            r == field_of(self.0, 40, 4),
    {
        get_field(self.0, 40, 4)
    }

    pub fn res0(&self) -> (r: u64)
        ensures
            r == field_of(self.0, 44, 4),
    {
        get_field(self.0, 44, 4)
    }

    pub fn ttl(&self) -> (r: u64)
        ensures
            r == field_of(self.0, 48, 4),
    {
        get_field(self.0, 48, 4)
    }

    pub fn bbm(&self) -> (r: u64)
        ensures
            r == field_of(self.0, 52, 4),
    {
        get_field(self.0, 52, 4)
    }

    pub fn evt(&self) -> (r: u64)
        ensures
            r == field_of(self.0, 56, 4),
    {
        get_field(self.0, 56, 4)
    }

    pub fn e0pd(&self) -> (r: u64)
        ensures
            r == field_of(self.0, 60, 4),
    {
        get_field(self.0, 60, 4)
    }
}

/// `ID_AA64MMFR3_EL1`: memory model features.
#[derive(Debug, Copy, Clone, PartialEq, Eq, Structural)]
pub struct MmFeatures3El1(pub u64);

impl MmFeatures3El1 {
    pub fn from_bits(bits: u64) -> (r: Self)
        ensures
            r.0 == bits,
    {
        Self(bits)
    }

    pub fn into_bits(self) -> (r: u64)
        ensures
            r == self.0,
    {
        self.0
    }

    pub fn tcrx(&self) -> (r: u64)
        ensures
            r == field_of(self.0, 0, 4),
    {
        get_field(self.0, 0, 4)
    }

    pub fn sctlrx(&self) -> (r: u64)
        ensures
            r == field_of(self.0, 4, 4),
    {
        get_field(self.0, 4, 4)
    }

    pub fn s1pie(&self) -> (r: u64)
        ensures
            r == field_of(self.0, 8, 4),
    {
        get_field(self.0, 8, 4)
    }

    pub fn s2pie(&self) -> (r: u64)
        ensures
            r == field_of(self.0, 12, 4),
    {
        get_field(self.0, 12, 4)
    }

    pub fn s1poe(&self) -> (r: u64)
        ensures
            r == field_of(self.0, 16, 4),
    {
        get_field(self.0, 16, 4)
    }

    pub fn s2poe(&self) -> (r: u64)
        ensures
            r == field_of(self.0, 20, 4),
    {
        get_field(self.0, 20, 4)
    }

    pub fn aie(&self) -> (r: u64)
        ensures
            r == field_of(self.0, 24, 4),
    {
        get_field(self.0, 24, 4)
    }

    pub fn mec(&self) -> (r: u64)
        ensures
            r == field_of(self.0, 28, 4),
    {
        get_field(self.0, 28, 4)
    }

    pub fn d128(&self) -> (r: u64)
        ensures
            r == field_of(self.0, 32, 4),
    {
        get_field(self.0, 32, 4)
    }

    pub fn d128_2(&self) -> (r: u64)
        ensures
            r == field_of(self.0, 36, 4),
    {
        get_field(self.0, 36, 4)
    }

    pub fn snerr(&self) -> (r: u64)
        ensures
            r == field_of(self.0, 40, 4),
    {
        get_field(self.0, 40, 4)
    }

    pub fn anerr(&self) -> (r: u64)
        ensures
            r == field_of(self.0, 44, 4),
    {
        get_field(self.0, 44, 4)
    }

    pub fn res0(&self) -> (r: u64)
        ensures
            r == field_of(self.0, 48, 4),
    {
        get_field(self.0, 48, 4)
    }

    pub fn sderr(&self) -> (r: u64)
        ensures
            r == field_of(self.0, 52, 4),
    {
        get_field(self.0, 52, 4)
    }

    pub fn aderr(&self) -> (r: u64)
        ensures
            r == field_of(self.0, 56, 4),
    {
        get_field(self.0, 56, 4)
    }

    pub fn spec_fpacc(&self) -> (r: u64)
        ensures
            r == field_of(self.0, 60, 4),
    {
        get_field(self.0, 60, 4)
    }
}

/// `ID_AA64MMFR4_EL1`: memory model features.
#[derive(Debug, Copy, Clone, PartialEq, Eq, Structural)]
pub struct MmFeatures4El1(pub u64);

impl MmFeatures4El1 {
    pub fn from_bits(bits: u64) -> (r: Self)
        ensures
            r.0 == bits,
    {
        Self(bits)
    }

    pub fn into_bits(self) -> (r: u64)
        ensures
            r == self.0,
    {
        self.0
    }

    pub fn eiesb(&self) -> (r: u64)
        ensures
            r == field_of(self.0, 4, 4),
    {
        get_field(self.0, 4, 4)
    }
}

/// A translation table descriptor that points to the next level table.
#[derive(Debug, Copy, Clone, PartialEq, Eq, Structural)]
pub struct PageTableEntry(pub u64);

impl PageTableEntry {
    pub fn from_bits(bits: u64) -> (r: Self)
        ensures
            r.0 == bits,
    {
        Self(bits)
    }

    pub fn into_bits(self) -> (r: u64)
        ensures
            r == self.0,
    {
        self.0
    }

    pub fn valid(&self) -> (r: bool)
        ensures
            r == (field_of(self.0, 0, 1) == 1),
    {
        get_field(self.0, 0, 1) == 1
    }

    pub fn table(&self) -> (r: bool)
        ensures
            r == (field_of(self.0, 1, 1) == 1),
    {
        get_field(self.0, 1, 1) == 1
    }

    pub fn next_table_pfn(&self) -> (r: u64)
        ensures
            r == field_of(self.0, 12, 35),
    {
        get_field(self.0, 12, 35)
    }

    pub fn priv_x_never(&self) -> (r: bool)
        ensures
            r == (field_of(self.0, 59, 1) == 1),
    {
        get_field(self.0, 59, 1) == 1
    }

    pub fn user_x_never(&self) -> (r: bool)
        ensures
            r == (field_of(self.0, 60, 1) == 1),
    {
        get_field(self.0, 60, 1) == 1
    }

    pub fn access_perm(&self) -> (r: u64)
        ensures
            r == field_of(self.0, 61, 2),
    {
        get_field(self.0, 61, 2)
    }

    pub fn non_secure(&self) -> (r: bool)
        ensures
            r == (field_of(self.0, 63, 1) == 1),
    {
        get_field(self.0, 63, 1) == 1
    }
}

/// A translation table descriptor that maps a block or a page.
#[derive(Debug, Copy, Clone, PartialEq, Eq, Structural)]
pub struct PageBlockEntry(pub u64);

impl PageBlockEntry {
    pub fn from_bits(bits: u64) -> (r: Self)
        ensures
            r.0 == bits,
    {
        Self(bits)
    }

    pub fn into_bits(self) -> (r: u64)
        ensures
            r == self.0,
    {
        self.0
    }

    pub fn valid(&self) -> (r: bool)
        ensures
            r == (field_of(self.0, 0, 1) == 1),
    {
        get_field(self.0, 0, 1) == 1
    }

    pub fn page(&self) -> (r: bool)
        ensures
            r == (field_of(self.0, 1, 1) == 1),
    {
        get_field(self.0, 1, 1) == 1
    }

    pub fn mair_idx(&self) -> (r: usize)
        ensures
            r == field_of(self.0, 2, 3),
    {
        let bits = self.0;
        let v = get_field(bits, 2, 3);
        proof {
            assert(field_of(bits, 2, 3) <= 7u64) by (bit_vector);
        }
        v as usize
    }

    pub fn access_perm(&self) -> (r: u64)
        ensures
            r == field_of(self.0, 6, 2),
    {
        get_field(self.0, 6, 2)
    }

    pub fn share_perm(&self) -> (r: u64)
        ensures
            r == field_of(self.0, 8, 2),
    {
        get_field(self.0, 8, 2)
    }

    pub fn accessed(&self) -> (r: bool)
        ensures
            r == (field_of(self.0, 10, 1) == 1),
    {
        get_field(self.0, 10, 1) == 1
    }

    pub fn not_global(&self) -> (r: bool)
        ensures
            r == (field_of(self.0, 11, 1) == 1),
    {
        get_field(self.0, 11, 1) == 1
    }

    pub fn address_pfn(&self) -> (r: u64)
        ensures
            r == field_of(self.0, 12, 35),
    {
        get_field(self.0, 12, 35)
    }

    pub fn dirty(&self) -> (r: bool)
        ensures
            r == (field_of(self.0, 51, 1) == 1),
    {
        get_field(self.0, 51, 1) == 1
    }

    pub fn contig(&self) -> (r: bool)
        ensures
            r == (field_of(self.0, 52, 1) == 1),
    {
        get_field(self.0, 52, 1) == 1
    }

    pub fn priv_x_never(&self) -> (r: bool)
        ensures
            r == (field_of(self.0, 53, 1) == 1),
    {
        get_field(self.0, 53, 1) == 1
    }

    pub fn user_x_never(&self) -> (r: bool)
        ensures
            r == (field_of(self.0, 54, 1) == 1),
    {
        get_field(self.0, 54, 1) == 1
    }
}

impl Aarch64Register for MainIdEl1 {
    fn name(&self) -> &'static str {
        "MIDR_EL1"
    }

    fn bits(&self) -> u64 {
        self.0
    }
}

impl Aarch64Register for ProcessorFeatures0El1 {
    fn name(&self) -> &'static str {
        "ID_AA64PFR0_EL1"
    }

    fn bits(&self) -> u64 {
        self.0
    }
}

impl Aarch64Register for ProcessorFeatures1El1 {
    fn name(&self) -> &'static str {
        "ID_AA64PFR1_EL1"
    }

    fn bits(&self) -> u64 {
        self.0
    }
}

impl Aarch64Register for MmFeatures0El1 {
    fn name(&self) -> &'static str {
        "ID_AA64MMFR0_EL1"
    }

    fn bits(&self) -> u64 {
        self.0
    }
}

impl Aarch64Register for MmFeatures1El1 {
    fn name(&self) -> &'static str {
        "ID_AA64MMFR1_EL1"
    }

    fn bits(&self) -> u64 {
        self.0
    }
}

impl Aarch64Register for MmFeatures2El1 {
    fn name(&self) -> &'static str {
        "ID_AA64MMFR2_EL1"
    }

    fn bits(&self) -> u64 {
        self.0
    }
}

impl Aarch64Register for MmFeatures3El1 {
    fn name(&self) -> &'static str {
        "ID_AA64MMFR3_EL1"
    }

    fn bits(&self) -> u64 {
        self.0
    }
}

impl Aarch64Register for MmFeatures4El1 {
    fn name(&self) -> &'static str {
        "ID_AA64MMFR4_EL1"
    }

    fn bits(&self) -> u64 {
        self.0
    }
}

impl Aarch64Register for CurrentEl {
    fn name(&self) -> &'static str {
        "CurrentEL"
    }

    fn bits(&self) -> u64 {
        self.0
    }
}

impl Aarch64Register for SystemControlEl1 {
    fn name(&self) -> &'static str {
        "SCTLR_EL1"
    }

    fn bits(&self) -> u64 {
        self.0
    }
}

impl Aarch64Register for VectorBaseEl1 {
    fn name(&self) -> &'static str {
        "VBAR_EL1"
    }

    fn bits(&self) -> u64 {
        self.0
    }
}

impl Aarch64Register for ExceptionLinkEl1 {
    fn name(&self) -> &'static str {
        "ELR_EL1"
    }

    fn bits(&self) -> u64 {
        self.0
    }
}

impl Aarch64Register for ExceptionSyndromeEl1 {
    fn name(&self) -> &'static str {
        "ESR_EL1"
    }

    fn bits(&self) -> u64 {
        self.0
    }
}

impl Aarch64Register for SavedProgramStateEl1 {
    fn name(&self) -> &'static str {
        "SPSR_EL1"
    }

    fn bits(&self) -> u64 {
        self.0
    }
}

impl Aarch64Register for TranslationControlEl1 {
    fn name(&self) -> &'static str {
        "TCR_EL1"
    }

    fn bits(&self) -> u64 {
        self.0
    }
}

impl Aarch64Register for TranslationBase0El1 {
    fn name(&self) -> &'static str {
        "TTBR0_EL1"
    }

    fn bits(&self) -> u64 {
        self.0
    }
}

impl Aarch64Register for TranslationBase1El1 {
    fn name(&self) -> &'static str {
        "TTBR1_EL1"
    }

    fn bits(&self) -> u64 {
        self.0
    }
}

impl Aarch64Register for MemoryAttributeIndirectionEl1 {
    fn name(&self) -> &'static str {
        "MAIR_EL1"
    }

    fn bits(&self) -> u64 {
        self.into_bits()
    }
}

} // verus!
