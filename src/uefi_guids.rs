//! Names of the configuration tables UEFI firmware may publish, by GUID.

use vstd::prelude::*;

verus! {

/// A GUID as the 128-bit number its text spells, most significant digit
/// first: `8868e871-e4f1-11d3-bc22-0080c73c8881` is
/// `0x8868e871_e4f1_11d3_bc22_0080c73c8881`.
#[derive(Debug, Copy, Clone, PartialEq, Eq, Structural)]
pub struct Guid(pub u128);

/// A known table: its GUID and its name.
#[derive(Debug, Copy, Clone)]
pub struct UefiTableGuidName {
    pub guid: Guid,
    pub name: &'static str,
}

/// Number of tables with a known name.
pub const KNOWN_TABLES: usize = 12;

/// GUID of the `i`-th known table.
pub open spec fn known_guid(i: int) -> u128 {
    if i == 0 {
        0x05ad34ba_6f02_4214_952e_4da0398e2bb9
    } else if i == 1 {
        0x060cc026_4c0d_4dda_8f41_595fef00a502
    } else if i == 2 {
        0x49152e77_1ada_4764_b7a2_7afefed95e8b
    } else if i == 3 {
        0x4c19049f_4137_4dd3_9c10_8b97a83ffdfa
    } else if i == 4 {
        0x7739f24c_93d7_11d4_9a3a_0090273fc14d
    } else if i == 5 {
        0x8868e871_e4f1_11d3_bc22_0080c73c8881
    } else if i == 6 {
        0xdcfa911d_26eb_469f_a220_38b7dc461220
    } else if i == 7 {
        0xeb9d2d30_2d88_11d3_9a16_0090273fc14d
    } else if i == 8 {
        0xeb9d2d31_2d88_11d3_9a16_0090273fc14d
    } else if i == 9 {
        0xee4e5898_3914_4259_9d6e_dc7bd79403cf
    } else if i == 10 {
        0xf2fd1544_9794_4a2c_992e_e5bbcf20e394
    } else {
        0xfc1bcdb0_7d31_49aa_936a_a4600d9dd083
    }
}

/// Name of the `i`-th known table.
pub open spec fn known_name(i: int) -> &'static str {
    if i == 0 {
        "EfiDxeServicesTableGuid"
    } else if i == 1 {
        "MemoryStatusCodeRecordGuid"
    } else if i == 2 {
        "EfiDebugImageInfoTableGuid"
    } else if i == 3 {
        "EfiMemoryTypeInformationGuid"
    } else if i == 4 {
        "EfiHobListGuid"
    } else if i == 5 {
        "EfiAcpi20TableGuid"
    } else if i == 6 {
        "EfiMemoryAttributesTableGuid"
    } else if i == 7 {
        "EfiAcpi10TableGuid"
    } else if i == 8 {
        "EfiSmbiosTableGuid"
    } else if i == 9 {
        "LzmaCustomDecompressGuid"
    } else if i == 10 {
        "EfiSmbios3TableGuid"
    } else {
        "EfiCrc32GuidedSectionExtractionGuid"
    }
}

/// The name given for a table with an unknown GUID.
pub open spec fn unknown_name() -> &'static str {
    "Unknown table GUID"
}

/// The `i`-th known table.
pub fn known_table(i: usize) -> (r: UefiTableGuidName)
    requires
        i < KNOWN_TABLES,
    ensures
        r.guid.0 == known_guid(i as int),
        r.name == known_name(i as int),
{
    let guid = if i == 0 {
                0x05ad34ba_6f02_4214_952e_4da0398e2bb9
        } else if i == 1 {
                0x060cc026_4c0d_4dda_8f41_595fef00a502
        } else if i == 2 {
                0x49152e77_1ada_4764_b7a2_7afefed95e8b
        } else if i == 3 {
                0x4c19049f_4137_4dd3_9c10_8b97a83ffdfa
        } else if i == 4 {
                0x7739f24c_93d7_11d4_9a3a_0090273fc14d
        } else if i == 5 {
                0x8868e871_e4f1_11d3_bc22_0080c73c8881
        } else if i == 6 {
                0xdcfa911d_26eb_469f_a220_38b7dc461220
        } else if i == 7 {
                0xeb9d2d30_2d88_11d3_9a16_0090273fc14d
        } else if i == 8 {
                0xeb9d2d31_2d88_11d3_9a16_0090273fc14d
        } else if i == 9 {
                0xee4e5898_3914_4259_9d6e_dc7bd79403cf
        } else if i == 10 {
                0xf2fd1544_9794_4a2c_992e_e5bbcf20e394
        } else {
                0xfc1bcdb0_7d31_49aa_936a_a4600d9dd083
        };
    let name = if i == 0 {
                "EfiDxeServicesTableGuid"
        } else if i == 1 {
                "MemoryStatusCodeRecordGuid"
        } else if i == 2 {
                "EfiDebugImageInfoTableGuid"
        } else if i == 3 {
                "EfiMemoryTypeInformationGuid"
        } else if i == 4 {
                "EfiHobListGuid"
        } else if i == 5 {
                "EfiAcpi20TableGuid"
        } else if i == 6 {
                "EfiMemoryAttributesTableGuid"
        } else if i == 7 {
                "EfiAcpi10TableGuid"
        } else if i == 8 {
                "EfiSmbiosTableGuid"
        } else if i == 9 {
                "LzmaCustomDecompressGuid"
        } else if i == 10 {
                "EfiSmbios3TableGuid"
        } else {
                "EfiCrc32GuidedSectionExtractionGuid"
        };
    UefiTableGuidName { guid: Guid(guid), name }
}

/// The name of the table with `guid`, or `"Unknown table GUID"`.
pub fn get_uefi_table_name(guid: &Guid) -> (r: &'static str)
    ensures
        (exists|i: int| 0 <= i < KNOWN_TABLES && known_guid(i) == guid.0) ==> exists|i: int|
            0 <= i < KNOWN_TABLES && known_guid(i) == guid.0 && r == known_name(i),
        (forall|i: int| 0 <= i < KNOWN_TABLES ==> known_guid(i) != guid.0) ==> r == unknown_name(),
{
    let mut i: usize = 0;
    while i < KNOWN_TABLES
        invariant
            i <= KNOWN_TABLES,
            forall|j: int| 0 <= j < i ==> known_guid(j) != guid.0,
        decreases KNOWN_TABLES - i,
    {
        let table = known_table(i);
        if table.guid.0 == guid.0 {
            return table.name;
        }
        i += 1;
    }
    "Unknown table GUID"
}

/// Number of tables with a known name.
pub fn get_uefi_known_guids_count() -> (r: usize)
    ensures
        r == KNOWN_TABLES,
{
    KNOWN_TABLES
}

} // verus!
