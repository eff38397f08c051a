use corgos::uefi_guids::{get_uefi_known_guids_count, get_uefi_table_name, known_table, Guid};

#[test]
fn known_and_unknown_tables() {
    assert_eq!(get_uefi_known_guids_count(), 12);
    assert_eq!(
        get_uefi_table_name(&Guid(0x8868e871_e4f1_11d3_bc22_0080c73c8881)),
        "EfiAcpi20TableGuid"
    );
    assert_eq!(
        get_uefi_table_name(&Guid(0xeb9d2d31_2d88_11d3_9a16_0090273fc14d)),
        "EfiSmbiosTableGuid"
    );
    assert_eq!(get_uefi_table_name(&Guid(0)), "Unknown table GUID");
    for i in 0..get_uefi_known_guids_count() {
        let t = known_table(i);
        assert_eq!(get_uefi_table_name(&t.guid), t.name);
    }
}
