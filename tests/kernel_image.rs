use corgos::kernel_image::{loaded_image_size, ProgramSegment, PT_LOAD};

fn segment(p_type: u32, p_memsz: u64) -> ProgramSegment {
    ProgramSegment { p_type, p_memsz, p_filesz: 0, p_paddr: 0, p_vaddr: 0 }
}

#[test]
fn loadable_segments_in_whole_pages() {
    assert_eq!(loaded_image_size(&[]), Some(0));
    let segments = [
        segment(PT_LOAD, 1),
        segment(6, 0x10_0000),
        segment(PT_LOAD, 4096),
        segment(PT_LOAD, 4097),
        segment(PT_LOAD, 0),
    ];
    assert_eq!(loaded_image_size(&segments), Some(4096 + 4096 + 8192));
}

#[test]
fn too_large_an_image() {
    assert_eq!(loaded_image_size(&[segment(PT_LOAD, u64::MAX)]), None);
    assert_eq!(
        loaded_image_size(&[segment(PT_LOAD, u64::MAX - 8191), segment(PT_LOAD, 4096)]),
        Some(u64::MAX - 4095)
    );
    assert_eq!(
        loaded_image_size(&[segment(PT_LOAD, u64::MAX - 8191), segment(PT_LOAD, 4097)]),
        None
    );
}
