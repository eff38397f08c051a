use corgos::page_bitmap::{
    DefaultPageBitmap, PageBitmap, PageBitmapHeader, PageBitmapRelocation, PageFrameNumber,
    PageRange, PAGE_BITMAP_HEADER_WORDS,
};

fn ranges() -> [PageRange; 2] {
    [PageRange::new(PageFrameNumber::new(16), 100), PageRange::new(PageFrameNumber::new(300), 40)]
}

fn built(max_memory: usize) -> DefaultPageBitmap {
    let storage = vec![0u64; DefaultPageBitmap::bitmap_storage_size(max_memory) / 8];
    DefaultPageBitmap::new(max_memory, storage, &ranges())
}

#[test]
fn handoff_with_relocation_keeps_the_state() {
    let max_memory = 1024 * 4096;
    let mut bitmap = built(max_memory);
    for _ in 0..5 {
        bitmap.allocate_page().unwrap();
    }
    let available = bitmap.available_pages();
    let header = bitmap.header(0x4000_0000);
    let words = header.to_words();
    assert_eq!(words.len(), PAGE_BITMAP_HEADER_WORDS);
    assert_eq!(words[0], 0x305f4d7442656750);
    // "PgeBtM_0" .. "PgeBtM_6" in little-endian byte order, one before each field.
    for (i, digit) in [(0, b'0'), (2, b'1'), (4, b'2'), (6, b'3'), (8, b'4'), (10, b'5'), (19, b'6')] {
        let bytes = words[i].to_le_bytes();
        assert_eq!(&bytes[..7], b"PgeBtM_");
        assert_eq!(bytes[7], digit);
    }
    let storage = bitmap.into_storage();

    let moved = PageBitmapHeader::from_words(&words, &PageBitmapRelocation::Relocate(0x1000)).unwrap();
    assert_eq!(moved.bitmap_address, 0x4000_1000);
    assert_eq!(moved.max_memory, max_memory as u64);
    assert_eq!(moved.available_pages, available as u64);

    let mut kernel = PageBitmap::from_header(moved, storage, &ranges()).unwrap();
    assert_eq!(kernel.available_pages(), available);
    assert!(!kernel.is_page_free(PageFrameNumber::new(16)));
    assert!(kernel.is_page_free(PageFrameNumber::new(21)));
    assert_eq!(kernel.allocate_page(), Ok(PageFrameNumber::new(21)));
    assert_eq!(kernel.free_page(PageFrameNumber::new(5)), Err(corgos::page_bitmap::PageBitmapError::PageIsReserved));
}

#[test]
fn unmoved_header_keeps_the_address() {
    let bitmap = built(512 * 4096);
    let words = bitmap.header(0x1234_5000).to_words();
    let header = PageBitmapHeader::from_words(&words, &PageBitmapRelocation::NotRelocated).unwrap();
    assert_eq!(header.bitmap_address, 0x1234_5000);
}

#[test]
fn damaged_header_is_refused() {
    let bitmap = built(512 * 4096);
    let words = bitmap.header(0x1000).to_words();
    for i in [0, 2, 4, 5, 6, 7, 8, 10, 11, 19] {
        let mut bad = words.clone();
        bad[i] ^= 1;
        assert_eq!(
            PageBitmapHeader::from_words(&bad, &PageBitmapRelocation::NotRelocated),
            None,
            "word {i}"
        );
    }
    assert_eq!(PageBitmapHeader::from_words(&words[..27], &PageBitmapRelocation::NotRelocated), None);
    let mut bad = words.clone();
    bad[1] = 4097;
    assert_eq!(PageBitmapHeader::from_words(&bad, &PageBitmapRelocation::NotRelocated), None);
    let mut far = words.clone();
    far[9] = u64::MAX;
    assert_eq!(PageBitmapHeader::from_words(&far, &PageBitmapRelocation::Relocate(1)), None);
}

#[test]
fn inconsistent_storage_is_refused() {
    let max_memory = 1024 * 4096;
    let bitmap = built(max_memory);
    let header = bitmap.header(0);
    let storage = bitmap.into_storage();

    // A page freed behind the levels' back.
    let mut bad = storage.clone();
    bad[0] &= !1;
    assert!(PageBitmap::from_header(header, bad, &ranges()).is_none());

    // A count of free pages that does not match the words.
    let mut wrong_count = header;
    wrong_count.available_pages += 1;
    assert!(PageBitmap::from_header(wrong_count, storage.clone(), &ranges()).is_none());

    // Levels placed elsewhere than the geometry puts them.
    let mut wrong_layout = header;
    wrong_layout.level_start[1] += 1;
    assert!(PageBitmap::from_header(wrong_layout, storage.clone(), &ranges()).is_none());

    // Free pages outside the ranges, or ranges that overlap.
    let fewer = [PageRange::new(PageFrameNumber::new(16), 100)];
    assert!(PageBitmap::from_header(header, storage.clone(), &fewer).is_none());
    let overlapping = [
        PageRange::new(PageFrameNumber::new(16), 100),
        PageRange::new(PageFrameNumber::new(300), 40),
        PageRange::new(PageFrameNumber::new(330), 20),
    ];
    assert!(PageBitmap::from_header(header, storage.clone(), &overlapping).is_none());

    // Too little storage.
    let short = storage[..storage.len() - 1].to_vec();
    assert!(PageBitmap::from_header(header, short, &ranges()).is_none());

    assert!(PageBitmap::from_header(header, storage, &ranges()).is_some());
}
