use corgos::bits::collapse_8bit_and;
use corgos::geometry::page_bitmap_level_size;
use corgos::pl011::{id_register, idle, pl011_id, tx_ready, Pl011Register};
use corgos::page_bitmap::{
    DefaultPageBitmap, PageBitmapError, PageBitmapRelocation, PageFrameNumber, PageRange,
};

fn storage(max_memory: usize, fill: u64) -> Vec<u64> {
    let bitmap_size = DefaultPageBitmap::bitmap_storage_size(max_memory);
    vec![fill; bitmap_size / 8]
}

fn range(start: usize, count: usize) -> PageRange {
    PageRange::new(PageFrameNumber::new(start), count)
}

fn in_ranges(ranges: &[PageRange], pfn: usize) -> bool {
    ranges
        .iter()
        .any(|r| r.start_pfn.pfn() <= pfn && pfn < r.start_pfn.pfn() + r.page_count())
}

#[test]
fn test_page_bitmap_size() {
    let max_memory = 4096;
    let size = page_bitmap_level_size(max_memory);
    assert!(size == [8, 8, 8, 8, 8, 8, 8, 8]);

    let max_memory = 4096 * 7;
    let size = page_bitmap_level_size(max_memory);
    assert!(size == [8, 8, 8, 8, 8, 8, 8, 8]);

    let max_memory = 4096 * 9;
    let size = page_bitmap_level_size(max_memory);
    assert!(size == [8, 8, 8, 8, 8, 8, 8, 8]);

    let max_memory = (1 << 20) + 4096;
    let size = page_bitmap_level_size(max_memory);
    assert!(size == [40, 8, 8, 8, 8, 8, 8, 8]);

    let max_memory = 1 << 21;
    let size = page_bitmap_level_size(max_memory);
    assert!(size == [64, 8, 8, 8, 8, 8, 8, 8]);

    let max_memory = (1 << 21) + 4096;
    let size = page_bitmap_level_size(max_memory);
    assert!(size == [72, 8, 8, 8, 8, 8, 8, 8]);

    let max_memory = 1 << 30;
    let size = page_bitmap_level_size(max_memory);
    assert!(size == [32768, 4096, 512, 64, 8, 8, 8, 8]);

    let max_memory = (1 << 30) + 4096;
    let size = page_bitmap_level_size(max_memory);
    assert!(size == [32776, 4096, 512, 64, 8, 8, 8, 8]);

    let max_memory = 64 << 30;
    let size = page_bitmap_level_size(max_memory);
    assert!(size == [2097152, 262144, 32768, 4096, 512, 64, 8, 8]);
}

#[test]
fn bitmap_storage_size_sums_levels() {
    assert_eq!(DefaultPageBitmap::bitmap_storage_size(4096), 64);
    assert_eq!(DefaultPageBitmap::bitmap_storage_size(1 << 30), 32768 + 4096 + 512 + 64 + 32);
    assert_eq!(
        DefaultPageBitmap::bitmap_storage_size(64 << 30),
        2097152 + 262144 + 32768 + 4096 + 512 + 64 + 16
    );
}

#[test]
fn test_alloc_page() {
    let max_memory = 4096;

    {
        // No free pages.
        let bitmap_storage = storage(max_memory, 0xaaaaaaaaaaaaaaaa);
        let mut bitmap = DefaultPageBitmap::new(max_memory, bitmap_storage, &[]);
        assert!(bitmap.available_pages() == 0);
        assert!(bitmap.allocate_page() == Err(PageBitmapError::OutOfMemory));
    }

    {
        let available_pages = [range(0, 1)];
        let bitmap_storage = storage(max_memory, 0);
        let mut bitmap = DefaultPageBitmap::new(max_memory, bitmap_storage, &available_pages);
        assert!(bitmap.available_pages() == 1);
        assert!(bitmap.allocate_page() == Ok(PageFrameNumber::new(0)));
    }
}

fn check_alloc_free(pages: usize, available_pages: &[PageRange], reserved_pages: &[PageRange]) {
    let max_memory = pages * 4096;
    let available_pages_count: usize = available_pages.iter().map(|r| r.page_count()).sum();
    let non_available_pages_count: usize = reserved_pages.iter().map(|r| r.page_count()).sum();
    assert!(available_pages_count + non_available_pages_count == pages);

    let mut bitmap =
        DefaultPageBitmap::new(max_memory, storage(max_memory, 0), available_pages);
    assert!(bitmap.available_pages() == available_pages_count);

    for range in available_pages.iter() {
        for pfn in range.start_pfn.pfn()..range.start_pfn.pfn() + range.page_count() {
            assert!(bitmap.is_page_free(PageFrameNumber::new(pfn)));
        }
    }
    for range in reserved_pages.iter() {
        for pfn in range.start_pfn.pfn()..range.start_pfn.pfn() + range.page_count() {
            assert!(!bitmap.is_page_free(PageFrameNumber::new(pfn)));
        }
    }

    let mut available_pages_vec = Vec::new();
    for range in available_pages.iter() {
        for pfn in range.start_pfn.pfn()..range.start_pfn.pfn() + range.page_count() {
            available_pages_vec.push(PageFrameNumber::new(pfn));
        }
    }

    // Every available page is handed out, lowest first.
    for i in 0..available_pages_count {
        assert!(bitmap.available_pages() == available_pages_count - i);
        assert!(bitmap.allocate_page() == Ok(available_pages_vec[i]));
    }
    assert!(bitmap.available_pages() == 0);
    assert!(bitmap.allocate_page() == Err(PageBitmapError::OutOfMemory));
    assert!(bitmap.available_pages() == 0);

    // Build array of non available pages
    let mut non_available_pages_vec = Vec::new();
    for range in reserved_pages.iter() {
        for pfn in range.start_pfn.pfn()..range.start_pfn.pfn() + range.page_count() {
            non_available_pages_vec.push(PageFrameNumber::new(pfn));
        }
    }

    // Check that we can't free non available pages
    for pfn in non_available_pages_vec.iter() {
        assert!(bitmap.is_page_reserved(*pfn));
        assert!(bitmap.free_page(*pfn) == Err(PageBitmapError::PageIsReserved));
    }

    // Every page handed out can be freed again.
    for i in 0..available_pages_count {
        assert!(bitmap.free_page(available_pages_vec[i]) == Ok(()));
        assert!(bitmap.is_page_free(available_pages_vec[i]));
    }

    // Freeing them a second time is refused.
    for i in 0..available_pages_count {
        assert!(bitmap.free_page(available_pages_vec[i]) == Err(PageBitmapError::PageIsNotAllocated));
        assert!(bitmap.is_page_free(available_pages_vec[i]));
    }

    // Check that we can't free non available pages
    for pfn in non_available_pages_vec.iter() {
        assert!(bitmap.is_page_reserved(*pfn));
        assert!(bitmap.free_page(*pfn) == Err(PageBitmapError::PageIsReserved));
        assert!(!bitmap.is_page_free(*pfn));
    }

    // Check the amount of available pages
    assert!(bitmap.available_pages() == available_pages_count);
}

#[test]
fn test_alloc_free_pages() {
    let available_pages = [
        range(0, 1),
        range(63, 2),
        range(91, 4),
        range(97, 7),
        range(125, 17),
        range(193, 177),
    ];
    let reserved_pages = [
        range(1, 62),
        range(65, 26),
        range(95, 2),
        range(104, 21),
        range(142, 51),
        range(370, 407),
    ];
    check_alloc_free(777, &available_pages, &reserved_pages);
}

#[test]
fn concrete_scenario_777_pages() {
    let available_pages = [range(91, 4), range(97, 7), range(125, 17), range(193, 177)];
    let reserved_pages = [
        range(0, 91),
        range(95, 2),
        range(104, 21),
        range(142, 51),
        range(370, 407),
    ];
    check_alloc_free(777, &available_pages, &reserved_pages);
}

#[test]
fn round_trip_allocation_hands_out_every_page_once() {
    let pages = 5000;
    let max_memory = pages * 4096;
    let available = [range(3, 1), range(64, 64), range(200, 300), range(1000, 1), range(4095, 700)];
    let k: usize = available.iter().map(|r| r.page_count()).sum();
    let mut bitmap = DefaultPageBitmap::new(max_memory, storage(max_memory, 0x5555), &available);
    let mut seen = vec![false; pages];
    for _ in 0..k {
        let p = bitmap.allocate_page().unwrap().pfn();
        assert!(in_ranges(&available, p));
        assert!(!seen[p]);
        seen[p] = true;
    }
    assert_eq!(bitmap.allocate_page(), Err(PageBitmapError::OutOfMemory));
}

#[test]
fn free_undoes_allocate() {
    let max_memory = 100 * 4096;
    let mut bitmap = DefaultPageBitmap::new(max_memory, storage(max_memory, 0), &[range(10, 20)]);
    let before = bitmap.available_pages();
    let p = bitmap.allocate_page().unwrap();
    assert_eq!(p, PageFrameNumber::new(10));
    assert!(!bitmap.is_page_free(p));
    assert_eq!(bitmap.available_pages(), before - 1);
    assert_eq!(bitmap.free_page(p), Ok(()));
    assert!(bitmap.is_page_free(p));
    assert_eq!(bitmap.available_pages(), before);
    assert_eq!(bitmap.free_page(p), Err(PageBitmapError::PageIsNotAllocated));
    assert_eq!(bitmap.available_pages(), before);
}

#[test]
fn reserved_pages_are_never_allocated() {
    let max_memory = 300 * 4096;
    let available = [range(0, 10), range(250, 50)];
    let mut bitmap = DefaultPageBitmap::new(max_memory, storage(max_memory, !0), &available);
    while let Ok(p) = bitmap.allocate_page() {
        assert!(in_ranges(&available, p.pfn()));
    }
    for pfn in 10..250 {
        assert!(!bitmap.is_page_free(PageFrameNumber::new(pfn)));
        assert_eq!(bitmap.free_page(PageFrameNumber::new(pfn)), Err(PageBitmapError::PageIsReserved));
        assert!(!bitmap.is_page_free(PageFrameNumber::new(pfn)));
    }
    assert_eq!(bitmap.available_pages(), 0);
}

#[test]
fn boundary_alignment_matches_naive_reference() {
    let pages = 3 * 512 + 77;
    let max_memory = pages * 4096;
    let cases: [&[PageRange]; 6] = [
        // Start and end in the middle of a word.
        &[range(5, 50)],
        // Exactly one word, on word boundaries.
        &[range(64, 64)],
        // A single bit, at the start, in the middle and at the end of words.
        &[range(0, 1), range(100, 1), range(127, 1), range(pages - 1, 1)],
        // Across several words and level-1 blocks.
        &[range(60, 1000)],
        // Ending on a word boundary, starting mid-word.
        &[range(30, 98), range(512, 512)],
        // Everything.
        &[range(0, pages)],
    ];
    for ranges in cases.iter() {
        let mut bitmap = DefaultPageBitmap::new(max_memory, storage(max_memory, 0), ranges);
        for pfn in 0..pages {
            assert_eq!(bitmap.is_page_free(PageFrameNumber::new(pfn)), in_ranges(ranges, pfn));
        }
        let mut last = None;
        while let Ok(p) = bitmap.allocate_page() {
            assert!(in_ranges(ranges, p.pfn()));
            if let Some(l) = last {
                assert!(l < p.pfn());
            }
            last = Some(p.pfn());
        }
    }
}

#[test]
fn untrackable_tail_page() {
    // 513 pages: level 1 has room for 64 blocks of 8 pages, so page 512 has
    // no block in level 1.
    let max_memory = (1 << 21) + 4096;
    let bitmap = DefaultPageBitmap::new(max_memory, storage(max_memory, 0), &[range(0, 512)]);
    assert!(bitmap.tracks_page(PageFrameNumber::new(511)));
    assert!(!bitmap.tracks_page(PageFrameNumber::new(512)));
    assert!(!bitmap.tracks_page(PageFrameNumber::new(513)));
    let mut bitmap = bitmap;
    // The untracked tail page is reserved, so freeing it is refused.
    assert_eq!(bitmap.free_page(PageFrameNumber::new(512)), Err(PageBitmapError::PageIsReserved));
    assert_eq!(bitmap.available_pages(), 512);
    assert_eq!(bitmap.max_memory(), max_memory);
    assert_eq!(bitmap.levels_number(), 8);
    assert_eq!(bitmap.size(), 72 + 7 * 8);
}

#[test]
fn collapse_all_byte_patterns() {
    for b in 0..=255u64 {
        let x = b * 0x0101_0101_0101_0101;
        let expected = if b == 0xff { 0xff } else { 0 };
        assert_eq!(collapse_8bit_and(x), expected, "pattern {b:#x}");
    }
}

#[test]
fn collapse_matches_naive_reference() {
    let naive = |x: u64| -> u8 {
        let mut r = 0u8;
        for i in 0..8 {
            if (x >> (8 * i)) & 0xff == 0xff {
                r |= 1 << i;
            }
        }
        r
    };
    let words = [
        0u64,
        !0,
        0xfeff,
        0x00ff_00ff_00ff_00ff,
        0xff00_ff00_ff00_ff00,
        0x7fff_ffff_ffff_ffff,
        0xffff_ffff_ffff_fffe,
        0x0102_0304_ff80_7fff,
        0x8000_0000_0000_00ff,
    ];
    for &x in words.iter() {
        assert_eq!(collapse_8bit_and(x), naive(x), "word {x:#x}");
    }
    assert_eq!(collapse_8bit_and(0xfeff), 0b0000_0001);
}

#[test]
fn page_numbers_and_ranges() {
    let p = PageFrameNumber::new(3);
    assert_eq!(p.pfn(), 3);
    assert_eq!(p.phys_address(), 3 * 4096);
    let r = range(2, 5);
    assert_eq!(r.start_phys_address(), 2 * 4096);
    assert_eq!(r.end_phys_address(), 7 * 4096);
    assert_eq!(r.page_count(), 5);
    assert_eq!(r.size(), 5 * 4096);
    assert_eq!(PageBitmapRelocation::NotRelocated.amount(), 0);
    assert_eq!(PageBitmapRelocation::Relocate(0x1000).amount(), 0x1000);
}

#[test]
fn dump_lists_every_level() {
    let max_memory = 4096;
    let bitmap = DefaultPageBitmap::new(max_memory, storage(max_memory, 0), &[range(0, 1)]);
    let mut expected = String::from("*** PAGE BITMAP, available pages: 1\n");
    for level in 0..8 {
        expected.push_str(&format!(">>> Level {level}, starts @ {level}, size 1\n"));
        expected.push_str(&format!("\t|0{}| # 0..64\n", "1".repeat(63)));
    }
    assert_eq!(bitmap.dump(), expected);
}

#[test]
fn dump_counts_blocks_per_word() {
    let max_memory = 200 * 4096;
    let bitmap = DefaultPageBitmap::new(max_memory, storage(max_memory, 0), &[range(64, 64)]);
    let text = bitmap.dump();
    assert!(text.starts_with("*** PAGE BITMAP, available pages: 64\n>>> Level 0, starts @ 0, size 4\n"));
    assert!(text.contains(&format!("\t|{}| # 0..64\n", "1".repeat(64))));
    assert!(text.contains(&format!("\t|{}| # 64..128\n", "0".repeat(64))));
    assert!(text.contains(&format!("\t|{}| # 192..256\n", "1".repeat(64))));
    assert!(text.contains(">>> Level 1, starts @ 4, size 1\n"));
}

#[test]
fn pl011_identification() {
    let values = [0x11, 0x10, 0x14, 0x00, 0x0d, 0xf0, 0x05, 0xb1];
    assert_eq!(pl011_id(&values), 0x1110_1400_0df0_05b1);
    assert_eq!(pl011_id(&[0x1ff, 0, 0, 0, 0, 0, 0, 0x1ab]), 0xff00_0000_0000_00ab);
    assert_eq!(id_register(0), Pl011Register::PeriphID0);
    assert_eq!(id_register(7).offset(), 0xffc);
    assert_eq!(Pl011Register::Fr.offset(), 0x18);
    assert!(tx_ready(0x90));
    assert!(!tx_ready(0x20));
    assert!(idle(0x90));
    assert!(!idle(0x08));
}
