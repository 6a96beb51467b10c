use pager::{InternalKind, PagerError, PtrmapEntry, PtrmapType};
use pager::ptrmap::{
    entries_per_ptrmap_page, get_ptrmap_offset_in_page, get_ptrmap_page_no_for_db_page,
    is_ptrmap_page, MIN_PAGE_SIZE, PTRMAP_ENTRY_SIZE,
};

#[test]
fn test_is_ptrmap_page_logic() {
    let page_size = MIN_PAGE_SIZE as usize;
    let n_data_pages = entries_per_ptrmap_page(page_size);
    assert_eq!(n_data_pages, 102); //   512/5 = 102

    assert!(!is_ptrmap_page(1, page_size)); // Header
    assert!(is_ptrmap_page(2, page_size)); // first pointer-map page
    assert!(!is_ptrmap_page(3, page_size)); // data
    assert!(!is_ptrmap_page(4, page_size)); // data
    assert!(!is_ptrmap_page(5, page_size)); // data
    assert!(is_ptrmap_page(105, page_size)); // second pointer-map page
    assert!(!is_ptrmap_page(106, page_size)); // data
    assert!(!is_ptrmap_page(107, page_size)); // data
    assert!(!is_ptrmap_page(108, page_size)); // data
    assert!(is_ptrmap_page(208, page_size)); // third pointer-map page
}

#[test]
fn test_get_ptrmap_page_no() {
    let page_size = MIN_PAGE_SIZE as usize; // Maps 103 data pages

    // Test pages mapped by the first pointer-map page (page 2)
    assert_eq!(get_ptrmap_page_no_for_db_page(3, page_size), 2); // page 3 -> pointer-map page 2
    assert_eq!(get_ptrmap_page_no_for_db_page(4, page_size), 2); // page 4 -> pointer-map page 2
    assert_eq!(get_ptrmap_page_no_for_db_page(5, page_size), 2); // page 5 -> pointer-map page 2
    assert_eq!(get_ptrmap_page_no_for_db_page(104, page_size), 2); // page 104 -> pointer-map page 2

    assert_eq!(get_ptrmap_page_no_for_db_page(105, page_size), 105); // Page 105 is a pointer map page.

    // Test pages mapped by the second pointer-map page (page 105)
    assert_eq!(get_ptrmap_page_no_for_db_page(106, page_size), 105); // page 106 -> pointer-map page 105
    assert_eq!(get_ptrmap_page_no_for_db_page(107, page_size), 105); // page 107 -> pointer-map page 105
    assert_eq!(get_ptrmap_page_no_for_db_page(108, page_size), 105); // page 108 -> pointer-map page 105

    assert_eq!(get_ptrmap_page_no_for_db_page(208, page_size), 208); // Page 208 is a pointer map page.
}

#[test]
fn test_get_ptrmap_offset() {
    let page_size = MIN_PAGE_SIZE as usize; //  Maps 103 data pages

    assert_eq!(get_ptrmap_offset_in_page(3, 2, page_size).unwrap(), 0);
    assert_eq!(
        get_ptrmap_offset_in_page(4, 2, page_size).unwrap(),
        PTRMAP_ENTRY_SIZE
    );
    assert_eq!(
        get_ptrmap_offset_in_page(5, 2, page_size).unwrap(),
        2 * PTRMAP_ENTRY_SIZE
    );

    //  The second pointer-map page (page 105) maps pages 106 to 207
    // Page 106 is index 0 on page 105. Offset 0.
    // Page 107 is index 1 on page 105. Offset 5.
    // Page 108 is index 2 on page 105. Offset 10.
    assert_eq!(get_ptrmap_offset_in_page(106, 105, page_size).unwrap(), 0);
    assert_eq!(
        get_ptrmap_offset_in_page(107, 105, page_size).unwrap(),
        PTRMAP_ENTRY_SIZE
    );
    assert_eq!(
        get_ptrmap_offset_in_page(108, 105, page_size).unwrap(),
        2 * PTRMAP_ENTRY_SIZE
    );
}

#[test]
fn ptrmap_offset_math_for_small_pages() {
    assert_eq!(get_ptrmap_page_no_for_db_page(5, 512), 2);
    assert_eq!(get_ptrmap_offset_in_page(5, 2, 512), Ok(10));
    assert_eq!(get_ptrmap_page_no_for_db_page(106, 512), 105);
    assert_eq!(get_ptrmap_offset_in_page(108, 105, 512), Ok(10));
}

#[test]
fn ptrmap_pages_repeat_every_cycle() {
    assert_eq!(pager::ptrmap::ptrmap_page_cycle_length(512), 103);
    let mut found: Vec<u32> = Vec::new();
    let mut q: u32 = 1;
    while q <= 320 {
        if is_ptrmap_page(q, 512) {
            found.push(q);
        }
        q += 1;
    }
    assert_eq!(found, vec![2, 105, 208, 311]);
}

#[test]
fn ptrmap_page_of_any_page_is_a_ptrmap_page() {
    let sizes: [usize; 3] = [512, 4096, 65536];
    for page_size in sizes {
        let mut q: u32 = 2;
        while q < 3000 {
            let p = get_ptrmap_page_no_for_db_page(q, page_size);
            assert!(is_ptrmap_page(p, page_size));
            assert!(p <= q);
            q += 1;
        }
    }
}

#[test]
fn ptrmap_offsets_stay_inside_the_page() {
    let sizes: [usize; 2] = [512, 1024];
    for page_size in sizes {
        let mut q: u32 = 3;
        while q < 2000 {
            if !is_ptrmap_page(q, page_size) {
                let p = get_ptrmap_page_no_for_db_page(q, page_size);
                let offset = get_ptrmap_offset_in_page(q, p, page_size).unwrap();
                assert!(offset + PTRMAP_ENTRY_SIZE <= page_size);
                assert_eq!(offset, (q - p - 1) as usize * 5);
            }
            q += 1;
        }
    }
    // the last data page of the first group of a 512-byte database
    assert_eq!(get_ptrmap_offset_in_page(104, 2, 512), Ok(505));
}

#[test]
fn first_pages_for_every_page_size() {
    let sizes: [usize; 8] = [512, 1024, 2048, 4096, 8192, 16384, 32768, 65536];
    for page_size in sizes {
        assert!(!is_ptrmap_page(1, page_size));
        assert!(is_ptrmap_page(2, page_size));
        assert!(!is_ptrmap_page(3, page_size));
    }
    assert_eq!(entries_per_ptrmap_page(4096), 819);
    assert!(is_ptrmap_page(822, 4096));
}

#[test]
fn ptrmap_offset_refuses_pages_outside_the_group() {
    assert_eq!(
        get_ptrmap_offset_in_page(2, 2, 512),
        Err(PagerError::InternalError(InternalKind::PtrmapNotMapped))
    );
    assert_eq!(
        get_ptrmap_offset_in_page(105, 2, 512),
        Err(PagerError::InternalError(InternalKind::PtrmapNotMapped))
    );
    assert_eq!(
        get_ptrmap_offset_in_page(1, 2, 512),
        Err(PagerError::InternalError(InternalKind::PtrmapNotMapped))
    );
    // page 105 follows page 3 within 102 pages, but is a pointer-map page itself
    assert_eq!(
        get_ptrmap_offset_in_page(105, 3, 512),
        Err(PagerError::InternalError(InternalKind::PtrmapTarget))
    );
    assert_eq!(get_ptrmap_offset_in_page(u32::MAX, u32::MAX - 1, 512), Ok(0));
    assert_eq!(
        get_ptrmap_offset_in_page(5, u32::MAX, 512),
        Err(PagerError::InternalError(InternalKind::PtrmapNotMapped))
    );
}

#[test]
fn ptrmap_entry_round_trip() {
    let types = [
        PtrmapType::RootPage,
        PtrmapType::FreePage,
        PtrmapType::Overflow1,
        PtrmapType::Overflow2,
        PtrmapType::BTreeNode,
    ];
    let parents: [u32; 5] = [0, 1, 0x0102_0304, 0xdead_beef, u32::MAX];
    for entry_type in types {
        for parent_page_no in parents {
            let entry = PtrmapEntry { entry_type, parent_page_no };
            let mut buffer = [0xaau8; 7];
            assert_eq!(entry.serialize(&mut buffer), Ok(()));
            assert_eq!(buffer[5], 0xaa);
            assert_eq!(buffer[6], 0xaa);
            assert_eq!(PtrmapEntry::deserialize(&buffer), Some(entry));
        }
    }
}

#[test]
fn ptrmap_entry_wire_format() {
    let entry = PtrmapEntry { entry_type: PtrmapType::Overflow1, parent_page_no: 0x0102_0304 };
    let mut buffer = [0u8; 5];
    entry.serialize(&mut buffer).unwrap();
    assert_eq!(buffer, [3, 1, 2, 3, 4]);
    assert_eq!(
        PtrmapEntry::deserialize(&[5, 0, 0, 1, 0]),
        Some(PtrmapEntry { entry_type: PtrmapType::BTreeNode, parent_page_no: 256 })
    );
    assert_eq!(PtrmapEntry::deserialize(&[0, 0, 0, 0, 0]), None);
    assert_eq!(PtrmapEntry::deserialize(&[6, 0, 0, 0, 0]), None);
    assert_eq!(PtrmapEntry::deserialize(&[1, 0, 0, 0]), None);
    let mut short = [9u8; 4];
    assert_eq!(
        entry.serialize(&mut short),
        Err(PagerError::InternalError(InternalKind::BufferTooSmall))
    );
    assert_eq!(short, [9, 9, 9, 9]);
    assert_eq!(PtrmapType::from_u8(1), Some(PtrmapType::RootPage));
    assert_eq!(PtrmapType::from_u8(2), Some(PtrmapType::FreePage));
    assert_eq!(PtrmapType::from_u8(4), Some(PtrmapType::Overflow2));
    assert_eq!(PtrmapType::from_u8(0), None);
    assert_eq!(PtrmapType::from_u8(6), None);
    assert_eq!(PtrmapType::BTreeNode.to_u8(), 5);
}
