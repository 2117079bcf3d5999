use bump_allocator::{is_power_of_two, AllocError, EarlyAllocator};

#[test]
fn new_is_empty() {
    let a = EarlyAllocator::<0x1000>::new();
    assert_eq!(a.total_bytes(), 0);
    assert_eq!(a.used_bytes(), 0);
    assert_eq!(a.available_bytes(), 0);
    assert_eq!(a.total_pages(), 0);
    assert_eq!(a.used_pages(), 0);
    assert_eq!(a.available_pages(), 0);
    assert!(a.is_well_formed());
}

#[test]
fn init_resets_cursors() {
    let mut a = EarlyAllocator::<0x1000>::new();
    a.init(0x1000, 0x4000);
    assert!(a.is_well_formed());
    assert_eq!(a.total_bytes(), 0x4000);
    assert_eq!(a.used_bytes(), 0);
    assert_eq!(a.available_bytes(), 0x4000);
    // zero-sized requests reveal the cursors without moving them
    assert_eq!(a.alloc_bytes(0, 1), Ok(0x1000));
    assert_eq!(a.alloc_pages(0, 0x1000), Ok(0x5000));
    assert_eq!(a.used_bytes(), 0);
    assert_eq!(a.used_pages(), 0);
}

#[test]
fn byte_alloc_bumps_forward() {
    let mut a = EarlyAllocator::<0x1000>::new();
    a.init(0x1000, 0x4000);
    assert_eq!(a.alloc_bytes(16, 8), Ok(0x1000));
    assert_eq!(a.used_bytes(), 0x10);
    // the cursor now sits at 0x1010
    assert_eq!(a.alloc_bytes(0, 1), Ok(0x1010));
}

#[test]
fn byte_alloc_respects_alignment() {
    let mut a = EarlyAllocator::<0x1000>::new();
    a.init(0x1000, 0x4000);
    assert_eq!(a.alloc_bytes(1, 1), Ok(0x1000));
    let b = a.alloc_bytes(16, 0x10).unwrap();
    assert_eq!(b, 0x1010);
    for align in [1usize, 2, 4, 8, 0x10, 0x100] {
        let addr = a.alloc_bytes(3, align).unwrap();
        assert_eq!(addr % align, 0);
    }
    assert!(a.is_well_formed());
}

#[test]
fn byte_allocs_do_not_overlap() {
    let mut a = EarlyAllocator::<0x1000>::new();
    a.init(0x1000, 0x4000);
    let first = a.alloc_bytes(5, 1).unwrap();
    let second = a.alloc_bytes(7, 4).unwrap();
    let third = a.alloc_bytes(1, 2).unwrap();
    assert!(first + 5 <= second);
    assert!(second + 7 <= third);
}

#[test]
fn byte_alloc_out_of_memory() {
    let mut a = EarlyAllocator::<0x1000>::new();
    a.init(0x1000, 0x4000);
    assert_eq!(a.alloc_bytes(16, 8), Ok(0x1000));
    assert_eq!(a.alloc_pages(1, 0x1000), Ok(0x4000));
    // byte cursor is at 0x1010, page cursor at 0x4000: 0x3000 more bytes
    // would end at 0x4010, past the page cursor
    assert_eq!(a.alloc_bytes(0x3000, 1), Err(AllocError::NoMemory));
    // the failed request changed nothing
    assert_eq!(a.used_bytes(), 0x10);
    assert_eq!(a.available_bytes(), 0x2FF0);
}

#[test]
fn byte_alloc_exact_fit() {
    let mut a = EarlyAllocator::<0x1000>::new();
    a.init(0x2000, 0x1000);
    assert_eq!(a.alloc_bytes(0x1000, 1), Ok(0x2000));
    assert_eq!(a.available_bytes(), 0);
    assert_eq!(a.alloc_bytes(1, 1), Err(AllocError::NoMemory));
}

#[test]
fn page_alloc_moves_cursor_down() {
    let mut a = EarlyAllocator::<0x1000>::new();
    a.init(0x1000, 0x4000);
    assert_eq!(a.alloc_pages(1, 0x1000), Ok(0x4000));
    assert_eq!(a.used_pages(), 1);
    assert_eq!(a.total_pages(), 4);
    assert_eq!(a.available_pages(), 3);
    assert_eq!(a.alloc_pages(1, 0x1000), Ok(0x3000));
    assert_eq!(a.used_pages(), 2);
}

#[test]
fn page_alloc_address_is_page_aligned() {
    let mut a = EarlyAllocator::<0x1000>::new();
    a.init(0x1000, 0x9000);
    for _ in 0..4 {
        let addr = a.alloc_pages(2, 0x1000).unwrap();
        assert_eq!(addr % 0x1000, 0);
    }
    // one page of gap is left above the byte cursor
    assert_eq!(a.alloc_pages(1, 0x1000), Ok(0x1000));
    assert_eq!(a.alloc_pages(1, 0x1000), Err(AllocError::NoMemory));
}

#[test]
fn page_align_not_multiple_of_page_size() {
    let mut a = EarlyAllocator::<0x1000>::new();
    a.init(0x1000, 0x4000);
    assert_eq!(a.alloc_pages(1, 0x1800), Err(AllocError::InvalidParam));
    assert_eq!(a.alloc_pages(1, 1), Err(AllocError::InvalidParam));
    assert_eq!(a.used_pages(), 0);
}

#[test]
fn page_align_factor_not_power_of_two() {
    let mut a = EarlyAllocator::<0x1000>::new();
    a.init(0x1000, 0x4000);
    // 0x3000 is a multiple of the page size, but the factor 3 is not a
    // power of two
    assert_eq!(a.alloc_pages(1, 0x3000), Err(AllocError::InvalidParam));
    // factor 0 is not a power of two either
    assert_eq!(a.alloc_pages(1, 0), Err(AllocError::InvalidParam));
}

#[test]
fn page_align_factor_is_a_shift_amount() {
    let mut a = EarlyAllocator::<0x1000>::new();
    a.init(0, 0x10000);
    // requesting 0x2000-byte alignment gives factor 2, which is used as
    // a shift amount: the cursor is only rounded to a multiple of 4, so
    // the returned address need not be a multiple of 0x2000
    let addr = a.alloc_pages(1, 0x2000).unwrap();
    assert_eq!(addr, 0xF000);
    assert_ne!(addr % 0x2000, 0);
}

#[test]
fn page_alloc_out_of_memory() {
    let mut a = EarlyAllocator::<0x1000>::new();
    a.init(0x1000, 0x1000);
    assert_eq!(a.alloc_pages(2, 0x1000), Err(AllocError::NoMemory));
    assert_eq!(a.alloc_pages(1, 0x1000), Ok(0x1000));
    assert_eq!(a.alloc_pages(1, 0x1000), Err(AllocError::NoMemory));
}

#[test]
fn dealloc_changes_nothing() {
    let mut a = EarlyAllocator::<0x1000>::new();
    a.init(0x1000, 0x4000);
    let addr = a.alloc_bytes(32, 8).unwrap();
    let page = a.alloc_pages(1, 0x1000).unwrap();
    let used_b = a.used_bytes();
    let avail_b = a.available_bytes();
    let used_p = a.used_pages();
    let avail_p = a.available_pages();
    a.dealloc(addr, 32, 8);
    a.dealloc_pages(page, 1);
    assert_eq!(a.used_bytes(), used_b);
    assert_eq!(a.available_bytes(), avail_b);
    assert_eq!(a.used_pages(), used_p);
    assert_eq!(a.available_pages(), avail_p);
    assert_eq!(a.total_bytes(), 0x4000);
}

#[test]
fn byte_accounting_before_page_allocs() {
    let mut a = EarlyAllocator::<0x1000>::new();
    a.init(0x1000, 0x4000);
    assert_eq!(a.alloc_bytes(0x123, 1), Ok(0x1000));
    assert_eq!(a.used_bytes() + a.available_bytes(), a.total_bytes());
}

#[test]
fn page_accounting_before_byte_allocs() {
    let mut a = EarlyAllocator::<0x1000>::new();
    a.init(0x1000, 0x4000);
    assert_eq!(a.alloc_pages(1, 0x1000), Ok(0x4000));
    assert_eq!(a.used_pages() + a.available_pages(), a.total_pages());
}

#[test]
fn zone_accounting_holds_throughout() {
    let mut a = EarlyAllocator::<0x1000>::new();
    a.init(0x1000, 0x4000);
    let mut page_zone: usize = 0;
    assert_eq!(a.alloc_bytes(16, 8), Ok(0x1000));
    assert_eq!(a.used_bytes() + a.available_bytes() + page_zone, a.total_bytes());
    assert_eq!(a.alloc_pages(1, 0x1000), Ok(0x4000));
    page_zone += 0x1000;
    assert_eq!(a.used_bytes() + a.available_bytes() + page_zone, a.total_bytes());
    assert!(a.is_well_formed());
}

#[test]
fn power_of_two_check() {
    assert!(is_power_of_two(1));
    assert!(is_power_of_two(2));
    assert!(is_power_of_two(8));
    assert!(is_power_of_two(0x1000));
    assert!(!is_power_of_two(0));
    assert!(!is_power_of_two(3));
    assert!(!is_power_of_two(6));
    assert!(!is_power_of_two(0x1800));
}

#[test]
fn reinit_discards_allocations() {
    let mut a = EarlyAllocator::<0x1000>::new();
    a.init(0x1000, 0x4000);
    assert_eq!(a.alloc_bytes(64, 8), Ok(0x1000));
    a.init(0x8000, 0x2000);
    assert_eq!(a.used_bytes(), 0);
    assert_eq!(a.total_bytes(), 0x2000);
    assert_eq!(a.alloc_bytes(8, 8), Ok(0x8000));
}
