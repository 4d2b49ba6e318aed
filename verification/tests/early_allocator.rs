use bump_allocator::align::is_power_of_two;
use bump_allocator::{AllocError, AllocResult, EarlyAllocator};

const PAGE: usize = 0x1000;

fn bound(start: usize, size: usize) -> EarlyAllocator<PAGE> {
    let mut a = EarlyAllocator::<PAGE>::new();
    a.init(start, size);
    a
}

#[test]
fn new_is_unbound() {
    let a = EarlyAllocator::<PAGE>::new();
    assert_eq!(a.total_bytes(), 0);
    assert_eq!(a.used_bytes(), 0);
    assert_eq!(a.available_bytes(), 0);
    assert_eq!(a.total_pages(), 0);
    assert_eq!(a.used_pages(), 0);
    assert_eq!(a.available_pages(), 0);
}

#[test]
fn unbound_refuses_bytes_and_pages() {
    let mut a = EarlyAllocator::<PAGE>::new();
    assert_eq!(a.alloc_bytes(1, 1), Err(AllocError::NoMemory));
    assert_eq!(a.alloc_pages(1, PAGE), Err(AllocError::NoMemory));
    // Nothing at all still fits where the cursors meet.
    assert_eq!(a.alloc_bytes(0, 1), Ok(0));
}

#[test]
fn init_binds_the_range() {
    let a = bound(0x1000, 0x2000);
    assert_eq!(a.total_bytes(), 0x2000);
    assert_eq!(a.used_bytes(), 0);
    assert_eq!(a.available_bytes(), 0x2000);
    assert_eq!(a.total_pages(), 2);
    assert_eq!(a.used_pages(), 0);
    assert_eq!(a.available_pages(), 2);
}

#[test]
fn init_again_resets_everything() {
    let mut a = bound(0x1000, 0x2000);
    assert_eq!(a.alloc_bytes(0x100, 8), Ok(0x1000));
    assert_eq!(a.alloc_pages(1, PAGE), Ok(0x2000));
    a.init(0x8000, 0x4000);
    assert_eq!(a.total_bytes(), 0x4000);
    assert_eq!(a.used_bytes(), 0);
    assert_eq!(a.used_pages(), 0);
    assert_eq!(a.available_bytes(), 0x4000);
    assert_eq!(a.alloc_bytes(1, 1), Ok(0x8000));
}

#[test]
fn add_memory_is_always_refused() {
    let mut a = bound(0x1000, 0x2000);
    let r: AllocResult = a.add_memory(0x3000, 0x1000);
    assert_eq!(r, Err(AllocError::InvalidParam));
    assert_eq!(a.add_memory(0, 0), Err(AllocError::InvalidParam));
    assert_eq!(a.total_bytes(), 0x2000);
    assert_eq!(a.available_bytes(), 0x2000);
    let mut fresh = EarlyAllocator::<PAGE>::new();
    assert_eq!(fresh.add_memory(0x1000, 0x1000), Err(AllocError::InvalidParam));
    assert_eq!(fresh.total_bytes(), 0);
}

#[test]
fn two_arenas_scenario() {
    let mut a = bound(0x1000, 0x2000);
    assert_eq!(a.alloc_bytes(16, 8), Ok(0x1000));
    assert_eq!(a.used_bytes(), 16);
    assert_eq!(a.alloc_pages(1, 0x1000), Ok(0x2000));
    assert_eq!(a.used_pages(), 1);
    assert_eq!(a.alloc_bytes(0x1000, 1), Err(AllocError::NoMemory));
    assert_eq!(a.used_bytes(), 16);
    a.dealloc(0x1000, 16, 8);
    assert_eq!(a.used_bytes(), 0);
    assert_eq!(a.available_bytes(), 0x1000);
}

#[test]
fn bytes_bump_forward_with_alignment() {
    let mut a = bound(0x1000, 0x2000);
    assert_eq!(a.alloc_bytes(3, 1), Ok(0x1000));
    assert_eq!(a.alloc_bytes(4, 4), Ok(0x1004));
    assert_eq!(a.alloc_bytes(1, 1), Ok(0x1008));
    assert_eq!(a.alloc_bytes(8, 64), Ok(0x1040));
    assert_eq!(a.used_bytes(), 0x48);
    assert_eq!(a.alloc_bytes(0, 0x100), Ok(0x1100));
    assert_eq!(a.used_bytes(), 0x100);
    assert_eq!(a.available_bytes(), 0x1f00);
}

#[test]
fn byte_addresses_are_aligned_and_apart() {
    let mut a = bound(0x1003, 0x4000);
    let requests: [(usize, usize); 6] = [(5, 1), (7, 2), (1, 16), (24, 8), (3, 256), (100, 4)];
    let mut last_end: usize = 0x1003;
    for (size, align) in requests {
        let addr = a.alloc_bytes(size, align).unwrap();
        assert_eq!(addr % align, 0);
        assert!(addr >= last_end);
        assert!(addr < last_end + align);
        last_end = addr + size;
        assert_eq!(a.used_bytes(), last_end - 0x1003);
    }
}

#[test]
fn byte_allocation_may_fill_the_gap_exactly() {
    let mut a = bound(0x1000, 0x100);
    assert_eq!(a.alloc_bytes(0x100, 1), Ok(0x1000));
    assert_eq!(a.available_bytes(), 0);
    assert_eq!(a.alloc_bytes(1, 1), Err(AllocError::NoMemory));
    assert_eq!(a.alloc_bytes(0, 1), Ok(0x1100));
}

#[test]
fn exhausted_bytes_change_nothing() {
    let mut a = bound(0x1000, 0x2000);
    assert_eq!(a.alloc_bytes(0x10, 8), Ok(0x1000));
    assert_eq!(a.alloc_pages(1, PAGE), Ok(0x2000));
    let used = a.used_bytes();
    let available = a.available_bytes();
    let pages = a.used_pages();
    assert_eq!(a.alloc_bytes(0xff1, 1), Err(AllocError::NoMemory));
    assert_eq!(a.alloc_bytes(0x800, 0x1000), Err(AllocError::NoMemory));
    assert_eq!(a.used_bytes(), used);
    assert_eq!(a.available_bytes(), available);
    assert_eq!(a.used_pages(), pages);
    // The refused calls were not counted: one deallocation frees the arena.
    a.dealloc(0x1000, 0x10, 8);
    assert_eq!(a.used_bytes(), 0);
    // What fits exactly is still granted.
    assert_eq!(a.alloc_bytes(0x1000, 1), Ok(0x1000));
}

#[test]
fn bytes_past_the_last_address_are_refused() {
    let start = usize::MAX - 0xff;
    let mut a = bound(start, 0xff);
    assert_eq!(a.alloc_bytes(1, 1), Ok(start));
    // Rounding up would pass the largest address.
    assert_eq!(a.alloc_bytes(1, 0x1000), Err(AllocError::NoMemory));
    // The end of the allocation would pass the largest address.
    assert_eq!(a.alloc_bytes(usize::MAX, 1), Err(AllocError::NoMemory));
    assert_eq!(a.used_bytes(), 1);
}

#[test]
fn bulk_reclaim_in_any_order() {
    let mut a = bound(0x1000, 0x2000);
    let first = a.alloc_bytes(0x10, 8).unwrap();
    let second = a.alloc_bytes(0x20, 16).unwrap();
    let third = a.alloc_bytes(0x30, 32).unwrap();
    assert_eq!((first, second, third), (0x1000, 0x1010, 0x1040));
    assert_eq!(a.used_bytes(), 0x70);
    a.dealloc(second, 0x20, 16);
    assert_eq!(a.used_bytes(), 0x70);
    a.dealloc(third, 0x30, 32);
    assert_eq!(a.used_bytes(), 0x70);
    assert_eq!(a.alloc_bytes(0x10, 1), Ok(0x1070));
    a.dealloc(first, 0x10, 8);
    assert_eq!(a.used_bytes(), 0x80);
    a.dealloc(0x1070, 0x10, 1);
    assert_eq!(a.used_bytes(), 0);
    assert_eq!(a.available_bytes(), 0x2000);
    assert_eq!(a.alloc_bytes(1, 1), Ok(0x1000));
}

#[test]
fn bulk_reclaim_leaves_pages_alone() {
    let mut a = bound(0x10000, 0x8000);
    assert_eq!(a.alloc_pages(2, PAGE), Ok(0x16000));
    assert_eq!(a.alloc_bytes(0x123, 1), Ok(0x10000));
    assert_eq!(a.alloc_bytes(0x10, 0x10), Ok(0x10130));
    a.dealloc(0x10130, 0x10, 0x10);
    a.dealloc(0x10000, 0x123, 1);
    assert_eq!(a.used_bytes(), 0);
    assert_eq!(a.used_pages(), 2);
    assert_eq!(a.available_bytes(), 0x6000);
}

#[test]
fn dealloc_with_nothing_outstanding_keeps_the_cursor() {
    let mut a = bound(0x1000, 0x2000);
    a.dealloc(0x1000, 1, 1);
    assert_eq!(a.used_bytes(), 0);
    // The counter went below zero and wrapped: the next allocation brings
    // it back to zero, and its deallocation wraps it again without a reset.
    assert_eq!(a.alloc_bytes(8, 8), Ok(0x1000));
    a.dealloc(0x1000, 8, 8);
    assert_eq!(a.used_bytes(), 8);
}

#[test]
fn pages_bump_backward() {
    let mut a = bound(0x10000, 0x10000);
    assert_eq!(a.alloc_pages(1, PAGE), Ok(0x1f000));
    assert_eq!(a.used_pages(), 1);
    assert_eq!(a.alloc_pages(3, PAGE), Ok(0x1c000));
    assert_eq!(a.used_pages(), 4);
    assert_eq!(a.available_pages(), 12);
    assert_eq!(a.available_bytes(), 0xc000);
    assert_eq!(a.total_pages(), 16);
}

#[test]
fn page_alignment_rounds_down_and_forfeits_the_gap() {
    let mut a = bound(0x10000, 0x10000);
    assert_eq!(a.alloc_pages(1, 0x4000), Ok(0x1c000));
    // Four pages are gone for one.
    assert_eq!(a.used_pages(), 4);
    assert_eq!(a.alloc_pages(1, 0x2000), Ok(0x1a000));
    assert_eq!(a.used_pages(), 6);
    assert_eq!(a.alloc_pages(1, 1), Ok(0x19000));
    assert_eq!(a.used_pages(), 7);
}

#[test]
fn page_addresses_are_aligned_and_apart() {
    let mut a = bound(0x100000, 0x100000);
    let requests: [(usize, usize); 5] =
        [(1, 0x1000), (2, 0x2000), (1, 0x8000), (3, 0x1000), (1, 0x10000)];
    let mut lowest: usize = 0x200000;
    let mut used: usize = 0;
    for (num_pages, align) in requests {
        let addr = a.alloc_pages(num_pages, align).unwrap();
        assert_eq!(addr % align, 0);
        assert!(addr + num_pages * PAGE <= lowest);
        lowest = addr;
        assert!(a.used_pages() >= used + num_pages);
        used = a.used_pages();
        assert_eq!(used, (0x200000 - lowest) / PAGE);
    }
}

#[test]
fn pages_must_stay_strictly_above_the_bytes() {
    let mut a = bound(0x1000, 0x2000);
    // Two pages would begin exactly at the byte cursor.
    assert_eq!(a.alloc_pages(2, PAGE), Err(AllocError::NoMemory));
    assert_eq!(a.used_pages(), 0);
    assert_eq!(a.alloc_pages(1, PAGE), Ok(0x2000));
    assert_eq!(a.alloc_pages(1, PAGE), Err(AllocError::NoMemory));
    assert_eq!(a.used_pages(), 1);
    assert_eq!(a.available_bytes(), 0x1000);
}

#[test]
fn pages_below_the_first_address_are_refused() {
    let mut a = bound(0x1000, 0x2000);
    assert_eq!(a.alloc_pages(4, PAGE), Err(AllocError::NoMemory));
    assert_eq!(a.alloc_pages(usize::MAX, PAGE), Err(AllocError::NoMemory));
    assert_eq!(a.alloc_pages(usize::MAX / PAGE, PAGE), Err(AllocError::NoMemory));
    assert_eq!(a.used_pages(), 0);
    assert_eq!(a.available_bytes(), 0x2000);
}

#[test]
fn pages_collide_with_bytes() {
    let mut a = bound(0x1000, 0x3000);
    assert_eq!(a.alloc_bytes(0x1001, 1), Ok(0x1000));
    assert_eq!(a.alloc_pages(2, PAGE), Err(AllocError::NoMemory));
    assert_eq!(a.alloc_pages(1, PAGE), Ok(0x3000));
    assert_eq!(a.alloc_bytes(0x1000, 1), Err(AllocError::NoMemory));
    assert_eq!(a.alloc_bytes(0xfff, 1), Ok(0x2001));
    assert_eq!(a.available_bytes(), 0);
    assert_eq!(a.available_pages(), 0);
}

#[test]
fn zero_pages_only_round_the_cursor() {
    let mut a = bound(0x1000, 0x2800);
    assert_eq!(a.alloc_pages(0, PAGE), Ok(0x3000));
    assert_eq!(a.used_pages(), 0);
    assert_eq!(a.available_bytes(), 0x2000);
}

#[test]
fn dealloc_pages_does_nothing() {
    let mut a = bound(0x10000, 0x10000);
    let addr = a.alloc_pages(2, PAGE).unwrap();
    a.dealloc_pages(addr, 2);
    assert_eq!(a.used_pages(), 2);
    assert_eq!(a.available_pages(), 14);
    assert_eq!(a.alloc_pages(2, PAGE), Ok(addr - 2 * PAGE));
}

#[test]
fn cursors_stay_ordered() {
    let mut a = bound(0x4000, 0x8000);
    let steps: [(bool, usize, usize); 8] = [
        (true, 0x100, 16),
        (false, 1, 0x1000),
        (true, 0x3000, 0x1000),
        (false, 2, 0x2000),
        (true, 0x2000, 1),
        (false, 8, 0x1000),
        (true, 0x10, 0x10),
        (false, 1, 0x1000),
    ];
    let mut used_pages = 0;
    for (bytes, amount, align) in steps {
        if bytes {
            let _ = a.alloc_bytes(amount, align);
        } else {
            let _ = a.alloc_pages(amount, align);
        }
        assert!(a.used_bytes() + a.available_bytes() + a.used_pages() * PAGE <= a.total_bytes());
        assert!(a.used_pages() >= used_pages);
        used_pages = a.used_pages();
        assert_eq!(a.total_bytes(), 0x8000);
    }
}

#[test]
fn page_counts_round_down() {
    let mut a = EarlyAllocator::<0x1000>::new();
    a.init(0x800, 0x2fff);
    assert_eq!(a.total_bytes(), 0x2fff);
    assert_eq!(a.total_pages(), 2);
    assert_eq!(a.available_pages(), 2);
    assert_eq!(a.alloc_bytes(0x1000, 1), Ok(0x800));
    assert_eq!(a.available_pages(), 1);
    assert_eq!(a.alloc_pages(1, 1), Ok(0x27ff));
    assert_eq!(a.used_pages(), 1);
    assert_eq!(a.available_pages(), 0);
    assert_eq!(a.available_bytes(), 0xfff);
}

#[test]
fn other_page_sizes() {
    let mut a = EarlyAllocator::<0x200000>::new();
    a.init(0x4000_0000, 0x80_0000);
    assert_eq!(a.total_pages(), 4);
    assert_eq!(a.alloc_pages(1, 0x200000), Ok(0x4060_0000));
    assert_eq!(a.used_pages(), 1);
    assert_eq!(a.available_pages(), 3);
}

#[test]
fn align_up_values() {
    assert_eq!(EarlyAllocator::<PAGE>::align_up(0, 1), 0);
    assert_eq!(EarlyAllocator::<PAGE>::align_up(7, 1), 7);
    assert_eq!(EarlyAllocator::<PAGE>::align_up(0, 8), 0);
    assert_eq!(EarlyAllocator::<PAGE>::align_up(1, 8), 8);
    assert_eq!(EarlyAllocator::<PAGE>::align_up(8, 8), 8);
    assert_eq!(EarlyAllocator::<PAGE>::align_up(9, 8), 16);
    assert_eq!(EarlyAllocator::<PAGE>::align_up(0x1001, 0x1000), 0x2000);
    assert_eq!(EarlyAllocator::<PAGE>::align_up(usize::MAX - 7, 8), usize::MAX - 7);
    assert_eq!(EarlyAllocator::<PAGE>::align_up(usize::MAX, 1), usize::MAX);
}

#[test]
fn power_of_two_test() {
    assert!(!is_power_of_two(0));
    assert!(is_power_of_two(1));
    assert!(is_power_of_two(2));
    assert!(!is_power_of_two(3));
    assert!(is_power_of_two(0x1000));
    assert!(!is_power_of_two(0x1001));
    assert!(!is_power_of_two(0x1800));
    assert!(is_power_of_two(1 << (usize::BITS - 1)));
    assert!(!is_power_of_two(usize::MAX));
}

#[test]
fn errors_compare_and_print() {
    assert_ne!(AllocError::InvalidParam, AllocError::NoMemory);
    assert_eq!(format!("{:?}", AllocError::NoMemory), "NoMemory");
    assert_eq!(format!("{:?}", AllocError::InvalidParam), "InvalidParam");
}
