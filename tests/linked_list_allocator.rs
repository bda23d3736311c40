use frame_alloc::address::PhysPageNum;
use frame_alloc::linked_list_allocator::{LinkedListFrameAllocator, VANITY_MAGIC_NUMBER};
use frame_alloc::memory::{PhysMemory, PAGE_WORDS};

fn fresh(mem: &mut PhysMemory, low: usize, high: usize) -> LinkedListFrameAllocator {
    let mut a = LinkedListFrameAllocator::new();
    a.init(mem, PhysPageNum(low), PhysPageNum(high));
    a
}

#[test]
fn init_links_every_page_in_ascending_order() {
    let mut mem = PhysMemory::new(50, 6);
    let _a = fresh(&mut mem, 51, 55);
    assert_eq!(mem.read(51, 0), 52);
    assert_eq!(mem.read(53, 0), 54);
    assert_eq!(mem.read(54, 0), 0);
    for p in 51..55 {
        assert_eq!(mem.read(p, 1), VANITY_MAGIC_NUMBER);
    }
    assert_eq!(mem.read(50, 1), 0);
    assert_eq!(mem.read(55, 1), 0);
}

#[test]
fn fresh_list_yields_every_page_once() {
    let mut mem = PhysMemory::new(100, 5);
    let mut a = fresh(&mut mem, 100, 105);
    let mut got = Vec::new();
    for _ in 0..5 {
        got.push(a.allocate(&mut mem).unwrap().0);
    }
    assert_eq!(a.allocate(&mut mem), None);
    assert_eq!(got, vec![100, 101, 102, 103, 104]);
}

#[test]
fn allocated_page_is_zero_filled() {
    let mut mem = PhysMemory::new(1, 2);
    let mut a = fresh(&mut mem, 1, 3);
    let p = a.allocate(&mut mem).unwrap();
    for i in 0..PAGE_WORDS {
        assert_eq!(mem.read(p.0, i), 0);
    }
}

#[test]
fn released_page_comes_back_first_and_clean() {
    let mut mem = PhysMemory::new(1, 3);
    let mut a = fresh(&mut mem, 1, 4);
    let p = a.allocate(&mut mem).unwrap();
    let q = a.allocate(&mut mem).unwrap();
    a.write_page(&mut mem, p, 7, 99);
    assert_eq!(mem.read(p.0, 7), 99);
    a.deallocate(&mut mem, p);
    assert_eq!(mem.read(p.0, 0), 3);
    assert_eq!(mem.read(p.0, 1), VANITY_MAGIC_NUMBER);
    let again = a.allocate(&mut mem).unwrap();
    assert_eq!(again, p);
    assert_ne!(again, q);
    assert_eq!(mem.read(p.0, 7), 0);
    assert_eq!(mem.read(p.0, 1), 0);
}

#[test]
fn release_rules_reject_zero_range_and_double_free() {
    let mut mem = PhysMemory::new(0, 6);
    let mut a = fresh(&mut mem, 2, 5);
    let p = a.allocate(&mut mem).unwrap();
    assert!(a.can_dealloc(&mem, p));
    assert!(!a.can_dealloc(&mem, PhysPageNum(0)));
    assert!(!a.can_dealloc(&mem, PhysPageNum(1)));
    assert!(!a.can_dealloc(&mem, PhysPageNum(5)));
    assert!(!a.can_dealloc(&mem, PhysPageNum(3)));
    a.deallocate(&mut mem, p);
    assert!(!a.can_dealloc(&mem, p));
}

#[test]
fn range_membership() {
    let mut mem = PhysMemory::new(10, 10);
    let a = fresh(&mut mem, 12, 15);
    assert!(!a.is_valid_ppn(PhysPageNum(11)));
    assert!(a.is_valid_ppn(PhysPageNum(12)));
    assert!(a.is_valid_ppn(PhysPageNum(14)));
    assert!(!a.is_valid_ppn(PhysPageNum(15)));
}

#[test]
fn uninitialised_list_hands_out_nothing() {
    let mut mem = PhysMemory::new(0, 0);
    let mut a = LinkedListFrameAllocator::new();
    assert_eq!(a.allocate(&mut mem), None);
}
