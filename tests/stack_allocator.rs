use frame_alloc::address::PhysPageNum;
use frame_alloc::stack_allocator::StackFrameAllocator;

fn fresh(low: usize, high: usize) -> StackFrameAllocator {
    let mut a = StackFrameAllocator::new();
    a.init(PhysPageNum(low), PhysPageNum(high));
    a
}

#[test]
fn new_allocator_hands_out_nothing() {
    let mut a = StackFrameAllocator::new();
    assert_eq!(a.allocate(), None);
}

#[test]
fn fresh_stack_yields_whole_range_in_order() {
    let mut a = fresh(10, 14);
    let got: Vec<PhysPageNum> = (0..4).map(|_| a.allocate().unwrap()).collect();
    assert_eq!(got, vec![PhysPageNum(10), PhysPageNum(11), PhysPageNum(12), PhysPageNum(13)]);
    assert_eq!(a.allocate(), None);
}

#[test]
fn empty_range_is_exhausted_at_once() {
    let mut a = fresh(7, 7);
    assert_eq!(a.allocate(), None);
}

#[test]
fn recycled_pages_are_served_first_most_recent_first() {
    let mut a = fresh(10, 20);
    let p0 = a.allocate().unwrap();
    let p1 = a.allocate().unwrap();
    a.deallocate(p0);
    a.deallocate(p1);
    assert_eq!(a.allocate(), Some(p1));
    assert_eq!(a.allocate(), Some(p0));
    assert_eq!(a.allocate(), Some(PhysPageNum(12)));
}

#[test]
fn releasing_k_pages_gives_exactly_k_more() {
    let mut a = fresh(100, 108);
    let all: Vec<PhysPageNum> = (0..8).map(|_| a.allocate().unwrap()).collect();
    assert_eq!(a.allocate(), None);
    for &p in [all[1], all[4], all[6]].iter() {
        a.deallocate(p);
    }
    let mut again = Vec::new();
    for _ in 0..3 {
        again.push(a.allocate().unwrap().0);
    }
    assert_eq!(a.allocate(), None);
    again.sort();
    assert_eq!(again, vec![101, 104, 106]);
}

#[test]
fn release_rules_spot_double_free_and_unknown_pages() {
    let mut a = fresh(10, 20);
    let p = a.allocate().unwrap();
    assert!(a.is_allocated_ppn(p));
    assert!(!a.is_allocated_ppn(PhysPageNum(11)));
    assert!(!a.is_allocated_ppn(PhysPageNum(25)));
    a.deallocate(p);
    assert!(!a.is_allocated_ppn(p));
}

#[test]
fn init_clears_the_recycle_list() {
    let mut a = fresh(10, 20);
    let p = a.allocate().unwrap();
    a.deallocate(p);
    a.init(PhysPageNum(30), PhysPageNum(31));
    assert_eq!(a.allocate(), Some(PhysPageNum(30)));
    assert_eq!(a.allocate(), None);
}

#[test]
fn pages_below_the_range_and_page_zero_are_never_releasable() {
    let mut a = fresh(100, 105);
    assert_eq!(a.allocate(), Some(PhysPageNum(100)));
    assert!(!a.is_allocated_ppn(PhysPageNum(5)));
    assert!(!a.is_allocated_ppn(PhysPageNum(0)));
    assert!(!a.is_allocated_ppn(PhysPageNum(99)));
    assert!(a.is_allocated_ppn(PhysPageNum(100)));
}

#[test]
fn refill_hands_back_exactly_the_released_pages() {
    let mut a = fresh(1, 7);
    let all: Vec<PhysPageNum> = (0..6).map(|_| a.allocate().unwrap()).collect();
    a.deallocate(all[5]);
    a.deallocate(all[2]);
    let mut again = vec![a.allocate().unwrap().0, a.allocate().unwrap().0];
    again.sort();
    assert_eq!(again, vec![3, 6]);
    assert_eq!(a.allocate(), None);
}
