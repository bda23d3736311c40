use frame_alloc::address::PhysPageNum;
use frame_alloc::linked_list_allocator::LinkedListFrameAllocator;
use frame_alloc::memory::PhysMemory;
use frame_alloc::stack_allocator::StackFrameAllocator;
use frame_alloc::strategy::FrameAllocator;

fn fresh<A: FrameAllocator>(low: usize, high: usize) -> (A, PhysMemory) {
    let mut mem = PhysMemory::new(low, high - low);
    let mut a = A::empty();
    a.init_range(&mut mem, PhysPageNum(low), PhysPageNum(high));
    (a, mem)
}

fn exhaust<A: FrameAllocator>(a: &mut A, mem: &mut PhysMemory) -> Vec<PhysPageNum> {
    let mut got = Vec::new();
    while let Some(p) = a.alloc_frame(mem) {
        got.push(p);
    }
    got
}

fn assert_fresh_run<A: FrameAllocator>(low: usize, high: usize) {
    let (mut a, mut mem) = fresh::<A>(low, high);
    let mut got: Vec<usize> = exhaust(&mut a, &mut mem).iter().map(|p| p.0).collect();
    got.sort();
    assert_eq!(got, (low..high).collect::<Vec<usize>>());
    assert_eq!(a.alloc_frame(&mut mem), None);
}

fn assert_refill<A: FrameAllocator>() {
    let (mut a, mut mem) = fresh::<A>(100, 110);
    let all = exhaust(&mut a, &mut mem);
    assert_eq!(all.len(), 10);
    for &i in [0usize, 3, 4, 9].iter() {
        assert!(a.releasable(&mem, all[i]));
        a.dealloc_frame(&mut mem, all[i]);
    }
    let again = exhaust(&mut a, &mut mem);
    assert_eq!(again.len(), 4);
}

fn assert_release_rules<A: FrameAllocator>() {
    let (mut a, mut mem) = fresh::<A>(5, 8);
    let p = a.alloc_frame(&mut mem).unwrap();
    assert!(a.releasable(&mem, p));
    assert!(!a.releasable(&mem, PhysPageNum(0)));
    assert!(!a.releasable(&mem, PhysPageNum(8)));
    a.dealloc_frame(&mut mem, p);
    assert!(!a.releasable(&mem, p));
}

#[test]
fn stack_fresh_run_covers_range() {
    assert_fresh_run::<StackFrameAllocator>(1, 6);
    assert_fresh_run::<StackFrameAllocator>(100, 105);
}

#[test]
fn list_fresh_run_covers_range() {
    assert_fresh_run::<LinkedListFrameAllocator>(1, 6);
    assert_fresh_run::<LinkedListFrameAllocator>(100, 105);
}

#[test]
fn single_page_range() {
    assert_fresh_run::<StackFrameAllocator>(9, 10);
    assert_fresh_run::<LinkedListFrameAllocator>(9, 10);
}

#[test]
fn stack_refills_exactly_what_was_released() {
    assert_refill::<StackFrameAllocator>();
}

#[test]
fn list_refills_exactly_what_was_released() {
    assert_refill::<LinkedListFrameAllocator>();
}

#[test]
fn stack_release_rules() {
    assert_release_rules::<StackFrameAllocator>();
}

#[test]
fn list_release_rules() {
    assert_release_rules::<LinkedListFrameAllocator>();
}

#[test]
fn empty_strategies_hand_out_nothing() {
    let mut mem = PhysMemory::new(0, 0);
    let mut s = StackFrameAllocator::empty();
    assert_eq!(s.alloc_frame(&mut mem), None);
    let mut l = LinkedListFrameAllocator::empty();
    assert_eq!(l.alloc_frame(&mut mem), None);
}
