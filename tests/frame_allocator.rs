use frame_alloc::address::{PhysAddr, PhysPageNum};
use frame_alloc::frame_allocator::{
    frame_alloc, frame_dealloc, init_frame_allocator, FrameTracker, GlobalFrameAllocator,
};
use frame_alloc::memory::{PhysMemory, PAGE_WORDS};

fn booted(low: usize, high: usize) -> GlobalFrameAllocator {
    let mut g = GlobalFrameAllocator::new();
    assert!(init_frame_allocator(&mut g, PhysAddr(low * 4096), PhysAddr(high * 4096)));
    g
}

#[test]
fn end_to_end_hundred_to_hundred_five() {
    let mut g = booted(100, 105);
    let mut v: Vec<FrameTracker> = Vec::new();
    for _ in 0..5 {
        v.push(frame_alloc(&mut g).unwrap());
    }
    let mut ppns: Vec<usize> = v.iter().map(|f| f.ppn.0).collect();
    assert!(ppns.iter().all(|&p| (100..105).contains(&p)));
    ppns.sort();
    ppns.dedup();
    assert_eq!(ppns.len(), 5);
    assert!(frame_alloc(&mut g).is_none());
    for f in v.drain(..) {
        frame_dealloc(&mut g, f);
    }
    for _ in 0..5 {
        v.push(frame_alloc(&mut g).unwrap());
    }
    assert!(frame_alloc(&mut g).is_none());
}

#[test]
fn reused_frame_is_zero_filled() {
    let mut g = booted(8, 9);
    let f = frame_alloc(&mut g).unwrap();
    for i in 0..PAGE_WORDS {
        g.write_frame(&f, i, i + 1);
    }
    assert_eq!(g.read_frame(&f, 10), 11);
    let ppn = f.ppn;
    frame_dealloc(&mut g, f);
    let f = frame_alloc(&mut g).unwrap();
    assert_eq!(f.ppn, ppn);
    for i in 0..PAGE_WORDS {
        assert_eq!(g.read_frame(&f, i), 0);
    }
}

#[test]
fn live_guards_never_share_a_page() {
    let mut g = booted(20, 26);
    let a = frame_alloc(&mut g).unwrap();
    let b = frame_alloc(&mut g).unwrap();
    let c = frame_alloc(&mut g).unwrap();
    frame_dealloc(&mut g, b);
    let d = frame_alloc(&mut g).unwrap();
    let e = frame_alloc(&mut g).unwrap();
    frame_dealloc(&mut g, a);
    let f = frame_alloc(&mut g).unwrap();
    let live = [c.ppn.0, d.ppn.0, e.ppn.0, f.ppn.0];
    for i in 0..live.len() {
        for j in i + 1..live.len() {
            assert_ne!(live[i], live[j]);
        }
    }
}

#[test]
fn unaligned_bounds_are_rounded_inward() {
    let mut g = GlobalFrameAllocator::new();
    assert!(init_frame_allocator(&mut g, PhysAddr(0x8020_0010), PhysAddr(0x8020_3fff)));
    let f = frame_alloc(&mut g).unwrap();
    assert_eq!(f.ppn, PhysPageNum(0x80201));
    let h = frame_alloc(&mut g).unwrap();
    assert_eq!(h.ppn, PhysPageNum(0x80202));
    assert!(frame_alloc(&mut g).is_none());
}

#[test]
fn second_init_is_refused() {
    let mut g = booted(10, 12);
    assert!(g.is_initialized());
    assert!(!init_frame_allocator(&mut g, PhysAddr(50 * 4096), PhysAddr(60 * 4096)));
    assert_eq!(frame_alloc(&mut g).unwrap().ppn, PhysPageNum(10));
}

#[test]
fn allocation_before_init_finds_nothing() {
    let mut g = GlobalFrameAllocator::new();
    assert!(!g.is_initialized());
    assert!(frame_alloc(&mut g).is_none());
}

#[test]
fn release_rules_follow_guards() {
    let mut g = booted(10, 13);
    let f = frame_alloc(&mut g).unwrap();
    let ppn = f.ppn;
    assert!(g.is_frame_allocated(ppn));
    assert!(!g.is_frame_allocated(PhysPageNum(11)));
    assert!(!g.is_frame_allocated(PhysPageNum(9)));
    frame_dealloc(&mut g, f);
    assert!(!g.is_frame_allocated(ppn));
}

#[test]
fn tracker_cleans_its_page() {
    let mut mem = PhysMemory::new(4, 2);
    mem.write(5, 3, 42);
    let t = FrameTracker::new(&mut mem, PhysPageNum(5));
    assert_eq!(t.ppn, PhysPageNum(5));
    assert_eq!(mem.read(5, 3), 0);
}
