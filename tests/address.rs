use frame_alloc::address::{PhysAddr, PhysPageNum, PAGE_SIZE, PAGE_SIZE_BITS};

#[test]
fn page_constants_agree() {
    assert_eq!(PAGE_SIZE, 4096);
    assert_eq!(1usize << PAGE_SIZE_BITS, PAGE_SIZE);
}

#[test]
fn floor_rounds_down() {
    assert_eq!(PhysAddr(0).floor(), PhysPageNum(0));
    assert_eq!(PhysAddr(4095).floor(), PhysPageNum(0));
    assert_eq!(PhysAddr(4096).floor(), PhysPageNum(1));
    assert_eq!(PhysAddr(0x8080_0000).floor(), PhysPageNum(0x80800));
}

#[test]
fn ceil_rounds_up() {
    assert_eq!(PhysAddr(0).ceil(), PhysPageNum(0));
    assert_eq!(PhysAddr(1).ceil(), PhysPageNum(1));
    assert_eq!(PhysAddr(4096).ceil(), PhysPageNum(1));
    assert_eq!(PhysAddr(4097).ceil(), PhysPageNum(2));
    assert_eq!(PhysAddr(usize::MAX).ceil(), PhysPageNum(usize::MAX / 4096 + 1));
}

#[test]
fn offset_and_alignment() {
    assert_eq!(PhysAddr(0x1234).page_offset(), 0x234);
    assert!(PhysAddr(0x3000).aligned());
    assert!(!PhysAddr(0x3001).aligned());
}

#[test]
fn page_address() {
    assert_eq!(PhysPageNum(3).addr(), Some(PhysAddr(0x3000)));
    assert_eq!(PhysPageNum(usize::MAX).addr(), None);
}

#[test]
fn conversions_from_usize() {
    assert_eq!(PhysAddr::from(17), PhysAddr(17));
    let p: PhysPageNum = 9usize.into();
    assert_eq!(p, PhysPageNum(9));
    assert!(PhysPageNum(2) < PhysPageNum(3));
}
