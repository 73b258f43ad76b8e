use bootmem::frame::{FrameAllocator, PAGE_SIZE};

#[test]
fn new_allocator_manages_nothing() {
    let mut fa = FrameAllocator::new();
    assert_eq!(fa.total_frames(), 0);
    assert_eq!(fa.allocated_frames(), 0);
    assert!(fa.allocate().is_none());
}

#[test]
fn seeding_idempotence() {
    // Seeding with (start = 0x80200000, size = 0x1000000) yields exactly
    // 0x1000 tracking slots, all initially free, and the first allocation
    // returns the base address.
    let mut fa = FrameAllocator::new();
    fa.add_memory(0x80200000, 0x1000000);
    assert_eq!(fa.total_frames(), 0x1000);
    assert_eq!(fa.allocated_frames(), 0);
    let first = fa.allocate().expect("freshly seeded allocator must have a free frame");
    assert_eq!(first.0, 0x80200000);
}

#[test]
fn first_fit_hands_out_consecutive_pages() {
    let mut fa = FrameAllocator::new();
    fa.add_memory(0x80200000, 4 * PAGE_SIZE);
    let a = fa.allocate().unwrap();
    let b = fa.allocate().unwrap();
    let c = fa.allocate().unwrap();
    assert_eq!(a.0, 0x80200000);
    assert_eq!(b.0, 0x80200000 + PAGE_SIZE);
    assert_eq!(c.0, 0x80200000 + 2 * PAGE_SIZE);
    assert_ne!(a.0, b.0);
    assert_ne!(b.0, c.0);
    assert_ne!(a.0, c.0);
}

#[test]
fn exhaustion() {
    // One page only: the second allocation must report exhaustion, not a
    // bogus address.
    let mut fa = FrameAllocator::new();
    fa.add_memory(0x80200000, 0x1000);
    let only = fa.allocate();
    assert!(only.is_some());
    assert_eq!(only.unwrap().0, 0x80200000);
    assert!(fa.allocate().is_none());
}

#[test]
fn round_trip() {
    // Allocate a frame, drop the handle through release, re-allocate: the
    // same address must be reusable.
    let mut fa = FrameAllocator::new();
    fa.add_memory(0x80200000, 0x4000);
    let first = fa.allocate().unwrap();
    let addr = first.0;
    fa.release(first);
    let again = fa.allocate().unwrap();
    assert_eq!(again.0, addr);
}

#[test]
fn frame_accounting() {
    // The count of allocated slots equals allocations issued minus
    // deallocations completed, at every step.
    let mut fa = FrameAllocator::new();
    fa.add_memory(0x80200000, 8 * PAGE_SIZE);
    let a = fa.allocate().unwrap();
    let b = fa.allocate().unwrap();
    let c = fa.allocate().unwrap();
    assert_eq!(fa.allocated_frames(), 3);
    fa.release(b);
    assert_eq!(fa.allocated_frames(), 2);
    let d = fa.allocate().unwrap();
    // First fit reuses the lowest free slot, which the release just freed.
    assert_eq!(d.0, 0x80200000 + PAGE_SIZE);
    assert_eq!(fa.allocated_frames(), 3);
    fa.release(a);
    fa.release(c);
    fa.release(d);
    assert_eq!(fa.allocated_frames(), 0);
}

#[test]
fn dealloc_by_address_frees_the_slot() {
    let mut fa = FrameAllocator::new();
    fa.add_memory(0x80200000, 2 * PAGE_SIZE);
    let a = fa.allocate().unwrap();
    let _b = fa.allocate().unwrap();
    assert!(fa.allocate().is_none());
    fa.dealloc(a.0);
    let again = fa.allocate().unwrap();
    assert_eq!(again.0, 0x80200000);
}

#[test]
fn partial_trailing_page_is_not_tracked() {
    // A range that is not a whole number of pages tracks only the whole
    // pages it contains.
    let mut fa = FrameAllocator::new();
    fa.add_memory(0x80200000, 0x1800);
    assert_eq!(fa.total_frames(), 1);
}
