use wasm_link::bump::{BumpAllocator, MemoryArea};

fn area(start_addr: u64, len: u64, usable: bool) -> MemoryArea {
    MemoryArea { start_addr, len, usable }
}

#[test]
fn allocates_frames_of_first_usable_area() {
    let map = vec![area(0, 8192, true), area(0x10000, 4096, false), area(0x20000, 4096, true)];
    let mut allocator = BumpAllocator::new(map);
    assert_eq!(allocator.allocate_frame(), Some(0));
    assert_eq!(allocator.allocate_frame(), Some(1));
    // the first area (frames 0..=1) is exhausted: move to the next usable
    // one, skipping the unusable area
    assert_eq!(allocator.allocate_frame(), Some(32));
    assert_eq!(allocator.allocate_frame(), None);
    assert_eq!(allocator.allocate_frame(), None);
}

#[test]
fn empty_map_allocates_nothing() {
    let mut allocator = BumpAllocator::new(vec![]);
    assert_eq!(allocator.allocate_frame(), None);
}

#[test]
fn unusable_areas_are_never_allocated() {
    let mut allocator = BumpAllocator::new(vec![area(0, 4096, false)]);
    assert_eq!(allocator.allocate_frame(), None);
}

#[test]
fn unaligned_area_yields_containing_frames() {
    // an area from 0x1800 to 0x27ff touches frames 1 and 2
    let mut allocator = BumpAllocator::new(vec![area(0x1800, 0x1000, true)]);
    assert_eq!(allocator.allocate_frame(), Some(1));
    assert_eq!(allocator.allocate_frame(), Some(2));
    assert_eq!(allocator.allocate_frame(), None);
}

#[test]
fn deallocation_is_ignored() {
    let mut allocator = BumpAllocator::new(vec![area(0, 4096, true)]);
    assert_eq!(allocator.allocate_frame(), Some(0));
    allocator.deallocate_frame(0);
    // the frame is not handed out again: the allocator leaks by design
    assert_eq!(allocator.allocate_frame(), None);
}
