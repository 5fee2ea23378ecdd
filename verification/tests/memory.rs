//! The memory subsystem under concrete maps: frame allocation order and
//! exhaustion, page mapping, heap bootstrap, and the allocation-failure
//! paths.

use snakeos::frame::{BootFrameAllocator, MemoryRegion};
use snakeos::heap::{init_heap, AllocError, HeapAllocator};
use snakeos::paging::{MapError, PageFlags, PageTables};
use snakeos::FRAME_SIZE;

fn map(regions: &[(u64, u64, bool)]) -> Vec<MemoryRegion> {
    regions
        .iter()
        .map(|&(start, len, usable)| MemoryRegion { start, len, usable })
        .collect()
}

#[test]
fn frames_come_in_ascending_order_without_repeats() {
    // Two usable regions with an unusable hole between them: the allocator
    // yields each aligned frame exactly once, in ascending address order.
    let mut a = BootFrameAllocator::init(map(&[
        (0x1000, 0x3000, true),
        (0x4000, 0x2000, false),
        (0x10000, 0x2000, true),
    ]));
    let expected = [0x1000u64, 0x2000, 0x3000, 0x10000, 0x11000];
    let mut got = Vec::new();
    while let Some(f) = a.allocate_frame() {
        got.push(f);
    }
    assert_eq!(got, expected);
    for i in 0..got.len() {
        for j in 0..got.len() {
            if i != j {
                assert_ne!(got[i], got[j]);
            }
        }
    }
}

#[test]
fn exhaustion_is_permanent() {
    let mut a = BootFrameAllocator::init(map(&[(0x1000, 0x1000, true)]));
    assert_eq!(a.allocate_frame(), Some(0x1000));
    assert_eq!(a.allocate_frame(), None);
    assert_eq!(a.allocate_frame(), None);
    assert_eq!(a.allocate_frame(), None);
}

#[test]
fn partial_frames_are_not_handed_out() {
    // A usable region shorter than a frame contributes nothing.
    let mut a = BootFrameAllocator::init(map(&[(0x1000, 0xfff, true)]));
    assert_eq!(a.allocate_frame(), None);
}

#[test]
fn map_page_creates_and_reads_back_translation() {
    let mut alloc = BootFrameAllocator::init(map(&[(0x100000, 0x100000, true)]));
    let mut pt = PageTables::new();
    let flags = PageFlags { writable: true, no_execute: true };
    let frame = alloc.allocate_frame().unwrap();
    assert_eq!(pt.map_page(5, frame, flags, &mut alloc), Ok(()));
    let entry = pt.translate(5).unwrap();
    assert_eq!(entry.frame, frame);
    assert!(entry.flags.writable);
    assert!(entry.flags.no_execute);
    assert_eq!(pt.translate(6), None);
    assert_eq!(pt.translate(4), None);
}

#[test]
fn map_page_updates_existing_translation() {
    let mut alloc = BootFrameAllocator::init(map(&[(0x100000, 0x100000, true)]));
    let mut pt = PageTables::new();
    let flags = PageFlags { writable: true, no_execute: false };
    assert_eq!(pt.map_page(77, 0x1000, flags, &mut alloc), Ok(()));
    assert_eq!(pt.map_page(77, 0x2000, flags, &mut alloc), Ok(()));
    assert_eq!(pt.translate(77).unwrap().frame, 0x2000);
}

#[test]
fn map_page_fails_without_frames_for_tables() {
    // An empty memory map: the first missing table level cannot be backed.
    let mut alloc = BootFrameAllocator::init(map(&[]));
    let mut pt = PageTables::new();
    let flags = PageFlags { writable: true, no_execute: true };
    assert_eq!(
        pt.map_page(5, 0x1000, flags, &mut alloc),
        Err(MapError::FrameAllocationFailed)
    );
    assert_eq!(pt.translate(5), None);
}

#[test]
fn init_heap_maps_every_page() {
    let mut alloc = BootFrameAllocator::init(map(&[(0x100000, 0x100000, true)]));
    let mut pt = PageTables::new();
    let heap = init_heap(&mut pt, &mut alloc, 0x200, 4).unwrap();
    assert_eq!(heap.base(), 0x200 * FRAME_SIZE);
    assert_eq!(heap.size(), 4 * FRAME_SIZE);
    for k in 0..4 {
        assert!(pt.translate(0x200 + k).is_some());
    }
    assert_eq!(pt.translate(0x200 + 4), None);
    assert_eq!(pt.translate(0x1ff), None);
}

#[test]
fn init_heap_reports_frame_exhaustion() {
    // Three frames cannot back the tables and four heap pages.
    let mut alloc = BootFrameAllocator::init(map(&[(0x1000, 0x3000, true)]));
    let mut pt = PageTables::new();
    match init_heap(&mut pt, &mut alloc, 0x200, 4) {
        Ok(_) => panic!("heap bootstrap cannot succeed with three frames"),
        Err(e) => assert_eq!(e, MapError::FrameAllocationFailed),
    }
    assert_eq!(alloc.allocate_frame(), None);
}

#[test]
fn oversized_allocation_fails_without_corrupting_the_heap() {
    // A request larger than the configured heap fails deterministically and
    // leaves the metadata intact for later, smaller requests.
    let mut h = HeapAllocator::new(0x40000000, 100 * 1024);
    assert_eq!(h.allocate(100 * 1024 + 1), Err(AllocError::OutOfMemory));
    assert_eq!(h.used(), 0);
    assert_eq!(h.allocate(512), Ok(0x40000000));
    assert_eq!(h.allocate(100 * 1024), Err(AllocError::OutOfMemory));
    assert_eq!(h.allocate(512), Ok(0x40000000 + 512));
}

#[test]
fn hundred_kib_heap_serves_twenty_five_pages() {
    // End to end: a 100 KiB heap of 4 KiB pages serves exactly 25 page-sized
    // allocations; the 26th takes the allocation-failure path.
    let mut alloc = BootFrameAllocator::init(map(&[(0x100000, 0x100000, true)]));
    let mut pt = PageTables::new();
    let pages = (100 * 1024) / FRAME_SIZE;
    assert_eq!(pages, 25);
    let mut heap = init_heap(&mut pt, &mut alloc, 0x200, pages).unwrap();
    assert_eq!(heap.size(), 100 * 1024);
    for i in 0..25 {
        let got = heap.allocate(4096);
        assert_eq!(got, Ok(heap.base() + i * 4096));
    }
    assert_eq!(heap.allocate(4096), Err(AllocError::OutOfMemory));
    // The failure is fatal for the kernel, but the allocator itself stays
    // consistent: a smaller request still fits nothing here.
    assert_eq!(heap.allocate(1), Err(AllocError::OutOfMemory));
    assert_eq!(heap.used(), 100 * 1024);
}
