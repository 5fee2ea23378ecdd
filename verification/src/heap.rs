//! The heap bootstrapper: back a fixed virtual region with physical frames,
//! page by page, and hand the region to a bump allocator that serves the
//! kernel's dynamic allocations.
//!
//! Bootstrapping itself allocates nothing dynamically; on the first mapping
//! failure it stops and reports the error, which boot code treats as fatal.

use vstd::prelude::*;

verus! {

use crate::FRAME_SIZE;
use crate::frame::BootFrameAllocator;
use crate::frame::exhausted;
use crate::paging::MapError;
use crate::paging::PageFlags;
use crate::paging::PageTables;
use crate::paging::PAGE_LIMIT;

/// Why a heap allocation failed.
#[derive(Debug, Clone, Copy, PartialEq, Eq, Structural)]
pub enum AllocError {
    /// The request does not fit in what is left of the heap region.  The
    /// kernel treats this as fatal once the heap is active.
    OutOfMemory,
}

/// Mathematical state of the bump allocator: the region and how many bytes
/// of it have been handed out.
#[verifier::ext_equal]
pub struct HeapModel {
    pub start: int,
    pub size: int,
    pub used: int,
}

/// One allocation: carve the next `req` bytes off the region, or fail and
/// change nothing when they do not fit.
pub open spec fn heap_alloc_step(m: HeapModel, req: int) -> (HeapModel, Option<int>) {
    if req <= m.size - m.used {
        (HeapModel { start: m.start, size: m.size, used: m.used + req }, Some(m.start + m.used))
    } else {
        (m, None)
    }
}

/// A bump allocator over the mapped heap region.  Allocations only advance a
/// cursor; nothing is ever reclaimed, which suits a kernel that maps its heap
/// once and runs until halted.
pub struct HeapAllocator {
    start: u64,
    size: u64,
    used: u64,
}

impl View for HeapAllocator {
    type V = HeapModel;

    closed spec fn view(&self) -> HeapModel {
        HeapModel { start: self.start as int, size: self.size as int, used: self.used as int }
    }
}

impl HeapAllocator {
    /// What has been handed out never exceeds the region, and the region's
    /// end fits the address space.
    pub closed spec fn wf(&self) -> bool {
        &&& self.used <= self.size
        &&& self.start + self.size <= u64::MAX
    }

    /// A fresh allocator over the given region; nothing handed out yet.
    pub fn new(start: u64, size: u64) -> (h: HeapAllocator)
        requires
            start + size <= u64::MAX,
        ensures
            h.wf(),
            h@ == (HeapModel { start: start as int, size: size as int, used: 0 }),
    {
        HeapAllocator { start, size, used: 0 }
    }

    /// Allocate `size` bytes; returns the address of the block.  A request
    /// that does not fit fails deterministically and leaves the allocator —
    /// and with it every later allocation's outcome — untouched.
    pub fn allocate(&mut self, size: u64) -> (r: Result<u64, AllocError>)
        requires
            old(self).wf(),
        ensures
            final(self).wf(),
            r matches Ok(addr) ==> heap_alloc_step(old(self)@, size as int) == (
                final(self)@,
                Some(addr as int),
            ),
            r is Err ==> r == Err::<u64, AllocError>(AllocError::OutOfMemory) && final(self)@ == old(
                self,
            )@ && heap_alloc_step(old(self)@, size as int).1 is None,
    {
        if size <= self.size - self.used {
            let addr = self.start + self.used;
            self.used = self.used + size;
            Ok(addr)
        } else {
            Err(AllocError::OutOfMemory)
        }
    }

    /// The heap region's base address.
    pub fn base(&self) -> (b: u64)
        ensures
            b as int == self@.start,
    {
        self.start
    }

    /// The heap region's size in bytes.
    pub fn size(&self) -> (s: u64)
        ensures
            s as int == self@.size,
    {
        self.size
    }

    /// How many bytes have been handed out so far.
    pub fn used(&self) -> (u: u64)
        ensures
            u as int == self@.used,
    {
        self.used
    }
}

/// A request larger than the whole heap fails deterministically, the failure
/// leaves the allocator's bookkeeping untouched, and every later request
/// behaves exactly as if the oversized one had never been made.
pub proof fn lemma_oversized_request_is_harmless(m: HeapModel, req: int, later: int)
    requires
        0 <= m.used,
        req > m.size,
    ensures
        heap_alloc_step(m, req).1 is None,
        heap_alloc_step(m, req).0 == m,
        heap_alloc_step(heap_alloc_step(m, req).0, later) == heap_alloc_step(m, later),
{
}

/// Back every page of `[heap_start_page, heap_start_page + page_count)` with
/// a fresh frame, mapped writable and non-executable, and hand the region to
/// a bump allocator.  On the first mapping failure — the frame allocator ran
/// out — the call stops and reports it; boot treats that as fatal, so the
/// pages mapped so far are not rolled back, but pages outside the heap range
/// still translate exactly as before.
pub fn init_heap(
    tables: &mut PageTables,
    alloc: &mut BootFrameAllocator,
    heap_start_page: u64,
    page_count: u64,
) -> (r: Result<HeapAllocator, MapError>)
    requires
        old(tables).wf(),
        old(alloc).wf(),
        heap_start_page + page_count <= PAGE_LIMIT,
        (heap_start_page + page_count) * FRAME_SIZE <= u64::MAX,
    ensures
        final(tables).wf(),
        final(alloc).wf(),
        final(alloc).memory_map() == old(alloc).memory_map(),
        final(alloc)@.frames == old(alloc)@.frames,
        r matches Ok(h) ==> h.wf() && h@ == (HeapModel {
            start: heap_start_page as int * FRAME_SIZE as int,
            size: page_count as int * FRAME_SIZE as int,
            used: 0,
        }),
        r is Ok ==> forall|k: u64|
            k < page_count ==> #[trigger] final(tables).translates((heap_start_page + k) as u64)
                is Some && final(tables).translates((heap_start_page + k) as u64).unwrap().flags
                == (PageFlags { writable: true, no_execute: true }),
        forall|p: u64|
            p < PAGE_LIMIT && !(heap_start_page <= p < heap_start_page + page_count)
                ==> #[trigger] final(tables).translates(p) == old(tables).translates(p),
        r is Err ==> r == Err::<HeapAllocator, MapError>(MapError::FrameAllocationFailed)
            && exhausted(final(alloc)@),
        old(alloc)@.pos + 4 * page_count <= old(alloc)@.frames.len() ==> r is Ok,
{
    let mut k: u64 = 0;
    while k < page_count
        invariant
            tables.wf(),
            alloc.wf(),
            alloc.memory_map() == old(alloc).memory_map(),
            alloc@.frames == old(alloc)@.frames,
            k <= page_count,
            alloc@.pos <= old(alloc)@.pos + 4 * k,
            heap_start_page + page_count <= PAGE_LIMIT,
            (heap_start_page + page_count) * FRAME_SIZE <= u64::MAX,
            forall|j: u64|
                j < k ==> #[trigger] tables.translates((heap_start_page + j) as u64) is Some
                    && tables.translates((heap_start_page + j) as u64).unwrap().flags == (PageFlags {
                    writable: true,
                    no_execute: true,
                }),
            forall|p: u64|
                p < PAGE_LIMIT && !(heap_start_page <= p < heap_start_page + k)
                    ==> #[trigger] tables.translates(p) == old(tables).translates(p),
        decreases page_count - k,
    {
        let frame = match alloc.allocate_frame() {
            Some(f) => f,
            None => {
                return Err(MapError::FrameAllocationFailed);
            },
        };
        let page = heap_start_page + k;
        let flags = PageFlags { writable: true, no_execute: true };
        match tables.map_page(page, frame, flags, alloc) {
            Ok(()) => {},
            Err(e) => {
                return Err(e);
            },
        }
        k = k + 1;
    }
    Ok(HeapAllocator::new(heap_start_page * FRAME_SIZE, page_count * FRAME_SIZE))
}

} // verus!
