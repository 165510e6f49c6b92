//! What has to be set up before anything else runs.
use vstd::prelude::*;

use crate::heap::{is_fresh, HybridAllocator, HEAP_SIZE};

verus! {

/// Sets up the allocator, with a heap that has just got the `HEAP_SIZE` bytes at the address.
pub fn init(heap: buddy_system_allocator::Heap<32>, heap_start: usize) -> (r: HybridAllocator)
    requires
        heap_start + HEAP_SIZE <= usize::MAX,
        is_fresh(heap, heap_start),
    ensures
        r.wf(),
        r.heap() == heap,
        is_fresh(r.heap(), heap_start),
        r.heap_start() == heap_start,
        r.heap_size() == HEAP_SIZE,
        r.large().allocations@.len() == 0,
{
    crate::heap::init(heap, heap_start)
}

} // verus!
