//! The kernel heap: a buddy allocator, and whole page frames where that is exhausted.
use vstd::prelude::*;

use crate::memset::FrameTracker;
use crate::vfs::PAGE_SIZE;

verus! {

/// The size of the heap: 512 MB.
pub const HEAP_SIZE: usize = 0x2000_0000;

/// Allocations above this size may take whole page frames: 256 KB.
pub const LARGE_ALLOC_THRESHOLD: usize = 256 * 1024;

/// The heap of the crate `buddy_system_allocator`.
#[verifier::external_type_specification]
#[verifier::external_body]
pub struct ExHeap<const ORDER: usize>(buddy_system_allocator::Heap<ORDER>);

/// The addresses that a heap was given to hand out.
pub uninterp spec fn heap_region(heap: buddy_system_allocator::Heap<32>) -> Set<usize>;

/// What a heap has handed out and not got back: addresses, each with size and alignment.
pub uninterp spec fn heap_taken(heap: buddy_system_allocator::Heap<32>) -> Map<
    usize,
    (usize, usize),
>;

/// What a heap hands out next: for each size and alignment that one of its free blocks can hold, the
/// address. A size and alignment without an address cannot be served.
pub uninterp spec fn heap_answers(heap: buddy_system_allocator::Heap<32>) -> Map<
    (usize, usize),
    usize,
>;

/// Size and alignment that an allocation can have: the alignment is a power of two, and the size,
/// rounded up to it, does not exceed the largest signed number.
pub open spec fn is_layout(size: usize, align: usize) -> bool {
    &&& align > 0
    &&& align & (align - 1) as usize == 0
    &&& size <= isize::MAX - (align - 1)
}

/// `Heap::alloc` of the crate `buddy_system_allocator`: the answer depends on the heap, the size and
/// the alignment alone. It is an address exactly where a free block is large enough. Then a range of
/// memory is handed out that the heap was given, that does not begin at zero, that is aligned as
/// asked for and that shares nothing with what is in use. Else nothing changes. How the free blocks
/// lie, which decides the address, is left unsaid.
#[verifier::external_body]
fn heap_alloc(heap: &mut buddy_system_allocator::Heap<32>, size: usize, align: usize) -> (r: Option<
    usize,
>)
    requires
        is_layout(size, align),
    ensures
        r == heap_answers(*old(heap)).get((size, align)),
        heap_region(*final(heap)) == heap_region(*old(heap)),
        match r {
            Some(addr) => {
                &&& addr != 0
                &&& addr & (align - 1) as usize == 0
                &&& heap_region(*old(heap)).contains(addr)
                &&& forall|b: usize|
                    addr <= b < addr + size ==> heap_region(*old(heap)).contains(b)
                &&& !heap_taken(*old(heap)).contains_key(addr)
                &&& forall|o: usize| #[trigger]
                    heap_taken(*old(heap)).contains_key(o) ==> addr + size <= o || o + heap_taken(
                        *old(heap),
                    )[o].0 <= addr
                &&& heap_taken(*final(heap)) == heap_taken(*old(heap)).insert(addr, (size, align))
            },
            None => *final(heap) == *old(heap),
        },
{
    match std::alloc::Layout::from_size_align(size, align) {
        Ok(layout) => heap.alloc(layout).ok().map(|p| p.addr().get()),
        Err(_) => None,
    }
}

/// `Heap::dealloc` of the crate `buddy_system_allocator`: what was handed out with this size and
/// alignment is free again, so that a request of the same size and alignment can be served.
#[verifier::external_body]
fn heap_dealloc(heap: &mut buddy_system_allocator::Heap<32>, addr: usize, size: usize, align: usize)
    requires
        is_layout(size, align),
        heap_taken(*old(heap)).contains_key(addr),
        heap_taken(*old(heap))[addr] == (size, align),
    ensures
        heap_region(*final(heap)) == heap_region(*old(heap)),
        heap_taken(*final(heap)) == heap_taken(*old(heap)).remove(addr),
        heap_answers(*final(heap)).contains_key((size, align)),
{
    let ptr = std::ptr::NonNull::new(std::ptr::with_exposed_provenance_mut(addr));
    if let (Some(p), Ok(l)) = (ptr, std::alloc::Layout::from_size_align(size, align)) {
        heap.dealloc(p, l);
    }
}

/// An allocation that took whole page frames.
#[derive(Debug)]
pub struct LargeAllocation {
    pub addr: usize,
    pub size: usize,
    pub frames: Vec<FrameTracker>,
}

/// The allocator for whole page frames: a record of each allocation.
pub struct LargeAllocator {
    pub allocations: Vec<LargeAllocation>,
}

/// How many page frames all allocations have.
pub open spec fn total_frames(allocations: Seq<LargeAllocation>) -> int
    decreases allocations.len(),
{
    if allocations.len() == 0 {
        0
    } else {
        total_frames(allocations.drop_last()) + allocations.last().frames@.len()
    }
}

proof fn lemma_total_frames(allocations: Seq<LargeAllocation>, n: int)
    requires
        0 <= n <= allocations.len(),
    ensures
        0 <= total_frames(allocations.take(n)) <= total_frames(allocations),
    decreases allocations.len(),
{
    if n == allocations.len() {
        assert(allocations.take(n) =~= allocations);
        if n > 0 {
            lemma_total_frames(allocations.drop_last(), 0);
            assert(allocations.drop_last().take(0) =~= Seq::empty());
        }
    } else {
        assert(allocations.take(n) =~= allocations.drop_last().take(n));
        lemma_total_frames(allocations.drop_last(), n);
    }
}

/// The allocation was made at exactly this address and with this size.
pub open spec fn is_exactly(a: LargeAllocation, addr: usize, size: usize) -> bool {
    a.addr == addr && a.size == size
}

/// The address lies in the allocation.
pub open spec fn encloses(a: LargeAllocation, addr: usize) -> bool {
    a.addr <= addr < a.addr + a.size
}

/// The allocation that is freed: the first that was made at exactly this address and with this size;
/// if there is none, the first that the address lies in.
pub open spec fn is_freed(allocations: Seq<LargeAllocation>, addr: usize, size: usize, i: int) -> bool {
    &&& 0 <= i < allocations.len()
    &&& if is_exactly(allocations[i], addr, size) {
        forall|j: int| 0 <= j < i ==> !is_exactly(#[trigger] allocations[j], addr, size)
    } else {
        &&& encloses(allocations[i], addr)
        &&& forall|j: int|
            0 <= j < allocations.len() ==> !is_exactly(#[trigger] allocations[j], addr, size)
        &&& forall|j: int| 0 <= j < i ==> !encloses(#[trigger] allocations[j], addr)
    }
}

/// Some allocation is freed.
pub open spec fn some_freed(allocations: Seq<LargeAllocation>, addr: usize, size: usize) -> bool {
    exists|i: int| is_freed(allocations, addr, size, i)
}

/// How many page frames an allocation of the size takes.
pub fn large_pages(size: usize) -> (r: usize)
    requires
        size + PAGE_SIZE - 1 <= usize::MAX,
    ensures
        r == (size + PAGE_SIZE - 1) / PAGE_SIZE as int,
{
    (size + (PAGE_SIZE - 1)) / PAGE_SIZE
}

impl LargeAllocator {
    /// No allocations.
    pub fn new() -> (r: LargeAllocator)
        ensures
            r.allocations@.len() == 0,
    {
        LargeAllocator { allocations: Vec::new() }
    }

    /// Allocates whole page frames. `frames` is what the frame allocator answered to the request
    /// for `large_pages(size)` consecutive frames. Where the first does not lie at a multiple of
    /// the alignment, the frames are given back and the allocation fails.
    pub fn allocate(&mut self, size: usize, align: usize, frames: Option<Vec<FrameTracker>>) -> (r:
        Option<usize>)
        requires
            0 < size,
            size + PAGE_SIZE - 1 <= usize::MAX,
            align > 0,
            align & (align - 1) as usize == 0,
            frames matches Some(f) ==> {
                &&& f@.len() == (size + PAGE_SIZE - 1) / PAGE_SIZE as int
                &&& f@[0].paddr + align <= usize::MAX
            },
        ensures
            match frames {
                Some(f) if f@[0].paddr & (align - 1) as usize == 0 => {
                    &&& r == Some(f@[0].paddr)
                    &&& final(self).allocations@ == old(self).allocations@.push(
                        LargeAllocation { addr: f@[0].paddr, size, frames: f },
                    )
                },
                _ => r is None && *final(self) == *old(self),
            },
    {
        match frames {
            Some(frame_trackers) => {
                let ptr_addr: usize = frame_trackers[0].paddr;
                let aligned_addr: usize = (ptr_addr + align - 1) & !(align - 1);
                assert((ptr_addr + align - 1) as usize & !((align - 1) as usize) == ptr_addr
                    <==> ptr_addr & (align - 1) as usize == 0) by (bit_vector)
                    requires
                        align > 0,
                        align & (align - 1) as usize == 0,
                        ptr_addr + align - 1 <= 0xffff_ffff_ffff_ffff,
                        ptr_addr + align - 1 == (ptr_addr + align - 1) as usize,
                ;
                if aligned_addr != ptr_addr {
                    return None;
                }
                self.allocations.push(
                    LargeAllocation { addr: ptr_addr, size, frames: frame_trackers },
                );
                Some(ptr_addr)
            },
            None => None,
        }
    }

    /// Frees an allocation. Its frames come back, to be given to the frame allocator.
    pub fn dealloc(&mut self, ptr_addr: usize, size: usize) -> (r: Option<Vec<FrameTracker>>)
        ensures
            match r {
                Some(frames) => exists|i: int|
                    {
                        &&& is_freed(old(self).allocations@, ptr_addr, size, i)
                        &&& frames == (#[trigger] old(self).allocations@[i]).frames
                        &&& final(self).allocations@ == old(self).allocations@.remove(i)
                    },
                None => !some_freed(old(self).allocations@, ptr_addr, size) && *final(self)
                    == *old(self),
            },
    {
        let ghost before = self.allocations@;
        let mut i: usize = 0;
        while i < self.allocations.len()
            invariant
                self.allocations@ == before,
                *self == *old(self),
                i <= before.len(),
                forall|j: int| 0 <= j < i ==> !is_exactly(#[trigger] before[j], ptr_addr, size),
            decreases before.len() - i,
        {
            if self.allocations[i].addr == ptr_addr && self.allocations[i].size == size {
                assert(is_exactly(before[i as int], ptr_addr, size));
                assert(is_freed(before, ptr_addr, size, i as int));
                let freed: LargeAllocation = self.allocations.remove(i);
                return Some(freed.frames);
            }
            i = i + 1;
        }
        let mut k: usize = 0;
        while k < self.allocations.len()
            invariant
                self.allocations@ == before,
                *self == *old(self),
                k <= before.len(),
                forall|j: int|
                    0 <= j < before.len() ==> !is_exactly(#[trigger] before[j], ptr_addr, size),
                forall|j: int| 0 <= j < k ==> !encloses(#[trigger] before[j], ptr_addr),
            decreases before.len() - k,
        {
            if ptr_addr >= self.allocations[k].addr && ptr_addr - self.allocations[k].addr
                < self.allocations[k].size {
                assert(encloses(before[k as int], ptr_addr));
                assert(!is_exactly(before[k as int], ptr_addr, size));
                assert(is_freed(before, ptr_addr, size, k as int));
                let freed: LargeAllocation = self.allocations.remove(k);
                return Some(freed.frames);
            }
            k = k + 1;
        }
        assert(!some_freed(before, ptr_addr, size)) by {
            if some_freed(before, ptr_addr, size) {
                let m = choose|m: int| is_freed(before, ptr_addr, size, m);
                assert(!is_exactly(before[m], ptr_addr, size));
                assert(!encloses(before[m], ptr_addr));
            }
        }
        None
    }

    /// How many allocations there are, and how many page frames they have.
    pub fn get_allocation_stats(&self) -> (r: (usize, usize))
        requires
            total_frames(self.allocations@) <= usize::MAX,
        ensures
            r.0 == self.allocations@.len(),
            r.1 == total_frames(self.allocations@),
    {
        let mut pages: usize = 0;
        let mut i: usize = 0;
        assert(self.allocations@.take(0) =~= Seq::empty());
        while i < self.allocations.len()
            invariant
                i <= self.allocations@.len(),
                total_frames(self.allocations@) <= usize::MAX,
                pages == total_frames(self.allocations@.take(i as int)),
            decreases self.allocations@.len() - i,
        {
            proof {
                lemma_total_frames(self.allocations@, i + 1);
                assert(self.allocations@.take(i + 1).drop_last() =~= self.allocations@.take(
                    i as int,
                ));
            }
            pages = pages + self.allocations[i].frames.len();
            i = i + 1;
        }
        assert(self.allocations@.take(i as int) =~= self.allocations@);
        (self.allocations.len(), pages)
    }
}

/// The allocator of the kernel: the heap first, and whole page frames for what is large and does not
/// fit there.
pub struct HybridAllocator {
    heap: buddy_system_allocator::Heap<32>,
    heap_start: usize,
    heap_size: usize,
    large: LargeAllocator,
}

/// How an allocation went.
#[derive(Clone, Copy, Debug, PartialEq, Eq, Structural)]
pub enum AllocStep {
    /// The memory lies at the address.
    Done(usize),
    /// There is no memory.
    Failed,
    /// So many consecutive frames are wanted; `alloc_large` goes on.
    NeedFrames(usize),
}

/// How an allocation goes on after the heap has answered: whole frames are wanted only where the heap
/// has no room and the request is large.
pub open spec fn routed(found: Option<usize>, size: usize) -> AllocStep {
    match found {
        Some(addr) => AllocStep::Done(addr),
        None => if size > LARGE_ALLOC_THRESHOLD {
            AllocStep::NeedFrames(((size + PAGE_SIZE - 1) / PAGE_SIZE as int) as usize)
        } else {
            AllocStep::Failed
        },
    }
}

/// The range of memory from the address on is one that the heap can hand out: it begins neither at
/// zero nor askew, it belongs to the heap, and none of it is in use.
pub open spec fn is_vacant(
    heap: buddy_system_allocator::Heap<32>,
    addr: usize,
    size: usize,
    align: usize,
) -> bool {
    &&& addr != 0
    &&& addr & (align - 1) as usize == 0
    &&& heap_region(heap).contains(addr)
    &&& forall|b: usize| addr <= b < addr + size ==> heap_region(heap).contains(b)
    &&& !heap_taken(heap).contains_key(addr)
    &&& forall|o: usize| #[trigger]
        heap_taken(heap).contains_key(o) ==> addr + size <= o || o + heap_taken(heap)[o].0 <= addr
}

/// What an allocation leads to: what the heap answers, if it has an answer; else nothing changes, and
/// whole frames are wanted for what is large.
pub open spec fn allocated(
    before: HybridAllocator,
    after: HybridAllocator,
    size: usize,
    align: usize,
    step: AllocStep,
) -> bool {
    &&& step == routed(heap_answers(before.heap()).get((size, align)), size)
    &&& match step {
        AllocStep::Done(addr) => {
            &&& is_vacant(before.heap(), addr, size, align)
            &&& before.in_heap(addr)
            &&& after.same_but_heap(before)
            &&& heap_region(after.heap()) == heap_region(before.heap())
            &&& heap_taken(after.heap()) == heap_taken(before.heap()).insert(addr, (size, align))
        },
        _ => after == before,
    }
}

/// What freeing leads to: nothing for the null pointer; the heap has the memory again if it lies
/// there; else the page frames come back.
pub open spec fn freed(
    before: HybridAllocator,
    after: HybridAllocator,
    addr: usize,
    size: usize,
    align: usize,
    frames: Option<Vec<FrameTracker>>,
) -> bool {
    if addr == 0 {
        frames is None && after == before
    } else if before.in_heap(addr) {
        &&& frames is None
        &&& after.same_but_heap(before)
        &&& heap_region(after.heap()) == heap_region(before.heap())
        &&& heap_taken(after.heap()) == heap_taken(before.heap()).remove(addr)
        &&& heap_answers(after.heap()).contains_key((size, align))
    } else {
        &&& after.same_but_large(before)
        &&& match frames {
            Some(f) => exists|i: int|
                {
                    &&& is_freed(before.large().allocations@, addr, size, i)
                    &&& f == (#[trigger] before.large().allocations@[i]).frames
                    &&& after.large().allocations@ == before.large().allocations@.remove(i)
                },
            None => !some_freed(before.large().allocations@, addr, size) && after == before,
        }
    }
}

impl HybridAllocator {
    /// The heap.
    pub closed spec fn heap(&self) -> buddy_system_allocator::Heap<32> {
        self.heap
    }

    /// Where the heap lies.
    pub closed spec fn heap_start(&self) -> usize {
        self.heap_start
    }

    /// How many bytes the heap may have.
    pub closed spec fn heap_size(&self) -> usize {
        self.heap_size
    }

    /// The allocator for whole page frames.
    pub closed spec fn large(&self) -> LargeAllocator {
        self.large
    }

    /// Nothing but the heap differs.
    pub open spec fn same_but_heap(&self, other: HybridAllocator) -> bool {
        &&& self.heap_start() == other.heap_start()
        &&& self.heap_size() == other.heap_size()
        &&& self.large() == other.large()
    }

    /// Nothing but the allocator for whole frames differs.
    pub open spec fn same_but_large(&self, other: HybridAllocator) -> bool {
        &&& self.heap() == other.heap()
        &&& self.heap_start() == other.heap_start()
        &&& self.heap_size() == other.heap_size()
    }

    /// The address lies where the heap lies.
    pub open spec fn in_heap(&self, addr: usize) -> bool {
        self.heap_start() <= addr < self.heap_start() + self.heap_size()
    }

    /// What the heap was given lies where the heap lies.
    pub open spec fn wf(&self) -> bool {
        &&& self.heap_start() + self.heap_size() <= usize::MAX
        &&& forall|a: usize| #[trigger] heap_region(self.heap()).contains(a) ==> self.in_heap(a)
    }

    /// The address was handed out with this size and alignment and may be freed.
    pub open spec fn may_free(&self, addr: usize, size: usize, align: usize) -> bool {
        addr != 0 && self.in_heap(addr) ==> {
            &&& heap_taken(self.heap()).contains_key(addr)
            &&& heap_taken(self.heap())[addr] == (size, align)
        }
    }

    /// An allocator around a heap that has its memory at the address, and no more than that.
    pub fn with_heap(heap: buddy_system_allocator::Heap<32>, heap_start: usize) -> (r:
        HybridAllocator)
        requires
            heap_start + HEAP_SIZE <= usize::MAX,
            forall|a: usize| #[trigger]
                heap_region(heap).contains(a) ==> heap_start <= a < heap_start + HEAP_SIZE,
        ensures
            r.wf(),
            r.heap() == heap,
            r.heap_start() == heap_start,
            r.heap_size() == HEAP_SIZE,
            r.large().allocations@.len() == 0,
    {
        HybridAllocator { heap, heap_start, heap_size: HEAP_SIZE, large: LargeAllocator::new() }
    }

    /// Allocates memory: from the heap if there is room; else, if it is large, whole page frames are
    /// wanted.
    pub fn allocate(&mut self, size: usize, align: usize) -> (r: AllocStep)
        requires
            old(self).wf(),
            is_layout(size, align),
        ensures
            final(self).wf(),
            allocated(*old(self), *final(self), size, align, r),
    {
        let ghost before = *self;
        let found: Option<usize> = heap_alloc(&mut self.heap, size, align);
        assert(heap_region(self.heap()) == heap_region(before.heap()));
        self.route(found, size)
    }

    /// Decides how an allocation goes on after the heap has answered.
    pub fn route(&self, found: Option<usize>, size: usize) -> (r: AllocStep)
        requires
            size + PAGE_SIZE - 1 <= usize::MAX,
        ensures
            r == routed(found, size),
    {
        match found {
            Some(addr) => AllocStep::Done(addr),
            None => {
                if size > LARGE_ALLOC_THRESHOLD {
                    AllocStep::NeedFrames(large_pages(size))
                } else {
                    AllocStep::Failed
                }
            },
        }
    }

    /// Goes on with a large allocation for which the heap had no room, with what the frame allocator
    /// answered.
    pub fn alloc_large(&mut self, size: usize, align: usize, frames: Option<Vec<FrameTracker>>) -> (r:
        AllocStep)
        requires
            old(self).wf(),
            0 < size,
            size + PAGE_SIZE - 1 <= usize::MAX,
            align > 0,
            align & (align - 1) as usize == 0,
            frames matches Some(f) ==> {
                &&& f@.len() == (size + PAGE_SIZE - 1) / PAGE_SIZE as int
                &&& f@[0].paddr + align <= usize::MAX
            },
        ensures
            final(self).wf(),
            final(self).same_but_large(*old(self)),
            match frames {
                Some(f) if f@[0].paddr & (align - 1) as usize == 0 => {
                    &&& r == AllocStep::Done(f@[0].paddr)
                    &&& final(self).large().allocations@ == old(self).large().allocations@.push(
                        LargeAllocation { addr: f@[0].paddr, size, frames: f },
                    )
                },
                _ => r == AllocStep::Failed && *final(self) == *old(self),
            },
    {
        let ghost before = *self;
        let placed: Option<usize> = self.large.allocate(size, align, frames);
        assert(heap_region(self.heap()) == heap_region(before.heap()));
        match placed {
            Some(addr) => AllocStep::Done(addr),
            None => AllocStep::Failed,
        }
    }

    /// Frees memory: nothing for the null pointer, the heap's if it lies there, else page frames,
    /// which come back to be given to the frame allocator.
    pub fn dealloc(&mut self, addr: usize, size: usize, align: usize) -> (r: Option<
        Vec<FrameTracker>,
    >)
        requires
            old(self).wf(),
            is_layout(size, align),
            old(self).may_free(addr, size, align),
        ensures
            final(self).wf(),
            freed(*old(self), *final(self), addr, size, align, r),
    {
        let ghost before = *self;
        if addr == 0 {
            return None;
        }
        if addr >= self.heap_start && addr < self.heap_start + self.heap_size {
            heap_dealloc(&mut self.heap, addr, size, align);
            assert(heap_region(self.heap()) == heap_region(before.heap()));
            None
        } else {
            let frames: Option<Vec<FrameTracker>> = self.large.dealloc(addr, size);
            assert(heap_region(self.heap()) == heap_region(before.heap()));
            assert(before.large() == before.large && self.large() == self.large);
            frames
        }
    }

    /// What is reported when memory is exhausted: the request, the heap, the free page frames and,
    /// for a large request, the state of the allocator for whole frames.
    pub fn alloc_error_handler(&self, size: usize, align: usize, free_pages: usize) -> (r:
        AllocReport)
        requires
            self.wf(),
            free_pages * PAGE_SIZE <= usize::MAX,
            size + PAGE_SIZE - 1 <= usize::MAX,
            size > LARGE_ALLOC_THRESHOLD ==> total_frames(self.large().allocations@) <= usize::MAX,
        ensures
            r.size == size,
            r.align == align,
            r.heap_size == self.heap_size(),
            r.heap_mb == self.heap_size() / 0x10_0000,
            r.heap_start == self.heap_start(),
            r.heap_end == self.heap_start() + self.heap_size(),
            r.free_pages == free_pages,
            r.free_kb == free_pages * 4,
            r.large == (if size > LARGE_ALLOC_THRESHOLD {
                Some(
                    LargeReport {
                        allocations: self.large().allocations@.len() as usize,
                        pages: total_frames(self.large().allocations@) as usize,
                        pages_needed: ((size + PAGE_SIZE - 1) / PAGE_SIZE as int) as usize,
                        insufficient: free_pages < (size + PAGE_SIZE - 1) / PAGE_SIZE as int,
                    },
                )
            } else {
                None
            }),
    {
        let large: Option<LargeReport> = if size > LARGE_ALLOC_THRESHOLD {
            let (allocations, pages) = self.large.get_allocation_stats();
            let pages_needed: usize = large_pages(size);
            Some(
                LargeReport {
                    allocations,
                    pages,
                    pages_needed,
                    insufficient: free_pages < pages_needed,
                },
            )
        } else {
            None
        };
        AllocReport {
            size,
            align,
            heap_size: self.heap_size,
            heap_mb: self.heap_size / (1024 * 1024),
            heap_start: self.heap_start,
            heap_end: self.heap_start + self.heap_size,
            free_pages,
            free_kb: free_pages * PAGE_SIZE / 1024,
            large,
        }
    }
}

/// The state of the allocator for whole frames when a large request failed.
#[derive(Clone, Copy, Debug, PartialEq, Eq, Structural)]
pub struct LargeReport {
    pub allocations: usize,
    pub pages: usize,
    pub pages_needed: usize,
    /// There are fewer free frames than the request needs.
    pub insufficient: bool,
}

/// What is reported when memory is exhausted.
#[derive(Clone, Copy, Debug, PartialEq, Eq, Structural)]
pub struct AllocReport {
    pub size: usize,
    pub align: usize,
    pub heap_size: usize,
    pub heap_mb: usize,
    pub heap_start: usize,
    pub heap_end: usize,
    pub free_pages: usize,
    pub free_kb: usize,
    pub large: Option<LargeReport>,
}

/// The heap has exactly the `HEAP_SIZE` bytes at the address, and none of them is in use.
pub open spec fn is_fresh(heap: buddy_system_allocator::Heap<32>, heap_start: usize) -> bool {
    &&& forall|a: usize| #[trigger]
        heap_region(heap).contains(a) <==> heap_start <= a < heap_start + HEAP_SIZE
    &&& heap_taken(heap).dom() == Set::<usize>::empty()
}

/// Sets up the allocator, with a heap that has just got the `HEAP_SIZE` bytes at the address.
pub fn init(heap: buddy_system_allocator::Heap<32>, heap_start: usize) -> (r: HybridAllocator)
    requires
        heap_start + HEAP_SIZE <= usize::MAX,
        is_fresh(heap, heap_start),
    ensures
        r.wf(),
        r.heap() == heap,
        is_fresh(r.heap(), heap_start),
        r.heap_start() == heap_start,
        r.heap_size() == HEAP_SIZE,
        r.large().allocations@.len() == 0,
{
    HybridAllocator::with_heap(heap, heap_start)
}

/// Freeing a large allocation with the size with which it was just made gives back exactly its
/// frames and leaves all others, unless one with the same address and size was there before.
pub proof fn law_large_round_trip(
    before: Seq<LargeAllocation>,
    made: LargeAllocation,
    i: int,
)
    requires
        forall|j: int|
            0 <= j < before.len() ==> !is_exactly(#[trigger] before[j], made.addr, made.size),
        is_freed(before.push(made), made.addr, made.size, i),
    ensures
        i == before.len(),
        before.push(made).remove(i) == before,
{
    let now = before.push(made);
    assert(is_exactly(now[before.len() as int], made.addr, made.size));
    if i < before.len() {
        assert(!is_exactly(before[i], made.addr, made.size));
        assert(now[i] == before[i]);
    }
    assert(now.remove(i) =~= before);
}

/// Which allocation is freed is determined by the record.
pub proof fn law_freed_is_unique(
    allocations: Seq<LargeAllocation>,
    addr: usize,
    size: usize,
    i: int,
    j: int,
)
    requires
        is_freed(allocations, addr, size, i),
        is_freed(allocations, addr, size, j),
    ensures
        i == j,
{
}

/// Memory that the heap handed out can be freed. It is then as free as before: the heap has the same
/// memory and the same ranges in use, the record of whole frames is the same, and a request of the
/// same size and alignment can be served.
pub proof fn law_freed_memory_is_free(
    before: HybridAllocator,
    between: HybridAllocator,
    after: HybridAllocator,
    addr: usize,
    size: usize,
    align: usize,
    frames: Option<Vec<FrameTracker>>,
)
    requires
        before.wf(),
        allocated(before, between, size, align, AllocStep::Done(addr)),
        freed(between, after, addr, size, align, frames),
    ensures
        between.may_free(addr, size, align),
        frames is None,
        after.same_but_heap(before),
        heap_region(after.heap()) == heap_region(before.heap()),
        heap_taken(after.heap()) == heap_taken(before.heap()),
        routed(heap_answers(after.heap()).get((size, align)), size) is Done,
{
    assert(heap_taken(after.heap()) =~= heap_taken(before.heap()));
}

/// Whatever the heap hands out lies where the heap lies, from its first byte to its last.
pub proof fn law_ranges_lie_in_the_heap(
    before: HybridAllocator,
    after: HybridAllocator,
    addr: usize,
    size: usize,
    align: usize,
)
    requires
        before.wf(),
        allocated(before, after, size, align, AllocStep::Done(addr)),
    ensures
        before.in_heap(addr),
        addr + size <= before.heap_start() + before.heap_size(),
{
    let end = before.heap_start() + before.heap_size();
    if addr + size > end {
        assert(heap_region(before.heap()).contains(end as usize));
    }
}

/// Two ranges that the heap hands out one after the other have nothing in common.
pub proof fn law_ranges_are_apart(
    before: HybridAllocator,
    between: HybridAllocator,
    after: HybridAllocator,
    addr: usize,
    size: usize,
    align: usize,
    other: usize,
    other_size: usize,
    other_align: usize,
)
    requires
        allocated(before, between, size, align, AllocStep::Done(addr)),
        allocated(between, after, other_size, other_align, AllocStep::Done(other)),
    ensures
        addr != other,
        addr + size <= other || other + other_size <= addr,
{
    assert(heap_taken(between.heap()).contains_key(addr));
}

/// Whole frames are asked for only where the heap has no room, and then the heap stays as it is.
pub proof fn law_heap_comes_first(
    before: HybridAllocator,
    after: HybridAllocator,
    size: usize,
    align: usize,
    step: AllocStep,
)
    requires
        allocated(before, after, size, align, step),
    ensures
        heap_answers(before.heap()).contains_key((size, align)) <==> step is Done,
        step is NeedFrames ==> size > LARGE_ALLOC_THRESHOLD && after == before,
{
}

/// Freeing by address and size takes the first allocation that was made with both; only if there is
/// none, the first that the address lies in; and nothing if there is none of these either.
pub proof fn law_allocation_that_is_freed(
    allocations: Seq<LargeAllocation>,
    addr: usize,
    size: usize,
    i: int,
    j: int,
)
    requires
        is_freed(allocations, addr, size, i),
        0 <= j < allocations.len(),
    ensures
        0 <= i < allocations.len(),
        allocations[i].addr <= addr,
        allocations[i].addr == addr || addr < allocations[i].addr + allocations[i].size,
        allocations[j].addr == addr && allocations[j].size == size ==> i <= j
            && allocations[i].addr == addr && allocations[i].size == size,
        (allocations[i].addr != addr || allocations[i].size != size) && allocations[j].addr <= addr
            && addr < allocations[j].addr + allocations[j].size ==> i <= j,
{
    assert(is_exactly(allocations[j], addr, size) == (allocations[j].addr == addr
        && allocations[j].size == size));
    assert(encloses(allocations[j], addr) == (allocations[j].addr <= addr && addr
        < allocations[j].addr + allocations[j].size));
}

/// Some allocation is freed whenever one was made with the address and the size, or the address lies
/// in one.
pub proof fn law_something_is_freed(
    allocations: Seq<LargeAllocation>,
    addr: usize,
    size: usize,
    k: int,
)
    requires
        0 <= k < allocations.len(),
        (allocations[k].addr == addr && allocations[k].size == size) || (allocations[k].addr <= addr
            && addr < allocations[k].addr + allocations[k].size),
    ensures
        some_freed(allocations, addr, size),
    decreases k,
{
    if exists|j: int|
        0 <= j < allocations.len() && is_exactly(#[trigger] allocations[j], addr, size) {
        let j = choose|j: int|
            0 <= j < allocations.len() && is_exactly(#[trigger] allocations[j], addr, size);
        lemma_first_exact(allocations, addr, size, j);
    } else {
        assert(!is_exactly(allocations[k], addr, size));
        if exists|j: int| 0 <= j < k && encloses(#[trigger] allocations[j], addr) {
            let j = choose|j: int| 0 <= j < k && encloses(#[trigger] allocations[j], addr);
            law_something_is_freed(allocations, addr, size, j);
        } else {
            assert(is_freed(allocations, addr, size, k));
        }
    }
}

proof fn lemma_first_exact(allocations: Seq<LargeAllocation>, addr: usize, size: usize, j: int)
    requires
        0 <= j < allocations.len(),
        is_exactly(allocations[j], addr, size),
    ensures
        some_freed(allocations, addr, size),
    decreases j,
{
    if exists|m: int| 0 <= m < j && is_exactly(#[trigger] allocations[m], addr, size) {
        let m = choose|m: int| 0 <= m < j && is_exactly(#[trigger] allocations[m], addr, size);
        lemma_first_exact(allocations, addr, size, m);
    } else {
        assert(is_freed(allocations, addr, size, j));
    }
}

/// Requests of more than 256 KB that the heap cannot serve want whole frames, just enough of them;
/// smaller ones fail. What the heap serves is done.
pub proof fn law_large_requests_want_frames(found: Option<usize>, size: usize)
    requires
        size + 4095 <= usize::MAX,
    ensures
        found matches Some(addr) ==> routed(found, size) == AllocStep::Done(addr),
        found is None && size <= 262144 ==> routed(found, size) == AllocStep::Failed,
        found is None && size > 262144 ==> {
            &&& routed(found, size) is NeedFrames
            &&& routed(found, size)->NeedFrames_0 * 4096 >= size
            &&& (routed(found, size)->NeedFrames_0 - 1) * 4096 < size
        },
        HEAP_SIZE == 512 * 1024 * 1024,
{
}

/// What the heap hands out is never the null address, is aligned as asked for, and was neither handed
/// out before nor overlaps what was.
pub proof fn law_heap_hands_out_free_memory(
    before: HybridAllocator,
    after: HybridAllocator,
    size: usize,
    align: usize,
    addr: usize,
    o: usize,
)
    requires
        allocated(before, after, size, align, AllocStep::Done(addr)),
    ensures
        addr != 0,
        addr & (align - 1) as usize == 0,
        heap_region(before.heap()).contains(addr),
        before.heap_start() <= addr < before.heap_start() + before.heap_size(),
        !heap_taken(before.heap()).contains_key(addr),
        heap_taken(after.heap()).contains_key(addr),
        heap_taken(after.heap())[addr] == (size, align),
        heap_taken(before.heap()).contains_key(o) ==> {
            &&& o != addr
            &&& addr + size <= o || o + heap_taken(before.heap())[o].0 <= addr
            &&& heap_taken(after.heap()).contains_key(o)
            &&& heap_taken(after.heap())[o] == heap_taken(before.heap())[o]
        },
        after.large() == before.large(),
{
}

/// Freeing null does nothing. Freeing memory of the heap gives it back to the heap and touches nothing
/// else. Freeing anything else leaves the heap alone and gives back the frames of the allocation.
pub proof fn law_freeing(
    before: HybridAllocator,
    after: HybridAllocator,
    addr: usize,
    size: usize,
    align: usize,
    frames: Option<Vec<FrameTracker>>,
)
    requires
        freed(before, after, addr, size, align, frames),
    ensures
        addr == 0 ==> frames is None && after == before,
        addr != 0 && before.heap_start() <= addr && addr < before.heap_start() + before.heap_size()
            ==> {
            &&& frames is None
            &&& !heap_taken(after.heap()).contains_key(addr)
            &&& after.large() == before.large()
        },
        addr != 0 && !(before.heap_start() <= addr && addr < before.heap_start()
            + before.heap_size()) ==> {
            &&& after.heap() == before.heap()
            &&& frames is None ==> after.large() == before.large()
            &&& frames is Some ==> after.large().allocations@.len()
                == before.large().allocations@.len() - 1
            &&& frames is Some <==> some_freed(before.large().allocations@, addr, size)
        },
        after.heap_start() == before.heap_start(),
        after.heap_size() == before.heap_size(),
{
    if addr != 0 && !before.in_heap(addr) && frames is Some {
        let i = choose|i: int|
            {
                &&& is_freed(before.large().allocations@, addr, size, i)
                &&& frames->0 == (#[trigger] before.large().allocations@[i]).frames
                &&& after.large().allocations@ == before.large().allocations@.remove(i)
            };
        assert(is_freed(before.large().allocations@, addr, size, i));
    }
}

/// The frames of all allocations are counted.
pub proof fn law_frames_add_up(allocations: Seq<LargeAllocation>, a: LargeAllocation)
    ensures
        total_frames(Seq::empty()) == 0,
        total_frames(allocations.push(a)) == total_frames(allocations) + a.frames@.len(),
{
    assert(allocations.push(a).drop_last() =~= allocations);
}

/// A heap that was just set up has the 512 MiB from its address on and nothing else, and all of it is
/// free.
pub proof fn law_fresh_heap(heap: buddy_system_allocator::Heap<32>, heap_start: usize, a: usize)
    requires
        is_fresh(heap, heap_start),
    ensures
        heap_region(heap).contains(a) <==> heap_start <= a < heap_start + 512 * 1024 * 1024,
        !heap_taken(heap).contains_key(a),
{
    assert(!heap_taken(heap).dom().contains(a));
}

} // verus!
