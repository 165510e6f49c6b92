//! What the driver for virtual block devices decides and remembers.
use vstd::prelude::*;

use crate::memset::FrameTracker;

verus! {

/// The frames that are lent to devices.
pub struct VirtioContainer {
    pub frames: Vec<FrameTracker>,
}

/// The services that the driver needs from the kernel.
#[derive(Clone, Copy, Debug, PartialEq, Eq, Structural)]
pub struct HalImpl;

/// The bit that takes a physical address to where the kernel sees device registers.
pub const MMIO_BIT: u64 = 0x8000_0000_0000_0000;

/// The frame is one that a device gives back: its address is one of `pages` numbers, the first of
/// which is the number of the page at `paddr`.
pub open spec fn is_returned(frame: FrameTracker, paddr: usize, pages: usize) -> bool {
    (paddr >> 12) <= frame.paddr < (paddr >> 12) + pages
}

/// The frames that a device keeps, in their order.
pub open spec fn kept_frames(frames: Seq<FrameTracker>, paddr: usize, pages: usize) -> Seq<
    FrameTracker,
>
    decreases frames.len(),
{
    if frames.len() == 0 {
        Seq::empty()
    } else {
        let before = kept_frames(frames.drop_last(), paddr, pages);
        if is_returned(frames.last(), paddr, pages) {
            before
        } else {
            before.push(frames.last())
        }
    }
}

impl VirtioContainer {
    /// Nothing is lent.
    pub fn new() -> (r: VirtioContainer)
        ensures
            r.frames@.len() == 0,
    {
        VirtioContainer { frames: Vec::new() }
    }
}

impl HalImpl {
    /// Lends consecutive frames to a device. The answer is the physical address of the first.
    pub fn dma_alloc(&self, container: &mut VirtioContainer, frames: Vec<FrameTracker>) -> (r: usize)
        requires
            frames@.len() > 0,
        ensures
            r == frames@[0].paddr,
            final(container).frames@ == old(container).frames@ + frames@,
    {
        let paddr: usize = frames[0].paddr;
        let mut frames = frames;
        container.frames.append(&mut frames);
        paddr
    }

    /// Takes frames back from a device.
    pub fn dma_dealloc(&self, container: &mut VirtioContainer, paddr: usize, pages: usize) -> (r:
        i32)
        requires
            (paddr >> 12) + pages <= usize::MAX,
        ensures
            r == 0,
            final(container).frames@ == kept_frames(old(container).frames@, paddr, pages),
    {
        let ghost all = container.frames@;
        let phy_page: usize = paddr >> 12;
        let mut kept: Vec<FrameTracker> = Vec::new();
        let mut i: usize = 0;
        assert(all.take(0) =~= Seq::empty());
        while i < container.frames.len()
            invariant
                container.frames@ == all,
                i <= all.len(),
                phy_page == paddr >> 12,
                phy_page + pages <= usize::MAX,
                kept@ == kept_frames(all.take(i as int), paddr, pages),
            decreases all.len() - i,
        {
            assert(all.take(i + 1).drop_last() =~= all.take(i as int));
            let calc_page: usize = container.frames[i].paddr;
            if !(phy_page <= calc_page && calc_page < phy_page + pages) {
                kept.push(FrameTracker { paddr: calc_page });
            }
            i = i + 1;
        }
        assert(all.take(i as int) =~= all);
        container.frames = kept;
        0
    }

    /// Where the kernel sees device registers.
    pub fn mmio_phys_to_virt(&self, paddr: u64, _size: usize) -> (r: u64)
        ensures
            r == paddr | MMIO_BIT,
            r >= MMIO_BIT,
            paddr < MMIO_BIT ==> r == paddr + MMIO_BIT,
    {
        assert(paddr | 0x8000_0000_0000_0000u64 >= 0x8000_0000_0000_0000u64) by (bit_vector);
        assert(paddr < 0x8000_0000_0000_0000u64 ==> paddr | 0x8000_0000_0000_0000u64 == paddr
            + 0x8000_0000_0000_0000u64) by (bit_vector);
        paddr | MMIO_BIT
    }

    /// The physical address of a buffer: what the page table says, or else the address without the
    /// bits that mark kernel addresses.
    pub fn share(&self, buffer: usize, translated: Option<usize>, virt_addr_start: usize) -> (r:
        usize)
        ensures
            r == (match translated {
                Some(paddr) => paddr,
                None => buffer & !virt_addr_start,
            }),
    {
        match translated {
            Some(paddr) => paddr,
            None => buffer & !virt_addr_start,
        }
    }
}

/// A block device: its interrupts, and its size in sectors.
pub struct VirtIOBlock {
    pub irqs: Vec<u32>,
    pub sectors: u64,
}

/// The size of a sector in bytes.
pub const SECTOR_SIZE: usize = 0x200;

impl VirtIOBlock {
    /// The interrupts of the device.
    pub fn interrupts(&self) -> (r: &[u32])
        ensures
            r@ == self.irqs@,
    {
        self.irqs.as_slice()
    }

    /// The name of the driver.
    pub fn get_id(&self) -> (r: &'static str)
        ensures
            r@ == "virtio-blk"@,
    {
        "virtio-blk"
    }

    /// The size of the device in bytes.
    pub fn capacity(&self) -> (r: usize)
        requires
            self.sectors * SECTOR_SIZE <= usize::MAX,
        ensures
            r == self.sectors * SECTOR_SIZE,
    {
        self.sectors as usize * SECTOR_SIZE
    }
}

/// The record of a block device that has been found.
pub fn init(sectors: u64, irqs: Vec<u32>) -> (r: VirtIOBlock)
    ensures
        r.irqs == irqs,
        r.sectors == sectors,
{
    VirtIOBlock { irqs, sectors }
}

/// Taking frames back keeps exactly those that are not given back.
pub proof fn law_kept_frames(frames: Seq<FrameTracker>, paddr: usize, pages: usize, f: FrameTracker)
    ensures
        kept_frames(frames, paddr, pages).contains(f) <==> frames.contains(f) && !is_returned(
            f,
            paddr,
            pages,
        ),
    decreases frames.len(),
{
    if frames.len() > 0 {
        let rest = frames.drop_last();
        law_kept_frames(rest, paddr, pages, f);
        let before = kept_frames(rest, paddr, pages);
        let now = kept_frames(frames, paddr, pages);
        if now.contains(f) {
            let k = choose|k: int| 0 <= k < now.len() && now[k] == f;
            if k < before.len() {
                assert(before[k] == f);
                let m = choose|m: int| 0 <= m < rest.len() && rest[m] == f;
                assert(frames[m] == f);
            } else {
                assert(frames[frames.len() - 1] == f);
            }
        }
        if frames.contains(f) && !is_returned(f, paddr, pages) {
            let m = choose|m: int| 0 <= m < frames.len() && frames[m] == f;
            if m < rest.len() {
                assert(rest[m] == f);
                let k = choose|k: int| 0 <= k < before.len() && before[k] == f;
                assert(now[k] == f);
            } else {
                assert(now[before.len() as int] == f);
            }
        }
    }
}

/// A frame goes back if its address is one of as many numbers as pages are given back, from the
/// number of the page of the address on.
pub proof fn law_frames_that_go_back(frame: FrameTracker, paddr: usize, pages: usize)
    ensures
        is_returned(frame, paddr, pages) <==> paddr / 4096 <= frame.paddr && frame.paddr < paddr
            / 4096 + pages,
        SECTOR_SIZE == 512,
        MMIO_BIT == 0x8000_0000_0000_0000,
{
    assert(paddr >> 12usize == paddr / 4096usize) by (bit_vector);
}

/// Frames that are kept keep their order: one more frame is kept behind all others, or not at all.
pub proof fn law_kept_frames_keep_their_order(
    frames: Seq<FrameTracker>,
    f: FrameTracker,
    paddr: usize,
    pages: usize,
)
    ensures
        kept_frames(Seq::empty(), paddr, pages) == Seq::<FrameTracker>::empty(),
        is_returned(f, paddr, pages) ==> kept_frames(frames.push(f), paddr, pages) == kept_frames(
            frames,
            paddr,
            pages,
        ),
        !is_returned(f, paddr, pages) ==> kept_frames(frames.push(f), paddr, pages) == kept_frames(
            frames,
            paddr,
            pages,
        ) + seq![f],
{
    assert(frames.push(f).drop_last() =~= frames);
    let kept = kept_frames(frames, paddr, pages);
    assert(kept.push(f) =~= kept + seq![f]);
}

} // verus!
