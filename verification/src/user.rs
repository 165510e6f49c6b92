//! Running user programs: page faults, illegal instructions and system calls.
use std::sync::Arc;
use vstd::prelude::*;

use crate::errno::{encode_result, encoded, SysResult};
use crate::memset::{
    areas_aligned, first_holding, page_floor, page_of, some_holds, table_shared, tracks_aligned, AreaView,
    FileId, FrameTracker, MapTrack, MappingFlags, MemArea, MemType, PageEntry,
};
use crate::sigtypes::{SignalFlags, SIGILL, SIGSEGV};
use crate::task::{
    first_backed, segment_of, some_backed, ProcessControlBlock,
    ThreadControlBlock, TrapFrame, UserTask, TMS,
};
use crate::vfs::{min_int, min_usize, PAGE_SIZE};

verus! {

/// A thread together with the identifier under which it makes system calls.
pub struct UserTaskContainer {
    pub task: UserTask,
    pub tid: usize,
}

/// Whether a thread goes on after it came back to the kernel.
#[derive(Clone, Copy, Debug, PartialEq, Eq, Structural)]
pub enum UserTaskControlFlow {
    Continue,
    Break,
}

/// Where an address lies that no area holds.
#[derive(Clone, Copy, Debug, PartialEq, Eq, Structural)]
pub enum Region {
    /// Where the stack may grow.
    Stack,
    /// The page of the null pointer.
    Null,
    /// Where small programs have their code.
    Code,
    /// Where the heap may grow.
    Heap,
    /// Where threads keep their local storage.
    Tls,
    /// Anywhere else.
    Nowhere,
}

/// Local storage of threads begins here.
pub const TLS_START: u64 = 0x2_0000_0000;

/// Local storage of threads ends here.
pub const TLS_END: u64 = 0x3_0000_0000;

/// Where an address lies that no area holds.
pub open spec fn region_of(vaddr: usize) -> Region {
    if 0x7000_0000 <= vaddr < 0x8000_0000 {
        Region::Stack
    } else if vaddr < 0x1000 {
        Region::Null
    } else if 0x1_0000 <= vaddr < 0x10_0000 {
        Region::Code
    } else if 0x100_0000 <= vaddr < 0x200_0000 {
        Region::Heap
    } else if TLS_START <= vaddr < TLS_END {
        Region::Tls
    } else {
        Region::Nowhere
    }
}

/// Where an address lies that no area holds.
pub fn region(vaddr: usize) -> (r: Region)
    ensures
        r == region_of(vaddr),
{
    if vaddr >= 0x7000_0000 && vaddr < 0x8000_0000 {
        Region::Stack
    } else if vaddr < 0x1000 {
        Region::Null
    } else if vaddr >= 0x1_0000 && vaddr < 0x10_0000 {
        Region::Code
    } else if vaddr >= 0x100_0000 && vaddr < 0x200_0000 {
        Region::Heap
    } else if vaddr as u64 >= TLS_START && (vaddr as u64) < TLS_END {
        Region::Tls
    } else {
        Region::Nowhere
    }
}

/// Remembers the last fault on thread-local storage, so that a program that faults on the same
/// page again and again is ended.
#[derive(Clone, Copy, Debug, PartialEq, Eq, Structural)]
pub struct TlsGuard {
    pub last_addr: usize,
    pub count: usize,
}

/// So many faults on one page of thread-local storage in a row are one too many.
pub const TLS_FAULT_LIMIT: usize = 3;

/// A place in a file.
#[derive(Clone, Copy, Debug, PartialEq, Eq, Structural)]
pub struct FilePlace {
    pub file: FileId,
    pub offset: usize,
}

/// What has to be done next about a page fault.
#[derive(Clone, Copy, Debug, PartialEq, Eq, Structural)]
pub enum FaultStep {
    /// Nothing: the program goes on, or handles a signal.
    Done,
    /// Allocate a frame, which must not fail, copy the frame at `src` into it, and go on with
    /// `copy_page`.
    CopyPage { src: usize },
    /// Allocate a frame, which must not fail, fill it from the place in the file, if one is given,
    /// and go on with `fresh_page`, whether or not the read worked.
    FreshPage { source: Option<FilePlace> },
    /// Allocate a frame and go on with `stack_page`.
    StackPage,
    /// Let other threads in and go on with `code_fault`.
    FindCode,
    /// Ask for the size of the file and go on with `file_sized`.
    StatFile { file: FileId, offset: usize },
    /// Allocate a frame and go on with `code_page`.
    CodePage { file: FileId, offset: usize, file_size: usize },
    /// Read `len` bytes at `offset` of the file into the frame and go on with `file_read`.
    ReadFile { file: FileId, offset: usize, paddr: usize, len: usize },
    /// Allocate a frame and go on with `blank_page`.
    BlankPage,
    /// Allocate a frame and go on with `heap_page`.
    HeapPage,
    /// Allocate a frame and go on with `tls_page`.
    TlsPage,
    /// Fill the frame with zeros.
    ClearPage { paddr: usize },
    /// End the thread with the exit code.
    Exit { code: usize },
}

/// The frame at `k` is the first that is tracked for the page.
pub open spec fn first_tracked(tracks: Seq<MapTrack>, page: usize, k: int) -> bool {
    &&& 0 <= k < tracks.len()
    &&& tracks[k].vaddr == page
    &&& forall|j: int| 0 <= j < k ==> (#[trigger] tracks[j]).vaddr != page
}

/// Some frame is tracked for the page.
pub open spec fn is_tracked(tracks: Seq<MapTrack>, page: usize) -> bool {
    exists|k: int| 0 <= k < tracks.len() && (#[trigger] tracks[k]).vaddr == page
}

fn find_track(tracks: &Vec<MapTrack>, page: usize) -> (r: Option<usize>)
    ensures
        match r {
            Some(k) => first_tracked(tracks@, page, k as int),
            None => !is_tracked(tracks@, page),
        },
{
    let mut k: usize = 0;
    while k < tracks.len()
        invariant
            k <= tracks@.len(),
            forall|j: int| 0 <= j < k ==> (#[trigger] tracks@[j]).vaddr != page,
        decreases tracks@.len() - k,
    {
        if tracks[k].vaddr == page {
            return Some(k);
        }
        k = k + 1;
    }
    None
}

/// The rights with which a page of an area is mapped when it is touched.
pub open spec fn fault_flags(mtype: MemType, vaddr: usize) -> MappingFlags {
    if mtype == MemType::Mmap && vaddr >= TLS_START {
        MappingFlags::URW
    } else {
        MappingFlags::URWX
    }
}

fn flags_of_fault(mtype: MemType, vaddr: usize) -> (r: MappingFlags)
    ensures
        r == fault_flags(mtype, vaddr),
{
    if mtype == MemType::Mmap && vaddr as u64 >= TLS_START {
        MappingFlags::URW
    } else {
        MappingFlags::URWX
    }
}

/// The thread has got a signal, and nothing else about it is different.
pub open spec fn signalled(before: UserTask, after: UserTask, signal: usize) -> bool {
    &&& after == (UserTask {
        tcb: ThreadControlBlock { signal: after.tcb.signal, ..before.tcb },
        ..before
    })
    &&& after.tcb.signal@ == before.tcb.signal@.update(signal as int, true)
    &&& after.tcb.wf()
}

/// One page of the process leads to the frame, and nothing else is different.
pub open spec fn page_mapped(
    before: ProcessControlBlock,
    after: ProcessControlBlock,
    page: usize,
    paddr: usize,
    flags: MappingFlags,
) -> bool {
    &&& after == (ProcessControlBlock { page_table: after.page_table, ..before })
    &&& after.page_table@ == before.page_table@.insert(page, PageEntry { paddr, flags })
}

/// What a fault in an area leads to. A page with a frame of its own is mapped again; one that
/// others own too is copied first; one without a frame gets one. Shared memory is never copied:
/// the program gets a signal.
pub open spec fn fault_in_area(
    task: UserTask,
    task_after: UserTask,
    pcb: ProcessControlBlock,
    pcb_after: ProcessControlBlock,
    area: AreaView,
    vaddr: usize,
    owners: usize,
    step: FaultStep,
) -> bool {
    let page = page_of(vaddr);
    &&& !is_tracked(area.mtrackers, page) ==> {
        &&& step == FaultStep::FreshPage {
            source: match area.file {
                Some(file) => Some(FilePlace { file, offset: segment_of(area, vaddr).1 }),
                None => None,
            },
        }
        &&& task_after == task
        &&& pcb_after == pcb
    }
    &&& forall|k: int|
        first_tracked(area.mtrackers, page, k) ==> {
            let frame = (#[trigger] area.mtrackers[k]).tracker.paddr;
            if area.mtype == MemType::Shared {
                &&& step == FaultStep::Done
                &&& signalled(task, task_after, SIGSEGV)
                &&& pcb_after == pcb
            } else if owners > 1 {
                &&& step == (FaultStep::CopyPage { src: frame })
                &&& task_after == task
                &&& pcb_after == pcb
            } else {
                &&& step == FaultStep::Done
                &&& task_after == task
                &&& page_mapped(pcb, pcb_after, page, frame, fault_flags(area.mtype, vaddr))
            }
        }
}

/// What a fault leads to that no area holds.
pub open spec fn fault_outside(
    task: UserTask,
    task_after: UserTask,
    tls: TlsGuard,
    tls_after: TlsGuard,
    vaddr: usize,
    step: FaultStep,
) -> bool {
    let page = page_of(vaddr);
    match region_of(vaddr) {
        Region::Stack => step == FaultStep::StackPage && task_after == task && tls_after == tls,
        Region::Null => {
            &&& tls_after == tls
            &&& if task.tcb.signal.has(SIGSEGV as int) {
                step == (FaultStep::Exit { code: 139 }) && task_after == task
            } else {
                step == FaultStep::Done && signalled(task, task_after, SIGSEGV)
            }
        },
        Region::Code => step == FaultStep::FindCode && task_after == task && tls_after == tls,
        Region::Heap => step == FaultStep::HeapPage && task_after == task && tls_after == tls,
        Region::Tls => {
            &&& task_after == task
            &&& tls_after == (TlsGuard {
                last_addr: page,
                count: if tls.last_addr == page {
                    (tls.count + 1) as usize
                } else {
                    1
                },
            })
            &&& step == (if tls.last_addr == page && tls.count + 1 > TLS_FAULT_LIMIT {
                FaultStep::Exit { code: 1 }
            } else {
                FaultStep::TlsPage
            })
        },
        Region::Nowhere => {
            &&& step == FaultStep::Done
            &&& signalled(task, task_after, SIGSEGV)
            &&& tls_after == tls
        },
    }
}

/// What the first look at a page fault leads to, when the tracked frame has so many owners.
pub open spec fn fault_outcome(
    task: UserTask,
    task_after: UserTask,
    pcb: ProcessControlBlock,
    pcb_after: ProcessControlBlock,
    tls: TlsGuard,
    tls_after: TlsGuard,
    vaddr: usize,
    owners: usize,
    step: FaultStep,
) -> bool {
    &&& forall|i: int|
        first_holding(pcb.memset@, vaddr as int, i) ==> {
            &&& tls_after == tls
            &&& fault_in_area(
                task,
                task_after,
                pcb,
                pcb_after,
                #[trigger] pcb.memset@[i],
                vaddr,
                owners,
                step,
            )
        }
    &&& !some_holds(pcb.memset@, vaddr as int) ==> {
        &&& pcb_after == pcb
        &&& fault_outside(task, task_after, tls, tls_after, vaddr, step)
    }
}

/// The place in the file of a page that has no frame yet can be computed.
pub open spec fn fault_place_fits(pcb: ProcessControlBlock, vaddr: usize) -> bool {
    forall|i: int|
        first_holding(pcb.memset@, vaddr as int, i) && !is_tracked(
            pcb.memset@[i].mtrackers,
            page_of(vaddr),
        ) ==> {
            let area = #[trigger] pcb.memset@[i];
            page_of(vaddr) >= area.start && area.offset + (page_of(vaddr) - area.start)
                <= usize::MAX
        }
}

/// `Arc::strong_count`: how many owners the frame has at this moment. Other threads can change the
/// number at any time, so nothing is said of it but that the caller is an owner.
#[verifier::external_body]
fn frame_owners(frame: &Arc<FrameTracker>) -> (r: usize)
    ensures
        r >= 1,
{
    Arc::strong_count(frame)
}

fn add_signal(task: &mut UserTask, signal: usize)
    requires
        old(task).tcb.wf(),
        1 <= signal <= 64,
    ensures
        signalled(*old(task), *final(task), signal),
{
    task.tcb.signal.add_signal(SignalFlags::from_num(signal));
}

/// The first look at a page fault, when the frame that is tracked for the page, if there is one,
/// has `owners` owners.
pub fn cow_fault(
    task: &mut UserTask,
    pcb: &mut ProcessControlBlock,
    tls: &mut TlsGuard,
    vaddr: usize,
    owners: usize,
) -> (r: FaultStep)
    requires
        old(task).tcb.wf(),
        areas_aligned(old(pcb).memset@),
        fault_place_fits(*old(pcb), vaddr),
        old(tls).count < usize::MAX,
    ensures
        fault_outcome(
            *old(task),
            *final(task),
            *old(pcb),
            *final(pcb),
            *old(tls),
            *final(tls),
            vaddr,
            owners,
            r,
        ),
        final(task).tcb.wf(),
{
    let ghost areas = pcb.memset@;
    let page: usize = page_floor(vaddr);
    if let Some(i) = pcb.memset.find_area(vaddr) {
        assert forall|j: int| first_holding(areas, vaddr as int, j) implies j == i by {
            if j < i {
                assert(!areas[j].holds(vaddr as int));
            }
            if j > i {
                assert(!areas[i as int].holds(vaddr as int));
            }
        }
        assert(areas[i as int].holds(vaddr as int));
        assert(areas[i as int] == pcb.memset.areas@[i as int]@);
        let mtype: MemType = pcb.memset.areas[i].mtype;
        match find_track(&pcb.memset.areas[i].mtrackers, page) {
            Some(k) => {
                let ghost tracks = areas[i as int].mtrackers;
                assert forall|j: int| first_tracked(tracks, page, j) implies j == k by {
                    if j < k {
                        assert(tracks[j].vaddr != page);
                    }
                    if j > k {
                        assert(tracks[k as int].vaddr != page);
                    }
                }
                assert(tracks[k as int].vaddr == page);
                if mtype == MemType::Shared {
                    add_signal(task, SIGSEGV);
                    return FaultStep::Done;
                }
                let frame: usize = pcb.memset.areas[i].mtrackers[k].tracker.paddr;
                if owners > 1 {
                    return FaultStep::CopyPage { src: frame };
                }
                assert(tracks_aligned(tracks));
                task.map(pcb, frame, page, flags_of_fault(mtype, vaddr));
                return FaultStep::Done;
            },
            None => {
                let area: &MemArea = &pcb.memset.areas[i];
                let offset: usize = area.offset + (page - area.start);
                return match area.file {
                    Some(file) => FaultStep::FreshPage { source: Some(FilePlace { file, offset }) },
                    None => FaultStep::FreshPage { source: None },
                };
            },
        }
    }
    assert forall|j: int| !first_holding(areas, vaddr as int, j) by {
        if first_holding(areas, vaddr as int, j) {
            assert(areas[j].holds(vaddr as int));
        }
    }
    match region(vaddr) {
        Region::Stack => FaultStep::StackPage,
        Region::Null => {
            if task.tcb.signal.has_sig(SignalFlags::from_num(SIGSEGV)) {
                FaultStep::Exit { code: 128 + SIGSEGV }
            } else {
                add_signal(task, SIGSEGV);
                FaultStep::Done
            }
        },
        Region::Code => FaultStep::FindCode,
        Region::Heap => FaultStep::HeapPage,
        Region::Tls => {
            if tls.last_addr == page {
                tls.count = tls.count + 1;
                if tls.count > TLS_FAULT_LIMIT {
                    return FaultStep::Exit { code: 1 };
                }
            } else {
                tls.last_addr = page;
                tls.count = 1;
            }
            FaultStep::TlsPage
        },
        Region::Nowhere => {
            add_signal(task, SIGSEGV);
            FaultStep::Done
        },
    }
}

/// Handles a page fault: copies the page, maps it again, or finds a new one. The answer says what
/// has to be done next.
pub fn user_cow_int(
    task: &mut UserTask,
    pcb: &mut ProcessControlBlock,
    tls: &mut TlsGuard,
    vaddr: usize,
) -> (r: FaultStep)
    requires
        old(task).tcb.wf(),
        areas_aligned(old(pcb).memset@),
        fault_place_fits(*old(pcb), vaddr),
        old(tls).count < usize::MAX,
    ensures
        exists|owners: usize|
            owners >= 1 && #[trigger] fault_outcome(
                *old(task),
                *final(task),
                *old(pcb),
                *final(pcb),
                *old(tls),
                *final(tls),
                vaddr,
                owners,
                r,
            ),
        final(task).tcb.wf(),
{
    let page: usize = page_floor(vaddr);
    let mut owners: usize = 1;
    if let Some(i) = pcb.memset.find_area(vaddr) {
        if let Some(k) = find_track(&pcb.memset.areas[i].mtrackers, page) {
            owners = frame_owners(&pcb.memset.areas[i].mtrackers[k].tracker);
        }
    }
    cow_fault(task, pcb, tls, vaddr, owners)
}

/// The page of the address in the first area that holds it now has a frame of its own: the one
/// that was tracked for it is replaced, or else one more is tracked. The page leads to it.
pub open spec fn page_owned(
    before: ProcessControlBlock,
    after: ProcessControlBlock,
    i: int,
    tracks: Seq<MapTrack>,
    vaddr: usize,
    frame: FrameTracker,
) -> bool {
    let area = before.memset@[i];
    &&& after == (ProcessControlBlock {
        memset: after.memset,
        page_table: after.page_table,
        ..before
    })
    &&& after.memset@ == before.memset@.update(i, AreaView { mtrackers: tracks, ..area })
    &&& after.page_table@ == before.page_table@.insert(
        page_of(vaddr),
        PageEntry { paddr: frame.paddr, flags: fault_flags(area.mtype, vaddr) },
    )
}

/// Goes on with a fault after a shared page was copied into `frame`: from now on the page is this
/// process's own.
pub fn copy_page(
    task: &UserTask,
    pcb: &mut ProcessControlBlock,
    vaddr: usize,
    frame: FrameTracker,
) -> (r: FaultStep)
    requires
        frame.paddr % PAGE_SIZE == 0,
        exists|i: int|
            first_holding(old(pcb).memset@, vaddr as int, i) && is_tracked(
                (#[trigger] old(pcb).memset@[i]).mtrackers,
                page_of(vaddr),
            ),
    ensures
        r == FaultStep::Done,
        exists|i: int, k: int|
            #![trigger old(pcb).memset@[i].mtrackers[k]]
            {
                &&& first_holding(old(pcb).memset@, vaddr as int, i)
                &&& first_tracked(old(pcb).memset@[i].mtrackers, page_of(vaddr), k)
                &&& page_owned(
                    *old(pcb),
                    *final(pcb),
                    i,
                    old(pcb).memset@[i].mtrackers.update(
                        k,
                        MapTrack {
                            tracker: Arc::new(frame),
                            ..old(pcb).memset@[i].mtrackers[k]
                        },
                    ),
                    vaddr,
                    frame,
                )
            },
{
    let ghost before = *pcb;
    let ghost areas = pcb.memset@;
    let page: usize = page_floor(vaddr);
    proof {
        let j = choose|i: int|
            first_holding(areas, vaddr as int, i) && is_tracked(
                (#[trigger] areas[i]).mtrackers,
                page,
            );
        assert(areas[j].holds(vaddr as int));
    }
    if let Some(i) = pcb.memset.find_area(vaddr) {
        assert forall|j: int| first_holding(areas, vaddr as int, j) implies j == i by {
            if j < i {
                assert(!areas[j].holds(vaddr as int));
            }
            if j > i {
                assert(!areas[i as int].holds(vaddr as int));
            }
        }
        assert(areas[i as int] == pcb.memset.areas@[i as int]@);
        let mtype: MemType = pcb.memset.areas[i].mtype;
        if let Some(k) = find_track(&pcb.memset.areas[i].mtrackers, page) {
            let paddr: usize = frame.paddr;
            pcb.memset.areas[i].mtrackers[k].tracker = Arc::new(frame);
            let ghost tracks = areas[i as int].mtrackers.update(
                k as int,
                MapTrack { tracker: Arc::new(frame), ..areas[i as int].mtrackers[k as int] },
            );
            assert(pcb.memset.areas@[i as int].mtrackers@ =~= tracks);
            assert(pcb.memset@ =~= areas.update(
                i as int,
                AreaView { mtrackers: tracks, ..areas[i as int] },
            ));
            task.map(pcb, paddr, page, flags_of_fault(mtype, vaddr));
            assert(page_owned(before, *pcb, i as int, tracks, vaddr, frame));
        }
    }
    FaultStep::Done
}

/// Goes on with a fault after `frame` was filled for a page that had none.
pub fn fresh_page(
    task: &UserTask,
    pcb: &mut ProcessControlBlock,
    vaddr: usize,
    frame: FrameTracker,
) -> (r: FaultStep)
    requires
        frame.paddr % PAGE_SIZE == 0,
        some_holds(old(pcb).memset@, vaddr as int),
    ensures
        r == FaultStep::Done,
        exists|i: int|
            {
                &&& first_holding(old(pcb).memset@, vaddr as int, i)
                &&& page_owned(
                    *old(pcb),
                    *final(pcb),
                    i,
                    (#[trigger] old(pcb).memset@[i]).mtrackers.push(
                        MapTrack {
                            vaddr: page_of(vaddr),
                            tracker: Arc::new(frame),
                            rwx: 0b111,
                        },
                    ),
                    vaddr,
                    frame,
                )
            },
{
    let ghost before = *pcb;
    let ghost areas = pcb.memset@;
    let page: usize = page_floor(vaddr);
    if let Some(i) = pcb.memset.find_area(vaddr) {
        assert(areas[i as int] == pcb.memset.areas@[i as int]@);
        let mtype: MemType = pcb.memset.areas[i].mtype;
        let paddr: usize = frame.paddr;
        pcb.memset.areas[i].mtrackers.push(
            MapTrack { vaddr: page, tracker: Arc::new(frame), rwx: 0b111 },
        );
        let ghost tracks = areas[i as int].mtrackers.push(
            MapTrack { vaddr: page, tracker: Arc::new(frame), rwx: 0b111 },
        );
        assert(pcb.memset.areas@[i as int].mtrackers@ =~= tracks);
        assert(pcb.memset@ =~= areas.update(
            i as int,
            AreaView { mtrackers: tracks, ..areas[i as int] },
        ));
        task.map(pcb, paddr, page, flags_of_fault(mtype, vaddr));
        assert(page_owned(before, *pcb, i as int, tracks, vaddr, frame));
        assert(first_holding(areas, vaddr as int, i as int));
    }
    FaultStep::Done
}

/// A page was asked for: with a frame it is in the address space, without one the program gets a
/// signal.
pub open spec fn page_granted(
    task: UserTask,
    task_after: UserTask,
    pcb: ProcessControlBlock,
    pcb_after: ProcessControlBlock,
    vaddr: usize,
    mtype: MemType,
    frame: Option<FrameTracker>,
) -> bool {
    match frame {
        Some(f) => {
            &&& task_after == task
            &&& ProcessControlBlock::same_but_space(pcb, pcb_after)
            &&& pcb_after.space() == pcb.space().with_allocated(page_of(vaddr), mtype, seq![f])
        },
        None => signalled(task, task_after, SIGSEGV) && pcb_after == pcb,
    }
}

/// A frame, if there is one, lies at a page boundary.
pub open spec fn frame_aligned(frame: Option<FrameTracker>) -> bool {
    frame matches Some(f) ==> f.paddr % PAGE_SIZE == 0
}

fn add_page(
    task: &UserTask,
    pcb: &mut ProcessControlBlock,
    vaddr: usize,
    mtype: MemType,
    frame: FrameTracker,
) -> (r: usize)
    requires
        frame.paddr % PAGE_SIZE == 0,
    ensures
        r == frame.paddr,
        ProcessControlBlock::same_but_space(*old(pcb), *final(pcb)),
        final(pcb).space() == old(pcb).space().with_allocated(page_of(vaddr), mtype, seq![frame]),
{
    let paddr: usize = frame.paddr;
    let mut frames: Vec<FrameTracker> = Vec::new();
    frames.push(frame);
    assert(frames@ =~= seq![frame]);
    let _ = task.frame_alloc(pcb, page_floor(vaddr), mtype, 1, Some(frames));
    paddr
}

fn grant_page(
    task: &mut UserTask,
    pcb: &mut ProcessControlBlock,
    vaddr: usize,
    mtype: MemType,
    frame: Option<FrameTracker>,
) -> (r: FaultStep)
    requires
        old(task).tcb.wf(),
        frame_aligned(frame),
    ensures
        r == FaultStep::Done,
        page_granted(*old(task), *final(task), *old(pcb), *final(pcb), vaddr, mtype, frame),
        final(task).tcb.wf(),
{
    match frame {
        Some(f) => {
            let _ = add_page(task, pcb, vaddr, mtype, f);
        },
        None => {
            add_signal(task, SIGSEGV);
        },
    }
    FaultStep::Done
}

/// Goes on with a fault on the stack, with what the frame allocator answered.
pub fn stack_page(
    task: &mut UserTask,
    pcb: &mut ProcessControlBlock,
    vaddr: usize,
    frame: Option<FrameTracker>,
) -> (r: FaultStep)
    requires
        old(task).tcb.wf(),
        frame_aligned(frame),
    ensures
        r == FaultStep::Done,
        page_granted(
            *old(task),
            *final(task),
            *old(pcb),
            *final(pcb),
            vaddr,
            MemType::Stack,
            frame,
        ),
        final(task).tcb.wf(),
{
    grant_page(task, pcb, vaddr, MemType::Stack, frame)
}

/// Goes on with a fault in the heap, with what the frame allocator answered.
pub fn heap_page(
    task: &mut UserTask,
    pcb: &mut ProcessControlBlock,
    vaddr: usize,
    frame: Option<FrameTracker>,
) -> (r: FaultStep)
    requires
        old(task).tcb.wf(),
        frame_aligned(frame),
    ensures
        r == FaultStep::Done,
        page_granted(
            *old(task),
            *final(task),
            *old(pcb),
            *final(pcb),
            vaddr,
            MemType::Mmap,
            frame,
        ),
        final(task).tcb.wf(),
{
    grant_page(task, pcb, vaddr, MemType::Mmap, frame)
}

/// Goes on with a fault in the code for which no file could be read, with what the frame allocator
/// answered.
pub fn blank_page(
    task: &mut UserTask,
    pcb: &mut ProcessControlBlock,
    vaddr: usize,
    frame: Option<FrameTracker>,
) -> (r: FaultStep)
    requires
        old(task).tcb.wf(),
        frame_aligned(frame),
    ensures
        r == FaultStep::Done,
        page_granted(
            *old(task),
            *final(task),
            *old(pcb),
            *final(pcb),
            vaddr,
            MemType::CodeSection,
            frame,
        ),
        final(task).tcb.wf(),
{
    grant_page(task, pcb, vaddr, MemType::CodeSection, frame)
}

/// Goes on with a fault in the code: if the areas now have a file for the address, its size is
/// wanted, else a blank page.
pub fn code_fault(task: &UserTask, pcb: &ProcessControlBlock, vaddr: usize) -> (r: FaultStep)
    requires
        forall|i: int|
            first_backed(pcb.memset@, vaddr as int, i) ==> {
                let area = #[trigger] pcb.memset@[i];
                page_of(vaddr) >= area.start && area.offset + (page_of(vaddr) - area.start)
                    <= usize::MAX
            },
    ensures
        some_backed(pcb.memset@, vaddr as int) ==> exists|i: int|
            {
                &&& first_backed(pcb.memset@, vaddr as int, i)
                &&& r == (FaultStep::StatFile {
                    file: segment_of(#[trigger] pcb.memset@[i], vaddr).0,
                    offset: segment_of(pcb.memset@[i], vaddr).1,
                })
            },
        !some_backed(pcb.memset@, vaddr as int) ==> r == FaultStep::BlankPage,
{
    match task.get_elf_segment_for_addr(pcb, vaddr) {
        Some((file, offset, _len)) => {
            proof {
                let i = choose|i: int|
                    first_backed(pcb.memset@, vaddr as int, i) && (file, offset, _len)
                        == segment_of(#[trigger] pcb.memset@[i], vaddr);
                assert(pcb.memset@[i].holds(vaddr as int));
            }
            FaultStep::StatFile { file, offset }
        },
        None => FaultStep::BlankPage,
    }
}

/// Goes on with a fault in the code when the size of the file is known. Without a size, or behind
/// the end of the file, nothing is done.
pub fn file_sized(file: FileId, offset: usize, size: Option<usize>) -> (r: FaultStep)
    ensures
        r == (match size {
            Some(s) if offset < s => FaultStep::CodePage { file, offset, file_size: s },
            _ => FaultStep::Done,
        }),
{
    match size {
        Some(s) => {
            if offset >= s {
                FaultStep::Done
            } else {
                FaultStep::CodePage { file, offset, file_size: s }
            }
        },
        None => FaultStep::Done,
    }
}

/// Goes on with a fault in the code with what the frame allocator answered: the frame is mapped
/// and to be read, up to the end of the file; without a frame, a blank page is tried.
pub fn code_page(
    task: &UserTask,
    pcb: &mut ProcessControlBlock,
    vaddr: usize,
    file: FileId,
    offset: usize,
    file_size: usize,
    frame: Option<FrameTracker>,
) -> (r: FaultStep)
    requires
        offset < file_size,
        frame_aligned(frame),
    ensures
        match frame {
            Some(f) => {
                &&& r == (FaultStep::ReadFile {
                    file,
                    offset,
                    paddr: f.paddr,
                    len: min_int(PAGE_SIZE as int, file_size - offset) as usize,
                })
                &&& ProcessControlBlock::same_but_space(*old(pcb), *final(pcb))
                &&& final(pcb).space() == old(pcb).space().with_allocated(
                    page_of(vaddr),
                    MemType::CodeSection,
                    seq![f],
                )
            },
            None => r == FaultStep::BlankPage && *final(pcb) == *old(pcb),
        },
{
    match frame {
        Some(f) => {
            let paddr: usize = add_page(task, pcb, vaddr, MemType::CodeSection, f);
            let len: usize = min_usize(PAGE_SIZE, file_size - offset);
            FaultStep::ReadFile { file, offset, paddr, len }
        },
        None => FaultStep::BlankPage,
    }
}

/// Goes on with a fault in the code when the file was read, or could not be.
pub fn file_read(ok: bool) -> (r: FaultStep)
    ensures
        r == (if ok {
            FaultStep::Done
        } else {
            FaultStep::BlankPage
        }),
{
    if ok {
        FaultStep::Done
    } else {
        FaultStep::BlankPage
    }
}

/// Goes on with a fault in thread-local storage with what the frame allocator answered: the page is
/// to be cleared, and the count of faults starts anew; without a frame the program gets a signal.
pub fn tls_page(
    task: &mut UserTask,
    pcb: &mut ProcessControlBlock,
    tls: &mut TlsGuard,
    vaddr: usize,
    frame: Option<FrameTracker>,
) -> (r: FaultStep)
    requires
        old(task).tcb.wf(),
        frame_aligned(frame),
    ensures
        page_granted(
            *old(task),
            *final(task),
            *old(pcb),
            *final(pcb),
            vaddr,
            MemType::Mmap,
            frame,
        ),
        match frame {
            Some(f) => {
                &&& r == (FaultStep::ClearPage { paddr: f.paddr })
                &&& *final(tls) == (TlsGuard { count: 0, ..*old(tls) })
            },
            None => r == FaultStep::Done && *final(tls) == *old(tls),
        },
        final(task).tcb.wf(),
{
    match frame {
        Some(f) => {
            let paddr: usize = add_page(task, pcb, vaddr, MemType::Mmap, f);
            tls.count = 0;
            FaultStep::ClearPage { paddr }
        },
        None => {
            add_signal(task, SIGSEGV);
            FaultStep::Done
        },
    }
}

/// Handles an illegal instruction at `vaddr`. If a frame is tracked for that very address, the
/// instruction is skipped; else the program gets a signal, and the answer is that the page is to be
/// dumped for the log.
pub fn task_ilegal(
    task: &mut UserTask,
    pcb: &ProcessControlBlock,
    vaddr: usize,
    cx: &mut TrapFrame,
) -> (r: bool)
    requires
        old(task).tcb.wf(),
        old(cx).sepc <= usize::MAX - 2,
    ensures
        ({
            let known = exists|i: int|
                first_holding(pcb.memset@, vaddr as int, i) && is_tracked(
                    (#[trigger] pcb.memset@[i]).mtrackers,
                    vaddr,
                );
            if known {
                &&& !r
                &&& *final(task) == *old(task)
                &&& *final(cx) == (TrapFrame { sepc: (old(cx).sepc + 2) as usize, ..*old(cx) })
            } else {
                &&& r
                &&& signalled(*old(task), *final(task), SIGILL)
                &&& *final(cx) == *old(cx)
            }
        }),
        final(task).tcb.wf(),
{
    let ghost areas = pcb.memset@;
    if let Some(i) = pcb.memset.find_area(vaddr) {
        assert forall|j: int| first_holding(areas, vaddr as int, j) implies j == i by {
            if j < i {
                assert(!areas[j].holds(vaddr as int));
            }
            if j > i {
                assert(!areas[i as int].holds(vaddr as int));
            }
        }
        assert(areas[i as int] == pcb.memset.areas@[i as int]@);
        if let Some(k) = find_track(&pcb.memset.areas[i].mtrackers, vaddr) {
            assert(areas[i as int].mtrackers[k as int].vaddr == vaddr);
            assert(is_tracked(areas[i as int].mtrackers, vaddr));
            cx.sepc = cx.sepc + 2;
            return false;
        }
    } else {
        assert forall|j: int| !first_holding(areas, vaddr as int, j) by {
            if first_holding(areas, vaddr as int, j) {
                assert(areas[j].holds(vaddr as int));
            }
        }
    }
    add_signal(task, SIGILL);
    true
}

/// Why a program came back to the kernel.
#[derive(Clone, Copy, Debug, PartialEq, Eq, Structural)]
pub enum EscapeReason {
    NoReason,
    Irq,
    Timer,
    SysCall,
}

/// What to do after a program came back to the kernel.
#[derive(Clone, Copy, Debug, PartialEq, Eq, Structural)]
pub enum SyscallStep {
    /// Nothing more: the thread goes on, or leaves the signal handler.
    Flow(UserTaskControlFlow),
    /// Step over the call, carry out the system call with the number, and go on with
    /// `finish_syscall`.
    Dispatch(usize),
}

/// What to do after a program came back, where `sigreturn` is the number of the call that leaves a
/// signal handler.
pub open spec fn syscall_step(reason: EscapeReason, syscall: usize, sigreturn: usize) -> SyscallStep {
    if reason != EscapeReason::SysCall {
        SyscallStep::Flow(UserTaskControlFlow::Continue)
    } else if syscall == sigreturn {
        SyscallStep::Flow(UserTaskControlFlow::Break)
    } else {
        SyscallStep::Dispatch(syscall)
    }
}

/// The numbers that Linux gives, on one machine or another, to the call that leaves a signal handler.
pub open spec fn is_sigreturn(number: usize) -> bool {
    ||| number == 15
    ||| number == 101
    ||| number == 139
    ||| number == 172
    ||| number == 173
    ||| number == 4193
    ||| number == 5211
}

/// `Sysno::rt_sigreturn.id()` of the crate `syscalls`: the number of the call that leaves a signal
/// handler. The crate has a table for each machine; the number is that of one of these tables, and
/// which one is left open.
#[verifier::external_body]
fn sigreturn_number() -> (r: usize)
    ensures
        is_sigreturn(r),
{
    syscalls::Sysno::rt_sigreturn.id() as usize
}

impl UserTaskContainer {
    /// Decides what to do after a program came back to the kernel, where `sigreturn` is the number
    /// of the call that leaves a signal handler and the program ran for `elapsed` ticks.
    pub fn after_run(
        &self,
        pcb: &mut ProcessControlBlock,
        cx: &TrapFrame,
        reason: EscapeReason,
        elapsed: u64,
        sigreturn: usize,
    ) -> (r: SyscallStep)
        requires
            reason == EscapeReason::SysCall ==> old(pcb).tms.utime + elapsed <= u64::MAX,
        ensures
            r == syscall_step(reason, cx.syscall, sigreturn),
            *final(pcb) == (ProcessControlBlock {
                tms: TMS {
                    utime: if reason == EscapeReason::SysCall {
                        (old(pcb).tms.utime + elapsed) as u64
                    } else {
                        old(pcb).tms.utime
                    },
                    ..old(pcb).tms
                },
                ..*old(pcb)
            }),
    {
        if reason != EscapeReason::SysCall {
            return SyscallStep::Flow(UserTaskControlFlow::Continue);
        }
        pcb.tms.utime = pcb.tms.utime + elapsed;
        if cx.syscall == sigreturn {
            return SyscallStep::Flow(UserTaskControlFlow::Break);
        }
        SyscallStep::Dispatch(cx.syscall)
    }

    /// Decides what to do after a program came back to the kernel, having run for `elapsed` ticks.
    pub fn handle_syscall(
        &self,
        pcb: &mut ProcessControlBlock,
        cx: &TrapFrame,
        reason: EscapeReason,
        elapsed: u64,
    ) -> (r: SyscallStep)
        requires
            reason == EscapeReason::SysCall ==> old(pcb).tms.utime + elapsed <= u64::MAX,
        ensures
            exists|sigreturn: usize|
                is_sigreturn(sigreturn) && r == #[trigger] syscall_step(
                    reason,
                    cx.syscall,
                    sigreturn,
                ),
            *final(pcb) == (ProcessControlBlock {
                tms: TMS {
                    utime: if reason == EscapeReason::SysCall {
                        (old(pcb).tms.utime + elapsed) as u64
                    } else {
                        old(pcb).tms.utime
                    },
                    ..old(pcb).tms
                },
                ..*old(pcb)
            }),
    {
        let sigreturn: usize = sigreturn_number();
        self.after_run(pcb, cx, reason, elapsed, sigreturn)
    }

    /// Hands the outcome of a system call, which took `elapsed` ticks, to the program.
    pub fn finish_syscall(
        &self,
        pcb: &mut ProcessControlBlock,
        cx: &mut TrapFrame,
        result: SysResult,
        elapsed: u64,
    ) -> (r: UserTaskControlFlow)
        requires
            old(pcb).tms.stime + elapsed <= u64::MAX,
        ensures
            r == UserTaskControlFlow::Continue,
            final(cx).ret == encoded(result),
            *final(cx) == (TrapFrame { ret: final(cx).ret, ..*old(cx) }),
            *final(pcb) == (ProcessControlBlock {
                tms: TMS { stime: (old(pcb).tms.stime + elapsed) as u64, ..old(pcb).tms },
                ..*old(pcb)
            }),
    {
        cx.ret = encode_result(result);
        pcb.tms.stime = pcb.tms.stime + elapsed;
        UserTaskControlFlow::Continue
    }
}

/// After a page was given a frame of its own, the page leads to that frame and can be written; all
/// other pages lead where they led.
pub proof fn law_owned_page_is_writable(
    before: ProcessControlBlock,
    after: ProcessControlBlock,
    i: int,
    tracks: Seq<MapTrack>,
    vaddr: usize,
    frame: FrameTracker,
    other: usize,
)
    requires
        page_owned(before, after, i, tracks, vaddr, frame),
        other != page_of(vaddr),
    ensures
        after.page_table@.contains_key(page_of(vaddr)),
        after.page_table@[page_of(vaddr)].paddr == frame.paddr,
        after.page_table@[page_of(vaddr)].flags != MappingFlags::URX,
        after.page_table@.contains_key(other) == before.page_table@.contains_key(other),
        after.page_table@[other] == before.page_table@[other],
{
}

/// A thread that faults on the same page of thread-local storage again and again, without ever
/// getting it, is ended at the fourth fault at the latest.
pub proof fn law_tls_loop_ends(
    t0: UserTask,
    t1: UserTask,
    t2: UserTask,
    t3: UserTask,
    t4: UserTask,
    g0: TlsGuard,
    g1: TlsGuard,
    g2: TlsGuard,
    g3: TlsGuard,
    g4: TlsGuard,
    vaddr: usize,
    s1: FaultStep,
    s2: FaultStep,
    s3: FaultStep,
    s4: FaultStep,
)
    requires
        region_of(vaddr) == Region::Tls,
        g0.count < usize::MAX - 4,
        fault_outside(t0, t1, g0, g1, vaddr, s1),
        fault_outside(t1, t2, g1, g2, vaddr, s2),
        fault_outside(t2, t3, g2, g3, vaddr, s3),
        fault_outside(t3, t4, g3, g4, vaddr, s4),
    ensures
        s4 == (FaultStep::Exit { code: 1 }),
{
}

/// A null pointer is answered with a signal once, and with the end of the thread while that signal
/// still waits.
pub proof fn law_null_pointer_twice(
    t0: UserTask,
    t1: UserTask,
    t2: UserTask,
    g0: TlsGuard,
    g1: TlsGuard,
    g2: TlsGuard,
    vaddr: usize,
    s1: FaultStep,
    s2: FaultStep,
)
    requires
        vaddr < 0x1000,
        t0.tcb.wf(),
        fault_outside(t0, t1, g0, g1, vaddr, s1),
        fault_outside(t1, t2, g1, g2, vaddr, s2),
    ensures
        s2 == (FaultStep::Exit { code: 139 }),
{
}

/// While no other thread steps in, a fault in the code for which no area was found finds no file
/// either: the page stays blank.
pub proof fn law_code_outside_areas_is_blank(areas: Seq<AreaView>, vaddr: int)
    requires
        !some_holds(areas, vaddr),
    ensures
        !some_backed(areas, vaddr),
{
    if some_backed(areas, vaddr) {
        let i = choose|i: int|
            0 <= i < areas.len() && (#[trigger] areas[i]).holds(vaddr) && areas[i].file is Some;
        assert(areas[i].holds(vaddr));
    }
}

/// A page that a child process writes to after a fork is its own from then on: it leads to the new
/// frame and can be written, while the parent still reaches the frame that it had, and cannot write
/// to it without a fault.
pub proof fn law_write_after_fork_is_private(
    parent_table: Map<usize, PageEntry>,
    areas: Seq<AreaView>,
    i: int,
    k: int,
    child: ProcessControlBlock,
    child_after: ProcessControlBlock,
    area: int,
    tracks: Seq<MapTrack>,
    vaddr: usize,
    frame: FrameTracker,
)
    requires
        0 <= i < areas.len(),
        0 <= k < areas[i].mtrackers.len(),
        areas[i].mtrackers[k].vaddr == page_of(vaddr),
        child.page_table@ == table_shared(Map::empty(), areas),
        page_owned(child, child_after, area, tracks, vaddr, frame),
        frame.paddr != child.page_table@[page_of(vaddr)].paddr,
    ensures
        ({
            let page = page_of(vaddr);
            let parent = table_shared(parent_table, areas);
            &&& child_after.page_table@[page].paddr == frame.paddr
            &&& child_after.page_table@[page].flags != MappingFlags::URX
            &&& parent[page].paddr == child.page_table@[page].paddr
            &&& parent[page].paddr != frame.paddr
            &&& parent[page].flags == MappingFlags::URX
        }),
{
    crate::memset::law_fork_shares_pages(parent_table, areas, i, k);
}

/// The area at `i` is the one that decides about the address: it holds it, and no earlier one does.
pub open spec fn decides(areas: Seq<AreaView>, vaddr: usize, i: int) -> bool {
    &&& 0 <= i < areas.len()
    &&& areas[i].start <= vaddr < areas[i].start + areas[i].len
    &&& forall|j: int|
        0 <= j < i ==> vaddr < (#[trigger] areas[j]).start || areas[j].start + areas[j].len
            <= vaddr
}

proof fn lemma_decides(areas: Seq<AreaView>, vaddr: usize, i: int)
    requires
        decides(areas, vaddr, i),
    ensures
        first_holding(areas, vaddr as int, i),
        some_holds(areas, vaddr as int),
{
    assert(areas[i].holds(vaddr as int));
    assert forall|j: int| 0 <= j < i implies !(#[trigger] areas[j]).holds(vaddr as int) by {
        assert(vaddr < areas[j].start || areas[j].start + areas[j].len <= vaddr);
    }
}

/// A page of an area with a file that has no frame yet is filled from that file, whatever the type of
/// the area, from the place that lies as far behind the offset of the area as the page lies behind
/// its start. A page of an area without a file is filled from nowhere. Nothing changes yet.
pub proof fn law_file_pages_are_filled_from_the_file(
    task: UserTask,
    task_after: UserTask,
    pcb: ProcessControlBlock,
    pcb_after: ProcessControlBlock,
    tls: TlsGuard,
    tls_after: TlsGuard,
    vaddr: usize,
    owners: usize,
    step: FaultStep,
    i: int,
)
    requires
        fault_outcome(task, task_after, pcb, pcb_after, tls, tls_after, vaddr, owners, step),
        decides(pcb.memset@, vaddr, i),
        forall|k: int|
            0 <= k < pcb.memset@[i].mtrackers.len() ==> (
            #[trigger] pcb.memset@[i].mtrackers[k]).vaddr != vaddr - vaddr % 4096,
        pcb.memset@[i].start <= vaddr - vaddr % 4096,
        pcb.memset@[i].offset + (vaddr - vaddr % 4096 - pcb.memset@[i].start) <= usize::MAX,
    ensures
        step is FreshPage,
        pcb.memset@[i].file matches Some(f) ==> {
            &&& step->source is Some
            &&& step->source->0.file == f
            &&& step->source->0.offset == pcb.memset@[i].offset + (vaddr - vaddr % 4096
                - pcb.memset@[i].start)
        },
        pcb.memset@[i].file is None ==> step->source is None,
        task_after == task,
        pcb_after == pcb,
        tls_after == tls,
{
    lemma_decides(pcb.memset@, vaddr, i);
    assert(!is_tracked(pcb.memset@[i].mtrackers, page_of(vaddr)));
}

/// A page of an area that has a frame: in shared memory the program gets SIGSEGV; a frame with other
/// owners is to be copied; a frame with no other owner is mapped again, so that the page leads to it
/// and can be written. No other page is touched.
pub proof fn law_page_with_a_frame(
    task: UserTask,
    task_after: UserTask,
    pcb: ProcessControlBlock,
    pcb_after: ProcessControlBlock,
    tls: TlsGuard,
    tls_after: TlsGuard,
    vaddr: usize,
    owners: usize,
    step: FaultStep,
    i: int,
    k: int,
)
    requires
        fault_outcome(task, task_after, pcb, pcb_after, tls, tls_after, vaddr, owners, step),
        decides(pcb.memset@, vaddr, i),
        0 <= k < pcb.memset@[i].mtrackers.len(),
        pcb.memset@[i].mtrackers[k].vaddr == vaddr - vaddr % 4096,
        forall|j: int|
            0 <= j < k ==> (#[trigger] pcb.memset@[i].mtrackers[j]).vaddr != vaddr - vaddr % 4096,
        task.tcb.wf(),
    ensures
        ({
            let area = pcb.memset@[i];
            let page = (vaddr - vaddr % 4096) as usize;
            let frame = area.mtrackers[k].tracker.paddr;
            &&& tls_after == tls
            &&& area.mtype == MemType::Shared ==> {
                &&& step == FaultStep::Done
                &&& task_after.tcb.signal.has(11)
                &&& pcb_after == pcb
            }
            &&& area.mtype != MemType::Shared && owners > 1 ==> {
                &&& step == (FaultStep::CopyPage { src: frame })
                &&& task_after == task
                &&& pcb_after == pcb
            }
            &&& area.mtype != MemType::Shared && owners <= 1 ==> {
                &&& step == FaultStep::Done
                &&& task_after == task
                &&& pcb_after == (ProcessControlBlock { page_table: pcb_after.page_table, ..pcb })
                &&& pcb_after.page_table@.contains_key(page)
                &&& pcb_after.page_table@[page].paddr == frame
                &&& pcb_after.page_table@[page].flags == (if area.mtype == MemType::Mmap && vaddr
                    >= 0x2_0000_0000 {
                    MappingFlags::URW
                } else {
                    MappingFlags::URWX
                })
                &&& forall|other: usize|
                    other != page ==> pcb_after.page_table@.contains_key(other)
                        == pcb.page_table@.contains_key(other)
                        && #[trigger] pcb_after.page_table@[other] == pcb.page_table@[other]
            }
        }),
{
    lemma_decides(pcb.memset@, vaddr, i);
    assert(page_of(vaddr) == vaddr - vaddr % 4096);
    assert(first_tracked(pcb.memset@[i].mtrackers, page_of(vaddr), k));
    assert(pcb.memset@[i].mtrackers[k].vaddr == page_of(vaddr));
}

/// What happens on an address that no area holds goes by where it lies: the stack grows from
/// `0x7000_0000` to `0x8000_0000`, programs have code from `0x1_0000` to `0x10_0000`, the heap grows
/// from `0x100_0000` to `0x200_0000`, threads have their storage from `0x2_0000_0000` to
/// `0x3_0000_0000`. The page of the null pointer gives SIGSEGV, and the end of the thread while that
/// signal waits. Everywhere else the program gets SIGSEGV.
pub proof fn law_faults_outside_all_areas(
    task: UserTask,
    task_after: UserTask,
    pcb: ProcessControlBlock,
    pcb_after: ProcessControlBlock,
    tls: TlsGuard,
    tls_after: TlsGuard,
    vaddr: usize,
    owners: usize,
    step: FaultStep,
)
    requires
        fault_outcome(task, task_after, pcb, pcb_after, tls, tls_after, vaddr, owners, step),
        forall|j: int|
            0 <= j < pcb.memset@.len() ==> vaddr < (#[trigger] pcb.memset@[j]).start
                || pcb.memset@[j].start + pcb.memset@[j].len <= vaddr,
        task.tcb.wf(),
        tls.count < usize::MAX,
    ensures
        pcb_after == pcb,
        vaddr < 0x1000 && !task.tcb.signal.has(11) ==> step == FaultStep::Done
            && task_after.tcb.signal.has(11),
        vaddr < 0x1000 && task.tcb.signal.has(11) ==> step == (FaultStep::Exit { code: 139 }),
        0x1_0000 <= vaddr < 0x10_0000 ==> step == FaultStep::FindCode && task_after == task,
        0x100_0000 <= vaddr < 0x200_0000 ==> step == FaultStep::HeapPage && task_after == task,
        0x7000_0000 <= vaddr < 0x8000_0000 ==> step == FaultStep::StackPage && task_after == task,
        0x2_0000_0000 <= vaddr < 0x3_0000_0000 ==> {
            let again = tls.last_addr == vaddr - vaddr % 4096;
            &&& task_after == task
            &&& again && tls.count >= 3 ==> step == (FaultStep::Exit { code: 1 })
            &&& !(again && tls.count >= 3) ==> step == FaultStep::TlsPage
            &&& again ==> tls_after.count == tls.count + 1
            &&& !again ==> tls_after.count == 1
            &&& tls_after.last_addr == vaddr - vaddr % 4096
        },
        !(0x2_0000_0000 <= vaddr < 0x3_0000_0000) ==> tls_after == tls,
        (0x1000 <= vaddr < 0x1_0000 || 0x10_0000 <= vaddr < 0x100_0000 || 0x200_0000 <= vaddr
            < 0x7000_0000 || 0x8000_0000 <= vaddr < 0x2_0000_0000 || 0x3_0000_0000 <= vaddr)
            ==> step == FaultStep::Done && task_after.tcb.signal.has(11),
{
    assert forall|j: int| 0 <= j < pcb.memset@.len() implies !(#[trigger] pcb.memset@[j]).holds(
        vaddr as int,
    ) by {
        assert(vaddr < pcb.memset@[j].start || pcb.memset@[j].start + pcb.memset@[j].len <= vaddr);
    }
    assert(!some_holds(pcb.memset@, vaddr as int));
}

/// A signal that a thread gets waits afterwards, all others wait as before, and nothing else about
/// the thread changes.
pub proof fn law_signal_is_added(before: UserTask, after: UserTask, signal: usize, other: int)
    requires
        before.tcb.wf(),
        signalled(before, after, signal),
        signal < 65,
        0 <= other < 65,
    ensures
        after.tcb.signal.has(signal as int),
        other != signal ==> after.tcb.signal.has(other) == before.tcb.signal.has(other),
        after == (UserTask {
            tcb: ThreadControlBlock { signal: after.tcb.signal, ..before.tcb },
            ..before
        }),
{
}

/// A page that was given a frame of its own leads to that frame, with all rights but for the storage
/// of threads, which is not executable. The area has the new list of frames and is otherwise the same.
/// All other areas and pages, and everything else about the process, are as before.
pub proof fn law_owned_page_is_recorded(
    before: ProcessControlBlock,
    after: ProcessControlBlock,
    i: int,
    tracks: Seq<MapTrack>,
    vaddr: usize,
    frame: FrameTracker,
    j: int,
    other: usize,
)
    requires
        page_owned(before, after, i, tracks, vaddr, frame),
        0 <= i < before.memset@.len(),
        0 <= j < before.memset@.len(),
        j != i,
        other != vaddr - vaddr % 4096,
    ensures
        after.memset@.len() == before.memset@.len(),
        after.memset@[j] == before.memset@[j],
        after.memset@[i].mtrackers == tracks,
        after.memset@[i].start == before.memset@[i].start,
        after.memset@[i].len == before.memset@[i].len,
        after.memset@[i].mtype == before.memset@[i].mtype,
        after.memset@[i].file == before.memset@[i].file,
        after.memset@[i].offset == before.memset@[i].offset,
        ({
            let page = (vaddr - vaddr % 4096) as usize;
            let tls = before.memset@[i].mtype == MemType::Mmap && vaddr >= 0x2_0000_0000;
            &&& after.page_table@.contains_key(page)
            &&& after.page_table@[page].paddr == frame.paddr
            &&& tls ==> after.page_table@[page].flags == MappingFlags::URW
            &&& !tls ==> after.page_table@[page].flags == MappingFlags::URWX
        }),
        after.page_table@.contains_key(other) == before.page_table@.contains_key(other),
        after.page_table@[other] == before.page_table@[other],
        after == (ProcessControlBlock {
            memset: after.memset,
            page_table: after.page_table,
            ..before
        }),
{
    assert(page_of(vaddr) == vaddr - vaddr % 4096);
}

/// A page that was asked for outside all areas leads to its frame afterwards, with all rights, and no
/// other page changes; where there was no frame, the program gets SIGSEGV and nothing is mapped.
pub proof fn law_granted_page_is_mapped(
    task: UserTask,
    task_after: UserTask,
    pcb: ProcessControlBlock,
    pcb_after: ProcessControlBlock,
    vaddr: usize,
    mtype: MemType,
    frame: Option<FrameTracker>,
    other: usize,
)
    requires
        page_granted(task, task_after, pcb, pcb_after, vaddr, mtype, frame),
        vaddr >= 4096,
        mtype != MemType::ShareFile,
        other != vaddr - vaddr % 4096,
        task.tcb.wf(),
    ensures
        frame matches Some(f) ==> {
            let page = (vaddr - vaddr % 4096) as usize;
            &&& task_after == task
            &&& pcb_after.page_table@.contains_key(page)
            &&& pcb_after.page_table@[page] == (PageEntry {
                paddr: f.paddr,
                flags: MappingFlags::URWX,
            })
            &&& pcb_after.page_table@.contains_key(other) == pcb.page_table@.contains_key(other)
            &&& pcb_after.page_table@[other] == pcb.page_table@[other]
            &&& pcb_after == (ProcessControlBlock {
                memset: pcb_after.memset,
                page_table: pcb_after.page_table,
                ..pcb
            })
            &&& mtype != MemType::Stack ==> {
                &&& pcb_after.memset@.len() == pcb.memset@.len() + 1
                &&& pcb_after.memset@.drop_last() == pcb.memset@
                &&& pcb_after.memset@.last().mtype == mtype
                &&& pcb_after.memset@.last().start == page
                &&& pcb_after.memset@.last().len == 4096
            }
        },
        frame is None ==> task_after.tcb.signal.has(11) && pcb_after == pcb,
{
    if let Some(f) = frame {
        let page = page_of(vaddr);
        let frames = seq![f];
        let area = AreaView {
            mtype,
            mtrackers: Seq::empty(),
            file: None,
            offset: 0,
            start: page,
            len: 4096,
        };
        assert(pcb_after.space().table == pcb_after.page_table@);
        assert(pcb_after.space().areas == pcb_after.memset@);
        crate::memset::law_mapped_pages_lead_to_frames(
            pcb.space(),
            page,
            frames,
            area,
            MappingFlags::URWX,
            0,
        );
        assert forall|i: int| 0 <= i < frames.len() implies other != page + #[trigger] (i
            * PAGE_SIZE) by {
            assert(i == 0);
        }
        crate::memset::law_mapping_keeps_other_pages(
            pcb.space(),
            page,
            frames,
            area,
            MappingFlags::URWX,
            other,
        );
        if mtype != MemType::Stack {
            crate::memset::law_allocated_pages_have_their_area(
                pcb.space(),
                page,
                mtype,
                frames,
                0,
            );
        }
    }
}

/// Only a system call is carried out, and it is the one with the number that the program gave; the
/// call that leaves a signal handler is not carried out but ends the handler. For any other reason
/// the program goes on.
pub proof fn law_calls_are_carried_out(reason: EscapeReason, syscall: usize, sigreturn: usize)
    ensures
        ({
            let step = syscall_step(reason, syscall, sigreturn);
            &&& reason == EscapeReason::SysCall && syscall != sigreturn ==> step
                == SyscallStep::Dispatch(syscall)
            &&& reason == EscapeReason::SysCall && syscall == sigreturn ==> step
                == SyscallStep::Flow(UserTaskControlFlow::Break)
            &&& reason != EscapeReason::SysCall ==> step == SyscallStep::Flow(
                UserTaskControlFlow::Continue,
            )
        }),
{
}

/// A call with none of the numbers that leave a signal handler is carried out, whatever the machine.
pub proof fn law_ordinary_calls_are_carried_out(syscall: usize, step: SyscallStep)
    requires
        exists|sigreturn: usize|
            is_sigreturn(sigreturn) && step == #[trigger] syscall_step(
                EscapeReason::SysCall,
                syscall,
                sigreturn,
            ),
    ensures
        syscall != 15 && syscall != 101 && syscall != 139 && syscall != 172 && syscall != 173
            && syscall != 4193 && syscall != 5211 ==> step == SyscallStep::Dispatch(syscall),
        step == SyscallStep::Dispatch(syscall) || step == SyscallStep::Flow(
            UserTaskControlFlow::Break,
        ),
{
}

/// A signal handler is left by one of seven numbers, and by no other.
pub proof fn law_numbers_that_leave_a_handler(number: usize)
    ensures
        is_sigreturn(number) <==> number == 15 || number == 101 || number == 139 || number == 172
            || number == 173 || number == 4193 || number == 5211,
{
}

/// The frame that is taken for a page is the first one that is recorded for it, and it is taken
/// exactly where there is one.
pub proof fn law_first_frame_of_a_page(tracks: Seq<MapTrack>, page: usize, k: int, j: int)
    requires
        first_tracked(tracks, page, k),
        0 <= j < tracks.len(),
    ensures
        0 <= k < tracks.len(),
        tracks[k].vaddr == page,
        tracks[j].vaddr == page ==> k <= j,
        is_tracked(tracks, page),
{
    assert(tracks[k].vaddr == page);
}

} // verus!
