//! Processes and threads.
use std::collections::BTreeMap;
use std::sync::Arc;
use vstd::prelude::*;
use vstd::string::StringSliceAdditionalSpecFns;

use crate::errno::{Errno, VfsResult};
use crate::fdtypes::AT_CWD;
use crate::memset::{
    areas_aligned, areas_end, areas_with, clone_shms, covering, first_of,
    lemma_covering, lemma_first_of, page_floor, page_of, shm_tracks, shm_views, shm_wf, shms_end,
    shms_wf, table_attached, table_shared, table_with, tracks_aligned, tracks_for, AreaView,
    FileId, FrameTracker, MapTrack, MapedSharedMemory, MappingFlags, MemArea, MemSet, MemType,
    PageEntry, PageTable, Space, STACK_LEN, STACK_START,
};
use crate::sigtypes::{
    SigAction, SigProcMask, SignalFlags, SignalList, REAL_TIME_SIGNAL_NUM, SIGCHLD,
};
use crate::usermem::{le_bytes, to_le_bytes, UserWrite};
use crate::vfs::{max_int, page_count, pages_for, PAGE_SIZE};

verus! {

/// What sort of thread a scheduled task is.
#[derive(Clone, Copy, Debug, PartialEq, Eq, Structural)]
pub enum TaskType {
    /// A thread of the kernel that only keeps it going.
    BlankKernel,
    /// A thread of a user program.
    MonolithicTask,
}

/// The waiters on each user address.
pub type FutexTable = BTreeMap<usize, Vec<usize>>;

/// The registers of a thread, by what they are used for. Where a machine uses one register for two
/// purposes, the code that enters and leaves user mode keeps the two in step.
#[derive(Clone, Copy, Debug, PartialEq, Eq, Structural)]
pub struct TrapFrame {
    pub sepc: usize,
    pub ra: usize,
    pub sp: usize,
    pub ret: usize,
    pub arg0: usize,
    pub arg1: usize,
    pub arg2: usize,
    pub tls: usize,
    pub syscall: usize,
}

/// Processor time that a process and its children have used.
#[derive(Clone, Copy, Debug, PartialEq, Eq, Structural)]
pub struct TMS {
    pub utime: u64,
    pub stime: u64,
    pub cutime: u64,
    pub cstime: u64,
}

/// What the threads of a process share.
pub struct ProcessControlBlock {
    pub page_table: PageTable,
    pub memset: MemSet,
    pub fd_table: Vec<Option<FileId>>,
    pub curr_dir: FileId,
    pub heap: usize,
    pub entry: usize,
    /// The child processes, by the identifiers of their main threads.
    pub children: Vec<usize>,
    pub tms: TMS,
    pub rlimits: Vec<usize>,
    /// What to do on each signal, by its number.
    pub sigaction: Vec<SigAction>,
    pub futex_table: FutexTable,
    pub shms: Vec<MapedSharedMemory>,
    /// The threads, by their identifiers. Some may be gone already.
    pub threads: Vec<usize>,
    pub exit_code: Option<usize>,
}

impl ProcessControlBlock {
    /// The address space.
    pub open spec fn space(self) -> Space {
        Space { areas: self.memset@, table: self.page_table@ }
    }

    /// Nothing but the address space differs.
    pub open spec fn same_but_space(before: Self, after: Self) -> bool {
        after == (ProcessControlBlock {
            memset: after.memset,
            page_table: after.page_table,
            ..before
        })
    }
}

/// What belongs to one thread alone.
pub struct ThreadControlBlock {
    pub cx: TrapFrame,
    pub sigmask: SigProcMask,
    pub clear_child_tid: usize,
    pub set_child_tid: usize,
    pub signal: SignalList,
    /// How often each real-time signal waits.
    pub signal_queue: Vec<usize>,
    pub exit_signal: u8,
    pub thread_exit_code: Option<u32>,
    pub robust_list_head: usize,
    pub robust_list_len: usize,
}

/// A thread. The main thread of a process has the identifier of the process.
pub struct UserTask {
    pub task_id: usize,
    pub process_id: usize,
    /// The main thread of the parent process, if it ever had one.
    pub parent: Option<usize>,
    pub tcb: ThreadControlBlock,
}

/// All frames lie at page boundaries.
pub open spec fn frames_aligned(frames: Seq<FrameTracker>) -> bool {
    forall|i: int| 0 <= i < frames.len() ==> (#[trigger] frames[i]).paddr % PAGE_SIZE == 0
}

impl ThreadControlBlock {
    /// The tables have a place for every signal.
    pub open spec fn wf(&self) -> bool {
        self.signal.wf() && self.signal_queue@.len() == REAL_TIME_SIGNAL_NUM
    }

    /// A thread that has just been made: the given registers and mask, and nothing else.
    pub open spec fn fresh(&self, cx: TrapFrame, sigmask: SigProcMask) -> bool {
        &&& self.wf()
        &&& self.cx == cx
        &&& self.sigmask == sigmask
        &&& self.clear_child_tid == 0
        &&& self.set_child_tid == 0
        &&& forall|i: int| 0 <= i < self.signal@.len() ==> !(#[trigger] self.signal@[i])
        &&& forall|i: int|
            0 <= i < self.signal_queue@.len() ==> (#[trigger] self.signal_queue@[i]) == 0
        &&& self.exit_signal == 0
        &&& self.thread_exit_code is None
        &&& self.robust_list_head == 0
        &&& self.robust_list_len == 0
    }

    fn make(cx: TrapFrame, sigmask: SigProcMask) -> (r: ThreadControlBlock)
        ensures
            r.fresh(cx, sigmask),
    {
        ThreadControlBlock {
            cx,
            sigmask,
            clear_child_tid: 0,
            set_child_tid: 0,
            signal: SignalList::new(),
            signal_queue: vec![0; REAL_TIME_SIGNAL_NUM],
            exit_signal: 0,
            thread_exit_code: None,
            robust_list_head: 0,
            robust_list_len: 0,
        }
    }
}

impl UserTask {
    /// Makes a process with one thread. The identifier, the open working directory, the first
    /// files, the limits and the registers come from the rest of the kernel.
    pub fn new(
        parent: Option<usize>,
        task_id: usize,
        curr_dir: FileId,
        fd_table: Vec<Option<FileId>>,
        rlimits: Vec<usize>,
        cx: TrapFrame,
    ) -> (r: (UserTask, ProcessControlBlock))
        ensures
            r.0.task_id == task_id,
            r.0.process_id == task_id,
            r.0.parent == parent,
            r.0.tcb.fresh(cx, SigProcMask { mask: 0 }),
            r.1.space() == (Space { areas: Seq::empty(), table: Map::empty() }),
            r.1.fd_table == fd_table,
            r.1.curr_dir == curr_dir,
            r.1.heap == 0,
            r.1.entry == 0,
            r.1.children@.len() == 0,
            r.1.tms == (TMS { utime: 0, stime: 0, cutime: 0, cstime: 0 }),
            r.1.rlimits == rlimits,
            r.1.sigaction@ == Seq::new(65, |i: int| SigAction::default_action()),
            r.1.futex_table@ == Map::<usize, Vec<usize>>::empty(),
            r.1.shms@.len() == 0,
            r.1.threads@ == seq![task_id],
            r.1.exit_code is None,
    {
        let mut threads: Vec<usize> = Vec::new();
        threads.push(task_id);
        let sigaction: Vec<SigAction> = default_actions();
        let pcb = ProcessControlBlock {
            page_table: PageTable::new(),
            memset: MemSet::new(Vec::new()),
            fd_table,
            curr_dir,
            heap: 0,
            entry: 0,
            children: Vec::new(),
            tms: TMS { utime: 0, stime: 0, cutime: 0, cstime: 0 },
            rlimits,
            sigaction,
            futex_table: BTreeMap::new(),
            shms: Vec::new(),
            threads,
            exit_code: None,
        };
        let task = UserTask {
            task_id,
            process_id: task_id,
            parent,
            tcb: ThreadControlBlock::make(cx, SigProcMask { mask: 0 }),
        };
        assert(pcb.memset@ =~= Seq::empty());
        assert(pcb.threads@ =~= seq![task_id]);
        (task, pcb)
    }

    /// Enters a page into the page table.
    pub fn map(
        &self,
        pcb: &mut ProcessControlBlock,
        paddr: usize,
        vaddr: usize,
        flags: MappingFlags,
    )
        requires
            paddr % PAGE_SIZE == 0,
            vaddr % PAGE_SIZE == 0,
        ensures
            *final(pcb) == (ProcessControlBlock { page_table: final(pcb).page_table, ..*old(pcb) }),
            final(pcb).page_table@ == old(pcb).page_table@.insert(
                vaddr,
                PageEntry { paddr, flags },
            ),
    {
        pcb.page_table.map_page(vaddr, paddr, flags);
    }

    /// Allocates frames for the pages from `vaddr` on, with the rights that the type asks for.
    /// `frames` is what the frame allocator answered.
    pub fn frame_alloc(
        &self,
        pcb: &mut ProcessControlBlock,
        vaddr: usize,
        mtype: MemType,
        count: usize,
        frames: Option<Vec<FrameTracker>>,
    ) -> (r: Option<usize>)
        requires
            count > 0,
            vaddr % PAGE_SIZE == 0,
            count * PAGE_SIZE <= usize::MAX,
            vaddr != 0 ==> vaddr + (count - 1) * PAGE_SIZE <= usize::MAX,
            frames matches Some(f) ==> f@.len() == count && frames_aligned(f@),
        ensures
            ProcessControlBlock::same_but_space(*old(pcb), *final(pcb)),
            match frames {
                Some(f) => {
                    &&& r == Some(f@[0].paddr)
                    &&& final(pcb).space() == old(pcb).space().with_allocated(vaddr, mtype, f@)
                },
                None => r is None && *final(pcb) == *old(pcb),
            },
    {
        let flags: MappingFlags = match mtype {
            MemType::Stack => MappingFlags::URWX,
            MemType::CodeSection => MappingFlags::URWX,
            MemType::Mmap => MappingFlags::URWX,
            MemType::Shared => MappingFlags::URWX,
            MemType::ShareFile => MappingFlags::URW,
        };
        self.map_frames(
            pcb,
            vaddr,
            mtype,
            count,
            None,
            0,
            vaddr,
            count * PAGE_SIZE,
            flags,
            frames,
        )
    }

    /// Maps frames for the pages from `vaddr` on, unless `vaddr` is zero, and records them in an
    /// area. `frames` is what the frame allocator answered.
    pub fn map_frames(
        &self,
        pcb: &mut ProcessControlBlock,
        vaddr: usize,
        mtype: MemType,
        count: usize,
        file: Option<FileId>,
        offset: usize,
        start: usize,
        len: usize,
        mapping_flags: MappingFlags,
        frames: Option<Vec<FrameTracker>>,
    ) -> (r: Option<usize>)
        requires
            count > 0,
            vaddr % PAGE_SIZE == 0,
            vaddr != 0 ==> vaddr + (count - 1) * PAGE_SIZE <= usize::MAX,
            frames matches Some(f) ==> f@.len() == count && frames_aligned(f@),
        ensures
            ProcessControlBlock::same_but_space(*old(pcb), *final(pcb)),
            match frames {
                Some(f) => {
                    &&& r == Some(f@[0].paddr)
                    &&& final(pcb).space() == old(pcb).space().with_frames(
                        vaddr,
                        f@,
                        AreaView { mtype, mtrackers: Seq::empty(), file, offset, start, len },
                        mapping_flags,
                    )
                },
                None => r is None && *final(pcb) == *old(pcb),
            },
    {
        let frames: Vec<FrameTracker> = match frames {
            Some(f) => f,
            None => {
                return None;
            },
        };
        let ghost before = *pcb;
        let ppn: usize = frames[0].paddr;
        let trackers: Vec<MapTrack> = track_frames(vaddr, frames);
        if vaddr != 0 {
            let mut i: usize = 0;
            assert(trackers@.take(0) =~= Seq::empty());
            while i < trackers.len()
                invariant
                    i <= trackers@.len(),
                    *pcb == (ProcessControlBlock { page_table: pcb.page_table, ..before }),
                    pcb.page_table@ == table_with(
                        before.page_table@,
                        trackers@.take(i as int),
                        mapping_flags,
                    ),
                    vaddr % PAGE_SIZE == 0,
                    trackers@ == tracks_for(vaddr, frames@),
                    frames_aligned(frames@),
                    vaddr != 0,
                    vaddr + (frames@.len() - 1) * PAGE_SIZE <= usize::MAX,
                decreases trackers@.len() - i,
            {
                assert(trackers@.take(i + 1).drop_last() =~= trackers@.take(i as int));
                assert(frames@[i as int].paddr % PAGE_SIZE == 0);
                assert(i * PAGE_SIZE <= (frames@.len() - 1) * PAGE_SIZE) by (nonlinear_arith)
                    requires
                        i <= frames@.len() - 1,
                ;
                self.map(pcb, trackers[i].tracker.paddr, trackers[i].vaddr, mapping_flags);
                i = i + 1;
            }
            assert(trackers@.take(i as int) =~= trackers@);
        }
        proof {
            lemma_first_of(before.memset@, MemType::Stack);
        }
        if mtype == MemType::Stack {
            let mut i: usize = 0;
            while i < pcb.memset.areas.len() && pcb.memset.areas[i].mtype != MemType::Stack
                invariant
                    i <= pcb.memset.areas@.len(),
                    pcb.memset == before.memset,
                    forall|j: int|
                        0 <= j < i ==> (#[trigger] pcb.memset@[j]).mtype != MemType::Stack,
                decreases pcb.memset.areas@.len() - i,
            {
                assert(pcb.memset@[i as int].mtype == pcb.memset.areas@[i as int].mtype);
                i = i + 1;
            }
            if i < pcb.memset.areas.len() {
                assert(before.memset@[i as int].mtype == pcb.memset.areas@[i as int].mtype);
                assert(first_of(before.memset@, MemType::Stack) == i);
                let mut trackers = trackers;
                let ghost tracks = trackers@;
                pcb.memset.areas[i].mtrackers.append(&mut trackers);
                assert(pcb.memset@ =~= areas_with(
                    before.memset@,
                    AreaView { mtype, mtrackers: tracks, file, offset, start, len },
                ));
            } else {
                assert(first_of(before.memset@, MemType::Stack) == before.memset@.len()) by {
                    let k = first_of(before.memset@, MemType::Stack);
                    if k < before.memset@.len() {
                        assert(before.memset@[k].mtype == before.memset.areas@[k].mtype);
                        assert(pcb.memset@[k].mtype != MemType::Stack);
                    }
                }
                let ghost tracks = trackers@;
                pcb.memset.areas.push(
                    MemArea {
                        mtype,
                        mtrackers: trackers,
                        file: None,
                        offset: 0,
                        start: STACK_START,
                        len: STACK_LEN,
                    },
                );
                assert(pcb.memset@ =~= areas_with(
                    before.memset@,
                    AreaView { mtype, mtrackers: tracks, file, offset, start, len },
                ));
            }
        } else {
            let ghost tracks = trackers@;
            pcb.memset.areas.push(
                MemArea { mtype, mtrackers: trackers, file, offset, start, len },
            );
            assert(pcb.memset@ =~= areas_with(
                before.memset@,
                AreaView { mtype, mtrackers: tracks, file, offset, start, len },
            ));
        }
        Some(ppn)
    }
}

/// The default action for every signal.
fn default_actions() -> (r: Vec<SigAction>)
    ensures
        r@ == Seq::new(65, |i: int| SigAction::default_action()),
{
    let mut out: Vec<SigAction> = Vec::new();
    let mut i: usize = 0;
    while i < 65
        invariant
            i <= 65,
            out@ == Seq::new(i as nat, |j: int| SigAction::default_action()),
        decreases 65 - i,
    {
        out.push(SigAction::new());
        i = i + 1;
        assert(out@ =~= Seq::new(i as nat, |j: int| SigAction::default_action()));
    }
    out
}

/// Tracks frames for the pages from `vaddr` on.
fn track_frames(vaddr: usize, frames: Vec<FrameTracker>) -> (r: Vec<MapTrack>)
    requires
        vaddr != 0 ==> vaddr + (frames@.len() - 1) * PAGE_SIZE <= usize::MAX,
    ensures
        r@ == tracks_for(vaddr, frames@),
{
    let mut out: Vec<MapTrack> = Vec::new();
    let mut i: usize = 0;
    while i < frames.len()
        invariant
            i <= frames@.len(),
            vaddr != 0 ==> vaddr + (frames@.len() - 1) * PAGE_SIZE <= usize::MAX,
            out@ == tracks_for(vaddr, frames@).take(i as int),
        decreases frames@.len() - i,
    {
        let page: usize = if vaddr == 0 {
            0
        } else {
            assert(i * PAGE_SIZE <= (frames@.len() - 1) * PAGE_SIZE) by (nonlinear_arith)
                requires
                    i <= frames@.len() - 1,
            ;
            vaddr + i * PAGE_SIZE
        };
        let frame: FrameTracker = FrameTracker { paddr: frames[i].paddr };
        out.push(MapTrack { vaddr: page, tracker: Arc::new(frame), rwx: 0 });
        i = i + 1;
        assert(out@ =~= tracks_for(vaddr, frames@).take(i as int));
    }
    assert(out@ =~= tracks_for(vaddr, frames@));
    out
}

/// What has to be done outside when a thread has ended.
#[derive(Debug, PartialEq, Eq, Structural)]
pub struct ExitEffects {
    /// The user address at which a zero of four bytes is to be stored, and on which one waiter is
    /// to be woken.
    pub cleared_tid: Option<usize>,
    /// The signal that the parent process gets.
    pub parent_signal: Option<SignalFlags>,
}

/// The threads that are left: those that are still alive, without the one that ends.
pub open spec fn remaining(threads: Seq<usize>, alive: Seq<bool>, ended: Option<usize>) -> Seq<
    usize,
>
    decreases threads.len(),
{
    if threads.len() == 0 {
        Seq::empty()
    } else {
        let before = remaining(threads.drop_last(), alive, ended);
        if alive[threads.len() - 1] && ended != Some(threads.last()) {
            before.push(threads.last())
        } else {
            before
        }
    }
}

fn retain_threads(threads: &Vec<usize>, alive: &[bool], ended: Option<usize>) -> (r: Vec<usize>)
    requires
        alive@.len() == threads@.len(),
    ensures
        r@ == remaining(threads@, alive@, ended),
{
    let mut out: Vec<usize> = Vec::new();
    let mut i: usize = 0;
    assert(threads@.take(0) =~= Seq::empty());
    while i < threads.len()
        invariant
            alive@.len() == threads@.len(),
            i <= threads@.len(),
            out@ == remaining(threads@.take(i as int), alive@, ended),
        decreases threads@.len() - i,
    {
        assert(threads@.take(i + 1).drop_last() =~= threads@.take(i as int));
        let is_ended: bool = match ended {
            Some(e) => e == threads[i],
            None => false,
        };
        if alive[i] && !is_ended {
            out.push(threads[i]);
        }
        i = i + 1;
    }
    assert(threads@.take(i as int) =~= threads@);
    out
}

/// The signal that tells a parent of the end of a child.
pub open spec fn death_signal(exit_signal: u8) -> SignalFlags {
    SignalFlags {
        number: if exit_signal != 0 {
            exit_signal as usize
        } else {
            SIGCHLD
        },
    }
}

/// The bytes that a value of `len` bytes and a zero take on the stack.
pub open spec fn stack_room(len: int) -> int {
    (len + 1 + 7) / 8 * 8
}

/// Where a file name leads from.
#[derive(Clone, Copy, Debug, PartialEq, Eq, Structural)]
pub enum Resolved {
    /// The name is a path from the root.
    Absolute,
    /// The name is to be appended to the path of an open file.
    RelativeTo(FileId),
}

impl UserTask {
    /// Moves the end of the heap. `grants` is what the frame allocator answered for each page that
    /// the heap grows by.
    pub fn sbrk(
        &self,
        pcb: &mut ProcessControlBlock,
        addr: usize,
        grants: Vec<Option<FrameTracker>>,
    ) -> (r: usize)
        requires
            grants@.len() == max_int(
                page_count(addr as int) - page_count(old(pcb).heap as int),
                0,
            ),
            forall|i: int|
                0 <= i < grants@.len() ==> ((#[trigger] grants@[i]) matches Some(f) ==> f.paddr
                    % PAGE_SIZE == 0),
        ensures
            r == addr,
            *final(pcb) == (ProcessControlBlock {
                heap: addr,
                memset: final(pcb).memset,
                page_table: final(pcb).page_table,
                ..*old(pcb)
            }),
            final(pcb).space() == old(pcb).space().grown(
                page_count(old(pcb).heap as int),
                grants@,
            ),
    {
        let ghost before = *pcb;
        let curr_page: usize = pages_for(pcb.heap);
        let after_page: usize = pages_for(addr);
        let mut k: usize = 0;
        assert(grants@.take(0) =~= Seq::empty());
        while k < grants.len()
            invariant
                k <= grants@.len(),
                curr_page == page_count(before.heap as int),
                after_page == page_count(addr as int),
                grants@.len() == max_int(after_page - curr_page, 0),
                forall|i: int|
                    0 <= i < grants@.len() ==> ((#[trigger] grants@[i]) matches Some(f) ==> f.paddr
                        % PAGE_SIZE == 0),
                ProcessControlBlock::same_but_space(before, *pcb),
                pcb.space() == before.space().grown(curr_page as int, grants@.take(k as int)),
            decreases grants@.len() - k,
        {
            assert(grants@.take(k + 1).drop_last() =~= grants@.take(k as int));
            assert((curr_page + k) * PAGE_SIZE <= usize::MAX);
            match &grants[k] {
                Some(frame) => {
                    let mut one: Vec<FrameTracker> = Vec::new();
                    one.push(FrameTracker { paddr: frame.paddr });
                    assert(grants@[k as int] == Some(*frame));
                    assert(one@ =~= seq![*frame]);
                    let _ = self.frame_alloc(
                        pcb,
                        (curr_page + k) * PAGE_SIZE,
                        MemType::CodeSection,
                        1,
                        Some(one),
                    );
                },
                None => {},
            }
            k = k + 1;
        }
        assert(grants@.take(k as int) =~= grants@);
        pcb.heap = addr;
        addr
    }

    /// The end of the heap.
    pub fn heap(&self, pcb: &ProcessControlBlock) -> (r: usize)
        ensures
            r == pcb.heap,
    {
        pcb.heap
    }

    /// How many frames `sbrk` wants for moving the end of the heap to `addr`.
    pub fn sbrk_pages(&self, pcb: &ProcessControlBlock, addr: usize) -> (r: usize)
        ensures
            r == max_int(page_count(addr as int) - page_count(pcb.heap as int), 0),
    {
        let curr_page: usize = pages_for(pcb.heap);
        let after_page: usize = pages_for(addr);
        if after_page > curr_page {
            after_page - curr_page
        } else {
            0
        }
    }

    /// The address to clear at the end of the thread can be cleared.
    pub open spec fn clear_tid_mapped(&self, pcb: &ProcessControlBlock) -> bool {
        self.tcb.clear_child_tid != 0 ==> pcb.page_table.translation(
            self.tcb.clear_child_tid,
        ) is Some
    }

    /// The effects of the end of this thread on the outside.
    pub open spec fn exit_effects(&self, told: bool) -> ExitEffects {
        ExitEffects {
            cleared_tid: if self.tcb.clear_child_tid != 0 {
                Some(self.tcb.clear_child_tid)
            } else {
                None
            },
            parent_signal: if told {
                Some(death_signal(self.tcb.exit_signal))
            } else {
                None
            },
        }
    }

    fn effects(&self, told: bool) -> (r: ExitEffects)
        ensures
            r == self.exit_effects(told),
    {
        let cleared_tid: Option<usize> = if self.tcb.clear_child_tid != 0 {
            Some(self.tcb.clear_child_tid)
        } else {
            None
        };
        let parent_signal: Option<SignalFlags> = if !told {
            None
        } else if self.tcb.exit_signal != 0 {
            Some(SignalFlags::from_num(self.tcb.exit_signal as usize))
        } else {
            Some(SignalFlags::from_num(SIGCHLD))
        };
        ExitEffects { cleared_tid, parent_signal }
    }

    /// This is the main thread and no other is left.
    pub open spec fn ends_process(&self, pcb: &ProcessControlBlock, alive: Seq<bool>) -> bool {
        self.task_id == self.process_id && remaining(
            pcb.threads@,
            alive,
            Some(self.task_id),
        ).len() == 0
    }

    /// Ends the thread. The process goes on while other threads are left or this is not the main
    /// thread; else its memory, files and children go, and the parent is told. `alive` tells which
    /// of the threads are still there, and `parent_alive` whether the parent is.
    pub fn thread_exit(
        &mut self,
        pcb: &mut ProcessControlBlock,
        exit_code: usize,
        alive: &[bool],
        parent_alive: bool,
    ) -> (r: ExitEffects)
        requires
            alive@.len() == old(pcb).threads@.len(),
            old(self).clear_tid_mapped(old(pcb)),
        ensures
            *final(self) == (UserTask {
                tcb: ThreadControlBlock {
                    thread_exit_code: Some(exit_code as u32),
                    ..old(self).tcb
                },
                ..*old(self)
            }),
            final(pcb).threads@ == remaining(
                old(pcb).threads@,
                alive@,
                Some(old(self).task_id),
            ),
            ({
                let over = old(self).ends_process(old(pcb), alive@);
                &&& over ==> {
                    &&& *final(pcb) == (ProcessControlBlock {
                        threads: final(pcb).threads,
                        memset: final(pcb).memset,
                        fd_table: final(pcb).fd_table,
                        children: final(pcb).children,
                        exit_code: Some(exit_code),
                        ..*old(pcb)
                    })
                    &&& final(pcb).memset@.len() == 0
                    &&& final(pcb).fd_table@.len() == 0
                    &&& final(pcb).children@.len() == 0
                }
                &&& !over ==> *final(pcb) == (ProcessControlBlock {
                    threads: final(pcb).threads,
                    ..*old(pcb)
                })
                &&& r == old(self).exit_effects(over && parent_alive)
            }),
    {
        let is_main_thread: bool = self.task_id == self.process_id;
        pcb.threads = retain_threads(&pcb.threads, alive, Some(self.task_id));
        let over: bool = is_main_thread && pcb.threads.len() == 0;
        let r: ExitEffects = self.effects(over && parent_alive);
        self.tcb.thread_exit_code = Some(exit_code as u32);
        if over {
            pcb.memset.areas.clear();
            pcb.fd_table.clear();
            pcb.children.clear();
            pcb.exit_code = Some(exit_code);
        }
        r
    }

    /// What the end of this thread leaves of the process, which gets the exit code. When the last
    /// thread goes and it is the main thread, memory, files, children and threads go too; without a
    /// parent, the children go in any case.
    pub open spec fn exited(
        &self,
        before: ProcessControlBlock,
        after: ProcessControlBlock,
        exit_code: usize,
        alive: Seq<bool>,
        parent_alive: bool,
    ) -> bool {
        let over = self.ends_process(&before, alive);
        &&& after.threads@ == remaining(before.threads@, alive, Some(self.task_id))
        &&& after == (ProcessControlBlock {
            threads: after.threads,
            memset: after.memset,
            fd_table: after.fd_table,
            children: after.children,
            exit_code: Some(exit_code),
            ..before
        })
        &&& over ==> after.memset@.len() == 0 && after.fd_table@.len() == 0
        &&& !over ==> after.memset == before.memset && after.fd_table == before.fd_table
        &&& over || !parent_alive ==> after.children@.len() == 0
        &&& !over && parent_alive ==> after.children == before.children
    }

    /// Ends the thread and gives the process its exit code. When the last thread goes and it is the
    /// main thread, memory, files, children and threads go too. The parent is told in any case;
    /// without one, the children are dropped.
    pub fn exit(
        &self,
        pcb: &mut ProcessControlBlock,
        exit_code: usize,
        alive: &[bool],
        parent_alive: bool,
    ) -> (r: ExitEffects)
        requires
            alive@.len() == old(pcb).threads@.len(),
            self.clear_tid_mapped(old(pcb)),
        ensures
            r == self.exit_effects(parent_alive),
            self.exited(*old(pcb), *final(pcb), exit_code, alive@, parent_alive),
    {
        let r: ExitEffects = self.effects(parent_alive);
        pcb.exit_code = Some(exit_code);
        pcb.threads = retain_threads(&pcb.threads, alive, Some(self.task_id));
        let is_main_thread: bool = self.task_id == self.process_id;
        if is_main_thread && pcb.threads.len() == 0 {
            pcb.memset.areas.clear();
            pcb.fd_table.clear();
            pcb.children.clear();
            pcb.threads.clear();
            assert(pcb.threads@ =~= remaining(old(pcb).threads@, alive@, Some(self.task_id)));
        }
        if !parent_alive {
            pcb.children.clear();
        }
        r
    }

    /// The exit code of the process, once it has ended.
    pub fn exit_code(&self, pcb: &ProcessControlBlock) -> (r: Option<usize>)
        ensures
            r == pcb.exit_code,
    {
        pcb.exit_code
    }

    /// Ends the thread because of a signal.
    pub fn exit_with_signal(
        &self,
        pcb: &mut ProcessControlBlock,
        signal: usize,
        alive: &[bool],
        parent_alive: bool,
    ) -> (r: ExitEffects)
        requires
            alive@.len() == old(pcb).threads@.len(),
            self.clear_tid_mapped(old(pcb)),
            signal <= usize::MAX - 128,
        ensures
            r == self.exit_effects(parent_alive),
            self.exited(*old(pcb), *final(pcb), (128 + signal) as usize, alive@, parent_alive),
    {
        self.exit(pcb, 128 + signal, alive, parent_alive)
    }

    /// The identifier of the thread.
    pub fn get_task_id(&self) -> (r: usize)
        ensures
            r == self.task_id,
    {
        self.task_id
    }

    /// The sort of the thread: it runs a user program.
    pub fn get_task_type(&self) -> (r: TaskType)
        ensures
            r == TaskType::MonolithicTask,
    {
        TaskType::MonolithicTask
    }

    /// The identifier of a thread that has ended, which the scheduler may now forget.
    pub fn release(&self, pcb: &ProcessControlBlock) -> (r: usize)
        requires
            pcb.exit_code is Some || self.tcb.thread_exit_code is Some,
        ensures
            r == self.task_id,
    {
        self.task_id
    }
}

/// Enters every tracked frame into the page table.
fn map_tracks(
    task: &UserTask,
    pcb: &mut ProcessControlBlock,
    tracks: &Vec<MapTrack>,
    flags: MappingFlags,
)
    requires
        tracks_aligned(tracks@),
    ensures
        *final(pcb) == (ProcessControlBlock { page_table: final(pcb).page_table, ..*old(pcb) }),
        final(pcb).page_table@ == table_with(old(pcb).page_table@, tracks@, flags),
{
    let ghost before = *pcb;
    let mut i: usize = 0;
    assert(tracks@.take(0) =~= Seq::empty());
    while i < tracks.len()
        invariant
            i <= tracks@.len(),
            tracks_aligned(tracks@),
            *pcb == (ProcessControlBlock { page_table: pcb.page_table, ..before }),
            pcb.page_table@ == table_with(before.page_table@, tracks@.take(i as int), flags),
        decreases tracks@.len() - i,
    {
        assert(tracks@.take(i + 1).drop_last() =~= tracks@.take(i as int));
        assert(tracks@[i as int].vaddr % PAGE_SIZE == 0);
        task.map(pcb, tracks[i].tracker.paddr, tracks[i].vaddr, flags);
        i = i + 1;
    }
    assert(tracks@.take(i as int) =~= tracks@);
}

/// Enters the frames of attached shared memory into the page table, with all rights.
pub(crate) fn map_shm(task: &UserTask, pcb: &mut ProcessControlBlock, shm: &MapedSharedMemory)
    requires
        shm_wf(shm@),
    ensures
        *final(pcb) == (ProcessControlBlock { page_table: final(pcb).page_table, ..*old(pcb) }),
        final(pcb).page_table@ == table_with(
            old(pcb).page_table@,
            shm_tracks(shm@),
            MappingFlags::URWX,
        ),
{
    let ghost before = *pcb;
    let ghost tracks = shm_tracks(shm@);
    let mut i: usize = 0;
    assert(tracks.take(0) =~= Seq::empty());
    while i < shm.trackers.len()
        invariant
            i <= tracks.len(),
            tracks == shm_tracks(shm@),
            shm_wf(shm@),
            *pcb == (ProcessControlBlock { page_table: pcb.page_table, ..before }),
            pcb.page_table@ == table_with(
                before.page_table@,
                tracks.take(i as int),
                MappingFlags::URWX,
            ),
        decreases tracks.len() - i,
    {
        assert(tracks.take(i + 1).drop_last() =~= tracks.take(i as int));
        assert(shm@.trackers[i as int].paddr % PAGE_SIZE == 0);
        assert(i * PAGE_SIZE <= shm.size) by (nonlinear_arith)
            requires
                i < shm@.trackers.len(),
                shm.size == shm@.trackers.len() * PAGE_SIZE,
        ;
        task.map(
            pcb,
            shm.trackers[i].paddr,
            shm.start + i * PAGE_SIZE,
            MappingFlags::URWX,
        );
        i = i + 1;
    }
    assert(tracks.take(i as int) =~= tracks);
}

fn clone_files(files: &Vec<Option<FileId>>) -> (r: Vec<Option<FileId>>)
    ensures
        r@ == files@,
{
    let mut out: Vec<Option<FileId>> = Vec::new();
    let mut i: usize = 0;
    while i < files.len()
        invariant
            i <= files@.len(),
            out@ == files@.take(i as int),
        decreases files@.len() - i,
    {
        out.push(files[i]);
        i = i + 1;
        assert(out@ =~= files@.take(i as int));
    }
    assert(out@ =~= files@);
    out
}

impl UserTask {
    /// Makes a child process that shares the memory of this one until one of them writes. The
    /// identifier, the limits and the register set of a new process come from the rest of the
    /// kernel; the registers are then those of this thread, with zero as the result of the call.
    pub fn cow_fork(
        &self,
        pcb: &mut ProcessControlBlock,
        task_id: usize,
        rlimits: Vec<usize>,
    ) -> (r: (UserTask, ProcessControlBlock))
        requires
            areas_aligned(old(pcb).memset@),
            shms_wf(shm_views(old(pcb).shms@)),
        ensures
            *final(pcb) == (ProcessControlBlock {
                children: final(pcb).children,
                page_table: final(pcb).page_table,
                ..*old(pcb)
            }),
            final(pcb).children@ == old(pcb).children@.push(task_id),
            final(pcb).page_table@ == table_shared(old(pcb).page_table@, old(pcb).memset@),
            r.0.task_id == task_id,
            r.0.process_id == task_id,
            r.0.parent == Some(self.task_id),
            r.0.tcb.fresh(TrapFrame { ret: 0, ..self.tcb.cx }, SigProcMask { mask: 0 }),
            r.1.memset@ == old(pcb).memset@,
            r.1.page_table@ == table_attached(
                table_shared(Map::empty(), old(pcb).memset@),
                old(pcb).memset@,
                shm_views(old(pcb).shms@),
            ),
            r.1.fd_table@ == old(pcb).fd_table@,
            r.1.curr_dir == old(pcb).curr_dir,
            r.1.heap == old(pcb).heap,
            shm_views(r.1.shms@) == shm_views(old(pcb).shms@),
            r.1.entry == 0,
            r.1.children@.len() == 0,
            r.1.tms == (TMS { utime: 0, stime: 0, cutime: 0, cstime: 0 }),
            r.1.rlimits == rlimits,
            r.1.sigaction@ == Seq::new(65, |i: int| SigAction::default_action()),
            r.1.futex_table@ == Map::<usize, Vec<usize>>::empty(),
            r.1.threads@ == seq![task_id],
            r.1.exit_code is None,
    {
        let ghost before = *pcb;
        let ghost areas = pcb.memset@;
        let ghost shms = shm_views(pcb.shms@);
        let cx: TrapFrame = TrapFrame { ret: 0, ..self.tcb.cx };
        let (task, mut child) = UserTask::new(
            Some(self.task_id),
            task_id,
            pcb.curr_dir,
            clone_files(&pcb.fd_table),
            rlimits,
            cx,
        );
        child.heap = pcb.heap;
        child.shms = clone_shms(&pcb.shms);
        child.memset = pcb.memset.clone();
        pcb.children.push(task_id);
        let ghost made = child;
        let memset: MemSet = pcb.memset.clone();
        let mut i: usize = 0;
        assert(areas.take(0) =~= Seq::empty());
        while i < memset.areas.len()
            invariant
                i <= memset.areas@.len(),
                memset@ == areas,
                areas_aligned(areas),
                *pcb == (ProcessControlBlock {
                    children: pcb.children,
                    page_table: pcb.page_table,
                    ..before
                }),
                pcb.children@ == before.children@.push(task_id),
                child == (ProcessControlBlock { page_table: child.page_table, ..made }),
                pcb.page_table@ == table_shared(before.page_table@, areas.take(i as int)),
                child.page_table@ == table_shared(Map::empty(), areas.take(i as int)),
            decreases memset.areas@.len() - i,
        {
            assert(areas.take(i + 1).drop_last() =~= areas.take(i as int));
            assert(areas[i as int] == memset.areas@[i as int]@);
            map_tracks(&task, &mut child, &memset.areas[i].mtrackers, MappingFlags::URX);
            map_tracks(self, pcb, &memset.areas[i].mtrackers, MappingFlags::URX);
            i = i + 1;
        }
        assert(areas.take(i as int) =~= areas);
        let ghost shared = child.page_table@;
        let mut k: usize = 0;
        assert(areas.take(0) =~= Seq::empty());
        while k < memset.areas.len()
            invariant
                k <= memset.areas@.len(),
                memset@ == areas,
                shms == shm_views(pcb.shms@),
                shms_wf(shms),
                child == (ProcessControlBlock { page_table: child.page_table, ..made }),
                child.page_table@ == table_attached(shared, areas.take(k as int), shms),
            decreases memset.areas@.len() - k,
        {
            assert(areas.take(k + 1).drop_last() =~= areas.take(k as int));
            assert(areas[k as int] == memset.areas@[k as int]@);
            let start: usize = memset.areas[k].start;
            proof {
                lemma_covering(shms, start as int);
            }
            let mut j: usize = 0;
            while j < pcb.shms.len() && !(pcb.shms[j].start <= start && start - pcb.shms[j].start
                < pcb.shms[j].size)
                invariant
                    j <= pcb.shms@.len(),
                    shms == shm_views(pcb.shms@),
                    forall|m: int|
                        0 <= m < j ==> !((#[trigger] shms[m]).start <= start < shms[m].start
                            + shms[m].size),
                decreases pcb.shms@.len() - j,
            {
                assert(shms[j as int] == pcb.shms@[j as int]@);
                j = j + 1;
            }
            if j < pcb.shms.len() {
                assert(shms[j as int] == pcb.shms@[j as int]@);
                assert(covering(shms, start as int) == j);
                map_shm(&task, &mut child, &pcb.shms[j]);
            } else {
                assert(covering(shms, start as int) == shms.len());
            }
            k = k + 1;
        }
        assert(areas.take(k as int) =~= areas);
        (task, child)
    }

    /// Makes a thread of the same process: the registers are those of this thread, with zero as the
    /// result of the call, and all memory, files and signal actions are shared. `alive` tells which
    /// of the threads are still there.
    pub fn thread_clone(
        &self,
        pcb: &mut ProcessControlBlock,
        task_id: usize,
        alive: &[bool],
    ) -> (r: UserTask)
        requires
            alive@.len() == old(pcb).threads@.len(),
        ensures
            r.task_id == task_id,
            r.process_id == self.process_id,
            r.parent == self.parent,
            r.tcb.fresh(TrapFrame { ret: 0, ..self.tcb.cx }, self.tcb.sigmask),
            *final(pcb) == (ProcessControlBlock { threads: final(pcb).threads, ..*old(pcb) }),
            final(pcb).threads@ == remaining(old(pcb).threads@, alive@, None).push(task_id),
    {
        let cx: TrapFrame = TrapFrame { ret: 0, ..self.tcb.cx };
        let task = UserTask {
            task_id,
            process_id: self.process_id,
            parent: self.parent,
            tcb: ThreadControlBlock::make(cx, self.tcb.sigmask),
        };
        pcb.threads = retain_threads(&pcb.threads, alive, None);
        pcb.threads.push(task_id);
        task
    }

    /// Makes room for a text on the stack of the program. What is to be stored there comes back
    /// with the new stack pointer.
    pub fn push_str(&mut self, text: &str) -> (r: (usize, UserWrite))
        requires
            stack_room(text.spec_bytes().len() as int) <= old(self).tcb.cx.sp,
        ensures
            pushed(*old(self), *final(self), stack_room(text.spec_bytes().len() as int), r),
            r.1.bytes@ == text.spec_bytes(),
    {
        self.push_arr(text.as_bytes())
    }

    /// Makes room for bytes on the stack of the program, one byte more than they are, in units of
    /// eight. What is to be stored there comes back with the new stack pointer.
    pub fn push_arr(&mut self, buffer: &[u8]) -> (r: (usize, UserWrite))
        requires
            stack_room(buffer@.len() as int) <= old(self).tcb.cx.sp,
        ensures
            pushed(*old(self), *final(self), stack_room(buffer@.len() as int), r),
            r.1.bytes@ == buffer@,
    {
        let len: usize = buffer.len();
        let room: usize = (len / 8 + 1) * 8;
        assert(room == stack_room(len as int));
        let sp: usize = self.tcb.cx.sp - room;
        self.tcb.cx.sp = sp;
        let bytes: Vec<u8> = vstd::slice::slice_to_vec(buffer);
        (sp, UserWrite { addr: sp, bytes })
    }

    /// Puts a number on the stack of the program. What is to be stored there comes back with the
    /// new stack pointer.
    pub fn push_num(&mut self, num: usize) -> (r: (usize, UserWrite))
        requires
            old(self).tcb.cx.sp >= 8,
        ensures
            pushed(*old(self), *final(self), 8, r),
            r.1.bytes@ == le_bytes(num as u64),
    {
        let sp: usize = self.tcb.cx.sp - 8;
        self.tcb.cx.sp = sp;
        (sp, UserWrite { addr: sp, bytes: to_le_bytes(num as u64) })
    }

    /// The first address behind everything that is mapped, not counting the stack.
    pub fn get_last_free_addr(&self, pcb: &ProcessControlBlock) -> (r: usize)
        requires
            forall|i: int|
                0 <= i < pcb.memset@.len() && (#[trigger] pcb.memset@[i]).mtype
                    != MemType::Stack ==> pcb.memset@[i].start + pcb.memset@[i].len
                    <= usize::MAX,
            forall|i: int|
                0 <= i < pcb.shms@.len() ==> (#[trigger] pcb.shms@[i]).start + pcb.shms@[i].size
                    <= usize::MAX,
        ensures
            r == max_int(areas_end(pcb.memset@), shms_end(shm_views(pcb.shms@))),
    {
        let ghost areas = pcb.memset@;
        let ghost shms = shm_views(pcb.shms@);
        let mut map_last: usize = 0;
        let mut i: usize = 0;
        assert(areas.take(0) =~= Seq::empty());
        while i < pcb.memset.areas.len()
            invariant
                areas == pcb.memset@,
                i <= areas.len(),
                map_last == areas_end(areas.take(i as int)),
                forall|i: int|
                    0 <= i < pcb.memset@.len() && (#[trigger] pcb.memset@[i]).mtype
                        != MemType::Stack ==> pcb.memset@[i].start + pcb.memset@[i].len
                        <= usize::MAX,
            decreases areas.len() - i,
        {
            assert(areas.take(i + 1).drop_last() =~= areas.take(i as int));
            assert(pcb.memset@[i as int] == pcb.memset.areas@[i as int]@);
            if pcb.memset.areas[i].mtype != MemType::Stack {
                let end: usize = pcb.memset.areas[i].start + pcb.memset.areas[i].len;
                if end > map_last {
                    map_last = end;
                }
            }
            i = i + 1;
        }
        assert(areas.take(i as int) =~= areas);
        let mut shm_last: usize = 0;
        let mut k: usize = 0;
        assert(shms.take(0) =~= Seq::empty());
        while k < pcb.shms.len()
            invariant
                shms == shm_views(pcb.shms@),
                k <= shms.len(),
                shm_last == shms_end(shms.take(k as int)),
                forall|i: int|
                    0 <= i < pcb.shms@.len() ==> (#[trigger] pcb.shms@[i]).start
                        + pcb.shms@[i].size <= usize::MAX,
            decreases shms.len() - k,
        {
            assert(shms.take(k + 1).drop_last() =~= shms.take(k as int));
            assert(shms[k as int] == pcb.shms@[k as int]@);
            let end: usize = pcb.shms[k].start + pcb.shms[k].size;
            if end > shm_last {
                shm_last = end;
            }
            k = k + 1;
        }
        assert(shms.take(k as int) =~= shms);
        if map_last >= shm_last {
            map_last
        } else {
            shm_last
        }
    }

    /// The open file with the number.
    pub fn get_fd(&self, pcb: &ProcessControlBlock, index: usize) -> (r: Option<FileId>)
        requires
            pcb.rlimits@.len() > RLIMIT_NOFILE,
            index < pcb.rlimits@[RLIMIT_NOFILE as int] ==> index < pcb.fd_table@.len(),
        ensures
            r == fd_file(*pcb, index),
    {
        if index >= pcb.rlimits[RLIMIT_NOFILE] {
            None
        } else {
            pcb.fd_table[index]
        }
    }

    /// Lets the number stand for the file, unless the number is beyond the limit.
    pub fn set_fd(&self, pcb: &mut ProcessControlBlock, index: usize, value: FileId)
        requires
            old(pcb).rlimits@.len() > RLIMIT_NOFILE,
            index < old(pcb).rlimits@[RLIMIT_NOFILE as int] ==> index < old(pcb).fd_table@.len(),
        ensures
            fd_set(*old(pcb), *final(pcb), index, value),
    {
        if index >= pcb.rlimits[RLIMIT_NOFILE] {
            return;
        }
        pcb.fd_table[index] = Some(value);
        assert(pcb.fd_table@ =~= old(pcb).fd_table@.update(index as int, Some(value)));
    }

    /// Lets the number stand for nothing.
    pub fn clear_fd(&self, pcb: &mut ProcessControlBlock, index: usize)
        ensures
            *final(pcb) == (ProcessControlBlock { fd_table: final(pcb).fd_table, ..*old(pcb) }),
            final(pcb).fd_table@ == (if index >= old(pcb).fd_table@.len() {
                old(pcb).fd_table@
            } else {
                old(pcb).fd_table@.update(index as int, None)
            }),
    {
        if index >= pcb.fd_table.len() {
            return;
        }
        pcb.fd_table[index] = None;
        assert(pcb.fd_table@ =~= old(pcb).fd_table@.update(index as int, None));
    }

    /// Finds the smallest free number below the limit; where the table is full and below the limit,
    /// it gets one more place.
    pub fn alloc_fd(&self, pcb: &mut ProcessControlBlock) -> (r: Option<usize>)
        requires
            old(pcb).rlimits@.len() > RLIMIT_NOFILE,
        ensures
            *final(pcb) == (ProcessControlBlock { fd_table: final(pcb).fd_table, ..*old(pcb) }),
            fd_allocated(
                old(pcb).fd_table@,
                final(pcb).fd_table@,
                old(pcb).rlimits@[RLIMIT_NOFILE as int],
                r,
            ),
    {
        let limit: usize = pcb.rlimits[RLIMIT_NOFILE];
        let mut i: usize = 0;
        while i < pcb.fd_table.len()
            invariant
                *pcb == *old(pcb),
                i <= pcb.fd_table@.len(),
                limit == pcb.rlimits@[RLIMIT_NOFILE as int],
                forall|j: int| 0 <= j < i ==> !#[trigger] fd_free(pcb.fd_table@, limit, j),
            decreases pcb.fd_table@.len() - i,
        {
            if pcb.fd_table[i].is_none() && i < limit {
                return Some(i);
            }
            i = i + 1;
        }
        if pcb.fd_table.len() < limit {
            pcb.fd_table.push(None);
            return Some(pcb.fd_table.len() - 1);
        }
        None
    }

    /// Where a file name leads from: a path from the root stands for itself, any other is taken
    /// relative to the working directory or to an open file.
    pub fn fd_resolve(&self, pcb: &ProcessControlBlock, fd: isize, filename: &str) -> (r: VfsResult<
        Resolved,
    >)
        ensures
            r == (if filename@.len() > 0 && filename@[0] == '/' {
                Ok::<Resolved, Errno>(Resolved::Absolute)
            } else if fd == AT_CWD {
                Ok(Resolved::RelativeTo(pcb.curr_dir))
            } else if 0 <= fd < pcb.fd_table@.len() && pcb.fd_table@[fd as int] is Some {
                Ok(Resolved::RelativeTo(pcb.fd_table@[fd as int]->0))
            } else {
                Err(Errno::EBADF)
            }),
    {
        if filename.unicode_len() > 0 && filename.get_char(0) == '/' {
            return Ok(Resolved::Absolute);
        }
        if fd == AT_CWD {
            return Ok(Resolved::RelativeTo(pcb.curr_dir));
        }
        if fd < 0 {
            return Err(Errno::EBADF);
        }
        let index: usize = fd as usize;
        if index >= pcb.fd_table.len() {
            return Err(Errno::EBADF);
        }
        match pcb.fd_table[index] {
            Some(file) => Ok(Resolved::RelativeTo(file)),
            None => Err(Errno::EBADF),
        }
    }

    /// The file behind an address: the file of the first area that holds the address and has one,
    /// the place in the file of the page of the address, and the length of the area.
    pub fn get_elf_segment_for_addr(&self, pcb: &ProcessControlBlock, vaddr: usize) -> (r: Option<
        (FileId, usize, usize),
    >)
        requires
            forall|i: int|
                first_backed(pcb.memset@, vaddr as int, i) ==> {
                    let area = #[trigger] pcb.memset@[i];
                    page_of(vaddr) >= area.start && area.offset + (page_of(vaddr) - area.start)
                        <= usize::MAX
                },
        ensures
            match r {
                Some(found) => exists|i: int|
                    {
                        &&& first_backed(pcb.memset@, vaddr as int, i)
                        &&& found == segment_of(#[trigger] pcb.memset@[i], vaddr)
                    },
                None => !some_backed(pcb.memset@, vaddr as int),
            },
    {
        let mut i: usize = 0;
        while i < pcb.memset.areas.len()
            invariant
                i <= pcb.memset.areas@.len(),
                forall|i: int|
                    first_backed(pcb.memset@, vaddr as int, i) ==> {
                        let area = #[trigger] pcb.memset@[i];
                        page_of(vaddr) >= area.start && area.offset + (page_of(vaddr)
                            - area.start) <= usize::MAX
                    },
                forall|j: int|
                    0 <= j < i ==> !((#[trigger] pcb.memset@[j]).holds(vaddr as int)
                        && pcb.memset@[j].file is Some),
            decreases pcb.memset.areas@.len() - i,
        {
            let area: &MemArea = &pcb.memset.areas[i];
            assert(pcb.memset@[i as int] == area@);
            if area.contains(vaddr) {
                if let Some(file) = area.file {
                    assert(first_backed(pcb.memset@, vaddr as int, i as int));
                    let page: usize = page_floor(vaddr);
                    return Some((file, area.offset + (page - area.start), area.len));
                }
            }
            i = i + 1;
        }
        None
    }
}

/// The resource number of the limit on open files.
pub const RLIMIT_NOFILE: usize = 7;

/// What `alloc_fd` does: the smallest free number below the limit is chosen; if there is none, one
/// place is added while the table is below the limit.
pub open spec fn fd_allocated(
    before: Seq<Option<FileId>>,
    after: Seq<Option<FileId>>,
    limit: usize,
    result: Option<usize>,
) -> bool {
    ||| {
        &&& result matches Some(i) && fd_free(before, limit, i as int)
        &&& forall|j: int| 0 <= j < result->0 ==> !#[trigger] fd_free(before, limit, j)
        &&& after == before
    }
    ||| {
        &&& forall|j: int| !#[trigger] fd_free(before, limit, j)
        &&& before.len() < limit
        &&& result == Some(before.len() as usize)
        &&& after == before.push(None)
    }
    ||| {
        &&& forall|j: int| !#[trigger] fd_free(before, limit, j)
        &&& before.len() >= limit
        &&& result is None
        &&& after == before
    }
}

/// The number has a place in the table, stands for nothing and is below the limit.
pub open spec fn fd_free(table: Seq<Option<FileId>>, limit: usize, i: int) -> bool {
    0 <= i < table.len() && table[i] is None && i < limit
}

/// The first area that holds the address and has a file is the one at `i`.
pub open spec fn first_backed(areas: Seq<AreaView>, vaddr: int, i: int) -> bool {
    &&& 0 <= i < areas.len()
    &&& areas[i].holds(vaddr)
    &&& areas[i].file is Some
    &&& forall|j: int|
        0 <= j < i ==> !((#[trigger] areas[j]).holds(vaddr) && areas[j].file is Some)
}

/// Some area holds the address and has a file.
pub open spec fn some_backed(areas: Seq<AreaView>, vaddr: int) -> bool {
    exists|i: int|
        0 <= i < areas.len() && (#[trigger] areas[i]).holds(vaddr) && areas[i].file is Some
}

/// The file of an area, the place in it of the page of an address, and the length of the area.
pub open spec fn segment_of(area: AreaView, vaddr: usize) -> (FileId, usize, usize) {
    (area.file->0, (area.offset + (page_of(vaddr) - area.start)) as usize, area.len)
}

/// The stack pointer moved down by `room`, and the store goes to where it now points.
pub open spec fn pushed(
    before: UserTask,
    after: UserTask,
    room: int,
    result: (usize, UserWrite),
) -> bool {
    &&& result.0 == before.tcb.cx.sp - room
    &&& result.1.addr == result.0
    &&& after == (UserTask {
        tcb: ThreadControlBlock {
            cx: TrapFrame { sp: result.0, ..before.tcb.cx },
            ..before.tcb
        },
        ..before
    })
}

/// What a number stands for: nothing beyond the limit, else what the table holds.
pub open spec fn fd_file(pcb: ProcessControlBlock, index: usize) -> Option<FileId> {
    if index >= pcb.rlimits@[RLIMIT_NOFILE as int] {
        None
    } else {
        pcb.fd_table@[index as int]
    }
}

/// The number stands for the file in the table, unless it is beyond the limit; nothing else differs.
pub open spec fn fd_set(
    before: ProcessControlBlock,
    after: ProcessControlBlock,
    index: usize,
    value: FileId,
) -> bool {
    &&& after == (ProcessControlBlock { fd_table: after.fd_table, ..before })
    &&& after.fd_table@ == (if index >= before.rlimits@[RLIMIT_NOFILE as int] {
        before.fd_table@
    } else {
        before.fd_table@.update(index as int, Some(value))
    })
}

/// After a file was put under a number, the number stands for the file, unless it is beyond the
/// limit, where it stands for nothing; every other number stands for what it stood for before.
pub proof fn law_fd_round_trip(
    before: ProcessControlBlock,
    after: ProcessControlBlock,
    index: usize,
    value: FileId,
    other: usize,
)
    requires
        index < before.rlimits@[RLIMIT_NOFILE as int] ==> index < before.fd_table@.len(),
        other < before.rlimits@[RLIMIT_NOFILE as int] ==> other < before.fd_table@.len(),
        other != index,
        fd_set(before, after, index, value),
    ensures
        fd_file(after, index) == (if index < before.rlimits@[RLIMIT_NOFILE as int] {
            Some(value)
        } else {
            None
        }),
        fd_file(after, other) == fd_file(before, other),
{
}

/// A number that was handed out is below the limit, stands for nothing yet and has a place in the
/// table, and no smaller number was free.
pub proof fn law_allocated_fd_is_free(
    before: Seq<Option<FileId>>,
    after: Seq<Option<FileId>>,
    limit: usize,
    result: Option<usize>,
    smaller: int,
)
    requires
        before.len() <= usize::MAX,
        fd_allocated(before, after, limit, result),
        result is Some,
        0 <= smaller < result->0,
    ensures
        result->0 < limit,
        result->0 < after.len(),
        after[result->0 as int] is None,
        !fd_free(before, limit, smaller),
{
}

/// Only threads that are alive and not the one that ends are left, and all of those are.
pub proof fn law_remaining_threads(threads: Seq<usize>, alive: Seq<bool>, ended: Option<usize>, t: usize)
    requires
        alive.len() >= threads.len(),
    ensures
        remaining(threads, alive, ended).contains(t) <==> ended != Some(t) && exists|i: int|
            0 <= i < threads.len() && #[trigger] threads[i] == t && alive[i],
    decreases threads.len(),
{
    if threads.len() > 0 {
        let rest = threads.drop_last();
        law_remaining_threads(rest, alive, ended, t);
        let before = remaining(rest, alive, ended);
        let n = threads.len() - 1;
        if alive[n] && ended != Some(threads.last()) {
            let now = before.push(threads.last());
            assert(now.contains(t) <==> before.contains(t) || t == threads.last()) by {
                if before.contains(t) {
                    let k = choose|k: int| 0 <= k < before.len() && before[k] == t;
                    assert(now[k] == t);
                }
                if t == threads.last() {
                    assert(now[before.len() as int] == t);
                }
                if now.contains(t) && t != threads.last() {
                    let k = choose|k: int| 0 <= k < now.len() && now[k] == t;
                    assert(before[k] == t);
                }
            }
        }
        if exists|i: int| 0 <= i < threads.len() && #[trigger] threads[i] == t && alive[i] {
            let i = choose|i: int| 0 <= i < threads.len() && #[trigger] threads[i] == t && alive[i];
            if i < n {
                assert(rest[i] == t);
            } else {
                assert(threads.last() == t);
            }
        }
        if exists|i: int| 0 <= i < rest.len() && #[trigger] rest[i] == t && alive[i] {
            let i = choose|i: int| 0 <= i < rest.len() && #[trigger] rest[i] == t && alive[i];
            assert(threads[i] == t);
        }
        assert(threads[n] == threads.last());
    }
}

/// While some other thread is alive, the end of a thread does not end the process.
pub proof fn law_process_outlives_thread(
    task: UserTask,
    pcb: ProcessControlBlock,
    alive: Seq<bool>,
    i: int,
)
    requires
        alive.len() == pcb.threads@.len(),
        0 <= i < pcb.threads@.len(),
        alive[i],
        pcb.threads@[i] != task.task_id,
    ensures
        !task.ends_process(&pcb, alive),
{
    let t = pcb.threads@[i];
    law_remaining_threads(pcb.threads@, alive, Some(task.task_id), t);
}

/// A parent is told of the end of a child with the signal that was asked for, and with SIGCHLD where
/// none was. Where an address is to be cleared, that is asked for, and nothing where there is none.
pub proof fn law_end_of_a_thread_is_announced(task: UserTask, told: bool)
    ensures
        ({
            let effects = task.exit_effects(told);
            &&& told && task.tcb.exit_signal == 0 ==> effects.parent_signal == Some(
                SignalFlags { number: 17 },
            )
            &&& told && task.tcb.exit_signal != 0 ==> effects.parent_signal == Some(
                SignalFlags { number: task.tcb.exit_signal as usize },
            )
            &&& !told ==> effects.parent_signal is None
            &&& task.tcb.clear_child_tid == 0 ==> effects.cleared_tid is None
            &&& task.tcb.clear_child_tid != 0 ==> effects.cleared_tid == Some(
                task.tcb.clear_child_tid,
            )
        }),
{
}

/// A process whose main thread ends while no other thread is alive loses its memory and its files. It
/// keeps them while another thread is alive, or if it is not the main thread that ends. In any case
/// the process gets the exit code. Its children are dropped if it loses its memory or has no parent.
pub proof fn law_exit_ends_the_process(
    task: UserTask,
    before: ProcessControlBlock,
    after: ProcessControlBlock,
    code: usize,
    alive: Seq<bool>,
    parent_alive: bool,
)
    requires
        alive.len() == before.threads@.len(),
        task.exited(before, after, code, alive, parent_alive),
    ensures
        ({
            let others = exists|i: int|
                0 <= i < alive.len() && alive[i] && #[trigger] before.threads@[i] != task.task_id;
            let over = task.task_id == task.process_id && !others;
            &&& task.ends_process(&before, alive) == over
            &&& after.exit_code == Some(code)
            &&& over ==> after.memset@.len() == 0 && after.fd_table@.len() == 0
            &&& !over ==> after.memset == before.memset && after.fd_table == before.fd_table
            &&& after.children@.len() == 0 || (after.children == before.children && !over
                && parent_alive)
            &&& over || !parent_alive ==> after.children@.len() == 0
            &&& !over && parent_alive ==> after.children == before.children
            &&& forall|t: usize|
                after.threads@.contains(t) <==> t != task.task_id && exists|i: int|
                    0 <= i < alive.len() && alive[i] && #[trigger] before.threads@[i] == t
            &&& after.page_table == before.page_table
            &&& after.heap == before.heap
            &&& after.sigaction == before.sigaction
            &&& after.shms == before.shms
            &&& after.rlimits == before.rlimits
            &&& after.curr_dir == before.curr_dir
        }),
{
    let left = remaining(before.threads@, alive, Some(task.task_id));
    assert forall|t: usize|
        left.contains(t) <==> t != task.task_id && exists|i: int|
            0 <= i < alive.len() && alive[i] && #[trigger] before.threads@[i] == t by {
        law_remaining_threads(before.threads@, alive, Some(task.task_id), t);
    }
    if exists|i: int|
        0 <= i < alive.len() && alive[i] && #[trigger] before.threads@[i] != task.task_id {
        let i = choose|i: int|
            0 <= i < alive.len() && alive[i] && #[trigger] before.threads@[i] != task.task_id;
        assert(left.contains(before.threads@[i]));
    } else if left.len() > 0 {
        assert(left.contains(left[0]));
    }
}

/// The threads that are left keep their order: one more thread at the end is left behind all others
/// if it is alive and not the one that ends, and changes nothing if not.
pub proof fn law_remaining_threads_keep_their_order(
    threads: Seq<usize>,
    alive: Seq<bool>,
    ended: Option<usize>,
    t: usize,
    b: bool,
)
    requires
        alive.len() == threads.len(),
    ensures
        remaining(Seq::empty(), Seq::empty(), ended) == Seq::<usize>::empty(),
        remaining(threads.push(t), alive.push(b), ended) == remaining(threads, alive, ended) + (if b
            && ended != Some(t) {
            seq![t]
        } else {
            Seq::empty()
        }),
{
    assert(threads.push(t).drop_last() =~= threads);
    lemma_longer_alive(threads, alive, alive.push(b), ended);
    let rest = remaining(threads, alive, ended);
    assert(rest.push(t) =~= rest + seq![t]);
    assert(rest =~= rest + Seq::<usize>::empty());
}

proof fn lemma_longer_alive(
    threads: Seq<usize>,
    alive: Seq<bool>,
    longer: Seq<bool>,
    ended: Option<usize>,
)
    requires
        alive.len() >= threads.len(),
        longer.len() >= threads.len(),
        forall|i: int| 0 <= i < threads.len() ==> #[trigger] alive[i] == longer[i],
    ensures
        remaining(threads, alive, ended) == remaining(threads, longer, ended),
    decreases threads.len(),
{
    if threads.len() > 0 {
        lemma_longer_alive(threads.drop_last(), alive, longer, ended);
        assert(alive[threads.len() - 1] == longer[threads.len() - 1]);
    }
}

/// What is pushed onto the stack of a program lies between the new and the old stack pointer, with at
/// least one byte and at most eight to spare; a stack pointer that was a multiple of eight stays one.
/// Nothing else about the thread changes.
pub proof fn law_pushed_bytes_fit(
    before: UserTask,
    after: UserTask,
    len: int,
    result: (usize, UserWrite),
)
    requires
        0 <= len,
        stack_room(len) <= before.tcb.cx.sp,
        pushed(before, after, stack_room(len), result),
    ensures
        after.tcb.cx.sp == result.0,
        result.1.addr == after.tcb.cx.sp,
        after.tcb.cx.sp + len < before.tcb.cx.sp <= after.tcb.cx.sp + len + 8,
        before.tcb.cx.sp % 8 == 0 ==> after.tcb.cx.sp % 8 == 0,
        after.tcb.cx == (TrapFrame { sp: after.tcb.cx.sp, ..before.tcb.cx }),
        after == (UserTask {
            tcb: ThreadControlBlock { cx: after.tcb.cx, ..before.tcb },
            ..before
        }),
{
}

/// A number that is handed out is the smallest below the limit that stands for nothing, or the first
/// behind the table where every number below the limit stands for a file. None is handed out exactly
/// if every number below the limit stands for a file. No number gets or loses a file.
pub proof fn law_smallest_free_number(
    before: Seq<Option<FileId>>,
    after: Seq<Option<FileId>>,
    limit: usize,
    result: Option<usize>,
    j: int,
)
    requires
        before.len() <= usize::MAX,
        fd_allocated(before, after, limit, result),
        0 <= j < before.len(),
    ensures
        after[j] == before[j],
        before[j] is None && j < limit ==> result is Some && result->0 <= j,
        result is Some && j < result->0 ==> before[j] is Some || j >= limit,
        result is Some ==> result->0 < limit && result->0 < after.len() && after[result->0 as int]
            is None,
        result is None ==> before.len() >= limit && after == before,
        before.len() < limit ==> result is Some,
        after.len() <= before.len() + 1,
        after.len() == before.len() + 1 ==> result == Some(before.len() as usize),
{
    assert(fd_free(before, limit, j) == (before[j] is None && j < limit));
}

/// The segment that is found for an address is that of the first area that holds it and has a file:
/// its file, the place in the file as far behind the offset of the area as the page of the address
/// lies behind its start, and its length.
pub proof fn law_segment_of_an_address(areas: Seq<AreaView>, vaddr: usize, i: int)
    requires
        first_backed(areas, vaddr as int, i),
        page_of(vaddr) >= areas[i].start,
        areas[i].offset + (page_of(vaddr) - areas[i].start) <= usize::MAX,
    ensures
        0 <= i < areas.len(),
        areas[i].start <= vaddr < areas[i].start + areas[i].len,
        areas[i].file == Some(segment_of(areas[i], vaddr).0),
        segment_of(areas[i], vaddr).1 - areas[i].offset == vaddr - vaddr % 4096 - areas[i].start,
        segment_of(areas[i], vaddr).2 == areas[i].len,
        forall|j: int|
            0 <= j < i && (#[trigger] areas[j]).file is Some ==> vaddr < areas[j].start
                || areas[j].start + areas[j].len <= vaddr,
        some_backed(areas, vaddr as int),
{
    assert(areas[i].holds(vaddr as int));
    assert forall|j: int| 0 <= j < i && (#[trigger] areas[j]).file is Some implies vaddr
        < areas[j].start || areas[j].start + areas[j].len <= vaddr by {
        assert(!areas[j].holds(vaddr as int));
    }
}

/// A file is found for an address whenever some area holds the address and has a file.
pub proof fn law_segment_is_found(areas: Seq<AreaView>, vaddr: int, k: int)
    requires
        0 <= k < areas.len(),
        areas[k].start <= vaddr < areas[k].start + areas[k].len,
        areas[k].file is Some,
    ensures
        some_backed(areas, vaddr),
        exists|i: int| i <= k && #[trigger] first_backed(areas, vaddr, i),
    decreases k,
{
    assert(areas[k].holds(vaddr));
    if !first_backed(areas, vaddr, k) {
        let j = choose|j: int|
            0 <= j < k && (#[trigger] areas[j]).holds(vaddr) && areas[j].file is Some;
        law_segment_is_found(areas, vaddr, j);
    }
}

/// A thread that has just been made has the registers and the mask that it was given. No signal waits
/// for it, it has neither ended nor anything to clear, and it has no list of locks.
pub proof fn law_new_thread_is_clean(tcb: ThreadControlBlock, cx: TrapFrame, mask: SigProcMask, n: int)
    requires
        tcb.fresh(cx, mask),
        0 <= n < 65,
    ensures
        tcb.cx == cx,
        tcb.sigmask == mask,
        !tcb.signal.has(n),
        tcb.clear_child_tid == 0,
        tcb.set_child_tid == 0,
        tcb.exit_signal == 0,
        tcb.thread_exit_code is None,
        tcb.robust_list_head == 0,
        tcb.robust_list_len == 0,
        forall|i: int| 0 <= i < tcb.signal_queue@.len() ==> #[trigger] tcb.signal_queue@[i] == 0,
{
    assert(!tcb.signal@[n]);
}

/// The limit on open files is the one with the number seven.
pub proof fn law_limit_of_open_files(pcb: ProcessControlBlock, index: usize)
    ensures
        index >= pcb.rlimits@[7] ==> fd_file(pcb, index) is None,
        index < pcb.rlimits@[7] ==> fd_file(pcb, index) == pcb.fd_table@[index as int],
{
}

/// No file is found for an address that lies in no area with a file.
pub proof fn law_no_segment_outside_files(areas: Seq<AreaView>, vaddr: int, i: int)
    requires
        forall|j: int|
            0 <= j < areas.len() && (#[trigger] areas[j]).file is Some ==> vaddr < areas[j].start
                || areas[j].start + areas[j].len <= vaddr,
    ensures
        !some_backed(areas, vaddr),
        !first_backed(areas, vaddr, i),
{
    if some_backed(areas, vaddr) {
        let j = choose|j: int|
            0 <= j < areas.len() && (#[trigger] areas[j]).holds(vaddr) && areas[j].file is Some;
        assert(areas[j].file is Some);
    }
}

} // verus!
