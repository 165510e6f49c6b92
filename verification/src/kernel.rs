//! Traps that reach the kernel, and what is reported when memory is exhausted.
use vstd::prelude::*;

use crate::memset::{AreaView, FileId, MemType};
use crate::task::{ExitEffects, ProcessControlBlock, UserTask};
use crate::vfs::PAGE_SIZE;

verus! {

/// The source of frames for page tables.
#[derive(Clone, Copy, Debug, PartialEq, Eq, Structural)]
pub struct PageAllocImpl;

/// A frame to be given back, and how many of its bytes are to be cleared.
#[derive(Clone, Copy, Debug, PartialEq, Eq, Structural)]
pub struct PageRelease {
    pub paddr: usize,
    pub clear: usize,
}

impl PageAllocImpl {
    /// What is to be done with a frame that page tables no longer need: it is given back and cleared
    /// as a whole.
    pub fn dealloc(&self, paddr: usize) -> (r: PageRelease)
        ensures
            r == (PageRelease { paddr, clear: PAGE_SIZE }),
    {
        PageRelease { paddr, clear: PAGE_SIZE }
    }
}

/// Why the kernel was entered.
#[derive(Clone, Copy, Debug, PartialEq, Eq, Structural)]
pub enum TrapType {
    Breakpoint,
    SysCall,
    Timer,
    Unknown,
    SupervisorExternal,
    StorePageFault(usize),
    LoadPageFault(usize),
    InstructionPageFault(usize),
    IllegalInstruction(usize),
    Irq(usize),
}

/// What is to be done about a trap.
#[derive(Clone, Copy, Debug, PartialEq, Eq, Structural)]
pub enum TrapAction {
    /// Nothing.
    Ignore,
    /// Stop: the kernel itself touched memory that is not there.
    KernelFault(usize),
    /// Stop: there is no program that the fault could belong to.
    NoTask,
    /// Handle a page fault of the current program, after breaking the lock on its memory if that
    /// is held.
    UserFault { addr: usize, unlock: bool },
    /// Handle an illegal instruction of the current program.
    UserIllegal,
    /// Ask all devices whether they have anything to say.
    DeviceInterrupt { irq: u32 },
}

/// What is to be done about a trap. Kernel addresses lie above `virt_addr_start`; `user_task` tells
/// whether a user program is current, and `pcb_locked` whether the lock on its memory is held.
pub open spec fn trap_action(
    trap: TrapType,
    virt_addr_start: usize,
    user_task: bool,
    pcb_locked: bool,
) -> TrapAction {
    match trap {
        TrapType::StorePageFault(addr) | TrapType::LoadPageFault(addr)
        | TrapType::InstructionPageFault(addr) => if addr > virt_addr_start {
            TrapAction::KernelFault(addr)
        } else if user_task {
            TrapAction::UserFault { addr, unlock: pcb_locked }
        } else {
            TrapAction::NoTask
        },
        TrapType::IllegalInstruction(addr) => if addr > virt_addr_start {
            TrapAction::Ignore
        } else {
            TrapAction::UserIllegal
        },
        TrapType::SupervisorExternal => TrapAction::DeviceInterrupt { irq: u32::MAX },
        _ => TrapAction::Ignore,
    }
}

/// Decides what is to be done about a trap.
pub fn kernel_interrupt(
    trap: TrapType,
    virt_addr_start: usize,
    user_task: bool,
    pcb_locked: bool,
) -> (r: TrapAction)
    ensures
        r == trap_action(trap, virt_addr_start, user_task, pcb_locked),
{
    match trap {
        TrapType::StorePageFault(addr) | TrapType::InstructionPageFault(addr)
        | TrapType::LoadPageFault(addr) => {
            if addr > virt_addr_start {
                return TrapAction::KernelFault(addr);
            }
            if user_task {
                TrapAction::UserFault { addr, unlock: pcb_locked }
            } else {
                TrapAction::NoTask
            }
        },
        TrapType::IllegalInstruction(addr) => {
            if addr > virt_addr_start {
                TrapAction::Ignore
            } else {
                TrapAction::UserIllegal
            }
        },
        TrapType::SupervisorExternal => TrapAction::DeviceInterrupt { irq: u32::MAX },
        _ => TrapAction::Ignore,
    }
}

/// More areas than this are reported as a leak.
pub const MANY_AREAS: usize = 100;

/// More code areas than this are reported as a misuse of the heap.
pub const MANY_CODE_AREAS: usize = 50;

/// More mapped areas than this are reported as a leak of mappings.
pub const MANY_MMAP_AREAS: usize = 400;

/// The exit code of a program that is ended because memory is exhausted.
pub const OUT_OF_MEMORY_CODE: usize = 1;

/// How many areas of each type a program has.
#[derive(Clone, Copy, Debug, PartialEq, Eq, Structural)]
pub struct AreaCounts {
    pub stack: usize,
    pub shared: usize,
    pub code: usize,
    pub mmap: usize,
    pub share_file: usize,
    pub too_much_code: bool,
    pub too_much_mmap: bool,
}

/// What is reported of the heap when memory is exhausted.
#[derive(Clone, Copy, Debug, PartialEq, Eq, Structural)]
pub struct HeapReport {
    pub total: usize,
    pub total_mb: usize,
    pub allocated: usize,
    pub allocated_mb: usize,
    pub free: usize,
    pub free_mb: usize,
}

/// What is reported of the current program when memory is exhausted.
#[derive(Clone, Copy, Debug, PartialEq, Eq, Structural)]
pub struct TaskReport {
    pub task_id: usize,
    pub process_id: usize,
    /// The size and the alignment of the request that could not be met.
    pub size: usize,
    pub align: usize,
    pub areas: usize,
    /// The areas by type, where there are too many.
    pub counts: Option<AreaCounts>,
    /// How many areas are listed.
    pub listed: usize,
    pub total_memory: usize,
    pub total_mb: usize,
    pub used_fds: usize,
    pub fd_slots: usize,
}

/// How many areas have the type.
pub open spec fn count_areas(areas: Seq<AreaView>, mtype: MemType) -> int
    decreases areas.len(),
{
    if areas.len() == 0 {
        0
    } else {
        count_areas(areas.drop_last(), mtype) + (if areas.last().mtype == mtype {
            1int
        } else {
            0
        })
    }
}

/// The length of all areas together.
pub open spec fn total_len(areas: Seq<AreaView>) -> int
    decreases areas.len(),
{
    if areas.len() == 0 {
        0
    } else {
        total_len(areas.drop_last()) + areas.last().len
    }
}

proof fn lemma_total_len(areas: Seq<AreaView>, n: int)
    requires
        0 <= n <= areas.len(),
    ensures
        0 <= total_len(areas.take(n)) <= total_len(areas),
    decreases areas.len(),
{
    if n == areas.len() {
        assert(areas.take(n) =~= areas);
        if n > 0 {
            lemma_total_len(areas.drop_last(), 0);
            assert(areas.drop_last().take(0) =~= Seq::empty());
        }
    } else {
        assert(areas.take(n) =~= areas.drop_last().take(n));
        lemma_total_len(areas.drop_last(), n);
    }
}

/// How many numbers stand for a file.
pub open spec fn count_files(files: Seq<Option<FileId>>) -> int
    decreases files.len(),
{
    if files.len() == 0 {
        0
    } else {
        count_files(files.drop_last()) + (if files.last() is Some {
            1int
        } else {
            0
        })
    }
}

/// What is reported of the heap: sizes in bytes and in megabytes.
pub fn heap_report(total: usize, allocated: usize) -> (r: HeapReport)
    requires
        allocated <= total,
    ensures
        r == (HeapReport {
            total,
            total_mb: total / 0x10_0000,
            allocated,
            allocated_mb: allocated / 0x10_0000,
            free: (total - allocated) as usize,
            free_mb: ((total - allocated) / 0x10_0000) as usize,
        }),
{
    HeapReport {
        total,
        total_mb: total / 1024 / 1024,
        allocated,
        allocated_mb: allocated / 1024 / 1024,
        free: total - allocated,
        free_mb: (total - allocated) / 1024 / 1024,
    }
}

fn area_counts(pcb: &ProcessControlBlock) -> (r: AreaCounts)
    ensures
        r == (AreaCounts {
            stack: count_areas(pcb.memset@, MemType::Stack) as usize,
            shared: count_areas(pcb.memset@, MemType::Shared) as usize,
            code: count_areas(pcb.memset@, MemType::CodeSection) as usize,
            mmap: count_areas(pcb.memset@, MemType::Mmap) as usize,
            share_file: count_areas(pcb.memset@, MemType::ShareFile) as usize,
            too_much_code: count_areas(pcb.memset@, MemType::CodeSection) > MANY_CODE_AREAS,
            too_much_mmap: count_areas(pcb.memset@, MemType::Mmap) > MANY_MMAP_AREAS,
        }),
{
    let ghost areas = pcb.memset@;
    let mut stack: usize = 0;
    let mut shared: usize = 0;
    let mut code: usize = 0;
    let mut mmap: usize = 0;
    let mut share_file: usize = 0;
    let mut i: usize = 0;
    assert(areas.take(0) =~= Seq::empty());
    while i < pcb.memset.areas.len()
        invariant
            areas == pcb.memset@,
            i <= areas.len(),
            areas.len() == pcb.memset.areas@.len(),
            stack == count_areas(areas.take(i as int), MemType::Stack),
            shared == count_areas(areas.take(i as int), MemType::Shared),
            code == count_areas(areas.take(i as int), MemType::CodeSection),
            mmap == count_areas(areas.take(i as int), MemType::Mmap),
            share_file == count_areas(areas.take(i as int), MemType::ShareFile),
            stack <= i && shared <= i && code <= i && mmap <= i && share_file <= i,
        decreases areas.len() - i,
    {
        assert(areas.take(i + 1).drop_last() =~= areas.take(i as int));
        assert(areas[i as int] == pcb.memset.areas@[i as int]@);
        match pcb.memset.areas[i].mtype {
            MemType::Stack => {
                stack = stack + 1;
            },
            MemType::CodeSection => {
                code = code + 1;
            },
            MemType::Mmap => {
                mmap = mmap + 1;
            },
            MemType::Shared => {
                shared = shared + 1;
            },
            MemType::ShareFile => {
                share_file = share_file + 1;
            },
        }
        i = i + 1;
    }
    assert(areas.take(i as int) =~= areas);
    AreaCounts {
        stack,
        shared,
        code,
        mmap,
        share_file,
        too_much_code: code > MANY_CODE_AREAS,
        too_much_mmap: mmap > MANY_MMAP_AREAS,
    }
}

/// What is reported of a program when memory is exhausted.
pub open spec fn task_report(
    task: UserTask,
    pcb: ProcessControlBlock,
    size: usize,
    align: usize,
) -> TaskReport {
    let areas = pcb.memset@;
    TaskReport {
        task_id: task.task_id,
        process_id: task.process_id,
        size,
        align,
        areas: areas.len() as usize,
        counts: if areas.len() > MANY_AREAS {
            Some(
                AreaCounts {
                    stack: count_areas(areas, MemType::Stack) as usize,
                    shared: count_areas(areas, MemType::Shared) as usize,
                    code: count_areas(areas, MemType::CodeSection) as usize,
                    mmap: count_areas(areas, MemType::Mmap) as usize,
                    share_file: count_areas(areas, MemType::ShareFile) as usize,
                    too_much_code: count_areas(areas, MemType::CodeSection) > MANY_CODE_AREAS,
                    too_much_mmap: count_areas(areas, MemType::Mmap) > MANY_MMAP_AREAS,
                },
            )
        } else {
            None
        },
        listed: if areas.len() < 10 {
            areas.len() as usize
        } else {
            10
        },
        total_memory: total_len(areas) as usize,
        total_mb: (total_len(areas) / 0x10_0000) as usize,
        used_fds: count_files(pcb.fd_table@) as usize,
        fd_slots: pcb.fd_table@.len() as usize,
    }
}

fn report(task: &UserTask, pcb: &ProcessControlBlock, size: usize, align: usize) -> (r: TaskReport)
    requires
        total_len(pcb.memset@) <= usize::MAX,
    ensures
        r == task_report(*task, *pcb, size, align),
{
    let ghost areas = pcb.memset@;
    assert(areas.len() == pcb.memset.areas@.len());
    let counts: Option<AreaCounts> = if pcb.memset.areas.len() > MANY_AREAS {
        Some(area_counts(pcb))
    } else {
        None
    };
    let mut total_memory: usize = 0;
    let mut i: usize = 0;
    assert(areas.take(0) =~= Seq::empty());
    while i < pcb.memset.areas.len()
        invariant
            areas == pcb.memset@,
            areas.len() == pcb.memset.areas@.len(),
            i <= areas.len(),
            total_len(areas) <= usize::MAX,
            total_memory == total_len(areas.take(i as int)),
        decreases areas.len() - i,
    {
        proof {
            lemma_total_len(areas, i + 1);
            assert(areas.take(i + 1).drop_last() =~= areas.take(i as int));
            assert(areas[i as int] == pcb.memset.areas@[i as int]@);
        }
        total_memory = total_memory + pcb.memset.areas[i].len;
        i = i + 1;
    }
    assert(areas.take(i as int) =~= areas);
    let ghost files = pcb.fd_table@;
    let mut used_fds: usize = 0;
    let mut k: usize = 0;
    assert(files.take(0) =~= Seq::empty());
    while k < pcb.fd_table.len()
        invariant
            files == pcb.fd_table@,
            k <= files.len(),
            used_fds <= k,
            used_fds == count_files(files.take(k as int)),
        decreases files.len() - k,
    {
        assert(files.take(k + 1).drop_last() =~= files.take(k as int));
        if pcb.fd_table[k].is_some() {
            used_fds = used_fds + 1;
        }
        k = k + 1;
    }
    assert(files.take(k as int) =~= files);
    TaskReport {
        task_id: task.task_id,
        process_id: task.process_id,
        size,
        align,
        areas: pcb.memset.areas.len(),
        counts,
        listed: if pcb.memset.areas.len() < 10 {
            pcb.memset.areas.len()
        } else {
            10
        },
        total_memory,
        total_mb: total_memory / 1024 / 1024,
        used_fds,
        fd_slots: pcb.fd_table.len(),
    }
}

/// Reports on the current program when memory is exhausted, and ends it, so that the rest of the
/// system goes on. `alive` tells which of its threads are still there, and `parent_alive` whether its
/// parent is.
pub fn alloc_error_handler(
    task: &UserTask,
    pcb: &mut ProcessControlBlock,
    size: usize,
    align: usize,
    alive: &[bool],
    parent_alive: bool,
) -> (r: (TaskReport, ExitEffects))
    requires
        total_len(old(pcb).memset@) <= usize::MAX,
        alive@.len() == old(pcb).threads@.len(),
        task.clear_tid_mapped(old(pcb)),
    ensures
        r.0 == task_report(*task, *old(pcb), size, align),
        r.1 == task.exit_effects(parent_alive),
        final(pcb).exit_code == Some(OUT_OF_MEMORY_CODE),
        task.exited(*old(pcb), *final(pcb), OUT_OF_MEMORY_CODE, alive@, parent_alive),
{
    let r: TaskReport = report(task, pcb, size, align);
    let effects: ExitEffects = task.exit(pcb, OUT_OF_MEMORY_CODE, alive, parent_alive);
    (r, effects)
}

/// Every area has one type: the counts add up to the number of areas.
pub proof fn law_counts_add_up(areas: Seq<AreaView>)
    ensures
        count_areas(areas, MemType::Stack) + count_areas(areas, MemType::Shared) + count_areas(
            areas,
            MemType::CodeSection,
        ) + count_areas(areas, MemType::Mmap) + count_areas(areas, MemType::ShareFile)
            == areas.len(),
    decreases areas.len(),
{
    if areas.len() > 0 {
        law_counts_add_up(areas.drop_last());
    }
}

/// A page fault above where the kernel begins stops the kernel; below, it is handled for the current
/// program, with the lock broken exactly if it is held; and without a program it stops the kernel too.
/// It does not matter what was tried. An illegal instruction is handled for the program below that
/// address and ignored above. Interrupts of devices are passed on. Nothing else needs anything done.
pub proof fn law_traps(addr: usize, start: usize, user: bool, locked: bool)
    ensures
        trap_action(TrapType::LoadPageFault(addr), start, user, locked) == trap_action(
            TrapType::StorePageFault(addr),
            start,
            user,
            locked,
        ),
        trap_action(TrapType::InstructionPageFault(addr), start, user, locked) == trap_action(
            TrapType::StorePageFault(addr),
            start,
            user,
            locked,
        ),
        addr > start ==> trap_action(TrapType::StorePageFault(addr), start, user, locked)
            == TrapAction::KernelFault(addr),
        addr <= start && user ==> trap_action(TrapType::StorePageFault(addr), start, user, locked)
            == (TrapAction::UserFault { addr, unlock: locked }),
        addr <= start && !user ==> trap_action(TrapType::StorePageFault(addr), start, user, locked)
            == TrapAction::NoTask,
        addr <= start ==> trap_action(TrapType::IllegalInstruction(addr), start, user, locked)
            == TrapAction::UserIllegal,
        addr > start ==> trap_action(TrapType::IllegalInstruction(addr), start, user, locked)
            == TrapAction::Ignore,
        trap_action(TrapType::SupervisorExternal, start, user, locked)
            == (TrapAction::DeviceInterrupt { irq: u32::MAX }),
        trap_action(TrapType::Timer, start, user, locked) == TrapAction::Ignore,
        trap_action(TrapType::Breakpoint, start, user, locked) == TrapAction::Ignore,
        trap_action(TrapType::SysCall, start, user, locked) == TrapAction::Ignore,
        trap_action(TrapType::Unknown, start, user, locked) == TrapAction::Ignore,
        trap_action(TrapType::Irq(addr), start, user, locked) == TrapAction::Ignore,
{
}

/// One more area or file counts as one more, of its type and with its length.
pub proof fn law_counts_grow_by_one(
    areas: Seq<AreaView>,
    area: AreaView,
    mtype: MemType,
    files: Seq<Option<FileId>>,
    file: Option<FileId>,
)
    ensures
        count_areas(Seq::empty(), mtype) == 0,
        count_areas(areas.push(area), mtype) - count_areas(areas, mtype) == (if area.mtype == mtype {
            1int
        } else {
            0
        }),
        total_len(Seq::empty()) == 0,
        total_len(areas.push(area)) - total_len(areas) == area.len,
        count_files(Seq::empty()) == 0,
        count_files(files.push(file)) - count_files(files) == (if file is Some {
            1int
        } else {
            0
        }),
{
    assert(areas.push(area).drop_last() =~= areas);
    assert(files.push(file).drop_last() =~= files);
}

/// What is reported of a program: who it is, what was asked for, how many areas it has and how long
/// they are together, how many of them are listed, and its files. The areas are counted by type where
/// there are more than 100; more than 50 code areas or 400 mapped ones are too many.
pub proof fn law_report_of_a_program(
    task: UserTask,
    pcb: ProcessControlBlock,
    size: usize,
    align: usize,
)
    requires
        pcb.memset@.len() <= usize::MAX,
        pcb.fd_table@.len() <= usize::MAX,
        0 <= total_len(pcb.memset@) <= usize::MAX,
    ensures
        ({
            let r = task_report(task, pcb, size, align);
            let n = pcb.memset@.len();
            &&& r.task_id == task.task_id
            &&& r.process_id == task.process_id
            &&& r.size == size
            &&& r.align == align
            &&& r.areas == n
            &&& r.total_memory == total_len(pcb.memset@)
            &&& r.total_mb * 0x10_0000 <= r.total_memory
            &&& r.total_memory < (r.total_mb + 1) * 0x10_0000
            &&& r.fd_slots == pcb.fd_table@.len()
            &&& n <= 10 ==> r.listed == n
            &&& n > 10 ==> r.listed == 10
            &&& n <= 100 ==> r.counts is None
            &&& n > 100 ==> {
                &&& r.counts is Some
                &&& r.counts->0.too_much_code == (count_areas(pcb.memset@, MemType::CodeSection)
                    > 50)
                &&& r.counts->0.too_much_mmap == (count_areas(pcb.memset@, MemType::Mmap) > 400)
                &&& r.counts->0.stack == count_areas(pcb.memset@, MemType::Stack) as usize
                &&& r.counts->0.shared == count_areas(pcb.memset@, MemType::Shared) as usize
                &&& r.counts->0.code == count_areas(pcb.memset@, MemType::CodeSection) as usize
                &&& r.counts->0.mmap == count_areas(pcb.memset@, MemType::Mmap) as usize
                &&& r.counts->0.share_file == count_areas(pcb.memset@, MemType::ShareFile) as usize
            }
            &&& r.used_fds == count_files(pcb.fd_table@) as usize
        }),
        OUT_OF_MEMORY_CODE == 1,
{
}

} // verus!
