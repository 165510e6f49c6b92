//! Delivering signals to user programs.
use vstd::prelude::*;

use crate::memset::{AreaView, MemArea, MemSet, MemType, PageTable};
use crate::sigtypes::{
    SigAction, SigProcMask, SignalFlags, SIGABRT, SIGALRM, SIGBUS, SIGCANCEL, SIGCHLD, SIGFPE,
    SIGHUP, SIGILL, SIGINT, SIGIO, SIGKILL, SIGPIPE, SIGPROF, SIGQUIT, SIGSEGV, SIGTERM, SIGTIMER,
    SIGTRAP, SIGURG, SIGUSR1, SIGUSR2, SIGVTALRM, SIGWINCH, SIGXCPU, SIGXFSZ,
};
use crate::task::{ProcessControlBlock, ThreadControlBlock, TrapFrame, UserTask};
use crate::user::UserTaskContainer;

verus! {

/// Machines that differ in how a signal handler returns.
#[derive(Clone, Copy, Debug, PartialEq, Eq, Structural)]
pub enum Arch {
    LoongArch64,
    Other,
}

/// No user program has code below this address.
pub const USER_CODE_START: usize = 0x10000;

/// No user program has anything at or above this address.
pub const USER_END: u64 = 0x8000_0000_0000;

/// A signal frame may not lie further below the stack pointer than this.
pub const MAX_STACK_ALLOCATION: usize = 64 * 1024;

/// This much below the stack pointer is left alone.
pub const RED_ZONE: usize = 128;

/// The context that is to be stored on the user stack, for the handler to see and to change.
#[derive(Clone, Copy, Debug, PartialEq, Eq, Structural)]
pub struct ContextStore {
    pub sp: usize,
    pub cx: TrapFrame,
    pub pc: usize,
    pub mask: SigProcMask,
}

/// What is needed to come back from a signal handler.
#[derive(Clone, Copy, Debug, PartialEq, Eq, Structural)]
pub struct SignalFrame {
    /// The mask and the registers from before the signal.
    pub saved_mask: SigProcMask,
    pub saved_cx: TrapFrame,
    /// Where the context lies.
    pub sp: usize,
    /// Where the code that leaves the handler is to be stored, if the kernel has to provide it.
    pub trampoline: Option<usize>,
}

/// What becomes of a signal.
#[derive(Clone, Copy, Debug, PartialEq, Eq, Structural)]
pub enum SignalStep {
    /// The program goes on.
    Ignore,
    /// The thread ends because of the signal.
    Exit { signal: usize },
    /// The program runs the handler until it asks to leave it or ends; then `finish_signal` takes
    /// over.
    RunHandler(SignalFrame),
}

/// What has to be done about a signal: the context to be stored first, if any, and then the step.
#[derive(Clone, Copy, Debug, PartialEq, Eq, Structural)]
pub struct SignalOutcome {
    pub store: Option<ContextStore>,
    pub step: SignalStep,
}

/// The signals, apart from the two for users, whose default is to end the process.
pub open spec fn is_deadly(signal: usize) -> bool {
    ||| signal == SIGCANCEL
    ||| signal == SIGSEGV
    ||| signal == SIGILL
    ||| signal == SIGABRT
    ||| signal == SIGQUIT
    ||| signal == SIGTERM
    ||| signal == SIGHUP
    ||| signal == SIGINT
    ||| signal == SIGPIPE
    ||| signal == SIGALRM
    ||| signal == SIGFPE
    ||| signal == SIGBUS
    ||| signal == SIGTRAP
    ||| signal == SIGXCPU
    ||| signal == SIGXFSZ
    ||| signal == SIGVTALRM
    ||| signal == SIGPROF
}

/// The two signals that users send each other.
pub open spec fn is_user_signal(signal: usize) -> bool {
    signal == SIGUSR1 || signal == SIGUSR2
}

/// The signals that are dropped where a handler has no way back.
pub open spec fn is_harmless(signal: usize) -> bool {
    signal == SIGCHLD || signal == SIGURG || signal == SIGWINCH || signal == SIGIO
}

/// The address can be that of user code.
pub open spec fn is_user_code(addr: usize) -> bool {
    USER_CODE_START <= addr && addr < USER_END
}

/// The address lies in an area that may hold code.
pub open spec fn executable_at(areas: Seq<AreaView>, addr: usize) -> bool {
    exists|i: int|
        {
            &&& 0 <= i < areas.len()
            &&& (#[trigger] areas[i]).holds(addr as int)
            &&& areas[i].mtype == MemType::Mmap || areas[i].mtype == MemType::Stack
                || areas[i].mtype == MemType::CodeSection
        }
}

/// A context of the size fits at the address, in an area that may hold a stack.
pub open spec fn stack_at(areas: Seq<AreaView>, sp: int, size: int) -> bool {
    exists|i: int|
        {
            &&& 0 <= i < areas.len()
            &&& (#[trigger] areas[i]).holds(sp)
            &&& areas[i].holds(sp + size)
            &&& areas[i].mtype == MemType::Stack || areas[i].mtype == MemType::Mmap
        }
}

/// Where the context goes: below the stack pointer and what is left alone there, at a multiple of
/// sixteen.
pub open spec fn context_sp(sp: int, size: int) -> int {
    (sp - RED_ZONE - size) / 16 * 16
}

/// The context can be stored there.
pub open spec fn context_fits(
    areas: Seq<AreaView>,
    table: PageTable,
    current_sp: int,
    size: int,
) -> bool {
    let sp = context_sp(current_sp, size);
    &&& sp < current_sp
    &&& current_sp - sp <= MAX_STACK_ALLOCATION
    &&& 0x1000 <= sp < USER_END
    &&& stack_at(areas, sp, size)
    &&& table.translation(sp as usize) is Some
}

/// What is decided before a handler is set up: none where the signal goes to the handler.
pub open spec fn decided(areas: Seq<AreaView>, action: SigAction, signal: usize) -> Option<SignalStep> {
    if signal == SIGKILL {
        Some(SignalStep::Exit { signal })
    } else if action.handler == 0 {
        if is_deadly(signal) || is_user_signal(signal) {
            Some(SignalStep::Exit { signal })
        } else {
            Some(SignalStep::Ignore)
        }
    } else if action.handler == 1 {
        Some(SignalStep::Ignore)
    } else if !is_user_code(action.handler) || !executable_at(areas, action.handler) {
        Some(SignalStep::Exit { signal })
    } else if signal == SIGTIMER || signal == SIGCHLD {
        Some(SignalStep::Ignore)
    } else {
        None
    }
}

/// What is decided about the way back from the handler: none where the handler runs.
pub open spec fn way_back(areas: Seq<AreaView>, action: SigAction, signal: usize) -> Option<SignalStep> {
    if is_user_signal(signal) {
        None
    } else if action.restorer == 0 {
        if is_harmless(signal) {
            Some(SignalStep::Ignore)
        } else {
            Some(SignalStep::Exit { signal })
        }
    } else if executable_at(areas, action.restorer) {
        None
    } else if is_deadly(signal) {
        Some(SignalStep::Exit { signal })
    } else {
        Some(SignalStep::Ignore)
    }
}

/// Where the code that leaves the handler is to be stored: only on a machine whose C library brings
/// none, below the context, if that page is there.
pub open spec fn trampoline_place(
    table: PageTable,
    action: SigAction,
    arch: Arch,
    sp: int,
) -> Option<usize> {
    if action.restorer == 0 && arch == Arch::LoongArch64 && table.translation(
        (sp - 16) as usize,
    ) is Some {
        Some((sp - 16) as usize)
    } else {
        None
    }
}

/// The registers with which the handler runs.
pub open spec fn handler_cx(
    cx: TrapFrame,
    action: SigAction,
    signal: usize,
    sp: usize,
    trampoline: Option<usize>,
) -> TrapFrame {
    TrapFrame {
        sepc: action.handler,
        sp: match trampoline {
            Some(t) => t,
            None => sp,
        },
        ra: if action.restorer != 0 {
            action.restorer
        } else {
            match trampoline {
                Some(t) => t,
                None => cx.sepc,
            }
        },
        arg0: signal,
        arg1: 0,
        arg2: sp,
        ..cx
    }
}

/// What a thread's mask and registers are after a signal, and what has to be done.
pub struct SignalPlan {
    pub mask: SigProcMask,
    pub cx: TrapFrame,
    pub outcome: SignalOutcome,
}

/// What becomes of a signal, given the thread's mask and registers.
pub open spec fn signal_plan(
    mask: SigProcMask,
    cx: TrapFrame,
    areas: Seq<AreaView>,
    table: PageTable,
    action: SigAction,
    signal: usize,
    size: usize,
    arch: Arch,
) -> SignalPlan {
    let sp = context_sp(cx.sp as int, size as int) as usize;
    let trampoline = trampoline_place(table, action, arch, sp as int);
    let store = ContextStore { sp, cx, pc: cx.sepc, mask: action.mask };
    match decided(areas, action, signal) {
        Some(step) => SignalPlan { mask, cx, outcome: SignalOutcome { store: None, step } },
        None => if !context_fits(areas, table, cx.sp as int, size as int) {
            SignalPlan {
                mask: action.mask,
                cx,
                outcome: SignalOutcome { store: None, step: SignalStep::Ignore },
            }
        } else {
            match way_back(areas, action, signal) {
                Some(step) => SignalPlan {
                    mask: action.mask,
                    cx: TrapFrame { sp, sepc: action.handler, ..cx },
                    outcome: SignalOutcome { store: Some(store), step },
                },
                None => SignalPlan {
                    mask: action.mask,
                    cx: handler_cx(cx, action, signal, sp, trampoline),
                    outcome: SignalOutcome {
                        store: Some(store),
                        step: SignalStep::RunHandler(
                            SignalFrame { saved_mask: mask, saved_cx: cx, sp, trampoline },
                        ),
                    },
                },
            }
        },
    }
}

fn deadly(signal: usize) -> (r: bool)
    ensures
        r == is_deadly(signal),
{
    match signal {
        SIGCANCEL => true,
        SIGSEGV => true,
        SIGILL => true,
        SIGABRT => true,
        SIGQUIT => true,
        SIGTERM => true,
        SIGHUP => true,
        SIGINT => true,
        SIGPIPE => true,
        SIGALRM => true,
        SIGFPE => true,
        SIGBUS => true,
        SIGTRAP => true,
        SIGXCPU => true,
        SIGXFSZ => true,
        SIGVTALRM => true,
        SIGPROF => true,
        _ => false,
    }
}

fn executable(memset: &MemSet, addr: usize) -> (r: bool)
    ensures
        r == executable_at(memset@, addr),
{
    let mut i: usize = 0;
    while i < memset.areas.len()
        invariant
            i <= memset.areas@.len(),
            forall|j: int|
                0 <= j < i ==> !((#[trigger] memset@[j]).holds(addr as int) && (memset@[j].mtype
                    == MemType::Mmap || memset@[j].mtype == MemType::Stack || memset@[j].mtype
                    == MemType::CodeSection)),
        decreases memset.areas@.len() - i,
    {
        let area: &MemArea = &memset.areas[i];
        assert(memset@[i as int] == area@);
        if area.contains(addr) && matches!(
            area.mtype,
            MemType::Mmap | MemType::Stack | MemType::CodeSection
        ) {
            return true;
        }
        i = i + 1;
    }
    false
}

fn stack_holds(memset: &MemSet, sp: usize, size: usize) -> (r: bool)
    requires
        sp + size <= usize::MAX,
    ensures
        r == stack_at(memset@, sp as int, size as int),
{
    let mut i: usize = 0;
    while i < memset.areas.len()
        invariant
            i <= memset.areas@.len(),
            sp + size <= usize::MAX,
            forall|j: int|
                0 <= j < i ==> !((#[trigger] memset@[j]).holds(sp as int) && memset@[j].holds(
                    sp + size,
                ) && (memset@[j].mtype == MemType::Stack || memset@[j].mtype == MemType::Mmap)),
        decreases memset.areas@.len() - i,
    {
        let area: &MemArea = &memset.areas[i];
        assert(memset@[i as int] == area@);
        if area.contains(sp) && area.contains(sp + size) && matches!(
            area.mtype,
            MemType::Stack | MemType::Mmap
        ) {
            return true;
        }
        i = i + 1;
    }
    false
}

/// The code that leaves a signal handler on LoongArch: it loads the number of the system call into
/// the register for it, makes the call, and returns.
pub fn trampoline_code() -> (r: [u32; 4])
    ensures
        r@ == seq![0x0382_2c0bu32, 0x002b_0000u32, 0x4c00_0020u32, 0u32],
{
    let load: u32 = 0x0380_000bu32 | ((139u32 & 0xfffu32) << 10u32);
    assert(0x0380_000bu32 | ((139u32 & 0xfffu32) << 10u32) == 0x0382_2c0bu32) by (bit_vector);
    let code: [u32; 4] = [load, 0x002b_0000, 0x4c00_0020, 0];
    assert(code@ =~= seq![0x0382_2c0bu32, 0x002b_0000u32, 0x4c00_0020u32, 0u32]);
    code
}

impl UserTaskContainer {
    /// What is decided about a signal before a handler is set up; nothing where it goes to the
    /// handler.
    pub fn decide(&self, pcb: &ProcessControlBlock, signal: SignalFlags) -> (r: Option<SignalStep>)
        requires
            signal.valid(),
            pcb.sigaction@.len() == 65,
        ensures
            r == decided(pcb.memset@, pcb.sigaction@[signal.number as int], signal.number),
    {
        let number: usize = signal.num();
        if number == SIGKILL {
            return Some(SignalStep::Exit { signal: number });
        }
        let action: SigAction = pcb.sigaction[number];
        if action.handler == 0 {
            if deadly(number) || number == SIGUSR1 || number == SIGUSR2 {
                return Some(SignalStep::Exit { signal: number });
            }
            return Some(SignalStep::Ignore);
        }
        if action.handler == 1 {
            return Some(SignalStep::Ignore);
        }
        if action.handler < USER_CODE_START || action.handler as u64 >= USER_END {
            return Some(SignalStep::Exit { signal: number });
        }
        if !executable(&pcb.memset, action.handler) {
            return Some(SignalStep::Exit { signal: number });
        }
        if number == SIGTIMER || number == SIGCHLD {
            return Some(SignalStep::Ignore);
        }
        None
    }

    /// Begins to handle a signal: kills the program, drops the signal, or sets up the handler. A
    /// context takes `size` bytes.
    pub fn handle_signal(
        &mut self,
        pcb: &ProcessControlBlock,
        signal: SignalFlags,
        size: usize,
        arch: Arch,
    ) -> (r: SignalOutcome)
        requires
            signal.valid(),
            pcb.sigaction@.len() == 65,
            decided(
                pcb.memset@,
                pcb.sigaction@[signal.number as int],
                signal.number,
            ) is None ==> old(self).task.tcb.cx.sp >= RED_ZONE + size,
        ensures
            ({
                let tcb = old(self).task.tcb;
                let plan = signal_plan(
                    tcb.sigmask,
                    tcb.cx,
                    pcb.memset@,
                    pcb.page_table,
                    pcb.sigaction@[signal.number as int],
                    signal.number,
                    size,
                    arch,
                );
                &&& r == plan.outcome
                &&& *final(self) == (UserTaskContainer {
                    task: UserTask {
                        tcb: ThreadControlBlock { sigmask: plan.mask, cx: plan.cx, ..tcb },
                        ..old(self).task
                    },
                    ..*old(self)
                })
            }),
    {
        if let Some(step) = self.decide(pcb, signal) {
            return SignalOutcome { store: None, step };
        }
        let number: usize = signal.num();
        let action: SigAction = pcb.sigaction[number];
        let user_signal: bool = number == SIGUSR1 || number == SIGUSR2;
        let saved_mask: SigProcMask = self.task.tcb.sigmask;
        let saved_cx: TrapFrame = self.task.tcb.cx;
        self.task.tcb.sigmask = action.mask;
        let current_sp: usize = saved_cx.sp;
        let sp: usize = (current_sp - RED_ZONE - size) / 16 * 16;
        if sp >= current_sp || current_sp - sp > MAX_STACK_ALLOCATION {
            return SignalOutcome { store: None, step: SignalStep::Ignore };
        }
        if sp < 0x1000 || sp as u64 >= USER_END {
            return SignalOutcome { store: None, step: SignalStep::Ignore };
        }
        if !stack_holds(&pcb.memset, sp, size) {
            return SignalOutcome { store: None, step: SignalStep::Ignore };
        }
        if !pcb.page_table.is_mapped(sp) {
            return SignalOutcome { store: None, step: SignalStep::Ignore };
        }
        let store: Option<ContextStore> = Some(
            ContextStore { sp, cx: saved_cx, pc: saved_cx.sepc, mask: action.mask },
        );
        self.task.tcb.cx.sp = sp;
        self.task.tcb.cx.sepc = action.handler;
        if !user_signal {
            if action.restorer == 0 {
                if number == SIGCHLD || number == SIGURG || number == SIGWINCH || number == SIGIO {
                    return SignalOutcome { store, step: SignalStep::Ignore };
                }
                return SignalOutcome { store, step: SignalStep::Exit { signal: number } };
            }
            if !executable(&pcb.memset, action.restorer) {
                if deadly(number) {
                    return SignalOutcome { store, step: SignalStep::Exit { signal: number } };
                }
                return SignalOutcome { store, step: SignalStep::Ignore };
            }
        }
        let mut trampoline: Option<usize> = None;
        if action.restorer != 0 {
            self.task.tcb.cx.ra = action.restorer;
        } else {
            self.task.tcb.cx.ra = saved_cx.sepc;
            if arch == Arch::LoongArch64 {
                let tramp_sp: usize = (sp - 16) & !0xfusize;
                assert((sp - 16) as usize & !0xfusize == sp - 16) by (bit_vector)
                    requires
                        sp % 16 == 0,
                        sp >= 16,
                ;
                if pcb.page_table.is_mapped(tramp_sp) {
                    trampoline = Some(tramp_sp);
                    self.task.tcb.cx.ra = tramp_sp;
                    self.task.tcb.cx.sp = tramp_sp;
                }
            }
        }
        self.task.tcb.cx.arg0 = number;
        self.task.tcb.cx.arg1 = 0;
        self.task.tcb.cx.arg2 = sp;
        SignalOutcome {
            store,
            step: SignalStep::RunHandler(SignalFrame { saved_mask, saved_cx, sp, trampoline }),
        }
    }

    /// Comes back from a signal handler. The mask and the registers are those from before the
    /// signal; but where the context is still there and its program counter, `context_pc`, can be
    /// one of user code, the program goes on from there, and the answer is that the other registers
    /// are to be taken from the context too.
    pub fn finish_signal(
        &mut self,
        pcb: &ProcessControlBlock,
        frame: SignalFrame,
        context_pc: usize,
    ) -> (r: bool)
        ensures
            r == (pcb.page_table.translation(frame.sp) is Some && is_user_code(context_pc)),
            *final(self) == (UserTaskContainer {
                task: UserTask {
                    tcb: ThreadControlBlock {
                        sigmask: frame.saved_mask,
                        cx: TrapFrame {
                            sepc: if r {
                                context_pc
                            } else {
                                frame.saved_cx.sepc
                            },
                            ..frame.saved_cx
                        },
                        ..old(self).task.tcb
                    },
                    ..old(self).task
                },
                ..*old(self)
            }),
    {
        self.task.tcb.sigmask = frame.saved_mask;
        self.task.tcb.cx = frame.saved_cx;
        if !pcb.page_table.is_mapped(frame.sp) {
            return false;
        }
        if context_pc < USER_CODE_START || context_pc as u64 >= USER_END {
            return false;
        }
        self.task.tcb.cx.sepc = context_pc;
        true
    }

    /// Whether the program is still to run in the handler: not when the process has ended.
    pub fn in_handler(&self, pcb: &ProcessControlBlock) -> (r: bool)
        ensures
            r == pcb.exit_code is None,
    {
        pcb.exit_code.is_none()
    }
}

/// The kill signal ends the thread whatever the process has asked for: it can be neither caught nor
/// ignored.
pub proof fn law_kill_cannot_be_caught(
    mask: SigProcMask,
    cx: TrapFrame,
    areas: Seq<AreaView>,
    table: PageTable,
    action: SigAction,
    size: usize,
    arch: Arch,
)
    ensures
        signal_plan(mask, cx, areas, table, action, SIGKILL, size, arch).outcome == (SignalOutcome {
            store: None,
            step: SignalStep::Exit { signal: SIGKILL },
        }),
{
}

/// A handler only ever runs in memory that may hold code, with its context inside a stack below the
/// old stack pointer, at a multiple of sixteen.
pub proof fn law_handler_runs_in_its_place(
    mask: SigProcMask,
    cx: TrapFrame,
    areas: Seq<AreaView>,
    table: PageTable,
    action: SigAction,
    signal: usize,
    size: usize,
    arch: Arch,
)
    requires
        cx.sp >= RED_ZONE + size,
        signal_plan(mask, cx, areas, table, action, signal, size, arch).outcome.step is RunHandler,
    ensures
        ({
            let plan = signal_plan(mask, cx, areas, table, action, signal, size, arch);
            let frame = plan.outcome.step->RunHandler_0;
            &&& plan.cx.sepc == action.handler
            &&& is_user_code(action.handler)
            &&& executable_at(areas, action.handler)
            &&& frame.sp % 16 == 0
            &&& frame.sp + size + RED_ZONE <= cx.sp
            &&& stack_at(areas, frame.sp as int, size as int)
            &&& plan.cx.arg0 == signal
            &&& plan.cx.arg2 == frame.sp
            &&& plan.mask == action.mask
        }),
{
}

/// When a handler that did not touch its context has come back, mask and registers are those from
/// before the signal.
pub proof fn law_signal_is_undone(
    mask: SigProcMask,
    cx: TrapFrame,
    areas: Seq<AreaView>,
    table: PageTable,
    action: SigAction,
    signal: usize,
    size: usize,
    arch: Arch,
    resumed: bool,
)
    requires
        signal_plan(mask, cx, areas, table, action, signal, size, arch).outcome.step is RunHandler,
    ensures
        ({
            let plan = signal_plan(mask, cx, areas, table, action, signal, size, arch);
            let frame = plan.outcome.step->RunHandler_0;
            let pc = plan.outcome.store->0.pc;
            &&& frame.saved_mask == mask
            &&& (TrapFrame {
                sepc: if resumed {
                    pc
                } else {
                    frame.saved_cx.sepc
                },
                ..frame.saved_cx
            }) == cx
        }),
{
}

/// A signal with the default action either ends the thread or leaves it as it was.
pub proof fn law_default_actions(
    mask: SigProcMask,
    cx: TrapFrame,
    areas: Seq<AreaView>,
    table: PageTable,
    action: SigAction,
    signal: usize,
    size: usize,
    arch: Arch,
)
    requires
        action.handler == 0,
    ensures
        ({
            let plan = signal_plan(mask, cx, areas, table, action, signal, size, arch);
            &&& plan.mask == mask
            &&& plan.cx == cx
            &&& plan.outcome.store is None
            &&& plan.outcome.step == (if is_deadly(signal) || is_user_signal(signal) || signal
                == SIGKILL {
                SignalStep::Exit { signal }
            } else {
                SignalStep::Ignore
            })
        }),
{
}

/// Without a handler, the signals that end a process do so, whatever it was doing: SIGKILL above all,
/// those for errors of the program, for requests to end, for time limits, and the two that users send
/// each other. Every other signal is dropped. Mask and registers stay as they are.
pub proof fn law_signals_without_a_handler(
    mask: SigProcMask,
    cx: TrapFrame,
    areas: Seq<AreaView>,
    table: PageTable,
    action: SigAction,
    signal: usize,
    size: usize,
    arch: Arch,
)
    requires
        action.handler == 0,
    ensures
        ({
            let plan = signal_plan(mask, cx, areas, table, action, signal, size, arch);
            let ends = signal == SIGKILL || signal == SIGSEGV || signal == SIGILL || signal
                == SIGABRT || signal == SIGQUIT || signal == SIGTERM || signal == SIGHUP || signal
                == SIGINT || signal == SIGPIPE || signal == SIGALRM || signal == SIGFPE || signal
                == SIGBUS || signal == SIGTRAP || signal == SIGXCPU || signal == SIGXFSZ || signal
                == SIGVTALRM || signal == SIGPROF || signal == SIGCANCEL || signal == SIGUSR1
                || signal == SIGUSR2;
            &&& ends ==> plan.outcome.step == (SignalStep::Exit { signal })
            &&& !ends ==> plan.outcome.step == SignalStep::Ignore
            &&& plan.outcome.store is None
            &&& plan.mask == mask
            &&& plan.cx == cx
        }),
{
}

/// A signal that is to be ignored is dropped, unless it is the kill signal.
pub proof fn law_ignored_signals(
    mask: SigProcMask,
    cx: TrapFrame,
    areas: Seq<AreaView>,
    table: PageTable,
    action: SigAction,
    signal: usize,
    size: usize,
    arch: Arch,
)
    requires
        action.handler == 1,
        signal != SIGKILL,
    ensures
        ({
            let plan = signal_plan(mask, cx, areas, table, action, signal, size, arch);
            &&& plan.outcome.step == SignalStep::Ignore
            &&& plan.outcome.store is None
            &&& plan.mask == mask
            &&& plan.cx == cx
        }),
{
}

/// A handler that lies where no user code can lie, or in no area that may hold code, ends the thread.
/// Code may lie in mapped memory, on the stack and in code areas.
pub proof fn law_bad_handlers_end_the_thread(
    mask: SigProcMask,
    cx: TrapFrame,
    areas: Seq<AreaView>,
    table: PageTable,
    action: SigAction,
    signal: usize,
    size: usize,
    arch: Arch,
)
    requires
        action.handler > 1,
        action.handler < 0x1_0000 || action.handler >= 0x8000_0000_0000 || forall|i: int|
            0 <= i < areas.len() && (#[trigger] areas[i]).start <= action.handler && action.handler
                < areas[i].start + areas[i].len ==> areas[i].mtype == MemType::Shared
                || areas[i].mtype == MemType::ShareFile,
    ensures
        ({
            let plan = signal_plan(mask, cx, areas, table, action, signal, size, arch);
            &&& plan.outcome.step == (SignalStep::Exit { signal })
            &&& plan.outcome.store is None
            &&& plan.mask == mask
            &&& plan.cx == cx
        }),
{
    if executable_at(areas, action.handler) {
        let i = choose|i: int|
            {
                &&& 0 <= i < areas.len()
                &&& (#[trigger] areas[i]).holds(action.handler as int)
                &&& areas[i].mtype == MemType::Mmap || areas[i].mtype == MemType::Stack
                    || areas[i].mtype == MemType::CodeSection
            };
        assert(areas[i].start <= action.handler);
    }
}

/// The handler, its frame on the stack and its way back are all in place: its code lies in an area
/// that may hold code, its frame in one that may hold a stack, and the page of the frame is there.
pub open spec fn handler_is_possible(
    areas: Seq<AreaView>,
    table: PageTable,
    cx: TrapFrame,
    action: SigAction,
    size: usize,
    sp: int,
    h: int,
    s: int,
) -> bool {
    &&& 0x1_0000 <= action.handler < 0x8000_0000_0000
    &&& 0 <= h < areas.len()
    &&& areas[h].start <= action.handler < areas[h].start + areas[h].len
    &&& areas[h].mtype == MemType::Mmap || areas[h].mtype == MemType::Stack || areas[h].mtype
        == MemType::CodeSection
    &&& sp % 16 == 0
    &&& sp + size + 128 <= cx.sp < sp + size + 128 + 16
    &&& cx.sp - sp <= 64 * 1024
    &&& 0x1000 <= sp < 0x8000_0000_0000
    &&& 0 <= s < areas.len()
    &&& areas[s].start <= sp
    &&& sp + size < areas[s].start + areas[s].len
    &&& areas[s].mtype == MemType::Stack || areas[s].mtype == MemType::Mmap
    &&& table.translation(sp as usize) is Some
}

proof fn lemma_possible(
    areas: Seq<AreaView>,
    table: PageTable,
    cx: TrapFrame,
    action: SigAction,
    signal: usize,
    size: usize,
    sp: int,
    h: int,
    s: int,
)
    requires
        handler_is_possible(areas, table, cx, action, size, sp, h, s),
        signal != SIGKILL && signal != SIGCHLD && signal != SIGTIMER,
    ensures
        decided(areas, action, signal) is None,
        context_fits(areas, table, cx.sp as int, size as int),
        context_sp(cx.sp as int, size as int) == sp,
{
    assert(areas[h].holds(action.handler as int));
    assert(areas[s].holds(sp));
    assert(areas[s].holds(sp + size));
}

/// A handler runs where it can: with the signal as its first argument and the stored context as its
/// third, on the stack below the context, with the mask that it asked for, and with all other
/// registers as they were. It returns to the code that the program named for that. The context holds
/// the registers of the program and where it was.
pub proof fn law_handler_runs(
    mask: SigProcMask,
    cx: TrapFrame,
    areas: Seq<AreaView>,
    table: PageTable,
    action: SigAction,
    signal: usize,
    size: usize,
    arch: Arch,
    sp: int,
    h: int,
    s: int,
    b: int,
)
    requires
        handler_is_possible(areas, table, cx, action, size, sp, h, s),
        signal != SIGKILL && signal != SIGCHLD && signal != SIGTIMER,
        action.restorer != 0,
        0 <= b < areas.len(),
        areas[b].start <= action.restorer < areas[b].start + areas[b].len,
        areas[b].mtype == MemType::Mmap || areas[b].mtype == MemType::Stack || areas[b].mtype
            == MemType::CodeSection,
    ensures
        ({
            let plan = signal_plan(mask, cx, areas, table, action, signal, size, arch);
            &&& plan.outcome.step is RunHandler
            &&& plan.outcome.step->RunHandler_0.saved_mask == mask
            &&& plan.outcome.step->RunHandler_0.saved_cx == cx
            &&& plan.outcome.step->RunHandler_0.sp == sp
            &&& plan.outcome.step->RunHandler_0.trampoline is None
            &&& plan.outcome.store is Some
            &&& plan.outcome.store->0.sp == sp
            &&& plan.outcome.store->0.cx == cx
            &&& plan.outcome.store->0.pc == cx.sepc
            &&& plan.outcome.store->0.mask == action.mask
            &&& plan.mask == action.mask
            &&& plan.cx.sepc == action.handler
            &&& plan.cx.sp == sp
            &&& plan.cx.ra == action.restorer
            &&& plan.cx.arg0 == signal
            &&& plan.cx.arg1 == 0
            &&& plan.cx.arg2 == sp
            &&& plan.cx.tls == cx.tls
            &&& plan.cx.ret == cx.ret
            &&& plan.cx.syscall == cx.syscall
        }),
{
    lemma_possible(areas, table, cx, action, signal, size, sp, h, s);
    assert(areas[b].holds(action.restorer as int));
}

/// Where a handler has no way back, only the two signals of users run it; then it returns to where
/// the program was, or, on the machine whose C library brings no code for it, to code that the kernel
/// stores below the context. SIGURG, SIGWINCH and SIGIO are dropped, and any other signal ends the
/// thread.
pub proof fn law_handlers_without_a_way_back(
    mask: SigProcMask,
    cx: TrapFrame,
    areas: Seq<AreaView>,
    table: PageTable,
    action: SigAction,
    signal: usize,
    size: usize,
    arch: Arch,
    sp: int,
    h: int,
    s: int,
)
    requires
        handler_is_possible(areas, table, cx, action, size, sp, h, s),
        signal != SIGKILL && signal != SIGCHLD && signal != SIGTIMER,
        action.restorer == 0,
    ensures
        ({
            let plan = signal_plan(mask, cx, areas, table, action, signal, size, arch);
            let user = signal == SIGUSR1 || signal == SIGUSR2;
            let stored = arch == Arch::LoongArch64 && table.translation((sp - 16) as usize) is Some;
            &&& plan.mask == action.mask
            &&& user ==> plan.outcome.step is RunHandler
            &&& user && !stored ==> plan.cx.ra == cx.sepc && plan.cx.sp == sp
                && plan.outcome.step->RunHandler_0.trampoline is None
            &&& user && stored ==> plan.cx.ra == sp - 16 && plan.cx.sp == sp - 16
                && plan.outcome.step->RunHandler_0.trampoline == Some((sp - 16) as usize)
            &&& user ==> plan.cx.sepc == action.handler && plan.cx.arg0 == signal && plan.cx.arg2
                == sp
            &&& signal == SIGURG || signal == SIGWINCH || signal == SIGIO ==> plan.outcome.step
                == SignalStep::Ignore
            &&& !user && signal != SIGURG && signal != SIGWINCH && signal != SIGIO
                ==> plan.outcome.step == (SignalStep::Exit { signal })
        }),
{
    lemma_possible(areas, table, cx, action, signal, size, sp, h, s);
}

/// Where the way back lies in no area that may hold code, the two signals of users run the handler
/// all the same; any other signal does what it does without a handler.
pub proof fn law_handlers_with_a_bad_way_back(
    mask: SigProcMask,
    cx: TrapFrame,
    areas: Seq<AreaView>,
    table: PageTable,
    action: SigAction,
    signal: usize,
    size: usize,
    arch: Arch,
    sp: int,
    h: int,
    s: int,
)
    requires
        handler_is_possible(areas, table, cx, action, size, sp, h, s),
        signal != SIGKILL && signal != SIGCHLD && signal != SIGTIMER,
        action.restorer != 0,
        forall|i: int|
            0 <= i < areas.len() && (#[trigger] areas[i]).start <= action.restorer
                && action.restorer < areas[i].start + areas[i].len ==> areas[i].mtype
                == MemType::Shared || areas[i].mtype == MemType::ShareFile,
    ensures
        ({
            let plan = signal_plan(mask, cx, areas, table, action, signal, size, arch);
            let default_plan = signal_plan(
                mask,
                cx,
                areas,
                table,
                SigAction { handler: 0, ..action },
                signal,
                size,
                arch,
            );
            let user = signal == SIGUSR1 || signal == SIGUSR2;
            &&& user ==> plan.outcome.step is RunHandler && plan.cx.ra == action.restorer
            &&& !user ==> plan.outcome.step == default_plan.outcome.step
            &&& plan.mask == action.mask
        }),
{
    lemma_possible(areas, table, cx, action, signal, size, sp, h, s);
    if executable_at(areas, action.restorer) {
        let i = choose|i: int|
            {
                &&& 0 <= i < areas.len()
                &&& (#[trigger] areas[i]).holds(action.restorer as int)
                &&& areas[i].mtype == MemType::Mmap || areas[i].mtype == MemType::Stack
                    || areas[i].mtype == MemType::CodeSection
            };
        assert(areas[i].start <= action.restorer);
    }
}

/// A handler for SIGCHLD or SIGTIMER is never run: the signal is dropped.
pub proof fn law_child_and_timer_handlers_do_not_run(
    mask: SigProcMask,
    cx: TrapFrame,
    areas: Seq<AreaView>,
    table: PageTable,
    action: SigAction,
    signal: usize,
    size: usize,
    arch: Arch,
    h: int,
)
    requires
        signal == SIGCHLD || signal == SIGTIMER,
        0x1_0000 <= action.handler < 0x8000_0000_0000,
        0 <= h < areas.len(),
        areas[h].start <= action.handler < areas[h].start + areas[h].len,
        areas[h].mtype == MemType::Mmap || areas[h].mtype == MemType::Stack || areas[h].mtype
            == MemType::CodeSection,
    ensures
        signal_plan(mask, cx, areas, table, action, signal, size, arch).outcome.step
            == SignalStep::Ignore,
        signal_plan(mask, cx, areas, table, action, signal, size, arch).mask == mask,
{
    assert(areas[h].holds(action.handler as int));
}

/// Where there is no place for the context, the handler does not run and the registers stay; only the
/// mask is the one that the handler asked for. There is no place outside all stacks and mapped areas,
/// nor where the page is not there.
pub proof fn law_no_place_for_the_context(
    mask: SigProcMask,
    cx: TrapFrame,
    areas: Seq<AreaView>,
    table: PageTable,
    action: SigAction,
    signal: usize,
    size: usize,
    arch: Arch,
    sp: int,
)
    requires
        decided(areas, action, signal) is None,
        cx.sp >= 128 + size,
        sp % 16 == 0,
        sp + size + 128 <= cx.sp < sp + size + 128 + 16,
        cx.sp - sp > 64 * 1024 || sp < 0x1000 || sp >= 0x8000_0000_0000 || table.translation(
            sp as usize,
        ) is None || forall|i: int|
            0 <= i < areas.len() && (#[trigger] areas[i]).start <= sp && sp + size < areas[i].start
                + areas[i].len ==> areas[i].mtype != MemType::Stack && areas[i].mtype
                != MemType::Mmap,
    ensures
        ({
            let plan = signal_plan(mask, cx, areas, table, action, signal, size, arch);
            &&& plan.outcome.step == SignalStep::Ignore
            &&& plan.outcome.store is None
            &&& plan.cx == cx
            &&& plan.mask == action.mask
        }),
{
    assert(context_sp(cx.sp as int, size as int) == sp);
    if stack_at(areas, sp, size as int) {
        let i = choose|i: int|
            {
                &&& 0 <= i < areas.len()
                &&& (#[trigger] areas[i]).holds(sp)
                &&& areas[i].holds(sp + size)
                &&& areas[i].mtype == MemType::Stack || areas[i].mtype == MemType::Mmap
            };
        assert(areas[i].start <= sp);
    }
}

} // verus!
