use monkeyos::memset::{MappingFlags, MemArea, MemType};
use monkeyos::signal::{trampoline_code, Arch, SignalStep};
use monkeyos::sigtypes::{
    SigAction, SigProcMask, SignalFlags, SignalList, SIGABRT, SIGCHLD, SIGCONT, SIGINT, SIGKILL,
    SIGTIMER, SIGURG, SIGUSR1, SIGUSR2,
};
use monkeyos::task::{ProcessControlBlock, TrapFrame, UserTask};
use monkeyos::user::UserTaskContainer;

const SIZE: usize = 0x200;

fn setup() -> (UserTaskContainer, ProcessControlBlock) {
    let cx = TrapFrame {
        sepc: 0x1_2345,
        ra: 1,
        sp: 0x7000_8000,
        ret: 2,
        arg0: 3,
        arg1: 4,
        arg2: 5,
        tls: 6,
        syscall: 7,
    };
    let (mut task, mut pcb) = UserTask::new(None, 1, 0, Vec::new(), vec![0; 8], cx);
    task.tcb.sigmask = SigProcMask { mask: 0x55 };
    for (mtype, start) in [(MemType::CodeSection, 0x1_0000), (MemType::Stack, 0x7000_0000)] {
        pcb.memset.areas.push(MemArea {
            mtype,
            mtrackers: Vec::new(),
            file: None,
            offset: 0,
            start,
            len: 0x1_0000,
        });
    }
    pcb.page_table.map_page(0x7000_7000, 0x9000, MappingFlags::URW);
    (UserTaskContainer { task, tid: 1 }, pcb)
}

fn action(handler: usize, restorer: usize) -> SigAction {
    SigAction { handler, flags: 0, restorer, mask: SigProcMask { mask: 0xaa } }
}

fn sig(number: usize) -> SignalFlags {
    SignalFlags { number }
}

#[test]
fn pending_signals() {
    let mut list = SignalList::new();
    assert!(!list.has_sig(sig(SIGINT)));
    list.add_signal(sig(SIGINT));
    list.add_signal(sig(SIGINT));
    assert!(list.has_sig(sig(SIGINT)));
    assert!(!list.has_sig(sig(64)));
    assert_eq!(SignalFlags::from_num(9).num(), 9);
}

#[test]
fn kill_cannot_be_caught() {
    let (mut c, mut pcb) = setup();
    pcb.sigaction[SIGKILL] = action(0x1_0000, 0x1_0100);
    let out = c.handle_signal(&pcb, sig(SIGKILL), SIZE, Arch::Other);
    assert_eq!(out.step, SignalStep::Exit { signal: SIGKILL });
    assert!(out.store.is_none());
    assert_eq!(c.task.tcb.sigmask, SigProcMask { mask: 0x55 });
}

#[test]
fn default_and_ignored_signals() {
    let (mut c, mut pcb) = setup();
    for n in [SIGINT, SIGABRT, SIGUSR1, SIGUSR2] {
        let out = c.handle_signal(&pcb, sig(n), SIZE, Arch::Other);
        assert_eq!(out.step, SignalStep::Exit { signal: n });
    }
    for n in [SIGCHLD, SIGCONT, SIGTIMER, SIGURG, 16, 64] {
        let out = c.handle_signal(&pcb, sig(n), SIZE, Arch::Other);
        assert_eq!(out.step, SignalStep::Ignore);
    }
    pcb.sigaction[SIGINT] = action(1, 0);
    let out = c.handle_signal(&pcb, sig(SIGINT), SIZE, Arch::Other);
    assert_eq!(out.step, SignalStep::Ignore);
}

#[test]
fn bad_handlers_end_the_thread() {
    let (mut c, mut pcb) = setup();
    for handler in [0xffff, 0x8000_0000_0000, 0x5_0000] {
        pcb.sigaction[SIGINT] = action(handler, 0x1_0100);
        assert_eq!(c.decide(&pcb, sig(SIGINT)), Some(SignalStep::Exit { signal: SIGINT }));
        let out = c.handle_signal(&pcb, sig(SIGINT), SIZE, Arch::Other);
        assert_eq!(out.step, SignalStep::Exit { signal: SIGINT });
    }
    assert_eq!(c.task.tcb.cx.sp, 0x7000_8000);
}

#[test]
fn handlers_for_child_and_timer_are_not_run() {
    let (mut c, mut pcb) = setup();
    for n in [SIGCHLD, SIGTIMER] {
        pcb.sigaction[n] = action(0x1_0000, 0x1_0100);
        let out = c.handle_signal(&pcb, sig(n), SIZE, Arch::Other);
        assert_eq!(out.step, SignalStep::Ignore);
    }
    assert_eq!(c.task.tcb.sigmask, SigProcMask { mask: 0x55 });
}

#[test]
fn handler_is_set_up_and_undone() {
    let (mut c, mut pcb) = setup();
    pcb.sigaction[SIGINT] = action(0x1_0000, 0x1_0100);
    let before = c.task.tcb.cx;
    assert_eq!(c.decide(&pcb, sig(SIGINT)), None);
    let out = c.handle_signal(&pcb, sig(SIGINT), SIZE, Arch::Other);
    let sp = (0x7000_8000 - 128 - SIZE) / 16 * 16;
    let store = out.store.unwrap();
    assert_eq!(store.sp, sp);
    assert_eq!(store.pc, 0x1_2345);
    assert_eq!(store.cx, before);
    assert_eq!(store.mask, SigProcMask { mask: 0xaa });
    let cx = c.task.tcb.cx;
    assert_eq!(cx.sepc, 0x1_0000);
    assert_eq!(cx.sp, sp);
    assert_eq!(cx.ra, 0x1_0100);
    assert_eq!((cx.arg0, cx.arg1, cx.arg2), (SIGINT, 0, sp));
    assert_eq!(cx.tls, 6);
    assert_eq!(c.task.tcb.sigmask, SigProcMask { mask: 0xaa });
    assert!(c.in_handler(&pcb));
    match out.step {
        SignalStep::RunHandler(frame) => {
            assert!(c.finish_signal(&pcb, frame, 0x1_2345));
            assert_eq!(c.task.tcb.cx, before);
            assert_eq!(c.task.tcb.sigmask, SigProcMask { mask: 0x55 });
            assert!(c.finish_signal(&pcb, frame, 0x1_5000));
            assert_eq!(c.task.tcb.cx.sepc, 0x1_5000);
            assert!(!c.finish_signal(&pcb, frame, 0x100));
            assert_eq!(c.task.tcb.cx, before);
            pcb.page_table = monkeyos::memset::PageTable::new();
            assert!(!c.finish_signal(&pcb, frame, 0x1_5000));
            assert_eq!(c.task.tcb.cx, before);
        }
        _ => panic!("no handler"),
    }
    pcb.exit_code = Some(0);
    assert!(!c.in_handler(&pcb));
}

#[test]
fn handler_without_stack_is_dropped() {
    let (mut c, mut pcb) = setup();
    pcb.sigaction[SIGINT] = action(0x1_0000, 0x1_0100);
    c.task.tcb.cx.sp = 0x7000_4000;
    let out = c.handle_signal(&pcb, sig(SIGINT), SIZE, Arch::Other);
    assert_eq!(out.step, SignalStep::Ignore);
    assert!(out.store.is_none());
    assert_eq!(c.task.tcb.sigmask, SigProcMask { mask: 0xaa });
    assert_eq!(c.task.tcb.cx.sepc, 0x1_2345);
    c.task.tcb.cx.sp = 0x6000_0000;
    let out = c.handle_signal(&pcb, sig(SIGINT), SIZE, Arch::Other);
    assert_eq!(out.step, SignalStep::Ignore);
}

#[test]
fn missing_way_back() {
    let (mut c, mut pcb) = setup();
    pcb.sigaction[SIGINT] = action(0x1_0000, 0);
    let out = c.handle_signal(&pcb, sig(SIGINT), SIZE, Arch::Other);
    assert_eq!(out.step, SignalStep::Exit { signal: SIGINT });
    assert!(out.store.is_some());

    let (mut c, mut pcb) = setup();
    pcb.sigaction[SIGURG] = action(0x1_0000, 0);
    let out = c.handle_signal(&pcb, sig(SIGURG), SIZE, Arch::Other);
    assert_eq!(out.step, SignalStep::Ignore);
    assert_eq!(c.task.tcb.cx.sepc, 0x1_0000);

    let (mut c, mut pcb) = setup();
    pcb.sigaction[SIGINT] = action(0x1_0000, 0x5_0000);
    let out = c.handle_signal(&pcb, sig(SIGINT), SIZE, Arch::Other);
    assert_eq!(out.step, SignalStep::Exit { signal: SIGINT });

    let (mut c, mut pcb) = setup();
    pcb.sigaction[SIGURG] = action(0x1_0000, 0x5_0000);
    let out = c.handle_signal(&pcb, sig(SIGURG), SIZE, Arch::Other);
    assert_eq!(out.step, SignalStep::Ignore);
}

#[test]
fn user_signals_return_to_where_they_came() {
    let (mut c, mut pcb) = setup();
    pcb.sigaction[SIGUSR1] = action(0x1_0000, 0);
    let out = c.handle_signal(&pcb, sig(SIGUSR1), SIZE, Arch::Other);
    match out.step {
        SignalStep::RunHandler(frame) => assert_eq!(frame.trampoline, None),
        _ => panic!("no handler"),
    }
    assert_eq!(c.task.tcb.cx.ra, 0x1_2345);
}

#[test]
fn trampoline_on_loongarch() {
    let (mut c, mut pcb) = setup();
    pcb.sigaction[SIGUSR2] = action(0x1_0000, 0);
    let out = c.handle_signal(&pcb, sig(SIGUSR2), SIZE, Arch::LoongArch64);
    let sp = (0x7000_8000 - 128 - SIZE) / 16 * 16;
    match out.step {
        SignalStep::RunHandler(frame) => {
            assert_eq!(frame.trampoline, Some(sp - 16));
            assert_eq!(frame.sp, sp);
        }
        _ => panic!("no handler"),
    }
    assert_eq!(c.task.tcb.cx.ra, sp - 16);
    assert_eq!(c.task.tcb.cx.sp, sp - 16);
    assert_eq!(c.task.tcb.cx.arg2, sp);
    assert_eq!(trampoline_code(), [0x0382_2c0b, 0x002b_0000, 0x4c00_0020, 0]);
}
