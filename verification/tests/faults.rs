use std::sync::Arc;

use monkeyos::errno::Errno;
use monkeyos::memset::{FrameTracker, MapTrack, MappingFlags, MemArea, MemType, PageEntry};
use monkeyos::sigtypes::{SignalFlags, SIGILL, SIGSEGV};
use monkeyos::task::{ProcessControlBlock, TrapFrame, UserTask};
use monkeyos::user::{
    blank_page, code_fault, code_page, copy_page, cow_fault, file_read, file_sized, fresh_page,
    heap_page, region, stack_page, task_ilegal, tls_page, user_cow_int, EscapeReason, FaultStep,
    FilePlace, Region, SyscallStep, TlsGuard, UserTaskContainer, UserTaskControlFlow,
};

fn zero_frame() -> TrapFrame {
    TrapFrame {
        sepc: 0,
        ra: 0,
        sp: 0,
        ret: 0,
        arg0: 0,
        arg1: 0,
        arg2: 0,
        tls: 0,
        syscall: 0,
    }
}

fn process() -> (UserTask, ProcessControlBlock) {
    UserTask::new(None, 1, 0, Vec::new(), vec![0; 8], zero_frame())
}

fn guard() -> TlsGuard {
    TlsGuard { last_addr: 0, count: 0 }
}

fn area(mtype: MemType, file: Option<usize>) -> MemArea {
    MemArea {
        mtype,
        mtrackers: vec![MapTrack {
            vaddr: 0x20_1000,
            tracker: Arc::new(FrameTracker { paddr: 0x9000 }),
            rwx: 0,
        }],
        file,
        offset: 0x40,
        start: 0x20_0000,
        len: 0x4000,
    }
}

fn segv(task: &UserTask) -> bool {
    task.tcb.signal.has_sig(SignalFlags { number: SIGSEGV })
}

#[test]
fn regions_of_the_address_space() {
    assert_eq!(region(0), Region::Null);
    assert_eq!(region(0xfff), Region::Null);
    assert_eq!(region(0x1000), Region::Nowhere);
    assert_eq!(region(0x1_0000), Region::Code);
    assert_eq!(region(0xf_ffff), Region::Code);
    assert_eq!(region(0x10_0000), Region::Nowhere);
    assert_eq!(region(0x100_0000), Region::Heap);
    assert_eq!(region(0x7000_0000), Region::Stack);
    assert_eq!(region(0x8000_0000), Region::Nowhere);
    assert_eq!(region(0x2_0000_0000), Region::Tls);
    assert_eq!(region(0x3_0000_0000), Region::Nowhere);
}

#[test]
fn own_page_is_mapped_again() {
    let (mut task, mut pcb) = process();
    pcb.memset.areas.push(area(MemType::Mmap, None));
    let step = user_cow_int(&mut task, &mut pcb, &mut guard(), 0x20_1234);
    assert_eq!(step, FaultStep::Done);
    let entry = PageEntry { paddr: 0x9000, flags: MappingFlags::URWX };
    assert_eq!(pcb.page_table.entries[&0x20_1000], entry);
    assert!(!segv(&task));
}

#[test]
fn shared_page_is_copied() {
    let (mut task, mut pcb) = process();
    pcb.memset.areas.push(area(MemType::Mmap, None));
    let other = pcb.memset.areas[0].mtrackers[0].tracker.clone();
    let step = user_cow_int(&mut task, &mut pcb, &mut guard(), 0x20_1234);
    assert_eq!(step, FaultStep::CopyPage { src: 0x9000 });
    assert!(pcb.page_table.entries.is_empty());
    let step = copy_page(&task, &mut pcb, 0x20_1234, FrameTracker { paddr: 0xb000 });
    assert_eq!(step, FaultStep::Done);
    let entry = PageEntry { paddr: 0xb000, flags: MappingFlags::URWX };
    assert_eq!(pcb.page_table.entries[&0x20_1000], entry);
    assert_eq!(pcb.memset.areas[0].mtrackers[0].tracker.paddr, 0xb000);
    assert_eq!(other.paddr, 0x9000);
    let step = user_cow_int(&mut task, &mut pcb, &mut guard(), 0x20_1fff);
    assert_eq!(step, FaultStep::Done);
}

#[test]
fn page_is_copied_while_it_has_two_owners() {
    let (mut task, mut pcb) = process();
    pcb.memset.areas.push(area(MemType::Mmap, None));
    let step = cow_fault(&mut task, &mut pcb, &mut guard(), 0x20_1000, 2);
    assert_eq!(step, FaultStep::CopyPage { src: 0x9000 });
    let step = cow_fault(&mut task, &mut pcb, &mut guard(), 0x20_1000, 1);
    assert_eq!(step, FaultStep::Done);
}

#[test]
fn fault_in_shared_memory_is_a_signal() {
    let (mut task, mut pcb) = process();
    pcb.memset.areas.push(area(MemType::Shared, None));
    let step = user_cow_int(&mut task, &mut pcb, &mut guard(), 0x20_1234);
    assert_eq!(step, FaultStep::Done);
    assert!(segv(&task));
    assert!(pcb.page_table.entries.is_empty());
}

#[test]
fn page_without_frame_is_loaded() {
    let (mut task, mut pcb) = process();
    pcb.memset.areas.push(area(MemType::CodeSection, Some(6)));
    let step = user_cow_int(&mut task, &mut pcb, &mut guard(), 0x20_2abc);
    let source = Some(FilePlace { file: 6, offset: 0x2040 });
    assert_eq!(step, FaultStep::FreshPage { source });
    let step = fresh_page(&task, &mut pcb, 0x20_2abc, FrameTracker { paddr: 0xd000 });
    assert_eq!(step, FaultStep::Done);
    assert_eq!(pcb.memset.areas[0].mtrackers[1].vaddr, 0x20_2000);
    assert_eq!(pcb.memset.areas[0].mtrackers[1].rwx, 0b111);
    assert_eq!(pcb.page_table.entries[&0x20_2000].paddr, 0xd000);
}

#[test]
fn blank_areas_get_blank_pages() {
    let (mut task, mut pcb) = process();
    pcb.memset.areas.push(area(MemType::Mmap, None));
    let step = user_cow_int(&mut task, &mut pcb, &mut guard(), 0x20_0000);
    assert_eq!(step, FaultStep::FreshPage { source: None });
}

#[test]
fn high_mappings_are_not_executable() {
    let (task, mut pcb) = process();
    pcb.memset.areas.push(MemArea {
        mtype: MemType::Mmap,
        mtrackers: Vec::new(),
        file: None,
        offset: 0,
        start: 0x2_0000_0000,
        len: 0x1000,
    });
    let step = fresh_page(&task, &mut pcb, 0x2_0000_0008, FrameTracker { paddr: 0xd000 });
    assert_eq!(step, FaultStep::Done);
    assert_eq!(pcb.page_table.entries[&0x2_0000_0000].flags, MappingFlags::URW);
}

#[test]
fn stack_faults() {
    let (mut task, mut pcb) = process();
    let step = user_cow_int(&mut task, &mut pcb, &mut guard(), 0x7fff_1234);
    assert_eq!(step, FaultStep::StackPage);
    let frame = Some(FrameTracker { paddr: 0xe000 });
    assert_eq!(stack_page(&mut task, &mut pcb, 0x7fff_1234, frame), FaultStep::Done);
    assert_eq!(pcb.page_table.entries[&0x7fff_1000].paddr, 0xe000);
    assert!(!segv(&task));
    assert_eq!(stack_page(&mut task, &mut pcb, 0x7fff_5000, None), FaultStep::Done);
    assert!(segv(&task));
}

#[test]
fn null_pointer_signals_then_ends() {
    let (mut task, mut pcb) = process();
    assert_eq!(user_cow_int(&mut task, &mut pcb, &mut guard(), 8), FaultStep::Done);
    assert!(segv(&task));
    let step = user_cow_int(&mut task, &mut pcb, &mut guard(), 8);
    assert_eq!(step, FaultStep::Exit { code: 139 });
}

#[test]
fn code_faults() {
    let (mut task, mut pcb) = process();
    let step = user_cow_int(&mut task, &mut pcb, &mut guard(), 0x1_0690);
    assert_eq!(step, FaultStep::FindCode);
    assert_eq!(code_fault(&task, &pcb, 0x1_0690), FaultStep::BlankPage);
    pcb.memset.areas.push(MemArea {
        mtype: MemType::CodeSection,
        mtrackers: Vec::new(),
        file: Some(3),
        offset: 0x100,
        start: 0x1_0000,
        len: 0x1000,
    });
    let step = code_fault(&task, &pcb, 0x1_0690);
    assert_eq!(step, FaultStep::StatFile { file: 3, offset: 0x100 });
    assert_eq!(file_sized(3, 0x100, None), FaultStep::Done);
    assert_eq!(file_sized(3, 0x100, Some(0x100)), FaultStep::Done);
    let step = file_sized(3, 0x100, Some(0x180));
    assert_eq!(step, FaultStep::CodePage { file: 3, offset: 0x100, file_size: 0x180 });
    let step = code_page(&task, &mut pcb, 0x1_0690, 3, 0x100, 0x180, None);
    assert_eq!(step, FaultStep::BlankPage);
    let frame = Some(FrameTracker { paddr: 0xa000 });
    let step = code_page(&task, &mut pcb, 0x1_0690, 3, 0x100, 0x180, frame);
    let read = FaultStep::ReadFile { file: 3, offset: 0x100, paddr: 0xa000, len: 0x80 };
    assert_eq!(step, read);
    assert_eq!(file_read(true), FaultStep::Done);
    assert_eq!(file_read(false), FaultStep::BlankPage);
    let frame = Some(FrameTracker { paddr: 0xb000 });
    assert_eq!(blank_page(&mut task, &mut pcb, 0x1_0690, frame), FaultStep::Done);
    assert_eq!(pcb.page_table.entries[&0x1_0000].paddr, 0xb000);
    assert!(!segv(&task));
    assert_eq!(blank_page(&mut task, &mut pcb, 0x1_0690, None), FaultStep::Done);
    assert!(segv(&task));
}

#[test]
fn heap_faults() {
    let (mut task, mut pcb) = process();
    let step = user_cow_int(&mut task, &mut pcb, &mut guard(), 0x100_0008);
    assert_eq!(step, FaultStep::HeapPage);
    let frame = Some(FrameTracker { paddr: 0xb000 });
    assert_eq!(heap_page(&mut task, &mut pcb, 0x100_0008, frame), FaultStep::Done);
    assert_eq!(pcb.memset.areas[0].mtype, MemType::Mmap);
    assert_eq!(heap_page(&mut task, &mut pcb, 0x100_1008, None), FaultStep::Done);
    assert!(segv(&task));
}

#[test]
fn repeated_tls_faults_end_the_thread() {
    let (mut task, mut pcb) = process();
    let mut tls = guard();
    for _ in 0..3 {
        let step = user_cow_int(&mut task, &mut pcb, &mut tls, 0x2_0000_0123);
        assert_eq!(step, FaultStep::TlsPage);
    }
    let step = user_cow_int(&mut task, &mut pcb, &mut tls, 0x2_0000_0456);
    assert_eq!(step, FaultStep::Exit { code: 1 });
}

#[test]
fn tls_page_is_cleared() {
    let (mut task, mut pcb) = process();
    let mut tls = guard();
    assert_eq!(user_cow_int(&mut task, &mut pcb, &mut tls, 0x2_0000_0123), FaultStep::TlsPage);
    assert_eq!(tls, TlsGuard { last_addr: 0x2_0000_0000, count: 1 });
    let frame = Some(FrameTracker { paddr: 0xb000 });
    let step = tls_page(&mut task, &mut pcb, &mut tls, 0x2_0000_0123, frame);
    assert_eq!(step, FaultStep::ClearPage { paddr: 0xb000 });
    assert_eq!(tls.count, 0);
    let step = tls_page(&mut task, &mut pcb, &mut tls, 0x2_0000_5000, None);
    assert_eq!(step, FaultStep::Done);
    assert!(segv(&task));
}

#[test]
fn unknown_addresses_are_a_signal() {
    let (mut task, mut pcb) = process();
    let step = user_cow_int(&mut task, &mut pcb, &mut guard(), 0x9000_0000);
    assert_eq!(step, FaultStep::Done);
    assert!(segv(&task));
}

#[test]
fn illegal_instructions() {
    let (mut task, mut pcb) = process();
    pcb.memset.areas.push(area(MemType::CodeSection, None));
    let mut cx = zero_frame();
    cx.sepc = 0x20_1000;
    assert!(!task_ilegal(&mut task, &pcb, 0x20_1000, &mut cx));
    assert_eq!(cx.sepc, 0x20_1002);
    assert!(task_ilegal(&mut task, &pcb, 0x20_1002, &mut cx));
    assert_eq!(cx.sepc, 0x20_1002);
    assert!(task.tcb.signal.has_sig(SignalFlags { number: SIGILL }));
    assert!(task_ilegal(&mut task, &pcb, 0x50_0000, &mut cx));
}

#[test]
fn system_calls_come_and_go() {
    let (task, mut pcb) = process();
    let c = UserTaskContainer { task, tid: 1 };
    let mut cx = zero_frame();
    cx.syscall = 64;
    let step = c.after_run(&mut pcb, &cx, EscapeReason::Timer, 5, 139);
    assert_eq!(step, SyscallStep::Flow(UserTaskControlFlow::Continue));
    assert_eq!(pcb.tms.utime, 0);
    let step = c.after_run(&mut pcb, &cx, EscapeReason::SysCall, 5, 139);
    assert_eq!(step, SyscallStep::Dispatch(64));
    assert_eq!(pcb.tms.utime, 5);
    cx.syscall = 139;
    let step = c.after_run(&mut pcb, &cx, EscapeReason::SysCall, 1, 139);
    assert_eq!(step, SyscallStep::Flow(UserTaskControlFlow::Break));
    assert_eq!(pcb.tms.utime, 6);
    let flow = c.finish_syscall(&mut pcb, &mut cx, Err(Errno::ENOENT), 9);
    assert_eq!(flow, UserTaskControlFlow::Continue);
    assert_eq!(cx.ret as isize, -2);
    assert_eq!(pcb.tms.stime, 9);
    c.finish_syscall(&mut pcb, &mut cx, Ok(17), 0);
    assert_eq!(cx.ret, 17);
}

#[test]
fn leaving_a_handler_breaks_the_loop() {
    let (task, mut pcb) = process();
    let c = UserTaskContainer { task, tid: 1 };
    let mut cx = zero_frame();
    cx.syscall = syscalls::Sysno::rt_sigreturn.id() as usize;
    let step = c.handle_syscall(&mut pcb, &cx, EscapeReason::SysCall, 2);
    assert_eq!(step, SyscallStep::Flow(UserTaskControlFlow::Break));
    cx.syscall += 1;
    let step = c.handle_syscall(&mut pcb, &cx, EscapeReason::SysCall, 2);
    assert_eq!(step, SyscallStep::Dispatch(cx.syscall));
    assert_eq!(pcb.tms.utime, 4);
}
