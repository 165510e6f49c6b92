use monkeyos::errno::{encode_result, Errno};
use monkeyos::fdtypes::{
    FcntlCmd, FutexFlags, IoVec, KStat, Statx, StatxTimestamp, AT_CWD, STATX_ALL,
    STATX_BASIC_STATS, STATX_BTIME,
};
use monkeyos::heap::{
    AllocStep, HybridAllocator, LargeAllocator, HEAP_SIZE, LARGE_ALLOC_THRESHOLD,
};
use monkeyos::kernel::{
    alloc_error_handler, heap_report, kernel_interrupt, PageAllocImpl, TrapAction, TrapType,
};
use monkeyos::kvirtio::{HalImpl, VirtioContainer};
use monkeyos::memset::{FrameTracker, MemArea, MemType};
use monkeyos::sigtypes::SIGCHLD;
use monkeyos::sys::{RandomState, Rlimit, UTSname, RANDOM_SEED};
use monkeyos::task::{ProcessControlBlock, TrapFrame, UserTask};
use monkeyos::user::UserTaskContainer;
use monkeyos::usermem::{from_le_bytes, to_le_bytes};

fn container() -> (UserTaskContainer, ProcessControlBlock) {
    let cx = TrapFrame {
        sepc: 0,
        ra: 0,
        sp: 0,
        ret: 0,
        arg0: 0,
        arg1: 0,
        arg2: 0,
        tls: 0,
        syscall: 0,
    };
    let (task, pcb) = UserTask::new(None, 1, 0, vec![Some(1), None], vec![0; 8], cx);
    (UserTaskContainer { task, tid: 41 }, pcb)
}

fn frames(first: usize, n: usize) -> Vec<FrameTracker> {
    (0..n).map(|i| FrameTracker { paddr: first + i * 4096 }).collect()
}

#[test]
fn error_numbers_are_those_of_the_table() {
    let pairs = [
        (Errno::EPERM, 1),
        (Errno::ENOENT, 2),
        (Errno::E2BIG, 7),
        (Errno::EBADF, 9),
        (Errno::EAGAIN, 11),
        (Errno::ENOMEM, 12),
        (Errno::EFAULT, 14),
        (Errno::EEXIST, 17),
        (Errno::EINVAL, 22),
        (Errno::ENOMSG, 42),
    ];
    for (e, n) in pairs {
        assert_eq!(e.into_raw(), n);
        assert_eq!(encode_result(Err(e)) as isize, -(n as isize));
        let back = syscalls::Errno::from_ret(encode_result(Err(e)));
        assert_eq!(back.unwrap_err().into_raw(), n);
    }
    assert_eq!(Errno::EWOULDBLOCK, Errno::EAGAIN);
    assert_eq!(encode_result(Ok(5)), 5);
}

#[test]
fn bytes_of_numbers() {
    for x in [0u64, 1, 0x0102_0304_0506_0708, u64::MAX] {
        assert_eq!(to_le_bytes(x), x.to_le_bytes().to_vec());
        assert_eq!(from_le_bytes(&x.to_le_bytes()), x);
    }
}

#[test]
fn numbers_of_commands() {
    assert_eq!(FcntlCmd::from_usize(0x406), Some(FcntlCmd::DUPFDCLOEXEC));
    assert_eq!(FcntlCmd::from_usize(4), Some(FcntlCmd::SETFL));
    assert_eq!(FcntlCmd::from_usize(8), None);
    assert_eq!(FutexFlags::from_usize(9), Some(FutexFlags::WaitBitset));
    assert_eq!(FutexFlags::from_usize(10), None);
    assert_eq!(STATX_ALL, STATX_BASIC_STATS | STATX_BTIME);
    assert_eq!(AT_CWD, -100);
    assert_eq!(IoVec { base: 1, len: 2 }.len, 2);
    assert_eq!(KStat::default().st_size, 0);
    assert_eq!(Statx::default().stx_mask, 0);
    assert_eq!(StatxTimestamp::default().tv_sec, 0);
}

#[test]
fn names_of_the_system() {
    let (c, _) = container();
    let mut uts = UTSname {
        sysname: [0; 65],
        nodename: [0; 65],
        release: [0; 65],
        version: [0; 65],
        machine: [0; 65],
        domainname: [7; 65],
    };
    assert_eq!(c.sys_uname(&mut uts), Ok(0));
    assert!(uts.sysname.starts_with(b"Linux\0"));
    assert!(uts.nodename.starts_with(b"debian\0"));
    assert!(uts.release.starts_with(b"5.10.0-7-riscv64\0"));
    assert!(uts.version.starts_with(b"#1 SMP Debian 5.10.40-1 (2021-05-28)\0"));
    assert!(uts.machine.starts_with(b"riscv qemu\0"));
    assert_eq!(uts.domainname, [7; 65]);
}

#[test]
fn limits_are_set_and_reported() {
    let (c, mut pcb) = container();
    let new = Some(Rlimit { curr: 1, max: 9 });
    let (r, old) = c.sys_prlimit64(&mut pcb, 0, 7, new, true);
    assert_eq!(r, Ok(0));
    assert_eq!(old, Some(Rlimit { curr: 9, max: 9 }));
    let (_, old) = c.sys_prlimit64(&mut pcb, 0, 3, None, true);
    assert_eq!(old, Some(Rlimit { curr: 0, max: 0 }));
    let (_, old) = c.sys_prlimit64(&mut pcb, 0, 5, new, true);
    assert_eq!(old, None);
    pcb.rlimits = vec![1, 2];
    let (_, old) = c.sys_prlimit64(&mut pcb, 0, 4, None, true);
    assert_eq!(old, Some(Rlimit { curr: usize::MAX, max: usize::MAX }));
    let (_, old) = c.sys_prlimit64(&mut pcb, 0, 4, new, true);
    assert_eq!(old, Some(Rlimit { curr: 9, max: 9 }));
    assert_eq!(pcb.rlimits, vec![1, 2, 0, 0, 9, 0, 0, 0]);
}

#[test]
fn random_bytes_follow_the_seed() {
    let (c, _) = container();
    let mut rng = RandomState::new();
    let (r, first) = c.sys_getrandom(&mut rng, 3, 0);
    assert_eq!(r, Ok(3));
    let (_, second) = c.sys_getrandom(&mut rng, 2, 0);
    let mut again = RandomState { seed: RANDOM_SEED };
    let (_, all) = c.sys_getrandom(&mut again, 5, 0);
    assert_eq!(&all[..3], &first[..]);
    assert_eq!(&all[3..], &second[..]);
    let mut seed = 0xdead_beef_cafe_babe_u64;
    for b in all {
        seed = seed.wrapping_mul(0x5851_f42d_4c95_7f2d);
        assert_eq!(b, (seed >> 33) as u8);
    }
}

#[test]
fn thread_local_storage_register() {
    let (mut c, _) = container();
    assert_eq!(c.sys_arch_prctl(0x1002, 0x77), Ok(0));
    assert_eq!(c.task.tcb.cx.tls, 0x77);
    assert_eq!(c.sys_arch_prctl(0x1001, 0x88), Err(Errno::EPERM));
    assert_eq!(c.sys_arch_prctl(0x1000, 0x88), Err(Errno::EINVAL));
    assert_eq!(c.task.tcb.cx.tls, 0x77);
}

#[test]
fn memory_barriers() {
    let (c, _) = container();
    assert_eq!(c.sys_membarrier(0, 0, 0), Ok(0x3fe));
    for cmd in 1..20 {
        assert_eq!(c.sys_membarrier(cmd, 0, 0), Ok(0));
    }
    assert!(!monkeyos::sys::membarrier_effect(0).1);
    assert!(monkeyos::sys::membarrier_effect(1).1);
    assert!(!monkeyos::sys::membarrier_effect(3).1);
    assert!(monkeyos::sys::membarrier_effect(16).1);
    assert!(monkeyos::sys::membarrier_effect(77).1);
}

#[test]
fn plain_system_calls() {
    let (c, _) = container();
    assert_eq!(c.sys_getsid(0), Ok(41));
    assert_eq!(c.sys_getsid(7), Ok(7));
    assert_eq!(c.sys_prctl(3, 0, 0, 0, 0), Ok(1));
    assert_eq!(c.sys_prctl(4, 0, 0, 0, 0), Ok(0));
    assert_eq!(c.sys_prctl(99, 0, 0, 0, 0), Ok(0));
    assert_eq!(c.sys_mknod(Some("/x"), 0, 0), Ok(0));
    assert_eq!(c.sys_mknod(None, 0, 0), Err(Errno::EINVAL));
    assert_eq!(c.sys_mknodat(0, Some("/x"), 0, 0), Ok(0));
    assert_eq!(c.sys_mknodat(0, None, 0, 0), Err(Errno::EINVAL));
    assert_eq!(c.sys_geteuid(), Ok(0));
    assert_eq!(c.sys_getegid(), Ok(0));
    assert_eq!(c.sys_getuid(), Ok(0));
    assert_eq!(c.sys_getgid(), Ok(0));
    assert_eq!(c.sys_getpgid(), Ok(0));
    assert_eq!(c.sys_setpgid(1, 2), Ok(0));
    assert_eq!(c.sys_setuid(1), Ok(0));
    assert_eq!(c.sys_setgid(1), Ok(0));
    assert_eq!(c.sys_sched_getparam(1, 2), Ok(0));
    assert_eq!(c.sys_sched_setscheduler(1, 2, 3), Ok(0));
    let (r, text) = c.sys_klogctl(2, Some("hi".to_string()), 2);
    assert_eq!(r, Ok(0));
    assert_eq!(text, Some("hi".to_string()));
    let (r, store) = c.sys_info(0x500, true);
    assert_eq!(r, Ok(0));
    let store = store.unwrap();
    assert_eq!((store.addr, store.bytes), (0x500, vec![3]));
    assert!(c.sys_info(0, false).1.is_none());
}

#[test]
fn large_allocations() {
    let mut large = LargeAllocator::new();
    assert_eq!(large.allocate(5000, 4096, Some(frames(0x10_0000, 2))), Some(0x10_0000));
    assert_eq!(large.allocate(100, 0x2_0000, Some(frames(0x11_0000, 1))), None);
    assert_eq!(large.allocate(100, 8, None), None);
    assert_eq!(large.allocate(4096, 8, Some(frames(0x20_0000, 1))), Some(0x20_0000));
    assert_eq!(large.get_allocation_stats(), (2, 3));
    assert!(large.dealloc(0x30_0000, 5).is_none());
    assert_eq!(large.dealloc(0x20_0800, 5).unwrap().len(), 1);
    assert_eq!(large.dealloc(0x10_0000, 5000).unwrap().len(), 2);
    assert_eq!(large.get_allocation_stats(), (0, 0));
}

#[test]
fn exact_match_is_freed_first() {
    let mut large = LargeAllocator::new();
    assert_eq!(large.allocate(8192, 8, Some(frames(0x10_0000, 2))), Some(0x10_0000));
    assert_eq!(large.allocate(10, 8, Some(frames(0x10_1000, 1))), Some(0x10_1000));
    assert_eq!(large.dealloc(0x10_1000, 10).unwrap().len(), 1);
    assert_eq!(large.dealloc(0x10_1000, 10).unwrap().len(), 2);
}

fn allocator() -> HybridAllocator {
    HybridAllocator::with_heap(buddy_system_allocator::Heap::empty(), 0x8000_0000)
}

#[test]
fn empty_heap_falls_back_to_frames() {
    let mut a = allocator();
    assert_eq!(a.allocate(64, 8), AllocStep::Failed);
    assert_eq!(a.allocate(LARGE_ALLOC_THRESHOLD, 8), AllocStep::Failed);
    assert_eq!(a.allocate(LARGE_ALLOC_THRESHOLD + 1, 8), AllocStep::NeedFrames(65));
    let step = a.alloc_large(LARGE_ALLOC_THRESHOLD + 1, 8, Some(frames(0x10_0000, 65)));
    assert_eq!(step, AllocStep::Done(0x10_0000));
    assert_eq!(a.alloc_large(LARGE_ALLOC_THRESHOLD + 1, 8, None), AllocStep::Failed);
    assert!(a.dealloc(0, 1, 1).is_none());
    let freed = a.dealloc(0x10_0000, LARGE_ALLOC_THRESHOLD + 1, 8);
    assert_eq!(freed.unwrap().len(), 65);
    assert_eq!(a.route(Some(16), 1), AllocStep::Done(16));
}

#[test]
fn allocator_takes_a_heap() {
    let mut a = HybridAllocator::with_heap(buddy_system_allocator::Heap::empty(), 0x8000_0000);
    assert_eq!(a.allocate(0, 1), AllocStep::Failed);
    assert_eq!(a.allocate(1 << 20, 4096), AllocStep::NeedFrames(256));
    assert_eq!(a.alloc_error_handler(1, 1, 0).heap_size, HEAP_SIZE);
}

#[test]
fn exhausted_memory_is_reported() {
    let mut a = allocator();
    let r = a.alloc_error_handler(100, 8, 10);
    assert_eq!(r.free_kb, 40);
    assert_eq!(r.heap_mb, 512);
    assert_eq!(r.heap_end, 0x8000_0000 + HEAP_SIZE);
    assert!(r.large.is_none());
    a.alloc_large(300_000, 8, Some(frames(0x10_0000, 74)));
    let large = a.alloc_error_handler(300_000, 8, 10).large.unwrap();
    assert_eq!(large.allocations, 1);
    assert_eq!(large.pages, 74);
    assert_eq!(large.pages_needed, 74);
    assert!(large.insufficient);
    assert!(!a.alloc_error_handler(300_000, 8, 74).large.unwrap().insufficient);
}

#[test]
fn exhausted_program_is_reported() {
    let (c, mut pcb) = container();
    for i in 0..101 {
        pcb.memset.areas.push(MemArea {
            mtype: if i % 2 == 0 { MemType::CodeSection } else { MemType::Shared },
            mtrackers: Vec::new(),
            file: None,
            offset: 0,
            start: 0,
            len: 0x10_0000,
        });
    }
    let alive = vec![true; pcb.threads.len()];
    let (r, effects) = alloc_error_handler(&c.task, &mut pcb, 77, 8, &alive, true);
    assert_eq!((r.size, r.align), (77, 8));
    assert_eq!((r.task_id, r.process_id), (c.task.task_id, c.task.process_id));
    assert_eq!(r.areas, 101);
    let counts = r.counts.unwrap();
    assert_eq!((counts.code, counts.shared, counts.stack), (51, 50, 0));
    assert!(counts.too_much_code);
    assert!(!counts.too_much_mmap);
    assert_eq!(r.listed, 10);
    assert_eq!(r.total_mb, 101);
    assert_eq!((r.used_fds, r.fd_slots), (1, 2));
    assert_eq!(pcb.exit_code, Some(1));
    assert_eq!(effects.parent_signal.map(|s| s.num()), Some(SIGCHLD));
    let (c, mut pcb) = container();
    let alive = vec![true; pcb.threads.len()];
    let (r, effects) = alloc_error_handler(&c.task, &mut pcb, 77, 8, &alive, false);
    assert!(r.counts.is_none());
    assert!(effects.parent_signal.is_none());
    assert_eq!(pcb.exit_code, Some(1));
    assert_eq!(heap_report(3 << 20, 1 << 20).free_mb, 2);
}

#[test]
fn traps_are_sorted() {
    let top = 0xffff_0000usize;
    let fault = TrapType::StorePageFault(0x1000);
    let action = TrapAction::UserFault { addr: 0x1000, unlock: true };
    assert_eq!(kernel_interrupt(fault, top, true, true), action);
    assert_eq!(kernel_interrupt(fault, top, false, false), TrapAction::NoTask);
    let fault = TrapType::LoadPageFault(top + 1);
    assert_eq!(kernel_interrupt(fault, top, true, false), TrapAction::KernelFault(top + 1));
    let fault = TrapType::InstructionPageFault(top);
    let action = TrapAction::UserFault { addr: top, unlock: false };
    assert_eq!(kernel_interrupt(fault, top, true, false), action);
    let illegal = TrapType::IllegalInstruction(top + 1);
    assert_eq!(kernel_interrupt(illegal, top, true, false), TrapAction::Ignore);
    let illegal = TrapType::IllegalInstruction(5);
    assert_eq!(kernel_interrupt(illegal, top, true, false), TrapAction::UserIllegal);
    let external = TrapType::SupervisorExternal;
    let action = TrapAction::DeviceInterrupt { irq: u32::MAX };
    assert_eq!(kernel_interrupt(external, top, true, false), action);
    assert_eq!(kernel_interrupt(TrapType::Timer, top, true, false), TrapAction::Ignore);
    let release = PageAllocImpl.dealloc(0x3000);
    assert_eq!((release.paddr, release.clear), (0x3000, 4096));
}

#[test]
fn frames_are_lent_to_devices() {
    let mut lent = VirtioContainer::new();
    assert_eq!(HalImpl.dma_alloc(&mut lent, frames(0x5000, 2)), 0x5000);
    assert_eq!(HalImpl.dma_alloc(&mut lent, frames(0x5, 1)), 0x5);
    assert_eq!(HalImpl.dma_dealloc(&mut lent, 0x5000, 2), 0);
    assert_eq!(lent.frames.len(), 2);
    assert_eq!(lent.frames[1].paddr, 0x6000);
    assert_eq!(HalImpl.mmio_phys_to_virt(0x1000, 8), 0x8000_0000_0000_1000);
    assert_eq!(HalImpl.share(0x9000_1234, None, 0x9000_0000), 0x1234);
    assert_eq!(HalImpl.share(0x9000_1234, Some(7), 0x9000_0000), 7);
    let block = monkeyos::kvirtio::init(10, vec![3, 4]);
    assert_eq!(block.capacity(), 5120);
    assert_eq!(block.interrupts(), &[3, 4]);
    assert_eq!(block.get_id(), "virtio-blk");
}
