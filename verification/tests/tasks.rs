use std::sync::Arc;

use monkeyos::errno::Errno;
use monkeyos::memset::{
    FrameTracker, MapTrack, MapedSharedMemory, MappingFlags, MemArea, MemType, PageEntry,
};
use monkeyos::sigtypes::{SignalFlags, SIGCHLD};
use monkeyos::task::{ProcessControlBlock, Resolved, TaskType, TrapFrame, UserTask};

fn registers() -> TrapFrame {
    TrapFrame {
        sepc: 0x1_0000,
        ra: 1,
        sp: 0x7fff_0000,
        ret: 2,
        arg0: 3,
        arg1: 4,
        arg2: 5,
        tls: 6,
        syscall: 7,
    }
}

fn process() -> (UserTask, ProcessControlBlock) {
    let fds = vec![Some(100), Some(101), Some(102)];
    let limits = vec![0, 0, 0, 0, 0, 0, 0, 4];
    UserTask::new(None, 10, 55, fds, limits, registers())
}

fn frames(list: &[usize]) -> Vec<FrameTracker> {
    list.iter().map(|p| FrameTracker { paddr: *p }).collect()
}

fn track(vaddr: usize, paddr: usize) -> MapTrack {
    MapTrack { vaddr, tracker: Arc::new(FrameTracker { paddr }), rwx: 0 }
}

#[test]
fn new_process_is_empty() {
    let (task, pcb) = process();
    assert_eq!(task.get_task_id(), 10);
    assert_eq!(task.process_id, 10);
    assert_eq!(task.get_task_type(), TaskType::MonolithicTask);
    assert_eq!(pcb.threads, vec![10]);
    assert_eq!(pcb.sigaction.len(), 65);
    assert_eq!(pcb.memset.areas.len(), 0);
    assert_eq!(task.heap(&pcb), 0);
    assert_eq!(task.exit_code(&pcb), None);
    assert_eq!(task.tcb.signal_queue.len(), 33);
}

#[test]
fn frames_are_mapped_in_order() {
    let (task, mut pcb) = process();
    let r = task.frame_alloc(&mut pcb, 0x5000, MemType::Mmap, 2, Some(frames(&[0x9000, 0xb000])));
    assert_eq!(r, Some(0x9000));
    let urwx = MappingFlags::URWX;
    assert_eq!(pcb.page_table.entries[&0x5000], PageEntry { paddr: 0x9000, flags: urwx });
    assert_eq!(pcb.page_table.entries[&0x6000], PageEntry { paddr: 0xb000, flags: urwx });
    assert!(pcb.page_table.is_mapped(0x6fff));
    assert!(!pcb.page_table.is_mapped(0x7000));
    assert_eq!(pcb.memset.areas[0].start, 0x5000);
    assert_eq!(pcb.memset.areas[0].len, 0x2000);
    assert_eq!(pcb.memset.areas[0].mtrackers.len(), 2);
    assert_eq!(task.frame_alloc(&mut pcb, 0x8000, MemType::Mmap, 1, None), None);
    assert_eq!(pcb.memset.areas.len(), 1);
}

#[test]
fn shared_files_are_not_executable() {
    let (task, mut pcb) = process();
    let f = Some(frames(&[0x9000]));
    assert_eq!(task.frame_alloc(&mut pcb, 0x5000, MemType::ShareFile, 1, f), Some(0x9000));
    assert_eq!(pcb.page_table.entries[&0x5000].flags, MappingFlags::URW);
}

#[test]
fn stack_frames_share_one_area() {
    let (task, mut pcb) = process();
    let f = Some(frames(&[0x9000]));
    assert_eq!(task.frame_alloc(&mut pcb, 0x7000_0000, MemType::Stack, 1, f), Some(0x9000));
    let f = Some(frames(&[0xa000]));
    assert_eq!(task.frame_alloc(&mut pcb, 0x7000_1000, MemType::Stack, 1, f), Some(0xa000));
    assert_eq!(pcb.memset.areas.len(), 1);
    assert_eq!(pcb.memset.areas[0].start, 0x7000_0000);
    assert_eq!(pcb.memset.areas[0].len, 0x1000_0000);
    assert_eq!(pcb.memset.areas[0].mtrackers.len(), 2);
}

#[test]
fn frames_for_no_page_are_only_recorded() {
    let (task, mut pcb) = process();
    let f = Some(frames(&[0x9000, 0xa000]));
    let urw = MappingFlags::URW;
    let r = task.map_frames(&mut pcb, 0, MemType::Mmap, 2, Some(3), 7, 0x1000, 0x2000, urw, f);
    assert_eq!(r, Some(0x9000));
    assert!(pcb.page_table.entries.is_empty());
    assert_eq!(pcb.memset.areas[0].mtrackers[1].vaddr, 0);
    assert_eq!(pcb.memset.areas[0].file, Some(3));
    assert_eq!(pcb.memset.areas[0].offset, 7);
}

#[test]
fn heap_grows_page_by_page() {
    let (task, mut pcb) = process();
    pcb.heap = 0x3001;
    assert_eq!(task.sbrk_pages(&pcb, 0x6000), 2);
    let grants = vec![Some(FrameTracker { paddr: 0x9000 }), None];
    assert_eq!(task.sbrk(&mut pcb, 0x6000, grants), 0x6000);
    assert_eq!(task.heap(&pcb), 0x6000);
    assert!(pcb.page_table.is_mapped(0x4000));
    assert!(!pcb.page_table.is_mapped(0x5000));
    assert_eq!(pcb.memset.areas[0].mtype, MemType::CodeSection);
    assert_eq!(task.sbrk_pages(&pcb, 0x2000), 0);
    assert_eq!(task.sbrk(&mut pcb, 0x2000, Vec::new()), 0x2000);
    assert_eq!(pcb.memset.areas.len(), 1);
}

#[test]
fn last_thread_takes_the_process_along() {
    let (mut task, mut pcb) = process();
    pcb.children = vec![11];
    task.tcb.exit_signal = 9;
    let e = task.thread_exit(&mut pcb, 3, &[true], true);
    assert_eq!(e.cleared_tid, None);
    assert_eq!(e.parent_signal, Some(SignalFlags { number: 9 }));
    assert_eq!(task.tcb.thread_exit_code, Some(3));
    assert_eq!(pcb.exit_code, Some(3));
    assert!(pcb.threads.is_empty());
    assert!(pcb.fd_table.is_empty());
    assert!(pcb.children.is_empty());
    assert_eq!(task.release(&pcb), 10);
}

#[test]
fn process_outlives_other_threads() {
    let (mut task, mut pcb) = process();
    let mut thread = task.thread_clone(&mut pcb, 12, &[true]);
    assert_eq!(thread.process_id, 10);
    assert_eq!(thread.tcb.cx.ret, 0);
    assert_eq!(thread.tcb.cx.sp, task.tcb.cx.sp);
    assert_eq!(pcb.threads, vec![10, 12]);
    let e = thread.thread_exit(&mut pcb, 1, &[true, true], true);
    assert_eq!(e.parent_signal, None);
    assert_eq!(pcb.threads, vec![10]);
    assert_eq!(pcb.exit_code, None);
    assert_eq!(pcb.fd_table.len(), 3);
    let e = task.thread_exit(&mut pcb, 2, &[true], false);
    assert_eq!(e.parent_signal, None);
    assert_eq!(pcb.exit_code, Some(2));
}

#[test]
fn exit_tells_the_parent() {
    let (mut task, mut pcb) = process();
    pcb.threads = vec![10, 12, 13];
    pcb.children = vec![20];
    task.tcb.clear_child_tid = 0x5008;
    pcb.page_table.map_page(0x5000, 0x9000, MappingFlags::URW);
    let e = task.exit_with_signal(&mut pcb, 11, &[true, true, false], true);
    assert_eq!(e.cleared_tid, Some(0x5008));
    assert_eq!(e.parent_signal, Some(SignalFlags { number: SIGCHLD }));
    assert_eq!(pcb.exit_code, Some(139));
    assert_eq!(pcb.threads, vec![12]);
    assert_eq!(pcb.children, vec![20]);
    assert_eq!(pcb.fd_table.len(), 3);
}

#[test]
fn exit_of_an_orphan_drops_everything() {
    let (task, mut pcb) = process();
    pcb.children = vec![20];
    let e = task.exit(&mut pcb, 7, &[true], false);
    assert_eq!(e.parent_signal, None);
    assert_eq!(pcb.exit_code, Some(7));
    assert!(pcb.children.is_empty());
    assert!(pcb.threads.is_empty());
    assert!(pcb.fd_table.is_empty());
}

#[test]
fn fork_shares_memory_without_write_rights() {
    let (task, mut pcb) = process();
    let f = Some(frames(&[0x9000]));
    assert_eq!(task.frame_alloc(&mut pcb, 0x5000, MemType::Mmap, 1, f), Some(0x9000));
    pcb.memset.areas.push(MemArea {
        mtype: MemType::Shared,
        mtrackers: Vec::new(),
        file: None,
        offset: 0,
        start: 0x4000_0000,
        len: 0x1000,
    });
    pcb.shms.push(MapedSharedMemory {
        key: 1,
        trackers: vec![Arc::new(FrameTracker { paddr: 0xc000 })],
        start: 0x4000_0000,
        size: 0x1000,
    });
    pcb.heap = 77;
    let (child, child_pcb) = task.cow_fork(&mut pcb, 30, vec![0; 8]);
    assert_eq!(child.task_id, 30);
    assert_eq!(child.parent, Some(10));
    assert_eq!(child.tcb.cx.ret, 0);
    assert_eq!(child.tcb.cx.arg0, 3);
    assert_eq!(pcb.children, vec![30]);
    let urx = PageEntry { paddr: 0x9000, flags: MappingFlags::URX };
    assert_eq!(pcb.page_table.entries[&0x5000], urx);
    assert_eq!(child_pcb.page_table.entries[&0x5000], urx);
    let shm = PageEntry { paddr: 0xc000, flags: MappingFlags::URWX };
    assert_eq!(child_pcb.page_table.entries[&0x4000_0000], shm);
    assert_eq!(child_pcb.heap, 77);
    assert_eq!(child_pcb.fd_table, pcb.fd_table);
    assert_eq!(child_pcb.threads, vec![30]);
    assert_eq!(Arc::strong_count(&pcb.memset.areas[0].mtrackers[0].tracker), 2);
}

#[test]
fn values_are_pushed_on_the_stack() {
    let (mut task, _) = process();
    let (sp, store) = task.push_str("abc");
    assert_eq!(sp, 0x7fff_0000 - 8);
    assert_eq!(store.addr, sp);
    assert_eq!(store.bytes, b"abc".to_vec());
    let (sp, store) = task.push_arr(&[1; 8]);
    assert_eq!(sp, 0x7fff_0000 - 8 - 16);
    assert_eq!(store.bytes.len(), 8);
    let (sp, store) = task.push_num(0x0102);
    assert_eq!(sp, 0x7fff_0000 - 8 - 16 - 8);
    assert_eq!(store.bytes, vec![2, 1, 0, 0, 0, 0, 0, 0]);
    assert_eq!(task.tcb.cx.sp, sp);
}

#[test]
fn free_addresses_lie_behind_everything() {
    let (task, mut pcb) = process();
    assert_eq!(task.get_last_free_addr(&pcb), 0);
    let f = Some(frames(&[0x9000]));
    assert_eq!(task.frame_alloc(&mut pcb, 0x7000_0000, MemType::Stack, 1, f), Some(0x9000));
    assert_eq!(task.get_last_free_addr(&pcb), 0);
    let f = Some(frames(&[0xa000]));
    assert_eq!(task.frame_alloc(&mut pcb, 0x5000, MemType::Mmap, 1, f), Some(0xa000));
    assert_eq!(task.get_last_free_addr(&pcb), 0x6000);
    pcb.shms.push(MapedSharedMemory { key: 1, trackers: Vec::new(), start: 0x8000, size: 0x1000 });
    assert_eq!(task.get_last_free_addr(&pcb), 0x9000);
}

#[test]
fn file_numbers() {
    let (task, mut pcb) = process();
    assert_eq!(task.get_fd(&pcb, 1), Some(101));
    assert_eq!(task.get_fd(&pcb, 4), None);
    task.clear_fd(&mut pcb, 1);
    task.clear_fd(&mut pcb, 99);
    assert_eq!(task.get_fd(&pcb, 1), None);
    assert_eq!(task.alloc_fd(&mut pcb), Some(1));
    task.set_fd(&mut pcb, 1, 7);
    assert_eq!(task.get_fd(&pcb, 1), Some(7));
    assert_eq!(task.alloc_fd(&mut pcb), Some(3));
    task.set_fd(&mut pcb, 3, 8);
    assert_eq!(task.alloc_fd(&mut pcb), None);
    task.set_fd(&mut pcb, 50, 8);
    assert_eq!(pcb.fd_table.len(), 4);
}

#[test]
fn names_are_resolved() {
    let (task, mut pcb) = process();
    task.clear_fd(&mut pcb, 2);
    assert_eq!(task.fd_resolve(&pcb, 2, "/x"), Ok(Resolved::Absolute));
    assert_eq!(task.fd_resolve(&pcb, -100, "x"), Ok(Resolved::RelativeTo(55)));
    assert_eq!(task.fd_resolve(&pcb, 1, "x"), Ok(Resolved::RelativeTo(101)));
    assert_eq!(task.fd_resolve(&pcb, 2, "x"), Err(Errno::EBADF));
    assert_eq!(task.fd_resolve(&pcb, 3, "x"), Err(Errno::EBADF));
    assert_eq!(task.fd_resolve(&pcb, -1, ""), Err(Errno::EBADF));
}

#[test]
fn segments_are_found_by_address() {
    let (task, mut pcb) = process();
    pcb.memset.areas.push(MemArea {
        mtype: MemType::Mmap,
        mtrackers: vec![track(0x5000, 0x9000)],
        file: None,
        offset: 0,
        start: 0x5000,
        len: 0x1000,
    });
    pcb.memset.areas.push(MemArea {
        mtype: MemType::CodeSection,
        mtrackers: Vec::new(),
        file: Some(4),
        offset: 0x200,
        start: 0x5000,
        len: 0x3000,
    });
    assert_eq!(task.get_elf_segment_for_addr(&pcb, 0x6abc), Some((4, 0x1200, 0x3000)));
    assert_eq!(task.get_elf_segment_for_addr(&pcb, 0x5abc), Some((4, 0x200, 0x3000)));
    assert_eq!(task.get_elf_segment_for_addr(&pcb, 0x8000), None);
}
