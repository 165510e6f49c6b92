use monkeyos::errno::Errno;
use monkeyos::ipc::{
    MessageQueue, MessageTable, Semaphore, SemaphoreTable, SharedMemoryTable, GETVAL, IPC_CREAT,
    IPC_NOWAIT, IPC_RMID, MSG_EXCEPT, MSG_NOERROR, SETVAL,
};
use monkeyos::memset::{FrameTracker, MappingFlags, PageEntry};
use monkeyos::task::{ProcessControlBlock, TrapFrame, UserTask};
use monkeyos::user::UserTaskContainer;

fn container() -> (UserTaskContainer, ProcessControlBlock) {
    let cx = TrapFrame {
        sepc: 0,
        ra: 0,
        sp: 0,
        ret: 0,
        arg0: 0,
        arg1: 0,
        arg2: 0,
        tls: 0,
        syscall: 0,
    };
    let (task, pcb) = UserTask::new(None, 1, 0, Vec::new(), vec![0; 8], cx);
    (UserTaskContainer { task, tid: 1 }, pcb)
}

fn frames(first: usize, n: usize) -> Vec<FrameTracker> {
    let mut out = Vec::new();
    for i in 0..n {
        out.push(FrameTracker { paddr: first + i * 4096 });
    }
    out
}

fn message(mtype: i64, text: &[u8]) -> Vec<u8> {
    let mut out = mtype.to_le_bytes().to_vec();
    out.extend_from_slice(text);
    out
}

#[test]
fn semaphore_set_is_zero() {
    let sem = Semaphore::new(7, 3);
    assert_eq!(sem.key, 7);
    assert_eq!(sem.nsems, 3);
    assert_eq!(sem.values, vec![0, 0, 0]);
}

#[test]
fn semaphores_are_set_and_read() {
    let (c, _) = container();
    let mut sems = SemaphoreTable::new();
    assert_eq!(c.sys_semget(&mut sems, 5, 2, 0), Err(Errno::ENOENT));
    assert_eq!(c.sys_semget(&mut sems, 5, 2, IPC_CREAT), Ok(5));
    assert_eq!(c.sys_semget(&mut sems, 5, 9, 0), Ok(5));
    assert_eq!(c.sys_semget(&mut sems, 0, 1, IPC_CREAT), Ok(6));
    assert_eq!(c.sys_semctl(&mut sems, 5, 1, SETVAL, 42), Ok(0));
    assert_eq!(c.sys_semctl(&mut sems, 5, 1, GETVAL, 0), Ok(42));
    assert_eq!(c.sys_semctl(&mut sems, 5, 0, GETVAL, 0), Ok(0));
    assert_eq!(c.sys_semctl(&mut sems, 5, 2, GETVAL, 0), Err(Errno::EINVAL));
    assert_eq!(c.sys_semctl(&mut sems, 5, 2, SETVAL, 1), Err(Errno::EINVAL));
    assert_eq!(c.sys_semctl(&mut sems, 5, 0, 99, 1), Ok(0));
    assert_eq!(c.sys_semctl(&mut sems, 5, 0, SETVAL, u32::MAX as usize), Ok(0));
    assert_eq!(c.sys_semctl(&mut sems, 5, 0, GETVAL, 0), Ok(usize::MAX));
    assert_eq!(c.sys_semop(&sems, 5, 0, 0), Ok(0));
    assert_eq!(c.sys_semctl(&mut sems, 5, 0, IPC_RMID, 0), Ok(0));
    assert_eq!(c.sys_semop(&sems, 5, 0, 0), Err(Errno::EINVAL));
    assert_eq!(c.sys_semctl(&mut sems, 5, 0, GETVAL, 0), Err(Errno::EINVAL));
}

#[test]
fn first_private_keys() {
    let (c, _) = container();
    let mut sems = SemaphoreTable::new();
    assert_eq!(c.sys_semget(&mut sems, 0, 1, IPC_CREAT), Ok(1));
    assert_eq!(c.sys_semget(&mut sems, 0, 1, IPC_CREAT), Ok(2));
    assert_eq!(c.sys_semget(&mut sems, 0, 1, 0), Err(Errno::ENOENT));
    let mut queues = MessageTable::new();
    assert_eq!(c.sys_msgget(&mut queues, 0, IPC_CREAT), Ok(1001));
    assert_eq!(c.sys_msgget(&mut queues, 0, IPC_CREAT), Ok(1002));
}

#[test]
fn queue_limits() {
    let mut queue = MessageQueue::new(3);
    assert_eq!(queue.key, 3);
    assert!(queue.can_send(16384));
    assert!(!queue.can_send(16385));
    assert!(queue.send_message(1, vec![0; 16384]));
    assert!(!queue.send_message(1, vec![0; 1]));
    assert!(queue.send_message(1, Vec::new()));
    assert_eq!(queue.current_bytes, 16384);
    for _ in 2..40 {
        assert!(queue.send_message(1, Vec::new()));
    }
    assert_eq!(queue.messages.len(), 40);
    assert!(!queue.send_message(1, Vec::new()));
}

#[test]
fn receive_picks_by_type() {
    let mut queue = MessageQueue::new(3);
    for (t, b) in [(5i64, 50u8), (3, 30), (7, 70), (3, 31)] {
        assert!(queue.send_message(t, vec![b]));
    }
    assert_eq!(queue.receive_message(-6, false).unwrap().mtext, vec![30]);
    assert_eq!(queue.receive_message(3, false).unwrap().mtext, vec![31]);
    assert_eq!(queue.receive_message(5, true).unwrap().mtext, vec![70]);
    assert!(queue.receive_message(9, false).is_none());
    assert!(queue.receive_message(-4, false).is_none());
    assert_eq!(queue.current_bytes, 1);
    assert_eq!(queue.receive_message(0, false).unwrap().mtype, 5);
    assert!(queue.receive_message(0, false).is_none());
    assert_eq!(queue.current_bytes, 0);
}

#[test]
fn messages_go_through_the_system_calls() {
    let (c, _) = container();
    let mut queues = MessageTable::new();
    let m = message(-2, b"hello");
    assert_eq!(c.sys_msgsnd(&mut queues, 9, Some(&m), 5, 0), Err(Errno::EINVAL));
    assert_eq!(c.sys_msgget(&mut queues, 9, 0), Err(Errno::ENOENT));
    assert_eq!(c.sys_msgget(&mut queues, 9, IPC_CREAT), Ok(9));
    assert_eq!(c.sys_msgsnd(&mut queues, 9, None, 5, 0), Err(Errno::EFAULT));
    assert_eq!(c.sys_msgsnd(&mut queues, 9, Some(&m), 5, 0), Ok(0));
    let (r, store) = c.sys_msgrcv(&mut queues, 9, 0x8000, true, 10, 0, 0);
    assert_eq!(r, Ok(5));
    let store = store.unwrap();
    assert_eq!(store.addr, 0x8000);
    assert_eq!(store.bytes, m);
    let (r, store) = c.sys_msgrcv(&mut queues, 9, 0x8000, true, 10, 0, IPC_NOWAIT);
    assert_eq!(r, Err(Errno::ENOMSG));
    assert!(store.is_none());
}

#[test]
fn long_messages_are_cut() {
    let (c, _) = container();
    let mut queues = MessageTable::new();
    assert_eq!(c.sys_msgget(&mut queues, 9, IPC_CREAT), Ok(9));
    let m = message(1, b"hello");
    assert_eq!(c.sys_msgsnd(&mut queues, 9, Some(&m), 5, 0), Ok(0));
    assert_eq!(c.sys_msgsnd(&mut queues, 9, Some(&m), 5, 0), Ok(0));
    assert_eq!(c.sys_msgsnd(&mut queues, 9, Some(&m), 5, 0), Ok(0));
    let (r, store) = c.sys_msgrcv(&mut queues, 9, 16, true, 2, 1, 0);
    assert_eq!(r, Err(Errno::E2BIG));
    assert_eq!(store.unwrap().bytes, message(1, b"he"));
    let (r, store) = c.sys_msgrcv(&mut queues, 9, 16, true, 2, 1, MSG_NOERROR);
    assert_eq!(r, Ok(2));
    assert_eq!(store.unwrap().bytes.len(), 10);
    let (r, store) = c.sys_msgrcv(&mut queues, 9, 16, false, 5, 2, MSG_EXCEPT);
    assert_eq!(r, Err(Errno::EFAULT));
    assert!(store.is_none());
    let (r, _) = c.sys_msgrcv(&mut queues, 9, 16, true, 5, 0, 0);
    assert_eq!(r, Err(Errno::ENOMSG));
}

#[test]
fn full_queue_and_removal() {
    let (c, _) = container();
    let mut queues = MessageTable::new();
    assert_eq!(c.sys_msgget(&mut queues, 9, IPC_CREAT), Ok(9));
    let m = message(1, &[0; 16384]);
    assert_eq!(c.sys_msgsnd(&mut queues, 9, Some(&m), 16384, 0), Ok(0));
    assert_eq!(c.sys_msgsnd(&mut queues, 9, Some(&m), 1, IPC_NOWAIT), Err(Errno::EAGAIN));
    assert_eq!(c.sys_msgsnd(&mut queues, 9, Some(&m), 1, 0), Ok(0));
    assert_eq!(queues.queues[&9].messages.len(), 1);
    assert_eq!(c.sys_msgctl(&mut queues, 9, 2, 0), Ok(0));
    assert_eq!(c.sys_msgctl(&mut queues, 9, 77, 0), Ok(0));
    assert_eq!(c.sys_msgctl(&mut queues, 9, IPC_RMID, 0), Ok(0));
    assert_eq!(c.sys_msgctl(&mut queues, 9, IPC_RMID, 0), Err(Errno::EINVAL));
}

#[test]
fn shared_memory_is_made_and_attached() {
    let (c, mut pcb) = container();
    let mut shared = SharedMemoryTable::new();
    assert_eq!(c.sys_shmget(&mut shared, 4, 5000, 0, Vec::new()), Err(Errno::ENOENT));
    assert_eq!(c.shmget_pages(&shared, 4, 5000, 0o1000), 2);
    assert_eq!(c.sys_shmget(&mut shared, 4, 5000, 0o1000, frames(0x10_0000, 2)), Ok(4));
    assert_eq!(c.shmget_pages(&shared, 4, 5000, 0o1000), 0);
    assert_eq!(c.sys_shmget(&mut shared, 4, 1, 0, Vec::new()), Ok(4));
    assert_eq!(c.sys_shmget(&mut shared, 0, 1, 0o1000, frames(0x20_0000, 1)), Ok(5));
    assert_eq!(c.sys_shmat(&shared, &mut pcb, 6, 0, 0), Err(Errno::ENOENT));
    assert_eq!(c.sys_shmat(&shared, &mut pcb, 4, 0, 0), Ok(0x4000_0000));
    assert_eq!(
        pcb.page_table.entries[&0x4000_1000],
        PageEntry { paddr: 0x10_1000, flags: MappingFlags::URWX }
    );
    assert_eq!(c.sys_shmat(&shared, &mut pcb, 5, 0, 0), Ok(0x4000_2000));
    assert_eq!(c.sys_shmat(&shared, &mut pcb, 5, 0x5000, 0), Ok(0x5000));
    assert_eq!(pcb.shms.len(), 3);
    assert_eq!(pcb.shms[0].size, 8192);
    assert_eq!(c.sys_shmctl(&mut shared, 4, 1, 0), Err(Errno::EPERM));
    assert!(!shared.segments[&4].deleted);
    assert_eq!(c.sys_shmctl(&mut shared, 4, 0, 0), Ok(0));
    assert!(shared.segments[&4].deleted);
    assert_eq!(c.sys_shmctl(&mut shared, 99, 0, 0), Ok(0));
}

#[test]
fn queue_stays_within_its_limits() {
    let mut q = MessageQueue::new(3);
    for i in 0..45 {
        assert_eq!(q.send_message(i + 1, vec![0; 10]), i < 40);
    }
    assert_eq!((q.messages.len(), q.current_bytes), (40, 400));
    assert_eq!(q.receive_message(-5, false).unwrap().mtype, 1);
    assert_eq!(q.receive_message(7, false).unwrap().mtype, 7);
    assert!(!q.send_message(1, vec![0; 16384 - 379]));
    assert!(q.send_message(1, vec![0; 16384 - 380]));
    assert_eq!((q.messages.len(), q.current_bytes), (39, 16384));
    assert!(!q.send_message(1, vec![0]));
    assert!(q.send_message(1, Vec::new()));
    assert_eq!((q.key, q.max_bytes, q.max_messages), (3, 16384, 40));
}

#[test]
fn shared_memory_is_made_on_request_only() {
    let (c, _) = container();
    let mut shared = SharedMemoryTable::new();
    let other_bits = 1000 & !IPC_CREAT;
    assert_eq!(c.shmget_pages(&shared, 4, 5000, other_bits), 0);
    assert_eq!(c.sys_shmget(&mut shared, 4, 5000, other_bits, Vec::new()), Err(Errno::ENOENT));
    assert_eq!(c.sys_shmget(&mut shared, 4, 1, IPC_CREAT, frames(0x10_0000, 1)), Ok(4));
}
