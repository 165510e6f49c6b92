//! Shared memory, semaphores and message queues.
use std::collections::BTreeMap;
use std::sync::Arc;
use vstd::prelude::*;

use crate::errno::{Errno, SysResult};
use crate::memset::{
    areas_end, clone_frames, shm_views, shms_end, table_with, FrameTracker,
    MapedSharedMemory, MappingFlags, MemType, SharedMemory,
};
use crate::task::ProcessControlBlock;
use crate::user::UserTaskContainer;
use crate::usermem::{from_le_bytes, le_bytes, le_value, to_le_bytes, UserWrite};
use crate::vfs::{max_int, min_int, min_usize, page_count, pages_for, PAGE_SIZE};

verus! {

/// The key that asks for an object of one's own.
pub const IPC_PRIVATE: usize = 0;

/// The flag that asks for an object to be made.
pub const IPC_CREAT: usize = 0o1000;

/// The flag that asks not to be kept waiting.
pub const IPC_NOWAIT: usize = 0o4000;

/// The flag that asks for long messages to be cut.
pub const MSG_NOERROR: usize = 0o10000;

/// The flag that asks for any type but the given one.
pub const MSG_EXCEPT: usize = 0o20000;

/// The command that removes an object.
pub const IPC_RMID: usize = 0;

/// The command that reads a semaphore.
pub const GETVAL: usize = 12;

/// The command that sets a semaphore.
pub const SETVAL: usize = 16;

/// A set of semaphores.
#[derive(Clone, Debug)]
pub struct Semaphore {
    pub key: usize,
    pub nsems: usize,
    pub values: Vec<i32>,
}

impl Semaphore {
    /// There are as many values as semaphores.
    pub open spec fn wf(&self) -> bool {
        self.values@.len() == self.nsems
    }

    /// A set of semaphores, all zero.
    pub fn new(key: usize, nsems: usize) -> (r: Semaphore)
        ensures
            r.wf(),
            r.key == key,
            r.nsems == nsems,
            r.values@ == Seq::new(nsems as nat, |i: int| 0i32),
    {
        let values: Vec<i32> = vec![0; nsems];
        assert(values@ =~= Seq::new(nsems as nat, |i: int| 0i32));
        Semaphore { key, nsems, values }
    }
}

/// A message: its type and its text.
#[derive(Clone, Debug)]
pub struct Message {
    pub mtype: i64,
    pub mtext: Vec<u8>,
}

/// A queue of messages with limits on their number and on their bytes.
#[derive(Debug)]
pub struct MessageQueue {
    pub key: usize,
    pub messages: Vec<Message>,
    pub max_bytes: usize,
    pub current_bytes: usize,
    pub max_messages: usize,
}

/// The bytes of all messages.
pub open spec fn total_bytes(messages: Seq<Message>) -> int
    decreases messages.len(),
{
    if messages.len() == 0 {
        0
    } else {
        total_bytes(messages.drop_last()) + messages.last().mtext@.len()
    }
}

proof fn lemma_total_remove(messages: Seq<Message>, i: int)
    requires
        0 <= i < messages.len(),
    ensures
        total_bytes(messages.remove(i)) == total_bytes(messages) - messages[i].mtext@.len(),
        total_bytes(messages.remove(i)) >= 0,
    decreases messages.len(),
{
    let rest = messages.drop_last();
    if i == messages.len() - 1 {
        assert(messages.remove(i) =~= rest);
        lemma_total_nonnegative(rest);
    } else {
        lemma_total_remove(rest, i);
        assert(messages.remove(i).drop_last() =~= rest.remove(i));
        assert(messages.remove(i).last() == messages.last());
    }
}

proof fn lemma_total_nonnegative(messages: Seq<Message>)
    ensures
        total_bytes(messages) >= 0,
    decreases messages.len(),
{
    if messages.len() > 0 {
        lemma_total_nonnegative(messages.drop_last());
    }
}

/// The message has the wanted type, or, with `except`, any other.
pub open spec fn type_matches(message: Message, mtype: i64, except: bool) -> bool {
    if except {
        message.mtype != mtype
    } else {
        message.mtype == mtype
    }
}

/// The message at `i` is the one that a receiver gets: the first of all for type 0; the first of
/// the type, or not of the type, for a positive one; for a negative one the first of the smallest
/// type that is not above its absolute value.
pub open spec fn is_pick(messages: Seq<Message>, mtype: i64, except: bool, i: int) -> bool {
    &&& 0 <= i < messages.len()
    &&& if mtype == 0 {
        i == 0
    } else if mtype > 0 {
        &&& type_matches(messages[i], mtype, except)
        &&& forall|j: int|
            0 <= j < i ==> !type_matches(#[trigger] messages[j], mtype, except)
    } else {
        &&& messages[i].mtype <= -mtype
        &&& forall|j: int|
            0 <= j < messages.len() && (#[trigger] messages[j]).mtype <= -mtype ==> {
                &&& messages[i].mtype <= messages[j].mtype
                &&& j < i ==> messages[i].mtype < messages[j].mtype
            }
    }
}

/// Some message suits the receiver.
pub open spec fn has_pick(messages: Seq<Message>, mtype: i64, except: bool) -> bool {
    exists|i: int| is_pick(messages, mtype, except, i)
}

/// What an attempt to send a message leads to: it is appended where there is room for it, and else
/// nothing changes.
pub open spec fn queue_sent(
    before: MessageQueue,
    after: MessageQueue,
    message: Message,
    done: bool,
) -> bool {
    &&& done == before.has_room(message.mtext@.len() as int)
    &&& done ==> {
        &&& after.messages@ == before.messages@.push(message)
        &&& after.current_bytes == before.current_bytes + message.mtext@.len()
        &&& after == (MessageQueue {
            messages: after.messages,
            current_bytes: after.current_bytes,
            ..before
        })
    }
    &&& !done ==> after == before
}

/// What an attempt to receive a message leads to: the one that suits is taken out, and where there is
/// none nothing changes.
pub open spec fn queue_received(
    before: MessageQueue,
    after: MessageQueue,
    mtype: i64,
    except: bool,
    result: Option<Message>,
) -> bool {
    match result {
        Some(message) => exists|i: int|
            {
                &&& is_pick(before.messages@, mtype, except, i)
                &&& message == #[trigger] before.messages@[i]
                &&& after.messages@ == before.messages@.remove(i)
                &&& after.current_bytes == before.current_bytes - message.mtext@.len()
                &&& after == (MessageQueue {
                    messages: after.messages,
                    current_bytes: after.current_bytes,
                    ..before
                })
            },
        None => !has_pick(before.messages@, mtype, except) && after == before,
    }
}

/// One attempt to send or to receive a message lies between the two states of a queue.
pub open spec fn queue_step(before: MessageQueue, after: MessageQueue) -> bool {
    ||| exists|message: Message, done: bool| queue_sent(before, after, message, done)
    ||| exists|mtype: i64, except: bool, result: Option<Message>|
        mtype > i64::MIN && #[trigger] queue_received(before, after, mtype, except, result)
}

/// The state after `i` follows from that at `i` by one attempt.
pub open spec fn queue_steps_at(states: Seq<MessageQueue>, i: int) -> bool {
    queue_step(states[i], states[i + 1])
}

impl MessageQueue {
    /// The count of bytes is right and within the limit.
    pub open spec fn wf(&self) -> bool {
        &&& self.current_bytes == total_bytes(self.messages@)
        &&& self.current_bytes <= self.max_bytes
        &&& self.messages@.len() <= self.max_messages
    }

    /// There is room for a message of the size.
    pub open spec fn has_room(&self, msg_size: int) -> bool {
        self.messages@.len() < self.max_messages && self.current_bytes + msg_size
            <= self.max_bytes
    }

    /// An empty queue for 40 messages of 16384 bytes altogether.
    pub open spec fn is_new(&self, key: usize) -> bool {
        &&& self.key == key
        &&& self.messages@.len() == 0
        &&& self.max_bytes == 16384
        &&& self.current_bytes == 0
        &&& self.max_messages == 40
    }

    /// An empty queue for 40 messages of 16384 bytes altogether.
    pub fn new(key: usize) -> (r: MessageQueue)
        ensures
            r.wf(),
            r.is_new(key),
    {
        MessageQueue {
            key,
            messages: Vec::new(),
            max_bytes: 16384,
            current_bytes: 0,
            max_messages: 40,
        }
    }

    /// Whether there is room for a message of the size.
    pub fn can_send(&self, msg_size: usize) -> (r: bool)
        requires
            self.messages@.len() < self.max_messages ==> self.current_bytes + msg_size
                <= usize::MAX,
        ensures
            r == self.has_room(msg_size as int),
    {
        self.messages.len() < self.max_messages && self.current_bytes + msg_size <= self.max_bytes
    }

    /// Appends a message if there is room.
    pub fn send_message(&mut self, mtype: i64, data: Vec<u8>) -> (r: bool)
        requires
            old(self).wf(),
            old(self).messages@.len() < old(self).max_messages ==> old(self).current_bytes
                + data@.len() <= usize::MAX,
        ensures
            final(self).wf(),
            queue_sent(*old(self), *final(self), Message { mtype, mtext: data }, r),
    {
        if self.can_send(data.len()) {
            let ghost before = self.messages@;
            self.current_bytes = self.current_bytes + data.len();
            self.messages.push(Message { mtype, mtext: data });
            assert(self.messages@.drop_last() =~= before);
            true
        } else {
            false
        }
    }

    /// Takes out the message that suits the type.
    pub fn receive_message(&mut self, mtype: i64, except: bool) -> (r: Option<Message>)
        requires
            old(self).wf(),
            mtype > i64::MIN,
        ensures
            final(self).wf(),
            queue_received(*old(self), *final(self), mtype, except, r),
    {
        match self.position(mtype, except) {
            Some(index) => {
                proof {
                    lemma_total_remove(self.messages@, index as int);
                    assert(is_pick(self.messages@, mtype, except, index as int));
                }
                let message: Message = self.messages.remove(index);
                self.current_bytes = self.current_bytes - message.mtext.len();
                Some(message)
            },
            None => None,
        }
    }

    fn position(&self, mtype: i64, except: bool) -> (r: Option<usize>)
        requires
            mtype > i64::MIN,
        ensures
            match r {
                Some(i) => is_pick(self.messages@, mtype, except, i as int),
                None => !has_pick(self.messages@, mtype, except),
            },
    {
        if mtype == 0 {
            if self.messages.len() == 0 {
                return None;
            }
            return Some(0);
        }
        if mtype > 0 {
            let mut i: usize = 0;
            while i < self.messages.len()
                invariant
                    i <= self.messages@.len(),
                    mtype > 0,
                    forall|j: int|
                        0 <= j < i ==> !type_matches(#[trigger] self.messages@[j], mtype, except),
                decreases self.messages@.len() - i,
            {
                let same: bool = self.messages[i].mtype == mtype;
                if same != except {
                    assert(type_matches(self.messages@[i as int], mtype, except));
                    return Some(i);
                }
                i = i + 1;
            }
            return None;
        }
        let abs_type: i64 = -mtype;
        let mut best: Option<usize> = None;
        let mut i: usize = 0;
        while i < self.messages.len()
            invariant
                i <= self.messages@.len(),
                mtype < 0,
                abs_type == -mtype,
                match best {
                    Some(b) => {
                        &&& b < i
                        &&& self.messages@[b as int].mtype <= abs_type
                        &&& forall|j: int|
                            0 <= j < i && (#[trigger] self.messages@[j]).mtype <= abs_type ==> {
                                &&& self.messages@[b as int].mtype <= self.messages@[j].mtype
                                &&& j < b ==> self.messages@[b as int].mtype
                                    < self.messages@[j].mtype
                            }
                    },
                    None => forall|j: int|
                        0 <= j < i ==> (#[trigger] self.messages@[j]).mtype > abs_type,
                },
            decreases self.messages@.len() - i,
        {
            if self.messages[i].mtype <= abs_type {
                match best {
                    Some(b) => {
                        if self.messages[i].mtype < self.messages[b].mtype {
                            best = Some(i);
                        }
                    },
                    None => {
                        best = Some(i);
                    },
                }
            }
            i = i + 1;
        }
        best
    }
}

/// A key that is not taken: one above the largest, or one above `base` where there is none.
pub open spec fn is_next_key<V>(table: Map<usize, V>, base: usize, key: int) -> bool {
    if table.dom().is_empty() {
        key == base + 1
    } else {
        &&& 1 <= key <= usize::MAX
        &&& table.contains_key((key - 1) as usize)
        &&& forall|k: usize| #[trigger] table.contains_key(k) ==> k < key
    }
}

spec fn at_most(key: usize, largest: Option<usize>) -> bool {
    largest is Some && key <= largest->0
}

fn next_key<V>(table: &BTreeMap<usize, V>, base: usize) -> (r: usize)
    requires
        base < usize::MAX,
        !table@.contains_key(usize::MAX),
    ensures
        is_next_key(table@, base, r as int),
        !table@.contains_key(r),
{
    let mut largest: Option<usize> = None;
    for key in keys: table.keys()
        invariant
            keys.seq().unref().to_set() == table@.dom(),
            forall|j: int|
                0 <= j < keys.index() ==> at_most(#[trigger] keys.seq().unref()[j], largest),
            largest matches Some(l) ==> table@.contains_key(l),
        ensures
            forall|k: usize| #[trigger] table@.contains_key(k) ==> at_most(k, largest),
    {
        proof {
            let j = keys.index() as int;
            assert(keys.seq().unref()[j] == *key);
            assert(keys.seq().unref().to_set().contains(*key));
            assert(table@.contains_key(*key));
        }
        match largest {
            Some(l) => {
                if *key > l {
                    largest = Some(*key);
                }
            },
            None => {
                largest = Some(*key);
            },
        }
    }
    proof {
        if largest is Some {
            assert(table@.contains_key(largest->0));
        } else {
            assert(table@.dom() =~= Set::empty());
        }
    }
    match largest {
        Some(l) => l + 1,
        None => base + 1,
    }
}

/// All sets of semaphores.
pub struct SemaphoreTable {
    pub sets: BTreeMap<usize, Semaphore>,
}

impl View for SemaphoreTable {
    type V = Map<usize, Semaphore>;

    open spec fn view(&self) -> Map<usize, Semaphore> {
        self.sets@
    }
}

impl SemaphoreTable {
    /// Every set is well formed.
    pub open spec fn wf(&self) -> bool {
        forall|k: usize| #[trigger] self@.contains_key(k) ==> self@[k].wf()
    }

    /// No sets.
    pub fn new() -> (r: SemaphoreTable)
        ensures
            r.wf(),
            r@ == Map::<usize, Semaphore>::empty(),
    {
        SemaphoreTable { sets: BTreeMap::new() }
    }
}

/// All message queues.
pub struct MessageTable {
    pub queues: BTreeMap<usize, MessageQueue>,
}

impl View for MessageTable {
    type V = Map<usize, MessageQueue>;

    open spec fn view(&self) -> Map<usize, MessageQueue> {
        self.queues@
    }
}

impl MessageTable {
    /// Every queue is well formed.
    pub open spec fn wf(&self) -> bool {
        forall|k: usize| #[trigger] self@.contains_key(k) ==> self@[k].wf()
    }

    /// No queues.
    pub fn new() -> (r: MessageTable)
        ensures
            r.wf(),
            r@ == Map::<usize, MessageQueue>::empty(),
    {
        MessageTable { queues: BTreeMap::new() }
    }
}

/// All shared memory.
pub struct SharedMemoryTable {
    pub segments: BTreeMap<usize, SharedMemory>,
}

impl View for SharedMemoryTable {
    type V = Map<usize, SharedMemory>;

    open spec fn view(&self) -> Map<usize, SharedMemory> {
        self.segments@
    }
}

impl SharedMemoryTable {
    /// Every frame lies at a page boundary.
    pub open spec fn wf(&self) -> bool {
        forall|k: usize, i: int|
            self@.contains_key(k) && 0 <= i < self@[k].trackers@.len() ==> (
            #[trigger] self@[k].trackers@[i]).paddr % PAGE_SIZE == 0
    }

    /// No shared memory.
    pub fn new() -> (r: SharedMemoryTable)
        ensures
            r.wf(),
            r@ == Map::<usize, SharedMemory>::empty(),
    {
        SharedMemoryTable { segments: BTreeMap::new() }
    }
}

/// The key that a call means: the one that was given, or for a private object one that is not
/// taken.
pub open spec fn meant_key<V>(table: Map<usize, V>, base: usize, key: usize, actual: usize) -> bool {
    if key == IPC_PRIVATE {
        is_next_key(table, base, actual as int)
    } else {
        actual == key
    }
}

/// A private object can still get a key.
pub open spec fn key_available<V>(table: Map<usize, V>, key: usize) -> bool {
    key == IPC_PRIVATE ==> !table.contains_key(usize::MAX)
}

fn actual_key<V>(table: &BTreeMap<usize, V>, base: usize, key: usize) -> (r: usize)
    requires
        base < usize::MAX,
        key_available(table@, key),
    ensures
        meant_key(table@, base, key, r),
{
    if key == IPC_PRIVATE {
        next_key(table, base)
    } else {
        key
    }
}

/// Shared memory is to be made: it is asked for, and there is none with the key. A private key is
/// always a new one. Only `IPC_CREAT` asks for it, as with semaphores and message queues; no other
/// bit of the flags does, neither access rights nor anything else.
pub open spec fn makes_segment(table: Map<usize, SharedMemory>, key: usize, shmflg: usize) -> bool {
    shmflg & IPC_CREAT > 0 && (key == IPC_PRIVATE || !table.contains_key(key))
}

/// Shared memory is attached here or above unless the program asks otherwise.
pub const SHM_BASE: usize = 0x4000_0000;

/// Private message queues get keys above this number.
pub const MSG_KEY_BASE: usize = 1000;

/// Where shared memory goes: where the program asks, or else behind all that is mapped, but not
/// below the base.
pub open spec fn attach_addr(pcb: ProcessControlBlock, shmaddr: usize) -> int {
    if shmaddr == 0 {
        max_int(
            max_int(areas_end(pcb.memset@), shms_end(shm_views(pcb.shms@))),
            SHM_BASE as int,
        )
    } else {
        shmaddr as int
    }
}

/// What a command on semaphores does to the table, and what it answers.
pub open spec fn semaphores_controlled(
    before: Map<usize, Semaphore>,
    after: Map<usize, Semaphore>,
    semid: usize,
    semnum: usize,
    cmd: usize,
    arg: usize,
    result: SysResult,
) -> bool {
    let set = before[semid];
    if !before.contains_key(semid) {
        result == Err::<usize, Errno>(Errno::EINVAL) && after == before
    } else if cmd == SETVAL {
        if semnum < set.nsems {
            &&& result == Ok::<usize, Errno>(0)
            &&& after == before.insert(semid, after[semid])
            &&& after[semid].values@ == set.values@.update(semnum as int, arg as i32)
            &&& after[semid].nsems == set.nsems
            &&& after[semid].key == set.key
        } else {
            result == Err::<usize, Errno>(Errno::EINVAL) && after == before
        }
    } else if cmd == GETVAL {
        &&& after == before
        &&& result == (if semnum < set.nsems {
            Ok::<usize, Errno>(set.values@[semnum as int] as usize)
        } else {
            Err(Errno::EINVAL)
        })
    } else if cmd == IPC_RMID {
        result == Ok::<usize, Errno>(0) && after == before.remove(semid)
    } else {
        result == Ok::<usize, Errno>(0) && after == before
    }
}

/// Frames that are shared from now on.
fn share_frames(frames: Vec<FrameTracker>) -> (r: Vec<Arc<FrameTracker>>)
    ensures
        r@ == frames@.map_values(|f: FrameTracker| Arc::new(f)),
{
    let mut out: Vec<Arc<FrameTracker>> = Vec::new();
    let mut i: usize = 0;
    while i < frames.len()
        invariant
            i <= frames@.len(),
            out@ == frames@.map_values(|f: FrameTracker| Arc::new(f)).take(i as int),
        decreases frames@.len() - i,
    {
        out.push(Arc::new(FrameTracker { paddr: frames[i].paddr }));
        i = i + 1;
        assert(out@ =~= frames@.map_values(|f: FrameTracker| Arc::new(f)).take(i as int));
    }
    assert(out@ =~= frames@.map_values(|f: FrameTracker| Arc::new(f)));
    out
}

impl UserTaskContainer {
    /// How many frames `sys_shmget` wants: none where the memory exists already or is not to be
    /// made.
    pub fn shmget_pages(
        &self,
        shared: &SharedMemoryTable,
        key: usize,
        size: usize,
        shmflg: usize,
    ) -> (r: usize)
        ensures
            r == (if makes_segment(shared@, key, shmflg) {
                page_count(size as int)
            } else {
                0
            }),
    {
        if (key == IPC_PRIVATE || !shared.segments.contains_key(&key)) && shmflg & IPC_CREAT
            > 0 {
            pages_for(size)
        } else {
            0
        }
    }

    /// Finds or makes shared memory. `frames` are the frames that `shmget_pages` asked for.
    pub fn sys_shmget(
        &self,
        shared: &mut SharedMemoryTable,
        key: usize,
        size: usize,
        shmflg: usize,
        frames: Vec<FrameTracker>,
    ) -> (r: SysResult)
        requires
            old(shared).wf(),
            key_available(old(shared)@, key),
            makes_segment(old(shared)@, key, shmflg) ==> frames@.len() == page_count(size as int),
            forall|i: int| 0 <= i < frames@.len() ==> (#[trigger] frames@[i]).paddr % PAGE_SIZE == 0,
        ensures
            final(shared).wf(),
            exists|actual: usize|
                {
                    &&& #[trigger] meant_key(old(shared)@, 0, key, actual)
                    &&& if old(shared)@.contains_key(actual) {
                        r == Ok::<usize, Errno>(actual) && *final(shared) == *old(shared)
                    } else if shmflg & IPC_CREAT > 0 {
                        &&& r == Ok::<usize, Errno>(actual)
                        &&& final(shared)@ == old(shared)@.insert(actual, final(shared)@[actual])
                        &&& final(shared)@[actual].trackers@ == frames@.map_values(
                            |f: FrameTracker| Arc::new(f),
                        )
                        &&& !final(shared)@[actual].deleted
                    } else {
                        r == Err::<usize, Errno>(Errno::ENOENT) && *final(shared) == *old(shared)
                    }
                },
    {
        let ghost before = *shared;
        let actual: usize = actual_key(&shared.segments, 0, key);
        assert(meant_key(before@, 0, key, actual));
        if shared.segments.contains_key(&actual) {
            return Ok(actual);
        }
        if shmflg & IPC_CREAT > 0 {
            let segment = SharedMemory::new(share_frames(frames));
            let _ = shared.segments.insert(actual, segment);
            assert(shared@ =~= before@.insert(actual, shared@[actual]));
            return Ok(actual);
        }
        Err(Errno::ENOENT)
    }

    /// Attaches shared memory.
    pub fn sys_shmat(
        &self,
        shared: &SharedMemoryTable,
        pcb: &mut ProcessControlBlock,
        shmid: usize,
        shmaddr: usize,
        _shmflg: usize,
    ) -> (r: SysResult)
        requires
            shared.wf(),
            forall|i: int|
                0 <= i < old(pcb).memset@.len() && (#[trigger] old(pcb).memset@[i]).mtype
                    != MemType::Stack ==> old(pcb).memset@[i].start + old(pcb).memset@[i].len
                    <= usize::MAX,
            forall|i: int|
                0 <= i < old(pcb).shms@.len() ==> (#[trigger] old(pcb).shms@[i]).start
                    + old(pcb).shms@[i].size <= usize::MAX,
            shared@.contains_key(shmid) ==> {
                &&& attach_addr(*old(pcb), shmaddr) % PAGE_SIZE as int == 0
                &&& attach_addr(*old(pcb), shmaddr) + shared@[shmid].trackers@.len() * PAGE_SIZE
                    <= usize::MAX
            },
        ensures
            if shared@.contains_key(shmid) {
                let vaddr = attach_addr(*old(pcb), shmaddr);
                let trackers = shared@[shmid].trackers@;
                let shm = crate::memset::ShmView {
                    key: shmid,
                    trackers,
                    start: vaddr as usize,
                    size: (trackers.len() * PAGE_SIZE) as usize,
                };
                &&& r == Ok::<usize, Errno>(vaddr as usize)
                &&& *final(pcb) == (ProcessControlBlock {
                    page_table: final(pcb).page_table,
                    shms: final(pcb).shms,
                    ..*old(pcb)
                })
                &&& final(pcb).page_table@ == table_with(
                    old(pcb).page_table@,
                    crate::memset::shm_tracks(shm),
                    MappingFlags::URWX,
                )
                &&& shm_views(final(pcb).shms@) == shm_views(old(pcb).shms@).push(shm)
            } else {
                r == Err::<usize, Errno>(Errno::ENOENT) && *final(pcb) == *old(pcb)
            },
    {
        let free: usize = self.task.get_last_free_addr(pcb);
        let vaddr: usize = if shmaddr == 0 {
            if free >= SHM_BASE {
                free
            } else {
                SHM_BASE
            }
        } else {
            shmaddr
        };
        assert(vaddr == attach_addr(*pcb, shmaddr));
        match shared.segments.get(&shmid) {
            Some(segment) => {
                let ghost before = *pcb;
                let trackers: Vec<Arc<FrameTracker>> = clone_frames(&segment.trackers);
                let size: usize = trackers.len() * PAGE_SIZE;
                let shm = MapedSharedMemory { key: shmid, trackers, start: vaddr, size };
                assert forall|i: int| 0 <= i < shm@.trackers.len() implies (
                #[trigger] shm@.trackers[i]).paddr % PAGE_SIZE == 0 by {
                    assert(shared@[shmid].trackers@[i].paddr % PAGE_SIZE == 0);
                }
                crate::task::map_shm(&self.task, pcb, &shm);
                pcb.shms.push(shm);
                assert(shm_views(pcb.shms@) =~= shm_views(before.shms@).push(shm@));
                Ok(vaddr)
            },
            None => Err(Errno::ENOENT),
        }
    }

    /// Marks shared memory to go when nobody is attached any more.
    pub fn sys_shmctl(
        &self,
        shared: &mut SharedMemoryTable,
        shmid: usize,
        cmd: usize,
        _arg: usize,
    ) -> (r: SysResult)
        requires
            old(shared).wf(),
        ensures
            final(shared).wf(),
            r == (if cmd == IPC_RMID {
                Ok::<usize, Errno>(0)
            } else {
                Err(Errno::EPERM)
            }),
            final(shared)@ == (if cmd == IPC_RMID && old(shared)@.contains_key(shmid) {
                old(shared)@.insert(
                    shmid,
                    SharedMemory { deleted: true, ..old(shared)@[shmid] },
                )
            } else {
                old(shared)@
            }),
    {
        let ghost before = *shared;
        if cmd != IPC_RMID {
            return Err(Errno::EPERM);
        }
        if let Some(mut segment) = shared.segments.remove(&shmid) {
            segment.deleted = true;
            let _ = shared.segments.insert(shmid, segment);
            assert(shared@ =~= before@.insert(
                shmid,
                SharedMemory { deleted: true, ..before@[shmid] },
            ));
        } else {
            assert(shared@ =~= before@);
        }
        Ok(0)
    }

    /// Finds or makes a set of semaphores.
    pub fn sys_semget(
        &self,
        sems: &mut SemaphoreTable,
        key: usize,
        nsems: usize,
        semflg: usize,
    ) -> (r: SysResult)
        requires
            old(sems).wf(),
            key_available(old(sems)@, key),
        ensures
            final(sems).wf(),
            exists|actual: usize|
                {
                    &&& #[trigger] meant_key(old(sems)@, 0, key, actual)
                    &&& if old(sems)@.contains_key(actual) {
                        r == Ok::<usize, Errno>(actual) && *final(sems) == *old(sems)
                    } else if semflg & IPC_CREAT != 0 {
                        &&& r == Ok::<usize, Errno>(actual)
                        &&& final(sems)@ == old(sems)@.insert(actual, final(sems)@[actual])
                        &&& final(sems)@[actual].key == actual
                        &&& final(sems)@[actual].nsems == nsems
                        &&& final(sems)@[actual].values@ == Seq::new(nsems as nat, |i: int| 0i32)
                    } else {
                        r == Err::<usize, Errno>(Errno::ENOENT) && *final(sems) == *old(sems)
                    }
                },
    {
        let ghost before = *sems;
        let actual: usize = actual_key(&sems.sets, 0, key);
        assert(meant_key(before@, 0, key, actual));
        if sems.sets.contains_key(&actual) {
            return Ok(actual);
        }
        if semflg & IPC_CREAT != 0 {
            let _ = sems.sets.insert(actual, Semaphore::new(actual, nsems));
            assert(sems@ =~= before@.insert(actual, sems@[actual]));
            Ok(actual)
        } else {
            Err(Errno::ENOENT)
        }
    }

    /// Sets, reads or removes semaphores. Other commands on an existing set do nothing and succeed.
    pub fn sys_semctl(
        &self,
        sems: &mut SemaphoreTable,
        semid: usize,
        semnum: usize,
        cmd: usize,
        arg: usize,
    ) -> (r: SysResult)
        requires
            old(sems).wf(),
        ensures
            final(sems).wf(),
            semaphores_controlled(old(sems)@, final(sems)@, semid, semnum, cmd, arg, r),
    {
        let ghost before = *sems;
        let mut set: Semaphore = match sems.sets.remove(&semid) {
            Some(set) => set,
            None => {
                assert(sems@ =~= before@);
                return Err(Errno::EINVAL);
            },
        };
        let ghost found = set;
        assert(before@.contains_key(semid) && before@[semid] == found);
        let mut result: SysResult = Ok(0);
        if cmd == SETVAL {
            if semnum < set.nsems {
                set.values[semnum] = arg as i32;
                assert(set.values@ =~= found.values@.update(semnum as int, arg as i32));
            } else {
                result = Err(Errno::EINVAL);
            }
        } else if cmd == GETVAL {
            if semnum < set.nsems {
                result = Ok(set.values[semnum] as usize);
            } else {
                result = Err(Errno::EINVAL);
            }
        } else if cmd == IPC_RMID {
            assert(sems@ =~= before@.remove(semid));
            return Ok(0);
        }
        let _ = sems.sets.insert(semid, set);
        assert(sems@ =~= before@.insert(semid, set));
        assert(before@.insert(semid, before@[semid]) =~= before@);
        result
    }

    /// Operates on semaphores: accepted without effect where the set exists.
    pub fn sys_semop(&self, sems: &SemaphoreTable, semid: usize, _sops: usize, _nsops: usize) -> (r:
        SysResult)
        ensures
            r == (if sems@.contains_key(semid) {
                Ok::<usize, Errno>(0)
            } else {
                Err(Errno::EINVAL)
            }),
    {
        if sems.sets.contains_key(&semid) {
            Ok(0)
        } else {
            Err(Errno::EINVAL)
        }
    }
}

/// The command that asks for the state of a queue.
pub const IPC_STAT: usize = 2;

/// A message as it lies in user memory: its type in eight bytes, the lowest first, and its text.
pub open spec fn message_bytes(mtype: i64, text: Seq<u8>) -> Seq<u8> {
    le_bytes(mtype as u64) + text
}

/// The type in the first eight bytes of a message in user memory.
pub open spec fn message_type(bytes: Seq<u8>) -> i64 {
    le_value(bytes) as i64
}

/// What sending does to the queues. `message` is what the program points to, if the pointer can be
/// used. A full queue is an error only for those who do not want to wait; others are told of
/// success, and the message is dropped.
pub open spec fn message_sent(
    before: Map<usize, MessageQueue>,
    after: Map<usize, MessageQueue>,
    msqid: usize,
    message: Option<Seq<u8>>,
    msgsz: usize,
    msgflg: usize,
    result: SysResult,
) -> bool {
    let queue = before[msqid];
    if !before.contains_key(msqid) {
        result == Err::<usize, Errno>(Errno::EINVAL) && after == before
    } else if message is None {
        result == Err::<usize, Errno>(Errno::EFAULT) && after == before
    } else if queue.has_room(msgsz as int) {
        &&& result == Ok::<usize, Errno>(0)
        &&& after == before.insert(msqid, after[msqid])
        &&& after[msqid].messages@.len() == queue.messages@.len() + 1
        &&& after[msqid].messages@.drop_last() == queue.messages@
        &&& after[msqid].messages@.last().mtype == message_type(message->0)
        &&& after[msqid].messages@.last().mtext@ == message->0.subrange(8, 8 + msgsz)
        &&& after[msqid].current_bytes == queue.current_bytes + msgsz
        &&& after[msqid] == (MessageQueue {
            messages: after[msqid].messages,
            current_bytes: after[msqid].current_bytes,
            ..queue
        })
    } else {
        &&& result == (if msgflg & IPC_NOWAIT != 0 {
            Err::<usize, Errno>(Errno::EAGAIN)
        } else {
            Ok(0)
        })
        &&& after == before
    }
}

/// What receiving does to the queues, and what is to be stored at `msgp`. A message that suits is
/// taken out in any case, even where it cannot be stored, or not in full.
pub open spec fn message_received(
    before: Map<usize, MessageQueue>,
    after: Map<usize, MessageQueue>,
    msqid: usize,
    msgp: usize,
    msgp_valid: bool,
    msgsz: usize,
    msgtyp: i64,
    msgflg: usize,
    result: SysResult,
    store: Option<UserWrite>,
) -> bool {
    let messages = before[msqid].messages@;
    let except = msgflg & MSG_EXCEPT != 0;
    if !before.contains_key(msqid) {
        result == Err::<usize, Errno>(Errno::EINVAL) && after == before && store is None
    } else if !has_pick(messages, msgtyp, except) {
        result == Err::<usize, Errno>(Errno::ENOMSG) && after == before && store is None
    } else {
        exists|i: int|
            {
                let message = #[trigger] messages[i];
                let n = min_int(message.mtext@.len() as int, msgsz as int);
                &&& is_pick(messages, msgtyp, except, i)
                &&& after == before.insert(msqid, after[msqid])
                &&& after[msqid].messages@ == messages.remove(i)
                &&& after[msqid].current_bytes == before[msqid].current_bytes
                    - message.mtext@.len()
                &&& after[msqid] == (MessageQueue {
                    messages: after[msqid].messages,
                    current_bytes: after[msqid].current_bytes,
                    ..before[msqid]
                })
                &&& if !msgp_valid {
                    result == Err::<usize, Errno>(Errno::EFAULT) && store is None
                } else {
                    &&& result == (if message.mtext@.len() > msgsz && msgflg & MSG_NOERROR == 0 {
                        Err::<usize, Errno>(Errno::E2BIG)
                    } else {
                        Ok(n as usize)
                    })
                    &&& store is Some
                    &&& store->0.addr == msgp
                    &&& store->0.bytes@ == message_bytes(
                        message.mtype,
                        message.mtext@.subrange(0, n),
                    )
                }
            }
    }
}

fn copy_bytes(src: &[u8], from: usize, to: usize) -> (r: Vec<u8>)
    requires
        from <= to <= src@.len(),
    ensures
        r@ == src@.subrange(from as int, to as int),
{
    let mut out: Vec<u8> = Vec::new();
    let mut i: usize = from;
    while i < to
        invariant
            from <= i <= to <= src@.len(),
            out@ == src@.subrange(from as int, i as int),
        decreases to - i,
    {
        out.push(src[i]);
        i = i + 1;
        assert(out@ =~= src@.subrange(from as int, i as int));
    }
    assert(out@ =~= src@.subrange(from as int, to as int));
    out
}

impl UserTaskContainer {
    /// Finds or makes a message queue.
    pub fn sys_msgget(&self, queues: &mut MessageTable, key: usize, msgflg: usize) -> (r: SysResult)
        requires
            old(queues).wf(),
            key_available(old(queues)@, key),
        ensures
            final(queues).wf(),
            exists|actual: usize|
                {
                    &&& #[trigger] meant_key(old(queues)@, MSG_KEY_BASE, key, actual)
                    &&& if old(queues)@.contains_key(actual) {
                        r == Ok::<usize, Errno>(actual) && *final(queues) == *old(queues)
                    } else if msgflg & IPC_CREAT != 0 {
                        &&& r == Ok::<usize, Errno>(actual)
                        &&& final(queues)@ == old(queues)@.insert(actual, final(queues)@[actual])
                        &&& final(queues)@[actual].key == actual
                        &&& final(queues)@[actual].messages@.len() == 0
                        &&& final(queues)@[actual].max_bytes == 16384
                        &&& final(queues)@[actual].current_bytes == 0
                        &&& final(queues)@[actual].max_messages == 40
                    } else {
                        r == Err::<usize, Errno>(Errno::ENOENT) && *final(queues) == *old(queues)
                    }
                },
    {
        let ghost before = *queues;
        let actual: usize = actual_key(&queues.queues, MSG_KEY_BASE, key);
        assert(meant_key(before@, MSG_KEY_BASE, key, actual));
        if queues.queues.contains_key(&actual) {
            return Ok(actual);
        }
        if msgflg & IPC_CREAT != 0 {
            let _ = queues.queues.insert(actual, MessageQueue::new(actual));
            assert(queues@ =~= before@.insert(actual, queues@[actual]));
            Ok(actual)
        } else {
            Err(Errno::ENOENT)
        }
    }

    /// Removes a message queue. Other commands on an existing queue do nothing and succeed.
    pub fn sys_msgctl(&self, queues: &mut MessageTable, msqid: usize, cmd: usize, _buf: usize) -> (r:
        SysResult)
        requires
            old(queues).wf(),
        ensures
            final(queues).wf(),
            r == (if old(queues)@.contains_key(msqid) {
                Ok::<usize, Errno>(0)
            } else {
                Err(Errno::EINVAL)
            }),
            final(queues)@ == (if cmd == IPC_RMID {
                old(queues)@.remove(msqid)
            } else {
                old(queues)@
            }),
    {
        let ghost before = *queues;
        if !queues.queues.contains_key(&msqid) {
            assert(before@.remove(msqid) =~= before@);
            return Err(Errno::EINVAL);
        }
        match cmd {
            IPC_RMID => {
                let _ = queues.queues.remove(&msqid);
                assert(queues@ =~= before@.remove(msqid));
                Ok(0)
            },
            IPC_STAT => Ok(0),
            _ => Ok(0),
        }
    }

    /// Sends a message. `message` is what `msgp` points to, eight bytes of type and the text, if the
    /// pointer can be used.
    pub fn sys_msgsnd(
        &self,
        queues: &mut MessageTable,
        msqid: usize,
        message: Option<&[u8]>,
        msgsz: usize,
        msgflg: usize,
    ) -> (r: SysResult)
        requires
            old(queues).wf(),
            message matches Some(m) ==> m@.len() >= 8 + msgsz,
            old(queues)@.contains_key(msqid) && old(queues)@[msqid].messages@.len() < old(
                queues,
            )@[msqid].max_messages ==> old(queues)@[msqid].current_bytes + msgsz <= usize::MAX,
        ensures
            final(queues).wf(),
            message_sent(
                old(queues)@,
                final(queues)@,
                msqid,
                match message {
                    Some(m) => Some(m@),
                    None => None,
                },
                msgsz,
                msgflg,
                r,
            ),
    {
        let ghost before = *queues;
        let mut queue: MessageQueue = match queues.queues.remove(&msqid) {
            Some(queue) => queue,
            None => {
                assert(queues@ =~= before@);
                return Err(Errno::EINVAL);
            },
        };
        let ghost found = queue;
        assert(before@.contains_key(msqid) && before@[msqid] == found);
        assert(before@.insert(msqid, found) =~= before@);
        let mut result: SysResult = Ok(0);
        match message {
            Some(bytes) => {
                let mtype: i64 = from_le_bytes(bytes) as i64;
                assert(bytes.len() == bytes@.len());
                let text: Vec<u8> = copy_bytes(bytes, 8, 8 + msgsz);
                if queue.can_send(msgsz) {
                    let _ = queue.send_message(mtype, text);
                    assert(queue.messages@.drop_last() =~= found.messages@);
                } else if msgflg & IPC_NOWAIT != 0 {
                    result = Err(Errno::EAGAIN);
                }
            },
            None => {
                result = Err(Errno::EFAULT);
            },
        }
        let _ = queues.queues.insert(msqid, queue);
        assert(queues@ =~= before@.insert(msqid, queue));
        result
    }

    /// Receives a message. `msgp_valid` tells whether the pointer can be used. What is to be stored
    /// there comes back with the outcome.
    pub fn sys_msgrcv(
        &self,
        queues: &mut MessageTable,
        msqid: usize,
        msgp: usize,
        msgp_valid: bool,
        msgsz: usize,
        msgtyp: i64,
        msgflg: usize,
    ) -> (r: (SysResult, Option<UserWrite>))
        requires
            old(queues).wf(),
            msgtyp > i64::MIN,
        ensures
            final(queues).wf(),
            message_received(
                old(queues)@,
                final(queues)@,
                msqid,
                msgp,
                msgp_valid,
                msgsz,
                msgtyp,
                msgflg,
                r.0,
                r.1,
            ),
    {
        let ghost before = *queues;
        let mut queue: MessageQueue = match queues.queues.remove(&msqid) {
            Some(queue) => queue,
            None => {
                assert(queues@ =~= before@);
                return (Err(Errno::EINVAL), None);
            },
        };
        let ghost found = queue;
        assert(before@.contains_key(msqid) && before@[msqid] == found);
        assert(before@.insert(msqid, found) =~= before@);
        let except: bool = msgflg & MSG_EXCEPT != 0;
        let received: Option<Message> = queue.receive_message(msgtyp, except);
        let _ = queues.queues.insert(msqid, queue);
        assert(queues@ =~= before@.insert(msqid, queue));
        match received {
            None => (Err(Errno::ENOMSG), None),
            Some(message) => {
                let ghost i = choose|i: int|
                    {
                        &&& is_pick(found.messages@, msgtyp, except, i)
                        &&& message == #[trigger] found.messages@[i]
                        &&& queue.messages@ == found.messages@.remove(i)
                    };
                assert(is_pick(found.messages@, msgtyp, except, i));
                assert(found.messages@[i] == message);
                if !msgp_valid {
                    return (Err(Errno::EFAULT), None);
                }
                let data_len: usize = min_usize(message.mtext.len(), msgsz);
                let mut bytes: Vec<u8> = to_le_bytes(message.mtype as u64);
                let mut text: Vec<u8> = copy_bytes(message.mtext.as_slice(), 0, data_len);
                bytes.append(&mut text);
                let store: Option<UserWrite> = Some(UserWrite { addr: msgp, bytes });
                if message.mtext.len() > msgsz && msgflg & MSG_NOERROR == 0 {
                    (Err(Errno::E2BIG), store)
                } else {
                    (Ok(data_len), store)
                }
            },
        }
    }
}

/// A semaphore that was set to a number is read back as that number, and the others of the set keep
/// theirs.
pub proof fn law_semaphore_round_trip(
    before: Map<usize, Semaphore>,
    middle: Map<usize, Semaphore>,
    after: Map<usize, Semaphore>,
    semid: usize,
    semnum: usize,
    other: usize,
    arg: usize,
    ignored: usize,
    set: SysResult,
    got: SysResult,
)
    requires
        before.contains_key(semid),
        before[semid].wf(),
        semnum < before[semid].nsems,
        other < before[semid].nsems,
        other != semnum,
        arg <= i32::MAX,
        semaphores_controlled(before, middle, semid, semnum, SETVAL, arg, set),
        semaphores_controlled(middle, after, semid, semnum, GETVAL, ignored, got),
    ensures
        set == Ok::<usize, Errno>(0),
        got == Ok::<usize, Errno>(arg),
        after[semid].values@[other as int] == before[semid].values@[other as int],
{
}

/// A private object gets a key that no other object has.
pub proof fn law_private_keys_are_new<V>(table: Map<usize, V>, base: usize, actual: usize)
    requires
        meant_key(table, base, IPC_PRIVATE, actual),
    ensures
        !table.contains_key(actual),
{
    if table.contains_key(actual) {
        assert(table.dom().contains(actual));
    }
}

/// A queue keeps its key and its limits, and stays within them with a right count of bytes, whatever
/// is sent to it and received from it.
pub proof fn law_queue_keeps_its_limits(states: Seq<MessageQueue>, key: usize, n: int)
    requires
        0 <= n < states.len(),
        states[0].is_new(key),
        forall|i: int| 0 <= i < states.len() - 1 ==> #[trigger] queue_steps_at(states, i),
    ensures
        states[n].wf(),
        states[n].key == key,
        states[n].max_bytes == 16384,
        states[n].max_messages == 40,
        states[n].current_bytes == total_bytes(states[n].messages@),
        states[n].current_bytes <= 16384,
        states[n].messages@.len() <= 40,
    decreases n,
{
    if n > 0 {
        law_queue_keeps_its_limits(states, key, n - 1);
        assert(queue_steps_at(states, n - 1));
        let before = states[n - 1];
        let after = states[n];
        if exists|message: Message, done: bool| queue_sent(before, after, message, done) {
            let (message, done) = choose|message: Message, done: bool|
                queue_sent(before, after, message, done);
            assert(before.messages@.push(message).drop_last() =~= before.messages@);
        } else {
            let (mtype, except, result) = choose|mtype: i64, except: bool, result: Option<Message>|
                mtype > i64::MIN && #[trigger] queue_received(
                    before,
                    after,
                    mtype,
                    except,
                    result,
                );
            if let Some(message) = result {
                let i = choose|i: int|
                    {
                        &&& is_pick(before.messages@, mtype, except, i)
                        &&& message == #[trigger] before.messages@[i]
                        &&& after.messages@ == before.messages@.remove(i)
                        &&& after.current_bytes == before.current_bytes - message.mtext@.len()
                    };
                lemma_total_remove(before.messages@, i);
            }
        }
    }
}

/// A message that went into an empty queue is the one that a receiver of its type, or of any type,
/// gets, and what is stored for the receiver is what the sender had, as far as there is room.
pub proof fn law_message_round_trip(
    before: Map<usize, MessageQueue>,
    middle: Map<usize, MessageQueue>,
    after: Map<usize, MessageQueue>,
    msqid: usize,
    message: Seq<u8>,
    msgsz: usize,
    sndflg: usize,
    sent: SysResult,
    msgp: usize,
    room: usize,
    msgtyp: i64,
    rcvflg: usize,
    received: SysResult,
    store: Option<UserWrite>,
)
    requires
        before.contains_key(msqid),
        before[msqid].messages@.len() == 0,
        before[msqid].has_room(msgsz as int),
        message.len() == 8 + msgsz,
        message_sent(before, middle, msqid, Some(message), msgsz, sndflg, sent),
        message_received(
            middle,
            after,
            msqid,
            msgp,
            true,
            room,
            msgtyp,
            rcvflg,
            received,
            store,
        ),
        rcvflg & MSG_EXCEPT == 0,
        msgtyp == 0 || msgtyp == message_type(message) && msgtyp > 0,
        msgsz <= room,
    ensures
        received == Ok::<usize, Errno>(msgsz),
        store is Some,
        store->0.addr == msgp,
        store->0.bytes@.skip(8) == message.skip(8),
        message_type(store->0.bytes@) == message_type(message),
        after[msqid].messages@.len() == 0,
{
    let messages = middle[msqid].messages@;
    assert(messages.len() == 1);
    assert(messages[0] == messages.last());
    let except = rcvflg & MSG_EXCEPT != 0;
    assert(is_pick(messages, msgtyp, except, 0));
    let text = message.subrange(8, 8 + msgsz);
    let mtype = message_type(message);
    assert(text.subrange(0, msgsz as int) =~= text);
    let bytes = message_bytes(mtype, text);
    assert(store->0.bytes@ == bytes);
    assert(bytes.skip(8) =~= message.skip(8));
    crate::usermem::law_bytes_round_trip(mtype as u64);
    assert(bytes.subrange(0, 8) =~= le_bytes(mtype as u64));
    assert(le_value(bytes) == le_value(le_bytes(mtype as u64)));
    assert((mtype as u64) as i64 == mtype) by (bit_vector);
}

/// A receiver who takes any type gets the oldest message.
pub proof fn law_oldest_first(messages: Seq<Message>, except: bool, i: int)
    requires
        is_pick(messages, 0, except, i),
    ensures
        i == 0,
{
}

/// The message that a receiver gets is determined by the queue and the type.
pub proof fn law_pick_is_unique(messages: Seq<Message>, mtype: i64, except: bool, i: int, j: int)
    requires
        is_pick(messages, mtype, except, i),
        is_pick(messages, mtype, except, j),
    ensures
        i == j,
{
}

/// Where the program leaves the place of shared memory to the kernel, it goes at or behind
/// `0x4000_0000`, behind all that is mapped and behind all shared memory that is attached, so that it
/// shares no address with any of them; and no further than need be. Where the program gives a place,
/// it goes there.
pub proof fn law_attached_memory_does_not_collide(pcb: ProcessControlBlock, shmaddr: usize, i: int, k: int)
    requires
        0 <= i < pcb.memset@.len(),
        0 <= k < pcb.shms@.len(),
    ensures
        attach_addr(pcb, 0) >= 0x4000_0000,
        pcb.shms@[k].start + pcb.shms@[k].size <= attach_addr(pcb, 0),
        pcb.memset@[i].mtype != MemType::Stack ==> !pcb.memset@[i].holds(attach_addr(pcb, 0)),
        pcb.memset@[i].mtype != MemType::Stack && pcb.memset@[i].len > 0 ==> pcb.memset@[i].start
            + pcb.memset@[i].len <= attach_addr(pcb, 0),
        attach_addr(pcb, 0) == 0x4000_0000 || (exists|a: int|
            0 <= a < pcb.memset@.len() && (#[trigger] pcb.memset@[a]).mtype != MemType::Stack
                && pcb.memset@[a].start + pcb.memset@[a].len == attach_addr(pcb, 0)) || (exists|
            s: int,
        |
            0 <= s < pcb.shms@.len() && (#[trigger] pcb.shms@[s]).start + pcb.shms@[s].size
                == attach_addr(pcb, 0)),
        shmaddr != 0 ==> attach_addr(pcb, shmaddr) == shmaddr,
{
    let areas = pcb.memset@;
    let shms = shm_views(pcb.shms@);
    assert(shms[k] == pcb.shms@[k]@);
    crate::memset::law_nothing_behind_shared_memory(shms, k);
    if areas[i].mtype != MemType::Stack {
        crate::memset::law_nothing_behind_the_end(areas, i, attach_addr(pcb, 0));
        if areas[i].len > 0 && areas[i].start + areas[i].len > attach_addr(pcb, 0) {
            let last = areas[i].start + areas[i].len - 1;
            crate::memset::law_nothing_behind_the_end(areas, i, last);
        }
    }
    crate::memset::law_end_of_areas_is_reached(areas);
    crate::memset::law_end_of_shared_memory_is_reached(shms);
    if attach_addr(pcb, 0) == shms_end(shms) && shms_end(shms) != 0 {
        let s = choose|s: int|
            0 <= s < shms.len() && (#[trigger] shms[s]).start + shms[s].size == shms_end(shms);
        assert(shms[s] == pcb.shms@[s]@);
    }
}

/// A key other than the private one is meant as it is. A private object gets the number behind the
/// largest key there is, or behind the base where there is none.
pub proof fn law_keys_that_are_meant<V>(
    table: Map<usize, V>,
    base: usize,
    key: usize,
    actual: usize,
    other: usize,
)
    requires
        meant_key(table, base, key, actual),
        table.contains_key(other),
    ensures
        key != 0 ==> actual == key,
        key == 0 ==> other < actual && table.contains_key((actual - 1) as usize),
{
    assert(table.dom().contains(other));
}

/// The first private object gets the number behind the base.
pub proof fn law_first_private_key<V>(base: usize, actual: usize)
    requires
        meant_key(Map::<usize, V>::empty(), base, 0, actual),
    ensures
        actual == base + 1,
{
    assert(Map::<usize, V>::empty().dom() =~= Set::empty());
}

/// Shared memory is made exactly if the bit for that is set in the flags and there is none with the
/// key, or the key is the private one.
pub proof fn law_segment_is_made_on_request(
    table: Map<usize, SharedMemory>,
    key: usize,
    shmflg: usize,
)
    ensures
        makes_segment(table, key, shmflg) <==> shmflg / 512 % 2 == 1 && (key == 0
            || !table.contains_key(key)),
{
    assert((shmflg & 0o1000usize > 0) == (shmflg / 512usize % 2usize == 1usize)) by (bit_vector);
}

/// Commands and flags have the numbers of Linux, and private queues begin behind 1000.
pub proof fn law_numbers_of_ipc()
    ensures
        IPC_PRIVATE == 0 && IPC_CREAT == 512 && IPC_NOWAIT == 2048 && MSG_NOERROR == 4096
            && MSG_EXCEPT == 8192 && IPC_RMID == 0 && IPC_STAT == 2 && GETVAL == 12 && SETVAL == 16,
        SHM_BASE == 0x4000_0000,
        MSG_KEY_BASE == 1000,
{
}

/// Commands on semaphores: one that sets changes that semaphore alone, to the number given; one that
/// reads gives its number; one that removes takes the whole set; any other succeeds and does nothing.
/// It is an error if there is no such set or no such semaphore in it, and then nothing changes. Other
/// sets are never touched.
pub proof fn law_semaphore_commands(
    before: Map<usize, Semaphore>,
    after: Map<usize, Semaphore>,
    semid: usize,
    semnum: usize,
    cmd: usize,
    arg: usize,
    result: SysResult,
    other: usize,
)
    requires
        semaphores_controlled(before, after, semid, semnum, cmd, arg, result),
        before.contains_key(semid) ==> before[semid].wf(),
        other != semid,
    ensures
        after.contains_key(other) == before.contains_key(other),
        before.contains_key(other) ==> after[other] == before[other],
        result is Err ==> result->Err_0 == Errno::EINVAL && after == before,
        !before.contains_key(semid) ==> result is Err,
        before.contains_key(semid) ==> {
            let set = before[semid];
            &&& result is Err <==> (cmd == 16 || cmd == 12) && semnum >= set.nsems
            &&& cmd == 16 && semnum < set.nsems ==> {
                &&& result->Ok_0 == 0
                &&& after.contains_key(semid)
                &&& after[semid].nsems == set.nsems
                &&& after[semid].key == set.key
                &&& after[semid].values@.len() == set.values@.len()
                &&& arg <= i32::MAX ==> after[semid].values@[semnum as int] == arg
                &&& forall|i: int|
                    0 <= i < set.nsems && i != semnum ==> #[trigger] after[semid].values@[i]
                        == set.values@[i]
            }
            &&& cmd == 12 && semnum < set.nsems && set.values@[semnum as int] >= 0 ==> result->Ok_0
                == set.values@[semnum as int]
            &&& cmd == 12 ==> after == before
            &&& cmd == 0 ==> result->Ok_0 == 0 && !after.contains_key(semid)
            &&& cmd != 0 && cmd != 12 && cmd != 16 ==> result->Ok_0 == 0 && after == before
        },
{
}

/// Which message a receiver gets: of a type above zero the oldest of that type, or, where any other
/// type is asked for, the oldest that is not of it; of a type below zero the oldest of the smallest
/// type that is at most the absolute value. There is one exactly if some message is of such a type.
pub proof fn law_receivers_get_their_type(messages: Seq<Message>, mtype: i64, except: bool, i: int)
    requires
        mtype > i64::MIN,
    ensures
        has_pick(messages, mtype, except) <==> exists|j: int|
            0 <= j < messages.len() && (mtype == 0 || (mtype > 0 && !except && (
            #[trigger] messages[j]).mtype == mtype) || (mtype > 0 && except && messages[j].mtype
                != mtype) || (mtype < 0 && messages[j].mtype <= -mtype)),
        is_pick(messages, mtype, except, i) ==> {
            &&& 0 <= i < messages.len()
            &&& mtype == 0 ==> i == 0
            &&& mtype > 0 && !except ==> messages[i].mtype == mtype && forall|j: int|
                0 <= j < i ==> (#[trigger] messages[j]).mtype != mtype
            &&& mtype > 0 && except ==> messages[i].mtype != mtype && forall|j: int|
                0 <= j < i ==> (#[trigger] messages[j]).mtype == mtype
            &&& mtype < 0 ==> messages[i].mtype <= -mtype && forall|j: int|
                0 <= j < messages.len() ==> (#[trigger] messages[j]).mtype > -mtype
                    || messages[i].mtype < messages[j].mtype || (messages[i].mtype
                    == messages[j].mtype && i <= j)
        },
{
    if exists|j: int|
        0 <= j < messages.len() && (mtype == 0 || (mtype > 0 && !except && (
        #[trigger] messages[j]).mtype == mtype) || (mtype > 0 && except && messages[j].mtype
            != mtype) || (mtype < 0 && messages[j].mtype <= -mtype)) {
        let j = choose|j: int|
            0 <= j < messages.len() && (mtype == 0 || (mtype > 0 && !except && (
            #[trigger] messages[j]).mtype == mtype) || (mtype > 0 && except && messages[j].mtype
                != mtype) || (mtype < 0 && messages[j].mtype <= -mtype));
        if mtype == 0 {
            assert(is_pick(messages, mtype, except, 0));
        } else if mtype > 0 {
            lemma_first_match(messages, mtype, except, j);
        } else {
            lemma_smallest_match(messages, mtype, except, j);
        }
    }
    if has_pick(messages, mtype, except) {
        let k = choose|k: int| is_pick(messages, mtype, except, k);
        assert(messages[k].mtype == messages[k].mtype);
    }
    if is_pick(messages, mtype, except, i) && mtype > 0 && except {
        assert forall|j: int| 0 <= j < i implies (#[trigger] messages[j]).mtype == mtype by {
            assert(!type_matches(messages[j], mtype, except));
        }
    }
    if is_pick(messages, mtype, except, i) && mtype > 0 && !except {
        assert forall|j: int| 0 <= j < i implies (#[trigger] messages[j]).mtype != mtype by {
            assert(!type_matches(messages[j], mtype, except));
        }
    }
}

proof fn lemma_first_match(messages: Seq<Message>, mtype: i64, except: bool, j: int)
    requires
        mtype > 0,
        0 <= j < messages.len(),
        type_matches(messages[j], mtype, except),
    ensures
        has_pick(messages, mtype, except),
    decreases j,
{
    if is_pick(messages, mtype, except, j) {
    } else {
        let k = choose|k: int| 0 <= k < j && type_matches(#[trigger] messages[k], mtype, except);
        lemma_first_match(messages, mtype, except, k);
    }
}

/// The message at `b` has the smallest of the types asked for among the first `n`, and is the oldest
/// of them.
spec fn is_smallest(messages: Seq<Message>, limit: int, n: int, b: int) -> bool {
    &&& 0 <= b < n
    &&& messages[b].mtype <= limit
    &&& forall|j: int|
        0 <= j < n ==> (#[trigger] messages[j]).mtype > limit || messages[b].mtype
            < messages[j].mtype || (messages[b].mtype == messages[j].mtype && b <= j)
}

proof fn lemma_smallest(messages: Seq<Message>, limit: int, n: int) -> (b: int)
    requires
        0 <= n <= messages.len(),
    ensures
        is_smallest(messages, limit, n, b) || (b == -1 && forall|j: int|
            0 <= j < n ==> (#[trigger] messages[j]).mtype > limit),
    decreases n,
{
    if n == 0 {
        -1
    } else {
        let b = lemma_smallest(messages, limit, n - 1);
        if messages[n - 1].mtype > limit {
            b
        } else if b == -1 || messages[n - 1].mtype < messages[b].mtype {
            n - 1
        } else {
            b
        }
    }
}

proof fn lemma_smallest_match(messages: Seq<Message>, mtype: i64, except: bool, k: int)
    requires
        i64::MIN < mtype < 0,
        0 <= k < messages.len(),
        messages[k].mtype <= -mtype,
    ensures
        has_pick(messages, mtype, except),
{
    let b = lemma_smallest(messages, -mtype, messages.len() as int);
    assert(messages[k].mtype <= -mtype);
    assert(is_pick(messages, mtype, except, b));
}

/// A message is appended exactly if the queue has fewer messages than it may have and its bytes stay
/// within what it may hold; all older messages stay in their order, and a refused message changes
/// nothing. The queue knows how many bytes it holds.
pub proof fn law_messages_are_appended(
    before: MessageQueue,
    after: MessageQueue,
    message: Message,
    done: bool,
)
    requires
        queue_sent(before, after, message, done),
    ensures
        done <==> before.messages@.len() + 1 <= before.max_messages && before.current_bytes
            + message.mtext@.len() <= before.max_bytes,
        done ==> after.messages@ == before.messages@ + seq![message],
        done ==> after.current_bytes - before.current_bytes == message.mtext@.len(),
        !done ==> after == before,
        after.key == before.key,
        after.max_bytes == before.max_bytes,
        after.max_messages == before.max_messages,
{
    assert(before.messages@.push(message) =~= before.messages@ + seq![message]);
}

/// Receiving takes out one message, the one that is given, and leaves all others in their order.
pub proof fn law_one_message_is_taken_out(
    before: MessageQueue,
    after: MessageQueue,
    mtype: i64,
    except: bool,
    result: Option<Message>,
)
    requires
        queue_received(before, after, mtype, except, result),
    ensures
        result is None ==> after == before && !has_pick(before.messages@, mtype, except),
        result matches Some(m) ==> exists|i: int|
            {
                &&& is_pick(before.messages@, mtype, except, i)
                &&& #[trigger] before.messages@[i] == m
                &&& after.messages@ == before.messages@.subrange(0, i) + before.messages@.subrange(
                    i + 1,
                    before.messages@.len() as int,
                )
                &&& before.current_bytes - after.current_bytes == m.mtext@.len()
            },
        after.key == before.key,
        after.max_bytes == before.max_bytes,
        after.max_messages == before.max_messages,
{
    if let Some(m) = result {
        let i = choose|i: int|
            {
                &&& is_pick(before.messages@, mtype, except, i)
                &&& m == #[trigger] before.messages@[i]
                &&& after.messages@ == before.messages@.remove(i)
                &&& after.current_bytes == before.current_bytes - m.mtext@.len()
            };
        assert(before.messages@.remove(i) =~= before.messages@.subrange(0, i)
            + before.messages@.subrange(i + 1, before.messages@.len() as int));
        assert(before.messages@[i] == m);
    }
}

/// The bytes of all messages are the sum of their lengths.
pub proof fn law_bytes_add_up(messages: Seq<Message>, message: Message)
    ensures
        total_bytes(Seq::empty()) == 0,
        total_bytes(messages + seq![message]) == total_bytes(messages) + message.mtext@.len(),
{
    assert((messages + seq![message]).drop_last() =~= messages);
}

/// What a sender is told. Without the queue or with a bad pointer, that; where there is room, success,
/// and the message is in the queue with its type and its text; where there is none, EAGAIN for those
/// who do not want to wait, and success for all others, whose message is dropped. Other queues are
/// never touched.
pub proof fn law_senders_are_answered(
    before: Map<usize, MessageQueue>,
    after: Map<usize, MessageQueue>,
    msqid: usize,
    message: Option<Seq<u8>>,
    msgsz: usize,
    msgflg: usize,
    result: SysResult,
    other: usize,
)
    requires
        message_sent(before, after, msqid, message, msgsz, msgflg, result),
        message matches Some(m) ==> m.len() >= 8 + msgsz,
        other != msqid,
    ensures
        after.contains_key(other) == before.contains_key(other),
        before.contains_key(other) ==> after[other] == before[other],
        !before.contains_key(msqid) ==> result == Err::<usize, Errno>(Errno::EINVAL),
        before.contains_key(msqid) && message is None ==> result == Err::<usize, Errno>(
            Errno::EFAULT,
        ),
        result is Err ==> after == before,
        before.contains_key(msqid) && message is Some ==> {
            let queue = before[msqid];
            let m = message->0;
            let room = queue.messages@.len() + 1 <= queue.max_messages && queue.current_bytes
                + msgsz <= queue.max_bytes;
            &&& room ==> {
                &&& result == Ok::<usize, Errno>(0)
                &&& after[msqid].messages@.len() == queue.messages@.len() + 1
                &&& after[msqid].messages@.drop_last() == queue.messages@
                &&& after[msqid].messages@.last().mtext@.len() == msgsz
                &&& after[msqid].current_bytes == queue.current_bytes + msgsz
                &&& after[msqid].max_bytes == queue.max_bytes
                &&& after[msqid].max_messages == queue.max_messages
                &&& forall|i: int|
                    0 <= i < msgsz ==> #[trigger] after[msqid].messages@.last().mtext@[i] == m[8
                        + i]
                &&& after[msqid].messages@.last().mtype == le_value(m) as i64
            }
            &&& !room ==> after == before
            &&& !room && msgflg / 2048 % 2 == 1 ==> result == Err::<usize, Errno>(Errno::EAGAIN)
            &&& !room && msgflg / 2048 % 2 == 0 ==> result == Ok::<usize, Errno>(0)
        },
{
    assert((msgflg & 0o4000usize != 0) == (msgflg / 2048usize % 2usize == 1usize)) by (bit_vector);
}

/// What a receiver is told. Without the queue EINVAL, without a message that suits ENOMSG, and then
/// nothing changes. Else the message is taken out. With a bad pointer nothing is stored. A message that
/// is longer than the room is cut, and that is an error unless the receiver asked for it. What is
/// stored is the type and then the text. Other queues are never touched.
pub proof fn law_receivers_are_answered(
    before: Map<usize, MessageQueue>,
    after: Map<usize, MessageQueue>,
    msqid: usize,
    msgp: usize,
    msgp_valid: bool,
    msgsz: usize,
    msgtyp: i64,
    msgflg: usize,
    result: SysResult,
    store: Option<UserWrite>,
    other: usize,
)
    requires
        message_received(
            before,
            after,
            msqid,
            msgp,
            msgp_valid,
            msgsz,
            msgtyp,
            msgflg,
            result,
            store,
        ),
        other != msqid,
    ensures
        after.contains_key(other) == before.contains_key(other),
        before.contains_key(other) ==> after[other] == before[other],
        !before.contains_key(msqid) ==> result == Err::<usize, Errno>(Errno::EINVAL) && after
            == before && store is None,
        before.contains_key(msqid) ==> {
            let messages = before[msqid].messages@;
            let except = msgflg / 8192 % 2 == 1;
            &&& !has_pick(messages, msgtyp, except) ==> result == Err::<usize, Errno>(
                Errno::ENOMSG,
            ) && after == before && store is None
            &&& has_pick(messages, msgtyp, except) ==> exists|i: int|
                {
                    let m = #[trigger] messages[i];
                    let n = if m.mtext@.len() <= msgsz {
                        m.mtext@.len() as int
                    } else {
                        msgsz as int
                    };
                    &&& is_pick(messages, msgtyp, except, i)
                    &&& after[msqid].messages@ == messages.remove(i)
                    &&& after[msqid].current_bytes == before[msqid].current_bytes - m.mtext@.len()
                    &&& !msgp_valid ==> result == Err::<usize, Errno>(Errno::EFAULT) && store is None
                    &&& msgp_valid && m.mtext@.len() > msgsz && msgflg / 4096 % 2 == 0 ==> result
                        == Err::<usize, Errno>(Errno::E2BIG)
                    &&& msgp_valid && (m.mtext@.len() <= msgsz || msgflg / 4096 % 2 == 1) ==> result
                        == Ok::<usize, Errno>(n as usize)
                    &&& msgp_valid ==> {
                        &&& store is Some
                        &&& store->0.addr == msgp
                        &&& store->0.bytes@.len() == 8 + n
                        &&& store->0.bytes@.take(8) == le_bytes(m.mtype as u64)
                        &&& store->0.bytes@.skip(8) == m.mtext@.take(n)
                    }
                }
        },
{
    assert((msgflg & 0o20000usize != 0) == (msgflg / 8192usize % 2usize == 1usize)) by (bit_vector);
    assert((msgflg & 0o10000usize == 0) == (msgflg / 4096usize % 2usize == 0usize)) by (bit_vector);
    let messages = before[msqid].messages@;
    let except = msgflg & MSG_EXCEPT != 0;
    if before.contains_key(msqid) && has_pick(messages, msgtyp, except) {
        let i = choose|i: int|
            {
                let message = #[trigger] messages[i];
                let n = min_int(message.mtext@.len() as int, msgsz as int);
                &&& is_pick(messages, msgtyp, except, i)
                &&& after == before.insert(msqid, after[msqid])
                &&& after[msqid].messages@ == messages.remove(i)
                &&& after[msqid].current_bytes == before[msqid].current_bytes
                    - message.mtext@.len()
                &&& after[msqid] == (MessageQueue {
                    messages: after[msqid].messages,
                    current_bytes: after[msqid].current_bytes,
                    ..before[msqid]
                })
                &&& if !msgp_valid {
                    result == Err::<usize, Errno>(Errno::EFAULT) && store is None
                } else {
                    &&& result == (if message.mtext@.len() > msgsz && msgflg & MSG_NOERROR == 0 {
                        Err::<usize, Errno>(Errno::E2BIG)
                    } else {
                        Ok(n as usize)
                    })
                    &&& store is Some
                    &&& store->0.addr == msgp
                    &&& store->0.bytes@ == message_bytes(
                        message.mtype,
                        message.mtext@.subrange(0, n),
                    )
                }
            };
        let m = messages[i];
        if msgp_valid {
            let n = min_int(m.mtext@.len() as int, msgsz as int);
            assert(store->0.bytes@.take(8) =~= le_bytes(m.mtype as u64));
            assert(store->0.bytes@.skip(8) =~= m.mtext@.take(n));
        }
    }
}

/// A sound queue counts its bytes rightly and is within both of its limits. One that was just made is
/// empty, for 40 messages and 16384 bytes.
pub proof fn law_sound_queue(queue: MessageQueue, key: usize)
    ensures
        queue.wf() <==> queue.current_bytes == total_bytes(queue.messages@) && queue.current_bytes
            <= queue.max_bytes && queue.messages@.len() <= queue.max_messages,
        queue.is_new(key) ==> queue.key == key && queue.messages@.len() == 0
            && queue.current_bytes == 0 && queue.max_bytes == 16384 && queue.max_messages == 40,
{
}

} // verus!
