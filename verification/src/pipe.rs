//! Pipes: a queue of bytes between a sender and a receiver.
use std::collections::VecDeque;
use vstd::prelude::*;

use crate::errno::{Errno, VfsResult};
use crate::vfs::{
    min_int, overwrite, PollEvent, Stat, StatMode, MODE_FIFO, POLLERR, POLLIN, POLLOUT,
};

verus! {

/// A write that is not small is refused when it would bring the queue above this size.
pub const PIPE_BUFFER_SIZE: usize = 0x10000;

/// A write of at most this many bytes is never refused.
pub const PIPE_SMALL_WRITE: usize = 16;

/// The bytes that were sent and not yet received.
pub struct PipeQueue {
    pub bytes: VecDeque<u8>,
}

/// The end that can only write.
#[derive(Clone, Copy, Debug, PartialEq, Eq, Structural)]
pub struct PipeSender;

/// The end that can only read.
#[derive(Clone, Copy, Debug, PartialEq, Eq, Structural)]
pub struct PipeReceiver;

impl View for PipeQueue {
    type V = Seq<u8>;

    open spec fn view(&self) -> Seq<u8> {
        self.bytes@
    }
}

/// A write of `buffer` is taken whole or not at all: small ones always, others while the queue
/// stays within its size.
pub open spec fn accepts(queue: Seq<u8>, buffer: Seq<u8>) -> bool {
    buffer.len() <= PIPE_SMALL_WRITE || queue.len() + buffer.len() <= PIPE_BUFFER_SIZE
}

/// What a write does to the queue.
pub open spec fn sent(
    before: Seq<u8>,
    after: Seq<u8>,
    buffer: Seq<u8>,
    result: VfsResult<usize>,
) -> bool {
    if accepts(before, buffer) {
        result == Ok::<usize, Errno>(buffer.len() as usize) && after == before + buffer
    } else {
        result == Err::<usize, Errno>(Errno::EWOULDBLOCK) && after == before
    }
}

/// What a read does to the queue and to the buffer. The oldest bytes come first. Without any, the
/// read is to be tried again while a sender is left, and at the end of the stream afterwards.
pub open spec fn received(
    before: Seq<u8>,
    after: Seq<u8>,
    buffer_before: Seq<u8>,
    buffer_after: Seq<u8>,
    sender_alive: bool,
    result: VfsResult<usize>,
) -> bool {
    let n = min_int(before.len() as int, buffer_before.len() as int);
    &&& result == (if buffer_before.len() == 0 || before.len() > 0 || !sender_alive {
        Ok::<usize, Errno>(n as usize)
    } else {
        Err(Errno::EWOULDBLOCK)
    })
    &&& after == before.skip(n)
    &&& buffer_after == overwrite(buffer_before, 0, before.take(n))
}

impl PipeSender {
    /// Sends the bytes of `buffer`.
    pub fn writeat(&self, queue: &mut PipeQueue, _offset: usize, buffer: &[u8]) -> (r: VfsResult<
        usize,
    >)
        requires
            old(queue)@.len() + buffer@.len() <= usize::MAX,
        ensures
            sent(old(queue)@, final(queue)@, buffer@, r),
    {
        if buffer.len() == 0 {
            assert(queue@ =~= queue@ + buffer@);
            return Ok(0);
        }
        if buffer.len() > PIPE_SMALL_WRITE && queue.bytes.len() + buffer.len() > PIPE_BUFFER_SIZE {
            return Err(Errno::EWOULDBLOCK);
        }
        let ghost before = queue@;
        let mut i: usize = 0;
        while i < buffer.len()
            invariant
                i <= buffer@.len(),
                queue@ == before + buffer@.take(i as int),
            decreases buffer@.len() - i,
        {
            queue.bytes.push_back(buffer[i]);
            i = i + 1;
            assert(queue@ =~= before + buffer@.take(i as int));
        }
        assert(buffer@.take(i as int) =~= buffer@);
        Ok(buffer.len())
    }

    /// Whether a write is worth trying.
    pub fn poll(&self, queue: &PipeQueue, events: PollEvent) -> (r: VfsResult<PollEvent>)
        ensures
            r == Ok::<PollEvent, Errno>(
                PollEvent {
                    bits: if events.has(POLLOUT) && queue@.len() <= PIPE_BUFFER_SIZE {
                        POLLOUT
                    } else {
                        0
                    },
                },
            ),
    {
        if events.contains(POLLOUT) {
            if queue.bytes.len() <= PIPE_BUFFER_SIZE {
                return Ok(PollEvent { bits: POLLOUT });
            }
        }
        Ok(PollEvent { bits: 0 })
    }

    /// Fills in the file type. All else is left alone.
    pub fn stat(&self, stat: &mut Stat) -> (r: VfsResult<()>)
        ensures
            r == Ok::<(), Errno>(()),
            *final(stat) == (Stat { mode: StatMode { bits: MODE_FIFO }, ..*old(stat) }),
    {
        stat.mode = StatMode { bits: MODE_FIFO };
        Ok(())
    }
}

/// The conditions that a receiver reports when asked for `events`.
pub open spec fn receiver_ready(events: PollEvent, empty: bool, sender_alive: bool) -> u16 {
    if events.has(POLLIN) && !empty {
        POLLIN
    } else if (events.has(POLLIN) || events.has(POLLERR)) && empty && !sender_alive {
        POLLERR
    } else {
        0
    }
}

impl PipeReceiver {
    /// Receives bytes. `sender_alive` tells whether some sender of the pipe is left.
    pub fn readat(
        &self,
        queue: &mut PipeQueue,
        _offset: usize,
        buffer: &mut [u8],
        sender_alive: bool,
    ) -> (r: VfsResult<usize>)
        ensures
            received(
                old(queue)@,
                final(queue)@,
                old(buffer)@,
                final(buffer)@,
                sender_alive,
                r,
            ),
    {
        let ghost before = queue@;
        let ghost initial = buffer@;
        if buffer.len() == 0 {
            assert(queue@ =~= before.skip(0));
            assert(buffer@ =~= overwrite(initial, 0, before.take(0)));
            return Ok(0);
        }
        let available: usize = queue.bytes.len();
        if available == 0 {
            assert(queue@ =~= before.skip(0));
            assert(buffer@ =~= overwrite(initial, 0, before.take(0)));
            if sender_alive {
                return Err(Errno::EWOULDBLOCK);
            }
            return Ok(0);
        }
        let rlen: usize = if available <= buffer.len() {
            available
        } else {
            buffer.len()
        };
        let mut i: usize = 0;
        assert(queue@ =~= before.skip(0));
        assert(buffer@ =~= overwrite(initial, 0, before.take(0)));
        while i < rlen
            invariant
                i <= rlen,
                rlen <= before.len(),
                rlen <= initial.len(),
                queue@ == before.skip(i as int),
                buffer@ == overwrite(initial, 0, before.take(i as int)),
            decreases rlen - i,
        {
            let byte: u8 = queue.bytes.pop_front().unwrap();
            buffer[i] = byte;
            i = i + 1;
            assert(queue@ =~= before.skip(i as int));
            assert(buffer@ =~= overwrite(initial, 0, before.take(i as int)));
        }
        Ok(rlen)
    }

    /// Whether there is something to read, or the other end is gone.
    pub fn poll(&self, queue: &PipeQueue, events: PollEvent, sender_alive: bool) -> (r: VfsResult<
        PollEvent,
    >)
        ensures
            r == Ok::<PollEvent, Errno>(
                PollEvent { bits: receiver_ready(events, queue@.len() == 0, sender_alive) },
            ),
    {
        let mut bits: u16 = 0;
        let queue_len: usize = queue.bytes.len();
        if events.contains(POLLIN) {
            if queue_len > 0 {
                bits = bits | POLLIN;
            } else if !sender_alive {
                bits = bits | POLLERR;
            }
        }
        if events.contains(POLLERR) {
            if queue_len == 0 && !sender_alive {
                bits = bits | POLLERR;
            }
        }
        assert(0u16 | 1u16 == 1u16 && 0u16 | 8u16 == 8u16 && 8u16 | 8u16 == 8u16) by (bit_vector);
        Ok(PollEvent { bits })
    }

    /// Fills in the file type. All else is left alone.
    pub fn stat(&self, stat: &mut Stat) -> (r: VfsResult<()>)
        ensures
            r == Ok::<(), Errno>(()),
            *final(stat) == (Stat { mode: StatMode { bits: MODE_FIFO }, ..*old(stat) }),
    {
        stat.mode = StatMode { bits: MODE_FIFO };
        Ok(())
    }
}

/// Makes a pipe: its two ends, and the empty queue between them.
pub fn create_pipe() -> (r: (PipeReceiver, PipeSender, PipeQueue))
    ensures
        r.2@ == Seq::<u8>::empty(),
{
    (PipeReceiver, PipeSender, PipeQueue { bytes: VecDeque::new() })
}

/// Bytes come out in the order in which they went in: what two accepted writes into an empty pipe
/// sent, a large enough read receives, and nothing else.
pub proof fn law_first_in_first_out(
    middle: Seq<u8>,
    full: Seq<u8>,
    rest: Seq<u8>,
    first: Seq<u8>,
    second: Seq<u8>,
    buffer_before: Seq<u8>,
    buffer_after: Seq<u8>,
    sender_alive: bool,
    first_result: VfsResult<usize>,
    second_result: VfsResult<usize>,
    result: VfsResult<usize>,
)
    requires
        sent(Seq::empty(), middle, first, first_result),
        sent(middle, full, second, second_result),
        first_result is Ok,
        second_result is Ok,
        first.len() + second.len() > 0,
        first.len() + second.len() <= buffer_before.len() <= usize::MAX,
        received(full, rest, buffer_before, buffer_after, sender_alive, result),
    ensures
        result == Ok::<usize, Errno>((first.len() + second.len()) as usize),
        buffer_after.take((first.len() + second.len()) as int) == first + second,
        rest == Seq::<u8>::empty(),
{
    assert(full =~= first + second);
    assert(buffer_after.take((first.len() + second.len()) as int) =~= first + second);
    assert(rest =~= Seq::<u8>::empty());
}

/// No byte is lost or made up: what a read gave and what is still queued is what was queued.
pub proof fn law_read_loses_nothing(
    before: Seq<u8>,
    after: Seq<u8>,
    buffer_before: Seq<u8>,
    buffer_after: Seq<u8>,
    sender_alive: bool,
    result: VfsResult<usize>,
)
    requires
        before.len() <= usize::MAX,
        received(before, after, buffer_before, buffer_after, sender_alive, result),
        result is Ok,
    ensures
        buffer_after.take(result->Ok_0 as int) + after == before,
{
    assert(buffer_after.take(result->Ok_0 as int) + after =~= before);
}

/// One use of a pipe.
pub enum PipeUse {
    /// A write of the bytes, and its answer.
    Write { buffer: Seq<u8>, result: VfsResult<usize> },
    /// A read, with the buffer before and after it, and its answer.
    Read { before: Seq<u8>, after: Seq<u8>, sender_alive: bool, result: VfsResult<usize> },
}

/// The use leads from one state of the queue to the other.
pub open spec fn leads(before: Seq<u8>, after: Seq<u8>, used: PipeUse) -> bool {
    match used {
        PipeUse::Write { buffer, result } => sent(before, after, buffer, result),
        PipeUse::Read { before: b, after: a, sender_alive, result } => received(
            before,
            after,
            b,
            a,
            sender_alive,
            result,
        ),
    }
}

/// The use at `i` leads from the state at `i` to the one after it.
pub open spec fn leads_at(states: Seq<Seq<u8>>, uses: Seq<PipeUse>, i: int) -> bool {
    leads(states[i], states[i + 1], uses[i])
}

/// All bytes of the writes that were accepted, one after the other.
pub open spec fn all_sent(uses: Seq<PipeUse>) -> Seq<u8>
    decreases uses.len(),
{
    if uses.len() == 0 {
        Seq::empty()
    } else {
        let earlier = all_sent(uses.drop_last());
        match uses.last() {
            PipeUse::Write { buffer, result } if result is Ok => earlier + buffer,
            _ => earlier,
        }
    }
}

/// All bytes that the reads gave, one after the other.
pub open spec fn all_received(uses: Seq<PipeUse>) -> Seq<u8>
    decreases uses.len(),
{
    if uses.len() == 0 {
        Seq::empty()
    } else {
        let earlier = all_received(uses.drop_last());
        match uses.last() {
            PipeUse::Read { after, result, .. } if result is Ok => earlier + after.take(
                result->Ok_0 as int,
            ),
            _ => earlier,
        }
    }
}

/// Whatever is sent and received, in whatever portions: what was received and what is still queued
/// is, byte for byte and in this order, what was sent.
pub proof fn law_stream_is_kept(states: Seq<Seq<u8>>, uses: Seq<PipeUse>)
    requires
        states.len() == uses.len() + 1,
        states[0] == Seq::<u8>::empty(),
        forall|i: int| 0 <= i < states.len() ==> (#[trigger] states[i]).len() <= usize::MAX,
        forall|i: int| 0 <= i < uses.len() ==> #[trigger] leads_at(states, uses, i),
    ensures
        all_received(uses) + states.last() == all_sent(uses),
    decreases uses.len(),
{
    if uses.len() == 0 {
        assert(all_received(uses) + states.last() =~= all_sent(uses));
    } else {
        let n = uses.len() - 1;
        let earlier = uses.drop_last();
        let before = states.drop_last();
        assert forall|i: int| 0 <= i < earlier.len() implies #[trigger] leads_at(
            before,
            earlier,
            i,
        ) by {
            assert(leads_at(states, uses, i));
        }
        law_stream_is_kept(before, earlier);
        assert(leads_at(states, uses, n));
        match uses.last() {
            PipeUse::Write { buffer, result } => {
                assert(all_received(uses) + states.last() =~= all_sent(uses));
            },
            PipeUse::Read { before: b, after: a, sender_alive, result } => {
                if result is Ok {
                    law_read_loses_nothing(states[n], states[n + 1], b, a, sender_alive, result);
                }
                assert(all_received(uses) + states.last() =~= all_received(earlier)
                    + before.last());
            },
        }
    }
}

/// A small write is never refused, however full the pipe is.
pub proof fn law_small_writes_pass(queue: Seq<u8>, buffer: Seq<u8>)
    requires
        buffer.len() <= PIPE_SMALL_WRITE,
    ensures
        accepts(queue, buffer),
{
}

/// A write is refused exactly if it is of more than 16 bytes and would bring the queue above 65536
/// bytes; then the sender is to wait and nothing is sent. Else all of it is sent.
pub proof fn law_writes_that_are_refused(
    before: Seq<u8>,
    after: Seq<u8>,
    buffer: Seq<u8>,
    result: VfsResult<usize>,
)
    requires
        sent(before, after, buffer, result),
        buffer.len() <= usize::MAX,
    ensures
        result is Err <==> buffer.len() > 16 && before.len() + buffer.len() > 65536,
        result is Err ==> result->Err_0 == Errno::EAGAIN && after == before,
        result is Ok ==> result->Ok_0 == buffer.len() && after == before + buffer,
{
}

/// A read gives as many bytes as there are and as there is room for, the oldest first, and leaves the
/// rest of the buffer alone. It has to wait exactly if there is nothing to read, there is room, and a
/// sender is left; without a sender that is the end of the stream.
pub proof fn law_reads_that_wait(
    before: Seq<u8>,
    after: Seq<u8>,
    buffer_before: Seq<u8>,
    buffer_after: Seq<u8>,
    sender_alive: bool,
    result: VfsResult<usize>,
    i: int,
)
    requires
        received(before, after, buffer_before, buffer_after, sender_alive, result),
        buffer_before.len() <= usize::MAX,
        0 <= i < buffer_before.len(),
    ensures
        result is Err <==> before.len() == 0 && sender_alive,
        result is Err ==> result->Err_0 == Errno::EAGAIN && buffer_after[i] == buffer_before[i]
            && after == before,
        result is Ok ==> {
            let n = result->Ok_0 as int;
            &&& n <= buffer_before.len()
            &&& n <= before.len()
            &&& n == buffer_before.len() || after.len() == 0
            &&& after.len() == before.len() - n
            &&& i < n ==> buffer_after[i] == before[i]
            &&& i >= n ==> buffer_after[i] == buffer_before[i]
        },
        buffer_after.len() == buffer_before.len(),
{
}

/// A receiver is told that there is something to read if it asks for that and there is, and of an
/// error if it asks for either, there is nothing to read and no sender is left. Else it is told
/// nothing.
pub proof fn law_receiver_is_told(events: PollEvent, empty: bool, sender_alive: bool)
    ensures
        ({
            let told = receiver_ready(events, empty, sender_alive);
            let reads = events.bits % 2 == 1;
            let errors = events.bits / 8 % 2 == 1;
            &&& told == 1 <==> reads && !empty
            &&& told == 8 <==> (reads || errors) && empty && !sender_alive
            &&& told == 0 || told == 1 || told == 8
        }),
{
    crate::vfs::law_conditions_are_bits(events);
}

} // verus!
