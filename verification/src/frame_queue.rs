//! A ring of frame slots between one producer and one consumer.
//!
//! The queue hands out slot numbers; what a slot holds is the caller's. The
//! producer asks for a slot, fills it and commits; the consumer asks for the
//! oldest committed slot, uses it and commits the read, which gives the slot back.
use vstd::prelude::*;

verus! {

/// Number of slots.
pub const QUEUE_SIZE: u32 = 3;

pub struct FrameQueue {
    write_idx: u32,
    read_idx: u32,
    closed: bool,
    count: u32,
}

/// The contents of a [`FrameQueue`].
pub struct QueueModel {
    /// Frames committed by the producer so far.
    pub written: nat,
    /// Frames given back by the consumer so far.
    pub read: nat,
    pub closed: bool,
    /// Frames that the queue counts as waiting.
    pub count: nat,
}

/// The answer to a producer that asks for a slot.
#[derive(Clone, Copy, Debug, PartialEq, Eq, Structural)]
pub enum WriteSlot {
    /// Fill this slot.
    Slot(u32),
    /// All slots are waiting to be read; ask again after a read.
    Full,
    /// The queue was closed; there will be no slot.
    Closed,
}

/// The slot of the `k`-th frame.
pub open spec fn slot_of(k: nat) -> nat {
    k % QUEUE_SIZE as nat
}

impl View for FrameQueue {
    type V = QueueModel;

    closed spec fn view(&self) -> QueueModel {
        QueueModel {
            written: self.write_idx as nat,
            read: self.read_idx as nat,
            closed: self.closed,
            count: self.count as nat,
        }
    }
}

impl QueueModel {
    /// The state of a queue whose users keep to the protocol: they commit a write
    /// only after a slot was handed out, and a read only while a frame waits.
    pub open spec fn orderly(self) -> bool {
        &&& self.read <= self.written
        &&& self.count == self.written - self.read
        &&& self.count <= QUEUE_SIZE
    }

    /// Whether a frame waits to be read.
    pub open spec fn readable(self) -> bool {
        self.count != 0
    }

    /// The answer to a producer that asks for a slot.
    pub open spec fn write_slot(self) -> WriteSlot {
        if self.closed {
            WriteSlot::Closed
        } else if self.count >= QUEUE_SIZE {
            WriteSlot::Full
        } else {
            WriteSlot::Slot(slot_of(self.written) as u32)
        }
    }

    /// The state after the producer commits a frame. The count wraps around.
    pub open spec fn after_write(self) -> QueueModel {
        QueueModel {
            written: self.written + 1,
            count: if self.count == u32::MAX {
                0
            } else {
                self.count + 1
            },
            ..self
        }
    }

    /// The state after the consumer gives a frame back. The count wraps around.
    pub open spec fn after_read(self) -> QueueModel {
        QueueModel {
            read: self.read + 1,
            count: if self.count == 0 {
                u32::MAX as nat
            } else {
                (self.count - 1) as nat
            },
            ..self
        }
    }

    /// The frames that wait, oldest first, where `memory` is what the slots hold.
    pub open spec fn waiting<V>(self, memory: Seq<V>) -> Seq<V> {
        Seq::new(
            (self.written - self.read) as nat,
            |i: int| memory[slot_of((self.read + i) as nat) as int],
        )
    }
}

impl FrameQueue {
    pub fn new() -> (r: Self)
        ensures
            r@ == (QueueModel { written: 0, read: 0, closed: false, count: 0 }),
    {
        FrameQueue { write_idx: 0, read_idx: 0, closed: false, count: 0 }
    }

    /// Where the next frame goes. Nothing changes until the frame is committed.
    pub fn get_write_slot(&self) -> (r: WriteSlot)
        ensures
            r == self@.write_slot(),
    {
        if self.count >= QUEUE_SIZE && !self.closed {
            return WriteSlot::Full;
        }
        if self.closed {
            return WriteSlot::Closed;
        }
        WriteSlot::Slot(self.write_idx % QUEUE_SIZE)
    }

    /// Frames committed so far.
    pub fn written(&self) -> (r: u32)
        ensures
            r == self@.written,
    {
        self.write_idx
    }

    /// Frames given back so far.
    pub fn read(&self) -> (r: u32)
        ensures
            r == self@.read,
    {
        self.read_idx
    }

    /// Commits the frame in the slot that was handed out last.
    pub fn commit_write(&mut self)
        requires
            old(self)@.written < u32::MAX,
        ensures
            final(self)@ == old(self)@.after_write(),
    {
        self.write_idx = self.write_idx + 1;
        self.count = self.count.wrapping_add(1);
    }

    /// Gives the oldest committed slot back; returns its number. What the slot holds must be
    /// released before the queue is asked for a slot again: it can be handed out from now on.
    pub fn commit_read(&mut self) -> (r: u32)
        requires
            old(self)@.read < u32::MAX,
        ensures
            r == slot_of(old(self)@.read),
            final(self)@ == old(self)@.after_read(),
    {
        let idx: u32 = self.read_idx % QUEUE_SIZE;
        self.read_idx = self.read_idx + 1;
        self.count = self.count.wrapping_sub(1);
        idx
    }

    /// The slot of the oldest frame that waits.
    pub fn try_get_read_slot(&self) -> (r: Option<u32>)
        ensures
            r == if self@.readable() {
                Some(slot_of(self@.read) as u32)
            } else {
                None
            },
    {
        if self.count == 0 {
            return None;
        }
        Some(self.read_idx % QUEUE_SIZE)
    }

    /// Ends the hand-out of slots. Frames that wait can still be read.
    pub fn close(&mut self)
        ensures
            final(self)@ == (QueueModel { closed: true, ..old(self)@ }),
    {
        self.closed = true;
    }

    pub fn len(&self) -> (r: u32)
        ensures
            r == self@.count,
    {
        self.count
    }

    pub fn is_empty(&self) -> (r: bool)
        ensures
            r == !self@.readable(),
    {
        self.len() == 0
    }
}

impl Default for FrameQueue {
    fn default() -> (r: Self)
        ensures
            r@ == (QueueModel { written: 0, read: 0, closed: false, count: 0 }),
    {
        FrameQueue::new()
    }
}

/// Users that keep to the protocol keep the queue orderly: a write after a slot was
/// handed out, a read while a frame waits, and closing.
pub proof fn law_protocol_keeps_order(q: QueueModel)
    requires
        q.orderly(),
    ensures
        q.write_slot() is Slot ==> q.after_write().orderly(),
        q.readable() ==> q.after_read().orderly(),
        (QueueModel { closed: true, ..q }).orderly(),
{
}

/// A slot that is handed out to the producer holds no frame that waits, so filling
/// it disturbs none, whether or not it is committed.
pub proof fn law_write_slot_is_free<V>(q: QueueModel, memory: Seq<V>, v: V)
    requires
        q.orderly(),
        memory.len() == QUEUE_SIZE,
        q.write_slot() is Slot,
    ensures
        q.waiting(memory.update(q.write_slot()->Slot_0 as int, v)) == q.waiting(memory),
{
    let slot = slot_of(q.written);
    let filled = memory.update(slot as int, v);
    assert forall|i: int| 0 <= i < q.written - q.read implies q.waiting(filled)[i] == q.waiting(
        memory,
    )[i] by {
        assert(slot_of((q.read + i) as nat) != slot);
    }
    assert(q.waiting(filled) =~= q.waiting(memory));
}

/// Committing a filled slot appends what it holds to the frames that wait.
pub proof fn law_write_appends<V>(q: QueueModel, memory: Seq<V>, v: V)
    requires
        q.orderly(),
        memory.len() == QUEUE_SIZE,
        q.write_slot() is Slot,
    ensures
        q.after_write().waiting(memory.update(q.write_slot()->Slot_0 as int, v)) == q.waiting(
            memory,
        ).push(v),
{
    law_write_slot_is_free(q, memory, v);
    let filled = memory.update(slot_of(q.written) as int, v);
    assert forall|i: int| 0 <= i < q.written - q.read implies q.after_write().waiting(filled)[i]
        == q.waiting(memory)[i] by {
        assert(q.waiting(filled)[i] == q.waiting(memory)[i]);
    }
    assert(q.after_write().waiting(filled) =~= q.waiting(memory).push(v));
}

/// The consumer reads what was written first: its slot holds the oldest frame that
/// waits, and giving it back removes just that frame.
pub proof fn law_read_takes_oldest<V>(q: QueueModel, memory: Seq<V>)
    requires
        q.orderly(),
        memory.len() == QUEUE_SIZE,
        q.readable(),
    ensures
        memory[slot_of(q.read) as int] == q.waiting(memory)[0],
        q.after_read().waiting(memory) == q.waiting(memory).drop_first(),
{
    assert(q.after_read().waiting(memory) =~= q.waiting(memory).drop_first());
}

/// What the consumer holds stays in place: while the oldest frame has not been
/// given back, neither a slot handed out nor a committed write touches it.
pub proof fn law_held_frame_is_untouched(q: QueueModel)
    requires
        q.orderly(),
        q.readable(),
        q.write_slot() is Slot,
    ensures
        slot_of(q.read) != q.write_slot()->Slot_0,
        slot_of(q.after_write().read) == slot_of(q.read),
{
}

/// Closing ends the hand-out of slots and leaves the frames that wait alone.
pub proof fn law_close_keeps_frames<V>(q: QueueModel, memory: Seq<V>)
    ensures
        (QueueModel { closed: true, ..q }).write_slot() is Closed,
        (QueueModel { closed: true, ..q }).waiting(memory) == q.waiting(memory),
        (QueueModel { closed: true, ..q }).readable() == q.readable(),
{
    assert((QueueModel { closed: true, ..q }).waiting(memory) =~= q.waiting(memory));
}

/// What the users of a queue do with it.
pub enum QueueOp<V> {
    /// The producer asks for a slot and, where there is one, fills and commits it.
    Write(V),
    /// The consumer takes the oldest frame, where there is one, and gives it back.
    Read,
    Close,
}

/// A queue with what its slots hold, what was written to it and what was read from it.
pub struct QueueHistory<V> {
    pub queue: QueueModel,
    pub memory: Seq<V>,
    pub written: Seq<V>,
    pub read: Seq<V>,
}

/// The history after one more step.
pub open spec fn after_op<V>(h: QueueHistory<V>, op: QueueOp<V>) -> QueueHistory<V> {
    match op {
        QueueOp::Write(v) => match h.queue.write_slot() {
            WriteSlot::Slot(i) => QueueHistory {
                queue: h.queue.after_write(),
                memory: h.memory.update(i as int, v),
                written: h.written.push(v),
                ..h
            },
            _ => h,
        },
        QueueOp::Read => if h.queue.readable() {
            QueueHistory {
                queue: h.queue.after_read(),
                read: h.read.push(h.memory[slot_of(h.queue.read) as int]),
                ..h
            }
        } else {
            h
        },
        QueueOp::Close => QueueHistory { queue: QueueModel { closed: true, ..h.queue }, ..h },
    }
}

/// The history of a new queue whose slots hold `memory` at first.
pub open spec fn history<V>(memory: Seq<V>, ops: Seq<QueueOp<V>>) -> QueueHistory<V>
    decreases ops.len(),
{
    if ops.len() == 0 {
        QueueHistory {
            queue: QueueModel { written: 0, read: 0, closed: false, count: 0 },
            memory,
            written: seq![],
            read: seq![],
        }
    } else {
        after_op(history(memory, ops.drop_last()), ops.last())
    }
}

/// In whatever order its users come, frames are read in the order in which they were
/// written, none is lost and none is read twice: what was read, followed by what waits, is
/// what was written.
pub proof fn law_first_in_first_out<V>(memory: Seq<V>, ops: Seq<QueueOp<V>>)
    requires
        memory.len() == QUEUE_SIZE,
    ensures
        ({
            let h = history(memory, ops);
            &&& h.read + h.queue.waiting(h.memory) == h.written
            &&& h.queue.orderly()
            &&& h.memory.len() == QUEUE_SIZE
        }),
    decreases ops.len(),
{
    let h = history(memory, ops);
    if ops.len() == 0 {
        assert(h.read + h.queue.waiting(h.memory) =~= h.written);
    } else {
        let before = history(memory, ops.drop_last());
        let waiting = before.queue.waiting(before.memory);
        law_first_in_first_out(memory, ops.drop_last());
        law_protocol_keeps_order(before.queue);
        match ops.last() {
            QueueOp::Write(v) => {
                if before.queue.write_slot() is Slot {
                    law_write_appends(before.queue, before.memory, v);
                    assert(before.read + waiting.push(v) =~= (before.read + waiting).push(v));
                }
            },
            QueueOp::Read => {
                if before.queue.readable() {
                    law_read_takes_oldest(before.queue, before.memory);
                    assert(before.read.push(waiting[0]) + waiting.drop_first() =~= before.read
                        + waiting);
                }
            },
            QueueOp::Close => {
                law_close_keeps_frames(before.queue, before.memory);
            },
        }
    }
}

/// A slot is handed out exactly while the queue is open and fewer than three frames wait, and
/// frames take the three slots in turn.
pub proof fn law_three_slots_are_taken_in_turn(q: QueueModel)
    requires
        q.orderly(),
    ensures
        q.closed ==> q.write_slot() == WriteSlot::Closed,
        !q.closed && q.written - q.read >= 3 ==> q.write_slot() == WriteSlot::Full,
        !q.closed && q.written - q.read < 3 ==> q.write_slot() == WriteSlot::Slot(
            (q.written % 3) as u32,
        ),
        q.readable() <==> q.written > q.read,
        slot_of(q.read) == q.read % 3,
{
}

/// A frame that is committed counts as one that waits, and one that is given back no longer
/// does; neither opens or closes the queue.
pub proof fn law_frames_are_counted(q: QueueModel)
    requires
        q.orderly(),
    ensures
        q.after_write().written == q.written + 1,
        q.after_write().read == q.read,
        q.after_write().closed == q.closed,
        q.after_write().count == q.count + 1,
        q.after_read().written == q.written,
        q.after_read().read == q.read + 1,
        q.after_read().closed == q.closed,
        q.readable() ==> q.after_read().count == q.count - 1,
{
}

/// The frames that wait are those written and not read, each in its slot.
pub proof fn law_waiting_frames_are_those_not_read<V>(q: QueueModel, memory: Seq<V>, i: int)
    requires
        q.orderly(),
    ensures
        q.waiting(memory).len() == q.written - q.read,
        0 <= i < q.written - q.read ==> q.waiting(memory)[i] == memory[(q.read + i) % 3],
{
}

} // verus!
