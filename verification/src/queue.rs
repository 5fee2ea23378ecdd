//! Fixed-capacity, allocation-free event queue.
//!
//! One queue connects a single interrupt-context producer to a single
//! task-context consumer.  The buffer itself is a bounded lock-free queue
//! from an outside crate; this module wraps it in a type that keeps the
//! fixed capacity and counts the events shed when the buffer is full.

use vstd::prelude::*;

verus! {

use crossbeam_queue::ArrayQueue;

#[verifier::external_type_specification]
#[verifier::external_body]
#[verifier::reject_recursive_types(T)]
pub struct ExArrayQueue<T>(ArrayQueue<T>);

/// The events the buffer currently holds, oldest first.
pub uninterp spec fn buffered(q: ArrayQueue<u8>) -> Seq<u8>;

/// The capacity the buffer was constructed with.
pub uninterp spec fn bound_of(q: ArrayQueue<u8>) -> nat;

/// Relies on crossbeam_queue::ArrayQueue::new: builds an empty bounded queue
/// with exactly the given capacity (it panics on a zero capacity, which the
/// precondition rules out).
#[verifier::external_body]
fn buffer_new(cap: usize) -> (q: ArrayQueue<u8>)
    requires
        1 <= cap <= 65536,
    ensures
        buffered(q) == Seq::<u8>::empty(),
        bound_of(q) == cap as nat,
{
    ArrayQueue::new(cap)
}

/// Relies on crossbeam_queue::ArrayQueue::push: appends the value at the tail
/// when the queue holds fewer elements than its capacity, and otherwise hands
/// the value back as an error and leaves the queue unchanged.
#[verifier::external_body]
fn buffer_push(q: &mut ArrayQueue<u8>, ev: u8) -> (r: Result<(), u8>)
    ensures
        bound_of(*final(q)) == bound_of(*old(q)),
        buffered(*old(q)).len() < bound_of(*old(q)) ==> r is Ok
            && buffered(*final(q)) == buffered(*old(q)).push(ev),
        buffered(*old(q)).len() >= bound_of(*old(q)) ==> r is Err
            && buffered(*final(q)) == buffered(*old(q)),
{
    q.push(ev)
}

/// Relies on crossbeam_queue::ArrayQueue::pop: removes and returns the oldest
/// element, or returns None and changes nothing when the queue is empty.
#[verifier::external_body]
fn buffer_pop(q: &mut ArrayQueue<u8>) -> (r: Option<u8>)
    ensures
        bound_of(*final(q)) == bound_of(*old(q)),
        buffered(*old(q)).len() == 0 ==> r is None
            && buffered(*final(q)) == buffered(*old(q)),
        buffered(*old(q)).len() > 0 ==> r == Some(buffered(*old(q))[0])
            && buffered(*final(q)) == buffered(*old(q)).drop_first(),
{
    q.pop()
}

/// Relies on crossbeam_queue::ArrayQueue::len: the number of elements held.
#[verifier::external_body]
fn buffer_len(q: &ArrayQueue<u8>) -> (n: usize)
    ensures
        n as nat == buffered(*q).len(),
{
    q.len()
}

/// Mathematical state of an event queue: the buffered events, the fixed
/// capacity, and how many events were shed because the buffer was full.
#[verifier::ext_equal]
pub struct QueueModel {
    pub events: Seq<u8>,
    pub capacity: nat,
    pub dropped: nat,
}

/// One push: append when there is room, otherwise shed the event and count it.
pub open spec fn queue_push_step(m: QueueModel, ev: u8) -> QueueModel {
    if m.events.len() < m.capacity {
        QueueModel { events: m.events.push(ev), capacity: m.capacity, dropped: m.dropped }
    } else {
        QueueModel { events: m.events, capacity: m.capacity, dropped: m.dropped + 1 }
    }
}

/// One pop: take the oldest event, or nothing when the queue is empty.
pub open spec fn queue_pop_step(m: QueueModel) -> (QueueModel, Option<u8>) {
    if m.events.len() == 0 {
        (m, None)
    } else {
        (
            QueueModel { events: m.events.drop_first(), capacity: m.capacity, dropped: m.dropped },
            Some(m.events[0]),
        )
    }
}

/// A fixed-capacity queue of byte events with a shed-event counter.
///
/// A tick source pushes a placeholder byte per tick; a scancode source pushes
/// the raw byte from the keyboard controller.
pub struct EventQueue {
    slots: ArrayQueue<u8>,
    capacity: usize,
    dropped: u64,
}

impl View for EventQueue {
    type V = QueueModel;

    closed spec fn view(&self) -> QueueModel {
        QueueModel {
            events: buffered(self.slots),
            capacity: self.capacity as nat,
            dropped: self.dropped as nat,
        }
    }
}

impl EventQueue {
    /// The queue never holds more events than its capacity, and the capacity
    /// is the one the buffer was built with.
    pub closed spec fn wf(&self) -> bool {
        &&& bound_of(self.slots) == self.capacity as nat
        &&& buffered(self.slots).len() <= self.capacity as nat
        &&& 1 <= self.capacity
    }

    /// An empty queue with the given capacity; nothing has been shed yet.
    pub fn new(capacity: usize) -> (q: EventQueue)
        requires
            1 <= capacity <= 65536,
        ensures
            q.wf(),
            q@ == (QueueModel { events: Seq::<u8>::empty(), capacity: capacity as nat, dropped: 0 }),
    {
        EventQueue { slots: buffer_new(capacity), capacity, dropped: 0 }
    }

    /// Push one event.  Never blocks: when the queue is full the event is
    /// shed and counted instead.  Returns whether the event was accepted.
    pub fn push(&mut self, ev: u8) -> (accepted: bool)
        requires
            old(self).wf(),
            old(self)@.dropped < u64::MAX,
        ensures
            final(self).wf(),
            final(self)@ == queue_push_step(old(self)@, ev),
            accepted == (old(self)@.events.len() < old(self)@.capacity),
    {
        match buffer_push(&mut self.slots, ev) {
            Ok(()) => true,
            Err(_) => {
                self.dropped = self.dropped + 1;
                false
            },
        }
    }

    /// Pop the oldest event, or None when the queue is empty.  Never blocks.
    pub fn try_pop(&mut self) -> (r: Option<u8>)
        requires
            old(self).wf(),
        ensures
            final(self).wf(),
            (final(self)@, r) == queue_pop_step(old(self)@),
    {
        buffer_pop(&mut self.slots)
    }

    /// How many events are currently buffered.
    pub fn len(&self) -> (n: usize)
        ensures
            n as nat == self@.events.len(),
    {
        buffer_len(&self.slots)
    }

    /// The fixed capacity.
    pub fn capacity(&self) -> (c: usize)
        ensures
            c as nat == self@.capacity,
    {
        self.capacity
    }

    /// How many events were shed because the queue was full.
    pub fn dropped(&self) -> (d: u64)
        ensures
            d as nat == self@.dropped,
    {
        self.dropped
    }
}

} // verus!
