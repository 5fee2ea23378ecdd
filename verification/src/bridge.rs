//! The interrupt-to-task bridge: one bounded event queue paired with a
//! single-slot waker cell, and the wakeup protocol that connects an
//! interrupt-context producer to a task-context consumer without losing a
//! wakeup.
//!
//! Producer side (interrupt context): push the event, then unconditionally
//! consume the waker cell and hand the woken task back to the scheduler.
//! Consumer side (task context): try to pop; if empty, register, then try to
//! pop a second time; only if that re-check still finds nothing does the
//! consumer report Pending.  The re-check after registration is what closes
//! the window in which a push could otherwise slip by unnoticed.

use vstd::prelude::*;

verus! {

use crate::queue::EventQueue;
use crate::queue::QueueModel;
use crate::queue::queue_push_step;
use crate::queue::queue_pop_step;

/// Identity of a task, as handed out by the executor.
pub type TaskId = u64;

/// Holds at most one pending notification target.  Registering overwrites any
/// previous target; waking consumes the target if present.
pub struct WakerCell {
    target: Option<TaskId>,
}

impl View for WakerCell {
    type V = Option<TaskId>;

    closed spec fn view(&self) -> Option<TaskId> {
        self.target
    }
}

impl WakerCell {
    /// An empty cell: nothing is waiting.
    pub fn new() -> (c: WakerCell)
        ensures
            c@ is None,
    {
        WakerCell { target: None }
    }

    /// Record the task to be notified next; the last registration wins.
    pub fn register(&mut self, task: TaskId)
        ensures
            final(self)@ == Some(task),
    {
        self.target = Some(task);
    }

    /// Consume and return the registered target, if any.
    pub fn take(&mut self) -> (woken: Option<TaskId>)
        ensures
            final(self)@ is None,
            woken == old(self)@,
    {
        let woken = self.target;
        self.target = None;
        woken
    }
}

/// What a consumer poll reports: an event, or "not ready, wake me later".
#[derive(Debug, Clone, Copy, PartialEq, Eq, Structural)]
pub enum Poll {
    Ready(u8),
    Pending,
}

/// Mathematical state of a bridge: the queue state plus the waker target.
#[verifier::ext_equal]
pub struct BridgeModel {
    pub queue: QueueModel,
    pub waker: Option<TaskId>,
}

/// A fresh bridge: empty queue of the given capacity, nothing registered.
pub open spec fn fresh_bridge(capacity: nat) -> BridgeModel {
    BridgeModel {
        queue: QueueModel { events: Seq::<u8>::empty(), capacity, dropped: 0 },
        waker: None,
    }
}

/// The producer's whole step: push the event (shedding it when the queue is
/// full), then consume the waker cell; the consumed target is the task the
/// interrupt handler hands to the scheduler.
pub open spec fn producer_step(b: BridgeModel, ev: u8) -> (BridgeModel, Option<TaskId>) {
    (BridgeModel { queue: queue_push_step(b.queue, ev), waker: None }, b.waker)
}

/// A consumer's attempt to pop; the waker cell is not touched.
pub open spec fn check_step(b: BridgeModel) -> (BridgeModel, Option<u8>) {
    let (q, r) = queue_pop_step(b.queue);
    (BridgeModel { queue: q, waker: b.waker }, r)
}

/// The consumer registers itself as the wake target.
pub open spec fn register_step(b: BridgeModel, consumer: TaskId) -> BridgeModel {
    BridgeModel { queue: b.queue, waker: Some(consumer) }
}

/// The consumer takes its registration back.
pub open spec fn unregister_step(b: BridgeModel) -> BridgeModel {
    BridgeModel { queue: b.queue, waker: None }
}

/// The full poll protocol, as observed when no interrupt interleaves:
/// a non-empty queue yields its oldest event at once; an empty queue leaves
/// the consumer registered and reports Pending.
pub open spec fn poll_step(b: BridgeModel, consumer: TaskId) -> (BridgeModel, Poll) {
    if b.queue.events.len() > 0 {
        let (b1, r) = check_step(b);
        (b1, Poll::Ready(b.queue.events[0]))
    } else {
        (register_step(b, consumer), Poll::Pending)
    }
}

/// One event queue paired with its waker cell.
pub struct Bridge {
    queue: EventQueue,
    waker: WakerCell,
}

impl View for Bridge {
    type V = BridgeModel;

    closed spec fn view(&self) -> BridgeModel {
        BridgeModel { queue: self.queue@, waker: self.waker@ }
    }
}

impl Bridge {
    pub closed spec fn wf(&self) -> bool {
        self.queue.wf()
    }

    /// A fresh bridge with an empty queue of the given capacity.
    pub fn new(capacity: usize) -> (b: Bridge)
        requires
            1 <= capacity <= 65536,
        ensures
            b.wf(),
            b@ == fresh_bridge(capacity as nat),
    {
        Bridge { queue: EventQueue::new(capacity), waker: WakerCell::new() }
    }

    /// Producer entry point, called from interrupt context: push the event
    /// (shedding it when the queue is full), then unconditionally consume the
    /// waker cell.  Returns the task to be woken, if one was registered.
    /// Never blocks and never allocates.
    pub fn push_event(&mut self, ev: u8) -> (woken: Option<TaskId>)
        requires
            old(self).wf(),
            old(self)@.queue.dropped < u64::MAX,
        ensures
            final(self).wf(),
            (final(self)@, woken) == producer_step(old(self)@, ev),
    {
        self.queue.push(ev);
        self.waker.take()
    }

    /// Consumer's bare pop attempt; one atomic step of the poll protocol.
    pub fn try_pop(&mut self) -> (r: Option<u8>)
        requires
            old(self).wf(),
        ensures
            final(self).wf(),
            (final(self)@, r) == check_step(old(self)@),
    {
        self.queue.try_pop()
    }

    /// Consumer registers itself; one atomic step of the poll protocol.
    pub fn register_waker(&mut self, consumer: TaskId)
        requires
            old(self).wf(),
        ensures
            final(self).wf(),
            final(self)@ == register_step(old(self)@, consumer),
    {
        self.waker.register(consumer);
    }

    /// Consumer takes its registration back; one atomic step of the protocol.
    pub fn unregister_waker(&mut self)
        requires
            old(self).wf(),
        ensures
            final(self).wf(),
            final(self)@ == unregister_step(old(self)@),
    {
        self.waker.take();
    }

    /// The consumer's poll: try to pop; if empty, register, then try to pop
    /// again; give the registration back if the re-check found data.
    pub fn poll_next(&mut self, consumer: TaskId) -> (r: Poll)
        requires
            old(self).wf(),
        ensures
            final(self).wf(),
            (final(self)@, r) == poll_step(old(self)@, consumer),
    {
        match self.try_pop() {
            Some(ev) => Poll::Ready(ev),
            None => {
                self.register_waker(consumer);
                match self.try_pop() {
                    Some(ev) => {
                        self.unregister_waker();
                        Poll::Ready(ev)
                    },
                    None => Poll::Pending,
                }
            },
        }
    }

    /// How many events the producer shed because the queue was full.
    pub fn dropped(&self) -> (d: u64)
        ensures
            d as nat == self@.queue.dropped,
    {
        self.queue.dropped()
    }

    /// How many events are currently buffered.
    pub fn len(&self) -> (n: usize)
        ensures
            n as nat == self@.queue.events.len(),
    {
        self.queue.len()
    }
}

/// The producer's step applied to each event of a sequence in turn.
pub open spec fn push_all(b: BridgeModel, evs: Seq<u8>) -> BridgeModel
    decreases evs.len(),
{
    if evs.len() == 0 {
        b
    } else {
        push_all(producer_step(b, evs[0]).0, evs.drop_first())
    }
}

/// The consumer's pop applied until the queue is empty, collecting the events.
pub open spec fn pop_all(q: QueueModel) -> Seq<u8>
    decreases q.events.len(),
{
    if q.events.len() == 0 {
        Seq::<u8>::empty()
    } else {
        let (q1, r) = queue_pop_step(q);
        seq![q.events[0]] + pop_all(q1)
    }
}

/// Draining a queue yields exactly the buffered events, oldest first.
pub proof fn lemma_pop_all_yields_events(q: QueueModel)
    ensures
        pop_all(q) == q.events,
    decreases q.events.len(),
{
    if q.events.len() == 0 {
        assert(pop_all(q) =~= q.events);
    } else {
        let (q1, r) = queue_pop_step(q);
        lemma_pop_all_yields_events(q1);
        assert(pop_all(q) =~= q.events);
    }
}

/// How a burst of pushes lands in a bounded queue: events fill the free room
/// in arrival order; everything past that is shed and counted, and the queue
/// state is otherwise untouched.
pub proof fn lemma_push_all(b: BridgeModel, evs: Seq<u8>)
    requires
        b.queue.events.len() <= b.queue.capacity,
    ensures
        ({
            let free = b.queue.capacity - b.queue.events.len();
            let kept = if evs.len() <= free { evs } else { evs.take(free as int) };
            let out = push_all(b, evs);
            &&& out.queue.events == b.queue.events + kept
            &&& out.queue.dropped == b.queue.dropped + if evs.len() <= free { 0 } else {
                evs.len() - free
            }
            &&& out.queue.capacity == b.queue.capacity
            &&& out.waker == if evs.len() == 0 { b.waker } else { None::<TaskId> }
        }),
    decreases evs.len(),
{
    let free = b.queue.capacity - b.queue.events.len();
    if evs.len() == 0 {
        assert(push_all(b, evs).queue.events =~= b.queue.events + evs.take(0));
        assert(b.queue.events + Seq::<u8>::empty() =~= b.queue.events);
    } else {
        let b1 = producer_step(b, evs[0]).0;
        lemma_push_all(b1, evs.drop_first());
        if free > 0 {
            assert(b1.queue.events =~= b.queue.events.push(evs[0]));
            let free1 = b1.queue.capacity - b1.queue.events.len();
            assert(free1 == free - 1);
            let rest = evs.drop_first();
            if rest.len() <= free1 {
                assert(b.queue.events + evs =~= b.queue.events.push(evs[0]) + rest);
            } else {
                assert(b.queue.events + evs.take(free as int) =~= b.queue.events.push(evs[0])
                    + rest.take(free1 as int));
            }
        } else {
            assert(b1.queue.events == b.queue.events);
            assert(b.queue.events + evs.take(0) =~= b.queue.events);
        }
    }
}

/// With no concurrent pops, pushing N events into a fresh bridge of capacity
/// at least N and then draining it yields exactly those N events, in push
/// order, and nothing is shed.
pub proof fn lemma_fifo_order(capacity: nat, evs: Seq<u8>)
    requires
        evs.len() <= capacity,
    ensures
        pop_all(push_all(fresh_bridge(capacity), evs).queue) == evs,
        push_all(fresh_bridge(capacity), evs).queue.dropped == 0,
{
    let b = fresh_bridge(capacity);
    lemma_push_all(b, evs);
    lemma_pop_all_yields_events(push_all(b, evs).queue);
    assert(Seq::<u8>::empty() + evs =~= evs);
}

/// When more events arrive than a fresh bridge of capacity C can hold,
/// exactly the first C are retained, and each later push is shed and counted;
/// no push blocks (every producer step is total).
pub proof fn lemma_overflow_retains_first(capacity: nat, evs: Seq<u8>)
    requires
        evs.len() >= capacity,
    ensures
        push_all(fresh_bridge(capacity), evs).queue.events == evs.take(capacity as int),
        push_all(fresh_bridge(capacity), evs).queue.dropped == evs.len() - capacity,
{
    let b = fresh_bridge(capacity);
    lemma_push_all(b, evs);
    if evs.len() == capacity {
        assert(Seq::<u8>::empty() + evs =~= evs.take(capacity as int));
    } else {
        assert(Seq::<u8>::empty() + evs.take(capacity as int) =~= evs.take(capacity as int));
    }
}

/// No lost wakeup, first race: a push that lands after the consumer's empty
/// check but before its registration is still delivered by the re-check that
/// follows registration, on that very poll.
pub proof fn lemma_push_before_registration_is_delivered(
    b: BridgeModel,
    ev: u8,
    consumer: TaskId,
)
    requires
        b.queue.events.len() == 0,
        b.queue.capacity >= 1,
    ensures
        ({
            let (b1, first) = check_step(b);  // consumer finds the queue empty
            let (b2, woken) = producer_step(b1, ev);  // interrupt: push, then wake
            let b3 = register_step(b2, consumer);  // consumer registers
            let (b4, second) = check_step(b3);  // consumer re-checks
            &&& first is None
            &&& second == Some(ev)
        }),
{
}

/// No lost wakeup, second race: once a poll has reported Pending the consumer
/// is registered, and the very next push consumes that registration and wakes
/// exactly the registered consumer.
pub proof fn lemma_push_after_pending_wakes(b: BridgeModel, ev: u8, consumer: TaskId)
    requires
        b.queue.events.len() == 0,
    ensures
        poll_step(b, consumer).1 == Poll::Pending,
        producer_step(poll_step(b, consumer).0, ev).1 == Some(consumer),
{
}

} // verus!
