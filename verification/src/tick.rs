//! The timer-tick event source: a bridge of unit events and the pollable
//! stream over it.
//!
//! The stream owns its bridge, so a second stream over the same queue cannot
//! be constructed at all; the composition root owns the single `TickStream`
//! and hands the producer side to the timer interrupt handler.

use vstd::prelude::*;

verus! {

use crate::bridge::Bridge;
use crate::bridge::BridgeModel;
use crate::bridge::Poll;
use crate::bridge::TaskId;
use crate::bridge::fresh_bridge;
use crate::bridge::poll_step;
use crate::bridge::producer_step;

/// How many ticks the queue can hold before shedding.
pub const TICK_QUEUE_CAPACITY: usize = 100;

/// A tick carries no payload; this placeholder byte stands for one tick.
pub const TICK_EVENT: u8 = 0;

/// What polling the tick stream reports.
#[derive(Debug, Clone, Copy, PartialEq, Eq, Structural)]
pub enum TickPoll {
    Ready,
    Pending,
}

/// A lazy, logically infinite sequence of timer ticks.
pub struct TickStream {
    bridge: Bridge,
}

impl View for TickStream {
    type V = BridgeModel;

    closed spec fn view(&self) -> BridgeModel {
        self.bridge@
    }
}

/// Producer entry point for the timer interrupt handler: record one tick and
/// consume the waker registration.  Never blocks and never allocates; when
/// the queue is full the tick is shed and counted.
pub fn add_tick(stream: &mut TickStream) -> (woken: Option<TaskId>)
    requires
        old(stream).wf(),
        old(stream)@.queue.dropped < u64::MAX,
    ensures
        final(stream).wf(),
        (final(stream)@, woken) == producer_step(old(stream)@, TICK_EVENT),
{
    stream.bridge.push_event(TICK_EVENT)
}

impl TickStream {
    pub closed spec fn wf(&self) -> bool {
        self.bridge.wf()
    }

    /// A fresh tick stream over its own empty queue of 100 slots.
    pub fn new() -> (s: TickStream)
        ensures
            s.wf(),
            s@ == fresh_bridge(TICK_QUEUE_CAPACITY as nat),
    {
        TickStream { bridge: Bridge::new(TICK_QUEUE_CAPACITY) }
    }

    /// Poll for the next tick, following the register-then-re-check protocol.
    pub fn poll_next(&mut self, consumer: TaskId) -> (r: TickPoll)
        requires
            old(self).wf(),
        ensures
            final(self).wf(),
            final(self)@ == poll_step(old(self)@, consumer).0,
            r == (match poll_step(old(self)@, consumer).1 {
                Poll::Ready(_) => TickPoll::Ready,
                Poll::Pending => TickPoll::Pending,
            }),
    {
        match self.bridge.poll_next(consumer) {
            Poll::Ready(_) => TickPoll::Ready,
            Poll::Pending => TickPoll::Pending,
        }
    }

    /// How many ticks were shed because the queue was full.
    pub fn dropped(&self) -> (d: u64)
        ensures
            d as nat == self@.queue.dropped,
    {
        self.bridge.dropped()
    }

    /// How many ticks are currently buffered.
    pub fn len(&self) -> (n: usize)
        ensures
            n as nat == self@.queue.events.len(),
    {
        self.bridge.len()
    }
}

} // verus!
