//! The keyboard event source: a bridge of raw scancode bytes and the
//! pollable stream over it.  Decoding scancodes into keys is left to the
//! caller; this module only carries the bytes from interrupt context to task
//! context.

use vstd::prelude::*;

verus! {

use crate::bridge::Bridge;
use crate::bridge::BridgeModel;
use crate::bridge::Poll;
use crate::bridge::TaskId;
use crate::bridge::fresh_bridge;
use crate::bridge::poll_step;
use crate::bridge::producer_step;

/// How many scancodes the queue can hold before shedding.
pub const SCANCODE_QUEUE_CAPACITY: usize = 100;

/// A lazy, logically infinite sequence of raw scancode bytes.
pub struct ScancodeStream {
    bridge: Bridge,
}

impl View for ScancodeStream {
    type V = BridgeModel;

    closed spec fn view(&self) -> BridgeModel {
        self.bridge@
    }
}

/// Producer entry point for the keyboard interrupt handler: record one raw
/// scancode byte and consume the waker registration.  Never blocks and never
/// allocates; when the queue is full the scancode is shed and counted.
pub fn add_scancode(stream: &mut ScancodeStream, scancode: u8) -> (woken: Option<TaskId>)
    requires
        old(stream).wf(),
        old(stream)@.queue.dropped < u64::MAX,
    ensures
        final(stream).wf(),
        (final(stream)@, woken) == producer_step(old(stream)@, scancode),
{
    stream.bridge.push_event(scancode)
}

impl ScancodeStream {
    pub closed spec fn wf(&self) -> bool {
        self.bridge.wf()
    }

    /// A fresh scancode stream over its own empty queue of 100 slots.
    pub fn new() -> (s: ScancodeStream)
        ensures
            s.wf(),
            s@ == fresh_bridge(SCANCODE_QUEUE_CAPACITY as nat),
    {
        ScancodeStream { bridge: Bridge::new(SCANCODE_QUEUE_CAPACITY) }
    }

    /// Poll for the next scancode, following the register-then-re-check
    /// protocol.
    pub fn poll_next(&mut self, consumer: TaskId) -> (r: Poll)
        requires
            old(self).wf(),
        ensures
            final(self).wf(),
            (final(self)@, r) == poll_step(old(self)@, consumer),
    {
        self.bridge.poll_next(consumer)
    }

    /// How many scancodes were shed because the queue was full.
    pub fn dropped(&self) -> (d: u64)
        ensures
            d as nat == self@.queue.dropped,
    {
        self.bridge.dropped()
    }

    /// How many scancodes are currently buffered.
    pub fn len(&self) -> (n: usize)
        ensures
            n as nat == self@.queue.events.len(),
    {
        self.bridge.len()
    }
}

} // verus!
