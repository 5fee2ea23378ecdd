//! The interrupt-to-task bridge under concrete event sequences: FIFO order,
//! overflow shedding, and the lost-wakeup interleavings.

use snakeos::bridge::{Bridge, Poll};
use snakeos::keyboard::{add_scancode, ScancodeStream};
use snakeos::tick::{add_tick, TickPoll, TickStream};

const CONSUMER: u64 = 7;

#[test]
fn fifo_order_within_capacity() {
    // Pushing N <= capacity events with no pops in between yields exactly
    // those N events, in push order.
    let mut s = ScancodeStream::new();
    for b in [10u8, 20, 30, 40, 50] {
        add_scancode(&mut s, b);
    }
    assert_eq!(s.len(), 5);
    assert_eq!(s.dropped(), 0);
    for b in [10u8, 20, 30, 40, 50] {
        assert_eq!(s.poll_next(CONSUMER), Poll::Ready(b));
    }
    assert_eq!(s.poll_next(CONSUMER), Poll::Pending);
}

#[test]
fn overflow_keeps_first_hundred_and_counts_drops() {
    // 150 pushes into a queue of 100 slots with no consumption: the first
    // 100 are retained, 50 are dropped and counted, and no push blocks.
    let mut s = ScancodeStream::new();
    for i in 0..150u32 {
        add_scancode(&mut s, (i % 251) as u8);
    }
    assert_eq!(s.len(), 100);
    assert_eq!(s.dropped(), 50);
    for i in 0..100u32 {
        assert_eq!(s.poll_next(CONSUMER), Poll::Ready((i % 251) as u8));
    }
    assert_eq!(s.poll_next(CONSUMER), Poll::Pending);
    assert_eq!(s.dropped(), 50);
}

#[test]
fn tick_overflow_scenario() {
    // Interrupt context pushes 150 ticks with no consumption in between;
    // consuming afterwards yields exactly 100 ticks and 50 recorded drops.
    let mut t = TickStream::new();
    for _ in 0..150 {
        add_tick(&mut t);
    }
    assert_eq!(t.len(), 100);
    assert_eq!(t.dropped(), 50);
    let mut got = 0;
    while t.poll_next(CONSUMER) == TickPoll::Ready {
        got += 1;
    }
    assert_eq!(got, 100);
    assert_eq!(t.dropped(), 50);
}

#[test]
fn push_between_check_and_registration_is_delivered() {
    // The lost-wakeup race: the consumer finds the queue empty, then the
    // interrupt pushes and wakes *before* the consumer has registered.  The
    // protocol's re-check after registration still delivers the event on
    // this very poll.
    let mut b = Bridge::new(4);

    // Consumer, step (a): the first check finds nothing.
    assert_eq!(b.try_pop(), None);

    // Interrupt: push, then wake.  Nothing was registered, so the wake
    // notifies nobody -- this is the wake a registration-without-re-check
    // consumer would have needed.
    let woken = b.push_event(42);
    assert_eq!(woken, None);

    // Consumer, steps (b) and (c): register, then check again.
    b.register_waker(CONSUMER);
    assert_eq!(b.try_pop(), Some(42));
    b.unregister_waker();

    // Had the consumer gone to sleep right after registering, no wake would
    // ever have come for the buffered event: the queue was non-empty while
    // the waker cell sat armed, and only a *further* push would fire it.
    let mut naive = Bridge::new(4);
    assert_eq!(naive.try_pop(), None);
    assert_eq!(naive.push_event(42), None);
    naive.register_waker(CONSUMER);
    // The event sits in the queue, the registration sits in the cell, and
    // nothing will wake the consumer for it.
    assert_eq!(naive.len(), 1);
}

#[test]
fn push_after_pending_wakes_registered_consumer() {
    // The composed poll reports Pending and leaves the consumer registered;
    // the next push consumes exactly that registration.
    let mut b = Bridge::new(4);
    assert_eq!(b.poll_next(CONSUMER), Poll::Pending);
    let woken = b.push_event(9);
    assert_eq!(woken, Some(CONSUMER));
    assert_eq!(b.poll_next(CONSUMER), Poll::Ready(9));
}

#[test]
fn producer_wake_is_consumed_once() {
    // A second push after the registration was consumed wakes nobody.
    let mut b = Bridge::new(4);
    assert_eq!(b.poll_next(CONSUMER), Poll::Pending);
    assert_eq!(b.push_event(1), Some(CONSUMER));
    assert_eq!(b.push_event(2), None);
}

#[test]
fn full_queue_push_sheds_and_still_wakes() {
    // A push into a full queue drops the event and counts it, and still
    // consumes the waker registration.
    let mut b = Bridge::new(1);
    assert_eq!(b.push_event(1), None);
    b.register_waker(CONSUMER);
    assert_eq!(b.push_event(2), Some(CONSUMER));
    assert_eq!(b.dropped(), 1);
    assert_eq!(b.try_pop(), Some(1));
    assert_eq!(b.try_pop(), None);
}
