//! The cooperative scheduler under concrete schedules: FIFO polling, the
//! idle halt decision, and one resume per wake.

use snakeos::executor::Executor;

#[test]
fn spawn_enqueues_for_first_poll() {
    let mut e = Executor::new();
    let a = e.spawn();
    let b = e.spawn();
    assert_ne!(a, b);
    assert!(!e.should_halt());
    assert_eq!(e.next_ready(), Some(a));
    assert_eq!(e.next_ready(), Some(b));
    assert_eq!(e.next_ready(), None);
    assert!(e.should_halt());
}

#[test]
fn idle_executor_halts_and_resumes_once_per_wake() {
    // With every task parked the decision is to halt; one wake leads to
    // exactly one resume, after which the decision is to halt again.
    let mut e = Executor::new();
    let a = e.spawn();
    assert_eq!(e.next_ready(), Some(a));
    // The task reported Pending: it stays parked, nothing is ready.
    assert!(e.should_halt());
    assert_eq!(e.next_ready(), None);

    assert!(e.wake(a));
    assert!(!e.should_halt());
    assert_eq!(e.next_ready(), Some(a));
    assert_eq!(e.next_ready(), None);
    assert!(e.should_halt());
}

#[test]
fn each_wake_resumes_fifo() {
    let mut e = Executor::new();
    let a = e.spawn();
    let b = e.spawn();
    assert_eq!(e.next_ready(), Some(a));
    assert_eq!(e.next_ready(), Some(b));
    assert!(e.wake(b));
    assert!(e.wake(a));
    assert_eq!(e.next_ready(), Some(b));
    assert_eq!(e.next_ready(), Some(a));
    assert_eq!(e.next_ready(), None);
}

#[test]
fn completed_task_is_forgotten() {
    let mut e = Executor::new();
    let a = e.spawn();
    let b = e.spawn();
    assert_eq!(e.next_ready(), Some(a));
    e.complete(a);
    assert!(!e.is_live(a));
    assert!(e.is_live(b));
    // A wake of a dead identity is a no-op.
    assert!(!e.wake(a));
    assert_eq!(e.next_ready(), Some(b));
    assert_eq!(e.next_ready(), None);
}

#[test]
fn completion_discards_queued_wakes() {
    let mut e = Executor::new();
    let a = e.spawn();
    assert_eq!(e.next_ready(), Some(a));
    assert!(e.wake(a));
    assert!(e.wake(a));
    e.complete(a);
    assert_eq!(e.next_ready(), None);
    assert!(e.should_halt());
}
