//! The cooperative scheduler: a set of live task identities and a FIFO
//! ready-queue of identities to poll.
//!
//! The executor decides; the surrounding kernel loop acts.  It pops one
//! identity at a time with `next_ready` and polls the corresponding task; a
//! task that reports complete is dropped with `complete`, a task that reports
//! Pending is simply not re-enqueued and stays parked until a waker fires
//! `wake` with its identity.  When `next_ready` yields nothing, the loop
//! disables interrupts, re-checks `should_halt`, and only then executes the
//! halt instruction, so a wakeup cannot slip between the check and the halt.

use vstd::prelude::*;

verus! {

use crate::bridge::TaskId;

/// Mathematical state of the executor: the live task identities, the FIFO
/// ready-queue, and the next identity to hand out.
#[verifier::ext_equal]
pub struct ExecutorModel {
    pub live: Seq<TaskId>,
    pub ready: Seq<TaskId>,
    pub next_id: TaskId,
}

/// Keep every identity other than the given one.
pub open spec fn keep_other(id: TaskId) -> spec_fn(TaskId) -> bool {
    |x: TaskId| x != id
}

/// A sequence with every occurrence of one identity removed, order kept.
pub open spec fn purge(s: Seq<TaskId>, id: TaskId) -> Seq<TaskId> {
    s.filter(keep_other(id))
}

/// Spawning registers a fresh identity and enqueues it for a first poll.
pub open spec fn spawn_step(m: ExecutorModel) -> (ExecutorModel, TaskId) {
    (
        ExecutorModel {
            live: m.live.push(m.next_id),
            ready: m.ready.push(m.next_id),
            next_id: (m.next_id + 1) as TaskId,
        },
        m.next_id,
    )
}

/// A wake enqueues the identity once, provided the task is still live.
pub open spec fn wake_step(m: ExecutorModel, id: TaskId) -> (ExecutorModel, bool) {
    if m.live.contains(id) {
        (ExecutorModel { live: m.live, ready: m.ready.push(id), next_id: m.next_id }, true)
    } else {
        (m, false)
    }
}

/// The scheduling decision: poll the task at the front of the ready-queue,
/// or halt when there is none.
pub open spec fn next_step(m: ExecutorModel) -> (ExecutorModel, Option<TaskId>) {
    if m.ready.len() == 0 {
        (m, None)
    } else {
        (
            ExecutorModel { live: m.live, ready: m.ready.drop_first(), next_id: m.next_id },
            Some(m.ready[0]),
        )
    }
}

/// A completed task's identity is forgotten everywhere.
pub open spec fn complete_step(m: ExecutorModel, id: TaskId) -> ExecutorModel {
    ExecutorModel { live: purge(m.live, id), ready: purge(m.ready, id), next_id: m.next_id }
}

/// The single-threaded cooperative scheduler.
pub struct Executor {
    tasks: Vec<TaskId>,
    ready: Vec<TaskId>,
    next_id: TaskId,
}

impl View for Executor {
    type V = ExecutorModel;

    closed spec fn view(&self) -> ExecutorModel {
        ExecutorModel { live: self.tasks@, ready: self.ready@, next_id: self.next_id }
    }
}

/// Extending the purged prefix by one element keeps it, unless it is the
/// purged identity.
proof fn lemma_purge_take_step(s: Seq<TaskId>, id: TaskId, i: int)
    requires
        0 <= i < s.len(),
    ensures
        purge(s.take(i + 1), id) == purge(s.take(i), id) + if s[i] == id {
            Seq::<TaskId>::empty()
        } else {
            seq![s[i]]
        },
{
    let p = keep_other(id);
    assert(s.take(i + 1) =~= s.take(i) + seq![s[i]]);
    Seq::filter_distributes_over_add(s.take(i), seq![s[i]], p);
    reveal_with_fuel(Seq::<_>::filter, 2);
    assert(seq![s[i]].drop_last() =~= Seq::<TaskId>::empty());
    if s[i] == id {
        assert(seq![s[i]].filter(p) =~= Seq::<TaskId>::empty());
    } else {
        assert(seq![s[i]].filter(p) =~= seq![s[i]]);
    }
}

/// Purging removes exactly the occurrences of the purged identity.
pub proof fn lemma_purge_contains(s: Seq<TaskId>, id: TaskId, y: TaskId)
    ensures
        purge(s, id).contains(y) <==> (s.contains(y) && y != id),
{
    let p = keep_other(id);
    if purge(s, id).contains(y) {
        s.lemma_filter_contains_rev(p, y);
        let j = choose|j: int| 0 <= j < s.filter(p).len() && s.filter(p)[j] == y;
        s.lemma_filter_pred(p, j);
    }
    if s.contains(y) && y != id {
        let i = choose|i: int| 0 <= i < s.len() && s[i] == y;
        s.lemma_filter_contains(p, i);
    }
}

impl Executor {
    /// Every live identity is below the next one to hand out, and every
    /// queued identity belongs to a live task.
    pub open spec fn wf(&self) -> bool {
        &&& forall|i: int| 0 <= i < self@.live.len() ==> #[trigger] self@.live[i] < self@.next_id
        &&& forall|i: int|
            0 <= i < self@.ready.len() ==> self@.live.contains(#[trigger] self@.ready[i])
    }

    /// An executor with no tasks.
    pub fn new() -> (e: Executor)
        ensures
            e.wf(),
            e@ == (ExecutorModel {
                live: Seq::<TaskId>::empty(),
                ready: Seq::<TaskId>::empty(),
                next_id: 0,
            }),
    {
        Executor { tasks: Vec::new(), ready: Vec::new(), next_id: 0 }
    }

    /// Register a new task and enqueue it for its first poll; returns its
    /// fresh identity.
    pub fn spawn(&mut self) -> (id: TaskId)
        requires
            old(self).wf(),
            old(self)@.next_id < TaskId::MAX,
        ensures
            final(self).wf(),
            (final(self)@, id) == spawn_step(old(self)@),
            !old(self)@.live.contains(id),
    {
        let id = self.next_id;
        self.tasks.push(id);
        self.ready.push(id);
        self.next_id = self.next_id + 1;
        proof {
            broadcast use vstd::seq_lib::lemma_seq_contains_after_push;

            assert forall|i: int| 0 <= i < self@.live.len() implies #[trigger] self@.live[i]
                < self@.next_id by {
                if i < old(self)@.live.len() {
                    assert(self@.live[i] == old(self)@.live[i]);
                    assert(old(self)@.live[i] < old(self)@.next_id);
                } else {
                    assert(self@.live[i] == id);
                }
            }
            assert forall|i: int| 0 <= i < self@.ready.len() implies self@.live.contains(
                #[trigger] self@.ready[i],
            ) by {
                if i < old(self)@.ready.len() {
                    assert(self@.ready[i] == old(self)@.ready[i]);
                    assert(old(self)@.live.contains(old(self)@.ready[i]));
                } else {
                    assert(self@.ready[i] == id);
                }
            }
        }
        id
    }

    /// Whether a task identity is still live.
    pub fn is_live(&self, id: TaskId) -> (r: bool)
        ensures
            r == self@.live.contains(id),
    {
        let mut i: usize = 0;
        while i < self.tasks.len()
            invariant
                i <= self.tasks@.len(),
                forall|j: int| 0 <= j < i ==> self.tasks@[j] != id,
            decreases self.tasks@.len() - i,
        {
            if self.tasks[i] == id {
                return true;
            }
            i = i + 1;
        }
        false
    }

    /// Enqueue a live task for a re-poll; a wake of a dead identity is a
    /// no-op.  Returns whether the task was enqueued.
    pub fn wake(&mut self, id: TaskId) -> (enqueued: bool)
        requires
            old(self).wf(),
        ensures
            final(self).wf(),
            (final(self)@, enqueued) == wake_step(old(self)@, id),
    {
        if self.is_live(id) {
            self.ready.push(id);
            proof {
                broadcast use vstd::seq_lib::lemma_seq_contains_after_push;

                assert forall|i: int| 0 <= i < self@.ready.len() implies self@.live.contains(
                    #[trigger] self@.ready[i],
                ) by {
                    if i < old(self)@.ready.len() {
                        assert(self@.ready[i] == old(self)@.ready[i]);
                        assert(old(self)@.live.contains(old(self)@.ready[i]));
                    } else {
                        assert(self@.ready[i] == id);
                    }
                }
            }
            true
        } else {
            false
        }
    }

    /// The scheduling decision: the identity to poll next, in FIFO order, or
    /// None when every task is parked and the CPU should halt until the next
    /// interrupt.
    pub fn next_ready(&mut self) -> (r: Option<TaskId>)
        requires
            old(self).wf(),
        ensures
            final(self).wf(),
            (final(self)@, r) == next_step(old(self)@),
            r matches Some(id) ==> final(self)@.live.contains(id),
    {
        if self.ready.len() == 0 {
            None
        } else {
            let id = self.ready.remove(0);
            assert(self@.ready =~= old(self)@.ready.drop_first());
            Some(id)
        }
    }

    /// Whether the check-then-halt path may halt: true exactly when no task
    /// is ready.  The kernel loop calls this with interrupts disabled, so no
    /// wake can land between this check and the halt instruction.
    pub fn should_halt(&self) -> (halt: bool)
        ensures
            halt == (self@.ready.len() == 0),
    {
        self.ready.len() == 0
    }

    /// Forget a completed task: its identity leaves the live set and any
    /// queued wakes for it are discarded.
    pub fn complete(&mut self, id: TaskId)
        requires
            old(self).wf(),
        ensures
            final(self).wf(),
            final(self)@ == complete_step(old(self)@, id),
            !final(self)@.live.contains(id),
    {
        let ghost m0 = self@;
        retain_except(&mut self.tasks, id);
        retain_except(&mut self.ready, id);
        proof {
            assert forall|i: int| 0 <= i < self@.live.len() implies #[trigger] self@.live[i]
                < self@.next_id by {
                lemma_purge_contains(m0.live, id, self@.live[i]);
                let j = choose|j: int| 0 <= j < m0.live.len() && m0.live[j] == self@.live[i];
            }
            assert forall|i: int| 0 <= i < self@.ready.len() implies self@.live.contains(
                #[trigger] self@.ready[i],
            ) by {
                lemma_purge_contains(m0.ready, id, self@.ready[i]);
                let j = choose|j: int| 0 <= j < m0.ready.len() && m0.ready[j] == self@.ready[i];
                lemma_purge_contains(m0.live, id, self@.ready[i]);
            }
            lemma_purge_contains(m0.live, id, id);
        }
    }
}

/// Remove every occurrence of one identity from a vector, keeping the order
/// of the rest.
fn retain_except(v: &mut Vec<TaskId>, id: TaskId)
    ensures
        final(v)@ == purge(old(v)@, id),
{
    let mut kept: Vec<TaskId> = Vec::new();
    let mut i: usize = 0;
    while i < v.len()
        invariant
            i <= v@.len(),
            kept@ == purge(v@.take(i as int), id),
        decreases v@.len() - i,
    {
        proof {
            lemma_purge_take_step(v@, id, i as int);
        }
        if v[i] != id {
            kept.push(v[i]);
            assert(kept@ =~= purge(v@.take(i + 1), id));
        } else {
            assert(kept@ =~= purge(v@.take(i + 1), id));
        }
        i = i + 1;
    }
    assert(v@.take(i as int) =~= v@);
    *v = kept;
}

/// When every task is parked the scheduler halts: nothing is polled and
/// nothing changes, so an idle executor never spin-loops.  One wake of a
/// parked task then leads to exactly one resume of that task, after which the
/// decision is to halt again.
pub proof fn lemma_idle_halts_and_one_wake_resumes_once(m: ExecutorModel, id: TaskId)
    requires
        m.ready.len() == 0,
        m.live.contains(id),
    ensures
        next_step(m).1 is None,
        next_step(m).0 == m,
        ({
            let (m1, enqueued) = wake_step(m, id);
            let (m2, resumed) = next_step(m1);
            &&& enqueued
            &&& resumed == Some(id)
            &&& m2.ready.len() == 0
            &&& next_step(m2).1 is None
        }),
{
    let (m1, enqueued) = wake_step(m, id);
    assert(m1.ready.drop_first() =~= Seq::<TaskId>::empty());
}

} // verus!
