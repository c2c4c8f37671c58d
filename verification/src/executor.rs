//! The single-core cooperative run loop.
//!
//! The executor owns a set of registered tasks and a FIFO queue of
//! runnable task identities.  One step pops the head of the queue, polls
//! that task once, and then either drops it (finished), parks it
//! (pending, waiting for an outside event), or re-enqueues it (pending,
//! but its wake handle was invoked during the poll).  Draining the queue
//! until it is empty reaches the idle state; actually halting the
//! processor until the next interrupt is a privileged instruction and
//! lives outside this library, as does the interrupt context that calls
//! `wake` for a parked task.

use vstd::prelude::*;
use std::collections::VecDeque;
use crate::task::{Job, Poll, Task, TaskId, WakeHandle};

verus! {

/// What one scheduling step did.
#[derive(Clone, Copy, Debug, PartialEq, Eq, Structural)]
pub enum StepResult {
    /// The runnable queue was empty: the idle state, in which a kernel
    /// halts until the next interrupt.
    Idle,
    /// The task at the head of the queue finished and was dropped.
    Completed(TaskId),
    /// The task at the head of the queue is pending and now parked,
    /// waiting for an outside `wake`.
    Parked(TaskId),
    /// The task at the head of the queue is pending but invoked its wake
    /// handle, so it was re-enqueued at the back.
    Requeued(TaskId),
}

/// Whether some task in `s` carries identity `id`.
spec fn seq_contains_id<J: Job>(s: Seq<Task<J>>, id: u64) -> bool {
    exists|i: int| 0 <= i < s.len() && s[i].spec_id().spec_value() == id
}

/// Polls the task at `idx`, leaving every other task untouched and the
/// polled task's identity unchanged.
fn poll_at<J: Job>(tasks: &mut Vec<Task<J>>, idx: usize, wake: &mut WakeHandle) -> (r: Poll)
    requires
        idx < old(tasks)@.len(),
    ensures
        final(tasks)@.len() == old(tasks)@.len(),
        final(tasks)@[idx as int].spec_id() == old(tasks)@[idx as int].spec_id(),
        forall|j: int|
            0 <= j < old(tasks)@.len() && j != idx ==> final(tasks)@[j] == old(tasks)@[j],
{
    let t = &mut tasks[idx];
    t.poll(wake)
}

/// A single-core cooperative scheduler: registered tasks plus the FIFO
/// queue of identities that are currently runnable.
pub struct Executor<J> {
    tasks: Vec<Task<J>>,
    queue: VecDeque<u64>,
}

impl<J: Job> Executor<J> {
    /// Whether some registered task carries identity `id`.
    pub closed spec fn contains_task_id(self, id: u64) -> bool {
        seq_contains_id(self.tasks@, id)
    }

    /// The registered tasks, in registration order.
    pub closed spec fn tasks_seq(self) -> Seq<Task<J>> {
        self.tasks@
    }

    /// The queue of runnable identities, front first.
    pub closed spec fn queued(self) -> Seq<u64> {
        self.queue@
    }

    /// The number of registered tasks (runnable or parked).
    pub closed spec fn spec_task_count(self) -> nat {
        self.tasks@.len()
    }

    /// Registered identities are distinct, and every queued identity
    /// belongs to a registered task, at most once.
    pub closed spec fn wf(self) -> bool {
        (forall|i: int, j: int|
            0 <= i < j < self.tasks@.len() ==> self.tasks@[i].spec_id().spec_value()
                != self.tasks@[j].spec_id().spec_value())
            && (forall|i: int, j: int|
            0 <= i < j < self.queue@.len() ==> self.queue@[i] != self.queue@[j])
            && (forall|i: int|
            0 <= i < self.queue@.len() ==> self.contains_task_id(self.queue@[i]))
    }

    /// An executor with no tasks and an empty queue.
    pub fn new() -> (r: Executor<J>)
        ensures
            r.wf(),
            r.spec_task_count() == 0,
            r.queued() == Seq::<u64>::empty(),
    {
        Executor { tasks: Vec::new(), queue: VecDeque::new() }
    }

    /// Whether some registered task carries identity `id`.
    pub fn contains(&self, id: TaskId) -> (r: bool)
        ensures
            r == self.contains_task_id(id.spec_value()),
    {
        let mut i: usize = 0;
        let n: usize = self.tasks.len();
        while i < n
            invariant
                i <= n,
                n == self.tasks@.len(),
                forall|j: int|
                    0 <= j < i ==> self.tasks@[j].spec_id().spec_value() != id.spec_value(),
            decreases n - i,
        {
            if self.tasks[i].id().as_u64() == id.as_u64() {
                return true;
            }
            i += 1;
        }
        false
    }

    /// Whether identity `id` is currently queued as runnable.
    pub fn is_queued(&self, id: TaskId) -> (r: bool)
        ensures
            r == self.queued().contains(id.spec_value()),
    {
        let mut i: usize = 0;
        let n: usize = self.queue.len();
        while i < n
            invariant
                i <= n,
                n == self.queue@.len(),
                forall|j: int| 0 <= j < i ==> self.queue@[j] != id.spec_value(),
            decreases n - i,
        {
            if self.queue[i] == id.as_u64() {
                return true;
            }
            i += 1;
        }
        false
    }

    /// Registers a task and marks it runnable at the back of the queue.
    /// A task whose identity is already registered is refused and
    /// nothing changes; identities drawn from one allocator never repeat,
    /// so a refusal only signals a caller's bookkeeping mistake.
    pub fn spawn(&mut self, task: Task<J>) -> (r: bool)
        requires
            old(self).wf(),
        ensures
            final(self).wf(),
            r == !old(self).contains_task_id(task.spec_id().spec_value()),
            r ==> final(self).tasks_seq() == old(self).tasks_seq().push(task) && final(self).queued()
                == old(self).queued().push(task.spec_id().spec_value()),
            !r ==> *final(self) == *old(self),
    {
        let id = task.id();
        if self.contains(id) {
            return false;
        }
        self.tasks.push(task);
        self.queue.push_back(id.as_u64());
        proof {
            assert forall|i: int| 0 <= i < self.queue@.len() implies self.contains_task_id(
                self.queue@[i],
            ) by {
                if i < self.queue@.len() - 1 {
                    assert(old(self).contains_task_id(self.queue@[i]));
                    let w = choose|k: int|
                        0 <= k < old(self).tasks@.len() && old(self).tasks@[k].spec_id().spec_value()
                            == self.queue@[i];
                    assert(self.tasks@[w].spec_id().spec_value() == self.queue@[i]);
                } else {
                    let n: int = self.tasks@.len() - 1;
                    assert(self.tasks@[n].spec_id().spec_value() == self.queue@[i]);
                }
            }
        }
        true
    }

    /// Marks a parked task runnable again by enqueuing its identity at
    /// the back.  Invoked on behalf of a wake handle, for instance from
    /// an interrupt handler's context.  An identity that is unknown or
    /// already queued leaves the executor unchanged.
    pub fn wake(&mut self, id: TaskId) -> (r: bool)
        requires
            old(self).wf(),
        ensures
            final(self).wf(),
            r == (old(self).contains_task_id(id.spec_value()) && !old(self).queued().contains(
                id.spec_value(),
            )),
            r ==> final(self).tasks_seq() == old(self).tasks_seq() && final(self).queued()
                == old(self).queued().push(id.spec_value()),
            !r ==> *final(self) == *old(self),
    {
        if !self.contains(id) {
            return false;
        }
        if self.is_queued(id) {
            return false;
        }
        self.queue.push_back(id.as_u64());
        true
    }

    /// The index of the registered task carrying identity `id`.
    fn find_task(&self, id: u64) -> (idx: usize)
        requires
            self.contains_task_id(id),
        ensures
            idx < self.tasks@.len(),
            self.tasks@[idx as int].spec_id().spec_value() == id,
    {
        let mut i: usize = 0;
        let n: usize = self.tasks.len();
        while i < n
            invariant
                i <= n,
                n == self.tasks@.len(),
                self.contains_task_id(id),
                forall|j: int| 0 <= j < i ==> self.tasks@[j].spec_id().spec_value() != id,
            decreases n - i,
        {
            if self.tasks[i].id().as_u64() == id {
                return i;
            }
            i += 1;
        }
        proof {
            assert(false);
        }
        0
    }

    /// Runs one scheduling step: polls the task at the head of the
    /// runnable queue, if any.  Within one drain of the queue, tasks are
    /// polled in the order their identities became runnable.
    pub fn step(&mut self) -> (r: StepResult)
        requires
            old(self).wf(),
        ensures
            final(self).wf(),
            (r is Idle) <==> old(self).queued().len() == 0,
            r is Idle ==> final(self).queued() == old(self).queued() && final(self).tasks_seq()
                == old(self).tasks_seq(),
            r matches StepResult::Completed(id) ==> {
                &&& id.spec_value() == old(self).queued()[0]
                &&& final(self).queued() == old(self).queued().drop_first()
                &&& !final(self).contains_task_id(id.spec_value())
                &&& final(self).spec_task_count() + 1 == old(self).spec_task_count()
                &&& forall|x: u64|
                    x != id.spec_value() ==> (final(self).contains_task_id(x)
                        <==> old(self).contains_task_id(x))
            },
            r matches StepResult::Parked(id) ==> {
                &&& id.spec_value() == old(self).queued()[0]
                &&& final(self).queued() == old(self).queued().drop_first()
                &&& final(self).spec_task_count() == old(self).spec_task_count()
                &&& forall|x: u64|
                    final(self).contains_task_id(x) <==> old(self).contains_task_id(x)
            },
            r matches StepResult::Requeued(id) ==> {
                &&& id.spec_value() == old(self).queued()[0]
                &&& final(self).queued() == old(self).queued().drop_first().push(id.spec_value())
                &&& final(self).spec_task_count() == old(self).spec_task_count()
                &&& forall|x: u64|
                    final(self).contains_task_id(x) <==> old(self).contains_task_id(x)
            },
    {
        let popped = self.queue.pop_front();
        match popped {
            None => StepResult::Idle,
            Some(idv) => {
                let idx = self.find_task(idv);
                let tid = self.tasks[idx].id();
                let mut wake = WakeHandle::new();
                let polled = poll_at(&mut self.tasks, idx, &mut wake);
                let ghost mid = self.tasks@;
                proof {
                    lemma_same_ids_same_contains::<J>(old(self).tasks@, mid);
                }
                match polled {
                    Poll::Ready => {
                        self.tasks.remove(idx);
                        proof {
                            lemma_remove_task::<J>(mid, self.tasks@, idx as int);
                            assert forall|i: int|
                                0 <= i < self.queue@.len() implies self.contains_task_id(
                                self.queue@[i],
                            ) by {
                                assert(old(self).queue@[i + 1] == self.queue@[i]);
                                assert(old(self).contains_task_id(self.queue@[i]));
                                assert(self.queue@[i] != idv);
                            }
                        }
                        StepResult::Completed(tid)
                    },
                    Poll::Pending => {
                        if wake.woken() {
                            self.queue.push_back(idv);
                            StepResult::Requeued(tid)
                        } else {
                            StepResult::Parked(tid)
                        }
                    },
                }
            },
        }
    }

    /// Runs one drain pass: as many steps as there were runnable
    /// identities on entry, stopping early if the queue empties.  Tasks
    /// are polled in the order they became runnable; a task re-enqueued
    /// during the pass waits for the next pass.  The run loop itself —
    /// pass, then halt until an interrupt when idle, forever — belongs
    /// to the kernel around this library, since a task that keeps
    /// re-enqueuing itself makes that loop endless by design.
    pub fn run_ready_tasks(&mut self)
        requires
            old(self).wf(),
        ensures
            final(self).wf(),
            final(self).queued().len() <= old(self).queued().len(),
            final(self).spec_task_count() <= old(self).spec_task_count(),
            forall|x: u64|
                final(self).contains_task_id(x) ==> old(self).contains_task_id(x),
    {
        let n: usize = self.queue.len();
        let mut i: usize = 0;
        while i < n
            invariant
                i <= n,
                self.wf(),
                self.queued().len() <= n,
                self.spec_task_count() <= old(self).spec_task_count(),
                forall|x: u64| self.contains_task_id(x) ==> old(self).contains_task_id(x),
            decreases n - i,
        {
            let r = self.step();
            match r {
                StepResult::Idle => {
                    return ;
                },
                _ => {},
            }
            i += 1;
        }
    }

    /// Whether the runnable queue is empty: the state in which the run
    /// loop would halt the processor.
    pub fn is_idle(&self) -> (r: bool)
        ensures
            r == (self.queued().len() == 0),
    {
        self.queue.len() == 0
    }

    /// The number of registered tasks, parked ones included.
    pub fn task_count(&self) -> (r: usize)
        ensures
            r == self.spec_task_count(),
    {
        self.tasks.len()
    }

    /// The number of identities currently queued as runnable.
    pub fn queue_len(&self) -> (r: usize)
        ensures
            r == self.queued().len(),
    {
        self.queue.len()
    }
}

/// After removing index `idx`, an identity is registered exactly when it
/// was registered before at some other index.
proof fn lemma_remove_task<J: Job>(before: Seq<Task<J>>, after: Seq<Task<J>>, idx: int)
    requires
        0 <= idx < before.len(),
        after == before.remove(idx),
        forall|i: int, j: int|
            0 <= i < j < before.len() ==> before[i].spec_id().spec_value()
                != before[j].spec_id().spec_value(),
    ensures
        forall|x: u64|
            #[trigger] seq_contains_id(after, x) <==> (seq_contains_id(before, x) && x
                != before[idx].spec_id().spec_value()),
{
    assert forall|x: u64|
        #[trigger] seq_contains_id(after, x) <==> (seq_contains_id(before, x) && x
            != before[idx].spec_id().spec_value()) by {
        if seq_contains_id(after, x) {
            let i = choose|i: int|
                0 <= i < after.len() && after[i].spec_id().spec_value() == x;
            if i < idx {
                assert(before[i].spec_id().spec_value() == x);
            } else {
                assert(before[i + 1].spec_id().spec_value() == x);
            }
        }
        if seq_contains_id(before, x) && x != before[idx].spec_id().spec_value() {
            let i = choose|i: int|
                0 <= i < before.len() && before[i].spec_id().spec_value() == x;
            if i < idx {
                assert(after[i].spec_id().spec_value() == x);
            } else {
                assert(after[i - 1].spec_id().spec_value() == x);
            }
        }
    }
}

/// Two task sequences that agree pointwise on identities register the
/// same identities.
proof fn lemma_same_ids_same_contains<J: Job>(before: Seq<Task<J>>, after: Seq<Task<J>>)
    requires
        before.len() == after.len(),
        forall|i: int| 0 <= i < before.len() ==> after[i].spec_id() == before[i].spec_id(),
    ensures
        forall|x: u64| #[trigger] seq_contains_id(after, x) <==> seq_contains_id(before, x),
{
    assert forall|x: u64|
        #[trigger] seq_contains_id(after, x) <==> seq_contains_id(before, x) by {
        if seq_contains_id(after, x) {
            let i = choose|i: int|
                0 <= i < after.len() && after[i].spec_id().spec_value() == x;
            assert(before[i].spec_id().spec_value() == x);
        }
        if seq_contains_id(before, x) {
            let i = choose|i: int|
                0 <= i < before.len() && before[i].spec_id().spec_value() == x;
            assert(after[i].spec_id().spec_value() == x);
        }
    }
}

} // verus!
