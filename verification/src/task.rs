//! Cooperative tasks: a unit of work that can be resumed until it
//! finishes, carrying a process-unique identity.
//!
//! A task wraps a suspended computation.  Polling the computation resumes
//! it once; it reports either that it is still pending or that it has
//! finished, and it may ask — through the wake handle passed to the poll —
//! to be scheduled again at once.  Task identities come from an explicit
//! allocator whose counter only ever grows, so every identity issued in a
//! process is distinct.

use vstd::prelude::*;

verus! {

/// The identity of a task, unique for the lifetime of its allocator.
#[derive(Clone, Copy, Debug, PartialEq, Eq, Structural, PartialOrd, Ord, Hash)]
pub struct TaskId(u64);

impl TaskId {
    /// The raw counter value behind this identity.
    pub closed spec fn spec_value(self) -> u64 {
        self.0
    }

    /// Returns the raw counter value behind this identity.
    pub fn as_u64(&self) -> (r: u64)
        ensures
            r == self.spec_value(),
    {
        self.0
    }

    /// Draws a fresh identity: the allocator's current counter value.
    /// The result is strictly greater than every identity the allocator
    /// has issued before, so identities never repeat.
    pub fn new(allocator: &mut TaskIdAllocator) -> (r: TaskId)
        requires
            old(allocator).wf(),
            old(allocator).spec_next() < u64::MAX,
        ensures
            final(allocator).wf(),
            r.spec_value() == old(allocator).spec_next(),
            final(allocator).spec_next() == old(allocator).spec_next() + 1,
            final(allocator).issued() == old(allocator).issued().push(r.spec_value()),
            forall|i: int|
                0 <= i < old(allocator).issued().len() ==> old(allocator).issued()[i]
                    < r.spec_value(),
    {
        let id = allocator.next;
        allocator.next = allocator.next + 1;
        proof {
            allocator.issued@ = allocator.issued@.push(id);
        }
        TaskId(id)
    }
}

/// Hands out task identities from a counter that only ever grows.  The
/// identities issued so far are kept as a ghost sequence, in issue order.
pub struct TaskIdAllocator {
    next: u64,
    issued: Ghost<Seq<u64>>,
}

impl TaskIdAllocator {
    /// Every issued identity lies below the counter, and the issue order
    /// is strictly increasing.
    pub closed spec fn wf(self) -> bool {
        (forall|i: int| 0 <= i < self.issued@.len() ==> self.issued@[i] < self.next)
            && (forall|i: int, j: int|
            0 <= i < j < self.issued@.len() ==> self.issued@[i] < self.issued@[j])
    }

    /// The counter value the next identity will take.
    pub closed spec fn spec_next(self) -> u64 {
        self.next
    }

    /// The identities issued so far, in issue order.
    pub closed spec fn issued(self) -> Seq<u64> {
        self.issued@
    }

    /// A fresh allocator that has issued nothing.
    pub fn new() -> (r: TaskIdAllocator)
        ensures
            r.wf(),
            r.spec_next() == 0,
            r.issued() == Seq::<u64>::empty(),
    {
        TaskIdAllocator { next: 0, issued: Ghost(Seq::empty()) }
    }
}

/// Identities issued by one allocator never collide: the issue order is
/// strictly increasing, so any two distinct draws differ.
pub proof fn lemma_issued_ids_distinct(allocator: TaskIdAllocator, i: int, j: int)
    requires
        allocator.wf(),
        0 <= i < allocator.issued().len(),
        0 <= j < allocator.issued().len(),
        i != j,
    ensures
        allocator.issued()[i] != allocator.issued()[j],
{
}

/// What one resumption of a computation reports.
#[derive(Clone, Copy, Debug, PartialEq, Eq, Structural)]
pub enum Poll {
    /// The computation has finished and must not be polled again.
    Ready,
    /// The computation suspended itself waiting for an event.
    Pending,
}

/// The wake handle a computation receives while being polled.  Invoking
/// it marks the task runnable again, so a computation that suspends can
/// ask to be re-polled at once.
pub struct WakeHandle {
    woken: bool,
}

impl WakeHandle {
    /// Whether the handle has been invoked.
    pub closed spec fn spec_woken(self) -> bool {
        self.woken
    }

    /// A handle that has not been invoked.
    pub fn new() -> (r: WakeHandle)
        ensures
            !r.spec_woken(),
    {
        WakeHandle { woken: false }
    }

    /// Marks the task runnable again.
    pub fn wake(&mut self)
        ensures
            final(self).spec_woken(),
    {
        self.woken = true;
    }

    /// Whether the handle has been invoked.
    pub fn woken(&self) -> (r: bool)
        ensures
            r == self.spec_woken(),
    {
        self.woken
    }
}

/// A suspended computation that an executor can resume.  Nothing is
/// promised of `poll`: what a computation does when resumed is its own
/// affair, and the scheduler is specified for every possible answer.
pub trait Job {
    /// Resumes the computation once.  A computation that returns
    /// `Ready` must not be polled again.
    fn poll(&mut self, wake: &mut WakeHandle) -> Poll;
}

/// A cooperative multitasking job: a computation paired with the
/// identity it was given at construction.  Tasks return nothing and are
/// run for their side effects.
pub struct Task<J> {
    id: TaskId,
    job: J,
}

impl<J: Job> Task<J> {
    /// The identity given at construction.
    pub closed spec fn spec_id(self) -> TaskId {
        self.id
    }

    /// Wraps a computation and gives it a fresh identity.
    pub fn new(allocator: &mut TaskIdAllocator, job: J) -> (t: Task<J>)
        requires
            old(allocator).wf(),
            old(allocator).spec_next() < u64::MAX,
        ensures
            final(allocator).wf(),
            t.spec_id().spec_value() == old(allocator).spec_next(),
            final(allocator).spec_next() == old(allocator).spec_next() + 1,
            final(allocator).issued() == old(allocator).issued().push(t.spec_id().spec_value()),
    {
        Task { id: TaskId::new(allocator), job }
    }

    /// The identity given at construction.
    pub fn id(&self) -> (r: TaskId)
        ensures
            r == self.spec_id(),
    {
        self.id
    }

    /// Resumes the computation once.  The identity never changes; what
    /// the computation reports or does is unconstrained.
    pub fn poll(&mut self, wake: &mut WakeHandle) -> (r: Poll)
        ensures
            final(self).spec_id() == old(self).spec_id(),
    {
        self.job.poll(wake)
    }
}

} // verus!
