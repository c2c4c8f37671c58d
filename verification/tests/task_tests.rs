use std::cell::{Cell, RefCell};
use std::rc::Rc;

use rust_os::executor::{Executor, StepResult};
use rust_os::task::{Job, Poll, Task, TaskId, TaskIdAllocator, WakeHandle};

#[test]
fn task_ids_are_distinct_and_strictly_increasing() {
    let mut allocator = TaskIdAllocator::new();
    let mut ids: Vec<TaskId> = Vec::new();
    for _ in 0..10_000 {
        ids.push(TaskId::new(&mut allocator));
    }
    for w in ids.windows(2) {
        assert!(w[0] < w[1]);
        assert!(w[0].as_u64() < w[1].as_u64());
    }
}

#[test]
fn wake_handle_records_invocation() {
    let mut handle = WakeHandle::new();
    assert!(!handle.woken());
    handle.wake();
    assert!(handle.woken());
}

/// A test computation: finishes immediately, finishes on its second
/// poll after waking itself once, or never finishes.
struct TestJob {
    tag: u8,
    polls_before_ready: Option<u32>,
    polls_seen: u32,
    wake_on_first_poll: bool,
    finished: Rc<Cell<u32>>,
    log: Rc<RefCell<Vec<u8>>>,
}

impl Job for TestJob {
    fn poll(&mut self, wake: &mut WakeHandle) -> Poll {
        self.log.borrow_mut().push(self.tag);
        self.polls_seen += 1;
        match self.polls_before_ready {
            Some(n) if self.polls_seen >= n => {
                self.finished.set(self.finished.get() + 1);
                Poll::Ready
            },
            _ => {
                if self.wake_on_first_poll && self.polls_seen == 1 {
                    wake.wake();
                }
                Poll::Pending
            },
        }
    }
}

#[test]
fn executor_drains_finishing_tasks_and_parks_the_rest() {
    let finished = Rc::new(Cell::new(0u32));
    let log = Rc::new(RefCell::new(Vec::new()));
    let job = |tag: u8, ready: Option<u32>, wake_first: bool| TestJob {
        tag,
        polls_before_ready: ready,
        polls_seen: 0,
        wake_on_first_poll: wake_first,
        finished: finished.clone(),
        log: log.clone(),
    };

    let mut allocator = TaskIdAllocator::new();
    let mut executor: Executor<TestJob> = Executor::new();

    // A finishes at once; B parks once, waking itself, and finishes on
    // its second poll; C never finishes and never wakes.
    let a = Task::new(&mut allocator, job(b'a', Some(1), false));
    let b = Task::new(&mut allocator, job(b'b', Some(2), true));
    let c = Task::new(&mut allocator, job(b'c', None, false));
    let a_id = a.id();
    let b_id = b.id();
    let c_id = c.id();

    assert!(executor.spawn(a));
    assert!(executor.spawn(b));
    assert!(executor.spawn(c));
    assert_eq!(executor.task_count(), 3);
    assert!(!executor.is_idle());

    // first drain pass: FIFO order a, b, c; b re-enqueues itself
    executor.run_ready_tasks();
    assert_eq!(*log.borrow(), vec![b'a', b'b', b'c']);
    assert_eq!(finished.get(), 1);
    assert!(!executor.is_idle());

    // second pass finishes b; c stays parked and the loop goes idle
    executor.run_ready_tasks();
    assert_eq!(*log.borrow(), vec![b'a', b'b', b'c', b'b']);
    assert_eq!(finished.get(), 2);
    assert!(executor.is_idle());
    assert_eq!(executor.queue_len(), 0);
    assert_eq!(executor.task_count(), 1);
    assert!(!executor.contains(a_id));
    assert!(!executor.contains(b_id));
    assert!(executor.contains(c_id));

    // idle: a further pass polls nothing instead of spinning on c
    executor.run_ready_tasks();
    assert_eq!(log.borrow().len(), 4);
}

#[test]
fn step_reports_each_outcome() {
    let finished = Rc::new(Cell::new(0u32));
    let log = Rc::new(RefCell::new(Vec::new()));
    let job = |tag: u8, ready: Option<u32>, wake_first: bool| TestJob {
        tag,
        polls_before_ready: ready,
        polls_seen: 0,
        wake_on_first_poll: wake_first,
        finished: finished.clone(),
        log: log.clone(),
    };

    let mut allocator = TaskIdAllocator::new();
    let mut executor: Executor<TestJob> = Executor::new();
    assert_eq!(executor.step(), StepResult::Idle);

    let a = Task::new(&mut allocator, job(b'a', Some(1), false));
    let b = Task::new(&mut allocator, job(b'b', Some(2), true));
    let c = Task::new(&mut allocator, job(b'c', None, false));
    let (a_id, b_id, c_id) = (a.id(), b.id(), c.id());
    executor.spawn(a);
    executor.spawn(b);
    executor.spawn(c);

    assert_eq!(executor.step(), StepResult::Completed(a_id));
    assert_eq!(executor.step(), StepResult::Requeued(b_id));
    assert_eq!(executor.step(), StepResult::Parked(c_id));
    assert_eq!(executor.step(), StepResult::Completed(b_id));
    assert_eq!(executor.step(), StepResult::Idle);
}

#[test]
fn wake_requeues_only_parked_known_tasks() {
    let finished = Rc::new(Cell::new(0u32));
    let log = Rc::new(RefCell::new(Vec::new()));
    let mut allocator = TaskIdAllocator::new();
    let mut executor: Executor<TestJob> = Executor::new();

    let c = Task::new(&mut allocator, TestJob {
        tag: b'c',
        polls_before_ready: None,
        polls_seen: 0,
        wake_on_first_poll: false,
        finished: finished.clone(),
        log: log.clone(),
    });
    let c_id = c.id();
    executor.spawn(c);

    // already queued: waking changes nothing
    assert!(!executor.wake(c_id));
    executor.run_ready_tasks();
    assert!(executor.is_idle());

    // parked: waking re-enqueues, exactly once
    assert!(executor.wake(c_id));
    assert!(!executor.wake(c_id));
    assert_eq!(executor.queue_len(), 1);

    // unknown identity: refused
    let stranger = TaskId::new(&mut allocator);
    assert!(!executor.wake(stranger));
}

#[test]
fn task_keeps_its_identity_across_polls() {
    let finished = Rc::new(Cell::new(0u32));
    let log = Rc::new(RefCell::new(Vec::new()));
    let mut allocator = TaskIdAllocator::new();
    let mut task = Task::new(&mut allocator, TestJob {
        tag: b'x',
        polls_before_ready: Some(2),
        polls_seen: 0,
        wake_on_first_poll: false,
        finished,
        log,
    });
    let id = task.id();
    let mut handle = WakeHandle::new();
    assert_eq!(task.poll(&mut handle), Poll::Pending);
    assert_eq!(task.id(), id);
    assert_eq!(task.poll(&mut handle), Poll::Ready);
    assert_eq!(task.id(), id);
}
