use coroutine_scheduler::countdown::Countdown;
use coroutine_scheduler::fifo::FIFOTaskList;
use coroutine_scheduler::scheduler::fifo;
use coroutine_scheduler::scheduler::lottery;
use coroutine_scheduler::scheduler::SchedulerError;
use coroutine_scheduler::task_list::TaskList;
use coroutine_scheduler::tasks::Task;

#[test]
fn add_task_then_has_tasks() {
    let mut s = fifo::<Countdown>();
    assert!(!s.has_tasks());
    assert!(s.add_task(Countdown::new(1, false), 1).is_ok());
    assert!(s.has_tasks());

    let mut s = lottery::<Countdown>();
    assert!(s.add_task(Countdown::new(1, false), 5).is_ok());
    assert!(s.has_tasks());
}

#[test]
fn non_positive_priority_is_rejected() {
    let mut s = fifo::<Countdown>();
    assert_eq!(
        s.add_task(Countdown::new(1, false), 0),
        Err(SchedulerError::InvalidArgument)
    );
    assert_eq!(
        s.add_task(Countdown::new(1, false), -7),
        Err(SchedulerError::InvalidArgument)
    );
    assert!(!s.has_tasks());
    assert_eq!(s.lifetime(), 0);
}

#[test]
fn fifo_serves_in_insertion_order() {
    let mut l = FIFOTaskList::<Countdown>::new();
    for p in 1..=5i64 {
        l.add(Task::new(Countdown::new(1, false), p));
    }
    for p in 1..=5i64 {
        let t = l.peek().expect("a task should be held");
        assert_eq!(t.priority(), p);
    }
    assert!(l.is_empty());
}

#[test]
fn fifo_one_slice_tasks_finish_in_exactly_n_steps() {
    let mut s = fifo::<Countdown>();
    for p in 1..=4i64 {
        s.add_task(Countdown::new(1, false), p).unwrap();
    }
    for _ in 0..4 {
        s.step();
    }
    assert!(!s.has_tasks());
    assert_eq!(s.lifetime(), 4);
}

#[test]
fn fifo_round_robin_order_with_resuspension() {
    // three tasks that yield long enough: the service order cycles, so
    // one task's resumptions are separated by the two other residents
    let mut l = FIFOTaskList::<Countdown>::new();
    for p in 1..=3i64 {
        l.add(Task::new(Countdown::new(10, false), p));
    }
    let mut served = Vec::new();
    for _ in 0..6 {
        let mut t = l.peek().expect("a task should be held");
        t.resume();
        served.push(t.priority());
        if t.is_alive() {
            l.add(t);
        }
    }
    assert_eq!(served, vec![1, 2, 3, 1, 2, 3]);
}

#[test]
fn yielding_task_is_resumed_until_it_finishes() {
    let mut s = fifo::<Countdown>();
    s.add_task(Countdown::new(3, false), 1).unwrap();
    s.add_task(Countdown::new(1, false), 2).unwrap();
    // service: t1 (yields), t2 (finishes), t1 (yields), t1 (finishes)
    s.step();
    s.step();
    assert!(s.has_tasks());
    s.step();
    s.step();
    assert!(!s.has_tasks());
    assert_eq!(s.lifetime(), 4);
}

#[test]
fn non_positive_step_count_is_rejected() {
    let mut s = fifo::<Countdown>();
    s.add_task(Countdown::new(2, false), 1).unwrap();
    assert_eq!(s.steps(0), Err(SchedulerError::InvalidArgument));
    assert_eq!(s.steps(-1), Err(SchedulerError::InvalidArgument));
    assert_eq!(s.lifetime(), 0);
    assert!(s.has_tasks());
}

#[test]
fn step_on_empty_scheduler_is_a_no_op() {
    let mut s = fifo::<Countdown>();
    s.step();
    assert_eq!(s.lifetime(), 0);
    assert!(!s.has_tasks());
    assert!(s.steps(5).is_ok());
    assert_eq!(s.lifetime(), 0);
}

#[test]
fn steps_beyond_exhaustion_are_no_ops() {
    let mut s = fifo::<Countdown>();
    s.add_task(Countdown::new(3, false), 1).unwrap();
    assert!(s.steps(10).is_ok());
    assert!(!s.has_tasks());
    assert_eq!(s.lifetime(), 3);
}

#[test]
fn run_drains_bounded_tasks() {
    let mut s = fifo::<Countdown>();
    s.add_task(Countdown::new(3, false), 1).unwrap();
    s.add_task(Countdown::new(5, true), 2).unwrap();
    s.add_task(Countdown::new(1, false), 3).unwrap();
    s.run();
    assert!(!s.has_tasks());
    assert_eq!(s.lifetime(), 9);
}

#[test]
fn run_drains_bounded_tasks_under_lottery() {
    let mut s = lottery::<Countdown>();
    s.add_task(Countdown::new(2, false), 1).unwrap();
    s.add_task(Countdown::new(4, false), 3).unwrap();
    s.add_task(Countdown::new(1, true), 2).unwrap();
    s.run();
    assert!(!s.has_tasks());
    assert_eq!(s.lifetime(), 7);
}

#[test]
fn erroring_task_is_never_reenqueued() {
    let mut s = fifo::<Countdown>();
    s.add_task(Countdown::new(1, true), 1).unwrap();
    s.step();
    assert!(!s.has_tasks());
    assert_eq!(s.lifetime(), 1);
}

#[test]
fn erroring_task_leaves_other_tasks_unaffected() {
    let mut s = fifo::<Countdown>();
    s.add_task(Countdown::new(1, true), 1).unwrap();
    s.add_task(Countdown::new(2, false), 2).unwrap();
    s.step();
    // the erroring task is gone; the healthy one still runs to its end
    assert!(s.has_tasks());
    s.step();
    s.step();
    assert!(!s.has_tasks());
    assert_eq!(s.lifetime(), 3);
}
