//! Tests for task creation, registration, the weight table, external
//! sleep injection and observability.

use sched_sim::sched::{SchedError, Scheduler};
use sched_sim::task::{Policy, Task, TaskState};

#[test]
fn new_task_starts_ready_with_zero_counters() {
    let t = Task::new("worker".to_string(), Policy::RoundRobin, 7, 30, -5, Some(99));
    assert_eq!(t.name().as_str(), "worker");
    assert_eq!(t.policy(), Policy::RoundRobin);
    assert_eq!(t.priority(), 7);
    assert_eq!(t.time_slice(), 30);
    assert_eq!(t.nice(), -5);
    assert_eq!(t.deadline(), Some(99));
    assert_eq!(t.state(), TaskState::Ready);
    assert_eq!(t.vruntime(), 0);
    assert_eq!(t.total_runtime(), 0);
    assert_eq!(t.cpu_usage(), 0);
}

#[test]
fn task_snapshot_copies_every_field() {
    let t = Task::new("orig".to_string(), Policy::Fair, 3, 0, 12, None);
    let c = t.snapshot();
    assert_eq!(c.name().as_str(), "orig");
    assert_eq!(c.policy(), Policy::Fair);
    assert_eq!(c.priority(), 3);
    assert_eq!(c.nice(), 12);
    assert_eq!(c.state(), TaskState::Ready);
    assert_eq!(c.deadline(), None);
}

#[test]
fn rr_task_with_zero_slice_is_rejected() {
    let mut s = Scheduler::new();
    let r = s.add_task(Task::new("bad".to_string(), Policy::RoundRobin, 0, 0, 0, None));
    assert_eq!(r, Err(SchedError::Configuration));
    // The rejected task was not enqueued.
    assert!(s.snapshot().is_empty());
    assert!(s.schedule().is_none());
}

#[test]
fn zero_slice_is_fine_for_non_rr_tasks() {
    let mut s = Scheduler::new();
    assert_eq!(s.add_task(Task::new("f".to_string(), Policy::Fifo, 0, 0, 0, None)), Ok(()));
    assert_eq!(s.add_task(Task::new("c".to_string(), Policy::Fair, 0, 0, 0, None)), Ok(()));
}

#[test]
fn registration_forces_ready_state() {
    let mut s = Scheduler::new();
    let mut t = Task::new("reborn".to_string(), Policy::Fifo, 0, 0, 0, None);
    t.state = TaskState::Sleeping(42);
    s.add_task(t).unwrap();
    assert_eq!(s.snapshot()[0].state(), TaskState::Ready);
}

#[test]
fn nice_to_weight_matches_table_endpoints() {
    assert_eq!(Scheduler::nice_to_weight(-20), 88761);
    assert_eq!(Scheduler::nice_to_weight(-10), 9548);
    assert_eq!(Scheduler::nice_to_weight(0), 1024);
    assert_eq!(Scheduler::nice_to_weight(10), 110);
    assert_eq!(Scheduler::nice_to_weight(19), 15);
}

#[test]
fn nice_to_weight_clamps_out_of_range_values() {
    assert_eq!(Scheduler::nice_to_weight(-128), 88761);
    assert_eq!(Scheduler::nice_to_weight(-21), 88761);
    assert_eq!(Scheduler::nice_to_weight(20), 15);
    assert_eq!(Scheduler::nice_to_weight(127), 15);
}

#[test]
fn negative_nice_grows_vruntime_slower() {
    // weight(-5) = 3121 > 1024, so 1024 / 3121 truncates to 0: a very
    // deserving task accrues no vruntime under integer division.
    let mut s = Scheduler::new();
    s.add_task(Task::new("boosted".to_string(), Policy::Fair, 0, 0, -5, None)).unwrap();
    let t = s.schedule().unwrap();
    assert_eq!(t.vruntime(), 0);
    assert_eq!(t.total_runtime(), 10);
}

#[test]
fn mark_sleeping_unknown_name_is_not_found() {
    let mut s = Scheduler::new();
    s.add_task(Task::new("present".to_string(), Policy::Fifo, 0, 0, 0, None)).unwrap();
    assert_eq!(s.mark_sleeping("absent", 3), Err(SchedError::NotFound));
    // The lookup mutated nothing.
    assert_eq!(s.snapshot()[0].state(), TaskState::Ready);
}

#[test]
fn mark_sleeping_hits_rt_queue_task() {
    let mut s = Scheduler::new();
    s.add_task(Task::new("rt".to_string(), Policy::RoundRobin, 0, 10, 0, None)).unwrap();
    assert_eq!(s.mark_sleeping("rt", 5), Ok(()));
    assert_eq!(s.snapshot()[0].state(), TaskState::Sleeping(5));
}

#[test]
fn mark_sleeping_hits_fair_queue_task() {
    let mut s = Scheduler::new();
    s.add_task(Task::new("cfs".to_string(), Policy::Fair, 0, 0, 0, None)).unwrap();
    assert_eq!(s.mark_sleeping("cfs", 4), Ok(()));
    assert_eq!(s.snapshot()[0].state(), TaskState::Sleeping(4));
}

#[test]
fn snapshot_lists_rt_queue_before_fair_queue() {
    let mut s = Scheduler::new();
    s.add_task(Task::new("cfs1".to_string(), Policy::Fair, 0, 0, 0, None)).unwrap();
    s.add_task(Task::new("rt1".to_string(), Policy::Fifo, 0, 0, 0, None)).unwrap();
    s.add_task(Task::new("rt2".to_string(), Policy::RoundRobin, 0, 10, 0, None)).unwrap();
    let v = s.snapshot();
    assert_eq!(v.len(), 3);
    assert_eq!(v[0].name().as_str(), "rt1");
    assert_eq!(v[1].name().as_str(), "rt2");
    assert_eq!(v[2].name().as_str(), "cfs1");
}

#[test]
fn rr_dispatch_requeues_at_the_tail() {
    let mut s = Scheduler::new();
    s.add_task(Task::new("a".to_string(), Policy::RoundRobin, 0, 1000, 0, None)).unwrap();
    s.add_task(Task::new("b".to_string(), Policy::RoundRobin, 0, 1000, 0, None)).unwrap();
    // The head runs and goes to the tail; the two alternate.
    assert_eq!(s.schedule().unwrap().name().as_str(), "a");
    assert_eq!(s.schedule().unwrap().name().as_str(), "b");
    assert_eq!(s.schedule().unwrap().name().as_str(), "a");
    assert_eq!(s.schedule().unwrap().name().as_str(), "b");
}

#[test]
fn wake_sleeping_tasks_advances_countdowns_without_dispatching() {
    let mut s = Scheduler::new();
    s.add_task(Task::new("n".to_string(), Policy::Fifo, 0, 0, 0, None)).unwrap();
    s.mark_sleeping("n", 3).unwrap();

    // Waking alone advances countdowns but dispatches nothing and does
    // not advance the tick counter.
    s.wake_sleeping_tasks();
    assert_eq!(s.snapshot()[0].state(), TaskState::Sleeping(2));
    s.wake_sleeping_tasks();
    assert_eq!(s.snapshot()[0].state(), TaskState::Sleeping(1));
    s.wake_sleeping_tasks();
    assert_eq!(s.snapshot()[0].state(), TaskState::Ready);
    assert_eq!(s.current_tick(), 0);
}

#[test]
fn can_tick_detects_exhausted_counters() {
    let mut s = Scheduler::new();
    assert!(s.can_tick());
    let mut t = Task::new("maxed".to_string(), Policy::Fifo, 0, 0, 0, None);
    t.total_runtime = u64::MAX;
    s.add_task(t).unwrap();
    // One more quantum would overflow this counter.
    assert!(!s.can_tick());
}

#[test]
fn dispatched_copy_matches_queued_task() {
    let mut s = Scheduler::new();
    s.add_task(Task::new("solo".to_string(), Policy::RoundRobin, 0, 40, 0, None)).unwrap();
    let dispatched = s.schedule().unwrap();
    let queued = &s.snapshot()[0];
    assert_eq!(dispatched.name().as_str(), queued.name().as_str());
    assert_eq!(dispatched.total_runtime(), queued.total_runtime());
    assert_eq!(dispatched.cpu_usage(), queued.cpu_usage());
    assert_eq!(dispatched.state(), queued.state());
}
