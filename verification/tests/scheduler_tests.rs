//! Scenario tests for the tick-driven dispatcher.

use sched_sim::sched::Scheduler;
use sched_sim::task::{Policy, Task, TaskState};

fn fifo(name: &str) -> Task {
    Task::new(name.to_string(), Policy::Fifo, 0, 0, 0, None)
}

fn rr(name: &str, time_slice: u64) -> Task {
    Task::new(name.to_string(), Policy::RoundRobin, 1, time_slice, 0, None)
}

fn fair(name: &str, nice: i8) -> Task {
    Task::new(name.to_string(), Policy::Fair, 0, 0, nice, None)
}

#[test]
fn single_fifo_task_runs_once_then_idle() {
    let mut s = Scheduler::new();
    s.add_task(fifo("A")).unwrap();

    let first = s.schedule();
    let t = first.expect("a ready FIFO task must be dispatched");
    assert_eq!(t.name().as_str(), "A");
    assert_eq!(t.state(), TaskState::Finished);
    assert_eq!(t.total_runtime(), 10);
    assert_eq!(t.cpu_usage(), 10);

    // The finished task left the queue for good.
    assert!(s.snapshot().is_empty());
    assert!(s.schedule().is_none());
    assert!(s.schedule().is_none());
}

#[test]
fn rr_task_sleeps_when_slice_expires() {
    let mut s = Scheduler::new();
    s.add_task(rr("B", 10)).unwrap();

    let t = s.schedule().expect("ready RR head must run");
    assert_eq!(t.name().as_str(), "B");
    assert_eq!(t.total_runtime(), 10);
    assert_eq!(t.state(), TaskState::Sleeping(3));

    // Sleeping: ineligible while the countdown runs (two idle ticks),
    // then the wake and the dispatch happen on the third tick.
    assert!(s.schedule().is_none());
    assert!(s.schedule().is_none());
    let t = s.schedule().expect("woken RR task must run again");
    assert_eq!(t.total_runtime(), 20);
    assert_eq!(t.state(), TaskState::Sleeping(3));
}

#[test]
fn rr_task_with_long_slice_stays_ready() {
    let mut s = Scheduler::new();
    s.add_task(rr("video-player", 30)).unwrap();

    let t = s.schedule().unwrap();
    assert_eq!(t.total_runtime(), 10);
    assert_eq!(t.state(), TaskState::Ready);
    let t = s.schedule().unwrap();
    assert_eq!(t.total_runtime(), 20);
    assert_eq!(t.state(), TaskState::Ready);
    let t = s.schedule().unwrap();
    assert_eq!(t.total_runtime(), 30);
    assert_eq!(t.state(), TaskState::Sleeping(3));
}

#[test]
fn fair_vruntime_scales_with_nice() {
    let mut s = Scheduler::new();
    s.add_task(fair("nice0", 0)).unwrap();
    s.add_task(fair("nice19", 19)).unwrap();

    // Tick 1: both start at vruntime 0; the tie goes to the earlier
    // queue position, nice0. Tick 2: nice19 (vruntime 0) is below
    // nice0 (vruntime 10). After these two ticks each task has run
    // exactly once.
    let t = s.schedule().unwrap();
    assert_eq!(t.name().as_str(), "nice0");
    assert_eq!(t.vruntime(), 10); // 10 * (1024 / 1024)
    let t = s.schedule().unwrap();
    assert_eq!(t.name().as_str(), "nice19");
    assert_eq!(t.vruntime(), 680); // 10 * (1024 / 15)

    // Equal dispatch counts, and the higher nice has accumulated
    // vruntime 68 times faster.
    for task in s.snapshot() {
        assert_eq!(task.total_runtime(), 10);
    }
}

#[test]
fn fair_picks_minimum_vruntime() {
    let mut s = Scheduler::new();
    let mut a = fair("slow", 0);
    a.vruntime = 100;
    let mut b = fair("deserving", 0);
    b.vruntime = 5;
    s.add_task(a).unwrap();
    s.add_task(b).unwrap();

    let t = s.schedule().unwrap();
    assert_eq!(t.name().as_str(), "deserving");
    assert_eq!(t.vruntime(), 15);
}

#[test]
fn fair_tie_breaks_by_queue_position() {
    let mut s = Scheduler::new();
    s.add_task(fair("first", 0)).unwrap();
    s.add_task(fair("second", 0)).unwrap();

    let t = s.schedule().unwrap();
    assert_eq!(t.name().as_str(), "first");
}

#[test]
fn class_priority_fifo_then_rr_starves_fair() {
    let mut s = Scheduler::new();
    s.add_task(fair("background", 0)).unwrap();
    s.add_task(rr("player", 1000)).unwrap();
    s.add_task(fifo("urgent")).unwrap();

    // Strict priority: Fifo first, then the continuously-ready RR task
    // on every later tick; the fair task is starved.
    assert_eq!(s.schedule().unwrap().name().as_str(), "urgent");
    for _ in 0..5 {
        assert_eq!(s.schedule().unwrap().name().as_str(), "player");
    }
}

#[test]
fn sleeping_rr_head_lets_fair_run() {
    let mut s = Scheduler::new();
    s.add_task(rr("head", 1000)).unwrap();
    s.add_task(fair("patient", 0)).unwrap();
    s.mark_sleeping("head", 5).unwrap();

    // A RoundRobin task is a head candidate only: sleeping at the head
    // it is ineligible, and the fair queue runs instead.
    let t = s.schedule().unwrap();
    assert_eq!(t.name().as_str(), "patient");
    assert_eq!(t.policy(), Policy::Fair);
}

#[test]
fn fifo_selected_by_position_among_ready() {
    let mut s = Scheduler::new();
    s.add_task(fifo("one")).unwrap();
    s.add_task(fifo("two")).unwrap();
    s.add_task(fifo("three")).unwrap();
    s.mark_sleeping("one", 10).unwrap();

    // "one" sleeps, so the first ready Fifo task is "two"; each
    // dispatch finishes the task and removes it.
    assert_eq!(s.schedule().unwrap().name().as_str(), "two");
    assert_eq!(s.schedule().unwrap().name().as_str(), "three");
    assert_eq!(s.snapshot().len(), 1);
}

#[test]
fn sleep_countdown_wakes_after_exactly_n_ticks() {
    let mut s = Scheduler::new();
    s.add_task(fifo("X")).unwrap();
    s.mark_sleeping("X", 2).unwrap();

    // Sleeping(2): one idle tick (countdown 2 -> 1), then the wake and
    // the dispatch on the second tick - neither earlier nor later.
    assert!(s.schedule().is_none());
    let t = s.schedule().expect("task must wake exactly on tick 2");
    assert_eq!(t.name().as_str(), "X");
    assert_eq!(t.state(), TaskState::Finished);
}

#[test]
fn sleep_zero_wakes_next_tick() {
    let mut s = Scheduler::new();
    s.add_task(fifo("Z")).unwrap();
    s.mark_sleeping("Z", 0).unwrap();

    // Sleeping(0) never stays negative: it wakes on the next tick.
    let t = s.schedule().expect("Sleeping(0) must be ready next tick");
    assert_eq!(t.name().as_str(), "Z");
}

#[test]
fn idle_iff_nothing_eligible() {
    let mut s = Scheduler::new();
    // Empty scheduler: idle.
    assert!(s.schedule().is_none());

    // A sleeping task in each queue: still idle.
    s.add_task(rr("r", 10)).unwrap();
    s.add_task(fair("f", 0)).unwrap();
    s.mark_sleeping("r", 8).unwrap();
    s.mark_sleeping("f", 8).unwrap();
    assert!(s.schedule().is_none());

    // Once anything is ready again, the tick dispatches.
    for _ in 0..7 {
        s.schedule();
    }
    assert!(s.schedule().is_some());
}

#[test]
fn tick_counter_advances_once_per_tick() {
    let mut s = Scheduler::new();
    assert_eq!(s.current_tick(), 0);
    s.schedule();
    s.schedule();
    assert_eq!(s.current_tick(), 2);
    assert!(s.can_tick());
}
