//! A tick-driven hybrid process scheduler simulator.
//!
//! Tasks belong to one of three policy classes: non-preemptive `Fifo`
//! tasks that run once to completion, preemptive `RoundRobin` tasks that
//! cycle through a queue in bounded time slices, and proportional-share
//! `Fair` tasks selected by least accumulated virtual runtime. A
//! `Scheduler` holds the tasks in two queues (real-time and fair-share)
//! and dispatches at most one task per tick.

pub mod laws;
pub mod model;
pub mod sched;
pub mod task;
