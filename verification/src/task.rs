//! The schedulable unit: a task, its policy class and its life-cycle state.

use vstd::prelude::*;

verus! {

/// Scheduling class of a task. The class is fixed at creation and decides
/// which queue the task lives in and how the dispatcher treats it.
#[derive(Clone, Copy, Debug, PartialEq, Eq, Structural)]
pub enum Policy {
    /// Non-preemptive real-time class: dispatched once, then finished.
    Fifo,
    /// Preemptive real-time class: runs in bounded time slices and cycles
    /// through the real-time queue.
    RoundRobin,
    /// Proportional-share class: selected by least accumulated virtual
    /// runtime, weighted by the nice value.
    Fair,
}

/// Life-cycle state of a task.
///
/// `Running` is a momentary accounting concept only: a dispatched task
/// oscillates back to `Ready` (or `Sleeping`/`Finished`) within the same
/// tick, so no task is ever observed `Running` between ticks.
#[derive(Clone, Copy, Debug, PartialEq, Eq, Structural)]
pub enum TaskState {
    /// Eligible for dispatch.
    Ready,
    /// Momentarily being charged for a quantum of simulated CPU time.
    Running,
    /// Ineligible; the countdown of remaining ticks is decremented once
    /// per tick and the task wakes to `Ready` when it runs out.
    Sleeping(u32),
    /// Terminal state of a `Fifo` task; never dispatched again.
    Finished,
}

/// A unit of schedulable work.
///
/// All counters are in simulated time units; none of them is ever
/// decremented. Fields are only mutated by the scheduler, which keeps the
/// bookkeeping consistent with the mathematical model in [`crate::model`].
pub struct Task {
    pub name: String,
    pub policy: Policy,
    pub priority: u8,
    pub vruntime: u64,
    pub time_slice: u64,
    pub total_runtime: u64,
    pub cpu_usage: u64,
    pub nice: i8,
    pub state: TaskState,
    pub deadline: Option<u64>,
}

/// The mathematical value of a [`Task`]: the same fields, with the name as
/// a sequence of characters and the counters as unbounded naturals.
#[verifier::ext_equal]
pub struct TaskView {
    pub name: Seq<char>,
    pub policy: Policy,
    pub priority: u8,
    pub vruntime: nat,
    pub time_slice: nat,
    pub total_runtime: nat,
    pub cpu_usage: nat,
    pub nice: i8,
    pub state: TaskState,
    pub deadline: Option<u64>,
}

impl View for Task {
    type V = TaskView;

    open spec fn view(&self) -> TaskView {
        TaskView {
            name: self.name@,
            policy: self.policy,
            priority: self.priority,
            vruntime: self.vruntime as nat,
            time_slice: self.time_slice as nat,
            total_runtime: self.total_runtime as nat,
            cpu_usage: self.cpu_usage as nat,
            nice: self.nice,
            state: self.state,
            deadline: self.deadline,
        }
    }
}

/// The same task with its life-cycle state replaced.
pub open spec fn set_state(t: TaskView, st: TaskState) -> TaskView {
    TaskView { state: st, ..t }
}

impl Task {
    /// Creates a task in the `Ready` state with all runtime counters at
    /// zero. `time_slice` is only consulted for `RoundRobin` tasks,
    /// `nice` only for `Fair` tasks, and `priority` and `deadline` are
    /// carried for observability but not consulted by the dispatcher.
    pub fn new(
        name: String,
        policy: Policy,
        priority: u8,
        time_slice: u64,
        nice: i8,
        deadline: Option<u64>,
    ) -> (t: Task)
        ensures
            t@ == (TaskView {
                name: name@,
                policy,
                priority,
                vruntime: 0,
                time_slice: time_slice as nat,
                total_runtime: 0,
                cpu_usage: 0,
                nice,
                state: TaskState::Ready,
                deadline,
            }),
    {
        Task {
            name,
            policy,
            priority,
            vruntime: 0,
            time_slice,
            total_runtime: 0,
            cpu_usage: 0,
            nice,
            state: TaskState::Ready,
            deadline,
        }
    }

    /// A field-for-field copy of the task.
    pub fn snapshot(&self) -> (t: Task)
        ensures
            t@ == self@,
    {
        Task {
            name: self.name.clone(),
            policy: self.policy,
            priority: self.priority,
            vruntime: self.vruntime,
            time_slice: self.time_slice,
            total_runtime: self.total_runtime,
            cpu_usage: self.cpu_usage,
            nice: self.nice,
            state: self.state,
            deadline: self.deadline,
        }
    }

    /// A copy of the task with its life-cycle state replaced.
    pub(crate) fn with_state(&self, st: TaskState) -> (t: Task)
        ensures
            t@ == set_state(self@, st),
    {
        Task {
            name: self.name.clone(),
            policy: self.policy,
            priority: self.priority,
            vruntime: self.vruntime,
            time_slice: self.time_slice,
            total_runtime: self.total_runtime,
            cpu_usage: self.cpu_usage,
            nice: self.nice,
            state: st,
            deadline: self.deadline,
        }
    }

    /// The task's identifier, assumed (not enforced) unique within a run.
    pub fn name(&self) -> (r: &String)
        ensures
            r@ == self@.name,
    {
        &self.name
    }

    /// The task's scheduling class.
    pub fn policy(&self) -> (r: Policy)
        ensures
            r == self@.policy,
    {
        self.policy
    }

    /// Informational priority; not consulted by the dispatch algorithm.
    pub fn priority(&self) -> (r: u8)
        ensures
            r == self@.priority,
    {
        self.priority
    }

    /// Accumulated virtual runtime; meaningful only for `Fair` tasks.
    pub fn vruntime(&self) -> (r: u64)
        ensures
            r as nat == self@.vruntime,
    {
        self.vruntime
    }

    /// Time-slice quota; meaningful only for `RoundRobin` tasks.
    pub fn time_slice(&self) -> (r: u64)
        ensures
            r as nat == self@.time_slice,
    {
        self.time_slice
    }

    /// Total simulated CPU time consumed.
    pub fn total_runtime(&self) -> (r: u64)
        ensures
            r as nat == self@.total_runtime,
    {
        self.total_runtime
    }

    /// Accumulated simulated CPU usage.
    pub fn cpu_usage(&self) -> (r: u64)
        ensures
            r as nat == self@.cpu_usage,
    {
        self.cpu_usage
    }

    /// Nice value; meaningful only for `Fair` tasks, clamped to the
    /// supported range when mapped to a weight.
    pub fn nice(&self) -> (r: i8)
        ensures
            r == self@.nice,
    {
        self.nice
    }

    /// Current life-cycle state.
    pub fn state(&self) -> (r: TaskState)
        ensures
            r == self@.state,
    {
        self.state
    }

    /// Optional absolute deadline tick; carried but not enforced.
    pub fn deadline(&self) -> (r: Option<u64>)
        ensures
            r == self@.deadline,
    {
        self.deadline
    }
}

} // verus!
