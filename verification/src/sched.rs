//! The scheduler: a task registry split into a real-time and a fair-share
//! queue, and the tick-driven dispatcher over them.

use vstd::prelude::*;

use crate::model::{
    fair_task_wf, fifo_pick, has_eligible, is_ready, lemma_fair_delta_bound,
    lemma_fifo_pick_exists, lemma_fifo_pick_props, lemma_fifo_pick_unique,
    lemma_min_ready_exists, lemma_min_ready_idx, lemma_min_ready_idx_unique,
    lemma_named_pick_props, lemma_named_pick_unique, lemma_weight_bounds, min_ready_idx,
    named_pick, ready_fifo, rr_head_ready, rt_task_wf, run_fair, run_fifo, run_rr, step,
    task_headroom, tick_headroom, views_of, wake_queue, wake_task, weight_of, SchedulerView,
    MAX_FAIR_DELTA, NICE_ZERO_WEIGHT, QUANTUM, RR_SLEEP_TICKS,
};
use crate::task::{set_state, Policy, Task, TaskState, TaskView};

verus! {

/// Errors surfaced by the scheduler's registry operations. The dispatch
/// algorithm itself is total and never fails.
#[derive(Clone, Copy, Debug, PartialEq, Eq)]
pub enum SchedError {
    /// A task was registered with a configuration the dispatcher could
    /// not execute: a `RoundRobin` task with a zero time slice, whose
    /// slice-expiry check would otherwise divide by zero at dispatch
    /// time.
    Configuration,
    /// No task with the given name exists in either queue.
    NotFound,
}

/// The hybrid scheduler: real-time (`Fifo` + `RoundRobin`) and
/// fair-share (`Fair`) queues under one tick-driven dispatcher.
pub struct Scheduler {
    rt_queue: Vec<Task>,
    fair_queue: Vec<Task>,
    tick: u64,
}

impl View for Scheduler {
    type V = SchedulerView;

    closed spec fn view(&self) -> SchedulerView {
        SchedulerView {
            rt: views_of(self.rt_queue@),
            fair: views_of(self.fair_queue@),
            tick: self.tick as nat,
        }
    }
}

/// Mapping to views commutes with appending a task.
proof fn lemma_views_push(q: Seq<Task>, t: Task)
    ensures
        views_of(q.push(t)) =~= views_of(q).push(t@),
{
    assert forall|k: int| 0 <= k < q.len() + 1 implies views_of(q.push(t))[k] == views_of(
        q,
    ).push(t@)[k] by {
        if k < q.len() {
            assert(q.push(t)[k] == q[k]);
        } else {
            assert(q.push(t)[k] == t);
        }
    }
}

/// Mapping to views commutes with removing a task.
proof fn lemma_views_remove(q: Seq<Task>, i: int)
    requires
        0 <= i < q.len(),
    ensures
        views_of(q.remove(i)) =~= views_of(q).remove(i),
{
    q.remove_ensures(i);
    views_of(q).remove_ensures(i);
    assert forall|k: int| 0 <= k < q.len() - 1 implies views_of(q.remove(i))[k] == views_of(
        q,
    ).remove(i)[k] by {
        if k < i {
            assert(q.remove(i)[k] == q[k]);
        } else {
            assert(q.remove(i)[k] == q[k + 1]);
        }
    }
}

/// Mapping to views commutes with replacing a task.
proof fn lemma_views_update(q: Seq<Task>, i: int, t: Task)
    requires
        0 <= i < q.len(),
    ensures
        views_of(q.update(i, t)) =~= views_of(q).update(i, t@),
{
    assert forall|k: int| 0 <= k < q.len() implies views_of(q.update(i, t))[k] == views_of(
        q,
    ).update(i, t@)[k] by {
        if k == i {
            assert(q.update(i, t)[k] == t);
        } else {
            assert(q.update(i, t)[k] == q[k]);
        }
    }
}

/// Applies one tick of sleep bookkeeping to every task of one queue.
fn wake_tasks(q: &mut Vec<Task>)
    ensures
        views_of(final(q)@) == wake_queue(views_of(old(q)@)),
{
    let n: usize = q.len();
    let mut i: usize = 0;
    while i < n
        invariant
            i <= n,
            n == q@.len(),
            q@.len() == old(q)@.len(),
            forall|j: int| 0 <= j < i ==> #[trigger] q@[j]@ == wake_task(old(q)@[j]@),
            forall|j: int| i <= j < n ==> #[trigger] q@[j] == old(q)@[j],
        decreases n - i,
    {
        let st = q[i].state;
        if let TaskState::Sleeping(remaining) = st {
            let woken_state = if remaining > 1 {
                TaskState::Sleeping(remaining - 1)
            } else {
                TaskState::Ready
            };
            let woken = q[i].with_state(woken_state);
            q[i] = woken;
        }
        i = i + 1;
    }
    proof {
        assert(views_of(q@) =~= wake_queue(views_of(old(q)@)));
    }
}

/// A dispatched `Fifo` task: one quantum charged, then finished.
fn fifo_runned(t: Task) -> (r: Task)
    requires
        task_headroom(t@),
    ensures
        r@ == run_fifo(t@),
{
    Task {
        total_runtime: t.total_runtime + QUANTUM,
        cpu_usage: t.cpu_usage + QUANTUM,
        state: TaskState::Finished,
        ..t
    }
}

/// A dispatched `RoundRobin` task: one quantum charged; sleeps for
/// [`RR_SLEEP_TICKS`] if the new total runtime is an exact multiple of
/// its time slice, otherwise stays ready.
fn rr_runned(t: Task) -> (r: Task)
    requires
        task_headroom(t@),
        t@.time_slice > 0,
    ensures
        r@ == run_rr(t@),
{
    let total: u64 = t.total_runtime + QUANTUM;
    let expired = total % t.time_slice == 0;
    let next_state = if expired {
        TaskState::Sleeping(RR_SLEEP_TICKS)
    } else {
        TaskState::Ready
    };
    Task { total_runtime: total, cpu_usage: t.cpu_usage + QUANTUM, state: next_state, ..t }
}

/// A dispatched `Fair` task: virtual runtime grown by its weighted
/// increment, one quantum charged, back to ready.
fn fair_runned(t: Task) -> (r: Task)
    requires
        task_headroom(t@),
    ensures
        r@ == run_fair(t@),
{
    proof {
        lemma_weight_bounds(t.nice);
        lemma_fair_delta_bound(t.nice);
    }
    let w: u32 = Scheduler::nice_to_weight(t.nice);
    let delta: u64 = QUANTUM * (NICE_ZERO_WEIGHT / (w as u64));
    Task {
        vruntime: t.vruntime + delta,
        total_runtime: t.total_runtime + QUANTUM,
        cpu_usage: t.cpu_usage + QUANTUM,
        state: TaskState::Ready,
        ..t
    }
}

/// Scans a queue for the first `Ready` `Fifo` task, the task
/// [`fifo_pick`] designates.
fn find_ready_fifo(q: &Vec<Task>) -> (r: Option<usize>)
    ensures
        (match r {
            Some(i) => fifo_pick(views_of(q@)) == i as int,
            None => fifo_pick(views_of(q@)) == -1,
        }),
{
    let ghost qv = views_of(q@);
    let n: usize = q.len();
    let mut i: usize = 0;
    while i < n
        invariant
            i <= n,
            n == q@.len(),
            qv == views_of(q@),
            forall|j: int| 0 <= j < i ==> !ready_fifo(#[trigger] qv[j]),
        decreases n - i,
    {
        let hit = q[i].policy == Policy::Fifo && q[i].state == TaskState::Ready;
        if hit {
            proof {
                assert(ready_fifo(qv[i as int]));
                lemma_fifo_pick_unique(qv, i as int);
            }
            return Some(i);
        }
        proof {
            assert(!ready_fifo(qv[i as int]));
        }
        i = i + 1;
    }
    proof {
        lemma_fifo_pick_props(qv);
        if fifo_pick(qv) >= 0 {
            assert(ready_fifo(qv[fifo_pick(qv)]));
        }
    }
    None
}

/// Scans a queue for the earliest `Ready` task of least virtual runtime,
/// the task [`min_ready_idx`] designates.
fn find_min_ready(q: &Vec<Task>) -> (r: Option<usize>)
    ensures
        (match r {
            Some(i) => min_ready_idx(views_of(q@)) == i as int,
            None => min_ready_idx(views_of(q@)) == -1,
        }),
{
    let ghost qv = views_of(q@);
    let n: usize = q.len();
    let mut best: usize = 0;
    let mut found: bool = false;
    let mut i: usize = 0;
    while i < n
        invariant
            i <= n,
            n == q@.len(),
            qv == views_of(q@),
            !found ==> forall|j: int| 0 <= j < i ==> !is_ready(#[trigger] qv[j]),
            found ==> {
                &&& (best as int) < i
                &&& is_ready(qv[best as int])
                &&& forall|j: int|
                    0 <= j < i && is_ready(#[trigger] qv[j]) ==> qv[best as int].vruntime
                        <= qv[j].vruntime
                &&& forall|j: int|
                    0 <= j < best && is_ready(#[trigger] qv[j]) ==> qv[best as int].vruntime
                        < qv[j].vruntime
            },
        decreases n - i,
    {
        let ready_here = q[i].state == TaskState::Ready;
        if ready_here {
            if !found {
                best = i;
                found = true;
            } else if q[i].vruntime < q[best].vruntime {
                best = i;
            }
        }
        i = i + 1;
    }
    if found {
        proof {
            lemma_min_ready_idx_unique(qv, best as int);
        }
        Some(best)
    } else {
        proof {
            lemma_min_ready_idx(qv);
            if min_ready_idx(qv) >= 0 {
                assert(is_ready(qv[min_ready_idx(qv)]));
            }
        }
        None
    }
}

/// Scans a queue for the first task bearing the given name, the task
/// [`named_pick`] designates.
fn find_named(q: &Vec<Task>, target: &String) -> (r: Option<usize>)
    ensures
        (match r {
            Some(i) => named_pick(views_of(q@), target@) == i as int,
            None => named_pick(views_of(q@), target@) == -1,
        }),
{
    let ghost qv = views_of(q@);
    let n: usize = q.len();
    let mut i: usize = 0;
    while i < n
        invariant
            i <= n,
            n == q@.len(),
            qv == views_of(q@),
            forall|j: int| 0 <= j < i ==> (#[trigger] qv[j]).name != target@,
        decreases n - i,
    {
        let hit = q[i].name == *target;
        if hit {
            proof {
                lemma_named_pick_unique(qv, target@, i as int);
            }
            return Some(i);
        }
        i = i + 1;
    }
    proof {
        lemma_named_pick_props(qv, target@);
        if named_pick(qv, target@) >= 0 {
            assert(qv[named_pick(qv, target@)].name == target@);
        }
    }
    None
}

/// Checks that every task of a queue has counter headroom for one more
/// dispatch.
fn queue_has_headroom(q: &Vec<Task>) -> (b: bool)
    ensures
        b == (forall|i: int| 0 <= i < q@.len() ==> task_headroom(#[trigger] views_of(q@)[i])),
{
    let ghost qv = views_of(q@);
    let n: usize = q.len();
    let mut i: usize = 0;
    while i < n
        invariant
            i <= n,
            n == q@.len(),
            qv == views_of(q@),
            forall|j: int| 0 <= j < i ==> task_headroom(#[trigger] qv[j]),
        decreases n - i,
    {
        let ok = q[i].total_runtime <= u64::MAX - QUANTUM && q[i].cpu_usage <= u64::MAX - QUANTUM
            && q[i].vruntime <= u64::MAX - MAX_FAIR_DELTA;
        if !ok {
            proof {
                assert(!task_headroom(qv[i as int]));
            }
            return false;
        }
        proof {
            assert(task_headroom(qv[i as int]));
        }
        i = i + 1;
    }
    true
}

impl Scheduler {
    /// Creates an empty scheduler at tick 0.
    pub fn new() -> (s: Scheduler)
        ensures
            s@ == (SchedulerView { rt: Seq::empty(), fair: Seq::empty(), tick: 0 }),
            s@.wf(),
    {
        let s = Scheduler { rt_queue: Vec::new(), fair_queue: Vec::new(), tick: 0 };
        proof {
            assert(s@.rt =~= Seq::<TaskView>::empty());
            assert(s@.fair =~= Seq::<TaskView>::empty());
        }
        s
    }

    /// Maps a nice value, clamped to `[NICE_MIN, NICE_MAX]`, to its
    /// scheduling weight through the fixed table.
    pub fn nice_to_weight(nice: i8) -> (w: u32)
        ensures
            w == weight_of(nice),
    {
        if nice <= -20 { 88761 }
        else if nice == -19 { 71755 }
        else if nice == -18 { 56483 }
        else if nice == -17 { 46273 }
        else if nice == -16 { 36291 }
        else if nice == -15 { 29154 }
        else if nice == -14 { 23254 }
        else if nice == -13 { 18705 }
        else if nice == -12 { 14949 }
        else if nice == -11 { 11916 }
        else if nice == -10 { 9548 }
        else if nice == -9 { 7620 }
        else if nice == -8 { 6100 }
        else if nice == -7 { 4904 }
        else if nice == -6 { 3906 }
        else if nice == -5 { 3121 }
        else if nice == -4 { 2501 }
        else if nice == -3 { 1991 }
        else if nice == -2 { 1586 }
        else if nice == -1 { 1277 }
        else if nice == 0 { 1024 }
        else if nice == 1 { 820 }
        else if nice == 2 { 655 }
        else if nice == 3 { 526 }
        else if nice == 4 { 423 }
        else if nice == 5 { 335 }
        else if nice == 6 { 272 }
        else if nice == 7 { 215 }
        else if nice == 8 { 172 }
        else if nice == 9 { 137 }
        else if nice == 10 { 110 }
        else if nice == 11 { 87 }
        else if nice == 12 { 70 }
        else if nice == 13 { 56 }
        else if nice == 14 { 45 }
        else if nice == 15 { 36 }
        else if nice == 16 { 29 }
        else if nice == 17 { 23 }
        else if nice == 18 { 18 }
        else { 15 }
    }

    /// Registers a task. Its state is forced to `Ready` and it is
    /// appended to the real-time queue (`Fifo`, `RoundRobin`) or the
    /// fair queue (`Fair`). A `RoundRobin` task with a zero time slice
    /// is rejected with [`SchedError::Configuration`]; out-of-range nice
    /// values are not an error, they are clamped when mapped to a
    /// weight.
    pub fn add_task(&mut self, task: Task) -> (r: Result<(), SchedError>)
        requires
            old(self)@.wf(),
        ensures
            final(self)@.wf(),
            final(self)@.tick == old(self)@.tick,
            (task@.policy == Policy::RoundRobin && task@.time_slice == 0) ==> r == Err::<
                (),
                SchedError,
            >(SchedError::Configuration) && final(self)@ == old(self)@,
            !(task@.policy == Policy::RoundRobin && task@.time_slice == 0) ==> {
                &&& r == Ok::<(), SchedError>(())
                &&& task@.policy == Policy::Fair ==> final(self)@.fair == old(self)@.fair.push(
                    set_state(task@, TaskState::Ready),
                ) && final(self)@.rt == old(self)@.rt
                &&& task@.policy != Policy::Fair ==> final(self)@.rt == old(self)@.rt.push(
                    set_state(task@, TaskState::Ready),
                ) && final(self)@.fair == old(self)@.fair
            },
    {
        if task.policy == Policy::RoundRobin && task.time_slice == 0 {
            return Err(SchedError::Configuration);
        }
        let ghost tv = task@;
        let mut task = task;
        task.state = TaskState::Ready;
        proof {
            assert(task@ =~= set_state(tv, TaskState::Ready));
        }
        let ghost ready_tv = task@;
        match task.policy {
            Policy::Fair => {
                proof {
                    lemma_views_push(self.fair_queue@, task);
                }
                self.fair_queue.push(task);
                proof {
                    assert(self@.fair =~= old(self)@.fair.push(ready_tv));
                    assert forall|i: int|
                        0 <= i < self@.fair.len() implies fair_task_wf(
                        #[trigger] self@.fair[i],
                    ) by {
                        if i < old(self)@.fair.len() {
                            assert(self@.fair[i] == old(self)@.fair[i]);
                        } else {
                            assert(self@.fair[i] == ready_tv);
                        }
                    }
                }
            },
            _ => {
                proof {
                    lemma_views_push(self.rt_queue@, task);
                }
                self.rt_queue.push(task);
                proof {
                    assert(self@.rt =~= old(self)@.rt.push(ready_tv));
                    assert forall|i: int|
                        0 <= i < self@.rt.len() implies rt_task_wf(#[trigger] self@.rt[i]) by {
                        if i < old(self)@.rt.len() {
                            assert(self@.rt[i] == old(self)@.rt[i]);
                        } else {
                            assert(self@.rt[i] == ready_tv);
                        }
                    }
                }
            },
        }
        Ok(())
    }

    /// One tick of sleep bookkeeping on every task of both queues:
    /// countdowns above 1 are decremented, countdowns of 1 (or 0) wake
    /// to `Ready`. Performed by [`Scheduler::schedule`] at the start of
    /// every tick.
    pub fn wake_sleeping_tasks(&mut self)
        ensures
            final(self)@.rt == wake_queue(old(self)@.rt),
            final(self)@.fair == wake_queue(old(self)@.fair),
            final(self)@.tick == old(self)@.tick,
    {
        wake_tasks(&mut self.rt_queue);
        wake_tasks(&mut self.fair_queue);
    }

    /// Runs exactly one scheduling step, the executable counterpart of
    /// the model's [`step`]: sleep timers advance on every task, then at
    /// most one task is dispatched, in the strict class order `Fifo`
    /// (first ready, finishes and leaves for good), head-of-queue
    /// `RoundRobin` (requeued at the tail, sleeping if its slice
    /// expired), then least-vruntime ready `Fair` (requeued at the
    /// tail). Returns the dispatched task with its post-update fields,
    /// or `None` exactly when no task is in a dispatch-eligible state
    /// after the timers advanced.
    ///
    /// The headroom precondition is a machine limit only: it asks that
    /// one more tick cannot overflow any 64-bit counter, and
    /// [`Scheduler::can_tick`] decides it at run time.
    pub fn schedule(&mut self) -> (r: Option<Task>)
        requires
            old(self)@.wf(),
            tick_headroom(old(self)@),
        ensures
            final(self)@.wf(),
            final(self)@ == step(old(self)@).0,
            (match r {
                Some(t) => step(old(self)@).1 == Some(t@),
                None => step(old(self)@).1 is None,
            }),
            r is Some <==> has_eligible(
                wake_queue(old(self)@.rt),
                wake_queue(old(self)@.fair),
            ),
    {
        let ghost s0 = self@;
        self.tick = self.tick + 1;
        self.wake_sleeping_tasks();
        let ghost rt1 = wake_queue(s0.rt);
        let ghost fq1 = wake_queue(s0.fair);
        proof {
            assert(self@.rt == rt1);
            assert(self@.fair == fq1);
            // Waking changes only the life-cycle state, so class
            // membership and counter headroom carry over task by task.
            assert forall|i: int|
                0 <= i < rt1.len() implies rt_task_wf(#[trigger] rt1[i]) && task_headroom(
                rt1[i],
            ) by {
                assert(rt1[i] == wake_task(s0.rt[i]));
                assert(rt_task_wf(s0.rt[i]));
                assert(task_headroom(s0.rt[i]));
            }
            assert forall|i: int|
                0 <= i < fq1.len() implies fair_task_wf(#[trigger] fq1[i]) && task_headroom(
                fq1[i],
            ) by {
                assert(fq1[i] == wake_task(s0.fair[i]));
                assert(fair_task_wf(s0.fair[i]));
                assert(task_headroom(s0.fair[i]));
            }
        }
        // Priority (a): the first ready Fifo task runs once, finishes,
        // and leaves the queue permanently.
        let fifo_idx = find_ready_fifo(&self.rt_queue);
        if let Some(i) = fifo_idx {
            proof {
                lemma_fifo_pick_props(rt1);
                lemma_fifo_pick_exists(rt1);
                assert(0 <= (i as int) && (i as int) < rt1.len());
                lemma_views_remove(self.rt_queue@, i as int);
            }
            let picked = self.rt_queue.remove(i);
            let dispatched = fifo_runned(picked);
            proof {
                assert(self@.rt =~= rt1.remove(i as int));
                rt1.remove_ensures(i as int);
                assert forall|k: int|
                    0 <= k < self@.rt.len() implies rt_task_wf(#[trigger] self@.rt[k]) by {
                    if k < i as int {
                        assert(self@.rt[k] == rt1[k]);
                    } else {
                        assert(self@.rt[k] == rt1[k + 1]);
                    }
                }
                assert(self@ =~= step(s0).0);
            }
            return Some(dispatched);
        }
        // Priority (b): a ready RoundRobin task at the head of the
        // real-time queue runs and requeues at the tail.
        let rr_eligible: bool = if self.rt_queue.len() > 0 {
            self.rt_queue[0].policy == Policy::RoundRobin && self.rt_queue[0].state
                == TaskState::Ready
        } else {
            false
        };
        proof {
            if self.rt_queue.len() > 0 {
                assert(rt1[0] == self.rt_queue@[0]@);
            }
            assert(rr_eligible == rr_head_ready(rt1));
        }
        if rr_eligible {
            proof {
                assert(rt_task_wf(rt1[0]));
                lemma_views_remove(self.rt_queue@, 0);
            }
            let picked = self.rt_queue.remove(0);
            let dispatched = rr_runned(picked);
            let requeue = dispatched.snapshot();
            proof {
                lemma_views_push(self.rt_queue@, requeue);
            }
            self.rt_queue.push(requeue);
            proof {
                assert(self@.rt =~= rt1.remove(0).push(dispatched@));
                assert(rt1.remove(0) =~= rt1.drop_first());
                rt1.remove_ensures(0);
                assert forall|k: int|
                    0 <= k < self@.rt.len() implies rt_task_wf(#[trigger] self@.rt[k]) by {
                    if k < rt1.len() - 1 {
                        assert(self@.rt[k] == rt1[k + 1]);
                    } else {
                        assert(self@.rt[k] == dispatched@);
                    }
                }
                assert(self@ =~= step(s0).0);
            }
            return Some(dispatched);
        }
        // Priority (c): the earliest ready Fair task of least virtual
        // runtime runs and requeues at the tail.
        let fair_idx = find_min_ready(&self.fair_queue);
        if let Some(i) = fair_idx {
            proof {
                lemma_min_ready_idx(fq1);
                lemma_min_ready_exists(fq1);
                assert(0 <= (i as int) && (i as int) < fq1.len());
                lemma_views_remove(self.fair_queue@, i as int);
            }
            let picked = self.fair_queue.remove(i);
            let dispatched = fair_runned(picked);
            let requeue = dispatched.snapshot();
            proof {
                lemma_views_push(self.fair_queue@, requeue);
            }
            self.fair_queue.push(requeue);
            proof {
                assert(self@.fair =~= fq1.remove(i as int).push(dispatched@));
                fq1.remove_ensures(i as int);
                assert forall|k: int|
                    0 <= k < self@.fair.len() implies fair_task_wf(#[trigger] self@.fair[k]) by {
                    if k < i as int {
                        assert(self@.fair[k] == fq1[k]);
                    } else if k < fq1.len() - 1 {
                        assert(self@.fair[k] == fq1[k + 1]);
                    } else {
                        assert(self@.fair[k] == dispatched@);
                    }
                }
                assert(self@ =~= step(s0).0);
            }
            return Some(dispatched);
        }
        // Priority (d): idle tick; nothing is eligible.
        proof {
            lemma_fifo_pick_exists(rt1);
            lemma_min_ready_exists(fq1);
            assert(self@ =~= step(s0).0);
        }
        None
    }

    /// External event injection: forces the first task bearing `name`
    /// (searching the real-time queue, then the fair queue) into
    /// `Sleeping(ticks)`. Returns [`SchedError::NotFound`], leaving the
    /// scheduler unchanged, when no task bears the name.
    pub fn mark_sleeping(&mut self, name: &str, ticks: u32) -> (r: Result<(), SchedError>)
        requires
            old(self)@.wf(),
        ensures
            final(self)@.wf(),
            final(self)@.tick == old(self)@.tick,
            ({
                let ri = named_pick(old(self)@.rt, name@);
                let fi = named_pick(old(self)@.fair, name@);
                if ri >= 0 {
                    &&& r == Ok::<(), SchedError>(())
                    &&& final(self)@.rt == old(self)@.rt.update(
                        ri,
                        set_state(old(self)@.rt[ri], TaskState::Sleeping(ticks)),
                    )
                    &&& final(self)@.fair == old(self)@.fair
                } else if fi >= 0 {
                    &&& r == Ok::<(), SchedError>(())
                    &&& final(self)@.fair == old(self)@.fair.update(
                        fi,
                        set_state(old(self)@.fair[fi], TaskState::Sleeping(ticks)),
                    )
                    &&& final(self)@.rt == old(self)@.rt
                } else {
                    &&& r == Err::<(), SchedError>(SchedError::NotFound)
                    &&& final(self)@ == old(self)@
                }
            }),
    {
        let target: String = name.to_owned();
        if let Some(i) = find_named(&self.rt_queue, &target) {
            proof {
                lemma_named_pick_props(self@.rt, target@);
            }
            let slept = self.rt_queue[i].with_state(TaskState::Sleeping(ticks));
            proof {
                lemma_views_update(self.rt_queue@, i as int, slept);
            }
            self.rt_queue[i] = slept;
            proof {
                assert(self@.rt =~= old(self)@.rt.update(
                    i as int,
                    set_state(old(self)@.rt[i as int], TaskState::Sleeping(ticks)),
                ));
                assert forall|k: int|
                    0 <= k < self@.rt.len() implies rt_task_wf(#[trigger] self@.rt[k]) by {
                    if k != i as int {
                        assert(self@.rt[k] == old(self)@.rt[k]);
                    }
                }
            }
            return Ok(());
        }
        if let Some(i) = find_named(&self.fair_queue, &target) {
            proof {
                lemma_named_pick_props(self@.fair, target@);
            }
            let slept = self.fair_queue[i].with_state(TaskState::Sleeping(ticks));
            proof {
                lemma_views_update(self.fair_queue@, i as int, slept);
            }
            self.fair_queue[i] = slept;
            proof {
                assert(self@.fair =~= old(self)@.fair.update(
                    i as int,
                    set_state(old(self)@.fair[i as int], TaskState::Sleeping(ticks)),
                ));
                assert forall|k: int|
                    0 <= k < self@.fair.len() implies fair_task_wf(#[trigger] self@.fair[k]) by {
                    if k != i as int {
                        assert(self@.fair[k] == old(self)@.fair[k]);
                    }
                }
            }
            return Ok(());
        }
        Err(SchedError::NotFound)
    }

    /// A point-in-time copy of every task, real-time queue first, then
    /// fair queue, for observability. The scheduler itself is not
    /// mutated.
    pub fn snapshot(&self) -> (v: Vec<Task>)
        ensures
            views_of(v@) == self@.rt + self@.fair,
    {
        let mut v: Vec<Task> = Vec::new();
        let n1: usize = self.rt_queue.len();
        let mut i: usize = 0;
        while i < n1
            invariant
                i <= n1,
                n1 == self.rt_queue@.len(),
                views_of(v@) == self@.rt.subrange(0, i as int),
            decreases n1 - i,
        {
            let t = self.rt_queue[i].snapshot();
            proof {
                lemma_views_push(v@, t);
            }
            v.push(t);
            proof {
                assert(views_of(v@) =~= self@.rt.subrange(0, i + 1));
            }
            i = i + 1;
        }
        let n2: usize = self.fair_queue.len();
        let mut j: usize = 0;
        while j < n2
            invariant
                j <= n2,
                n2 == self.fair_queue@.len(),
                views_of(v@) == self@.rt + self@.fair.subrange(0, j as int),
            decreases n2 - j,
        {
            let t = self.fair_queue[j].snapshot();
            proof {
                lemma_views_push(v@, t);
            }
            v.push(t);
            proof {
                assert(views_of(v@) =~= self@.rt + self@.fair.subrange(0, j + 1));
            }
            j = j + 1;
        }
        proof {
            assert(self@.rt.subrange(0, n1 as int) =~= self@.rt);
            assert(self@.fair.subrange(0, n2 as int) =~= self@.fair);
        }
        v
    }

    /// Decides the machine-limit precondition of
    /// [`Scheduler::schedule`] at run time: whether one more tick is
    /// certain not to overflow any 64-bit counter.
    pub fn can_tick(&self) -> (b: bool)
        ensures
            b == tick_headroom(self@),
    {
        if self.tick == u64::MAX {
            return false;
        }
        let rt_ok = queue_has_headroom(&self.rt_queue);
        let fair_ok = queue_has_headroom(&self.fair_queue);
        proof {
            assert(self@.rt.len() == self.rt_queue@.len());
            assert(self@.fair.len() == self.fair_queue@.len());
        }
        rt_ok && fair_ok
    }

    /// Number of ticks performed so far.
    pub fn current_tick(&self) -> (t: u64)
        ensures
            t as nat == self@.tick,
    {
        self.tick
    }
}

} // verus!
