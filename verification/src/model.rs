//! The mathematical model of the scheduler.
//!
//! Everything the executable scheduler does in one tick is described here
//! as a pure function [`step`] from a [`SchedulerView`] to its successor
//! together with the dispatched task, if any. The contracts of the
//! executable code and the proved scheduling laws all speak in terms of
//! this model.

use vstd::prelude::*;

use crate::task::{set_state, Policy, Task, TaskState, TaskView};

verus! {

/// Simulated CPU time credited to a task each time it is dispatched.
pub const QUANTUM: u64 = 10;

/// Cooldown, in ticks, imposed on a `RoundRobin` task whose time slice
/// expires: it simulates the preemption penalty.
pub const RR_SLEEP_TICKS: u32 = 3;

/// Weight of a task at nice 0; the unit in which virtual-runtime growth
/// is scaled.
pub const NICE_ZERO_WEIGHT: u64 = 1024;

/// Smallest nice value; anything lower is clamped to it.
pub const NICE_MIN: i8 = -20;

/// Largest nice value; anything higher is clamped to it.
pub const NICE_MAX: i8 = 19;

/// Upper bound on any single virtual-runtime increment:
/// `QUANTUM * (NICE_ZERO_WEIGHT / 15)`, the increment at the smallest
/// weight in the table.
pub const MAX_FAIR_DELTA: u64 = 680;

/// The Linux-style nice-to-weight table: an exponential decay from
/// weight 88761 at nice -20 down to weight 15 at nice 19. Nice values
/// outside `[NICE_MIN, NICE_MAX]` are clamped.
pub open spec fn weight_of(nice: i8) -> u32 {
    if nice <= -20 { 88761 }
    else if nice == -19 { 71755 }
    else if nice == -18 { 56483 }
    else if nice == -17 { 46273 }
    else if nice == -16 { 36291 }
    else if nice == -15 { 29154 }
    else if nice == -14 { 23254 }
    else if nice == -13 { 18705 }
    else if nice == -12 { 14949 }
    else if nice == -11 { 11916 }
    else if nice == -10 { 9548 }
    else if nice == -9 { 7620 }
    else if nice == -8 { 6100 }
    else if nice == -7 { 4904 }
    else if nice == -6 { 3906 }
    else if nice == -5 { 3121 }
    else if nice == -4 { 2501 }
    else if nice == -3 { 1991 }
    else if nice == -2 { 1586 }
    else if nice == -1 { 1277 }
    else if nice == 0 { 1024 }
    else if nice == 1 { 820 }
    else if nice == 2 { 655 }
    else if nice == 3 { 526 }
    else if nice == 4 { 423 }
    else if nice == 5 { 335 }
    else if nice == 6 { 272 }
    else if nice == 7 { 215 }
    else if nice == 8 { 172 }
    else if nice == 9 { 137 }
    else if nice == 10 { 110 }
    else if nice == 11 { 87 }
    else if nice == 12 { 70 }
    else if nice == 13 { 56 }
    else if nice == 14 { 45 }
    else if nice == 15 { 36 }
    else if nice == 16 { 29 }
    else if nice == 17 { 23 }
    else if nice == 18 { 18 }
    else { 15 }
}

/// Virtual-runtime increment of a `Fair` task per dispatch:
/// `QUANTUM * (NICE_ZERO_WEIGHT / weight)`, in integer division. A larger
/// weight (more negative nice) gives a smaller increment, hence more
/// frequent selection.
pub open spec fn fair_delta(nice: i8) -> nat {
    (QUANTUM * (NICE_ZERO_WEIGHT / (weight_of(nice) as u64))) as nat
}

/// Every weight in the table lies between the endpoints of the table.
pub proof fn lemma_weight_bounds(nice: i8)
    ensures
        15 <= weight_of(nice) <= 88761,
{
}

/// The weight table is antitone: a lower nice value never gets a smaller
/// weight.
pub proof fn lemma_weight_antitone(n1: i8, n2: i8)
    requires
        n1 <= n2,
    ensures
        weight_of(n1) >= weight_of(n2),
{
}

/// No single dispatch grows a virtual runtime by more than
/// [`MAX_FAIR_DELTA`].
pub proof fn lemma_fair_delta_bound(nice: i8)
    ensures
        fair_delta(nice) <= MAX_FAIR_DELTA,
{
    lemma_weight_bounds(nice);
    let w = weight_of(nice) as u64;
    assert(NICE_ZERO_WEIGHT / w <= NICE_ZERO_WEIGHT / 15) by {
        vstd::arithmetic::div_mod::lemma_div_is_ordered_by_denominator(
            NICE_ZERO_WEIGHT as int,
            15,
            w as int,
        );
    };
}

// ---------------------------------------------------------------------
// Per-task transitions
// ---------------------------------------------------------------------

/// One tick of sleep bookkeeping. A countdown above 1 is decremented; a
/// countdown of 1 (or 0) wakes the task to `Ready` in the same step, so a
/// state `Sleeping(0)` is never observed after a tick. All other states
/// are untouched.
pub open spec fn wake_task(t: TaskView) -> TaskView {
    match t.state {
        TaskState::Sleeping(n) => if n > 1 {
            set_state(t, TaskState::Sleeping((n - 1) as u32))
        } else {
            set_state(t, TaskState::Ready)
        },
        _ => t,
    }
}

/// Charges one quantum of simulated CPU time to both counters.
pub open spec fn charge_quantum(t: TaskView) -> TaskView {
    TaskView {
        total_runtime: (t.total_runtime + QUANTUM) as nat,
        cpu_usage: (t.cpu_usage + QUANTUM) as nat,
        ..t
    }
}

/// A dispatched `Fifo` task: charged one quantum and finished for good.
pub open spec fn run_fifo(t: TaskView) -> TaskView {
    set_state(charge_quantum(t), TaskState::Finished)
}

/// A dispatched `RoundRobin` task: charged one quantum; if the new total
/// runtime is an exact multiple of its time slice, the slice has expired
/// and the task is put to sleep for [`RR_SLEEP_TICKS`] ticks, otherwise
/// it stays `Ready`.
pub open spec fn run_rr(t: TaskView) -> TaskView {
    let c = charge_quantum(t);
    if c.total_runtime % t.time_slice == 0 {
        set_state(c, TaskState::Sleeping(RR_SLEEP_TICKS))
    } else {
        set_state(c, TaskState::Ready)
    }
}

/// A dispatched `Fair` task: its virtual runtime grows by
/// [`fair_delta`], it is charged one quantum, and it returns to `Ready`
/// (the momentary `Running` state is not persisted).
pub open spec fn run_fair(t: TaskView) -> TaskView {
    let c = charge_quantum(t);
    set_state(
        TaskView { vruntime: (c.vruntime + fair_delta(t.nice)) as nat, ..c },
        TaskState::Ready,
    )
}

// ---------------------------------------------------------------------
// Queues
// ---------------------------------------------------------------------

/// The views of a sequence of executable tasks.
pub open spec fn views_of(q: Seq<Task>) -> Seq<TaskView> {
    q.map_values(|t: Task| t@)
}

/// Sleep bookkeeping applied to every task of a queue.
pub open spec fn wake_queue(q: Seq<TaskView>) -> Seq<TaskView> {
    q.map_values(|t: TaskView| wake_task(t))
}

/// A task that may be dispatched right now, disregarding its position.
pub open spec fn is_ready(t: TaskView) -> bool {
    t.state == TaskState::Ready
}

/// A `Fifo` task that may be dispatched right now.
pub open spec fn ready_fifo(t: TaskView) -> bool {
    t.policy == Policy::Fifo && is_ready(t)
}

/// Index of the first task satisfying `p`, or -1 if there is none.
pub open spec fn first_where(q: Seq<TaskView>, p: spec_fn(TaskView) -> bool) -> int
    decreases q.len(),
{
    if q.len() == 0 {
        -1
    } else if p(q[0]) {
        0
    } else {
        let r = first_where(q.drop_first(), p);
        if r < 0 {
            -1
        } else {
            r + 1
        }
    }
}

/// Index of the first `Ready` `Fifo` task of the real-time queue, or -1.
pub open spec fn fifo_pick(q: Seq<TaskView>) -> int {
    first_where(q, |t: TaskView| ready_fifo(t))
}

/// Index of the first task with the given name, or -1.
pub open spec fn named_pick(q: Seq<TaskView>, name: Seq<char>) -> int {
    first_where(q, |t: TaskView| t.name == name)
}

/// Index of the `Ready` task with the least virtual runtime, earliest
/// such task first, or -1 if no task of the queue is `Ready`.
pub open spec fn min_ready_idx(q: Seq<TaskView>) -> int
    decreases q.len(),
{
    if q.len() == 0 {
        -1
    } else {
        let r = min_ready_idx(q.drop_first());
        if !is_ready(q[0]) {
            if r < 0 {
                -1
            } else {
                r + 1
            }
        } else if r < 0 {
            0
        } else if q[0].vruntime <= q.drop_first()[r].vruntime {
            0
        } else {
            r + 1
        }
    }
}

/// What [`first_where`] returns: -1 exactly when nothing satisfies `p`,
/// and otherwise the first index that does.
pub proof fn lemma_first_where(q: Seq<TaskView>, p: spec_fn(TaskView) -> bool)
    ensures
        first_where(q, p) == -1 || first_where(q, p) >= 0,
        first_where(q, p) == -1 ==> (forall|i: int| 0 <= i < q.len() ==> !p(#[trigger] q[i])),
        first_where(q, p) >= 0 ==> {
            let f = first_where(q, p);
            &&& 0 <= f < q.len()
            &&& p(q[f])
            &&& forall|i: int| 0 <= i < f ==> !p(#[trigger] q[i])
        },
    decreases q.len(),
{
    if q.len() == 0 {
    } else if p(q[0]) {
    } else {
        let rest = q.drop_first();
        lemma_first_where(rest, p);
        let r = first_where(rest, p);
        if r < 0 {
            assert forall|i: int| 0 <= i < q.len() implies !p(#[trigger] q[i]) by {
                if i > 0 {
                    assert(rest[i - 1] == q[i]);
                }
            }
        } else {
            assert(q[r + 1] == rest[r]);
            assert forall|i: int| 0 <= i < r + 1 implies !p(#[trigger] q[i]) by {
                if i > 0 {
                    assert(rest[i - 1] == q[i]);
                }
            }
        }
    }
}

/// If `i` is the first index satisfying `p`, then [`first_where`] finds
/// exactly `i`.
pub proof fn lemma_first_where_unique(q: Seq<TaskView>, p: spec_fn(TaskView) -> bool, i: int)
    requires
        0 <= i < q.len(),
        p(q[i]),
        forall|j: int| 0 <= j < i ==> !p(#[trigger] q[j]),
    ensures
        first_where(q, p) == i,
{
    lemma_first_where(q, p);
}

/// What [`min_ready_idx`] returns: -1 exactly when no task is `Ready`,
/// and otherwise the earliest index holding the minimal virtual runtime
/// among `Ready` tasks.
pub proof fn lemma_min_ready_idx(q: Seq<TaskView>)
    ensures
        min_ready_idx(q) == -1 || min_ready_idx(q) >= 0,
        min_ready_idx(q) == -1 ==> (forall|i: int| 0 <= i < q.len() ==> !is_ready(#[trigger] q[i])),
        min_ready_idx(q) >= 0 ==> {
            let m = min_ready_idx(q);
            &&& 0 <= m < q.len()
            &&& is_ready(q[m])
            &&& forall|i: int|
                0 <= i < q.len() && is_ready(#[trigger] q[i]) ==> q[m].vruntime <= q[i].vruntime
            &&& forall|i: int|
                0 <= i < m && is_ready(#[trigger] q[i]) ==> q[m].vruntime < q[i].vruntime
        },
    decreases q.len(),
{
    if q.len() == 0 {
    } else {
        let rest = q.drop_first();
        lemma_min_ready_idx(rest);
        let r = min_ready_idx(rest);
        assert forall|i: int| 1 <= i < q.len() implies #[trigger] q[i] == rest[i - 1] by {}
        if !is_ready(q[0]) {
            if r < 0 {
            } else {
                assert(q[r + 1] == rest[r]);
            }
        } else if r < 0 {
        } else if q[0].vruntime <= rest[r].vruntime {
        } else {
            assert(q[r + 1] == rest[r]);
        }
    }
}

/// If `b` is the earliest index holding the minimal virtual runtime among
/// `Ready` tasks, then [`min_ready_idx`] finds exactly `b`.
pub proof fn lemma_min_ready_idx_unique(q: Seq<TaskView>, b: int)
    requires
        0 <= b < q.len(),
        is_ready(q[b]),
        forall|i: int| 0 <= i < q.len() && is_ready(#[trigger] q[i]) ==> q[b].vruntime <= q[i].vruntime,
        forall|i: int| 0 <= i < b && is_ready(#[trigger] q[i]) ==> q[b].vruntime < q[i].vruntime,
    ensures
        min_ready_idx(q) == b,
{
    lemma_min_ready_idx(q);
}

/// What [`fifo_pick`] returns: -1 exactly when no `Ready` `Fifo` task
/// exists, and otherwise the first index of one.
pub proof fn lemma_fifo_pick_props(q: Seq<TaskView>)
    ensures
        fifo_pick(q) == -1 || fifo_pick(q) >= 0,
        fifo_pick(q) == -1 ==> (forall|i: int| 0 <= i < q.len() ==> !ready_fifo(#[trigger] q[i])),
        fifo_pick(q) >= 0 ==> {
            let f = fifo_pick(q);
            &&& 0 <= f < q.len()
            &&& ready_fifo(q[f])
            &&& forall|i: int| 0 <= i < f ==> !ready_fifo(#[trigger] q[i])
        },
{
    lemma_first_where(q, |t: TaskView| ready_fifo(t));
}

/// If `i` is the first index holding a `Ready` `Fifo` task, then
/// [`fifo_pick`] finds exactly `i`.
pub proof fn lemma_fifo_pick_unique(q: Seq<TaskView>, i: int)
    requires
        0 <= i < q.len(),
        ready_fifo(q[i]),
        forall|j: int| 0 <= j < i ==> !ready_fifo(#[trigger] q[j]),
    ensures
        fifo_pick(q) == i,
{
    lemma_first_where_unique(q, |t: TaskView| ready_fifo(t), i);
}

/// What [`named_pick`] returns: -1 exactly when no task bears the name,
/// and otherwise the first index of one that does.
pub proof fn lemma_named_pick_props(q: Seq<TaskView>, name: Seq<char>)
    ensures
        named_pick(q, name) == -1 || named_pick(q, name) >= 0,
        named_pick(q, name) == -1 ==> (forall|i: int| 0 <= i < q.len() ==> (#[trigger] q[i]).name != name),
        named_pick(q, name) >= 0 ==> {
            let f = named_pick(q, name);
            &&& 0 <= f < q.len()
            &&& q[f].name == name
            &&& forall|i: int| 0 <= i < f ==> (#[trigger] q[i]).name != name
        },
{
    lemma_first_where(q, |t: TaskView| t.name == name);
}

/// If `i` is the first index bearing the name, then [`named_pick`] finds
/// exactly `i`.
pub proof fn lemma_named_pick_unique(q: Seq<TaskView>, name: Seq<char>, i: int)
    requires
        0 <= i < q.len(),
        q[i].name == name,
        forall|j: int| 0 <= j < i ==> (#[trigger] q[j]).name != name,
    ensures
        named_pick(q, name) == i,
{
    lemma_first_where_unique(q, |t: TaskView| t.name == name, i);
}

// ---------------------------------------------------------------------
// Dispatch eligibility
// ---------------------------------------------------------------------

/// Some `Fifo` task of the real-time queue is `Ready` (a ready `Fifo`
/// task is eligible at any position).
pub open spec fn has_ready_fifo(q: Seq<TaskView>) -> bool {
    exists|i: int| 0 <= i < q.len() && ready_fifo(#[trigger] q[i])
}

/// The head of the real-time queue is a `Ready` `RoundRobin` task (a
/// `RoundRobin` task is a head candidate: it is eligible only at the
/// front of the queue).
pub open spec fn rr_head_ready(q: Seq<TaskView>) -> bool {
    q.len() > 0 && q[0].policy == Policy::RoundRobin && is_ready(q[0])
}

/// Some task of the fair queue is `Ready` (a ready `Fair` task is
/// eligible at any position).
pub open spec fn has_ready_fair(q: Seq<TaskView>) -> bool {
    exists|i: int| 0 <= i < q.len() && is_ready(#[trigger] q[i])
}

/// Some task is in a dispatch-eligible state, position taken into
/// account: a tick dispatches a task if and only if this holds of the
/// queues after sleep bookkeeping.
pub open spec fn has_eligible(rt: Seq<TaskView>, fair: Seq<TaskView>) -> bool {
    has_ready_fifo(rt) || rr_head_ready(rt) || has_ready_fair(fair)
}

/// [`fifo_pick`] finds an index exactly when a `Ready` `Fifo` task
/// exists.
pub proof fn lemma_fifo_pick_exists(q: Seq<TaskView>)
    ensures
        fifo_pick(q) >= 0 <==> has_ready_fifo(q),
        fifo_pick(q) == -1 || fifo_pick(q) >= 0,
{
    lemma_first_where(q, |t: TaskView| ready_fifo(t));
}

/// [`min_ready_idx`] finds an index exactly when a `Ready` task exists.
pub proof fn lemma_min_ready_exists(q: Seq<TaskView>)
    ensures
        min_ready_idx(q) >= 0 <==> has_ready_fair(q),
{
    lemma_min_ready_idx(q);
}

// ---------------------------------------------------------------------
// The scheduler state and its one-tick transition
// ---------------------------------------------------------------------

/// The mathematical value of a scheduler: the two queues as sequences of
/// task views, and the tick counter as an unbounded natural.
#[verifier::ext_equal]
pub struct SchedulerView {
    /// The real-time queue, holding `Fifo` and `RoundRobin` tasks.
    pub rt: Seq<TaskView>,
    /// The fair-share queue, holding `Fair` tasks.
    pub fair: Seq<TaskView>,
    /// Number of ticks performed so far.
    pub tick: nat,
}

/// A task admissible in the real-time queue: one of the two real-time
/// classes, and, for `RoundRobin`, a positive time slice (a zero slice
/// would make the expiry check meaningless and is rejected at
/// registration).
pub open spec fn rt_task_wf(t: TaskView) -> bool {
    &&& t.policy == Policy::Fifo || t.policy == Policy::RoundRobin
    &&& t.policy == Policy::RoundRobin ==> t.time_slice > 0
}

/// A task admissible in the fair queue.
pub open spec fn fair_task_wf(t: TaskView) -> bool {
    t.policy == Policy::Fair
}

/// Headroom left in one task's bounded counters for one more dispatch.
pub open spec fn task_headroom(t: TaskView) -> bool {
    &&& t.total_runtime + QUANTUM <= u64::MAX
    &&& t.cpu_usage + QUANTUM <= u64::MAX
    &&& t.vruntime + MAX_FAIR_DELTA <= u64::MAX
}

/// Headroom left in the machine integers for one more tick. This is a
/// machine limit, not a scheduling rule: the model itself is unbounded.
pub open spec fn tick_headroom(s: SchedulerView) -> bool {
    &&& s.tick + 1 <= u64::MAX
    &&& forall|i: int| 0 <= i < s.rt.len() ==> task_headroom(#[trigger] s.rt[i])
    &&& forall|i: int| 0 <= i < s.fair.len() ==> task_headroom(#[trigger] s.fair[i])
}

impl SchedulerView {
    /// Well-formedness: each queue holds only tasks of its classes.
    pub open spec fn wf(self) -> bool {
        &&& forall|i: int| 0 <= i < self.rt.len() ==> rt_task_wf(#[trigger] self.rt[i])
        &&& forall|i: int| 0 <= i < self.fair.len() ==> fair_task_wf(#[trigger] self.fair[i])
    }
}

/// One tick of the scheduler: sleep bookkeeping on every task of both
/// queues, then at most one dispatch, chosen in the strict class order
/// `Fifo`, then head-of-queue `RoundRobin`, then least-vruntime `Fair`.
/// Returns the successor state and the dispatched task, if any.
///
/// The strict order means a continuously ready real-time task starves
/// the fair queue; that is the modelled behaviour, kept deliberately.
pub open spec fn step(s: SchedulerView) -> (SchedulerView, Option<TaskView>) {
    let rt = wake_queue(s.rt);
    let fq = wake_queue(s.fair);
    let tk = (s.tick + 1) as nat;
    let fi = fifo_pick(rt);
    if fi >= 0 {
        // A dispatched Fifo task finishes and leaves the queue for good.
        (SchedulerView { rt: rt.remove(fi), fair: fq, tick: tk }, Some(run_fifo(rt[fi])))
    } else if rr_head_ready(rt) {
        // The head RoundRobin task runs and requeues at the tail,
        // whatever its new state.
        let t = run_rr(rt[0]);
        (SchedulerView { rt: rt.drop_first().push(t), fair: fq, tick: tk }, Some(t))
    } else {
        let mi = min_ready_idx(fq);
        if mi >= 0 {
            // The least-vruntime ready Fair task runs and requeues at
            // the tail.
            let t = run_fair(fq[mi]);
            (SchedulerView { rt, fair: fq.remove(mi).push(t), tick: tk }, Some(t))
        } else {
            // Idle tick: nothing is eligible.
            (SchedulerView { rt, fair: fq, tick: tk }, None)
        }
    }
}

} // verus!
