//! The scheduling laws, proved over the model's one-tick transition
//! [`step`].
//!
//! Each public proof function here states one guarantee of the
//! dispatcher for every reachable state, not just for chosen inputs:
//! exactly-once `Fifo` dispatch, quantum-aligned and non-decreasing
//! runtime accounting, nice-ordered virtual-runtime growth, exact sleep
//! countdowns, and idleness exactly in the absence of eligible tasks.

use vstd::prelude::*;

use crate::model::{
    fair_delta, fair_task_wf, fifo_pick, has_eligible, is_ready,
    lemma_fifo_pick_exists, lemma_fifo_pick_props, lemma_min_ready_exists, lemma_min_ready_idx,
    lemma_weight_antitone, lemma_weight_bounds, min_ready_idx, ready_fifo, rr_head_ready,
    run_fair, run_fifo, run_rr, step, wake_queue, wake_task, SchedulerView, QUANTUM,
    RR_SLEEP_TICKS,
};
use crate::task::{Policy, TaskState, TaskView};

verus! {

// ---------------------------------------------------------------------
// Iterated transitions
// ---------------------------------------------------------------------

/// The scheduler state after `n` ticks of the model.
pub open spec fn steps(s: SchedulerView, n: nat) -> SchedulerView
    decreases n,
{
    if n == 0 {
        s
    } else {
        step(steps(s, (n - 1) as nat)).0
    }
}

/// The task dispatched by tick number `n` (0-based) of the run starting
/// at `s`.
pub open spec fn dispatched_at(s: SchedulerView, n: nat) -> Option<TaskView> {
    step(steps(s, n)).1
}

/// One task after `k` consecutive dispatches as a `Fair` task.
pub open spec fn run_fair_iter(t: TaskView, k: nat) -> TaskView
    decreases k,
{
    if k == 0 {
        t
    } else {
        run_fair(run_fair_iter(t, (k - 1) as nat))
    }
}

/// One task after `k` ticks of sleep bookkeeping.
pub open spec fn wake_iter(t: TaskView, k: nat) -> TaskView
    decreases k,
{
    if k == 0 {
        t
    } else {
        wake_task(wake_iter(t, (k - 1) as nat))
    }
}

/// Running `n` ticks from `s` and then looking onward is the same as
/// looking onward from the successor of `s`.
proof fn lemma_steps_shift(s: SchedulerView, n: nat)
    ensures
        steps(s, n + 1) == steps(step(s).0, n),
    decreases n,
{
    if n == 0 {
        assert(steps(s, 1) == step(steps(s, 0)).0);
        assert(steps(s, 0) == s);
        assert(steps(step(s).0, 0) == step(s).0);
    } else {
        lemma_steps_shift(s, (n - 1) as nat);
        assert(steps(s, n + 1) == step(steps(s, n)).0);
        assert(steps(step(s).0, n) == step(steps(step(s).0, (n - 1) as nat)).0);
    }
}

/// The same shift for per-task sleep bookkeeping.
proof fn lemma_wake_iter_shift(t: TaskView, k: nat)
    ensures
        wake_iter(t, k + 1) == wake_iter(wake_task(t), k),
    decreases k,
{
    if k == 0 {
        assert(wake_iter(t, 1) == wake_task(wake_iter(t, 0)));
        assert(wake_iter(t, 0) == t);
        assert(wake_iter(wake_task(t), 0) == wake_task(t));
    } else {
        lemma_wake_iter_shift(t, (k - 1) as nat);
        assert(wake_iter(t, k + 1) == wake_task(wake_iter(t, k)));
        assert(wake_iter(wake_task(t), k) == wake_task(wake_iter(wake_task(t), (k - 1) as nat)));
    }
}

// ---------------------------------------------------------------------
// Idleness (dispatch happens exactly when something is eligible)
// ---------------------------------------------------------------------

/// A tick is idle if and only if, once its sleep timers have advanced,
/// no task across both queues is in a dispatch-eligible state (a ready
/// `Fifo` or `Fair` task anywhere, or a ready `RoundRobin` task at the
/// head of the real-time queue).
pub proof fn lemma_idle_iff_no_eligible(s: SchedulerView)
    ensures
        step(s).1 is None <==> !has_eligible(wake_queue(s.rt), wake_queue(s.fair)),
{
    lemma_fifo_pick_exists(wake_queue(s.rt));
    lemma_min_ready_exists(wake_queue(s.fair));
}

// ---------------------------------------------------------------------
// Fifo dispatch: exactly once
// ---------------------------------------------------------------------

/// Number of `Fifo`-class tasks in a queue.
pub open spec fn fifo_count(q: Seq<TaskView>) -> nat
    decreases q.len(),
{
    if q.len() == 0 {
        0
    } else {
        (if q[0].policy == Policy::Fifo {
            1nat
        } else {
            0nat
        }) + fifo_count(q.drop_first())
    }
}

/// Queues of pointwise equal policies hold equally many `Fifo` tasks.
proof fn lemma_fifo_count_pointwise(q1: Seq<TaskView>, q2: Seq<TaskView>)
    requires
        q1.len() == q2.len(),
        forall|i: int| 0 <= i < q1.len() ==> (#[trigger] q1[i]).policy == q2[i].policy,
    ensures
        fifo_count(q1) == fifo_count(q2),
    decreases q1.len(),
{
    if q1.len() > 0 {
        assert forall|i: int|
            0 <= i < q1.drop_first().len() implies (#[trigger] q1.drop_first()[i]).policy
            == q2.drop_first()[i].policy by {
            assert(q1.drop_first()[i] == q1[i + 1]);
            assert(q2.drop_first()[i] == q2[i + 1]);
        }
        lemma_fifo_count_pointwise(q1.drop_first(), q2.drop_first());
    }
}

/// Removing a task removes its own contribution to the `Fifo` count.
proof fn lemma_fifo_count_remove(q: Seq<TaskView>, i: int)
    requires
        0 <= i < q.len(),
    ensures
        fifo_count(q.remove(i)) + (if q[i].policy == Policy::Fifo {
            1nat
        } else {
            0nat
        }) == fifo_count(q),
    decreases i,
{
    q.remove_ensures(i);
    if i == 0 {
        assert(q.remove(0) =~= q.drop_first());
    } else {
        assert(q.remove(i)[0] == q[0]);
        assert(q.remove(i).drop_first() =~= q.drop_first().remove(i - 1)) by {
            q.drop_first().remove_ensures(i - 1);
            assert forall|k: int|
                0 <= k < q.len() - 2 implies q.remove(i).drop_first()[k] == q.drop_first().remove(
                i - 1,
            )[k] by {
                assert(q.remove(i).drop_first()[k] == q.remove(i)[k + 1]);
            }
        }
        assert(q.drop_first()[i - 1] == q[i]);
        lemma_fifo_count_remove(q.drop_first(), i - 1);
    }
}

/// Appending a task adds its own contribution to the `Fifo` count.
proof fn lemma_fifo_count_push(q: Seq<TaskView>, t: TaskView)
    ensures
        fifo_count(q.push(t)) == fifo_count(q) + (if t.policy == Policy::Fifo {
            1nat
        } else {
            0nat
        }),
    decreases q.len(),
{
    assert(q.push(t).len() == q.len() + 1);
    assert(fifo_count(q.push(t)) == (if q.push(t)[0].policy == Policy::Fifo {
        1nat
    } else {
        0nat
    }) + fifo_count(q.push(t).drop_first()));
    if q.len() == 0 {
        assert(q.push(t)[0] == t);
        assert(q.push(t).drop_first() =~= Seq::<TaskView>::empty());
        assert(fifo_count(Seq::<TaskView>::empty()) == 0);
    } else {
        assert(q.push(t)[0] == q[0]);
        assert(q.push(t).drop_first() =~= q.drop_first().push(t)) by {
            assert forall|k: int|
                0 <= k < q.len() implies q.push(t).drop_first()[k] == q.drop_first().push(t)[k] by {
                assert(q.push(t).drop_first()[k] == q.push(t)[k + 1]);
                if k + 1 < q.len() {
                    assert(q.push(t)[k + 1] == q[k + 1]);
                } else {
                    assert(q.push(t)[k + 1] == t);
                }
            }
        }
        lemma_fifo_count_push(q.drop_first(), t);
    }
}

/// A `Fifo` task is dispatched at most once. The number of `Fifo` tasks
/// a scheduler holds never grows under a tick; it shrinks by exactly
/// one when a `Fifo` task is dispatched — that task leaves the queue
/// `Finished` and for good — and stays unchanged otherwise.
pub proof fn lemma_fifo_at_most_once(s: SchedulerView)
    requires
        s.wf(),
    ensures
        fifo_count(step(s).0.rt) <= fifo_count(s.rt),
        (step(s).1 matches Some(t) ==> {
            &&& t.policy == Policy::Fifo ==> fifo_count(step(s).0.rt) + 1 == fifo_count(s.rt)
                && t.state == TaskState::Finished
            &&& t.policy != Policy::Fifo ==> fifo_count(step(s).0.rt) == fifo_count(s.rt)
        }),
        step(s).1 is None ==> fifo_count(step(s).0.rt) == fifo_count(s.rt),
{
    let rt = wake_queue(s.rt);
    let fq = wake_queue(s.fair);
    assert forall|i: int|
        0 <= i < s.rt.len() implies (#[trigger] rt[i]).policy == s.rt[i].policy by {
        assert(rt[i] == wake_task(s.rt[i]));
    }
    assert forall|i: int| 0 <= i < rt.len() implies (#[trigger] s.rt[i]).policy == rt[i].policy by {
        assert(rt[i] == wake_task(s.rt[i]));
    }
    lemma_fifo_count_pointwise(s.rt, rt);
    lemma_fifo_pick_props(rt);
    let f = fifo_pick(rt);
    if f >= 0 {
        lemma_fifo_count_remove(rt, f);
    } else if rr_head_ready(rt) {
        lemma_fifo_count_remove(rt, 0);
        assert(rt.remove(0) =~= rt.drop_first());
        lemma_fifo_count_push(rt.drop_first(), run_rr(rt[0]));
    } else {
        let m = min_ready_idx(fq);
        if m >= 0 {
            lemma_min_ready_idx(fq);
            assert(fq[m] == wake_task(s.fair[m]));
            assert(fair_task_wf(s.fair[m]));
            assert(run_fair(fq[m]).policy == Policy::Fair);
        }
    }
}

/// A `Fifo` task that is ready once a tick's timers have advanced is
/// dispatched, exactly as its finished run, within its queue position
/// plus one ticks: the real-time `Fifo` class cannot be deferred by the
/// other classes, and only tasks ahead of it can be picked before it.
pub proof fn lemma_fifo_dispatched_eventually(s: SchedulerView, j: int)
    requires
        0 <= j < wake_queue(s.rt).len(),
        ready_fifo(wake_queue(s.rt)[j]),
    ensures
        exists|m: nat| m <= j && dispatched_at(s, m) == Some(run_fifo(wake_queue(s.rt)[j])),
    decreases j,
{
    let rt = wake_queue(s.rt);
    lemma_fifo_pick_props(rt);
    let f = fifo_pick(rt);
    assert(f >= 0) by {
        lemma_fifo_pick_exists(rt);
    }
    assert(f <= j);
    if f == j {
        assert(dispatched_at(s, 0) == Some(run_fifo(rt[j])));
        assert(0nat <= j && dispatched_at(s, 0nat) == Some(run_fifo(rt[j])));
    } else {
        let s1 = step(s).0;
        rt.remove_ensures(f);
        assert(s1.rt[j - 1] == rt[j]);
        assert(wake_task(rt[j]) == rt[j]);
        assert(wake_queue(s1.rt)[j - 1] == rt[j]);
        lemma_fifo_dispatched_eventually(s1, j - 1);
        let m0 = choose|m: nat|
            m <= j - 1 && dispatched_at(s1, m) == Some(run_fifo(wake_queue(s1.rt)[j - 1]));
        lemma_steps_shift(s, m0);
        assert(dispatched_at(s, m0 + 1) == dispatched_at(s1, m0));
        assert(m0 + 1 <= j && dispatched_at(s, (m0 + 1) as nat) == Some(run_fifo(rt[j])));
    }
}

// ---------------------------------------------------------------------
// Runtime accounting
// ---------------------------------------------------------------------

/// All runtime counters of a queue are multiples of the quantum.
pub open spec fn runtime_aligned(q: Seq<TaskView>) -> bool {
    forall|i: int|
        0 <= i < q.len() ==> (#[trigger] q[i]).total_runtime % (QUANTUM as nat) == 0
}

/// A tick keeps every total runtime a multiple of the quantum: waking
/// does not touch the counters and a dispatch charges exactly one
/// quantum. Every task starts at zero runtime, so all reachable
/// counters are such multiples, the dispatched task's included.
pub proof fn lemma_step_keeps_alignment(s: SchedulerView)
    requires
        runtime_aligned(s.rt),
        runtime_aligned(s.fair),
    ensures
        runtime_aligned(step(s).0.rt),
        runtime_aligned(step(s).0.fair),
        (step(s).1 matches Some(t) ==> t.total_runtime % (QUANTUM as nat) == 0),
{
    let rt = wake_queue(s.rt);
    let fq = wake_queue(s.fair);
    assert forall|i: int|
        0 <= i < rt.len() implies (#[trigger] rt[i]).total_runtime % (QUANTUM as nat) == 0 by {
        assert(rt[i] == wake_task(s.rt[i]));
        assert(s.rt[i].total_runtime % (QUANTUM as nat) == 0);
    }
    assert forall|i: int|
        0 <= i < fq.len() implies (#[trigger] fq[i]).total_runtime % (QUANTUM as nat) == 0 by {
        assert(fq[i] == wake_task(s.fair[i]));
        assert(s.fair[i].total_runtime % (QUANTUM as nat) == 0);
    }
    assert forall|t: TaskView|
        t.total_runtime % (QUANTUM as nat) == 0 implies ((t.total_runtime + QUANTUM) as nat) % (
        QUANTUM as nat) == 0 by {
        vstd::arithmetic::div_mod::lemma_mod_add_multiples_vanish(
            t.total_runtime as int,
            QUANTUM as int,
        );
    }
    lemma_fifo_pick_props(rt);
    let f = fifo_pick(rt);
    if f >= 0 {
        rt.remove_ensures(f);
        assert forall|k: int|
            0 <= k < step(s).0.rt.len() implies (#[trigger] step(s).0.rt[k]).total_runtime % (QUANTUM as nat) == 0 by {
            if k < f {
                assert(step(s).0.rt[k] == rt[k]);
            } else {
                assert(step(s).0.rt[k] == rt[k + 1]);
            }
        }
    } else if rr_head_ready(rt) {
        rt.remove_ensures(0);
        assert(rt.remove(0) =~= rt.drop_first());
        assert forall|k: int|
            0 <= k < step(s).0.rt.len() implies (#[trigger] step(s).0.rt[k]).total_runtime % (QUANTUM as nat) == 0 by {
            if k < rt.len() - 1 {
                assert(step(s).0.rt[k] == rt[k + 1]);
            } else {
                assert(step(s).0.rt[k] == run_rr(rt[0]));
            }
        }
    } else {
        let m = min_ready_idx(fq);
        if m >= 0 {
            lemma_min_ready_idx(fq);
            fq.remove_ensures(m);
            assert forall|k: int|
                0 <= k < step(s).0.fair.len() implies (#[trigger] step(s).0.fair[k]).total_runtime % (
            QUANTUM as nat) == 0 by {
                if k < m {
                    assert(step(s).0.fair[k] == fq[k]);
                } else if k < fq.len() - 1 {
                    assert(step(s).0.fair[k] == fq[k + 1]);
                } else {
                    assert(step(s).0.fair[k] == run_fair(fq[m]));
                }
            }
        }
    }
}

/// Task `b` carries the same identity and configuration as task `a`,
/// with every bookkeeping counter at least as large.
pub open spec fn counters_le(a: TaskView, b: TaskView) -> bool {
    &&& b.name == a.name
    &&& b.policy == a.policy
    &&& b.nice == a.nice
    &&& b.time_slice == a.time_slice
    &&& b.priority == a.priority
    &&& b.deadline == a.deadline
    &&& a.total_runtime <= b.total_runtime
    &&& a.cpu_usage <= b.cpu_usage
    &&& a.vruntime <= b.vruntime
}

/// No tick lowers any counter or changes any task's identity, policy
/// or configuration: every task of the successor state descends from a
/// task of the current state with `total_runtime`, `cpu_usage` and
/// `vruntime` non-decreasing — waking keeps the counters, a dispatch
/// only grows them.
pub proof fn lemma_counters_never_decrease(s: SchedulerView)
    ensures
        forall|k: int|
            0 <= k < step(s).0.rt.len() ==> exists|i: int|
                0 <= i < s.rt.len() && counters_le(s.rt[i], #[trigger] step(s).0.rt[k]),
        forall|k: int|
            0 <= k < step(s).0.fair.len() ==> exists|i: int|
                0 <= i < s.fair.len() && counters_le(s.fair[i], #[trigger] step(s).0.fair[k]),
{
    let rt = wake_queue(s.rt);
    let fq = wake_queue(s.fair);
    assert forall|i: int|
        0 <= i < s.rt.len() implies counters_le(s.rt[i], #[trigger] rt[i]) by {
        assert(rt[i] == wake_task(s.rt[i]));
    }
    assert forall|i: int|
        0 <= i < s.fair.len() implies counters_le(s.fair[i], #[trigger] fq[i]) by {
        assert(fq[i] == wake_task(s.fair[i]));
    }
    lemma_fifo_pick_props(rt);
    let f = fifo_pick(rt);
    if f >= 0 {
        rt.remove_ensures(f);
        assert forall|k: int|
            0 <= k < step(s).0.rt.len() implies exists|i: int|
                0 <= i < s.rt.len() && counters_le(s.rt[i], #[trigger] step(s).0.rt[k]) by {
            if k < f {
                assert(step(s).0.rt[k] == rt[k]);
                assert(0 <= k < s.rt.len() && counters_le(s.rt[k], step(s).0.rt[k]));
            } else {
                assert(step(s).0.rt[k] == rt[k + 1]);
                assert(0 <= k + 1 < s.rt.len() && counters_le(s.rt[k + 1], step(s).0.rt[k]));
            }
        }
    } else if rr_head_ready(rt) {
        rt.remove_ensures(0);
        assert(rt.remove(0) =~= rt.drop_first());
        assert forall|k: int|
            0 <= k < step(s).0.rt.len() implies exists|i: int|
                0 <= i < s.rt.len() && counters_le(s.rt[i], #[trigger] step(s).0.rt[k]) by {
            if k < rt.len() - 1 {
                assert(step(s).0.rt[k] == rt[k + 1]);
                assert(0 <= k + 1 < s.rt.len() && counters_le(s.rt[k + 1], step(s).0.rt[k]));
            } else {
                assert(step(s).0.rt[k] == run_rr(rt[0]));
                assert(counters_le(rt[0], run_rr(rt[0])));
                assert(0 <= 0 < s.rt.len() && counters_le(s.rt[0], step(s).0.rt[k]));
            }
        }
    } else {
        let m = min_ready_idx(fq);
        if m >= 0 {
            lemma_min_ready_idx(fq);
            fq.remove_ensures(m);
            assert forall|k: int|
                0 <= k < step(s).0.fair.len() implies exists|i: int|
                    0 <= i < s.fair.len() && counters_le(s.fair[i], #[trigger] step(s).0.fair[k]) by {
                if k < m {
                    assert(step(s).0.fair[k] == fq[k]);
                    assert(0 <= k < s.fair.len() && counters_le(s.fair[k], step(s).0.fair[k]));
                } else if k < fq.len() - 1 {
                    assert(step(s).0.fair[k] == fq[k + 1]);
                    assert(0 <= k + 1 < s.fair.len() && counters_le(
                        s.fair[k + 1],
                        step(s).0.fair[k],
                    ));
                } else {
                    assert(step(s).0.fair[k] == run_fair(fq[m]));
                    assert(counters_le(fq[m], run_fair(fq[m])));
                    assert(0 <= m < s.fair.len() && counters_le(s.fair[m], step(s).0.fair[k]));
                }
            }
        }
    }
}

/// What one `RoundRobin` dispatch does, whenever the head of the woken
/// real-time queue is a ready `RoundRobin` task and no `Fifo` task
/// pre-empts it: the task is charged exactly one quantum, goes to
/// `Sleeping(RR_SLEEP_TICKS)` precisely when its new total runtime is
/// an exact multiple of its time slice (staying `Ready` otherwise), and
/// requeues at the tail.
pub proof fn lemma_rr_dispatch(s: SchedulerView)
    ensures
        ({
            let rt = wake_queue(s.rt);
            (fifo_pick(rt) == -1 && rr_head_ready(rt)) ==> {
                let t = run_rr(rt[0]);
                &&& step(s).1 == Some(t)
                &&& t.total_runtime == rt[0].total_runtime + QUANTUM
                &&& t.cpu_usage == rt[0].cpu_usage + QUANTUM
                &&& (t.state == TaskState::Sleeping(RR_SLEEP_TICKS) <==> t.total_runtime % (
                rt[0].time_slice) == 0)
                &&& (t.state == TaskState::Sleeping(RR_SLEEP_TICKS) || t.state
                    == TaskState::Ready)
                &&& step(s).0.rt == rt.drop_first().push(t)
            }
        }),
{
}

// ---------------------------------------------------------------------
// Fair share
// ---------------------------------------------------------------------

/// What one `Fair` dispatch does, whenever neither real-time class is
/// eligible and some fair task is ready: the dispatched task is a ready
/// task of minimal virtual runtime, its virtual runtime grows by
/// exactly its nice-determined increment (hence never decreases), it is
/// charged one quantum, and it returns to `Ready` at the tail.
pub proof fn lemma_fair_dispatch(s: SchedulerView)
    ensures
        ({
            let rt = wake_queue(s.rt);
            let fq = wake_queue(s.fair);
            (fifo_pick(rt) == -1 && !rr_head_ready(rt) && min_ready_idx(fq) >= 0) ==> {
                let m = min_ready_idx(fq);
                let t = run_fair(fq[m]);
                &&& step(s).1 == Some(t)
                &&& is_ready(fq[m])
                &&& forall|i: int|
                    0 <= i < fq.len() && is_ready(#[trigger] fq[i]) ==> fq[m].vruntime
                        <= fq[i].vruntime
                &&& t.vruntime == fq[m].vruntime + fair_delta(fq[m].nice)
                &&& t.vruntime >= fq[m].vruntime
                &&& t.total_runtime == fq[m].total_runtime + QUANTUM
                &&& t.state == TaskState::Ready
                &&& step(s).0.fair == fq.remove(m).push(t)
            }
        }),
{
    lemma_min_ready_idx(wake_queue(s.fair));
}

/// A lower (more negative) nice value never makes the per-dispatch
/// virtual-runtime increment larger.
pub proof fn lemma_fair_delta_monotone(n1: i8, n2: i8)
    requires
        n1 <= n2,
    ensures
        fair_delta(n1) <= fair_delta(n2),
{
    lemma_weight_antitone(n1, n2);
    lemma_weight_bounds(n1);
    lemma_weight_bounds(n2);
    let w1 = weight_of_int(n1);
    let w2 = weight_of_int(n2);
    assert(1024int / w1 <= 1024int / w2) by {
        vstd::arithmetic::div_mod::lemma_div_is_ordered_by_denominator(1024int, w2, w1);
    };
}

/// The weight as an `int`, for arithmetic convenience.
spec fn weight_of_int(nice: i8) -> int {
    crate::model::weight_of(nice) as int
}

/// `k` dispatches of a `Fair` task grow its virtual runtime by exactly
/// `k` times its per-dispatch increment, and leave its nice unchanged.
pub proof fn lemma_fair_accumulation(t: TaskView, k: nat)
    ensures
        run_fair_iter(t, k).vruntime == t.vruntime + k * fair_delta(t.nice),
        run_fair_iter(t, k).nice == t.nice,
    decreases k,
{
    if k > 0 {
        lemma_fair_accumulation(t, (k - 1) as nat);
        assert((k - 1) * fair_delta(t.nice) + fair_delta(t.nice) == k * fair_delta(t.nice))
            by (nonlinear_arith);
    }
}

/// Two `Fair` tasks starting from equal virtual runtimes and dispatched
/// equally often: the one with the lower nice accumulates no more
/// virtual runtime than the other.
pub proof fn lemma_fair_rate_comparison(t1: TaskView, t2: TaskView, k: nat)
    requires
        t1.nice <= t2.nice,
        t1.vruntime == t2.vruntime,
    ensures
        run_fair_iter(t1, k).vruntime <= run_fair_iter(t2, k).vruntime,
{
    lemma_fair_accumulation(t1, k);
    lemma_fair_accumulation(t2, k);
    lemma_fair_delta_monotone(t1.nice, t2.nice);
    vstd::arithmetic::mul::lemma_mul_inequality(
        fair_delta(t1.nice) as int,
        fair_delta(t2.nice) as int,
        k as int,
    );
    assert(k * fair_delta(t1.nice) == fair_delta(t1.nice) * k) by (nonlinear_arith);
    assert(k * fair_delta(t2.nice) == fair_delta(t2.nice) * k) by (nonlinear_arith);
}

// ---------------------------------------------------------------------
// Sleep countdown
// ---------------------------------------------------------------------

/// A task that enters `Sleeping(n)` (`n >= 1`) is still sleeping, with
/// an exact countdown, at each of the next `n - 1` ticks of sleep
/// bookkeeping, and wakes to `Ready` at tick `n` exactly — neither
/// `n - 1` nor `n + 1`.
pub proof fn lemma_sleep_countdown(t: TaskView, n: u32)
    requires
        t.state == TaskState::Sleeping(n),
        n >= 1,
    ensures
        forall|k: nat|
            k < n ==> (#[trigger] wake_iter(t, k)).state == TaskState::Sleeping((n - k) as u32),
        wake_iter(t, n as nat).state == TaskState::Ready,
    decreases n,
{
    let t1 = wake_task(t);
    if n == 1 {
        assert(wake_iter(t, 0) == t);
        assert(wake_iter(t, 1) == t1);
    } else {
        assert(t1.state == TaskState::Sleeping((n - 1) as u32));
        lemma_sleep_countdown(t1, (n - 1) as u32);
        assert forall|k: nat|
            k < n implies (#[trigger] wake_iter(t, k)).state == TaskState::Sleeping(
            (n - k) as u32,
        ) by {
            if k == 0 {
                assert(wake_iter(t, 0) == t);
            } else {
                lemma_wake_iter_shift(t, (k - 1) as nat);
                assert(wake_iter(t, k) == wake_iter(t1, (k - 1) as nat));
            }
        }
        lemma_wake_iter_shift(t, (n - 1) as nat);
        assert(wake_iter(t, n as nat) == wake_iter(t1, (n - 1) as nat));
    }
}

/// The boundary case: a task in `Sleeping(0)` wakes on the very next
/// tick, like one in `Sleeping(1)`; the countdown never goes negative.
pub proof fn lemma_sleep_zero_wakes(t: TaskView)
    ensures
        t.state == TaskState::Sleeping(0) ==> wake_task(t).state == TaskState::Ready,
{
}

} // verus!
