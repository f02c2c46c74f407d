//! Scheduler bookkeeping: timer-driven reschedule requests, IRQ preemption
//! telemetry and the round-robin choice between context tasks.
//!
//! The context switch itself (saving and restoring registers) happens outside
//! this module: the functions here decide which task runs next and return the
//! pair of task indices to switch between.

use vstd::prelude::*;
use std::collections::VecDeque;

verus! {

/// Number of timer ticks per scheduling quantum.
pub const SCHED_QUANTUM_TICKS: u64 = 5;
pub const FAIRNESS_CHECK_INTERVAL_TICKS: u64 = 10;
/// Ticks without a context switch after which the context-lab watchdog trips.
pub const CONTEXT_LAB_MAX_STALL_TICKS: u64 = 10_000;
/// Spins without timer progress after which a context task yields on its own.
pub const CONTEXT_LAB_TIMER_STALL_SPIN_THRESHOLD: u64 = 20_000;
/// A context-lab task reports its counters every this many iterations.
pub const CONTEXT_LAB_LOG_INTERVAL: u64 = 50_000;

/// Per-task performance metrics for preemptive scheduling.
#[derive(Debug, Clone, Copy, PartialEq, Eq, Structural)]
pub struct TaskMetrics {
    /// Context switches of the task (times preempted or voluntarily yielded).
    pub switches: u64,
    /// CPU time accounted in scheduler ticks.
    pub cpu_ticks: u64,
    /// Tick at which the task was created.
    pub created_tick: u64,
    /// Preemption attempts on the task from IRQ context.
    pub preemption_attempts: u64,
    /// Successful preemptions of the task.
    pub preemption_successes: u64,
}

impl Default for TaskMetrics {
    fn default() -> (r: Self)
        ensures
            r == (TaskMetrics {
                switches: 0,
                cpu_ticks: 0,
                created_tick: 0,
                preemption_attempts: 0,
                preemption_successes: 0,
            }),
    {
        TaskMetrics { switches: 0, cpu_ticks: 0, created_tick: 0, preemption_attempts: 0, preemption_successes: 0 }
    }
}

pub open spec fn sat_add(a: u64, b: u64) -> u64 {
    if a + b > u64::MAX {
        u64::MAX
    } else {
        (a + b) as u64
    }
}

pub open spec fn sat_sub(a: u64, b: u64) -> u64 {
    if a < b {
        0
    } else {
        (a - b) as u64
    }
}

pub open spec fn wrap_inc(x: u64) -> u64 {
    if x == u64::MAX {
        0
    } else {
        (x + 1) as u64
    }
}

#[derive(Debug, Clone, Copy)]
struct ContextTask {
    name: &'static str,
    metrics: TaskMetrics,
}

/// The effect of one round-robin step on the ready queue and the current task:
/// the new queue, the new current task and the pair switched between, if any.
pub open spec fn rotate(queue: Seq<usize>, current: Option<usize>, n: nat) -> (
    Seq<usize>,
    Option<usize>,
    Option<(usize, usize)>,
) {
    if n < 2 {
        (queue, current, None)
    } else {
        let (q1, c1) = if current is None {
            if queue.len() > 0 {
                (queue.drop_first(), Some(queue[0]))
            } else {
                (queue, current)
            }
        } else {
            (queue, current)
        };
        match c1 {
            None => (q1, c1, None),
            Some(c) => if q1.len() == 0 {
                (q1, c1, None)
            } else {
                (q1.drop_first().push(c), Some(q1[0]), Some((c, q1[0])))
            },
        }
    }
}

/// Each of the `n` tasks is either current or waits in the queue, exactly once.
pub open spec fn queue_complete(queue: Seq<usize>, current: Option<usize>, n: nat) -> bool {
    &&& queue.len() + (if current is Some { 1int } else { 0int }) == n
    &&& forall|i: int| 0 <= i < queue.len() ==> #[trigger] queue[i] < n
    &&& forall|i: int, j: int| 0 <= i < j < queue.len() ==> #[trigger] queue[i] != #[trigger] queue[j]
    &&& current matches Some(c) ==> c < n && !queue.contains(c)
}

/// Round-robin scheduler over context tasks.
pub struct ContextScheduler {
    tasks: Vec<ContextTask>,
    ready_queue: VecDeque<usize>,
    current: Option<usize>,
    switches: u64,
    switch_enabled: bool,
    last_switch_tick: u64,
}

impl ContextScheduler {
    pub closed spec fn names(&self) -> Seq<&'static str> {
        self.tasks@.map_values(|t: ContextTask| t.name)
    }

    pub closed spec fn metrics(&self) -> Seq<TaskMetrics> {
        self.tasks@.map_values(|t: ContextTask| t.metrics)
    }

    pub closed spec fn queue(&self) -> Seq<usize> {
        self.ready_queue@
    }

    pub closed spec fn current(&self) -> Option<usize> {
        self.current
    }

    pub closed spec fn switch_count(&self) -> u64 {
        self.switches
    }

    pub closed spec fn switching_enabled(&self) -> bool {
        self.switch_enabled
    }

    pub closed spec fn last_switch(&self) -> u64 {
        self.last_switch_tick
    }

    pub closed spec fn wf(&self) -> bool {
        queue_complete(self.ready_queue@, self.current, self.tasks@.len())
    }

    pub fn new() -> (r: Self)
        ensures
            r.wf(),
            r.names() == Seq::<&'static str>::empty(),
            r.queue() == Seq::<usize>::empty(),
            r.current() is None,
            r.switch_count() == 0,
            !r.switching_enabled(),
            r.last_switch() == 0,
    {
        let r = ContextScheduler {
            tasks: Vec::new(),
            ready_queue: VecDeque::new(),
            current: None,
            switches: 0,
            switch_enabled: false,
            last_switch_tick: 0,
        };
        assert(r.names() =~= Seq::<&'static str>::empty());
        r
    }

    /// Adds a task created at `now_tick` and queues it; returns its index.
    pub fn spawn(&mut self, name: &'static str, now_tick: u64) -> (r: usize)
        requires
            old(self).wf(),
            old(self).names().len() < usize::MAX,
        ensures
            final(self).wf(),
            r == old(self).names().len(),
            final(self).names() == old(self).names().push(name),
            final(self).metrics() == old(self).metrics().push(
                TaskMetrics {
                    switches: 0,
                    cpu_ticks: 0,
                    created_tick: now_tick,
                    preemption_attempts: 0,
                    preemption_successes: 0,
                },
            ),
            final(self).queue() == old(self).queue().push(r),
            final(self).current() == old(self).current(),
            final(self).switch_count() == old(self).switch_count(),
            final(self).switching_enabled() == old(self).switching_enabled(),
            final(self).last_switch() == old(self).last_switch(),
    {
        let id = self.tasks.len();
        let metrics = TaskMetrics {
            switches: 0,
            cpu_ticks: 0,
            created_tick: now_tick,
            preemption_attempts: 0,
            preemption_successes: 0,
        };
        self.tasks.push(ContextTask { name, metrics });
        self.ready_queue.push_back(id);
        assert(self.names() =~= old(self).names().push(name));
        assert(self.metrics() =~= old(self).metrics().push(metrics));
        proof {
            let q = self.ready_queue@;
            assert forall|i: int, j: int| 0 <= i < j < q.len() implies #[trigger] q[i] != #[trigger] q[j] by {
                if j == q.len() - 1 {
                    assert(q[i] == old(self).ready_queue@[i]);
                }
            }
            if let Some(c) = self.current {
                assert forall|i: int| 0 <= i < q.len() implies q[i] != c by {
                    if i < q.len() - 1 {
                        assert(q[i] == old(self).ready_queue@[i]);
                    }
                }
            }
        }
        id
    }

    fn pop_front(&mut self) -> (r: Option<usize>)
        ensures
            old(self).ready_queue@.len() == 0 ==> r is None && *final(self) == *old(self),
            old(self).ready_queue@.len() > 0 ==> r == Some(old(self).ready_queue@[0])
                && final(self).ready_queue@ == old(self).ready_queue@.drop_first() && final(self).tasks
                == old(self).tasks && final(self).current == old(self).current && final(self).switches
                == old(self).switches && final(self).switch_enabled == old(self).switch_enabled
                && final(self).last_switch_tick == old(self).last_switch_tick,
    {
        if self.ready_queue.len() == 0 {
            None
        } else {
            let x = self.ready_queue.pop_front();
            assert(self.ready_queue@ =~= old(self).ready_queue@.drop_first());
            x
        }
    }

    /// One round-robin step: the current task goes to the back of the queue and the
    /// front of the queue becomes current.
    fn next_pair(&mut self) -> (r: Option<(usize, usize)>)
        requires
            old(self).wf(),
        ensures
            final(self).wf(),
            (final(self).ready_queue@, final(self).current, r) == rotate(
                old(self).ready_queue@,
                old(self).current,
                old(self).tasks@.len(),
            ),
            final(self).tasks == old(self).tasks,
            final(self).switches == old(self).switches,
            final(self).switch_enabled == old(self).switch_enabled,
            final(self).last_switch_tick == old(self).last_switch_tick,
    {
        if self.tasks.len() < 2 {
            return None;
        }
        if self.current.is_none() {
            self.current = self.pop_front();
        }
        let current = match self.current {
            Some(c) => c,
            None => return None,
        };
        let next = match self.pop_front() {
            Some(n) => n,
            None => return None,
        };
        let ghost q1 = self.ready_queue@;
        self.ready_queue.push_back(current);
        self.current = Some(next);
        proof {
            let q = self.ready_queue@;
            let q0 = old(self).ready_queue@;
            assert(q1.len() + 1 == q0.len() + (if old(self).current is Some { 1int } else { 0int }) - 1);
            assert forall|i: int| 0 <= i < q.len() implies #[trigger] q[i] < self.tasks@.len() by {
                if i < q.len() - 1 {
                    if old(self).current is None {
                        assert(q[i] == q0[i + 2]);
                    } else {
                        assert(q[i] == q0[i + 1]);
                    }
                }
            }
            assert forall|i: int, j: int| 0 <= i < j < q.len() implies #[trigger] q[i] != #[trigger] q[j] by {
                if old(self).current is None {
                    if j == q.len() - 1 {
                        assert(q[i] == q0[i + 2]);
                        assert(current == q0[0]);
                    } else {
                        assert(q[i] == q0[i + 2] && q[j] == q0[j + 2]);
                    }
                } else {
                    if j == q.len() - 1 {
                        assert(q[i] == q0[i + 1]);
                        assert(!q0.contains(current));
                        assert(q0[i + 1] != current);
                    } else {
                        assert(q[i] == q0[i + 1] && q[j] == q0[j + 1]);
                    }
                }
            }
            assert forall|i: int| 0 <= i < q.len() implies q[i] != next by {
                if old(self).current is None {
                    assert(next == q0[1]);
                    if i < q.len() - 1 {
                        assert(q[i] == q0[i + 2]);
                    } else {
                        assert(q[i] == q0[0]);
                    }
                } else {
                    assert(next == q0[0]);
                    if i < q.len() - 1 {
                        assert(q[i] == q0[i + 1]);
                    } else {
                        assert(!q0.contains(current));
                        assert(q0[0] != current);
                    }
                }
            }
        }
        Some((current, next))
    }

    /// Charges `ticks` of CPU time to task `task`.
    fn update_cpu_ticks(&mut self, task: usize, ticks: u64)
        requires
            old(self).wf(),
            task < old(self).names().len(),
        ensures
            final(self).wf(),
            final(self).metrics() == old(self).metrics().update(
                task as int,
                TaskMetrics { cpu_ticks: sat_add(old(self).metrics()[task as int].cpu_ticks, ticks), ..old(self).metrics()[task as int] },
            ),
            final(self).names() == old(self).names(),
            final(self).ready_queue == old(self).ready_queue,
            final(self).current == old(self).current,
            final(self).switches == old(self).switches,
            final(self).switch_enabled == old(self).switch_enabled,
            final(self).last_switch_tick == old(self).last_switch_tick,
    {
        let t = self.tasks[task];
        let m = TaskMetrics { cpu_ticks: t.metrics.cpu_ticks.saturating_add(ticks), ..t.metrics };
        self.tasks.set(task, ContextTask { metrics: m, ..t });
        assert(self.metrics() =~= old(self).metrics().update(task as int, m));
        assert(self.names() =~= old(self).names());
    }

    /// Round-robin step without a live switch; the result is `true` only when a pair
    /// was chosen while live switching is disabled.
    pub fn try_switch(&mut self) -> (r: bool)
        requires
            old(self).wf(),
        ensures
            final(self).wf(),
            ({
                let (q, c, pair) = rotate(old(self).queue(), old(self).current(), old(self).names().len());
                &&& final(self).queue() == q
                &&& final(self).current() == c
                &&& match pair {
                    Some((a, b)) => if a == b {
                        !r && final(self).switch_count() == old(self).switch_count()
                    } else {
                        r == !old(self).switching_enabled() && final(self).switch_count() == sat_add(
                            old(self).switch_count(),
                            1,
                        )
                    },
                    None => !r && final(self).switch_count() == old(self).switch_count(),
                }
            }),
            final(self).names() == old(self).names(),
            final(self).metrics() == old(self).metrics(),
            final(self).switching_enabled() == old(self).switching_enabled(),
            final(self).last_switch() == old(self).last_switch(),
    {
        let (current, next) = match self.next_pair() {
            Some(pair) => pair,
            None => return false,
        };
        if current == next {
            return false;
        }
        self.switches = self.switches.saturating_add(1);
        !self.switch_enabled
    }

    /// Chooses the next task for a live switch at `now_tick` and updates the metrics
    /// of both tasks; returns `(current, next)` indices.
    pub fn prepare_live_switch(&mut self, now_tick: u64) -> (r: Option<(usize, usize)>)
        requires
            old(self).wf(),
        ensures
            final(self).wf(),
            final(self).names() == old(self).names(),
            final(self).switching_enabled() == old(self).switching_enabled(),
            ({
                let (q, c, pair) = rotate(old(self).queue(), old(self).current(), old(self).names().len());
                &&& final(self).queue() == q
                &&& final(self).current() == c
                &&& match pair {
                    Some((a, b)) => if a == b {
                        r is None && final(self).metrics() == old(self).metrics()
                            && final(self).switch_count() == old(self).switch_count()
                            && final(self).last_switch() == old(self).last_switch()
                    } else {
                        r == Some((a, b)) && final(self).metrics() == live_switch_metrics(
                            old(self).metrics(),
                            a,
                            b,
                            sat_sub(now_tick, old(self).last_switch()),
                        ) && final(self).switch_count() == sat_add(old(self).switch_count(), 1)
                            && final(self).last_switch() == now_tick
                    },
                    None => r is None && final(self).metrics() == old(self).metrics()
                        && final(self).switch_count() == old(self).switch_count()
                        && final(self).last_switch() == old(self).last_switch(),
                }
            }),
    {
        let (current, next) = match self.next_pair() {
            Some(pair) => pair,
            None => return None,
        };
        if current == next {
            return None;
        }
        let ghost m0 = self.metrics();
        let elapsed = now_tick.saturating_sub(self.last_switch_tick);
        if elapsed > 0 {
            self.update_cpu_ticks(current, elapsed);
        }
        let ghost m1 = self.metrics();
        assert(m1 == credit_ticks(m0, current, elapsed));
        let t = self.tasks[current];
        let mc = TaskMetrics {
            switches: t.metrics.switches.saturating_add(1),
            preemption_successes: t.metrics.preemption_successes.saturating_add(1),
            ..t.metrics
        };
        self.tasks.set(current, ContextTask { metrics: mc, ..t });
        let u = self.tasks[next];
        let mn = TaskMetrics { switches: u.metrics.switches.saturating_add(1), ..u.metrics };
        self.tasks.set(next, ContextTask { metrics: mn, ..u });
        assert(self.metrics() =~= m1.update(current as int, mc).update(next as int, mn));
        assert(self.names() =~= old(self).names());
        self.switches = self.switches.saturating_add(1);
        self.last_switch_tick = now_tick;
        Some((current, next))
    }

    /// The task to start the context lab on: the current task, taking the front of the
    /// queue when there is none yet.
    pub fn first_context(&mut self) -> (r: Option<usize>)
        requires
            old(self).wf(),
        ensures
            final(self).wf(),
            final(self).names() == old(self).names(),
            final(self).metrics() == old(self).metrics(),
            final(self).switch_count() == old(self).switch_count(),
            final(self).switching_enabled() == old(self).switching_enabled(),
            final(self).last_switch() == old(self).last_switch(),
            old(self).names().len() == 0 ==> r is None && final(self).queue() == old(self).queue()
                && final(self).current() == old(self).current(),
            old(self).names().len() > 0 ==> if old(self).current() is Some {
                r == old(self).current() && final(self).queue() == old(self).queue()
                    && final(self).current() == old(self).current()
            } else {
                r == Some(old(self).queue()[0]) && final(self).queue() == old(self).queue().drop_first()
                    && final(self).current() == r
            },
            r matches Some(i) ==> i < old(self).names().len(),
    {
        if self.tasks.len() == 0 {
            return None;
        }
        if self.current.is_none() {
            self.current = self.pop_front();
            proof {
                let q = self.ready_queue@;
                let q0 = old(self).ready_queue@;
                assert forall|i: int| 0 <= i < q.len() implies q[i] != q0[0] by {
                    assert(q[i] == q0[i + 1]);
                }
                assert forall|i: int, j: int| 0 <= i < j < q.len() implies #[trigger] q[i] != #[trigger] q[j] by {
                    assert(q[i] == q0[i + 1] && q[j] == q0[j + 1]);
                }
                assert forall|i: int| 0 <= i < q.len() implies #[trigger] q[i] < self.tasks@.len() by {
                    assert(q[i] == q0[i + 1]);
                }
            }
        }
        self.current
    }

    pub fn context_task_count(&self) -> (r: usize)
        ensures
            r == self.names().len(),
    {
        self.tasks.len()
    }

    pub fn context_switch_count(&self) -> (r: u64)
        ensures
            r == self.switch_count(),
    {
        self.switches
    }

    pub fn set_switch_enabled(&mut self, enabled: bool)
        requires
            old(self).wf(),
        ensures
            final(self).wf(),
            final(self).switching_enabled() == enabled,
            final(self).names() == old(self).names(),
            final(self).metrics() == old(self).metrics(),
            final(self).queue() == old(self).queue(),
            final(self).current() == old(self).current(),
            final(self).switch_count() == old(self).switch_count(),
            final(self).last_switch() == old(self).last_switch(),
    {
        self.switch_enabled = enabled;
    }

    pub fn switch_enabled(&self) -> (r: bool)
        ensures
            r == self.switching_enabled(),
    {
        self.switch_enabled
    }

    pub fn get_task_metrics(&self, id: usize) -> (r: Option<TaskMetrics>)
        ensures
            r == (if id < self.metrics().len() {
                Some(self.metrics()[id as int])
            } else {
                None
            }),
    {
        if id < self.tasks.len() {
            Some(self.tasks[id].metrics)
        } else {
            None
        }
    }

    pub fn get_all_task_metrics(&self) -> (r: Vec<(usize, &'static str, TaskMetrics)>)
        ensures
            r@.len() == self.names().len(),
            forall|i: int| 0 <= i < r@.len() ==> #[trigger] r@[i] == (i as usize, self.names()[i], self.metrics()[i]),
    {
        let mut out: Vec<(usize, &'static str, TaskMetrics)> = Vec::new();
        let mut i: usize = 0;
        while i < self.tasks.len()
            invariant
                i <= self.tasks@.len(),
                out@.len() == i,
                forall|j: int| 0 <= j < i ==> #[trigger] out@[j] == (j as usize, self.names()[j], self.metrics()[j]),
            decreases self.tasks@.len() - i,
        {
            out.push((i, self.tasks[i].name, self.tasks[i].metrics));
            i = i + 1;
        }
        out
    }

    pub fn task_names(&self) -> (r: Vec<&'static str>)
        ensures
            r@ == self.names(),
    {
        let mut out: Vec<&'static str> = Vec::new();
        let mut i: usize = 0;
        while i < self.tasks.len()
            invariant
                i <= self.tasks@.len(),
                out@ == self.names().subrange(0, i as int),
            decreases self.tasks@.len() - i,
        {
            out.push(self.tasks[i].name);
            assert(out@ =~= self.names().subrange(0, i as int + 1));
            i = i + 1;
        }
        assert(self.names().subrange(0, i as int) =~= self.names());
        out
    }
}

/// Credits `ticks` to task `c`'s CPU time when `ticks` is positive.
pub open spec fn credit_ticks(m: Seq<TaskMetrics>, c: usize, ticks: u64) -> Seq<TaskMetrics> {
    if ticks > 0 {
        m.update(c as int, TaskMetrics { cpu_ticks: sat_add(m[c as int].cpu_ticks, ticks), ..m[c as int] })
    } else {
        m
    }
}

/// Metrics after a live switch from `a` to `b`: the ticks since the last switch are
/// the CPU time of the task that ran, the outgoing task `a`, which also counts a
/// switch and a successful preemption; the incoming task counts a switch.
pub open spec fn live_switch_metrics(m: Seq<TaskMetrics>, a: usize, b: usize, elapsed: u64) -> Seq<TaskMetrics> {
    let m1 = credit_ticks(m, a, elapsed);
    let m2 = m1.update(
        a as int,
        TaskMetrics {
            switches: sat_add(m1[a as int].switches, 1),
            preemption_successes: sat_add(m1[a as int].preemption_successes, 1),
            ..m1[a as int]
        },
    );
    m2.update(b as int, TaskMetrics { switches: sat_add(m2[b as int].switches, 1), ..m2[b as int] })
}

/// With at least two tasks, a round-robin step always picks two different tasks: the
/// outgoing one moves to the back of the queue, the front of the queue becomes current,
/// and every task is still either current or queued exactly once.
pub proof fn law_round_robin_rotation(queue: Seq<usize>, current: Option<usize>, n: nat)
    requires
        queue_complete(queue, current, n),
        n >= 2,
    ensures
        ({
            let (q, c, pair) = rotate(queue, current, n);
            &&& pair matches Some((a, b)) && a != b && c == Some(b) && q.last() == a
            &&& queue_complete(q, c, n)
        }),
{
    let (q, c, pair) = rotate(queue, current, n);
    if current is None {
        assert(queue.len() == n);
        assert(queue[0] != queue[1]);
        let q1 = queue.drop_first();
        assert forall|i: int| 0 <= i < q.len() implies #[trigger] q[i] < n by {
            if i < q.len() - 1 {
                assert(q[i] == queue[i + 2]);
            }
        }
        assert forall|i: int, j: int| 0 <= i < j < q.len() implies #[trigger] q[i] != #[trigger] q[j] by {
            if j == q.len() - 1 {
                assert(q[i] == queue[i + 2]);
            } else {
                assert(q[i] == queue[i + 2] && q[j] == queue[j + 2]);
            }
        }
        assert forall|i: int| 0 <= i < q.len() implies q[i] != queue[1] by {
            if i < q.len() - 1 {
                assert(q[i] == queue[i + 2]);
            }
        }
    } else {
        let cur = current->Some_0;
        assert(queue.len() >= 1);
        assert(queue[0] != cur);
        assert forall|i: int| 0 <= i < q.len() implies #[trigger] q[i] < n by {
            if i < q.len() - 1 {
                assert(q[i] == queue[i + 1]);
            }
        }
        assert forall|i: int, j: int| 0 <= i < j < q.len() implies #[trigger] q[i] != #[trigger] q[j] by {
            if j == q.len() - 1 {
                assert(q[i] == queue[i + 1]);
                assert(queue[i + 1] != cur);
            } else {
                assert(q[i] == queue[i + 1] && q[j] == queue[j + 1]);
            }
        }
        assert forall|i: int| 0 <= i < q.len() implies q[i] != queue[0] by {
            if i < q.len() - 1 {
                assert(q[i] == queue[i + 1]);
            }
        }
    }
}

/// The addresses the IRQ frame check accepts: the upper 16 bits are all zero, or all
/// ones with bit 47 set.
pub open spec fn canonical(addr: u64) -> bool {
    addr < 0x1_0000_0000_0000 || addr >= 0xFFFF_8000_0000_0000
}

pub fn is_canonical_address(addr: u64) -> (r: bool)
    ensures
        r == canonical(addr),
{
    let sign = (addr >> 47u64) & 1;
    let upper = addr >> 48u64;
    assert(((upper == 0 || (sign == 1 && upper == 0xFFFF)) == canonical(addr))) by (bit_vector)
        requires
            sign == (addr >> 47u64) & 1,
            upper == addr >> 48u64,
    ;
    upper == 0 || (sign == 1 && upper == 0xFFFF)
}

/// What a reschedule attempt decided.
#[derive(Debug, Clone, Copy, PartialEq, Eq, Structural)]
pub enum RescheduleDecision {
    /// No live switch; the flag is what the attempt reports.
    Declined(bool),
    /// Switch from the first task index to the second; the attempt reports `true`.
    Switch(usize, usize),
}

impl RescheduleDecision {
    pub open spec fn reported(self) -> bool {
        match self {
            RescheduleDecision::Declined(b) => b,
            RescheduleDecision::Switch(_, _) => true,
        }
    }
}

/// Scheduler-wide counters and the context scheduler.
pub struct SchedulerState {
    pub quantum_ticks: u64,
    pub fairness_interval_ticks: u64,
    pub need_reschedule: bool,
    pub timer_ticks: u64,
    pub reschedule_requests: u64,
    pub reschedule_points: u64,
    pub demo_tasks_spawned: bool,
    pub demo_a_count: u64,
    pub demo_b_count: u64,
    pub kernel_task_counts: [u64; 4],
    pub preempt_misses: u64,
    pub last_switch_tick: u64,
    pub watchdog_trips: u64,
    pub irq_preempt_pending: bool,
    pub irq_preempt_requests: u64,
    pub irq_preempt_checkpoints: u64,
    pub last_irq_rip: u64,
    pub last_irq_rsp: u64,
    pub last_irq_cs: u64,
    pub last_irq_rflags: u64,
    pub last_irq_has_rsp: bool,
    pub irq_frame_invalid: u64,
    pub irq_forced_attempts: u64,
    pub irq_forced_blocked: u64,
    pub irq_forced_succeeded: u64,
    pub last_observed_timer_tick: u64,
    pub stagnant_spin_count: u64,
    pub timer_stall_fallbacks: u64,
    pub irq_handoff_queued: u64,
    pub irq_handoff_consumed: u64,
    pub handoff_pending: bool,
    pub demo_ctx_a: u64,
    pub demo_ctx_b: u64,
    pub demo_current_slot: u64,
    pub context_switch_enabled: bool,
    pub lock_contention: u64,
    /// Process limit of the runtime configuration.
    pub max_processes: usize,
    pub context: ContextScheduler,
}

#[derive(Debug, Clone, Copy, PartialEq, Eq, Structural)]
pub struct ContextSchedulerStats {
    pub tasks: usize,
    pub switches: u64,
    pub switching_enabled: bool,
    pub demo_a_count: u64,
    pub demo_b_count: u64,
    pub preempt_misses: u64,
    pub watchdog_trips: u64,
    pub irq_preempt_requests: u64,
    pub irq_preempt_checkpoints: u64,
    pub last_irq_rip: u64,
    pub last_irq_rsp: u64,
    pub last_irq_cs: u64,
    pub last_irq_rflags: u64,
    pub last_irq_has_rsp: bool,
    pub irq_frame_invalid: u64,
    pub irq_forced_attempts: u64,
    pub irq_forced_blocked: u64,
    pub irq_forced_succeeded: u64,
    pub timer_stall_fallbacks: u64,
    pub irq_handoff_queued: u64,
    pub irq_handoff_consumed: u64,
}

#[derive(Debug, Clone, Copy, PartialEq, Eq, Structural)]
pub struct SchedulerStats {
    pub timer_ticks: u64,
    pub quantum_ticks: u64,
    pub fairness_check_interval_ticks: u64,
    pub reschedule_requests: u64,
    pub reschedule_points: u64,
    pub pending: bool,
    pub context_tasks: usize,
    pub context_switches: u64,
    pub context_switching_enabled: bool,
}

impl SchedulerState {
    pub open spec fn wf(&self) -> bool {
        self.context.wf()
    }

    /// The state at boot: default quantum and fairness interval, everything else zero.
    pub fn new() -> (r: Self)
        ensures
            r.wf(),
            r.quantum_ticks == SCHED_QUANTUM_TICKS,
            r.fairness_interval_ticks == FAIRNESS_CHECK_INTERVAL_TICKS,
            r.timer_ticks == 0 && !r.need_reschedule && r.reschedule_requests == 0 && r.reschedule_points == 0,
            !r.irq_preempt_pending && !r.handoff_pending && !r.context_switch_enabled && !r.demo_tasks_spawned,
            r.irq_preempt_requests == 0 && r.preempt_misses == 0 && r.last_switch_tick == 0,
            r.context.names().len() == 0 && r.context.current() is None && !r.context.switching_enabled(),
            r.context.switch_count() == 0,
            r.max_processes == crate::task::process::MAX_PROCESSES,
    {
        SchedulerState {
            quantum_ticks: SCHED_QUANTUM_TICKS,
            fairness_interval_ticks: FAIRNESS_CHECK_INTERVAL_TICKS,
            need_reschedule: false,
            timer_ticks: 0,
            reschedule_requests: 0,
            reschedule_points: 0,
            demo_tasks_spawned: false,
            demo_a_count: 0,
            demo_b_count: 0,
            kernel_task_counts: [0, 0, 0, 0],
            preempt_misses: 0,
            last_switch_tick: 0,
            watchdog_trips: 0,
            irq_preempt_pending: false,
            irq_preempt_requests: 0,
            irq_preempt_checkpoints: 0,
            last_irq_rip: 0,
            last_irq_rsp: 0,
            last_irq_cs: 0,
            last_irq_rflags: 0,
            last_irq_has_rsp: false,
            irq_frame_invalid: 0,
            irq_forced_attempts: 0,
            irq_forced_blocked: 0,
            irq_forced_succeeded: 0,
            last_observed_timer_tick: 0,
            stagnant_spin_count: 0,
            timer_stall_fallbacks: 0,
            irq_handoff_queued: 0,
            irq_handoff_consumed: 0,
            handoff_pending: false,
            demo_ctx_a: 0,
            demo_ctx_b: 0,
            demo_current_slot: 0,
            context_switch_enabled: false,
            lock_contention: 0,
            max_processes: crate::task::process::MAX_PROCESSES,
            context: ContextScheduler::new(),
        }
    }
}

/// The scheduler settings that can be changed at run time.
#[derive(Debug, Clone, Copy, PartialEq, Eq, Structural)]
pub struct SchedulerRuntimeConfig {
    pub quantum_ticks: u64,
    pub fairness_check_interval_ticks: u64,
    pub max_processes: usize,
}

/// Why a runtime configuration was rejected.
#[derive(Debug, Clone, Copy, PartialEq, Eq, Structural)]
pub enum SchedulerConfigError {
    ZeroQuantum,
    ZeroFairnessInterval,
    ZeroMaxProcesses,
}

/// The runtime configuration in force in `s`.
pub open spec fn config_of(s: SchedulerState) -> SchedulerRuntimeConfig {
    SchedulerRuntimeConfig {
        quantum_ticks: s.quantum_ticks,
        fairness_check_interval_ticks: s.fairness_interval_ticks,
        max_processes: s.max_processes,
    }
}

/// Why `c` cannot be applied, if it cannot: every setting must be at least 1.
pub open spec fn config_error(c: SchedulerRuntimeConfig) -> Option<SchedulerConfigError> {
    if c.quantum_ticks == 0 {
        Some(SchedulerConfigError::ZeroQuantum)
    } else if c.fairness_check_interval_ticks == 0 {
        Some(SchedulerConfigError::ZeroFairnessInterval)
    } else if c.max_processes == 0 {
        Some(SchedulerConfigError::ZeroMaxProcesses)
    } else {
        None
    }
}

/// The runtime configuration in force.
pub fn runtime_config(s: &SchedulerState) -> (r: SchedulerRuntimeConfig)
    ensures
        r == config_of(*s),
{
    SchedulerRuntimeConfig {
        quantum_ticks: s.quantum_ticks,
        fairness_check_interval_ticks: s.fairness_interval_ticks,
        max_processes: s.max_processes,
    }
}

/// Applies `config` as a whole: a configuration with a zero setting is rejected and
/// leaves the scheduler unchanged; an accepted one is what [`runtime_config`] reads
/// back afterwards.
pub fn apply_runtime_config(s: &mut SchedulerState, config: SchedulerRuntimeConfig) -> (r: Result<
    SchedulerRuntimeConfig,
    SchedulerConfigError,
>)
    ensures
        match config_error(config) {
            Some(e) => r == Err::<SchedulerRuntimeConfig, SchedulerConfigError>(e) && *final(s) == *old(s),
            None => r == Ok::<SchedulerRuntimeConfig, SchedulerConfigError>(config) && config_of(*final(s)) == config
                && *final(s) == (SchedulerState {
                quantum_ticks: config.quantum_ticks,
                fairness_interval_ticks: config.fairness_check_interval_ticks,
                max_processes: config.max_processes,
                ..*old(s)
            }),
        },
{
    if config.quantum_ticks == 0 {
        return Err(SchedulerConfigError::ZeroQuantum);
    }
    if config.fairness_check_interval_ticks == 0 {
        return Err(SchedulerConfigError::ZeroFairnessInterval);
    }
    if config.max_processes == 0 {
        return Err(SchedulerConfigError::ZeroMaxProcesses);
    }
    s.quantum_ticks = config.quantum_ticks;
    s.fairness_interval_ticks = config.fairness_check_interval_ticks;
    s.max_processes = config.max_processes;
    Ok(config)
}

/// The quantum in force: the configured one, at least 1.
pub open spec fn effective_quantum(q: u64) -> u64 {
    if q == 0 {
        1
    } else {
        q
    }
}

/// Called from the timer interrupt handler: counts the tick and, at the end of each
/// quantum, raises a reschedule request and an IRQ preemption request.
pub fn on_timer_tick(s: &mut SchedulerState)
    ensures
        final(s).timer_ticks == wrap_inc(old(s).timer_ticks),
        ({
            let boundary = final(s).timer_ticks % effective_quantum(old(s).quantum_ticks) == 0;
            &&& final(s).need_reschedule == (old(s).need_reschedule || boundary)
            &&& final(s).irq_preempt_pending == (old(s).irq_preempt_pending || boundary)
            &&& final(s).reschedule_requests == if boundary {
                wrap_inc(old(s).reschedule_requests)
            } else {
                old(s).reschedule_requests
            }
            &&& final(s).irq_preempt_requests == if boundary {
                wrap_inc(old(s).irq_preempt_requests)
            } else {
                old(s).irq_preempt_requests
            }
        }),
        final(s).quantum_ticks == old(s).quantum_ticks,
        final(s).context == old(s).context,
        final(s).reschedule_points == old(s).reschedule_points,
        final(s).last_switch_tick == old(s).last_switch_tick,
{
    s.timer_ticks = s.timer_ticks.wrapping_add(1);
    let ticks = s.timer_ticks;
    let quantum_ticks = if s.quantum_ticks == 0 {
        1
    } else {
        s.quantum_ticks
    };
    if ticks % quantum_ticks == 0 {
        s.need_reschedule = true;
        s.reschedule_requests = s.reschedule_requests.wrapping_add(1);
        s.irq_preempt_pending = true;
        s.irq_preempt_requests = s.irq_preempt_requests.wrapping_add(1);
    }
}

pub fn scheduler_quantum_ticks(s: &SchedulerState) -> (r: u64)
    ensures
        r == s.quantum_ticks,
{
    s.quantum_ticks
}

/// Sets the quantum; 0 is raised to 1.
pub fn set_scheduler_quantum_ticks(s: &mut SchedulerState, ticks: u64)
    ensures
        *final(s) == (SchedulerState { quantum_ticks: effective_quantum(ticks), ..*old(s) }),
{
    s.quantum_ticks = if ticks == 0 {
        1
    } else {
        ticks
    };
}

pub fn fairness_check_interval_ticks(s: &SchedulerState) -> (r: u64)
    ensures
        r == s.fairness_interval_ticks,
{
    s.fairness_interval_ticks
}

/// Sets the fairness check interval; 0 is raised to 1.
pub fn set_fairness_check_interval_ticks(s: &mut SchedulerState, ticks: u64)
    ensures
        *final(s) == (SchedulerState { fairness_interval_ticks: effective_quantum(ticks), ..*old(s) }),
{
    s.fairness_interval_ticks = if ticks == 0 {
        1
    } else {
        ticks
    };
}

/// Records the interrupted context of a timer IRQ.
pub fn on_timer_interrupt_context(s: &mut SchedulerState, interrupted_rip: u64, interrupted_rsp: u64)
    ensures
        *final(s) == (SchedulerState {
            last_irq_rip: interrupted_rip,
            last_irq_rsp: interrupted_rsp,
            last_irq_cs: 0,
            last_irq_rflags: 0,
            last_irq_has_rsp: true,
            irq_frame_invalid: if !canonical(interrupted_rip) || !canonical(interrupted_rsp) {
                wrap_inc(old(s).irq_frame_invalid)
            } else {
                old(s).irq_frame_invalid
            },
            ..*old(s)
        }),
{
    on_timer_interrupt_context_detailed(s, interrupted_rip, interrupted_rsp, 0, 0, true);
}

/// Records the interrupted context of a timer IRQ and counts a frame whose
/// instruction pointer (or stack pointer, when present) is not canonical.
pub fn on_timer_interrupt_context_detailed(
    s: &mut SchedulerState,
    interrupted_rip: u64,
    interrupted_rsp: u64,
    interrupted_cs: u64,
    interrupted_rflags: u64,
    has_rsp: bool,
)
    ensures
        *final(s) == (SchedulerState {
            last_irq_rip: interrupted_rip,
            last_irq_rsp: interrupted_rsp,
            last_irq_cs: interrupted_cs,
            last_irq_rflags: interrupted_rflags,
            last_irq_has_rsp: has_rsp,
            irq_frame_invalid: if !canonical(interrupted_rip) || (has_rsp && !canonical(interrupted_rsp)) {
                wrap_inc(old(s).irq_frame_invalid)
            } else {
                old(s).irq_frame_invalid
            },
            ..*old(s)
        }),
{
    s.last_irq_rip = interrupted_rip;
    s.last_irq_rsp = interrupted_rsp;
    s.last_irq_cs = interrupted_cs;
    s.last_irq_rflags = interrupted_rflags;
    s.last_irq_has_rsp = has_rsp;
    if !is_canonical_address(interrupted_rip) || (has_rsp && !is_canonical_address(interrupted_rsp)) {
        s.irq_frame_invalid = s.irq_frame_invalid.wrapping_add(1);
    }
}

/// IRQ-tail preemption hook: records telemetry and queues a handoff token for the
/// running context task; it never switches from interrupt context, so it returns
/// `false`.
pub fn try_forced_preempt_from_irq_tail(s: &mut SchedulerState) -> (r: bool)
    ensures
        !r,
        !old(s).irq_preempt_pending ==> *final(s) == *old(s),
        old(s).irq_preempt_pending ==> {
            let attempts = wrap_inc(old(s).irq_forced_attempts);
            let blocked = !old(s).context_switch_enabled || old(s).demo_ctx_a == 0 || old(s).demo_ctx_b == 0
                || old(s).handoff_pending;
            if blocked {
                *final(s) == (SchedulerState {
                    irq_forced_attempts: attempts,
                    irq_forced_blocked: wrap_inc(old(s).irq_forced_blocked),
                    ..*old(s)
                })
            } else {
                *final(s) == (SchedulerState {
                    irq_forced_attempts: attempts,
                    handoff_pending: true,
                    irq_handoff_queued: wrap_inc(old(s).irq_handoff_queued),
                    ..*old(s)
                })
            }
        },
{
    if !s.irq_preempt_pending {
        return false;
    }
    s.irq_forced_attempts = s.irq_forced_attempts.wrapping_add(1);
    if !s.context_switch_enabled {
        s.irq_forced_blocked = s.irq_forced_blocked.wrapping_add(1);
        return false;
    }
    if s.demo_ctx_a == 0 || s.demo_ctx_b == 0 {
        s.irq_forced_blocked = s.irq_forced_blocked.wrapping_add(1);
        return false;
    }
    if s.handoff_pending {
        s.irq_forced_blocked = s.irq_forced_blocked.wrapping_add(1);
        return false;
    }
    s.handoff_pending = true;
    s.irq_handoff_queued = s.irq_handoff_queued.wrapping_add(1);
    false
}

/// Consume a pending reschedule request.
pub fn take_reschedule_request(s: &mut SchedulerState) -> (r: bool)
    ensures
        r == old(s).need_reschedule,
        *final(s) == (SchedulerState { need_reschedule: false, ..*old(s) }),
{
    let r = s.need_reschedule;
    s.need_reschedule = false;
    r
}

/// Mark that execution reached a scheduler reschedule point.
pub fn record_reschedule_point(s: &mut SchedulerState)
    ensures
        *final(s) == (SchedulerState { reschedule_points: wrap_inc(old(s).reschedule_points), ..*old(s) }),
{
    s.reschedule_points = s.reschedule_points.wrapping_add(1);
}

/// Adds a context task created now; returns its index. The caller pairs the index
/// with the task's entry point and stack.
pub fn spawn_context_task(s: &mut SchedulerState, name: &'static str) -> (r: usize)
    requires
        old(s).wf(),
        old(s).context.names().len() < usize::MAX,
    ensures
        final(s).wf(),
        r == old(s).context.names().len(),
        final(s).context.names() == old(s).context.names().push(name),
        final(s).context.metrics() == old(s).context.metrics().push(
            TaskMetrics {
                switches: 0,
                cpu_ticks: 0,
                created_tick: old(s).timer_ticks,
                preemption_attempts: 0,
                preemption_successes: 0,
            },
        ),
        final(s).context.queue() == old(s).context.queue().push(r),
        final(s).context.current() == old(s).context.current(),
        final(s).context.switching_enabled() == old(s).context.switching_enabled(),
        final(s).context.switch_count() == old(s).context.switch_count(),
        *final(s) == (SchedulerState { context: final(s).context, ..*old(s) }),
{
    let now = s.timer_ticks;
    s.context.spawn(name, now)
}

pub fn set_context_switching_enabled(s: &mut SchedulerState, enabled: bool)
    requires
        old(s).wf(),
    ensures
        final(s).wf(),
        final(s).context_switch_enabled == enabled,
        final(s).context.switching_enabled() == enabled,
        final(s).context.names() == old(s).context.names(),
        final(s).context.metrics() == old(s).context.metrics(),
        final(s).context.queue() == old(s).context.queue(),
        final(s).context.current() == old(s).context.current(),
        final(s).context.switch_count() == old(s).context.switch_count(),
        *final(s) == (SchedulerState { context: final(s).context, context_switch_enabled: enabled, ..*old(s) }),
{
    s.context.set_switch_enabled(enabled);
    s.context_switch_enabled = enabled;
}

/// Get metrics for a specific task by index.
pub fn get_task_metrics(s: &SchedulerState, id: usize) -> (r: Option<TaskMetrics>)
    ensures
        r == (if id < s.context.metrics().len() {
            Some(s.context.metrics()[id as int])
        } else {
            None
        }),
{
    s.context.get_task_metrics(id)
}

/// Get metrics for all context tasks.
pub fn get_all_task_metrics(s: &SchedulerState) -> (r: Vec<(usize, &'static str, TaskMetrics)>)
    ensures
        r@.len() == s.context.names().len(),
        forall|i: int|
            0 <= i < r@.len() ==> #[trigger] r@[i] == (i as usize, s.context.names()[i], s.context.metrics()[i]),
{
    s.context.get_all_task_metrics()
}

/// The context scheduler `c1` and the decision `r` after one reschedule of `c0` at
/// tick `now`: the ready queue takes one round-robin step; a step between two
/// different tasks counts a switch and, with live switching on, is a switch that
/// charges both tasks the ticks since the last switch and stamps `now`; every other
/// outcome declines and keeps the metrics and the switch tick.
pub open spec fn reschedule_step(c0: ContextScheduler, c1: ContextScheduler, now: u64, r: RescheduleDecision) -> bool {
    let (q, c, pair) = rotate(c0.queue(), c0.current(), c0.names().len());
    let switched = pair matches Some((a, b)) && a != b;
    &&& c1.names() == c0.names()
    &&& c1.switching_enabled() == c0.switching_enabled()
    &&& c1.queue() == q
    &&& c1.current() == c
    &&& c1.switch_count() == if switched {
        sat_add(c0.switch_count(), 1)
    } else {
        c0.switch_count()
    }
    &&& if c0.switching_enabled() && switched {
        let (a, b) = pair->Some_0;
        &&& r == RescheduleDecision::Switch(a, b)
        &&& c1.metrics() == live_switch_metrics(c0.metrics(), a, b, sat_sub(now, c0.last_switch()))
        &&& c1.last_switch() == now
    } else {
        &&& r == RescheduleDecision::Declined(!c0.switching_enabled() && switched)
        &&& c1.metrics() == c0.metrics()
        &&& c1.last_switch() == c0.last_switch()
    }
}

/// Decides a reschedule: with live switching on, a round-robin step that names the
/// two tasks to switch between; otherwise a round-robin step without a switch.
pub fn try_context_reschedule(s: &mut SchedulerState) -> (r: RescheduleDecision)
    requires
        old(s).wf(),
    ensures
        final(s).wf(),
        *final(s) == (SchedulerState { context: final(s).context, ..*old(s) }),
        reschedule_step(old(s).context, final(s).context, old(s).timer_ticks, r),
        r matches RescheduleDecision::Switch(a, b) ==> a < old(s).context.names().len() && b
            < old(s).context.names().len() && a != b,
{
    if s.context.switch_enabled() {
        let now = s.timer_ticks;
        match s.context.prepare_live_switch(now) {
            Some((a, b)) => RescheduleDecision::Switch(a, b),
            None => RescheduleDecision::Declined(false),
        }
    } else {
        RescheduleDecision::Declined(s.context.try_switch())
    }
}

/// A voluntary yield: the same decision as [`try_context_reschedule`].
pub fn yield_now(s: &mut SchedulerState) -> (r: RescheduleDecision)
    requires
        old(s).wf(),
    ensures
        final(s).wf(),
        *final(s) == (SchedulerState { context: final(s).context, ..*old(s) }),
        reschedule_step(old(s).context, final(s).context, old(s).timer_ticks, r),
        r matches RescheduleDecision::Switch(a, b) ==> a < old(s).context.names().len() && b
            < old(s).context.names().len() && a != b,
{
    try_context_reschedule(s)
}

/// Marks the end of a switch that the caller performed: the switch tick is now.
pub fn complete_context_switch(s: &mut SchedulerState)
    ensures
        *final(s) == (SchedulerState { last_switch_tick: old(s).timer_ticks, ..*old(s) }),
{
    s.last_switch_tick = s.timer_ticks;
}

/// Preempts when a reschedule was requested: consumes the request, counts the
/// reschedule point and decides; a declined attempt that reports `true` stamps the
/// switch tick and one that reports `false` counts a miss. `None` when no request
/// was pending. After a `Switch` the caller switches and then calls
/// [`complete_context_switch`].
pub fn preempt_if_requested(s: &mut SchedulerState) -> (r: Option<RescheduleDecision>)
    requires
        old(s).wf(),
    ensures
        final(s).wf(),
        final(s).need_reschedule == false,
        *final(s) == (SchedulerState {
            context: final(s).context,
            need_reschedule: false,
            reschedule_points: final(s).reschedule_points,
            last_switch_tick: final(s).last_switch_tick,
            preempt_misses: final(s).preempt_misses,
            ..*old(s)
        }),
        final(s).context.names() == old(s).context.names(),
        !old(s).need_reschedule ==> r is None && *final(s) == *old(s),
        old(s).need_reschedule ==> r is Some && final(s).reschedule_points == wrap_inc(old(s).reschedule_points)
            && match r->Some_0 {
            RescheduleDecision::Declined(true) => final(s).last_switch_tick == old(s).timer_ticks
                && final(s).preempt_misses == old(s).preempt_misses,
            RescheduleDecision::Declined(false) => final(s).preempt_misses == wrap_inc(old(s).preempt_misses)
                && final(s).last_switch_tick == old(s).last_switch_tick,
            RescheduleDecision::Switch(a, b) => a < old(s).context.names().len() && b
                < old(s).context.names().len() && a != b && final(s).preempt_misses == old(s).preempt_misses,
        },
{
    if !take_reschedule_request(s) {
        return None;
    }
    record_reschedule_point(s);
    let d = try_context_reschedule(s);
    match d {
        RescheduleDecision::Declined(true) => {
            s.last_switch_tick = s.timer_ticks;
        },
        RescheduleDecision::Declined(false) => {
            s.preempt_misses = s.preempt_misses.wrapping_add(1);
        },
        RescheduleDecision::Switch(_, _) => {},
    }
    Some(d)
}

/// Context-task checkpoint for a preemption requested by the timer IRQ: consumes the
/// IRQ request, counts the checkpoint and runs [`preempt_if_requested`].
pub fn preempt_if_irq_pending(s: &mut SchedulerState) -> (r: Option<RescheduleDecision>)
    requires
        old(s).wf(),
    ensures
        final(s).wf(),
        final(s).irq_preempt_pending == false,
        final(s).context.names() == old(s).context.names(),
        !old(s).irq_preempt_pending ==> r is None && *final(s) == *old(s),
        old(s).irq_preempt_pending ==> final(s).irq_preempt_checkpoints == wrap_inc(old(s).irq_preempt_checkpoints)
            && (r is Some <==> old(s).need_reschedule),
        r matches Some(RescheduleDecision::Switch(a, b)) ==> a < old(s).context.names().len() && b
            < old(s).context.names().len() && a != b,
{
    if !s.irq_preempt_pending {
        return None;
    }
    s.irq_preempt_pending = false;
    s.irq_preempt_checkpoints = s.irq_preempt_checkpoints.wrapping_add(1);
    preempt_if_requested(s)
}

/// Consumes a queued IRQ handoff token from a context task: counts the handoff and,
/// with live switching on, picks the pair to switch between; a blocked handoff is
/// counted. Clears the IRQ preemption request either way. After `Some` the caller
/// switches and then calls [`complete_context_switch`].
pub fn consume_irq_handoff_token(s: &mut SchedulerState) -> (r: Option<(usize, usize)>)
    requires
        old(s).wf(),
    ensures
        final(s).wf(),
        final(s).context.names() == old(s).context.names(),
        !old(s).handoff_pending ==> r is None && *final(s) == *old(s),
        old(s).handoff_pending ==> {
            &&& !final(s).handoff_pending
            &&& !final(s).irq_preempt_pending
            &&& final(s).irq_handoff_consumed == wrap_inc(old(s).irq_handoff_consumed)
            &&& final(s).irq_forced_succeeded == wrap_inc(old(s).irq_forced_succeeded)
            &&& final(s).irq_preempt_checkpoints == wrap_inc(old(s).irq_preempt_checkpoints)
            &&& final(s).reschedule_points == wrap_inc(old(s).reschedule_points)
            &&& final(s).irq_forced_blocked == if r is Some {
                old(s).irq_forced_blocked
            } else {
                wrap_inc(old(s).irq_forced_blocked)
            }
            &&& (r is Some ==> old(s).context.switching_enabled())
        },
        r matches Some((a, b)) ==> a < old(s).context.names().len() && b < old(s).context.names().len() && a != b,
{
    if !s.handoff_pending {
        return None;
    }
    s.handoff_pending = false;
    s.irq_handoff_consumed = s.irq_handoff_consumed.wrapping_add(1);
    s.irq_forced_succeeded = s.irq_forced_succeeded.wrapping_add(1);
    s.irq_preempt_checkpoints = s.irq_preempt_checkpoints.wrapping_add(1);
    s.reschedule_points = s.reschedule_points.wrapping_add(1);
    let now = s.timer_ticks;
    let maybe_switch = if s.context.switch_enabled() {
        s.context.prepare_live_switch(now)
    } else {
        None
    };
    if maybe_switch.is_none() {
        s.irq_forced_blocked = s.irq_forced_blocked.wrapping_add(1);
    }
    s.irq_preempt_pending = false;
    maybe_switch
}

/// Context-lab watchdog: `true` (and a counted trip) when no switch happened for more
/// than [`CONTEXT_LAB_MAX_STALL_TICKS`]; the caller then halts.
pub fn context_lab_watchdog_check(s: &mut SchedulerState) -> (r: bool)
    ensures
        r == (sat_sub(old(s).timer_ticks, old(s).last_switch_tick) > CONTEXT_LAB_MAX_STALL_TICKS),
        r ==> *final(s) == (SchedulerState { watchdog_trips: wrap_inc(old(s).watchdog_trips), ..*old(s) }),
        !r ==> *final(s) == *old(s),
{
    let now = s.timer_ticks;
    let last = s.last_switch_tick;
    if now.saturating_sub(last) > CONTEXT_LAB_MAX_STALL_TICKS {
        s.watchdog_trips = s.watchdog_trips.wrapping_add(1);
        return true;
    }
    false
}

/// Context-lab timer progress check: counts spins without timer progress and returns
/// `true` (counting a fallback) when the task should yield on its own.
pub fn context_lab_timer_progress_check(s: &mut SchedulerState) -> (r: bool)
    requires
        old(s).stagnant_spin_count < u64::MAX,
    ensures
        final(s).last_observed_timer_tick == old(s).timer_ticks,
        old(s).timer_ticks != old(s).last_observed_timer_tick ==> !r && final(s).stagnant_spin_count == 0
            && final(s).timer_stall_fallbacks == old(s).timer_stall_fallbacks,
        old(s).timer_ticks == old(s).last_observed_timer_tick ==> (r == (old(s).stagnant_spin_count + 1
            >= CONTEXT_LAB_TIMER_STALL_SPIN_THRESHOLD)) && if r {
            final(s).stagnant_spin_count == 0 && final(s).timer_stall_fallbacks == wrap_inc(
                old(s).timer_stall_fallbacks,
            )
        } else {
            final(s).stagnant_spin_count == old(s).stagnant_spin_count + 1 && final(s).timer_stall_fallbacks
                == old(s).timer_stall_fallbacks
        },
        final(s).context == old(s).context,
        final(s).timer_ticks == old(s).timer_ticks,
{
    let now = s.timer_ticks;
    let last = s.last_observed_timer_tick;
    s.last_observed_timer_tick = now;
    if now == last {
        s.stagnant_spin_count = s.stagnant_spin_count + 1;
        let stagnant = s.stagnant_spin_count;
        if stagnant >= CONTEXT_LAB_TIMER_STALL_SPIN_THRESHOLD {
            s.stagnant_spin_count = 0;
            s.timer_stall_fallbacks = s.timer_stall_fallbacks.wrapping_add(1);
            return true;
        }
        false
    } else {
        s.stagnant_spin_count = 0;
        false
    }
}

/// One iteration of a context-lab demo task in `slot` (0 or 1): counts it and reports
/// the new count and whether this iteration should print the lab counters.
pub fn record_demo_iteration(s: &mut SchedulerState, slot: u64) -> (r: (u64, bool))
    requires
        slot == 0 ==> old(s).demo_a_count < u64::MAX,
        slot != 0 ==> old(s).demo_b_count < u64::MAX,
    ensures
        final(s).demo_current_slot == slot,
        slot == 0 ==> final(s).demo_a_count == old(s).demo_a_count + 1 && r.0 == final(s).demo_a_count
            && final(s).demo_b_count == old(s).demo_b_count,
        slot != 0 ==> final(s).demo_b_count == old(s).demo_b_count + 1 && r.0 == final(s).demo_b_count
            && final(s).demo_a_count == old(s).demo_a_count,
        r.1 == (r.0 % CONTEXT_LAB_LOG_INTERVAL == 0),
        final(s).context == old(s).context,
{
    s.demo_current_slot = slot;
    let count = if slot == 0 {
        s.demo_a_count = s.demo_a_count + 1;
        s.demo_a_count
    } else {
        s.demo_b_count = s.demo_b_count + 1;
        s.demo_b_count
    };
    (count, count % CONTEXT_LAB_LOG_INTERVAL == 0)
}

pub fn context_stats(s: &SchedulerState) -> (r: ContextSchedulerStats)
    ensures
        r == (ContextSchedulerStats {
            tasks: s.context.names().len() as usize,
            switches: s.context.switch_count(),
            switching_enabled: s.context.switching_enabled(),
            demo_a_count: s.demo_a_count,
            demo_b_count: s.demo_b_count,
            preempt_misses: s.preempt_misses,
            watchdog_trips: s.watchdog_trips,
            irq_preempt_requests: s.irq_preempt_requests,
            irq_preempt_checkpoints: s.irq_preempt_checkpoints,
            last_irq_rip: s.last_irq_rip,
            last_irq_rsp: s.last_irq_rsp,
            last_irq_cs: s.last_irq_cs,
            last_irq_rflags: s.last_irq_rflags,
            last_irq_has_rsp: s.last_irq_has_rsp,
            irq_frame_invalid: s.irq_frame_invalid,
            irq_forced_attempts: s.irq_forced_attempts,
            irq_forced_blocked: s.irq_forced_blocked,
            irq_forced_succeeded: s.irq_forced_succeeded,
            timer_stall_fallbacks: s.timer_stall_fallbacks,
            irq_handoff_queued: s.irq_handoff_queued,
            irq_handoff_consumed: s.irq_handoff_consumed,
        }),
{
    ContextSchedulerStats {
        tasks: s.context.context_task_count(),
        switches: s.context.context_switch_count(),
        switching_enabled: s.context.switch_enabled(),
        demo_a_count: s.demo_a_count,
        demo_b_count: s.demo_b_count,
        preempt_misses: s.preempt_misses,
        watchdog_trips: s.watchdog_trips,
        irq_preempt_requests: s.irq_preempt_requests,
        irq_preempt_checkpoints: s.irq_preempt_checkpoints,
        last_irq_rip: s.last_irq_rip,
        last_irq_rsp: s.last_irq_rsp,
        last_irq_cs: s.last_irq_cs,
        last_irq_rflags: s.last_irq_rflags,
        last_irq_has_rsp: s.last_irq_has_rsp,
        irq_frame_invalid: s.irq_frame_invalid,
        irq_forced_attempts: s.irq_forced_attempts,
        irq_forced_blocked: s.irq_forced_blocked,
        irq_forced_succeeded: s.irq_forced_succeeded,
        timer_stall_fallbacks: s.timer_stall_fallbacks,
        irq_handoff_queued: s.irq_handoff_queued,
        irq_handoff_consumed: s.irq_handoff_consumed,
    }
}

pub fn context_task_names(s: &SchedulerState) -> (r: Vec<&'static str>)
    ensures
        r@ == s.context.names(),
{
    s.context.task_names()
}

/// Spawns the two context-lab demo tasks once; `ctx_a` and `ctx_b` are the addresses
/// of their saved contexts. Returns the indices of the new tasks, or `None` when they
/// were spawned before.
pub fn spawn_demo_context_tasks(s: &mut SchedulerState, ctx_a: u64, ctx_b: u64) -> (r: Option<(usize, usize)>)
    requires
        old(s).wf(),
        old(s).context.names().len() + 2 < usize::MAX,
    ensures
        final(s).wf(),
        old(s).demo_tasks_spawned ==> r is None && *final(s) == *old(s),
        !old(s).demo_tasks_spawned ==> {
            let n = old(s).context.names().len();
            &&& r == Some((n as usize, (n + 1) as usize))
            &&& final(s).demo_tasks_spawned
            &&& final(s).context.names() == old(s).context.names().push("ctx-demo-a").push("ctx-demo-b")
            &&& final(s).last_switch_tick == old(s).timer_ticks
            &&& final(s).demo_ctx_a == ctx_a && final(s).demo_ctx_b == ctx_b
            &&& final(s).demo_current_slot == 0
        },
{
    if s.demo_tasks_spawned {
        return None;
    }
    s.demo_tasks_spawned = true;
    s.last_switch_tick = s.timer_ticks;
    let a = spawn_context_task(s, "ctx-demo-a");
    let b = spawn_context_task(s, "ctx-demo-b");
    s.demo_ctx_a = ctx_a;
    s.demo_ctx_b = ctx_b;
    s.demo_current_slot = 0;
    Some((a, b))
}

pub fn stats(s: &SchedulerState) -> (r: SchedulerStats)
    ensures
        r == (SchedulerStats {
            timer_ticks: s.timer_ticks,
            quantum_ticks: s.quantum_ticks,
            fairness_check_interval_ticks: s.fairness_interval_ticks,
            reschedule_requests: s.reschedule_requests,
            reschedule_points: s.reschedule_points,
            pending: s.need_reschedule,
            context_tasks: s.context.names().len() as usize,
            context_switches: s.context.switch_count(),
            context_switching_enabled: s.context.switching_enabled(),
        }),
{
    let context = context_stats(s);
    SchedulerStats {
        timer_ticks: s.timer_ticks,
        quantum_ticks: scheduler_quantum_ticks(s),
        fairness_check_interval_ticks: fairness_check_interval_ticks(s),
        reschedule_requests: s.reschedule_requests,
        reschedule_points: s.reschedule_points,
        pending: s.need_reschedule,
        context_tasks: context.tasks,
        context_switches: context.switches,
        context_switching_enabled: context.switching_enabled,
    }
}

/// Counters of the four fairness-test kernel tasks.
pub fn get_kernel_task_counters(s: &SchedulerState) -> (r: [u64; 4])
    ensures
        r@ == s.kernel_task_counts@,
{
    let r = [s.kernel_task_counts[0], s.kernel_task_counts[1], s.kernel_task_counts[2], s.kernel_task_counts[3]];
    assert(r@ =~= s.kernel_task_counts@);
    r
}

/// Counts one iteration of kernel task `task_id` (1 to 4); returns the previous count,
/// or 0 for another id.
pub fn increment_kernel_task_counter(s: &mut SchedulerState, task_id: usize) -> (r: u64)
    ensures
        1 <= task_id <= 4 ==> r == old(s).kernel_task_counts@[task_id - 1] && final(s).kernel_task_counts@
            == old(s).kernel_task_counts@.update(task_id - 1, wrap_inc(old(s).kernel_task_counts@[task_id - 1])),
        !(1 <= task_id <= 4) ==> r == 0 && final(s).kernel_task_counts@ == old(s).kernel_task_counts@,
        final(s).context == old(s).context,
{
    if 1 <= task_id && task_id <= 4 {
        let i = task_id - 1;
        let before = s.kernel_task_counts[i];
        s.kernel_task_counts.set(i, before.wrapping_add(1));
        before
    } else {
        0
    }
}

/// Spawn the four fairness-test kernel tasks.
pub fn spawn_kernel_tasks_phase5(s: &mut SchedulerState)
    requires
        old(s).wf(),
        old(s).context.names().len() + 4 < usize::MAX,
    ensures
        final(s).wf(),
        final(s).context.names() == old(s).context.names().push("kernel-task-1").push("kernel-task-2").push(
            "kernel-task-3",
        ).push("kernel-task-4"),
{
    spawn_context_task(s, "kernel-task-1");
    spawn_context_task(s, "kernel-task-2");
    spawn_context_task(s, "kernel-task-3");
    spawn_context_task(s, "kernel-task-4");
}

pub fn scheduler_lock_contention(s: &SchedulerState) -> (r: u64)
    ensures
        r == s.lock_contention,
{
    s.lock_contention
}

/// Over a whole quantum of ticks the timer raises at least one reschedule request:
/// among `q` consecutive tick counts one is a multiple of `q`.
pub proof fn law_quantum_requests_reschedule(start: u64, q: u64)
    requires
        q >= 1,
        start + q <= u64::MAX,
    ensures
        exists|k: int| 1 <= k <= q && #[trigger] ((start + k) % (q as int)) == 0,
{
    let qi = q as int;
    let si = start as int;
    let k = qi - si % qi;
    assert(0 <= si % qi < qi) by (nonlinear_arith)
        requires
            qi >= 1,
    ;
    assert((si + k) % qi == 0) by (nonlinear_arith)
        requires
            k == qi - si % qi,
            qi >= 1,
    ;
    assert((start + k) % (q as int) == 0);
}

} // verus!
