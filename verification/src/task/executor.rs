//! Bookkeeping of the cooperative executor: the task registry with each task's
//! state and ages, and the executor-wide counters. Polling the tasks' futures is
//! done by the caller, which reports each poll's outcome here.

use vstd::prelude::*;
use crate::task::{TaskId, TaskState};

verus! {

/// Number of timer ticks between per-task fairness preemption checks.
pub const FAIRNESS_CHECK_INTERVAL_TICKS: u64 = 10;
/// Maximum number of wake notifications that can be queued simultaneously.
pub const WAKE_QUEUE_SIZE: usize = 100;

#[derive(Debug, Clone, Copy)]
pub struct TaskSnapshot {
    pub id: u64,
    pub name: &'static str,
    pub state: TaskState,
    pub age_ticks: u64,
    pub state_age_ticks: u64,
}

#[derive(Debug, Clone, Copy, PartialEq, Eq, Structural)]
pub struct ExecutorStats {
    pub active_tasks: usize,
    pub sleeping_tasks: usize,
    pub ready_queue_depth: usize,
    pub completed_tasks: usize,
}

/// One registered task.
#[derive(Debug, Clone, Copy)]
pub struct RegistryEntry {
    pub id: u64,
    pub name: &'static str,
    pub state: TaskState,
    pub created_tick: u64,
    pub state_since_tick: u64,
}

pub open spec fn sat_sub(a: u64, b: u64) -> u64 {
    if a < b {
        0
    } else {
        (a - b) as u64
    }
}

pub open spec fn snapshot_of(e: RegistryEntry, now: u64) -> (u64, &'static str, TaskState, u64, u64) {
    (e.id, e.name, e.state, sat_sub(now, e.created_tick), sat_sub(now, e.state_since_tick))
}

pub open spec fn wrap_add(x: usize, d: int) -> usize {
    if x + d > usize::MAX {
        (x + d - usize::MAX - 1) as usize
    } else if x + d < 0 {
        (x + d + usize::MAX + 1) as usize
    } else {
        (x + d) as usize
    }
}

/// The executor's registry and counters (the counters wrap).
pub struct ExecutorBook {
    pub entries: Vec<RegistryEntry>,
    pub active_tasks: usize,
    pub sleeping_tasks: usize,
    pub ready_queue_depth: usize,
    pub completed_tasks: usize,
    pub last_fairness_check: u64,
}

/// Index of the entry of task `id`.
pub open spec fn entry_index(es: Seq<RegistryEntry>, id: u64) -> Option<int> {
    if exists|i: int| 0 <= i < es.len() && (#[trigger] es[i]).id == id {
        Some(choose|i: int| 0 <= i < es.len() && (#[trigger] es[i]).id == id)
    } else {
        None
    }
}

pub open spec fn ids_unique(es: Seq<RegistryEntry>) -> bool {
    forall|i: int, j: int| 0 <= i < j < es.len() ==> (#[trigger] es[i]).id != (#[trigger] es[j]).id
}

impl ExecutorBook {
    /// The registered tasks, in registration order.
    pub closed spec fn registry(&self) -> Seq<RegistryEntry> {
        self.entries@
    }

    pub closed spec fn wf(&self) -> bool {
        ids_unique(self.entries@)
    }

    pub fn new() -> (r: Self)
        ensures
            r.wf(),
            r.registry().len() == 0,
            r.active_tasks == 0 && r.sleeping_tasks == 0 && r.ready_queue_depth == 0 && r.completed_tasks == 0,
            r.last_fairness_check == 0,
    {
        ExecutorBook {
            entries: Vec::new(),
            active_tasks: 0,
            sleeping_tasks: 0,
            ready_queue_depth: 0,
            completed_tasks: 0,
            last_fairness_check: 0,
        }
    }

    fn find(&self, id: u64) -> (r: Option<usize>)
        requires
            self.wf(),
        ensures
            match r {
                Some(i) => entry_index(self.registry(), id) == Some(i as int),
                None => entry_index(self.registry(), id) is None,
            },
    {
        let mut i: usize = 0;
        while i < self.entries.len()
            invariant
                ids_unique(self.entries@),
                i <= self.entries@.len(),
                forall|j: int| 0 <= j < i ==> (#[trigger] self.entries@[j]).id != id,
            decreases self.entries@.len() - i,
        {
            if self.entries[i].id == id {
                proof {
                    let c = choose|c: int| 0 <= c < self.entries@.len() && (#[trigger] self.entries@[c]).id == id;
                    assert(self.entries@[i as int].id == id);
                    if c != i {
                        if c < i {
                            assert(self.entries@[c].id != self.entries@[i as int].id);
                        } else {
                            assert(self.entries@[i as int].id != self.entries@[c].id);
                        }
                    }
                }
                return Some(i);
            }
            i = i + 1;
        }
        None
    }

    /// Registers a spawned task (replacing an entry with the same id) and counts it
    /// as active; `queue_len` is the ready queue's length after the task was queued.
    pub fn spawn(&mut self, id: TaskId, name: &'static str, created_tick: u64, state: TaskState, queue_len: usize)
        requires
            old(self).wf(),
        ensures
            final(self).wf(),
            final(self).active_tasks == wrap_add(old(self).active_tasks, 1),
            final(self).ready_queue_depth == queue_len,
            final(self).sleeping_tasks == old(self).sleeping_tasks,
            final(self).completed_tasks == old(self).completed_tasks,
            ({
                let e = RegistryEntry { id: id.0, name, state, created_tick, state_since_tick: created_tick };
                match entry_index(old(self).registry(), id.0) {
                    Some(i) => final(self).registry() == old(self).registry().update(i, e),
                    None => final(self).registry() == old(self).registry().push(e),
                }
            }),
    {
        let e = RegistryEntry { id: id.0, name, state, created_tick, state_since_tick: created_tick };
        match self.find(id.0) {
            Some(i) => {
                self.entries.set(i, e);
                assert forall|a: int, b: int| 0 <= a < b < self.entries@.len() implies (#[trigger] self.entries@[a]).id
                    != (#[trigger] self.entries@[b]).id by {
                    if a != i && b != i {
                        assert(self.entries@[a] == old(self).entries@[a]);
                        assert(self.entries@[b] == old(self).entries@[b]);
                    } else if a == i {
                        assert(self.entries@[b] == old(self).entries@[b]);
                        assert(old(self).entries@[i as int].id == id.0);
                    } else {
                        assert(self.entries@[a] == old(self).entries@[a]);
                        assert(old(self).entries@[i as int].id == id.0);
                    }
                }
            },
            None => {
                self.entries.push(e);
                assert forall|a: int, b: int| 0 <= a < b < self.entries@.len() implies (#[trigger] self.entries@[a]).id
                    != (#[trigger] self.entries@[b]).id by {
                    assert(self.entries@[a] == old(self).entries@[a]);
                    if b < old(self).entries@.len() {
                        assert(self.entries@[b] == old(self).entries@[b]);
                    }
                }
            },
        }
        self.active_tasks = self.active_tasks.wrapping_add(1);
        self.ready_queue_depth = queue_len;
    }

    /// Marks task `id` ready at tick `now` before it is polled; a task that was
    /// sleeping stops counting as sleeping.
    pub fn begin_poll(&mut self, id: TaskId, was_sleeping: bool, now: u64)
        requires
            old(self).wf(),
        ensures
            final(self).wf(),
            final(self).sleeping_tasks == if was_sleeping {
                wrap_add(old(self).sleeping_tasks, -1)
            } else {
                old(self).sleeping_tasks
            },
            final(self).active_tasks == old(self).active_tasks,
            final(self).completed_tasks == old(self).completed_tasks,
            final(self).registry() == match entry_index(old(self).registry(), id.0) {
                Some(i) => old(self).registry().update(
                    i,
                    RegistryEntry { state: TaskState::Ready, state_since_tick: now, ..old(self).registry()[i] },
                ),
                None => old(self).registry(),
            },
    {
        if was_sleeping {
            self.sleeping_tasks = self.sleeping_tasks.wrapping_sub(1);
        }
        self.set_entry_state(id, TaskState::Ready, now);
    }

    fn set_entry_state(&mut self, id: TaskId, state: TaskState, now: u64)
        requires
            old(self).wf(),
        ensures
            final(self).wf(),
            final(self).active_tasks == old(self).active_tasks,
            final(self).sleeping_tasks == old(self).sleeping_tasks,
            final(self).completed_tasks == old(self).completed_tasks,
            final(self).ready_queue_depth == old(self).ready_queue_depth,
            final(self).last_fairness_check == old(self).last_fairness_check,
            final(self).registry() == match entry_index(old(self).registry(), id.0) {
                Some(i) => old(self).registry().update(
                    i,
                    RegistryEntry { state, state_since_tick: now, ..old(self).registry()[i] },
                ),
                None => old(self).registry(),
            },
    {
        if let Some(i) = self.find(id.0) {
            let e = self.entries[i];
            self.entries.set(i, RegistryEntry { state, state_since_tick: now, ..e });
            assert forall|a: int, b: int| 0 <= a < b < self.entries@.len() implies (#[trigger] self.entries@[a]).id
                != (#[trigger] self.entries@[b]).id by {
                assert(self.entries@[a].id == old(self).entries@[a].id);
                assert(self.entries@[b].id == old(self).entries@[b].id);
            }
        }
    }

    /// Records the outcome of polling task `id` at tick `now`: a finished task leaves
    /// the registry and counts as completed; a pending one sleeps.
    pub fn finish_poll(&mut self, id: TaskId, finished: bool, now: u64)
        requires
            old(self).wf(),
        ensures
            final(self).wf(),
            final(self).ready_queue_depth == old(self).ready_queue_depth,
            final(self).last_fairness_check == old(self).last_fairness_check,
            finished ==> final(self).active_tasks == wrap_add(old(self).active_tasks, -1)
                && final(self).completed_tasks == wrap_add(old(self).completed_tasks, 1)
                && final(self).sleeping_tasks == old(self).sleeping_tasks
                && (forall|j: int| 0 <= j < final(self).registry().len() ==> (#[trigger] final(self).registry()[j]).id != id.0)
                && final(self).registry() == match entry_index(old(self).registry(), id.0) {
                Some(i) => old(self).registry().remove(i),
                None => old(self).registry(),
            },
            !finished ==> final(self).sleeping_tasks == wrap_add(old(self).sleeping_tasks, 1)
                && final(self).active_tasks == old(self).active_tasks
                && final(self).completed_tasks == old(self).completed_tasks
                && final(self).registry() == match entry_index(old(self).registry(), id.0) {
                Some(i) => old(self).registry().update(
                    i,
                    RegistryEntry { state: TaskState::Sleeping, state_since_tick: now, ..old(self).registry()[i] },
                ),
                None => old(self).registry(),
            },
    {
        if finished {
            match self.find(id.0) {
                Some(i) => {
                    let ghost before = self.entries@;
                    let _ = self.entries.remove(i);
                    assert forall|a: int, b: int| 0 <= a < b < self.entries@.len() implies (#[trigger] self.entries@[a]).id
                        != (#[trigger] self.entries@[b]).id by {
                        let a0 = if a < i { a } else { a + 1 };
                        let b0 = if b < i { b } else { b + 1 };
                        assert(self.entries@[a] == before[a0]);
                        assert(self.entries@[b] == before[b0]);
                    }
                    assert forall|j: int| 0 <= j < self.entries@.len() implies (#[trigger] self.entries@[j]).id != id.0 by {
                        let j0 = if j < i { j } else { j + 1 };
                        assert(self.entries@[j] == before[j0]);
                        assert(before[i as int].id == id.0);
                    }
                },
                None => {},
            }
            self.active_tasks = self.active_tasks.wrapping_sub(1);
            self.completed_tasks = self.completed_tasks.wrapping_add(1);
        } else {
            self.set_entry_state(id, TaskState::Sleeping, now);
            self.sleeping_tasks = self.sleeping_tasks.wrapping_add(1);
        }
    }

    /// Records the ready queue's length.
    pub fn set_ready_queue_depth(&mut self, queue_len: usize)
        ensures
            final(self).ready_queue_depth == queue_len,
            final(self).registry() == old(self).registry(),
            final(self).wf() == old(self).wf(),
    {
        self.ready_queue_depth = queue_len;
    }

    /// Fairness checkpoint after a poll at tick `now`: once per interval, the run of
    /// ready tasks yields to other work when more tasks are queued. Returns whether to
    /// stop the run.
    pub fn fairness_checkpoint(&mut self, now: u64, queue_empty: bool) -> (r: bool)
        ensures
            ({
                let due = sat_sub(now, old(self).last_fairness_check) >= FAIRNESS_CHECK_INTERVAL_TICKS;
                &&& r == (due && !queue_empty)
                &&& final(self).last_fairness_check == if due { now } else { old(self).last_fairness_check }
            }),
            final(self).registry() == old(self).registry(),
            final(self).wf() == old(self).wf(),
            final(self).active_tasks == old(self).active_tasks,
            final(self).sleeping_tasks == old(self).sleeping_tasks,
            final(self).completed_tasks == old(self).completed_tasks,
    {
        if now.saturating_sub(self.last_fairness_check) >= FAIRNESS_CHECK_INTERVAL_TICKS {
            self.last_fairness_check = now;
            return !queue_empty;
        }
        false
    }
}

/// The executor-wide counters.
pub fn system_stats(book: &ExecutorBook) -> (r: ExecutorStats)
    ensures
        r == (ExecutorStats {
            active_tasks: book.active_tasks,
            sleeping_tasks: book.sleeping_tasks,
            ready_queue_depth: book.ready_queue_depth,
            completed_tasks: book.completed_tasks,
        }),
{
    ExecutorStats {
        active_tasks: book.active_tasks,
        sleeping_tasks: book.sleeping_tasks,
        ready_queue_depth: book.ready_queue_depth,
        completed_tasks: book.completed_tasks,
    }
}

/// Snapshots of the registered tasks at tick `now`, in registration order.
pub fn system_task_snapshots(book: &ExecutorBook, now: u64) -> (r: Vec<TaskSnapshot>)
    ensures
        r@.len() == book.registry().len(),
        forall|i: int|
            0 <= i < r@.len() ==> ((#[trigger] r@[i]).id, r@[i].name, r@[i].state, r@[i].age_ticks, r@[i].state_age_ticks)
                == snapshot_of(book.registry()[i], now),
{
    let mut out: Vec<TaskSnapshot> = Vec::new();
    let mut i: usize = 0;
    while i < book.entries.len()
        invariant
            i <= book.entries@.len(),
            out@.len() == i,
            forall|j: int|
                0 <= j < i ==> ((#[trigger] out@[j]).id, out@[j].name, out@[j].state, out@[j].age_ticks, out@[j].state_age_ticks)
                    == snapshot_of(book.entries@[j], now),
        decreases book.entries@.len() - i,
    {
        let e = book.entries[i];
        out.push(TaskSnapshot {
            id: e.id,
            name: e.name,
            state: e.state,
            age_ticks: now.saturating_sub(e.created_tick),
            state_age_ticks: now.saturating_sub(e.state_since_tick),
        });
        i = i + 1;
    }
    out
}

} // verus!
