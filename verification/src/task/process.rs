//! Processes and the process registry: identification, lifecycle state and
//! per-process accounting.

use vstd::prelude::*;
use std::collections::BTreeMap;
use vstd::std_specs::btree::{increasing_seq, spec_btree_map_iter};
use vstd::std_specs::cmp::OrdSpec;
use vstd::std_specs::iter::IteratorSpec;
use crate::performance::process_metrics::{
    EventLog, EventLogEntry, EventType, ProcessMetricsGlobal, log_event, pushed_events, wrapping_inc,
};

verus! {

/// Process identifier: unique per-process handle.
#[derive(Debug, Clone, Copy, PartialEq, Eq, Structural)]
pub struct ProcessId(pub u64);

impl ProcessId {
    /// Create a new PID from a raw value.
    pub fn from_raw(id: u64) -> (r: Self)
        ensures
            r.0 == id,
    {
        ProcessId(id)
    }

    /// Get the raw numeric PID.
    pub fn as_u64(self) -> (r: u64)
        ensures
            r == self.0,
    {
        self.0
    }
}

/// Process state machine.
#[derive(Debug, Clone, Copy, PartialEq, Eq, Structural)]
pub enum ProcessState {
    /// Process is newly created, not yet scheduled.
    New,
    /// Process is ready to run.
    Ready,
    /// Process is currently executing on CPU.
    Running,
    /// Process is blocked waiting for I/O or other event.
    Blocked,
    /// Process has terminated.
    Terminated,
}

impl ProcessState {
    pub open spec fn runnable(self) -> bool {
        self is Ready || self is Running
    }

    /// Check if the process can be scheduled.
    pub fn is_runnable(self) -> (r: bool)
        ensures
            r == self.runnable(),
    {
        match self {
            ProcessState::Ready | ProcessState::Running => true,
            _ => false,
        }
    }
}

/// What is known of a process: the fields of [`Process`].
pub struct ProcessView {
    pub id: ProcessId,
    pub name: &'static str,
    pub state: ProcessState,
    pub exit_code: Option<i32>,
    pub created_tick: u64,
    pub cpu_ticks: u64,
    pub switches: u64,
    pub parent_pid: Option<ProcessId>,
}

pub open spec fn sat_add(a: u64, b: u64) -> u64 {
    if a + b > u64::MAX {
        u64::MAX
    } else {
        (a + b) as u64
    }
}

/// Process metadata and lifecycle tracking.
#[derive(Debug, Clone)]
pub struct Process {
    id: ProcessId,
    name: &'static str,
    state: ProcessState,
    exit_code: Option<i32>,
    created_tick: u64,
    cpu_ticks: u64,
    switches: u64,
    parent_pid: Option<ProcessId>,
}

impl View for Process {
    type V = ProcessView;

    closed spec fn view(&self) -> ProcessView {
        ProcessView {
            id: self.id,
            name: self.name,
            state: self.state,
            exit_code: self.exit_code,
            created_tick: self.created_tick,
            cpu_ticks: self.cpu_ticks,
            switches: self.switches,
            parent_pid: self.parent_pid,
        }
    }
}

/// A freshly created process.
pub open spec fn new_process_view(id: ProcessId, name: &'static str, created_tick: u64) -> ProcessView {
    ProcessView {
        id,
        name,
        state: ProcessState::New,
        exit_code: None,
        created_tick,
        cpu_ticks: 0,
        switches: 0,
        parent_pid: None,
    }
}

impl Process {
    /// Create a new process with the given name.
    pub fn new(id: ProcessId, name: &'static str, created_tick: u64) -> (r: Self)
        ensures
            r@ == new_process_view(id, name, created_tick),
    {
        Process {
            id,
            name,
            state: ProcessState::New,
            exit_code: None,
            created_tick,
            cpu_ticks: 0,
            switches: 0,
            parent_pid: None,
        }
    }

    fn duplicate(&self) -> (r: Process)
        ensures
            r@ == self@,
    {
        Process {
            id: self.id,
            name: self.name,
            state: self.state,
            exit_code: self.exit_code,
            created_tick: self.created_tick,
            cpu_ticks: self.cpu_ticks,
            switches: self.switches,
            parent_pid: self.parent_pid,
        }
    }

    pub fn id(&self) -> (r: ProcessId)
        ensures
            r == self@.id,
    {
        self.id
    }

    pub fn name(&self) -> (r: &'static str)
        ensures
            r == self@.name,
    {
        self.name
    }

    pub fn state(&self) -> (r: ProcessState)
        ensures
            r == self@.state,
    {
        self.state
    }

    pub fn set_state(&mut self, state: ProcessState)
        ensures
            final(self)@ == (ProcessView { state, ..old(self)@ }),
    {
        self.state = state;
    }

    pub fn exit_code(&self) -> (r: Option<i32>)
        ensures
            r == self@.exit_code,
    {
        self.exit_code
    }

    pub fn exit_with_code(&mut self, code: i32)
        ensures
            final(self)@ == (ProcessView {
                exit_code: Some(code),
                state: ProcessState::Terminated,
                ..old(self)@
            }),
    {
        self.exit_code = Some(code);
        self.state = ProcessState::Terminated;
    }

    pub fn created_tick(&self) -> (r: u64)
        ensures
            r == self@.created_tick,
    {
        self.created_tick
    }

    pub fn cpu_ticks(&self) -> (r: u64)
        ensures
            r == self@.cpu_ticks,
    {
        self.cpu_ticks
    }

    pub fn add_cpu_ticks(&mut self, ticks: u64)
        ensures
            final(self)@ == (ProcessView { cpu_ticks: sat_add(old(self)@.cpu_ticks, ticks), ..old(self)@ }),
    {
        self.cpu_ticks = self.cpu_ticks.saturating_add(ticks);
    }

    pub fn switches(&self) -> (r: u64)
        ensures
            r == self@.switches,
    {
        self.switches
    }

    pub fn record_switch(&mut self)
        ensures
            final(self)@ == (ProcessView { switches: sat_add(old(self)@.switches, 1), ..old(self)@ }),
    {
        self.switches = self.switches.saturating_add(1);
    }

    pub fn parent_pid(&self) -> (r: Option<ProcessId>)
        ensures
            r == self@.parent_pid,
    {
        self.parent_pid
    }

    pub fn set_parent(&mut self, parent_pid: ProcessId)
        ensures
            final(self)@ == (ProcessView { parent_pid: Some(parent_pid), ..old(self)@ }),
    {
        self.parent_pid = Some(parent_pid);
    }
}

/// Capacity of the process table.
pub const MAX_PROCESSES: usize = 256;

/// Index of the process with id `pid` in `procs`, if any.
pub open spec fn index_of(procs: Seq<ProcessView>, pid: ProcessId) -> Option<int> {
    if exists|i: int| 0 <= i < procs.len() && (#[trigger] procs[i]).id == pid {
        Some(choose|i: int| 0 <= i < procs.len() && (#[trigger] procs[i]).id == pid)
    } else {
        None
    }
}

/// Ids strictly increase along the table.
pub open spec fn ids_ascending(procs: Seq<ProcessView>) -> bool {
    forall|i: int, j: int| 0 <= i < j < procs.len() ==> (#[trigger] procs[i]).id.0 < (#[trigger] procs[j]).id.0
}

/// Applies `f` to the process `pid`, if it is present.
pub open spec fn update_process(
    procs: Seq<ProcessView>,
    pid: ProcessId,
    f: spec_fn(ProcessView) -> ProcessView,
) -> Seq<ProcessView> {
    match index_of(procs, pid) {
        Some(i) => procs.update(i, f(procs[i])),
        None => procs,
    }
}

/// Ids of runnable processes, in table order.
pub open spec fn runnable_ids(procs: Seq<ProcessView>) -> Seq<ProcessId>
    decreases procs.len(),
{
    if procs.len() == 0 {
        Seq::empty()
    } else {
        runnable_ids(procs.drop_last()) + if procs.last().state.runnable() {
            seq![procs.last().id]
        } else {
            Seq::empty()
        }
    }
}

/// `pid` names a runnable process of `procs`.
pub open spec fn runnable_in(procs: Seq<ProcessView>, pid: ProcessId) -> bool {
    exists|i: int| 0 <= i < procs.len() && (#[trigger] procs[i]).id == pid && procs[i].state.runnable()
}

/// The runnable ids of a table whose ids ascend: each is the id of a runnable
/// process of the table, every runnable process's id is among them, and they
/// strictly ascend.
pub proof fn lemma_runnable_ids(procs: Seq<ProcessView>)
    requires
        ids_ascending(procs),
    ensures
        forall|k: int| 0 <= k < runnable_ids(procs).len() ==> runnable_in(procs, #[trigger] runnable_ids(procs)[k]),
        forall|i: int|
            0 <= i < procs.len() && (#[trigger] procs[i]).state.runnable() ==> runnable_ids(procs).contains(procs[i].id),
        forall|a: int, b: int|
            0 <= a < b < runnable_ids(procs).len() ==> (#[trigger] runnable_ids(procs)[a]).0
                < (#[trigger] runnable_ids(procs)[b]).0,
    decreases procs.len(),
{
    if procs.len() > 0 {
        let d = procs.drop_last();
        assert(ids_ascending(d)) by {
            assert forall|i: int, j: int| 0 <= i < j < d.len() implies (#[trigger] d[i]).id.0 < (#[trigger] d[j]).id.0 by {
                assert(d[i] == procs[i] && d[j] == procs[j]);
            }
        }
        lemma_runnable_ids(d);
        let rd = runnable_ids(d);
        let r = runnable_ids(procs);
        let last = procs.len() - 1;
        assert(procs.last() == procs[last]);
        assert forall|k: int| 0 <= k < rd.len() implies runnable_in(procs, #[trigger] rd[k]) && rd[k].0
            < procs[last].id.0 by {
            assert(runnable_in(d, rd[k]));
            let i = choose|i: int| 0 <= i < d.len() && (#[trigger] d[i]).id == rd[k] && d[i].state.runnable();
            assert(procs[i] == d[i]);
        }
        if procs.last().state.runnable() {
            assert(r =~= rd.push(procs.last().id));
            assert(r[rd.len() as int] == procs[last].id);
            assert(runnable_in(procs, procs[last].id));
        } else {
            assert(r =~= rd);
        }
        assert forall|k: int| 0 <= k < r.len() implies runnable_in(procs, #[trigger] r[k]) by {
            if k < rd.len() {
                assert(r[k] == rd[k]);
            }
        }
        assert forall|i: int| 0 <= i < procs.len() && (#[trigger] procs[i]).state.runnable() implies r.contains(
            procs[i].id,
        ) by {
            if i < last {
                assert(d[i] == procs[i]);
                assert(rd.contains(d[i].id));
                let k = choose|k: int| 0 <= k < rd.len() && rd[k] == d[i].id;
                assert(r[k] == rd[k]);
            } else {
                assert(r[rd.len() as int] == procs[i].id);
            }
        }
        assert forall|a: int, b: int| 0 <= a < b < r.len() implies (#[trigger] r[a]).0 < (#[trigger] r[b]).0 by {
            if b < rd.len() {
                assert(r[a] == rd[a] && r[b] == rd[b]);
            } else {
                assert(r[a] == rd[a]);
            }
        }
    }
}

/// The processes that have not terminated, in table order.
pub open spec fn live_processes(procs: Seq<ProcessView>) -> Seq<ProcessView>
    decreases procs.len(),
{
    if procs.len() == 0 {
        Seq::empty()
    } else {
        live_processes(procs.drop_last()) + if procs.last().state is Terminated {
            Seq::empty()
        } else {
            seq![procs.last()]
        }
    }
}

/// Telemetry row of one process.
pub open spec fn summary_row(p: ProcessView) -> (ProcessId, &'static str, ProcessState, u64) {
    (p.id, p.name, p.state, p.cpu_ticks)
}

/// The table after a successful creation of process `pid`.
pub open spec fn created_table(procs: Seq<ProcessView>, p: ProcessView) -> Seq<ProcessView> {
    if procs.len() > 0 && procs.last().id == p.id {
        procs.update(procs.len() - 1, p)
    } else {
        procs.push(p)
    }
}

pub open spec fn next_pid_after(pid: u64) -> u64 {
    if pid == u64::MAX {
        pid
    } else {
        (pid + 1) as u64
    }
}

/// Each process of `t` is stored in `m` under its id, and `m` stores nothing else.
pub open spec fn table_matches(m: Map<u64, Process>, t: Seq<ProcessView>) -> bool {
    &&& forall|i: int| 0 <= i < t.len() ==> m.contains_key((#[trigger] t[i]).id.0) && m[t[i].id.0]@ == t[i]
    &&& forall|k: u64| #[trigger] m.contains_key(k) ==> exists|i: int| 0 <= i < t.len() && (#[trigger] t[i]).id.0 == k
}

/// The ids of a table, in table order.
pub open spec fn table_ids(t: Seq<ProcessView>) -> Seq<u64> {
    t.map_values(|p: ProcessView| p.id.0)
}

/// Strictly increasing keys.
pub open spec fn keys_ascending(s: Seq<u64>) -> bool {
    forall|i: int, j: int| 0 <= i < j < s.len() ==> #[trigger] s[i] < #[trigger] s[j]
}

/// A sequence of keys that the ordered map's iterator calls increasing is strictly
/// increasing.
proof fn lemma_keys_ascending(s: Seq<u64>)
    requires
        increasing_seq(s),
    ensures
        keys_ascending(s),
{
    assert forall|i: int, j: int| 0 <= i < j < s.len() implies #[trigger] s[i] < #[trigger] s[j] by {
        assert(s[i].cmp_spec(&s[j]) is Less);
    }
}

/// Two strictly increasing key sequences with the same keys are equal.
proof fn lemma_ascending_unique(s: Seq<u64>, u: Seq<u64>)
    requires
        keys_ascending(s),
        keys_ascending(u),
        s.to_set() == u.to_set(),
    ensures
        s == u,
    decreases s.len(),
{
    if s.len() == 0 {
        if u.len() > 0 {
            assert(u.to_set().contains(u[0]));
        }
        assert(s =~= u);
    } else {
        if u.len() == 0 {
            assert(s.to_set().contains(s[0]));
        }
        let a = s.last();
        let b = u.last();
        assert(s.to_set().contains(a));
        assert(u.to_set().contains(b));
        let ia = choose|i: int| 0 <= i < u.len() && u[i] == a;
        let ib = choose|i: int| 0 <= i < s.len() && s[i] == b;
        assert(a == b) by {
            if ia < u.len() - 1 {
                assert(u[ia] < u[u.len() - 1]);
            }
            if ib < s.len() - 1 {
                assert(s[ib] < s[s.len() - 1]);
            }
        }
        let sd = s.drop_last();
        let ud = u.drop_last();
        assert forall|x: u64| sd.to_set().contains(x) <==> ud.to_set().contains(x) by {
            if sd.to_set().contains(x) {
                let i = choose|i: int| 0 <= i < sd.len() && sd[i] == x;
                assert(s[i] < s[s.len() - 1]);
                assert(s.to_set().contains(x));
                let j = choose|j: int| 0 <= j < u.len() && u[j] == x;
                assert(j != u.len() - 1);
                assert(ud[j] == x);
            }
            if ud.to_set().contains(x) {
                let i = choose|i: int| 0 <= i < ud.len() && ud[i] == x;
                assert(u[i] < u[u.len() - 1]);
                assert(u.to_set().contains(x));
                let j = choose|j: int| 0 <= j < s.len() && s[j] == x;
                assert(j != s.len() - 1);
                assert(sd[j] == x);
            }
        }
        assert(sd.to_set() =~= ud.to_set());
        lemma_ascending_unique(sd, ud);
        assert(s =~= sd.push(a));
        assert(u =~= ud.push(b));
    }
}

/// The ids of a table whose ids ascend are strictly increasing, and the map that
/// matches the table holds exactly those keys, as many as the table has entries.
proof fn lemma_table_keys(m: Map<u64, Process>, t: Seq<ProcessView>)
    requires
        table_matches(m, t),
        ids_ascending(t),
        m.dom().finite(),
    ensures
        keys_ascending(table_ids(t)),
        table_ids(t).to_set() == m.dom(),
        m.len() == t.len(),
{
    let ids = table_ids(t);
    assert forall|i: int, j: int| 0 <= i < j < ids.len() implies #[trigger] ids[i] < #[trigger] ids[j] by {
        assert(t[i].id.0 < t[j].id.0);
    }
    assert forall|k: u64| ids.to_set().contains(k) <==> m.dom().contains(k) by {
        if ids.to_set().contains(k) {
            let i = choose|i: int| 0 <= i < ids.len() && ids[i] == k;
            assert(m.contains_key(t[i].id.0));
        }
        if m.dom().contains(k) {
            assert(m.contains_key(k));
            let i = choose|i: int| 0 <= i < t.len() && (#[trigger] t[i]).id.0 == k;
            assert(ids[i] == k);
        }
    }
    assert(ids.to_set() =~= m.dom());
    assert(ids.no_duplicates()) by {
        assert forall|i: int, j: int| 0 <= i < ids.len() && 0 <= j < ids.len() && i != j implies ids[i] != ids[j] by {
            if i < j {
                assert(ids[i] < ids[j]);
            } else {
                assert(ids[j] < ids[i]);
            }
        }
    }
    ids.unique_seq_to_set();
}

/// Global process registry: processes ordered by id.
pub struct ProcessRegistry {
    next_pid: u64,
    processes: BTreeMap<u64, Process>,
    max_processes: usize,
    table: Ghost<Seq<ProcessView>>,
}

impl ProcessRegistry {
    /// The processes, in ascending id order.
    pub closed spec fn procs(&self) -> Seq<ProcessView> {
        self.table@
    }

    /// The id the next created process receives.
    pub closed spec fn next_pid(&self) -> u64 {
        self.next_pid
    }

    pub closed spec fn wf(&self) -> bool {
        &&& self.max_processes == MAX_PROCESSES
        &&& self.table@.len() <= MAX_PROCESSES
        &&& self.next_pid >= 1
        &&& ids_ascending(self.table@)
        &&& forall|i: int|
            0 <= i < self.table@.len() ==> 1 <= (#[trigger] self.table@[i]).id.0 <= self.next_pid
                && (self.table@[i].id.0 == self.next_pid ==> self.next_pid == u64::MAX)
        &&& table_matches(self.processes@, self.table@)
    }

    pub fn new() -> (r: Self)
        ensures
            r.wf(),
            r.procs() == Seq::<ProcessView>::empty(),
            r.next_pid() == 1,
    {
        ProcessRegistry {
            next_pid: 1,
            processes: BTreeMap::new(),
            max_processes: MAX_PROCESSES,
            table: Ghost(Seq::empty()),
        }
    }

    proof fn lemma_index(&self, i: int)
        requires
            self.wf(),
            0 <= i < self.procs().len(),
        ensures
            index_of(self.procs(), self.procs()[i].id) == Some(i),
    {
        let procs = self.procs();
        let pid = procs[i].id;
        assert(procs[i].id == pid);
        let j = choose|j: int| 0 <= j < procs.len() && (#[trigger] procs[j]).id == pid;
        if j != i {
            if j < i {
                assert(procs[j].id.0 < procs[i].id.0);
            } else {
                assert(procs[i].id.0 < procs[j].id.0);
            }
        }
    }

    /// The registered process `pid` and its place in the table, if registered.
    proof fn lemma_lookup(&self, pid: ProcessId)
        requires
            self.wf(),
        ensures
            self.processes@.contains_key(pid.0) <==> index_of(self.procs(), pid) is Some,
            index_of(self.procs(), pid) matches Some(i) ==> 0 <= i < self.procs().len() && self.procs()[i].id == pid
                && self.processes@[pid.0]@ == self.procs()[i],
    {
        let t = self.procs();
        if self.processes@.contains_key(pid.0) {
            let i = choose|i: int| 0 <= i < t.len() && (#[trigger] t[i]).id.0 == pid.0;
            assert(t[i].id == pid);
            self.lemma_index(i);
        }
        if index_of(t, pid) is Some {
            let i = choose|i: int| 0 <= i < t.len() && (#[trigger] t[i]).id == pid;
            self.lemma_index(i);
            assert(self.processes@.contains_key(t[i].id.0));
        }
    }

    /// The registered ids, in ascending order.
    fn ids_in_order(&self) -> (r: Vec<u64>)
        requires
            self.wf(),
        ensures
            r@ == table_ids(self.procs()),
    {
        let mut out: Vec<u64> = Vec::new();
        for kv in it: self.processes.iter()
            invariant
                out@.len() == it.index(),
                it.seq() == spec_btree_map_iter(&self.processes).remaining(),
                forall|i: int| 0 <= i < it.index() ==> out@[i] == *spec_btree_map_iter(&self.processes).remaining()[i].0,
        {
            let (k, _p) = kv;
            out.push(*k);
        }
        proof {
            let s = spec_btree_map_iter(&self.processes).remaining();
            let ks = s.map_values(|kv: (&u64, &Process)| *kv.0);
            assert(out@ =~= ks);
            lemma_keys_ascending(ks);
            assert forall|k: u64| ks.to_set().contains(k) <==> self.processes@.dom().contains(k) by {
                if self.processes@.dom().contains(k) {
                    assert(self.processes@.contains_key(k));
                    assert(s.contains((&k, &self.processes@[k])));
                    let i = choose|i: int| 0 <= i < s.len() && s[i] == (&k, &self.processes@[k]);
                    assert(ks[i] == k);
                }
                if ks.to_set().contains(k) {
                    let i = choose|i: int| 0 <= i < ks.len() && ks[i] == k;
                    assert(self.processes@.contains_key(*s[i].0));
                }
            }
            assert(ks.to_set() =~= self.processes@.dom());
            lemma_table_keys(self.processes@, self.procs());
            lemma_ascending_unique(ks, table_ids(self.procs()));
        }
        out
    }

    /// Create and register a new process; `None` when the table is full.
    pub fn create_process(&mut self, name: &'static str, created_tick: u64) -> (r: Option<ProcessId>)
        requires
            old(self).wf(),
        ensures
            final(self).wf(),
            old(self).procs().len() >= MAX_PROCESSES ==> r is None && *final(self) == *old(self),
            old(self).procs().len() < MAX_PROCESSES ==> {
                let pid = ProcessId(old(self).next_pid());
                &&& r == Some(pid)
                &&& final(self).procs() == created_table(
                    old(self).procs(),
                    new_process_view(pid, name, created_tick),
                )
                &&& final(self).next_pid() == next_pid_after(old(self).next_pid())
            },
            old(self).procs().len() < MAX_PROCESSES && old(self).next_pid() < u64::MAX ==> {
                &&& final(self).procs() == old(self).procs().push(
                    new_process_view(ProcessId(old(self).next_pid()), name, created_tick),
                )
                &&& forall|j: int|
                    0 <= j < old(self).procs().len() ==> (#[trigger] old(self).procs()[j]).id.0 < old(self).next_pid()
            },
    {
        proof {
            lemma_id_bounds(*old(self));
            lemma_table_keys(self.processes@, self.procs());
        }
        if self.processes.len() >= self.max_processes {
            return None;
        }
        let pid = ProcessId::from_raw(self.next_pid);
        let ghost before = self.procs();
        let ghost old_map = self.processes@;
        self.next_pid = self.next_pid.saturating_add(1);
        let process = Process::new(pid, name, created_tick);
        let ghost np = process@;
        self.processes.insert(pid.0, process);
        let ghost n = before.len() as int;
        proof {
            self.table@ = created_table(before, np);
            let t = self.table@;
            let m = self.processes@;
            assert(m == old_map.insert(pid.0, process));
            if n > 0 && before.last().id == pid {
                assert(t =~= before.update(n - 1, np));
            } else {
                assert(t =~= before.push(np));
                if n > 0 {
                    assert(before[n - 1].id.0 <= pid.0);
                }
            }
            assert forall|i: int, j: int| 0 <= i < j < t.len() implies (#[trigger] t[i]).id.0 < (#[trigger] t[j]).id.0 by {
                if j == n || (j == n - 1 && t.len() == n) {
                    assert(before[i].id.0 <= pid.0);
                    if before[i].id.0 == pid.0 {
                        assert(before[i].id.0 < before[n - 1].id.0 || i == n - 1);
                    }
                } else {
                    assert(t[i] == before[i]);
                    assert(t[j] == before[j]);
                }
            }
            assert forall|i: int| 0 <= i < t.len() implies m.contains_key((#[trigger] t[i]).id.0) && m[t[i].id.0]@ == t[i] by {
                if t[i].id == pid {
                    assert(t[i] == np);
                } else {
                    assert(t[i] == before[i]);
                    assert(before[i].id.0 != pid.0);
                }
            }
            assert forall|k: u64| #[trigger] m.contains_key(k) implies exists|i: int| 0 <= i < t.len() && (#[trigger] t[i]).id.0 == k by {
                if k == pid.0 {
                    assert(t[t.len() - 1].id.0 == k);
                } else {
                    assert(old_map.contains_key(k));
                    let i = choose|i: int| 0 <= i < before.len() && (#[trigger] before[i]).id.0 == k;
                    assert(t[i] == before[i]);
                }
            }
        }
        Some(pid)
    }

    /// The process with id `pid`, if registered.
    pub fn get_process(&self, pid: ProcessId) -> (r: Option<&Process>)
        requires
            self.wf(),
        ensures
            match index_of(self.procs(), pid) {
                Some(i) => r is Some && r->Some_0@ == self.procs()[i],
                None => r is None,
            },
    {
        proof {
            self.lemma_lookup(pid);
        }
        self.processes.get(&pid.0)
    }

    /// Stores `p`, the process registered at `pid` with `f` applied, in the table.
    fn replace_process(&mut self, pid: ProcessId, p: Process, Ghost(f): Ghost<spec_fn(ProcessView) -> ProcessView>)
        requires
            old(self).wf(),
            index_of(old(self).procs(), pid) is Some,
            p@ == f(old(self).procs()[index_of(old(self).procs(), pid)->Some_0]),
            p@.id == pid,
        ensures
            final(self).wf(),
            final(self).next_pid() == old(self).next_pid(),
            final(self).procs() == update_process(old(self).procs(), pid, f),
    {
        proof {
            self.lemma_lookup(pid);
        }
        let ghost i = index_of(self.procs(), pid)->Some_0;
        let ghost before = self.procs();
        let ghost old_map = self.processes@;
        self.processes.insert(pid.0, p);
        proof {
            self.table@ = before.update(i, p@);
            let t = self.table@;
            let m = self.processes@;
            assert forall|a: int, b: int| 0 <= a < b < t.len() implies (#[trigger] t[a]).id.0 < (#[trigger] t[b]).id.0 by {
                assert(t[a].id == before[a].id && t[b].id == before[b].id);
            }
            assert forall|j: int| 0 <= j < t.len() implies 1 <= (#[trigger] t[j]).id.0 <= self.next_pid
                && (t[j].id.0 == self.next_pid ==> self.next_pid == u64::MAX) by {
                assert(t[j].id == before[j].id);
            }
            assert forall|j: int| 0 <= j < t.len() implies m.contains_key((#[trigger] t[j]).id.0) && m[t[j].id.0]@ == t[j] by {
                if j != i {
                    assert(t[j] == before[j]);
                    if before[j].id.0 == pid.0 {
                        assert(before[j].id.0 != before[i].id.0 || j == i) by {
                            if j < i {
                                assert(before[j].id.0 < before[i].id.0);
                            } else {
                                assert(before[i].id.0 < before[j].id.0);
                            }
                        }
                    }
                }
            }
            assert forall|k: u64| #[trigger] m.contains_key(k) implies exists|j: int| 0 <= j < t.len() && (#[trigger] t[j]).id.0 == k by {
                assert(old_map.contains_key(k));
                let j = choose|j: int| 0 <= j < before.len() && (#[trigger] before[j]).id.0 == k;
                assert(t[j].id == before[j].id);
            }
        }
    }

    /// Update process state; `false` when `pid` is unknown.
    pub fn set_process_state(&mut self, pid: ProcessId, state: ProcessState) -> (r: bool)
        requires
            old(self).wf(),
        ensures
            final(self).wf(),
            final(self).next_pid() == old(self).next_pid(),
            r == index_of(old(self).procs(), pid) is Some,
            final(self).procs() == update_process(
                old(self).procs(),
                pid,
                |p: ProcessView| ProcessView { state, ..p },
            ),
    {
        proof {
            self.lemma_lookup(pid);
        }
        let mut p = match self.processes.get(&pid.0) {
            Some(p) => p.duplicate(),
            None => return false,
        };
        p.set_state(state);
        self.replace_process(pid, p, Ghost(|p: ProcessView| ProcessView { state, ..p }));
        true
    }

    /// Record a context switch for a process; `false` when `pid` is unknown.
    pub fn record_context_switch(&mut self, pid: ProcessId) -> (r: bool)
        requires
            old(self).wf(),
        ensures
            final(self).wf(),
            final(self).next_pid() == old(self).next_pid(),
            r == index_of(old(self).procs(), pid) is Some,
            final(self).procs() == update_process(
                old(self).procs(),
                pid,
                |p: ProcessView| ProcessView { switches: sat_add(p.switches, 1), ..p },
            ),
    {
        proof {
            self.lemma_lookup(pid);
        }
        let mut p = match self.processes.get(&pid.0) {
            Some(p) => p.duplicate(),
            None => return false,
        };
        p.record_switch();
        self.replace_process(pid, p, Ghost(|p: ProcessView| ProcessView { switches: sat_add(p.switches, 1), ..p }));
        true
    }

    /// Update CPU ticks for a process; `false` when `pid` is unknown.
    pub fn add_cpu_ticks(&mut self, pid: ProcessId, ticks: u64) -> (r: bool)
        requires
            old(self).wf(),
        ensures
            final(self).wf(),
            final(self).next_pid() == old(self).next_pid(),
            r == index_of(old(self).procs(), pid) is Some,
            final(self).procs() == update_process(
                old(self).procs(),
                pid,
                |p: ProcessView| ProcessView { cpu_ticks: sat_add(p.cpu_ticks, ticks), ..p },
            ),
    {
        proof {
            self.lemma_lookup(pid);
        }
        let mut p = match self.processes.get(&pid.0) {
            Some(p) => p.duplicate(),
            None => return false,
        };
        p.add_cpu_ticks(ticks);
        self.replace_process(pid, p, Ghost(|p: ProcessView| ProcessView { cpu_ticks: sat_add(p.cpu_ticks, ticks), ..p }));
        true
    }

    /// Terminate a process with exit code; `false` when `pid` is unknown.
    pub fn terminate_process(&mut self, pid: ProcessId, exit_code: i32) -> (r: bool)
        requires
            old(self).wf(),
        ensures
            final(self).wf(),
            final(self).next_pid() == old(self).next_pid(),
            r == index_of(old(self).procs(), pid) is Some,
            final(self).procs() == update_process(
                old(self).procs(),
                pid,
                |p: ProcessView| ProcessView { exit_code: Some(exit_code), state: ProcessState::Terminated, ..p },
            ),
    {
        proof {
            self.lemma_lookup(pid);
        }
        let mut p = match self.processes.get(&pid.0) {
            Some(p) => p.duplicate(),
            None => return false,
        };
        p.exit_with_code(exit_code);
        self.replace_process(
            pid,
            p,
            Ghost(|p: ProcessView| ProcessView { exit_code: Some(exit_code), state: ProcessState::Terminated, ..p }),
        );
        true
    }

    /// Get all runnable processes, in ascending id order.
    pub fn ready_processes(&self) -> (r: Vec<ProcessId>)
        requires
            self.wf(),
        ensures
            r@ == runnable_ids(self.procs()),
            forall|a: int, b: int| 0 <= a < b < r@.len() ==> (#[trigger] r@[a]).0 < (#[trigger] r@[b]).0,
    {
        proof {
            lemma_id_bounds(*self);
            lemma_runnable_ids(self.procs());
        }
        let ids = self.ids_in_order();
        let ghost t = self.procs();
        let mut out: Vec<ProcessId> = Vec::new();
        let mut i: usize = 0;
        while i < ids.len()
            invariant
                self.wf(),
                t == self.procs(),
                ids@ == table_ids(t),
                i <= ids@.len(),
                out@ == runnable_ids(t.subrange(0, i as int)),
            decreases ids@.len() - i,
        {
            assert(t.subrange(0, i as int + 1).drop_last() =~= t.subrange(0, i as int));
            proof {
                let sub = t.subrange(0, i as int + 1);
                assert(sub.last() == t[i as int]);
                assert(self.processes@.contains_key(t[i as int].id.0));
            }
            match self.processes.get(&ids[i]) {
                Some(p) => {
                    if p.state().is_runnable() {
                        out.push(p.id());
                    }
                },
                None => {},
            }
            i = i + 1;
        }
        assert(t.subrange(0, i as int) =~= t);
        out
    }

    /// Get total process count.
    pub fn process_count(&self) -> (r: usize)
        requires
            self.wf(),
        ensures
            r == self.procs().len(),
    {
        proof {
            lemma_table_keys(self.processes@, self.procs());
        }
        self.processes.len()
    }

    /// Get snapshot of all processes.
    pub fn all_processes(&self) -> (r: Vec<(ProcessId, &'static str, ProcessState, u64)>)
        requires
            self.wf(),
        ensures
            r@ == self.procs().map_values(|p: ProcessView| summary_row(p)),
    {
        let ids = self.ids_in_order();
        let ghost t = self.procs();
        let mut out: Vec<(ProcessId, &'static str, ProcessState, u64)> = Vec::new();
        let mut i: usize = 0;
        while i < ids.len()
            invariant
                self.wf(),
                t == self.procs(),
                ids@ == table_ids(t),
                i <= ids@.len(),
                out@ == t.subrange(0, i as int).map_values(|p: ProcessView| summary_row(p)),
            decreases ids@.len() - i,
        {
            proof {
                assert(self.processes@.contains_key(t[i as int].id.0));
            }
            match self.processes.get(&ids[i]) {
                Some(p) => {
                    out.push((p.id(), p.name(), p.state(), p.cpu_ticks()));
                },
                None => {},
            }
            assert(out@ =~= t.subrange(0, i as int + 1).map_values(|p: ProcessView| summary_row(p)));
            i = i + 1;
        }
        assert(t.subrange(0, i as int) =~= t);
        out
    }

    /// Remove terminated processes; returns how many were removed.
    pub fn reap_terminated(&mut self) -> (r: u64)
        requires
            old(self).wf(),
        ensures
            final(self).wf(),
            final(self).next_pid() == old(self).next_pid(),
            final(self).procs() == live_processes(old(self).procs()),
            r == old(self).procs().len() - final(self).procs().len(),
    {
        let ghost before = self.procs();
        let ids = self.ids_in_order();
        let mut kept: BTreeMap<u64, Process> = BTreeMap::new();
        let ghost mut kept_table: Seq<ProcessView> = Seq::empty();
        let mut i: usize = 0;
        proof {
            lemma_live_subseq(before);
            lemma_id_bounds(*self);
        }
        while i < ids.len()
            invariant
                self.wf(),
                self.procs() == before,
                ids@ == table_ids(before),
                ids_ascending(before),
                i <= ids@.len(),
                kept_table == live_processes(before.subrange(0, i as int)),
                table_matches(kept@, kept_table),
                forall|j: int| 0 <= j < kept_table.len() ==> exists|a: int| 0 <= a < i && before[a] == #[trigger] kept_table[j],
            decreases ids@.len() - i,
        {
            assert(before.subrange(0, i as int + 1).drop_last() =~= before.subrange(0, i as int));
            proof {
                let sub = before.subrange(0, i as int + 1);
                assert(sub.last() == before[i as int]);
                assert(self.processes@.contains_key(before[i as int].id.0));
            }
            match self.processes.get(&ids[i]) {
                Some(p) => {
                    if !matches!(p.state(), ProcessState::Terminated) {
                        let q = p.duplicate();
                        let ghost old_kept = kept@;
                        let ghost prev = kept_table;
                        kept.insert(ids[i], q);
                        proof {
                            kept_table = prev.push(before[i as int]);
                            let m = kept@;
                            let cur = before[i as int];
                            assert forall|j: int| 0 <= j < kept_table.len() implies m.contains_key((#[trigger] kept_table[j]).id.0)
                                && m[kept_table[j].id.0]@ == kept_table[j] by {
                                if j < prev.len() {
                                    assert(kept_table[j] == prev[j]);
                                    let a = choose|a: int| 0 <= a < i && before[a] == prev[j];
                                    assert(before[a].id.0 < cur.id.0);
                                }
                            }
                            assert forall|k: u64| #[trigger] m.contains_key(k) implies exists|j: int|
                                0 <= j < kept_table.len() && (#[trigger] kept_table[j]).id.0 == k by {
                                if k == cur.id.0 {
                                    assert(kept_table[prev.len() as int].id.0 == k);
                                } else {
                                    assert(old_kept.contains_key(k));
                                    let j = choose|j: int| 0 <= j < prev.len() && (#[trigger] prev[j]).id.0 == k;
                                    assert(kept_table[j] == prev[j]);
                                }
                            }
                            assert forall|j: int| 0 <= j < kept_table.len() implies exists|a: int| 0 <= a < i + 1 && before[a] == #[trigger] kept_table[j] by {
                                if j < prev.len() {
                                    assert(kept_table[j] == prev[j]);
                                    let a = choose|a: int| 0 <= a < i && before[a] == prev[j];
                                } else {
                                    assert(kept_table[j] == before[i as int]);
                                }
                            }
                        }
                    }
                },
                None => {},
            }
            i = i + 1;
        }
        assert(before.subrange(0, i as int) =~= before);
        proof {
            lemma_table_keys(self.processes@, before);
            lemma_live_subseq(before);
            let l = live_processes(before);
            assert forall|a: int, b: int| 0 <= a < b < l.len() implies (#[trigger] l[a]).id.0 < (#[trigger] l[b]).id.0 by {
                let (x, y) = choose|x: int, y: int| 0 <= x < y < before.len() && before[x] == l[a] && before[y] == l[b];
            }
            lemma_table_keys(kept@, l);
        }
        let removed = self.processes.len() - kept.len();
        self.processes = kept;
        proof {
            self.table@ = kept_table;
            let l = live_processes(before);
            assert forall|j: int| 0 <= j < l.len() implies 1 <= (#[trigger] l[j]).id.0 <= self.next_pid
                && (l[j].id.0 == self.next_pid ==> self.next_pid == u64::MAX) by {
                let a = choose|a: int| 0 <= a < before.len() && before[a] == l[j];
            }
        }
        removed as u64
    }
}

/// Every process kept by the reaper comes from the table, in the same relative order.
pub proof fn lemma_live_subseq(procs: Seq<ProcessView>)
    ensures
        live_processes(procs).len() <= procs.len(),
        forall|i: int| 0 <= i < live_processes(procs).len() ==> (#[trigger] live_processes(procs)[i]).state !is Terminated,
        forall|i: int| 0 <= i < live_processes(procs).len() ==> exists|j: int| 0 <= j < procs.len() && procs[j] == #[trigger] live_processes(procs)[i],
        forall|i: int, j: int| 0 <= i < j < live_processes(procs).len() ==> exists|a: int, b: int| 0 <= a < b < procs.len() && procs[a] == #[trigger] live_processes(procs)[i] && procs[b] == #[trigger] live_processes(procs)[j],
    decreases procs.len(),
{
    if procs.len() > 0 {
        let d = procs.drop_last();
        lemma_live_subseq(d);
        let l = live_processes(procs);
        let ld = live_processes(d);
        assert forall|i: int| 0 <= i < l.len() implies exists|j: int| 0 <= j < procs.len() && procs[j] == #[trigger] l[i] by {
            if i < ld.len() {
                assert(l[i] == ld[i]);
                let j = choose|j: int| 0 <= j < d.len() && d[j] == ld[i];
                assert(procs[j] == d[j]);
            } else {
                assert(procs[procs.len() - 1] == l[i]);
            }
        }
        assert forall|i: int, j: int| 0 <= i < j < l.len() implies exists|a: int, b: int| 0 <= a < b < procs.len() && procs[a] == #[trigger] l[i] && procs[b] == #[trigger] l[j] by {
            if j < ld.len() {
                assert(l[i] == ld[i] && l[j] == ld[j]);
                let (a, b) = choose|a: int, b: int| 0 <= a < b < d.len() && d[a] == ld[i] && d[b] == ld[j];
                assert(procs[a] == d[a] && procs[b] == d[b]);
            } else {
                assert(l[i] == ld[i]);
                let a = choose|a: int| 0 <= a < d.len() && d[a] == ld[i];
                assert(procs[a] == d[a]);
                assert(procs[procs.len() - 1] == l[j]);
            }
        }
    }
}

/// A terminated process is reaped and every other process survives the reaper.
pub proof fn law_reap_keeps_exactly_live(procs: Seq<ProcessView>)
    ensures
        forall|i: int| 0 <= i < live_processes(procs).len() ==> (#[trigger] live_processes(procs)[i]).state !is Terminated,
        forall|j: int| 0 <= j < procs.len() && (#[trigger] procs[j]).state !is Terminated ==> live_processes(procs).contains(procs[j]),
        forall|p: ProcessView| #[trigger] live_processes(procs).contains(p) ==> procs.contains(p),
    decreases procs.len(),
{
    lemma_live_subseq(procs);
    if procs.len() > 0 {
        let d = procs.drop_last();
        law_reap_keeps_exactly_live(d);
        let l = live_processes(procs);
        let ld = live_processes(d);
        assert forall|j: int| 0 <= j < procs.len() && (#[trigger] procs[j]).state !is Terminated implies l.contains(procs[j]) by {
            if j < procs.len() - 1 {
                assert(procs[j] == d[j]);
                assert(ld.contains(d[j]));
                let k = choose|k: int| 0 <= k < ld.len() && ld[k] == d[j];
                assert(l[k] == ld[k]);
            } else {
                assert(l[l.len() - 1] == procs[j]);
            }
        }
        assert forall|p: ProcessView| #[trigger] l.contains(p) implies procs.contains(p) by {
            let k = choose|k: int| 0 <= k < l.len() && l[k] == p;
            let j = choose|j: int| 0 <= j < procs.len() && procs[j] == l[k];
        }
    }
}

/// A process that was just created is found under the id it was given, in state `New`.
pub proof fn law_created_process_is_found(r: ProcessRegistry, name: &'static str, created_tick: u64)
    requires
        r.wf(),
        r.procs().len() < MAX_PROCESSES,
    ensures
        ({
            let pid = ProcessId(r.next_pid());
            let after = created_table(r.procs(), new_process_view(pid, name, created_tick));
            &&& index_of(after, pid) is Some
            &&& after[index_of(after, pid)->Some_0] == new_process_view(pid, name, created_tick)
            &&& ids_ascending(after)
        }),
{
    let pid = ProcessId(r.next_pid());
    let np = new_process_view(pid, name, created_tick);
    let before = r.procs();
    let after = created_table(before, np);
    lemma_id_bounds(r);
    let last = after.len() - 1;
    assert(after[last] == np);
    assert forall|i: int, j: int| 0 <= i < j < after.len() implies (#[trigger] after[i]).id.0 < (#[trigger] after[j]).id.0 by {
        if j == last {
            if i < before.len() {
                assert(after[i] == before[i]);
                if before.len() > 0 && before.last().id == pid {
                    assert(before[i].id.0 < before[before.len() - 1].id.0);
                } else {
                    assert(before[i].id.0 <= pid.0);
                    if before[i].id.0 == pid.0 {
                        assert(r.next_pid() == u64::MAX);
                        if i < before.len() - 1 {
                            assert(before[i].id.0 < before[before.len() - 1].id.0);
                        }
                    }
                }
            }
        } else {
            assert(after[i] == before[i] && after[j] == before[j]);
        }
    }
    let k = choose|k: int| 0 <= k < after.len() && (#[trigger] after[k]).id == pid;
    if k != last {
        assert(after[k].id.0 < after[last].id.0);
    }
}

/// In a valid registry ids ascend along the table, every id lies in
/// `1..=next_pid()` and equals `next_pid()` only once the counter has stuck at
/// `u64::MAX`, and at most `MAX_PROCESSES` processes are registered.
pub proof fn lemma_id_bounds(r: ProcessRegistry)
    requires
        r.wf(),
    ensures
        ids_ascending(r.procs()),
        forall|i: int| 0 <= i < r.procs().len() ==> 1 <= (#[trigger] r.procs()[i]).id.0 <= r.next_pid()
            && (r.procs()[i].id.0 == r.next_pid() ==> r.next_pid() == u64::MAX),
        r.procs().len() <= MAX_PROCESSES,
{
}

// ─────────────────── kernel-wide process operations ───────────────────

/// Create a kernel process; on success the creation is counted and a `Ready` event
/// stamped `now_tick` is logged.
pub fn create_kernel_process(
    registry: &mut ProcessRegistry,
    metrics: &mut ProcessMetricsGlobal,
    log: &mut EventLog,
    now_tick: u64,
    name: &'static str,
    created_tick: u64,
) -> (r: Option<ProcessId>)
    requires
        old(registry).wf(),
        old(log).wf(),
    ensures
        final(registry).wf(),
        final(log).wf(),
        old(registry).procs().len() >= MAX_PROCESSES ==> r is None && *final(registry) == *old(registry)
            && *final(metrics) == *old(metrics) && final(log).events() == old(log).events(),
        old(registry).procs().len() < MAX_PROCESSES ==> {
            let pid = ProcessId(old(registry).next_pid());
            &&& r == Some(pid)
            &&& final(registry).procs() == created_table(
                old(registry).procs(),
                new_process_view(pid, name, created_tick),
            )
            &&& final(registry).next_pid() == next_pid_after(old(registry).next_pid())
            &&& *final(metrics) == (ProcessMetricsGlobal {
                process_creations: wrapping_inc(old(metrics).process_creations),
                ..*old(metrics)
            })
            &&& final(log).events() == pushed_events(
                old(log).events(),
                EventLogEntry { tick: now_tick, event_type: EventType::Ready, pid: pid.0 },
            )
        },
        old(registry).procs().len() < MAX_PROCESSES && old(registry).next_pid() < u64::MAX ==> {
            &&& final(registry).procs() == old(registry).procs().push(
                new_process_view(ProcessId(old(registry).next_pid()), name, created_tick),
            )
            &&& forall|j: int|
                0 <= j < old(registry).procs().len() ==> (#[trigger] old(registry).procs()[j]).id.0 < old(
                    registry,
                ).next_pid()
        },
{
    let created = registry.create_process(name, created_tick);
    if let Some(pid) = created {
        metrics.record_process_creation();
        log_event(log, now_tick, EventType::Ready, pid.as_u64());
    }
    created
}

/// `Some(pid)` when a process with that id is registered.
pub fn get_process(registry: &ProcessRegistry, pid: ProcessId) -> (r: Option<ProcessId>)
    requires
        registry.wf(),
    ensures
        r == (if index_of(registry.procs(), pid) is Some {
            Some(pid)
        } else {
            None
        }),
{
    match registry.get_process(pid) {
        Some(_) => Some(pid),
        None => None,
    }
}

/// Update a process's state; `false` when `pid` is unknown.
pub fn set_process_state(registry: &mut ProcessRegistry, pid: ProcessId, state: ProcessState) -> (r: bool)
    requires
        old(registry).wf(),
    ensures
        final(registry).wf(),
        final(registry).next_pid() == old(registry).next_pid(),
        r == index_of(old(registry).procs(), pid) is Some,
        final(registry).procs() == update_process(
            old(registry).procs(),
            pid,
            |p: ProcessView| ProcessView { state, ..p },
        ),
{
    registry.set_process_state(pid, state)
}

/// Record a context switch for a process.
pub fn record_context_switch(registry: &mut ProcessRegistry, pid: ProcessId) -> (r: bool)
    requires
        old(registry).wf(),
    ensures
        final(registry).wf(),
        final(registry).next_pid() == old(registry).next_pid(),
        r == index_of(old(registry).procs(), pid) is Some,
        final(registry).procs() == update_process(
            old(registry).procs(),
            pid,
            |p: ProcessView| ProcessView { switches: sat_add(p.switches, 1), ..p },
        ),
{
    registry.record_context_switch(pid)
}

/// Add CPU ticks to a process.
pub fn add_process_cpu_ticks(registry: &mut ProcessRegistry, pid: ProcessId, ticks: u64) -> (r: bool)
    requires
        old(registry).wf(),
    ensures
        final(registry).wf(),
        final(registry).next_pid() == old(registry).next_pid(),
        r == index_of(old(registry).procs(), pid) is Some,
        final(registry).procs() == update_process(
            old(registry).procs(),
            pid,
            |p: ProcessView| ProcessView { cpu_ticks: sat_add(p.cpu_ticks, ticks), ..p },
        ),
{
    registry.add_cpu_ticks(pid, ticks)
}

/// All runnable process ids, ascending.
pub fn get_ready_processes(registry: &ProcessRegistry) -> (r: Vec<ProcessId>)
    requires
        registry.wf(),
    ensures
        r@ == runnable_ids(registry.procs()),
        forall|a: int, b: int| 0 <= a < b < r@.len() ==> (#[trigger] r@[a]).0 < (#[trigger] r@[b]).0,
{
    registry.ready_processes()
}

/// Terminate a process with an exit code; on success the termination is counted and a
/// `Terminated` event stamped `now_tick` is logged.
pub fn terminate_process(
    registry: &mut ProcessRegistry,
    metrics: &mut ProcessMetricsGlobal,
    log: &mut EventLog,
    now_tick: u64,
    pid: ProcessId,
    exit_code: i32,
) -> (r: bool)
    requires
        old(registry).wf(),
        old(log).wf(),
    ensures
        final(registry).wf(),
        final(log).wf(),
        final(registry).next_pid() == old(registry).next_pid(),
        r == index_of(old(registry).procs(), pid) is Some,
        final(registry).procs() == update_process(
            old(registry).procs(),
            pid,
            |p: ProcessView| ProcessView { exit_code: Some(exit_code), state: ProcessState::Terminated, ..p },
        ),
        r ==> *final(metrics) == (ProcessMetricsGlobal {
            process_terminations: wrapping_inc(old(metrics).process_terminations),
            ..*old(metrics)
        }) && final(log).events() == pushed_events(
            old(log).events(),
            EventLogEntry { tick: now_tick, event_type: EventType::Terminated, pid: pid.0 },
        ),
        !r ==> *final(metrics) == *old(metrics) && final(log).events() == old(log).events(),
{
    let terminated = registry.terminate_process(pid, exit_code);
    if terminated {
        metrics.record_process_termination();
        log_event(log, now_tick, EventType::Terminated, pid.as_u64());
    }
    terminated
}

/// Number of registered processes.
pub fn process_count(registry: &ProcessRegistry) -> (r: usize)
    requires
        registry.wf(),
    ensures
        r == registry.procs().len(),
{
    registry.process_count()
}

/// Telemetry rows of all processes, ascending by id.
pub fn get_all_processes(registry: &ProcessRegistry) -> (r: Vec<(ProcessId, &'static str, ProcessState, u64)>)
    requires
        registry.wf(),
    ensures
        r@ == registry.procs().map_values(|p: ProcessView| summary_row(p)),
{
    registry.all_processes()
}

/// Reap terminated processes.
pub fn reap_terminated_processes(registry: &mut ProcessRegistry) -> (r: u64)
    requires
        old(registry).wf(),
    ensures
        final(registry).wf(),
        final(registry).next_pid() == old(registry).next_pid(),
        final(registry).procs() == live_processes(old(registry).procs()),
        r == old(registry).procs().len() - final(registry).procs().len(),
{
    registry.reap_terminated()
}

} // verus!
