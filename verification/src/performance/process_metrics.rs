//! Process-level scheduler observability: global event counters and a bounded
//! ring buffer of scheduler events.

use vstd::prelude::*;

verus! {

/// Per-process performance snapshot.
#[derive(Debug, Clone, Copy, PartialEq, Eq, Structural)]
pub struct ProcessMetricsSnapshot {
    pub pid: u64,
    pub cpu_ticks: u64,
    pub context_switches: u64,
    pub created_tick: u64,
    pub preemption_attempts: u64,
    pub preemption_successes: u64,
}

/// One logged scheduler event.
#[derive(Debug, Clone, Copy, PartialEq, Eq, Structural)]
pub struct EventLogEntry {
    pub tick: u64,
    pub event_type: EventType,
    pub pid: u64,
}

#[derive(Debug, Clone, Copy, PartialEq, Eq, Structural)]
pub enum EventType {
    /// Process preempted after quantum expiry.
    Preempted,
    /// Process entered blocked state.
    Blocked,
    /// Process became ready.
    Ready,
    /// Process terminated.
    Terminated,
    /// Fairness violation detected.
    StarvationDetected,
}

/// Event ring buffer capacity.
pub const EVENT_LOG_CAPACITY: usize = 256;

pub open spec fn empty_event() -> EventLogEntry {
    EventLogEntry { tick: 0, event_type: EventType::Ready, pid: 0 }
}

/// Physical slot of the `i`-th retained event (oldest first) in a ring whose next
/// write goes to `head` and which holds `len` events.
pub open spec fn ring_slot(head: int, len: int, i: int) -> int {
    let p = head + EVENT_LOG_CAPACITY - len + i;
    if p >= EVENT_LOG_CAPACITY {
        p - EVENT_LOG_CAPACITY
    } else {
        p
    }
}

/// The sequence of events that a push leaves in a log that held `events`.
pub open spec fn pushed_events(events: Seq<EventLogEntry>, e: EventLogEntry) -> Seq<EventLogEntry> {
    if events.len() < EVENT_LOG_CAPACITY {
        events.push(e)
    } else {
        events.drop_first().push(e)
    }
}

/// The newest `n` events of `events`, newest first.
pub open spec fn newest_first(events: Seq<EventLogEntry>, n: nat) -> Seq<EventLogEntry> {
    Seq::new(n, |k: int| events[events.len() - 1 - k])
}

/// Bounded in-memory log of scheduler events; the oldest entry is overwritten once
/// the log is full.
pub struct EventLog {
    entries: Vec<EventLogEntry>,
    head: usize,
    len: usize,
}

impl EventLog {
    pub closed spec fn wf(&self) -> bool {
        &&& self.entries@.len() == EVENT_LOG_CAPACITY
        &&& self.head < EVENT_LOG_CAPACITY
        &&& self.len <= EVENT_LOG_CAPACITY
    }

    /// The retained events, oldest first.
    pub closed spec fn events(&self) -> Seq<EventLogEntry> {
        Seq::new(
            self.len as nat,
            |i: int| self.entries@[ring_slot(self.head as int, self.len as int, i)],
        )
    }

    pub fn new() -> (r: Self)
        ensures
            r.wf(),
            r.events() == Seq::<EventLogEntry>::empty(),
    {
        let mut entries: Vec<EventLogEntry> = Vec::new();
        let mut i: usize = 0;
        while i < EVENT_LOG_CAPACITY
            invariant
                i <= EVENT_LOG_CAPACITY,
                entries@.len() == i,
            decreases EVENT_LOG_CAPACITY - i,
        {
            entries.push(EventLogEntry { tick: 0, event_type: EventType::Ready, pid: 0 });
            i = i + 1;
        }
        let r = EventLog { entries, head: 0, len: 0 };
        assert(r.events() =~= Seq::<EventLogEntry>::empty());
        r
    }

    /// Appends `entry`, dropping the oldest event when the log is full.
    pub fn push(&mut self, entry: EventLogEntry)
        requires
            old(self).wf(),
        ensures
            final(self).wf(),
            final(self).events() == pushed_events(old(self).events(), entry),
    {
        let ghost before = self.events();
        let ghost old_head = self.head as int;
        let ghost old_len = self.len as int;
        self.entries.set(self.head, entry);
        self.head = if self.head + 1 == EVENT_LOG_CAPACITY {
            0
        } else {
            self.head + 1
        };
        if self.len < EVENT_LOG_CAPACITY {
            self.len = self.len + 1;
        }
        let ghost after = self.events();
        let ghost expect = pushed_events(before, entry);
        assert(after.len() == expect.len());
        assert forall|i: int| 0 <= i < after.len() implies after[i] == expect[i] by {
            let s_new = ring_slot(self.head as int, self.len as int, i);
            if i == after.len() - 1 {
                assert(s_new == old_head);
            } else if old_len < EVENT_LOG_CAPACITY {
                assert(s_new == ring_slot(old_head, old_len, i));
                assert(s_new != old_head);
            } else {
                assert(s_new == ring_slot(old_head, old_len, i + 1));
                assert(s_new != old_head);
            }
        }
        assert(after =~= expect);
    }

    /// The newest event, if any.
    pub fn latest(&self) -> (r: Option<EventLogEntry>)
        requires
            self.wf(),
        ensures
            r == (if self.events().len() == 0 {
                None
            } else {
                Some(self.events().last())
            }),
    {
        if self.len == 0 {
            return None;
        }
        let latest_idx = if self.head == 0 {
            EVENT_LOG_CAPACITY - 1
        } else {
            self.head - 1
        };
        assert(ring_slot(self.head as int, self.len as int, self.len - 1) == latest_idx);
        Some(self.entries[latest_idx])
    }

    /// Number of retained events.
    pub fn count(&self) -> (r: usize)
        requires
            self.wf(),
        ensures
            r == self.events().len(),
            r <= EVENT_LOG_CAPACITY,
    {
        self.len
    }

    /// Up to `max_events` of the newest events, newest first.
    pub fn recent(&self, max_events: usize) -> (r: Vec<EventLogEntry>)
        requires
            self.wf(),
        ensures
            r@ == newest_first(
                self.events(),
                if max_events < self.events().len() {
                    max_events as nat
                } else {
                    self.events().len()
                },
            ),
    {
        let take = if max_events < self.len {
            max_events
        } else {
            self.len
        };
        let mut out: Vec<EventLogEntry> = Vec::new();
        if take == 0 {
            assert(out@ =~= newest_first(self.events(), 0));
            return out;
        }
        let mut idx: usize = if self.head == 0 {
            EVENT_LOG_CAPACITY - 1
        } else {
            self.head - 1
        };
        let mut k: usize = 0;
        while k < take
            invariant
                self.wf(),
                take <= self.len,
                k <= take,
                out@.len() == k,
                k < take ==> idx == ring_slot(self.head as int, self.len as int, self.len - 1 - k),
                idx < EVENT_LOG_CAPACITY,
                forall|j: int| 0 <= j < k ==> #[trigger] out@[j] == self.events()[self.len - 1 - j],
            decreases take - k,
        {
            out.push(self.entries[idx]);
            idx = if idx == 0 {
                EVENT_LOG_CAPACITY - 1
            } else {
                idx - 1
            };
            k = k + 1;
        }
        assert(out@ =~= newest_first(self.events(), take as nat));
        out
    }
}

/// Appends an event stamped with the current tick.
pub fn log_event(log: &mut EventLog, now_tick: u64, event_type: EventType, pid: u64)
    requires
        old(log).wf(),
    ensures
        final(log).wf(),
        final(log).events() == pushed_events(
            old(log).events(),
            EventLogEntry { tick: now_tick, event_type, pid },
        ),
{
    log.push(EventLogEntry { tick: now_tick, event_type, pid });
}

/// Return up to `max_events` recent events, newest-first.
pub fn recent_events(log: &EventLog, max_events: usize) -> (r: Vec<EventLogEntry>)
    requires
        log.wf(),
    ensures
        r@ == newest_first(
            log.events(),
            if max_events < log.events().len() {
                max_events as nat
            } else {
                log.events().len()
            },
        ),
{
    if max_events == 0 {
        let out: Vec<EventLogEntry> = Vec::new();
        assert(out@ =~= newest_first(log.events(), 0));
        return out;
    }
    log.recent(max_events)
}

/// Return the current number of events in the ring buffer.
pub fn event_count(log: &EventLog) -> (r: usize)
    requires
        log.wf(),
    ensures
        r == log.events().len(),
{
    log.count()
}

/// Return the latest event without allocating.
pub fn latest_event(log: &EventLog) -> (r: Option<EventLogEntry>)
    requires
        log.wf(),
    ensures
        r == (if log.events().len() == 0 {
            None
        } else {
            Some(log.events().last())
        }),
{
    log.latest()
}

/// Kernel-wide process event counters; each counter wraps on overflow.
#[derive(Debug, Clone, Copy, PartialEq, Eq, Structural)]
pub struct ProcessMetricsGlobal {
    pub process_creations: u64,
    pub process_terminations: u64,
    pub total_preemptions: u64,
    pub fairness_violations: u64,
}

pub open spec fn wrapping_inc(x: u64) -> u64 {
    if x == u64::MAX {
        0
    } else {
        (x + 1) as u64
    }
}

impl ProcessMetricsGlobal {
    pub fn new() -> (r: Self)
        ensures
            r == (ProcessMetricsGlobal {
                process_creations: 0,
                process_terminations: 0,
                total_preemptions: 0,
                fairness_violations: 0,
            }),
    {
        ProcessMetricsGlobal {
            process_creations: 0,
            process_terminations: 0,
            total_preemptions: 0,
            fairness_violations: 0,
        }
    }

    /// Increment process creation counter.
    pub fn record_process_creation(&mut self)
        ensures
            *final(self) == (ProcessMetricsGlobal {
                process_creations: wrapping_inc(old(self).process_creations),
                ..*old(self)
            }),
    {
        self.process_creations = self.process_creations.wrapping_add(1);
    }

    /// Increment process termination counter.
    pub fn record_process_termination(&mut self)
        ensures
            *final(self) == (ProcessMetricsGlobal {
                process_terminations: wrapping_inc(old(self).process_terminations),
                ..*old(self)
            }),
    {
        self.process_terminations = self.process_terminations.wrapping_add(1);
    }

    /// Increment preemption counter.
    pub fn record_preemption(&mut self)
        ensures
            *final(self) == (ProcessMetricsGlobal {
                total_preemptions: wrapping_inc(old(self).total_preemptions),
                ..*old(self)
            }),
    {
        self.total_preemptions = self.total_preemptions.wrapping_add(1);
    }

    /// Increment fairness violation counter.
    pub fn record_fairness_violation(&mut self)
        ensures
            *final(self) == (ProcessMetricsGlobal {
                fairness_violations: wrapping_inc(old(self).fairness_violations),
                ..*old(self)
            }),
    {
        self.fairness_violations = self.fairness_violations.wrapping_add(1);
    }

    /// (creations, terminations, preemptions, fairness violations).
    pub fn global_snapshot(&self) -> (r: (u64, u64, u64, u64))
        ensures
            r == (
                self.process_creations,
                self.process_terminations,
                self.total_preemptions,
                self.fairness_violations,
            ),
    {
        (self.process_creations, self.process_terminations, self.total_preemptions, self.fairness_violations)
    }
}

/// Largest and smallest CPU tick count in a sequence.
pub open spec fn tick_extremes(ticks: Seq<u64>) -> (u64, u64)
    decreases ticks.len(),
{
    if ticks.len() == 0 {
        (0, 0)
    } else if ticks.len() == 1 {
        (ticks[0], ticks[0])
    } else {
        let (mx, mn) = tick_extremes(ticks.drop_last());
        let t = ticks.last();
        (if t > mx { t } else { mx }, if t < mn { t } else { mn })
    }
}

/// The integer inputs of the fairness score: process count and the largest and
/// smallest CPU tick count among `ticks` (zeros when there are none).
pub fn fairness_inputs(ticks: &[u64]) -> (r: (u64, u64, u64))
    requires
        ticks@.len() <= u64::MAX,
    ensures
        r == (ticks@.len() as u64, tick_extremes(ticks@).0, tick_extremes(ticks@).1),
        forall|i: int| 0 <= i < ticks@.len() ==> r.2 <= #[trigger] ticks@[i] <= r.1,
{
    if ticks.len() == 0 {
        return (0, 0, 0);
    }
    let mut mx: u64 = ticks[0];
    let mut mn: u64 = ticks[0];
    let mut i: usize = 1;
    assert(ticks@.subrange(0, 1) =~= seq![ticks@[0]]);
    while i < ticks.len()
        invariant
            1 <= i <= ticks@.len(),
            (mx, mn) == tick_extremes(ticks@.subrange(0, i as int)),
            forall|j: int| 0 <= j < i ==> mn <= #[trigger] ticks@[j] <= mx,
        decreases ticks@.len() - i,
    {
        assert(ticks@.subrange(0, i as int + 1).drop_last() =~= ticks@.subrange(0, i as int));
        let t = ticks[i];
        if t > mx {
            mx = t;
        }
        if t < mn {
            mn = t;
        }
        i = i + 1;
    }
    assert(ticks@.subrange(0, i as int) =~= ticks@);
    (ticks.len() as u64, mx, mn)
}

/// Logging one event grows the log by one until it is full, and the logged event
/// is always the newest one afterwards.
pub proof fn law_push_appends(events: Seq<EventLogEntry>, e: EventLogEntry)
    requires
        events.len() <= EVENT_LOG_CAPACITY,
    ensures
        pushed_events(events, e).last() == e,
        pushed_events(events, e).len() == if events.len() < EVENT_LOG_CAPACITY {
            events.len() + 1
        } else {
            EVENT_LOG_CAPACITY as nat
        },
        pushed_events(events, e).len() <= EVENT_LOG_CAPACITY,
{
}

/// What a log that starts empty holds after `history` is logged, in order.
pub open spec fn logged(history: Seq<EventLogEntry>) -> Seq<EventLogEntry>
    decreases history.len(),
{
    if history.len() == 0 {
        Seq::empty()
    } else {
        pushed_events(logged(history.drop_last()), history.last())
    }
}

/// How many of `k` logged events the log retains.
pub open spec fn retained_count(k: nat) -> nat {
    if k < EVENT_LOG_CAPACITY {
        k
    } else {
        EVENT_LOG_CAPACITY as nat
    }
}

proof fn lemma_logged_suffix(history: Seq<EventLogEntry>)
    ensures
        logged(history) == history.subrange(
            history.len() - retained_count(history.len()),
            history.len() as int,
        ),
    decreases history.len(),
{
    if history.len() > 0 {
        let d = history.drop_last();
        lemma_logged_suffix(d);
        let n = history.len() as int;
        if d.len() < EVENT_LOG_CAPACITY {
            assert(logged(d) =~= d);
            assert(logged(history) =~= history.subrange(n - retained_count(history.len()), n));
        } else {
            assert(logged(d).drop_first().push(history.last()) =~= history.subrange(
                n - EVENT_LOG_CAPACITY,
                n,
            ));
        }
    } else {
        assert(logged(history) =~= history.subrange(0, 0));
    }
}

/// After the events `history` are logged, in order, into an empty log, the log
/// holds the last `min(k, EVENT_LOG_CAPACITY)` of them, oldest first, and asking
/// for up to `max_events` recent events gives `min(max_events, k, EVENT_LOG_CAPACITY)`
/// of them, newest first: the `i`-th is the `i`-th last event logged.
pub proof fn law_log_history(history: Seq<EventLogEntry>, max_events: nat)
    ensures
        ({
            let k = history.len();
            let held = logged(history);
            let take = if max_events < held.len() { max_events } else { held.len() };
            let recent = newest_first(held, take);
            &&& held == history.subrange(k - retained_count(k), k as int)
            &&& held.len() == retained_count(k)
            &&& recent.len() == if max_events < retained_count(k) { max_events } else { retained_count(k) }
            &&& forall|i: int| 0 <= i < recent.len() ==> #[trigger] recent[i] == history[k - 1 - i]
        }),
{
    lemma_logged_suffix(history);
}

} // verus!
