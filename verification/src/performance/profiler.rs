//! Profiling of labelled kernel sections in TSC cycles, kept in a ring of the
//! most recent measurements.

use vstd::prelude::*;

verus! {

/// Maximum number of profiling entries that can be retained simultaneously.
pub const MAX_ENTRIES: usize = 64;

/// A single profiling measurement.
#[derive(Debug, Clone, Copy)]
pub struct ProfileEntry {
    /// A short, static label identifying the measured section.
    pub label: &'static str,
    /// TSC value at the start of the section.
    pub start_tsc: u64,
    /// TSC value at the end of the section.
    pub end_tsc: u64,
}

impl ProfileEntry {
    /// Number of TSC cycles elapsed in this entry.
    pub fn elapsed_cycles(&self) -> (r: u64)
        ensures
            r == if self.end_tsc >= self.start_tsc { self.end_tsc - self.start_tsc } else { 0 },
    {
        self.end_tsc.saturating_sub(self.start_tsc)
    }
}

/// The ring of entries: slot `write_index % MAX_ENTRIES` is written next.
pub struct ProfileLog {
    entries: Vec<Option<ProfileEntry>>,
    write_index: usize,
}

impl ProfileLog {
    pub closed spec fn slots(&self) -> Seq<Option<ProfileEntry>> {
        self.entries@
    }

    pub closed spec fn next_index(&self) -> usize {
        self.write_index
    }

    pub closed spec fn wf(&self) -> bool {
        self.entries@.len() == MAX_ENTRIES
    }

    pub fn new() -> (r: Self)
        ensures
            r.wf(),
            r.next_index() == 0,
            forall|i: int| 0 <= i < MAX_ENTRIES ==> #[trigger] r.slots()[i] is None,
            r.slots() == slots_after(Seq::empty()),
    {
        let mut entries: Vec<Option<ProfileEntry>> = Vec::new();
        let mut i: usize = 0;
        while i < MAX_ENTRIES
            invariant
                i <= MAX_ENTRIES,
                entries@.len() == i,
                forall|j: int| 0 <= j < i ==> #[trigger] entries@[j] is None,
            decreases MAX_ENTRIES - i,
        {
            entries.push(None);
            i = i + 1;
        }
        assert(entries@ =~= slots_after(Seq::empty()));
        ProfileLog { entries, write_index: 0 }
    }
}

fn record(log: &mut ProfileLog, label: &'static str, start_tsc: u64, end_tsc: u64)
    requires
        old(log).wf(),
    ensures
        final(log).wf(),
        final(log).slots() == old(log).slots().update(
            (old(log).next_index() % MAX_ENTRIES) as int,
            Some(ProfileEntry { label, start_tsc, end_tsc }),
        ),
        final(log).next_index() == if old(log).next_index() == usize::MAX {
            0
        } else {
            (old(log).next_index() + 1) as usize
        },
{
    let idx = log.write_index % MAX_ENTRIES;
    log.write_index = log.write_index.wrapping_add(1);
    log.entries.set(idx, Some(ProfileEntry { label, start_tsc, end_tsc }));
}

/// A started measurement of a labelled section.
pub struct Profiler {
    label: &'static str,
    start_tsc: u64,
}

impl Profiler {
    pub closed spec fn spec_label(&self) -> &'static str {
        self.label
    }

    pub closed spec fn spec_start(&self) -> u64 {
        self.start_tsc
    }

    /// Begin timing a labelled section at TSC value `now_tsc`.
    pub fn start(label: &'static str, now_tsc: u64) -> (r: Self)
        ensures
            r.spec_label() == label,
            r.spec_start() == now_tsc,
    {
        Profiler { label, start_tsc: now_tsc }
    }

    /// Records the measurement, ending at TSC value `end_tsc`.
    pub fn finish(self, log: &mut ProfileLog, end_tsc: u64)
        requires
            old(log).wf(),
        ensures
            final(log).wf(),
            final(log).slots() == old(log).slots().update(
                (old(log).next_index() % MAX_ENTRIES) as int,
                Some(ProfileEntry { label: self.spec_label(), start_tsc: self.spec_start(), end_tsc }),
            ),
            final(log).next_index() == if old(log).next_index() == usize::MAX {
                0
            } else {
                (old(log).next_index() + 1) as usize
            },
    {
        record(log, self.label, self.start_tsc, end_tsc);
    }
}

/// The recorded entries, in slot order.
pub open spec fn recorded(slots: Seq<Option<ProfileEntry>>) -> Seq<ProfileEntry>
    decreases slots.len(),
{
    if slots.len() == 0 {
        Seq::empty()
    } else {
        recorded(slots.drop_last()) + match slots.last() {
            Some(e) => seq![e],
            None => Seq::empty(),
        }
    }
}

/// The slots read oldest first: from the slot written next, round to the slot
/// written last.
pub open spec fn oldest_first(slots: Seq<Option<ProfileEntry>>, next: int) -> Seq<Option<ProfileEntry>> {
    slots.subrange(next, slots.len() as int) + slots.subrange(0, next)
}

/// Recording entries of two runs of slots gives the entries of each, in turn.
pub proof fn lemma_recorded_concat(a: Seq<Option<ProfileEntry>>, b: Seq<Option<ProfileEntry>>)
    ensures
        recorded(a + b) == recorded(a) + recorded(b),
    decreases b.len(),
{
    if b.len() == 0 {
        assert(a + b =~= a);
        assert(recorded(a) + recorded(b) =~= recorded(a));
    } else {
        assert((a + b).drop_last() =~= a + b.drop_last());
        assert((a + b).last() == b.last());
        lemma_recorded_concat(a, b.drop_last());
        assert(recorded(a + b) =~= recorded(a) + recorded(b));
    }
}

proof fn lemma_recorded_step(s: Seq<Option<ProfileEntry>>, lo: int, i: int)
    requires
        0 <= lo <= i < s.len(),
    ensures
        recorded(s.subrange(lo, i + 1)) == recorded(s.subrange(lo, i)) + match s[i] {
            Some(e) => seq![e],
            None => Seq::<ProfileEntry>::empty(),
        },
{
    assert(s.subrange(lo, i + 1).drop_last() =~= s.subrange(lo, i));
    assert(s.subrange(lo, i + 1).last() == s[i]);
}

/// The recorded entries in the order they were recorded, oldest retained entry
/// first.
pub fn with_entries(log: &ProfileLog) -> (r: Vec<ProfileEntry>)
    requires
        log.wf(),
    ensures
        r@ == recorded(oldest_first(log.slots(), (log.next_index() % MAX_ENTRIES) as int)),
{
    let start = log.write_index % MAX_ENTRIES;
    let ghost s = log.entries@;
    let mut out: Vec<ProfileEntry> = Vec::new();
    let mut i: usize = start;
    while i < MAX_ENTRIES
        invariant
            s == log.entries@,
            s.len() == MAX_ENTRIES,
            start < MAX_ENTRIES,
            start <= i <= MAX_ENTRIES,
            out@ == recorded(s.subrange(start as int, i as int)),
        decreases MAX_ENTRIES - i,
    {
        proof {
            lemma_recorded_step(s, start as int, i as int);
        }
        if let Some(e) = log.entries[i] {
            out.push(e);
        }
        i = i + 1;
    }
    let ghost tail = recorded(s.subrange(start as int, MAX_ENTRIES as int));
    let mut j: usize = 0;
    while j < start
        invariant
            s == log.entries@,
            s.len() == MAX_ENTRIES,
            start < MAX_ENTRIES,
            j <= start,
            tail == recorded(s.subrange(start as int, MAX_ENTRIES as int)),
            out@ == tail + recorded(s.subrange(0, j as int)),
        decreases start - j,
    {
        proof {
            lemma_recorded_step(s, 0, j as int);
        }
        if let Some(e) = log.entries[j] {
            out.push(e);
        }
        proof {
            assert(out@ =~= tail + recorded(s.subrange(0, j as int + 1)));
        }
        j = j + 1;
    }
    proof {
        lemma_recorded_concat(s.subrange(start as int, MAX_ENTRIES as int), s.subrange(0, start as int));
    }
    out
}

/// The slots of a log that starts empty after the entries `history` are recorded
/// in order: entry `i` goes to slot `i % MAX_ENTRIES`.
pub open spec fn slots_after(history: Seq<ProfileEntry>) -> Seq<Option<ProfileEntry>>
    decreases history.len(),
{
    if history.len() == 0 {
        Seq::new(MAX_ENTRIES as nat, |j: int| None::<ProfileEntry>)
    } else {
        slots_after(history.drop_last()).update((history.len() - 1) % 64, Some(history.last()))
    }
}

proof fn lemma_mod_step(k: int)
    requires
        k >= 1,
    ensures
        0 <= k % 64 < 64,
        0 <= (k - 1) % 64 < 64,
        k % 64 == 0 ==> (k - 1) % 64 == 63 && (k - 1) - (k - 1) % 64 == k - 64,
        k % 64 != 0 ==> (k - 1) % 64 == k % 64 - 1 && (k - 1) - (k - 1) % 64 == k - k % 64,
        k - k % 64 >= 0,
{
}

/// Slot `j` holds the last entry recorded into it, if any: entry `b + j` when that
/// index is below `k`, else entry `b + j - MAX_ENTRIES` when there is one, where `b`
/// is `k` rounded down to a multiple of `MAX_ENTRIES`.
#[verifier::spinoff_prover]
proof fn lemma_slots_after(history: Seq<ProfileEntry>, j: int)
    requires
        0 <= j < MAX_ENTRIES,
    ensures
        slots_after(history).len() == MAX_ENTRIES,
        ({
            let k = history.len() as int;
            let b = k - k % 64;
            slots_after(history)[j] == if b + j < k {
                Some(history[b + j])
            } else if b >= 64 {
                Some(history[b + j - 64])
            } else {
                None::<ProfileEntry>
            }
        }),
    decreases history.len(),
{
    let k = history.len() as int;
    if k == 0 {
        assert(k % 64 == 0);
    } else {
        let d = history.drop_last();
        lemma_slots_after(d, j);
        lemma_mod_step(k);
        let r = k % 64;
        let rd = (k - 1) % 64;
        let b = k - r;
        let bd = (k - 1) - rd;
        let prev = slots_after(d);
        assert(slots_after(history) == prev.update(rd, Some(history.last())));
        assert(history.last() == history[k - 1]);
        if j != rd {
            assert(slots_after(history)[j] == prev[j]);
            if b + j < k {
                assert(bd + j < k - 1);
                assert(d[b + j] == history[b + j]);
            } else if b >= 64 {
                if bd + j < k - 1 {
                    assert(r == 0);
                    assert(bd + j == b + j - 64);
                    assert(d[bd + j] == history[bd + j]);
                } else {
                    assert(bd == b);
                    assert(d[b + j - 64] == history[b + j - 64]);
                }
            } else {
                assert(bd == b);
            }
        } else {
            assert(slots_after(history)[j] == Some(history[k - 1]));
            if r == 0 {
                assert(b == k && b >= 64 && b + j - 64 == k - 1);
            } else {
                assert(b + j == k - 1);
            }
        }
    }
}

/// Running the entries `s` through `recorded` when each is present gives them back.
proof fn lemma_recorded_all(s: Seq<Option<ProfileEntry>>, e: Seq<ProfileEntry>)
    requires
        s.len() == e.len(),
        forall|i: int| 0 <= i < s.len() ==> #[trigger] s[i] == Some(e[i]),
    ensures
        recorded(s) == e,
    decreases s.len(),
{
    if s.len() > 0 {
        lemma_recorded_all(s.drop_last(), e.drop_last());
        assert(recorded(s) =~= e);
    } else {
        assert(e =~= Seq::<ProfileEntry>::empty());
    }
}

/// Running empty slots through `recorded` gives nothing.
proof fn lemma_recorded_none(s: Seq<Option<ProfileEntry>>)
    requires
        forall|i: int| 0 <= i < s.len() ==> #[trigger] s[i] is None,
    ensures
        recorded(s) == Seq::<ProfileEntry>::empty(),
    decreases s.len(),
{
    if s.len() > 0 {
        lemma_recorded_none(s.drop_last());
    }
}

/// After the entries `history` are recorded, in order, into a log that started
/// empty, reading the log oldest first gives the last `min(k, MAX_ENTRIES)` of
/// them, in the order they were recorded.
pub proof fn law_profile_history(history: Seq<ProfileEntry>)
    ensures
        ({
            let k = history.len() as int;
            let kept = if k < MAX_ENTRIES { k } else { MAX_ENTRIES as int };
            recorded(oldest_first(slots_after(history), k % 64)) == history.subrange(k - kept, k)
        }),
{
    let k = history.len() as int;
    let r = k % 64;
    let b = k - r;
    let slots = slots_after(history);
    assert forall|j: int| 0 <= j < 64 implies #[trigger] slots[j] == (if b + j < k {
        Some(history[b + j])
    } else if b >= 64 {
        Some(history[b + j - 64])
    } else {
        None::<ProfileEntry>
    }) by {
        lemma_slots_after(history, j);
    }
    lemma_slots_after(history, 0);
    let tail = slots.subrange(r, 64);
    let head = slots.subrange(0, r);
    assert(oldest_first(slots, r) == tail + head);
    lemma_recorded_concat(tail, head);
    lemma_recorded_all(head, history.subrange(b, k));
    if b >= 64 {
        lemma_recorded_all(tail, history.subrange(b - 64 + r, b));
        assert(history.subrange(b - 64 + r, b) + history.subrange(b, k) =~= history.subrange(k - 64, k));
    } else {
        lemma_recorded_none(tail);
        assert(b == 0);
        assert(Seq::<ProfileEntry>::empty() + history.subrange(b, k) =~= history.subrange(0, k));
    }
}

/// Recording entry `e` into a log that holds the history `h` (its slots are those
/// of `h` and its write index is `h`'s length) gives a log that holds `h` followed
/// by `e`; together with `ProfileLog::new`, whose log holds the empty history, and
/// [`law_profile_history`], this says what `with_entries` returns after any run of
/// finished profilers.
pub proof fn law_record_extends_history(before: ProfileLog, after: ProfileLog, h: Seq<ProfileEntry>, e: ProfileEntry)
    requires
        before.slots() == slots_after(h),
        before.next_index() == h.len(),
        h.len() < usize::MAX,
        after.slots() == before.slots().update((before.next_index() % MAX_ENTRIES) as int, Some(e)),
        after.next_index() == before.next_index() + 1,
    ensures
        after.slots() == slots_after(h.push(e)),
        after.next_index() == h.push(e).len(),
{
    assert(h.push(e).drop_last() =~= h);
}

} // verus!
