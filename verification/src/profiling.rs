//! Opt-in sampled timings, and calls that have not come back.
use crate::diagnostics;
use crate::game_build::Build;
use crate::text;
use crate::text::push_decimal;
use vstd::prelude::*;

verus! {

pub const SAMPLE_EVERY: u64 = 1024;
/// How long a call is out before it is reported, in milliseconds.
pub const PENDING_MS: u64 = 2000;
pub const REPORT_MS: u64 = 5000;

/// Counters of one kind of call since the last report.
#[derive(Clone, Copy, Debug, PartialEq, Eq)]
pub struct Metric {
    pub name: &'static str,
    pub calls: u64,
    pub samples: u64,
    pub nanos: u64,
    pub max_nanos: u64,
}

/// A call whose duration is measured.
#[derive(Clone, Copy, Debug, PartialEq, Eq, Structural)]
pub struct Sample {
    pub started: u64,
}

/// A call was counted.
pub open spec fn entered(
    before: Metric,
    after: Metric,
    enabled: bool,
    now: u64,
    r: Option<Sample>,
) -> bool {
    &&& after.name == before.name
    &&& after.samples == before.samples
    &&& after.nanos == before.nanos
    &&& after.max_nanos == before.max_nanos
    &&& after.calls == (if enabled {
        before.calls.wrapping_add(1)
    } else {
        before.calls
    })
    &&& r == (if enabled && before.calls % SAMPLE_EVERY == 0 {
        Some(Sample { started: now })
    } else {
        None
    })
}

/// A call was timed.
pub open spec fn timed(before: Metric, after: Metric, nanos: u64) -> bool {
    &&& after.name == before.name
    &&& after.calls == before.calls
    &&& after.samples == before.samples.wrapping_add(1)
    &&& after.nanos == before.nanos.wrapping_add(nanos)
    &&& after.max_nanos == (if nanos > before.max_nanos {
        nanos
    } else {
        before.max_nanos
    })
}

/// The counters were taken.
pub open spec fn reported(before: Metric, after: Metric, r: Option<Metric>) -> bool {
    &&& after.fresh(before.name)
    &&& r == (if before.calls == 0 && before.samples == 0 {
        None
    } else {
        Some(before)
    })
}

impl Metric {
    pub open spec fn fresh(self, name: &'static str) -> bool {
        self.name == name && self.calls == 0 && self.samples == 0 && self.nanos == 0
            && self.max_nanos == 0
    }

    pub fn new(name: &'static str) -> (r: Self)
        ensures
            r.fresh(name),
    {
        Metric { name, calls: 0, samples: 0, nanos: 0, max_nanos: 0 }
    }

    /// Counts a call and decides whether it is timed: the first, and from then on every
    /// 1024th. While profiling is off nothing is counted.
    pub fn enter(&mut self, enabled: bool, now: u64) -> (r: Option<Sample>)
        ensures
            entered(*old(self), *final(self), enabled, now, r),
    {
        if !enabled {
            return None;
        }
        let call: u64 = self.calls;
        self.calls = call.wrapping_add(1);
        if call % SAMPLE_EVERY != 0 {
            return None;
        }
        Some(Sample { started: now })
    }

    /// Adds a timed call that took `nanos`.
    pub fn finish(&mut self, nanos: u64)
        ensures
            timed(*old(self), *final(self), nanos),
    {
        self.nanos = self.nanos.wrapping_add(nanos);
        if nanos > self.max_nanos {
            self.max_nanos = nanos;
        }
        self.samples = self.samples.wrapping_add(1);
    }

    /// Takes the counters for a report; `None` if there is nothing to report.
    pub fn take_window(&mut self) -> (r: Option<Metric>)
        ensures
            reported(*old(self), *final(self), r),
    {
        let taken: Metric = *self;
        *self = Metric::new(taken.name);
        if taken.calls == 0 && taken.samples == 0 {
            None
        } else {
            Some(taken)
        }
    }

    /// Adds this metric to the list of those that are reported, once. Metrics are told apart by
    /// `id`, such as the place where one is kept; two of the same name are two metrics.
    pub fn register(self, id: u64, metrics: &mut Vec<(u64, Metric)>)
        ensures
            final(metrics)@ == (if listed(old(metrics)@, id) {
                old(metrics)@
            } else {
                old(metrics)@.push((id, self))
            }),
    {
        let mut i: usize = 0;
        while i < metrics.len()
            invariant
                i <= metrics@.len(),
                metrics@ == old(metrics)@,
                forall|k: int| 0 <= k < i ==> (#[trigger] metrics@[k]).0 != id,
            decreases metrics@.len() - i,
        {
            if metrics[i].0 == id {
                assert(metrics@[i as int].0 == id);
                return;
            }
            i = i + 1;
        }
        metrics.push((id, self));
    }
}

/// Whether the metric with this identity is in the list.
pub open spec fn listed(metrics: Seq<(u64, Metric)>, id: u64) -> bool {
    exists|i: int| 0 <= i < metrics.len() && (#[trigger] metrics[i]).0 == id
}

/// The first call of a window is timed, and of 1024 calls in a row exactly one.
pub proof fn lemma_sampling(calls: u64)
    ensures
        0u64 % SAMPLE_EVERY == 0,
        calls % SAMPLE_EVERY == 0 ==> forall|k: int|
            0 < k < SAMPLE_EVERY ==> #[trigger] ((calls + k) % SAMPLE_EVERY as int) != 0,
{
}

/// When the next report is due.
pub open spec fn report_due_of(enabled: bool, last: u64, now: u64) -> bool {
    enabled && now - last >= REPORT_MS
}

/// Whether it is time for a report.
pub fn report_due(enabled: bool, last: u64, now: u64) -> (r: bool)
    ensures
        r == report_due_of(enabled, last, now),
{
    enabled && now >= last && now - last >= REPORT_MS
}

/// A call that is out; free if it has no owner.
#[derive(Clone, Copy, Debug)]
pub struct PendingSlot {
    pub owner: u64,
    pub metric: &'static str,
    pub thread: u32,
    pub since: u64,
}

/// A bounded table of the calls that are out.
pub struct PendingCalls {
    pub slots: Vec<PendingSlot>,
    pub next: u64,
    pub overflow: u64,
}

/// A place in the table, to be given back.
#[derive(Clone, Copy, Debug, PartialEq, Eq, Structural)]
pub struct Pending {
    pub slot: usize,
    pub token: u64,
}

/// The first free slot, searched from `start` on around the table; the table's size if there
/// is none.
pub open spec fn free_slot(slots: Seq<PendingSlot>, start: int, offset: int) -> int
    decreases slots.len() - offset,
{
    if offset >= slots.len() {
        slots.len() as int
    } else if slots[(start + offset) % slots.len() as int].owner == 0 {
        (start + offset) % slots.len() as int
    } else {
        free_slot(slots, start, offset + 1)
    }
}

/// The line for a call that is out.
pub open spec fn pending_line(s: PendingSlot, now: u64) -> Seq<char> {
    "PENDING thread="@ + text::decimal(s.thread as nat) + " call="@ + s.metric@ + " age_ms="@
        + text::decimal((now - s.since) as nat) + "\n"@
}

/// The lines for the first `n` slots whose calls have been out for long.
pub open spec fn pending_lines(slots: Seq<PendingSlot>, now: u64, n: int) -> Seq<char>
    decreases n,
{
    if n <= 0 {
        seq![]
    } else {
        let s = slots[n - 1];
        pending_lines(slots, now, n - 1) + if s.owner >= 2 && now - s.since >= PENDING_MS {
            pending_line(s, now)
        } else {
            seq![]
        }
    }
}

/// A call went out.
pub open spec fn went_out(
    before: PendingCalls,
    after: PendingCalls,
    metric: &'static str,
    thread: u32,
    since: u64,
    r: Option<Pending>,
) -> bool {
    let slots = before.slots@;
    let at = free_slot(slots, thread as int, 0);
    let entry = PendingSlot { owner: before.next, metric, thread, since };
    if at < slots.len() && before.next >= 2 {
        &&& r == Some(Pending { slot: at as usize, token: before.next })
        &&& after.slots@ == slots.update(at, entry)
        &&& after.next == before.next.wrapping_add(2)
        &&& after.overflow == before.overflow
    } else {
        &&& r is None
        &&& after.slots@ == slots
        &&& after.next == (if at < slots.len() {
            before.next.wrapping_add(2)
        } else {
            before.next
        })
        &&& after.overflow == before.overflow.wrapping_add(1)
    }
}

/// A call came back.
pub open spec fn came_back(before: PendingCalls, after: PendingCalls, pending: Pending) -> bool {
    &&& after.slots@ == before.slots@.update(
        pending.slot as int,
        (PendingSlot { owner: 0, ..before.slots@[pending.slot as int] }),
    )
    &&& after.next == before.next
    &&& after.overflow == before.overflow
}

impl PendingCalls {
    /// Tokens are even and not yet given out; 0 marks a free slot.
    pub open spec fn wf(self) -> bool {
        &&& self.slots@.len() > 0
        &&& forall|i: int| 0 <= i < self.slots@.len() ==> (#[trigger] self.slots@[i]).owner != 1
    }

    pub fn new(capacity: usize) -> (r: Self)
        requires
            capacity > 0,
        ensures
            r.wf(),
            r.slots@.len() == capacity,
            forall|i: int| 0 <= i < capacity ==> (#[trigger] r.slots@[i]).owner == 0,
            r.next == 2,
            r.overflow == 0,
    {
        let mut slots: Vec<PendingSlot> = Vec::new();
        let mut i: usize = 0;
        while i < capacity
            invariant
                i <= capacity,
                slots@.len() == i,
                forall|k: int| 0 <= k < i ==> (#[trigger] slots@[k]).owner == 0,
            decreases capacity - i,
        {
            slots.push(PendingSlot { owner: 0, metric: "", thread: 0, since: 0 });
            i = i + 1;
        }
        PendingCalls { slots, next: 2, overflow: 0 }
    }

    /// Enters a call; without a free slot, or once the tokens are used up, it is only counted.
    pub fn begin(&mut self, metric: &'static str, thread: u32, since: u64) -> (r: Option<Pending>)
        requires
            old(self).wf(),
        ensures
            final(self).wf(),
            went_out(*old(self), *final(self), metric, thread, since, r),
    {
        let n: usize = self.slots.len();
        let start: usize = (thread as u64 % n as u64) as usize;
        let mut offset: usize = 0;
        let mut i: usize = start;
        proof {
            vstd::arithmetic::div_mod::lemma_small_mod(start as nat, n as nat);
            vstd::arithmetic::div_mod::lemma_mod_twice(thread as int, n as int);
        }
        while offset < n
            invariant
                n == self.slots@.len(),
                n > 0,
                offset <= n,
                i < n,
                i == (thread as int + offset) % n as int,
                self.wf(),
                *self == *old(self),
                free_slot(self.slots@, thread as int, offset as int) == free_slot(
                    self.slots@,
                    thread as int,
                    0,
                ),
            decreases n - offset,
        {
            if self.slots[i].owner == 0 {
                let token: u64 = self.next;
                self.next = token.wrapping_add(2);
                if token < 2 {
                    self.overflow = self.overflow.wrapping_add(1);
                    return None;
                }
                self.slots.set(i, PendingSlot { owner: token, metric, thread, since });
                return Some(Pending { slot: i, token });
            }
            proof {
                lemma_next_index(thread as int + offset, n as int);
            }
            offset = offset + 1;
            i = if i + 1 == n {
                0
            } else {
                i + 1
            };
        }
        self.overflow = self.overflow.wrapping_add(1);
        None
    }

    /// Gives a slot back when its call returns.
    pub fn end(&mut self, pending: Pending)
        requires
            old(self).wf(),
            pending.slot < old(self).slots@.len(),
        ensures
            final(self).wf(),
            came_back(*old(self), *final(self), pending),
    {
        let mut slot: PendingSlot = self.slots[pending.slot];
        slot.owner = 0;
        self.slots.set(pending.slot, slot);
    }

    /// Appends the calls that have been out for two seconds or more, and how many could not be
    /// entered since the last time.
    pub fn append(&mut self, report: &mut String, now: u64)
        ensures
            final(self).slots@ == old(self).slots@,
            final(self).next == old(self).next,
            final(self).overflow == 0,
            final(report)@ == old(report)@ + pending_lines(
                old(self).slots@,
                now,
                old(self).slots@.len() as int,
            ) + (if old(self).overflow != 0 {
                "PENDING overflow="@ + text::decimal(old(self).overflow as nat)
                    + " (tracking capacity exceeded)\n"@
            } else {
                seq![]
            }),
    {
        let ghost head = report@;
        let mut i: usize = 0;
        assert(head + pending_lines(self.slots@, now, 0) =~= head);
        while i < self.slots.len()
            invariant
                i <= self.slots@.len(),
                *self == *old(self),
                report@ == head + pending_lines(self.slots@, now, i as int),
            decreases self.slots@.len() - i,
        {
            let slot: PendingSlot = self.slots[i];
            if slot.owner >= 2 && now >= slot.since && now - slot.since >= PENDING_MS {
                report.append("PENDING thread=");
                push_decimal(report, slot.thread as u64);
                report.append(" call=");
                report.append(slot.metric);
                report.append(" age_ms=");
                push_decimal(report, now - slot.since);
                report.append("\n");
            }
            assert(report@ =~= head + pending_lines(self.slots@, now, i + 1));
            i = i + 1;
        }
        let dropped: u64 = self.overflow;
        self.overflow = 0;
        if dropped != 0 {
            report.append("PENDING overflow=");
            push_decimal(report, dropped);
            report.append(" (tracking capacity exceeded)\n");
        }
        assert(report@ =~= head + pending_lines(
            old(self).slots@,
            now,
            old(self).slots@.len() as int,
        ) + (if old(self).overflow != 0 {
            "PENDING overflow="@ + text::decimal(old(self).overflow as nat)
                + " (tracking capacity exceeded)\n"@
        } else {
            seq![]
        }));
    }
}

proof fn lemma_next_index(a: int, n: int)
    requires
        n > 0,
        a >= 0,
    ensures
        (a + 1) % n == (if a % n + 1 == n {
            0
        } else {
            a % n + 1
        }),
{
    vstd::arithmetic::div_mod::lemma_add_mod_noop(a, 1, n);
    if n == 1 {
        vstd::arithmetic::div_mod::lemma_mod_self_0(1);
    } else {
        vstd::arithmetic::div_mod::lemma_small_mod(1, n as nat);
        if a % n + 1 == n {
            vstd::arithmetic::div_mod::lemma_mod_self_0(n);
        } else {
            vstd::arithmetic::div_mod::lemma_small_mod((a % n + 1) as nat, n as nat);
        }
    }
}

/// A call stays in the table, and so in every report, until it comes back: beginning another
/// call never takes its slot.
pub proof fn lemma_pending_survives(
    slots: Seq<PendingSlot>,
    start: int,
    entry: PendingSlot,
    i: int,
)
    requires
        slots.len() > 0,
        start >= 0,
        0 <= i < slots.len(),
        slots[i].owner != 0,
    ensures
        free_slot(slots, start, 0) < slots.len() ==> slots.update(
            free_slot(slots, start, 0),
            entry,
        )[i] == slots[i],
{
    lemma_free_slot(slots, start, 0);
}

proof fn lemma_free_slot(slots: Seq<PendingSlot>, start: int, offset: int)
    requires
        slots.len() > 0,
        start >= 0,
        0 <= offset <= slots.len(),
    ensures
        0 <= free_slot(slots, start, offset) <= slots.len(),
        free_slot(slots, start, offset) < slots.len() ==> slots[free_slot(
            slots,
            start,
            offset,
        )].owner == 0,
    decreases slots.len() - offset,
{
    if offset < slots.len() {
        vstd::arithmetic::div_mod::lemma_mod_bound(start + offset, slots.len() as int);
        lemma_free_slot(slots, start, offset + 1);
    }
}

/// What starts a session in the log of the profile. `time` is as the system writes it.
pub fn session_header(time: &str, build: Build, debug: bool) -> (r: String)
    ensures
        r@ == "\nT7 Patch profile "@ + time@ + ": game="@ + diagnostics::build_name(build)
            + ", debug_assertions="@ + diagnostics::flag_name(debug)
            + ", sample_every=1024, ui_strings=direct-bounded-v1, hang_tracking=v1, lobby_reader=validated-v2\nApproximate 5s windows. Timings are sampled, inclusive wall time (nested metrics overlap); max is the sampled maximum. Exception timings exclude OS dispatch/resume overhead.\nmetric calls calls/s samples avg_us max_us\n"@,
{
    let mut out = "\nT7 Patch profile ".to_owned();
    out.append(time);
    out.append(": game=");
    out.append(diagnostics::build_text(build));
    out.append(", debug_assertions=");
    out.append(diagnostics::flag_text(debug));
    out.append(
        ", sample_every=1024, ui_strings=direct-bounded-v1, hang_tracking=v1, lobby_reader=validated-v2\nApproximate 5s windows. Timings are sampled, inclusive wall time (nested metrics overlap); max is the sampled maximum. Exception timings exclude OS dispatch/resume overhead.\nmetric calls calls/s samples avg_us max_us\n",
    );
    out
}

} // verus!
