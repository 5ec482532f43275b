//! A bounded view of the protection journal: recent events by kind, without raw fields.
use crate::text;
use crate::text::{find_byte, push_decimal, text_of_utf8};
use crate::words;
use crate::words::{field, has_word, read_unsigned64, to_chars, to_text};
use std::collections::VecDeque;
use vstd::prelude::*;

verus! {

pub const MAX_BYTES: u64 = 256 * 1024;
pub const MAX_EVENTS: usize = 200;

#[derive(Clone, Copy, Debug, PartialEq, Eq, Structural)]
pub enum Filter {
    All,
    Rejected,
    Limited,
    Diagnostics,
}

impl Filter {
    pub open spec fn spec_next(self) -> Filter {
        match self {
            Filter::All => Filter::Rejected,
            Filter::Rejected => Filter::Limited,
            Filter::Limited => Filter::Diagnostics,
            Filter::Diagnostics => Filter::All,
        }
    }

    pub open spec fn spec_title(self) -> Seq<char> {
        match self {
            Filter::All => "All"@,
            Filter::Rejected => "Rejected"@,
            Filter::Limited => "Rate limits"@,
            Filter::Diagnostics => "Diagnostics"@,
        }
    }

    /// The filter that the button switches to.
    pub fn next(self) -> (r: Self)
        ensures
            r == self.spec_next(),
    {
        match self {
            Filter::All => Filter::Rejected,
            Filter::Rejected => Filter::Limited,
            Filter::Limited => Filter::Diagnostics,
            Filter::Diagnostics => Filter::All,
        }
    }

    pub fn title(self) -> (r: &'static str)
        ensures
            r@ == self.spec_title(),
    {
        match self {
            Filter::All => "All",
            Filter::Rejected => "Rejected",
            Filter::Limited => "Rate limits",
            Filter::Diagnostics => "Diagnostics",
        }
    }

    /// Pressing the button often enough comes back to the same filter, through all others.
    pub proof fn lemma_cycle(self, other: Filter)
        ensures
            self.spec_next().spec_next().spec_next().spec_next() == self,
            other == self || other == self.spec_next() || other == self.spec_next().spec_next()
                || other == self.spec_next().spec_next().spec_next(),
    {
    }
}

#[derive(Debug, PartialEq, Eq)]
pub struct Entry {
    pub time: String,
    pub category: Filter,
    pub label: &'static str,
    pub count: u64,
}

/// What an entry says.
#[verifier::ext_equal]
pub struct Shown {
    pub time: Seq<char>,
    pub category: Filter,
    pub label: Seq<char>,
    pub count: u64,
}

impl View for Entry {
    type V = Shown;

    open spec fn view(&self) -> Shown {
        Shown { time: self.time@, category: self.category, label: self.label@, count: self.count }
    }
}

#[derive(Debug, PartialEq, Eq)]
pub struct Snapshot {
    pub entries: VecDeque<Entry>,
    pub notice: String,
    pub available: bool,
}

impl Snapshot {
    /// The events, oldest first.
    pub open spec fn events(self) -> Seq<Shown> {
        Seq::new(self.entries@.len(), |i: int| self.entries@[i]@)
    }
}

/// The last `MAX_EVENTS` of `all`.
pub open spec fn latest(all: Seq<Shown>) -> Seq<Shown> {
    if all.len() > MAX_EVENTS {
        all.skip(all.len() - MAX_EVENTS)
    } else {
        all
    }
}

impl Default for Snapshot {
    fn default() -> (r: Self)
        ensures
            r.events() == Seq::<Shown>::empty(),
            r.notice@ == Seq::<char>::empty(),
            !r.available,
    {
        let r = Snapshot { entries: VecDeque::new(), notice: String::new(), available: false };
        assert(r.events() =~= Seq::<Shown>::empty());
        r
    }
}

/// The saturating sum of the counts of one category.
pub open spec fn total_of(events: Seq<Shown>, category: Filter) -> u64
    decreases events.len(),
{
    if events.len() == 0 {
        0
    } else {
        let before = total_of(events.drop_last(), category);
        if events.last().category == category {
            before.saturating_add(events.last().count)
        } else {
            before
        }
    }
}

/// One line of the list.
pub open spec fn row(e: Shown) -> Seq<char> {
    e.time + " | "@ + e.category.spec_title() + " | "@ + e.label + ": "@ + text::decimal(
        e.count as nat,
    )
}

/// The lines of the list under `filter`, newest first.
pub open spec fn rows(events: Seq<Shown>, filter: Filter) -> Seq<Seq<char>>
    decreases events.len(),
{
    if events.len() == 0 {
        seq![]
    } else if filter == Filter::All || events.last().category == filter {
        seq![row(events.last())] + rows(events.drop_last(), filter)
    } else {
        rows(events.drop_last(), filter)
    }
}

/// Lines joined for a Windows edit control.
pub open spec fn joined(lines: Seq<Seq<char>>) -> Seq<char>
    decreases lines.len(),
{
    if lines.len() == 0 {
        seq![]
    } else if lines.len() == 1 {
        lines[0]
    } else {
        joined(lines.drop_last()) + "\r\n"@ + lines.last()
    }
}

impl Snapshot {
    /// Adds an event; the oldest leaves when there is no room.
    pub fn push(&mut self, entry: Entry)
        requires
            old(self).entries@.len() <= MAX_EVENTS,
        ensures
            final(self).events() == latest(old(self).events().push(entry@)),
            final(self).entries@.len() <= MAX_EVENTS,
            final(self).notice@ == old(self).notice@,
            final(self).available == old(self).available,
    {
        if self.entries.len() == MAX_EVENTS {
            let _ = self.entries.pop_front();
        }
        self.entries.push_back(entry);
        assert(self.events() =~= latest(old(self).events().push(entry@)));
    }

    fn total(&self, category: Filter) -> (r: u64)
        ensures
            r == total_of(self.events(), category),
    {
        let mut sum: u64 = 0;
        let mut i: usize = 0;
        while i < self.entries.len()
            invariant
                i <= self.entries@.len(),
                sum == total_of(self.events().take(i as int), category),
            decreases self.entries@.len() - i,
        {
            let entry: &Entry = &self.entries[i];
            assert(self.events().take(i + 1).drop_last() =~= self.events().take(i as int));
            assert(self.events().take(i + 1).last() == entry@);
            if entry.category == category {
                sum = sum.saturating_add(entry.count);
            }
            i = i + 1;
        }
        assert(self.events().take(i as int) =~= self.events());
        sum
    }

    /// The line above the list.
    pub fn summary(&self) -> (r: String)
        ensures
            r@ == "Recent totals: "@ + text::decimal(
                total_of(self.events(), Filter::Rejected) as nat,
            ) + " rejected · "@ + text::decimal(total_of(self.events(), Filter::Limited) as nat)
                + " rate-limited · "@ + text::decimal(
                total_of(self.events(), Filter::Diagnostics) as nat,
            ) + " diagnostics"@,
    {
        let mut out = "Recent totals: ".to_owned();
        push_decimal(&mut out, self.total(Filter::Rejected));
        out.append(" rejected · ");
        push_decimal(&mut out, self.total(Filter::Limited));
        out.append(" rate-limited · ");
        push_decimal(&mut out, self.total(Filter::Diagnostics));
        out.append(" diagnostics");
        out
    }

    /// The list under `filter`, newest first.
    pub fn text(&self, filter: Filter) -> (r: String)
        ensures
            r@ == (if rows(self.events(), filter).len() == 0 {
                "No recorded events for this filter."@
            } else {
                joined(rows(self.events(), filter))
            }),
    {
        let mut out = String::new();
        let mut empty: bool = true;
        let mut i: usize = self.entries.len();
        let ghost mut done: Seq<Seq<char>> = seq![];
        assert(self.events().take(i as int) =~= self.events());
        assert(done + rows(self.events(), filter) =~= rows(self.events(), filter));
        while i > 0
            invariant
                i <= self.entries@.len(),
                done + rows(self.events().take(i as int), filter) == rows(self.events(), filter),
                out@ == joined(done),
                empty == (done.len() == 0),
            decreases i,
        {
            let entry: &Entry = &self.entries[i - 1];
            let ghost head = self.events().take(i as int);
            assert(head.drop_last() =~= self.events().take(i - 1));
            assert(head.last() == entry@);
            if filter == Filter::All || entry.category == filter {
                let ghost before = done;
                if !empty {
                    out.append("\r\n");
                }
                out.append(entry.time.as_str());
                out.append(" | ");
                out.append(entry.category.title());
                out.append(" | ");
                out.append(entry.label);
                out.append(": ");
                push_decimal(&mut out, entry.count);
                empty = false;
                proof {
                    done = before.push(row(entry@));
                    assert(done.drop_last() =~= before);
                    if before.len() == 0 {
                        assert(out@ =~= row(entry@));
                    } else {
                        assert(out@ =~= joined(before) + "\r\n"@ + row(entry@));
                    }
                    assert(done + rows(self.events().take(i - 1), filter) =~= before + (seq![
                        row(entry@),
                    ] + rows(self.events().take(i - 1), filter)));
                }
            }
            i = i - 1;
        }
        assert(self.events().take(0) =~= Seq::<Shown>::empty());
        assert(done + rows(self.events().take(0), filter) =~= done);
        if empty {
            return "No recorded events for this filter.".to_owned();
        }
        out
    }
}

/// A byte that a UTC time consists of.
pub open spec fn is_time_byte(b: u8) -> bool {
    48 <= b <= 57 || b == 45 || b == 58 || b == 84 || b == 90
}

/// A number of at least two digits.
pub open spec fn two_digits(n: nat) -> Seq<char> {
    if n < 10 {
        "0"@ + text::decimal(n)
    } else {
        text::decimal(n)
    }
}

/// The time of a line that has no UTC time: hours, minutes and seconds since the machine
/// started.
pub open spec fn boot_time(tick: nat) -> Seq<char> {
    let seconds = tick / 1000;
    "Boot +"@ + two_digits(seconds / 3600) + ":"@ + two_digits(seconds / 60 % 60) + ":"@ + two_digits(
        seconds % 60,
    )
}

/// The time of a line, if it has one.
pub open spec fn time_of(w: Seq<Seq<u8>>) -> Option<Seq<char>> {
    match words::field_of(w, text::utf8("utc="@)) {
        Some(utc) => if utc.len() == 20 && forall|i: int|
            0 <= i < utc.len() ==> is_time_byte(#[trigger] utc[i]) {
            Some(words::as_chars(utc))
        } else {
            tick_time_of(w)
        },
        None => tick_time_of(w),
    }
}

pub open spec fn tick_time_of(w: Seq<Seq<u8>>) -> Option<Seq<char>> {
    match words::field_of(w, text::utf8("tick="@)) {
        Some(value) => match words::unsigned64(value) {
            Some(tick) => Some(boot_time(tick as nat)),
            None => None,
        },
        None => None,
    }
}

/// The counters of a `network-guard` line, in the order in which they are listed.
pub open spec fn guard_key(i: int) -> Seq<char> {
    if i == 0 {
        "envelope="@
    } else if i == 1 {
        "instant="@
    } else if i == 2 {
        "p2p="@
    } else if i == 3 {
        "lobby="@
    } else if i == 4 {
        "social_limited="@
    } else if i == 5 {
        "instant_limited="@
    } else if i == 6 {
        "p2p_limited="@
    } else if i == 7 {
        "oob_limited="@
    } else {
        "friends_refresh_failed="@
    }
}

pub open spec fn guard_category(i: int) -> Filter {
    if i < 4 {
        Filter::Rejected
    } else if i < 8 {
        Filter::Limited
    } else {
        Filter::Diagnostics
    }
}

pub open spec fn guard_label(i: int) -> Seq<char> {
    if i == 0 {
        "Invalid message descriptors"@
    } else if i == 1 {
        "Instant-message checks"@
    } else if i == 2 {
        "P2P buffer checks"@
    } else if i == 3 {
        "Lobby-message checks"@
    } else if i == 4 {
        "Social actions"@
    } else if i == 5 {
        "Instant messages"@
    } else if i == 6 {
        "P2P control traffic"@
    } else if i == 7 {
        "Connectionless responses"@
    } else {
        "Friend refresh retries"@
    }
}

/// The value of one counter; 0 if it is absent or no number.
pub open spec fn guard_count(w: Seq<Seq<u8>>, i: int) -> int {
    match words::field_of(w, text::utf8(guard_key(i))) {
        Some(value) => match words::unsigned64(value) {
            Some(v) => v,
            None => 0,
        },
        None => 0,
    }
}

/// The events of a `network-guard` line from the `i`-th counter on: one for each that counted.
pub open spec fn guard_events(w: Seq<Seq<u8>>, time: Seq<char>, i: int) -> Seq<Shown>
    decreases 9 - i,
{
    if i >= 9 {
        seq![]
    } else {
        let rest = guard_events(w, time, i + 1);
        if guard_count(w, i) == 0 {
            rest
        } else {
            seq![
                Shown {
                    time,
                    category: guard_category(i),
                    label: guard_label(i),
                    count: guard_count(w, i) as u64,
                },
            ] + rest
        }
    }
}

/// What the first word that is known says of a line, if it is no counter line.
pub open spec fn note_of(w: Seq<Seq<u8>>) -> Option<Seq<char>> {
    if w.contains(text::utf8("session-start"@)) {
        Some("Patch initialization started"@)
    } else if w.contains(text::utf8("reader-diagnostic"@)) && w.contains(
        text::utf8("action=observe"@),
    ) {
        Some("Reader observation (not a block)"@)
    } else if w.contains(text::utf8("unhandled-exception"@)) || w.contains(
        text::utf8("fatal-script"@),
    ) {
        Some("Game error (see full journal)"@)
    } else {
        None
    }
}

/// The events of one line.
pub open spec fn line_events(line: Seq<u8>) -> Seq<Shown> {
    let w = words::words_of(line);
    if !vstd::utf8::valid_utf8(line) {
        seq![]
    } else {
        match time_of(w) {
            None => seq![],
            Some(time) => if w.contains(text::utf8("network-guard"@)) {
                guard_events(w, time, 0)
            } else {
                match note_of(w) {
                    Some(label) => seq![
                        Shown { time, category: Filter::Diagnostics, label, count: 1 },
                    ],
                    None => seq![],
                }
            },
        }
    }
}

/// The events of all lines.
pub open spec fn events_of(s: Seq<u8>) -> Seq<Shown>
    decreases s.len(),
{
    let end = text::find_from(s, 10, 0);
    if end >= s.len() {
        line_events(s)
    } else {
        proof {
            text::lemma_find_from(s, 10, 0);
        }
        line_events(s.take(end)) + events_of(s.skip(end + 1))
    }
}

/// The index of the last line feed before `n`, or -1.
pub open spec fn last_break(s: Seq<u8>, n: int) -> int
    decreases n,
{
    if n <= 0 {
        -1
    } else if s[n - 1] == 10 {
        n - 1
    } else {
        last_break(s, n - 1)
    }
}

/// The complete lines of a journal excerpt: a last line without its line feed is left out, and
/// with `skip_first` the first line too, whose beginning may be missing.
pub open spec fn complete_lines(s: Seq<u8>, skip_first: bool) -> Seq<u8> {
    let end = last_break(s, s.len() as int);
    if skip_first {
        s.subrange(text::find_from(s, 10, 0) + 1, end + 1)
    } else {
        s.take(end + 1)
    }
}

/// The events of a journal excerpt.
pub open spec fn journal_events(s: Seq<u8>, skip_first: bool) -> Seq<Shown> {
    if last_break(s, s.len() as int) < 0 {
        seq![]
    } else {
        events_of(complete_lines(s, skip_first))
    }
}

proof fn lemma_latest_again(a: Seq<Shown>, b: Seq<Shown>)
    ensures
        latest(latest(a) + b) == latest(a + b),
{
    assert(latest(latest(a) + b) =~= latest(a + b));
}

fn push_two_digits(out: &mut String, n: u64)
    ensures
        final(out)@ == old(out)@ + two_digits(n as nat),
{
    if n < 10 {
        out.append("0");
    }
    push_decimal(out, n);
    assert(out@ =~= old(out)@ + two_digits(n as nat));
}

fn all_time_bytes(s: &[u8]) -> (r: bool)
    ensures
        r == forall|i: int| 0 <= i < s@.len() ==> is_time_byte(#[trigger] s@[i]),
{
    let mut i: usize = 0;
    while i < s.len()
        invariant
            i <= s@.len(),
            forall|k: int| 0 <= k < i ==> is_time_byte(#[trigger] s@[k]),
        decreases s@.len() - i,
    {
        let b: u8 = s[i];
        if !((b >= 48 && b <= 57) || b == 45 || b == 58 || b == 84 || b == 90) {
            assert(!is_time_byte(s@[i as int]));
            return false;
        }
        i = i + 1;
    }
    true
}

pub open spec fn same_text(r: Option<String>, spec: Option<Seq<char>>) -> bool {
    match (r, spec) {
        (Some(v), Some(s)) => v@ == s,
        (None, None) => true,
        _ => false,
    }
}

fn tick_time(w: &Vec<&[u8]>) -> (r: Option<String>)
    ensures
        same_text(r, tick_time_of(words::contents(w@))),
{
    let value: &[u8] = match field(w, "tick=") {
        Some(v) => v,
        None => return None,
    };
    let tick: u64 = match read_unsigned64(value) {
        Some(v) => v,
        None => return None,
    };
    let seconds: u64 = tick / 1000;
    let mut out = "Boot +".to_owned();
    push_two_digits(&mut out, seconds / 3600);
    out.append(":");
    push_two_digits(&mut out, seconds / 60 % 60);
    out.append(":");
    push_two_digits(&mut out, seconds % 60);
    Some(out)
}

fn time(w: &Vec<&[u8]>) -> (r: Option<String>)
    ensures
        same_text(r, time_of(words::contents(w@))),
{
    match field(w, "utc=") {
        Some(utc) => if utc.len() == 20 && all_time_bytes(utc) {
            Some(to_text(to_chars(utc).as_slice()))
        } else {
            tick_time(w)
        },
        None => tick_time(w),
    }
}

fn guard_row(i: usize) -> (r: (&'static str, Filter, &'static str))
    requires
        i < 9,
    ensures
        r.0@ == guard_key(i as int),
        r.1 == guard_category(i as int),
        r.2@ == guard_label(i as int),
{
    match i {
        0 => ("envelope=", Filter::Rejected, "Invalid message descriptors"),
        1 => ("instant=", Filter::Rejected, "Instant-message checks"),
        2 => ("p2p=", Filter::Rejected, "P2P buffer checks"),
        3 => ("lobby=", Filter::Rejected, "Lobby-message checks"),
        4 => ("social_limited=", Filter::Limited, "Social actions"),
        5 => ("instant_limited=", Filter::Limited, "Instant messages"),
        6 => ("p2p_limited=", Filter::Limited, "P2P control traffic"),
        7 => ("oob_limited=", Filter::Limited, "Connectionless responses"),
        _ => ("friends_refresh_failed=", Filter::Diagnostics, "Friend refresh retries"),
    }
}

fn note(w: &Vec<&[u8]>) -> (r: Option<&'static str>)
    ensures
        match (r, note_of(words::contents(w@))) {
            (Some(label), Some(spec)) => label@ == spec,
            (None, None) => true,
            _ => false,
        },
{
    if has_word(w, "session-start") {
        Some("Patch initialization started")
    } else if has_word(w, "reader-diagnostic") && has_word(w, "action=observe") {
        Some("Reader observation (not a block)")
    } else if has_word(w, "unhandled-exception") || has_word(w, "fatal-script") {
        Some("Game error (see full journal)")
    } else {
        None
    }
}

impl Snapshot {
    fn add_guard(&mut self, w: &Vec<&[u8]>, time: &String)
        requires
            old(self).entries@.len() <= MAX_EVENTS,
        ensures
            final(self).events() == latest(
                old(self).events() + guard_events(words::contents(w@), time@, 0),
            ),
            final(self).entries@.len() <= MAX_EVENTS,
            final(self).notice@ == old(self).notice@,
            final(self).available == old(self).available,
    {
        let ghost spec = words::contents(w@);
        let ghost mut done: Seq<Shown> = seq![];
        let mut i: usize = 0;
        assert(old(self).events() + done =~= old(self).events());
        assert(done + guard_events(spec, time@, 0) =~= guard_events(spec, time@, 0));
        while i < 9
            invariant
                i <= 9,
                spec == words::contents(w@),
                self.entries@.len() <= MAX_EVENTS,
                self.events() == latest(old(self).events() + done),
                done + guard_events(spec, time@, i as int) == guard_events(spec, time@, 0),
                self.notice@ == old(self).notice@,
                self.available == old(self).available,
            decreases 9 - i,
        {
            let (key, category, label): (&str, Filter, &'static str) = guard_row(i);
            let count: u64 = match field(w, key) {
                Some(value) => match read_unsigned64(value) {
                    Some(v) => v,
                    None => 0,
                },
                None => 0,
            };
            assert(count == guard_count(spec, i as int));
            if count != 0 {
                let ghost before = done;
                let entry = Entry { time: time.clone(), category, label, count };
                let ghost shown = entry@;
                self.push(entry);
                proof {
                    done = before.push(shown);
                    lemma_latest_again(old(self).events() + before, seq![shown]);
                    assert(latest(old(self).events() + before).push(shown) =~= latest(
                        old(self).events() + before,
                    ) + seq![shown]);
                    assert(old(self).events() + done =~= old(self).events() + before + seq![shown]);
                    assert(done + guard_events(spec, time@, i + 1) =~= before + (seq![shown]
                        + guard_events(spec, time@, i + 1)));
                }
            }
            i = i + 1;
        }
        assert(done + guard_events(spec, time@, 9) =~= done);
    }

    fn add_line(&mut self, line: &[u8])
        requires
            old(self).entries@.len() <= MAX_EVENTS,
        ensures
            final(self).events() == latest(old(self).events() + line_events(line@)),
            final(self).entries@.len() <= MAX_EVENTS,
            final(self).notice@ == old(self).notice@,
            final(self).available == old(self).available,
    {
        assert(latest(old(self).events()) =~= old(self).events());
        assert(old(self).events() + Seq::<Shown>::empty() =~= old(self).events());
        if text_of_utf8(line).is_none() {
            return;
        }
        let w: Vec<&[u8]> = words::words(line);
        match time(&w) {
            None => {},
            Some(time) => if has_word(&w, "network-guard") {
                self.add_guard(&w, &time);
            } else {
                match note(&w) {
                    Some(label) => {
                        let entry = Entry {
                            time,
                            category: Filter::Diagnostics,
                            label,
                            count: 1,
                        };
                        let ghost shown = entry@;
                        self.push(entry);
                        assert(old(self).events().push(shown) =~= old(self).events() + seq![shown]);
                    },
                    None => {},
                }
            },
        }
    }
}

fn find_last_break(s: &[u8]) -> (r: Option<usize>)
    ensures
        match r {
            Some(i) => i == last_break(s@, s@.len() as int) && i < s@.len() && s@[i as int] == 10,
            None => last_break(s@, s@.len() as int) < 0,
        },
{
    let mut n: usize = s.len();
    while n > 0
        invariant
            n <= s@.len(),
            last_break(s@, n as int) == last_break(s@, s@.len() as int),
        decreases n,
    {
        if s[n - 1] == 10 {
            return Some(n - 1);
        }
        n = n - 1;
    }
    None
}

/// Reads a journal excerpt and keeps its latest events.
pub fn parse(bytes: &[u8], skip_first: bool) -> (r: Snapshot)
    ensures
        r.events() == latest(journal_events(bytes@, skip_first)),
        r.entries@.len() <= MAX_EVENTS,
        r.notice@ == Seq::<char>::empty(),
        !r.available,
{
    let mut snapshot: Snapshot = Snapshot::default();
    assert(snapshot.entries@.len() == snapshot.events().len());
    let length: usize = bytes.len();
    let end: usize = match find_last_break(bytes) {
        Some(i) => i,
        None => return snapshot,
    };
    let start: usize = if skip_first {
        let first: usize = find_byte(bytes, 10, 0);
        assert(first <= end && end < length);
        first + 1
    } else {
        0
    };
    let body: &[u8] = vstd::slice::slice_subrange(bytes, start, end + 1);
    assert(body@ =~= complete_lines(bytes@, skip_first));
    let n: usize = body.len();
    let mut at: usize = 0;
    let ghost mut done: Seq<Shown> = seq![];
    assert(body@.skip(0) =~= body@);
    assert(done + events_of(body@) =~= events_of(body@));
    assert(latest(done) =~= done);
    loop
        invariant_except_break
            done + events_of(body@.skip(at as int)) == events_of(body@),
        invariant
            at <= n,
            n == body@.len(),
            snapshot.entries@.len() <= MAX_EVENTS,
            snapshot.events() == latest(done),
            snapshot.notice@ == Seq::<char>::empty(),
            !snapshot.available,
        ensures
            snapshot.events() == latest(events_of(body@)),
            snapshot.entries@.len() <= MAX_EVENTS,
            snapshot.notice@ == Seq::<char>::empty(),
            !snapshot.available,
        decreases n - at,
    {
        let stop: usize = find_byte(body, 10, at);
        let line: &[u8] = vstd::slice::slice_subrange(body, at, stop);
        let ghost rest = body@.skip(at as int);
        let ghost before = done;
        proof {
            text::lemma_find_in_suffix(body@, 10, at as int, at as int);
            assert(rest.take(stop - at) =~= line@);
            assert(stop == n ==> rest =~= line@);
            lemma_latest_again(before, line_events(line@));
            done = before + line_events(line@);
        }
        snapshot.add_line(line);
        if stop == n {
            break;
        }
        assert(rest.skip(stop - at + 1) =~= body@.skip(stop + 1));
        assert(done + events_of(body@.skip(stop + 1)) =~= before + (line_events(line@) + events_of(
            body@.skip(stop + 1),
        )));
        at = stop + 1;
    }
    snapshot
}

/// Where the part of a log starts that is read.
pub open spec fn excerpt_start_of(length: u64) -> int {
    if length > MAX_BYTES {
        length - MAX_BYTES
    } else {
        0
    }
}

/// Where to start reading a journal of `length` bytes.
pub fn excerpt_start(length: u64) -> (r: u64)
    ensures
        r == excerpt_start_of(length),
{
    length.saturating_sub(MAX_BYTES)
}

/// The snapshot of an excerpt that was read from `offset` on.
pub fn loaded(bytes: &[u8], offset: u64) -> (r: Snapshot)
    ensures
        r.events() == latest(journal_events(bytes@, offset != 0)),
        r.available,
        r.notice@ == "Latest 200 events from up to 256 KiB · UTC / legacy boot time"@,
{
    let mut snapshot: Snapshot = parse(bytes, offset != 0);
    snapshot.available = true;
    snapshot.notice = "Latest 200 events from up to 256 KiB · UTC / legacy boot time".to_owned();
    assert(snapshot.events() =~= latest(journal_events(bytes@, offset != 0)));
    snapshot
}

/// The snapshot of a journal that could not be read; `error` is `None` if there is none yet.
pub fn unreadable(error: Option<&str>) -> (r: Snapshot)
    ensures
        r.events() == Seq::<Shown>::empty(),
        !r.available,
        r.notice@ == (match error {
            None => "No journal beside the launcher yet."@,
            Some(error) => "Cannot read journal: "@ + error@,
        }),
{
    let mut snapshot: Snapshot = Snapshot::default();
    let mut notice = String::new();
    match error {
        None => {
            notice.append("No journal beside the launcher yet.");
            assert(notice@ =~= "No journal beside the launcher yet."@);
        },
        Some(error) => {
            notice.append("Cannot read journal: ");
            notice.append(error);
            assert(notice@ =~= "Cannot read journal: "@ + error@);
        },
    }
    snapshot.notice = notice;
    assert(snapshot.events() =~= Seq::<Shown>::empty());
    snapshot
}

/// The journal that the launcher shows while reading is off.
pub open spec fn preview() -> Seq<char> {
    "tick=1000 utc=2026-09-15T12:00:00Z network-guard envelope=2 social_limited=3 friends_refresh_failed=1\ntick=2000 utc=2026-09-15T12:00:10Z reader-diagnostic action=observe\n"@
}

/// The snapshot before the first reading: sample events if reading is off.
pub fn initial(enabled: bool) -> (r: Snapshot)
    ensures
        !r.available,
        if enabled {
            r.events() == Seq::<Shown>::empty() && r.notice@ == "Reading protection journal…"@
        } else {
            r.events() == latest(journal_events(text::utf8(preview()), false)) && r.notice@
                == "Preview · sample events (not live) · journal reading disabled"@
        },
{
    if enabled {
        let mut snapshot: Snapshot = Snapshot::default();
        snapshot.notice = "Reading protection journal…".to_owned();
        assert(snapshot.events() =~= Seq::<Shown>::empty());
        snapshot
    } else {
        let sample: &str = "tick=1000 utc=2026-09-15T12:00:00Z network-guard envelope=2 social_limited=3 friends_refresh_failed=1\ntick=2000 utc=2026-09-15T12:00:10Z reader-diagnostic action=observe\n";
        let mut snapshot: Snapshot = parse(sample.as_bytes(), false);
        snapshot.notice = "Preview · sample events (not live) · journal reading disabled".to_owned();
        assert(snapshot.events() =~= latest(journal_events(text::utf8(preview()), false)));
        snapshot
    }
}

proof fn lemma_last_break(s: Seq<u8>, n: int)
    requires
        0 <= n <= s.len(),
    ensures
        -1 <= last_break(s, n) < n,
        last_break(s, n) >= 0 ==> s[last_break(s, n)] == 10,
        forall|i: int| last_break(s, n) < i < n ==> s[i] != 10,
    decreases n,
{
    if n > 0 && s[n - 1] != 10 {
        lemma_last_break(s, n - 1);
    }
}

/// A line that is still being written changes nothing.
pub proof fn lemma_partial_tail_ignored(s: Seq<u8>, tail: Seq<u8>, skip_first: bool)
    requires
        s.len() > 0,
        s.last() == 10,
        forall|i: int| 0 <= i < tail.len() ==> tail[i] != 10,
    ensures
        journal_events(s + tail, skip_first) == journal_events(s, skip_first),
{
    let all = s + tail;
    lemma_last_break(all, all.len() as int);
    assert(all[s.len() - 1] == 10);
    assert(last_break(all, all.len() as int) == s.len() - 1) by {
        let k = last_break(all, all.len() as int);
        if k >= s.len() {
            assert(all[k] == tail[k - s.len()]);
        }
    }
    assert(last_break(s, s.len() as int) == s.len() - 1);
    text::lemma_find_from(s, 10, 0);
    text::lemma_find_from(all, 10, 0);
    assert(text::find_from(all, 10, 0) == text::find_from(s, 10, 0)) by {
        let a = text::find_from(all, 10, 0);
        let b = text::find_from(s, 10, 0);
        if b < s.len() {
            assert(all[b] == s[b]);
        }
        if a < s.len() {
            assert(s[a] == all[a]);
        }
    }
    assert(complete_lines(all, skip_first) =~= complete_lines(s, skip_first));
}

/// A first line whose beginning is missing changes nothing.
pub proof fn lemma_partial_head_ignored(head: Seq<u8>, s: Seq<u8>)
    requires
        forall|i: int| 0 <= i < head.len() ==> head[i] != 10,
    ensures
        journal_events(head + seq![10u8] + s, true) == journal_events(s, false),
{
    let all = head + seq![10u8] + s;
    let n = head.len() as int + 1;
    lemma_last_break(all, all.len() as int);
    lemma_last_break(s, s.len() as int);
    text::lemma_find_from(all, 10, 0);
    let a = last_break(all, all.len() as int);
    let b = last_break(s, s.len() as int);
    assert(all[n - 1] == 10);
    assert(text::find_from(all, 10, 0) == n - 1) by {
        let f = text::find_from(all, 10, 0);
        if f < n - 1 {
            assert(all[f] == head[f]);
        }
    }
    if b >= 0 {
        assert(all[n + b] == s[b]);
        if a > n + b {
            assert(all[a] == s[a - n]);
        }
        assert(a == n + b);
        assert(complete_lines(all, true) =~= complete_lines(s, false));
    } else {
        if a >= n {
            assert(all[a] == s[a - n]);
        }
        assert(a == n - 1);
        assert(complete_lines(all, true) =~= Seq::<u8>::empty());
        let empty = Seq::<u8>::empty();
        assert(words::words_of(empty) =~= Seq::<Seq<u8>>::empty());
        assert(time_of(words::words_of(empty)) is None);
        assert(events_of(empty) =~= Seq::<Shown>::empty());
    }
}

} // verus!
