//! What stands in the journal, and what the launcher shows of it.
use crate::diagnostics;
use crate::diagnostics::{Crash, Utc};
use crate::game_build::Build;
use crate::launcher::history;
use crate::launcher::history::{Filter, Shown};
use crate::numbers;
use crate::profiling;
use crate::profiling::PendingSlot;
use crate::text;
use crate::words;
use vstd::prelude::*;

verus! {

/// Of all events the last 200 are shown.
pub proof fn lemma_latest(all: Seq<Shown>, i: int)
    ensures
        all.len() <= 200 ==> history::latest(all) == all,
        all.len() > 200 ==> history::latest(all).len() == 200,
        all.len() > 200 && 0 <= i < 200 ==> history::latest(all)[i] == all[all.len() - 200 + i],
{
}

/// The list starts with the newest event that the filter shows; everything is shown under one
/// filter, and what is of its own kind under each of the others.
pub proof fn lemma_list(events: Seq<Shown>, newest: Shown, filter: Filter)
    ensures
        history::rows(events.push(newest), filter) == (if filter == Filter::All || filter
            == newest.category {
            seq![history::row(newest)] + history::rows(events, filter)
        } else {
            history::rows(events, filter)
        }),
        history::rows(Seq::empty(), filter) == Seq::<Seq<char>>::empty(),
{
    assert(events.push(newest).drop_last() =~= events);
}

/// Lines are set apart by a carriage return and a line feed, with none at the end.
pub proof fn lemma_joined(lines: Seq<Seq<char>>, line: Seq<char>)
    ensures
        history::joined(seq![line]) == line,
        lines.len() > 0 ==> history::joined(lines.push(line)) == history::joined(lines) + "\r\n"@
            + line,
{
    if lines.len() > 0 {
        assert(lines.push(line).drop_last() =~= lines);
    }
}

/// A line of the list.
pub proof fn lemma_row(e: Shown)
    ensures
        history::row(e) == e.time + " | "@ + (match e.category {
            Filter::All => "All"@,
            Filter::Rejected => "Rejected"@,
            Filter::Limited => "Rate limits"@,
            Filter::Diagnostics => "Diagnostics"@,
        }) + " | "@ + e.label + ": "@ + text::decimal(e.count as nat),
{
}

/// A total is the sum of the counts of one kind, as far as it can be counted.
pub proof fn lemma_total(events: Seq<Shown>, newest: Shown, category: Filter)
    ensures
        history::total_of(Seq::empty(), category) == 0,
        history::total_of(events.push(newest), category) == (if newest.category != category {
            history::total_of(events, category) as int
        } else if history::total_of(events, category) + newest.count <= u64::MAX {
            history::total_of(events, category) + newest.count
        } else {
            u64::MAX as int
        }),
{
    assert(events.push(newest).drop_last() =~= events);
}

/// The counters of the network guard: how each stands in the journal, of which kind it is and how
/// it is shown.
pub proof fn lemma_counters()
    ensures
        history::guard_key(0) == "envelope="@ && history::guard_category(0) == Filter::Rejected
            && history::guard_label(0) == "Invalid message descriptors"@,
        history::guard_key(1) == "instant="@ && history::guard_category(1) == Filter::Rejected
            && history::guard_label(1) == "Instant-message checks"@,
        history::guard_key(2) == "p2p="@ && history::guard_category(2) == Filter::Rejected
            && history::guard_label(2) == "P2P buffer checks"@,
        history::guard_key(3) == "lobby="@ && history::guard_category(3) == Filter::Rejected
            && history::guard_label(3) == "Lobby-message checks"@,
        history::guard_key(4) == "social_limited="@ && history::guard_category(4)
            == Filter::Limited && history::guard_label(4) == "Social actions"@,
        history::guard_key(5) == "instant_limited="@ && history::guard_category(5)
            == Filter::Limited && history::guard_label(5) == "Instant messages"@,
        history::guard_key(6) == "p2p_limited="@ && history::guard_category(6) == Filter::Limited
            && history::guard_label(6) == "P2P control traffic"@,
        history::guard_key(7) == "oob_limited="@ && history::guard_category(7) == Filter::Limited
            && history::guard_label(7) == "Connectionless responses"@,
        history::guard_key(8) == "friends_refresh_failed="@ && history::guard_category(8)
            == Filter::Diagnostics && history::guard_label(8) == "Friend refresh retries"@,
{
}

/// The event of counter `i`.
pub open spec fn counted(w: Seq<Seq<u8>>, time: Seq<char>, i: int) -> Shown {
    Shown {
        time,
        category: history::guard_category(i),
        label: history::guard_label(i),
        count: history::guard_count(w, i) as u64,
    }
}

proof fn lemma_counted_from(w: Seq<Seq<u8>>, time: Seq<char>, from: int, i: int)
    requires
        0 <= from <= i < 9,
    ensures
        history::guard_count(w, i) != 0 ==> history::guard_events(w, time, from).contains(
            counted(w, time, i),
        ),
        history::guard_events(w, time, from).len() <= 9 - from,
    decreases 9 - from,
{
    let events = history::guard_events(w, time, from);
    let rest = history::guard_events(w, time, from + 1);
    if from < 8 {
        lemma_counted_from(
            w,
            time,
            from + 1,
            if i > from {
                i
            } else {
                from + 1
            },
        );
    } else {
        assert(rest.len() == 0);
    }
    if history::guard_count(w, from) == 0 {
        assert(events == rest);
    } else {
        assert(events == seq![counted(w, time, from)] + rest);
        assert(events[0] == counted(w, time, from));
        if i > from && history::guard_count(w, i) != 0 {
            let k = choose|k: int| 0 <= k < rest.len() && rest[k] == counted(w, time, i);
            assert(events[k + 1] == counted(w, time, i));
        }
    }
}

/// Each counter that counted gives an event with its count.
pub proof fn lemma_counted(w: Seq<Seq<u8>>, time: Seq<char>, i: int)
    requires
        0 <= i < 9,
    ensures
        history::guard_count(w, i) != 0 ==> history::guard_events(w, time, 0).contains(
            counted(w, time, i),
        ),
        history::guard_events(w, time, 0).len() <= 9,
{
    lemma_counted_from(w, time, 0, i);
}

/// What else is shown of a line, by the words that it holds.
pub proof fn lemma_notes(w: Seq<Seq<u8>>)
    ensures
        ({
            let starts = w.contains(text::utf8("session-start"@));
            let observes = w.contains(text::utf8("reader-diagnostic"@)) && w.contains(
                text::utf8("action=observe"@),
            );
            let fails = w.contains(text::utf8("unhandled-exception"@)) || w.contains(
                text::utf8("fatal-script"@),
            );
            &&& starts ==> history::note_of(w) == Some("Patch initialization started"@)
            &&& !starts && observes ==> history::note_of(w) == Some(
                "Reader observation (not a block)"@,
            )
            &&& !starts && !observes && fails ==> history::note_of(w) == Some(
                "Game error (see full journal)"@,
            )
            &&& history::note_of(w) is None <==> !starts && !observes && !fails
        }),
{
}

/// A time is made of digits, hyphens, colons, a `T` and a `Z`.
pub proof fn lemma_time_bytes(b: u8)
    ensures
        history::is_time_byte(b) <==> '0' as u8 <= b <= '9' as u8 || b == '-' as u8 || b == ':' as u8
            || b == 'T' as u8 || b == 'Z' as u8,
{
}

/// Without a time of its own a line is shown with that since the machine started, in hours, minutes
/// and seconds of at least two digits.
pub proof fn lemma_boot_time(hours: nat, minutes: nat, seconds: nat, ms: nat)
    requires
        minutes < 60,
        seconds < 60,
        ms < 1000,
    ensures
        history::boot_time(3_600_000 * hours + 60_000 * minutes + 1000 * seconds + ms) == "Boot +"@
            + history::two_digits(hours) + ":"@ + history::two_digits(minutes) + ":"@
            + history::two_digits(seconds),
        hours < 10 ==> history::two_digits(hours) == "0"@ + text::decimal(hours),
        hours >= 10 ==> history::two_digits(hours) == text::decimal(hours),
{
    let tick = 3_600_000 * hours + 60_000 * minutes + 1000 * seconds + ms;
    let s = tick / 1000;
    assert(s == 3600 * hours + 60 * minutes + seconds);
    assert(s / 3600 == hours);
    assert(s / 60 == 60 * hours + minutes);
    assert((60 * hours + minutes) % 60 == minutes);
    assert(s % 60 == seconds);
}

/// Of a journal the last 256 KiB are read.
pub proof fn lemma_excerpt(length: u64)
    ensures
        length <= 262_144 ==> history::excerpt_start_of(length) == 0,
        length > 262_144 ==> history::excerpt_start_of(length) == length - 262_144,
{
}

/// A byte between words: a blank, a tab, a line feed, a form feed or a carriage return.
pub open spec fn blank(b: u8) -> bool {
    b == 32 || b == 9 || b == 10 || b == 12 || b == 13
}

proof fn lemma_blanks_skipped(s: Seq<u8>, i: int, j: int)
    requires
        0 <= i <= j <= s.len(),
        forall|k: int| i <= k < j ==> blank(#[trigger] s[k]),
        j == s.len() || !blank(s[j]),
    ensures
        words::word_start(s, i) == j,
    decreases j - i,
{
    if i < j {
        assert(blank(s[i]));
        lemma_blanks_skipped(s, i + 1, j);
    }
}

proof fn lemma_word_ends(s: Seq<u8>, i: int, j: int)
    requires
        0 <= i <= j <= s.len(),
        forall|k: int| i <= k < j ==> !blank(#[trigger] s[k]),
        j == s.len() || blank(s[j]),
    ensures
        words::word_end(s, i) == j,
    decreases j - i,
{
    if i < j {
        assert(!blank(s[i]));
        lemma_word_ends(s, i + 1, j);
    }
}

proof fn lemma_start_behind(a: Seq<u8>, b: Seq<u8>, i: int)
    requires
        0 <= i,
    ensures
        words::word_start(a + b, a.len() + i) == a.len() + words::word_start(b, i),
    decreases b.len() - i,
{
    if i < b.len() {
        assert((a + b)[a.len() + i] == b[i]);
        lemma_start_behind(a, b, i + 1);
    }
}

proof fn lemma_end_behind(a: Seq<u8>, b: Seq<u8>, i: int)
    requires
        0 <= i,
    ensures
        words::word_end(a + b, a.len() + i) == a.len() + words::word_end(b, i),
    decreases b.len() - i,
{
    if i < b.len() {
        assert((a + b)[a.len() + i] == b[i]);
        lemma_end_behind(a, b, i + 1);
    }
}

proof fn lemma_words_behind(a: Seq<u8>, b: Seq<u8>, i: int)
    requires
        0 <= i <= b.len(),
    ensures
        words::words_from(a + b, a.len() + i) == words::words_from(b, i),
    decreases b.len() - i,
{
    let s = a + b;
    let n = a.len() as int;
    words::lemma_word_bounds(b, i);
    words::lemma_word_bounds(s, n + i);
    lemma_start_behind(a, b, i);
    let x = words::word_start(b, i);
    lemma_end_behind(a, b, x);
    let y = words::word_end(b, x);
    if x < b.len() {
        words::lemma_word_bounds(b, x);
        words::lemma_word_bounds(b, x + 1);
        assert(s.subrange(n + x, n + y) =~= b.subrange(x, y));
        lemma_words_behind(a, b, y);
    }
}

/// A line starts with a word, as long as it has no blank, and goes on behind the blank that ends
/// it. A word at the end of a line ends there, and a blank in front does not count.
pub proof fn lemma_words(word: Seq<u8>, b: u8, rest: Seq<u8>)
    requires
        word.len() > 0,
        forall|i: int| 0 <= i < word.len() ==> !blank(#[trigger] word[i]),
        blank(b),
    ensures
        words::words_of(word + seq![b] + rest) == seq![word] + words::words_of(rest),
        words::words_of(word) == seq![word],
        words::words_of(seq![b] + rest) == words::words_of(rest),
        words::words_of(Seq::empty()) == Seq::<Seq<u8>>::empty(),
{
    let n = word.len() as int;
    let s = word + seq![b] + rest;
    assert forall|k: int| 0 <= k < n implies !blank(#[trigger] s[k]) by {
        assert(s[k] == word[k]);
    }
    assert(s[n] == b);
    words::lemma_word_bounds(s, 0);
    words::lemma_word_bounds(word, 0);
    lemma_blanks_skipped(s, 0, 0);
    lemma_word_ends(s, 0, n);
    assert(s.subrange(0, n) =~= word);
    let t = seq![b] + rest;
    assert(s =~= word + t);
    lemma_words_behind(word, t, 0);
    lemma_blank_first(b, rest);
    lemma_blanks_skipped(word, 0, 0);
    lemma_word_ends(word, 0, n);
    assert(word.subrange(0, n) =~= word);
    words::lemma_word_bounds(word, n);
    assert(words::words_from(word, n) =~= Seq::<Seq<u8>>::empty());
}

proof fn lemma_blank_first(b: u8, rest: Seq<u8>)
    requires
        blank(b),
    ensures
        words::words_of(seq![b] + rest) == words::words_of(rest),
{
    let t = seq![b] + rest;
    assert(t[0] == b);
    lemma_words_behind(seq![b], rest, 0);
    words::lemma_word_bounds(t, 0);
    words::lemma_word_bounds(t, 1);
    assert(words::word_start(t, 0) == words::word_start(t, 1));
    assert(words::words_from(t, 0) == words::words_from(t, 1));
}

/// A field is what follows its key in the first word that starts with it.
pub proof fn lemma_fields(w: Seq<Seq<u8>>, key: Seq<u8>, value: Seq<u8>, i: int)
    requires
        0 <= i < w.len(),
        w[i] == key + value,
        forall|j: int| 0 <= j < i ==> !text::has_prefix(#[trigger] w[j], key),
    ensures
        words::field_of(w, key) == Some(value),
{
    assert((key + value).take(key.len() as int) =~= key);
    assert((key + value).skip(key.len() as int) =~= value);
    lemma_field_from(w, key, 0, i);
}

proof fn lemma_field_from(w: Seq<Seq<u8>>, key: Seq<u8>, i: int, k: int)
    requires
        0 <= i <= k < w.len(),
        text::has_prefix(w[k], key),
        forall|j: int| i <= j < k ==> !text::has_prefix(#[trigger] w[j], key),
    ensures
        words::field_from(w, key, i) == Some(w[k].skip(key.len() as int)),
    decreases k - i,
{
    if i < k {
        assert(!text::has_prefix(w[i], key));
        lemma_field_from(w, key, i + 1, k);
    }
}

proof fn lemma_decimal_value(n: nat)
    ensures
        numbers::all_digits(text::decimal(n)),
        numbers::digits_value(text::decimal(n)) == n,
        text::decimal(n).len() > 0,
    decreases n,
{
    let s = text::decimal(n);
    if n < 10 {
        assert(s.drop_last() =~= Seq::<char>::empty());
        assert(s.last() as int == 48 + n);
        assert(numbers::digits_value(s.drop_last()) == 0);
    } else {
        lemma_decimal_value(n / 10);
        assert(s.drop_last() =~= text::decimal(n / 10));
        assert(s.last() as int == 48 + n % 10);
        assert forall|i: int| 0 <= i < s.len() implies numbers::is_digit(#[trigger] s[i]) by {
            if i < s.len() - 1 {
                assert(s[i] == text::decimal(n / 10)[i]);
                assert(numbers::is_digit(text::decimal(n / 10)[i]));
            }
        }
    }
}

/// Every number that is written is read back, as long as it fits 64 bits.
pub proof fn lemma_numbers(n: nat)
    ensures
        words::unsigned64(text::utf8(text::decimal(n))) == (if n < 0x1_0000_0000_0000_0000 {
            Some(n as int)
        } else {
            None
        }),
        words::unsigned64(Seq::empty()) is None,
{
    let d = text::decimal(n);
    lemma_decimal_value(n);
    assert forall|i: int| 0 <= i < d.len() implies 0 <= (#[trigger] d[i]) as int <= 127 by {
        assert(numbers::is_digit(d[i]));
    }
    text::lemma_utf8_of_ascii(d);
    let c = words::as_chars(text::utf8(d));
    assert(c =~= d) by {
        assert forall|i: int| 0 <= i < d.len() implies c[i] == d[i] by {
            assert(text::utf8(d)[i] == d[i] as u8);
            assert(numbers::is_digit(d[i]));
        }
    }
    assert(numbers::is_digit(d[0]));
}

/// A line of the journal holds its time in two forms, the thread and the message, and is cut at
/// 512 bytes.
pub proof fn lemma_line(tick: u64, utc: Utc, thread: u32, message: Seq<char>, s: Seq<u8>)
    ensures
        diagnostics::event_text(tick, utc, thread, message) == "tick="@ + text::decimal(tick as nat)
            + " utc="@ + diagnostics::utc_text(utc) + " thread="@ + text::decimal(thread as nat)
            + " "@ + message + "\n"@,
        s.len() <= 512 ==> diagnostics::cut(s) == s,
        s.len() > 512 ==> diagnostics::cut(s) == s.take(512),
{
}

/// A number is filled up with zeros to its width, and longer ones stay whole.
pub proof fn lemma_padded(n: nat, width: nat, i: int)
    ensures
        ({
            let digits = text::decimal(n);
            let p = diagnostics::padded(n, width);
            &&& p.len() == (if digits.len() < width {
                width
            } else {
                digits.len()
            })
            &&& p.skip(p.len() - digits.len()) == digits
            &&& 0 <= i < p.len() - digits.len() ==> p[i] == '0'
        }),
{
    let digits = text::decimal(n);
    let p = diagnostics::padded(n, width);
    assert(p.skip(p.len() - digits.len()) =~= digits);
}

/// The names of builds, journals and crash logs.
pub proof fn lemma_file_names(pid: u32, path: String)
    ensures
        diagnostics::journal_name_of(true, pid) == "t7patch-events.log"@,
        diagnostics::journal_name_of(false, pid) == "t7patch-events-"@ + text::decimal(pid as nat)
            + ".log"@,
        diagnostics::crash_name_of(true, pid) == "crashes.log"@,
        diagnostics::crash_name_of(false, pid) == "t7patch-crashes-"@ + text::decimal(pid as nat)
            + ".log"@,
        diagnostics::crash_path_of(&Some(path)) == path@,
        diagnostics::crash_path_of(&None) == "crashes.log"@,
{
}

/// The registers of a crash log, each with its name.
pub proof fn lemma_registers(i: int)
    requires
        0 <= i < 22,
    ensures
        diagnostics::register_name(i) == seq![
            "RIP"@,
            "RSP"@,
            "RBP"@,
            "RAX"@,
            "RBX"@,
            "RCX"@,
            "RDX"@,
            "RSI"@,
            "RDI"@,
            "R8"@,
            "R9"@,
            "R10"@,
            "R11"@,
            "R12"@,
            "R13"@,
            "R14"@,
            "R15"@,
            "DR0"@,
            "DR1"@,
            "DR2"@,
            "DR3"@,
            "DR7"@,
        ][i],
{
}

/// A NUL of a message does not reach the debugger, and every other character does.
pub proof fn lemma_debug_text(s: Seq<char>, c: char)
    ensures
        diagnostics::without_nul(s.push(c)) == (if c == '\0' {
            diagnostics::without_nul(s)
        } else {
            diagnostics::without_nul(s).push(c)
        }),
        diagnostics::without_nul(Seq::empty()) == Seq::<char>::empty(),
{
    assert(s.push(c).drop_last() =~= s);
}

/// A call is reported if and only if it has been out for two seconds.
pub proof fn lemma_pending(slots: Seq<PendingSlot>, slot: PendingSlot, now: u64)
    ensures
        ({
            let all = slots.push(slot);
            let n = slots.len() as int;
            profiling::pending_lines(all, now, n + 1) == profiling::pending_lines(all, now, n) + (
            if slot.owner >= 2 && slot.since + 2000 <= now {
                profiling::pending_line(slot, now)
            } else {
                seq![]
            })
        }),
        profiling::pending_line(slot, now) == "PENDING thread="@ + text::decimal(
            slot.thread as nat,
        ) + " call="@ + slot.metric@ + " age_ms="@ + text::decimal((now - slot.since) as nat)
            + "\n"@,
{
}

/// A report is due every five seconds while profiling is on.
pub proof fn lemma_report_due(last: u64, now: u64)
    ensures
        profiling::report_due_of(true, last, now) <==> now >= last + 5000,
        !profiling::report_due_of(false, last, now),
{
}

/// A call takes the first free slot, searched around the table, and none only if there is none.
pub proof fn lemma_free_slot(slots: Seq<PendingSlot>, start: int, i: int)
    requires
        slots.len() > 0,
        start >= 0,
        0 <= i < slots.len(),
        slots[(start + i) % slots.len() as int].owner == 0,
        forall|j: int|
            0 <= j < i ==> (#[trigger] slots[(start + j) % slots.len() as int]).owner != 0,
    ensures
        profiling::free_slot(slots, start, 0) == (start + i) % slots.len() as int,
{
    lemma_free_slot_from(slots, start, 0, i);
}

proof fn lemma_free_slot_from(slots: Seq<PendingSlot>, start: int, from: int, i: int)
    requires
        slots.len() > 0,
        start >= 0,
        0 <= from <= i < slots.len(),
        slots[(start + i) % slots.len() as int].owner == 0,
        forall|j: int|
            from <= j < i ==> (#[trigger] slots[(start + j) % slots.len() as int]).owner != 0,
    ensures
        profiling::free_slot(slots, start, from) == (start + i) % slots.len() as int,
    decreases i - from,
{
    if from < i {
        assert(slots[(start + from) % slots.len() as int].owner != 0);
        assert forall|j: int| from + 1 <= j < i implies (#[trigger] slots[(start + j)
            % slots.len() as int]).owner != 0 by {}
        lemma_free_slot_from(slots, start, from + 1, i);
    }
}

/// The time of a line is the one in UTC, if it has twenty bytes that a time is made of, else the
/// one since the start, if that is a number.
pub proof fn lemma_times(w: Seq<Seq<u8>>, utc: Seq<u8>, tick: Seq<u8>)
    ensures
        ({
            let proper = utc.len() == 20 && forall|i: int|
                0 <= i < 20 ==> history::is_time_byte(#[trigger] utc[i]);
            let has_utc = words::field_of(w, text::utf8("utc="@)) == Some(utc);
            let has_tick = words::field_of(w, text::utf8("tick="@)) == Some(tick);
            &&& has_utc && proper ==> history::time_of(w) == Some(words::as_chars(utc))
            &&& (has_utc && !proper || words::field_of(w, text::utf8("utc="@)) is None) && has_tick
                ==> history::time_of(w) == (match words::unsigned64(tick) {
                Some(ms) => Some(history::boot_time(ms as nat)),
                None => None,
            })
            &&& (has_utc && !proper || words::field_of(w, text::utf8("utc="@)) is None)
                && words::field_of(w, text::utf8("tick="@)) is None ==> history::time_of(w) is None
        }),
{
}

/// A line shows something if and only if it is text, has a time, and counts something or is one of
/// those that are noted; of the network guard only the counters are shown.
pub proof fn lemma_shown_lines(line: Seq<u8>)
    ensures
        ({
            let w = words::words_of(line);
            let readable = vstd::utf8::valid_utf8(line) && history::time_of(w) is Some;
            let guard = w.contains(text::utf8("network-guard"@));
            &&& !readable ==> history::line_events(line).len() == 0
            &&& readable && guard ==> history::line_events(line) == history::guard_events(
                w,
                history::time_of(w)->Some_0,
                0,
            )
            &&& readable && !guard && history::note_of(w) is Some ==> history::line_events(line)
                == seq![
                Shown {
                    time: history::time_of(w)->Some_0,
                    category: Filter::Diagnostics,
                    label: history::note_of(w)->Some_0,
                    count: 1,
                },
            ]
            &&& readable && !guard && history::note_of(w) is None ==> history::line_events(
                line,
            ).len() == 0
        }),
{
}

/// The lines of a journal are read one after the other.
pub proof fn lemma_journal(line: Seq<u8>, rest: Seq<u8>)
    requires
        forall|i: int| 0 <= i < line.len() ==> line[i] != 10,
    ensures
        history::events_of(line + seq![10u8] + rest) == history::line_events(line)
            + history::events_of(rest),
        history::events_of(line) == history::line_events(line),
{
    let s = line + seq![10u8] + rest;
    text::lemma_find_from(s, 10, 0);
    text::lemma_find_from(line, 10, 0);
    let end = text::find_from(s, 10, 0);
    assert(s[line.len() as int] == 10);
    if end < line.len() {
        assert(s[end] == line[end]);
    }
    assert(s.take(end) =~= line);
    assert(s.skip(end + 1) =~= rest);
}

/// A journal that ends in a line feed is read whole, and one without any not at all.
pub proof fn lemma_whole_journal(s: Seq<u8>)
    ensures
        s.len() > 0 && s.last() == 10 ==> history::journal_events(s, false) == history::events_of(s),
        (forall|i: int| 0 <= i < s.len() ==> s[i] != 10) ==> history::journal_events(s, false).len()
            == 0,
{
    if s.len() > 0 && s.last() == 10 {
        assert(history::last_break(s, s.len() as int) == s.len() - 1);
        assert(s.take(s.len() as int) =~= s);
    }
    if forall|i: int| 0 <= i < s.len() ==> s[i] != 10 {
        lemma_no_break(s, s.len() as int);
    }
}

proof fn lemma_no_break(s: Seq<u8>, n: int)
    requires
        0 <= n <= s.len(),
        forall|i: int| 0 <= i < n ==> s[i] != 10,
    ensures
        history::last_break(s, n) == -1,
    decreases n,
{
    if n > 0 {
        lemma_no_break(s, n - 1);
    }
}

/// The button leads from one filter to the next, in this order.
pub proof fn lemma_filters()
    ensures
        Filter::All.spec_next() == Filter::Rejected,
        Filter::Rejected.spec_next() == Filter::Limited,
        Filter::Limited.spec_next() == Filter::Diagnostics,
        Filter::Diagnostics.spec_next() == Filter::All,
{
}

/// What starts a session names the build and how the patch was compiled.
pub proof fn lemma_names(debug: bool)
    ensures
        diagnostics::build_name(Build::Unknown) == "Unknown"@,
        diagnostics::build_name(Build::February2026) == "February2026"@,
        diagnostics::build_name(Build::September2026) == "September2026"@,
        diagnostics::flag_name(debug) == (if debug {
            "true"@
        } else {
            "false"@
        }),
{
}

/// A crash log gives each register its line, and each pair of words on the stack its own, sixteen
/// bytes further on.
pub proof fn lemma_crash_lines(
    values: Seq<u64>,
    value: u64,
    stack: Seq<(u64, u64)>,
    words: (u64, u64),
    top: u64,
)
    requires
        values.len() < 22,
        top + 16 * stack.len() <= u64::MAX,
    ensures
        ({
            let n = values.len() as int;
            diagnostics::register_lines(values.push(value), n + 1) == diagnostics::register_lines(
                values.push(value),
                n,
            ) + (diagnostics::register_name(n) + ": "@ + ("0x"@ + diagnostics::hex_fixed(
                value as nat,
                16,
            )) + "\n"@)
        }),
        ({
            let n = stack.len() as int;
            diagnostics::stack_lines(stack.push(words), top, n + 1) == diagnostics::stack_lines(
                stack.push(words),
                top,
                n,
            ) + ("["@ + ("0x"@ + diagnostics::hex_fixed((top + 16 * n) as nat, 16)) + "] "@ + ("0x"@
                + diagnostics::hex_fixed(words.0 as nat, 16)) + " "@ + ("0x"@
                + diagnostics::hex_fixed(words.1 as nat, 16)) + "\n"@)
        }),
{
}

/// A number in a fixed width of hexadecimal digits, the lowest last.
pub proof fn lemma_hex_fixed(n: nat, width: nat)
    ensures
        diagnostics::hex_fixed(n, width).len() == width,
        diagnostics::hex_fixed(n, width + 1) == diagnostics::hex_fixed(n / 16, width).push(
            text::digit_char((n % 16) as int),
        ),
    decreases width,
{
    if width > 0 {
        lemma_hex_fixed(n / 16, (width - 1) as nat);
    }
}

/// Without registers, words or calls there are no lines.
pub proof fn lemma_no_lines(
    values: Seq<u64>,
    stack: Seq<(u64, u64)>,
    top: u64,
    slots: Seq<PendingSlot>,
    now: u64,
)
    ensures
        diagnostics::register_lines(values, 0).len() == 0,
        diagnostics::stack_lines(stack, top, 0).len() == 0,
        profiling::pending_lines(slots, now, 0).len() == 0,
        diagnostics::hex_fixed(0, 0).len() == 0,
{
}

/// How a crash is introduced.
pub proof fn lemma_crash_head(c: Crash)
    ensures
        diagnostics::crash_head(c) == "\nCrash "@ + c.time@ + ", thread "@ + text::decimal(
            c.thread as nat,
        ) + ", code 0x"@ + text::hex(c.code as nat) + "\nGame: 0x"@ + text::hex(c.base as nat)
            + ", module: "@ + c.module@ + " (0x"@ + text::hex(c.module_base as nat)
            + "), address: 0x"@ + text::hex(c.address as nat) + "\n"@,
{
}

} // verus!
