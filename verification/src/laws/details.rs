//! Particulars: texts, numbers and sizes, and the smaller steps of larger things.
use crate::config;
use crate::config::{Live, Watcher};
use crate::diagnostics;
use crate::exceptions;
use crate::hooks;
use crate::imports;
use crate::launcher::ui;
use crate::launcher::exports;
use crate::launcher::exports::ExportError;
use crate::launcher::ui::{Form, Hover, Page, Turn};
use crate::launcher::updater::http;
use crate::launcher::updater::http::Fetch;
use crate::launcher::updater::package;
use crate::launcher::updater::package::{Entry, Release, Version};
use crate::launcher_api;
use crate::laws::readers;
use crate::laws::updates;
use crate::memory;
use crate::memory::{Region, StringScan};
use crate::network_guard;
use crate::network_guard::{Channel, Event, Gates, Peer};
use crate::numbers;
use crate::packets;
use crate::protection;
use crate::protection::Admission;
use crate::reader;
use crate::reader::{Reason, Stage};
use crate::settings;
use crate::structs;
use crate::structs::{LobbyMsg, Msg, NetAdr};
use crate::text;
use crate::utf16;
use crate::words;
use vstd::prelude::*;

verus! {

/// What is sent on one channel spends nothing of the others. A refusal adds one to the counter of
/// its own channel.
pub proof fn lemma_attempt(
    before: Gates,
    after: Gates,
    counts: Seq<u64>,
    counts_after: Seq<u64>,
    channel: Channel,
    peer: Peer,
    bytes: u32,
    now: u64,
    r: bool,
    j: int,
)
    requires
        network_guard::attempt_led_to(
            before,
            after,
            counts,
            counts_after,
            channel,
            peer,
            bytes,
            now,
            r,
        ),
        counts.len() == 9,
        forall|i: int| 0 <= i < 9 ==> #[trigger] counts[i] < u64::MAX,
        0 <= j < 9,
    ensures
        r <==> (match channel {
            Channel::Social => before.social,
            Channel::Instant => before.instant,
            Channel::P2pControl => before.p2p_control,
            Channel::Connectionless => before.connectionless,
        }).admits(peer, bytes, now),
        channel != Channel::Social ==> after.social == before.social,
        channel != Channel::Instant ==> after.instant == before.instant,
        channel != Channel::P2pControl ==> after.p2p_control == before.p2p_control,
        channel != Channel::Connectionless ==> after.connectionless == before.connectionless,
        counts_after[j] == counts[j] + (if !r && j == (match channel {
            Channel::Social => 4int,
            Channel::Instant => 5,
            Channel::P2pControl => 6,
            Channel::Connectionless => 7,
        }) {
            1int
        } else {
            0
        }),
{
    assert(after.gate(Channel::Social) == after.social);
    assert(after.gate(Channel::Instant) == after.instant);
    assert(after.gate(Channel::P2pControl) == after.p2p_control);
    assert(after.gate(Channel::Connectionless) == after.connectionless);
}

/// An event adds one to its own counter.
pub proof fn lemma_counted_event(counts: Seq<u64>, after: Seq<u64>, event: Event, j: int)
    requires
        network_guard::was_recorded(counts, after, event),
        counts.len() == 9,
        0 <= j < 9,
        counts[network_guard::event_index(event)] < u64::MAX,
    ensures
        after[j] == (if j == (match event {
            Event::Envelope => 0int,
            Event::Instant => 1,
            Event::P2p => 2,
            Event::Lobby => 3,
            Event::SocialRate => 4,
            Event::InstantRate => 5,
            Event::P2pRate => 6,
            Event::ConnectionlessRate => 7,
            Event::FriendsRetry => 8,
        }) {
            counts[j] + 1
        } else {
            counts[j] as int
        }),
{
}

/// A report is made if anything was counted, and begins anew.
pub proof fn lemma_reported(counts: Seq<u64>, after: Seq<u64>, r: Option<String>, i: int)
    requires
        network_guard::was_reported(counts, after, r),
        0 <= i < 9,
    ensures
        counts[i] > 0 ==> r is Some,
        (forall|k: int| 0 <= k < 9 ==> #[trigger] counts[k] == 0) ==> r is None,
        r is Some ==> r->Some_0@ == network_guard::report_line(counts),
        after[i] == 0,
{
}

/// A connectionless command is dispatched if it is allowed and, where that counts, within the
/// budget of its sender; commands that do not count change nothing.
pub proof fn lemma_connectionless(
    before: Gates,
    after: Gates,
    counts: Seq<u64>,
    counts_after: Seq<u64>,
    command: &[u8],
    campaign: bool,
    peer: Peer,
    bytes: u32,
    now: u64,
    r: bool,
)
    requires
        hooks::connectionless_led_to(
            before,
            after,
            counts,
            counts_after,
            command@,
            campaign,
            peer,
            bytes,
            now,
            r,
        ),
    ensures
        !hooks::budgeted(command@) ==> r == hooks::command_allowed_of(command, campaign)
            && counts_after == counts && after == before,
        hooks::budgeted(command@) ==> hooks::command_allowed_of(command, campaign) && r
            == before.connectionless.admits(peer, bytes, now),
        r ==> counts_after == counts,
        after.social == before.social && after.instant == before.instant && after.p2p_control
            == before.p2p_control,
{
}

/// Social actions and control packets are heard within the budgets of their account, with the
/// filter on from friends alone. What exceeds a budget is counted and asks nobody.
pub proof fn lemma_heard(
    before: Gates,
    after: Gates,
    counts: Seq<u64>,
    counts_after: Seq<u64>,
    xuid: u64,
    size: u32,
    friends_only: bool,
    now: u64,
    r: Admission,
)
    ensures
        protection::social_led_to(
            before,
            after,
            counts,
            counts_after,
            xuid,
            friends_only,
            now,
            r,
        ) ==> {
            let within = before.social.admits(Peer::Steam(xuid), 0, now);
            &&& r == Admission::Refuse <==> !within
            &&& r == Admission::Accept <==> within && !friends_only
            &&& within ==> counts_after == counts
            &&& after.p2p_control == before.p2p_control && after.instant == before.instant
                && after.connectionless == before.connectionless
        },
        protection::p2p_led_to(
            before,
            after,
            counts,
            counts_after,
            xuid,
            size,
            friends_only,
            now,
            r,
        ) ==> {
            let within = before.p2p_control.admits(Peer::Steam(xuid), size, now);
            &&& r == Admission::Refuse <==> !within
            &&& r == Admission::Accept <==> within && !friends_only
            &&& within ==> counts_after == counts
            &&& after.social == before.social && after.instant == before.instant
                && after.connectionless == before.connectionless
        },
{
}

/// A name that is taken stands in its field and is written into the game; another changes nothing.
pub proof fn lemma_name_given(before: Live, after: Live, name: Seq<u8>, r: Option<[u8; 16]>, i: int)
    requires
        config::name_taken(before, after, name, r),
        0 <= i < 16,
    ensures
        r is Some <==> name.len() <= 15 && !name.contains(0),
        r is Some ==> r->Some_0 == after.name && after.name@[i] == (if i < name.len() {
            name[i]
        } else {
            0
        }),
        r is None ==> after.name == before.name,
        after.friends_only == before.friends_only && after.password == before.password && after.path
            == before.path,
{
}

/// A watcher starts with what its file says over the defaults. Later only a file that is news is
/// read, over what held before.
pub proof fn lemma_watcher(
    path: Seq<u16>,
    file: Option<Vec<u8>>,
    started: Watcher,
    after: Watcher,
    same_path: bool,
    changed: bool,
)
    ensures
        config::watched(path, file, started) ==> started.path@ == path && started.config@ == (
        match file {
            Some(bytes) => settings::with_lines(settings::default_settings(), bytes@),
            None => settings::default_settings(),
        }),
        config::looked_at(started, after, path, same_path, file, changed) ==> {
            &&& changed <==> file is Some && !(same_path && file->Some_0@ == started.contents@)
            &&& changed ==> after.config@ == settings::with_lines(started.config@, file->Some_0@)
                && after.contents@ == file->Some_0@ && after.path@ == path
            &&& !changed ==> after.config@ == started.config@ && after.contents@ == started.contents@
                && after.path@ == started.path@
        },
{
}

/// A download follows the address that it is given, as long as that is text.
pub proof fn lemma_redirected(before: Fetch, after: Fetch, location: Seq<u16>, r: Result<(), String>)
    requires
        http::redirected(before, after, location, r),
    ensures
        r is Ok <==> http::paired(launcher_api::until_zero(location)),
        r is Ok ==> after.url@ == utf16::decoded(launcher_api::until_zero(location)),
        r is Err ==> after.url@ == before.url@,
        after.requests == before.requests && after.body@ == before.body@ && after.maximum
            == before.maximum,
{
}

/// The search for the end of a string starts at its address and ends at its limit. It ends with the
/// distance of the first NUL from the address.
pub proof fn lemma_scan(
    address: u64,
    limit: u64,
    r: Option<StringScan>,
    before: StringScan,
    after: StringScan,
    s: Seq<u8>,
    rest: Seq<u8>,
    found: Option<u64>,
)
    requires
        forall|i: int| 0 <= i < s.len() ==> s[i] != 0,
        before.wf(),
        before.cursor - before.start + s.len() <= u64::MAX,
    ensures
        memory::scan_starts(address, limit, r) ==> {
            &&& r is Some <==> address > 0 && address + limit < 0x1_0000_0000_0000_0000
            &&& r is Some ==> r->Some_0.start == address && r->Some_0.cursor == address
                && r->Some_0.end == address + limit
        },
        memory::scanned(before, after, s + seq![0u8] + rest, found) ==> found == Some(
            (before.cursor - before.start + s.len()) as u64,
        ),
        memory::scanned(before, after, s, found) ==> found is None && after.cursor == before.cursor
            + s.len(),
{
    text::lemma_find_from(s, 0, 0);
    let t = s + seq![0u8] + rest;
    text::lemma_find_from(t, 0, 0);
    assert(t[s.len() as int] == 0);
    if text::find_from(t, 0, 0) < s.len() {
        assert(t[text::find_from(t, 0, 0)] == s[text::find_from(t, 0, 0)]);
    }
}

/// A file is the announced one if both its size and its digest are.
pub proof fn lemma_digest(e: Entry, size: u64, digest: Seq<char>, r: Result<(), String>)
    requires
        package::has_digest(e, size, digest, r),
    ensures
        r is Ok <==> e.size == size && e.sha256@ == digest,
{
}

/// A later plain version is offered if and only if the release has its manifest of up to 1 MiB and
/// its archive of up to 64 MiB.
pub proof fn lemma_versions_compared(
    release: Release,
    version: Version,
    installed: Result<Version, String>,
    at_most: Option<bool>,
    r: Result<bool, String>,
)
    requires
        package::newer_led_to(release, version, installed, at_most, r),
    ensures
        r == Ok::<bool, String>(true) <==> version.pre@.len() == 0 && version.build@.len() == 0
            && installed is Ok && at_most != Some(true) && updates::has_asset(
            release,
            "update.json"@,
            0x10_0000,
        ) && updates::has_asset(release, "t7patch-windows-x64.zip"@, 0x400_0000),
        r == Ok::<bool, String>(false) <==> version.pre@.len() > 0 || version.build@.len() > 0 || (
        installed is Ok && at_most == Some(true)),
{
    updates::lemma_asset(release.assets@, "update.json"@, 0x10_0000, 0);
    updates::lemma_asset(release.assets@, "t7patch-windows-x64.zip"@, 0x400_0000, 0);
}

/// On a page its own controls are shown and the others hidden; the focus moves if it was on one of
/// those.
pub proof fn lemma_page_turned(controls: Seq<(Page, u64)>, page: Page, focus: u64, r: Turn, i: int)
    requires
        ui::turned(controls, page, focus, r),
        0 <= i < controls.len(),
    ensures
        r.visible@[i] <==> controls[i].0 == page,
        controls[i].1 == focus && controls[i].0 != page ==> r.refocus,
        (forall|k: int|
            0 <= k < controls.len() ==> (#[trigger] controls[k]).1 != focus || controls[k].0 == page)
            ==> !r.refocus,
{
    assert(r.visible@[i] == (controls[i].0 == page));
    if controls[i].1 == focus && controls[i].0 != page {
        assert(ui::loses_focus(controls, page, focus));
    }
}

/// What the frame's buttons show, where a pointer is, and where something centred starts.
pub proof fn lemma_window_details(
    id: u32,
    caption: Option<&'static str>,
    x: int,
    y: int,
    point: (i32, i32),
    low: i32,
    high: i32,
    size: i32,
    at: i32,
    before: Hover,
    after: Hover,
    window: u64,
    entered: bool,
)
    requires
        0 <= x < 32_768,
        0 <= y < 32_768,
    ensures
        ui::captioned(id, caption) ==> (caption is Some <==> id == 105 || id == 110),
        ui::captioned(105, caption) ==> caption->Some_0@ == "×"@,
        ui::captioned(110, caption) ==> caption->Some_0@ == "−"@,
        ui::points_to((65_536 * y + x) as u64, point) ==> point.0 == x && point.1 == y,
        ui::points_to((65_536 * (65_536 - 1 - y) + (65_536 - 1 - x)) as u64, point) ==> point.0 == -1
            - x && point.1 == -1 - y,
        ui::is_centered(low, high, size, at) && high - low >= size ==> {
            let before = at - low;
            let behind = high - at - size;
            0 <= before && (before == behind || before + 1 == behind)
        },
        ui::is_centered(low, high, size, at) && high - low < size ==> at == low,
        ui::pointer_moved(before, after, window, entered) ==> after.window == window && (entered
            <==> before.window != window),
        ui::pointer_left(before, after, window) ==> after.window == (if before.window == window {
            0
        } else {
            before.window
        }),
{
}

/// An address and a reader are read from memory if all of their bytes are there.
pub proof fn lemma_read_structs(
    d: Seq<u8>,
    a: Option<NetAdr>,
    m: Option<Msg>,
    l: Option<LobbyMsg>,
)
    ensures
        structs::address_at(d, a) ==> {
            &&& a is Some <==> d.len() >= 16
            &&& a is Some ==> a->Some_0.ipv4@ == d.subrange(0, 4) && a->Some_0.port == d[4] + 256
                * d[5] && a->Some_0.kind == readers::signed_word(d, 8) && a->Some_0.local_net_id
                == readers::signed_word(d, 12)
        },
        structs::msg_read(d, m) ==> (m is Some <==> d.len() >= 56) && (m is Some ==> m->Some_0
            == structs::msg_at(d)),
        structs::lobby_msg_read(d, l) ==> (l is Some <==> d.len() >= 72) && (l is Some ==> l->Some_0
            == structs::lobby_msg_at(d)),
{
    if d.len() >= 16 {
        readers::lemma_words(d, 8);
        readers::lemma_words(d, 12);
    }
}

/// White space, as text is trimmed of it and numbers are read behind it.
pub proof fn lemma_white(c: char)
    ensures
        numbers::is_white(c) <==> c == ' ' || '\t' <= c <= '\r' || c == '\u{85}' || c == '\u{a0}'
            || c == '\u{1680}' || '\u{2000}' <= c <= '\u{200a}' || c == '\u{2028}' || c == '\u{2029}'
            || c == '\u{202f}' || c == '\u{205f}' || c == '\u{3000}',
{
}

/// A text in UTF-16: a character of the basic plane is itself, and any other two surrogates with
/// ten bits each.
pub proof fn lemma_units(c: char, s: Seq<char>)
    ensures
        c as int <= 0xffff ==> utf16::units_of(c).len() == 1 && utf16::units_of(c)[0] == c as int,
        c as int > 0xffff ==> utf16::units_of(c).len() == 2 && 0xd800 <= utf16::units_of(c)[0]
            <= 0xdbff && 0xdc00 <= utf16::units_of(c)[1] <= 0xdfff && c as int == 0x1_0000 + 1024 * (
        utf16::units_of(c)[0] - 0xd800) + (utf16::units_of(c)[1] - 0xdc00),
        utf16::encoded(seq![c] + s) == utf16::units_of(c) + utf16::encoded(s),
        utf16::encoded(Seq::empty()) == Seq::<u16>::empty(),
{
    assert((seq![c] + s).skip(1) =~= s);
}

/// A number in hexadecimal digits, the highest first and without zeros in front.
pub proof fn lemma_hexadecimal(n: nat, d: nat)
    requires
        d < 16,
    ensures
        text::hex(d) == seq![text::digit_char(d as int)],
        n > 0 ==> text::hex(16 * n + d) == text::hex(n).push(text::digit_char(d as int)),
        d < 10 ==> text::digit_char(d as int) as int == '0' as int + d,
        d >= 10 ==> text::digit_char(d as int) as int == 'a' as int + d - 10,
{
    assert((16 * n + d) / 16 == n);
    assert((16 * n + d) % 16 == d);
}

/// A number in decimal digits likewise.
pub proof fn lemma_decimal(n: nat, d: nat)
    requires
        d < 10,
    ensures
        text::decimal(d) == seq![text::digit_char(d as int)],
        n > 0 ==> text::decimal(10 * n + d) == text::decimal(n).push(text::digit_char(d as int)),
{
    assert((10 * n + d) / 10 == n);
    assert((10 * n + d) % 10 == d);
}

/// How a sample of a reader is written down.
pub proof fn lemma_sample_names()
    ensures
        reader::stage_name(Stage::Connectionless)
            == "connectionless-post-command action=observe"@,
        reader::stage_name(Stage::Lobby) == "lobby-pre-read action=reject"@,
        reader::stage_name(Stage::Instant) == "instant-pre-read action=reject"@,
        reader::reason_name(Reason::Descriptor) == "Descriptor"@,
        reader::reason_name(Reason::Memory) == "Memory"@,
        reader::reason_name(Reason::Overflowed) == "Overflowed"@,
        reader::reason_name(Reason::Size) == "Size"@,
        reader::reason_name(Reason::Buffer) == "Buffer"@,
        reader::reason_name(Reason::Address) == "Address"@,
        reader::reason_name(Reason::Cursor) == "Cursor"@,
        reader::reason_name(Reason::Bit) == "Bit"@,
        reader::numbers_of(None) == "metadata=unavailable"@,
{
}

/// Sizes and places that nothing else speaks of.
pub proof fn lemma_sizes()
    ensures
        structs::MSG_SIZE == 56,
        structs::LOBBY_MSG_SIZE == 72,
        structs::NET_ADR_SIZE == 16,
        packets::LOBBY_HANDLE_IM_RVA == 0x1EEA130,
        packets::PREP_READ_DATA_RVA == 0x1EEA4F0,
        packets::PREP_READ_MSG_RVA == 0x1EEB8D0,
        imports::NAME_LIMIT == 256,
        imports::MAX_BASE == 0x7FFF_FFFF_FFFF,
        diagnostics::LINE_LIMIT == 512,
        diagnostics::STACK_BYTES == 1024,
        exceptions::IMAGE_LIMIT == 0x2000_0000,
        protection::SERVICE_METHODS == 50,
        protection::INSTANT_METHOD == 24,
        network_guard::PEERS == 256,
        launcher_api::PATH_OFFSET == 16,
        launcher_api::MESSAGE_OFFSET == 2064,
        launcher_api::PATH_UNITS == 1024,
        launcher_api::MESSAGE_UNITS == 256,
        memory::PAGE_NOACCESS == 1,
        memory::PAGE_GUARD == 256,
        ui::WIDTH == 640,
        ui::HEIGHT == 560,
        ui::TABS == 114,
        ui::SAVE_DELAY_MS == 400,
{
}

/// A number in front of which white space stands, in one byte or more of UTF-8, is the same number.
pub proof fn lemma_white_in_front(s: Seq<u8>, b: u8, c: u8)
    requires
        b == 32 || 9 <= b <= 13,
        0x80 <= c <= 0x8a || c == 0xa8 || c == 0xa9 || c == 0xaf,
    ensures
        hooks::leading_number(seq![0xe1u8, 0x9a, 0x80] + s) == hooks::leading_number(s),
        hooks::leading_number(seq![0xe2u8, 0x80, c] + s) == hooks::leading_number(s),
        hooks::leading_number(seq![0xe2u8, 0x81, 0x9f] + s) == hooks::leading_number(s),
        hooks::leading_number(seq![b] + s) == hooks::leading_number(s),
        hooks::leading_number(seq![0xc2u8, 0xa0] + s) == hooks::leading_number(s),
        hooks::leading_number(seq![0xc2u8, 0x85] + s) == hooks::leading_number(s),
        hooks::leading_number(seq![0xe3u8, 0x80, 0x80] + s) == hooks::leading_number(s),
{
    lemma_front_dropped(seq![b], s);
    lemma_front_dropped(seq![0xc2u8, 0xa0], s);
    lemma_front_dropped(seq![0xc2u8, 0x85], s);
    lemma_front_dropped(seq![0xe1u8, 0x9a, 0x80], s);
    lemma_front_dropped(seq![0xe2u8, 0x80, c], s);
    lemma_front_dropped(seq![0xe2u8, 0x81, 0x9f], s);
    lemma_front_dropped(seq![0xe3u8, 0x80, 0x80], s);
}

/// What starts with a letter or any other such character counts as 0.
pub proof fn lemma_no_number(s: Seq<u8>)
    requires
        s.len() > 0,
        s[0] < 128,
        !(s[0] == 32 || 9 <= s[0] <= 13),
        !(48 <= s[0] <= 57),
        s[0] != 43 && s[0] != 45,
    ensures
        hooks::leading_number(s) == 0,
{
    text::lemma_find_from(s, 0, 0);
    let t = text::until_nul(s);
    if t.len() > 0 {
        assert(t[0] == s[0]);
    }
    assert(words::as_chars(t.subrange(0, 0)).len() == 0);
}

proof fn lemma_front_dropped(w: Seq<u8>, s: Seq<u8>)
    requires
        w.len() > 0,
        forall|i: int| 0 <= i < w.len() ==> w[i] != 0,
        forall|t: Seq<u8>| #[trigger] hooks::white_length(w + t, 0) == w.len(),
    ensures
        hooks::leading_number(w + s) == hooks::leading_number(s),
{
    let n = w.len() as int;
    let u = w + s;
    text::lemma_find_from(u, 0, 0);
    text::lemma_find_from(s, 0, 0);
    text::lemma_find_from(w, 0, 0);
    text::lemma_find_after(w, s, 0, 0);
    let a = text::until_nul(u);
    let b = text::until_nul(s);
    assert(a =~= w + b);
    assert(hooks::white_length(w + b, 0) == n);
    lemma_white_behind(w, b, 0);
    let from = hooks::after_white(b, 0);
    lemma_after_white(b, 0);
    assert(hooks::after_white(a, 0) == n + from);
    let signed = from < b.len() && (b[from] == 43 || b[from] == 45);
    if from < b.len() {
        assert(a[n + from] == b[from]);
    }
    let start = if signed {
        from + 1
    } else {
        from
    };
    lemma_digits_behind(w, b, start);
    lemma_after_digits(b, start);
    let to = hooks::after_digits(b, start);
    assert(a.subrange(n + from, n + to) =~= b.subrange(from, to));
}

proof fn lemma_white_behind(w: Seq<u8>, b: Seq<u8>, i: int)
    requires
        0 <= i,
    ensures
        hooks::after_white(w + b, w.len() + i) == w.len() + hooks::after_white(b, i),
    decreases b.len() - i,
{
    let a = w + b;
    let n = w.len() as int;
    if i < b.len() {
        assert(a[n + i] == b[i]);
        if i + 1 < b.len() {
            assert(a[n + i + 1] == b[i + 1]);
        }
        if i + 2 < b.len() {
            assert(a[n + i + 2] == b[i + 2]);
        }
        assert(hooks::white_length(a, n + i) == hooks::white_length(b, i));
        if hooks::white_length(b, i) > 0 {
            lemma_white_behind(w, b, i + hooks::white_length(b, i));
        }
    }
}

proof fn lemma_after_white(b: Seq<u8>, i: int)
    requires
        0 <= i <= b.len(),
    ensures
        i <= hooks::after_white(b, i) <= b.len(),
    decreases b.len() - i,
{
    if hooks::white_length(b, i) > 0 {
        lemma_after_white(b, i + hooks::white_length(b, i));
    }
}

proof fn lemma_digits_behind(w: Seq<u8>, b: Seq<u8>, i: int)
    requires
        0 <= i,
    ensures
        hooks::after_digits(w + b, w.len() + i) == w.len() + hooks::after_digits(b, i),
    decreases b.len() - i,
{
    if i < b.len() {
        assert((w + b)[w.len() + i] == b[i]);
        if 48 <= b[i] <= 57 {
            lemma_digits_behind(w, b, i + 1);
        }
    }
}

proof fn lemma_after_digits(b: Seq<u8>, i: int)
    requires
        0 <= i <= b.len(),
    ensures
        i <= hooks::after_digits(b, i) <= b.len(),
    decreases b.len() - i,
{
    if i < b.len() && 48 <= b[i] <= 57 {
        lemma_after_digits(b, i + 1);
    }
}

/// A number with its sign.
pub proof fn lemma_signed_text(n: nat)
    ensures
        hooks::signed_decimal(n as int) == text::decimal(n),
        n > 0 ==> hooks::signed_decimal(-(n as int)) == seq!['-'] + text::decimal(n),
{
    reveal_strlit("-");
    assert("-"@ =~= seq!['-']);
}

/// Text is trimmed of the white space around it and of nothing else.
pub proof fn lemma_trimmed(s: Seq<char>, c: char)
    ensures
        numbers::is_white(c) ==> numbers::trimmed(seq![c] + s) == numbers::trimmed(s),
        s.len() > 0 && !numbers::is_white(s[0]) && !numbers::is_white(s.last()) ==> numbers::trimmed(
            s,
        ) == s && (numbers::is_white(c) ==> numbers::trimmed(s.push(c)) == s),
{
    assert((seq![c] + s).skip(1) =~= s);
    assert(s.push(c).drop_last() =~= s);
}

/// A surrogate without its partner reads as a replacement character, and an address with one is not
/// followed; every text is.
pub proof fn lemma_surrogates(u: Seq<u16>, s: Seq<char>)
    requires
        u.len() > 0,
    ensures
        0xdc00 <= u[0] <= 0xdfff ==> utf16::decoded(u) == seq!['\u{FFFD}'] + utf16::decoded(u.skip(1))
            && !http::paired(u),
        0xd800 <= u[0] <= 0xdbff && (u.len() == 1 || !(0xdc00 <= u[1] <= 0xdfff)) ==> utf16::decoded(
            u,
        ) == seq!['\u{FFFD}'] + utf16::decoded(u.skip(1)) && !http::paired(u),
        http::paired(utf16::encoded(s)),
{
    lemma_text_is_paired(s);
}

proof fn lemma_text_is_paired(s: Seq<char>)
    ensures
        http::paired(utf16::encoded(s)),
    decreases s.len(),
{
    if s.len() > 0 {
        lemma_text_is_paired(s.skip(1));
        utf16::lemma_char(s[0]);
        let rest = utf16::encoded(s.skip(1));
        let u = utf16::units_of(s[0]) + rest;
        if s[0] as int <= 0xffff {
            assert(u.skip(1) =~= rest);
        } else {
            assert(u.skip(2) =~= rest);
        }
    }
}

/// The settings lie where they were said to be, or in a file of their own beside the game.
pub proof fn lemma_settings_file(live: Live)
    ensures
        live.path is Some ==> config::path_of(live) == live.path->Some_0@,
        live.path is None ==> config::path_of(live) == utf16::encoded("t7patch.conf"@),
        config::new_file() == settings::encoded(settings::default_settings()),
{
}

/// What is said of an export that was not found.
pub proof fn lemma_export_errors()
    ensures
        exports::export_error_text(ExportError::Invalid) == "Invalid x64 patch DLL / export table"@,
        exports::export_error_text(ExportError::NoTable)
            == "DLL does not export T7PatchStart; rebuild the DLL and EXE together"@,
        exports::export_error_text(ExportError::Forwarded)
            == "Forwarded bootstrap export is not supported"@,
        exports::export_error_text(ExportError::Missing)
            == "T7PatchStart is missing. Rebuild the DLL and EXE together."@,
{
}

/// The bar beside the status is red with a complaint, green with an active patch, and else in the
/// colour of the launcher.
pub proof fn lemma_status_color(form: Form)
    ensures
        form.error@.len() > 0 ==> form.spec_status_color() == 0x8386ef,
        form.error@.len() == 0 && form.status_active ==> form.spec_status_color() == 0x93c58c,
        form.error@.len() == 0 && !form.status_active ==> form.spec_status_color() == 0x3c72ce,
{
}

/// A string is read up to the end of its region or of its limit, whichever comes first.
pub proof fn lemma_stretch(s: StringScan, region: Region, next: u64)
    ensures
        memory::next_of(s.cursor, Some(region)) == Some(next) ==> memory::stretch_of(
            s,
            Some(region),
        ) == Some(
            if next <= s.end {
                next
            } else {
                s.end
            },
        ),
        memory::next_of(s.cursor, Some(region)) is None ==> memory::stretch_of(s, Some(region))
            is None,
        memory::stretch_of(s, None) is None,
{
}

/// A sample of a reader as it stands in the journal.
pub proof fn lemma_sample_line(s: reader::Sample, m: Msg)
    ensures
        reader::line_of(s) == "reader-diagnostic stage="@ + reader::stage_name(s.stage)
            + " reason="@ + reader::reason_name(s.reason) + " command="@ + s.command@ + " "@
            + reader::numbers_of(s.msg),
        reader::numbers_of(Some(m)) == "overflowed="@ + text::decimal(m.overflowed as nat)
            + " capacity="@ + text::decimal(m.max_size as nat) + " cursize="@ + text::decimal(
            m.cur_size as nat,
        ) + " split="@ + text::decimal(m.split_size as nat) + " readcount="@ + text::decimal(
            m.read_count as nat,
        ) + " bit="@ + hooks::signed_decimal(m.bit as int),
{
}

/// What is refused adds one to its own counter: social actions to the fifth, control packets to the
/// seventh and connectionless commands to the eighth.
pub proof fn lemma_refusals_counted(
    before: Gates,
    after: Gates,
    counts: Seq<u64>,
    counts_after: Seq<u64>,
    command: Seq<u8>,
    campaign: bool,
    peer: Peer,
    xuid: u64,
    size: u32,
    friends_only: bool,
    now: u64,
    r: Admission,
    j: int,
)
    requires
        counts.len() == 9,
        forall|i: int| 0 <= i < 9 ==> #[trigger] counts[i] < u64::MAX,
        0 <= j < 9,
    ensures
        protection::social_led_to(
            before,
            after,
            counts,
            counts_after,
            xuid,
            friends_only,
            now,
            r,
        ) && r == Admission::Refuse ==> counts_after[j] == counts[j] + (if j == 4 {
            1int
        } else {
            0
        }),
        protection::p2p_led_to(
            before,
            after,
            counts,
            counts_after,
            xuid,
            size,
            friends_only,
            now,
            r,
        ) && r == Admission::Refuse ==> counts_after[j] == counts[j] + (if j == 6 {
            1int
        } else {
            0
        }),
        hooks::connectionless_led_to(
            before,
            after,
            counts,
            counts_after,
            command,
            campaign,
            peer,
            size,
            now,
            false,
        ) && hooks::budgeted(command) ==> counts_after[j] == counts[j] + (if j == 7 {
            1int
        } else {
            0
        }),
{
}

} // verus!
