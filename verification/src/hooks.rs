//! What the hooked functions of the game decide. The hooks themselves read the game's memory
//! and hand plain values over.
use crate::network_guard;
use crate::network_guard::{Channel, Event, Events, Gates, Peer};
use crate::numbers;
use crate::numbers::read_signed32;
use crate::packets;
use crate::structs::Msg;
use crate::text;
use crate::text::{bytes_match_ignoring_case, find_byte, push_decimal, same_bytes};
use crate::words;
use crate::words::to_chars;
use vstd::prelude::*;

verus! {

/// How many bytes the White_Space character takes with which `s` starts from `i` on in UTF-8;

/// 0 if it starts with none.
pub open spec fn white_length(s: Seq<u8>, i: int) -> int {
    if i >= s.len() {
        0
    } else if 9 <= s[i] <= 13 || s[i] == 32 {
        1
    } else if i + 1 < s.len() && s[i] == 0xC2 && (s[i + 1] == 0x85 || s[i + 1] == 0xA0) {
        2
    } else if i + 2 < s.len() && white_triple(s[i], s[i + 1], s[i + 2]) {
        3
    } else {
        0
    }
}

pub open spec fn white_triple(a: u8, b: u8, c: u8) -> bool {
    ||| a == 0xE1 && b == 0x9A && c == 0x80
    ||| a == 0xE2 && b == 0x80 && (0x80 <= c <= 0x8A || c == 0xA8 || c == 0xA9 || c == 0xAF)
    ||| a == 0xE2 && b == 0x81 && c == 0x9F
    ||| a == 0xE3 && b == 0x80 && c == 0x80
}

/// Where `s` goes on behind the white space at `i`.
pub open spec fn after_white(s: Seq<u8>, i: int) -> int
    decreases s.len() - i,
{
    if white_length(s, i) == 0 {
        i
    } else {
        after_white(s, i + white_length(s, i))
    }
}

/// Where the digits from `i` on end.
pub open spec fn after_digits(s: Seq<u8>, i: int) -> int
    decreases s.len() - i,
{
    if i < s.len() && 48 <= s[i] <= 57 {
        after_digits(s, i + 1)
    } else {
        i
    }
}

/// The number at the start of a C string; 0 if there is none or it does not fit.
pub open spec fn leading_number(s: Seq<u8>) -> int {
    let t = text::until_nul(s);
    let a = after_white(t, 0);
    let signed = a < t.len() && (t[a] == 43 || t[a] == 45);
    let b = after_digits(t, if signed { a + 1 } else { a });
    match numbers::signed32(words::as_chars(t.subrange(a, b))) {
        Some(v) => v,
        None => 0,
    }
}

fn white_at(s: &[u8], i: usize) -> (r: usize)
    requires
        i <= s@.len(),
    ensures
        r == white_length(s@, i as int),
        i + r <= s@.len(),
{
    let n: usize = s.len();
    if i >= n {
        return 0;
    }
    let a: u8 = s[i];
    if (a >= 9 && a <= 13) || a == 32 {
        return 1;
    }
    if n - i >= 2 && a == 0xC2 && (s[i + 1] == 0x85 || s[i + 1] == 0xA0) {
        return 2;
    }
    if n - i >= 3 {
        let b: u8 = s[i + 1];
        let c: u8 = s[i + 2];
        if (a == 0xE1 && b == 0x9A && c == 0x80) || (a == 0xE2 && b == 0x80 && ((c >= 0x80 && c
            <= 0x8A) || c == 0xA8 || c == 0xA9 || c == 0xAF)) || (a == 0xE2 && b == 0x81 && c
            == 0x9F) || (a == 0xE3 && b == 0x80 && c == 0x80) {
            return 3;
        }
    }
    0
}

/// The number at the start of a C string.
pub fn atoi(bytes: &[u8]) -> (r: i32)
    ensures
        r == leading_number(bytes@),
{
    let n: usize = find_byte(bytes, 0, 0);
    let t: &[u8] = vstd::slice::slice_subrange(bytes, 0, n);
    assert(t@ =~= text::until_nul(bytes@));
    let mut a: usize = 0;
    let mut step: usize = white_at(t, 0);
    while step > 0
        invariant
            a + step <= n,
            n == t@.len(),
            step == white_length(t@, a as int),
            after_white(t@, a as int) == after_white(t@, 0),
        decreases n - a,
    {
        a = a + step;
        step = white_at(t, a);
    }
    let mut b: usize = a;
    if b < n && (t[b] == 43 || t[b] == 45) {
        b = b + 1;
    }
    let ghost start = b as int;
    while b < n && t[b] >= 48 && t[b] <= 57
        invariant
            a <= b <= n,
            n == t@.len(),
            after_digits(t@, b as int) == after_digits(t@, start),
        decreases n - b,
    {
        b = b + 1;
    }
    let number: &[u8] = vstd::slice::slice_subrange(t, a, b);
    let chars: Vec<char> = to_chars(number);
    assert(chars@.subrange(0, chars@.len() as int) =~= chars@);
    match read_signed32(chars.as_slice(), 0, chars.len()) {
        Some(v) => v,
        None => 0,
    }
}

/// Whether a key that could be read is `expected`, whatever its case.
pub open spec fn key_is_spec(key: Option<&[u8]>, expected: Seq<char>) -> bool {
    match key {
        Some(k) => text::same_ignoring_case(k@, text::utf8(expected)),
        None => false,
    }
}

pub fn key_is(key: Option<&[u8]>, expected: &str) -> (r: bool)
    ensures
        r == key_is_spec(key, expected@),
{
    match key {
        Some(k) => bytes_match_ignoring_case(k, expected.as_bytes()),
        None => false,
    }
}

/// A field that holds a lobby type.
pub open spec fn names_lobby_type(key: Option<&[u8]>) -> bool {
    key_is_spec(key, "lobbytype"@) || key_is_spec(key, "srclobbytype"@) || key_is_spec(
        key,
        "destlobbytype"@,
    )
}

fn lobby_type_key(key: Option<&[u8]>) -> (r: bool)
    ensures
        r == names_lobby_type(key),
{
    key_is(key, "lobbytype") || key_is(key, "srclobbytype") || key_is(key, "destlobbytype")
}

/// Whether a signed field may have this value.
pub open spec fn package_int_of(key: Option<&[u8]>, value: i32) -> bool {
    names_lobby_type(key) ==> 0 <= value <= 2
}

/// Whether a signed field that was read keeps its success: lobby types are 0 to 2.
pub fn package_int(key: Option<&[u8]>, value: i32) -> (r: bool)
    ensures
        r == package_int_of(key, value),
{
    if lobby_type_key(key) {
        0 <= value && value <= 2
    } else {
        true
    }
}

/// Whether an unsigned field may have this value.
pub open spec fn package_uint_of(key: Option<&[u8]>, value: u32, flags: u32) -> bool {
    if names_lobby_type(key) && value > 2 {
        false
    } else if key_is_spec(key, "datamask"@) && flags & 15 == 0 {
        value & 512 == 0
    } else {
        true
    }
}

/// Whether an unsigned field that was read keeps its success: lobby types are 0 to 2, and a
/// data mask must not ask for bit 9 while none of the four state `flags` is set.
pub fn package_uint(key: Option<&[u8]>, value: u32, flags: u32) -> (r: bool)
    ensures
        r == package_uint_of(key, value, flags),
{
    if lobby_type_key(key) && value > 2 {
        return false;
    }
    if key_is(key, "datamask") && flags & 15 == 0 {
        return value & 512 == 0;
    }
    true
}

/// What a byte field is left with.
pub open spec fn package_uchar_of(key: Option<&[u8]>, value: u8) -> u8 {
    if key_is_spec(key, "nattype"@) && value > 4 {
        4
    } else {
        value
    }
}

/// The value that a byte field is left with: NAT types end at 4.
pub fn package_uchar(key: Option<&[u8]>, value: u8) -> (r: u8)
    ensures
        r == package_uchar_of(key, value),
{
    if key_is(key, "nattype") && value > 4 {
        4
    } else {
        value
    }
}

/// The party size in a packed presence word.
pub open spec fn party_size(packed: u32) -> u32 {
    (packed >> 2) & 31
}

/// What a presence word is left with.
pub open spec fn clamp_presence_of(packed: u32) -> u32 {
    if party_size(packed) > 18 {
        (packed & !(31u32 << 2)) | (18u32 << 2)
    } else {
        packed
    }
}

/// A presence word with at most 18 players.
pub fn clamp_presence(packed: u32) -> (r: u32)
    ensures
        r == clamp_presence_of(packed),
{
    if (packed >> 2) & 31 > 18 {
        (packed & !(31u32 << 2)) | (18u32 << 2)
    } else {
        packed
    }
}

/// Clamping leaves at most 18 players and every other bit as it was.
pub proof fn lemma_clamped_presence(packed: u32)
    ensures
        party_size((packed & !(31u32 << 2)) | (18u32 << 2)) == 18,
        ((packed & !(31u32 << 2)) | (18u32 << 2)) & !(31u32 << 2) == packed & !(31u32 << 2),
{
    assert((((packed & !(31u32 << 2)) | (18u32 << 2)) >> 2) & 31 == 18) by (bit_vector);
    assert(((packed & !(31u32 << 2)) | (18u32 << 2)) & !(31u32 << 2) == packed & !(31u32 << 2))
        by (bit_vector);
}

/// The message indexes with a name.
pub open spec fn message_name_known_of(index: i32) -> bool {
    -1 <= index <= 32
}

/// Whether the game knows a name for a message index.
pub fn message_name_known(index: i32) -> (r: bool)
    ensures
        r == message_name_known_of(index),
{
    -1 <= index && index <= 32
}

/// Where a character customization lies.
pub open spec fn character_slot_of(object: u64, index: i32) -> Option<u64> {
    if index < 0 || object == 0 {
        None::<u64>
    } else {
        Some(object.wrapping_add((24 * index) as u64).wrapping_add(56))
    }
}

/// The slot of a character customization; `None` for what cannot have one.
pub fn character_slot(object: u64, index: i32) -> (r: Option<u64>)
    ensures
        r == character_slot_of(object, index),
{
    if index < 0 || object == 0 {
        None
    } else {
        Some(object.wrapping_add(24 * index as u64).wrapping_add(56))
    }
}

/// Which configuration strings are cleared.
pub open spec fn clears_config_string_of(index: i32, campaign: bool, value: Option<&[u8]>) -> bool {
    (index == 3514 || index == 3627) && !campaign && match value {
        Some(v) => v@.len() >= 9 && text::same_ignoring_case(
            v@.take(9),
            text::utf8("mspreload"@),
        ),
        None => false,
    }
}

/// Whether a configuration string is cleared: outside the campaign, two of them must not
/// preload anything.
pub fn clears_config_string(index: i32, campaign: bool, value: Option<&[u8]>) -> (r: bool)
    ensures
        r == clears_config_string_of(index, campaign, value),
{
    if (index != 3514 && index != 3627) || campaign {
        return false;
    }
    match value {
        Some(v) => if v.len() >= 9 {
            let head: &[u8] = vstd::slice::slice_subrange(v, 0, 9);
            assert(head@ =~= v@.take(9));
            bytes_match_ignoring_case(head, "mspreload".as_bytes())
        } else {
            false
        },
        None => false,
    }
}

/// Where the arguments of a command lie.
pub open spec fn command_slot_of(args: u64, nesting: i32) -> Option<u64> {
    if 0 <= nesting < 8 {
        Some((args + (2 * nesting + 34) * 4) as u64)
    } else {
        None::<u64>
    }
}

/// Where the arguments of the running command stand, if its nesting depth is one that the game
/// has.
pub fn command_slot(args: u64, nesting: i32) -> (r: Option<u64>)
    requires
        args <= u64::MAX - 200,
    ensures
        r == command_slot_of(args, nesting),
{
    if nesting < 0 || nesting >= 8 {
        None
    } else {
        Some(args + (2 * nesting as u64 + 34) * 4)
    }
}

/// Connectionless commands that a client may receive.
pub open spec fn legitimate(command: Seq<u8>) -> bool {
    ||| command == text::utf8("connectResponse"@)
    ||| command == text::utf8("statresponse"@)
    ||| command == text::utf8("LM"@)
    ||| command == text::utf8("disconnect"@)
    ||| command == text::utf8("loadoutResponse"@)
    ||| command == text::utf8("infoResponse"@)
    ||| command == text::utf8("statusResponse"@)
    ||| command == text::utf8("keyAuthorize"@)
    ||| command == text::utf8("error"@)
    ||| command == text::utf8("print"@)
    ||| command == text::utf8("fastrestart"@)
    ||| command == text::utf8("ping"@)
    ||| command == text::utf8("pinga"@)
    ||| command == text::utf8("steamAuthReq"@)
    ||| command == text::utf8("cfl"@)
}

/// A statistics request, which only the campaign answers.
pub open spec fn stats_request(command: Seq<u8>) -> bool {
    text::same_ignoring_case(command, text::utf8("requeststats"@)) || text::same_ignoring_case(
        command,
        text::utf8("requeststats\n"@),
    )
}

/// Commands that count against the connectionless budget.
pub open spec fn budgeted(command: Seq<u8>) -> bool {
    ||| command == text::utf8("infoResponse"@)
    ||| command == text::utf8("statusResponse"@)
    ||| command == text::utf8("print"@)
    ||| command == text::utf8("error"@)
    ||| command == text::utf8("ping"@)
    ||| command == text::utf8("pinga"@)
}

fn is_command(command: &[u8], name: &str) -> (r: bool)
    ensures
        r == (command@ == text::utf8(name@)),
{
    same_bytes(command, name.as_bytes())
}

fn is_budgeted(command: &[u8]) -> (r: bool)
    ensures
        r == budgeted(command@),
{
    is_command(command, "infoResponse") || is_command(command, "statusResponse") || is_command(
        command,
        "print",
    ) || is_command(command, "error") || is_command(command, "ping") || is_command(command, "pinga")
}

/// The connectionless commands that may be dispatched.
pub open spec fn command_allowed_of(command: &[u8], campaign: bool) -> bool {
    legitimate(command@) || (campaign && stats_request(command@))
}

/// Whether a connectionless command may be dispatched at all.
pub fn command_allowed(command: &[u8], campaign: bool) -> (r: bool)
    ensures
        r == command_allowed_of(command, campaign),
{
    is_command(command, "connectResponse") || is_command(command, "statresponse") || is_command(
        command,
        "LM",
    ) || is_command(command, "disconnect") || is_command(command, "loadoutResponse") || is_command(
        command,
        "infoResponse",
    ) || is_command(command, "statusResponse") || is_command(command, "keyAuthorize") || is_command(
        command,
        "error",
    ) || is_command(command, "print") || is_command(command, "fastrestart") || is_command(
        command,
        "ping",
    ) || is_command(command, "pinga") || is_command(command, "steamAuthReq") || is_command(
        command,
        "cfl",
    ) || (campaign && (bytes_match_ignoring_case(command, "requeststats".as_bytes())
        || bytes_match_ignoring_case(command, "requeststats\n".as_bytes())))
}

/// A connectionless command was decided on.
pub open spec fn connectionless_led_to(
    before: Gates,
    after: Gates,
    counts: Seq<u64>,
    counts_after: Seq<u64>,
    command: Seq<u8>,
    campaign: bool,
    peer: Peer,
    bytes: u32,
    now: u64,
    r: bool,
) -> bool {
    &&& r == ((legitimate(command) || (campaign && stats_request(command))) && (budgeted(command)
        ==> before.connectionless.admits(peer, bytes, now)))
    &&& budgeted(command) ==> before.connectionless.attempted(
        after.connectionless,
        peer,
        bytes,
        now,
    )
    &&& !budgeted(command) ==> after == before
    &&& after.social == before.social
    &&& after.instant == before.instant
    &&& after.p2p_control == before.p2p_control
    &&& counts_after == (if budgeted(command) && !r {
        counts.update(7, counts[7].wrapping_add(1))
    } else {
        counts
    })
}

/// Whether a connectionless command is dispatched: it must be allowed, and some commands must
/// stay within the budget of their sender too.
pub fn admit_connectionless(
    gates: &mut Gates,
    events: &mut Events,
    command: &[u8],
    campaign: bool,
    peer: Peer,
    bytes: u32,
    now: u64,
) -> (r: bool)
    requires
        old(gates).wf(),
    ensures
        final(gates).wf(),
        connectionless_led_to(*old(gates), *final(gates), old(events).counts@, final(events).counts@, command@, campaign, peer, bytes, now, r),
{
    if !command_allowed(command, campaign) {
        return false;
    }
    if !is_budgeted(command) {
        return true;
    }
    let admitted: bool = network_guard::allow(
        gates,
        events,
        Channel::Connectionless,
        peer,
        bytes,
        now,
    );
    assert(gates.gate(Channel::Social) == old(gates).gate(Channel::Social));
    assert(gates.gate(Channel::Instant) == old(gates).gate(Channel::Instant));
    assert(gates.gate(Channel::P2pControl) == old(gates).gate(Channel::P2pControl));
    admitted
}

/// The room that a capacity stands for.
pub open spec fn room_of(capacity: i32) -> Option<usize> {
    if capacity > 0 {
        Some(capacity as usize)
    } else {
        None
    }
}

/// How many bytes of output there is room for; without any, nothing is written.
pub fn room(capacity: i32) -> (r: Option<usize>)
    ensures
        r == room_of(capacity),
{
    if capacity > 0 {
        Some(capacity as usize)
    } else {
        None
    }
}

/// The kind of a question for the version.
pub open spec fn asks_version_of(kind: i32) -> bool {
    kind == 0
}

/// Whether the game asks for its version, which the patch answers itself.
pub fn asks_version(kind: i32) -> (r: bool)
    ensures
        r == asks_version_of(kind),
{
    kind == 0
}

/// When a further model is created.
pub open spec fn allocates_model_of(free: u16, named: bool) -> bool {
    free != 0 && named
}

/// Whether the interface may have a further model: there is a free one, and the name of the new
/// one is short enough.
pub fn allocates_model(free: u16, named: bool) -> (r: bool)
    ensures
        r == allocates_model_of(free, named),
{
    free != 0 && named
}

/// The payload of a packet of this length.
pub open spec fn payload_size_of(length: i32) -> Option<usize> {
    if length >= 2 {
        Some((length - 2) as usize)
    } else {
        None
    }
}

/// How much of a packet lies in front of its checksum, if it can have one.
pub fn payload_size(length: i32) -> (r: Option<usize>)
    ensures
        r == payload_size_of(length),
{
    if length >= 2 {
        Some((length - 2) as usize)
    } else {
        None
    }
}

/// The two bytes that a password puts in front of a lobby message; none without a password.
pub open spec fn prefix_of(pass: u64) -> Option<(u8, u8)> {
    if (pass >> 16) as u8 == 0 {
        None
    } else {
        Some(((pass >> 16) as u8, (pass >> 24) as u8))
    }
}

/// What to write in front of a lobby message.
pub fn message_prefix(pass: u64) -> (r: Option<(u8, u8)>)
    ensures
        r == prefix_of(pass),
{
    let first: u8 = (pass >> 16) as u8;
    if first == 0 {
        None
    } else {
        Some((first, (pass >> 24) as u8))
    }
}

/// Which first two bytes fit a password.
pub open spec fn prefix_matches_of(pass: u64, first: u8, second: u8) -> bool {
    match prefix_of(pass) {
        None => true,
        Some((a, b)) => first == a && second == b,
    }
}

/// Whether the two bytes in front of a received message are those of the password.
pub fn prefix_matches(pass: u64, first: u8, second: u8) -> (r: bool)
    ensures
        r == prefix_matches_of(pass, first, second),
{
    match message_prefix(pass) {
        None => true,
        Some((a, b)) => first == a && second == b,
    }
}

/// A checksum that only those with the password expect.
pub open spec fn sealed(checksum: u16, pass: u64) -> u16 {
    checksum ^ pass as u16
}

/// The checksum to send: the game's own, sealed with the current password.
pub fn checksum_copy(checksum: u16, pass: [u64; 3]) -> (r: u16)
    ensures
        r == sealed(checksum, pass@[1]),
{
    checksum ^ pass[1] as u16
}

pub const GRACE_MS: u64 = 1500;

/// Whether a received checksum is accepted: sealed with the current password or, shortly after
/// a change, with the one before.
pub open spec fn checksum_accepted(checksum: u16, received: u16, pass: Seq<u64>, now: u64) -> bool {
    received == sealed(checksum, pass[1]) || (now - pass[2] <= GRACE_MS && received == sealed(
        checksum,
        pass[0],
    ))
}

/// The length that a packet is left with.
pub open spec fn verify_checksum_of(
    length: i32,
    checksum: u16,
    received: u16,
    pass: [u64; 3],
    now: u64,
) -> int {
    if length >= 2 && checksum_accepted(checksum, received, pass@, now) {
        length - 2
    } else {
        -1
    }
}

/// The length of a packet's payload without its checksum, -1 if the packet is refused.
pub fn verify_checksum(length: i32, checksum: u16, received: u16, pass: [u64; 3], now: u64) -> (r:
    i64)
    ensures
        r == verify_checksum_of(length, checksum, received, pass, now),
{
    if length < 2 {
        return -1;
    }
    if received == checksum ^ pass[1] as u16 || (now.saturating_sub(pass[2]) <= GRACE_MS && received
        == checksum ^ pass[0] as u16) {
        (length - 2) as i64
    } else {
        -1
    }
}

/// Two players with one password understand each other, and for the grace period after a
/// change those who still have the old one do too.
pub proof fn lemma_passwords_agree(checksum: u16, pass: Seq<u64>, now: u64)
    requires
        pass.len() == 3,
    ensures
        checksum_accepted(checksum, sealed(checksum, pass[1]), pass, now),
        now - pass[2] <= GRACE_MS ==> checksum_accepted(checksum, sealed(checksum, pass[0]), pass, now),
{
}

/// After the grace period a packet that was sealed with other bits than those of the current
/// password is refused.
pub proof fn lemma_other_password_refused(checksum: u16, other: u64, pass: Seq<u64>, now: u64)
    requires
        pass.len() == 3,
        now - pass[2] > GRACE_MS,
        other as u16 != pass[1] as u16,
    ensures
        !checksum_accepted(checksum, sealed(checksum, other), pass, now),
{
    let a = other as u16;
    let b = pass[1] as u16;
    assert(a != b ==> checksum ^ a != checksum ^ b) by (bit_vector);
}

/// What to do about an instant message.
#[derive(Clone, Copy, Debug, PartialEq, Eq, Structural)]
pub enum Instant {
    /// Drop it and count why.
    Drop { event: Event },
    /// Look at the first word of its payload.
    CheckWord { size: u32 },
    /// Look at the lobby information it may hold.
    CheckPending { size: u32 },
    /// Hand its payload to the game.
    Deliver { size: u32 },
}

/// The lengths of an instant message.
pub open spec fn instant_length_of(length: u32) -> bool {
    2 <= length <= 2049
}

/// Whether an instant message has a length that is looked at: two bytes of header and less than
/// 2048 of payload.
pub fn instant_length(length: u32) -> (r: bool)
    ensures
        r == instant_length_of(length),
{
    2 <= length && length <= 2049
}

/// What to do about a message with this header, whose reader stands behind it.
pub open spec fn instant_of(marker: u8, kind: u8, msg: Msg) -> Instant {
    let size = (msg.cur_size - msg.read_count) as u32;
    if packets::fault_of(msg) is Some {
        Instant::Drop { event: Event::Envelope }
    } else if marker != 49 || msg.read_count > msg.cur_size || msg.cur_size - msg.read_count >= 2048
        || kind == 0x65 || kind == 0x6d {
        Instant::Drop { event: Event::Instant }
    } else if kind == 0x66 {
        if msg.cur_size - msg.read_count == 0x64 {
            Instant::CheckWord { size }
        } else {
            Instant::Drop { event: Event::Instant }
        }
    } else if kind == 0x68 {
        Instant::CheckPending { size }
    } else {
        Instant::Deliver { size }
    }
}

pub fn instant(marker: u8, kind: u8, msg: &Msg) -> (r: Instant)
    ensures
        r == instant_of(marker, kind, *msg),
{
    if packets::descriptor_fault(msg).is_some() {
        return Instant::Drop { event: Event::Envelope };
    }
    if marker != 49 || msg.read_count > msg.cur_size {
        return Instant::Drop { event: Event::Instant };
    }
    let size: u32 = msg.cur_size - msg.read_count;
    if size >= 2048 || kind == 0x65 || kind == 0x6d || (kind == 0x66 && size != 0x64) {
        return Instant::Drop { event: Event::Instant };
    }
    if kind == 0x66 {
        Instant::CheckWord { size }
    } else if kind == 0x68 {
        Instant::CheckPending { size }
    } else {
        Instant::Deliver { size }
    }
}

/// What the first word of a payload decides.
pub open spec fn instant_word_of(size: u32, word: Option<u32>) -> Instant {
    match word {
        Some(w) => if w == 0 {
            Instant::Drop { event: Event::Instant }
        } else {
            Instant::Deliver { size }
        },
        None => Instant::Drop { event: Event::Instant },
    }
}

/// After the first word of the payload was read, if it could be.
pub fn instant_word(size: u32, word: Option<u32>) -> (r: Instant)
    ensures
        r == instant_word_of(size, word),
{
    match word {
        Some(w) => if w == 0 {
            Instant::Drop { event: Event::Instant }
        } else {
            Instant::Deliver { size }
        },
        None => Instant::Drop { event: Event::Instant },
    }
}

/// What an overrun decides.
pub open spec fn instant_read_of(overflowed: u8) -> Option<Event> {
    if overflowed != 0 {
        Some(Event::Instant)
    } else {
        None
    }
}

/// Why a message is dropped after its payload was read, if the reader ran over its end.
pub fn instant_read(overflowed: u8) -> (r: Option<Event>)
    ensures
        r == instant_read_of(overflowed),
{
    if overflowed != 0 {
        Some(Event::Instant)
    } else {
        None
    }
}

/// A message whose payload the game gets is short enough for its buffer.
pub proof fn lemma_delivered_fits(marker: u8, kind: u8, msg: Msg)
    ensures
        instant_of(marker, kind, msg) matches Instant::Deliver { size } ==> size < 2048 && marker
            == 49,
        instant_of(marker, kind, msg) matches Instant::CheckWord { size } ==> size == 0x64,
        instant_of(marker, kind, msg) matches Instant::CheckPending { size } ==> size < 2048,
{
}

/// What to do about a menu response.
#[derive(Clone, Copy, Debug, PartialEq, Eq, Structural)]
pub enum MenuAction {
    Ignore,
    Ban,
    /// Ban the sender unless this machine is the host.
    AskHost,
    Notify,
}

pub open spec fn ends_game(response: Seq<u8>) -> bool {
    text::same_ignoring_case(response, text::utf8("killserverpc"@)) || text::same_ignoring_case(
        response,
        text::utf8("endgame"@),
    ) || text::same_ignoring_case(response, text::utf8("endround"@))
}

/// Only the first client may restart a level or end the game, and the game only on the host.
pub open spec fn menu_action_of(response: Seq<u8>, client: i32) -> MenuAction {
    if text::same_ignoring_case(response, text::utf8("badspawn"@)) {
        MenuAction::Ignore
    } else if client != 0 && (ends_game(response) || text::same_ignoring_case(
        response,
        text::utf8("restart_level_zm"@),
    )) {
        MenuAction::Ban
    } else if ends_game(response) {
        MenuAction::AskHost
    } else {
        MenuAction::Notify
    }
}

fn is_response(response: &[u8], name: &str) -> (r: bool)
    ensures
        r == text::same_ignoring_case(response@, text::utf8(name@)),
{
    bytes_match_ignoring_case(response, name.as_bytes())
}

/// Decides on the response in a buffer, up to its first NUL; without one its last byte is left
/// out.
pub fn menu_action(buffer: &[u8], client: i32) -> (r: MenuAction)
    requires
        buffer@.len() > 0,
    ensures
        r == menu_action_of(response_in(buffer@), client),
{
    let zero: usize = find_byte(buffer, 0, 0);
    let n: usize = if zero < buffer.len() {
        zero
    } else {
        buffer.len() - 1
    };
    let response: &[u8] = vstd::slice::slice_subrange(buffer, 0, n);
    assert(response@ =~= response_in(buffer@));
    if is_response(response, "badspawn") {
        return MenuAction::Ignore;
    }
    let ends: bool = is_response(response, "killserverpc") || is_response(response, "endgame")
        || is_response(response, "endround");
    if client != 0 && (ends || is_response(response, "restart_level_zm")) {
        MenuAction::Ban
    } else if ends {
        MenuAction::AskHost
    } else {
        MenuAction::Notify
    }
}

pub open spec fn response_in(buffer: Seq<u8>) -> Seq<u8> {
    let zero = text::find_from(buffer, 0, 0);
    if zero < buffer.len() {
        buffer.take(zero)
    } else {
        buffer.drop_last()
    }
}

/// What being the host decides.
pub open spec fn menu_host_of(host: bool) -> MenuAction {
    if host {
        MenuAction::Notify
    } else {
        MenuAction::Ban
    }
}

/// After it is known whether this machine is the host.
pub fn menu_host(host: bool) -> (r: MenuAction)
    ensures
        r == menu_host_of(host),
{
    if host {
        MenuAction::Notify
    } else {
        MenuAction::Ban
    }
}

/// A number below `limit` at the start of an argument.
pub open spec fn index_in(argument: Seq<u8>, limit: u32) -> Option<u32> {
    if 0 <= leading_number(argument) < limit {
        Some(leading_number(argument) as u32)
    } else {
        None
    }
}

/// The index of a menu or an event that a response names, if the game has so many.
pub fn response_index(argument: &[u8], limit: u32) -> (r: Option<u32>)
    requires
        limit <= 0x7fff_ffff,
    ensures
        r == index_in(argument@, limit),
{
    let v: i32 = atoi(argument);
    if v >= 0 && (v as u32) < limit {
        Some(v as u32)
    } else {
        None
    }
}

/// How the arguments of a menu response are taken.
#[derive(Clone, Copy, Debug, PartialEq, Eq, Structural)]
pub enum MenuArguments {
    /// The nesting depth is none that the game has.
    Ignore,
    /// The response is `bad`, for no menu.
    Bad,
    /// Four arguments: the server, the menu and the response.
    Read,
}

/// What nesting and number of arguments decide.
pub open spec fn menu_arguments_of(nesting: i32, argc: i32) -> MenuArguments {
    if !(0 <= nesting < 8) {
        MenuArguments::Ignore
    } else if argc != 4 {
        MenuArguments::Bad
    } else {
        MenuArguments::Read
    }
}

pub fn menu_arguments(nesting: i32, argc: i32) -> (r: MenuArguments)
    ensures
        r == menu_arguments_of(nesting, argc),
{
    if nesting < 0 || nesting >= 8 {
        MenuArguments::Ignore
    } else if argc != 4 {
        MenuArguments::Bad
    } else {
        MenuArguments::Read
    }
}

/// An integer with its sign.
pub open spec fn signed_decimal(v: int) -> Seq<char> {
    if v < 0 {
        "-"@ + text::decimal((-v) as nat)
    } else {
        text::decimal(v as nat)
    }
}

/// The console command that bans a client for a while, as text.
pub open spec fn ban_command_of(client: i32) -> Seq<char> {
    "tempBanClient "@ + signed_decimal(client as int) + "\n"@
}

/// The console command that bans a client for a while.
pub fn ban_command(client: i32) -> (r: String)
    ensures
        r@ == ban_command_of(client),
{
    let mut out = "tempBanClient ".to_owned();
    if client < 0 {
        out.append("-");
        push_decimal(&mut out, (0 - client as i64) as u64);
    } else {
        push_decimal(&mut out, client as u64);
    }
    out.append("\n");
    assert(out@ =~= "tempBanClient "@ + signed_decimal(client as int) + "\n"@);
    out
}

/// Bytes of the game that are replaced while the patch is active.
pub open spec fn patch_table() -> Seq<(u64, Seq<u8>)> {
    seq![
        (0x1964766, seq![0x90u8, 0x90u8, 0x90u8, 0x90u8, 0x90u8]),
        (0x19646A7, seq![0x90u8, 0x90u8, 0x90u8, 0x90u8, 0x90u8]),
        (0x1EEACF3, seq![0xb7u8]),
        (0x20E2A41, seq![0x2fu8]),
        (0x22BC1CD, seq![0u8, 0x80u8, 0u8, 0u8]),
        (0x22BC1D2, seq![0u8, 0x80u8, 0u8, 0u8]),
        (0x1F21EF8, seq![0xb6u8]),
        (0x1CA4C84, seq![0xb6u8]),
    ]
}

/// The replacements, each with its address in the February build.
pub fn memory_patches() -> (r: Vec<(u64, Vec<u8>)>)
    ensures
        r@.len() == patch_table().len(),
        forall|i: int|
            0 <= i < r@.len() ==> (#[trigger] r@[i]).0 == patch_table()[i].0 && r@[i].1@
                == patch_table()[i].1,
{
    let mut out: Vec<(u64, Vec<u8>)> = Vec::new();
    out.push((0x1964766, vec![0x90u8, 0x90u8, 0x90u8, 0x90u8, 0x90u8]));
    out.push((0x19646A7, vec![0x90u8, 0x90u8, 0x90u8, 0x90u8, 0x90u8]));
    out.push((0x1EEACF3, vec![0xb7u8]));
    out.push((0x20E2A41, vec![0x2fu8]));
    out.push((0x22BC1CD, vec![0u8, 0x80u8, 0u8, 0u8]));
    out.push((0x22BC1D2, vec![0u8, 0x80u8, 0u8, 0u8]));
    out.push((0x1F21EF8, vec![0xb6u8]));
    out.push((0x1CA4C84, vec![0xb6u8]));
    assert(out@[0].1@ =~= patch_table()[0].1);
    assert(out@[1].1@ =~= patch_table()[1].1);
    assert(out@[2].1@ =~= patch_table()[2].1);
    assert(out@[3].1@ =~= patch_table()[3].1);
    assert(out@[4].1@ =~= patch_table()[4].1);
    assert(out@[5].1@ =~= patch_table()[5].1);
    assert(out@[6].1@ =~= patch_table()[6].1);
    assert(out@[7].1@ =~= patch_table()[7].1);
    out
}

/// The functions of the game that are hooked: the name of each and where it lies in the February
/// build, in the order of creation.
pub open spec fn hook_table() -> Seq<(Seq<char>, u64)> {
    seq![
        ("hook.build_title"@, 0x20E31C0),
        ("hook.system_info"@, 0x1E016C0),
        ("hook.print_message"@, 0x1EEA940),
        ("hook.print_debug"@, 0x1EEA680),
        ("hook.exec_lua"@, 0x1EF8A60),
        ("hook.init_server"@, 0x1EA9C80),
        ("hook.browser"@, 0x1EA4E30),
        ("hook.subscribe"@, 0x20CB0C0),
        ("hook.message_name"@, 0x1EDFA60),
        ("hook.copy"@, 0x2BC4EB0),
        ("hook.character"@, 0x22C9650),
        ("hook.get_name"@, 0x1EBB200),
        ("hook.presence"@, 0x1E85450),
        ("hook.invite"@, 0x1E19B30),
        ("hook.join_action"@, 0x1E72040),
        ("hook.join_info"@, 0x1E724A0),
        ("hook.config_string"@, 0x1321130),
        ("hook.connectionless"@, 0x134CD70),
        ("hook.binding"@, 0x221CE90),
        ("hook.model_string"@, 0x1F27400),
        ("hook.model_path0"@, 0x200CF00),
        ("hook.model_path"@, 0x200D5B0),
        ("hook.model_create"@, 0x200CFC0),
        ("hook.model_alloc"@, 0x200CD00),
        ("hook.package_int"@, 0x1EEA3E0),
        ("hook.package_uint"@, 0x1EEA490),
        ("hook.package_uchar"@, 0x1EEA450),
        ("hook.prep_write"@, 0x1EEA560),
        ("hook.prep_read"@, 0x1EEB8D0),
        ("hook.verify_checksum"@, 0x211F5A0),
        ("hook.checksum_copy"@, 0x211F500),
        ("hook.instant"@, 0x143A620),
        ("hook.menu"@, 0x195F100),
        ("hook.menu_cached"@, 0x195EFA0),
    ]
}

pub fn create() -> (r: Vec<(&'static str, u64)>)
    ensures
        r@.len() == hook_table().len(),
        forall|i: int|
            0 <= i < r@.len() ==> (#[trigger] r@[i]).0@ == hook_table()[i].0 && r@[i].1
                == hook_table()[i].1,
{
    let mut out: Vec<(&'static str, u64)> = Vec::new();
    out.push(("hook.build_title", 0x20E31C0));
    out.push(("hook.system_info", 0x1E016C0));
    out.push(("hook.print_message", 0x1EEA940));
    out.push(("hook.print_debug", 0x1EEA680));
    out.push(("hook.exec_lua", 0x1EF8A60));
    out.push(("hook.init_server", 0x1EA9C80));
    out.push(("hook.browser", 0x1EA4E30));
    out.push(("hook.subscribe", 0x20CB0C0));
    out.push(("hook.message_name", 0x1EDFA60));
    out.push(("hook.copy", 0x2BC4EB0));
    out.push(("hook.character", 0x22C9650));
    out.push(("hook.get_name", 0x1EBB200));
    out.push(("hook.presence", 0x1E85450));
    out.push(("hook.invite", 0x1E19B30));
    out.push(("hook.join_action", 0x1E72040));
    out.push(("hook.join_info", 0x1E724A0));
    out.push(("hook.config_string", 0x1321130));
    out.push(("hook.connectionless", 0x134CD70));
    out.push(("hook.binding", 0x221CE90));
    out.push(("hook.model_string", 0x1F27400));
    out.push(("hook.model_path0", 0x200CF00));
    out.push(("hook.model_path", 0x200D5B0));
    out.push(("hook.model_create", 0x200CFC0));
    out.push(("hook.model_alloc", 0x200CD00));
    out.push(("hook.package_int", 0x1EEA3E0));
    out.push(("hook.package_uint", 0x1EEA490));
    out.push(("hook.package_uchar", 0x1EEA450));
    out.push(("hook.prep_write", 0x1EEA560));
    out.push(("hook.prep_read", 0x1EEB8D0));
    out.push(("hook.verify_checksum", 0x211F5A0));
    out.push(("hook.checksum_copy", 0x211F500));
    out.push(("hook.instant", 0x143A620));
    out.push(("hook.menu", 0x195F100));
    out.push(("hook.menu_cached", 0x195EFA0));
    out
}

/// No function is hooked twice.
pub proof fn lemma_hooks_are_distinct(i: int, j: int)
    requires
        0 <= i < j < hook_table().len(),
    ensures
        hook_table()[i].1 != hook_table()[j].1,
{
}

/// The name of the campaign.
pub open spec fn campaign_of(mode: Option<&[u8]>) -> bool {
    key_is_spec(mode, "CP"@)
}

/// Whether the mode that the game names is the campaign.
pub fn campaign(mode: Option<&[u8]>) -> (r: bool)
    ensures
        r == campaign_of(mode),
{
    key_is(mode, "CP")
}

/// The sizes that are not copied.
pub open spec fn copy_refused_of(size: i32) -> bool {
    size < 0
}

/// Whether a copy of `size` bytes is refused, and both its strings emptied.
pub fn copy_refused(size: i32) -> (r: bool)
    ensures
        r == copy_refused_of(size),
{
    size < 0
}

/// What the game shows as its version.
pub fn version_text(version: &str) -> (r: String)
    ensures
        r@ == "T7 Patch Rust v"@ + version@ + " (experimental)"@,
{
    let mut out = "T7 Patch Rust v".to_owned();
    out.append(version);
    out.append(" (experimental)");
    out
}

} // verus!
