//! What the patched functions of the game let through, change and refuse.
use crate::hooks;
use crate::hooks::{Instant, MenuAction, MenuArguments};
use crate::network_guard::Event;
use crate::packets;
use crate::structs::Msg;
use crate::text;
use crate::words;
use crate::numbers;
use vstd::prelude::*;

verus! {

/// `word`, which is in lower case, spelt with letters of either case.
pub open spec fn spelt(k: Seq<u8>, word: Seq<char>) -> bool {
    k.len() == word.len() && forall|i: int|
        0 <= i < word.len() ==> (#[trigger] k[i] == word[i] as u8 || ('a' <= word[i] <= 'z' && k[i]
            == word[i] as u8 - 32))
}

proof fn lemma_spelt(k: Seq<u8>, word: Seq<char>)
    requires
        forall|i: int|
            0 <= i < word.len() ==> 0 <= (#[trigger] word[i]) as int <= 127 && !('A' <= word[i]
                <= 'Z'),
    ensures
        text::same_ignoring_case(k, text::utf8(word)) == spelt(k, word),
{
    text::lemma_utf8_of_ascii(word);
    if spelt(k, word) {
        assert forall|i: int| 0 <= i < k.len() implies text::lower(#[trigger] k[i]) == text::lower(
            text::utf8(word)[i],
        ) by {
            assert(text::utf8(word)[i] == word[i] as u8);
        }
    }
    if text::same_ignoring_case(k, text::utf8(word)) {
        assert forall|i: int| 0 <= i < word.len() implies (#[trigger] k[i] == word[i] as u8 || (
        'a' <= word[i] <= 'z' && k[i] == word[i] as u8 - 32)) by {
            assert(text::utf8(word)[i] == word[i] as u8);
            assert(text::lower(k[i]) == text::lower(text::utf8(word)[i]));
        }
    }
}

/// One of the three fields that name a kind of lobby.
pub open spec fn lobby_field(k: Seq<u8>) -> bool {
    spelt(k, "lobbytype"@) || spelt(k, "srclobbytype"@) || spelt(k, "destlobbytype"@)
}

proof fn lemma_keys(k: &[u8])
    ensures
        hooks::names_lobby_type(Some(k)) == lobby_field(k@),
        hooks::key_is_spec(Some(k), "datamask"@) == spelt(k@, "datamask"@),
        hooks::key_is_spec(Some(k), "nattype"@) == spelt(k@, "nattype"@),
{
    reveal_strlit("lobbytype");
    reveal_strlit("srclobbytype");
    reveal_strlit("destlobbytype");
    reveal_strlit("datamask");
    reveal_strlit("nattype");
    lemma_spelt(k@, "lobbytype"@);
    lemma_spelt(k@, "srclobbytype"@);
    lemma_spelt(k@, "destlobbytype"@);
    lemma_spelt(k@, "datamask"@);
    lemma_spelt(k@, "nattype"@);
}

/// There are three kinds of lobby. A field that names one is refused for any other number, signed
/// or not; a field that does not, or whose key cannot be read, may hold any number.
pub proof fn lemma_lobby_fields(k: &[u8], signed: i32, unsigned: u32, flags: u32)
    ensures
        hooks::package_int_of(Some(k), signed) <==> (lobby_field(k@) ==> signed == 0 || signed == 1
            || signed == 2),
        hooks::package_int_of(None, signed),
        unsigned > 2 && lobby_field(k@) ==> !hooks::package_uint_of(Some(k), unsigned, flags),
        unsigned <= 2 && !spelt(k@, "datamask"@) ==> hooks::package_uint_of(
            Some(k),
            unsigned,
            flags,
        ),
        !lobby_field(k@) && !spelt(k@, "datamask"@) ==> hooks::package_uint_of(
            Some(k),
            unsigned,
            flags,
        ),
        hooks::package_uint_of(None, unsigned, flags),
{
    lemma_keys(k);
}

/// A data mask may have bit 9 only while one of the four state flags is set.
pub proof fn lemma_data_mask(k: &[u8], value: u32, flags: u32)
    requires
        spelt(k@, "datamask"@),
    ensures
        hooks::package_uint_of(Some(k), value, flags) <==> (value / 512) % 2 == 0 || flags % 16 != 0,
{
    lemma_keys(k);
    reveal_strlit("lobbytype");
    reveal_strlit("srclobbytype");
    reveal_strlit("destlobbytype");
    reveal_strlit("datamask");
    assert(k@[0] == 'd' as u8 || k@[0] == 'd' as u8 - 32);
    assert((value & 512 == 0) == ((value / 512) % 2 == 0)) by (bit_vector);
    assert((flags & 15 == 0) == (flags % 16 == 0)) by (bit_vector);
}

/// NAT types above 4 become 4; nothing else about a byte field changes.
pub proof fn lemma_nat_type(k: &[u8], value: u8)
    ensures
        hooks::package_uchar_of(Some(k), value) == (if spelt(k@, "nattype"@) && value >= 5 {
            4u8
        } else {
            value
        }),
        hooks::package_uchar_of(None, value) == value,
{
    lemma_keys(k);
}

/// A presence word shows at most 18 players. Fewer are shown as they are, and what stands on
/// either side of the five bits stays.
pub proof fn lemma_presence(packed: u32)
    ensures
        (hooks::clamp_presence_of(packed) / 4) % 32 == (if (packed / 4) % 32 < 18 {
            (packed / 4) % 32
        } else {
            18
        }),
        hooks::clamp_presence_of(packed) % 4 == packed % 4,
        hooks::clamp_presence_of(packed) / 128 == packed / 128,
{
    assert((packed >> 2) & 31 == (packed / 4) % 32) by (bit_vector);
    assert((((packed & !(31u32 << 2)) | (18u32 << 2)) / 4) % 32 == 18) by (bit_vector);
    assert(((packed & !(31u32 << 2)) | (18u32 << 2)) % 4 == packed % 4) by (bit_vector);
    assert(((packed & !(31u32 << 2)) | (18u32 << 2)) / 128 == packed / 128) by (bit_vector);
}

/// Indexes, sizes and depths that the game has.
pub proof fn lemma_bounds(index: i32)
    ensures
        hooks::message_name_known_of(index) <==> index >= -1 && index < 33,
        hooks::copy_refused_of(index) <==> !(index >= 0),
        hooks::asks_version_of(index) <==> index == 0,
        hooks::room_of(index) is Some <==> index >= 1,
        index >= 1 ==> hooks::room_of(index) == Some(index as usize),
        hooks::payload_size_of(index) is Some <==> index > 1,
        index > 1 ==> hooks::payload_size_of(index) == Some((index - 2) as usize),
        hooks::instant_length_of(index as u32) <==> 2 <= index <= 2049,
{
    assert(index < 0 ==> index as u32 >= 0x8000_0000u32) by (bit_vector);
}

/// An interface model is created if and only if one is free and it has a usable name.
pub proof fn lemma_models(free: u16, named: bool)
    ensures
        hooks::allocates_model_of(free, named) <==> named && free > 0,
{
}

/// Customizations lie 24 bytes apart, the first 56 bytes behind their object; commands 8 bytes
/// apart, the first 136 bytes behind the table.
pub proof fn lemma_slots(object: u64, args: u64, index: i32)
    requires
        args <= u64::MAX - 200,
    ensures
        hooks::character_slot_of(object, index) is None <==> object == 0 || index < 0,
        object != 0 && index >= 0 ==> hooks::character_slot_of(object, index)->Some_0 == (object
            + 24 * index + 56) % 0x1_0000_0000_0000_0000,
        hooks::command_slot_of(args, index) is Some <==> 0 <= index <= 7,
        0 <= index <= 7 ==> hooks::command_slot_of(args, index)->Some_0 == args + 136 + 8 * index,
{
}

/// Outside the campaign the strings 3514 and 3627 are cleared if they start with the word for a
/// preload; any other string and every string of the campaign stays.
pub proof fn lemma_preloads(index: i32, campaign: bool, value: &[u8])
    ensures
        hooks::clears_config_string_of(index, campaign, Some(value)) <==> {
            &&& !campaign
            &&& index == 3514 || index == 3627
            &&& value@.len() >= 9
            &&& spelt(value@.take(9), "mspreload"@)
        },
        !hooks::clears_config_string_of(index, campaign, None),
{
    reveal_strlit("mspreload");
    if value@.len() >= 9 {
        lemma_spelt(value@.take(9), "mspreload"@);
    }
}

/// The mode is the campaign if and only if it is called CP.
pub proof fn lemma_campaign(mode: &[u8])
    ensures
        hooks::campaign_of(Some(mode)) <==> mode@.len() == 2 && (mode@[0] == 'C' as u8 || mode@[0]
            == 'c' as u8) && (mode@[1] == 'P' as u8 || mode@[1] == 'p' as u8),
        !hooks::campaign_of(None),
{
    reveal_strlit("CP");
    text::lemma_utf8_of_ascii("CP"@);
    if mode@.len() == 2 {
        assert(text::lower(mode@[0]) == text::lower('C' as u8) <==> mode@[0] == 'C' as u8 || mode@[0]
            == 'c' as u8);
        assert(text::lower(mode@[1]) == text::lower('P' as u8) <==> mode@[1] == 'P' as u8 || mode@[1]
            == 'p' as u8);
    }
}

/// The answers that a client listens to.
pub open spec fn answers() -> Seq<Seq<char>> {
    seq![
        "connectResponse"@,
        "statresponse"@,
        "LM"@,
        "disconnect"@,
        "loadoutResponse"@,
        "keyAuthorize"@,
        "fastrestart"@,
        "steamAuthReq"@,
        "cfl"@,
        "infoResponse"@,
        "statusResponse"@,
        "error"@,
        "print"@,
        "ping"@,
        "pinga"@,
    ]
}

/// A connectionless command is dispatched if and only if it is one of these answers, letter for
/// letter, or in the campaign a request for statistics. The last six of them, and nothing else, are
/// charged to their sender.
pub proof fn lemma_commands(command: &[u8], campaign: bool)
    ensures
        hooks::command_allowed_of(command, campaign) <==> (exists|i: int|
            0 <= i < 15 && command@ == text::utf8(#[trigger] answers()[i])) || (campaign && (spelt(
            command@,
            "requeststats"@,
        ) || (command@.len() == 13 && spelt(command@.take(12), "requeststats"@) && command@[12]
            == 10))),
        hooks::budgeted(command@) <==> exists|i: int|
            9 <= i < 15 && command@ == text::utf8(#[trigger] answers()[i]),
{
    let a = answers();
    assert(a[0] == "connectResponse"@ && a[1] == "statresponse"@ && a[2] == "LM"@ && a[3]
        == "disconnect"@ && a[4] == "loadoutResponse"@ && a[5] == "keyAuthorize"@ && a[6]
        == "fastrestart"@ && a[7] == "steamAuthReq"@ && a[8] == "cfl"@ && a[9] == "infoResponse"@
        && a[10] == "statusResponse"@ && a[11] == "error"@ && a[12] == "print"@ && a[13] == "ping"@
        && a[14] == "pinga"@);
    reveal_strlit("requeststats");
    reveal_strlit("requeststats\n");
    lemma_spelt(command@, "requeststats"@);
    lemma_spelt(command@, "requeststats\n"@);
    if command@.len() == 13 {
        let head = command@.take(12);
        if spelt(command@, "requeststats\n"@) {
            assert forall|i: int| 0 <= i < 12 implies (#[trigger] head[i] == "requeststats"@[i] as u8
                || ('a' <= "requeststats"@[i] <= 'z' && head[i] == "requeststats"@[i] as u8 - 32)) by {
                assert(head[i] == command@[i]);
                assert("requeststats"@[i] == "requeststats\n"@[i]);
            }
            assert(command@[12] == "requeststats\n"@[12] as u8);
        }
        if spelt(head, "requeststats"@) && command@[12] == 10 {
            assert forall|i: int| 0 <= i < 13 implies (#[trigger] command@[i] == "requeststats\n"@[i] as u8
                || ('a' <= "requeststats\n"@[i] <= 'z' && command@[i] == "requeststats\n"@[i] as u8
                - 32)) by {
                if i < 12 {
                    assert(head[i] == command@[i]);
                    assert("requeststats"@[i] == "requeststats\n"@[i]);
                }
            }
        }
    }
}

/// The two bytes that a password puts in front of a message are its third and fourth; a password
/// whose third byte is 0 puts none.
pub proof fn lemma_prefix(pass: u64, first: u8, second: u8)
    ensures
        hooks::prefix_of(pass) is None <==> (pass / 0x1_0000) % 256 == 0,
        hooks::prefix_of(pass) is Some ==> hooks::prefix_of(pass)->Some_0.0 == (pass / 0x1_0000)
            % 256 && hooks::prefix_of(pass)->Some_0.1 == (pass / 0x100_0000) % 256,
        hooks::prefix_matches_of(pass, first, second) <==> (pass / 0x1_0000) % 256 == 0 || (first
            == (pass / 0x1_0000) % 256 && second == (pass / 0x100_0000) % 256),
{
    assert((pass >> 16) as u8 == (pass / 0x1_0000) % 256) by (bit_vector);
    assert((pass >> 24) as u8 == (pass / 0x100_0000) % 256) by (bit_vector);
}

/// A packet that was sealed with some password is accepted if and only if it is long enough for a
/// checksum and the low 16 bits of that password are those of the current one or, for a second and
/// a half after the change, of the one before. What is accepted loses its checksum.
pub proof fn lemma_sealed_packets(length: i32, checksum: u16, with: u64, pass: [u64; 3], now: u64)
    ensures
        ({
            let received = hooks::sealed(checksum, with);
            let left = hooks::verify_checksum_of(length, checksum, received, pass, now);
            &&& left == length - 2 || left == -1
            &&& left >= 0 <==> length >= 2 && (with % 0x1_0000 == pass@[1] % 0x1_0000 || (now
                <= pass@[2] + 1500 && with % 0x1_0000 == pass@[0] % 0x1_0000))
        }),
{
    let a = with as u16;
    let b = pass@[1] as u16;
    let c = pass@[0] as u16;
    let p = pass@[1];
    let q = pass@[0];
    assert(with as u16 == with % 0x1_0000) by (bit_vector);
    assert(p as u16 == p % 0x1_0000) by (bit_vector);
    assert(q as u16 == q % 0x1_0000) by (bit_vector);
    assert((checksum ^ a == checksum ^ b) == (a == b)) by (bit_vector);
    assert((checksum ^ a == checksum ^ c) == (a == c)) by (bit_vector);
}

/// An instant message with a sound reader, the right mark and less than 2048 bytes goes on by its
/// kind: never 101 and 109, 102 if it has 100 bytes, of which the first word is looked at, 104
/// once its sender may be heard, and everything else at once. All others are dropped.
pub proof fn lemma_instant(marker: u8, kind: u8, msg: Msg)
    ensures
        ({
            let left = msg.cur_size - msg.read_count;
            let good = packets::fault_of(msg) is None && marker == 49 && 0 <= left <= 2047;
            let step = hooks::instant_of(marker, kind, msg);
            &&& step is Deliver <==> good && kind != 101 && kind != 102 && kind != 104 && kind != 109
            &&& step is CheckPending <==> good && kind == 104
            &&& step is CheckWord <==> good && kind == 102 && left == 100
            &&& step matches Instant::Deliver { size } ==> size == left
            &&& step matches Instant::CheckPending { size } ==> size == left
            &&& step matches Instant::CheckWord { size } ==> size == 100
            &&& step == (Instant::Drop { event: Event::Envelope }) <==> packets::fault_of(
                msg,
            ) is Some
            &&& step is Drop && packets::fault_of(msg) is None ==> step == (Instant::Drop {
                event: Event::Instant,
            })
        }),
{
}

/// The first word of such a message must be there and not be 0; what ran over its end is dropped.
pub proof fn lemma_instant_payload(size: u32, word: u32, overflowed: u8)
    ensures
        hooks::instant_word_of(size, Some(word)) == (Instant::Deliver { size }) <==> word > 0,
        hooks::instant_word_of(size, Some(word)) is Drop <==> word == 0,
        hooks::instant_word_of(size, None) is Drop,
        hooks::instant_read_of(overflowed) is None <==> overflowed == 0,
{
}

/// One of the responses that end the game.
pub open spec fn ends(response: Seq<u8>) -> bool {
    spelt(response, "killserverpc"@) || spelt(response, "endgame"@) || spelt(response, "endround"@)
}

/// A response to a menu reaches the game if and only if it is no `badspawn` and either of no
/// consequence or allowed: the first client may restart the level, and end the game where this
/// machine is the host. Whoever tries otherwise is banned.
pub proof fn lemma_menu(response: Seq<u8>, client: i32, host: bool)
    ensures
        ({
            let action = match hooks::menu_action_of(response, client) {
                MenuAction::AskHost => hooks::menu_host_of(host),
                action => action,
            };
            let bad = spelt(response, "badspawn"@);
            let restarts = spelt(response, "restart_level_zm"@);
            &&& action == MenuAction::Ignore <==> bad
            &&& action == MenuAction::Notify <==> !bad && (if ends(response) {
                client == 0 && host
            } else {
                restarts ==> client == 0
            })
            &&& action == MenuAction::Ban <==> !bad && (if ends(response) {
                client != 0 || !host
            } else {
                restarts && client != 0
            })
        }),
{
    reveal_strlit("badspawn");
    reveal_strlit("killserverpc");
    reveal_strlit("endgame");
    reveal_strlit("endround");
    reveal_strlit("restart_level_zm");
    lemma_spelt(response, "badspawn"@);
    lemma_spelt(response, "killserverpc"@);
    lemma_spelt(response, "endgame"@);
    lemma_spelt(response, "endround"@);
    lemma_spelt(response, "restart_level_zm"@);
}

/// A response ends at its NUL; one without a NUL loses its last byte.
pub proof fn lemma_response(response: Seq<u8>, rest: Seq<u8>)
    requires
        forall|i: int| 0 <= i < response.len() ==> response[i] != 0,
    ensures
        hooks::response_in(response + seq![0u8] + rest) == response,
        response.len() > 0 ==> hooks::response_in(response) == response.take(response.len() - 1),
{
    let buffer = response + seq![0u8] + rest;
    text::lemma_find_from(buffer, 0, 0);
    text::lemma_find_from(response, 0, 0);
    let zero = text::find_from(buffer, 0, 0);
    assert(buffer[response.len() as int] == 0);
    if zero < response.len() {
        assert(buffer[zero] == response[zero]);
    }
    assert(buffer.take(zero) =~= response);
    if response.len() > 0 {
        assert(response.drop_last() =~= response.take(response.len() - 1));
    }
}

/// The arguments of a menu response are read at eight depths, and only if there are four.
pub proof fn lemma_menu_arguments(nesting: i32, argc: i32)
    ensures
        hooks::menu_arguments_of(nesting, argc) == MenuArguments::Read <==> 0 <= nesting <= 7 && argc
            == 4,
        hooks::menu_arguments_of(nesting, argc) == MenuArguments::Ignore <==> nesting < 0 || nesting
            > 7,
{
}

/// The number that decimal digits stand for.
pub open spec fn number(digits: Seq<u8>) -> int
    decreases digits.len(),
{
    if digits.len() == 0 {
        0
    } else {
        10 * number(digits.drop_last()) + digits.last() - 48
    }
}

/// Nothing but decimal digits, and at least one.
pub open spec fn is_number(digits: Seq<u8>) -> bool {
    digits.len() > 0 && forall|i: int| 0 <= i < digits.len() ==> 48 <= #[trigger] digits[i] <= 57
}

proof fn lemma_number(digits: Seq<u8>)
    requires
        forall|i: int| 0 <= i < digits.len() ==> 48 <= #[trigger] digits[i] <= 57,
    ensures
        numbers::digits_value(words::as_chars(digits)) == number(digits),
        numbers::all_digits(words::as_chars(digits)),
    decreases digits.len(),
{
    if digits.len() > 0 {
        lemma_number(digits.drop_last());
        assert(words::as_chars(digits).drop_last() =~= words::as_chars(digits.drop_last()));
        assert(words::as_chars(digits).last() == digits.last() as char);
    }
}

proof fn lemma_digits_end(s: Seq<u8>, i: int, end: int)
    requires
        0 <= i <= end <= s.len(),
        forall|k: int| i <= k < end ==> 48 <= #[trigger] s[k] <= 57,
        end == s.len() || !(48 <= s[end] <= 57),
    ensures
        hooks::after_digits(s, i) == end,
    decreases end - i,
{
    if i < end {
        lemma_digits_end(s, i + 1, end);
    }
}

/// An argument starts with a number if digits follow, with a minus or without; it counts up to
/// 2147483647 either way, and one further below 0. What is larger counts as 0.
pub proof fn lemma_leading_number(digits: Seq<u8>, rest: Seq<u8>)
    requires
        is_number(digits),
        rest.len() == 0 || !(48 <= rest[0] <= 57),
    ensures
        hooks::leading_number(digits + rest) == (if number(digits) < 0x8000_0000 {
            number(digits)
        } else {
            0
        }),
        hooks::leading_number(seq![45u8] + digits + rest) == (if number(digits) <= 0x8000_0000 {
            -number(digits)
        } else {
            0
        }),
{
    lemma_number(digits);
    let n = digits.len() as int;
    let s = digits + rest;
    let t = text::until_nul(s);
    text::lemma_find_from(s, 0, 0);
    let zero = text::find_from(s, 0, 0);
    assert(zero >= n) by {
        if zero < n {
            assert(s[zero] == digits[zero]);
        }
    }
    assert(t[0] == digits[0]);
    assert forall|k: int| 0 <= k < n implies 48 <= #[trigger] t[k] <= 57 by {
        assert(t[k] == digits[k]);
    }
    if t.len() > n {
        assert(t[n] == rest[0]);
    }
    lemma_digits_end(t, 0, n);
    assert(t.subrange(0, n) =~= digits);
    let c = words::as_chars(digits);
    assert(c[0] == digits[0] as char);

    let s2 = seq![45u8] + digits + rest;
    let t2 = text::until_nul(s2);
    text::lemma_find_from(s2, 0, 0);
    let zero2 = text::find_from(s2, 0, 0);
    assert(zero2 >= n + 1) by {
        if 0 < zero2 < n + 1 {
            assert(s2[zero2] == digits[zero2 - 1]);
        }
    }
    assert(t2[0] == 45);
    assert forall|k: int| 1 <= k < n + 1 implies 48 <= #[trigger] t2[k] <= 57 by {
        assert(t2[k] == digits[k - 1]);
    }
    if t2.len() > n + 1 {
        assert(t2[n + 1] == rest[0]);
    }
    lemma_digits_end(t2, 1, n + 1);
    let signed = t2.subrange(0, n + 1);
    let c2 = words::as_chars(signed);
    assert(c2[0] == '-');
    assert(c2.skip(1) =~= c) by {
        assert forall|k: int| 0 <= k < n implies c2.skip(1)[k] == c[k] by {
            assert(signed[k + 1] == digits[k]);
        }
    }
}

/// An index is taken from an argument if and only if its number is below the limit.
pub proof fn lemma_index(digits: Seq<u8>, rest: Seq<u8>, limit: u32)
    requires
        is_number(digits),
        rest.len() == 0 || !(48 <= rest[0] <= 57),
        number(digits) < 0x8000_0000,
    ensures
        hooks::index_in(digits + rest, limit) is Some <==> number(digits) < limit,
        number(digits) < limit ==> hooks::index_in(digits + rest, limit)->Some_0 == number(digits),
{
    lemma_leading_number(digits, rest);
    lemma_not_negative(digits);
}

proof fn lemma_not_negative(digits: Seq<u8>)
    requires
        forall|i: int| 0 <= i < digits.len() ==> 48 <= #[trigger] digits[i] <= 57,
    ensures
        number(digits) >= 0,
    decreases digits.len(),
{
    if digits.len() > 0 {
        lemma_not_negative(digits.drop_last());
    }
}

/// A client is banned by its number.
pub proof fn lemma_ban(client: i32)
    requires
        client >= 0,
    ensures
        hooks::ban_command_of(client) == "tempBanClient "@ + text::decimal(client as nat) + "\n"@,
{
}

/// The bytes of the game that are replaced, and by what.
pub proof fn lemma_replaced_bytes()
    ensures
        hooks::patch_table().len() == 8,
        hooks::patch_table()[0] == (0x1964766u64, seq![144u8, 144, 144, 144, 144]),
        hooks::patch_table()[1] == (0x19646A7u64, seq![144u8, 144, 144, 144, 144]),
        hooks::patch_table()[2] == (0x1EEACF3u64, seq![183u8]),
        hooks::patch_table()[3] == (0x20E2A41u64, seq![47u8]),
        hooks::patch_table()[4] == (0x22BC1CDu64, seq![0u8, 128, 0, 0]),
        hooks::patch_table()[5] == (0x22BC1D2u64, seq![0u8, 128, 0, 0]),
        hooks::patch_table()[6] == (0x1F21EF8u64, seq![182u8]),
        hooks::patch_table()[7] == (0x1CA4C84u64, seq![182u8]),
{
}

/// The functions of the game that are hooked, and where each lies in the February build.
pub proof fn lemma_hooked_functions()
    ensures
        hooks::hook_table().len() == 34,
        hooks::hook_table()[0] == ("hook.build_title"@, 0x20E31C0u64),
        hooks::hook_table()[1] == ("hook.system_info"@, 0x1E016C0u64),
        hooks::hook_table()[2] == ("hook.print_message"@, 0x1EEA940u64),
        hooks::hook_table()[3] == ("hook.print_debug"@, 0x1EEA680u64),
        hooks::hook_table()[4] == ("hook.exec_lua"@, 0x1EF8A60u64),
        hooks::hook_table()[5] == ("hook.init_server"@, 0x1EA9C80u64),
        hooks::hook_table()[6] == ("hook.browser"@, 0x1EA4E30u64),
        hooks::hook_table()[7] == ("hook.subscribe"@, 0x20CB0C0u64),
        hooks::hook_table()[8] == ("hook.message_name"@, 0x1EDFA60u64),
        hooks::hook_table()[9] == ("hook.copy"@, 0x2BC4EB0u64),
        hooks::hook_table()[10] == ("hook.character"@, 0x22C9650u64),
        hooks::hook_table()[11] == ("hook.get_name"@, 0x1EBB200u64),
        hooks::hook_table()[12] == ("hook.presence"@, 0x1E85450u64),
        hooks::hook_table()[13] == ("hook.invite"@, 0x1E19B30u64),
        hooks::hook_table()[14] == ("hook.join_action"@, 0x1E72040u64),
        hooks::hook_table()[15] == ("hook.join_info"@, 0x1E724A0u64),
        hooks::hook_table()[16] == ("hook.config_string"@, 0x1321130u64),
        hooks::hook_table()[17] == ("hook.connectionless"@, 0x134CD70u64),
        hooks::hook_table()[18] == ("hook.binding"@, 0x221CE90u64),
        hooks::hook_table()[19] == ("hook.model_string"@, 0x1F27400u64),
        hooks::hook_table()[20] == ("hook.model_path0"@, 0x200CF00u64),
        hooks::hook_table()[21] == ("hook.model_path"@, 0x200D5B0u64),
        hooks::hook_table()[22] == ("hook.model_create"@, 0x200CFC0u64),
        hooks::hook_table()[23] == ("hook.model_alloc"@, 0x200CD00u64),
        hooks::hook_table()[24] == ("hook.package_int"@, 0x1EEA3E0u64),
        hooks::hook_table()[25] == ("hook.package_uint"@, 0x1EEA490u64),
        hooks::hook_table()[26] == ("hook.package_uchar"@, 0x1EEA450u64),
        hooks::hook_table()[27] == ("hook.prep_write"@, 0x1EEA560u64),
        hooks::hook_table()[28] == ("hook.prep_read"@, 0x1EEB8D0u64),
        hooks::hook_table()[29] == ("hook.verify_checksum"@, 0x211F5A0u64),
        hooks::hook_table()[30] == ("hook.checksum_copy"@, 0x211F500u64),
        hooks::hook_table()[31] == ("hook.instant"@, 0x143A620u64),
        hooks::hook_table()[32] == ("hook.menu"@, 0x195F100u64),
        hooks::hook_table()[33] == ("hook.menu_cached"@, 0x195EFA0u64),
{
}

} // verus!
