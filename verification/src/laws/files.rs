//! The configuration file: what can be written, what is read, and what a line means.
use crate::numbers;
use crate::settings;
use crate::settings::Settings;
use crate::text;
use vstd::prelude::*;

verus! {

/// A byte that the file cannot hold in a value: NUL and the two of a line break.
pub open spec fn breaks(b: u8) -> bool {
    b == 0 || b == 10 || b == 13
}

/// Settings can be written if and only if the name has at most 15 bytes and the password at most
/// 1023, and no byte of either is a NUL, a line feed or a carriage return. Any other byte is fine.
pub proof fn lemma_writable(s: Settings)
    ensures
        settings::encodable(s) <==> s.name.len() <= 15 && s.password.len() <= 1023 && (forall|i: int|
            0 <= i < s.name.len() ==> !breaks(#[trigger] s.name[i])) && (forall|i: int|
            0 <= i < s.password.len() ==> !breaks(#[trigger] s.password[i])),
{
}

/// A name of one byte can be written, whichever it is but for those three.
pub proof fn lemma_every_byte(b: u8, friends_only: bool)
    ensures
        settings::encodable(
            Settings { name: seq![b], friends_only, password: Seq::empty() },
        ) <==> b != 0 && b != 10 && b != 13,
        settings::encodable(
            Settings { name: Seq::empty(), friends_only, password: seq![b] },
        ) <==> b != 0 && b != 10 && b != 13,
{
    assert(seq![b][0] == b);
}

/// The file is the name, the flag and the password, in this order and with nothing else.
pub proof fn lemma_written(s: Settings)
    ensures
        settings::encoded(s) == text::utf8("playername="@) + s.name + (if s.friends_only {
            text::utf8("\nisfriendsonly=1\nnetworkpassword="@)
        } else {
            text::utf8("\nisfriendsonly=0\nnetworkpassword="@)
        }) + s.password + text::utf8("\n"@),
{
    reveal_strlit("\nisfriendsonly=1\nnetworkpassword=");
    reveal_strlit("\nisfriendsonly=0\nnetworkpassword=");
    reveal_strlit("isfriendsonly=1");
    reveal_strlit("isfriendsonly=0");
    reveal_strlit("networkpassword=");
    reveal_strlit("\n");
    text::lemma_utf8_of_ascii("\nisfriendsonly=1\nnetworkpassword="@);
    text::lemma_utf8_of_ascii("\nisfriendsonly=0\nnetworkpassword="@);
    text::lemma_utf8_of_ascii("isfriendsonly=1"@);
    text::lemma_utf8_of_ascii("isfriendsonly=0"@);
    text::lemma_utf8_of_ascii("networkpassword="@);
    text::lemma_utf8_of_ascii("\n"@);
    let one = text::utf8("\nisfriendsonly=1\nnetworkpassword="@);
    let zero = text::utf8("\nisfriendsonly=0\nnetworkpassword="@);
    assert(one =~= seq![10u8] + text::utf8("isfriendsonly=1"@) + seq![10u8] + text::utf8(
        "networkpassword="@,
    ));
    assert(zero =~= seq![10u8] + text::utf8("isfriendsonly=0"@) + seq![10u8] + text::utf8(
        "networkpassword="@,
    ));
    assert(text::utf8("\n"@) =~= seq![10u8]);
    if s.friends_only {
        assert(settings::encoded(s) =~= text::utf8("playername="@) + s.name + one + s.password
            + text::utf8("\n"@));
    } else {
        assert(settings::encoded(s) =~= text::utf8("playername="@) + s.name + zero + s.password
            + text::utf8("\n"@));
    }
}

/// A value that can stand on a line.
pub open spec fn value(v: Seq<u8>) -> bool {
    forall|i: int| 0 <= i < v.len() ==> !breaks(#[trigger] v[i])
}

proof fn lemma_line(s: Settings, key: Seq<u8>, v: Seq<u8>)
    requires
        value(v),
        forall|i: int| 0 <= i < key.len() ==> key[i] != 61 && key[i] != 10,
    ensures
        settings::with_lines(s, key + seq![61u8] + v) == settings::with_entry(s, key, v),
        settings::with_lines(s, key + seq![61u8] + v + seq![13u8]) == settings::with_entry(
            s,
            key,
            v,
        ),
        !v.contains(0),
{
    let line = key + seq![61u8] + v;
    let returned = line + seq![13u8];
    settings::lemma_entry_line(s, key, v);
    text::lemma_find_from(line, 10, 0);
    text::lemma_find_from(returned, 10, 0);
    assert forall|i: int| 0 <= i < line.len() implies line[i] != 10 by {
        if i > key.len() {
            assert(line[i] == v[i - key.len() - 1]);
        }
    }
    assert forall|i: int| 0 <= i < returned.len() implies returned[i] != 10 by {
        if i < line.len() {
            assert(returned[i] == line[i]);
        }
    }
    assert(line.take(line.len() as int) =~= line);
    assert(returned.take(returned.len() as int) =~= returned);
    assert(returned.drop_last() =~= line);
    assert(settings::without_cr(returned) == line);
    if line.len() > 0 && line.last() == 13 {
        if v.len() > 0 {
            assert(line.last() == v[v.len() - 1]);
        }
    }
    assert(settings::without_cr(line) == line);
}

/// What a line sets, with or without a carriage return at its end: the name its first 15 bytes,
/// the password its first 1023, and nothing else changes.
pub proof fn lemma_lines(s: Settings, v: Seq<u8>)
    requires
        value(v),
    ensures
        settings::with_lines(s, text::utf8("playername"@) + seq![61u8] + v) == (Settings {
            name: if v.len() > 15 {
                v.take(15)
            } else {
                v
            },
            friends_only: s.friends_only,
            password: s.password,
        }),
        settings::with_lines(s, text::utf8("networkpassword"@) + seq![61u8] + v) == (Settings {
            name: s.name,
            friends_only: s.friends_only,
            password: if v.len() > 1023 {
                v.take(1023)
            } else {
                v
            },
        }),
        settings::with_lines(s, text::utf8("isfriendsonly"@) + seq![61u8] + v) == (Settings {
            name: s.name,
            friends_only: settings::flag_of(v),
            password: s.password,
        }),
        settings::with_lines(s, text::utf8("playername"@) + seq![61u8] + v + seq![13u8])
            == settings::with_lines(s, text::utf8("playername"@) + seq![61u8] + v),
        settings::with_lines(s, text::utf8("networkpassword"@) + seq![61u8] + v + seq![13u8])
            == settings::with_lines(s, text::utf8("networkpassword"@) + seq![61u8] + v),
{
    lemma_keys();
    lemma_line(s, text::utf8("playername"@), v);
    lemma_line(s, text::utf8("networkpassword"@), v);
    lemma_line(s, text::utf8("isfriendsonly"@), v);
}

proof fn lemma_keys()
    ensures
        text::utf8("playername"@) != text::utf8("networkpassword"@),
        text::utf8("playername"@) != text::utf8("isfriendsonly"@),
        text::utf8("networkpassword"@) != text::utf8("isfriendsonly"@),
        forall|i: int|
            0 <= i < text::utf8("playername"@).len() ==> text::utf8("playername"@)[i] != 61
                && text::utf8("playername"@)[i] != 10,
        forall|i: int|
            0 <= i < text::utf8("networkpassword"@).len() ==> text::utf8("networkpassword"@)[i]
                != 61 && text::utf8("networkpassword"@)[i] != 10,
        forall|i: int|
            0 <= i < text::utf8("isfriendsonly"@).len() ==> text::utf8("isfriendsonly"@)[i] != 61
                && text::utf8("isfriendsonly"@)[i] != 10,
{
    reveal_strlit("playername");
    reveal_strlit("networkpassword");
    reveal_strlit("isfriendsonly");
    text::lemma_utf8_of_ascii("playername"@);
    text::lemma_utf8_of_ascii("networkpassword"@);
    text::lemma_utf8_of_ascii("isfriendsonly"@);
    assert(text::utf8("playername"@).len() == 10);
    assert(text::utf8("networkpassword"@).len() == 15);
    assert(text::utf8("isfriendsonly"@).len() == 13);
}

/// Any other key sets nothing, and neither does a line without a key.
pub proof fn lemma_other_lines(s: Settings, key: Seq<u8>, v: Seq<u8>, line: Seq<u8>)
    requires
        value(v),
        forall|i: int| 0 <= i < key.len() ==> key[i] != 61 && key[i] != 10,
        key != text::utf8("playername"@) && key != text::utf8("networkpassword"@) && key
            != text::utf8("isfriendsonly"@),
        forall|i: int| 0 <= i < line.len() ==> line[i] != 61 && line[i] != 10,
    ensures
        settings::with_lines(s, key + seq![61u8] + v) == s,
        settings::with_lines(s, line) == s,
{
    lemma_line(s, key, v);
    text::lemma_find_from(line, 10, 0);
    assert(line.take(line.len() as int) =~= line);
    let l = settings::without_cr(line);
    text::lemma_find_from(l, 61, 0);
    assert forall|i: int| 0 <= i < l.len() implies l[i] != 61 by {
        assert(l[i] == line[i]);
    }
}

/// A value with a NUL sets nothing, whatever its key.
pub proof fn lemma_nul_values(s: Settings, key: Seq<u8>, v: Seq<u8>)
    requires
        v.contains(0),
        forall|i: int| 0 <= i < v.len() ==> v[i] != 10,
        forall|i: int| 0 <= i < key.len() ==> key[i] != 61 && key[i] != 10,
    ensures
        settings::with_lines(s, key + seq![61u8] + v) == s,
{
    let line = key + seq![61u8] + v;
    let l = settings::without_cr(line);
    let zero = choose|i: int| 0 <= i < v.len() && v[i] == 0;
    text::lemma_find_from(line, 10, 0);
    assert forall|i: int| 0 <= i < line.len() implies line[i] != 10 by {
        if i > key.len() {
            assert(line[i] == v[i - key.len() - 1]);
        }
    }
    assert(line.take(line.len() as int) =~= line);
    assert(line[key.len() + 1 + zero] == 0);
    assert(line.last() == 13 ==> zero < v.len() - 1) by {
        assert(line.last() == v[v.len() - 1]);
    }
    text::lemma_find_from(l, 61, 0);
    let at = text::find_from(l, 61, 0);
    assert(l[key.len() as int] == 61);
    assert(at == key.len()) by {
        assert forall|i: int| 0 <= i < key.len() implies l[i] != 61 by {
            assert(l[i] == key[i]);
        }
    }
    assert(l.skip(at + 1)[zero] == 0);
}

proof fn lemma_decimal(n: nat)
    ensures
        text::decimal(n).len() > 0,
        numbers::all_digits(text::decimal(n)),
        numbers::digits_value(text::decimal(n)) == n,
        forall|i: int|
            0 <= i < text::decimal(n).len() ==> 48 <= (#[trigger] text::decimal(n)[i]) as int <= 57,
    decreases n,
{
    let d = text::decimal(n);
    if n < 10 {
        assert(d.drop_last() =~= Seq::<char>::empty());
        assert(numbers::digits_value(Seq::<char>::empty()) == 0);
    } else {
        lemma_decimal(n / 10);
        assert(d.drop_last() =~= text::decimal(n / 10));
        assert forall|i: int| 0 <= i < d.len() implies numbers::is_digit(#[trigger] d[i]) by {
            if i < d.len() - 1 {
                assert(d[i] == text::decimal(n / 10)[i]);
            }
        }
    }
}

/// The flag is set by every number from 1 to the largest of 32 bits, by their negatives, and by no
/// other number that can be written: not by 0, and not by what does not fit.
pub proof fn lemma_flags(n: nat)
    ensures
        settings::flag_of(text::utf8(text::decimal(n))) == (1 <= n <= 0x7fff_ffff),
        settings::flag_of(text::utf8(seq!['-'] + text::decimal(n))) == (1 <= n <= 0x8000_0000),
        settings::flag_of(text::utf8(seq![' '] + text::decimal(n))) == (1 <= n <= 0x7fff_ffff),
{
    let d = text::decimal(n);
    let minus = seq!['-'] + d;
    let spaced = seq![' '] + d;
    lemma_decimal(n);
    vstd::utf8::encode_utf8_valid_utf8(d);
    vstd::utf8::encode_utf8_valid_utf8(minus);
    vstd::utf8::encode_utf8_valid_utf8(spaced);
    vstd::utf8::encode_utf8_decode_utf8(d);
    vstd::utf8::encode_utf8_decode_utf8(minus);
    vstd::utf8::encode_utf8_decode_utf8(spaced);
    assert(d.last() == d[d.len() - 1]);
    assert(!numbers::is_white(d[0]) && !numbers::is_white(d.last()));
    assert(minus.last() == d.last());
    assert(minus.skip(1) =~= d);
    assert(spaced.skip(1) =~= d);
    assert(numbers::is_white(' '));
    assert(numbers::trim_start(spaced) == numbers::trim_start(d));
    assert(numbers::trimmed(spaced) == d);
    assert(numbers::trimmed(d) == d);
    assert(!numbers::is_white('-'));
    assert(numbers::trimmed(minus) == minus);
}

/// Without a file, or where a file says nothing, the player is an unknown soldier who hears friends
/// only and has no password.
pub proof fn lemma_defaults()
    ensures
        settings::default_settings() == (Settings {
            name: text::utf8("Unknown Soldier"@),
            friends_only: true,
            password: Seq::empty(),
        }),
        settings::encodable(settings::default_settings()),
{
    reveal_strlit("Unknown Soldier");
    text::lemma_utf8_of_ascii("Unknown Soldier"@);
}

} // verus!
