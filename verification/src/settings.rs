//! The configuration file shared by the launcher and the patch.
use crate::numbers;
use crate::numbers::{characters, read_signed32, trim};
use crate::text;
use crate::text::{find_byte, push_decimal, same_bytes, text_of_utf8};
use vstd::prelude::*;

verus! {

pub const NAME_LIMIT: usize = 15;
pub const PASSWORD_LIMIT: usize = 1023;

#[derive(Debug, PartialEq, Eq)]
pub struct Config {
    pub name: Vec<u8>,
    pub friends_only: bool,
    pub password: Vec<u8>,
}

/// What a configuration says.
#[verifier::ext_equal]
pub struct Settings {
    pub name: Seq<u8>,
    pub friends_only: bool,
    pub password: Seq<u8>,
}

impl View for Config {
    type V = Settings;

    open spec fn view(&self) -> Settings {
        Settings { name: self.name@, friends_only: self.friends_only, password: self.password@ }
    }
}

pub open spec fn default_settings() -> Settings {
    Settings { name: text::utf8("Unknown Soldier"@), friends_only: true, password: seq![] }
}

/// A line without a closing carriage return.
pub open spec fn without_cr(line: Seq<u8>) -> Seq<u8> {
    if line.len() > 0 && line.last() == 13 {
        line.drop_last()
    } else {
        line
    }
}

/// At most the first `limit` bytes.
pub open spec fn cut(s: Seq<u8>, limit: int) -> Seq<u8> {
    if s.len() > limit {
        s.take(limit)
    } else {
        s
    }
}

/// A flag is set by any 32-bit number but zero; what is no number does not set it.
pub open spec fn flag_of(value: Seq<u8>) -> bool {
    vstd::utf8::valid_utf8(value) && match numbers::signed32(
        numbers::trimmed(vstd::utf8::decode_utf8(value)),
    ) {
        Some(v) => v != 0,
        None => false,
    }
}

/// The settings after a line `key=value`.
pub open spec fn with_entry(s: Settings, key: Seq<u8>, value: Seq<u8>) -> Settings {
    if value.contains(0) {
        s
    } else if key == text::utf8("playername"@) {
        Settings { name: cut(value, NAME_LIMIT as int), ..s }
    } else if key == text::utf8("networkpassword"@) {
        Settings { password: cut(value, PASSWORD_LIMIT as int), ..s }
    } else if key == text::utf8("isfriendsonly"@) {
        Settings { friends_only: flag_of(value), ..s }
    } else {
        s
    }
}

/// The settings after one line of the file; the first `=` ends the key.
pub open spec fn with_line(s: Settings, line: Seq<u8>) -> Settings {
    let l = without_cr(line);
    let at = text::find_from(l, 61, 0);
    if at >= l.len() {
        s
    } else {
        with_entry(s, l.take(at), l.skip(at + 1))
    }
}

/// The settings after the lines of `input`, in their order.
pub open spec fn with_lines(s: Settings, input: Seq<u8>) -> Settings
    decreases input.len(),
{
    let end = text::find_from(input, 10, 0);
    let next = with_line(s, input.take(end));
    if end >= input.len() {
        next
    } else {
        proof {
            text::lemma_find_from(input, 10, 0);
        }
        with_lines(next, input.skip(end + 1))
    }
}

/// Whether the file format can hold `s`.
pub open spec fn encodable(s: Settings) -> bool {
    &&& s.name.len() <= NAME_LIMIT
    &&& s.password.len() <= PASSWORD_LIMIT
    &&& clean(s.name)
    &&& clean(s.password)
}

/// No NUL and no line break.
pub open spec fn clean(s: Seq<u8>) -> bool {
    forall|i: int| 0 <= i < s.len() ==> #[trigger] s[i] != 0 && s[i] != 10 && s[i] != 13
}

pub open spec fn flag_line(friends_only: bool) -> Seq<u8> {
    if friends_only {
        text::utf8("isfriendsonly=1"@)
    } else {
        text::utf8("isfriendsonly=0"@)
    }
}

/// The file that holds `s`.
pub open spec fn encoded(s: Settings) -> Seq<u8> {
    text::utf8("playername="@) + s.name + seq![10u8] + (flag_line(s.friends_only) + seq![10u8] + (
    text::utf8("networkpassword="@) + s.password + seq![10u8]))
}

impl Default for Config {
    fn default() -> (r: Self)
        ensures
            r@ == default_settings(),
    {
        let r = Config {
            name: vstd::slice::slice_to_vec("Unknown Soldier".as_bytes()),
            friends_only: true,
            password: Vec::new(),
        };
        assert(r@ =~= default_settings());
        r
    }
}

impl Clone for Config {
    fn clone(&self) -> (r: Self)
        ensures
            r@ == self@,
    {
        let r = Config {
            name: vstd::slice::slice_to_vec(self.name.as_slice()),
            friends_only: self.friends_only,
            password: vstd::slice::slice_to_vec(self.password.as_slice()),
        };
        assert(r@ =~= self@);
        r
    }
}

fn cut_copy(s: &[u8], limit: usize) -> (r: Vec<u8>)
    ensures
        r@ == cut(s@, limit as int),
{
    if s.len() > limit {
        let head: &[u8] = vstd::slice::slice_subrange(s, 0, limit);
        assert(head@ =~= s@.take(limit as int));
        vstd::slice::slice_to_vec(head)
    } else {
        vstd::slice::slice_to_vec(s)
    }
}

fn flag(value: &[u8]) -> (r: bool)
    ensures
        r == flag_of(value@),
{
    match text_of_utf8(value) {
        None => false,
        Some(s) => {
            let chars: Vec<char> = characters(s.as_str());
            let (a, b): (usize, usize) = trim(chars.as_slice());
            match read_signed32(chars.as_slice(), a, b) {
                Some(v) => v != 0,
                None => false,
            }
        },
    }
}

/// Whether `s` is free of NUL and line breaks.
fn is_clean(s: &[u8]) -> (r: bool)
    ensures
        r == clean(s@),
{
    let mut i: usize = 0;
    while i < s.len()
        invariant
            i <= s@.len(),
            forall|k: int| 0 <= k < i ==> #[trigger] s@[k] != 0 && s@[k] != 10 && s@[k] != 13,
        decreases s@.len() - i,
    {
        if s[i] == 0 || s[i] == 10 || s[i] == 13 {
            return false;
        }
        i = i + 1;
    }
    true
}

impl Config {
    fn entry(&mut self, key: &[u8], value: &[u8])
        ensures
            final(self)@ == with_entry(old(self)@, key@, value@),
    {
        let zero: usize = find_byte(value, 0, 0);
        if zero < value.len() {
            assert(value@.contains(0)) by {
                assert(value@[zero as int] == 0);
            }
            return;
        }
        if same_bytes(key, "playername".as_bytes()) {
            self.name = cut_copy(value, NAME_LIMIT);
        } else if same_bytes(key, "networkpassword".as_bytes()) {
            self.password = cut_copy(value, PASSWORD_LIMIT);
        } else if same_bytes(key, "isfriendsonly".as_bytes()) {
            self.friends_only = flag(value);
        }
    }

    fn line(&mut self, line: &[u8])
        ensures
            final(self)@ == with_line(old(self)@, line@),
    {
        let n: usize = line.len();
        let end: usize = if n > 0 && line[n - 1] == 13 {
            n - 1
        } else {
            n
        };
        let l: &[u8] = vstd::slice::slice_subrange(line, 0, end);
        assert(l@ =~= without_cr(line@));
        let at: usize = find_byte(l, 61, 0);
        if at < l.len() {
            let key: &[u8] = vstd::slice::slice_subrange(l, 0, at);
            let value: &[u8] = vstd::slice::slice_subrange(l, at + 1, end);
            assert(key@ =~= l@.take(at as int));
            assert(value@ =~= l@.skip(at + 1));
            self.entry(key, value);
        }
    }

    /// Applies the lines of a configuration file; unknown and unusable lines change nothing.
    pub fn parse(&mut self, input: &[u8])
        ensures
            final(self)@ == with_lines(old(self)@, input@),
    {
        let n: usize = input.len();
        let mut start: usize = 0;
        assert(input@.skip(0) =~= input@);
        loop
            invariant
                start <= n,
                n == input@.len(),
                with_lines(self@, input@.skip(start as int)) == with_lines(old(self)@, input@),
            ensures
                self@ == with_lines(old(self)@, input@),
            decreases n - start,
        {
            let end: usize = find_byte(input, 10, start);
            let line: &[u8] = vstd::slice::slice_subrange(input, start, end);
            let ghost rest = input@.skip(start as int);
            proof {
                text::lemma_find_in_suffix(input@, 10, start as int, start as int);
                assert(rest.take(end - start) =~= line@);
            }
            self.line(line);
            if end == n {
                break;
            }
            assert(rest.skip(end - start + 1) =~= input@.skip(end + 1));
            start = end + 1;
        }
    }

    /// The file for these settings, or what is wrong with them.
    pub fn encode(&self) -> (r: Result<Vec<u8>, String>)
        ensures
            match r {
                Ok(bytes) => encodable(self@) && bytes@ == encoded(self@),
                Err(error) => !encodable(self@) && error@
                    == "Name: maximum 15 UTF-8 bytes. Password: maximum 1023 bytes. No line breaks."@,
            },
    {
        if self.name.len() > NAME_LIMIT || self.password.len() > PASSWORD_LIMIT || !is_clean(
            self.name.as_slice(),
        ) || !is_clean(self.password.as_slice()) {
            return Err(
                "Name: maximum 15 UTF-8 bytes. Password: maximum 1023 bytes. No line breaks.".to_owned(),
            );
        }
        let mut bytes: Vec<u8> = vstd::slice::slice_to_vec("playername=".as_bytes());
        bytes.extend_from_slice(self.name.as_slice());
        bytes.push(10);
        if self.friends_only {
            bytes.extend_from_slice("isfriendsonly=1".as_bytes());
        } else {
            bytes.extend_from_slice("isfriendsonly=0".as_bytes());
        }
        bytes.push(10);
        bytes.extend_from_slice("networkpassword=".as_bytes());
        bytes.extend_from_slice(self.password.as_slice());
        bytes.push(10);
        assert(bytes@ =~= encoded(self@));
        Ok(bytes)
    }
}

pub(crate) proof fn lemma_first_line(s: Settings, line: Seq<u8>, rest: Seq<u8>)
    requires
        forall|i: int| 0 <= i < line.len() ==> line[i] != 10,
    ensures
        with_lines(s, line + seq![10u8] + rest) == with_lines(with_line(s, line), rest),
{
    let all = line + seq![10u8] + rest;
    text::lemma_find_after(line, seq![10u8] + rest, 10, 0);
    assert(line + (seq![10u8] + rest) =~= all);
    assert((seq![10u8] + rest)[0] == 10);
    assert(text::find_from(all, 10, 0) == line.len());
    assert(all.take(line.len() as int) =~= line);
    assert(all.skip(line.len() as int + 1) =~= rest);
}

/// Reading two files in turn is reading them joined by a line break.
pub proof fn lemma_files_in_turn(s: Settings, first: Seq<u8>, second: Seq<u8>)
    ensures
        with_lines(with_lines(s, first), second) == with_lines(s, first + seq![10u8] + second),
    decreases first.len(),
{
    let end = text::find_from(first, 10, 0);
    text::lemma_find_from(first, 10, 0);
    let line = first.take(end);
    assert forall|i: int| 0 <= i < line.len() implies line[i] != 10 by {
        assert(line[i] == first[i]);
    }
    if end >= first.len() {
        assert(line =~= first);
        lemma_first_line(s, first, second);
    } else {
        let rest = first.skip(end + 1);
        let next = with_line(s, line);
        lemma_files_in_turn(next, rest, second);
        lemma_first_line(s, line, rest + seq![10u8] + second);
        assert(first + seq![10u8] + second =~= line + seq![10u8] + (rest + seq![10u8] + second));
    }
}

pub(crate) proof fn lemma_entry_line(s: Settings, key: Seq<u8>, value: Seq<u8>)
    requires
        forall|i: int| 0 <= i < key.len() ==> key[i] != 61,
        clean(value),
    ensures
        with_line(s, key + seq![61u8] + value) == with_entry(s, key, value),
{
    let line = key + seq![61u8] + value;
    if value.len() > 0 {
        assert(line.last() == value[value.len() - 1]);
    } else {
        assert(line.last() == 61);
    }
    text::lemma_find_after(key, seq![61u8] + value, 61, 0);
    assert(key + (seq![61u8] + value) =~= line);
    assert((seq![61u8] + value)[0] == 61);
    assert(text::find_from(line, 61, 0) == key.len());
    assert(line.take(key.len() as int) =~= key);
    assert(line.skip(key.len() as int + 1) =~= value);
}

proof fn lemma_keys()
    ensures
        text::utf8("playername="@) == text::utf8("playername"@) + seq![61u8],
        text::utf8("networkpassword="@) == text::utf8("networkpassword"@) + seq![61u8],
        text::utf8("isfriendsonly=1"@) == text::utf8("isfriendsonly"@) + seq![61u8] + text::utf8(
            "1"@,
        ),
        text::utf8("isfriendsonly=0"@) == text::utf8("isfriendsonly"@) + seq![61u8] + text::utf8(
            "0"@,
        ),
        key_bytes(text::utf8("playername"@)),
        key_bytes(text::utf8("networkpassword"@)),
        key_bytes(text::utf8("isfriendsonly"@)),
        text::utf8("playername"@).len() == 10,
        text::utf8("networkpassword"@).len() == 15,
        text::utf8("isfriendsonly"@).len() == 13,
        clean(text::utf8("1"@)),
        clean(text::utf8("0"@)),
        !text::utf8("1"@).contains(0),
        !text::utf8("0"@).contains(0),
{
    reveal_strlit("playername");
    reveal_strlit("playername=");
    reveal_strlit("networkpassword");
    reveal_strlit("networkpassword=");
    reveal_strlit("isfriendsonly");
    reveal_strlit("isfriendsonly=1");
    reveal_strlit("isfriendsonly=0");
    reveal_strlit("1");
    reveal_strlit("0");
    text::lemma_utf8_of_ascii("playername"@);
    text::lemma_utf8_of_ascii("playername="@);
    text::lemma_utf8_of_ascii("networkpassword"@);
    text::lemma_utf8_of_ascii("networkpassword="@);
    text::lemma_utf8_of_ascii("isfriendsonly"@);
    text::lemma_utf8_of_ascii("isfriendsonly=1"@);
    text::lemma_utf8_of_ascii("isfriendsonly=0"@);
    text::lemma_utf8_of_ascii("1"@);
    text::lemma_utf8_of_ascii("0"@);
    assert(text::utf8("playername="@) =~= text::utf8("playername"@) + seq![61u8]);
    assert(text::utf8("networkpassword="@) =~= text::utf8("networkpassword"@) + seq![61u8]);
    assert(text::utf8("isfriendsonly=1"@) =~= text::utf8("isfriendsonly"@) + seq![61u8] + text::utf8(
        "1"@,
    ));
    assert(text::utf8("isfriendsonly=0"@) =~= text::utf8("isfriendsonly"@) + seq![61u8] + text::utf8(
        "0"@,
    ));
}

/// Bytes of a key: neither `=` nor a line break.
spec fn key_bytes(s: Seq<u8>) -> bool {
    forall|i: int| 0 <= i < s.len() ==> #[trigger] s[i] != 61 && s[i] != 10 && s[i] != 13 && s[i] != 0
}

proof fn lemma_flags()
    ensures
        flag_of(text::utf8("1"@)),
        !flag_of(text::utf8("0"@)),
{
    reveal_strlit("1");
    reveal_strlit("0");
    vstd::utf8::encode_utf8_valid_utf8("1"@);
    vstd::utf8::encode_utf8_valid_utf8("0"@);
    vstd::utf8::encode_utf8_decode_utf8("1"@);
    vstd::utf8::encode_utf8_decode_utf8("0"@);
    let one = "1"@;
    let zero = "0"@;
    assert(numbers::trimmed(one) == one);
    assert(numbers::trimmed(zero) == zero);
    assert(one.drop_last() =~= seq![]);
    assert(zero.drop_last() =~= seq![]);
    reveal_with_fuel(numbers::digits_value, 2);
    assert(numbers::digits_value(one) == 1);
    assert(numbers::digits_value(zero) == 0);
}

/// Reading a file back gives the settings it was written from, whatever was set before.
pub proof fn lemma_file_round_trip(s: Settings, before: Settings)
    requires
        encodable(s),
    ensures
        with_lines(before, encoded(s)) == s,
{
    lemma_keys();
    lemma_flags();
    let name_key = text::utf8("playername"@);
    let flag_key = text::utf8("isfriendsonly"@);
    let password_key = text::utf8("networkpassword"@);
    let flag_value = if s.friends_only {
        text::utf8("1"@)
    } else {
        text::utf8("0"@)
    };
    let line1 = text::utf8("playername="@) + s.name;
    let line2 = flag_line(s.friends_only);
    let line3 = text::utf8("networkpassword="@) + s.password;
    let file3 = line3 + seq![10u8] + Seq::<u8>::empty();
    let file2 = line2 + seq![10u8] + file3;
    let file1 = line1 + seq![10u8] + file2;
    assert(file1 =~= encoded(s));
    assert(line1 =~= name_key + seq![61u8] + s.name);
    assert(line2 =~= flag_key + seq![61u8] + flag_value);
    assert(line3 =~= password_key + seq![61u8] + s.password);
    lemma_no_break(name_key, s.name);
    lemma_no_break(flag_key, flag_value);
    lemma_no_break(password_key, s.password);
    let s1 = with_line(before, line1);
    let s2 = with_line(s1, line2);
    let s3 = with_line(s2, line3);
    lemma_first_line(before, line1, file2);
    lemma_first_line(s1, line2, file3);
    lemma_first_line(s2, line3, Seq::<u8>::empty());
    lemma_entry_line(before, name_key, s.name);
    lemma_entry_line(s1, flag_key, flag_value);
    lemma_entry_line(s2, password_key, s.password);
    assert(!s.name.contains(0));
    assert(!s.password.contains(0));
    assert(with_lines(s3, Seq::<u8>::empty()) == s3) by {
        assert(Seq::<u8>::empty().take(0) =~= Seq::<u8>::empty());
    }
    assert(s3 =~= s);
}

proof fn lemma_no_break(key: Seq<u8>, value: Seq<u8>)
    requires
        key_bytes(key),
        clean(value),
    ensures
        forall|i: int|
            0 <= i < (key + seq![61u8] + value).len() ==> (key + seq![61u8] + value)[i] != 10,
{
    let line = key + seq![61u8] + value;
    assert forall|i: int| 0 <= i < line.len() implies line[i] != 10 by {
        if i > key.len() {
            assert(line[i] == value[i - key.len() - 1]);
        } else if i < key.len() {
            assert(line[i] == key[i]);
        }
    }
}

/// The name of the file that settings are first written to, before they take the place of the
/// old ones.
pub fn temporary_name(pid: u32, stamp: u64) -> (r: String)
    ensures
        r@ == ".t7patch-"@ + text::decimal(pid as nat) + "-"@ + text::decimal(stamp as nat)
            + ".tmp"@,
{
    let mut out = ".t7patch-".to_owned();
    push_decimal(&mut out, pid as u64);
    out.append("-");
    push_decimal(&mut out, stamp as u64);
    out.append(".tmp");
    out
}

} // verus!
