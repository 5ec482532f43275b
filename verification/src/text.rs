//! Byte-string and text helpers shared by the other modules.
use vstd::prelude::*;

verus! {

/// The first index at or after `from` that holds `byte`, or the length.
pub open spec fn find_from(s: Seq<u8>, byte: u8, from: int) -> int
    decreases s.len() - from,
{
    if from >= s.len() {
        s.len() as int
    } else if s[from] == byte {
        from
    } else {
        find_from(s, byte, from + 1)
    }
}

/// What `find_from` finds: nothing before it matches, and it matches unless it is the end.
pub proof fn lemma_find_from(s: Seq<u8>, byte: u8, from: int)
    requires
        0 <= from <= s.len(),
    ensures
        from <= find_from(s, byte, from) <= s.len(),
        forall|i: int| from <= i < find_from(s, byte, from) ==> s[i] != byte,
        find_from(s, byte, from) < s.len() ==> s[find_from(s, byte, from)] == byte,
    decreases s.len() - from,
{
    if from < s.len() && s[from] != byte {
        lemma_find_from(s, byte, from + 1);
    }
}

/// A byte string as a C reader sees it: up to the first NUL.
pub open spec fn until_nul(s: Seq<u8>) -> Seq<u8> {
    s.take(find_from(s, 0, 0))
}

/// Finds `byte` in `s`, starting at `from`.
pub fn find_byte(s: &[u8], byte: u8, from: usize) -> (r: usize)
    requires
        from <= s@.len(),
    ensures
        r == find_from(s@, byte, from as int),
        from <= r <= s@.len(),
        forall|i: int| from <= i < r ==> s@[i] != byte,
        r < s@.len() ==> s@[r as int] == byte,
{
    let mut i: usize = from;
    while i < s.len()
        invariant
            from <= i <= s@.len(),
            find_from(s@, byte, i as int) == find_from(s@, byte, from as int),
            forall|k: int| from <= k < i ==> s@[k] != byte,
        decreases s@.len() - i,
    {
        if s[i] == byte {
            return i;
        }
        i = i + 1;
    }
    i
}

pub open spec fn lower(b: u8) -> u8 {
    if 65 <= b <= 90 {
        (b + 32) as u8
    } else {
        b
    }
}

/// ASCII lower case; every other byte is kept.
pub fn ascii_lower(b: u8) -> (r: u8)
    ensures
        r == lower(b),
{
    if 65 <= b && b <= 90 {
        b + 32
    } else {
        b
    }
}

pub open spec fn has_prefix(s: Seq<u8>, prefix: Seq<u8>) -> bool {
    prefix.len() <= s.len() && s.take(prefix.len() as int) == prefix
}

/// Compares two byte strings.
pub fn same_bytes(a: &[u8], b: &[u8]) -> (r: bool)
    ensures
        r == (a@ == b@),
{
    if a.len() != b.len() {
        return false;
    }
    let mut i: usize = 0;
    while i < a.len()
        invariant
            i <= a@.len(),
            a@.len() == b@.len(),
            a@.take(i as int) == b@.take(i as int),
        decreases a@.len() - i,
    {
        if a[i] != b[i] {
            return false;
        }
        assert(a@.take(i + 1) =~= a@.take(i as int).push(a@[i as int]));
        assert(b@.take(i + 1) =~= b@.take(i as int).push(b@[i as int]));
        i = i + 1;
    }
    assert(a@.take(a@.len() as int) =~= a@);
    assert(b@.take(b@.len() as int) =~= b@);
    true
}

pub fn starts_with(s: &[u8], prefix: &[u8]) -> (r: bool)
    ensures
        r == has_prefix(s@, prefix@),
{
    if prefix.len() > s.len() {
        return false;
    }
    let head: &[u8] = vstd::slice::slice_subrange(s, 0, prefix.len());
    assert(head@ =~= s@.take(prefix@.len() as int));
    same_bytes(head, prefix)
}

/// Equality that takes ASCII letters of either case as one.
pub open spec fn same_ignoring_case(a: Seq<u8>, b: Seq<u8>) -> bool {
    a.len() == b.len() && forall|i: int| 0 <= i < a.len() ==> lower(#[trigger] a[i]) == lower(b[i])
}

pub fn bytes_match_ignoring_case(a: &[u8], b: &[u8]) -> (r: bool)
    ensures
        r == same_ignoring_case(a@, b@),
{
    if a.len() != b.len() {
        return false;
    }
    let mut i: usize = 0;
    while i < a.len()
        invariant
            i <= a@.len(),
            a@.len() == b@.len(),
            forall|k: int| 0 <= k < i ==> lower(#[trigger] a@[k]) == lower(b@[k]),
        decreases a@.len() - i,
    {
        if ascii_lower(a[i]) != ascii_lower(b[i]) {
            assert(lower(a@[i as int]) != lower(b@[i as int]));
            return false;
        }
        i = i + 1;
    }
    true
}

/// The UTF-8 bytes of a text.
pub open spec fn utf8(s: Seq<char>) -> Seq<u8> {
    vstd::utf8::encode_utf8(s)
}

/// `str::eq_ignore_ascii_case`.
pub fn text_matches_ignoring_case(a: &str, b: &str) -> (r: bool)
    ensures
        r == same_ignoring_case(utf8(a@), utf8(b@)),
{
    bytes_match_ignoring_case(a.as_bytes(), b.as_bytes())
}

/// `String::push` appends one character.
pub assume_specification[ String::push ](s: &mut String, c: char)
    ensures
        final(s)@ == old(s)@.push(c),
;

/// `char::from_u32` gives the character of every Unicode scalar value and nothing for any
/// other integer.
pub assume_specification[ char::from_u32 ](i: u32) -> (r: Option<char>)
    ensures
        r is Some <==> (i <= 0xD7FF || (0xE000 <= i && i <= 0x10FFFF)),
        r is Some ==> r->Some_0 as int == i,
;

pub open spec fn digit_char(d: int) -> char {
    if d < 10 {
        (48 + d) as char
    } else {
        (87 + d) as char
    }
}

/// The decimal digits of `n`.
pub open spec fn decimal(n: nat) -> Seq<char>
    decreases n,
{
    if n < 10 {
        seq![digit_char(n as int)]
    } else {
        decimal(n / 10).push(digit_char((n % 10) as int))
    }
}

/// The lower-case hexadecimal digits of `n`.
pub open spec fn hex(n: nat) -> Seq<char>
    decreases n,
{
    if n < 16 {
        seq![digit_char(n as int)]
    } else {
        hex(n / 16).push(digit_char((n % 16) as int))
    }
}

/// One hexadecimal digit.
pub fn digit(d: u8) -> (c: char)
    requires
        d < 16,
    ensures
        c == digit_char(d as int),
{
    if d < 10 {
        (48 + d) as char
    } else {
        (87 + d) as char
    }
}

pub fn push_decimal(s: &mut String, n: u64)
    ensures
        final(s)@ == old(s)@ + decimal(n as nat),
    decreases n,
{
    if n >= 10 {
        push_decimal(s, n / 10);
    }
    s.push(digit((n % 10) as u8));
    assert(s@ =~= old(s)@ + decimal(n as nat));
}

pub fn push_hex(s: &mut String, n: u64)
    ensures
        final(s)@ == old(s)@ + hex(n as nat),
    decreases n,
{
    if n >= 16 {
        push_hex(s, n / 16);
    }
    s.push(digit((n % 16) as u8));
    assert(s@ =~= old(s)@ + hex(n as nat));
}

/// `std::str::from_utf8` gives the text of well-formed UTF-8 and refuses everything else.
#[verifier::external_body]
pub(crate) fn text_of_utf8(v: &[u8]) -> (r: Option<String>)
    ensures
        r is Some <==> vstd::utf8::valid_utf8(v@),
        r is Some ==> r->Some_0@ == vstd::utf8::decode_utf8(v@),
{
    std::str::from_utf8(v).ok().map(|s| s.to_owned())
}

/// Searching a suffix finds what searching the whole from there finds.
pub proof fn lemma_find_in_suffix(s: Seq<u8>, byte: u8, at: int, from: int)
    requires
        0 <= at <= from <= s.len(),
    ensures
        find_from(s.skip(at), byte, from - at) + at == find_from(s, byte, from),
    decreases s.len() - from,
{
    if from < s.len() && s[from] != byte {
        lemma_find_in_suffix(s, byte, at, from + 1);
    }
}

/// A prefix without `byte` is passed over.
pub proof fn lemma_find_after(head: Seq<u8>, rest: Seq<u8>, byte: u8, from: int)
    requires
        0 <= from <= head.len(),
        forall|i: int| 0 <= i < head.len() ==> head[i] != byte,
    ensures
        find_from(head + rest, byte, from) == head.len() + find_from(rest, byte, 0),
    decreases head.len() - from,
{
    if from < head.len() {
        lemma_find_after(head, rest, byte, from + 1);
    } else {
        lemma_find_in_suffix(head + rest, byte, head.len() as int, head.len() as int);
        assert((head + rest).skip(head.len() as int) =~= rest);
    }
}

/// ASCII text is its own UTF-8.
pub proof fn lemma_utf8_of_ascii(s: Seq<char>)
    requires
        forall|i: int| 0 <= i < s.len() ==> 0 <= (#[trigger] s[i]) as int <= 127,
    ensures
        utf8(s).len() == s.len(),
        forall|i: int| 0 <= i < s.len() ==> #[trigger] utf8(s)[i] == s[i] as u8,
{
    assert(vstd::utf8::is_ascii_chars(s));
    vstd::utf8::is_ascii_chars_encode_utf8(s);
}

/// Compares two texts.
pub fn same_text(a: &str, b: &str) -> (r: bool)
    ensures
        r == (a@ == b@),
{
    let r: bool = same_bytes(a.as_bytes(), b.as_bytes());
    proof {
        vstd::utf8::encode_utf8_decode_utf8(a@);
        vstd::utf8::encode_utf8_decode_utf8(b@);
    }
    r
}

} // verus!
