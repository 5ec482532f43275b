//! UTF-16 as Windows uses it.
use vstd::prelude::*;

verus! {

/// One character in UTF-16: itself, or a surrogate pair.
pub open spec fn units_of(c: char) -> Seq<u16> {
    let v = c as int;
    if v < 0x1_0000 {
        seq![v as u16]
    } else {
        seq![(0xD800 + (v - 0x1_0000) / 0x400) as u16, (0xDC00 + (v - 0x1_0000) % 0x400) as u16]
    }
}

/// A text in UTF-16.
pub open spec fn encoded(s: Seq<char>) -> Seq<u16>
    decreases s.len(),
{
    if s.len() == 0 {
        seq![]
    } else {
        units_of(s[0]) + encoded(s.skip(1))
    }
}

pub open spec fn is_high(u: u16) -> bool {
    0xD800 <= u <= 0xDBFF
}

pub open spec fn is_low(u: u16) -> bool {
    0xDC00 <= u <= 0xDFFF
}

/// The text of UTF-16 units; a surrogate without its partner reads as U+FFFD.
pub open spec fn decoded(u: Seq<u16>) -> Seq<char>
    decreases u.len(),
{
    if u.len() == 0 {
        seq![]
    } else if !is_high(u[0]) && !is_low(u[0]) {
        seq![u[0] as char] + decoded(u.skip(1))
    } else if is_high(u[0]) && u.len() >= 2 && is_low(u[1]) {
        seq![(0x1_0000 + (u[0] - 0xD800) * 0x400 + (u[1] - 0xDC00)) as char] + decoded(u.skip(2))
    } else {
        seq!['\u{FFFD}'] + decoded(u.skip(1))
    }
}

/// A character is a Unicode scalar value.
pub proof fn lemma_char(c: char)
    ensures
        0 <= c as int <= 0xD7FF || 0xE000 <= c as int <= 0x10FFFF,
        c as u32 == c as int,
        (c as int) as char == c,
{
}

/// Encodes a text, as `str::encode_utf16` does.
pub fn encode(s: &str) -> (r: Vec<u16>)
    ensures
        r@ == encoded(s@),
{
    let mut out: Vec<u16> = Vec::new();
    assert(s@.skip(0) =~= s@);
    for c in it: s.chars()
        invariant
            it.seq() == s@,
            out@ + encoded(s@.skip(it.index() as int)) == encoded(s@),
    {
        let ghost before = out@;
        let ghost i = it.index() as int;
        proof {
            lemma_char(c);
        }
        let v: u32 = c as u32;
        if v < 0x1_0000 {
            out.push(v as u16);
        } else {
            out.push((0xD800 + (v - 0x1_0000) / 0x400) as u16);
            out.push((0xDC00 + (v - 0x1_0000) % 0x400) as u16);
        }
        assert(out@ =~= before + units_of(c));
        assert(s@.skip(i).skip(1) =~= s@.skip(i + 1));
        assert(out@ + encoded(s@.skip(i + 1)) =~= before + (units_of(c) + encoded(s@.skip(i + 1))));
    }
    assert(s@.skip(s@.len() as int) =~= Seq::<char>::empty());
    assert(out@ + encoded(Seq::<char>::empty()) =~= out@);
    out
}

/// Decodes units, as `String::from_utf16_lossy` does.
pub fn decode(u: &[u16]) -> (r: String)
    ensures
        r@ == decoded(u@),
{
    let mut out = String::new();
    let mut i: usize = 0;
    assert(u@.skip(0) =~= u@);
    assert(out@ + decoded(u@) =~= decoded(u@));
    while i < u.len()
        invariant
            i <= u@.len(),
            out@ + decoded(u@.skip(i as int)) == decoded(u@),
        decreases u@.len() - i,
    {
        let ghost before = out@;
        let ghost rest = u@.skip(i as int);
        let a: u16 = u[i];
        assert(rest[0] == a);
        let mut code: u32 = 0xFFFD;
        let mut used: usize = 1;
        if a < 0xD800 || a > 0xDFFF {
            code = a as u32;
        } else if a <= 0xDBFF && i + 1 < u.len() {
            let b: u16 = u[i + 1];
            assert(rest[1] == b);
            if b >= 0xDC00 && b <= 0xDFFF {
                code = 0x1_0000 + (a as u32 - 0xD800) * 0x400 + (b as u32 - 0xDC00);
                used = 2;
            }
        }
        match char::from_u32(code) {
            Some(c) => {
                out.push(c);
                assert(decoded(rest) == seq![c] + decoded(rest.skip(used as int)));
                assert(rest.skip(used as int) =~= u@.skip(i + used));
                assert(out@ + decoded(u@.skip(i + used)) =~= before + decoded(rest));
            },
            None => {
                assert(false);
            },
        }
        i = i + used;
    }
    assert(u@.skip(u@.len() as int) =~= Seq::<u16>::empty());
    assert(out@ + decoded(Seq::<u16>::empty()) =~= out@);
    out
}

/// A text survives encoding and decoding.
pub proof fn lemma_round_trip(s: Seq<char>)
    ensures
        decoded(encoded(s)) == s,
    decreases s.len(),
{
    if s.len() > 0 {
        lemma_round_trip(s.skip(1));
        let rest = encoded(s.skip(1));
        let all = units_of(s[0]) + rest;
        lemma_char(s[0]);
        assert(all.skip(units_of(s[0]).len() as int) =~= rest);
        assert(all[0] == units_of(s[0])[0]);
        if s[0] as int >= 0x1_0000 {
            assert(all[1] == units_of(s[0])[1]);
        }
        assert(decoded(all) == seq![s[0]] + decoded(rest));
        assert(seq![s[0]] + s.skip(1) =~= s);
    }
}

/// A text without NUL has no zero unit.
pub proof fn lemma_no_zero_unit(s: Seq<char>)
    requires
        forall|i: int| 0 <= i < s.len() ==> s[i] as int != 0,
    ensures
        forall|k: int| 0 <= k < encoded(s).len() ==> encoded(s)[k] != 0,
    decreases s.len(),
{
    if s.len() > 0 {
        lemma_char(s[0]);
        assert forall|i: int| 0 <= i < s.skip(1).len() implies s.skip(1)[i] as int != 0 by {
            assert(s.skip(1)[i] == s[i + 1]);
        }
        lemma_no_zero_unit(s.skip(1));
        let first = units_of(s[0]);
        assert(s[0] as int != 0);
        assert(forall|k: int| 0 <= k < first.len() ==> first[k] != 0);
        let rest = encoded(s.skip(1));
        assert(encoded(s) == first + rest);
        assert forall|k: int| 0 <= k < encoded(s).len() implies encoded(s)[k] != 0 by {
            if k >= first.len() {
                assert(encoded(s)[k] == rest[k - first.len()]);
            }
        }
    }
}

} // verus!
