//! Decimal numbers in texts, and white space around them.
use vstd::prelude::*;

verus! {

/// Unicode's White_Space property.
pub open spec fn is_white(c: char) -> bool {
    let v = c as int;
    ||| 9 <= v <= 13
    ||| v == 32
    ||| v == 0x85
    ||| v == 0xA0
    ||| v == 0x1680
    ||| 0x2000 <= v <= 0x200A
    ||| v == 0x2028
    ||| v == 0x2029
    ||| v == 0x202F
    ||| v == 0x205F
    ||| v == 0x3000
}

fn white(c: char) -> (r: bool)
    ensures
        r == is_white(c),
{
    let v: u32 = c as u32;
    (v >= 9 && v <= 13) || v == 32 || v == 0x85 || v == 0xA0 || v == 0x1680 || (v >= 0x2000 && v
        <= 0x200A) || v == 0x2028 || v == 0x2029 || v == 0x202F || v == 0x205F || v == 0x3000
}

pub open spec fn trim_start(s: Seq<char>) -> Seq<char>
    decreases s.len(),
{
    if s.len() > 0 && is_white(s[0]) {
        trim_start(s.skip(1))
    } else {
        s
    }
}

pub open spec fn trim_end(s: Seq<char>) -> Seq<char>
    decreases s.len(),
{
    if s.len() > 0 && is_white(s.last()) {
        trim_end(s.drop_last())
    } else {
        s
    }
}

/// A text without the white space around it.
pub open spec fn trimmed(s: Seq<char>) -> Seq<char> {
    trim_end(trim_start(s))
}

/// The characters of a text.
pub fn characters(s: &str) -> (r: Vec<char>)
    ensures
        r@ == s@,
{
    let mut out: Vec<char> = Vec::new();
    for c in it: s.chars()
        invariant
            it.seq() == s@,
            out@ == s@.take(it.index() as int),
    {
        out.push(c);
        assert(out@ =~= s@.take(it.index() as int + 1));
    }
    assert(s@.take(s@.len() as int) =~= s@);
    out
}

/// Where the trimmed text starts and ends.
pub fn trim(s: &[char]) -> (r: (usize, usize))
    ensures
        r.0 <= r.1 <= s@.len(),
        s@.subrange(r.0 as int, r.1 as int) == trimmed(s@),
{
    let mut a: usize = 0;
    assert(s@.skip(0) =~= s@);
    while a < s.len() && white(s[a])
        invariant
            a <= s@.len(),
            trim_start(s@.skip(a as int)) == trim_start(s@),
        decreases s@.len() - a,
    {
        assert(s@.skip(a as int).skip(1) =~= s@.skip(a + 1));
        a = a + 1;
    }
    let ghost rest = s@.skip(a as int);
    let mut b: usize = s.len();
    assert(s@.subrange(a as int, b as int) =~= rest);
    while b > a && white(s[b - 1])
        invariant
            a <= b <= s@.len(),
            trim_end(s@.subrange(a as int, b as int)) == trimmed(s@),
        decreases b,
    {
        assert(s@.subrange(a as int, b as int).drop_last() =~= s@.subrange(a as int, b - 1));
        b = b - 1;
    }
    (a, b)
}

pub open spec fn is_digit(c: char) -> bool {
    48 <= c as int <= 57
}

pub open spec fn all_digits(s: Seq<char>) -> bool {
    forall|i: int| 0 <= i < s.len() ==> is_digit(#[trigger] s[i])
}

/// The number that a string of digits denotes.
pub open spec fn digits_value(s: Seq<char>) -> int
    decreases s.len(),
{
    if s.len() == 0 {
        0
    } else {
        digits_value(s.drop_last()) * 10 + (s.last() as int - 48)
    }
}

/// The number that a non-empty string of digits denotes, `None` for any other text.
pub open spec fn natural(s: Seq<char>) -> Option<int> {
    if s.len() > 0 && all_digits(s) {
        Some(digits_value(s))
    } else {
        None
    }
}

proof fn lemma_prefix_value(s: Seq<char>, k: int)
    requires
        0 <= k <= s.len(),
        all_digits(s),
    ensures
        0 <= digits_value(s.take(k)) <= digits_value(s),
    decreases s.len(),
{
    if s.len() == 0 {
        assert(s.take(k) =~= s);
    } else if k == s.len() {
        assert(s.take(k) =~= s);
        lemma_prefix_value(s.drop_last(), s.len() - 1);
        assert(s.drop_last().take(s.len() - 1) =~= s.drop_last());
        assert(is_digit(s[s.len() - 1]));
    } else {
        assert(s.drop_last().take(k) =~= s.take(k));
        lemma_prefix_value(s.drop_last(), k);
        assert(is_digit(s[s.len() - 1]));
    }
}

/// Reads `s` from `from` to `to` as a natural number of at most 64 bits.
pub fn read_natural(s: &[char], from: usize, to: usize) -> (r: Option<u64>)
    requires
        from <= to <= s@.len(),
    ensures
        match r {
            Some(v) => natural(s@.subrange(from as int, to as int)) == Some(v as int),
            None => match natural(s@.subrange(from as int, to as int)) {
                Some(v) => v > u64::MAX,
                None => true,
            },
        },
{
    if from == to {
        return None;
    }
    let ghost all = s@.subrange(from as int, to as int);
    let mut value: u64 = 0;
    let mut i: usize = from;
    assert(all.take(0) =~= Seq::<char>::empty());
    while i < to
        invariant
            from < to,
            from <= i <= to <= s@.len(),
            all == s@.subrange(from as int, to as int),
            all_digits(all.take(i - from)),
            value == digits_value(all.take(i - from)),
        decreases to - i,
    {
        let digit: char = s[i];
        proof {
            crate::utf16::lemma_char(digit);
        }
        let c: u32 = digit as u32;
        let ghost k = i - from;
        assert(all[k] == s@[i as int]);
        assert(all.take(k + 1).drop_last() =~= all.take(k));
        if c < 48 || c > 57 {
            assert(!is_digit(all[k]));
            return None;
        }
        assert(all_digits(all.take(k + 1))) by {
            assert forall|j: int| 0 <= j < k + 1 implies is_digit(#[trigger] all.take(k + 1)[j]) by {
                if j < k {
                    assert(all.take(k)[j] == all.take(k + 1)[j]);
                }
            }
        }
        let d: u64 = (c - 48) as u64;
        if value > (u64::MAX - d) / 10 {
            proof {
                assert(digits_value(all.take(k + 1)) == value * 10 + d);
                if all_digits(all) {
                    lemma_prefix_value(all, k + 1);
                }
            }
            return None;
        }
        value = value * 10 + d;
        i = i + 1;
    }
    assert(all.take(to - from) =~= all);
    Some(value)
}

/// The number that a text denotes, with an optional sign, if it fits in 32 bits.
pub open spec fn signed32(s: Seq<char>) -> Option<int> {
    if s.len() == 0 {
        None
    } else if s[0] == '-' {
        match natural(s.skip(1)) {
            Some(v) => if v <= 0x8000_0000 {
                Some(-v)
            } else {
                None
            },
            None => None,
        }
    } else {
        match natural(if s[0] == '+' { s.skip(1) } else { s }) {
            Some(v) => if v <= 0x7FFF_FFFF {
                Some(v)
            } else {
                None
            },
            None => None,
        }
    }
}

/// Reads `s` from `from` to `to` as `str::parse::<i32>` does.
pub fn read_signed32(s: &[char], from: usize, to: usize) -> (r: Option<i32>)
    requires
        from <= to <= s@.len(),
    ensures
        match signed32(s@.subrange(from as int, to as int)) {
            Some(v) => r is Some && r->Some_0 == v,
            None => r is None,
        },
{
    if from == to {
        return None;
    }
    let ghost all = s@.subrange(from as int, to as int);
    assert(all[0] == s@[from as int]);
    let negative: bool = s[from] == '-';
    let start: usize = if negative || s[from] == '+' {
        from + 1
    } else {
        from
    };
    assert(all.skip(1) =~= s@.subrange(from + 1, to as int));
    match read_natural(s, start, to) {
        None => None,
        Some(v) => if negative {
            if v <= 0x8000_0000 {
                Some((0 - v as i64) as i32)
            } else {
                None
            }
        } else if v <= 0x7FFF_FFFF {
            Some(v as i32)
        } else {
            None
        },
    }
}

} // verus!
