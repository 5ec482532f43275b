//! Words of a line, separated by ASCII white space.
use crate::numbers;
use crate::numbers::read_natural;
use crate::text;
use crate::text::{same_bytes, starts_with};
use vstd::prelude::*;

verus! {

/// ASCII white space as `u8::is_ascii_whitespace` defines it.
pub open spec fn is_gap(b: u8) -> bool {
    b == 32 || b == 9 || b == 10 || b == 12 || b == 13
}

fn gap(b: u8) -> (r: bool)
    ensures
        r == is_gap(b),
{
    b == 32 || b == 9 || b == 10 || b == 12 || b == 13
}

/// The first index from `i` on that starts a word, or the length.
pub open spec fn word_start(s: Seq<u8>, i: int) -> int
    decreases s.len() - i,
{
    if i < s.len() && is_gap(s[i]) {
        word_start(s, i + 1)
    } else {
        i
    }
}

/// The first index from `i` on that no longer belongs to a word.
pub open spec fn word_end(s: Seq<u8>, i: int) -> int
    decreases s.len() - i,
{
    if i < s.len() && !is_gap(s[i]) {
        word_end(s, i + 1)
    } else {
        i
    }
}

/// Words start and end within the line.
pub proof fn lemma_word_bounds(s: Seq<u8>, i: int)
    requires
        0 <= i <= s.len(),
    ensures
        i <= word_start(s, i) <= s.len(),
        i <= word_end(s, i) <= s.len(),
    decreases s.len() - i,
{
    if i < s.len() {
        lemma_word_bounds(s, i + 1);
    }
}

/// The words of `s` from `i` on.
pub open spec fn words_from(s: Seq<u8>, i: int) -> Seq<Seq<u8>>
    decreases s.len() - i,
    when 0 <= i <= s.len()
{
    let a = word_start(s, i);
    let b = word_end(s, a);
    if a >= s.len() {
        seq![]
    } else {
        proof {
            lemma_word_bounds(s, i);
            lemma_word_bounds(s, a + 1);
        }
        seq![s.subrange(a, b)] + words_from(s, b)
    }
}

/// The words of `s`, as `str::split_ascii_whitespace` gives them.
pub open spec fn words_of(s: Seq<u8>) -> Seq<Seq<u8>> {
    words_from(s, 0)
}

/// What slices hold.
pub open spec fn contents(v: Seq<&[u8]>) -> Seq<Seq<u8>> {
    Seq::new(v.len(), |i: int| v[i]@)
}

pub fn words(s: &[u8]) -> (r: Vec<&[u8]>)
    ensures
        contents(r@) == words_of(s@),
{
    let n: usize = s.len();
    let mut out: Vec<&[u8]> = Vec::new();
    let mut i: usize = 0;
    assert(contents(out@) + words_from(s@, 0) =~= words_of(s@));
    loop
        invariant
            i <= n,
            n == s@.len(),
            contents(out@) + words_from(s@, i as int) == words_of(s@),
        ensures
            contents(out@) == words_of(s@),
        decreases n - i,
    {
        let ghost from = i as int;
        let ghost before = contents(out@);
        let mut a: usize = i;
        while a < n && gap(s[a])
            invariant
                from <= a <= n,
                n == s@.len(),
                word_start(s@, a as int) == word_start(s@, from),
            decreases n - a,
        {
            a = a + 1;
        }
        if a == n {
            assert(before + Seq::<Seq<u8>>::empty() =~= before);
            break;
        }
        let mut b: usize = a;
        proof {
            lemma_word_bounds(s@, a + 1);
        }
        while b < n && !gap(s[b])
            invariant
                a <= b <= n,
                n == s@.len(),
                word_end(s@, b as int) == word_end(s@, a as int),
                word_end(s@, a as int) > a,
            decreases n - b,
        {
            b = b + 1;
        }
        let word: &[u8] = vstd::slice::slice_subrange(s, a, b);
        out.push(word);
        assert(contents(out@) =~= before.push(s@.subrange(a as int, b as int)));
        assert(contents(out@) + words_from(s@, b as int) =~= before + (seq![
            s@.subrange(a as int, b as int),
        ] + words_from(s@, b as int)));
        i = b;
    }
    out
}

/// The rest of the first word from the `i`-th on that starts with `key`.
pub open spec fn field_from(words: Seq<Seq<u8>>, key: Seq<u8>, i: int) -> Option<Seq<u8>>
    decreases words.len() - i,
{
    if i >= words.len() {
        None
    } else if text::has_prefix(words[i], key) {
        Some(words[i].skip(key.len() as int))
    } else {
        field_from(words, key, i + 1)
    }
}

/// The value of the first word that starts with `key`.
pub open spec fn field_of(words: Seq<Seq<u8>>, key: Seq<u8>) -> Option<Seq<u8>> {
    field_from(words, key, 0)
}

pub open spec fn same_field(r: Option<&[u8]>, spec: Option<Seq<u8>>) -> bool {
    match (r, spec) {
        (Some(v), Some(s)) => v@ == s,
        (None, None) => true,
        _ => false,
    }
}

pub fn field<'a>(words: &Vec<&'a [u8]>, key: &str) -> (r: Option<&'a [u8]>)
    ensures
        same_field(r, field_of(contents(words@), text::utf8(key@))),
{
    let k: &[u8] = key.as_bytes();
    let mut i: usize = 0;
    while i < words.len()
        invariant
            i <= words@.len(),
            k@ == text::utf8(key@),
            field_from(contents(words@), k@, i as int) == field_of(contents(words@), k@),
        decreases words@.len() - i,
    {
        let word: &'a [u8] = words[i];
        assert(contents(words@)[i as int] == word@);
        if starts_with(word, k) {
            let value: &'a [u8] = vstd::slice::slice_subrange(word, k.len(), word.len());
            assert(value@ =~= word@.skip(k@.len() as int));
            return Some(value);
        }
        i = i + 1;
    }
    None
}

/// Whether `word` is one of `words`.
pub fn has_word(words: &Vec<&[u8]>, word: &str) -> (r: bool)
    ensures
        r == contents(words@).contains(text::utf8(word@)),
{
    let k: &[u8] = word.as_bytes();
    let mut i: usize = 0;
    while i < words.len()
        invariant
            i <= words@.len(),
            k@ == text::utf8(word@),
            forall|j: int| 0 <= j < i ==> #[trigger] contents(words@)[j] != k@,
        decreases words@.len() - i,
    {
        assert(contents(words@)[i as int] == words@[i as int]@);
        if same_bytes(words[i], k) {
            return true;
        }
        i = i + 1;
    }
    false
}

/// Bytes read as Latin-1 characters, which for ASCII is the text itself.
pub open spec fn as_chars(s: Seq<u8>) -> Seq<char> {
    Seq::new(s.len(), |i: int| s[i] as char)
}

pub fn to_chars(s: &[u8]) -> (r: Vec<char>)
    ensures
        r@ == as_chars(s@),
{
    let mut out: Vec<char> = Vec::new();
    let mut i: usize = 0;
    while i < s.len()
        invariant
            i <= s@.len(),
            out@.len() == i,
            forall|k: int| 0 <= k < i ==> out@[k] == s@[k] as char,
        decreases s@.len() - i,
    {
        out.push(s[i] as char);
        i = i + 1;
    }
    assert(out@ =~= as_chars(s@));
    out
}

/// The text of characters.
pub fn to_text(s: &[char]) -> (r: String)
    ensures
        r@ == s@,
{
    let mut out = String::new();
    let mut i: usize = 0;
    while i < s.len()
        invariant
            i <= s@.len(),
            out@ == s@.take(i as int),
        decreases s@.len() - i,
    {
        out.push(s[i]);
        assert(out@ =~= s@.take(i + 1));
        i = i + 1;
    }
    assert(s@.take(i as int) =~= s@);
    out
}

/// The number that `s` denotes as `str::parse::<u64>` reads it: digits, perhaps after a plus.
pub open spec fn unsigned64(s: Seq<u8>) -> Option<int> {
    let chars = as_chars(s);
    let digits = if chars.len() > 0 && chars[0] == '+' {
        chars.skip(1)
    } else {
        chars
    };
    match numbers::natural(digits) {
        Some(v) => if v <= u64::MAX {
            Some(v)
        } else {
            None
        },
        None => None,
    }
}

pub fn read_unsigned64(s: &[u8]) -> (r: Option<u64>)
    ensures
        match unsigned64(s@) {
            Some(v) => r is Some && r->Some_0 == v,
            None => r is None,
        },
{
    let chars: Vec<char> = to_chars(s);
    let n: usize = chars.len();
    let start: usize = if n > 0 && chars[0] == '+' {
        1
    } else {
        0
    };
    if n > 0 {
        assert(chars@.subrange(1, n as int) =~= chars@.skip(1));
    }
    assert(chars@.subrange(0, n as int) =~= chars@);
    read_natural(chars.as_slice(), start, n)
}

} // verus!
