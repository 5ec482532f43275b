//! Hashes shared with the game's script compiler and with the network password.
//! Arithmetic wraps, and input ends at the first NUL.
use crate::text;
use crate::text::{ascii_lower, find_byte};
use vstd::prelude::*;

verus! {

pub const SEED32: u32 = 0x4B9A_CE2F;
pub const SEED64: u64 = 14695981039346656037;
pub const PRIME32: u32 = 0x0100_0193;
pub const PRIME64: u64 = 1099511628211;

/// A byte read as C's signed `char` and widened to 32 bits.
pub open spec fn sign_extended32(b: u8) -> u32 {
    b as i8 as i32 as u32
}

/// A byte read as C's signed `char` and widened to 64 bits.
pub open spec fn sign_extended64(b: u8) -> u64 {
    b as i8 as i64 as u64
}

pub open spec fn canon_step(hash: u32, b: u8) -> u32 {
    let sum = hash.wrapping_add(sign_extended32(text::lower(b)));
    let mixed = sum ^ sum.wrapping_shl(10);
    mixed.wrapping_add(mixed >> 6)
}

pub open spec fn canon_finish(hash: u32) -> u32 {
    let mixed = hash.wrapping_mul(9);
    0x8001u32.wrapping_mul(mixed ^ (mixed >> 11))
}

pub open spec fn canon_hash_of(input: Seq<u8>) -> u32 {
    canon_finish(text::until_nul(input).fold_left(SEED32, |h: u32, b: u8| canon_step(h, b)))
}

pub open spec fn canon64_step(hash: u64, b: u8) -> u64 {
    (hash ^ sign_extended64(text::lower(b))).wrapping_mul(PRIME64)
}

pub open spec fn canon_hash64_of(input: Seq<u8>) -> u64 {
    text::until_nul(input).fold_left(SEED64, |h: u64, b: u8| canon64_step(h, b)) & 0x7FFF_FFFF_FFFF_FFFF
}

pub open spec fn fnv_step(hash: u32, b: u8) -> u32 {
    (hash ^ sign_extended32(b)).wrapping_mul(PRIME32)
}

pub open spec fn fnv1a_of(input: Seq<u8>) -> u32 {
    text::until_nul(input).fold_left(SEED32, |h: u32, b: u8| fnv_step(h, b)).wrapping_mul(PRIME32)
}

/// The script compiler's case-insensitive 32-bit hash.
pub fn canon_hash(input: &[u8]) -> (r: u32)
    ensures
        r == canon_hash_of(input@),
{
    let n: usize = find_byte(input, 0, 0);
    let mut hash: u32 = SEED32;
    let mut i: usize = 0;
    while i < n
        invariant
            i <= n <= input@.len(),
            hash == input@.take(i as int).fold_left(SEED32, |h: u32, b: u8| canon_step(h, b)),
        decreases n - i,
    {
        let c: u32 = ascii_lower(input[i]) as i8 as i32 as u32;
        let sum: u32 = hash.wrapping_add(c);
        let mixed: u32 = sum ^ sum.wrapping_shl(10);
        hash = mixed.wrapping_add(mixed >> 6);
        assert(input@.take(i + 1).drop_last() =~= input@.take(i as int));
        i = i + 1;
    }
    let mixed: u32 = hash.wrapping_mul(9);
    0x8001u32.wrapping_mul(mixed ^ (mixed >> 11))
}

/// The case-insensitive 63-bit hash that stands for a network password.
pub fn canon_hash64(input: &[u8]) -> (r: u64)
    ensures
        r == canon_hash64_of(input@),
{
    let n: usize = find_byte(input, 0, 0);
    let mut hash: u64 = SEED64;
    let mut i: usize = 0;
    while i < n
        invariant
            i <= n <= input@.len(),
            hash == input@.take(i as int).fold_left(SEED64, |h: u64, b: u8| canon64_step(h, b)),
        decreases n - i,
    {
        hash = (hash ^ (ascii_lower(input[i]) as i8 as i64 as u64)).wrapping_mul(PRIME64);
        assert(input@.take(i + 1).drop_last() =~= input@.take(i as int));
        i = i + 1;
    }
    hash & 0x7FFF_FFFF_FFFF_FFFF
}

/// The case-sensitive 32-bit hash, with one closing multiplication.
pub fn fnv1a(input: &[u8]) -> (r: u32)
    ensures
        r == fnv1a_of(input@),
{
    let n: usize = find_byte(input, 0, 0);
    let mut hash: u32 = SEED32;
    let mut i: usize = 0;
    while i < n
        invariant
            i <= n <= input@.len(),
            hash == input@.take(i as int).fold_left(SEED32, |h: u32, b: u8| fnv_step(h, b)),
        decreases n - i,
    {
        hash = (hash ^ (input[i] as i8 as i32 as u32)).wrapping_mul(PRIME32);
        assert(input@.take(i + 1).drop_last() =~= input@.take(i as int));
        i = i + 1;
    }
    hash.wrapping_mul(PRIME32)
}

/// Nothing behind the first NUL reaches any of the hashes.
pub proof fn lemma_hashes_stop_at_nul(head: Seq<u8>, tail: Seq<u8>)
    ensures
        canon_hash_of(head + seq![0u8] + tail) == canon_hash_of(head),
        canon_hash64_of(head + seq![0u8] + tail) == canon_hash64_of(head),
        fnv1a_of(head + seq![0u8] + tail) == fnv1a_of(head),
{
    lemma_until_nul_of_joined(head, tail, 0);
    let whole = head + seq![0u8] + tail;
    assert(whole.take(text::find_from(whole, 0, 0)) =~= head.take(text::find_from(head, 0, 0)));
}

proof fn lemma_until_nul_of_joined(head: Seq<u8>, tail: Seq<u8>, from: int)
    requires
        0 <= from <= head.len(),
    ensures
        text::find_from(head + seq![0u8] + tail, 0, from) == text::find_from(head, 0, from),
        from <= text::find_from(head, 0, from) <= head.len(),
    decreases head.len() - from,
{
    if from < head.len() {
        lemma_until_nul_of_joined(head, tail, from + 1);
    }
}

/// Inputs that differ only in ASCII case have the same canonical hashes.
pub proof fn lemma_canon_hashes_ignore_case(a: Seq<u8>, b: Seq<u8>)
    requires
        a.len() == b.len(),
        forall|i: int| 0 <= i < a.len() ==> text::lower(#[trigger] a[i]) == text::lower(b[i]),
    ensures
        canon_hash_of(a) == canon_hash_of(b),
        canon_hash64_of(a) == canon_hash64_of(b),
{
    lemma_find_nul_ignores_case(a, b, 0);
    let n = text::find_from(a, 0, 0);
    lemma_folds_ignore_case(a.take(n), b.take(n));
}

proof fn lemma_find_nul_ignores_case(a: Seq<u8>, b: Seq<u8>, from: int)
    requires
        0 <= from <= a.len(),
        a.len() == b.len(),
        forall|i: int| 0 <= i < a.len() ==> text::lower(#[trigger] a[i]) == text::lower(b[i]),
    ensures
        text::find_from(a, 0, from) == text::find_from(b, 0, from),
        from <= text::find_from(a, 0, from) <= a.len(),
    decreases a.len() - from,
{
    if from < a.len() {
        assert(text::lower(a[from]) == text::lower(b[from]));
        lemma_find_nul_ignores_case(a, b, from + 1);
    }
}

proof fn lemma_folds_ignore_case(a: Seq<u8>, b: Seq<u8>)
    requires
        a.len() == b.len(),
        forall|i: int| 0 <= i < a.len() ==> text::lower(#[trigger] a[i]) == text::lower(b[i]),
    ensures
        a.fold_left(SEED32, |h: u32, x: u8| canon_step(h, x)) == b.fold_left(
            SEED32,
            |h: u32, x: u8| canon_step(h, x),
        ),
        a.fold_left(SEED64, |h: u64, x: u8| canon64_step(h, x)) == b.fold_left(
            SEED64,
            |h: u64, x: u8| canon64_step(h, x),
        ),
    decreases a.len(),
{
    if a.len() > 0 {
        lemma_folds_ignore_case(a.drop_last(), b.drop_last());
        assert(text::lower(a[a.len() - 1]) == text::lower(b[a.len() - 1]));
    }
}

} // verus!
