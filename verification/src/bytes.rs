//! Little-endian integers in byte strings.
use vstd::prelude::*;

verus! {

/// The 16-bit integer at `at`, if it lies within `d`.
pub open spec fn u16_at(d: Seq<u8>, at: int) -> Option<u16> {
    if 0 <= at && at + 2 <= d.len() {
        Some((d[at] + 0x100 * d[at + 1]) as u16)
    } else {
        None
    }
}

/// The 32-bit integer at `at`, if it lies within `d`.
pub open spec fn u32_at(d: Seq<u8>, at: int) -> Option<u32> {
    if 0 <= at && at + 4 <= d.len() {
        Some(
            (d[at] + 0x100 * d[at + 1] + 0x1_0000 * d[at + 2] + 0x100_0000 * d[at + 3]) as u32,
        )
    } else {
        None
    }
}

pub fn read_u16(d: &[u8], at: u64) -> (r: Option<u16>)
    ensures
        r == u16_at(d@, at as int),
{
    let n: u64 = d.len() as u64;
    if n < 2 || at > n - 2 {
        return None;
    }
    let i: usize = at as usize;
    Some(d[i] as u16 + 0x100 * d[i + 1] as u16)
}

pub fn read_u32(d: &[u8], at: u64) -> (r: Option<u32>)
    ensures
        r == u32_at(d@, at as int),
{
    let n: u64 = d.len() as u64;
    if n < 4 || at > n - 4 {
        return None;
    }
    let i: usize = at as usize;
    Some(
        d[i] as u32 + 0x100 * d[i + 1] as u32 + 0x1_0000 * d[i + 2] as u32
            + 0x100_0000 * d[i + 3] as u32,
    )
}

/// The 64-bit integer at `at`, if it lies within `d`.
pub open spec fn u64_at(d: Seq<u8>, at: int) -> Option<u64> {
    match (u32_at(d, at), u32_at(d, at + 4)) {
        (Some(low), Some(high)) => Some((low + 0x1_0000_0000 * high) as u64),
        _ => None,
    }
}

/// The signed 32-bit integer at `at`, if it lies within `d`.
pub open spec fn i32_at(d: Seq<u8>, at: int) -> Option<i32> {
    match u32_at(d, at) {
        Some(v) => Some(v as i32),
        None => None,
    }
}

pub fn read_u64(d: &[u8], at: u64) -> (r: Option<u64>)
    requires
        at <= u64::MAX - 4,
    ensures
        r == u64_at(d@, at as int),
{
    match (read_u32(d, at), read_u32(d, at + 4)) {
        (Some(low), Some(high)) => Some(low as u64 + 0x1_0000_0000 * high as u64),
        _ => None,
    }
}

pub fn read_i32(d: &[u8], at: u64) -> (r: Option<i32>)
    ensures
        r == i32_at(d@, at as int),
{
    match read_u32(d, at) {
        Some(v) => Some(v as i32),
        None => None,
    }
}

pub open spec fn le16(v: u16) -> Seq<u8> {
    seq![(v % 0x100) as u8, (v / 0x100) as u8]
}

pub open spec fn le32(v: u32) -> Seq<u8> {
    seq![
        (v % 0x100) as u8,
        (v / 0x100 % 0x100) as u8,
        (v / 0x1_0000 % 0x100) as u8,
        (v / 0x100_0000) as u8,
    ]
}

pub fn push_u16(out: &mut Vec<u8>, v: u16)
    ensures
        final(out)@ == old(out)@ + le16(v),
{
    out.push((v % 0x100) as u8);
    out.push((v / 0x100) as u8);
    assert(out@ =~= old(out)@ + le16(v));
}

pub fn push_u32(out: &mut Vec<u8>, v: u32)
    ensures
        final(out)@ == old(out)@ + le32(v),
{
    out.push((v % 0x100) as u8);
    out.push((v / 0x100 % 0x100) as u8);
    out.push((v / 0x1_0000 % 0x100) as u8);
    out.push((v / 0x100_0000) as u8);
    assert(out@ =~= old(out)@ + le32(v));
}

/// Reading back what was written gives the same integer.
pub proof fn lemma_le16_round_trip(v: u16, before: Seq<u8>, after: Seq<u8>)
    ensures
        u16_at(before + le16(v) + after, before.len() as int) == Some(v),
{
    let d = before + le16(v) + after;
    assert(d[before.len() as int] == le16(v)[0]);
    assert(d[before.len() as int + 1] == le16(v)[1]);
}

/// Reading back what was written gives the same integer.
pub proof fn lemma_le32_round_trip(v: u32, before: Seq<u8>, after: Seq<u8>)
    ensures
        u32_at(before + le32(v) + after, before.len() as int) == Some(v),
{
    let d = before + le32(v) + after;
    assert(d[before.len() as int] == le32(v)[0]);
    assert(d[before.len() as int + 1] == le32(v)[1]);
    assert(d[before.len() as int + 2] == le32(v)[2]);
    assert(d[before.len() as int + 3] == le32(v)[3]);
}

} // verus!
