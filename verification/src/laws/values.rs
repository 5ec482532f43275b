//! Hashes, names and passwords, and the game's memory.
use crate::config;
use crate::config::Live;
use crate::hashing;
use crate::hooks;
use crate::memory;
use crate::memory::Region;
use crate::settings::Settings;
use crate::text;
use vstd::prelude::*;

verus! {

/// A byte as the game's compiler widens it: with its sign.
pub open spec fn widened(b: u8) -> int {
    if b < 128 {
        b as int
    } else {
        b + 0xffff_ff00
    }
}

/// The same, to 64 bits.
pub open spec fn widened64(b: u8) -> int {
    if b < 128 {
        b as int
    } else {
        b + 0xffff_ffff_ffff_ff00
    }
}

/// A letter in lower case; any other byte.
pub open spec fn small(b: u8) -> u8 {
    if 'A' as u8 <= b <= 'Z' as u8 {
        (b - 'A' as u8 + 'a' as u8) as u8
    } else {
        b
    }
}

proof fn lemma_widened(b: u8)
    ensures
        hashing::sign_extended32(b) == widened(b),
        hashing::sign_extended64(b) == widened64(b),
        text::lower(b) == small(b),
{
    assert(b < 128 ==> b as i8 as i32 as u32 == b) by (bit_vector);
    assert(b >= 128 ==> b as i8 as i32 as u32 == b + 0xffff_ff00) by (bit_vector);
    assert(b < 128 ==> b as i8 as i64 as u64 == b) by (bit_vector);
    assert(b >= 128 ==> b as i8 as i64 as u64 == b + 0xffff_ffff_ffff_ff00) by (bit_vector);
}

/// What the 64-bit hash comes to behind so many bytes.
pub open spec fn mixed64(s: Seq<u8>) -> u64
    decreases s.len(),
{
    if s.len() == 0 {
        14695981039346656037
    } else {
        (((mixed64(s.drop_last()) ^ (widened64(small(s.last())) as u64)) * 1099511628211)
            % 0x1_0000_0000_0000_0000) as u64
    }
}

/// What the name hash comes to behind so many bytes.
pub open spec fn mixed32(s: Seq<u8>) -> u32
    decreases s.len(),
{
    if s.len() == 0 {
        1268436527
    } else {
        (((mixed32(s.drop_last()) ^ (widened(s.last()) as u32)) * 16777619) % 0x1_0000_0000) as u32
    }
}

proof fn lemma_mixed(s: Seq<u8>)
    ensures
        s.fold_left(hashing::SEED64, |h: u64, b: u8| hashing::canon64_step(h, b)) == mixed64(s),
        s.fold_left(hashing::SEED32, |h: u32, b: u8| hashing::fnv_step(h, b)) == mixed32(s),
    decreases s.len(),
{
    if s.len() > 0 {
        lemma_mixed(s.drop_last());
        lemma_widened(s.last());
        lemma_widened(text::lower(s.last()));
    }
}

proof fn lemma_until_nul(s: Seq<u8>, rest: Seq<u8>)
    requires
        forall|i: int| 0 <= i < s.len() ==> s[i] != 0,
    ensures
        text::until_nul(s) == s,
        text::until_nul(s + seq![0u8] + rest) == s,
{
    text::lemma_find_from(s, 0, 0);
    let t = s + seq![0u8] + rest;
    text::lemma_find_from(t, 0, 0);
    assert(t[s.len() as int] == 0);
    let zero = text::find_from(t, 0, 0);
    if zero < s.len() {
        assert(t[zero] == s[zero]);
    }
    assert(t.take(zero) =~= s);
    assert(s.take(s.len() as int) =~= s);
}

/// The hash of a password is FNV-1a of its bytes in lower case, without the highest bit; the hash
/// of a name is FNV-1a with another start and one multiplication more. Both end at a NUL.
pub proof fn lemma_hashes(s: Seq<u8>, rest: Seq<u8>)
    requires
        forall|i: int| 0 <= i < s.len() ==> s[i] != 0,
    ensures
        hashing::canon_hash64_of(s) == mixed64(s) % 0x8000_0000_0000_0000,
        hashing::canon_hash64_of(s + seq![0u8] + rest) == mixed64(s) % 0x8000_0000_0000_0000,
        hashing::fnv1a_of(s) == (mixed32(s) * 16777619) % 0x1_0000_0000,
        hashing::fnv1a_of(s + seq![0u8] + rest) == (mixed32(s) * 16777619) % 0x1_0000_0000,
{
    lemma_until_nul(s, rest);
    lemma_mixed(s);
    let h = mixed64(s);
    assert(h & 0x7FFF_FFFF_FFFF_FFFF == h % 0x8000_0000_0000_0000) by (bit_vector);
}

/// One step of the script compiler's hash, and its end.
pub proof fn lemma_script_hash(hash: u32, b: u8)
    ensures
        ({
            let sum = ((hash + widened(small(b))) % 0x1_0000_0000) as u32;
            let mixed = sum ^ (((sum * 1024) % 0x1_0000_0000) as u32);
            hashing::canon_step(hash, b) == (mixed + mixed / 64) % 0x1_0000_0000
        }),
        ({
            let mixed = ((hash * 9) % 0x1_0000_0000) as u32;
            hashing::canon_finish(hash) == (0x8001 * (mixed ^ (mixed / 2048))) % 0x1_0000_0000
        }),
{
    lemma_widened(b);
    lemma_widened(text::lower(b));
    let sum = ((hash + widened(small(b))) % 0x1_0000_0000) as u32;
    assert(sum << 10 == ((sum * 1024) % 0x1_0000_0000) as u32) by (bit_vector);
    let mixed = sum ^ (((sum * 1024) % 0x1_0000_0000) as u32);
    assert(mixed >> 6 == mixed / 64) by (bit_vector);
    let end = ((hash * 9) % 0x1_0000_0000) as u32;
    assert(end >> 11 == end / 2048) by (bit_vector);
}

/// The script compiler's hash goes through a name step by step from its start, up to a NUL.
pub proof fn lemma_script_hash_of(s: Seq<u8>, rest: Seq<u8>)
    requires
        forall|i: int| 0 <= i < s.len() ==> s[i] != 0,
    ensures
        hashing::canon_hash_of(s) == hashing::canon_finish(
            s.fold_left(1268436527u32, |h: u32, b: u8| hashing::canon_step(h, b)),
        ),
        hashing::canon_hash_of(s + seq![0u8] + rest) == hashing::canon_hash_of(s),
{
    lemma_until_nul(s, rest);
}

/// A player may take any name of up to 15 bytes without a NUL, and no other.
pub proof fn lemma_names(name: Seq<u8>)
    ensures
        config::usable_name(name) <==> name.len() < 16 && forall|i: int|
            0 <= i < name.len() ==> name[i] != 0,
{
    if name.contains(0) {
        let i = choose|i: int| 0 <= i < name.len() && name[i] == 0;
        assert(name[i] == 0);
    }
}

/// Settings that are applied are in force: the filter at once, a usable name with NULs behind it,
/// and a password by its hash, none for an empty one. A name that cannot be used changes nothing.
pub proof fn lemma_applied(before: Live, after: Live, s: Settings, now: u64, i: int)
    requires
        config::applied(before, after, s, now),
        0 <= i < 16,
    ensures
        after.friends_only == s.friends_only,
        after.path == before.path,
        config::usable_name(s.name) ==> after.name@[i] == (if i < s.name.len() {
            s.name[i]
        } else {
            0
        }),
        !config::usable_name(s.name) ==> after.name@ == before.name@,
        s.password.len() == 0 ==> after.password@[1] == 0,
        s.password.len() > 0 ==> after.password@[1] == hashing::canon_hash64_of(s.password),
{
}

/// Whoever still has the password before is understood for a second and a half after the change.
/// Settings with the same password do not change when that ends.
pub proof fn lemma_change_of_password(
    before: Live,
    after: Live,
    s: Settings,
    now: u64,
    later: u64,
    checksum: u16,
)
    requires
        config::applied(before, after, s, now),
        later <= now + 1500,
    ensures
        before.password@[1] != after.password@[1] ==> hooks::checksum_accepted(
            checksum,
            hooks::sealed(checksum, before.password@[1]),
            after.password@,
            later,
        ),
        before.password@[1] == after.password@[1] ==> after.password@ == before.password@,
{
}

/// Only a file that could be read and differs, or lies elsewhere, is news.
pub proof fn lemma_news(contents: Seq<u8>, same_path: bool, file: Vec<u8>)
    ensures
        config::news(contents, same_path, Some(file)) <==> !same_path || !(file@ == contents),
        !config::news(contents, same_path, None),
{
}

/// Memory can be read if it is there and one of the protections 2, 4, 8, 32, 64 and 128 holds, and
/// run through if one of the last three does, but not if 1 or 256 is set as well.
pub proof fn lemma_protections(region: Region)
    ensures
        memory::allows(region, memory::READABLE) <==> region.committed && region.protect % 2 == 0 && (
        region.protect / 256) % 2 == 0 && (region.protect % 16 >= 2 || (region.protect / 32) % 8
            != 0),
        memory::allows(region, memory::EXECUTABLE) <==> region.committed && region.protect % 2 == 0
            && (region.protect / 256) % 2 == 0 && (region.protect / 32) % 8 != 0,
{
    let p = region.protect;
    assert((p & 0x101 == 0) == (p % 2 == 0 && (p / 256) % 2 == 0)) by (bit_vector);
    assert(p % 2 == 0 ==> (p & 0xEE != 0) == (p % 16 >= 2 || (p / 32) % 8 != 0)) by (bit_vector);
    assert((p & 0xE0 != 0) == ((p / 32) % 8 != 0)) by (bit_vector);
}

/// The search goes on behind a readable region, if that lies within memory and ahead.
pub proof fn lemma_next_region(cursor: u64, region: Region, next: u64)
    ensures
        memory::next_of(cursor, Some(region)) == Some(next) <==> memory::allows(
            region,
            memory::READABLE,
        ) && next == region.base + region.size && next > cursor,
        memory::next_of(cursor, None) is None,
{
}

/// A range may be read if it has an address and a size and ends within memory.
pub proof fn lemma_ranges(address: u64, size: u64, end: u64)
    ensures
        memory::range_end_of(address, size) == Some(end) <==> address > 0 && size > 0 && end
            == address + size,
{
}

/// A copy holds as many bytes as fit with a NUL behind them, never more than the buffer, and is
/// cut only if it has to be.
pub proof fn lemma_bounded(bytes: Seq<u8>, capacity: int, i: int)
    requires
        capacity > 0,
    ensures
        memory::bounded(bytes, capacity) is Some,
        ({
            let copy = memory::bounded(bytes, capacity)->Some_0;
            &&& copy.len() == (if bytes.len() + 1 <= capacity {
                bytes.len() as int + 1
            } else {
                capacity
            })
            &&& copy.last() == 0
            &&& 0 <= i < copy.len() - 1 ==> copy[i] == bytes[i]
        }),
        memory::bounded(bytes, 0) is None,
{
}

/// A string that ends soon enough is as long as its bytes before the NUL.
pub proof fn lemma_string(s: Seq<u8>, rest: Seq<u8>, limit: nat)
    requires
        forall|i: int| 0 <= i < s.len() ==> s[i] != 0,
    ensures
        memory::terminated_length(s + seq![0u8] + rest, limit) == (if s.len() < limit {
            Some(s.len() as int)
        } else {
            None
        }),
        memory::terminated_length(s, limit) is None,
{
    lemma_until_nul(s, rest);
    let t = s + seq![0u8] + rest;
    text::lemma_find_from(t, 0, 0);
    text::lemma_find_from(s, 0, 0);
    assert(t.take(text::find_from(t, 0, 0)).len() == s.len());
}

} // verus!
