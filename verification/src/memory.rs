//! Replaced bytes of the game, and which of its memory can be read.
use crate::text;
use crate::text::same_bytes;
use vstd::prelude::*;

verus! {

/// Bytes of the game that are to be replaced, with what they were before.
#[derive(Debug)]
pub struct Patch {
    pub address: u64,
    pub original: Vec<u8>,
    pub replacement: Vec<u8>,
}

/// A patch was prepared.
pub open spec fn was_prepared(
    address: u64,
    current: Option<Vec<u8>>,
    replacement: Seq<u8>,
    r: Result<Patch, String>,
) -> bool {
    &&& match current {
        Some(bytes) => if bytes@.len() == replacement.len() {
            r is Ok && r->Ok_0.address == address && r->Ok_0.original@ == bytes@
                && r->Ok_0.replacement@ == replacement && r->Ok_0.wf()
        } else {
            r is Err
        },
        None => r is Err,
    }
    &&& r is Err ==> r->Err_0@ == "Invalid patch address 0x"@ + text::hex(address as nat)
}

/// The game holds a patch.
pub open spec fn in_place(replacement: Seq<u8>, current: Option<&[u8]>, r: bool) -> bool {
    r == (match current {
        Some(bytes) => bytes@ == replacement,
        None => false,
    })
}

impl Patch {
    pub open spec fn wf(self) -> bool {
        self.original@.len() == self.replacement@.len()
    }

    /// A patch on the bytes `current` at `address`, if they could all be read.
    pub fn prepare(address: u64, current: Option<Vec<u8>>, replacement: Vec<u8>) -> (r: Result<
        Self,
        String,
    >)
        ensures
            was_prepared(address, current, replacement@, r),
    {
        match current {
            Some(bytes) => if bytes.len() == replacement.len() {
                return Ok(Patch { address, original: bytes, replacement });
            },
            None => {},
        }
        let mut error = "Invalid patch address 0x".to_owned();
        text::push_hex(&mut error, address);
        Err(error)
    }

    /// Whether the game holds this patch's own bytes; only those are ever taken back.
    pub fn owned(&self, current: Option<&[u8]>) -> (r: bool)
        ensures
            in_place(self.replacement@, current, r),
    {
        match current {
            Some(bytes) => same_bytes(bytes, self.replacement.as_slice()),
            None => false,
        }
    }
}

/// What a patch is, apart from where its bytes are held.
#[verifier::ext_equal]
pub struct Change {
    pub address: int,
    pub original: Seq<u8>,
    pub replacement: Seq<u8>,
}

impl View for Patch {
    type V = Change;

    open spec fn view(&self) -> Change {
        Change {
            address: self.address as int,
            original: self.original@,
            replacement: self.replacement@,
        }
    }
}

/// Memory after `bytes` were written to `at`.
pub open spec fn written(m: Map<int, u8>, at: int, bytes: Seq<u8>) -> Map<int, u8> {
    Map::new(
        |a: int| m.contains_key(a) || at <= a < at + bytes.len(),
        |a: int|
            if at <= a < at + bytes.len() {
                bytes[a - at]
            } else {
                m[a]
            },
    )
}

/// Whether memory holds `bytes` at `at`.
pub open spec fn holds(m: Map<int, u8>, at: int, bytes: Seq<u8>) -> bool {
    forall|a: int|
        at <= a < at + bytes.len() ==> m.contains_key(a) && #[trigger] m[a] == bytes[a - at]
}

/// Memory after the patches were applied in their order.
pub open spec fn applied(m: Map<int, u8>, patches: Seq<Change>) -> Map<int, u8>
    decreases patches.len(),
{
    if patches.len() == 0 {
        m
    } else {
        let p = patches.last();
        written(applied(m, patches.drop_last()), p.address, p.replacement)
    }
}

/// Memory after the patches were taken back from the last to the first, each only where its own
/// bytes stand.
pub open spec fn restored(m: Map<int, u8>, patches: Seq<Change>) -> Map<int, u8>
    decreases patches.len(),
{
    if patches.len() == 0 {
        m
    } else {
        let p = patches.last();
        let next = if holds(m, p.address, p.replacement) {
            written(m, p.address, p.original)
        } else {
            m
        };
        restored(next, patches.drop_last())
    }
}

/// Patches that were all prepared on the same memory and do not overlap.
pub open spec fn prepared(m: Map<int, u8>, patches: Seq<Change>) -> bool {
    &&& forall|i: int|
        0 <= i < patches.len() ==> (#[trigger] patches[i]).original.len()
            == patches[i].replacement.len() && holds(m, patches[i].address, patches[i].original)
    &&& forall|i: int, j: int|
        0 <= i < j < patches.len() ==> apart(#[trigger] patches[i], #[trigger] patches[j])
}

pub open spec fn apart(a: Change, b: Change) -> bool {
    a.address + a.original.len() <= b.address || b.address + b.original.len() <= a.address
}

proof fn lemma_outside(m: Map<int, u8>, patches: Seq<Change>, at: int)
    requires
        prepared(m, patches),
        forall|i: int|
            0 <= i < patches.len() ==> !((#[trigger] patches[i]).address <= at < patches[i].address
                + patches[i].original.len()),
    ensures
        applied(m, patches).contains_key(at) == m.contains_key(at),
        m.contains_key(at) ==> applied(m, patches)[at] == m[at],
    decreases patches.len(),
{
    if patches.len() > 0 {
        let rest = patches.drop_last();
        lemma_prepared_prefix(m, patches);
        assert forall|i: int| 0 <= i < rest.len() implies !((#[trigger] rest[i]).address <= at
            < rest[i].address + rest[i].original.len()) by {
            assert(rest[i] == patches[i]);
        }
        lemma_outside(m, rest, at);
        assert(patches[patches.len() - 1] == patches.last());
    }
}

proof fn lemma_prepared_prefix(m: Map<int, u8>, patches: Seq<Change>)
    requires
        prepared(m, patches),
        patches.len() > 0,
    ensures
        prepared(m, patches.drop_last()),
{
    let rest = patches.drop_last();
    assert forall|i: int| 0 <= i < rest.len() implies (#[trigger] rest[i]).original.len()
        == rest[i].replacement.len() && holds(m, rest[i].address, rest[i].original) by {
        assert(rest[i] == patches[i]);
    }
    assert forall|i: int, j: int| 0 <= i < j < rest.len() implies apart(
        #[trigger] rest[i],
        #[trigger] rest[j],
    ) by {
        assert(rest[i] == patches[i] && rest[j] == patches[j]);
    }
}

/// Taking all patches back leaves the game as it was before the first of them was applied.
pub proof fn lemma_restore_undoes_apply(m: Map<int, u8>, patches: Seq<Change>)
    requires
        prepared(m, patches),
    ensures
        restored(applied(m, patches), patches) == m,
    decreases patches.len(),
{
    if patches.len() > 0 {
        let p = patches.last();
        let rest = patches.drop_last();
        let before = applied(m, rest);
        let after = applied(m, patches);
        lemma_prepared_prefix(m, patches);
        assert(patches[patches.len() - 1] == p);
        assert(holds(after, p.address, p.replacement));
        assert(holds(m, p.address, p.original));
        let back = written(after, p.address, p.original);
        assert forall|a: int| #[trigger]
            back.contains_key(a) == before.contains_key(a) && (before.contains_key(a) ==> back[a]
                == before[a]) by {
            if p.address <= a < p.address + p.original.len() {
                assert(m[a] == p.original[a - p.address]);
                assert forall|k: int| 0 <= k < rest.len() implies !((#[trigger] rest[k]).address
                    <= a < rest[k].address + rest[k].original.len()) by {
                    assert(rest[k] == patches[k]);
                    assert(apart(patches[k], patches[patches.len() - 1]));
                }
                lemma_outside(m, rest, a);
            }
        }
        assert(back.dom() =~= before.dom());
        assert(back =~= before);
        lemma_restore_undoes_apply(m, rest);
    }
}

/// A stretch of the address space with one protection.
#[derive(Clone, Copy, Debug, PartialEq, Eq, Structural)]
pub struct Region {
    pub base: u64,
    pub size: u64,
    pub committed: bool,
    pub protect: u32,
}

pub const PAGE_NOACCESS: u32 = 0x01;
pub const PAGE_GUARD: u32 = 0x100;
/// Every protection that lets data be read.
pub const READABLE: u32 = 0xEE;
/// Every protection that lets code be read and run.
pub const EXECUTABLE: u32 = 0xE0;

pub open spec fn allows(region: Region, protections: u32) -> bool {
    region.committed && region.protect & 0x101 == 0 && region.protect & protections != 0
}

/// Whether a region can be accessed in one of the ways `protections` names.
pub fn accessible(region: &Region, protections: u32) -> (r: bool)
    ensures
        r == allows(*region, protections),
{
    region.committed && region.protect & 0x101 == 0 && region.protect & protections != 0
}

/// Where to look on, behind a region that can be read; `None` if it cannot, or does not lie
/// around `cursor`.
pub open spec fn next_of(cursor: u64, region: Option<Region>) -> Option<u64> {
    match region {
        Some(region) => if allows(region, READABLE) && region.base + region.size <= u64::MAX
            && region.base + region.size > cursor {
            Some((region.base + region.size) as u64)
        } else {
            None
        },
        None => None,
    }
}

pub fn next_readable(cursor: u64, region: Option<Region>) -> (r: Option<u64>)
    ensures
        r == next_of(cursor, region),
{
    match region {
        Some(region) => if accessible(&region, READABLE) {
            match region.base.checked_add(region.size) {
                Some(next) => if next > cursor {
                    Some(next)
                } else {
                    None
                },
                None => None,
            }
        } else {
            None
        },
        None => None,
    }
}

/// The end of a range.
pub open spec fn range_end_of(address: u64, size: u64) -> Option<u64> {
    if address == 0 || size == 0 || address + size > u64::MAX {
        None::<u64>
    } else {
        Some((address + size) as u64)
    }
}

/// The end of a range of memory that a read may ask for: it is not empty and lies within the
/// address space.
pub fn range_end(address: u64, size: u64) -> (r: Option<u64>)
    ensures
        r == range_end_of(address, size),
{
    if address == 0 || size == 0 {
        return None;
    }
    address.checked_add(size)
}

/// The head of `bytes` that fits a buffer, with its NUL.
pub open spec fn bounded(bytes: Seq<u8>, capacity: int) -> Option<Seq<u8>> {
    if capacity <= 0 {
        None
    } else {
        Some(
            (if bytes.len() < capacity {
                bytes
            } else {
                bytes.take(capacity - 1)
            }).push(0),
        )
    }
}

/// What is copied into a game buffer of `capacity` bytes: as much as leaves room for a NUL.
pub fn bounded_copy(bytes: &[u8], capacity: usize) -> (r: Option<Vec<u8>>)
    ensures
        match bounded(bytes@, capacity as int) {
            Some(copy) => r is Some && r->Some_0@ == copy,
            None => r is None,
        },
{
    if capacity == 0 {
        return None;
    }
    let n: usize = if bytes.len() < capacity {
        bytes.len()
    } else {
        capacity - 1
    };
    let head: &[u8] = vstd::slice::slice_subrange(bytes, 0, n);
    let mut out: Vec<u8> = vstd::slice::slice_to_vec(head);
    out.push(0);
    assert(head@ =~= (if bytes@.len() < capacity {
        bytes@
    } else {
        bytes@.take(capacity - 1)
    }));
    Some(out)
}

/// The length of the string that `bytes` starts with: a NUL must follow within the first `limit`
/// bytes.
pub open spec fn terminated_length(bytes: Seq<u8>, limit: nat) -> Option<int> {
    let n = text::find_from(bytes, 0, 0);
    if n < bytes.len() && n < limit {
        Some(n)
    } else {
        None
    }
}

pub fn terminated(bytes: &[u8], limit: usize) -> (r: Option<usize>)
    ensures
        match terminated_length(bytes@, limit as nat) {
            Some(n) => r is Some && r->Some_0 == n && n < bytes@.len(),
            None => r is None,
        },
{
    let n: usize = text::find_byte(bytes, 0, 0);
    if n < bytes.len() && n < limit {
        Some(n)
    } else {
        None
    }
}

/// The search for the end of a string of less than a given number of bytes, which may lie in
/// several regions.
#[derive(Clone, Copy, Debug, PartialEq, Eq, Structural)]
pub struct StringScan {
    pub start: u64,
    pub end: u64,
    pub cursor: u64,
}

/// How far the string can be read in the region around the cursor; `None` if not at all.
pub open spec fn stretch_of(s: StringScan, region: Option<Region>) -> Option<u64> {
    match next_of(s.cursor, region) {
        Some(next) => Some(
            if next < s.end {
                next
            } else {
                s.end
            },
        ),
        None => None,
    }
}

/// How a search for the end of a string starts.
pub open spec fn scan_starts(address: u64, limit: u64, r: Option<StringScan>) -> bool {
    &&& r is Some <==> address != 0 && address + limit <= u64::MAX
    &&& r is Some ==> r->Some_0.wf() && r->Some_0 == (StringScan {
        start: address,
        end: (address + limit) as u64,
        cursor: address,
    })
}

/// Bytes of a string were looked at.
pub open spec fn scanned(
    before: StringScan,
    after: StringScan,
    bytes: Seq<u8>,
    r: Option<u64>,
) -> bool {
    &&& after.start == before.start
    &&& after.end == before.end
    &&& match terminated_length(bytes, bytes.len()) {
        Some(n) => {
            &&& r == Some((before.cursor - before.start + n) as u64)
            &&& after.cursor == before.cursor
        },
        None => r is None && after.cursor == before.cursor + bytes.len(),
    }
}

impl StringScan {
    pub open spec fn wf(self) -> bool {
        self.start <= self.cursor <= self.end
    }

    /// Starts at `address`; `None` if there can be no string of less than `limit` bytes.
    pub fn new(address: u64, limit: u64) -> (r: Option<Self>)
        ensures
            scan_starts(address, limit, r),
    {
        if address == 0 {
            return None;
        }
        match address.checked_add(limit) {
            Some(end) => Some(StringScan { start: address, end, cursor: address }),
            None => None,
        }
    }

    /// Whether every byte that the string may have was looked at.
    pub fn exhausted(&self) -> (r: bool)
        ensures
            r == (self.cursor >= self.end),
    {
        self.cursor >= self.end
    }

    pub fn stretch(&self, region: Option<Region>) -> (r: Option<u64>)
        requires
            self.wf(),
            self.cursor < self.end,
        ensures
            r == stretch_of(*self, region),
            r is Some ==> self.cursor < r->Some_0 <= self.end,
    {
        match next_readable(self.cursor, region) {
            Some(next) => if next < self.end {
                Some(next)
            } else {
                Some(self.end)
            },
            None => None,
        }
    }

    /// Takes the bytes at the cursor: the length of the string if it ends among them.
    pub fn take(&mut self, bytes: &[u8]) -> (r: Option<u64>)
        requires
            old(self).wf(),
            bytes@.len() <= old(self).end - old(self).cursor,
        ensures
            final(self).wf(),
            scanned(*old(self), *final(self), bytes@, r),
    {
        match terminated(bytes, bytes.len()) {
            Some(n) => Some(self.cursor - self.start + n as u64),
            None => {
                self.cursor = self.cursor + bytes.len() as u64;
                None
            },
        }
    }
}

/// However the regions cut a string, its length is found where looking at the whole finds it.
pub proof fn lemma_cuts_do_not_matter(head: Seq<u8>, rest: Seq<u8>)
    requires
        terminated_length(head, head.len()) is None,
    ensures
        terminated_length(head + rest, (head + rest).len()) == match terminated_length(
            rest,
            rest.len(),
        ) {
            Some(n) => Some(head.len() + n),
            None => None::<int>,
        },
{
    text::lemma_find_from(head, 0, 0);
    text::lemma_find_after(head, rest, 0, 0);
}

} // verus!
