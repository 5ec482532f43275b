//! The game's integrity checks: the code that compares, and what takes its place.
use crate::text;
use crate::text::{push_decimal, same_bytes};
use vstd::prelude::*;

verus! {

/// The code of a check that is looked for.
pub open spec fn pattern_of(i: int) -> Seq<u8> {
    if i == 0 {
        seq![0x8b, 0x0c, 0x8b, 0x33, 0x0c, 0x82]
    } else if i == 1 {
        seq![0x8b, 0x0c, 0x8b, 0xf7, 0xd9, 0x03, 0x0c, 0x82]
    } else {
        seq![0x8b, 0x04, 0x82, 0x8b, 0x14, 0x8b, 0x3b, 0xc2]
    }
}

/// The code that takes its place and finds no difference.
pub open spec fn replacement_of(i: int) -> Seq<u8> {
    if i == 0 {
        seq![0x48, 0x31, 0xc9, 0x90, 0x90, 0x90]
    } else if i == 1 {
        seq![0x48, 0x31, 0xc9, 0x90, 0x90, 0x90, 0x90, 0x90]
    } else {
        seq![0x48, 0x31, 0xc0, 0x48, 0x31, 0xd2]
    }
}

/// How often each check occurs in a game that was not patched.
pub open spec fn count_of(i: int) -> nat {
    if i < 2 {
        259
    } else {
        847
    }
}

pub fn pattern(i: usize) -> (r: Vec<u8>)
    requires
        i < 3,
    ensures
        r@ == pattern_of(i as int),
{
    let r: Vec<u8> = match i {
        0 => vec![0x8b, 0x0c, 0x8b, 0x33, 0x0c, 0x82],
        1 => vec![0x8b, 0x0c, 0x8b, 0xf7, 0xd9, 0x03, 0x0c, 0x82],
        _ => vec![0x8b, 0x04, 0x82, 0x8b, 0x14, 0x8b, 0x3b, 0xc2],
    };
    assert(r@ =~= pattern_of(i as int));
    r
}

pub fn replacement(i: usize) -> (r: Vec<u8>)
    requires
        i < 3,
    ensures
        r@ == replacement_of(i as int),
{
    let r: Vec<u8> = match i {
        0 => vec![0x48, 0x31, 0xc9, 0x90, 0x90, 0x90],
        1 => vec![0x48, 0x31, 0xc9, 0x90, 0x90, 0x90, 0x90, 0x90],
        _ => vec![0x48, 0x31, 0xc0, 0x48, 0x31, 0xd2],
    };
    assert(r@ =~= replacement_of(i as int));
    r
}

pub open spec fn occurs(s: Seq<u8>, p: Seq<u8>, i: int) -> bool {
    0 <= i && i + p.len() <= s.len() && s.subrange(i, i + p.len()) == p
}

/// Every index of `s` below `n` at which `p` occurs, in ascending order.
pub open spec fn occurrences(s: Seq<u8>, p: Seq<u8>, n: int) -> Seq<int>
    decreases n,
{
    if n <= 0 {
        seq![]
    } else if occurs(s, p, n - 1) {
        occurrences(s, p, n - 1).push(n - 1)
    } else {
        occurrences(s, p, n - 1)
    }
}

/// Finds a pattern in a stretch of code; overlapping occurrences count.
pub fn scan(code: &[u8], pattern: &[u8]) -> (r: Vec<usize>)
    requires
        pattern@.len() > 0,
    ensures
        r@.len() == occurrences(code@, pattern@, code@.len() as int).len(),
        forall|i: int|
            0 <= i < r@.len() ==> #[trigger] r@[i] == occurrences(
                code@,
                pattern@,
                code@.len() as int,
            )[i],
{
    let n: usize = code.len();
    let m: usize = pattern.len();
    let mut out: Vec<usize> = Vec::new();
    let mut i: usize = 0;
    while i < n
        invariant
            i <= n,
            n == code@.len(),
            m == pattern@.len(),
            out@.len() == occurrences(code@, pattern@, i as int).len(),
            forall|k: int|
                0 <= k < out@.len() ==> #[trigger] out@[k] == occurrences(
                    code@,
                    pattern@,
                    i as int,
                )[k],
        decreases n - i,
    {
        if m <= n - i {
            let part: &[u8] = vstd::slice::slice_subrange(code, i, i + m);
            if same_bytes(part, pattern) {
                out.push(i);
            }
        }
        i = i + 1;
    }
    out
}

/// The part of a section that is searched.
pub open spec fn code_range_of(
    flags: u32,
    rva: u32,
    size: u32,
    image_size: u32,
) -> Option<(u32, u32)> {
    if flags & 0x20000000 == 0 || rva >= image_size {
        None::<(u32, u32)>
    } else if size < image_size - rva {
        Some((rva, (rva + size) as u32))
    } else {
        Some((rva, image_size))
    }
}

/// The part of a section that is searched, relative to the image: code within the image.
pub fn code_range(flags: u32, rva: u32, size: u32, image_size: u32) -> (r: Option<(u32, u32)>)
    ensures
        r == code_range_of(flags, rva, size, image_size),
{
    if flags & 0x20000000 == 0 || rva >= image_size {
        None
    } else if size < image_size - rva {
        Some((rva, rva + size))
    } else {
        Some((rva, image_size))
    }
}

/// The counts from which on the game counts as patched.
pub open spec fn already_patched_of(first: usize, second: usize, third: usize) -> bool {
    first >= 518 && second >= 259 && third >= 847
}

/// Whether the game is patched already, by how often each replacement occurs.
pub fn already_patched(first: usize, second: usize, third: usize) -> (r: bool)
    ensures
        r == already_patched_of(first, second, third),
{
    first >= 518 && second >= 259 && third >= 847
}

/// The number of occurrences that is expected.
pub open spec fn check_count_ok(i: usize, found: usize) -> bool {
    found == count_of(i as int)
}

/// Checks that pattern `i` was found as often as the game is known to hold it.
pub fn check_count(i: usize, found: usize) -> (r: Result<(), String>)
    requires
        i < 3,
    ensures
        r is Ok <==> check_count_ok(i, found),
        r is Err ==> r->Err_0@ == "Arxan pattern "@ + text::decimal((i + 1) as nat) + ": expected "@
            + text::decimal(count_of(i as int)) + ", found "@ + text::decimal(found as nat),
{
    let expected: usize = if i < 2 {
        259
    } else {
        847
    };
    if found == expected {
        return Ok(());
    }
    let mut error = "Arxan pattern ".to_owned();
    push_decimal(&mut error, (i + 1) as u64);
    error.append(": expected ");
    push_decimal(&mut error, expected as u64);
    error.append(", found ");
    push_decimal(&mut error, found as u64);
    Err(error)
}

/// What maintenance finds at one patched place.
#[derive(Clone, Copy, Debug, PartialEq, Eq, Structural)]
pub enum Upkeep {
    /// It cannot be read: try again later.
    Stop,
    Keep,
    Reapply,
}

/// When a patch is looked at again.
pub open spec fn upkeep_due_of(waiting: bool, signal: Option<u64>) -> bool {
    waiting && match signal {
        Some(v) => v != 0,
        None => false,
    }
}

/// Whether maintenance has anything to do: once, after the game has signalled that it is up.
pub fn upkeep_due(waiting: bool, signal: Option<u64>) -> (r: bool)
    ensures
        r == upkeep_due_of(waiting, signal),
{
    match signal {
        Some(v) => waiting && v != 0,
        None => false,
    }
}

/// What becomes of a patch that is looked at again.
pub open spec fn upkeep_of(current: Option<&[u8]>, replacement: &[u8]) -> Upkeep {
    match current {
        None => Upkeep::Stop,
        Some(bytes) => if bytes@ == replacement@ {
            Upkeep::Keep
        } else {
            Upkeep::Reapply
        },
    }
}

pub fn upkeep(current: Option<&[u8]>, replacement: &[u8]) -> (r: Upkeep)
    ensures
        r == upkeep_of(current, replacement),
{
    match current {
        None => Upkeep::Stop,
        Some(bytes) => if same_bytes(bytes, replacement) {
            Upkeep::Keep
        } else {
            Upkeep::Reapply
        },
    }
}

/// How maintenance goes through the patched places.
#[derive(Clone, Copy, Debug, PartialEq, Eq, Structural)]
pub enum UpkeepStep {
    Look { index: usize },
    /// Every patch is in place: there is nothing more to do.
    Finished,
    /// Start again another time.
    Later,
}

/// The step that starts with the patch at `index`, if there is one.
pub open spec fn upkeep_from(index: int, patches: usize) -> UpkeepStep {
    if index < patches {
        UpkeepStep::Look { index: index as usize }
    } else {
        UpkeepStep::Finished
    }
}

/// Whether a place holds its patch in the end: it did, or the patch was applied anew.
pub open spec fn in_place(found: Upkeep, applied: bool) -> bool {
    found == Upkeep::Keep || (found == Upkeep::Reapply && applied)
}

pub fn upkeep_first(patches: usize) -> (r: UpkeepStep)
    ensures
        r == upkeep_from(0, patches),
{
    if patches > 0 {
        UpkeepStep::Look { index: 0 }
    } else {
        UpkeepStep::Finished
    }
}

/// What comes after the place at `index`, by what was found there and whether the patch was
/// applied anew.
pub fn upkeep_next(index: usize, patches: usize, found: Upkeep, applied: bool) -> (r: UpkeepStep)
    requires
        index < patches,
    ensures
        r == (if in_place(found, applied) {
            upkeep_from(index + 1, patches)
        } else {
            UpkeepStep::Later
        }),
{
    let settled: bool = match found {
        Upkeep::Stop => false,
        Upkeep::Keep => true,
        Upkeep::Reapply => applied,
    };
    if !settled {
        UpkeepStep::Later
    } else if index + 1 < patches {
        UpkeepStep::Look { index: index + 1 }
    } else {
        UpkeepStep::Finished
    }
}

/// The step after the first `outcomes.len()` places were looked at.
pub open spec fn upkeep_steps(patches: usize, outcomes: Seq<(Upkeep, bool)>) -> UpkeepStep
    decreases outcomes.len(),
{
    if outcomes.len() == 0 {
        upkeep_from(0, patches)
    } else {
        match upkeep_steps(patches, outcomes.drop_last()) {
            UpkeepStep::Look { index } => if in_place(outcomes.last().0, outcomes.last().1) {
                upkeep_from(index + 1, patches)
            } else {
                UpkeepStep::Later
            },
            step => step,
        }
    }
}

/// Maintenance is finished after all places were looked at if and only if each holds its patch.
pub proof fn lemma_upkeep_is_complete(patches: usize, outcomes: Seq<(Upkeep, bool)>)
    requires
        outcomes.len() <= patches,
    ensures
        upkeep_steps(patches, outcomes) == (if forall|i: int|
            0 <= i < outcomes.len() ==> in_place((#[trigger] outcomes[i]).0, outcomes[i].1) {
            upkeep_from(outcomes.len() as int, patches)
        } else {
            UpkeepStep::Later
        }),
    decreases outcomes.len(),
{
    if outcomes.len() > 0 {
        let before = outcomes.drop_last();
        lemma_upkeep_is_complete(patches, before);
        assert forall|i: int| 0 <= i < before.len() implies #[trigger] before[i] == outcomes[i] by {}
        if forall|i: int| 0 <= i < before.len() ==> in_place((#[trigger] before[i]).0, before[i].1) {
            assert forall|i: int| 0 <= i < outcomes.len() - 1 implies in_place(
                (#[trigger] outcomes[i]).0,
                outcomes[i].1,
            ) by {
                assert(before[i] == outcomes[i]);
            }
            assert(outcomes.last() == outcomes[outcomes.len() - 1]);
        } else {
            let i = choose|i: int|
                0 <= i < before.len() && !in_place((#[trigger] before[i]).0, before[i].1);
            assert(before[i] == outcomes[i]);
        }
    }
}

/// No replacement holds a pattern, and none is longer than the pattern it takes the place of. A
/// place that was patched is not found again, whatever follows it there.
pub proof fn lemma_replacements_hold_no_pattern(i: int, j: int, code: Seq<u8>, at: int)
    requires
        0 <= i < 3,
        0 <= j < 3,
    ensures
        replacement_of(i).len() <= pattern_of(i).len(),
        forall|k: int| !occurs(replacement_of(i), pattern_of(j), k),
        occurs(code, replacement_of(i), at) ==> !occurs(code, pattern_of(j), at),
{
    let r = replacement_of(i);
    let p = pattern_of(j);
    assert forall|k: int| !occurs(r, p, k) by {
        if occurs(r, p, k) {
            assert(r.subrange(k, k + p.len())[0] == r[k]);
            assert(p[0] == 0x8b);
            assert(k <= 2);
        }
    }
    if occurs(code, r, at) && occurs(code, p, at) {
        assert(code.subrange(at, at + r.len())[0] == code[at]);
        assert(code.subrange(at, at + p.len())[0] == code[at]);
    }
}

/// The steps in which the checks are patched.
#[derive(Clone, Copy, Debug, PartialEq, Eq, Structural)]
pub enum IntegrityStep {
    Apply { index: usize },
    /// Takes a patch back, after one could not be applied.
    Restore { index: usize },
    Installed,
    Failed,
}

/// What comes after `step` of `patches`: one patch after the other is applied. The first that
/// fails is taken back and then all before it, whatever comes of that.
pub open spec fn integrity_after(step: IntegrityStep, patches: usize, ok: bool) -> IntegrityStep {
    match step {
        IntegrityStep::Apply { index } => if !ok {
            IntegrityStep::Restore { index }
        } else if index + 1 < patches {
            IntegrityStep::Apply { index: (index + 1) as usize }
        } else {
            IntegrityStep::Installed
        },
        IntegrityStep::Restore { index } => if index > 0 {
            IntegrityStep::Restore { index: (index - 1) as usize }
        } else {
            IntegrityStep::Failed
        },
        step => step,
    }
}

/// The patching of the checks under way.
#[derive(Debug)]
pub struct IntegrityWork {
    pub step: IntegrityStep,
    pub patches: usize,
}

impl IntegrityWork {
    /// A step names a patch that there is.
    pub open spec fn wf(self) -> bool {
        match self.step {
            IntegrityStep::Apply { index } => index < self.patches,
            IntegrityStep::Restore { index } => index < self.patches,
            _ => true,
        }
    }

    pub fn new(patches: usize) -> (r: Self)
        ensures
            r.wf(),
            r.patches == patches,
            r.step == (if patches > 0 {
                IntegrityStep::Apply { index: 0 }
            } else {
                IntegrityStep::Installed
            }),
    {
        IntegrityWork {
            step: if patches > 0 {
                IntegrityStep::Apply { index: 0 }
            } else {
                IntegrityStep::Installed
            },
            patches,
        }
    }

    /// Takes the outcome of the current step and gives the next.
    pub fn done(&mut self, ok: bool) -> (next: IntegrityStep)
        requires
            old(self).wf(),
        ensures
            final(self).wf(),
            final(self).patches == old(self).patches,
            final(self).step == integrity_after(old(self).step, old(self).patches, ok),
            next == final(self).step,
    {
        let next: IntegrityStep = match self.step {
            IntegrityStep::Apply { index } => if !ok {
                IntegrityStep::Restore { index }
            } else if index + 1 < self.patches {
                IntegrityStep::Apply { index: index + 1 }
            } else {
                IntegrityStep::Installed
            },
            IntegrityStep::Restore { index } => if index > 0 {
                IntegrityStep::Restore { index: index - 1 }
            } else {
                IntegrityStep::Failed
            },
            step => step,
        };
        self.step = next;
        next
    }
}

/// The step that a series of outcomes leads to.
pub open spec fn integrity_steps(step: IntegrityStep, patches: usize, outcomes: Seq<bool>) -> IntegrityStep
    decreases outcomes.len(),
{
    if outcomes.len() == 0 {
        step
    } else {
        integrity_after(
            integrity_steps(step, patches, outcomes.drop_last()),
            patches,
            outcomes.last(),
        )
    }
}

/// After patch `index` failed, it and every patch before it are taken back, the last one first,
/// and then the patching has failed: none is left out, whatever the outcomes.
pub proof fn lemma_failure_takes_all_back(index: usize, patches: usize, outcomes: Seq<bool>)
    requires
        index < patches,
        outcomes.len() <= index + 1,
    ensures
        integrity_steps(IntegrityStep::Restore { index }, patches, outcomes) == (if outcomes.len()
            <= index {
            IntegrityStep::Restore { index: (index - outcomes.len()) as usize }
        } else {
            IntegrityStep::Failed
        }),
    decreases outcomes.len(),
{
    if outcomes.len() > 0 {
        lemma_failure_takes_all_back(index, patches, outcomes.drop_last());
    }
}

} // verus!
