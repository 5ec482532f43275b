//! Samples of readers with a fault, for the journal. They hold no payload, no address and nothing
//! that tells a player.
use crate::hooks;
use crate::packets;
use crate::packets::{descriptor_fault, Fault};
use crate::structs::Msg;
use crate::text;
use crate::text::{push_decimal, same_bytes};
use vstd::prelude::*;

verus! {

/// How many samples are kept between two reports.
pub const SLOTS: usize = 20;

/// Where a reader was looked at.
#[derive(Clone, Copy, Debug, PartialEq, Eq, Structural)]
pub enum Stage {
    /// Behind the game's own reading of a connectionless command.
    Connectionless,
    /// Before a lobby message is inspected.
    Lobby,
    /// Before the payload of an instant message is read.
    Instant,
}

/// What is wrong with a reader.
#[derive(Clone, Copy, Debug, PartialEq, Eq, Structural)]
pub enum Reason {
    /// It cannot be read itself.
    Descriptor,
    /// A buffer that it names cannot be read.
    Memory,
    Overflowed,
    Size,
    Buffer,
    Address,
    Cursor,
    Bit,
}

/// A reader with a fault; `msg` is missing where it could not be read.
#[derive(Clone, Copy, Debug)]
pub struct Sample {
    pub stage: Stage,
    pub reason: Reason,
    pub command: &'static str,
    pub msg: Option<Msg>,
}

pub open spec fn reason_for(fault: Fault) -> Reason {
    match fault {
        Fault::Overflowed => Reason::Overflowed,
        Fault::Size => Reason::Size,
        Fault::Buffer => Reason::Buffer,
        Fault::Address => Reason::Address,
        Fault::Cursor => Reason::Cursor,
        Fault::Bit => Reason::Bit,
    }
}

/// Why nothing is read through `msg`, of whose buffers `primary` and `split` say whether they can
/// be read. An empty buffer needs not.
pub open spec fn reason_of(msg: Option<Msg>, primary: bool, split: bool) -> Option<Reason> {
    match msg {
        None => Some(Reason::Descriptor),
        Some(m) => match packets::fault_of(m) {
            Some(fault) => Some(reason_for(fault)),
            None => if (m.cur_size > 0 && !primary) || (m.split_size > 0 && !split) {
                Some(Reason::Memory)
            } else {
                None
            },
        },
    }
}

/// Checks a reader and its buffers before the game reads through it.
pub fn fault(msg: Option<Msg>, primary: bool, split: bool) -> (r: Option<Reason>)
    ensures
        r == reason_of(msg, primary, split),
{
    let m: Msg = match msg {
        None => return Some(Reason::Descriptor),
        Some(m) => m,
    };
    match descriptor_fault(&m) {
        Some(Fault::Overflowed) => Some(Reason::Overflowed),
        Some(Fault::Size) => Some(Reason::Size),
        Some(Fault::Buffer) => Some(Reason::Buffer),
        Some(Fault::Address) => Some(Reason::Address),
        Some(Fault::Cursor) => Some(Reason::Cursor),
        Some(Fault::Bit) => Some(Reason::Bit),
        None => if (m.cur_size > 0 && !primary) || (m.split_size > 0 && !split) {
            Some(Reason::Memory)
        } else {
            None
        },
    }
}

/// The stages at which a fault stops something.
pub open spec fn rejects_of(stage: Stage) -> bool {
    stage != Stage::Connectionless
}

/// Whether a fault at this stage stops anything. The game has already read its command where it
/// dispatches one, so there it is only looked at.
pub fn rejects(stage: Stage) -> (r: bool)
    ensures
        r == rejects_of(stage),
{
    match stage {
        Stage::Connectionless => false,
        _ => true,
    }
}

fn named(command: &[u8], name: &'static str, other: &'static str) -> (r: &'static str)
    ensures
        r@ == (if command@ == text::utf8(name@) {
            name@
        } else {
            other@
        }),
{
    if same_bytes(command, name.as_bytes()) {
        name
    } else {
        other
    }
}

/// The name under which a command stands in a sample: its own if it is one that a client may
/// receive. What a peer made up is never written down.
pub fn command_label(command: &[u8]) -> (r: &'static str)
    ensures
        hooks::legitimate(command@) ==> text::utf8(r@) == command@,
        !hooks::legitimate(command@) ==> r@ == "other"@,
{
    let label: &'static str = named(command, "connectResponse", "other");
    let label: &'static str = named(command, "statresponse", label);
    let label: &'static str = named(command, "LM", label);
    let label: &'static str = named(command, "disconnect", label);
    let label: &'static str = named(command, "loadoutResponse", label);
    let label: &'static str = named(command, "infoResponse", label);
    let label: &'static str = named(command, "statusResponse", label);
    let label: &'static str = named(command, "keyAuthorize", label);
    let label: &'static str = named(command, "error", label);
    let label: &'static str = named(command, "print", label);
    let label: &'static str = named(command, "fastrestart", label);
    let label: &'static str = named(command, "ping", label);
    let label: &'static str = named(command, "pinga", label);
    let label: &'static str = named(command, "steamAuthReq", label);
    named(command, "cfl", label)
}

pub open spec fn stage_name(stage: Stage) -> Seq<char> {
    match stage {
        Stage::Connectionless => "connectionless-post-command action=observe"@,
        Stage::Lobby => "lobby-pre-read action=reject"@,
        Stage::Instant => "instant-pre-read action=reject"@,
    }
}

fn stage_text(stage: Stage) -> (r: &'static str)
    ensures
        r@ == stage_name(stage),
{
    match stage {
        Stage::Connectionless => "connectionless-post-command action=observe",
        Stage::Lobby => "lobby-pre-read action=reject",
        Stage::Instant => "instant-pre-read action=reject",
    }
}

pub open spec fn reason_name(reason: Reason) -> Seq<char> {
    match reason {
        Reason::Descriptor => "Descriptor"@,
        Reason::Memory => "Memory"@,
        Reason::Overflowed => "Overflowed"@,
        Reason::Size => "Size"@,
        Reason::Buffer => "Buffer"@,
        Reason::Address => "Address"@,
        Reason::Cursor => "Cursor"@,
        Reason::Bit => "Bit"@,
    }
}

fn reason_text(reason: Reason) -> (r: &'static str)
    ensures
        r@ == reason_name(reason),
{
    match reason {
        Reason::Descriptor => "Descriptor",
        Reason::Memory => "Memory",
        Reason::Overflowed => "Overflowed",
        Reason::Size => "Size",
        Reason::Buffer => "Buffer",
        Reason::Address => "Address",
        Reason::Cursor => "Cursor",
        Reason::Bit => "Bit",
    }
}

/// The numbers of a reader as a sample shows them.
pub open spec fn numbers_of(msg: Option<Msg>) -> Seq<char> {
    match msg {
        None => "metadata=unavailable"@,
        Some(m) => "overflowed="@ + text::decimal(m.overflowed as nat) + " capacity="@
            + text::decimal(m.max_size as nat) + " cursize="@ + text::decimal(m.cur_size as nat)
            + " split="@ + text::decimal(m.split_size as nat) + " readcount="@ + text::decimal(
            m.read_count as nat,
        ) + " bit="@ + hooks::signed_decimal(m.bit as int),
    }
}

fn signed(n: i32) -> (r: String)
    ensures
        r@ == hooks::signed_decimal(n as int),
{
    if n < 0 {
        let mut out = "-".to_owned();
        push_decimal(&mut out, (0 - n as i64) as u64);
        assert(out@ =~= hooks::signed_decimal(n as int));
        out
    } else {
        let mut out = "".to_owned();
        proof {
            reveal_strlit("");
        }
        push_decimal(&mut out, n as u64);
        assert(out@ =~= hooks::signed_decimal(n as int));
        out
    }
}

fn numbers(msg: Option<Msg>) -> (r: String)
    ensures
        r@ == numbers_of(msg),
{
    match msg {
        None => "metadata=unavailable".to_owned(),
        Some(m) => {
            let mut out = "overflowed=".to_owned();
            push_decimal(&mut out, m.overflowed as u64);
            out.append(" capacity=");
            push_decimal(&mut out, m.max_size as u64);
            out.append(" cursize=");
            push_decimal(&mut out, m.cur_size as u64);
            out.append(" split=");
            push_decimal(&mut out, m.split_size as u64);
            out.append(" readcount=");
            push_decimal(&mut out, m.read_count as u64);
            out.append(" bit=");
            let bit: String = signed(m.bit);
            out.append(bit.as_str());
            out
        },
    }
}

/// A sample as it stands in the journal.
pub open spec fn line_of(s: Sample) -> Seq<char> {
    "reader-diagnostic stage="@ + stage_name(s.stage) + " reason="@ + reason_name(s.reason)
        + " command="@ + s.command@ + " "@ + numbers_of(s.msg)
}

fn line(s: &Sample) -> (r: String)
    ensures
        r@ == line_of(*s),
{
    let mut out = "reader-diagnostic stage=".to_owned();
    out.append(stage_text(s.stage));
    out.append(" reason=");
    out.append(reason_text(s.reason));
    out.append(" command=");
    out.append(s.command);
    out.append(" ");
    let tail: String = numbers(s.msg);
    out.append(tail.as_str());
    out
}

/// The samples since the last report.
#[derive(Debug)]
pub struct Samples {
    pub held: Vec<Sample>,
}

/// Whether a sample of this stage and reason is among `held`.
pub open spec fn taken(held: Seq<Sample>, stage: Stage, reason: Reason) -> bool {
    exists|i: int| 0 <= i < held.len() && #[trigger] held[i].stage == stage && held[i].reason
        == reason
}

/// A sample was offered.
pub open spec fn noted(
    before: Seq<Sample>,
    after: Seq<Sample>,
    sample: Sample,
    kept: bool,
) -> bool {
    &&& kept == (before.len() < SLOTS && !taken(
        before,
        sample.stage,
        sample.reason,
    ))
    &&& after == (if kept {
        before.push(sample)
    } else {
        before
    })
}

impl Samples {
    /// There is room for what is held, and nothing is held twice.
    pub open spec fn wf(self) -> bool {
        &&& self.held@.len() <= SLOTS
        &&& forall|i: int, j: int|
            #![trigger self.held@[i], self.held@[j]]
            0 <= i < j < self.held@.len() ==> self.held@[i].stage != self.held@[j].stage
                || self.held@[i].reason != self.held@[j].reason
    }

    pub fn new() -> (r: Self)
        ensures
            r.wf(),
            r.held@ == Seq::<Sample>::empty(),
    {
        Samples { held: Vec::new() }
    }

    /// Keeps a sample, unless there is one of its stage and reason, or no room.
    pub fn note(&mut self, sample: Sample) -> (kept: bool)
        requires
            old(self).wf(),
        ensures
            final(self).wf(),
            noted(old(self).held@, final(self).held@, sample, kept),
    {
        let n: usize = self.held.len();
        let mut i: usize = 0;
        while i < n
            invariant
                i <= n,
                n == self.held@.len(),
                old(self).wf(),
                self.held@ == old(self).held@,
                forall|k: int|
                    0 <= k < i ==> (#[trigger] self.held@[k]).stage != sample.stage
                        || self.held@[k].reason != sample.reason,
            decreases n - i,
        {
            if self.held[i].stage == sample.stage && self.held[i].reason == sample.reason {
                assert(old(self).held@[i as int].stage == sample.stage);
                return false;
            }
            i = i + 1;
        }
        if n >= SLOTS {
            return false;
        }
        self.held.push(sample);
        true
    }

    /// The lines of what is held, which is forgotten.
    pub fn report(&mut self) -> (r: Vec<String>)
        requires
            old(self).wf(),
        ensures
            final(self).wf(),
            final(self).held@ == Seq::<Sample>::empty(),
            r@.len() == old(self).held@.len(),
            forall|i: int| 0 <= i < r@.len() ==> (#[trigger] r@[i])@ == line_of(old(self).held@[i]),
    {
        let mut out: Vec<String> = Vec::new();
        let n: usize = self.held.len();
        let mut i: usize = 0;
        while i < n
            invariant
                i <= n,
                n == self.held@.len(),
                self.held@ == old(self).held@,
                out@.len() == i,
                forall|k: int|
                    0 <= k < i ==> (#[trigger] out@[k])@ == line_of(old(self).held@[k]),
            decreases n - i,
        {
            let text: String = line(&self.held[i]);
            out.push(text);
            i = i + 1;
        }
        self.held = Vec::new();
        out
    }
}

/// After a sample was offered there is one of its stage and reason, as long as there was room: a
/// flood of one fault leaves one line.
pub proof fn lemma_one_sample_each(held: Seq<Sample>, sample: Sample, again: Sample)
    requires
        held.len() < SLOTS,
        again.stage == sample.stage,
        again.reason == sample.reason,
    ensures
        taken(
            if taken(held, sample.stage, sample.reason) {
                held
            } else {
                held.push(sample)
            },
            again.stage,
            again.reason,
        ),
{
    if !taken(held, sample.stage, sample.reason) {
        assert(held.push(sample)[held.len() as int] == sample);
    }
}

} // verus!
