//! Faults that the game can go on from, and what to set before it does.
use crate::game_build;
use crate::game_build::{address, Build};
use vstd::prelude::*;

verus! {

/// The registers that a recovery reads or sets.
#[derive(Clone, Copy, Debug, PartialEq, Eq, Structural)]
pub struct Registers {
    pub rip: u64,
    pub rsp: u64,
    pub rax: u64,
    pub rbx: u64,
    pub rcx: u64,
    pub rdx: u64,
    pub rsi: u64,
    pub r8: u64,
}

/// Where the game lies, and the addresses of the two strings that recoveries hand to it.
#[derive(Clone, Copy, Debug, PartialEq, Eq, Structural)]
pub struct Place {
    pub base: usize,
    pub build: Build,
    pub empty: u64,
    pub no_field: u64,
}

/// What is known of an exception.
#[derive(Clone, Copy, Debug, PartialEq, Eq, Structural)]
pub struct Fault {
    pub address: usize,
    pub code: u32,
    pub flags: u32,
}

/// What to do about an exception.
#[derive(Clone, Copy, Debug, PartialEq, Eq, Structural)]
pub enum Action {
    /// Leave it to whoever else handles exceptions.
    Pass,
    /// Inspect the lobby message on the stack if the caller is its reader, then go on.
    Sentinel { registers: Registers },
    /// Go on with these registers.
    Resume { registers: Registers },
    /// A script error: look whether it is fatal, and go on with these registers if it is not.
    Script { registers: Registers, instance: u64, fatal: usize, message: usize, frame: usize },
    /// Log the crash, suspend the process, then leave it to others.
    Crash,
}

/// The value that lobby printing is redirected to, so that its use faults.
pub const LOBBY_SENTINEL: u64 = 0xFFEE_DDCC_4433_2212;
/// A value that marks exceptions of others.
pub const FOREIGN_SENTINEL: u64 = 0xFFEE_DDCC_4433_2211;
pub const ACCESS_VIOLATION: u32 = 0xC000_0005;
/// Nothing in the game lies further from its base.
pub const IMAGE_LIMIT: usize = 0x2000_0000;

/// Faults that are skipped: where they happen, where the game goes on, and whether the result
/// is cleared.
pub open spec fn skip_row(i: int) -> (int, int, bool) {
    if i == 0 {
        (0x22D2F0D, 0x22D389E, true)
    } else if i == 1 {
        (0x464FEF, 0x4651A2, true)
    } else if i == 2 {
        (0x15E4B7A, 0x15E4BA3, false)
    } else if i == 3 {
        (0x12EE4EC, 0x12EE5E8, false)
    } else if i == 4 {
        (0x22C965C, 0x22C9686, false)
    } else if i == 5 {
        (0x22C9676, 0x22C9686, false)
    } else if i == 6 {
        (0x1C9F121, 0x1C9F2CE, false)
    } else if i == 7 {
        (0x1E9E657, 0x1E9E7E3, false)
    } else if i == 8 {
        (0x1A604C4, 0x1A6054B, false)
    } else if i == 9 {
        (0x133EC1, 0x133F12, false)
    } else if i == 10 {
        (0x133EEB, 0x133F12, false)
    } else if i == 11 {
        (0x133F31, 0x133F42, false)
    } else if i == 12 {
        (0x13591F3, 0x13591FA, false)
    } else if i == 13 {
        (0x11D2580, 0x11D2592, true)
    } else {
        (0x22C4935, 0x22C49FE, true)
    }
}

/// An address of the game.
pub open spec fn at(p: Place, rva: int) -> int {
    p.base + game_build::translated(rva, p.build)
}

/// The first row from the `i`-th on whose fault is at `fault`, or 15.
pub open spec fn skip_of(p: Place, fault: int, i: int) -> int
    decreases 15 - i,
{
    if i >= 15 {
        15
    } else if fault == at(p, skip_row(i).0) {
        i
    } else {
        skip_of(p, fault, i + 1)
    }
}

pub open spec fn skipped(p: Place, r: Registers, i: int) -> Registers {
    Registers {
        rip: at(p, skip_row(i).1) as u64,
        rax: if skip_row(i).2 {
            0
        } else {
            r.rax
        },
        ..r
    }
}

/// Client scripts that name a field which does not exist.
pub open spec fn client_field_fault(p: Place, fault: int) -> bool {
    fault == at(p, 0xC15B80) || fault == at(p, 0xC15C50) || fault == at(p, 0xC18CF5)
}

/// Game scripts that name a field which does not exist.
pub open spec fn game_field_fault(p: Place, fault: int) -> bool {
    ||| fault == at(p, 0x1A5F94B)
    ||| fault == at(p, 0x1A5FA5E)
    ||| fault == at(p, 0x1A5FB5E)
    ||| fault == at(p, 0x1A5FBFD)
    ||| fault == at(p, 0x1A5FE76)
    ||| fault == at(p, 0x1A5FF86)
    ||| fault == at(p, 0x1A6003D)
    ||| fault == at(p, 0x1A602C7)
}

/// What to do about a fault inside the active patch.
pub open spec fn recovery_of(p: Place, fault: Fault, r: Registers) -> Action {
    let f = fault.address as int;
    let row = skip_of(p, f, 0);
    if row < 15 {
        Action::Resume { registers: skipped(p, r, row) }
    } else if f == at(p, 0x221CEC3) {
        Action::Resume { registers: Registers { rdx: p.empty, ..r } }
    } else if f == at(p, 0x221C726) {
        Action::Resume { registers: Registers { rsi: p.empty, ..r } }
    } else if f == at(p, 0x22328F6) {
        Action::Resume { registers: Registers { rcx: p.empty, ..r } }
    } else if client_field_fault(p, f) || game_field_fault(p, f) {
        Action::Resume {
            registers: Registers {
                rcx: if client_field_fault(p, f) {
                    1
                } else {
                    0
                },
                rdx: p.no_field,
                r8: 0,
                rip: at(p, 0x12EA450) as u64,
                ..r
            },
        }
    } else if f == at(p, 0x12EA4E0) {
        script_error(p, r)
    } else if fault.code == ACCESS_VIOLATION || fault.flags & 1 != 0 {
        Action::Crash
    } else {
        Action::Pass
    }
}

/// A script error of the instance that the low byte of `rcx` names; there are two.
pub open spec fn script_error(p: Place, r: Registers) -> Action {
    let instance = r.rcx & 0xff;
    if instance > 1 {
        Action::Pass
    } else {
        Action::Script {
            registers: Registers { rip: r.rip.wrapping_add(4), rsp: r.rsp.wrapping_sub(0x30), ..r },
            instance,
            fatal: (at(p, 0x5124869) + 35392 * instance) as usize,
            message: (at(p, 0x51A3710) + 0x78 * instance) as usize,
            frame: (at(p, 0x513DD30) + 32 * instance) as usize,
        }
    }
}

/// What to do about an exception. A redirected lobby print is recognised even after the patch
/// was deactivated: a thread may have read the value just before.
pub open spec fn action_of(
    p: Place,
    fault: Fault,
    r: Registers,
    active: bool,
    prints: u64,
) -> Action {
    if r.rcx == LOBBY_SENTINEL {
        Action::Sentinel { registers: Registers { rcx: prints, rbx: prints, ..r } }
    } else if !active || r.rcx == FOREIGN_SENTINEL {
        Action::Pass
    } else {
        recovery_of(p, fault, r)
    }
}

fn skip_table(i: usize) -> (r: (usize, usize, bool))
    requires
        i < 15,
    ensures
        r.0 == skip_row(i as int).0,
        r.1 == skip_row(i as int).1,
        r.2 == skip_row(i as int).2,
        r.0 < IMAGE_LIMIT,
        r.1 < IMAGE_LIMIT,
{
    match i {
        0 => (0x22D2F0D, 0x22D389E, true),
        1 => (0x464FEF, 0x4651A2, true),
        2 => (0x15E4B7A, 0x15E4BA3, false),
        3 => (0x12EE4EC, 0x12EE5E8, false),
        4 => (0x22C965C, 0x22C9686, false),
        5 => (0x22C9676, 0x22C9686, false),
        6 => (0x1C9F121, 0x1C9F2CE, false),
        7 => (0x1E9E657, 0x1E9E7E3, false),
        8 => (0x1A604C4, 0x1A6054B, false),
        9 => (0x133EC1, 0x133F12, false),
        10 => (0x133EEB, 0x133F12, false),
        11 => (0x133F31, 0x133F42, false),
        12 => (0x13591F3, 0x13591FA, false),
        13 => (0x11D2580, 0x11D2592, true),
        _ => (0x22C4935, 0x22C49FE, true),
    }
}

fn is_at(p: &Place, fault: usize, rva: usize) -> (r: bool)
    requires
        p.base + IMAGE_LIMIT <= usize::MAX,
        rva < IMAGE_LIMIT,
    ensures
        r == (fault == at(*p, rva as int)),
{
    fault == address(p.base, rva, p.build)
}

fn find_skip(p: &Place, fault: usize) -> (r: usize)
    requires
        p.base + IMAGE_LIMIT <= usize::MAX,
    ensures
        r == skip_of(*p, fault as int, 0),
        r <= 15,
{
    let mut i: usize = 0;
    while i < 15
        invariant
            i <= 15,
            p.base + IMAGE_LIMIT <= usize::MAX,
            skip_of(*p, fault as int, i as int) == skip_of(*p, fault as int, 0),
        decreases 15 - i,
    {
        let (from, _, _): (usize, usize, bool) = skip_table(i);
        if is_at(p, fault, from) {
            return i;
        }
        i = i + 1;
    }
    15
}

fn client_fault(p: &Place, fault: usize) -> (r: bool)
    requires
        p.base + IMAGE_LIMIT <= usize::MAX,
    ensures
        r == client_field_fault(*p, fault as int),
{
    is_at(p, fault, 0xC15B80) || is_at(p, fault, 0xC15C50) || is_at(p, fault, 0xC18CF5)
}

fn game_fault(p: &Place, fault: usize) -> (r: bool)
    requires
        p.base + IMAGE_LIMIT <= usize::MAX,
    ensures
        r == game_field_fault(*p, fault as int),
{
    is_at(p, fault, 0x1A5F94B) || is_at(p, fault, 0x1A5FA5E) || is_at(p, fault, 0x1A5FB5E) || is_at(
        p,
        fault,
        0x1A5FBFD,
    ) || is_at(p, fault, 0x1A5FE76) || is_at(p, fault, 0x1A5FF86) || is_at(p, fault, 0x1A6003D)
        || is_at(p, fault, 0x1A602C7)
}

fn script(p: &Place, r: &Registers) -> (a: Action)
    requires
        p.base + IMAGE_LIMIT <= usize::MAX,
    ensures
        a == script_error(*p, *r),
{
    let instance: u64 = r.rcx & 0xff;
    if instance > 1 {
        return Action::Pass;
    }
    let i: usize = instance as usize;
    let mut registers: Registers = *r;
    registers.rip = r.rip.wrapping_add(4);
    registers.rsp = r.rsp.wrapping_sub(0x30);
    Action::Script {
        registers,
        instance,
        fatal: address(p.base, 0x5124869, p.build) + 35392 * i,
        message: address(p.base, 0x51A3710, p.build) + 0x78 * i,
        frame: address(p.base, 0x513DD30, p.build) + 32 * i,
    }
}

/// Decides what to do about an exception; `prints` is what lobby printing really uses.
pub fn handle(p: &Place, fault: &Fault, r: &Registers, active: bool, prints: u64) -> (a: Action)
    requires
        p.base + IMAGE_LIMIT <= usize::MAX,
    ensures
        a == action_of(*p, *fault, *r, active, prints),
{
    let mut registers: Registers = *r;
    if r.rcx == LOBBY_SENTINEL {
        registers.rcx = prints;
        registers.rbx = prints;
        return Action::Sentinel { registers };
    }
    if !active || r.rcx == FOREIGN_SENTINEL {
        return Action::Pass;
    }
    let f: usize = fault.address;
    let row: usize = find_skip(p, f);
    if row < 15 {
        let (_, to, clear): (usize, usize, bool) = skip_table(row);
        if clear {
            registers.rax = 0;
        }
        registers.rip = address(p.base, to, p.build) as u64;
        return Action::Resume { registers };
    }
    if is_at(p, f, 0x221CEC3) {
        registers.rdx = p.empty;
        return Action::Resume { registers };
    }
    if is_at(p, f, 0x221C726) {
        registers.rsi = p.empty;
        return Action::Resume { registers };
    }
    if is_at(p, f, 0x22328F6) {
        registers.rcx = p.empty;
        return Action::Resume { registers };
    }
    let client: bool = client_fault(p, f);
    if client || game_fault(p, f) {
        registers.rcx = if client {
            1
        } else {
            0
        };
        registers.rdx = p.no_field;
        registers.r8 = 0;
        registers.rip = address(p.base, 0x12EA450, p.build) as u64;
        return Action::Resume { registers };
    }
    if is_at(p, f, 0x12EA4E0) {
        return script(p, r);
    }
    if fault.code == ACCESS_VIOLATION || fault.flags & 1 != 0 {
        Action::Crash
    } else {
        Action::Pass
    }
}

/// The caller that reads a lobby.
pub open spec fn reads_lobby_of(p: &Place, caller: Option<u64>) -> bool {
    match caller {
        Some(c) => c == at(*p, 0x1EEBF74),
        None => false,
    }
}

/// Whether the lobby message on the stack is inspected: the word at `rsp + 0x28` is where the
/// game's lobby reader calls from.
pub fn reads_lobby(p: &Place, caller: Option<u64>) -> (r: bool)
    requires
        p.base + IMAGE_LIMIT <= usize::MAX,
    ensures
        r == reads_lobby_of(p, caller),
{
    match caller {
        Some(c) => c == address(p.base, 0x1EEBF74, p.build) as u64,
        None => false,
    }
}

/// Whether `s` holds `word` from `i` on.
pub open spec fn holds_at(s: Seq<u8>, word: Seq<u8>, i: int) -> bool {
    0 <= i && i + word.len() <= s.len() && s.subrange(i, i + word.len()) == word
}

/// The script errors that end the game.
pub open spec fn script_is_fatal_of(fatal: bool, message: &[u8]) -> bool {
    fatal || exists|i: int|
        #[trigger] holds_at(message@, crate::text::utf8("Invalid opcode"@), i)
}

/// Whether a script error is fatal: the game says so, or it met an opcode that does not exist.
pub fn script_is_fatal(fatal: bool, message: &[u8]) -> (r: bool)
    ensures
        r == script_is_fatal_of(fatal, message),
{
    if fatal {
        return true;
    }
    let word: &[u8] = "Invalid opcode".as_bytes();
    proof {
        reveal_strlit("Invalid opcode");
        crate::text::lemma_utf8_of_ascii("Invalid opcode"@);
    }
    let n: usize = message.len();
    let m: usize = word.len();
    if m > n {
        return false;
    }
    let mut i: usize = 0;
    while i <= n - m
        invariant
            0 < m <= n,
            n == message@.len(),
            m == word@.len(),
            word@ == crate::text::utf8("Invalid opcode"@),
            forall|k: int| 0 <= k < i ==> !#[trigger] holds_at(message@, word@, k),
        decreases n - i,
    {
        let part: &[u8] = vstd::slice::slice_subrange(message, i, i + m);
        if crate::text::same_bytes(part, word) {
            assert(holds_at(message@, word@, i as int));
            return true;
        }
        i = i + 1;
    }
    false
}

/// While the patch is inactive, or for exceptions of others, nothing is changed.
pub proof fn lemma_inactive_passes(p: Place, fault: Fault, r: Registers, prints: u64)
    requires
        r.rcx != LOBBY_SENTINEL,
    ensures
        action_of(p, fault, r, false, prints) == Action::Pass,
        r.rcx == FOREIGN_SENTINEL ==> action_of(p, fault, r, true, prints) == Action::Pass,
{
}

/// A script instance that does not exist changes no register.
pub proof fn lemma_unknown_instance_passes(p: Place, r: Registers)
    requires
        r.rcx & 0xff > 1,
    ensures
        script_error(p, r) == Action::Pass,
{
}

/// How the system's dispatcher of exceptions is hooked.
#[derive(Debug, PartialEq, Eq)]
pub enum Dispatcher {
    /// The pointer at `slot` is replaced, and what was there is called afterwards.
    Slot { slot: u64 },
    /// The code at `address` is replaced.
    Code { address: u64, bytes: Vec<u8> },
    /// The dispatcher is not known: a vectored handler is added instead.
    Vectored,
}

pub const SLOT_SIGNATURE: u32 = 0x058B_48FC;
pub const CODE_SIGNATURE: u32 = 0x248C_8B48;

/// Code that calls `target` with the exception record and the context.
pub open spec fn dispatch_code(target: u64) -> Seq<u8> {
    seq![0x48u8, 0xb8u8] + vstd::bytes::spec_u64_to_le_bytes(target) + seq![
        0x48u8,
        0x89u8,
        0xe2u8,
        0x48u8,
        0x8du8,
        0x8cu8,
        0x24u8,
        0xf0u8,
        0x04u8,
        0u8,
        0u8,
        0xffu8,
        0xd0u8,
        0x90u8,
        0x90u8,
        0x90u8,
        0x90u8,
    ]
}

/// How a dispatcher with these first words is hooked.
pub open spec fn hooked(
    address: u64,
    signature: u32,
    displacement: i32,
    target: u64,
    r: Dispatcher,
) -> bool {
    if signature == SLOT_SIGNATURE {
        r matches Dispatcher::Slot { slot } && slot == (address + 8 + displacement) % (u64::MAX
            + 1)
    } else if signature == CODE_SIGNATURE {
        r matches Dispatcher::Code { address: at, bytes } && at == address + 0xb && bytes@
            == dispatch_code(target)
    } else {
        r is Vectored
    }
}

/// Decides by the first words of the dispatcher at `address` how to have it call `target`.
pub fn dispatcher(address: u64, signature: u32, displacement: i32, target: u64) -> (r: Dispatcher)
    requires
        address + 0xb <= u64::MAX,
    ensures
        hooked(address, signature, displacement, target, r),
{
    if signature == SLOT_SIGNATURE {
        return Dispatcher::Slot { slot: (address + 8).wrapping_add_signed(displacement as i64) };
    }
    if signature == CODE_SIGNATURE {
        let mut bytes: Vec<u8> = vec![0x48, 0xb8];
        let mut pointer: Vec<u8> = vstd::bytes::u64_to_le_bytes(target);
        bytes.append(&mut pointer);
        let mut tail: Vec<u8> = vec![
            0x48,
            0x89,
            0xe2,
            0x48,
            0x8d,
            0x8c,
            0x24,
            0xf0,
            0x04,
            0,
            0,
            0xff,
            0xd0,
            0x90,
            0x90,
            0x90,
            0x90,
        ];
        bytes.append(&mut tail);
        assert(bytes@ =~= dispatch_code(target));
        return Dispatcher::Code { address: address + 0xb, bytes };
    }
    Dispatcher::Vectored
}

} // verus!
