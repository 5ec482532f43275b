//! Which faults the game goes on from, and how: by the places in the February build, which lie
//! 0x6C0 lower in part of the September build.
use crate::exceptions;
use crate::exceptions::{Action, Dispatcher, Fault, Place, Registers};
use crate::game_build::Build;
use crate::text;
use vstd::prelude::*;

verus! {

/// Where something of the February build lies in a game.
pub open spec fn place(p: Place, rva: int) -> int {
    if p.build == Build::September2026 && 0x1D29C20 <= rva < 0x2EFF000 {
        p.base + rva - 0x6C0
    } else {
        p.base + rva
    }
}

/// A fault that the active patch may act on: nothing in `rcx` says otherwise.
pub open spec fn open(r: Registers) -> bool {
    r.rcx != 0xFFEE_DDCC_4433_2212 && r.rcx != 0xFFEE_DDCC_4433_2211
}

proof fn lemma_place(p: Place, rva: int)
    ensures
        exceptions::at(p, rva) == place(p, rva),
{
}

proof fn lemma_not_skipped(p: Place, f: int)
    requires
        forall|i: int| 0 <= i < 15 ==> f != place(p, #[trigger] exceptions::skip_row(i).0),
    ensures
        exceptions::skip_of(p, f, 0) == 15,
{
    lemma_not_skipped_from(p, f, 0);
}

proof fn lemma_not_skipped_from(p: Place, f: int, i: int)
    requires
        0 <= i <= 15,
        forall|i: int| 0 <= i < 15 ==> f != place(p, #[trigger] exceptions::skip_row(i).0),
    ensures
        exceptions::skip_of(p, f, i) == 15,
    decreases 15 - i,
{
    if i < 15 {
        lemma_place(p, exceptions::skip_row(i).0);
        lemma_not_skipped_from(p, f, i + 1);
    }
}

/// A client script that names a field which does not exist.
pub open spec fn in_client_script(p: Place, f: int) -> bool {
    f == place(p, 0xC15B80) || f == place(p, 0xC15C50) || f == place(p, 0xC18CF5)
}

/// A game script that does.
pub open spec fn in_game_script(p: Place, f: int) -> bool {
    f == place(p, 0x1A5F94B) || f == place(p, 0x1A5FA5E) || f == place(p, 0x1A5FB5E) || f == place(
        p,
        0x1A5FBFD,
    ) || f == place(p, 0x1A5FE76) || f == place(p, 0x1A5FF86) || f == place(p, 0x1A6003D) || f
        == place(p, 0x1A602C7)
}

/// A script that names a field which does not exist gets an error of its own, whatever the
/// exception was: the game's error function is entered with the message, and with 1 for a client
/// script and 0 for a game script. No other register changes.
pub proof fn lemma_missing_fields(p: Place, fault: Fault, r: Registers, prints: u64)
    requires
        open(r),
        in_client_script(p, fault.address as int) || in_game_script(p, fault.address as int),
    ensures
        exceptions::action_of(p, fault, r, true, prints) == (Action::Resume {
            registers: Registers {
                rip: place(p, 0x12EA450) as u64,
                rsp: r.rsp,
                rax: r.rax,
                rbx: r.rbx,
                rcx: if in_client_script(p, fault.address as int) {
                    1
                } else {
                    0
                },
                rdx: p.no_field,
                rsi: r.rsi,
                r8: 0,
            },
        }),
{
    let f = fault.address as int;
    assert forall|i: int| 0 <= i < 15 implies f != place(p, #[trigger] exceptions::skip_row(i).0) by {}
    lemma_not_skipped(p, f);
}

/// The faults that are skipped: where each happens, where the game goes on, and whether the result
/// is cleared.
pub open spec fn skips() -> Seq<(int, int, bool)> {
    seq![
        (0x22D2F0Dint, 0x22D389Eint, true),
        (0x464FEF, 0x4651A2, true),
        (0x15E4B7A, 0x15E4BA3, false),
        (0x12EE4EC, 0x12EE5E8, false),
        (0x22C965C, 0x22C9686, false),
        (0x22C9676, 0x22C9686, false),
        (0x1C9F121, 0x1C9F2CE, false),
        (0x1E9E657, 0x1E9E7E3, false),
        (0x1A604C4, 0x1A6054B, false),
        (0x133EC1, 0x133F12, false),
        (0x133EEB, 0x133F12, false),
        (0x133F31, 0x133F42, false),
        (0x13591F3, 0x13591FA, false),
        (0x11D2580, 0x11D2592, true),
        (0x22C4935, 0x22C49FE, true),
    ]
}

proof fn lemma_skip_found(p: Place, i: int, j: int)
    requires
        0 <= j <= i < 15,
    ensures
        exceptions::skip_of(p, place(p, skips()[i].0), j) == i,
        skips()[i] == exceptions::skip_row(i),
    decreases i - j,
{
    assert(skips()[i] == exceptions::skip_row(i));
    if j < i {
        assert(skips()[j] == exceptions::skip_row(j));
        lemma_skip_found(p, i, j + 1);
    }
}

/// The game goes on behind a fault that is skipped, with a cleared result where it has one. No
/// other register changes.
pub proof fn lemma_skipped(p: Place, fault: Fault, r: Registers, prints: u64, i: int)
    requires
        open(r),
        0 <= i < 15,
        fault.address == place(p, skips()[i].0),
    ensures
        exceptions::action_of(p, fault, r, true, prints) == (Action::Resume {
            registers: Registers {
                rip: place(p, skips()[i].1) as u64,
                rsp: r.rsp,
                rax: if skips()[i].2 {
                    0
                } else {
                    r.rax
                },
                rbx: r.rbx,
                rcx: r.rcx,
                rdx: r.rdx,
                rsi: r.rsi,
                r8: r.r8,
            },
        }),
{
    lemma_skip_found(p, i, 0);
}

/// Where the game reads a text that is not there, it gets the empty one and reads again.
pub proof fn lemma_missing_texts(p: Place, fault: Fault, r: Registers, prints: u64)
    requires
        open(r),
    ensures
        fault.address == place(p, 0x221CEC3) ==> exceptions::action_of(p, fault, r, true, prints)
            == (Action::Resume { registers: Registers { rdx: p.empty, ..r } }),
        fault.address == place(p, 0x221C726) ==> exceptions::action_of(p, fault, r, true, prints)
            == (Action::Resume { registers: Registers { rsi: p.empty, ..r } }),
        fault.address == place(p, 0x22328F6) ==> exceptions::action_of(p, fault, r, true, prints)
            == (Action::Resume { registers: Registers { rcx: p.empty, ..r } }),
{
    let f = fault.address as int;
    if f == place(p, 0x221CEC3) || f == place(p, 0x221C726) || f == place(p, 0x22328F6) {
        assert forall|i: int| 0 <= i < 15 implies f != place(
            p,
            #[trigger] exceptions::skip_row(i).0,
        ) by {}
        lemma_not_skipped(p, f);
    }
}

/// A script error of one of the two instances is looked at behind its instruction, with the
/// instance's flag, message and frame; any other instance is left alone.
pub proof fn lemma_script_errors(p: Place, fault: Fault, r: Registers, prints: u64)
    requires
        open(r),
        fault.address == place(p, 0x12EA4E0),
        p.base + 0x2000_0000 <= usize::MAX,
    ensures
        match exceptions::action_of(p, fault, r, true, prints) {
            Action::Script { registers, instance, fatal, message, frame } => {
                &&& instance == r.rcx & 0xff
                &&& instance == 0 || instance == 1
                &&& registers == Registers {
                    rip: r.rip.wrapping_add(4),
                    rsp: r.rsp.wrapping_sub(0x30),
                    ..r
                }
                &&& fatal == place(p, 0x5124869) + 35392 * instance
                &&& message == place(p, 0x51A3710) + 0x78 * instance
                &&& frame == place(p, 0x513DD30) + 32 * instance
            },
            Action::Pass => r.rcx & 0xff > 1,
            _ => false,
        },
{
    let f = fault.address as int;
    assert forall|i: int| 0 <= i < 15 implies f != place(p, #[trigger] exceptions::skip_row(i).0) by {}
    lemma_not_skipped(p, f);
}

/// A fault at a place that is known.
pub open spec fn known(p: Place, f: int) -> bool {
    ||| exists|i: int| 0 <= i < 15 && f == place(p, #[trigger] skips()[i].0)
    ||| f == place(p, 0x221CEC3)
    ||| f == place(p, 0x221C726)
    ||| f == place(p, 0x22328F6)
    ||| in_client_script(p, f)
    ||| in_game_script(p, f)
    ||| f == place(p, 0x12EA4E0)
}

/// Everywhere else an access violation, or an exception that cannot be continued, is a crash, and
/// every other exception is left to others.
pub proof fn lemma_unknown_faults(p: Place, fault: Fault, r: Registers, prints: u64)
    requires
        open(r),
        !known(p, fault.address as int),
    ensures
        exceptions::action_of(p, fault, r, true, prints) == (if fault.code == 0xC000_0005
            || fault.flags & 1 == 1 {
            Action::Crash
        } else {
            Action::Pass
        }),
{
    let f = fault.address as int;
    assert forall|i: int| 0 <= i < 15 implies f != place(p, #[trigger] exceptions::skip_row(i).0) by {
        assert(skips()[i] == exceptions::skip_row(i));
    }
    lemma_not_skipped(p, f);
    let flags = fault.flags;
    assert(flags & 1 == 0 || flags & 1 == 1) by (bit_vector);
}

/// A redirected lobby print goes on with what lobby printing really uses, whether the patch is
/// active or not; nothing else is touched while it is not.
pub proof fn lemma_lobby_prints(p: Place, fault: Fault, r: Registers, active: bool, prints: u64)
    ensures
        r.rcx == 0xFFEE_DDCC_4433_2212 ==> exceptions::action_of(p, fault, r, active, prints) == (
        Action::Sentinel { registers: Registers { rcx: prints, rbx: prints, ..r } }),
        r.rcx != 0xFFEE_DDCC_4433_2212 && (!active || r.rcx == 0xFFEE_DDCC_4433_2211)
            ==> exceptions::action_of(p, fault, r, active, prints) == Action::Pass,
{
}

/// The code that replaces the dispatcher of one system loads the address of its target.
pub proof fn lemma_dispatch_code(target: u64)
    ensures
        exceptions::dispatch_code(target).len() == 27,
        exceptions::dispatch_code(target).take(2) == seq![0x48u8, 0xb8u8],
        vstd::bytes::spec_u64_from_le_bytes(exceptions::dispatch_code(target).subrange(2, 10))
            == target,
        exceptions::dispatch_code(target).skip(10) == seq![
            0x48u8,
            0x89,
            0xe2,
            0x48,
            0x8d,
            0x8c,
            0x24,
            0xf0,
            0x04,
            0,
            0,
            0xff,
            0xd0,
            0x90,
            0x90,
            0x90,
            0x90,
        ],
{
    let d = exceptions::dispatch_code(target);
    let le = vstd::bytes::spec_u64_to_le_bytes(target);
    vstd::bytes::lemma_auto_spec_u64_to_from_le_bytes();
    assert(le.len() == 8);
    assert(d.subrange(2, 10) =~= le);
    assert(d.take(2) =~= seq![0x48u8, 0xb8u8]);
    assert(d.skip(10).len() == 17);
}

/// The system's dispatcher is known by its first words in two forms. In one of them the pointer that
/// it reads lies as far behind its eighth byte as it says; in the other its code is replaced from
/// the twelfth byte on. In any other form it is left alone.
pub proof fn lemma_dispatchers(
    address: u64,
    signature: u32,
    displacement: i32,
    target: u64,
    r: Dispatcher,
)
    requires
        exceptions::hooked(address, signature, displacement, target, r),
        address < 0x1_0000_0000_0000,
    ensures
        r is Slot <==> signature == 93_014_268,
        r is Code <==> signature == 613_190_472,
        r matches Dispatcher::Slot { slot } ==> slot == (if address + 8 + displacement >= 0 {
            address + 8 + displacement
        } else {
            address + 8 + displacement + 0x1_0000_0000_0000_0000
        }),
        r matches Dispatcher::Code { address: at, bytes } ==> at == address + 11 && bytes@
            == exceptions::dispatch_code(target),
{
}

/// A lobby is inspected if the word on the stack is the place from which the game reads it.
pub proof fn lemma_lobby_reader(p: Place, caller: u64)
    ensures
        exceptions::reads_lobby_of(&p, Some(caller)) <==> caller == place(p, 0x1EEBF74),
        !exceptions::reads_lobby_of(&p, None),
{
    lemma_place(p, 0x1EEBF74);
}

/// A script error ends the game if the game says so, or if its message speaks of an invalid opcode
/// anywhere.
pub proof fn lemma_fatal_scripts(message: &[u8], head: Seq<u8>, tail: Seq<u8>)
    ensures
        exceptions::script_is_fatal_of(true, message),
        message@ == head + text::utf8("Invalid opcode"@) + tail ==> exceptions::script_is_fatal_of(
            false,
            message,
        ),
        exceptions::script_is_fatal_of(false, message) ==> exists|i: int|
            0 <= i && i + 14 <= message@.len() && #[trigger] message@.subrange(i, i + 14)
                == text::utf8("Invalid opcode"@),
{
    reveal_strlit("Invalid opcode");
    text::lemma_utf8_of_ascii("Invalid opcode"@);
    let word = text::utf8("Invalid opcode"@);
    if message@ == head + word + tail {
        let i = head.len() as int;
        assert(message@.subrange(i, i + word.len()) =~= word);
        assert(exceptions::holds_at(message@, word, i));
    }
    if exceptions::script_is_fatal_of(false, message) {
        let i = choose|i: int| #[trigger] exceptions::holds_at(message@, word, i);
        assert(message@.subrange(i, i + 14) == word);
    }
}

} // verus!
