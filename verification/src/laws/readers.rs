//! Which of the game's readers are read through, which messages are looked at, and how the game
//! that runs is known.
use crate::bytes;
use crate::game_build;
use crate::game_build::Build;
use crate::packets;
use crate::packets::{Fault, Inspected, Message, Pending};
use crate::reader;
use crate::reader::{Reason, Stage};
use crate::structs;
use crate::structs::Msg;
use vstd::prelude::*;

verus! {

/// The number in the four bytes from `at` on, the lowest first.
pub open spec fn word(d: Seq<u8>, at: int) -> int {
    d[at] + 256 * d[at + 1] + 65_536 * d[at + 2] + 16_777_216 * d[at + 3]
}

/// The same, as a number with a sign.
pub open spec fn signed_word(d: Seq<u8>, at: int) -> int {
    if word(d, at) < 0x8000_0000 {
        word(d, at)
    } else {
        word(d, at) - 0x1_0000_0000
    }
}

pub(crate) proof fn lemma_words(d: Seq<u8>, at: int)
    requires
        0 <= at,
        at + 4 <= d.len(),
    ensures
        bytes::u32_at(d, at) == Some(word(d, at) as u32),
        0 <= word(d, at) < 0x1_0000_0000,
        bytes::i32_at(d, at) is Some,
        bytes::i32_at(d, at)->Some_0 == signed_word(d, at),
{
    let v = word(d, at) as u32;
    assert(v < 0x8000_0000u32 ==> v as i32 == v) by (bit_vector);
    assert(v >= 0x8000_0000u32 ==> v as i32 == v - 0x1_0000_0000) by (bit_vector);
}

/// A reader is read through if and only if it has not overflowed, none of its lengths is one that
/// the game takes for a negative number, its buffers are there and end within memory, and both its
/// cursors stand within the payload.
pub proof fn lemma_sound_reader(m: Msg)
    ensures
        packets::fault_of(m) is None <==> {
            &&& m.overflowed == 0
            &&& m.max_size < 0x8000_0000
            &&& m.cur_size < 0x8000_0000
            &&& m.split_size < 0x8000_0000
            &&& m.cur_size == 0 || m.data != 0
            &&& m.split_size == 0 || m.split_data != 0
            &&& m.data + m.cur_size < 0x1_0000_0000_0000_0000
            &&& m.split_data + m.split_size < 0x1_0000_0000_0000_0000
            &&& m.read_count <= m.cur_size + m.split_size
            &&& 0 <= m.bit <= 8 * m.cur_size + 8 * m.split_size
        },
{
}

/// Each fault has its own name, and the first that a reader has is the one that is named.
pub proof fn lemma_named_faults(m: Msg)
    ensures
        packets::fault_of(m) == Some(Fault::Overflowed) <==> m.overflowed > 0,
        packets::fault_of(m) == Some(Fault::Size) <==> m.overflowed == 0 && !(m.max_size
            < 0x8000_0000 && m.cur_size < 0x8000_0000 && m.split_size < 0x8000_0000),
        packets::fault_of(m) == Some(Fault::Bit) ==> m.bit < 0 || m.bit > 8 * m.cur_size + 8
            * m.split_size,
        packets::fault_of(m) == Some(Fault::Cursor) ==> m.read_count > m.cur_size + m.split_size,
        packets::fault_of(m) == Some(Fault::Buffer) ==> (m.data == 0 && m.cur_size > 0) || (
        m.split_data == 0 && m.split_size > 0),
        packets::fault_of(m) == Some(Fault::Address) ==> m.data != 0 || m.split_data != 0,
{
}

/// Nothing is wrong with a reader if and only if it can be read, is sound, and its buffers can be
/// read as far as they hold anything.
pub proof fn lemma_usable(msg: Option<Msg>, primary: bool, split: bool)
    ensures
        reader::reason_of(msg, primary, split) is None <==> {
            &&& msg is Some
            &&& packets::fault_of(msg->Some_0) is None
            &&& msg->Some_0.cur_size == 0 || primary
            &&& msg->Some_0.split_size == 0 || split
        },
        reader::reason_of(msg, primary, split) == Some(Reason::Descriptor) <==> msg is None,
        reader::reason_of(msg, primary, split) == Some(Reason::Memory) ==> !primary || !split,
{
}

/// The reason that is noted bears the name of the fault.
pub proof fn lemma_reason(fault: Fault)
    ensures
        fault == Fault::Overflowed <==> reader::reason_for(fault) == Reason::Overflowed,
        fault == Fault::Size <==> reader::reason_for(fault) == Reason::Size,
        fault == Fault::Buffer <==> reader::reason_for(fault) == Reason::Buffer,
        fault == Fault::Address <==> reader::reason_for(fault) == Reason::Address,
        fault == Fault::Cursor <==> reader::reason_for(fault) == Reason::Cursor,
        fault == Fault::Bit <==> reader::reason_for(fault) == Reason::Bit,
{
}

/// Lobby and instant messages are stopped by a fault of their reader; connectionless commands,
/// which the game has read by then, are not.
pub proof fn lemma_observed_only(stage: Stage)
    ensures
        reader::rejects_of(stage) <==> stage == Stage::Lobby || stage == Stage::Instant,
{
}

/// Of the message types five are never let through and four are read to their end; the others are
/// none of the inspection's business.
pub proof fn lemma_inspected_types(msg_type: i32)
    ensures
        packets::forbidden(msg_type) <==> msg_type == 15 || (22 <= msg_type <= 24) || msg_type
            == 30,
        packets::tasks_for(msg_type) is Some <==> msg_type == 2 || msg_type == 3 || msg_type == 7
            || msg_type == 16,
        packets::tasks_for(2) == Some(packets::lobby_tasks()),
        packets::tasks_for(3) == Some(packets::lobby_game_tasks()),
        packets::tasks_for(7) == Some(packets::heartbeat_tasks()),
        packets::tasks_for(16) == Some(packets::join_tasks()),
{
}

/// The game keeps a message if and only if its inspection did not reject it and did not run over
/// its end; what it must not keep becomes a message that it does not know.
pub proof fn lemma_kept_type(msg_type: i32, inspected: Inspected, overflowed: u8)
    requires
        msg_type != 255,
    ensures
        packets::type_after_of(msg_type, inspected, overflowed) == msg_type <==> inspected
            == Inspected::Ignored || (inspected == Inspected::Passed && overflowed == 0),
        packets::type_after_of(msg_type, inspected, overflowed) != msg_type
            ==> packets::type_after_of(msg_type, inspected, overflowed) == 255,
{
}

/// An instant message is looked at if and only if its cursor stands within it and at most 2047
/// bytes follow, which are the ones that are copied.
pub proof fn lemma_looked_at(m: Msg)
    ensures
        0 <= m.cur_size - m.read_count <= 2047 ==> packets::pending_start_of(m) == (Pending::Read {
            size: (m.cur_size - m.read_count) as u32,
        }),
        !(0 <= m.cur_size - m.read_count <= 2047) ==> packets::pending_start_of(m)
            == Pending::Block,
{
}

/// Where the numbers of a reader lie in the game's memory.
pub proof fn lemma_reader_layout(d: Seq<u8>)
    requires
        d.len() >= 72,
    ensures
        ({
            let l = structs::lobby_msg_at(d);
            &&& l.msg == structs::msg_at(d)
            &&& l.msg.overflowed == d[0]
            &&& l.msg.read_only == d[1]
            &&& l.msg.data == word(d, 8) + 0x1_0000_0000 * word(d, 12)
            &&& l.msg.split_data == word(d, 16) + 0x1_0000_0000 * word(d, 20)
            &&& l.msg.max_size == word(d, 24)
            &&& l.msg.cur_size == word(d, 28)
            &&& l.msg.split_size == word(d, 32)
            &&& l.msg.read_count == word(d, 36)
            &&& l.msg.bit == signed_word(d, 40)
            &&& l.msg.last_entity == signed_word(d, 44)
            &&& l.msg.flush == signed_word(d, 48)
            &&& l.msg.target == signed_word(d, 52)
            &&& l.msg_type == signed_word(d, 56)
            &&& l.encode_flags == d[60]
            &&& l.package_type == signed_word(d, 64)
        }),
{
    lemma_words(d, 8);
    lemma_words(d, 12);
    lemma_words(d, 16);
    lemma_words(d, 20);
    lemma_words(d, 24);
    lemma_words(d, 28);
    lemma_words(d, 32);
    lemma_words(d, 36);
    lemma_words(d, 40);
    lemma_words(d, 44);
    lemma_words(d, 48);
    lemma_words(d, 52);
    lemma_words(d, 56);
    lemma_words(d, 64);
}

/// Code that ends in a relative branch leads as far behind or before its end as the last four
/// bytes say, and nowhere if it ends otherwise.
pub proof fn lemma_branches(code: Seq<u8>, base: u64, opcode: u8, target: u64)
    ensures
        packets::branch_target(code, base, opcode) == Some(target) <==> {
            &&& code.len() >= 5
            &&& code[code.len() - 5] == opcode
            &&& target == (base + code.len() + signed_word(code, code.len() - 4))
                % 0x1_0000_0000_0000_0000
        },
{
    if code.len() >= 5 {
        lemma_words(code, code.len() - 4);
    }
}

/// The code around the lobby reader is what the patch relies on if and only if both pieces are
/// there in full length, the first ends in a call of the second, and that in a jump to the reader.
pub proof fn lemma_reader_code(
    handler: &[u8],
    handler_at: u64,
    helper: &[u8],
    helper_at: u64,
    head_at: u64,
)
    ensures
        packets::reader_matches(Some(handler), handler_at, Some(helper), helper_at, head_at) <==> {
            &&& handler@.len() == 37
            &&& helper@.len() == 42
            &&& handler@[32] == 0xe8
            &&& helper@[37] == 0xe9
            &&& helper_at == (handler_at + 37 + signed_word(handler@, 33))
                % 0x1_0000_0000_0000_0000
            &&& head_at == (helper_at + 42 + signed_word(helper@, 38)) % 0x1_0000_0000_0000_0000
        },
        !packets::reader_matches(None, handler_at, Some(helper), helper_at, head_at),
        !packets::reader_matches(Some(handler), handler_at, None, helper_at, head_at),
{
    lemma_branches(handler@, handler_at, 0xe8, helper_at);
    lemma_branches(helper@, helper_at, 0xe9, head_at);
}

/// The two known builds, by link time and image size, and no other.
pub proof fn lemma_builds(timestamp: u32, size: u32)
    ensures
        game_build::build_of(timestamp, size) == Build::February2026 <==> timestamp == 1_765_634_846
            && (size == 494_185_472 || size == 494_186_496),
        game_build::build_of(timestamp, size) == Build::September2026 <==> timestamp
            == 1_786_471_253 && (size == 494_255_104 || size == 494_256_128),
{
}

/// Code of the September build lies 1728 bytes lower than in February from one place to another;
/// outside of it, and in every other build, nothing has moved.
pub proof fn lemma_moved_code(rva: int, build: Build)
    ensures
        rva - game_build::translated(rva, build) == (if build == Build::September2026 && 30_579_744
            <= rva <= 49_278_975 {
            1728int
        } else {
            0
        }),
{
}

/// A game is known if and only if its headers are there, are those of a 64-bit program, and give
/// the link time and size of a known build.
pub proof fn lemma_known_game(dos: &[u8], nt: &[u8])
    ensures
        game_build::nt_offset_of(dos@) is Some <==> {
            &&& dos@.len() >= 64
            &&& dos@[0] == 0x4d && dos@[1] == 0x5a
            &&& 64 <= word(dos@, 60) <= 1_048_576
        },
        game_build::nt_offset_of(dos@) is Some ==> game_build::nt_offset_of(dos@)->Some_0 == word(
            dos@,
            60,
        ),
        game_build::current_build_of(Some(dos), Some(nt)) == (if game_build::nt_offset_of(
            dos@,
        ) is Some && nt@.len() >= 264 && nt@[0] == 0x50 && nt@[1] == 0x45 && nt@[2] == 0 && nt@[3]
            == 0 && nt@[4] == 0x64 && nt@[5] == 0x86 && nt@[24] == 0x0b && nt@[25] == 2 {
            game_build::build_of(word(nt@, 8) as u32, word(nt@, 80) as u32)
        } else {
            Build::Unknown
        }),
        game_build::current_build_of(None, Some(nt)) == Build::Unknown,
        game_build::current_build_of(Some(dos), None) == Build::Unknown,
{
    if dos@.len() >= 64 {
        lemma_words(dos@, 60);
    }
    if nt@.len() >= 264 {
        lemma_words(nt@, 0);
        lemma_words(nt@, 8);
        lemma_words(nt@, 80);
    }
}

/// Each message is read by its own list.
pub proof fn lemma_message_lists()
    ensures
        packets::tasks_of(Message::Join) == packets::join_tasks(),
        packets::tasks_of(Message::Lobby) == packets::lobby_tasks(),
        packets::tasks_of(Message::LobbyGame) == packets::lobby_game_tasks(),
        packets::tasks_of(Message::Heartbeat) == packets::heartbeat_tasks(),
        packets::tasks_of(Message::InfoResponse) == packets::info_response_tasks(),
{
}

} // verus!
