//! Who is heard, with the friends filter on and off.
use crate::packets;
use crate::packets::Pending;
use crate::protection;
use crate::protection::{Admission, Delivery};
use vstd::prelude::*;

verus! {

/// A Steam account of the public universe: bits 44 to 59 of its identifier are 0x1100.
pub open spec fn account(sender: u64) -> bool {
    (sender >> 44) & 0xffff == 0x1100
}

/// What becomes of a prepared message that is no lobby information, once the sender was looked up
/// where that is asked for.
pub open spec fn heard(
    sender: u64,
    own: u64,
    friends_only: bool,
    msg_type: i32,
    friend: bool,
) -> bool {
    match packets::pending_prepared_of(true, msg_type, sender, own, friends_only) {
        Pending::AskFriend => packets::pending_sender_of(friend) == Pending::Allow,
        step => step == Pending::Allow,
    }
}

/// From somebody else's account a message is heard if and only if the filter is off or the sender
/// is a friend. Messages without a sender, of the player and of what is no account are always
/// heard.
pub proof fn lemma_strangers(sender: u64, own: u64, friends_only: bool, msg_type: i32, friend: bool)
    requires
        msg_type != 1,
    ensures
        account(sender) && sender != 0 && sender != own ==> heard(
            sender,
            own,
            friends_only,
            msg_type,
            friend,
        ) == (friends_only ==> friend),
        !(account(sender) && sender != 0 && sender != own) ==> heard(
            sender,
            own,
            friends_only,
            msg_type,
            friend,
        ),
{
    assert((sender & 0xFFFF00000000000 == 0x110000000000000) == ((sender >> 44) & 0xffff == 0x1100))
        by (bit_vector);
}

/// Steam is asked about a sender only where the answer matters.
pub proof fn lemma_asked_only_where_it_matters(
    prepared: bool,
    sender: u64,
    own: u64,
    friends_only: bool,
    msg_type: i32,
)
    ensures
        packets::pending_prepared_of(prepared, msg_type, sender, own, friends_only)
            == Pending::AskFriend <==> prepared && msg_type != 1 && friends_only && account(sender)
            && sender != 0 && sender != own,
        packets::pending_prepared_of(prepared, msg_type, sender, own, friends_only)
            == Pending::Inspect <==> prepared && msg_type == 1,
        !prepared ==> packets::pending_prepared_of(prepared, msg_type, sender, own, friends_only)
            == Pending::Block,
{
    assert((sender & 0xFFFF00000000000 == 0x110000000000000) == ((sender >> 44) & 0xffff == 0x1100))
        by (bit_vector);
}

/// Lobby information is handed on if and only if it was accepted and read to its end, and never
/// let through here; a copy that ran over its end is blocked, and every other one is prepared.
pub proof fn lemma_lobby_information(accepted: bool, overflowed: u8, size: u32)
    ensures
        packets::pending_inspected_of(accepted, overflowed) == Pending::Forward <==> accepted
            && overflowed == 0,
        packets::pending_inspected_of(accepted, overflowed) != Pending::Allow,
        packets::pending_inspected_of(accepted, overflowed) == Pending::Forward
            || packets::pending_inspected_of(accepted, overflowed) == Pending::Block,
        packets::pending_read_of(size, overflowed) == (if overflowed == 0 {
            Pending::Prepare { size }
        } else {
            Pending::Block
        }),
{
}

/// What was sent within its budget is accepted without the filter, and with it if and only if it
/// comes from a friend; what exceeds the budget is refused, whoever sent it.
pub proof fn lemma_admission(admitted: bool, friends_only: bool, friend: bool)
    ensures
        (match protection::admission_of(admitted, friends_only) {
            Admission::Accept => true,
            Admission::AskFriend => friend,
            Admission::Refuse => false,
        }) == (admitted && (friends_only ==> friend)),
        protection::admission_of(admitted, friends_only) == Admission::AskFriend ==> friends_only,
{
}

/// A packet between peers that fits its buffer is accepted by its sixth byte: never 101, 102 and
/// 109, for 104 if its sender may be heard, and anything else always. Shorter packets have no such
/// byte and pass; one that Steam reports as larger than the buffer never does.
pub proof fn lemma_deliveries(size: u32, capacity: u32, kind: u8, sender: bool)
    ensures
        size > capacity ==> protection::delivery_of(size, capacity, Some(kind), sender)
            == Delivery::Refuse && protection::delivery_of(size, capacity, None, sender)
            == Delivery::Refuse,
        size <= capacity && size < 6 ==> protection::delivery_of(size, capacity, Some(kind), sender)
            == Delivery::Accept && protection::delivery_of(size, capacity, None, sender)
            == Delivery::Accept,
        size <= capacity && size >= 6 ==> {
            &&& protection::delivery_of(size, capacity, None, sender) == Delivery::Refuse
            &&& protection::delivery_of(size, capacity, Some(kind), sender) == Delivery::Refuse
                <==> kind == 101 || kind == 102 || kind == 109 || (kind == 104 && !sender)
            &&& protection::delivery_of(size, capacity, Some(kind), sender) == Delivery::AskSender
                <==> kind == 104 && sender
        },
{
}

} // verus!
