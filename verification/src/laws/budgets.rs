//! How much control traffic is let in, in packets, bytes and milliseconds.
use crate::network_guard;
use crate::network_guard::{
    Attempt, Bucket, Budget, Channel, Entry, Event, Gate, Peer,
};
use crate::text;
use vstd::prelude::*;

verus! {

/// Each channel admits so many packets and bytes a second, from one peer and from everybody; of
/// social messages the bytes are not counted.
pub proof fn lemma_rates(channel: Channel)
    ensures
        ({
            let p = network_guard::policy_of(channel);
            let rates = (p.peer.packets, p.peer.bytes, p.global.packets, p.global.bytes);
            &&& channel == Channel::Social <==> rates == (8u64, 0u64, 128u64, 0u64)
            &&& channel == Channel::Instant || channel == Channel::Connectionless <==> rates == (
                128u64,
                262_144u64,
                4096u64,
                8_388_608u64,
            )
            &&& channel == Channel::P2pControl <==> rates == (
                256u64,
                1_048_576u64,
                8192u64,
                33_554_432u64,
            )
        }),
{
}

/// For how many milliseconds a bucket gains credit: those since its last update, two seconds at
/// most, and none if the clock went back.
pub open spec fn gained_ms(updated: u64, now: u64) -> int {
    if now < updated {
        0
    } else if now - updated > 2000 {
        2000
    } else {
        now - updated
    }
}

proof fn lemma_caps(b: Bucket, rate: Budget, now: u64)
    requires
        rate.countable(),
        b.within(rate),
    ensures
        network_guard::credited_ms(b.updated, now) == gained_ms(b.updated, now),
        0 <= gained_ms(b.updated, now) * rate.packets <= 2000 * rate.packets,
        0 <= gained_ms(b.updated, now) * rate.bytes <= 2000 * rate.bytes,
        rate.packet_cap() == 2000 * rate.packets,
        rate.byte_cap() == 2000 * rate.bytes,
{
    let ms = gained_ms(b.updated, now);
    assert(0 <= ms * rate.packets <= 2000 * rate.packets) by (nonlinear_arith)
        requires
            0 <= ms <= 2000,
            0 <= rate.packets,
    ;
    assert(0 <= ms * rate.bytes <= 2000 * rate.bytes) by (nonlinear_arith)
        requires
            0 <= ms <= 2000,
            0 <= rate.bytes,
    ;
}

/// A packet is admitted if and only if the credit at hand and what was gained since cover it: a
/// thousand for the packet, and a thousand for each of its bytes where bytes are counted. A packet
/// of more bytes than two seconds give is never admitted.
pub proof fn lemma_covered(b: Bucket, rate: Budget, bytes: u32, now: u64)
    requires
        rate.countable(),
        b.within(rate),
    ensures
        network_guard::admitted(b, rate, bytes, now) <==> {
            &&& b.packets + gained_ms(b.updated, now) * rate.packets >= 1000
            &&& rate.bytes == 0 || (bytes <= 2 * rate.bytes && b.bytes + gained_ms(b.updated, now)
                * rate.bytes >= 1000 * bytes)
        },
{
    lemma_caps(b, rate, now);
}

/// What a packet costs: if it is admitted, a thousand and a thousand for each byte, and nothing if
/// it is not. Credit beyond two seconds' worth is lost.
pub proof fn lemma_price(b: Bucket, rate: Budget, bytes: u32, now: u64)
    requires
        rate.countable(),
        b.within(rate),
    ensures
        ({
            let after = network_guard::charged(b, rate, bytes, now);
            let paid = network_guard::admitted(b, rate, bytes, now);
            let packets = b.packets + gained_ms(b.updated, now) * rate.packets;
            let credit = b.bytes + gained_ms(b.updated, now) * rate.bytes;
            &&& after.packets == (if packets < 2000 * rate.packets {
                packets
            } else {
                2000 * rate.packets
            }) - (if paid {
                1000int
            } else {
                0
            })
            &&& after.bytes == (if credit < 2000 * rate.bytes {
                credit
            } else {
                2000 * rate.bytes
            }) - (if paid && rate.bytes != 0 {
                1000 * bytes
            } else {
                0
            })
            &&& after.updated == (if now > b.updated {
                now
            } else {
                b.updated
            })
        }),
{
    lemma_caps(b, rate, now);
}

/// Whoever keeps to the rate is never refused, whatever was sent before.
pub proof fn lemma_paced(b: Bucket, rate: Budget, bytes: u32, now: u64)
    requires
        rate.countable(),
        b.within(rate),
        b.updated <= now <= b.updated + 2000,
        (now - b.updated) * rate.packets >= 1000,
        rate.bytes == 0 || (now - b.updated) * rate.bytes >= 1000 * bytes,
    ensures
        network_guard::admitted(b, rate, bytes, now),
{
    lemma_caps(b, rate, now);
}

/// Out of a full bucket two seconds' worth of packets can be sent at once, and no more.
pub proof fn lemma_burst(rate: Budget, now: u64, calls: Seq<Attempt>)
    requires
        rate.countable(),
        forall|i: int| 0 <= i < calls.len() ==> (#[trigger] calls[i]).now == now && calls[i].bytes == 0,
    ensures
        network_guard::admitted_packets(network_guard::full(rate, now), rate, calls) == (
        if calls.len() < 2 * rate.packets {
            calls.len() as int
        } else {
            2 * rate.packets
        }),
        ({
            let after = network_guard::after_attempts(network_guard::full(rate, now), rate, calls);
            &&& after.updated == now
            &&& after.bytes == 2000 * rate.bytes
            &&& after.packets == 2000 * rate.packets - 1000
                * network_guard::admitted_packets(network_guard::full(rate, now), rate, calls)
        }),
    decreases calls.len(),
{
    let b = network_guard::full(rate, now);
    lemma_caps(b, rate, now);
    if calls.len() > 0 {
        let before = calls.drop_last();
        lemma_burst(rate, now, before);
        network_guard::lemma_rate_is_kept(b, rate, before);
        let mid = network_guard::after_attempts(b, rate, before);
        assert(calls.last().now == now);
        lemma_caps(mid, rate, now);
        lemma_covered(mid, rate, 0, now);
        lemma_price(mid, rate, 0, now);
        assert(gained_ms(mid.updated, now) * rate.packets == 0) by (nonlinear_arith)
            requires
                gained_ms(mid.updated, now) == 0,
        ;
        assert(gained_ms(mid.updated, now) * rate.bytes == 0) by (nonlinear_arith)
            requires
                gained_ms(mid.updated, now) == 0,
        ;
    }
}

/// The peer at slot `i` is somebody who was heard of in the last half minute.
pub open spec fn lives(gate: Gate, i: int, now: u64) -> bool {
    gate.peers@[i] is Some && now - gate.peers@[i]->Some_0.last_seen < 30_000
}

/// Nobody in the table is this peer.
pub open spec fn unknown(gate: Gate, peer: Peer) -> bool {
    forall|i: int|
        0 <= i < 256 ==> !((#[trigger] gate.peers@[i]) is Some && gate.peers@[i]->Some_0.peer
            == peer)
}

proof fn lemma_first_slot(slots: Seq<Option<Entry>>, peer: Peer, now: u64, i: int)
    requires
        0 <= i <= slots.len(),
    ensures
        i <= network_guard::slot_of(slots, peer, i) <= slots.len(),
        forall|j: int|
            i <= j < network_guard::slot_of(slots, peer, i) ==> !((#[trigger] slots[j]) is Some
                && slots[j]->Some_0.peer == peer),
        network_guard::slot_of(slots, peer, i) < slots.len() ==> slots[network_guard::slot_of(
            slots,
            peer,
            i,
        )] is Some && slots[network_guard::slot_of(slots, peer, i)]->Some_0.peer == peer,
        i <= network_guard::vacant_slot(slots, now, i) <= slots.len(),
        forall|j: int|
            i <= j < network_guard::vacant_slot(slots, now, i) ==> (#[trigger] slots[j]) is Some
                && now - slots[j]->Some_0.last_seen < 30_000,
        network_guard::vacant_slot(slots, now, i) < slots.len() ==> !(slots[
        network_guard::vacant_slot(slots, now, i)] is Some && now - slots[
        network_guard::vacant_slot(slots, now, i)]->Some_0.last_seen < 30_000),
    decreases slots.len() - i,
{
    if i < slots.len() {
        lemma_first_slot(slots, peer, now, i + 1);
    }
}

/// A new peer's packet is admitted if and only if the shared budget covers it, not all 256 slots
/// are held by peers of the last half minute, and it is no larger than two seconds' worth of the
/// budget of one peer.
pub proof fn lemma_newcomer(gate: Gate, peer: Peer, bytes: u32, now: u64)
    requires
        gate.wf(),
        unknown(gate, peer),
        gate.policy.peer.packets > 0,
    ensures
        gate.admits(peer, bytes, now) <==> {
            &&& network_guard::admitted(gate.global, gate.policy.global, bytes, now)
            &&& exists|i: int| 0 <= i < 256 && !#[trigger] lives(gate, i, now)
            &&& gate.policy.peer.bytes == 0 || bytes <= 2 * gate.policy.peer.bytes
        },
{
    let rate = gate.policy.peer;
    lemma_first_slot(gate.peers@, peer, now, 0);
    let at = network_guard::slot_of(gate.peers@, peer, 0);
    assert(at == 256) by {
        if at < 256 {
            assert(gate.peers@[at] is Some);
        }
    }
    let free = network_guard::vacant_slot(gate.peers@, now, 0);
    if free < 256 {
        assert(!lives(gate, free, now));
        let b = network_guard::full(rate, now);
        lemma_caps(b, rate, now);
        lemma_covered(b, rate, bytes, now);
        assert(gained_ms(now, now) * rate.packets == 0) by (nonlinear_arith)
            requires
                gained_ms(now, now) == 0,
        ;
        assert(gained_ms(now, now) * rate.bytes == 0) by (nonlinear_arith)
            requires
                gained_ms(now, now) == 0,
        ;
    } else {
        assert forall|i: int| 0 <= i < 256 implies #[trigger] lives(gate, i, now) by {
            assert(gate.peers@[i] is Some);
        }
    }
}

/// A known peer's packet is admitted if and only if the shared budget and its own cover it, no
/// matter how full the table is.
pub proof fn lemma_known_peer(gate: Gate, peer: Peer, bytes: u32, now: u64, i: int)
    requires
        gate.wf(),
        0 <= i < 256,
        gate.peers@[i] is Some,
        gate.peers@[i]->Some_0.peer == peer,
        forall|j: int|
            0 <= j < 256 && j != i ==> !((#[trigger] gate.peers@[j]) is Some
                && gate.peers@[j]->Some_0.peer == peer),
    ensures
        gate.admits(peer, bytes, now) <==> network_guard::admitted(
            gate.global,
            gate.policy.global,
            bytes,
            now,
        ) && network_guard::admitted(gate.peers@[i]->Some_0.bucket, gate.policy.peer, bytes, now),
{
    lemma_first_slot(gate.peers@, peer, now, 0);
    let at = network_guard::slot_of(gate.peers@, peer, 0);
    if at > i {
        assert(gate.peers@[i] is Some);
    } else if at < i {
        assert(gate.peers@[at] is Some);
    }
}

/// An attempt changes the entry of its own peer and of nobody else, but for one that was idle for
/// half a minute and makes room; what was known stays known once.
pub proof fn lemma_others_untouched(gate: Gate, next: Gate, peer: Peer, bytes: u32, now: u64, i: int)
    requires
        gate.attempted(next, peer, bytes, now),
        0 <= i < 256,
        lives(gate, i, now),
        gate.peers@[i]->Some_0.peer != peer,
    ensures
        next.peers@[i] == gate.peers@[i],
{
    lemma_first_slot(gate.peers@, peer, now, 0);
}

/// A peer whose packet got past the shared budget is in the table afterwards, seen now at the
/// latest, unless there was no room.
pub proof fn lemma_remembered(gate: Gate, next: Gate, peer: Peer, bytes: u32, now: u64)
    requires
        gate.attempted(next, peer, bytes, now),
        gate.admits(peer, bytes, now),
    ensures
        exists|i: int|
            0 <= i < 256 && (#[trigger] next.peers@[i]) is Some && next.peers@[i]->Some_0.peer
                == peer && next.peers@[i]->Some_0.last_seen >= now,
{
    lemma_first_slot(gate.peers@, peer, now, 0);
    let at = network_guard::slot_of(gate.peers@, peer, 0);
    let free = network_guard::vacant_slot(gate.peers@, now, 0);
    if at < 256 {
        assert(next.peers@[at] is Some);
    } else {
        assert(next.peers@[free] is Some);
    }
}

/// A refusal is counted under its channel, each channel under another counter, and nothing else is
/// counted there.
pub proof fn lemma_refusals(channel: Channel, event: Event)
    ensures
        network_guard::event_index(network_guard::refusal_of(channel)) == (match channel {
            Channel::Social => 4int,
            Channel::Instant => 5,
            Channel::P2pControl => 6,
            Channel::Connectionless => 7,
        }),
        0 <= network_guard::event_index(event) < 9,
        network_guard::event_index(event) == network_guard::event_index(
            network_guard::refusal_of(channel),
        ) <==> event == network_guard::refusal_of(channel),
{
}

/// What the journal has so far, followed by a label and how often an event happened.
pub open spec fn with_count(
    line: Seq<char>,
    label: Seq<char>,
    c: Seq<u64>,
    event: Event,
) -> Seq<char> {
    line + label + text::decimal(c[network_guard::event_index(event)] as nat)
}

/// The journal names each event with its count.
pub proof fn lemma_report(c: Seq<u64>)
    ensures
        ({
            let line = with_count(""@, "network-guard envelope="@, c, Event::Envelope);
            let line = with_count(line, " instant="@, c, Event::Instant);
            let line = with_count(line, " p2p="@, c, Event::P2p);
            let line = with_count(line, " lobby="@, c, Event::Lobby);
            let line = with_count(line, " social_limited="@, c, Event::SocialRate);
            let line = with_count(line, " instant_limited="@, c, Event::InstantRate);
            let line = with_count(line, " p2p_limited="@, c, Event::P2pRate);
            let line = with_count(line, " oob_limited="@, c, Event::ConnectionlessRate);
            let line = with_count(line, " friends_refresh_failed="@, c, Event::FriendsRetry);
            network_guard::report_line(c) == line
        }),
{
    reveal_strlit("");
    assert(""@ + "network-guard envelope="@ =~= "network-guard envelope="@);
}

} // verus!
