//! Bounded admission of control traffic. These are budgets that shed load; they neither
//! authenticate anybody nor limit gameplay packets.
use crate::text;
use crate::text::push_decimal;
use vstd::prelude::*;

verus! {

pub const PEERS: usize = 256;
pub const PEER_IDLE_MS: u64 = 30000;
/// Credit is counted in thousandths, so that a rate per second is a rate per millisecond.
pub const UNIT: u64 = 1000;
/// How long unused credit accumulates, in milliseconds.
pub const BURST_MS: u64 = 2000;

/// Who sent something. Addresses and identifiers are keys for accounting, nothing more.
#[derive(Clone, Copy, Debug, PartialEq, Eq)]
pub enum Peer {
    Steam(u64),
    Address { ip: [u8; 4], port: u16, kind: i32, local_net_id: i32 },
}

fn same_peer(a: Peer, b: Peer) -> (r: bool)
    ensures
        r == (a == b),
{
    match (a, b) {
        (Peer::Steam(x), Peer::Steam(y)) => x == y,
        (
            Peer::Address { ip: x, port: p, kind: k, local_net_id: l },
            Peer::Address { ip: y, port: q, kind: m, local_net_id: n },
        ) => {
            let same: bool = x[0] == y[0] && x[1] == y[1] && x[2] == y[2] && x[3] == y[3];
            assert(same == (x == y)) by {
                if same {
                    assert(x@ =~= y@);
                    assert(x =~= y);
                }
            }
            same && p == q && k == m && l == n
        },
        _ => false,
    }
}

#[derive(Clone, Copy, Debug, PartialEq, Eq, Structural)]
pub enum Channel {
    Social,
    Instant,
    P2pControl,
    Connectionless,
}

/// A rate per second; no bytes means that bytes are not counted.
#[derive(Clone, Copy, Debug, PartialEq, Eq, Structural)]
pub struct Budget {
    pub packets: u64,
    pub bytes: u64,
}

#[derive(Clone, Copy, Debug, PartialEq, Eq, Structural)]
pub struct Policy {
    pub peer: Budget,
    pub global: Budget,
}

impl Budget {
    /// A full bucket to which another burst of credit is added is still countable.
    pub open spec fn countable(self) -> bool {
        2 * self.packet_cap() <= u64::MAX && 2 * self.byte_cap() <= u64::MAX
    }

    /// The most packet credit that accumulates.
    pub open spec fn packet_cap(self) -> int {
        self.packets * BURST_MS
    }

    /// The most byte credit that accumulates.
    pub open spec fn byte_cap(self) -> int {
        self.bytes * BURST_MS
    }
}

/// The budgets of a channel.
pub open spec fn policy_of(channel: Channel) -> Policy {
    match channel {
        Channel::Social => Policy {
            peer: Budget { packets: 8, bytes: 0 },
            global: Budget { packets: 128, bytes: 0 },
        },
        Channel::Instant => Policy {
            peer: Budget { packets: 128, bytes: 0x4_0000 },
            global: Budget { packets: 4096, bytes: 0x80_0000 },
        },
        Channel::P2pControl => Policy {
            peer: Budget { packets: 256, bytes: 0x10_0000 },
            global: Budget { packets: 8192, bytes: 0x200_0000 },
        },
        Channel::Connectionless => Policy {
            peer: Budget { packets: 128, bytes: 0x4_0000 },
            global: Budget { packets: 4096, bytes: 0x80_0000 },
        },
    }
}

pub fn policy(channel: Channel) -> (r: Policy)
    ensures
        r == policy_of(channel),
        r.peer.countable(),
        r.global.countable(),
{
    match channel {
        Channel::Social => Policy {
            peer: Budget { packets: 8, bytes: 0 },
            global: Budget { packets: 128, bytes: 0 },
        },
        Channel::Instant => Policy {
            peer: Budget { packets: 128, bytes: 0x4_0000 },
            global: Budget { packets: 4096, bytes: 0x80_0000 },
        },
        Channel::P2pControl => Policy {
            peer: Budget { packets: 256, bytes: 0x10_0000 },
            global: Budget { packets: 8192, bytes: 0x200_0000 },
        },
        Channel::Connectionless => Policy {
            peer: Budget { packets: 128, bytes: 0x4_0000 },
            global: Budget { packets: 4096, bytes: 0x80_0000 },
        },
    }
}

/// Credit for packets and bytes, and when it was last brought up to date.
#[derive(Clone, Copy, Debug, PartialEq, Eq, Structural)]
pub struct Bucket {
    pub packets: u64,
    pub bytes: u64,
    pub updated: u64,
}

pub open spec fn least(a: int, b: int) -> int {
    if a <= b {
        a
    } else {
        b
    }
}

/// A full bucket.
pub open spec fn full(rate: Budget, now: u64) -> Bucket {
    Bucket { packets: rate.packet_cap() as u64, bytes: rate.byte_cap() as u64, updated: now }
}

/// The time for which credit is granted: none if the clock went back, at most one burst.
pub open spec fn credited_ms(updated: u64, now: u64) -> int {
    if now <= updated {
        0
    } else {
        least(now - updated, BURST_MS as int)
    }
}

/// A bucket brought up to date.
pub open spec fn refilled(b: Bucket, rate: Budget, now: u64) -> Bucket {
    let ms = credited_ms(b.updated, now);
    Bucket {
        packets: least(b.packets + ms * rate.packets, rate.packet_cap()) as u64,
        bytes: least(b.bytes + ms * rate.bytes, rate.byte_cap()) as u64,
        updated: if now > b.updated {
            now
        } else {
            b.updated
        },
    }
}

/// Whether the credit covers one packet of `bytes`.
pub open spec fn covers(b: Bucket, rate: Budget, bytes: u32) -> bool {
    b.packets >= UNIT && (rate.bytes == 0 || b.bytes >= bytes * UNIT)
}

/// A bucket after an attempt.
pub open spec fn charged(b: Bucket, rate: Budget, bytes: u32, now: u64) -> Bucket {
    let r = refilled(b, rate, now);
    if covers(r, rate, bytes) {
        Bucket {
            packets: (r.packets - UNIT) as u64,
            bytes: if rate.bytes == 0 {
                r.bytes
            } else {
                (r.bytes - bytes * UNIT) as u64
            },
            ..r
        }
    } else {
        r
    }
}

/// Whether an attempt is admitted.
pub open spec fn admitted(b: Bucket, rate: Budget, bytes: u32, now: u64) -> bool {
    covers(refilled(b, rate, now), rate, bytes)
}

impl Bucket {
    /// Never more than one burst of credit.
    pub open spec fn within(self, rate: Budget) -> bool {
        self.packets <= rate.packet_cap() && self.bytes <= rate.byte_cap()
    }

    pub fn new(rate: Budget, now: u64) -> (r: Self)
        requires
            rate.countable(),
        ensures
            r == full(rate, now),
            r.within(rate),
    {
        Bucket { packets: rate.packets * BURST_MS, bytes: rate.bytes * BURST_MS, updated: now }
    }

    /// Charges one packet if the credit covers it.
    pub fn take(&mut self, rate: Budget, bytes: u32, now: u64) -> (r: bool)
        requires
            rate.countable(),
            old(self).within(rate),
        ensures
            r == admitted(*old(self), rate, bytes, now),
            *final(self) == charged(*old(self), rate, bytes, now),
            final(self).within(rate),
    {
        let mut elapsed: u64 = now.saturating_sub(self.updated);
        if elapsed > BURST_MS {
            elapsed = BURST_MS;
        }
        if now > self.updated {
            self.updated = now;
        }
        assert(elapsed * rate.packets <= rate.packets * BURST_MS) by (nonlinear_arith)
            requires
                elapsed <= BURST_MS,
        ;
        assert(elapsed * rate.bytes <= rate.bytes * BURST_MS) by (nonlinear_arith)
            requires
                elapsed <= BURST_MS,
        ;
        let packets: u64 = self.packets + elapsed * rate.packets;
        let packet_cap: u64 = rate.packets * BURST_MS;
        self.packets = if packets < packet_cap {
            packets
        } else {
            packet_cap
        };
        let credit: u64 = self.bytes + elapsed * rate.bytes;
        let byte_cap: u64 = rate.bytes * BURST_MS;
        self.bytes = if credit < byte_cap {
            credit
        } else {
            byte_cap
        };
        assert(*self == refilled(*old(self), rate, now));
        let cost: u64 = bytes as u64 * UNIT;
        if self.packets < UNIT || (rate.bytes != 0 && self.bytes < cost) {
            return false;
        }
        self.packets = self.packets - UNIT;
        if rate.bytes != 0 {
            self.bytes = self.bytes - cost;
        }
        true
    }
}

/// A peer that was seen, with its own credit.
#[derive(Clone, Copy)]
pub struct Entry {
    pub peer: Peer,
    pub bucket: Bucket,
    pub last_seen: u64,
}

/// The admission of one channel: a shared bucket and a table of peers.
pub struct Gate {
    pub policy: Policy,
    pub global: Bucket,
    pub peers: [Option<Entry>; 256],
}

/// The first slot from `i` on that holds `peer`, or the number of slots.
pub open spec fn slot_of(slots: Seq<Option<Entry>>, peer: Peer, i: int) -> int
    decreases slots.len() - i,
{
    if i >= slots.len() {
        slots.len() as int
    } else if slots[i] is Some && slots[i]->Some_0.peer == peer {
        i
    } else {
        slot_of(slots, peer, i + 1)
    }
}

/// A slot that a new peer may take.
pub open spec fn vacant(slot: Option<Entry>, now: u64) -> bool {
    match slot {
        None => true,
        Some(entry) => now - entry.last_seen >= PEER_IDLE_MS,
    }
}

/// The first vacant slot from `i` on, or the number of slots.
pub open spec fn vacant_slot(slots: Seq<Option<Entry>>, now: u64, i: int) -> int
    decreases slots.len() - i,
{
    if i >= slots.len() {
        slots.len() as int
    } else if vacant(slots[i], now) {
        i
    } else {
        vacant_slot(slots, now, i + 1)
    }
}

/// The entry that an attempt leaves for its peer.
pub open spec fn updated_entry(entry: Entry, rate: Budget, bytes: u32, now: u64) -> Entry {
    Entry {
        peer: entry.peer,
        bucket: charged(entry.bucket, rate, bytes, now),
        last_seen: if now > entry.last_seen {
            now
        } else {
            entry.last_seen
        },
    }
}

/// The entry that a new peer starts with, before its first packet is charged.
pub open spec fn new_entry(peer: Peer, rate: Budget, now: u64) -> Entry {
    Entry { peer, bucket: full(rate, now), last_seen: now }
}

/// The table after an attempt that the shared bucket has admitted.
pub open spec fn table_after(
    slots: Seq<Option<Entry>>,
    rate: Budget,
    peer: Peer,
    bytes: u32,
    now: u64,
) -> Seq<Option<Entry>> {
    let at = slot_of(slots, peer, 0);
    let free = vacant_slot(slots, now, 0);
    if at < slots.len() {
        slots.update(at, Some(updated_entry(slots[at]->Some_0, rate, bytes, now)))
    } else if free < slots.len() {
        slots.update(free, Some(updated_entry(new_entry(peer, rate, now), rate, bytes, now)))
    } else {
        slots
    }
}

/// Whether the peer's own budget admits an attempt; a new peer finds no room in a full table.
pub open spec fn peer_admits(
    slots: Seq<Option<Entry>>,
    rate: Budget,
    peer: Peer,
    bytes: u32,
    now: u64,
) -> bool {
    let at = slot_of(slots, peer, 0);
    let free = vacant_slot(slots, now, 0);
    if at < slots.len() {
        admitted(slots[at]->Some_0.bucket, rate, bytes, now)
    } else if free < slots.len() {
        admitted(full(rate, now), rate, bytes, now)
    } else {
        false
    }
}

impl Gate {
    /// No bucket holds more than its burst, and no entry was charged after it was last seen.
    pub open spec fn wf(self) -> bool {
        &&& self.policy.peer.countable()
        &&& self.policy.global.countable()
        &&& self.global.within(self.policy.global)
        &&& forall|i: int|
            0 <= i < 256 && (#[trigger] self.peers@[i]) is Some ==> entry_wf(
                self.peers@[i]->Some_0,
                self.policy.peer,
            )
    }

    /// Whether an attempt is admitted.
    pub open spec fn admits(self, peer: Peer, bytes: u32, now: u64) -> bool {
        admitted(self.global, self.policy.global, bytes, now) && peer_admits(
            self.peers@,
            self.policy.peer,
            peer,
            bytes,
            now,
        )
    }

    /// `next` is this gate after an attempt: attempts are charged to everybody first, and only
    /// what passes there touches the table.
    pub open spec fn attempted(self, next: Gate, peer: Peer, bytes: u32, now: u64) -> bool {
        &&& next.policy == self.policy
        &&& next.global == charged(self.global, self.policy.global, bytes, now)
        &&& next.peers@ == (if admitted(self.global, self.policy.global, bytes, now) {
            table_after(self.peers@, self.policy.peer, peer, bytes, now)
        } else {
            self.peers@
        })
    }

    pub fn new(policy: Policy) -> (r: Self)
        requires
            policy.peer.countable(),
            policy.global.countable(),
        ensures
            r.wf(),
            r.policy == policy,
            r.global == full(policy.global, 0),
            forall|i: int| 0 <= i < 256 ==> (#[trigger] r.peers@[i]) is None,
    {
        Gate { policy, global: Bucket::new(policy.global, 0), peers: [None; 256] }
    }

    /// Decides on one attempt and charges it.
    pub fn allow(&mut self, peer: Peer, bytes: u32, now: u64) -> (r: bool)
        requires
            old(self).wf(),
        ensures
            final(self).wf(),
            r == old(self).admits(peer, bytes, now),
            old(self).attempted(*final(self), peer, bytes, now),
    {
        if !self.global.take(self.policy.global, bytes, now) {
            return false;
        }
        let rate: Budget = self.policy.peer;
        let mut free: usize = 256;
        let mut i: usize = 0;
        while i < 256
            invariant
                i <= 256,
                rate == self.policy.peer,
                self.policy == old(self).policy,
                self.peers == old(self).peers,
                old(self).wf(),
                self.wf(),
                self.global == charged(old(self).global, old(self).policy.global, bytes, now),
                admitted(old(self).global, old(self).policy.global, bytes, now),
                slot_of(self.peers@, peer, i as int) == slot_of(self.peers@, peer, 0),
                free == 256 ==> vacant_slot(self.peers@, now, i as int) == vacant_slot(
                    self.peers@,
                    now,
                    0,
                ),
                free < 256 ==> free == vacant_slot(self.peers@, now, 0),
                free <= 256,
            decreases 256 - i,
        {
            match self.peers[i] {
                Some(entry) => {
                    if same_peer(entry.peer, peer) {
                        let mut kept: Entry = entry;
                        if now > kept.last_seen {
                            kept.last_seen = now;
                        }
                        let allowed: bool = kept.bucket.take(rate, bytes, now);
                        assert(kept == updated_entry(entry, rate, bytes, now));
                        self.peers[i] = Some(kept);
                        assert(self.peers@ =~= old(self).peers@.update(i as int, Some(kept)));
                        return allowed;
                    }
                    if now.saturating_sub(entry.last_seen) >= PEER_IDLE_MS && free == 256 {
                        free = i;
                    }
                },
                None => {
                    if free == 256 {
                        free = i;
                    }
                },
            }
            i = i + 1;
        }
        if free == 256 {
            return false;
        }
        let mut entry = Entry { peer, bucket: Bucket::new(rate, now), last_seen: now };
        let allowed: bool = entry.bucket.take(rate, bytes, now);
        assert(entry == updated_entry(new_entry(peer, rate, now), rate, bytes, now));
        self.peers[free] = Some(entry);
        assert(self.peers@ =~= old(self).peers@.update(free as int, Some(entry)));
        allowed
    }
}

pub open spec fn entry_wf(entry: Entry, rate: Budget) -> bool {
    entry.bucket.within(rate) && entry.bucket.updated <= entry.last_seen
}

#[derive(Clone, Copy, Debug, PartialEq, Eq, Structural)]
pub enum Event {
    Envelope,
    Instant,
    P2p,
    Lobby,
    SocialRate,
    InstantRate,
    P2pRate,
    ConnectionlessRate,
    FriendsRetry,
}

pub open spec fn event_index(event: Event) -> int {
    match event {
        Event::Envelope => 0,
        Event::Instant => 1,
        Event::P2p => 2,
        Event::Lobby => 3,
        Event::SocialRate => 4,
        Event::InstantRate => 5,
        Event::P2pRate => 6,
        Event::ConnectionlessRate => 7,
        Event::FriendsRetry => 8,
    }
}

/// How often each event has happened since the last report.
pub struct Events {
    pub counts: [u64; 9],
}

impl Default for Events {
    fn default() -> (r: Self)
        ensures
            r.counts@ == Seq::new(9, |i: int| 0u64),
    {
        let r = Events { counts: [0u64; 9] };
        assert(r.counts@ =~= Seq::new(9, |i: int| 0u64));
        r
    }
}

/// An event was counted.
pub open spec fn was_recorded(counts: Seq<u64>, after: Seq<u64>, event: Event) -> bool {
    after == counts.update(
        event_index(event),
        counts[event_index(event)].wrapping_add(1),
    )
}

/// Counts one event; the counter wraps.
pub fn record(events: &mut Events, event: Event)
    ensures
        was_recorded(old(events).counts@, final(events).counts@, event),
{
    let i: usize = match event {
        Event::Envelope => 0,
        Event::Instant => 1,
        Event::P2p => 2,
        Event::Lobby => 3,
        Event::SocialRate => 4,
        Event::InstantRate => 5,
        Event::P2pRate => 6,
        Event::ConnectionlessRate => 7,
        Event::FriendsRetry => 8,
    };
    let count: u64 = events.counts[i].wrapping_add(1);
    events.counts[i] = count;
    assert(events.counts@ =~= old(events).counts@.update(event_index(event), count));
}

/// One gate per channel, so that no channel consumes another's credit.
pub struct Gates {
    pub social: Gate,
    pub instant: Gate,
    pub p2p_control: Gate,
    pub connectionless: Gate,
}

impl Gates {
    pub open spec fn wf(self) -> bool {
        &&& self.social.wf()
        &&& self.instant.wf()
        &&& self.p2p_control.wf()
        &&& self.connectionless.wf()
    }

    pub open spec fn gate(self, channel: Channel) -> Gate {
        match channel {
            Channel::Social => self.social,
            Channel::Instant => self.instant,
            Channel::P2pControl => self.p2p_control,
            Channel::Connectionless => self.connectionless,
        }
    }

    pub fn new() -> (r: Self)
        ensures
            r.wf(),
            forall|channel: Channel|
                (#[trigger] r.gate(channel)).policy == policy_of(channel) && r.gate(channel).global
                    == full(policy_of(channel).global, 0) && forall|i: int|
                    0 <= i < 256 ==> (#[trigger] r.gate(channel).peers@[i]) is None,
    {
        Gates {
            social: Gate::new(policy(Channel::Social)),
            instant: Gate::new(policy(Channel::Instant)),
            p2p_control: Gate::new(policy(Channel::P2pControl)),
            connectionless: Gate::new(policy(Channel::Connectionless)),
        }
    }
}

/// The event that a refusal on `channel` counts as.
pub open spec fn refusal_of(channel: Channel) -> Event {
    match channel {
        Channel::Social => Event::SocialRate,
        Channel::Instant => Event::InstantRate,
        Channel::P2pControl => Event::P2pRate,
        Channel::Connectionless => Event::ConnectionlessRate,
    }
}

/// An attempt was decided on.
pub open spec fn attempt_led_to(
    before: Gates,
    after: Gates,
    counts: Seq<u64>,
    counts_after: Seq<u64>,
    channel: Channel,
    peer: Peer,
    bytes: u32,
    now: u64,
    r: bool,
) -> bool {
    &&& r == before.gate(channel).admits(peer, bytes, now)
    &&& before.gate(channel).attempted(after.gate(channel), peer, bytes, now)
    &&& forall|other: Channel|
        other != channel ==> #[trigger] after.gate(other) == before.gate(other)
    &&& counts_after == (if r {
        counts
    } else {
        counts.update(
            event_index(refusal_of(channel)),
            counts[event_index(refusal_of(channel))].wrapping_add(1),
        )
    })
}

/// Decides on one attempt on `channel`; refusals are counted.
pub fn allow(
    gates: &mut Gates,
    events: &mut Events,
    channel: Channel,
    peer: Peer,
    bytes: u32,
    now: u64,
) -> (r: bool)
    requires
        old(gates).wf(),
    ensures
        final(gates).wf(),
        attempt_led_to(*old(gates), *final(gates), old(events).counts@, final(events).counts@, channel, peer, bytes, now, r),
{
    let allowed: bool = match channel {
        Channel::Social => gates.social.allow(peer, bytes, now),
        Channel::Instant => gates.instant.allow(peer, bytes, now),
        Channel::P2pControl => gates.p2p_control.allow(peer, bytes, now),
        Channel::Connectionless => gates.connectionless.allow(peer, bytes, now),
    };
    if !allowed {
        record(
            events,
            match channel {
                Channel::Social => Event::SocialRate,
                Channel::Instant => Event::InstantRate,
                Channel::P2pControl => Event::P2pRate,
                Channel::Connectionless => Event::ConnectionlessRate,
            },
        );
    }
    allowed
}

/// The journal line for `c`.
pub open spec fn report_line(c: Seq<u64>) -> Seq<char> {
    "network-guard envelope="@ + text::decimal(c[0] as nat) + " instant="@ + text::decimal(
        c[1] as nat,
    ) + " p2p="@ + text::decimal(c[2] as nat) + " lobby="@ + text::decimal(c[3] as nat)
        + " social_limited="@ + text::decimal(c[4] as nat) + " instant_limited="@ + text::decimal(
        c[5] as nat,
    ) + " p2p_limited="@ + text::decimal(c[6] as nat) + " oob_limited="@ + text::decimal(c[7] as nat)
        + " friends_refresh_failed="@ + text::decimal(c[8] as nat)
}

/// The counters were reported.
pub open spec fn was_reported(counts: Seq<u64>, after: Seq<u64>, r: Option<String>) -> bool {
    &&& after == Seq::new(9, |i: int| 0u64)
    &&& r is Some <==> exists|i: int| 0 <= i < 9 && #[trigger] counts[i] != 0
    &&& r is Some ==> r->Some_0@ == report_line(counts)
}

/// Takes the counters and gives the line to journal, if anything happened.
pub fn report(events: &mut Events) -> (r: Option<String>)
    ensures
        was_reported(old(events).counts@, final(events).counts@, r),
{
    let c: [u64; 9] = events.counts;
    events.counts = [0u64; 9];
    assert(events.counts@ =~= Seq::new(9, |i: int| 0u64));
    let mut any: bool = false;
    let mut i: usize = 0;
    while i < 9
        invariant
            i <= 9,
            any == exists|k: int| 0 <= k < i && #[trigger] c@[k] != 0,
        decreases 9 - i,
    {
        if c[i] != 0 {
            any = true;
        }
        i = i + 1;
    }
    if !any {
        return None;
    }
    let mut out = "network-guard envelope=".to_owned();
    push_decimal(&mut out, c[0]);
    out.append(" instant=");
    push_decimal(&mut out, c[1]);
    out.append(" p2p=");
    push_decimal(&mut out, c[2]);
    out.append(" lobby=");
    push_decimal(&mut out, c[3]);
    out.append(" social_limited=");
    push_decimal(&mut out, c[4]);
    out.append(" instant_limited=");
    push_decimal(&mut out, c[5]);
    out.append(" p2p_limited=");
    push_decimal(&mut out, c[6]);
    out.append(" oob_limited=");
    push_decimal(&mut out, c[7]);
    out.append(" friends_refresh_failed=");
    push_decimal(&mut out, c[8]);
    Some(out)
}

/// Turning the clock back mints no credit.
pub proof fn lemma_rollback_mints_nothing(b: Bucket, rate: Budget, now: u64)
    requires
        rate.countable(),
        b.within(rate),
        now <= b.updated,
    ensures
        refilled(b, rate, now) == b,
{
}

/// An attempt of `bytes` at a time.
pub struct Attempt {
    pub bytes: u32,
    pub now: u64,
}

/// A bucket after a series of attempts.
pub open spec fn after_attempts(b: Bucket, rate: Budget, calls: Seq<Attempt>) -> Bucket
    decreases calls.len(),
{
    if calls.len() == 0 {
        b
    } else {
        charged(
            after_attempts(b, rate, calls.drop_last()),
            rate,
            calls.last().bytes,
            calls.last().now,
        )
    }
}

/// How many of a series of attempts are admitted.
pub open spec fn admitted_packets(b: Bucket, rate: Budget, calls: Seq<Attempt>) -> int
    decreases calls.len(),
{
    if calls.len() == 0 {
        0
    } else {
        admitted_packets(b, rate, calls.drop_last()) + if admitted(
            after_attempts(b, rate, calls.drop_last()),
            rate,
            calls.last().bytes,
            calls.last().now,
        ) {
            1int
        } else {
            0
        }
    }
}

/// How many bytes the admitted attempts of a series carry.
pub open spec fn admitted_bytes(b: Bucket, rate: Budget, calls: Seq<Attempt>) -> int
    decreases calls.len(),
{
    if calls.len() == 0 {
        0
    } else {
        admitted_bytes(b, rate, calls.drop_last()) + if admitted(
            after_attempts(b, rate, calls.drop_last()),
            rate,
            calls.last().bytes,
            calls.last().now,
        ) {
            calls.last().bytes as int
        } else {
            0
        }
    }
}

proof fn lemma_charge(b: Bucket, rate: Budget, bytes: u32, now: u64)
    requires
        rate.countable(),
        b.within(rate),
    ensures
        charged(b, rate, bytes, now).within(rate),
        b.updated <= charged(b, rate, bytes, now).updated,
        charged(b, rate, bytes, now).packets + (if admitted(b, rate, bytes, now) {
            UNIT as int
        } else {
            0
        }) <= b.packets + rate.packets * (charged(b, rate, bytes, now).updated - b.updated),
        rate.bytes != 0 ==> charged(b, rate, bytes, now).bytes + (if admitted(
            b,
            rate,
            bytes,
            now,
        ) {
            bytes * UNIT
        } else {
            0
        }) <= b.bytes + rate.bytes * (charged(b, rate, bytes, now).updated - b.updated),
{
    let ms = credited_ms(b.updated, now);
    let passed = charged(b, rate, bytes, now).updated - b.updated;
    assert(0 <= ms <= passed);
    assert(0 <= ms * rate.packets <= rate.packets * passed) by (nonlinear_arith)
        requires
            0 <= ms <= passed,
            0 <= rate.packets,
    ;
    assert(0 <= ms * rate.bytes <= rate.bytes * passed) by (nonlinear_arith)
        requires
            0 <= ms <= passed,
            0 <= rate.bytes,
    ;
}

/// Over any series of attempts, in whatever order their times come, no more passes than the
/// credit at hand and the rate times the time that passed.
pub proof fn lemma_rate_is_kept(b: Bucket, rate: Budget, calls: Seq<Attempt>)
    requires
        rate.countable(),
        b.within(rate),
    ensures
        after_attempts(b, rate, calls).within(rate),
        b.updated <= after_attempts(b, rate, calls).updated,
        admitted_packets(b, rate, calls) * UNIT + after_attempts(b, rate, calls).packets
            <= b.packets + rate.packets * (after_attempts(b, rate, calls).updated - b.updated),
        rate.bytes != 0 ==> admitted_bytes(b, rate, calls) * UNIT + after_attempts(
            b,
            rate,
            calls,
        ).bytes <= b.bytes + rate.bytes * (after_attempts(b, rate, calls).updated - b.updated),
    decreases calls.len(),
{
    if calls.len() > 0 {
        let before = after_attempts(b, rate, calls.drop_last());
        let after = after_attempts(b, rate, calls);
        lemma_rate_is_kept(b, rate, calls.drop_last());
        lemma_charge(before, rate, calls.last().bytes, calls.last().now);
        assert(rate.packets * (after.updated - b.updated) == rate.packets * (before.updated
            - b.updated) + rate.packets * (after.updated - before.updated)) by (nonlinear_arith);
        assert(rate.bytes * (after.updated - b.updated) == rate.bytes * (before.updated - b.updated)
            + rate.bytes * (after.updated - before.updated)) by (nonlinear_arith);
    } else {
        assert(rate.packets * (b.updated - b.updated) == 0) by (nonlinear_arith);
        assert(rate.bytes * (b.updated - b.updated) == 0) by (nonlinear_arith);
    }
}

proof fn lemma_slots(slots: Seq<Option<Entry>>, peer: Peer, now: u64, i: int)
    requires
        0 <= i <= slots.len(),
    ensures
        i <= slot_of(slots, peer, i) <= slots.len(),
        slot_of(slots, peer, i) < slots.len() ==> slots[slot_of(slots, peer, i)] is Some
            && slots[slot_of(slots, peer, i)]->Some_0.peer == peer,
        i <= vacant_slot(slots, now, i) <= slots.len(),
        vacant_slot(slots, now, i) < slots.len() ==> vacant(slots[vacant_slot(slots, now, i)], now),
    decreases slots.len() - i,
{
    if i < slots.len() {
        lemma_slots(slots, peer, now, i + 1);
    }
}

/// Nobody's attempt evicts a peer that was seen within the last half minute.
pub proof fn lemma_live_peers_stay(gate: Gate, next: Gate, peer: Peer, bytes: u32, now: u64, i: int)
    requires
        gate.attempted(next, peer, bytes, now),
        0 <= i < 256,
        !vacant(gate.peers@[i], now),
    ensures
        next.peers@[i] is Some,
        next.peers@[i]->Some_0.peer == gate.peers@[i]->Some_0.peer,
{
    lemma_slots(gate.peers@, peer, now, 0);
}

/// An attempt that exceeds the shared budget leaves the table as it was.
pub proof fn lemma_shared_budget_first(gate: Gate, next: Gate, peer: Peer, bytes: u32, now: u64)
    requires
        gate.attempted(next, peer, bytes, now),
        !admitted(gate.global, gate.policy.global, bytes, now),
    ensures
        next.peers@ == gate.peers@,
        !gate.admits(peer, bytes, now),
{
}

/// A peer that comes back after its entry expired has no more credit than its old bucket would
/// have had by then.
pub proof fn lemma_expiry_mints_nothing(entry: Entry, rate: Budget, now: u64)
    requires
        rate.countable(),
        entry_wf(entry, rate),
        vacant(Some(entry), now),
    ensures
        refilled(entry.bucket, rate, now) == full(rate, now),
{
    assert(credited_ms(entry.bucket.updated, now) == BURST_MS);
    let burst = BURST_MS as int;
    assert(burst * rate.packets == rate.packet_cap()) by (nonlinear_arith)
        requires
            burst == BURST_MS,
            rate.packet_cap() == rate.packets * BURST_MS,
    ;
    assert(burst * rate.bytes == rate.byte_cap()) by (nonlinear_arith)
        requires
            burst == BURST_MS,
            rate.byte_cap() == rate.bytes * BURST_MS,
    ;
}

} // verus!
