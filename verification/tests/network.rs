//! Budgets, the inspection of lobby messages, and who may reach the player.
use std::collections::HashSet;
use t7patch::reader::{command_label, fault, rejects, Reason, Sample, Samples, Stage, SLOTS};
use t7patch::network_guard::{
    policy, record, report, Bucket, Budget, Channel, Event, Events, Gate, Gates, Peer,
    PEERS, PEER_IDLE_MS,
};
use t7patch::packets::{
    descriptor_fault, heartbeat, info_response, inspect, join, lobby, lobby_game, pending_inspected,
    pending_prepared, pending_read, pending_sender, pending_start, replay, type_after, Fault,
    Inspected, Inspection, Kind, Message, Pending, Query, Reply, Wire,
};
use t7patch::protection::{
    admit_p2p, admit_social, allow_friend, cached_friend, chat_entry, chat_sender_known,
    collect_friends, fails_fast, friend_count, read_p2p, Admission, Delivery, Downloads, Friends, Ownership,
};
use t7patch::structs::{LobbyMsg, Msg};

#[test]
fn burst_refill_bytes_and_clock_rollback() {
    let rate = Budget {
        packets: 2,
        bytes: 100,
    };
    let mut bucket = Bucket::new(rate, 1000);
    assert!(bucket.take(rate, 200, 1000));
    assert!(!bucket.take(rate, 1, 1000));
    assert!(bucket.take(rate, 50, 1500));
    assert!(!bucket.take(rate, 1, 1200));
    assert!(!bucket.take(rate, 1, 1500)); // Rolling the clock back did not mint credit.
    assert!(bucket.take(rate, 200, u64::MAX));
    assert!(!bucket.take(rate, 1, u64::MAX));
    let mut bucket = Bucket::new(rate, 0);
    assert!(!bucket.take(rate, u32::MAX, 0));
    for _ in 0..4 {
        assert!(bucket.take(rate, 0, 0));
    }
    assert!(!bucket.take(rate, 0, 0));
    assert!(bucket.take(rate, 0, 500));
}

#[test]
fn full_table_does_not_evict_live_peers_and_expires_idle_entries() {
    let mut gate = Gate::new(policy(Channel::Instant));
    for peer in 0..PEERS as u64 {
        assert!(gate.allow(Peer::Steam(peer), 32, 0));
    }
    assert!(!gate.allow(Peer::Steam(999), 32, 0));
    assert!(gate.allow(Peer::Steam(0), 32, 1));
    assert!(gate.allow(Peer::Steam(999), 32, PEER_IDLE_MS));
    assert!(gate
        .peers
        .iter()
        .flatten()
        .any(|entry| entry.peer == Peer::Steam(0)));
}

#[test]
fn distributed_attempts_cannot_bypass_global_budget() {
    let mut gate = Gate::new(policy(Channel::Social));
    for peer in 0..256 {
        assert!(gate.allow(Peer::Steam(peer), 0, 0));
    }
    assert!(!gate.allow(Peer::Steam(0), 0, 0));
    assert!(gate.allow(Peer::Steam(0), 0, 8));
}

#[test]
fn concurrent_invites_share_one_peer_budget() {
    let mut gate = Gate::new(policy(Channel::Social));
    let mut accepted = 0;
    for _ in 0..8 {
        for _ in 0..16 {
            if gate.allow(Peer::Steam(7), 0, 0) {
                accepted += 1;
            }
        }
    }
    assert_eq!(accepted, 16);
}

#[test]
fn eighteen_peers_can_exchange_control_traffic_without_shared_mode_state() {
    // The admission policies do not branch on Campaign/MP/Zombies or reset on a mode change.
    for channel in [Channel::Instant, Channel::P2pControl, Channel::Connectionless] {
        let mut gate = Gate::new(policy(channel));
        for tick in 0..1000 {
            for peer in 1..=18 {
                assert!(gate.allow(Peer::Steam(peer), 1024, tick * 50));
            }
        }
    }
}

#[test]
fn addresses_are_peers_of_their_own() {
    let peer = |port| Peer::Address {
        ip: [10, 0, 0, 1],
        port,
        kind: 4,
        local_net_id: 0,
    };
    let mut gate = Gate::new(policy(Channel::Connectionless));
    let limit = 2 * policy(Channel::Connectionless).peer.packets;
    for _ in 0..limit {
        assert!(gate.allow(peer(1), 0, 0));
    }
    assert!(!gate.allow(peer(1), 0, 0));
    assert!(gate.allow(peer(2), 0, 0));
}

#[test]
fn events_are_reported_once() {
    let mut events = Events::default();
    assert_eq!(report(&mut events), None);
    record(&mut events, Event::Envelope);
    record(&mut events, Event::Lobby);
    record(&mut events, Event::Lobby);
    record(&mut events, Event::FriendsRetry);
    assert_eq!(
        report(&mut events).unwrap(),
        "network-guard envelope=1 instant=0 p2p=0 lobby=2 social_limited=0 instant_limited=0 p2p_limited=0 oob_limited=0 friends_refresh_failed=1"
    );
    assert_eq!(report(&mut events), None);
}

#[test]
fn refused_traffic_is_counted_by_channel() {
    let mut gates = Gates::new();
    let mut events = Events::default();
    for (channel, name) in [
        (Channel::Social, "social_limited=1 "),
        (Channel::Instant, "instant_limited=1 "),
        (Channel::P2pControl, "p2p_limited=1 "),
        (Channel::Connectionless, "oob_limited=1 "),
    ] {
        assert!(t7patch::network_guard::allow(&mut gates, &mut events, channel, Peer::Steam(3), 10, 0));
        assert_eq!(report(&mut events), None);
        let mut now = 0;
        while t7patch::network_guard::allow(
            &mut gates,
            &mut events,
            channel,
            Peer::Steam(3),
            10,
            0,
        ) {
            now += 1;
            assert!(now < 10000);
        }
        assert!(report(&mut events).unwrap().contains(name));
    }
}

struct Fake {
    count: i32,
    elements: usize,
    reads: usize,
}
impl Wire for Fake {
    fn field(&mut self, _: Kind, key: &'static str) -> Option<u64> {
        self.reads += 1;
        Some(if key == "membercount" {
            self.count as u32 as u64
        } else {
            0
        })
    }
    fn array(&mut self, _: &'static str) -> bool {
        true
    }
    fn element(&mut self, _: bool) -> bool {
        if self.elements == 0 {
            false
        } else {
            self.elements -= 1;
            true
        }
    }
    fn mutable_client(&mut self) -> bool {
        true
    }
}

#[test]
fn join_bounds_and_extra_elements() {
    for (count, elements, valid) in [
        (0, 0, true),
        (18, 18, true),
        (19, 19, false),
        (-1, 0, false),
        (0, 1, false),
        (1, 2, false),
        (2, 1, false),
    ] {
        let mut wire = Fake {
            count,
            elements,
            reads: 0,
        };
        assert_eq!(
            join(&mut wire).is_ok(),
            valid,
            "count={count}, elements={elements}"
        );
        if !(0..=18).contains(&count) {
            assert_eq!(wire.reads, 20);
        }
    }
}

#[test]
fn heartbeat_nominee_limit() {
    for (elements, valid) in [(0, true), (18, true), (19, false)] {
        assert_eq!(
            heartbeat(&mut Fake {
                count: 0,
                elements,
                reads: 0
            })
            .is_ok(),
            valid
        );
    }
}

/// Fails at the field after `left` good ones.
struct Cut {
    left: usize,
}
impl Wire for Cut {
    fn field(&mut self, _: Kind, _: &'static str) -> Option<u64> {
        if self.left == 0 {
            return None;
        }
        self.left -= 1;
        Some(0)
    }
    fn array(&mut self, _: &'static str) -> bool {
        true
    }
    fn element(&mut self, _: bool) -> bool {
        false
    }
    fn mutable_client(&mut self) -> bool {
        true
    }
}

#[test]
fn a_failed_read_rejects_every_message() {
    assert!(join(&mut Cut { left: 3 }).is_err());
    assert!(lobby(&mut Cut { left: 2 }).is_err());
    assert!(lobby_game(&mut Cut { left: 2 }).is_err());
    assert!(heartbeat(&mut Cut { left: 1 }).is_err());
    assert!(info_response(&mut Cut { left: 0 }).is_err());
    assert!(lobby(&mut Cut { left: 1000 }).is_ok());
    assert!(lobby_game(&mut Cut { left: 1000 }).is_ok());
}

#[test]
fn answers_decide_the_verdict() {
    let zero = Reply::Value(0);
    let mut heartbeat = Inspection::of(Message::Heartbeat);
    assert!(matches!(
        heartbeat.query(),
        Some(Query::Field {
            kind: Kind::Int,
            key: "heartbeatnum"
        })
    ));
    for _ in 0..3 {
        heartbeat.answer(zero);
    }
    assert!(matches!(
        heartbeat.query(),
        Some(Query::Array { key: "nomineelist" })
    ));
    assert_eq!(heartbeat.verdict(), None);
    heartbeat.answer(Reply::Value(1));
    assert!(matches!(
        heartbeat.query(),
        Some(Query::Element { expected: true })
    ));
    heartbeat.answer(Reply::Failed);
    assert_eq!(heartbeat.verdict(), Some(true));
    assert!(heartbeat.query().is_none());
    let replies = vec![zero, zero, zero, Reply::Value(1), Reply::Failed];
    assert_eq!(replay(Message::Heartbeat, &replies), Some(true));
    assert_eq!(replay(Message::Heartbeat, &replies[..4].to_vec()), None);
    assert_eq!(replay(Message::Heartbeat, &vec![Reply::Failed]), Some(false));
    // The second element of a list of one.
    let mut joined = vec![zero; 19];
    joined.extend([Reply::Value(1), Reply::Value(1), Reply::Value(1)]);
    joined.extend([zero; 6]);
    let mut longer = joined.clone();
    joined.push(Reply::Failed);
    assert_eq!(replay(Message::Join, &joined), Some(true));
    longer.push(Reply::Value(1));
    assert_eq!(replay(Message::Join, &longer), Some(false));
}

fn sound() -> Msg {
    Msg {
        overflowed: 0,
        read_only: 0,
        data: 0x10000,
        split_data: 0,
        max_size: 2048,
        cur_size: 100,
        split_size: 0,
        read_count: 2,
        bit: 0,
        last_entity: 0,
        flush: 0,
        target: 0,
    }
}

#[test]
fn message_descriptors_are_checked() {
    assert_eq!(descriptor_fault(&sound()), None);
    let mut m = sound();
    m.overflowed = 1;
    assert_eq!(descriptor_fault(&m), Some(Fault::Overflowed));
    m = sound();
    m.cur_size = 0x8000_0000;
    assert_eq!(descriptor_fault(&m), Some(Fault::Size));
    m = sound();
    m.data = 0;
    assert_eq!(descriptor_fault(&m), Some(Fault::Buffer));
    m = sound();
    m.data = u64::MAX - 10;
    assert_eq!(descriptor_fault(&m), Some(Fault::Address));
    m = sound();
    m.read_count = m.cur_size + 1;
    assert_eq!(descriptor_fault(&m), Some(Fault::Cursor));
    m = sound();
    m.bit = -1;
    assert_eq!(descriptor_fault(&m), Some(Fault::Bit));
}

#[test]
fn rejected_messages_lose_their_type() {
    assert_eq!(type_after(7, Inspected::Rejected, 0), 0xff);
    assert_eq!(type_after(7, Inspected::Passed, 1), 0xff);
    assert_eq!(type_after(7, Inspected::Passed, 0), 7);
    assert_eq!(type_after(7, Inspected::Ignored, 1), 7);
    let unknown = LobbyMsg {
        msg: sound(),
        msg_type: 999,
        encode_flags: 0,
        package_type: 1,
    };
    assert_eq!(inspect(&unknown, &mut Cut { left: 0 }), Inspected::Ignored);
}

#[test]
fn pending_information_is_taken_step_by_step() {
    assert_eq!(pending_start(&sound()), Pending::Read { size: 98 });
    assert_eq!(pending_read(98, 0), Pending::Prepare { size: 98 });
    assert_ne!(pending_read(98, 1), Pending::Prepare { size: 98 });
    assert_ne!(
        pending_prepared(false, 1, 5, 6, true),
        pending_prepared(true, 1, 5, 6, true)
    );
    assert_ne!(pending_inspected(true, 0), pending_inspected(false, 0));
    assert_ne!(pending_sender(true), pending_sender(false));
}

fn cache() -> Friends {
    Friends {
        next: 0,
        xuids: HashSet::from([7]),
        refreshing: false,
    }
}

#[test]
fn failed_friend_refresh_preserves_snapshot_and_can_retry() {
    let mut cache = cache();
    assert!(cached_friend(&mut cache, 7, 10, true, || None));
    assert!(!cache.refreshing);
    assert!(cached_friend(&mut cache, 7, 10, false, || panic!(
        "in-game refresh"
    )));
    assert!(cached_friend(&mut cache, 9, 11, true, || Some((
        HashSet::from([9]),
        11
    ))));
    assert!(!cached_friend(&mut cache, 7, 12, true, || panic!(
        "premature refresh"
    )));
}

#[test]
fn friend_refresh_allows_reentrant_and_concurrent_readers() {
    let mut cache = cache();
    // The refresh is begun and Steam is asked; meanwhile others use the last snapshot.
    assert_eq!(cache.begin(9, 10, true), None);
    assert!(cached_friend(&mut cache, 7, 10, true, || panic!(
        "recursive refresh"
    )));
    assert!(!cached_friend(&mut cache, 9, 10, true, || panic!(
        "recursive refresh"
    )));
    assert!(cached_friend(&mut cache, 7, 10, true, || panic!(
        "concurrent refresh"
    )));
    assert!(cache.complete(9, Some((HashSet::from([9]), 20))));
    assert!(!cached_friend(&mut cache, 7, 21, true, || panic!(
        "premature refresh"
    )));
    assert!(cached_friend(&mut cache, 9, 21, true, || panic!(
        "premature refresh"
    )));
    assert_eq!(cache.next, 30020);
}

#[test]
fn friends_are_counted_and_collected() {
    assert_eq!(friend_count(-1), None);
    assert_eq!(friend_count(100001), None);
    assert_eq!(friend_count(100000), Some(100000));
    assert_eq!(
        collect_friends(&vec![5, 0, 6, 5]),
        HashSet::from([5, 6])
    );
    assert!(Friends::new().xuids.is_empty());
}

#[test]
fn the_filter_admits_friends_only() {
    assert!(allow_friend(false, false));
    assert!(!allow_friend(true, false));
    let mut gates = Gates::new();
    let mut events = Events::default();
    assert_eq!(admit_social(&mut gates, &mut events, 5, true, 0), Admission::AskFriend);
    assert_eq!(admit_social(&mut gates, &mut events, 6, false, 0), Admission::Accept);
    assert_eq!(admit_p2p(&mut gates, &mut events, 5, 100, false, 0), Admission::Accept);
    assert_eq!(admit_p2p(&mut gates, &mut events, 5, 100, true, 0), Admission::AskFriend);
    for _ in 0..15 {
        admit_social(&mut gates, &mut events, 5, true, 0);
    }
    // Over its budget a sender is refused, and nobody is asked about it.
    assert_eq!(admit_social(&mut gates, &mut events, 5, true, 0), Admission::Refuse);
    assert_eq!(events.counts[4], 1);
}

#[test]
fn packets_between_peers_are_checked() {
    assert_eq!(read_p2p(6, 100, Some(1), true), Delivery::Accept);
    assert_eq!(read_p2p(6, 100, Some(104), true), Delivery::AskSender);
    assert_eq!(read_p2p(6, 100, Some(104), false), Delivery::Refuse);
    for kind in [101, 102, 109] {
        assert_eq!(read_p2p(6, 100, Some(kind), true), Delivery::Refuse);
    }
    assert_eq!(read_p2p(101, 100, Some(1), true), Delivery::Refuse);
    assert_eq!(read_p2p(6, 100, None, true), Delivery::Refuse);
    assert_eq!(read_p2p(5, 100, None, true), Delivery::Accept);
    assert_eq!(read_p2p(5, 4, None, true), Delivery::Refuse);
}

#[test]
fn chat_comes_from_members() {
    assert!(chat_entry(true, 5, 10));
    assert!(!chat_entry(false, 5, 10));
    assert!(!chat_entry(true, 0, 10));
    assert!(!chat_entry(true, 11, 10));
    assert!(chat_sender_known(7, &vec![None, Some(7)]));
    assert!(!chat_sender_known(8, &vec![None, Some(7)]));
}

#[test]
fn answers_of_steam_are_kept() {
    let mut owned = Ownership::new();
    assert_eq!(owned.known(3), None);
    owned.remember(3, true);
    owned.remember(4, false);
    assert_eq!(owned.known(3), Some(true));
    assert_eq!(owned.known(4), Some(false));
    let mut downloads = Downloads::new();
    downloads.remember(3, 1000, 5, 10);
    assert_eq!(downloads.known(3, 1000), Some((5, 10)));
    assert_eq!(downloads.known(3, 300999), Some((5, 10)));
    assert_eq!(downloads.known(3, 301000), None);
}

fn captured() -> t7patch::structs::Msg {
    t7patch::structs::Msg {
        overflowed: 1,
        read_only: 0,
        data: 0x1000,
        split_data: 0,
        max_size: 19,
        cur_size: 19,
        split_size: 0,
        read_count: 19,
        bit: 0,
        last_entity: 0,
        flush: 0,
        target: 0,
    }
}

#[test]
fn overflowed_connect_response_is_observed() {
    let msg = captured();
    let reason = fault(Some(msg), true, true).unwrap();
    assert_eq!(reason, Reason::Overflowed);
    assert!(!rejects(Stage::Connectionless));
    assert!(rejects(Stage::Lobby) && rejects(Stage::Instant));
    let mut samples = Samples::new();
    let sample = Sample {
        stage: Stage::Connectionless,
        reason,
        command: command_label(b"connectResponse"),
        msg: Some(msg),
    };
    assert!(samples.note(sample));
    assert!(!samples.note(sample));
    assert_eq!(
        samples.report(),
        ["reader-diagnostic stage=connectionless-post-command action=observe reason=Overflowed command=connectResponse overflowed=1 capacity=19 cursize=19 split=0 readcount=19 bit=0"]
    );
    assert!(samples.report().is_empty());
    assert!(samples.note(sample));
}

#[test]
fn unreadable_readers_and_their_buffers() {
    assert_eq!(fault(None, true, true), Some(Reason::Descriptor));
    let mut msg = captured();
    msg.overflowed = 0;
    assert_eq!(fault(Some(msg), true, false), None);
    assert_eq!(fault(Some(msg), false, true), Some(Reason::Memory));
    msg.split_size = 1;
    msg.split_data = 0x2000;
    assert_eq!(fault(Some(msg), true, false), Some(Reason::Memory));
    msg.bit = -7;
    assert_eq!(fault(Some(msg), true, true), Some(Reason::Bit));
    assert_eq!(command_label(b"cfl"), "cfl");
    assert_eq!(command_label(b"made up"), "other");
    let mut samples = Samples::new();
    for (stage, reason, msg) in [
        (Stage::Lobby, Reason::Descriptor, None),
        (Stage::Instant, Reason::Bit, Some(msg)),
    ] {
        assert!(samples.note(Sample {
            stage,
            reason,
            command: "other",
            msg,
        }));
    }
    assert_eq!(
        samples.report(),
        [
            "reader-diagnostic stage=lobby-pre-read action=reject reason=Descriptor command=other metadata=unavailable",
            "reader-diagnostic stage=instant-pre-read action=reject reason=Bit command=other overflowed=0 capacity=19 cursize=19 split=1 readcount=19 bit=-7",
        ]
    );
}

#[test]
fn samples_are_bounded() {
    let mut samples = Samples::new();
    let mut kept = 0;
    for stage in [Stage::Connectionless, Stage::Lobby, Stage::Instant] {
        for reason in [
            Reason::Descriptor,
            Reason::Memory,
            Reason::Overflowed,
            Reason::Size,
            Reason::Buffer,
            Reason::Address,
            Reason::Cursor,
            Reason::Bit,
        ] {
            kept += samples.note(Sample {
                stage,
                reason,
                command: "other",
                msg: None,
            }) as usize;
        }
    }
    assert_eq!(kept, SLOTS);
    assert_eq!(samples.report().len(), SLOTS);
}

#[test]
fn failed_friend_refreshes_back_off_from_completion() {
    let mut retry = t7patch::protection::Retry::new();
    assert!(retry.due(0));
    let mut completed = 500;
    for delay in [1000, 2000, 4000, 8000, 16000, 30000, 30000] {
        retry.ended(false, completed);
        assert!(!retry.due(completed + delay - 1));
        assert!(retry.due(completed + delay));
        completed += delay + 7;
    }
    retry.ended(true, completed);
    assert!(retry.due(0));
    retry.ended(false, completed);
    assert!(retry.due(completed + 1000));
    retry.ended(false, u64::MAX);
    assert_eq!(retry.next, u64::MAX);
}

#[test]
fn refreshes_ask_only_when_due() {
    let mut friends = Friends::new();
    let mut asked = 0;
    for (now, can_refresh, due) in [(5, false, false), (5, true, true), (6, true, false), (30005, true, true)] {
        let before = asked;
        cached_friend(&mut friends, 1, now, can_refresh, || {
            asked += 1;
            Some((HashSet::from([1]), now))
        });
        assert_eq!(asked - before, due as i32);
    }
    assert!(fails_fast(0x17) && !fails_fast(0x16));
}

/// Counts every question that is put to it.
struct Counting {
    fields: usize,
    others: usize,
    left: usize,
}

impl Wire for Counting {
    fn field(&mut self, _: Kind, key: &'static str) -> Option<u64> {
        self.fields += 1;
        Some(if key == "membercount" { 2 } else { 0 })
    }
    fn array(&mut self, _: &'static str) -> bool {
        self.others += 1;
        true
    }
    fn element(&mut self, _: bool) -> bool {
        self.others += 1;
        let more = self.left > 0;
        self.left = self.left.saturating_sub(1);
        more
    }
    fn mutable_client(&mut self) -> bool {
        self.others += 1;
        true
    }
}

#[test]
fn every_question_is_asked_once() {
    let mut wire = Counting {
        fields: 0,
        others: 0,
        left: 2,
    };
    assert!(join(&mut wire).is_ok());
    // Twenty fields, an array, two members of six fields each and the end of the list.
    assert_eq!((wire.fields, wire.others, wire.left), (32, 4, 0));
}
