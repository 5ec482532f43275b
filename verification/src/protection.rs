//! Who may reach the player, and what is kept of what Steam has answered.
use crate::network_guard;
use crate::network_guard::{Channel, Events, Gates, Peer};
use crate::text;
use crate::text::push_hex;
use std::collections::{HashMap, HashSet};
use vstd::prelude::*;

verus! {

broadcast use vstd::std_specs::hash::group_hash_axioms;

pub const FRIENDS_MS: u64 = 30000;
pub const DOWNLOAD_MS: u64 = 300000;

/// The last complete list of friends, and when to ask again.
pub struct Friends {
    pub next: u64,
    pub xuids: HashSet<u64>,
    pub refreshing: bool,
}

/// Whether a reader has to bring the list up to date first.
pub open spec fn refresh_due(f: Friends, now: u64, can_refresh: bool) -> bool {
    can_refresh && now >= f.next && !f.refreshing
}

/// The list after Steam was asked: a failure keeps what was known.
pub open spec fn refreshed(
    f: Friends,
    after: Friends,
    result: Option<(HashSet<u64>, u64)>,
) -> bool {
    &&& !after.refreshing
    &&& match result {
        Some((xuids, completed)) => {
            &&& after.xuids@ == xuids@
            &&& after.next == completed.saturating_add(FRIENDS_MS)
        },
        None => after.xuids@ == f.xuids@ && after.next == f.next,
    }
}

/// Somebody was asked about.
pub open spec fn asked_about(
    before: Friends,
    after: Friends,
    xuid: u64,
    now: u64,
    can_refresh: bool,
    r: Option<bool>,
) -> bool {
    &&& after.next == before.next
    &&& after.xuids@ == before.xuids@
    &&& if refresh_due(before, now, can_refresh) {
        r is None && after.refreshing
    } else {
        r == Some(before.xuids@.contains(xuid)) && after.refreshing
            == before.refreshing
    }
}

impl Friends {
    pub fn new() -> (r: Self)
        ensures
            r.next == 0,
            r.xuids@ == Set::<u64>::empty(),
            !r.refreshing,
    {
        Friends { next: 0, xuids: HashSet::new(), refreshing: false }
    }

    /// Answers from the list, or starts a refresh. Whoever reads meanwhile gets the list as it
    /// was.
    pub fn begin(&mut self, xuid: u64, now: u64, can_refresh: bool) -> (r: Option<bool>)
        ensures
            asked_about(*old(self), *final(self), xuid, now, can_refresh, r),
    {
        if !can_refresh || now < self.next || self.refreshing {
            return Some(self.xuids.contains(&xuid));
        }
        self.refreshing = true;
        None
    }

    /// Ends a refresh with what Steam answered and when, and answers the reader that began it.
    pub fn complete(&mut self, xuid: u64, result: Option<(HashSet<u64>, u64)>) -> (r: bool)
        ensures
            refreshed(*old(self), *final(self), result),
            r == final(self).xuids@.contains(xuid),
    {
        self.refreshing = false;
        match result {
            Some((xuids, completed)) => {
                self.xuids = xuids;
                self.next = completed.saturating_add(FRIENDS_MS);
            },
            None => {},
        }
        self.xuids.contains(&xuid)
    }
}

/// Whether `xuid` is a friend; `fetch` is called only if the list is due.
pub fn cached_friend<F: FnOnce() -> Option<(HashSet<u64>, u64)>>(
    friends: &mut Friends,
    xuid: u64,
    now: u64,
    can_refresh: bool,
    fetch: F,
) -> (r: bool)
    requires
        refresh_due(*old(friends), now, can_refresh) ==> fetch.requires(()),
    ensures
        r == final(friends).xuids@.contains(xuid),
        if refresh_due(*old(friends), now, can_refresh) {
            exists|result: Option<(HashSet<u64>, u64)>| #[trigger]
                fetch.ensures((), result) && refreshed(*old(friends), *final(friends), result)
        } else {
            &&& final(friends).next == old(friends).next
            &&& final(friends).xuids@ == old(friends).xuids@
            &&& final(friends).refreshing == old(friends).refreshing
        },
{
    match friends.begin(xuid, now, can_refresh) {
        Some(known) => known,
        None => {
            let result: Option<(HashSet<u64>, u64)> = fetch();
            friends.complete(xuid, result)
        },
    }
}

/// How long to wait before Steam is asked again, after so many failures in a row.
pub open spec fn retry_delay(failures: nat) -> nat {
    if failures == 0 {
        0
    } else if failures == 1 {
        1000
    } else if failures == 2 {
        2000
    } else if failures == 3 {
        4000
    } else if failures == 4 {
        8000
    } else if failures == 5 {
        16000
    } else {
        30000
    }
}

/// When Steam may be asked again after it failed to list the friends.
#[derive(Clone, Copy, Debug, PartialEq, Eq, Structural)]
pub struct Retry {
    pub failures: u32,
    pub next: u64,
}

impl Retry {
    pub fn new() -> (r: Self)
        ensures
            r.failures == 0,
            r.next == 0,
    {
        Retry { failures: 0, next: 0 }
    }

    pub open spec fn due_of(self, now: u64) -> bool {
        now >= self.next
    }

    /// Whether a refresh may start.
    pub fn due(&self, now: u64) -> (r: bool)
        ensures
            r == self.due_of(now),
    {
        now >= self.next
    }

    /// The state after the end of a refresh.
    pub open spec fn ended_of(self, success: bool, completed: u64) -> Retry {
        if success {
            Retry { failures: 0, next: 0 }
        } else {
            let failures = self.failures.saturating_add(1);
            Retry { failures, next: completed.saturating_add(retry_delay(failures as nat) as u64) }
        }
    }

    /// Takes the end of a refresh. The wait counts from there; a success forgets all failures.
    pub fn ended(&mut self, success: bool, completed: u64)
        ensures
            *final(self) == old(self).ended_of(success, completed),
    {
        if success {
            self.failures = 0;
            self.next = 0;
            return;
        }
        self.failures = self.failures.saturating_add(1);
        let delay: u64 = match self.failures {
            1 => 1000,
            2 => 2000,
            3 => 4000,
            4 => 8000,
            5 => 16000,
            _ => 30000,
        };
        self.next = completed.saturating_add(delay);
    }
}

/// Waits never get shorter while Steam fails, and none is shorter than a second or longer than
/// half a minute.
pub proof fn lemma_retries_slow_down(fewer: nat, more: nat)
    requires
        1 <= fewer <= more,
    ensures
        1000 <= retry_delay(fewer) <= retry_delay(more) <= 30000,
{
}

/// The friends among the identifiers that Steam listed.
pub open spec fn listed(ids: Seq<u64>) -> Set<u64> {
    Set::new(|x: u64| x != 0 && ids.contains(x))
}

/// The numbers of friends that can be true.
pub open spec fn friend_count_of(count: i32) -> Option<u32> {
    if 0 <= count <= 100000 {
        Some(count as u32)
    } else {
        None::<u32>
    }
}

/// How many friends to ask for, if Steam's count can be one.
pub fn friend_count(count: i32) -> (r: Option<u32>)
    ensures
        r == friend_count_of(count),
{
    if count < 0 || count > 100000 {
        None
    } else {
        Some(count as u32)
    }
}

/// The list that the identifiers make; empty slots are left out.
pub fn collect_friends(ids: &Vec<u64>) -> (r: HashSet<u64>)
    ensures
        r@ == listed(ids@),
{
    let mut set: HashSet<u64> = HashSet::new();
    let mut i: usize = 0;
    assert(set@ =~= listed(ids@.take(0)));
    while i < ids.len()
        invariant
            i <= ids@.len(),
            set@ == listed(ids@.take(i as int)),
        decreases ids@.len() - i,
    {
        let id: u64 = ids[i];
        if id != 0 {
            set.insert(id);
        }
        assert(ids@.take(i + 1) =~= ids@.take(i as int).push(id));
        assert(forall|x: u64|
            ids@.take(i + 1).contains(x) <==> ids@.take(i as int).contains(x) || x == id) by {
            assert(ids@.take(i + 1)[i as int] == id);
            assert forall|x: u64| ids@.take(i as int).contains(x) implies ids@.take(i + 1).contains(
                x,
            ) by {
                let k = choose|k: int|
                    0 <= k < ids@.take(i as int).len() && ids@.take(i as int)[k] == x;
                assert(ids@.take(i + 1)[k] == x);
            }
        }
        assert(set@ =~= listed(ids@.take(i + 1)));
        i = i + 1;
    }
    assert(ids@.take(i as int) =~= ids@);
    set
}

/// Who is heard.
pub open spec fn allow_friend_of(friends_only: bool, friend: bool) -> bool {
    friends_only ==> friend
}

/// Whether somebody who asks to join or invites is heard: with the filter on, only friends.
pub fn allow_friend(friends_only: bool, friend: bool) -> (r: bool)
    ensures
        r == allow_friend_of(friends_only, friend),
{
    !friends_only || friend
}

/// The processor feature that is answered for.
pub open spec fn fails_fast_of(feature: u32) -> bool {
    feature == 0x17
}

/// Whether a processor feature is asked for that is about to be used to end the process.
pub fn fails_fast(feature: u32) -> (r: bool)
    ensures
        r == fails_fast_of(feature),
{
    feature == 0x17
}

/// What the budget of a sender and the filter say of what it sent.
#[derive(Clone, Copy, Debug, PartialEq, Eq, Structural)]
pub enum Admission {
    Refuse,
    Accept,
    /// Accept it from a friend only. Steam is asked after the budgets were charged, so that what
    /// exceeds them asks nobody.
    AskFriend,
}

pub open spec fn admission_of(admitted: bool, friends_only: bool) -> Admission {
    if !admitted {
        Admission::Refuse
    } else if friends_only {
        Admission::AskFriend
    } else {
        Admission::Accept
    }
}

fn admission(admitted: bool, friends_only: bool) -> (r: Admission)
    ensures
        r == admission_of(admitted, friends_only),
{
    if !admitted {
        Admission::Refuse
    } else if friends_only {
        Admission::AskFriend
    } else {
        Admission::Accept
    }
}

/// A social action was decided on.
pub open spec fn social_led_to(
    before: Gates,
    after: Gates,
    counts: Seq<u64>,
    counts_after: Seq<u64>,
    xuid: u64,
    friends_only: bool,
    now: u64,
    r: Admission,
) -> bool {
    &&& r == admission_of(before.social.admits(Peer::Steam(xuid), 0, now), friends_only)
    &&& before.social.attempted(after.social, Peer::Steam(xuid), 0, now)
    &&& after.instant == before.instant
    &&& after.p2p_control == before.p2p_control
    &&& after.connectionless == before.connectionless
    &&& counts_after == (if before.social.admits(Peer::Steam(xuid), 0, now) {
        counts
    } else {
        counts.update(4, counts[4].wrapping_add(1))
    })
}

/// Whether a social action of `xuid` is heard: within its budget, and if the filter is on only
/// from friends.
pub fn admit_social(
    gates: &mut Gates,
    events: &mut Events,
    xuid: u64,
    friends_only: bool,
    now: u64,
) -> (r: Admission)
    requires
        old(gates).wf(),
    ensures
        final(gates).wf(),
        social_led_to(*old(gates), *final(gates), old(events).counts@, final(events).counts@, xuid, friends_only, now, r),
{
    let admitted: bool = network_guard::allow(
        gates,
        events,
        Channel::Social,
        Peer::Steam(xuid),
        0,
        now,
    );
    assert(gates.gate(Channel::Instant) == old(gates).gate(Channel::Instant));
    assert(gates.gate(Channel::P2pControl) == old(gates).gate(Channel::P2pControl));
    assert(gates.gate(Channel::Connectionless) == old(gates).gate(Channel::Connectionless));
    admission(admitted, friends_only)
}

/// What to do about a packet that Steam delivered.
#[derive(Clone, Copy, Debug, PartialEq, Eq, Structural)]
pub enum Delivery {
    Accept,
    /// Accept only if the sender is within its budget and, with the filter on, a friend.
    AskSender,
    /// Refuse it, clear the reported size and count a failed check.
    Refuse,
}

/// What the type byte of a packet leads to: control packets are heard from friends only, and
/// three types from nobody.
pub open spec fn delivery_of(size: u32, capacity: u32, kind: Option<u8>, sender: bool) -> Delivery {
    if size > capacity {
        Delivery::Refuse
    } else if size <= 5 {
        Delivery::Accept
    } else {
        match kind {
            None => Delivery::Refuse,
            Some(kind) => if kind == 104 {
                if sender {
                    Delivery::AskSender
                } else {
                    Delivery::Refuse
                }
            } else if kind == 101 || kind == 102 || kind == 109 {
                Delivery::Refuse
            } else {
                Delivery::Accept
            },
        }
    }
}

/// Decides on a packet of `size` bytes in a buffer of `capacity`: `kind` is its type byte if
/// the buffer could be read, `sender` whether Steam named one.
pub fn read_p2p(size: u32, capacity: u32, kind: Option<u8>, sender: bool) -> (r: Delivery)
    ensures
        r == delivery_of(size, capacity, kind, sender),
{
    if size > capacity {
        return Delivery::Refuse;
    }
    if size <= 5 {
        return Delivery::Accept;
    }
    match kind {
        None => Delivery::Refuse,
        Some(kind) => if kind == 104 {
            if sender {
                Delivery::AskSender
            } else {
                Delivery::Refuse
            }
        } else if kind == 101 || kind == 102 || kind == 109 {
            Delivery::Refuse
        } else {
            Delivery::Accept
        },
    }
}

/// A control packet was decided on.
pub open spec fn p2p_led_to(
    before: Gates,
    after: Gates,
    counts: Seq<u64>,
    counts_after: Seq<u64>,
    xuid: u64,
    size: u32,
    friends_only: bool,
    now: u64,
    r: Admission,
) -> bool {
    &&& r == admission_of(
        before.p2p_control.admits(Peer::Steam(xuid), size, now),
        friends_only,
    )
    &&& before.p2p_control.attempted(after.p2p_control, Peer::Steam(xuid), size, now)
    &&& after.social == before.social
    &&& after.instant == before.instant
    &&& after.connectionless == before.connectionless
    &&& counts_after == (if before.p2p_control.admits(Peer::Steam(xuid), size, now) {
        counts
    } else {
        counts.update(6, counts[6].wrapping_add(1))
    })
}

/// Whether a control packet of a known sender is accepted.
pub fn admit_p2p(
    gates: &mut Gates,
    events: &mut Events,
    xuid: u64,
    size: u32,
    friends_only: bool,
    now: u64,
) -> (r: Admission)
    requires
        old(gates).wf(),
    ensures
        final(gates).wf(),
        p2p_led_to(*old(gates), *final(gates), old(events).counts@, final(events).counts@, xuid, size, friends_only, now, r),
{
    let admitted: bool = network_guard::allow(
        gates,
        events,
        Channel::P2pControl,
        Peer::Steam(xuid),
        size,
        now,
    );
    assert(gates.gate(Channel::Social) == old(gates).gate(Channel::Social));
    assert(gates.gate(Channel::Instant) == old(gates).gate(Channel::Instant));
    assert(gates.gate(Channel::Connectionless) == old(gates).gate(Channel::Connectionless));
    admission(admitted, friends_only)
}

/// The chat entries that are looked at.
pub open spec fn chat_entry_of(user: bool, result: i32, capacity: i32) -> bool {
    user && 0 < result <= capacity
}

/// Whether a chat entry of `result` bytes in a buffer of `capacity` is one at all.
pub fn chat_entry(user: bool, result: i32, capacity: i32) -> (r: bool)
    ensures
        r == chat_entry_of(user, result, capacity),
{
    user && result > 0 && capacity > 0 && result <= capacity
}

/// Who may write to a chat.
pub open spec fn chat_sender_known_of(sender: u64, members: &Vec<Option<u64>>) -> bool {
    members@.contains(Some(sender))
}

/// Whether the sender of a chat entry is in the lobby: `members` holds the identifier of each
/// client that could be read.
pub fn chat_sender_known(sender: u64, members: &Vec<Option<u64>>) -> (r: bool)
    ensures
        r == chat_sender_known_of(sender, members),
{
    let mut i: usize = 0;
    while i < members.len()
        invariant
            i <= members@.len(),
            forall|k: int| 0 <= k < i ==> members@[k] != Some(sender),
        decreases members@.len() - i,
    {
        match members[i] {
            Some(xuid) => if xuid == sender {
                assert(members@[i as int] == Some(sender));
                return true;
            },
            None => {},
        }
        i = i + 1;
    }
    false
}

/// Content that Steam has said to be owned or not.
pub struct Ownership {
    pub items: HashMap<i32, bool>,
}

/// What `items` say of an item.
pub open spec fn ownership_in(items: Map<i32, bool>, item: i32) -> Option<bool> {
    if items.contains_key(item) {
        Some(items[item])
    } else {
        None
    }
}

impl Ownership {
    pub fn new() -> (r: Self)
        ensures
            r.items@ == Map::<i32, bool>::empty(),
    {
        Ownership { items: HashMap::new() }
    }

    /// What is known of `item`.
    pub fn known(&self, item: i32) -> (r: Option<bool>)
        ensures
            r == ownership_in(self.items@, item),
    {
        match self.items.get(&item) {
            Some(owned) => Some(*owned),
            None => None,
        }
    }

    /// Remembers what Steam answered.
    pub fn remember(&mut self, item: i32, owned: bool)
        ensures
            final(self).items@ == old(self).items@.insert(item, owned),
    {
        self.items.insert(item, owned);
    }
}

/// Download progress that Steam has reported, and until when it is passed on.
pub struct Downloads {
    pub items: HashMap<i32, (u64, i64, i64)>,
}

/// The progress among `items` that is still passed on.
pub open spec fn progress_in(
    items: Map<i32, (u64, i64, i64)>,
    item: i32,
    now: u64,
) -> Option<(i64, i64)> {
    if items.contains_key(item) && now < items[item].0 {
        Some((items[item].1, items[item].2))
    } else {
        None
    }
}

/// `items` with a report that has come at `now`.
pub open spec fn with_progress(
    items: Map<i32, (u64, i64, i64)>,
    item: i32,
    now: u64,
    done: i64,
    total: i64,
) -> Map<i32, (u64, i64, i64)> {
    items.insert(item, ((now + DOWNLOAD_MS) as u64, done, total))
}

impl Downloads {
    pub fn new() -> (r: Self)
        ensures
            r.items@ == Map::<i32, (u64, i64, i64)>::empty(),
    {
        Downloads { items: HashMap::new() }
    }

    /// The progress to pass on without asking Steam again.
    pub fn known(&self, item: i32, now: u64) -> (r: Option<(i64, i64)>)
        ensures
            r == progress_in(self.items@, item, now),
    {
        match self.items.get(&item) {
            Some(entry) => if now < entry.0 {
                Some((entry.1, entry.2))
            } else {
                None
            },
            None => None,
        }
    }

    /// Remembers a report for five minutes.
    pub fn remember(&mut self, item: i32, now: u64, done: i64, total: i64)
        requires
            now <= u64::MAX - DOWNLOAD_MS,
        ensures
            final(self).items@ == with_progress(old(self).items@, item, now, done, total),
    {
        self.items.insert(item, (now + DOWNLOAD_MS, done, total));
    }
}

/// A failed refresh leaves every answer as it was and the next reader free to try again.
pub proof fn lemma_failed_refresh(f: Friends, after: Friends, now: u64)
    requires
        refresh_due(f, now, true),
        refreshed(f, after, None),
    ensures
        after.xuids@ == f.xuids@,
        refresh_due(after, now, true),
{
}

/// After a refresh no reader asks Steam again for half a minute.
pub proof fn lemma_refresh_holds(
    f: Friends,
    after: Friends,
    xuids: HashSet<u64>,
    completed: u64,
    now: u64,
)
    requires
        refreshed(f, after, Some((xuids, completed))),
        completed <= u64::MAX - FRIENDS_MS,
        now < completed + FRIENDS_MS,
    ensures
        !refresh_due(after, now, true),
{
}

/// The calls into Steam that are redirected: their name, where the pointer to the object lies in
/// the February build, and the offset of the method in the object's table.
pub open spec fn steam_table() -> Seq<(Seq<char>, u64, u64)> {
    seq![
        ("steam.username"@, 0x10B3DC20, 0x0),
        ("steam.username_xuid"@, 0x10B3DC20, 0x38),
        ("steam.owns"@, 0x10B3DC40, 0x38),
        ("steam.owns2"@, 0x10B3DC40, 0x30),
        ("steam.vac"@, 0x10B3DC40, 0x18),
        ("steam.download"@, 0x10B3DC40, 0xb0),
        ("steam.chat"@, 0x10B3DC30, 0xd8),
        ("steam.create_lobby"@, 0x10B3DC30, 0x68),
        ("steam.read_p2p"@, 0x10B3DC50, 0x10),
    ]
}

pub fn steam_hooks() -> (r: Vec<(&'static str, u64, u64)>)
    ensures
        r@.len() == steam_table().len(),
        forall|i: int|
            0 <= i < r@.len() ==> (#[trigger] r@[i]).0@ == steam_table()[i].0 && r@[i].1
                == steam_table()[i].1 && r@[i].2 == steam_table()[i].2,
{
    let mut out: Vec<(&'static str, u64, u64)> = Vec::new();
    out.push(("steam.username", 0x10B3DC20, 0x0));
    out.push(("steam.username_xuid", 0x10B3DC20, 0x38));
    out.push(("steam.owns", 0x10B3DC40, 0x38));
    out.push(("steam.owns2", 0x10B3DC40, 0x30));
    out.push(("steam.vac", 0x10B3DC40, 0x18));
    out.push(("steam.download", 0x10B3DC40, 0xb0));
    out.push(("steam.chat", 0x10B3DC30, 0xd8));
    out.push(("steam.create_lobby", 0x10B3DC30, 0x68));
    out.push(("steam.read_p2p", 0x10B3DC50, 0x10));
    out
}

/// What is reported while an object of Steam's is not there.
pub fn steam_not_ready(rva: u64) -> (r: String)
    ensures
        r@ == "Steam object not ready: 0x"@ + text::hex(rva as nat),
{
    let mut out = "Steam object not ready: 0x".to_owned();
    push_hex(&mut out, rva);
    out
}

/// How many methods the table of the lobby service has, and which of them delivers instant
/// messages.
pub const SERVICE_METHODS: usize = 50;
pub const INSTANT_METHOD: usize = 24;

/// The table of a service with its blocker.
pub open spec fn service_table_of(methods: [u64; 50], blocker: u64) -> Seq<u64> {
    methods@.update(24, blocker)
}

/// A copy of the lobby service's table in which instant messages go to `blocker`.
pub fn service_table(methods: [u64; 50], blocker: u64) -> (r: [u64; 50])
    ensures
        r@ == service_table_of(methods, blocker),
{
    let mut table: [u64; 50] = methods;
    table[INSTANT_METHOD] = blocker;
    table
}

/// What lies around the game's objects: the pointers, with 0 for one that cannot be read, and
/// whether what they lead to can be read.
pub struct Surroundings {
    pub started: u64,
    /// For each object of Steam's, whether it and its table can be read.
    pub steam: [bool; 4],
    pub user: bool,
    /// The two variables that are configured.
    pub variables: [(u64, bool); 2],
    pub lobby: u64,
    pub lobby_readable: bool,
    pub service: bool,
}

/// What the patch waits for.
pub open spec fn ready_of(s: &Surroundings) -> bool {
    {
        &&& s.started != 0
        &&& forall|i: int| 0 <= i < 4 ==> #[trigger] s.steam@[i]
        &&& s.user
        &&& forall|i: int|
            0 <= i < 2 ==> (#[trigger] s.variables@[i]).0 != 0 && s.variables@[i].1
        &&& s.lobby != 0
        &&& s.lobby_readable
        &&& s.service
    }
}

/// Whether the game has come far enough for the patch to be installed.
pub fn ready(s: &Surroundings) -> (r: bool)
    ensures
        r == ready_of(s),
{
    let steam: bool = s.steam[0] && s.steam[1] && s.steam[2] && s.steam[3];
    let first: (u64, bool) = s.variables[0];
    let second: (u64, bool) = s.variables[1];
    let variables: bool = first.0 != 0 && first.1 && second.0 != 0 && second.1;
    assert(steam == (forall|i: int| 0 <= i < 4 ==> #[trigger] s.steam@[i]));
    assert(variables == (forall|i: int|
        0 <= i < 2 ==> (#[trigger] s.variables@[i]).0 != 0 && s.variables@[i].1));
    s.started != 0 && steam && s.user && variables && s.lobby != 0 && s.lobby_readable && s.service
}

/// The account of the player.
pub open spec fn own_xuid_of(data: Option<u64>, value: Option<u64>) -> u64 {
    if data is Some && value is Some {
        value->Some_0
    } else {
        0
    }
}

/// The user's own number: what the pointer leads to, or 0 if either cannot be read.
pub fn own_xuid(data: Option<u64>, value: Option<u64>) -> (r: u64)
    ensures
        r == own_xuid_of(data, value),
{
    match (data, value) {
        (Some(_), Some(v)) => v,
        _ => 0,
    }
}

/// The settings of the game that are changed, each with its value.
pub open spec fn setting_table() -> Seq<(Seq<char>, Seq<char>)> {
    seq![
        ("ui_error_callstack_ship"@, "1"@),
        ("g_allowvote"@, "0"@),
        ("maxvoicepacketsperframe"@, "0"@),
    ]
}

pub fn game_settings() -> (r: Vec<(&'static str, &'static str)>)
    ensures
        r@.len() == setting_table().len(),
        forall|i: int|
            0 <= i < r@.len() ==> (#[trigger] r@[i]).0@ == setting_table()[i].0 && r@[i].1@
                == setting_table()[i].1,
{
    let mut out: Vec<(&'static str, &'static str)> = Vec::new();
    out.push(("ui_error_callstack_ship", "1"));
    out.push(("g_allowvote", "0"));
    out.push(("maxvoicepacketsperframe", "0"));
    out
}

} // verus!
