//! What is kept of what Steam has answered, and when Steam is asked again.
use crate::protection;
use crate::protection::{Friends, Retry, Surroundings};
use std::collections::HashSet;
use vstd::prelude::*;

verus! {

/// A list of friends that came at some time is asked for again from half a minute later on, by
/// those who may, unless somebody is asking already; a list that did not come changes nothing.
pub proof fn lemma_list_age(
    before: Friends,
    after: Friends,
    xuids: HashSet<u64>,
    completed: u64,
    now: u64,
    can_refresh: bool,
)
    requires
        completed < 0x1_0000_0000_0000,
    ensures
        protection::refreshed(before, after, Some((xuids, completed))) ==> {
            &&& after.xuids@ == xuids@
            &&& protection::refresh_due(after, now, can_refresh) <==> can_refresh && now >= completed
                + 30_000
        },
        protection::refreshed(before, after, None) ==> {
            &&& after.xuids@ == before.xuids@
            &&& protection::refresh_due(after, now, can_refresh) <==> can_refresh && now
                >= before.next
        },
        before.refreshing ==> !protection::refresh_due(before, now, can_refresh),
        !before.refreshing && can_refresh && before.next <= now ==> protection::refresh_due(
            before,
            now,
            can_refresh,
        ),
{
}

/// Everybody whom Steam lists is a friend, nobody else is, and an empty place is nobody.
pub proof fn lemma_listed(ids: Seq<u64>, i: int, x: u64)
    ensures
        0 <= i < ids.len() && ids[i] != 0 ==> protection::listed(ids).contains(ids[i]),
        (forall|k: int| 0 <= k < ids.len() ==> ids[k] != x) ==> !protection::listed(ids).contains(x),
        !protection::listed(ids).contains(0),
{
    if 0 <= i < ids.len() {
        assert(ids.contains(ids[i]));
    }
}

/// The wait doubles from one second with each failure up to the fifth, and is half a minute from
/// the sixth on.
pub proof fn lemma_waits(failures: nat)
    ensures
        protection::retry_delay(1) == 1000,
        1 <= failures < 5 ==> protection::retry_delay(failures + 1) == 2 * protection::retry_delay(
            failures,
        ),
        failures >= 6 ==> protection::retry_delay(failures) == 30_000,
        protection::retry_delay(0) == 0,
{
}

/// After a failure Steam is asked again once the wait is over, and at once after a success.
pub proof fn lemma_asked_again(r: Retry, completed: u64, now: u64)
    requires
        completed < 0x1_0000_0000_0000,
        r.failures < 0xffff_ffff,
    ensures
        r.ended_of(true, completed).failures == 0,
        r.ended_of(true, completed).due_of(now),
        r.ended_of(false, completed).failures == r.failures + 1,
        r.ended_of(false, completed).due_of(now) <==> now >= completed + protection::retry_delay(
            (r.failures + 1) as nat,
        ),
{
}

/// A count of friends is believed from 0 to 100000.
pub proof fn lemma_friend_count(count: i32)
    ensures
        protection::friend_count_of(count) is Some <==> count >= 0 && count < 100_001,
        0 <= count <= 100_000 ==> protection::friend_count_of(count)->Some_0 == count,
{
}

/// Everybody is heard without the filter, and friends always.
pub proof fn lemma_heard(friends_only: bool, friend: bool)
    ensures
        protection::allow_friend_of(false, friend),
        protection::allow_friend_of(friends_only, true),
        !protection::allow_friend_of(true, false),
{
}

/// One processor feature is answered for, and a chat entry is one if its writer is known and its
/// bytes are there and fit.
pub proof fn lemma_answers(feature: u32, user: bool, result: i32, capacity: i32)
    ensures
        protection::fails_fast_of(feature) <==> feature == 23,
        protection::chat_entry_of(user, result, capacity) <==> user && result >= 1 && capacity
            >= result,
{
}

/// Who writes to a chat is one of those in the lobby whose identifier could be read.
pub proof fn lemma_chat_members(sender: u64, members: &Vec<Option<u64>>)
    ensures
        protection::chat_sender_known_of(sender, members) <==> exists|i: int|
            0 <= i < members@.len() && #[trigger] members@[i] == Some(sender),
{
}

/// What Steam reported of a download is passed on for five minutes, and of other downloads nothing
/// changes.
pub proof fn lemma_downloads(
    items: Map<i32, (u64, i64, i64)>,
    item: i32,
    other: i32,
    now: u64,
    done: i64,
    total: i64,
    later: u64,
)
    requires
        now < 0x1_0000_0000_0000,
    ensures
        protection::progress_in(
            protection::with_progress(items, item, now, done, total),
            item,
            later,
        ) == (if later < now + 300_000 {
            Some((done, total))
        } else {
            None
        }),
        other != item ==> protection::progress_in(
            protection::with_progress(items, item, now, done, total),
            other,
            later,
        ) == protection::progress_in(items, other, later),
        !items.contains_key(item) ==> protection::progress_in(items, item, later) is None,
{
}

/// What Steam has said of an item is known from then on, and of no other item.
pub proof fn lemma_ownership(items: Map<i32, bool>, item: i32, other: i32, owned: bool)
    ensures
        protection::ownership_in(items.insert(item, owned), item) == Some(owned),
        other != item ==> protection::ownership_in(items.insert(item, owned), other)
            == protection::ownership_in(items, other),
        protection::ownership_in(Map::empty(), item) is None,
{
}

/// The player's account is known only if both steps to it could be read.
pub proof fn lemma_own_account(data: u64, value: u64)
    ensures
        protection::own_xuid_of(Some(data), Some(value)) == value,
        protection::own_xuid_of(None, Some(value)) == 0,
        protection::own_xuid_of(Some(data), None) == 0,
{
}

/// The patch waits for everything that it touches, and for nothing else.
pub proof fn lemma_waited_for(s: &Surroundings)
    ensures
        protection::ready_of(s) <==> s.started != 0 && s.steam@[0] && s.steam@[1] && s.steam@[2]
            && s.steam@[3] && s.user && s.variables@[0].0 != 0 && s.variables@[0].1
            && s.variables@[1].0 != 0 && s.variables@[1].1 && s.lobby != 0 && s.lobby_readable
            && s.service,
{
}

/// Of the fifty methods of the lobby service the one that delivers instant messages is replaced.
pub proof fn lemma_service(methods: [u64; 50], blocker: u64, i: int)
    requires
        0 <= i < 50,
    ensures
        protection::service_table_of(methods, blocker)[i] == (if i == 24 {
            blocker
        } else {
            methods@[i]
        }),
        protection::service_table_of(methods, blocker).len() == 50,
{
}

/// The calls into Steam that are redirected, and the settings of the game that are changed.
pub proof fn lemma_redirected()
    ensures
        protection::steam_table().len() == 9,
        protection::steam_table()[0] == ("steam.username"@, 0x10B3DC20u64, 0u64),
        protection::steam_table()[1] == ("steam.username_xuid"@, 0x10B3DC20u64, 56u64),
        protection::steam_table()[2] == ("steam.owns"@, 0x10B3DC40u64, 56u64),
        protection::steam_table()[3] == ("steam.owns2"@, 0x10B3DC40u64, 48u64),
        protection::steam_table()[4] == ("steam.vac"@, 0x10B3DC40u64, 24u64),
        protection::steam_table()[5] == ("steam.download"@, 0x10B3DC40u64, 176u64),
        protection::steam_table()[6] == ("steam.chat"@, 0x10B3DC30u64, 216u64),
        protection::steam_table()[7] == ("steam.create_lobby"@, 0x10B3DC30u64, 104u64),
        protection::steam_table()[8] == ("steam.read_p2p"@, 0x10B3DC50u64, 16u64),
        protection::setting_table() == seq![
            ("ui_error_callstack_ship"@, "1"@),
            ("g_allowvote"@, "0"@),
            ("maxvoicepacketsperframe"@, "0"@),
        ],
{
}

} // verus!
