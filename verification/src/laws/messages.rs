//! Whole lobby messages. A message is given by the answers of the game: which fields can be read,
//! what a list is announced with, and how many elements it has.
use crate::packets;
use crate::packets::{Body, Kind, Progress, Reply, Task};
use vstd::prelude::*;

verus! {

/// Everything that was asked for could be read.
pub open spec fn good(replies: Seq<Reply>) -> bool {
    forall|i: int| 0 <= i < replies.len() ==> (#[trigger] replies[i]) is Value
}

/// The answers to a list with these elements: each is there and has its own answers, and behind
/// the last there is none.
pub open spec fn list(elements: Seq<Seq<Reply>>) -> Seq<Reply>
    decreases elements.len(),
{
    if elements.len() == 0 {
        seq![Reply::Failed]
    } else {
        seq![Reply::Value(1)] + elements[0] + list(elements.skip(1))
    }
}

/// Elements of `size` fields each, all of which can be read.
pub open spec fn elements_of(elements: Seq<Seq<Reply>>, size: int) -> bool {
    forall|i: int|
        0 <= i < elements.len() ==> (#[trigger] elements[i]).len() == size && good(elements[i])
}

proof fn lemma_joined(s: Progress, a: Seq<Reply>, b: Seq<Reply>)
    ensures
        packets::after(s, a + b) == packets::after(packets::after(s, a), b),
    decreases b.len(),
{
    if b.len() == 0 {
        assert(a + b =~= a);
    } else {
        assert((a + b).drop_last() =~= a + b.drop_last());
        lemma_joined(s, a, b.drop_last());
    }
}

proof fn lemma_one(s: Progress, reply: Reply)
    ensures
        packets::after(s, seq![reply]) == packets::next(s, reply),
{
    assert(seq![reply].drop_last() =~= Seq::<Reply>::empty());
    assert(packets::after(s, Seq::<Reply>::empty()) == s);
}

proof fn lemma_over(s: Progress, replies: Seq<Reply>)
    requires
        s.rejected,
    ensures
        packets::after(s, replies) == s,
    decreases replies.len(),
{
    if replies.len() > 0 {
        lemma_over(s, replies.drop_last());
    }
}

/// Something that only has to be readable.
spec fn plain(task: Task) -> bool {
    task is Field || task is Array || task is Client
}

spec fn all_plain(todo: Seq<Task>) -> bool {
    forall|i: int| 0 <= i < todo.len() ==> plain(#[trigger] todo[i])
}

proof fn lemma_plain(s: Progress, todo: Seq<Task>, rest: Seq<Task>, replies: Seq<Reply>)
    requires
        s.todo == todo + rest,
        !s.rejected,
        all_plain(todo),
        good(replies),
        replies.len() == todo.len(),
    ensures
        packets::after(s, replies) == packets::doing(s, rest),
    decreases todo.len(),
{
    if todo.len() == 0 {
        assert(s.todo =~= rest);
        assert(packets::after(s, replies) == s);
        assert(packets::doing(s, rest) =~= s);
    } else {
        let t = packets::next(s, replies[0]);
        assert(plain(todo[0]));
        assert(s.todo[0] == todo[0]);
        assert(s.todo.skip(1) =~= todo.skip(1) + rest);
        assert(replies =~= seq![replies[0]] + replies.skip(1));
        lemma_joined(s, seq![replies[0]], replies.skip(1));
        lemma_one(s, replies[0]);
        assert(all_plain(todo.skip(1))) by {
            assert forall|i: int| 0 <= i < todo.skip(1).len() implies plain(
                #[trigger] todo.skip(1)[i],
            ) by {
                assert(todo.skip(1)[i] == todo[i + 1]);
            }
        }
        assert(good(replies.skip(1))) by {
            assert forall|i: int| 0 <= i < replies.skip(1).len() implies (#[trigger] replies.skip(
                1,
            )[i]) is Value by {
                assert(replies.skip(1)[i] == replies[i + 1]);
            }
        }
        lemma_plain(t, todo.skip(1), rest, replies.skip(1));
    }
}

spec fn through(s: Progress, todo: Seq<Task>, rest: Seq<Task>, replies: Seq<Reply>) -> bool {
    s.todo == todo + rest && !s.rejected ==> packets::after(s, replies) == packets::doing(s, rest)
}

spec fn refused(s: Progress, todo: Seq<Task>, rest: Seq<Task>, replies: Seq<Reply>) -> bool {
    s.todo == todo + rest && !s.rejected ==> packets::after(s, replies).rejected
}

spec fn passes(body: Body, replies: Seq<Reply>) -> bool {
    forall|s: Progress, rest: Seq<Task>| #[trigger]
        through(s, packets::body_tasks(body), rest, replies)
}

spec fn fails(body: Body, replies: Seq<Reply>) -> bool {
    forall|s: Progress, rest: Seq<Task>| #[trigger]
        refused(s, packets::body_tasks(body), rest, replies)
}

spec fn all_pass(body: Body, elements: Seq<Seq<Reply>>) -> bool {
    forall|i: int| 0 <= i < elements.len() ==> passes(body, #[trigger] elements[i])
}

spec fn each_decided(body: Body, elements: Seq<Seq<Reply>>) -> bool {
    forall|i: int|
        0 <= i < elements.len() ==> passes(body, #[trigger] elements[i]) || fails(body, elements[i])
}

spec fn awaits(s: Progress, left: u32, exact: bool, body: Body) -> bool {
    s.todo.len() > 0 && !s.rejected && (s.todo[0] == (Task::Next { left, exact, body }) || (
    s.todo[0] == (Task::Counted { body }) && s.count == left && exact))
}

proof fn lemma_list(s: Progress, left: u32, exact: bool, body: Body, elements: Seq<Seq<Reply>>)
    requires
        awaits(s, left, exact, body),
        each_decided(body, elements),
    ensures
        if elements.len() <= left && (exact ==> elements.len() == left) && all_pass(
            body,
            elements,
        ) {
            packets::after(s, list(elements)) == packets::doing(s, s.todo.skip(1))
        } else {
            packets::after(s, list(elements)).rejected
        },
    decreases elements.len(),
{
    let rest = s.todo.skip(1);
    if elements.len() == 0 {
        lemma_one(s, Reply::Failed);
    } else {
        let first = elements[0];
        let others = elements.skip(1);
        let s1 = packets::next(s, Reply::Value(1));
        lemma_one(s, Reply::Value(1));
        lemma_joined(s, seq![Reply::Value(1)], first + list(others));
        assert(list(elements) =~= seq![Reply::Value(1)] + (first + list(others)));
        if left == 0 {
            lemma_over(s1, first + list(others));
        } else {
            let more = seq![Task::Next { left: (left - 1) as u32, exact, body }] + rest;
            assert(s1 == packets::doing(s, packets::body_tasks(body) + more));
            lemma_joined(s1, first, list(others));
            let s2 = packets::after(s1, first);
            assert(passes(body, first) || fails(body, first));
            assert forall|i: int| 0 <= i < others.len() implies #[trigger] others[i] == elements[i
                + 1] by {}
            assert(each_decided(body, others)) by {
                assert forall|i: int| 0 <= i < others.len() implies passes(body, #[trigger] others[i])
                    || fails(body, others[i]) by {
                    assert(others[i] == elements[i + 1]);
                }
            }
            if passes(body, first) {
                assert(through(s1, packets::body_tasks(body), more, first));
                assert(s2.todo.skip(1) =~= rest);
                lemma_list(s2, (left - 1) as u32, exact, body, others);
                assert(packets::doing(s2, rest) =~= packets::doing(s, rest));
                if all_pass(body, others) {
                    assert forall|i: int| 0 <= i < elements.len() implies passes(
                        body,
                        #[trigger] elements[i],
                    ) by {
                        if i > 0 {
                            assert(elements[i] == others[i - 1]);
                        }
                    }
                } else {
                    let i = choose|i: int| 0 <= i < others.len() && !passes(body, #[trigger] others[i]);
                    assert(others[i] == elements[i + 1]);
                }
            } else {
                assert(refused(s1, packets::body_tasks(body), more, first));
                lemma_over(s2, list(others));
                assert(!passes(body, elements[0]));
            }
        }
    }
}

/// A body of fields passes with as many answers as it has fields.
proof fn lemma_element(body: Body, replies: Seq<Reply>)
    requires
        all_plain(packets::body_tasks(body)),
        good(replies),
        replies.len() == packets::body_tasks(body).len(),
    ensures
        passes(body, replies),
{
    assert forall|s: Progress, rest: Seq<Task>| #[trigger] through(
        s,
        packets::body_tasks(body),
        rest,
        replies,
    ) by {
        if s.todo == packets::body_tasks(body) + rest && !s.rejected {
            lemma_plain(s, packets::body_tasks(body), rest, replies);
        }
    }
}

proof fn lemma_elements(body: Body, elements: Seq<Seq<Reply>>)
    requires
        all_plain(packets::body_tasks(body)),
        elements_of(elements, packets::body_tasks(body).len() as int),
    ensures
        all_pass(body, elements),
        each_decided(body, elements),
{
    assert forall|i: int| 0 <= i < elements.len() implies passes(body, #[trigger] elements[i]) by {
        lemma_element(body, elements[i]);
    }
}

/// A request to join passes if and only if it announces at most 18 members and has exactly as many:
/// 19 fields, the number of members, their array, and six fields each.
pub proof fn lemma_join(
    head: Seq<Reply>,
    count: u64,
    array: Seq<Reply>,
    members: Seq<Seq<Reply>>,
)
    requires
        good(head) && head.len() == 19,
        good(array) && array.len() == 1,
        elements_of(members, 6),
    ensures
        packets::accepts(
            packets::join_tasks(),
            head + (seq![Reply::Value(count)] + (array + list(members))),
        ) == (members.len() <= 18 && count as i32 == members.len()),
        packets::ends(
            packets::join_tasks(),
            head + (seq![Reply::Value(count)] + (array + list(members))),
        ),
{
    let todo = packets::join_tasks();
    let s = packets::start(todo);
    let fixed = todo.take(19);
    let rest = todo.skip(19);
    let tail = array + list(members);
    assert(todo =~= fixed + rest);
    assert(all_plain(fixed));
    lemma_joined(s, head, seq![Reply::Value(count)] + tail);
    lemma_plain(s, fixed, rest, head);
    let s1 = packets::doing(s, rest);
    lemma_joined(s1, seq![Reply::Value(count)], tail);
    lemma_one(s1, Reply::Value(count));
    let s2 = packets::next(s1, Reply::Value(count));
    if s2.rejected {
        lemma_over(s2, tail);
    } else {
        assert(s2.todo =~= seq![Task::Array { key: "members" }] + seq![
            Task::Counted { body: Body::Member },
        ]);
        lemma_joined(s2, array, list(members));
        lemma_plain(
            s2,
            seq![Task::Array { key: "members" }],
            seq![Task::Counted { body: Body::Member }],
            array,
        );
        let s3 = packets::doing(s2, seq![Task::Counted { body: Body::Member }]);
        lemma_elements(Body::Member, members);
        lemma_list(s3, s3.count, true, Body::Member, members);
        assert(s3.todo.skip(1) =~= Seq::<Task>::empty());
    }
}

/// The value that a reply carries, as the game's signed integers hold it.
pub open spec fn int_of(reply: Reply) -> i32 {
    match reply {
        Reply::Value(v) => v as i32,
        Reply::Failed => 0,
    }
}

/// The answers to the state of a lobby: 14 fields, the number of clients, four fields and the
/// array of clients, the clients with 14 parts each, two fields and the array of nominees, and
/// the nominees with one field each.
pub struct LobbyReplies {
    pub head: Seq<Reply>,
    pub count: u64,
    pub middle: Seq<Reply>,
    pub clients: Seq<Seq<Reply>>,
    pub tail: Seq<Reply>,
    pub nominees: Seq<Seq<Reply>>,
}

impl LobbyReplies {
    /// Everything in it can be read.
    pub open spec fn readable(self) -> bool {
        &&& good(self.head) && self.head.len() == 14
        &&& good(self.middle) && self.middle.len() == 5
        &&& elements_of(self.clients, 14)
        &&& good(self.tail) && self.tail.len() == 3
        &&& elements_of(self.nominees, 1)
    }

    pub open spec fn all(self) -> Seq<Reply> {
        self.head + (seq![Reply::Value(self.count)] + (self.middle + (list(self.clients) + (
        self.tail + list(self.nominees)))))
    }

    /// At most 18 clients, as many as announced, and at most 18 nominees.
    pub open spec fn within_limits(self) -> bool {
        self.clients.len() <= 18 && self.count as i32 == self.clients.len() && self.nominees.len()
            <= 18
    }
}

spec fn after_lobby(l: LobbyReplies, rest: Seq<Task>) -> Progress {
    Progress {
        todo: rest,
        count: (l.count as i32) as u32,
        main_mode: int_of(l.head[2]),
        lobby_mode: int_of(l.head[5]),
        rejected: false,
    }
}

#[verifier::rlimit(40)]
proof fn lemma_lobby_head(s: Progress, rest: Seq<Task>, head: Seq<Reply>)
    requires
        s.todo == packets::lobby_tasks().take(14) + rest,
        !s.rejected,
        good(head),
        head.len() == 14,
    ensures
        packets::after(s, head) == (Progress {
            todo: rest,
            count: s.count,
            main_mode: int_of(head[2]),
            lobby_mode: int_of(head[5]),
            rejected: false,
        }),
{
    let t = packets::lobby_tasks().take(14);
    let main = Task::MainMode { key: "mainmode" };
    let mode = Task::LobbyMode { key: "lobbymode" };
    let r1 = t.skip(2) + rest;
    let r2 = t.skip(3) + rest;
    let r3 = t.skip(5) + rest;
    let r4 = t.skip(6) + rest;
    assert(t.len() == 14);
    assert(t[2] == main);
    assert(t[5] == mode);
    assert(all_plain(t.take(2)));
    assert(all_plain(t.subrange(3, 5)));
    assert(all_plain(t.skip(6)));
    assert(head =~= head.take(2) + (seq![head[2]] + (head.subrange(3, 5) + (seq![head[5]]
        + head.skip(6)))));
    let h5 = head.skip(6);
    let h4 = seq![head[5]] + h5;
    let h3 = head.subrange(3, 5) + h4;
    let h2 = seq![head[2]] + h3;
    assert(s.todo =~= t.take(2) + r1);
    lemma_joined(s, head.take(2), h2);
    lemma_plain(s, t.take(2), r1, head.take(2));
    let s1 = packets::doing(s, r1);
    assert(head[2] is Value && head[5] is Value);
    assert(s1.todo.skip(1) =~= r2);
    assert(s1.todo[0] == main);
    lemma_joined(s1, seq![head[2]], h3);
    lemma_one(s1, head[2]);
    let s2 = packets::next(s1, head[2]);
    assert(s2.todo =~= t.subrange(3, 5) + r3);
    lemma_joined(s2, head.subrange(3, 5), h4);
    lemma_plain(s2, t.subrange(3, 5), r3, head.subrange(3, 5));
    let s3 = packets::doing(s2, r3);
    assert(s3.todo[0] == mode);
    assert(s3.todo.skip(1) =~= r4);
    lemma_joined(s3, seq![head[5]], h5);
    lemma_one(s3, head[5]);
    let s4 = packets::next(s3, head[5]);
    assert(s4.todo =~= t.skip(6) + rest);
    lemma_plain(s4, t.skip(6), rest, h5);
}

#[verifier::rlimit(40)]
proof fn lemma_lobby_part(s: Progress, rest: Seq<Task>, l: LobbyReplies)
    requires
        s.todo == packets::lobby_tasks() + rest,
        !s.rejected,
        l.readable(),
    ensures
        if l.within_limits() {
            packets::after(s, l.all()) == after_lobby(l, rest)
        } else {
            packets::after(s, l.all()).rejected
        },
{
    let t = packets::lobby_tasks();
    assert(t.len() == 25);
    let count = Task::Count { key: "clientcount", max: 18 };
    let clients = Task::Counted { body: Body::Client };
    let nominees = Task::Next { left: 18, exact: false, body: Body::Nominee };
    assert(t[14] == count && t[20] == clients && t[24] == nominees);
    let e4 = l.tail + list(l.nominees);
    let e3 = list(l.clients) + e4;
    let e2 = l.middle + e3;
    let e1 = seq![Reply::Value(l.count)] + e2;
    let r1 = t.skip(14) + rest;
    assert(s.todo =~= t.take(14) + r1);
    lemma_joined(s, l.head, e1);
    lemma_lobby_head(s, r1, l.head);
    let s1 = packets::after(s, l.head);
    assert(s1.todo[0] == count);
    assert(s1.todo.skip(1) =~= t.skip(15) + rest);
    lemma_joined(s1, seq![Reply::Value(l.count)], e2);
    lemma_one(s1, Reply::Value(l.count));
    let s2 = packets::next(s1, Reply::Value(l.count));
    if s2.rejected {
        lemma_over(s2, e2);
    } else {
        let r2 = t.skip(20) + rest;
        assert(all_plain(t.subrange(15, 20)));
        assert(s2.todo =~= t.subrange(15, 20) + r2);
        lemma_joined(s2, l.middle, e3);
        lemma_plain(s2, t.subrange(15, 20), r2, l.middle);
        let s3 = packets::doing(s2, r2);
        assert(s3.todo[0] == clients);
        assert(s3.todo.skip(1) =~= t.skip(21) + rest);
        assert(all_plain(packets::body_tasks(Body::Client)));
        lemma_elements(Body::Client, l.clients);
        lemma_joined(s3, list(l.clients), e4);
        lemma_list(s3, s3.count, true, Body::Client, l.clients);
        let s4 = packets::after(s3, list(l.clients));
        if s4.rejected {
            lemma_over(s4, e4);
        } else {
            let r4 = t.skip(24) + rest;
            assert(all_plain(t.subrange(21, 24)));
            assert(s4.todo =~= t.subrange(21, 24) + r4);
            lemma_joined(s4, l.tail, list(l.nominees));
            lemma_plain(s4, t.subrange(21, 24), r4, l.tail);
            let s5 = packets::doing(s4, r4);
            assert(s5.todo[0] == nominees);
            assert(s5.todo.skip(1) =~= rest);
            assert(all_plain(packets::body_tasks(Body::Nominee)));
            lemma_elements(Body::Nominee, l.nominees);
            lemma_list(s5, 18, false, Body::Nominee, l.nominees);
        }
    }
}

/// The state of a lobby passes if and only if it announces at most 18 clients and has exactly as
/// many, and has at most 18 nominees.
pub proof fn lemma_lobby(l: LobbyReplies)
    requires
        l.readable(),
    ensures
        packets::accepts(packets::lobby_tasks(), l.all()) == l.within_limits(),
        packets::ends(packets::lobby_tasks(), l.all()),
{
    let s = packets::start(packets::lobby_tasks());
    assert(s.todo =~= packets::lobby_tasks() + Seq::<Task>::empty());
    lemma_lobby_part(s, Seq::empty(), l);
}

/// What a lobby with its game holds behind the lobby: eleven fields, and two more in campaign
/// mode.
pub open spec fn game_fields(l: LobbyReplies, fields: Seq<Reply>, campaign: Seq<Reply>) -> bool {
    &&& good(fields) && fields.len() == 11
    &&& good(campaign) && campaign.len() == (if int_of(l.head[2]) == 0 {
        2int
    } else {
        0
    })
}

#[verifier::rlimit(40)]
proof fn lemma_game_part(
    l: LobbyReplies,
    fields: Seq<Reply>,
    campaign: Seq<Reply>,
    mode: Seq<Reply>,
) -> (s: Progress)
    requires
        l.readable(),
        game_fields(l, fields, campaign),
    ensures
        l.within_limits() ==> s.todo == packets::lobby_mode_tasks(int_of(l.head[5])) && !s.rejected,
        !l.within_limits() ==> s.rejected,
        packets::after(
            packets::start(packets::lobby_game_tasks()),
            l.all() + (fields + (campaign + mode)),
        ) == packets::after(s, mode),
{
    let todo = packets::lobby_game_tasks();
    let s0 = packets::start(todo);
    let rest = todo.skip(25);
    assert(packets::lobby_tasks().len() == 25);
    assert(todo =~= packets::lobby_tasks() + rest);
    lemma_joined(s0, l.all(), fields + (campaign + mode));
    lemma_lobby_part(s0, rest, l);
    let s1 = packets::after(s0, l.all());
    if s1.rejected {
        lemma_over(s1, fields + (campaign + mode));
        lemma_over(s1, mode);
        s1
    } else {
        let fork = Task::Fork { kind: Kind::UInt, key: "ugcVersion" };
        assert(rest.len() == 11 && rest[10] == fork);
        assert(all_plain(rest.take(10)));
        assert(s1.todo =~= rest.take(10) + seq![fork]);
        assert(fields =~= fields.take(10) + seq![fields[10]]);
        lemma_joined(s1, fields, campaign + mode);
        lemma_joined(s1, fields.take(10), seq![fields[10]]);
        lemma_plain(s1, rest.take(10), seq![fork], fields.take(10));
        let s2 = packets::doing(s1, seq![fork]);
        lemma_one(s2, fields[10]);
        assert(fields[10] is Value);
        let s3 = packets::next(s2, fields[10]);
        let main = packets::main_mode_tasks(s1.main_mode);
        let lobby = packets::lobby_mode_tasks(s1.lobby_mode);
        assert(s3.todo =~= main + lobby);
        assert(all_plain(main));
        lemma_joined(s3, campaign, mode);
        lemma_plain(s3, main, lobby, campaign);
        packets::doing(s3, lobby)
    }
}

/// A public game has a list of at most 18 clients, with three fields each, and six fields behind.
#[verifier::rlimit(40)]
pub proof fn lemma_public_game(
    l: LobbyReplies,
    fields: Seq<Reply>,
    campaign: Seq<Reply>,
    array: Seq<Reply>,
    clients: Seq<Seq<Reply>>,
    last: Seq<Reply>,
)
    requires
        l.readable(),
        int_of(l.head[5]) == 0,
        game_fields(l, fields, campaign),
        good(array) && array.len() == 1,
        elements_of(clients, 3),
        good(last) && last.len() == 6,
    ensures
        packets::accepts(
            packets::lobby_game_tasks(),
            l.all() + (fields + (campaign + (array + (list(clients) + last)))),
        ) == (l.within_limits() && clients.len() <= 18),
{
    let mode = array + (list(clients) + last);
    let s = lemma_game_part(l, fields, campaign, mode);
    if s.rejected {
        lemma_over(s, mode);
    } else {
        let t = packets::lobby_mode_tasks(0);
        assert(t.len() == 8);
        assert(all_plain(t.take(1)));
        assert(t =~= t.take(1) + t.skip(1));
        lemma_joined(s, array, list(clients) + last);
        lemma_plain(s, t.take(1), t.skip(1), array);
        let s1 = packets::doing(s, t.skip(1));
        assert(s1.todo[0] == (Task::Next { left: 18, exact: false, body: Body::Public }));
        assert(all_plain(packets::body_tasks(Body::Public)));
        lemma_elements(Body::Public, clients);
        lemma_joined(s1, list(clients), last);
        lemma_list(s1, 18, false, Body::Public, clients);
        let s2 = packets::after(s1, list(clients));
        if s2.rejected {
            lemma_over(s2, last);
        } else {
            assert(all_plain(t.skip(2)));
            assert(s2.todo =~= t.skip(2) + Seq::<Task>::empty());
            lemma_plain(s2, t.skip(2), Seq::empty(), last);
        }
    }
}

proof fn lemma_pregame(s: Progress, rest: Seq<Task>, array: Seq<Reply>, clients: Seq<Seq<Reply>>)
    requires
        s.todo == packets::pregame_tasks() + rest,
        !s.rejected,
        good(array) && array.len() == 1,
        elements_of(clients, 6),
    ensures
        if clients.len() <= 18 {
            packets::after(s, array + list(clients)) == packets::doing(s, rest)
        } else {
            packets::after(s, array + list(clients)).rejected
        },
{
    let t = packets::pregame_tasks();
    assert(all_plain(t.take(1)));
    assert(s.todo =~= t.take(1) + (t.skip(1) + rest));
    lemma_joined(s, array, list(clients));
    lemma_plain(s, t.take(1), t.skip(1) + rest, array);
    let s1 = packets::doing(s, t.skip(1) + rest);
    assert(s1.todo[0] == (Task::Next { left: 18, exact: false, body: Body::Pregame }));
    assert(s1.todo.skip(1) =~= rest);
    assert(all_plain(packets::body_tasks(Body::Pregame)));
    lemma_elements(Body::Pregame, clients);
    lemma_list(s1, 18, false, Body::Pregame, clients);
    assert(packets::doing(s1, rest) =~= packets::doing(s, rest));
}

/// A custom game announces its votes, at most 216, and has exactly as many with six fields each;
/// it has a list of at most 18 clients with six fields each, and settings of 1 to 0xc000 bytes.
#[verifier::rlimit(60)]
pub proof fn lemma_custom_game(
    l: LobbyReplies,
    fields: Seq<Reply>,
    campaign: Seq<Reply>,
    count: u64,
    votes_array: Seq<Reply>,
    votes: Seq<Seq<Reply>>,
    array: Seq<Reply>,
    clients: Seq<Seq<Reply>>,
    size: u64,
)
    requires
        l.readable(),
        int_of(l.head[5]) == 1,
        game_fields(l, fields, campaign),
        good(votes_array) && votes_array.len() == 1,
        elements_of(votes, 6),
        good(array) && array.len() == 1,
        elements_of(clients, 6),
    ensures
        packets::accepts(
            packets::lobby_game_tasks(),
            l.all() + (fields + (campaign + (seq![Reply::Value(count)] + (votes_array + (list(votes)
                + ((array + list(clients)) + seq![Reply::Value(size)])))))),
        ) == (l.within_limits() && votes.len() <= 216 && count as i32 == votes.len()
            && clients.len() <= 18 && 1 <= size as i32 <= 0xc000),
{
    let last = seq![Reply::Value(size)];
    let e3 = (array + list(clients)) + last;
    let e2 = list(votes) + e3;
    let e1 = votes_array + e2;
    let mode = seq![Reply::Value(count)] + e1;
    let s = lemma_game_part(l, fields, campaign, mode);
    if s.rejected {
        lemma_over(s, mode);
    } else {
        let t = packets::lobby_mode_tasks(1);
        assert(t.len() == 6);
        lemma_joined(s, seq![Reply::Value(count)], e1);
        lemma_one(s, Reply::Value(count));
        assert(s.todo[0] == (Task::Count { key: "votecount", max: 216 }));
        let s1 = packets::next(s, Reply::Value(count));
        if s1.rejected {
            lemma_over(s1, e1);
        } else {
            assert(all_plain(t.subrange(1, 2)));
            assert(s1.todo =~= t.subrange(1, 2) + t.skip(2));
            lemma_joined(s1, votes_array, e2);
            lemma_plain(s1, t.subrange(1, 2), t.skip(2), votes_array);
            let s2 = packets::doing(s1, t.skip(2));
            assert(s2.todo[0] == (Task::Counted { body: Body::Vote }));
            assert(all_plain(packets::body_tasks(Body::Vote)));
            lemma_elements(Body::Vote, votes);
            lemma_joined(s2, list(votes), e3);
            lemma_list(s2, s2.count, true, Body::Vote, votes);
            let s3 = packets::after(s2, list(votes));
            if s3.rejected {
                lemma_over(s3, e3);
            } else {
                assert(s3.todo =~= packets::pregame_tasks() + t.skip(5));
                lemma_joined(s3, array + list(clients), last);
                lemma_pregame(s3, t.skip(5), array, clients);
                let s4 = packets::after(s3, array + list(clients));
                lemma_one(s4, Reply::Value(size));
                if !s4.rejected {
                    assert(s4.todo[0] == (Task::Size { key: "settingssize", max: 0xc000 }));
                    assert(s4.todo.skip(1) =~= Seq::<Task>::empty());
                }
            }
        }
    }
}

/// An arena game has a state, votes as in a custom game but in no array of their own, and a list
/// of at most 18 clients.
#[verifier::rlimit(60)]
pub proof fn lemma_arena_game(
    l: LobbyReplies,
    fields: Seq<Reply>,
    campaign: Seq<Reply>,
    state: Seq<Reply>,
    count: u64,
    votes: Seq<Seq<Reply>>,
    array: Seq<Reply>,
    clients: Seq<Seq<Reply>>,
)
    requires
        l.readable(),
        int_of(l.head[5]) == 3,
        game_fields(l, fields, campaign),
        good(state) && state.len() == 1,
        elements_of(votes, 6),
        good(array) && array.len() == 1,
        elements_of(clients, 6),
    ensures
        packets::accepts(
            packets::lobby_game_tasks(),
            l.all() + (fields + (campaign + (state + (seq![Reply::Value(count)] + (list(votes) + (
            array + list(clients))))))),
        ) == (l.within_limits() && votes.len() <= 216 && count as i32 == votes.len()
            && clients.len() <= 18),
{
    let e3 = array + list(clients);
    let e2 = list(votes) + e3;
    let e1 = seq![Reply::Value(count)] + e2;
    let mode = state + e1;
    let s = lemma_game_part(l, fields, campaign, mode);
    if s.rejected {
        lemma_over(s, mode);
    } else {
        let t = packets::lobby_mode_tasks(3);
        assert(t.len() == 5);
        assert(all_plain(t.take(1)));
        assert(t =~= t.take(1) + t.skip(1));
        lemma_joined(s, state, e1);
        lemma_plain(s, t.take(1), t.skip(1), state);
        let s1 = packets::doing(s, t.skip(1));
        lemma_joined(s1, seq![Reply::Value(count)], e2);
        lemma_one(s1, Reply::Value(count));
        assert(s1.todo[0] == (Task::Count { key: "votecount", max: 216 }));
        let s2 = packets::next(s1, Reply::Value(count));
        if s2.rejected {
            lemma_over(s2, e2);
        } else {
            assert(s2.todo[0] == (Task::Counted { body: Body::Vote }));
            assert(all_plain(packets::body_tasks(Body::Vote)));
            lemma_elements(Body::Vote, votes);
            lemma_joined(s2, list(votes), e3);
            lemma_list(s2, s2.count, true, Body::Vote, votes);
            let s3 = packets::after(s2, list(votes));
            if s3.rejected {
                lemma_over(s3, e3);
            } else {
                assert(s3.todo =~= packets::pregame_tasks() + Seq::<Task>::empty());
                lemma_pregame(s3, Seq::empty(), array, clients);
            }
        }
    }
}

/// A game in any other kind of lobby holds nothing more.
pub proof fn lemma_other_game(l: LobbyReplies, fields: Seq<Reply>, campaign: Seq<Reply>)
    requires
        l.readable(),
        int_of(l.head[5]) != 0 && int_of(l.head[5]) != 1 && int_of(l.head[5]) != 3,
        game_fields(l, fields, campaign),
    ensures
        packets::accepts(packets::lobby_game_tasks(), l.all() + (fields + campaign))
            == l.within_limits(),
{
    let s = lemma_game_part(l, fields, campaign, Seq::empty());
    assert(campaign + Seq::<Reply>::empty() =~= campaign);
    assert(packets::after(s, Seq::<Reply>::empty()) == s);
}

/// A heartbeat has three fields, an array and at most 18 nominees.
pub proof fn lemma_heartbeat(head: Seq<Reply>, nominees: Seq<Seq<Reply>>)
    requires
        good(head) && head.len() == 4,
        elements_of(nominees, 1),
    ensures
        packets::accepts(packets::heartbeat_tasks(), head + list(nominees)) == (nominees.len()
            <= 18),
        packets::ends(packets::heartbeat_tasks(), head + list(nominees)),
{
    let t = packets::heartbeat_tasks();
    let s = packets::start(t);
    assert(t.len() == 5);
    assert(all_plain(t.take(4)));
    assert(t =~= t.take(4) + t.skip(4));
    lemma_joined(s, head, list(nominees));
    lemma_plain(s, t.take(4), t.skip(4), head);
    let s1 = packets::doing(s, t.skip(4));
    assert(s1.todo[0] == (Task::Next { left: 18, exact: false, body: Body::Nominee }));
    assert(s1.todo.skip(1) =~= Seq::<Task>::empty());
    assert(all_plain(packets::body_tasks(Body::Nominee)));
    lemma_elements(Body::Nominee, nominees);
    lemma_list(s1, 18, false, Body::Nominee, nominees);
}

/// A lobby in an answer to a query: a flag, and nine fields if it is set.
pub open spec fn queried_lobby(replies: Seq<Reply>) -> bool {
    good(replies) && replies.len() > 0 && replies.len() == (if replies[0] == Reply::Value(0) {
        1int
    } else {
        10
    })
}

/// A group of lobbies: its array and the lobbies.
pub open spec fn group(array: Reply, lobbies: Seq<Seq<Reply>>) -> Seq<Reply> {
    seq![array] + list(lobbies)
}

pub open spec fn groups(arrays: Seq<Reply>, lobbies: Seq<Seq<Seq<Reply>>>) -> Seq<Seq<Reply>> {
    Seq::new(lobbies.len(), |i: int| group(arrays[i], lobbies[i]))
}

proof fn lemma_queried_lobby(replies: Seq<Reply>)
    requires
        queried_lobby(replies),
    ensures
        passes(Body::Lobby, replies),
{
    let tasks = packets::body_tasks(Body::Lobby);
    assert forall|s: Progress, rest: Seq<Task>| #[trigger] through(s, tasks, rest, replies) by {
        if s.todo == tasks + rest && !s.rejected {
            assert(s.todo[0] == (Task::Valid { key: "valid" }));
            assert(s.todo.skip(1) =~= rest);
            assert(replies =~= seq![replies[0]] + replies.skip(1));
            lemma_joined(s, seq![replies[0]], replies.skip(1));
            lemma_one(s, replies[0]);
            assert(replies[0] is Value);
            let s1 = packets::next(s, replies[0]);
            assert(good(replies.skip(1))) by {
                assert forall|i: int| 0 <= i < replies.skip(1).len() implies (#[trigger] replies.skip(
                    1,
                )[i]) is Value by {
                    assert(replies.skip(1)[i] == replies[i + 1]);
                }
            }
            if replies[0] == Reply::Value(0) {
                assert(replies.skip(1) =~= Seq::<Reply>::empty());
            } else {
                assert(all_plain(packets::valid_lobby_tasks()));
                lemma_plain(s1, packets::valid_lobby_tasks(), rest, replies.skip(1));
            }
        }
    }
}

proof fn lemma_group(array: Reply, lobbies: Seq<Seq<Reply>>)
    requires
        array is Value,
        forall|i: int| 0 <= i < lobbies.len() ==> queried_lobby(#[trigger] lobbies[i]),
    ensures
        lobbies.len() <= 2 ==> passes(Body::Lobbies, group(array, lobbies)),
        lobbies.len() > 2 ==> fails(Body::Lobbies, group(array, lobbies)),
{
    let tasks = packets::body_tasks(Body::Lobbies);
    let replies = group(array, lobbies);
    assert forall|i: int| 0 <= i < lobbies.len() implies passes(Body::Lobby, #[trigger] lobbies[i]) by {
        lemma_queried_lobby(lobbies[i]);
    }
    assert forall|s: Progress, rest: Seq<Task>| lobbies.len() <= 2 implies #[trigger] through(
        s,
        tasks,
        rest,
        replies,
    ) by {
        if s.todo == tasks + rest && !s.rejected {
            lemma_in_group(s, rest, array, lobbies);
        }
    }
    assert forall|s: Progress, rest: Seq<Task>| lobbies.len() > 2 implies #[trigger] refused(
        s,
        tasks,
        rest,
        replies,
    ) by {
        if s.todo == tasks + rest && !s.rejected {
            lemma_in_group(s, rest, array, lobbies);
        }
    }
}

proof fn lemma_in_group(s: Progress, rest: Seq<Task>, array: Reply, lobbies: Seq<Seq<Reply>>)
    requires
        s.todo == packets::body_tasks(Body::Lobbies) + rest,
        !s.rejected,
        array is Value,
        all_pass(Body::Lobby, lobbies),
    ensures
        if lobbies.len() <= 2 {
            packets::after(s, group(array, lobbies)) == packets::doing(s, rest)
        } else {
            packets::after(s, group(array, lobbies)).rejected
        },
{
    let next = Task::Next { left: 2, exact: false, body: Body::Lobby };
    assert(s.todo =~= seq![Task::Array { key: "lobbies" }, next] + rest);
    assert(s.todo.skip(1) =~= seq![next] + rest);
    lemma_joined(s, seq![array], list(lobbies));
    lemma_one(s, array);
    let s1 = packets::next(s, array);
    assert(s1.todo[0] == next);
    assert(s1.todo.skip(1) =~= rest);
    lemma_list(s1, 2, false, Body::Lobby, lobbies);
}

/// An answer to a query has three fields, an array and at most two groups of at most two lobbies.
pub proof fn lemma_info_response(
    head: Seq<Reply>,
    arrays: Seq<Reply>,
    lobbies: Seq<Seq<Seq<Reply>>>,
)
    requires
        good(head) && head.len() == 4,
        good(arrays) && arrays.len() == lobbies.len(),
        forall|i: int, j: int|
            0 <= i < lobbies.len() && 0 <= j < lobbies[i].len() ==> queried_lobby(
                #[trigger] lobbies[i][j],
            ),
    ensures
        packets::accepts(packets::info_response_tasks(), head + list(groups(arrays, lobbies))) == (
        lobbies.len() <= 2 && forall|i: int|
            0 <= i < lobbies.len() ==> (#[trigger] lobbies[i]).len() <= 2),
{
    let t = packets::info_response_tasks();
    let s = packets::start(t);
    let all = groups(arrays, lobbies);
    assert(t.len() == 5);
    assert(all_plain(t.take(4)));
    assert(t =~= t.take(4) + t.skip(4));
    lemma_joined(s, head, list(all));
    lemma_plain(s, t.take(4), t.skip(4), head);
    let s1 = packets::doing(s, t.skip(4));
    assert(s1.todo[0] == (Task::Next { left: 2, exact: false, body: Body::Lobbies }));
    assert(s1.todo.skip(1) =~= Seq::<Task>::empty());
    assert forall|i: int| 0 <= i < all.len() implies (passes(Body::Lobbies, #[trigger] all[i]) || fails(
        Body::Lobbies,
        all[i],
    )) && (lobbies[i].len() <= 2 ==> passes(Body::Lobbies, all[i])) && (lobbies[i].len() > 2
        ==> !passes(Body::Lobbies, all[i])) by {
        assert(arrays[i] is Value);
        lemma_group(arrays[i], lobbies[i]);
        if lobbies[i].len() > 2 {
            lemma_not_both(Body::Lobbies, all[i]);
        }
    }
    lemma_list(s1, 2, false, Body::Lobbies, all);
    if forall|i: int| 0 <= i < lobbies.len() ==> (#[trigger] lobbies[i]).len() <= 2 {
        assert forall|i: int| 0 <= i < all.len() implies passes(Body::Lobbies, #[trigger] all[i]) by {
            assert(lobbies[i].len() <= 2);
        }
    } else {
        let i = choose|i: int| 0 <= i < lobbies.len() && !((#[trigger] lobbies[i]).len() <= 2);
        assert(!passes(Body::Lobbies, all[i]));
    }
}

/// Nothing both passes and fails.
proof fn lemma_not_both(body: Body, replies: Seq<Reply>)
    requires
        fails(body, replies),
    ensures
        !passes(body, replies),
{
    let tasks = packets::body_tasks(body);
    let s = packets::start(tasks);
    assert(s.todo =~= tasks + Seq::<Task>::empty());
    assert(refused(s, tasks, Seq::empty(), replies));
    if passes(body, replies) {
        assert(through(s, tasks, Seq::empty(), replies));
    }
}

/// What the game says of a field is its value or that it could not be read; of anything else it
/// says yes or no, and only a value other than 0 is a yes.
pub proof fn lemma_replies(v: u64)
    ensures
        packets::field_reply(Some(v)) == Reply::Value(v),
        packets::field_reply(None) == Reply::Failed,
        packets::present(packets::flag_reply(true)),
        !packets::present(packets::flag_reply(false)),
        packets::flag_reply(true) is Value,
        packets::flag_reply(false) is Failed,
        packets::present(Reply::Value(v)) <==> v > 0,
        !packets::present(Reply::Failed),
{
}

/// A field, an array or a client that cannot be read is the end of a message, whatever else it
/// holds.
pub proof fn lemma_unreadable(s: Progress, more: Seq<Reply>)
    requires
        !s.rejected,
        s.todo.len() > 0,
        !(s.todo[0] is Counted) && !(s.todo[0] is Next),
    ensures
        packets::after(s, seq![Reply::Failed] + more).rejected,
{
    lemma_joined(s, seq![Reply::Failed], more);
    lemma_one(s, Reply::Failed);
    lemma_over(packets::next(s, Reply::Failed), more);
}

/// An inspection starts with everything still to be asked and nothing known.
pub proof fn lemma_start(todo: Seq<Task>)
    ensures
        packets::start(todo).todo == todo,
        !packets::start(todo).rejected,
        packets::start(todo).count == 0,
        packets::start(todo).main_mode == 0,
        packets::start(todo).lobby_mode == 0,
        packets::done(packets::start(todo)) <==> todo.len() == 0,
{
}

} // verus!
