//! The questions that are put to the game about each lobby message, in their order.
use crate::packets;
use crate::packets::{Body, Kind, Progress, Query, Reply, Task};
use vstd::prelude::*;

verus! {

/// The question for a field.
pub open spec fn field(kind: Kind, key: &'static str) -> Query {
    Query::Field { kind, key }
}

/// What there is to do begins with these questions.
pub open spec fn asks(todo: Seq<Task>, questions: Seq<Query>) -> bool {
    &&& todo.len() >= questions.len()
    &&& forall|i: int|
        0 <= i < questions.len() ==> #[trigger] packets::query_of(
            packets::start(todo.skip(i)),
        ) == Some(questions[i])
}

/// A request to join, up to its members.
pub open spec fn join_questions() -> Seq<Query> {
    seq![
        field(Kind::Int, "targetlobby"),
        field(Kind::Int, "sourcelobby"),
        field(Kind::Int, "jointype"),
        field(Kind::Xuid, "probedxuid"),
        field(Kind::Int, "playlistid"),
        field(Kind::Int, "playlistver"),
        field(Kind::Int, "ffotdver"),
        field(Kind::Short, "networkmode"),
        field(Kind::UInt, "netchecksum"),
        field(Kind::Int, "protocol"),
        field(Kind::Int, "changelist"),
        field(Kind::Int, "pingband"),
        field(Kind::UInt, "dlcbits"),
        field(Kind::U64, "joinnonce"),
        field(Kind::Byte, "chunk"),
        field(Kind::Byte, "chunk"),
        field(Kind::Byte, "chunk"),
        field(Kind::Bool, "isStarterPack"),
        field(Kind::Text(32), "password"),
        field(Kind::Int, "membercount"),
        Query::Array { key: "members" },
    ]
}

/// A member of a request to join.
pub open spec fn member_questions() -> Seq<Query> {
    seq![
        field(Kind::Xuid, "xuid"),
        field(Kind::U64, "lobbyid"),
        field(Kind::Float, "skillrating"),
        field(Kind::Float, "skillvariance"),
        field(Kind::UInt, "pprobation"),
        field(Kind::UInt, "aprobation"),
    ]
}

/// The state of a lobby, up to its clients.
pub open spec fn lobby_questions() -> Seq<Query> {
    seq![
        field(Kind::Int, "statenum"),
        field(Kind::Int, "networkmode"),
        field(Kind::Int, "mainmode"),
        field(Kind::Int, "partyprivacy"),
        field(Kind::Int, "lobbytype"),
        field(Kind::Int, "lobbymode"),
        field(Kind::Int, "sessionstatus"),
        field(Kind::Int, "uiscreen"),
        field(Kind::Byte, "leaderactivity"),
        field(Kind::Text(32), "key"),
        field(Kind::Xuid, "leader"),
        field(Kind::Xuid, "platformsession"),
        field(Kind::Int, "maxclients"),
        field(Kind::Bool, "isadvertised"),
        field(Kind::Int, "clientcount"),
        field(Kind::Text(64), "sessionid"),
        field(Kind::Text(64), "sessioninfo"),
        field(Kind::Text(32), "ugcName"),
        field(Kind::UInt, "ugcVersion"),
        Query::Array { key: "clientlist" },
    ]
}

/// A client of a lobby.
pub open spec fn client_questions() -> Seq<Query> {
    seq![
        field(Kind::Xuid, "xuid"),
        field(Kind::Byte, "clientNum"),
        field(Kind::Text(32), "gamertag"),
        field(Kind::Bool, "isGuest"),
        field(Kind::U64, "lobbyid"),
        field(Kind::Int, "connectbit"),
        field(Kind::Int, "score"),
        field(Kind::Glob(37), "address"),
        field(Kind::Int, "qport"),
        field(Kind::Byte, "band"),
        field(Kind::UInt, "netsrc"),
        field(Kind::UInt, "joinorder"),
        field(Kind::UInt, "dlcBits"),
        Query::Client,
    ]
}

/// The state of a lobby between its clients and its nominees.
pub open spec fn lobby_tail_questions() -> Seq<Query> {
    seq![
        field(Kind::Byte, "migratebits"),
        field(Kind::Int, "lasthosttimems"),
        Query::Array { key: "nomineelist" },
    ]
}

/// A nominee.
pub open spec fn nominee_questions() -> Seq<Query> {
    seq![
        field(Kind::Xuid, "xuid"),
    ]
}

/// The game of a lobby.
pub open spec fn game_questions() -> Seq<Query> {
    seq![
        field(Kind::Int, "serverstatus"),
        field(Kind::Int, "launchnonce"),
        field(Kind::U64, "matchhashlow"),
        field(Kind::U64, "matchhashhigh"),
        field(Kind::Int, "status"),
        field(Kind::Int, "statusvalue"),
        field(Kind::Int, "gamemode"),
        field(Kind::Text(32), "gametype"),
        field(Kind::Text(32), "map"),
        field(Kind::Text(32), "ugcName"),
        field(Kind::UInt, "ugcVersion"),
    ]
}

/// The game of a campaign.
pub open spec fn campaign_questions() -> Seq<Query> {
    seq![
        field(Kind::Text(32), "cpqueuedlevel"),
        field(Kind::Bool, "movieskipped"),
    ]
}

/// A client of a public game.
pub open spec fn public_questions() -> Seq<Query> {
    seq![
        field(Kind::Int, "team"),
        field(Kind::Int, "mapvote"),
        field(Kind::Bool, "readyup"),
    ]
}

/// A public game behind its clients.
pub open spec fn playlist_questions() -> Seq<Query> {
    seq![
        field(Kind::Int, "plistid"),
        field(Kind::Int, "plistcurr"),
        field(Kind::Glob(8), "plistentries"),
        field(Kind::Byte, "plistnext"),
        field(Kind::Byte, "plistprev"),
        field(Kind::Byte, "plistprevcount"),
    ]
}

/// A vote.
pub open spec fn vote_questions() -> Seq<Query> {
    seq![
        field(Kind::Short, "itemtype"),
        field(Kind::UInt, "item"),
        field(Kind::Short, "itemgroup"),
        field(Kind::Short, "attachment"),
        field(Kind::Short, "votetype"),
        field(Kind::Xuid, "votexuid"),
    ]
}

/// A client of a custom or an arena game.
pub open spec fn pregame_questions() -> Seq<Query> {
    seq![
        field(Kind::Int, "team"),
        field(Kind::Int, "pregamepos"),
        field(Kind::Int, "pregamestate"),
        field(Kind::UInt, "clvotecount"),
        field(Kind::UInt, "character"),
        field(Kind::UInt, "loadout"),
    ]
}

/// A heartbeat, up to its nominees.
pub open spec fn heartbeat_questions() -> Seq<Query> {
    seq![
        field(Kind::Int, "heartbeatnum"),
        field(Kind::Int, "lobbytype"),
        field(Kind::Int, "lasthosttimems"),
        Query::Array { key: "nomineelist" },
    ]
}

/// An answer to a query, up to its groups.
pub open spec fn info_questions() -> Seq<Query> {
    seq![
        field(Kind::UInt, "nonce"),
        field(Kind::Int, "uiscreen"),
        field(Kind::Byte, "nattype"),
        Query::Array { key: "lobbies" },
    ]
}

/// A lobby of such an answer whose flag is set.
pub open spec fn queried_questions() -> Seq<Query> {
    seq![
        field(Kind::Xuid, "hostxuid"),
        field(Kind::Text(32), "hostname"),
        field(Kind::Int, "networkmode"),
        field(Kind::Int, "mainmode"),
        field(Kind::Glob(8), "secid"),
        field(Kind::Glob(16), "seckey"),
        field(Kind::Glob(37), "addrbuff"),
        field(Kind::Text(32), "ugcName"),
        field(Kind::UInt, "ugcVersion"),
    ]
}

/// A request to join is asked for its fields, and for how many members it has.
pub proof fn lemma_join_questions()
    ensures
        asks(packets::join_tasks(), join_questions()),
        packets::join_tasks().len() == 22,
{
    let todo = packets::join_tasks();
    let questions = join_questions();
    assert forall|i: int| 0 <= i < questions.len() implies #[trigger] packets::query_of(
        packets::start(todo.skip(i)),
    ) == Some(questions[i]) by {
        assert(todo.skip(i)[0] == todo[i]);
    }
}

/// Each member is asked for its fields and no more.
pub proof fn lemma_member_questions()
    ensures
        asks(packets::body_tasks(Body::Member), member_questions()),
        packets::body_tasks(Body::Member).len() == 6,
{
    let todo = packets::body_tasks(Body::Member);
    let questions = member_questions();
    assert forall|i: int| 0 <= i < questions.len() implies #[trigger] packets::query_of(
        packets::start(todo.skip(i)),
    ) == Some(questions[i]) by {
        assert(todo.skip(i)[0] == todo[i]);
    }
}

/// The state of a lobby is asked for its fields, and for how many clients it has.
pub proof fn lemma_lobby_questions()
    ensures
        asks(packets::lobby_tasks(), lobby_questions()),
        packets::lobby_tasks().len() == 25,
{
    let todo = packets::lobby_tasks();
    let questions = lobby_questions();
    assert forall|i: int| 0 <= i < questions.len() implies #[trigger] packets::query_of(
        packets::start(todo.skip(i)),
    ) == Some(questions[i]) by {
        assert(todo.skip(i)[0] == todo[i]);
    }
}

/// Each client is asked for its fields and its changeable part.
pub proof fn lemma_client_questions()
    ensures
        asks(packets::body_tasks(Body::Client), client_questions()),
        packets::body_tasks(Body::Client).len() == 14,
{
    let todo = packets::body_tasks(Body::Client);
    let questions = client_questions();
    assert forall|i: int| 0 <= i < questions.len() implies #[trigger] packets::query_of(
        packets::start(todo.skip(i)),
    ) == Some(questions[i]) by {
        assert(todo.skip(i)[0] == todo[i]);
    }
}

/// Behind the clients of a lobby come two fields and the nominees.
pub proof fn lemma_lobby_tail_questions()
    ensures
        asks(packets::lobby_tasks().skip(21), lobby_tail_questions()),
{
    let todo = packets::lobby_tasks().skip(21);
    let questions = lobby_tail_questions();
    assert forall|i: int| 0 <= i < questions.len() implies #[trigger] packets::query_of(
        packets::start(todo.skip(i)),
    ) == Some(questions[i]) by {
        assert(todo.skip(i)[0] == todo[i]);
    }
}

/// A nominee is one field.
pub proof fn lemma_nominee_questions()
    ensures
        asks(packets::body_tasks(Body::Nominee), nominee_questions()),
        packets::body_tasks(Body::Nominee).len() == 1,
{
    let todo = packets::body_tasks(Body::Nominee);
    let questions = nominee_questions();
    assert forall|i: int| 0 <= i < questions.len() implies #[trigger] packets::query_of(
        packets::start(todo.skip(i)),
    ) == Some(questions[i]) by {
        assert(todo.skip(i)[0] == todo[i]);
    }
}

/// A lobby with its game is asked for the lobby first, and then for the game.
pub proof fn lemma_game_questions()
    ensures
        asks(packets::lobby_game_tasks().skip(25), game_questions()),
        packets::lobby_game_tasks().take(25) == packets::lobby_tasks(),
        packets::lobby_game_tasks().len() == 36,
{
    let todo = packets::lobby_game_tasks().skip(25);
    let questions = game_questions();
    assert forall|i: int| 0 <= i < questions.len() implies #[trigger] packets::query_of(
        packets::start(todo.skip(i)),
    ) == Some(questions[i]) by {
        assert(todo.skip(i)[0] == todo[i]);
    }
}

/// In campaign mode, which is 0, there are two more fields.
pub proof fn lemma_campaign_questions()
    ensures
        asks(packets::main_mode_tasks(0), campaign_questions()),
        packets::main_mode_tasks(0).len() == 2,
        forall|mode: i32| mode != 0 ==> #[trigger] packets::main_mode_tasks(mode).len() == 0,
{
    let todo = packets::main_mode_tasks(0);
    let questions = campaign_questions();
    assert forall|i: int| 0 <= i < questions.len() implies #[trigger] packets::query_of(
        packets::start(todo.skip(i)),
    ) == Some(questions[i]) by {
        assert(todo.skip(i)[0] == todo[i]);
    }
}

/// Each client of a public game is asked for three fields.
pub proof fn lemma_public_questions()
    ensures
        asks(packets::body_tasks(Body::Public), public_questions()),
        packets::body_tasks(Body::Public).len() == 3,
{
    let todo = packets::body_tasks(Body::Public);
    let questions = public_questions();
    assert forall|i: int| 0 <= i < questions.len() implies #[trigger] packets::query_of(
        packets::start(todo.skip(i)),
    ) == Some(questions[i]) by {
        assert(todo.skip(i)[0] == todo[i]);
    }
}

/// A public game ends in its playlist.
pub proof fn lemma_playlist_questions()
    ensures
        asks(packets::lobby_mode_tasks(0).skip(2), playlist_questions()),
        packets::lobby_mode_tasks(0).len() == 8,
{
    let todo = packets::lobby_mode_tasks(0).skip(2);
    let questions = playlist_questions();
    assert forall|i: int| 0 <= i < questions.len() implies #[trigger] packets::query_of(
        packets::start(todo.skip(i)),
    ) == Some(questions[i]) by {
        assert(todo.skip(i)[0] == todo[i]);
    }
}

/// Each vote is asked for six fields.
pub proof fn lemma_vote_questions()
    ensures
        asks(packets::body_tasks(Body::Vote), vote_questions()),
        packets::body_tasks(Body::Vote).len() == 6,
{
    let todo = packets::body_tasks(Body::Vote);
    let questions = vote_questions();
    assert forall|i: int| 0 <= i < questions.len() implies #[trigger] packets::query_of(
        packets::start(todo.skip(i)),
    ) == Some(questions[i]) by {
        assert(todo.skip(i)[0] == todo[i]);
    }
}

/// Each client of a custom or an arena game is asked for six fields.
pub proof fn lemma_pregame_questions()
    ensures
        asks(packets::body_tasks(Body::Pregame), pregame_questions()),
        packets::body_tasks(Body::Pregame).len() == 6,
{
    let todo = packets::body_tasks(Body::Pregame);
    let questions = pregame_questions();
    assert forall|i: int| 0 <= i < questions.len() implies #[trigger] packets::query_of(
        packets::start(todo.skip(i)),
    ) == Some(questions[i]) by {
        assert(todo.skip(i)[0] == todo[i]);
    }
}

/// A heartbeat is asked for three fields and its nominees.
pub proof fn lemma_heartbeat_questions()
    ensures
        asks(packets::heartbeat_tasks(), heartbeat_questions()),
        packets::heartbeat_tasks().len() == 5,
{
    let todo = packets::heartbeat_tasks();
    let questions = heartbeat_questions();
    assert forall|i: int| 0 <= i < questions.len() implies #[trigger] packets::query_of(
        packets::start(todo.skip(i)),
    ) == Some(questions[i]) by {
        assert(todo.skip(i)[0] == todo[i]);
    }
}

/// An answer to a query is asked for three fields and its groups.
pub proof fn lemma_info_questions()
    ensures
        asks(packets::info_response_tasks(), info_questions()),
        packets::info_response_tasks().len() == 5,
{
    let todo = packets::info_response_tasks();
    let questions = info_questions();
    assert forall|i: int| 0 <= i < questions.len() implies #[trigger] packets::query_of(
        packets::start(todo.skip(i)),
    ) == Some(questions[i]) by {
        assert(todo.skip(i)[0] == todo[i]);
    }
}

/// A lobby whose flag is set is asked for nine fields.
pub proof fn lemma_queried_questions()
    ensures
        asks(packets::valid_lobby_tasks(), queried_questions()),
        packets::valid_lobby_tasks().len() == 9,
{
    let todo = packets::valid_lobby_tasks();
    let questions = queried_questions();
    assert forall|i: int| 0 <= i < questions.len() implies #[trigger] packets::query_of(
        packets::start(todo.skip(i)),
    ) == Some(questions[i]) by {
        assert(todo.skip(i)[0] == todo[i]);
    }
}

/// How the game of each kind of lobby begins: a public one with its clients, a custom one with the
/// number of its votes and their array, an arena one with its state and the number of its votes.
pub proof fn lemma_mode_questions()
    ensures
        asks(packets::lobby_mode_tasks(0), seq![Query::Array { key: "clientlist" }]),
        asks(
            packets::lobby_mode_tasks(1),
            seq![field(Kind::Int, "votecount"), Query::Array { key: "votes" }],
        ),
        asks(packets::lobby_mode_tasks(1).skip(3), seq![Query::Array { key: "clientlist" }]),
        asks(packets::lobby_mode_tasks(1).skip(5), seq![field(Kind::Int, "settingssize")]),
        asks(
            packets::lobby_mode_tasks(3),
            seq![field(Kind::Int, "compstate"), field(Kind::Int, "votecount")],
        ),
        asks(packets::lobby_mode_tasks(3).skip(3), seq![Query::Array { key: "clientlist" }]),
        asks(packets::body_tasks(Body::Lobbies), seq![Query::Array { key: "lobbies" }]),
        asks(packets::body_tasks(Body::Lobby), seq![field(Kind::Bool, "valid")]),
        forall|mode: i32|
            mode != 0 && mode != 1 && mode != 3 ==> #[trigger] packets::lobby_mode_tasks(mode).len()
                == 0,
{
    let t0 = packets::lobby_mode_tasks(0);
    let t1 = packets::lobby_mode_tasks(1);
    let t3 = packets::lobby_mode_tasks(3);
    assert(t0.skip(0) =~= t0 && t1.skip(0) =~= t1 && t3.skip(0) =~= t3);
    assert(t1.skip(1)[0] == t1[1] && t3.skip(1)[0] == t3[1]);
    assert(t1.skip(3).skip(0)[0] == t1[3] && t1.skip(5).skip(0)[0] == t1[5]);
    assert(t3.skip(3).skip(0)[0] == t3[3]);
    let lobbies = packets::body_tasks(Body::Lobbies);
    let lobby = packets::body_tasks(Body::Lobby);
    assert(lobbies.skip(0) =~= lobbies && lobby.skip(0) =~= lobby);
}

/// A further element is announced as expected exactly while one may follow: of a counted list
/// while fewer came than were announced.
pub proof fn lemma_expected(s: Progress, left: u32, exact: bool, body: Body, rest: Seq<Task>)
    requires
        !s.rejected,
    ensures
        s.todo == seq![Task::Next { left, exact, body }] + rest ==> packets::query_of(s) == Some(
            Query::Element { expected: left > 0 },
        ),
        s.todo == seq![Task::Counted { body }] + rest ==> packets::query_of(s) == Some(
            Query::Element { expected: s.count > 0 },
        ),
        s.todo == seq![Task::Next { left, exact, body }] + rest && left > 0 ==> packets::next(
            s,
            Reply::Value(1),
        ).todo == packets::body_tasks(body) + (seq![
            Task::Next { left: (left - 1) as u32, exact, body },
        ] + rest),
{
    let next = seq![Task::Next { left, exact, body }] + rest;
    assert(next.skip(1) =~= rest);
}

} // verus!
