//! Bounded inspection of lobby messages. The inspection reads a copy of the game's reader
//! through the game's own field functions; the original cursor is never consumed.
use crate::bytes;
use crate::structs::{LobbyMsg, Msg};
use crate::text;
use crate::text::push_hex;
use vstd::prelude::*;

verus! {

/// How a field is read; texts and blobs with the size of the buffer that takes them.
#[derive(Clone, Copy, Debug, PartialEq, Eq, Structural)]
pub enum Kind {
    Int,
    UInt,
    Byte,
    Bool,
    Short,
    U64,
    Xuid,
    Float,
    Text(usize),
    Glob(usize),
}

/// What the elements of a list hold.
#[derive(Clone, Copy, Debug, PartialEq, Eq, Structural)]
pub enum Body {
    Member,
    Client,
    Nominee,
    Vote,
    Pregame,
    Public,
    Lobbies,
    Lobby,
}

/// A step of an inspection.
#[derive(Clone, Copy, Debug)]
pub enum Task {
    /// Reads a field whose value does not matter.
    Field { kind: Kind, key: &'static str },
    /// Reads the main mode of a lobby.
    MainMode { key: &'static str },
    /// Reads the mode of a lobby.
    LobbyMode { key: &'static str },
    /// Reads the length of the list that follows.
    Count { key: &'static str, max: i32 },
    /// Reads a size, which is at least 1.
    Size { key: &'static str, max: i32 },
    /// Reads a field and then what the modes ask for.
    Fork { kind: Kind, key: &'static str },
    /// Reads a flag and, if it is set, the lobby behind it.
    Valid { key: &'static str },
    /// Enters an array.
    Array { key: &'static str },
    /// Reads as many elements as were counted, no more and no fewer.
    Counted { body: Body },
    /// Reads at most `left` further elements.
    Next { left: u32, exact: bool, body: Body },
    /// Reads the changeable part of a client.
    Client,
}

/// What the game is asked.
#[derive(Clone, Copy, Debug)]
pub enum Query {
    Field { kind: Kind, key: &'static str },
    Array { key: &'static str },
    Element { expected: bool },
    Client,
}

/// What it answers. Where it is asked for an element, any value but 0 says that there is one.
#[derive(Clone, Copy, Debug, PartialEq, Eq, Structural)]
pub enum Reply {
    Failed,
    Value(u64),
}

pub open spec fn fields(kinds: Seq<(Kind, &'static str)>) -> Seq<Task> {
    Seq::new(kinds.len(), |i: int| Task::Field { kind: kinds[i].0, key: kinds[i].1 })
}

/// What one element of a list consists of.
pub open spec fn body_tasks(body: Body) -> Seq<Task> {
    match body {
        Body::Member => fields(
            seq![
                (Kind::Xuid, "xuid"),
                (Kind::U64, "lobbyid"),
                (Kind::Float, "skillrating"),
                (Kind::Float, "skillvariance"),
                (Kind::UInt, "pprobation"),
                (Kind::UInt, "aprobation"),
            ],
        ),
        Body::Client => fields(
            seq![
                (Kind::Xuid, "xuid"),
                (Kind::Byte, "clientNum"),
                (Kind::Text(32), "gamertag"),
                (Kind::Bool, "isGuest"),
                (Kind::U64, "lobbyid"),
                (Kind::Int, "connectbit"),
                (Kind::Int, "score"),
                (Kind::Glob(37), "address"),
                (Kind::Int, "qport"),
                (Kind::Byte, "band"),
                (Kind::UInt, "netsrc"),
                (Kind::UInt, "joinorder"),
                (Kind::UInt, "dlcBits"),
            ],
        ) + seq![Task::Client],
        Body::Nominee => fields(seq![(Kind::Xuid, "xuid")]),
        Body::Vote => fields(
            seq![
                (Kind::Short, "itemtype"),
                (Kind::UInt, "item"),
                (Kind::Short, "itemgroup"),
                (Kind::Short, "attachment"),
                (Kind::Short, "votetype"),
                (Kind::Xuid, "votexuid"),
            ],
        ),
        Body::Pregame => fields(
            seq![
                (Kind::Int, "team"),
                (Kind::Int, "pregamepos"),
                (Kind::Int, "pregamestate"),
                (Kind::UInt, "clvotecount"),
                (Kind::UInt, "character"),
                (Kind::UInt, "loadout"),
            ],
        ),
        Body::Public => fields(
            seq![(Kind::Int, "team"), (Kind::Int, "mapvote"), (Kind::Bool, "readyup")],
        ),
        Body::Lobbies => seq![
            Task::Array { key: "lobbies" },
            Task::Next { left: 2, exact: false, body: Body::Lobby },
        ],
        Body::Lobby => seq![Task::Valid { key: "valid" }],
    }
}

/// A lobby whose flag is set.
pub open spec fn valid_lobby_tasks() -> Seq<Task> {
    fields(
        seq![
            (Kind::Xuid, "hostxuid"),
            (Kind::Text(32), "hostname"),
            (Kind::Int, "networkmode"),
            (Kind::Int, "mainmode"),
            (Kind::Glob(8), "secid"),
            (Kind::Glob(16), "seckey"),
            (Kind::Glob(37), "addrbuff"),
            (Kind::Text(32), "ugcName"),
            (Kind::UInt, "ugcVersion"),
        ],
    )
}

/// A request to join.
pub open spec fn join_tasks() -> Seq<Task> {
    fields(
        seq![
            (Kind::Int, "targetlobby"),
            (Kind::Int, "sourcelobby"),
            (Kind::Int, "jointype"),
            (Kind::Xuid, "probedxuid"),
            (Kind::Int, "playlistid"),
            (Kind::Int, "playlistver"),
            (Kind::Int, "ffotdver"),
            (Kind::Short, "networkmode"),
            (Kind::UInt, "netchecksum"),
            (Kind::Int, "protocol"),
            (Kind::Int, "changelist"),
            (Kind::Int, "pingband"),
            (Kind::UInt, "dlcbits"),
            (Kind::U64, "joinnonce"),
            (Kind::Byte, "chunk"),
            (Kind::Byte, "chunk"),
            (Kind::Byte, "chunk"),
            (Kind::Bool, "isStarterPack"),
            (Kind::Text(32), "password"),
        ],
    ) + seq![
        Task::Count { key: "membercount", max: 18 },
        Task::Array { key: "members" },
        Task::Counted { body: Body::Member },
    ]
}

/// The state of a lobby.
pub open spec fn lobby_tasks() -> Seq<Task> {
    fields(seq![(Kind::Int, "statenum"), (Kind::Int, "networkmode")]) + seq![
        Task::MainMode { key: "mainmode" },
    ] + fields(seq![(Kind::Int, "partyprivacy"), (Kind::Int, "lobbytype")]) + seq![
        Task::LobbyMode { key: "lobbymode" },
    ] + fields(
        seq![
            (Kind::Int, "sessionstatus"),
            (Kind::Int, "uiscreen"),
            (Kind::Byte, "leaderactivity"),
            (Kind::Text(32), "key"),
            (Kind::Xuid, "leader"),
            (Kind::Xuid, "platformsession"),
            (Kind::Int, "maxclients"),
            (Kind::Bool, "isadvertised"),
        ],
    ) + seq![Task::Count { key: "clientcount", max: 18 }] + fields(
        seq![
            (Kind::Text(64), "sessionid"),
            (Kind::Text(64), "sessioninfo"),
            (Kind::Text(32), "ugcName"),
            (Kind::UInt, "ugcVersion"),
        ],
    ) + seq![Task::Array { key: "clientlist" }, Task::Counted { body: Body::Client }] + fields(
        seq![(Kind::Byte, "migratebits"), (Kind::Int, "lasthosttimems")],
    ) + seq![
        Task::Array { key: "nomineelist" },
        Task::Next { left: 18, exact: false, body: Body::Nominee },
    ]
}

/// The state of a lobby with its game.
pub open spec fn lobby_game_tasks() -> Seq<Task> {
    lobby_tasks() + fields(
        seq![
            (Kind::Int, "serverstatus"),
            (Kind::Int, "launchnonce"),
            (Kind::U64, "matchhashlow"),
            (Kind::U64, "matchhashhigh"),
            (Kind::Int, "status"),
            (Kind::Int, "statusvalue"),
            (Kind::Int, "gamemode"),
            (Kind::Text(32), "gametype"),
            (Kind::Text(32), "map"),
            (Kind::Text(32), "ugcName"),
        ],
    ) + seq![Task::Fork { kind: Kind::UInt, key: "ugcVersion" }]
}

pub open spec fn pregame_tasks() -> Seq<Task> {
    seq![
        Task::Array { key: "clientlist" },
        Task::Next { left: 18, exact: false, body: Body::Pregame },
    ]
}

/// What a game in campaign mode holds besides.
pub open spec fn main_mode_tasks(main_mode: i32) -> Seq<Task> {
    if main_mode == 0 {
        fields(seq![(Kind::Text(32), "cpqueuedlevel"), (Kind::Bool, "movieskipped")])
    } else {
        seq![]
    }
}

/// What the game of a public, custom or arena lobby holds besides.
pub open spec fn lobby_mode_tasks(lobby_mode: i32) -> Seq<Task> {
    if lobby_mode == 0 {
        seq![
            Task::Array { key: "clientlist" },
            Task::Next { left: 18, exact: false, body: Body::Public },
        ] + fields(
            seq![
                (Kind::Int, "plistid"),
                (Kind::Int, "plistcurr"),
                (Kind::Glob(8), "plistentries"),
                (Kind::Byte, "plistnext"),
                (Kind::Byte, "plistprev"),
                (Kind::Byte, "plistprevcount"),
            ],
        )
    } else if lobby_mode == 1 {
        seq![
            Task::Count { key: "votecount", max: 216 },
            Task::Array { key: "votes" },
            Task::Counted { body: Body::Vote },
        ] + pregame_tasks() + seq![Task::Size { key: "settingssize", max: 0xc000 }]
    } else if lobby_mode == 3 {
        // An arena lobby's votes stand in no array of their own.
        seq![
            Task::Field { kind: Kind::Int, key: "compstate" },
            Task::Count { key: "votecount", max: 216 },
            Task::Counted { body: Body::Vote },
        ] + pregame_tasks()
    } else {
        seq![]
    }
}

pub open spec fn heartbeat_tasks() -> Seq<Task> {
    fields(
        seq![
            (Kind::Int, "heartbeatnum"),
            (Kind::Int, "lobbytype"),
            (Kind::Int, "lasthosttimems"),
        ],
    ) + seq![
        Task::Array { key: "nomineelist" },
        Task::Next { left: 18, exact: false, body: Body::Nominee },
    ]
}

pub open spec fn info_response_tasks() -> Seq<Task> {
    fields(seq![(Kind::UInt, "nonce"), (Kind::Int, "uiscreen"), (Kind::Byte, "nattype")]) + seq![
        Task::Array { key: "lobbies" },
        Task::Next { left: 2, exact: false, body: Body::Lobbies },
    ]
}

/// How far an inspection has come.
#[verifier::ext_equal]
pub struct Progress {
    pub todo: Seq<Task>,
    pub count: u32,
    pub main_mode: i32,
    pub lobby_mode: i32,
    pub rejected: bool,
}

pub open spec fn rejected(s: Progress) -> Progress {
    Progress { rejected: true, ..s }
}

pub open spec fn doing(s: Progress, todo: Seq<Task>) -> Progress {
    Progress { todo, ..s }
}

/// An answer to the question whether there is a further element, of which `left` may follow:
/// one too many is refused, and one too few where their number was announced.
pub open spec fn element_step(
    s: Progress,
    left: u32,
    exact: bool,
    body: Body,
    present: bool,
) -> Progress {
    let rest = s.todo.skip(1);
    if left == 0 {
        if present {
            rejected(s)
        } else {
            doing(s, rest)
        }
    } else if present {
        doing(
            s,
            body_tasks(body) + (seq![Task::Next { left: (left - 1) as u32, exact, body }] + rest),
        )
    } else if exact {
        rejected(s)
    } else {
        doing(s, rest)
    }
}

/// An answer with a value.
pub open spec fn value_step(s: Progress, v: u64) -> Progress {
    let rest = s.todo.skip(1);
    match s.todo[0] {
        Task::MainMode { key } => Progress { todo: rest, main_mode: v as i32, ..s },
        Task::LobbyMode { key } => Progress { todo: rest, lobby_mode: v as i32, ..s },
        Task::Count { key, max } => if 0 <= v as i32 <= max {
            Progress { todo: rest, count: (v as i32) as u32, ..s }
        } else {
            rejected(s)
        },
        Task::Size { key, max } => if 1 <= v as i32 <= max {
            doing(s, rest)
        } else {
            rejected(s)
        },
        Task::Fork { kind, key } => doing(
            s,
            main_mode_tasks(s.main_mode) + (lobby_mode_tasks(s.lobby_mode) + rest),
        ),
        Task::Valid { key } => if v == 0 {
            doing(s, rest)
        } else {
            doing(s, valid_lobby_tasks() + rest)
        },
        _ => doing(s, rest),
    }
}

/// What an answer makes of an inspection.
pub open spec fn next(s: Progress, reply: Reply) -> Progress {
    if s.rejected || s.todo.len() == 0 {
        s
    } else {
        match s.todo[0] {
            Task::Counted { body } => element_step(s, s.count, true, body, present(reply)),
            Task::Next { left, exact, body } => element_step(s, left, exact, body, present(reply)),
            _ => match reply {
                Reply::Failed => rejected(s),
                Reply::Value(v) => value_step(s, v),
            },
        }
    }
}

pub open spec fn present(reply: Reply) -> bool {
    match reply {
        Reply::Failed => false,
        Reply::Value(v) => v != 0,
    }
}

/// What an inspection asks next.
pub open spec fn query_of(s: Progress) -> Option<Query> {
    if s.rejected || s.todo.len() == 0 {
        None
    } else {
        Some(
            match s.todo[0] {
                Task::Field { kind, key } => Query::Field { kind, key },
                Task::MainMode { key } => Query::Field { kind: Kind::Int, key },
                Task::LobbyMode { key } => Query::Field { kind: Kind::Int, key },
                Task::Count { key, max } => Query::Field { kind: Kind::Int, key },
                Task::Size { key, max } => Query::Field { kind: Kind::Int, key },
                Task::Fork { kind, key } => Query::Field { kind, key },
                Task::Valid { key } => Query::Field { kind: Kind::Bool, key },
                Task::Array { key } => Query::Array { key },
                Task::Counted { body } => Query::Element { expected: s.count > 0 },
                Task::Next { left, exact, body } => Query::Element { expected: left > 0 },
                Task::Client => Query::Client,
            },
        )
    }
}

/// An inspection after a series of answers.
pub open spec fn after(s: Progress, replies: Seq<Reply>) -> Progress
    decreases replies.len(),
{
    if replies.len() == 0 {
        s
    } else {
        next(after(s, replies.drop_last()), replies.last())
    }
}

pub open spec fn start(todo: Seq<Task>) -> Progress {
    Progress { todo, count: 0, main_mode: 0, lobby_mode: 0, rejected: false }
}

/// Nothing is left to ask.
pub open spec fn done(s: Progress) -> bool {
    s.rejected || s.todo.len() == 0
}

pub struct Inspection {
    pub todo: Vec<Task>,
    pub count: u32,
    pub main_mode: i32,
    pub lobby_mode: i32,
    pub rejected: bool,
}

impl View for Inspection {
    type V = Progress;

    open spec fn view(&self) -> Progress {
        Progress {
            todo: self.todo@,
            count: self.count,
            main_mode: self.main_mode,
            lobby_mode: self.lobby_mode,
            rejected: self.rejected,
        }
    }
}

fn push_fields(out: &mut Vec<Task>, kinds: &[(Kind, &'static str)])
    ensures
        final(out)@ == old(out)@ + fields(kinds@),
{
    let mut i: usize = 0;
    assert(old(out)@ + fields(kinds@.take(0)) =~= old(out)@);
    while i < kinds.len()
        invariant
            i <= kinds@.len(),
            out@ == old(out)@ + fields(kinds@.take(i as int)),
        decreases kinds@.len() - i,
    {
        let field: (Kind, &'static str) = kinds[i];
        out.push(Task::Field { kind: field.0, key: field.1 });
        assert(out@ =~= old(out)@ + fields(kinds@.take(i + 1)));
        i = i + 1;
    }
    assert(kinds@.take(i as int) =~= kinds@);
}

fn body_plan(body: Body) -> (r: Vec<Task>)
    ensures
        r@ == body_tasks(body),
{
    let mut out: Vec<Task> = Vec::new();
    match body {
        Body::Member => {
            push_fields(
                &mut out,
                &[
                    (Kind::Xuid, "xuid"),
                    (Kind::U64, "lobbyid"),
                    (Kind::Float, "skillrating"),
                    (Kind::Float, "skillvariance"),
                    (Kind::UInt, "pprobation"),
                    (Kind::UInt, "aprobation"),
                ],
            );
        },
        Body::Client => {
            push_fields(
                &mut out,
                &[
                    (Kind::Xuid, "xuid"),
                    (Kind::Byte, "clientNum"),
                    (Kind::Text(32), "gamertag"),
                    (Kind::Bool, "isGuest"),
                    (Kind::U64, "lobbyid"),
                    (Kind::Int, "connectbit"),
                    (Kind::Int, "score"),
                    (Kind::Glob(37), "address"),
                    (Kind::Int, "qport"),
                    (Kind::Byte, "band"),
                    (Kind::UInt, "netsrc"),
                    (Kind::UInt, "joinorder"),
                    (Kind::UInt, "dlcBits"),
                ],
            );
            out.push(Task::Client);
        },
        Body::Nominee => {
            push_fields(&mut out, &[(Kind::Xuid, "xuid")]);
        },
        Body::Vote => {
            push_fields(
                &mut out,
                &[
                    (Kind::Short, "itemtype"),
                    (Kind::UInt, "item"),
                    (Kind::Short, "itemgroup"),
                    (Kind::Short, "attachment"),
                    (Kind::Short, "votetype"),
                    (Kind::Xuid, "votexuid"),
                ],
            );
        },
        Body::Pregame => {
            push_fields(
                &mut out,
                &[
                    (Kind::Int, "team"),
                    (Kind::Int, "pregamepos"),
                    (Kind::Int, "pregamestate"),
                    (Kind::UInt, "clvotecount"),
                    (Kind::UInt, "character"),
                    (Kind::UInt, "loadout"),
                ],
            );
        },
        Body::Public => {
            push_fields(&mut out, &[(Kind::Int, "team"), (Kind::Int, "mapvote"), (Kind::Bool, "readyup")]);
        },
        Body::Lobbies => {
            out.push(Task::Array { key: "lobbies" });
            out.push(Task::Next { left: 2, exact: false, body: Body::Lobby });
        },
        Body::Lobby => {
            out.push(Task::Valid { key: "valid" });
        },
    }
    assert(out@ =~= body_tasks(body));
    out
}

fn valid_lobby_plan() -> (r: Vec<Task>)
    ensures
        r@ == valid_lobby_tasks(),
{
    let mut out: Vec<Task> = Vec::new();
    push_fields(
        &mut out,
        &[
            (Kind::Xuid, "hostxuid"),
            (Kind::Text(32), "hostname"),
            (Kind::Int, "networkmode"),
            (Kind::Int, "mainmode"),
            (Kind::Glob(8), "secid"),
            (Kind::Glob(16), "seckey"),
            (Kind::Glob(37), "addrbuff"),
            (Kind::Text(32), "ugcName"),
            (Kind::UInt, "ugcVersion"),
        ],
    );
    assert(out@ =~= valid_lobby_tasks());
    out
}

fn join_plan() -> (r: Vec<Task>)
    ensures
        r@ == join_tasks(),
{
    let mut out: Vec<Task> = Vec::new();
    push_fields(
        &mut out,
        &[
            (Kind::Int, "targetlobby"),
            (Kind::Int, "sourcelobby"),
            (Kind::Int, "jointype"),
            (Kind::Xuid, "probedxuid"),
            (Kind::Int, "playlistid"),
            (Kind::Int, "playlistver"),
            (Kind::Int, "ffotdver"),
            (Kind::Short, "networkmode"),
            (Kind::UInt, "netchecksum"),
            (Kind::Int, "protocol"),
            (Kind::Int, "changelist"),
            (Kind::Int, "pingband"),
            (Kind::UInt, "dlcbits"),
            (Kind::U64, "joinnonce"),
            (Kind::Byte, "chunk"),
            (Kind::Byte, "chunk"),
            (Kind::Byte, "chunk"),
            (Kind::Bool, "isStarterPack"),
            (Kind::Text(32), "password"),
        ],
    );
    out.push(Task::Count { key: "membercount", max: 18 });
    out.push(Task::Array { key: "members" });
    out.push(Task::Counted { body: Body::Member });
    assert(out@ =~= join_tasks());
    out
}

fn lobby_plan() -> (r: Vec<Task>)
    ensures
        r@ == lobby_tasks(),
{
    let mut out: Vec<Task> = Vec::new();
    push_fields(&mut out, &[(Kind::Int, "statenum"), (Kind::Int, "networkmode")]);
    out.push(Task::MainMode { key: "mainmode" });
    push_fields(&mut out, &[(Kind::Int, "partyprivacy"), (Kind::Int, "lobbytype")]);
    out.push(Task::LobbyMode { key: "lobbymode" });
    push_fields(
        &mut out,
        &[
            (Kind::Int, "sessionstatus"),
            (Kind::Int, "uiscreen"),
            (Kind::Byte, "leaderactivity"),
            (Kind::Text(32), "key"),
            (Kind::Xuid, "leader"),
            (Kind::Xuid, "platformsession"),
            (Kind::Int, "maxclients"),
            (Kind::Bool, "isadvertised"),
        ],
    );
    out.push(Task::Count { key: "clientcount", max: 18 });
    push_fields(
        &mut out,
        &[
            (Kind::Text(64), "sessionid"),
            (Kind::Text(64), "sessioninfo"),
            (Kind::Text(32), "ugcName"),
            (Kind::UInt, "ugcVersion"),
        ],
    );
    out.push(Task::Array { key: "clientlist" });
    out.push(Task::Counted { body: Body::Client });
    push_fields(&mut out, &[(Kind::Byte, "migratebits"), (Kind::Int, "lasthosttimems")]);
    out.push(Task::Array { key: "nomineelist" });
    out.push(Task::Next { left: 18, exact: false, body: Body::Nominee });
    assert(out@ =~= lobby_tasks());
    out
}

fn lobby_game_plan() -> (r: Vec<Task>)
    ensures
        r@ == lobby_game_tasks(),
{
    let mut out: Vec<Task> = Vec::new();
    out.append(&mut lobby_plan());
    push_fields(
        &mut out,
        &[
            (Kind::Int, "serverstatus"),
            (Kind::Int, "launchnonce"),
            (Kind::U64, "matchhashlow"),
            (Kind::U64, "matchhashhigh"),
            (Kind::Int, "status"),
            (Kind::Int, "statusvalue"),
            (Kind::Int, "gamemode"),
            (Kind::Text(32), "gametype"),
            (Kind::Text(32), "map"),
            (Kind::Text(32), "ugcName"),
        ],
    );
    out.push(Task::Fork { kind: Kind::UInt, key: "ugcVersion" });
    assert(out@ =~= lobby_game_tasks());
    out
}

fn pregame_plan() -> (r: Vec<Task>)
    ensures
        r@ == pregame_tasks(),
{
    let mut out: Vec<Task> = Vec::new();
    out.push(Task::Array { key: "clientlist" });
    out.push(Task::Next { left: 18, exact: false, body: Body::Pregame });
    assert(out@ =~= pregame_tasks());
    out
}

fn heartbeat_plan() -> (r: Vec<Task>)
    ensures
        r@ == heartbeat_tasks(),
{
    let mut out: Vec<Task> = Vec::new();
    push_fields(&mut out, &[(Kind::Int, "heartbeatnum"), (Kind::Int, "lobbytype"), (Kind::Int, "lasthosttimems")]);
    out.push(Task::Array { key: "nomineelist" });
    out.push(Task::Next { left: 18, exact: false, body: Body::Nominee });
    assert(out@ =~= heartbeat_tasks());
    out
}

fn info_response_plan() -> (r: Vec<Task>)
    ensures
        r@ == info_response_tasks(),
{
    let mut out: Vec<Task> = Vec::new();
    push_fields(&mut out, &[(Kind::UInt, "nonce"), (Kind::Int, "uiscreen"), (Kind::Byte, "nattype")]);
    out.push(Task::Array { key: "lobbies" });
    out.push(Task::Next { left: 2, exact: false, body: Body::Lobbies });
    assert(out@ =~= info_response_tasks());
    out
}

fn main_mode_plan(main_mode: i32) -> (r: Vec<Task>)
    ensures
        r@ == main_mode_tasks(main_mode),
{
    let mut out: Vec<Task> = Vec::new();
    if main_mode == 0 {
        push_fields(&mut out, &[(Kind::Text(32), "cpqueuedlevel"), (Kind::Bool, "movieskipped")]);
    }
    assert(out@ =~= main_mode_tasks(main_mode));
    out
}

fn lobby_mode_plan(lobby_mode: i32) -> (r: Vec<Task>)
    ensures
        r@ == lobby_mode_tasks(lobby_mode),
{
    let mut out: Vec<Task> = Vec::new();
    if lobby_mode == 0 {
        out.push(Task::Array { key: "clientlist" });
        out.push(Task::Next { left: 18, exact: false, body: Body::Public });
        push_fields(
            &mut out,
            &[
                (Kind::Int, "plistid"),
                (Kind::Int, "plistcurr"),
                (Kind::Glob(8), "plistentries"),
                (Kind::Byte, "plistnext"),
                (Kind::Byte, "plistprev"),
                (Kind::Byte, "plistprevcount"),
            ],
        );
    } else if lobby_mode == 1 {
        out.push(Task::Count { key: "votecount", max: 216 });
        out.push(Task::Array { key: "votes" });
        out.push(Task::Counted { body: Body::Vote });
        out.append(&mut pregame_plan());
        out.push(Task::Size { key: "settingssize", max: 0xc000 });
    } else if lobby_mode == 3 {
        out.push(Task::Field { kind: Kind::Int, key: "compstate" });
        out.push(Task::Count { key: "votecount", max: 216 });
        out.push(Task::Counted { body: Body::Vote });
        out.append(&mut pregame_plan());
    }
    assert(out@ =~= lobby_mode_tasks(lobby_mode));
    out
}

/// The most elements that a message may announce.
pub const MOST_COUNTED: u32 = 216;

/// How many questions one element of a list takes at most.
pub open spec fn body_cost(body: Body) -> nat {
    match body {
        Body::Member => 6,
        Body::Client => 14,
        Body::Nominee => 1,
        Body::Vote => 6,
        Body::Pregame => 6,
        Body::Public => 3,
        Body::Lobbies => 1 + list_cost(2, 10),
        Body::Lobby => 10,
    }
}

/// How many questions a list takes at most.
pub open spec fn list_cost(left: nat, element: nat) -> nat {
    1 + left * (1 + element)
}

/// How many questions a task takes at most.
pub open spec fn task_cost(task: Task) -> nat {
    match task {
        Task::Fork { kind, key } => 1700,
        Task::Valid { key } => 10,
        Task::Counted { body } => list_cost(MOST_COUNTED as nat, body_cost(body)),
        Task::Next { left, exact, body } => list_cost(left as nat, body_cost(body)),
        _ => 1,
    }
}

/// How many questions an inspection takes at most.
pub open spec fn cost(todo: Seq<Task>) -> nat
    decreases todo.len(),
{
    if todo.len() == 0 {
        0
    } else {
        task_cost(todo[0]) + cost(todo.skip(1))
    }
}

proof fn lemma_cost_joined(a: Seq<Task>, b: Seq<Task>)
    ensures
        cost(a + b) == cost(a) + cost(b),
    decreases a.len(),
{
    if a.len() == 0 {
        assert(a + b =~= b);
    } else {
        assert((a + b).skip(1) =~= a.skip(1) + b);
        lemma_cost_joined(a.skip(1), b);
    }
}

proof fn lemma_cost_of_one(task: Task)
    ensures
        cost(seq![task]) == task_cost(task),
{
    assert(seq![task].skip(1) =~= Seq::<Task>::empty());
    assert(cost(Seq::<Task>::empty()) == 0);
}

proof fn lemma_cost_of_two(a: Task, b: Task)
    ensures
        cost(seq![a, b]) == task_cost(a) + task_cost(b),
{
    assert(seq![a, b].skip(1) =~= seq![b]);
    lemma_cost_of_one(b);
}

proof fn lemma_cost_of_three(a: Task, b: Task, c: Task)
    ensures
        cost(seq![a, b, c]) == task_cost(a) + task_cost(b) + task_cost(c),
{
    assert(seq![a, b, c].skip(1) =~= seq![b, c]);
    lemma_cost_of_two(b, c);
}

proof fn lemma_cost_of_body(body: Body)
    ensures
        cost(body_tasks(body)) == body_cost(body),
{
    match body {
        Body::Member => lemma_cost_of_all_fields(body_tasks(body)),
        Body::Client => {
            let clients = body_tasks(body).drop_last();
            lemma_cost_of_all_fields(clients);
            lemma_cost_joined(clients, seq![Task::Client]);
            lemma_cost_of_one(Task::Client);
            assert(clients + seq![Task::Client] =~= body_tasks(body));
        },
        Body::Nominee => lemma_cost_of_all_fields(body_tasks(body)),
        Body::Vote => lemma_cost_of_all_fields(body_tasks(body)),
        Body::Pregame => lemma_cost_of_all_fields(body_tasks(body)),
        Body::Public => lemma_cost_of_all_fields(body_tasks(body)),
        Body::Lobbies => lemma_cost_of_two(
            Task::Array { key: "lobbies" },
            Task::Next { left: 2, exact: false, body: Body::Lobby },
        ),
        Body::Lobby => lemma_cost_of_one(Task::Valid { key: "valid" }),
    }
}

proof fn lemma_cost_of_all_fields(todo: Seq<Task>)
    requires
        forall|i: int| 0 <= i < todo.len() ==> (#[trigger] todo[i]) is Field,
    ensures
        cost(todo) == todo.len(),
    decreases todo.len(),
{
    if todo.len() > 0 {
        assert(todo[0] is Field);
        assert forall|i: int| 0 <= i < todo.skip(1).len() implies (#[trigger] todo.skip(
            1,
        )[i]) is Field by {
            assert(todo.skip(1)[i] == todo[i + 1]);
        }
        lemma_cost_of_all_fields(todo.skip(1));
    }
}

proof fn lemma_cost_of_fork(main_mode: i32, lobby_mode: i32)
    ensures
        cost(main_mode_tasks(main_mode)) + cost(lobby_mode_tasks(lobby_mode)) < 1700,
{
    let main = main_mode_tasks(main_mode);
    let lobby = lobby_mode_tasks(lobby_mode);
    if main_mode == 0 {
        lemma_cost_of_all_fields(main);
    }
    assert(cost(main) <= 2);
    let pregame = pregame_tasks();
    lemma_cost_of_two(
        Task::Array { key: "clientlist" },
        Task::Next { left: 18, exact: false, body: Body::Pregame },
    );
    assert(cost(pregame) == 128);
    if lobby_mode == 0 {
        let list = lobby.take(2);
        let tail = lobby.skip(2);
        assert(list =~= seq![
            Task::Array { key: "clientlist" },
            Task::Next { left: 18, exact: false, body: Body::Public },
        ]);
        lemma_cost_of_two(
            Task::Array { key: "clientlist" },
            Task::Next { left: 18, exact: false, body: Body::Public },
        );
        lemma_cost_of_all_fields(tail);
        lemma_cost_joined(list, tail);
        assert(list + tail =~= lobby);
    } else if lobby_mode == 1 {
        let votes = seq![
            Task::Count { key: "votecount", max: 216 },
            Task::Array { key: "votes" },
            Task::Counted { body: Body::Vote },
        ];
        let size = Task::Size { key: "settingssize", max: 0xc000 };
        lemma_cost_of_three(
            Task::Count { key: "votecount", max: 216 },
            Task::Array { key: "votes" },
            Task::Counted { body: Body::Vote },
        );
        lemma_cost_of_one(size);
        lemma_cost_joined(votes, pregame);
        lemma_cost_joined(votes + pregame, seq![size]);
    } else if lobby_mode == 3 {
        let votes = seq![
            Task::Field { kind: Kind::Int, key: "compstate" },
            Task::Count { key: "votecount", max: 216 },
            Task::Counted { body: Body::Vote },
        ];
        lemma_cost_of_three(
            Task::Field { kind: Kind::Int, key: "compstate" },
            Task::Count { key: "votecount", max: 216 },
            Task::Counted { body: Body::Vote },
        );
        lemma_cost_joined(votes, pregame);
    }
}

/// Counts are bounded wherever one is announced.
pub open spec fn counts_bounded(todo: Seq<Task>) -> bool {
    forall|i: int|
        0 <= i < todo.len() ==> ((#[trigger] todo[i]) matches Task::Count { key, max }
            ==> max <= MOST_COUNTED)
}

/// A state that an inspection can be in.
pub open spec fn sound(s: Progress) -> bool {
    s.count <= MOST_COUNTED && counts_bounded(s.todo)
}

proof fn lemma_list_cost(left: nat, element: nat)
    ensures
        left > 0 ==> list_cost(left, element) == 1 + element + list_cost((left - 1) as nat, element),
        left <= MOST_COUNTED ==> list_cost(left, element) <= list_cost(
            MOST_COUNTED as nat,
            element,
        ),
{
    if left > 0 {
        assert(left * (1 + element) == (1 + element) + (left - 1) * (1 + element))
            by (nonlinear_arith);
    }
    if left <= MOST_COUNTED {
        assert(left * (1 + element) <= MOST_COUNTED * (1 + element)) by (nonlinear_arith)
            requires
                left <= MOST_COUNTED,
        ;
    }
}

/// Every answer ends an inspection or brings it closer to its end.
pub proof fn lemma_next_costs_less(s: Progress, reply: Reply)
    requires
        sound(s),
        !done(s),
    ensures
        sound(next(s, reply)),
        next(s, reply).rejected || cost(next(s, reply).todo) < cost(s.todo),
{
    let rest = s.todo.skip(1);
    assert(cost(s.todo) == task_cost(s.todo[0]) + cost(rest));
    assert(counts_bounded(rest)) by {
        assert forall|i: int| 0 <= i < rest.len() implies ((#[trigger] rest[i]) matches Task::Count {
            key,
            max,
        } ==> max <= MOST_COUNTED) by {
            assert(rest[i] == s.todo[i + 1]);
        }
    }
    match s.todo[0] {
        Task::Counted { body } => {
            lemma_list_cost(s.count as nat, body_cost(body));
            lemma_element_costs_less(s, s.count, true, body, present(reply));
        },
        Task::Next { left, exact, body } => lemma_element_costs_less(
            s,
            left,
            exact,
            body,
            present(reply),
        ),
        Task::Fork { kind, key } => {
            let a = main_mode_tasks(s.main_mode);
            let b = lobby_mode_tasks(s.lobby_mode);
            lemma_cost_of_fork(s.main_mode, s.lobby_mode);
            lemma_cost_joined(b, rest);
            lemma_cost_joined(a, b + rest);
            assert(counts_bounded(a));
            assert(counts_bounded(b));
            lemma_counts_joined(b, rest);
            lemma_counts_joined(a, b + rest);
        },
        Task::Valid { key } => {
            lemma_cost_of_all_fields(valid_lobby_tasks());
            lemma_cost_joined(valid_lobby_tasks(), rest);
            lemma_counts_joined(valid_lobby_tasks(), rest);
        },
        _ => {},
    }
}

proof fn lemma_counts_joined(a: Seq<Task>, b: Seq<Task>)
    requires
        counts_bounded(a),
        counts_bounded(b),
    ensures
        counts_bounded(a + b),
{
    assert forall|i: int| 0 <= i < (a + b).len() implies ((#[trigger] (a + b)[i]) matches Task::Count {
        key,
        max,
    } ==> max <= MOST_COUNTED) by {
        if i < a.len() {
            assert((a + b)[i] == a[i]);
        } else {
            assert((a + b)[i] == b[i - a.len()]);
        }
    }
}

proof fn lemma_element_costs_less(s: Progress, left: u32, exact: bool, body: Body, present: bool)
    requires
        sound(s),
        s.todo.len() > 0,
        counts_bounded(s.todo.skip(1)),
        cost(s.todo) == task_cost(s.todo[0]) + cost(s.todo.skip(1)),
        task_cost(s.todo[0]) >= list_cost(left as nat, body_cost(body)),
    ensures
        sound(element_step(s, left, exact, body, present)),
        element_step(s, left, exact, body, present).rejected || cost(
            element_step(s, left, exact, body, present).todo,
        ) < cost(s.todo),
{
    let rest = s.todo.skip(1);
    if left > 0 && present {
        let task = Task::Next { left: (left - 1) as u32, exact, body };
        lemma_list_cost(left as nat, body_cost(body));
        lemma_cost_of_one(task);
        lemma_cost_joined(seq![task], rest);
        lemma_cost_of_body(body);
        lemma_cost_joined(body_tasks(body), seq![task] + rest);
        assert(counts_bounded(seq![task]));
        assert(counts_bounded(body_tasks(body)));
        lemma_counts_joined(seq![task], rest);
        lemma_counts_joined(body_tasks(body), seq![task] + rest);
    } else {
        lemma_list_cost(left as nat, body_cost(body));
    }
}

/// An inspection is over after as many answers as it can cost, whatever they are.
pub proof fn lemma_inspection_is_bounded(s: Progress, replies: Seq<Reply>)
    requires
        sound(s),
        replies.len() >= cost(s.todo),
    ensures
        done(after(s, replies)),
{
    lemma_progress(s, replies);
}

proof fn lemma_progress(s: Progress, replies: Seq<Reply>)
    requires
        sound(s),
    ensures
        sound(after(s, replies)),
        done(after(s, replies)) || cost(after(s, replies).todo) + replies.len() <= cost(s.todo),
    decreases replies.len(),
{
    if replies.len() > 0 {
        let before = after(s, replies.drop_last());
        lemma_progress(s, replies.drop_last());
        if !done(before) {
            lemma_next_costs_less(before, replies.last());
        }
    }
    let end = after(s, replies);
    if !done(end) {
        assert(cost(end.todo) >= 1);
    }
}

/// A field, an array or a client that cannot be read rejects the message.
pub proof fn lemma_failure_rejects(s: Progress)
    requires
        !done(s),
        query_of(s) !is None,
        !(query_of(s)->Some_0 is Element),
    ensures
        next(s, Reply::Failed).rejected,
{
}

/// A message that was rejected once stays rejected.
pub proof fn lemma_rejection_is_final(s: Progress, replies: Seq<Reply>)
    requires
        s.rejected,
    ensures
        after(s, replies).rejected,
    decreases replies.len(),
{
    if replies.len() > 0 {
        lemma_rejection_is_final(s, replies.drop_last());
    }
}

/// A count that is negative or too large rejects the message, and so does an element more than
/// was announced or, where their number was announced, one fewer.
pub proof fn lemma_list_limits(s: Progress, v: u64, body: Body, left: u32, exact: bool)
    requires
        !done(s),
    ensures
        (s.todo[0] matches Task::Count { key, max } ==> (next(s, Reply::Value(v)).rejected <==> !(0
            <= v as i32 <= max))),
        (s.todo[0] == Task::Next { left, exact, body } ==> {
            &&& left == 0 ==> (next(s, Reply::Value(v)).rejected <==> v != 0)
            &&& left > 0 ==> (next(s, Reply::Value(v)).rejected <==> v == 0 && exact)
        }),
        (s.todo[0] == Task::Counted { body } ==> {
            &&& s.count == 0 ==> (next(s, Reply::Value(v)).rejected <==> v != 0)
            &&& s.count > 0 ==> (next(s, Reply::Value(v)).rejected <==> v == 0)
        }),
{
}

impl Inspection {
    fn new(todo: Vec<Task>) -> (r: Self)
        ensures
            r@ == start(todo@),
    {
        Inspection { todo, count: 0, main_mode: 0, lobby_mode: 0, rejected: false }
    }

    /// What to ask the game next; `None` when the inspection is over.
    pub fn query(&self) -> (r: Option<Query>)
        ensures
            r == query_of(self@),
            r is None <==> done(self@),
    {
        if self.rejected || self.todo.len() == 0 {
            return None;
        }
        Some(
            match self.todo[0] {
                Task::Field { kind, key } => Query::Field { kind, key },
                Task::MainMode { key } => Query::Field { kind: Kind::Int, key },
                Task::LobbyMode { key } => Query::Field { kind: Kind::Int, key },
                Task::Count { key, .. } => Query::Field { kind: Kind::Int, key },
                Task::Size { key, .. } => Query::Field { kind: Kind::Int, key },
                Task::Fork { kind, key } => Query::Field { kind, key },
                Task::Valid { key } => Query::Field { kind: Kind::Bool, key },
                Task::Array { key } => Query::Array { key },
                Task::Counted { .. } => Query::Element { expected: self.count > 0 },
                Task::Next { left, .. } => Query::Element { expected: left > 0 },
                Task::Client => Query::Client,
            },
        )
    }

    fn prepend(&mut self, first: Vec<Task>)
        ensures
            final(self)@ == doing(old(self)@, first@ + old(self)@.todo),
    {
        let mut all: Vec<Task> = first;
        all.append(&mut self.todo);
        self.todo = all;
    }

    fn element(&mut self, left: u32, exact: bool, body: Body, present: bool)
        requires
            old(self)@.todo.len() > 0,
        ensures
            final(self)@ == element_step(old(self)@, left, exact, body, present),
    {
        if (left == 0 && present) || (left > 0 && !present && exact) {
            self.rejected = true;
            return;
        }
        let _ = self.todo.remove(0);
        assert(self.todo@ =~= old(self)@.todo.skip(1));
        if left > 0 && present {
            let mut tasks: Vec<Task> = body_plan(body);
            tasks.push(Task::Next { left: left - 1, exact, body });
            self.prepend(tasks);
            assert(self.todo@ =~= body_tasks(body) + (seq![
                Task::Next { left: (left - 1) as u32, exact, body },
            ] + old(self)@.todo.skip(1)));
        }
    }

    fn value(&mut self, v: u64)
        requires
            old(self)@.todo.len() > 0,
            !(old(self)@.todo[0] is Counted),
            !(old(self)@.todo[0] is Next),
        ensures
            final(self)@ == value_step(old(self)@, v),
    {
        let task: Task = self.todo[0];
        match task {
            Task::Count { max, .. } => {
                let n: i32 = v as i32;
                if n < 0 || n > max {
                    self.rejected = true;
                    return;
                }
                self.count = n as u32;
            },
            Task::Size { max, .. } => {
                let n: i32 = v as i32;
                if n < 1 || n > max {
                    self.rejected = true;
                    return;
                }
            },
            Task::MainMode { .. } => {
                self.main_mode = v as i32;
            },
            Task::LobbyMode { .. } => {
                self.lobby_mode = v as i32;
            },
            _ => {},
        }
        let _ = self.todo.remove(0);
        let ghost rest = old(self)@.todo.skip(1);
        assert(self.todo@ =~= rest);
        match task {
            Task::Fork { .. } => {
                self.prepend(lobby_mode_plan(self.lobby_mode));
                self.prepend(main_mode_plan(self.main_mode));
            },
            Task::Valid { .. } => {
                if v != 0 {
                    self.prepend(valid_lobby_plan());
                }
            },
            _ => {},
        }
    }

    /// Takes an answer of the game.
    pub fn answer(&mut self, reply: Reply)
        ensures
            final(self)@ == next(old(self)@, reply),
    {
        if self.rejected || self.todo.len() == 0 {
            return;
        }
        let present: bool = match reply {
            Reply::Failed => false,
            Reply::Value(v) => v != 0,
        };
        match self.todo[0] {
            Task::Counted { body } => {
                let count: u32 = self.count;
                self.element(count, true, body, present);
            },
            Task::Next { left, exact, body } => {
                self.element(left, exact, body, present);
            },
            _ => match reply {
                Reply::Failed => {
                    self.rejected = true;
                },
                Reply::Value(v) => {
                    self.value(v);
                },
            },
        }
    }
}

/// The messages that are inspected.
#[derive(Clone, Copy, Debug, PartialEq, Eq, Structural)]
pub enum Message {
    Join,
    Lobby,
    LobbyGame,
    Heartbeat,
    InfoResponse,
}

/// What is read of a message.
pub open spec fn tasks_of(message: Message) -> Seq<Task> {
    match message {
        Message::Join => join_tasks(),
        Message::Lobby => lobby_tasks(),
        Message::LobbyGame => lobby_game_tasks(),
        Message::Heartbeat => heartbeat_tasks(),
        Message::InfoResponse => info_response_tasks(),
    }
}

impl Inspection {
    /// The inspection of a message, before anything was asked.
    pub fn of(message: Message) -> (r: Self)
        ensures
            r@ == start(tasks_of(message)),
            sound(r@),
    {
        proof {
            assert(counts_bounded(tasks_of(message)));
        }
        Inspection::new(
            match message {
                Message::Join => join_plan(),
                Message::Lobby => lobby_plan(),
                Message::LobbyGame => lobby_game_plan(),
                Message::Heartbeat => heartbeat_plan(),
                Message::InfoResponse => info_response_plan(),
            },
        )
    }

    /// The verdict, once the inspection is over.
    pub fn verdict(&self) -> (r: Option<bool>)
        ensures
            r == (if done(self@) {
                Some(!self@.rejected)
            } else {
                None
            }),
    {
        if self.rejected || self.todo.len() == 0 {
            Some(!self.rejected)
        } else {
            None
        }
    }
}

/// The verdict on a message that is answered with `replies`; `None` if they do not suffice.
pub fn replay(message: Message, replies: &Vec<Reply>) -> (r: Option<bool>)
    ensures
        r == (if ends(tasks_of(message), replies@) {
            Some(accepts(tasks_of(message), replies@))
        } else {
            None
        }),
{
    let mut s: Inspection = Inspection::of(message);
    let ghost plan = tasks_of(message);
    let mut i: usize = 0;
    assert(replies@.take(0) =~= seq![]);
    while i < replies.len()
        invariant
            i <= replies@.len(),
            s@ == after(start(plan), replies@.take(i as int)),
        decreases replies@.len() - i,
    {
        assert(replies@.take(i + 1).drop_last() =~= replies@.take(i as int));
        s.answer(replies[i]);
        i = i + 1;
    }
    assert(replies@.take(i as int) =~= replies@);
    s.verdict()
}

/// The game's field functions on a copy of its reader.
pub trait Wire {
    /// Reads a field into a buffer and gives its first eight bytes.
    fn field(&mut self, kind: Kind, key: &'static str) -> Option<u64>;

    /// Enters an array.
    fn array(&mut self, key: &'static str) -> bool;

    /// Whether a further element follows.
    fn element(&mut self, expected: bool) -> bool;

    /// Reads the changeable part of a client.
    fn mutable_client(&mut self) -> bool;
}

/// The reply that stands for what a field held.
pub open spec fn field_reply(value: Option<u64>) -> Reply {
    match value {
        Some(v) => Reply::Value(v),
        None => Reply::Failed,
    }
}

/// The reply that stands for a yes or a no.
pub open spec fn flag_reply(yes: bool) -> Reply {
    if yes {
        Reply::Value(1)
    } else {
        Reply::Failed
    }
}

/// The call of the one function that the query names, made on `w` with what the query holds, gave
/// `reply`.
pub open spec fn gave<W: Wire>(w: &mut W, query: Query, reply: Reply) -> bool {
    match query {
        Query::Field { kind, key } => exists|value: Option<u64>|
            #[trigger] call_ensures(W::field, (w, kind, key), value) && reply == field_reply(value),
        Query::Array { key } => exists|yes: bool|
            #[trigger] call_ensures(W::array, (w, key), yes) && reply == flag_reply(yes),
        Query::Element { expected } => exists|yes: bool|
            #[trigger] call_ensures(W::element, (w, expected), yes) && reply == flag_reply(yes),
        Query::Client => exists|yes: bool|
            #[trigger] call_ensures(W::mutable_client, (w,), yes) && reply == flag_reply(yes),
    }
}

/// What the inspection asks after the first `i` replies.
pub open spec fn query_at(todo: Seq<Task>, replies: Seq<Reply>, i: int) -> Option<Query> {
    query_of(after(start(todo), replies.take(i)))
}

/// The inspection ends with `replies`, and `readers` are what the reader was like before the first
/// of them and after each.
pub open spec fn heard_out<W: Wire>(todo: Seq<Task>, readers: Seq<W>, replies: Seq<Reply>) -> bool {
    ends(todo, replies) && readers.len() == replies.len() + 1
}

/// Asks the game: calls the one function that the query names, once, with what the query holds.
/// The reply is what that call gave, and the reader stands as that call left it.
fn ask<W: Wire>(w: &mut W, query: Query) -> (r: Reply)
    ensures
        exists|x: &mut W| #[trigger] gave(x, query, r) && *x == *old(w) && *final(x) == *final(w),
{
    let answered: bool = match query {
        Query::Field { kind, key } => {
            let value: Option<u64> = w.field(kind, key);
            assert(forall|x: &mut W| #[trigger]
                call_ensures(W::field, (x, kind, key), value) ==> gave(
                    x,
                    query,
                    field_reply(value),
                ));
            return match value {
                Some(v) => Reply::Value(v),
                None => Reply::Failed,
            };
        },
        Query::Array { key } => {
            let yes: bool = w.array(key);
            assert(forall|x: &mut W| #[trigger]
                call_ensures(W::array, (x, key), yes) ==> gave(x, query, flag_reply(yes)));
            yes
        },
        Query::Element { expected } => {
            let yes: bool = w.element(expected);
            assert(forall|x: &mut W| #[trigger]
                call_ensures(W::element, (x, expected), yes) ==> gave(x, query, flag_reply(yes)));
            yes
        },
        Query::Client => {
            let yes: bool = w.mutable_client();
            assert(forall|x: &mut W| #[trigger]
                call_ensures(W::mutable_client, (x,), yes) ==> gave(x, query, flag_reply(yes)));
            yes
        },
    };
    if answered {
        Reply::Value(1)
    } else {
        Reply::Failed
    }
}

/// The inspection ends with these answers.
pub open spec fn ends(todo: Seq<Task>, replies: Seq<Reply>) -> bool {
    done(after(start(todo), replies))
}

/// The inspection ends with these answers and lets the message pass.
pub open spec fn accepts(todo: Seq<Task>, replies: Seq<Reply>) -> bool {
    ends(todo, replies) && !after(start(todo), replies).rejected
}

/// Reads a message through `w`, one question after the other. Which answers come is up to the
/// game: the verdict is the one that they lead to.
fn read_through<W: Wire>(message: Message, w: &mut W) -> (r: (
    bool,
    Ghost<Seq<W>>,
    Ghost<Seq<Reply>>,
))
    ensures
        heard_out(tasks_of(message), r.1@, r.2@),
        r.1@[0] == *old(w),
        r.1@.last() == *final(w),
        forall|i: int|
            0 <= i < r.2@.len() ==> match #[trigger] query_at(tasks_of(message), r.2@, i) {
                Some(query) => exists|x: &mut W|
                    #[trigger] gave(x, query, r.2@[i]) && *x == r.1@[i] && *final(x)
                        == r.1@[i + 1],
                None => false,
            },
        r.0 == accepts(tasks_of(message), r.2@),
{
    let ghost plan = tasks_of(message);
    let ghost mut replies: Seq<Reply> = seq![];
    let ghost mut readers: Seq<W> = seq![*w];
    let mut s: Inspection = Inspection::of(message);
    loop
        invariant
            sound(s@),
            s@ == after(start(plan), replies),
            readers.len() == replies.len() + 1,
            readers[0] == *old(w),
            readers.last() == *w,
            forall|i: int|
                0 <= i < replies.len() ==> match #[trigger] query_at(plan, replies, i) {
                    Some(query) => exists|x: &mut W|
                        #[trigger] gave(x, query, replies[i]) && *x == readers[i] && *final(x)
                            == readers[i + 1],
                    None => false,
                },
        ensures
            done(s@),
            s@ == after(start(plan), replies),
        decreases cost(s@.todo), (if s@.rejected { 0int } else { 1 }),
    {
        match s.query() {
            None => {
                break;
            },
            Some(query) => {
                let ghost reader = *w;
                let reply: Reply = ask(w, query);
                let ghost before = s@;
                let ghost more = replies.push(reply);
                let ghost all = readers.push(*w);
                proof {
                    lemma_next_costs_less(before, reply);
                    assert(more.drop_last() =~= replies);
                    assert(more.take(replies.len() as int) =~= replies);
                    assert forall|i: int| 0 <= i < more.len() implies match #[trigger] query_at(
                        plan,
                        more,
                        i,
                    ) {
                        Some(query) => exists|x: &mut W| #[trigger]
                            gave(x, query, more[i]) && *x == all[i] && *final(x) == all[i + 1],
                        None => false,
                    } by {
                        if i < replies.len() {
                            assert(more.take(i) =~= replies.take(i));
                            assert(query_at(plan, replies, i) == query_at(plan, more, i));
                            assert(more[i] == replies[i]);
                            assert(all[i] == readers[i] && all[i + 1] == readers[i + 1]);
                            let asked = query_at(plan, replies, i)->Some_0;
                            assert(exists|x: &mut W| #[trigger]
                                gave(x, asked, replies[i]) && *x == readers[i] && *final(x)
                                    == readers[i + 1]);
                        } else {
                            assert(all[i] == reader && all[i + 1] == *w);
                            assert(query_at(plan, more, i) == Some(query));
                            assert(more[i] == reply);
                            assert(exists|x: &mut W| #[trigger]
                                gave(x, query, reply) && *x == reader && *final(x) == *w);
                            assert(exists|x: &mut W| #[trigger]
                                gave(x, query, more[i]) && *x == all[i] && *final(x) == all[i + 1]);
                        }
                    }
                    replies = more;
                    readers = all;
                }
                s.answer(reply);
            },
        }
    }
    (!s.rejected, Ghost(readers), Ghost(replies))
}

/// Inspects a request to join.
pub fn join<W: Wire>(w: &mut W) -> (r: Result<(), ()>)
    ensures
        exists|readers: Seq<W>, replies: Seq<Reply>|
            {
                &&& #[trigger] heard_out(join_tasks(), readers, replies)
                &&& readers[0] == *old(w)
                &&& readers.last() == *final(w)
                &&& forall|i: int|
                    0 <= i < replies.len() ==> match #[trigger] query_at(join_tasks(), replies, i) {
                        Some(query) => exists|x: &mut W|
                            #[trigger] gave(x, query, replies[i]) && *x == readers[i] && *final(x)
                                == readers[i + 1],
                        None => false,
                    }
                &&& (r is Ok) == accepts(join_tasks(), replies)
            },
{
    let (ok, readers, replies): (bool, Ghost<Seq<W>>, Ghost<Seq<Reply>>) = read_through(
        Message::Join,
        w,
    );
    assert(heard_out(join_tasks(), readers@, replies@));
    if ok {
        Ok(())
    } else {
        Err(())
    }
}

/// Inspects the state of a lobby.
pub fn lobby<W: Wire>(w: &mut W) -> (r: Result<(), ()>)
    ensures
        exists|readers: Seq<W>, replies: Seq<Reply>|
            {
                &&& #[trigger] heard_out(lobby_tasks(), readers, replies)
                &&& readers[0] == *old(w)
                &&& readers.last() == *final(w)
                &&& forall|i: int|
                    0 <= i < replies.len() ==> match #[trigger] query_at(
                        lobby_tasks(),
                        replies,
                        i,
                    ) {
                        Some(query) => exists|x: &mut W|
                            #[trigger] gave(x, query, replies[i]) && *x == readers[i] && *final(x)
                                == readers[i + 1],
                        None => false,
                    }
                &&& (r is Ok) == accepts(lobby_tasks(), replies)
            },
{
    let (ok, readers, replies): (bool, Ghost<Seq<W>>, Ghost<Seq<Reply>>) = read_through(
        Message::Lobby,
        w,
    );
    assert(heard_out(lobby_tasks(), readers@, replies@));
    if ok {
        Ok(())
    } else {
        Err(())
    }
}

/// Inspects the state of a lobby with its game.
pub fn lobby_game<W: Wire>(w: &mut W) -> (r: Result<(), ()>)
    ensures
        exists|readers: Seq<W>, replies: Seq<Reply>|
            {
                &&& #[trigger] heard_out(lobby_game_tasks(), readers, replies)
                &&& readers[0] == *old(w)
                &&& readers.last() == *final(w)
                &&& forall|i: int|
                    0 <= i < replies.len() ==> match #[trigger] query_at(
                        lobby_game_tasks(),
                        replies,
                        i,
                    ) {
                        Some(query) => exists|x: &mut W|
                            #[trigger] gave(x, query, replies[i]) && *x == readers[i] && *final(x)
                                == readers[i + 1],
                        None => false,
                    }
                &&& (r is Ok) == accepts(lobby_game_tasks(), replies)
            },
{
    let (ok, readers, replies): (bool, Ghost<Seq<W>>, Ghost<Seq<Reply>>) = read_through(
        Message::LobbyGame,
        w,
    );
    assert(heard_out(lobby_game_tasks(), readers@, replies@));
    if ok {
        Ok(())
    } else {
        Err(())
    }
}

/// Inspects a heartbeat.
pub fn heartbeat<W: Wire>(w: &mut W) -> (r: Result<(), ()>)
    ensures
        exists|readers: Seq<W>, replies: Seq<Reply>|
            {
                &&& #[trigger] heard_out(heartbeat_tasks(), readers, replies)
                &&& readers[0] == *old(w)
                &&& readers.last() == *final(w)
                &&& forall|i: int|
                    0 <= i < replies.len() ==> match #[trigger] query_at(
                        heartbeat_tasks(),
                        replies,
                        i,
                    ) {
                        Some(query) => exists|x: &mut W|
                            #[trigger] gave(x, query, replies[i]) && *x == readers[i] && *final(x)
                                == readers[i + 1],
                        None => false,
                    }
                &&& (r is Ok) == accepts(heartbeat_tasks(), replies)
            },
{
    let (ok, readers, replies): (bool, Ghost<Seq<W>>, Ghost<Seq<Reply>>) = read_through(
        Message::Heartbeat,
        w,
    );
    assert(heard_out(heartbeat_tasks(), readers@, replies@));
    if ok {
        Ok(())
    } else {
        Err(())
    }
}

/// Inspects an answer to a query for lobbies.
pub fn info_response<W: Wire>(w: &mut W) -> (r: Result<(), ()>)
    ensures
        exists|readers: Seq<W>, replies: Seq<Reply>|
            {
                &&& #[trigger] heard_out(info_response_tasks(), readers, replies)
                &&& readers[0] == *old(w)
                &&& readers.last() == *final(w)
                &&& forall|i: int|
                    0 <= i < replies.len() ==> match #[trigger] query_at(
                        info_response_tasks(),
                        replies,
                        i,
                    ) {
                        Some(query) => exists|x: &mut W|
                            #[trigger] gave(x, query, replies[i]) && *x == readers[i] && *final(x)
                                == readers[i + 1],
                        None => false,
                    }
                &&& (r is Ok) == accepts(info_response_tasks(), replies)
            },
{
    let (ok, readers, replies): (bool, Ghost<Seq<W>>, Ghost<Seq<Reply>>) = read_through(
        Message::InfoResponse,
        w,
    );
    assert(heard_out(info_response_tasks(), readers@, replies@));
    if ok {
        Ok(())
    } else {
        Err(())
    }
}

/// What is wrong with a reader before anything is read through it.
#[derive(Clone, Copy, Debug, PartialEq, Eq, Structural)]
pub enum Fault {
    Overflowed,
    Size,
    Buffer,
    Address,
    Cursor,
    Bit,
}

/// The first fault of a reader: a set overflow flag, a length that the game would take for a
/// negative one, a missing buffer, a buffer past the end of memory, or a cursor outside the
/// payload.
pub open spec fn fault_of(m: Msg) -> Option<Fault> {
    if m.overflowed != 0 {
        Some(Fault::Overflowed)
    } else if m.max_size > 0x7fff_ffff || m.cur_size > 0x7fff_ffff || m.split_size > 0x7fff_ffff {
        Some(Fault::Size)
    } else if (m.cur_size > 0 && m.data == 0) || (m.split_size > 0 && m.split_data == 0) {
        Some(Fault::Buffer)
    } else if m.data + m.cur_size > u64::MAX || m.split_data + m.split_size > u64::MAX {
        Some(Fault::Address)
    } else if m.read_count > m.cur_size + m.split_size {
        Some(Fault::Cursor)
    } else if m.bit < 0 || m.bit > 8 * (m.cur_size + m.split_size) {
        Some(Fault::Bit)
    } else {
        None
    }
}

/// Checks a reader before the game reads through it.
pub fn descriptor_fault(m: &Msg) -> (r: Option<Fault>)
    ensures
        r == fault_of(*m),
{
    let payload: u64 = m.cur_size as u64 + m.split_size as u64;
    if m.overflowed != 0 {
        Some(Fault::Overflowed)
    } else if m.max_size > 0x7fff_ffff || m.cur_size > 0x7fff_ffff || m.split_size > 0x7fff_ffff {
        Some(Fault::Size)
    } else if (m.cur_size > 0 && m.data == 0) || (m.split_size > 0 && m.split_data == 0) {
        Some(Fault::Buffer)
    } else if m.data > u64::MAX - m.cur_size as u64 || m.split_data > u64::MAX
        - m.split_size as u64 {
        Some(Fault::Address)
    } else if m.read_count as u64 > payload {
        Some(Fault::Cursor)
    } else if m.bit < 0 || m.bit as u64 > 8 * payload {
        Some(Fault::Bit)
    } else {
        None
    }
}

/// What an inspection says of a message.
#[derive(Clone, Copy, Debug, PartialEq, Eq, Structural)]
pub enum Inspected {
    Ignored,
    Passed,
    Rejected,
}

/// Message types that are never let through.
pub open spec fn forbidden(msg_type: i32) -> bool {
    msg_type == 0xf || msg_type == 0x1e || msg_type == 0x16 || msg_type == 0x17 || msg_type == 0x18
}

/// The tasks for a message type that is inspected.
pub open spec fn tasks_for(msg_type: i32) -> Option<Seq<Task>> {
    if msg_type == 0x10 {
        Some(join_tasks())
    } else if msg_type == 2 {
        Some(lobby_tasks())
    } else if msg_type == 3 {
        Some(lobby_game_tasks())
    } else if msg_type == 7 {
        Some(heartbeat_tasks())
    } else {
        None
    }
}

/// Inspects a lobby message; `w` reads through a copy of it.
pub fn inspect<W: Wire>(msg: &LobbyMsg, w: &mut W) -> (r: Inspected)
    ensures
        if fault_of(msg.msg) is Some || forbidden(msg.msg_type) {
            r == Inspected::Rejected && *final(w) == *old(w)
        } else {
            match tasks_for(msg.msg_type) {
                None => r == Inspected::Ignored && *final(w) == *old(w),
                Some(tasks) => r != Inspected::Ignored && exists|readers: Seq<W>, replies: Seq<Reply>|
                    {
                        &&& #[trigger] heard_out(tasks, readers, replies)
                        &&& readers[0] == *old(w)
                        &&& readers.last() == *final(w)
                        &&& forall|i: int|
                            0 <= i < replies.len() ==> match #[trigger] query_at(
                                tasks,
                                replies,
                                i,
                            ) {
                                Some(query) => exists|x: &mut W|
                                    #[trigger] gave(x, query, replies[i]) && *x == readers[i] && *final(x)
                                        == readers[i + 1],
                                None => false,
                            }
                        &&& (r == Inspected::Passed) == accepts(tasks, replies)
                    },
            }
        },
{
    if descriptor_fault(&msg.msg).is_some() {
        return Inspected::Rejected;
    }
    let result: Result<(), ()> = match msg.msg_type {
        0x10 => join(w),
        2 => lobby(w),
        3 => lobby_game(w),
        7 => heartbeat(w),
        0xf => Err(()),
        0x1e => Err(()),
        0x16 => Err(()),
        0x17 => Err(()),
        0x18 => Err(()),
        _ => return Inspected::Ignored,
    };
    proof {
        if !forbidden(msg.msg_type) {
            let tasks = tasks_for(msg.msg_type)->Some_0;
            assert(exists|readers: Seq<W>, replies: Seq<Reply>|
                {
                    &&& #[trigger] heard_out(tasks, readers, replies)
                    &&& readers[0] == *old(w)
                    &&& readers.last() == *w
                    &&& forall|i: int|
                        0 <= i < replies.len() ==> match #[trigger] query_at(tasks, replies, i) {
                            Some(query) => exists|x: &mut W|
                                #[trigger] gave(x, query, replies[i]) && *x == readers[i] && *final(x)
                                    == readers[i + 1],
                            None => false,
                        }
                    &&& (result is Ok) == accepts(tasks, replies)
                });
        }
    }
    match result {
        Ok(()) => Inspected::Passed,
        Err(()) => Inspected::Rejected,
    }
}

/// The type of a message after its inspection.
pub open spec fn type_after_of(msg_type: i32, inspected: Inspected, overflowed: u8) -> i32 {
    if inspected == Inspected::Rejected || (inspected == Inspected::Passed && overflowed
        != 0) {
        0xff
    } else {
        msg_type
    }
}

/// The type that the game is left with: a rejected message gets one that it does not know.
pub fn type_after(msg_type: i32, inspected: Inspected, overflowed: u8) -> (r: i32)
    ensures
        r == type_after_of(msg_type, inspected, overflowed),
{
    match inspected {
        Inspected::Ignored => msg_type,
        Inspected::Rejected => 0xff,
        Inspected::Passed => if overflowed != 0 {
            0xff
        } else {
            msg_type
        },
    }
}

/// What to do next about an instant message that may hold lobby information.
#[derive(Clone, Copy, Debug, PartialEq, Eq, Structural)]
pub enum Pending {
    /// Copy this many bytes out of the message.
    Read { size: u32 },
    /// Prepare a lobby reader on them.
    Prepare { size: u32 },
    /// Inspect the prepared reader as an answer to a query for lobbies.
    Inspect,
    /// Hand the message on to the game's own handler, then block it here.
    Forward,
    /// Ask whether the sender is a friend, and block everybody else.
    AskFriend,
    Block,
    Allow,
}

/// The first step: at most 2047 unread bytes are looked at.
pub open spec fn pending_start_of(m: Msg) -> Pending {
    if m.read_count <= m.cur_size && m.cur_size - m.read_count < 2048 {
        Pending::Read { size: (m.cur_size - m.read_count) as u32 }
    } else {
        Pending::Block
    }
}

pub fn pending_start(m: &Msg) -> (r: Pending)
    ensures
        r == pending_start_of(*m),
{
    if m.read_count <= m.cur_size && m.cur_size - m.read_count < 2048 {
        Pending::Read { size: m.cur_size - m.read_count }
    } else {
        Pending::Block
    }
}

/// After the copy: a read past the end blocks the message.
pub open spec fn pending_read_of(size: u32, overflowed: u8) -> Pending {
    if overflowed != 0 {
        Pending::Block
    } else {
        Pending::Prepare { size }
    }
}

pub fn pending_read(size: u32, overflowed: u8) -> (r: Pending)
    ensures
        r == pending_read_of(size, overflowed),
{
    if overflowed != 0 {
        Pending::Block
    } else {
        Pending::Prepare { size }
    }
}

/// A Steam account of the public universe.
pub open spec fn is_account(sender: u64) -> bool {
    sender & 0xFFFF00000000000 == 0x110000000000000
}

/// After preparing: lobby information is inspected; anything else depends on its sender.
pub open spec fn pending_prepared_of(
    prepared: bool,
    msg_type: i32,
    sender: u64,
    own: u64,
    friends_only: bool,
) -> Pending {
    if !prepared {
        Pending::Block
    } else if msg_type == 1 {
        Pending::Inspect
    } else if sender == 0 || sender == own || !is_account(sender) || !friends_only {
        Pending::Allow
    } else {
        Pending::AskFriend
    }
}

pub fn pending_prepared(
    prepared: bool,
    msg_type: i32,
    sender: u64,
    own: u64,
    friends_only: bool,
) -> (r: Pending)
    ensures
        r == pending_prepared_of(prepared, msg_type, sender, own, friends_only),
{
    if !prepared {
        Pending::Block
    } else if msg_type == 1 {
        Pending::Inspect
    } else if sender == 0 || sender == own || sender & 0xFFFF00000000000 != 0x110000000000000
        || !friends_only {
        Pending::Allow
    } else {
        Pending::AskFriend
    }
}

/// After the inspection of lobby information.
pub open spec fn pending_inspected_of(accepted: bool, overflowed: u8) -> Pending {
    if accepted && overflowed == 0 {
        Pending::Forward
    } else {
        Pending::Block
    }
}

pub fn pending_inspected(accepted: bool, overflowed: u8) -> (r: Pending)
    ensures
        r == pending_inspected_of(accepted, overflowed),
{
    if accepted && overflowed == 0 {
        Pending::Forward
    } else {
        Pending::Block
    }
}

/// After the sender was looked up.
pub open spec fn pending_sender_of(friend: bool) -> Pending {
    if friend {
        Pending::Allow
    } else {
        Pending::Block
    }
}

pub fn pending_sender(friend: bool) -> (r: Pending)
    ensures
        r == pending_sender_of(friend),
{
    if friend {
        Pending::Allow
    } else {
        Pending::Block
    }
}

/// Handles a lobby message that came as an instant message. Its place is that of the February
/// build, as are those that follow.
pub const LOBBY_HANDLE_IM_RVA: usize = 0x1EEA130;
/// Prepares a reader for the bytes of a lobby message.
pub const PREP_READ_DATA_RVA: usize = 0x1EEA4F0;
/// Reads the head of a lobby message with a reader that is prepared.
pub const PREP_READ_MSG_RVA: usize = 0x1EEB8D0;
/// How much of the handler is looked at: up to its call of the helper, which ends it.
pub const HANDLER_BYTES: usize = 37;
/// How long the helper is. It ends in a jump.
pub const HELPER_BYTES: usize = 42;
/// The opcodes of a relative call and of a relative jump.
pub const CALL: u8 = 0xe8;
pub const JUMP: u8 = 0xe9;

/// Where the branch of five bytes that ends `code` leads, if it ends in one with this opcode.
/// The code lies at `base`, and the displacement counts from its end.
pub open spec fn branch_target(code: Seq<u8>, base: u64, opcode: u8) -> Option<u64> {
    let at = code.len() - 5;
    match bytes::i32_at(code, at + 1) {
        Some(displacement) => if at >= 0 && code[at] == opcode {
            Some(((base + code.len() + displacement) % (u64::MAX + 1)) as u64)
        } else {
            None
        },
        None => None,
    }
}

fn follow(code: &[u8], base: u64, opcode: u8) -> (r: Option<u64>)
    requires
        base + code@.len() <= u64::MAX,
    ensures
        r == branch_target(code@, base, opcode),
{
    let n: usize = code.len();
    if n < 5 || code[n - 5] != opcode {
        return None;
    }
    match bytes::read_i32(code, (n - 4) as u64) {
        Some(displacement) => Some((base + n as u64).wrapping_add_signed(displacement as i64)),
        None => None,
    }
}

/// Whether the handler calls the helper, and the helper goes on to read the head of the message.
pub open spec fn reader_matches(
    handler: Option<&[u8]>,
    handler_at: u64,
    helper: Option<&[u8]>,
    helper_at: u64,
    head_at: u64,
) -> bool {
    match (handler, helper) {
        (Some(handler), Some(helper)) => {
            &&& handler@.len() == HANDLER_BYTES
            &&& helper@.len() == HELPER_BYTES
            &&& branch_target(handler@, handler_at, CALL) == Some(helper_at)
            &&& branch_target(helper@, helper_at, JUMP) == Some(head_at)
        },
        _ => false,
    }
}

/// Holds the code around the lobby reader against what the patch relies on, before anything calls
/// it. Code that cannot be read is `None`.
pub fn validate_message_reader(
    handler: Option<&[u8]>,
    handler_at: u64,
    helper: Option<&[u8]>,
    helper_at: u64,
    head_at: u64,
) -> (r: Result<(), String>)
    requires
        handler_at <= u64::MAX - HANDLER_BYTES,
        helper_at <= u64::MAX - HELPER_BYTES,
    ensures
        r is Ok <==> reader_matches(handler, handler_at, helper, helper_at, head_at),
        r is Err ==> r->Err_0@ == "Lobby reader signature mismatch"@,
{
    if let (Some(handler), Some(helper)) = (handler, helper) {
        if handler.len() == HANDLER_BYTES && helper.len() == HELPER_BYTES {
            let called: Option<u64> = follow(handler, handler_at, CALL);
            let next: Option<u64> = follow(helper, helper_at, JUMP);
            if let (Some(called), Some(next)) = (called, next) {
                if called == helper_at && next == head_at {
                    return Ok(());
                }
            }
        }
    }
    Err("Lobby reader signature mismatch".to_owned())
}

/// No two places pass for the helper of one handler. In particular the call inside the handler
/// does not, where the call leads elsewhere.
pub proof fn lemma_one_helper(
    handler: Option<&[u8]>,
    handler_at: u64,
    helper: Option<&[u8]>,
    other: Option<&[u8]>,
    helper_at: u64,
    other_at: u64,
    head_at: u64,
)
    requires
        reader_matches(handler, handler_at, helper, helper_at, head_at),
        other_at != helper_at,
    ensures
        !reader_matches(handler, handler_at, other, other_at, head_at),
{
}

/// The message of the journal once the reader is found as expected.
pub fn reader_validated(handler_at: u64, helper_at: u64) -> (r: String)
    ensures
        r@ == "message-reader-validated handler=0x"@ + text::hex(handler_at as nat)
            + " helper=0x"@ + text::hex(helper_at as nat),
{
    let mut out = "message-reader-validated handler=0x".to_owned();
    push_hex(&mut out, handler_at);
    out.append(" helper=0x");
    push_hex(&mut out, helper_at);
    out
}

} // verus!
