//! The settings in force, and the file that they follow.
use crate::hashing;
use crate::hashing::canon_hash64;
use crate::settings;
use crate::settings::{Config, Settings};
use crate::text::same_bytes;
use crate::utf16;
use vstd::prelude::*;

verus! {

/// The settings that the hooks go by. The path of the configuration file is held in UTF-16.
#[derive(Debug)]
pub struct Live {
    pub name: [u8; 16],
    pub friends_only: bool,
    pub password: [u64; 3],
    pub path: Option<Vec<u16>>,
}

/// A player name in its fixed field.
pub open spec fn name_field(name: Seq<u8>) -> Seq<u8> {
    Seq::new(16, |i: int| if i < name.len() { name[i] } else { 0u8 })
}

/// A name that the game can take.
pub open spec fn usable_name(name: Seq<u8>) -> bool {
    name.len() <= 15 && !name.contains(0)
}

/// What stands for a password; nothing stands for an empty one.
pub open spec fn password_hash(password: Seq<u8>) -> u64 {
    if password.len() == 0 {
        0
    } else {
        hashing::canon_hash64_of(password)
    }
}

/// The passwords after a change: the one before, the new one and the time.
pub open spec fn changed_password(before: Seq<u64>, password: Seq<u8>, now: u64) -> Seq<u64> {
    seq![before[1], password_hash(password), now]
}

impl Live {
    pub open spec fn same_but_name(self, other: Live) -> bool {
        self.friends_only == other.friends_only && self.password == other.password && self.path
            == other.path
    }
}

fn padded(name: &[u8]) -> (r: [u8; 16])
    requires
        name@.len() <= 15,
    ensures
        r@ == name_field(name@),
{
    let mut field: [u8; 16] = [0u8; 16];
    let mut i: usize = 0;
    while i < name.len()
        invariant
            i <= name@.len() <= 15,
            forall|k: int| 0 <= k < i ==> field@[k] == name@[k],
            forall|k: int| i <= k < 16 ==> field@[k] == 0,
        decreases name@.len() - i,
    {
        field[i] = name[i];
        i = i + 1;
    }
    assert(field@ =~= name_field(name@));
    field
}

impl Default for Live {
    fn default() -> (r: Self)
        ensures
            r.name@ == name_field(crate::text::utf8("Unknown Soldier"@)),
            !r.friends_only,
            r.password@ == seq![0u64, 0u64, 0u64],
            r.path is None,
    {
        proof {
            reveal_strlit("Unknown Soldier");
            crate::text::lemma_utf8_of_ascii("Unknown Soldier"@);
        }
        let r = Live {
            name: padded("Unknown Soldier".as_bytes()),
            friends_only: false,
            password: [0u64; 3],
            path: None,
        };
        assert(r.password@ =~= seq![0u64, 0u64, 0u64]);
        r
    }
}

/// Names the configuration file.
pub fn set_path(live: &mut Live, path: Vec<u16>)
    ensures
        final(live).path == Some(path),
        final(live).name == old(live).name,
        final(live).friends_only == old(live).friends_only,
        final(live).password == old(live).password,
{
    live.path = Some(path);
}

/// The configuration file: the one that was named, or `t7patch.conf` where the game runs.
pub open spec fn path_of(live: Live) -> Seq<u16> {
    match live.path {
        Some(path) => path@,
        None => utf16::encoded("t7patch.conf"@),
    }
}

pub fn path(live: &Live) -> (r: Vec<u16>)
    ensures
        r@ == path_of(*live),
{
    match &live.path {
        Some(path) => vstd::slice::slice_to_vec(path.as_slice()),
        None => utf16::encode("t7patch.conf"),
    }
}

/// The previous and the current password hash, and when they changed.
pub fn password(live: &Live) -> (r: [u64; 3])
    ensures
        r == live.password,
{
    live.password
}

fn hash_of(password: &[u8]) -> (r: u64)
    ensures
        r == password_hash(password@),
{
    if password.len() == 0 {
        0
    } else {
        canon_hash64(password)
    }
}

/// Changes the password; the one before stays known for the grace period.
pub fn set_password(live: &mut Live, bytes: &[u8], now: u64)
    ensures
        final(live).password@ == changed_password(old(live).password@, bytes@, now),
        final(live).name == old(live).name,
        final(live).friends_only == old(live).friends_only,
        final(live).path == old(live).path,
{
    let before: u64 = live.password[1];
    live.password = [before, hash_of(bytes), now];
    assert(live.password@ =~= seq![old(live).password@[1], password_hash(bytes@), now]);
}

/// A name was given.
pub open spec fn name_taken(before: Live, after: Live, name: Seq<u8>, r: Option<[u8; 16]>) -> bool {
    &&& after.same_but_name(before)
    &&& if usable_name(name) {
        after.name@ == name_field(name) && r == Some(after.name)
    } else {
        after.name == before.name && r is None
    }
}

/// Takes a new player name; one that is too long or holds a NUL is ignored. Gives the field to
/// write into the game, if the name was taken.
pub fn set_name(live: &mut Live, bytes: &[u8]) -> (r: Option<[u8; 16]>)
    ensures
        name_taken(*old(live), *final(live), bytes@, r),
{
    if bytes.len() > 15 {
        return None;
    }
    let zero: usize = crate::text::find_byte(bytes, 0, 0);
    if zero < bytes.len() {
        assert(bytes@[zero as int] == 0);
        return None;
    }
    assert(!bytes@.contains(0));
    live.name = padded(bytes);
    Some(live.name)
}

/// What applying `s` leaves in force.
pub open spec fn applied(before: Live, after: Live, s: Settings, now: u64) -> bool {
    &&& after.friends_only == s.friends_only
    &&& after.path == before.path
    &&& after.name@ == (if usable_name(s.name) {
        name_field(s.name)
    } else {
        before.name@
    })
    &&& after.password@ == (if before.password@[1] == password_hash(s.password) {
        before.password@
    } else {
        changed_password(before.password@, s.password, now)
    })
}

/// Puts a configuration into force. A password that has not changed keeps its grace period.
pub fn apply(live: &mut Live, config: &Config, now: u64) -> (r: Option<[u8; 16]>)
    ensures
        applied(*old(live), *final(live), config@, now),
        r == (if usable_name(config@.name) {
            Some(final(live).name)
        } else {
            None
        }),
{
    let name: Option<[u8; 16]> = set_name(live, config.name.as_slice());
    live.friends_only = config.friends_only;
    if live.password[1] != hash_of(config.password.as_slice()) {
        set_password(live, config.password.as_slice(), now);
    }
    name
}

/// Follows the configuration file.
#[derive(Debug)]
pub struct Watcher {
    pub config: Config,
    pub path: Vec<u16>,
    pub contents: Vec<u8>,
}

/// What a new configuration file holds.
pub open spec fn new_file() -> Seq<u8> {
    settings::encoded(settings::default_settings())
}

/// Whether a file that was read changes anything.
pub open spec fn news(contents: Seq<u8>, same_path: bool, file: Option<Vec<u8>>) -> bool {
    match file {
        Some(bytes) => !same_path || bytes@ != contents,
        None => false,
    }
}

/// What a watcher starts with.
pub open spec fn watched(path: Seq<u16>, file: Option<Vec<u8>>, r: Watcher) -> bool {
    &&& r.path@ == path
    &&& match file {
        Some(bytes) => r.contents@ == bytes@ && r.config@ == settings::with_lines(
            settings::default_settings(),
            bytes@,
        ),
        None => r.contents@.len() == 0 && r.config@ == settings::default_settings(),
    }
}

/// The file was looked at again.
pub open spec fn looked_at(
    before: Watcher,
    after: Watcher,
    path: Seq<u16>,
    same_path: bool,
    file: Option<Vec<u8>>,
    changed: bool,
) -> bool {
    &&& changed == news(before.contents@, same_path, file)
    &&& if changed {
        &&& after.path@ == path
        &&& after.contents@ == file->Some_0@
        &&& after.config@ == settings::with_lines(
            before.config@,
            file->Some_0@,
        )
    } else {
        &&& after.path@ == before.path@
        &&& after.contents@ == before.contents@
        &&& after.config@ == before.config@
    }
}

impl Watcher {
    /// Starts with the file as it was read; without one the defaults hold.
    pub fn start(path: Vec<u16>, file: Option<Vec<u8>>) -> (r: Self)
        ensures
            watched(path@, file, r),
    {
        let mut config: Config = Config::default();
        let contents: Vec<u8> = match file {
            Some(bytes) => {
                config.parse(bytes.as_slice());
                bytes
            },
            None => Vec::new(),
        };
        Watcher { config, path, contents }
    }

    /// Takes the file as it was read now, `None` if it could not be, and says whether the
    /// configuration has to be applied: only a change does anything. One file can be named in
    /// several ways, so `same_path` says whether `path` is the path of the watched one.
    pub fn poll(&mut self, path: Vec<u16>, same_path: bool, file: Option<Vec<u8>>) -> (changed: bool)
        ensures
            looked_at(*old(self), *final(self), path@, same_path, file, changed),
    {
        match file {
            Some(bytes) => {
                if same_path && same_bytes(bytes.as_slice(), self.contents.as_slice()) {
                    return false;
                }
                self.config.parse(bytes.as_slice());
                self.path = path;
                self.contents = bytes;
                true
            },
            None => false,
        }
    }
}

/// The file that is written where there is none.
pub fn default_file() -> (r: Vec<u8>)
    ensures
        r@ == new_file(),
{
    let config: Config = Config::default();
    proof {
        reveal_strlit("Unknown Soldier");
        crate::text::lemma_utf8_of_ascii("Unknown Soldier"@);
        assert(settings::encodable(settings::default_settings()));
    }
    match config.encode() {
        Ok(bytes) => bytes,
        Err(_) => Vec::new(),
    }
}

/// A configuration that is applied twice has no effect the second time.
pub proof fn lemma_apply_again(a: Live, b: Live, c: Live, s: Settings, t: u64, u: u64)
    requires
        applied(a, b, s, t),
        applied(b, c, s, u),
    ensures
        c.name@ == b.name@,
        c.friends_only == b.friends_only,
        c.password@ == b.password@,
        c.path == b.path,
{
}

} // verus!
