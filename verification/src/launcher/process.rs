//! Following one game process from attaching to it until the patch has answered.
use crate::launcher::exports;
use crate::launcher::exports::{data_export_rva, export_rva};
use crate::launcher_api;
use crate::launcher_api::StartRequest;
use crate::text;
use crate::text::{push_decimal, push_hex, starts_with, text_matches_ignoring_case};
use crate::utf16;
use vstd::prelude::*;

verus! {

/// A module of the game: its full path, its file name where it has one, and its base.
#[derive(Debug)]
pub struct Module {
    pub path: String,
    pub name: Option<String>,
    pub base: u64,
}

/// A path without the `\\?\` prefixes of extended-length paths.
pub open spec fn plain_path(p: Seq<u8>) -> Seq<u8>
    decreases p.len(),
{
    if text::has_prefix(p, seq![92u8, 92u8, 63u8, 92u8]) {
        plain_path(p.skip(4))
    } else {
        p
    }
}

pub open spec fn same_file(a: Seq<char>, b: Seq<char>) -> bool {
    text::same_ignoring_case(plain_path(text::utf8(a)), plain_path(text::utf8(b)))
}

fn plain_start(p: &[u8]) -> (r: usize)
    ensures
        r <= p@.len(),
        p@.skip(r as int) == plain_path(p@),
{
    let prefix: [u8; 4] = [92, 92, 63, 92];
    assert(prefix@ =~= seq![92u8, 92u8, 63u8, 92u8]);
    let n: usize = p.len();
    let mut i: usize = 0;
    assert(p@.skip(0) =~= p@);
    while starts_with(
        vstd::slice::slice_subrange(p, i, n),
        vstd::array::array_as_slice(&prefix),
    )
        invariant
            i <= n,
            n == p@.len(),
            prefix@ == seq![92u8, 92u8, 63u8, 92u8],
            plain_path(p@.skip(i as int)) == plain_path(p@),
        decreases n - i,
    {
        assert(p@.subrange(i as int, n as int) =~= p@.skip(i as int));
        assert(p@.skip(i as int).skip(4) =~= p@.skip(i + 4));
        i = i + 4;
    }
    assert(p@.subrange(i as int, n as int) =~= p@.skip(i as int));
    i
}

/// Whether two paths name one file, as far as their spelling tells.
pub fn same_path(a: &str, b: &str) -> (r: bool)
    ensures
        r == same_file(a@, b@),
{
    let x: &[u8] = a.as_bytes();
    let y: &[u8] = b.as_bytes();
    let i: usize = plain_start(x);
    let j: usize = plain_start(y);
    let p: &[u8] = vstd::slice::slice_subrange(x, i, x.len());
    let q: &[u8] = vstd::slice::slice_subrange(y, j, y.len());
    assert(p@ =~= x@.skip(i as int));
    assert(q@ =~= y@.skip(j as int));
    text::bytes_match_ignoring_case(p, q)
}

/// The name of the game.
pub open spec fn is_game_of(image: &str) -> bool {
    text::same_ignoring_case(text::utf8(image@), text::utf8("BlackOps3.exe"@))
}

/// Whether an image name is the game's.
pub fn is_game(image: &str) -> (r: bool)
    ensures
        r == is_game_of(image),
{
    text_matches_ignoring_case(image, "BlackOps3.exe")
}

/// The base of the first module from the `i`-th on that was loaded from `dll`.
pub open spec fn loaded_base(modules: Seq<Module>, dll: Seq<char>, i: int) -> Option<u64>
    decreases modules.len() - i,
{
    if i >= modules.len() {
        None
    } else if same_file(modules[i].path@, dll) {
        Some(modules[i].base)
    } else {
        loaded_base(modules, dll, i + 1)
    }
}

/// Finds the module that was loaded from `dll`.
pub fn find_module(modules: &Vec<Module>, dll: &str) -> (r: Option<u64>)
    ensures
        r == loaded_base(modules@, dll@, 0),
{
    let mut i: usize = 0;
    while i < modules.len()
        invariant
            i <= modules@.len(),
            loaded_base(modules@, dll@, i as int) == loaded_base(modules@, dll@, 0),
        decreases modules@.len() - i,
    {
        if same_path(modules[i].path.as_str(), dll) {
            return Some(modules[i].base);
        }
        i = i + 1;
    }
    None
}

pub open spec fn has_name(m: Module, name: Seq<char>) -> bool {
    match m.name {
        Some(n) => text::same_ignoring_case(text::utf8(n@), text::utf8(name)),
        None => false,
    }
}

/// The base of the first module from the `i`-th on with the file name `name`.
pub open spec fn named_base(modules: Seq<Module>, name: Seq<char>, i: int) -> Option<u64>
    decreases modules.len() - i,
{
    if i >= modules.len() {
        None
    } else if has_name(modules[i], name) {
        Some(modules[i].base)
    } else {
        named_base(modules, name, i + 1)
    }
}

fn find_named(modules: &Vec<Module>, name: &str) -> (r: Option<u64>)
    ensures
        r == named_base(modules@, name@, 0),
{
    let mut i: usize = 0;
    while i < modules.len()
        invariant
            i <= modules@.len(),
            named_base(modules@, name@, i as int) == named_base(modules@, name@, 0),
        decreases modules@.len() - i,
    {
        match &modules[i].name {
            Some(n) => if text_matches_ignoring_case(n.as_str(), name) {
                return Some(modules[i].base);
            },
            None => {},
        }
        i = i + 1;
    }
    None
}

/// Where this copy of the patch lies, 0 if it is to be loaded, `None` if another is there.
pub open spec fn chosen_base(modules: Seq<Module>, dll: Seq<char>) -> Option<u64> {
    match loaded_base(modules, dll, 0) {
        Some(base) => Some(base),
        None => if named_base(modules, "t7patch.dll"@, 0) is Some {
            None
        } else {
            Some(0)
        },
    }
}

/// The base of the patch if this copy is already loaded, 0 if none is; another copy is refused.
pub fn choose_module(modules: &Vec<Module>, dll: &str) -> (r: Result<u64, String>)
    ensures
        match chosen_base(modules@, dll@) {
            Some(base) => r == Ok::<u64, String>(base),
            None => r is Err && r->Err_0@
                == "A different t7patch.dll is already loaded. Restart BO3 to use this copy."@,
        },
{
    match find_module(modules, dll) {
        Some(base) => Ok(base),
        None => match find_named(modules, "t7patch.dll") {
            Some(_) => Err(
                "A different t7patch.dll is already loaded. Restart BO3 to use this copy.".to_owned(),
            ),
            None => Ok(0),
        },
    }
}

/// The place of a function in the game, as far from its module there as from its owner here.
pub open spec fn entry_of(
    modules: Seq<Module>,
    name: Seq<char>,
    function: u64,
    owner: u64,
) -> Result<u64, Seq<char>> {
    match named_base(modules, name, 0) {
        None => Err("Loader module is not ready"@),
        Some(base) => if base + (function - owner) <= u64::MAX {
            Ok((base + (function - owner)) as u64)
        } else {
            Err("Loader address overflow"@)
        },
    }
}

/// Where the loader function lies in the game: at the same distance from the module that owns
/// it as here.
pub fn loader_entry(modules: &Vec<Module>, name: &str, function: u64, owner: u64) -> (r: Result<
    u64,
    String,
>)
    requires
        owner <= function,
    ensures
        match entry_of(modules@, name@, function, owner) {
            Ok(entry) => r == Ok::<u64, String>(entry),
            Err(error) => r is Err && r->Err_0@ == error,
        },
{
    match find_named(modules, name) {
        None => Err("Loader module is not ready".to_owned()),
        Some(base) => match base.checked_add(function - owner) {
            Some(entry) => Ok(entry),
            None => Err("Loader address overflow".to_owned()),
        },
    }
}

/// The exports of a patch, or why it cannot be loaded with a path of so many units.
pub open spec fn patch_of(image: Seq<u8>, absolute: bool, units: nat) -> Result<
    (u32, Option<u32>),
    Seq<char>,
> {
    match exports::export_of(image, text::utf8("T7PatchStart"@), true) {
        Err(e) => Err(exports::export_error_text(e)),
        Ok(start) => if !absolute || units > 1024 {
            Err("Configuration path must be absolute and shorter than 1024 UTF-16 units"@)
        } else {
            Ok((start, exports::export_of(image, text::utf8("T7PatchStatus"@), false).ok()))
        },
    }
}

/// The two exports of the patch that is to be loaded, once the configuration path is known to
/// fit a request: `units` counts its UTF-16 units with the closing zero.
pub fn check_patch(image: &[u8], absolute: bool, units: usize) -> (r: Result<
    (u32, Option<u32>),
    String,
>)
    ensures
        match patch_of(image@, absolute, units as nat) {
            Ok(found) => r == Ok::<(u32, Option<u32>), String>(found),
            Err(error) => r is Err && r->Err_0@ == error,
        },
{
    let start: u32 = match export_rva(image, "T7PatchStart".as_bytes()) {
        Ok(rva) => rva,
        Err(e) => return Err(e),
    };
    let status: Option<u32> = match data_export_rva(image, "T7PatchStatus".as_bytes()) {
        Ok(rva) => Some(rva),
        Err(_) => None,
    };
    if !absolute || units > 1024 {
        return Err(
            "Configuration path must be absolute and shorter than 1024 UTF-16 units".to_owned(),
        );
    }
    Ok((start, status))
}

/// The process that is expected.
pub open spec fn check_identity_ok(image: Option<&str>, expected: &str) -> bool {
    image is Some && text::same_ignoring_case(
        text::utf8(image->Some_0@),
        text::utf8(expected@),
    )
}

/// Checks, through the opened handle, that the process still runs the expected 64-bit program.
pub fn check_identity(image: Option<&str>, expected: &str) -> (r: Result<(), String>)
    ensures
        r is Ok <==> check_identity_ok(image, expected),
        r is Err ==> r->Err_0@ == "Process identity changed; waiting for BO3."@,
{
    match image {
        Some(name) => if text_matches_ignoring_case(name, expected) {
            Ok(())
        } else {
            Err("Process identity changed; waiting for BO3.".to_owned())
        },
        None => Err("Process identity changed; waiting for BO3.".to_owned()),
    }
}

/// The processes that can be patched.
pub open spec fn check_architecture_ok(wow: bool) -> bool {
    !wow
}

pub fn check_architecture(wow: bool) -> (r: Result<(), String>)
    ensures
        r is Ok <==> check_architecture_ok(wow),
        r is Err ==> r->Err_0@ == "BO3 must be a 64-bit process"@,
{
    if wow {
        Err("BO3 must be a 64-bit process".to_owned())
    } else {
        Ok(())
    }
}

/// A request for the settings at a path.
pub open spec fn starts_with_path(path: Seq<u16>, r: StartRequest) -> bool {
    &&& r.size == launcher_api::REQUEST_SIZE
    &&& r.version == launcher_api::API_VERSION
    &&& r.status == 0
    &&& r.reserved == 0
    &&& r.config_path@ == launcher_api::path_units(path)
    &&& r.message@ == launcher_api::zeros(256)
}

/// The request that starts the patch with the configuration at `path`, which holds the closing
/// zero.
pub fn bootstrap_request(path: &[u16]) -> (r: StartRequest)
    requires
        path@.len() <= 1024,
    ensures
        starts_with_path(path@, r),
{
    let mut r: StartRequest = StartRequest::default();
    let mut field: [u16; 1024] = [0u16; 1024];
    let mut i: usize = 0;
    while i < path.len()
        invariant
            i <= path@.len() <= 1024,
            forall|k: int| 0 <= k < i ==> field@[k] == path@[k],
            forall|k: int| i <= k < 1024 ==> field@[k] == 0,
        decreases path@.len() - i,
    {
        field[i] = path[i];
        i = i + 1;
    }
    r.config_path = field;
    assert(r.config_path@ =~= launcher_api::path_units(path@));
    r
}

/// How far a session has come. Times are in milliseconds.
#[derive(Clone, Copy, Debug, PartialEq, Eq, Structural)]
pub enum Stage {
    Loading { started: u64 },
    Starting,
    Idle { next: u64 },
    Monitoring { next: u64 },
    Confirmed,
    Failed,
}

/// What to do to the game next.
#[derive(Clone, Copy, Debug, PartialEq, Eq, Structural)]
pub enum Action {
    Wait,
    PollLoader,
    StartBootstrap { entry: u64 },
    PollBootstrap,
    ReadStatus { address: u64 },
}

/// What came of it.
#[derive(Debug)]
pub enum Event {
    /// A call failed, with its message.
    CallFailed { error: String },
    /// The loader thread still runs.
    LoaderPending,
    /// The loader thread ended; the base of the patch, if it is among the modules now.
    LoaderDone { base: Option<u64> },
    BootstrapStarted,
    BootstrapPending,
    /// The bootstrap thread ended with `code` and left `response` in its request.
    BootstrapDone { code: u32, response: StartRequest },
    /// The patch's status variable held `code`.
    StatusRead { code: u32 },
}

#[derive(Debug)]
pub struct Session {
    pub pid: u32,
    pub export: u32,
    pub status_export: Option<u32>,
    pub base: u64,
    pub stage: Stage,
    pub status: String,
    pub active: bool,
    pub code: u32,
}

/// What a session says.
#[verifier::ext_equal]
pub struct SessionState {
    pub pid: u32,
    pub export: u32,
    pub status_export: Option<u32>,
    pub base: u64,
    pub stage: Stage,
    pub status: Seq<char>,
    pub active: bool,
    pub code: u32,
}

impl View for Session {
    type V = SessionState;

    open spec fn view(&self) -> SessionState {
        SessionState {
            pid: self.pid,
            export: self.export,
            status_export: self.status_export,
            base: self.base,
            stage: self.stage,
            status: self.status@,
            active: self.active,
            code: self.code,
        }
    }
}

pub const POLL_INTERVAL: u64 = 2000;
pub const LOADER_PATIENCE: u64 = 30000;

/// The stage after the patch has answered with `code`.
pub open spec fn stage_after(code: u32, passive: bool, now: u64) -> Stage {
    if code == launcher_api::WAITING {
        Stage::Idle { next: (now + POLL_INTERVAL) as u64 }
    } else if code == launcher_api::ACTIVE && passive {
        Stage::Monitoring { next: (now + POLL_INTERVAL) as u64 }
    } else if code == launcher_api::ACTIVE {
        Stage::Confirmed
    } else {
        Stage::Failed
    }
}

/// A session and, where the step failed, why.
#[verifier::ext_equal]
pub struct Step {
    pub state: SessionState,
    pub error: Option<Seq<char>>,
}

pub open spec fn proceed(state: SessionState) -> Step {
    Step { state, error: None }
}

pub open spec fn stop(state: SessionState, error: Seq<char>) -> Step {
    Step { state, error: Some(error) }
}

/// What `event` makes of a session; an event that the stage does not wait for changes nothing.
pub open spec fn advanced(s: SessionState, event: Event, now: u64) -> Step {
    match (s.stage, event) {
        (_, Event::CallFailed { error }) => stop(s, error@),
        (Stage::Loading { started }, Event::LoaderPending) => if now - started > LOADER_PATIENCE {
            proceed(SessionState { status: "Still waiting for the DLL loader..."@, ..s })
        } else {
            proceed(s)
        },
        (Stage::Loading { started }, Event::LoaderDone { base }) => match base {
            Some(base) => proceed(SessionState { base, stage: Stage::Idle { next: now }, ..s }),
            None => stop(
                s,
                "Windows could not load t7patch.dll. Check its x64 runtime dependencies."@,
            ),
        },
        (Stage::Idle { next }, Event::BootstrapStarted) => proceed(
            SessionState {
                stage: Stage::Starting,
                status: if s.active {
                    s.status
                } else {
                    "Checking game / installing patch..."@
                },
                ..s
            },
        ),
        (Stage::Starting, Event::BootstrapDone { code, response }) => if response.version
            != launcher_api::API_VERSION || code != response.status {
            stop(s, "Patch bootstrap failed (thread status 0x"@ + text::hex(code as nat) + ")"@)
        } else {
            proceed(
                SessionState {
                    code,
                    active: code == launcher_api::ACTIVE,
                    status: utf16::decoded(launcher_api::until_zero(response.message@)),
                    stage: stage_after(code, s.status_export is Some, now),
                    ..s
                },
            )
        },
        (Stage::Monitoring { next }, Event::StatusRead { code }) => {
            let read = SessionState { code, active: code == launcher_api::ACTIVE, ..s };
            if code == launcher_api::ACTIVE {
                proceed(
                    SessionState {
                        stage: Stage::Monitoring { next: (now + POLL_INTERVAL) as u64 },
                        ..read
                    },
                )
            } else if code == launcher_api::DEACTIVATED {
                proceed(
                    SessionState {
                        status: "Patch deactivated. Restart BO3 to install again."@,
                        stage: Stage::Failed,
                        ..read
                    },
                )
            } else if code == launcher_api::FAILED {
                stop(read, "Patch failed. Restart BO3."@)
            } else {
                stop(read, "Unexpected passive patch status "@ + text::decimal(code as nat))
            }
        },
        _ => proceed(s),
    }
}

/// A session whose last step failed for good.
pub open spec fn failed(s: SessionState, error: Seq<char>) -> SessionState {
    SessionState {
        status: error,
        active: false,
        code: launcher_api::FAILED,
        stage: Stage::Failed,
        ..s
    }
}

/// What a poll makes of a session.
pub open spec fn polled(s: SessionState, event: Event, now: u64) -> SessionState {
    let step = advanced(s, event, now);
    match step.error {
        Some(error) => failed(step.state, error),
        None => step.state,
    }
}

/// What is due in a session, `None` if its status is to be read and the patch has none.
pub open spec fn action_of(s: SessionState, now: u64) -> Option<Action> {
    match s.stage {
        Stage::Loading { started } => Some(Action::PollLoader),
        Stage::Starting => Some(Action::PollBootstrap),
        Stage::Idle { next } => Some(
            if now >= next {
                Action::StartBootstrap { entry: (s.base + s.export) as u64 }
            } else {
                Action::Wait
            },
        ),
        Stage::Monitoring { next } => if now < next {
            Some(Action::Wait)
        } else {
            match s.status_export {
                Some(rva) => Some(Action::ReadStatus { address: (s.base + rva) as u64 }),
                None => None,
            }
        },
        Stage::Confirmed => Some(Action::Wait),
        Stage::Failed => Some(Action::Wait),
    }
}

/// Exports lie within the address space.
pub open spec fn mapped(base: u64) -> bool {
    base + u32::MAX <= u64::MAX
}

/// How a session starts.
pub open spec fn starts(
    pid: u32,
    export: u32,
    status_export: Option<u32>,
    base: u64,
    now: u64,
    s: SessionState,
) -> bool {
    s == (SessionState {
        pid,
        export,
        status_export,
        base,
        stage: if base != 0 {
            Stage::Idle { next: now }
        } else {
            Stage::Loading { started: now }
        },
        status: "Loading patch DLL..."@,
        active: false,
        code: 0,
    })
}

impl Session {
    /// A new session, which loads the patch unless it is there already (`base` not 0).
    pub fn new(pid: u32, export: u32, status_export: Option<u32>, base: u64, now: u64) -> (r: Self)
        ensures
            starts(pid, export, status_export, base, now, r@),
    {
        Session {
            pid,
            export,
            status_export,
            base,
            stage: if base != 0 {
                Stage::Idle { next: now }
            } else {
                Stage::Loading { started: now }
            },
            status: "Loading patch DLL...".to_owned(),
            active: false,
            code: 0,
        }
    }

    /// What the session does to the game now, or why it cannot go on.
    pub fn next_action(&self, now: u64) -> (r: Result<Action, String>)
        requires
            mapped(self.base),
        ensures
            match action_of(self@, now) {
                Some(action) => r == Ok::<Action, String>(action),
                None => r is Err && r->Err_0@ == "Missing passive status export"@,
            },
    {
        match self.stage {
            Stage::Loading { .. } => Ok(Action::PollLoader),
            Stage::Starting => Ok(Action::PollBootstrap),
            Stage::Idle { next } => if now >= next {
                Ok(Action::StartBootstrap { entry: self.base + self.export as u64 })
            } else {
                Ok(Action::Wait)
            },
            Stage::Monitoring { next } => if now < next {
                Ok(Action::Wait)
            } else {
                match self.status_export {
                    Some(rva) => Ok(Action::ReadStatus { address: self.base + rva as u64 }),
                    None => Err("Missing passive status export".to_owned()),
                }
            },
            Stage::Confirmed => Ok(Action::Wait),
            Stage::Failed => Ok(Action::Wait),
        }
    }

    /// The stage after the patch has answered with `code`.
    pub fn after_bootstrap(&self, code: u32, now: u64) -> (r: Stage)
        requires
            now <= u64::MAX - POLL_INTERVAL,
        ensures
            r == stage_after(code, self.status_export is Some, now),
    {
        if code == launcher_api::WAITING {
            Stage::Idle { next: now + POLL_INTERVAL }
        } else if code == launcher_api::ACTIVE {
            if self.status_export.is_some() {
                Stage::Monitoring { next: now + POLL_INTERVAL }
            } else {
                Stage::Confirmed
            }
        } else {
            Stage::Failed
        }
    }

    /// Takes what came of an action.
    pub fn advance(&mut self, event: &Event, now: u64) -> (r: Result<(), String>)
        requires
            now <= u64::MAX - POLL_INTERVAL,
        ensures
            final(self)@ == advanced(old(self)@, *event, now).state,
            match advanced(old(self)@, *event, now).error {
                Some(error) => r is Err && r->Err_0@ == error,
                None => r is Ok,
            },
    {
        match (self.stage, event) {
            (_, Event::CallFailed { error }) => return Err(error.clone()),
            (Stage::Loading { started }, Event::LoaderPending) => {
                if now > started && now - started > LOADER_PATIENCE {
                    self.status = "Still waiting for the DLL loader...".to_owned();
                }
            },
            (Stage::Loading { .. }, Event::LoaderDone { base }) => match base {
                Some(base) => {
                    self.base = *base;
                    self.stage = Stage::Idle { next: now };
                },
                None => return Err(
                    "Windows could not load t7patch.dll. Check its x64 runtime dependencies.".to_owned(),
                ),
            },
            (Stage::Idle { .. }, Event::BootstrapStarted) => {
                self.stage = Stage::Starting;
                if !self.active {
                    self.status = "Checking game / installing patch...".to_owned();
                }
            },
            (Stage::Starting, Event::BootstrapDone { code, response }) => {
                if response.version != launcher_api::API_VERSION || *code != response.status {
                    let mut error = "Patch bootstrap failed (thread status 0x".to_owned();
                    push_hex(&mut error, *code as u64);
                    error.append(")");
                    return Err(error);
                }
                self.code = *code;
                self.active = *code == launcher_api::ACTIVE;
                self.status = response.text();
                self.stage = self.after_bootstrap(*code, now);
            },
            (Stage::Monitoring { .. }, Event::StatusRead { code }) => {
                self.code = *code;
                self.active = *code == launcher_api::ACTIVE;
                if *code == launcher_api::ACTIVE {
                    self.stage = Stage::Monitoring { next: now + POLL_INTERVAL };
                } else if *code == launcher_api::DEACTIVATED {
                    self.status = "Patch deactivated. Restart BO3 to install again.".to_owned();
                    self.stage = Stage::Failed;
                } else if *code == launcher_api::FAILED {
                    return Err("Patch failed. Restart BO3.".to_owned());
                } else {
                    let mut error = "Unexpected passive patch status ".to_owned();
                    push_decimal(&mut error, *code as u64);
                    return Err(error);
                }
            },
            _ => {},
        }
        Ok(())
    }

    /// Takes what came of an action; a failure ends the session.
    pub fn poll(&mut self, event: &Event, now: u64)
        requires
            now <= u64::MAX - POLL_INTERVAL,
        ensures
            final(self)@ == polled(old(self)@, *event, now),
    {
        match self.advance(event, now) {
            Ok(()) => {},
            Err(error) => {
                self.status = error;
                self.active = false;
                self.code = launcher_api::FAILED;
                self.stage = Stage::Failed;
            },
        }
    }
}

/// The patch counts as active exactly while its last code said so.
pub open spec fn honest(s: SessionState) -> bool {
    s.active == (s.code == launcher_api::ACTIVE)
}

/// No poll makes a session claim an activity that the patch has not confirmed.
pub proof fn lemma_poll_keeps_honest(s: SessionState, event: Event, now: u64)
    requires
        honest(s),
    ensures
        honest(polled(s, event, now)),
{
}

/// A failed session stays failed, and a confirmed one is never polled into a new bootstrap.
pub proof fn lemma_final_stages(s: SessionState, event: Event, now: u64)
    ensures
        s.stage == Stage::Failed ==> polled(s, event, now).stage == Stage::Failed,
        s.stage == Stage::Confirmed ==> polled(s, event, now).stage == Stage::Confirmed || polled(
            s,
            event,
            now,
        ).stage == Stage::Failed,
{
}

/// A monitored patch is only ever read: no event leads from monitoring back to a thread in the
/// game.
pub proof fn lemma_monitoring_is_passive(s: SessionState, event: Event, now: u64)
    requires
        s.stage is Monitoring,
    ensures
        polled(s, event, now).stage is Monitoring || polled(s, event, now).stage == Stage::Failed,
{
}

} // verus!
