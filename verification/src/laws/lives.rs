//! How things go on: what one call leaves for the next.
use crate::launcher;
use crate::launcher::process;
use crate::launcher::process::{SessionState, Stage};
use crate::launcher::ui;
use crate::launcher::ui::{FormState, Loaded};
use crate::launcher::updater;
use crate::launcher::updater::install::Prepared;
use crate::launcher::updater::package;
use crate::launcher::updater::package::{Entry, File, Manifest, Release};
use crate::launcher::updater::{install, State};
use crate::launcher::{Found, Status, Worker};
use crate::launcher_api;
use crate::launcher_api::StartRequest;
use crate::memory;
use crate::memory::Patch;
use crate::minhook;
use crate::arxan;
use crate::profiling;
use crate::profiling::{Metric, Pending, PendingCalls, PendingSlot};
use crate::protection;
use crate::protection::Friends;
use crate::reader;
use crate::runtime;
use crate::runtime::{Deactivation, Decision, Installation, Lifecycle, Step};
use crate::settings;
use crate::settings::Config;
use crate::text;
use crate::utf16;
use vstd::prelude::*;

verus! {

/// The patch is installed once in the life of a game. A success makes it active until it is ended,
/// and then it stays deactivated; a failure is repeated to whoever asks again.
pub proof fn lemma_life(
    fresh: Lifecycle,
    begun: Lifecycle,
    after: Lifecycle,
    ended: Lifecycle,
    result: Result<(), String>,
    reply: (u32, String),
    known_build: bool,
    ready: bool,
    debug: bool,
    r: Decision,
)
    requires
        !fresh.attempted && !fresh.active && fresh.last_error@.len() == 0,
        runtime::begun(fresh, begun),
        runtime::finished(begun, after, result, debug, reply),
        runtime::uninstalled(after, ended, after.active),
    ensures
        runtime::decided(fresh, true, true, debug, r) ==> r is Install,
        result is Ok ==> reply.0 == 2 && reply.1@ == (if debug {
            "Patch active (Debug DLL; rebuild with --release)"@
        } else {
            "Patch active"@
        }),
        result is Ok && runtime::decided(after, known_build, ready, debug, r) ==> (r
            matches Decision::Active { text } && text@ == reply.1@),
        result is Ok && runtime::decided(ended, known_build, ready, debug, r) ==> (r
            matches Decision::Refuse { status, message } && status == 5 && message@
            == "Patch deactivated. Restart BO3 to install again."@),
        result is Err ==> reply.0 == 4 && reply.1@ == result->Err_0@ && !after.active,
        result is Err && result->Err_0@.len() > 0 && runtime::decided(
            after,
            known_build,
            ready,
            debug,
            r,
        ) ==> (r matches Decision::Refuse { status, message } && status == 4 && message@
            == result->Err_0@),
{
}

/// A request before the attempt that is refused leaves the attempt for later.
pub proof fn lemma_not_yet(l: Lifecycle, known_build: bool, ready: bool, debug: bool, r: Decision)
    requires
        !l.attempted && !l.active,
        runtime::decided(l, known_build, ready, debug, r),
    ensures
        r is Install <==> known_build && ready,
        !known_build ==> (r matches Decision::Refuse { status, message } && status == 3),
        known_build && !ready ==> (r matches Decision::Refuse { status, message } && status == 1),
{
}

/// An installation goes on to its next step after every success, and after the failure of what it
/// can do without; a hook that was enabled is counted. It stands still otherwise.
pub proof fn lemma_installation(before: Installation, after: Installation, ok: bool, goes_on: bool)
    requires
        runtime::stepped(before, after, ok, goes_on),
    ensures
        goes_on <==> ok || before.step == Step::OpenJournal || before.step == Step::StartProfiler
            || before.step == Step::RaisePriority || before.step == Step::ApplySettings
            || before.step == Step::StartDiagnostics,
        goes_on ==> after.step == runtime::step_after(before.step, before.patches, before.hooks),
        goes_on && before.step is EnableHook ==> after.enabled == before.enabled + 1,
        !(before.step is EnableHook) || !goes_on ==> after.enabled == before.enabled,
        !goes_on ==> after.step == before.step,
        after.patches == before.patches && after.hooks == before.hooks,
{
}

/// Only a hook or a patch that could not be taken back is remembered, and it is for good.
pub proof fn lemma_deactivation(before: Deactivation, after: Deactivation, ok: bool, patches: usize)
    requires
        runtime::undone(before, after, ok, patches),
    ensures
        after.restored <==> before.restored && !(!ok && (before.undo is DisableHook || before.undo
            is RestorePatch)),
        after.rollback == before.rollback,
        after.undo == runtime::undo_after(before.undo, after.restored, before.rollback, patches),
{
}

/// A game that is found is attached to once there are valid settings; otherwise the window says
/// what is missing.
pub proof fn lemma_search(found: Result<Option<u32>, String>, configured: bool, pid: u32, r: Found)
    requires
        launcher::search_led_to(found, configured, r),
    ensures
        found == Ok::<Option<u32>, String>(Some(pid)) && configured ==> r == Found::Attach(pid),
        r is Attach ==> configured && found is Ok && found->Ok_0 is Some,
        found == Ok::<Option<u32>, String>(Some(pid)) && !configured ==> (r matches Found::Show(s)
            && s.text@ == "Save valid settings before patching."@ && !s.active),
        found == Ok::<Option<u32>, String>(None) ==> (r matches Found::Show(s) && s.text@
            == "No game process found."@ && !s.active),
        found is Err ==> (r matches Found::Show(s) && s.text@ == found->Err_0@ && !s.active),
{
}

/// Detection starts without a session and searches at once; where it never starts it is at rest.
/// A session counts once attaching to the game succeeded.
pub proof fn lemma_detection_starts(
    enabled: bool,
    now: u64,
    r: (Worker, Status),
    before: Worker,
    after: Worker,
    outcome: Result<String, String>,
    shown: Status,
)
    ensures
        launcher::starts(enabled, now, r) ==> !r.0.attached && !r.0.paused && r.0.next_scan == now
            && r.0.quiescent == !enabled && !r.1.active && r.1.text@ == "No game process found."@,
        launcher::attaching_led_to(before, after, outcome, shown) ==> {
            &&& !shown.active
            &&& after.next_scan == before.next_scan && after.paused == before.paused
                && after.quiescent == before.quiescent
            &&& after.attached <==> before.attached || outcome is Ok
            &&& outcome is Ok ==> shown.text@ == outcome->Ok_0@
            &&& outcome is Err ==> shown.text@ == outcome->Err_0@
        },
{
}

/// A session starts by loading the patch, unless it is there already.
pub proof fn lemma_session_starts(
    pid: u32,
    export: u32,
    status_export: Option<u32>,
    base: u64,
    now: u64,
    s: SessionState,
)
    requires
        process::starts(pid, export, status_export, base, now, s),
    ensures
        base == 0 ==> s.stage == (Stage::Loading { started: now }),
        base != 0 ==> s.stage == (Stage::Idle { next: now }),
        s.pid == pid && s.export == export && s.status_export == status_export && s.base == base,
        !s.active && s.code == 0 && s.status == "Loading patch DLL..."@,
{
}

/// The request of a session is one that the patch accepts, if its path ends in a zero, and it
/// holds that path.
pub proof fn lemma_start_request(path: Seq<u16>, r: StartRequest, i: int)
    requires
        process::starts_with_path(path, r),
        0 < path.len() <= 1024,
        path.last() == 0,
    ensures
        r.size == 2576 && r.version == 1 && r.status == 0 && r.reserved == 0,
        0 <= i < path.len() ==> r.config_path@[i] == path[i],
        path.len() <= i < 1024 ==> r.config_path@[i] == 0,
        0 <= i < 256 ==> r.message@[i] == 0,
        r.config_path@[path.len() - 1] == 0,
{
}

/// What was asked of the list of friends: an answer from the list as it is, or none while it is
/// brought up to date, which only one does at a time.
pub proof fn lemma_friend_asked(
    before: Friends,
    after: Friends,
    xuid: u64,
    now: u64,
    can_refresh: bool,
    r: Option<bool>,
)
    requires
        protection::asked_about(before, after, xuid, now, can_refresh, r),
    ensures
        r is None <==> can_refresh && !before.refreshing && before.next <= now,
        r is Some ==> r->Some_0 == before.xuids@.contains(xuid),
        r is None ==> after.refreshing && !protection::refresh_due(after, now, true),
        r is Some ==> after.refreshing == before.refreshing,
        after.xuids@ == before.xuids@ && after.next == before.next,
{
}

/// One sample of each stage and reason is kept, twenty in all.
pub proof fn lemma_sample(
    before: Seq<reader::Sample>,
    after: Seq<reader::Sample>,
    sample: reader::Sample,
    kept: bool,
)
    requires
        reader::noted(before, after, sample, kept),
    ensures
        kept <==> before.len() < 20 && forall|i: int|
            0 <= i < before.len() ==> !((#[trigger] before[i]).stage == sample.stage
                && before[i].reason == sample.reason),
        kept ==> after == before.push(sample),
        !kept ==> after == before,
{
}

/// Every call counts while profiling is on, and every 1024th of them is timed, from the first on.
pub proof fn lemma_metric(
    before: Metric,
    after: Metric,
    enabled: bool,
    now: u64,
    r: Option<profiling::Sample>,
    nanos: u64,
    taken: Option<Metric>,
)
    ensures
        profiling::entered(before, after, enabled, now, r) ==> {
            &&& r is Some <==> enabled && before.calls % 1024 == 0
            &&& r is Some ==> r->Some_0.started == now
            &&& enabled && before.calls < u64::MAX ==> after.calls == before.calls + 1
            &&& !enabled ==> after.calls == before.calls
            &&& after.samples == before.samples && after.nanos == before.nanos && after.max_nanos
                == before.max_nanos
        },
        profiling::timed(before, after, nanos) && before.samples < u64::MAX && before.nanos + nanos
            <= u64::MAX ==> {
            &&& after.samples == before.samples + 1
            &&& after.nanos == before.nanos + nanos
            &&& after.max_nanos >= nanos && after.max_nanos >= before.max_nanos
            &&& after.max_nanos == nanos || after.max_nanos == before.max_nanos
            &&& after.calls == before.calls
        },
        profiling::reported(before, after, taken) ==> {
            &&& taken is Some <==> before.calls > 0 || before.samples > 0
            &&& taken is Some ==> taken->Some_0 == before
            &&& after.calls == 0 && after.samples == 0 && after.nanos == 0 && after.max_nanos == 0
                && after.name == before.name
        },
{
}

/// A call that comes back leaves its slot free and every other call out.
pub proof fn lemma_call_comes_back(
    before: PendingCalls,
    after: PendingCalls,
    pending: Pending,
    i: int,
)
    requires
        profiling::came_back(before, after, pending),
        pending.slot < before.slots@.len(),
        0 <= i < before.slots@.len(),
    ensures
        after.slots@.len() == before.slots@.len(),
        after.slots@[pending.slot as int].owner == 0,
        i != pending.slot ==> after.slots@[i] == before.slots@[i],
        after.next == before.next && after.overflow == before.overflow,
{
}

/// A call goes out into a free slot with a token of its own, two higher than the last; without a
/// slot it is counted.
pub proof fn lemma_call_goes_out(
    before: PendingCalls,
    after: PendingCalls,
    metric: &'static str,
    thread: u32,
    since: u64,
    r: Option<Pending>,
)
    requires
        profiling::went_out(before, after, metric, thread, since, r),
        2 <= before.next < 0x1_0000_0000_0000,
        before.overflow < u64::MAX,
    ensures
        ({
            let at = profiling::free_slot(before.slots@, thread as int, 0);
            let n = before.slots@.len();
            &&& r is Some <==> at < n
            &&& r is Some ==> r->Some_0.slot == at as usize && r->Some_0.token == before.next
                && after.next == before.next + 2 && after.overflow == before.overflow
                && after.slots@ == before.slots@.update(
                at,
                PendingSlot { owner: before.next, metric, thread, since },
            )
            &&& r is None ==> after.slots@ == before.slots@ && after.overflow == before.overflow + 1
        }),
{
}

/// A window starts with the settings that were read. Where there are none it starts with the
/// defaults and writes them, and where they could not be read it says so and writes nothing.
pub proof fn lemma_window_starts(loaded: Loaded, r: (Config, bool, String))
    requires
        ui::started_with(loaded, r),
    ensures
        loaded matches Loaded::Read(config) ==> r.0 == config,
        !(loaded is Read) ==> r.0@ == settings::default_settings(),
        r.1 <==> loaded is Missing,
        loaded matches Loaded::Failed(error) ==> r.2@ == "Cannot read settings: "@ + error@,
        !(loaded is Failed) ==> r.2@.len() == 0,
{
    reveal_strlit("");
}

/// The status line shows a complaint before the state of the game, and is drawn anew only if it
/// changed.
pub proof fn lemma_status_line(before: FormState, after: FormState, status: Status, r: Option<String>)
    requires
        ui::status_shown(before, after, status, r),
    ensures
        before.error.len() > 0 ==> after.last_status == before.error && !after.status_active,
        before.error.len() == 0 ==> after.last_status == status.text@ && after.status_active
            == status.active,
        r is None <==> after.last_status == before.last_status && after.status_active
            == before.status_active,
        r is Some ==> r->Some_0@ == after.last_status,
        after.dirty == before.dirty && after.error == before.error && after.page == before.page,
{
}

/// A trial of the window ends after two seconds, and nothing else does. The helper starts once,
/// when detection is at rest. Settings that could not be written are complained of.
pub proof fn lemma_window_ends(
    smoke: bool,
    started: u64,
    now: u64,
    r: bool,
    restarting: bool,
    state: State,
    quiescent: bool,
    before: FormState,
    after: FormState,
    outcome: Result<(), String>,
)
    ensures
        ui::trial_over(smoke, started, now, r) ==> (r <==> smoke && now >= started + 2000),
        ui::helper_due(restarting, state, quiescent, r) ==> (r <==> !restarting && quiescent && state
            is Handoff),
        ui::was_saved(before, after, outcome, r) ==> {
            &&& r <==> outcome is Ok
            &&& outcome is Ok ==> after.error.len() == 0
            &&& outcome is Err ==> after.error == "Settings not saved: "@ + outcome->Err_0@
            &&& after.dirty == before.dirty && after.smoke == before.smoke
        },
{
    reveal_strlit("");
}

/// A request is answered if memory holds one that can be. The length of its path is the place of
/// its first zero.
pub proof fn lemma_request_opened(memory: &[u8], request: StartRequest, r: Result<(StartRequest, usize), u32>)
    requires
        launcher_api::opened(Some(memory), r),
        memory@ == request.layout(),
    ensures
        r is Ok <==> launcher_api::acceptable(request),
        r is Ok ==> r->Ok_0.0 == request && r->Ok_0.1 == launcher_api::until_zero(
            request.config_path@,
        ).len(),
        r is Err ==> r->Err_0 == 6,
{
    if r is Ok {
        StartRequest::lemma_layout_injective(r->Ok_0.0, request);
    }
}

/// What the launcher reads of an answer is what was answered, if it fits; without an absolute path
/// it is told so.
pub proof fn lemma_request_answered(
    before: StartRequest,
    after: StartRequest,
    outcome: Option<(u32, String)>,
    status: u32,
)
    requires
        launcher_api::answered(before, after, outcome, status),
    ensures
        after.status == status,
        outcome is Some ==> status == outcome->Some_0.0,
        outcome is None ==> status == 6,
        outcome is Some && utf16::encoded(outcome->Some_0.1@).len() <= 255 && (forall|i: int|
            0 <= i < outcome->Some_0.1@.len() ==> outcome->Some_0.1@[i] as int != 0)
            ==> utf16::decoded(launcher_api::until_zero(after.message@)) == outcome->Some_0.1@,
        outcome is None ==> after.message@ == launcher_api::message_units(
            "An absolute configuration path is required"@,
        ),
        after.config_path == before.config_path && after.version == before.version,
{
    if outcome is Some && utf16::encoded(outcome->Some_0.1@).len() <= 255 && (forall|i: int|
        0 <= i < outcome->Some_0.1@.len() ==> outcome->Some_0.1@[i] as int != 0) {
        StartRequest::lemma_text_of_reply(outcome->Some_0.1@);
    }
}

/// A patch is prepared if as many bytes could be read as are to be replaced, and keeps both. It is
/// in place if the game holds its bytes.
pub proof fn lemma_patch(
    address: u64,
    current: Option<Vec<u8>>,
    replacement: Seq<u8>,
    r: Result<Patch, String>,
    found: &[u8],
    owned: bool,
)
    ensures
        memory::was_prepared(address, current, replacement, r) ==> {
            &&& r is Ok <==> current is Some && current->Some_0@.len() == replacement.len()
            &&& r is Ok ==> r->Ok_0.address == address && r->Ok_0.original@ == current->Some_0@
                && r->Ok_0.replacement@ == replacement
        },
        memory::in_place(replacement, Some(found), owned) ==> (owned <==> found@ == replacement),
        memory::in_place(replacement, None, owned) ==> !owned,
{
}

/// Checks of single values.
pub proof fn lemma_small_checks(
    code: i32,
    i: usize,
    found: usize,
    wow: bool,
    flag: bool,
    length: u64,
    entry: &Entry,
    manifest: &Manifest,
    status: u32,
)
    ensures
        minhook::status_ok(code) <==> code == 0,
        minhook::initialize_ok(code) <==> code == 0 || code == 1,
        i < 3 ==> (arxan::check_count_ok(i, found) <==> found == (if i == 2 {
            847int
        } else {
            259
        })),
        process::check_architecture_ok(wow) <==> !wow,
        install::check_unfinished_ok(flag) <==> !flag,
        install::check_staged_manifest_ok(length) <==> length <= 1_048_576,
        install::check_backup_ok(entry, length) <==> entry.size == length,
        install::game_closed_ok(flag) <==> !flag,
        updater::archive_received_ok(status) <==> status == 200,
        updater::check_manifest_length_ok(length) <==> length <= 1_048_576,
        updater::check_archive_length_ok(manifest, length) <==> manifest.archive.size == length,
        updater::downloaded_ok(flag) <==> !flag,
        package::check_staged_ok(entry, flag, length) <==> flag && entry.size == length,
{
}

/// A process is the expected one in letters of either case, and the program that can be replaced
/// is the packaged one.
pub proof fn lemma_names(image: &str, expected: &str)
    ensures
        process::check_identity_ok(Some(image), expected) <==> text::same_ignoring_case(
            text::utf8(image@),
            text::utf8(expected@),
        ),
        !process::check_identity_ok(None, expected),
        updater::replaceable_ok(Some(image)) <==> image@ == "t7patch.exe"@,
        !updater::replaceable_ok(None),
{
}

/// The result of a worker is shown, unless it was told to stop; then what it has prepared is
/// removed.
pub proof fn lemma_settled(
    result: Result<State, String>,
    update: Prepared,
    r: (Option<State>, Option<String>),
)
    ensures
        updater::settled(false, result, r) ==> r.1 is None && (result is Ok ==> r.0 == Some(
            result->Ok_0,
        )) && (result is Err ==> r.0 == Some(State::Error(result->Err_0))),
        updater::settled(true, result, r) ==> r.0 is None,
        updater::settled(true, result, r) && result == Ok::<State, String>(State::Ready(update))
            ==> r.1 == Some(update.stage),
        updater::settled(true, result, r) && !(result is Ok && result->Ok_0 is Ready) ==> r.1
            is None,
{
}

/// A check ends with the release that is offered, with the news that there is none, or with what
/// is wrong.
pub proof fn lemma_check_ends(release: Release, installed: Seq<char>, error: String, r: State)
    ensures
        updater::check_ended(Ok(release), installed, r) ==> {
            &&& r is Available <==> package::newer_of(release, installed) == Ok::<bool, Seq<char>>(
                true,
            )
            &&& r is Idle <==> package::newer_of(release, installed) == Ok::<bool, Seq<char>>(false)
            &&& r is Error <==> package::newer_of(release, installed) is Err
            &&& r matches State::Available(offered) ==> offered == release
            &&& r matches State::Idle(text) ==> text@ == "v"@ + installed + " is up to date."@
        },
        updater::check_ended(Err(error), installed, r) ==> (r matches State::Error(text) && text@
            == "Invalid GitHub response: "@ + error@),
{
}

/// An update that was cancelled unpacks nothing more.
pub proof fn lemma_cancelled(m: Manifest, archive: Seq<u8>, done: Seq<File>, r: Result<File, String>)
    ensures
        package::next_unpacked(true, m, archive, done, r) ==> r is Err && r->Err_0@
            == "Update cancelled"@,
        package::next_unpacked(false, m, archive, done, r) ==> (r is Ok <==> package::unpacked_at(
            m,
            archive,
            package::file_views(done),
            done.len() as int,
        ) is Ok) && (r is Ok ==> r->Ok_0@ == package::unpacked_at(
            m,
            archive,
            package::file_views(done),
            done.len() as int,
        )->Ok_0),
{
}

} // verus!
