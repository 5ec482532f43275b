//! How the launcher finds the game, and what it makes of what the patch answers.
use crate::launcher;
use crate::launcher::process;
use crate::launcher::process::{Action, Event, Module, SessionState, Stage};
use crate::launcher::{Mode, Work, Worker};
use crate::launcher::exports;
use crate::launcher_api;
use crate::launcher_api::StartRequest;
use crate::laws::actions;
use crate::text;
use crate::utf16;
use vstd::prelude::*;

verus! {

proof fn lemma_same_letters(k: Seq<u8>, a: Seq<char>, b: Seq<char>)
    requires
        a.len() == b.len(),
        forall|i: int| 0 <= i < a.len() ==> 0 <= (#[trigger] a[i]) as int <= 127,
        forall|i: int| 0 <= i < b.len() ==> 0 <= (#[trigger] b[i]) as int <= 127,
        forall|i: int|
            0 <= i < a.len() ==> text::lower(#[trigger] a[i] as u8) == text::lower(b[i] as u8),
        forall|i: int| 0 <= i < b.len() ==> !('A' <= (#[trigger] b[i]) <= 'Z'),
    ensures
        text::same_ignoring_case(k, text::utf8(a)) == actions::spelt(k, b),
{
    text::lemma_utf8_of_ascii(a);
    text::lemma_utf8_of_ascii(b);
    if text::same_ignoring_case(k, text::utf8(a)) {
        assert forall|i: int| 0 <= i < b.len() implies (#[trigger] k[i] == b[i] as u8 || ('a'
            <= b[i] <= 'z' && k[i] == b[i] as u8 - 32)) by {
            assert(text::utf8(a)[i] == a[i] as u8);
            assert(text::lower(k[i]) == text::lower(text::utf8(a)[i]));
            assert(text::lower(a[i] as u8) == text::lower(b[i] as u8));
        }
    }
    if actions::spelt(k, b) {
        assert forall|i: int| 0 <= i < k.len() implies text::lower(#[trigger] k[i]) == text::lower(
            text::utf8(a)[i],
        ) by {
            assert(text::utf8(a)[i] == a[i] as u8);
            assert(text::lower(a[i] as u8) == text::lower(b[i] as u8));
        }
    }
}

/// The game is the program of that name, in letters of either case.
pub proof fn lemma_game_name(image: &str)
    ensures
        process::is_game_of(image) <==> actions::spelt(text::utf8(image@), "blackops3.exe"@),
{
    reveal_strlit("BlackOps3.exe");
    reveal_strlit("blackops3.exe");
    lemma_same_letters(text::utf8(image@), "BlackOps3.exe"@, "blackops3.exe"@);
}

/// Detection rests while it is paused, follows a session whose process runs, and otherwise searches
/// once a second.
pub proof fn lemma_detection(w: Worker, alive: bool, now: u64, again: bool, later: u64)
    requires
        now < 0x1_0000_0000_0000,
    ensures
        w.due(alive, now) == Work::Rest <==> w.paused,
        w.due(alive, now) == Work::Poll <==> !w.paused && w.attached && alive,
        w.due(alive, now) == Work::Scan <==> !w.paused && !(w.attached && alive) && w.next_scan
            <= now,
        w.due(alive, now) == Work::Scan ==> (w.after_due(alive, now).due(again, later) == Work::Scan
            <==> later >= now + 1000),
        !w.paused ==> w.after_due(alive, now).attached == (w.attached && alive),
        w.paused ==> w.after_due(alive, now) == (Worker { quiescent: true, ..w }),
        w.due(alive, now) == Work::Poll || w.due(alive, now) == Work::Wait ==> w.after_due(
            alive,
            now,
        ).next_scan == w.next_scan,
{
}

/// What the program was started for is said by its first argument; a check of a package takes one
/// more, and no other.
pub proof fn lemma_modes(args: Seq<String>)
    requires
        args.len() > 1,
    ensures
        args[1]@ == "--verify-update-package"@ ==> launcher::mode_of(args) == (if args.len() == 3 {
            Mode::VerifyPackage
        } else {
            Mode::Usage
        }),
        args[1]@ == "--apply-update"@ || args[1]@ == "--recover-update"@ ==> launcher::mode_of(args)
            == Mode::Helper,
        args[1]@ != "--verify-update-package"@ && args[1]@ != "--apply-update"@ && args[1]@
            != "--recover-update"@ ==> launcher::mode_of(args) == (Mode::Window {
            smoke: exists|i: int| 0 <= i < args.len() && #[trigger] args[i]@ == "--ui-smoke-test"@,
        }),
{
    reveal_strlit("--verify-update-package");
    reveal_strlit("--apply-update");
    reveal_strlit("--recover-update");
    assert("--verify-update-package"@.len() != "--apply-update"@.len());
    assert("--verify-update-package"@.len() != "--recover-update"@.len());
}

/// Failures are printed by the trial of the window and by the check of a package.
pub proof fn lemma_printed_failures(args: &Vec<String>)
    ensures
        launcher::prints_failure_of(args) <==> (exists|i: int|
            0 <= i < args@.len() && #[trigger] args@[i]@ == "--ui-smoke-test"@) || (args@.len() > 1
            && args@[1]@ == "--verify-update-package"@),
{
}

/// Paths are compared without the prefix for long ones, however often it stands there.
pub proof fn lemma_long_paths(p: Seq<u8>)
    ensures
        process::plain_path(seq![92u8, 92, 63, 92] + p) == process::plain_path(p),
        p.len() < 4 || p[0] != 92 || p[1] != 92 || p[2] != 63 || p[3] != 92 ==> process::plain_path(
            p,
        ) == p,
{
    let s = seq![92u8, 92, 63, 92] + p;
    assert(s.take(4) =~= seq![92u8, 92u8, 63u8, 92u8]);
    assert(s.skip(4) =~= p);
    if p.len() >= 4 {
        let t = p.take(4);
        assert(t[0] == p[0] && t[1] == p[1] && t[2] == p[2] && t[3] == p[3]);
    }
}

proof fn lemma_first_loaded(modules: Seq<Module>, dll: Seq<char>, i: int)
    requires
        0 <= i <= modules.len(),
    ensures
        process::loaded_base(modules, dll, i) is None <==> forall|j: int|
            i <= j < modules.len() ==> !process::same_file((#[trigger] modules[j]).path@, dll),
        forall|k: int|
            i <= k < modules.len() && process::same_file((#[trigger] modules[k]).path@, dll) && (
            forall|j: int|
                i <= j < k ==> !process::same_file((#[trigger] modules[j]).path@, dll))
                ==> process::loaded_base(modules, dll, i) == Some(modules[k].base),
    decreases modules.len() - i,
{
    if i < modules.len() {
        lemma_first_loaded(modules, dll, i + 1);
        if process::same_file(modules[i].path@, dll) {
            assert forall|k: int|
                i <= k < modules.len() && process::same_file((#[trigger] modules[k]).path@, dll) && (
                forall|j: int|
                    i <= j < k ==> !process::same_file((#[trigger] modules[j]).path@, dll)) implies process::loaded_base(
                modules,
                dll,
                i,
            ) == Some(modules[k].base) by {
                if k > i {
                    assert(process::same_file(modules[i].path@, dll));
                }
            }
        }
    }
}

/// The file name of a module, in letters of either case.
pub open spec fn is_patch_file(m: Module) -> bool {
    m.name is Some && actions::spelt(text::utf8(m.name->Some_0@), "t7patch.dll"@)
}

proof fn lemma_any_named(modules: Seq<Module>, i: int)
    requires
        0 <= i <= modules.len(),
    ensures
        process::named_base(modules, "t7patch.dll"@, i) is None <==> forall|j: int|
            i <= j < modules.len() ==> !is_patch_file(#[trigger] modules[j]),
    decreases modules.len() - i,
{
    reveal_strlit("t7patch.dll");
    if i < modules.len() {
        lemma_any_named(modules, i + 1);
        if modules[i].name is Some {
            lemma_same_letters(
                text::utf8(modules[i].name->Some_0@),
                "t7patch.dll"@,
                "t7patch.dll"@,
            );
        }
    }
}

/// The copy that was loaded from this file is used, and the file is loaded if there is none; a
/// copy from elsewhere is refused.
pub proof fn lemma_copies(modules: Seq<Module>, dll: Seq<char>, k: int)
    ensures
        0 <= k < modules.len() && process::same_file(modules[k].path@, dll) && (forall|j: int|
            0 <= j < k ==> !process::same_file((#[trigger] modules[j]).path@, dll))
            ==> process::chosen_base(modules, dll) == Some(modules[k].base),
        (forall|j: int|
            0 <= j < modules.len() ==> !process::same_file((#[trigger] modules[j]).path@, dll)
                && !is_patch_file(modules[j])) ==> process::chosen_base(modules, dll) == Some(0u64),
        0 <= k < modules.len() && is_patch_file(modules[k]) && (forall|j: int|
            0 <= j < modules.len() ==> !process::same_file((#[trigger] modules[j]).path@, dll))
            ==> process::chosen_base(modules, dll) is None,
{
    lemma_first_loaded(modules, dll, 0);
    lemma_any_named(modules, 0);
}

/// The loader function lies as far behind its module in the game as it does here.
pub proof fn lemma_loader(modules: Seq<Module>, name: Seq<char>, function: u64, owner: u64, base: u64)
    requires
        owner <= function,
        process::named_base(modules, name, 0) == Some(base),
    ensures
        base + function - owner <= u64::MAX ==> process::entry_of(modules, name, function, owner)
            == Ok::<u64, Seq<char>>((base + function - owner) as u64),
        base + function - owner > u64::MAX ==> process::entry_of(modules, name, function, owner)
            is Err,
{
}

/// A patch can be loaded if and only if it exports its start as code and the path of the settings
/// is absolute and fits 1024 units with its zero. A variable with its status is welcome.
pub proof fn lemma_loadable(image: Seq<u8>, absolute: bool, units: nat)
    ensures
        process::patch_of(image, absolute, units) is Ok <==> absolute && units < 1025
            && exports::export_of(image, text::utf8("T7PatchStart"@), true) is Ok,
        process::patch_of(image, absolute, units) is Ok ==> {
            let (start, status) = process::patch_of(image, absolute, units)->Ok_0;
            &&& exports::export_of(image, text::utf8("T7PatchStart"@), true)->Ok_0 == start
            &&& status is Some <==> exports::export_of(
                image,
                text::utf8("T7PatchStatus"@),
                false,
            ) is Ok
            &&& status is Some ==> exports::export_of(
                image,
                text::utf8("T7PatchStatus"@),
                false,
            )->Ok_0 == status->Some_0
        },
{
}

/// What is done to the game, by the stage: the two threads are waited for, the patch is started
/// once its time has come, and a patch with a status variable is read once its time has come.
pub proof fn lemma_next_action(s: SessionState, started: u64, next: u64, now: u64, rva: u32)
    requires
        s.base < 0x1_0000_0000_0000,
    ensures
        s.stage == (Stage::Loading { started }) ==> process::action_of(s, now) == Some(
            Action::PollLoader,
        ),
        s.stage == Stage::Starting ==> process::action_of(s, now) == Some(Action::PollBootstrap),
        s.stage == (Stage::Idle { next }) ==> process::action_of(s, now) == Some(
            if next <= now {
                Action::StartBootstrap { entry: (s.base + s.export) as u64 }
            } else {
                Action::Wait
            },
        ),
        s.stage == (Stage::Monitoring { next }) && s.status_export == Some(rva)
            ==> process::action_of(s, now) == Some(
            if next <= now {
                Action::ReadStatus { address: (s.base + rva) as u64 }
            } else {
                Action::Wait
            },
        ),
        s.stage == Stage::Confirmed || s.stage == Stage::Failed ==> process::action_of(s, now)
            == Some(Action::Wait),
{
}

/// Loading: the patch is started as soon as it is there. A loader that takes more than half a
/// minute is mentioned, and one that ended without the patch is a failure.
pub proof fn lemma_loading(s: SessionState, started: u64, base: u64, now: u64)
    requires
        s.stage == (Stage::Loading { started }),
    ensures
        process::polled(s, Event::LoaderPending, now) == (if now > started + 30_000 {
            SessionState { status: "Still waiting for the DLL loader..."@, ..s }
        } else {
            s
        }),
        process::polled(s, Event::LoaderDone { base: Some(base) }, now) == (SessionState {
            base,
            stage: Stage::Idle { next: now },
            ..s
        }),
        process::polled(s, Event::LoaderDone { base: None }, now) == (SessionState {
            stage: Stage::Failed,
            active: false,
            code: 4,
            status:
                "Windows could not load t7patch.dll. Check its x64 runtime dependencies."@,
            ..s
        }),
{
}

/// The patch was started: that is shown unless it is active already.
pub proof fn lemma_starting(s: SessionState, next: u64, now: u64)
    requires
        s.stage == (Stage::Idle { next }),
    ensures
        process::polled(s, Event::BootstrapStarted, now).stage == Stage::Starting,
        process::polled(s, Event::BootstrapStarted, now).status == (if s.active {
            s.status
        } else {
            "Checking game / installing patch..."@
        }),
        process::polled(s, Event::BootstrapStarted, now).active == s.active,
{
}

/// The patch has answered. A waiting one is started again two seconds later; an active one is
/// watched from two seconds later on if it can be, and believed if it cannot; any other answer ends
/// the session. Shown is what it said. An answer of another version, or at odds with itself, is a
/// failure.
pub proof fn lemma_answered(s: SessionState, code: u32, response: StartRequest, now: u64)
    requires
        s.stage == Stage::Starting,
        now < 0x1_0000_0000_0000,
    ensures
        ({
            let after = process::polled(s, Event::BootstrapDone { code, response }, now);
            let valid = response.version == 1 && response.status == code;
            &&& valid ==> after.code == code && after.active == (code == 2) && after.status
                == utf16::decoded(launcher_api::until_zero(response.message@))
            &&& valid && code == 1 ==> after.stage == (Stage::Idle { next: (now + 2000) as u64 })
            &&& valid && code == 2 && s.status_export is Some ==> after.stage == (
            Stage::Monitoring { next: (now + 2000) as u64 })
            &&& valid && code == 2 && s.status_export is None ==> after.stage == Stage::Confirmed
            &&& !valid || (code != 1 && code != 2) ==> after.stage == Stage::Failed
            &&& !valid ==> !after.active && after.code == 4 && after.status
                == "Patch bootstrap failed (thread status 0x"@ + text::hex(code as nat) + ")"@
            &&& after.base == s.base && after.export == s.export && after.status_export
                == s.status_export && after.pid == s.pid
        }),
{
}

/// A watched patch is read every two seconds while it is active. It may be deactivated or fail;
/// anything else is unexpected.
pub proof fn lemma_watched(s: SessionState, next: u64, code: u32, now: u64)
    requires
        s.stage == (Stage::Monitoring { next }),
        now < 0x1_0000_0000_0000,
    ensures
        ({
            let after = process::polled(s, Event::StatusRead { code }, now);
            &&& code == 2 ==> after.stage == (Stage::Monitoring { next: (now + 2000) as u64 })
                && after.active && after.status == s.status && after.code == 2
            &&& code != 2 ==> after.stage == Stage::Failed && !after.active
            &&& code == 5 ==> after.status == "Patch deactivated. Restart BO3 to install again."@
                && after.code == 5
            &&& code == 4 ==> after.status == "Patch failed. Restart BO3."@ && after.code == 4
            &&& code != 2 && code != 4 && code != 5 ==> after.code == 4 && after.status
                == "Unexpected passive patch status "@ + text::decimal(code as nat)
        }),
{
}

/// A call that failed ends a session at whatever stage, and its message is shown.
pub proof fn lemma_call_failed(s: SessionState, error: String, now: u64)
    ensures
        process::polled(s, Event::CallFailed { error }, now) == (SessionState {
            status: error@,
            active: false,
            code: 4,
            stage: Stage::Failed,
            ..s
        }),
{
}

} // verus!
