//! How an update takes the place of what is installed, and what a helper needs for that.
use crate::launcher::updater::install;
use crate::launcher::updater::install::{Journal, Parent, Step};
use crate::launcher::updater::package::Entry;
use crate::text;
use crate::words;
use vstd::prelude::*;

verus! {

/// A staging directory is called so if and only if its name is the launcher's own beginning and
/// then at least one digit or hyphen, and nothing else.
pub proof fn lemma_stage_names(rest: Seq<u8>, name: Seq<u8>)
    ensures
        install::stage_name_ok(text::utf8(".t7patch-update-"@) + rest) <==> rest.len() > 0 && forall|
            i: int,
        |
            0 <= i < rest.len() ==> ('0' as u8 <= #[trigger] rest[i] <= '9' as u8 || rest[i]
                == '-' as u8),
        install::stage_name_ok(name) ==> name.len() > 16 && name.take(16) == text::utf8(
            ".t7patch-update-"@,
        ),
{
    reveal_strlit(".t7patch-update-");
    text::lemma_utf8_of_ascii(".t7patch-update-"@);
    let prefix = text::utf8(".t7patch-update-"@);
    let s = prefix + rest;
    assert(s.take(16) =~= prefix);
    if install::stage_name_ok(s) {
        assert forall|i: int| 0 <= i < rest.len() implies ('0' as u8 <= #[trigger] rest[i]
            <= '9' as u8 || rest[i] == '-' as u8) by {
            assert(s[16 + i] == rest[i]);
        }
    }
    if rest.len() > 0 && forall|i: int|
        0 <= i < rest.len() ==> ('0' as u8 <= #[trigger] rest[i] <= '9' as u8 || rest[i]
            == '-' as u8) {
        assert forall|i: int| 16 <= i < s.len() implies install::is_stage_byte(#[trigger] s[i]) by {
            assert(s[i] == rest[i - 16]);
        }
    }
}

/// A staging directory is the launcher's own if it lies beside it and bears its mark.
pub proof fn lemma_stage_owner(inside: bool, owner: Seq<u8>)
    ensures
        install::owned_stage(inside, owner) <==> owner == text::utf8("t7patch-updater-v1"@)
            && inside,
{
}

/// A plain file of up to 32 MiB can be backed up.
pub proof fn lemma_backed_up(plain: bool, length: u64)
    ensures
        install::replaceable_file(plain, length) <==> plain && length <= 33_554_432,
{
}

/// A backup of `name`, with a digest of the right length and a size of up to 32 MiB.
pub open spec fn is_backup(e: Entry, name: Seq<char>) -> bool {
    e.name@ == name && e.size <= 33_554_432 && text::utf8(e.sha256@).len() == 64
}

/// A journal leads back if and only if it has format 1 and describes backups of exactly the
/// program and the library, in either order.
pub proof fn lemma_journals(j: Journal)
    ensures
        install::journal_ok(j) <==> {
            &&& j.schema == 1
            &&& j.originals@.len() == 2
            &&& (is_backup(j.originals@[0], "t7patch.exe"@) && is_backup(
                j.originals@[1],
                "t7patch.dll"@,
            )) || (is_backup(j.originals@[0], "t7patch.dll"@) && is_backup(
                j.originals@[1],
                "t7patch.exe"@,
            ))
        },
{
    reveal_with_fuel(install::usable_originals, 3);
    reveal_strlit("t7patch.exe");
    reveal_strlit("t7patch.dll");
    assert("t7patch.exe"@[8] != "t7patch.dll"@[8]);
}

/// A journal of up to 1 MiB that could be decoded, leads back and names a staging directory is
/// used as it is; no other is.
pub proof fn lemma_used_journals(length: u64, decoded: Result<Journal, String>)
    ensures
        install::journal_of(length, decoded) is Ok <==> {
            &&& length <= 1_048_576
            &&& decoded is Ok
            &&& install::journal_ok(decoded->Ok_0)
            &&& install::stage_name_ok(text::utf8(decoded->Ok_0.stage@))
        },
        install::journal_of(length, decoded) is Ok ==> install::journal_of(length, decoded)->Ok_0
            == decoded->Ok_0,
        length > 1_048_576 ==> install::journal_of(length, decoded)->Err_0
            == "Invalid update journal size"@,
        length <= 1_048_576 && decoded is Err ==> install::journal_of(length, decoded)->Err_0
            == "Cannot recover update journal: "@ + decoded->Err_0@,
{
}

/// The step that is reached if `n` steps from `step` on succeed.
pub open spec fn succeeded(step: Step, n: nat) -> Step
    decreases n,
{
    if n == 0 {
        step
    } else {
        install::step_after(succeeded(step, (n - 1) as nat), true)
    }
}

/// An installation in which nothing fails: both files are backed up before the journal is
/// published, and both replaced and verified before it is removed.
pub proof fn lemma_installed()
    ensures
        ({
            let path = seq![
                Step::CheckJournal,
                Step::LoadManifest,
                Step::VerifyStaged,
                Step::BackUp { index: 0 },
                Step::BackUp { index: 1 },
                Step::WriteJournal,
                Step::PublishJournal,
                Step::Replace { index: 0 },
                Step::Replace { index: 1 },
                Step::VerifyInstalled,
                Step::RemoveJournal,
                Step::MarkComplete,
                Step::Committed,
            ];
            forall|n: int|
                0 <= n < 13 ==> #[trigger] path[n] == succeeded(Step::CheckJournal, n as nat)
        }),
{
    reveal_with_fuel(succeeded, 14);
    let s = Step::CheckJournal;
    assert(succeeded(s, 1) == Step::LoadManifest);
    assert(succeeded(s, 2) == Step::VerifyStaged);
    assert(succeeded(s, 3) == Step::BackUp { index: 0 });
    assert(succeeded(s, 4) == Step::BackUp { index: 1 });
    assert(succeeded(s, 5) == Step::WriteJournal);
    assert(succeeded(s, 6) == Step::PublishJournal);
    assert(succeeded(s, 7) == Step::Replace { index: 0 });
    assert(succeeded(s, 8) == Step::Replace { index: 1 });
    assert(succeeded(s, 9) == Step::VerifyInstalled);
    assert(succeeded(s, 10) == Step::RemoveJournal);
    assert(succeeded(s, 11) == Step::MarkComplete);
    assert(succeeded(s, 12) == Step::Committed);
}

/// A recovery in which nothing fails, of files that are the old ones already: both backups are
/// validated before either file is looked at, and both files before the journal goes.
pub proof fn lemma_recovered()
    ensures
        ({
            let path = seq![
                Step::LoadJournal,
                Step::ValidateBackup { index: 0 },
                Step::ValidateBackup { index: 1 },
                Step::CheckTarget { index: 0 },
                Step::CheckTarget { index: 1 },
                Step::DropJournal,
                Step::MarkRestored,
                Step::Restored,
            ];
            forall|n: int|
                0 <= n < 8 ==> #[trigger] path[n] == succeeded(Step::LoadJournal, n as nat)
        }),
        install::step_after(Step::Restore { index: 0 }, true) == (Step::CheckTarget { index: 1 }),
        install::step_after(Step::Restore { index: 1 }, true) == Step::DropJournal,
{
    reveal_with_fuel(succeeded, 9);
    let s = Step::LoadJournal;
    assert(succeeded(s, 1) == Step::ValidateBackup { index: 0 });
    assert(succeeded(s, 2) == Step::ValidateBackup { index: 1 });
    assert(succeeded(s, 3) == Step::CheckTarget { index: 0 });
    assert(succeeded(s, 4) == Step::CheckTarget { index: 1 });
    assert(succeeded(s, 5) == Step::DropJournal);
    assert(succeeded(s, 6) == Step::MarkRestored);
    assert(succeeded(s, 7) == Step::Restored);
}

/// What fails before the journal is published changes nothing. What fails behind that is undone,
/// and what fails there leaves the journal for another time. A file that is not the old one is
/// restored.
pub proof fn lemma_failures(step: Step, index: usize)
    ensures
        step == Step::CheckJournal || step == Step::LoadManifest || step == Step::VerifyStaged || step
            is BackUp || step == Step::WriteJournal || step == Step::PublishJournal
            ==> install::step_after(step, false) == Step::Rejected,
        step is Replace || step == Step::VerifyInstalled || step == Step::RemoveJournal
            ==> install::step_after(step, false) == Step::LoadJournal,
        step == Step::LoadJournal || step is ValidateBackup || step is Restore || step
            == Step::DropJournal ==> install::step_after(step, false) == Step::Interrupted,
        install::step_after(Step::CheckTarget { index }, false) == (Step::Restore { index }),
        install::step_after(Step::MarkComplete, false) == Step::Committed,
        install::step_after(Step::MarkRestored, false) == Step::Restored,
{
}

/// An end is an end.
pub proof fn lemma_ends(step: Step, ok: bool)
    ensures
        step == Step::Committed || step == Step::Rejected || step == Step::Restored || step
            == Step::Interrupted <==> install::step_after(step, ok) == step,
{
}

/// Which failure a message belongs to.
pub proof fn lemma_whose_failure(step: Step)
    ensures
        install::in_recovery(step) <==> install::step_after(step, false) == Step::Interrupted && step
            != Step::Interrupted,
        install::in_installation(step) <==> (install::step_after(step, false) == Step::Rejected
            || install::step_after(step, false) == Step::LoadJournal) && step != Step::Rejected,
{
}

/// A helper goes on if and only if the launcher is known to have ended: no process has its number,
/// the one that has it was made at another time, or it has exited.
pub proof fn lemma_launcher_ended(started: u64, created: u64, exited: bool)
    ensures
        install::ended_of(started, Parent::Gone) is Ok,
        install::ended_of(started, Parent::Unknown) is Err,
        install::ended_of(started, Parent::Found { created, exited }) is Ok <==> exited || started
            != created,
{
}

/// A helper is asked with six arguments, of which the third is a process number and the fourth a
/// time; it recovers if and only if the second says so.
pub proof fn lemma_helper_arguments(args: Seq<Option<String>>)
    ensures
        install::helper_request_of(args) is Ok <==> {
            &&& args.len() == 6
            &&& args[2] is Some
            &&& words::unsigned64(text::utf8(args[2]->Some_0@)) is Some
            &&& words::unsigned64(text::utf8(args[2]->Some_0@))->Some_0 < 0x1_0000_0000
            &&& args[3] is Some
            &&& words::unsigned64(text::utf8(args[3]->Some_0@)) is Some
        },
        install::helper_request_of(args) is Ok ==> {
            let request = install::helper_request_of(args)->Ok_0;
            &&& request.parent as int == words::unsigned64(text::utf8(args[2]->Some_0@))->Some_0 as u32
            &&& request.created as int == words::unsigned64(
                text::utf8(args[3]->Some_0@),
            )->Some_0 as u64
            &&& request.recovery <==> args[1] is Some && args[1]->Some_0@ == "--recover-update"@
        },
{
}

/// Helpers are the files whose name starts so.
pub proof fn lemma_helpers(name: &str)
    ensures
        install::is_helper_of(name) <==> text::utf8(name@).len() >= 7 && text::utf8(name@).take(7)
            == seq!['h' as u8, 'e' as u8, 'l' as u8, 'p' as u8, 'e' as u8, 'r' as u8, '-' as u8],
{
    reveal_strlit("helper-");
    text::lemma_utf8_of_ascii("helper-"@);
    let word = seq!['h' as u8, 'e' as u8, 'l' as u8, 'p' as u8, 'e' as u8, 'r' as u8, '-' as u8];
    let bytes = text::utf8("helper-"@);
    assert(bytes =~= word);
}

} // verus!
