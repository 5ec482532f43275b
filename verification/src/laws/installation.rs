//! How the patch is installed in the game and taken back, step by step.
use crate::arxan;
use crate::arxan::{IntegrityStep, Upkeep, UpkeepStep};
use crate::hashing;
use crate::launcher_api;
use crate::laws::actions;
use crate::runtime;
use crate::runtime::{Lifecycle, Step, Undo};
use crate::text;
use vstd::prelude::*;

verus! {

/// The three integrity checks, what takes the place of each, and how often each occurs.
pub proof fn lemma_checks()
    ensures
        arxan::pattern_of(0) == seq![139u8, 12, 139, 51, 12, 130],
        arxan::pattern_of(1) == seq![139u8, 12, 139, 247, 217, 3, 12, 130],
        arxan::pattern_of(2) == seq![139u8, 4, 130, 139, 20, 139, 59, 194],
        arxan::replacement_of(0) == seq![72u8, 49, 201, 144, 144, 144],
        arxan::replacement_of(1) == seq![72u8, 49, 201, 144, 144, 144, 144, 144],
        arxan::replacement_of(2) == seq![72u8, 49, 192, 72, 49, 210],
        arxan::count_of(0) == 259,
        arxan::count_of(1) == 259,
        arxan::count_of(2) == 847,
{
}

/// The replacement of the second check starts with that of the first, so that in a patched game
/// the first occurs where either check was. A game is patched from these counts on.
pub proof fn lemma_patched_counts(first: usize, second: usize, third: usize)
    ensures
        arxan::replacement_of(1).take(6) == arxan::replacement_of(0),
        arxan::already_patched_of(first, second, third) <==> first >= arxan::count_of(0)
            + arxan::count_of(1) && second >= arxan::count_of(1) && third >= arxan::count_of(2),
{
    assert(arxan::replacement_of(1).take(6) =~= arxan::replacement_of(0));
}

/// `p` stands in `s` at `i`.
pub open spec fn stands_at(s: Seq<u8>, p: Seq<u8>, i: int) -> bool {
    &&& 0 <= i
    &&& i + p.len() <= s.len()
    &&& forall|j: int| 0 <= j < p.len() ==> s[i + j] == #[trigger] p[j]
}

proof fn lemma_scanned_below(s: Seq<u8>, p: Seq<u8>, n: int, i: int)
    requires
        0 <= n,
    ensures
        arxan::occurrences(s, p, n).contains(i) <==> i < n && arxan::occurs(s, p, i),
        forall|j: int, k: int|
            0 <= j < k < arxan::occurrences(s, p, n).len() ==> #[trigger] arxan::occurrences(
                s,
                p,
                n,
            )[j] < #[trigger] arxan::occurrences(s, p, n)[k],
        forall|j: int|
            0 <= j < arxan::occurrences(s, p, n).len() ==> #[trigger] arxan::occurrences(s, p, n)[j]
                < n,
    decreases n,
{
    if n > 0 {
        lemma_scanned_below(s, p, n - 1, i);
        let before = arxan::occurrences(s, p, n - 1);
        let now = arxan::occurrences(s, p, n);
        if arxan::occurs(s, p, n - 1) {
            assert(now == before.push(n - 1));
            if before.contains(i) {
                let k = choose|k: int| 0 <= k < before.len() && before[k] == i;
                assert(now[k] == i);
            }
            assert(now[before.len() as int] == n - 1);
            if now.contains(i) && i != n - 1 {
                let k = choose|k: int| 0 <= k < now.len() && now[k] == i;
                assert(before[k] == i);
            }
        }
    }
}

/// A scan finds every place at which the pattern stands, those that overlap too, once each and in
/// their order, and no other.
pub proof fn lemma_scan(s: Seq<u8>, p: Seq<u8>, i: int)
    requires
        p.len() > 0,
    ensures
        arxan::occurrences(s, p, s.len() as int).contains(i) <==> stands_at(s, p, i),
        forall|j: int, k: int|
            0 <= j < k < arxan::occurrences(s, p, s.len() as int).len()
                ==> #[trigger] arxan::occurrences(s, p, s.len() as int)[j]
                < #[trigger] arxan::occurrences(s, p, s.len() as int)[k],
{
    lemma_scanned_below(s, p, s.len() as int, i);
    if arxan::occurs(s, p, i) {
        assert forall|j: int| 0 <= j < p.len() implies s[i + j] == #[trigger] p[j] by {
            assert(s.subrange(i, i + p.len())[j] == s[i + j]);
        }
    }
    if stands_at(s, p, i) {
        assert(s.subrange(i, i + p.len()) =~= p);
    }
}

/// Of a section of code the part within the image is searched; other sections are not.
pub proof fn lemma_searched(flags: u32, rva: u32, size: u32, image_size: u32)
    ensures
        arxan::code_range_of(flags, rva, size, image_size) is Some <==> (flags / 0x2000_0000) % 2
            == 1 && rva < image_size,
        arxan::code_range_of(flags, rva, size, image_size) is Some ==> {
            let (from, to) = arxan::code_range_of(flags, rva, size, image_size)->Some_0;
            from == rva && to == (if rva + size <= image_size {
                rva + size
            } else {
                image_size as int
            })
        },
{
    assert((flags & 0x20000000 == 0) == ((flags / 0x2000_0000) % 2 == 0)) by (bit_vector);
}

/// A patched place is left alone if it holds its patch, patched anew if it does not, and tried
/// again if it cannot be read. Nothing is looked at before the game gave its sign.
pub proof fn lemma_upkeep(current: &[u8], replacement: &[u8], waiting: bool, signal: u64)
    ensures
        arxan::upkeep_of(Some(current), replacement) == Upkeep::Keep <==> current@ == replacement@,
        arxan::upkeep_of(Some(current), replacement) == Upkeep::Reapply <==> current@
            != replacement@,
        arxan::upkeep_of(None, replacement) == Upkeep::Stop,
        arxan::upkeep_due_of(waiting, Some(signal)) <==> waiting && signal > 0,
        !arxan::upkeep_due_of(waiting, None),
{
}

/// Maintenance is over once each of the places holds its patch, and before that only where one
/// does not.
pub proof fn lemma_upkeep_ends(patches: usize, outcomes: Seq<(Upkeep, bool)>)
    requires
        outcomes.len() == patches,
    ensures
        arxan::upkeep_steps(patches, outcomes) == UpkeepStep::Finished <==> forall|i: int|
            0 <= i < patches ==> (#[trigger] outcomes[i]).0 == Upkeep::Keep || (outcomes[i].0
                == Upkeep::Reapply && outcomes[i].1),
{
    arxan::lemma_upkeep_is_complete(patches, outcomes);
}

/// If nothing fails, one patch after the other is applied, and with the last all are installed.
pub proof fn lemma_integrity_installs(patches: usize, outcomes: Seq<bool>)
    requires
        patches > 0,
        outcomes.len() <= patches,
        forall|i: int| 0 <= i < outcomes.len() ==> #[trigger] outcomes[i],
    ensures
        arxan::integrity_steps(IntegrityStep::Apply { index: 0 }, patches, outcomes) == (
        if outcomes.len() < patches {
            IntegrityStep::Apply { index: outcomes.len() as usize }
        } else {
            IntegrityStep::Installed
        }),
    decreases outcomes.len(),
{
    if outcomes.len() > 0 {
        lemma_integrity_installs(patches, outcomes.drop_last());
        assert(outcomes[outcomes.len() - 1]);
    }
}

/// A patch that cannot be applied is the first to be taken back.
pub proof fn lemma_integrity_fails(index: usize, patches: usize)
    ensures
        arxan::integrity_after(IntegrityStep::Apply { index }, patches, false) == (
        IntegrityStep::Restore { index }),
        arxan::integrity_after(IntegrityStep::Installed, patches, false)
            == IntegrityStep::Installed,
        arxan::integrity_after(IntegrityStep::Failed, patches, true) == IntegrityStep::Failed,
{
}

/// What the answers to the launcher mean by number.
pub proof fn lemma_answers()
    ensures
        launcher_api::WAITING == 1,
        launcher_api::ACTIVE == 2,
        launcher_api::UNSUPPORTED == 3,
        launcher_api::FAILED == 4,
        launcher_api::DEACTIVATED == 5,
        launcher_api::BAD_REQUEST == 6,
{
}

/// The patch is installed if and only if it never was attempted, the build is known and the game
/// is ready; each refusal has its own answer, and a failure is repeated in its own words.
pub proof fn lemma_refusals(l: Lifecycle, known_build: bool, ready: bool)
    ensures
        runtime::refusal(l, known_build, ready) is None <==> !l.attempted && known_build && ready,
        !l.attempted && !known_build ==> runtime::refusal(l, known_build, ready) == Some(
            (3u32, "Unsupported BO3 executable"@),
        ),
        !l.attempted && known_build && !ready ==> runtime::refusal(l, known_build, ready) == Some(
            (1u32, "Waiting for game initialization..."@),
        ),
        l.attempted && l.last_error@.len() > 0 ==> runtime::refusal(l, known_build, ready) == Some(
            (4u32, l.last_error@),
        ),
        l.attempted && l.last_error@.len() == 0 ==> runtime::refusal(l, known_build, ready) == Some(
            (5u32, "Patch deactivated. Restart BO3 to install again."@),
        ),
{
}

/// What the launcher shows of an active patch.
pub proof fn lemma_active_text()
    ensures
        runtime::active_text(false) == "Patch active"@,
        runtime::active_text(true) == "Patch active (Debug DLL; rebuild with --release)"@,
{
}

/// The step at which an installation of `patches` patches and `hooks` hooks is after `n` others.
pub open spec fn step_at(n: nat, patches: usize, hooks: usize) -> Step
    decreases n,
{
    if n == 0 {
        Step::CheckBuild
    } else {
        runtime::step_after(step_at((n - 1) as nat, patches, hooks), patches, hooks)
    }
}

/// Twelve steps prepare everything. Then every patch is applied in its turn, then every hook is
/// enabled in its turn, and four more steps lead to an active patch.
pub proof fn lemma_steps(n: nat, patches: usize, hooks: usize)
    ensures
        n < 12 ==> step_at(n, patches, hooks) == seq![
            Step::CheckBuild,
            Step::OpenJournal,
            Step::StartProfiler,
            Step::PinModule,
            Step::PatchIntegrity,
            Step::ValidateReader,
            Step::InitializeHooks,
            Step::InstallHandler,
            Step::CreateHooks,
            Step::PrepareBytes,
            Step::PrepareSteam,
            Step::PrepareSettings,
        ][n as int],
        12 <= n < 12 + patches ==> step_at(n, patches, hooks) == (Step::ApplyPatch {
            index: (n - 12) as usize,
        }),
        12 + patches <= n < 12 + patches + hooks ==> step_at(n, patches, hooks) == (
        Step::EnableHook { index: (n - 12 - patches) as usize }),
        12 + patches + hooks <= n < 16 + patches + hooks ==> step_at(n, patches, hooks) == seq![
            Step::RaisePriority,
            Step::ApplySettings,
            Step::StartWorker,
            Step::StartDiagnostics,
        ][n - 12 - patches - hooks],
        n >= 16 + patches + hooks ==> step_at(n, patches, hooks) == Step::Active,
    decreases n,
{
    if n > 0 {
        lemma_steps((n - 1) as nat, patches, hooks);
    }
}

/// A failure of any step ends the installation, but for the journal, the profile, the priority, the
/// settings and the diagnostics.
pub proof fn lemma_required(step: Step)
    ensures
        runtime::required(step) <==> step == Step::CheckBuild || step == Step::PinModule || step
            == Step::PatchIntegrity || step == Step::ValidateReader || step == Step::InitializeHooks
            || step == Step::InstallHandler || step == Step::CreateHooks || step
            == Step::PrepareBytes || step == Step::PrepareSteam || step == Step::PrepareSettings
            || step is ApplyPatch || step is EnableHook || step == Step::StartWorker || step
            == Step::Active,
{
}

/// The step of taking back `patches` patches and `hooks` hooks after `n` others, if all could be
/// restored or not.
pub open spec fn undo_at(n: nat, patches: usize, hooks: usize, restored: bool, rollback: bool) -> Undo
    decreases n,
{
    if n == 0 {
        runtime::undo_hooks(hooks, patches)
    } else {
        runtime::undo_after(
            undo_at((n - 1) as nat, patches, hooks, restored, rollback),
            restored,
            rollback,
            patches,
        )
    }
}

/// The hooks are disabled from the last to the first, then the patches are taken back from the last
/// to the first, then the settings are forgotten. The handler goes only if all could be restored,
/// and the integrity checks come back only after that and only if the installation had failed, which
/// is also what the answer then says.
pub proof fn lemma_undo(n: nat, patches: usize, hooks: usize, restored: bool, rollback: bool)
    ensures
        ({
            let undo = undo_at(n, patches, hooks, restored, rollback);
            let rest = if !restored {
                seq![Undo::ForgetSettings, Undo::RestorePriority]
            } else if rollback {
                seq![
                    Undo::ForgetSettings,
                    Undo::DeactivateHandler,
                    Undo::RestoreIntegrity,
                    Undo::RestorePriority,
                ]
            } else {
                seq![Undo::ForgetSettings, Undo::DeactivateHandler, Undo::RestorePriority]
            };
            &&& n < hooks ==> undo == (Undo::DisableHook { index: (hooks - 1 - n) as usize })
            &&& hooks <= n < hooks + patches ==> undo == (Undo::RestorePatch {
                index: (hooks + patches - 1 - n) as usize,
            })
            &&& hooks + patches <= n < hooks + patches + rest.len() ==> undo == rest[n - hooks
                - patches]
            &&& n >= hooks + patches + rest.len() ==> undo == (Undo::Done {
                status: if rollback {
                    4
                } else {
                    5
                },
            })
        }),
    decreases n,
{
    if n > 0 {
        lemma_undo((n - 1) as nat, patches, hooks, restored, rollback);
    }
}

/// The word that asks for an installation is accepted in letters of either case.
pub proof fn lemma_word(word: &[u8])
    requires
        actions::spelt(word@, "serious_anticrash_2023"@),
    ensures
        runtime::accepts_of(word),
{
    reveal_strlit("serious_anticrash_2023");
    let wanted = "serious_anticrash_2023"@;
    text::lemma_utf8_of_ascii(wanted);
    assert forall|i: int| 0 <= i < word@.len() implies text::lower(#[trigger] word@[i])
        == text::lower(text::utf8(wanted)[i]) by {
        assert(text::utf8(wanted)[i] == wanted[i] as u8);
    }
    hashing::lemma_canon_hashes_ignore_case(word@, text::utf8(wanted));
}

} // verus!
