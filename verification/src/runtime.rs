//! The life of the patch inside the game: when it is installed, in which order, and how it is
//! taken back.
use crate::hashing;
use crate::hashing::canon_hash;
use crate::launcher_api;
use crate::text;
use vstd::prelude::*;

verus! {

/// What has become of the one attempt to install that a process has.
#[derive(Debug)]
pub struct Lifecycle {
    pub attempted: bool,
    pub active: bool,
    pub last_error: String,
}

/// The answer to a request to install.
#[derive(Debug)]
pub enum Decision {
    /// The patch is active; only its configuration path changes.
    Active { text: &'static str },
    /// Nothing is done.
    Refuse { status: u32, message: String },
    /// The attempt is made.
    Install,
}

pub open spec fn active_text(debug: bool) -> Seq<char> {
    if debug {
        "Patch active (Debug DLL; rebuild with --release)"@
    } else {
        "Patch active"@
    }
}

/// What the launcher shows for an active patch.
pub fn active_message(debug: bool) -> (r: &'static str)
    ensures
        r@ == active_text(debug),
{
    if debug {
        "Patch active (Debug DLL; rebuild with --release)"
    } else {
        "Patch active"
    }
}

/// The status and message with which a request is refused, `None` if it is not.
pub open spec fn refusal(l: Lifecycle, known_build: bool, ready: bool) -> Option<(u32, Seq<char>)> {
    if l.attempted {
        if l.last_error@.len() == 0 {
            Some((launcher_api::DEACTIVATED, "Patch deactivated. Restart BO3 to install again."@))
        } else {
            Some((launcher_api::FAILED, l.last_error@))
        }
    } else if !known_build {
        Some((launcher_api::UNSUPPORTED, "Unsupported BO3 executable"@))
    } else if !ready {
        Some((launcher_api::WAITING, "Waiting for game initialization..."@))
    } else {
        None
    }
}

impl Default for Lifecycle {
    fn default() -> (r: Self)
        ensures
            !r.attempted,
            !r.active,
            r.last_error@.len() == 0,
    {
        Lifecycle { attempted: false, active: false, last_error: String::new() }
    }
}

/// The answer to a request to install.
pub open spec fn decided(
    l: Lifecycle,
    known_build: bool,
    ready: bool,
    debug: bool,
    r: Decision,
) -> bool {
    if l.active {
        r matches Decision::Active { text } && text@ == active_text(debug)
    } else {
        match refusal(l, known_build, ready) {
            Some((code, text)) => r matches Decision::Refuse { status, message } && status
                == code && message@ == text,
            None => r is Install,
        }
    }
}

/// An attempt has begun.
pub open spec fn begun(before: Lifecycle, after: Lifecycle) -> bool {
    &&& after.attempted
    &&& after.active == before.active
    &&& after.last_error@ == before.last_error@
}

/// An attempt has ended, and the launcher is answered.
pub open spec fn finished(
    before: Lifecycle,
    after: Lifecycle,
    result: Result<(), String>,
    debug: bool,
    r: (u32, String),
) -> bool {
    &&& after.attempted == before.attempted
    &&& match result {
        Ok(_) => {
            &&& after.active
            &&& after.last_error@ == before.last_error@
            &&& r.0 == launcher_api::ACTIVE
            &&& r.1@ == active_text(debug)
        },
        Err(error) => {
            &&& !after.active
            &&& after.last_error@ == error@
            &&& r.0 == launcher_api::FAILED
            &&& r.1@ == error@
        },
    }
}

/// An active patch has ended.
pub open spec fn uninstalled(before: Lifecycle, after: Lifecycle, was_active: bool) -> bool {
    &&& was_active == before.active
    &&& !after.active
    &&& after.attempted == before.attempted
    &&& after.last_error@ == before.last_error@
}

impl Lifecycle {
    /// Decides on a request to install. A game that is not ready yet does not use up the
    /// attempt.
    pub fn install_checked(&self, known_build: bool, ready: bool, debug: bool) -> (r: Decision)
        ensures
            decided(*self, known_build, ready, debug, r),
    {
        if self.active {
            return Decision::Active { text: active_message(debug) };
        }
        if self.attempted {
            if self.last_error.as_str().is_empty() {
                proof {
                    vstd::utf8::encode_utf8_decode_utf8(self.last_error@);
                }
                return Decision::Refuse {
                    status: launcher_api::DEACTIVATED,
                    message: "Patch deactivated. Restart BO3 to install again.".to_owned(),
                };
            }
            return Decision::Refuse {
                status: launcher_api::FAILED,
                message: self.last_error.clone(),
            };
        }
        if !known_build {
            return Decision::Refuse {
                status: launcher_api::UNSUPPORTED,
                message: "Unsupported BO3 executable".to_owned(),
            };
        }
        if !ready {
            return Decision::Refuse {
                status: launcher_api::WAITING,
                message: "Waiting for game initialization...".to_owned(),
            };
        }
        Decision::Install
    }

    /// Uses up the attempt.
    pub fn begin(&mut self)
        ensures
            begun(*old(self), *final(self)),
    {
        self.attempted = true;
    }

    /// Takes the outcome of the attempt and gives the answer to the launcher.
    pub fn finish(&mut self, result: Result<(), String>, debug: bool) -> (r: (u32, String))
        ensures
            finished(*old(self), *final(self), result, debug, r),
    {
        match result {
            Ok(()) => {
                self.active = true;
                (launcher_api::ACTIVE, active_message(debug).to_owned())
            },
            Err(error) => {
                self.active = false;
                self.last_error = error.clone();
                (launcher_api::FAILED, error)
            },
        }
    }

    /// Ends an active patch and says whether there was one to end.
    pub fn uninstall(&mut self) -> (was_active: bool)
        ensures
            uninstalled(*old(self), *final(self), was_active),
    {
        let was_active: bool = self.active;
        self.active = false;
        was_active
    }
}

/// An attempt is made at most once: after it, whatever came of it, only a running patch or a
/// refusal is left.
pub proof fn lemma_one_attempt(l: Lifecycle, known_build: bool, ready: bool)
    requires
        l.attempted,
    ensures
        refusal(l, known_build, ready) is Some,
        refusal(l, known_build, ready)->Some_0.0 == launcher_api::DEACTIVATED || refusal(
            l,
            known_build,
            ready,
        )->Some_0.0 == launcher_api::FAILED,
{
}

/// The steps of an installation. Everything is prepared before the first byte of the game is
/// changed, apart from its integrity checks and the exception handler.
#[derive(Clone, Copy, Debug, PartialEq, Eq, Structural)]
pub enum Step {
    CheckBuild,
    OpenJournal,
    StartProfiler,
    PinModule,
    PatchIntegrity,
    ValidateReader,
    InitializeHooks,
    InstallHandler,
    CreateHooks,
    PrepareBytes,
    PrepareSteam,
    PrepareSettings,
    ApplyPatch { index: usize },
    EnableHook { index: usize },
    RaisePriority,
    ApplySettings,
    StartWorker,
    StartDiagnostics,
    Active,
}

/// The step after `step`, once `patches` patches and `hooks` hooks are prepared.
pub open spec fn step_after(step: Step, patches: usize, hooks: usize) -> Step {
    match step {
        Step::CheckBuild => Step::OpenJournal,
        Step::OpenJournal => Step::StartProfiler,
        Step::StartProfiler => Step::PinModule,
        Step::PinModule => Step::PatchIntegrity,
        Step::PatchIntegrity => Step::ValidateReader,
        Step::ValidateReader => Step::InitializeHooks,
        Step::InitializeHooks => Step::InstallHandler,
        Step::InstallHandler => Step::CreateHooks,
        Step::CreateHooks => Step::PrepareBytes,
        Step::PrepareBytes => Step::PrepareSteam,
        Step::PrepareSteam => Step::PrepareSettings,
        Step::PrepareSettings => patch_step(0, patches, hooks),
        Step::ApplyPatch { index } => patch_step(index + 1, patches, hooks),
        Step::EnableHook { index } => hook_step(index + 1, hooks),
        Step::RaisePriority => Step::ApplySettings,
        Step::ApplySettings => Step::StartWorker,
        Step::StartWorker => Step::StartDiagnostics,
        Step::StartDiagnostics => Step::Active,
        Step::Active => Step::Active,
    }
}

pub open spec fn patch_step(index: int, patches: usize, hooks: usize) -> Step {
    if index < patches {
        Step::ApplyPatch { index: index as usize }
    } else {
        hook_step(0, hooks)
    }
}

pub open spec fn hook_step(index: int, hooks: usize) -> Step {
    if index < hooks {
        Step::EnableHook { index: index as usize }
    } else {
        Step::RaisePriority
    }
}

/// Whether a failure of `step` ends the installation. Without a journal or a profile the patch
/// works all the same.
pub open spec fn required(step: Step) -> bool {
    !(step is OpenJournal || step is StartProfiler || step is RaisePriority || step is ApplySettings
        || step is StartDiagnostics)
}

/// An installation under way.
#[derive(Debug)]
pub struct Installation {
    pub step: Step,
    pub patches: usize,
    pub hooks: usize,
    pub enabled: usize,
}

/// A step of an installation has ended.
pub open spec fn stepped(
    before: Installation,
    after: Installation,
    ok: bool,
    goes_on: bool,
) -> bool {
    &&& goes_on == (ok || !required(before.step))
    &&& after.patches == before.patches
    &&& after.hooks == before.hooks
    &&& if goes_on {
        &&& after.step == step_after(
            before.step,
            before.patches,
            before.hooks,
        )
        &&& after.enabled == (if before.step is EnableHook {
            before.enabled + 1
        } else {
            before.enabled as int
        })
    } else {
        after.step == before.step && after.enabled == before.enabled
    }
}

impl Installation {
    /// Enabled hooks are counted, and steps on a patch or a hook name one that there is.
    pub open spec fn wf(self) -> bool {
        &&& self.enabled <= self.hooks
        &&& match self.step {
            Step::ApplyPatch { index } => index < self.patches && self.enabled == 0,
            Step::EnableHook { index } => index < self.hooks && self.enabled == index,
            Step::RaisePriority => self.enabled == self.hooks,
            Step::ApplySettings => self.enabled == self.hooks,
            Step::StartWorker => self.enabled == self.hooks,
            Step::StartDiagnostics => self.enabled == self.hooks,
            Step::Active => self.enabled == self.hooks,
            _ => self.enabled == 0,
        }
    }

    pub fn new() -> (r: Self)
        ensures
            r.wf(),
            r.step == Step::CheckBuild,
            r.patches == 0,
            r.hooks == 0,
            r.enabled == 0,
    {
        Installation { step: Step::CheckBuild, patches: 0, hooks: 0, enabled: 0 }
    }

    /// Takes how many patches and hooks were prepared.
    pub fn prepared(&mut self, patches: usize, hooks: usize)
        requires
            old(self).wf(),
            old(self).step == Step::PrepareSettings,
        ensures
            final(self).wf(),
            final(self).step == old(self).step,
            final(self).enabled == 0,
            final(self).patches == patches,
            final(self).hooks == hooks,
    {
        self.patches = patches;
        self.hooks = hooks;
    }

    /// Takes the outcome of the current step; `false` ends the installation.
    pub fn done(&mut self, ok: bool) -> (goes_on: bool)
        requires
            old(self).wf(),
        ensures
            final(self).wf(),
            stepped(*old(self), *final(self), ok, goes_on),
    {
        let optional: bool = match self.step {
            Step::OpenJournal => true,
            Step::StartProfiler => true,
            Step::RaisePriority => true,
            Step::ApplySettings => true,
            Step::StartDiagnostics => true,
            _ => false,
        };
        if !ok && !optional {
            return false;
        }
        self.step = match self.step {
            Step::CheckBuild => Step::OpenJournal,
            Step::OpenJournal => Step::StartProfiler,
            Step::StartProfiler => Step::PinModule,
            Step::PinModule => Step::PatchIntegrity,
            Step::PatchIntegrity => Step::ValidateReader,
            Step::ValidateReader => Step::InitializeHooks,
            Step::InitializeHooks => Step::InstallHandler,
            Step::InstallHandler => Step::CreateHooks,
            Step::CreateHooks => Step::PrepareBytes,
            Step::PrepareBytes => Step::PrepareSteam,
            Step::PrepareSteam => Step::PrepareSettings,
            Step::PrepareSettings => if self.patches > 0 {
                Step::ApplyPatch { index: 0 }
            } else if self.hooks > 0 {
                Step::EnableHook { index: 0 }
            } else {
                Step::RaisePriority
            },
            Step::ApplyPatch { index } => if index + 1 < self.patches {
                Step::ApplyPatch { index: index + 1 }
            } else if self.hooks > 0 {
                Step::EnableHook { index: 0 }
            } else {
                Step::RaisePriority
            },
            Step::EnableHook { index } => {
                self.enabled = self.enabled + 1;
                if index + 1 < self.hooks {
                    Step::EnableHook { index: index + 1 }
                } else {
                    Step::RaisePriority
                }
            },
            Step::RaisePriority => Step::ApplySettings,
            Step::ApplySettings => Step::StartWorker,
            Step::StartWorker => Step::StartDiagnostics,
            Step::StartDiagnostics => Step::Active,
            Step::Active => Step::Active,
        };
        true
    }
}

/// How far along a step is.
pub open spec fn rank(step: Step) -> int {
    match step {
        Step::CheckBuild => 0,
        Step::OpenJournal => 1,
        Step::StartProfiler => 2,
        Step::PinModule => 3,
        Step::PatchIntegrity => 4,
        Step::ValidateReader => 5,
        Step::InitializeHooks => 6,
        Step::InstallHandler => 7,
        Step::CreateHooks => 8,
        Step::PrepareBytes => 9,
        Step::PrepareSteam => 10,
        Step::PrepareSettings => 11,
        Step::ApplyPatch { index } => 12,
        Step::EnableHook { index } => 13,
        Step::RaisePriority => 14,
        Step::ApplySettings => 15,
        Step::StartWorker => 16,
        Step::StartDiagnostics => 17,
        Step::Active => 18,
    }
}

/// Steps only follow one another: no hook is enabled before every patch was applied, and the
/// patch is active only behind every other step.
pub proof fn lemma_steps_in_order(step: Step, patches: usize, hooks: usize)
    ensures
        rank(step) <= rank(step_after(step, patches, hooks)),
        rank(step_after(step, patches, hooks)) >= 13 ==> rank(step) >= 13 || (step
            == Step::PrepareSettings && patches == 0) || (step matches Step::ApplyPatch { index }
            && index + 1 >= patches),
        step_after(step, patches, hooks) == Step::Active ==> step == Step::StartDiagnostics || step
            == Step::Active,
{
}

/// A step of taking the patch back.
#[derive(Clone, Copy, Debug, PartialEq, Eq, Structural)]
pub enum Undo {
    DisableHook { index: usize },
    RestorePatch { index: usize },
    /// Forget the password and the game's readiness.
    ForgetSettings,
    DeactivateHandler,
    RestoreIntegrity,
    RestorePriority,
    Done { status: u32 },
}

/// Taking the patch back: `rollback` after a failed installation.
#[derive(Debug)]
pub struct Deactivation {
    pub undo: Undo,
    pub restored: bool,
    pub rollback: bool,
}

pub open spec fn undo_hooks(left: usize, patches: usize) -> Undo {
    if left > 0 {
        Undo::DisableHook { index: (left - 1) as usize }
    } else {
        undo_patches(patches)
    }
}

pub open spec fn undo_patches(left: usize) -> Undo {
    if left > 0 {
        Undo::RestorePatch { index: (left - 1) as usize }
    } else {
        Undo::ForgetSettings
    }
}

/// What follows: hooks and patches from the last to the first, then the handler only if nothing
/// of that failed, and the integrity checks only if nothing failed and the installation did.
pub open spec fn undo_after(undo: Undo, restored: bool, rollback: bool, patches: usize) -> Undo {
    match undo {
        Undo::DisableHook { index } => undo_hooks(index, patches),
        Undo::RestorePatch { index } => undo_patches(index),
        Undo::ForgetSettings => if restored {
            Undo::DeactivateHandler
        } else {
            Undo::RestorePriority
        },
        Undo::DeactivateHandler => if rollback {
            Undo::RestoreIntegrity
        } else {
            Undo::RestorePriority
        },
        Undo::RestoreIntegrity => Undo::RestorePriority,
        Undo::RestorePriority => Undo::Done {
            status: if rollback {
                launcher_api::FAILED
            } else {
                launcher_api::DEACTIVATED
            },
        },
        Undo::Done { status } => undo,
    }
}

/// A step of taking the patch back has ended.
pub open spec fn undone(
    before: Deactivation,
    after: Deactivation,
    ok: bool,
    patches: usize,
) -> bool {
    &&& after.rollback == before.rollback
    &&& after.restored == (before.restored && (ok || !(before.undo is DisableHook
        || before.undo is RestorePatch)))
    &&& after.undo == undo_after(
        before.undo,
        after.restored,
        before.rollback,
        patches,
    )
}

impl Deactivation {
    pub fn new(hooks: usize, patches: usize, rollback: bool) -> (r: Self)
        ensures
            r.undo == undo_hooks(hooks, patches),
            r.restored,
            r.rollback == rollback,
    {
        let undo: Undo = if hooks > 0 {
            Undo::DisableHook { index: hooks - 1 }
        } else if patches > 0 {
            Undo::RestorePatch { index: patches - 1 }
        } else {
            Undo::ForgetSettings
        };
        Deactivation { undo, restored: true, rollback }
    }

    /// Takes the outcome of the current step. A failure is remembered, and the rest goes on.
    pub fn done(&mut self, ok: bool, patches: usize)
        ensures
            undone(*old(self), *final(self), ok, patches),
    {
        match self.undo {
            Undo::DisableHook { index } => {
                if !ok {
                    self.restored = false;
                }
                self.undo = if index > 0 {
                    Undo::DisableHook { index: index - 1 }
                } else if patches > 0 {
                    Undo::RestorePatch { index: patches - 1 }
                } else {
                    Undo::ForgetSettings
                };
            },
            Undo::RestorePatch { index } => {
                if !ok {
                    self.restored = false;
                }
                self.undo = if index > 0 {
                    Undo::RestorePatch { index: index - 1 }
                } else {
                    Undo::ForgetSettings
                };
            },
            Undo::ForgetSettings => {
                self.undo = if self.restored {
                    Undo::DeactivateHandler
                } else {
                    Undo::RestorePriority
                };
            },
            Undo::DeactivateHandler => {
                self.undo = if self.rollback {
                    Undo::RestoreIntegrity
                } else {
                    Undo::RestorePriority
                };
            },
            Undo::RestoreIntegrity => {
                self.undo = Undo::RestorePriority;
            },
            Undo::RestorePriority => {
                self.undo = Undo::Done {
                    status: if self.rollback {
                        launcher_api::FAILED
                    } else {
                        launcher_api::DEACTIVATED
                    },
                };
            },
            Undo::Done { .. } => {},
        }
    }
}

/// The integrity checks of the game come back only when an installation failed and everything
/// else could be restored; while a hook or a patch is still in place the handler stays active.
pub proof fn lemma_undo_guards(undo: Undo, restored: bool, rollback: bool, patches: usize)
    requires
        !(undo is Done),
        !(undo is DeactivateHandler),
    ensures
        !restored ==> !(undo_after(undo, restored, rollback, patches) is DeactivateHandler),
        !(undo_after(undo, restored, rollback, patches) is RestoreIntegrity),
        undo_after(Undo::DeactivateHandler, restored, rollback, patches) is RestoreIntegrity
            ==> rollback,
{
}

/// The words that are accepted.
pub open spec fn accepts_of(word: &[u8]) -> bool {
    hashing::canon_hash_of(word@) == hashing::canon_hash_of(text::utf8("serious_anticrash_2023"@))
}

/// Whether a word given to the patch asks for its installation, as its hash tells.
pub fn accepts(word: &[u8]) -> (r: bool)
    ensures
        r == accepts_of(word),
{
    canon_hash(word) == canon_hash("serious_anticrash_2023".as_bytes())
}

} // verus!
