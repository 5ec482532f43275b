//! The launcher: finding the game, loading the patch and following its state.
use crate::text::same_text;
use vstd::prelude::*;

pub mod exports;
pub mod history;
pub mod process;
pub mod ui;
pub mod updater;

verus! {

/// How often the processes are searched for the game.
pub const SCAN_MS: u64 = 1000;

/// What the window shows of the game, and whether the patch is active in it.
#[derive(Clone, Debug)]
pub struct Status {
    pub text: String,
    pub active: bool,
}

impl Default for Status {
    fn default() -> (r: Self)
        ensures
            r.text@ == Seq::<char>::empty(),
            !r.active,
    {
        proof {
            reveal_strlit("");
        }
        assert(""@ =~= Seq::<char>::empty());
        Status { text: "".to_owned(), active: false }
    }
}

/// What the detection does next.
#[derive(Clone, Copy, Debug, PartialEq, Eq, Structural)]
pub enum Work {
    /// Detection is paused and leaves the game alone.
    Rest,
    /// Ask the session for its state.
    Poll,
    /// Search the processes for the game.
    Scan,
    /// Nothing is due.
    Wait,
}

/// What a search for the game leads to.
#[derive(Debug)]
pub enum Found {
    Attach(u32),
    Show(Status),
}

/// The detection of the game: at most one session, and when to search again.
#[derive(Debug)]
pub struct Worker {
    pub attached: bool,
    pub next_scan: u64,
    pub paused: bool,
    pub quiescent: bool,
}

/// What a search leads to.
pub open spec fn search_led_to(
    found: Result<Option<u32>, String>,
    configured: bool,
    r: Found,
) -> bool {
    match found {
        Ok(Some(pid)) => if configured {
            r == Found::Attach(pid)
        } else {
            r matches Found::Show(s) && !s.active && s.text@
                == "Save valid settings before patching."@
        },
        Ok(None) => r matches Found::Show(s) && !s.active && s.text@
            == "No game process found."@,
        Err(error) => r matches Found::Show(s) && !s.active && s.text@ == error@,
    }
}

/// What attaching leads to.
pub open spec fn attaching_led_to(
    before: Worker,
    after: Worker,
    outcome: Result<String, String>,
    r: Status,
) -> bool {
    &&& !r.active
    &&& match outcome {
        Ok(text) => r.text@ == text@ && after == (Worker {
            attached: true,
            ..before
        }),
        Err(error) => r.text@ == error@ && after == before,
    }
}

/// How detection starts.
pub open spec fn starts(enabled: bool, now: u64, r: (Worker, Status)) -> bool {
    &&& r.0 == (Worker { attached: false, next_scan: now, paused: false, quiescent: !enabled })
    &&& r.1.text@ == "No game process found."@
    &&& !r.1.active
}

impl Worker {
    /// Detection that is yet to start; with `enabled` unset it never does, and is at rest.
    pub fn start(enabled: bool, now: u64) -> (r: (Self, Status))
        ensures
            starts(enabled, now, r),
    {
        (
            Worker { attached: false, next_scan: now, paused: false, quiescent: !enabled },
            Status { text: "No game process found.".to_owned(), active: false },
        )
    }

    pub fn pause(&mut self)
        ensures
            *final(self) == (Worker { paused: true, ..*old(self) }),
    {
        self.paused = true;
    }

    /// Lets a paused detection go on. It counts as at work from now on.
    pub fn resume(&mut self)
        ensures
            *final(self) == (Worker { paused: false, quiescent: false, ..*old(self) }),
    {
        self.quiescent = false;
        self.paused = false;
    }

    pub fn is_quiescent(&self) -> (r: bool)
        ensures
            r == self.quiescent,
    {
        self.quiescent
    }

    /// What is due now. `alive` says whether the process of the session still runs.
    pub open spec fn due(self, alive: bool, now: u64) -> Work {
        if self.paused {
            Work::Rest
        } else if self.attached && alive {
            Work::Poll
        } else if now >= self.next_scan {
            Work::Scan
        } else {
            Work::Wait
        }
    }

    /// The state once that was decided: a dead session is dropped, and a search puts the next
    /// one off.
    pub open spec fn after_due(self, alive: bool, now: u64) -> Worker {
        if self.paused {
            Worker { quiescent: true, ..self }
        } else {
            Worker {
                attached: self.attached && alive,
                quiescent: false,
                next_scan: if self.due(alive, now) == Work::Scan {
                    if now + SCAN_MS <= u64::MAX {
                        (now + SCAN_MS) as u64
                    } else {
                        u64::MAX
                    }
                } else {
                    self.next_scan
                },
                ..self
            }
        }
    }

    /// Decides on the next piece of work.
    pub fn next(&mut self, alive: bool, now: u64) -> (r: Work)
        ensures
            r == old(self).due(alive, now),
            *final(self) == old(self).after_due(alive, now),
    {
        if self.paused {
            self.quiescent = true;
            return Work::Rest;
        }
        self.quiescent = false;
        if self.attached && !alive {
            self.attached = false;
        }
        if self.attached {
            return Work::Poll;
        }
        if now >= self.next_scan {
            self.next_scan = if now <= u64::MAX - SCAN_MS {
                now + SCAN_MS
            } else {
                u64::MAX
            };
            return Work::Scan;
        }
        Work::Wait
    }

    /// What a search found: a game is attached to only with valid settings.
    pub fn scanned(&self, found: Result<Option<u32>, String>, configured: bool) -> (r: Found)
        ensures
            search_led_to(found, configured, r),
    {
        match found {
            Ok(Some(pid)) => if configured {
                Found::Attach(pid)
            } else {
                Found::Show(
                    Status {
                        text: "Save valid settings before patching.".to_owned(),
                        active: false,
                    },
                )
            },
            Ok(None) => Found::Show(
                Status { text: "No game process found.".to_owned(), active: false },
            ),
            Err(error) => Found::Show(Status { text: error, active: false }),
        }
    }

    /// Takes the outcome of attaching: the session's first text, or why there is none.
    pub fn attach(&mut self, outcome: Result<String, String>) -> (r: Status)
        ensures
            attaching_led_to(*old(self), *final(self), outcome, r),
    {
        match outcome {
            Ok(text) => {
                self.attached = true;
                Status { text, active: false }
            },
            Err(error) => Status { text: error, active: false },
        }
    }
}

/// Once paused and asked, the detection is at rest, and stays so until it is resumed: it asks
/// for nothing, keeps its session and does not search.
pub proof fn lemma_pause_is_quiet(w: Worker, alive: bool, now: u64)
    requires
        w.paused,
    ensures
        w.due(alive, now) == Work::Rest,
        w.after_due(alive, now).quiescent,
        w.after_due(alive, now).paused,
        w.after_due(alive, now).attached == w.attached,
        w.after_due(alive, now).next_scan == w.next_scan,
{
}

/// Two searches are at least a second apart.
pub proof fn lemma_scans_are_spaced(w: Worker, alive: bool, now: u64, again: bool, later: u64)
    requires
        w.due(alive, now) == Work::Scan,
        w.after_due(alive, now).due(again, later) == Work::Scan,
        now + SCAN_MS <= u64::MAX,
    ensures
        later >= now + SCAN_MS,
{
}

/// What the program was started for.
#[derive(Clone, Copy, Debug, PartialEq, Eq, Structural)]
pub enum Mode {
    VerifyPackage,
    /// The package check was asked for, but not with one directory.
    Usage,
    Helper,
    Window { smoke: bool },
}

/// Whether one of the arguments is `wanted`.
pub open spec fn has_argument(args: Seq<String>, wanted: Seq<char>) -> bool {
    exists|i: int| 0 <= i < args.len() && #[trigger] args[i]@ == wanted
}

pub open spec fn mode_of(args: Seq<String>) -> Mode {
    if args.len() > 1 && args[1]@ == "--verify-update-package"@ {
        if args.len() == 3 {
            Mode::VerifyPackage
        } else {
            Mode::Usage
        }
    } else if args.len() > 1 && (args[1]@ == "--apply-update"@ || args[1]@ == "--recover-update"@) {
        Mode::Helper
    } else {
        Mode::Window { smoke: has_argument(args, "--ui-smoke-test"@) }
    }
}

/// Whether the user interface is only tried out.
pub fn is_smoke(args: &Vec<String>) -> (r: bool)
    ensures
        r == has_argument(args@, "--ui-smoke-test"@),
{
    let mut i: usize = 0;
    while i < args.len()
        invariant
            i <= args@.len(),
            forall|k: int| 0 <= k < i ==> #[trigger] args@[k]@ != "--ui-smoke-test"@,
        decreases args@.len() - i,
    {
        if same_text(args[i].as_str(), "--ui-smoke-test") {
            assert(args@[i as int]@ == "--ui-smoke-test"@);
            return true;
        }
        i = i + 1;
    }
    false
}

/// Reads the arguments, the first of which is the program's own name.
pub fn mode(args: &Vec<String>) -> (r: Mode)
    ensures
        r == mode_of(args@),
{
    if args.len() > 1 {
        let first: &str = args[1].as_str();
        if same_text(first, "--verify-update-package") {
            return if args.len() == 3 {
                Mode::VerifyPackage
            } else {
                Mode::Usage
            };
        }
        if same_text(first, "--apply-update") || same_text(first, "--recover-update") {
            return Mode::Helper;
        }
    }
    Mode::Window { smoke: is_smoke(args) }
}

/// The runs whose failure is printed.
pub open spec fn prints_failure_of(args: &Vec<String>) -> bool {
    has_argument(args@, "--ui-smoke-test"@) || (args@.len() > 1 && args@[1]@
        == "--verify-update-package"@)
}

/// Whether a failure is printed, and not shown in a message box.
pub fn prints_failure(args: &Vec<String>) -> (r: bool)
    ensures
        r == prints_failure_of(args),
{
    is_smoke(args) || (args.len() > 1 && same_text(args[1].as_str(), "--verify-update-package"))
}

} // verus!
