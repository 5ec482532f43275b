//! Putting an update in the place of what is installed, so that an interruption at any point
//! leaves either the old pair of files or a way back to it.
use crate::launcher::updater::package;
use crate::launcher::updater::package::{hash, Entry, DLL, EXE, MAX_FILE, MAX_JSON};
use crate::text;
use crate::text::{push_decimal, same_bytes, same_text};
use crate::words;
use crate::words::read_unsigned64;
use vstd::prelude::*;

verus! {

pub const JOURNAL: &'static str = ".t7patch-update.json";
pub const OWNER: &'static str = "t7patch-updater-v1";
pub const PREFIX: &'static str = ".t7patch-update-";

/// An update that was downloaded and checked.
#[derive(Clone, Debug)]
pub struct Prepared {
    pub stage: String,
    pub version: String,
}

/// What is needed to go back: where the backups are and what they hold.
#[derive(Debug)]
pub struct Journal {
    pub schema: u32,
    pub stage: String,
    pub originals: Vec<Entry>,
}

/// A byte of the part of a staging directory's name that tells it from others.
pub open spec fn is_stage_byte(b: u8) -> bool {
    48 <= b <= 57 || b == 45
}

/// The name of a staging directory: nothing in it leads anywhere else.
pub open spec fn stage_name_ok(name: Seq<u8>) -> bool {
    let prefix = text::utf8(PREFIX@);
    &&& text::has_prefix(name, prefix)
    &&& name.len() > prefix.len()
    &&& forall|i: int| prefix.len() <= i < name.len() ==> is_stage_byte(#[trigger] name[i])
}

/// Checks the name of a staging directory.
pub fn check_stage_name(name: &str) -> (r: Result<(), String>)
    ensures
        r is Ok <==> stage_name_ok(text::utf8(name@)),
        r is Err ==> r->Err_0@ == "Invalid update staging directory"@,
{
    let bytes: &[u8] = name.as_bytes();
    let prefix: &[u8] = PREFIX.as_bytes();
    let n: usize = bytes.len();
    let mut ok: bool = text::starts_with(bytes, prefix) && n > prefix.len();
    if ok {
        let mut i: usize = prefix.len();
        while i < n
            invariant
                prefix@.len() <= i <= n,
                n == bytes@.len(),
                prefix@ == text::utf8(PREFIX@),
                bytes@ == text::utf8(name@),
                ok == forall|k: int| prefix@.len() <= k < i ==> is_stage_byte(#[trigger] bytes@[k]),
            decreases n - i,
        {
            let b: u8 = bytes[i];
            if !((b >= 48 && b <= 57) || b == 45) {
                assert(!is_stage_byte(bytes@[i as int]));
                ok = false;
            }
            i = i + 1;
        }
    }
    if ok {
        Ok(())
    } else {
        Err("Invalid update staging directory".to_owned())
    }
}

/// A staging directory in its place, with the mark of this launcher.
pub open spec fn owned_stage(inside: bool, owner: Seq<u8>) -> bool {
    inside && owner == text::utf8(OWNER@)
}

/// Checks, once the directory was found, that it lies where it should and that this launcher
/// made it.
pub fn check_stage(inside: bool, owner: &[u8]) -> (r: Result<(), String>)
    ensures
        r is Ok <==> owned_stage(inside, owner@),
        r is Err ==> r->Err_0@ == "Update staging directory is not owned by this launcher"@,
{
    if !inside || !same_bytes(owner, OWNER.as_bytes()) {
        return Err("Update staging directory is not owned by this launcher".to_owned());
    }
    Ok(())
}

/// The name of a new staging directory.
pub open spec fn new_stage_name(pid: u32, stamp: u64, nonce: u64) -> Seq<char> {
    PREFIX@ + text::decimal(pid as nat) + "-"@ + text::decimal(stamp as nat) + "-"@ + text::decimal(
        nonce as nat,
    )
}

pub fn stage_name(pid: u32, stamp: u64, nonce: u64) -> (r: String)
    ensures
        r@ == new_stage_name(pid, stamp, nonce),
{
    let mut out = PREFIX.to_owned();
    push_decimal(&mut out, pid as u64);
    out.append("-");
    push_decimal(&mut out, stamp);
    out.append("-");
    push_decimal(&mut out, nonce);
    out
}

proof fn lemma_decimal_digits(n: nat)
    ensures
        text::decimal(n).len() > 0,
        forall|i: int|
            0 <= i < text::decimal(n).len() ==> 48 <= (#[trigger] text::decimal(n)[i]) as int <= 57,
    decreases n,
{
    if n >= 10 {
        lemma_decimal_digits(n / 10);
    }
}

/// The names that this launcher gives its staging directories are names that it accepts.
pub proof fn lemma_own_stages_accepted(pid: u32, stamp: u64, nonce: u64)
    ensures
        stage_name_ok(text::utf8(new_stage_name(pid, stamp, nonce))),
{
    reveal_strlit(".t7patch-update-");
    reveal_strlit("-");
    lemma_decimal_digits(pid as nat);
    lemma_decimal_digits(stamp as nat);
    lemma_decimal_digits(nonce as nat);
    let a = text::decimal(pid as nat);
    let b = text::decimal(stamp as nat);
    let c = text::decimal(nonce as nat);
    let s = new_stage_name(pid, stamp, nonce);
    let p = PREFIX@;
    assert(p.len() == 16);
    assert forall|i: int| 16 <= i < s.len() implies 48 <= (#[trigger] s[i]) as int <= 57 || s[i]
        == '-' by {
        let j = i - 16;
        if j < a.len() {
            assert(s[i] == a[j]);
        } else if j == a.len() {
            assert(s[i] == '-');
        } else if j < a.len() + 1 + b.len() {
            assert(s[i] == b[j - a.len() - 1]);
        } else if j == a.len() + 1 + b.len() {
            assert(s[i] == '-');
        } else {
            assert(s[i] == c[j - a.len() - b.len() - 2]);
        }
    }
    assert forall|i: int| 0 <= i < s.len() implies 0 <= (#[trigger] s[i]) as int <= 127 by {
        if i < 16 {
            assert(s[i] == p[i]);
        }
    }
    text::lemma_utf8_of_ascii(s);
    text::lemma_utf8_of_ascii(p);
    let u = text::utf8(s);
    assert(u.take(16) =~= text::utf8(p)) by {
        assert forall|i: int| 0 <= i < 16 implies u.take(16)[i] == text::utf8(p)[i] by {
            assert(s[i] == p[i]);
        }
    }
    assert forall|i: int| 16 <= i < u.len() implies is_stage_byte(#[trigger] u[i]) by {
        assert(u[i] == s[i] as u8);
    }
}

/// How many of the first `n` backups of `name` can be one.
pub open spec fn usable_originals(originals: Seq<Entry>, name: Seq<char>, n: int) -> nat
    decreases n,
{
    if n <= 0 {
        0
    } else {
        usable_originals(originals, name, n - 1) + if originals[n - 1].name@ == name
            && originals[n - 1].size <= MAX_FILE && text::utf8(originals[n - 1].sha256@).len() == 64 {
            1nat
        } else {
            0
        }
    }
}

/// A journal that describes a backup of both files.
pub open spec fn journal_ok(j: Journal) -> bool {
    &&& j.schema == 1
    &&& j.originals@.len() == 2
    &&& usable_originals(j.originals@, EXE@, 2) == 1
    &&& usable_originals(j.originals@, DLL@, 2) == 1
}

fn count_originals(originals: &Vec<Entry>, name: &str) -> (r: usize)
    ensures
        r == usable_originals(originals@, name@, originals@.len() as int),
{
    let mut count: usize = 0;
    let mut i: usize = 0;
    while i < originals.len()
        invariant
            i <= originals@.len(),
            count <= i,
            count == usable_originals(originals@, name@, i as int),
        decreases originals@.len() - i,
    {
        if same_text(originals[i].name.as_str(), name) && originals[i].size <= MAX_FILE
            && originals[i].sha256.as_str().as_bytes().len() == 64 {
            count = count + 1;
        }
        i = i + 1;
    }
    count
}

/// The journal that can be gone back by, or why there is none.
pub open spec fn journal_of(length: u64, decoded: Result<Journal, String>) -> Result<
    Journal,
    Seq<char>,
> {
    if length > MAX_JSON {
        Err("Invalid update journal size"@)
    } else {
        match decoded {
            Err(e) => Err("Cannot recover update journal: "@ + e@),
            Ok(j) => if !journal_ok(j) {
                Err("Invalid update recovery journal"@)
            } else if !stage_name_ok(text::utf8(j.stage@)) {
                Err("Invalid update staging directory"@)
            } else {
                Ok(j)
            },
        }
    }
}

/// Checks a journal of `length` bytes that was decoded, or gives the decoder's error.
pub fn check_journal(length: u64, decoded: Result<Journal, String>) -> (r: Result<Journal, String>)
    ensures
        match journal_of(length, decoded) {
            Ok(j) => r == Ok::<Journal, String>(j),
            Err(e) => r is Err && r->Err_0@ == e,
        },
{
    if length > MAX_JSON as u64 {
        return Err("Invalid update journal size".to_owned());
    }
    match decoded {
        Err(e) => {
            let mut error = "Cannot recover update journal: ".to_owned();
            error.append(e.as_str());
            Err(error)
        },
        Ok(j) => {
            if j.schema != 1 || j.originals.len() != 2 || count_originals(&j.originals, EXE) != 1
                || count_originals(&j.originals, DLL) != 1 {
                return Err("Invalid update recovery journal".to_owned());
            }
            match check_stage_name(j.stage.as_str()) {
                Ok(()) => Ok(j),
                Err(e) => Err(e),
            }
        },
    }
}

/// When an update can begin.
pub open spec fn check_unfinished_ok(journal: bool) -> bool {
    !journal
}

/// An update is not begun while the journal of another is there.
pub fn check_unfinished(journal: bool) -> (r: Result<(), String>)
    ensures
        r is Ok <==> check_unfinished_ok(journal),
        r is Err ==> r->Err_0@ == "Recover the previous update before installing another one."@,
{
    if journal {
        return Err("Recover the previous update before installing another one.".to_owned());
    }
    Ok(())
}

/// The staged manifests that are read.
pub open spec fn check_staged_manifest_ok(length: u64) -> bool {
    length <= MAX_JSON
}

/// Checks the length of a staged manifest before it is read.
pub fn check_staged_manifest(length: u64) -> (r: Result<(), String>)
    ensures
        r is Ok <==> check_staged_manifest_ok(length),
        r is Err ==> r->Err_0@ == "Invalid staged manifest size"@,
{
    if length > MAX_JSON as u64 {
        return Err("Invalid staged manifest size".to_owned());
    }
    Ok(())
}

/// The backups that are read.
pub open spec fn check_backup_ok(entry: &Entry, length: u64) -> bool {
    length == entry.size
}

/// Checks the length of a backup before it is read.
pub fn check_backup(entry: &Entry, length: u64) -> (r: Result<(), String>)
    ensures
        r is Ok <==> check_backup_ok(entry, length),
        r is Err ==> r->Err_0@ == "Incomplete update backup"@,
{
    if length != entry.size {
        return Err("Incomplete update backup".to_owned());
    }
    Ok(())
}

/// An installed file that can be backed up.
pub open spec fn replaceable_file(plain: bool, length: u64) -> bool {
    plain && length <= MAX_FILE
}

/// Checks what the file system says of an installed file before it is backed up.
pub fn check_installed(name: &str, plain: bool, length: u64) -> (r: Result<(), String>)
    ensures
        r is Ok <==> replaceable_file(plain, length),
        r is Err ==> r->Err_0@ == "Invalid installed file: "@ + name@,
{
    if !plain || length > MAX_FILE {
        let mut error = "Invalid installed file: ".to_owned();
        error.append(name);
        return Err(error);
    }
    Ok(())
}

/// What the journal keeps of an installed file.
pub fn original_entry(name: &str, bytes: &[u8]) -> (r: Entry)
    ensures
        r.name@ == name@,
        r.size == bytes@.len(),
        r.sha256@ == package::hash_of(bytes@),
        package::meets(r@, bytes@),
{
    Entry { name: name.to_owned(), size: bytes.len() as u64, sha256: hash(bytes) }
}

/// The steps of an installation and of a recovery. The journal is published before the first
/// file is replaced, every backup is validated before any file is restored, and removing the
/// journal is what makes either final.
#[derive(Clone, Copy, Debug, PartialEq, Eq, Structural)]
pub enum Step {
    /// Fails if the journal of an earlier installation is there.
    CheckJournal,
    LoadManifest,
    VerifyStaged,
    BackUp { index: usize },
    WriteJournal,
    PublishJournal,
    Replace { index: usize },
    VerifyInstalled,
    RemoveJournal,
    MarkComplete,
    /// The new pair is installed.
    Committed,
    /// Nothing was changed.
    Rejected,
    LoadJournal,
    ValidateBackup { index: usize },
    /// Succeeds if the file is the old one already.
    CheckTarget { index: usize },
    Restore { index: usize },
    DropJournal,
    MarkRestored,
    /// The old pair is installed again.
    Restored,
    /// The journal and the backups are still there.
    Interrupted,
}

/// The step after `step`, which was successful or not.
pub open spec fn step_after(step: Step, ok: bool) -> Step {
    match step {
        Step::CheckJournal => if ok {
            Step::LoadManifest
        } else {
            Step::Rejected
        },
        Step::LoadManifest => if ok {
            Step::VerifyStaged
        } else {
            Step::Rejected
        },
        Step::VerifyStaged => if ok {
            Step::BackUp { index: 0 }
        } else {
            Step::Rejected
        },
        Step::BackUp { index } => if !ok {
            Step::Rejected
        } else if index == 0 {
            Step::BackUp { index: 1 }
        } else {
            Step::WriteJournal
        },
        Step::WriteJournal => if ok {
            Step::PublishJournal
        } else {
            Step::Rejected
        },
        Step::PublishJournal => if ok {
            Step::Replace { index: 0 }
        } else {
            Step::Rejected
        },
        Step::Replace { index } => if !ok {
            Step::LoadJournal
        } else if index == 0 {
            Step::Replace { index: 1 }
        } else {
            Step::VerifyInstalled
        },
        Step::VerifyInstalled => if ok {
            Step::RemoveJournal
        } else {
            Step::LoadJournal
        },
        Step::RemoveJournal => if ok {
            Step::MarkComplete
        } else {
            Step::LoadJournal
        },
        Step::MarkComplete => Step::Committed,
        Step::LoadJournal => if ok {
            Step::ValidateBackup { index: 0 }
        } else {
            Step::Interrupted
        },
        Step::ValidateBackup { index } => if !ok {
            Step::Interrupted
        } else if index == 0 {
            Step::ValidateBackup { index: 1 }
        } else {
            Step::CheckTarget { index: 0 }
        },
        Step::CheckTarget { index } => if !ok {
            Step::Restore { index }
        } else if index == 0 {
            Step::CheckTarget { index: 1 }
        } else {
            Step::DropJournal
        },
        Step::Restore { index } => if !ok {
            Step::Interrupted
        } else if index == 0 {
            Step::CheckTarget { index: 1 }
        } else {
            Step::DropJournal
        },
        Step::DropJournal => if ok {
            Step::MarkRestored
        } else {
            Step::Interrupted
        },
        Step::MarkRestored => Step::Restored,
        Step::Committed => step,
        Step::Rejected => step,
        Step::Restored => step,
        Step::Interrupted => step,
    }
}

/// Whether a failure of `step` is one of the recovery.
pub open spec fn in_recovery(step: Step) -> bool {
    step is LoadJournal || step is ValidateBackup || step is Restore || step is DropJournal
}

/// Whether a failure of `step` is one of the installation.
pub open spec fn in_installation(step: Step) -> bool {
    ||| step is CheckJournal
    ||| step is LoadManifest
    ||| step is VerifyStaged
    ||| step is BackUp
    ||| step is WriteJournal
    ||| step is PublishJournal
    ||| step is Replace
    ||| step is VerifyInstalled
    ||| step is RemoveJournal
}

/// An installation, or a recovery alone.
#[derive(Debug)]
pub struct Transaction {
    pub step: Step,
    pub recovery: bool,
    pub error: String,
    pub restore_error: String,
}

impl Transaction {
    /// An installation, from its first step.
    pub fn install() -> (r: Self)
        ensures
            r.step == Step::CheckJournal,
            !r.recovery,
            r.error@.len() == 0,
            r.restore_error@.len() == 0,
    {
        Transaction {
            step: Step::CheckJournal,
            recovery: false,
            error: String::new(),
            restore_error: String::new(),
        }
    }

    /// A recovery from the journal that an interrupted installation left.
    pub fn recover() -> (r: Self)
        ensures
            r.step == Step::LoadJournal,
            r.recovery,
            r.error@.len() == 0,
            r.restore_error@.len() == 0,
    {
        Transaction {
            step: Step::LoadJournal,
            recovery: true,
            error: String::new(),
            restore_error: String::new(),
        }
    }

    /// Takes the outcome of the current step.
    pub fn done(&mut self, outcome: Result<(), String>)
        ensures
            final(self).step == step_after(old(self).step, outcome is Ok),
            final(self).recovery == old(self).recovery,
            final(self).error@ == (if outcome is Err && in_installation(old(self).step) {
                outcome->Err_0@
            } else {
                old(self).error@
            }),
            final(self).restore_error@ == (if outcome is Err && in_recovery(old(self).step) {
                outcome->Err_0@
            } else {
                old(self).restore_error@
            }),
    {
        let ok: bool = outcome.is_ok();
        let step: Step = self.step;
        match outcome {
            Ok(()) => {},
            Err(e) => match step {
                Step::LoadJournal => {
                    self.restore_error = e;
                },
                Step::ValidateBackup { .. } => {
                    self.restore_error = e;
                },
                Step::Restore { .. } => {
                    self.restore_error = e;
                },
                Step::DropJournal => {
                    self.restore_error = e;
                },
                Step::CheckJournal => {
                    self.error = e;
                },
                Step::LoadManifest => {
                    self.error = e;
                },
                Step::VerifyStaged => {
                    self.error = e;
                },
                Step::BackUp { .. } => {
                    self.error = e;
                },
                Step::WriteJournal => {
                    self.error = e;
                },
                Step::PublishJournal => {
                    self.error = e;
                },
                Step::Replace { .. } => {
                    self.error = e;
                },
                Step::VerifyInstalled => {
                    self.error = e;
                },
                Step::RemoveJournal => {
                    self.error = e;
                },
                _ => {},
            },
        }
        self.step = match step {
            Step::CheckJournal => if ok {
                Step::LoadManifest
            } else {
                Step::Rejected
            },
            Step::LoadManifest => if ok {
                Step::VerifyStaged
            } else {
                Step::Rejected
            },
            Step::VerifyStaged => if ok {
                Step::BackUp { index: 0 }
            } else {
                Step::Rejected
            },
            Step::BackUp { index } => if !ok {
                Step::Rejected
            } else if index == 0 {
                Step::BackUp { index: 1 }
            } else {
                Step::WriteJournal
            },
            Step::WriteJournal => if ok {
                Step::PublishJournal
            } else {
                Step::Rejected
            },
            Step::PublishJournal => if ok {
                Step::Replace { index: 0 }
            } else {
                Step::Rejected
            },
            Step::Replace { index } => if !ok {
                Step::LoadJournal
            } else if index == 0 {
                Step::Replace { index: 1 }
            } else {
                Step::VerifyInstalled
            },
            Step::VerifyInstalled => if ok {
                Step::RemoveJournal
            } else {
                Step::LoadJournal
            },
            Step::RemoveJournal => if ok {
                Step::MarkComplete
            } else {
                Step::LoadJournal
            },
            Step::MarkComplete => Step::Committed,
            Step::LoadJournal => if ok {
                Step::ValidateBackup { index: 0 }
            } else {
                Step::Interrupted
            },
            Step::ValidateBackup { index } => if !ok {
                Step::Interrupted
            } else if index == 0 {
                Step::ValidateBackup { index: 1 }
            } else {
                Step::CheckTarget { index: 0 }
            },
            Step::CheckTarget { index } => if !ok {
                Step::Restore { index }
            } else if index == 0 {
                Step::CheckTarget { index: 1 }
            } else {
                Step::DropJournal
            },
            Step::Restore { index } => if !ok {
                Step::Interrupted
            } else if index == 0 {
                Step::CheckTarget { index: 1 }
            } else {
                Step::DropJournal
            },
            Step::DropJournal => if ok {
                Step::MarkRestored
            } else {
                Step::Interrupted
            },
            Step::MarkRestored => Step::Restored,
            Step::Committed => step,
            Step::Rejected => step,
            Step::Restored => step,
            Step::Interrupted => step,
        };
    }

    /// What is reported at the end; `None` while there is something left to do.
    pub fn result(&self) -> (r: Option<Result<(), String>>)
        ensures
            match self.step {
                Step::Committed => r == Some(Ok::<(), String>(())),
                Step::Rejected => r matches Some(Err(e)) && e@ == self.error@,
                Step::Restored => if self.recovery {
                    r == Some(Ok::<(), String>(()))
                } else {
                    r matches Some(Err(e)) && e@
                        == "Update failed; previous version restored. "@ + self.error@
                },
                Step::Interrupted => if self.recovery {
                    r matches Some(Err(e)) && e@ == self.restore_error@
                } else {
                    r matches Some(Err(e)) && e@
                        == "Update interrupted. Backups retained for recovery. "@ + self.error@
                        + "; "@ + self.restore_error@
                },
                _ => r is None,
            },
    {
        match self.step {
            Step::Committed => Some(Ok(())),
            Step::Rejected => Some(Err(self.error.clone())),
            Step::Restored => if self.recovery {
                Some(Ok(()))
            } else {
                let mut text = "Update failed; previous version restored. ".to_owned();
                text.append(self.error.as_str());
                Some(Err(text))
            },
            Step::Interrupted => if self.recovery {
                Some(Err(self.restore_error.clone()))
            } else {
                let mut text = "Update interrupted. Backups retained for recovery. ".to_owned();
                text.append(self.error.as_str());
                text.append("; ");
                text.append(self.restore_error.as_str());
                Some(Err(text))
            },
            _ => None,
        }
    }
}

/// What matters of the disk: which version each of the two files has, where they are installed,
/// staged and backed up, and whether the journal is published. Versions are told apart by size
/// and digest.
#[verifier::ext_equal]
pub struct Disk {
    pub installed: Seq<int>,
    pub staged: Seq<int>,
    pub backup: Seq<int>,
    pub journal: bool,
}

/// What a step does to the disk. One that fails leaves the files as they were: they are replaced
/// by renaming.
pub open spec fn effect(step: Step, d: Disk, ok: bool) -> Disk {
    if !ok {
        d
    } else {
        match step {
            Step::BackUp { index } => Disk {
                backup: d.backup.update(index as int, d.installed[index as int]),
                ..d
            },
            Step::PublishJournal => Disk { journal: true, ..d },
            Step::Replace { index } => Disk {
                installed: d.installed.update(index as int, d.staged[index as int]),
                ..d
            },
            Step::RemoveJournal => Disk { journal: false, ..d },
            Step::Restore { index } => Disk {
                installed: d.installed.update(index as int, d.backup[index as int]),
                ..d
            },
            Step::DropJournal => Disk { journal: false, ..d },
            _ => d,
        }
    }
}

/// An outcome that `step` can have on disk `d`, where the old pair was `before`: checks succeed
/// only on what they check for.
pub open spec fn possible(step: Step, d: Disk, before: Seq<int>, ok: bool) -> bool {
    match step {
        Step::CheckJournal => ok ==> !d.journal,
        Step::VerifyInstalled => ok ==> d.installed == d.staged,
        Step::ValidateBackup { index } => ok ==> d.backup[index as int] == before[index as int],
        Step::CheckTarget { index } => ok ==> d.installed[index as int] == before[index as int],
        _ => true,
    }
}

pub open spec fn pairs(d: Disk, before: Seq<int>) -> bool {
    d.installed.len() == 2 && d.staged.len() == 2 && d.backup.len() == 2 && before.len() == 2
}

/// What holds of the disk before each step of an installation from `before` to what is staged.
pub open spec fn consistent(step: Step, d: Disk, before: Seq<int>) -> bool {
    &&& pairs(d, before)
    &&& match step {
        Step::CheckJournal => d.installed == before,
        Step::LoadManifest => d.installed == before && !d.journal,
        Step::VerifyStaged => d.installed == before && !d.journal,
        Step::BackUp { index } => {
            &&& index < 2
            &&& d.installed == before
            &&& !d.journal
            &&& forall|k: int| 0 <= k < index ==> d.backup[k] == before[k]
        },
        Step::WriteJournal => d.installed == before && d.backup == before && !d.journal,
        Step::PublishJournal => d.installed == before && d.backup == before && !d.journal,
        Step::Replace { index } => {
            &&& index < 2
            &&& d.journal
            &&& d.backup == before
            &&& forall|k: int| 0 <= k < index ==> d.installed[k] == d.staged[k]
        },
        Step::VerifyInstalled => d.journal && d.backup == before && d.installed == d.staged,
        Step::RemoveJournal => d.journal && d.backup == before && d.installed == d.staged,
        Step::MarkComplete => !d.journal && d.installed == d.staged,
        Step::Committed => !d.journal && d.installed == d.staged,
        Step::Rejected => d.installed == before,
        Step::LoadJournal => d.journal && d.backup == before,
        Step::ValidateBackup { index } => index < 2 && d.journal && d.backup == before,
        Step::CheckTarget { index } => {
            &&& index < 2
            &&& d.journal
            &&& d.backup == before
            &&& forall|k: int| 0 <= k < index ==> d.installed[k] == before[k]
        },
        Step::Restore { index } => {
            &&& index < 2
            &&& d.journal
            &&& d.backup == before
            &&& forall|k: int| 0 <= k < index ==> d.installed[k] == before[k]
        },
        Step::DropJournal => d.journal && d.backup == before && d.installed == before,
        Step::MarkRestored => !d.journal && d.installed == before,
        Step::Restored => !d.journal && d.installed == before,
        Step::Interrupted => d.journal && d.backup == before,
    }
}

/// Whatever the outcome of a step, the disk stays consistent.
pub proof fn lemma_step_keeps_consistent(step: Step, d: Disk, before: Seq<int>, ok: bool)
    requires
        consistent(step, d, before),
        possible(step, d, before, ok),
    ensures
        consistent(step_after(step, ok), effect(step, d, ok), before),
{
    let next = effect(step, d, ok);
    if ok {
        match step {
            Step::BackUp { index } => {
                if index == 1 {
                    assert(next.backup =~= before);
                }
            },
            Step::Replace { index } => {
                if index == 1 {
                    assert(next.installed =~= next.staged);
                }
            },
            Step::CheckTarget { index } => {
                if index == 1 {
                    assert(next.installed =~= before);
                }
            },
            Step::Restore { index } => {
                if index == 1 {
                    assert(next.installed =~= before);
                }
            },
            _ => {},
        }
    }
}

/// An installation that is interrupted before any step leaves both files of one version, or the
/// journal with a backup of both old files; its end is the old pair or the new one unless the
/// recovery failed too.
pub proof fn lemma_interruption_is_safe(step: Step, d: Disk, before: Seq<int>)
    requires
        consistent(step, d, before),
        step != Step::CheckJournal,
        step != Step::Rejected,
    ensures
        d.journal ==> d.backup == before,
        !d.journal ==> d.installed == before || d.installed == d.staged,
        step == Step::Committed ==> d.installed == d.staged && !d.journal,
        step == Step::Restored ==> d.installed == before && !d.journal,
        step == Step::Interrupted ==> d.journal && d.backup == before,
{
}

/// What holds of the disk before each step of a recovery, whose backups may have been damaged.
pub open spec fn recovering(step: Step, d: Disk, before: Seq<int>, start: Disk) -> bool {
    &&& pairs(d, before)
    &&& match step {
        Step::LoadJournal => d == start,
        Step::ValidateBackup { index } => {
            &&& index < 2
            &&& d == start
            &&& forall|k: int| 0 <= k < index ==> d.backup[k] == before[k]
        },
        Step::CheckTarget { index } => {
            &&& index < 2
            &&& d.journal == start.journal
            &&& d.backup == before
            &&& forall|k: int| 0 <= k < index ==> d.installed[k] == before[k]
        },
        Step::Restore { index } => {
            &&& index < 2
            &&& d.journal == start.journal
            &&& d.backup == before
            &&& forall|k: int| 0 <= k < index ==> d.installed[k] == before[k]
        },
        Step::DropJournal => d.journal == start.journal && d.backup == before && d.installed
            == before,
        Step::MarkRestored => !d.journal && d.installed == before,
        Step::Restored => !d.journal && d.installed == before,
        Step::Interrupted => d.journal == start.journal && (d == start || d.backup == before),
        _ => false,
    }
}

/// A recovery restores both old files before it removes the journal. A backup that is not what
/// the journal says stops it before any file is touched, and the journal stays.
pub proof fn lemma_recovery(step: Step, d: Disk, before: Seq<int>, start: Disk, ok: bool)
    requires
        recovering(step, d, before, start),
        possible(step, d, before, ok),
    ensures
        recovering(step_after(step, ok), effect(step, d, ok), before, start),
        step is ValidateBackup && !ok ==> effect(step, d, ok) == start && step_after(step, ok)
            == Step::Interrupted,
{
    let next = effect(step, d, ok);
    if ok {
        match step {
            Step::ValidateBackup { index } => {
                if index == 1 {
                    assert(next.backup =~= before);
                }
            },
            Step::CheckTarget { index } => {
                if index == 1 {
                    assert(next.installed =~= before);
                }
            },
            Step::Restore { index } => {
                if index == 1 {
                    assert(next.installed =~= before);
                }
            },
            _ => {},
        }
    }
}

/// What a helper process is asked to do.
#[derive(Clone, Copy, Debug, PartialEq, Eq, Structural)]
pub struct HelperRequest {
    pub recovery: bool,
    pub parent: u32,
    pub created: u64,
}

/// A process identifier in decimal digits.
pub open spec fn pid_of(s: Seq<char>) -> Option<int> {
    match words::unsigned64(text::utf8(s)) {
        Some(v) => if v <= u32::MAX {
            Some(v)
        } else {
            None
        },
        None => None,
    }
}

/// What the arguments of a helper ask for: program, mode, parent, its creation time, the
/// directory and the stage. An argument that is no text is `None`.
pub open spec fn helper_request_of(args: Seq<Option<String>>) -> Result<HelperRequest, Seq<char>> {
    if args.len() != 6 {
        Err("Invalid update helper arguments"@)
    } else if args[2] is None || pid_of(args[2]->Some_0@) is None {
        Err("Invalid parent PID"@)
    } else if args[3] is None || words::unsigned64(text::utf8(args[3]->Some_0@)) is None {
        Err("Invalid parent identity"@)
    } else {
        Ok(
            HelperRequest {
                recovery: args[1] matches Some(mode) && mode@ == "--recover-update"@,
                parent: pid_of(args[2]->Some_0@)->Some_0 as u32,
                created: words::unsigned64(text::utf8(args[3]->Some_0@))->Some_0 as u64,
            },
        )
    }
}

pub fn helper_request(args: &Vec<Option<String>>) -> (r: Result<HelperRequest, String>)
    ensures
        package::agrees(helper_request_of(args@), r),
{
    if args.len() != 6 {
        return Err("Invalid update helper arguments".to_owned());
    }
    let recovery: bool = match &args[1] {
        Some(mode) => same_text(mode.as_str(), "--recover-update"),
        None => false,
    };
    let parent: u64 = match &args[2] {
        Some(pid) => match read_unsigned64(pid.as_str().as_bytes()) {
            Some(v) => v,
            None => return Err("Invalid parent PID".to_owned()),
        },
        None => return Err("Invalid parent PID".to_owned()),
    };
    if parent > u32::MAX as u64 {
        return Err("Invalid parent PID".to_owned());
    }
    let created: u64 = match &args[3] {
        Some(time) => match read_unsigned64(time.as_str().as_bytes()) {
            Some(v) => v,
            None => return Err("Invalid parent identity".to_owned()),
        },
        None => return Err("Invalid parent identity".to_owned()),
    };
    Ok(HelperRequest { recovery, parent: parent as u32, created })
}

/// What is known of the launcher that started a helper.
#[derive(Clone, Copy, Debug, PartialEq, Eq, Structural)]
pub enum Parent {
    /// A process of its number runs, made at `created`; `exited` if it ended in time.
    Found { created: u64, exited: bool },
    /// No process has its number.
    Gone,
    Unknown,
}

/// Whether the launcher that was made at `started` has ended, or why that is not so.
pub open spec fn ended_of(started: u64, parent: Parent) -> Result<(), Seq<char>> {
    match parent {
        Parent::Found { created, exited } => if created == started && !exited {
            Err("Launcher did not exit; update was not applied."@)
        } else {
            Ok(())
        },
        Parent::Gone => Ok(()),
        Parent::Unknown => Err("Cannot verify that the launcher exited"@),
    }
}

/// Whether a helper may go on: the launcher has ended. A process that was made at another time
/// only has its number.
pub fn parent_ended(request: &HelperRequest, parent: Parent) -> (r: Result<(), String>)
    ensures
        package::agrees(ended_of(request.created, parent), r),
{
    match parent {
        Parent::Found { created, exited } => if created == request.created && !exited {
            Err("Launcher did not exit; update was not applied.".to_owned())
        } else {
            Ok(())
        },
        Parent::Gone => Ok(()),
        Parent::Unknown => Err("Cannot verify that the launcher exited".to_owned()),
    }
}

/// When files can be replaced.
pub open spec fn game_closed_ok(running: bool) -> bool {
    !running
}

/// Whether files may be replaced: not while the game runs with the old library.
pub fn game_closed(running: bool) -> (r: Result<(), String>)
    ensures
        r is Ok <==> game_closed_ok(running),
        r is Err ==> r->Err_0@ == "Close BO3 before applying or recovering an update."@,
{
    if running {
        Err("Close BO3 before applying or recovering an update.".to_owned())
    } else {
        Ok(())
    }
}

/// Whether a directory entry is a stage that may be cleaned up.
pub fn is_stage(name: &str) -> (r: bool)
    ensures
        r == stage_name_ok(text::utf8(name@)),
{
    check_stage_name(name).is_ok()
}

/// The names of helpers.
pub open spec fn is_helper_of(name: &str) -> bool {
    text::has_prefix(text::utf8(name@), text::utf8("helper-"@))
}

/// Whether a file in a stage is a helper, which must be gone before the stage is removed.
pub fn is_helper(name: &str) -> (r: bool)
    ensures
        r == is_helper_of(name),
{
    text::starts_with(name.as_bytes(), "helper-".as_bytes())
}

} // verus!
