//! Updates: what GitHub offers, what is downloaded, and how it takes the place of what is
//! installed.
use crate::launcher::updater::install::Prepared;
use crate::launcher::updater::package::{Manifest, Release, ARCHIVE, MANIFEST, MAX_JSON, REPOSITORY};
use crate::text;
use crate::text::push_decimal;
use vstd::prelude::*;

pub mod http;
pub mod install;
pub mod package;

verus! {

/// How far an update has come.
#[derive(Clone, Debug)]
pub enum State {
    Idle(String),
    Checking,
    Available(Release),
    Downloading(String),
    Ready(Prepared),
    Handoff(Prepared),
    Error(String),
}

impl State {
    /// The state before anything was asked.
    pub fn unchecked() -> (r: Self)
        ensures
            r matches State::Idle(text) && text@ == "Updates have not been checked."@,
    {
        State::Idle("Updates have not been checked.".to_owned())
    }

    /// What the window shows, in version `installed`.
    pub open spec fn text_of(self, installed: Seq<char>) -> Seq<char> {
        match self {
            State::Idle(text) => text@,
            State::Error(text) => text@,
            State::Downloading(text) => text@,
            State::Checking => "Checking GitHub for updates..."@,
            State::Available(release) => release.tag_name@ + " available (installed v"@ + installed
                + ")."@,
            State::Ready(update) => "v"@ + update.version@
                + " verified. Close BO3 to install and restart."@,
            State::Handoff(_) => "Pausing game detection and restarting to update..."@,
        }
    }

    pub fn text(&self, installed: &str) -> (r: String)
        ensures
            r@ == self.text_of(installed@),
    {
        match self {
            State::Idle(text) => text.clone(),
            State::Error(text) => text.clone(),
            State::Downloading(text) => text.clone(),
            State::Checking => "Checking GitHub for updates...".to_owned(),
            State::Available(release) => {
                let mut out = release.tag_name.clone();
                out.append(" available (installed v");
                out.append(installed);
                out.append(").");
                out
            },
            State::Ready(update) => {
                let mut out = "v".to_owned();
                out.append(update.version.as_str());
                out.append(" verified. Close BO3 to install and restart.");
                out
            },
            State::Handoff(_) => "Pausing game detection and restarting to update...".to_owned(),
        }
    }

    pub open spec fn is_busy(self) -> bool {
        self is Checking || self is Downloading || self is Handoff
    }

    /// Whether work is under way.
    pub fn busy(&self) -> (r: bool)
        ensures
            r == self.is_busy(),
    {
        match self {
            State::Checking => true,
            State::Downloading(_) => true,
            State::Handoff(_) => true,
            _ => false,
        }
    }

    pub open spec fn may_check_of(self) -> bool {
        !(self.is_busy() || self is Ready)
    }

    /// Whether a check may start: not while work is under way, nor once an update is ready.
    pub fn may_check(&self) -> (r: bool)
        ensures
            r == self.may_check_of(),
    {
        match self {
            State::Ready(_) => false,
            _ => !self.busy(),
        }
    }
}

/// The address that is asked for the latest release.
pub fn latest_url() -> (r: String)
    ensures
        r@ == "https://api.github.com/repos/"@ + REPOSITORY@ + "/releases/latest"@,
{
    let mut out = "https://api.github.com/repos/".to_owned();
    out.append(REPOSITORY);
    out.append("/releases/latest");
    out
}

/// What comes of asking GitHub: an answer to read, no release, or a failure.
pub enum CheckOutcome {
    Read,
    Nothing(Seq<char>),
    Failure(Seq<char>),
}

pub open spec fn check_outcome(status: u32) -> CheckOutcome {
    if status == 404 {
        CheckOutcome::Nothing("No published update releases yet."@)
    } else if status == 200 {
        CheckOutcome::Read
    } else if status == 403 || status == 429 {
        CheckOutcome::Failure("GitHub request limit reached. Try again later."@)
    } else {
        CheckOutcome::Failure("GitHub returned HTTP "@ + text::decimal(status as nat))
    }
}

/// What a status of GitHub's means for a check: `None` if its answer is to be read.
pub fn check_status(status: u32) -> (r: Option<State>)
    ensures
        match check_outcome(status) {
            CheckOutcome::Read => r is None,
            CheckOutcome::Nothing(message) => r matches Some(State::Idle(text)) && text@ == message,
            CheckOutcome::Failure(message) => r matches Some(State::Error(text)) && text@
                == message,
        },
{
    if status == 404 {
        return Some(State::Idle("No published update releases yet.".to_owned()));
    }
    if status != 200 {
        return Some(State::Error(http::status_error(status)));
    }
    None
}

/// A check has ended.
pub open spec fn check_ended(
    release: Result<Release, String>,
    installed: Seq<char>,
    r: State,
) -> bool {
    match release {
        Err(e) => r matches State::Error(text) && text@ == "Invalid GitHub response: "@ + e@,
        Ok(release) => match package::newer_of(release, installed) {
            Err(e) => r matches State::Error(text) && text@ == e,
            Ok(newer) => if newer {
                r == State::Available(release)
            } else {
                r matches State::Idle(text) && text@ == "v"@ + installed + " is up to date."@
            },
        },
    }
}

/// What a check ends with, once the release was read, or could not be.
pub fn checked(release: Result<Release, String>, installed: &str) -> (r: State)
    ensures
        check_ended(release, installed@, r),
{
    match release {
        Err(e) => {
            let mut text = "Invalid GitHub response: ".to_owned();
            text.append(e.as_str());
            State::Error(text)
        },
        Ok(release) => match release.newer_than(installed) {
            Err(e) => State::Error(e),
            Ok(newer) => checked_newer(release, newer, installed),
        },
    }
}

/// The same, once it is known whether the release is newer.
pub fn checked_newer(release: Release, newer: bool, installed: &str) -> (r: State)
    ensures
        if newer {
            r == State::Available(release)
        } else {
            r matches State::Idle(text) && text@ == "v"@ + installed@ + " is up to date."@
        },
{
    if newer {
        return State::Available(release);
    }
    let mut text = "v".to_owned();
    text.append(installed);
    text.append(" is up to date.");
    State::Idle(text)
}

/// The program that can be replaced.
pub open spec fn replaceable_ok(program: Option<&str>) -> bool {
    program is Some && program->Some_0@ == package::EXE@
}

/// Whether this program can be replaced: only the packaged one.
pub fn replaceable(program: Option<&str>) -> (r: Result<(), String>)
    ensures
        r is Ok <==> replaceable_ok(program),
        r is Err ==> r->Err_0@ == "Run the packaged dist/t7patch.exe to install updates."@,
{
    match program {
        Some(name) => if text::same_text(name, package::EXE) {
            return Ok(());
        },
        None => {},
    }
    Err("Run the packaged dist/t7patch.exe to install updates.".to_owned())
}

/// What is shown while an archive is downloaded.
pub fn progress_text(tag: &str, received: u64, size: u64) -> (r: String)
    ensures
        r@ == "Downloading "@ + tag@ + ": "@ + text::decimal((received / 1024) as nat) + " / "@
            + text::decimal((size / 1024) as nat) + " KB"@,
{
    let mut out = "Downloading ".to_owned();
    out.append(tag);
    out.append(": ");
    push_decimal(&mut out, received / 1024);
    out.append(" / ");
    push_decimal(&mut out, size / 1024);
    out.append(" KB");
    out
}

/// The outcome of preparing the first request of a download: where the manifest lies and how
/// large it may be.
pub open spec fn manifest_place(release: Release, installed: Seq<char>) -> Result<
    (Seq<char>, u64),
    Seq<char>,
> {
    match package::newer_of(release, installed) {
        Err(e) => Err(e),
        Ok(_) => match package::asset_size_of(release.assets@, MANIFEST@, MAX_JSON as u64) {
            None => Err(package::asset_error(MANIFEST@)),
            Some(size) => Ok((package::asset_place(release, MANIFEST@), size)),
        },
    }
}

/// Prepares the request for the manifest of `release`.
pub fn manifest_request(release: &Release, installed: &str) -> (r: Result<(String, u64), String>)
    ensures
        match manifest_place(*release, installed@) {
            Err(e) => r is Err && r->Err_0@ == e,
            Ok(place) => r is Ok && r->Ok_0.0@ == place.0 && r->Ok_0.1 == place.1,
        },
{
    match release.newer_than(installed) {
        Err(e) => return Err(e),
        Ok(_) => {},
    }
    match release.asset_size(MANIFEST, MAX_JSON as u64) {
        Err(e) => Err(e),
        Ok(size) => Ok((release.asset_url(MANIFEST), size)),
    }
}

/// The outcome of reading the answer to that request.
pub open spec fn archive_place(
    release: Release,
    status: u32,
    length: nat,
    decoded: Result<Manifest, String>,
) -> Result<(Manifest, Seq<char>), Seq<char>> {
    if status != 200 {
        Err(http::status_text(status))
    } else {
        match package::manifest_of(length, decoded) {
            Err(e) => Err(e),
            Ok(manifest) => match package::match_of(manifest, release) {
                Err(e) => Err(e),
                Ok(_) => Ok((manifest, package::asset_place(release, ARCHIVE@))),
            },
        }
    }
}

/// Takes the manifest, of `length` bytes and decoded, and prepares the request for the archive,
/// which may be as large as the manifest says.
pub fn archive_request(
    release: &Release,
    status: u32,
    length: usize,
    decoded: Result<Manifest, String>,
) -> (r: Result<(Manifest, String), String>)
    ensures
        match archive_place(*release, status, length as nat, decoded) {
            Err(e) => r is Err && r->Err_0@ == e,
            Ok(place) => r is Ok && r->Ok_0.0 == place.0 && r->Ok_0.1@ == place.1,
        },
{
    if status != 200 {
        return Err(http::status_error(status));
    }
    match Manifest::parse(length, decoded) {
        Err(e) => Err(e),
        Ok(manifest) => match manifest.matches_release(release) {
            Err(e) => Err(e),
            Ok(_) => Ok((manifest, release.asset_url(ARCHIVE))),
        },
    }
}

/// The status of an archive.
pub open spec fn archive_received_ok(status: u32) -> bool {
    status == 200
}

/// Whether an archive that came with `status` is to be unpacked.
pub fn archive_received(status: u32) -> (r: Result<(), String>)
    ensures
        r is Ok <==> archive_received_ok(status),
        r is Err ==> r->Err_0@ == http::status_text(status),
{
    if status != 200 {
        return Err(http::status_error(status));
    }
    Ok(())
}

/// The downloads that count.
pub open spec fn downloaded_ok(stop: bool) -> bool {
    !stop
}

/// What a download ends with, once everything lies in `stage`.
pub fn downloaded(stop: bool, stage: String, version: String) -> (r: Result<State, String>)
    ensures
        r is Ok <==> downloaded_ok(stop),
        r is Ok ==> r->Ok_0 == State::Ready((Prepared { stage, version })),
        r is Err ==> r->Err_0@ == "Update cancelled"@,
{
    if stop {
        return Err("Update cancelled".to_owned());
    }
    Ok(State::Ready(Prepared { stage, version }))
}

/// What becomes of a result.
pub open spec fn settled(
    stopped: bool,
    result: Result<State, String>,
    r: (Option<State>, Option<String>),
) -> bool {
    &&& !stopped ==> r.1 is None && r.0 == Some(
        match result {
            Ok(state) => state,
            Err(error) => State::Error(error),
        },
    )
    &&& stopped ==> r.0 is None && r.1 == (match result {
        Ok(State::Ready(update)) => Some(update.stage),
        _ => None::<String>,
    })
}

/// What becomes of the result of a worker: the state to show, or the staging directory to
/// remove if the worker was told to stop in the meantime.
pub fn settle(stopped: bool, result: Result<State, String>) -> (r: (Option<State>, Option<String>))
    ensures
        settled(stopped, result, r),
{
    if !stopped {
        return match result {
            Ok(state) => (Some(state), None),
            Err(error) => (Some(State::Error(error)), None),
        };
    }
    match result {
        Ok(State::Ready(update)) => (None, Some(update.stage)),
        _ => (None, None),
    }
}

/// The manifests that are read.
pub open spec fn check_manifest_length_ok(length: u64) -> bool {
    length <= MAX_JSON
}

/// Checks the files of a package that lies on disk, before they are read whole: the length of
/// its manifest.
pub fn check_manifest_length(length: u64) -> (r: Result<(), String>)
    ensures
        r is Ok <==> check_manifest_length_ok(length),
        r is Err ==> r->Err_0@ == "Update manifest is too large"@,
{
    if length > MAX_JSON as u64 {
        return Err("Update manifest is too large".to_owned());
    }
    Ok(())
}

/// The archives that are read.
pub open spec fn check_archive_length_ok(manifest: &Manifest, length: u64) -> bool {
    length == manifest.archive.size
}

/// Likewise the length of its archive.
pub fn check_archive_length(manifest: &Manifest, length: u64) -> (r: Result<(), String>)
    ensures
        r is Ok <==> check_archive_length_ok(manifest, length),
        r is Err ==> r->Err_0@ == "Archive size mismatch"@,
{
    if length != manifest.archive.size {
        return Err("Archive size mismatch".to_owned());
    }
    Ok(())
}

/// What is printed of a package that passed every check.
pub fn package_report(version: &str) -> (r: String)
    ensures
        r@ == "Update package v"@ + version@
            + ": ZIP, hashes, x64 EXE/DLL and DLL bootstrap verified."@,
{
    let mut out = "Update package v".to_owned();
    out.append(version);
    out.append(": ZIP, hashes, x64 EXE/DLL and DLL bootstrap verified.");
    out
}

/// A download asks for nothing beyond the limits: what it accepts as manifest and archive is not
/// empty and not too large, and both come from the release's own page.
pub proof fn lemma_download_is_bounded(
    release: Release,
    installed: Seq<char>,
    status: u32,
    length: nat,
    decoded: Result<Manifest, String>,
)
    ensures
        match manifest_place(release, installed) {
            Ok(place) => 0 < place.1 <= MAX_JSON && place.0 == package::asset_place(
                release,
                MANIFEST@,
            ),
            Err(_) => true,
        },
        match archive_place(release, status, length, decoded) {
            Ok(place) => {
                &&& 0 < place.0.archive.size <= package::MAX_ARCHIVE
                &&& place.1 == package::asset_place(release, ARCHIVE@)
                &&& release.tag_name@ == "v"@ + place.0.version@
                &&& package::validity_of(place.0) is Ok
            },
            Err(_) => true,
        },
{
}

} // verus!
