//! Releases, packages, downloads, and the installation of an update.
use std::io::{Cursor, Write};
use t7patch::launcher::updater::http::{
    request_headers, split_url, status_error, Fetch, Response,
};
use t7patch::launcher::updater::install::{
    check_backup, check_installed, check_journal, check_stage, check_stage_name,
    check_staged_manifest, check_unfinished, game_closed, helper_request, is_helper, is_stage,
    original_entry, parent_ended, stage_name, HelperRequest, Journal, Parent, Prepared, Step,
    Transaction, OWNER,
};
use t7patch::launcher::updater::package::{
    check_contents, check_header, check_staged, extract, hash, hex_text, next_file, verify_pe, Asset,
    Entry,
    File, Manifest, Release, Version, ZipHeader, ARCHIVE, DLL, EXE, MANIFEST, MAX_FILE, MAX_JSON,
    TARGET,
};
use t7patch::launcher::updater::{
    archive_received, archive_request, check_archive_length, check_manifest_length, check_status,
    checked, downloaded, latest_url, manifest_request, package_report, progress_text, replaceable,
    settle, State,
};

const FILES: [&str; 2] = [EXE, DLL];

fn pe(dll: bool) -> Vec<u8> {
    let mut b = vec![0u8; 2048];
    fn w16(b: &mut [u8], o: usize, v: u16) {
        b[o..o + 2].copy_from_slice(&v.to_le_bytes());
    }
    fn w32(b: &mut [u8], o: usize, v: u32) {
        b[o..o + 4].copy_from_slice(&v.to_le_bytes());
    }
    w16(&mut b, 0, 0x5a4d);
    w32(&mut b, 0x3c, 0x80);
    w32(&mut b, 0x80, 0x4550);
    w16(&mut b, 0x84, 0x8664);
    w16(&mut b, 0x86, 1);
    w16(&mut b, 0x94, 240);
    w16(&mut b, 0x96, if dll { 0x2022 } else { 0x22 });
    w16(&mut b, 0x98, 0x20b);
    w32(&mut b, 0x98 + 60, 0x200);
    w32(&mut b, 0x98 + 112, 0x1000);
    w32(&mut b, 0x98 + 116, 0x100);
    let s = 0x98 + 240;
    w32(&mut b, s + 8, 0x600);
    w32(&mut b, s + 12, 0x1000);
    w32(&mut b, s + 16, 0x600);
    w32(&mut b, s + 20, 0x200);
    w32(&mut b, s + 36, 0x60000000);
    w32(&mut b, 0x214, 1);
    w32(&mut b, 0x218, 1);
    w32(&mut b, 0x21c, 0x1048);
    w32(&mut b, 0x220, 0x1040);
    w32(&mut b, 0x224, 0x1050);
    w32(&mut b, 0x240, 0x1060);
    w32(&mut b, 0x248, 0x1200);
    b[0x260..0x26d].copy_from_slice(b"T7PatchStart\0");
    b
}
fn archive(entries: &[(&str, Vec<u8>)]) -> Vec<u8> {
    let mut writer = zip::ZipWriter::new(Cursor::new(Vec::new()));
    for (name, bytes) in entries {
        writer
            .start_file(
                *name,
                zip::write::SimpleFileOptions::default()
                    .compression_method(zip::CompressionMethod::Stored),
            )
            .unwrap();
        writer.write_all(bytes).unwrap();
    }
    writer.finish().unwrap().into_inner()
}
fn fixture() -> (Manifest, Vec<u8>) {
    let entries = [(FILES[0], pe(false)), (FILES[1], pe(true))];
    let bytes = archive(&entries);
    let manifest = Manifest {
        schema: 1,
        version: "9.0.0".into(),
        target: TARGET.into(),
        archive: Entry {
            name: ARCHIVE.into(),
            size: bytes.len() as u64,
            sha256: hash(&bytes),
        },
        files: entries
            .iter()
            .map(|(name, b)| Entry {
                name: (*name).into(),
                size: b.len() as u64,
                sha256: hash(b),
            })
            .collect(),
    };
    (manifest, bytes)
}
fn verify_files(manifest: &Manifest, files: &[Vec<u8>; 2]) -> Result<(), String> {
    for (i, entry) in manifest.files.iter().enumerate() {
        check_staged(entry, true, files[i].len() as u64)?;
        entry.verify(&files[i])?;
        verify_pe(&entry.name, &files[i])?;
    }
    Ok(())
}

#[test]
fn release_versions_and_required_assets() {
    let mut release = Release {
        tag_name: "v0.10.0".into(),
        draft: false,
        prerelease: false,
        assets: vec![
            Asset {
                name: ARCHIVE.into(),
                size: 100,
            },
            Asset {
                name: MANIFEST.into(),
                size: 200,
            },
        ],
    };
    assert!(release.newer_than("0.2.0").unwrap());
    assert!(!release.newer_than("0.10.0").unwrap());
    assert!(!release.newer_than("1.0.0").unwrap());
    release.prerelease = true;
    assert!(!release.newer_than("0.1.0").unwrap());
    release.prerelease = false;
    release.tag_name = "v0.11.0-rc.1".into();
    assert!(!release.newer_than("0.1.0").unwrap());
    release.tag_name = "v1.0.0".into();
    release.assets.push(Asset {
        name: ARCHIVE.into(),
        size: 100,
    });
    assert!(release.newer_than("0.1.0").is_err());
}

#[test]
fn versions_that_cannot_be_read() {
    let release = |tag: &str| Release {
        tag_name: tag.into(),
        draft: false,
        prerelease: false,
        assets: vec![],
    };
    assert_eq!(
        release("1.0.0").newer_than("0.1.0").unwrap_err(),
        "Release tag must start with v"
    );
    assert!(release("v1.0").newer_than("0.1.0").is_err());
    assert!(release("v1.0.0").newer_than("x").is_err());
    assert!(!release("v1.0.0+build").newer_than("0.1.0").unwrap());
    assert_eq!(
        release("v1.0.0").newer_than("0.1.0").unwrap_err(),
        "Release must contain one valid update.json asset"
    );
    let version = |pre: &str| Version {
        major: 1,
        minor: 0,
        patch: 0,
        pre: pre.into(),
        build: String::new(),
    };
    assert_eq!(
        release("v1.0.0").newer_version(&version("rc.1"), Ok(version("")), Some(false)),
        Ok(false)
    );
    assert_eq!(
        release("v1.0.0").newer_version(&version(""), Ok(version("")), Some(true)),
        Ok(false)
    );
}

#[test]
fn package_verifies_both_binaries_and_preserves_config() {
    let (manifest, bytes) = fixture();
    let files = extract(&manifest, &bytes, || false).unwrap();
    assert_eq!(files.len(), 2);
    assert_eq!(files[0].name, EXE);
    assert_eq!(files[1].name, DLL);
    let mut pair = [files[0].data.clone(), files[1].data.clone()];
    assert_eq!(pair, [pe(false), pe(true)]);
    verify_files(&manifest, &pair).unwrap();
    pair[1] = pe(false);
    assert!(verify_files(&manifest, &pair).is_err());
}

#[test]
fn rejects_corruption_unexpected_zip_paths_and_cancellation() {
    let (mut manifest, mut bytes) = fixture();
    bytes[0] ^= 1;
    assert!(extract(&manifest, &bytes, || false).is_err());
    let malicious = archive(&[("../t7patch.conf", pe(false)), (FILES[1], pe(true))]);
    manifest.archive.size = malicious.len() as u64;
    manifest.archive.sha256 = hash(&malicious);
    assert!(extract(&manifest, &malicious, || false).is_err());
    let (manifest, bytes) = fixture();
    assert_eq!(
        extract(&manifest, &bytes, || true).unwrap_err(),
        "Update cancelled"
    );
}

#[test]
fn rejects_incomplete_manifest_wrong_version_and_wrong_architecture() {
    let (mut manifest, _) = fixture();
    let release = Release {
        tag_name: "v8.0.0".into(),
        draft: false,
        prerelease: false,
        assets: vec![Asset {
            name: ARCHIVE.into(),
            size: manifest.archive.size,
        }],
    };
    assert!(manifest.matches_release(&release).is_err());
    manifest.files.pop();
    assert!(manifest.validate().is_err());
    let (mut manifest, _) = fixture();
    let mut wrong = pe(false);
    wrong[0x84..0x86].copy_from_slice(&0x14cu16.to_le_bytes());
    let bytes = archive(&[(FILES[0], wrong.clone()), (FILES[1], pe(true))]);
    manifest.files[0].sha256 = hash(&wrong);
    manifest.archive.size = bytes.len() as u64;
    manifest.archive.sha256 = hash(&bytes);
    assert!(extract(&manifest, &bytes, || false).is_err());
}

#[test]
fn manifests_are_parsed_and_matched() {
    let (manifest, _) = fixture();
    assert!(Manifest::parse(100, Ok(fixture().0)).is_ok());
    assert_eq!(
        Manifest::parse(MAX_JSON + 1, Ok(fixture().0)).unwrap_err(),
        "Update manifest is too large"
    );
    assert_eq!(
        Manifest::parse(1, Err("bad json".into())).unwrap_err(),
        "bad json"
    );
    let mut other = fixture().0;
    other.target = "other".into();
    assert_eq!(
        Manifest::parse(1, Ok(other)).unwrap_err(),
        "Unsupported or incomplete update manifest"
    );
    let mut other = fixture().0;
    other.version = "9".into();
    assert!(other.validate().is_err());
    let mut other = fixture().0;
    other.version = "9.0.0-rc.1".into();
    assert!(other.validate().is_err());
    let mut other = fixture().0;
    other.files[0].sha256 = other.files[0].sha256.to_uppercase();
    assert!(other.validate().is_err());
    let release = Release {
        tag_name: "v9.0.0".into(),
        draft: false,
        prerelease: false,
        assets: vec![Asset {
            name: ARCHIVE.into(),
            size: manifest.archive.size,
        }],
    };
    assert!(manifest.matches_release(&release).is_ok());
    assert_eq!(
        release.asset_url(ARCHIVE),
        "https://github.com/staFF6773/T7Patch-Rs/releases/download/v9.0.0/t7patch-windows-x64.zip"
    );
}

#[test]
fn digests_are_sha256() {
    assert_eq!(
        hash(b"abc"),
        "ba7816bf8f01cfea414140de5dae2223b00361a396177a9cb410ff61f20015ad"
    );
    assert_eq!(hex_text(&[0, 0x0f, 0xa0]), "000fa0");
    let entry = Entry {
        name: "x".into(),
        size: 3,
        sha256: hash(b"abc"),
    };
    assert!(entry.verify(b"abc").is_ok());
    assert_eq!(
        entry.verify(b"abd").unwrap_err(),
        "Size or SHA-256 mismatch: x"
    );
    assert!(entry.valid(3));
    assert!(!entry.valid(2));
}

#[test]
fn zip_entries_are_checked_one_by_one() {
    let (manifest, _) = fixture();
    let header = |name: &str, size: u64, mode: Option<u32>| ZipHeader {
        name: name.into(),
        is_file: true,
        size,
        unix_mode: mode,
    };
    let size = manifest.files[1].size;
    assert_eq!(
        check_header(&manifest.files, &header(DLL, size, Some(0o100644)), &vec![]),
        Ok(1)
    );
    assert!(check_header(&manifest.files, &header(DLL, size + 1, None), &vec![]).is_err());
    assert!(check_header(&manifest.files, &header(DLL, size, Some(0o120777)), &vec![]).is_err());
    assert!(check_header(&manifest.files, &header("other", size, None), &vec![]).is_err());
    let done = vec![File {
        name: DLL.into(),
        data: vec![],
    }];
    assert!(check_header(&manifest.files, &header(DLL, size, None), &done).is_err());
    assert_eq!(
        check_contents(&manifest.files[1], pe(true)).unwrap().name,
        DLL
    );
    assert!(check_contents(&manifest.files[1], pe(false)).is_err());
    assert!(check_staged(&manifest.files[0], false, 2048).is_err());
    assert_eq!(
        verify_pe(EXE, &pe(true)).unwrap_err(),
        "Invalid Windows x64 binary: t7patch.exe"
    );
}

#[test]
fn download_urls_require_github_https_hosts() {
    for url in [
        "http://github.com/a",
        "https://github.com.evil.test/a",
        "https://user@github.com/a",
        "https://github.com:443/a",
        "https://github.com/a\r\nHeader:x",
        "https://example.com/a",
    ] {
        assert!(split_url(url).is_err(), "{url}");
    }
    assert!(
        split_url("https://release-assets.githubusercontent.com/path?sig=abc%2Fdef").is_ok()
    );
    assert_eq!(
        split_url("https://github.com/a/b").unwrap(),
        ("github.com", "/a/b")
    );
}

#[test]
fn downloads_follow_redirects_and_stay_bounded() {
    let mut fetch = Fetch::new("https://github.com/a", 5);
    assert_eq!(
        fetch.begin(false).unwrap(),
        ("github.com".to_owned(), "/a".to_owned())
    );
    assert_eq!(fetch.response(302), Response::Redirect);
    assert_eq!(fetch.response(200), Response::Body);
    assert_eq!(fetch.response(404), Response::Finished);
    let there: Vec<u16> = "https://api.github.com/b\0junk".encode_utf16().collect();
    fetch.redirect(&there).unwrap();
    assert_eq!(fetch.begin(false).unwrap().0, "api.github.com");
    assert!(fetch.proceed(false).is_ok());
    assert_eq!(fetch.proceed(true).unwrap_err(), "Update cancelled");
    fetch.chunk(b"abc").unwrap();
    fetch.chunk(b"de").unwrap();
    assert_eq!(
        fetch.chunk(b"f").unwrap_err(),
        "Update response exceeds its size limit"
    );
    assert_eq!(fetch.body, b"abcde");
    assert_eq!(fetch.begin(true).unwrap_err(), "Update cancelled");
    for _ in 0..9 {
        let _ = fetch.begin(false);
    }
    assert_eq!(fetch.begin(false).unwrap_err(), "Too many update redirects");
    assert!(fetch.redirect(&[0xd800]).is_err());
    assert!(request_headers("api.github.com").contains("vnd.github+json"));
    assert!(request_headers("github.com").contains("octet-stream"));
    assert_eq!(status_error(500), "GitHub returned HTTP 500");
    assert_eq!(
        status_error(429),
        "GitHub request limit reached. Try again later."
    );
    assert_eq!(
        status_error(404),
        "The update asset is not available on GitHub."
    );
}

#[test]
fn checks_for_updates() {
    assert_eq!(
        latest_url(),
        "https://api.github.com/repos/staFF6773/T7Patch-Rs/releases/latest"
    );
    assert!(check_status(200).is_none());
    assert!(matches!(check_status(404), Some(State::Idle(t)) if t == "No published update releases yet."));
    assert!(matches!(check_status(500), Some(State::Error(t)) if t == "GitHub returned HTTP 500"));
    let release = || Release {
        tag_name: "v2.0.0".into(),
        draft: false,
        prerelease: false,
        assets: vec![
            Asset {
                name: ARCHIVE.into(),
                size: 100,
            },
            Asset {
                name: MANIFEST.into(),
                size: 200,
            },
        ],
    };
    assert!(matches!(checked(Ok(release()), "1.0.0"), State::Available(_)));
    assert!(matches!(checked(Ok(release()), "2.0.0"), State::Idle(t) if t == "v2.0.0 is up to date."));
    assert!(matches!(checked(Err("x".into()), "2.0.0"), State::Error(t) if t == "Invalid GitHub response: x"));
    assert!(replaceable(Some("t7patch.exe")).is_ok());
    assert!(replaceable(Some("T7Patch.exe")).is_err());
    assert!(replaceable(None).is_err());
    assert_eq!(
        progress_text("v2.0.0", 2048, 10240),
        "Downloading v2.0.0: 2 / 10 KB"
    );
    let (url, limit) = manifest_request(&release(), "1.0.0").unwrap();
    assert_eq!(
        url,
        "https://github.com/staFF6773/T7Patch-Rs/releases/download/v2.0.0/update.json"
    );
    assert_eq!(limit, 200);
    let state = State::unchecked();
    assert_eq!(state.text("1.0.0"), "Updates have not been checked.");
    assert!(state.may_check());
    assert!(!State::Checking.may_check());
    assert!(State::Checking.busy());
}

#[test]
fn downloads_end_ready_or_not_at_all() {
    let (manifest, _) = fixture();
    let release = Release {
        tag_name: "v9.0.0".into(),
        draft: false,
        prerelease: false,
        assets: vec![Asset {
            name: ARCHIVE.into(),
            size: manifest.archive.size,
        }],
    };
    let (accepted, url) = archive_request(&release, 200, 10, Ok(fixture().0)).unwrap();
    assert_eq!(accepted.version, "9.0.0");
    assert!(url.ends_with("/v9.0.0/t7patch-windows-x64.zip"));
    assert_eq!(
        archive_request(&release, 404, 10, Ok(fixture().0)).unwrap_err(),
        "The update asset is not available on GitHub."
    );
    assert!(archive_received(200).is_ok());
    assert!(archive_received(302).is_err());
    assert_eq!(
        downloaded(true, "s".into(), "9.0.0".into()).unwrap_err(),
        "Update cancelled"
    );
    let done = downloaded(false, "s".into(), "9.0.0".into());
    let (shown, remove) = settle(true, done);
    assert!(shown.is_none());
    assert_eq!(remove, Some("s".to_owned()));
    let (shown, remove) = settle(false, Err("broken".into()));
    assert!(matches!(shown, Some(State::Error(t)) if t == "broken"));
    assert_eq!(remove, None);
    assert!(check_manifest_length(MAX_JSON as u64).is_ok());
    assert!(check_manifest_length(MAX_JSON as u64 + 1).is_err());
    assert_eq!(
        check_archive_length(&manifest, 1).unwrap_err(),
        "Archive size mismatch"
    );
    assert_eq!(
        package_report("9.0.0"),
        "Update package v9.0.0: ZIP, hashes, x64 EXE/DLL and DLL bootstrap verified."
    );
}

/// An installation directory in memory, which carries the steps of a transaction out.
struct Disk {
    installed: [Vec<u8>; 2],
    config: Vec<u8>,
    staged: [Vec<u8>; 2],
    manifest: Manifest,
    backup: [Vec<u8>; 2],
    originals: Vec<Entry>,
    journal: Option<Vec<u8>>,
    /// The library cannot be replaced.
    locked: bool,
}

impl Disk {
    fn new() -> Disk {
        let (manifest, archive) = fixture();
        let files = extract(&manifest, &archive, || false).unwrap();
        Disk {
            installed: [b"old exe".to_vec(), b"old dll".to_vec()],
            config: b"playername=Unchanged".to_vec(),
            staged: [files[0].data.clone(), files[1].data.clone()],
            manifest,
            backup: [vec![], vec![]],
            originals: vec![],
            journal: None,
            locked: false,
        }
    }

    fn perform(&mut self, step: Step) -> Result<(), String> {
        match step {
            Step::CheckJournal => match self.journal {
                Some(_) => Err("An update recovery journal already exists".into()),
                None => Ok(()),
            },
            Step::LoadManifest => self.manifest.validate(),
            Step::VerifyStaged => verify_files(&self.manifest, &self.staged),
            Step::BackUp { index } => {
                let bytes = self.installed[index].clone();
                check_installed(FILES[index], true, bytes.len() as u64)?;
                self.originals.push(original_entry(FILES[index], &bytes));
                self.backup[index] = bytes;
                Ok(())
            }
            Step::PublishJournal => {
                self.journal = Some(b"journal".to_vec());
                Ok(())
            }
            Step::Replace { index } => {
                if self.locked && index == 1 {
                    return Err("locked".into());
                }
                self.installed[index] = self.staged[index].clone();
                Ok(())
            }
            Step::VerifyInstalled => verify_files(&self.manifest, &self.installed),
            Step::RemoveJournal | Step::DropJournal => {
                self.journal = None;
                Ok(())
            }
            Step::LoadJournal => check_journal(
                100,
                Ok(Journal {
                    schema: 1,
                    stage: ".t7patch-update-1-2-3".into(),
                    originals: self.originals.clone(),
                }),
            )
            .map(|_| ()),
            Step::ValidateBackup { index } => self.originals[index].verify(&self.backup[index]),
            Step::CheckTarget { index } => self.originals[index].verify(&self.installed[index]),
            Step::Restore { index } => {
                self.installed[index] = self.backup[index].clone();
                Ok(())
            }
            _ => Ok(()),
        }
    }

    fn run(&mut self, mut transaction: Transaction) -> Result<(), String> {
        for _ in 0..40 {
            if let Some(result) = transaction.result() {
                return result;
            }
            let outcome = self.perform(transaction.step);
            transaction.done(outcome);
        }
        panic!("the transaction does not end")
    }

    /// Runs until the first file is replaced, and stops there.
    fn interrupt(&mut self) {
        let mut transaction = Transaction::install();
        while transaction.step != (Step::Replace { index: 1 }) {
            let outcome = self.perform(transaction.step);
            transaction.done(outcome);
        }
    }

    fn assert_original(&self) {
        assert_eq!(self.installed[0], b"old exe");
        assert_eq!(self.installed[1], b"old dll");
        assert_eq!(self.config, b"playername=Unchanged");
    }
}

#[test]
fn installs_a_matching_pair_and_keeps_settings() {
    let mut disk = Disk::new();
    disk.run(Transaction::install()).unwrap();
    verify_files(&disk.manifest, &disk.installed).unwrap();
    assert!(disk.journal.is_none());
    assert_eq!(disk.config, b"playername=Unchanged");
}

#[test]
fn locked_dll_rolls_back_the_already_replaced_exe() {
    let mut disk = Disk::new();
    disk.locked = true;
    let error = disk.run(Transaction::install()).unwrap_err();
    assert!(error.contains("previous version restored"), "{error}");
    disk.assert_original();
    assert!(disk.journal.is_none());
}

#[test]
fn interruption_between_files_recovers_on_the_next_attempt() {
    let mut disk = Disk::new();
    disk.interrupt();
    assert!(disk.journal.is_some());
    disk.run(Transaction::recover()).unwrap();
    disk.assert_original();
    assert!(disk.journal.is_none());
}

#[test]
fn bad_backup_does_not_partially_restore_or_discard_the_journal() {
    let mut disk = Disk::new();
    disk.interrupt();
    let installed_exe = disk.installed[0].clone();
    disk.backup[1] = b"corrupt".to_vec();
    assert!(disk.run(Transaction::recover()).is_err());
    assert_eq!(disk.installed[0], installed_exe);
    assert!(disk.journal.is_some());
}

#[test]
fn rejects_staging_paths_outside_the_install_directory() {
    for name in [
        "../outside",
        ".t7patch-update-../outside",
        ".t7patch-update-",
        "unrelated",
    ] {
        assert!(check_stage_name(name).is_err());
    }
    assert!(check_stage_name(&stage_name(1, 2, 3)).is_ok());
    assert!(is_stage(&stage_name(1, 2, 3)));
    assert!(!is_stage("unrelated"));
    assert!(check_stage(true, OWNER.as_bytes()).is_ok());
    assert!(check_stage(false, OWNER.as_bytes()).is_err());
    assert!(check_stage(true, b"other").is_err());
}

#[test]
fn existing_recovery_journal_is_not_overwritten() {
    let mut disk = Disk::new();
    disk.journal = Some(b"existing recovery information".to_vec());
    assert!(disk.run(Transaction::install()).is_err());
    disk.assert_original();
    assert_eq!(
        disk.journal.as_deref(),
        Some(b"existing recovery information".as_slice())
    );
}

#[test]
fn journals_are_checked() {
    let journal = |schema, stage: &str, n: usize| Journal {
        schema,
        stage: stage.into(),
        originals: FILES[..n]
            .iter()
            .map(|name| original_entry(name, b"x"))
            .collect(),
    };
    let good = ".t7patch-update-1-2-3";
    assert!(check_journal(10, Ok(journal(1, good, 2))).is_ok());
    assert_eq!(
        check_journal(MAX_JSON as u64 + 1, Ok(journal(1, good, 2))).unwrap_err(),
        "Invalid update journal size"
    );
    assert_eq!(
        check_journal(10, Err("x".into())).unwrap_err(),
        "Cannot recover update journal: x"
    );
    assert_eq!(
        check_journal(10, Ok(journal(2, good, 2))).unwrap_err(),
        "Invalid update recovery journal"
    );
    assert_eq!(
        check_journal(10, Ok(journal(1, good, 1))).unwrap_err(),
        "Invalid update recovery journal"
    );
    assert_eq!(
        check_journal(10, Ok(journal(1, "../x", 2))).unwrap_err(),
        "Invalid update staging directory"
    );
    assert_eq!(
        check_installed(EXE, true, MAX_FILE + 1).unwrap_err(),
        "Invalid installed file: t7patch.exe"
    );
}

#[test]
fn helpers_wait_for_their_launcher() {
    let args = |list: &[&str]| list.iter().map(|a| Some((*a).to_owned())).collect::<Vec<_>>();
    assert_eq!(
        helper_request(&args(&["x", "--apply-update", "12", "345", "dir", "stage"])),
        Ok(HelperRequest {
            recovery: false,
            parent: 12,
            created: 345
        })
    );
    assert!(helper_request(&args(&["x", "--recover-update", "12", "345", "d", "s"]))
        .unwrap()
        .recovery);
    assert_eq!(
        helper_request(&args(&["x", "--apply-update", "4294967296", "345", "d", "s"])).unwrap_err(),
        "Invalid parent PID"
    );
    assert_eq!(
        helper_request(&args(&["x", "--apply-update", "12", "-1", "d", "s"])).unwrap_err(),
        "Invalid parent identity"
    );
    assert!(helper_request(&args(&["x", "--apply-update"])).is_err());
    let request = HelperRequest {
        recovery: false,
        parent: 12,
        created: 345,
    };
    assert!(parent_ended(&request, Parent::Gone).is_ok());
    assert!(parent_ended(
        &request,
        Parent::Found {
            created: 345,
            exited: true
        }
    )
    .is_ok());
    assert!(parent_ended(
        &request,
        Parent::Found {
            created: 1,
            exited: false
        }
    )
    .is_ok());
    assert_eq!(
        parent_ended(
            &request,
            Parent::Found {
                created: 345,
                exited: false
            }
        )
        .unwrap_err(),
        "Launcher did not exit; update was not applied."
    );
    assert_eq!(
        parent_ended(&request, Parent::Unknown).unwrap_err(),
        "Cannot verify that the launcher exited"
    );
    assert!(game_closed(false).is_ok());
    assert_eq!(
        game_closed(true).unwrap_err(),
        "Close BO3 before applying or recovering an update."
    );
    assert!(is_helper("helper-1.exe"));
    assert!(!is_helper("other"));
    let prepared = Prepared {
        stage: "s".into(),
        version: "1".into(),
    };
    assert_eq!(
        State::Ready(prepared).text("0"),
        "v1 verified. Close BO3 to install and restart."
    );
}

#[test]
fn files_of_an_update_are_measured_first() {
    assert!(check_unfinished(false).is_ok());
    assert_eq!(
        check_unfinished(true).unwrap_err(),
        "Recover the previous update before installing another one."
    );
    assert!(check_staged_manifest(MAX_JSON as u64).is_ok());
    assert_eq!(
        check_staged_manifest(MAX_JSON as u64 + 1).unwrap_err(),
        "Invalid staged manifest size"
    );
    let entry = original_entry(EXE, b"abc");
    assert!(check_backup(&entry, 3).is_ok());
    assert_eq!(
        check_backup(&entry, 4).unwrap_err(),
        "Incomplete update backup"
    );
}

#[test]
fn a_broken_archive_is_refused_before_anybody_is_asked() {
    let (manifest, mut bytes) = fixture();
    bytes[0] ^= 1;
    let asked = std::cell::Cell::new(0);
    let count = || {
        asked.set(asked.get() + 1);
        false
    };
    assert!(extract(&manifest, &bytes, count).is_err());
    assert_eq!(asked.get(), 0);
    let (manifest, bytes) = fixture();
    let late = || {
        asked.set(asked.get() + 1);
        asked.get() > 1
    };
    assert_eq!(
        extract(&manifest, &bytes, late).unwrap_err(),
        "Update cancelled"
    );
    assert_eq!(asked.get(), 2);
}

#[test]
fn files_are_unpacked_one_by_one() {
    let (manifest, bytes) = fixture();
    let mut done = Vec::new();
    for name in FILES {
        assert_eq!(
            next_file(&manifest, &bytes, &done, true).unwrap_err(),
            "Update cancelled"
        );
        let file = next_file(&manifest, &bytes, &done, false).unwrap();
        assert_eq!(file.name, name);
        done.push(file);
    }
    let all = extract(&manifest, &bytes, || false).unwrap();
    assert!(all.iter().zip(&done).all(|(a, b)| a.name == b.name && a.data == b.data));
    assert_eq!(all.len(), 2);
}
