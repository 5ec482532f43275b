//! Detecting the game, following a session, reading exports and the protection journal.
use t7patch::launcher::exports::{
    data_export_rva, export_error, export_location, export_rva, ExportError,
};
use t7patch::launcher::history::{
    excerpt_start, initial, loaded, parse, unreadable, Filter, MAX_BYTES, MAX_EVENTS,
};
use t7patch::launcher::process::{
    bootstrap_request, check_architecture, check_identity, check_patch, choose_module, find_module,
    is_game, loader_entry, same_path, Action, Event, Module, Session, Stage,
};
use t7patch::launcher::{is_smoke, mode, prints_failure, Found, Mode, Status, Work, Worker};
use t7patch::launcher_api::{StartRequest, ACTIVE, DEACTIVATED, FAILED, WAITING};

#[test]
fn active_status_is_passive_and_observes_deactivation() {
    let mut session = Session {
        pid: 1,
        export: 0,
        status_export: Some(0),
        base: 0x1000,
        stage: Stage::Monitoring { next: 0 },
        status: "Patch active (test build)".to_owned(),
        active: true,
        code: ACTIVE,
    };
    assert!(matches!(
        session.after_bootstrap(WAITING, 0),
        Stage::Idle { .. }
    ));
    assert!(matches!(
        session.after_bootstrap(ACTIVE, 0),
        Stage::Monitoring { .. }
    ));
    for _ in 0..3 {
        session.stage = Stage::Monitoring { next: 0 };
        assert_eq!(
            session.next_action(0),
            Ok(Action::ReadStatus { address: 0x1000 })
        );
        session.advance(&Event::StatusRead { code: ACTIVE }, 0).unwrap();
        assert!(session.active);
        assert!(matches!(session.stage, Stage::Monitoring { .. }));
        assert_eq!(session.status, "Patch active (test build)");
    }
    session.stage = Stage::Monitoring { next: 0 };
    session
        .advance(&Event::StatusRead { code: DEACTIVATED }, 0)
        .unwrap();
    assert!(!session.active);
    assert_eq!(session.code, DEACTIVATED);
    assert!(matches!(session.stage, Stage::Failed));
    session.status_export = None;
    assert!(matches!(
        session.after_bootstrap(ACTIVE, 0),
        Stage::Confirmed
    ));
}

#[test]
fn sessions_load_start_and_fail() {
    let mut session = Session::new(7, 0x10, None, 0, 1000);
    assert_eq!(session.status, "Loading patch DLL...");
    assert_eq!(session.next_action(1000), Ok(Action::PollLoader));
    session.poll(&Event::LoaderPending, 40000);
    assert_eq!(session.status, "Still waiting for the DLL loader...");
    session.poll(&Event::LoaderDone { base: Some(0x5000) }, 40000);
    assert_eq!(
        session.next_action(40000),
        Ok(Action::StartBootstrap { entry: 0x5010 })
    );
    session.poll(&Event::BootstrapStarted, 40000);
    assert_eq!(session.status, "Checking game / installing patch...");
    assert_eq!(session.next_action(40000), Ok(Action::PollBootstrap));
    let mut response = StartRequest::default();
    response.reply(ACTIVE, "Patch active");
    session.poll(
        &Event::BootstrapDone {
            code: ACTIVE,
            response,
        },
        40000,
    );
    assert!(session.active);
    assert_eq!(session.status, "Patch active");
    assert_eq!(session.stage, Stage::Confirmed);
    let mut broken = Session::new(7, 0x10, None, 0x5000, 0);
    broken.poll(&Event::BootstrapStarted, 0);
    broken.poll(&Event::BootstrapDone { code: FAILED, response }, 0);
    assert_eq!(broken.status, "Patch bootstrap failed (thread status 0x4)");
    assert_eq!(broken.stage, Stage::Failed);
    let mut lost = Session::new(7, 0x10, None, 0, 0);
    lost.poll(&Event::LoaderDone { base: None }, 0);
    assert_eq!(
        lost.status,
        "Windows could not load t7patch.dll. Check its x64 runtime dependencies."
    );
    // Nothing that happens later revives it.
    lost.poll(&Event::StatusRead { code: ACTIVE }, 0);
    assert!(!lost.active);
}

#[test]
fn unexpected_statuses_are_reported() {
    let mut session = Session::new(7, 0x10, Some(0x20), 0x5000, 0);
    session.stage = Stage::Monitoring { next: 0 };
    assert_eq!(
        session.advance(&Event::StatusRead { code: 77 }, 0),
        Err("Unexpected passive patch status 77".to_owned())
    );
    session.stage = Stage::Monitoring { next: 0 };
    assert_eq!(
        session.advance(&Event::StatusRead { code: FAILED }, 0),
        Err("Patch failed. Restart BO3.".to_owned())
    );
}

fn modules() -> Vec<Module> {
    vec![
        Module {
            path: "C:\\Windows\\System32\\KERNEL32.DLL".to_owned(),
            name: Some("KERNEL32.DLL".to_owned()),
            base: 0x7000,
        },
        Module {
            path: "\\\\?\\C:\\Patch\\T7Patch.dll".to_owned(),
            name: Some("T7Patch.dll".to_owned()),
            base: 0x9000,
        },
    ]
}

#[test]
fn modules_are_found_by_path_and_name() {
    assert!(same_path("\\\\?\\C:\\a", "c:\\A"));
    assert!(!same_path("C:\\a", "C:\\b"));
    assert!(is_game("blackops3.EXE"));
    assert!(!is_game("blackops3"));
    let list = modules();
    assert_eq!(find_module(&list, "c:\\patch\\t7patch.dll"), Some(0x9000));
    assert_eq!(choose_module(&list, "c:\\patch\\t7patch.dll"), Ok(0x9000));
    assert_eq!(
        choose_module(&list, "c:\\other\\t7patch.dll").unwrap_err(),
        "A different t7patch.dll is already loaded. Restart BO3 to use this copy."
    );
    assert_eq!(choose_module(&vec![], "c:\\other\\t7patch.dll"), Ok(0));
    assert_eq!(
        loader_entry(&list, "kernel32.dll", 0x1234, 0x1000),
        Ok(0x7234)
    );
    assert_eq!(
        loader_entry(&list, "kernelbase.dll", 0x1234, 0x1000).unwrap_err(),
        "Loader module is not ready"
    );
    assert_eq!(
        loader_entry(&list, "kernel32.dll", u64::MAX, 0).unwrap_err(),
        "Loader address overflow"
    );
}

#[test]
fn processes_are_checked_before_they_are_touched() {
    assert!(check_identity(Some("BLACKOPS3.exe"), "BlackOps3.exe").is_ok());
    assert_eq!(
        check_identity(Some("other.exe"), "BlackOps3.exe").unwrap_err(),
        "Process identity changed; waiting for BO3."
    );
    assert!(check_identity(None, "BlackOps3.exe").is_err());
    assert!(check_architecture(false).is_ok());
    assert_eq!(
        check_architecture(true).unwrap_err(),
        "BO3 must be a 64-bit process"
    );
    let request = bootstrap_request(&[0x43, 0x3a, 0]);
    assert_eq!(request.config_path[..4], [0x43, 0x3a, 0, 0]);
    assert!(check_patch(&image(), true, 5).is_ok());
    assert_eq!(
        check_patch(&image(), false, 5).unwrap_err(),
        "Configuration path must be absolute and shorter than 1024 UTF-16 units"
    );
    assert!(check_patch(&image(), true, 1025).is_err());
}

#[test]
fn rejects_invalid_pe() {
    for bytes in [&[][..], b"MZ", &[0; 128]] {
        assert!(export_rva(bytes, b"T7PatchStart").is_err());
    }
}

fn u16_at(data: &mut [u8], offset: usize, value: u16) {
    data[offset..offset + 2].copy_from_slice(&value.to_le_bytes());
}
fn u32_at(data: &mut [u8], offset: usize, value: u32) {
    data[offset..offset + 4].copy_from_slice(&value.to_le_bytes());
}
const SECTION: usize = 0x98 + 240;

fn image() -> Vec<u8> {
    let mut data = vec![0u8; 2048];
    u16_at(&mut data, 0, 0x5a4d);
    u32_at(&mut data, 0x3c, 0x80);
    u32_at(&mut data, 0x80, 0x4550);
    u16_at(&mut data, 0x84, 0x8664);
    u16_at(&mut data, 0x86, 1);
    u16_at(&mut data, 0x94, 240);
    u16_at(&mut data, 0x98, 0x20b);
    u32_at(&mut data, 0x98 + 60, 0x200);
    u32_at(&mut data, 0x98 + 112, 0x1000);
    u32_at(&mut data, 0x98 + 116, 0x100);
    let section = SECTION;
    u32_at(&mut data, section + 8, 0x600);
    u32_at(&mut data, section + 12, 0x1000);
    u32_at(&mut data, section + 16, 0x600);
    u32_at(&mut data, section + 20, 0x200);
    u32_at(&mut data, section + 36, 0x20000000);
    u32_at(&mut data, 0x200 + 20, 1);
    u32_at(&mut data, 0x200 + 24, 1);
    u32_at(&mut data, 0x200 + 28, 0x1048);
    u32_at(&mut data, 0x200 + 32, 0x1040);
    u32_at(&mut data, 0x200 + 36, 0x1050);
    u32_at(&mut data, 0x240, 0x1060);
    u32_at(&mut data, 0x248, 0x1200);
    data[0x260..0x26d].copy_from_slice(b"T7PatchStart\0");
    data
}

#[test]
fn resolves_exports_and_rejects_forwarders_and_bad_ordinals() {
    let mut data = image();
    let section = SECTION;
    assert_eq!(export_rva(&data, b"T7PatchStart").unwrap(), 0x1200);
    assert!(export_rva(&data, b"Missing").is_err());
    u32_at(&mut data, 0x248, 0x1080);
    assert!(export_rva(&data, b"T7PatchStart").is_err());
    u32_at(&mut data, 0x248, 0x1200);
    u16_at(&mut data, 0x250, 1);
    assert!(export_rva(&data, b"T7PatchStart").is_err());
    u16_at(&mut data, 0x250, 0);
    u32_at(&mut data, section + 36, 0x40000000);
    assert!(export_rva(&data, b"T7PatchStart").is_err());
    assert_eq!(data_export_rva(&data, b"T7PatchStart").unwrap(), 0x1200);
    u32_at(&mut data, 0x248, 0x1201);
    assert!(data_export_rva(&data, b"T7PatchStart").is_err());
    u32_at(&mut data, 0x248, 0x1600);
    assert!(data_export_rva(&data, b"T7PatchStart").is_err());
}

#[test]
fn export_errors_are_told_apart() {
    let mut data = image();
    assert_eq!(
        export_location(&data, b"Missing", true),
        Err(ExportError::Missing)
    );
    assert_eq!(
        export_error(ExportError::Missing),
        "T7PatchStart is missing. Rebuild the DLL and EXE together."
    );
    u32_at(&mut data, 0x248, 0x1080);
    assert_eq!(
        export_location(&data, b"T7PatchStart", true),
        Err(ExportError::Forwarded)
    );
    u32_at(&mut data, 0x98 + 112, 0);
    assert_eq!(
        export_location(&data, b"T7PatchStart", true),
        Err(ExportError::NoTable)
    );
    assert_eq!(
        export_location(b"MZ", b"T7PatchStart", true),
        Err(ExportError::Invalid)
    );
}

#[test]
fn separates_rejections_limits_and_observations_without_exposing_raw_fields() {
    let snapshot = parse(b"tick=1000 utc=2026-09-15T12:30:00Z thread=9 network-guard envelope=2 instant=3 p2p=0 lobby=4 social_limited=5 instant_limited=0 p2p_limited=6 oob_limited=7 friends_refresh_failed=8 password=secret\ntick=2000 reader-diagnostic action=observe command=secret\n", false);
    assert_eq!(
        snapshot.summary(),
        "Recent totals: 9 rejected · 18 rate-limited · 9 diagnostics"
    );
    assert!(!snapshot.text(Filter::All).contains("secret"));
    assert!(!snapshot
        .text(Filter::Rejected)
        .contains("Reader observation"));
    assert!(snapshot.text(Filter::Diagnostics).contains("not a block"));
    assert!(snapshot
        .text(Filter::Limited)
        .contains("2026-09-15T12:30:00Z"));
}

#[test]
fn ignores_partial_lines_bad_counts_and_caps_history() {
    assert!(parse(b"tick=1 network-guard envelope=1", false)
        .entries
        .is_empty());
    assert!(parse(b"tick=1 network-guard envelope=1\n", true)
        .entries
        .is_empty());
    let mut input =
        "cut line\ntick=1 network-guard envelope=-1 lobby=18446744073709551616\n".to_owned();
    for tick in 0..250 {
        input.push_str(&format!("tick={tick} network-guard envelope=1\n"));
    }
    input.push_str("tick=2 network-guard envelope=999");
    let snapshot = parse(input.as_bytes(), true);
    assert_eq!(snapshot.entries.len(), MAX_EVENTS);
    assert_eq!(
        snapshot.summary(),
        "Recent totals: 200 rejected · 0 rate-limited · 0 diagnostics"
    );
}

#[test]
fn reload_handles_append_truncation_and_replacement() {
    let load = |journal: &[u8]| {
        let start = excerpt_start(journal.len() as u64);
        loaded(&journal[start as usize..], start)
    };
    let mut journal = b"tick=1 network-guard envelope=2\n".to_vec();
    assert_eq!(load(&journal).entries[0].count, 2);
    journal.extend_from_slice(b"tick=2 network-guard lobby=3\n");
    assert_eq!(load(&journal).entries.len(), 2);
    assert!(load(b"").entries.is_empty());
    assert_eq!(load(b"tick=3 network-guard p2p=9\n").entries[0].count, 9);
    let mut large = vec![b'x'; MAX_BYTES as usize];
    large.extend_from_slice(b"\ntick=4 network-guard envelope=7\n");
    let snapshot = load(&large);
    assert_eq!(snapshot.entries.len(), 1);
    assert_eq!(snapshot.entries[0].count, 7);
}

#[test]
fn journal_views_say_what_they_are() {
    assert!(loaded(b"", 0).available);
    assert!(!unreadable(None).available);
    assert!(unreadable(Some("denied")).notice.contains("denied"));
    assert!(initial(true).entries.is_empty());
    assert!(!initial(false).entries.is_empty());
    let mut filter = Filter::All;
    let mut titles = Vec::new();
    for _ in 0..4 {
        titles.push(filter.title());
        filter = filter.next();
    }
    assert_eq!(titles, ["All", "Rejected", "Rate limits", "Diagnostics"]);
    assert_eq!(filter, Filter::All);
    assert_eq!(
        parse(b"", false).text(Filter::All),
        "No recorded events for this filter."
    );
}

#[test]
fn detection_rests_polls_and_scans() {
    let (mut worker, status) = Worker::start(true, 1000);
    assert_eq!(status.text, "No game process found.");
    assert!(!worker.is_quiescent());
    assert_eq!(worker.next(false, 1000), Work::Scan);
    assert_eq!(worker.next(false, 1999), Work::Wait);
    assert_eq!(worker.next(false, 2000), Work::Scan);
    let shown = worker.attach(Ok("Loading patch DLL...".to_owned()));
    assert_eq!(shown.text, "Loading patch DLL...");
    assert_eq!(worker.next(true, 2000), Work::Poll);
    worker.pause();
    assert!(!worker.is_quiescent());
    assert_eq!(worker.next(true, 2000), Work::Rest);
    assert!(worker.is_quiescent());
    worker.resume();
    assert!(!worker.is_quiescent());
    assert_eq!(worker.next(false, 2100), Work::Wait);
    assert!(!worker.attached);
    assert!(!worker.attach(Err("no".to_owned())).active);
    assert!(!worker.attached);
    assert!(Worker::start(false, 0).0.is_quiescent());
    assert_eq!(Status::default().text, "");
}

#[test]
fn a_game_is_attached_to_with_valid_settings_only() {
    let (worker, _) = Worker::start(true, 0);
    assert!(matches!(worker.scanned(Ok(Some(5)), true), Found::Attach(5)));
    let text = |found| match found {
        Found::Show(status) => status.text,
        Found::Attach(_) => panic!("attached"),
    };
    assert_eq!(
        text(worker.scanned(Ok(Some(5)), false)),
        "Save valid settings before patching."
    );
    assert_eq!(text(worker.scanned(Ok(None), true)), "No game process found.");
    assert_eq!(text(worker.scanned(Err("denied".to_owned()), true)), "denied");
}

#[test]
fn arguments_choose_the_mode() {
    let args = |list: &[&str]| list.iter().map(|a| (*a).to_owned()).collect::<Vec<_>>();
    assert_eq!(mode(&args(&["x"])), Mode::Window { smoke: false });
    assert_eq!(
        mode(&args(&["x", "y", "--ui-smoke-test"])),
        Mode::Window { smoke: true }
    );
    assert_eq!(
        mode(&args(&["x", "--verify-update-package", "dir"])),
        Mode::VerifyPackage
    );
    assert_eq!(mode(&args(&["x", "--verify-update-package"])), Mode::Usage);
    assert_eq!(mode(&args(&["x", "--apply-update"])), Mode::Helper);
    assert_eq!(mode(&args(&["x", "--recover-update", "1"])), Mode::Helper);
    assert!(is_smoke(&args(&["--ui-smoke-test"])));
    assert!(prints_failure(&args(&["x", "--verify-update-package"])));
    assert!(!prints_failure(&args(&["x"])));
}
