//! What the hooks, the recovery from faults, the patches and the diagnostics decide.
use t7patch::arxan::{
    already_patched, check_count, code_range, pattern, replacement, scan, upkeep, upkeep_due,
    upkeep_first, upkeep_next, IntegrityStep, IntegrityWork, Upkeep, UpkeepStep,
};
use t7patch::diagnostics::{
    crash_event, crash_log, crash_name, crash_path, debug_text, event_line, journal_name,
    session_start, Crash, Line, Utc,
};
use t7patch::exceptions::{
    dispatcher, handle, reads_lobby, script_is_fatal, Action, Dispatcher, Fault, Place, Registers,
    ACCESS_VIOLATION, FOREIGN_SENTINEL, LOBBY_SENTINEL,
};
use t7patch::game_build::{translate_rva, Build};
use t7patch::hooks::{
    admit_connectionless, allocates_model, asks_version, atoi, ban_command, campaign, character_slot, checksum_copy,
    clamp_presence, clears_config_string, command_allowed, command_slot, copy_refused, create,
    instant, instant_length, instant_read, instant_word, key_is, memory_patches, menu_action, menu_arguments,
    menu_host, message_name_known, message_prefix, package_int, package_uchar, package_uint,
    payload_size, prefix_matches, response_index, room, verify_checksum, version_text, Instant, MenuAction,
    MenuArguments,
};
use t7patch::imports::{Descriptor, ImportSearch, Query, Reply};
use t7patch::launcher_api::{ACTIVE, DEACTIVATED, FAILED, UNSUPPORTED, WAITING};
use t7patch::memory::{
    accessible, bounded_copy, next_readable, range_end, terminated, Patch, Region, StringScan,
    EXECUTABLE, READABLE,
};
use t7patch::minhook::{initialize, status};
use t7patch::network_guard::{Event, Events, Gates, Peer};
use t7patch::packets::{
    reader_validated, validate_message_reader, HANDLER_BYTES, HELPER_BYTES, LOBBY_HANDLE_IM_RVA,
    PREP_READ_DATA_RVA, PREP_READ_MSG_RVA,
};
use t7patch::profiling::{report_due, session_header, Metric, PendingCalls};
use t7patch::protection::{
    game_settings, own_xuid, ready, service_table, steam_hooks, steam_not_ready, Surroundings,
};
use t7patch::runtime::{
    accepts, active_message, Deactivation, Decision, Installation, Lifecycle, Step, Undo,
};
use t7patch::sanitize::{
    sanitize_binding, sanitize_chat, sanitize_model_string, valid_game_path, valid_path,
};
use t7patch::structs::Msg;

#[test]
fn model_path_boundaries() {
    assert!(valid_path(&[b'a'; 63]));
    assert!(!valid_path(&[b'a'; 64]));
    assert!(valid_path(b"foo.bar"));
    assert!(!valid_path(
        &[b"foo.".as_slice(), &[b'x'; 64], b".end"].concat()
    ));
}

#[test]
fn game_path_matches_original_segment_checks() {
    assert!(!valid_game_path(None));
    for left in [0, 1, 63, 64, 65] {
        for right in [0, 1, 63, 64, 65] {
            let path = [vec![b'a'; left], vec![b'.'], vec![b'b'; right], vec![0]].concat();
            assert_eq!(valid_game_path(Some(&path)), left < 64 && right < 64);
        }
    }
    assert!(valid_game_path(Some(b"\0")));
    let mut path = b"a.".repeat(32768);
    assert!(!valid_game_path(Some(&path))); // No NUL within the cap.
    path[65535] = 0;
    assert!(valid_game_path(Some(&path)));
}

#[test]
fn malformed_directives() {
    let mut input = b"^Bunclosed [{unclosed".to_vec();
    sanitize_binding(&mut input);
    assert_eq!(input, b".Bunclosed ..unclosed");
    let mut valid = b"^Bshort^ [{key}]".to_vec();
    sanitize_binding(&mut valid);
    assert_eq!(valid, b"^Bshort^ [{key}]");
    let mut long = [b"^B".as_slice(), &[b'x'; 64], b"^"].concat();
    sanitize_binding(&mut long);
    assert_eq!(long[0], b'.');
}

#[test]
fn model_strings_lose_open_references() {
    let mut good = b"a $(b) c".to_vec();
    assert!(!sanitize_model_string(&mut good));
    assert_eq!(good, b"a $(b) c");
    let mut bad = b"a $(b".to_vec();
    assert!(sanitize_model_string(&mut bad));
    assert_eq!(bad, b"a ..b");
    // What was made harmless stays as it is.
    assert!(!sanitize_model_string(&mut bad));
}

#[test]
fn chat_keeps_plain_text_only() {
    let mut text = b"hi^1 %s $(x) [{y}] \x07!\0^tail".to_vec();
    sanitize_chat(&mut text);
    assert_eq!(text, b"hi.1 .s .(x) .{y}] .!\0^tail");
}

#[test]
fn numbers_of_the_game() {
    assert_eq!(atoi(b"  42abc"), 42);
    assert_eq!(atoi(b"-7\0 9"), -7);
    assert_eq!(atoi(b"+5"), 5);
    assert_eq!(atoi(b"x1"), 0);
    assert_eq!(atoi(b""), 0);
    assert_eq!(atoi(b"99999999999"), 0);
    assert_eq!(atoi(b"\xc2\xa08"), 8);
}

#[test]
fn lobby_packages_are_bounded() {
    assert!(key_is(Some(b"LobbyType"), "lobbytype"));
    assert!(!key_is(None, "lobbytype"));
    assert!(package_int(Some(b"lobbytype"), 2));
    assert!(!package_int(Some(b"SrcLobbyType"), 3));
    assert!(!package_int(Some(b"destlobbytype"), -1));
    assert!(package_int(Some(b"other"), 3));
    assert!(!package_uint(Some(b"lobbytype"), 3, 0));
    assert!(!package_uint(Some(b"datamask"), 512, 16));
    assert!(package_uint(Some(b"datamask"), 512, 1));
    assert!(package_uint(Some(b"datamask"), 1, 16));
    assert_eq!(package_uchar(Some(b"nattype"), 9), 4);
    assert_eq!(package_uchar(Some(b"nattype"), 3), 3);
    assert_eq!(package_uchar(Some(b"other"), 9), 9);
}

#[test]
fn presence_holds_at_most_eighteen() {
    assert_eq!(clamp_presence(31 << 2 | 3), 18 << 2 | 3);
    assert_eq!(clamp_presence(18 << 2), 18 << 2);
    assert_eq!(clamp_presence(0xffff_ff00), 0xffff_ff00);
}

#[test]
fn game_lookups_are_bounded() {
    assert!(message_name_known(-1));
    assert!(message_name_known(32));
    assert!(!message_name_known(33));
    assert!(!message_name_known(-2));
    assert_eq!(character_slot(0, 1), None);
    assert_eq!(character_slot(0x1000, -1), None);
    assert_eq!(character_slot(0x1000, 2), Some(0x1000 + 48 + 56));
    assert_eq!(command_slot(0x1000, 8), None);
    assert_eq!(command_slot(0x1000, -1), None);
    assert_eq!(command_slot(0x1000, 3), Some(0x1000 + 160));
    assert!(copy_refused(-1));
    assert!(!copy_refused(0));
    assert!(campaign(Some(b"cp")));
    assert!(!campaign(Some(b"mp")));
    assert!(!campaign(None));
}

#[test]
fn preload_strings_are_cleared_outside_the_campaign() {
    assert!(clears_config_string(3514, false, Some(b"MSPRELOAD now")));
    assert!(clears_config_string(3627, false, Some(b"mspreload")));
    assert!(!clears_config_string(3627, true, Some(b"mspreload")));
    assert!(!clears_config_string(3627, false, Some(b"mspreloa")));
    assert!(!clears_config_string(3628, false, Some(b"mspreload")));
    assert!(!clears_config_string(3514, false, None));
}

#[test]
fn connectionless_commands() {
    assert!(command_allowed(b"connectResponse", false));
    assert!(!command_allowed(b"connectresponse", false));
    assert!(!command_allowed(b"requeststats", false));
    assert!(command_allowed(b"RequestStats\n", true));
    assert!(!command_allowed(b"rcon", true));
    let mut gates = Gates::new();
    let mut events = Events::default();
    let peer = Peer::Address {
        ip: [1, 2, 3, 4],
        port: 5,
        kind: 4,
        local_net_id: 0,
    };
    assert!(!admit_connectionless(
        &mut gates,
        &mut events,
        b"rcon",
        false,
        peer,
        10,
        0
    ));
    assert!(admit_connectionless(
        &mut gates,
        &mut events,
        b"disconnect",
        false,
        peer,
        10,
        0
    ));
}

#[test]
fn the_network_password_seals_messages() {
    let pass = [0x1111, 0x00bb_aa22_3344, 1000];
    let checksum = 0x5678;
    let sealed = checksum_copy(checksum, pass);
    assert_eq!(sealed, 0x5678 ^ 0x3344);
    assert_eq!(verify_checksum(10, checksum, sealed, pass, 5000), 8);
    assert_eq!(verify_checksum(10, checksum, checksum, pass, 5000), -1);
    // The former password is good for a moment.
    assert_eq!(verify_checksum(10, checksum, 0x5678 ^ 0x1111, pass, 2500), 8);
    assert_eq!(verify_checksum(10, checksum, 0x5678 ^ 0x1111, pass, 2501), -1);
    assert_eq!(verify_checksum(1, checksum, sealed, pass, 5000), -1);
    assert_eq!(message_prefix(0x00bb_aa22_3344), Some((0x22, 0xaa)));
    assert_eq!(message_prefix(0x3344), None);
    assert!(prefix_matches(0x00bb_aa22_3344, 0x22, 0xaa));
    assert!(!prefix_matches(0x00bb_aa22_3344, 0x22, 0xab));
    assert!(prefix_matches(0x3344, 1, 2));
}

fn reader(cur_size: u32, read_count: u32) -> Msg {
    Msg {
        overflowed: 0,
        read_only: 0,
        data: 0x10000,
        split_data: 0,
        max_size: 4096,
        cur_size,
        split_size: 0,
        read_count,
        bit: 0,
        last_entity: 0,
        flush: 0,
        target: 0,
    }
}

#[test]
fn instant_messages() {
    assert!(!instant_length(1));
    assert!(instant_length(2));
    assert!(instant_length(2049));
    assert!(!instant_length(2050));
    let drop = Instant::Drop {
        event: Event::Instant,
    };
    assert_eq!(instant(b'1', 0x10, &reader(100, 2)), Instant::Deliver { size: 98 });
    assert_eq!(instant(b'2', 0x10, &reader(100, 2)), drop);
    assert_eq!(instant(b'1', 0x65, &reader(100, 2)), drop);
    assert_eq!(instant(b'1', 0x6d, &reader(100, 2)), drop);
    assert_eq!(instant(b'1', 0x66, &reader(100, 2)), drop);
    assert_eq!(
        instant(b'1', 0x66, &reader(102, 2)),
        Instant::CheckWord { size: 100 }
    );
    assert_eq!(
        instant(b'1', 0x68, &reader(100, 2)),
        Instant::CheckPending { size: 98 }
    );
    assert_eq!(instant(b'1', 0x10, &reader(2050, 2)), drop);
    assert_eq!(
        instant(b'1', 0x10, &reader(1, 2)),
        Instant::Drop {
            event: Event::Envelope
        }
    );
    assert_eq!(instant_word(100, Some(1)), Instant::Deliver { size: 100 });
    assert_eq!(instant_word(100, Some(0)), drop);
    assert_eq!(instant_word(100, None), drop);
}

#[test]
fn menu_responses() {
    assert_eq!(menu_arguments(8, 4), MenuArguments::Ignore);
    assert_eq!(menu_arguments(0, 3), MenuArguments::Bad);
    assert_eq!(menu_arguments(7, 4), MenuArguments::Read);
    assert_eq!(menu_action(b"badspawn\0", 1), MenuAction::Ignore);
    assert_eq!(menu_action(b"EndGame\0x", 1), MenuAction::Ban);
    assert_eq!(menu_action(b"endround\0", 0), MenuAction::AskHost);
    assert_eq!(menu_action(b"restart_level_zm\0", 2), MenuAction::Ban);
    assert_eq!(menu_action(b"restart_level_zm\0", 0), MenuAction::Notify);
    assert_eq!(menu_action(b"hello\0", 2), MenuAction::Notify);
    assert_eq!(menu_host(true), MenuAction::Notify);
    assert_eq!(menu_host(false), MenuAction::Ban);
    assert_eq!(response_index(b"255\0", 256), Some(255));
    assert_eq!(response_index(b"256", 256), None);
    assert_eq!(response_index(b"-1", 256), None);
    assert_eq!(ban_command(-3), "tempBanClient -3\n");
}

#[test]
fn tables_of_the_game() {
    let patches = memory_patches();
    assert_eq!(patches.len(), 8);
    assert_eq!(patches[0], (0x1964766, vec![0x90; 5]));
    let hooks = create();
    assert_eq!(hooks.len(), 34);
    assert_eq!(hooks[0], ("hook.build_title", 0x20E31C0));
    assert_eq!(hooks[33], ("hook.menu_cached", 0x195EFA0));
    let steam = steam_hooks();
    assert_eq!(steam.len(), 9);
    assert_eq!(steam[8], ("steam.read_p2p", 0x10B3DC50, 0x10));
    assert_eq!(steam_not_ready(0x10B3DC20), "Steam object not ready: 0x10b3dc20");
    assert_eq!(game_settings()[1], ("g_allowvote", "0"));
    let mut methods = [0u64; 50];
    methods[23] = 5;
    methods[24] = 6;
    let table = service_table(methods, 99);
    assert_eq!(table[23..26], [5, 99, 0]);
    assert_eq!(version_text("1.2.3"), "T7 Patch Rust v1.2.3 (experimental)");
}

#[test]
fn the_game_must_be_ready() {
    let around = || Surroundings {
        started: 1,
        steam: [true; 4],
        user: true,
        variables: [(1, true), (2, true)],
        lobby: 1,
        lobby_readable: true,
        service: true,
    };
    assert!(ready(&around()));
    let mut s = around();
    s.steam[2] = false;
    assert!(!ready(&s));
    s = around();
    s.variables[1].0 = 0;
    assert!(!ready(&s));
    s = around();
    s.started = 0;
    assert!(!ready(&s));
    assert_eq!(own_xuid(Some(5), Some(7)), 7);
    assert_eq!(own_xuid(Some(5), None), 0);
    assert_eq!(own_xuid(None, Some(7)), 0);
}

#[test]
fn imports_are_searched_by_name() {
    let mut search = ImportSearch::new(0x10000, 0x100, 60, b"Wanted".to_vec());
    assert_eq!(search.query(), Query::Descriptor(0x10100));
    search.answer(Reply::Descriptor(Some(Descriptor {
        names: 0,
        module: 5,
        thunk: 6,
    })));
    assert_eq!(search.query(), Query::Descriptor(0x10114));
    search.answer(Reply::Descriptor(Some(Descriptor {
        names: 0x200,
        module: 5,
        thunk: 0x300,
    })));
    assert_eq!(
        search.query(),
        Query::Entry {
            name: 0x10200,
            slot: 0x10300
        }
    );
    search.answer(Reply::Entry(Some(1 << 63)));
    assert_eq!(
        search.query(),
        Query::Entry {
            name: 0x10208,
            slot: 0x10308
        }
    );
    search.answer(Reply::Entry(Some(0x400)));
    assert_eq!(search.query(), Query::Name(0x10402));
    search.answer(Reply::Name(Some(b"Other".to_vec())));
    search.answer(Reply::Entry(Some(0x440)));
    search.answer(Reply::Name(Some(b"Wanted".to_vec())));
    assert_eq!(search.query(), Query::Done(Some(0x10310)));
    let mut none = ImportSearch::new(0x10000, 0x100, 20, b"Wanted".to_vec());
    none.answer(Reply::Descriptor(None));
    assert_eq!(none.query(), Query::Done(None));
    assert_eq!(
        ImportSearch::new(0x10000, 0, 60, b"x".to_vec()).query(),
        Query::Done(None)
    );
}

const BASE: usize = 0x1_4000_0000;

fn place() -> Place {
    Place {
        base: BASE,
        build: Build::February2026,
        empty: 0x77,
        no_field: 0x88,
    }
}

fn registers() -> Registers {
    Registers {
        rip: 1,
        rsp: 0x100,
        rax: 3,
        rbx: 4,
        rcx: 5,
        rdx: 6,
        rsi: 7,
        r8: 8,
    }
}

fn fault(rva: usize, code: u32, flags: u32) -> Fault {
    Fault {
        address: BASE + rva,
        code,
        flags,
    }
}

#[test]
fn known_faults_are_recovered_from() {
    let r = registers();
    assert_eq!(
        handle(&place(), &fault(0x15E4B7A, 0, 0), &r, true, 9),
        Action::Resume {
            registers: Registers {
                rip: (BASE + 0x15E4BA3) as u64,
                ..r
            }
        }
    );
    assert_eq!(
        handle(&place(), &fault(0x221CEC3, 0, 0), &r, true, 9),
        Action::Resume {
            registers: Registers { rdx: 0x77, ..r }
        }
    );
    assert_eq!(
        handle(&place(), &fault(0xC15B80, 0, 0), &r, true, 9),
        Action::Resume {
            registers: Registers {
                rcx: 1,
                rdx: 0x88,
                r8: 0,
                rip: (BASE + 0x12EA450) as u64,
                ..r
            }
        }
    );
    assert_eq!(
        handle(&place(), &fault(0x123, ACCESS_VIOLATION, 0), &r, true, 9),
        Action::Crash
    );
    assert_eq!(
        handle(&place(), &fault(0x123, 5, 1), &r, true, 9),
        Action::Crash
    );
    assert_eq!(
        handle(&place(), &fault(0x123, 5, 0), &r, true, 9),
        Action::Pass
    );
    assert_eq!(
        handle(&place(), &fault(0x15E4B7A, 0, 0), &r, false, 9),
        Action::Pass
    );
}

#[test]
fn the_lobby_sentinel_is_always_known() {
    let r = Registers {
        rcx: LOBBY_SENTINEL,
        ..registers()
    };
    for active in [true, false] {
        assert_eq!(
            handle(&place(), &fault(0, 0, 0), &r, active, 9),
            Action::Sentinel {
                registers: Registers {
                    rcx: 9,
                    rbx: 9,
                    ..r
                }
            }
        );
    }
    let foreign = Registers {
        rcx: FOREIGN_SENTINEL,
        ..registers()
    };
    assert_eq!(
        handle(&place(), &fault(0, ACCESS_VIOLATION, 0), &foreign, true, 9),
        Action::Pass
    );
    assert!(reads_lobby(&place(), Some((BASE + 0x1EEBF74) as u64)));
    assert!(!reads_lobby(&place(), Some(1)));
    assert!(!reads_lobby(&place(), None));
}

#[test]
fn script_errors_of_unknown_instances_are_left_alone() {
    let r = Registers {
        rcx: 2,
        ..registers()
    };
    assert_eq!(
        handle(&place(), &fault(0x12EA4E0, 0, 0), &r, true, 9),
        Action::Pass
    );
    let r = Registers {
        rcx: 0x101,
        ..registers()
    };
    assert_eq!(
        handle(&place(), &fault(0x12EA4E0, 0, 0), &r, true, 9),
        Action::Script {
            registers: Registers {
                rip: 5,
                rsp: 0xd0,
                ..r
            },
            instance: 1,
            fatal: BASE + 0x5124869 + 35392,
            message: BASE + 0x51A3710 + 0x78,
            frame: BASE + 0x513DD30 + 32,
        }
    );
    assert!(script_is_fatal(true, b""));
    assert!(!script_is_fatal(false, b"harmless"));
}

#[test]
fn dispatchers_are_told_apart() {
    assert_eq!(
        dispatcher(0x1000, 0x058B48FC, -8, 0x1122),
        Dispatcher::Slot { slot: 0x1000 }
    );
    let Dispatcher::Code { address, bytes } = dispatcher(0x1000, 0x248C8B48, 0, 0x1122334455667788)
    else {
        panic!("code expected")
    };
    assert_eq!(address, 0x100b);
    assert_eq!(bytes.len(), 27);
    assert_eq!(bytes[..4], [0x48, 0xb8, 0x88, 0x77]);
    assert_eq!(bytes[26], 0x90);
    assert_eq!(dispatcher(0x1000, 1, 0, 0x1122), Dispatcher::Vectored);
}

#[test]
fn integrity_patterns() {
    let code = [0, 0x8b, 0x0c, 0x8b, 0x33, 0x0c, 0x82, 0x8b, 0x0c, 0x8b, 0x33, 0x0c, 0x82];
    assert_eq!(scan(&code, &pattern(0)), [1, 7]);
    assert_eq!(scan(&replacement(0), &pattern(0)), [0usize; 0]);
    assert_eq!(replacement(2), [0x48, 0x31, 0xc0, 0x48, 0x31, 0xd2]);
    assert_eq!(code_range(0x2000_0000, 0x1000, 0x500, 0x1200), Some((0x1000, 0x1200)));
    assert_eq!(code_range(0, 0x1000, 0x500, 0x1200), None);
    assert_eq!(code_range(0x2000_0000, 0x1200, 0x500, 0x1200), None);
    assert!(already_patched(518, 259, 847));
    assert!(!already_patched(517, 259, 847));
    assert!(check_count(2, 847).is_ok());
    assert_eq!(
        check_count(0, 3).unwrap_err(),
        "Arxan pattern 1: expected 259, found 3"
    );
    assert!(upkeep_due(true, Some(1)));
    assert!(!upkeep_due(true, Some(0)));
    assert!(!upkeep_due(false, Some(1)));
    assert!(!upkeep_due(true, None));
    assert!(matches!(upkeep(None, b"ab"), Upkeep::Stop));
    assert!(matches!(upkeep(Some(b"ab"), b"ab"), Upkeep::Keep));
    assert!(matches!(upkeep(Some(b"ac"), b"ab"), Upkeep::Reapply));
}

#[test]
fn patches_remember_what_they_replace() {
    let patch = Patch::prepare(0x1000, Some(vec![1, 2]), vec![3, 4]).unwrap();
    assert_eq!(patch.original, [1, 2]);
    assert!(patch.owned(Some(&[3, 4])));
    assert!(!patch.owned(Some(&[1, 2])));
    assert!(!patch.owned(None));
    assert!(Patch::prepare(0x1000, None, vec![3, 4]).is_err());
    // Applying and restoring, last first, gives the memory back.
    let mut memory = vec![1u8, 2, 3, 4];
    let first = Patch::prepare(0, Some(memory[0..2].to_vec()), vec![9, 9]).unwrap();
    let second = Patch::prepare(2, Some(memory[2..4].to_vec()), vec![8, 8]).unwrap();
    for p in [&first, &second] {
        memory[p.address as usize..][..2].copy_from_slice(&p.replacement);
    }
    assert_eq!(memory, [9, 9, 8, 8]);
    for p in [&second, &first] {
        memory[p.address as usize..][..2].copy_from_slice(&p.original);
    }
    assert_eq!(memory, [1, 2, 3, 4]);
}

#[test]
fn memory_is_read_region_by_region() {
    let region = Region {
        base: 0x1000,
        size: 0x1000,
        committed: true,
        protect: 0x04,
    };
    assert!(accessible(&region, READABLE));
    assert!(!accessible(&region, EXECUTABLE));
    assert_eq!(next_readable(0x1800, Some(region)), Some(0x2000));
    assert_eq!(next_readable(0x2000, Some(region)), None);
    assert_eq!(next_readable(0x1800, None), None);
    assert_eq!(
        next_readable(
            0x1800,
            Some(Region {
                protect: 0x104,
                ..region
            })
        ),
        None
    );
    assert_eq!(range_end(0, 5), None);
    assert_eq!(range_end(5, 0), None);
    assert_eq!(range_end(u64::MAX, 1), None);
    assert_eq!(range_end(5, 6), Some(11));
    let mut scan = StringScan::new(0x1ffe, 8).unwrap();
    assert_eq!(
        scan.stretch(Some(Region {
            base: 0x1000,
            size: 0x1000,
            committed: true,
            protect: 0x04,
        })),
        Some(0x2000)
    );
    assert_eq!(scan.take(b"ab"), None);
    assert!(!scan.exhausted());
    assert_eq!(scan.take(b"cd\0x"), Some(4));
    assert_eq!(scan.take(b"efghij"), None);
    assert!(scan.exhausted());
    assert_eq!(StringScan::new(0, 8), None);
    assert_eq!(StringScan::new(u64::MAX, 8), None);
    assert_eq!(terminated(b"ab\0", 3), Some(2));
    assert_eq!(terminated(b"ab\0", 2), None);
    assert_eq!(terminated(b"ab", 9), None);
    assert_eq!(bounded_copy(b"abcdef", 4), Some(b"abc\0".to_vec()));
    assert_eq!(bounded_copy(b"ab", 4), Some(b"ab\0".to_vec()));
    assert_eq!(bounded_copy(b"ab", 0), None);
}

#[test]
fn hook_library_codes() {
    assert!(status(0).is_ok());
    assert_eq!(status(3).unwrap_err(), "MinHook status 3");
    assert_eq!(status(-1).unwrap_err(), "MinHook status -1");
    assert!(initialize(1).is_ok());
    assert!(initialize(2).is_err());
}

#[test]
fn one_attempt_to_install() {
    let mut life = Lifecycle::default();
    let refused = |life: &Lifecycle, known, ready| match life.install_checked(known, ready, false) {
        Decision::Refuse { status, message } => (status, message),
        other => panic!("{other:?}"),
    };
    assert_eq!(
        refused(&life, false, false),
        (UNSUPPORTED, "Unsupported BO3 executable".to_owned())
    );
    assert_eq!(
        refused(&life, true, false),
        (WAITING, "Waiting for game initialization...".to_owned())
    );
    assert!(matches!(
        life.install_checked(true, true, false),
        Decision::Install
    ));
    life.begin();
    assert_eq!(
        life.finish(Err("broken".to_owned()), false),
        (FAILED, "broken".to_owned())
    );
    assert_eq!(refused(&life, true, true), (FAILED, "broken".to_owned()));
    let mut life = Lifecycle::default();
    life.begin();
    assert_eq!(
        life.finish(Ok(()), false),
        (ACTIVE, "Patch active".to_owned())
    );
    assert!(matches!(
        life.install_checked(true, true, true),
        Decision::Active { text } if text == active_message(true)
    ));
    assert!(life.uninstall());
    assert!(!life.uninstall());
    assert_eq!(
        refused(&life, true, true),
        (
            DEACTIVATED,
            "Patch deactivated. Restart BO3 to install again.".to_owned()
        )
    );
}

#[test]
fn installation_goes_step_by_step() {
    let mut i = Installation::new();
    let mut seen = Vec::new();
    for _ in 0..40 {
        seen.push(i.step);
        if i.step == Step::PrepareSettings {
            i.prepared(2, 1);
        }
        if i.step == Step::Active {
            break;
        }
        assert!(i.done(true));
    }
    assert_eq!(seen[0], Step::CheckBuild);
    assert!(seen.contains(&Step::ApplyPatch { index: 1 }));
    assert!(seen.contains(&Step::EnableHook { index: 0 }));
    assert_eq!(seen.last(), Some(&Step::Active));
    let mut failing = Installation::new();
    assert!(!failing.done(false));
}

#[test]
fn deactivation_keeps_what_it_could_not_undo() {
    let mut good = Deactivation::new(1, 1, true);
    let mut seen = Vec::new();
    for _ in 0..20 {
        seen.push(good.undo);
        good.done(true, 1);
    }
    assert_eq!(seen[0], Undo::DisableHook { index: 0 });
    assert!(seen.contains(&Undo::RestoreIntegrity));
    assert!(seen.contains(&Undo::DeactivateHandler));
    let mut bad = Deactivation::new(0, 1, true);
    let mut seen = Vec::new();
    for _ in 0..20 {
        seen.push(bad.undo);
        let ok = !matches!(bad.undo, Undo::RestorePatch { .. });
        bad.done(ok, 1);
    }
    assert!(!seen.contains(&Undo::RestoreIntegrity));
    assert!(!seen.contains(&Undo::DeactivateHandler));
}

#[test]
fn only_the_right_word_installs() {
    assert!(accepts(b"serious_anticrash_2023"));
    assert!(accepts(b"SERIOUS_anticrash_2023\0tail"));
    assert!(!accepts(b"serious_anticrash_2024"));
}

#[test]
fn journal_lines() {
    let utc = Utc {
        year: 2026,
        month: 9,
        day: 5,
        hour: 1,
        minute: 2,
        second: 3,
    };
    let line = event_line(10, utc, 7, "hello");
    assert_eq!(
        &line.bytes[..line.len],
        b"tick=10 utc=2026-09-05T01:02:03Z thread=7 hello\n"
    );
    let mut long = Line::new();
    assert!(long.write_str("ab"));
    assert!(!long.write_str(&"x".repeat(600)));
    assert_eq!(long.len, 512);
    assert_eq!(
        session_start(Build::September2026, false),
        "session-start hang_tracking=v1 lobby_reader=validated-v2 network_guard=control-v2 connectionless_reader=observe-v1 friend_retry=backoff-v1 game=September2026 debug_assertions=false"
    );
    assert_eq!(
        crash_event(0xC0000005, 1, 0x10, 0x20, 0x30, 0x40),
        "unhandled-exception code=0xc0000005 flags=0x1 address=0x10 rip=0x20 rcx=0x30 game_base=0x40"
    );
    assert_eq!(crash_name(true, 5), "crashes.log");
    assert_eq!(crash_name(false, 5), "t7patch-crashes-5.log");
    assert_ne!(journal_name(true, 5), journal_name(false, 5));
    assert_eq!(crash_path(&None), "crashes.log");
    assert_eq!(crash_path(&Some("x".to_owned())), "x");
    assert_eq!(debug_text("a\0b"), "T7 Patch Rust: ab\n");
}

#[test]
fn crash_logs() {
    let crash = Crash {
        time: "now".to_owned(),
        thread: 3,
        code: 0xC0000005,
        base: 0x140000000,
        module: "game.exe".to_owned(),
        module_base: 0x140000000,
        address: 0x140001234,
    };
    let mut registers = [0u64; 22];
    registers[0] = 0x140001234;
    registers[21] = 0x400;
    let log = crash_log(&crash, registers, 0x1000, &vec![(1, 2), (3, 0xabc)]);
    let lines: Vec<_> = log.lines().collect();
    assert_eq!(lines[1], "Crash now, thread 3, code 0xc0000005");
    assert_eq!(
        lines[2],
        "Game: 0x140000000, module: game.exe (0x140000000), address: 0x140001234"
    );
    assert_eq!(lines[3], "RIP: 0x0000000140001234");
    assert_eq!(lines[24], "DR7: 0x0000000000000400");
    assert_eq!(
        lines[26],
        "[0x0000000000001010] 0x0000000000000003 0x0000000000000abc"
    );
    assert_eq!(lines.len(), 27);
}

#[test]
fn pending_calls_survive_report_windows_until_the_call_returns() {
    let mut tracker = PendingCalls::new(2);
    let outer = tracker.begin("test.outer", 42, 100).unwrap();
    let inner = tracker.begin("test.inner", 42, 200).unwrap();
    assert!(tracker.begin("test.inner", 99, 300).is_none()); // Bounded; never wait.
    let mut report = String::new();
    tracker.append(&mut report, 2500);
    assert!(report.contains("thread=42 call=test.outer age_ms=2400"));
    assert!(report.contains("thread=42 call=test.inner age_ms=2300"));
    assert!(report.contains("overflow=1"));
    tracker.end(inner);
    let reused = tracker.begin("test.inner", 99, 2600).unwrap();
    report.clear();
    tracker.append(&mut report, 3000);
    assert!(report.contains("test.outer"));
    assert!(!report.contains("test.inner")); // No stale age after slot reuse.
    tracker.end(reused);
    tracker.end(outer);
    report.clear();
    tracker.append(&mut report, 10000);
    assert!(report.is_empty());
}

#[test]
fn another_thread_can_report_an_inflight_call() {
    let mut tracker = PendingCalls::new(4);
    let pending = tracker.begin("test.waiting_thread", 123, 100).unwrap();
    let mut report = String::new();
    tracker.append(&mut report, 5100);
    assert!(report.contains("thread=123 call=test.waiting_thread age_ms=5000"));
    tracker.end(pending);
    let mut report = String::new();
    tracker.append(&mut report, 10000);
    assert!(report.is_empty());
}

#[test]
fn profiling_is_opt_in_sampled_and_written_only_by_reporter() {
    let mut metric = Metric::new("test.sampled_hook");
    assert!(metric.enter(false, 1).is_none());
    assert_eq!(metric.calls, 0);
    for _ in 0..1025 {
        if metric.enter(true, 1).is_some() {
            metric.finish(7);
        }
    }
    assert!(!report_due(true, 1000, 5999));
    assert!(report_due(true, 1000, 6000));
    assert!(!report_due(false, 1000, 6000));
    let row = metric.take_window().unwrap();
    assert_eq!(row.calls, 1025);
    assert_eq!(row.samples, 2);
    assert_eq!(row.nanos, 14);
    assert_eq!(row.max_nanos, 7);
    assert!(metric.take_window().is_none());
    assert_eq!(metric.calls, 0);
    let mut metrics = Vec::new();
    Metric::new("a").register(1, &mut metrics);
    Metric::new("a").register(1, &mut metrics);
    Metric::new("b").register(2, &mut metrics);
    assert_eq!(metrics.len(), 2);
    // Another metric of the same name is a metric of its own.
    Metric::new("a").register(3, &mut metrics);
    let names: Vec<&str> = metrics.iter().map(|(_, metric)| metric.name).collect();
    assert_eq!(names, ["a", "b", "a"]);
    assert!(session_header("now", Build::Unknown, true)
        .starts_with("\nT7 Patch profile now: game=Unknown, debug_assertions=true, sample_every=1024,"));
}

/// Code of `size` bytes at `base` that ends in a branch to `target`.
fn branching(base: u64, size: usize, opcode: u8, target: u64) -> Vec<u8> {
    let mut code = vec![0x90; size];
    code[size - 5] = opcode;
    let displacement = (target as i64 - (base as i64 + size as i64)) as i32;
    code[size - 4..].copy_from_slice(&displacement.to_le_bytes());
    code
}

#[test]
fn reader_addresses_of_the_september_build() {
    let september = |rva| translate_rva(rva, Build::September2026);
    assert_eq!(september(LOBBY_HANDLE_IM_RVA + HANDLER_BYTES - 5), 0x1EE9A90);
    assert_eq!(september(PREP_READ_DATA_RVA), 0x1EE9E30);
    assert_eq!(september(PREP_READ_MSG_RVA), 0x1EEB210);
}

#[test]
fn message_reader_must_call_the_helper() {
    let (handler_at, helper_at, head_at) = (0x1EEA130, 0x1EEA4F0, 0x1EEB8D0);
    let handler = branching(handler_at, HANDLER_BYTES, 0xe8, helper_at);
    let helper = branching(helper_at, HELPER_BYTES, 0xe9, head_at);
    let check = |handler: Option<&[u8]>, helper: Option<&[u8]>, at| {
        validate_message_reader(handler, handler_at, helper, at, head_at)
    };
    assert_eq!(check(Some(&handler), Some(&helper), helper_at), Ok(()));
    // The call inside the handler is no helper.
    let call = handler_at + 0x20;
    let mismatch = Err("Lobby reader signature mismatch".to_owned());
    let there = branching(call, HELPER_BYTES, 0xe9, head_at);
    assert_eq!(check(Some(&handler), Some(&there), call), mismatch);
    assert_eq!(check(None, Some(&helper), helper_at), mismatch);
    assert_eq!(check(Some(&handler), None, helper_at), mismatch);
    assert_eq!(check(Some(&handler[1..]), Some(&helper), helper_at), mismatch);
    let jumps = branching(handler_at, HANDLER_BYTES, 0xe9, helper_at);
    assert_eq!(check(Some(&jumps), Some(&helper), helper_at), mismatch);
    let elsewhere = branching(helper_at, HELPER_BYTES, 0xe9, head_at + 1);
    assert_eq!(check(Some(&handler), Some(&elsewhere), helper_at), mismatch);
    assert_eq!(
        reader_validated(handler_at, helper_at),
        "message-reader-validated handler=0x1eea130 helper=0x1eea4f0"
    );
}

#[test]
fn overrun_payloads_are_dropped() {
    assert_eq!(instant_read(0), None);
    assert_eq!(instant_read(1), Some(Event::Instant));
}

#[test]
fn arguments_of_the_game_are_checked() {
    assert_eq!((room(-1), room(0), room(16)), (None, None, Some(16)));
    assert!(asks_version(0) && !asks_version(1));
    assert!(allocates_model(1, true) && !allocates_model(0, true) && !allocates_model(1, false));
    assert_eq!((payload_size(1), payload_size(2), payload_size(9)), (None, Some(0), Some(7)));
}

#[test]
fn failed_integrity_patches_are_taken_back_in_reverse() {
    let mut work = IntegrityWork::new(3);
    assert_eq!(work.step, IntegrityStep::Apply { index: 0 });
    assert_eq!(work.done(true), IntegrityStep::Apply { index: 1 });
    assert_eq!(work.done(false), IntegrityStep::Restore { index: 1 });
    assert_eq!(work.done(false), IntegrityStep::Restore { index: 0 });
    assert_eq!(work.done(true), IntegrityStep::Failed);
    assert_eq!(work.done(true), IntegrityStep::Failed);
    let mut work = IntegrityWork::new(2);
    work.done(true);
    assert_eq!(work.done(true), IntegrityStep::Installed);
    assert_eq!(IntegrityWork::new(0).step, IntegrityStep::Installed);
}

#[test]
fn patched_places_are_not_found_again() {
    for i in 0..3 {
        let mut code = replacement(i);
        code.extend([0x8b, 0x0c, 0x8b]);
        for j in 0..3 {
            assert!(scan(&replacement(i), &pattern(j)).is_empty());
            assert!(!scan(&code, &pattern(j)).contains(&0));
        }
    }
}

#[test]
fn sanitizing_again_changes_nothing() {
    for text in [
        &b"^Bunclosed [{unclosed"[..],
        b"^Bshort^ [{key}] ^B^B^ [{[{a}]",
        b"[{{[{ ^^B ^",
        b"^B[{^}] [{^B",
    ] {
        let mut once = text.to_vec();
        sanitize_binding(&mut once);
        for (before, after) in text.iter().zip(&once) {
            assert!(before == after || (*after == b'.' && b"^[{".contains(before)));
        }
        let mut twice = once.clone();
        sanitize_binding(&mut twice);
        assert_eq!(once, twice);
    }
}

#[test]
fn upkeep_ends_once_every_patch_is_in_place() {
    assert_eq!(upkeep_first(0), UpkeepStep::Finished);
    assert_eq!(upkeep_first(2), UpkeepStep::Look { index: 0 });
    assert_eq!(upkeep_next(0, 2, Upkeep::Keep, false), UpkeepStep::Look { index: 1 });
    assert_eq!(upkeep_next(1, 2, Upkeep::Reapply, true), UpkeepStep::Finished);
    assert_eq!(upkeep_next(1, 2, Upkeep::Reapply, false), UpkeepStep::Later);
    assert_eq!(upkeep_next(0, 2, Upkeep::Stop, false), UpkeepStep::Later);
}
