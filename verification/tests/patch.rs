//! The configuration, the hashes, the layouts shared with the game, and the bootstrap request.
use t7patch::bytes::{push_u16, push_u32, read_i32, read_u16, read_u32, read_u64};
use t7patch::config::{
    apply, default_file, password, path, set_name, set_password, set_path, Live, Watcher,
};
use t7patch::game_build::{address, current_build, fingerprint, nt_offset, translate_rva, Build};
use t7patch::hashing::{canon_hash, canon_hash64, fnv1a};
use t7patch::launcher_api::{
    answer, open_request, units_before_zero, StartRequest, ACTIVE, API_VERSION, BAD_REQUEST,
    FAILED, MESSAGE_OFFSET, PATH_OFFSET, REQUEST_SIZE, WAITING,
};
use t7patch::settings::{temporary_name, Config};
use t7patch::structs::{LobbyMsg, Msg, NetAdr, LOBBY_MSG_SIZE, MSG_SIZE, NET_ADR_SIZE};
use t7patch::utf16::{decode, encode};

fn wide(text: &str) -> Vec<u16> {
    text.encode_utf16().collect()
}

fn live() -> Live {
    Live {
        name: *b"Unknown Soldier\0",
        friends_only: false,
        password: [0; 3],
        path: None,
    }
}

#[test]
fn legacy_config_crlf_clear_and_last_line() {
    let mut c = Config::default();
    c.parse(b"playername=12345678901234567890\r\nisfriendsonly=0\r\nnetworkpassword=a=b");
    assert_eq!(c.name, b"123456789012345");
    assert!(!c.friends_only);
    assert_eq!(c.password, b"a=b");
    c.parse(b"networkpassword=\n");
    assert!(c.password.is_empty());
}

#[test]
fn format_roundtrip_and_invalid_edits() {
    let c = Config {
        name: b"Rust".to_vec(),
        friends_only: false,
        password: b"a=b".to_vec(),
    };
    let mut parsed = Config::default();
    parsed.parse(&c.encode().unwrap());
    assert_eq!(c, parsed);
    let mut invalid = c.clone();
    invalid.name = vec![b'x'; 16];
    assert!(invalid.encode().is_err());
    invalid = c;
    invalid.password = b"one\nplayername=two".to_vec();
    assert!(invalid.encode().is_err());
}

#[test]
fn encoded_settings_are_exact() {
    let c = Config {
        name: b"N".to_vec(),
        friends_only: true,
        password: b"p".to_vec(),
    };
    assert_eq!(
        c.encode().unwrap(),
        b"playername=N\nisfriendsonly=1\nnetworkpassword=p\n"
    );
    let mut bad = c.clone();
    bad.password = vec![b'p'; 1024];
    assert_eq!(
        bad.encode().unwrap_err(),
        "Name: maximum 15 UTF-8 bytes. Password: maximum 1023 bytes. No line breaks."
    );
    bad.password = vec![b'p'; 1023];
    assert!(bad.encode().is_ok());
    bad.name = b"a\0b".to_vec();
    assert!(bad.encode().is_err());
}

#[test]
fn temporary_settings_file_name() {
    assert_eq!(temporary_name(12, 345), ".t7patch-12-345.tmp");
}

#[test]
fn unknown_settings_lines_change_nothing() {
    let mut c = Config::default();
    let before = c.clone();
    c.parse(b"nothing\nother=1\n=2\n");
    assert_eq!(c, before);
}

#[test]
fn live_settings_follow_the_file() {
    let mut l = live();
    let c = Config {
        name: b"Someone".to_vec(),
        friends_only: true,
        password: b"secret".to_vec(),
    };
    assert_eq!(apply(&mut l, &c, 50), Some(*b"Someone\0\0\0\0\0\0\0\0\0"));
    assert_eq!(l.name, *b"Someone\0\0\0\0\0\0\0\0\0");
    assert!(l.friends_only);
    assert_eq!(password(&l), [0, canon_hash64(b"secret"), 50]);
    // The same settings again.
    let (name, key) = (l.name, l.password[1]);
    apply(&mut l, &c, 60);
    assert_eq!(l.name, name);
    assert_eq!(l.password[1], key);
}

#[test]
fn passwords_keep_their_predecessor() {
    let mut l = live();
    set_password(&mut l, b"one", 1);
    set_password(&mut l, b"two", 2);
    assert_eq!(
        password(&l),
        [canon_hash64(b"one"), canon_hash64(b"two"), 2]
    );
    set_password(&mut l, b"", 3);
    assert_eq!(password(&l), [canon_hash64(b"two"), 0, 3]);
}

#[test]
fn names_are_bounded() {
    let mut l = live();
    assert_eq!(set_name(&mut l, b"1234567890123456"), None);
    assert_eq!(set_name(&mut l, b"a\0b"), None);
    assert_eq!(l.name, *b"Unknown Soldier\0");
    set_name(&mut l, b"");
    assert_eq!(l.name, [0; 16]);
}

#[test]
fn configuration_path_defaults_to_the_working_directory() {
    let mut l = live();
    assert_eq!(path(&l), wide("t7patch.conf"));
    set_path(&mut l, wide("C:\\x\\t7patch.conf"));
    assert_eq!(path(&l), wide("C:\\x\\t7patch.conf"));
}

#[test]
fn watcher_reports_changes_only() {
    let file = b"playername=One\n".to_vec();
    let mut w = Watcher::start(wide("a"), Some(file.clone()));
    assert_eq!(w.config.name, b"One");
    assert!(!w.poll(wide("a"), true, Some(file.clone())));
    // The same file under another name is no change.
    assert!(!w.poll(wide("./a"), true, Some(file)));
    assert_eq!(w.path, wide("a"));
    assert!(!w.poll(wide("b"), false, None));
    assert!(w.poll(wide("a"), true, Some(b"playername=Two\n".to_vec())));
    assert_eq!(w.config.name, b"Two");
    assert!(w.poll(wide("b"), false, Some(b"playername=Two\n".to_vec())));
}

#[test]
fn default_settings_file_can_be_read_back() {
    let mut c = Config::default();
    c.parse(&default_file());
    assert_eq!(c, Config::default());
}

#[test]
fn mappings_and_boundaries() {
    assert_eq!(translate_rva(0x1DECFD0, Build::September2026), 0x1DEC910);
    assert_eq!(translate_rva(0x226B0A0, Build::September2026), 0x226A9E0);
    assert_eq!(translate_rva(0x1686E948, Build::September2026), 0x1686E948);
    assert_eq!(translate_rva(0x1D29C1F, Build::September2026), 0x1D29C1F);
    assert_eq!(translate_rva(0x1D29C20, Build::September2026), 0x1D29560);
    assert_eq!(translate_rva(0x2EFF000, Build::September2026), 0x2EFF000);
    assert_eq!(translate_rva(0x1DECFD0, Build::February2026), 0x1DECFD0);
    assert_eq!(fingerprint(0x6A7B6355, 0x1D75C000), Build::September2026);
    assert_eq!(fingerprint(0x6A7B6355, 0x1D74AC00), Build::Unknown);
}

#[test]
fn builds_are_told_by_their_headers() {
    let mut dos = vec![0u8; 0x40];
    dos[0] = 0x4d;
    dos[1] = 0x5a;
    dos[0x3c] = 0x80;
    let mut nt = vec![0u8; 0x108];
    nt[..4].copy_from_slice(&0x4550u32.to_le_bytes());
    nt[4..6].copy_from_slice(&0x8664u16.to_le_bytes());
    nt[8..12].copy_from_slice(&0x693D731Eu32.to_le_bytes());
    nt[24..26].copy_from_slice(&0x20bu16.to_le_bytes());
    nt[80..84].copy_from_slice(&0x1D74B000u32.to_le_bytes());
    assert_eq!(nt_offset(&dos), Some(0x80));
    assert_eq!(current_build(Some(&dos), Some(&nt)), Build::February2026);
    assert_eq!(current_build(None, Some(&nt)), Build::Unknown);
    assert_eq!(current_build(Some(&dos), None), Build::Unknown);
    nt[4] = 0;
    assert_eq!(current_build(Some(&dos), Some(&nt)), Build::Unknown);
    dos[0x3c] = 0x3f;
    assert_eq!(nt_offset(&dos), None);
}

#[test]
fn addresses_follow_the_build() {
    assert_eq!(address(0x1000, 0x20, Build::February2026), 0x1020);
    assert_eq!(
        address(0x1000, 0x1D29C20, Build::September2026),
        0x1D29560 + 0x1000
    );
    // Different places stay different.
    assert_ne!(
        translate_rva(0x1D29C20, Build::September2026),
        translate_rva(0x1D29C21, Build::September2026)
    );
}

#[test]
fn cpp_reference_vectors() {
    for (text, canon, canon64, fnv) in [
        ("", 0xC1243180, 0x4BF29CE484222325, 0x33B293FD),
        (
            "serious_anticrash_2023",
            0x272868BE,
            0x74716513BB6E9ADB,
            0xC8358E7B,
        ),
        ("AbC", 0x64B235EB, 0x671FA2190541574B, 0x496E9F13),
        ("playername", 0x0206812E, 0x33FB5C90491BF903, 0xB3D32C97),
        (
            "networkpassword",
            0x097EC228,
            0x6BE42D5008679978,
            0x115819CA,
        ),
        ("Password123!", 0x7C00F0B3, 0x6FE627F97D2B951B, 0x32623DBB),
    ] {
        assert_eq!(canon_hash(text.as_bytes()), canon, "{text}");
        assert_eq!(canon_hash64(text.as_bytes()), canon64, "{text}");
        assert_eq!(fnv1a(text.as_bytes()), fnv, "{text}");
    }
    assert_eq!(canon_hash(b"ABC\0ignored"), canon_hash(b"abc"));
    assert_eq!(canon_hash64(b"ABC\0ignored"), canon_hash64(b"abc"));
    assert_ne!(fnv1a(b"ABC"), fnv1a(b"abc"));
    assert_eq!(canon_hash(b"\xc3\x91"), 0xCB81ADF7);
    assert_eq!(canon_hash64(b"\xc3\x91"), 0x080D3B07B4CBD0D9);
    assert_eq!(canon_hash64(b"\xff"), 0x509C41B379FE466E);
}

#[test]
fn request_abi_and_bounded_reply() {
    assert_eq!(REQUEST_SIZE, 2576);
    assert_eq!(PATH_OFFSET, 16);
    assert_eq!(MESSAGE_OFFSET, 2064);
    let mut request = StartRequest::default();
    assert_eq!(request.to_bytes().len(), 2576);
    request.reply(FAILED, &"x".repeat(1000));
    assert_eq!(request.text().len(), 255);
    assert_eq!(request.message[255], 0);
    assert_eq!(request.status, FAILED);
    let bytes = request.to_bytes();
    assert_eq!(&bytes[2064..2066], b"x\0");
    assert_eq!(&bytes[16..18], [0, 0]);
}

#[test]
fn bootstrap_rejects_null_wrong_version_and_relative_paths() {
    assert_eq!(open_request(None).err(), Some(BAD_REQUEST));
    let mut request = StartRequest {
        version: API_VERSION + 1,
        ..StartRequest::default()
    };
    assert_eq!(
        open_request(Some(&request.to_bytes())).err(),
        Some(BAD_REQUEST)
    );
    request.version = API_VERSION;
    let (mut opened, length) = open_request(Some(&request.to_bytes())).unwrap();
    // The path is empty, so it is not absolute.
    assert_eq!(length, 0);
    assert_eq!(answer(&mut opened, None), BAD_REQUEST);
    assert_eq!(opened.status, BAD_REQUEST);
    assert_eq!(opened.text(), "An absolute configuration path is required");
}

#[test]
fn bootstrap_hands_the_outcome_back() {
    let mut request = StartRequest::default();
    for (i, unit) in wide("C:\\c").into_iter().enumerate() {
        request.config_path[i] = unit;
    }
    let (mut opened, length) = open_request(Some(&request.to_bytes())).unwrap();
    assert_eq!(length, 4);
    let status = answer(&mut opened, Some((WAITING, "Not yet…".to_owned())));
    assert_eq!(status, WAITING);
    let back = StartRequest::from_bytes(&opened.to_bytes()).unwrap();
    assert_eq!(back.status, WAITING);
    assert_eq!(back.text(), "Not yet…");
    assert!(StartRequest::from_bytes(&[0; 2575]).is_none());
    request.config_path = [1; 1024];
    assert_eq!(
        open_request(Some(&request.to_bytes())).err(),
        Some(BAD_REQUEST)
    );
    assert_ne!(ACTIVE, WAITING);
}

#[test]
fn replies_keep_whole_surrogate_pairs_apart() {
    assert_eq!(units_before_zero(&[5, 0, 7]), 1);
    assert_eq!(units_before_zero(&[5, 6]), 2);
    assert_eq!(encode("a😀"), [0x61, 0xd83d, 0xde00]);
    assert_eq!(decode(&[0x61, 0xd83d, 0xde00]), "a😀");
    assert_eq!(decode(&[0xd83d, 0x61]), "\u{fffd}a");
}

#[test]
fn little_endian_fields() {
    let mut out = Vec::new();
    push_u16(&mut out, 0x1234);
    push_u32(&mut out, 0xdeadbeef);
    assert_eq!(out, [0x34, 0x12, 0xef, 0xbe, 0xad, 0xde]);
    assert_eq!(read_u16(&out, 0), Some(0x1234));
    assert_eq!(read_u32(&out, 2), Some(0xdeadbeef));
    assert_eq!(read_i32(&out, 2), Some(0xdeadbeefu32 as i32));
    assert_eq!(read_u32(&out, 3), None);
    assert_eq!(read_u64(&[1, 0, 0, 0, 2, 0, 0, 0], 0), Some(0x2_0000_0001));
    assert_eq!(read_u16(&out, u64::MAX), None);
}

#[test]
fn game_abi() {
    assert_eq!(NET_ADR_SIZE, 16);
    assert_eq!(MSG_SIZE, 0x38);
    assert_eq!(LOBBY_MSG_SIZE, 0x48);
    let mut bytes = vec![0u8; 0x48];
    bytes[8..16].copy_from_slice(&0x1122334455667788u64.to_le_bytes());
    bytes[0x24..0x28].copy_from_slice(&9u32.to_le_bytes());
    bytes[0x38..0x3c].copy_from_slice(&7i32.to_le_bytes());
    bytes[0x40..0x44].copy_from_slice(&(-5i32).to_le_bytes());
    let lobby = LobbyMsg::from_bytes(&bytes).unwrap();
    assert_eq!(lobby.msg.data, 0x1122334455667788);
    assert_eq!(lobby.msg.read_count, 9);
    assert_eq!(lobby.msg_type, 7);
    assert_eq!(lobby.package_type, -5);
    assert_eq!(Msg::from_bytes(&bytes[..0x38]).unwrap(), lobby.msg);
    assert!(Msg::from_bytes(&bytes[..0x37]).is_none());
    assert!(LobbyMsg::from_bytes(&bytes[..0x47]).is_none());
    let from = NetAdr::from_bytes(&[1, 2, 3, 4, 5, 1, 0, 0, 2, 0, 0, 0, 3, 0, 0, 0]).unwrap();
    assert_eq!(from.ipv4, [1, 2, 3, 4]);
    assert_eq!(from.port, 0x105);
    assert_eq!(from.kind, 2);
    assert_eq!(from.local_net_id, 3);
}

#[test]
fn files_read_in_turn_are_one_file() {
    let (first, second) = (&b"playername=One\r\nisfriendsonly=0"[..], &b"networkpassword=p\nplayername=Two"[..]);
    let mut turn = Config::default();
    turn.parse(first);
    turn.parse(second);
    let mut joined = Config::default();
    joined.parse(&[first, b"\n", second].concat());
    assert_eq!(turn, joined);
    assert_eq!((turn.name.as_slice(), turn.friends_only), (&b"Two"[..], false));
}
