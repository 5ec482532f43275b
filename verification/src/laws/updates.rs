//! What makes a release an update, and an update one that can be installed.
use crate::launcher::exports;
use crate::launcher::updater;
use crate::launcher::updater::http;
use crate::launcher::updater::package;
use crate::launcher::updater::package::{Asset, Described, Entry, Manifest, Release, Unpacked};
use crate::launcher::updater::State;
use crate::text;
use vstd::prelude::*;

verus! {

/// The asset at `i` is the only one of that name.
pub open spec fn only_asset(assets: Seq<Asset>, name: Seq<char>, i: int) -> bool {
    &&& 0 <= i < assets.len()
    &&& assets[i].name@ == name
    &&& forall|j: int|
        0 <= j < assets.len() && j != i ==> (#[trigger] assets[j]).name@ != name
}

proof fn lemma_named(assets: Seq<Asset>, name: Seq<char>, n: int)
    requires
        0 <= n <= assets.len(),
    ensures
        package::named_assets(assets, name, n).len() == 0 <==> forall|j: int|
            0 <= j < n ==> (#[trigger] assets[j]).name@ != name,
        forall|i: int|
            0 <= i < n && (#[trigger] assets[i]).name@ == name && (forall|j: int|
                0 <= j < n && j != i ==> (#[trigger] assets[j]).name@ != name)
                ==> package::named_assets(assets, name, n) == seq![assets[i].size],
        package::named_assets(assets, name, n).len() == 1 ==> exists|i: int|
            0 <= i < n && (#[trigger] assets[i]).name@ == name && (forall|j: int|
                0 <= j < n && j != i ==> (#[trigger] assets[j]).name@ != name),
    decreases n,
{
    if n > 0 {
        lemma_named(assets, name, n - 1);
        let before = package::named_assets(assets, name, n - 1);
        let now = package::named_assets(assets, name, n);
        if assets[n - 1].name@ == name {
            assert(now == before.push(assets[n - 1].size));
            if before.len() == 0 {
                assert(now =~= seq![assets[n - 1].size]);
                assert(assets[n - 1].name@ == name);
            } else {
                let k = choose|k: int| 0 <= k < n - 1 && (#[trigger] assets[k]).name@ == name;
                assert(assets[k].name@ == name);
                assert forall|i: int|
                    0 <= i < n && (#[trigger] assets[i]).name@ == name && (forall|j: int|
                        0 <= j < n && j != i ==> (#[trigger] assets[j]).name@ != name) implies now
                    == seq![assets[i].size] by {
                    assert(assets[n - 1].name@ == name);
                    assert(assets[k].name@ == name);
                    assert(false);
                }
            }
        } else if now.len() == 1 {
            let k = choose|k: int|
                0 <= k < n - 1 && (#[trigger] assets[k]).name@ == name && (forall|j: int|
                    0 <= j < n - 1 && j != k ==> (#[trigger] assets[j]).name@ != name);
            assert(assets[k].name@ == name);
        }
    }
}

/// An asset is found, with its size, if and only if exactly one is called so and its size is
/// between 1 and the maximum.
pub proof fn lemma_asset(assets: Seq<Asset>, name: Seq<char>, maximum: u64, i: int)
    ensures
        only_asset(assets, name, i) ==> package::asset_size_of(assets, name, maximum) == (if 1
            <= assets[i].size <= maximum {
            Some(assets[i].size)
        } else {
            None
        }),
        package::asset_size_of(assets, name, maximum) is Some <==> exists|i: int| #[trigger]
            only_asset(assets, name, i) && 1 <= assets[i].size <= maximum,
{
    let n = assets.len() as int;
    lemma_named(assets, name, n);
    if package::asset_size_of(assets, name, maximum) is Some {
        let k = choose|k: int|
            0 <= k < n && (#[trigger] assets[k]).name@ == name && (forall|j: int|
                0 <= j < n && j != k ==> (#[trigger] assets[j]).name@ != name);
        assert(only_asset(assets, name, k));
    }
    assert forall|k: int| #[trigger] only_asset(assets, name, k) && 1 <= assets[k].size
        <= maximum implies package::asset_size_of(assets, name, maximum) is Some by {
        assert(package::named_assets(assets, name, n) == seq![assets[k].size]);
    }
}

/// A version is later than another by the first of its three numbers that differs; of the same
/// numbers a release is later than its pre-releases.
pub open spec fn later(
    a: (u64, u64, u64, Seq<char>, Seq<char>),
    b: (u64, u64, u64, Seq<char>, Seq<char>),
) -> bool {
    if a.0 != b.0 {
        a.0 > b.0
    } else if a.1 != b.1 {
        a.1 > b.1
    } else if a.2 != b.2 {
        a.2 > b.2
    } else {
        b.3.len() > 0
    }
}

/// An asset called `name` of at most `maximum` bytes, and none else of that name.
pub open spec fn has_asset(r: Release, name: Seq<char>, maximum: int) -> bool {
    exists|i: int| #[trigger] only_asset(r.assets@, name, i) && 1 <= r.assets@[i].size <= maximum
}

/// A release is offered as an update if and only if it is neither a draft nor a pre-release, is
/// tagged `v` and a plain version that is later than the installed one, and has a manifest of at
/// most 1 MiB and an archive of at most 64 MiB.
pub proof fn lemma_offered(r: Release, current: Seq<char>)
    ensures
        package::newer_of(r, current) == Ok::<bool, Seq<char>>(true) <==> {
            &&& !r.draft
            &&& !r.prerelease
            &&& r.tag_name@.len() > 0 && r.tag_name@[0] == 'v'
            &&& package::semver_of(r.tag_name@.skip(1)) is Ok
            &&& package::semver_of(r.tag_name@.skip(1))->Ok_0.3.len() == 0
            &&& package::semver_of(r.tag_name@.skip(1))->Ok_0.4.len() == 0
            &&& package::semver_of(current) is Ok
            &&& later(
                package::semver_of(r.tag_name@.skip(1))->Ok_0,
                package::semver_of(current)->Ok_0,
            )
            &&& has_asset(r, "update.json"@, 0x10_0000)
            &&& has_asset(r, "t7patch-windows-x64.zip"@, 0x400_0000)
        },
{
    lemma_asset(r.assets@, "update.json"@, 0x10_0000, 0);
    lemma_asset(r.assets@, "t7patch-windows-x64.zip"@, 0x400_0000, 0);
}

/// A release that is no update is told from one that is broken: drafts, pre-releases and versions
/// that are not later give no error, and a later one without its assets does.
pub proof fn lemma_not_offered(r: Release, current: Seq<char>)
    requires
        r.tag_name@.len() > 0 && r.tag_name@[0] == 'v',
        package::semver_of(r.tag_name@.skip(1)) is Ok,
        package::semver_of(current) is Ok,
    ensures
        package::newer_of(r, current) is Err <==> {
            &&& !r.draft && !r.prerelease
            &&& package::semver_of(r.tag_name@.skip(1))->Ok_0.3.len() == 0
            &&& package::semver_of(r.tag_name@.skip(1))->Ok_0.4.len() == 0
            &&& later(
                package::semver_of(r.tag_name@.skip(1))->Ok_0,
                package::semver_of(current)->Ok_0,
            )
            &&& !(has_asset(r, "update.json"@, 0x10_0000) && has_asset(
                r,
                "t7patch-windows-x64.zip"@,
                0x400_0000,
            ))
        },
{
    lemma_asset(r.assets@, "update.json"@, 0x10_0000, 0);
    lemma_asset(r.assets@, "t7patch-windows-x64.zip"@, 0x400_0000, 0);
}

/// A manifest belongs to a release if and only if the tag is `v` and its version, and the archive
/// of the release has the announced size.
pub proof fn lemma_belongs(m: Manifest, r: Release)
    ensures
        package::match_of(m, r) is Ok <==> {
            &&& r.tag_name@ == seq!['v'] + m.version@
            &&& m.archive.size <= 0x400_0000
            &&& m.archive.size >= 1
            &&& exists|i: int| #[trigger]
                only_asset(r.assets@, "t7patch-windows-x64.zip"@, i) && r.assets@[i].size
                    == m.archive.size
        },
{
    reveal_strlit("v");
    assert("v"@ =~= seq!['v']);
    lemma_asset(r.assets@, "t7patch-windows-x64.zip"@, 0x400_0000, 0);
    if package::asset_size_of(r.assets@, "t7patch-windows-x64.zip"@, 0x400_0000) is Some {
        let i = choose|i: int| #[trigger]
            only_asset(r.assets@, "t7patch-windows-x64.zip"@, i) && 1 <= r.assets@[i].size
                <= 0x400_0000;
        lemma_asset(r.assets@, "t7patch-windows-x64.zip"@, 0x400_0000, i);
        assert forall|j: int| #[trigger] only_asset(
            r.assets@,
            "t7patch-windows-x64.zip"@,
            j,
        ) implies j == i by {}
    }
}

/// 64 digits from 0 to 9 and a to f.
pub open spec fn digest_text(s: Seq<char>) -> bool {
    s.len() == 64 && forall|i: int|
        0 <= i < 64 ==> ('0' <= (#[trigger] s[i]) <= '9' || 'a' <= s[i] <= 'f')
}

proof fn lemma_digest_text(s: Seq<char>)
    requires
        digest_text(s),
    ensures
        text::utf8(s).len() == 64,
        forall|i: int| 0 <= i < 64 ==> package::is_hex(#[trigger] text::utf8(s)[i]),
{
    text::lemma_utf8_of_ascii(s);
    assert forall|i: int| 0 <= i < 64 implies package::is_hex(#[trigger] text::utf8(s)[i]) by {
        assert(text::utf8(s)[i] == s[i] as u8);
    }
}

/// A file of any size from 1 to the maximum, with any digest, can be described.
pub proof fn lemma_describable(e: Described, maximum: u64)
    requires
        digest_text(e.sha256),
    ensures
        package::valid_entry(e, maximum) == (1 <= e.size <= maximum),
{
    lemma_digest_text(e.sha256);
}

/// What a description says of its digest: nothing but lower-case digits, 64 of them.
pub proof fn lemma_described(e: Described, maximum: u64)
    requires
        package::valid_entry(e, maximum),
    ensures
        1 <= e.size <= maximum,
        text::utf8(e.sha256).len() == 64,
        forall|i: int|
            0 <= i < 64 ==> (0x30 <= (#[trigger] text::utf8(e.sha256)[i]) <= 0x39 || 0x61
                <= text::utf8(e.sha256)[i] <= 0x66),
{
}

proof fn lemma_hex(s: Seq<u8>)
    ensures
        package::hex_bytes(s).len() == 2 * s.len(),
        forall|i: int|
            0 <= i < 2 * s.len() ==> ('0' <= (#[trigger] package::hex_bytes(s)[i]) <= '9' || 'a'
                <= package::hex_bytes(s)[i] <= 'f'),
    decreases s.len(),
{
    if s.len() > 0 {
        let before = s.drop_last();
        lemma_hex(before);
        let h = package::hex_bytes(s);
        assert forall|i: int| 0 <= i < 2 * s.len() implies ('0' <= (#[trigger] h[i]) <= '9' || 'a'
            <= h[i] <= 'f') by {
            if i < 2 * before.len() {
                assert(h[i] == package::hex_bytes(before)[i]);
            }
        }
    }
}

/// Each byte of a digest is written with two digits, the higher one first.
pub proof fn lemma_hex_digits(s: Seq<u8>, i: int)
    requires
        0 <= i < s.len(),
    ensures
        package::hex_bytes(s).len() == 2 * s.len(),
        package::hex_bytes(s)[2 * i] == text::digit_char((s[i] / 16) as int),
        package::hex_bytes(s)[2 * i + 1] == text::digit_char((s[i] % 16) as int),
    decreases s.len(),
{
    let before = s.drop_last();
    lemma_hex(s);
    lemma_hex(before);
    if i < before.len() {
        lemma_hex_digits(before, i);
        assert(before[i] == s[i]);
        assert(package::hex_bytes(s)[2 * i] == package::hex_bytes(before)[2 * i]);
        assert(package::hex_bytes(s)[2 * i + 1] == package::hex_bytes(before)[2 * i + 1]);
    }
}

/// A file meets the description that is made of its own size and digest, and no file of another
/// size or digest does.
pub proof fn lemma_meets(e: Described, bytes: Seq<u8>)
    ensures
        package::meets(e, bytes) <==> bytes.len() == e.size && e.sha256 == package::hex_bytes(
            package::sha256(bytes),
        ),
        package::sha256(bytes).len() == 32 ==> digest_text(
            package::hex_bytes(package::sha256(bytes)),
        ),
{
    lemma_hex(package::sha256(bytes));
}

proof fn lemma_digit(a: int, b: int)
    requires
        0 <= a < 16,
        0 <= b < 16,
        text::digit_char(a) == text::digit_char(b),
    ensures
        a == b,
{
    assert(a < 10 ==> text::digit_char(a) as u32 == 0x30 + a);
    assert(a >= 10 ==> text::digit_char(a) as u32 == 0x57 + a);
    assert(b < 10 ==> text::digit_char(b) as u32 == 0x30 + b);
    assert(b >= 10 ==> text::digit_char(b) as u32 == 0x57 + b);
}

/// Different digests are written differently.
pub proof fn lemma_digests_differ(a: Seq<u8>, b: Seq<u8>)
    requires
        package::hex_bytes(a) == package::hex_bytes(b),
    ensures
        a == b,
{
    lemma_hex(a);
    lemma_hex(b);
    assert(a.len() == b.len());
    assert forall|i: int| 0 <= i < a.len() implies a[i] == b[i] by {
        lemma_hex_digits(a, i);
        lemma_hex_digits(b, i);
        lemma_digit((a[i] / 16) as int, (b[i] / 16) as int);
        lemma_digit((a[i] % 16) as int, (b[i] % 16) as int);
    }
    assert(a =~= b);
}

/// The file `e` is `name`, and can be one of an update.
pub open spec fn is_file(e: Entry, name: Seq<char>) -> bool {
    e.name@ == name && package::valid_entry(e@, 0x200_0000)
}

/// A manifest can be installed if and only if it has format 1, is for this platform, is of a plain
/// release, and describes the archive, of at most 64 MiB, and exactly the program and the library,
/// of at most 32 MiB each, in either order.
pub proof fn lemma_installable(m: Manifest)
    ensures
        package::validity_of(m) is Ok <==> {
            &&& package::semver_of(m.version@) is Ok
            &&& package::semver_of(m.version@)->Ok_0.3.len() == 0
            &&& package::semver_of(m.version@)->Ok_0.4.len() == 0
            &&& m.schema == 1
            &&& m.target@ == "x86_64-pc-windows-msvc"@
            &&& m.archive.name@ == "t7patch-windows-x64.zip"@
            &&& package::valid_entry(m.archive@, 0x400_0000)
            &&& m.files@.len() == 2
            &&& (is_file(m.files@[0], "t7patch.exe"@) && is_file(m.files@[1], "t7patch.dll"@)) || (
            is_file(m.files@[0], "t7patch.dll"@) && is_file(m.files@[1], "t7patch.exe"@))
        },
{
    reveal_with_fuel(package::valid_files, 3);
    reveal_strlit("t7patch.exe");
    reveal_strlit("t7patch.dll");
    assert("t7patch.exe"@[8] != "t7patch.dll"@[8]);
}

/// A program for this platform, byte by byte: `MZ`, the place of the headers, `PE`, the machine and
/// the kind of image. It is a library if and only if the headers say so.
pub proof fn lemma_images(d: Seq<u8>, library: bool)
    ensures
        package::is_image(d, library) <==> d.len() >= 0x40 && d[0] == 0x4d && d[1] == 0x5a && ({
            let nt = d[0x3c] + 0x100 * d[0x3d] + 0x1_0000 * d[0x3e] + 0x100_0000 * d[0x3f];
            &&& 0x40 <= nt <= 0x10_0000
            &&& nt + 26 <= d.len()
            &&& d[nt] == 0x50 && d[nt + 1] == 0x45 && d[nt + 2] == 0 && d[nt + 3] == 0
            &&& d[nt + 4] == 0x64 && d[nt + 5] == 0x86
            &&& d[nt + 24] == 0x0b && d[nt + 25] == 0x02
            &&& (d[nt + 23] & 0x20 != 0) == library
        }),
{
    if d.len() >= 0x40 {
        let nt = d[0x3c] + 0x100 * d[0x3d] + 0x1_0000 * d[0x3e] + 0x100_0000 * d[0x3f];
        if 0x40 <= nt <= 0x10_0000 && nt + 26 <= d.len() {
            let a = d[nt + 22];
            let b = d[nt + 23];
            let flags = (a + 0x100 * b) as u16;
            assert(((a as u16 + 0x100 * (b as u16)) as u16 & 0x2000 != 0) == (b & 0x20 != 0))
                by (bit_vector);
            assert(flags == (a as u16 + 0x100 * (b as u16)) as u16);
        }
    }
}

/// An entry of the archive is a file of the update if and only if it is called like one, is a
/// plain file and no link, has the announced size, and was not there before.
pub proof fn lemma_entries(
    files: Seq<Entry>,
    name: Seq<char>,
    plain: bool,
    size: u64,
    mode: Option<u32>,
    done: Seq<Unpacked>,
    i: int,
)
    requires
        0 <= i < files.len(),
        files[i].name@ == name,
        forall|j: int| 0 <= j < i ==> (#[trigger] files[j]).name@ != name,
    ensures
        package::header_of(files, name, plain, size, mode, done) is Ok <==> plain && size
            == files[i].size && (match mode {
            Some(m) => (m >> 12) & 0xf != 0xa,
            None => true,
        }) && (forall|k: int| 0 <= k < done.len() ==> (#[trigger] done[k]).name != name),
        package::header_of(files, name, plain, size, mode, done) is Ok ==> package::header_of(
            files,
            name,
            plain,
            size,
            mode,
            done,
        )->Ok_0 == i,
{
    lemma_first_file(files, name, 0, i);
    if let Some(m) = mode {
        assert((m & 0o170000 == 0o120000) == ((m >> 12) & 0xf == 0xa)) by (bit_vector);
    }
}

proof fn lemma_first_file(files: Seq<Entry>, name: Seq<char>, j: int, i: int)
    requires
        0 <= j <= i < files.len(),
        files[i].name@ == name,
        forall|k: int| 0 <= k < i ==> (#[trigger] files[k]).name@ != name,
    ensures
        package::file_named(files, name, j) == i,
    decreases i - j,
{
    if j < i {
        lemma_first_file(files, name, j + 1, i);
    }
}

/// The entry at `i` of an archive holds file `k` of the update, with what it announces.
pub open spec fn holds_file(m: Manifest, archive: Seq<u8>, i: int, k: int, data: Seq<u8>) -> bool {
    &&& match package::zip_header(archive, i) {
        Ok((name, plain, size, mode)) => name == m.files@[k].name@ && plain && size
            == m.files@[k].size && (match mode {
            Some(mode) => (mode >> 12) & 0xf != 0xa,
            None => true,
        }),
        Err(_) => false,
    }
    &&& package::zip_data(archive, i, m.files@[k].size + 1) == Ok::<Seq<u8>, Seq<char>>(data)
    &&& package::meets(m.files@[k]@, data)
    &&& package::binary_of(m.files@[k].name@, data) is Ok
}

/// An archive of two entries that hold the two files of the update, in either order, is unpacked.
pub proof fn lemma_unpacked(
    m: Manifest,
    archive: Seq<u8>,
    first: int,
    a: Seq<u8>,
    b: Seq<u8>,
)
    requires
        package::validity_of(m) is Ok,
        package::meets(m.archive@, archive),
        package::zip_count(archive) == Ok::<usize, Seq<char>>(2),
        first == 0 || first == 1,
        holds_file(m, archive, 0, first, a),
        holds_file(m, archive, 1, 1 - first, b),
    ensures
        package::extracted(m, archive) == Ok::<Seq<Unpacked>, Seq<char>>(
            seq![
                Unpacked { name: m.files@[first].name@, data: a },
                Unpacked { name: m.files@[1 - first].name@, data: b },
            ],
        ),
{
    lemma_installable(m);
    reveal_strlit("t7patch.exe");
    reveal_strlit("t7patch.dll");
    assert("t7patch.exe"@[8] != "t7patch.dll"@[8]);
    let files = m.files@;
    assert(files[0].name@ != files[1].name@);
    let none = Seq::<Unpacked>::empty();
    let one = Unpacked { name: files[first].name@, data: a };
    let two = Unpacked { name: files[1 - first].name@, data: b };
    let h0 = package::zip_header(archive, 0)->Ok_0;
    let h1 = package::zip_header(archive, 1)->Ok_0;
    lemma_entries(files, h0.0, h0.1, h0.2, h0.3, none, first);
    assert(package::unpacked_at(m, archive, none, 0) == Ok::<Unpacked, Seq<char>>(one));
    let done = none.push(one);
    assert forall|k: int| 0 <= k < done.len() implies (#[trigger] done[k]).name != h1.0 by {}
    lemma_entries(files, h1.0, h1.1, h1.2, h1.3, done, 1 - first);
    assert(package::unpacked_at(m, archive, done, 1) == Ok::<Unpacked, Seq<char>>(two));
    assert(done.push(two) =~= seq![one, two]);
    reveal_with_fuel(package::unpacked_from, 4);
}

/// A character that can stand in a download address: visible, and neither a backslash nor a hash.
pub open spec fn visible(c: char) -> bool {
    '!' <= c <= '~' && c != '\\' && c != '#'
}

/// One of GitHub's hosts.
pub open spec fn github(host: Seq<char>) -> bool {
    host == "api.github.com"@ || host == "github.com"@ || host
        == "release-assets.githubusercontent.com"@ || host == "objects.githubusercontent.com"@
}

proof fn lemma_slash(s: Seq<char>, i: int, end: int)
    requires
        0 <= i <= end < s.len(),
        s[end] == '/',
        forall|k: int| i <= k < end ==> s[k] != '/',
    ensures
        http::slash_from(s, i) == end,
    decreases end - i,
{
    if i < end {
        lemma_slash(s, i + 1, end);
    }
}

/// Every address on one of GitHub's hosts can be asked, with any path of visible characters.
pub proof fn lemma_addresses(host: Seq<char>, path: Seq<char>)
    requires
        github(host),
        path.len() > 0 && path[0] == '/',
        forall|i: int| 0 <= i < path.len() ==> visible(#[trigger] path[i]),
    ensures
        http::parts_of("https://"@ + host + path) == Ok::<(Seq<char>, Seq<char>), Seq<char>>(
            (host, path),
        ),
{
    reveal_strlit("https://");
    reveal_strlit("api.github.com");
    reveal_strlit("github.com");
    reveal_strlit("release-assets.githubusercontent.com");
    reveal_strlit("objects.githubusercontent.com");
    let url = "https://"@ + host + path;
    let end = 8 + host.len();
    assert(forall|k: int| 0 <= k < host.len() ==> host[k] != '/' && http::plain(#[trigger] host[k]));
    assert forall|k: int| 8 <= k < end implies url[k] != '/' by {
        assert(url[k] == host[k - 8]);
    }
    lemma_slash(url, 8, end as int);
    assert(url.take(8) =~= "https://"@);
    assert(url.subrange(8, end as int) =~= host);
    assert(url.skip(end as int) =~= path);
    assert forall|i: int| 0 <= i < url.len() implies http::plain(#[trigger] url[i]) by {
        if i < 8 {
            assert(url[i] == "https://"@[i]);
        } else if i < end {
            assert(url[i] == host[i - 8]);
        } else {
            assert(url[i] == path[i - end]);
            assert(visible(path[i - end]));
        }
    }
}

/// A status leads to another address exactly if it is one of the five redirects.
pub proof fn lemma_redirects(status: u32)
    ensures
        http::is_redirect(status) <==> 301 <= status <= 303 || 307 <= status <= 308,
{
}

/// A redirect is followed, the answer 200 has a body, and anything else is the end.
pub proof fn lemma_responses(status: u32)
    ensures
        http::response_of(status) == http::Response::Redirect <==> 301 <= status <= 303 || 307
            <= status <= 308,
        http::response_of(status) == http::Response::Body <==> status == 200,
{
}

/// Up to six addresses are asked, one after the other, until the download is cancelled.
pub proof fn lemma_requests(url: Seq<char>, requests: u32, stop: bool)
    requires
        requests <= 6,
    ensures
        http::request_of(url, requests, stop) is Ok <==> requests < 6 && !stop && http::parts_of(
            url,
        ) is Ok,
        requests < 6 && !stop ==> http::request_of(url, requests, stop) == http::parts_of(url)
            && http::requests_after(requests, stop) == requests + 1,
        requests == 6 || stop ==> http::requests_after(requests, stop) == requests,
{
}

/// A body grows piece by piece up to its limit, and never beyond.
pub proof fn lemma_body(body: Seq<u8>, bytes: Seq<u8>, maximum: nat)
    ensures
        http::longer_body(body, bytes, maximum) is Some <==> body.len() + bytes.len() <= maximum,
        body.len() + bytes.len() <= maximum ==> http::longer_body(body, bytes, maximum)->Some_0
            == body + bytes,
{
}

/// What is said of a status that is no answer.
pub proof fn lemma_status_texts(status: u32)
    ensures
        status == 403 || status == 429 <==> http::status_text(status)
            == "GitHub request limit reached. Try again later."@,
        status == 404 ==> http::status_text(status)
            == "The update asset is not available on GitHub."@,
        status != 403 && status != 404 && status != 429 ==> http::status_text(status)
            == "GitHub returned HTTP "@ + text::decimal(status as nat),
{
    reveal_strlit("GitHub request limit reached. Try again later.");
    reveal_strlit("The update asset is not available on GitHub.");
    reveal_strlit("GitHub returned HTTP ");
    let limit = "GitHub request limit reached. Try again later."@;
    let absent = "The update asset is not available on GitHub."@;
    let other = "GitHub returned HTTP "@ + text::decimal(status as nat);
    assert(limit[0] != absent[0]);
    assert(other[8] == "GitHub returned HTTP "@[8]);
    assert(limit[9] != other[9]) by {
        assert(other[9] == "GitHub returned HTTP "@[9]);
    }
}

/// The interface of GitHub is asked for its own format, and every other host for bytes.
pub proof fn lemma_headers(host: &str)
    ensures
        host@ == "api.github.com"@ ==> http::request_headers_of(host)
            == "Accept: application/vnd.github+json\r\nX-GitHub-Api-Version: 2022-11-28\r\n"@,
        host@ != "api.github.com"@ ==> http::request_headers_of(host)
            == "Accept: application/octet-stream\r\n"@,
{
}

/// A check reads the answer 200, finds that there is no release from 404, and fails otherwise.
pub proof fn lemma_check(status: u32)
    ensures
        updater::check_outcome(status) is Read <==> status == 200,
        updater::check_outcome(status) is Nothing <==> status == 404,
{
}

/// A check may start unless something is being done, or is ready to be installed.
pub proof fn lemma_may_check(state: State)
    ensures
        state.may_check_of() <==> state is Idle || state is Available || state is Error,
        state.is_busy() <==> state is Checking || state is Downloading || state is Handoff,
{
}

/// The assets of a release lie on its own page.
pub proof fn lemma_asset_place(r: Release, name: Seq<char>)
    ensures
        package::asset_place(r, name) == "https://github.com/"@ + "staFF6773/T7Patch-Rs"@
            + "/releases/download/"@ + r.tag_name@ + "/"@ + name,
{
}

/// The manifest of every release that is no error is asked for, where it has one of up to 1 MiB.
pub proof fn lemma_manifest_asked(r: Release, installed: Seq<char>, i: int)
    requires
        package::newer_of(r, installed) is Ok,
        only_asset(r.assets@, "update.json"@, i),
    ensures
        updater::manifest_place(r, installed) is Ok <==> 1 <= r.assets@[i].size <= 1_048_576,
        updater::manifest_place(r, installed) is Ok ==> updater::manifest_place(r, installed)->Ok_0
            == (package::asset_place(r, "update.json"@), r.assets@[i].size),
{
    lemma_asset(r.assets@, "update.json"@, 0x10_0000, i);
}

/// The archive is asked for if and only if the manifest came whole, is of up to 1 MiB, can be
/// installed and belongs to the release.
pub proof fn lemma_archive_asked(
    r: Release,
    status: u32,
    length: nat,
    decoded: Result<Manifest, String>,
)
    ensures
        updater::archive_place(r, status, length, decoded) is Ok <==> {
            &&& status == 200
            &&& length <= 1_048_576
            &&& decoded is Ok
            &&& package::validity_of(decoded->Ok_0) is Ok
            &&& package::match_of(decoded->Ok_0, r) is Ok
        },
        updater::archive_place(r, status, length, decoded) is Ok ==> updater::archive_place(
            r,
            status,
            length,
            decoded,
        )->Ok_0 == (decoded->Ok_0, package::asset_place(r, "t7patch-windows-x64.zip"@)),
{
}

/// A file of an update is fit to run if it is an image of its kind; the library must export the
/// start of the patch as well.
pub proof fn lemma_fit(name: Seq<char>, d: Seq<u8>)
    ensures
        package::binary_of(name, d) is Ok <==> package::is_image(d, name == "t7patch.dll"@) && (name
            == "t7patch.dll"@ ==> exports::export_of(d, text::utf8("T7PatchStart"@), true) is Ok),
{
}

/// An archive is opened if and only if its manifest can be installed, it is the announced one, and
/// it has two entries.
pub proof fn lemma_opened(m: Manifest, archive: Seq<u8>, n: usize)
    requires
        package::zip_count(archive) == Ok::<usize, Seq<char>>(n),
    ensures
        package::opens(m, archive) <==> package::validity_of(m) is Ok && package::meets(
            m.archive@,
            archive,
        ) && n == 2,
        !package::opens(m, archive) ==> package::extracted(m, archive) is Err,
{
}

/// The contents of a file count if they are the announced ones and fit to run.
pub proof fn lemma_contents(e: Described, data: Seq<u8>)
    ensures
        package::contents_of(e, data) is Ok <==> package::meets(e, data) && package::binary_of(
            e.name,
            data,
        ) is Ok,
        package::contents_of(e, data) is Ok ==> package::contents_of(e, data)->Ok_0 == (Unpacked {
            name: e.name,
            data,
        }),
{
}

/// What is said of an asset that is missing and of a file that is no program.
pub proof fn lemma_update_errors(name: Seq<char>)
    ensures
        package::asset_error(name) == "Release must contain one valid "@ + name + " asset"@,
        package::binary_error(name) == "Invalid Windows x64 binary: "@ + name,
{
}

} // verus!
