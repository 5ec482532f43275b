//! Releases, update manifests and the files of an update.
use crate::bytes;
use crate::bytes::{read_u16, read_u32};
use crate::launcher::exports;
use crate::launcher::exports::export_rva;
use crate::text;
use crate::text::same_text;
use sha2::Digest;
use std::io::Read;
use vstd::prelude::*;

verus! {

pub const REPOSITORY: &'static str = "staFF6773/T7Patch-Rs";
pub const ARCHIVE: &'static str = "t7patch-windows-x64.zip";
pub const MANIFEST: &'static str = "update.json";
pub const EXE: &'static str = "t7patch.exe";
pub const DLL: &'static str = "t7patch.dll";
pub const TARGET: &'static str = "x86_64-pc-windows-msvc";
pub const MAX_ARCHIVE: u64 = 64 * 1024 * 1024;
pub const MAX_FILE: u64 = 32 * 1024 * 1024;
pub const MAX_JSON: usize = 1024 * 1024;

/// What semver makes of a version: its three numbers, the pre-release identifiers and the build
/// metadata, or the message of its error.
pub uninterp spec fn semver_of(text: Seq<char>) -> Result<
    (u64, u64, u64, Seq<char>, Seq<char>),
    Seq<char>,
>;

/// A version in its parts.
#[derive(Debug)]
pub struct Version {
    pub major: u64,
    pub minor: u64,
    pub patch: u64,
    pub pre: String,
    pub build: String,
}

/// `semver::Version::parse` reads a version or says what is wrong with it; either depends on
/// the text alone.
#[verifier::external_body]
fn parse_version(text: &str) -> (r: Result<Version, String>)
    ensures
        match semver_of(text@) {
            Ok((major, minor, patch, pre, build)) => r is Ok && r->Ok_0.major == major
                && r->Ok_0.minor == minor && r->Ok_0.patch == patch && r->Ok_0.pre@ == pre
                && r->Ok_0.build@ == build,
            Err(error) => r is Err && r->Err_0@ == error,
        },
{
    match semver::Version::parse(text) {
        Ok(v) => Ok(
            Version {
                major: v.major,
                minor: v.minor,
                patch: v.patch,
                pre: v.pre.as_str().to_owned(),
                build: v.build.as_str().to_owned(),
            },
        ),
        Err(e) => Err(e.to_string()),
    }
}

/// Whether a release with these numbers comes no later than `current`, which may be a
/// pre-release: a release follows all of its pre-releases, and build metadata only ever follows.
pub open spec fn no_later(
    version: (u64, u64, u64, Seq<char>, Seq<char>),
    current: (u64, u64, u64, Seq<char>, Seq<char>),
) -> bool {
    ||| version.0 < current.0
    ||| version.0 == current.0 && version.1 < current.1
    ||| version.0 == current.0 && version.1 == current.1 && version.2 < current.2
    ||| version.0 == current.0 && version.1 == current.1 && version.2 == current.2
        && current.3.len() == 0
}

/// `<=` on `semver::Version`, both given as texts; `None` if one is no version. What is said of
/// it covers a left side that is a plain release, without pre-release identifiers and build
/// metadata.
#[verifier::external_body]
fn version_at_most(version: &str, current: &str) -> (r: Option<bool>)
    ensures
        match (semver_of(version@), semver_of(current@)) {
            (Ok(v), Ok(c)) => if v.3.len() == 0 && v.4.len() == 0 {
                r == Some(no_later(v, c))
            } else {
                r is Some
            },
            _ => r is None,
        },
{
    match (semver::Version::parse(version), semver::Version::parse(current)) {
        (Ok(a), Ok(b)) => Some(a <= b),
        _ => None,
    }
}

/// The SHA-256 digest of `bytes`.
pub uninterp spec fn sha256(bytes: Seq<u8>) -> Seq<u8>;

/// `sha2::Sha256::digest` gives 32 bytes that depend on the input alone.
#[verifier::external_body]
fn digest(bytes: &[u8]) -> (r: [u8; 32])
    ensures
        r@ == sha256(bytes@),
{
    sha2::Sha256::digest(bytes).into()
}

/// Bytes as two lower-case hexadecimal digits each.
pub open spec fn hex_bytes(s: Seq<u8>) -> Seq<char>
    decreases s.len(),
{
    if s.len() == 0 {
        seq![]
    } else {
        hex_bytes(s.drop_last()).push(text::digit_char((s.last() / 16) as int)).push(
            text::digit_char((s.last() % 16) as int),
        )
    }
}

/// The digest of `bytes` as a manifest writes it.
pub open spec fn hash_of(bytes: Seq<u8>) -> Seq<char> {
    hex_bytes(sha256(bytes))
}

/// The SHA-256 digest of `bytes` in hexadecimal.
pub fn hash(bytes: &[u8]) -> (r: String)
    ensures
        r@ == hash_of(bytes@),
{
    let d: [u8; 32] = digest(bytes);
    hex_text(vstd::array::array_as_slice(&d))
}

/// Bytes in hexadecimal.
pub fn hex_text(d: &[u8]) -> (r: String)
    ensures
        r@ == hex_bytes(d@),
{
    let mut out = String::new();
    let mut i: usize = 0;
    while i < d.len()
        invariant
            i <= d@.len(),
            out@ == hex_bytes(d@.take(i as int)),
        decreases d@.len() - i,
    {
        out.push(text::digit(d[i] / 16));
        out.push(text::digit(d[i] % 16));
        assert(d@.take(i + 1).drop_last() =~= d@.take(i as int));
        i = i + 1;
    }
    assert(d@.take(i as int) =~= d@);
    out
}

#[derive(Clone, Debug)]
pub struct Asset {
    pub name: String,
    pub size: u64,
}

/// A release as GitHub describes it.
#[derive(Clone, Debug)]
pub struct Release {
    pub tag_name: String,
    pub draft: bool,
    pub prerelease: bool,
    pub assets: Vec<Asset>,
}

/// The assets among the first `n` that are called `name`.
pub open spec fn named_assets(assets: Seq<Asset>, name: Seq<char>, n: int) -> Seq<u64>
    decreases n,
{
    if n <= 0 {
        seq![]
    } else if assets[n - 1].name@ == name {
        named_assets(assets, name, n - 1).push(assets[n - 1].size)
    } else {
        named_assets(assets, name, n - 1)
    }
}

/// The size of the one asset called `name`, if there is exactly one, not empty and not larger
/// than `maximum`.
pub open spec fn asset_size_of(assets: Seq<Asset>, name: Seq<char>, maximum: u64) -> Option<u64> {
    let sizes = named_assets(assets, name, assets.len() as int);
    if sizes.len() == 1 && 0 < sizes[0] <= maximum {
        Some(sizes[0])
    } else {
        None
    }
}

pub open spec fn asset_error(name: Seq<char>) -> Seq<char> {
    "Release must contain one valid "@ + name + " asset"@
}

/// The outcome of looking whether a release is an update for `current`.
pub open spec fn newer_of(r: Release, current: Seq<char>) -> Result<bool, Seq<char>> {
    if r.draft || r.prerelease {
        Ok(false)
    } else if !(r.tag_name@.len() > 0 && r.tag_name@[0] == 'v') {
        Err("Release tag must start with v"@)
    } else {
        match semver_of(r.tag_name@.skip(1)) {
            Err(e) => Err(e),
            Ok(version) => if version.3.len() > 0 || version.4.len() > 0 {
                Ok(false)
            } else {
                match semver_of(current) {
                    Err(e) => Err(e),
                    Ok(installed) => if no_later(version, installed) {
                        Ok(false)
                    } else if asset_size_of(r.assets@, MANIFEST@, MAX_JSON as u64) is None {
                        Err(asset_error(MANIFEST@))
                    } else if asset_size_of(r.assets@, ARCHIVE@, MAX_ARCHIVE) is None {
                        Err(asset_error(ARCHIVE@))
                    } else {
                        Ok(true)
                    },
                }
            },
        }
    }
}

pub open spec fn asset_place(r: Release, name: Seq<char>) -> Seq<char> {
    "https://github.com/"@ + REPOSITORY@ + "/releases/download/"@ + r.tag_name@ + "/"@ + name
}

/// `r` is what `spec` says.
pub open spec fn agrees<T>(spec: Result<T, Seq<char>>, r: Result<T, String>) -> bool {
    match spec {
        Ok(v) => r == Ok::<T, String>(v),
        Err(e) => r is Err && r->Err_0@ == e,
    }
}

/// Two versions were compared.
pub open spec fn newer_led_to(
    release: Release,
    version: Version,
    installed: Result<Version, String>,
    at_most: Option<bool>,
    r: Result<bool, String>,
) -> bool {
    if version.pre@.len() > 0 || version.build@.len() > 0 {
        r == Ok::<bool, String>(false)
    } else {
        match installed {
            Err(e) => r is Err && r->Err_0@ == e@,
            Ok(_) => if at_most == Some(true) {
                r == Ok::<bool, String>(false)
            } else if asset_size_of(release.assets@, MANIFEST@, MAX_JSON as u64) is None {
                r is Err && r->Err_0@ == asset_error(MANIFEST@)
            } else if asset_size_of(release.assets@, ARCHIVE@, MAX_ARCHIVE) is None {
                r is Err && r->Err_0@ == asset_error(ARCHIVE@)
            } else {
                r == Ok::<bool, String>(true)
            },
        }
    }
}

impl Release {
    /// The size of an asset that a release must have.
    pub fn asset_size(&self, name: &str, maximum: u64) -> (r: Result<u64, String>)
        ensures
            match asset_size_of(self.assets@, name@, maximum) {
                Some(size) => r == Ok::<u64, String>(size),
                None => r is Err && r->Err_0@ == asset_error(name@),
            },
    {
        let mut count: u64 = 0;
        let mut size: u64 = 0;
        let mut i: usize = 0;
        while i < self.assets.len()
            invariant
                i <= self.assets@.len(),
                count <= i,
                count == named_assets(self.assets@, name@, i as int).len(),
                count == 1 ==> size == named_assets(self.assets@, name@, i as int)[0],
            decreases self.assets@.len() - i,
        {
            if same_text(self.assets[i].name.as_str(), name) {
                count = count + 1;
                size = self.assets[i].size;
            }
            i = i + 1;
        }
        if count != 1 || size == 0 || size > maximum {
            let mut error = "Release must contain one valid ".to_owned();
            error.append(name);
            error.append(" asset");
            return Err(error);
        }
        Ok(size)
    }

    /// Where an asset is downloaded from.
    pub fn asset_url(&self, name: &str) -> (r: String)
        ensures
            r@ == asset_place(*self, name@),
    {
        let mut out = "https://github.com/".to_owned();
        out.append(REPOSITORY);
        out.append("/releases/download/");
        out.append(self.tag_name.as_str());
        out.append("/");
        out.append(name);
        out
    }

    /// Whether this is a stable release, later than `current`, with both assets.
    pub fn newer_than(&self, current: &str) -> (r: Result<bool, String>)
        ensures
            agrees(newer_of(*self, current@), r),
    {
        if self.draft || self.prerelease {
            return Ok(false);
        }
        let tag: &str = self.tag_name.as_str();
        let n: usize = tag.unicode_len();
        if n == 0 || tag.get_char(0) != 'v' {
            return Err("Release tag must start with v".to_owned());
        }
        let number: &str = tag.substring_char(1, n);
        assert(number@ =~= self.tag_name@.skip(1));
        let version: Version = match parse_version(number) {
            Ok(v) => v,
            Err(e) => return Err(e),
        };
        let installed: Result<Version, String> = parse_version(current);
        self.newer_version(&version, installed, version_at_most(number, current))
    }

    /// The same, once semver has read both versions and compared them.
    pub fn newer_version(
        &self,
        version: &Version,
        installed: Result<Version, String>,
        at_most: Option<bool>,
    ) -> (r: Result<bool, String>)
        ensures
            newer_led_to(*self, *version, installed, at_most, r),
    {
        if version.pre.as_str().unicode_len() > 0 || version.build.as_str().unicode_len() > 0 {
            return Ok(false);
        }
        match installed {
            Err(e) => return Err(e),
            Ok(_) => {},
        }
        match at_most {
            Some(true) => return Ok(false),
            _ => {},
        }
        match self.asset_size(MANIFEST, MAX_JSON as u64) {
            Ok(_) => {},
            Err(e) => return Err(e),
        }
        match self.asset_size(ARCHIVE, MAX_ARCHIVE) {
            Ok(_) => {},
            Err(e) => return Err(e),
        }
        Ok(true)
    }
}

/// A file of an update, as a manifest describes it.
#[derive(Debug)]
pub struct Entry {
    pub name: String,
    pub size: u64,
    pub sha256: String,
}

/// What a manifest says of a file.
#[verifier::ext_equal]
pub struct Described {
    pub name: Seq<char>,
    pub size: u64,
    pub sha256: Seq<char>,
}

impl View for Entry {
    type V = Described;

    open spec fn view(&self) -> Described {
        Described { name: self.name@, size: self.size, sha256: self.sha256@ }
    }
}

impl Clone for Entry {
    fn clone(&self) -> (r: Self)
        ensures
            r@ == self@,
    {
        Entry { name: self.name.clone(), size: self.size, sha256: self.sha256.clone() }
    }
}

/// A lower-case hexadecimal digit.
pub open spec fn is_hex(b: u8) -> bool {
    48 <= b <= 57 || 97 <= b <= 102
}

/// A description that can be met: not empty, not too large, with a well-formed digest.
pub open spec fn valid_entry(e: Described, maximum: u64) -> bool {
    &&& 0 < e.size <= maximum
    &&& text::utf8(e.sha256).len() == 64
    &&& forall|i: int| 0 <= i < 64 ==> is_hex(#[trigger] text::utf8(e.sha256)[i])
}

/// Whether `bytes` is the file that `e` describes.
pub open spec fn meets(e: Described, bytes: Seq<u8>) -> bool {
    bytes.len() == e.size && hash_of(bytes) == e.sha256
}

/// A file of this size and digest was looked at.
pub open spec fn has_digest(e: Entry, size: u64, digest: Seq<char>, r: Result<(), String>) -> bool {
    &&& r is Ok <==> size == e.size && digest == e.sha256@
    &&& r is Err ==> r->Err_0@ == "Size or SHA-256 mismatch: "@ + e.name@
}

impl Entry {
    pub fn valid(&self, maximum: u64) -> (r: bool)
        ensures
            r == valid_entry(self@, maximum),
    {
        let digits: &[u8] = self.sha256.as_str().as_bytes();
        if self.size == 0 || self.size > maximum || digits.len() != 64 {
            return false;
        }
        let mut i: usize = 0;
        while i < 64
            invariant
                i <= 64,
                digits@.len() == 64,
                digits@ == text::utf8(self.sha256@),
                forall|k: int| 0 <= k < i ==> is_hex(#[trigger] digits@[k]),
            decreases 64 - i,
        {
            let b: u8 = digits[i];
            if !((b >= 48 && b <= 57) || (b >= 97 && b <= 102)) {
                assert(!is_hex(digits@[i as int]));
                return false;
            }
            i = i + 1;
        }
        true
    }

    /// Checks a file against its description.
    pub fn verify(&self, bytes: &[u8]) -> (r: Result<(), String>)
        ensures
            r is Ok <==> meets(self@, bytes@),
            r is Err ==> r->Err_0@ == "Size or SHA-256 mismatch: "@ + self.name@,
    {
        self.verify_hash(bytes.len() as u64, &hash(bytes))
    }

    /// The same, once the digest of the file is known.
    pub fn verify_hash(&self, size: u64, hash: &String) -> (r: Result<(), String>)
        ensures
            has_digest(*self, size, hash@, r),
    {
        if size != self.size || !same_text(hash.as_str(), self.sha256.as_str()) {
            let mut error = "Size or SHA-256 mismatch: ".to_owned();
            error.append(self.name.as_str());
            return Err(error);
        }
        Ok(())
    }
}

#[derive(Clone, Debug)]
pub struct Manifest {
    pub schema: u32,
    pub version: String,
    pub target: String,
    pub archive: Entry,
    pub files: Vec<Entry>,
}

/// How many of the first `n` files are valid and called `name`.
pub open spec fn valid_files(files: Seq<Entry>, name: Seq<char>, maximum: u64, n: int) -> nat
    decreases n,
{
    if n <= 0 {
        0
    } else {
        valid_files(files, name, maximum, n - 1) + if files[n - 1].name@ == name && valid_entry(
            files[n - 1]@,
            maximum,
        ) {
            1nat
        } else {
            0
        }
    }
}

/// A manifest that this launcher can install: for this platform, of a plain release, with
/// exactly the executable and the library.
pub open spec fn complete(m: Manifest, pre: Seq<char>, build: Seq<char>) -> bool {
    &&& m.schema == 1
    &&& m.target@ == TARGET@
    &&& pre.len() == 0
    &&& build.len() == 0
    &&& m.archive.name@ == ARCHIVE@
    &&& valid_entry(m.archive@, MAX_ARCHIVE)
    &&& m.files@.len() == 2
    &&& valid_files(m.files@, EXE@, MAX_FILE, 2) == 1
    &&& valid_files(m.files@, DLL@, MAX_FILE, 2) == 1
}

pub open spec fn validity_of(m: Manifest) -> Result<(), Seq<char>> {
    match semver_of(m.version@) {
        Err(e) => Err(e),
        Ok(v) => if complete(m, v.3, v.4) {
            Ok(())
        } else {
            Err("Unsupported or incomplete update manifest"@)
        },
    }
}

/// The outcome of taking a manifest of `length` bytes that was decoded, or the decoder's error.
pub open spec fn manifest_of(length: nat, decoded: Result<Manifest, String>) -> Result<
    Manifest,
    Seq<char>,
> {
    if length > MAX_JSON {
        Err("Update manifest is too large"@)
    } else {
        match decoded {
            Err(e) => Err(e@),
            Ok(m) => match validity_of(m) {
                Ok(_) => Ok(m),
                Err(e) => Err(e),
            },
        }
    }
}

fn count_files(files: &Vec<Entry>, name: &str, maximum: u64) -> (r: usize)
    ensures
        r == valid_files(files@, name@, maximum, files@.len() as int),
{
    let mut count: usize = 0;
    let mut i: usize = 0;
    while i < files.len()
        invariant
            i <= files@.len(),
            count <= i,
            count == valid_files(files@, name@, maximum, i as int),
        decreases files@.len() - i,
    {
        if same_text(files[i].name.as_str(), name) && files[i].valid(maximum) {
            count = count + 1;
        }
        i = i + 1;
    }
    count
}

impl Manifest {
    /// Takes a manifest of `length` bytes that was decoded, or the decoder's error.
    pub fn parse(length: usize, decoded: Result<Manifest, String>) -> (r: Result<Manifest, String>)
        ensures
            agrees(manifest_of(length as nat, decoded), r),
    {
        if length > MAX_JSON {
            return Err("Update manifest is too large".to_owned());
        }
        match decoded {
            Err(e) => Err(e),
            Ok(m) => match m.validate() {
                Ok(()) => Ok(m),
                Err(e) => Err(e),
            },
        }
    }

    /// Checks that this launcher can install what the manifest describes.
    pub fn validate(&self) -> (r: Result<(), String>)
        ensures
            agrees(validity_of(*self), r),
    {
        match parse_version(self.version.as_str()) {
            Err(e) => Err(e),
            Ok(v) => match self.validate_version(&v) {
                Ok(()) => Ok(()),
                Err(e) => Err(e),
            },
        }
    }

    /// The same, once semver has read the version.
    pub fn validate_version(&self, version: &Version) -> (r: Result<(), String>)
        ensures
            r is Ok <==> complete(*self, version.pre@, version.build@),
            r is Err ==> r->Err_0@ == "Unsupported or incomplete update manifest"@,
    {
        if self.schema != 1 || !same_text(self.target.as_str(), TARGET)
            || version.pre.as_str().unicode_len() > 0 || version.build.as_str().unicode_len() > 0
            || !same_text(self.archive.name.as_str(), ARCHIVE) || !self.archive.valid(MAX_ARCHIVE)
            || self.files.len() != 2 || count_files(&self.files, EXE, MAX_FILE) != 1 || count_files(
            &self.files,
            DLL,
            MAX_FILE,
        ) != 1 {
            return Err("Unsupported or incomplete update manifest".to_owned());
        }
        Ok(())
    }

    /// Checks that the manifest belongs to `release`.
    pub fn matches_release(&self, release: &Release) -> (r: Result<(), String>)
        ensures
            agrees(match_of(*self, *release), r),
    {
        let mut tag = "v".to_owned();
        tag.append(self.version.as_str());
        if !same_text(release.tag_name.as_str(), tag.as_str()) {
            return Err("Release and update manifest disagree".to_owned());
        }
        match release.asset_size(ARCHIVE, MAX_ARCHIVE) {
            Err(e) => Err(e),
            Ok(size) => if size != self.archive.size {
                Err("Release and update manifest disagree".to_owned())
            } else {
                Ok(())
            },
        }
    }
}

pub open spec fn match_of(m: Manifest, release: Release) -> Result<(), Seq<char>> {
    if release.tag_name@ != "v"@ + m.version@ {
        Err("Release and update manifest disagree"@)
    } else {
        match asset_size_of(release.assets@, ARCHIVE@, MAX_ARCHIVE) {
            None => Err(asset_error(ARCHIVE@)),
            Some(size) => if size != m.archive.size {
                Err("Release and update manifest disagree"@)
            } else {
                Ok(())
            },
        }
    }
}

pub open spec fn binary_error(name: Seq<char>) -> Seq<char> {
    "Invalid Windows x64 binary: "@ + name
}

/// Whether `d` is an x64 image, and a library exactly if it is to be one.
pub open spec fn is_image(d: Seq<u8>, library: bool) -> bool {
    match (bytes::u16_at(d, 0), bytes::u32_at(d, 0x3c)) {
        (Some(magic), Some(nt)) => {
            &&& magic == 0x5a4d
            &&& 0x40 <= nt <= 0x100000
            &&& bytes::u32_at(d, nt as int) == Some(0x4550u32)
            &&& bytes::u16_at(d, nt + 4) == Some(0x8664u16)
            &&& bytes::u16_at(d, nt + 24) == Some(0x20bu16)
            &&& (bytes::u16_at(d, nt + 22)->Some_0 & 0x2000 != 0) == library
        },
        _ => false,
    }
}

/// What is wrong with a binary of an update.
pub open spec fn binary_of(name: Seq<char>, d: Seq<u8>) -> Result<(), Seq<char>> {
    if !is_image(d, name == DLL@) {
        Err(binary_error(name))
    } else if name == DLL@ {
        match exports::export_of(d, text::utf8("T7PatchStart"@), true) {
            Ok(_) => Ok(()),
            Err(e) => Err(exports::export_error_text(e)),
        }
    } else {
        Ok(())
    }
}

fn check_image(d: &[u8], library: bool) -> (r: bool)
    ensures
        r == is_image(d@, library),
{
    let magic: u16 = match read_u16(d, 0) {
        Some(v) => v,
        None => return false,
    };
    let nt: u32 = match read_u32(d, 0x3c) {
        Some(v) => v,
        None => return false,
    };
    if magic != 0x5a4d || nt < 0x40 || nt > 0x100000 {
        return false;
    }
    let at: u64 = nt as u64;
    match (
        read_u32(d, at),
        read_u16(d, at + 4),
        read_u16(d, at + 24),
        read_u16(d, at + 22),
    ) {
        (Some(signature), Some(machine), Some(format), Some(flags)) => signature == 0x4550
            && machine == 0x8664 && format == 0x20b && (flags & 0x2000 != 0) == library,
        _ => false,
    }
}

/// Checks a binary of an update: an x64 executable, or the library with its bootstrap export.
pub fn verify_pe(name: &str, d: &[u8]) -> (r: Result<(), String>)
    ensures
        agrees(binary_of(name@, d@), r),
{
    let library: bool = same_text(name, DLL);
    if !check_image(d, library) {
        let mut error = "Invalid Windows x64 binary: ".to_owned();
        error.append(name);
        return Err(error);
    }
    if library {
        match export_rva(d, "T7PatchStart".as_bytes()) {
            Ok(_) => Ok(()),
            Err(e) => Err(e),
        }
    } else {
        Ok(())
    }
}

/// How many files zip finds in an archive, or the message of its error.
pub uninterp spec fn zip_count(archive: Seq<u8>) -> Result<usize, Seq<char>>;

/// What zip says of a file of an archive: its name, whether it is a plain file, its size and its
/// Unix mode; or the message of its error.
pub uninterp spec fn zip_header(archive: Seq<u8>, index: int) -> Result<
    (Seq<char>, bool, u64, Option<u32>),
    Seq<char>,
>;

/// The first `limit` bytes that zip unpacks of a file of an archive, or the message of the
/// error.
pub uninterp spec fn zip_data(archive: Seq<u8>, index: int, limit: int) -> Result<
    Seq<u8>,
    Seq<char>,
>;

#[derive(Debug)]
pub struct ZipHeader {
    pub name: String,
    pub is_file: bool,
    pub size: u64,
    pub unix_mode: Option<u32>,
}

/// `zip::ZipArchive::new` on the bytes, and the archive's `len`.
#[verifier::external_body]
fn count_zip(archive: &[u8]) -> (r: Result<usize, String>)
    ensures
        match zip_count(archive@) {
            Ok(n) => r == Ok::<usize, String>(n),
            Err(e) => r is Err && r->Err_0@ == e,
        },
{
    match zip::ZipArchive::new(std::io::Cursor::new(archive)) {
        Ok(zip) => Ok(zip.len()),
        Err(e) => Err(e.to_string()),
    }
}

/// `ZipArchive::by_index`, with the file's `name`, `is_file`, `size` and `unix_mode`.
#[verifier::external_body]
fn read_zip_header(archive: &[u8], index: usize) -> (r: Result<ZipHeader, String>)
    ensures
        match zip_header(archive@, index as int) {
            Ok((name, is_file, size, mode)) => r is Ok && r->Ok_0.name@ == name && r->Ok_0.is_file
                == is_file && r->Ok_0.size == size && r->Ok_0.unix_mode == mode,
            Err(e) => r is Err && r->Err_0@ == e,
        },
{
    let mut zip = zip::ZipArchive::new(std::io::Cursor::new(archive)).map_err(|e| e.to_string())?;
    let file = zip.by_index(index).map_err(|e| e.to_string())?;
    Ok(
        ZipHeader {
            name: file.name().to_owned(),
            is_file: file.is_file(),
            size: file.size(),
            unix_mode: file.unix_mode(),
        },
    )
}

/// `ZipArchive::by_index`, and at most `limit` bytes read from the file.
#[verifier::external_body]
fn read_zip_data(archive: &[u8], index: usize, limit: u64) -> (r: Result<Vec<u8>, String>)
    ensures
        match zip_data(archive@, index as int, limit as int) {
            Ok(data) => r is Ok && r->Ok_0@ == data,
            Err(e) => r is Err && r->Err_0@ == e,
        },
{
    let mut zip = zip::ZipArchive::new(std::io::Cursor::new(archive)).map_err(|e| e.to_string())?;
    let mut file = zip.by_index(index).map_err(|e| e.to_string())?;
    let mut data = Vec::new();
    (&mut file).take(limit).read_to_end(&mut data).map_err(|e| e.to_string())?;
    Ok(data)
}

/// The first file from the `i`-th on that is called `name`, or their number.
pub open spec fn file_named(files: Seq<Entry>, name: Seq<char>, i: int) -> int
    decreases files.len() - i,
{
    if i >= files.len() {
        files.len() as int
    } else if files[i].name@ == name {
        i
    } else {
        file_named(files, name, i + 1)
    }
}

/// A file of an update with its contents.
#[verifier::ext_equal]
pub struct Unpacked {
    pub name: Seq<char>,
    pub data: Seq<u8>,
}

pub open spec fn unpacked_before(done: Seq<Unpacked>, name: Seq<char>) -> bool {
    exists|i: int| 0 <= i < done.len() && (#[trigger] done[i]).name == name
}

pub open spec fn is_link(mode: Option<u32>) -> bool {
    match mode {
        Some(m) => m & 0o170000 == 0o120000,
        None => false,
    }
}

/// The file of the manifest that a file of the archive stands for.
pub open spec fn header_of(
    files: Seq<Entry>,
    name: Seq<char>,
    is_file: bool,
    size: u64,
    mode: Option<u32>,
    done: Seq<Unpacked>,
) -> Result<int, Seq<char>> {
    let at = file_named(files, name, 0);
    if at >= files.len() {
        Err("Unexpected ZIP entry"@)
    } else if unpacked_before(done, name) || !is_file || size != files[at].size || is_link(mode) {
        Err("Duplicate, linked or incorrectly sized ZIP entry"@)
    } else {
        Ok(at)
    }
}

/// Contents that were unpacked, if they are those that the manifest describes.
pub open spec fn contents_of(e: Described, data: Seq<u8>) -> Result<Unpacked, Seq<char>> {
    if !meets(e, data) {
        Err("Size or SHA-256 mismatch: "@ + e.name)
    } else {
        match binary_of(e.name, data) {
            Ok(_) => Ok(Unpacked { name: e.name, data }),
            Err(error) => Err(error),
        }
    }
}

/// The `i`-th file of an archive.
pub open spec fn unpacked_at(m: Manifest, archive: Seq<u8>, done: Seq<Unpacked>, i: int) -> Result<
    Unpacked,
    Seq<char>,
> {
    match zip_header(archive, i) {
        Err(e) => Err(e),
        Ok((name, is_file, size, mode)) => match header_of(
            m.files@,
            name,
            is_file,
            size,
            mode,
            done,
        ) {
            Err(e) => Err(e),
            Ok(at) => match zip_data(archive, i, m.files@[at].size + 1) {
                Err(e) => Err(e),
                Ok(data) => contents_of(m.files@[at]@, data),
            },
        },
    }
}

/// The files of an archive from the `i`-th on, behind those that are `done`.
pub open spec fn unpacked_from(m: Manifest, archive: Seq<u8>, done: Seq<Unpacked>, i: int) -> Result<
    Seq<Unpacked>,
    Seq<char>,
>
    decreases 2 - i,
{
    if i >= 2 {
        Ok(done)
    } else {
        match unpacked_at(m, archive, done, i) {
            Err(e) => Err(e),
            Ok(file) => unpacked_from(m, archive, done.push(file), i + 1),
        }
    }
}

/// Whether an archive is the one that the manifest announces, and is unpacked: only then is anybody
/// asked whether to go on.
pub open spec fn opens(m: Manifest, archive: Seq<u8>) -> bool {
    validity_of(m) is Ok && meets(m.archive@, archive) && zip_count(archive) == Ok::<
        usize,
        Seq<char>,
    >(2)
}

/// The files of an update.
pub open spec fn extracted(m: Manifest, archive: Seq<u8>) -> Result<Seq<Unpacked>, Seq<char>> {
    match validity_of(m) {
        Err(e) => Err(e),
        Ok(_) => if !meets(m.archive@, archive) {
            Err("Size or SHA-256 mismatch: "@ + m.archive.name@)
        } else {
            match zip_count(archive) {
                Err(e) => Err(e),
                Ok(n) => if n != 2 {
                    Err("Update ZIP must contain exactly the EXE and DLL"@)
                } else {
                    unpacked_from(m, archive, seq![], 0)
                },
            }
        },
    }
}

/// A file of an update, ready to be written.
#[derive(Debug)]
pub struct File {
    pub name: String,
    pub data: Vec<u8>,
}

impl View for File {
    type V = Unpacked;

    open spec fn view(&self) -> Unpacked {
        Unpacked { name: self.name@, data: self.data@ }
    }
}

pub open spec fn file_views(files: Seq<File>) -> Seq<Unpacked> {
    Seq::new(files.len(), |i: int| files[i]@)
}

/// `r` is what `spec` says.
pub open spec fn files_agree(
    spec: Result<Seq<Unpacked>, Seq<char>>,
    r: Result<Vec<File>, String>,
) -> bool {
    match spec {
        Ok(files) => r is Ok && file_views(r->Ok_0@) == files,
        Err(e) => r is Err && r->Err_0@ == e,
    }
}

/// Decides on a file of an archive by its header: which file of the manifest it is.
pub fn check_header(files: &Vec<Entry>, header: &ZipHeader, done: &Vec<File>) -> (r: Result<
    usize,
    String,
>)
    ensures
        match header_of(
            files@,
            header.name@,
            header.is_file,
            header.size,
            header.unix_mode,
            file_views(done@),
        ) {
            Ok(at) => r is Ok && r->Ok_0 == at && at < files@.len(),
            Err(e) => r is Err && r->Err_0@ == e,
        },
{
    let mut at: usize = 0;
    while at < files.len() && !same_text(files[at].name.as_str(), header.name.as_str())
        invariant
            at <= files@.len(),
            file_named(files@, header.name@, at as int) == file_named(files@, header.name@, 0),
        decreases files@.len() - at,
    {
        at = at + 1;
    }
    if at == files.len() {
        return Err("Unexpected ZIP entry".to_owned());
    }
    let mut duplicate: bool = false;
    let mut i: usize = 0;
    while i < done.len()
        invariant
            i <= done@.len(),
            duplicate == exists|k: int|
                0 <= k < i && (#[trigger] file_views(done@)[k]).name == header.name@,
        decreases done@.len() - i,
    {
        assert(file_views(done@)[i as int].name == done@[i as int].name@);
        if same_text(done[i].name.as_str(), header.name.as_str()) {
            duplicate = true;
        }
        i = i + 1;
    }
    let link: bool = match header.unix_mode {
        Some(mode) => mode & 0o170000 == 0o120000,
        None => false,
    };
    if duplicate || !header.is_file || header.size != files[at].size || link {
        return Err("Duplicate, linked or incorrectly sized ZIP entry".to_owned());
    }
    Ok(at)
}

/// Decides on the contents of a file.
pub fn check_contents(entry: &Entry, data: Vec<u8>) -> (r: Result<File, String>)
    ensures
        match contents_of(entry@, data@) {
            Ok(file) => r is Ok && r->Ok_0@ == file,
            Err(e) => r is Err && r->Err_0@ == e,
        },
{
    match entry.verify(data.as_slice()) {
        Ok(()) => {},
        Err(e) => return Err(e),
    }
    match verify_pe(entry.name.as_str(), data.as_slice()) {
        Ok(()) => Ok(File { name: entry.name.clone(), data }),
        Err(e) => Err(e),
    }
}

/// The staged files that are read.
pub open spec fn check_staged_ok(entry: &Entry, plain: bool, length: u64) -> bool {
    plain && length == entry.size
}

/// Checks what the file system says of a staged file before it is read: `plain` is a file that
/// is no link.
pub fn check_staged(entry: &Entry, plain: bool, length: u64) -> (r: Result<(), String>)
    ensures
        r is Ok <==> check_staged_ok(entry, plain, length),
        r is Err ==> r->Err_0@ == "Invalid staged file: "@ + entry.name@,
{
    if !plain || length != entry.size {
        let mut error = "Invalid staged file: ".to_owned();
        error.append(entry.name.as_str());
        return Err(error);
    }
    Ok(())
}

proof fn lemma_valid_sizes(m: Manifest, i: int)
    requires
        m.files@.len() == 2,
        valid_files(m.files@, EXE@, MAX_FILE, 2) == 1,
        valid_files(m.files@, DLL@, MAX_FILE, 2) == 1,
        0 <= i < 2,
    ensures
        m.files@[i].size <= MAX_FILE,
        m.files@[0].name@ != m.files@[1].name@,
        m.files@[i].name@ == EXE@ || m.files@[i].name@ == DLL@,
{
    reveal_strlit("t7patch.exe");
    reveal_strlit("t7patch.dll");
    reveal_with_fuel(valid_files, 3);
    assert(EXE@[8] != DLL@[8]);
}

fn extract_file(m: &Manifest, archive: &[u8], done: &Vec<File>, i: usize) -> (r: Result<
    File,
    String,
>)
    requires
        m.files@.len() == 2,
        valid_files(m.files@, EXE@, MAX_FILE, 2) == 1,
        valid_files(m.files@, DLL@, MAX_FILE, 2) == 1,
    ensures
        match unpacked_at(*m, archive@, file_views(done@), i as int) {
            Ok(file) => r is Ok && r->Ok_0@ == file,
            Err(e) => r is Err && r->Err_0@ == e,
        },
{
    let header: ZipHeader = match read_zip_header(archive, i) {
        Ok(h) => h,
        Err(e) => return Err(e),
    };
    let at: usize = match check_header(&m.files, &header, done) {
        Ok(at) => at,
        Err(e) => return Err(e),
    };
    proof {
        lemma_valid_sizes(*m, at as int);
    }
    let data: Vec<u8> = match read_zip_data(archive, i, m.files[at].size + 1) {
        Ok(data) => data,
        Err(e) => return Err(e),
    };
    check_contents(&m.files[at], data)
}

/// The next file of an update was unpacked.
pub open spec fn next_unpacked(
    cancelled: bool,
    m: Manifest,
    archive: Seq<u8>,
    done: Seq<File>,
    r: Result<File, String>,
) -> bool {
    if cancelled {
        r is Err && r->Err_0@ == "Update cancelled"@
    } else {
        match unpacked_at(m, archive, file_views(done), done.len() as int) {
            Ok(file) => r is Ok && r->Ok_0@ == file,
            Err(e) => r is Err && r->Err_0@ == e,
        }
    }
}

/// Unpacks the file behind those that are `done` and checks it, unless the update was `cancelled`.
pub fn next_file(m: &Manifest, archive: &[u8], done: &Vec<File>, cancelled: bool) -> (r: Result<
    File,
    String,
>)
    requires
        m.files@.len() == 2,
        valid_files(m.files@, EXE@, MAX_FILE, 2) == 1,
        valid_files(m.files@, DLL@, MAX_FILE, 2) == 1,
    ensures
        next_unpacked(cancelled, *m, archive@, done@, r),
{
    if cancelled {
        return Err("Update cancelled".to_owned());
    }
    extract_file(m, archive, done, done.len())
}

/// Unpacks an update and checks everything in it. `cancelled` is asked before each file.
pub fn extract<F: Fn() -> bool>(manifest: &Manifest, archive: &[u8], cancelled: F) -> (r: Result<
    Vec<File>,
    String,
>)
    requires
        cancelled.requires(()),
    ensures
        if opens(*manifest, archive@) {
            ||| cancelled.ensures((), false) && files_agree(extracted(*manifest, archive@), r)
            ||| cancelled.ensures((), true) && r is Err && r->Err_0@ == "Update cancelled"@
        } else {
            files_agree(extracted(*manifest, archive@), r)
        },
{
    match manifest.validate() {
        Ok(()) => {},
        Err(e) => return Err(e),
    }
    match manifest.archive.verify(archive) {
        Ok(()) => {},
        Err(e) => return Err(e),
    }
    match count_zip(archive) {
        Ok(n) => if n != 2 {
            return Err("Update ZIP must contain exactly the EXE and DLL".to_owned());
        },
        Err(e) => return Err(e),
    }
    let mut done: Vec<File> = Vec::new();
    assert(file_views(done@) =~= seq![]);
    while done.len() < 2
        invariant
            done@.len() <= 2,
            cancelled.requires(()),
            done@.len() > 0 ==> cancelled.ensures((), false),
            opens(*manifest, archive@),
            manifest.files@.len() == 2,
            valid_files(manifest.files@, EXE@, MAX_FILE, 2) == 1,
            valid_files(manifest.files@, DLL@, MAX_FILE, 2) == 1,
            extracted(*manifest, archive@) == unpacked_from(
                *manifest,
                archive@,
                file_views(done@),
                done@.len() as int,
            ),
        decreases 2 - done@.len(),
    {
        let stop: bool = cancelled();
        match next_file(manifest, archive, &done, stop) {
            Ok(file) => {
                let ghost before = file_views(done@);
                let ghost unpacked = file@;
                done.push(file);
                assert(file_views(done@) =~= before.push(unpacked));
            },
            Err(e) => return Err(e),
        }
    }
    Ok(done)
}

proof fn lemma_unpacked_at(m: Manifest, archive: Seq<u8>, done: Seq<Unpacked>, i: int)
    requires
        unpacked_at(m, archive, done, i) is Ok,
    ensures
        ({
            let file = unpacked_at(m, archive, done, i)->Ok_0;
            let at = file_named(m.files@, file.name, 0);
            &&& 0 <= at < m.files@.len()
            &&& m.files@[at].name@ == file.name
            &&& meets(m.files@[at]@, file.data)
            &&& binary_of(file.name, file.data) is Ok
            &&& !unpacked_before(done, file.name)
        }),
{
    let header = zip_header(archive, i)->Ok_0;
    lemma_file_named(m.files@, header.0, 0);
}

proof fn lemma_file_named(files: Seq<Entry>, name: Seq<char>, i: int)
    requires
        0 <= i <= files.len(),
    ensures
        i <= file_named(files, name, i) <= files.len(),
        file_named(files, name, i) < files.len() ==> files[file_named(files, name, i)].name@ == name,
    decreases files.len() - i,
{
    if i < files.len() {
        lemma_file_named(files, name, i + 1);
    }
}

/// Whatever an archive holds, an update that is unpacked consists of the executable and the
/// library, each as the manifest describes it and each a binary for this platform.
pub proof fn lemma_extracted_pair(m: Manifest, archive: Seq<u8>)
    requires
        extracted(m, archive) is Ok,
    ensures
        ({
            let files = extracted(m, archive)->Ok_0;
            &&& files.len() == 2
            &&& files[0].name != files[1].name
            &&& forall|k: int|
                0 <= k < 2 ==> {
                    &&& (#[trigger] files[k]).name == EXE@ || files[k].name == DLL@
                    &&& binary_of(files[k].name, files[k].data) is Ok
                    &&& exists|at: int|
                        0 <= at < 2 && (#[trigger] m.files@[at]).name@ == files[k].name && meets(
                            m.files@[at]@,
                            files[k].data,
                        )
                }
        }),
{
    reveal_with_fuel(unpacked_from, 3);
    let none = Seq::<Unpacked>::empty();
    let first = unpacked_at(m, archive, none, 0)->Ok_0;
    let one = none.push(first);
    let second = unpacked_at(m, archive, one, 1)->Ok_0;
    lemma_unpacked_at(m, archive, none, 0);
    lemma_unpacked_at(m, archive, one, 1);
    let files = extracted(m, archive)->Ok_0;
    assert(files == one.push(second));
    assert(one[0].name == first.name);
    let a = file_named(m.files@, first.name, 0);
    let b = file_named(m.files@, second.name, 0);
    lemma_valid_sizes(m, a);
    lemma_valid_sizes(m, b);
    assert(m.files@[a].name@ == files[0].name);
    assert(m.files@[b].name@ == files[1].name);
}

} // verus!
