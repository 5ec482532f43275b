//! What is found in the images of programs and libraries, and what lies in a request to the patch.
use crate::bytes;
use crate::imports::{At, Descriptor, Progress, Query, Reply};
use crate::launcher::exports;
use crate::launcher::exports::{Directory, ExportError, Headers};
use crate::launcher_api;
use crate::launcher_api::StartRequest;
use crate::laws::readers;
use crate::utf16;
use vstd::prelude::*;

verus! {

/// The number in the two bytes from `at` on, the lower first.
pub open spec fn half(d: Seq<u8>, at: int) -> int {
    d[at] + 256 * d[at + 1]
}

/// Bytes `at` to `at + n` are there.
pub open spec fn there(d: Seq<u8>, at: int, n: int) -> bool {
    0 <= at && at + n <= d.len()
}

proof fn lemma_halves(d: Seq<u8>, at: int)
    ensures
        bytes::u16_at(d, at) == (if there(d, at, 2) {
            Some(half(d, at) as u16)
        } else {
            None
        }),
        there(d, at, 2) ==> 0 <= half(d, at) < 0x1_0000,
        bytes::u32_at(d, at) == (if there(d, at, 4) {
            Some(readers::word(d, at) as u32)
        } else {
            None
        }),
        there(d, at, 4) ==> 0 <= readers::word(d, at) < 0x1_0000_0000,
{
}

/// The headers of a library are found if and only if it is a 64-bit image of at most 96 sections
/// whose optional header is long enough. The table of sections follows that header.
pub proof fn lemma_headers(d: Seq<u8>)
    ensures
        ({
            let nt = readers::word(d, 60);
            let found = exports::headers_of(d);
            &&& found is Some <==> {
                &&& there(d, 0, 64)
                &&& half(d, 0) == 0x5a4d
                &&& there(d, nt, 26)
                &&& readers::word(d, nt) == 0x4550
                &&& half(d, nt + 4) == 0x8664
                &&& half(d, nt + 6) <= 96
                &&& half(d, nt + 20) >= 120
                &&& half(d, nt + 24) == 0x20b
            }
            &&& found is Some ==> found->Some_0.nt == nt && found->Some_0.count == half(d, nt + 6)
                && found->Some_0.sections == nt + 24 + half(d, nt + 20)
        }),
{
    lemma_halves(d, 0);
    lemma_halves(d, 60);
    if there(d, 0, 64) {
        let nt = readers::word(d, 60);
        lemma_halves(d, nt);
        lemma_halves(d, nt + 4);
        lemma_halves(d, nt + 6);
        lemma_halves(d, nt + 20);
        lemma_halves(d, nt + 24);
    }
}

/// Section `i` of the file holds the bytes of `rva`.
pub open spec fn covers(d: Seq<u8>, h: Headers, i: int, rva: u32) -> bool {
    let at = h.sections + 40 * i;
    0 <= rva - readers::word(d, at + 12) < readers::word(d, at + 16)
}

proof fn lemma_offset_from(d: Seq<u8>, h: Headers, rva: u32, i: int, k: int)
    requires
        0 <= i <= k < h.count,
        there(d, h.sections as int, 40 * h.count),
        covers(d, h, k, rva),
        forall|j: int| i <= j < k ==> !covers(d, h, j, rva),
    ensures
        exports::offset_in_sections(d, h, rva, i) is Some,
        exports::offset_in_sections(d, h, rva, i)->Some_0 == readers::word(
            d,
            h.sections + 40 * k + 20,
        ) + rva - readers::word(d, h.sections + 40 * k + 12),
    decreases k - i,
{
    let at = h.sections + 40 * i;
    lemma_halves(d, at + 12);
    lemma_halves(d, at + 16);
    lemma_halves(d, at + 20);
    if i < k {
        assert(!covers(d, h, i, rva));
        lemma_offset_from(d, h, rva, i + 1, k);
    }
}

/// An address within the headers lies at the same place in the file, and one within a section as
/// far behind the section's place in the file as behind its place in memory.
pub proof fn lemma_offsets(d: Seq<u8>, h: Headers, rva: u32, k: int)
    requires
        there(d, h.nt as int, 88),
        there(d, h.sections as int, 40 * h.count),
    ensures
        rva < readers::word(d, h.nt + 84) ==> exports::offset_of(d, h, rva) == Some(rva as u64),
        rva >= readers::word(d, h.nt + 84) && 0 <= k < h.count && covers(d, h, k, rva) && (forall|
            j: int,
        |
            0 <= j < k ==> !covers(d, h, j, rva)) ==> exports::offset_of(d, h, rva) is Some
            && exports::offset_of(d, h, rva)->Some_0 == readers::word(d, h.sections + 40 * k + 20)
            + rva - readers::word(d, h.sections + 40 * k + 12),
{
    lemma_halves(d, h.nt + 84);
    if 0 <= k < h.count && covers(d, h, k, rva) && (forall|j: int|
        0 <= j < k ==> !covers(d, h, j, rva)) {
        lemma_offset_from(d, h, rva, 0, k);
    }
}

/// An export table has an address, at least 40 bytes, its three tables, and at most 65536 names
/// and functions.
pub proof fn lemma_directory(d: Seq<u8>, h: Headers, at: int)
    requires
        there(d, h.nt as int, 144),
    ensures
        exports::directory_of(d, h) == Err::<Directory, ExportError>(ExportError::NoTable)
            <==> readers::word(d, h.nt + 136) == 0 || readers::word(d, h.nt + 140) < 40,
        readers::word(d, h.nt + 136) != 0 && readers::word(d, h.nt + 140) >= 40 && exports::offset_of(
            d,
            h,
            readers::word(d, h.nt + 136) as u32,
        ) == Some(at as u64) && there(d, at, 40) && at <= u64::MAX ==> {
            let functions = exports::offset_of(d, h, readers::word(d, at + 28) as u32);
            let names = exports::offset_of(d, h, readers::word(d, at + 32) as u32);
            let ordinals = exports::offset_of(d, h, readers::word(d, at + 36) as u32);
            let found = exports::directory_of(d, h);
            &&& found is Ok <==> functions is Some && names is Some && ordinals is Some
                && readers::word(d, at + 20) <= 65_536 && readers::word(d, at + 24) <= 65_536
            &&& found is Ok ==> found->Ok_0 == (Directory {
                rva: readers::word(d, h.nt + 136) as u32,
                size: readers::word(d, h.nt + 140) as u32,
                functions_count: readers::word(d, at + 20) as u32,
                names_count: readers::word(d, at + 24) as u32,
                functions: functions->Some_0,
                names: names->Some_0,
                ordinals: ordinals->Some_0,
            })
        },
{
    lemma_halves(d, h.nt + 136);
    lemma_halves(d, h.nt + 140);
    lemma_halves(d, at + 20);
    lemma_halves(d, at + 24);
    lemma_halves(d, at + 28);
    lemma_halves(d, at + 32);
    lemma_halves(d, at + 36);
}

/// A function may lie anywhere in a section of code. A variable needs all its four bytes, at an
/// address that is a multiple of four, in a section that can be read.
pub proof fn lemma_sections(rva: u32, start: u32, size: u32, flags: u32)
    requires
        start <= rva,
    ensures
        exports::section_accepts(rva, start, size, flags, true) <==> rva < start + size && (flags
            / 0x2000_0000) % 2 == 1,
        exports::section_accepts(rva, start, size, flags, false) <==> rva + 4 <= start + size && rva
            % 4 == 0 && (flags / 0x4000_0000) % 2 == 1,
{
    assert((flags & 0x20000000 != 0) == ((flags / 0x2000_0000) % 2 == 1)) by (bit_vector);
    assert((flags & 0x40000000 != 0) == ((flags / 0x4000_0000) % 2 == 1)) by (bit_vector);
}

/// Section `i` takes an export at `rva`.
pub open spec fn takes(d: Seq<u8>, h: Headers, i: int, rva: u32, executable: bool) -> bool {
    let at = h.sections + 40 * i;
    readers::word(d, at + 12) <= rva && exports::section_accepts(
        rva,
        readers::word(d, at + 12) as u32,
        readers::word(d, at + 8) as u32,
        readers::word(d, at + 36) as u32,
        executable,
    )
}

proof fn lemma_taken_from(d: Seq<u8>, h: Headers, rva: u32, executable: bool, i: int)
    requires
        0 <= i <= h.count,
        there(d, h.sections as int, 40 * h.count),
    ensures
        exports::accepted(d, h, rva, executable, i) == (if exists|k: int|
            i <= k < h.count && #[trigger] takes(d, h, k, rva, executable) {
            Ok::<u32, ExportError>(rva)
        } else {
            Err(ExportError::Invalid)
        }),
    decreases h.count - i,
{
    if i < h.count {
        let at = h.sections + 40 * i;
        lemma_halves(d, at + 8);
        lemma_halves(d, at + 12);
        lemma_halves(d, at + 36);
        lemma_taken_from(d, h, rva, executable, i + 1);
        if takes(d, h, i, rva, executable) {
            assert(exists|k: int| i <= k < h.count && #[trigger] takes(d, h, k, rva, executable));
        } else if exists|k: int| i <= k < h.count && #[trigger] takes(d, h, k, rva, executable) {
            let k = choose|k: int| i <= k < h.count && #[trigger] takes(d, h, k, rva, executable);
            assert(takes(d, h, k, rva, executable));
        }
    }
}

/// An export is accepted at its own address if any section takes it.
pub proof fn lemma_taken(d: Seq<u8>, h: Headers, rva: u32, executable: bool)
    requires
        there(d, h.sections as int, 40 * h.count),
    ensures
        exports::accepted(d, h, rva, executable, 0) == Ok::<u32, ExportError>(rva) <==> exists|k: int|
            0 <= k < h.count && #[trigger] takes(d, h, k, rva, executable),
{
    lemma_taken_from(d, h, rva, executable, 0);
}

/// A name leads to a function through its ordinal. One that points into the export table itself is
/// a forwarder.
pub proof fn lemma_resolved(d: Seq<u8>, h: Headers, t: Directory, executable: bool, i: int)
    requires
        0 <= i,
        there(d, t.ordinals + 2 * i, 2),
        there(d, t.functions + 4 * half(d, t.ordinals + 2 * i), 4),
        t.rva + t.size <= 0xffff_ffff,
    ensures
        ({
            let ordinal = half(d, t.ordinals + 2 * i);
            let rva = readers::word(d, t.functions + 4 * ordinal);
            exports::resolved(d, h, t, executable, i) == (if ordinal >= t.functions_count {
                Err(ExportError::Invalid)
            } else if t.rva <= rva < t.rva + t.size {
                Err(ExportError::Forwarded)
            } else {
                exports::accepted(d, h, rva as u32, executable, 0)
            })
        }),
{
    lemma_halves(d, t.ordinals + 2 * i);
    lemma_halves(d, t.functions + 4 * half(d, t.ordinals + 2 * i));
}

/// Name `i` of the table is `name`.
pub open spec fn called(d: Seq<u8>, h: Headers, t: Directory, i: int, name: Seq<u8>) -> bool {
    exports::table_at(d, h, t.names + 4 * i) is Some && exports::named(
        d,
        exports::table_at(d, h, t.names + 4 * i)->Some_0 as int,
        name,
    )
}

/// Name `i` of the table is another.
pub open spec fn called_otherwise(
    d: Seq<u8>,
    h: Headers,
    t: Directory,
    i: int,
    name: Seq<u8>,
) -> bool {
    exports::table_at(d, h, t.names + 4 * i) is Some && !exports::named(
        d,
        exports::table_at(d, h, t.names + 4 * i)->Some_0 as int,
        name,
    )
}

proof fn lemma_lookup_from(
    d: Seq<u8>,
    h: Headers,
    t: Directory,
    name: Seq<u8>,
    executable: bool,
    i: int,
    k: int,
)
    requires
        0 <= i <= k <= t.names_count,
        forall|j: int| i <= j < k ==> #[trigger] called_otherwise(d, h, t, j, name),
        k < t.names_count ==> called(d, h, t, k, name),
    ensures
        exports::lookup(d, h, t, name, executable, i) == (if k < t.names_count {
            exports::resolved(d, h, t, executable, k)
        } else {
            Err(ExportError::Missing)
        }),
    decreases k - i,
{
    if i < k {
        assert(called_otherwise(d, h, t, i, name));
        assert(i * 4 == 4 * i);
        lemma_lookup_from(d, h, t, name, executable, i + 1, k);
    }
}

/// The first name that is the wanted one counts, and if none is the export is missing.
pub proof fn lemma_lookup(
    d: Seq<u8>,
    h: Headers,
    t: Directory,
    name: Seq<u8>,
    executable: bool,
    k: int,
)
    requires
        exports::headers_of(d) == Some(h),
        exports::directory_of(d, h) == Ok::<Directory, ExportError>(t),
        0 <= k <= t.names_count,
        forall|j: int| 0 <= j < k ==> #[trigger] called_otherwise(d, h, t, j, name),
        k < t.names_count ==> called(d, h, t, k, name),
    ensures
        exports::export_of(d, name, executable) == (if k < t.names_count {
            exports::resolved(d, h, t, executable, k)
        } else {
            Err(ExportError::Missing)
        }),
{
    lemma_lookup_from(d, h, t, name, executable, 0, k);
}

/// A name stands in the file byte for byte with a NUL behind it.
pub proof fn lemma_named(d: Seq<u8>, at: int, name: Seq<u8>)
    requires
        0 <= at,
    ensures
        exports::named(d, at, name) <==> there(d, at, name.len() as int + 1) && d[at + name.len()] == 0
            && forall|i: int| 0 <= i < name.len() ==> d[at + i] == #[trigger] name[i],
{
    if there(d, at, name.len() as int + 1) {
        let part = d.subrange(at, at + name.len());
        if forall|i: int| 0 <= i < name.len() ==> d[at + i] == #[trigger] name[i] {
            assert(part =~= name);
        }
        if part == name {
            assert forall|i: int| 0 <= i < name.len() implies d[at + i] == #[trigger] name[i] by {
                assert(part[i] == d[at + i]);
            }
        }
    }
}

/// What a search for an import asks for, and where.
pub proof fn lemma_import_questions(p: Progress, entry: u64)
    requires
        p.wf(),
    ensures
        p.at == At::Descriptor ==> p.query() == Query::Descriptor((p.base + p.rva + p.offset) as u64),
        p.at == At::Entry ==> p.query() == (Query::Entry {
            name: (p.base + p.names + 8 * p.index) as u64,
            slot: (p.base + p.thunk + 8 * p.index) as u64,
        }),
        p.at == At::Name(entry) ==> p.query() == Query::Name((p.base + entry + 2) as u64),
{
}

/// A module with names and slots is searched from its first function on. One without is passed
/// over, 20 bytes on, and the list ends at one that is nobody's, cannot be read, or lies behind
/// the directory.
pub proof fn lemma_import_modules(p: Progress, d: Descriptor)
    requires
        p.wf(),
        p.at == At::Descriptor,
    ensures
        d.module != 0 && d.names != 0 && d.thunk != 0 ==> p.after(Reply::Descriptor(Some(d))) == (
        Progress { names: d.names, thunk: d.thunk, index: 0, at: At::Entry, ..p }),
        d.module != 0 && (d.names == 0 || d.thunk == 0) ==> p.after(Reply::Descriptor(Some(d))) == (
        Progress {
            offset: (p.offset + 20) as u64,
            at: if p.offset + 20 < p.size {
                At::Descriptor
            } else {
                At::Done(None)
            },
            ..p
        }),
        d.module == 0 ==> p.after(Reply::Descriptor(Some(d))).at == At::Done(None),
        p.after(Reply::Descriptor(None)).at == At::Done(None),
{
}

/// Functions are looked at in turn, up to 65536 of a module and up to an entry that is empty or
/// cannot be read. Of one with a name the name is read, and if it is the wanted one its slot is
/// the result.
pub proof fn lemma_import_functions(p: Progress, entry: u64, name: Vec<u8>)
    requires
        p.wf(),
    ensures
        ({
            let onward = if p.index < 65_535 {
                Progress { index: (p.index + 1) as u32, at: At::Entry, ..p }
            } else {
                Progress {
                    offset: (p.offset + 20) as u64,
                    at: if p.offset + 20 < p.size {
                        At::Descriptor
                    } else {
                        At::Done(None)
                    },
                    ..p
                }
            };
            let module = Progress {
                offset: (p.offset + 20) as u64,
                at: if p.offset + 20 < p.size {
                    At::Descriptor
                } else {
                    At::Done(None)
                },
                ..p
            };
            &&& p.at == At::Entry ==> p.after(Reply::Entry(Some(entry))) == (if entry == 0 {
                module
            } else if entry < 0x8000_0000_0000_0000 {
                Progress { at: At::Name(entry), ..p }
            } else {
                onward
            })
            &&& p.at == At::Entry ==> p.after(Reply::Entry(None)) == module
            &&& p.at is Name ==> p.after(Reply::Name(Some(name))) == (if name@ == p.wanted {
                Progress { at: At::Done(Some((p.base + p.thunk + 8 * p.index) as u64)), ..p }
            } else {
                onward
            })
            &&& p.at is Name ==> p.after(Reply::Name(None)) == onward
        }),
{
}

proof fn lemma_until_zero_of(u: Seq<u16>)
    ensures
        launcher_api::until_zero(u).len() <= u.len(),
        launcher_api::until_zero(u) == u.take(launcher_api::until_zero(u).len() as int),
        forall|i: int| 0 <= i < launcher_api::until_zero(u).len() ==> u[i] != 0,
        launcher_api::until_zero(u).len() < u.len() ==> u[launcher_api::until_zero(u).len() as int]
            == 0,
    decreases u.len(),
{
    let z = launcher_api::until_zero(u);
    if u.len() > 0 && u[0] != 0 {
        let rest = launcher_api::until_zero(u.skip(1));
        lemma_until_zero_of(u.skip(1));
        assert(z == seq![u[0]] + rest);
        assert(z =~= u.take(z.len() as int)) by {
            assert forall|i: int| 0 <= i < z.len() implies z[i] == u[i] by {
                if i > 0 {
                    assert(rest[i - 1] == u.skip(1)[i - 1]);
                }
            }
        }
        assert forall|i: int| 0 <= i < z.len() implies u[i] != 0 by {
            if i > 0 {
                assert(u.skip(1)[i - 1] != 0);
            }
        }
        if z.len() < u.len() {
            assert(u.skip(1)[rest.len() as int] == 0);
        }
    }
}

/// A request is answered if and only if it has 2576 bytes by its own word, version 1, and a path
/// that ends within its field.
pub proof fn lemma_acceptable(request: StartRequest)
    ensures
        launcher_api::acceptable(request) <==> request.size == 2576 && request.version == 1
            && exists|i: int| 0 <= i < 1024 && #[trigger] request.config_path@[i] == 0,
{
    let u = request.config_path@;
    lemma_until_zero_of(u);
    let n = launcher_api::until_zero(u).len() as int;
    if n < 1024 {
        assert(u[n] == 0);
    } else {
        assert forall|i: int| 0 <= i < 1024 implies #[trigger] u[i] != 0 by {}
    }
}

/// Where the fields of a request lie: four numbers, the path from byte 16 on and the message from
/// byte 2064 on.
pub proof fn lemma_request_layout(request: StartRequest, i: int)
    ensures
        ({
            let d = request.layout();
            &&& d.len() == 2576
            &&& readers::word(d, 0) == request.size
            &&& readers::word(d, 4) == request.version
            &&& readers::word(d, 8) == request.status
            &&& readers::word(d, 12) == request.reserved
            &&& 0 <= i < 1024 ==> half(d, 16 + 2 * i) == request.config_path@[i]
            &&& 0 <= i < 256 ==> half(d, 2064 + 2 * i) == request.message@[i]
        }),
{
    let d = request.layout();
    let path = launcher_api::units_in_memory(request.config_path@);
    let message = launcher_api::units_in_memory(request.message@);
    assert(path.len() == 2048);
    assert(message.len() == 512);
    assert(d.len() == 2576);
    assert(d.subrange(0, 4) =~= bytes::le32(request.size));
    assert(d.subrange(4, 8) =~= bytes::le32(request.version));
    assert(d.subrange(8, 12) =~= bytes::le32(request.status));
    assert(d.subrange(12, 16) =~= bytes::le32(request.reserved));
    lemma_le32_word(d, 0, request.size);
    lemma_le32_word(d, 4, request.version);
    lemma_le32_word(d, 8, request.status);
    lemma_le32_word(d, 12, request.reserved);
    if 0 <= i < 1024 {
        assert(d[16 + 2 * i] == path[2 * i]);
        assert(d[16 + 2 * i + 1] == path[2 * i + 1]);
        assert((2 * i) % 2 == 0 && (2 * i) / 2 == i);
        assert((2 * i + 1) % 2 == 1 && (2 * i + 1) / 2 == i);
    }
    if 0 <= i < 256 {
        assert(d[2064 + 2 * i] == message[2 * i]);
        assert(d[2064 + 2 * i + 1] == message[2 * i + 1]);
        assert((2 * i) % 2 == 0 && (2 * i) / 2 == i);
        assert((2 * i + 1) % 2 == 1 && (2 * i + 1) / 2 == i);
    }
}

proof fn lemma_le32_word(d: Seq<u8>, at: int, v: u32)
    requires
        there(d, at, 4),
        d.subrange(at, at + 4) == bytes::le32(v),
    ensures
        readers::word(d, at) == v,
{
    let part = d.subrange(at, at + 4);
    assert(d[at] == part[0] && d[at + 1] == part[1] && d[at + 2] == part[2] && d[at + 3]
        == part[3]);
}

/// A message keeps its first 255 units, and the field ends in zeros.
pub proof fn lemma_message(text: Seq<char>, i: int)
    requires
        0 <= i < 256,
    ensures
        launcher_api::message_units(text)[i] == (if i < 255 && i < utf16::encoded(text).len() {
            utf16::encoded(text)[i]
        } else {
            0
        }),
        launcher_api::message_units(text).len() == 256,
{
}

} // verus!
