//! The export table of an on-disk x64 DLL, read without loading it.
use crate::bytes;
use crate::bytes::{read_u16, read_u32};
use crate::text::same_bytes;
use vstd::prelude::*;

verus! {

/// Why an export could not be resolved.
#[derive(Clone, Copy, Debug, PartialEq, Eq, Structural)]
pub enum ExportError {
    Invalid,
    NoTable,
    Forwarded,
    Missing,
}

/// What the headers say of the image: offsets into the file and the section count.
#[derive(Clone, Copy, Debug, PartialEq, Eq, Structural)]
pub struct Headers {
    pub nt: u32,
    pub sections: u64,
    pub count: u16,
}

/// The export directory: where it lies in memory, and its three tables in the file.
#[derive(Clone, Copy, Debug, PartialEq, Eq, Structural)]
pub struct Directory {
    pub rva: u32,
    pub size: u32,
    pub names_count: u32,
    pub functions_count: u32,
    pub functions: u64,
    pub names: u64,
    pub ordinals: u64,
}

/// The headers of an x64 image, or `None` if `d` is none.
pub open spec fn headers_of(d: Seq<u8>) -> Option<Headers> {
    match (bytes::u16_at(d, 0), bytes::u32_at(d, 0x3c)) {
        (Some(magic), Some(nt)) => match (
            bytes::u32_at(d, nt as int),
            bytes::u16_at(d, nt + 4),
            bytes::u16_at(d, nt + 6),
            bytes::u16_at(d, nt + 20),
            bytes::u16_at(d, nt + 24),
        ) {
            (Some(signature), Some(machine), Some(count), Some(optional), Some(format)) => {
                if magic == 0x5a4d && signature == 0x4550 && machine == 0x8664 && format == 0x20b
                    && count <= 96 && optional >= 120 {
                    Some(Headers { nt, sections: (nt + 24 + optional) as u64, count })
                } else {
                    None
                }
            },
            _ => None,
        },
        _ => None,
    }
}

/// The file offset of `rva` according to the section headers from the `i`-th on.
pub open spec fn offset_in_sections(d: Seq<u8>, h: Headers, rva: u32, i: int) -> Option<u64>
    decreases h.count - i,
{
    if i >= h.count {
        None
    } else {
        let section = h.sections + i * 40;
        match (bytes::u32_at(d, section + 12), bytes::u32_at(d, section + 16)) {
            (Some(start), Some(raw_size)) => if start <= rva && rva - start < raw_size {
                match bytes::u32_at(d, section + 20) {
                    Some(raw) => Some((raw + (rva - start)) as u64),
                    None => None,
                }
            } else {
                offset_in_sections(d, h, rva, i + 1)
            },
            _ => None,
        }
    }
}

/// The file offset of `rva`: the headers are mapped one to one, the rest through the sections.
pub open spec fn offset_of(d: Seq<u8>, h: Headers, rva: u32) -> Option<u64> {
    match bytes::u32_at(d, h.nt + 84) {
        Some(size) => if rva < size {
            Some(rva as u64)
        } else {
            offset_in_sections(d, h, rva, 0)
        },
        None => None,
    }
}

/// The offset of the file range that a directory field at `at` refers to.
pub open spec fn table_at(d: Seq<u8>, h: Headers, at: int) -> Option<u64> {
    match bytes::u32_at(d, at) {
        Some(rva) => offset_of(d, h, rva),
        None => None,
    }
}

pub open spec fn directory_of(d: Seq<u8>, h: Headers) -> Result<Directory, ExportError> {
    match (bytes::u32_at(d, h.nt + 136), bytes::u32_at(d, h.nt + 140)) {
        (Some(rva), Some(size)) => if rva == 0 || size < 40 {
            Err(ExportError::NoTable)
        } else {
            match offset_of(d, h, rva) {
                Some(at) => match (
                    bytes::u32_at(d, at + 20),
                    bytes::u32_at(d, at + 24),
                    table_at(d, h, at + 28),
                    table_at(d, h, at + 32),
                    table_at(d, h, at + 36),
                ) {
                    (
                        Some(functions_count),
                        Some(names_count),
                        Some(functions),
                        Some(names),
                        Some(ordinals),
                    ) => if names_count > 65536 || functions_count > 65536 {
                        Err(ExportError::Invalid)
                    } else {
                        Ok(
                            Directory {
                                rva,
                                size,
                                names_count,
                                functions_count,
                                functions,
                                names,
                                ordinals,
                            },
                        )
                    },
                    _ => Err(ExportError::Invalid),
                },
                None => Err(ExportError::Invalid),
            }
        },
        _ => Err(ExportError::Invalid),
    }
}

/// A section accepts a code export inside its memory if it is executable, and a data export
/// if all four aligned bytes lie inside its memory and it is readable.
pub open spec fn section_accepts(
    rva: u32,
    start: u32,
    size: u32,
    flags: u32,
    executable: bool,
) -> bool {
    if executable {
        rva - start < size && flags & 0x20000000 != 0
    } else {
        rva % 4 == 0 && rva - start + 4 <= u32::MAX && rva - start + 4 <= size && flags
            & 0x40000000 != 0
    }
}

/// `rva`, if a section from the `i`-th on accepts it before a header cannot be read.
pub open spec fn accepted(d: Seq<u8>, h: Headers, rva: u32, executable: bool, i: int) -> Result<
    u32,
    ExportError,
>
    decreases h.count - i,
{
    if i >= h.count {
        Err(ExportError::Invalid)
    } else {
        let section = h.sections + i * 40;
        match bytes::u32_at(d, section + 12) {
            None => Err(ExportError::Invalid),
            Some(start) => if start > rva {
                accepted(d, h, rva, executable, i + 1)
            } else {
                match (bytes::u32_at(d, section + 8), bytes::u32_at(d, section + 36)) {
                    (Some(size), Some(flags)) => if section_accepts(
                        rva,
                        start,
                        size,
                        flags,
                        executable,
                    ) {
                        Ok(rva)
                    } else {
                        accepted(d, h, rva, executable, i + 1)
                    },
                    _ => Err(ExportError::Invalid),
                }
            },
        }
    }
}

/// The address of the `i`-th named export, which must be no forwarder.
pub open spec fn resolved(
    d: Seq<u8>,
    h: Headers,
    t: Directory,
    executable: bool,
    i: int,
) -> Result<u32, ExportError> {
    match bytes::u16_at(d, t.ordinals + i * 2) {
        Some(ordinal) => if ordinal >= t.functions_count {
            Err(ExportError::Invalid)
        } else {
            match bytes::u32_at(d, t.functions + ordinal * 4) {
                Some(rva) => if rva >= t.rva && t.rva + t.size > u32::MAX {
                    Err(ExportError::Invalid)
                } else if rva >= t.rva && rva < t.rva + t.size {
                    Err(ExportError::Forwarded)
                } else {
                    accepted(d, h, rva, executable, 0)
                },
                None => Err(ExportError::Invalid),
            }
        },
        None => Err(ExportError::Invalid),
    }
}

/// Whether the NUL-terminated string at `at` is `name`.
pub open spec fn named(d: Seq<u8>, at: int, name: Seq<u8>) -> bool {
    &&& at + name.len() + 1 <= d.len()
    &&& d.subrange(at, at + name.len()) == name
    &&& d[at + name.len()] == 0
}

/// The first export called `name` among the names from the `i`-th on.
pub open spec fn lookup(
    d: Seq<u8>,
    h: Headers,
    t: Directory,
    name: Seq<u8>,
    executable: bool,
    i: int,
) -> Result<u32, ExportError>
    decreases t.names_count - i,
{
    if i >= t.names_count {
        Err(ExportError::Missing)
    } else {
        match table_at(d, h, t.names + i * 4) {
            None => Err(ExportError::Invalid),
            Some(at) => if named(d, at as int, name) {
                resolved(d, h, t, executable, i)
            } else {
                lookup(d, h, t, name, executable, i + 1)
            },
        }
    }
}

/// Where the export `name` of the image `d` lies in memory.
pub open spec fn export_of(
    d: Seq<u8>,
    name: Seq<u8>,
    executable: bool,
) -> Result<u32, ExportError> {
    match headers_of(d) {
        None => Err(ExportError::Invalid),
        Some(h) => match directory_of(d, h) {
            Err(e) => Err(e),
            Ok(t) => lookup(d, h, t, name, executable, 0),
        },
    }
}

fn headers(d: &[u8]) -> (r: Option<Headers>)
    ensures
        r == headers_of(d@),
{
    let magic: u16 = read_u16(d, 0)?;
    let nt: u32 = read_u32(d, 0x3c)?;
    let base: u64 = nt as u64;
    let signature: u32 = read_u32(d, base)?;
    let machine: u16 = read_u16(d, base + 4)?;
    let count: u16 = read_u16(d, base + 6)?;
    let optional: u16 = read_u16(d, base + 20)?;
    let format: u16 = read_u16(d, base + 24)?;
    if magic != 0x5a4d || signature != 0x4550 || machine != 0x8664 || format != 0x20b || count > 96
        || optional < 120 {
        return None;
    }
    Some(Headers { nt, sections: base + 24 + optional as u64, count })
}

/// Headers as `headers` gives them.
pub open spec fn sane(h: Headers) -> bool {
    h.count <= 96 && h.sections <= 0x2_0000_0000
}

fn offset(d: &[u8], h: &Headers, rva: u32) -> (r: Option<u64>)
    requires
        sane(*h),
    ensures
        r == offset_of(d@, *h, rva),
        r is Some ==> r->Some_0 <= 0x2_0000_0000,
{
    let size: u32 = read_u32(d, h.nt as u64 + 84)?;
    if rva < size {
        return Some(rva as u64);
    }
    let mut i: u16 = 0;
    while i < h.count
        invariant
            sane(*h),
            i <= h.count,
            offset_in_sections(d@, *h, rva, i as int) == offset_in_sections(d@, *h, rva, 0),
            bytes::u32_at(d@, h.nt + 84) == Some(size),
            rva >= size,
        decreases h.count - i,
    {
        let section: u64 = h.sections + i as u64 * 40;
        let start: u32 = read_u32(d, section + 12)?;
        let raw_size: u32 = read_u32(d, section + 16)?;
        if start <= rva && rva - start < raw_size {
            let raw: u32 = read_u32(d, section + 20)?;
            return Some(raw as u64 + (rva - start) as u64);
        }
        i = i + 1;
    }
    None
}

fn table(d: &[u8], h: &Headers, at: u64) -> (r: Option<u64>)
    requires
        sane(*h),
    ensures
        r == table_at(d@, *h, at as int),
        r is Some ==> r->Some_0 <= 0x2_0000_0000,
{
    let rva: u32 = read_u32(d, at)?;
    offset(d, h, rva)
}

/// A directory as `directory` gives it.
pub open spec fn bounded(t: Directory) -> bool {
    &&& t.names_count <= 65536
    &&& t.functions_count <= 65536
    &&& t.functions <= 0x2_0000_0000
    &&& t.names <= 0x2_0000_0000
    &&& t.ordinals <= 0x2_0000_0000
}

fn directory(d: &[u8], h: &Headers) -> (r: Result<Directory, ExportError>)
    requires
        sane(*h),
    ensures
        r == directory_of(d@, *h),
        r is Ok ==> bounded(r->Ok_0),
{
    let rva: u32 = match read_u32(d, h.nt as u64 + 136) {
        Some(v) => v,
        None => return Err(ExportError::Invalid),
    };
    let size: u32 = match read_u32(d, h.nt as u64 + 140) {
        Some(v) => v,
        None => return Err(ExportError::Invalid),
    };
    if rva == 0 || size < 40 {
        return Err(ExportError::NoTable);
    }
    let at: u64 = match offset(d, h, rva) {
        Some(v) => v,
        None => return Err(ExportError::Invalid),
    };
    match (
        read_u32(d, at + 20),
        read_u32(d, at + 24),
        table(d, h, at + 28),
        table(d, h, at + 32),
        table(d, h, at + 36),
    ) {
        (Some(functions_count), Some(names_count), Some(functions), Some(names), Some(ordinals)) => {
            if names_count > 65536 || functions_count > 65536 {
                Err(ExportError::Invalid)
            } else {
                Ok(
                    Directory {
                        rva,
                        size,
                        names_count,
                        functions_count,
                        functions,
                        names,
                        ordinals,
                    },
                )
            }
        },
        _ => Err(ExportError::Invalid),
    }
}

fn accept(d: &[u8], h: &Headers, rva: u32, executable: bool) -> (r: Result<u32, ExportError>)
    requires
        sane(*h),
    ensures
        r == accepted(d@, *h, rva, executable, 0),
{
    let mut i: u16 = 0;
    while i < h.count
        invariant
            sane(*h),
            i <= h.count,
            accepted(d@, *h, rva, executable, i as int) == accepted(d@, *h, rva, executable, 0),
        decreases h.count - i,
    {
        let section: u64 = h.sections + i as u64 * 40;
        let start: u32 = match read_u32(d, section + 12) {
            Some(v) => v,
            None => return Err(ExportError::Invalid),
        };
        if start <= rva {
            match (read_u32(d, section + 8), read_u32(d, section + 36)) {
                (Some(size), Some(flags)) => {
                    let delta: u32 = rva - start;
                    let valid: bool = if executable {
                        delta < size && flags & 0x20000000 != 0
                    } else {
                        rva % 4 == 0 && delta <= u32::MAX - 4 && delta + 4 <= size && flags
                            & 0x40000000 != 0
                    };
                    if valid {
                        return Ok(rva);
                    }
                },
                _ => return Err(ExportError::Invalid),
            }
        }
        i = i + 1;
    }
    Err(ExportError::Invalid)
}

fn resolve(d: &[u8], h: &Headers, t: &Directory, executable: bool, i: u32) -> (r: Result<
    u32,
    ExportError,
>)
    requires
        sane(*h),
        bounded(*t),
        i < t.names_count,
    ensures
        r == resolved(d@, *h, *t, executable, i as int),
{
    let ordinal: u16 = match read_u16(d, t.ordinals + i as u64 * 2) {
        Some(v) => v,
        None => return Err(ExportError::Invalid),
    };
    if ordinal as u32 >= t.functions_count {
        return Err(ExportError::Invalid);
    }
    let rva: u32 = match read_u32(d, t.functions + ordinal as u64 * 4) {
        Some(v) => v,
        None => return Err(ExportError::Invalid),
    };
    if rva >= t.rva {
        match t.rva.checked_add(t.size) {
            None => return Err(ExportError::Invalid),
            Some(end) => if rva < end {
                return Err(ExportError::Forwarded);
            },
        }
    }
    accept(d, h, rva, executable)
}

fn is_named(d: &[u8], at: u64, name: &[u8]) -> (r: bool)
    ensures
        r == named(d@, at as int, name@),
{
    let n: u64 = d.len() as u64;
    if at > n || name.len() as u64 >= n - at {
        return false;
    }
    let start: usize = at as usize;
    let end: usize = start + name.len();
    let candidate: &[u8] = vstd::slice::slice_subrange(d, start, end);
    same_bytes(candidate, name) && d[end] == 0
}

/// Resolves an export of an on-disk x64 DLL: code must lie in an executable section, data in
/// a readable one and aligned.
pub fn export_location(data: &[u8], name: &[u8], executable: bool) -> (r: Result<u32, ExportError>)
    ensures
        r == export_of(data@, name@, executable),
{
    let h: Headers = match headers(data) {
        Some(v) => v,
        None => return Err(ExportError::Invalid),
    };
    let t: Directory = match directory(data, &h) {
        Ok(v) => v,
        Err(e) => return Err(e),
    };
    let mut i: u32 = 0;
    while i < t.names_count
        invariant
            i <= t.names_count,
            sane(h),
            bounded(t),
            export_of(data@, name@, executable) == lookup(
                data@,
                h,
                t,
                name@,
                executable,
                i as int,
            ),
        decreases t.names_count - i,
    {
        let at: u64 = match table(data, &h, t.names + i as u64 * 4) {
            Some(v) => v,
            None => return Err(ExportError::Invalid),
        };
        if is_named(data, at, name) {
            return resolve(data, &h, &t, executable, i);
        }
        i = i + 1;
    }
    Err(ExportError::Missing)
}

pub open spec fn export_error_text(e: ExportError) -> Seq<char> {
    match e {
        ExportError::Invalid => "Invalid x64 patch DLL / export table"@,
        ExportError::NoTable =>
            "DLL does not export T7PatchStart; rebuild the DLL and EXE together"@,
        ExportError::Forwarded => "Forwarded bootstrap export is not supported"@,
        ExportError::Missing => "T7PatchStart is missing. Rebuild the DLL and EXE together."@,
    }
}

/// What the window shows for an export that could not be resolved.
pub fn export_error(e: ExportError) -> (r: String)
    ensures
        r@ == export_error_text(e),
{
    match e {
        ExportError::Invalid => "Invalid x64 patch DLL / export table".to_owned(),
        ExportError::NoTable =>
            "DLL does not export T7PatchStart; rebuild the DLL and EXE together".to_owned(),
        ExportError::Forwarded => "Forwarded bootstrap export is not supported".to_owned(),
        ExportError::Missing => "T7PatchStart is missing. Rebuild the DLL and EXE together.".to_owned(),
    }
}

pub open spec fn export_result(spec: Result<u32, ExportError>, r: Result<u32, String>) -> bool {
    match spec {
        Ok(rva) => r == Ok::<u32, String>(rva),
        Err(e) => r is Err && r->Err_0@ == export_error_text(e),
    }
}

/// The address of a function that the DLL exports.
pub fn export_rva(data: &[u8], name: &[u8]) -> (r: Result<u32, String>)
    ensures
        export_result(export_of(data@, name@, true), r),
{
    match export_location(data, name, true) {
        Ok(rva) => Ok(rva),
        Err(e) => Err(export_error(e)),
    }
}

/// The address of a 32-bit variable that the DLL exports.
pub fn data_export_rva(data: &[u8], name: &[u8]) -> (r: Result<u32, String>)
    ensures
        export_result(export_of(data@, name@, false), r),
{
    match export_location(data, name, false) {
        Ok(rva) => Ok(rva),
        Err(e) => Err(export_error(e)),
    }
}

/// A resolved data export is aligned, and all four of its bytes lie in one readable section.
pub proof fn lemma_accepted_data(d: Seq<u8>, h: Headers, rva: u32, i: int)
    requires
        0 <= i,
        accepted(d, h, rva, false, i) is Ok,
    ensures
        accepted(d, h, rva, false, i) == Ok::<u32, ExportError>(rva),
        rva % 4 == 0,
        exists|k: int|
            i <= k < h.count && #[trigger] holds_data(d, h.sections + k * 40, rva),
    decreases h.count - i,
{
    let section = h.sections + i * 40;
    let start = bytes::u32_at(d, section + 12)->Some_0;
    if start > rva || !section_accepts(
        rva,
        start,
        bytes::u32_at(d, section + 8)->Some_0,
        bytes::u32_at(d, section + 36)->Some_0,
        false,
    ) {
        lemma_accepted_data(d, h, rva, i + 1);
        let k = choose|k: int|
            i + 1 <= k < h.count && #[trigger] holds_data(d, h.sections + k * 40, rva);
        assert(i <= k < h.count && holds_data(d, h.sections + k * 40, rva));
    } else {
        assert(holds_data(d, section, rva));
    }
}

/// The section header at `section` covers the four bytes at `rva` and is readable.
pub open spec fn holds_data(d: Seq<u8>, section: int, rva: u32) -> bool {
    match (
        bytes::u32_at(d, section + 8),
        bytes::u32_at(d, section + 12),
        bytes::u32_at(d, section + 36),
    ) {
        (Some(size), Some(start), Some(flags)) => start <= rva && rva + 4 <= start + size && flags
            & 0x40000000 != 0,
        _ => false,
    }
}

} // verus!
