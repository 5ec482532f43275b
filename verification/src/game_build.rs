//! The game builds that the patch knows, and where their code lies.
use crate::bytes;
use crate::bytes::{read_u16, read_u32};
use vstd::prelude::*;

verus! {

#[derive(Debug, Clone, Copy, PartialEq, Eq, Structural)]
pub enum Build {
    Unknown,
    February2026,
    September2026,
}

pub open spec fn build_of(timestamp: u32, size: u32) -> Build {
    if timestamp == 0x693D731E && (size == 0x1D74AC00 || size == 0x1D74B000) {
        Build::February2026
    } else if timestamp == 0x6A7B6355 && (size == 0x1D75BC00 || size == 0x1D75C000) {
        Build::September2026
    } else {
        Build::Unknown
    }
}

/// Recognises a build by its link time and image size.
pub fn fingerprint(timestamp: u32, size: u32) -> (r: Build)
    ensures
        r == build_of(timestamp, size),
{
    match (timestamp, size) {
        (0x693D731E, 0x1D74AC00) => Build::February2026,
        (0x693D731E, 0x1D74B000) => Build::February2026,
        (0x6A7B6355, 0x1D75BC00) => Build::September2026,
        (0x6A7B6355, 0x1D75C000) => Build::September2026,
        _ => Build::Unknown,
    }
}

/// Where an address of the February build lies in `build`.
pub open spec fn translated(rva: int, build: Build) -> int {
    if build == Build::September2026 && 0x1D29C20 <= rva < 0x2EFF000 {
        rva - 0x6C0
    } else {
        rva
    }
}

/// Maps an address of the February build to `build`.
pub fn translate_rva(rva: usize, build: Build) -> (r: usize)
    ensures
        r == translated(rva as int, build),
{
    match build {
        Build::September2026 => if rva >= 0x1D29C20 && rva < 0x2EFF000 {
            rva - 0x6C0
        } else {
            rva
        },
        _ => rva,
    }
}

/// Within the shifted range, and on either side of it, no two addresses are mapped to one.
pub proof fn lemma_translation_injective(a: int, b: int, build: Build)
    requires
        translated(a, build) == translated(b, build),
        (0x1D29C20 <= a < 0x2EFF000) == (0x1D29C20 <= b < 0x2EFF000),
    ensures
        a == b,
{
}

/// The absolute address of `rva` in a game loaded at `base`.
pub fn address(base: usize, rva: usize, build: Build) -> (r: usize)
    requires
        base + rva <= usize::MAX,
    ensures
        r == base + translated(rva as int, build),
{
    base + translate_rva(rva, build)
}

/// The offset of the NT headers that the DOS header `dos` gives, if it is one.
pub open spec fn nt_offset_of(dos: Seq<u8>) -> Option<u32> {
    match (bytes::u16_at(dos, 0), bytes::u32_at(dos, 0x3c)) {
        (Some(magic), Some(offset)) => if magic == 0x5A4D && 0x40 <= offset <= 0x100000 {
            Some(offset)
        } else {
            None
        },
        _ => None,
    }
}

/// The build that the NT headers `nt` give.
pub open spec fn build_of_headers(nt: Seq<u8>) -> Build {
    match (
        bytes::u32_at(nt, 0),
        bytes::u16_at(nt, 4),
        bytes::u32_at(nt, 8),
        bytes::u16_at(nt, 24),
        bytes::u32_at(nt, 80),
    ) {
        (Some(signature), Some(machine), Some(timestamp), Some(format), Some(size)) => {
            if nt.len() >= 0x108 && signature == 0x4550 && machine == 0x8664 && format == 0x20b {
                build_of(timestamp, size)
            } else {
                Build::Unknown
            }
        },
        _ => Build::Unknown,
    }
}

/// Where the NT headers start, from the first 64 bytes of the image; a negative or distant
/// offset is not followed.
pub fn nt_offset(dos: &[u8]) -> (r: Option<u32>)
    ensures
        r == nt_offset_of(dos@),
{
    let magic: u16 = read_u16(dos, 0)?;
    let offset: u32 = read_u32(dos, 0x3c)?;
    if magic == 0x5A4D && offset >= 0x40 && offset <= 0x100000 {
        Some(offset)
    } else {
        None
    }
}

/// The build that the headers of a running game show.
pub open spec fn current_build_of(dos: Option<&[u8]>, nt: Option<&[u8]>) -> Build {
    match (dos, nt) {
        (Some(dos), Some(nt)) => if nt_offset_of(dos@) is Some {
            build_of_headers(nt@)
        } else {
            Build::Unknown
        },
        _ => Build::Unknown,
    }
}

/// The build of the running game, from its headers as far as they could be read.
pub fn current_build(dos: Option<&[u8]>, nt: Option<&[u8]>) -> (r: Build)
    ensures
        r == current_build_of(dos, nt),
{
    match (dos, nt) {
        (Some(dos), Some(nt)) => {
            if nt_offset(dos).is_none() || nt.len() < 0x108 {
                return Build::Unknown;
            }
            match (
                read_u32(nt, 0),
                read_u16(nt, 4),
                read_u32(nt, 8),
                read_u16(nt, 24),
                read_u32(nt, 80),
            ) {
                (Some(signature), Some(machine), Some(timestamp), Some(format), Some(size)) => {
                    if signature == 0x4550 && machine == 0x8664 && format == 0x20b {
                        fingerprint(timestamp, size)
                    } else {
                        Build::Unknown
                    }
                },
                _ => Build::Unknown,
            }
        },
        _ => Build::Unknown,
    }
}

} // verus!
