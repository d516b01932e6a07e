//! Segment (program header) records: the class-dependent fixed layout and
//! its decoder.

use vstd::prelude::*;

use crate::gabi;
use crate::types::{Class, Endian, is_class32};
use crate::utils;
use crate::utils::{w32, w64};
use crate::ParseError;

verus! {

/// Segment type code.
#[derive(Debug, Clone, Copy, PartialEq, Eq, Structural)]
pub struct ProgType(pub u32);

/// Segment flag bits.
#[derive(Debug, Clone, Copy, PartialEq, Eq, Structural)]
pub struct ProgFlag(pub u32);

/// One segment descriptor, fully widened: address-sized fields hold 8 bytes
/// whatever the class, with 32-bit values zero-extended.
#[derive(Debug, Clone, Copy, PartialEq, Eq, Structural)]
pub struct ProgramHeader {
    pub p_type: ProgType,
    pub p_offset: u64,
    pub p_vaddr: u64,
    pub p_paddr: u64,
    pub p_filesz: u64,
    pub p_memsz: u64,
    pub p_flags: ProgFlag,
    pub p_align: u64,
}

/// On-disk byte size of one segment record under class `c`.
pub open spec fn phdr_size(c: Class) -> int {
    if is_class32(c) {
        32
    } else {
        56
    }
}

/// The segment record that the bytes of `b` starting at `i` denote under
/// byte order `e` and class `c`. The two classes differ in field widths and
/// in where the flags stand.
#[verifier::opaque]
pub open spec fn phdr_of(e: Endian, c: Class, b: Seq<u8>, i: int) -> ProgramHeader
    recommends
        0 <= i,
        i + phdr_size(c) <= b.len(),
{
    if is_class32(c) {
        ProgramHeader {
            p_type: ProgType(w32(e, b, i) as u32),
            p_offset: w32(e, b, i + 4) as u64,
            p_vaddr: w32(e, b, i + 8) as u64,
            p_paddr: w32(e, b, i + 12) as u64,
            p_filesz: w32(e, b, i + 16) as u64,
            p_memsz: w32(e, b, i + 20) as u64,
            p_flags: ProgFlag(w32(e, b, i + 24) as u32),
            p_align: w32(e, b, i + 28) as u64,
        }
    } else {
        ProgramHeader {
            p_type: ProgType(w32(e, b, i) as u32),
            p_flags: ProgFlag(w32(e, b, i + 4) as u32),
            p_offset: w64(e, b, i + 8) as u64,
            p_vaddr: w64(e, b, i + 16) as u64,
            p_paddr: w64(e, b, i + 24) as u64,
            p_filesz: w64(e, b, i + 32) as u64,
            p_memsz: w64(e, b, i + 40) as u64,
            p_align: w64(e, b, i + 48) as u64,
        }
    }
}

impl ProgramHeader {
    /// Decodes one segment record at the cursor, advancing it past the
    /// record; fails when fewer bytes remain than the record needs.
    pub fn parse(endian: Endian, class: Class, data: &[u8], pos: &mut u64) -> (r: Result<
        ProgramHeader,
        ParseError,
    >)
        ensures
            match r {
                Ok(ph) => *old(pos) + phdr_size(class) <= data@.len() && *final(pos) == *old(pos)
                    + phdr_size(class) && ph == phdr_of(endian, class, data@, *old(pos) as int),
                Err(e) => *old(pos) + phdr_size(class) > data@.len() && e == ParseError::IoFailure
                    && *old(pos) <= *final(pos) <= *old(pos) + phdr_size(class),
            },
    {
        proof {
            reveal(phdr_of);
        }
        if class.0 == gabi::ELFCLASS32 {
            let p_type = match utils::read_u32(endian, data, pos) {
                Ok(v) => ProgType(v),
                Err(e) => return Err(e),
            };
            let p_offset = match utils::read_u32(endian, data, pos) {
                Ok(v) => v as u64,
                Err(e) => return Err(e),
            };
            let p_vaddr = match utils::read_u32(endian, data, pos) {
                Ok(v) => v as u64,
                Err(e) => return Err(e),
            };
            let p_paddr = match utils::read_u32(endian, data, pos) {
                Ok(v) => v as u64,
                Err(e) => return Err(e),
            };
            let p_filesz = match utils::read_u32(endian, data, pos) {
                Ok(v) => v as u64,
                Err(e) => return Err(e),
            };
            let p_memsz = match utils::read_u32(endian, data, pos) {
                Ok(v) => v as u64,
                Err(e) => return Err(e),
            };
            let p_flags = match utils::read_u32(endian, data, pos) {
                Ok(v) => ProgFlag(v),
                Err(e) => return Err(e),
            };
            let p_align = match utils::read_u32(endian, data, pos) {
                Ok(v) => v as u64,
                Err(e) => return Err(e),
            };
            Ok(
                ProgramHeader {
                    p_type,
                    p_offset,
                    p_vaddr,
                    p_paddr,
                    p_filesz,
                    p_memsz,
                    p_flags,
                    p_align,
                },
            )
        } else {
            let p_type = match utils::read_u32(endian, data, pos) {
                Ok(v) => ProgType(v),
                Err(e) => return Err(e),
            };
            let p_flags = match utils::read_u32(endian, data, pos) {
                Ok(v) => ProgFlag(v),
                Err(e) => return Err(e),
            };
            let p_offset = match utils::read_u64(endian, data, pos) {
                Ok(v) => v,
                Err(e) => return Err(e),
            };
            let p_vaddr = match utils::read_u64(endian, data, pos) {
                Ok(v) => v,
                Err(e) => return Err(e),
            };
            let p_paddr = match utils::read_u64(endian, data, pos) {
                Ok(v) => v,
                Err(e) => return Err(e),
            };
            let p_filesz = match utils::read_u64(endian, data, pos) {
                Ok(v) => v,
                Err(e) => return Err(e),
            };
            let p_memsz = match utils::read_u64(endian, data, pos) {
                Ok(v) => v,
                Err(e) => return Err(e),
            };
            let p_align = match utils::read_u64(endian, data, pos) {
                Ok(v) => v,
                Err(e) => return Err(e),
            };
            Ok(
                ProgramHeader {
                    p_type,
                    p_offset,
                    p_vaddr,
                    p_paddr,
                    p_filesz,
                    p_memsz,
                    p_flags,
                    p_align,
                },
            )
        }
    }
}

} // verus!
