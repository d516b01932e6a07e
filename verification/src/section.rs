//! Section header records: the class-dependent fixed layout and its decoder.

use vstd::prelude::*;

use crate::gabi;
use crate::types::{Class, Endian, is_class32};
use crate::utils;
use crate::utils::{w32, w64};
use crate::ParseError;

verus! {

/// Section type code.
#[derive(Debug, Clone, Copy, PartialEq, Eq, Structural)]
pub struct SectionType(pub u32);

/// Section flag bits, widened to 8 bytes.
#[derive(Debug, Clone, Copy, PartialEq, Eq, Structural)]
pub struct SectionFlag(pub u64);

/// One section descriptor, fully widened: address-sized fields hold 8 bytes
/// whatever the class, with 32-bit values zero-extended.
#[derive(Debug, Clone, Copy, PartialEq, Eq, Structural)]
pub struct SectionHeader {
    pub sh_name: u32,
    pub sh_type: SectionType,
    pub sh_flags: SectionFlag,
    pub sh_addr: u64,
    pub sh_offset: u64,
    pub sh_size: u64,
    pub sh_link: u32,
    pub sh_info: u32,
    pub sh_addralign: u64,
    pub sh_entsize: u64,
}

/// On-disk byte size of one section record under class `c`.
pub open spec fn shdr_size(c: Class) -> int {
    if is_class32(c) {
        40
    } else {
        64
    }
}

/// The section record that the bytes of `b` starting at `i` denote under
/// byte order `e` and class `c`.
#[verifier::opaque]
pub open spec fn shdr_of(e: Endian, c: Class, b: Seq<u8>, i: int) -> SectionHeader
    recommends
        0 <= i,
        i + shdr_size(c) <= b.len(),
{
    if is_class32(c) {
        SectionHeader {
            sh_name: w32(e, b, i) as u32,
            sh_type: SectionType(w32(e, b, i + 4) as u32),
            sh_flags: SectionFlag(w32(e, b, i + 8) as u64),
            sh_addr: w32(e, b, i + 12) as u64,
            sh_offset: w32(e, b, i + 16) as u64,
            sh_size: w32(e, b, i + 20) as u64,
            sh_link: w32(e, b, i + 24) as u32,
            sh_info: w32(e, b, i + 28) as u32,
            sh_addralign: w32(e, b, i + 32) as u64,
            sh_entsize: w32(e, b, i + 36) as u64,
        }
    } else {
        SectionHeader {
            sh_name: w32(e, b, i) as u32,
            sh_type: SectionType(w32(e, b, i + 4) as u32),
            sh_flags: SectionFlag(w64(e, b, i + 8) as u64),
            sh_addr: w64(e, b, i + 16) as u64,
            sh_offset: w64(e, b, i + 24) as u64,
            sh_size: w64(e, b, i + 32) as u64,
            sh_link: w32(e, b, i + 40) as u32,
            sh_info: w32(e, b, i + 44) as u32,
            sh_addralign: w64(e, b, i + 48) as u64,
            sh_entsize: w64(e, b, i + 56) as u64,
        }
    }
}

impl SectionHeader {
    /// Decodes one section record at the cursor, advancing it past the
    /// record; fails when fewer bytes remain than the record needs.
    pub fn parse(endian: Endian, class: Class, data: &[u8], pos: &mut u64) -> (r: Result<
        SectionHeader,
        ParseError,
    >)
        ensures
            match r {
                Ok(sh) => *old(pos) + shdr_size(class) <= data@.len() && *final(pos) == *old(pos)
                    + shdr_size(class) && sh == shdr_of(endian, class, data@, *old(pos) as int),
                Err(e) => *old(pos) + shdr_size(class) > data@.len() && e == ParseError::IoFailure
                    && *old(pos) <= *final(pos) <= *old(pos) + shdr_size(class),
            },
    {
        proof {
            reveal(shdr_of);
        }
        if class.0 == gabi::ELFCLASS32 {
            let sh_name = match utils::read_u32(endian, data, pos) {
                Ok(v) => v,
                Err(e) => return Err(e),
            };
            let sh_type = match utils::read_u32(endian, data, pos) {
                Ok(v) => SectionType(v),
                Err(e) => return Err(e),
            };
            let sh_flags = match utils::read_u32(endian, data, pos) {
                Ok(v) => SectionFlag(v as u64),
                Err(e) => return Err(e),
            };
            let sh_addr = match utils::read_u32(endian, data, pos) {
                Ok(v) => v as u64,
                Err(e) => return Err(e),
            };
            let sh_offset = match utils::read_u32(endian, data, pos) {
                Ok(v) => v as u64,
                Err(e) => return Err(e),
            };
            let sh_size = match utils::read_u32(endian, data, pos) {
                Ok(v) => v as u64,
                Err(e) => return Err(e),
            };
            let sh_link = match utils::read_u32(endian, data, pos) {
                Ok(v) => v,
                Err(e) => return Err(e),
            };
            let sh_info = match utils::read_u32(endian, data, pos) {
                Ok(v) => v,
                Err(e) => return Err(e),
            };
            let sh_addralign = match utils::read_u32(endian, data, pos) {
                Ok(v) => v as u64,
                Err(e) => return Err(e),
            };
            let sh_entsize = match utils::read_u32(endian, data, pos) {
                Ok(v) => v as u64,
                Err(e) => return Err(e),
            };
            Ok(
                SectionHeader {
                    sh_name,
                    sh_type,
                    sh_flags,
                    sh_addr,
                    sh_offset,
                    sh_size,
                    sh_link,
                    sh_info,
                    sh_addralign,
                    sh_entsize,
                },
            )
        } else {
            let sh_name = match utils::read_u32(endian, data, pos) {
                Ok(v) => v,
                Err(e) => return Err(e),
            };
            let sh_type = match utils::read_u32(endian, data, pos) {
                Ok(v) => SectionType(v),
                Err(e) => return Err(e),
            };
            let sh_flags = match utils::read_u64(endian, data, pos) {
                Ok(v) => SectionFlag(v),
                Err(e) => return Err(e),
            };
            let sh_addr = match utils::read_u64(endian, data, pos) {
                Ok(v) => v,
                Err(e) => return Err(e),
            };
            let sh_offset = match utils::read_u64(endian, data, pos) {
                Ok(v) => v,
                Err(e) => return Err(e),
            };
            let sh_size = match utils::read_u64(endian, data, pos) {
                Ok(v) => v,
                Err(e) => return Err(e),
            };
            let sh_link = match utils::read_u32(endian, data, pos) {
                Ok(v) => v,
                Err(e) => return Err(e),
            };
            let sh_info = match utils::read_u32(endian, data, pos) {
                Ok(v) => v,
                Err(e) => return Err(e),
            };
            let sh_addralign = match utils::read_u64(endian, data, pos) {
                Ok(v) => v,
                Err(e) => return Err(e),
            };
            let sh_entsize = match utils::read_u64(endian, data, pos) {
                Ok(v) => v,
                Err(e) => return Err(e),
            };
            Ok(
                SectionHeader {
                    sh_name,
                    sh_type,
                    sh_flags,
                    sh_addr,
                    sh_offset,
                    sh_size,
                    sh_link,
                    sh_info,
                    sh_addralign,
                    sh_entsize,
                },
            )
        }
    }
}

} // verus!
