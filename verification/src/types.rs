//! The decoded data model: the file header, symbols, and the small
//! code-carrying wrapper types they are built from.

use vstd::prelude::*;

use crate::gabi;

verus! {

/// Address-class code (32- or 64-bit) as read from the prologue.
/// Any byte value is carried; only `ELFCLASS32` selects the 32-bit layouts.
#[derive(Debug, Clone, Copy, PartialEq, Eq, Structural)]
pub struct Class(pub u8);

/// Endianness code as read from the prologue.
/// Any byte value is carried; only `ELFDATA2LSB` selects little-endian.
#[derive(Debug, Clone, Copy, PartialEq, Eq, Structural)]
pub struct Endian(pub u8);

/// Object-file type code (relocatable, executable, ...).
#[derive(Debug, Clone, Copy, PartialEq, Eq, Structural)]
pub struct ObjectFileType(pub u16);

/// Machine architecture code.
#[derive(Debug, Clone, Copy, PartialEq, Eq, Structural)]
pub struct Architecture(pub u16);

/// ABI identifier from the prologue.
#[derive(Debug, Clone, Copy, PartialEq, Eq, Structural)]
pub struct OSABI(pub u8);

/// Symbol type code (low four bits of a symbol's info byte).
#[derive(Debug, Clone, Copy, PartialEq, Eq, Structural)]
pub struct SymbolType(pub u8);

/// Symbol binding code (high four bits of a symbol's info byte).
#[derive(Debug, Clone, Copy, PartialEq, Eq, Structural)]
pub struct SymbolBind(pub u8);

/// Symbol visibility code (low two bits of a symbol's other byte).
#[derive(Debug, Clone, Copy, PartialEq, Eq, Structural)]
pub struct SymbolVis(pub u8);

/// True when the class byte selects the 32-bit field layouts.
/// Every other byte value selects the 64-bit layouts.
pub open spec fn is_class32(c: Class) -> bool {
    c.0 == gabi::ELFCLASS32
}

/// True when the endianness byte selects little-endian interpretation.
/// Every other byte value selects big-endian interpretation.
pub open spec fn is_little(e: Endian) -> bool {
    e.0 == gabi::ELFDATA2LSB
}

/// The fixed-size file header, fully widened: address-sized fields hold
/// 8 bytes whatever the class, with 32-bit values zero-extended.
#[derive(Debug, Clone, Copy, PartialEq, Eq, Structural)]
pub struct FileHeader {
    pub class: Class,
    pub endianness: Endian,
    pub version: u32,
    pub elftype: ObjectFileType,
    pub arch: Architecture,
    pub osabi: OSABI,
    pub abiversion: u8,
    pub e_entry: u64,
    pub e_phoff: u64,
    pub e_shoff: u64,
    pub e_flags: u32,
    pub e_ehsize: u16,
    pub e_phentsize: u16,
    pub e_phnum: u16,
    pub e_shentsize: u16,
    pub e_shnum: u16,
    pub e_shstrndx: u16,
}

/// One decoded symbol-table record with its name already resolved.
#[derive(Debug, PartialEq, Eq)]
pub struct Symbol {
    pub name: String,
    pub value: u64,
    pub size: u64,
    pub shndx: u16,
    pub symtype: SymbolType,
    pub bind: SymbolBind,
    pub vis: SymbolVis,
}

} // verus!
