//! Named constants of the object-file format: prologue byte positions,
//! magic bytes, class/endianness/version codes, and section type codes.

use vstd::prelude::*;

verus! {

/// Number of bytes in the identification prologue.
pub const EI_NIDENT: usize = 16;

/// Prologue index of the address-class byte.
pub const EI_CLASS: usize = 4;

/// Prologue index of the endianness byte.
pub const EI_DATA: usize = 5;

/// Prologue index of the format-version byte.
pub const EI_VERSION: usize = 6;

/// Prologue index of the ABI byte.
pub const EI_OSABI: usize = 7;

/// Prologue index of the ABI-version byte.
pub const EI_ABIVERSION: usize = 8;

/// First magic byte.
pub const ELFMAG0: u8 = 0x7f;

/// Second magic byte (`E`).
pub const ELFMAG1: u8 = 0x45;

/// Third magic byte (`L`).
pub const ELFMAG2: u8 = 0x4c;

/// Fourth magic byte (`F`).
pub const ELFMAG3: u8 = 0x46;

/// The single supported format version.
pub const EV_CURRENT: u8 = 1;

/// Address-class code for 32-bit files.
pub const ELFCLASS32: u8 = 1;

/// Address-class code for 64-bit files.
pub const ELFCLASS64: u8 = 2;

/// Endianness code for little-endian files.
pub const ELFDATA2LSB: u8 = 1;

/// Endianness code for big-endian files.
pub const ELFDATA2MSB: u8 = 2;

/// ABI code for Linux.
pub const ELFOSABI_LINUX: u8 = 3;

/// Section type code of a symbol table.
pub const SHT_SYMTAB: u32 = 2;

/// Section type code of a string table.
pub const SHT_STRTAB: u32 = 3;

/// Section type code of a section with no file backing (zero-fill memory).
pub const SHT_NOBITS: u32 = 8;

/// Section type code of a dynamic symbol table.
pub const SHT_DYNSYM: u32 = 11;

} // verus!
