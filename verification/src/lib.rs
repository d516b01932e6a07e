//! Decoder for the standard object-file binary format: it materializes a
//! read-only [`File`] — header, segment descriptors, and named sections with
//! resolved content — from an in-memory byte image, and decodes symbol-table
//! records on demand.

use vstd::prelude::*;

pub mod gabi;
pub mod section;
pub mod segment;
pub mod types;
pub mod utils;

use crate::utils::{str_bytes, utf8_decode, w16, w32, w64};

verus! {

/// Errors reported while decoding an object-file image.
#[derive(Debug, Clone, Copy, PartialEq, Eq, Structural)]
pub enum ParseError {
    /// A read or seek went past the end of the input bytes, or an index
    /// pointed outside the decoded tables.
    IoFailure,
    /// The four magic bytes at the start of the image, which were wrong.
    BadMagic(u8, u8, u8, u8),
    /// The version byte of the prologue, which is not the supported one.
    UnsupportedVersion(u8),
    /// A name in a string table was not valid text.
    TextDecodeFailure,
}

/// A section: its descriptor, its resolved name, and its loaded raw content
/// (left empty for sections without file backing).
#[derive(Debug)]
pub struct Section {
    pub name: String,
    pub shdr: section::SectionHeader,
    pub data: Vec<u8>,
}

/// A fully materialized object file: header, segment descriptors in on-disk
/// order, and sections with resolved names and content. Immutable once
/// constructed.
#[derive(Debug)]
pub struct File {
    pub ehdr: types::FileHeader,
    pub phdrs: Vec<segment::ProgramHeader>,
    pub sections: Vec<Section>,
}

/// True when the first four bytes of `b` are the format's magic constant.
pub open spec fn magic_ok(b: Seq<u8>) -> bool
    recommends
        b.len() >= 4,
{
    b[0] == gabi::ELFMAG0 && b[1] == gabi::ELFMAG1 && b[2] == gabi::ELFMAG2 && b[3]
        == gabi::ELFMAG3
}

/// True when `b` starts with a whole prologue whose magic and version bytes
/// are the supported ones.
pub open spec fn ident_ok(b: Seq<u8>) -> bool {
    b.len() >= gabi::EI_NIDENT && magic_ok(b) && b[gabi::EI_VERSION as int] == gabi::EV_CURRENT
}

/// The address class that the prologue of `b` declares.
pub open spec fn spec_class(b: Seq<u8>) -> types::Class {
    types::Class(b[gabi::EI_CLASS as int])
}

/// The endianness that the prologue of `b` declares.
pub open spec fn spec_endian(b: Seq<u8>) -> types::Endian {
    types::Endian(b[gabi::EI_DATA as int])
}

/// On-disk byte size of the file header fields that follow the prologue,
/// under class `c`.
pub open spec fn ehdr_size(c: types::Class) -> int {
    if types::is_class32(c) {
        36
    } else {
        48
    }
}

/// The file header that `ident` (a whole prologue) and the bytes of `b`
/// starting at `i` denote. Address-sized fields are 4 bytes zero-extended
/// under the 32-bit class and 8 bytes under the 64-bit class.
#[verifier::opaque]
pub open spec fn ehdr_of(ident: Seq<u8>, b: Seq<u8>, i: int) -> types::FileHeader
    recommends
        ident.len() >= gabi::EI_NIDENT,
        0 <= i,
        i + ehdr_size(spec_class(ident)) <= b.len(),
{
    let e = spec_endian(ident);
    let c = spec_class(ident);
    let base = if types::is_class32(c) {
        i + 24
    } else {
        i + 36
    };
    types::FileHeader {
        class: c,
        endianness: e,
        elftype: types::ObjectFileType(w16(e, b, i) as u16),
        arch: types::Architecture(w16(e, b, i + 2) as u16),
        version: w32(e, b, i + 4) as u32,
        osabi: types::OSABI(ident[gabi::EI_OSABI as int]),
        abiversion: ident[gabi::EI_ABIVERSION as int],
        e_entry: (if types::is_class32(c) {
            w32(e, b, i + 8)
        } else {
            w64(e, b, i + 8)
        }) as u64,
        e_phoff: (if types::is_class32(c) {
            w32(e, b, i + 12)
        } else {
            w64(e, b, i + 16)
        }) as u64,
        e_shoff: (if types::is_class32(c) {
            w32(e, b, i + 16)
        } else {
            w64(e, b, i + 24)
        }) as u64,
        e_flags: w32(e, b, base - 4) as u32,
        e_ehsize: w16(e, b, base) as u16,
        e_phentsize: w16(e, b, base + 2) as u16,
        e_phnum: w16(e, b, base + 4) as u16,
        e_shentsize: w16(e, b, base + 6) as u16,
        e_shnum: w16(e, b, base + 8) as u16,
        e_shstrndx: w16(e, b, base + 10) as u16,
    }
}

/// The file header that the image `b` declares: the prologue is its first
/// 16 bytes and the remaining header fields follow at byte 16.
pub open spec fn spec_ehdr(b: Seq<u8>) -> types::FileHeader {
    ehdr_of(b, b, 16)
}

/// True when the image holds the whole file header after the prologue.
pub open spec fn header_fits(b: Seq<u8>) -> bool {
    16 + ehdr_size(spec_class(b)) <= b.len()
}

/// The segment record that the image declares at table index `i`.
pub open spec fn spec_phdr_at(b: Seq<u8>, i: int) -> segment::ProgramHeader {
    segment::phdr_of(
        spec_endian(b),
        spec_class(b),
        b,
        spec_ehdr(b).e_phoff + i * segment::phdr_size(spec_class(b)),
    )
}

/// True when the whole declared segment table lies within the image.
pub open spec fn segments_fit(b: Seq<u8>) -> bool {
    let h = spec_ehdr(b);
    h.e_phnum == 0 || h.e_phoff + h.e_phnum * segment::phdr_size(spec_class(b)) <= b.len()
}

/// The section record that the image declares at table index `j`.
pub open spec fn spec_shdr_at(b: Seq<u8>, j: int) -> section::SectionHeader {
    section::shdr_of(
        spec_endian(b),
        spec_class(b),
        b,
        spec_ehdr(b).e_shoff + j * section::shdr_size(spec_class(b)),
    )
}

/// True when the whole declared section header table lies within the image.
pub open spec fn shdrs_fit(b: Seq<u8>) -> bool {
    let h = spec_ehdr(b);
    h.e_shnum == 0 || h.e_shoff + h.e_shnum * section::shdr_size(spec_class(b)) <= b.len()
}

/// True when section `j` either has no file backing or declares content
/// that lies within the image.
pub open spec fn content_ok_at(b: Seq<u8>, j: int) -> bool {
    let sh = spec_shdr_at(b, j);
    sh.sh_type.0 == gabi::SHT_NOBITS || sh.sh_offset + sh.sh_size <= b.len()
}

/// True when every declared section's content lies within the image.
pub open spec fn content_fits(b: Seq<u8>) -> bool {
    forall|j: int| 0 <= j < spec_ehdr(b).e_shnum ==> content_ok_at(b, j)
}

/// The content of section `j`: empty for sections without file backing,
/// else exactly the declared byte range of the image.
pub open spec fn spec_content_at(b: Seq<u8>, j: int) -> Seq<u8> {
    let sh = spec_shdr_at(b, j);
    if sh.sh_type.0 == gabi::SHT_NOBITS {
        Seq::empty()
    } else {
        b.subrange(sh.sh_offset as int, sh.sh_offset + sh.sh_size)
    }
}

/// True when the declared section-name table index points at a section
/// (trivially true for an image without sections).
pub open spec fn strtab_ok(b: Seq<u8>) -> bool {
    let h = spec_ehdr(b);
    h.e_shnum == 0 || h.e_shstrndx < h.e_shnum
}

/// The content of the section-name string table.
pub open spec fn spec_strtab(b: Seq<u8>) -> Seq<u8> {
    spec_content_at(b, spec_ehdr(b).e_shstrndx as int)
}

/// The first failure met while resolving section names in table order from
/// index `j` on: an out-of-bounds name offset fails the seek, and bytes
/// that are not valid text fail the decode.
pub open spec fn name_err_from(b: Seq<u8>, j: int) -> Option<ParseError>
    decreases spec_ehdr(b).e_shnum - j,
{
    let h = spec_ehdr(b);
    if j < 0 || j >= h.e_shnum {
        None
    } else if spec_shdr_at(b, j).sh_name >= spec_strtab(b).len() {
        Some(ParseError::IoFailure)
    } else if utf8_decode(str_bytes(spec_strtab(b), spec_shdr_at(b, j).sh_name as int)) is None {
        Some(ParseError::TextDecodeFailure)
    } else {
        name_err_from(b, j + 1)
    }
}

/// True when the whole load pipeline succeeds on image `b`: valid prologue,
/// header, segment table, section table and contents within bounds, a valid
/// name-table index, and every section name resolvable.
pub open spec fn load_ok(b: Seq<u8>) -> bool {
    &&& ident_ok(b)
    &&& header_fits(b)
    &&& segments_fit(b)
    &&& shdrs_fit(b)
    &&& content_fits(b)
    &&& strtab_ok(b)
    &&& name_err_from(b, 0) is None
}

/// The error that the load pipeline reports on image `b`, in pipeline
/// order: prologue checks first, then the out-of-bounds reads and indices,
/// then the first name-resolution failure.
pub open spec fn load_err(b: Seq<u8>) -> ParseError
    recommends
        !load_ok(b),
{
    if b.len() < gabi::EI_NIDENT {
        ParseError::IoFailure
    } else if !magic_ok(b) {
        ParseError::BadMagic(b[0], b[1], b[2], b[3])
    } else if b[gabi::EI_VERSION as int] != gabi::EV_CURRENT {
        ParseError::UnsupportedVersion(b[gabi::EI_VERSION as int])
    } else if !header_fits(b) || !segments_fit(b) || !shdrs_fit(b) || !content_fits(b)
        || !strtab_ok(b) {
        ParseError::IoFailure
    } else if name_err_from(b, 0) is Some {
        name_err_from(b, 0)->0
    } else {
        ParseError::IoFailure
    }
}

/// True when the section type marks a symbol table (static or dynamic).
pub open spec fn is_symtab(t: section::SectionType) -> bool {
    t.0 == gabi::SHT_SYMTAB || t.0 == gabi::SHT_DYNSYM
}

/// On-disk byte size of one symbol record under class `c`.
pub open spec fn sym_size(c: types::Class) -> int {
    if types::is_class32(c) {
        16
    } else {
        24
    }
}

/// Name-table offset field of the symbol record at `i` (same position under
/// both classes).
pub open spec fn sym_name_off(e: types::Endian, c: types::Class, b: Seq<u8>, i: int) -> int {
    w32(e, b, i)
}

/// Value field of the symbol record at `i`; its position and width depend
/// on the class.
pub open spec fn sym_value(e: types::Endian, c: types::Class, b: Seq<u8>, i: int) -> int {
    if types::is_class32(c) {
        w32(e, b, i + 4)
    } else {
        w64(e, b, i + 8)
    }
}

/// Size field of the symbol record at `i`; its position and width depend on
/// the class.
pub open spec fn sym_sizeval(e: types::Endian, c: types::Class, b: Seq<u8>, i: int) -> int {
    if types::is_class32(c) {
        w32(e, b, i + 8)
    } else {
        w64(e, b, i + 16)
    }
}

/// Info byte of the symbol record at `i` (type in the low four bits,
/// binding in the high four).
pub open spec fn sym_info(e: types::Endian, c: types::Class, b: Seq<u8>, i: int) -> u8 {
    if types::is_class32(c) {
        b[i + 12]
    } else {
        b[i + 4]
    }
}

/// Other byte of the symbol record at `i` (visibility in the low two bits).
pub open spec fn sym_other(e: types::Endian, c: types::Class, b: Seq<u8>, i: int) -> u8 {
    if types::is_class32(c) {
        b[i + 13]
    } else {
        b[i + 5]
    }
}

/// Owning-section index field of the symbol record at `i`.
pub open spec fn sym_shndx(e: types::Endian, c: types::Class, b: Seq<u8>, i: int) -> int {
    if types::is_class32(c) {
        w16(e, b, i + 14)
    } else {
        w16(e, b, i + 6)
    }
}

/// True when `s` is exactly the symbol that the record at `i` of `b`
/// denotes under byte order `e` and class `c`, with its name resolved out
/// of the linked string table `link`.
pub open spec fn symbol_matches(
    s: types::Symbol,
    e: types::Endian,
    c: types::Class,
    b: Seq<u8>,
    i: int,
    link: Seq<u8>,
) -> bool {
    &&& utf8_decode(str_bytes(link, sym_name_off(e, c, b, i))) == Some(s.name@)
    &&& s.value == sym_value(e, c, b, i)
    &&& s.size == sym_sizeval(e, c, b, i)
    &&& s.shndx == sym_shndx(e, c, b, i)
    &&& s.symtype == types::SymbolType(sym_info(e, c, b, i) & 0xf)
    &&& s.bind == types::SymbolBind(sym_info(e, c, b, i) >> 4)
    &&& s.vis == types::SymbolVis(sym_other(e, c, b, i) & 0x3)
}

/// True when a whole symbol record lies at `i` of `b` and its name resolves
/// out of `link`.
pub open spec fn sym_record_ok(
    e: types::Endian,
    c: types::Class,
    b: Seq<u8>,
    i: int,
    link: Seq<u8>,
) -> bool {
    &&& i + sym_size(c) <= b.len()
    &&& sym_name_off(e, c, b, i) < link.len()
    &&& utf8_decode(str_bytes(link, sym_name_off(e, c, b, i))) is Some
}

/// The first failure met while decoding whole symbol records from `i` to
/// the end of `b`: trailing bytes too short for one more record fail the
/// read, an out-of-bounds name offset fails the seek, and a name that is
/// not valid text fails the decode. `None` when the records run out exactly
/// at the end.
pub open spec fn sym_err_from(
    e: types::Endian,
    c: types::Class,
    b: Seq<u8>,
    link: Seq<u8>,
    i: int,
) -> Option<ParseError>
    decreases b.len() - i,
{
    if i + sym_size(c) > b.len() {
        if i < b.len() {
            Some(ParseError::IoFailure)
        } else {
            None
        }
    } else if sym_name_off(e, c, b, i) >= link.len() {
        Some(ParseError::IoFailure)
    } else if utf8_decode(str_bytes(link, sym_name_off(e, c, b, i))) is None {
        Some(ParseError::TextDecodeFailure)
    } else {
        sym_err_from(e, c, b, link, i + sym_size(c))
    }
}

/// The bytes of one symbol record holding the given logical field values in
/// the 32-bit field order (name, value, size, info, other, section index).
pub open spec fn enc_sym32(
    e: types::Endian,
    name: u32,
    value: u64,
    size: u64,
    info: u8,
    other: u8,
    shndx: u16,
) -> Seq<u8>
    recommends
        value < 0x1_0000_0000,
        size < 0x1_0000_0000,
{
    utils::enc32(e, name as int) + utils::enc32(e, value as int) + utils::enc32(e, size as int)
        + seq![info, other] + utils::enc16(e, shndx as int)
}

/// The bytes of one symbol record holding the given logical field values in
/// the 64-bit field order (name, info, other, section index, value, size).
pub open spec fn enc_sym64(
    e: types::Endian,
    name: u32,
    value: u64,
    size: u64,
    info: u8,
    other: u8,
    shndx: u16,
) -> Seq<u8> {
    utils::enc32(e, name as int) + seq![info, other] + utils::enc16(e, shndx as int)
        + utils::enc64(e, value as int) + utils::enc64(e, size as int)
}

/// Law: symbol records encoded in the 32-bit field order and in the 64-bit
/// field order from the same logical values decode, each under its matching
/// class, to the same semantic symbol — every decoded field agrees, so one
/// symbol matches the one record exactly when it matches the other (with
/// names resolved out of the same string table).
pub proof fn lemma_symbol_layouts_agree(
    e: types::Endian,
    name: u32,
    value: u64,
    size: u64,
    info: u8,
    other: u8,
    shndx: u16,
    link: Seq<u8>,
    s: types::Symbol,
)
    requires
        value < 0x1_0000_0000,
        size < 0x1_0000_0000,
    ensures
        ({
            let c32 = types::Class(gabi::ELFCLASS32);
            let c64 = types::Class(gabi::ELFCLASS64);
            let b32 = enc_sym32(e, name, value, size, info, other, shndx);
            let b64 = enc_sym64(e, name, value, size, info, other, shndx);
            &&& b32.len() == sym_size(c32)
            &&& b64.len() == sym_size(c64)
            &&& sym_name_off(e, c32, b32, 0) == name && sym_name_off(e, c64, b64, 0) == name
            &&& sym_value(e, c32, b32, 0) == value && sym_value(e, c64, b64, 0) == value
            &&& sym_sizeval(e, c32, b32, 0) == size && sym_sizeval(e, c64, b64, 0) == size
            &&& sym_info(e, c32, b32, 0) == info && sym_info(e, c64, b64, 0) == info
            &&& sym_other(e, c32, b32, 0) == other && sym_other(e, c64, b64, 0) == other
            &&& sym_shndx(e, c32, b32, 0) == shndx && sym_shndx(e, c64, b64, 0) == shndx
            &&& (symbol_matches(s, e, c32, b32, 0, link) <==> symbol_matches(
                s,
                e,
                c64,
                b64,
                0,
                link,
            ))
        }),
{
    let c32 = types::Class(gabi::ELFCLASS32);
    let c64 = types::Class(gabi::ELFCLASS64);
    let na = utils::enc32(e, name as int);
    let va = utils::enc32(e, value as int);
    let sa = utils::enc32(e, size as int);
    let io = seq![info, other];
    let sx = utils::enc16(e, shndx as int);
    let v8 = utils::enc64(e, value as int);
    let s8 = utils::enc64(e, size as int);
    let b32 = enc_sym32(e, name, value, size, info, other, shndx);
    let b64 = enc_sym64(e, name, value, size, info, other, shndx);
    assert(na.len() == 4 && va.len() == 4 && sa.len() == 4 && io.len() == 2 && sx.len() == 2
        && v8.len() == 8 && s8.len() == 8);
    assert(b32 == na + va + sa + io + sx);
    assert(b64 == na + io + sx + v8 + s8);
    assert(b32.len() == 16 && b64.len() == 24);
    // The 32-bit record: name at 0, value at 4, size at 8, info/other at
    // 12/13, section index at 14.
    assert forall|k: int| 0 <= k < 4 implies b32[k] == na[k] && b32[4 + k] == va[k] && b32[8 + k]
        == sa[k] by {
        assert((na + va + sa + io)[k] == ((na + va) + sa)[k]);
        assert(((na + va) + sa)[k] == (na + va)[k]);
        assert((na + va)[k] == na[k]);
        assert((na + va + sa + io)[4 + k] == ((na + va) + sa)[4 + k]);
        assert(((na + va) + sa)[4 + k] == (na + va)[4 + k]);
        assert((na + va)[4 + k] == va[k]);
        assert((na + va + sa + io)[8 + k] == ((na + va) + sa)[8 + k]);
        assert(((na + va) + sa)[8 + k] == sa[k]);
    }
    assert(b32[12] == io[0] && b32[13] == io[1]) by {
        assert((na + va + sa + io)[12] == io[0]);
        assert((na + va + sa + io)[13] == io[1]);
    }
    assert(b32[14] == sx[0] && b32[15] == sx[1]);
    utils::lemma_w32_enc32(e, name as int, b32, 0);
    utils::lemma_w32_enc32(e, value as int, b32, 4);
    utils::lemma_w32_enc32(e, size as int, b32, 8);
    utils::lemma_w16_enc16(e, shndx as int, b32, 14);
    // The 64-bit record: name at 0, info/other at 4/5, section index at 6,
    // value at 8, size at 16.
    assert forall|k: int| 0 <= k < 4 implies b64[k] == na[k] by {
        assert((na + io + sx + v8)[k] == ((na + io) + sx)[k]);
        assert(((na + io) + sx)[k] == (na + io)[k]);
        assert((na + io)[k] == na[k]);
    }
    assert(b64[4] == io[0] && b64[5] == io[1]) by {
        assert((na + io + sx + v8)[4] == ((na + io) + sx)[4]);
        assert(((na + io) + sx)[4] == (na + io)[4]);
        assert((na + io)[4] == io[0]);
        assert((na + io + sx + v8)[5] == ((na + io) + sx)[5]);
        assert(((na + io) + sx)[5] == (na + io)[5]);
        assert((na + io)[5] == io[1]);
    }
    assert(b64[6] == sx[0] && b64[7] == sx[1]) by {
        assert((na + io + sx + v8)[6] == ((na + io) + sx)[6]);
        assert(((na + io) + sx)[6] == sx[0]);
        assert((na + io + sx + v8)[7] == ((na + io) + sx)[7]);
        assert(((na + io) + sx)[7] == sx[1]);
    }
    assert forall|k: int| 0 <= k < 8 implies b64[8 + k] == v8[k] && b64[16 + k] == s8[k] by {
        assert((na + io + sx + v8)[8 + k] == v8[k]);
    }
    utils::lemma_w32_enc32(e, name as int, b64, 0);
    utils::lemma_w16_enc16(e, shndx as int, b64, 6);
    utils::lemma_w64_enc64(e, value as int, b64, 8);
    utils::lemma_w64_enc64(e, size as int, b64, 16);
}

/// The content of the string table that section `s` of `f` links to.
pub open spec fn link_seq(f: File, s: Section) -> Seq<u8> {
    f.sections@[s.shdr.sh_link as int].data@
}

/// True when `s` is exactly the section that image `b` declares at table
/// index `j`: its descriptor, its content, and its resolved name.
pub open spec fn sec_matches(s: Section, b: Seq<u8>, j: int) -> bool {
    &&& s.shdr == spec_shdr_at(b, j)
    &&& s.data@ == spec_content_at(b, j)
    &&& utf8_decode(str_bytes(spec_strtab(b), s.shdr.sh_name as int)) == Some(s.name@)
}

/// True when `f` is exactly the fully materialized representation that
/// image `b` declares.
pub open spec fn file_matches(f: File, b: Seq<u8>) -> bool {
    let h = spec_ehdr(b);
    &&& f.ehdr == h
    &&& f.phdrs@.len() == h.e_phnum
    &&& (forall|i: int| 0 <= i < h.e_phnum ==> #[trigger] f.phdrs@[i] == spec_phdr_at(b, i))
    &&& f.sections@.len() == h.e_shnum
    &&& (forall|j: int| 0 <= j < h.e_shnum ==> sec_matches(#[trigger] f.sections@[j], b, j))
}

impl File {
    /// Consumes the fixed-size prologue from the start of `data`, checking
    /// the magic bytes and the version byte. The class and endianness bytes
    /// are extracted but not validated here: downstream decoding treats any
    /// other byte value as one more variant rather than erroring.
    pub fn parse_ident(data: &[u8]) -> (r: Result<[u8; 16], ParseError>)
        ensures
            match r {
                Ok(id) => data@.len() >= gabi::EI_NIDENT && id@ == data@.subrange(0, 16)
                    && magic_ok(data@) && data@[gabi::EI_VERSION as int] == gabi::EV_CURRENT,
                Err(e) => match e {
                    ParseError::IoFailure => data@.len() < gabi::EI_NIDENT,
                    ParseError::BadMagic(m0, m1, m2, m3) => data@.len() >= gabi::EI_NIDENT
                        && !magic_ok(data@) && m0 == data@[0] && m1 == data@[1] && m2 == data@[2]
                        && m3 == data@[3],
                    ParseError::UnsupportedVersion(v) => data@.len() >= gabi::EI_NIDENT && magic_ok(
                        data@,
                    ) && v == data@[gabi::EI_VERSION as int] && v != gabi::EV_CURRENT,
                    ParseError::TextDecodeFailure => false,
                },
            },
    {
        if data.len() < gabi::EI_NIDENT {
            return Err(ParseError::IoFailure);
        }
        let mut id: [u8; 16] = [0u8; 16];
        let mut k: usize = 0;
        while k < 16
            invariant
                k <= 16,
                data@.len() >= 16,
                forall|j: int| 0 <= j < k ==> id@[j] == data@[j],
            decreases 16 - k,
        {
            id[k] = data[k];
            k = k + 1;
        }
        proof {
            assert(id@ =~= data@.subrange(0, 16));
        }
        if id[0] != gabi::ELFMAG0 || id[1] != gabi::ELFMAG1 || id[2] != gabi::ELFMAG2 || id[3]
            != gabi::ELFMAG3 {
            return Err(ParseError::BadMagic(id[0], id[1], id[2], id[3]));
        }
        let version = id[gabi::EI_VERSION];
        if version != gabi::EV_CURRENT {
            return Err(ParseError::UnsupportedVersion(version));
        }
        Ok(id)
    }

    /// Decodes the file header fields that follow the prologue, at the
    /// cursor, using the class and endianness that `ident` declares;
    /// advances the cursor past them. Fails when the bytes run out before
    /// the last field; no field-level semantic validation happens here.
    pub fn parse_ehdr(data: &[u8], pos: &mut u64, ident: &[u8; 16]) -> (r: Result<
        types::FileHeader,
        ParseError,
    >)
        ensures
            match r {
                Ok(h) => *old(pos) + ehdr_size(spec_class(ident@)) <= data@.len() && *final(pos)
                    == *old(pos) + ehdr_size(spec_class(ident@)) && h == ehdr_of(
                    ident@,
                    data@,
                    *old(pos) as int,
                ),
                Err(e) => *old(pos) + ehdr_size(spec_class(ident@)) > data@.len() && e
                    == ParseError::IoFailure && *old(pos) <= *final(pos) <= *old(pos) + ehdr_size(
                    spec_class(ident@),
                ),
            },
    {
        proof {
            reveal(ehdr_of);
        }
        let class = types::Class(ident[gabi::EI_CLASS]);
        let endian = types::Endian(ident[gabi::EI_DATA]);
        let elftype = match utils::read_u16(endian, data, pos) {
            Ok(v) => types::ObjectFileType(v),
            Err(e) => return Err(e),
        };
        let arch = match utils::read_u16(endian, data, pos) {
            Ok(v) => types::Architecture(v),
            Err(e) => return Err(e),
        };
        let version = match utils::read_u32(endian, data, pos) {
            Ok(v) => v,
            Err(e) => return Err(e),
        };
        let entry: u64;
        let phoff: u64;
        let shoff: u64;
        if class.0 == gabi::ELFCLASS32 {
            entry = match utils::read_u32(endian, data, pos) {
                Ok(v) => v as u64,
                Err(e) => return Err(e),
            };
            phoff = match utils::read_u32(endian, data, pos) {
                Ok(v) => v as u64,
                Err(e) => return Err(e),
            };
            shoff = match utils::read_u32(endian, data, pos) {
                Ok(v) => v as u64,
                Err(e) => return Err(e),
            };
        } else {
            entry = match utils::read_u64(endian, data, pos) {
                Ok(v) => v,
                Err(e) => return Err(e),
            };
            phoff = match utils::read_u64(endian, data, pos) {
                Ok(v) => v,
                Err(e) => return Err(e),
            };
            shoff = match utils::read_u64(endian, data, pos) {
                Ok(v) => v,
                Err(e) => return Err(e),
            };
        }
        let flags = match utils::read_u32(endian, data, pos) {
            Ok(v) => v,
            Err(e) => return Err(e),
        };
        let ehsize = match utils::read_u16(endian, data, pos) {
            Ok(v) => v,
            Err(e) => return Err(e),
        };
        let phentsize = match utils::read_u16(endian, data, pos) {
            Ok(v) => v,
            Err(e) => return Err(e),
        };
        let phnum = match utils::read_u16(endian, data, pos) {
            Ok(v) => v,
            Err(e) => return Err(e),
        };
        let shentsize = match utils::read_u16(endian, data, pos) {
            Ok(v) => v,
            Err(e) => return Err(e),
        };
        let shnum = match utils::read_u16(endian, data, pos) {
            Ok(v) => v,
            Err(e) => return Err(e),
        };
        let shstrndx = match utils::read_u16(endian, data, pos) {
            Ok(v) => v,
            Err(e) => return Err(e),
        };
        Ok(
            types::FileHeader {
                class,
                endianness: endian,
                version,
                elftype,
                arch,
                osabi: types::OSABI(ident[gabi::EI_OSABI]),
                abiversion: ident[gabi::EI_ABIVERSION],
                e_entry: entry,
                e_phoff: phoff,
                e_shoff: shoff,
                e_flags: flags,
                e_ehsize: ehsize,
                e_phentsize: phentsize,
                e_phnum: phnum,
                e_shentsize: shentsize,
                e_shnum: shnum,
                e_shstrndx: shstrndx,
            },
        )
    }

    /// Materializes a whole object file from the byte image `data` in one
    /// forward pass: prologue, header, segment table, section header table,
    /// section contents, and section names, in that order. Any failure
    /// aborts the construction and reports the first error in pipeline
    /// order; no partially built file is ever returned.
    pub fn open_stream(data: &[u8]) -> (r: Result<File, ParseError>)
        ensures
            match r {
                Ok(f) => load_ok(data@) && file_matches(f, data@),
                Err(e) => !load_ok(data@) && e == load_err(data@),
            },
    {
        let ghost bb = data@;
        let ident = match Self::parse_ident(data) {
            Ok(id) => id,
            Err(e) => return Err(e),
        };
        let ghost c = spec_class(bb);
        let ghost e = spec_endian(bb);
        let mut pos: u64 = 16;
        let ehdr = match Self::parse_ehdr(data, &mut pos, &ident) {
            Ok(h) => h,
            Err(e2) => return Err(e2),
        };
        proof {
            reveal(ehdr_of);
            assert(ident@[gabi::EI_CLASS as int] == bb[gabi::EI_CLASS as int]);
            assert(ident@[gabi::EI_DATA as int] == bb[gabi::EI_DATA as int]);
            assert(ident@[gabi::EI_OSABI as int] == bb[gabi::EI_OSABI as int]);
            assert(ident@[gabi::EI_ABIVERSION as int] == bb[gabi::EI_ABIVERSION as int]);
            assert(ehdr == spec_ehdr(bb));
            assert(ehdr.class == c);
            assert(ehdr.endianness == e);
        }
        // Decode the segment table at its declared offset.
        pos = ehdr.e_phoff;
        let mut phdrs: Vec<segment::ProgramHeader> = Vec::new();
        let mut i: u16 = 0;
        while i < ehdr.e_phnum
            invariant
                ident_ok(bb),
                header_fits(bb),
                bb == data@,
                c == spec_class(bb),
                e == spec_endian(bb),
                ehdr == spec_ehdr(bb),
                ehdr.class == c,
                ehdr.endianness == e,
                i <= ehdr.e_phnum,
                phdrs@.len() == i,
                pos as int == ehdr.e_phoff + i * segment::phdr_size(c),
                i > 0 ==> pos as int <= bb.len(),
                forall|k: int| 0 <= k < i ==> #[trigger] phdrs@[k] == spec_phdr_at(bb, k),
            decreases ehdr.e_phnum - i,
        {
            match segment::ProgramHeader::parse(ehdr.endianness, ehdr.class, data, &mut pos) {
                Ok(ph) => {
                    phdrs.push(ph);
                },
                Err(e2) => {
                    proof {
                        assert((i as int) * segment::phdr_size(c) <= (ehdr.e_phnum - 1)
                            * segment::phdr_size(c)) by (nonlinear_arith)
                            requires
                                i as int <= ehdr.e_phnum - 1,
                                segment::phdr_size(c) >= 0,
                        ;
                        assert(!segments_fit(bb));
                    }
                    return Err(e2);
                },
            }
            i = i + 1;
        }
        proof {
            assert(segments_fit(bb));
        }
        // Decode the section header table at its declared offset.
        pos = ehdr.e_shoff;
        let mut shdrs: Vec<section::SectionHeader> = Vec::new();
        let mut j: u16 = 0;
        while j < ehdr.e_shnum
            invariant
                ident_ok(bb),
                header_fits(bb),
                segments_fit(bb),
                bb == data@,
                c == spec_class(bb),
                e == spec_endian(bb),
                ehdr == spec_ehdr(bb),
                ehdr.class == c,
                ehdr.endianness == e,
                j <= ehdr.e_shnum,
                shdrs@.len() == j,
                pos as int == ehdr.e_shoff + j * section::shdr_size(c),
                j > 0 ==> pos as int <= bb.len(),
                forall|k: int| 0 <= k < j ==> #[trigger] shdrs@[k] == spec_shdr_at(bb, k),
            decreases ehdr.e_shnum - j,
        {
            match section::SectionHeader::parse(ehdr.endianness, ehdr.class, data, &mut pos) {
                Ok(sh) => {
                    shdrs.push(sh);
                },
                Err(e2) => {
                    proof {
                        assert((j as int) * section::shdr_size(c) <= (ehdr.e_shnum - 1)
                            * section::shdr_size(c)) by (nonlinear_arith)
                            requires
                                j as int <= ehdr.e_shnum - 1,
                                section::shdr_size(c) >= 0,
                        ;
                        assert(!shdrs_fit(bb));
                    }
                    return Err(e2);
                },
            }
            j = j + 1;
        }
        proof {
            assert(shdrs_fit(bb));
        }
        // Load the content of every section that has file backing.
        let mut contents: Vec<Vec<u8>> = Vec::new();
        let mut s: usize = 0;
        while s < shdrs.len()
            invariant
                ident_ok(bb),
                header_fits(bb),
                segments_fit(bb),
                shdrs_fit(bb),
                bb == data@,
                c == spec_class(bb),
                e == spec_endian(bb),
                ehdr == spec_ehdr(bb),
                shdrs@.len() == ehdr.e_shnum,
                forall|k: int| 0 <= k < ehdr.e_shnum ==> #[trigger] shdrs@[k] == spec_shdr_at(
                    bb,
                    k,
                ),
                s <= shdrs@.len(),
                contents@.len() == s,
                forall|k: int| 0 <= k < s ==> content_ok_at(bb, k),
                forall|k: int| 0 <= k < s ==> #[trigger] contents@[k]@ == spec_content_at(bb, k),
            decreases shdrs@.len() - s,
        {
            let sh = shdrs[s];
            if sh.sh_type.0 == gabi::SHT_NOBITS {
                contents.push(Vec::new());
            } else {
                let n64 = data.len() as u64;
                if !(sh.sh_offset <= n64 && sh.sh_size <= n64 - sh.sh_offset) {
                    proof {
                        assert(!content_ok_at(bb, s as int));
                        assert(!content_fits(bb));
                    }
                    return Err(ParseError::IoFailure);
                }
                let start = sh.sh_offset as usize;
                let cnt = sh.sh_size as usize;
                let mut buf: Vec<u8> = Vec::new();
                let mut k: usize = 0;
                while k < cnt
                    invariant
                        bb == data@,
                        bb.len() <= usize::MAX,
                        start + cnt <= bb.len(),
                        k <= cnt,
                        buf@ == bb.subrange(start as int, start as int + k),
                    decreases cnt - k,
                {
                    buf.push(data[start + k]);
                    k = k + 1;
                    proof {
                        assert(buf@ =~= bb.subrange(start as int, start as int + k));
                    }
                }
                proof {
                    assert(buf@ =~= spec_content_at(bb, s as int));
                }
                contents.push(buf);
            }
            s = s + 1;
        }
        proof {
            assert(content_fits(bb));
        }
        // Resolve every section's name out of the declared name table.
        if shdrs.len() > 0 && ehdr.e_shstrndx as usize >= shdrs.len() {
            proof {
                assert(!strtab_ok(bb));
            }
            return Err(ParseError::IoFailure);
        }
        proof {
            assert(strtab_ok(bb));
        }
        let mut sections: Vec<Section> = Vec::new();
        let mut s: usize = 0;
        while s < shdrs.len()
            invariant
                ident_ok(bb),
                header_fits(bb),
                segments_fit(bb),
                shdrs_fit(bb),
                content_fits(bb),
                strtab_ok(bb),
                bb == data@,
                c == spec_class(bb),
                e == spec_endian(bb),
                ehdr == spec_ehdr(bb),
                shdrs@.len() == ehdr.e_shnum,
                forall|k: int| 0 <= k < ehdr.e_shnum ==> #[trigger] shdrs@[k] == spec_shdr_at(
                    bb,
                    k,
                ),
                contents@.len() == ehdr.e_shnum,
                forall|k: int| 0 <= k < ehdr.e_shnum ==> #[trigger] contents@[k]@
                    == spec_content_at(bb, k),
                ehdr.e_shnum > 0 ==> ehdr.e_shstrndx < ehdr.e_shnum,
                s <= shdrs@.len(),
                sections@.len() == s,
                forall|k: int| 0 <= k < s ==> sec_matches(#[trigger] sections@[k], bb, k),
                name_err_from(bb, 0) == name_err_from(bb, s as int),
            decreases shdrs@.len() - s,
        {
            let ndx = ehdr.e_shstrndx as usize;
            let strtab = &contents[ndx];
            proof {
                assert(strtab@ == spec_strtab(bb));
            }
            let sh = shdrs[s];
            let name = match utils::get_string(strtab.as_slice(), sh.sh_name as usize) {
                Ok(nm) => nm,
                Err(e2) => {
                    proof {
                        assert(name_err_from(bb, s as int) == Some(e2));
                    }
                    return Err(e2);
                },
            };
            let dat = utils::clone_bytes(&contents[s]);
            sections.push(Section { name, shdr: sh, data: dat });
            s = s + 1;
        }
        proof {
            assert(name_err_from(bb, 0) is None);
        }
        Ok(File { ehdr, phdrs, sections })
    }

    /// Decodes one symbol record at the cursor of `data` (a symbol table's
    /// content), resolving its name out of `link` (the linked string table's
    /// content), and appends it to `symbols`; advances the cursor past the
    /// record. On failure `symbols` is left as it was.
    pub fn parse_symbol(
        &self,
        data: &[u8],
        pos: &mut u64,
        symbols: &mut Vec<types::Symbol>,
        link: &[u8],
    ) -> (r: Result<(), ParseError>)
        ensures
            ({
                let e = self.ehdr.endianness;
                let c = self.ehdr.class;
                match r {
                    Ok(u) => sym_record_ok(e, c, data@, *old(pos) as int, link@) && *final(pos)
                        == *old(pos) + sym_size(c) && final(symbols)@ == old(symbols)@.push(
                        final(symbols)@.last(),
                    ) && symbol_matches(
                        final(symbols)@.last(),
                        e,
                        c,
                        data@,
                        *old(pos) as int,
                        link@,
                    ),
                    Err(e2) => !sym_record_ok(e, c, data@, *old(pos) as int, link@)
                        && *final(symbols) == *old(symbols)
                        && *old(pos) <= *final(pos) <= *old(pos) + sym_size(c) && e2
                        == (if *old(pos) + sym_size(c) > data@.len() {
                        ParseError::IoFailure
                    } else if sym_name_off(e, c, data@, *old(pos) as int) >= link@.len() {
                        ParseError::IoFailure
                    } else {
                        ParseError::TextDecodeFailure
                    }),
                }
            }),
    {
        let endian = self.ehdr.endianness;
        let name_off: u32;
        let value: u64;
        let size: u64;
        let shndx: u16;
        let info: u8;
        let other: u8;
        if self.ehdr.class.0 == gabi::ELFCLASS32 {
            name_off = match utils::read_u32(endian, data, pos) {
                Ok(v) => v,
                Err(e2) => return Err(e2),
            };
            value = match utils::read_u32(endian, data, pos) {
                Ok(v) => v as u64,
                Err(e2) => return Err(e2),
            };
            size = match utils::read_u32(endian, data, pos) {
                Ok(v) => v as u64,
                Err(e2) => return Err(e2),
            };
            info = match utils::read_u8(data, pos) {
                Ok(v) => v,
                Err(e2) => return Err(e2),
            };
            other = match utils::read_u8(data, pos) {
                Ok(v) => v,
                Err(e2) => return Err(e2),
            };
            shndx = match utils::read_u16(endian, data, pos) {
                Ok(v) => v,
                Err(e2) => return Err(e2),
            };
        } else {
            name_off = match utils::read_u32(endian, data, pos) {
                Ok(v) => v,
                Err(e2) => return Err(e2),
            };
            info = match utils::read_u8(data, pos) {
                Ok(v) => v,
                Err(e2) => return Err(e2),
            };
            other = match utils::read_u8(data, pos) {
                Ok(v) => v,
                Err(e2) => return Err(e2),
            };
            shndx = match utils::read_u16(endian, data, pos) {
                Ok(v) => v,
                Err(e2) => return Err(e2),
            };
            value = match utils::read_u64(endian, data, pos) {
                Ok(v) => v,
                Err(e2) => return Err(e2),
            };
            size = match utils::read_u64(endian, data, pos) {
                Ok(v) => v,
                Err(e2) => return Err(e2),
            };
        }
        let name = match utils::get_string(link, name_off as usize) {
            Ok(s) => s,
            Err(e2) => return Err(e2),
        };
        symbols.push(
            types::Symbol {
                name,
                value,
                size,
                shndx,
                symtype: types::SymbolType(info & 0xf),
                bind: types::SymbolBind(info >> 4),
                vis: types::SymbolVis(other & 0x3),
            },
        );
        Ok(())
    }

    /// Decodes every symbol record out of `section`'s content when it is a
    /// symbol table (static or dynamic), resolving names through the string
    /// table that the section's link index names; any other section yields
    /// no symbols. Recomputed on each call; nothing is cached.
    pub fn get_symbols(&self, section: &Section) -> (r: Result<Vec<types::Symbol>, ParseError>)
        ensures
            ({
                let e = self.ehdr.endianness;
                let c = self.ehdr.class;
                let d = section.data@;
                if is_symtab(section.shdr.sh_type) {
                    match r {
                        Ok(syms) => section.shdr.sh_link < self.sections@.len() && sym_err_from(
                            e,
                            c,
                            d,
                            link_seq(*self, *section),
                            0,
                        ) is None && syms@.len() * sym_size(c) == d.len() && (forall|k: int|
                            0 <= k < syms@.len() ==> symbol_matches(
                                #[trigger] syms@[k],
                                e,
                                c,
                                d,
                                k * sym_size(c),
                                link_seq(*self, *section),
                            )),
                        Err(e2) => (section.shdr.sh_link >= self.sections@.len() && e2
                            == ParseError::IoFailure) || (section.shdr.sh_link
                            < self.sections@.len() && sym_err_from(
                            e,
                            c,
                            d,
                            link_seq(*self, *section),
                            0,
                        ) == Some(e2)),
                    }
                } else {
                    match r {
                        Ok(syms) => syms@.len() == 0,
                        Err(e2) => false,
                    }
                }
            }),
    {
        let ghost e = self.ehdr.endianness;
        let ghost c = self.ehdr.class;
        let mut symbols: Vec<types::Symbol> = Vec::new();
        if section.shdr.sh_type.0 == gabi::SHT_SYMTAB || section.shdr.sh_type.0
            == gabi::SHT_DYNSYM {
            if section.shdr.sh_link as usize >= self.sections.len() {
                return Err(ParseError::IoFailure);
            }
            let link = &self.sections[section.shdr.sh_link as usize].data;
            let ghost lk = link@;
            let mut pos: u64 = 0;
            while pos < section.data.len() as u64
                invariant
                    is_symtab(section.shdr.sh_type),
                    section.shdr.sh_link < self.sections@.len(),
                    lk == link_seq(*self, *section),
                    link@ == lk,
                    pos <= section.data@.len(),
                    pos as int == symbols@.len() * sym_size(c),
                    e == self.ehdr.endianness,
                    c == self.ehdr.class,
                    forall|k: int|
                        0 <= k < symbols@.len() ==> symbol_matches(
                            #[trigger] symbols@[k],
                            e,
                            c,
                            section.data@,
                            k * sym_size(c),
                            lk,
                        ),
                    sym_err_from(e, c, section.data@, lk, 0) == sym_err_from(
                        e,
                        c,
                        section.data@,
                        lk,
                        pos as int,
                    ),
                decreases section.data@.len() - pos,
            {
                let ghost old_pos = pos as int;
                let ghost old_len = symbols@.len() as int;
                let d_sl: &[u8] = section.data.as_slice();
                let l_sl: &[u8] = link.as_slice();
                match self.parse_symbol(d_sl, &mut pos, &mut symbols, l_sl) {
                    Ok(u) => {
                        proof {
                            assert((old_len + 1) * sym_size(c) == old_len * sym_size(c) + sym_size(
                                c,
                            )) by (nonlinear_arith);
                            assert(symbols@.len() == old_len + 1);
                            assert(symbol_matches(
                                symbols@[old_len],
                                e,
                                c,
                                section.data@,
                                old_len * sym_size(c),
                                lk,
                            ));
                            assert forall|k: int| 0 <= k < symbols@.len() implies symbol_matches(
                                #[trigger] symbols@[k],
                                e,
                                c,
                                section.data@,
                                k * sym_size(c),
                                lk,
                            ) by {
                                if k < old_len {
                                    assert(symbols@[k] == symbols@.subrange(0, old_len)[k]);
                                }
                            }
                        }
                    },
                    Err(e2) => {
                        proof {
                            assert(sym_err_from(e, c, section.data@, lk, old_pos) == Some(e2));
                        }
                        return Err(e2);
                    },
                }
            }
        }
        Ok(symbols)
    }

    /// Finds the first section (in table order) whose name is exactly
    /// `name`.
    pub fn get_section(&self, name: &String) -> (r: Option<&Section>)
        ensures
            ({
                let k = find_idx(self.sections@, name@, 0);
                match r {
                    Some(sec) => k < self.sections@.len() && *sec == self.sections@[k] && sec.name@
                        == name@,
                    None => k == self.sections@.len(),
                }
            }),
    {
        let mut i: usize = 0;
        while i < self.sections.len()
            invariant
                i <= self.sections@.len(),
                find_idx(self.sections@, name@, 0) == find_idx(self.sections@, name@, i as int),
            decreases self.sections@.len() - i,
        {
            if self.sections[i].name == *name {
                return Some(&self.sections[i]);
            }
            i = i + 1;
        }
        None
    }
}

/// Index of the first section at or after `i` whose name is `n`, or
/// `ss.len()` when none matches.
pub open spec fn find_idx(ss: Seq<Section>, n: Seq<char>, i: int) -> int
    decreases ss.len() - i,
{
    if i < 0 || i >= ss.len() {
        ss.len() as int
    } else if ss[i].name@ == n {
        i
    } else {
        find_idx(ss, n, i + 1)
    }
}

} // verus!
