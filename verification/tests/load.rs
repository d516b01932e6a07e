use elf::gabi;
use elf::{File, ParseError};

/// A minimal well-formed 32-bit little-endian image: a name string table at
/// section 0, a `.bss` section with no file backing at section 1, and one
/// segment record.
fn sample_image() -> Vec<u8> {
    let mut b = vec![
        gabi::ELFMAG0,
        gabi::ELFMAG1,
        gabi::ELFMAG2,
        gabi::ELFMAG3,
        gabi::ELFCLASS32,
        gabi::ELFDATA2LSB,
        gabi::EV_CURRENT,
        gabi::ELFOSABI_LINUX,
        0,
        0,
        0,
        0,
        0,
        0,
        0,
        0,
    ];
    b.extend_from_slice(&1u16.to_le_bytes()); // object type
    b.extend_from_slice(&3u16.to_le_bytes()); // architecture
    b.extend_from_slice(&1u32.to_le_bytes()); // version
    b.extend_from_slice(&0u32.to_le_bytes()); // entry point
    b.extend_from_slice(&138u32.to_le_bytes()); // segment table offset
    b.extend_from_slice(&52u32.to_le_bytes()); // section table offset
    b.extend_from_slice(&0u32.to_le_bytes()); // flags
    b.extend_from_slice(&52u16.to_le_bytes()); // header size
    b.extend_from_slice(&32u16.to_le_bytes()); // segment record size
    b.extend_from_slice(&1u16.to_le_bytes()); // segment count
    b.extend_from_slice(&40u16.to_le_bytes()); // section record size
    b.extend_from_slice(&2u16.to_le_bytes()); // section count
    b.extend_from_slice(&0u16.to_le_bytes()); // name table index
    // Section 0: the name string table, content at 132, 6 bytes.
    for v in [0u32, gabi::SHT_STRTAB, 0, 0, 132, 6, 0, 0, 0, 0] {
        b.extend_from_slice(&v.to_le_bytes());
    }
    // Section 1: .bss, no file backing, with a nonzero declared size/offset.
    for v in [1u32, gabi::SHT_NOBITS, 0, 0, 9999, 1234, 0, 0, 0, 0] {
        b.extend_from_slice(&v.to_le_bytes());
    }
    b.extend_from_slice(b"\0.bss\0");
    // One segment record.
    for v in [1u32, 0x10, 0x2000, 0x2000, 0x100, 0x200, 5, 0x1000] {
        b.extend_from_slice(&v.to_le_bytes());
    }
    assert_eq!(b.len(), 170);
    b
}

#[test]
fn test_open_stream_minimal_image() {
    let img = sample_image();
    let file = File::open_stream(&img).expect("well-formed image loads");
    assert_eq!(file.ehdr.class, elf::types::Class(gabi::ELFCLASS32));
    assert_eq!(file.ehdr.endianness, elf::types::Endian(gabi::ELFDATA2LSB));
    assert_eq!(file.ehdr.e_shnum, 2);
    assert_eq!(file.sections.len(), 2);
    assert_eq!(file.sections[0].name, "");
    assert_eq!(file.sections[1].name, ".bss");
    // A backed section loads exactly its declared bytes from its offset.
    assert_eq!(file.sections[0].data, b"\0.bss\0".to_vec());
    // A section with no file backing keeps empty content whatever its
    // declared size and offset say.
    assert!(file.sections[1].data.is_empty());
    assert_eq!(file.sections[1].shdr.sh_size, 1234);
    // The one segment record decodes field by field.
    assert_eq!(file.phdrs.len(), 1);
    let ph = &file.phdrs[0];
    assert_eq!(ph.p_type, elf::segment::ProgType(1));
    assert_eq!(ph.p_offset, 0x10);
    assert_eq!(ph.p_vaddr, 0x2000);
    assert_eq!(ph.p_filesz, 0x100);
    assert_eq!(ph.p_memsz, 0x200);
    assert_eq!(ph.p_flags, elf::segment::ProgFlag(5));
    assert_eq!(ph.p_align, 0x1000);
}

#[test]
fn test_open_path_like_query() {
    let img = sample_image();
    let file = File::open_stream(&img).expect("Open sample");
    let bss = file.get_section(&String::from(".bss")).expect("Get .bss section");
    assert!(bss.data.iter().all(|&b| b == 0));
}

#[test]
fn test_get_section_missing_name() {
    let img = sample_image();
    let file = File::open_stream(&img).unwrap();
    assert!(file.get_section(&String::from(".text")).is_none());
}

#[test]
fn test_open_stream_empty_input() {
    let img: Vec<u8> = Vec::new();
    assert!(matches!(File::open_stream(&img), Err(ParseError::IoFailure)));
}

#[test]
fn test_open_stream_bad_magic() {
    let mut img = sample_image();
    img[2] = 42;
    match File::open_stream(&img) {
        Err(ParseError::BadMagic(m0, m1, m2, m3)) => {
            assert_eq!((m0, m1, m2, m3), (gabi::ELFMAG0, gabi::ELFMAG1, 42, gabi::ELFMAG3));
        }
        other => panic!("expected BadMagic, got {:?}", other),
    }
}

#[test]
fn test_open_stream_bad_version() {
    let mut img = sample_image();
    img[gabi::EI_VERSION] = 9;
    assert!(matches!(File::open_stream(&img), Err(ParseError::UnsupportedVersion(9))));
}

#[test]
fn test_open_stream_truncated_header() {
    let img = sample_image();
    assert!(matches!(File::open_stream(&img[..40]), Err(ParseError::IoFailure)));
}

#[test]
fn test_open_stream_truncated_section_table() {
    let img = sample_image();
    assert!(matches!(File::open_stream(&img[..100]), Err(ParseError::IoFailure)));
}

#[test]
fn test_open_stream_content_out_of_bounds() {
    let mut img = sample_image();
    // Section 0's declared size (at byte 52 + 20) grows past the image end.
    img[72] = 200;
    assert!(matches!(File::open_stream(&img), Err(ParseError::IoFailure)));
}

#[test]
fn test_open_stream_name_table_index_out_of_range() {
    let mut img = sample_image();
    // The name table index (last header field, at byte 50).
    img[50] = 5;
    assert!(matches!(File::open_stream(&img), Err(ParseError::IoFailure)));
}

#[test]
fn test_open_stream_name_offset_out_of_bounds() {
    let mut img = sample_image();
    // Section 1's name offset (at byte 92) points past the name table.
    img[92] = 100;
    assert!(matches!(File::open_stream(&img), Err(ParseError::IoFailure)));
}

#[test]
fn test_open_stream_name_not_text() {
    let mut img = sample_image();
    // Corrupt the name table so `.bss`'s name bytes are not valid text.
    img[133] = 0xFF;
    assert!(matches!(File::open_stream(&img), Err(ParseError::TextDecodeFailure)));
}

#[test]
fn test_open_stream_no_sections_no_segments() {
    let mut img = sample_image();
    img.truncate(52);
    // Zero out both table offsets and both counts.
    for k in 28..36 {
        img[k] = 0; // segment and section table offsets
    }
    img[44] = 0; // segment count
    img[48] = 0; // section count
    let file = File::open_stream(&img).unwrap();
    assert!(file.phdrs.is_empty());
    assert!(file.sections.is_empty());
}
