use elf::gabi;
use elf::types;
use elf::File;

#[test]
fn test_parse_ident_empty_buf_errors() {
    let data: [u8; 0] = [];
    assert!(File::parse_ident(&data).is_err());
}

#[test]
fn test_parse_ident_valid() {
    let data: [u8; gabi::EI_NIDENT] = [
        gabi::ELFMAG0,
        gabi::ELFMAG1,
        gabi::ELFMAG2,
        gabi::ELFMAG3,
        gabi::ELFCLASS32,
        gabi::ELFDATA2LSB,
        gabi::EV_CURRENT,
        gabi::ELFOSABI_LINUX,
        0,
        0,
        0,
        0,
        0,
        0,
        0,
        0,
    ];
    assert!(File::parse_ident(&data).is_ok());
}

#[test]
fn test_parse_ident_invalid_mag0() {
    let data: [u8; gabi::EI_NIDENT] = [
        42,
        gabi::ELFMAG1,
        gabi::ELFMAG2,
        gabi::ELFMAG3,
        gabi::ELFCLASS32,
        gabi::ELFDATA2LSB,
        gabi::EV_CURRENT,
        gabi::ELFOSABI_LINUX,
        0,
        0,
        0,
        0,
        0,
        0,
        0,
        0,
    ];
    assert!(File::parse_ident(&data).is_err());
}

#[test]
fn test_parse_ident_invalid_mag1() {
    let data: [u8; gabi::EI_NIDENT] = [
        gabi::ELFMAG0,
        42,
        gabi::ELFMAG2,
        gabi::ELFMAG3,
        gabi::ELFCLASS32,
        gabi::ELFDATA2LSB,
        gabi::EV_CURRENT,
        gabi::ELFOSABI_LINUX,
        0,
        0,
        0,
        0,
        0,
        0,
        0,
        0,
    ];
    assert!(File::parse_ident(&data).is_err());
}

#[test]
fn test_parse_ident_invalid_mag2() {
    let data: [u8; gabi::EI_NIDENT] = [
        gabi::ELFMAG0,
        gabi::ELFMAG1,
        42,
        gabi::ELFMAG3,
        gabi::ELFCLASS32,
        gabi::ELFDATA2LSB,
        gabi::EV_CURRENT,
        gabi::ELFOSABI_LINUX,
        0,
        0,
        0,
        0,
        0,
        0,
        0,
        0,
    ];
    assert!(File::parse_ident(&data).is_err());
}

#[test]
fn test_parse_ident_invalid_mag3() {
    let data: [u8; gabi::EI_NIDENT] = [
        gabi::ELFMAG0,
        gabi::ELFMAG1,
        gabi::ELFMAG2,
        42,
        gabi::ELFCLASS32,
        gabi::ELFDATA2LSB,
        gabi::EV_CURRENT,
        gabi::ELFOSABI_LINUX,
        0,
        0,
        0,
        0,
        0,
        0,
        0,
        0,
    ];
    assert!(File::parse_ident(&data).is_err());
}

#[test]
fn test_parse_ident_invalid_version() {
    let data: [u8; gabi::EI_NIDENT] = [
        gabi::ELFMAG0,
        gabi::ELFMAG1,
        gabi::ELFMAG2,
        gabi::ELFMAG3,
        gabi::ELFCLASS32,
        gabi::ELFDATA2LSB,
        42,
        gabi::ELFOSABI_LINUX,
        0,
        0,
        0,
        0,
        0,
        0,
        0,
        0,
    ];
    assert!(File::parse_ident(&data).is_err());
}

#[test]
fn test_parse_ehdr32_works() {
    let ident: [u8; gabi::EI_NIDENT] = [
        gabi::ELFMAG0,
        gabi::ELFMAG1,
        gabi::ELFMAG2,
        gabi::ELFMAG3,
        gabi::ELFCLASS32,
        gabi::ELFDATA2LSB,
        gabi::EV_CURRENT,
        gabi::ELFOSABI_LINUX,
        7,
        0,
        0,
        0,
        0,
        0,
        0,
        0,
    ];
    let mut data = [0u8; 36];
    for n in 0u8..36 {
        data[n as usize] = n;
    }
    let mut pos: u64 = 0;
    assert_eq!(
        File::parse_ehdr(&data, &mut pos, &ident).unwrap(),
        types::FileHeader {
            class: types::Class(gabi::ELFCLASS32),
            endianness: types::Endian(gabi::ELFDATA2LSB),
            version: 0x7060504,
            osabi: types::OSABI(gabi::ELFOSABI_LINUX),
            abiversion: 7,
            elftype: types::ObjectFileType(0x100),
            arch: types::Architecture(0x302),
            e_entry: 0x0B0A0908,
            e_phoff: 0x0F0E0D0C,
            e_shoff: 0x13121110,
            e_flags: 0x17161514,
            e_ehsize: 0x1918,
            e_phentsize: 0x1B1A,
            e_phnum: 0x1D1C,
            e_shentsize: 0x1F1E,
            e_shnum: 0x2120,
            e_shstrndx: 0x2322,
        }
    );
}

#[test]
fn test_parse_ehdr32_fuzz_too_short() {
    let ident: [u8; gabi::EI_NIDENT] = [
        gabi::ELFMAG0,
        gabi::ELFMAG1,
        gabi::ELFMAG2,
        gabi::ELFMAG3,
        gabi::ELFCLASS32,
        gabi::ELFDATA2LSB,
        gabi::EV_CURRENT,
        gabi::ELFOSABI_LINUX,
        0,
        0,
        0,
        0,
        0,
        0,
        0,
        0,
    ];
    let data = [0u8; 36];
    for n in 0..36 {
        let slice = data.split_at(n).0;
        let mut pos: u64 = 0;
        assert!(File::parse_ehdr(slice, &mut pos, &ident).is_err());
    }
}

#[test]
fn test_parse_ehdr64_works() {
    let ident: [u8; gabi::EI_NIDENT] = [
        gabi::ELFMAG0,
        gabi::ELFMAG1,
        gabi::ELFMAG2,
        gabi::ELFMAG3,
        gabi::ELFCLASS64,
        gabi::ELFDATA2MSB,
        gabi::EV_CURRENT,
        gabi::ELFOSABI_LINUX,
        7,
        0,
        0,
        0,
        0,
        0,
        0,
        0,
    ];
    let mut data = [0u8; 48];
    for n in 0u8..48 {
        data[n as usize] = n;
    }
    let mut pos: u64 = 0;
    assert_eq!(
        File::parse_ehdr(&data, &mut pos, &ident).unwrap(),
        types::FileHeader {
            class: types::Class(gabi::ELFCLASS64),
            endianness: types::Endian(gabi::ELFDATA2MSB),
            version: 0x04050607,
            osabi: types::OSABI(gabi::ELFOSABI_LINUX),
            abiversion: 7,
            elftype: types::ObjectFileType(0x0001),
            arch: types::Architecture(0x0203),
            e_entry: 0x08090A0B0C0D0E0F,
            e_phoff: 0x1011121314151617,
            e_shoff: 0x18191A1B1C1D1E1F,
            e_flags: 0x20212223,
            e_ehsize: 0x2425,
            e_phentsize: 0x2627,
            e_phnum: 0x2829,
            e_shentsize: 0x2A2B,
            e_shnum: 0x2C2D,
            e_shstrndx: 0x2E2F,
        }
    );
}

#[test]
fn test_parse_ehdr64_fuzz_too_short() {
    let ident: [u8; gabi::EI_NIDENT] = [
        gabi::ELFMAG0,
        gabi::ELFMAG1,
        gabi::ELFMAG2,
        gabi::ELFMAG3,
        gabi::ELFCLASS64,
        gabi::ELFDATA2LSB,
        gabi::EV_CURRENT,
        gabi::ELFOSABI_LINUX,
        0,
        0,
        0,
        0,
        0,
        0,
        0,
        0,
    ];
    let data = [0u8; 48];
    for n in 0..48 {
        let slice = data.split_at(n).0;
        let mut pos: u64 = 0;
        assert!(File::parse_ehdr(slice, &mut pos, &ident).is_err());
    }
}

#[test]
fn test_parse_ident_reports_bad_magic_bytes() {
    let data: [u8; gabi::EI_NIDENT] = [
        gabi::ELFMAG0,
        42,
        gabi::ELFMAG2,
        gabi::ELFMAG3,
        gabi::ELFCLASS32,
        gabi::ELFDATA2LSB,
        gabi::EV_CURRENT,
        gabi::ELFOSABI_LINUX,
        0,
        0,
        0,
        0,
        0,
        0,
        0,
        0,
    ];
    match File::parse_ident(&data) {
        Err(elf::ParseError::BadMagic(m0, m1, m2, m3)) => {
            assert_eq!((m0, m1, m2, m3), (gabi::ELFMAG0, 42, gabi::ELFMAG2, gabi::ELFMAG3));
        }
        other => panic!("expected BadMagic, got {:?}", other),
    }
}

#[test]
fn test_parse_ident_reports_unsupported_version() {
    let data: [u8; gabi::EI_NIDENT] = [
        gabi::ELFMAG0,
        gabi::ELFMAG1,
        gabi::ELFMAG2,
        gabi::ELFMAG3,
        gabi::ELFCLASS32,
        gabi::ELFDATA2LSB,
        42,
        gabi::ELFOSABI_LINUX,
        0,
        0,
        0,
        0,
        0,
        0,
        0,
        0,
    ];
    assert!(matches!(
        File::parse_ident(&data),
        Err(elf::ParseError::UnsupportedVersion(42))
    ));
}

#[test]
fn test_parse_ident_truncated_is_io_failure() {
    let data: [u8; 5] = [gabi::ELFMAG0, gabi::ELFMAG1, gabi::ELFMAG2, gabi::ELFMAG3, 1];
    assert!(matches!(File::parse_ident(&data), Err(elf::ParseError::IoFailure)));
}
