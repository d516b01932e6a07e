use elf::utils;
use elf::ParseError;

#[test]
fn test_get_string_first_entry() {
    let buf = b"abc\0def\0";
    assert_eq!(utils::get_string(buf, 0).unwrap(), "abc");
}

#[test]
fn test_get_string_second_entry() {
    let buf = b"abc\0def\0";
    assert_eq!(utils::get_string(buf, 4).unwrap(), "def");
}

#[test]
fn test_get_string_offset_at_end_fails() {
    let buf = b"abc\0def\0";
    assert!(matches!(utils::get_string(buf, 8), Err(ParseError::IoFailure)));
}

#[test]
fn test_get_string_offset_past_end_fails() {
    let buf = b"abc\0def\0";
    assert!(matches!(utils::get_string(buf, 100), Err(ParseError::IoFailure)));
}

#[test]
fn test_get_string_empty_buffer_fails() {
    let buf: [u8; 0] = [];
    assert!(matches!(utils::get_string(&buf, 0), Err(ParseError::IoFailure)));
}

#[test]
fn test_get_string_unterminated_runs_to_buffer_end() {
    let buf = b"abc";
    assert_eq!(utils::get_string(buf, 1).unwrap(), "bc");
}

#[test]
fn test_get_string_decodes_multibyte_text() {
    // One two-byte character: decoding must produce the character, not the
    // raw bytes.
    let buf: [u8; 3] = [0xCE, 0xB2, 0];
    let s = utils::get_string(&buf, 0).unwrap();
    assert_eq!(s, "\u{03B2}");
    assert_eq!(s.chars().count(), 1);
}

#[test]
fn test_get_string_invalid_text_fails() {
    let buf: [u8; 2] = [0xFF, 0];
    assert!(matches!(utils::get_string(&buf, 0), Err(ParseError::TextDecodeFailure)));
}
