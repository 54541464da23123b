use cross_path::unicode::{EncodingKind, UnicodeHandler};
use cross_path::PathError;

#[test]
fn test_detect_encoding_utf8() {
    assert_eq!(UnicodeHandler::detect_encoding(b"hello"), EncodingKind::Utf8);
    assert_eq!(UnicodeHandler::detect_encoding(b""), EncodingKind::Utf8);
}

#[test]
fn test_detect_encoding_utf16le_bom() {
    let bytes = [0xFFu8, 0xFE, b'h', 0, b'i', 0];
    assert_eq!(
        UnicodeHandler::detect_encoding(&bytes),
        EncodingKind::Utf16Le
    );
}

#[test]
fn test_detect_encoding_windows1252_fallback() {
    // 0xE9 alone is not valid UTF-8 and carries no byte-order mark
    let bytes = [0xE9u8];
    assert_eq!(
        UnicodeHandler::detect_encoding(&bytes),
        EncodingKind::Windows1252
    );
}

#[test]
fn test_convert_to_utf8_from_utf8() {
    assert_eq!(UnicodeHandler::convert_to_utf8(b"path/to/file").unwrap(), "path/to/file");
}

#[test]
fn test_convert_to_utf8_strips_byte_order_mark() {
    let bytes = [0xEFu8, 0xBB, 0xBF, b'h', b'i'];
    assert_eq!(UnicodeHandler::convert_to_utf8(&bytes).unwrap(), "hi");
}

#[test]
fn test_convert_to_utf8_from_utf16le() {
    let bytes = [0xFFu8, 0xFE, b'h', 0, b'i', 0];
    assert_eq!(UnicodeHandler::convert_to_utf8(&bytes).unwrap(), "hi");
}

#[test]
fn test_convert_to_utf8_from_windows1252() {
    // 0xE9 is the e-acute of the Windows code page
    let bytes = [b'c', b'a', b'f', 0xE9u8];
    assert_eq!(UnicodeHandler::convert_to_utf8(&bytes).unwrap(), "caf\u{e9}");
}

#[test]
fn test_convert_from_utf8_to_utf8() {
    assert_eq!(
        UnicodeHandler::convert_from_utf8("abc", EncodingKind::Utf8).unwrap(),
        b"abc".to_vec()
    );
}

#[test]
fn test_convert_from_utf8_to_windows1252() {
    assert_eq!(
        UnicodeHandler::convert_from_utf8("caf\u{e9}", EncodingKind::Windows1252).unwrap(),
        vec![b'c', b'a', b'f', 0xE9u8]
    );
}

#[test]
fn test_convert_from_utf8_unmappable_character() {
    // The check mark has no Windows-1252 representation
    let r = UnicodeHandler::convert_from_utf8("\u{2713}", EncodingKind::Windows1252);
    assert!(matches!(r, Err(PathError::EncodingError(_))));
}

#[test]
fn test_convert_path_encoding_identity() {
    let r = UnicodeHandler::convert_path_encoding(
        "C:\\data",
        EncodingKind::Windows1252,
        EncodingKind::Windows1252,
    );
    assert_eq!(r.unwrap(), "C:\\data");
}

#[test]
fn test_convert_path_encoding_utf8_to_windows1252() {
    // The UTF-8 bytes of an accented character decode as two code-page
    // characters
    let r = UnicodeHandler::convert_path_encoding(
        "caf\u{e9}",
        EncodingKind::Utf8,
        EncodingKind::Windows1252,
    );
    assert_eq!(r.unwrap(), "caf\u{c3}\u{a9}");
}

#[test]
fn test_normalize_windows_path_text() {
    assert_eq!(UnicodeHandler::normalize_windows_path("a<b:c?d"), "a_b_c_d");
    assert_eq!(UnicodeHandler::normalize_windows_path("tab\u{7}name"), "tabname");
}

#[test]
fn test_normalize_unix_path_text() {
    assert_eq!(UnicodeHandler::normalize_unix_path("a\0b\u{1}c"), "abc");
    assert_eq!(UnicodeHandler::normalize_unix_path("plain"), "plain");
}
