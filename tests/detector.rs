use vitax::detector::{Encoding, FileDetector, FileType};

#[test]
fn test_utf8_validation() {
    let utf8_bytes = "Hello, world".as_bytes();
    assert!(FileDetector::is_valid_utf8(utf8_bytes));

    let invalid_utf8 = &[0xFF, 0xFE];
    assert!(!FileDetector::is_valid_utf8(invalid_utf8));
}

#[test]
fn test_binary_detection() {
    let text_data = "Hello world".as_bytes();
    let ratio = FileDetector::count_non_printable(text_data) as f64 / text_data.len() as f64;
    assert!(ratio < 0.25);
}

#[test]
fn ascii_text_is_utf8_text() {
    let bytes = "Hello, world".as_bytes();
    assert_eq!(FileDetector::detect_file_type(bytes), FileType::Text);
    assert_eq!(FileDetector::detect_encoding(bytes), Encoding::Utf8);
}

#[test]
fn ff_fe_is_unknown_and_binary() {
    let bytes = [0xFFu8, 0xFE];
    assert!(!FileDetector::is_valid_utf8(&bytes));
    assert!(!FileDetector::is_valid_shift_jis(&bytes));
    assert_eq!(FileDetector::count_non_printable(&bytes), 2);
    assert_eq!(FileDetector::detect_encoding(&bytes), Encoding::Unknown);
    assert_eq!(FileDetector::detect_file_type(&bytes), FileType::Binary);
}

#[test]
fn null_byte_means_binary() {
    let bytes = b"plain text\0more text";
    assert!(FileDetector::contains_null(bytes));
    assert_eq!(FileDetector::detect_file_type(bytes), FileType::Binary);
    assert_eq!(FileDetector::detect_file_type(&[0u8]), FileType::Binary);
}

#[test]
fn null_byte_past_the_sample_is_not_seen() {
    let mut bytes = vec![b'a'; 3000];
    bytes[2500] = 0;
    assert_eq!(FileDetector::detect_file_type(&bytes), FileType::Text);
    bytes[2047] = 0;
    assert_eq!(FileDetector::detect_file_type(&bytes), FileType::Binary);
}

#[test]
fn empty_input_is_utf8_text() {
    assert_eq!(FileDetector::detect_file_type(&[]), FileType::Text);
    assert_eq!(FileDetector::detect_encoding(&[]), Encoding::Utf8);
    assert_eq!(FileDetector::count_non_printable(&[]), 0);
}

#[test]
fn multibyte_utf8_is_accepted() {
    let bytes = "日本語 é 😀".as_bytes();
    assert!(FileDetector::is_valid_utf8(bytes));
    assert_eq!(FileDetector::detect_encoding(bytes), Encoding::Utf8);
}

#[test]
fn malformed_utf8_is_rejected() {
    // truncated three-byte sequence
    assert!(!FileDetector::is_valid_utf8(&[0xE3, 0x81]));
    // bad continuation byte
    assert!(!FileDetector::is_valid_utf8(&[0xC3, 0x41]));
    // overlong forms
    assert!(!FileDetector::is_valid_utf8(&[0xC0, 0x80]));
    assert!(!FileDetector::is_valid_utf8(&[0xE0, 0x80, 0x80]));
    assert!(!FileDetector::is_valid_utf8(&[0xF0, 0x80, 0x80, 0x80]));
    // lone continuation byte
    assert!(!FileDetector::is_valid_utf8(&[0x80]));
}

#[test]
fn shift_jis_is_detected() {
    // "あい" in Shift-JIS
    let bytes = [0x82u8, 0xA0, 0x82, 0xA2];
    assert!(!FileDetector::is_valid_utf8(&bytes));
    assert!(FileDetector::is_valid_shift_jis(&bytes));
    assert_eq!(FileDetector::detect_encoding(&bytes), Encoding::ShiftJis);
    assert_eq!(FileDetector::detect_file_type(&bytes), FileType::Text);
    // half-width katakana is a single byte
    assert!(FileDetector::is_valid_shift_jis(&[0xB1]));
    // a lead byte without its trail byte
    assert!(!FileDetector::is_valid_shift_jis(&[0x82]));
    // a trail byte out of range
    assert!(!FileDetector::is_valid_shift_jis(&[0x82, 0x20]));
}

#[test]
fn ratio_threshold_decides_the_rest() {
    // one non-printable byte in four: exactly a quarter, so text
    let quarter = [0xFFu8, b'a', b'b', b'c'];
    assert_eq!(FileDetector::count_non_printable(&quarter), 1);
    assert_eq!(FileDetector::detect_file_type(&quarter), FileType::Text);
    assert_eq!(FileDetector::detect_encoding(&quarter), Encoding::Unknown);
    // two in four: binary
    let half = [0xFFu8, 0xFF, b'a', b'b'];
    assert_eq!(FileDetector::detect_file_type(&half), FileType::Binary);
}

#[test]
fn printable_set() {
    assert!(FileDetector::is_printable_ascii(b' '));
    assert!(FileDetector::is_printable_ascii(b'~'));
    assert!(FileDetector::is_printable_ascii(b'\n'));
    assert!(FileDetector::is_printable_ascii(b'\r'));
    assert!(FileDetector::is_printable_ascii(b'\t'));
    assert!(!FileDetector::is_printable_ascii(0x7F));
    assert!(!FileDetector::is_printable_ascii(0x1B));
}
