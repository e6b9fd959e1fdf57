//! The UTF-8 validity check against the platform decoder.

use gen_support::encoding::is_utf8;

#[test]
fn ascii_is_valid() {
    assert!(is_utf8(&b"hello world".to_vec()));
    assert!(is_utf8(&Vec::new()));
}

#[test]
fn multibyte_scalars_are_valid() {
    let text = "caf\u{e9} \u{2603} \u{1F600}";
    assert!(is_utf8(&text.as_bytes().to_vec()));
}

#[test]
fn malformed_sequences_are_invalid() {
    assert!(!is_utf8(&vec![0xFF]));
    assert!(!is_utf8(&vec![0x80])); // continuation byte leads
    assert!(!is_utf8(&vec![0xC0, 0x80])); // overlong two-byte form
    assert!(!is_utf8(&vec![0xE0, 0x9F, 0xBF])); // overlong three-byte form
    assert!(!is_utf8(&vec![0xED, 0xA0, 0x80])); // surrogate
    assert!(!is_utf8(&vec![0xF0, 0x8F, 0xBF, 0xBF])); // overlong four-byte form
    assert!(!is_utf8(&vec![0xF4, 0x90, 0x80, 0x80])); // above the last scalar
    assert!(!is_utf8(&vec![0xE2, 0x98])); // truncated
}

#[test]
fn agrees_with_the_platform_decoder() {
    let samples: Vec<Vec<u8>> = vec![
        b"plain".to_vec(),
        vec![0xC2, 0x80],
        vec![0xC3, 0xA9],
        vec![0xDF, 0xBF],
        vec![0xE0, 0xA0, 0x80],
        vec![0xE2, 0x98, 0x83],
        vec![0xED, 0x9F, 0xBF],
        vec![0xEE, 0x80, 0x80],
        vec![0xF0, 0x90, 0x80, 0x80],
        vec![0xF0, 0x9F, 0x98, 0x80],
        vec![0xF4, 0x8F, 0xBF, 0xBF],
        vec![0xFF],
        vec![0x80],
        vec![0xC0, 0x80],
        vec![0xC2],
        vec![0xE0, 0x9F, 0xBF],
        vec![0xED, 0xA0, 0x80],
        vec![0xF0, 0x8F, 0xBF, 0xBF],
        vec![0xF4, 0x90, 0x80, 0x80],
        vec![0xF8, 0x88, 0x80, 0x80, 0x80],
        vec![0xE2, 0x98],
        vec![0x61, 0xC3, 0xA9, 0x62, 0xE2, 0x98, 0x83, 0x63],
        vec![0x61, 0xC3],
    ];
    for bytes in &samples {
        assert_eq!(is_utf8(bytes), std::str::from_utf8(bytes).is_ok());
    }
}
