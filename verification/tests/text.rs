use mac_privacy_dissector::error::DissectError;
use mac_privacy_dissector::mac_addr::MacAddrError;
use mac_privacy_dissector::text::{decimal_text, hex_digit, hex_octet_text, join};

#[test]
fn decimal_numbers() {
    assert_eq!(decimal_text(0), "0");
    assert_eq!(decimal_text(9), "9");
    assert_eq!(decimal_text(10), "10");
    assert_eq!(decimal_text(16383), "16383");
    assert_eq!(decimal_text(usize::MAX), format!("{}", usize::MAX));
}

#[test]
fn hexadecimal_octets() {
    assert_eq!(hex_digit(15), "f");
    for b in 0..=255u8 {
        assert_eq!(hex_octet_text(b), format!("{:02x}", b));
    }
}

#[test]
fn lists_are_joined() {
    assert_eq!(join(&vec![], ", "), "");
    assert_eq!(join(&vec!["Initial"], ", "), "Initial");
    assert_eq!(join(&vec!["Initial", "Final", "Express"], ", "), "Initial, Final, Express");
}

#[test]
fn errors_are_sentences() {
    let error = DissectError::OutOfBounds { offset: 6, length: 6, available: 11 };
    assert_eq!(
        error.to_string(),
        "range of 6 octets at offset 6 exceeds the 11 octets available"
    );
    let error = DissectError::MacAddress(MacAddrError::InvalidLength(3));
    assert_eq!(error.to_string(), "expected length 6, found 3");
}
