use mac_privacy_dissector::mac_addr::{MacAddr, MacAddrError};

#[test]
fn mac_address_is_shown_as_hex_octets() {
    let address = MacAddr::try_from(vec![0x01, 0x23, 0x45, 0x67, 0x89, 0xab]).unwrap();
    assert_eq!(address.to_string(), "01:23:45:67:89:ab");
    let address = MacAddr::try_from(vec![0xff, 0x00, 0x0f, 0xf0, 0xcd, 0xe1]).unwrap();
    assert_eq!(address.to_string(), "ff:00:0f:f0:cd:e1");
}

#[test]
fn mac_address_needs_six_octets() {
    assert_eq!(
        MacAddr::try_from(vec![1, 2, 3, 4, 5]).err(),
        Some(MacAddrError::InvalidLength(5))
    );
    assert_eq!(
        MacAddr::try_from(vec![]).err(),
        Some(MacAddrError::InvalidLength(0))
    );
    assert_eq!(
        MacAddr::try_from(vec![0; 7]).err(),
        Some(MacAddrError::InvalidLength(7))
    );
}

#[test]
fn mac_address_error_names_both_lengths() {
    assert_eq!(
        MacAddrError::InvalidLength(12).to_string(),
        "expected length 6, found 12"
    );
}

#[test]
fn mac_addresses_are_equal_by_octets() {
    let a = MacAddr::try_from(vec![1, 2, 3, 4, 5, 6]).unwrap();
    let b = MacAddr::try_from(vec![1, 2, 3, 4, 5, 6]).unwrap();
    let c = MacAddr::try_from(vec![1, 2, 3, 4, 5, 7]).unwrap();
    assert!(a == b);
    assert!(a != c);
    assert!(a.clone() == a);
    assert_ne!(a.to_string(), c.to_string());
}

#[test]
fn mac_address_text_has_seventeen_characters() {
    let text = MacAddr::try_from(vec![0; 6]).unwrap().to_string();
    assert_eq!(text.len(), 17);
    assert_eq!(text, "00:00:00:00:00:00");
}

#[test]
fn mac_address_text_is_pairs_of_digits() {
    let text = MacAddr::try_from(vec![0x00, 0x19, 0x2a, 0xb3, 0xcc, 0xff]).unwrap().to_string();
    for (i, c) in text.chars().enumerate() {
        if i % 3 == 2 {
            assert_eq!(c, ':');
        } else {
            assert!(c.is_ascii_digit() || ('a'..='f').contains(&c));
        }
    }
}
