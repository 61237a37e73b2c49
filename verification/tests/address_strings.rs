use nerd_stack::address::{ipv4_eq, ipv4_from_string, ipv4_to_string, mac_eq, mac_from_string, mac_to_string};

#[test]
fn mac_printed_as_hex_octets() {
    assert_eq!(mac_to_string(&[0xaa, 0xbb, 0xcc, 0xdd, 0xee, 0xff]), "aa:bb:cc:dd:ee:ff");
    // octets below 16 print as a single digit
    assert_eq!(mac_to_string(&[0x00, 0x0a, 0x02, 0x10, 0xff, 0x01]), "0:a:2:10:ff:1");
}

#[test]
fn ipv4_printed_as_decimal_octets() {
    assert_eq!(ipv4_to_string(&[10, 0, 0, 5]), "10.0.0.5");
    assert_eq!(ipv4_to_string(&[255, 100, 9, 0]), "255.100.9.0");
}

#[test]
fn mac_string_round_trips() {
    for mac in [
        [0xaa, 0xbb, 0xcc, 0xdd, 0xee, 0xff],
        [0, 0, 0, 0, 0, 0],
        [1, 0x10, 0x0f, 0xf0, 0xff, 9],
    ] {
        let printed = mac_to_string(&mac);
        assert_eq!(mac_from_string(&printed), Some(mac));
    }
}

#[test]
fn ipv4_string_round_trips() {
    for ip in [[10, 0, 0, 5], [0, 0, 0, 0], [255, 255, 255, 255], [192, 168, 1, 7]] {
        let printed = ipv4_to_string(&ip);
        assert_eq!(ipv4_from_string(&printed), Some(ip));
    }
}

#[test]
fn mac_parser_accepts_canonical_forms() {
    assert_eq!(
        mac_from_string("aa:bb:cc:dd:ee:ff"),
        Some([0xaa, 0xbb, 0xcc, 0xdd, 0xee, 0xff])
    );
    assert_eq!(mac_from_string("0:a:2:10:ff:1"), Some([0x00, 0x0a, 0x02, 0x10, 0xff, 0x01]));
}

#[test]
fn mac_parser_rejects_malformed_strings() {
    assert_eq!(mac_from_string(""), None);
    assert_eq!(mac_from_string("aa:bb:cc:dd:ee"), None);
    assert_eq!(mac_from_string("aa:bb:cc:dd:ee:ff:11"), None);
    assert_eq!(mac_from_string("aa:bb:cc:dd:ee:gg"), None);
    assert_eq!(mac_from_string("aa-bb-cc-dd-ee-ff"), None);
    assert_eq!(mac_from_string("AA:BB:CC:DD:EE:FF"), None);
    assert_eq!(mac_from_string("aa:bb:cc:dd:ee:ff "), None);
}

#[test]
fn ipv4_parser_rejects_malformed_strings() {
    assert_eq!(ipv4_from_string(""), None);
    assert_eq!(ipv4_from_string("10.0.0"), None);
    assert_eq!(ipv4_from_string("10.0.0.1.2"), None);
    assert_eq!(ipv4_from_string("256.0.0.1"), None);
    assert_eq!(ipv4_from_string("10.0.0.x"), None);
    assert_eq!(ipv4_from_string("10..0.1"), None);
}

#[test]
fn address_equality_is_by_value() {
    assert!(mac_eq(&[1, 2, 3, 4, 5, 6], &[1, 2, 3, 4, 5, 6]));
    assert!(!mac_eq(&[1, 2, 3, 4, 5, 6], &[1, 2, 3, 4, 5, 7]));
    assert!(ipv4_eq(&[10, 0, 0, 1], &[10, 0, 0, 1]));
    assert!(!ipv4_eq(&[10, 0, 0, 1], &[10, 0, 1, 1]));
}
