use rumiga::network::{parse_mac_octets, MacAddress, MacAddressError};

#[test]
fn parses_unicast_mac_address() {
    let mac = MacAddress::from_unicast_str("00:80:10:4d:49:47").expect("valid MAC");

    assert_eq!(mac.octets(), [0x00, 0x80, 0x10, 0x4D, 0x49, 0x47]);
    assert_eq!(mac.to_colon_string(), "00:80:10:4d:49:47");
}

#[test]
fn rejects_non_station_addresses() {
    assert_eq!(
        MacAddress::from_unicast_str("00:00:00:00:00:00"),
        Err(MacAddressError::AllZero)
    );
    assert_eq!(
        MacAddress::from_unicast_str("ff:ff:ff:ff:ff:ff"),
        Err(MacAddressError::Broadcast)
    );
    assert_eq!(
        MacAddress::from_unicast_str("01:80:10:4d:49:47"),
        Err(MacAddressError::Multicast)
    );
    assert_eq!(
        MacAddress::from_unicast_str("00-80-10-4d-49-47"),
        Err(MacAddressError::InvalidFormat)
    );
}

#[test]
fn default_card_address_uses_commodore_oui() {
    let mac = MacAddress::a2065_compatible_default();
    assert_eq!(mac.octets(), [0x00, 0x80, 0x10, 0x4D, 0x49, 0x47]);
    assert_eq!(mac.to_colon_string(), "00:80:10:4d:49:47");
}

#[test]
fn upper_case_digits_parse_and_render_lower_case() {
    let mac = MacAddress::from_unicast_str("02:AB:CD:EF:01:23").expect("valid MAC");
    assert_eq!(mac.to_colon_string(), "02:ab:cd:ef:01:23");
    assert_eq!(
        MacAddress::from_unicast_octets([0x02, 0xab, 0xcd, 0xef, 0x01, 0x23]),
        Ok(mac)
    );
}

#[test]
fn malformed_text_is_not_parsed() {
    assert_eq!(parse_mac_octets(b"00:80:10:4d:49"), None);
    assert_eq!(parse_mac_octets(b"00:80:10:4d:49:4g"), None);
    assert_eq!(
        parse_mac_octets(b"00:80:10:4d:49:47"),
        Some([0x00, 0x80, 0x10, 0x4D, 0x49, 0x47])
    );
}

#[test]
fn error_messages_describe_the_problem() {
    assert_eq!(
        MacAddressError::Broadcast.message(),
        "broadcast MAC addresses are not valid"
    );
    assert_eq!(
        MacAddressError::InvalidFormat.message(),
        "expected six hexadecimal octets separated by colons"
    );
}
