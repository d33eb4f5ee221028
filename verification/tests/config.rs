use flight_core::config::{ip_to_id, ConversionError, IpAddress};

#[test]
fn known_addresses_resolve() {
    assert_eq!(ip_to_id(IpAddress::V4(192, 168, 1, 10)).unwrap(), "servo-01");
    assert_eq!(ip_to_id(IpAddress::V4(192, 168, 1, 11)).unwrap(), "flight-01");
    assert_eq!(ip_to_id(IpAddress::V4(192, 158, 1, 130)).unwrap(), "ahrs-01");
    assert_eq!(ip_to_id(IpAddress::V4(192, 168, 1, 131)).unwrap(), "bms-01");
    for (last, id) in [(101, "sam-01"), (102, "sam-02"), (103, "sam-03"), (104, "sam-04"),
        (105, "sam-05")] {
        assert_eq!(ip_to_id(IpAddress::V4(192, 168, 1, last)).unwrap(), id);
    }
}

#[test]
fn unknown_address_reports_its_octets() {
    match ip_to_id(IpAddress::V4(10, 0, 0, 1)) {
        Err(ConversionError::BoardIdNotFound { ip }) => assert_eq!(ip, [10, 0, 0, 1]),
        other => panic!("expected a not-found error, got {:?}", other),
    }
    // One octet off a known address is still unknown.
    assert!(matches!(ip_to_id(IpAddress::V4(192, 168, 1, 106)),
        Err(ConversionError::BoardIdNotFound { .. })));
}

#[test]
fn ipv6_is_rejected() {
    assert!(matches!(ip_to_id(IpAddress::V6), Err(ConversionError::Ipv6Found)));
}

#[test]
fn errors_describe_themselves() {
    assert_eq!(ConversionError::Ipv6Found.describe(), "sender address was IPv6, expected IPv4");
    let e = ConversionError::BoardIdNotFound { ip: [10, 0, 254, 7] };
    assert_eq!(e.describe(), "no board identity maps to address 10.0.254.7");
}
