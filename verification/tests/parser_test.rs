use unique_ip_counter::parse_ip;
use unique_ip_counter::IpAddress;

#[test]
fn test_parse_v4_exact_values() {
    assert_eq!(parse_ip("0.0.0.0"), Some(IpAddress::V4(0)));
    assert_eq!(parse_ip("255.255.255.255"), Some(IpAddress::V4(0xffffffff)));
    assert_eq!(parse_ip("192.168.1.1"), Some(IpAddress::V4(0xc0a80101)));
    assert_eq!(parse_ip("8.8.8.8"), Some(IpAddress::V4(0x08080808)));
    assert_eq!(parse_ip("10.0.0.1"), Some(IpAddress::V4(0x0a000001)));
}

#[test]
fn test_parse_v4_rejects_bad_literals() {
    assert_eq!(parse_ip("256.1.1.1"), None);
    assert_eq!(parse_ip("01.2.3.4"), None);
    assert_eq!(parse_ip("1.2.3"), None);
    assert_eq!(parse_ip("1.2.3.4.5"), None);
    assert_eq!(parse_ip("1.2.3."), None);
    assert_eq!(parse_ip(".1.2.3"), None);
    assert_eq!(parse_ip("1.2.3.4 "), None);
    assert_eq!(parse_ip(" 1.2.3.4"), None);
    assert_eq!(parse_ip("1.2.3.a"), None);
    assert_eq!(parse_ip(""), None);
    assert_eq!(parse_ip("not.an.ip"), None);
}

#[test]
fn test_parse_v6_exact_values() {
    assert_eq!(parse_ip("::"), Some(IpAddress::V6(0)));
    assert_eq!(parse_ip("::1"), Some(IpAddress::V6(1)));
    assert_eq!(
        parse_ip("2001:0db8:85a3:0000:0000:8a2e:0370:7334"),
        Some(IpAddress::V6(0x20010db885a3000000008a2e03707334))
    );
    assert_eq!(
        parse_ip("2001:db8::1"),
        Some(IpAddress::V6(0x20010db8000000000000000000000001))
    );
    assert_eq!(
        parse_ip("1:2:3:4:5:6:7:8"),
        Some(IpAddress::V6(0x00010002000300040005000600070008))
    );
    assert_eq!(parse_ip("fe80::"), Some(IpAddress::V6(0xfe800000000000000000000000000000)));
    assert_eq!(
        parse_ip("1:2:3:4:5:6:7::"),
        Some(IpAddress::V6(0x00010002000300040005000600070000))
    );
}

#[test]
fn test_parse_v6_embedded_v4() {
    assert_eq!(
        parse_ip("::ffff:192.0.2.128"),
        Some(IpAddress::V6(0x00000000000000000000ffffc0000280))
    );
    assert_eq!(
        parse_ip("1:2:3:4:5:6:77.77.88.88"),
        Some(IpAddress::V6(0x0001000200030004000500064d4d5858))
    );
}

#[test]
fn test_parse_v6_rejects_bad_literals() {
    assert_eq!(parse_ip(":"), None);
    assert_eq!(parse_ip(":::"), None);
    assert_eq!(parse_ip("1::2::3"), None);
    assert_eq!(parse_ip("1:2:3:4:5:6:7"), None);
    assert_eq!(parse_ip("1:2:3:4:5:6:7:8:9"), None);
    assert_eq!(parse_ip("1:2:3:4:5:6:7:8::"), None);
    assert_eq!(parse_ip("12345::"), None);
    assert_eq!(parse_ip("g::"), None);
    assert_eq!(parse_ip("::00000"), None);
    assert_eq!(parse_ip("1:::2"), None);
    assert_eq!(parse_ip(":1:2:3:4:5:6:7"), None);
    assert_eq!(parse_ip("1:2:3:4:5:6:7:"), None);
    assert_eq!(parse_ip("1.2.3.4::"), None);
    assert_eq!(parse_ip("::1.2.3.4:5"), None);
}

#[test]
fn test_v4_and_embedded_v4_are_distinct_keys() {
    let bare = parse_ip("192.0.2.128").unwrap();
    let embedded = parse_ip("::ffff:192.0.2.128").unwrap();
    assert_ne!(bare, embedded);
}

#[test]
fn test_hex_case_insensitive_groups() {
    assert_eq!(parse_ip("ABCD::ef01"), parse_ip("abcd::EF01"));
    assert_eq!(
        parse_ip("abcd::ef01"),
        Some(IpAddress::V6(0xabcd000000000000000000000000ef01))
    );
}
