use udp_bcast_ts::ip::{parse_ip, parse_ipv4, parse_ipv6, IpAddress};

#[test]
fn v4_plain() {
    assert_eq!(parse_ip("1.2.3.4"), Some(IpAddress::V4(1, 2, 3, 4)));
    assert_eq!(parse_ip("0.0.0.0"), Some(IpAddress::V4(0, 0, 0, 0)));
    assert_eq!(
        parse_ip("255.255.255.255"),
        Some(IpAddress::V4(255, 255, 255, 255))
    );
    assert_eq!(parse_ipv4("10.0.0.1"), Some((10, 0, 0, 1)));
}

#[test]
fn v4_rejects() {
    assert_eq!(parse_ip(""), None);
    assert_eq!(parse_ip("1.2.3"), None);
    assert_eq!(parse_ip("1.2.3.4.5"), None);
    assert_eq!(parse_ip("256.1.1.1"), None);
    assert_eq!(parse_ip("999.1.1.1"), None);
    assert_eq!(parse_ip("01.2.3.4"), None);
    assert_eq!(parse_ip("1.2.3.04"), None);
    assert_eq!(parse_ip("1..2.3"), None);
    assert_eq!(parse_ip("1.2.3.4 "), None);
    assert_eq!(parse_ip(" 1.2.3.4"), None);
    assert_eq!(parse_ip("+1.2.3.4"), None);
    assert_eq!(parse_ip("1.2.3.4x"), None);
    assert_eq!(parse_ip("a.b.c.d"), None);
    assert_eq!(parse_ip("1234.1.1.1"), None);
}

#[test]
fn v4_leading_zero_only_alone() {
    assert_eq!(parse_ip("0.10.200.3"), Some(IpAddress::V4(0, 10, 200, 3)));
    assert_eq!(parse_ip("00.1.1.1"), None);
}

#[test]
fn v6_full_form() {
    assert_eq!(
        parse_ip("1:2:3:4:5:6:7:8"),
        Some(IpAddress::V6(1, 2, 3, 4, 5, 6, 7, 8))
    );
    assert_eq!(
        parse_ip("0:0:0:0:0:0:0:1"),
        Some(IpAddress::V6(0, 0, 0, 0, 0, 0, 0, 1))
    );
    assert_eq!(
        parse_ip("ffff:FFFF:abcd:ABCD:1234:0:00:000f"),
        Some(IpAddress::V6(0xffff, 0xffff, 0xabcd, 0xabcd, 0x1234, 0, 0, 0xf))
    );
}

#[test]
fn v6_compressed() {
    assert_eq!(parse_ip("::"), Some(IpAddress::V6(0, 0, 0, 0, 0, 0, 0, 0)));
    assert_eq!(parse_ip("::1"), Some(IpAddress::V6(0, 0, 0, 0, 0, 0, 0, 1)));
    assert_eq!(parse_ip("1::"), Some(IpAddress::V6(1, 0, 0, 0, 0, 0, 0, 0)));
    assert_eq!(
        parse_ip("ff02::1"),
        Some(IpAddress::V6(0xff02, 0, 0, 0, 0, 0, 0, 1))
    );
    assert_eq!(
        parse_ip("2001:db8::8:800:200c:417a"),
        Some(IpAddress::V6(0x2001, 0xdb8, 0, 0, 8, 0x800, 0x200c, 0x417a))
    );
    assert_eq!(
        parse_ip("1:2:3:4:5:6:7::"),
        Some(IpAddress::V6(1, 2, 3, 4, 5, 6, 7, 0))
    );
    assert_eq!(
        parse_ip("::1:2:3:4:5:6:7"),
        Some(IpAddress::V6(0, 1, 2, 3, 4, 5, 6, 7))
    );
}

#[test]
fn v6_embedded_v4() {
    assert_eq!(
        parse_ip("::ffff:192.168.0.1"),
        Some(IpAddress::V6(0, 0, 0, 0, 0, 0xffff, 0xc0a8, 0x0001))
    );
    assert_eq!(
        parse_ip("::1.2.3.4"),
        Some(IpAddress::V6(0, 0, 0, 0, 0, 0, 0x0102, 0x0304))
    );
    assert_eq!(
        parse_ip("1:2:3:4:5:6:7.7.7.7"),
        Some(IpAddress::V6(1, 2, 3, 4, 5, 6, 0x0707, 0x0707))
    );
    assert_eq!(
        parse_ip("1:2::3.4.5.6"),
        Some(IpAddress::V6(1, 2, 0, 0, 0, 0, 0x0304, 0x0506))
    );
}

#[test]
fn v6_rejects() {
    assert_eq!(parse_ipv6(""), None);
    assert_eq!(parse_ipv6(":"), None);
    assert_eq!(parse_ipv6(":::"), None);
    assert_eq!(parse_ip("1:2:3:4:5:6:7"), None);
    assert_eq!(parse_ip("1:2:3:4:5:6:7:8:9"), None);
    assert_eq!(parse_ip("1:2:3:4:5:6:7::8"), None);
    assert_eq!(parse_ip("1::2::3"), None);
    assert_eq!(parse_ip("12345::"), None);
    assert_eq!(parse_ip("::1.2.3.4:5"), None);
    assert_eq!(parse_ip("1.2.3.4::"), None);
    assert_eq!(parse_ip("::g"), None);
    assert_eq!(parse_ip("1:2:3:4:5:6:1.2.3.456"), None);
    assert_eq!(parse_ip("fe80::1%eth0"), None);
}

#[test]
fn families_are_distinguished() {
    assert!(matches!(parse_ip("8.8.8.8"), Some(IpAddress::V4(..))));
    assert!(matches!(parse_ip("::8.8.8.8"), Some(IpAddress::V6(..))));
    let a = parse_ip("1.2.3.4").unwrap();
    assert!(a.is_v4());
    let b = parse_ip("::1").unwrap();
    assert!(!b.is_v4());
}
