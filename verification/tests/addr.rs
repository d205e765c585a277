use network_ex::nic::interface::{Interface, InterfaceBuilder};
use network_ex::util::addr::{fmt_ip, fmt_mac, parse_ipv4, AddrParseError};

#[test]
fn formats_addresses() {
    assert_eq!(fmt_ip([192, 168, 0, 1]), "192.168.0.1");
    assert_eq!(fmt_ip([0, 10, 100, 255]), "0.10.100.255");
    assert_eq!(fmt_mac([0x00, 0x1a, 0x2b, 0x3c, 0x4d, 0x5e]), "00:1a:2b:3c:4d:5e");
    assert_eq!(fmt_mac([0xff; 6]), "ff:ff:ff:ff:ff:ff");
}

#[test]
fn parses_dotted_decimal() {
    assert_eq!(parse_ipv4("192.168.0.1"), Ok([192, 168, 0, 1]));
    assert_eq!(parse_ipv4("0.0.0.0"), Ok([0, 0, 0, 0]));
    assert_eq!(parse_ipv4("255.255.255.255"), Ok([255; 4]));
    assert_eq!(parse_ipv4("010.+2.003.4"), Ok([10, 2, 3, 4]));
}

#[test]
fn rejects_wrong_part_counts() {
    assert_eq!(parse_ipv4("1.2.3"), Err(AddrParseError::WrongPartCount));
    assert_eq!(parse_ipv4("1.2.3.4.5"), Err(AddrParseError::WrongPartCount));
    assert_eq!(parse_ipv4(""), Err(AddrParseError::WrongPartCount));
    assert_eq!(parse_ipv4("x.y.z"), Err(AddrParseError::WrongPartCount));
}

#[test]
fn rejects_bad_octets() {
    assert_eq!(parse_ipv4("1.2.3.256"), Err(AddrParseError::InvalidOctet));
    assert_eq!(parse_ipv4("1..3.4"), Err(AddrParseError::InvalidOctet));
    assert_eq!(parse_ipv4("1.2.3.-4"), Err(AddrParseError::InvalidOctet));
    assert_eq!(parse_ipv4("1.2.+.4"), Err(AddrParseError::InvalidOctet));
    assert_eq!(parse_ipv4("a.b.c.d"), Err(AddrParseError::InvalidOctet));
    assert_eq!(parse_ipv4("1.2.3.1000"), Err(AddrParseError::InvalidOctet));
}

#[test]
fn parses_what_std_parses() {
    for text in ["7", "+7", "255", "256", "", "+", "-1", "00000001", "1a", " 1"] {
        let mine = parse_ipv4(&format!("1.2.3.{}", text));
        let std = text.parse::<u8>();
        match std {
            Ok(v) => assert_eq!(mine, Ok([1, 2, 3, v])),
            Err(_) => assert_eq!(mine, Err(AddrParseError::InvalidOctet)),
        }
    }
}

#[test]
fn formatted_addresses_parse_back() {
    for ip in [[0, 0, 0, 0], [1, 22, 133, 255], [192, 168, 100, 9]] {
        assert_eq!(parse_ipv4(&fmt_ip(ip)), Ok(ip));
    }
}

#[test]
fn builder_builds_what_it_was_given() {
    let iface = InterfaceBuilder::new()
        .name("eth0".to_string())
        .index(2)
        .mac_addr([1, 2, 3, 4, 5, 6])
        .ip_addr([192, 168, 1, 100])
        .build();
    assert_eq!(iface.name, "eth0");
    assert_eq!(iface.index, 2);
    assert_eq!(iface.mac_addr, [1, 2, 3, 4, 5, 6]);
    assert_eq!(iface.ip_addr, [192, 168, 1, 100]);
    let same = Interface::new("eth0".to_string(), 2, [1, 2, 3, 4, 5, 6], [192, 168, 1, 100]);
    assert_eq!(same.name, iface.name);
    assert_eq!(same.mac_addr, iface.mac_addr);
}

#[test]
fn builder_keeps_the_last_value_given() {
    let iface = InterfaceBuilder::new()
        .ip_addr([1, 1, 1, 1])
        .name("lo".to_string())
        .index(1)
        .mac_addr([0; 6])
        .ip_addr([127, 0, 0, 1])
        .build();
    assert_eq!(iface.ip_addr, [127, 0, 0, 1]);
    assert_eq!(iface.name, "lo");
}
