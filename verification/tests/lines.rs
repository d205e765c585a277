use network_ex::l2::if_arp::ArpHdr;
use network_ex::l2::if_ether::EthHdr;
use network_ex::l3::icmp::IcmpHdr;
use network_ex::l3::ip::Ipv4Hdr;

#[test]
fn ethernet_header_lines() {
    let h = EthHdr::new(&[
        0xff, 0xff, 0xff, 0xff, 0xff, 0xff, 0x00, 0x1a, 0x2b, 0x3c, 0x4d, 0x5e, 0x08, 0x06,
    ]);
    assert_eq!(
        h.lines(),
        vec![
            "-----------Ethernet Header-------------",
            "Destination MAC: ff:ff:ff:ff:ff:ff",
            "Source MAC: 00:1a:2b:3c:4d:5e",
            "Protocol: ARP(0x0806)",
        ]
    );
}

#[test]
fn arp_header_lines() {
    let h = ArpHdr::new(&[
        0x00, 0x01, 0x08, 0x00, 0x06, 0x04, 0x00, 0x02, 0x00, 0x1a, 0x2b, 0x3c, 0x4d, 0x5e, 192,
        168, 0, 1, 0x01, 0x02, 0x03, 0x04, 0x05, 0x06, 192, 168, 0, 10,
    ]);
    assert_eq!(
        h.lines(),
        vec![
            "-----------ARP Header:-------------",
            "Hardware type: Ethernet(0x0001)",
            "Protocol type: IPv4(0x0800)",
            "Hardware length: 6",
            "Protocol length: 4",
            "Operation: ARP Reply(0x0002)",
            "Sender MAC: 00:1a:2b:3c:4d:5e",
            "Sender IP: 192.168.0.1",
            "Target MAC: 01:02:03:04:05:06",
            "Target IP: 192.168.0.10",
        ]
    );
}

#[test]
fn ipv4_header_lines() {
    let h = Ipv4Hdr::new(&[
        0x45, 0x00, 0x00, 0x54, 0x30, 0x39, 0x40, 0x00, 0x40, 0x01, 0x3d, 0xb2, 0xc0, 0xa8, 0x00,
        0x0a, 0x08, 0x08, 0x04, 0x04,
    ]);
    assert_eq!(
        h.lines(),
        vec![
            "---------------IP Header---------------",
            "version: 4",
            "ihl: 5",
            "tos: 0",
            "tot_len: 84",
            "id: 12345",
            "frag_off: 0x4000",
            "ttl: 64",
            "protocol: 1",
            "check: 0x3db2",
            "saddr: 192.168.0.10",
            "daddr: 8.8.4.4",
            "----------------------------------------",
        ]
    );
}

#[test]
fn icmp_echo_header_lines() {
    let h = IcmpHdr::new(&[0x08, 0x00, 0xe6, 0xaf, 0xff, 0xff, 0x00, 0x01]);
    assert_eq!(
        h.lines(),
        vec![
            "---------------ICMP Header---------------",
            "type: 8",
            "code: 0",
            "checksum: 0xe6af",
            "id: 65535",
            "sequence: 1",
            "----------------------------------------",
        ]
    );
}

#[test]
fn icmp_other_header_lines() {
    let h = IcmpHdr::new(&[0x03, 0x01, 0x00, 0x0f, 0x12, 0x34, 0x56, 0x78]);
    assert_eq!(
        h.lines(),
        vec![
            "---------------ICMP Header---------------",
            "type: 3",
            "code: 1",
            "checksum: 0x000f",
            "----------------------------------------",
        ]
    );
}
