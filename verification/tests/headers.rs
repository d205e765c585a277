use network_ex::l2::if_arp::{fmt_arp_hrd, fmt_arp_op, fmt_arp_pro, ArpHdr};
use network_ex::l2::if_ether::{fmt_proto, EthHdr};
use network_ex::l3::icmp::{num_pattern, IcmpEcho, IcmpHdr, IcmpHdrExt};
use network_ex::l3::ip::Ipv4Hdr;

const IP_BYTES: [u8; 20] = [
    0x45, 0x00, 0x00, 0x73, 0x12, 0x34, 0x40, 0x00, 0x40, 0x11, 0xB8, 0x61, 0xc0, 0xa8, 0x00,
    0x01, 0xc0, 0xa8, 0x00, 0xc7,
];

#[test]
fn ipv4_header_reads_network_order() {
    let h = Ipv4Hdr::new(&IP_BYTES);
    assert_eq!(h.version_ihl >> 4, 4);
    assert_eq!(h.version_ihl & 0x0f, 5);
    assert_eq!(h.tos, 0);
    assert_eq!(h.tot_len, 0x73);
    assert_eq!(h.id, 0x1234);
    assert_eq!(h.frag_off, 0x4000);
    assert_eq!(h.ttl, 64);
    assert_eq!(h.protocol, 0x11);
    assert_eq!(h.check, 0xB861);
    assert_eq!(h.saddr, 0xc0a80001);
    assert_eq!(h.daddr, 0xc0a800c7);
}

#[test]
fn ipv4_header_bytes_roundtrip() {
    let h = Ipv4Hdr::new(&IP_BYTES);
    assert_eq!(h.to_bytes(), IP_BYTES);
    assert_eq!(Ipv4Hdr::new(&h.to_bytes()), h);
}

#[test]
fn ipv4_header_reads_only_the_first_twenty_bytes() {
    let mut longer = IP_BYTES.to_vec();
    longer.extend_from_slice(&[0xde, 0xad]);
    assert_eq!(Ipv4Hdr::new(&longer), Ipv4Hdr::new(&IP_BYTES));
}

#[test]
fn icmp_header_reads_network_order() {
    let bytes = [0x08, 0x00, 0xe6, 0xaf, 0x12, 0x34, 0x00, 0x01];
    let h = IcmpHdr::new(&bytes);
    assert_eq!(
        h,
        IcmpHdr {
            icmp_type: 8,
            code: 0,
            checksum: 0xe6af,
            ext: IcmpHdrExt { echo: IcmpEcho { id: 0x1234, sequence: 1 } },
        }
    );
    assert_eq!(h.to_bytes(), bytes);
}

#[test]
fn ethernet_header_roundtrip() {
    let bytes = [0xff, 0xff, 0xff, 0xff, 0xff, 0xff, 0x00, 0x1a, 0x2b, 0x3c, 0x4d, 0x5e, 0x08, 0x06];
    let h = EthHdr::new(&bytes);
    assert_eq!(h.h_dest, [0xff; 6]);
    assert_eq!(h.h_source, [0x00, 0x1a, 0x2b, 0x3c, 0x4d, 0x5e]);
    assert_eq!(h.h_proto, 0x0806);
    assert_eq!(h.to_bytes(), bytes);
}

#[test]
fn arp_header_roundtrip() {
    let bytes = [
        0x00, 0x01, 0x08, 0x00, 0x06, 0x04, 0x00, 0x02, 0x00, 0x1a, 0x2b, 0x3c, 0x4d, 0x5e, 192,
        168, 0, 1, 0x01, 0x02, 0x03, 0x04, 0x05, 0x06, 192, 168, 0, 10,
    ];
    let h = ArpHdr::new(&bytes);
    assert_eq!(h.arp_hrd, 1);
    assert_eq!(h.arp_pro, 0x0800);
    assert_eq!(h.arp_hln, 6);
    assert_eq!(h.arp_pln, 4);
    assert_eq!(h.arp_op, 2);
    assert_eq!(h.arp_sha, [0x00, 0x1a, 0x2b, 0x3c, 0x4d, 0x5e]);
    assert_eq!(h.arp_sip, [192, 168, 0, 1]);
    assert_eq!(h.arp_tha, [1, 2, 3, 4, 5, 6]);
    assert_eq!(h.arp_tip, [192, 168, 0, 10]);
    assert_eq!(h.to_bytes(), bytes);
}

#[test]
fn protocol_names() {
    assert_eq!(fmt_proto(0x0800), "IPv4(0x0800)");
    assert_eq!(fmt_proto(0x0806), "ARP(0x0806)");
    assert_eq!(fmt_proto(0x86dd), "Unknown(0x86dd)");
    assert_eq!(fmt_arp_pro(0x0800), "IPv4(0x0800)");
    assert_eq!(fmt_arp_pro(0x0806), "ARP(0x0806)");
    assert_eq!(fmt_arp_pro(0), "Unknown(0x0000)");
}

#[test]
fn hardware_type_names() {
    assert_eq!(fmt_arp_hrd(1), "Ethernet(0x0001)");
    assert_eq!(fmt_arp_hrd(6), "Unknown(0x0006)");
}

#[test]
fn operation_names() {
    assert_eq!(fmt_arp_op(1), "ARP Request(0x0001)");
    assert_eq!(fmt_arp_op(2), "ARP Reply(0x0002)");
    assert_eq!(fmt_arp_op(3), "RARP Request(0x0003)");
    assert_eq!(fmt_arp_op(4), "RARP Reply(0x0004)");
    assert_eq!(fmt_arp_op(0xabcd), "Unknown(0xabcd)");
}

#[test]
fn number_pattern_counts_up_from_0x10() {
    let pat = num_pattern::<40>();
    for (i, b) in pat.iter().enumerate() {
        assert_eq!(*b as usize, 0x10 + i);
    }
    assert_eq!(pat[0], 0x10);
    assert_eq!(pat[39], 0x37);
}

#[test]
fn number_pattern_wraps_past_0xff() {
    let pat = num_pattern::<300>();
    assert_eq!(pat[0xef], 0xff);
    assert_eq!(pat[0xf0], 0x00);
    assert_eq!(pat[299], ((0x10 + 299) % 256) as u8);
    assert_eq!(num_pattern::<0>().len(), 0);
}
