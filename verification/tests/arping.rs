use network_ex::l2::arping::{build_arp_request, init_arp_hdr, init_eth_hdr, is_arp_reply, split_arp_frame};
use network_ex::l2::if_arp::{ArpHdr, ARPOP_REPLY, ARPOP_REQUEST};
use network_ex::l2::if_ether::ETH_P_ARP;

const MAC: [u8; 6] = [0x00, 0x1a, 0x2b, 0x3c, 0x4d, 0x5e];

#[test]
fn arp_request_frame_bytes() {
    let frame = build_arp_request(MAC, [192, 168, 0, 10], [192, 168, 0, 1]);
    let expected: [u8; 42] = [
        0xff, 0xff, 0xff, 0xff, 0xff, 0xff, 0x00, 0x1a, 0x2b, 0x3c, 0x4d, 0x5e, 0x08, 0x06, 0x00,
        0x01, 0x08, 0x00, 0x06, 0x04, 0x00, 0x01, 0x00, 0x1a, 0x2b, 0x3c, 0x4d, 0x5e, 192, 168, 0,
        10, 0, 0, 0, 0, 0, 0, 192, 168, 0, 1,
    ];
    assert_eq!(frame, expected);
}

#[test]
fn arp_request_frame_splits_back() {
    let frame = build_arp_request(MAC, [10, 0, 0, 1], [10, 0, 0, 2]);
    let (eth, arp) = split_arp_frame(&frame);
    assert_eq!(eth.h_dest, [0xff; 6]);
    assert_eq!(eth.h_source, MAC);
    assert_eq!(eth.h_proto, ETH_P_ARP);
    assert_eq!(arp.arp_op, ARPOP_REQUEST);
    assert_eq!(arp.arp_sha, MAC);
    assert_eq!(arp.arp_sip, [10, 0, 0, 1]);
    assert_eq!(arp.arp_tha, [0; 6]);
    assert_eq!(arp.arp_tip, [10, 0, 0, 2]);
    assert!(!is_arp_reply(&arp));
}

#[test]
fn init_headers_fill_their_buffers() {
    let mut eth = [0x55u8; 14];
    let h = init_eth_hdr(&mut eth, MAC);
    assert_eq!(eth.to_vec(), h.to_bytes().to_vec());
    let mut arp = [0x55u8; 28];
    let a = init_arp_hdr(&mut arp, MAC, [1, 2, 3, 4], [5, 6, 7, 8]);
    assert_eq!(arp, a.to_bytes());
    assert_eq!(ArpHdr::new(&arp), a);
}

#[test]
fn reply_is_recognised() {
    let frame = build_arp_request(MAC, [10, 0, 0, 1], [10, 0, 0, 2]);
    let (_, mut arp) = split_arp_frame(&frame);
    arp.arp_op = ARPOP_REPLY;
    assert!(is_arp_reply(&arp));
    arp.arp_op = 3;
    assert!(!is_arp_reply(&arp));
}
