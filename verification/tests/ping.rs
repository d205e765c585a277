use network_ex::l3::checksum::{_calc_checksum, is_valid_icmp_checksum, is_valid_ip_checksum};
use network_ex::l3::ping::{build_echo_request, check_echo_reply, echo_round, EchoReplyStatus};

const TIMESTAMP: [u8; 16] = [1, 2, 3, 4, 5, 6, 7, 8, 9, 10, 11, 12, 13, 14, 15, 16];

#[test]
fn echo_request_bytes() {
    let packet = build_echo_request(1, 0, 0x1234, [192, 168, 0, 10], [192, 168, 0, 1], TIMESTAMP);
    let expected: Vec<u8> = vec![
        0x45, 0x00, 0x00, 0x54, 0x00, 0x00, 0x40, 0x00, 0x40, 0x01, 0xb9, 0x4d, 0xc0, 0xa8, 0x00,
        0x0a, 0xc0, 0xa8, 0x00, 0x01, 0x08, 0x00, 0xe6, 0xaf, 0x12, 0x34, 0x00, 0x01, 0x01, 0x02,
        0x03, 0x04, 0x05, 0x06, 0x07, 0x08, 0x09, 0x0a, 0x0b, 0x0c, 0x0d, 0x0e, 0x0f, 0x10, 0x10,
        0x11, 0x12, 0x13, 0x14, 0x15, 0x16, 0x17, 0x18, 0x19, 0x1a, 0x1b, 0x1c, 0x1d, 0x1e, 0x1f,
        0x20, 0x21, 0x22, 0x23, 0x24, 0x25, 0x26, 0x27, 0x28, 0x29, 0x2a, 0x2b, 0x2c, 0x2d, 0x2e,
        0x2f, 0x30, 0x31, 0x32, 0x33, 0x34, 0x35, 0x36, 0x37,
    ];
    assert_eq!(packet, expected);
}

#[test]
fn echo_request_icmp_checksum_is_valid() {
    let mut packet = build_echo_request(7, 3, 0xbeef, [10, 0, 0, 1], [10, 0, 0, 2], [0xaa; 16]);
    assert_eq!(packet.len(), 84);
    assert_eq!(_calc_checksum(&packet[20..]), 0);
    assert!(is_valid_icmp_checksum(&mut packet[20..], 64));
}

fn reply() -> Vec<u8> {
    vec![
        0x45, 0x00, 0x00, 0x54, 0xab, 0xcd, 0x00, 0x00, 0x40, 0x01, 0x4d, 0x80, 0xc0, 0xa8, 0x00,
        0x01, 0xc0, 0xa8, 0x00, 0x0a, 0x00, 0x00, 0x00, 0xe4, 0x00, 0x00, 0x00, 0x01, 0x01, 0x02,
        0x03, 0x04, 0x05, 0x06, 0x07, 0x08, 0x09, 0x0a, 0x0b, 0x0c, 0x0d, 0x0e, 0x0f, 0x10, 0x10,
        0x11, 0x12, 0x13, 0x14, 0x15, 0x16, 0x17, 0x18, 0x19, 0x1a, 0x1b, 0x1c, 0x1d, 0x1e, 0x1f,
        0x20, 0x21, 0x22, 0x23, 0x24, 0x25, 0x26, 0x27, 0x28, 0x29, 0x2a, 0x2b, 0x2c, 0x2d, 0x2e,
        0x2f, 0x30, 0x31, 0x32, 0x33, 0x34, 0x35, 0x36, 0x37,
    ]
}

#[test]
fn matching_reply_is_accepted_and_kept() {
    let mut buf = reply();
    let before = buf.clone();
    assert_eq!(check_echo_reply(&mut buf, 1, 0), EchoReplyStatus::Matched);
    assert_eq!(buf, before);
}

#[test]
fn reply_with_other_sequence() {
    let mut buf = reply();
    assert_eq!(check_echo_reply(&mut buf, 2, 0), EchoReplyStatus::SequenceMismatch);
}

#[test]
fn reply_with_other_id() {
    let mut buf = reply();
    assert_eq!(check_echo_reply(&mut buf, 1, 9), EchoReplyStatus::IdMismatch);
}

#[test]
fn reply_with_broken_icmp_payload() {
    let mut buf = reply();
    buf[50] ^= 0x01;
    let before = buf.clone();
    assert_eq!(check_echo_reply(&mut buf, 1, 0), EchoReplyStatus::InvalidIcmpChecksum);
    assert_eq!(buf, before);
}

#[test]
fn reply_with_broken_ip_header() {
    let mut buf = reply();
    buf[8] = 0x3f;
    let before = buf.clone();
    assert_eq!(check_echo_reply(&mut buf, 1, 0), EchoReplyStatus::InvalidIpChecksum);
    assert_eq!(buf, before);
}

#[test]
fn mismatched_reply_may_state_a_longer_total_length() {
    let mut buf = reply();
    buf[2] = 0x01; // total length 0x154, past the buffer
    assert_eq!(check_echo_reply(&mut buf, 5, 0), EchoReplyStatus::SequenceMismatch);
    assert_eq!(check_echo_reply(&mut buf, 1, 5), EchoReplyStatus::IdMismatch);
}

#[test]
fn reply_checks_cover_only_the_stated_total_length() {
    let mut buf = reply();
    buf.extend_from_slice(&[0xde, 0xad, 0xbe, 0xef]);
    assert_eq!(check_echo_reply(&mut buf, 1, 0), EchoReplyStatus::Matched);
}

#[test]
fn echo_request_ip_checksum_is_valid() {
    let mut packet = build_echo_request(1, 0, 0x1234, [192, 168, 0, 10], [192, 168, 0, 1], TIMESTAMP);
    assert_eq!(_calc_checksum(&packet[..20]), 0);
    assert!(is_valid_ip_checksum(&mut packet));
}

#[test]
fn echo_request_passes_the_reply_checks() {
    let mut packet = build_echo_request(9, 8, 0xbeef, [10, 0, 0, 1], [10, 0, 0, 2], [0x5a; 16]);
    assert_eq!(check_echo_reply(&mut packet, 9, 0xbeef), EchoReplyStatus::Matched);
    assert_eq!(check_echo_reply(&mut packet, 9, 8), EchoReplyStatus::IdMismatch);
}

#[test]
fn echo_rounds() {
    assert_eq!(echo_round(1, 1), Some(0));
    assert_eq!(echo_round(2, 1), None);
    assert_eq!(echo_round(3, 5), Some(2));
    assert_eq!(echo_round(65535, 65535), Some(65534));
}
