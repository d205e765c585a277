use network_ex::l3::checksum::{
    _calc_checksum, calc_checksum, is_valid_icmp_checksum, is_valid_ip_checksum,
};

#[test]
fn test_ip_header_checksum() {
    let header = [
        0x45, 0x00, 0x00, 0x73, 0x00, 0x00, 0x40, 0x00, 0x40, 0x11, 0x00, 0x00, 0xc0, 0xa8,
        0x00, 0x01, 0xc0, 0xa8, 0x00, 0xc7,
    ];
    let checksum = _calc_checksum(&header);
    assert_eq!(
        checksum, 0xB861,
        "IPv4 헤더 체크섬이 예상값과 일치하지 않습니다"
    );

    let complete_header = [
        0x45, 0x00, 0x00, 0x73, 0x00, 0x00, 0x40, 0x00, 0x40, 0x11, 0xB8, 0x61, 0xc0, 0xa8,
        0x00, 0x01, 0xc0, 0xa8, 0x00, 0xc7,
    ];
    let verified_checksum = _calc_checksum(&complete_header);
    assert_eq!(
        verified_checksum, 0x0000,
        "완전한 IPv4 헤더의 체크섬은 0이 되어야 합니다"
    );
}

#[test]
fn test_different_ip_headers() {
    let header1 = [
        0x45, 0x00, 0x00, 0x3c, 0x1c, 0x46, 0x40, 0x00, 0x40, 0x06, 0x00, 0x00, 0xac, 0x10,
        0x0a, 0x63, 0xac, 0x10, 0x0a, 0x0c,
    ];
    let checksum1 = _calc_checksum(&header1);
    assert_eq!(
        checksum1, 0xB1E6,
        "첫 번째 테스트 헤더의 체크섬이 일치하지 않습니다"
    );

    let complete_header1 = [
        0x45, 0x00, 0x00, 0x3c, 0x1c, 0x46, 0x40, 0x00, 0x40, 0x06, 0xB1, 0xE6, 0xac, 0x10,
        0x0a, 0x63, 0xac, 0x10, 0x0a, 0x0c,
    ];
    let verified_checksum1 = _calc_checksum(&complete_header1);
    assert_eq!(
        verified_checksum1, 0x0000,
        "완전한 첫 번째 헤더의 체크섬은 0이 되어야 합니다"
    );

    let header2 = [
        0x45, 0x00, 0x00, 0x3c, 0x1c, 0x46, 0x40, 0x00, 0x20, 0x06, 0x00, 0x00, 0xac, 0x10,
        0x0a, 0x63, 0xac, 0x10, 0x0a, 0x0c,
    ];
    let checksum2 = _calc_checksum(&header2);
    assert_eq!(
        checksum2, 0xD1E6,
        "두 번째 테스트 헤더의 체크섬이 일치하지 않습니다"
    );
}

#[test]
fn checksum_of_empty_input_is_all_ones() {
    assert_eq!(_calc_checksum(&[]), 0xffff);
}

#[test]
fn checksum_pads_an_odd_last_byte() {
    // [0x12, 0x34, 0x56] sums as 0x1234 + 0x5600 = 0x6834.
    assert_eq!(_calc_checksum(&[0x12, 0x34, 0x56]), !0x6834u16);
    assert_eq!(_calc_checksum(&[0x01]), !0x0100u16);
}

#[test]
fn checksum_folds_carries_twice() {
    // 0xffff + 0xffff + 0x0002 = 0x20000: folded to 0x0002, then no carry.
    assert_eq!(_calc_checksum(&[0xff, 0xff, 0xff, 0xff, 0x00, 0x02]), !0x0002u16);
    // 0xffff + 0x0001 = 0x10000: folded to 0x0001.
    assert_eq!(_calc_checksum(&[0xff, 0xff, 0x00, 0x01]), !0x0001u16);
}

#[test]
fn checksum_all_zero_words_is_all_ones() {
    assert_eq!(_calc_checksum(&[0u8; 10]), 0xffff);
    // A sum of 0xffff folds to 0xffff, whose complement is 0.
    assert_eq!(_calc_checksum(&[0xff, 0xff]), 0x0000);
}

#[test]
fn calc_checksum_takes_only_the_first_len_bytes() {
    let data = [0x45, 0x00, 0x00, 0x3c, 0xff, 0xff, 0x12];
    assert_eq!(calc_checksum(&data, 4), _calc_checksum(&data[..4]));
    assert_eq!(calc_checksum(&data, 0), 0xffff);
    assert_eq!(calc_checksum(&data, 7), _calc_checksum(&data));
}

#[test]
fn lowering_the_ttl_raises_the_checksum_by_the_difference() {
    let mut header = [
        0x45, 0x00, 0x00, 0x3c, 0x1c, 0x46, 0x40, 0x00, 0x40, 0x06, 0x00, 0x00, 0xac, 0x10,
        0x0a, 0x63, 0xac, 0x10, 0x0a, 0x0c,
    ];
    let before = _calc_checksum(&header);
    header[8] = 0x3f; // TTL 64 -> 63: the word 0x4006 becomes 0x3f06
    let after = _calc_checksum(&header);
    assert_eq!(after, before + 0x0100);
}

fn ip_packet_with_padding() -> Vec<u8> {
    // A header stating a total length of 0x73 bytes, followed by zero bytes.
    let mut packet = vec![
        0x45, 0x00, 0x00, 0x73, 0x00, 0x00, 0x40, 0x00, 0x40, 0x11, 0xB8, 0x61, 0xc0, 0xa8,
        0x00, 0x01, 0xc0, 0xa8, 0x00, 0xc7,
    ];
    packet.resize(0x73, 0);
    packet
}

#[test]
fn ip_checksum_is_valid_and_buffer_is_kept() {
    let mut packet = ip_packet_with_padding();
    let before = packet.clone();
    assert!(is_valid_ip_checksum(&mut packet));
    assert_eq!(packet, before);
}

#[test]
fn ip_checksum_is_invalid_after_a_change() {
    let mut packet = ip_packet_with_padding();
    packet[8] = 0x3f;
    let before = packet.clone();
    assert!(!is_valid_ip_checksum(&mut packet));
    assert_eq!(packet, before);
    packet[11] = 0x62;
    assert!(!is_valid_ip_checksum(&mut packet));
    packet[10] = 0xB9;
    packet[11] = 0x61;
    assert!(is_valid_ip_checksum(&mut packet));
}

#[test]
fn ip_checksum_covers_the_header_only() {
    // A byte of the payload does not count.
    let mut packet = ip_packet_with_padding();
    packet[30] = 1;
    assert!(is_valid_ip_checksum(&mut packet));
    // Nor does the total length that the header states: a 22-byte packet with
    // a correct 20-byte header is accepted.
    let mut short = ip_packet_with_padding();
    short.truncate(20);
    short.extend_from_slice(&[0x12, 0x34]);
    assert!(is_valid_ip_checksum(&mut short));
    let mut bare = ip_packet_with_padding();
    bare.truncate(20);
    assert!(is_valid_ip_checksum(&mut bare));
    // A byte of the header does.
    bare[19] = 0xc8;
    assert!(!is_valid_ip_checksum(&mut bare));
}

#[test]
fn checksum_does_not_depend_on_byte_order() {
    let d = [
        0x45, 0x00, 0x00, 0x73, 0x00, 0x00, 0x40, 0x00, 0x40, 0x11, 0x00, 0x00, 0xc0, 0xa8,
        0x00, 0x01, 0xc0, 0xa8, 0x00, 0xc7,
    ];
    let mut e = d;
    for i in 0..d.len() / 2 {
        e[2 * i] = d[2 * i + 1];
        e[2 * i + 1] = d[2 * i];
    }
    assert_eq!(_calc_checksum(&e), _calc_checksum(&d).swap_bytes());
    assert_eq!(_calc_checksum(&[0x00, 0xff]), _calc_checksum(&[0xff, 0x00]).swap_bytes());
}

#[test]
fn icmp_checksum_checks_the_given_length() {
    // An echo request header with its checksum over these 8 bytes.
    let mut msg = [0x08, 0x00, 0x00, 0x00, 0x12, 0x34, 0x00, 0x01, 0xaa, 0xbb];
    let c = _calc_checksum(&msg[..8]);
    msg[2] = (c >> 8) as u8;
    msg[3] = c as u8;
    let before = msg;
    assert!(is_valid_icmp_checksum(&mut msg, 8));
    assert_eq!(msg, before);
    assert!(!is_valid_icmp_checksum(&mut msg, 10));
    assert_eq!(msg, before);
}
