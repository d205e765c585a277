use vstd::prelude::*;

use crate::l3::checksum::{
    _calc_checksum, calc_checksum, checksum_matches, internet_checksum, ip_total_len, is_valid_icmp_checksum,
    is_valid_ip_checksum, lemma_valid_checksum_sums_to_zero, set_word,
};
use crate::l3::constant::{
    ICMP_ECHO_REQUEST, ICMP_HDR_MIN_LEN, ICMP_PATTERN_LEN, ICMP_PAYLOAD_LEN, IPPROTO_ICMP, IP_DF,
    IP_HDR_MIN_LEN,
};
use crate::l3::icmp::{num_pattern, pattern_byte, IcmpEcho, IcmpHdr, IcmpHdrExt};
use crate::l3::ip::Ipv4Hdr;
use crate::util::bytes::{
    append_bytes, be32, high_byte, low_byte, read_u32_be, u16_to_usize,
};

verus! {

/// Length of an echo request: an IPv4 header, an ICMP header and the payload.
pub const ECHO_REQUEST_LEN: usize = 84;

/// The payload of an echo request after its timestamp: a counting pattern.
pub open spec fn echo_pattern() -> Seq<u8> {
    Seq::new(40, |i: int| pattern_byte(i))
}

/// The ICMP header of an echo request, before its checksum is filled in.
pub open spec fn echo_request_header(echo_id: u16, sequence: u16) -> IcmpHdr {
    IcmpHdr {
        icmp_type: ICMP_ECHO_REQUEST,
        code: 0,
        checksum: 0,
        ext: IcmpHdrExt { echo: IcmpEcho { id: echo_id, sequence } },
    }
}

/// The ICMP message of an echo request: its header with the checksum filled
/// in, the 16-byte timestamp and the counting pattern.
pub open spec fn echo_request_message(echo_id: u16, sequence: u16, timestamp: Seq<u8>) -> Seq<u8> {
    let unsummed = echo_request_header(echo_id, sequence).spec_to_bytes() + timestamp
        + echo_pattern();
    set_word(unsummed, 1, internet_checksum(unsummed))
}

/// The IPv4 header of an echo request with the given checksum field and
/// addresses.
pub open spec fn echo_request_ip_hdr(id: u16, check: u16, saddr: u32, daddr: u32) -> Ipv4Hdr {
    Ipv4Hdr {
        version_ihl: 0x45,
        tos: 0,
        tot_len: 84,
        id,
        frag_off: IP_DF,
        ttl: 64,
        protocol: IPPROTO_ICMP,
        check,
        saddr,
        daddr,
    }
}

/// The IPv4 header of an echo request from `src_ip` to `dest_ip`, with its
/// checksum filled in: the checksum of the 20 header bytes, taken with the
/// checksum field zero and both addresses in place.
pub open spec fn echo_request_ip_hdr_summed(id: u16, src_ip: [u8; 4], dest_ip: [u8; 4]) -> Ipv4Hdr {
    let saddr = be32(src_ip[0], src_ip[1], src_ip[2], src_ip[3]);
    let daddr = be32(dest_ip[0], dest_ip[1], dest_ip[2], dest_ip[3]);
    let c = internet_checksum(echo_request_ip_hdr(id, 0, saddr, daddr).spec_to_bytes());
    echo_request_ip_hdr(id, c, saddr, daddr)
}

/// A whole echo request: its IPv4 header, then its ICMP message.
pub open spec fn echo_request_packet(
    sequence: u16,
    id: u16,
    echo_id: u16,
    src_ip: [u8; 4],
    dest_ip: [u8; 4],
    timestamp: Seq<u8>,
) -> Seq<u8> {
    echo_request_ip_hdr_summed(id, src_ip, dest_ip).spec_to_bytes() + echo_request_message(
        echo_id,
        sequence,
        timestamp,
    )
}

/// Builds an ICMP echo request from `src_ip` to `dest_ip`: an IPv4 header
/// with identification `id`, then an echo request with identifier `echo_id`
/// and sequence number `sequence` whose payload is `timestamp` followed by
/// the counting pattern.
pub fn build_echo_request(
    sequence: u16,
    id: u16,
    echo_id: u16,
    src_ip: [u8; 4],
    dest_ip: [u8; 4],
    timestamp: [u8; 16],
) -> (packet: Vec<u8>)
    ensures
        packet@ == echo_request_packet(sequence, id, echo_id, src_ip, dest_ip, timestamp@),
        packet@.len() == ECHO_REQUEST_LEN,
{
    // The ICMP message, first with a zero checksum.
    let hdr = IcmpHdr {
        icmp_type: ICMP_ECHO_REQUEST,
        code: 0,
        checksum: 0,
        ext: IcmpHdrExt { echo: IcmpEcho { id: echo_id, sequence } },
    };
    let mut msg: Vec<u8> = Vec::new();
    let hdr_bytes = hdr.to_bytes();
    append_bytes(&mut msg, hdr_bytes.as_slice());
    append_bytes(&mut msg, timestamp.as_slice());
    let pattern = num_pattern::<ICMP_PATTERN_LEN>();
    append_bytes(&mut msg, pattern.as_slice());
    let ghost unsummed = msg@;
    assert(pattern@ =~= echo_pattern());
    assert(unsummed == echo_request_header(echo_id, sequence).spec_to_bytes() + timestamp@
        + echo_pattern());
    let c = calc_checksum(msg.as_slice(), ICMP_HDR_MIN_LEN + ICMP_PAYLOAD_LEN);
    assert(unsummed.take(64) =~= unsummed);
    msg.set(2, high_byte(c));
    msg.set(3, low_byte(c));
    assert(msg@ =~= echo_request_message(echo_id, sequence, timestamp@));

    // The IPv4 header, whose checksum covers its own 20 bytes.
    let src = src_ip;
    let dst = dest_ip;
    let saddr = read_u32_be(src.as_slice(), 0);
    let daddr = read_u32_be(dst.as_slice(), 0);
    let unsummed_ip = Ipv4Hdr {
        version_ihl: 0x45,
        tos: 0,
        tot_len: 84,
        id,
        frag_off: IP_DF,
        ttl: 64,
        protocol: IPPROTO_ICMP,
        check: 0,
        saddr,
        daddr,
    };
    let unsummed_bytes = unsummed_ip.to_bytes();
    let ip_check = _calc_checksum(unsummed_bytes.as_slice());
    let ip = Ipv4Hdr { check: ip_check, ..unsummed_ip };
    assert(ip == echo_request_ip_hdr_summed(id, src_ip, dest_ip));
    let mut packet: Vec<u8> = Vec::new();
    let ip_bytes = ip.to_bytes();
    append_bytes(&mut packet, ip_bytes.as_slice());
    append_bytes(&mut packet, msg.as_slice());
    assert(packet@ =~= echo_request_packet(sequence, id, echo_id, src_ip, dest_ip, timestamp@));
    packet
}

/// The ICMP message of an echo request that this library builds carries a
/// checksum that a receiver accepts, and the whole message sums to zero.
pub proof fn lemma_echo_request_checksum_valid(echo_id: u16, sequence: u16, timestamp: Seq<u8>)
    requires
        timestamp.len() == 16,
    ensures
        checksum_matches(echo_request_message(echo_id, sequence, timestamp), 1, 64),
        internet_checksum(echo_request_message(echo_id, sequence, timestamp)) == 0,
{
    let unsummed = echo_request_header(echo_id, sequence).spec_to_bytes() + timestamp
        + echo_pattern();
    let msg = echo_request_message(echo_id, sequence, timestamp);
    let c = internet_checksum(unsummed);
    crate::util::bytes::lemma_be16_roundtrip(c);
    assert(set_word(msg, 1, 0).take(64) =~= unsummed);
    assert(checksum_matches(msg, 1, 64));
    lemma_valid_checksum_sums_to_zero(msg, 1, 64);
    assert(msg.take(64) =~= msg);
}

} // verus!

verus! {

/// What a received packet is found to be, when waiting for an echo reply.
#[derive(Clone, Copy, Debug, PartialEq, Eq)]
pub enum EchoReplyStatus {
    /// The reply that was waited for, with valid checksums.
    Matched,
    /// Its echo sequence number is not the one waited for.
    SequenceMismatch,
    /// Its echo identifier is not the one waited for.
    IdMismatch,
    /// Its ICMP checksum is wrong.
    InvalidIcmpChecksum,
    /// Its IPv4 checksum is wrong.
    InvalidIpChecksum,
}

/// The length that the IPv4 header at the start of `s` gives its payload.
pub open spec fn ip_payload_len(s: Seq<u8>) -> usize {
    (ip_total_len(s) - 20) as usize
}

/// What `check_echo_reply` finds of the packet `s`.
pub open spec fn echo_reply_status(s: Seq<u8>, sequence: u16, id: u16) -> EchoReplyStatus {
    let tot_len = ip_total_len(s);
    let echo = IcmpHdr::spec_from_bytes(s.skip(20)).ext.echo;
    if echo.sequence != sequence {
        EchoReplyStatus::SequenceMismatch
    } else if echo.id != id {
        EchoReplyStatus::IdMismatch
    } else if !checksum_matches(s.skip(20), 1, ip_payload_len(s)) {
        EchoReplyStatus::InvalidIcmpChecksum
    } else if !checksum_matches(s, 5, 20) {
        EchoReplyStatus::InvalidIpChecksum
    } else {
        EchoReplyStatus::Matched
    }
}

/// Checks a received IPv4 packet against the echo reply that is waited for:
/// its echo sequence number, then its echo identifier, then the ICMP checksum
/// over the total length less the IPv4 header, then the IPv4 checksum over
/// the 20 header bytes. The checksums are only taken once the sequence number
/// and identifier match, and they must then lie within `buf`. `buf` is left
/// as it was.
pub fn check_echo_reply(buf: &mut [u8], sequence: u16, id: u16) -> (res: EchoReplyStatus)
    requires
        old(buf)@.len() >= IP_HDR_MIN_LEN + ICMP_HDR_MIN_LEN,
        IP_HDR_MIN_LEN <= ip_total_len(old(buf)@),
        ({
            let echo = IcmpHdr::spec_from_bytes(old(buf)@.skip(20)).ext.echo;
            echo.sequence == sequence && echo.id == id ==> ip_total_len(old(buf)@) <= old(
                buf,
            )@.len()
        }),
    ensures
        final(buf)@ == old(buf)@,
        res == echo_reply_status(old(buf)@, sequence, id),
{
    let ghost orig = buf@;
    let ip_hdr = Ipv4Hdr::new(buf);
    let tot_len = u16_to_usize(ip_hdr.tot_len);
    let icmp_len = tot_len - IP_HDR_MIN_LEN;
    let (ip_part, icmp_part) = buf.split_at_mut(IP_HDR_MIN_LEN);
    let icmp_hdr = IcmpHdr::new(icmp_part);
    assert(icmp_part@ =~= orig.skip(20));
    if icmp_hdr.ext.echo.sequence != sequence {
        return EchoReplyStatus::SequenceMismatch;
    }
    if icmp_hdr.ext.echo.id != id {
        return EchoReplyStatus::IdMismatch;
    }
    if !is_valid_icmp_checksum(icmp_part, icmp_len) {
        assert(buf@ =~= orig);
        return EchoReplyStatus::InvalidIcmpChecksum;
    }
    assert(buf@ =~= orig);
    if !is_valid_ip_checksum(buf) {
        return EchoReplyStatus::InvalidIpChecksum;
    }
    EchoReplyStatus::Matched
}

} // verus!

verus! {

/// The IPv4 header of an echo request that this library builds carries a
/// checksum that a receiver accepts, and its 20 bytes sum to zero.
pub proof fn lemma_echo_request_ip_checksum_valid(
    sequence: u16,
    id: u16,
    echo_id: u16,
    src_ip: [u8; 4],
    dest_ip: [u8; 4],
    timestamp: Seq<u8>,
)
    ensures
        checksum_matches(
            echo_request_packet(sequence, id, echo_id, src_ip, dest_ip, timestamp),
            5,
            20,
        ),
        internet_checksum(
            echo_request_packet(sequence, id, echo_id, src_ip, dest_ip, timestamp).take(20),
        ) == 0,
{
    let p = echo_request_packet(sequence, id, echo_id, src_ip, dest_ip, timestamp);
    let h = echo_request_ip_hdr_summed(id, src_ip, dest_ip);
    let unsummed = Ipv4Hdr { check: 0, ..h };
    crate::util::bytes::lemma_be16_roundtrip(h.check);
    assert(set_word(p, 5, 0).take(20) =~= unsummed.spec_to_bytes());
    assert(checksum_matches(p, 5, 20));
    lemma_valid_checksum_sums_to_zero(p, 5, 20);
}

/// An echo request that this library builds passes every check that
/// `check_echo_reply` makes when it waits for the same sequence number and
/// echo identifier: both of its checksums are accepted.
#[verifier::rlimit(50)]
pub proof fn lemma_echo_request_passes_reply_checks(
    sequence: u16,
    id: u16,
    echo_id: u16,
    src_ip: [u8; 4],
    dest_ip: [u8; 4],
    timestamp: Seq<u8>,
)
    requires
        timestamp.len() == 16,
    ensures
        ({
            let p = echo_request_packet(sequence, id, echo_id, src_ip, dest_ip, timestamp);
            &&& p.len() == ECHO_REQUEST_LEN
            &&& ip_total_len(p) == ECHO_REQUEST_LEN
            &&& echo_reply_status(p, sequence, echo_id) == EchoReplyStatus::Matched
        }),
{
    let p = echo_request_packet(sequence, id, echo_id, src_ip, dest_ip, timestamp);
    let h = echo_request_ip_hdr_summed(id, src_ip, dest_ip);
    let msg = echo_request_message(echo_id, sequence, timestamp);
    crate::util::bytes::lemma_be16_roundtrip(84);
    assert(ip_total_len(p) == 84);
    assert(p.skip(20) =~= msg);
    lemma_echo_request_checksum_valid(echo_id, sequence, timestamp);
    lemma_echo_request_ip_checksum_valid(sequence, id, echo_id, src_ip, dest_ip, timestamp);
    let unsummed = echo_request_header(echo_id, sequence).spec_to_bytes() + timestamp
        + echo_pattern();
    let c = internet_checksum(unsummed);
    assert(msg.take(8) =~= IcmpHdr { checksum: c, ..echo_request_header(echo_id, sequence) }.spec_to_bytes());
    crate::l3::icmp::lemma_icmp_hdr_roundtrip(
        IcmpHdr { checksum: c, ..echo_request_header(echo_id, sequence) },
    );
    assert(IcmpHdr::spec_from_bytes(msg) == IcmpHdr::spec_from_bytes(msg.take(8)));
    assert(ip_payload_len(p) == 64);
}

} // verus!

verus! {

/// The rounds of a ping run with sequence numbers 1 to `max_sequence`; for
/// round `sequence` this gives the identification of its IPv4 header (one
/// less than the sequence number), or `None` once the rounds are done.
pub fn echo_round(sequence: u16, max_sequence: u16) -> (res: Option<u16>)
    requires
        sequence >= 1,
    ensures
        res == if sequence <= max_sequence {
            Some((sequence - 1) as u16)
        } else {
            None::<u16>
        },
{
    if sequence <= max_sequence {
        Some(sequence - 1)
    } else {
        None
    }
}

} // verus!

verus! {

/// What `check_echo_reply` finds, read off the packet's bytes: a packet
/// whose echo sequence number (bytes 26 and 27) is not the awaited one is a
/// sequence mismatch; one with the awaited sequence number but another echo
/// identifier (bytes 24 and 25) is an identifier mismatch; a packet is only
/// ever matched when both are the awaited ones and its IPv4 header and its
/// ICMP message (up to the stated total length) each sum to zero; and a
/// packet with the awaited numbers whose two checksum words hold the right
/// checksums is matched.
pub proof fn lemma_echo_reply_status_meaning(s: Seq<u8>, sequence: u16, id: u16)
    requires
        s.len() >= 28,
        20 <= ip_total_len(s) <= s.len(),
    ensures
        ({
            let st = echo_reply_status(s, sequence, id);
            let tot = s[2] * 256 + s[3];
            &&& ip_total_len(s) == tot
            &&& s[26] * 256 + s[27] != sequence ==> st == EchoReplyStatus::SequenceMismatch
            &&& s[26] * 256 + s[27] == sequence && s[24] * 256 + s[25] != id ==> st
                == EchoReplyStatus::IdMismatch
            &&& st == EchoReplyStatus::Matched ==> {
                &&& s[26] * 256 + s[27] == sequence
                &&& s[24] * 256 + s[25] == id
                &&& internet_checksum(s.take(20)) == 0
                &&& tot >= 24 ==> internet_checksum(s.subrange(20, tot)) == 0
            }
            &&& (s[26] * 256 + s[27] == sequence && s[24] * 256 + s[25] == id && checksum_matches(
                s,
                5,
                20,
            ) && checksum_matches(s.skip(20), 1, ip_payload_len(s))) ==> st
                == EchoReplyStatus::Matched
        }),
{
    let t = s.skip(20);
    crate::l3::icmp::lemma_icmp_hdr_fields(t);
    crate::util::bytes::lemma_be16_value(s[2], s[3]);
    let tot = s[2] * 256 + s[3];
    assert(ip_total_len(s) == tot);
    let st = echo_reply_status(s, sequence, id);
    if st == EchoReplyStatus::Matched {
        lemma_valid_checksum_sums_to_zero(s, 5, 20);
        if tot >= 24 {
            lemma_valid_checksum_sums_to_zero(t, 1, ip_payload_len(s));
            assert(t.take(tot - 20) =~= s.subrange(20, tot));
        }
    }
}

} // verus!

verus! {

/// The bytes of an echo request that this library builds, field by field:
/// an IPv4 header (version 4, 20 bytes, total length 84, the given
/// identification, don't-fragment, TTL 64, protocol ICMP, the given source
/// and destination addresses) that sums to zero, then an ICMP echo request
/// (type 8, code 0, the given echo identifier and sequence number, the
/// timestamp, the pattern counting up from 0x10) that sums to zero.
#[verifier::rlimit(50)]
pub proof fn lemma_echo_request_layout(
    sequence: u16,
    id: u16,
    echo_id: u16,
    src_ip: [u8; 4],
    dest_ip: [u8; 4],
    timestamp: Seq<u8>,
)
    requires
        timestamp.len() == 16,
    ensures
        ({
            let p = echo_request_packet(sequence, id, echo_id, src_ip, dest_ip, timestamp);
            &&& p.len() == 84
            &&& p[0] == 0x45
            &&& p[1] == 0
            &&& p[2] * 256 + p[3] == 84
            &&& p[4] * 256 + p[5] == id
            &&& p[6] == 0x40 && p[7] == 0
            &&& p[8] == 64
            &&& p[9] == 1
            &&& forall|i: int| 0 <= i < 4 ==> p[12 + i] == src_ip[i]
            &&& forall|i: int| 0 <= i < 4 ==> p[16 + i] == dest_ip[i]
            &&& internet_checksum(p.take(20)) == 0
            &&& p[20] == 8
            &&& p[21] == 0
            &&& p[24] * 256 + p[25] == echo_id
            &&& p[26] * 256 + p[27] == sequence
            &&& forall|i: int| 0 <= i < 16 ==> p[28 + i] == timestamp[i]
            &&& forall|i: int| 0 <= i < 40 ==> #[trigger] p[44 + i] == 0x10 + i
            &&& internet_checksum(p.skip(20)) == 0
        }),
{
    let p = echo_request_packet(sequence, id, echo_id, src_ip, dest_ip, timestamp);
    let h = echo_request_ip_hdr_summed(id, src_ip, dest_ip);
    let msg = echo_request_message(echo_id, sequence, timestamp);
    let hb = h.spec_to_bytes();
    assert(p.take(20) =~= hb);
    assert(p.skip(20) =~= msg);
    crate::l3::ip::lemma_ipv4_hdr_layout(h);
    crate::util::bytes::lemma_u32_bytes_roundtrip(src_ip[0], src_ip[1], src_ip[2], src_ip[3]);
    crate::util::bytes::lemma_u32_bytes_roundtrip(dest_ip[0], dest_ip[1], dest_ip[2], dest_ip[3]);
    assert(hb.subrange(12, 16) =~= crate::util::bytes::u32_bytes(h.saddr));
    assert(hb.subrange(16, 20) =~= crate::util::bytes::u32_bytes(h.daddr));
    assert(forall|i: int| 0 <= i < 4 ==> p[12 + i] == hb.subrange(12, 16)[i]);
    assert(forall|i: int| 0 <= i < 4 ==> p[16 + i] == hb.subrange(16, 20)[i]);
    lemma_echo_request_ip_checksum_valid(sequence, id, echo_id, src_ip, dest_ip, timestamp);
    lemma_echo_request_checksum_valid(echo_id, sequence, timestamp);
    let head = echo_request_header(echo_id, sequence).spec_to_bytes();
    let unsummed = head + timestamp + echo_pattern();
    crate::util::bytes::lemma_u16_bytes_value(echo_id);
    crate::util::bytes::lemma_u16_bytes_value(sequence);
    assert(head.subrange(4, 6) =~= crate::util::bytes::u16_bytes(echo_id));
    assert(head.subrange(6, 8) =~= crate::util::bytes::u16_bytes(sequence));
    assert(msg[4] == unsummed[4] && msg[5] == unsummed[5] && msg[6] == unsummed[6] && msg[7]
        == unsummed[7]);
    assert(forall|i: int| 0 <= i < 16 ==> #[trigger] msg[8 + i] == unsummed[8 + i]);
    assert(forall|i: int| 0 <= i < 40 ==> #[trigger] msg[24 + i] == unsummed[24 + i]);
    assert(forall|i: int| 0 <= i < 40 ==> #[trigger] echo_pattern()[i] == 0x10 + i);
}

} // verus!
