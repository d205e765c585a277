use vstd::prelude::*;

use crate::l2::if_arp::{ArpHdr, ARPHRD_ETHER, ARPOP_REPLY, ARPOP_REQUEST};
use crate::l2::if_ether::{EthHdr, ETH_P_ARP, ETH_P_IP};

verus! {

/// Length of an ARP frame: an Ethernet header and an ARP header.
pub const ARP_FRAME_LEN: usize = 42;

/// The Ethernet header of an ARP request: broadcast to every host, from
/// `src_mac`, carrying ARP.
pub open spec fn arp_request_eth_hdr(src_mac: [u8; 6]) -> EthHdr {
    EthHdr { h_dest: [0xffu8, 0xff, 0xff, 0xff, 0xff, 0xff], h_source: src_mac, h_proto: ETH_P_ARP }
}

/// The ARP header of a request from `src_mac` at `src_ip` asking who has
/// `dest_ip`.
pub open spec fn arp_request_hdr(src_mac: [u8; 6], src_ip: [u8; 4], dest_ip: [u8; 4]) -> ArpHdr {
    ArpHdr {
        arp_hrd: ARPHRD_ETHER,
        arp_pro: ETH_P_IP,
        arp_hln: 6,
        arp_pln: 4,
        arp_op: ARPOP_REQUEST,
        arp_sha: src_mac,
        arp_sip: src_ip,
        arp_tha: [0u8, 0, 0, 0, 0, 0],
        arp_tip: dest_ip,
    }
}

/// Copies `src` over the start of `dst`.
fn copy_into(dst: &mut [u8], src: &[u8])
    requires
        src@.len() <= old(dst)@.len(),
    ensures
        final(dst)@ == src@ + old(dst)@.skip(src@.len() as int),
{
    let mut i: usize = 0;
    while i < src.len()
        invariant
            src@.len() <= dst@.len(),
            dst@.len() == old(dst)@.len(),
            i <= src@.len(),
            dst@ == src@.take(i as int) + old(dst)@.skip(i as int),
        decreases src@.len() - i,
    {
        dst[i] = src[i];
        i += 1;
        assert(dst@ =~= src@.take(i as int) + old(dst)@.skip(i as int));
    }
    assert(src@.take(i as int) =~= src@);
}

/// Fills `eth_hdr` with the Ethernet header of an ARP request from
/// `src_mac`, and returns that header.
pub fn init_eth_hdr(eth_hdr: &mut [u8], src_mac: [u8; 6]) -> (res: EthHdr)
    requires
        old(eth_hdr)@.len() == 14,
    ensures
        res == arp_request_eth_hdr(src_mac),
        final(eth_hdr)@ == res.spec_to_bytes(),
{
    let hdr = EthHdr { h_dest: [0xff, 0xff, 0xff, 0xff, 0xff, 0xff], h_source: src_mac, h_proto: ETH_P_ARP };
    let bytes = hdr.to_bytes();
    copy_into(eth_hdr, bytes.as_slice());
    assert(eth_hdr@ =~= hdr.spec_to_bytes());
    hdr
}

/// Fills `arp_hdr` with an ARP request from `src_mac` at `src_ip` asking
/// who has `dest_ip`, and returns that header.
pub fn init_arp_hdr(arp_hdr: &mut [u8], src_mac: [u8; 6], src_ip: [u8; 4], dest_ip: [u8; 4]) -> (res:
    ArpHdr)
    requires
        old(arp_hdr)@.len() == 28,
    ensures
        res == arp_request_hdr(src_mac, src_ip, dest_ip),
        final(arp_hdr)@ == res.spec_to_bytes(),
{
    let hdr = ArpHdr {
        arp_hrd: ARPHRD_ETHER,
        arp_pro: ETH_P_IP,
        arp_hln: 6,
        arp_pln: 4,
        arp_op: ARPOP_REQUEST,
        arp_sha: src_mac,
        arp_sip: src_ip,
        arp_tha: [0x00, 0x00, 0x00, 0x00, 0x00, 0x00],
        arp_tip: dest_ip,
    };
    let bytes = hdr.to_bytes();
    copy_into(arp_hdr, bytes.as_slice());
    assert(arp_hdr@ =~= hdr.spec_to_bytes());
    hdr
}

/// The frame of an ARP request from `src_mac` at `src_ip` asking who has
/// `dest_ip`: its Ethernet header, then its ARP header.
pub fn build_arp_request(src_mac: [u8; 6], src_ip: [u8; 4], dest_ip: [u8; 4]) -> (frame: [u8; 42])
    ensures
        frame@ == arp_request_eth_hdr(src_mac).spec_to_bytes() + arp_request_hdr(
            src_mac,
            src_ip,
            dest_ip,
        ).spec_to_bytes(),
{
    let mut buf = [0u8; 42];
    let (eth_part, arp_part) = buf.split_at_mut(14);
    init_eth_hdr(eth_part, src_mac);
    init_arp_hdr(arp_part, src_mac, src_ip, dest_ip);
    buf
}

/// Splits an ARP frame into its Ethernet header and its ARP header.
pub fn split_arp_frame(frame: &[u8; 42]) -> (res: (EthHdr, ArpHdr))
    ensures
        res.0.spec_to_bytes() == frame@.subrange(0, 14),
        res.1.spec_to_bytes() == frame@.subrange(14, 42),
        res.0.h_proto == frame@[12] * 256 + frame@[13],
        res.1.arp_op == frame@[20] * 256 + frame@[21],
{
    let f = frame;
    let eth_bytes = [f[0], f[1], f[2], f[3], f[4], f[5], f[6], f[7], f[8], f[9], f[10], f[11], f[12], f[13]];
    let arp_bytes = [
        f[14],
        f[15],
        f[16],
        f[17],
        f[18],
        f[19],
        f[20],
        f[21],
        f[22],
        f[23],
        f[24],
        f[25],
        f[26],
        f[27],
        f[28],
        f[29],
        f[30],
        f[31],
        f[32],
        f[33],
        f[34],
        f[35],
        f[36],
        f[37],
        f[38],
        f[39],
        f[40],
        f[41],
    ];
    assert(eth_bytes@ =~= frame@.subrange(0, 14));
    assert(arp_bytes@ =~= frame@.subrange(14, 42));
    let eth = EthHdr::new(&eth_bytes);
    let arp = ArpHdr::new(&arp_bytes);
    proof {
        crate::l2::if_ether::lemma_eth_hdr_layout(eth);
        crate::l2::if_arp::lemma_arp_hdr_layout(arp);
    }
    (eth, arp)
}

/// Whether an ARP header is that of a reply.
pub fn is_arp_reply(arp_hdr: &ArpHdr) -> (res: bool)
    ensures
        res == (arp_hdr.arp_op == ARPOP_REPLY),
{
    arp_hdr.arp_op == ARPOP_REPLY
}

} // verus!

verus! {

/// Splitting the frame of an ARP request gives back the headers it was built
/// from, and the ARP header is not taken for a reply.
pub proof fn lemma_arp_request_frame_splits_back(
    src_mac: [u8; 6],
    src_ip: [u8; 4],
    dest_ip: [u8; 4],
    eth: EthHdr,
    arp: ArpHdr,
)
    requires
        ({
            let frame = arp_request_eth_hdr(src_mac).spec_to_bytes() + arp_request_hdr(
                src_mac,
                src_ip,
                dest_ip,
            ).spec_to_bytes();
            &&& eth.spec_to_bytes() == frame.subrange(0, 14)
            &&& arp.spec_to_bytes() == frame.subrange(14, 42)
        }),
    ensures
        eth == arp_request_eth_hdr(src_mac),
        arp == arp_request_hdr(src_mac, src_ip, dest_ip),
        arp.arp_op != ARPOP_REPLY,
{
    let e = arp_request_eth_hdr(src_mac);
    let a = arp_request_hdr(src_mac, src_ip, dest_ip);
    let frame = e.spec_to_bytes() + a.spec_to_bytes();
    assert(frame.subrange(0, 14) =~= e.spec_to_bytes());
    assert(frame.subrange(14, 42) =~= a.spec_to_bytes());
    crate::l2::if_ether::lemma_eth_hdr_bytes_injective(eth, e);
    crate::l2::if_arp::lemma_arp_hdr_bytes_injective(arp, a);
}

} // verus!

verus! {

/// The bytes of an ARP request frame that this library builds: broadcast
/// destination, the sender's hardware address, EtherType ARP; then hardware
/// type Ethernet, protocol IPv4, address lengths 6 and 4, operation request
/// (1), the sender's hardware and IPv4 addresses, a zero target hardware
/// address and the target IPv4 address.
pub proof fn lemma_arp_request_frame_layout(src_mac: [u8; 6], src_ip: [u8; 4], dest_ip: [u8; 4])
    ensures
        ({
            let f = arp_request_eth_hdr(src_mac).spec_to_bytes() + arp_request_hdr(
                src_mac,
                src_ip,
                dest_ip,
            ).spec_to_bytes();
            &&& f.len() == 42
            &&& forall|i: int| 0 <= i < 6 ==> #[trigger] f[i] == 0xff
            &&& forall|i: int| 0 <= i < 6 ==> #[trigger] f[6 + i] == src_mac[i]
            &&& f[12] == 0x08 && f[13] == 0x06
            &&& f[14] == 0x00 && f[15] == 0x01
            &&& f[16] == 0x08 && f[17] == 0x00
            &&& f[18] == 6 && f[19] == 4
            &&& f[20] == 0x00 && f[21] == 0x01
            &&& forall|i: int| 0 <= i < 6 ==> #[trigger] f[22 + i] == src_mac[i]
            &&& forall|i: int| 0 <= i < 4 ==> #[trigger] f[28 + i] == src_ip[i]
            &&& forall|i: int| 0 <= i < 6 ==> #[trigger] f[32 + i] == 0
            &&& forall|i: int| 0 <= i < 4 ==> #[trigger] f[38 + i] == dest_ip[i]
        }),
{
    let e = arp_request_eth_hdr(src_mac);
    let a = arp_request_hdr(src_mac, src_ip, dest_ip);
    let eb = e.spec_to_bytes();
    let ab = a.spec_to_bytes();
    crate::l2::if_ether::lemma_eth_hdr_layout(e);
    crate::l2::if_arp::lemma_arp_hdr_layout(a);
    let f = eb + ab;
    assert(forall|i: int| 0 <= i < 14 ==> #[trigger] f[i] == eb[i]);
    assert(forall|i: int| 0 <= i < 28 ==> #[trigger] f[14 + i] == ab[i]);
    assert(e.h_dest[0] == 0xff && e.h_dest[1] == 0xff && e.h_dest[2] == 0xff && e.h_dest[3]
        == 0xff && e.h_dest[4] == 0xff && e.h_dest[5] == 0xff);
    assert(forall|i: int| 0 <= i < 6 ==> #[trigger] a.arp_tha[i] == 0) by {
        assert(a.arp_tha[0] == 0 && a.arp_tha[1] == 0 && a.arp_tha[2] == 0 && a.arp_tha[3] == 0
            && a.arp_tha[4] == 0 && a.arp_tha[5] == 0);
    }
    assert(eb[12] * 256 + eb[13] == 0x0806);
    assert(eb[12] == 0x08 && eb[13] == 0x06);
    assert(ab[0] == 0 && ab[1] == 1);
    assert(ab[2] == 0x08 && ab[3] == 0x00);
    assert(ab[6] == 0 && ab[7] == 1);
}

} // verus!
