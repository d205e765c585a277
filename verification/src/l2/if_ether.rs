use vstd::prelude::*;

use crate::util::bytes::{
    be16, bytes6, lemma_bytes6_injective, high_byte, lemma_be16_roundtrip, lemma_u16_bytes_roundtrip, low_byte, u16_bytes,
};
use crate::util::addr::{fmt_mac, mac_text};
use crate::util::text::{fmt_labelled_hex, joined, labelled_hex, views};

verus! {

/// Length of a hardware (MAC) address.
pub const ETH_ALEN: usize = 6;
/// Length of an Ethernet header.
pub const ETH_HLEN: usize = 14;
/// EtherType of IPv4.
pub const ETH_P_IP: u16 = 0x0800;
/// EtherType of ARP.
pub const ETH_P_ARP: u16 = 0x0806;

/// An Ethernet header. `h_proto` holds the EtherType as a number; on the
/// wire it is in network (big-endian) order.
#[derive(Clone, Copy, Debug, PartialEq, Eq)]
pub struct EthHdr {
    pub h_dest: [u8; 6],
    pub h_source: [u8; 6],
    pub h_proto: u16,
}

impl EthHdr {
    /// The 14 bytes of the header on the wire.
    pub open spec fn spec_to_bytes(self) -> Seq<u8> {
        bytes6(self.h_dest) + bytes6(self.h_source) + u16_bytes(self.h_proto)
    }

    /// Reads the header that `buf` holds.
    pub fn new(buf: &[u8; 14]) -> (res: Self)
        ensures
            res.spec_to_bytes() == buf@,
    {
        let res = EthHdr {
            h_dest: [buf[0], buf[1], buf[2], buf[3], buf[4], buf[5]],
            h_source: [buf[6], buf[7], buf[8], buf[9], buf[10], buf[11]],
            h_proto: crate::util::bytes::read_u16_be(buf.as_slice(), 12),
        };
        proof {
            lemma_u16_bytes_roundtrip(buf@[12], buf@[13]);
        }
        assert(res.spec_to_bytes() =~= buf@);
        res
    }

    /// The bytes of the header on the wire.
    pub fn to_bytes(&self) -> (res: [u8; 14])
        ensures
            res@ == self.spec_to_bytes(),
    {
        let d = self.h_dest;
        let s = self.h_source;
        let res = [
            d[0],
            d[1],
            d[2],
            d[3],
            d[4],
            d[5],
            s[0],
            s[1],
            s[2],
            s[3],
            s[4],
            s[5],
            high_byte(self.h_proto),
            low_byte(self.h_proto),
        ];
        assert(res@ =~= self.spec_to_bytes());
        res
    }
}

/// Two headers written as the same bytes are the same header: reading the
/// bytes of a header gives it back.
pub proof fn lemma_eth_hdr_bytes_injective(a: EthHdr, b: EthHdr)
    requires
        a.spec_to_bytes() == b.spec_to_bytes(),
    ensures
        a == b,
{
    let sa = a.spec_to_bytes();
    let sb = b.spec_to_bytes();
    assert(sa.subrange(0, 6) =~= bytes6(a.h_dest));
    assert(sb.subrange(0, 6) =~= bytes6(b.h_dest));
    assert(sa.subrange(6, 12) =~= bytes6(a.h_source));
    assert(sb.subrange(6, 12) =~= bytes6(b.h_source));
    lemma_bytes6_injective(a.h_dest, b.h_dest);
    lemma_bytes6_injective(a.h_source, b.h_source);
    lemma_be16_roundtrip(a.h_proto);
    lemma_be16_roundtrip(b.h_proto);
    assert(a.h_proto == be16(sa[12], sa[13]));
    assert(b.h_proto == be16(sb[12], sb[13]));
    assert(a.h_dest =~= b.h_dest);
    assert(a.h_source =~= b.h_source);
}

/// The name of an EtherType.
pub open spec fn proto_name(proto: u16) -> Seq<char> {
    if proto == 0x0800 {
        "IPv4"@
    } else if proto == 0x0806 {
        "ARP"@
    } else {
        "Unknown"@
    }
}

/// An EtherType as text: its name and its value in hexadecimal, as in
/// `IPv4(0x0800)`.
pub fn fmt_proto(proto: u16) -> (res: String)
    ensures
        res@ == labelled_hex(proto_name(proto), proto),
{
    let name = if proto == 0x0800 {
        "IPv4"
    } else if proto == 0x0806 {
        "ARP"
    } else {
        "Unknown"
    };
    fmt_labelled_hex(name, proto)
}

/// The lines that describe an Ethernet header to a reader.
pub open spec fn eth_hdr_lines(h: EthHdr) -> Seq<Seq<char>> {
    seq![
        "-----------Ethernet Header-------------"@,
        "Destination MAC: "@ + mac_text(h.h_dest),
        "Source MAC: "@ + mac_text(h.h_source),
        "Protocol: "@ + labelled_hex(proto_name(h.h_proto), h.h_proto),
    ]
}

impl EthHdr {
    /// The lines that describe the header: its addresses and its EtherType.
    pub fn lines(&self) -> (res: Vec<String>)
        ensures
            views(res@) == eth_hdr_lines(*self),
    {
        let mut res: Vec<String> = Vec::new();
        res.push(String::from_str("-----------Ethernet Header-------------"));
        res.push(joined("Destination MAC: ", fmt_mac(self.h_dest).as_str()));
        res.push(joined("Source MAC: ", fmt_mac(self.h_source).as_str()));
        res.push(joined("Protocol: ", fmt_proto(self.h_proto).as_str()));
        assert(views(res@) =~= eth_hdr_lines(*self));
        res
    }
}

} // verus!

verus! {

/// The destination address is written first, then the source address, then
/// the EtherType most significant byte first.
pub proof fn lemma_eth_hdr_layout(h: EthHdr)
    ensures
        ({
            let b = h.spec_to_bytes();
            &&& b.len() == 14
            &&& forall|i: int| 0 <= i < 6 ==> b[i] == h.h_dest[i]
            &&& forall|i: int| 0 <= i < 6 ==> b[6 + i] == h.h_source[i]
            &&& b[12] * 256 + b[13] == h.h_proto
        }),
{
    crate::util::bytes::lemma_u16_bytes_value(h.h_proto);
    let b = h.spec_to_bytes();
    assert(b.subrange(12, 14) =~= u16_bytes(h.h_proto));
    assert(forall|i: int| 0 <= i < 6 ==> b[i] == bytes6(h.h_dest)[i]);
    assert(forall|i: int| 0 <= i < 6 ==> b[6 + i] == bytes6(h.h_source)[i]);
}

} // verus!
