use vstd::prelude::*;

use crate::util::bytes::{
    be16, bytes4, bytes6, high_byte, lemma_be16_roundtrip, lemma_bytes4_injective,
    lemma_bytes6_injective, lemma_u16_bytes_roundtrip, low_byte, read_u16_be, u16_bytes,
};
use crate::util::addr::{fmt_ip, fmt_mac, ip_text, mac_text};
use crate::util::text::{dec_u8, fmt_labelled_hex, joined, labelled_hex, push_dec_u8, views};

verus! {

/// Hardware type of Ethernet.
pub const ARPHRD_ETHER: u16 = 1;
/// ARP operation: request.
pub const ARPOP_REQUEST: u16 = 1;
/// ARP operation: reply.
pub const ARPOP_REPLY: u16 = 2;

/// An ARP header for Ethernet and IPv4. The 16-bit fields hold their values
/// as numbers; on the wire they are in network (big-endian) order.
#[derive(Clone, Copy, Debug, PartialEq, Eq)]
pub struct ArpHdr {
    /// Hardware type.
    pub arp_hrd: u16,
    /// Protocol type.
    pub arp_pro: u16,
    pub arp_hln: u8,
    pub arp_pln: u8,
    pub arp_op: u16,
    pub arp_sha: [u8; 6],
    pub arp_sip: [u8; 4],
    pub arp_tha: [u8; 6],
    pub arp_tip: [u8; 4],
}

impl ArpHdr {
    /// The 28 bytes of the header on the wire.
    pub open spec fn spec_to_bytes(self) -> Seq<u8> {
        u16_bytes(self.arp_hrd) + u16_bytes(self.arp_pro) + seq![self.arp_hln, self.arp_pln]
            + u16_bytes(self.arp_op) + bytes6(self.arp_sha) + bytes4(self.arp_sip) + bytes6(
            self.arp_tha,
        ) + bytes4(self.arp_tip)
    }

    /// Reads the header that `buf` holds.
    pub fn new(buf: &[u8; 28]) -> (res: Self)
        ensures
            res.spec_to_bytes() == buf@,
    {
        let b = buf.as_slice();
        let res = ArpHdr {
            arp_hrd: read_u16_be(b, 0),
            arp_pro: read_u16_be(b, 2),
            arp_hln: buf[4],
            arp_pln: buf[5],
            arp_op: read_u16_be(b, 6),
            arp_sha: [buf[8], buf[9], buf[10], buf[11], buf[12], buf[13]],
            arp_sip: [buf[14], buf[15], buf[16], buf[17]],
            arp_tha: [buf[18], buf[19], buf[20], buf[21], buf[22], buf[23]],
            arp_tip: [buf[24], buf[25], buf[26], buf[27]],
        };
        proof {
            lemma_u16_bytes_roundtrip(buf@[0], buf@[1]);
            lemma_u16_bytes_roundtrip(buf@[2], buf@[3]);
            lemma_u16_bytes_roundtrip(buf@[6], buf@[7]);
        }
        assert(res.spec_to_bytes() =~= buf@);
        res
    }

    /// The bytes of the header on the wire.
    pub fn to_bytes(&self) -> (res: [u8; 28])
        ensures
            res@ == self.spec_to_bytes(),
    {
        let sha = self.arp_sha;
        let sip = self.arp_sip;
        let tha = self.arp_tha;
        let tip = self.arp_tip;
        let res = [
            high_byte(self.arp_hrd),
            low_byte(self.arp_hrd),
            high_byte(self.arp_pro),
            low_byte(self.arp_pro),
            self.arp_hln,
            self.arp_pln,
            high_byte(self.arp_op),
            low_byte(self.arp_op),
            sha[0],
            sha[1],
            sha[2],
            sha[3],
            sha[4],
            sha[5],
            sip[0],
            sip[1],
            sip[2],
            sip[3],
            tha[0],
            tha[1],
            tha[2],
            tha[3],
            tha[4],
            tha[5],
            tip[0],
            tip[1],
            tip[2],
            tip[3],
        ];
        assert(res@ =~= self.spec_to_bytes());
        res
    }
}

/// Two headers written as the same bytes are the same header: reading the
/// bytes of a header gives it back.
pub proof fn lemma_arp_hdr_bytes_injective(a: ArpHdr, b: ArpHdr)
    requires
        a.spec_to_bytes() == b.spec_to_bytes(),
    ensures
        a == b,
{
    let sa = a.spec_to_bytes();
    let sb = b.spec_to_bytes();
    assert(sa.subrange(8, 14) =~= bytes6(a.arp_sha));
    assert(sb.subrange(8, 14) =~= bytes6(b.arp_sha));
    assert(sa.subrange(14, 18) =~= bytes4(a.arp_sip));
    assert(sb.subrange(14, 18) =~= bytes4(b.arp_sip));
    assert(sa.subrange(18, 24) =~= bytes6(a.arp_tha));
    assert(sb.subrange(18, 24) =~= bytes6(b.arp_tha));
    assert(sa.subrange(24, 28) =~= bytes4(a.arp_tip));
    assert(sb.subrange(24, 28) =~= bytes4(b.arp_tip));
    lemma_bytes6_injective(a.arp_sha, b.arp_sha);
    lemma_bytes4_injective(a.arp_sip, b.arp_sip);
    lemma_bytes6_injective(a.arp_tha, b.arp_tha);
    lemma_bytes4_injective(a.arp_tip, b.arp_tip);
    lemma_be16_roundtrip(a.arp_hrd);
    lemma_be16_roundtrip(b.arp_hrd);
    lemma_be16_roundtrip(a.arp_pro);
    lemma_be16_roundtrip(b.arp_pro);
    lemma_be16_roundtrip(a.arp_op);
    lemma_be16_roundtrip(b.arp_op);
    assert(a.arp_hrd == be16(sa[0], sa[1]) && b.arp_hrd == be16(sb[0], sb[1]));
    assert(a.arp_pro == be16(sa[2], sa[3]) && b.arp_pro == be16(sb[2], sb[3]));
    assert(a.arp_op == be16(sa[6], sa[7]) && b.arp_op == be16(sb[6], sb[7]));
    assert(a.arp_hln == sa[4] && b.arp_hln == sb[4]);
    assert(a.arp_pln == sa[5] && b.arp_pln == sb[5]);
}

/// The name of an ARP hardware type.
pub open spec fn arp_hrd_name(hrd: u16) -> Seq<char> {
    if hrd == 1 {
        "Ethernet"@
    } else {
        "Unknown"@
    }
}

/// The name of a protocol type in an ARP header.
pub open spec fn arp_pro_name(pro: u16) -> Seq<char> {
    if pro == 0x0800 {
        "IPv4"@
    } else if pro == 0x0806 {
        "ARP"@
    } else {
        "Unknown"@
    }
}

/// The name of an ARP operation.
pub open spec fn arp_op_name(op: u16) -> Seq<char> {
    if op == 1 {
        "ARP Request"@
    } else if op == 2 {
        "ARP Reply"@
    } else if op == 3 {
        "RARP Request"@
    } else if op == 4 {
        "RARP Reply"@
    } else {
        "Unknown"@
    }
}

/// A hardware type as text, as in `Ethernet(0x0001)`.
pub fn fmt_arp_hrd(hrd: u16) -> (res: String)
    ensures
        res@ == labelled_hex(arp_hrd_name(hrd), hrd),
{
    let name = if hrd == 1 {
        "Ethernet"
    } else {
        "Unknown"
    };
    fmt_labelled_hex(name, hrd)
}

/// A protocol type as text, as in `IPv4(0x0800)`.
pub fn fmt_arp_pro(pro: u16) -> (res: String)
    ensures
        res@ == labelled_hex(arp_pro_name(pro), pro),
{
    let name = if pro == 0x0800 {
        "IPv4"
    } else if pro == 0x0806 {
        "ARP"
    } else {
        "Unknown"
    };
    fmt_labelled_hex(name, pro)
}

/// An ARP operation as text, as in `ARP Reply(0x0002)`.
pub fn fmt_arp_op(op: u16) -> (res: String)
    ensures
        res@ == labelled_hex(arp_op_name(op), op),
{
    let name = if op == 1 {
        "ARP Request"
    } else if op == 2 {
        "ARP Reply"
    } else if op == 3 {
        "RARP Request"
    } else if op == 4 {
        "RARP Reply"
    } else {
        "Unknown"
    };
    fmt_labelled_hex(name, op)
}

/// The lines that describe an ARP header to a reader.
pub open spec fn arp_hdr_lines(h: ArpHdr) -> Seq<Seq<char>> {
    seq![
        "-----------ARP Header:-------------"@,
        "Hardware type: "@ + labelled_hex(arp_hrd_name(h.arp_hrd), h.arp_hrd),
        "Protocol type: "@ + labelled_hex(arp_pro_name(h.arp_pro), h.arp_pro),
        "Hardware length: "@ + dec_u8(h.arp_hln),
        "Protocol length: "@ + dec_u8(h.arp_pln),
        "Operation: "@ + labelled_hex(arp_op_name(h.arp_op), h.arp_op),
        "Sender MAC: "@ + mac_text(h.arp_sha),
        "Sender IP: "@ + ip_text(h.arp_sip),
        "Target MAC: "@ + mac_text(h.arp_tha),
        "Target IP: "@ + ip_text(h.arp_tip),
    ]
}

impl ArpHdr {
    /// The lines that describe the header, field by field.
    pub fn lines(&self) -> (res: Vec<String>)
        ensures
            views(res@) == arp_hdr_lines(*self),
    {
        let mut res: Vec<String> = Vec::new();
        res.push(String::from_str("-----------ARP Header:-------------"));
        res.push(joined("Hardware type: ", fmt_arp_hrd(self.arp_hrd).as_str()));
        res.push(joined("Protocol type: ", fmt_arp_pro(self.arp_pro).as_str()));
        let mut hln = String::from_str("Hardware length: ");
        push_dec_u8(&mut hln, self.arp_hln);
        res.push(hln);
        let mut pln = String::from_str("Protocol length: ");
        push_dec_u8(&mut pln, self.arp_pln);
        res.push(pln);
        res.push(joined("Operation: ", fmt_arp_op(self.arp_op).as_str()));
        res.push(joined("Sender MAC: ", fmt_mac(self.arp_sha).as_str()));
        res.push(joined("Sender IP: ", fmt_ip(self.arp_sip).as_str()));
        res.push(joined("Target MAC: ", fmt_mac(self.arp_tha).as_str()));
        res.push(joined("Target IP: ", fmt_ip(self.arp_tip).as_str()));
        assert(views(res@) =~= arp_hdr_lines(*self));
        res
    }
}

} // verus!

verus! {

/// Each field of an ARP header is written at its offset in RFC 826, the
/// 16-bit fields most significant byte first.
pub proof fn lemma_arp_hdr_layout(h: ArpHdr)
    ensures
        ({
            let b = h.spec_to_bytes();
            &&& b.len() == 28
            &&& b[0] * 256 + b[1] == h.arp_hrd
            &&& b[2] * 256 + b[3] == h.arp_pro
            &&& b[4] == h.arp_hln
            &&& b[5] == h.arp_pln
            &&& b[6] * 256 + b[7] == h.arp_op
            &&& forall|i: int| 0 <= i < 6 ==> b[8 + i] == h.arp_sha[i]
            &&& forall|i: int| 0 <= i < 4 ==> b[14 + i] == h.arp_sip[i]
            &&& forall|i: int| 0 <= i < 6 ==> b[18 + i] == h.arp_tha[i]
            &&& forall|i: int| 0 <= i < 4 ==> b[24 + i] == h.arp_tip[i]
        }),
{
    crate::util::bytes::lemma_u16_bytes_value(h.arp_hrd);
    crate::util::bytes::lemma_u16_bytes_value(h.arp_pro);
    crate::util::bytes::lemma_u16_bytes_value(h.arp_op);
    let b = h.spec_to_bytes();
    assert(b.subrange(0, 2) =~= u16_bytes(h.arp_hrd));
    assert(b.subrange(2, 4) =~= u16_bytes(h.arp_pro));
    assert(b.subrange(6, 8) =~= u16_bytes(h.arp_op));
    assert(forall|i: int| 0 <= i < 6 ==> b[8 + i] == bytes6(h.arp_sha)[i]);
    assert(forall|i: int| 0 <= i < 4 ==> b[14 + i] == bytes4(h.arp_sip)[i]);
    assert(forall|i: int| 0 <= i < 6 ==> b[18 + i] == bytes6(h.arp_tha)[i]);
    assert(forall|i: int| 0 <= i < 4 ==> b[24 + i] == bytes4(h.arp_tip)[i]);
}

} // verus!
