use vstd::prelude::*;

use crate::util::addr::{fmt_ip, ip_text};
use crate::util::text::{dec_u16, dec_u8, dec_u16_line, dec_u8_line, hex4, hex4_line, joined, views};
use crate::util::bytes::{
    be16, be32, high_byte, lemma_be16_roundtrip, lemma_be32_roundtrip, lemma_u16_bytes_roundtrip,
    lemma_u32_bytes_roundtrip, low_byte, read_u16_be, read_u32_be, u16_bytes, u32_bytes, u32_to_be,
};

verus! {

/// An IPv4 header without options. Each field holds its value as a number;
/// on the wire the multi-byte fields are in network (big-endian) order.
#[derive(Clone, Copy, Debug, PartialEq, Eq)]
pub struct Ipv4Hdr {
    /// Version (high 4 bits) and header length in 32-bit words (low 4 bits).
    pub version_ihl: u8,
    /// Type of service.
    pub tos: u8,
    /// Total length: the header and its payload.
    pub tot_len: u16,
    pub id: u16,
    pub frag_off: u16,
    pub ttl: u8,
    pub protocol: u8,
    /// Checksum of the header.
    pub check: u16,
    pub saddr: u32,
    pub daddr: u32,
}

impl Ipv4Hdr {
    /// The 20 bytes of the header on the wire.
    pub open spec fn spec_to_bytes(self) -> Seq<u8> {
        seq![self.version_ihl, self.tos] + u16_bytes(self.tot_len) + u16_bytes(self.id)
            + u16_bytes(self.frag_off) + seq![self.ttl, self.protocol] + u16_bytes(self.check)
            + u32_bytes(self.saddr) + u32_bytes(self.daddr)
    }

    /// The header that the first 20 bytes of `s` hold.
    pub open spec fn spec_from_bytes(s: Seq<u8>) -> Self {
        Ipv4Hdr {
            version_ihl: s[0],
            tos: s[1],
            tot_len: be16(s[2], s[3]),
            id: be16(s[4], s[5]),
            frag_off: be16(s[6], s[7]),
            ttl: s[8],
            protocol: s[9],
            check: be16(s[10], s[11]),
            saddr: be32(s[12], s[13], s[14], s[15]),
            daddr: be32(s[16], s[17], s[18], s[19]),
        }
    }

    /// Reads the header at the start of `buf`.
    pub fn new(buf: &[u8]) -> (res: Self)
        requires
            buf@.len() >= 20,
        ensures
            res == Self::spec_from_bytes(buf@),
    {
        Ipv4Hdr {
            version_ihl: buf[0],
            tos: buf[1],
            tot_len: read_u16_be(buf, 2),
            id: read_u16_be(buf, 4),
            frag_off: read_u16_be(buf, 6),
            ttl: buf[8],
            protocol: buf[9],
            check: read_u16_be(buf, 10),
            saddr: read_u32_be(buf, 12),
            daddr: read_u32_be(buf, 16),
        }
    }

    /// The bytes of the header on the wire.
    pub fn to_bytes(&self) -> (res: [u8; 20])
        ensures
            res@ == self.spec_to_bytes(),
    {
        let s = u32_to_be(self.saddr);
        let d = u32_to_be(self.daddr);
        let res = [
            self.version_ihl,
            self.tos,
            high_byte(self.tot_len),
            low_byte(self.tot_len),
            high_byte(self.id),
            low_byte(self.id),
            high_byte(self.frag_off),
            low_byte(self.frag_off),
            self.ttl,
            self.protocol,
            high_byte(self.check),
            low_byte(self.check),
            s[0],
            s[1],
            s[2],
            s[3],
            d[0],
            d[1],
            d[2],
            d[3],
        ];
        assert(res@ =~= self.spec_to_bytes());
        res
    }
}

/// Reading the bytes that a header is written as gives the header back.
pub proof fn lemma_ipv4_hdr_roundtrip(h: Ipv4Hdr)
    ensures
        Ipv4Hdr::spec_from_bytes(h.spec_to_bytes()) == h,
{
    let b = h.spec_to_bytes();
    lemma_be16_roundtrip(h.tot_len);
    lemma_be16_roundtrip(h.id);
    lemma_be16_roundtrip(h.frag_off);
    lemma_be16_roundtrip(h.check);
    lemma_be32_roundtrip(h.saddr);
    lemma_be32_roundtrip(h.daddr);
    assert(Ipv4Hdr::spec_from_bytes(b) == h);
}

/// Writing the header read from 20 bytes gives those bytes back.
pub proof fn lemma_ipv4_bytes_roundtrip(s: Seq<u8>)
    requires
        s.len() >= 20,
    ensures
        Ipv4Hdr::spec_from_bytes(s).spec_to_bytes() == s.take(20),
{
    lemma_u16_bytes_roundtrip(s[2], s[3]);
    lemma_u16_bytes_roundtrip(s[4], s[5]);
    lemma_u16_bytes_roundtrip(s[6], s[7]);
    lemma_u16_bytes_roundtrip(s[10], s[11]);
    lemma_u32_bytes_roundtrip(s[12], s[13], s[14], s[15]);
    lemma_u32_bytes_roundtrip(s[16], s[17], s[18], s[19]);
    assert(Ipv4Hdr::spec_from_bytes(s).spec_to_bytes() =~= s.take(20));
}

/// The four bytes of an address held as a 32-bit value, most significant
/// first.
pub open spec fn addr_bytes(w: u32) -> [u8; 4] {
    [
        (w / 0x100_0000) as u8,
        (w / 0x1_0000 % 256) as u8,
        (w / 0x100 % 256) as u8,
        (w % 256) as u8,
    ]
}

/// The lines that describe an IPv4 header to a reader.
pub open spec fn ip_hdr_lines(h: Ipv4Hdr) -> Seq<Seq<char>> {
    seq![
        "---------------IP Header---------------"@,
        "version: "@ + dec_u8(h.version_ihl >> 4),
        "ihl: "@ + dec_u8(h.version_ihl & 0x0f),
        "tos: "@ + dec_u8(h.tos),
        "tot_len: "@ + dec_u16(h.tot_len),
        "id: "@ + dec_u16(h.id),
        "frag_off: 0x"@ + hex4(h.frag_off),
        "ttl: "@ + dec_u8(h.ttl),
        "protocol: "@ + dec_u8(h.protocol),
        "check: 0x"@ + hex4(h.check),
        "saddr: "@ + ip_text(addr_bytes(h.saddr)),
        "daddr: "@ + ip_text(addr_bytes(h.daddr)),
        "----------------------------------------"@,
    ]
}

/// The address that `w` holds, in dotted decimal.
fn addr_line(label: &str, w: u32) -> (res: String)
    ensures
        res@ == label@ + ip_text(addr_bytes(w)),
{
    let b = u32_to_be(w);
    assert(b =~= addr_bytes(w));
    joined(label, fmt_ip(b).as_str())
}

impl Ipv4Hdr {
    /// The lines that describe the header, field by field.
    pub fn lines(&self) -> (res: Vec<String>)
        ensures
            views(res@) == ip_hdr_lines(*self),
    {
        let mut res: Vec<String> = Vec::new();
        res.push(String::from_str("---------------IP Header---------------"));
        res.push(dec_u8_line("version: ", self.version_ihl >> 4));
        res.push(dec_u8_line("ihl: ", self.version_ihl & 0x0f));
        res.push(dec_u8_line("tos: ", self.tos));
        res.push(dec_u16_line("tot_len: ", self.tot_len));
        res.push(dec_u16_line("id: ", self.id));
        res.push(hex4_line("frag_off: 0x", self.frag_off));
        res.push(dec_u8_line("ttl: ", self.ttl));
        res.push(dec_u8_line("protocol: ", self.protocol));
        res.push(hex4_line("check: 0x", self.check));
        res.push(addr_line("saddr: ", self.saddr));
        res.push(addr_line("daddr: ", self.daddr));
        res.push(String::from_str("----------------------------------------"));
        assert(views(res@) =~= ip_hdr_lines(*self));
        res
    }
}

} // verus!

verus! {

/// Each field of an IPv4 header is written at its offset in RFC 791, the
/// multi-byte fields most significant byte first.
pub proof fn lemma_ipv4_hdr_layout(h: Ipv4Hdr)
    ensures
        ({
            let b = h.spec_to_bytes();
            &&& b.len() == 20
            &&& b[0] == h.version_ihl
            &&& b[1] == h.tos
            &&& b[2] * 256 + b[3] == h.tot_len
            &&& b[4] * 256 + b[5] == h.id
            &&& b[6] * 256 + b[7] == h.frag_off
            &&& b[8] == h.ttl
            &&& b[9] == h.protocol
            &&& b[10] * 256 + b[11] == h.check
            &&& b[12] * 0x100_0000 + b[13] * 0x1_0000 + b[14] * 0x100 + b[15] == h.saddr
            &&& b[16] * 0x100_0000 + b[17] * 0x1_0000 + b[18] * 0x100 + b[19] == h.daddr
        }),
{
    crate::util::bytes::lemma_u16_bytes_value(h.tot_len);
    crate::util::bytes::lemma_u16_bytes_value(h.id);
    crate::util::bytes::lemma_u16_bytes_value(h.frag_off);
    crate::util::bytes::lemma_u16_bytes_value(h.check);
    crate::util::bytes::lemma_u32_bytes_value(h.saddr);
    crate::util::bytes::lemma_u32_bytes_value(h.daddr);
    let b = h.spec_to_bytes();
    assert(b.subrange(2, 4) =~= u16_bytes(h.tot_len));
    assert(b.subrange(4, 6) =~= u16_bytes(h.id));
    assert(b.subrange(6, 8) =~= u16_bytes(h.frag_off));
    assert(b.subrange(10, 12) =~= u16_bytes(h.check));
    assert(b.subrange(12, 16) =~= u32_bytes(h.saddr));
    assert(b.subrange(16, 20) =~= u32_bytes(h.daddr));
}

/// Reading a header takes each field from its offset in RFC 791, the
/// multi-byte fields most significant byte first.
pub proof fn lemma_ipv4_hdr_fields(s: Seq<u8>)
    requires
        s.len() >= 20,
    ensures
        ({
            let h = Ipv4Hdr::spec_from_bytes(s);
            &&& h.version_ihl == s[0]
            &&& h.tos == s[1]
            &&& h.tot_len == s[2] * 256 + s[3]
            &&& h.id == s[4] * 256 + s[5]
            &&& h.frag_off == s[6] * 256 + s[7]
            &&& h.ttl == s[8]
            &&& h.protocol == s[9]
            &&& h.check == s[10] * 256 + s[11]
            &&& h.saddr == s[12] * 0x100_0000 + s[13] * 0x1_0000 + s[14] * 0x100 + s[15]
            &&& h.daddr == s[16] * 0x100_0000 + s[17] * 0x1_0000 + s[18] * 0x100 + s[19]
        }),
{
    lemma_ipv4_bytes_roundtrip(s);
    lemma_ipv4_hdr_layout(Ipv4Hdr::spec_from_bytes(s));
    assert(Ipv4Hdr::spec_from_bytes(s).spec_to_bytes() =~= s.take(20));
}

} // verus!
