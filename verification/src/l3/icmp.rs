use vstd::prelude::*;

use crate::util::text::{dec_u16, dec_u16_line, dec_u8, dec_u8_line, hex4, hex4_line, views};
use crate::util::bytes::{
    be16, high_byte, lemma_be16_roundtrip, lemma_u16_bytes_roundtrip, low_byte, read_u16_be,
    u16_bytes,
};

verus! {

/// The byte that a numeric pattern of bytes holds at position `i`: the
/// pattern counts up from 0x10, wrapping past 0xff.
pub open spec fn pattern_byte(i: int) -> u8 {
    ((0x10 + i) % 256) as u8
}

/// A pattern of `LEN` bytes counting up from 0x10, as ping fills the rest of
/// an echo request's payload with.
pub fn num_pattern<const LEN: usize>() -> (pat: [u8; LEN])
    ensures
        forall|i: int| 0 <= i < LEN ==> pat@[i] == pattern_byte(i),
        forall|i: int| 0 <= i < LEN ==> #[trigger] pat@[i] == (0x10 + i) % 256,
{
    let mut pat = [0u8; LEN];
    let mut i: usize = 0;
    while i < LEN
        invariant
            i <= LEN,
            pat@.len() == LEN,
            forall|j: int| 0 <= j < i ==> pat@[j] == pattern_byte(j),
        decreases LEN - i,
    {
        let low = (i % 256) as u8;
        let v = low.wrapping_add(0x10);
        proof {
            vstd::arithmetic::div_mod::lemma_add_mod_noop(0x10, i as int, 256);
            vstd::arithmetic::div_mod::lemma_small_mod(0x10, 256);
            assert(v == (0x10 + low) % 256);
            vstd::arithmetic::div_mod::lemma_mod_twice(i as int, 256);
            assert(v == pattern_byte(i as int));
        }
        pat[i] = v;
        i += 1;
    }
    assert forall|j: int| 0 <= j < LEN implies #[trigger] pat@[j] == (0x10 + j) % 256 by {
        assert(pat@[j] == pattern_byte(j));
        let v = (0x10 + j) % 256;
        assert(0 <= v < 256) by (nonlinear_arith)
            requires
                v == (0x10 + j) % 256,
        ;
        assert(v as u8 == v);
    }
    pat
}

/// The echo fields of an ICMP header: an identifier and a sequence number.
#[derive(Clone, Copy, Debug, PartialEq, Eq)]
pub struct IcmpEcho {
    pub id: u16,
    pub sequence: u16,
}

/// The last four bytes of an ICMP header; for echo requests and replies they
/// are the echo fields.
#[derive(Clone, Copy, Debug, PartialEq, Eq)]
pub struct IcmpHdrExt {
    pub echo: IcmpEcho,
}

/// An ICMP header. Each field holds its value as a number; on the wire the
/// 16-bit fields are in network (big-endian) order.
#[derive(Clone, Copy, Debug, PartialEq, Eq)]
pub struct IcmpHdr {
    /// The message type (echo request, echo reply, ...).
    pub icmp_type: u8,
    pub code: u8,
    /// Checksum of the whole ICMP message.
    pub checksum: u16,
    pub ext: IcmpHdrExt,
}

impl IcmpHdr {
    /// The 8 bytes of the header on the wire.
    pub open spec fn spec_to_bytes(self) -> Seq<u8> {
        seq![self.icmp_type, self.code] + u16_bytes(self.checksum) + u16_bytes(self.ext.echo.id)
            + u16_bytes(self.ext.echo.sequence)
    }

    /// The header that the first 8 bytes of `s` hold.
    pub open spec fn spec_from_bytes(s: Seq<u8>) -> Self {
        IcmpHdr {
            icmp_type: s[0],
            code: s[1],
            checksum: be16(s[2], s[3]),
            ext: IcmpHdrExt { echo: IcmpEcho { id: be16(s[4], s[5]), sequence: be16(s[6], s[7]) } },
        }
    }

    /// Reads the header at the start of `buf`.
    pub fn new(buf: &[u8]) -> (res: Self)
        requires
            buf@.len() >= 8,
        ensures
            res == Self::spec_from_bytes(buf@),
    {
        IcmpHdr {
            icmp_type: buf[0],
            code: buf[1],
            checksum: read_u16_be(buf, 2),
            ext: IcmpHdrExt {
                echo: IcmpEcho { id: read_u16_be(buf, 4), sequence: read_u16_be(buf, 6) },
            },
        }
    }

    /// The bytes of the header on the wire.
    pub fn to_bytes(&self) -> (res: [u8; 8])
        ensures
            res@ == self.spec_to_bytes(),
    {
        let res = [
            self.icmp_type,
            self.code,
            high_byte(self.checksum),
            low_byte(self.checksum),
            high_byte(self.ext.echo.id),
            low_byte(self.ext.echo.id),
            high_byte(self.ext.echo.sequence),
            low_byte(self.ext.echo.sequence),
        ];
        assert(res@ =~= self.spec_to_bytes());
        res
    }
}

/// Reading the bytes that a header is written as gives the header back.
pub proof fn lemma_icmp_hdr_roundtrip(h: IcmpHdr)
    ensures
        IcmpHdr::spec_from_bytes(h.spec_to_bytes()) == h,
{
    lemma_be16_roundtrip(h.checksum);
    lemma_be16_roundtrip(h.ext.echo.id);
    lemma_be16_roundtrip(h.ext.echo.sequence);
    assert(IcmpHdr::spec_from_bytes(h.spec_to_bytes()) == h);
}

/// Writing the header read from 8 bytes gives those bytes back.
pub proof fn lemma_icmp_bytes_roundtrip(s: Seq<u8>)
    requires
        s.len() >= 8,
    ensures
        IcmpHdr::spec_from_bytes(s).spec_to_bytes() == s.take(8),
{
    lemma_u16_bytes_roundtrip(s[2], s[3]);
    lemma_u16_bytes_roundtrip(s[4], s[5]);
    lemma_u16_bytes_roundtrip(s[6], s[7]);
    assert(IcmpHdr::spec_from_bytes(s).spec_to_bytes() =~= s.take(8));
}

/// The lines that describe an ICMP header to a reader; the echo fields are
/// shown for echo requests and replies only.
pub open spec fn icmp_hdr_lines(h: IcmpHdr) -> Seq<Seq<char>> {
    let head = seq![
        "---------------ICMP Header---------------"@,
        "type: "@ + dec_u8(h.icmp_type),
        "code: "@ + dec_u8(h.code),
        "checksum: 0x"@ + hex4(h.checksum),
    ];
    let echo = if h.icmp_type == 8 || h.icmp_type == 0 {
        seq!["id: "@ + dec_u16(h.ext.echo.id), "sequence: "@ + dec_u16(h.ext.echo.sequence)]
    } else {
        Seq::empty()
    };
    head + echo + seq!["----------------------------------------"@]
}

impl IcmpHdr {
    /// The lines that describe the header, field by field.
    pub fn lines(&self) -> (res: Vec<String>)
        ensures
            views(res@) == icmp_hdr_lines(*self),
    {
        let mut res: Vec<String> = Vec::new();
        res.push(String::from_str("---------------ICMP Header---------------"));
        res.push(dec_u8_line("type: ", self.icmp_type));
        res.push(dec_u8_line("code: ", self.code));
        res.push(hex4_line("checksum: 0x", self.checksum));
        if self.icmp_type == crate::l3::constant::ICMP_ECHO_REQUEST || self.icmp_type
            == crate::l3::constant::ICMP_ECHO_REPLY {
            res.push(dec_u16_line("id: ", self.ext.echo.id));
            res.push(dec_u16_line("sequence: ", self.ext.echo.sequence));
        }
        res.push(String::from_str("----------------------------------------"));
        assert(views(res@) =~= icmp_hdr_lines(*self));
        res
    }
}

} // verus!

verus! {

/// Each field of an ICMP header is written at its offset in RFC 792, the
/// 16-bit fields most significant byte first.
pub proof fn lemma_icmp_hdr_layout(h: IcmpHdr)
    ensures
        ({
            let b = h.spec_to_bytes();
            &&& b.len() == 8
            &&& b[0] == h.icmp_type
            &&& b[1] == h.code
            &&& b[2] * 256 + b[3] == h.checksum
            &&& b[4] * 256 + b[5] == h.ext.echo.id
            &&& b[6] * 256 + b[7] == h.ext.echo.sequence
        }),
{
    crate::util::bytes::lemma_u16_bytes_value(h.checksum);
    crate::util::bytes::lemma_u16_bytes_value(h.ext.echo.id);
    crate::util::bytes::lemma_u16_bytes_value(h.ext.echo.sequence);
    let b = h.spec_to_bytes();
    assert(b.subrange(2, 4) =~= u16_bytes(h.checksum));
    assert(b.subrange(4, 6) =~= u16_bytes(h.ext.echo.id));
    assert(b.subrange(6, 8) =~= u16_bytes(h.ext.echo.sequence));
}

/// Reading a header takes each field from its offset in RFC 792, the 16-bit
/// fields most significant byte first.
pub proof fn lemma_icmp_hdr_fields(s: Seq<u8>)
    requires
        s.len() >= 8,
    ensures
        ({
            let h = IcmpHdr::spec_from_bytes(s);
            &&& h.icmp_type == s[0]
            &&& h.code == s[1]
            &&& h.checksum == s[2] * 256 + s[3]
            &&& h.ext.echo.id == s[4] * 256 + s[5]
            &&& h.ext.echo.sequence == s[6] * 256 + s[7]
        }),
{
    lemma_icmp_bytes_roundtrip(s);
    lemma_icmp_hdr_layout(IcmpHdr::spec_from_bytes(s));
}

} // verus!
