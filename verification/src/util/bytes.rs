use vstd::prelude::*;

verus! {

/// The 16-bit value whose big-endian bytes are `hi`, `lo`.
pub open spec fn be16(hi: u8, lo: u8) -> u16 {
    (hi * 256 + lo) as u16
}

/// The 32-bit value whose big-endian bytes are `b0` .. `b3`.
pub open spec fn be32(b0: u8, b1: u8, b2: u8, b3: u8) -> u32 {
    (b0 * 0x100_0000 + b1 * 0x1_0000 + b2 * 0x100 + b3) as u32
}

/// The big-endian bytes of `w`.
pub open spec fn u16_bytes(w: u16) -> Seq<u8> {
    seq![(w / 256) as u8, (w % 256) as u8]
}

/// The big-endian bytes of `w`.
pub open spec fn u32_bytes(w: u32) -> Seq<u8> {
    seq![
        (w / 0x100_0000) as u8,
        (w / 0x1_0000 % 256) as u8,
        (w / 0x100 % 256) as u8,
        (w % 256) as u8,
    ]
}

/// The four bytes of an address, in order, as a sequence.
pub open spec fn bytes4(a: [u8; 4]) -> Seq<u8> {
    seq![a[0], a[1], a[2], a[3]]
}

/// The six bytes of a hardware address, in order, as a sequence.
pub open spec fn bytes6(a: [u8; 6]) -> Seq<u8> {
    seq![a[0], a[1], a[2], a[3], a[4], a[5]]
}

pub proof fn lemma_be16_roundtrip(w: u16)
    ensures
        be16((w / 256) as u8, (w % 256) as u8) == w,
{
    assert(be16((w / 256) as u8, (w % 256) as u8) == w) by (bit_vector);
}

pub proof fn lemma_u16_bytes_roundtrip(hi: u8, lo: u8)
    ensures
        u16_bytes(be16(hi, lo)) == seq![hi, lo],
{
    let w = be16(hi, lo);
    assert((w / 256) as u8 == hi && (w % 256) as u8 == lo) by (bit_vector)
        requires
            w == be16(hi, lo),
    ;
    assert(u16_bytes(w) =~= seq![hi, lo]);
}

pub proof fn lemma_be32_roundtrip(w: u32)
    ensures
        be32(
            (w / 0x100_0000) as u8,
            (w / 0x1_0000 % 256) as u8,
            (w / 0x100 % 256) as u8,
            (w % 256) as u8,
        ) == w,
{
    assert(be32(
        (w / 0x100_0000) as u8,
        (w / 0x1_0000 % 256) as u8,
        (w / 0x100 % 256) as u8,
        (w % 256) as u8,
    ) == w) by (bit_vector);
}

pub proof fn lemma_u32_bytes_roundtrip(b0: u8, b1: u8, b2: u8, b3: u8)
    ensures
        u32_bytes(be32(b0, b1, b2, b3)) == seq![b0, b1, b2, b3],
{
    let w = be32(b0, b1, b2, b3);
    assert((w / 0x100_0000) as u8 == b0 && (w / 0x1_0000 % 256) as u8 == b1 && (w / 0x100
        % 256) as u8 == b2 && (w % 256) as u8 == b3) by (bit_vector)
        requires
            w == be32(b0, b1, b2, b3),
    ;
    assert(u32_bytes(w) =~= seq![b0, b1, b2, b3]);
}

/// Reads the big-endian 16-bit value at `buf[i]`, `buf[i + 1]`.
pub fn read_u16_be(buf: &[u8], i: usize) -> (res: u16)
    requires
        i + 1 < buf@.len(),
    ensures
        res == be16(buf@[i as int], buf@[i + 1]),
{
    let hi = buf[i];
    let lo = buf[i + 1];
    let res = (hi as u16) << 8 | lo as u16;
    assert(res == be16(hi, lo)) by (bit_vector)
        requires
            res == (hi as u16) << 8 | lo as u16,
    ;
    res
}

/// Reads the big-endian 32-bit value at `buf[i]` .. `buf[i + 3]`.
pub fn read_u32_be(buf: &[u8], i: usize) -> (res: u32)
    requires
        i + 3 < buf@.len(),
    ensures
        res == be32(buf@[i as int], buf@[i + 1], buf@[i + 2], buf@[i + 3]),
{
    let b0 = buf[i];
    let b1 = buf[i + 1];
    let b2 = buf[i + 2];
    let b3 = buf[i + 3];
    let res = (b0 as u32) << 24 | (b1 as u32) << 16 | (b2 as u32) << 8 | b3 as u32;
    assert(res == be32(b0, b1, b2, b3)) by (bit_vector)
        requires
            res == (b0 as u32) << 24 | (b1 as u32) << 16 | (b2 as u32) << 8 | b3 as u32,
    ;
    res
}

/// The high byte of `w`.
pub fn high_byte(w: u16) -> (res: u8)
    ensures
        res == w / 256,
{
    let res = (w >> 8) as u8;
    assert(res == w / 256) by (bit_vector)
        requires
            res == (w >> 8) as u8,
    ;
    res
}

/// The low byte of `w`.
pub fn low_byte(w: u16) -> (res: u8)
    ensures
        res == w % 256,
{
    let res = (w & 0xff) as u8;
    assert(res == w % 256) by (bit_vector)
        requires
            res == (w & 0xff) as u8,
    ;
    res
}

/// The big-endian bytes of `w`, most significant first.
pub fn u32_to_be(w: u32) -> (res: [u8; 4])
    ensures
        res@ == u32_bytes(w),
{
    let b0 = (w >> 24) as u8;
    let b1 = ((w >> 16) & 0xff) as u8;
    let b2 = ((w >> 8) & 0xff) as u8;
    let b3 = (w & 0xff) as u8;
    assert(b0 == (w / 0x100_0000) as u8 && b1 == (w / 0x1_0000 % 256) as u8 && b2 == (w / 0x100
        % 256) as u8 && b3 == (w % 256) as u8) by (bit_vector)
        requires
            b0 == (w >> 24) as u8,
            b1 == ((w >> 16) & 0xff) as u8,
            b2 == ((w >> 8) & 0xff) as u8,
            b3 == (w & 0xff) as u8,
    ;
    let res = [b0, b1, b2, b3];
    assert(res@ =~= u32_bytes(w));
    res
}

} // verus!

verus! {

/// `x` widened to `usize`.
pub fn u16_to_usize(x: u16) -> (res: usize)
    ensures
        res == x,
{
    x as usize
}

/// Appends the bytes of `s` to `v`.
pub fn append_bytes(v: &mut Vec<u8>, s: &[u8])
    ensures
        final(v)@ == old(v)@ + s@,
{
    let mut i: usize = 0;
    while i < s.len()
        invariant
            i <= s@.len(),
            v@ == old(v)@ + s@.take(i as int),
        decreases s@.len() - i,
    {
        v.push(s[i]);
        i += 1;
        assert(v@ =~= old(v)@ + s@.take(i as int));
    }
    assert(s@.take(i as int) =~= s@);
}

pub proof fn lemma_bytes6_injective(a: [u8; 6], b: [u8; 6])
    requires
        bytes6(a) == bytes6(b),
    ensures
        a == b,
{
    assert(bytes6(a)[0] == bytes6(b)[0]);
    assert(bytes6(a)[1] == bytes6(b)[1]);
    assert(bytes6(a)[2] == bytes6(b)[2]);
    assert(bytes6(a)[3] == bytes6(b)[3]);
    assert(bytes6(a)[4] == bytes6(b)[4]);
    assert(bytes6(a)[5] == bytes6(b)[5]);
    assert(a@ =~= b@);
    assert(a =~= b);
}

pub proof fn lemma_bytes4_injective(a: [u8; 4], b: [u8; 4])
    requires
        bytes4(a) == bytes4(b),
    ensures
        a == b,
{
    assert(bytes4(a)[0] == bytes4(b)[0]);
    assert(bytes4(a)[1] == bytes4(b)[1]);
    assert(bytes4(a)[2] == bytes4(b)[2]);
    assert(bytes4(a)[3] == bytes4(b)[3]);
    assert(a@ =~= b@);
    assert(a =~= b);
}

} // verus!

verus! {

/// The bytes of `u16_bytes(w)` are those of `w`, most significant first.
pub proof fn lemma_u16_bytes_value(w: u16)
    ensures
        u16_bytes(w).len() == 2,
        u16_bytes(w)[0] * 256 + u16_bytes(w)[1] == w,
{
    assert(w == 256 * (w / 256) + w % 256 && w / 256 < 256) by (nonlinear_arith);
}

/// `be16(hi, lo)` is the number whose bytes are `hi` then `lo`.
pub proof fn lemma_be16_value(hi: u8, lo: u8)
    ensures
        be16(hi, lo) == hi * 256 + lo,
{
    assert(0 <= hi * 256 + lo <= 0xffff) by (nonlinear_arith)
        requires
            0 <= hi < 256,
            0 <= lo < 256,
    ;
}

/// The bytes of `u32_bytes(w)` are those of `w`, most significant first.
pub proof fn lemma_u32_bytes_value(w: u32)
    ensures
        u32_bytes(w).len() == 4,
        u32_bytes(w)[0] * 0x100_0000 + u32_bytes(w)[1] * 0x1_0000 + u32_bytes(w)[2] * 0x100
            + u32_bytes(w)[3] == w,
{
    assert(w == 0x100_0000 * (w / 0x100_0000) + 0x1_0000 * (w / 0x1_0000 % 256) + 0x100 * (w
        / 0x100 % 256) + w % 256 && w / 0x100_0000 < 256) by (nonlinear_arith);
}

/// `be32(b0, b1, b2, b3)` is the number whose bytes are `b0` .. `b3`.
pub proof fn lemma_be32_value(b0: u8, b1: u8, b2: u8, b3: u8)
    ensures
        be32(b0, b1, b2, b3) == b0 * 0x100_0000 + b1 * 0x1_0000 + b2 * 0x100 + b3,
{
    assert(0 <= b0 * 0x100_0000 + b1 * 0x1_0000 + b2 * 0x100 + b3 <= 0xffff_ffff) by (nonlinear_arith)
        requires
            0 <= b0 < 256,
            0 <= b1 < 256,
            0 <= b2 < 256,
            0 <= b3 < 256,
    ;
}

} // verus!
