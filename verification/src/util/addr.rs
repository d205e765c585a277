use vstd::prelude::*;

use crate::util::text::{dec_u8, hex2, push_dec_u8, push_hex2};
use vstd::string::StringSliceAdditionalSpecFns;

verus! {

/// An IPv4 address in dotted decimal, as in `192.168.0.1`.
pub open spec fn ip_text(ip: [u8; 4]) -> Seq<char> {
    dec_u8(ip[0]) + seq!['.'] + dec_u8(ip[1]) + seq!['.'] + dec_u8(ip[2]) + seq!['.'] + dec_u8(
        ip[3],
    )
}

/// A hardware address as six pairs of lowercase hexadecimal digits joined by
/// colons, as in `00:1a:2b:3c:4d:5e`.
pub open spec fn mac_text(mac: [u8; 6]) -> Seq<char> {
    hex2(mac[0]) + seq![':'] + hex2(mac[1]) + seq![':'] + hex2(mac[2]) + seq![':'] + hex2(mac[3])
        + seq![':'] + hex2(mac[4]) + seq![':'] + hex2(mac[5])
}

/// Writes an IPv4 address in dotted decimal.
pub fn fmt_ip(ip: [u8; 4]) -> (res: String)
    ensures
        res@ == ip_text(ip),
{
    let dot = ".";
    proof {
        reveal_strlit(".");
    }
    let mut res = String::new();
    push_dec_u8(&mut res, ip[0]);
    res.append(dot);
    push_dec_u8(&mut res, ip[1]);
    res.append(dot);
    push_dec_u8(&mut res, ip[2]);
    res.append(dot);
    push_dec_u8(&mut res, ip[3]);
    assert(res@ =~= ip_text(ip));
    res
}

/// Writes a hardware address as colon-separated hexadecimal pairs.
pub fn fmt_mac(mac: [u8; 6]) -> (res: String)
    ensures
        res@ == mac_text(mac),
{
    let colon = ":";
    proof {
        reveal_strlit(":");
    }
    let mut res = String::new();
    push_hex2(&mut res, mac[0]);
    res.append(colon);
    push_hex2(&mut res, mac[1]);
    res.append(colon);
    push_hex2(&mut res, mac[2]);
    res.append(colon);
    push_hex2(&mut res, mac[3]);
    res.append(colon);
    push_hex2(&mut res, mac[4]);
    res.append(colon);
    push_hex2(&mut res, mac[5]);
    assert(res@ =~= mac_text(mac));
    res
}

/// Why a text is not an IPv4 address in dotted decimal.
#[derive(Clone, Copy, Debug, PartialEq, Eq)]
pub enum AddrParseError {
    /// It does not have exactly four dot-separated parts.
    WrongPartCount,
    /// One of its four parts is not a number from 0 to 255.
    InvalidOctet,
}

/// The parts of `s` between the bytes equal to `sep`, as `str::split` gives
/// them: `n` separators give `n + 1` parts, some of which may be empty.
pub open spec fn split_on(s: Seq<u8>, sep: u8) -> Seq<Seq<u8>>
    decreases s.len(),
{
    if s.len() == 0 {
        seq![Seq::<u8>::empty()]
    } else {
        let rest = split_on(s.drop_last(), sep);
        if s.last() == sep {
            rest.push(Seq::<u8>::empty())
        } else {
            rest.update(rest.len() - 1, rest.last().push(s.last()))
        }
    }
}

/// Whether `b` is an ASCII decimal digit.
pub open spec fn is_digit(b: u8) -> bool {
    0x30 <= b <= 0x39
}

/// The number that the decimal digits `d` write.
pub open spec fn dec_value(d: Seq<u8>) -> int
    decreases d.len(),
{
    if d.len() == 0 {
        0
    } else {
        dec_value(d.drop_last()) * 10 + (d.last() - 0x30)
    }
}

/// What `str::parse::<u8>` gives for the bytes `p`: an optional `+` sign,
/// then one or more decimal digits whose value is at most 255.
pub open spec fn parse_u8_spec(p: Seq<u8>) -> Option<u8> {
    if p.len() > 0 && p[0] == 0x2b {
        digits_value(p.drop_first())
    } else {
        digits_value(p)
    }
}

/// The number from 0 to 255 that the decimal digits `d` write, if `d` is
/// one or more decimal digits that write such a number.
pub open spec fn digits_value(d: Seq<u8>) -> Option<u8> {
    if d.len() > 0 && (forall|i: int| 0 <= i < d.len() ==> is_digit(#[trigger] d[i])) && dec_value(d)
        <= 255 {
        Some(dec_value(d) as u8)
    } else {
        None
    }
}

/// What `parse_ipv4` gives for the bytes `s`.
pub open spec fn parse_ipv4_spec(s: Seq<u8>) -> Result<[u8; 4], AddrParseError> {
    let parts = split_on(s, 0x2e);
    if parts.len() != 4 {
        Err(AddrParseError::WrongPartCount)
    } else if parse_u8_spec(parts[0]) is Some && parse_u8_spec(parts[1]) is Some && parse_u8_spec(
        parts[2],
    ) is Some && parse_u8_spec(parts[3]) is Some {
        Ok(
            [
                parse_u8_spec(parts[0])->0,
                parse_u8_spec(parts[1])->0,
                parse_u8_spec(parts[2])->0,
                parse_u8_spec(parts[3])->0,
            ],
        )
    } else {
        Err(AddrParseError::InvalidOctet)
    }
}

proof fn lemma_dec_value_nonneg(d: Seq<u8>)
    requires
        forall|i: int| 0 <= i < d.len() ==> is_digit(#[trigger] d[i]),
    ensures
        dec_value(d) >= 0,
    decreases d.len(),
{
    if d.len() > 0 {
        lemma_dec_value_nonneg(d.drop_last());
    }
}

/// Reads the decimal digits `d[start..]`, as `parse_u8_spec` does once the
/// sign is gone.
fn parse_digits(p: &[u8], start: usize) -> (res: Option<u8>)
    requires
        start <= p@.len(),
    ensures
        res == digits_value(p@.skip(start as int)),
{
    let ghost d = p@.skip(start as int);
    if start == p.len() {
        return None;
    }
    let mut value: u16 = 0;
    let mut i: usize = start;
    while i < p.len()
        invariant
            start <= i <= p@.len(),
            d == p@.skip(start as int),
            forall|j: int| 0 <= j < i - start ==> is_digit(#[trigger] d[j]),
            value == dec_value(d.take(i - start)),
            value <= 255,
        decreases p@.len() - i,
    {
        let b = p[i];
        assert(d.take(i - start + 1).drop_last() =~= d.take(i - start));
        if b < 0x30 || b > 0x39 {
            assert(!is_digit(d[i - start]));
            return None;
        }
        let next = value * 10 + (b - 0x30) as u16;
        if next > 255 {
            proof {
                lemma_dec_value_at_least_prefix(d, (i - start + 1) as int);
            }
            return None;
        }
        value = next;
        i += 1;
    }
    assert(d.take(i - start) =~= d);
    Some(value as u8)
}

/// A number written with more digits is at least the number its first
/// digits write.
proof fn lemma_dec_value_at_least_prefix(d: Seq<u8>, k: int)
    requires
        0 <= k <= d.len(),
        forall|i: int| 0 <= i < k ==> is_digit(#[trigger] d[i]),
    ensures
        (forall|i: int| 0 <= i < d.len() ==> is_digit(#[trigger] d[i])) ==> dec_value(d) >= dec_value(
            d.take(k),
        ),
    decreases d.len() - k,
{
    if k < d.len() && (forall|i: int| 0 <= i < d.len() ==> is_digit(#[trigger] d[i])) {
        lemma_dec_value_at_least_prefix(d, k + 1);
        assert(d.take(k + 1).drop_last() =~= d.take(k));
        lemma_dec_value_nonneg(d.take(k));
    } else if k == d.len() {
        assert(d.take(k) =~= d);
    }
}

/// Reads a number from 0 to 255 as `str::parse::<u8>` does.
fn parse_u8(p: &[u8]) -> (res: Option<u8>)
    ensures
        res == parse_u8_spec(p@),
{
    if p.len() > 0 && p[0] == 0x2b {
        assert(p@.drop_first() =~= p@.skip(1));
        parse_digits(p, 1)
    } else {
        assert(p@ =~= p@.skip(0));
        parse_digits(p, 0)
    }
}

/// Splits `s` at each byte equal to `sep`, as `str::split` does.
fn split_bytes(s: &[u8], sep: u8) -> (parts: Vec<Vec<u8>>)
    ensures
        parts@.len() == split_on(s@, sep).len(),
        forall|k: int| 0 <= k < parts@.len() ==> #[trigger] parts@[k]@ == split_on(s@, sep)[k],
{
    let mut done: Vec<Vec<u8>> = Vec::new();
    let mut current: Vec<u8> = Vec::new();
    let mut i: usize = 0;
    assert(s@.take(0) =~= Seq::<u8>::empty());
    while i < s.len()
        invariant
            i <= s@.len(),
            done@.len() + 1 == split_on(s@.take(i as int), sep).len(),
            forall|k: int| 0 <= k < done@.len() ==> #[trigger] done@[k]@ == split_on(s@.take(i as int), sep)[k],
            current@ == split_on(s@.take(i as int), sep).last(),
        decreases s@.len() - i,
    {
        let b = s[i];
        let ghost before = split_on(s@.take(i as int), sep);
        assert(s@.take(i + 1).drop_last() =~= s@.take(i as int));
        assert(s@.take(i + 1).last() == b);
        if b == sep {
            let finished = current;
            done.push(finished);
            current = Vec::new();
            assert(current@ =~= Seq::<u8>::empty());
        } else {
            current.push(b);
        }
        i += 1;
    }
    assert(s@.take(i as int) =~= s@);
    done.push(current);
    done
}

/// Reads an IPv4 address in dotted decimal: four parts separated by dots,
/// each a number from 0 to 255 as `str::parse::<u8>` reads it.
pub fn parse_ipv4(text: &str) -> (res: Result<[u8; 4], AddrParseError>)
    ensures
        res == parse_ipv4_spec(text.spec_bytes()),
{
    let bytes = text.as_bytes();
    let parts = split_bytes(bytes, 0x2e);
    if parts.len() != 4 {
        return Err(AddrParseError::WrongPartCount);
    }
    assert(parts@[0]@ == split_on(bytes@, 0x2e)[0]);
    assert(parts@[1]@ == split_on(bytes@, 0x2e)[1]);
    assert(parts@[2]@ == split_on(bytes@, 0x2e)[2]);
    assert(parts@[3]@ == split_on(bytes@, 0x2e)[3]);
    let a = parse_u8(parts[0].as_slice());
    let b = parse_u8(parts[1].as_slice());
    let c = parse_u8(parts[2].as_slice());
    let d = parse_u8(parts[3].as_slice());
    match (a, b, c, d) {
        (Some(a), Some(b), Some(c), Some(d)) => Ok([a, b, c, d]),
        _ => Err(AddrParseError::InvalidOctet),
    }
}

} // verus!

verus! {

/// The bytes of an ASCII text, one per character.
pub open spec fn ascii_bytes(cs: Seq<char>) -> Seq<u8> {
    Seq::new(cs.len(), |i: int| cs[i] as u8)
}

proof fn lemma_ascii_bytes_concat(x: Seq<char>, y: Seq<char>)
    ensures
        ascii_bytes(x + y) == ascii_bytes(x) + ascii_bytes(y),
{
    assert(ascii_bytes(x + y) =~= ascii_bytes(x) + ascii_bytes(y));
}

/// Whether `s` holds no byte equal to `sep`.
pub open spec fn free_of(s: Seq<u8>, sep: u8) -> bool {
    forall|i: int| 0 <= i < s.len() ==> s[i] != sep
}

proof fn lemma_split_on_free(t: Seq<u8>, sep: u8)
    requires
        free_of(t, sep),
    ensures
        split_on(t, sep) == seq![t],
    decreases t.len(),
{
    if t.len() > 0 {
        lemma_split_on_free(t.drop_last(), sep);
        assert(t.drop_last().push(t.last()) =~= t);
        assert(split_on(t, sep) =~= seq![t]);
    } else {
        assert(t =~= Seq::<u8>::empty());
    }
}

proof fn lemma_split_on_sep_then_free(s: Seq<u8>, t: Seq<u8>, sep: u8)
    requires
        free_of(t, sep),
    ensures
        split_on(s.push(sep) + t, sep) == split_on(s, sep).push(t),
    decreases t.len(),
{
    if t.len() == 0 {
        assert(s.push(sep) + t =~= s.push(sep));
        assert(s.push(sep).drop_last() =~= s);
        assert(t =~= Seq::<u8>::empty());
    } else {
        lemma_split_on_sep_then_free(s, t.drop_last(), sep);
        let u = s.push(sep) + t;
        assert(u.drop_last() =~= s.push(sep) + t.drop_last());
        assert(u.last() == t.last());
        assert(t.drop_last().push(t.last()) =~= t);
        assert(split_on(u, sep) =~= split_on(s, sep).push(t));
    }
}

/// The ASCII digits of `n` in decimal.
proof fn lemma_dec_u8_digits(n: u8)
    ensures
        ascii_bytes(crate::util::text::dec_u8(n)).len() > 0,
        ascii_bytes(crate::util::text::dec_u8(n))[0] != 0x2b,
        free_of(ascii_bytes(crate::util::text::dec_u8(n)), 0x2e),
        digits_value(ascii_bytes(crate::util::text::dec_u8(n))) == Some(n),
{
    let d = ascii_bytes(crate::util::text::dec_u8(n));
    let e = Seq::<u8>::empty();
    assert(dec_value(e) == 0);
    if n < 10 {
        let x = (0x30 + n) as u8;
        assert(x == 0x30 + n);
        assert(d =~= e.push(x));
        assert(e.push(x).drop_last() =~= e);
        assert(dec_value(e.push(x)) == n);
    } else if n < 100 {
        let a = n / 10;
        let b = n % 10;
        assert(n == a * 10 + b);
        let x = (0x30 + a) as u8;
        let y = (0x30 + b) as u8;
        assert(x == 0x30 + a && y == 0x30 + b);
        assert(d =~= e.push(x).push(y));
        assert(e.push(x).drop_last() =~= e);
        assert(e.push(x).push(y).drop_last() =~= e.push(x));
        assert(dec_value(e.push(x)) == a);
        assert(dec_value(e.push(x).push(y)) == n);
    } else {
        let a = n / 100;
        let b = n / 10 % 10;
        let c = n % 10;
        assert(n == a * 100 + b * 10 + c);
        let x = (0x30 + a) as u8;
        let y = (0x30 + b) as u8;
        let z = (0x30 + c) as u8;
        assert(x == 0x30 + a && y == 0x30 + b && z == 0x30 + c);
        assert(d =~= e.push(x).push(y).push(z));
        assert(e.push(x).drop_last() =~= e);
        assert(e.push(x).push(y).drop_last() =~= e.push(x));
        assert(e.push(x).push(y).push(z).drop_last() =~= e.push(x).push(y));
        assert(dec_value(e.push(x)) == a);
        assert(dec_value(e.push(x).push(y)) == a * 10 + b);
        assert(dec_value(e.push(x).push(y).push(z)) == n);
    }
    assert(forall|i: int| 0 <= i < d.len() ==> is_digit(#[trigger] d[i]));
}

/// The bytes of an address's dotted decimal text.
proof fn lemma_ip_text_bytes(text: &str, ip: [u8; 4])
    requires
        text@ == ip_text(ip),
    ensures
        text.spec_bytes() == ascii_bytes(crate::util::text::dec_u8(ip[0])).push(0x2e) + ascii_bytes(
            crate::util::text::dec_u8(ip[1]),
        ).push(0x2e) + ascii_bytes(crate::util::text::dec_u8(ip[2])).push(0x2e) + ascii_bytes(
            crate::util::text::dec_u8(ip[3]),
        ),
{
    let c0 = crate::util::text::dec_u8(ip[0]);
    let c1 = crate::util::text::dec_u8(ip[1]);
    let c2 = crate::util::text::dec_u8(ip[2]);
    let c3 = crate::util::text::dec_u8(ip[3]);
    let dot = seq!['.'];
    assert(ascii_bytes(dot) =~= seq![0x2eu8]);
    lemma_ascii_bytes_concat(c0, dot);
    lemma_ascii_bytes_concat(c0 + dot, c1);
    lemma_ascii_bytes_concat(c0 + dot + c1, dot);
    lemma_ascii_bytes_concat(c0 + dot + c1 + dot, c2);
    lemma_ascii_bytes_concat(c0 + dot + c1 + dot + c2, dot);
    lemma_ascii_bytes_concat(c0 + dot + c1 + dot + c2 + dot, c3);
    assert(text@ == c0 + dot + c1 + dot + c2 + dot + c3);
    assert(vstd::utf8::is_ascii_chars(text@));
    vstd::utf8::is_ascii_chars_encode_utf8(text@);
    assert(text.spec_bytes() =~= ascii_bytes(text@));
    assert(ascii_bytes(text@) =~= ascii_bytes(c0).push(0x2e) + ascii_bytes(c1).push(0x2e)
        + ascii_bytes(c2).push(0x2e) + ascii_bytes(c3));
}

/// The dotted decimal text that `fmt_ip` writes reads back, by
/// `parse_ipv4`, as the address it was written from.
pub proof fn lemma_ip_text_parses_back(text: &str, ip: [u8; 4])
    requires
        text@ == ip_text(ip),
    ensures
        parse_ipv4_spec(text.spec_bytes()) == Ok::<[u8; 4], AddrParseError>(ip),
{
    let d0 = ascii_bytes(crate::util::text::dec_u8(ip[0]));
    let d1 = ascii_bytes(crate::util::text::dec_u8(ip[1]));
    let d2 = ascii_bytes(crate::util::text::dec_u8(ip[2]));
    let d3 = ascii_bytes(crate::util::text::dec_u8(ip[3]));
    lemma_dec_u8_digits(ip[0]);
    lemma_dec_u8_digits(ip[1]);
    lemma_dec_u8_digits(ip[2]);
    lemma_dec_u8_digits(ip[3]);
    lemma_ip_text_bytes(text, ip);
    let bytes = d0.push(0x2e) + d1;
    let bytes2 = bytes.push(0x2e) + d2;
    let bytes3 = bytes2.push(0x2e) + d3;
    assert(text.spec_bytes() =~= bytes3);
    lemma_split_on_free(d0, 0x2e);
    lemma_split_on_sep_then_free(d0, d1, 0x2e);
    lemma_split_on_sep_then_free(bytes, d2, 0x2e);
    lemma_split_on_sep_then_free(bytes2, d3, 0x2e);
    let parts = split_on(bytes3, 0x2e);
    assert(parts =~= seq![d0, d1, d2, d3]);
    assert([ip[0], ip[1], ip[2], ip[3]] =~= ip);
}

} // verus!
