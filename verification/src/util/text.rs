use vstd::prelude::*;

verus! {

/// The lowercase hexadecimal digit for `d` (0 to 15).
pub open spec fn hex_char(d: int) -> char {
    if d == 0 { '0' }
    else if d == 1 { '1' }
    else if d == 2 { '2' }
    else if d == 3 { '3' }
    else if d == 4 { '4' }
    else if d == 5 { '5' }
    else if d == 6 { '6' }
    else if d == 7 { '7' }
    else if d == 8 { '8' }
    else if d == 9 { '9' }
    else if d == 10 { 'a' }
    else if d == 11 { 'b' }
    else if d == 12 { 'c' }
    else if d == 13 { 'd' }
    else if d == 14 { 'e' }
    else { 'f' }
}

/// `w` as four lowercase hexadecimal digits, most significant first.
pub open spec fn hex4(w: u16) -> Seq<char> {
    seq![
        hex_char(w as int / 0x1000),
        hex_char(w as int / 0x100 % 16),
        hex_char(w as int / 0x10 % 16),
        hex_char(w as int % 16),
    ]
}

/// A name followed by a 16-bit value in hexadecimal: `name(0x0800)`.
pub open spec fn labelled_hex(name: Seq<char>, w: u16) -> Seq<char> {
    name + seq!['(', '0', 'x'] + hex4(w) + seq![')']
}

/// The one-character string of the hexadecimal digit `d`.
fn hex_digit_str(d: u16) -> (res: &'static str)
    requires
        d < 16,
    ensures
        res@ == seq![hex_char(d as int)],
{
    proof {
        reveal_strlit("0");
        reveal_strlit("1");
        reveal_strlit("2");
        reveal_strlit("3");
        reveal_strlit("4");
        reveal_strlit("5");
        reveal_strlit("6");
        reveal_strlit("7");
        reveal_strlit("8");
        reveal_strlit("9");
        reveal_strlit("a");
        reveal_strlit("b");
        reveal_strlit("c");
        reveal_strlit("d");
        reveal_strlit("e");
        reveal_strlit("f");
    }
    match d {
        0 => "0",
        1 => "1",
        2 => "2",
        3 => "3",
        4 => "4",
        5 => "5",
        6 => "6",
        7 => "7",
        8 => "8",
        9 => "9",
        10 => "a",
        11 => "b",
        12 => "c",
        13 => "d",
        14 => "e",
        _ => "f",
    }
}

/// Appends `w` to `s` as four lowercase hexadecimal digits.
pub fn push_hex4(s: &mut String, w: u16)
    ensures
        final(s)@ == old(s)@ + hex4(w),
{
    s.append(hex_digit_str(w / 0x1000));
    s.append(hex_digit_str(w / 0x100 % 16));
    s.append(hex_digit_str(w / 0x10 % 16));
    s.append(hex_digit_str(w % 16));
    assert(s@ =~= old(s)@ + hex4(w));
}

/// `name(0x....)`: a name and a 16-bit value in hexadecimal.
pub fn fmt_labelled_hex(name: &str, w: u16) -> (res: String)
    ensures
        res@ == labelled_hex(name@, w),
{
    let mut res = String::from_str(name);
    let open = "(0x";
    let close = ")";
    proof {
        reveal_strlit("(0x");
        reveal_strlit(")");
    }
    res.append(open);
    push_hex4(&mut res, w);
    res.append(close);
    assert(res@ =~= labelled_hex(name@, w));
    res
}

/// `b` as two lowercase hexadecimal digits.
pub open spec fn hex2(b: u8) -> Seq<char> {
    seq![hex_char(b as int / 16), hex_char(b as int % 16)]
}

/// `n` in decimal, without leading zeros, as `Display` writes it.
pub open spec fn dec_u8(n: u8) -> Seq<char> {
    if n < 10 {
        seq![hex_char(n as int)]
    } else if n < 100 {
        seq![hex_char(n as int / 10), hex_char(n as int % 10)]
    } else {
        seq![hex_char(n as int / 100), hex_char(n as int / 10 % 10), hex_char(n as int % 10)]
    }
}

/// Appends `b` to `s` as two lowercase hexadecimal digits.
pub fn push_hex2(s: &mut String, b: u8)
    ensures
        final(s)@ == old(s)@ + hex2(b),
{
    let w = b as u16;
    s.append(hex_digit_str(w / 16));
    s.append(hex_digit_str(w % 16));
    assert(s@ =~= old(s)@ + hex2(b));
}

/// Appends `n` to `s` in decimal.
pub fn push_dec_u8(s: &mut String, n: u8)
    ensures
        final(s)@ == old(s)@ + dec_u8(n),
{
    let w = n as u16;
    if w >= 100 {
        s.append(hex_digit_str(w / 100));
    }
    if w >= 10 {
        s.append(hex_digit_str(w / 10 % 10));
    }
    s.append(hex_digit_str(w % 10));
    assert(s@ =~= old(s)@ + dec_u8(n));
}

/// `n` in decimal, without leading zeros, as `Display` writes it.
pub open spec fn dec_u16(n: u16) -> Seq<char>
    decreases n,
{
    if n < 10 {
        seq![hex_char(n as int)]
    } else {
        dec_u16(n / 10).push(hex_char(n as int % 10))
    }
}

/// Appends `n` to `s` in decimal.
pub fn push_dec_u16(s: &mut String, n: u16)
    ensures
        final(s)@ == old(s)@ + dec_u16(n),
    decreases n,
{
    if n >= 10 {
        push_dec_u16(s, n / 10);
    }
    s.append(hex_digit_str(n % 10));
    assert(s@ =~= old(s)@ + dec_u16(n));
}

/// The views of a sequence of strings.
pub open spec fn views(v: Seq<String>) -> Seq<Seq<char>> {
    v.map_values(|t: String| t@)
}

/// A string holding `prefix` followed by `rest`.
pub fn joined(prefix: &str, rest: &str) -> (res: String)
    ensures
        res@ == prefix@ + rest@,
{
    let mut res = String::from_str(prefix);
    res.append(rest);
    res
}

/// A line made of `label` and `n` in decimal.
pub fn dec_u8_line(label: &str, n: u8) -> (res: String)
    ensures
        res@ == label@ + dec_u8(n),
{
    let mut line = String::from_str(label);
    push_dec_u8(&mut line, n);
    line
}

/// A line made of `label` and `n` in decimal.
pub fn dec_u16_line(label: &str, n: u16) -> (res: String)
    ensures
        res@ == label@ + dec_u16(n),
{
    let mut line = String::from_str(label);
    push_dec_u16(&mut line, n);
    line
}

/// A line made of `label` and `w` as four hexadecimal digits.
pub fn hex4_line(label: &str, w: u16) -> (res: String)
    ensures
        res@ == label@ + hex4(w),
{
    let mut line = String::from_str(label);
    push_hex4(&mut line, w);
    line
}

} // verus!
