use vstd::prelude::*;

verus! {

/// The `i`-th 16-bit word of `s`, read big-endian; a lone last byte is the
/// high byte of a word whose low byte is zero.
pub open spec fn word_at(s: Seq<u8>, i: int) -> int {
    if 2 * i + 1 < s.len() {
        s[2 * i] * 256 + s[2 * i + 1]
    } else {
        s[2 * i] * 256
    }
}

/// How many 16-bit words `s` is read as.
pub open spec fn word_count(s: Seq<u8>) -> nat {
    ((s.len() + 1) / 2) as nat
}

/// The sum of the first `n` words of `s`, as an unbounded integer.
pub open spec fn words_sum(s: Seq<u8>, n: nat) -> int
    decreases n,
{
    if n == 0 {
        0
    } else {
        words_sum(s, (n - 1) as nat) + word_at(s, n - 1)
    }
}

/// The sum of all the words of `s`.
pub open spec fn word_sum(s: Seq<u8>) -> int {
    words_sum(s, word_count(s))
}

/// Folds a 32-bit sum to 16 bits by adding the carries back in twice, as
/// ones'-complement addition does.
pub open spec fn fold_carries(x: int) -> int {
    let a = x / 0x10000 + x % 0x10000;
    let b = a + a / 0x10000;
    b % 0x10000
}

/// The Internet checksum of `s`: the words are summed in a 32-bit register
/// that wraps, the carries are folded back in, and the ones' complement of
/// the low 16 bits is the result.
pub open spec fn internet_checksum(s: Seq<u8>) -> u16 {
    (0xffff - fold_carries(word_sum(s) % 0x1_0000_0000)) as u16
}

proof fn lemma_word_bounds(s: Seq<u8>, i: int)
    requires
        0 <= i < word_count(s),
    ensures
        0 <= word_at(s, i) <= 0xffff,
{
}

proof fn lemma_words_sum_bounds(s: Seq<u8>, n: nat)
    requires
        n <= word_count(s),
    ensures
        0 <= words_sum(s, n) <= 0xffff * n,
    decreases n,
{
    if n > 0 {
        lemma_words_sum_bounds(s, (n - 1) as nat);
        lemma_word_bounds(s, n - 1);
    }
}

/// Computes the Internet checksum of `data`.
pub fn _calc_checksum(data: &[u8]) -> (res: u16)
    ensures
        res == internet_checksum(data@),
{
    let len = data.len();
    let words = len / 2 + len % 2;
    let mut sum: u32 = 0;
    let mut k: usize = 0;
    while k < words
        invariant
            len == data@.len(),
            words == word_count(data@),
            k <= words,
            sum == words_sum(data@, k as nat) % 0x1_0000_0000,
        decreases words - k,
    {
        let i = 2 * k;
        let high = data[i] as u32;
        let word: u32 = if i + 1 < len {
            let low = data[i + 1] as u32;
            assert(high << 8 | low == high * 256 + low) by (bit_vector)
                requires
                    high < 256,
                    low < 256,
            ;
            high << 8 | low
        } else {
            assert(high << 8 == high * 256) by (bit_vector)
                requires
                    high < 256,
            ;
            high << 8
        };
        assert(word == word_at(data@, k as int));
        proof {
            let prev = words_sum(data@, k as nat);
            assert(words_sum(data@, (k + 1) as nat) == prev + word);
            lemma_words_sum_bounds(data@, k as nat);
            vstd::arithmetic::div_mod::lemma_add_mod_noop(prev, word as int, 0x1_0000_0000);
            vstd::arithmetic::div_mod::lemma_small_mod(word as nat, 0x1_0000_0000);
            let t = sum + word;
            assert(t >= 0x1_0000_0000 ==> t % 0x1_0000_0000 == t - 0x1_0000_0000) by (nonlinear_arith)
                requires t < 0x2_0000_0000;
            assert(t < 0x1_0000_0000 ==> t % 0x1_0000_0000 == t) by (nonlinear_arith)
                requires t >= 0;
        }
        sum = sum.wrapping_add(word);
        k = k + 1;
    }
    let x = sum;
    let folded = (x >> 16).wrapping_add(x & 0x0000FFFF);
    let carried = folded.wrapping_add(folded >> 16);
    let res = !(carried as u16);
    assert(res == 0xffff - ((x / 0x10000 + x % 0x10000) + (x / 0x10000 + x % 0x10000) / 0x10000)
        % 0x10000) by (bit_vector)
        requires
            folded == (x >> 16).wrapping_add(x & 0x0000FFFF),
            carried == folded.wrapping_add(folded >> 16),
            res == !(carried as u16),
    ;
    res
}

} // verus!

verus! {

/// `s` with its `m`-th word replaced by `w`, written big-endian.
pub open spec fn set_word(s: Seq<u8>, m: int, w: u16) -> Seq<u8> {
    s.update(2 * m, (w / 256) as u8).update(2 * m + 1, (w % 256) as u8)
}

proof fn lemma_fold_carries(x: int)
    requires
        0 <= x < 0x1_0000_0000,
    ensures
        0 <= fold_carries(x) <= 0xffff,
        (x - fold_carries(x)) % 0xffff == 0,
        x != 0 ==> fold_carries(x) != 0,
{
    let hi = x / 0x10000;
    let lo = x % 0x10000;
    assert(x == 0x10000 * hi + lo && 0 <= lo < 0x10000 && 0 <= hi < 0x10000) by (nonlinear_arith)
        requires
            0 <= x < 0x1_0000_0000,
            hi == x / 0x10000,
            lo == x % 0x10000,
    ;
    let a = hi + lo;
    if a < 0x10000 {
        assert(fold_carries(x) == a) by (nonlinear_arith)
            requires
                a == x / 0x10000 + x % 0x10000,
                0 <= a < 0x10000,
        ;
        assert((x - a) % 0xffff == 0) by (nonlinear_arith)
            requires
                x - a == 0xffff * hi,
        ;
    } else {
        assert(a / 0x10000 == 1) by (nonlinear_arith)
            requires
                0x10000 <= a < 0x20000,
        ;
        vstd::arithmetic::div_mod::lemma_mod_multiples_vanish(1, a + 1 - 0x10000, 0x10000);
        vstd::arithmetic::div_mod::lemma_small_mod((a + 1 - 0x10000) as nat, 0x10000);
        assert(fold_carries(x) == a - 0xffff);
        assert((x - (a - 0xffff)) % 0xffff == 0) by (nonlinear_arith)
            requires
                x - (a - 0xffff) == 0xffff * (hi + 1),
        ;
    }
}

proof fn lemma_words_sum_set_word(s: Seq<u8>, m: int, w: u16, n: nat)
    requires
        0 <= m,
        2 * m + 1 < s.len(),
        n <= word_count(s),
    ensures
        words_sum(set_word(s, m, w), n) == words_sum(s, n) + (if n > m {
            w - word_at(s, m)
        } else {
            0
        }),
    decreases n,
{
    let t = set_word(s, m, w);
    if n > 0 {
        lemma_words_sum_set_word(s, m, w, (n - 1) as nat);
        let j = n - 1;
        if j == m {
            assert(word_at(t, j) == w) by (nonlinear_arith)
                requires
                    word_at(t, j) == (w / 256) as u8 * 256 + (w % 256) as u8,
            ;
        } else {
            assert(word_at(t, j) == word_at(s, j));
        }
    }
}

/// The sum of the words of `set_word(s, m, w)` differs from that of `s` by
/// what the word changed by.
proof fn lemma_word_sum_set_word(s: Seq<u8>, m: int, w: u16)
    requires
        0 <= m,
        2 * m + 1 < s.len(),
    ensures
        word_sum(set_word(s, m, w)) == word_sum(s) + w - word_at(s, m),
        0 <= word_sum(s) <= 0xffff * word_count(s),
{
    assert(word_count(set_word(s, m, w)) == word_count(s));
    lemma_words_sum_set_word(s, m, w, word_count(s));
    lemma_words_sum_bounds(s, word_count(s));
}

proof fn lemma_sum_small(s: Seq<u8>)
    requires
        s.len() <= 0x20000,
    ensures
        0 <= word_sum(s) <= 0xffff * 0x10000,
{
    lemma_words_sum_bounds(s, word_count(s));
    assert(0xffff * word_count(s) <= 0xffff * 0x10000) by (nonlinear_arith)
        requires
            word_count(s) <= 0x10000,
    ;
}

/// Writing the checksum of a sequence into one of its words that was zero
/// gives a sequence whose checksum is zero: this is how a receiver checks
/// a header that carries its own checksum.
pub proof fn lemma_checksum_insertion(s: Seq<u8>, m: int)
    requires
        0 <= m,
        2 * m + 1 < s.len(),
        s[2 * m] == 0,
        s[2 * m + 1] == 0,
    ensures
        internet_checksum(set_word(s, m, internet_checksum(s))) == 0,
{
    let c = internet_checksum(s);
    let t = set_word(s, m, c);
    lemma_word_sum_set_word(s, m, c);
    assert(word_at(s, m) == 0);
    let x = word_sum(s);
    let w = x % 0x1_0000_0000;
    assert(0 <= w < 0x1_0000_0000) by (nonlinear_arith)
        requires
            w == x % 0x1_0000_0000,
    ;
    lemma_fold_carries(w);
    let f = fold_carries(w);
    assert(c == 0xffff - f);
    let y = word_sum(t);
    assert(y == x + 0xffff - f);
    let v = w + 0xffff - f;
    assert(v % 0xffff == 0) by (nonlinear_arith)
        requires
            (w - f) % 0xffff == 0,
            v == (w - f) + 0xffff,
    ;
    let k = v / 0xffff;
    assert(v == 0xffff * k) by (nonlinear_arith)
        requires
            v % 0xffff == 0,
            k == v / 0xffff,
    ;
    assert(w == 0 ==> f == 0);
    assert(w != 0 ==> f != 0);
    // v is a multiple of 0xffff no larger than 0x1_0000_fffd, hence at most
    // 0xffff * 0x10001, which is 0xffff_ffff.
    assert(v <= 0x1_0000_fffd);
    if k > 0x10001 {
        vstd::arithmetic::mul::lemma_mul_inequality(0x10002, k, 0xffff);
        vstd::arithmetic::mul::lemma_mul_is_commutative(k, 0xffff);
        assert(0x10002int * 0xffff == 0x1_0000_fffe) by (nonlinear_arith);
    }
    vstd::arithmetic::mul::lemma_mul_inequality(k, 0x10001, 0xffff);
    vstd::arithmetic::mul::lemma_mul_is_commutative(k, 0xffff);
    assert(0x10001int * 0xffff == 0xffff_ffff) by (nonlinear_arith);
    assert(v < 0x1_0000_0000);
    assert(0 < v);
    assert(y % 0x1_0000_0000 == v) by (nonlinear_arith)
        requires
            w == x % 0x1_0000_0000,
            y == x + 0xffff - f,
            v == w + 0xffff - f,
            0 <= v < 0x1_0000_0000,
    ;
    lemma_fold_carries(v);
    let g = fold_carries(v);
    assert(g % 0xffff == 0) by (nonlinear_arith)
        requires
            (v - g) % 0xffff == 0,
            v % 0xffff == 0,
    ;
    assert(g == 0xffff);
}

/// Changing one word of a sequence changes its checksum by the opposite of
/// what the word changed by, in ones'-complement arithmetic: a router that
/// lowers the TTL can mend the checksum without summing the header again.
pub proof fn lemma_checksum_word_change(s: Seq<u8>, m: int, w: u16)
    requires
        0 <= m,
        2 * m + 1 < s.len(),
        s.len() <= 0x20000,
    ensures
        (internet_checksum(set_word(s, m, w)) - internet_checksum(s) - (word_at(s, m) - w))
            % 0xffff == 0,
{
    let t = set_word(s, m, w);
    lemma_sum_small(s);
    lemma_sum_small(t);
    lemma_word_sum_set_word(s, m, w);
    let x = word_sum(s);
    let y = word_sum(t);
    assert(x % 0x1_0000_0000 == x && y % 0x1_0000_0000 == y) by (nonlinear_arith)
        requires
            0 <= x < 0x1_0000_0000,
            0 <= y < 0x1_0000_0000,
    ;
    lemma_fold_carries(x);
    lemma_fold_carries(y);
    let f = fold_carries(x);
    let g = fold_carries(y);
    assert(internet_checksum(t) - internet_checksum(s) == f - g);
    assert((f - g - (x - y)) % 0xffff == 0) by (nonlinear_arith)
        requires
            (x - f) % 0xffff == 0,
            (y - g) % 0xffff == 0,
    ;
}

} // verus!

verus! {

/// Whether the `m`-th word of `s` holds the checksum of the first `len`
/// bytes of `s` taken with that word set to zero.
pub open spec fn checksum_matches(s: Seq<u8>, m: int, len: usize) -> bool {
    word_at(s, m) == internet_checksum(set_word(s, m, 0).take(len as int))
}

/// The total length that an IPv4 header states (its second word).
pub open spec fn ip_total_len(hdr: Seq<u8>) -> usize {
    word_at(hdr, 1) as usize
}

/// A checksum word that matches the rest makes the whole checksum zero.
pub proof fn lemma_valid_checksum_sums_to_zero(s: Seq<u8>, m: int, len: usize)
    requires
        0 <= m,
        2 * m + 1 < len <= s.len(),
        checksum_matches(s, m, len),
    ensures
        internet_checksum(s.take(len as int)) == 0,
{
    let z = set_word(s, m, 0).take(len as int);
    let c = internet_checksum(z);
    assert(z[2 * m] == 0 && z[2 * m + 1] == 0);
    lemma_checksum_insertion(z, m);
    let w = word_at(s, m);
    assert(s[2 * m] == w / 256 && s[2 * m + 1] == w % 256) by (nonlinear_arith)
        requires
            w == s[2 * m] * 256 + s[2 * m + 1],
            0 <= s[2 * m] < 256,
            0 <= s[2 * m + 1] < 256,
    ;
    assert(set_word(z, m, c) =~= s.take(len as int));
}

/// Computes the Internet checksum of the first `len` bytes of `data`.
pub fn calc_checksum(data: &[u8], len: usize) -> (res: u16)
    requires
        len <= data@.len(),
    ensures
        res == internet_checksum(data@.take(len as int)),
{
    let part = &data[0..len];
    assert(part@ =~= data@.take(len as int));
    _calc_checksum(part)
}

/// Checks the checksum word at index `m` of `buf` over its first `len` bytes:
/// the word is set to zero, the checksum is computed and compared with the
/// word, and the word is put back.
fn check_checksum_word(buf: &mut [u8], m: usize, len: usize) -> (res: bool)
    requires
        2 * m + 1 < old(buf)@.len(),
        len <= old(buf)@.len(),
    ensures
        final(buf)@ == old(buf)@,
        res == checksum_matches(old(buf)@, m as int, len),
{
    let ghost orig = buf@;
    let prev_high = buf[2 * m];
    let prev_low = buf[2 * m + 1];
    buf[2 * m] = 0;
    buf[2 * m + 1] = 0;
    proof {
        assert(buf@ =~= set_word(orig, m as int, 0));
    }
    let new_checksum = calc_checksum(buf, len);
    buf[2 * m] = prev_high;
    buf[2 * m + 1] = prev_low;
    proof {
        assert(buf@ =~= orig);
    }
    let prev_checksum = (prev_high as u16) * 256 + prev_low as u16;
    prev_checksum == new_checksum
}

/// Checks the checksum of the IPv4 header that `packet` starts with. The
/// checksum covers the 20 header bytes only, not the payload that follows;
/// `packet` is left as it was.
pub fn is_valid_ip_checksum(packet: &mut [u8]) -> (res: bool)
    requires
        old(packet)@.len() >= 20,
    ensures
        final(packet)@ == old(packet)@,
        res == checksum_matches(old(packet)@, 5, 20),
{
    check_checksum_word(packet, 5, 20)
}

/// Checks the checksum of the ICMP message that `msg` starts with, taken
/// over its first `len` bytes; `msg` is left as it was.
pub fn is_valid_icmp_checksum(msg: &mut [u8], len: usize) -> (res: bool)
    requires
        old(msg)@.len() >= 8,
        len <= old(msg)@.len(),
    ensures
        final(msg)@ == old(msg)@,
        res == checksum_matches(old(msg)@, 1, len),
{
    check_checksum_word(msg, 1, len)
}

} // verus!

verus! {

/// `w` (a 16-bit value) with its two bytes exchanged.
pub open spec fn swap16(w: int) -> int {
    (w % 256) * 256 + w / 256
}

/// `e` is `d` with the two bytes of every 16-bit word exchanged.
pub open spec fn words_byte_swapped(d: Seq<u8>, e: Seq<u8>) -> bool {
    &&& d.len() == e.len()
    &&& d.len() % 2 == 0
    &&& forall|i: int| 0 <= i < d.len() / 2 ==> e[2 * i] == d[2 * i + 1] && #[trigger] e[2 * i + 1] == d[2 * i]
}

proof fn lemma_swap16_word(w: int)
    requires
        0 <= w <= 0xffff,
    ensures
        0 <= swap16(w) <= 0xffff,
        (swap16(w) - 256 * w) % 0xffff == 0,
        swap16(w) == 0 <==> w == 0,
        swap16(0xffff - w) == 0xffff - swap16(w),
{
    let hi = w / 256;
    let lo = w % 256;
    assert(w == 256 * hi + lo && 0 <= lo < 256 && 0 <= hi < 256) by (nonlinear_arith)
        requires
            0 <= w <= 0xffff,
            hi == w / 256,
            lo == w % 256,
    ;
    assert(swap16(w) == lo * 256 + hi);
    assert((swap16(w) - 256 * w) % 0xffff == 0) by (nonlinear_arith)
        requires
            swap16(w) - 256 * w == -0xffff * hi,
    ;
    let v = 0xffff - w;
    assert(v / 256 == 255 - hi && v % 256 == 255 - lo) by (nonlinear_arith)
        requires
            v == 256 * (255 - hi) + (255 - lo),
            0 <= lo < 256,
            0 <= hi < 256,
    ;
}

proof fn lemma_words_sum_swapped(d: Seq<u8>, e: Seq<u8>, n: nat)
    requires
        words_byte_swapped(d, e),
        n <= word_count(d),
    ensures
        (words_sum(e, n) - 256 * words_sum(d, n)) % 0xffff == 0,
        words_sum(e, n) == 0 <==> words_sum(d, n) == 0,
    decreases n,
{
    if n > 0 {
        let j = n - 1;
        lemma_words_sum_swapped(d, e, j as nat);
        lemma_words_sum_bounds(d, j as nat);
        assert(word_count(e) == word_count(d));
        lemma_words_sum_bounds(e, j as nat);
        assert(2 * j + 1 < d.len());
        assert(e[2 * j + 1] == d[2 * j] && e[2 * j] == d[2 * j + 1]);
        let w = word_at(d, j);
        assert(word_at(e, j) == swap16(w)) by (nonlinear_arith)
            requires
                w == d[2 * j] * 256 + d[2 * j + 1],
                word_at(e, j) == d[2 * j + 1] * 256 + d[2 * j],
                0 <= d[2 * j] < 256,
                0 <= d[2 * j + 1] < 256,
        ;
        lemma_word_bounds(d, j);
        lemma_swap16_word(w);
        let a = words_sum(d, j as nat);
        let b = words_sum(e, j as nat);
        assert((b + swap16(w) - 256 * (a + w)) % 0xffff == 0) by (nonlinear_arith)
            requires
                (b - 256 * a) % 0xffff == 0,
                (swap16(w) - 256 * w) % 0xffff == 0,
        ;
    }
}

/// The Internet checksum does not depend on byte order: exchanging the two
/// bytes of every word exchanges the two bytes of the checksum.
pub proof fn lemma_checksum_byte_order(d: Seq<u8>, e: Seq<u8>)
    requires
        words_byte_swapped(d, e),
        d.len() <= 0x20000,
    ensures
        internet_checksum(e) == swap16(internet_checksum(d) as int),
{
    assert(word_count(e) == word_count(d));
    lemma_words_sum_swapped(d, e, word_count(d));
    lemma_sum_small(d);
    lemma_sum_small(e);
    let x = word_sum(d);
    let y = word_sum(e);
    assert(x % 0x1_0000_0000 == x && y % 0x1_0000_0000 == y) by (nonlinear_arith)
        requires
            0 <= x < 0x1_0000_0000,
            0 <= y < 0x1_0000_0000,
    ;
    lemma_fold_carries(x);
    lemma_fold_carries(y);
    let f = fold_carries(x);
    let g = fold_carries(y);
    assert(x == 0 ==> f == 0);
    assert(y == 0 ==> g == 0);
    lemma_swap16_word(f);
    let sf = swap16(f);
    assert((g - sf) % 0xffff == 0) by (nonlinear_arith)
        requires
            (x - f) % 0xffff == 0,
            (y - g) % 0xffff == 0,
            (y - 256 * x) % 0xffff == 0,
            (sf - 256 * f) % 0xffff == 0,
    ;
    assert(g == 0 <==> sf == 0);
    assert(g == sf) by (nonlinear_arith)
        requires
            (g - sf) % 0xffff == 0,
            0 <= g <= 0xffff,
            0 <= sf <= 0xffff,
            g == 0 <==> sf == 0,
    ;
    assert(internet_checksum(d) as int == 0xffff - f);
    assert(internet_checksum(e) as int == 0xffff - g);
}

} // verus!

verus! {

/// A checksum word is accepted exactly when it holds the checksum of the
/// covered bytes taken with that word zero: a message carrying the right
/// checksum over its first `len` bytes is accepted whatever `len` is, and
/// any other value in the word is refused.
pub proof fn lemma_checksum_matches_exactly_right_word(s: Seq<u8>, m: int, len: usize, w: u16)
    requires
        0 <= m,
        2 * m + 1 < s.len(),
        len <= s.len(),
    ensures
        checksum_matches(set_word(s, m, w), m, len) <==> w == internet_checksum(
            set_word(s, m, 0).take(len as int),
        ),
{
    let t = set_word(s, m, w);
    assert(set_word(t, m, 0) =~= set_word(s, m, 0));
    crate::util::bytes::lemma_be16_roundtrip(w);
    crate::util::bytes::lemma_be16_value((w / 256) as u8, (w % 256) as u8);
    assert(word_at(t, m) == t[2 * m] * 256 + t[2 * m + 1]);
}

} // verus!
