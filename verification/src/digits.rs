//! Numbers written as text and as bytes: decimal, fixed-width lowercase hexadecimal, and
//! big-endian bytes, each with the reading that undoes it.
use crate::text::push_char;
use vstd::arithmetic::div_mod::lemma_mod_breakdown;
use vstd::prelude::*;
use vstd::string::*;

verus! {

/// `b` raised to `e`.
pub open spec fn power(b: nat, e: nat) -> nat
    decreases e,
{
    if e == 0 {
        1
    } else {
        b * power(b, (e - 1) as nat)
    }
}

/// The character of the decimal digit `d`.
pub open spec fn dec_char(d: nat) -> char {
    ((d + 48) as u8) as char
}

/// `n` in decimal, without leading zeros.
pub open spec fn decimal(n: nat) -> Seq<char>
    decreases n,
{
    if n < 10 {
        seq![dec_char(n)]
    } else {
        decimal(n / 10).push(dec_char(n % 10))
    }
}

/// `n` in decimal, with a leading `-` when negative.
pub open spec fn signed_decimal(n: int) -> Seq<char> {
    if n < 0 {
        seq!['-'] + decimal((-n) as nat)
    } else {
        decimal(n as nat)
    }
}

/// The character of the lowercase hexadecimal digit `d`.
pub open spec fn hex_char(d: nat) -> char {
    if d < 10 {
        ((d + 48) as u8) as char
    } else {
        ((d + 87) as u8) as char
    }
}

/// The last `w` hexadecimal digits of `n`, lowercase, zero-padded.
pub open spec fn hex_fixed(n: nat, w: nat) -> Seq<char>
    decreases w,
{
    if w == 0 {
        Seq::empty()
    } else {
        hex_fixed(n / 16, (w - 1) as nat).push(hex_char(n % 16))
    }
}

/// The last `w` bytes of `n`, most significant first.
pub open spec fn be_bytes(n: nat, w: nat) -> Seq<u8>
    decreases w,
{
    if w == 0 {
        Seq::empty()
    } else {
        be_bytes(n / 256, (w - 1) as nat).push((n % 256) as u8)
    }
}

/// The number bytes write most significant first.
pub open spec fn be_value(s: Seq<u8>) -> nat
    decreases s.len(),
{
    if s.len() == 0 {
        0
    } else {
        be_value(s.drop_last()) * 256 + s.last() as nat
    }
}

fn push_decimal(out: &mut String, n: u64)
    ensures
        final(out)@ == old(out)@ + decimal(n as nat),
    decreases n,
{
    if n >= 10 {
        push_decimal(out, n / 10);
    }
    let d = (n % 10) as u8;
    let c = (d + 48) as char;
    push_char(out, c);
}

/// `n` in decimal.
pub fn decimal_u64(n: u64) -> (r: String)
    ensures
        r@ == decimal(n as nat),
{
    let mut out = String::new();
    push_decimal(&mut out, n);
    out
}

/// `n` in decimal, with a leading `-` when negative.
pub fn decimal_i64(n: i64) -> (r: String)
    ensures
        r@ == signed_decimal(n as int),
{
    if n < 0 {
        let magnitude: u64 = if n == i64::MIN {
            9223372036854775808
        } else {
            (-n) as u64
        };
        let mut out = String::new();
        push_char(&mut out, '-');
        push_decimal(&mut out, magnitude);
        out
    } else {
        decimal_u64(n as u64)
    }
}

fn push_hex(out: &mut String, n: u128, w: u32)
    ensures
        final(out)@ == old(out)@ + hex_fixed(n as nat, w as nat),
    decreases w,
{
    if w > 0 {
        push_hex(out, n / 16, w - 1);
        let d = (n % 16) as u8;
        let c = if d < 10 {
            (d + 48) as char
        } else {
            (d + 87) as char
        };
        push_char(out, c);
    } else {
        assert(old(out)@ + hex_fixed(n as nat, 0) =~= old(out)@);
    }
}

/// `n` as 32 lowercase hexadecimal digits, zero-padded.
pub fn hex32(n: u128) -> (r: String)
    ensures
        r@ == hex_fixed(n as nat, 32),
{
    let mut out = String::new();
    push_hex(&mut out, n, 32);
    assert(Seq::<char>::empty() + hex_fixed(n as nat, 32) =~= hex_fixed(n as nat, 32));
    out
}

fn push_be(out: &mut Vec<u8>, n: u128, w: u32)
    ensures
        final(out)@ == old(out)@ + be_bytes(n as nat, w as nat),
    decreases w,
{
    if w > 0 {
        push_be(out, n / 256, w - 1);
        out.push((n % 256) as u8);
    } else {
        assert(old(out)@ + be_bytes(n as nat, 0) =~= old(out)@);
    }
}

/// The 16 bytes of `n`, most significant first.
pub fn be_bytes_u128(n: u128) -> (r: Vec<u8>)
    ensures
        r@ == be_bytes(n as nat, 16),
{
    let mut out: Vec<u8> = Vec::new();
    push_be(&mut out, n, 16);
    assert(Seq::<u8>::empty() + be_bytes(n as nat, 16) =~= be_bytes(n as nat, 16));
    out
}

proof fn lemma_be_value_bound(s: Seq<u8>)
    ensures
        be_value(s) < power(256, s.len()),
    decreases s.len(),
{
    if s.len() > 0 {
        lemma_be_value_bound(s.drop_last());
        let v = be_value(s.drop_last());
        let p = power(256, (s.len() - 1) as nat);
        let b = s.last();
        assert(v * 256 + b < p * 256) by (nonlinear_arith)
            requires
                v < p,
                b < 256,
        ;
    }
}

proof fn lemma_power_16_bytes()
    ensures
        power(256, 16) == 0x1_0000_0000_0000_0000_0000_0000_0000_0000,
        power(16, 32) == 0x1_0000_0000_0000_0000_0000_0000_0000_0000,
{
    reveal_with_fuel(power, 33);
}

/// The number 16 bytes write most significant first.
pub fn be_u128(bytes: &[u8]) -> (r: u128)
    requires
        bytes@.len() == 16,
    ensures
        r == be_value(bytes@),
{
    let mut acc: u128 = 0;
    let mut i: usize = 0;
    proof {
        lemma_power_16_bytes();
    }
    while i < 16
        invariant
            bytes@.len() == 16,
            i <= 16,
            acc == be_value(bytes@.subrange(0, i as int)),
            power(256, 16) == 0x1_0000_0000_0000_0000_0000_0000_0000_0000,
        decreases 16 - i,
    {
        let ghost pre = bytes@.subrange(0, i + 1);
        assert(pre.drop_last() =~= bytes@.subrange(0, i as int));
        proof {
            lemma_be_value_bound(bytes@);
            lemma_be_value_prefix(bytes@, i + 1);
        }
        acc = acc * 256 + bytes[i] as u128;
        i = i + 1;
    }
    assert(bytes@.subrange(0, 16) =~= bytes@);
    acc
}

proof fn lemma_be_value_prefix(s: Seq<u8>, k: int)
    requires
        0 <= k <= s.len(),
    ensures
        be_value(s.subrange(0, k)) <= be_value(s),
    decreases s.len() - k,
{
    if k < s.len() {
        lemma_be_value_prefix(s, k + 1);
        let p = s.subrange(0, k + 1);
        assert(p.drop_last() =~= s.subrange(0, k));
        let v = be_value(s.subrange(0, k));
        assert(v <= v * 256 + p.last()) by (nonlinear_arith)
            requires
                v >= 0,
                p.last() >= 0,
        ;
    } else {
        assert(s.subrange(0, k) =~= s);
    }
}

proof fn lemma_be_roundtrip(n: nat, w: nat)
    ensures
        be_value(be_bytes(n, w)) == n % power(256, w),
    decreases w,
{
    if w == 0 {
    } else {
        lemma_be_roundtrip(n / 256, (w - 1) as nat);
        let p = power(256, (w - 1) as nat);
        assert(p > 0) by {
            lemma_power_positive(256, (w - 1) as nat);
        }
        lemma_mod_breakdown(n as int, 256, p as int);
        assert(be_bytes(n, w).drop_last() == be_bytes(n / 256, (w - 1) as nat));
        assert(power(256, w) == 256 * p);
    }
}

proof fn lemma_power_positive(b: nat, e: nat)
    requires
        b > 0,
    ensures
        power(b, e) > 0,
    decreases e,
{
    if e > 0 {
        lemma_power_positive(b, (e - 1) as nat);
        let p = power(b, (e - 1) as nat);
        assert(b * p > 0) by (nonlinear_arith)
            requires
                b > 0,
                p > 0,
        ;
    }
}

/// Reading back the 16 big-endian bytes of a `u128` gives the number again.
pub proof fn lemma_be_bytes_roundtrip(n: u128)
    ensures
        be_bytes(n as nat, 16).len() == 16,
        be_value(be_bytes(n as nat, 16)) == n,
{
    lemma_be_roundtrip(n as nat, 16);
    lemma_power_16_bytes();
    lemma_be_len(n as nat, 16);
}

proof fn lemma_be_len(n: nat, w: nat)
    ensures
        be_bytes(n, w).len() == w,
    decreases w,
{
    if w > 0 {
        lemma_be_len(n / 256, (w - 1) as nat);
    }
}

/// Whether `c` is an ASCII decimal digit.
pub open spec fn is_dec_digit(c: char) -> bool {
    '0' <= c && c <= '9'
}

/// Whether `c` is a digit of base `radix` (10 or 16, either case).
pub open spec fn is_radix_digit(c: char, radix: nat) -> bool {
    is_dec_digit(c) || (radix == 16 && (('a' <= c && c <= 'f') || ('A' <= c && c <= 'F')))
}

/// The value of the digit `c`.
pub open spec fn digit_value(c: char) -> int {
    if is_dec_digit(c) {
        c as int - '0' as int
    } else if 'a' <= c && c <= 'f' {
        c as int - 'a' as int + 10
    } else {
        c as int - 'A' as int + 10
    }
}

/// The number the digits `s` write in base `radix`.
pub open spec fn digits_value(s: Seq<char>, radix: nat) -> int
    decreases s.len(),
{
    if s.len() == 0 {
        0
    } else {
        digits_value(s.drop_last(), radix) * radix + digit_value(s.last())
    }
}

/// Whether `s` is a non-empty run of digits of base `radix`.
pub open spec fn all_digits(s: Seq<char>, radix: nat) -> bool {
    s.len() > 0 && forall|i: int| 0 <= i < s.len() ==> is_radix_digit(#[trigger] s[i], radix)
}

/// The number an optionally signed numeral writes, as integer `parse` and
/// `from_str_radix` read it: an optional `+` (or `-` where `signed`), then digits.
pub open spec fn numeral_value(s: Seq<char>, radix: nat, signed: bool) -> Option<int> {
    let negative = signed && s.len() > 0 && s[0] == '-';
    let body = if s.len() > 0 && (s[0] == '+' || negative) {
        s.drop_first()
    } else {
        s
    };
    if all_digits(body, radix) {
        Some(
            if negative {
                -digits_value(body, radix)
            } else {
                digits_value(body, radix)
            },
        )
    } else {
        None
    }
}

/// An `i64` written in decimal, as `str::parse::<i64>` reads it.
pub open spec fn parse_i64(s: Seq<char>) -> Option<i64> {
    match numeral_value(s, 10, true) {
        Some(v) => if i64::MIN <= v <= i64::MAX {
            Some(v as i64)
        } else {
            None
        },
        None => None,
    }
}

/// A `u128` written in base `radix`, as `u128::from_str_radix` reads it.
pub open spec fn parse_u128(s: Seq<char>, radix: nat) -> Option<u128> {
    match numeral_value(s, radix, false) {
        Some(v) => if 0 <= v <= u128::MAX {
            Some(v as u128)
        } else {
            None
        },
        None => None,
    }
}

proof fn lemma_digits_nonneg(s: Seq<char>, radix: nat)
    requires
        forall|k: int| 0 <= k < s.len() ==> is_radix_digit(#[trigger] s[k], radix),
    ensures
        0 <= digits_value(s, radix),
    decreases s.len(),
{
    if s.len() > 0 {
        lemma_digits_nonneg(s.drop_last(), radix);
        assert(is_radix_digit(s[s.len() - 1], radix));
        let v = digits_value(s.drop_last(), radix);
        assert(v * radix >= 0) by (nonlinear_arith)
            requires
                v >= 0,
        ;
    }
}

/// Adding digits never makes a number smaller.
proof fn lemma_digits_grow(s: Seq<char>, radix: nat, i: int, j: int)
    requires
        0 <= i <= j <= s.len(),
        radix >= 1,
        forall|k: int| 0 <= k < s.len() ==> is_radix_digit(#[trigger] s[k], radix),
    ensures
        0 <= digits_value(s.subrange(0, i), radix) <= digits_value(s.subrange(0, j), radix),
    decreases j,
{
    if i == j {
        lemma_digits_nonneg(s.subrange(0, i), radix);
    } else {
        lemma_digits_grow(s, radix, i, j - 1);
        let p = s.subrange(0, j);
        assert(p.drop_last() =~= s.subrange(0, j - 1));
        assert(is_radix_digit(s[j - 1], radix));
        let v = digits_value(s.subrange(0, j - 1), radix);
        assert(v * radix >= v) by (nonlinear_arith)
            requires
                v >= 0,
                radix >= 1,
        ;
    }
}

fn is_radix_digit_exec(c: char, radix: u32) -> (r: bool)
    requires
        radix == 10 || radix == 16,
    ensures
        r == is_radix_digit(c, radix as nat),
{
    ('0' <= c && c <= '9') || (radix == 16 && (('a' <= c && c <= 'f') || ('A' <= c && c <= 'F')))
}

fn digit_value_exec(c: char, radix: u32) -> (r: u32)
    requires
        radix == 10 || radix == 16,
        is_radix_digit(c, radix as nat),
    ensures
        r == digit_value(c),
        r < radix,
{
    let n = c as u32;
    if '0' <= c && c <= '9' {
        n - ('0' as u32)
    } else if 'a' <= c && c <= 'f' {
        n - ('a' as u32) + 10
    } else {
        n - ('A' as u32) + 10
    }
}

/// The digits of `s` from position `start` read in base `radix`, if they are all digits and
/// the number stays within `u128`.
fn digits_u128(s: &str, start: usize, radix: u32) -> (r: Option<u128>)
    requires
        radix == 10 || radix == 16,
        start <= s@.len(),
    ensures
        match r {
            Some(v) => all_digits(s@.subrange(start as int, s@.len() as int), radix as nat)
                && v == digits_value(s@.subrange(start as int, s@.len() as int), radix as nat),
            None => !all_digits(s@.subrange(start as int, s@.len() as int), radix as nat)
                || digits_value(s@.subrange(start as int, s@.len() as int), radix as nat)
                > u128::MAX,
        },
{
    let n = s.unicode_len();
    let ghost body = s@.subrange(start as int, n as int);
    if start >= n {
        return None;
    }
    let mut acc: u128 = 0;
    let mut i: usize = start;
    assert(body.subrange(0, 0).len() == 0);
    while i < n
        invariant
            n == s@.len(),
            start < n,
            start <= i <= n,
            radix == 10 || radix == 16,
            body == s@.subrange(start as int, n as int),
            forall|k: int| 0 <= k < i - start ==> is_radix_digit(#[trigger] body[k], radix as nat),
            acc == digits_value(body.subrange(0, i - start), radix as nat),
        decreases n - i,
    {
        let c = s.get_char(i);
        assert(c == body[i - start]);
        if !is_radix_digit_exec(c, radix) {
            return None;
        }
        let d = digit_value_exec(c, radix);
        assert(body.subrange(0, i - start + 1).drop_last() =~= body.subrange(0, i - start));
        let ghost upto = (i - start + 1) as int;
        let grown = acc.checked_mul(radix as u128);
        let next = match grown {
            None => None,
            Some(m) => m.checked_add(d as u128),
        };
        match next {
            None => {
                proof {
                    if all_digits(body, radix as nat) {
                        lemma_digits_grow(body, radix as nat, upto, body.len() as int);
                        assert(body.subrange(0, body.len() as int) =~= body);
                    }
                }
                return None;
            },
            Some(v) => {
                acc = v;
            },
        }
        i = i + 1;
    }
    assert(body.subrange(0, n - start) =~= body);
    Some(acc)
}

/// An `i64` written in decimal, as `str::parse::<i64>` reads it.
pub fn parse_i64_text(s: &str) -> (r: Option<i64>)
    ensures
        r == parse_i64(s@),
{
    let n = s.unicode_len();
    if n == 0 {
        return None;
    }
    let first = s.get_char(0);
    let negative = first == '-';
    let start: usize = if first == '+' || negative {
        1
    } else {
        0
    };
    proof {
        if start == 1 {
            assert(s@.drop_first() =~= s@.subrange(1, n as int));
        } else {
            assert(s@ =~= s@.subrange(0, n as int));
        }
    }
    match digits_u128(s, start, 10) {
        None => None,
        Some(v) => {
            if negative {
                if v <= 9223372036854775808 {
                    if v == 9223372036854775808 {
                        Some(i64::MIN)
                    } else {
                        let m: i64 = v as i64;
                        Some(-m)
                    }
                } else {
                    None
                }
            } else if v <= 9223372036854775807 {
                Some(v as i64)
            } else {
                None
            }
        },
    }
}

/// A `u128` written in base `radix` (10 or 16), as `u128::from_str_radix` reads it.
pub fn parse_u128_text(s: &str, radix: u32) -> (r: Option<u128>)
    requires
        radix == 10 || radix == 16,
    ensures
        r == parse_u128(s@, radix as nat),
{
    let n = s.unicode_len();
    if n == 0 {
        return None;
    }
    let start: usize = if s.get_char(0) == '+' {
        1
    } else {
        0
    };
    proof {
        if start == 1 {
            assert(s@.drop_first() =~= s@.subrange(1, n as int));
        } else {
            assert(s@ =~= s@.subrange(0, n as int));
        }
    }
    digits_u128(s, start, radix)
}

proof fn lemma_hex_char(d: nat)
    requires
        d < 16,
    ensures
        is_radix_digit(hex_char(d), 16),
        digit_value(hex_char(d)) == d,
{
}

proof fn lemma_hex_roundtrip(n: nat, w: nat)
    ensures
        hex_fixed(n, w).len() == w,
        forall|i: int| 0 <= i < w ==> is_radix_digit(#[trigger] hex_fixed(n, w)[i], 16),
        digits_value(hex_fixed(n, w), 16) == n % power(16, w),
    decreases w,
{
    if w > 0 {
        lemma_hex_roundtrip(n / 16, (w - 1) as nat);
        lemma_hex_char(n % 16);
        let p = power(16, (w - 1) as nat);
        assert(p > 0) by {
            lemma_power_positive(16, (w - 1) as nat);
        }
        lemma_mod_breakdown(n as int, 16, p as int);
        let h = hex_fixed(n, w);
        assert(h.drop_last() == hex_fixed(n / 16, (w - 1) as nat));
        assert(power(16, w) == 16 * p);
        assert forall|i: int| 0 <= i < w implies is_radix_digit(#[trigger] h[i], 16) by {
            if i < w - 1 {
                assert(h[i] == hex_fixed(n / 16, (w - 1) as nat)[i]);
            }
        }
    }
}

/// Reading back the 32 hexadecimal digits of a `u128` gives the number again.
pub proof fn lemma_hex32_roundtrip(n: u128)
    ensures
        all_digits(hex_fixed(n as nat, 32), 16),
        hex_fixed(n as nat, 32).len() == 32,
        digits_value(hex_fixed(n as nat, 32), 16) == n,
{
    lemma_hex_roundtrip(n as nat, 32);
    lemma_power_16_bytes();
}

/// Every character of a number's decimal text is a digit, and together they write it.
proof fn lemma_decimal_digits(n: nat)
    ensures
        all_digits(decimal(n), 10),
        digits_value(decimal(n), 10) == n,
    decreases n,
{
    if n < 10 {
        let s = decimal(n);
        assert(s.drop_last() =~= Seq::<char>::empty());
        assert(dec_char(n) as int == n + 48);
        assert(s.last() == dec_char(n));
        assert(digit_value(s.last()) == n);
        assert(digits_value(s, 10) == digits_value(s.drop_last(), 10) * 10 + digit_value(s.last()));
    } else {
        lemma_decimal_digits(n / 10);
        let s = decimal(n);
        let d = (n % 10) as nat;
        assert(dec_char(d) as int == d + 48);
        assert(s.drop_last() =~= decimal(n / 10));
        assert(s.last() == dec_char(d));
        assert(digit_value(s.last()) == d);
        assert(digits_value(s, 10) == digits_value(decimal(n / 10), 10) * 10 + digit_value(s.last()));
        assert((n / 10) * 10 + d == n);
        assert forall|i: int| 0 <= i < s.len() implies is_radix_digit(#[trigger] s[i], 10) by {
            if i < s.len() - 1 {
                assert(s[i] == decimal(n / 10)[i]);
            }
        }
    }
}

/// A number's decimal text reads back, as `u128::from_str_radix(_, 10)` reads it, as that
/// number.
pub proof fn lemma_decimal_reads_back(n: nat)
    requires
        n <= u128::MAX,
    ensures
        parse_u128(decimal(n), 10) == Some(n as u128),
{
    lemma_decimal_digits(n);
    let s = decimal(n);
    assert(is_radix_digit(s[0], 10));
}

} // verus!
