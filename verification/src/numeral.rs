//! Decimal numerals: writing and reading whole numbers, and writing quotients
//! with a fixed number of decimal places.

use vstd::prelude::*;
use vstd::string::*;
use vstd::utf8::*;

verus! {

/// The character of a decimal digit.
pub open spec fn digit_char(d: nat) -> char {
    if d == 0 {
        '0'
    } else if d == 1 {
        '1'
    } else if d == 2 {
        '2'
    } else if d == 3 {
        '3'
    } else if d == 4 {
        '4'
    } else if d == 5 {
        '5'
    } else if d == 6 {
        '6'
    } else if d == 7 {
        '7'
    } else if d == 8 {
        '8'
    } else {
        '9'
    }
}

/// The decimal numeral of `n`, without sign or leading zeros.
pub open spec fn decimal(n: nat) -> Seq<char>
    decreases n,
{
    if n < 10 {
        seq![digit_char(n)]
    } else {
        decimal(n / 10).push(digit_char(n % 10))
    }
}

/// The one-character string of the digit `d`.
fn digit_str(d: u64) -> (s: &'static str)
    requires
        d < 10,
    ensures
        s@ == seq![digit_char(d as nat)],
{
    proof {
        reveal_strlit("0");
        reveal_strlit("1");
        reveal_strlit("2");
        reveal_strlit("3");
        reveal_strlit("4");
        reveal_strlit("5");
        reveal_strlit("6");
        reveal_strlit("7");
        reveal_strlit("8");
        reveal_strlit("9");
    }
    let s = if d == 0 {
        "0"
    } else if d == 1 {
        "1"
    } else if d == 2 {
        "2"
    } else if d == 3 {
        "3"
    } else if d == 4 {
        "4"
    } else if d == 5 {
        "5"
    } else if d == 6 {
        "6"
    } else if d == 7 {
        "7"
    } else if d == 8 {
        "8"
    } else {
        "9"
    };
    assert(s@ =~= seq![digit_char(d as nat)]);
    s
}

/// Appends the decimal numeral of `n` to `s`.
pub fn push_decimal(s: &mut String, n: u64)
    ensures
        final(s)@ == old(s)@ + decimal(n as nat),
    decreases n,
{
    if n >= 10 {
        push_decimal(s, n / 10);
    }
    s.append(digit_str(n % 10));
    assert(s@ =~= old(s)@ + decimal(n as nat));
}

/// The decimal numeral of `n` as a string.
pub fn decimal_string(n: u64) -> (s: String)
    ensures
        s@ == decimal(n as nat),
{
    let mut s = String::new();
    push_decimal(&mut s, n);
    assert(s@ =~= decimal(n as nat));
    s
}

/// Whether a byte is a decimal digit.
pub open spec fn is_digit(byte: u8) -> bool {
    48 <= byte <= 57
}

/// Whether all of `bytes` are decimal digits.
pub open spec fn all_digits(bytes: Seq<u8>) -> bool {
    forall|i: int| 0 <= i < bytes.len() ==> is_digit(#[trigger] bytes[i])
}

/// The number that a digit stands for; 0 for any other byte.
pub open spec fn digit_value(byte: u8) -> nat {
    if is_digit(byte) {
        (byte - 48) as nat
    } else {
        0
    }
}

/// The number that a run of decimal digits stands for.
pub open spec fn digits_value(digits: Seq<u8>) -> nat
    decreases digits.len(),
{
    if digits.len() == 0 {
        0
    } else {
        digits_value(digits.drop_last()) * 10 + digit_value(digits.last())
    }
}

/// A numeral without the plus sign that may stand before it.
pub open spec fn unsigned_digits(bytes: Seq<u8>) -> Seq<u8> {
    if bytes.len() > 0 && bytes[0] == 43 {
        bytes.skip(1)
    } else {
        bytes
    }
}

/// The number that a decimal numeral stands for: an optional plus sign and at
/// least one digit, nothing else, and a value that 64 bits hold.
pub open spec fn parse_unsigned(bytes: Seq<u8>) -> Option<u64> {
    let digits = unsigned_digits(bytes);
    if digits.len() > 0 && all_digits(digits) && digits_value(digits) <= u64::MAX {
        Some(digits_value(digits) as u64)
    } else {
        None
    }
}

/// More digits do not make a smaller number.
proof fn lemma_digits_value_grows(digits: Seq<u8>, k: int)
    requires
        0 <= k <= digits.len(),
    ensures
        digits_value(digits.take(k)) <= digits_value(digits),
    decreases digits.len() - k,
{
    if k == digits.len() {
        assert(digits.take(k) =~= digits);
    } else {
        lemma_digits_value_grows(digits, k + 1);
        assert(digits.take(k + 1).drop_last() =~= digits.take(k));
    }
}

/// A decimal numeral is made of digits, one byte each, and stands for its
/// number.
proof fn lemma_decimal_bytes(n: nat)
    ensures
        is_ascii_chars(decimal(n)),
        encode_utf8(decimal(n)).len() == decimal(n).len(),
        decimal(n).len() > 0,
        all_digits(encode_utf8(decimal(n))),
        digits_value(encode_utf8(decimal(n))) == n,
    decreases n,
{
    let chars = decimal(n);
    let last = digit_char(n % 10);
    assert(48 <= last as u8 <= 57 && (last as u8 - 48) as nat == n % 10);
    if n < 10 {
        assert(is_ascii_chars(chars));
        is_ascii_chars_encode_utf8(chars);
        let bytes = encode_utf8(chars);
        assert(bytes[0] == chars[0] as u8);
        assert(bytes.drop_last() =~= Seq::<u8>::empty());
        assert(digits_value(bytes.drop_last()) == 0);
    } else {
        let head = decimal(n / 10);
        lemma_decimal_bytes(n / 10);
        assert(chars == head.push(last));
        assert forall|i: int| 0 <= i < chars.len() implies '\0' <= #[trigger] chars[i]
            <= '\u{7f}' by {
            if i < head.len() {
                assert(chars[i] == head[i]);
            }
        }
        is_ascii_chars_encode_utf8(chars);
        is_ascii_chars_encode_utf8(head);
        let bytes = encode_utf8(chars);
        let head_bytes = encode_utf8(head);
        assert(bytes.drop_last() =~= head_bytes) by {
            assert forall|i: int| 0 <= i < head_bytes.len() implies bytes.drop_last()[i]
                == head_bytes[i] by {
                assert(bytes[i] == chars[i] as u8);
                assert(head_bytes[i] == head[i] as u8);
                assert(chars[i] == head[i]);
            }
        }
        assert(bytes.last() == last as u8) by {
            assert(bytes[chars.len() - 1] == chars[chars.len() - 1] as u8);
        }
        assert forall|i: int| 0 <= i < bytes.len() implies is_digit(#[trigger] bytes[i]) by {
            if i < head_bytes.len() {
                assert(bytes.drop_last()[i] == bytes[i]);
            }
        }
    }
}

/// Reading the decimal numeral of a number gives the number back.
pub proof fn lemma_parse_decimal(n: u64)
    ensures
        parse_unsigned(encode_utf8(decimal(n as nat))) == Some(n),
{
    lemma_decimal_bytes(n as nat);
    let chars = decimal(n as nat);
    is_ascii_chars_encode_utf8(chars);
    let bytes = encode_utf8(chars);
    assert(is_digit(bytes[0]));
    assert(unsigned_digits(bytes) == bytes);
}

/// Reads a decimal numeral.
pub fn parse_u64(text: &str) -> (value: Option<u64>)
    ensures
        value == parse_unsigned(text.spec_bytes()),
{
    let bytes = text.as_bytes();
    let start: usize = if bytes.len() > 0 && bytes[0] == 43 {
        1
    } else {
        0
    };
    let ghost digits = unsigned_digits(bytes@);
    if start == bytes.len() {
        return None;
    }
    let mut value: u64 = 0;
    let mut at: usize = start;
    proof {
        assert(digits.take(0) =~= Seq::empty());
    }
    while at < bytes.len()
        invariant
            start <= at <= bytes.len(),
            bytes@ == text.spec_bytes(),
            digits == unsigned_digits(bytes@),
            digits.len() == bytes.len() - start,
            forall|j: int| 0 <= j < digits.len() ==> digits[j] == bytes@[j + start],
            all_digits(digits.take(at - start)),
            value == digits_value(digits.take(at - start)),
        decreases bytes.len() - at,
    {
        let byte = bytes[at];
        if byte < 48 || byte > 57 {
            proof {
                assert(!is_digit(digits[at - start]));
            }
            return None;
        }
        let digit = (byte - 48) as u64;
        proof {
            assert(digits.take(at - start + 1).drop_last() =~= digits.take(at - start));
            assert(digits.take(at - start + 1).last() == byte);
            assert forall|j: int| 0 <= j < at - start + 1 implies is_digit(
                #[trigger] digits.take(at - start + 1)[j],
            ) by {
                if j < at - start {
                    assert(digits.take(at - start)[j] == digits[j]);
                }
            }
        }
        assert(digits_value(digits.take(at - start + 1)) == value * 10 + digit);
        if value > (u64::MAX - digit) / 10 {
            proof {
                lemma_digits_value_grows(digits, at - start + 1);
            }
            return None;
        }
        value = value * 10 + digit;
        at += 1;
    }
    proof {
        assert(digits.take(at - start) =~= digits);
    }
    Some(value)
}

/// From this many bytes per second on a rate is given in KB.
pub const KIB: u64 = 1024;

/// From this many bytes per second on a rate is given in MB.
pub const MIB: u64 = 1048576;

/// The whole numbers below this are all held exactly by a double-precision
/// number; from it on only every second, fourth, eighth one is.
pub const DOUBLE_EXACT: u64 = 0x20_0000_0000_0000;

/// `n / d` to the nearest whole number, a half to the even neighbour.
pub open spec fn round_half_even(n: nat, d: nat) -> nat
    recommends
        d > 0,
{
    let q = n / d;
    let r = n % d;
    if 2 * r > d || (2 * r == d && q % 2 == 1) {
        q + 1
    } else {
        q
    }
}

/// The distance between the double-precision numbers around `n`.
pub open spec fn double_unit(n: nat) -> nat
    decreases n,
{
    if n < DOUBLE_EXACT {
        1
    } else {
        2 * double_unit(n / 2)
    }
}

/// The double-precision number nearest to `n`, which is what a rate is
/// divided as.
pub open spec fn nearest_double(n: nat) -> nat {
    round_half_even(n, double_unit(n)) * double_unit(n)
}

/// Below the limit every whole number is its own nearest double-precision
/// number.
pub proof fn lemma_nearest_double_exact(n: nat)
    requires
        n < DOUBLE_EXACT,
    ensures
        nearest_double(n) == n,
{
    assert(double_unit(n) == 1);
    assert(n / 1 == n && n % 1 == 0);
    let whole = round_half_even(n, double_unit(n));
    let unit = double_unit(n);
    assert(whole * unit == n) by (nonlinear_arith)
        requires
            whole == n,
            unit == 1,
    ;
}

/// A number of tenths as a numeral with one decimal place.
pub open spec fn one_decimal(tenths: nat) -> Seq<char> {
    decimal(tenths / 10) + "."@ + decimal(tenths % 10)
}

/// `n / d` to the nearest whole number, a half to the even neighbour.
fn rounded_quotient(n: u128, d: u128) -> (q: u128)
    requires
        0 < d <= 0x1000_0000,
        n <= 0x1_0000_0000_0000_0000_0000,
    ensures
        q == round_half_even(n as nat, d as nat),
        q * d <= n + d,
{
    let q = n / d;
    let r = n % d;
    proof {
        vstd::arithmetic::div_mod::lemma_fundamental_div_mod(n as int, d as int);
        assert((q + 1) * d == q * d + d) by (nonlinear_arith);
        assert(d * q == q * d) by (nonlinear_arith);
    }
    if 2 * r > d || (2 * r == d && q % 2 == 1) {
        q + 1
    } else {
        q
    }
}

/// The distance between the double-precision numbers around `n`.
fn unit_of(n: u64) -> (unit: u64)
    ensures
        unit == double_unit(n as nat),
        1 <= unit <= 0x1000,
        n >= DOUBLE_EXACT ==> unit * 0x10_0000_0000_0000 <= n,
    decreases n,
{
    if n < DOUBLE_EXACT {
        1
    } else {
        2 * unit_of(n / 2)
    }
}

/// `amount` in units of `divisor`, counted in tenths (`scale` 10) or in
/// hundredths (`scale` 100), as the division of the nearest double-precision
/// number gives them.
pub(crate) fn scaled_quotient(amount: u64, scale: u64, divisor: u64) -> (scaled: u64)
    requires
        scale == 10 || scale == 100,
        divisor == KIB || divisor == MIB,
    ensures
        scaled == round_half_even(nearest_double(amount as nat) * (scale as nat), divisor as nat),
{
    let unit = unit_of(amount);
    let whole = rounded_quotient(amount as u128, unit as u128);
    let nearest = whole * (unit as u128);
    assert(nearest * scale <= nearest * 100) by (nonlinear_arith)
        requires
            scale <= 100,
            nearest >= 0,
    ;
    let scaled = rounded_quotient(nearest * (scale as u128), divisor as u128);
    assert(scaled * 1024 <= scaled * divisor) by (nonlinear_arith)
        requires
            divisor >= 1024,
            scaled >= 0,
    ;
    scaled as u64
}

/// A number of hundredths as a numeral with two decimal places.
pub open spec fn two_decimals(hundredths: nat) -> Seq<char> {
    decimal(hundredths / 100) + "."@ + decimal(hundredths / 10 % 10) + decimal(hundredths % 10)
}

/// Appends a number of tenths as a numeral with one decimal place.
pub(crate) fn push_one_decimal(s: &mut String, tenths: u64)
    ensures
        final(s)@ == old(s)@ + one_decimal(tenths as nat),
{
    push_decimal(s, tenths / 10);
    s.append(".");
    push_decimal(s, tenths % 10);
    assert(s@ =~= old(s)@ + one_decimal(tenths as nat));
}

/// Appends a number of hundredths as a numeral with two decimal places.
pub(crate) fn push_two_decimals(s: &mut String, hundredths: u64)
    ensures
        final(s)@ == old(s)@ + two_decimals(hundredths as nat),
{
    push_decimal(s, hundredths / 100);
    s.append(".");
    push_decimal(s, hundredths / 10 % 10);
    push_decimal(s, hundredths % 10);
    assert(s@ =~= old(s)@ + two_decimals(hundredths as nat));
}

} // verus!
