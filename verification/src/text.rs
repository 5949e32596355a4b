//! Text primitives of the schema mappers: comparing strings and reading
//! unsigned numbers written in a small radix.

use vstd::prelude::*;
use vstd::string::*;
use vstd::utf8::*;

verus! {

/// Whether two strings hold the same characters.
pub fn str_eq(a: &str, b: &str) -> (r: bool)
    ensures
        r == (a@ == b@),
{
    let x = a.as_bytes();
    let y = b.as_bytes();
    if x.len() != y.len() {
        return false;
    }
    let mut i: usize = 0;
    while i < x.len()
        invariant
            i <= x.len(),
            x.len() == y.len(),
            x@ == encode_utf8(a@),
            y@ == encode_utf8(b@),
            forall|j: int| 0 <= j < i ==> x@[j] == y@[j],
        decreases x.len() - i,
    {
        if x[i] != y[i] {
            return false;
        }
        i += 1;
    }
    proof {
        assert(x@ =~= y@);
        encode_utf8_decode_utf8(a@);
        encode_utf8_decode_utf8(b@);
    }
    true
}

/// The value of `c` as a digit: its distance from the character `0`.
pub open spec fn digit_of(c: char) -> int {
    c as int - '0' as int
}

/// Whether every character of `digits` is a digit of the given radix
/// (a radix of at most ten, so that the digits are `0` up to `9`).
pub open spec fn is_digits(digits: Seq<char>, radix: int) -> bool {
    forall|i: int| 0 <= i < digits.len() ==> 0 <= #[trigger] digit_of(digits[i]) < radix
}

/// The number that `digits` writes in positional notation, most significant
/// digit first.
pub open spec fn digits_value(digits: Seq<char>, radix: int) -> int
    decreases digits.len(),
{
    if digits.len() == 0 {
        0
    } else {
        digits_value(digits.drop_last(), radix) * radix + digit_of(digits.last())
    }
}

/// What is left of `text` after one leading `+`, if it has one.
pub open spec fn unsigned_digits(text: Seq<char>) -> Seq<char> {
    if text.len() > 0 && text[0] == '+' {
        text.drop_first()
    } else {
        text
    }
}

/// The number that `text` denotes: an optional `+`, then one digit or more
/// of the given radix, whose value is at most `max`. Anything else (an empty
/// text, a lone sign, a minus sign, white space, a character that is no
/// digit, a value over `max`) denotes nothing.
pub open spec fn spec_parse_unsigned(text: Seq<char>, radix: int, max: int) -> Option<int> {
    let digits = unsigned_digits(text);
    if digits.len() > 0 && is_digits(digits, radix) && digits_value(digits, radix) <= max {
        Some(digits_value(digits, radix))
    } else {
        None
    }
}

/// A prefix of a digit string is worth no more than the whole string.
proof fn lemma_prefix_value(digits: Seq<char>, radix: int, k: int)
    requires
        2 <= radix,
        is_digits(digits, radix),
        0 <= k <= digits.len(),
    ensures
        0 <= digits_value(digits.take(k), radix) <= digits_value(digits, radix),
    decreases digits.len() - k,
{
    if k == digits.len() {
        assert(digits.take(k) =~= digits);
        lemma_value_nonnegative(digits, radix);
    } else {
        lemma_prefix_value(digits, radix, k + 1);
        lemma_value_step(digits, radix, k);
        lemma_value_nonnegative(digits.take(k), radix);
        let v = digits_value(digits.take(k), radix);
        assert(v * radix >= v) by (nonlinear_arith)
            requires
                v >= 0,
                radix >= 2,
        ;
    }
}

proof fn lemma_value_nonnegative(digits: Seq<char>, radix: int)
    requires
        2 <= radix,
        is_digits(digits, radix),
    ensures
        0 <= digits_value(digits, radix),
    decreases digits.len(),
{
    if digits.len() > 0 {
        lemma_value_nonnegative(digits.drop_last(), radix);
        let v = digits_value(digits.drop_last(), radix);
        assert(v * radix >= 0) by (nonlinear_arith)
            requires
                v >= 0,
                radix >= 2,
        ;
        assert(0 <= digit_of(digits[digits.len() - 1]));
    }
}

/// One more digit multiplies the value by the radix and adds the digit.
proof fn lemma_value_step(digits: Seq<char>, radix: int, k: int)
    requires
        0 <= k < digits.len(),
    ensures
        digits_value(digits.take(k + 1), radix) == digits_value(digits.take(k), radix) * radix
            + digit_of(digits[k]),
        is_digits(digits, radix) ==> is_digits(digits.take(k), radix),
{
    assert(digits.take(k + 1).drop_last() =~= digits.take(k));
    assert(digits.take(k + 1).last() == digits[k]);
    if is_digits(digits, radix) {
        assert forall|i: int| 0 <= i < digits.take(k).len() implies 0 <= #[trigger] digit_of(
            digits.take(k)[i],
        ) < radix by {
            assert(digits.take(k)[i] == digits[i]);
        }
    }
}

/// Reads an unsigned number of the given radix that is at most `max`.
fn parse_unsigned(text: &str, radix: u64, max: u64) -> (r: Option<u64>)
    requires
        2 <= radix <= 10,
    ensures
        r.is_some() == spec_parse_unsigned(text@, radix as int, max as int).is_some(),
        r matches Some(v) ==> spec_parse_unsigned(text@, radix as int, max as int) == Some(
            v as int,
        ),
{
    let ghost digits = unsigned_digits(text@);
    if !text.is_ascii() {
        proof {
            let i = choose|i: int|
                0 <= i < text@.len() && !('\0' <= #[trigger] text@[i] <= '\u{7f}');
            if digits.len() > 0 && is_digits(digits, radix as int) {
                if text@.len() > 0 && text@[0] == '+' {
                    assert(i >= 1);
                    assert(digits[i - 1] == text@[i]);
                    assert(0 <= digit_of(digits[i - 1]) < radix);
                } else {
                    assert(0 <= digit_of(digits[i]) < radix);
                }
            }
        }
        return None;
    }
    let n: usize = text.unicode_len();
    let start: usize = if n > 0 && text.get_ascii(0) == 43u8 {
        1
    } else {
        0
    };
    proof {
        is_ascii_chars_nat_bound(text@);
        if n > 0 {
            assert((text@[0] as nat) < 128);
        }
        assert(digits =~= text@.skip(start as int));
    }
    if start == n {
        return None;
    }
    let mut acc: u64 = 0;
    let mut i: usize = start;
    while i < n
        invariant
            2 <= radix <= 10,
            start <= i <= n,
            n == text@.len(),
            text.is_ascii(),
            digits == unsigned_digits(text@),
            digits == text@.skip(start as int),
            is_digits(digits.take(i - start), radix as int),
            acc == digits_value(digits.take(i - start), radix as int),
            acc <= max,
        decreases n - i,
    {
        let b: u8 = text.get_ascii(i);
        proof {
            is_ascii_chars_nat_bound(text@);
            assert((text@[i as int] as nat) < 128);
            assert(digits[i - start] == text@[i as int]);
            lemma_value_step(digits, radix as int, i - start);
        }
        if b < 48u8 || (b - 48u8) as u64 >= radix {
            proof {
                if is_digits(digits, radix as int) {
                    assert(0 <= digit_of(digits[i - start]) < radix);
                }
            }
            return None;
        }
        let d: u64 = (b - 48u8) as u64;
        assert(acc * radix <= 0xffff_ffff_ffff_ffff * 10) by (nonlinear_arith)
            requires
                acc <= 0xffff_ffff_ffff_ffff,
                radix <= 10,
        ;
        let next: u128 = acc as u128 * radix as u128 + d as u128;
        if next > max as u128 {
            proof {
                if is_digits(digits, radix as int) {
                    lemma_prefix_value(digits, radix as int, i - start + 1);
                }
            }
            return None;
        }
        proof {
            assert forall|j: int| 0 <= j < digits.take(i - start + 1).len() implies 0
                <= #[trigger] digit_of(digits.take(i - start + 1)[j]) < radix by {
                if j < i - start {
                    assert(digits.take(i - start)[j] == digits[j]);
                    assert(0 <= digit_of(digits.take(i - start)[j]) < radix);
                }
            }
        }
        acc = next as u64;
        i += 1;
    }
    proof {
        assert(digits.take(i - start) =~= digits);
    }
    Some(acc)
}

/// The `u32` that `text` denotes in decimal.
pub open spec fn spec_parse_u32(text: Seq<char>) -> Option<u32> {
    match spec_parse_unsigned(text, 10, u32::MAX as int) {
        Some(v) => Some(v as u32),
        None => None,
    }
}

/// The `u64` that `text` denotes in decimal.
pub open spec fn spec_parse_u64(text: Seq<char>) -> Option<u64> {
    match spec_parse_unsigned(text, 10, u64::MAX as int) {
        Some(v) => Some(v as u64),
        None => None,
    }
}

/// The `u32` that `text` denotes in octal.
pub open spec fn spec_parse_octal(text: Seq<char>) -> Option<u32> {
    match spec_parse_unsigned(text, 8, u32::MAX as int) {
        Some(v) => Some(v as u32),
        None => None,
    }
}

/// Reads a decimal number that fits in 32 bits.
pub fn parse_u32(text: &str) -> (r: Option<u32>)
    ensures
        r == spec_parse_u32(text@),
{
    match parse_unsigned(text, 10, 0xffff_ffff) {
        Some(v) => Some(v as u32),
        None => None,
    }
}

/// Reads a decimal number that fits in 64 bits.
pub fn parse_u64(text: &str) -> (r: Option<u64>)
    ensures
        r == spec_parse_u64(text@),
{
    parse_unsigned(text, 10, 0xffff_ffff_ffff_ffff)
}

/// Reads an octal number that fits in 32 bits.
pub fn parse_octal(text: &str) -> (r: Option<u32>)
    ensures
        r == spec_parse_octal(text@),
{
    match parse_unsigned(text, 8, 0xffff_ffff) {
        Some(v) => Some(v as u32),
        None => None,
    }
}

} // verus!
