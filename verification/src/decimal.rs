//! Unsigned decimal numerals: an optional `+` followed by one or more digits.

use vstd::prelude::*;
use vstd::string::StringSliceAdditionalSpecFns;

verus! {

/// `c` is one of the ten decimal digits.
pub open spec fn is_digit(c: char) -> bool {
    '0' <= c <= '9'
}

/// The value of the digit `c`.
pub open spec fn digit_value(c: char) -> nat {
    if is_digit(c) {
        (c as nat - '0' as nat) as nat
    } else {
        0
    }
}

/// Every character of `s` is a decimal digit.
pub open spec fn all_digits(s: Seq<char>) -> bool {
    forall|i: int| 0 <= i < s.len() ==> is_digit(#[trigger] s[i])
}

/// The number that the digits `s` denote in base ten, the empty sequence
/// denoting zero.
pub open spec fn digits_value(s: Seq<char>) -> nat
    decreases s.len(),
{
    if s.len() == 0 {
        0
    } else {
        digits_value(s.drop_last()) * 10 + digit_value(s.last())
    }
}

/// `s` without its leading `+`, if it has one.
pub open spec fn without_sign(s: Seq<char>) -> Seq<char> {
    if s.len() > 0 && s[0] == '+' {
        s.drop_first()
    } else {
        s
    }
}

/// The number that the numeral `s` denotes, provided that `s` is well formed
/// (an optional `+`, then at least one digit and nothing else) and that the
/// number does not exceed `max`.
pub open spec fn decimal_value(s: Seq<char>, max: nat) -> Option<nat> {
    let digits = without_sign(s);
    if digits.len() > 0 && all_digits(digits) && digits_value(digits) <= max {
        Some(digits_value(digits))
    } else {
        None
    }
}

/// The value of a prefix of a numeral never exceeds the value of the whole.
pub proof fn lemma_prefix_value(s: Seq<char>, k: int)
    requires
        0 <= k <= s.len(),
    ensures
        digits_value(s.take(k)) <= digits_value(s),
    decreases s.len() - k,
{
    if k == s.len() {
        assert(s.take(k) =~= s);
    } else {
        lemma_prefix_value(s, k + 1);
        assert(s.take(k + 1).drop_last() =~= s.take(k));
    }
}

/// A numeral with a character outside ASCII is not made of digits.
proof fn lemma_digits_are_ascii(s: Seq<char>)
    requires
        all_digits(without_sign(s)),
    ensures
        vstd::utf8::is_ascii_chars(s),
{
    let digits = without_sign(s);
    assert forall|i: int| 0 <= i < s.len() implies '\0' <= #[trigger] s[i] <= '\u{7f}' by {
        if s[0] == '+' && i > 0 {
            assert(is_digit(digits[i - 1]));
        }
    }
}

/// Parses the numeral `s`, rejecting values above `max`.
pub fn parse_decimal(s: &str, max: u64) -> (value: Option<u64>)
    ensures
        decimal_value(s@, max as nat) == match value {
            Some(v) => Some(v as nat),
            None => None,
        },
{
    if !s.is_ascii() {
        proof {
            if all_digits(without_sign(s@)) {
                lemma_digits_are_ascii(s@);
            }
        }
        return None;
    }
    let bytes = s.as_bytes();
    let len: usize = bytes.len();
    proof {
        vstd::string::is_ascii_spec_bytes(s);
    }
    let start: usize = if len > 0 && bytes[0] == 43u8 {
        1
    } else {
        0
    };
    let ghost digits = without_sign(s@);
    if start == len {
        return None;
    }
    let mut value: u64 = 0;
    let mut i: usize = start;
    while i < len
        invariant
            start <= i <= len,
            len == s@.len(),
            s.is_ascii(),
            bytes@ == s.spec_bytes(),
            digits == without_sign(s@),
            digits == s@.skip(start as int),
            all_digits(digits.take(i - start)),
            value == digits_value(digits.take(i - start)),
            value <= max,
        decreases len - i,
    {
        let byte: u8 = bytes[i];
        let ghost c = s@[i as int];
        proof {
            vstd::string::is_ascii_spec_bytes(s);
        }
        assert(digits[i - start] == c);
        if byte < 48u8 || byte > 57u8 {
            return None;
        }
        let digit: u64 = (byte - 48u8) as u64;
        proof {
            assert(digits.take(i - start + 1).drop_last() =~= digits.take(i - start));
            lemma_prefix_value(digits, i - start + 1);
        }
        if digit > max || value > (max - digit) / 10 {
            return None;
        }
        value = value * 10 + digit;
        i += 1;
    }
    assert(digits.take(len - start) =~= digits);
    Some(value)
}

} // verus!
