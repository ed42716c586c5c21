//! Weights as they are typed: whole numbers of percent.

use vstd::prelude::*;
use crate::text::chars_of;

verus! {

/// Why a text is no weight.
#[derive(Debug, PartialEq, Eq, Structural, Clone, Copy)]
pub enum WeightError {
    /// The text is no whole number that fits in sixteen bits.
    NotANumber,
    /// The number is no percentage.
    OutOfRange,
}

/// The decimal digits.
pub open spec fn is_digit(c: char) -> bool {
    '0' <= c && c <= '9'
}

/// The number that the digit `c` stands for.
pub open spec fn digit_value(c: char) -> int {
    c as int - '0' as int
}

/// The number that the first `n` characters of `s`, all digits, stand for.
pub open spec fn digits_value(s: Seq<char>, n: int) -> int
    decreases n,
{
    if n <= 0 {
        0
    } else {
        10 * digits_value(s, n - 1) + digit_value(s[n - 1])
    }
}

/// Whether `s` begins with a sign.
pub open spec fn is_signed(s: Seq<char>) -> bool {
    s.len() > 0 && (s[0] == '+' || s[0] == '-')
}

/// What follows the sign of `s`, or all of `s` where it has none.
pub open spec fn unsigned(s: Seq<char>) -> Seq<char> {
    if is_signed(s) {
        s.subrange(1, s.len() as int)
    } else {
        s
    }
}

/// Whether `s` holds digits alone.
pub open spec fn all_digits(s: Seq<char>) -> bool {
    forall|i: int| 0 <= i < s.len() ==> is_digit(#[trigger] s[i])
}

/// The number that `s` stands for: a sign, which may be missing, and then
/// digits, at least one, for a number between -32768 and 32767.
pub open spec fn number(s: Seq<char>) -> Option<int> {
    let digits = unsigned(s);
    let value = if is_signed(s) && s[0] == '-' {
        -digits_value(digits, digits.len() as int)
    } else {
        digits_value(digits, digits.len() as int)
    };
    if digits.len() > 0 && all_digits(digits) && i16::MIN <= value <= i16::MAX {
        Some(value)
    } else {
        None
    }
}

/// The weight that `s` stands for: a number from 0 to 100.
pub open spec fn weight_of(s: Seq<char>) -> Result<u8, WeightError> {
    match number(s) {
        None => Err(WeightError::NotANumber),
        Some(value) => if 0 <= value <= 100 {
            Ok(value as u8)
        } else {
            Err(WeightError::OutOfRange)
        },
    }
}

/// The number that digits stand for is not negative, and does not shrink
/// as digits are added.
pub proof fn digits_value_grows(s: Seq<char>, n: int)
    requires
        0 <= n <= s.len(),
        forall|i: int| 0 <= i < n ==> is_digit(#[trigger] s[i]),
    ensures
        0 <= digits_value(s, n),
        n > 0 ==> digits_value(s, n - 1) <= digits_value(s, n),
    decreases n,
{
    if n > 0 {
        digits_value_grows(s, n - 1);
        assert(is_digit(s[n - 1]));
    }
}

/// Reads a weight.
pub fn parse_weight(text: &str) -> (r: Result<u8, WeightError>)
    ensures
        r == weight_of(text@),
{
    let chars = chars_of(text);
    let len = chars.len();
    let signed = len > 0 && (chars[0] == '+' || chars[0] == '-');
    let negative = signed && chars[0] == '-';
    let first: usize = if signed {
        1
    } else {
        0
    };
    let ghost digits = unsigned(text@);
    if first >= len {
        return Err(WeightError::NotANumber);
    }
    // the value so far, as long as it is small; `large` once it has passed
    // every number of sixteen bits
    let mut value: u32 = 0;
    let mut large = false;
    let mut at: usize = first;
    while at < len
        invariant
            chars@ == text@,
            len == text@.len(),
            signed == is_signed(text@),
            first == if signed {
                1usize
            } else {
                0usize
            },
            digits == unsigned(text@),
            first <= at <= len,
            digits.len() == len - first,
            forall|i: int| 0 <= i < digits.len() ==> digits[i] == text@[i + first],
            forall|i: int| 0 <= i < at - first ==> is_digit(#[trigger] digits[i]),
            !large ==> value == digits_value(digits, at - first) && value <= 40000,
            large ==> digits_value(digits, at - first) > 40000,
        decreases len - at,
    {
        let c = chars[at];
        assert(digits[at - first] == c);
        if !('0' <= c && c <= '9') {
            assert(!is_digit(digits[at - first]));
            return Err(WeightError::NotANumber);
        }
        proof {
            digits_value_grows(digits, at - first);
        }
        if !large {
            value = 10 * value + (c as u32 - '0' as u32);
            if value > 40000 {
                large = true;
            }
        }
        at = at + 1;
        proof {
            digits_value_grows(digits, at - first);
        }
    }
    assert(at - first == digits.len());
    if large {
        return Err(WeightError::NotANumber);
    }
    if negative {
        if value > 32768 {
            Err(WeightError::NotANumber)
        } else if value == 0 {
            Ok(0)
        } else {
            Err(WeightError::OutOfRange)
        }
    } else if value > 32767 {
        Err(WeightError::NotANumber)
    } else if value <= 100 {
        Ok(value as u8)
    } else {
        Err(WeightError::OutOfRange)
    }
}

} // verus!
