//! Decimal numbers as they are written on a command line.

use vstd::prelude::*;
use vstd::string::StrSliceExecFns;

verus! {

/// Whether `c` is one of the ten decimal digits.
pub open spec fn is_digit(c: char) -> bool {
    '0' as u32 <= c as u32 <= '9' as u32
}

/// The number that the digit `c` stands for.
pub open spec fn digit_value(c: char) -> nat {
    (c as u32 - '0' as u32) as nat
}

/// Whether `text` is a run of at least one decimal digit and nothing else.
pub open spec fn all_digits(text: Seq<char>) -> bool {
    text.len() > 0 && forall|i: int| 0 <= i < text.len() ==> is_digit(#[trigger] text[i])
}

/// The number written by a run of decimal digits, most significant first.
pub open spec fn digits_value(text: Seq<char>) -> nat
    decreases text.len(),
{
    if text.len() == 0 {
        0
    } else {
        10 * digits_value(text.drop_last()) + digit_value(text.last())
    }
}

/// The number that `text` writes without a minus sign: decimal digits,
/// which a single `+` may precede. Anything else writes no number.
pub open spec fn unsigned_value(text: Seq<char>) -> Option<nat> {
    let digits = if text.len() > 0 && text[0] == '+' {
        text.skip(1)
    } else {
        text
    };
    if all_digits(digits) {
        Some(digits_value(digits))
    } else {
        None
    }
}

/// The number that `text` writes: decimal digits, which a single `+` or
/// `-` may precede. Anything else writes no number.
pub open spec fn signed_value(text: Seq<char>) -> Option<int> {
    if text.len() > 0 && text[0] == '-' {
        if all_digits(text.skip(1)) {
            Some(-(digits_value(text.skip(1)) as int))
        } else {
            None
        }
    } else {
        match unsigned_value(text) {
            Some(value) => Some(value as int),
            None => None,
        }
    }
}

/// A longer run of digits writes a number no smaller than any of its prefixes.
proof fn lemma_prefix_value(text: Seq<char>, k: int)
    requires
        0 <= k <= text.len(),
    ensures
        digits_value(text.take(k)) <= digits_value(text),
    decreases text.len(),
{
    if k < text.len() {
        lemma_prefix_value(text.drop_last(), k);
        assert(text.drop_last().take(k) == text.take(k));
    } else {
        assert(text.take(k) == text);
    }
}

/// Reads the characters of `text` from position `from` on as a run of
/// digits, as long as the number they write does not exceed `limit`.
fn parse_digits(text: &str, from: usize, limit: u64) -> (number: Option<u64>)
    requires
        from <= text@.len(),
        limit >= 9,
    ensures
        number == if all_digits(text@.skip(from as int)) && digits_value(text@.skip(from as int))
            <= limit {
            Some(digits_value(text@.skip(from as int)) as u64)
        } else {
            None
        },
{
    let len = text.unicode_len();
    if from == len {
        return None;
    }
    let ghost digits = text@.skip(from as int);
    let mut value: u64 = 0;
    let mut i: usize = from;
    while i < len
        invariant
            from <= i <= len,
            len == text@.len(),
            digits == text@.skip(from as int),
            limit >= 9,
            forall|j: int| 0 <= j < i - from ==> is_digit(#[trigger] digits[j]),
            value == digits_value(digits.take(i - from)),
            value <= limit,
        decreases len - i,
    {
        let c = text.get_char(i);
        assert(c == digits[i - from]);
        let code = c as u32;
        if code < '0' as u32 || code > '9' as u32 {
            return None;
        }
        let digit = (code - '0' as u32) as u64;
        proof {
            assert(digits.take(i - from + 1).drop_last() == digits.take(i - from));
            assert(digits.take(i - from + 1).last() == c);
            assert(digits_value(digits.take(i - from + 1)) == 10 * value + digit);
        }
        if value > (limit - digit) / 10 {
            proof {
                if all_digits(digits) {
                    lemma_prefix_value(digits, i - from + 1);
                }
            }
            return None;
        }
        value = value * 10 + digit;
        i += 1;
    }
    proof {
        assert(digits.take(i - from) == digits);
    }
    Some(value)
}

/// Reads `text` as a number that fits a `usize`. Only decimal digits count,
/// with at most a `+` before them; a minus sign, blanks, an empty text or a
/// number too large for the type are all turned down.
pub fn parse_usize(text: &str) -> (number: Option<usize>)
    ensures
        number == match unsigned_value(text@) {
            Some(value) => if value <= usize::MAX {
                Some(value as usize)
            } else {
                None
            },
            None => None,
        },
{
    let len = text.unicode_len();
    let from: usize = if len > 0 && text.get_char(0) == '+' {
        1
    } else {
        0
    };
    assert(text@.skip(0) == text@);
    match parse_digits(text, from, usize::MAX as u64) {
        Some(value) => Some(value as usize),
        None => None,
    }
}

/// Reads `text` as a number that fits an `i32`. Only decimal digits count,
/// with at most a `+` or a `-` before them; blanks, an empty text or a
/// number outside the type's range are all turned down.
pub fn parse_i32(text: &str) -> (number: Option<i32>)
    ensures
        number == match signed_value(text@) {
            Some(value) => if i32::MIN <= value <= i32::MAX {
                Some(value as i32)
            } else {
                None
            },
            None => None,
        },
{
    let len = text.unicode_len();
    if len > 0 && text.get_char(0) == '-' {
        match parse_digits(text, 1, 0x8000_0000) {
            Some(value) => Some((-(value as i64)) as i32),
            None => None,
        }
    } else {
        let from: usize = if len > 0 && text.get_char(0) == '+' {
            1
        } else {
            0
        };
        assert(text@.skip(0) == text@);
        match parse_digits(text, from, 0x7fff_ffff) {
            Some(value) => Some(value as i32),
            None => None,
        }
    }
}

} // verus!
