//! Decoding of the numeric fields: unsigned integers and decimal numbers.

use crate::text::{after, before, cut, lemma_first_at};
use vstd::prelude::*;
use vstd::string::*;
use vstd::utf8::*;

verus! {

/// One of the ten decimal digits.
pub open spec fn is_digit(c: char) -> bool {
    '0' <= c <= '9'
}

/// Every character of `s` is a decimal digit. This holds of the empty sequence.
pub open spec fn all_digits(s: Seq<char>) -> bool {
    forall|i: int| 0 <= i < s.len() ==> is_digit(#[trigger] s[i])
}

/// The value of a decimal digit.
pub open spec fn digit_value(c: char) -> nat {
    if is_digit(c) {
        (c as nat - '0' as nat) as nat
    } else {
        0
    }
}

/// The number read by appending the digits of `s` to a number already read.
pub open spec fn appended(read: nat, s: Seq<char>) -> nat
    decreases s.len(),
{
    if s.len() == 0 {
        read
    } else {
        10 * appended(read, s.drop_last()) + digit_value(s.last())
    }
}

/// The number that a sequence of decimal digits denotes; the empty sequence denotes 0.
pub open spec fn number(s: Seq<char>) -> nat {
    appended(0, s)
}

/// The unsigned 32-bit integer that `s` denotes: one or more decimal digits,
/// with an optional `+` before them, whose value fits. `None` for anything else.
pub open spec fn unsigned(s: Seq<char>) -> Option<u32> {
    let digits = if s.len() > 0 && s[0] == '+' {
        s.drop_first()
    } else {
        s
    };
    if digits.len() > 0 && all_digits(digits) && number(digits) <= u32::MAX {
        Some(number(digits) as u32)
    } else {
        None
    }
}

/// A non-negative decimal number, `digits / 10^scale`: `2.3` is 23 with scale
/// 1, and `2.30` is 230 with scale 2.
#[derive(Debug, Clone, Copy, PartialEq, Eq, Structural)]
pub struct Decimal {
    /// All the digits, read as one integer without the decimal point.
    pub digits: u64,
    /// How many of the digits stand behind the decimal point.
    pub scale: usize,
}

/// The decimal number that `s` denotes: decimal digits with at most one `.`
/// among them, before them or behind them, and at least one digit, all the
/// digits read as one integer fitting 64 bits. `None` for anything else.
pub open spec fn decimal(s: Seq<char>) -> Option<Decimal> {
    let whole = before(s, '.');
    let fraction = match after(s, '.') {
        Some(f) => f,
        None => Seq::<char>::empty(),
    };
    if all_digits(whole) && all_digits(fraction) && whole.len() + fraction.len() > 0 && number(
        whole + fraction,
    ) <= u64::MAX {
        Some(Decimal { digits: number(whole + fraction) as u64, scale: fraction.len() as usize })
    } else {
        None
    }
}

/// Appending more characters never makes the number read smaller.
pub proof fn lemma_appended_grows(read: nat, s: Seq<char>, k: int)
    requires
        0 <= k <= s.len(),
    ensures
        appended(read, s.take(k)) <= appended(read, s),
    decreases s.len() - k,
{
    if k < s.len() {
        lemma_appended_grows(read, s.drop_last(), k);
        assert(s.drop_last().take(k) =~= s.take(k));
    } else {
        assert(s.take(k) =~= s);
    }
}

/// Reading `a` and then `b` is reading `a` followed by `b`.
pub proof fn lemma_appended_concat(read: nat, a: Seq<char>, b: Seq<char>)
    ensures
        appended(appended(read, a), b) == appended(read, a + b),
    decreases b.len(),
{
    if b.len() == 0 {
        assert(a + b =~= a);
    } else {
        lemma_appended_concat(read, a, b.drop_last());
        assert((a + b).drop_last() =~= a + b.drop_last());
    }
}

/// Appends the digits of `s` to the number `read`. `None` where a character of
/// `s` is no digit or the number no longer fits 64 bits.
pub fn append_digits(read: u64, s: &str) -> (r: Option<u64>)
    ensures
        r == (if all_digits(s@) && appended(read as nat, s@) <= u64::MAX {
            Some(appended(read as nat, s@) as u64)
        } else {
            None
        }),
{
    if !s.is_ascii() {
        return None;
    }
    let bytes = s.as_bytes();
    proof {
        is_ascii_chars_encode_utf8(s@);
    }
    let mut value: u64 = read;
    let mut i: usize = 0;
    while i < bytes.len()
        invariant
            i <= bytes.len(),
            bytes@.len() == s@.len(),
            is_ascii_chars(s@),
            forall|j: int| 0 <= j < s@.len() ==> s@[j] as u8 == bytes@[j],
            all_digits(s@.take(i as int)),
            value == appended(read as nat, s@.take(i as int)),
        decreases bytes.len() - i,
    {
        let b = bytes[i];
        let ghost c = s@[i as int];
        let ghost next = s@.take(i + 1);
        assert(next.drop_last() =~= s@.take(i as int));
        assert(next.last() == c);
        if b < 48 || b > 57 {
            assert(!is_digit(c));
            return None;
        }
        assert(is_digit(c));
        let d: u64 = (b - 48) as u64;
        assert(d == digit_value(c));
        if value > (u64::MAX - d) / 10 {
            proof {
                lemma_appended_grows(read as nat, s@, i + 1);
            }
            return None;
        }
        value = value * 10 + d;
        i += 1;
        assert forall|j: int| 0 <= j < next.len() implies is_digit(#[trigger] next[j]) by {
            if j < i - 1 {
                assert(next[j] == s@.take(i - 1)[j]);
            }
        }
    }
    assert(s@.take(i as int) =~= s@);
    Some(value)
}

/// Decodes an unsigned 32-bit integer.
pub fn parse_unsigned(s: &str) -> (r: Option<u32>)
    ensures
        r == unsigned(s@),
{
    let (sign, rest) = cut(s, '+');
    proof {
        lemma_first_at(s@, '+');
    }
    let digits = match rest {
        Some(tail) => {
            if sign.is_empty() {
                assert(tail@ =~= s@.drop_first());
                tail
            } else {
                s
            }
        },
        None => s,
    };
    if digits.is_empty() {
        return None;
    }
    match append_digits(0, digits) {
        Some(value) => {
            if value <= 0xffff_ffff {
                Some(value as u32)
            } else {
                None
            }
        },
        None => None,
    }
}

/// Decodes a decimal number.
pub fn parse_decimal(s: &str) -> (r: Option<Decimal>)
    ensures
        r == decimal(s@),
{
    let (whole, rest) = cut(s, '.');
    proof {
        lemma_first_at(s@, '.');
    }
    let units = match append_digits(0, whole) {
        Some(units) => units,
        None => {
            proof {
                let fraction = match after(s@, '.') {
                    Some(f) => f,
                    None => Seq::<char>::empty(),
                };
                lemma_appended_grows(0, whole@ + fraction, whole@.len() as int);
                assert((whole@ + fraction).take(whole@.len() as int) =~= whole@);
            }
            return None;
        },
    };
    match rest {
        None => {
            assert(whole@ + Seq::<char>::empty() =~= whole@);
            if whole.is_empty() {
                None
            } else {
                Some(Decimal { digits: units, scale: 0 })
            }
        },
        Some(fraction) => {
            proof {
                lemma_appended_concat(0, whole@, fraction@);
            }
            match append_digits(units, fraction) {
                Some(digits) => {
                    if whole.is_empty() && fraction.is_empty() {
                        None
                    } else {
                        proof {
                            is_ascii_chars_encode_utf8(fraction@);
                        }
                        Some(Decimal { digits, scale: fraction.len() })
                    }
                },
                None => None,
            }
        },
    }
}

} // verus!
