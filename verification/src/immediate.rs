//! Immediate operands: a `$` followed by a decimal number of at most 15 bits.

use vstd::prelude::*;
use vstd::string::StrSliceExecFns;

verus! {

/// The largest value an immediate operand can hold.
pub const MAX_IMMEDIATE: u16 = 32767;

/// An ASCII decimal digit.
pub open spec fn is_digit(c: char) -> bool {
    0x30 <= c as u32 <= 0x39
}

/// The value of a decimal digit.
pub open spec fn digit_value(c: char) -> nat {
    (c as u32 - 0x30) as nat
}

/// Whether `s` consists of decimal digits only.
pub open spec fn all_digits(s: Seq<char>) -> bool {
    forall|i: int| 0 <= i < s.len() ==> is_digit(#[trigger] s[i])
}

/// The number that the decimal digits `s` denote.
pub open spec fn decimal_value(s: Seq<char>) -> nat
    decreases s.len(),
{
    if s.len() == 0 {
        0
    } else {
        10 * decimal_value(s.drop_last()) + digit_value(s.last())
    }
}

/// `s` without the `+` sign that it may begin with.
pub open spec fn without_plus(s: Seq<char>) -> Seq<char> {
    if s.len() > 0 && s[0] == '+' {
        s.skip(1)
    } else {
        s
    }
}

/// The unsigned 16-bit number that `s` denotes: an optional `+`, then one or more
/// decimal digits whose value fits in 16 bits. Anything else denotes no number.
pub open spec fn parse_u16(s: Seq<char>) -> Option<u16> {
    let digits = without_plus(s);
    if digits.len() > 0 && all_digits(digits) && decimal_value(digits) <= u16::MAX {
        Some(decimal_value(digits) as u16)
    } else {
        None
    }
}

/// The value of an immediate operand: `token` is a `$` followed by a number of at
/// most [`MAX_IMMEDIATE`]. Any other token is no immediate operand.
pub open spec fn immediate_of(token: Seq<char>) -> Option<u16> {
    if token.len() > 0 && token[0] == '$' {
        match parse_u16(token.skip(1)) {
            Some(n) => if n <= MAX_IMMEDIATE {
                Some(n)
            } else {
                None
            },
            None => None,
        }
    } else {
        None
    }
}

/// More digits never denote a smaller number.
pub proof fn lemma_decimal_value_grows(s: Seq<char>, k: int)
    requires
        0 <= k <= s.len(),
    ensures
        decimal_value(s.take(k)) <= decimal_value(s),
    decreases s.len() - k,
{
    if k == s.len() {
        assert(s.take(k) =~= s);
    } else {
        lemma_decimal_value_grows(s.drop_last(), k);
        assert(s.drop_last().take(k) =~= s.take(k));
    }
}

/// Reads an unsigned 16-bit decimal number.
pub fn parse_decimal_u16(text: &str) -> (r: Option<u16>)
    ensures
        r == parse_u16(text@),
{
    let len: usize = text.unicode_len();
    if len == 0 {
        return None;
    }
    let skipped: usize = if text.get_char(0) == '+' {
        1
    } else {
        0
    };
    let digits = text.substring_char(skipped, len);
    let ghost s = digits@;
    assert(s =~= without_plus(text@));
    if skipped == len {
        return None;
    }
    let mut value: u32 = 0;
    let mut i: usize = 0;
    for c in it: digits.chars()
        invariant
            it.seq() == s,
            i == it.index(),
            s == without_plus(text@),
            0 < s.len() <= len,
            all_digits(s.take(i as int)),
            value == decimal_value(s.take(i as int)),
            value <= u16::MAX,
    {
        let code: u32 = c as u32;
        if code < 0x30 || code > 0x39 {
            return None;
        }
        proof {
            assert(s.take(i + 1).drop_last() =~= s.take(i as int));
            assert forall|k: int| 0 <= k < i + 1 implies is_digit(#[trigger] s.take(i + 1)[k]) by {
                if k < i {
                    assert(s.take(i as int)[k] == s[k]);
                }
            }
        }
        value = value * 10 + (code - 0x30);
        i += 1;
        if value > 0xFFFF {
            proof {
                lemma_decimal_value_grows(s, i as int);
            }
            return None;
        }
    }
    proof {
        assert(s.take(i as int) =~= s);
    }
    Some(value as u16)
}

/// Reads an immediate operand.
pub fn parse_immediate(token: &str) -> (r: Option<u16>)
    ensures
        r == immediate_of(token@),
{
    let len: usize = token.unicode_len();
    if len == 0 || token.get_char(0) != '$' {
        return None;
    }
    let number = token.substring_char(1, len);
    assert(number@ =~= token@.skip(1));
    match parse_decimal_u16(number) {
        Some(n) => if n <= MAX_IMMEDIATE {
            Some(n)
        } else {
            None
        },
        None => None,
    }
}

} // verus!
