//! Numbers at run time.
//!
//! A number is a 64-bit binary floating-point value, held as its bit
//! pattern: the sign in the top bit, then eleven bits of exponent and
//! fifty-two of fraction. What can be read off the pattern is decided here:
//! whether a number is zero, its negation, and how two numbers compare.
//! Arithmetic is left to the evaluator's host.

use vstd::prelude::*;
use crate::token::ComparisonKind;

verus! {

/// The pattern of negative zero: the sign bit alone.
pub const SIGN: u64 = 0x8000_0000_0000_0000;

/// The pattern of positive infinity; a larger magnitude is not a number.
pub const INFINITY: u64 = 0x7ff0_0000_0000_0000;

/// The pattern without its sign bit.
pub open spec fn magnitude(bits: u64) -> int {
    if bits >= SIGN {
        bits - SIGN
    } else {
        bits as int
    }
}

/// Whether the pattern is not a number.
pub open spec fn is_nan(bits: u64) -> bool {
    magnitude(bits) > INFINITY
}

/// Whether the pattern is zero, of either sign.
pub open spec fn is_zero(bits: u64) -> bool {
    magnitude(bits) == 0
}

/// Where a number stands among the numbers: its magnitude, counted downwards
/// for a negative one. Numbers are ordered as their places are, and both
/// zeros stand at the same place.
pub open spec fn place(bits: u64) -> int {
    if bits >= SIGN {
        -magnitude(bits)
    } else {
        magnitude(bits)
    }
}

/// The pattern with the other sign.
pub open spec fn negated(bits: u64) -> u64 {
    if bits >= SIGN {
        (bits - SIGN) as u64
    } else {
        (bits + SIGN) as u64
    }
}

/// Whether `left operator right` holds. Nothing is equal to, less than or
/// greater than what is not a number.
pub open spec fn holds(operator: ComparisonKind, left: u64, right: u64) -> bool {
    let ordered = !is_nan(left) && !is_nan(right);
    match operator {
        ComparisonKind::Equal => ordered && place(left) == place(right),
        ComparisonKind::NotEqual => !(ordered && place(left) == place(right)),
        ComparisonKind::GreaterThan => ordered && place(left) > place(right),
        ComparisonKind::LessThan => ordered && place(left) < place(right),
        ComparisonKind::GreaterEqual => ordered && place(left) >= place(right),
        ComparisonKind::LessEqual => ordered && place(left) <= place(right),
    }
}

fn magnitude_of(bits: u64) -> (m: u64)
    ensures
        m == magnitude(bits),
{
    if bits >= SIGN {
        bits - SIGN
    } else {
        bits
    }
}

/// Whether `bits` is zero, of either sign.
pub fn zero(bits: u64) -> (yes: bool)
    ensures
        yes == is_zero(bits),
{
    magnitude_of(bits) == 0
}

/// `bits` with the other sign.
pub fn negate(bits: u64) -> (result: u64)
    ensures
        result == negated(bits),
{
    if bits >= SIGN {
        bits - SIGN
    } else {
        bits + SIGN
    }
}

/// The number that a numeral stands for, given what its digits stand for.
pub open spec fn signed_value(negative: bool, bits: u64) -> u64 {
    if negative {
        negated(bits)
    } else {
        bits
    }
}

/// The number that a numeral stands for: `bits`, which its digits stand for,
/// with the other sign if the numeral is negative.
pub fn signed(negative: bool, bits: u64) -> (result: u64)
    ensures
        result == signed_value(negative, bits),
{
    if negative {
        negate(bits)
    } else {
        bits
    }
}

fn below(left: u64, right: u64) -> (yes: bool)
    ensures
        yes == (place(left) < place(right)),
{
    let l = magnitude_of(left);
    let r = magnitude_of(right);
    if left >= SIGN {
        if right >= SIGN {
            l > r
        } else {
            l > 0 || r > 0
        }
    } else {
        if right >= SIGN {
            false
        } else {
            l < r
        }
    }
}

/// Whether `left operator right` holds.
pub fn compare(operator: ComparisonKind, left: u64, right: u64) -> (yes: bool)
    ensures
        yes == holds(operator, left, right),
{
    let ordered = magnitude_of(left) <= INFINITY && magnitude_of(right) <= INFINITY;
    match operator {
        ComparisonKind::Equal => ordered && !below(left, right) && !below(right, left),
        ComparisonKind::NotEqual => !(ordered && !below(left, right) && !below(right, left)),
        ComparisonKind::GreaterThan => ordered && below(right, left),
        ComparisonKind::LessThan => ordered && below(left, right),
        ComparisonKind::GreaterEqual => ordered && !below(left, right),
        ComparisonKind::LessEqual => ordered && !below(right, left),
    }
}

/// A numeral that can be turned into a number: it starts with a digit and
/// holds digits and at most one point.
pub open spec fn is_numeral(text: Seq<char>) -> bool {
    &&& text.len() > 0
    &&& crate::text::is_digit(text[0])
    &&& forall|i: int| 0 <= i < text.len() ==> crate::text::is_digit(#[trigger] text[i]) || text[i] == '.'
    &&& forall|i: int, j: int|
        0 <= i < j < text.len() ==> !(#[trigger] text[i] == '.' && #[trigger] text[j] == '.')
}

/// Whether `text` is a numeral.
pub fn numeral(text: &String) -> (yes: bool)
    ensures
        yes == is_numeral(text@),
{
    let mut points: usize = 0;
    let mut empty = true;
    let mut sound = true;
    for c in it: text.as_str().chars()
        invariant
            it.seq() == text@,
            empty <==> it.index() == 0,
            points <= 1,
            sound ==> {
                &&& forall|i: int|
                    0 <= i < it.index() ==> crate::text::is_digit(#[trigger] text@[i]) || text@[i] == '.'
                &&& forall|i: int, j: int|
                    0 <= i < j < it.index() ==> !(#[trigger] text@[i] == '.' && #[trigger] text@[j]
                        == '.')
                &&& points == 1 <==> exists|i: int| 0 <= i < it.index() && text@[i] == '.'
                &&& it.index() > 0 ==> crate::text::is_digit(text@[0])
            },
            !sound ==> !is_numeral(text@),
    {
        if sound {
            if crate::text::digit(c) {
            } else if c == '.' && points == 0 && !empty {
                points = 1;
            } else {
                sound = false;
            }
        }
        empty = false;
    }
    sound && !empty
}

} // verus!
