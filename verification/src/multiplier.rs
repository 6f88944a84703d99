//! The bounds on the pacing multipliers.
//!
//! A multiplier is an IEEE 754 binary64 number, handled here by its bit pattern.
use vstd::prelude::*;

verus! {

/// The sign bit is set.
pub open spec fn negative(bits: u64) -> bool {
    bits / 0x8000_0000_0000_0000 == 1
}

/// The eleven exponent bits.
pub open spec fn exponent(bits: u64) -> int {
    bits as int / 0x10_0000_0000_0000 % 0x800
}

/// The fifty-two fraction bits.
pub open spec fn fraction(bits: u64) -> int {
    bits as int % 0x10_0000_0000_0000
}

/// The pattern is not a number: the exponent bits are all set, and some fraction bit is.
pub open spec fn nan(bits: u64) -> bool {
    exponent(bits) == 0x7ff && fraction(bits) != 0
}

/// The pattern stands for a number, possibly infinite, that is at least 1.0, whose exponent bits
/// are 0x3ff and whose fraction bits are clear.
pub open spec fn one_or_more(bits: u64) -> bool {
    !nan(bits) && !negative(bits) && exponent(bits) >= 0x3ff
}

/// The pattern stands for a number, possibly infinite, that is at least 0.0; the negative zero is
/// no less than the positive one.
pub open spec fn zero_or_more(bits: u64) -> bool {
    !nan(bits) && (negative(bits) ==> exponent(bits) == 0 && fraction(bits) == 0)
}

/// The pattern of 1.0.
pub const ONE: u64 = 0x3ff0_0000_0000_0000;

/// The pattern of 1.5.
pub const ONE_AND_A_HALF: u64 = 0x3ff8_0000_0000_0000;

/// The multipliers of a new heap are positive; 1.5 has the exponent of 1.0 and half of its fraction
/// range, where 1.0 has no fraction.
pub proof fn law_patterns_of_the_constants()
    ensures
        ONE == 0x3ff * 0x10_0000_0000_0000,
        2 * (ONE_AND_A_HALF - ONE) == 0x10_0000_0000_0000,
{
}

/// A pattern with a sign, an exponent and a fraction is at least 1.0 when it is positive with the
/// exponent of 1.0 or a larger one, and at least 0.0 when it is positive or zero.  Of the patterns
/// with the largest exponent, only those without a fraction are numbers.
pub proof fn law_bounds_by_sign_exponent_and_fraction(
    bits: u64,
    sign: bool,
    exponent: int,
    fraction: int,
)
    requires
        0 <= exponent < 0x800,
        0 <= fraction < 0x10_0000_0000_0000,
        bits == (if sign { 0x8000_0000_0000_0000int } else { 0int }) + exponent
            * 0x10_0000_0000_0000 + fraction,
    ensures
        one_or_more(bits) <==> {
            &&& !sign
            &&& exponent >= 0x3ff
            &&& exponent == 0x7ff ==> fraction == 0
        },
        zero_or_more(bits) <==> {
            &&& sign ==> exponent == 0 && fraction == 0
            &&& exponent == 0x7ff ==> fraction == 0
        },
{
}

/// The patterns of at least 1.0 run from that of 1.0 to that of infinity without a gap, and those
/// of at least 0.0 from zero to infinity, with the negative zero beside them.
pub proof fn law_bounds_are_ranges(bits: u64)
    ensures
        one_or_more(bits) <==> 0x3ff0_0000_0000_0000 <= bits <= 0x7ff0_0000_0000_0000,
        zero_or_more(bits) <==> bits <= 0x7ff0_0000_0000_0000 || bits == 0x8000_0000_0000_0000,
        one_or_more(bits) ==> zero_or_more(bits),
{
}

/// Whether the pattern stands for a number that is at least 1.0.
pub fn is_one_or_more(bits: u64) -> (holds: bool)
    ensures
        holds == one_or_more(bits),
{
    ONE <= bits && bits <= 0x7ff0_0000_0000_0000
}

/// Whether the pattern stands for a number that is at least 0.0.
pub fn is_zero_or_more(bits: u64) -> (holds: bool)
    ensures
        holds == zero_or_more(bits),
{
    bits <= 0x7ff0_0000_0000_0000 || bits == 0x8000_0000_0000_0000
}

} // verus!
