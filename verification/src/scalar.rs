//! Scalars as this crate receives them: the bit patterns of IEEE 754
//! double-precision numbers, one sign bit, eleven exponent bits and fifty-two
//! fraction bits.
//!
//! A pattern is compared, never computed with. Among the patterns of numbers
//! that are not negative the order of the patterns is the order of the
//! numbers, which `lemma_order_of_bits` proves against the exact value of a
//! pattern.

use vstd::prelude::*;
use vstd::arithmetic::power2::{lemma_pow2_pos, lemma_pow2_strictly_increases, lemma_pow2_unfold, pow2};

verus! {

/// The pattern of positive infinity: the largest pattern that is a number
/// greater than zero.
pub const INFINITY: u64 = 0x7ff0_0000_0000_0000;

/// The sign bit.
pub const SIGN: u64 = 0x8000_0000_0000_0000;

/// The sign bit is set.
pub open spec fn is_negative(bits: u64) -> bool {
    bits >= 0x8000_0000_0000_0000
}

/// The exponent field.
pub open spec fn exponent(bits: u64) -> nat {
    ((bits / 0x10_0000_0000_0000) % 0x800) as nat
}

/// The fraction field.
pub open spec fn fraction(bits: u64) -> nat {
    (bits % 0x10_0000_0000_0000) as nat
}

/// The pattern is no number.
pub open spec fn is_nan(bits: u64) -> bool {
    exponent(bits) == 0x7ff && fraction(bits) != 0
}

/// The pattern is an infinity.
pub open spec fn is_infinite(bits: u64) -> bool {
    exponent(bits) == 0x7ff && fraction(bits) == 0
}

/// The pattern is a zero.
pub open spec fn is_zero(bits: u64) -> bool {
    exponent(bits) == 0 && fraction(bits) == 0
}

/// The absolute value of a finite pattern, in units of 2^-1074: the fraction
/// alone for a subnormal number, and the fraction behind a leading one,
/// scaled by the exponent, for a normal one.
pub open spec fn magnitude(bits: u64) -> nat {
    if exponent(bits) == 0 {
        fraction(bits)
    } else {
        (0x10_0000_0000_0000 + fraction(bits)) * pow2((exponent(bits) - 1) as nat)
    }
}

/// The pattern is a number greater than zero, finite or infinite.
pub open spec fn is_positive(bits: u64) -> bool {
    !is_negative(bits) && !is_nan(bits) && !is_zero(bits)
}

/// The pattern with the sign bit cleared: the absolute value.
pub open spec fn absolute(bits: u64) -> u64 {
    if bits >= SIGN {
        (bits - SIGN) as u64
    } else {
        bits
    }
}

/// The pattern is a number less than zero, finite or infinite.
pub open spec fn is_below_zero(bits: u64) -> bool {
    is_negative(bits) && is_positive(absolute(bits))
}

/// `near` is a smaller number than `far`, neither being negative nor no
/// number.
pub open spec fn is_nearer(near: u64, far: u64) -> bool {
    if is_infinite(near) {
        false
    } else if is_infinite(far) {
        true
    } else {
        magnitude(near) < magnitude(far)
    }
}

/// The numbers greater than zero are the patterns from one up to
/// `INFINITY`.
pub proof fn lemma_positive_range(bits: u64)
    ensures
        is_positive(bits) <==> 0 < bits <= INFINITY,
{
}

/// Among the numbers that are not negative, zero included, the order of the
/// patterns is the order of the numbers.
pub proof fn lemma_order_of_bits(near: u64, far: u64)
    requires
        !is_negative(near) && !is_nan(near),
        !is_negative(far) && !is_nan(far),
    ensures
        near < far <==> is_nearer(near, far),
{
    let unit: int = 0x10_0000_0000_0000;
    let (en, fnear) = (exponent(near), fraction(near) as int);
    let (ef, ffar) = (exponent(far), fraction(far) as int);
    assert(near == en * unit + fnear);
    assert(far == ef * unit + ffar);
    if !is_infinite(near) && !is_infinite(far) {
        if en == ef {
            if en > 0 {
                let scale = pow2((en - 1) as nat) as int;
                lemma_pow2_pos((en - 1) as nat);
                assert(fnear < ffar <==> (unit + fnear) * scale < (unit + ffar) * scale)
                    by (nonlinear_arith)
                    requires
                        scale > 0,
                ;
            }
        } else if en < ef {
            lemma_magnitude_grows_with_exponent(near, far);
        } else {
            lemma_magnitude_grows_with_exponent(far, near);
        }
    }
}

/// A finite number with a smaller exponent field is the smaller number.
proof fn lemma_magnitude_grows_with_exponent(low: u64, high: u64)
    requires
        exponent(low) < exponent(high),
    ensures
        magnitude(low) < magnitude(high),
{
    let unit: int = 0x10_0000_0000_0000;
    let above = pow2((exponent(high) - 1) as nat) as int;
    let fhigh = fraction(high) as int;
    lemma_pow2_pos((exponent(high) - 1) as nat);
    assert(unit * above <= (unit + fhigh) * above) by (nonlinear_arith)
        requires
            above > 0,
            fhigh >= 0,
    ;
    if exponent(low) == 0 {
        assert(unit <= unit * above) by (nonlinear_arith)
            requires
                above >= 1,
                unit > 0,
        ;
    } else {
        let below = pow2((exponent(low) - 1) as nat) as int;
        let flow = fraction(low) as int;
        lemma_pow2_pos((exponent(low) - 1) as nat);
        lemma_pow2_unfold(exponent(low));
        if exponent(low) < exponent(high) - 1 {
            lemma_pow2_strictly_increases(exponent(low), (exponent(high) - 1) as nat);
        }
        assert(2 * below <= above);
        assert((unit + flow) * below < unit * above) by (nonlinear_arith)
            requires
                0 <= flow < unit,
                below > 0,
                2 * below <= above,
        ;
    }
}

/// Whether `bits` is the pattern of a number greater than zero.
pub fn is_greater_than_zero(bits: u64) -> (positive: bool)
    ensures
        positive == is_positive(bits),
{
    0 < bits && bits <= INFINITY
}

/// Whether `bits` is the pattern of a number less than zero.
pub fn is_less_than_zero(bits: u64) -> (below: bool)
    ensures
        below == is_below_zero(bits),
{
    SIGN < bits && bits <= SIGN + INFINITY
}

/// The pattern of the absolute value.
pub fn abs(bits: u64) -> (magnitude: u64)
    ensures
        magnitude == absolute(bits),
        !is_negative(magnitude),
        is_nan(magnitude) == is_nan(bits),
{
    if bits >= SIGN {
        bits - SIGN
    } else {
        bits
    }
}

} // verus!
