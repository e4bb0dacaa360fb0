//! Numbers as bit patterns.
//!
//! A number is carried as the 64 bits of its IEEE 754 double-precision
//! encoding: one sign bit, eleven exponent bits, fifty-two fraction bits.
//! Numeric equality is decided on those bits.

use vstd::prelude::*;

verus! {

/// All bits but the sign.
pub const MAGNITUDE_MASK: u64 = 0x7fff_ffff_ffff_ffff;

/// The magnitude bits of positive infinity: every magnitude above it is not a number.
pub const INFINITY_BITS: u64 = 0x7ff0_0000_0000_0000;

/// The bits without the sign.
pub open spec fn magnitude(bits: u64) -> u64 {
    bits & MAGNITUDE_MASK
}

/// The encoding stands for no number (NaN).
pub open spec fn is_nan(bits: u64) -> bool {
    magnitude(bits) > INFINITY_BITS
}

/// The encoding stands for zero, of either sign.
pub open spec fn is_zero(bits: u64) -> bool {
    magnitude(bits) == 0
}

/// Numeric equality of two encodings: no NaN equals anything, the two zeros
/// are equal, and any other two are equal exactly when their bits are.
pub open spec fn number_eq(a: u64, b: u64) -> bool {
    !is_nan(a) && !is_nan(b) && (a == b || (is_zero(a) && is_zero(b)))
}

/// Decides numeric equality of two encodings.
pub fn numbers_equal(a: u64, b: u64) -> (r: bool)
    ensures
        r == number_eq(a, b),
{
    let ma: u64 = a & MAGNITUDE_MASK;
    let mb: u64 = b & MAGNITUDE_MASK;
    if ma > INFINITY_BITS || mb > INFINITY_BITS {
        false
    } else {
        a == b || (ma == 0 && mb == 0)
    }
}

/// Numeric equality is symmetric.
pub proof fn lemma_number_eq_symmetric(a: u64, b: u64)
    ensures
        number_eq(a, b) == number_eq(b, a),
{
}

/// Every encoding but a NaN equals itself, and no NaN does.
pub proof fn lemma_number_eq_reflexive(a: u64)
    ensures
        number_eq(a, a) == !is_nan(a),
{
}

} // verus!
