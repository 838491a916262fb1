//! Laws of the arithmetic.

use crate::math::{fits, fits_u64, larger, quotient, smaller};
use vstd::prelude::*;

verus! {

/// An amount is a signed 128-bit number, and a counter an unsigned 64-bit one.
pub proof fn the_ranges(x: int)
    ensures
        fits(x) <==> -0x8000_0000_0000_0000_0000_0000_0000_0000 <= x
            < 0x8000_0000_0000_0000_0000_0000_0000_0000,
        fits_u64(x) <==> 0 <= x < 0x1_0000_0000_0000_0000,
{
}

/// A quotient takes no more out of a number than is in it, and leaves less
/// than the divisor; a sign on either side only changes the sign.
pub proof fn a_quotient_rounds_toward_zero(x: int, d: int)
    requires
        x >= 0,
        d > 0,
    ensures
        0 <= quotient(x, d),
        quotient(x, d) * d <= x < (quotient(x, d) + 1) * d,
        quotient(-x, d) == -quotient(x, d),
        quotient(x, -d) == -quotient(x, d),
        quotient(-x, -d) == quotient(x, d),
{
    let q = x / d;
    assert(q >= 0 && q * d <= x < (q + 1) * d) by (nonlinear_arith)
        requires
            q == x / d,
            x >= 0,
            d > 0,
    ;
    assert(0int / d == 0 && (0int / -(-d)) == 0) by (nonlinear_arith)
        requires
            d > 0,
    ;
}

/// The larger of two is one of them, and no less than either; the smaller is
/// the other.
pub proof fn the_larger_and_the_smaller(x: int, y: int)
    ensures
        larger(x, y) >= x && larger(x, y) >= y,
        larger(x, y) == x || larger(x, y) == y,
        smaller(x, y) <= x && smaller(x, y) <= y,
        larger(x, y) + smaller(x, y) == x + y,
{
}

} // verus!
