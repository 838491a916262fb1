//! Checked arithmetic on token amounts.
//!
//! The ledger aborts a transaction whose arithmetic leaves the 128-bit range.
//! These helpers turn that into [`Trap::Overflow`].

use crate::host::Trap;
use vstd::prelude::*;

verus! {

/// Basis points in the whole.
pub const BPS: i128 = 10_000;

/// Whether a number is a token amount.
pub open spec fn fits(x: int) -> bool {
    i128::MIN <= x <= i128::MAX
}

/// Whether a number is a counter or a time.
pub open spec fn fits_u64(x: int) -> bool {
    0 <= x <= u64::MAX
}

/// Division that rounds toward zero.
pub open spec fn quotient(x: int, d: int) -> int {
    if x >= 0 && d > 0 {
        x / d
    } else if x < 0 && d < 0 {
        (-x) / (-d)
    } else if x < 0 {
        -((-x) / d)
    } else {
        -(x / (-d))
    }
}

/// The larger of two numbers.
pub open spec fn larger(x: int, y: int) -> int {
    if x >= y {
        x
    } else {
        y
    }
}

/// The smaller of two numbers.
pub open spec fn smaller(x: int, y: int) -> int {
    if x <= y {
        x
    } else {
        y
    }
}

/// Dividing by a positive number does not leave the range.
pub proof fn lemma_quotient_shrinks(x: int, d: int)
    requires
        fits(x),
        d > 0,
    ensures
        fits(quotient(x, d)),
{
    assert(x >= 0 ==> 0 <= x / d <= x) by (nonlinear_arith)
        requires
            d > 0,
    ;
    assert(x < 0 ==> 0 <= (-x) / d <= -x) by (nonlinear_arith)
        requires
            d > 0,
    ;
}

/// `x + y`.
pub fn plus(x: i128, y: i128) -> (r: Result<i128, Trap>)
    ensures
        r == (if fits(x + y) {
            Ok::<i128, Trap>((x + y) as i128)
        } else {
            Err(Trap::Overflow)
        }),
{
    match x.checked_add(y) {
        Some(z) => Ok(z),
        None => Err(Trap::Overflow),
    }
}

/// `x - y`.
pub fn minus(x: i128, y: i128) -> (r: Result<i128, Trap>)
    ensures
        r == (if fits(x - y) {
            Ok::<i128, Trap>((x - y) as i128)
        } else {
            Err(Trap::Overflow)
        }),
{
    match x.checked_sub(y) {
        Some(z) => Ok(z),
        None => Err(Trap::Overflow),
    }
}

/// `x * y`.
pub fn times(x: i128, y: i128) -> (r: Result<i128, Trap>)
    ensures
        r == (if fits(x * y) {
            Ok::<i128, Trap>((x * y) as i128)
        } else {
            Err(Trap::Overflow)
        }),
{
    match x.checked_mul(y) {
        Some(z) => Ok(z),
        None => Err(Trap::Overflow),
    }
}

/// `x / d`, rounded toward zero.
pub fn over(x: i128, d: i128) -> (r: Result<i128, Trap>)
    requires
        d != 0,
    ensures
        r == (if fits(quotient(x as int, d as int)) {
            Ok::<i128, Trap>(quotient(x as int, d as int) as i128)
        } else {
            Err(Trap::Overflow)
        }),
{
    proof {
        if x == 0 {
            assert(0int / (d as int) == 0 && 0int / -(d as int) == 0) by (nonlinear_arith)
                requires
                    d != 0,
            ;
        }
    }
    match x.checked_div(d) {
        Some(z) => Ok(z),
        None => Err(Trap::Overflow),
    }
}

} // verus!
