//! 64.64 fixed-point encoding of a ratio of two 64-bit quantities, used by
//! the cumulative price accumulators.

use vstd::prelude::*;
use vstd::arithmetic::div_mod::lemma_div_non_zero;

verus! {

/// One, in 64.64 fixed point.
pub const Q64: u128 = 0x1_0000_0000_0000_0000;

/// The 64.64 fixed-point value of `n / d`, rounded down.
pub open spec fn spec_fraction(n: int, d: int) -> int {
    n * 0x1_0000_0000_0000_0000 / d
}

/// Encodes `n / d` as a 64.64 fixed-point number, rounding down.
pub fn fraction(n: u64, d: u64) -> (r: u128)
    requires
        d != 0,
    ensures
        r == spec_fraction(n as int, d as int),
{
    proof {
        assert((n as u128) * (Q64 as u128) <= (u64::MAX as u128) * 0x1_0000_0000_0000_0000
            <= u128::MAX) by (nonlinear_arith);
    }
    (n as u128) * Q64 / (d as u128)
}

/// A ratio of two nonzero 64-bit quantities never rounds down to zero:
/// the scaled numerator is at least 2^64, which exceeds any 64-bit
/// denominator.
pub proof fn lemma_fraction_positive(n: int, d: int)
    requires
        1 <= n,
        0 < d <= u64::MAX,
    ensures
        spec_fraction(n, d) >= 1,
{
    assert(n * 0x1_0000_0000_0000_0000 >= 0x1_0000_0000_0000_0000) by (nonlinear_arith)
        requires
            1 <= n,
    ;
    lemma_div_non_zero(n * 0x1_0000_0000_0000_0000, d);
    assert(spec_fraction(n, d) > 0);
}

} // verus!
