//! Integer square root: the specification, its basic lemmas, and the
//! executable root used by the protocol-fee formula.

use vstd::prelude::*;

verus! {

/// `r` is the integer square root of `x`: the greatest integer whose
/// square does not exceed `x`.
pub open spec fn is_sqrt(x: int, r: int) -> bool {
    &&& 0 <= r
    &&& r * r <= x
    &&& x < (r + 1) * (r + 1)
}

/// The integer square root of a non-negative `x`, as a mathematical value.
pub open spec fn floor_sqrt(x: int) -> int {
    choose|r: int| is_sqrt(x, r)
}

/// Every non-negative integer has an integer square root.
pub proof fn lemma_sqrt_exists(x: int)
    requires
        0 <= x,
    ensures
        is_sqrt(x, floor_sqrt(x)),
    decreases x,
{
    if x == 0 {
        assert(is_sqrt(0, 0)) by (nonlinear_arith);
    } else {
        lemma_sqrt_exists(x - 1);
        let p = floor_sqrt(x - 1);
        if x < (p + 1) * (p + 1) {
            assert(is_sqrt(x, p));
        } else {
            assert(x == (p + 1) * (p + 1));
            assert(is_sqrt((p + 1) * (p + 1), p + 1)) by (nonlinear_arith)
                requires
                    0 <= p,
            ;
        }
    }
}

/// The integer square root is unique.
pub proof fn lemma_sqrt_unique(x: int, a: int, b: int) by (nonlinear_arith)
    requires
        0 <= a,
        0 <= b,
        a * a <= x,
        x < (a + 1) * (a + 1),
        b * b <= x,
        x < (b + 1) * (b + 1),
    ensures
        a == b,
{
}

/// The square root of anything in the signed 128-bit range fits well below
/// the 64-bit range.
pub proof fn lemma_sqrt_bound(x: int, r: int) by (nonlinear_arith)
    requires
        is_sqrt(x, r),
        x <= i128::MAX,
    ensures
        r < 0x1_0000_0000_0000_0000,
{
}

/// Relies on `num_integer::Roots::sqrt` on `i128`: the truncated principal
/// square root of a non-negative integer, the unique `r` with
/// `r * r <= x < (r + 1) * (r + 1)`.  It panics on negative input, which
/// the precondition rules out.
#[verifier::external_body]
pub(crate) fn isqrt(x: i128) -> (r: i128)
    requires
        0 <= x,
    ensures
        0 <= r,
        r * r <= x,
        x < (r + 1) * (r + 1),
{
    num_integer::Roots::sqrt(&x)
}

/// The executable root agrees with the mathematical `floor_sqrt`.
pub fn sqrt_i128(x: i128) -> (r: i128)
    requires
        0 <= x,
    ensures
        0 <= r,
        r == floor_sqrt(x as int),
        is_sqrt(x as int, r as int),
{
    let r = isqrt(x);
    proof {
        lemma_sqrt_exists(x as int);
        lemma_sqrt_unique(x as int, r as int, floor_sqrt(x as int));
    }
    r
}

} // verus!
