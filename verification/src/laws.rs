//! The pool's cross-operation laws, each proved from the contracts the
//! operations themselves carry.

use vstd::prelude::*;
use vstd::arithmetic::div_mod::{
    lemma_div_pos_is_pos, lemma_fundamental_div_mod, lemma_mod_bound, lemma_multiply_divide_le,
};
use vstd::arithmetic::mul::lemma_mul_inequality;
use crate::math::lemma_sqrt_exists;
use crate::pair::{
    deposit_bal_ok, deposit_liquidity, fee_minted, price_0_increment, price_1_increment,
    total_after_fee, update_rel, withdraw_amount_0, withdraw_amount_1, withdraw_user_shares,
    SoroswapPair,
};
use crate::shares::ledger_sum;
use crate::uq64x64::{lemma_fraction_positive, spec_fraction};

verus! {

/// `TotalShares` always equals the sum of all share-ledger balances, the
/// pool's own locked minimum included.  The equality is a clause of the
/// state invariant, which every operation requires and re-establishes.
pub proof fn lemma_total_shares_is_ledger_sum(p: SoroswapPair)
    requires
        p.wf(),
    ensures
        p.total_shares == ledger_sum(p.ledger@),
{
}

/// For deposits after the first, the minted shares never exceed either
/// proportional entitlement `amount_i * shares / reserve_i`: the minimum
/// and the floor rounding rule out over-issuance.
pub proof fn lemma_deposit_no_overissuance(
    pre: SoroswapPair,
    b0: int,
    b1: int,
    fees_enabled: bool,
)
    requires
        total_after_fee(pre, fees_enabled) != 0,
    ensures
        deposit_liquidity(pre, b0, b1, fees_enabled) <= (b0 - pre.reserve_0) * total_after_fee(
            pre,
            fees_enabled,
        ) / (pre.reserve_0 as int),
        deposit_liquidity(pre, b0, b1, fees_enabled) <= (b1 - pre.reserve_1) * total_after_fee(
            pre,
            fees_enabled,
        ) / (pre.reserve_1 as int),
{
}

/// One asset's side of the deposit/withdraw round trip: shares `l` minted
/// against a reserve `r` and supply `s` (`l <= x * s / r`), redeemed
/// against the grown balance `r + x` and a supply of at least `s + l`,
/// pay out at most the `x` that was deposited.
proof fn lemma_payout_side(x: int, r: int, s: int, l: int, t: int)
    requires
        0 < r,
        0 <= s,
        0 <= x,
        0 <= l,
        l <= x * s / r,
        t >= s + l,
        0 < t,
    ensures
        (r + x) * l / t <= x,
{
    lemma_fundamental_div_mod(x * s, r);
    lemma_mod_bound(x * s, r);
    lemma_mul_inequality(l, x * s / r, r);
    assert((x * s / r) * r == r * (x * s / r)) by (nonlinear_arith);
    assert(l * r <= x * s);
    assert((r + x) * l == l * r + x * l) by (nonlinear_arith);
    assert(x * (s + l) == x * s + x * l) by (nonlinear_arith);
    assert((r + x) * l <= x * (s + l));
    lemma_mul_inequality(s + l, t, x);
    assert((s + l) * x == x * (s + l)) by (nonlinear_arith);
    assert(t * x == x * t) by (nonlinear_arith);
    assert((r + x) * l <= t * x);
    lemma_multiply_divide_le((r + x) * l, t, x);
}

/// Withdraw is the inverse of deposit up to rounding: depositing
/// `(x0, x1)` and immediately redeeming the minted shares returns at most
/// `x0` of one asset and `x1` of the other — never more, because both the
/// mint and the payout round down.
///
/// The hypotheses are exactly what `deposit`'s contract gives for a
/// non-first deposit against reserves `(r0, r1)` and supply `s`, and what
/// `withdraw`'s contract computes for redeeming `l` shares against the
/// grown balances when the supply has become at least `s + l` (protocol
/// fees only ever enlarge it).
pub proof fn lemma_withdraw_bounded_by_deposit(
    x0: int,
    x1: int,
    r0: int,
    r1: int,
    s: int,
    l: int,
    t: int,
)
    requires
        0 < r0,
        0 < r1,
        0 <= s,
        0 <= x0,
        0 <= x1,
        0 <= l,
        l <= x0 * s / r0,
        l <= x1 * s / r1,
        t >= s + l,
        0 < t,
    ensures
        (r0 + x0) * l / t <= x0,
        (r1 + x1) * l / t <= x1,
{
    lemma_payout_side(x0, r0, s, l, t);
    lemma_payout_side(x1, r1, s, l, t);
}

/// The protocol fee never burns: the shares minted to the fee recipient
/// are non-negative in every state.
pub proof fn lemma_fee_minted_nonneg(pre: SoroswapPair, fees_enabled: bool)
    requires
        pre.wf(),
    ensures
        0 <= fee_minted(pre, fees_enabled),
{
    if fees_enabled && pre.klast != 0 {
        let rk = crate::math::floor_sqrt(pre.reserve_0 * pre.reserve_1);
        let rkl = crate::math::floor_sqrt(pre.klast as int);
        assert(pre.reserve_0 * pre.reserve_1 >= 0) by (nonlinear_arith)
            requires
                pre.reserve_0 >= 0,
                pre.reserve_1 >= 0,
        ;
        lemma_sqrt_exists(pre.reserve_0 * pre.reserve_1);
        lemma_sqrt_exists(pre.klast as int);
        if rk > rkl {
            assert(pre.total_shares * (rk - rkl) >= 0) by (nonlinear_arith)
                requires
                    pre.total_shares >= 0,
                    rk > rkl,
            ;
            lemma_div_pos_is_pos(pre.total_shares * (rk - rkl), 5 * rk + rkl);
        }
    }
}

/// Withdraw is the inverse of deposit up to rounding, stated over the two
/// operations' own contract functions: after a non-first deposit that
/// grew the observed balances from the reserves to `(b0, b1)`, sending
/// the minted shares back and redeeming them against the same balances
/// pays out at most what was deposited.
pub proof fn lemma_round_trip_payout_bounded(
    pre: SoroswapPair,
    mid: SoroswapPair,
    b0: int,
    b1: int,
    fees_enabled: bool,
    fees_enabled_later: bool,
)
    requires
        pre.wf(),
        mid.wf(),
        0 < pre.reserve_0,
        0 < pre.reserve_1,
        deposit_bal_ok(pre, b0, b1),
        total_after_fee(pre, fees_enabled) != 0,
        deposit_liquidity(pre, b0, b1, fees_enabled) > 0,
        // What deposit's contract says of the state it leaves behind ...
        mid.reserve_0 == b0,
        mid.reserve_1 == b1,
        mid.total_shares == total_after_fee(pre, fees_enabled) + deposit_liquidity(
            pre,
            b0,
            b1,
            fees_enabled,
        ),
        // ... and the minted shares have been sent back to the pool.
        withdraw_user_shares(mid) == deposit_liquidity(pre, b0, b1, fees_enabled),
    ensures
        withdraw_amount_0(mid, b0, fees_enabled_later) <= b0 - pre.reserve_0,
        withdraw_amount_1(mid, b1, fees_enabled_later) <= b1 - pre.reserve_1,
{
    let x0 = b0 - pre.reserve_0;
    let x1 = b1 - pre.reserve_1;
    let s = total_after_fee(pre, fees_enabled);
    let l = deposit_liquidity(pre, b0, b1, fees_enabled);
    let t = total_after_fee(mid, fees_enabled_later);
    lemma_fee_minted_nonneg(pre, fees_enabled);
    lemma_fee_minted_nonneg(mid, fees_enabled_later);
    lemma_withdraw_bounded_by_deposit(x0, x1, pre.reserve_0 as int, pre.reserve_1 as int, s, l, t);
}

/// Repeated sync with unchanged observed balances is idempotent: the
/// second update happens at the same instant, so no time has elapsed and
/// neither the reserves nor the accumulators move again.
pub proof fn lemma_sync_idempotent(
    p0: SoroswapPair,
    p1: SoroswapPair,
    p2: SoroswapPair,
    b0: i128,
    b1: i128,
    now: u64,
)
    requires
        update_rel(p0, b0, b1, now, p1),
        update_rel(p1, b0, b1, now, p2),
    ensures
        p2.reserve_0 == p1.reserve_0,
        p2.reserve_1 == p1.reserve_1,
        p2.block_timestamp_last == p1.block_timestamp_last,
        p2.price_0_cumulative_last == p1.price_0_cumulative_last,
        p2.price_1_cumulative_last == p1.price_1_cumulative_last,
{
}

/// Between two updates separated by positive elapsed time with both
/// reserves nonzero, each price accumulator strictly increases — as long
/// as it does not wrap around its 128-bit range.
pub proof fn lemma_price_accumulators_increase(
    pre: SoroswapPair,
    post: SoroswapPair,
    b0: i128,
    b1: i128,
    now: u64,
)
    requires
        pre.wf(),
        update_rel(pre, b0, b1, now, post),
        now > pre.block_timestamp_last,
        pre.reserve_0 > 0,
        pre.reserve_1 > 0,
        pre.price_0_cumulative_last + price_0_increment(
            pre.reserve_0 as int,
            pre.reserve_1 as int,
            now - pre.block_timestamp_last,
        ) <= u128::MAX,
        pre.price_1_cumulative_last + price_1_increment(
            pre.reserve_0 as int,
            pre.reserve_1 as int,
            now - pre.block_timestamp_last,
        ) <= u128::MAX,
    ensures
        post.price_0_cumulative_last > pre.price_0_cumulative_last,
        post.price_1_cumulative_last > pre.price_1_cumulative_last,
{
    let e = now - pre.block_timestamp_last;
    lemma_fraction_positive(pre.reserve_1 as int, pre.reserve_0 as int);
    lemma_fraction_positive(pre.reserve_0 as int, pre.reserve_1 as int);
    let f0 = spec_fraction(pre.reserve_1 as int, pre.reserve_0 as int);
    let f1 = spec_fraction(pre.reserve_0 as int, pre.reserve_1 as int);
    assert(f0 * e >= 1) by (nonlinear_arith)
        requires
            f0 >= 1,
            e >= 1,
    ;
    assert(f1 * e >= 1) by (nonlinear_arith)
        requires
            f1 >= 1,
            e >= 1,
    ;
}

/// When either reserve is zero, an update leaves both price accumulators
/// exactly as they were, whatever time has elapsed.
pub proof fn lemma_price_accumulators_frozen(
    pre: SoroswapPair,
    post: SoroswapPair,
    b0: i128,
    b1: i128,
    now: u64,
)
    requires
        update_rel(pre, b0, b1, now, post),
        pre.reserve_0 == 0 || pre.reserve_1 == 0,
    ensures
        post.price_0_cumulative_last == pre.price_0_cumulative_last,
        post.price_1_cumulative_last == pre.price_1_cumulative_last,
{
}

} // verus!
