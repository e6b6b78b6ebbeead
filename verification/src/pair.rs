//! The invariant engine: the pool's state record and its five mutating
//! operations — deposit, swap, withdraw, skim and sync — together with the
//! two private algorithms they route through, protocol-fee share
//! computation and the reserve/accumulator update.
//!
//! The pool is a pure state machine over plain values.  Asset custody and
//! the factory's fee switch live outside it: every operation takes the
//! externally observed balances (and, where fees matter, the factory's
//! answers) as arguments, and reports the transfers the caller must
//! perform.  Each operation either fully commits or returns an error and
//! leaves the state untouched.

use vstd::prelude::*;
use vstd::arithmetic::div_mod::{lemma_div_is_ordered, lemma_div_multiples_vanish, lemma_div_pos_is_pos};
use vstd::arithmetic::mul::lemma_mul_inequality;
use crate::errors::PairError;
use crate::math::{floor_sqrt, lemma_sqrt_bound, sqrt_i128};
use crate::shares::{ShareLedger, ledger_balance, ledger_sum, lemma_sum_ge_balance};
use crate::uq64x64::{fraction, spec_fraction};

verus! {

/// Shares minted on the first deposit and locked in the pool forever.
pub const MINIMUM_LIQUIDITY: i128 = 1000;

/// The settlement core of one two-asset constant-product pool.
pub struct SoroswapPair {
    /// Whether `initialize_pair` has run.
    pub initialized: bool,
    /// The pool's own address: the holder of the locked minimum liquidity.
    pub pair_address: u64,
    /// The factory that decides whether protocol fees are active.
    pub factory: u64,
    /// Identity of asset 0; orders strictly before `token_1`.
    pub token_0: u64,
    /// Identity of asset 1.
    pub token_1: u64,
    /// Last-synchronized custody of asset 0.
    pub reserve_0: i128,
    /// Last-synchronized custody of asset 1.
    pub reserve_1: i128,
    /// Ledger time of the last reserve update.
    pub block_timestamp_last: u64,
    /// Cumulative time-weighted price of asset 1 in asset 0, in 64.64 fixed point.
    pub price_0_cumulative_last: u128,
    /// Cumulative time-weighted price of asset 0 in asset 1, in 64.64 fixed point.
    pub price_1_cumulative_last: u128,
    /// Product of the reserves at the last liquidity event with fees active.
    pub klast: i128,
    /// Total outstanding pool shares.
    pub total_shares: i128,
    /// Per-holder pool-share balances.
    pub ledger: ShareLedger,
}

impl SoroswapPair {
    /// The state invariant.  Centrally: `total_shares` equals the sum of
    /// all share-ledger balances, the pool's own locked minimum included.
    pub open spec fn wf(self) -> bool {
        &&& self.ledger.wf()
        &&& self.total_shares == ledger_sum(self.ledger@)
        &&& 0 <= self.total_shares
        &&& 0 <= self.reserve_0 <= u64::MAX
        &&& 0 <= self.reserve_1 <= u64::MAX
        &&& 0 <= self.klast
        &&& self.initialized ==> self.token_0 < self.token_1
        &&& !self.initialized ==> self.total_shares == 0 && self.reserve_0 == 0
            && self.reserve_1 == 0 && self.klast == 0
    }

    /// A blank, uninitialized pool owned by `pair_address`.
    pub fn new(pair_address: u64) -> (r: SoroswapPair)
        ensures
            r.wf(),
            !r.initialized,
            r.pair_address == pair_address,
            r.block_timestamp_last == 0,
            r.price_0_cumulative_last == 0,
            r.price_1_cumulative_last == 0,
            forall|id: u64| ledger_balance(r.ledger@, id) == 0,
    {
        SoroswapPair {
            initialized: false,
            pair_address,
            factory: 0,
            token_0: 0,
            token_1: 0,
            reserve_0: 0,
            reserve_1: 0,
            block_timestamp_last: 0,
            price_0_cumulative_last: 0,
            price_1_cumulative_last: 0,
            klast: 0,
            total_shares: 0,
            ledger: ShareLedger::new(),
        }
    }

    /// Binds the pool to its factory and its two asset identities.
    ///
    /// Rejects a second initialization, and rejects asset identities that
    /// are not in strictly increasing order — the canonical ordering that
    /// addresses every pool of a pair identically.
    pub fn initialize_pair(&mut self, factory: u64, token_0: u64, token_1: u64) -> (r: Result<
        (),
        PairError,
    >)
        requires
            old(self).wf(),
        ensures
            final(self).wf(),
            r is Err ==> *final(self) == *old(self),
            (r == Err::<(), PairError>(PairError::InitializeAlreadyInitialized)) <==> old(
                self,
            ).initialized,
            !old(self).initialized ==> ((r == Err::<(), PairError>(
                PairError::InitializeTokenOrderInvalid,
            )) <==> token_0 >= token_1),
            (r is Ok) <==> (!old(self).initialized && token_0 < token_1),
            r is Ok ==> *final(self) == (SoroswapPair {
                initialized: true,
                factory,
                token_0,
                token_1,
                ..*old(self)
            }),
    {
        if self.initialized {
            return Err(PairError::InitializeAlreadyInitialized);
        }
        if token_0 >= token_1 {
            return Err(PairError::InitializeTokenOrderInvalid);
        }
        self.initialized = true;
        self.factory = factory;
        self.token_0 = token_0;
        self.token_1 = token_1;
        Ok(())
    }

    /// The identity of asset 0.
    pub fn token_0(&self) -> (r: u64)
        requires
            self.initialized,
        ensures
            r == self.token_0,
    {
        self.token_0
    }

    /// The identity of asset 1.
    pub fn token_1(&self) -> (r: u64)
        requires
            self.initialized,
        ensures
            r == self.token_1,
    {
        self.token_1
    }

    /// The factory this pool consults for protocol fees.
    pub fn factory(&self) -> (r: u64)
        requires
            self.initialized,
        ensures
            r == self.factory,
    {
        self.factory
    }

    /// Both reserves and the time they were last synchronized.
    pub fn get_reserves(&self) -> (r: (i128, i128, u64))
        ensures
            r == (self.reserve_0, self.reserve_1, self.block_timestamp_last),
    {
        (self.reserve_0, self.reserve_1, self.block_timestamp_last)
    }

    /// Total outstanding pool shares.
    pub fn total_shares(&self) -> (r: i128)
        ensures
            r == self.total_shares,
    {
        self.total_shares
    }

    /// The pool-share balance of `id`.
    pub fn my_balance(&self, id: u64) -> (r: i128)
        ensures
            r == ledger_balance(self.ledger@, id),
    {
        self.ledger.balance_of(id)
    }

    /// The reserve product recorded at the last fee-relevant event.
    pub fn k_last(&self) -> (r: i128)
        ensures
            r == self.klast,
    {
        self.klast
    }

    /// Cumulative time-weighted price of asset 1 in asset 0.
    pub fn price_0_cumulative_last(&self) -> (r: u128)
        ensures
            r == self.price_0_cumulative_last,
    {
        self.price_0_cumulative_last
    }

    /// Cumulative time-weighted price of asset 0 in asset 1.
    pub fn price_1_cumulative_last(&self) -> (r: u128)
        ensures
            r == self.price_1_cumulative_last,
    {
        self.price_1_cumulative_last
    }

    /// The surplus of each asset over its reserve: what `skim` pays out.
    ///
    /// The state is untouched; the caller transfers the returned amounts
    /// to the destination of its choice.
    pub fn skim(&self, balance_0: i128, balance_1: i128) -> (r: (i128, i128))
        requires
            self.wf(),
            self.initialized,
            self.reserve_0 <= balance_0,
            self.reserve_1 <= balance_1,
        ensures
            r.0 == balance_0 - self.reserve_0,
            r.1 == balance_1 - self.reserve_1,
    {
        (balance_0 - self.reserve_0, balance_1 - self.reserve_1)
    }

    /// Creates `amount` shares for `to` and grows the total accordingly.
    fn mint_shares(&mut self, to: u64, amount: i128)
        requires
            old(self).wf(),
            old(self).initialized,
            0 <= amount,
            old(self).total_shares + amount <= i128::MAX,
        ensures
            final(self).wf(),
            final(self).total_shares == old(self).total_shares + amount,
            ledger_balance(final(self).ledger@, to) == ledger_balance(old(self).ledger@, to)
                + amount,
            forall|id: u64|
                id != to ==> ledger_balance(final(self).ledger@, id) == ledger_balance(
                    old(self).ledger@,
                    id,
                ),
            *final(self) == (SoroswapPair {
                total_shares: final(self).total_shares,
                ledger: final(self).ledger,
                ..*old(self)
            }),
    {
        proof {
            lemma_sum_ge_balance(self.ledger@, to);
        }
        self.ledger.mint(to, amount);
        self.total_shares = self.total_shares + amount;
    }

    /// Destroys `amount` of the shares held by `from` and shrinks the total.
    fn burn_shares(&mut self, from: u64, amount: i128)
        requires
            old(self).wf(),
            old(self).initialized,
            0 <= amount,
            amount <= ledger_balance(old(self).ledger@, from),
        ensures
            final(self).wf(),
            final(self).total_shares == old(self).total_shares - amount,
            ledger_balance(final(self).ledger@, from) == ledger_balance(old(self).ledger@, from)
                - amount,
            forall|id: u64|
                id != from ==> ledger_balance(final(self).ledger@, id) == ledger_balance(
                    old(self).ledger@,
                    id,
                ),
            *final(self) == (SoroswapPair {
                total_shares: final(self).total_shares,
                ledger: final(self).ledger,
                ..*old(self)
            }),
    {
        proof {
            lemma_sum_ge_balance(self.ledger@, from);
        }
        self.ledger.burn(from, amount);
        self.total_shares = self.total_shares - amount;
    }
}

/// The 64.64 fixed-point price of asset 1 in asset 0 over `elapsed` time.
pub open spec fn price_0_increment(r0: int, r1: int, elapsed: int) -> int {
    spec_fraction(r1, r0) * elapsed
}

/// The 64.64 fixed-point price of asset 0 in asset 1 over `elapsed` time.
pub open spec fn price_1_increment(r0: int, r1: int, elapsed: int) -> int {
    spec_fraction(r0, r1) * elapsed
}

/// 128-bit wrapping of a sum that an accumulator absorbs.  Accumulator
/// wrap-around over very long horizons is tolerated by design — for price
/// tracking only, never for balances or shares.
pub open spec fn accum_wrap(p: u128, inc: int) -> int {
    if p + inc > u128::MAX {
        p + inc - 0x1_0000_0000_0000_0000_0000_0000_0000_0000
    } else {
        p + inc
    }
}

/// The price-increment products fit in 128 bits, so the accumulator
/// arithmetic cannot trap.
pub open spec fn update_arith_ok(pre: SoroswapPair, now: u64) -> bool {
    (now > pre.block_timestamp_last && pre.reserve_0 != 0 && pre.reserve_1 != 0) ==> {
        let elapsed = now - pre.block_timestamp_last;
        &&& price_0_increment(pre.reserve_0 as int, pre.reserve_1 as int, elapsed) <= u128::MAX
        &&& price_1_increment(pre.reserve_0 as int, pre.reserve_1 as int, elapsed) <= u128::MAX
    }
}

/// How one reserve/accumulator update transforms the state: reserves
/// become the observed balances, the clock advances, and each accumulator
/// absorbs the old instantaneous price times the elapsed time — only when
/// time has passed and both old reserves were nonzero.
pub open spec fn update_rel(
    pre: SoroswapPair,
    balance_0: i128,
    balance_1: i128,
    now: u64,
    post: SoroswapPair,
) -> bool {
    let elapsed = now - pre.block_timestamp_last;
    &&& post.reserve_0 == balance_0
    &&& post.reserve_1 == balance_1
    &&& post.block_timestamp_last == now
    &&& if elapsed > 0 && pre.reserve_0 != 0 && pre.reserve_1 != 0 {
        &&& post.price_0_cumulative_last == accum_wrap(
            pre.price_0_cumulative_last,
            price_0_increment(pre.reserve_0 as int, pre.reserve_1 as int, elapsed),
        )
        &&& post.price_1_cumulative_last == accum_wrap(
            pre.price_1_cumulative_last,
            price_1_increment(pre.reserve_0 as int, pre.reserve_1 as int, elapsed),
        )
    } else {
        &&& post.price_0_cumulative_last == pre.price_0_cumulative_last
        &&& post.price_1_cumulative_last == pre.price_1_cumulative_last
    }
}

impl SoroswapPair {
    /// Writes new reserves and accumulates time-weighted prices.
    fn apply_update(&mut self, balance_0: i128, balance_1: i128, now: u64)
        requires
            old(self).wf(),
            old(self).initialized,
            0 <= balance_0 <= u64::MAX,
            0 <= balance_1 <= u64::MAX,
            now >= old(self).block_timestamp_last,
            update_arith_ok(*old(self), now),
        ensures
            final(self).wf(),
            update_rel(*old(self), balance_0, balance_1, now, *final(self)),
            *final(self) == (SoroswapPair {
                reserve_0: balance_0,
                reserve_1: balance_1,
                block_timestamp_last: now,
                price_0_cumulative_last: final(self).price_0_cumulative_last,
                price_1_cumulative_last: final(self).price_1_cumulative_last,
                ..*old(self)
            }),
    {
        let elapsed: u64 = now - self.block_timestamp_last;
        if elapsed > 0 && self.reserve_0 != 0 && self.reserve_1 != 0 {
            let frac0: u128 = fraction(self.reserve_1 as u64, self.reserve_0 as u64);
            let frac1: u128 = fraction(self.reserve_0 as u64, self.reserve_1 as u64);
            let inc0: u128 = frac0 * (elapsed as u128);
            let inc1: u128 = frac1 * (elapsed as u128);
            self.price_0_cumulative_last = self.price_0_cumulative_last.wrapping_add(inc0);
            self.price_1_cumulative_last = self.price_1_cumulative_last.wrapping_add(inc1);
        }
        self.reserve_0 = balance_0;
        self.reserve_1 = balance_1;
        self.block_timestamp_last = now;
    }

    /// Forces the reserves to match the observed balances through the
    /// regular update algorithm; shares and fees are untouched.  Fails
    /// with `UpdateOverflow` when an observed balance exceeds the 64-bit
    /// range the accumulators require, leaving the state unchanged.
    pub fn sync(&mut self, balance_0: i128, balance_1: i128, now: u64) -> (r: Result<
        (),
        PairError,
    >)
        requires
            old(self).wf(),
            old(self).initialized,
            0 <= balance_0,
            0 <= balance_1,
            now >= old(self).block_timestamp_last,
            (balance_0 <= u64::MAX && balance_1 <= u64::MAX) ==> update_arith_ok(*old(self), now),
        ensures
            final(self).wf(),
            r is Err ==> *final(self) == *old(self),
            (r == Err::<(), PairError>(PairError::UpdateOverflow)) <==> (balance_0 > u64::MAX
                || balance_1 > u64::MAX),
            (r is Ok) <==> (balance_0 <= u64::MAX && balance_1 <= u64::MAX),
            r is Ok ==> update_rel(*old(self), balance_0, balance_1, now, *final(self)),
            r is Ok ==> *final(self) == (SoroswapPair {
                reserve_0: balance_0,
                reserve_1: balance_1,
                block_timestamp_last: now,
                price_0_cumulative_last: final(self).price_0_cumulative_last,
                price_1_cumulative_last: final(self).price_1_cumulative_last,
                ..*old(self)
            }),
    {
        if balance_0 > u64::MAX as i128 || balance_1 > u64::MAX as i128 {
            return Err(PairError::UpdateOverflow);
        }
        self.apply_update(balance_0, balance_1, now);
        Ok(())
    }
}

/// The input actually received on one side of a swap: the excess of the
/// observed balance over the reserve already net of the paid-out amount,
/// floored at zero.
pub open spec fn swap_in_amount(balance: int, reserve: int, out: int) -> int {
    if balance > reserve - out {
        balance - (reserve - out)
    } else {
        0
    }
}

/// The pool retains 0.3% of each derived input, rounded down.
pub open spec fn swap_fee(amount_in: int) -> int {
    amount_in * 3 / 1000
}

/// The swap's output-side checks pass: initialized, something requested,
/// nothing negative.
pub open spec fn swap_checks_out_ok(pre: SoroswapPair, a0_out: int, a1_out: int) -> bool {
    &&& pre.initialized
    &&& !(a0_out == 0 && a1_out == 0)
    &&& 0 <= a0_out
    &&& 0 <= a1_out
}

/// ... and each requested output stays strictly below its reserve.
pub open spec fn swap_checks_liq_ok(pre: SoroswapPair, a0_out: int, a1_out: int) -> bool {
    &&& swap_checks_out_ok(pre, a0_out, a1_out)
    &&& a0_out < pre.reserve_0
    &&& a1_out < pre.reserve_1
}

/// ... and the destination is neither of the pair's asset identities.
pub open spec fn swap_checks_to_ok(pre: SoroswapPair, a0_out: int, a1_out: int, to: u64) -> bool {
    &&& swap_checks_liq_ok(pre, a0_out, a1_out)
    &&& to != pre.token_0
    &&& to != pre.token_1
}

/// ... and the observed balances fit the 64-bit range updates require.
pub open spec fn swap_checks_bal_ok(
    pre: SoroswapPair,
    a0_out: int,
    a1_out: int,
    to: u64,
    b0: int,
    b1: int,
) -> bool {
    &&& swap_checks_to_ok(pre, a0_out, a1_out, to)
    &&& b0 <= u64::MAX
    &&& b1 <= u64::MAX
}

/// ... and some input was actually delivered.
pub open spec fn swap_checks_in_ok(
    pre: SoroswapPair,
    a0_out: int,
    a1_out: int,
    to: u64,
    b0: int,
    b1: int,
) -> bool {
    &&& swap_checks_bal_ok(pre, a0_out, a1_out, to, b0, b1)
    &&& !(swap_in_amount(b0, pre.reserve_0 as int, a0_out) == 0 && swap_in_amount(
        b1,
        pre.reserve_1 as int,
        a1_out,
    ) == 0)
}

/// The central pricing guarantee: the fee-adjusted post-trade product is
/// no less than the pre-trade product of the reserves.
pub open spec fn swap_k_ok(pre: SoroswapPair, a0_out: int, a1_out: int, b0: int, b1: int) -> bool {
    let in0 = swap_in_amount(b0, pre.reserve_0 as int, a0_out);
    let in1 = swap_in_amount(b1, pre.reserve_1 as int, a1_out);
    (b0 - swap_fee(in0)) * (b1 - swap_fee(in1)) >= pre.reserve_0 * pre.reserve_1
}

/// Every check of the swap passes.
pub open spec fn swap_accepted(
    pre: SoroswapPair,
    a0_out: int,
    a1_out: int,
    to: u64,
    b0: int,
    b1: int,
) -> bool {
    &&& swap_checks_in_ok(pre, a0_out, a1_out, to, b0, b1)
    &&& swap_k_ok(pre, a0_out, a1_out, b0, b1)
}

/// The products the swap's fee arithmetic forms stay in the signed
/// 128-bit range.
pub open spec fn swap_arith_ok(
    pre: SoroswapPair,
    a0_out: int,
    a1_out: int,
    to: u64,
    b0: int,
    b1: int,
) -> bool {
    swap_checks_in_ok(pre, a0_out, a1_out, to, b0, b1) ==> {
        let in0 = swap_in_amount(b0, pre.reserve_0 as int, a0_out);
        let in1 = swap_in_amount(b1, pre.reserve_1 as int, a1_out);
        &&& (b0 - swap_fee(in0)) * (b1 - swap_fee(in1)) <= i128::MAX
        &&& pre.reserve_0 * pre.reserve_1 <= i128::MAX
    }
}

impl SoroswapPair {
    /// Exchanges one asset for the other under the constant-product rule.
    ///
    /// The requested outputs have already been paid out by the caller when
    /// the observed balances are read: `balance_0` and `balance_1` are the
    /// post-payout custody amounts, and the inputs actually delivered are
    /// derived from them.  0.3% of each derived input is kept out of the
    /// invariant check as the liquidity-provider fee.
    pub fn swap(
        &mut self,
        amount_0_out: i128,
        amount_1_out: i128,
        to: u64,
        balance_0: i128,
        balance_1: i128,
        now: u64,
    ) -> (r: Result<(), PairError>)
        requires
            old(self).wf(),
            now >= old(self).block_timestamp_last,
            0 <= balance_0,
            0 <= balance_1,
            swap_arith_ok(
                *old(self),
                amount_0_out as int,
                amount_1_out as int,
                to,
                balance_0 as int,
                balance_1 as int,
            ),
            swap_accepted(
                *old(self),
                amount_0_out as int,
                amount_1_out as int,
                to,
                balance_0 as int,
                balance_1 as int,
            ) ==> update_arith_ok(*old(self), now),
        ensures
            final(self).wf(),
            r is Err ==> *final(self) == *old(self),
            (r == Err::<(), PairError>(PairError::NotInitialized)) <==> !old(self).initialized,
            old(self).initialized ==> ((r == Err::<(), PairError>(
                PairError::SwapInsufficientOutputAmount,
            )) <==> (amount_0_out == 0 && amount_1_out == 0)),
            (old(self).initialized && !(amount_0_out == 0 && amount_1_out == 0)) ==> ((r == Err::<
                (),
                PairError,
            >(PairError::SwapNegativesOutNotSupported)) <==> (amount_0_out < 0 || amount_1_out
                < 0)),
            swap_checks_out_ok(*old(self), amount_0_out as int, amount_1_out as int) ==> ((r
                == Err::<(), PairError>(PairError::SwapInsufficientLiquidity)) <==> (amount_0_out
                >= old(self).reserve_0 || amount_1_out >= old(self).reserve_1)),
            swap_checks_liq_ok(*old(self), amount_0_out as int, amount_1_out as int) ==> ((r
                == Err::<(), PairError>(PairError::SwapInvalidTo)) <==> (to == old(self).token_0
                || to == old(self).token_1)),
            swap_checks_to_ok(*old(self), amount_0_out as int, amount_1_out as int, to) ==> ((r
                == Err::<(), PairError>(PairError::UpdateOverflow)) <==> (balance_0 > u64::MAX
                || balance_1 > u64::MAX)),
            swap_checks_bal_ok(
                *old(self),
                amount_0_out as int,
                amount_1_out as int,
                to,
                balance_0 as int,
                balance_1 as int,
            ) ==> ((r == Err::<(), PairError>(PairError::SwapInsufficientInputAmount)) <==> (
            swap_in_amount(balance_0 as int, old(self).reserve_0 as int, amount_0_out as int) == 0
                && swap_in_amount(
                balance_1 as int,
                old(self).reserve_1 as int,
                amount_1_out as int,
            ) == 0)),
            r != Err::<(), PairError>(PairError::SwapNegativesInNotSupported),
            swap_checks_in_ok(
                *old(self),
                amount_0_out as int,
                amount_1_out as int,
                to,
                balance_0 as int,
                balance_1 as int,
            ) ==> ((r == Err::<(), PairError>(PairError::SwapKConstantNotMet)) <==> !swap_k_ok(
                *old(self),
                amount_0_out as int,
                amount_1_out as int,
                balance_0 as int,
                balance_1 as int,
            )),
            (r is Ok) <==> swap_accepted(
                *old(self),
                amount_0_out as int,
                amount_1_out as int,
                to,
                balance_0 as int,
                balance_1 as int,
            ),
            r is Ok ==> swap_k_ok(
                *old(self),
                amount_0_out as int,
                amount_1_out as int,
                balance_0 as int,
                balance_1 as int,
            ),
            r is Ok ==> update_rel(*old(self), balance_0, balance_1, now, *final(self)),
            r is Ok ==> *final(self) == (SoroswapPair {
                reserve_0: balance_0,
                reserve_1: balance_1,
                block_timestamp_last: now,
                price_0_cumulative_last: final(self).price_0_cumulative_last,
                price_1_cumulative_last: final(self).price_1_cumulative_last,
                ..*old(self)
            }),
    {
        if !self.initialized {
            return Err(PairError::NotInitialized);
        }
        if amount_0_out == 0 && amount_1_out == 0 {
            return Err(PairError::SwapInsufficientOutputAmount);
        }
        if amount_0_out < 0 || amount_1_out < 0 {
            return Err(PairError::SwapNegativesOutNotSupported);
        }
        if amount_0_out >= self.reserve_0 || amount_1_out >= self.reserve_1 {
            return Err(PairError::SwapInsufficientLiquidity);
        }
        if to == self.token_0 || to == self.token_1 {
            return Err(PairError::SwapInvalidTo);
        }
        if balance_0 > u64::MAX as i128 || balance_1 > u64::MAX as i128 {
            return Err(PairError::UpdateOverflow);
        }
        let available_0 = self.reserve_0 - amount_0_out;
        let available_1 = self.reserve_1 - amount_1_out;
        let amount_0_in: i128 = if balance_0 > available_0 {
            balance_0 - available_0
        } else {
            0
        };
        let amount_1_in: i128 = if balance_1 > available_1 {
            balance_1 - available_1
        } else {
            0
        };
        if amount_0_in == 0 && amount_1_in == 0 {
            return Err(PairError::SwapInsufficientInputAmount);
        }
        if amount_0_in < 0 || amount_1_in < 0 {
            return Err(PairError::SwapNegativesInNotSupported);
        }
        let fee_0 = amount_0_in * 3 / 1000;
        let fee_1 = amount_1_in * 3 / 1000;
        proof {
            assert(amount_0_in * 3 / 1000 <= amount_0_in && amount_0_in * 3 / 1000 >= 0)
                by (nonlinear_arith)
                requires
                    amount_0_in >= 0,
            ;
            assert(amount_1_in * 3 / 1000 <= amount_1_in && amount_1_in * 3 / 1000 >= 0)
                by (nonlinear_arith)
                requires
                    amount_1_in >= 0,
            ;
        }
        let balance_0_minus_fee = balance_0 - fee_0;
        let balance_1_minus_fee = balance_1 - fee_1;
        if balance_0_minus_fee * balance_1_minus_fee < self.reserve_0 * self.reserve_1 {
            return Err(PairError::SwapKConstantNotMet);
        }
        self.apply_update(balance_0, balance_1, now);
        Ok(())
    }
}

/// Shares owed to the protocol-fee recipient for the square-root growth
/// of the invariant since the last liquidity event: roughly one sixth of
/// the accrued trading-fee value, by construction of the coefficients.
pub open spec fn spec_fee_shares(total_shares: int, klast: int, r0: int, r1: int) -> int {
    let rk = floor_sqrt(r0 * r1);
    let rkl = floor_sqrt(klast);
    if rk > rkl {
        total_shares * (rk - rkl) / (5 * rk + rkl)
    } else {
        0
    }
}

/// The fee shares a liquidity-changing operation mints before its own
/// accounting: nonzero only while fees are on and a reference product is
/// recorded.
pub open spec fn fee_minted(pre: SoroswapPair, fees_enabled: bool) -> int {
    if fees_enabled && pre.klast != 0 {
        spec_fee_shares(
            pre.total_shares as int,
            pre.klast as int,
            pre.reserve_0 as int,
            pre.reserve_1 as int,
        )
    } else {
        0
    }
}

/// The fee computation's intermediate products stay in the signed 128-bit
/// range.
pub open spec fn fee_arith_ok(pre: SoroswapPair, fees_enabled: bool) -> bool {
    (fees_enabled && pre.klast != 0) ==> {
        let rk = floor_sqrt(pre.reserve_0 * pre.reserve_1);
        let rkl = floor_sqrt(pre.klast as int);
        &&& pre.reserve_0 * pre.reserve_1 <= i128::MAX
        &&& (rk > rkl ==> pre.total_shares * (rk - rkl) <= i128::MAX)
    }
}

/// Total shares outstanding once the protocol fee has been minted.
pub open spec fn total_after_fee(pre: SoroswapPair, fees_enabled: bool) -> int {
    pre.total_shares + fee_minted(pre, fees_enabled)
}

/// The smaller of two quantities.
pub open spec fn min2(a: int, b: int) -> int {
    if a <= b {
        a
    } else {
        b
    }
}

/// The shares a deposit mints to its destination: the geometric mean of
/// the amounts, less the locked minimum, on the first deposit; afterwards
/// the smaller of the two proportional entitlements, rounded down.
pub open spec fn deposit_liquidity(
    pre: SoroswapPair,
    b0: int,
    b1: int,
    fees_enabled: bool,
) -> int {
    let a0 = b0 - pre.reserve_0;
    let a1 = b1 - pre.reserve_1;
    let s = total_after_fee(pre, fees_enabled);
    if s == 0 {
        floor_sqrt(a0 * a1) - MINIMUM_LIQUIDITY
    } else {
        min2(a0 * s / (pre.reserve_0 as int), a1 * s / (pre.reserve_1 as int))
    }
}

/// The deposit's amount checks pass: both observed balances grew.
pub open spec fn deposit_amounts_ok(pre: SoroswapPair, b0: int, b1: int) -> bool {
    &&& pre.initialized
    &&& b0 > pre.reserve_0
    &&& b1 > pre.reserve_1
}

/// ... and the observed balances fit the 64-bit range updates require.
pub open spec fn deposit_bal_ok(pre: SoroswapPair, b0: int, b1: int) -> bool {
    &&& deposit_amounts_ok(pre, b0, b1)
    &&& b0 <= u64::MAX
    &&& b1 <= u64::MAX
}

/// Every check of the deposit passes.
pub open spec fn deposit_accepted(pre: SoroswapPair, b0: int, b1: int, fees_enabled: bool) -> bool {
    &&& deposit_bal_ok(pre, b0, b1)
    &&& deposit_liquidity(pre, b0, b1, fees_enabled) > 0
}

/// The products the deposit's share arithmetic forms stay in the signed
/// 128-bit range, and the proportional path has nonzero reserves to
/// divide by.
pub open spec fn deposit_arith_ok(
    pre: SoroswapPair,
    b0: int,
    b1: int,
    fees_enabled: bool,
) -> bool {
    deposit_bal_ok(pre, b0, b1) ==> {
        let a0 = b0 - pre.reserve_0;
        let a1 = b1 - pre.reserve_1;
        let s = total_after_fee(pre, fees_enabled);
        &&& fee_arith_ok(pre, fees_enabled)
        &&& s <= i128::MAX
        &&& (s == 0 ==> a0 * a1 <= i128::MAX)
        &&& (s != 0 ==> pre.reserve_0 > 0 && pre.reserve_1 > 0 && a0 * s <= i128::MAX && a1 * s
            <= i128::MAX && s + deposit_liquidity(pre, b0, b1, fees_enabled) <= i128::MAX)
        &&& (fees_enabled ==> b0 * b1 <= i128::MAX)
    }
}

impl SoroswapPair {
    /// Computes the protocol-fee shares owed for invariant growth.
    fn fee_shares_calc(&self) -> (r: i128)
        requires
            self.wf(),
            self.klast != 0,
            self.reserve_0 * self.reserve_1 <= i128::MAX,
            floor_sqrt(self.reserve_0 * self.reserve_1) > floor_sqrt(self.klast as int)
                ==> self.total_shares * (floor_sqrt(self.reserve_0 * self.reserve_1) - floor_sqrt(
                self.klast as int,
            )) <= i128::MAX,
        ensures
            r == spec_fee_shares(
                self.total_shares as int,
                self.klast as int,
                self.reserve_0 as int,
                self.reserve_1 as int,
            ),
            0 <= r,
    {
        let k = self.reserve_0 * self.reserve_1;
        let root_k = sqrt_i128(k);
        let root_klast = sqrt_i128(self.klast);
        if root_k > root_klast {
            proof {
                lemma_sqrt_bound(k as int, root_k as int);
                lemma_sqrt_bound(self.klast as int, root_klast as int);
            }
            let numerator = self.total_shares * (root_k - root_klast);
            let denominator = 5 * root_k + root_klast;
            proof {
                lemma_div_pos_is_pos(numerator as int, denominator as int);
            }
            numerator / denominator
        } else {
            0
        }
    }

    /// Adds liquidity: mints shares for the amounts the observed balances
    /// have grown beyond the reserves.
    ///
    /// The caller has already delivered both assets to the pool's custody;
    /// `balance_0` and `balance_1` are the observed custody amounts.
    /// `fees_enabled` and `fee_to` are the factory's current answers.  On
    /// the first deposit ever, `MINIMUM_LIQUIDITY` shares are minted to
    /// the pool itself and locked forever.  Returns the shares minted to
    /// `to`.
    ///
    /// All accounting is exact integer arithmetic: the preconditions bound
    /// every intermediate product to the signed 128-bit range, so nothing
    /// can overflow or silently wrap.
    pub fn deposit(
        &mut self,
        to: u64,
        balance_0: i128,
        balance_1: i128,
        fees_enabled: bool,
        fee_to: u64,
        now: u64,
    ) -> (r: Result<i128, PairError>)
        requires
            old(self).wf(),
            now >= old(self).block_timestamp_last,
            deposit_arith_ok(*old(self), balance_0 as int, balance_1 as int, fees_enabled),
            deposit_accepted(*old(self), balance_0 as int, balance_1 as int, fees_enabled)
                ==> update_arith_ok(*old(self), now),
        ensures
            final(self).wf(),
            r is Err ==> *final(self) == *old(self),
            (r == Err::<i128, PairError>(PairError::NotInitialized)) <==> !old(self).initialized,
            old(self).initialized ==> ((r == Err::<i128, PairError>(
                PairError::DepositInsufficientAmountToken0,
            )) <==> balance_0 <= old(self).reserve_0),
            (old(self).initialized && balance_0 > old(self).reserve_0) ==> ((r == Err::<
                i128,
                PairError,
            >(PairError::DepositInsufficientAmountToken1)) <==> balance_1 <= old(self).reserve_1),
            deposit_amounts_ok(*old(self), balance_0 as int, balance_1 as int) ==> ((r == Err::<
                i128,
                PairError,
            >(PairError::UpdateOverflow)) <==> (balance_0 > u64::MAX || balance_1 > u64::MAX)),
            (deposit_bal_ok(*old(self), balance_0 as int, balance_1 as int) && total_after_fee(
                *old(self),
                fees_enabled,
            ) == 0) ==> ((r == Err::<i128, PairError>(PairError::DepositInsufficientFirstLiquidity))
                <==> deposit_liquidity(*old(self), balance_0 as int, balance_1 as int, fees_enabled)
                <= 0),
            (deposit_bal_ok(*old(self), balance_0 as int, balance_1 as int) && total_after_fee(
                *old(self),
                fees_enabled,
            ) != 0) ==> ((r == Err::<i128, PairError>(
                PairError::DepositInsufficientLiquidityMinted,
            )) <==> deposit_liquidity(*old(self), balance_0 as int, balance_1 as int, fees_enabled)
                <= 0),
            (r is Ok) <==> deposit_accepted(
                *old(self),
                balance_0 as int,
                balance_1 as int,
                fees_enabled,
            ),
            r is Ok ==> r->Ok_0 == deposit_liquidity(
                *old(self),
                balance_0 as int,
                balance_1 as int,
                fees_enabled,
            ),
            r is Ok ==> final(self).total_shares == total_after_fee(*old(self), fees_enabled) + (
            if total_after_fee(*old(self), fees_enabled) == 0 {
                MINIMUM_LIQUIDITY as int
            } else {
                0
            }) + deposit_liquidity(*old(self), balance_0 as int, balance_1 as int, fees_enabled),
            r is Ok ==> forall|id: u64|
                ledger_balance(final(self).ledger@, id) == ledger_balance(old(self).ledger@, id) + (
                if id == fee_to {
                    fee_minted(*old(self), fees_enabled)
                } else {
                    0
                }) + (if total_after_fee(*old(self), fees_enabled) == 0 && id == old(
                    self,
                ).pair_address {
                    MINIMUM_LIQUIDITY as int
                } else {
                    0
                }) + (if id == to {
                    deposit_liquidity(*old(self), balance_0 as int, balance_1 as int, fees_enabled)
                } else {
                    0
                }),
            r is Ok ==> final(self).klast == (if fees_enabled {
                balance_0 * balance_1
            } else {
                0
            }),
            r is Ok ==> update_rel(*old(self), balance_0, balance_1, now, *final(self)),
            r is Ok ==> *final(self) == (SoroswapPair {
                reserve_0: balance_0,
                reserve_1: balance_1,
                block_timestamp_last: now,
                price_0_cumulative_last: final(self).price_0_cumulative_last,
                price_1_cumulative_last: final(self).price_1_cumulative_last,
                klast: final(self).klast,
                total_shares: final(self).total_shares,
                ledger: final(self).ledger,
                ..*old(self)
            }),
    {
        if !self.initialized {
            return Err(PairError::NotInitialized);
        }
        let reserve_0 = self.reserve_0;
        let reserve_1 = self.reserve_1;
        if balance_0 <= reserve_0 {
            return Err(PairError::DepositInsufficientAmountToken0);
        }
        if balance_1 <= reserve_1 {
            return Err(PairError::DepositInsufficientAmountToken1);
        }
        if balance_0 > u64::MAX as i128 || balance_1 > u64::MAX as i128 {
            return Err(PairError::UpdateOverflow);
        }
        let amount_0 = balance_0 - reserve_0;
        let amount_1 = balance_1 - reserve_1;
        let fee_shares: i128 = if fees_enabled && self.klast != 0 {
            self.fee_shares_calc()
        } else {
            0
        };
        let total_after = self.total_shares + fee_shares;
        let first = total_after == 0;
        let liquidity: i128;
        if first {
            let previous_liquidity = sqrt_i128(amount_0 * amount_1);
            proof {
                lemma_sqrt_bound((amount_0 * amount_1) as int, previous_liquidity as int);
            }
            if previous_liquidity <= MINIMUM_LIQUIDITY {
                return Err(PairError::DepositInsufficientFirstLiquidity);
            }
            liquidity = previous_liquidity - MINIMUM_LIQUIDITY;
        } else {
            let shares_0 = amount_0 * total_after / reserve_0;
            let shares_1 = amount_1 * total_after / reserve_1;
            liquidity = if shares_0 <= shares_1 {
                shares_0
            } else {
                shares_1
            };
        }
        if liquidity <= 0 {
            return Err(PairError::DepositInsufficientLiquidityMinted);
        }
        let ghost pre = *old(self);
        let ghost mid0 = *self;
        if fee_shares > 0 {
            self.mint_shares(fee_to, fee_shares);
        }
        let ghost mid1 = *self;
        if first {
            let pair_address = self.pair_address;
            self.mint_shares(pair_address, MINIMUM_LIQUIDITY);
        }
        let ghost mid2 = *self;
        self.mint_shares(to, liquidity);
        self.apply_update(balance_0, balance_1, now);
        if fees_enabled {
            self.klast = balance_0 * balance_1;
        } else {
            self.klast = 0;
        }
        proof {
            assert forall|id: u64|
                ledger_balance(self.ledger@, id) == ledger_balance(pre.ledger@, id) + (if id
                    == fee_to {
                    fee_minted(pre, fees_enabled)
                } else {
                    0
                }) + (if total_after_fee(pre, fees_enabled) == 0 && id == pre.pair_address {
                    MINIMUM_LIQUIDITY as int
                } else {
                    0
                }) + (if id == to {
                    deposit_liquidity(pre, balance_0 as int, balance_1 as int, fees_enabled)
                } else {
                    0
                }) by {
                assert(ledger_balance(mid0.ledger@, id) == ledger_balance(pre.ledger@, id));
            }
        }
        Ok(liquidity)
    }
}

/// The shares the caller has sent to the pool for redemption: the pool's
/// own ledger balance less the permanently locked minimum.
pub open spec fn withdraw_user_shares(pre: SoroswapPair) -> int {
    ledger_balance(pre.ledger@, pre.pair_address) - MINIMUM_LIQUIDITY
}

/// The withdraw's share checks pass: initialized, shares were sent, and
/// more than the locked minimum.
pub open spec fn withdraw_shares_ok(pre: SoroswapPair) -> bool {
    &&& pre.initialized
    &&& ledger_balance(pre.ledger@, pre.pair_address) != 0
    &&& withdraw_user_shares(pre) > 0
}

/// ... and the observed balances fit the 64-bit range updates require.
pub open spec fn withdraw_bal_ok(pre: SoroswapPair, b0: int, b1: int) -> bool {
    &&& withdraw_shares_ok(pre)
    &&& b0 <= u64::MAX
    &&& b1 <= u64::MAX
}

/// The payout of asset 0: the sent shares' proportional claim on the
/// observed balance, rounded down — the pool never over-pays.
pub open spec fn withdraw_amount_0(pre: SoroswapPair, b0: int, fees_enabled: bool) -> int {
    b0 * withdraw_user_shares(pre) / total_after_fee(pre, fees_enabled)
}

/// The payout of asset 1.
pub open spec fn withdraw_amount_1(pre: SoroswapPair, b1: int, fees_enabled: bool) -> int {
    b1 * withdraw_user_shares(pre) / total_after_fee(pre, fees_enabled)
}

/// Every check of the withdraw passes.
pub open spec fn withdraw_accepted(
    pre: SoroswapPair,
    b0: int,
    b1: int,
    fees_enabled: bool,
) -> bool {
    &&& withdraw_bal_ok(pre, b0, b1)
    &&& withdraw_amount_0(pre, b0, fees_enabled) > 0
    &&& withdraw_amount_1(pre, b1, fees_enabled) > 0
}

/// The products the withdraw's payout arithmetic forms stay in the signed
/// 128-bit range.
pub open spec fn withdraw_arith_ok(
    pre: SoroswapPair,
    b0: int,
    b1: int,
    fees_enabled: bool,
) -> bool {
    withdraw_bal_ok(pre, b0, b1) ==> {
        &&& fee_arith_ok(pre, fees_enabled)
        &&& total_after_fee(pre, fees_enabled) <= i128::MAX
        &&& b0 * withdraw_user_shares(pre) <= i128::MAX
        &&& b1 * withdraw_user_shares(pre) <= i128::MAX
        &&& (fees_enabled ==> (b0 - withdraw_amount_0(pre, b0, fees_enabled)) * (b1
            - withdraw_amount_1(pre, b1, fees_enabled)) <= i128::MAX)
    }
}

impl SoroswapPair {
    /// Redeems the shares previously sent to the pool: burns them and pays
    /// out both assets in proportion, rounding in the pool's favor.
    ///
    /// `balance_0` and `balance_1` are the observed custody amounts before
    /// payout; the returned pair is what the caller must transfer to `to`.
    /// `fees_enabled` and `fee_to` are the factory's current answers.
    pub fn withdraw(
        &mut self,
        to: u64,
        balance_0: i128,
        balance_1: i128,
        fees_enabled: bool,
        fee_to: u64,
        now: u64,
    ) -> (r: Result<(i128, i128), PairError>)
        requires
            old(self).wf(),
            now >= old(self).block_timestamp_last,
            0 <= balance_0,
            0 <= balance_1,
            withdraw_arith_ok(*old(self), balance_0 as int, balance_1 as int, fees_enabled),
            withdraw_accepted(*old(self), balance_0 as int, balance_1 as int, fees_enabled)
                ==> update_arith_ok(*old(self), now),
        ensures
            final(self).wf(),
            r is Err ==> *final(self) == *old(self),
            (r == Err::<(i128, i128), PairError>(PairError::NotInitialized)) <==> !old(
                self,
            ).initialized,
            old(self).initialized ==> ((r == Err::<(i128, i128), PairError>(
                PairError::WithdrawLiquidityNotInitialized,
            )) <==> ledger_balance(old(self).ledger@, old(self).pair_address) == 0),
            (old(self).initialized && ledger_balance(old(self).ledger@, old(self).pair_address)
                != 0) ==> ((r == Err::<(i128, i128), PairError>(
                PairError::WithdrawInsufficientSentShares,
            )) <==> withdraw_user_shares(*old(self)) <= 0),
            withdraw_shares_ok(*old(self)) ==> ((r == Err::<(i128, i128), PairError>(
                PairError::UpdateOverflow,
            )) <==> (balance_0 > u64::MAX || balance_1 > u64::MAX)),
            withdraw_bal_ok(*old(self), balance_0 as int, balance_1 as int) ==> ((r == Err::<
                (i128, i128),
                PairError,
            >(PairError::WithdrawInsufficientLiquidityBurned)) <==> (withdraw_amount_0(
                *old(self),
                balance_0 as int,
                fees_enabled,
            ) <= 0 || withdraw_amount_1(*old(self), balance_1 as int, fees_enabled) <= 0)),
            (r is Ok) <==> withdraw_accepted(
                *old(self),
                balance_0 as int,
                balance_1 as int,
                fees_enabled,
            ),
            r is Ok ==> r->Ok_0.0 == withdraw_amount_0(*old(self), balance_0 as int, fees_enabled)
                && r->Ok_0.1 == withdraw_amount_1(*old(self), balance_1 as int, fees_enabled),
            r is Ok ==> final(self).total_shares == total_after_fee(*old(self), fees_enabled)
                - withdraw_user_shares(*old(self)),
            r is Ok ==> forall|id: u64|
                ledger_balance(final(self).ledger@, id) == ledger_balance(old(self).ledger@, id) + (
                if id == fee_to {
                    fee_minted(*old(self), fees_enabled)
                } else {
                    0
                }) - (if id == old(self).pair_address {
                    withdraw_user_shares(*old(self))
                } else {
                    0
                }),
            r is Ok ==> final(self).reserve_0 == balance_0 - withdraw_amount_0(
                *old(self),
                balance_0 as int,
                fees_enabled,
            ) && final(self).reserve_1 == balance_1 - withdraw_amount_1(
                *old(self),
                balance_1 as int,
                fees_enabled,
            ),
            r is Ok ==> final(self).klast == (if fees_enabled {
                final(self).reserve_0 * final(self).reserve_1
            } else {
                0
            }),
            r is Ok ==> update_rel(
                *old(self),
                final(self).reserve_0,
                final(self).reserve_1,
                now,
                *final(self),
            ),
            r is Ok ==> *final(self) == (SoroswapPair {
                reserve_0: final(self).reserve_0,
                reserve_1: final(self).reserve_1,
                block_timestamp_last: now,
                price_0_cumulative_last: final(self).price_0_cumulative_last,
                price_1_cumulative_last: final(self).price_1_cumulative_last,
                klast: final(self).klast,
                total_shares: final(self).total_shares,
                ledger: final(self).ledger,
                ..*old(self)
            }),
    {
        if !self.initialized {
            return Err(PairError::NotInitialized);
        }
        let balance_shares = self.ledger.balance_of(self.pair_address);
        proof {
            lemma_sum_ge_balance(self.ledger@, self.pair_address);
        }
        if balance_shares == 0 {
            return Err(PairError::WithdrawLiquidityNotInitialized);
        }
        let user_sent_shares = balance_shares - MINIMUM_LIQUIDITY;
        if user_sent_shares <= 0 {
            return Err(PairError::WithdrawInsufficientSentShares);
        }
        if balance_0 > u64::MAX as i128 || balance_1 > u64::MAX as i128 {
            return Err(PairError::UpdateOverflow);
        }
        let fee_shares: i128 = if fees_enabled && self.klast != 0 {
            self.fee_shares_calc()
        } else {
            0
        };
        let total = self.total_shares + fee_shares;
        let amount_0 = balance_0 * user_sent_shares / total;
        let amount_1 = balance_1 * user_sent_shares / total;
        proof {
            lemma_div_pos_is_pos(balance_0 * user_sent_shares, total as int);
            lemma_div_pos_is_pos(balance_1 * user_sent_shares, total as int);
        }
        if amount_0 <= 0 || amount_1 <= 0 {
            return Err(PairError::WithdrawInsufficientLiquidityBurned);
        }
        proof {
            lemma_mul_inequality(user_sent_shares as int, total as int, balance_0 as int);
            lemma_mul_inequality(user_sent_shares as int, total as int, balance_1 as int);
            assert(balance_0 * total == total * balance_0) by (nonlinear_arith);
            assert(balance_1 * total == total * balance_1) by (nonlinear_arith);
            assert(balance_0 * user_sent_shares == user_sent_shares * balance_0)
                by (nonlinear_arith);
            assert(balance_1 * user_sent_shares == user_sent_shares * balance_1)
                by (nonlinear_arith);
            lemma_div_is_ordered(
                balance_0 * user_sent_shares,
                balance_0 * total,
                total as int,
            );
            lemma_div_is_ordered(
                balance_1 * user_sent_shares,
                balance_1 * total,
                total as int,
            );
            lemma_div_multiples_vanish(balance_0 as int, total as int);
            lemma_div_multiples_vanish(balance_1 as int, total as int);
        }
        let ghost pre = *old(self);
        let ghost mid0 = *self;
        if fee_shares > 0 {
            self.mint_shares(fee_to, fee_shares);
        }
        let ghost mid1 = *self;
        let pair_address = self.pair_address;
        self.burn_shares(pair_address, user_sent_shares);
        // Execution is atomic and the asset ledger debits exactly what is
        // transferred, so the custody balances after the payout are the
        // observed balances less the payout amounts.
        let new_balance_0 = balance_0 - amount_0;
        let new_balance_1 = balance_1 - amount_1;
        self.apply_update(new_balance_0, new_balance_1, now);
        if fees_enabled {
            self.klast = new_balance_0 * new_balance_1;
        } else {
            self.klast = 0;
        }
        proof {
            assert forall|id: u64|
                ledger_balance(self.ledger@, id) == ledger_balance(pre.ledger@, id) + (if id
                    == fee_to {
                    fee_minted(pre, fees_enabled)
                } else {
                    0
                }) - (if id == pre.pair_address {
                    withdraw_user_shares(pre)
                } else {
                    0
                }) by {
                assert(ledger_balance(mid0.ledger@, id) == ledger_balance(pre.ledger@, id));
            }
        }
        Ok((amount_0, amount_1))
    }
}

} // verus!
