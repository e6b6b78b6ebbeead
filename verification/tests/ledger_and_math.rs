//! Unit tests for the share ledger, the fixed-point fraction and the
//! integer square root, plus the price accumulators' exact arithmetic.

use soroswap_pair::math::sqrt_i128;
use soroswap_pair::uq64x64::fraction;
use soroswap_pair::{PairError, ShareLedger, SoroswapPair};

const PAIR: u64 = 1;
const FACTORY: u64 = 2;
const TOKEN_0: u64 = 10;
const TOKEN_1: u64 = 11;

#[test]
fn ledger_mint_burn_transfer() {
    let mut ledger = ShareLedger::new();
    assert_eq!(ledger.balance_of(3), 0);
    ledger.mint(3, 100);
    ledger.mint(4, 50);
    ledger.mint(3, 1);
    assert_eq!(ledger.balance_of(3), 101);
    assert_eq!(ledger.balance_of(4), 50);
    ledger.burn(3, 100);
    assert_eq!(ledger.balance_of(3), 1);
    ledger.transfer(4, 5, 20);
    assert_eq!(ledger.balance_of(4), 30);
    assert_eq!(ledger.balance_of(5), 20);
    // A transfer to oneself changes nothing.
    ledger.transfer(5, 5, 20);
    assert_eq!(ledger.balance_of(5), 20);
    // Burning nothing from an unknown holder is a no-op.
    ledger.burn(77, 0);
    assert_eq!(ledger.balance_of(77), 0);
}

#[test]
fn fraction_is_64_64_fixed_point() {
    assert_eq!(fraction(1, 2), 1u128 << 63);
    assert_eq!(fraction(3, 4), 3u128 << 62);
    assert_eq!(fraction(1, 1), 1u128 << 64);
    assert_eq!(fraction(u64::MAX, u64::MAX), 1u128 << 64);
    // 1 / u64::MAX rounds down to the smallest nonzero encoding.
    assert_eq!(fraction(1, u64::MAX), 1);
}

#[test]
fn sqrt_truncates() {
    assert_eq!(sqrt_i128(0), 0);
    assert_eq!(sqrt_i128(1), 1);
    assert_eq!(sqrt_i128(3), 1);
    assert_eq!(sqrt_i128(4), 2);
    assert_eq!(sqrt_i128(12_345 * 12_345), 12_345);
    assert_eq!(sqrt_i128(12_345 * 12_345 + 1), 12_345);
    assert_eq!(sqrt_i128(12_345 * 12_345 - 1), 12_344);
    let big: i128 = 1_000_000_000_000_000_000;
    assert_eq!(sqrt_i128(big * big + 5), big);
}

#[test]
fn accumulators_absorb_price_times_elapsed_time() {
    let mut pair = SoroswapPair::new(PAIR);
    assert_eq!(pair.initialize_pair(FACTORY, TOKEN_0, TOKEN_1), Ok(()));
    // Set reserves to (2, 1) without elapsing time.
    assert_eq!(pair.sync(2, 1, 0), Ok(()));
    assert_eq!(pair.price_0_cumulative_last(), 0);
    assert_eq!(pair.price_1_cumulative_last(), 0);
    // Three units of time at price 1/2 and 2/1.
    assert_eq!(pair.sync(2, 1, 3), Ok(()));
    assert_eq!(pair.price_0_cumulative_last(), 3u128 * (1u128 << 63));
    assert_eq!(pair.price_1_cumulative_last(), 3u128 * (2u128 << 64));
    // Accumulators only ever grow while reserves are nonzero.
    assert_eq!(pair.sync(2, 1, 5), Ok(()));
    assert_eq!(pair.price_0_cumulative_last(), 5u128 * (1u128 << 63));
    assert_eq!(pair.price_1_cumulative_last(), 5u128 * (2u128 << 64));
}

#[test]
fn accumulators_freeze_while_a_reserve_is_zero() {
    let mut pair = SoroswapPair::new(PAIR);
    assert_eq!(pair.initialize_pair(FACTORY, TOKEN_0, TOKEN_1), Ok(()));
    assert_eq!(pair.sync(0, 5, 0), Ok(()));
    // Time passes, but asset 0 has no reserve: no price to accumulate.
    assert_eq!(pair.sync(4, 5, 9), Ok(()));
    assert_eq!(pair.price_0_cumulative_last(), 0);
    assert_eq!(pair.price_1_cumulative_last(), 0);
    assert_eq!(pair.get_reserves(), (4, 5, 9));
}

#[test]
fn uninitialized_pool_rejects_every_mutation() {
    let mut pair = SoroswapPair::new(PAIR);
    assert_eq!(
        pair.deposit(3, 1, 1, false, 0, 0),
        Err(PairError::NotInitialized)
    );
    assert_eq!(pair.swap(1, 0, 3, 1, 1, 0), Err(PairError::NotInitialized));
    assert_eq!(pair.withdraw(3, 1, 1, false, 0, 0), Err(PairError::NotInitialized));
}
