//! Scenarios with the factory's protocol fee switched on: fee-share
//! minting from square-root growth of the invariant, and the bookkeeping
//! of the reference product.

use soroswap_pair::{PairError, SoroswapPair};

const PAIR: u64 = 1;
const FACTORY: u64 = 2;
const TOKEN_0: u64 = 10;
const TOKEN_1: u64 = 11;
const USER: u64 = 7;
const OTHER: u64 = 55;
const FEE_TO: u64 = 99;

fn funded_fee_pair() -> SoroswapPair {
    let mut pair = SoroswapPair::new(PAIR);
    assert_eq!(pair.initialize_pair(FACTORY, TOKEN_0, TOKEN_1), Ok(()));
    assert_eq!(
        pair.deposit(USER, 1_000_000, 1_000_000, true, FEE_TO, 0),
        Ok(999_000)
    );
    pair
}

#[test]
fn first_deposit_with_fees_records_the_product() {
    let pair = funded_fee_pair();
    // No reference product existed yet, so no fee shares; the product is
    // recorded for next time.
    assert_eq!(pair.my_balance(FEE_TO), 0);
    assert_eq!(pair.k_last(), 1_000_000_000_000);
}

#[test]
fn growth_mints_fee_shares_on_the_next_deposit() {
    let mut pair = funded_fee_pair();
    // A large swap grows the invariant: 100_000 of asset 1 delivered,
    // 90_000 of asset 0 taken out.
    assert_eq!(pair.swap(90_000, 0, OTHER, 910_000, 1_100_000, 0), Ok(()));
    assert_eq!(pair.k_last(), 1_000_000_000_000);

    // sqrt(910_000 * 1_100_000) = 1_000_499, sqrt(k_last) = 1_000_000:
    // fee = 1_000_000 * 499 / (5 * 1_000_499 + 1_000_000) = 83 shares.
    let minted = pair.deposit(USER, 910_910, 1_101_100, true, FEE_TO, 0);
    assert_eq!(minted, Ok(1_000));
    assert_eq!(pair.my_balance(FEE_TO), 83);
    assert_eq!(pair.total_shares(), 1_001_083);
    assert_eq!(pair.k_last(), 910_910i128 * 1_101_100i128);
}

#[test]
fn disabling_fees_resets_the_reference_product() {
    let mut pair = funded_fee_pair();
    assert_eq!(pair.k_last(), 1_000_000_000_000);
    pair.ledger.transfer(USER, PAIR, 500);
    let r = pair.withdraw(USER, 1_000_000, 1_000_000, false, 0, 0);
    // 1_000_000 * 500 / 1_000_000 = 500 of each asset.
    assert_eq!(r, Ok((500, 500)));
    assert_eq!(pair.k_last(), 0);
    assert_eq!(pair.total_shares(), 999_500);
}

#[test]
fn withdraw_with_fees_mints_fee_shares_and_refreshes_the_product() {
    let mut pair = funded_fee_pair();
    assert_eq!(pair.swap(90_000, 0, OTHER, 910_000, 1_100_000, 0), Ok(()));
    pair.ledger.transfer(USER, PAIR, 500);
    let r = pair.withdraw(USER, 910_000, 1_100_000, true, FEE_TO, 0);
    // 83 fee shares are minted first, so the supply is 1_000_083:
    // 910_000 * 500 / 1_000_083 = 454 and 1_100_000 * 500 / 1_000_083 = 549.
    assert_eq!(r, Ok((454, 549)));
    assert_eq!(pair.my_balance(FEE_TO), 83);
    assert_eq!(pair.total_shares(), 999_583);
    assert_eq!(pair.get_reserves(), (909_546, 1_099_451, 0));
    assert_eq!(pair.k_last(), 909_546i128 * 1_099_451i128);
}
