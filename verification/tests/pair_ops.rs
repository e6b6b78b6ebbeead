//! End-to-end scenarios for the pool's five operations with protocol fees
//! switched off.

use soroswap_pair::{PairError, SoroswapPair};

const PAIR: u64 = 1;
const FACTORY: u64 = 2;
const TOKEN_0: u64 = 10;
const TOKEN_1: u64 = 11;
const USER: u64 = 7;
const OTHER: u64 = 55;

fn fresh_pair() -> SoroswapPair {
    let mut pair = SoroswapPair::new(PAIR);
    assert_eq!(pair.initialize_pair(FACTORY, TOKEN_0, TOKEN_1), Ok(()));
    pair
}

fn funded_pair() -> SoroswapPair {
    let mut pair = fresh_pair();
    assert_eq!(
        pair.deposit(USER, 1_000_000, 1_000_000, false, 0, 0),
        Ok(999_000)
    );
    pair
}

#[test]
fn initialize_binds_identities() {
    let pair = fresh_pair();
    assert_eq!(pair.token_0(), TOKEN_0);
    assert_eq!(pair.token_1(), TOKEN_1);
    assert_eq!(pair.factory(), FACTORY);
    assert_eq!(pair.get_reserves(), (0, 0, 0));
    assert_eq!(pair.total_shares(), 0);
    assert_eq!(pair.k_last(), 0);
}

#[test]
fn initialize_twice_is_rejected() {
    let mut pair = fresh_pair();
    assert_eq!(
        pair.initialize_pair(FACTORY, TOKEN_0, TOKEN_1),
        Err(PairError::InitializeAlreadyInitialized)
    );
}

#[test]
fn initialize_rejects_unordered_tokens() {
    let mut pair = SoroswapPair::new(PAIR);
    assert_eq!(
        pair.initialize_pair(FACTORY, TOKEN_1, TOKEN_0),
        Err(PairError::InitializeTokenOrderInvalid)
    );
    let mut pair = SoroswapPair::new(PAIR);
    assert_eq!(
        pair.initialize_pair(FACTORY, TOKEN_0, TOKEN_0),
        Err(PairError::InitializeTokenOrderInvalid)
    );
}

#[test]
fn first_deposit_mints_geometric_mean_less_locked_minimum() {
    let mut pair = fresh_pair();
    let minted = pair.deposit(USER, 1_000_000, 1_000_000, false, 0, 0);
    assert_eq!(minted, Ok(999_000));
    assert_eq!(pair.my_balance(USER), 999_000);
    assert_eq!(pair.my_balance(PAIR), 1_000);
    assert_eq!(pair.total_shares(), 1_000_000);
    assert_eq!(pair.get_reserves(), (1_000_000, 1_000_000, 0));
}

#[test]
fn deposit_before_initialization_is_rejected() {
    let mut pair = SoroswapPair::new(PAIR);
    assert_eq!(
        pair.deposit(USER, 1_000_000, 1_000_000, false, 0, 0),
        Err(PairError::NotInitialized)
    );
}

#[test]
fn deposit_without_growth_is_rejected() {
    let mut pair = funded_pair();
    assert_eq!(
        pair.deposit(USER, 1_000_000, 2_000_000, false, 0, 0),
        Err(PairError::DepositInsufficientAmountToken0)
    );
    assert_eq!(
        pair.deposit(USER, 2_000_000, 999_999, false, 0, 0),
        Err(PairError::DepositInsufficientAmountToken1)
    );
}

#[test]
fn first_deposit_below_minimum_is_rejected() {
    let mut pair = fresh_pair();
    // sqrt(500 * 500) = 500 <= 1000
    assert_eq!(
        pair.deposit(USER, 500, 500, false, 0, 0),
        Err(PairError::DepositInsufficientFirstLiquidity)
    );
}

#[test]
fn deposit_rounding_to_zero_shares_is_rejected() {
    let mut pair = funded_pair();
    assert_eq!(pair.sync(1_000_000, 1_000_000_000, 0), Ok(()));
    // amounts (5, 1): 1 * 1_000_000 / 1_000_000_000 rounds down to zero.
    assert_eq!(
        pair.deposit(USER, 1_000_005, 1_000_000_001, false, 0, 0),
        Err(PairError::DepositInsufficientLiquidityMinted)
    );
}

#[test]
fn second_deposit_mints_proportionally() {
    let mut pair = funded_pair();
    let minted = pair.deposit(OTHER, 3_000_000, 3_000_000, false, 0, 0);
    assert_eq!(minted, Ok(2_000_000));
    assert_eq!(pair.my_balance(OTHER), 2_000_000);
    assert_eq!(pair.total_shares(), 3_000_000);
    assert_eq!(pair.get_reserves(), (3_000_000, 3_000_000, 0));
}

#[test]
fn deposit_of_overlarge_balance_is_rejected() {
    let mut pair = funded_pair();
    let too_big = u64::MAX as i128 + 1;
    assert_eq!(
        pair.deposit(USER, too_big, 2_000_000, false, 0, 0),
        Err(PairError::UpdateOverflow)
    );
}

#[test]
fn swap_pays_out_against_delivered_input() {
    let mut pair = funded_pair();
    // 1000 of asset 1 was delivered; 996 of asset 0 is taken out.
    let r = pair.swap(996, 0, OTHER, 999_004, 1_001_000, 0);
    assert_eq!(r, Ok(()));
    assert_eq!(pair.get_reserves(), (999_004, 1_001_000, 0));
    assert_eq!(pair.total_shares(), 1_000_000);
}

#[test]
fn swap_demanding_whole_reserve_is_rejected() {
    let mut pair = funded_pair();
    assert_eq!(
        pair.swap(1_000_000, 0, OTHER, 1_000_000, 1_002_000, 0),
        Err(PairError::SwapInsufficientLiquidity)
    );
    assert_eq!(
        pair.swap(0, 1_000_000, OTHER, 1_002_000, 1_000_000, 0),
        Err(PairError::SwapInsufficientLiquidity)
    );
}

#[test]
fn swap_with_no_output_is_rejected() {
    let mut pair = funded_pair();
    assert_eq!(
        pair.swap(0, 0, OTHER, 1_000_000, 1_000_000, 0),
        Err(PairError::SwapInsufficientOutputAmount)
    );
}

#[test]
fn swap_with_negative_output_is_rejected() {
    let mut pair = funded_pair();
    assert_eq!(
        pair.swap(-5, 0, OTHER, 1_000_000, 1_000_000, 0),
        Err(PairError::SwapNegativesOutNotSupported)
    );
}

#[test]
fn swap_to_an_asset_identity_is_rejected() {
    let mut pair = funded_pair();
    assert_eq!(
        pair.swap(996, 0, TOKEN_0, 999_004, 1_001_000, 0),
        Err(PairError::SwapInvalidTo)
    );
    assert_eq!(
        pair.swap(996, 0, TOKEN_1, 999_004, 1_001_000, 0),
        Err(PairError::SwapInvalidTo)
    );
}

#[test]
fn swap_without_input_is_rejected() {
    let mut pair = funded_pair();
    // Balances exactly match the reserves net of the payout: nothing came in.
    assert_eq!(
        pair.swap(996, 0, OTHER, 999_004, 1_000_000, 0),
        Err(PairError::SwapInsufficientInputAmount)
    );
}

#[test]
fn swap_below_constant_product_is_rejected() {
    let mut pair = funded_pair();
    // Only 50 delivered against 100 taken out: the product shrinks.
    assert_eq!(
        pair.swap(100, 0, OTHER, 999_900, 1_000_050, 0),
        Err(PairError::SwapKConstantNotMet)
    );
}

#[test]
fn swap_not_initialized_is_rejected() {
    let mut pair = SoroswapPair::new(PAIR);
    assert_eq!(
        pair.swap(1, 0, OTHER, 0, 0, 0),
        Err(PairError::NotInitialized)
    );
}

#[test]
fn withdraw_returns_at_most_what_was_deposited() {
    let mut pair = funded_pair();
    // Send every redeemable share back to the pool, then redeem.
    pair.ledger.transfer(USER, PAIR, 999_000);
    let r = pair.withdraw(USER, 1_000_000, 1_000_000, false, 0, 0);
    assert_eq!(r, Ok((999_000, 999_000)));
    assert_eq!(pair.total_shares(), 1_000);
    assert_eq!(pair.my_balance(PAIR), 1_000);
    assert_eq!(pair.get_reserves(), (1_000, 1_000, 0));
}

#[test]
fn withdraw_not_initialized_is_rejected() {
    let mut pair = SoroswapPair::new(PAIR);
    assert_eq!(
        pair.withdraw(USER, 0, 0, false, 0, 0),
        Err(PairError::NotInitialized)
    );
}

#[test]
fn withdraw_with_no_shares_sent_is_rejected() {
    let mut pair = fresh_pair();
    assert_eq!(
        pair.withdraw(USER, 0, 0, false, 0, 0),
        Err(PairError::WithdrawLiquidityNotInitialized)
    );
    let mut pair = funded_pair();
    // The pool only holds the locked minimum: nothing redeemable was sent.
    assert_eq!(
        pair.withdraw(USER, 1_000_000, 1_000_000, false, 0, 0),
        Err(PairError::WithdrawInsufficientSentShares)
    );
}

#[test]
fn withdraw_rounding_to_zero_payout_is_rejected() {
    let mut pair = funded_pair();
    pair.ledger.transfer(USER, PAIR, 10);
    // 50_000 * 10 / 1_000_000 rounds down to zero.
    assert_eq!(
        pair.withdraw(USER, 50_000, 1_000_000, false, 0, 0),
        Err(PairError::WithdrawInsufficientLiquidityBurned)
    );
}

#[test]
fn skim_reports_the_surplus_over_reserves() {
    let pair = funded_pair();
    let skimmed = pair.skim(1_000_005, 1_000_007);
    assert_eq!(skimmed, (5, 7));
    // Skim never touches the reserves.
    assert_eq!(pair.get_reserves(), (1_000_000, 1_000_000, 0));
}

#[test]
fn sync_forces_reserves_to_balances() {
    let mut pair = funded_pair();
    assert_eq!(pair.sync(2_000_000, 3_000_000, 10), Ok(()));
    assert_eq!(pair.get_reserves(), (2_000_000, 3_000_000, 10));
}

#[test]
fn sync_of_overlarge_balance_is_rejected() {
    let mut pair = funded_pair();
    let too_big = u64::MAX as i128 + 1;
    assert_eq!(pair.sync(too_big, 1, 0), Err(PairError::UpdateOverflow));
    assert_eq!(pair.get_reserves(), (1_000_000, 1_000_000, 0));
}

#[test]
fn repeated_sync_with_same_balances_changes_nothing() {
    let mut pair = funded_pair();
    assert_eq!(pair.sync(2_000_000, 3_000_000, 10), Ok(()));
    let reserves = pair.get_reserves();
    let p0 = pair.price_0_cumulative_last();
    let p1 = pair.price_1_cumulative_last();
    assert_eq!(pair.sync(2_000_000, 3_000_000, 10), Ok(()));
    assert_eq!(pair.get_reserves(), reserves);
    assert_eq!(pair.price_0_cumulative_last(), p0);
    assert_eq!(pair.price_1_cumulative_last(), p1);
}
