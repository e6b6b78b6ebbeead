//! Typed failures of the pool's operations.
//!
//! Every failure aborts the whole operation: the pool state is left exactly
//! as it was before the call.

use vstd::prelude::*;

verus! {

/// The reasons an operation on the pair can be rejected.
#[derive(Clone, Copy, Debug, PartialEq, Eq)]
pub enum PairError {
    /// An operation was attempted before the pair was initialized.
    NotInitialized,
    /// `initialize_pair` was called on an already initialized pair.
    InitializeAlreadyInitialized,
    /// The first asset's identity does not order strictly before the second's.
    InitializeTokenOrderInvalid,
    /// The observed balance of asset 0 has not grown past its reserve.
    DepositInsufficientAmountToken0,
    /// The observed balance of asset 1 has not grown past its reserve.
    DepositInsufficientAmountToken1,
    /// The first deposit's geometric mean does not exceed the locked minimum.
    DepositInsufficientFirstLiquidity,
    /// The deposit would mint no shares.
    DepositInsufficientLiquidityMinted,
    /// Neither asset was requested as swap output.
    SwapInsufficientOutputAmount,
    /// A negative swap output was requested.
    SwapNegativesOutNotSupported,
    /// A requested output does not stay strictly below its reserve.
    SwapInsufficientLiquidity,
    /// The swap destination is one of the pair's own asset identities.
    SwapInvalidTo,
    /// No input was delivered for the requested swap output.
    SwapInsufficientInputAmount,
    /// A derived swap input was negative.
    SwapNegativesInNotSupported,
    /// The fee-adjusted product fell below the pre-trade product.
    SwapKConstantNotMet,
    /// The pool holds no shares to redeem.
    WithdrawLiquidityNotInitialized,
    /// The shares sent do not exceed the permanently locked minimum.
    WithdrawInsufficientSentShares,
    /// The redemption would pay out nothing for at least one asset.
    WithdrawInsufficientLiquidityBurned,
    /// An observed balance exceeds the 64-bit range the accumulators need.
    UpdateOverflow,
}

} // verus!
