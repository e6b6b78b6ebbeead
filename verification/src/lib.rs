//! Settlement core of a two-asset constant-product liquidity pool.
//!
//! The pool holds custody of two fungible assets, issues pool-share claims
//! representing proportional ownership, and executes deposit, swap and
//! withdraw under a constant-product pricing invariant, plus the two
//! maintenance operations skim and sync.  All accounting is exact integer
//! arithmetic; every operation either fully commits or fully fails.

pub mod errors;
pub mod laws;
pub mod math;
pub mod pair;
pub mod shares;
pub mod uq64x64;

pub use errors::PairError;
pub use pair::SoroswapPair;
pub use shares::ShareLedger;
