//! Accounting and conversion engine for a basket of whitelisted collateral
//! assets backing a single reserve token.
//!
//! The library covers the invariant-preserving collateral-allocation ledger,
//! the oracle price aggregation and validity gating, the deposit-to-issue and
//! burn-to-redeem conversion arithmetic, and the rebalance authorization and
//! sizing rules. Token movement, swap execution, and raw oracle feed decoding
//! are the host's business: the host hands this library plain values and
//! executes the amounts it computes.

pub mod bucket;
pub mod casting;
pub mod constant;
pub mod conversion;
pub mod error;
pub mod issuance;
pub mod oracle;
pub mod pyth;
pub mod rebalance;
pub mod redemption;
pub mod switchboard;
pub mod util;
