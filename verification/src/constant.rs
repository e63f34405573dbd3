//! Policy constants of the basket engine.

use vstd::prelude::*;

verus! {

/// Full allocation scale: 10000 basis points equal 100%.
pub const MAX_BASIS_POINTS: u16 = 10000;

/// Storage ceiling on the number of collateral entries a ledger may hold.
pub const MAX_COLLATERAL_ELEMENTS: usize = 315;

/// Decimal precision every aggregated oracle price is scaled to.
pub const TARGET_ORACLE_PRECISION: u32 = 6;

/// Largest confidence magnitude an oracle reading may carry and still count
/// as valid, expressed at the target precision.
pub const MAX_ORACLE_CONF: u128 = 100_000;

/// Largest age, in host clock slots, an oracle reading may have and still
/// count as valid.
pub const SLOTS_BEFORE_STALE: i64 = 1000;

} // verus!
