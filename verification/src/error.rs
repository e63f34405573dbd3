//! Error taxonomy shared by every fallible operation of the library.

use vstd::prelude::*;

verus! {

/// Discriminated failure value returned by every fallible operation.
///
/// Input errors and authorization errors are reported before any state
/// change; invariant and arithmetic errors abort a mutating operation with
/// no partial effect.
#[derive(Clone, Copy, Debug, PartialEq, Eq, Structural)]
pub enum ErrorCode {
    /// The token being burned is not the reserve token of this basket.
    WrongBurnError,
    /// Collateral allocations do not sum to the full basis-point scale.
    AllocationBpsError,
    /// The deposited mint is not an authorized collateral of this basket.
    WrongCollateralError,
    /// The mint is already present in the collateral ledger.
    CollateralAlreadyAuthorizedError,
    /// The mint is not present in the collateral ledger.
    CollateralDoesNotExistError,
    /// The collateral ledger is at its storage capacity.
    CollateralSizeLimitsExceeded,
    /// The caller may not rebalance between the given mints.
    CallerCannotRebalanceCollateral,
    /// Removal would leave the ledger without any authorized collateral.
    MinCollateralError,
    /// A number exceeds the magnitude the rounding-adjustment rule supports.
    NumberOfSizeNotSupported,
    /// An oracle reading could not be loaded.
    UnableToLoadOracle,
    /// Arithmetic overflow, underflow, or division failure.
    MathError,
    /// A value does not fit in the target integer type.
    CastingFailure,
    /// Neither the primary nor the backup oracle reading is valid.
    InvalidOracle,
    /// The aggregator holds no valid confirmed round.
    InvalidAggregatorRound,
}

} // verus!
