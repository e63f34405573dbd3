//! The deposit-to-issue conversion: how many reserve tokens a deposit of an
//! authorized collateral mints, priced by the oracle aggregation. The token
//! transfer and the mint itself are executed by the host with the amount
//! computed here.

use vstd::prelude::*;

use crate::bucket::{AccountId, Collateral};
use crate::constant::TARGET_ORACLE_PRECISION;
use crate::conversion::{div_trunc, lemma_pow10_positive, pow10, pow10_i128};
use crate::error::ErrorCode;
use crate::oracle::{get_oracle_price, spec_oracle_selection, OraclePriceData};
use crate::util::{count_mint, is_collateral_authorized};

verus! {

/// Exact outcome of converting a deposit into an issue amount at a peg of
/// one reserve-token unit per price unit: the floor of
/// `deposit_amount * price / 10^target_precision`, widened so only genuine
/// overflow of the 128-bit domain fails, then narrowed to 64 bits.
pub open spec fn spec_issue_amount(
    deposit_amount: int,
    price: int,
    target_precision: nat,
) -> Result<u64, ErrorCode> {
    if pow10(target_precision) > i128::MAX {
        Err(ErrorCode::MathError)
    } else if deposit_amount * price > i128::MAX || deposit_amount * price < i128::MIN {
        Err(ErrorCode::MathError)
    } else {
        let issued = div_trunc(deposit_amount * price, pow10(target_precision));
        if 0 <= issued <= u64::MAX {
            Ok(issued as u64)
        } else {
            Err(ErrorCode::CastingFailure)
        }
    }
}

/// Exact outcome of a deposit: the mint must be an authorized collateral,
/// the oracle failover must yield a valid reading, and the issue amount is
/// the deposit priced at that reading.
pub open spec fn spec_deposit_issue(
    collateral: Seq<Collateral>,
    deposit_mint: AccountId,
    deposit_amount: int,
    primary: OraclePriceData,
    primary_twap: Option<i128>,
    backup: OraclePriceData,
    backup_twap: Option<i128>,
) -> Result<u64, ErrorCode> {
    if count_mint(collateral, deposit_mint) != 1 {
        Err(ErrorCode::WrongCollateralError)
    } else {
        match spec_oracle_selection(primary, primary_twap, backup, backup_twap) {
            Err(e) => Err(e),
            Ok(data) => spec_issue_amount(
                deposit_amount,
                data.price as int,
                TARGET_ORACLE_PRECISION as nat,
            ),
        }
    }
}

/// Converts a deposit amount into the reserve-token amount it mints, given
/// the oracle price at the target precision. The peg values one reserve-token
/// unit at one price unit.
pub fn price_to_issue_amount(deposit_amount: u64, price: i128, target_precision: u32) -> (r:
    Result<u64, ErrorCode>)
    ensures
        r == spec_issue_amount(deposit_amount as int, price as int, target_precision as nat),
{
    let precision_factor = pow10_i128(target_precision)?;
    proof {
        lemma_pow10_positive(target_precision as nat);
    }
    let deposit_sum = match (deposit_amount as i128).checked_mul(price) {
        Some(v) => v,
        None => {
            return Err(ErrorCode::MathError);
        },
    };
    let issue_amount = match deposit_sum.checked_div(precision_factor) {
        Some(v) => v,
        None => {
            return Err(ErrorCode::MathError);
        },
    };
    match u64::try_from(issue_amount) {
        Ok(v) => Ok(v),
        Err(_) => Err(ErrorCode::CastingFailure),
    }
}

/// The full decision of one deposit: requires the deposited mint to be an
/// authorized collateral, aggregates the two decoded oracle readings, and
/// prices the deposit. The host transfers the collateral and mints the
/// returned amount only when this succeeds.
pub fn compute_issue_amount(
    collateral: &Vec<Collateral>,
    deposit_mint: AccountId,
    deposit_amount: u64,
    primary: &OraclePriceData,
    primary_twap: Option<i128>,
    backup: &OraclePriceData,
    backup_twap: Option<i128>,
) -> (r: Result<u64, ErrorCode>)
    ensures
        r == spec_deposit_issue(
            collateral@,
            deposit_mint,
            deposit_amount as int,
            *primary,
            primary_twap,
            *backup,
            backup_twap,
        ),
{
    if !is_collateral_authorized(collateral, deposit_mint) {
        return Err(ErrorCode::WrongCollateralError);
    }
    let oracle_price_data = match get_oracle_price(primary, primary_twap, backup, backup_twap) {
        Ok(d) => d,
        Err(e) => {
            return Err(e);
        },
    };
    price_to_issue_amount(deposit_amount, oracle_price_data.price, TARGET_ORACLE_PRECISION)
}

} // verus!
