//! Rebalance authorization and swap sizing: who may swap which collateral,
//! and the slippage-bounded exchange amounts handed to the swap collaborator.

use vstd::prelude::*;

use crate::bucket::{AccountId, Collateral};
use crate::constant::MAX_BASIS_POINTS;
use crate::conversion::{scale_amount_for_decimals, spec_scale_amount};
use crate::error::ErrorCode;
use crate::util::{count_mint, is_collateral_authorized};

verus! {

/// Sized amounts for one swap between two collateral custodies.
#[derive(Clone, Copy, Debug, PartialEq, Eq, Structural)]
pub struct ExchangeAmount {
    /// Amount of the source collateral handed to the swap.
    pub amount_in: u64,
    /// Minimum amount of the destination collateral expected back.
    pub amount_out: u64,
}

/// The authorization rule for one rebalance operation. The destination must
/// always be an authorized collateral; an unprivileged caller may only move
/// unauthorized stray collateral into an authorized one, while the rebalance
/// authority may also move authorized collateral.
pub open spec fn spec_rebalance_allowed(
    caller_is_rebalance_authority: bool,
    source_authorized: bool,
    dest_authorized: bool,
) -> bool {
    (!source_authorized && dest_authorized) || (caller_is_rebalance_authority && source_authorized
        && dest_authorized)
}

/// An unprivileged caller can never move an authorized source collateral,
/// whether or not the destination is authorized.
pub proof fn lemma_non_authority_cannot_move_authorized_source(
    source_authorized: bool,
    dest_authorized: bool,
)
    requires
        source_authorized,
    ensures
        !spec_rebalance_allowed(false, source_authorized, dest_authorized),
{
}

/// Checks the source and destination mints of one rebalance operation
/// against the authorization rule for this caller.
pub fn verify_collateral_for_caller(
    caller_is_rebalance_authority: bool,
    source_mint: AccountId,
    dest_mint: AccountId,
    collateral: &Vec<Collateral>,
) -> (r: Result<(), ErrorCode>)
    ensures
        spec_rebalance_allowed(
            caller_is_rebalance_authority,
            count_mint(collateral@, source_mint) == 1,
            count_mint(collateral@, dest_mint) == 1,
        ) ==> r == Ok::<(), ErrorCode>(()),
        !spec_rebalance_allowed(
            caller_is_rebalance_authority,
            count_mint(collateral@, source_mint) == 1,
            count_mint(collateral@, dest_mint) == 1,
        ) ==> r == Err::<(), ErrorCode>(ErrorCode::CallerCannotRebalanceCollateral),
{
    let source_mint_authorized = is_collateral_authorized(collateral, source_mint);
    let dest_mint_authorized = is_collateral_authorized(collateral, dest_mint);

    let mut authorized_invariant_condition: bool = !source_mint_authorized && dest_mint_authorized;
    if caller_is_rebalance_authority {
        authorized_invariant_condition = authorized_invariant_condition || (source_mint_authorized
            && dest_mint_authorized);
    }

    if authorized_invariant_condition {
        Ok(())
    } else {
        Err(ErrorCode::CallerCannotRebalanceCollateral)
    }
}

/// Exact outcome of sizing the expected amount out for a swap of `amount`
/// under a slippage cap of `max_slippage_bps` basis points: the amount is
/// scaled by the slippage factor (two extra digits of precision) and divided
/// by the raw decimal count of the destination token. The divisor is the
/// decimal count itself, not a power of ten.
pub open spec fn spec_compute_exchange_amounts(
    amount: int,
    decimals: int,
    max_slippage_bps: int,
) -> Result<ExchangeAmount, ErrorCode> {
    if max_slippage_bps > MAX_BASIS_POINTS as int {
        Err(ErrorCode::MathError)
    } else {
        let slippage_factor = (MAX_BASIS_POINTS as int - max_slippage_bps) * 100;
        if amount * slippage_factor > u64::MAX {
            Err(ErrorCode::MathError)
        } else if decimals == 0 {
            Err(ErrorCode::MathError)
        } else {
            Ok(
                ExchangeAmount {
                    amount_in: amount as u64,
                    amount_out: (amount * slippage_factor / decimals) as u64,
                },
            )
        }
    }
}

/// Sizes the expected amount out for a swap of `amount`, given the
/// destination token's decimal count and the slippage cap in basis points.
/// The swap collaborator takes absolute amounts, not a slippage percentage,
/// so the bound is folded into the expected output here.
pub fn compute_exchange_amounts(amount: u64, decimals: u8, max_slippage_bps: u64) -> (r: Result<
    ExchangeAmount,
    ErrorCode,
>)
    ensures
        r == spec_compute_exchange_amounts(
            amount as int,
            decimals as int,
            max_slippage_bps as int,
        ),
{
    if max_slippage_bps > MAX_BASIS_POINTS as u64 {
        return Err(ErrorCode::MathError);
    }
    let slippage_factor = ((MAX_BASIS_POINTS as u64) - max_slippage_bps) * 100;
    let scaled = match amount.checked_mul(slippage_factor) {
        Some(v) => v,
        None => {
            return Err(ErrorCode::MathError);
        },
    };
    if decimals == 0 {
        return Err(ErrorCode::MathError);
    }
    let amount_out = scaled / (decimals as u64);
    Ok(ExchangeAmount { amount_in: amount, amount_out })
}

/// Exact outcome of sizing one rebalance swap for a caller: the rebalance
/// authority's requested amounts are taken verbatim; an unprivileged
/// caller's amounts are ignored and recomputed from the source custody
/// balance under the fixed slippage cap of 150 basis points.
pub open spec fn spec_swap_amounts_for_caller(
    caller_is_rebalance_authority: bool,
    source_custody_amount: int,
    source_decimals: nat,
    dest_decimals: nat,
    requested_amount_in: u64,
    requested_amount_out: u64,
) -> Result<ExchangeAmount, ErrorCode> {
    if caller_is_rebalance_authority {
        Ok(ExchangeAmount { amount_in: requested_amount_in, amount_out: requested_amount_out })
    } else {
        match spec_scale_amount(source_custody_amount, source_decimals, dest_decimals) {
            Err(e) => Err(e),
            Ok(scaled) => spec_compute_exchange_amounts(
                scaled as int,
                dest_decimals as int,
                150,
            ),
        }
    }
}

/// Sizes one rebalance swap: the rebalance authority is trusted with its
/// requested amounts, while any other caller has the amounts recomputed from
/// the source custody balance, rescaled to the destination token's decimals
/// and bounded by the fixed slippage cap.
pub fn get_swap_amounts_for_caller(
    caller_is_rebalance_authority: bool,
    source_custody_amount: u64,
    source_decimals: u8,
    dest_decimals: u8,
    requested_amount_in: u64,
    requested_amount_out: u64,
) -> (r: Result<ExchangeAmount, ErrorCode>)
    ensures
        r == spec_swap_amounts_for_caller(
            caller_is_rebalance_authority,
            source_custody_amount as int,
            source_decimals as nat,
            dest_decimals as nat,
            requested_amount_in,
            requested_amount_out,
        ),
{
    if caller_is_rebalance_authority {
        return Ok(
            ExchangeAmount {
                amount_in: requested_amount_in,
                amount_out: requested_amount_out,
            },
        );
    }
    let max_slippage_bps: u64 = 150;  // 1.5%

    let scaled_amount = scale_amount_for_decimals(
        source_custody_amount,
        source_decimals,
        dest_decimals,
    )?;
    compute_exchange_amounts(scaled_amount, dest_decimals, max_slippage_bps)
}

} // verus!
