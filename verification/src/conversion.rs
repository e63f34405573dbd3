//! Pure decimal-rescaling and pro-rata share arithmetic shared by the
//! issuance, redemption, and rebalance engines.

use vstd::prelude::*;

use crate::error::ErrorCode;

verus! {

/// Mathematical power of ten.
pub open spec fn pow10(e: nat) -> int
    decreases e,
{
    if e == 0 {
        1
    } else {
        10 * pow10((e - 1) as nat)
    }
}

/// Powers of ten are positive.
pub proof fn lemma_pow10_positive(e: nat)
    ensures
        pow10(e) >= 1,
    decreases e,
{
    if e > 0 {
        lemma_pow10_positive((e - 1) as nat);
    }
}

/// Powers of ten grow with the exponent.
pub proof fn lemma_pow10_monotone(e1: nat, e2: nat)
    requires
        e1 <= e2,
    ensures
        pow10(e1) <= pow10(e2),
    decreases e2,
{
    lemma_pow10_positive(e1);
    if e1 < e2 {
        lemma_pow10_monotone(e1, (e2 - 1) as nat);
        lemma_pow10_positive((e2 - 1) as nat);
    }
}

/// Division that truncates toward zero, as the machine's signed division
/// does; `d` must not be zero.
pub open spec fn div_trunc(x: int, d: int) -> int {
    if x >= 0 && d > 0 {
        x / d
    } else if x < 0 && d > 0 {
        -((-x) / d)
    } else if x >= 0 && d < 0 {
        -(x / (-d))
    } else {
        (-x) / (-d)
    }
}

/// Computes `10^e` in the unsigned 128-bit domain, failing where it does not
/// fit.
pub fn pow10_u128(e: u32) -> (r: Result<u128, ErrorCode>)
    ensures
        match r {
            Ok(v) => v as int == pow10(e as nat),
            Err(err) => err == ErrorCode::MathError && pow10(e as nat) > u128::MAX,
        },
{
    let mut acc: u128 = 1;
    let mut i: u32 = 0;
    while i < e
        invariant
            0 <= i <= e,
            acc as int == pow10(i as nat),
        decreases e - i,
    {
        if acc > u128::MAX / 10 {
            proof {
                lemma_pow10_monotone((i + 1) as nat, e as nat);
            }
            return Err(ErrorCode::MathError);
        }
        acc = acc * 10;
        i = i + 1;
    }
    Ok(acc)
}

/// Computes `10^e` in the unsigned 64-bit domain, failing where it does not
/// fit.
pub fn pow10_u64(e: u32) -> (r: Result<u64, ErrorCode>)
    ensures
        match r {
            Ok(v) => v as int == pow10(e as nat),
            Err(err) => err == ErrorCode::MathError && pow10(e as nat) > u64::MAX,
        },
{
    let mut acc: u64 = 1;
    let mut i: u32 = 0;
    while i < e
        invariant
            0 <= i <= e,
            acc as int == pow10(i as nat),
        decreases e - i,
    {
        if acc > u64::MAX / 10 {
            proof {
                lemma_pow10_monotone((i + 1) as nat, e as nat);
            }
            return Err(ErrorCode::MathError);
        }
        acc = acc * 10;
        i = i + 1;
    }
    Ok(acc)
}

/// Computes `10^e` in the signed 128-bit domain, failing where it does not
/// fit.
pub fn pow10_i128(e: u32) -> (r: Result<i128, ErrorCode>)
    ensures
        match r {
            Ok(v) => v as int == pow10(e as nat),
            Err(err) => err == ErrorCode::MathError && pow10(e as nat) > i128::MAX,
        },
{
    let mut acc: i128 = 1;
    let mut i: u32 = 0;
    while i < e
        invariant
            0 <= i <= e,
            acc as int == pow10(i as nat),
            acc >= 1,
        decreases e - i,
    {
        if acc > i128::MAX / 10 {
            proof {
                lemma_pow10_monotone((i + 1) as nat, e as nat);
            }
            return Err(ErrorCode::MathError);
        }
        acc = acc * 10;
        i = i + 1;
    }
    Ok(acc)
}

/// Exact outcome of rescaling `amount` from `source_decimals` to
/// `dest_decimals`: scaling to a coarser precision truncates, scaling to a
/// finer precision multiplies, and a power of ten or a product that does not
/// fit the 64-bit domain is an arithmetic error.
pub open spec fn spec_scale_amount(
    amount: int,
    source_decimals: nat,
    dest_decimals: nat,
) -> Result<u64, ErrorCode> {
    if source_decimals >= dest_decimals {
        let factor = pow10((source_decimals - dest_decimals) as nat);
        if factor > u64::MAX {
            Err(ErrorCode::MathError)
        } else {
            Ok((amount / factor) as u64)
        }
    } else {
        let factor = pow10((dest_decimals - source_decimals) as nat);
        if factor > u64::MAX || amount * factor > u64::MAX {
            Err(ErrorCode::MathError)
        } else {
            Ok((amount * factor) as u64)
        }
    }
}

/// Rescales a token amount between two decimal precisions.
///
/// Scaling from a more precise source truncates (precision is lost, never
/// rounded); scaling to a more precise destination multiplies and fails on
/// 64-bit overflow.
pub fn scale_amount_for_decimals(amount: u64, source_decimals: u8, dest_decimals: u8) -> (r:
    Result<u64, ErrorCode>)
    ensures
        r == spec_scale_amount(amount as int, source_decimals as nat, dest_decimals as nat),
{
    if source_decimals >= dest_decimals {
        let factor = pow10_u64((source_decimals - dest_decimals) as u32)?;
        proof {
            lemma_pow10_positive((source_decimals - dest_decimals) as nat);
        }
        Ok(amount / factor)
    } else {
        let factor = pow10_u64((dest_decimals - source_decimals) as u32)?;
        proof {
            lemma_pow10_positive((dest_decimals - source_decimals) as nat);
        }
        match amount.checked_mul(factor) {
            Some(v) => Ok(v),
            None => Err(ErrorCode::MathError),
        }
    }
}

/// Exact outcome of the pro-rata share computation: the floor of
/// `asset_balance * burn_amount / total_supply`, taken in a domain wide
/// enough that the product cannot overflow.
pub open spec fn spec_pro_rata_share(
    asset_balance: int,
    burn_amount: int,
    total_supply: int,
) -> Result<u64, ErrorCode> {
    if total_supply == 0 {
        Err(ErrorCode::MathError)
    } else if asset_balance * burn_amount / total_supply > u64::MAX {
        Err(ErrorCode::CastingFailure)
    } else {
        Ok((asset_balance * burn_amount / total_supply) as u64)
    }
}

/// The share of one asset's balance owed for burning `burn_amount` out of a
/// reserve supply of `total_supply`: `floor(asset_balance * burn_amount /
/// total_supply)`, computed in the 128-bit domain so the product cannot
/// overflow, then narrowed back to 64 bits.
pub fn pro_rata_share(asset_balance: u64, burn_amount: u64, total_supply: u64) -> (r: Result<
    u64,
    ErrorCode,
>)
    ensures
        r == spec_pro_rata_share(asset_balance as int, burn_amount as int, total_supply as int),
{
    if total_supply == 0 {
        return Err(ErrorCode::MathError);
    }
    assert((asset_balance as int) * (burn_amount as int) <= u128::MAX) by (nonlinear_arith)
        requires
            0 <= asset_balance <= u64::MAX,
            0 <= burn_amount <= u64::MAX,
    ;
    let wide = (asset_balance as u128) * (burn_amount as u128);
    let share = wide / (total_supply as u128);
    if share > u64::MAX as u128 {
        Err(ErrorCode::CastingFailure)
    } else {
        Ok(share as u64)
    }
}

/// A pro-rata share for a burn within the supply never exceeds the asset
/// balance it is drawn from: whenever the burn amount is at most the supply,
/// the computation succeeds and its result is bounded by the asset balance.
pub proof fn lemma_pro_rata_share_bounded(asset_balance: int, burn_amount: int, total_supply: int)
    requires
        0 <= asset_balance <= u64::MAX,
        0 <= burn_amount <= total_supply,
        total_supply > 0,
    ensures
        spec_pro_rata_share(asset_balance, burn_amount, total_supply) == Ok::<u64, ErrorCode>(
            (asset_balance * burn_amount / total_supply) as u64,
        ),
        asset_balance * burn_amount / total_supply <= asset_balance,
{
    assert(asset_balance * burn_amount <= asset_balance * total_supply) by (nonlinear_arith)
        requires
            0 <= asset_balance,
            burn_amount <= total_supply,
    ;
    assert(asset_balance * burn_amount / total_supply <= asset_balance) by (nonlinear_arith)
        requires
            asset_balance * burn_amount <= asset_balance * total_supply,
            0 <= asset_balance * burn_amount,
            total_supply > 0,
    ;
}

} // verus!
