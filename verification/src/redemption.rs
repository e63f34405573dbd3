//! The burn-to-redeem conversion: how much of every collateral asset a burn
//! of reserve tokens withdraws. The redemption is price-aware: the basket's
//! total collateral value caps the effective redeemable amount at a
//! one-to-one peg, so an undercollateralized basket pays out proportionally
//! less, never more. The burn and the withdrawals are executed by the host
//! with the amounts computed here.

use vstd::prelude::*;

use crate::bucket::AccountId;
use crate::constant::TARGET_ORACLE_PRECISION;
use crate::conversion::{div_trunc, lemma_pow10_positive, pow10, pow10_i128};
use crate::error::ErrorCode;
use crate::oracle::{get_oracle_price, spec_oracle_selection, OraclePriceData};

verus! {

/// Everything the redemption math needs to know about one asset: its custody
/// balance, its decimal count, and the two decoded oracle readings for it.
#[derive(Clone, Copy, Debug)]
pub struct RedeemAssetInput {
    /// Custody balance of this collateral held by the basket.
    pub collateral_amount: u64,
    /// Decimal count of the collateral token.
    pub decimals: u8,
    /// Decoded reading of the primary oracle source.
    pub primary: OraclePriceData,
    /// Time-weighted average backing the primary reading, when one exists.
    pub primary_twap: Option<i128>,
    /// Decoded reading of the backup oracle source.
    pub backup: OraclePriceData,
    /// Time-weighted average backing the backup reading, when one exists.
    pub backup_twap: Option<i128>,
}

/// Exact outcome of valuing one custody balance at a price: the price is
/// raised by the token's decimal count and the product is scaled back down,
/// each step failing exactly where the 128-bit domain cannot hold it.
pub open spec fn spec_collateral_value(amount: int, price: int, decimals: nat) -> Result<
    i128,
    ErrorCode,
> {
    if pow10(decimals) > i128::MAX {
        Err(ErrorCode::MathError)
    } else {
        let price_per_coin = price * pow10(decimals);
        if price_per_coin > i128::MAX || price_per_coin < i128::MIN {
            Err(ErrorCode::MathError)
        } else {
            let product = amount * price_per_coin;
            if product > i128::MAX || product < i128::MIN {
                Err(ErrorCode::MathError)
            } else {
                Ok(div_trunc(product, pow10(decimals)) as i128)
            }
        }
    }
}

/// Exact value of one redemption asset: its aggregated oracle price applied
/// to its custody balance.
pub open spec fn spec_asset_value(a: RedeemAssetInput) -> Result<i128, ErrorCode> {
    match spec_oracle_selection(a.primary, a.primary_twap, a.backup, a.backup_twap) {
        Err(e) => Err(e),
        Ok(data) => spec_collateral_value(
            a.collateral_amount as int,
            data.price as int,
            a.decimals as nat,
        ),
    }
}

/// Walks the asset list front to back, accumulating the total collateral
/// value starting from `acc`: stops with the first error, or with the total.
pub open spec fn spec_total_collateral_value(assets: Seq<RedeemAssetInput>, acc: int) -> Result<
    int,
    ErrorCode,
>
    decreases assets.len(),
{
    if assets.len() == 0 {
        Ok(acc)
    } else {
        match spec_asset_value(assets[0]) {
            Err(e) => Err(e),
            Ok(v) => if acc + v > i128::MAX || acc + v < i128::MIN {
                Err(ErrorCode::MathError)
            } else {
                spec_total_collateral_value(assets.skip(1), acc + v)
            },
        }
    }
}

/// Exact outcome of capping the burn at the basket's value: the price per
/// reserve token is the total collateral value scaled by two extra digits of
/// precision and divided by the supply, and the effective redeemable amount
/// scales the burn by at most a one-to-one peg.
pub open spec fn spec_redeemable_amount(
    total_collateral_value: int,
    bucket_supply: int,
    redeem_amount: int,
    precision_exp: nat,
) -> Result<i128, ErrorCode> {
    if pow10(precision_exp) > i128::MAX {
        Err(ErrorCode::MathError)
    } else {
        let pf = pow10(precision_exp);
        let scaled_total = total_collateral_value * pf;
        if scaled_total > i128::MAX || scaled_total < i128::MIN {
            Err(ErrorCode::MathError)
        } else if bucket_supply == 0 {
            Err(ErrorCode::MathError)
        } else {
            let price_per_bucket = div_trunc(scaled_total, bucket_supply);
            let capped = if pf < price_per_bucket {
                pf
            } else {
                price_per_bucket
            };
            let product = redeem_amount * capped;
            if product > i128::MAX || product < i128::MIN {
                Err(ErrorCode::MathError)
            } else {
                Ok(div_trunc(product, pf) as i128)
            }
        }
    }
}

/// Exact outcome of one asset's withdrawal share: the custody balance scaled
/// by the effective redeemable amount over the pre-burn supply, narrowed to
/// 64 bits.
pub open spec fn spec_share(amount: int, redeemable_amount: int, bucket_supply: int) -> Result<
    u64,
    ErrorCode,
> {
    let product = amount * redeemable_amount;
    if product > i128::MAX || product < i128::MIN {
        Err(ErrorCode::MathError)
    } else if bucket_supply == 0 {
        Err(ErrorCode::MathError)
    } else {
        let share = div_trunc(product, bucket_supply);
        if 0 <= share <= u64::MAX {
            Ok(share as u64)
        } else {
            Err(ErrorCode::CastingFailure)
        }
    }
}

/// Walks the asset list front to back, extending `acc` by each asset's
/// share: stops with the first error, or with all shares in order.
pub open spec fn spec_share_walk(
    assets: Seq<RedeemAssetInput>,
    redeemable_amount: int,
    bucket_supply: int,
    acc: Seq<u64>,
) -> Result<Seq<u64>, ErrorCode>
    decreases assets.len(),
{
    if assets.len() == 0 {
        Ok(acc)
    } else {
        match spec_share(assets[0].collateral_amount as int, redeemable_amount, bucket_supply) {
            Err(e) => Err(e),
            Ok(v) => spec_share_walk(assets.skip(1), redeemable_amount, bucket_supply, acc.push(v)),
        }
    }
}

/// Exact outcome of a whole redemption: the burned token must be the
/// basket's reserve token; an empty asset list short-circuits to no
/// withdrawals; otherwise the basket is valued, the burn is capped at the
/// peg, and every asset pays its pro-rata share of the effective amount.
pub open spec fn spec_redemption_shares(
    crate_mint: AccountId,
    withdrawer_reserve_mint: AccountId,
    redeem_amount: int,
    bucket_supply: int,
    assets: Seq<RedeemAssetInput>,
    precision_exp: nat,
) -> Result<Seq<u64>, ErrorCode> {
    if crate_mint != withdrawer_reserve_mint {
        Err(ErrorCode::WrongBurnError)
    } else if assets.len() == 0 {
        Ok(Seq::<u64>::empty())
    } else {
        match spec_total_collateral_value(assets, 0) {
            Err(e) => Err(e),
            Ok(total) => match spec_redeemable_amount(
                total,
                bucket_supply,
                redeem_amount,
                precision_exp,
            ) {
                Err(e) => Err(e),
                Ok(redeemable) => spec_share_walk(
                    assets,
                    redeemable as int,
                    bucket_supply,
                    Seq::<u64>::empty(),
                ),
            },
        }
    }
}

/// Values one custody balance at an oracle price scaled to the token's
/// decimal count.
pub fn compute_collateral_value(collateral_amount: u64, price: i128, decimals: u8) -> (r: Result<
    i128,
    ErrorCode,
>)
    ensures
        r == spec_collateral_value(collateral_amount as int, price as int, decimals as nat),
{
    let precision_factor = pow10_i128(decimals as u32)?;
    proof {
        lemma_pow10_positive(decimals as nat);
    }
    let price_per_coin = match price.checked_mul(precision_factor) {
        Some(v) => v,
        None => {
            return Err(ErrorCode::MathError);
        },
    };
    let product = match (collateral_amount as i128).checked_mul(price_per_coin) {
        Some(v) => v,
        None => {
            return Err(ErrorCode::MathError);
        },
    };
    let value = match product.checked_div(precision_factor) {
        Some(v) => v,
        None => {
            return Err(ErrorCode::MathError);
        },
    };
    Ok(value)
}

/// Caps the effective redeemable amount at a one-to-one peg against the
/// basket's value per reserve token.
pub fn compute_redeemable_amount(
    total_collateral_value: i128,
    bucket_supply: u64,
    redeem_amount: u64,
) -> (r: Result<i128, ErrorCode>)
    ensures
        r == spec_redeemable_amount(
            total_collateral_value as int,
            bucket_supply as int,
            redeem_amount as int,
            (TARGET_ORACLE_PRECISION + 2) as nat,
        ),
{
    // Two extra digits of precision over the oracle target.
    let precision_factor = pow10_i128(TARGET_ORACLE_PRECISION + 2)?;
    proof {
        lemma_pow10_positive((TARGET_ORACLE_PRECISION + 2) as nat);
    }
    let scaled_total = match total_collateral_value.checked_mul(precision_factor) {
        Some(v) => v,
        None => {
            return Err(ErrorCode::MathError);
        },
    };
    if bucket_supply == 0 {
        return Err(ErrorCode::MathError);
    }
    let price_per_bucket = match scaled_total.checked_div(bucket_supply as i128) {
        Some(v) => v,
        None => {
            return Err(ErrorCode::MathError);
        },
    };
    let capped = if precision_factor < price_per_bucket {
        precision_factor
    } else {
        price_per_bucket
    };
    let product = match (redeem_amount as i128).checked_mul(capped) {
        Some(v) => v,
        None => {
            return Err(ErrorCode::MathError);
        },
    };
    let redeemable = match product.checked_div(precision_factor) {
        Some(v) => v,
        None => {
            return Err(ErrorCode::MathError);
        },
    };
    Ok(redeemable)
}

/// One asset's withdrawal share of the effective redeemable amount.
pub fn compute_share(collateral_amount: u64, redeemable_amount: i128, bucket_supply: u64) -> (r:
    Result<u64, ErrorCode>)
    ensures
        r == spec_share(collateral_amount as int, redeemable_amount as int, bucket_supply as int),
{
    let product = match (collateral_amount as i128).checked_mul(redeemable_amount) {
        Some(v) => v,
        None => {
            return Err(ErrorCode::MathError);
        },
    };
    if bucket_supply == 0 {
        return Err(ErrorCode::MathError);
    }
    let share = match product.checked_div(bucket_supply as i128) {
        Some(v) => v,
        None => {
            return Err(ErrorCode::MathError);
        },
    };
    match u64::try_from(share) {
        Ok(v) => Ok(v),
        Err(_) => Err(ErrorCode::CastingFailure),
    }
}

/// The full decision of one redemption: checks the burned mint, values every
/// asset at its aggregated oracle price, caps the burn at the peg, and
/// returns each asset's withdrawal share, in the order the assets were
/// given. `bucket_supply` is the reserve supply before the burn.
#[verifier::loop_isolation(false)]
pub fn compute_redemption_shares(
    crate_mint: AccountId,
    withdrawer_reserve_mint: AccountId,
    redeem_amount: u64,
    bucket_supply: u64,
    assets: &Vec<RedeemAssetInput>,
) -> (r: Result<Vec<u64>, ErrorCode>)
    ensures
        match spec_redemption_shares(
            crate_mint,
            withdrawer_reserve_mint,
            redeem_amount as int,
            bucket_supply as int,
            assets@,
            (TARGET_ORACLE_PRECISION + 2) as nat,
        ) {
            Ok(s) => r is Ok && r->Ok_0@ == s,
            Err(e) => r == Err::<Vec<u64>, ErrorCode>(e),
        },
        r is Ok ==> r->Ok_0@.len() == assets@.len(),
{
    if crate_mint != withdrawer_reserve_mint {
        return Err(ErrorCode::WrongBurnError);
    }
    if assets.len() == 0 {
        return Ok(Vec::new());
    }

    let mut total_collateral_value: i128 = 0;
    let mut i: usize = 0;
    proof {
        assert(assets@.skip(0) =~= assets@);
    }
    while i < assets.len()
        invariant
            0 <= i <= assets@.len(),
            spec_total_collateral_value(assets@, 0) == spec_total_collateral_value(
                assets@.skip(i as int),
                total_collateral_value as int,
            ),
        decreases assets@.len() - i,
    {
        proof {
            assert(assets@.skip(i as int)[0] == assets@[i as int]);
            assert(assets@.skip(i as int).skip(1) =~= assets@.skip(i as int + 1));
        }
        let asset = &assets[i];
        let oracle_price_data = match get_oracle_price(
            &asset.primary,
            asset.primary_twap,
            &asset.backup,
            asset.backup_twap,
        ) {
            Ok(d) => d,
            Err(e) => {
                return Err(e);
            },
        };
        let value = match compute_collateral_value(
            asset.collateral_amount,
            oracle_price_data.price,
            asset.decimals,
        ) {
            Ok(v) => v,
            Err(e) => {
                return Err(e);
            },
        };
        total_collateral_value = match total_collateral_value.checked_add(value) {
            Some(v) => v,
            None => {
                return Err(ErrorCode::MathError);
            },
        };
        i = i + 1;
    }
    proof {
        assert(assets@.skip(i as int) =~= Seq::<RedeemAssetInput>::empty());
    }

    let redeemable_amount = match compute_redeemable_amount(
        total_collateral_value,
        bucket_supply,
        redeem_amount,
    ) {
        Ok(v) => v,
        Err(e) => {
            return Err(e);
        },
    };

    let mut shares: Vec<u64> = Vec::new();
    let mut j: usize = 0;
    proof {
        assert(assets@.skip(0) =~= assets@);
    }
    while j < assets.len()
        invariant
            0 <= j <= assets@.len(),
            shares@.len() == j,
            spec_share_walk(
                assets@,
                redeemable_amount as int,
                bucket_supply as int,
                Seq::<u64>::empty(),
            ) == spec_share_walk(
                assets@.skip(j as int),
                redeemable_amount as int,
                bucket_supply as int,
                shares@,
            ),
        decreases assets@.len() - j,
    {
        proof {
            assert(assets@.skip(j as int)[0] == assets@[j as int]);
            assert(assets@.skip(j as int).skip(1) =~= assets@.skip(j as int + 1));
        }
        let asset = &assets[j];
        let share = match compute_share(asset.collateral_amount, redeemable_amount, bucket_supply) {
            Ok(v) => v,
            Err(e) => {
                return Err(e);
            },
        };
        shares.push(share);
        j = j + 1;
    }
    proof {
        assert(assets@.skip(j as int) =~= Seq::<RedeemAssetInput>::empty());
    }
    Ok(shares)
}

} // verus!
