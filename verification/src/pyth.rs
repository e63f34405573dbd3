//! Scaling of decoded Pyth readings to the target precision. The host loads
//! the provider's account and hands this module the aggregate price,
//! confidence, exponent and slot fields it decoded.

use vstd::prelude::*;

use crate::casting::{cast, cast_to_i64, cast_to_i128, cast_to_u128};
use crate::conversion::{div_trunc, lemma_pow10_positive, pow10, pow10_u128};
use crate::error::ErrorCode;
use crate::oracle::OraclePriceData;

verus! {

/// Magnitude of a price exponent.
pub open spec fn abs_expo(expo: i32) -> nat {
    if expo >= 0 {
        expo as nat
    } else {
        (-(expo as int)) as nat
    }
}

/// Exact outcome of scaling a raw provider value carrying `expo_abs` decimal
/// places to `target` decimal places: the multiplier or divisor is a ratio of
/// powers of ten, and each step fails exactly where the machine domain it
/// runs in cannot hold the value.
pub open spec fn spec_scale_value(mantissa: int, expo_abs: nat, target: nat) -> Result<
    i128,
    ErrorCode,
> {
    if pow10(expo_abs) > u128::MAX || pow10(target) > u128::MAX {
        Err(ErrorCode::MathError)
    } else {
        let mult = if pow10(expo_abs) > pow10(target) {
            1int
        } else {
            pow10(target) / pow10(expo_abs)
        };
        let divf = if pow10(expo_abs) > pow10(target) {
            pow10(expo_abs) / pow10(target)
        } else {
            1int
        };
        if mult > i128::MAX {
            Err(ErrorCode::CastingFailure)
        } else if mantissa * mult > i128::MAX || mantissa * mult < i128::MIN {
            Err(ErrorCode::MathError)
        } else if divf > i128::MAX {
            Err(ErrorCode::CastingFailure)
        } else {
            Ok(div_trunc(mantissa * mult, divf) as i128)
        }
    }
}

/// Exact outcome of scaling a Pyth time-weighted average price.
pub open spec fn spec_pyth_twap(twap: int, expo_abs: nat, target: nat) -> Result<
    i128,
    ErrorCode,
> {
    spec_scale_value(twap, expo_abs, target)
}

/// Exact outcome of assembling a Pyth reading: price and confidence scaled to
/// the target precision, the reading's age in slots, and the provider's
/// always-true sample gate.
pub open spec fn spec_pyth_price(
    price: int,
    conf: int,
    expo_abs: nat,
    valid_slot: int,
    clock_slot: int,
    target: nat,
) -> Result<OraclePriceData, ErrorCode> {
    match spec_scale_value(price, expo_abs, target) {
        Err(e) => Err(e),
        Ok(scaled_price) => {
            let mult = if pow10(expo_abs) > pow10(target) {
                1int
            } else {
                pow10(target) / pow10(expo_abs)
            };
            let divf = if pow10(expo_abs) > pow10(target) {
                pow10(expo_abs) / pow10(target)
            } else {
                1int
            };
            if conf * mult > u128::MAX {
                Err(ErrorCode::MathError)
            } else if clock_slot > i64::MAX {
                Err(ErrorCode::CastingFailure)
            } else if valid_slot > i64::MAX {
                Err(ErrorCode::CastingFailure)
            } else {
                Ok(OraclePriceData {
                    price: scaled_price,
                    confidence: ((conf * mult) / divf) as u128,
                    delay: (clock_slot - valid_slot) as i64,
                    has_sufficient_number_of_data_points: true,
                })
            }
        },
    }
}

/// Computes the scaling multiplier and divisor for moving a value carrying
/// `expo_abs` decimal places to `target_precision` decimal places. Exactly
/// one of the two is greater than one.
fn scale_factors(expo_abs: u32, target_precision: u32) -> (r: Result<(u128, u128), ErrorCode>)
    ensures
        pow10(expo_abs as nat) > u128::MAX || pow10(target_precision as nat) > u128::MAX ==> r
            == Err::<(u128, u128), ErrorCode>(ErrorCode::MathError),
        pow10(expo_abs as nat) <= u128::MAX && pow10(target_precision as nat) <= u128::MAX ==> {
            &&& r is Ok
            &&& r->Ok_0.0 as int == (if pow10(expo_abs as nat) > pow10(target_precision as nat) {
                1int
            } else {
                pow10(target_precision as nat) / pow10(expo_abs as nat)
            })
            &&& r->Ok_0.1 as int == (if pow10(expo_abs as nat) > pow10(target_precision as nat) {
                pow10(expo_abs as nat) / pow10(target_precision as nat)
            } else {
                1int
            })
            &&& r->Ok_0.0 >= 1 && r->Ok_0.1 >= 1
        },
{
    let oracle_precision = pow10_u128(expo_abs)?;
    let target_precision_scaled = pow10_u128(target_precision)?;
    proof {
        lemma_pow10_positive(expo_abs as nat);
        lemma_pow10_positive(target_precision as nat);
    }
    let mut oracle_scale_mult: u128 = 1;
    let mut oracle_scale_div: u128 = 1;
    if oracle_precision > target_precision_scaled {
        oracle_scale_div = oracle_precision / target_precision_scaled;
        assert(oracle_scale_div >= 1) by (nonlinear_arith)
            requires
                oracle_scale_div == oracle_precision / target_precision_scaled,
                oracle_precision >= target_precision_scaled,
                target_precision_scaled >= 1,
        ;
    } else {
        oracle_scale_mult = target_precision_scaled / oracle_precision;
        assert(oracle_scale_mult >= 1) by (nonlinear_arith)
            requires
                oracle_scale_mult == target_precision_scaled / oracle_precision,
                target_precision_scaled >= oracle_precision,
                oracle_precision >= 1,
        ;
    }
    Ok((oracle_scale_mult, oracle_scale_div))
}

/// Magnitude of a price exponent, in the executable domain.
fn expo_magnitude(expo: i32) -> (r: u32)
    ensures
        r as nat == abs_expo(expo),
{
    if expo >= 0 {
        expo as u32
    } else {
        (-(expo as i64)) as u32
    }
}

/// Scales a decoded Pyth aggregate into a reading at the target precision.
///
/// `price` and `conf` are the provider's aggregate price and confidence,
/// `expo` its decimal exponent, `valid_slot` the slot the aggregate was
/// computed for, and `clock_slot` the host's current slot.
pub fn get_price(
    price: i64,
    conf: u64,
    expo: i32,
    valid_slot: u64,
    clock_slot: u64,
    target_precision: u32,
) -> (r: Result<OraclePriceData, ErrorCode>)
    ensures
        r == spec_pyth_price(
            price as int,
            conf as int,
            abs_expo(expo),
            valid_slot as int,
            clock_slot as int,
            target_precision as nat,
        ),
{
    let oracle_price = cast_to_i128(price)?;
    let oracle_conf = cast_to_u128(conf)?;

    let expo_abs = expo_magnitude(expo);
    let (oracle_scale_mult, oracle_scale_div) = scale_factors(expo_abs, target_precision)?;

    let mult_i = cast(oracle_scale_mult)?;
    let oracle_price_scaled = match oracle_price.checked_mul(mult_i) {
        Some(v) => v,
        None => {
            return Err(ErrorCode::MathError);
        },
    };
    let div_i = cast(oracle_scale_div)?;
    let oracle_price_scaled = match oracle_price_scaled.checked_div(div_i) {
        Some(v) => v,
        None => {
            return Err(ErrorCode::MathError);
        },
    };

    let oracle_conf_scaled = match oracle_conf.checked_mul(oracle_scale_mult) {
        Some(v) => v,
        None => {
            return Err(ErrorCode::MathError);
        },
    };
    let oracle_conf_scaled = oracle_conf_scaled / oracle_scale_div;

    let clock_i = cast_to_i64(clock_slot)?;
    let valid_i = cast_to_i64(valid_slot)?;
    let oracle_delay: i64 = clock_i - valid_i;

    Ok(OraclePriceData {
        price: oracle_price_scaled,
        confidence: oracle_conf_scaled,
        delay: oracle_delay,
        has_sufficient_number_of_data_points: true,
    })
}

/// Scales a decoded Pyth time-weighted average price to the target precision.
pub fn get_twap(twap: i64, expo: i32, target_precision: u32) -> (r: Result<i128, ErrorCode>)
    ensures
        r == spec_pyth_twap(twap as int, abs_expo(expo), target_precision as nat),
{
    let oracle_twap = cast_to_i128(twap)?;

    let expo_abs = expo_magnitude(expo);
    let (oracle_scale_mult, oracle_scale_div) = scale_factors(expo_abs, target_precision)?;

    let mult_i = cast(oracle_scale_mult)?;
    let scaled = match oracle_twap.checked_mul(mult_i) {
        Some(v) => v,
        None => {
            return Err(ErrorCode::MathError);
        },
    };
    let div_i = cast(oracle_scale_div)?;
    let scaled = match scaled.checked_div(div_i) {
        Some(v) => v,
        None => {
            return Err(ErrorCode::MathError);
        },
    };
    Ok(scaled)
}

} // verus!
