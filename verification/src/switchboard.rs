//! Scaling of decoded Switchboard readings to the target precision. The host
//! loads the aggregator account and hands this module the mantissa/scale
//! pairs and round fields it decoded.

use vstd::prelude::*;

use crate::casting::cast_to_i64;
use crate::conversion::{div_trunc, lemma_pow10_positive, pow10, pow10_u128};
use crate::error::ErrorCode;
use crate::oracle::OraclePriceData;

verus! {

/// Magnitude of a signed value.
pub open spec fn abs_i(x: int) -> int {
    if x >= 0 {
        x
    } else {
        -x
    }
}

/// Exact outcome of rescaling a decimal given as mantissa and scale (the
/// value is `mantissa / 10^scale`) to `target` decimal places: coarser
/// targets divide with truncation toward zero, finer targets multiply, and
/// each step fails exactly where its machine domain cannot hold the value.
pub open spec fn spec_convert_switchboard_decimal(mantissa: int, scale: nat, target: nat) -> Result<
    i128,
    ErrorCode,
> {
    if pow10(scale) > u128::MAX || pow10(target) > u128::MAX {
        Err(ErrorCode::MathError)
    } else if pow10(scale) > pow10(target) {
        let ratio = pow10(scale) / pow10(target);
        if ratio > i128::MAX {
            Err(ErrorCode::CastingFailure)
        } else {
            Ok(div_trunc(mantissa, ratio) as i128)
        }
    } else {
        let ratio = pow10(target) / pow10(scale);
        if ratio > i128::MAX {
            Err(ErrorCode::CastingFailure)
        } else if mantissa * ratio > i128::MAX || mantissa * ratio < i128::MIN {
            Err(ErrorCode::MathError)
        } else {
            Ok((mantissa * ratio) as i128)
        }
    }
}

/// Exact outcome of assembling a Switchboard reading. A negative standard
/// deviation is flagged by saturating the confidence; otherwise the
/// confidence is at least a tenth of a percent of the price's magnitude.
pub open spec fn spec_switchboard_price(
    result_mantissa: int,
    result_scale: nat,
    std_dev_mantissa: int,
    std_dev_scale: nat,
    round_open_slot: int,
    num_success: int,
    min_oracle_results: int,
    clock_slot: int,
    target: nat,
) -> Result<OraclePriceData, ErrorCode> {
    match spec_convert_switchboard_decimal(result_mantissa, result_scale, target) {
        Err(e) => Err(e),
        Ok(price) => match spec_convert_switchboard_decimal(std_dev_mantissa, std_dev_scale, target) {
            Err(e) => Err(e),
            Ok(conf_raw) => {
                let price_10bps = abs_i(price as int) / 1000;
                let conf = if conf_raw < 0 {
                    u128::MAX as int
                } else if conf_raw as int > price_10bps {
                    conf_raw as int
                } else {
                    price_10bps
                };
                if clock_slot > i64::MAX {
                    Err(ErrorCode::CastingFailure)
                } else if round_open_slot > i64::MAX {
                    Err(ErrorCode::CastingFailure)
                } else {
                    Ok(OraclePriceData {
                        price: price,
                        confidence: conf as u128,
                        delay: (clock_slot - round_open_slot) as i64,
                        has_sufficient_number_of_data_points: num_success >= min_oracle_results,
                    })
                }
            },
        },
    }
}

/// Magnitude of a signed 128-bit value, in the executable domain.
fn i128_magnitude(x: i128) -> (r: u128)
    ensures
        r as int == abs_i(x as int),
{
    if x >= 0 {
        x as u128
    } else {
        ((-(x + 1)) as u128) + 1
    }
}

/// Rescales a decimal represented as a mantissa (the digits) and a scale
/// (how many of them are fractional) to `target_precision` decimal places.
pub fn convert_switchboard_decimal(mantissa: i128, scale: u32, target_precision: u32) -> (r: Result<
    i128,
    ErrorCode,
>)
    ensures
        r == spec_convert_switchboard_decimal(
            mantissa as int,
            scale as nat,
            target_precision as nat,
        ),
{
    let switchboard_precision_scaled = pow10_u128(scale)?;
    let target_precision_scaled = pow10_u128(target_precision)?;
    proof {
        lemma_pow10_positive(scale as nat);
        lemma_pow10_positive(target_precision as nat);
    }

    if switchboard_precision_scaled > target_precision_scaled {
        let ratio = switchboard_precision_scaled / target_precision_scaled;
        if ratio > i128::MAX as u128 {
            return Err(ErrorCode::CastingFailure);
        }
        assert(ratio >= 1) by (nonlinear_arith)
            requires
                ratio == switchboard_precision_scaled as int / target_precision_scaled as int,
                switchboard_precision_scaled >= target_precision_scaled,
                target_precision_scaled >= 1,
        ;
        match mantissa.checked_div(ratio as i128) {
            Some(v) => Ok(v),
            None => Err(ErrorCode::MathError),
        }
    } else {
        let ratio = target_precision_scaled / switchboard_precision_scaled;
        if ratio > i128::MAX as u128 {
            return Err(ErrorCode::CastingFailure);
        }
        match mantissa.checked_mul(ratio as i128) {
            Some(v) => Ok(v),
            None => Err(ErrorCode::MathError),
        }
    }
}

/// Assembles a Switchboard reading at the target precision from the decoded
/// latest-confirmed-round fields.
///
/// A negative standard deviation can only be a decoding fault, so the
/// confidence saturates to flag the reading invalid; otherwise the
/// confidence is the standard deviation, floored at a tenth of a percent of
/// the price's magnitude.
pub fn get_price(
    result_mantissa: i128,
    result_scale: u32,
    std_dev_mantissa: i128,
    std_dev_scale: u32,
    round_open_slot: u64,
    num_success: u32,
    min_oracle_results: u32,
    clock_slot: u64,
    target_precision: u32,
) -> (r: Result<OraclePriceData, ErrorCode>)
    ensures
        r == spec_switchboard_price(
            result_mantissa as int,
            result_scale as nat,
            std_dev_mantissa as int,
            std_dev_scale as nat,
            round_open_slot as int,
            num_success as int,
            min_oracle_results as int,
            clock_slot as int,
            target_precision as nat,
        ),
{
    let price = convert_switchboard_decimal(result_mantissa, result_scale, target_precision)?;
    let conf_raw = convert_switchboard_decimal(std_dev_mantissa, std_dev_scale, target_precision)?;

    let conf: u128 = if conf_raw < 0 {
        u128::MAX
    } else {
        let price_10bps = i128_magnitude(price) / 1000;
        let conf_u = conf_raw as u128;
        if conf_u > price_10bps {
            conf_u
        } else {
            price_10bps
        }
    };

    let clock_i = cast_to_i64(clock_slot)?;
    let open_i = cast_to_i64(round_open_slot)?;
    let delay: i64 = clock_i - open_i;

    let has_sufficient_number_of_data_points = num_success >= min_oracle_results;

    Ok(OraclePriceData {
        price,
        confidence: conf,
        delay,
        has_sufficient_number_of_data_points,
    })
}

} // verus!
