//! Checked narrowing and widening between the integer domains the math runs
//! in. Every cast either returns the numerically equal value in the target
//! type or fails with [`ErrorCode::CastingFailure`].

use vstd::prelude::*;

use crate::error::ErrorCode;

verus! {

/// Casts an unsigned 128-bit magnitude into the signed 128-bit domain.
pub fn cast(t: u128) -> (r: Result<i128, ErrorCode>)
    ensures
        t <= i128::MAX ==> r == Ok::<i128, ErrorCode>(t as i128),
        t > i128::MAX ==> r == Err::<i128, ErrorCode>(ErrorCode::CastingFailure),
{
    if t <= i128::MAX as u128 {
        Ok(t as i128)
    } else {
        Err(ErrorCode::CastingFailure)
    }
}

/// Widens a signed 64-bit value into the signed 128-bit domain; never fails.
pub fn cast_to_i128(t: i64) -> (r: Result<i128, ErrorCode>)
    ensures
        r == Ok::<i128, ErrorCode>(t as i128),
{
    Ok(t as i128)
}

/// Widens an unsigned 64-bit value into the unsigned 128-bit domain; never
/// fails.
pub fn cast_to_u128(t: u64) -> (r: Result<u128, ErrorCode>)
    ensures
        r == Ok::<u128, ErrorCode>(t as u128),
{
    Ok(t as u128)
}

/// Narrows an unsigned 64-bit value into the signed 64-bit domain.
pub fn cast_to_i64(t: u64) -> (r: Result<i64, ErrorCode>)
    ensures
        t <= i64::MAX ==> r == Ok::<i64, ErrorCode>(t as i64),
        t > i64::MAX ==> r == Err::<i64, ErrorCode>(ErrorCode::CastingFailure),
{
    if t <= i64::MAX as u64 {
        Ok(t as i64)
    } else {
        Err(ErrorCode::CastingFailure)
    }
}

} // verus!
