//! Oracle price aggregation: validity gating of a decoded reading and the
//! primary-to-backup failover. The raw feed decoding from chain accounts is
//! the host's business; this module works on the decoded readings.

use vstd::prelude::*;

use crate::constant::{MAX_ORACLE_CONF, SLOTS_BEFORE_STALE};
use crate::error::ErrorCode;
use crate::pyth;

verus! {

/// The oracle providers a reading can come from. The default source is
/// queried first; the other provider serves as the backup.
#[derive(Clone, Copy, Debug, PartialEq, Eq, Structural)]
pub enum OracleSource {
    Pyth,
    Switchboard,
}

impl Default for OracleSource {
    /// The provider queried first on every price lookup.
    fn default() -> (r: Self)
        ensures
            r == OracleSource::Pyth,
    {
        OracleSource::Pyth
    }
}

impl OracleSource {
    /// The provider queried when the default provider's reading is invalid:
    /// always the other one.
    pub fn backup() -> (r: Self)
        ensures
            r == OracleSource::Switchboard,
    {
        match OracleSource::default() {
            OracleSource::Pyth => OracleSource::Switchboard,
            OracleSource::Switchboard => OracleSource::Pyth,
        }
    }
}

/// One decoded oracle reading, scaled to the target precision. Ephemeral:
/// recomputed on every call, never cached.
#[derive(Clone, Copy, Debug, PartialEq, Eq, Structural)]
pub struct OraclePriceData {
    /// Signed fixed-point price at the target precision.
    pub price: i128,
    /// Unsigned confidence magnitude at the same precision.
    pub confidence: u128,
    /// Age of the reading in host clock slots.
    pub delay: i64,
    /// Whether the provider aggregated enough samples.
    pub has_sufficient_number_of_data_points: bool,
}

/// Validity of a reading: not stale, confidence within bounds, price (and
/// time-weighted average, when one is available) strictly positive, and
/// backed by sufficiently many samples.
pub open spec fn spec_oracle_valid(d: OraclePriceData, twap: Option<i128>) -> bool {
    let is_oracle_price_nonpositive = (match twap {
        Some(t) => t <= 0,
        None => false,
    }) || d.price <= 0;
    let is_conf_too_large = d.confidence > MAX_ORACLE_CONF;
    let is_stale = d.delay > SLOTS_BEFORE_STALE;
    !(is_stale || is_conf_too_large || is_oracle_price_nonpositive)
        && d.has_sufficient_number_of_data_points
}

/// The two-level failover: the primary reading when it is valid, else the
/// backup reading when that is valid, else no price at all.
pub open spec fn spec_oracle_selection(
    primary: OraclePriceData,
    primary_twap: Option<i128>,
    backup: OraclePriceData,
    backup_twap: Option<i128>,
) -> Result<OraclePriceData, ErrorCode> {
    if spec_oracle_valid(primary, primary_twap) {
        Ok(primary)
    } else if spec_oracle_valid(backup, backup_twap) {
        Ok(backup)
    } else {
        Err(ErrorCode::InvalidOracle)
    }
}

/// Checks one decoded reading against the staleness, confidence, positivity
/// and sample-count gates.
pub fn is_oracle_valid(oracle_price_data: &OraclePriceData, twap: Option<i128>) -> (r: Result<
    bool,
    ErrorCode,
>)
    ensures
        r == Ok::<bool, ErrorCode>(spec_oracle_valid(*oracle_price_data, twap)),
{
    let price = oracle_price_data.price;
    let confidence = oracle_price_data.confidence;
    let delay = oracle_price_data.delay;
    let has_sufficient_number_of_data_points =
        oracle_price_data.has_sufficient_number_of_data_points;

    let is_oracle_price_nonpositive = (match twap {
        Some(t) => t <= 0,
        None => false,
    }) || price <= 0;
    let is_conf_too_large = confidence > MAX_ORACLE_CONF;
    let is_stale = delay > SLOTS_BEFORE_STALE;

    Ok(
        !(is_stale || is_conf_too_large || is_oracle_price_nonpositive)
            && has_sufficient_number_of_data_points,
    )
}

/// Produces the trusted reading for a call: the primary source's decoded
/// reading when it passes every validity gate, otherwise the backup source's
/// reading, otherwise [`ErrorCode::InvalidOracle`]. No retries and no
/// caching beyond this single failover.
pub fn get_oracle_price(
    primary: &OraclePriceData,
    primary_twap: Option<i128>,
    backup: &OraclePriceData,
    backup_twap: Option<i128>,
) -> (r: Result<OraclePriceData, ErrorCode>)
    ensures
        r == spec_oracle_selection(*primary, primary_twap, *backup, backup_twap),
{
    let is_default_oracle_valid = match is_oracle_valid(primary, primary_twap) {
        Ok(v) => v,
        Err(e) => {
            return Err(e);
        },
    };
    if is_default_oracle_valid {
        Ok(*primary)
    } else {
        let is_backup_oracle_valid = match is_oracle_valid(backup, backup_twap) {
            Ok(v) => v,
            Err(e) => {
                return Err(e);
            },
        };
        if is_backup_oracle_valid {
            Ok(*backup)
        } else {
            Err(ErrorCode::InvalidOracle)
        }
    }
}

/// The time-weighted average price backing the validity gate: the default
/// source's scaled average when the default source publishes one, and no
/// value otherwise.
pub fn get_oracle_twap(
    source: OracleSource,
    pyth_twap: i64,
    pyth_expo: i32,
    target_precision: u32,
) -> (r: Result<Option<i128>, ErrorCode>)
    ensures
        source == OracleSource::Switchboard ==> r == Ok::<Option<i128>, ErrorCode>(None),
        source == OracleSource::Pyth ==> r == (match pyth::spec_pyth_twap(
            pyth_twap as int,
            pyth::abs_expo(pyth_expo),
            target_precision as nat,
        ) {
            Ok(v) => Ok::<Option<i128>, ErrorCode>(Some(v)),
            Err(e) => Err::<Option<i128>, ErrorCode>(e),
        }),
{
    match source {
        OracleSource::Pyth => {
            let twap = pyth::get_twap(pyth_twap, pyth_expo, target_precision)?;
            Ok(Some(twap))
        },
        OracleSource::Switchboard => Ok(None),
    }
}

} // verus!
