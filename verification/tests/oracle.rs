use bucket_program::error::ErrorCode;
use bucket_program::oracle::{
    get_oracle_price, get_oracle_twap, is_oracle_valid, OraclePriceData, OracleSource,
};
use bucket_program::pyth;
use bucket_program::switchboard;

fn good_reading(price: i128) -> OraclePriceData {
    OraclePriceData {
        price,
        confidence: 50,
        delay: 5,
        has_sufficient_number_of_data_points: true,
    }
}

#[test]
fn default_source_is_pyth_and_backup_is_switchboard() {
    assert_eq!(OracleSource::default(), OracleSource::Pyth);
    assert_eq!(OracleSource::backup(), OracleSource::Switchboard);
}

#[test]
fn a_fresh_confident_positive_reading_is_valid() {
    assert_eq!(is_oracle_valid(&good_reading(1_000_000), None), Ok(true));
    assert_eq!(
        is_oracle_valid(&good_reading(1_000_000), Some(999_000)),
        Ok(true)
    );
}

#[test]
fn staleness_confidence_and_positivity_each_invalidate() {
    let stale = OraclePriceData { delay: 1001, ..good_reading(1_000_000) };
    assert_eq!(is_oracle_valid(&stale, None), Ok(false));
    let at_threshold = OraclePriceData { delay: 1000, ..good_reading(1_000_000) };
    assert_eq!(is_oracle_valid(&at_threshold, None), Ok(true));

    let wide = OraclePriceData { confidence: 100_001, ..good_reading(1_000_000) };
    assert_eq!(is_oracle_valid(&wide, None), Ok(false));
    let at_conf_cap = OraclePriceData { confidence: 100_000, ..good_reading(1_000_000) };
    assert_eq!(is_oracle_valid(&at_conf_cap, None), Ok(true));

    assert_eq!(is_oracle_valid(&good_reading(0), None), Ok(false));
    assert_eq!(is_oracle_valid(&good_reading(-5), None), Ok(false));
    assert_eq!(
        is_oracle_valid(&good_reading(1_000_000), Some(0)),
        Ok(false)
    );

    let thin = OraclePriceData {
        has_sufficient_number_of_data_points: false,
        ..good_reading(1_000_000)
    };
    assert_eq!(is_oracle_valid(&thin, None), Ok(false));
}

#[test]
fn valid_primary_reading_is_returned() {
    let primary = good_reading(1_000_000);
    let backup = good_reading(2_000_000);
    assert_eq!(
        get_oracle_price(&primary, None, &backup, None),
        Ok(primary)
    );
}

#[test]
fn invalid_primary_falls_back_to_valid_backup() {
    let primary = OraclePriceData { delay: 1001, ..good_reading(1_000_000) };
    let backup = good_reading(2_000_000);
    assert_eq!(get_oracle_price(&primary, None, &backup, None), Ok(backup));
}

#[test]
fn two_invalid_readings_fail_with_invalid_oracle() {
    let primary = OraclePriceData { delay: 1001, ..good_reading(1_000_000) };
    let backup = good_reading(-1);
    assert_eq!(
        get_oracle_price(&primary, None, &backup, None),
        Err(ErrorCode::InvalidOracle)
    );
}

#[test]
fn pyth_reading_scales_down_to_the_target_precision() {
    // Exponent -8 against a 6-decimal target: divide by 100.
    let r = pyth::get_price(12345, 1000, -8, 50, 60, 6).unwrap();
    assert_eq!(r.price, 123);
    assert_eq!(r.confidence, 10);
    assert_eq!(r.delay, 10);
    assert!(r.has_sufficient_number_of_data_points);
}

#[test]
fn pyth_reading_scales_up_to_the_target_precision() {
    // Exponent -4 against a 6-decimal target: multiply by 100.
    let r = pyth::get_price(12345, 7, -4, 58, 60, 6).unwrap();
    assert_eq!(r.price, 1_234_500);
    assert_eq!(r.confidence, 700);
    assert_eq!(r.delay, 2);
}

#[test]
fn pyth_reading_keeps_the_sign_of_a_negative_price() {
    let r = pyth::get_price(-12345, 0, -8, 50, 60, 6).unwrap();
    assert_eq!(r.price, -123);
}

#[test]
fn pyth_future_slot_gives_a_negative_delay() {
    let r = pyth::get_price(100, 0, -6, 70, 60, 6).unwrap();
    assert_eq!(r.delay, -10);
}

#[test]
fn pyth_twap_scales_like_the_price() {
    assert_eq!(pyth::get_twap(98765, -8, 6), Ok(987));
    assert_eq!(pyth::get_twap(5, -3, 6), Ok(5000));
}

#[test]
fn oracle_twap_comes_from_pyth_only() {
    assert_eq!(get_oracle_twap(OracleSource::Pyth, 98765, -8, 6), Ok(Some(987)));
    assert_eq!(get_oracle_twap(OracleSource::Switchboard, 98765, -8, 6), Ok(None));
}

#[test]
fn switchboard_decimal_rescales_in_both_directions() {
    assert_eq!(switchboard::convert_switchboard_decimal(123_456_789, 9, 6), Ok(123_456));
    assert_eq!(switchboard::convert_switchboard_decimal(5, 3, 6), Ok(5000));
    assert_eq!(switchboard::convert_switchboard_decimal(-123_456_789, 9, 6), Ok(-123_456));
}

#[test]
fn switchboard_reading_floors_confidence_at_ten_basis_points_of_price() {
    let r = switchboard::get_price(123_456_789, 9, 5, 6, 40, 3, 2, 45, 6).unwrap();
    assert_eq!(r.price, 123_456);
    // The standard deviation of 5 is below a tenth of a percent of the
    // price, so the floor applies.
    assert_eq!(r.confidence, 123);
    assert_eq!(r.delay, 5);
    assert!(r.has_sufficient_number_of_data_points);
}

#[test]
fn switchboard_reading_keeps_a_larger_standard_deviation() {
    let r = switchboard::get_price(123_456_789, 9, 999, 6, 40, 3, 2, 45, 6).unwrap();
    assert_eq!(r.confidence, 999);
}

#[test]
fn switchboard_negative_standard_deviation_saturates_the_confidence() {
    let r = switchboard::get_price(123_456_789, 9, -1, 6, 40, 3, 2, 45, 6).unwrap();
    assert_eq!(r.confidence, u128::MAX);
    assert_eq!(is_oracle_valid(&r, None), Ok(false));
}

#[test]
fn switchboard_reading_reports_insufficient_samples() {
    let r = switchboard::get_price(123_456_789, 9, 5, 6, 40, 1, 2, 45, 6).unwrap();
    assert!(!r.has_sufficient_number_of_data_points);
    assert_eq!(is_oracle_valid(&r, None), Ok(false));
}
