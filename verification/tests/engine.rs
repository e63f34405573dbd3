use bucket_program::bucket::Collateral;
use bucket_program::error::ErrorCode;
use bucket_program::issuance::compute_issue_amount;
use bucket_program::oracle::OraclePriceData;
use bucket_program::redemption::{
    compute_collateral_value, compute_redeemable_amount, compute_redemption_shares, compute_share,
    RedeemAssetInput,
};

fn reading(price: i128) -> OraclePriceData {
    OraclePriceData {
        price,
        confidence: 50,
        delay: 5,
        has_sufficient_number_of_data_points: true,
    }
}

fn stale(price: i128) -> OraclePriceData {
    OraclePriceData { delay: 1001, ..reading(price) }
}

fn ledger() -> Vec<Collateral> {
    vec![
        Collateral { mint: 1, allocation: 6000 },
        Collateral { mint: 2, allocation: 4000 },
    ]
}

fn asset(balance: u64, price: i128) -> RedeemAssetInput {
    RedeemAssetInput {
        collateral_amount: balance,
        decimals: 0,
        primary: reading(price),
        primary_twap: None,
        backup: stale(price),
        backup_twap: None,
    }
}

#[test]
fn deposit_of_an_authorized_collateral_mints_at_the_oracle_price() {
    // A price of 1.0 at the six-decimal target issues one for one.
    assert_eq!(
        compute_issue_amount(&ledger(), 1, 500, &reading(1_000_000), None, &stale(1), None),
        Ok(500)
    );
    // A price of 2.0 doubles the issue.
    assert_eq!(
        compute_issue_amount(&ledger(), 2, 500, &reading(2_000_000), None, &stale(1), None),
        Ok(1000)
    );
}

#[test]
fn deposit_of_an_unknown_mint_is_rejected_before_any_pricing() {
    assert_eq!(
        compute_issue_amount(&ledger(), 9, 500, &reading(1_000_000), None, &reading(1), None),
        Err(ErrorCode::WrongCollateralError)
    );
}

#[test]
fn deposit_uses_the_backup_reading_when_the_primary_is_stale() {
    assert_eq!(
        compute_issue_amount(
            &ledger(),
            1,
            500,
            &stale(1_000_000),
            None,
            &reading(3_000_000),
            None
        ),
        Ok(1500)
    );
}

#[test]
fn deposit_with_two_invalid_readings_fails() {
    assert_eq!(
        compute_issue_amount(&ledger(), 1, 500, &stale(1_000_000), None, &stale(2), None),
        Err(ErrorCode::InvalidOracle)
    );
}

#[test]
fn collateral_value_is_balance_times_price() {
    assert_eq!(compute_collateral_value(60, 1_000_000, 0), Ok(60_000_000));
    assert_eq!(compute_collateral_value(60, 1_000_000, 9), Ok(60_000_000));
}

#[test]
fn redeemable_amount_is_capped_at_the_peg() {
    // Value per reserve token far above the peg: the cap holds the
    // redemption at one to one.
    assert_eq!(compute_redeemable_amount(100_000_000, 100, 10), Ok(10));
    // Value per reserve token at half the peg: the redemption halves.
    assert_eq!(compute_redeemable_amount(1000, 2000, 200), Ok(100));
}

#[test]
fn redeemable_amount_with_zero_supply_is_an_arithmetic_error() {
    assert_eq!(compute_redeemable_amount(1000, 0, 10), Err(ErrorCode::MathError));
}

#[test]
fn share_is_pro_rata_over_the_pre_burn_supply() {
    assert_eq!(compute_share(60, 10, 100), Ok(6));
    assert_eq!(compute_share(60, -200, 100), Err(ErrorCode::CastingFailure));
    assert_eq!(compute_share(60, 10, 0), Err(ErrorCode::MathError));
}

#[test]
fn redeeming_against_a_fully_backed_basket_pays_sixty_thirty_ten() {
    let assets = vec![
        asset(60, 1_000_000),
        asset(30, 1_000_000),
        asset(10, 1_000_000),
    ];
    assert_eq!(
        compute_redemption_shares(100, 100, 10, 100, &assets),
        Ok(vec![6, 3, 1])
    );
}

#[test]
fn redeeming_against_an_undercollateralized_basket_pays_less() {
    // One asset worth 1000 price units against a supply of 2000: the
    // effective redeemable amount of a 200-token burn is halved to 100.
    let assets = vec![asset(100, 10)];
    assert_eq!(
        compute_redemption_shares(100, 100, 200, 2000, &assets),
        Ok(vec![100 * 100 / 2000])
    );
}

#[test]
fn redeeming_the_wrong_token_fails_before_any_math() {
    let assets = vec![asset(60, 1_000_000)];
    assert_eq!(
        compute_redemption_shares(100, 999, 10, 100, &assets),
        Err(ErrorCode::WrongBurnError)
    );
}

#[test]
fn redeeming_with_no_assets_short_circuits_to_no_withdrawals() {
    assert_eq!(
        compute_redemption_shares(100, 100, 10, 100, &Vec::new()),
        Ok(Vec::new())
    );
}

#[test]
fn redeeming_fails_when_any_asset_has_no_valid_reading() {
    let bad = RedeemAssetInput {
        collateral_amount: 30,
        decimals: 0,
        primary: stale(1_000_000),
        primary_twap: None,
        backup: stale(1_000_000),
        backup_twap: None,
    };
    let assets = vec![asset(60, 1_000_000), bad];
    assert_eq!(
        compute_redemption_shares(100, 100, 10, 100, &assets),
        Err(ErrorCode::InvalidOracle)
    );
}
