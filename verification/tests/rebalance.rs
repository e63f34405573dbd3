use bucket_program::bucket::Collateral;
use bucket_program::error::ErrorCode;
use bucket_program::rebalance::{
    compute_exchange_amounts, get_swap_amounts_for_caller, verify_collateral_for_caller,
    ExchangeAmount,
};

fn ledger() -> Vec<Collateral> {
    vec![
        Collateral { mint: 1, allocation: 6000 },
        Collateral { mint: 2, allocation: 4000 },
    ]
}

#[test]
fn non_authority_may_move_stray_collateral_into_an_authorized_one() {
    assert_eq!(verify_collateral_for_caller(false, 9, 1, &ledger()), Ok(()));
}

#[test]
fn non_authority_with_authorized_source_always_fails() {
    // Authorized destination.
    assert_eq!(
        verify_collateral_for_caller(false, 1, 2, &ledger()),
        Err(ErrorCode::CallerCannotRebalanceCollateral)
    );
    // Unauthorized destination.
    assert_eq!(
        verify_collateral_for_caller(false, 1, 9, &ledger()),
        Err(ErrorCode::CallerCannotRebalanceCollateral)
    );
}

#[test]
fn any_caller_needs_an_authorized_destination() {
    assert_eq!(
        verify_collateral_for_caller(false, 8, 9, &ledger()),
        Err(ErrorCode::CallerCannotRebalanceCollateral)
    );
    assert_eq!(
        verify_collateral_for_caller(true, 1, 9, &ledger()),
        Err(ErrorCode::CallerCannotRebalanceCollateral)
    );
}

#[test]
fn authority_may_move_between_authorized_collaterals() {
    assert_eq!(verify_collateral_for_caller(true, 1, 2, &ledger()), Ok(()));
    assert_eq!(verify_collateral_for_caller(true, 9, 2, &ledger()), Ok(()));
}

#[test]
fn exchange_amounts_fold_the_slippage_into_the_expected_output() {
    // (10000 - 150) * 100 = 985000; 1000 * 985000 / 6 = 164166666.
    assert_eq!(
        compute_exchange_amounts(1000, 6, 150),
        Ok(ExchangeAmount { amount_in: 1000, amount_out: 164_166_666 })
    );
}

#[test]
fn exchange_amounts_reject_a_slippage_beyond_the_full_scale() {
    assert_eq!(compute_exchange_amounts(1000, 6, 10001), Err(ErrorCode::MathError));
}

#[test]
fn exchange_amounts_reject_a_zero_decimal_divisor() {
    assert_eq!(compute_exchange_amounts(1000, 0, 150), Err(ErrorCode::MathError));
}

#[test]
fn exchange_amounts_reject_overflow() {
    assert_eq!(compute_exchange_amounts(u64::MAX, 6, 150), Err(ErrorCode::MathError));
}

#[test]
fn authority_swap_amounts_are_taken_verbatim() {
    assert_eq!(
        get_swap_amounts_for_caller(true, 123, 9, 6, 777, 888),
        Ok(ExchangeAmount { amount_in: 777, amount_out: 888 })
    );
}

#[test]
fn non_authority_swap_amounts_are_recomputed_from_custody() {
    // 1_000_000 at 9 decimals is 1000 at 6; 1000 * 985000 / 6 = 164166666.
    assert_eq!(
        get_swap_amounts_for_caller(false, 1_000_000, 9, 6, 777, 888),
        Ok(ExchangeAmount { amount_in: 1000, amount_out: 164_166_666 })
    );
}
