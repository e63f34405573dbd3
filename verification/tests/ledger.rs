use bucket_program::bucket::{Bucket, Collateral};
use bucket_program::error::ErrorCode;
use bucket_program::util::{
    get_collateral_idx, is_collateral_authorized, sum_allocations,
};

fn fresh_bucket() -> Bucket {
    let mut b = Bucket {
        bump: 0,
        crate_mint: 100,
        crate_token: 101,
        authority: 7,
        rebalance_authority: 7,
        collateral: Vec::new(),
    };
    b.init(1, 100, 101, 7);
    b
}

fn ledger(entries: &[(u64, u16)]) -> Vec<Collateral> {
    entries
        .iter()
        .map(|&(mint, allocation)| Collateral { mint, allocation })
        .collect()
}

fn bucket_with(entries: &[(u64, u16)]) -> Bucket {
    Bucket {
        bump: 1,
        crate_mint: 100,
        crate_token: 101,
        authority: 7,
        rebalance_authority: 7,
        collateral: ledger(entries),
    }
}

#[test]
fn init_defaults_rebalance_authority_to_authority() {
    let b = fresh_bucket();
    assert_eq!(b.authority, 7);
    assert_eq!(b.rebalance_authority, 7);
    assert!(b.collateral.is_empty());
}

#[test]
fn update_rebalance_authority_changes_only_that_field() {
    let mut b = fresh_bucket();
    assert_eq!(b.update_rebalance_authority(9), Ok(()));
    assert_eq!(b.rebalance_authority, 9);
    assert_eq!(b.authority, 7);
}

#[test]
fn first_authorize_must_take_the_full_scale() {
    let mut b = fresh_bucket();
    assert_eq!(b.add_collateral(1, 5000), Err(ErrorCode::AllocationBpsError));
    assert!(b.collateral.is_empty());
    assert_eq!(b.add_collateral(1, 10000), Ok(()));
    assert_eq!(b.collateral, ledger(&[(1, 10000)]));
}

#[test]
fn authorize_shrinks_existing_entries_proportionally() {
    let mut b = bucket_with(&[(1, 10000)]);
    assert_eq!(b.add_collateral(2, 3000), Ok(()));
    assert_eq!(b.collateral, ledger(&[(1, 7000), (2, 3000)]));
    assert_eq!(sum_allocations(&b.collateral), Ok(10000));
}

#[test]
fn authorize_duplicate_mint_fails() {
    let mut b = bucket_with(&[(1, 6000), (2, 4000)]);
    assert_eq!(
        b.add_collateral(2, 100),
        Err(ErrorCode::CollateralAlreadyAuthorizedError)
    );
    assert_eq!(b.collateral, ledger(&[(1, 6000), (2, 4000)]));
}

#[test]
fn authorize_full_scale_on_nonempty_ledger_fails() {
    let mut b = bucket_with(&[(1, 6000), (2, 4000)]);
    assert_eq!(b.add_collateral(3, 10000), Err(ErrorCode::AllocationBpsError));
    assert_eq!(b.collateral, ledger(&[(1, 6000), (2, 4000)]));
}

#[test]
fn authorize_zero_allocation_appends_a_zero_entry() {
    let mut b = bucket_with(&[(1, 10000)]);
    assert_eq!(b.add_collateral(2, 0), Ok(()));
    assert_eq!(b.collateral, ledger(&[(1, 10000), (2, 0)]));
}

#[test]
fn authorize_beyond_capacity_fails_and_leaves_ledger_unchanged() {
    // 315 entries: the first takes what the other 314 single-point entries
    // leave of the full scale.
    let mut entries: Vec<(u64, u16)> = vec![(1, 10000 - 314)];
    for m in 2..=315u64 {
        entries.push((m, 1));
    }
    let mut b = bucket_with(&entries);
    let before = b.collateral.clone();
    assert_eq!(
        b.add_collateral(999, 5),
        Err(ErrorCode::CollateralSizeLimitsExceeded)
    );
    assert_eq!(b.collateral, before);
}

#[test]
fn authorize_with_oversized_allocation_fails_with_math_error() {
    let mut b = bucket_with(&[(1, 10000)]);
    assert_eq!(b.add_collateral(2, 60000), Err(ErrorCode::MathError));
    assert_eq!(b.collateral, ledger(&[(1, 10000)]));
}

#[test]
fn authorize_rejects_an_unsupported_rounding_magnitude() {
    // Twenty entries of 500 basis points each; authorizing 19 more points
    // leaves a truncation remainder of 9500 at every entry, 190000 in all,
    // beyond what the rounding-adjustment divisor supports.
    let entries: Vec<(u64, u16)> = (1..=20u64).map(|m| (m, 500)).collect();
    let mut b = bucket_with(&entries);
    let before = b.collateral.clone();
    assert_eq!(
        b.add_collateral(99, 19),
        Err(ErrorCode::NumberOfSizeNotSupported)
    );
    assert_eq!(b.collateral, before);
}

#[test]
fn authorize_charges_rounding_loss_to_the_new_entry() {
    // Three entries whose shrink loses one basis point to truncation; the
    // new entry absorbs the loss so the total still lands on 10000.
    let mut b = bucket_with(&[(1, 3333), (2, 3333), (3, 3334)]);
    assert_eq!(b.add_collateral(4, 1), Ok(()));
    assert_eq!(sum_allocations(&b.collateral), Ok(10000));
    assert_eq!(b.collateral.len(), 4);
}

#[test]
fn deauthorize_on_single_entry_ledger_fails_and_leaves_ledger_unchanged() {
    let mut b = bucket_with(&[(1, 10000)]);
    assert_eq!(b.remove_collateral(1), Err(ErrorCode::MinCollateralError));
    assert_eq!(b.collateral, ledger(&[(1, 10000)]));
}

#[test]
fn deauthorize_unknown_mint_fails() {
    let mut b = bucket_with(&[(1, 6000), (2, 4000)]);
    assert_eq!(
        b.remove_collateral(9),
        Err(ErrorCode::CollateralDoesNotExistError)
    );
    assert_eq!(b.collateral, ledger(&[(1, 6000), (2, 4000)]));
}

#[test]
fn deauthorize_redistributes_proportionally() {
    let mut b = bucket_with(&[(1, 6000), (2, 3000), (3, 1000)]);
    assert_eq!(b.remove_collateral(3), Ok(()));
    // 6000 + 6000*1000/9000 = 6666, 3000 + 3000*1000/9000 = 3333; the one
    // point lost to truncation goes to the first entry.
    assert_eq!(b.collateral, ledger(&[(1, 6667), (2, 3333)]));
    assert_eq!(sum_allocations(&b.collateral), Ok(10000));
}

#[test]
fn deauthorize_full_allocation_entry_fails_with_math_error() {
    let mut b = bucket_with(&[(1, 10000), (2, 0)]);
    assert_eq!(b.remove_collateral(1), Err(ErrorCode::MathError));
    assert_eq!(b.collateral, ledger(&[(1, 10000), (2, 0)]));
}

#[test]
fn authorize_then_deauthorize_restores_allocations() {
    let mut b = bucket_with(&[(1, 6000), (2, 3000), (3, 1000)]);
    assert_eq!(b.add_collateral(4, 1000), Ok(()));
    assert_eq!(
        b.collateral,
        ledger(&[(1, 5400), (2, 2700), (3, 900), (4, 1000)])
    );
    assert_eq!(sum_allocations(&b.collateral), Ok(10000));
    assert_eq!(b.remove_collateral(4), Ok(()));
    assert_eq!(b.collateral, ledger(&[(1, 6000), (2, 3000), (3, 1000)]));
    assert_eq!(sum_allocations(&b.collateral), Ok(10000));
}

#[test]
fn set_allocations_reweights_current_entries() {
    let mut b = bucket_with(&[(1, 6000), (2, 4000)]);
    assert_eq!(
        b.set_collateral_allocations(&ledger(&[(1, 7000), (2, 3000)])),
        Ok(())
    );
    assert_eq!(b.collateral, ledger(&[(1, 7000), (2, 3000)]));
}

#[test]
fn set_allocations_ignores_unknown_mints() {
    let mut b = bucket_with(&[(1, 6000), (2, 4000)]);
    assert_eq!(
        b.set_collateral_allocations(&ledger(&[(1, 7000), (2, 3000), (3, 500)])),
        Ok(())
    );
    // Mint 3 is not added: membership cannot change through a reweighting.
    assert_eq!(b.collateral, ledger(&[(1, 7000), (2, 3000)]));
}

#[test]
fn set_allocations_requires_every_current_mint() {
    let mut b = bucket_with(&[(1, 6000), (2, 4000)]);
    assert_eq!(
        b.set_collateral_allocations(&ledger(&[(1, 10000)])),
        Err(ErrorCode::CollateralDoesNotExistError)
    );
    assert_eq!(b.collateral, ledger(&[(1, 6000), (2, 4000)]));
}

#[test]
fn set_allocations_rejects_a_wrong_total() {
    let mut b = bucket_with(&[(1, 6000), (2, 4000)]);
    assert_eq!(
        b.set_collateral_allocations(&ledger(&[(1, 5000), (2, 4000)])),
        Err(ErrorCode::AllocationBpsError)
    );
    assert_eq!(b.collateral, ledger(&[(1, 6000), (2, 4000)]));
}

#[test]
fn set_allocations_rejects_an_overflowing_total() {
    let mut b = bucket_with(&[(1, 6000), (2, 4000)]);
    assert_eq!(
        b.set_collateral_allocations(&ledger(&[(1, 65535), (2, 65535)])),
        Err(ErrorCode::MathError)
    );
    assert_eq!(b.collateral, ledger(&[(1, 6000), (2, 4000)]));
}

#[test]
fn authorization_queries_report_membership_and_first_index() {
    let c = ledger(&[(1, 6000), (2, 4000)]);
    assert!(is_collateral_authorized(&c, 1));
    assert!(is_collateral_authorized(&c, 2));
    assert!(!is_collateral_authorized(&c, 9));
    assert_eq!(get_collateral_idx(&c, 2), Ok(1));
    assert_eq!(
        get_collateral_idx(&c, 9),
        Err(ErrorCode::CollateralDoesNotExistError)
    );
}

#[test]
fn summing_an_overweight_ledger_fails() {
    let c = ledger(&[(1, 9000), (2, 9000)]);
    assert_eq!(sum_allocations(&c), Err(ErrorCode::AllocationBpsError));
}

#[test]
fn authorize_above_the_full_scale_can_still_balance_out() {
    // The shrink formula is defined for any requested allocation the
    // arithmetic can absorb: here the two existing entries shrink to zero
    // and the rounding adjustment brings the new entry back to the full
    // scale exactly.
    let mut b = bucket_with(&[(1, 9999), (2, 1)]);
    assert_eq!(b.add_collateral(3, 10001), Ok(()));
    assert_eq!(b.collateral, ledger(&[(1, 0), (2, 0), (3, 10000)]));
    assert_eq!(sum_allocations(&b.collateral), Ok(10000));
}

#[test]
fn allocation_sum_is_exactly_full_scale_after_every_successful_call() {
    let mut b = fresh_bucket();
    assert_eq!(b.add_collateral(1, 10000), Ok(()));
    assert_eq!(sum_allocations(&b.collateral), Ok(10000));
    assert_eq!(b.add_collateral(2, 3000), Ok(()));
    assert_eq!(sum_allocations(&b.collateral), Ok(10000));
    assert_eq!(b.add_collateral(3, 1500), Ok(()));
    assert_eq!(sum_allocations(&b.collateral), Ok(10000));
    assert_eq!(b.remove_collateral(2), Ok(()));
    assert_eq!(sum_allocations(&b.collateral), Ok(10000));
    let reweight: Vec<Collateral> = b
        .collateral
        .iter()
        .enumerate()
        .map(|(i, c)| Collateral {
            mint: c.mint,
            allocation: if i == 0 { 9000 } else { 1000 },
        })
        .collect();
    assert_eq!(b.set_collateral_allocations(&reweight), Ok(()));
    assert_eq!(sum_allocations(&b.collateral), Ok(10000));
    assert_eq!(b.remove_collateral(1), Ok(()));
    assert_eq!(sum_allocations(&b.collateral), Ok(10000));
}
