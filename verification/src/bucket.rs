//! The basket record and its collateral-allocation ledger.

use vstd::prelude::*;

use crate::constant::{MAX_BASIS_POINTS, MAX_COLLATERAL_ELEMENTS};
use crate::error::ErrorCode;
use crate::util::{
    alloc_sum, contains_mint, count_mint, first_index_of_mint, get_collateral_idx, get_divisor,
    is_collateral_authorized, lemma_alloc_sum_element_bound, lemma_alloc_sum_nonneg,
    lemma_alloc_sum_remove, lemma_alloc_sum_take_succ, lemma_alloc_sum_update,
    lemma_distinct_count_mint, mints_distinct, spec_divisor, sum_allocations,
};

verus! {

/// The host chain identifies mints, token accounts and authorities by opaque
/// public keys. Only equality of such keys matters to this library, so it
/// models each of them as a plain numeric identifier chosen by the host.
pub type AccountId = u64;

/// One authorized collateral asset and its target allocation.
///
/// Allocations are expressed in basis points; a well-formed ledger's
/// allocations sum to exactly [`MAX_BASIS_POINTS`].
#[derive(Clone, Copy, Debug, PartialEq, Eq, Structural)]
pub struct Collateral {
    /// Mint of the collateral token.
    pub mint: AccountId,
    /// Target allocation of this collateral, in basis points.
    pub allocation: u16,
}

/// One basket of collateral backing a single reserve token.
#[derive(Debug, PartialEq, Eq)]
pub struct Bucket {
    /// Account-derivation nonce kept for the host.
    pub bump: u8,
    /// Mint of the reserve token issued against the basket.
    pub crate_mint: AccountId,
    /// Protocol account that holds the basket's collateral custody.
    pub crate_token: AccountId,
    /// Identity permitted to mutate the ledger and reassign the rebalance
    /// authority.
    pub authority: AccountId,
    /// Identity permitted unrestricted rebalance calls.
    pub rebalance_authority: AccountId,
    /// Ordered ledger of authorized collateral, unique by mint.
    pub collateral: Vec<Collateral>,
}

/// Allocation left to an entry holding `e` basis points after the
/// proportional shrink that makes room for a new allocation of `a`: the entry
/// gives up the truncated share `e * a / 10000`.
pub open spec fn shrunk_allocation(e: int, a: int) -> int {
    e - (e * a) / (MAX_BASIS_POINTS as int)
}

/// The ledger after every entry has been shrunk proportionally for a new
/// allocation of `a`.
pub open spec fn shrunk_seq(s: Seq<Collateral>, a: int) -> Seq<Collateral> {
    s.map(
        |i: int, c: Collateral|
            Collateral {
                mint: c.mint,
                allocation: shrunk_allocation(c.allocation as int, a) as u16,
            },
    )
}

/// Total of the division remainders the proportional shrink truncates away:
/// the basis points lost to rounding, scaled by 10000.
pub open spec fn shrink_remainder_total(s: Seq<Collateral>, a: int) -> int
    decreases s.len(),
{
    if s.len() == 0 {
        0
    } else {
        shrink_remainder_total(s.drop_last(), a) + (s.last().allocation * a) % (
        MAX_BASIS_POINTS as int)
    }
}

/// Exact outcome of authorizing `mint` with `allocation` against the ledger
/// `s`: either the new ledger sequence or the error the operation reports.
pub open spec fn spec_add_collateral(
    s: Seq<Collateral>,
    mint: AccountId,
    allocation: u16,
) -> Result<Seq<Collateral>, ErrorCode> {
    let a = allocation as int;
    if count_mint(s, mint) == 1 {
        Err(ErrorCode::CollateralAlreadyAuthorizedError)
    } else if s.len() >= MAX_COLLATERAL_ELEMENTS {
        Err(ErrorCode::CollateralSizeLimitsExceeded)
    } else if alloc_sum(s) > 0 && allocation == MAX_BASIS_POINTS {
        Err(ErrorCode::AllocationBpsError)
    } else if alloc_sum(s) + a > u16::MAX {
        Err(ErrorCode::MathError)
    } else {
        let shrink = alloc_sum(s) + a > MAX_BASIS_POINTS as int;
        if shrink && exists|i: int|
            0 <= i < s.len() && shrunk_allocation(s[i].allocation as int, a) < 0 {
            Err(ErrorCode::MathError)
        } else {
            let s2 = if shrink {
                shrunk_seq(s, a)
            } else {
                s
            };
            let rr = if shrink {
                shrink_remainder_total(s, a)
            } else {
                0int
            };
            if rr >= 100000 {
                Err(ErrorCode::NumberOfSizeNotSupported)
            } else {
                let adjusted = a - rr / spec_divisor(rr);
                let s3 = s2.push(Collateral { mint, allocation: adjusted as u16 });
                if alloc_sum(s3) == MAX_BASIS_POINTS as int {
                    Ok(s3)
                } else {
                    Err(ErrorCode::AllocationBpsError)
                }
            }
        }
    }
}

/// Allocation of an entry holding `e` basis points after the freed allocation
/// `r` of a removed entry has been redistributed: the entry gains the
/// truncated share `e * r / (10000 - r)`, chosen so that, absent rounding,
/// the remaining total returns to the full scale.
pub open spec fn grown_allocation(e: int, r: int) -> int {
    e + (e * r) / (MAX_BASIS_POINTS as int - r)
}

/// The ledger after a removed allocation of `r` has been redistributed over
/// every remaining entry.
pub open spec fn grown_seq(s: Seq<Collateral>, r: int) -> Seq<Collateral> {
    s.map(
        |i: int, c: Collateral|
            Collateral {
                mint: c.mint,
                allocation: grown_allocation(c.allocation as int, r) as u16,
            },
    )
}

/// Exact outcome of deauthorizing `mint` against the ledger `s`: either the
/// new ledger sequence or the error the operation reports. Whatever rounding
/// leaves short of the full scale is charged to the first remaining entry.
pub open spec fn spec_remove_collateral(s: Seq<Collateral>, mint: AccountId) -> Result<
    Seq<Collateral>,
    ErrorCode,
> {
    if s.len() <= 1 {
        Err(ErrorCode::MinCollateralError)
    } else if !contains_mint(s, mint) {
        Err(ErrorCode::CollateralDoesNotExistError)
    } else {
        let idx = first_index_of_mint(s, mint);
        let removed = s[idx].allocation as int;
        let rest = s.remove(idx);
        if removed == MAX_BASIS_POINTS as int {
            Err(ErrorCode::MathError)
        } else {
            let grown = grown_seq(rest, removed);
            let shortfall = MAX_BASIS_POINTS as int - alloc_sum(grown);
            let fixed = grown.update(
                0,
                Collateral {
                    mint: grown[0].mint,
                    allocation: (grown[0].allocation + shortfall) as u16,
                },
            );
            if alloc_sum(fixed) == MAX_BASIS_POINTS as int {
                Ok(fixed)
            } else {
                Err(ErrorCode::AllocationBpsError)
            }
        }
    }
}

/// Walks the current ledger front to back as a reweighting does, looking each
/// mint up in `input` and accumulating the new total starting from `acc`:
/// stops with the error the walk reports, or with the final total.
pub open spec fn spec_set_walk(
    cur: Seq<Collateral>,
    input: Seq<Collateral>,
    acc: int,
) -> Result<int, ErrorCode>
    decreases cur.len(),
{
    if cur.len() == 0 {
        Ok(acc)
    } else if !contains_mint(input, cur[0].mint) {
        Err(ErrorCode::CollateralDoesNotExistError)
    } else {
        let v = input[first_index_of_mint(input, cur[0].mint)].allocation as int;
        if acc + v > u16::MAX {
            Err(ErrorCode::MathError)
        } else {
            spec_set_walk(cur.skip(1), input, acc + v)
        }
    }
}

/// The current ledger reweighted by `input`: every entry keeps its mint and
/// takes the allocation of the first `input` entry with that mint.
pub open spec fn spec_new_allocations(
    cur: Seq<Collateral>,
    input: Seq<Collateral>,
) -> Seq<Collateral> {
    cur.map(
        |i: int, c: Collateral|
            Collateral {
                mint: c.mint,
                allocation: input[first_index_of_mint(input, c.mint)].allocation,
            },
    )
}

/// Exact outcome of reweighting the ledger `cur` by `input`: either the new
/// ledger sequence or the error the operation reports. Entries of `input`
/// whose mint is not already in the ledger are ignored; membership cannot be
/// changed by a reweighting.
pub open spec fn spec_set_collateral_allocations(
    cur: Seq<Collateral>,
    input: Seq<Collateral>,
) -> Result<Seq<Collateral>, ErrorCode> {
    match spec_set_walk(cur, input, 0) {
        Err(e) => Err(e),
        Ok(total) => if total == MAX_BASIS_POINTS as int {
            Ok(spec_new_allocations(cur, input))
        } else {
            Err(ErrorCode::AllocationBpsError)
        },
    }
}

/// Extending a prefix by one entry adds that entry's shrink remainder to the
/// remainder total.
pub proof fn lemma_shrink_remainder_take_succ(s: Seq<Collateral>, a: int, i: int)
    requires
        0 <= i < s.len(),
    ensures
        shrink_remainder_total(s.take(i + 1), a) == shrink_remainder_total(s.take(i), a) + (
        s[i].allocation * a) % (MAX_BASIS_POINTS as int),
{
    assert(s.take(i + 1).drop_last() =~= s.take(i));
    assert(s.take(i + 1).last() == s[i]);
}

/// One ledger mutation, as the three mutating operations see it.
pub enum LedgerOp {
    /// Authorize a new collateral with a requested allocation.
    Authorize(AccountId, u16),
    /// Deauthorize a collateral.
    Deauthorize(AccountId),
    /// Reweight every authorized collateral by an input list.
    SetAll(Seq<Collateral>),
}

/// The ledger sequence an operation produces, or the error it reports.
pub open spec fn apply_ledger_op(s: Seq<Collateral>, op: LedgerOp) -> Result<
    Seq<Collateral>,
    ErrorCode,
> {
    match op {
        LedgerOp::Authorize(mint, allocation) => spec_add_collateral(s, mint, allocation),
        LedgerOp::Deauthorize(mint) => spec_remove_collateral(s, mint),
        LedgerOp::SetAll(input) => spec_set_collateral_allocations(s, input),
    }
}

/// Whether every operation of `ops`, applied in order from `s`, succeeds.
pub open spec fn ledger_ops_succeed(s: Seq<Collateral>, ops: Seq<LedgerOp>) -> bool
    decreases ops.len(),
{
    ops.len() == 0 || (apply_ledger_op(s, ops[0]) is Ok && ledger_ops_succeed(
        apply_ledger_op(s, ops[0])->Ok_0,
        ops.skip(1),
    ))
}

/// The ledger after every operation of `ops` has been applied in order,
/// assuming each succeeds.
pub open spec fn apply_ledger_ops(s: Seq<Collateral>, ops: Seq<LedgerOp>) -> Seq<Collateral>
    decreases ops.len(),
{
    if ops.len() == 0 {
        s
    } else {
        apply_ledger_ops(apply_ledger_op(s, ops[0])->Ok_0, ops.skip(1))
    }
}

/// A successful authorization leaves the allocations summing to exactly the
/// full scale.
pub proof fn lemma_add_collateral_keeps_sum(s: Seq<Collateral>, mint: AccountId, allocation: u16)
    requires
        spec_add_collateral(s, mint, allocation) is Ok,
    ensures
        alloc_sum(spec_add_collateral(s, mint, allocation)->Ok_0) == MAX_BASIS_POINTS as int,
{
}

/// A successful deauthorization leaves the allocations summing to exactly
/// the full scale.
pub proof fn lemma_remove_collateral_keeps_sum(s: Seq<Collateral>, mint: AccountId)
    requires
        spec_remove_collateral(s, mint) is Ok,
    ensures
        alloc_sum(spec_remove_collateral(s, mint)->Ok_0) == MAX_BASIS_POINTS as int,
{
}

/// The total a reweighting walk accumulates is the allocation sum of the
/// reweighted ledger.
pub proof fn lemma_set_walk_sum(cur: Seq<Collateral>, input: Seq<Collateral>, acc: int)
    requires
        spec_set_walk(cur, input, acc) is Ok,
    ensures
        spec_set_walk(cur, input, acc)->Ok_0 == acc + alloc_sum(spec_new_allocations(cur, input)),
    decreases cur.len(),
{
    if cur.len() == 0 {
        assert(spec_new_allocations(cur, input) =~= Seq::<Collateral>::empty());
    } else {
        let v = input[first_index_of_mint(input, cur[0].mint)].allocation as int;
        lemma_set_walk_sum(cur.skip(1), input, acc + v);
        assert(spec_new_allocations(cur, input).skip(1) =~= spec_new_allocations(
            cur.skip(1),
            input,
        ));
        crate::util::lemma_alloc_sum_skip_first(spec_new_allocations(cur, input));
    }
}

/// A successful reweighting leaves the allocations summing to exactly the
/// full scale.
pub proof fn lemma_set_collateral_allocations_keeps_sum(
    cur: Seq<Collateral>,
    input: Seq<Collateral>,
)
    requires
        spec_set_collateral_allocations(cur, input) is Ok,
    ensures
        alloc_sum(spec_set_collateral_allocations(cur, input)->Ok_0) == MAX_BASIS_POINTS as int,
{
    lemma_set_walk_sum(cur, input, 0);
}

/// The allocation-sum invariant over whole histories: after any non-empty
/// sequence of successful authorize, deauthorize and reweight operations,
/// from any starting ledger, the allocations sum to exactly the full scale.
pub proof fn lemma_ledger_ops_keep_sum(s: Seq<Collateral>, ops: Seq<LedgerOp>)
    requires
        ledger_ops_succeed(s, ops),
        ops.len() > 0,
    ensures
        alloc_sum(apply_ledger_ops(s, ops)) == MAX_BASIS_POINTS as int,
    decreases ops.len(),
{
    let t = apply_ledger_op(s, ops[0])->Ok_0;
    assert(apply_ledger_ops(s, ops) == apply_ledger_ops(t, ops.skip(1)));
    if ops.len() == 1 {
        match ops[0] {
            LedgerOp::Authorize(mint, allocation) => {
                lemma_add_collateral_keeps_sum(s, mint, allocation);
            },
            LedgerOp::Deauthorize(mint) => {
                lemma_remove_collateral_keeps_sum(s, mint);
            },
            LedgerOp::SetAll(input) => {
                lemma_set_collateral_allocations_keeps_sum(s, input);
            },
        }
        assert(ops.skip(1) =~= Seq::<LedgerOp>::empty());
        assert(apply_ledger_ops(t, ops.skip(1)) == t);
    } else {
        lemma_ledger_ops_keep_sum(t, ops.skip(1));
    }
}

/// Every prefix of a successful history is itself a successful history.
pub proof fn lemma_ledger_ops_prefix_succeed(s: Seq<Collateral>, ops: Seq<LedgerOp>, k: int)
    requires
        ledger_ops_succeed(s, ops),
        0 <= k <= ops.len(),
    ensures
        ledger_ops_succeed(s, ops.take(k)),
    decreases k,
{
    if k > 0 {
        let t = apply_ledger_op(s, ops[0])->Ok_0;
        assert(ops.take(k)[0] == ops[0]);
        assert(ops.take(k).skip(1) =~= ops.skip(1).take(k - 1));
        lemma_ledger_ops_prefix_succeed(t, ops.skip(1), k - 1);
    }
}

/// The allocation-sum invariant holds after every intermediate operation of
/// a successful history, not only at its end.
pub proof fn lemma_ledger_ops_keep_sum_throughout(s: Seq<Collateral>, ops: Seq<LedgerOp>, k: int)
    requires
        ledger_ops_succeed(s, ops),
        1 <= k <= ops.len(),
    ensures
        alloc_sum(apply_ledger_ops(s, ops.take(k))) == MAX_BASIS_POINTS as int,
{
    lemma_ledger_ops_prefix_succeed(s, ops, k);
    lemma_ledger_ops_keep_sum(s, ops.take(k));
}

impl Bucket {
    /// Well-formedness of the ledger: mints are pairwise distinct, the entry
    /// count respects the storage ceiling, and a non-empty ledger's
    /// allocations sum to exactly the full basis-point scale.
    pub open spec fn wf(self) -> bool {
        &&& mints_distinct(self.collateral@)
        &&& self.collateral@.len() <= MAX_COLLATERAL_ELEMENTS
        &&& self.collateral@.len() > 0 ==> alloc_sum(self.collateral@)
            == MAX_BASIS_POINTS as int
    }

    /// Establishes a fresh basket with an empty ledger; the rebalance
    /// authority starts out as the basket authority.
    pub fn init(
        &mut self,
        bump: u8,
        crate_mint: AccountId,
        crate_token: AccountId,
        authority: AccountId,
    )
        ensures
            final(self).bump == bump,
            final(self).crate_mint == crate_mint,
            final(self).crate_token == crate_token,
            final(self).authority == authority,
            final(self).rebalance_authority == authority,
            final(self).collateral@ =~= Seq::<Collateral>::empty(),
            final(self).wf(),
    {
        self.bump = bump;
        self.crate_mint = crate_mint;
        self.crate_token = crate_token;
        self.authority = authority;
        self.rebalance_authority = authority;
        self.collateral = Vec::new();
    }

    /// Reassigns the identity permitted to invoke rebalancing.
    pub fn update_rebalance_authority(&mut self, rebalance_authority: AccountId) -> (r: Result<
        (),
        ErrorCode,
    >)
        ensures
            r == Ok::<(), ErrorCode>(()),
            final(self).rebalance_authority == rebalance_authority,
            final(self).bump == old(self).bump,
            final(self).crate_mint == old(self).crate_mint,
            final(self).crate_token == old(self).crate_token,
            final(self).authority == old(self).authority,
            final(self).collateral == old(self).collateral,
    {
        self.rebalance_authority = rebalance_authority;
        Ok(())
    }

    /// Authorizes `mint` as a new collateral with a requested allocation.
    ///
    /// When the requested allocation does not fit beside the current total,
    /// every existing entry is shrunk proportionally; the basis points the
    /// truncating divisions lose are charged to the new entry, so that the
    /// ledger total lands on exactly the full scale again. The operation is
    /// atomic: on any error the ledger is unchanged.
    #[verifier::loop_isolation(false)]
    pub fn add_collateral(&mut self, mint: AccountId, allocation: u16) -> (r: Result<
        (),
        ErrorCode,
    >)
        requires
            old(self).wf(),
        ensures
            match spec_add_collateral(old(self).collateral@, mint, allocation) {
                Ok(s) => r == Ok::<(), ErrorCode>(()) && final(self).collateral@ == s,
                Err(e) => r == Err::<(), ErrorCode>(e),
            },
            r is Ok ==> final(self).wf() && alloc_sum(final(self).collateral@)
                == MAX_BASIS_POINTS as int && final(self).collateral@.len() == old(
                self,
            ).collateral@.len() + 1,
            r is Err ==> *final(self) == *old(self),
            final(self).bump == old(self).bump,
            final(self).crate_mint == old(self).crate_mint,
            final(self).crate_token == old(self).crate_token,
            final(self).authority == old(self).authority,
            final(self).rebalance_authority == old(self).rebalance_authority,
    {
        let ghost s0 = self.collateral@;
        let ghost a = allocation as int;

        if is_collateral_authorized(&self.collateral, mint) {
            return Err(ErrorCode::CollateralAlreadyAuthorizedError);
        }
        if self.collateral.len() >= MAX_COLLATERAL_ELEMENTS {
            return Err(ErrorCode::CollateralSizeLimitsExceeded);
        }
        let current_collateral_allocation: u16 = match sum_allocations(&self.collateral) {
            Ok(v) => v,
            Err(e) => {
                return Err(e);
            },
        };
        proof {
            lemma_alloc_sum_nonneg(s0);
            assert(alloc_sum(s0) <= MAX_BASIS_POINTS as int);
            assert(current_collateral_allocation as int == alloc_sum(s0));
        }
        if current_collateral_allocation > 0 && allocation == MAX_BASIS_POINTS {
            return Err(ErrorCode::AllocationBpsError);
        }
        let allocation_with_new_mint: u32 = current_collateral_allocation as u32
            + allocation as u32;
        if allocation_with_new_mint > u16::MAX as u32 {
            return Err(ErrorCode::MathError);
        }

        let shrink = allocation_with_new_mint > MAX_BASIS_POINTS as u32;
        let mut running_remainder: u64 = 0;
        let mut updated: Vec<Collateral> = Vec::new();
        let ghost mut sq: int = 0;
        let mut i: usize = 0;
        proof {
            assert(updated@ =~= s0.take(0));
            assert(10000 * sq + running_remainder as int == a * alloc_sum(s0.take(0)))
                by (nonlinear_arith)
                requires
                    sq == 0,
                    running_remainder == 0,
                    alloc_sum(s0.take(0)) == 0,
            ;
        }
        while i < self.collateral.len()
            invariant
                0 <= i <= s0.len(),
                updated@.len() == i,
                shrink ==> forall|j: int|
                    0 <= j < i ==> updated@[j] == (Collateral {
                        mint: s0[j].mint,
                        allocation: shrunk_allocation(s0[j].allocation as int, a) as u16,
                    }),
                shrink ==> forall|j: int|
                    0 <= j < i ==> shrunk_allocation(s0[j].allocation as int, a) >= 0,
                !shrink ==> updated@ == s0.take(i as int) && running_remainder == 0,
                shrink ==> running_remainder == shrink_remainder_total(s0.take(i as int), a),
                running_remainder <= 10000 * i,
                sq >= 0,
                alloc_sum(updated@) == alloc_sum(s0.take(i as int)) - (if shrink {
                    sq
                } else {
                    0int
                }),
                shrink ==> 10000 * sq + running_remainder == a * alloc_sum(s0.take(i as int)),
            decreases s0.len() - i,
        {
            let c = self.collateral[i];
            proof {
                lemma_alloc_sum_take_succ(s0, i as int);
            }
            if shrink {
                proof {
                    // A non-empty well-formed ledger totals the full scale,
                    // which bounds each entry.
                    lemma_alloc_sum_element_bound(s0, i as int);
                }
                let e64 = c.allocation as u64;
                let a64 = allocation as u64;
                assert(e64 * a64 <= 10000 * 65535) by (nonlinear_arith)
                    requires
                        e64 <= 10000,
                        a64 <= 65535,
                ;
                let current_and_new_allocation = e64 * a64;
                let q = current_and_new_allocation / (MAX_BASIS_POINTS as u64);
                let rem = current_and_new_allocation % (MAX_BASIS_POINTS as u64);
                proof {
                    lemma_shrink_remainder_take_succ(s0, a, i as int);
                }
                running_remainder = running_remainder + rem;
                if q > e64 {
                    proof {
                        assert(shrunk_allocation(s0[i as int].allocation as int, a) < 0);
                    }
                    return Err(ErrorCode::MathError);
                }
                let ghost up_before = updated@;
                updated.push(Collateral { mint: c.mint, allocation: (e64 - q) as u16 });
                proof {
                    let sp = alloc_sum(s0.take(i as int));
                    let e = c.allocation as int;
                    assert(a * (sp + e) == a * sp + a * e) by (nonlinear_arith);
                    sq = sq + q;
                    assert(updated@.drop_last() =~= up_before);
                    assert((e64 - q) as int == shrunk_allocation(s0[i as int].allocation as int, a));
                    assert(updated@[i as int] == Collateral {
                        mint: s0[i as int].mint,
                        allocation: shrunk_allocation(s0[i as int].allocation as int, a) as u16,
                    });
                }
            } else {
                updated.push(c);
                proof {
                    assert(updated@ =~= s0.take(i as int + 1));
                }
            }
            i = i + 1;
        }
        proof {
            assert(s0.take(i as int) =~= s0);
        }

        let divisor = match get_divisor(running_remainder) {
            Ok(d) => d,
            Err(e) => {
                proof {
                    assert(shrink);
                    assert(running_remainder as int == shrink_remainder_total(s0, a));
                    assert(spec_add_collateral(s0, mint, allocation) == Err::<
                        Seq<Collateral>,
                        ErrorCode,
                    >(ErrorCode::NumberOfSizeNotSupported));
                }
                return Err(e);
            },
        };
        proof {
            // `get_divisor` would have rejected a larger magnitude.
            assert(running_remainder < 100000);
        }
        let adjustment = running_remainder / divisor;
        proof {
            if shrink && s0.len() > 0 {
                // With the ledger total at the full scale, the remainder
                // total is exactly 10000 * (a - sq): a non-negative multiple
                // of the scale, at most 10000 * a.
                assert(10000 * sq + running_remainder == a * (MAX_BASIS_POINTS as int));
                assert(a * (MAX_BASIS_POINTS as int) == 10000 * a) by (nonlinear_arith);
                assert(running_remainder == 10000 * (a - sq));
                if running_remainder > 0 {
                    assert(a - sq >= 1);
                    assert(running_remainder >= 10000);
                    assert(divisor == 10000);
                    assert(running_remainder / divisor == a - sq) by (nonlinear_arith)
                        requires
                            running_remainder == 10000 * (a - sq),
                            running_remainder >= 10000,
                            running_remainder < 100000,
                            divisor == 10000,
                    ;
                } else {
                    assert(adjustment == 0);
                }
                assert(adjustment <= a);
            } else {
                assert(running_remainder == 0);
                assert(adjustment == 0);
            }
            assert(adjustment <= allocation as u64);
        }
        if adjustment > allocation as u64 {
            return Err(ErrorCode::MathError);
        }
        let adjusted_allocation: u16 = allocation - (adjustment as u16);
        let ghost up_shrunk = updated@;
        updated.push(Collateral { mint, allocation: adjusted_allocation });
        proof {
            assert(updated@.drop_last() =~= up_shrunk);
            let newc = Collateral { mint, allocation: adjusted_allocation };
            if shrink {
                assert(up_shrunk =~= shrunk_seq(s0, a));
                assert(updated@ =~= shrunk_seq(s0, a).push(newc));
            } else {
                assert(up_shrunk == s0);
                assert(updated@ =~= s0.push(newc));
            }
            // The pushed allocation is exactly the spec's adjusted value.
            assert(adjusted_allocation as int == a - (running_remainder as int) / spec_divisor(
                running_remainder as int,
            ));
        }

        let total = match sum_allocations(&updated) {
            Ok(v) => v,
            Err(e) => {
                proof {
                    lemma_alloc_sum_nonneg(updated@);
                    assert(alloc_sum(updated@) != MAX_BASIS_POINTS as int);
                    assert(spec_add_collateral(s0, mint, allocation) == Err::<
                        Seq<Collateral>,
                        ErrorCode,
                    >(ErrorCode::AllocationBpsError));
                }
                return Err(e);
            },
        };
        if total != MAX_BASIS_POINTS {
            proof {
                lemma_alloc_sum_nonneg(updated@);
                assert(alloc_sum(updated@) != MAX_BASIS_POINTS as int);
                assert(spec_add_collateral(s0, mint, allocation) == Err::<
                    Seq<Collateral>,
                    ErrorCode,
                >(ErrorCode::AllocationBpsError));
            }
            return Err(ErrorCode::AllocationBpsError);
        }
        proof {
            lemma_alloc_sum_nonneg(updated@);
            assert(alloc_sum(updated@) == MAX_BASIS_POINTS as int);
            assert(spec_add_collateral(s0, mint, allocation) == Ok::<
                Seq<Collateral>,
                ErrorCode,
            >(updated@));
            lemma_distinct_count_mint(s0, mint);
            assert(!contains_mint(s0, mint));
            assert forall|x: int, y: int|
                0 <= x < y < updated@.len() implies updated@[x].mint != updated@[y].mint by {
                if y < s0.len() {
                    assert(updated@[x].mint == s0[x].mint && updated@[y].mint == s0[y].mint);
                } else {
                    assert(updated@[y].mint == mint);
                    assert(updated@[x].mint == s0[x].mint);
                    if s0[x].mint == mint {
                        assert(contains_mint(s0, mint));
                    }
                }
            }
            assert(mints_distinct(updated@));
        }
        self.collateral = updated;
        Ok(())
    }

    /// Reweights every currently authorized collateral by looking its mint up
    /// in `allocations`; the new allocations must sum to exactly the full
    /// scale. Membership is not changed: input entries for unknown mints are
    /// ignored, and every authorized mint must appear in the input. The
    /// operation is atomic: on any error the ledger is unchanged.
    #[verifier::loop_isolation(false)]
    pub fn set_collateral_allocations(&mut self, allocations: &Vec<Collateral>) -> (r: Result<
        (),
        ErrorCode,
    >)
        requires
            old(self).wf(),
        ensures
            match spec_set_collateral_allocations(old(self).collateral@, allocations@) {
                Ok(s) => r == Ok::<(), ErrorCode>(()) && final(self).collateral@ == s,
                Err(e) => r == Err::<(), ErrorCode>(e),
            },
            r is Ok ==> final(self).wf() && alloc_sum(final(self).collateral@)
                == MAX_BASIS_POINTS as int && final(self).collateral@.len() == old(
                self,
            ).collateral@.len(),
            r is Err ==> *final(self) == *old(self),
            final(self).bump == old(self).bump,
            final(self).crate_mint == old(self).crate_mint,
            final(self).crate_token == old(self).crate_token,
            final(self).authority == old(self).authority,
            final(self).rebalance_authority == old(self).rebalance_authority,
    {
        let ghost s0 = self.collateral@;
        let mut running_updated_allocation: u16 = 0;
        let mut updated: Vec<Collateral> = Vec::new();
        let mut i: usize = 0;
        proof {
            assert(s0.skip(0) =~= s0);
        }
        while i < self.collateral.len()
            invariant
                0 <= i <= s0.len(),
                updated@.len() == i,
                forall|m: int|
                    0 <= m < i ==> updated@[m] == spec_new_allocations(s0, allocations@)[m],
                running_updated_allocation as int == alloc_sum(updated@),
                spec_set_walk(s0, allocations@, 0) == spec_set_walk(
                    s0.skip(i as int),
                    allocations@,
                    running_updated_allocation as int,
                ),
            decreases s0.len() - i,
        {
            let c = self.collateral[i];
            proof {
                assert(s0.skip(i as int)[0] == s0[i as int]);
                assert(s0.skip(i as int).skip(1) =~= s0.skip(i as int + 1));
            }
            let idx = match get_collateral_idx(allocations, c.mint) {
                Ok(ix) => ix,
                Err(e) => {
                    return Err(e);
                },
            };
            let updated_collateral_allocation = allocations[idx].allocation;
            let with_next: u32 = running_updated_allocation as u32
                + updated_collateral_allocation as u32;
            if with_next > u16::MAX as u32 {
                return Err(ErrorCode::MathError);
            }
            running_updated_allocation = running_updated_allocation
                + updated_collateral_allocation;
            let ghost up_before = updated@;
            updated.push(Collateral { mint: c.mint, allocation: updated_collateral_allocation });
            proof {
                assert(updated@.drop_last() =~= up_before);
                assert(updated@[i as int] == spec_new_allocations(s0, allocations@)[i as int]);
            }
            i = i + 1;
        }
        proof {
            assert(s0.skip(i as int) =~= Seq::<Collateral>::empty());
        }
        if running_updated_allocation != MAX_BASIS_POINTS {
            return Err(ErrorCode::AllocationBpsError);
        }
        proof {
            assert(updated@ =~= spec_new_allocations(s0, allocations@));
            assert forall|x: int, y: int|
                0 <= x < y < updated@.len() implies updated@[x].mint != updated@[y].mint by {
                assert(updated@[x].mint == s0[x].mint);
                assert(updated@[y].mint == s0[y].mint);
            }
            assert(mints_distinct(updated@));
        }
        self.collateral = updated;
        Ok(())
    }

    /// Deauthorizes `mint`, redistributing its freed allocation
    /// proportionally over every remaining entry. The first remaining entry
    /// absorbs whatever the truncating divisions leave short of the full
    /// scale. The operation is atomic: on any error the ledger is unchanged.
    #[verifier::loop_isolation(false)]
    #[verifier::rlimit(60)]
    pub fn remove_collateral(&mut self, mint: AccountId) -> (r: Result<(), ErrorCode>)
        requires
            old(self).wf(),
        ensures
            match spec_remove_collateral(old(self).collateral@, mint) {
                Ok(s) => r == Ok::<(), ErrorCode>(()) && final(self).collateral@ == s,
                Err(e) => r == Err::<(), ErrorCode>(e),
            },
            r is Ok ==> final(self).wf() && alloc_sum(final(self).collateral@)
                == MAX_BASIS_POINTS as int && final(self).collateral@.len() == old(
                self,
            ).collateral@.len() - 1,
            r is Err ==> *final(self) == *old(self),
            final(self).bump == old(self).bump,
            final(self).crate_mint == old(self).crate_mint,
            final(self).crate_token == old(self).crate_token,
            final(self).authority == old(self).authority,
            final(self).rebalance_authority == old(self).rebalance_authority,
    {
        let ghost s0 = self.collateral@;

        if self.collateral.len() <= 1 {
            return Err(ErrorCode::MinCollateralError);
        }
        let idx = match get_collateral_idx(&self.collateral, mint) {
            Ok(i) => i,
            Err(e) => {
                return Err(e);
            },
        };
        let removed_allocation: u16 = self.collateral[idx].allocation;
        let ghost rm = removed_allocation as int;
        let ghost rest = s0.remove(idx as int);
        proof {
            lemma_alloc_sum_element_bound(s0, idx as int);
            lemma_alloc_sum_remove(s0, idx as int);
            lemma_alloc_sum_nonneg(rest);
            assert(alloc_sum(rest) == MAX_BASIS_POINTS as int - rm);
        }
        if removed_allocation == MAX_BASIS_POINTS {
            return Err(ErrorCode::MathError);
        }
        let divisor_d: u64 = (MAX_BASIS_POINTS as u64) - (removed_allocation as u64);
        let ghost d = divisor_d as int;

        let mut running_allocation_sum: u64 = 0;
        let mut updated: Vec<Collateral> = Vec::new();
        let mut j: usize = 0;
        proof {
            assert(rest.take(0) =~= updated@);
        }
        while j < self.collateral.len()
            invariant
                0 <= j <= s0.len(),
                updated@.len() == if j <= idx {
                    j as int
                } else {
                    j - 1
                },
                forall|m: int|
                    0 <= m < updated@.len() ==> updated@[m] == (Collateral {
                        mint: rest[m].mint,
                        allocation: grown_allocation(rest[m].allocation as int, rm) as u16,
                    }),
                forall|m: int|
                    0 <= m < updated@.len() ==> 0 <= #[trigger] grown_allocation(
                        rest[m].allocation as int,
                        rm,
                    ) <= MAX_BASIS_POINTS as int,
                running_allocation_sum as int == alloc_sum(updated@),
                running_allocation_sum <= 10000 * updated@.len(),
                d * alloc_sum(updated@) <= 10000 * alloc_sum(rest.take(updated@.len() as int)),
            decreases s0.len() - j,
        {
            if j != idx {
                let c = self.collateral[j];
                let ghost k = updated@.len() as int;
                proof {
                    assert(rest[k] == s0[j as int]);
                    lemma_alloc_sum_element_bound(rest, k);
                    lemma_alloc_sum_take_succ(rest, k);
                }
                let e64 = c.allocation as u64;
                let rm64 = removed_allocation as u64;
                assert(e64 * rm64 <= 10000 * 10000) by (nonlinear_arith)
                    requires
                        e64 <= 10000,
                        rm64 <= 10000,
                ;
                let change = (e64 * rm64) / divisor_d;
                proof {
                    let e = e64 as int;
                    assert((e * rm) / d <= rm && d * ((e * rm) / d) <= e * rm) by (
                    nonlinear_arith)
                        requires
                            0 <= e <= d,
                            0 <= rm,
                            d >= 1,
                    ;
                    assert(change as int == (e * rm) / d);
                }
                let new_allocation = e64 + change;
                let ghost up_before = updated@;
                updated.push(Collateral { mint: c.mint, allocation: new_allocation as u16 });
                running_allocation_sum = running_allocation_sum + new_allocation;
                proof {
                    assert(updated@.drop_last() =~= up_before);
                    let e = e64 as int;
                    let ch = change as int;
                    let su = alloc_sum(up_before);
                    let sp = alloc_sum(rest.take(k));
                    assert(updated@[k] == Collateral {
                        mint: rest[k].mint,
                        allocation: grown_allocation(rest[k].allocation as int, rm) as u16,
                    });
                    // One redistribution step keeps the scaled sum bounded:
                    // d * (su + e + ch) <= 10000 * (sp + e).
                    assert(d * (su + e + ch) == d * su + d * e + d * ch) by (nonlinear_arith);
                    assert(e * (d + rm) == e * d + e * rm) by (nonlinear_arith);
                    assert(e * (d + rm) == e * 10000) by (nonlinear_arith)
                        requires
                            d + rm == 10000,
                    ;
                    assert(d * e + d * ch <= e * d + e * rm);
                    assert(d * (su + e + ch) <= 10000 * sp + 10000 * e);
                }
            }
            j = j + 1;
        }
        proof {
            assert(rest.take(updated@.len() as int) =~= rest);
            assert(d * alloc_sum(updated@) <= 10000 * d);
            assert(alloc_sum(updated@) <= 10000) by (nonlinear_arith)
                requires
                    d * alloc_sum(updated@) <= 10000 * d,
                    d >= 1,
            ;
        }

        let bps_discrepancy: u64 = (MAX_BASIS_POINTS as u64) - running_allocation_sum;
        let ghost grown = updated@;
        proof {
            assert(grown =~= grown_seq(rest, rm));
            lemma_alloc_sum_element_bound(grown, 0);
        }
        if bps_discrepancy > 0 {
            let first = updated[0];
            updated[0] = Collateral {
                mint: first.mint,
                allocation: first.allocation + (bps_discrepancy as u16),
            };
        }
        proof {
            let fixed = grown.update(
                0,
                Collateral {
                    mint: grown[0].mint,
                    allocation: (grown[0].allocation + (MAX_BASIS_POINTS as int - alloc_sum(
                        grown,
                    ))) as u16,
                },
            );
            if bps_discrepancy == 0 {
                assert(updated@ =~= fixed);
            } else {
                assert(updated@ =~= fixed);
            }
            lemma_alloc_sum_update(
                grown,
                0,
                Collateral {
                    mint: grown[0].mint,
                    allocation: (grown[0].allocation + (MAX_BASIS_POINTS as int - alloc_sum(
                        grown,
                    ))) as u16,
                },
            );
            assert(alloc_sum(updated@) == MAX_BASIS_POINTS as int);
        }

        let total = match sum_allocations(&updated) {
            Ok(v) => v,
            Err(e) => {
                return Err(e);
            },
        };
        if total != MAX_BASIS_POINTS {
            return Err(ErrorCode::AllocationBpsError);
        }
        proof {
            assert forall|x: int, y: int|
                0 <= x < y < updated@.len() implies updated@[x].mint != updated@[y].mint by {
                let x0 = if x < idx {
                    x
                } else {
                    x + 1
                };
                let y0 = if y < idx {
                    y
                } else {
                    y + 1
                };
                assert(updated@[x].mint == s0[x0].mint);
                assert(updated@[y].mint == s0[y0].mint);
            }
            assert(mints_distinct(updated@));
            assert(spec_remove_collateral(s0, mint) == Ok::<Seq<Collateral>, ErrorCode>(
                updated@,
            ));
        }
        self.collateral = updated;
        Ok(())
    }
}

} // verus!
