//! Helpers over the collateral ledger: the mathematical model of a ledger
//! sequence, and the executable queries the engines share.

use vstd::prelude::*;

use crate::bucket::{AccountId, Collateral};
use crate::constant::MAX_BASIS_POINTS;
use crate::error::ErrorCode;

verus! {

/// Sum of the allocations of a ledger sequence.
pub open spec fn alloc_sum(s: Seq<Collateral>) -> int
    decreases s.len(),
{
    if s.len() == 0 {
        0
    } else {
        alloc_sum(s.drop_last()) + s.last().allocation
    }
}

/// Whether some entry of `s` carries `mint`.
pub open spec fn contains_mint(s: Seq<Collateral>, mint: AccountId) -> bool {
    exists|i: int| 0 <= i < s.len() && s[i].mint == mint
}

/// Number of entries of `s` that carry `mint`.
pub open spec fn count_mint(s: Seq<Collateral>, mint: AccountId) -> int
    decreases s.len(),
{
    if s.len() == 0 {
        0
    } else {
        count_mint(s.drop_last(), mint) + if s.last().mint == mint {
            1int
        } else {
            0int
        }
    }
}

/// Index of the first entry of `s` that carries `mint`; `s.len()` if none
/// does.
pub open spec fn first_index_of_mint(s: Seq<Collateral>, mint: AccountId) -> int
    decreases s.len(),
{
    if s.len() == 0 {
        0
    } else if s[0].mint == mint {
        0
    } else {
        1 + first_index_of_mint(s.skip(1), mint)
    }
}

/// Whether the mints of `s` are pairwise distinct.
pub open spec fn mints_distinct(s: Seq<Collateral>) -> bool {
    forall|i: int, j: int| 0 <= i < j < s.len() ==> s[i].mint != s[j].mint
}

/// The allocation sum of a ledger is never negative.
pub proof fn lemma_alloc_sum_nonneg(s: Seq<Collateral>)
    ensures
        alloc_sum(s) >= 0,
    decreases s.len(),
{
    if s.len() > 0 {
        lemma_alloc_sum_nonneg(s.drop_last());
    }
}

/// Extending a prefix by one entry adds that entry's allocation to the sum.
pub proof fn lemma_alloc_sum_take_succ(s: Seq<Collateral>, i: int)
    requires
        0 <= i < s.len(),
    ensures
        alloc_sum(s.take(i + 1)) == alloc_sum(s.take(i)) + s[i].allocation,
{
    assert(s.take(i + 1).drop_last() =~= s.take(i));
    assert(s.take(i + 1).last() == s[i]);
}

/// The sum of a prefix never exceeds the sum of the whole sequence.
pub proof fn lemma_alloc_sum_take_le(s: Seq<Collateral>, i: int)
    requires
        0 <= i <= s.len(),
    ensures
        alloc_sum(s.take(i)) <= alloc_sum(s),
    decreases s.len() - i,
{
    if i == s.len() {
        assert(s.take(i) =~= s);
    } else {
        lemma_alloc_sum_take_succ(s, i);
        lemma_alloc_sum_take_le(s, i + 1);
    }
}

/// Every single allocation is bounded by the sum of the whole sequence.
pub proof fn lemma_alloc_sum_element_bound(s: Seq<Collateral>, i: int)
    requires
        0 <= i < s.len(),
    ensures
        s[i].allocation <= alloc_sum(s),
    decreases s.len(),
{
    lemma_alloc_sum_nonneg(s.drop_last());
    if i == s.len() - 1 {
        assert(s.last() == s[i]);
    } else {
        lemma_alloc_sum_element_bound(s.drop_last(), i);
        assert(s.drop_last()[i] == s[i]);
    }
}

/// The sum can also be peeled from the front.
pub proof fn lemma_alloc_sum_skip_first(s: Seq<Collateral>)
    requires
        s.len() > 0,
    ensures
        alloc_sum(s) == s[0].allocation + alloc_sum(s.skip(1)),
    decreases s.len(),
{
    if s.len() == 1 {
        assert(s.skip(1) =~= Seq::<Collateral>::empty());
        assert(s.drop_last() =~= Seq::<Collateral>::empty());
        assert(s.last() == s[0]);
    } else {
        lemma_alloc_sum_skip_first(s.drop_last());
        assert(s.drop_last()[0] == s[0]);
        assert(s.skip(1).drop_last() =~= s.drop_last().skip(1));
        assert(s.skip(1).last() == s.last());
        assert(alloc_sum(s.skip(1)) == alloc_sum(s.skip(1).drop_last()) + s.skip(1).last().allocation);
        assert(alloc_sum(s) == alloc_sum(s.drop_last()) + s.last().allocation);
        assert(alloc_sum(s.drop_last()) == s[0].allocation + alloc_sum(s.drop_last().skip(1)));
    }
}

/// Removing an entry subtracts exactly its allocation from the sum.
pub proof fn lemma_alloc_sum_remove(s: Seq<Collateral>, i: int)
    requires
        0 <= i < s.len(),
    ensures
        alloc_sum(s.remove(i)) == alloc_sum(s) - s[i].allocation,
    decreases s.len(),
{
    if i == s.len() - 1 {
        assert(s.remove(i) =~= s.drop_last());
    } else {
        assert(s.remove(i).drop_last() =~= s.drop_last().remove(i));
        assert(s.remove(i).last() == s.last());
        lemma_alloc_sum_remove(s.drop_last(), i);
        assert(s.drop_last()[i] == s[i]);
    }
}

/// Replacing an entry swaps its allocation for the new one in the sum.
pub proof fn lemma_alloc_sum_update(s: Seq<Collateral>, i: int, c: Collateral)
    requires
        0 <= i < s.len(),
    ensures
        alloc_sum(s.update(i, c)) == alloc_sum(s) - s[i].allocation + c.allocation,
    decreases s.len(),
{
    if i == s.len() - 1 {
        assert(s.update(i, c).drop_last() =~= s.drop_last());
        assert(s.update(i, c).last() == c);
    } else {
        assert(s.update(i, c).drop_last() =~= s.drop_last().update(i, c));
        assert(s.update(i, c).last() == s.last());
        lemma_alloc_sum_update(s.drop_last(), i, c);
        assert(s.drop_last()[i] == s[i]);
    }
}

/// Extending a prefix by one entry adds one to the count when the entry
/// carries the counted mint, and nothing otherwise.
pub proof fn lemma_count_mint_take_succ(s: Seq<Collateral>, mint: AccountId, i: int)
    requires
        0 <= i < s.len(),
    ensures
        count_mint(s.take(i + 1), mint) == count_mint(s.take(i), mint) + if s[i].mint == mint {
            1int
        } else {
            0int
        },
{
    assert(s.take(i + 1).drop_last() =~= s.take(i));
    assert(s.take(i + 1).last() == s[i]);
}

/// A count of mint occurrences is never negative.
pub proof fn lemma_count_mint_nonneg(s: Seq<Collateral>, mint: AccountId)
    ensures
        count_mint(s, mint) >= 0,
    decreases s.len(),
{
    if s.len() > 0 {
        lemma_count_mint_nonneg(s.drop_last(), mint);
    }
}

/// A mint is contained in a sequence exactly when its count is positive.
pub proof fn lemma_count_mint_contains(s: Seq<Collateral>, mint: AccountId)
    ensures
        contains_mint(s, mint) <==> count_mint(s, mint) > 0,
    decreases s.len(),
{
    if s.len() > 0 {
        lemma_count_mint_nonneg(s.drop_last(), mint);
        lemma_count_mint_contains(s.drop_last(), mint);
        if s.last().mint == mint {
            assert(s[s.len() - 1].mint == mint);
        }
        if contains_mint(s.drop_last(), mint) {
            let i = choose|i: int|
                0 <= i < s.drop_last().len() && s.drop_last()[i].mint == mint;
            assert(s[i].mint == mint);
        }
        if contains_mint(s, mint) && s.last().mint != mint {
            let i = choose|i: int| 0 <= i < s.len() && s[i].mint == mint;
            assert(s.drop_last()[i].mint == mint);
        }
    }
}

/// Under pairwise-distinct mints, a contained mint is counted exactly once.
pub proof fn lemma_distinct_count_mint(s: Seq<Collateral>, mint: AccountId)
    requires
        mints_distinct(s),
    ensures
        count_mint(s, mint) == if contains_mint(s, mint) {
            1int
        } else {
            0int
        },
    decreases s.len(),
{
    lemma_count_mint_contains(s, mint);
    if s.len() > 0 {
        assert(mints_distinct(s.drop_last())) by {
            assert(forall|i: int, j: int|
                0 <= i < j < s.drop_last().len() ==> s.drop_last()[i] == s[i]
                    && s.drop_last()[j] == s[j]);
        }
        lemma_distinct_count_mint(s.drop_last(), mint);
        lemma_count_mint_contains(s.drop_last(), mint);
        if s.last().mint == mint && contains_mint(s.drop_last(), mint) {
            let i = choose|i: int|
                0 <= i < s.drop_last().len() && s.drop_last()[i].mint == mint;
            assert(s[i].mint == mint && s[s.len() - 1].mint == mint);
            assert(false);
        }
        if s.last().mint != mint && contains_mint(s, mint) {
            let i = choose|i: int| 0 <= i < s.len() && s[i].mint == mint;
            assert(s.drop_last()[i].mint == mint);
        }
    }
}

/// The index at which a scan stops is the first index of the mint.
pub proof fn lemma_first_index_characterization(
    s: Seq<Collateral>,
    mint: AccountId,
    i: int,
)
    requires
        0 <= i < s.len(),
        s[i].mint == mint,
        forall|j: int| 0 <= j < i ==> s[j].mint != mint,
    ensures
        first_index_of_mint(s, mint) == i,
    decreases i,
{
    if i > 0 {
        assert(forall|j: int|
            0 <= j < i - 1 ==> s.skip(1)[j].mint == s[j + 1].mint);
        lemma_first_index_characterization(s.skip(1), mint, i - 1);
    }
}

/// Sums the ledger's allocations, rejecting a ledger whose total exceeds the
/// full basis-point scale.
pub fn sum_allocations(collateral: &Vec<Collateral>) -> (r: Result<u16, ErrorCode>)
    ensures
        alloc_sum(collateral@) <= MAX_BASIS_POINTS ==> r == Ok::<u16, ErrorCode>(
            alloc_sum(collateral@) as u16,
        ),
        alloc_sum(collateral@) > MAX_BASIS_POINTS ==> r == Err::<u16, ErrorCode>(
            ErrorCode::AllocationBpsError,
        ),
{
    let mut total: u32 = 0;
    let mut i: usize = 0;
    while i < collateral.len()
        invariant
            0 <= i <= collateral@.len(),
            total == alloc_sum(collateral@.take(i as int)),
            total <= MAX_BASIS_POINTS,
        decreases collateral@.len() - i,
    {
        proof {
            lemma_alloc_sum_take_succ(collateral@, i as int);
        }
        total = total + collateral[i].allocation as u32;
        i = i + 1;
        if total > MAX_BASIS_POINTS as u32 {
            proof {
                lemma_alloc_sum_take_le(collateral@, i as int);
            }
            return Err(ErrorCode::AllocationBpsError);
        }
    }
    proof {
        assert(collateral@.take(i as int) =~= collateral@);
    }
    Ok(total as u16)
}

/// Whether `mint` is an authorized collateral: present exactly once in the
/// ledger.
pub fn is_collateral_authorized(collateral: &Vec<Collateral>, mint: AccountId) -> (r: bool)
    ensures
        r == (count_mint(collateral@, mint) == 1),
{
    let mut count: usize = 0;
    let mut i: usize = 0;
    while i < collateral.len()
        invariant
            0 <= i <= collateral@.len(),
            count == count_mint(collateral@.take(i as int), mint),
            count <= i,
        decreases collateral@.len() - i,
    {
        proof {
            lemma_count_mint_take_succ(collateral@, mint, i as int);
        }
        if collateral[i].mint == mint {
            count = count + 1;
        }
        i = i + 1;
    }
    proof {
        assert(collateral@.take(i as int) =~= collateral@);
    }
    count == 1
}

/// Finds the first ledger entry that carries `target`.
pub fn get_collateral_idx(collateral: &Vec<Collateral>, target: AccountId) -> (r: Result<
    usize,
    ErrorCode,
>)
    ensures
        match r {
            Ok(i) => contains_mint(collateral@, target) && i
                == first_index_of_mint(collateral@, target) && i < collateral@.len()
                && collateral@[i as int].mint == target,
            Err(e) => e == ErrorCode::CollateralDoesNotExistError && !contains_mint(
                collateral@,
                target,
            ),
        },
{
    let mut i: usize = 0;
    while i < collateral.len()
        invariant
            0 <= i <= collateral@.len(),
            forall|j: int| 0 <= j < i ==> collateral@[j].mint != target,
        decreases collateral@.len() - i,
    {
        if collateral[i].mint == target {
            proof {
                lemma_first_index_characterization(collateral@, target, i as int);
            }
            return Ok(i);
        }
        i = i + 1;
    }
    Err(ErrorCode::CollateralDoesNotExistError)
}

/// The rounding-adjustment divisor: the largest power of ten, out of
/// {1, 10, 100, 1000, 10000}, that is at most `n` (and 1 for `n` below 10).
pub open spec fn spec_divisor(n: int) -> int {
    if n < 10 {
        1
    } else if n < 100 {
        10
    } else if n < 1000 {
        100
    } else if n < 10000 {
        1000
    } else {
        10000
    }
}

/// Computes the rounding-adjustment divisor for `n`, rejecting magnitudes of
/// 100000 and above as a deliberate cap on precision loss.
pub fn get_divisor(n: u64) -> (r: Result<u64, ErrorCode>)
    ensures
        n < 100000 ==> r == Ok::<u64, ErrorCode>(spec_divisor(n as int) as u64),
        n >= 100000 ==> r == Err::<u64, ErrorCode>(ErrorCode::NumberOfSizeNotSupported),
{
    if n >= 100000 {
        return Err(ErrorCode::NumberOfSizeNotSupported);
    }
    let mut divisor: u64 = 1;
    if n >= 10 && n < 100 {
        divisor = 10;
    }
    if n >= 100 && n < 1000 {
        divisor = 100;
    }
    if n >= 1000 && n < 10000 {
        divisor = 1000;
    }
    if n >= 10000 {
        divisor = 10000;
    }
    Ok(divisor)
}

} // verus!
