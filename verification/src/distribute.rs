//! Content distribution before the combine stage: a pool of `pool`
//! shuffled items is split among `n` participants so that participant
//! `i` receives the slice `[count_up_to(pool, n, i),
//! count_up_to(pool, n, i + 1))` of the shuffled pool. Every item is
//! assigned to exactly one participant, and no two participants' shares
//! differ by more than one item.

use vstd::prelude::*;
use crate::content::Index;

verus! {

/// Number of pool items handed out to the participants before
/// participant `i` (0-based): each earlier participant got
/// `pool / n` items, and the first `pool % n` participants one extra.
pub open spec fn count_up_to(pool: nat, n: nat, i: nat) -> nat
    recommends
        n >= 1,
{
    i * (pool / n) + if i <= pool % n {
        i
    } else {
        pool % n
    }
}

/// The size of participant `i`'s slice.
pub open spec fn share_size(pool: nat, n: nat, i: nat) -> nat
    recommends
        n >= 1,
        i < n,
{
    (count_up_to(pool, n, i + 1) - count_up_to(pool, n, i)) as nat
}

/// Participant `i` receives `pool / n` items, plus one extra when
/// `i < pool % n`: consecutive split points differ by exactly that much.
pub proof fn lemma_share_size(pool: nat, n: nat, i: nat)
    requires
        n >= 1,
        i < n,
    ensures
        count_up_to(pool, n, i + 1) == count_up_to(pool, n, i) + pool / n + if i < pool % n {
            1nat
        } else {
            0nat
        },
        share_size(pool, n, i) == pool / n + if i < pool % n {
            1nat
        } else {
            0nat
        },
{
    let q = pool / n;
    assert((i + 1) * q == i * q + q) by (nonlinear_arith);
}

/// No participant's split point lies past the end of the pool.
pub proof fn lemma_count_up_to_le_pool(pool: nat, n: nat, i: nat)
    requires
        n >= 1,
        i <= n,
    ensures
        count_up_to(pool, n, i) <= pool,
{
    let q = pool / n;
    let r = pool % n;
    broadcast use vstd::arithmetic::div_mod::lemma_fundamental_div_mod;
    broadcast use vstd::arithmetic::div_mod::lemma_mod_bound;

    assert(pool == n * q + r);
    assert(i * q <= n * q) by (nonlinear_arith)
        requires
            i <= n,
            q >= 0,
    ;
}

/// The first split point is the start of the pool and the last is its
/// end: the slices leave no gap at either boundary.
pub proof fn lemma_count_up_to_bounds(pool: nat, n: nat)
    requires
        n >= 1,
    ensures
        count_up_to(pool, n, 0) == 0,
        count_up_to(pool, n, n) == pool,
{
    let q = pool / n;
    let r = pool % n;
    broadcast use vstd::arithmetic::div_mod::lemma_fundamental_div_mod;
    broadcast use vstd::arithmetic::div_mod::lemma_mod_bound;

    assert(pool == n * q + r);
    assert(0 * q == 0) by (nonlinear_arith);
    assert(r <= n);
    assert(count_up_to(pool, n, n) == n * q + r);
}

/// Split points never decrease as the participant number grows.
pub proof fn lemma_count_up_to_monotone(pool: nat, n: nat, i1: nat, i2: nat)
    requires
        n >= 1,
        i1 <= i2,
        i2 <= n,
    ensures
        count_up_to(pool, n, i1) <= count_up_to(pool, n, i2),
    decreases i2 - i1,
{
    if i1 < i2 {
        lemma_share_size(pool, n, (i2 - 1) as nat);
        lemma_count_up_to_monotone(pool, n, i1, (i2 - 1) as nat);
    }
}

/// Partition completeness, existence half: every pool position `j`
/// falls inside some participant's slice, so the union of all slices is
/// the whole pool — no gaps.
pub proof fn lemma_partition_covers(pool: nat, n: nat, j: nat)
    requires
        n >= 1,
        j < pool,
    ensures
        exists|i: nat|
            i < n && #[trigger] count_up_to(pool, n, i) <= j < count_up_to(pool, n, i + 1),
{
    lemma_count_up_to_bounds(pool, n);
    lemma_covers_below(pool, n, j, n);
}

/// Helper for [`lemma_partition_covers`]: any position below the `k`-th
/// split point is owned by one of the first `k` participants.
proof fn lemma_covers_below(pool: nat, n: nat, j: nat, k: nat)
    requires
        n >= 1,
        k <= n,
        j < count_up_to(pool, n, k),
    ensures
        exists|i: nat|
            i < k && #[trigger] count_up_to(pool, n, i) <= j < count_up_to(pool, n, i + 1),
    decreases k,
{
    if k == 0 {
        assert(count_up_to(pool, n, 0) == 0) by {
            lemma_count_up_to_bounds(pool, n);
        }
    } else {
        let prev = (k - 1) as nat;
        if count_up_to(pool, n, prev) <= j {
            assert(prev < k && count_up_to(pool, n, prev) <= j < count_up_to(pool, n, prev + 1));
        } else {
            lemma_covers_below(pool, n, j, prev);
        }
    }
}

/// Partition completeness, uniqueness half: the slices are pairwise
/// disjoint — no pool position is handed to two participants.
pub proof fn lemma_partition_disjoint(pool: nat, n: nat, i1: nat, i2: nat, j: nat)
    requires
        n >= 1,
        i1 < i2,
        i2 < n,
        count_up_to(pool, n, i1) <= j < count_up_to(pool, n, i1 + 1),
    ensures
        !(count_up_to(pool, n, i2) <= j < count_up_to(pool, n, i2 + 1)),
{
    lemma_count_up_to_monotone(pool, n, i1 + 1, i2);
}

/// Fairness: the share counts of any two participants differ by at
/// most one item.
pub proof fn lemma_partition_balanced(pool: nat, n: nat, i1: nat, i2: nat)
    requires
        n >= 1,
        i1 < n,
        i2 < n,
    ensures
        share_size(pool, n, i1) <= share_size(pool, n, i2) + 1,
{
    lemma_share_size(pool, n, i1);
    lemma_share_size(pool, n, i2);
}

/// Runtime value of [`count_up_to`].
pub fn split_point(pool: usize, n: usize, i: usize) -> (r: usize)
    requires
        n >= 1,
        i <= n,
    ensures
        r == count_up_to(pool as nat, n as nat, i as nat),
        r <= pool,
{
    let q: usize = pool / n;
    let rem: usize = pool % n;
    let m: usize = if i <= rem {
        i
    } else {
        rem
    };
    proof {
        lemma_count_up_to_le_pool(pool as nat, n as nat, i as nat);
    }
    i * q + m
}

/// Split a shuffled pool of item indices into one slice per
/// participant: participant `i` gets `[count_up_to(i), count_up_to(i+1))`
/// of the pool, so each of the `n` slices holds `pool / n` items and
/// the first `pool % n` slices one extra.
pub fn assign_slices(items: &Vec<Index>, n: usize) -> (r: Vec<Vec<Index>>)
    requires
        n >= 1,
    ensures
        r@.len() == n,
        forall|i: int|
            0 <= i < n ==> r@[i]@ =~= items@.subrange(
                count_up_to(items@.len(), n as nat, i as nat) as int,
                count_up_to(items@.len(), n as nat, (i + 1) as nat) as int,
            ),
{
    let pool: usize = items.len();
    let mut r: Vec<Vec<Index>> = Vec::new();
    let mut i: usize = 0;
    while i < n
        invariant
            n >= 1,
            i <= n,
            pool == items@.len(),
            r@.len() == i,
            forall|k: int|
                0 <= k < i ==> r@[k]@ =~= items@.subrange(
                    count_up_to(pool as nat, n as nat, k as nat) as int,
                    count_up_to(pool as nat, n as nat, (k + 1) as nat) as int,
                ),
        decreases n - i,
    {
        let lo: usize = split_point(pool, n, i);
        let hi: usize = split_point(pool, n, i + 1);
        proof {
            lemma_count_up_to_monotone(pool as nat, n as nat, i as nat, (i + 1) as nat);
        }
        let mut slice: Vec<Index> = Vec::new();
        let mut j: usize = lo;
        while j < hi
            invariant
                lo <= j <= hi,
                hi <= pool,
                pool == items@.len(),
                slice@.len() == j - lo,
                forall|m: int| 0 <= m < slice@.len() ==> slice@[m] == items@[lo + m],
            decreases hi - j,
        {
            slice.push(items[j]);
            j = j + 1;
        }
        proof {
            assert(slice@ =~= items@.subrange(lo as int, hi as int));
        }
        r.push(slice);
        i = i + 1;
    }
    r
}

} // verus!
