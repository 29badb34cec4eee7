//! Basis points, and the shares that a list of splits gives out.

use vstd::prelude::*;
use vstd::arithmetic::div_mod::{lemma_fundamental_div_mod, lemma_mod_bound};
use crate::address::Address;

verus! {

/// One hundred percent, in basis points.
pub const ONE_HUNDRED_PERCENT: u64 = 10000;

/// The share of every payment that goes to one artist, in basis points:
/// 3000 is 30%, 500 is 5%.
#[derive(Clone, Copy, Debug, PartialEq, Eq)]
pub struct ArtistPercentage {
    pub artist_address: Address,
    pub allocated_percentage: u64,
}

/// `basis_points` of `amount`, rounded down.
pub open spec fn share_of(amount: nat, basis_points: nat) -> nat {
    amount * basis_points / 10000
}

/// The sum of the basis points of `splits`.
pub open spec fn allocated(splits: Seq<ArtistPercentage>) -> nat
    decreases splits.len(),
{
    if splits.len() == 0 {
        0
    } else {
        allocated(splits.drop_last()) + splits.last().allocated_percentage as nat
    }
}

/// What `splits` give to `artist` out of `amount`: the shares of the splits
/// that name it, each rounded down by itself.
pub open spec fn credit(artist: Address, amount: nat, splits: Seq<ArtistPercentage>) -> nat
    decreases splits.len(),
{
    if splits.len() == 0 {
        0
    } else {
        credit(artist, amount, splits.drop_last()) + if splits.last().artist_address == artist {
            share_of(amount, splits.last().allocated_percentage as nat)
        } else {
            0
        }
    }
}

/// What `splits` give out of `amount` in all, whoever it goes to.
pub open spec fn shared_out(amount: nat, splits: Seq<ArtistPercentage>) -> nat
    decreases splits.len(),
{
    if splits.len() == 0 {
        0
    } else {
        shared_out(amount, splits.drop_last()) + share_of(
            amount,
            splits.last().allocated_percentage as nat,
        )
    }
}

/// A share of at most 100% is at most the amount.
pub proof fn lemma_share_at_most_amount(amount: nat, basis_points: nat)
    requires
        basis_points <= 10000,
    ensures
        share_of(amount, basis_points) <= amount,
{
    assert(amount * basis_points / 10000 <= amount) by (nonlinear_arith)
        requires
            basis_points <= 10000,
    ;
}

/// A share times 10000 is the product it was cut from, less what the
/// rounding took, which is under one unit.
pub proof fn lemma_share_bounds(amount: nat, basis_points: nat)
    ensures
        10000 * share_of(amount, basis_points) <= amount * basis_points < 10000 * share_of(
            amount,
            basis_points,
        ) + 10000,
{
    let product = amount * basis_points;
    lemma_fundamental_div_mod(product as int, 10000);
    lemma_mod_bound(product as int, 10000);
}

/// What splits that add up to 100% give out is the whole amount but what
/// the rounding took: less than one unit for each split.
pub proof fn lemma_shared_out_bounds(amount: nat, splits: Seq<ArtistPercentage>)
    requires
        allocated(splits) == 10000,
    ensures
        splits.len() > 0,
        shared_out(amount, splits) <= amount < shared_out(amount, splits) + splits.len(),
{
    lemma_shared_out_scaled(amount, splits);
    let out = shared_out(amount, splits);
    let count = splits.len();
    assert(out <= amount < out + count) by (nonlinear_arith)
        requires
            10000 * out <= amount * 10000,
            amount * 10000 < 10000 * out + 10000 * count,
    ;
}

proof fn lemma_shared_out_scaled(amount: nat, splits: Seq<ArtistPercentage>)
    ensures
        10000 * shared_out(amount, splits) <= amount * allocated(splits),
        splits.len() > 0 ==> amount * allocated(splits) < 10000 * shared_out(amount, splits) + 10000
            * splits.len(),
        splits.len() == 0 ==> allocated(splits) == 0,
    decreases splits.len(),
{
    if splits.len() > 0 {
        let front = splits.drop_last();
        let bp = splits.last().allocated_percentage as nat;
        lemma_shared_out_scaled(amount, front);
        lemma_share_bounds(amount, bp);
        assert(amount * allocated(splits) == amount * allocated(front) + amount * bp)
            by (nonlinear_arith)
            requires
                allocated(splits) == allocated(front) + bp,
        ;
        assert(10000 * shared_out(amount, splits) == 10000 * shared_out(amount, front) + 10000
            * share_of(amount, bp)) by (nonlinear_arith)
            requires
                shared_out(amount, splits) == shared_out(amount, front) + share_of(amount, bp),
        ;
        assert(10000 * splits.len() == 10000 * front.len() + 10000) by (nonlinear_arith)
            requires
                splits.len() == front.len() + 1,
        ;
        if front.len() == 0 {
            assert(amount * allocated(front) == 0) by (nonlinear_arith)
                requires
                    allocated(front) == 0,
            ;
        }
    }
}

/// Two percentages that add up to 100% cut an amount in two parts that
/// lack at most one unit of it.
pub proof fn lemma_two_parts(amount: nat, first: nat, second: nat)
    requires
        first + second == 10000,
    ensures
        share_of(amount, first) + share_of(amount, second) <= amount <= share_of(amount, first)
            + share_of(amount, second) + 1,
{
    lemma_share_bounds(amount, first);
    lemma_share_bounds(amount, second);
    let a = share_of(amount, first);
    let b = share_of(amount, second);
    assert(a + b <= amount <= a + b + 1) by (nonlinear_arith)
        requires
            10000 * a <= amount * first < 10000 * a + 10000,
            10000 * b <= amount * second < 10000 * b + 10000,
            first + second == 10000,
    ;
}

/// The credit of an artist only grows as splits are added.
pub proof fn lemma_credit_grows(
    artist: Address,
    amount: nat,
    splits: Seq<ArtistPercentage>,
    k: int,
)
    requires
        0 <= k <= splits.len(),
    ensures
        credit(artist, amount, splits.take(k)) <= credit(artist, amount, splits),
    decreases splits.len() - k,
{
    if k == splits.len() {
        assert(splits.take(k) =~= splits);
    } else {
        lemma_credit_grows(artist, amount, splits, k + 1);
        assert(splits.take(k + 1).drop_last() =~= splits.take(k));
    }
}

/// Computes `basis_points` of `amount`, rounded down, in 128 bits.
pub(crate) fn wide_share(amount: u64, basis_points: u64) -> (r: u128)
    ensures
        r == share_of(amount as nat, basis_points as nat),
{
    assert(amount * basis_points <= u64::MAX * u64::MAX) by (nonlinear_arith)
        requires
            amount <= u64::MAX,
            basis_points <= u64::MAX,
    ;
    let product: u128 = (amount as u128) * (basis_points as u128);
    product / 10000u128
}

/// Computes `basis_points` of `amount`, rounded down. The product is taken
/// in 128 bits, so it is the share itself that has to fit.
pub fn share(amount: u64, basis_points: u64) -> (r: u64)
    requires
        share_of(amount as nat, basis_points as nat) <= u64::MAX,
    ensures
        r == share_of(amount as nat, basis_points as nat),
{
    wide_share(amount, basis_points) as u64
}

} // verus!
