//! The abstract ledger: an ordered list of beneficiaries and what each is owed.
//!
//! Both the artist ledger and the NFT ledger are seen by contracts as a
//! `Seq<Entry>`. Balances are unbounded here; the executable ledgers hold
//! them in `u64` and ask their callers for room.

use vstd::prelude::*;
use crate::address::Address;

verus! {

/// One row of a ledger.
pub struct Entry {
    pub owner: Address,
    pub accrued: nat,
}

/// The sum of what the rows are owed.
pub open spec fn total(rows: Seq<Entry>) -> nat
    decreases rows.len(),
{
    if rows.len() == 0 {
        0
    } else {
        total(rows.drop_last()) + rows.last().accrued
    }
}

/// Whether every balance of `rows` can be stored in 64 bits.
pub open spec fn storable(rows: Seq<Entry>) -> bool {
    forall|i: int| 0 <= i < rows.len() ==> (#[trigger] rows[i]).accrued <= u64::MAX
}

/// Whether some row belongs to `owner`.
pub open spec fn has_row(rows: Seq<Entry>, owner: Address) -> bool {
    exists|i: int| 0 <= i < rows.len() && (#[trigger] rows[i]).owner == owner
}

/// Whether row `i` is the first one that belongs to `owner`.
pub open spec fn is_first_row(rows: Seq<Entry>, owner: Address, i: int) -> bool {
    &&& 0 <= i < rows.len()
    &&& rows[i].owner == owner
    &&& forall|j: int| 0 <= j < i ==> (#[trigger] rows[j]).owner != owner
}

/// The index of the first row that belongs to `owner`, where there is one.
pub open spec fn first_row(rows: Seq<Entry>, owner: Address) -> int {
    choose|i: int| is_first_row(rows, owner, i)
}

/// What the first row of `owner` is owed; nothing where there is no such row.
pub open spec fn owed(rows: Seq<Entry>, owner: Address) -> nat {
    if has_row(rows, owner) {
        rows[first_row(rows, owner)].accrued
    } else {
        0
    }
}

/// The rows after the first row of `owner` was paid out in full.
pub open spec fn swept(rows: Seq<Entry>, owner: Address) -> Seq<Entry> {
    if has_row(rows, owner) {
        rows.update(first_row(rows, owner), Entry { owner, accrued: 0 })
    } else {
        rows
    }
}

/// Whether no two rows belong to the same owner.
pub open spec fn distinct(rows: Seq<Entry>) -> bool {
    forall|i: int, j: int|
        0 <= i < j < rows.len() ==> (#[trigger] rows[i]).owner != (#[trigger] rows[j]).owner
}

/// Whether `after` has the rows of `before`, each with the owner it had.
pub open spec fn same_owners(before: Seq<Entry>, after: Seq<Entry>) -> bool {
    &&& after.len() == before.len()
    &&& forall|i: int| 0 <= i < before.len() ==> (#[trigger] after[i]).owner == before[i].owner
}

/// How many rows belong to `owner`.
pub open spec fn rows_of(rows: Seq<Entry>, owner: Address) -> nat
    decreases rows.len(),
{
    if rows.len() == 0 {
        0
    } else {
        rows_of(rows.drop_last(), owner) + if rows.last().owner == owner {
            1nat
        } else {
            0nat
        }
    }
}

/// A first row is the first row: there is only one.
pub proof fn lemma_first_row_is(rows: Seq<Entry>, owner: Address, i: int)
    requires
        is_first_row(rows, owner, i),
    ensures
        has_row(rows, owner),
        first_row(rows, owner) == i,
{
    let c = first_row(rows, owner);
    assert(is_first_row(rows, owner, c));
    if c < i {
        assert(rows[c].owner != owner);
    }
    if i < c {
        assert(rows[i].owner != owner);
    }
}

/// Where a ledger has a row of `owner`, it has a first one.
pub proof fn lemma_has_first_row(rows: Seq<Entry>, owner: Address)
    requires
        has_row(rows, owner),
    ensures
        is_first_row(rows, owner, first_row(rows, owner)),
{
    let w = choose|i: int| 0 <= i < rows.len() && (#[trigger] rows[i]).owner == owner;
    lemma_first_row_upto(rows, owner, w);
}

proof fn lemma_first_row_upto(rows: Seq<Entry>, owner: Address, w: int)
    requires
        0 <= w < rows.len(),
        rows[w].owner == owner,
    ensures
        exists|i: int| is_first_row(rows, owner, i),
    decreases w,
{
    if forall|j: int| 0 <= j < w ==> (#[trigger] rows[j]).owner != owner {
        assert(is_first_row(rows, owner, w));
    } else {
        let j = choose|j: int| 0 <= j < w && (#[trigger] rows[j]).owner == owner;
        lemma_first_row_upto(rows, owner, j);
    }
}

/// Replacing a row changes the total by what the new row is owed more than
/// the old one.
pub proof fn lemma_total_update(rows: Seq<Entry>, i: int, entry: Entry)
    requires
        0 <= i < rows.len(),
    ensures
        total(rows.update(i, entry)) + rows[i].accrued == total(rows) + entry.accrued,
    decreases rows.len(),
{
    let updated = rows.update(i, entry);
    if i == rows.len() - 1 {
        assert(updated.drop_last() =~= rows.drop_last());
    } else {
        assert(updated.drop_last() =~= rows.drop_last().update(i, entry));
        lemma_total_update(rows.drop_last(), i, entry);
    }
}

/// A row added at the end adds what it is owed to the total.
pub proof fn lemma_total_push(rows: Seq<Entry>, entry: Entry)
    ensures
        total(rows.push(entry)) == total(rows) + entry.accrued,
{
    assert(rows.push(entry).drop_last() =~= rows);
}

/// A payout takes out of the ledger exactly what it hands over.
pub proof fn lemma_sweep_takes_what_was_owed(rows: Seq<Entry>, owner: Address)
    ensures
        total(swept(rows, owner)) + owed(rows, owner) == total(rows),
{
    if has_row(rows, owner) {
        lemma_has_first_row(rows, owner);
        lemma_total_update(rows, first_row(rows, owner), Entry { owner, accrued: 0 });
    }
}

/// After a payout the same row is owed nothing, and a second payout changes
/// nothing; a payout neither adds a row nor removes one.
pub proof fn lemma_swept_owes_nothing(rows: Seq<Entry>, owner: Address)
    ensures
        has_row(swept(rows, owner), owner) == has_row(rows, owner),
        owed(swept(rows, owner), owner) == 0,
        swept(swept(rows, owner), owner) == swept(rows, owner),
        same_owners(rows, swept(rows, owner)),
{
    if has_row(rows, owner) {
        lemma_has_first_row(rows, owner);
        let i = first_row(rows, owner);
        let after = swept(rows, owner);
        assert forall|j: int| 0 <= j < i implies (#[trigger] after[j]).owner != owner by {
            assert(after[j] == rows[j]);
        }
        assert(is_first_row(after, owner, i));
        lemma_first_row_is(after, owner, i);
        assert(swept(after, owner) =~= after);
    }
}

/// Rows that kept their owners belong to the same owners.
pub proof fn lemma_same_owners_has_row(before: Seq<Entry>, after: Seq<Entry>, owner: Address)
    requires
        same_owners(before, after),
    ensures
        has_row(after, owner) == has_row(before, owner),
{
    if has_row(before, owner) {
        let w = choose|i: int| 0 <= i < before.len() && (#[trigger] before[i]).owner == owner;
        assert(after[w].owner == owner);
    }
    if has_row(after, owner) {
        let w = choose|i: int| 0 <= i < after.len() && (#[trigger] after[i]).owner == owner;
        assert(before[w].owner == owner);
    }
}

/// Rows that kept their owners are one to an owner if and only if they were.
pub proof fn lemma_same_owners_distinct(before: Seq<Entry>, after: Seq<Entry>)
    requires
        same_owners(before, after),
    ensures
        distinct(after) == distinct(before),
{
    if distinct(before) {
        assert forall|i: int, j: int| 0 <= i < j < after.len() implies (
        #[trigger] after[i]).owner != (#[trigger] after[j]).owner by {
            assert(before[i].owner != before[j].owner);
        }
    }
    if distinct(after) {
        assert forall|i: int, j: int| 0 <= i < j < before.len() implies (
        #[trigger] before[i]).owner != (#[trigger] before[j]).owner by {
            assert(after[i].owner != after[j].owner);
        }
    }
}

/// Where no two rows share an owner, an owner has at most one row.
pub proof fn lemma_rows_of_distinct(rows: Seq<Entry>, owner: Address)
    requires
        distinct(rows),
    ensures
        rows_of(rows, owner) == if has_row(rows, owner) {
            1nat
        } else {
            0nat
        },
    decreases rows.len(),
{
    if rows.len() > 0 {
        let front = rows.drop_last();
        assert forall|i: int, j: int| 0 <= i < j < front.len() implies (
        #[trigger] front[i]).owner != (#[trigger] front[j]).owner by {
            assert(front[i] == rows[i] && front[j] == rows[j]);
        }
        lemma_rows_of_distinct(front, owner);
        if has_row(front, owner) {
            let w = choose|i: int| 0 <= i < front.len() && (#[trigger] front[i]).owner == owner;
            assert(rows[w] == front[w]);
            assert(rows[w].owner == owner);
            assert(rows.last() == rows[rows.len() - 1]);
        } else if rows.last().owner == owner {
            assert(rows[rows.len() - 1].owner == owner);
        } else {
            if has_row(rows, owner) {
                let w = choose|i: int| 0 <= i < rows.len() && (#[trigger] rows[i]).owner == owner;
                assert(w < front.len());
                assert(front[w] == rows[w]);
            }
        }
    }
}

} // verus!
