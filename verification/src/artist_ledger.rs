//! The artist ledger: what is owed to each artist of the collection.

use vstd::prelude::*;
use crate::address::Address;
use crate::error::ErrorCode;
use crate::ledger::{
    distinct, has_row, is_first_row, lemma_first_row_is, lemma_rows_of_distinct,
    lemma_same_owners_distinct, lemma_same_owners_has_row, lemma_sweep_takes_what_was_owed,
    lemma_total_push, owed, rows_of, same_owners, storable, swept, total, Entry,
};
use crate::split::{
    allocated, credit, lemma_credit_grows, lemma_shared_out_bounds, share, share_of, shared_out,
    wide_share, ArtistPercentage,
};

verus! {

/// One stored row of the artist ledger.
#[derive(Clone, Copy, Debug, PartialEq, Eq)]
pub struct ArtistBalance {
    pub artist_address: Address,
    pub royalties_balance: u64,
}

impl View for ArtistBalance {
    type V = Entry;

    open spec fn view(&self) -> Entry {
        Entry { owner: self.artist_address, accrued: self.royalties_balance as nat }
    }
}

/// The stored rows as ledger entries.
pub open spec fn artist_entries(rows: Seq<ArtistBalance>) -> Seq<Entry> {
    rows.map_values(|b: ArtistBalance| b@)
}

/// `rows` with a row of nothing owed for every artist of `splits` that had
/// none: in the order of the splits, after the rows that were there.
pub open spec fn seeded(rows: Seq<Entry>, splits: Seq<ArtistPercentage>) -> Seq<Entry>
    decreases splits.len(),
{
    if splits.len() == 0 {
        rows
    } else {
        let before = seeded(rows, splits.drop_last());
        let artist = splits.last().artist_address;
        if has_row(before, artist) {
            before
        } else {
            before.push(Entry { owner: artist, accrued: 0 })
        }
    }
}

/// `rows` after `amount` was shared out by `splits`: every row gets the
/// credit of its artist. A split whose artist has no row gives nothing.
pub open spec fn credited(rows: Seq<Entry>, amount: nat, splits: Seq<ArtistPercentage>) -> Seq<
    Entry,
> {
    Seq::new(
        rows.len(),
        |i: int|
            Entry {
                owner: rows[i].owner,
                accrued: rows[i].accrued + credit(rows[i].owner, amount, splits),
            },
    )
}

/// Whether every artist of `splits` has exactly one row in `rows`, and no
/// other artist more than one.
pub open spec fn covers(rows: Seq<Entry>, splits: Seq<ArtistPercentage>) -> bool {
    &&& distinct(rows)
    &&& forall|j: int|
        0 <= j < splits.len() ==> has_row(rows, (#[trigger] splits[j]).artist_address)
}

/// Seeding rows that were one to an artist leaves them so, gives every
/// artist of the splits a row, and owes nothing more than before.
pub proof fn lemma_seeded_covers(rows: Seq<Entry>, splits: Seq<ArtistPercentage>)
    requires
        distinct(rows),
    ensures
        covers(seeded(rows, splits), splits),
        total(seeded(rows, splits)) == total(rows),
        rows.len() <= seeded(rows, splits).len(),
        forall|i: int| 0 <= i < rows.len() ==> (#[trigger] seeded(rows, splits)[i]) == rows[i],
    decreases splits.len(),
{
    if splits.len() > 0 {
        let front = splits.drop_last();
        let before = seeded(rows, front);
        let artist = splits.last().artist_address;
        let after = seeded(rows, splits);
        lemma_seeded_covers(rows, front);
        if !has_row(before, artist) {
            lemma_total_push(before, Entry { owner: artist, accrued: 0 });
            assert forall|i: int, j: int| 0 <= i < j < after.len() implies (
            #[trigger] after[i]).owner != (#[trigger] after[j]).owner by {
                assert(after[i] == before[i]);
                if j < before.len() {
                    assert(after[j] == before[j]);
                }
            }
            assert(after[before.len() as int].owner == artist);
        }
        assert forall|j: int| 0 <= j < splits.len() implies has_row(
            after,
            (#[trigger] splits[j]).artist_address,
        ) by {
            if j < front.len() {
                assert(front[j] == splits[j]);
                let w = choose|i: int|
                    0 <= i < before.len() && (#[trigger] before[i]).owner
                        == splits[j].artist_address;
                assert(after[w] == before[w]);
            } else if has_row(before, artist) {
                let w = choose|i: int|
                    0 <= i < before.len() && (#[trigger] before[i]).owner == artist;
                assert(after[w] == before[w]);
            }
        }
        assert forall|i: int| 0 <= i < rows.len() implies (#[trigger] after[i]) == rows[i] by {
            assert(before[i] == rows[i]);
        }
    }
}

/// The sum, over the rows, of what the splits give to the artist of each.
spec fn credits(rows: Seq<Entry>, amount: nat, splits: Seq<ArtistPercentage>) -> nat
    decreases rows.len(),
{
    if rows.len() == 0 {
        0
    } else {
        credits(rows.drop_last(), amount, splits) + credit(rows.last().owner, amount, splits)
    }
}

proof fn lemma_total_credits(rows: Seq<Entry>, amount: nat, splits: Seq<ArtistPercentage>)
    ensures
        total(credited(rows, amount, splits)) == total(rows) + credits(rows, amount, splits),
    decreases rows.len(),
{
    if rows.len() > 0 {
        assert(credited(rows, amount, splits).drop_last() =~= credited(
            rows.drop_last(),
            amount,
            splits,
        ));
        lemma_total_credits(rows.drop_last(), amount, splits);
    }
}

proof fn lemma_credits_last_split(rows: Seq<Entry>, amount: nat, splits: Seq<ArtistPercentage>)
    requires
        splits.len() > 0,
    ensures
        credits(rows, amount, splits) == credits(rows, amount, splits.drop_last()) + rows_of(
            rows,
            splits.last().artist_address,
        ) * share_of(amount, splits.last().allocated_percentage as nat),
    decreases rows.len(),
{
    let part = share_of(amount, splits.last().allocated_percentage as nat);
    let artist = splits.last().artist_address;
    if rows.len() > 0 {
        let front = rows.drop_last();
        lemma_credits_last_split(front, amount, splits);
        assert((rows_of(front, artist) + 1) * part == rows_of(front, artist) * part + part)
            by (nonlinear_arith);
    } else {
        assert(rows_of(rows, artist) * part == 0) by (nonlinear_arith)
            requires
                rows_of(rows, artist) == 0,
        ;
    }
}

proof fn lemma_credits_shared_out(rows: Seq<Entry>, amount: nat, splits: Seq<ArtistPercentage>)
    requires
        covers(rows, splits),
    ensures
        credits(rows, amount, splits) == shared_out(amount, splits),
    decreases splits.len(), rows.len(),
{
    if splits.len() == 0 {
        if rows.len() > 0 {
            lemma_credits_shared_out(rows.drop_last(), amount, splits);
        }
    } else {
        let front = splits.drop_last();
        let artist = splits.last().artist_address;
        let part = share_of(amount, splits.last().allocated_percentage as nat);
        lemma_credits_last_split(rows, amount, splits);
        assert(splits[splits.len() - 1].artist_address == artist);
        lemma_rows_of_distinct(rows, artist);
        assert(1 * part == part) by (nonlinear_arith);
        assert forall|j: int| 0 <= j < front.len() implies has_row(
            rows,
            (#[trigger] front[j]).artist_address,
        ) by {
            assert(front[j] == splits[j]);
        }
        lemma_credits_shared_out(rows, amount, front);
    }
}

/// Where every artist of the splits has exactly one row, sharing an amount
/// out adds to the ledger exactly what the splits give out, and leaves every
/// row with its artist.
pub proof fn lemma_total_credited(rows: Seq<Entry>, amount: nat, splits: Seq<ArtistPercentage>)
    requires
        covers(rows, splits),
    ensures
        total(credited(rows, amount, splits)) == total(rows) + shared_out(amount, splits),
        same_owners(rows, credited(rows, amount, splits)),
        covers(credited(rows, amount, splits), splits),
{
    lemma_total_credits(rows, amount, splits);
    lemma_credits_shared_out(rows, amount, splits);
    lemma_same_owners_distinct(rows, credited(rows, amount, splits));
    let after = credited(rows, amount, splits);
    assert forall|j: int| 0 <= j < splits.len() implies has_row(
        after,
        (#[trigger] splits[j]).artist_address,
    ) by {
        lemma_same_owners_has_row(rows, after, splits[j].artist_address);
    }
}

/// The rows of the artists, in the order in which they were seeded.
#[derive(Clone, Debug, PartialEq, Eq)]
pub struct ArtistBalanceLedger {
    artist_balances: Vec<ArtistBalance>,
}

impl View for ArtistBalanceLedger {
    type V = Seq<Entry>;

    closed spec fn view(&self) -> Seq<Entry> {
        artist_entries(self.artist_balances@)
    }
}

impl ArtistBalanceLedger {
    /// A ledger without rows.
    pub fn new() -> (ledger: ArtistBalanceLedger)
        ensures
            ledger@ == Seq::<Entry>::empty(),
    {
        ArtistBalanceLedger { artist_balances: Vec::new() }
    }

    /// The ledger that was stored as `artist_balances` with the count `size`;
    /// `None` where the count is not the number of rows.
    pub fn from_parts(artist_balances: Vec<ArtistBalance>, size: u64) -> (r: Option<
        ArtistBalanceLedger,
    >)
        ensures
            match r {
                Some(ledger) => size == artist_balances@.len() && ledger@ == artist_entries(
                    artist_balances@,
                ),
                None => size != artist_balances@.len(),
            },
    {
        if artist_balances.len() as u64 != size {
            return None;
        }
        Some(ArtistBalanceLedger { artist_balances })
    }

    /// The rows as they are stored.
    pub fn artist_balances(&self) -> (rows: &Vec<ArtistBalance>)
        ensures
            artist_entries(rows@) == self@,
    {
        &self.artist_balances
    }

    /// Whether `artist_address` has a row.
    pub fn has_artist(&self, artist_address: Address) -> (r: bool)
        ensures
            r == has_row(self@, artist_address),
    {
        let n = self.artist_balances.len();
        let mut i: usize = 0;
        while i < n
            invariant
                i <= n,
                n == self.artist_balances@.len(),
                forall|k: int| 0 <= k < i ==> (#[trigger] self@[k]).owner != artist_address,
            decreases n - i,
        {
            let row = self.artist_balances[i];
            assert(row@ == self@[i as int]);
            if row.artist_address == artist_address {
                return true;
            }
            i = i + 1;
        }
        false
    }

    /// Gives every artist of `artist_splits` that has no row yet a row with
    /// nothing owed, so that each of them has exactly one afterwards.
    pub fn initialize_artist_ledger(&mut self, artist_splits: &Vec<ArtistPercentage>) -> (r: Result<
        (),
        ErrorCode,
    >)
        ensures
            r == Ok::<(), ErrorCode>(()),
            final(self)@ == seeded(old(self)@, artist_splits@),
    {
        let m = artist_splits.len();
        let mut j: usize = 0;
        assert(artist_splits@.take(0) =~= Seq::<ArtistPercentage>::empty());
        while j < m
            invariant
                j <= m,
                m == artist_splits@.len(),
                self@ == seeded(old(self)@, artist_splits@.take(j as int)),
            decreases m - j,
        {
            let artist = artist_splits[j].artist_address;
            assert(artist_splits@.take(j + 1).drop_last() =~= artist_splits@.take(j as int));
            if !self.has_artist(artist) {
                let ghost before = self@;
                self.artist_balances.push(
                    ArtistBalance { artist_address: artist, royalties_balance: 0 },
                );
                assert(self@ =~= before.push(Entry { owner: artist, accrued: 0 }));
            }
            j = j + 1;
        }
        assert(artist_splits@.take(m as int) =~= artist_splits@);
        Ok(())
    }

    /// Whether the rows have room for what `distribute_artist_payments` would
    /// add to them for `amount` and `artist_splits`.
    pub fn has_room(&self, amount: u64, artist_splits: &Vec<ArtistPercentage>) -> (r: bool)
        ensures
            r == storable(credited(self@, amount as nat, artist_splits@)),
    {
        let n = self.artist_balances.len();
        let m = artist_splits.len();
        let ghost goal = credited(self@, amount as nat, artist_splits@);
        let mut i: usize = 0;
        while i < n
            invariant
                i <= n,
                n == self.artist_balances@.len(),
                m == artist_splits@.len(),
                goal == credited(self@, amount as nat, artist_splits@),
                forall|k: int| 0 <= k < i ==> (#[trigger] goal[k]).accrued <= u64::MAX,
            decreases n - i,
        {
            let row = self.artist_balances[i];
            assert(row@ == self@[i as int]);
            let room: u64 = u64::MAX - row.royalties_balance;
            let mut gain: u64 = 0;
            let mut j: usize = 0;
            assert(artist_splits@.take(0) =~= Seq::<ArtistPercentage>::empty());
            while j < m
                invariant
                    j <= m,
                    m == artist_splits@.len(),
                    gain == credit(
                        row.artist_address,
                        amount as nat,
                        artist_splits@.take(j as int),
                    ),
                    gain <= room,
                    room == u64::MAX - row.royalties_balance,
                    0 <= i < n,
                    n == self.artist_balances@.len(),
                    row@ == self@[i as int],
                    goal == credited(self@, amount as nat, artist_splits@),
                decreases m - j,
            {
                let split = artist_splits[j];
                proof {
                    assert(artist_splits@.take(j + 1).drop_last() =~= artist_splits@.take(
                        j as int,
                    ));
                    lemma_credit_grows(row.artist_address, amount as nat, artist_splits@, j + 1);
                }
                if split.artist_address == row.artist_address {
                    let part: u128 = wide_share(amount, split.allocated_percentage);
                    if part > (room - gain) as u128 {
                        assert(goal[i as int].accrued > u64::MAX);
                        return false;
                    }
                    gain = gain + part as u64;
                }
                j = j + 1;
            }
            assert(artist_splits@.take(m as int) =~= artist_splits@);
            assert(goal[i as int].accrued <= u64::MAX);
            i = i + 1;
        }
        true
    }

    /// Shares `amount` out by `artist_splits`: every row gets, for each split
    /// that names its artist, that split's share of `amount`, rounded down.
    /// Splits whose artist has no row are passed over.
    pub fn distribute_artist_payments(
        &mut self,
        amount: u64,
        artist_splits: &Vec<ArtistPercentage>,
    ) -> (r: Result<(), ErrorCode>)
        requires
            storable(credited(old(self)@, amount as nat, artist_splits@)),
        ensures
            old(self)@.len() == 0 ==> r == Err::<(), ErrorCode>(
                ErrorCode::ArtistLedgerNotInitialized,
            ) && *final(self) == *old(self),
            old(self)@.len() > 0 ==> r == Ok::<(), ErrorCode>(()) && final(self)@ == credited(
                old(self)@,
                amount as nat,
                artist_splits@,
            ),
            r is Ok && covers(old(self)@, artist_splits@) && allocated(artist_splits@) == 10000
                ==> covers(final(self)@, artist_splits@) && total(final(self)@) <= total(
                old(self)@,
            ) + amount < total(final(self)@) + artist_splits@.len(),
    {
        let n = self.artist_balances.len();
        if n == 0 {
            return Err(ErrorCode::ArtistLedgerNotInitialized);
        }
        proof {
            if covers(old(self)@, artist_splits@) && allocated(artist_splits@) == 10000 {
                lemma_total_credited(old(self)@, amount as nat, artist_splits@);
                lemma_shared_out_bounds(amount as nat, artist_splits@);
            }
        }
        let m = artist_splits.len();
        let ghost goal = credited(old(self)@, amount as nat, artist_splits@);
        let mut i: usize = 0;
        while i < n
            invariant
                i <= n,
                n == self.artist_balances@.len(),
                n == old(self)@.len(),
                m == artist_splits@.len(),
                goal == credited(old(self)@, amount as nat, artist_splits@),
                storable(goal),
                forall|k: int| 0 <= k < i ==> (#[trigger] self@[k]) == goal[k],
                forall|k: int| i <= k < n ==> (#[trigger] self@[k]) == old(self)@[k],
            decreases n - i,
        {
            let ghost before = self@;
            let row = self.artist_balances[i];
            assert(row@ == before[i as int]);
            assert(before[i as int] == old(self)@[i as int]);
            assert(goal[i as int].accrued <= u64::MAX);
            let mut gain: u64 = 0;
            let mut j: usize = 0;
            assert(artist_splits@.take(0) =~= Seq::<ArtistPercentage>::empty());
            while j < m
                invariant
                    j <= m,
                    m == artist_splits@.len(),
                    gain == credit(
                        row.artist_address,
                        amount as nat,
                        artist_splits@.take(j as int),
                    ),
                    row.royalties_balance + credit(
                        row.artist_address,
                        amount as nat,
                        artist_splits@,
                    ) <= u64::MAX,
                decreases m - j,
            {
                let split = artist_splits[j];
                proof {
                    assert(artist_splits@.take(j + 1).drop_last() =~= artist_splits@.take(
                        j as int,
                    ));
                    lemma_credit_grows(row.artist_address, amount as nat, artist_splits@, j + 1);
                }
                if split.artist_address == row.artist_address {
                    gain = gain + share(amount, split.allocated_percentage);
                }
                j = j + 1;
            }
            assert(artist_splits@.take(m as int) =~= artist_splits@);
            self.artist_balances[i] = ArtistBalance {
                artist_address: row.artist_address,
                royalties_balance: row.royalties_balance + gain,
            };
            assert forall|k: int| 0 <= k < n && k != i implies #[trigger] self@[k]
                == before[k] by {}
            i = i + 1;
        }
        assert(self@ =~= goal);
        Ok(())
    }

    /// Pays out the first row of `artist_address`: returns what it was owed
    /// and leaves it owed nothing.
    pub fn empty_royalties_balance_for_artist(&mut self, artist_address: Address) -> (r: Result<
        u64,
        ErrorCode,
    >)
        ensures
            final(self)@ == swept(old(self)@, artist_address),
            match r {
                Ok(amount) => has_row(old(self)@, artist_address) && amount == owed(
                    old(self)@,
                    artist_address,
                ) && total(final(self)@) + amount == total(old(self)@),
                Err(e) => !has_row(old(self)@, artist_address) && e == ErrorCode::InvalidArtist
                    && *final(self) == *old(self),
            },
    {
        let n = self.artist_balances.len();
        let mut i: usize = 0;
        while i < n
            invariant
                i <= n,
                n == self.artist_balances@.len(),
                *self == *old(self),
                forall|k: int| 0 <= k < i ==> (#[trigger] self@[k]).owner != artist_address,
            decreases n - i,
        {
            let row = self.artist_balances[i];
            assert(row@ == self@[i as int]);
            if row.artist_address == artist_address {
                proof {
                    assert(is_first_row(old(self)@, artist_address, i as int));
                    lemma_first_row_is(old(self)@, artist_address, i as int);
                    lemma_sweep_takes_what_was_owed(old(self)@, artist_address);
                }
                self.artist_balances[i] = ArtistBalance {
                    artist_address: row.artist_address,
                    royalties_balance: 0,
                };
                assert(self@ =~= swept(old(self)@, artist_address));
                return Ok(row.royalties_balance);
            }
            i = i + 1;
        }
        Err(ErrorCode::InvalidArtist)
    }

    /// The number of rows.
    pub fn size(&self) -> (n: u64)
        ensures
            n == self@.len(),
    {
        self.artist_balances.len() as u64
    }
}

} // verus!
