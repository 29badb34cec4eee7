//! The NFT ledger: what the label's side owes to each registered NFT.

use vstd::prelude::*;
use vstd::arithmetic::div_mod::{lemma_fundamental_div_mod, lemma_mod_bound};
use crate::address::Address;
use crate::error::ErrorCode;
use crate::ledger::{
    has_row, is_first_row, lemma_first_row_is, lemma_sweep_takes_what_was_owed, owed,
    same_owners, storable, swept, total, Entry,
};

verus! {

/// One stored row of the NFT ledger.
#[derive(Clone, Copy, Debug, PartialEq, Eq)]
pub struct NftBalance {
    pub nft_address: Address,
    pub royalties_balance: u64,
}

impl View for NftBalance {
    type V = Entry;

    open spec fn view(&self) -> Entry {
        Entry { owner: self.nft_address, accrued: self.royalties_balance as nat }
    }
}

/// The stored rows as ledger entries.
pub open spec fn nft_entries(rows: Seq<NftBalance>) -> Seq<Entry> {
    rows.map_values(|b: NftBalance| b@)
}

/// Every row of `rows` with `each` added to what it is owed.
pub open spec fn spread(rows: Seq<Entry>, each: nat) -> Seq<Entry> {
    Seq::new(rows.len(), |i: int| Entry { owner: rows[i].owner, accrued: rows[i].accrued + each })
}

/// Spreading `each` over the rows adds `each` to the total once for every
/// row, and leaves every row with its owner.
pub proof fn lemma_total_spread(rows: Seq<Entry>, each: nat)
    ensures
        total(spread(rows, each)) == total(rows) + rows.len() * each,
        same_owners(rows, spread(rows, each)),
    decreases rows.len(),
{
    if rows.len() > 0 {
        let front = rows.drop_last();
        assert(spread(rows, each).drop_last() =~= spread(front, each));
        lemma_total_spread(front, each);
        assert(front.len() * each + each == rows.len() * each) by (nonlinear_arith)
            requires
                front.len() + 1 == rows.len(),
        ;
    }
}

/// An even spread of `amount` over `count` rows credits all of it but what
/// the division leaves, which is less than one unit for each row.
pub proof fn lemma_even_parts(amount: nat, count: nat)
    requires
        count > 0,
    ensures
        count * (amount / count) <= amount < count * (amount / count) + count,
{
    lemma_fundamental_div_mod(amount as int, count as int);
    lemma_mod_bound(amount as int, count as int);
}

/// The rows of the registered NFTs, in the order of their registration.
///
/// The number of rows is the divisor of every even distribution; a ledger
/// without rows stands for a collection that has minted nothing yet.
#[derive(Clone, Debug, PartialEq, Eq)]
pub struct NftBalanceLedger {
    nft_balances: Vec<NftBalance>,
}

impl View for NftBalanceLedger {
    type V = Seq<Entry>;

    closed spec fn view(&self) -> Seq<Entry> {
        nft_entries(self.nft_balances@)
    }
}

impl NftBalanceLedger {
    /// A ledger without rows.
    pub fn new() -> (ledger: NftBalanceLedger)
        ensures
            ledger@ == Seq::<Entry>::empty(),
    {
        NftBalanceLedger { nft_balances: Vec::new() }
    }

    /// The ledger that was stored as `nft_balances` with the count `size`;
    /// `None` where the count is not the number of rows.
    pub fn from_parts(nft_balances: Vec<NftBalance>, size: u64) -> (r: Option<NftBalanceLedger>)
        ensures
            match r {
                Some(ledger) => size == nft_balances@.len() && ledger@ == nft_entries(
                    nft_balances@,
                ),
                None => size != nft_balances@.len(),
            },
    {
        if nft_balances.len() as u64 != size {
            return None;
        }
        Some(NftBalanceLedger { nft_balances })
    }

    /// The rows as they are stored.
    pub fn nft_balances(&self) -> (rows: &Vec<NftBalance>)
        ensures
            nft_entries(rows@) == self@,
    {
        &self.nft_balances
    }

    /// Whether every row has room for `each` more.
    pub fn has_room(&self, each: u64) -> (r: bool)
        ensures
            r == storable(spread(self@, each as nat)),
    {
        let n = self.nft_balances.len();
        let mut i: usize = 0;
        while i < n
            invariant
                i <= n,
                n == self.nft_balances@.len(),
                forall|k: int|
                    0 <= k < i ==> (#[trigger] spread(self@, each as nat)[k]).accrued <= u64::MAX,
            decreases n - i,
        {
            let row = self.nft_balances[i];
            assert(row@ == self@[i as int]);
            if row.royalties_balance > u64::MAX - each {
                assert(spread(self@, each as nat)[i as int].accrued > u64::MAX);
                return false;
            }
            assert(spread(self@, each as nat)[i as int].accrued <= u64::MAX);
            i = i + 1;
        }
        true
    }

    /// Adds `amount / size` to every row. What is left of `amount` after the
    /// division is credited to nobody.
    pub fn distribute_payments(&mut self, amount: u64) -> (r: Result<(), ErrorCode>)
        requires
            old(self)@.len() > 0 ==> storable(
                spread(old(self)@, amount as nat / old(self)@.len()),
            ),
        ensures
            old(self)@.len() == 0 ==> r == Err::<(), ErrorCode>(
                ErrorCode::InvalidRoyaltiesDistribution,
            ) && *final(self) == *old(self),
            old(self)@.len() > 0 ==> r == Ok::<(), ErrorCode>(()) && final(self)@ == spread(
                old(self)@,
                amount as nat / old(self)@.len(),
            ),
            r is Ok ==> total(final(self)@) <= total(old(self)@) + amount < total(final(self)@)
                + old(self)@.len(),
    {
        let n = self.nft_balances.len();
        if n == 0 {
            return Err(ErrorCode::InvalidRoyaltiesDistribution);
        }
        let each: u64 = amount / (n as u64);
        proof {
            lemma_total_spread(old(self)@, each as nat);
            lemma_even_parts(amount as nat, n as nat);
        }
        assert forall|k: int| 0 <= k < n implies (#[trigger] old(self)@[k]).accrued + each
            <= u64::MAX by {
            assert(spread(old(self)@, each as nat)[k].accrued <= u64::MAX);
        }
        let mut i: usize = 0;
        while i < n
            invariant
                i <= n,
                n == self.nft_balances@.len(),
                n == old(self)@.len(),
                each as nat == amount as nat / old(self)@.len(),
                forall|k: int|
                    0 <= k < n ==> (#[trigger] old(self)@[k]).accrued + each <= u64::MAX,
                forall|k: int|
                    0 <= k < i ==> (#[trigger] self@[k]) == spread(old(self)@, each as nat)[k],
                forall|k: int| i <= k < n ==> (#[trigger] self@[k]) == old(self)@[k],
            decreases n - i,
        {
            let ghost before = self@;
            let row = self.nft_balances[i];
            assert(row@ == before[i as int]);
            assert(before[i as int] == old(self)@[i as int]);
            self.nft_balances[i] = NftBalance {
                nft_address: row.nft_address,
                royalties_balance: row.royalties_balance + each,
            };
            assert forall|k: int| 0 <= k < n && k != i implies #[trigger] self@[k]
                == before[k] by {}
            i = i + 1;
        }
        assert(self@ =~= spread(old(self)@, each as nat));
        Ok(())
    }

    /// Registers `nft_address` with nothing owed to it, after the rows that
    /// are there. Whether the NFT has a row already is not looked at.
    pub fn add_nft_to_ledger(&mut self, nft_address: Address)
        ensures
            final(self)@ == old(self)@.push(Entry { owner: nft_address, accrued: 0 }),
    {
        self.nft_balances.push(NftBalance { nft_address, royalties_balance: 0 });
        assert(self@ =~= old(self)@.push(Entry { owner: nft_address, accrued: 0 }));
    }

    /// Pays out the first row of `nft_address`: returns what it was owed and
    /// leaves it owed nothing.
    pub fn empty_royalties_balance_for_nft(&mut self, nft_address: Address) -> (r: Result<
        u64,
        ErrorCode,
    >)
        ensures
            final(self)@ == swept(old(self)@, nft_address),
            match r {
                Ok(amount) => has_row(old(self)@, nft_address) && amount == owed(
                    old(self)@,
                    nft_address,
                ) && total(final(self)@) + amount == total(old(self)@),
                Err(e) => !has_row(old(self)@, nft_address) && e == ErrorCode::InvalidNft
                    && *final(self) == *old(self),
            },
    {
        let n = self.nft_balances.len();
        let mut i: usize = 0;
        while i < n
            invariant
                i <= n,
                n == self.nft_balances@.len(),
                *self == *old(self),
                forall|k: int| 0 <= k < i ==> (#[trigger] self@[k]).owner != nft_address,
            decreases n - i,
        {
            let row = self.nft_balances[i];
            assert(row@ == self@[i as int]);
            if row.nft_address == nft_address {
                proof {
                    assert(is_first_row(old(self)@, nft_address, i as int));
                    lemma_first_row_is(old(self)@, nft_address, i as int);
                    lemma_sweep_takes_what_was_owed(old(self)@, nft_address);
                }
                self.nft_balances[i] = NftBalance {
                    nft_address: row.nft_address,
                    royalties_balance: 0,
                };
                assert(self@ =~= swept(old(self)@, nft_address));
                return Ok(row.royalties_balance);
            }
            i = i + 1;
        }
        Err(ErrorCode::InvalidNft)
    }

    /// What is stored can be stored.
    pub proof fn lemma_storable(&self)
        ensures
            storable(self@),
    {
    }

    /// The number of registered NFTs.
    pub fn size(&self) -> (n: u64)
        ensures
            n == self@.len(),
    {
        self.nft_balances.len() as u64
    }
}

} // verus!
