//! The books of a collection: what the vault holds against what the two
//! ledgers owe.
//!
//! The vault's balance lives with the host. Here it is followed in the
//! books, call by call, to show that the ledgers never owe more than the
//! vault holds and that what rounding leaves unowed is bounded.

use vstd::prelude::*;
use crate::address::Address;
use crate::artist_ledger::{covers, lemma_seeded_covers, seeded};
use crate::collection::{
    artists_after_mint, label_paid, lemma_label_payment_conserves, lemma_mint_conserves,
    nfts_after_mint, registered, spread_evenly, AddNft, PayLabel,
};
use crate::config::Terms;
use crate::error::ErrorCode;
use crate::instruction::Instruction;
use crate::ledger::{
    has_row, lemma_same_owners_distinct, lemma_same_owners_has_row,
    lemma_sweep_takes_what_was_owed, lemma_swept_owes_nothing, owed, swept, total, Entry,
};
use crate::program::AddressError;
use crate::withdraw::{
    artist_settled, is_payout, member_settled, ArtistWithdraw, MemberWithdraw, Payout,
};

verus! {

/// The vault's balance and the rows of the two ledgers.
pub struct Books {
    pub vault: int,
    pub artists: Seq<Entry>,
    pub nfts: Seq<Entry>,
}

/// A call that moves money or books it.
pub enum Call {
    /// A payment of `amount` to the label.
    PayLabel { amount: nat },
    /// The registration of `nft`, signed by `authority`, whose mint paid
    /// `amount_paid` into the vault.
    AddNft { authority: Address, amount_paid: nat, nft: Address },
    /// A withdrawal of what `nft` is owed.
    MemberWithdraw { nft: Address },
    /// A withdrawal of what `artist` is owed.
    ArtistWithdraw { artist: Address },
}

impl Books {
    /// What the two ledgers owe in all.
    pub open spec fn owed(self) -> nat {
        total(self.artists) + total(self.nfts)
    }

    /// What the vault holds and owes to nobody.
    pub open spec fn unowed(self) -> int {
        self.vault - self.owed()
    }
}

/// The books of a collection that was just made with `terms`.
pub open spec fn opened(terms: Terms) -> Books {
    Books {
        vault: 0,
        artists: seeded(Seq::<Entry>::empty(), terms.artist_splits),
        nfts: Seq::<Entry>::empty(),
    }
}

/// The books after `call`. A call that is refused leaves them as they are.
pub open spec fn booked(terms: Terms, books: Books, call: Call) -> Books {
    match call {
        Call::PayLabel { amount } => if books.nfts.len() == 0 {
            books
        } else {
            Books {
                vault: books.vault + amount,
                nfts: spread_evenly(books.nfts, amount),
                ..books
            }
        },
        Call::AddNft { authority, amount_paid, nft } => if authority != terms.collection_authority
            || books.artists.len() == 0 {
            books
        } else {
            Books {
                vault: books.vault + amount_paid,
                artists: artists_after_mint(terms, books.artists, books.nfts.len(), amount_paid),
                nfts: nfts_after_mint(terms, books.nfts, amount_paid, nft),
            }
        },
        Call::MemberWithdraw { nft } => Books {
            vault: books.vault - owed(books.nfts, nft),
            nfts: swept(books.nfts, nft),
            ..books
        },
        Call::ArtistWithdraw { artist } => Books {
            vault: books.vault - owed(books.artists, artist),
            artists: swept(books.artists, artist),
            ..books
        },
    }
}

/// The books after `calls`, in their order.
pub open spec fn replayed(terms: Terms, books: Books, calls: Seq<Call>) -> Books
    decreases calls.len(),
{
    if calls.len() == 0 {
        books
    } else {
        booked(terms, replayed(terms, books, calls.drop_last()), calls.last())
    }
}

/// How many of `calls` distribute a payment: the payments to the label and
/// the registrations.
pub open spec fn distributions(calls: Seq<Call>) -> nat
    decreases calls.len(),
{
    if calls.len() == 0 {
        0
    } else {
        distributions(calls.drop_last()) + if calls.last() is PayLabel || calls.last() is AddNft {
            1nat
        } else {
            0nat
        }
    }
}

/// The books of a registration follow what `add_nft` does: where it accepts
/// and the mint's payment comes into the vault, the ledgers and the vault
/// are as the books say; where it refuses, they are as before.
pub proof fn lemma_registration_is_booked(
    before: AddNft,
    amount_paid: u64,
    after: AddNft,
    r: Result<(), ErrorCode>,
    vault: int,
)
    requires
        registered(before, amount_paid, after, r),
    ensures
        booked(
            before.collection_config@,
            Books {
                vault,
                artists: before.artist_balance_ledger@,
                nfts: before.nft_balance_ledger@,
            },
            Call::AddNft {
                authority: before.collection_authority,
                amount_paid: amount_paid as nat,
                nft: before.nft_address,
            },
        ) == (Books {
            vault: if r is Ok {
                vault + amount_paid
            } else {
                vault
            },
            artists: after.artist_balance_ledger@,
            nfts: after.nft_balance_ledger@,
        }),
{
}

/// The books of a payment to the label follow what `pay_label` does: where
/// it accepts and the transfer it returns is carried out, the ledger and the
/// vault are as the books say; where it refuses, they are as before.
pub proof fn lemma_label_payment_is_booked(
    terms: Terms,
    before: PayLabel,
    amount: u64,
    after: PayLabel,
    r: Result<Instruction, ErrorCode>,
    vault: int,
    artists: Seq<Entry>,
)
    requires
        label_paid(before, amount, after, r),
    ensures
        booked(
            terms,
            Books { vault, artists, nfts: before.nft_balance_ledger@ },
            Call::PayLabel { amount: amount as nat },
        ) == (Books {
            vault: if r is Ok {
                vault + amount
            } else {
                vault
            },
            artists,
            nfts: after.nft_balance_ledger@,
        }),
{
}

/// The books of a withdrawal for an NFT follow what `member_withdraw` does
/// where it accepts and the payout it returns is carried out: the ledger is
/// as the books say, and the payout takes from the vault what they say.
pub proof fn lemma_member_withdrawal_is_booked(
    terms: Terms,
    before: MemberWithdraw,
    ledger: Result<Seq<u8>, AddressError>,
    after: MemberWithdraw,
    payout: Payout,
    vault: int,
    artists: Seq<Entry>,
)
    requires
        member_settled(before, ledger, after, Ok(payout)),
    ensures
        booked(
            terms,
            Books { vault, artists, nfts: before.nft_balance_ledger@ },
            Call::MemberWithdraw { nft: before.nft },
        ) == (Books {
            vault: vault - owed(before.nft_balance_ledger@, before.nft),
            artists,
            nfts: after.nft_balance_ledger@,
        }),
        is_payout(
            payout,
            before.pda_vault,
            before.to,
            owed(before.nft_balance_ledger@, before.nft) as u64,
        ),
{
}

/// The books of a withdrawal for an artist follow what `artist_withdraw`
/// does where it accepts and the payout it returns is carried out: the
/// ledger is as the books say, and the payout takes from the vault what
/// they say.
pub proof fn lemma_artist_withdrawal_is_booked(
    terms: Terms,
    before: ArtistWithdraw,
    ledger: Result<Seq<u8>, AddressError>,
    after: ArtistWithdraw,
    payout: Payout,
    vault: int,
    nfts: Seq<Entry>,
)
    requires
        artist_settled(before, ledger, after, Ok(payout)),
    ensures
        booked(
            terms,
            Books { vault, artists: before.artist_balance_ledger@, nfts },
            Call::ArtistWithdraw { artist: before.artist_account },
        ) == (Books {
            vault: vault - owed(before.artist_balance_ledger@, before.artist_account),
            artists: after.artist_balance_ledger@,
            nfts,
        }),
        is_payout(
            payout,
            before.pda_vault,
            before.artist_account,
            owed(before.artist_balance_ledger@, before.artist_account) as u64,
        ),
{
}

/// A collection opens with an empty vault that owes nothing, and with one
/// row for each artist of its terms.
pub proof fn lemma_opened(terms: Terms)
    ensures
        opened(terms).unowed() == 0,
        covers(opened(terms).artists, terms.artist_splits),
{
    lemma_seeded_covers(Seq::<Entry>::empty(), terms.artist_splits);
}

/// No call makes the ledgers owe more than came in, and no call leaves more
/// unowed than one unit for each artist's share and each registered NFT. A
/// withdrawal leaves unowed exactly what was.
pub proof fn lemma_call_conserves(terms: Terms, books: Books, call: Call)
    requires
        terms.valid(),
        covers(books.artists, terms.artist_splits),
    ensures
        covers(booked(terms, books, call).artists, terms.artist_splits),
        books.nfts.len() <= booked(terms, books, call).nfts.len(),
        books.unowed() <= booked(terms, books, call).unowed() <= books.unowed()
            + terms.artist_splits.len() + books.nfts.len(),
        call is MemberWithdraw || call is ArtistWithdraw ==> booked(terms, books, call).unowed()
            == books.unowed(),
{
    let after = booked(terms, books, call);
    let splits = terms.artist_splits;
    match call {
        Call::PayLabel { amount } => {
            if books.nfts.len() > 0 {
                lemma_label_payment_conserves(books.nfts, amount);
            }
        },
        Call::AddNft { authority, amount_paid, nft } => {
            lemma_mint_conserves(terms, books.artists, books.nfts, amount_paid, nft);
        },
        Call::MemberWithdraw { nft } => {
            lemma_sweep_takes_what_was_owed(books.nfts, nft);
            lemma_swept_owes_nothing(books.nfts, nft);
        },
        Call::ArtistWithdraw { artist } => {
            lemma_sweep_takes_what_was_owed(books.artists, artist);
            lemma_swept_owes_nothing(books.artists, artist);
            lemma_same_owners_distinct(books.artists, after.artists);
            assert forall|j: int| 0 <= j < splits.len() implies has_row(
                after.artists,
                (#[trigger] splits[j]).artist_address,
            ) by {
                lemma_same_owners_has_row(books.artists, after.artists, splits[j].artist_address);
            }
        },
    }
}

/// Whatever the calls, the ledgers come to owe no more than came into the
/// vault; and what the vault holds beyond what they owe grows by no more
/// than the number of calls that distribute a payment times the number of
/// those that such a call can credit: the artists' shares and the NFTs
/// registered in the end.
pub proof fn lemma_calls_conserve(terms: Terms, books: Books, calls: Seq<Call>)
    requires
        terms.valid(),
        covers(books.artists, terms.artist_splits),
    ensures
        covers(replayed(terms, books, calls).artists, terms.artist_splits),
        books.nfts.len() <= replayed(terms, books, calls).nfts.len(),
        books.unowed() <= replayed(terms, books, calls).unowed() <= books.unowed() + distributions(
            calls,
        ) * (terms.artist_splits.len() + replayed(terms, books, calls).nfts.len()),
    decreases calls.len(),
{
    if calls.len() > 0 {
        let front = calls.drop_last();
        let before = replayed(terms, books, front);
        let after = replayed(terms, books, calls);
        lemma_calls_conserve(terms, books, front);
        lemma_call_conserves(terms, before, calls.last());
        let artists = terms.artist_splits.len();
        let earlier = distributions(front);
        if calls.last() is PayLabel || calls.last() is AddNft {
            assert(earlier * (artists + before.nfts.len()) + artists + before.nfts.len() <= (earlier
                + 1) * (artists + after.nfts.len())) by (nonlinear_arith)
                requires
                    before.nfts.len() <= after.nfts.len(),
            ;
        } else {
            assert(earlier * (artists + before.nfts.len()) <= earlier * (artists
                + after.nfts.len())) by (nonlinear_arith)
                requires
                    before.nfts.len() <= after.nfts.len(),
            ;
        }
    } else {
        assert(distributions(calls) * (terms.artist_splits.len() + books.nfts.len()) == 0)
            by (nonlinear_arith)
            requires
                distributions(calls) == 0,
        ;
    }
}

/// From the making of a collection on, the vault holds what the ledgers
/// owe, and beyond that only what rounding left: at most one unit for each
/// call that distributed a payment and each of those that such a call can
/// credit.
pub proof fn lemma_solvent(terms: Terms, calls: Seq<Call>)
    requires
        terms.valid(),
    ensures
        0 <= replayed(terms, opened(terms), calls).unowed() <= distributions(calls) * (
        terms.artist_splits.len() + replayed(terms, opened(terms), calls).nfts.len()),
{
    lemma_opened(terms);
    lemma_calls_conserve(terms, opened(terms), calls);
}

} // verus!
