//! Making a collection, registering its NFTs and paying the label.

use vstd::prelude::*;
use crate::address::Address;
use crate::artist_ledger::{
    covers, credited, lemma_seeded_covers, lemma_total_credited, seeded, ArtistBalanceLedger,
};
use crate::config::{adds_up, CollectionConfiguration, Terms};
use crate::error::ErrorCode;
use crate::instruction::{is_transfer, transfer, Instruction};
use crate::ledger::{lemma_total_push, storable, total, Entry};
use crate::nft_ledger::{lemma_even_parts, lemma_total_spread, spread, NftBalanceLedger};
use crate::split::{
    lemma_share_at_most_amount, lemma_shared_out_bounds, lemma_two_parts, share, share_of,
    ArtistPercentage,
};

verus! {

/// The accounts that making a collection fills.
#[derive(Debug, PartialEq, Eq)]
pub struct InitializeCollection {
    pub collection_config: CollectionConfiguration,
    pub nft_balance_ledger: NftBalanceLedger,
    pub artist_balance_ledger: ArtistBalanceLedger,
    /// Who pays for the accounts, and becomes the collection's authority.
    pub payer: Address,
}

/// The accounts of the registration of an NFT.
#[derive(Debug, PartialEq, Eq)]
pub struct AddNft {
    pub payer: Address,
    /// Who signed as the collection's authority.
    pub collection_authority: Address,
    pub collection_config: CollectionConfiguration,
    pub artist_balance_ledger: ArtistBalanceLedger,
    pub nft_balance_ledger: NftBalanceLedger,
    /// The NFT to register.
    pub nft_address: Address,
}

/// The accounts of a payment to the label.
#[derive(Debug, PartialEq, Eq)]
pub struct PayLabel {
    /// Who pays.
    pub from: Address,
    /// The vault.
    pub pda_vault: Address,
    pub nft_balance_ledger: NftBalanceLedger,
}

/// The accounts of the distribution of the secondary pool.
#[derive(Debug, PartialEq, Eq)]
pub struct DistributeSecondaryPool {
    pub from: Address,
    /// The vault.
    pub pda_vault: Address,
    pub nft_balance_ledger: NftBalanceLedger,
}

/// The accounts of the payment of a licensing fee.
#[derive(Debug, PartialEq, Eq)]
pub struct PayLicensingFee {
    pub from: Address,
    /// The vault.
    pub pda_vault: Address,
    pub nft_balance_ledger: NftBalanceLedger,
}

/// The artists' part of what the mint of an NFT pays, where `minted` NFTs
/// were registered before it: all of it for the first NFT, their mint
/// percentage of it afterwards.
pub open spec fn artist_part(terms: Terms, minted: nat, amount_paid: nat) -> nat {
    if minted == 0 {
        amount_paid
    } else {
        share_of(amount_paid, terms.artist_mint_percentage as nat)
    }
}

/// The label's part of what the mint of an NFT pays, where `minted` NFTs
/// were registered before it: nothing for the first NFT, the label's mint
/// percentage of it afterwards.
pub open spec fn label_part(terms: Terms, minted: nat, amount_paid: nat) -> nat {
    if minted == 0 {
        0
    } else {
        share_of(amount_paid, terms.label_mint_percentage as nat)
    }
}

/// The NFT ledger after `amount` was spread evenly over its rows; a ledger
/// without rows stays as it is.
pub open spec fn spread_evenly(nfts: Seq<Entry>, amount: nat) -> Seq<Entry> {
    if nfts.len() == 0 {
        nfts
    } else {
        spread(nfts, amount / nfts.len())
    }
}

/// The artist ledger after a mint that paid `amount_paid`, where `minted`
/// NFTs were registered before it.
pub open spec fn artists_after_mint(
    terms: Terms,
    artists: Seq<Entry>,
    minted: nat,
    amount_paid: nat,
) -> Seq<Entry> {
    credited(artists, artist_part(terms, minted, amount_paid), terms.artist_splits)
}

/// The NFT ledger after the mint of `nft` paid `amount_paid`: the label's
/// part goes evenly to the NFTs registered before, then `nft` gets its row.
pub open spec fn nfts_after_mint(
    terms: Terms,
    nfts: Seq<Entry>,
    amount_paid: nat,
    nft: Address,
) -> Seq<Entry> {
    spread_evenly(nfts, label_part(terms, nfts.len(), amount_paid)).push(
        Entry { owner: nft, accrued: 0 },
    )
}

/// Why the registration `ctx` is refused, if it is.
pub open spec fn add_nft_refusal(ctx: AddNft) -> Option<ErrorCode> {
    if ctx.collection_authority != ctx.collection_config@.collection_authority {
        Some(ErrorCode::MissingCollectionAuthoritySignature)
    } else if ctx.artist_balance_ledger@.len() == 0 {
        Some(ErrorCode::ArtistLedgerNotInitialized)
    } else {
        None
    }
}

/// Whether the two ledgers of `ctx` have room for what a mint that pays
/// `amount_paid` adds to them.
pub open spec fn add_nft_fits(ctx: AddNft, amount_paid: u64) -> bool {
    &&& storable(
        artists_after_mint(
            ctx.collection_config@,
            ctx.artist_balance_ledger@,
            ctx.nft_balance_ledger@.len(),
            amount_paid as nat,
        ),
    )
    &&& storable(
        nfts_after_mint(
            ctx.collection_config@,
            ctx.nft_balance_ledger@,
            amount_paid as nat,
            ctx.nft_address,
        ),
    )
}

/// Whether `r` and `after` are what the registration `before` comes to for
/// a mint that paid `amount_paid`.
pub open spec fn registered(
    before: AddNft,
    amount_paid: u64,
    after: AddNft,
    r: Result<(), ErrorCode>,
) -> bool {
    match r {
        Ok(()) => {
            &&& add_nft_refusal(before) is None
            &&& after.artist_balance_ledger@ == artists_after_mint(
                before.collection_config@,
                before.artist_balance_ledger@,
                before.nft_balance_ledger@.len(),
                amount_paid as nat,
            )
            &&& after.nft_balance_ledger@ == nfts_after_mint(
                before.collection_config@,
                before.nft_balance_ledger@,
                amount_paid as nat,
                before.nft_address,
            )
            &&& after == (AddNft {
                artist_balance_ledger: after.artist_balance_ledger,
                nft_balance_ledger: after.nft_balance_ledger,
                ..before
            })
        },
        Err(e) => add_nft_refusal(before) == Some(e) && after == before,
    }
}

/// Whether `r` and `after` are what the payment of `amount` to the label
/// comes to on `before`.
pub open spec fn label_paid(
    before: PayLabel,
    amount: u64,
    after: PayLabel,
    r: Result<Instruction, ErrorCode>,
) -> bool {
    match r {
        Ok(instruction) => {
            &&& before.nft_balance_ledger@.len() > 0
            &&& is_transfer(instruction, before.from, before.pda_vault, amount)
            &&& after.nft_balance_ledger@ == spread_evenly(
                before.nft_balance_ledger@,
                amount as nat,
            )
            &&& after == (PayLabel { nft_balance_ledger: after.nft_balance_ledger, ..before })
        },
        Err(e) => {
            &&& before.nft_balance_ledger@.len() == 0
            &&& e == ErrorCode::InvalidRoyaltiesDistribution
            &&& after == before
        },
    }
}

/// A payment to the label is credited to the NFTs but for what the division
/// leaves: less than one unit for each NFT. Every row stays with its NFT.
pub proof fn lemma_label_payment_conserves(nfts: Seq<Entry>, amount: nat)
    requires
        nfts.len() > 0,
    ensures
        total(spread_evenly(nfts, amount)) <= total(nfts) + amount < total(
            spread_evenly(nfts, amount),
        ) + nfts.len(),
        spread_evenly(nfts, amount).len() == nfts.len(),
{
    lemma_total_spread(nfts, amount / nfts.len());
    lemma_even_parts(amount, nfts.len());
}

/// What a mint pays is credited to the artists and the NFTs but for what
/// rounding leaves: less than one unit for each artist's share and each NFT
/// registered before. The artists keep their rows, one each.
pub proof fn lemma_mint_conserves(
    terms: Terms,
    artists: Seq<Entry>,
    nfts: Seq<Entry>,
    amount_paid: nat,
    nft: Address,
)
    requires
        terms.valid(),
        covers(artists, terms.artist_splits),
    ensures
        covers(
            artists_after_mint(terms, artists, nfts.len(), amount_paid),
            terms.artist_splits,
        ),
        nfts_after_mint(terms, nfts, amount_paid, nft).len() == nfts.len() + 1,
        total(artists_after_mint(terms, artists, nfts.len(), amount_paid)) + total(
            nfts_after_mint(terms, nfts, amount_paid, nft),
        ) <= total(artists) + total(nfts) + amount_paid < total(
            artists_after_mint(terms, artists, nfts.len(), amount_paid),
        ) + total(nfts_after_mint(terms, nfts, amount_paid, nft)) + terms.artist_splits.len()
            + nfts.len(),
{
    let minted = nfts.len();
    let to_artists = artist_part(terms, minted, amount_paid);
    let to_label = label_part(terms, minted, amount_paid);
    lemma_total_credited(artists, to_artists, terms.artist_splits);
    lemma_shared_out_bounds(to_artists, terms.artist_splits);
    lemma_total_push(spread_evenly(nfts, to_label), Entry { owner: nft, accrued: 0 });
    if minted > 0 {
        lemma_two_parts(
            amount_paid,
            terms.artist_mint_percentage as nat,
            terms.label_mint_percentage as nat,
        );
        lemma_total_spread(nfts, to_label / minted);
        lemma_even_parts(to_label, minted);
    }
}

/// Makes a collection: its terms, with `payer` as its authority, an artist
/// ledger with one row of nothing owed for each artist of `artist_splits`,
/// and an NFT ledger without rows.
///
/// Refused with `InvalidCollectionConfig` unless the mint pair, the secondary
/// pair and the artists' shares each add up to 100%.
pub fn initialize_collection(
    payer: Address,
    artist_mint_percentage: u64,
    label_mint_percentage: u64,
    artist_secondary_percentage: u64,
    label_secondary_percentage: u64,
    artist_splits: Vec<ArtistPercentage>,
) -> (r: Result<InitializeCollection, ErrorCode>)
    ensures
        match r {
            Ok(made) => {
                &&& adds_up(
                    artist_mint_percentage,
                    label_mint_percentage,
                    artist_secondary_percentage,
                    label_secondary_percentage,
                    artist_splits@,
                )
                &&& made.payer == payer
                &&& made.collection_config@ == (Terms {
                    collection_authority: payer,
                    artist_mint_percentage,
                    label_mint_percentage,
                    artist_secondary_percentage,
                    label_secondary_percentage,
                    artist_splits: artist_splits@,
                })
                &&& made.artist_balance_ledger@ == seeded(Seq::<Entry>::empty(), artist_splits@)
                &&& covers(made.artist_balance_ledger@, artist_splits@)
                &&& total(made.artist_balance_ledger@) == 0
                &&& made.nft_balance_ledger@ == Seq::<Entry>::empty()
            },
            Err(e) => e == ErrorCode::InvalidCollectionConfig && !adds_up(
                artist_mint_percentage,
                label_mint_percentage,
                artist_secondary_percentage,
                label_secondary_percentage,
                artist_splits@,
            ),
        },
{
    let collection_config = match CollectionConfiguration::new(
        payer,
        artist_mint_percentage,
        label_mint_percentage,
        artist_secondary_percentage,
        label_secondary_percentage,
        artist_splits,
    ) {
        Ok(config) => config,
        Err(e) => {
            return Err(e);
        },
    };
    let mut artist_balance_ledger = ArtistBalanceLedger::new();
    let _ = artist_balance_ledger.initialize_artist_ledger(collection_config.artist_splits());
    proof {
        lemma_seeded_covers(Seq::<Entry>::empty(), collection_config@.artist_splits);
    }
    Ok(
        InitializeCollection {
            collection_config,
            nft_balance_ledger: NftBalanceLedger::new(),
            artist_balance_ledger,
            payer,
        },
    )
}

/// Whether `add_nft` can be called on `ctx` with `amount_paid`: it can
/// unless it would accept the registration and a balance would overflow.
pub fn add_nft_has_room(ctx: &AddNft, amount_paid: u64) -> (r: bool)
    ensures
        r == (add_nft_refusal(*ctx) is None ==> add_nft_fits(*ctx, amount_paid)),
{
    if ctx.collection_config.collection_authority() != ctx.collection_authority {
        return true;
    }
    if ctx.artist_balance_ledger.size() == 0 {
        return true;
    }
    let ghost terms = ctx.collection_config@;
    let ghost nfts = ctx.nft_balance_ledger@;
    let minted = ctx.nft_balance_ledger.size();
    if minted == 0 {
        assert(nfts_after_mint(terms, nfts, amount_paid as nat, ctx.nft_address) =~= seq![
            Entry { owner: ctx.nft_address, accrued: 0 },
        ]);
        ctx.artist_balance_ledger.has_room(amount_paid, ctx.collection_config.artist_splits())
    } else {
        let artist_bp = ctx.collection_config.artist_mint_percentage();
        let label_bp = ctx.collection_config.label_mint_percentage();
        proof {
            lemma_share_at_most_amount(amount_paid as nat, artist_bp as nat);
            lemma_share_at_most_amount(amount_paid as nat, label_bp as nat);
        }
        let amount_to_artist = share(amount_paid, artist_bp);
        let amount_to_label = share(amount_paid, label_bp);
        let each = amount_to_label / minted;
        let ghost spreaded = spread(nfts, each as nat);
        proof {
            let after = nfts_after_mint(terms, nfts, amount_paid as nat, ctx.nft_address);
            assert(after == spreaded.push(Entry { owner: ctx.nft_address, accrued: 0 }));
            if storable(spreaded) {
                assert forall|i: int| 0 <= i < after.len() implies (#[trigger] after[i]).accrued
                    <= u64::MAX by {
                    if i < spreaded.len() {
                        assert(after[i] == spreaded[i]);
                    }
                }
            }
            if storable(after) {
                assert forall|i: int| 0 <= i < spreaded.len() implies (
                #[trigger] spreaded[i]).accrued <= u64::MAX by {
                    assert(after[i] == spreaded[i]);
                }
            }
        }
        ctx.artist_balance_ledger.has_room(amount_to_artist, ctx.collection_config.artist_splits())
            && ctx.nft_balance_ledger.has_room(each)
    }
}

/// Registers the NFT `ctx.nft_address`, whose mint paid `amount_paid`.
///
/// Refused with `MissingCollectionAuthoritySignature` unless the authority
/// that signed is the collection's, and with `ArtistLedgerNotInitialized`
/// where the artist ledger has no rows; nothing changes then.
///
/// For the first NFT the whole payment is shared out among the artists.
/// Afterwards the artists share their mint percentage of it, and the
/// label's mint percentage of it goes evenly to the NFTs registered before.
/// Then the NFT gets its row, with nothing owed.
pub fn add_nft(ctx: &mut AddNft, amount_paid: u64) -> (r: Result<(), ErrorCode>)
    requires
        add_nft_refusal(*old(ctx)) is None ==> add_nft_fits(*old(ctx), amount_paid),
    ensures
        old(ctx).collection_authority != old(ctx).collection_config@.collection_authority ==> r
            == Err::<(), ErrorCode>(ErrorCode::MissingCollectionAuthoritySignature) && *final(ctx)
            == *old(ctx),
        registered(*old(ctx), amount_paid, *final(ctx), r),
        r is Ok && covers(
            old(ctx).artist_balance_ledger@,
            old(ctx).collection_config@.artist_splits,
        ) ==> {
            &&& covers(final(ctx).artist_balance_ledger@, old(ctx).collection_config@.artist_splits)
            &&& total(final(ctx).artist_balance_ledger@) + total(final(ctx).nft_balance_ledger@)
                <= total(old(ctx).artist_balance_ledger@) + total(old(ctx).nft_balance_ledger@)
                + amount_paid < total(final(ctx).artist_balance_ledger@) + total(
                final(ctx).nft_balance_ledger@,
            ) + old(ctx).collection_config@.artist_splits.len() + old(ctx).nft_balance_ledger@.len()
        },
{
    if ctx.collection_config.collection_authority() != ctx.collection_authority {
        return Err(ErrorCode::MissingCollectionAuthoritySignature);
    }
    if ctx.artist_balance_ledger.size() == 0 {
        return Err(ErrorCode::ArtistLedgerNotInitialized);
    }
    let ghost terms = ctx.collection_config@;
    let ghost nfts = ctx.nft_balance_ledger@;
    proof {
        if covers(ctx.artist_balance_ledger@, terms.artist_splits) {
            lemma_mint_conserves(
                terms,
                ctx.artist_balance_ledger@,
                nfts,
                amount_paid as nat,
                ctx.nft_address,
            );
        }
    }
    let minted = ctx.nft_balance_ledger.size();
    if minted == 0 {
        let _ = ctx.artist_balance_ledger.distribute_artist_payments(
            amount_paid,
            ctx.collection_config.artist_splits(),
        );
    } else {
        let artist_bp = ctx.collection_config.artist_mint_percentage();
        let label_bp = ctx.collection_config.label_mint_percentage();
        proof {
            lemma_share_at_most_amount(amount_paid as nat, artist_bp as nat);
            lemma_share_at_most_amount(amount_paid as nat, label_bp as nat);
        }
        let amount_to_artist = share(amount_paid, artist_bp);
        let _ = ctx.artist_balance_ledger.distribute_artist_payments(
            amount_to_artist,
            ctx.collection_config.artist_splits(),
        );
        let amount_to_label = share(amount_paid, label_bp);
        proof {
            let each = amount_to_label as nat / nfts.len();
            let spreaded = spread(nfts, each);
            let after = nfts_after_mint(terms, nfts, amount_paid as nat, ctx.nft_address);
            assert(after == spreaded.push(Entry { owner: ctx.nft_address, accrued: 0 }));
            assert forall|i: int| 0 <= i < spreaded.len() implies (#[trigger] spreaded[i]).accrued
                <= u64::MAX by {
                assert(after[i] == spreaded[i]);
            }
        }
        let _ = ctx.nft_balance_ledger.distribute_payments(amount_to_label);
    }
    ctx.nft_balance_ledger.add_nft_to_ledger(ctx.nft_address);
    Ok(())
}

/// Whether `pay_label` can be called on `ctx` with `amount`: it can unless
/// it would accept the payment and a balance would overflow.
pub fn pay_label_has_room(ctx: &PayLabel, amount: u64) -> (r: bool)
    ensures
        r == storable(spread_evenly(ctx.nft_balance_ledger@, amount as nat)),
{
    let minted = ctx.nft_balance_ledger.size();
    if minted == 0 {
        proof {
            ctx.nft_balance_ledger.lemma_storable();
        }
        return true;
    }
    ctx.nft_balance_ledger.has_room(amount / minted)
}

/// Pays `amount` to the label: every registered NFT is credited an equal
/// part of it, rounded down, and the instruction returned moves `amount`
/// from the payer into the vault. What the division leaves stays in the
/// vault, owed to nobody.
///
/// Refused with `InvalidRoyaltiesDistribution` where no NFT is registered;
/// nothing changes then.
pub fn pay_label(ctx: &mut PayLabel, amount: u64) -> (r: Result<Instruction, ErrorCode>)
    requires
        storable(spread_evenly(old(ctx).nft_balance_ledger@, amount as nat)),
    ensures
        label_paid(*old(ctx), amount, *final(ctx), r),
        r is Ok ==> total(final(ctx).nft_balance_ledger@) <= total(old(ctx).nft_balance_ledger@)
            + amount < total(final(ctx).nft_balance_ledger@) + old(ctx).nft_balance_ledger@.len(),
{
    proof {
        if ctx.nft_balance_ledger@.len() > 0 {
            lemma_label_payment_conserves(ctx.nft_balance_ledger@, amount as nat);
        }
    }
    match ctx.nft_balance_ledger.distribute_payments(amount) {
        Ok(()) => {},
        Err(e) => {
            return Err(e);
        },
    }
    Ok(transfer(&ctx.from, &ctx.pda_vault, amount))
}

/// Distributes the secondary pool, which holds what resales earned. Nothing
/// is distributed yet: the operation is accepted and changes nothing.
pub fn distribute_secondary_pool(ctx: &mut DistributeSecondaryPool) -> (r: Result<(), ErrorCode>)
    ensures
        r == Ok::<(), ErrorCode>(()),
        *final(ctx) == *old(ctx),
{
    Ok(())
}

/// Pays a licensing fee. Nothing is booked yet: the operation is accepted
/// and changes nothing.
pub fn pay_licensing_fee(ctx: &mut PayLicensingFee) -> (r: Result<(), ErrorCode>)
    ensures
        r == Ok::<(), ErrorCode>(()),
        *final(ctx) == *old(ctx),
{
    Ok(())
}

} // verus!
