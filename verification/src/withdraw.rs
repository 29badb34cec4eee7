//! Withdrawals: a holder of an NFT, or an artist, takes out what the ledger
//! owes them.
//!
//! A withdrawal sets the row to nothing owed and hands back the transfer of
//! that amount out of the vault. The host carries the transfer out under the
//! vault's derived authority, in the same indivisible step: a second
//! withdrawal finds nothing owed.

use vstd::prelude::*;
use crate::address::{lemma_same_bytes, Address};
use crate::artist_ledger::ArtistBalanceLedger;
use crate::error::ErrorCode;
use crate::instruction::{is_transfer, transfer, Instruction};
use crate::ledger::{has_row, lemma_swept_owes_nothing, owed, swept};
use crate::nft_ledger::NftBalanceLedger;
use crate::program::{
    by_bytes, derivation, derive_address, id, AddressError, ARTIST_LEDGER_BUMP,
    ARTIST_LEDGER_SEED, ID, NFT_LEDGER_BUMP, NFT_LEDGER_SEED, VAULT_BUMP, VAULT_SEED,
};

verus! {

/// Why a withdrawal was refused.
#[derive(Clone, Copy, Debug, PartialEq, Eq, Structural)]
pub enum WithdrawError {
    /// The vault's rules refuse it.
    Code(ErrorCode),
    /// The address of the ledger's account could not be derived.
    Address(AddressError),
}

/// A transfer out of the vault: the instruction, and the seed and bump of
/// the vault's address, with which the program signs for the vault. No
/// signature of anybody else can stand in for that, and only a withdrawal
/// makes a payout.
#[derive(Clone, Debug, PartialEq, Eq)]
pub struct Payout {
    instruction: Instruction,
    signer_seed: &'static str,
    signer_bump: u8,
}

impl Payout {
    /// The instruction of this payout.
    pub closed spec fn spec_instruction(self) -> Instruction {
        self.instruction
    }

    /// The seed with which the program signs this payout.
    pub closed spec fn spec_signer_seed(self) -> &'static str {
        self.signer_seed
    }

    /// The bump with which the program signs this payout.
    pub closed spec fn spec_signer_bump(self) -> u8 {
        self.signer_bump
    }

    /// The instruction to invoke.
    pub fn instruction(&self) -> (instruction: &Instruction)
        ensures
            *instruction == self.spec_instruction(),
    {
        &self.instruction
    }

    /// The seed to sign with.
    pub fn signer_seed(&self) -> (seed: &'static str)
        ensures
            seed == self.spec_signer_seed(),
    {
        self.signer_seed
    }

    /// The bump to sign with.
    pub fn signer_bump(&self) -> (bump: u8)
        ensures
            bump == self.spec_signer_bump(),
    {
        self.signer_bump
    }
}

/// Whether `payout` moves `lamports` from `vault` to `to` under the vault's
/// own authority.
pub open spec fn is_payout(payout: Payout, vault: Address, to: Address, lamports: u64) -> bool {
    &&& is_transfer(payout.spec_instruction(), vault, to, lamports)
    &&& payout.spec_signer_seed()@ == VAULT_SEED@
    &&& payout.spec_signer_bump() == VAULT_BUMP
}

/// What a token account says of a holding: of which mint, whose, how many.
#[derive(Clone, Copy, Debug, PartialEq, Eq)]
pub struct TokenHolding {
    pub mint: Address,
    pub owner: Address,
    pub amount: u64,
}

/// The accounts of a withdrawal by the holder of an NFT.
#[derive(Debug, PartialEq, Eq)]
pub struct MemberWithdraw {
    /// Who withdraws, and where the money goes.
    pub to: Address,
    /// The vault.
    pub pda_vault: Address,
    /// The NFT whose royalties are withdrawn.
    pub nft: Address,
    /// The holding that shows `to` to hold the NFT.
    pub nft_associated_account: TokenHolding,
    /// The address of the account that `nft_balance_ledger` was read from.
    pub nft_balance_ledger_key: Address,
    pub nft_balance_ledger: NftBalanceLedger,
}

/// The accounts of a withdrawal by an artist.
#[derive(Debug, PartialEq, Eq)]
pub struct ArtistWithdraw {
    /// The artist, and where the money goes.
    pub artist_account: Address,
    /// The vault.
    pub pda_vault: Address,
    /// The address of the account that `artist_balance_ledger` was read from.
    pub artist_balance_ledger_key: Address,
    pub artist_balance_ledger: ArtistBalanceLedger,
}

/// Why the withdrawal `ctx` is refused, where `ledger` is what deriving the
/// NFT ledger's address gave: the first of the checks that fails.
pub open spec fn member_refusal(
    ctx: MemberWithdraw,
    ledger: Result<Seq<u8>, AddressError>,
) -> Option<WithdrawError> {
    match ledger {
        Err(e) => Some(WithdrawError::Address(e)),
        Ok(address) => if address != ctx.nft_balance_ledger_key@ {
            Some(WithdrawError::Code(ErrorCode::InvalidBalanceLedger))
        } else if ctx.nft_associated_account.mint != ctx.nft {
            Some(WithdrawError::Code(ErrorCode::InvalidNftAssociatedAccount))
        } else if ctx.nft_associated_account.amount == 0 {
            Some(WithdrawError::Code(ErrorCode::AssociatedAccountBalanceZero))
        } else if ctx.to != ctx.nft_associated_account.owner {
            Some(WithdrawError::Code(ErrorCode::NftNotOwnedByWithdrawer))
        } else if !has_row(ctx.nft_balance_ledger@, ctx.nft) {
            Some(WithdrawError::Code(ErrorCode::InvalidNft))
        } else {
            None
        },
    }
}

/// Why the withdrawal `ctx` is refused, where `ledger` is what deriving the
/// artist ledger's address gave: the first of the checks that fails.
pub open spec fn artist_refusal(
    ctx: ArtistWithdraw,
    ledger: Result<Seq<u8>, AddressError>,
) -> Option<WithdrawError> {
    match ledger {
        Err(e) => Some(WithdrawError::Address(e)),
        Ok(address) => if address != ctx.artist_balance_ledger_key@ {
            Some(WithdrawError::Code(ErrorCode::InvalidBalanceLedger))
        } else if !has_row(ctx.artist_balance_ledger@, ctx.artist_account) {
            Some(WithdrawError::Code(ErrorCode::InvalidArtist))
        } else {
            None
        },
    }
}

/// Whether `r` and `after` are what the withdrawal `before` comes to, where
/// `ledger` is what deriving the NFT ledger's address gave.
pub open spec fn member_settled(
    before: MemberWithdraw,
    ledger: Result<Seq<u8>, AddressError>,
    after: MemberWithdraw,
    r: Result<Payout, WithdrawError>,
) -> bool {
    match r {
        Ok(payout) => {
            &&& member_refusal(before, ledger) is None
            &&& owed(before.nft_balance_ledger@, before.nft) <= u64::MAX
            &&& is_payout(
                payout,
                before.pda_vault,
                before.to,
                owed(before.nft_balance_ledger@, before.nft) as u64,
            )
            &&& after.nft_balance_ledger@ == swept(before.nft_balance_ledger@, before.nft)
            &&& after == (MemberWithdraw { nft_balance_ledger: after.nft_balance_ledger, ..before })
        },
        Err(e) => member_refusal(before, ledger) == Some(e) && after == before,
    }
}

/// Whether `r` and `after` are what the withdrawal `before` comes to, where
/// `ledger` is what deriving the artist ledger's address gave.
pub open spec fn artist_settled(
    before: ArtistWithdraw,
    ledger: Result<Seq<u8>, AddressError>,
    after: ArtistWithdraw,
    r: Result<Payout, WithdrawError>,
) -> bool {
    match r {
        Ok(payout) => {
            &&& artist_refusal(before, ledger) is None
            &&& owed(before.artist_balance_ledger@, before.artist_account) <= u64::MAX
            &&& is_payout(
                payout,
                before.pda_vault,
                before.artist_account,
                owed(before.artist_balance_ledger@, before.artist_account) as u64,
            )
            &&& after.artist_balance_ledger@ == swept(
                before.artist_balance_ledger@,
                before.artist_account,
            )
            &&& after == (ArtistWithdraw {
                artist_balance_ledger: after.artist_balance_ledger,
                ..before
            })
        },
        Err(e) => artist_refusal(before, ledger) == Some(e) && after == before,
    }
}

/// A withdrawal for an NFT that follows another at once moves nothing: the
/// first one took what was owed. Where the first one was refused, so is the
/// second, for the same reason, and nothing has changed.
pub proof fn lemma_member_withdraws_once(
    before: MemberWithdraw,
    ledger: Result<Seq<u8>, AddressError>,
    between: MemberWithdraw,
    first: Result<Payout, WithdrawError>,
    after: MemberWithdraw,
    second: Result<Payout, WithdrawError>,
)
    requires
        member_settled(before, ledger, between, first),
        member_settled(between, ledger, after, second),
    ensures
        first is Err ==> second is Err && second->Err_0 == first->Err_0 && after == before,
        first is Ok ==> second is Ok && is_payout(second->Ok_0, before.pda_vault, before.to, 0)
            && after.nft_balance_ledger@ == between.nft_balance_ledger@,
{
    lemma_swept_owes_nothing(before.nft_balance_ledger@, before.nft);
}

/// A withdrawal for an artist that follows another at once moves nothing:
/// the first one took what was owed. Where the first one was refused, so is
/// the second, for the same reason, and nothing has changed.
pub proof fn lemma_artist_withdraws_once(
    before: ArtistWithdraw,
    ledger: Result<Seq<u8>, AddressError>,
    between: ArtistWithdraw,
    first: Result<Payout, WithdrawError>,
    after: ArtistWithdraw,
    second: Result<Payout, WithdrawError>,
)
    requires
        artist_settled(before, ledger, between, first),
        artist_settled(between, ledger, after, second),
    ensures
        first is Err ==> second is Err && second->Err_0 == first->Err_0 && after == before,
        first is Ok ==> second is Ok && is_payout(
            second->Ok_0,
            before.pda_vault,
            before.artist_account,
            0,
        ) && after.artist_balance_ledger@ == between.artist_balance_ledger@,
{
    lemma_swept_owes_nothing(before.artist_balance_ledger@, before.artist_account);
}

/// Nobody withdraws on a holding that belongs to someone else: the
/// withdrawal is refused and nothing changes. Where the checks before that
/// one pass, the reason given is `NftNotOwnedByWithdrawer`.
pub proof fn lemma_only_the_owner_withdraws(
    before: MemberWithdraw,
    ledger: Result<Seq<u8>, AddressError>,
    after: MemberWithdraw,
    r: Result<Payout, WithdrawError>,
)
    requires
        member_settled(before, ledger, after, r),
        before.to != before.nft_associated_account.owner,
    ensures
        r is Err,
        after == before,
        ledger == Ok::<Seq<u8>, AddressError>(before.nft_balance_ledger_key@)
            && before.nft_associated_account.mint == before.nft
            && before.nft_associated_account.amount != 0 ==> r == Err::<Payout, WithdrawError>(
            WithdrawError::Code(ErrorCode::NftNotOwnedByWithdrawer),
        ),
{
}

/// Settles the withdrawal of the holder of an NFT, given what deriving the
/// NFT ledger's address gave.
///
/// The checks, in this order: the address was derived; the ledger presented
/// lives there; the holding is of this NFT; it holds something; it belongs to
/// the withdrawer; the NFT has a row. Where one fails nothing changes.
/// Otherwise the NFT's first row is set to nothing owed and the payout
/// returned moves what it was owed from the vault to the withdrawer.
pub fn member_withdraw_at(ctx: &mut MemberWithdraw, ledger: Result<Address, AddressError>) -> (r:
    Result<Payout, WithdrawError>)
    ensures
        member_settled(*old(ctx), by_bytes(ledger), *final(ctx), r),
{
    let nft_ledger_pda = match ledger {
        Ok(address) => address,
        Err(e) => {
            return Err(WithdrawError::Address(e));
        },
    };
    proof {
        lemma_same_bytes(nft_ledger_pda, ctx.nft_balance_ledger_key);
    }
    if nft_ledger_pda != ctx.nft_balance_ledger_key {
        return Err(WithdrawError::Code(ErrorCode::InvalidBalanceLedger));
    }
    if ctx.nft_associated_account.mint != ctx.nft {
        return Err(WithdrawError::Code(ErrorCode::InvalidNftAssociatedAccount));
    }
    if ctx.nft_associated_account.amount == 0 {
        return Err(WithdrawError::Code(ErrorCode::AssociatedAccountBalanceZero));
    }
    if ctx.to != ctx.nft_associated_account.owner {
        return Err(WithdrawError::Code(ErrorCode::NftNotOwnedByWithdrawer));
    }
    let amount = match ctx.nft_balance_ledger.empty_royalties_balance_for_nft(ctx.nft) {
        Ok(amount) => amount,
        Err(e) => {
            return Err(WithdrawError::Code(e));
        },
    };
    Ok(
        Payout {
            instruction: transfer(&ctx.pda_vault, &ctx.to, amount),
            signer_seed: VAULT_SEED,
            signer_bump: VAULT_BUMP,
        },
    )
}

/// Settles the withdrawal of an artist, given what deriving the artist
/// ledger's address gave.
///
/// The checks, in this order: the address was derived; the ledger presented
/// lives there; the artist has a row. Where one fails nothing changes.
/// Otherwise the artist's first row is set to nothing owed and the payout
/// returned moves what it was owed from the vault to the artist.
pub fn artist_withdraw_at(ctx: &mut ArtistWithdraw, ledger: Result<Address, AddressError>) -> (r:
    Result<Payout, WithdrawError>)
    ensures
        artist_settled(*old(ctx), by_bytes(ledger), *final(ctx), r),
{
    let artist_ledger_pda = match ledger {
        Ok(address) => address,
        Err(e) => {
            return Err(WithdrawError::Address(e));
        },
    };
    proof {
        lemma_same_bytes(artist_ledger_pda, ctx.artist_balance_ledger_key);
    }
    if artist_ledger_pda != ctx.artist_balance_ledger_key {
        return Err(WithdrawError::Code(ErrorCode::InvalidBalanceLedger));
    }
    let amount = match ctx.artist_balance_ledger.empty_royalties_balance_for_artist(
        ctx.artist_account,
    ) {
        Ok(amount) => amount,
        Err(e) => {
            return Err(WithdrawError::Code(e));
        },
    };
    Ok(
        Payout {
            instruction: transfer(&ctx.pda_vault, &ctx.artist_account, amount),
            signer_seed: VAULT_SEED,
            signer_bump: VAULT_BUMP,
        },
    )
}

/// Withdraws what the NFT ledger owes to `ctx.nft`, for the holder of that
/// NFT: derives the address of the NFT ledger's account and settles the
/// withdrawal against it, as `member_withdraw_at` says.
pub fn member_withdraw(ctx: &mut MemberWithdraw) -> (r: Result<Payout, WithdrawError>)
    ensures
        member_settled(
            *old(ctx),
            derivation(NFT_LEDGER_SEED, NFT_LEDGER_BUMP, ID@),
            *final(ctx),
            r,
        ),
{
    let ledger = derive_address(NFT_LEDGER_SEED, NFT_LEDGER_BUMP, &id());
    member_withdraw_at(ctx, ledger)
}

/// Withdraws what the artist ledger owes to `ctx.artist_account`: derives
/// the address of the artist ledger's account and settles the withdrawal
/// against it, as `artist_withdraw_at` says.
pub fn artist_withdraw(ctx: &mut ArtistWithdraw) -> (r: Result<Payout, WithdrawError>)
    ensures
        artist_settled(
            *old(ctx),
            derivation(ARTIST_LEDGER_SEED, ARTIST_LEDGER_BUMP, ID@),
            *final(ctx),
            r,
        ),
{
    let ledger = derive_address(ARTIST_LEDGER_SEED, ARTIST_LEDGER_BUMP, &id());
    artist_withdraw_at(ctx, ledger)
}

} // verus!
