//! Why an operation was refused.

use vstd::prelude::*;

verus! {

/// The reasons for which the vault's own rules refuse an operation.
#[derive(Clone, Copy, Debug, PartialEq, Eq, Structural)]
pub enum ErrorCode {
    /// The NFT has no row in the NFT ledger.
    InvalidNft,
    /// The artist has no row in the artist ledger.
    InvalidArtist,
    /// The ledger account presented is not the one derived for this program.
    InvalidBalanceLedger,
    /// The withdrawer is not the NFT owner.
    InvalidWithdrawer,
    /// Royalties cannot be spread over an NFT ledger without rows.
    InvalidRoyaltiesDistribution,
    /// The token holding presented is for another mint than the NFT.
    InvalidNftAssociatedAccount,
    /// The token holding presented holds nothing.
    AssociatedAccountBalanceZero,
    /// The token holding presented belongs to someone else than the withdrawer.
    NftNotOwnedByWithdrawer,
    /// A pair of percentages, or the artists' shares, do not add up to 100%.
    InvalidCollectionConfig,
    /// The caller is not the collection's authority.
    MissingCollectionAuthoritySignature,
    /// The artist ledger has no rows.
    ArtistLedgerNotInitialized,
}

impl ErrorCode {
    /// What to tell the caller.
    pub fn message(&self) -> (text: &'static str)
        ensures
            text@ == match *self {
                ErrorCode::InvalidNft => "Error: NFT address not found in ledger"@,
                ErrorCode::InvalidArtist => "Error: Artist address not found in ledger"@,
                ErrorCode::InvalidBalanceLedger => "Error: Invalid Balance Ledger Address"@,
                ErrorCode::InvalidWithdrawer => "Error: Withdrawer is not the NFT owner"@,
                ErrorCode::InvalidRoyaltiesDistribution =>
                    "Error: Unable to distribute royalties as no NFTs have been minted"@,
                ErrorCode::InvalidNftAssociatedAccount =>
                    "Error: Incorrect associated account for nft"@,
                ErrorCode::AssociatedAccountBalanceZero =>
                    "Error: Associated account has a balance of zero"@,
                ErrorCode::NftNotOwnedByWithdrawer => "Error: NFT is not owned by withdrawer"@,
                ErrorCode::InvalidCollectionConfig =>
                    "Error: Invalid Collection Config parameters"@,
                ErrorCode::MissingCollectionAuthoritySignature =>
                    "Error: Missing Collection Authority Signature"@,
                ErrorCode::ArtistLedgerNotInitialized => "Error: Artist Ledger not initialized"@,
            },
    {
        match self {
            ErrorCode::InvalidNft => "Error: NFT address not found in ledger",
            ErrorCode::InvalidArtist => "Error: Artist address not found in ledger",
            ErrorCode::InvalidBalanceLedger => "Error: Invalid Balance Ledger Address",
            ErrorCode::InvalidWithdrawer => "Error: Withdrawer is not the NFT owner",
            ErrorCode::InvalidRoyaltiesDistribution =>
                "Error: Unable to distribute royalties as no NFTs have been minted",
            ErrorCode::InvalidNftAssociatedAccount => "Error: Incorrect associated account for nft",
            ErrorCode::AssociatedAccountBalanceZero =>
                "Error: Associated account has a balance of zero",
            ErrorCode::NftNotOwnedByWithdrawer => "Error: NFT is not owned by withdrawer",
            ErrorCode::InvalidCollectionConfig => "Error: Invalid Collection Config parameters",
            ErrorCode::MissingCollectionAuthoritySignature =>
                "Error: Missing Collection Authority Signature",
            ErrorCode::ArtistLedgerNotInitialized => "Error: Artist Ledger not initialized",
        }
    }
}

} // verus!
