//! Royalty accounting for an NFT collection with a shared custodial vault.
//!
//! A collection has a label and one or more artists. What mints pay and what
//! the label is paid goes into one vault; two ledgers say how much of the
//! vault each artist and each NFT is owed. A beneficiary withdraws what the
//! ledger owes them, once.
//!
//! The host calls the operations of [`collection`] and [`withdraw`] on the
//! state it keeps, and carries out the transfers that they hand back. The
//! library decides; it does no input or output.
//!
//! - [`split`]: basis points and what a list of splits gives out.
//! - [`config`]: the terms of a collection, which always add up.
//! - [`ledger`]: the rows of a ledger as contracts see them.
//! - [`artist_ledger`], [`nft_ledger`]: the two ledgers.
//! - [`program`]: the program's address and the addresses derived from it.
//! - [`instruction`]: transfers of the system program.
//! - [`collection`]: making a collection, registering NFTs, paying the label.
//! - [`withdraw`]: the two withdrawals.
//! - [`custody`]: the vault's balance followed through any order of calls.

pub mod address;
pub mod artist_ledger;
pub mod collection;
pub mod config;
pub mod custody;
pub mod error;
pub mod instruction;
pub mod ledger;
pub mod nft_ledger;
pub mod program;
pub mod split;
pub mod withdraw;

pub use address::Address;
pub use artist_ledger::{ArtistBalance, ArtistBalanceLedger};
pub use collection::{
    add_nft, distribute_secondary_pool, initialize_collection, pay_label, pay_licensing_fee,
    AddNft, DistributeSecondaryPool, InitializeCollection, PayLabel, PayLicensingFee,
};
pub use config::CollectionConfiguration;
pub use error::ErrorCode;
pub use nft_ledger::{NftBalance, NftBalanceLedger};
pub use split::ArtistPercentage;
pub use withdraw::{artist_withdraw, member_withdraw, ArtistWithdraw, MemberWithdraw};
