//! The program's own address, and the addresses that only it controls.
//!
//! The vault and the accounts that hold the ledgers and the terms live at
//! addresses derived from a fixed seed, a bump and the program's address. No
//! private key belongs to such an address: only the program can move what is
//! held there.

use vstd::prelude::*;
use vstd::string::StringSliceAdditionalSpecFns;
use anchor_lang::solana_program::pubkey::{Pubkey, PubkeyError};
use crate::address::Address;

verus! {

/// The address of this program: `5GL4DTAqK5j4MFWkdrf51TGGvcFePMuLrDSpnAvfNgqT`
/// in base 58.
pub const ID: [u8; 32] = [
    63, 92, 1, 129, 86, 70, 240, 99, 195, 70, 159, 12, 21, 211, 176, 64, 115, 153, 164, 112, 26,
    183, 230, 117, 150, 180, 55, 235, 80, 235, 44, 254,
];

/// Seed of the vault's address.
pub const VAULT_SEED: &'static str = "vault";

/// Seed of the address of the account that holds the artist ledger.
pub const ARTIST_LEDGER_SEED: &'static str = "artist-ledger";

/// Seed of the address of the account that holds the NFT ledger.
pub const NFT_LEDGER_SEED: &'static str = "nft-ledger";

/// Seed of the address of the account that holds the collection's terms.
pub const COLLECTION_CONFIG_SEED: &'static str = "collection-config";

/// Bump of the vault's address.
pub const VAULT_BUMP: u8 = 255;

/// Bump of the address of the account that holds the artist ledger.
pub const ARTIST_LEDGER_BUMP: u8 = 255;

/// Bump of the address of the account that holds the NFT ledger.
pub const NFT_LEDGER_BUMP: u8 = 255;

/// Bump of the address of the account that holds the collection's terms.
pub const COLLECTION_CONFIG_BUMP: u8 = 254;

/// The longest seed, in bytes, that an address can be derived from.
pub const MAX_SEED_LEN: usize = 32;

/// Why no address could be derived.
#[derive(Clone, Copy, Debug, PartialEq, Eq, Structural)]
pub enum AddressError {
    /// A seed is longer than `MAX_SEED_LEN` bytes.
    MaxSeedLengthExceeded,
    /// The seeds lead to an address that a private key could belong to.
    InvalidSeeds,
    /// The owner given is not allowed.
    IllegalOwner,
}

/// The program-controlled address that the bytes of a seed, a bump and a
/// program's address lead to; `None` where they lead to a point of the
/// ed25519 curve, which is no such address.
pub uninterp spec fn program_address(seed: Seq<u8>, bump: u8, program_id: Seq<u8>) -> Option<
    Seq<u8>,
>;

/// The address that the seeds lead to, where they lead to one; the refusal
/// of seeds that lead to none.
pub open spec fn off_curve(found: Option<Seq<u8>>) -> Result<Seq<u8>, AddressError> {
    match found {
        Some(address) => Ok(address),
        None => Err(AddressError::InvalidSeeds),
    }
}

/// What deriving an address from `seed`, `bump` and `program_id` gives: a
/// seed that is too long is refused before anything is derived.
pub open spec fn derivation(seed: &str, bump: u8, program_id: Seq<u8>) -> Result<
    Seq<u8>,
    AddressError,
> {
    if seed.spec_bytes().len() > MAX_SEED_LEN {
        Err(AddressError::MaxSeedLengthExceeded)
    } else {
        off_curve(program_address(seed.spec_bytes(), bump, program_id))
    }
}

/// A derived address, or the failure to derive one, with the address taken
/// by its bytes.
pub open spec fn by_bytes(derived: Result<Address, AddressError>) -> Result<Seq<u8>, AddressError> {
    match derived {
        Ok(address) => Ok(address@),
        Err(e) => Err(e),
    }
}

/// The address of this program.
pub fn id() -> (program_id: Address)
    ensures
        program_id@ == ID@,
{
    Address { bytes: ID }
}

/// Calls `Pubkey::create_program_address` with the two seeds `seed` and
/// `[bump]`.
///
/// Trusted: for a seed of at most `MAX_SEED_LEN` bytes that function hashes
/// the seeds, the program's address and a marker, refuses with
/// `InvalidSeeds` where the hash is a point of the curve, and returns the
/// hash as the address where it is not. The result depends on the three
/// arguments alone.
#[verifier::external_body]
fn create_program_address(seed: &str, bump: u8, program_id: &Address) -> (r: Result<
    Address,
    AddressError,
>)
    requires
        seed.spec_bytes().len() <= MAX_SEED_LEN,
    ensures
        by_bytes(r) == off_curve(program_address(seed.spec_bytes(), bump, program_id@)),
{
    let program = Pubkey::new_from_array(program_id.bytes);
    match Pubkey::create_program_address(&[seed.as_bytes(), &[bump]], &program) {
        Ok(key) => Ok(Address { bytes: key.to_bytes() }),
        Err(PubkeyError::MaxSeedLengthExceeded) => Err(AddressError::MaxSeedLengthExceeded),
        Err(PubkeyError::InvalidSeeds) => Err(AddressError::InvalidSeeds),
        Err(PubkeyError::IllegalOwner) => Err(AddressError::IllegalOwner),
    }
}

/// Derives the address that only the program `program_id` controls from
/// `seed` and `bump`.
pub fn derive_address(seed: &str, bump: u8, program_id: &Address) -> (r: Result<
    Address,
    AddressError,
>)
    ensures
        by_bytes(r) == derivation(seed, bump, program_id@),
{
    if seed.as_bytes().len() > MAX_SEED_LEN {
        return Err(AddressError::MaxSeedLengthExceeded);
    }
    create_program_address(seed, bump, program_id)
}

} // verus!
