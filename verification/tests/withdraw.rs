use anchor_lang::solana_program::pubkey::Pubkey;
use nft_vault::address::Address;
use nft_vault::artist_ledger::{ArtistBalance, ArtistBalanceLedger};
use nft_vault::error::ErrorCode;
use nft_vault::instruction::{AccountMeta, Instruction};
use nft_vault::nft_ledger::{NftBalance, NftBalanceLedger};
use nft_vault::program::{id, AddressError, ID};
use nft_vault::withdraw::{
    artist_withdraw, artist_withdraw_at, member_withdraw, member_withdraw_at, ArtistWithdraw,
    MemberWithdraw, Payout, TokenHolding, WithdrawError,
};

fn address(tag: u8) -> Address {
    Address { bytes: [tag; 32] }
}

fn nft(tag: u8, royalties_balance: u64) -> NftBalance {
    NftBalance { nft_address: address(tag), royalties_balance }
}

fn artist(tag: u8, royalties_balance: u64) -> ArtistBalance {
    ArtistBalance { artist_address: address(tag), royalties_balance }
}

const HOLDER: u8 = 100;
const VAULT: u8 = 101;
const LEDGER: u8 = 102;

/// The holder of NFT 2 withdraws; the ledger owes 11, 22 and 33 to NFTs 1, 2 and 3.
fn member() -> MemberWithdraw {
    MemberWithdraw {
        to: address(HOLDER),
        pda_vault: address(VAULT),
        nft: address(2),
        nft_associated_account: TokenHolding {
            mint: address(2),
            owner: address(HOLDER),
            amount: 1,
        },
        nft_balance_ledger_key: address(LEDGER),
        nft_balance_ledger: nft_rows(vec![nft(1, 11), nft(2, 22), nft(3, 33)]),
    }
}

/// Artist 2 withdraws; the ledger owes 600 and 400 to artists 1 and 2.
fn for_artist() -> ArtistWithdraw {
    ArtistWithdraw {
        artist_account: address(2),
        pda_vault: address(VAULT),
        artist_balance_ledger_key: address(LEDGER),
        artist_balance_ledger: artist_rows(vec![artist(1, 600), artist(2, 400)]),
    }
}

fn nft_rows(rows: Vec<NftBalance>) -> NftBalanceLedger {
    let size = rows.len() as u64;
    NftBalanceLedger::from_parts(rows, size).unwrap()
}

fn artist_rows(rows: Vec<ArtistBalance>) -> ArtistBalanceLedger {
    let size = rows.len() as u64;
    ArtistBalanceLedger::from_parts(rows, size).unwrap()
}

/// The transfer of `lamports` from the vault to `to`.
fn transfer(to: u8, lamports: u64) -> Instruction {
    let mut data = vec![2, 0, 0, 0];
    data.extend_from_slice(&lamports.to_le_bytes());
    Instruction {
        program_id: Address { bytes: [0; 32] },
        accounts: vec![
            AccountMeta { pubkey: address(VAULT), is_signer: true, is_writable: true },
            AccountMeta { pubkey: address(to), is_signer: false, is_writable: true },
        ],
        data,
    }
}

/// Checks that `r` pays `lamports` from the vault to `to`, signed for the vault.
fn assert_pays(r: Result<Payout, WithdrawError>, to: u8, lamports: u64) {
    let payout = r.unwrap();
    assert_eq!(payout.instruction(), &transfer(to, lamports));
    assert_eq!(payout.signer_seed(), "vault");
    assert_eq!(payout.signer_bump(), 255);
}

fn refused(code: ErrorCode) -> Result<Payout, WithdrawError> {
    Err(WithdrawError::Code(code))
}

#[test]
fn a_holder_withdraws_what_the_nft_is_owed() {
    let mut ctx = member();
    assert_pays(member_withdraw_at(&mut ctx, Ok(address(LEDGER))), HOLDER, 22);
    assert_eq!(ctx.nft_balance_ledger.nft_balances(), &vec![nft(1, 11), nft(2, 0), nft(3, 33)]);
    let mut unchanged = member();
    unchanged.nft_balance_ledger = nft_rows(vec![nft(1, 11), nft(2, 0), nft(3, 33)]);
    assert_eq!(ctx, unchanged);
}

#[test]
fn a_holder_who_withdraws_twice_gets_nothing_the_second_time() {
    let mut ctx = member();
    assert_pays(member_withdraw_at(&mut ctx, Ok(address(LEDGER))), HOLDER, 22);
    assert_pays(member_withdraw_at(&mut ctx, Ok(address(LEDGER))), HOLDER, 0);
    assert_eq!(ctx.nft_balance_ledger.nft_balances(), &vec![nft(1, 11), nft(2, 0), nft(3, 33)]);
}

#[test]
fn no_withdrawal_without_a_ledger_address() {
    let mut ctx = member();
    assert_eq!(
        member_withdraw_at(&mut ctx, Err(AddressError::InvalidSeeds)),
        Err(WithdrawError::Address(AddressError::InvalidSeeds))
    );
    assert_eq!(
        member_withdraw_at(&mut ctx, Err(AddressError::MaxSeedLengthExceeded)),
        Err(WithdrawError::Address(AddressError::MaxSeedLengthExceeded))
    );
    assert_eq!(
        member_withdraw_at(&mut ctx, Err(AddressError::IllegalOwner)),
        Err(WithdrawError::Address(AddressError::IllegalOwner))
    );
    assert_eq!(ctx, member());
}

#[test]
fn a_ledger_at_another_address_is_refused() {
    let mut ctx = member();
    ctx.nft_balance_ledger_key = address(LEDGER + 1);
    assert_eq!(
        member_withdraw_at(&mut ctx, Ok(address(LEDGER))),
        refused(ErrorCode::InvalidBalanceLedger)
    );
    assert_eq!(ctx.nft_balance_ledger, member().nft_balance_ledger);
}

#[test]
fn an_address_that_differs_in_its_last_byte_is_another_address() {
    let mut ctx = member();
    let mut near = [LEDGER; 32];
    near[31] = LEDGER + 1;
    assert_eq!(
        member_withdraw_at(&mut ctx, Ok(Address { bytes: near })),
        refused(ErrorCode::InvalidBalanceLedger)
    );
}

#[test]
fn a_holding_of_another_mint_is_refused() {
    let mut ctx = member();
    ctx.nft_associated_account.mint = address(3);
    assert_eq!(
        member_withdraw_at(&mut ctx, Ok(address(LEDGER))),
        refused(ErrorCode::InvalidNftAssociatedAccount)
    );
    assert_eq!(ctx.nft_balance_ledger, member().nft_balance_ledger);
}

#[test]
fn an_empty_holding_is_refused() {
    let mut ctx = member();
    ctx.nft_associated_account.amount = 0;
    assert_eq!(
        member_withdraw_at(&mut ctx, Ok(address(LEDGER))),
        refused(ErrorCode::AssociatedAccountBalanceZero)
    );
    assert_eq!(ctx.nft_balance_ledger, member().nft_balance_ledger);
}

#[test]
fn a_holding_of_someone_else_is_refused_and_changes_nothing() {
    let mut ctx = member();
    ctx.nft_associated_account.owner = address(HOLDER + 1);
    let before = member().nft_balance_ledger;
    assert_eq!(
        member_withdraw_at(&mut ctx, Ok(address(LEDGER))),
        refused(ErrorCode::NftNotOwnedByWithdrawer)
    );
    assert_eq!(ctx.nft_balance_ledger, before);
    assert_eq!(ctx.nft_balance_ledger.nft_balances()[1].royalties_balance, 22);
}

#[test]
fn an_nft_without_a_row_is_refused() {
    let mut ctx = member();
    ctx.nft = address(9);
    ctx.nft_associated_account.mint = address(9);
    assert_eq!(member_withdraw_at(&mut ctx, Ok(address(LEDGER))), refused(ErrorCode::InvalidNft));
    assert_eq!(ctx.nft_balance_ledger, member().nft_balance_ledger);
}

#[test]
fn the_checks_of_a_withdrawal_come_in_order() {
    let mut ctx = member();
    ctx.nft = address(9);
    ctx.nft_associated_account = TokenHolding { mint: address(8), owner: address(7), amount: 0 };
    ctx.nft_balance_ledger_key = address(6);
    assert_eq!(
        member_withdraw_at(&mut ctx, Err(AddressError::InvalidSeeds)),
        Err(WithdrawError::Address(AddressError::InvalidSeeds))
    );
    assert_eq!(
        member_withdraw_at(&mut ctx, Ok(address(LEDGER))),
        refused(ErrorCode::InvalidBalanceLedger)
    );
    ctx.nft_balance_ledger_key = address(LEDGER);
    assert_eq!(
        member_withdraw_at(&mut ctx, Ok(address(LEDGER))),
        refused(ErrorCode::InvalidNftAssociatedAccount)
    );
    ctx.nft_associated_account.mint = address(9);
    assert_eq!(
        member_withdraw_at(&mut ctx, Ok(address(LEDGER))),
        refused(ErrorCode::AssociatedAccountBalanceZero)
    );
    ctx.nft_associated_account.amount = 5;
    assert_eq!(
        member_withdraw_at(&mut ctx, Ok(address(LEDGER))),
        refused(ErrorCode::NftNotOwnedByWithdrawer)
    );
    ctx.nft_associated_account.owner = address(HOLDER);
    assert_eq!(member_withdraw_at(&mut ctx, Ok(address(LEDGER))), refused(ErrorCode::InvalidNft));
}

#[test]
fn an_artist_withdraws_what_is_owed() {
    let mut ctx = for_artist();
    assert_pays(artist_withdraw_at(&mut ctx, Ok(address(LEDGER))), 2, 400);
    assert_eq!(ctx.artist_balance_ledger.artist_balances(), &vec![artist(1, 600), artist(2, 0)]);
    assert_pays(artist_withdraw_at(&mut ctx, Ok(address(LEDGER))), 2, 0);
    assert_eq!(ctx.artist_balance_ledger.artist_balances(), &vec![artist(1, 600), artist(2, 0)]);
    assert_eq!(ctx.artist_account, address(2));
    assert_eq!(ctx.pda_vault, address(VAULT));
    assert_eq!(ctx.artist_balance_ledger_key, address(LEDGER));
}

#[test]
fn an_artist_withdrawal_is_refused_in_order() {
    let mut ctx = for_artist();
    ctx.artist_account = address(5);
    ctx.artist_balance_ledger_key = address(6);
    assert_eq!(
        artist_withdraw_at(&mut ctx, Err(AddressError::InvalidSeeds)),
        Err(WithdrawError::Address(AddressError::InvalidSeeds))
    );
    assert_eq!(
        artist_withdraw_at(&mut ctx, Ok(address(LEDGER))),
        refused(ErrorCode::InvalidBalanceLedger)
    );
    ctx.artist_balance_ledger_key = address(LEDGER);
    assert_eq!(
        artist_withdraw_at(&mut ctx, Ok(address(LEDGER))),
        refused(ErrorCode::InvalidArtist)
    );
    assert_eq!(ctx.artist_balance_ledger, for_artist().artist_balance_ledger);
}

#[test]
fn a_payout_is_signed_for_the_vault() {
    let mut ctx = member();
    let paid = member_withdraw_at(&mut ctx, Ok(address(LEDGER))).unwrap();
    assert_eq!(paid.signer_seed(), nft_vault::program::VAULT_SEED);
    assert_eq!(paid.signer_bump(), nft_vault::program::VAULT_BUMP);
    assert_eq!(paid.instruction().data, vec![2, 0, 0, 0, 22, 0, 0, 0, 0, 0, 0, 0]);
    assert_eq!(paid.instruction().accounts[0].pubkey, address(VAULT));
    assert!(paid.instruction().accounts[0].is_signer);
    assert_eq!(paid.instruction().accounts[1].pubkey, address(HOLDER));
    assert!(!paid.instruction().accounts[1].is_signer);
}

#[test]
fn the_seeds_are_the_programs_own() {
    assert_eq!(nft_vault::program::VAULT_SEED, "vault");
    assert_eq!(nft_vault::program::ARTIST_LEDGER_SEED, "artist-ledger");
    assert_eq!(nft_vault::program::NFT_LEDGER_SEED, "nft-ledger");
    assert_eq!(nft_vault::program::COLLECTION_CONFIG_SEED, "collection-config");
    assert_eq!(nft_vault::program::VAULT_BUMP, 255);
    assert_eq!(nft_vault::program::ARTIST_LEDGER_BUMP, 255);
    assert_eq!(nft_vault::program::NFT_LEDGER_BUMP, 255);
    assert_eq!(nft_vault::program::COLLECTION_CONFIG_BUMP, 254);
    assert_eq!(nft_vault::program::MAX_SEED_LEN, 32);
}

#[test]
fn the_program_has_the_address_it_was_given() {
    let expected: Pubkey = "5GL4DTAqK5j4MFWkdrf51TGGvcFePMuLrDSpnAvfNgqT".parse().unwrap();
    assert_eq!(id().bytes, expected.to_bytes());
    assert_eq!(ID, expected.to_bytes());
}

fn derived(seed: &[u8]) -> Result<Address, AddressError> {
    match Pubkey::create_program_address(&[seed, &[255]], &Pubkey::new_from_array(ID)) {
        Ok(key) => Ok(Address { bytes: key.to_bytes() }),
        Err(_) => Err(AddressError::InvalidSeeds),
    }
}

#[test]
fn a_holder_withdraws_from_the_ledger_at_the_derived_address() {
    let ledger = derived(b"nft-ledger");
    let mut ctx = member();
    match ledger {
        Ok(key) => {
            ctx.nft_balance_ledger_key = key;
            assert_pays(member_withdraw(&mut ctx), HOLDER, 22);
            assert_eq!(ctx.nft_balance_ledger, nft_rows(vec![nft(1, 11), nft(2, 0), nft(3, 33)]));
        }
        Err(e) => {
            assert_eq!(member_withdraw(&mut ctx), Err(WithdrawError::Address(e)));
            assert_eq!(ctx, member());
        }
    }
}

#[test]
fn a_holder_cannot_withdraw_from_a_ledger_elsewhere() {
    let expected = match derived(b"nft-ledger") {
        Ok(_) => refused(ErrorCode::InvalidBalanceLedger),
        Err(e) => Err(WithdrawError::Address(e)),
    };
    let mut ctx = member();
    assert_eq!(member_withdraw(&mut ctx), expected);
    ctx.nft_balance_ledger_key = id();
    assert_eq!(member_withdraw(&mut ctx), expected);
    if let Ok(key) = derived(b"artist-ledger") {
        ctx.nft_balance_ledger_key = key;
        assert_eq!(member_withdraw(&mut ctx), expected);
    }
    assert_eq!(ctx.nft_balance_ledger, member().nft_balance_ledger);
}

#[test]
fn an_artist_withdraws_from_the_ledger_at_the_derived_address() {
    let ledger = derived(b"artist-ledger");
    let mut ctx = for_artist();
    match ledger {
        Ok(key) => {
            ctx.artist_balance_ledger_key = key;
            assert_pays(artist_withdraw(&mut ctx), 2, 400);
            assert_eq!(ctx.artist_balance_ledger, artist_rows(vec![artist(1, 600), artist(2, 0)]));
        }
        Err(e) => {
            assert_eq!(artist_withdraw(&mut ctx), Err(WithdrawError::Address(e)));
            assert_eq!(ctx, for_artist());
        }
    }
}

#[test]
fn an_artist_cannot_withdraw_from_a_ledger_elsewhere() {
    let expected = match derived(b"artist-ledger") {
        Ok(_) => refused(ErrorCode::InvalidBalanceLedger),
        Err(e) => Err(WithdrawError::Address(e)),
    };
    let mut ctx = for_artist();
    assert_eq!(artist_withdraw(&mut ctx), expected);
    ctx.artist_balance_ledger_key = id();
    assert_eq!(artist_withdraw(&mut ctx), expected);
    assert_eq!(ctx.artist_balance_ledger, for_artist().artist_balance_ledger);
}

#[test]
fn the_ledgers_addresses_can_be_derived() {
    assert!(derived(b"nft-ledger").is_ok());
    assert!(derived(b"artist-ledger").is_ok());
}
