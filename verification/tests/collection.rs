use anchor_lang::solana_program::pubkey::Pubkey;
use anchor_lang::solana_program::system_instruction;
use nft_vault::address::Address;
use nft_vault::artist_ledger::{ArtistBalance, ArtistBalanceLedger};
use nft_vault::collection::{
    add_nft, add_nft_has_room, distribute_secondary_pool, initialize_collection, pay_label,
    pay_label_has_room, pay_licensing_fee, AddNft, DistributeSecondaryPool, InitializeCollection,
    PayLabel, PayLicensingFee,
};
use nft_vault::config::CollectionConfiguration;
use nft_vault::error::ErrorCode;
use nft_vault::instruction::{AccountMeta, Instruction};
use nft_vault::nft_ledger::{NftBalance, NftBalanceLedger};
use nft_vault::split::ArtistPercentage;

fn address(tag: u8) -> Address {
    Address { bytes: [tag; 32] }
}

fn split(tag: u8, allocated_percentage: u64) -> ArtistPercentage {
    ArtistPercentage { artist_address: address(tag), allocated_percentage }
}

fn artist(tag: u8, royalties_balance: u64) -> ArtistBalance {
    ArtistBalance { artist_address: address(tag), royalties_balance }
}

fn nft(tag: u8, royalties_balance: u64) -> NftBalance {
    NftBalance { nft_address: address(tag), royalties_balance }
}

fn nft_ledger(rows: Vec<NftBalance>) -> NftBalanceLedger {
    let size = rows.len() as u64;
    NftBalanceLedger::from_parts(rows, size).unwrap()
}

const AUTHORITY: u8 = 200;
const VAULT: u8 = 201;
const PAYER: u8 = 202;

/// A collection of the authority with the mint pair 70% / 30%.
fn registration(splits: Vec<ArtistPercentage>, nft_tag: u8) -> AddNft {
    let made = make((7000, 3000), (5000, 5000), splits).unwrap();
    AddNft {
        payer: address(PAYER),
        collection_authority: address(AUTHORITY),
        collection_config: made.collection_config,
        artist_balance_ledger: made.artist_balance_ledger,
        nft_balance_ledger: made.nft_balance_ledger,
        nft_address: address(nft_tag),
    }
}

fn owed_to_nfts(ledger: &NftBalanceLedger) -> u64 {
    ledger.nft_balances().iter().map(|row| row.royalties_balance).sum()
}

fn total_owed(ctx: &AddNft) -> u64 {
    let rows = ctx.artist_balance_ledger.artist_balances();
    let artists: u64 = rows.iter().map(|row| row.royalties_balance).sum();
    artists + owed_to_nfts(&ctx.nft_balance_ledger)
}

fn make(
    mint: (u64, u64),
    secondary: (u64, u64),
    splits: Vec<ArtistPercentage>,
) -> Result<InitializeCollection, ErrorCode> {
    initialize_collection(address(AUTHORITY), mint.0, mint.1, secondary.0, secondary.1, splits)
}

fn one_artist() -> Vec<ArtistPercentage> {
    vec![split(1, 10000)]
}

fn as_library_instruction(
    made: anchor_lang::solana_program::instruction::Instruction,
) -> Instruction {
    Instruction {
        program_id: Address { bytes: made.program_id.to_bytes() },
        accounts: made
            .accounts
            .iter()
            .map(|meta| AccountMeta {
                pubkey: Address { bytes: meta.pubkey.to_bytes() },
                is_signer: meta.is_signer,
                is_writable: meta.is_writable,
            })
            .collect(),
        data: made.data,
    }
}

#[test]
fn a_collection_is_made_with_its_terms_and_ledgers() {
    let splits = vec![split(1, 6000), split(2, 4000)];
    let made = make((7000, 3000), (2500, 7500), splits.clone()).unwrap();
    assert_eq!(made.payer, address(AUTHORITY));
    assert_eq!(made.collection_config.collection_authority(), address(AUTHORITY));
    assert_eq!(made.collection_config.artist_mint_percentage(), 7000);
    assert_eq!(made.collection_config.label_mint_percentage(), 3000);
    assert_eq!(made.collection_config.artist_secondary_percentage(), 2500);
    assert_eq!(made.collection_config.label_secondary_percentage(), 7500);
    assert_eq!(made.collection_config.artist_splits(), &splits);
    assert_eq!(made.artist_balance_ledger.artist_balances(), &vec![artist(1, 0), artist(2, 0)]);
    assert_eq!(made.nft_balance_ledger.size(), 0);
}

#[test]
fn a_mint_pair_that_lacks_a_point_is_refused() {
    let r = make((6999, 3000), (5000, 5000), one_artist());
    assert_eq!(r.err(), Some(ErrorCode::InvalidCollectionConfig));
}

#[test]
fn a_mint_pair_with_a_point_too_many_is_refused() {
    let r = make((7000, 3001), (5000, 5000), one_artist());
    assert_eq!(r.err(), Some(ErrorCode::InvalidCollectionConfig));
}

#[test]
fn a_secondary_pair_that_does_not_add_up_is_refused() {
    let low = make((7000, 3000), (5000, 4999), one_artist());
    assert_eq!(low.err(), Some(ErrorCode::InvalidCollectionConfig));
    let high = make((7000, 3000), (5001, 5000), one_artist());
    assert_eq!(high.err(), Some(ErrorCode::InvalidCollectionConfig));
}

#[test]
fn pairs_that_add_up_crosswise_only_are_refused() {
    let r = make((7000, 5000), (5000, 3000), one_artist());
    assert_eq!(r.err(), Some(ErrorCode::InvalidCollectionConfig));
}

#[test]
fn pairs_too_large_to_add_are_refused() {
    let r = make((u64::MAX, 10001), (5000, 5000), one_artist());
    assert_eq!(r.err(), Some(ErrorCode::InvalidCollectionConfig));
    let wrapped = make((u64::MAX - 1, 10002), (5000, 5000), one_artist());
    assert_eq!(wrapped.err(), Some(ErrorCode::InvalidCollectionConfig));
}

#[test]
fn artist_shares_that_do_not_add_up_are_refused() {
    let low = make((7000, 3000), (5000, 5000), vec![split(1, 9999)]);
    assert_eq!(low.err(), Some(ErrorCode::InvalidCollectionConfig));
    let high = make((7000, 3000), (5000, 5000), vec![split(1, 6000), split(2, 4001)]);
    assert_eq!(high.err(), Some(ErrorCode::InvalidCollectionConfig));
    let none = make((7000, 3000), (5000, 5000), vec![]);
    assert_eq!(none.err(), Some(ErrorCode::InvalidCollectionConfig));
    let huge = make((7000, 3000), (5000, 5000), vec![split(1, u64::MAX), split(2, 10001)]);
    assert_eq!(huge.err(), Some(ErrorCode::InvalidCollectionConfig));
}

#[test]
fn the_extremes_of_a_pair_are_accepted() {
    assert!(make((10000, 0), (0, 10000), one_artist()).is_ok());
    let uneven = vec![split(1, 1), split(2, 9999)];
    assert!(CollectionConfiguration::new(address(AUTHORITY), 0, 10000, 10000, 0, uneven).is_ok());
}

#[test]
fn the_first_mint_goes_to_the_artists_alone() {
    let mut ctx = registration(vec![split(1, 10000)], 50);
    assert!(add_nft_has_room(&ctx, 1000));
    assert_eq!(add_nft(&mut ctx, 1000), Ok(()));
    assert_eq!(ctx.artist_balance_ledger.artist_balances(), &vec![artist(1, 1000)]);
    assert_eq!(ctx.nft_balance_ledger.nft_balances(), &vec![nft(50, 0)]);
    assert_eq!(ctx.nft_balance_ledger.size(), 1);
}

#[test]
fn a_later_mint_is_split_between_artists_and_label() {
    let mut ctx = registration(vec![split(1, 6000), split(2, 4000)], 50);
    assert_eq!(add_nft(&mut ctx, 1000), Ok(()));
    assert_eq!(ctx.artist_balance_ledger.artist_balances(), &vec![artist(1, 600), artist(2, 400)]);
    ctx.nft_address = address(51);
    assert_eq!(add_nft(&mut ctx, 1000), Ok(()));
    assert_eq!(ctx.artist_balance_ledger.artist_balances(), &vec![artist(1, 1020), artist(2, 680)]);
    assert_eq!(ctx.nft_balance_ledger.nft_balances(), &vec![nft(50, 300), nft(51, 0)]);
    ctx.nft_address = address(52);
    assert_eq!(add_nft(&mut ctx, 101), Ok(()));
    // 70 to the artists: 42 and 28; 30 to the label: 15 for each of two NFTs.
    assert_eq!(ctx.artist_balance_ledger.artist_balances(), &vec![artist(1, 1062), artist(2, 708)]);
    assert_eq!(ctx.nft_balance_ledger.nft_balances(), &vec![nft(50, 315), nft(51, 15), nft(52, 0)]);
}

#[test]
fn a_registration_by_someone_else_is_refused_and_changes_nothing() {
    let mut ctx = registration(vec![split(1, 10000)], 50);
    assert_eq!(add_nft(&mut ctx, 1000), Ok(()));
    ctx.nft_address = address(51);
    ctx.collection_authority = address(PAYER);
    assert!(add_nft_has_room(&ctx, u64::MAX));
    assert_eq!(add_nft(&mut ctx, 500), Err(ErrorCode::MissingCollectionAuthoritySignature));
    assert_eq!(ctx.artist_balance_ledger.artist_balances(), &vec![artist(1, 1000)]);
    assert_eq!(ctx.nft_balance_ledger.nft_balances(), &vec![nft(50, 0)]);
}

#[test]
fn a_registration_without_artist_rows_is_refused() {
    let mut ctx = registration(vec![split(1, 10000)], 50);
    ctx.artist_balance_ledger = ArtistBalanceLedger::new();
    assert_eq!(add_nft(&mut ctx, 1000), Err(ErrorCode::ArtistLedgerNotInitialized));
    assert_eq!(ctx.artist_balance_ledger.size(), 0);
    assert_eq!(ctx.nft_balance_ledger.size(), 0);
}

#[test]
fn a_registration_by_someone_else_is_refused_before_the_ledger_is_looked_at() {
    let mut ctx = registration(vec![split(1, 10000)], 50);
    ctx.artist_balance_ledger = ArtistBalanceLedger::new();
    ctx.collection_authority = address(1);
    assert_eq!(add_nft(&mut ctx, 1000), Err(ErrorCode::MissingCollectionAuthoritySignature));
}

#[test]
fn a_mint_needs_room_in_the_ledgers() {
    let mut ctx = registration(vec![split(1, 10000)], 50);
    assert!(add_nft_has_room(&ctx, u64::MAX));
    assert_eq!(add_nft(&mut ctx, u64::MAX), Ok(()));
    assert_eq!(ctx.artist_balance_ledger.artist_balances(), &vec![artist(1, u64::MAX)]);
    ctx.nft_address = address(51);
    assert!(add_nft_has_room(&ctx, 1));
    assert!(!add_nft_has_room(&ctx, 2));
    ctx.nft_balance_ledger = nft_ledger(vec![nft(50, u64::MAX)]);
    assert!(add_nft_has_room(&ctx, 1));
    ctx.artist_balance_ledger = ArtistBalanceLedger::from_parts(vec![artist(1, 0)], 1).unwrap();
    assert!(add_nft_has_room(&ctx, 3));
    assert!(!add_nft_has_room(&ctx, 4));
}

#[test]
fn a_payment_to_the_label_is_spread_and_sent_to_the_vault() {
    let mut ctx = PayLabel {
        from: address(PAYER),
        pda_vault: address(VAULT),
        nft_balance_ledger: nft_ledger(vec![nft(1, 0), nft(2, 0), nft(3, 0)]),
    };
    assert!(pay_label_has_room(&ctx, 100));
    let instruction = pay_label(&mut ctx, 100).unwrap();
    assert_eq!(ctx.nft_balance_ledger.nft_balances(), &vec![nft(1, 33), nft(2, 33), nft(3, 33)]);
    assert_eq!(100 - owed_to_nfts(&ctx.nft_balance_ledger), 1);
    assert_eq!(
        instruction,
        Instruction {
            program_id: Address { bytes: [0; 32] },
            accounts: vec![
                AccountMeta { pubkey: address(PAYER), is_signer: true, is_writable: true },
                AccountMeta { pubkey: address(VAULT), is_signer: false, is_writable: true },
            ],
            data: vec![2, 0, 0, 0, 100, 0, 0, 0, 0, 0, 0, 0],
        }
    );
    assert_eq!(ctx.from, address(PAYER));
    assert_eq!(ctx.pda_vault, address(VAULT));
}

#[test]
fn the_instruction_is_the_one_the_system_program_expects() {
    let mut ctx = PayLabel {
        from: address(PAYER),
        pda_vault: address(VAULT),
        nft_balance_ledger: nft_ledger(vec![nft(1, 0)]),
    };
    let amount = 0x0102_0304_0506_0708;
    let instruction = pay_label(&mut ctx, amount).unwrap();
    let expected = system_instruction::transfer(
        &Pubkey::new_from_array([PAYER; 32]),
        &Pubkey::new_from_array([VAULT; 32]),
        amount,
    );
    assert_eq!(instruction, as_library_instruction(expected));
    assert_eq!(instruction.data, vec![2, 0, 0, 0, 8, 7, 6, 5, 4, 3, 2, 1]);
    let system_program = anchor_lang::solana_program::system_program::ID;
    assert_eq!(instruction.program_id.bytes, system_program.to_bytes());
}

#[test]
fn a_payment_to_a_label_without_nfts_is_refused() {
    let mut ctx = PayLabel {
        from: address(PAYER),
        pda_vault: address(VAULT),
        nft_balance_ledger: NftBalanceLedger::new(),
    };
    assert!(pay_label_has_room(&ctx, u64::MAX));
    assert_eq!(pay_label(&mut ctx, 100), Err(ErrorCode::InvalidRoyaltiesDistribution));
    assert_eq!(ctx.nft_balance_ledger.size(), 0);
}

#[test]
fn a_payment_needs_room_in_every_row() {
    let ctx = PayLabel {
        from: address(PAYER),
        pda_vault: address(VAULT),
        nft_balance_ledger: nft_ledger(vec![nft(1, u64::MAX - 5), nft(2, 0)]),
    };
    assert!(pay_label_has_room(&ctx, 11));
    assert!(!pay_label_has_room(&ctx, 12));
}

#[test]
fn the_vault_always_covers_what_the_ledgers_owe() {
    let mut ctx = registration(vec![split(1, 3333), split(2, 3333), split(3, 3334)], 50);
    let mut vault: u64 = 0;
    let mut calls: u64 = 0;
    let payments = [1000u64, 1, 9999, 7, 123_456_789, 3, 10, 0, 77];
    for (i, paid) in payments.iter().enumerate() {
        ctx.nft_address = address(50 + i as u8);
        assert!(add_nft_has_room(&ctx, *paid));
        assert_eq!(add_nft(&mut ctx, *paid), Ok(()));
        vault += *paid;
        calls += 1;
        assert!(total_owed(&ctx) <= vault);

        let mut label = PayLabel {
            from: address(PAYER),
            pda_vault: address(VAULT),
            nft_balance_ledger: ctx.nft_balance_ledger,
        };
        assert!(pay_label_has_room(&label, *paid + 5));
        let instruction = pay_label(&mut label, *paid + 5).unwrap();
        assert_eq!(instruction.data[4..], (*paid + 5).to_le_bytes());
        ctx.nft_balance_ledger = label.nft_balance_ledger;
        vault += *paid + 5;
        calls += 1;

        let recipients = 3 + ctx.nft_balance_ledger.size();
        assert!(total_owed(&ctx) <= vault);
        assert!(vault - total_owed(&ctx) <= calls * recipients);
    }
    assert_eq!(ctx.nft_balance_ledger.size(), 9);
}

#[test]
fn the_secondary_pool_is_accepted_and_changes_nothing() {
    let mut ctx = DistributeSecondaryPool {
        from: address(PAYER),
        pda_vault: address(VAULT),
        nft_balance_ledger: nft_ledger(vec![nft(1, 5)]),
    };
    assert_eq!(distribute_secondary_pool(&mut ctx), Ok(()));
    assert_eq!(ctx.nft_balance_ledger.nft_balances(), &vec![nft(1, 5)]);
    assert_eq!(ctx.from, address(PAYER));
    assert_eq!(ctx.pda_vault, address(VAULT));
}

#[test]
fn a_licensing_fee_is_accepted_and_changes_nothing() {
    let mut ctx = PayLicensingFee {
        from: address(PAYER),
        pda_vault: address(VAULT),
        nft_balance_ledger: nft_ledger(vec![nft(1, 5)]),
    };
    assert_eq!(pay_licensing_fee(&mut ctx), Ok(()));
    assert_eq!(ctx.nft_balance_ledger.nft_balances(), &vec![nft(1, 5)]);
    assert_eq!(ctx.from, address(PAYER));
    assert_eq!(ctx.pda_vault, address(VAULT));
}
