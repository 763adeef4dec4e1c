use borsh::BorshSerialize;
use custody::account::{Account, Rent, TokenBalance};
use custody::address::{derive_address, Address};
use custody::conversion::{convert, Rate};
use custody::error::CustodyError;
use custody::exchange_booth::{state_seed_list, vault_seed_list, Processor};
use custody::state::ExchangeBooth;

const PROGRAM: [u8; 32] = [50u8; 32];
const RENT: Rent = Rent { lamports_per_byte: 3 };
const ADMIN: [u8; 32] = [51u8; 32];
const MINT_BASE: [u8; 32] = [52u8; 32];
const MINT_QUOTE: [u8; 32] = [53u8; 32];
const ORACLE: [u8; 32] = [54u8; 32];

fn account(key: Address, lamports: u64, data: Vec<u8>, is_signer: bool, is_writable: bool) -> Account {
    Account {
        key,
        owner: Address::new([0u8; 32]),
        lamports,
        data,
        is_signer,
        is_writable,
        token: None,
    }
}

fn mint_data(decimals: u8) -> Vec<u8> {
    let mut data = vec![0u8; 82];
    data[44] = decimals;
    data[45] = 1;
    data
}

fn token_account(key: [u8; 32], mint: [u8; 32], authority: [u8; 32], amount: u64) -> Account {
    let mut a = account(Address::new(key), 1, Vec::new(), false, true);
    a.token = Some(TokenBalance { mint: Address::new(mint), authority: Address::new(authority), amount });
    a
}

fn token_program() -> Account {
    account(Address::new(spl_token::id().to_bytes()), 1, Vec::new(), false, false)
}

/// The ten accounts of opening, and the bumps that derive them.
fn opening_accounts(decimals_base: u8, decimals_quote: u8) -> (Vec<Account>, u8, u8, u8) {
    let program = Address::new(PROGRAM);
    let seeds = state_seed_list(
        &Address::new(ADMIN),
        &Address::new(MINT_BASE),
        &Address::new(MINT_QUOTE),
        &Address::new(ORACLE),
    );
    let (state, state_bump) = derive_address(&seeds, &program).unwrap();
    let (vault_base, base_bump) =
        derive_address(&vault_seed_list(true, &state, &Address::new(MINT_BASE)), &program).unwrap();
    let (vault_quote, quote_bump) =
        derive_address(&vault_seed_list(false, &state, &Address::new(MINT_QUOTE)), &program).unwrap();
    let accounts = vec![
        account(Address::new(ADMIN), 1_000_000, Vec::new(), true, true),
        account(Address::new(MINT_BASE), 1, mint_data(decimals_base), false, false),
        account(Address::new(MINT_QUOTE), 1, mint_data(decimals_quote), false, false),
        account(Address::new(ORACLE), 1, Vec::new(), false, false),
        token_program(),
        account(Address::new([0u8; 32]), 1, Vec::new(), false, false),
        account(Address::new([55u8; 32]), 1, Vec::new(), false, false),
        account(state, 0, Vec::new(), false, true),
        account(vault_base, 0, Vec::new(), false, true),
        account(vault_quote, 0, Vec::new(), false, true),
    ];
    (accounts, state_bump, base_bump, quote_bump)
}

/// An open booth: `[admin, base mint, quote mint, oracle, token program, system,
/// rent, state, base vault, quote vault]` after opening.
fn open_booth(decimals_base: u8, decimals_quote: u8) -> Vec<Account> {
    let (mut accounts, state_bump, base_bump, quote_bump) = opening_accounts(decimals_base, decimals_quote);
    let r = custody::initialize_exchange_booth::process(
        &Address::new(PROGRAM),
        &RENT,
        &mut accounts,
        state_bump,
        base_bump,
        quote_bump,
    );
    assert_eq!(r, Ok(()));
    accounts
}

fn take(accounts: &mut Vec<Account>, i: usize) -> Account {
    std::mem::replace(&mut accounts[i], account(Address::new([0u8; 32]), 0, Vec::new(), false, false))
}

fn admin_move_accounts(booth: &mut Vec<Account>, admin_amount: u64, mint: [u8; 32]) -> Vec<Account> {
    let vault_index = if mint == MINT_BASE { 8 } else { 9 };
    vec![
        take(booth, 0),
        token_account([60u8; 32], mint, ADMIN, admin_amount),
        token_program(),
        take(booth, vault_index),
        take(booth, 7),
    ]
}

#[test]
fn test_validator_transaction() {
    let booth = open_booth(0, 0);
    let state = ExchangeBooth::unpack(&booth[7].data).unwrap();
    assert_eq!(state.admin.bytes, ADMIN);
    assert_eq!(state.mint_base.bytes, MINT_BASE);
    assert_eq!(state.mint_quote.bytes, MINT_QUOTE);
    assert_eq!(state.oracle.bytes, ORACLE);
    assert_eq!(state.fee, 0);
    assert_eq!(booth[8].token.unwrap().amount, 0);
    assert_eq!(booth[9].token.unwrap().mint.bytes, MINT_QUOTE);
}

#[test]
fn opening_reads_decimals_and_charges_admin() {
    let booth = open_booth(6, 9);
    let state = ExchangeBooth::unpack(&booth[7].data).unwrap();
    assert_eq!((state.decimals_base, state.decimals_quote), (6, 9));
    assert_eq!(booth[7].owner.bytes, PROGRAM);
    assert_eq!(booth[7].lamports, (128 + 138) * 3);
    assert_eq!(booth[8].lamports, (128 + 165) * 3);
    assert_eq!(booth[0].lamports, 1_000_000 - (128 + 138) * 3 - 2 * (128 + 165) * 3);
    assert_eq!(booth[8].owner.bytes, spl_token::id().to_bytes());
    assert_eq!(booth[8].token.unwrap().authority.bytes, booth[8].key.bytes);
    assert_eq!(booth[8].data, vec![0u8; 165]);
    assert_eq!(booth[9].data, vec![0u8; 165]);
}

#[test]
fn opening_through_encoded_instruction() {
    let (mut accounts, state_bump, base_bump, quote_bump) = opening_accounts(2, 3);
    let data = vec![0u8, base_bump, quote_bump, state_bump];
    let r = Processor::process_instruction(&Address::new(PROGRAM), &RENT, None, &mut accounts, &data);
    assert_eq!(r, Ok(()));
    assert_eq!(ExchangeBooth::unpack(&accounts[7].data).unwrap().decimals_quote, 3);
}

#[test]
fn opening_with_wrong_bump_mismatches() {
    let (mut accounts, state_bump, base_bump, quote_bump) = opening_accounts(0, 0);
    let r = custody::initialize_exchange_booth::process(
        &Address::new(PROGRAM),
        &RENT,
        &mut accounts,
        state_bump.wrapping_sub(1),
        base_bump,
        quote_bump,
    );
    assert_eq!(r, Err(CustodyError::AddressMismatch));
    assert_eq!(accounts[7].lamports, 0);
}

#[test]
fn opening_with_unreadable_mint_fails() {
    let (mut accounts, state_bump, base_bump, quote_bump) = opening_accounts(0, 0);
    accounts[1].data[45] = 7;
    let r = custody::initialize_exchange_booth::process(
        &Address::new(PROGRAM),
        &RENT,
        &mut accounts,
        state_bump,
        base_bump,
        quote_bump,
    );
    assert_eq!(r, Err(CustodyError::InvalidAccountData));
}

#[test]
fn deposit_then_withdraw_restores_balances() {
    let program = Address::new(PROGRAM);
    let mut booth = open_booth(0, 0);
    let mut accounts = admin_move_accounts(&mut booth, 500, MINT_BASE);
    let mint = Address::new(MINT_BASE);
    assert_eq!(Processor::deposit(&program, &mut accounts, &mint, 120), Ok(()));
    assert_eq!(accounts[3].token.unwrap().amount, 120);
    assert_eq!(accounts[1].token.unwrap().amount, 380);
    assert_eq!(Processor::withdraw(&program, &mut accounts, &mint, 120), Ok(()));
    assert_eq!(accounts[3].token.unwrap().amount, 0);
    assert_eq!(accounts[1].token.unwrap().amount, 500);
}

#[test]
fn withdraw_more_than_vault_holds_fails() {
    let program = Address::new(PROGRAM);
    let mut booth = open_booth(0, 0);
    let mut accounts = admin_move_accounts(&mut booth, 500, MINT_QUOTE);
    let mint = Address::new(MINT_QUOTE);
    assert_eq!(Processor::deposit(&program, &mut accounts, &mint, 10), Ok(()));
    assert_eq!(
        Processor::withdraw(&program, &mut accounts, &mint, 11),
        Err(CustodyError::InsufficientVaultBalance)
    );
    assert_eq!(accounts[3].token.unwrap().amount, 10);
}

#[test]
fn deposit_more_than_admin_holds_fails() {
    let program = Address::new(PROGRAM);
    let mut booth = open_booth(0, 0);
    let mut accounts = admin_move_accounts(&mut booth, 5, MINT_BASE);
    assert_eq!(
        Processor::deposit(&program, &mut accounts, &Address::new(MINT_BASE), 6),
        Err(CustodyError::InsufficientFunds)
    );
}

#[test]
fn deposit_of_unknown_mint_fails() {
    let program = Address::new(PROGRAM);
    let mut booth = open_booth(0, 0);
    let mut accounts = admin_move_accounts(&mut booth, 500, MINT_BASE);
    assert_eq!(
        Processor::deposit(&program, &mut accounts, &Address::new([99u8; 32]), 1),
        Err(CustodyError::UnknownMint)
    );
}

#[test]
fn deposit_by_other_signer_fails() {
    let program = Address::new(PROGRAM);
    let mut booth = open_booth(0, 0);
    let mut accounts = admin_move_accounts(&mut booth, 500, MINT_BASE);
    accounts[0].key = Address::new([98u8; 32]);
    assert_eq!(
        Processor::deposit(&program, &mut accounts, &Address::new(MINT_BASE), 1),
        Err(CustodyError::MissingSignature)
    );
}

/// `[user, user's input, user's output, oracle, token program, base vault, quote vault, state]`
/// with both vaults funded.
fn exchange_accounts(decimals_base: u8, decimals_quote: u8, base_in_vault: u64, quote_in_vault: u64) -> Vec<Account> {
    let mut booth = open_booth(decimals_base, decimals_quote);
    let mut vault_base = take(&mut booth, 8);
    let mut vault_quote = take(&mut booth, 9);
    let mut t = vault_base.token.unwrap();
    t.amount = base_in_vault;
    vault_base.token = Some(t);
    let mut t = vault_quote.token.unwrap();
    t.amount = quote_in_vault;
    vault_quote.token = Some(t);
    let user = [70u8; 32];
    vec![
        account(Address::new(user), 1, Vec::new(), true, false),
        token_account([71u8; 32], MINT_BASE, user, 1_000),
        token_account([72u8; 32], MINT_QUOTE, user, 0),
        account(Address::new(ORACLE), 1, Vec::new(), false, false),
        token_program(),
        vault_base,
        vault_quote,
        take(&mut booth, 7),
    ]
}

fn set_fee(state: &mut Account, fee: u64) {
    let mut booth = ExchangeBooth::unpack(&state.data).unwrap();
    booth.fee = fee;
    state.data = booth.pack();
}

#[test]
fn exchange_with_fee_takes_its_share() {
    let program = Address::new(PROGRAM);
    let mut accounts = exchange_accounts(0, 0, 0, 1_000);
    set_fee(&mut accounts[7], 500);
    let rate = Some(Rate { numerator: 2, denominator: 1 });
    let r = Processor::exchange(&program, &mut accounts, &Address::new(MINT_BASE), 100, rate);
    assert_eq!(r, Ok(()));
    assert_eq!(accounts[2].token.unwrap().amount, 190);
    assert_eq!(accounts[1].token.unwrap().amount, 900);
    assert_eq!(accounts[5].token.unwrap().amount, 100);
    assert_eq!(accounts[6].token.unwrap().amount, 810);
}

#[test]
fn exchange_without_fee_scales_by_decimals() {
    let program = Address::new(PROGRAM);
    let mut accounts = exchange_accounts(2, 0, 0, 1_000);
    let rate = Some(Rate { numerator: 3, denominator: 1 });
    let r = Processor::exchange(&program, &mut accounts, &Address::new(MINT_BASE), 150, rate);
    assert_eq!(r, Ok(()));
    assert_eq!(accounts[2].token.unwrap().amount, 4);
}

#[test]
fn exchange_from_quote_uses_inverse_rate() {
    let program = Address::new(PROGRAM);
    let mut accounts = exchange_accounts(0, 0, 1_000, 0);
    accounts[1] = token_account([72u8; 32], MINT_QUOTE, [70u8; 32], 50);
    accounts[2] = token_account([71u8; 32], MINT_BASE, [70u8; 32], 0);
    let rate = Some(Rate { numerator: 4, denominator: 1 });
    let r = Processor::exchange(&program, &mut accounts, &Address::new(MINT_QUOTE), 50, rate);
    assert_eq!(r, Ok(()));
    assert_eq!(accounts[2].token.unwrap().amount, 12);
    assert_eq!(accounts[6].token.unwrap().amount, 50);
}

#[test]
fn exchange_of_unknown_mint_changes_no_vault() {
    let program = Address::new(PROGRAM);
    let mut accounts = exchange_accounts(0, 0, 10, 10);
    let rate = Some(Rate { numerator: 1, denominator: 1 });
    let r = Processor::exchange(&program, &mut accounts, &Address::new([97u8; 32]), 5, rate);
    assert_eq!(r, Err(CustodyError::UnknownMint));
    assert_eq!(accounts[5].token.unwrap().amount, 10);
    assert_eq!(accounts[6].token.unwrap().amount, 10);
}

#[test]
fn exchange_without_oracle_rate_fails() {
    let program = Address::new(PROGRAM);
    let mut accounts = exchange_accounts(0, 0, 10, 10);
    let r = Processor::exchange(&program, &mut accounts, &Address::new(MINT_BASE), 5, None);
    assert_eq!(r, Err(CustodyError::OracleUnavailable));
    let zero = Some(Rate { numerator: 0, denominator: 1 });
    let r = Processor::exchange(&program, &mut accounts, &Address::new(MINT_BASE), 5, zero);
    assert_eq!(r, Err(CustodyError::OracleUnavailable));
}

#[test]
fn exchange_beyond_vault_fails_whole() {
    let program = Address::new(PROGRAM);
    let mut accounts = exchange_accounts(0, 0, 0, 10);
    let rate = Some(Rate { numerator: 2, denominator: 1 });
    let r = Processor::exchange(&program, &mut accounts, &Address::new(MINT_BASE), 100, rate);
    assert_eq!(r, Err(CustodyError::InsufficientVaultBalance));
    assert_eq!(accounts[1].token.unwrap().amount, 1_000);
    assert_eq!(accounts[5].token.unwrap().amount, 0);
}

#[test]
fn exchange_with_wrong_oracle_fails() {
    let program = Address::new(PROGRAM);
    let mut accounts = exchange_accounts(0, 0, 10, 10);
    accounts[3].key = Address::new([1u8; 32]);
    let rate = Some(Rate { numerator: 1, denominator: 1 });
    let r = Processor::exchange(&program, &mut accounts, &Address::new(MINT_BASE), 5, rate);
    assert_eq!(r, Err(CustodyError::UnexpectedCollaborator));
}

/// `[admin, admin's base, admin's quote, token program, base vault, quote vault, state]`.
fn close_accounts(booth: &mut Vec<Account>) -> Vec<Account> {
    vec![
        take(booth, 0),
        token_account([80u8; 32], MINT_BASE, ADMIN, 1),
        token_account([81u8; 32], MINT_QUOTE, ADMIN, 2),
        token_program(),
        take(booth, 8),
        take(booth, 9),
        take(booth, 7),
    ]
}

#[test]
fn close_returns_everything_and_ends_the_booth() {
    let program = Address::new(PROGRAM);
    let mut booth = open_booth(0, 0);
    let mut accounts = close_accounts(&mut booth);
    let mut t = accounts[4].token.unwrap();
    t.amount = 40;
    accounts[4].token = Some(t);
    let lamports_before: u64 = [0usize, 4, 5, 6].iter().map(|&i| accounts[i].lamports).sum();
    assert_eq!(Processor::close_exchange_booth(&program, &mut accounts), Ok(()));
    assert_eq!(accounts[1].token.unwrap().amount, 41);
    assert_eq!(accounts[2].token.unwrap().amount, 2);
    assert_eq!(accounts[0].lamports, lamports_before);
    for (i, len) in [(4usize, 165usize), (5, 165), (6, 138)] {
        assert_eq!(accounts[i].lamports, 0);
        assert_eq!(accounts[i].data, vec![0u8; len]);
        assert!(accounts[i].token.is_none());
    }
    assert_eq!(
        Processor::close_exchange_booth(&program, &mut accounts),
        Err(CustodyError::AccountNotFound)
    );
    let state = take(&mut accounts, 6);
    let vault = take(&mut accounts, 4);
    let mut deposit_accounts = vec![
        take(&mut accounts, 0),
        token_account([60u8; 32], MINT_BASE, ADMIN, 10),
        token_program(),
        vault,
        state,
    ];
    assert_eq!(
        Processor::deposit(&program, &mut deposit_accounts, &Address::new(MINT_BASE), 1),
        Err(CustodyError::AccountNotFound)
    );
}

#[test]
fn close_by_other_party_fails() {
    let program = Address::new(PROGRAM);
    let mut booth = open_booth(0, 0);
    let mut accounts = close_accounts(&mut booth);
    accounts[0].key = Address::new([96u8; 32]);
    assert_eq!(
        Processor::close_exchange_booth(&program, &mut accounts),
        Err(CustodyError::MissingSignature)
    );
    assert!(accounts[6].lamports > 0);
}

#[test]
fn booth_instruction_refuses_bad_bytes() {
    let mut accounts: Vec<Account> = Vec::new();
    for bad in [vec![], vec![5u8], vec![1u8, 2, 3], vec![4u8, 0]] {
        let r = Processor::process_instruction(&Address::new(PROGRAM), &RENT, None, &mut accounts, &bad);
        assert_eq!(r, Err(CustodyError::InvalidInstructionData));
    }
}

#[test]
fn conversion_examples() {
    assert_eq!(convert(100, 2, 1, 0, 0, 500), Some(190));
    assert_eq!(convert(100, 2, 1, 0, 0, 0), Some(200));
    assert_eq!(convert(7, 1, 2, 0, 0, 0), Some(3));
    assert_eq!(convert(1, 1, 1, 0, 3, 0), Some(1_000));
    assert_eq!(convert(1, 1, 1, 0, 40, 0), None);
    assert_eq!(convert(u64::MAX, 2, 1, 0, 0, 0), None);
    assert_eq!(convert(100, 2, 1, 0, 0, 10_000), Some(0));
}

#[test]
fn booth_layout_matches_borsh() {
    let booth = ExchangeBooth {
        admin: Address::new([1u8; 32]),
        mint_base: Address::new([2u8; 32]),
        decimals_base: 6,
        mint_quote: Address::new([3u8; 32]),
        decimals_quote: 9,
        oracle: Address::new([4u8; 32]),
        fee: 25,
    };
    let expected = ([1u8; 32], [2u8; 32], 6u8, [3u8; 32], 9u8, [4u8; 32], 25u64).try_to_vec().unwrap();
    assert_eq!(booth.pack(), expected);
    assert_eq!(ExchangeBooth::get_serialized_size(), Ok(138));
    assert_eq!(expected.len(), 138);
}

#[test]
fn booth_record_with_excess_fee_is_refused() {
    let bytes = ([1u8; 32], [2u8; 32], 6u8, [3u8; 32], 9u8, [4u8; 32], 10_001u64).try_to_vec().unwrap();
    assert_eq!(ExchangeBooth::unpack(&bytes).unwrap_err(), CustodyError::InvalidAccountData);
}

#[test]
fn closed_booth_cannot_be_opened_again() {
    let program = Address::new(PROGRAM);
    let (mut opening, state_bump, base_bump, quote_bump) = opening_accounts(0, 0);
    assert_eq!(
        custody::initialize_exchange_booth::process(&program, &RENT, &mut opening, state_bump, base_bump, quote_bump),
        Ok(())
    );
    let mut accounts = vec![
        take(&mut opening, 0),
        token_account([80u8; 32], MINT_BASE, ADMIN, 0),
        token_account([81u8; 32], MINT_QUOTE, ADMIN, 0),
        token_program(),
        take(&mut opening, 8),
        take(&mut opening, 9),
        take(&mut opening, 7),
    ];
    assert_eq!(Processor::close_exchange_booth(&program, &mut accounts), Ok(()));
    opening[0] = take(&mut accounts, 0);
    opening[7] = take(&mut accounts, 6);
    opening[8] = take(&mut accounts, 4);
    opening[9] = take(&mut accounts, 5);
    assert_eq!(
        custody::initialize_exchange_booth::process(&program, &RENT, &mut opening, state_bump, base_bump, quote_bump),
        Err(CustodyError::AccountNotFound)
    );
    assert_eq!(opening[7].lamports, 0);
}

#[test]
fn deposit_into_vault_controlled_by_another_fails() {
    let program = Address::new(PROGRAM);
    let mut booth = open_booth(0, 0);
    let mut accounts = admin_move_accounts(&mut booth, 500, MINT_BASE);
    let mut t = accounts[3].token.unwrap();
    t.authority = Address::new(ADMIN);
    accounts[3].token = Some(t);
    assert_eq!(
        Processor::deposit(&program, &mut accounts, &Address::new(MINT_BASE), 1),
        Err(CustodyError::OwnerMismatch)
    );
    assert_eq!(accounts[1].token.unwrap().amount, 500);
}
