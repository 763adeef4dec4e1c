use borsh::BorshSerialize;
use custody::account::{Account, Rent, TokenBalance};
use custody::address::{derive_address, Address};
use custody::echo::{authority_seed_list, vending_machine_seed_list, Processor};
use custody::error::CustodyError;
use custody::instruction::EchoInstruction;
use custody::state::{AuthorizedBuffer, VendingMachineBuffer};

const PROGRAM: [u8; 32] = [11u8; 32];
const RENT: Rent = Rent { lamports_per_byte: 10 };

fn account(key: Address, lamports: u64, data: Vec<u8>, is_signer: bool, is_writable: bool) -> Account {
    Account {
        key,
        owner: Address::new([0u8; 32]),
        lamports,
        data,
        is_signer,
        is_writable,
        token: None,
    }
}

fn authorized_setup(seed: u64, size: u32) -> (Vec<Account>, Result<(), CustodyError>) {
    let program = Address::new(PROGRAM);
    let authority = Address::new([21u8; 32]);
    let (buffer, _) = derive_address(&authority_seed_list(&authority, seed), &program).unwrap();
    let mut accounts = vec![
        account(buffer, 0, Vec::new(), false, true),
        account(authority, 1_000_000, Vec::new(), true, true),
        account(Address::new([0u8; 32]), 1, Vec::new(), false, false),
    ];
    let r = Processor::initialize_authorized_echo(&program, &RENT, &mut accounts, seed, size);
    (accounts, r)
}

#[test]
fn echo_writes_into_zeroed_buffer() {
    let mut accounts = vec![account(Address::new([1u8; 32]), 5, vec![0u8; 5], false, true)];
    assert_eq!(Processor::echo(&mut accounts, &vec![1, 2, 3]), Ok(()));
    assert_eq!(accounts[0].data, vec![1, 2, 3, 0, 0]);
}

#[test]
fn echo_truncates_long_data() {
    let mut accounts = vec![account(Address::new([1u8; 32]), 5, vec![0u8; 3], false, true)];
    assert_eq!(Processor::echo(&mut accounts, &vec![9, 8, 7, 6, 5]), Ok(()));
    assert_eq!(accounts[0].data, vec![9, 8, 7]);
}

#[test]
fn echo_refuses_non_empty_buffer() {
    let mut accounts = vec![account(Address::new([1u8; 32]), 5, vec![0, 0, 4, 0], false, true)];
    assert_eq!(Processor::echo(&mut accounts, &vec![1, 2]), Err(CustodyError::BufferNotEmpty));
    assert_eq!(accounts[0].data, vec![0, 0, 4, 0]);
}

#[test]
fn echo_refuses_read_only_buffer() {
    let mut accounts = vec![account(Address::new([1u8; 32]), 5, vec![0u8; 4], false, false)];
    assert_eq!(Processor::echo(&mut accounts, &vec![1]), Err(CustodyError::NotWritable));
}

#[test]
fn echo_needs_an_account() {
    let mut accounts: Vec<Account> = Vec::new();
    assert_eq!(Processor::echo(&mut accounts, &vec![1]), Err(CustodyError::NotEnoughAccounts));
}

#[test]
fn initialize_authorized_buffer_writes_header_and_zeros() {
    let (accounts, r) = authorized_setup(42, 20);
    assert_eq!(r, Ok(()));
    let (_, bump) = derive_address(&authority_seed_list(&accounts[1].key, 42), &Address::new(PROGRAM)).unwrap();
    let mut expected = vec![bump];
    expected.extend_from_slice(&42u64.to_le_bytes());
    expected.extend_from_slice(&7u32.to_le_bytes());
    expected.extend_from_slice(&[0u8; 7]);
    assert_eq!(accounts[0].data, expected);
    assert_eq!(accounts[0].owner.bytes, PROGRAM);
    assert_eq!(accounts[0].lamports, (128 + 20) * 10);
    assert_eq!(accounts[1].lamports, 1_000_000 - (128 + 20) * 10);
}

#[test]
fn authorized_write_tiles_payload() {
    let (mut accounts, r) = authorized_setup(42, 20);
    assert_eq!(r, Ok(()));
    let program = Address::new(PROGRAM);
    assert_eq!(Processor::authorized_echo(&program, &mut accounts, &vec![1, 2, 3]), Ok(()));
    let buffer = AuthorizedBuffer::unpack(&accounts[0].data).unwrap();
    assert_eq!(buffer.data, vec![1, 2, 3, 1, 2, 3, 1]);
    assert_eq!(buffer.buffer_seed, 42);
}

#[test]
fn authorized_write_longer_than_payload_keeps_prefix() {
    let (mut accounts, _) = authorized_setup(1, 16);
    let program = Address::new(PROGRAM);
    assert_eq!(Processor::authorized_echo(&program, &mut accounts, &vec![5, 6, 7, 8, 9]), Ok(()));
    assert_eq!(AuthorizedBuffer::unpack(&accounts[0].data).unwrap().data, vec![5, 6, 7]);
}

#[test]
fn authorized_write_refuses_empty_data() {
    let (mut accounts, _) = authorized_setup(42, 20);
    let before = accounts[0].data.clone();
    let program = Address::new(PROGRAM);
    assert_eq!(Processor::authorized_echo(&program, &mut accounts, &Vec::new()), Err(CustodyError::EmptyInput));
    assert_eq!(accounts[0].data, before);
}

#[test]
fn authorized_write_by_another_signer_mismatches() {
    let (mut accounts, _) = authorized_setup(42, 20);
    accounts[1].key = Address::new([22u8; 32]);
    let program = Address::new(PROGRAM);
    assert_eq!(
        Processor::authorized_echo(&program, &mut accounts, &vec![1]),
        Err(CustodyError::AddressMismatch)
    );
}

#[test]
fn authorized_write_needs_signature() {
    let (mut accounts, _) = authorized_setup(42, 20);
    accounts[1].is_signer = false;
    let program = Address::new(PROGRAM);
    assert_eq!(
        Processor::authorized_echo(&program, &mut accounts, &vec![1]),
        Err(CustodyError::MissingSignature)
    );
}

#[test]
fn initialize_refuses_small_buffer() {
    let (accounts, r) = authorized_setup(3, 13);
    assert_eq!(r, Err(CustodyError::BufferTooSmall));
    assert!(accounts[0].data.is_empty());
}

#[test]
fn initialize_refuses_wrong_system_program() {
    let program = Address::new(PROGRAM);
    let authority = Address::new([21u8; 32]);
    let (buffer, _) = derive_address(&authority_seed_list(&authority, 5), &program).unwrap();
    let mut accounts = vec![
        account(buffer, 0, Vec::new(), false, true),
        account(authority, 1_000_000, Vec::new(), true, true),
        account(Address::new([1u8; 32]), 1, Vec::new(), false, false),
    ];
    assert_eq!(
        Processor::initialize_authorized_echo(&program, &RENT, &mut accounts, 5, 30),
        Err(CustodyError::UnexpectedCollaborator)
    );
}

#[test]
fn initialize_twice_is_refused() {
    let (mut accounts, _) = authorized_setup(42, 20);
    let program = Address::new(PROGRAM);
    assert_eq!(
        Processor::initialize_authorized_echo(&program, &RENT, &mut accounts, 42, 20),
        Err(CustodyError::AccountAlreadyInUse)
    );
}

#[test]
fn initialize_without_funds_is_refused() {
    let program = Address::new(PROGRAM);
    let authority = Address::new([21u8; 32]);
    let (buffer, _) = derive_address(&authority_seed_list(&authority, 9), &program).unwrap();
    let mut accounts = vec![
        account(buffer, 0, Vec::new(), false, true),
        account(authority, 10, Vec::new(), true, true),
        account(Address::new([0u8; 32]), 1, Vec::new(), false, false),
    ];
    assert_eq!(
        Processor::initialize_authorized_echo(&program, &RENT, &mut accounts, 9, 20),
        Err(CustodyError::InsufficientFunds)
    );
}

#[test]
fn process_instruction_runs_encoded_echo_instructions() {
    let program = Address::new(PROGRAM);
    let authority = Address::new([21u8; 32]);
    let (buffer, _) = derive_address(&authority_seed_list(&authority, 42), &program).unwrap();
    let mut accounts = vec![
        account(buffer, 0, Vec::new(), false, true),
        account(authority, 1_000_000, Vec::new(), true, true),
        account(Address::new([0u8; 32]), 1, Vec::new(), false, false),
    ];
    let mut init = vec![1u8];
    init.extend_from_slice(&42u64.to_le_bytes());
    init.extend_from_slice(&20u32.to_le_bytes());
    assert_eq!(Processor::process_instruction(&program, &RENT, &mut accounts, &init), Ok(()));
    let write = vec![2u8, 3, 0, 0, 0, 1, 2, 3];
    assert_eq!(Processor::process_instruction(&program, &RENT, &mut accounts, &write), Ok(()));
    assert_eq!(&accounts[0].data[13..], &[1, 2, 3, 1, 2, 3, 1]);
}

#[test]
fn process_instruction_refuses_bad_bytes() {
    let program = Address::new(PROGRAM);
    let mut accounts: Vec<Account> = Vec::new();
    for bad in [vec![], vec![9u8], vec![0u8, 5, 0, 0, 0, 1], vec![1u8, 0, 0]] {
        assert_eq!(
            Processor::process_instruction(&program, &RENT, &mut accounts, &bad),
            Err(CustodyError::InvalidInstructionData)
        );
    }
}

#[test]
fn echo_instruction_decodes_fields() {
    let mut bytes = vec![3u8];
    bytes.extend_from_slice(&500u64.to_le_bytes());
    bytes.extend_from_slice(&64u32.to_le_bytes());
    match EchoInstruction::unpack(&bytes).unwrap() {
        EchoInstruction::InitializeVendingMachineEcho { price, buffer_size } => {
            assert_eq!(price, 500);
            assert_eq!(buffer_size, 64);
        }
        other => panic!("decoded {:?}", other),
    }
}

#[test]
fn buffer_layout_matches_borsh() {
    let buffer = AuthorizedBuffer { bump_seed: 254, buffer_seed: 77, data: vec![4, 5, 6] };
    let borsh_bytes = (254u8, 77u64, vec![4u8, 5, 6]).try_to_vec().unwrap();
    assert_eq!(buffer.pack(), borsh_bytes);
    let back = AuthorizedBuffer::unpack(&borsh_bytes).unwrap();
    assert_eq!((back.bump_seed, back.buffer_seed, back.data), (254, 77, vec![4, 5, 6]));
}

#[test]
fn buffer_unpack_refuses_wrong_length() {
    let mut bytes = (1u8, 2u64, vec![3u8, 4]).try_to_vec().unwrap();
    bytes.push(0);
    assert_eq!(AuthorizedBuffer::unpack(&bytes).unwrap_err(), CustodyError::InvalidAccountData);
    assert_eq!(VendingMachineBuffer::unpack(&vec![1, 2]).unwrap_err(), CustodyError::InvalidAccountData);
}

fn mint_bytes(supply: u64) -> Vec<u8> {
    let mut data = vec![0u8; 82];
    data[36..44].copy_from_slice(&supply.to_le_bytes());
    data[44] = 2;
    data[45] = 1;
    data
}

fn vending_setup(price: u64, balance: u64) -> (Address, Vec<Account>) {
    let program = Address::new(PROGRAM);
    let mint = Address::new([31u8; 32]);
    let payer = Address::new([32u8; 32]);
    let (buffer, _) = derive_address(&vending_machine_seed_list(&mint, price), &program).unwrap();
    let mut init_accounts = vec![
        account(buffer, 0, Vec::new(), false, true),
        account(mint, 1, Vec::new(), false, true),
        account(payer, 1_000_000, Vec::new(), true, true),
        account(Address::new([0u8; 32]), 1, Vec::new(), false, false),
    ];
    assert_eq!(
        Processor::initialize_vending_machine_echo(&program, &RENT, &mut init_accounts, price, 18),
        Ok(())
    );
    let user = Address::new([33u8; 32]);
    let mut user_tokens = account(Address::new([34u8; 32]), 1, Vec::new(), false, true);
    user_tokens.token = Some(TokenBalance { mint, authority: user, amount: balance });
    let buffer_account = init_accounts.remove(0);
    let accounts = vec![
        buffer_account,
        account(user, 1, Vec::new(), true, false),
        user_tokens,
        account(mint, 1, mint_bytes(1_000), false, true),
        account(Address::new(spl_token::id().to_bytes()), 1, Vec::new(), false, false),
    ];
    (program, accounts)
}

#[test]
fn vending_machine_write_burns_price() {
    let (program, mut accounts) = vending_setup(25, 100);
    assert_eq!(Processor::vending_machine_echo(&program, &mut accounts, &vec![7, 8]), Ok(()));
    assert_eq!(accounts[2].token.unwrap().amount, 75);
    assert_eq!(accounts[3].data, mint_bytes(975));
    let buffer = VendingMachineBuffer::unpack(&accounts[0].data).unwrap();
    assert_eq!(buffer.price, 25);
    assert_eq!(buffer.data, vec![7, 8, 7, 8, 7]);
}

#[test]
fn vending_machine_write_without_funds_fails() {
    let (program, mut accounts) = vending_setup(25, 10);
    let before = accounts[0].data.clone();
    assert_eq!(
        Processor::vending_machine_echo(&program, &mut accounts, &vec![7]),
        Err(CustodyError::PaymentFailed)
    );
    assert_eq!(accounts[0].data, before);
    assert_eq!(accounts[2].token.unwrap().amount, 10);
}

#[test]
fn vending_machine_write_needs_token_program() {
    let (program, mut accounts) = vending_setup(25, 100);
    accounts[4].key = Address::new([0u8; 32]);
    assert_eq!(
        Processor::vending_machine_echo(&program, &mut accounts, &vec![7]),
        Err(CustodyError::UnexpectedCollaborator)
    );
}

#[test]
fn vending_machine_write_beyond_supply_fails() {
    let (program, mut accounts) = vending_setup(25, 100);
    accounts[3].data = mint_bytes(24);
    assert_eq!(
        Processor::vending_machine_echo(&program, &mut accounts, &vec![7]),
        Err(CustodyError::PaymentFailed)
    );
    assert_eq!(accounts[2].token.unwrap().amount, 100);
}

#[test]
fn vending_machine_write_refuses_empty_data() {
    let (program, mut accounts) = vending_setup(25, 100);
    assert_eq!(
        Processor::vending_machine_echo(&program, &mut accounts, &Vec::new()),
        Err(CustodyError::EmptyInput)
    );
    assert_eq!(accounts[2].token.unwrap().amount, 100);
}
