use custody::account::{
    assert_is_initialized, assert_is_signer, assert_is_system_program, assert_is_token_program,
    assert_is_writable, assert_owned_by, assert_with_msg, Account, Rent,
};
use custody::address::Address;
use custody::error::CustodyError;
use solana_program::program_option::COption;
use solana_program::program_pack::Pack;

fn plain(key: [u8; 32]) -> Account {
    Account {
        key: Address::new(key),
        owner: Address::new([0u8; 32]),
        lamports: 0,
        data: Vec::new(),
        is_signer: false,
        is_writable: false,
        token: None,
    }
}

#[test]
fn guards_report_their_errors() {
    let mut a = plain([1u8; 32]);
    assert_eq!(assert_is_signer(&a), Err(CustodyError::MissingSignature));
    assert_eq!(assert_is_writable(&a), Err(CustodyError::NotWritable));
    assert_eq!(assert_is_initialized(&a), Err(CustodyError::AccountNotFound));
    assert_eq!(assert_is_system_program(&a), Err(CustodyError::UnexpectedCollaborator));
    assert_eq!(assert_is_token_program(&a), Err(CustodyError::UnexpectedCollaborator));
    assert_eq!(assert_owned_by(&a, &Address::new([2u8; 32])), Err(CustodyError::OwnerMismatch));
    a.is_signer = true;
    a.is_writable = true;
    a.lamports = 1;
    assert_eq!(assert_is_signer(&a), Ok(()));
    assert_eq!(assert_is_writable(&a), Ok(()));
    assert_eq!(assert_is_initialized(&a), Ok(()));
    assert_eq!(assert_owned_by(&a, &Address::new([0u8; 32])), Ok(()));
}

#[test]
fn collaborator_ids_are_recognised() {
    assert_eq!(assert_is_system_program(&plain([0u8; 32])), Ok(()));
    assert_eq!(assert_is_token_program(&plain(spl_token::id().to_bytes())), Ok(()));
    let mut near = spl_token::id().to_bytes();
    near[31] ^= 1;
    assert_eq!(assert_is_token_program(&plain(near)), Err(CustodyError::UnexpectedCollaborator));
    assert_eq!(
        assert_is_system_program(&plain(solana_program::system_program::id().to_bytes())),
        Ok(())
    );
}

#[test]
fn assert_with_msg_passes_error_through() {
    assert_eq!(assert_with_msg(true, CustodyError::EmptyInput, "x"), Ok(()));
    assert_eq!(assert_with_msg(false, CustodyError::EmptyInput, "x"), Err(CustodyError::EmptyInput));
}

#[test]
fn rent_minimum_balance() {
    let rent = Rent { lamports_per_byte: 6960 };
    assert_eq!(rent.minimum_balance(0), Some(128 * 6960));
    assert_eq!(rent.minimum_balance(165), Some(293 * 6960));
    assert_eq!(Rent { lamports_per_byte: u64::MAX }.minimum_balance(1), None);
}

#[test]
fn mint_reader_agrees_with_token_program_packing() {
    let mint = spl_token::state::Mint {
        mint_authority: COption::Some(solana_program::pubkey::Pubkey::new_from_array([3u8; 32])),
        supply: 123_456,
        decimals: 6,
        is_initialized: true,
        freeze_authority: COption::None,
    };
    let mut data = vec![0u8; spl_token::state::Mint::LEN];
    spl_token::state::Mint::pack(mint, &mut data).unwrap();
    assert_eq!(custody::mint::read_mint(&data), Some((123_456, 6)));
    let moved = custody::mint::replace_supply(&data, 100);
    let back = spl_token::state::Mint::unpack(&moved).unwrap();
    assert_eq!((back.supply, back.decimals), (100, 6));
    data[0] = 2;
    assert_eq!(custody::mint::read_mint(&data), None);
    assert_eq!(custody::mint::read_mint(&vec![0u8; 10]), None);
}
