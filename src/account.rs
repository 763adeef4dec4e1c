//! Accounts as the instructions see them, and the guards run before any change.
use vstd::prelude::*;
use crate::address::Address;
use crate::error::CustodyError;

verus! {

/// What a token account holds: its currency, the party that may move its
/// tokens, and its balance.
#[derive(Clone, Copy, Debug)]
pub struct TokenBalance {
    pub mint: Address,
    pub authority: Address,
    pub amount: u64,
}

/// One account handed to an instruction, with the flags the transaction gave it.
#[derive(Debug)]
pub struct Account {
    pub key: Address,
    /// The program that owns the account's data.
    pub owner: Address,
    pub lamports: u64,
    pub data: Vec<u8>,
    pub is_signer: bool,
    pub is_writable: bool,
    /// The token holding, for an account that the token program keeps.
    pub token: Option<TokenBalance>,
}

/// Bytes that every account is charged for beyond its data.
pub const ACCOUNT_STORAGE_OVERHEAD: u64 = 128;

/// The price of storage: the lamports per byte, overhead included, that keep an
/// account rent-exempt (the yearly rent per byte times the exemption period).
#[derive(Clone, Copy, Debug)]
pub struct Rent {
    pub lamports_per_byte: u64,
}

impl Rent {
    /// The lamports that keep an account of `len` data bytes alive.
    pub open spec fn minimum_balance_of(&self, len: nat) -> int {
        (128 + len) * self.lamports_per_byte
    }

    /// The lamports that keep an account of `len` data bytes alive; `None` where
    /// they exceed `u64`.
    pub fn minimum_balance(&self, len: u64) -> (r: Option<u64>)
        ensures
            r is Some <==> self.minimum_balance_of(len as nat) <= u64::MAX,
            r matches Some(v) ==> v == self.minimum_balance_of(len as nat),
    {
        let bytes = (len as u128) + (ACCOUNT_STORAGE_OVERHEAD as u128);
        match bytes.checked_mul(self.lamports_per_byte as u128) {
            Some(total) => {
                if total > u64::MAX as u128 {
                    None
                } else {
                    Some(total as u64)
                }
            },
            None => None,
        }
    }
}

/// The account was closed: it lost its lamports but keeps its (zeroed) bytes,
/// so that it cannot be created anew.
pub open spec fn is_closed(a: Account) -> bool {
    a.lamports == 0 && a.data@.len() > 0
}

/// The account holds nothing yet: no lamports and no data.
pub open spec fn is_vacant(a: Account) -> bool {
    a.lamports == 0 && a.data@.len() == 0
}

/// What creating the account at `idx`, paid by the account at `payer`, does:
/// the new account gets `deposit` lamports, `data` and `owner`; the payer loses
/// the deposit.
pub open spec fn creation_outcome(
    old: Seq<Account>,
    new: Seq<Account>,
    payer: int,
    idx: int,
    data: Seq<u8>,
    owner: Seq<u8>,
    deposit: int,
    r: Result<(), CustodyError>,
) -> bool {
    if !is_vacant(old[idx]) {
        r == Err::<(), CustodyError>(CustodyError::AccountAlreadyInUse) && new == old
    } else if deposit > u64::MAX {
        r == Err::<(), CustodyError>(CustodyError::ArithmeticOverflow) && new == old
    } else if old[payer].lamports < deposit {
        r == Err::<(), CustodyError>(CustodyError::InsufficientFunds) && new == old
    } else {
        &&& r is Ok
        &&& new.len() == old.len()
        &&& forall|j: int| 0 <= j < old.len() && j != idx && j != payer ==> new[j] == old[j]
        &&& new[idx].key == old[idx].key
        &&& new[idx].owner@ == owner
        &&& new[idx].lamports == deposit
        &&& new[idx].data@ == data
        &&& new[idx].is_signer == old[idx].is_signer
        &&& new[idx].is_writable == old[idx].is_writable
        &&& new[idx].token == old[idx].token
        &&& new[payer].key == old[payer].key
        &&& new[payer].owner == old[payer].owner
        &&& new[payer].lamports == old[payer].lamports - deposit
        &&& new[payer].data == old[payer].data
        &&& new[payer].is_signer == old[payer].is_signer
        &&& new[payer].is_writable == old[payer].is_writable
        &&& new[payer].token == old[payer].token
    }
}

/// Creates the account at `idx` with `data`, owned by `owner` and funded by the
/// account at `payer` with the rent-exempt minimum for its size.
pub(crate) fn create_account(
    accounts: &mut Vec<Account>,
    payer: usize,
    idx: usize,
    data: Vec<u8>,
    owner: &Address,
    rent: &Rent,
) -> (r: Result<(), CustodyError>)
    requires
        payer < old(accounts)@.len(),
        idx < old(accounts)@.len(),
        payer != idx,
    ensures
        creation_outcome(
            old(accounts)@,
            final(accounts)@,
            payer as int,
            idx as int,
            data@,
            owner@,
            rent.minimum_balance_of(data@.len()),
            r,
        ),
{
    if accounts[idx].lamports > 0 || accounts[idx].data.len() > 0 {
        return Err(CustodyError::AccountAlreadyInUse);
    }
    let deposit = match rent.minimum_balance(data.len() as u64) {
        Some(v) => v,
        None => return Err(CustodyError::ArithmeticOverflow),
    };
    if accounts[payer].lamports < deposit {
        return Err(CustodyError::InsufficientFunds);
    }
    let paid = accounts[payer].lamports - deposit;
    accounts[payer].lamports = paid;
    accounts[idx].lamports = deposit;
    accounts[idx].owner = *owner;
    accounts[idx].data = data;
    Ok(())
}

/// The 32 zero bytes of the system program's id.
pub open spec fn system_program_id() -> Seq<u8> {
    Seq::new(32, |i: int| 0u8)
}

/// The bytes of the token program's id, `TokenkegQfeZyiNwAJbNbGKPFXCWuBvf9Ss623VQ5DA`.
pub open spec fn token_program_id() -> Seq<u8> {
    seq![
        0x06u8, 0xdd, 0xf6, 0xe1, 0xd7, 0x65, 0xa1, 0x93, 0xd9, 0xcb, 0xe1, 0x46, 0xce, 0xeb, 0x79, 0xac,
        0x1c, 0xb4, 0x85, 0xed, 0x5f, 0x5b, 0x37, 0x91, 0x3a, 0x8c, 0xf5, 0x85, 0x7e, 0xff, 0x00, 0xa9,
    ]
}

/// Whether the key is the token program's id.
pub open spec fn is_token_program_id(key: Seq<u8>) -> bool {
    key == token_program_id()
}

/// Relies on `solana_program::system_program::check_id`: the system program's id
/// is `11111111111111111111111111111111`, the 32 zero bytes.
#[verifier::external_body]
fn check_system_program_id(key: &Address) -> (r: bool)
    ensures
        r == (key@ == system_program_id()),
{
    solana_program::system_program::check_id(&solana_program::pubkey::Pubkey::new_from_array(key.bytes))
}

/// Relies on `spl_token::check_id`: whether the key is the token program's id,
/// declared as `TokenkegQfeZyiNwAJbNbGKPFXCWuBvf9Ss623VQ5DA` (base58 of the bytes
/// of `token_program_id`).
#[verifier::external_body]
fn check_token_program_id(key: &Address) -> (r: bool)
    ensures
        r == is_token_program_id(key@),
{
    spl_token::check_id(&solana_program::pubkey::Pubkey::new_from_array(key.bytes))
}

/// `Ok` when `statement` holds, else the given error. The message is for the
/// reader of the call site.
pub fn assert_with_msg(statement: bool, err: CustodyError, msg: &str) -> (r: Result<(), CustodyError>)
    ensures
        r == (if statement {
            Ok::<(), CustodyError>(())
        } else {
            Err(err)
        }),
{
    if !statement {
        Err(err)
    } else {
        Ok(())
    }
}

/// The account signed the transaction, else `MissingSignature`.
pub fn assert_is_signer(account: &Account) -> (r: Result<(), CustodyError>)
    ensures
        r == (if account.is_signer {
            Ok::<(), CustodyError>(())
        } else {
            Err(CustodyError::MissingSignature)
        }),
{
    assert_with_msg(account.is_signer, CustodyError::MissingSignature, "missing signature")
}

/// The account may be written, else `NotWritable`.
pub fn assert_is_writable(account: &Account) -> (r: Result<(), CustodyError>)
    ensures
        r == (if account.is_writable {
            Ok::<(), CustodyError>(())
        } else {
            Err(CustodyError::NotWritable)
        }),
{
    assert_with_msg(account.is_writable, CustodyError::NotWritable, "account must be writable")
}

/// The account is the system program, else `UnexpectedCollaborator`.
pub fn assert_is_system_program(account: &Account) -> (r: Result<(), CustodyError>)
    ensures
        r == (if account.key@ == system_program_id() {
            Ok::<(), CustodyError>(())
        } else {
            Err(CustodyError::UnexpectedCollaborator)
        }),
{
    let is_system = check_system_program_id(&account.key);
    assert_with_msg(is_system, CustodyError::UnexpectedCollaborator, "expected the system program")
}

/// The account is the token program, else `UnexpectedCollaborator`.
pub fn assert_is_token_program(account: &Account) -> (r: Result<(), CustodyError>)
    ensures
        r == (if is_token_program_id(account.key@) {
            Ok::<(), CustodyError>(())
        } else {
            Err(CustodyError::UnexpectedCollaborator)
        }),
{
    let is_token = check_token_program_id(&account.key);
    assert_with_msg(is_token, CustodyError::UnexpectedCollaborator, "expected the token program")
}

/// The account exists: it holds lamports, else `AccountNotFound`.
pub fn assert_is_initialized(account: &Account) -> (r: Result<(), CustodyError>)
    ensures
        r == (if account.lamports > 0 {
            Ok::<(), CustodyError>(())
        } else {
            Err(CustodyError::AccountNotFound)
        }),
{
    assert_with_msg(account.lamports > 0, CustodyError::AccountNotFound, "account is not initialized")
}

/// The account's data belongs to `expected`, else `OwnerMismatch`.
pub fn assert_owned_by(account: &Account, expected: &Address) -> (r: Result<(), CustodyError>)
    ensures
        r == (if account.owner@ == expected@ {
            Ok::<(), CustodyError>(())
        } else {
            Err(CustodyError::OwnerMismatch)
        }),
{
    let owned = account.owner.same_as(expected);
    assert_with_msg(owned, CustodyError::OwnerMismatch, "account has another owner")
}

} // verus!
