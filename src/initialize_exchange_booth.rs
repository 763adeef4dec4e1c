//! Opening an exchange booth: its state account and its two vaults, all at
//! addresses derived from the booth's identity.
use vstd::prelude::*;
use crate::account::{
    Account, Rent, TokenBalance, assert_is_signer, assert_is_system_program, assert_is_token_program,
    is_closed, is_token_program_id, is_vacant, system_program_id,
};
use crate::address::{Address, derive_address, derived_address};
use crate::echo::zeros;
use crate::error::CustodyError;
use crate::exchange_booth::{state_seed_list, state_seeds, vault_seed_list, vault_seeds};
use crate::mint::{mint_readable, read_mint};
use crate::state::{ExchangeBooth, booth_layout};

verus! {

/// Relies on `Pack::get_packed_len` of `spl_token::state::Account`: a token
/// account takes 165 bytes.
#[verifier::external_body]
fn token_account_len() -> (r: usize)
    ensures
        r == 165,
{
    <spl_token::state::Account as solana_program::program_pack::Pack>::get_packed_len()
}

/// The booth record that opening writes: the admin, the two mints with the
/// decimals read from their accounts, the oracle, and no fee.
pub open spec fn opened_booth(old: Seq<Account>) -> ExchangeBooth {
    ExchangeBooth {
        admin: old[0].key,
        mint_base: old[1].key,
        decimals_base: old[1].data@[44],
        mint_quote: old[2].key,
        decimals_quote: old[2].data@[44],
        oracle: old[3].key,
        fee: 0,
    }
}

/// Lamports that opening takes from the admin: the state account's and both vaults'.
pub open spec fn opening_cost(rent: Rent) -> int {
    rent.minimum_balance_of(138) + 2 * rent.minimum_balance_of(165)
}

/// The checks that opening makes on the accounts `[admin, base mint, quote mint,
/// oracle, token program, system program, rent, state, base vault, quote vault]`:
/// the first that fails.
pub open spec fn open_refusal(
    program_id: Seq<u8>,
    rent: Rent,
    old: Seq<Account>,
    state_bump: u8,
    vault_base_bump: u8,
    vault_quote_bump: u8,
) -> Option<CustodyError> {
    if old.len() < 10 {
        Some(CustodyError::NotEnoughAccounts)
    } else if is_closed(old[7]) || is_closed(old[8]) || is_closed(old[9]) {
        Some(CustodyError::AccountNotFound)
    } else if !old[0].is_signer {
        Some(CustodyError::MissingSignature)
    } else if !old[7].is_writable || !old[8].is_writable || !old[9].is_writable {
        Some(CustodyError::NotWritable)
    } else if old[5].key@ != system_program_id() || !is_token_program_id(old[4].key@) {
        Some(CustodyError::UnexpectedCollaborator)
    } else if derived_address(state_seeds(old[0].key@, old[1].key@, old[2].key@, old[3].key@), program_id)
        != Some((old[7].key@, state_bump)) || derived_address(
        vault_seeds(true, old[7].key@, old[1].key@),
        program_id,
    ) != Some((old[8].key@, vault_base_bump)) || derived_address(
        vault_seeds(false, old[7].key@, old[2].key@),
        program_id,
    ) != Some((old[9].key@, vault_quote_bump)) {
        Some(CustodyError::AddressMismatch)
    } else if !mint_readable(old[1].data@) || !mint_readable(old[2].data@) {
        Some(CustodyError::InvalidAccountData)
    } else if !is_vacant(old[7]) || !is_vacant(old[8]) || !is_vacant(old[9]) {
        Some(CustodyError::AccountAlreadyInUse)
    } else if opening_cost(rent) > u64::MAX {
        Some(CustodyError::ArithmeticOverflow)
    } else if old[0].lamports < opening_cost(rent) {
        Some(CustodyError::InsufficientFunds)
    } else {
        None
    }
}

/// A vault as opening leaves it: a token account of the token program, with the
/// 165 bytes of a token account, holding nothing of `mint`, which only the
/// vault's own address controls.
pub open spec fn opened_vault(
    old: Account,
    new: Account,
    token_program: Seq<u8>,
    mint: Address,
    deposit: int,
) -> bool {
    &&& new.key == old.key
    &&& new.is_signer == old.is_signer
    &&& new.is_writable == old.is_writable
    &&& new.owner@ == token_program
    &&& new.lamports == deposit
    &&& new.data@ == Seq::new(165, |i: int| 0u8)
    &&& new.token is Some
    &&& new.token.unwrap().mint == mint
    &&& new.token.unwrap().authority == old.key
    &&& new.token.unwrap().amount == 0
}

/// What opening a booth does.
pub open spec fn open_outcome(
    program_id: Seq<u8>,
    rent: Rent,
    old: Seq<Account>,
    new: Seq<Account>,
    state_bump: u8,
    vault_base_bump: u8,
    vault_quote_bump: u8,
    r: Result<(), CustodyError>,
) -> bool {
    let refusal = open_refusal(program_id, rent, old, state_bump, vault_base_bump, vault_quote_bump);
    if refusal is Some {
        r == Err::<(), CustodyError>(refusal.unwrap()) && new == old
    } else {
        &&& r is Ok
        &&& new.len() == old.len()
        &&& forall|j: int| 1 <= j < old.len() && j != 7 && j != 8 && j != 9 ==> new[j] == old[j]
        &&& new[0].key == old[0].key
        &&& new[0].owner == old[0].owner
        &&& new[0].data == old[0].data
        &&& new[0].is_signer == old[0].is_signer
        &&& new[0].is_writable == old[0].is_writable
        &&& new[0].token == old[0].token
        &&& new[0].lamports == old[0].lamports - opening_cost(rent)
        &&& new[7].key == old[7].key
        &&& new[7].is_signer == old[7].is_signer
        &&& new[7].is_writable == old[7].is_writable
        &&& new[7].token == old[7].token
        &&& new[7].owner@ == program_id
        &&& new[7].lamports == rent.minimum_balance_of(138)
        &&& new[7].data@ == booth_layout(opened_booth(old))
        &&& opened_vault(old[8], new[8], old[4].key@, old[1].key, rent.minimum_balance_of(165))
        &&& opened_vault(old[9], new[9], old[4].key@, old[2].key, rent.minimum_balance_of(165))
    }
}

/// The seeds derive `key` with the bump `bump`, else `AddressMismatch`.
fn check_derived(seeds: &Vec<Vec<u8>>, program_id: &Address, bump: u8, key: &Address) -> (r: Result<
    (),
    CustodyError,
>)
    ensures
        r is Ok <==> derived_address(seeds.deep_view(), program_id@) == Some((key@, bump)),
        r is Err ==> r == Err::<(), CustodyError>(CustodyError::AddressMismatch),
{
    match derive_address(seeds, program_id) {
        Some((derived, derived_bump)) => {
            if derived.same_as(key) && derived_bump == bump {
                Ok(())
            } else {
                Err(CustodyError::AddressMismatch)
            }
        },
        None => Err(CustodyError::AddressMismatch),
    }
}

fn read_decimals(mint: &Account) -> (r: Result<u8, CustodyError>)
    ensures
        r is Ok <==> mint_readable(mint.data@),
        r matches Ok(d) ==> d == mint.data@[44],
        r matches Err(e) ==> e == CustodyError::InvalidAccountData,
{
    match read_mint(&mint.data) {
        Some((_supply, decimals)) => Ok(decimals),
        None => Err(CustodyError::InvalidAccountData),
    }
}

/// Opens an exchange booth for the admin `accounts[0]`, the currencies
/// `accounts[1]` and `accounts[2]` and the oracle `accounts[3]`: creates the
/// state account `accounts[7]` and the vaults `accounts[8]`, `accounts[9]` at
/// the addresses their seeds and the given bumps derive, reads each currency's
/// decimals from its mint, and sets no fee. The admin pays for the storage.
pub fn process(
    program_id: &Address,
    rent: &Rent,
    accounts: &mut Vec<Account>,
    state_bump: u8,
    vault_base_bump: u8,
    vault_quote_bump: u8,
) -> (r: Result<(), CustodyError>)
    ensures
        open_outcome(
            program_id@,
            *rent,
            old(accounts)@,
            final(accounts)@,
            state_bump,
            vault_base_bump,
            vault_quote_bump,
            r,
        ),
{
    if accounts.len() < 10 {
        return Err(CustodyError::NotEnoughAccounts);
    }
    if accounts[7].lamports == 0 && accounts[7].data.len() > 0 || accounts[8].lamports == 0
        && accounts[8].data.len() > 0 || accounts[9].lamports == 0 && accounts[9].data.len() > 0 {
        return Err(CustodyError::AccountNotFound);
    }
    assert_is_signer(&accounts[0])?;
    if !accounts[7].is_writable || !accounts[8].is_writable || !accounts[9].is_writable {
        return Err(CustodyError::NotWritable);
    }
    assert_is_system_program(&accounts[5])?;
    assert_is_token_program(&accounts[4])?;
    let state_key = accounts[7].key;
    let seeds = state_seed_list(&accounts[0].key, &accounts[1].key, &accounts[2].key, &accounts[3].key);
    check_derived(&seeds, program_id, state_bump, &state_key)?;
    let base_seeds = vault_seed_list(true, &state_key, &accounts[1].key);
    check_derived(&base_seeds, program_id, vault_base_bump, &accounts[8].key)?;
    let quote_seeds = vault_seed_list(false, &state_key, &accounts[2].key);
    check_derived(&quote_seeds, program_id, vault_quote_bump, &accounts[9].key)?;
    let decimals_base = read_decimals(&accounts[1])?;
    let decimals_quote = read_decimals(&accounts[2])?;
    if accounts[7].lamports > 0 || accounts[7].data.len() > 0 || accounts[8].lamports > 0
        || accounts[8].data.len() > 0 || accounts[9].lamports > 0 || accounts[9].data.len() > 0 {
        return Err(CustodyError::AccountAlreadyInUse);
    }
    let state_len = match ExchangeBooth::get_serialized_size() {
        Ok(n) => n,
        Err(e) => return Err(e),
    };
    let vault_len = token_account_len();
    let state_deposit = match rent.minimum_balance(state_len as u64) {
        Some(v) => v,
        None => return Err(CustodyError::ArithmeticOverflow),
    };
    let vault_deposit = match rent.minimum_balance(vault_len as u64) {
        Some(v) => v,
        None => return Err(CustodyError::ArithmeticOverflow),
    };
    let cost = (state_deposit as u128) + 2 * (vault_deposit as u128);
    if cost > u64::MAX as u128 {
        return Err(CustodyError::ArithmeticOverflow);
    }
    if (accounts[0].lamports as u128) < cost {
        return Err(CustodyError::InsufficientFunds);
    }
    let booth = ExchangeBooth {
        admin: accounts[0].key,
        mint_base: accounts[1].key,
        decimals_base,
        mint_quote: accounts[2].key,
        decimals_quote,
        oracle: accounts[3].key,
        fee: 0,
    };
    let record = booth.pack();
    let token_program = accounts[4].key;
    let mint_base = accounts[1].key;
    let mint_quote = accounts[2].key;
    let vault_base = accounts[8].key;
    let vault_quote = accounts[9].key;
    let left = accounts[0].lamports - cost as u64;
    accounts[0].lamports = left;
    accounts[7].lamports = state_deposit;
    accounts[7].owner = *program_id;
    accounts[7].data = record;
    accounts[8].lamports = vault_deposit;
    accounts[8].owner = token_program;
    accounts[8].data = zeros(vault_len);
    accounts[8].token = Some(TokenBalance { mint: mint_base, authority: vault_base, amount: 0 });
    accounts[9].lamports = vault_deposit;
    accounts[9].owner = token_program;
    accounts[9].data = zeros(vault_len);
    accounts[9].token = Some(TokenBalance { mint: mint_quote, authority: vault_quote, amount: 0 });
    Ok(())
}

/// Opening is tied to the booth's identity: two successful openings for the same
/// admin, mints and oracle accept the same state account, the same vaults and
/// the same bumps.
pub proof fn lemma_opening_is_determined(
    program_id: Seq<u8>,
    rent1: Rent,
    old1: Seq<Account>,
    new1: Seq<Account>,
    bumps1: (u8, u8, u8),
    rent2: Rent,
    old2: Seq<Account>,
    new2: Seq<Account>,
    bumps2: (u8, u8, u8),
)
    requires
        open_outcome(program_id, rent1, old1, new1, bumps1.0, bumps1.1, bumps1.2, Ok(())),
        open_outcome(program_id, rent2, old2, new2, bumps2.0, bumps2.1, bumps2.2, Ok(())),
        old1[0].key@ == old2[0].key@,
        old1[1].key@ == old2[1].key@,
        old1[2].key@ == old2[2].key@,
        old1[3].key@ == old2[3].key@,
    ensures
        old1[7].key@ == old2[7].key@,
        old1[8].key@ == old2[8].key@,
        old1[9].key@ == old2[9].key@,
        bumps1 == bumps2,
{
}

} // verus!
