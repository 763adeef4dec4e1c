//! Moving tokens between token accounts, as the token program does it.
use vstd::prelude::*;
use crate::account::{Account, TokenBalance};
use crate::address::Address;
use crate::error::CustodyError;

verus! {

/// The balance of a token account.
pub open spec fn balance(a: Account) -> int {
    a.token.unwrap().amount as int
}

/// Why moving `amount` from `from` to `to` with the signature of `authority` is
/// refused, if it is: either is no token account or they hold different
/// currencies; `authority` does not control `from`; `from` holds too little
/// (the error `short`); `to` would overflow.
pub open spec fn transfer_refusal(
    from: Account,
    to: Account,
    authority: Seq<u8>,
    amount: u64,
    short: CustodyError,
) -> Option<CustodyError> {
    if from.token is None || to.token is None || from.token.unwrap().mint@ != to.token.unwrap().mint@ {
        Some(CustodyError::InvalidAccountData)
    } else if from.token.unwrap().authority@ != authority {
        Some(CustodyError::OwnerMismatch)
    } else if from.token.unwrap().amount < amount {
        Some(short)
    } else if to.token.unwrap().amount + amount > u64::MAX {
        Some(CustodyError::ArithmeticOverflow)
    } else {
        None
    }
}

/// `new` is `old` with its token balance changed to `amount`.
pub open spec fn rebalanced(old: Account, new: Account, amount: int) -> bool {
    &&& new.key == old.key
    &&& new.owner == old.owner
    &&& new.lamports == old.lamports
    &&& new.data == old.data
    &&& new.is_signer == old.is_signer
    &&& new.is_writable == old.is_writable
    &&& new.token is Some
    &&& old.token is Some
    &&& new.token.unwrap().mint == old.token.unwrap().mint
    &&& new.token.unwrap().authority == old.token.unwrap().authority
    &&& new.token.unwrap().amount == amount
}

/// Checks a transfer without making it.
pub(crate) fn check_transfer(
    accounts: &Vec<Account>,
    from: usize,
    to: usize,
    authority: &Address,
    amount: u64,
    short: CustodyError,
) -> (r: Result<(), CustodyError>)
    requires
        from < accounts@.len(),
        to < accounts@.len(),
    ensures
        r == (match transfer_refusal(accounts@[from as int], accounts@[to as int], authority@, amount, short) {
            Some(e) => Err::<(), CustodyError>(e),
            None => Ok(()),
        }),
{
    let (f, t) = match (accounts[from].token, accounts[to].token) {
        (Some(f), Some(t)) => (f, t),
        _ => return Err(CustodyError::InvalidAccountData),
    };
    if !f.mint.same_as(&t.mint) {
        return Err(CustodyError::InvalidAccountData);
    }
    if !f.authority.same_as(authority) {
        return Err(CustodyError::OwnerMismatch);
    }
    if f.amount < amount {
        return Err(short);
    }
    if t.amount > u64::MAX - amount {
        return Err(CustodyError::ArithmeticOverflow);
    }
    Ok(())
}

/// Moves `amount` tokens from the account at `from` to the account at `to`, once
/// `check_transfer` has passed.
pub(crate) fn apply_transfer(accounts: &mut Vec<Account>, from: usize, to: usize, amount: u64)
    requires
        from < old(accounts)@.len(),
        to < old(accounts)@.len(),
        from != to,
        exists|a: Seq<u8>, e: CustodyError|
            transfer_refusal(old(accounts)@[from as int], old(accounts)@[to as int], a, amount, e)
                is None,
    ensures
        final(accounts)@.len() == old(accounts)@.len(),
        forall|j: int|
            0 <= j < old(accounts)@.len() && j != from && j != to ==> final(accounts)@[j] == old(
                accounts,
            )@[j],
        rebalanced(old(accounts)@[from as int], final(accounts)@[from as int], balance(old(accounts)@[from as int]) - amount),
        rebalanced(old(accounts)@[to as int], final(accounts)@[to as int], balance(old(accounts)@[to as int]) + amount),
{
    let f = accounts[from].token.unwrap();
    let t = accounts[to].token.unwrap();
    accounts[from].token = Some(TokenBalance { mint: f.mint, authority: f.authority, amount: f.amount - amount });
    accounts[to].token = Some(TokenBalance { mint: t.mint, authority: t.authority, amount: t.amount + amount });
}

} // verus!
