//! The exchange booth: an admin's two vaults of two currencies, deposits and
//! withdrawals by the admin, exchanges by anyone at the oracle's rate less a fee,
//! and closing.
use vstd::prelude::*;
use crate::account::{
    Account, Rent, assert_is_initialized, assert_is_token_program, is_token_program_id,
    system_program_id,
};
use crate::address::{Address, derive_address, derives_to};
use crate::conversion::{Rate, conversion_fits, convert, converted, lemma_no_fee_output, pow10};
use crate::echo::zeros;
use crate::error::CustodyError;
use crate::initialize_exchange_booth::open_outcome;
use crate::instruction::{
    ExchangeBoothInstruction, booth_instruction_decodes, booth_instruction_layout, carried_address,
    carried_amount, lemma_booth_fields_carried,
};
use crate::state::{
    ExchangeBooth, booth_decodes, booth_layout, lemma_booth_fields, stored_admin, stored_decimals_base,
    stored_decimals_quote, stored_fee, stored_mint_base, stored_mint_quote, stored_oracle,
};
use crate::token::{apply_transfer, balance, check_transfer, rebalanced, transfer_refusal};

verus! {

/// The bytes of the seed tag `vault_base`.
pub open spec fn vault_base_tag() -> Seq<u8> {
    seq![0x76u8, 0x61, 0x75, 0x6c, 0x74, 0x5f, 0x62, 0x61, 0x73, 0x65]
}

/// The bytes of the seed tag `vault_quote`.
pub open spec fn vault_quote_tag() -> Seq<u8> {
    seq![0x76u8, 0x61, 0x75, 0x6c, 0x74, 0x5f, 0x71, 0x75, 0x6f, 0x74, 0x65]
}

/// The bytes of the seed tag `state_info`.
pub open spec fn state_info_tag() -> Seq<u8> {
    seq![0x73u8, 0x74, 0x61, 0x74, 0x65, 0x5f, 0x69, 0x6e, 0x66, 0x6f]
}

/// The seeds of a booth's vault for one of its currencies.
pub open spec fn vault_seeds(is_base: bool, state: Seq<u8>, mint: Seq<u8>) -> Seq<Seq<u8>> {
    seq![if is_base { vault_base_tag() } else { vault_quote_tag() }, state, mint]
}

/// The seeds of a booth's state account.
pub open spec fn state_seeds(admin: Seq<u8>, mint_base: Seq<u8>, mint_quote: Seq<u8>, oracle: Seq<u8>) -> Seq<
    Seq<u8>,
> {
    seq![state_info_tag(), admin, mint_base, mint_quote, oracle]
}

/// Whether `mint` is one of the currencies of the booth stored in `s`.
pub open spec fn is_booth_mint(s: Seq<u8>, mint: Seq<u8>) -> bool {
    mint == stored_mint_base(s) || mint == stored_mint_quote(s)
}

/// Why the state account does not hold a live booth of this program, if it does not.
pub open spec fn state_refusal(program_id: Seq<u8>, state: Account) -> Option<CustodyError> {
    if state.lamports == 0 {
        Some(CustodyError::AccountNotFound)
    } else if state.owner@ != program_id {
        Some(CustodyError::OwnerMismatch)
    } else if !booth_decodes(state.data@) {
        Some(CustodyError::InvalidAccountData)
    } else {
        None
    }
}

/// The checks that a deposit or a withdrawal makes on the accounts
/// `[admin, admin's token account, token program, vault, state]`: the first that fails.
pub open spec fn admin_move_refusal(program_id: Seq<u8>, old: Seq<Account>, mint: Seq<u8>) -> Option<
    CustodyError,
> {
    if old.len() < 5 {
        Some(CustodyError::NotEnoughAccounts)
    } else if state_refusal(program_id, old[4]) is Some {
        state_refusal(program_id, old[4])
    } else if !old[0].is_signer || old[0].key@ != stored_admin(old[4].data@) {
        Some(CustodyError::MissingSignature)
    } else if !old[1].is_writable || !old[3].is_writable {
        Some(CustodyError::NotWritable)
    } else if !is_token_program_id(old[2].key@) {
        Some(CustodyError::UnexpectedCollaborator)
    } else if !is_booth_mint(old[4].data@, mint) {
        Some(CustodyError::UnknownMint)
    } else if old[3].lamports == 0 {
        Some(CustodyError::AccountNotFound)
    } else if !derives_to(
        vault_seeds(mint == stored_mint_base(old[4].data@), old[4].key@, mint),
        program_id,
        old[3].key@,
    ) {
        Some(CustodyError::AddressMismatch)
    } else if !controls_itself(old[3]) {
        Some(CustodyError::OwnerMismatch)
    } else {
        None
    }
}

/// A token account whose tokens only its own address may move, as a vault's.
pub open spec fn controls_itself(a: Account) -> bool {
    a.token is Some ==> a.token.unwrap().authority@ == a.key@
}

/// What a deposit does to `[admin, admin's token account, token program, vault, state]`.
pub open spec fn deposit_outcome(
    program_id: Seq<u8>,
    old: Seq<Account>,
    new: Seq<Account>,
    mint: Seq<u8>,
    amount: u64,
    r: Result<(), CustodyError>,
) -> bool {
    if admin_move_refusal(program_id, old, mint) is Some {
        r == Err::<(), CustodyError>(admin_move_refusal(program_id, old, mint).unwrap()) && new == old
    } else if transfer_refusal(old[1], old[3], old[0].key@, amount, CustodyError::InsufficientFunds) is Some {
        r == Err::<(), CustodyError>(
            transfer_refusal(old[1], old[3], old[0].key@, amount, CustodyError::InsufficientFunds).unwrap(),
        ) && new == old
    } else {
        &&& r is Ok
        &&& new.len() == old.len()
        &&& forall|j: int| 0 <= j < old.len() && j != 1 && j != 3 ==> new[j] == old[j]
        &&& rebalanced(old[1], new[1], balance(old[1]) - amount)
        &&& rebalanced(old[3], new[3], balance(old[3]) + amount)
    }
}

/// What a withdrawal does to `[admin, admin's token account, token program, vault, state]`.
pub open spec fn withdraw_outcome(
    program_id: Seq<u8>,
    old: Seq<Account>,
    new: Seq<Account>,
    mint: Seq<u8>,
    amount: u64,
    r: Result<(), CustodyError>,
) -> bool {
    if admin_move_refusal(program_id, old, mint) is Some {
        r == Err::<(), CustodyError>(admin_move_refusal(program_id, old, mint).unwrap()) && new == old
    } else if transfer_refusal(old[3], old[1], old[3].key@, amount, CustodyError::InsufficientVaultBalance)
        is Some {
        r == Err::<(), CustodyError>(
            transfer_refusal(
                old[3],
                old[1],
                old[3].key@,
                amount,
                CustodyError::InsufficientVaultBalance,
            ).unwrap(),
        ) && new == old
    } else {
        &&& r is Ok
        &&& new.len() == old.len()
        &&& forall|j: int| 0 <= j < old.len() && j != 1 && j != 3 ==> new[j] == old[j]
        &&& rebalanced(old[3], new[3], balance(old[3]) - amount)
        &&& rebalanced(old[1], new[1], balance(old[1]) + amount)
    }
}

/// The rate as a fraction from the input currency to the other: the oracle's
/// price of base in quote where the input is base, its inverse where it is quote.
pub open spec fn directed_rate(input_is_base: bool, rate: Rate) -> (u64, u64) {
    if input_is_base {
        (rate.numerator, rate.denominator)
    } else {
        (rate.denominator, rate.numerator)
    }
}

/// What `amount` of the input currency buys from the booth stored in `s`.
pub open spec fn exchange_output(s: Seq<u8>, input_mint: Seq<u8>, rate: Rate, amount: u64) -> int {
    let is_base = input_mint == stored_mint_base(s);
    let (rn, rd) = directed_rate(is_base, rate);
    let din = if is_base { stored_decimals_base(s) } else { stored_decimals_quote(s) };
    let dout = if is_base { stored_decimals_quote(s) } else { stored_decimals_base(s) };
    converted(amount, rn, rd, din, dout, stored_fee(s))
}

/// Whether the output of the exchange can be computed and held.
pub open spec fn exchange_fits(s: Seq<u8>, input_mint: Seq<u8>, rate: Rate, amount: u64) -> bool {
    let is_base = input_mint == stored_mint_base(s);
    let (rn, rd) = directed_rate(is_base, rate);
    let din = if is_base { stored_decimals_base(s) } else { stored_decimals_quote(s) };
    let dout = if is_base { stored_decimals_quote(s) } else { stored_decimals_base(s) };
    conversion_fits(amount, rn, rd, din, dout, stored_fee(s))
}

/// The checks that an exchange makes on the accounts
/// `[user, user's input account, user's output account, oracle, token program,
/// base vault, quote vault, state]` and on the oracle's answer: the first that fails.
pub open spec fn exchange_refusal(
    program_id: Seq<u8>,
    old: Seq<Account>,
    input_mint: Seq<u8>,
    rate: Option<Rate>,
    amount: u64,
) -> Option<CustodyError> {
    if old.len() < 8 {
        Some(CustodyError::NotEnoughAccounts)
    } else if state_refusal(program_id, old[7]) is Some {
        state_refusal(program_id, old[7])
    } else if !old[0].is_signer {
        Some(CustodyError::MissingSignature)
    } else if !old[1].is_writable || !old[2].is_writable || !old[5].is_writable || !old[6].is_writable {
        Some(CustodyError::NotWritable)
    } else if !is_token_program_id(old[4].key@) || old[3].key@ != stored_oracle(old[7].data@) {
        Some(CustodyError::UnexpectedCollaborator)
    } else if !is_booth_mint(old[7].data@, input_mint) {
        Some(CustodyError::UnknownMint)
    } else if old[5].lamports == 0 || old[6].lamports == 0 {
        Some(CustodyError::AccountNotFound)
    } else if !derives_to(
        vault_seeds(true, old[7].key@, stored_mint_base(old[7].data@)),
        program_id,
        old[5].key@,
    ) || !derives_to(
        vault_seeds(false, old[7].key@, stored_mint_quote(old[7].data@)),
        program_id,
        old[6].key@,
    ) {
        Some(CustodyError::AddressMismatch)
    } else if rate is None || rate.unwrap().numerator == 0 || rate.unwrap().denominator == 0 {
        Some(CustodyError::OracleUnavailable)
    } else if !exchange_fits(old[7].data@, input_mint, rate.unwrap(), amount) {
        Some(CustodyError::ArithmeticOverflow)
    } else {
        None
    }
}

/// What an exchange does: the user pays `amount` into the vault of the input
/// currency, and the vault of the other currency pays the output to the user.
pub open spec fn exchange_outcome(
    program_id: Seq<u8>,
    old: Seq<Account>,
    new: Seq<Account>,
    input_mint: Seq<u8>,
    rate: Option<Rate>,
    amount: u64,
    r: Result<(), CustodyError>,
) -> bool {
    let vin: int = if input_mint == stored_mint_base(old[7].data@) { 5 } else { 6 };
    let vout: int = if input_mint == stored_mint_base(old[7].data@) { 6 } else { 5 };
    let out = exchange_output(old[7].data@, input_mint, rate.unwrap(), amount);
    if exchange_refusal(program_id, old, input_mint, rate, amount) is Some {
        r == Err::<(), CustodyError>(exchange_refusal(program_id, old, input_mint, rate, amount).unwrap())
            && new == old
    } else if transfer_refusal(old[1], old[vin], old[0].key@, amount, CustodyError::InsufficientFunds)
        is Some {
        r == Err::<(), CustodyError>(
            transfer_refusal(old[1], old[vin], old[0].key@, amount, CustodyError::InsufficientFunds).unwrap(),
        ) && new == old
    } else if transfer_refusal(
        old[vout],
        old[2],
        old[vout].key@,
        out as u64,
        CustodyError::InsufficientVaultBalance,
    ) is Some {
        r == Err::<(), CustodyError>(
            transfer_refusal(
                old[vout],
                old[2],
                old[vout].key@,
                out as u64,
                CustodyError::InsufficientVaultBalance,
            ).unwrap(),
        ) && new == old
    } else {
        &&& r is Ok
        &&& new.len() == old.len()
        &&& forall|j: int|
            0 <= j < old.len() && j != 1 && j != 2 && j != 5 && j != 6 ==> new[j] == old[j]
        &&& rebalanced(old[1], new[1], balance(old[1]) - amount)
        &&& rebalanced(old[vin], new[vin], balance(old[vin]) + amount)
        &&& rebalanced(old[vout], new[vout], balance(old[vout]) - out)
        &&& rebalanced(old[2], new[2], balance(old[2]) + out)
    }
}

/// The account after closing: no lamports, no tokens, its bytes zeroed but kept
/// (so that it cannot be created again), back with the system program.
pub open spec fn closed(old: Account, new: Account) -> bool {
    &&& new.key == old.key
    &&& new.is_signer == old.is_signer
    &&& new.is_writable == old.is_writable
    &&& new.lamports == 0
    &&& new.data@ == Seq::new(old.data@.len(), |i: int| 0u8)
    &&& new.owner@ == system_program_id()
    &&& new.token is None
}

/// The tokens a token account holds.
pub open spec fn holding(a: Account) -> u64 {
    a.token.unwrap().amount
}

/// The checks that closing makes on the accounts `[admin, admin's base account,
/// admin's quote account, token program, base vault, quote vault, state]`: the
/// first that fails.
pub open spec fn close_refusal(program_id: Seq<u8>, old: Seq<Account>) -> Option<CustodyError> {
    if old.len() < 7 {
        Some(CustodyError::NotEnoughAccounts)
    } else if state_refusal(program_id, old[6]) is Some {
        state_refusal(program_id, old[6])
    } else if !old[0].is_signer || old[0].key@ != stored_admin(old[6].data@) {
        Some(CustodyError::MissingSignature)
    } else if !old[1].is_writable || !old[2].is_writable || !old[4].is_writable || !old[5].is_writable
        || !old[6].is_writable {
        Some(CustodyError::NotWritable)
    } else if !is_token_program_id(old[3].key@) {
        Some(CustodyError::UnexpectedCollaborator)
    } else if old[4].lamports == 0 || old[5].lamports == 0 {
        Some(CustodyError::AccountNotFound)
    } else if !derives_to(
        vault_seeds(true, old[6].key@, stored_mint_base(old[6].data@)),
        program_id,
        old[4].key@,
    ) || !derives_to(
        vault_seeds(false, old[6].key@, stored_mint_quote(old[6].data@)),
        program_id,
        old[5].key@,
    ) {
        Some(CustodyError::AddressMismatch)
    } else if old[4].data@.len() == 0 || old[5].data@.len() == 0 {
        Some(CustodyError::InvalidAccountData)
    } else if transfer_refusal(
        old[4],
        old[1],
        old[4].key@,
        holding(old[4]),
        CustodyError::InsufficientVaultBalance,
    ) is Some {
        transfer_refusal(old[4], old[1], old[4].key@, holding(old[4]), CustodyError::InsufficientVaultBalance)
    } else if transfer_refusal(
        old[5],
        old[2],
        old[5].key@,
        holding(old[5]),
        CustodyError::InsufficientVaultBalance,
    ) is Some {
        transfer_refusal(old[5], old[2], old[5].key@, holding(old[5]), CustodyError::InsufficientVaultBalance)
    } else if old[0].lamports + old[4].lamports + old[5].lamports + old[6].lamports > u64::MAX {
        Some(CustodyError::ArithmeticOverflow)
    } else {
        None
    }
}

/// What closing does: both vaults pay all they hold to the admin's token
/// accounts, and the vaults and the state account are closed, their lamports
/// refunded to the admin.
pub open spec fn close_outcome(
    program_id: Seq<u8>,
    old: Seq<Account>,
    new: Seq<Account>,
    r: Result<(), CustodyError>,
) -> bool {
    if close_refusal(program_id, old) is Some {
        r == Err::<(), CustodyError>(close_refusal(program_id, old).unwrap()) && new == old
    } else {
        &&& r is Ok
        &&& new.len() == old.len()
        &&& forall|j: int| 0 <= j < old.len() && (j == 3 || j >= 7) ==> new[j] == old[j]
        &&& rebalanced(old[1], new[1], balance(old[1]) + holding(old[4]))
        &&& rebalanced(old[2], new[2], balance(old[2]) + holding(old[5]))
        &&& closed(old[4], new[4])
        &&& closed(old[5], new[5])
        &&& closed(old[6], new[6])
        &&& new[0].key == old[0].key
        &&& new[0].owner == old[0].owner
        &&& new[0].data == old[0].data
        &&& new[0].is_signer == old[0].is_signer
        &&& new[0].is_writable == old[0].is_writable
        &&& new[0].token == old[0].token
        &&& new[0].lamports == old[0].lamports + old[4].lamports + old[5].lamports + old[6].lamports
    }
}

/// An exchange whose input currency is neither of the booth's fails and changes
/// no account; once the state, signature, accounts and collaborators check out,
/// the failure is `UnknownMint`.
pub proof fn lemma_unknown_mint_exchange(
    program_id: Seq<u8>,
    old: Seq<Account>,
    new: Seq<Account>,
    input_mint: Seq<u8>,
    rate: Option<Rate>,
    amount: u64,
    r: Result<(), CustodyError>,
)
    requires
        exchange_outcome(program_id, old, new, input_mint, rate, amount, r),
        old.len() >= 8,
        !is_booth_mint(old[7].data@, input_mint),
    ensures
        r is Err,
        new == old,
        ({
            &&& state_refusal(program_id, old[7]) is None
            &&& old[0].is_signer
            &&& old[1].is_writable && old[2].is_writable && old[5].is_writable && old[6].is_writable
            &&& is_token_program_id(old[4].key@)
            &&& old[3].key@ == stored_oracle(old[7].data@)
        }) ==> r == Err::<(), CustodyError>(CustodyError::UnknownMint),
{
}

/// Only the signing admin closes a booth; once closed, its state account and
/// vaults hold no lamports, every deposit, withdrawal, exchange or close that
/// names its state account fails with `AccountNotFound` and changes nothing, and
/// so does opening a booth at its state account or either vault.
pub proof fn lemma_closed_booth_refuses(
    program_id: Seq<u8>,
    before: Seq<Account>,
    after: Seq<Account>,
    r: Result<(), CustodyError>,
)
    requires
        close_outcome(program_id, before, after, r),
    ensures
        r is Ok ==> before[0].is_signer && before[0].key@ == stored_admin(before[6].data@),
        r is Ok ==> after[6].lamports == 0 && after[4].lamports == 0 && after[5].lamports == 0,
        r is Ok ==> forall|old: Seq<Account>, new: Seq<Account>, mint: Seq<u8>, amount: u64, res: Result<(), CustodyError>|
            old.len() >= 5 && old[4] == after[6] && #[trigger] deposit_outcome(program_id, old, new, mint, amount, res)
                ==> res == Err::<(), CustodyError>(CustodyError::AccountNotFound) && new == old,
        r is Ok ==> forall|old: Seq<Account>, new: Seq<Account>, mint: Seq<u8>, amount: u64, res: Result<(), CustodyError>|
            old.len() >= 5 && old[4] == after[6] && #[trigger] withdraw_outcome(program_id, old, new, mint, amount, res)
                ==> res == Err::<(), CustodyError>(CustodyError::AccountNotFound) && new == old,
        r is Ok ==> forall|old: Seq<Account>, new: Seq<Account>, mint: Seq<u8>, rate: Option<Rate>, amount: u64, res: Result<(), CustodyError>|
            old.len() >= 8 && old[7] == after[6] && #[trigger] exchange_outcome(program_id, old, new, mint, rate, amount, res)
                ==> res == Err::<(), CustodyError>(CustodyError::AccountNotFound) && new == old,
        r is Ok ==> forall|old: Seq<Account>, new: Seq<Account>, res: Result<(), CustodyError>|
            old.len() >= 7 && old[6] == after[6] && #[trigger] close_outcome(program_id, old, new, res)
                ==> res == Err::<(), CustodyError>(CustodyError::AccountNotFound) && new == old,        r is Ok ==> forall|
            rent: Rent,
            old: Seq<Account>,
            new: Seq<Account>,
            state_bump: u8,
            vault_base_bump: u8,
            vault_quote_bump: u8,
            res: Result<(), CustodyError>,
        |
            old.len() >= 10 && (old[7] == after[6] || old[8] == after[4] || old[9] == after[5])
                && #[trigger] open_outcome(
                program_id,
                rent,
                old,
                new,
                state_bump,
                vault_base_bump,
                vault_quote_bump,
                res,
            ) ==> res == Err::<(), CustodyError>(CustodyError::AccountNotFound) && new == old,
{
}

/// What the exchange booth does with encoded instruction `s` and its accounts;
/// `rate` is the oracle's answer, which only an exchange reads.
pub open spec fn booth_program_outcome(
    program_id: Seq<u8>,
    rent: Rent,
    rate: Option<Rate>,
    old: Seq<Account>,
    new: Seq<Account>,
    s: Seq<u8>,
    r: Result<(), CustodyError>,
) -> bool {
    if !booth_instruction_decodes(s) {
        r == Err::<(), CustodyError>(CustodyError::InvalidInstructionData) && new == old
    } else if s[0] == 0 {
        open_outcome(program_id, rent, old, new, s[3], s[1], s[2], r)
    } else if s[0] == 1 {
        deposit_outcome(program_id, old, new, carried_address(s), carried_amount(s), r)
    } else if s[0] == 2 {
        withdraw_outcome(program_id, old, new, carried_address(s), carried_amount(s), r)
    } else if s[0] == 3 {
        exchange_outcome(program_id, old, new, carried_address(s), rate, carried_amount(s), r)
    } else {
        close_outcome(program_id, old, new, r)
    }
}

/// A successful exchange takes `amount` from the user's input account and pays
/// the user the converted amount less the fee; with no fee that is the amount at
/// the directed rate, scaled by the decimals and rounded down:
/// `floor(amount * rn/rd * 10^dout / 10^din)`.
pub proof fn lemma_exchange_pays_converted(
    program_id: Seq<u8>,
    old: Seq<Account>,
    new: Seq<Account>,
    input_mint: Seq<u8>,
    rate: Rate,
    amount: u64,
)
    requires
        exchange_outcome(program_id, old, new, input_mint, Some(rate), amount, Ok(())),
    ensures
        balance(new[1]) == balance(old[1]) - amount,
        balance(new[2]) == balance(old[2]) + exchange_output(old[7].data@, input_mint, rate, amount),
        ({
            let s = old[7].data@;
            let is_base = input_mint == stored_mint_base(s);
            let (rn, rd) = directed_rate(is_base, rate);
            let din = if is_base { stored_decimals_base(s) } else { stored_decimals_quote(s) };
            let dout = if is_base { stored_decimals_quote(s) } else { stored_decimals_base(s) };
            stored_fee(s) == 0 ==> exchange_output(s, input_mint, rate, amount) == (amount * rn * pow10(
                dout as nat,
            )) / (rd * pow10(din as nat))
        }),
{
    let s = old[7].data@;
    let is_base = input_mint == stored_mint_base(s);
    let (rn, rd) = directed_rate(is_base, rate);
    let din = if is_base { stored_decimals_base(s) } else { stored_decimals_quote(s) };
    let dout = if is_base { stored_decimals_quote(s) } else { stored_decimals_base(s) };
    lemma_no_fee_output(amount, rn, rd, din, dout);
}

fn tag_bytes(tag: u8) -> (r: Vec<u8>)
    ensures
        tag == 0 ==> r@ == vault_base_tag(),
        tag == 1 ==> r@ == vault_quote_tag(),
        tag >= 2 ==> r@ == state_info_tag(),
{
    if tag == 0 {
        let r: Vec<u8> = vec![0x76u8, 0x61, 0x75, 0x6c, 0x74, 0x5f, 0x62, 0x61, 0x73, 0x65];
        assert(r@ =~= vault_base_tag());
        r
    } else if tag == 1 {
        let r: Vec<u8> = vec![0x76u8, 0x61, 0x75, 0x6c, 0x74, 0x5f, 0x71, 0x75, 0x6f, 0x74, 0x65];
        assert(r@ =~= vault_quote_tag());
        r
    } else {
        let r: Vec<u8> = vec![0x73u8, 0x74, 0x61, 0x74, 0x65, 0x5f, 0x69, 0x6e, 0x66, 0x6f];
        assert(r@ =~= state_info_tag());
        r
    }
}

/// The seeds of a booth's vault for one of its currencies, as bytes.
pub fn vault_seed_list(is_base: bool, state: &Address, mint: &Address) -> (r: Vec<Vec<u8>>)
    ensures
        r.deep_view() == vault_seeds(is_base, state@, mint@),
{
    let tag = tag_bytes(if is_base { 0 } else { 1 });
    let s = state.to_vec();
    let m = mint.to_vec();
    let ghost (t0, s0, m0) = (tag@, s@, m@);
    let r: Vec<Vec<u8>> = vec![tag, s, m];
    assert(r@[0].deep_view() =~= t0);
    assert(r@[1].deep_view() =~= s0);
    assert(r@[2].deep_view() =~= m0);
    assert(r.deep_view() =~= vault_seeds(is_base, state@, mint@));
    r
}

/// The seeds of a booth's state account, as bytes.
pub fn state_seed_list(admin: &Address, mint_base: &Address, mint_quote: &Address, oracle: &Address) -> (r:
    Vec<Vec<u8>>)
    ensures
        r.deep_view() == state_seeds(admin@, mint_base@, mint_quote@, oracle@),
{
    let tag = tag_bytes(2);
    let a = admin.to_vec();
    let b = mint_base.to_vec();
    let q = mint_quote.to_vec();
    let o = oracle.to_vec();
    let ghost (t0, a0, b0, q0, o0) = (tag@, a@, b@, q@, o@);
    let r: Vec<Vec<u8>> = vec![tag, a, b, q, o];
    assert(r@[0].deep_view() =~= t0);
    assert(r@[1].deep_view() =~= a0);
    assert(r@[2].deep_view() =~= b0);
    assert(r@[3].deep_view() =~= q0);
    assert(r@[4].deep_view() =~= o0);
    assert(r.deep_view() =~= state_seeds(admin@, mint_base@, mint_quote@, oracle@));
    r
}

/// The vault is at the address derived for the booth's currency `mint`, else
/// `AddressMismatch`.
fn check_vault(program_id: &Address, is_base: bool, state: &Address, mint: &Address, vault: &Address) -> (r:
    Result<(), CustodyError>)
    ensures
        r is Ok <==> derives_to(vault_seeds(is_base, state@, mint@), program_id@, vault@),
        r is Err ==> r == Err::<(), CustodyError>(CustodyError::AddressMismatch),
{
    let seeds = vault_seed_list(is_base, state, mint);
    match derive_address(&seeds, program_id) {
        Some((key, _bump)) => {
            if key.same_as(vault) {
                Ok(())
            } else {
                Err(CustodyError::AddressMismatch)
            }
        },
        None => Err(CustodyError::AddressMismatch),
    }
}

/// Reads the booth from its state account, which must exist and belong to this program.
fn load_booth(program_id: &Address, state: &Account) -> (r: Result<ExchangeBooth, CustodyError>)
    ensures
        r is Err <==> state_refusal(program_id@, *state) is Some,
        r matches Err(e) ==> state_refusal(program_id@, *state) == Some(e),
        r matches Ok(b) ==> booth_layout(b) == state.data@ && b.wf(),
{
    assert_is_initialized(state)?;
    if !state.owner.same_as(program_id) {
        return Err(CustodyError::OwnerMismatch);
    }
    ExchangeBooth::unpack(&state.data)
}

/// Checks a deposit or a withdrawal up to the transfer; tells whether `mint` is the
/// base currency.
fn check_admin_move(program_id: &Address, accounts: &Vec<Account>, mint: &Address) -> (r: Result<
    bool,
    CustodyError,
>)
    ensures
        r is Err <==> admin_move_refusal(program_id@, accounts@, mint@) is Some,
        r matches Err(e) ==> admin_move_refusal(program_id@, accounts@, mint@) == Some(e),
        r matches Ok(is_base) ==> is_base == (mint@ == stored_mint_base(accounts@[4].data@)),
{
    if accounts.len() < 5 {
        return Err(CustodyError::NotEnoughAccounts);
    }
    let booth = load_booth(program_id, &accounts[4])?;
    proof {
        lemma_booth_fields(booth);
    }
    if !accounts[0].is_signer || !accounts[0].key.same_as(&booth.admin) {
        return Err(CustodyError::MissingSignature);
    }
    if !accounts[1].is_writable || !accounts[3].is_writable {
        return Err(CustodyError::NotWritable);
    }
    assert_is_token_program(&accounts[2])?;
    let is_base = if mint.same_as(&booth.mint_base) {
        true
    } else if mint.same_as(&booth.mint_quote) {
        false
    } else {
        return Err(CustodyError::UnknownMint);
    };
    assert_is_initialized(&accounts[3])?;
    check_vault(program_id, is_base, &accounts[4].key, mint, &accounts[3].key)?;
    if let Some(t) = accounts[3].token {
        if !t.authority.same_as(&accounts[3].key) {
            return Err(CustodyError::OwnerMismatch);
        }
    }
    Ok(is_base)
}

/// Depositing an amount of a currency and then withdrawing the same amount with
/// the same accounts succeeds and gives the vault and the admin's token account
/// their balances back: a vault that held nothing holds nothing again.
pub proof fn lemma_deposit_then_withdraw(
    program_id: Seq<u8>,
    before: Seq<Account>,
    between: Seq<Account>,
    after: Seq<Account>,
    mint: Seq<u8>,
    amount: u64,
    r: Result<(), CustodyError>,
)
    requires
        deposit_outcome(program_id, before, between, mint, amount, Ok(())),
        withdraw_outcome(program_id, between, after, mint, amount, r),
    ensures
        r is Ok,
        balance(after[3]) == balance(before[3]),
        balance(after[1]) == balance(before[1]),
        balance(before[3]) == 0 ==> balance(after[3]) == 0,
{
    assert(between[4] == before[4]);
    assert(between[0] == before[0]);
    assert(between[2] == before[2]);
    assert(admin_move_refusal(program_id, between, mint) is None);
    assert(transfer_refusal(between[3], between[1], between[3].key@, amount, CustodyError::InsufficientVaultBalance) is None);
}

/// Closes the account at `i`: no lamports, zeroed bytes, no tokens, owned by
/// the system program.
fn shut(accounts: &mut Vec<Account>, i: usize)
    requires
        i < old(accounts)@.len(),
    ensures
        final(accounts)@.len() == old(accounts)@.len(),
        forall|j: int| 0 <= j < old(accounts)@.len() && j != i ==> final(accounts)@[j] == old(accounts)@[j],
        closed(old(accounts)@[i as int], final(accounts)@[i as int]),
{
    let len = accounts[i].data.len();
    accounts[i].lamports = 0;
    accounts[i].data = zeros(len);
    accounts[i].owner = Address { bytes: [0u8; 32] };
    accounts[i].token = None;
    assert(accounts@[i as int].owner@ =~= system_program_id());
}

/// Handlers of the exchange booth's instructions.
pub struct Processor {}

impl Processor {
    /// Moves `amount` of `mint` from the admin's token account `accounts[1]` into
    /// the booth's vault of that currency `accounts[3]`; the admin `accounts[0]`
    /// signs.
    pub fn deposit(program_id: &Address, accounts: &mut Vec<Account>, mint: &Address, amount: u64) -> (r:
        Result<(), CustodyError>)
        ensures
            deposit_outcome(program_id@, old(accounts)@, final(accounts)@, mint@, amount, r),
    {
        check_admin_move(program_id, accounts, mint)?;
        let admin = accounts[0].key;
        check_transfer(accounts, 1, 3, &admin, amount, CustodyError::InsufficientFunds)?;
        apply_transfer(accounts, 1, 3, amount);
        Ok(())
    }

    /// Moves `amount` of `mint` from the booth's vault `accounts[3]` back to the
    /// admin's token account `accounts[1]`; the admin `accounts[0]` signs.
    pub fn withdraw(program_id: &Address, accounts: &mut Vec<Account>, mint: &Address, amount: u64) -> (r:
        Result<(), CustodyError>)
        ensures
            withdraw_outcome(program_id@, old(accounts)@, final(accounts)@, mint@, amount, r),
    {
        check_admin_move(program_id, accounts, mint)?;
        let vault = accounts[3].key;
        check_transfer(accounts, 3, 1, &vault, amount, CustodyError::InsufficientVaultBalance)?;
        apply_transfer(accounts, 3, 1, amount);
        Ok(())
    }
    /// Trades `amount` of `input_mint` from the user's account `accounts[1]` for
    /// the other currency, paid from its vault into `accounts[2]`, at the rate
    /// the oracle gave (`rate`; `None` where it gave no fresh one), less the fee.
    pub fn exchange(
        program_id: &Address,
        accounts: &mut Vec<Account>,
        input_mint: &Address,
        amount: u64,
        rate: Option<Rate>,
    ) -> (r: Result<(), CustodyError>)
        ensures
            exchange_outcome(program_id@, old(accounts)@, final(accounts)@, input_mint@, rate, amount, r),
    {
        if accounts.len() < 8 {
            return Err(CustodyError::NotEnoughAccounts);
        }
        let booth = load_booth(program_id, &accounts[7])?;
        proof {
            lemma_booth_fields(booth);
        }
        if !accounts[0].is_signer {
            return Err(CustodyError::MissingSignature);
        }
        if !accounts[1].is_writable || !accounts[2].is_writable || !accounts[5].is_writable
            || !accounts[6].is_writable {
            return Err(CustodyError::NotWritable);
        }
        assert_is_token_program(&accounts[4])?;
        if !accounts[3].key.same_as(&booth.oracle) {
            return Err(CustodyError::UnexpectedCollaborator);
        }
        let is_base = if input_mint.same_as(&booth.mint_base) {
            true
        } else if input_mint.same_as(&booth.mint_quote) {
            false
        } else {
            return Err(CustodyError::UnknownMint);
        };
        if accounts[5].lamports == 0 || accounts[6].lamports == 0 {
            return Err(CustodyError::AccountNotFound);
        }
        let state_key = accounts[7].key;
        check_vault(program_id, true, &state_key, &booth.mint_base, &accounts[5].key)?;
        check_vault(program_id, false, &state_key, &booth.mint_quote, &accounts[6].key)?;
        let rate = match rate {
            Some(q) => {
                if q.numerator == 0 || q.denominator == 0 {
                    return Err(CustodyError::OracleUnavailable);
                }
                q
            },
            None => return Err(CustodyError::OracleUnavailable),
        };
        let (rn, rd, din, dout, vin, vout) = if is_base {
            (rate.numerator, rate.denominator, booth.decimals_base, booth.decimals_quote, 5usize, 6usize)
        } else {
            (rate.denominator, rate.numerator, booth.decimals_quote, booth.decimals_base, 6usize, 5usize)
        };
        let out = match convert(amount, rn, rd, din, dout, booth.fee) {
            Some(v) => v,
            None => return Err(CustodyError::ArithmeticOverflow),
        };
        let user = accounts[0].key;
        check_transfer(accounts, 1, vin, &user, amount, CustodyError::InsufficientFunds)?;
        let vault_out = accounts[vout].key;
        check_transfer(accounts, vout, 2, &vault_out, out, CustodyError::InsufficientVaultBalance)?;
        apply_transfer(accounts, 1, vin, amount);
        apply_transfer(accounts, vout, 2, out);
        Ok(())
    }

    /// Closes the booth: each vault pays all it holds to the admin's token account
    /// of its currency (`accounts[1]`, `accounts[2]`), then both vaults and the
    /// state account are emptied and their lamports refunded to the admin
    /// `accounts[0]`, who signs.
    pub fn close_exchange_booth(program_id: &Address, accounts: &mut Vec<Account>) -> (r: Result<
        (),
        CustodyError,
    >)
        ensures
            close_outcome(program_id@, old(accounts)@, final(accounts)@, r),
    {
        if accounts.len() < 7 {
            return Err(CustodyError::NotEnoughAccounts);
        }
        let booth = load_booth(program_id, &accounts[6])?;
        proof {
            lemma_booth_fields(booth);
        }
        if !accounts[0].is_signer || !accounts[0].key.same_as(&booth.admin) {
            return Err(CustodyError::MissingSignature);
        }
        if !accounts[1].is_writable || !accounts[2].is_writable || !accounts[4].is_writable
            || !accounts[5].is_writable || !accounts[6].is_writable {
            return Err(CustodyError::NotWritable);
        }
        assert_is_token_program(&accounts[3])?;
        if accounts[4].lamports == 0 || accounts[5].lamports == 0 {
            return Err(CustodyError::AccountNotFound);
        }
        let state_key = accounts[6].key;
        check_vault(program_id, true, &state_key, &booth.mint_base, &accounts[4].key)?;
        check_vault(program_id, false, &state_key, &booth.mint_quote, &accounts[5].key)?;
        if accounts[4].data.len() == 0 || accounts[5].data.len() == 0 {
            return Err(CustodyError::InvalidAccountData);
        }
        let base_held = match accounts[4].token {
            Some(t) => t.amount,
            None => return Err(CustodyError::InvalidAccountData),
        };
        let vault_base = accounts[4].key;
        check_transfer(accounts, 4, 1, &vault_base, base_held, CustodyError::InsufficientVaultBalance)?;
        let quote_held = match accounts[5].token {
            Some(t) => t.amount,
            None => return Err(CustodyError::InvalidAccountData),
        };
        let vault_quote = accounts[5].key;
        check_transfer(accounts, 5, 2, &vault_quote, quote_held, CustodyError::InsufficientVaultBalance)?;
        let refund = (accounts[4].lamports as u128) + (accounts[5].lamports as u128)
            + (accounts[6].lamports as u128) + (accounts[0].lamports as u128);
        if refund > u64::MAX as u128 {
            return Err(CustodyError::ArithmeticOverflow);
        }
        apply_transfer(accounts, 4, 1, base_held);
        apply_transfer(accounts, 5, 2, quote_held);
        shut(accounts, 4);
        shut(accounts, 5);
        shut(accounts, 6);
        accounts[0].lamports = refund as u64;
        Ok(())
    }
    /// Decodes one instruction of the exchange booth and carries it out on
    /// `accounts`, whose order each instruction fixes. `rate` is what the oracle
    /// answered for this booth's pair, `None` where it gave no fresh rate.
    pub fn process_instruction(
        program_id: &Address,
        rent: &Rent,
        rate: Option<Rate>,
        accounts: &mut Vec<Account>,
        instruction_data: &Vec<u8>,
    ) -> (r: Result<(), CustodyError>)
        ensures
            booth_program_outcome(
                program_id@,
                *rent,
                rate,
                old(accounts)@,
                final(accounts)@,
                instruction_data@,
                r,
            ),
    {
        let instruction = ExchangeBoothInstruction::unpack(instruction_data)?;
        proof {
            lemma_booth_fields_carried(instruction);
        }
        match instruction {
            ExchangeBoothInstruction::InitializeExchangeBooth {
                vault_base_bump,
                vault_quote_bump,
                state_bump,
            } => crate::initialize_exchange_booth::process(
                program_id,
                rent,
                accounts,
                state_bump,
                vault_base_bump,
                vault_quote_bump,
            ),
            ExchangeBoothInstruction::Deposit { mint, amount } => Self::deposit(program_id, accounts, &mint, amount),
            ExchangeBoothInstruction::Withdraw { mint, amount } => Self::withdraw(program_id, accounts, &mint, amount),
            ExchangeBoothInstruction::Exchange { input_mint, amount } => {
                Self::exchange(program_id, accounts, &input_mint, amount, rate)
            },
            ExchangeBoothInstruction::CloseExchangeBooth => Self::close_exchange_booth(program_id, accounts),
        }
    }
}

} // verus!
