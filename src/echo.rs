//! The echo program: a shared buffer, buffers owned through derived addresses,
//! and buffers whose writes are paid for by burning tokens.
use vstd::prelude::*;
use vstd::bytes::{spec_u64_from_le_bytes, spec_u64_to_le_bytes, u64_to_le_bytes};
use crate::account::{
    Account, Rent, TokenBalance, assert_is_signer, assert_is_system_program, assert_is_token_program,
    assert_is_writable, create_account, creation_outcome, is_token_program_id, system_program_id,
};
use crate::address::{
    Address, derive_address, derived_address, derives_to, program_address, verify_address, with_bump,
};
use crate::error::CustodyError;
use crate::instruction::{
    EchoInstruction, carried_bytes, carried_u32, carried_u64, echo_instruction_decodes,
    echo_instruction_layout, lemma_echo_fields,
};
use crate::mint::{mint_readable, read_mint, replace_supply, stored_supply, with_supply};
use crate::state::{
    AuthorizedBuffer, HEADER_LEN, VendingMachineBuffer, lemma_record_len, lemma_record_round_trip,
    record_decodes, record_layout,
};

verus! {

/// All accounts but the one at `i` are as they were.
pub open spec fn unchanged_but(old: Seq<Account>, new: Seq<Account>, i: int) -> bool {
    &&& new.len() == old.len()
    &&& forall|j: int| 0 <= j < old.len() && j != i ==> new[j] == old[j]
}

/// The account is the same but for its data.
pub open spec fn same_but_data(a: Account, b: Account) -> bool {
    &&& a.key == b.key
    &&& a.owner == b.owner
    &&& a.lamports == b.lamports
    &&& a.is_signer == b.is_signer
    &&& a.is_writable == b.is_writable
    &&& a.token == b.token
}

/// Every byte is zero.
pub open spec fn all_zero(s: Seq<u8>) -> bool {
    forall|i: int| 0 <= i < s.len() ==> s[i] == 0
}

/// The shared buffer after an echo: `data` over its first bytes, the tail kept.
pub open spec fn echo_written(buffer: Seq<u8>, data: Seq<u8>) -> Seq<u8> {
    Seq::new(buffer.len(), |i: int| if i < data.len() { data[i] } else { buffer[i] })
}

/// `len` bytes that repeat `data` from its start.
pub open spec fn cyclic_fill(len: nat, data: Seq<u8>) -> Seq<u8> {
    Seq::new(len, |i: int| data[i % (data.len() as int)])
}

/// The bytes of the seed tag `authority`.
pub open spec fn authority_tag() -> Seq<u8> {
    seq![0x61u8, 0x75, 0x74, 0x68, 0x6f, 0x72, 0x69, 0x74, 0x79]
}

/// The bytes of the seed tag `vending_machine`.
pub open spec fn vending_machine_tag() -> Seq<u8> {
    seq![0x76u8, 0x65, 0x6e, 0x64, 0x69, 0x6e, 0x67, 0x5f, 0x6d, 0x61, 0x63, 0x68, 0x69, 0x6e, 0x65]
}

/// The seeds of an authorized buffer: the tag, its authority, its seed number.
pub open spec fn authority_seeds(authority: Seq<u8>, buffer_seed: u64) -> Seq<Seq<u8>> {
    seq![authority_tag(), authority, spec_u64_to_le_bytes(buffer_seed)]
}

/// The seeds of a vending-machine buffer: the tag, the mint, the price.
pub open spec fn vending_machine_seeds(mint: Seq<u8>, price: u64) -> Seq<Seq<u8>> {
    seq![vending_machine_tag(), mint, spec_u64_to_le_bytes(price)]
}

/// The bump seed stored in a buffer record.
pub open spec fn stored_bump(s: Seq<u8>) -> u8 {
    s[0]
}

/// The seed number (or price) stored in a buffer record.
pub open spec fn stored_key(s: Seq<u8>) -> u64 {
    spec_u64_from_le_bytes(s.subrange(1, 9))
}

/// A buffer record with its payload replaced by `data` repeated.
pub open spec fn refilled(s: Seq<u8>, data: Seq<u8>) -> Seq<u8> {
    s.subrange(0, 13) + cyclic_fill((s.len() - 13) as nat, data)
}

/// What the unauthorized echo does to the accounts `[buffer]`.
pub open spec fn echo_outcome(
    old: Seq<Account>,
    new: Seq<Account>,
    data: Seq<u8>,
    r: Result<(), CustodyError>,
) -> bool {
    if old.len() < 1 {
        r == Err::<(), CustodyError>(CustodyError::NotEnoughAccounts) && new == old
    } else if !old[0].is_writable {
        r == Err::<(), CustodyError>(CustodyError::NotWritable) && new == old
    } else if !all_zero(old[0].data@) {
        r == Err::<(), CustodyError>(CustodyError::BufferNotEmpty) && new == old
    } else {
        &&& r is Ok
        &&& unchanged_but(old, new, 0)
        &&& same_but_data(old[0], new[0])
        &&& new[0].data@ == echo_written(old[0].data@, data)
    }
}

/// What an authorized write does to the accounts `[buffer, authority]`.
pub open spec fn authorized_echo_outcome(
    program_id: Seq<u8>,
    old: Seq<Account>,
    new: Seq<Account>,
    data: Seq<u8>,
    r: Result<(), CustodyError>,
) -> bool {
    if old.len() < 2 {
        r == Err::<(), CustodyError>(CustodyError::NotEnoughAccounts) && new == old
    } else if !old[0].is_writable {
        r == Err::<(), CustodyError>(CustodyError::NotWritable) && new == old
    } else if !old[1].is_signer {
        r == Err::<(), CustodyError>(CustodyError::MissingSignature) && new == old
    } else if !record_decodes(old[0].data@) {
        r == Err::<(), CustodyError>(CustodyError::InvalidAccountData) && new == old
    } else if program_address(
        with_bump(
            authority_seeds(old[1].key@, stored_key(old[0].data@)),
            stored_bump(old[0].data@),
        ),
        program_id,
    ) != Some(old[0].key@) {
        r == Err::<(), CustodyError>(CustodyError::AddressMismatch) && new == old
    } else if data.len() == 0 {
        r == Err::<(), CustodyError>(CustodyError::EmptyInput) && new == old
    } else {
        &&& r is Ok
        &&& unchanged_but(old, new, 0)
        &&& same_but_data(old[0], new[0])
        &&& new[0].data@ == refilled(old[0].data@, data)
    }
}

/// The zero-filled buffer record that initialization writes.
pub open spec fn fresh_record(bump: u8, key: u64, buffer_size: u32) -> Seq<u8> {
    record_layout(bump, key, Seq::new((buffer_size - 13) as nat, |i: int| 0u8))
}

/// What initializing an authorized buffer does to the accounts
/// `[buffer, authority, system program]`.
pub open spec fn initialize_authorized_echo_outcome(
    program_id: Seq<u8>,
    rent: Rent,
    old: Seq<Account>,
    new: Seq<Account>,
    buffer_seed: u64,
    buffer_size: u32,
    r: Result<(), CustodyError>,
) -> bool {
    if old.len() < 3 {
        r == Err::<(), CustodyError>(CustodyError::NotEnoughAccounts) && new == old
    } else if !old[0].is_writable {
        r == Err::<(), CustodyError>(CustodyError::NotWritable) && new == old
    } else if !old[1].is_signer {
        r == Err::<(), CustodyError>(CustodyError::MissingSignature) && new == old
    } else if old[2].key@ != system_program_id() {
        r == Err::<(), CustodyError>(CustodyError::UnexpectedCollaborator) && new == old
    } else if !derives_to(authority_seeds(old[1].key@, buffer_seed), program_id, old[0].key@) {
        r == Err::<(), CustodyError>(CustodyError::AddressMismatch) && new == old
    } else if buffer_size <= 13 {
        r == Err::<(), CustodyError>(CustodyError::BufferTooSmall) && new == old
    } else {
        creation_outcome(
            old,
            new,
            1,
            0,
            fresh_record(
                derived_address(authority_seeds(old[1].key@, buffer_seed), program_id).unwrap().1,
                buffer_seed,
                buffer_size,
            ),
            program_id,
            rent.minimum_balance_of(buffer_size as nat),
            r,
        )
    }
}

/// What initializing a vending-machine buffer does to the accounts
/// `[buffer, mint, payer, system program]`.
pub open spec fn initialize_vending_machine_echo_outcome(
    program_id: Seq<u8>,
    rent: Rent,
    old: Seq<Account>,
    new: Seq<Account>,
    price: u64,
    buffer_size: u32,
    r: Result<(), CustodyError>,
) -> bool {
    if old.len() < 4 {
        r == Err::<(), CustodyError>(CustodyError::NotEnoughAccounts) && new == old
    } else if !old[0].is_writable {
        r == Err::<(), CustodyError>(CustodyError::NotWritable) && new == old
    } else if !old[2].is_signer {
        r == Err::<(), CustodyError>(CustodyError::MissingSignature) && new == old
    } else if old[3].key@ != system_program_id() {
        r == Err::<(), CustodyError>(CustodyError::UnexpectedCollaborator) && new == old
    } else if !derives_to(vending_machine_seeds(old[1].key@, price), program_id, old[0].key@) {
        r == Err::<(), CustodyError>(CustodyError::AddressMismatch) && new == old
    } else if buffer_size <= 13 {
        r == Err::<(), CustodyError>(CustodyError::BufferTooSmall) && new == old
    } else {
        creation_outcome(
            old,
            new,
            2,
            0,
            fresh_record(
                derived_address(vending_machine_seeds(old[1].key@, price), program_id).unwrap().1,
                price,
                buffer_size,
            ),
            program_id,
            rent.minimum_balance_of(buffer_size as nat),
            r,
        )
    }
}

/// The token account can pay `price`: it holds tokens of `mint` that `user`
/// controls, at least `price` of them, and the mint's supply covers them.
pub open spec fn can_burn(account: Account, mint: Account, user: Seq<u8>, price: u64) -> bool {
    &&& account.token is Some
    &&& account.token.unwrap().mint@ == mint.key@
    &&& account.token.unwrap().authority@ == user
    &&& account.token.unwrap().amount >= price
    &&& mint_readable(mint.data@)
    &&& stored_supply(mint.data@) >= price
}

/// The token account after `price` of its tokens were burned.
pub open spec fn burned(old: Account, new: Account, price: u64) -> bool {
    &&& new.key == old.key
    &&& new.owner == old.owner
    &&& new.lamports == old.lamports
    &&& new.data == old.data
    &&& new.is_signer == old.is_signer
    &&& new.is_writable == old.is_writable
    &&& new.token is Some
    &&& new.token.unwrap().mint == old.token.unwrap().mint
    &&& new.token.unwrap().authority == old.token.unwrap().authority
    &&& new.token.unwrap().amount == old.token.unwrap().amount - price
}

/// What a paid write does to the accounts
/// `[buffer, user, user's token account, mint, token program]`.
pub open spec fn vending_machine_echo_outcome(
    program_id: Seq<u8>,
    old: Seq<Account>,
    new: Seq<Account>,
    data: Seq<u8>,
    r: Result<(), CustodyError>,
) -> bool {
    if old.len() < 5 {
        r == Err::<(), CustodyError>(CustodyError::NotEnoughAccounts) && new == old
    } else if !old[0].is_writable || !old[2].is_writable || !old[3].is_writable {
        r == Err::<(), CustodyError>(CustodyError::NotWritable) && new == old
    } else if !old[1].is_signer {
        r == Err::<(), CustodyError>(CustodyError::MissingSignature) && new == old
    } else if !record_decodes(old[0].data@) {
        r == Err::<(), CustodyError>(CustodyError::InvalidAccountData) && new == old
    } else if program_address(
        with_bump(
            vending_machine_seeds(old[3].key@, stored_key(old[0].data@)),
            stored_bump(old[0].data@),
        ),
        program_id,
    ) != Some(old[0].key@) {
        r == Err::<(), CustodyError>(CustodyError::AddressMismatch) && new == old
    } else if !is_token_program_id(old[4].key@) {
        r == Err::<(), CustodyError>(CustodyError::UnexpectedCollaborator) && new == old
    } else if data.len() == 0 {
        r == Err::<(), CustodyError>(CustodyError::EmptyInput) && new == old
    } else if !can_burn(old[2], old[3], old[1].key@, stored_key(old[0].data@)) {
        r == Err::<(), CustodyError>(CustodyError::PaymentFailed) && new == old
    } else {
        &&& r is Ok
        &&& new.len() == old.len()
        &&& forall|j: int| 0 <= j < old.len() && j != 0 && j != 2 && j != 3 ==> new[j] == old[j]
        &&& same_but_data(old[0], new[0])
        &&& new[0].data@ == refilled(old[0].data@, data)
        &&& burned(old[2], new[2], stored_key(old[0].data@))
        &&& same_but_data(old[3], new[3])
        &&& new[3].data@ == with_supply(old[3].data@, (stored_supply(old[3].data@) - stored_key(old[0].data@)) as u64)
    }
}

/// What the echo program does with encoded instruction `s` and its accounts.
pub open spec fn echo_program_outcome(
    program_id: Seq<u8>,
    rent: Rent,
    old: Seq<Account>,
    new: Seq<Account>,
    s: Seq<u8>,
    r: Result<(), CustodyError>,
) -> bool {
    if !echo_instruction_decodes(s) {
        r == Err::<(), CustodyError>(CustodyError::InvalidInstructionData) && new == old
    } else if s[0] == 0 {
        echo_outcome(old, new, carried_bytes(s), r)
    } else if s[0] == 1 {
        initialize_authorized_echo_outcome(program_id, rent, old, new, carried_u64(s), carried_u32(s), r)
    } else if s[0] == 2 {
        authorized_echo_outcome(program_id, old, new, carried_bytes(s), r)
    } else if s[0] == 3 {
        initialize_vending_machine_echo_outcome(
            program_id,
            rent,
            old,
            new,
            carried_u64(s),
            carried_u32(s),
            r,
        )
    } else {
        vending_machine_echo_outcome(program_id, old, new, carried_bytes(s), r)
    }
}

/// An authorized write tiles the payload with its data: after a successful
/// write, payload byte `i` is `data[i mod len(data)]` and the header is kept;
/// empty data is refused and changes nothing.
pub proof fn lemma_authorized_write_tiles(
    program_id: Seq<u8>,
    old: Seq<Account>,
    new: Seq<Account>,
    data: Seq<u8>,
    r: Result<(), CustodyError>,
)
    requires
        authorized_echo_outcome(program_id, old, new, data, r),
    ensures
        data.len() == 0 ==> r is Err && new == old,
        r is Ok ==> new[0].data@.len() == old[0].data@.len(),
        r is Ok ==> new[0].data@.subrange(0, 13) == old[0].data@.subrange(0, 13),
        r is Ok ==> forall|i: int|
            13 <= i < new[0].data@.len() ==> #[trigger] new[0].data@[i] == data[(i - 13) % (
            data.len() as int)],
{
    if r is Ok {
        let s = old[0].data@;
        assert(new[0].data@.subrange(0, 13) =~= s.subrange(0, 13));
    }
}

fn tag_bytes_authority() -> (r: Vec<u8>)
    ensures
        r@ == authority_tag(),
{
    let r: Vec<u8> = vec![0x61u8, 0x75, 0x74, 0x68, 0x6f, 0x72, 0x69, 0x74, 0x79];
    assert(r@ =~= authority_tag());
    r
}

fn tag_bytes_vending_machine() -> (r: Vec<u8>)
    ensures
        r@ == vending_machine_tag(),
{
    let r: Vec<u8> = vec![
        0x76u8, 0x65, 0x6e, 0x64, 0x69, 0x6e, 0x67, 0x5f, 0x6d, 0x61, 0x63, 0x68, 0x69, 0x6e, 0x65,
    ];
    assert(r@ =~= vending_machine_tag());
    r
}

fn three_seeds(tag: Vec<u8>, key: &Address, number: u64) -> (r: Vec<Vec<u8>>)
    ensures
        r.deep_view() == seq![tag@, key@, spec_u64_to_le_bytes(number)],
{
    let k = key.to_vec();
    let n = u64_to_le_bytes(number);
    let ghost (t0, k0, n0) = (tag@, k@, n@);
    let r: Vec<Vec<u8>> = vec![tag, k, n];
    assert(r@[0].deep_view() =~= t0);
    assert(r@[1].deep_view() =~= k0);
    assert(r@[2].deep_view() =~= n0);
    assert(r.deep_view() =~= seq![t0, k0, n0]);
    r
}

/// The seeds of an authorized buffer, as bytes.
pub fn authority_seed_list(authority: &Address, buffer_seed: u64) -> (r: Vec<Vec<u8>>)
    ensures
        r.deep_view() == authority_seeds(authority@, buffer_seed),
{
    three_seeds(tag_bytes_authority(), authority, buffer_seed)
}

/// The seeds of a vending-machine buffer, as bytes.
pub fn vending_machine_seed_list(mint: &Address, price: u64) -> (r: Vec<Vec<u8>>)
    ensures
        r.deep_view() == vending_machine_seeds(mint@, price),
{
    three_seeds(tag_bytes_vending_machine(), mint, price)
}

/// `len` bytes that repeat `data` from its start.
pub(crate) fn fill_cyclic(len: usize, data: &Vec<u8>) -> (r: Vec<u8>)
    requires
        data@.len() > 0,
    ensures
        r@ == cyclic_fill(len as nat, data@),
{
    let mut out: Vec<u8> = Vec::new();
    let mut i: usize = 0;
    while i < len
        invariant
            i <= len,
            data@.len() > 0,
            out@ == cyclic_fill(i as nat, data@),
        decreases len - i,
    {
        out.push(data[i % data.len()]);
        i = i + 1;
        assert(out@ =~= cyclic_fill(i as nat, data@));
    }
    out
}

/// `len` zero bytes.
pub(crate) fn zeros(len: usize) -> (r: Vec<u8>)
    ensures
        r@ == Seq::new(len as nat, |i: int| 0u8),
{
    let mut out: Vec<u8> = Vec::new();
    let mut i: usize = 0;
    while i < len
        invariant
            i <= len,
            out@ == Seq::new(i as nat, |j: int| 0u8),
        decreases len - i,
    {
        out.push(0u8);
        i = i + 1;
        assert(out@ =~= Seq::new(i as nat, |j: int| 0u8));
    }
    out
}

/// Handlers of the echo program's instructions.
pub struct Processor {}

impl Processor {
    /// Copies `data` into the shared buffer `accounts[0]`, which must be writable
    /// and hold only zero bytes; bytes past the end of `data` stay as they were.
    pub fn echo(accounts: &mut Vec<Account>, data: &Vec<u8>) -> (r: Result<(), CustodyError>)
        ensures
            echo_outcome(old(accounts)@, final(accounts)@, data@, r),
    {
        if accounts.len() < 1 {
            return Err(CustodyError::NotEnoughAccounts);
        }
        assert_is_writable(&accounts[0])?;
        let n = accounts[0].data.len();
        let mut i: usize = 0;
        while i < n
            invariant
                i <= n,
                n == accounts@[0].data@.len(),
                accounts@.len() >= 1,
                accounts@ == old(accounts)@,
                accounts@[0].is_writable,
                forall|j: int| 0 <= j < i ==> accounts@[0].data@[j] == 0,
            decreases n - i,
        {
            if accounts[0].data[i] != 0 {
                assert(!all_zero(accounts@[0].data@));
                return Err(CustodyError::BufferNotEmpty);
            }
            i = i + 1;
        }
        let mut written: Vec<u8> = Vec::new();
        let mut k: usize = 0;
        while k < n
            invariant
                k <= n,
                n == accounts@[0].data@.len(),
                accounts@.len() >= 1,
                accounts@ == old(accounts)@,
                accounts@[0].is_writable,
                written@ == echo_written(accounts@[0].data@, data@).subrange(0, k as int),
            decreases n - k,
        {
            if k < data.len() {
                written.push(data[k]);
            } else {
                written.push(accounts[0].data[k]);
            }
            k = k + 1;
            assert(written@ =~= echo_written(accounts@[0].data@, data@).subrange(0, k as int));
        }
        assert(written@ =~= echo_written(accounts@[0].data@, data@));
        accounts[0].data = written;
        Ok(())
    }

    /// Overwrites the payload of the authorized buffer `accounts[0]` with `data`
    /// repeated, once `accounts[1]` has signed and the buffer's address is the one
    /// derived from its stored bump and seed number and the signer's key.
    pub fn authorized_echo(program_id: &Address, accounts: &mut Vec<Account>, data: &Vec<u8>) -> (r:
        Result<(), CustodyError>)
        ensures
            authorized_echo_outcome(program_id@, old(accounts)@, final(accounts)@, data@, r),
    {
        if accounts.len() < 2 {
            return Err(CustodyError::NotEnoughAccounts);
        }
        assert_is_writable(&accounts[0])?;
        assert_is_signer(&accounts[1])?;
        let buffer = AuthorizedBuffer::unpack(&accounts[0].data)?;
        proof {
            lemma_record_round_trip(buffer.bump_seed, buffer.buffer_seed, buffer.data@);
        }
        let seeds = authority_seed_list(&accounts[1].key, buffer.buffer_seed);
        verify_address(&seeds, buffer.bump_seed, program_id, &accounts[0].key)?;
        if data.len() == 0 {
            return Err(CustodyError::EmptyInput);
        }
        let filled = fill_cyclic(buffer.data.len(), data);
        let updated = AuthorizedBuffer {
            bump_seed: buffer.bump_seed,
            buffer_seed: buffer.buffer_seed,
            data: filled,
        };
        let bytes = updated.pack();
        proof {
            let s = accounts@[0].data@;
            assert(s.subrange(0, 13) =~= record_layout(buffer.bump_seed, buffer.buffer_seed, buffer.data@).subrange(0, 13));
            assert(bytes@ =~= refilled(s, data@));
        }
        accounts[0].data = bytes;
        Ok(())
    }
    /// Creates the authorized buffer `accounts[0]` at the address derived from the
    /// tag `authority`, the signer `accounts[1]` and `buffer_seed`, with
    /// `buffer_size` bytes: the header and a zeroed payload. The signer pays.
    pub fn initialize_authorized_echo(
        program_id: &Address,
        rent: &Rent,
        accounts: &mut Vec<Account>,
        buffer_seed: u64,
        buffer_size: u32,
    ) -> (r: Result<(), CustodyError>)
        ensures
            initialize_authorized_echo_outcome(
                program_id@,
                *rent,
                old(accounts)@,
                final(accounts)@,
                buffer_seed,
                buffer_size,
                r,
            ),
    {
        if accounts.len() < 3 {
            return Err(CustodyError::NotEnoughAccounts);
        }
        assert_is_writable(&accounts[0])?;
        assert_is_signer(&accounts[1])?;
        assert_is_system_program(&accounts[2])?;
        let seeds = authority_seed_list(&accounts[1].key, buffer_seed);
        let bump = match derive_address(&seeds, program_id) {
            Some((key, bump)) => {
                if !key.same_as(&accounts[0].key) {
                    return Err(CustodyError::AddressMismatch);
                }
                bump
            },
            None => return Err(CustodyError::AddressMismatch),
        };
        if buffer_size as usize <= HEADER_LEN {
            return Err(CustodyError::BufferTooSmall);
        }
        let record = AuthorizedBuffer {
            bump_seed: bump,
            buffer_seed,
            data: zeros(buffer_size as usize - HEADER_LEN),
        };
        let bytes = record.pack();
        proof {
            lemma_record_len(bump, buffer_seed, record.data@);
        }
        create_account(accounts, 1, 0, bytes, program_id, rent)
    }

    /// Creates the vending-machine buffer `accounts[0]` at the address derived from
    /// the tag `vending_machine`, the mint `accounts[1]` and `price`, with
    /// `buffer_size` bytes: the header and a zeroed payload. `accounts[2]` pays.
    pub fn initialize_vending_machine_echo(
        program_id: &Address,
        rent: &Rent,
        accounts: &mut Vec<Account>,
        price: u64,
        buffer_size: u32,
    ) -> (r: Result<(), CustodyError>)
        ensures
            initialize_vending_machine_echo_outcome(
                program_id@,
                *rent,
                old(accounts)@,
                final(accounts)@,
                price,
                buffer_size,
                r,
            ),
    {
        if accounts.len() < 4 {
            return Err(CustodyError::NotEnoughAccounts);
        }
        assert_is_writable(&accounts[0])?;
        assert_is_signer(&accounts[2])?;
        assert_is_system_program(&accounts[3])?;
        let seeds = vending_machine_seed_list(&accounts[1].key, price);
        let bump = match derive_address(&seeds, program_id) {
            Some((key, bump)) => {
                if !key.same_as(&accounts[0].key) {
                    return Err(CustodyError::AddressMismatch);
                }
                bump
            },
            None => return Err(CustodyError::AddressMismatch),
        };
        if buffer_size as usize <= HEADER_LEN {
            return Err(CustodyError::BufferTooSmall);
        }
        let record = VendingMachineBuffer {
            bump_seed: bump,
            price,
            data: zeros(buffer_size as usize - HEADER_LEN),
        };
        let bytes = record.pack();
        proof {
            lemma_record_len(bump, price, record.data@);
        }
        create_account(accounts, 2, 0, bytes, program_id, rent)
    }

    /// Burns the buffer's price from the user's token account `accounts[2]` and
    /// from the supply of the mint `accounts[3]`, then overwrites the payload of the vending-machine buffer `accounts[0]` with
    /// `data` repeated. Nothing changes where the burn is refused.
    pub fn vending_machine_echo(program_id: &Address, accounts: &mut Vec<Account>, data: &Vec<u8>) -> (r:
        Result<(), CustodyError>)
        ensures
            vending_machine_echo_outcome(program_id@, old(accounts)@, final(accounts)@, data@, r),
    {
        if accounts.len() < 5 {
            return Err(CustodyError::NotEnoughAccounts);
        }
        assert_is_writable(&accounts[0])?;
        assert_is_writable(&accounts[2])?;
        assert_is_writable(&accounts[3])?;
        assert_is_signer(&accounts[1])?;
        let buffer = VendingMachineBuffer::unpack(&accounts[0].data)?;
        proof {
            lemma_record_round_trip(buffer.bump_seed, buffer.price, buffer.data@);
        }
        let seeds = vending_machine_seed_list(&accounts[3].key, buffer.price);
        verify_address(&seeds, buffer.bump_seed, program_id, &accounts[0].key)?;
        assert_is_token_program(&accounts[4])?;
        if data.len() == 0 {
            return Err(CustodyError::EmptyInput);
        }
        let balance = match accounts[2].token {
            Some(t) => {
                if !t.mint.same_as(&accounts[3].key) || !t.authority.same_as(&accounts[1].key)
                    || t.amount < buffer.price {
                    return Err(CustodyError::PaymentFailed);
                }
                TokenBalance { mint: t.mint, authority: t.authority, amount: t.amount - buffer.price }
            },
            None => return Err(CustodyError::PaymentFailed),
        };
        let supply = match read_mint(&accounts[3].data) {
            Some((supply, _decimals)) => {
                if supply < buffer.price {
                    return Err(CustodyError::PaymentFailed);
                }
                supply
            },
            None => return Err(CustodyError::PaymentFailed),
        };
        let mint_data = replace_supply(&accounts[3].data, supply - buffer.price);
        let filled = fill_cyclic(buffer.data.len(), data);
        let updated = VendingMachineBuffer { bump_seed: buffer.bump_seed, price: buffer.price, data: filled };
        let bytes = updated.pack();
        proof {
            let s = accounts@[0].data@;
            assert(s.subrange(0, 13) =~= record_layout(buffer.bump_seed, buffer.price, buffer.data@).subrange(0, 13));
            assert(bytes@ =~= refilled(s, data@));
        }
        accounts[2].token = Some(balance);
        accounts[3].data = mint_data;
        accounts[0].data = bytes;
        Ok(())
    }
    /// Decodes one instruction of the echo program and carries it out on
    /// `accounts`, whose order each instruction fixes.
    pub fn process_instruction(
        program_id: &Address,
        rent: &Rent,
        accounts: &mut Vec<Account>,
        instruction_data: &Vec<u8>,
    ) -> (r: Result<(), CustodyError>)
        ensures
            echo_program_outcome(
                program_id@,
                *rent,
                old(accounts)@,
                final(accounts)@,
                instruction_data@,
                r,
            ),
    {
        let instruction = EchoInstruction::unpack(instruction_data)?;
        proof {
            lemma_echo_fields(instruction);
        }
        match instruction {
            EchoInstruction::Echo { data } => Self::echo(accounts, &data),
            EchoInstruction::InitializeAuthorizedEcho { buffer_seed, buffer_size } => {
                Self::initialize_authorized_echo(program_id, rent, accounts, buffer_seed, buffer_size)
            },
            EchoInstruction::AuthorizedEcho { data } => Self::authorized_echo(program_id, accounts, &data),
            EchoInstruction::InitializeVendingMachineEcho { price, buffer_size } => {
                Self::initialize_vending_machine_echo(program_id, rent, accounts, price, buffer_size)
            },
            EchoInstruction::VendingMachineEcho { data } => {
                Self::vending_machine_echo(program_id, accounts, &data)
            },
        }
    }
}

} // verus!
