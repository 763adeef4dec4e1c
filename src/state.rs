//! The records that the programs keep in account data, and their byte layouts.
use vstd::prelude::*;
use vstd::bytes::{
    spec_u32_from_le_bytes, spec_u32_to_le_bytes, spec_u64_from_le_bytes, spec_u64_to_le_bytes,
    u32_from_le_bytes, u32_to_le_bytes, u64_from_le_bytes, u64_to_le_bytes,
    lemma_auto_spec_u32_to_from_le_bytes, lemma_auto_spec_u64_to_from_le_bytes,
};
use vstd::slice::slice_subrange;
use crate::address::Address;
use crate::error::CustodyError;

verus! {

/// Bytes in front of a buffer's payload: bump seed, 8-byte key, 4-byte length.
pub const HEADER_LEN: usize = 13;

/// A buffer record as bytes: `[bump:1][key:8 LE][payload length:4 LE][payload]`.
pub open spec fn record_layout(bump: u8, key: u64, payload: Seq<u8>) -> Seq<u8> {
    seq![bump] + spec_u64_to_le_bytes(key) + spec_u32_to_le_bytes(payload.len() as u32) + payload
}

/// Whether bytes decode as a buffer record: a full header whose length field
/// counts exactly the bytes after it.
pub open spec fn record_decodes(s: Seq<u8>) -> bool {
    s.len() >= 13 && spec_u32_from_le_bytes(s.subrange(9, 13)) == s.len() - 13
}

fn pack_record(bump: u8, key: u64, payload: &Vec<u8>) -> (r: Vec<u8>)
    requires
        payload@.len() <= u32::MAX,
    ensures
        r@ == record_layout(bump, key, payload@),
{
    let mut out: Vec<u8> = Vec::new();
    out.push(bump);
    let mut key_bytes = u64_to_le_bytes(key);
    out.append(&mut key_bytes);
    let mut len_bytes = u32_to_le_bytes(payload.len() as u32);
    out.append(&mut len_bytes);
    let ghost head = out@;
    let mut i: usize = 0;
    while i < payload.len()
        invariant
            i <= payload@.len(),
            out@ == head + payload@.subrange(0, i as int),
        decreases payload@.len() - i,
    {
        out.push(payload[i]);
        i = i + 1;
        assert(out@ =~= head + payload@.subrange(0, i as int));
    }
    assert(payload@.subrange(0, payload@.len() as int) =~= payload@);
    assert(out@ =~= record_layout(bump, key, payload@));
    out
}

fn unpack_record(bytes: &Vec<u8>) -> (r: Option<(u8, u64, Vec<u8>)>)
    ensures
        r is Some <==> record_decodes(bytes@),
        r matches Some((b, k, p)) ==> bytes@ == record_layout(b, k, p@),
        r matches Some((b, k, p)) ==> p@.len() == bytes@.len() - 13 && p@.len() <= u32::MAX,
{
    if bytes.len() < HEADER_LEN {
        return None;
    }
    let s = bytes.as_slice();
    let len = u32_from_le_bytes(slice_subrange(s, 9, 13));
    if len as usize != bytes.len() - HEADER_LEN {
        return None;
    }
    let bump = bytes[0];
    let key = u64_from_le_bytes(slice_subrange(s, 1, 9));
    let mut payload: Vec<u8> = Vec::new();
    let mut i: usize = HEADER_LEN;
    while i < bytes.len()
        invariant
            HEADER_LEN <= i <= bytes@.len(),
            payload@ == bytes@.subrange(13, i as int),
        decreases bytes@.len() - i,
    {
        payload.push(bytes[i]);
        i = i + 1;
        assert(payload@ =~= bytes@.subrange(13, i as int));
    }
    proof {
        lemma_auto_spec_u64_to_from_le_bytes();
        lemma_auto_spec_u32_to_from_le_bytes();
        let b = bytes@;
        assert(spec_u64_to_le_bytes(spec_u64_from_le_bytes(b.subrange(1, 9))) == b.subrange(1, 9));
        assert(spec_u32_to_le_bytes(spec_u32_from_le_bytes(b.subrange(9, 13))) == b.subrange(9, 13));
        assert(b =~= record_layout(bump, key, payload@));
    }
    Some((bump, key, payload))
}

/// A buffer record read back from its layout gives the values written.
pub proof fn lemma_record_round_trip(bump: u8, key: u64, payload: Seq<u8>)
    requires
        payload.len() <= u32::MAX,
    ensures
        record_decodes(record_layout(bump, key, payload)),
        record_layout(bump, key, payload)[0] == bump,
        spec_u64_from_le_bytes(record_layout(bump, key, payload).subrange(1, 9)) == key,
        record_layout(bump, key, payload).subrange(13, record_layout(bump, key, payload).len() as int)
            == payload,
{
    lemma_auto_spec_u64_to_from_le_bytes();
    lemma_auto_spec_u32_to_from_le_bytes();
    let s = record_layout(bump, key, payload);
    assert(s.subrange(1, 9) =~= spec_u64_to_le_bytes(key));
    assert(s.subrange(9, 13) =~= spec_u32_to_le_bytes(payload.len() as u32));
    assert(s.subrange(13, s.len() as int) =~= payload);
}

/// A buffer record takes its header and its payload.
pub proof fn lemma_record_len(bump: u8, key: u64, payload: Seq<u8>)
    ensures
        record_layout(bump, key, payload).len() == 13 + payload.len(),
{
    lemma_auto_spec_u64_to_from_le_bytes();
    lemma_auto_spec_u32_to_from_le_bytes();
    assert(spec_u64_to_le_bytes(key).len() == 8);
    assert(spec_u32_to_le_bytes(payload.len() as u32).len() == 4);
}

/// The fixed part of an authorized buffer: how its address was derived.
#[derive(Clone, Copy, Debug)]
pub struct AuthorizedBufferHeader {
    pub bump_seed: u8,
    pub buffer_seed: u64,
}

/// The fixed part of a vending-machine buffer: its bump seed and the price of a write.
#[derive(Clone, Copy, Debug)]
pub struct VendingMachineBufferHeader {
    pub bump_seed: u8,
    pub price: u64,
}

/// A buffer that only the party who derived it may write.
#[derive(Debug)]
pub struct AuthorizedBuffer {
    pub bump_seed: u8,
    pub buffer_seed: u64,
    pub data: Vec<u8>,
}

/// A buffer that anyone may write by paying its price in tokens.
#[derive(Debug)]
pub struct VendingMachineBuffer {
    pub bump_seed: u8,
    pub price: u64,
    pub data: Vec<u8>,
}

impl AuthorizedBuffer {
    /// The header of this buffer.
    pub fn header(&self) -> (r: AuthorizedBufferHeader)
        ensures
            r.bump_seed == self.bump_seed,
            r.buffer_seed == self.buffer_seed,
    {
        AuthorizedBufferHeader { bump_seed: self.bump_seed, buffer_seed: self.buffer_seed }
    }

    /// The record as the bytes stored in its account.
    pub fn pack(&self) -> (r: Vec<u8>)
        requires
            self.data@.len() <= u32::MAX,
        ensures
            r@ == record_layout(self.bump_seed, self.buffer_seed, self.data@),
    {
        pack_record(self.bump_seed, self.buffer_seed, &self.data)
    }

    /// Reads the record from account bytes; `InvalidAccountData` where they do not
    /// decode.
    pub fn unpack(bytes: &Vec<u8>) -> (r: Result<AuthorizedBuffer, CustodyError>)
        ensures
            r is Ok <==> record_decodes(bytes@),
            r matches Ok(b) ==> bytes@ == record_layout(b.bump_seed, b.buffer_seed, b.data@),
            r matches Ok(b) ==> b.data@.len() == bytes@.len() - 13 && b.data@.len() <= u32::MAX,
            r matches Err(e) ==> e == CustodyError::InvalidAccountData,
    {
        match unpack_record(bytes) {
            Some((bump_seed, buffer_seed, data)) => Ok(AuthorizedBuffer { bump_seed, buffer_seed, data }),
            None => Err(CustodyError::InvalidAccountData),
        }
    }
}

impl VendingMachineBuffer {
    /// The header of this buffer.
    pub fn header(&self) -> (r: VendingMachineBufferHeader)
        ensures
            r.bump_seed == self.bump_seed,
            r.price == self.price,
    {
        VendingMachineBufferHeader { bump_seed: self.bump_seed, price: self.price }
    }

    /// The record as the bytes stored in its account.
    pub fn pack(&self) -> (r: Vec<u8>)
        requires
            self.data@.len() <= u32::MAX,
        ensures
            r@ == record_layout(self.bump_seed, self.price, self.data@),
    {
        pack_record(self.bump_seed, self.price, &self.data)
    }

    /// Reads the record from account bytes; `InvalidAccountData` where they do not
    /// decode.
    pub fn unpack(bytes: &Vec<u8>) -> (r: Result<VendingMachineBuffer, CustodyError>)
        ensures
            r is Ok <==> record_decodes(bytes@),
            r matches Ok(b) ==> bytes@ == record_layout(b.bump_seed, b.price, b.data@),
            r matches Ok(b) ==> b.data@.len() == bytes@.len() - 13 && b.data@.len() <= u32::MAX,
            r matches Err(e) ==> e == CustodyError::InvalidAccountData,
    {
        match unpack_record(bytes) {
            Some((bump_seed, price, data)) => Ok(VendingMachineBuffer { bump_seed, price, data }),
            None => Err(CustodyError::InvalidAccountData),
        }
    }
}

/// The record of an exchange booth: who runs it, its two currencies with their
/// decimals, its oracle and its fee in basis points.
#[derive(Clone, Copy, Debug)]
pub struct ExchangeBooth {
    pub admin: Address,
    pub mint_base: Address,
    pub decimals_base: u8,
    pub mint_quote: Address,
    pub decimals_quote: u8,
    pub oracle: Address,
    pub fee: u64,
}

/// Bytes of a stored booth record.
pub const BOOTH_LEN: usize = 138;

/// The highest fee: all of the output.
pub const MAX_FEE_BPS: u64 = 10000;

/// A booth record as bytes:
/// `[admin:32][mint base:32][decimals base:1][mint quote:32][decimals quote:1][oracle:32][fee:8 LE]`.
pub open spec fn booth_layout(b: ExchangeBooth) -> Seq<u8> {
    b.admin@ + b.mint_base@ + seq![b.decimals_base] + b.mint_quote@ + seq![b.decimals_quote]
        + b.oracle@ + spec_u64_to_le_bytes(b.fee)
}

/// The fee stored in booth bytes.
pub open spec fn stored_fee(s: Seq<u8>) -> u64 {
    spec_u64_from_le_bytes(s.subrange(130, 138))
}

/// Whether bytes decode as a booth record: the full length, and a fee of at most
/// 10000 basis points.
pub open spec fn booth_decodes(s: Seq<u8>) -> bool {
    s.len() == 138 && stored_fee(s) <= 10000
}

impl ExchangeBooth {
    /// The record is well formed: the fee is at most the whole output.
    pub open spec fn wf(&self) -> bool {
        self.fee <= 10000
    }

    /// The record as the bytes stored in its account.
    pub fn pack(&self) -> (r: Vec<u8>)
        ensures
            r@ == booth_layout(*self),
    {
        let mut out: Vec<u8> = Vec::new();
        push_address(&mut out, &self.admin);
        push_address(&mut out, &self.mint_base);
        out.push(self.decimals_base);
        push_address(&mut out, &self.mint_quote);
        out.push(self.decimals_quote);
        push_address(&mut out, &self.oracle);
        let mut fee_bytes = u64_to_le_bytes(self.fee);
        out.append(&mut fee_bytes);
        assert(out@ =~= booth_layout(*self));
        out
    }

    /// Reads the record from account bytes; `InvalidAccountData` where they do not
    /// decode.
    pub fn unpack(bytes: &Vec<u8>) -> (r: Result<ExchangeBooth, CustodyError>)
        ensures
            r is Ok <==> booth_decodes(bytes@),
            r matches Ok(b) ==> booth_layout(b) == bytes@ && b.wf(),
            r matches Err(e) ==> e == CustodyError::InvalidAccountData,
    {
        if bytes.len() != BOOTH_LEN {
            return Err(CustodyError::InvalidAccountData);
        }
        let s = bytes.as_slice();
        let fee = u64_from_le_bytes(slice_subrange(s, 130, 138));
        if fee > MAX_FEE_BPS {
            return Err(CustodyError::InvalidAccountData);
        }
        let b = ExchangeBooth {
            admin: Address::read_at(bytes, 0),
            mint_base: Address::read_at(bytes, 32),
            decimals_base: bytes[64],
            mint_quote: Address::read_at(bytes, 65),
            decimals_quote: bytes[97],
            oracle: Address::read_at(bytes, 98),
            fee,
        };
        proof {
            lemma_auto_spec_u64_to_from_le_bytes();
            let t = bytes@;
            assert(spec_u64_to_le_bytes(spec_u64_from_le_bytes(t.subrange(130, 138))) == t.subrange(130, 138));
            assert(booth_layout(b) =~= t);
        }
        Ok(b)
    }

    /// The number of bytes a booth record takes.
    pub fn get_serialized_size() -> (r: Result<usize, CustodyError>)
        ensures
            r == Ok::<usize, CustodyError>(138),
    {
        let empty = Address { bytes: [0u8; 32] };
        let b = ExchangeBooth {
            admin: empty,
            mint_base: empty,
            decimals_base: 0,
            mint_quote: empty,
            decimals_quote: 0,
            oracle: empty,
            fee: 0,
        };
        let bytes = b.pack();
        proof {
            lemma_auto_spec_u64_to_from_le_bytes();
            assert(spec_u64_to_le_bytes(0u64).len() == 8);
        }
        Ok(bytes.len())
    }
}

fn push_address(out: &mut Vec<u8>, a: &Address)
    ensures
        final(out)@ == old(out)@ + a@,
{
    let ghost start = out@;
    let mut i: usize = 0;
    while i < 32
        invariant
            i <= 32,
            a@.len() == 32,
            out@ == start + a@.subrange(0, i as int),
        decreases 32 - i,
    {
        out.push(a.bytes[i]);
        i = i + 1;
        assert(out@ =~= start + a@.subrange(0, i as int));
    }
    assert(a@.subrange(0, 32) =~= a@);
}

/// The admin stored in booth bytes.
pub open spec fn stored_admin(s: Seq<u8>) -> Seq<u8> {
    s.subrange(0, 32)
}

/// The base mint stored in booth bytes.
pub open spec fn stored_mint_base(s: Seq<u8>) -> Seq<u8> {
    s.subrange(32, 64)
}

/// The base decimals stored in booth bytes.
pub open spec fn stored_decimals_base(s: Seq<u8>) -> u8 {
    s[64]
}

/// The quote mint stored in booth bytes.
pub open spec fn stored_mint_quote(s: Seq<u8>) -> Seq<u8> {
    s.subrange(65, 97)
}

/// The quote decimals stored in booth bytes.
pub open spec fn stored_decimals_quote(s: Seq<u8>) -> u8 {
    s[97]
}

/// The oracle stored in booth bytes.
pub open spec fn stored_oracle(s: Seq<u8>) -> Seq<u8> {
    s.subrange(98, 130)
}

/// Each field of a booth record stands at its place in the layout.
pub proof fn lemma_booth_fields(b: ExchangeBooth)
    ensures
        booth_layout(b).len() == 138,
        stored_admin(booth_layout(b)) == b.admin@,
        stored_mint_base(booth_layout(b)) == b.mint_base@,
        stored_decimals_base(booth_layout(b)) == b.decimals_base,
        stored_mint_quote(booth_layout(b)) == b.mint_quote@,
        stored_decimals_quote(booth_layout(b)) == b.decimals_quote,
        stored_oracle(booth_layout(b)) == b.oracle@,
        stored_fee(booth_layout(b)) == b.fee,
{
    lemma_auto_spec_u64_to_from_le_bytes();
    let s = booth_layout(b);
    assert(spec_u64_to_le_bytes(b.fee).len() == 8);
    assert(stored_admin(s) =~= b.admin@);
    assert(stored_mint_base(s) =~= b.mint_base@);
    assert(stored_mint_quote(s) =~= b.mint_quote@);
    assert(stored_oracle(s) =~= b.oracle@);
    assert(s.subrange(130, 138) =~= spec_u64_to_le_bytes(b.fee));
}

} // verus!
