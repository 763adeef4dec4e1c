//! The instructions of both programs and their byte encodings: a tag byte, then
//! the fields in order, integers little-endian, byte strings behind a 4-byte length.
use vstd::prelude::*;
use vstd::bytes::{
    spec_u32_from_le_bytes, spec_u32_to_le_bytes, spec_u64_from_le_bytes, spec_u64_to_le_bytes,
    u32_from_le_bytes, u64_from_le_bytes, lemma_auto_spec_u32_to_from_le_bytes,
    lemma_auto_spec_u64_to_from_le_bytes,
};
use vstd::slice::slice_subrange;
use crate::address::Address;
use crate::error::CustodyError;

verus! {

/// An instruction of the echo program.
#[derive(Debug)]
pub enum EchoInstruction {
    /// Copy bytes into the shared buffer.
    Echo { data: Vec<u8> },
    /// Create a buffer owned through a derived address.
    InitializeAuthorizedEcho { buffer_seed: u64, buffer_size: u32 },
    /// Write an owned buffer.
    AuthorizedEcho { data: Vec<u8> },
    /// Create a buffer whose writes cost tokens.
    InitializeVendingMachineEcho { price: u64, buffer_size: u32 },
    /// Pay for and write such a buffer.
    VendingMachineEcho { data: Vec<u8> },
}

/// An instruction of the exchange booth.
#[derive(Debug)]
pub enum ExchangeBoothInstruction {
    /// Create a booth with its state account and two vaults, at the given bumps.
    InitializeExchangeBooth { vault_base_bump: u8, vault_quote_bump: u8, state_bump: u8 },
    /// Move tokens from the admin into the vault of `mint`.
    Deposit { mint: Address, amount: u64 },
    /// Move tokens from the vault of `mint` back to the admin.
    Withdraw { mint: Address, amount: u64 },
    /// Trade `amount` of `input_mint` for the other currency at the oracle's rate.
    Exchange { input_mint: Address, amount: u64 },
    /// Empty the vaults to the admin and close the booth.
    CloseExchangeBooth,
}

/// A byte string as a field: its length, then its bytes.
pub open spec fn bytes_field(data: Seq<u8>) -> Seq<u8> {
    spec_u32_to_le_bytes(data.len() as u32) + data
}

/// The encoding of an echo instruction.
pub open spec fn echo_instruction_layout(ix: EchoInstruction) -> Seq<u8> {
    match ix {
        EchoInstruction::Echo { data } => seq![0u8] + bytes_field(data@),
        EchoInstruction::InitializeAuthorizedEcho { buffer_seed, buffer_size } => seq![1u8]
            + spec_u64_to_le_bytes(buffer_seed) + spec_u32_to_le_bytes(buffer_size),
        EchoInstruction::AuthorizedEcho { data } => seq![2u8] + bytes_field(data@),
        EchoInstruction::InitializeVendingMachineEcho { price, buffer_size } => seq![3u8]
            + spec_u64_to_le_bytes(price) + spec_u32_to_le_bytes(buffer_size),
        EchoInstruction::VendingMachineEcho { data } => seq![4u8] + bytes_field(data@),
    }
}

/// The tag of an echo instruction that carries a byte string.
pub open spec fn carries_bytes(tag: u8) -> bool {
    tag == 0 || tag == 2 || tag == 4
}

/// The tag of an echo instruction that carries a number and a size.
pub open spec fn carries_number_and_size(tag: u8) -> bool {
    tag == 1 || tag == 3
}

/// Whether bytes decode as an echo instruction.
pub open spec fn echo_instruction_decodes(s: Seq<u8>) -> bool {
    &&& s.len() >= 1
    &&& {
        ||| carries_bytes(s[0]) && s.len() >= 5 && spec_u32_from_le_bytes(s.subrange(1, 5)) == s.len()
            - 5
        ||| carries_number_and_size(s[0]) && s.len() == 13
    }
}

/// The byte string that an encoded instruction carries after its tag.
pub open spec fn carried_bytes(s: Seq<u8>) -> Seq<u8> {
    s.subrange(5, s.len() as int)
}

/// The 8-byte number that follows an encoded instruction's tag.
pub open spec fn carried_u64(s: Seq<u8>) -> u64 {
    spec_u64_from_le_bytes(s.subrange(1, 9))
}

/// The 4-byte size that follows the number of an encoded echo instruction.
pub open spec fn carried_u32(s: Seq<u8>) -> u32 {
    spec_u32_from_le_bytes(s.subrange(9, 13))
}

fn copy_range(bytes: &Vec<u8>, start: usize, end: usize) -> (r: Vec<u8>)
    requires
        start <= end <= bytes@.len(),
    ensures
        r@ == bytes@.subrange(start as int, end as int),
{
    let mut out: Vec<u8> = Vec::new();
    let mut i: usize = start;
    while i < end
        invariant
            start <= i <= end,
            end <= bytes@.len(),
            out@ == bytes@.subrange(start as int, i as int),
        decreases end - i,
    {
        out.push(bytes[i]);
        i = i + 1;
        assert(out@ =~= bytes@.subrange(start as int, i as int));
    }
    out
}

fn read_u64(bytes: &Vec<u8>, at: usize) -> (r: u64)
    requires
        at + 8 <= bytes@.len(),
    ensures
        r == spec_u64_from_le_bytes(bytes@.subrange(at as int, at + 8)),
{
    let _n = bytes.len();
    u64_from_le_bytes(slice_subrange(bytes.as_slice(), at, at + 8))
}

impl EchoInstruction {
    /// Decodes an echo instruction; `InvalidInstructionData` where the bytes are
    /// not the encoding of one.
    pub fn unpack(bytes: &Vec<u8>) -> (r: Result<EchoInstruction, CustodyError>)
        ensures
            r is Ok <==> echo_instruction_decodes(bytes@),
            r matches Ok(ix) ==> echo_instruction_layout(ix) == bytes@,
            r matches Err(e) ==> e == CustodyError::InvalidInstructionData,
    {
        proof {
            lemma_auto_spec_u64_to_from_le_bytes();
            lemma_auto_spec_u32_to_from_le_bytes();
        }
        if bytes.len() < 1 {
            return Err(CustodyError::InvalidInstructionData);
        }
        let tag = bytes[0];
        if tag == 0 || tag == 2 || tag == 4 {
            if bytes.len() < 5 {
                return Err(CustodyError::InvalidInstructionData);
            }
            let len = u32_from_le_bytes(slice_subrange(bytes.as_slice(), 1, 5));
            if len as usize != bytes.len() - 5 {
                return Err(CustodyError::InvalidInstructionData);
            }
            let data = copy_range(bytes, 5, bytes.len());
            proof {
                let s = bytes@;
                assert(spec_u32_to_le_bytes(spec_u32_from_le_bytes(s.subrange(1, 5))) == s.subrange(1, 5));
                assert(s =~= seq![tag] + bytes_field(data@));
            }
            if tag == 0 {
                Ok(EchoInstruction::Echo { data })
            } else if tag == 2 {
                Ok(EchoInstruction::AuthorizedEcho { data })
            } else {
                Ok(EchoInstruction::VendingMachineEcho { data })
            }
        } else if tag == 1 || tag == 3 {
            if bytes.len() != 13 {
                return Err(CustodyError::InvalidInstructionData);
            }
            let number = read_u64(bytes, 1);
            let size = u32_from_le_bytes(slice_subrange(bytes.as_slice(), 9, 13));
            proof {
                let s = bytes@;
                assert(spec_u64_to_le_bytes(spec_u64_from_le_bytes(s.subrange(1, 9))) == s.subrange(1, 9));
                assert(spec_u32_to_le_bytes(spec_u32_from_le_bytes(s.subrange(9, 13))) == s.subrange(9, 13));
                assert(s =~= seq![tag] + spec_u64_to_le_bytes(number) + spec_u32_to_le_bytes(size));
            }
            if tag == 1 {
                Ok(EchoInstruction::InitializeAuthorizedEcho { buffer_seed: number, buffer_size: size })
            } else {
                Ok(EchoInstruction::InitializeVendingMachineEcho { price: number, buffer_size: size })
            }
        } else {
            Err(CustodyError::InvalidInstructionData)
        }
    }
}

/// An encoded echo instruction gives back its fields.
pub proof fn lemma_echo_fields(ix: EchoInstruction)
    requires
        echo_instruction_layout(ix).len() <= u32::MAX + 5,
    ensures
        ({
            let s = echo_instruction_layout(ix);
            match ix {
                EchoInstruction::Echo { data } => carried_bytes(s) == data@,
                EchoInstruction::AuthorizedEcho { data } => carried_bytes(s) == data@,
                EchoInstruction::VendingMachineEcho { data } => carried_bytes(s) == data@,
                EchoInstruction::InitializeAuthorizedEcho { buffer_seed, buffer_size } => carried_u64(s)
                    == buffer_seed && carried_u32(s) == buffer_size,
                EchoInstruction::InitializeVendingMachineEcho { price, buffer_size } => carried_u64(s)
                    == price && carried_u32(s) == buffer_size,
            }
        }),
{
    lemma_auto_spec_u64_to_from_le_bytes();
    lemma_auto_spec_u32_to_from_le_bytes();
    let s = echo_instruction_layout(ix);
    match ix {
        EchoInstruction::Echo { data } => {
            assert(carried_bytes(s) =~= data@);
        },
        EchoInstruction::AuthorizedEcho { data } => {
            assert(carried_bytes(s) =~= data@);
        },
        EchoInstruction::VendingMachineEcho { data } => {
            assert(carried_bytes(s) =~= data@);
        },
        EchoInstruction::InitializeAuthorizedEcho { buffer_seed, buffer_size } => {
            assert(s.subrange(1, 9) =~= spec_u64_to_le_bytes(buffer_seed));
            assert(s.subrange(9, 13) =~= spec_u32_to_le_bytes(buffer_size));
        },
        EchoInstruction::InitializeVendingMachineEcho { price, buffer_size } => {
            assert(s.subrange(1, 9) =~= spec_u64_to_le_bytes(price));
            assert(s.subrange(9, 13) =~= spec_u32_to_le_bytes(buffer_size));
        },
    }
}

/// The encoding of an exchange booth instruction.
pub open spec fn booth_instruction_layout(ix: ExchangeBoothInstruction) -> Seq<u8> {
    match ix {
        ExchangeBoothInstruction::InitializeExchangeBooth {
            vault_base_bump,
            vault_quote_bump,
            state_bump,
        } => seq![0u8, vault_base_bump, vault_quote_bump, state_bump],
        ExchangeBoothInstruction::Deposit { mint, amount } => seq![1u8] + mint@ + spec_u64_to_le_bytes(
            amount,
        ),
        ExchangeBoothInstruction::Withdraw { mint, amount } => seq![2u8] + mint@ + spec_u64_to_le_bytes(
            amount,
        ),
        ExchangeBoothInstruction::Exchange { input_mint, amount } => seq![3u8] + input_mint@
            + spec_u64_to_le_bytes(amount),
        ExchangeBoothInstruction::CloseExchangeBooth => seq![4u8],
    }
}

/// Whether bytes decode as an exchange booth instruction.
pub open spec fn booth_instruction_decodes(s: Seq<u8>) -> bool {
    &&& s.len() >= 1
    &&& {
        ||| s[0] == 0 && s.len() == 4
        ||| 1 <= s[0] <= 3 && s.len() == 41
        ||| s[0] == 4 && s.len() == 1
    }
}

/// The address that an encoded booth instruction carries after its tag.
pub open spec fn carried_address(s: Seq<u8>) -> Seq<u8> {
    s.subrange(1, 33)
}

/// The amount that follows the address of an encoded booth instruction.
pub open spec fn carried_amount(s: Seq<u8>) -> u64 {
    spec_u64_from_le_bytes(s.subrange(33, 41))
}

impl ExchangeBoothInstruction {
    /// Decodes an exchange booth instruction; `InvalidInstructionData` where the
    /// bytes are not the encoding of one.
    pub fn unpack(bytes: &Vec<u8>) -> (r: Result<ExchangeBoothInstruction, CustodyError>)
        ensures
            r is Ok <==> booth_instruction_decodes(bytes@),
            r matches Ok(ix) ==> booth_instruction_layout(ix) == bytes@,
            r matches Err(e) ==> e == CustodyError::InvalidInstructionData,
    {
        if bytes.len() < 1 {
            return Err(CustodyError::InvalidInstructionData);
        }
        let tag = bytes[0];
        if tag == 0 {
            if bytes.len() != 4 {
                return Err(CustodyError::InvalidInstructionData);
            }
            let r = ExchangeBoothInstruction::InitializeExchangeBooth {
                vault_base_bump: bytes[1],
                vault_quote_bump: bytes[2],
                state_bump: bytes[3],
            };
            assert(booth_instruction_layout(r) =~= bytes@);
            Ok(r)
        } else if tag == 4 {
            if bytes.len() != 1 {
                return Err(CustodyError::InvalidInstructionData);
            }
            assert(booth_instruction_layout(ExchangeBoothInstruction::CloseExchangeBooth) =~= bytes@);
            Ok(ExchangeBoothInstruction::CloseExchangeBooth)
        } else if tag <= 3 {
            if bytes.len() != 41 {
                return Err(CustodyError::InvalidInstructionData);
            }
            let mint = Address::read_at(bytes, 1);
            let amount = read_u64(bytes, 33);
            proof {
                lemma_auto_spec_u64_to_from_le_bytes();
                let t = bytes@;
                assert(spec_u64_to_le_bytes(spec_u64_from_le_bytes(t.subrange(33, 41))) == t.subrange(33, 41));
                assert(t =~= seq![tag] + mint@ + spec_u64_to_le_bytes(amount));
            }
            if tag == 1 {
                Ok(ExchangeBoothInstruction::Deposit { mint, amount })
            } else if tag == 2 {
                Ok(ExchangeBoothInstruction::Withdraw { mint, amount })
            } else {
                Ok(ExchangeBoothInstruction::Exchange { input_mint: mint, amount })
            }
        } else {
            Err(CustodyError::InvalidInstructionData)
        }
    }
}

/// An encoded booth instruction gives back its fields.
pub proof fn lemma_booth_fields_carried(ix: ExchangeBoothInstruction)
    ensures
        ({
            let s = booth_instruction_layout(ix);
            match ix {
                ExchangeBoothInstruction::InitializeExchangeBooth {
                    vault_base_bump,
                    vault_quote_bump,
                    state_bump,
                } => s[1] == vault_base_bump && s[2] == vault_quote_bump && s[3] == state_bump,
                ExchangeBoothInstruction::Deposit { mint, amount } => carried_address(s) == mint@
                    && carried_amount(s) == amount,
                ExchangeBoothInstruction::Withdraw { mint, amount } => carried_address(s) == mint@
                    && carried_amount(s) == amount,
                ExchangeBoothInstruction::Exchange { input_mint, amount } => carried_address(s)
                    == input_mint@ && carried_amount(s) == amount,
                ExchangeBoothInstruction::CloseExchangeBooth => true,
            }
        }),
{
    lemma_auto_spec_u64_to_from_le_bytes();
    let s = booth_instruction_layout(ix);
    match ix {
        ExchangeBoothInstruction::Deposit { mint, amount } => {
            assert(carried_address(s) =~= mint@);
            assert(s.subrange(33, 41) =~= spec_u64_to_le_bytes(amount));
        },
        ExchangeBoothInstruction::Withdraw { mint, amount } => {
            assert(carried_address(s) =~= mint@);
            assert(s.subrange(33, 41) =~= spec_u64_to_le_bytes(amount));
        },
        ExchangeBoothInstruction::Exchange { input_mint, amount } => {
            assert(carried_address(s) =~= input_mint@);
            assert(s.subrange(33, 41) =~= spec_u64_to_le_bytes(amount));
        },
        _ => {},
    }
}

} // verus!
