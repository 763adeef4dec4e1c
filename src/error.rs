//! The ways in which an instruction can fail.
use vstd::prelude::*;

verus! {

/// Why an instruction was refused. Every failure leaves all accounts as they were.
#[derive(Clone, Copy, Debug, PartialEq, Eq, Structural)]
pub enum CustodyError {
    /// A required signature is absent.
    MissingSignature,
    /// An account that must be written is read-only.
    NotWritable,
    /// An account is not owned by the expected program.
    OwnerMismatch,
    /// A collaborator account is not the program it should be.
    UnexpectedCollaborator,
    /// A presented address differs from the one its seeds derive.
    AddressMismatch,
    /// An account has no lamports: it does not exist, or was closed.
    AccountNotFound,
    /// An account to be created already holds lamports or data.
    AccountAlreadyInUse,
    /// Fewer accounts were passed than the instruction needs.
    NotEnoughAccounts,
    /// The instruction bytes do not decode.
    InvalidInstructionData,
    /// An account's data does not decode as the record it should hold.
    InvalidAccountData,
    /// The data to write is empty.
    EmptyInput,
    /// The shared buffer already holds a non-zero byte.
    BufferNotEmpty,
    /// The requested buffer cannot hold its header and one payload byte.
    BufferTooSmall,
    /// A mint is neither of the booth's two currencies.
    UnknownMint,
    /// A vault holds less than the amount to move out of it.
    InsufficientVaultBalance,
    /// A user's token account holds less than the amount to move out of it.
    InsufficientFunds,
    /// The oracle gave no usable rate.
    OracleUnavailable,
    /// The tokens paid for a write could not be burned.
    PaymentFailed,
    /// An amount does not fit the integer that must hold it.
    ArithmeticOverflow,
}

} // verus!
