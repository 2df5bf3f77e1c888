//! The errors that an instruction can end with.

use pinocchio::program_error::ProgramError;
use vstd::prelude::*;

verus! {

/// The error type of the hosting runtime, `pinocchio`'s `ProgramError`,
/// made known with its variants, so that verified code can build its values
/// and contracts can tell them apart. Nothing is claimed of it but its shape.
#[verifier::external_type_specification]
pub struct ExProgramError(ProgramError);

/// Why an instruction was rejected. Every error ends the call with no
/// account changed.
#[derive(Clone, Copy, Debug, PartialEq, Eq, Structural)]
pub enum TokenError {
    /// The opcode is unknown or its argument bytes have the wrong shape.
    InvalidInstructionData,
    /// An account buffer has the wrong size or holds bytes that are no record,
    /// or one account was passed in two roles that must differ.
    InvalidAccountData,
    /// An argument is malformed or names something that the target does not have.
    InvalidArgument,
    /// The call names fewer accounts than the instruction reads.
    NotEnoughAccountKeys,
    /// The record to be created exists already.
    AccountAlreadyInitialized,
    /// The record has not been created yet.
    UninitializedAccount,
    /// The authority named is not the one recorded, or has not signed.
    NotSignerOrOwner,
    /// Fewer registered signers of a multisig have signed than it requires.
    NotEnoughSigners,
    /// Two records that must share a mint do not.
    MintMismatch,
    /// The decimals stated by the caller are not those of the mint.
    DecimalMismatch,
    /// The balance or the allowance is smaller than the amount.
    InsufficientFunds,
    /// A sum would exceed the range of a `u64`.
    Overflow,
    /// A difference would fall below zero.
    Underflow,
    /// An account that still holds tokens cannot be closed.
    NonZeroBalance,
    /// The mint has no freeze authority.
    NoFreezeAuthority,
    /// The account is frozen.
    AccountFrozen,
}

impl TokenError {
    /// The error that the hosting runtime reports for `self`. Errors that the
    /// runtime knows keep their meaning; the others travel as custom codes.
    pub open spec fn program_error(self) -> ProgramError {
        match self {
            TokenError::InvalidInstructionData => ProgramError::InvalidInstructionData,
            TokenError::InvalidAccountData => ProgramError::InvalidAccountData,
            TokenError::InvalidArgument => ProgramError::InvalidArgument,
            TokenError::NotEnoughAccountKeys => ProgramError::NotEnoughAccountKeys,
            TokenError::AccountAlreadyInitialized => ProgramError::AccountAlreadyInitialized,
            TokenError::UninitializedAccount => ProgramError::UninitializedAccount,
            TokenError::NotSignerOrOwner => ProgramError::MissingRequiredSignature,
            TokenError::NotEnoughSigners => ProgramError::Custom(20),
            TokenError::MintMismatch => ProgramError::Custom(3),
            TokenError::DecimalMismatch => ProgramError::Custom(18),
            TokenError::InsufficientFunds => ProgramError::InsufficientFunds,
            TokenError::Overflow => ProgramError::ArithmeticOverflow,
            TokenError::Underflow => ProgramError::Custom(21),
            TokenError::NonZeroBalance => ProgramError::Custom(11),
            TokenError::NoFreezeAuthority => ProgramError::Custom(16),
            TokenError::AccountFrozen => ProgramError::Custom(17),
        }
    }

    /// Maps the error to the one that the hosting runtime reports.
    pub fn to_program_error(self) -> (e: ProgramError)
        ensures
            e == self.program_error(),
    {
        match self {
            TokenError::InvalidInstructionData => ProgramError::InvalidInstructionData,
            TokenError::InvalidAccountData => ProgramError::InvalidAccountData,
            TokenError::InvalidArgument => ProgramError::InvalidArgument,
            TokenError::NotEnoughAccountKeys => ProgramError::NotEnoughAccountKeys,
            TokenError::AccountAlreadyInitialized => ProgramError::AccountAlreadyInitialized,
            TokenError::UninitializedAccount => ProgramError::UninitializedAccount,
            TokenError::NotSignerOrOwner => ProgramError::MissingRequiredSignature,
            TokenError::NotEnoughSigners => ProgramError::Custom(20),
            TokenError::MintMismatch => ProgramError::Custom(3),
            TokenError::DecimalMismatch => ProgramError::Custom(18),
            TokenError::InsufficientFunds => ProgramError::InsufficientFunds,
            TokenError::Overflow => ProgramError::ArithmeticOverflow,
            TokenError::Underflow => ProgramError::Custom(21),
            TokenError::NonZeroBalance => ProgramError::Custom(11),
            TokenError::NoFreezeAuthority => ProgramError::Custom(16),
            TokenError::AccountFrozen => ProgramError::Custom(17),
        }
    }
}

/// No two errors are reported to the runtime as the same one.
pub proof fn lemma_program_error_injective(a: TokenError, b: TokenError)
    requires
        a.program_error() == b.program_error(),
    ensures
        a == b,
{
}

} // verus!
