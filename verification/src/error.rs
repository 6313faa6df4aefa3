//! Error surface of the protocol. Every failure of a processor or of the
//! account resolver maps to exactly one variant, so callers can tell apart
//! "wrong account supplied" from "state precondition not met".

use vstd::prelude::*;

verus! {

/// Protocol-specific failures raised by the processors.
#[derive(Clone, Copy, Debug, PartialEq, Eq, Structural)]
pub enum ProtocolError {
    /// The supplied soulbound mint is not the derived soulbound mint address.
    IncorrectSoulboundMint,
    /// The supplied soulbound token account is not the derived associated
    /// token account of the expected owner.
    IncorrectSoulboundTokenAccount,
    /// A soulbound token account holds tokens where none were expected.
    SoulboundTokenAccountHasTokens,
    /// A soulbound token account holds no token where one was required.
    SoulboundTokenAccountIsEmpty,
    /// A profile account already holds funds, so it was created before.
    ProfileAlreadyInitialized,
    /// A profile account holds no funds, so it was never created.
    ProfileNotInitialized,
    /// A profile's display name exceeds the allowed byte length.
    UsernameTooLong,
    /// The supplied validation account is not the derived validation address.
    IncorrectValidationAccount,
}

impl ProtocolError {
    /// The stable numeric code of this failure, in declaration order.
    pub open spec fn spec_code(&self) -> u32 {
        match self {
            ProtocolError::IncorrectSoulboundMint => 0,
            ProtocolError::IncorrectSoulboundTokenAccount => 1,
            ProtocolError::SoulboundTokenAccountHasTokens => 2,
            ProtocolError::SoulboundTokenAccountIsEmpty => 3,
            ProtocolError::ProfileAlreadyInitialized => 4,
            ProtocolError::ProfileNotInitialized => 5,
            ProtocolError::UsernameTooLong => 6,
            ProtocolError::IncorrectValidationAccount => 7,
        }
    }

    /// The stable numeric code surfaced to the invoking transaction.
    pub fn code(&self) -> (r: u32)
        ensures
            r == self.spec_code(),
    {
        match self {
            ProtocolError::IncorrectSoulboundMint => 0,
            ProtocolError::IncorrectSoulboundTokenAccount => 1,
            ProtocolError::SoulboundTokenAccountHasTokens => 2,
            ProtocolError::SoulboundTokenAccountIsEmpty => 3,
            ProtocolError::ProfileAlreadyInitialized => 4,
            ProtocolError::ProfileNotInitialized => 5,
            ProtocolError::UsernameTooLong => 6,
            ProtocolError::IncorrectValidationAccount => 7,
        }
    }
}

/// Failures of one account-resolution step.
#[derive(Clone, Copy, Debug, PartialEq, Eq, Structural)]
pub enum ResolveError {
    /// A seed slice reaches past the end of the referenced account's data.
    OutOfBounds,
    /// A descriptor or seed references an account index that is not
    /// available yet.
    UnresolvedReference,
    /// The bump search of the address derivation was exhausted.
    DerivationFailed,
}

/// Everything a processor invocation can fail with.
#[derive(Clone, Copy, Debug, PartialEq, Eq, Structural)]
pub enum ProcessError {
    /// A protocol-specific precondition failed.
    Protocol(ProtocolError),
    /// An account that must sign the invocation did not.
    MissingRequiredSignature,
    /// The instruction payload decodes under no known discriminator.
    InvalidInstructionData,
    /// Fewer accounts were supplied than the instruction expects.
    NotEnoughAccountKeys,
    /// An account's bytes do not decode as the record they must hold.
    InvalidAccountData,
    /// The hook ran while the host ledger had no transfer in progress.
    CalledOutsideOfTransfer,
    /// The bump search of an address derivation was exhausted.
    DerivationFailed,
    /// A target region is smaller than the bytes that must be written.
    BufferTooSmall,
}

} // verus!
