use vstd::prelude::*;

verus! {

/// Failures that belong to the bridge itself; the host reports each one by
/// its custom code.
#[derive(Debug, Clone, Copy, PartialEq, Eq, Structural)]
pub enum LockerError {
    /// The signer is not the stored authority.
    InvalidAuthority,
    /// The instruction bytes are malformed or truncated.
    InvalidInstruction,
    /// A decimal rescale in an unsupported direction, or one that does not fit.
    UnexpectedDecimalConversion,
}

impl LockerError {
    pub open spec fn spec_code(self) -> u32 {
        match self {
            LockerError::InvalidAuthority => 0,
            LockerError::InvalidInstruction => 1,
            LockerError::UnexpectedDecimalConversion => 2,
        }
    }

    /// The custom error code under which the host surfaces this failure.
    pub fn code(&self) -> (r: u32)
        ensures
            r == self.spec_code(),
    {
        match self {
            LockerError::InvalidAuthority => 0,
            LockerError::InvalidInstruction => 1,
            LockerError::UnexpectedDecimalConversion => 2,
        }
    }
}

/// Why an instruction is aborted: a bridge failure, or one of the host's own
/// conditions.
#[derive(Debug, Clone, Copy, PartialEq, Eq, Structural)]
pub enum ProcessError {
    Locker(LockerError),
    /// The first byte names no operation.
    InvalidInstructionData,
    /// An account does not match its derivation, its owner or its layout.
    InvalidAccountData,
    /// The invoking account did not sign.
    MissingRequiredSignature,
    /// The ledger record has not been initialized.
    UninitializedAccount,
    /// Fewer accounts than the operation reads.
    NotEnoughAccountKeys,
    /// No program address could be derived from the seeds.
    InvalidSeeds,
    /// A counter would leave the range of `u64`.
    ArithmeticOverflow,
}

} // verus!
