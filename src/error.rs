use vstd::prelude::*;

verus! {

/// The failures that abort an instruction.
#[derive(Clone, Copy, Debug, PartialEq, Eq, Structural)]
pub enum ProgramError {
    /// A supplied address is not the one derived from its seeds.
    InvalidSeeds,
    /// The authority account did not sign.
    MissingRequiredSignature,
    /// The validation record is not owned by the program or is too small.
    UninitializedAccount,
    /// Fewer accounts were supplied than the instruction needs.
    NotEnoughAccountKeys,
    /// The instruction payload does not decode.
    InvalidInstructionData,
    /// An account's data does not hold what it should.
    InvalidAccountData,
    /// A buffer is too small for the record written into it.
    AccountDataTooSmall,
    /// The buffer already holds a validation record.
    AccountAlreadyInitialized,
    /// The account to allocate already has data or an owner.
    AccountAlreadyInUse,
    /// A size computation overflowed.
    ArithmeticOverflow,
    /// The mint has no mint authority.
    MintHasNoMintAuthority,
    /// The signer is not the mint's authority.
    IncorrectMintAuthority,
    /// A token account is not in the middle of a transfer.
    ProgramCalledOutsideOfTransfer,
    /// A supplied extra account differs from the one the record resolves to.
    IncorrectAccount,
    /// A seed refers to bytes that are not there.
    SeedOutOfRange,
    /// A meta cannot be written in the record's layout.
    InvalidSeedConfig,
    /// A failure reported by the consuming program's own code.
    Custom(u32),
}

} // verus!
