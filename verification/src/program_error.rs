//! Error surface of the program. Three kinds of failure:
//!
//! - **Verification and layout** (`Custom(0..=8)`): every [`Groth16Error`]
//!   mapped one-to-one by [`map_groth16`], so a CPI caller can tell "proof did
//!   not verify" (`6`) apart from "malformed input" (the rest).
//! - **Registry semantics** (`Custom(100..)`): conditions only the
//!   registration flow can detect.
//! - **Account and signature checks**: the standard runtime variants.
use vstd::prelude::*;

use crate::error::Groth16Error;

verus! {

/// The runtime's program errors that this program returns.
#[derive(Debug, Clone, Copy, PartialEq, Eq, Structural)]
pub enum ProgramError {
    Custom(u32),
    InvalidArgument,
    InvalidInstructionData,
    InvalidAccountData,
    AccountAlreadyInitialized,
    MissingRequiredSignature,
    IncorrectProgramId,
    InvalidAccountOwner,
    IncorrectAuthority,
    ArithmeticOverflow,
    InvalidSeeds,
}

/// Custom error codes. Stable; append only. `0..=8` mirror [`Groth16Error`]
/// variant for variant; `100..` are the registry's own.
#[derive(Debug, Clone, Copy, PartialEq, Eq, Structural)]
pub enum Groth16ProgramError {
    InvalidProofLength,
    InvalidKeyLength,
    TooManyPublicInputs,
    PublicInputCountMismatch,
    NonCanonicalScalar,
    InvalidPoint,
    ProofInvalid,
    InvalidAccountData,
    WrongDiscriminator,
    /// The supplied key account is not the canonical address for the staged
    /// key body.
    KeyAddressMismatch,
    /// The canonical key account already exists (is owned by this program).
    KeyAlreadyPublished,
    /// The staging account's length does not match `40 + 448 + 64·(n+1)`.
    StagingSizeMismatch,
    /// A `Write` would extend past the end of the staging body.
    WriteOutOfBounds,
    /// A verifying-key element that must not be the identity is the identity.
    IdentityKeyElement,
}

/// The stable code of each custom error.
pub open spec fn spec_code(e: Groth16ProgramError) -> u32 {
    match e {
        Groth16ProgramError::InvalidProofLength => 0,
        Groth16ProgramError::InvalidKeyLength => 1,
        Groth16ProgramError::TooManyPublicInputs => 2,
        Groth16ProgramError::PublicInputCountMismatch => 3,
        Groth16ProgramError::NonCanonicalScalar => 4,
        Groth16ProgramError::InvalidPoint => 5,
        Groth16ProgramError::ProofInvalid => 6,
        Groth16ProgramError::InvalidAccountData => 7,
        Groth16ProgramError::WrongDiscriminator => 8,
        Groth16ProgramError::KeyAddressMismatch => 100,
        Groth16ProgramError::KeyAlreadyPublished => 101,
        Groth16ProgramError::StagingSizeMismatch => 102,
        Groth16ProgramError::WriteOutOfBounds => 103,
        Groth16ProgramError::IdentityKeyElement => 104,
    }
}

/// The custom code a verifier error is reported under.
pub open spec fn groth16_code(e: Groth16Error) -> u32 {
    match e {
        Groth16Error::InvalidProofLength => 0,
        Groth16Error::InvalidKeyLength => 1,
        Groth16Error::TooManyPublicInputs => 2,
        Groth16Error::PublicInputCountMismatch => 3,
        Groth16Error::NonCanonicalScalar => 4,
        Groth16Error::InvalidPoint => 5,
        Groth16Error::ProofInvalid => 6,
        Groth16Error::InvalidAccountData => 7,
        Groth16Error::WrongDiscriminator => 8,
        Groth16Error::IdentityKeyElement => 104,
    }
}

impl Groth16ProgramError {
    /// The stable code.
    pub fn code(self) -> (c: u32)
        ensures
            c == spec_code(self),
    {
        match self {
            Groth16ProgramError::InvalidProofLength => 0,
            Groth16ProgramError::InvalidKeyLength => 1,
            Groth16ProgramError::TooManyPublicInputs => 2,
            Groth16ProgramError::PublicInputCountMismatch => 3,
            Groth16ProgramError::NonCanonicalScalar => 4,
            Groth16ProgramError::InvalidPoint => 5,
            Groth16ProgramError::ProofInvalid => 6,
            Groth16ProgramError::InvalidAccountData => 7,
            Groth16ProgramError::WrongDiscriminator => 8,
            Groth16ProgramError::KeyAddressMismatch => 100,
            Groth16ProgramError::KeyAlreadyPublished => 101,
            Groth16ProgramError::StagingSizeMismatch => 102,
            Groth16ProgramError::WriteOutOfBounds => 103,
            Groth16ProgramError::IdentityKeyElement => 104,
        }
    }
}

impl From<Groth16ProgramError> for ProgramError {
    fn from(e: Groth16ProgramError) -> (r: ProgramError) {
        ProgramError::Custom(e.code())
    }
}

impl vstd::std_specs::convert::FromSpecImpl<Groth16ProgramError> for ProgramError {
    open spec fn obeys_from_spec() -> bool {
        true
    }

    open spec fn from_spec(e: Groth16ProgramError) -> ProgramError {
        ProgramError::Custom(spec_code(e))
    }
}

/// Maps a verifier error onto its stable custom code.
pub fn map_groth16(e: Groth16Error) -> (r: ProgramError)
    ensures
        r == ProgramError::Custom(groth16_code(e)),
{
    let code = match e {
        Groth16Error::InvalidProofLength => Groth16ProgramError::InvalidProofLength,
        Groth16Error::InvalidKeyLength => Groth16ProgramError::InvalidKeyLength,
        Groth16Error::TooManyPublicInputs => Groth16ProgramError::TooManyPublicInputs,
        Groth16Error::PublicInputCountMismatch => Groth16ProgramError::PublicInputCountMismatch,
        Groth16Error::NonCanonicalScalar => Groth16ProgramError::NonCanonicalScalar,
        Groth16Error::InvalidPoint => Groth16ProgramError::InvalidPoint,
        Groth16Error::ProofInvalid => Groth16ProgramError::ProofInvalid,
        Groth16Error::InvalidAccountData => Groth16ProgramError::InvalidAccountData,
        Groth16Error::WrongDiscriminator => Groth16ProgramError::WrongDiscriminator,
        Groth16Error::IdentityKeyElement => Groth16ProgramError::IdentityKeyElement,
    };
    ProgramError::from(code)
}

/// Distinct verifier errors are reported under distinct codes.
pub proof fn lemma_groth16_codes_distinct(a: Groth16Error, b: Groth16Error)
    requires
        a != b,
    ensures
        groth16_code(a) != groth16_code(b),
{
}

} // verus!
