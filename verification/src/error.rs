//! Failure modes of layout parsing and verification.
use vstd::prelude::*;

verus! {

/// Why a proof, key or account was rejected.
#[derive(Debug, Clone, Copy, PartialEq, Eq, Structural)]
pub enum Groth16Error {
    /// Proof bytes are not exactly 256 bytes (or fewer than 256 to split from).
    InvalidProofLength,
    /// Key body length is not `448 + 64·(n+1)` for an admissible `n`.
    InvalidKeyLength,
    /// `n` exceeds `MAX_PUBLIC_INPUTS`.
    TooManyPublicInputs,
    /// The public inputs are not `32·n` bytes.
    PublicInputCountMismatch,
    /// A public input is not below the scalar-field modulus.
    NonCanonicalScalar,
    /// A point failed the curve or subgroup check of a group operation.
    InvalidPoint,
    /// A well-formed proof that does not verify.
    ProofInvalid,
    /// Account data too short or inconsistent with its header.
    InvalidAccountData,
    /// Account data carries the wrong discriminator.
    WrongDiscriminator,
    /// A key element that must not be the identity is the identity.
    IdentityKeyElement,
}

} // verus!
