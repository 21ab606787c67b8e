//! Stateless Groth16 (BN254) verification and the account logic of the
//! key-registry program built around it.
pub mod constants;
pub mod error;
pub mod scalar;
pub mod groth16_proof;
pub mod verifying_key;
pub mod syscall;
pub mod groth16_verifier;
pub mod validation;
pub mod state;
pub mod tag;
pub mod program_error;
pub mod processor;
pub mod address;
pub mod instruction;

pub use error::Groth16Error;
pub use groth16_proof::Proof;
pub use verifying_key::VerifyingKey;
pub use tag::Tag;
pub use groth16_verifier::verify;
