//! `Verify`.
//!
//! Accounts: `[key (r)]`. Data: `proof (256) ‖ public_inputs (32·n)`.
//!
//! No address re-derivation: the account must be owned by the program and
//! carry the key discriminator, which only `Publish` writes.
use vstd::prelude::*;

use crate::constants::PROOF_SIZE;
use crate::error::Groth16Error;
use crate::groth16_proof::Proof;
use crate::groth16_verifier::{spec_verify, verify};
use crate::processor::{expect_owned_by, models, Account, AccountModel};
use crate::program_error::{groth16_code, map_groth16, ProgramError};
use crate::state::{
    key_header_bytes, lemma_key_account_round_trip, read_key_account, spec_read_key_account,
};
use crate::constants::{spec_vk_body_len, MAX_PUBLIC_INPUTS};

verus! {

/// What `Verify` answers for a key account and `proof ‖ public_inputs`.
pub open spec fn spec_verify_instruction(
    program_id: Seq<u8>,
    accounts: Seq<AccountModel>,
    payload: Seq<u8>,
) -> Result<(), ProgramError> {
    if accounts.len() != 1 {
        Err(ProgramError::InvalidArgument)
    } else if accounts[0].owner != program_id {
        Err(ProgramError::InvalidAccountOwner)
    } else {
        match spec_read_key_account(accounts[0].data) {
            Err(e) => Err(ProgramError::Custom(groth16_code(e))),
            Ok((header, body)) => if payload.len() < PROOF_SIZE {
                Err(ProgramError::Custom(groth16_code(Groth16Error::InvalidProofLength)))
            } else {
                match spec_verify(
                    body,
                    header.num_public_inputs as nat,
                    payload.take(PROOF_SIZE as int),
                    payload.skip(PROOF_SIZE as int),
                ) {
                    Err(e) => Err(ProgramError::Custom(groth16_code(e))),
                    Ok(()) => Ok(()),
                }
            },
        }
    }
}

/// Verifies `proof ‖ public_inputs` against the key held by the account.
pub fn process(program_id: &[u8; 32], accounts: &Vec<Account>, payload: &[u8]) -> (r: Result<
    (),
    ProgramError,
>)
    ensures
        r == spec_verify_instruction(program_id@, models(accounts@), payload@),
{
    if accounts.len() != 1 {
        return Err(ProgramError::InvalidArgument);
    }
    let key = &accounts[0];
    expect_owned_by(key, program_id)?;
    let (_header, vk) = match read_key_account(key.data.as_slice()) {
        Ok(parsed) => parsed,
        Err(e) => return Err(map_groth16(e)),
    };
    let (proof, public_inputs) = match Proof::split_from(payload) {
        Ok(split) => split,
        Err(e) => return Err(map_groth16(e)),
    };
    match verify(&vk, &proof, public_inputs) {
        Ok(()) => Ok(()),
        Err(e) => Err(map_groth16(e)),
    }
}

/// What `Publish` writes is what `Verify` checks against: a key account
/// holding the header and body that `Publish` wrote verifies every proof
/// exactly as the verifier does for that body and `n`.
pub proof fn lemma_published_key_verifies(
    program_id: Seq<u8>,
    key: AccountModel,
    bump: u8,
    n: nat,
    body: Seq<u8>,
    payload: Seq<u8>,
)
    requires
        n <= MAX_PUBLIC_INPUTS,
        body.len() == spec_vk_body_len(n as int),
        key.owner == program_id,
        key.data == key_header_bytes(bump, n) + body,
    ensures
        spec_verify_instruction(program_id, seq![key], payload) == if payload.len() < PROOF_SIZE {
            Err(ProgramError::Custom(groth16_code(Groth16Error::InvalidProofLength)))
        } else {
            match spec_verify(
                body,
                n,
                payload.take(PROOF_SIZE as int),
                payload.skip(PROOF_SIZE as int),
            ) {
                Err(e) => Err(ProgramError::Custom(groth16_code(e))),
                Ok(()) => Ok(()),
            }
        },
{
    lemma_key_account_round_trip(bump, n, body);
}

} // verus!
