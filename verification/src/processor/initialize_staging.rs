//! `InitializeStaging`.
//!
//! Accounts: `[authority (s), staging (w)]`. Data: `n: u16 LE`.
//!
//! The staging account is created by the client through the system program
//! with this program as owner — in the same transaction as this instruction,
//! because nothing here can tell who paid for a blank account. This
//! instruction requires it to be blank and sized exactly for `n`, and records
//! the signer as its authority.
use vstd::prelude::*;

use crate::constants::{spec_staging_account_len, staging_account_len, MAX_PUBLIC_INPUTS, PROOF_SIZE};
use crate::instruction::{initialize_staging_data, lemma_instruction_data_decodes};
use crate::processor::{
    models, spec_authorized_staging, spec_staging_pair, staging_pair, Account, AccountModel,
};
use crate::program_error::{spec_code, Groth16ProgramError, ProgramError};
use crate::state::{
    lemma_staging_account_round_trip, staging_header_bytes, write_staging_header, StagingHeader, DISCRIMINATOR_OFFSET,
    DISCRIMINATOR_UNINITIALIZED, STAGING_HEADER_LEN,
};

verus! {

/// The little-endian `u16` of a two-byte payload.
pub open spec fn le_u16(payload: Seq<u8>) -> nat {
    payload[0] as nat + 256 * (payload[1] as nat)
}

/// What `InitializeStaging` does: the staging account's new data, or the
/// first failed check.
pub open spec fn spec_initialize_staging(
    program_id: Seq<u8>,
    accounts: Seq<AccountModel>,
    payload: Seq<u8>,
) -> Result<Seq<u8>, ProgramError> {
    match spec_staging_pair(program_id, accounts) {
        Err(e) => Err(e),
        Ok(()) => if payload.len() != 2 {
            Err(ProgramError::InvalidInstructionData)
        } else if le_u16(payload) > MAX_PUBLIC_INPUTS {
            Err(ProgramError::Custom(spec_code(Groth16ProgramError::TooManyPublicInputs)))
        } else if accounts[1].data.len() != spec_staging_account_len(le_u16(payload) as int) {
            Err(ProgramError::Custom(spec_code(Groth16ProgramError::StagingSizeMismatch)))
        } else if accounts[1].data[DISCRIMINATOR_OFFSET as int] != DISCRIMINATOR_UNINITIALIZED {
            Err(ProgramError::AccountAlreadyInitialized)
        } else {
            Ok(
                staging_header_bytes(le_u16(payload), accounts[0].address) + accounts[1].data.skip(
                    STAGING_HEADER_LEN as int,
                ),
            )
        },
    }
}

/// Records the signer as the authority of a blank staging account sized for
/// `n`, and `n` itself.
pub fn process(program_id: &[u8; 32], accounts: &mut Vec<Account>, payload: &[u8]) -> (r: Result<
    (),
    ProgramError,
>)
    ensures
        match spec_initialize_staging(program_id@, models(old(accounts)@), payload@) {
            Ok(data) => r is Ok && models(final(accounts)@) == models(old(accounts)@).update(
                1,
                AccountModel { data, ..models(old(accounts)@)[1] },
            ),
            Err(e) => r == Err::<(), ProgramError>(e) && models(final(accounts)@) == models(
                old(accounts)@,
            ),
        },
{
    staging_pair(accounts, program_id)?;
    if payload.len() != 2 {
        return Err(ProgramError::InvalidInstructionData);
    }
    let n = payload[0] as usize + 256 * (payload[1] as usize);
    if n > MAX_PUBLIC_INPUTS {
        return Err(Groth16ProgramError::TooManyPublicInputs.into());
    }
    if accounts[1].data.len() != staging_account_len(n) {
        return Err(Groth16ProgramError::StagingSizeMismatch.into());
    }
    if accounts[1].data[DISCRIMINATOR_OFFSET] != DISCRIMINATOR_UNINITIALIZED {
        return Err(ProgramError::AccountAlreadyInitialized);
    }
    let header = StagingHeader { num_public_inputs: n, authority: accounts[0].address };
    write_staging_header(accounts[1].data.as_mut_slice(), header);
    proof {
        assert(models(accounts@) =~= models(old(accounts)@).update(
            1,
            AccountModel {
                data: staging_header_bytes(n as nat, old(accounts)@[0].address@) + old(
                    accounts,
                )@[1].data@.skip(STAGING_HEADER_LEN as int),
                ..models(old(accounts)@)[1]
            },
        ));
    }
    Ok(())
}

/// A staging account initialized by the authority reads back as that
/// authority's, for the `n` it was sized for, with its body untouched.
pub proof fn lemma_initialized_staging_reads_back(
    program_id: Seq<u8>,
    accounts: Seq<AccountModel>,
    payload: Seq<u8>,
)
    requires
        spec_initialize_staging(program_id, accounts, payload) is Ok,
        accounts.len() == 2 ==> accounts[0].address.len() == 32,
    ensures
        spec_authorized_staging(
            spec_initialize_staging(program_id, accounts, payload)->Ok_0,
            accounts[0].address,
        ) == Ok::<(nat, Seq<u8>), ProgramError>(
            (le_u16(payload), accounts[1].data.skip(STAGING_HEADER_LEN as int)),
        ),
{
    let n = le_u16(payload);
    let body = accounts[1].data.skip(STAGING_HEADER_LEN as int);
    lemma_staging_account_round_trip(n, accounts[0].address, body);
}

/// `InitializeStaging` does not care whether the authority is passed
/// writable: flipping the flag never changes the outcome.
pub proof fn lemma_initialize_ignores_authority_writability(
    program_id: Seq<u8>,
    accounts: Seq<AccountModel>,
    payload: Seq<u8>,
    writable: bool,
)
    requires
        accounts.len() == 2,
    ensures
        spec_initialize_staging(
            program_id,
            accounts.update(0, AccountModel { is_writable: writable, ..accounts[0] }),
            payload,
        ) == spec_initialize_staging(program_id, accounts, payload),
{
    let a = accounts.update(0, AccountModel { is_writable: writable, ..accounts[0] });
    assert(a[1] == accounts[1]);
}

/// The `InitializeStaging` the builder makes for `n ≤ 151`, sent with the
/// accounts as it marks them (the authority a signer, read-only or not) to a
/// blank program-owned staging account of exactly the size for `n`, succeeds:
/// the header becomes `[2, 0, n as u16 LE, 0, 0, 0, 0]` followed by the
/// authority's address, the rest stays as it was, and the account then reads
/// back as that authority's, for `n`.
pub proof fn lemma_builder_initialize_succeeds(
    program_id: Seq<u8>,
    accounts: Seq<AccountModel>,
    n: u16,
)
    requires
        accounts.len() == 2,
        accounts[0].is_signer,
        accounts[0].address.len() == 32,
        accounts[1].is_writable,
        accounts[1].owner == program_id,
        accounts[0].address != accounts[1].address,
        n <= 151,
        accounts[1].data.len() == spec_staging_account_len(n as int),
        accounts[1].data[0] == 0,
    ensures
        spec_initialize_staging(program_id, accounts, initialize_staging_data(n).skip(1)) matches Ok(new) && {
            &&& new.len() == accounts[1].data.len()
            &&& new.take(8) == seq![2u8, 0u8, (n % 256) as u8, (n / 256) as u8, 0u8, 0u8, 0u8, 0u8]
            &&& new.subrange(8, 40) == accounts[0].address
            &&& new.skip(40) == accounts[1].data.skip(40)
            &&& spec_authorized_staging(new, accounts[0].address) == Ok::<
                (nat, Seq<u8>),
                ProgramError,
            >((n as nat, accounts[1].data.skip(40)))
        },
{
    let payload = initialize_staging_data(n).skip(1);
    lemma_instruction_data_decodes(
        n,
        0,
        Seq::empty(),
        Seq::new(PROOF_SIZE as nat, |i: int| 0u8),
        Seq::empty(),
    );
    assert(le_u16(payload) == n);
    assert(spec_initialize_staging(program_id, accounts, payload) is Ok);
    lemma_initialized_staging_reads_back(program_id, accounts, payload);
    let new = spec_initialize_staging(program_id, accounts, payload)->Ok_0;
    let hdr = staging_header_bytes(n as nat, accounts[0].address);
    assert(new == hdr + accounts[1].data.skip(40));
    assert(new.take(8) =~= seq![2u8, 0u8, (n % 256) as u8, (n / 256) as u8, 0u8, 0u8, 0u8, 0u8]);
    assert(new.subrange(8, 40) =~= accounts[0].address);
    assert(new.skip(40) =~= accounts[1].data.skip(40));
}

} // verus!
