//! `Write`.
//!
//! Accounts: `[authority (s), staging (w)]`. Data: `offset: u32 LE ‖ bytes`.
//!
//! `offset` is relative to the staging *body*. The header is unreachable: the
//! write is bounds-checked against the body, with checked arithmetic on
//! `offset + len`.
use vstd::prelude::*;

use crate::constants::STAGING_HEADER_LEN;
use crate::instruction::{lemma_write_data_decodes, write_data};
use crate::processor::{
    authorized_staging, models, spec_authorized_staging, spec_staging_pair, staging_pair, Account,
    AccountModel,
};
use crate::program_error::{spec_code, Groth16ProgramError, ProgramError};

verus! {

/// The little-endian `u32` in the first four bytes.
pub open spec fn le_u32(b: Seq<u8>) -> nat {
    b[0] as nat + 256 * (b[1] as nat) + 65536 * (b[2] as nat) + 16777216 * (b[3] as nat)
}

/// `data` with `bytes` written at `at`.
pub open spec fn splice(data: Seq<u8>, at: int, bytes: Seq<u8>) -> Seq<u8> {
    data.take(at) + bytes + data.skip(at + bytes.len())
}

/// The staging data after a `Write` payload (`offset: u32 LE ‖ bytes`)
/// lands: `bytes` at `offset` past the header.
pub open spec fn land_write(data: Seq<u8>, payload: Seq<u8>) -> Seq<u8> {
    splice(data, STAGING_HEADER_LEN + le_u32(payload), payload.skip(4))
}

/// What `Write` does: the staging account's new data, or the first failed
/// check.
pub open spec fn spec_write(program_id: Seq<u8>, accounts: Seq<AccountModel>, payload: Seq<u8>) -> Result<
    Seq<u8>,
    ProgramError,
> {
    match spec_staging_pair(program_id, accounts) {
        Err(e) => Err(e),
        Ok(()) => if payload.len() < 4 {
            Err(ProgramError::InvalidInstructionData)
        } else {
            let offset = le_u32(payload);
            let bytes = payload.skip(4);
            match spec_authorized_staging(accounts[1].data, accounts[0].address) {
                Err(e) => Err(e),
                Ok((_n, body)) => if offset + bytes.len() > body.len() {
                    Err(ProgramError::Custom(spec_code(Groth16ProgramError::WriteOutOfBounds)))
                } else {
                    Ok(land_write(accounts[1].data, payload))
                },
            }
        },
    }
}

/// Copies `bytes` into the staging body at `offset`, for the recorded
/// authority only.
pub fn process(program_id: &[u8; 32], accounts: &mut Vec<Account>, payload: &[u8]) -> (r: Result<
    (),
    ProgramError,
>)
    ensures
        match spec_write(program_id@, models(old(accounts)@), payload@) {
            Ok(data) => r is Ok && models(final(accounts)@) == models(old(accounts)@).update(
                1,
                AccountModel { data, ..models(old(accounts)@)[1] },
            ),
            Err(e) => r == Err::<(), ProgramError>(e) && models(final(accounts)@) == models(
                old(accounts)@,
            ),
        },
{
    staging_pair(accounts, program_id)?;
    if payload.len() < 4 {
        return Err(ProgramError::InvalidInstructionData);
    }
    let offset32: u32 = payload[0] as u32 + 256 * (payload[1] as u32) + 65536 * (payload[2] as u32)
        + 16777216 * (payload[3] as u32);
    let offset = offset32 as usize;
    let bytes = vstd::slice::slice_subrange(payload, 4, payload.len());
    let body_len = {
        let (_header, body) = authorized_staging(accounts[1].data.as_slice(), &accounts[0])?;
        body.len()
    };
    let end = match offset.checked_add(bytes.len()) {
        Some(end) => end,
        None => return Err(Groth16ProgramError::WriteOutOfBounds.into()),
    };
    if end > body_len {
        return Err(Groth16ProgramError::WriteOutOfBounds.into());
    }
    let ghost old_data = accounts@[1].data@;
    let data_len = accounts[1].data.len();
    let len = bytes.len();
    let mut i: usize = 0;
    while i < len
        invariant
            0 <= i <= len,
            len == bytes@.len(),
            bytes@ == payload@.skip(4),
            STAGING_HEADER_LEN + end <= old_data.len(),
            data_len == old_data.len(),
            end == offset + len,
            accounts@.len() == old(accounts)@.len(),
            accounts@.len() == 2,
            old_data == old(accounts)@[1].data@,
            accounts@[0] == old(accounts)@[0],
            accounts@[1]@ == (AccountModel { data: accounts@[1].data@, ..old(accounts)@[1]@ }),
            accounts@[1].data@.len() == old_data.len(),
            forall|j: int|
                0 <= j < STAGING_HEADER_LEN + offset ==> #[trigger] accounts@[1].data@[j]
                    == old_data[j],
            forall|j: int|
                0 <= j < i ==> #[trigger] accounts@[1].data@[STAGING_HEADER_LEN + offset + j]
                    == bytes@[j],
            forall|j: int|
                STAGING_HEADER_LEN + offset + i <= j < old_data.len() ==> #[trigger] accounts@[1].data@[j]
                    == old_data[j],
        decreases len - i,
    {
        accounts[1].data[STAGING_HEADER_LEN + offset + i] = bytes[i];
        i = i + 1;
    }
    proof {
        let at = STAGING_HEADER_LEN + offset;
        let new_data = splice(old_data, at, bytes@);
        assert(new_data.len() == old_data.len());
        assert forall|j: int| 0 <= j < new_data.len() implies accounts@[1].data@[j]
            == new_data[j] by {
            if at <= j < at + len {
                assert(accounts@[1].data@[at + (j - at)] == bytes@[j - at]);
            }
        }
        assert(accounts@[1].data@ =~= new_data);
        assert(models(accounts@) =~= models(old(accounts)@).update(
            1,
            AccountModel { data: new_data, ..models(old(accounts)@)[1] },
        ));
    }
    Ok(())
}

/// A successful `Write` leaves the staging header, and the data length, as
/// they were: only the body is writable.
pub proof fn lemma_write_preserves_header(
    program_id: Seq<u8>,
    accounts: Seq<AccountModel>,
    payload: Seq<u8>,
)
    requires
        spec_write(program_id, accounts, payload) is Ok,
    ensures
        ({
            let data = spec_write(program_id, accounts, payload)->Ok_0;
            &&& data.len() == accounts[1].data.len()
            &&& data.take(STAGING_HEADER_LEN as int) == accounts[1].data.take(
                STAGING_HEADER_LEN as int,
            )
        }),
{
    let data = spec_write(program_id, accounts, payload)->Ok_0;
    assert(data.take(STAGING_HEADER_LEN as int) =~= accounts[1].data.take(
        STAGING_HEADER_LEN as int,
    ));
}

/// Only the recorded authority, signing, can write.
pub proof fn lemma_write_requires_recorded_authority(
    program_id: Seq<u8>,
    accounts: Seq<AccountModel>,
    payload: Seq<u8>,
)
    requires
        spec_write(program_id, accounts, payload) is Ok,
    ensures
        accounts[0].is_signer,
        accounts[1].owner == program_id,
        accounts[1].data.subrange(8, STAGING_HEADER_LEN as int) == accounts[0].address,
{
}

/// `Write` does not care whether the authority is passed writable: flipping
/// the flag never changes the outcome.
pub proof fn lemma_write_ignores_authority_writability(
    program_id: Seq<u8>,
    accounts: Seq<AccountModel>,
    payload: Seq<u8>,
    writable: bool,
)
    requires
        accounts.len() == 2,
    ensures
        spec_write(
            program_id,
            accounts.update(0, AccountModel { is_writable: writable, ..accounts[0] }),
            payload,
        ) == spec_write(program_id, accounts, payload),
{
    let a = accounts.update(0, AccountModel { is_writable: writable, ..accounts[0] });
    assert(a[1] == accounts[1]);
}

/// The `Write` the builder makes, sent with the accounts as it marks them
/// (the authority a signer, read-only or not) to a program-owned staging
/// account that authority initialized, lands its bytes at `40 + offset`
/// whenever they fit in the body, and changes nothing else.
pub proof fn lemma_builder_write_lands(
    program_id: Seq<u8>,
    accounts: Seq<AccountModel>,
    offset: u32,
    bytes: Seq<u8>,
    n: nat,
    body: Seq<u8>,
)
    requires
        accounts.len() == 2,
        accounts[0].is_signer,
        accounts[1].is_writable,
        accounts[1].owner == program_id,
        accounts[0].address != accounts[1].address,
        spec_authorized_staging(accounts[1].data, accounts[0].address) == Ok::<
            (nat, Seq<u8>),
            ProgramError,
        >((n, body)),
        offset + bytes.len() <= body.len(),
    ensures
        spec_write(program_id, accounts, write_data(offset, bytes).skip(1)) matches Ok(new) && {
            &&& new.len() == accounts[1].data.len()
            &&& forall|k: int| 0 <= k < bytes.len() ==> new[40 + offset + k] == bytes[k]
            &&& forall|j: int|
                0 <= j < new.len() && !(40 + offset <= j < 40 + offset + bytes.len()) ==> new[j]
                    == accounts[1].data[j]
        },
{
    lemma_write_data_decodes(offset, bytes);
    let data = accounts[1].data;
    assert(body == data.skip(STAGING_HEADER_LEN as int));
    let payload = write_data(offset, bytes).skip(1);
    let new = land_write(data, payload);
    assert(new == splice(data, 40 + offset, bytes));
    assert(new.len() == data.len());
}

} // verus!
