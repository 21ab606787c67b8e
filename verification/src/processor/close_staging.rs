//! `CloseStaging`.
//!
//! Accounts: `[authority (s,w), staging (w)]`. No data.
//!
//! Refunds the staging account's lamports to its recorded authority. Canonical
//! key accounts have no close path at all.
use vstd::prelude::*;

use crate::processor::{
    authorized_staging, closed, drain_and_close, expect_writable, models, spec_authorized_staging,
    spec_staging_pair, staging_pair, Account, AccountModel,
};
use crate::program_error::ProgramError;

verus! {

/// What `CloseStaging` does: the authority's and the staging account's new
/// states, or the first failed check.
pub open spec fn spec_close_staging(
    program_id: Seq<u8>,
    accounts: Seq<AccountModel>,
    payload: Seq<u8>,
) -> Result<(AccountModel, AccountModel), ProgramError> {
    if payload.len() != 0 {
        Err(ProgramError::InvalidInstructionData)
    } else {
        match spec_staging_pair(program_id, accounts) {
            Err(e) => Err(e),
            Ok(()) => if !accounts[0].is_writable {
                Err(ProgramError::InvalidArgument)
            } else {
                match spec_authorized_staging(accounts[1].data, accounts[0].address) {
                    Err(e) => Err(e),
                    Ok(_) => if accounts[0].lamports + accounts[1].lamports > u64::MAX {
                        Err(ProgramError::ArithmeticOverflow)
                    } else {
                        Ok(
                            (
                                AccountModel {
                                    lamports: (accounts[0].lamports
                                        + accounts[1].lamports) as u64,
                                    ..accounts[0]
                                },
                                closed(accounts[1]),
                            ),
                        )
                    },
                }
            },
        }
    }
}

/// Closes a staging account and refunds its lamports to its recorded
/// authority.
pub fn process(program_id: &[u8; 32], accounts: &mut Vec<Account>, payload: &[u8]) -> (r: Result<
    (),
    ProgramError,
>)
    ensures
        match spec_close_staging(program_id@, models(old(accounts)@), payload@) {
            Ok((authority, staging)) => r is Ok && models(final(accounts)@) == seq![
                authority,
                staging,
            ],
            Err(e) => r == Err::<(), ProgramError>(e) && models(final(accounts)@) == models(
                old(accounts)@,
            ),
        },
{
    if payload.len() != 0 {
        return Err(ProgramError::InvalidInstructionData);
    }
    staging_pair(accounts, program_id)?;
    expect_writable(&accounts[0])?;
    authorized_staging(accounts[1].data.as_slice(), &accounts[0])?;

    let result = drain_and_close(accounts, 1, 0);
    proof {
        if result is Ok {
            assert(models(accounts@) =~= seq![accounts@[0]@, accounts@[1]@]);
        }
    }
    result
}

/// Closing a staging account moves its whole balance to the authority:
/// no lamport is created or lost.
pub proof fn lemma_close_conserves_lamports(
    program_id: Seq<u8>,
    accounts: Seq<AccountModel>,
    payload: Seq<u8>,
)
    requires
        spec_close_staging(program_id, accounts, payload) is Ok,
    ensures
        ({
            let (authority, staging) = spec_close_staging(program_id, accounts, payload)->Ok_0;
            &&& authority.lamports + staging.lamports == accounts[0].lamports
                + accounts[1].lamports
            &&& staging.lamports == 0
            &&& staging.data.len() == 0
        }),
{
}

} // verus!
