//! `Publish`: turns a fully written staging account into the canonical,
//! immutable key account — in one instruction, so the canonical address never
//! exists in a partial state.
//!
//! Accounts: `[authority (s,w), payer (s,w), staging (w), key (w), system]`.
//! No data.
//!
//! Steps, in order:
//! 1. staging is ours, initialized, and signed for by its authority;
//! 2. `find_program_address([b"vk", sha256(body)])` equals `key`, and `key`
//!    is not already ours;
//! 3. every point in the body validates;
//! 4. bring `key` into existence at exactly its final size (tolerating a
//!    pre-funded address), copy the body, write the header, close staging.
//!
//! [`process`] makes every decision of steps 1–3 and returns what step 4
//! needs; the account creation itself is three system-program calls that the
//! runtime performs (see [`funding_shortfall`]); [`complete`] then fills the
//! new account and closes staging.
use vstd::prelude::*;

use crate::address::{key_address_search, sha256, solana_hashv, try_find_program_address, VK_SEED_PREFIX};
use crate::constants::{SYSTEM_PROGRAM_ID, key_account_len, spec_key_account_len, KEY_HEADER_LEN, STAGING_HEADER_LEN};
use crate::processor::{
    authorized_staging, closed, drain_and_close, expect_distinct, expect_owned_by, expect_signer,
    expect_writable, models, same_address, spec_authorized_staging, system_program_id, Account,
    AccountModel,
};
use crate::program_error::{groth16_code, map_groth16, spec_code, Groth16ProgramError, ProgramError};
use crate::state::{key_header_bytes, write_key_header, KeyHeader};
use crate::validation::{has_identity_key_element, spec_validate_for_publish};
use crate::verifying_key::VerifyingKey;

verus! {

/// What step 4 of `Publish` needs: the body hash and canonical bump (the
/// signer seeds), the account size, and `n`.
#[derive(Debug, Clone, Copy)]
pub struct PublishPlan {
    pub hash: [u8; 32],
    pub bump: u8,
    pub space: usize,
    pub num_public_inputs: usize,
}

/// The account checks of `Publish`, in order.
pub open spec fn spec_publish_accounts(program_id: Seq<u8>, accounts: Seq<AccountModel>) -> Result<
    (),
    ProgramError,
> {
    if accounts.len() != 5 {
        Err(ProgramError::InvalidArgument)
    } else if !accounts[0].is_signer {
        Err(ProgramError::MissingRequiredSignature)
    } else if !accounts[0].is_writable {
        Err(ProgramError::InvalidArgument)
    } else if !accounts[1].is_signer {
        Err(ProgramError::MissingRequiredSignature)
    } else if !accounts[1].is_writable {
        Err(ProgramError::InvalidArgument)
    } else if !accounts[2].is_writable {
        Err(ProgramError::InvalidArgument)
    } else if !accounts[3].is_writable {
        Err(ProgramError::InvalidArgument)
    } else if accounts[2].owner != program_id {
        Err(ProgramError::InvalidAccountOwner)
    } else if accounts[0].address == accounts[2].address {
        Err(ProgramError::InvalidArgument)
    } else if accounts[4].address != system_program_id() {
        Err(ProgramError::IncorrectProgramId)
    } else {
        Ok(())
    }
}

/// What the decisions of `Publish` yield: the body hash, the canonical bump
/// and `n`, or the first failed check.
pub open spec fn spec_publish(program_id: Seq<u8>, accounts: Seq<AccountModel>, payload: Seq<u8>) -> Result<
    (Seq<u8>, u8, nat),
    ProgramError,
> {
    if payload.len() != 0 {
        Err(ProgramError::InvalidInstructionData)
    } else {
        match spec_publish_accounts(program_id, accounts) {
            Err(e) => Err(e),
            Ok(()) => match spec_authorized_staging(accounts[2].data, accounts[0].address) {
                Err(e) => Err(e),
                Ok((n, body)) => {
                    let hash = solana_hashv(seq![body]);
                    match key_address_search(program_id, hash) {
                        None => Err(ProgramError::InvalidSeeds),
                        Some((expected, bump)) => if accounts[3].address != expected {
                            Err(
                                ProgramError::Custom(
                                    spec_code(Groth16ProgramError::KeyAddressMismatch),
                                ),
                            )
                        } else if accounts[3].owner == program_id {
                            Err(
                                ProgramError::Custom(
                                    spec_code(Groth16ProgramError::KeyAlreadyPublished),
                                ),
                            )
                        } else if accounts[3].owner != system_program_id()
                            || accounts[3].data.len() != 0 {
                            Err(ProgramError::InvalidAccountData)
                        } else {
                            match spec_validate_for_publish(body, n) {
                                Err(e) => Err(ProgramError::Custom(groth16_code(e))),
                                Ok(()) => Ok((hash, bump, n)),
                            }
                        },
                    }
                },
            },
        }
    }
}

/// Steps 1–3 of `Publish`: every check, the address derivation and the point
/// validation. Returns what the account creation and [`complete`] need. Where
/// the bump search finds no off-curve address, which the runtime's
/// `find_program_address` answers by aborting, the instruction fails with
/// `InvalidSeeds`.
pub fn process(program_id: &[u8; 32], accounts: &Vec<Account>, payload: &[u8]) -> (r: Result<
    PublishPlan,
    ProgramError,
>)
    ensures
        match spec_publish(program_id@, models(accounts@), payload@) {
            Ok((hash, bump, n)) => r matches Ok(plan) && plan.hash@ == hash && plan.bump == bump
                && plan.num_public_inputs == n && plan.space == spec_key_account_len(n as int),
            Err(e) => r == Err::<PublishPlan, ProgramError>(e),
        },
{
    if payload.len() != 0 {
        return Err(ProgramError::InvalidInstructionData);
    }
    if accounts.len() != 5 {
        return Err(ProgramError::InvalidArgument);
    }
    let authority = &accounts[0];
    let payer = &accounts[1];
    let staging = &accounts[2];
    let key = &accounts[3];
    let system = &accounts[4];
    expect_signer(authority)?;
    expect_writable(authority)?;
    expect_signer(payer)?;
    expect_writable(payer)?;
    expect_writable(staging)?;
    expect_writable(key)?;
    expect_owned_by(staging, program_id)?;
    expect_distinct(authority, staging)?;
    let system_id = SYSTEM_PROGRAM_ID;
    assert(system_id@ =~= system_program_id());
    if !same_address(&system.address, &system_id) {
        return Err(ProgramError::IncorrectProgramId);
    }
    proof {
        assert(system.address@ =~= system_program_id());
    }

    // --- 1. staging header ------------------------------------------------------
    let (header, body) = authorized_staging(staging.data.as_slice(), authority)?;
    let n = header.num_public_inputs;
    let vk = match VerifyingKey::from_body_with_len(body, n) {
        Ok(vk) => vk,
        Err(e) => return Err(map_groth16(e)),
    };

    // --- 2. address -------------------------------------------------------------
    let hash = sha256(body);
    let prefix = VK_SEED_PREFIX;
    let (expected, bump) = match try_find_program_address(prefix.as_slice(), hash.as_slice(), program_id) {
        Some(found) => found,
        None => return Err(ProgramError::InvalidSeeds),
    };
    if !same_address(&key.address, &expected) {
        return Err(Groth16ProgramError::KeyAddressMismatch.into());
    }
    if same_address(&key.owner, program_id) {
        return Err(Groth16ProgramError::KeyAlreadyPublished.into());
    }
    // A PDA can only be allocated by this program, so anything other than a
    // blank system-owned account here is impossible; reject it anyway.
    if !same_address(&key.owner, &system_id) || key.data.len() != 0 {
        return Err(ProgramError::InvalidAccountData);
    }
    proof {
        assert(key.owner@ =~= system_program_id());
    }

    // --- 3. validate every point ------------------------------------------------
    match vk.validate_for_publish() {
        Ok(()) => {},
        Err(e) => return Err(map_groth16(e)),
    }

    Ok(PublishPlan { hash, bump, space: key_account_len(n), num_public_inputs: n })
}

/// The lamports the payer must move to the key address before it is
/// allocated: whatever rent exemption still lacks, nothing if the address is
/// already funded enough.
pub fn funding_shortfall(required: u64, current: u64) -> (shortfall: u64)
    ensures
        shortfall == if current >= required {
            0
        } else {
            required - current
        },
{
    required.saturating_sub(current)
}

/// The system-program calls that bring the key account into existence.
#[derive(Debug, Clone, Copy, PartialEq, Eq)]
pub struct KeyAccountCreation {
    /// Lamports the payer transfers to the key address first, if any.
    pub transfer: Option<u64>,
    /// Bytes to allocate, signed with the seeds `[b"vk", hash, [bump]]`,
    /// before assigning the account to the program.
    pub space: u64,
}

/// Decides how the key account is created. Not `create_account`: that fails
/// on a target with a nonzero balance, and anyone can transfer lamports to
/// any address. Top up to rent exemption (`required_rent`, from the rent
/// sysvar) only if needed, then allocate and assign.
pub fn create_key_account(plan: &PublishPlan, required_rent: u64, key_lamports: u64) -> (c:
    KeyAccountCreation)
    ensures
        c.space == plan.space,
        c.transfer == if key_lamports >= required_rent {
            None::<u64>
        } else {
            Some((required_rent - key_lamports) as u64)
        },
{
    let shortfall = funding_shortfall(required_rent, key_lamports);
    let transfer = if shortfall > 0 {
        Some(shortfall)
    } else {
        None
    };
    KeyAccountCreation { transfer, space: plan.space as u64 }
}

/// Step 4 after the key account exists at its final size and is owned by the
/// program: writes the header and the body into it, then closes staging,
/// refunding its rent to the authority.
pub fn complete(accounts: &mut Vec<Account>, plan: &PublishPlan) -> (r: Result<(), ProgramError>)
    requires
        old(accounts)@.len() == 5,
        old(accounts)@[2].data@.len() >= STAGING_HEADER_LEN,
        old(accounts)@[3].data@.len() == KEY_HEADER_LEN + (old(accounts)@[2].data@.len()
            - STAGING_HEADER_LEN),
    ensures
        ({
            let key_data = key_header_bytes(plan.bump, plan.num_public_inputs as nat) + old(
                accounts,
            )@[2].data@.skip(STAGING_HEADER_LEN as int);
            let filled = models(old(accounts)@).update(
                3,
                AccountModel { data: key_data, ..old(accounts)@[3]@ },
            );
            match r {
                Ok(()) => {
                    &&& old(accounts)@[0].lamports + old(accounts)@[2].lamports <= u64::MAX
                    &&& models(final(accounts)@) == filled.update(
                        0,
                        AccountModel {
                            lamports: (old(accounts)@[0].lamports
                                + old(accounts)@[2].lamports) as u64,
                            ..old(accounts)@[0]@
                        },
                    ).update(2, closed(old(accounts)@[2]@))
                },
                Err(e) => {
                    &&& old(accounts)@[0].lamports + old(accounts)@[2].lamports > u64::MAX
                    &&& e == ProgramError::ArithmeticOverflow
                    &&& models(final(accounts)@) == filled
                },
            }
        }),
{
    let ghost body = old(accounts)@[2].data@.skip(STAGING_HEADER_LEN as int);
    write_key_header(
        accounts[3].data.as_mut_slice(),
        KeyHeader { bump: plan.bump, num_public_inputs: plan.num_public_inputs },
    );
    let ghost header = key_header_bytes(plan.bump, plan.num_public_inputs as nat);
    let staging_len = accounts[2].data.len();
    let body_len = staging_len - STAGING_HEADER_LEN;
    let mut i: usize = 0;
    while i < body_len
        invariant
            0 <= i <= body_len,
            body_len == body.len(),
            staging_len == old(accounts)@[2].data@.len(),
            staging_len == STAGING_HEADER_LEN + body_len,
            accounts@.len() == 5,
            body == old(accounts)@[2].data@.skip(STAGING_HEADER_LEN as int),
            forall|k: int| 0 <= k < 5 && k != 3 ==> accounts@[k] == old(accounts)@[k],
            accounts@[3]@ == (AccountModel { data: accounts@[3].data@, ..old(accounts)@[3]@ }),
            accounts@[3].data@.len() == KEY_HEADER_LEN + body_len,
            forall|j: int| 0 <= j < KEY_HEADER_LEN ==> #[trigger] accounts@[3].data@[j] == header[j],
            forall|j: int|
                KEY_HEADER_LEN <= j < KEY_HEADER_LEN + i ==> #[trigger] accounts@[3].data@[j]
                    == body[j - KEY_HEADER_LEN],
        decreases body_len - i,
    {
        let b = accounts[2].data[STAGING_HEADER_LEN + i];
        accounts[3].data[KEY_HEADER_LEN + i] = b;
        i = i + 1;
    }
    proof {
        assert(accounts@[3].data@ =~= header + body);
        assert(models(accounts@) =~= models(old(accounts)@).update(
            3,
            AccountModel { data: header + body, ..old(accounts)@[3]@ },
        ));
    }
    drain_and_close(accounts, 2, 0)
}

/// What a successful `Publish` has established before it creates the key
/// account: the staging authority and the payer signed; the key address is
/// the canonical address of the staged body's hash, with the canonical bump;
/// the address is not already published; and the body passed validation, so
/// none of `α`, `−β`, `−γ`, `−δ` is the identity.
pub proof fn lemma_publish_guarantees(
    program_id: Seq<u8>,
    accounts: Seq<AccountModel>,
    payload: Seq<u8>,
)
    requires
        spec_publish(program_id, accounts, payload) is Ok,
    ensures
        ({
            let (hash, bump, n) = spec_publish(program_id, accounts, payload)->Ok_0;
            let body = accounts[2].data.skip(STAGING_HEADER_LEN as int);
            &&& accounts[0].is_signer && accounts[1].is_signer
            &&& accounts[2].owner == program_id
            &&& accounts[2].data.subrange(8, STAGING_HEADER_LEN as int) == accounts[0].address
            &&& spec_authorized_staging(accounts[2].data, accounts[0].address) == Ok::<
                (nat, Seq<u8>),
                ProgramError,
            >((n, body))
            &&& hash == solana_hashv(seq![body])
            &&& key_address_search(program_id, hash) == Some((accounts[3].address, bump))
            &&& accounts[3].owner != program_id
            &&& spec_validate_for_publish(body, n) is Ok
            &&& !has_identity_key_element(body)
        }),
{
}

/// The key address a client derives for a body (`vk_hash` then
/// `find_key_address`, which give `key_address_search(program_id,
/// solana_hashv([body]))`) is the one `Publish` demands: once the account
/// checks and the staging header pass, a key account at any other address is
/// refused with `KeyAddressMismatch`, and a successful `Publish` is at that
/// address, with its bump and the body's hash.
pub proof fn lemma_client_key_address_is_publish_address(
    program_id: Seq<u8>,
    accounts: Seq<AccountModel>,
    n: nat,
    body: Seq<u8>,
)
    requires
        spec_publish_accounts(program_id, accounts) is Ok,
        spec_authorized_staging(accounts[2].data, accounts[0].address) == Ok::<
            (nat, Seq<u8>),
            ProgramError,
        >((n, body)),
    ensures
        match key_address_search(program_id, solana_hashv(seq![body])) {
            Some((address, bump)) => {
                &&& accounts[3].address != address ==> spec_publish(
                    program_id,
                    accounts,
                    Seq::empty(),
                ) == Err::<(Seq<u8>, u8, nat), ProgramError>(
                    ProgramError::Custom(spec_code(Groth16ProgramError::KeyAddressMismatch)),
                )
                &&& spec_publish(program_id, accounts, Seq::empty()) is Ok ==> {
                    &&& accounts[3].address == address
                    &&& spec_publish(program_id, accounts, Seq::empty())->Ok_0 == (
                        solana_hashv(seq![body]),
                        bump,
                        n,
                    )
                }
            },
            None => spec_publish(program_id, accounts, Seq::empty()) == Err::<
                (Seq<u8>, u8, nat),
                ProgramError,
            >(ProgramError::InvalidSeeds),
        },
{
}

/// A key account already owned by the program is never published over.
pub proof fn lemma_no_republish(program_id: Seq<u8>, accounts: Seq<AccountModel>, payload: Seq<u8>)
    requires
        accounts.len() == 5,
        accounts[3].owner == program_id,
    ensures
        spec_publish(program_id, accounts, payload) is Err,
{
}

/// Who pays does not matter: `Publish` decides the same for every payer
/// account that signs and is writable, another wallet or the authority's own
/// (`p` or `q` may be a copy of `accounts[0]`).
pub proof fn lemma_payer_is_immaterial(
    program_id: Seq<u8>,
    accounts: Seq<AccountModel>,
    payload: Seq<u8>,
    p: AccountModel,
    q: AccountModel,
)
    requires
        accounts.len() == 5,
        p.is_signer && p.is_writable,
        q.is_signer && q.is_writable,
    ensures
        spec_publish(program_id, accounts.update(1, p), payload) == spec_publish(
            program_id,
            accounts.update(1, q),
            payload,
        ),
{
    let a = accounts.update(1, p);
    let b = accounts.update(1, q);
    assert(a[0] == b[0] && a[2] == b[2] && a[3] == b[3] && a[4] == b[4]);
}

} // verus!
