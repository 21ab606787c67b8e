//! The program's instructions over a plain model of the accounts the runtime
//! hands it, plus the account checks they share.
//!
//! Each processor checks the account count exactly. On any error the
//! accounts are left as they were; the runtime discards an instruction's
//! writes when it fails in any case.
use vstd::prelude::*;

use crate::program_error::{groth16_code, map_groth16, ProgramError};
use crate::state::{read_staging_account, spec_read_staging_account, StagingHeader};
use crate::tag::{tag_byte, Tag};
use crate::processor::close_staging::spec_close_staging;
use crate::processor::initialize_staging::spec_initialize_staging;
use crate::processor::publish::{spec_publish, PublishPlan};
use crate::processor::verify::spec_verify_instruction;
use crate::processor::write::spec_write;
use crate::constants::spec_key_account_len;

pub mod close_staging;
pub mod initialize_staging;
pub mod publish;
pub mod verify;
pub mod write;

verus! {

/// An account as the runtime presents it to the program.
pub struct Account {
    pub address: [u8; 32],
    pub owner: [u8; 32],
    pub lamports: u64,
    pub data: Vec<u8>,
    pub is_signer: bool,
    pub is_writable: bool,
}

/// The mathematical content of an [`Account`].
pub struct AccountModel {
    pub address: Seq<u8>,
    pub owner: Seq<u8>,
    pub lamports: u64,
    pub data: Seq<u8>,
    pub is_signer: bool,
    pub is_writable: bool,
}

impl View for Account {
    type V = AccountModel;

    open spec fn view(&self) -> AccountModel {
        AccountModel {
            address: self.address@,
            owner: self.owner@,
            lamports: self.lamports,
            data: self.data@,
            is_signer: self.is_signer,
            is_writable: self.is_writable,
        }
    }
}

/// The models of a list of accounts.
pub open spec fn models(accounts: Seq<Account>) -> Seq<AccountModel> {
    accounts.map_values(|a: Account| a@)
}

/// The all-zero address of the system program.
pub open spec fn system_program_id() -> Seq<u8> {
    Seq::new(32, |i: int| 0u8)
}

/// An account as `close` leaves it: no owner, no lamports, no data.
pub open spec fn closed(a: AccountModel) -> AccountModel {
    AccountModel { owner: system_program_id(), lamports: 0, data: Seq::empty(), ..a }
}

/// The checks shared by `InitializeStaging`, `Write` and `CloseStaging` on
/// `[authority (s), staging (w)]`, in order: the count, authority signs,
/// staging is writable and owned by the program, and they are not the same
/// account.
pub open spec fn spec_staging_pair(program_id: Seq<u8>, accounts: Seq<AccountModel>) -> Result<
    (),
    ProgramError,
> {
    if accounts.len() != 2 {
        Err(ProgramError::InvalidArgument)
    } else if !accounts[0].is_signer {
        Err(ProgramError::MissingRequiredSignature)
    } else if !accounts[1].is_writable {
        Err(ProgramError::InvalidArgument)
    } else if accounts[1].owner != program_id {
        Err(ProgramError::InvalidAccountOwner)
    } else if accounts[0].address == accounts[1].address {
        Err(ProgramError::InvalidArgument)
    } else {
        Ok(())
    }
}

/// Parses an initialized staging account and checks its recorded authority:
/// `n` and the body, or the first failure.
pub open spec fn spec_authorized_staging(data: Seq<u8>, authority: Seq<u8>) -> Result<
    (nat, Seq<u8>),
    ProgramError,
> {
    match spec_read_staging_account(data) {
        Err(e) => Err(ProgramError::Custom(groth16_code(e))),
        Ok((n, recorded, body)) => if recorded != authority {
            Err(ProgramError::IncorrectAuthority)
        } else {
            Ok((n, body))
        },
    }
}

/// Byte-wise comparison of two addresses.
pub fn same_address(a: &[u8; 32], b: &[u8; 32]) -> (same: bool)
    ensures
        same == (a@ == b@),
{
    let mut i: usize = 0;
    while i < 32
        invariant
            0 <= i <= 32,
            forall|j: int| 0 <= j < i ==> a@[j] == b@[j],
        decreases 32 - i,
    {
        if a[i] != b[i] {
            return false;
        }
        i = i + 1;
    }
    assert(a@ =~= b@);
    true
}

pub(crate) fn expect_signer(account: &Account) -> (r: Result<(), ProgramError>)
    ensures
        r == if account.is_signer {
            Ok::<(), ProgramError>(())
        } else {
            Err(ProgramError::MissingRequiredSignature)
        },
{
    if !account.is_signer {
        return Err(ProgramError::MissingRequiredSignature);
    }
    Ok(())
}

pub(crate) fn expect_writable(account: &Account) -> (r: Result<(), ProgramError>)
    ensures
        r == if account.is_writable {
            Ok::<(), ProgramError>(())
        } else {
            Err(ProgramError::InvalidArgument)
        },
{
    if !account.is_writable {
        return Err(ProgramError::InvalidArgument);
    }
    Ok(())
}

/// Owner check by 32-byte value.
pub(crate) fn expect_owned_by(account: &Account, owner: &[u8; 32]) -> (r: Result<(), ProgramError>)
    ensures
        r == if account.owner@ == owner@ {
            Ok::<(), ProgramError>(())
        } else {
            Err(ProgramError::InvalidAccountOwner)
        },
{
    if !same_address(&account.owner, owner) {
        return Err(ProgramError::InvalidAccountOwner);
    }
    Ok(())
}

/// Rejects one account passed in two roles: a staging account that is its
/// own authority could never be closed and its rent would be stuck.
pub(crate) fn expect_distinct(a: &Account, b: &Account) -> (r: Result<(), ProgramError>)
    ensures
        r == if a.address@ != b.address@ {
            Ok::<(), ProgramError>(())
        } else {
            Err(ProgramError::InvalidArgument)
        },
{
    if same_address(&a.address, &b.address) {
        return Err(ProgramError::InvalidArgument);
    }
    Ok(())
}

/// The `[authority (s), staging (w)]` pair checks.
pub(crate) fn staging_pair(accounts: &Vec<Account>, program_id: &[u8; 32]) -> (r: Result<
    (),
    ProgramError,
>)
    ensures
        r == spec_staging_pair(program_id@, models(accounts@)),
{
    if accounts.len() != 2 {
        return Err(ProgramError::InvalidArgument);
    }
    let authority = &accounts[0];
    let staging = &accounts[1];
    expect_signer(authority)?;
    expect_writable(staging)?;
    expect_owned_by(staging, program_id)?;
    expect_distinct(authority, staging)?;
    Ok(())
}

/// Parses an initialized staging account and checks its recorded authority.
pub(crate) fn authorized_staging<'a>(data: &'a [u8], authority: &Account) -> (r: Result<
    (StagingHeader, &'a [u8]),
    ProgramError,
>)
    ensures
        match r {
            Ok((header, body)) => spec_authorized_staging(data@, authority.address@) == Ok::<
                (nat, Seq<u8>),
                ProgramError,
            >((header.num_public_inputs as nat, body@)) && header.authority@
                == authority.address@,
            Err(e) => spec_authorized_staging(data@, authority.address@) == Err::<
                (nat, Seq<u8>),
                ProgramError,
            >(e),
        },
{
    let (header, body) = match read_staging_account(data) {
        Ok(parsed) => parsed,
        Err(e) => return Err(map_groth16(e)),
    };
    if !same_address(&header.authority, &authority.address) {
        return Err(ProgramError::IncorrectAuthority);
    }
    Ok((header, body))
}

/// Moves every lamport out of account `from` into account `to` and closes
/// `from`. The two must be distinct accounts.
pub(crate) fn drain_and_close(accounts: &mut Vec<Account>, from: usize, to: usize) -> (r: Result<
    (),
    ProgramError,
>)
    requires
        from < old(accounts)@.len(),
        to < old(accounts)@.len(),
        from != to,
    ensures
        match r {
            Ok(()) => {
                &&& old(accounts)@[to as int].lamports + old(accounts)@[from as int].lamports <= u64::MAX
                &&& models(final(accounts)@) == models(old(accounts)@).update(to as int,
                    AccountModel {
                        lamports: (old(accounts)@[to as int].lamports
                            + old(accounts)@[from as int].lamports) as u64,
                        ..old(accounts)@[to as int]@
                    },
                ).update(from as int, closed(old(accounts)@[from as int]@))
            },
            Err(e) => {
                &&& old(accounts)@[to as int].lamports + old(accounts)@[from as int].lamports > u64::MAX
                &&& e == ProgramError::ArithmeticOverflow
                &&& models(final(accounts)@) == models(old(accounts)@)
            },
        },
{
    let lamports = accounts[from].lamports;
    let total = match accounts[to].lamports.checked_add(lamports) {
        Some(total) => total,
        None => return Err(ProgramError::ArithmeticOverflow),
    };
    accounts[to].lamports = total;
    accounts[from].lamports = 0;
    accounts[from].owner = [0u8; 32];
    accounts[from].data = Vec::new();
    proof {
        assert(accounts@[from as int].owner@ =~= system_program_id());
        assert(accounts@[from as int].data@ =~= Seq::<u8>::empty());
        assert(models(accounts@) =~= models(old(accounts)@).update(to as int,
            AccountModel {
                lamports: (old(accounts)@[to as int].lamports + old(accounts)@[from as int].lamports) as u64,
                ..old(accounts)@[to as int]@
            },
        ).update(from as int, closed(old(accounts)@[from as int]@)));
    }
    Ok(())
}

/// What is left for the runtime once the program's decisions are made.
#[derive(Debug, Clone, Copy)]
pub enum Outcome {
    /// The instruction is complete.
    Done,
    /// `Publish` has decided: create the key account as planned, then call
    /// [`publish::complete`].
    CreateKeyAccount(PublishPlan),
}

/// The entrypoint: splits `tag ‖ payload` and dispatches on the tag.
pub fn process_instruction(program_id: &[u8; 32], accounts: &mut Vec<Account>, data: &[u8]) -> (r:
    Result<Outcome, ProgramError>)
    ensures
        data@.len() == 0 || data@[0] > 4 ==> r == Err::<Outcome, ProgramError>(
            ProgramError::InvalidInstructionData,
        ) && models(final(accounts)@) == models(old(accounts)@),
        data@.len() > 0 && data@[0] == tag_byte(Tag::InitializeStaging) ==> match spec_initialize_staging(
            program_id@,
            models(old(accounts)@),
            data@.skip(1),
        ) {
            Ok(new_data) => r matches Ok(Outcome::Done) && models(final(accounts)@) == models(
                old(accounts)@,
            ).update(1, AccountModel { data: new_data, ..models(old(accounts)@)[1] }),
            Err(e) => r == Err::<Outcome, ProgramError>(e) && models(final(accounts)@) == models(
                old(accounts)@,
            ),
        },
        data@.len() > 0 && data@[0] == tag_byte(Tag::Write) ==> match spec_write(
            program_id@,
            models(old(accounts)@),
            data@.skip(1),
        ) {
            Ok(new_data) => r matches Ok(Outcome::Done) && models(final(accounts)@) == models(
                old(accounts)@,
            ).update(1, AccountModel { data: new_data, ..models(old(accounts)@)[1] }),
            Err(e) => r == Err::<Outcome, ProgramError>(e) && models(final(accounts)@) == models(
                old(accounts)@,
            ),
        },
        data@.len() > 0 && data@[0] == tag_byte(Tag::Publish) ==> models(final(accounts)@)
            == models(old(accounts)@) && match spec_publish(
            program_id@,
            models(old(accounts)@),
            data@.skip(1),
        ) {
            Ok((hash, bump, n)) => r matches Ok(Outcome::CreateKeyAccount(plan)) && plan.hash@
                == hash && plan.bump == bump && plan.num_public_inputs == n && plan.space
                == spec_key_account_len(n as int),
            Err(e) => r == Err::<Outcome, ProgramError>(e),
        },
        data@.len() > 0 && data@[0] == tag_byte(Tag::Verify) ==> models(final(accounts)@)
            == models(old(accounts)@) && match spec_verify_instruction(
            program_id@,
            models(old(accounts)@),
            data@.skip(1),
        ) {
            Ok(()) => r matches Ok(Outcome::Done),
            Err(e) => r == Err::<Outcome, ProgramError>(e),
        },
        data@.len() > 0 && data@[0] == tag_byte(Tag::CloseStaging) ==> match spec_close_staging(
            program_id@,
            models(old(accounts)@),
            data@.skip(1),
        ) {
            Ok((authority, staging)) => r matches Ok(Outcome::Done) && models(final(accounts)@)
                == seq![authority, staging],
            Err(e) => r == Err::<Outcome, ProgramError>(e) && models(final(accounts)@) == models(
                old(accounts)@,
            ),
        },
{
    if data.len() == 0 {
        return Err(ProgramError::InvalidInstructionData);
    }
    let tag = match Tag::from_u8(data[0]) {
        Some(tag) => tag,
        None => return Err(ProgramError::InvalidInstructionData),
    };
    let payload = vstd::slice::slice_subrange(data, 1, data.len());
    assert(payload@ == data@.skip(1));
    match tag {
        Tag::Verify => {
            verify::process(program_id, accounts, payload)?;
            Ok(Outcome::Done)
        },
        Tag::InitializeStaging => {
            initialize_staging::process(program_id, accounts, payload)?;
            Ok(Outcome::Done)
        },
        Tag::Write => {
            write::process(program_id, accounts, payload)?;
            Ok(Outcome::Done)
        },
        Tag::Publish => {
            let plan = publish::process(program_id, accounts, payload)?;
            Ok(Outcome::CreateKeyAccount(plan))
        },
        Tag::CloseStaging => {
            close_staging::process(program_id, accounts, payload)?;
            Ok(Outcome::Done)
        },
    }
}

/// A staging account named as its own authority is refused by every
/// instruction that takes one: its rent could otherwise never be reclaimed.
pub proof fn lemma_self_authority_refused(
    program_id: Seq<u8>,
    accounts: Seq<AccountModel>,
    payload: Seq<u8>,
)
    ensures
        accounts.len() == 2 && accounts[0].address == accounts[1].address ==> {
            &&& spec_initialize_staging(program_id, accounts, payload) is Err
            &&& spec_write(program_id, accounts, payload) is Err
            &&& spec_close_staging(program_id, accounts, payload) is Err
        },
        accounts.len() == 5 && accounts[0].address == accounts[2].address ==> spec_publish(
            program_id,
            accounts,
            payload,
        ) is Err,
{
}

/// No instruction writes into a published key account: every account whose
/// data an instruction changes carries the uninitialized or the staging
/// discriminator, or (the target of `Publish`) is not owned by the program.
pub proof fn lemma_key_accounts_are_never_written(
    program_id: Seq<u8>,
    accounts: Seq<AccountModel>,
    payload: Seq<u8>,
)
    ensures
        spec_initialize_staging(program_id, accounts, payload) is Ok ==> accounts[1].data[0]
            == crate::state::DISCRIMINATOR_UNINITIALIZED,
        spec_write(program_id, accounts, payload) is Ok ==> accounts[1].data[0]
            == crate::state::DISCRIMINATOR_STAGING,
        spec_close_staging(program_id, accounts, payload) is Ok ==> accounts[1].data[0]
            == crate::state::DISCRIMINATOR_STAGING,
        spec_publish(program_id, accounts, payload) is Ok ==> accounts[2].data[0]
            == crate::state::DISCRIMINATOR_STAGING && accounts[3].owner != program_id,
{
}

} // verus!
