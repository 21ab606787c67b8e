//! On-chain account layouts: the canonical key account and the staging
//! account. Both are `header ‖ body`, where the body is exactly a
//! [`VerifyingKey`] body and the header is what differs.
//!
//! ```text
//! key account      [0] disc=1  [1] bump  [2..4] n (u16 LE)  [4..8] reserved  [8..] body
//! staging account  [0] disc=2  [1] reserved  [2..4] n  [4..8] reserved  [8..40] authority  [40..] body
//! ```
use vstd::prelude::*;

use crate::constants::{spec_vk_body_len, staging_account_len, MAX_PUBLIC_INPUTS};
pub use crate::constants::{
    key_account_len, spec_key_account_len, spec_staging_account_len, KEY_HEADER_LEN,
    STAGING_HEADER_LEN, VK_SEED_PREFIX,
};
use crate::error::Groth16Error;
use crate::groth16_proof::fixed;
use crate::verifying_key::VerifyingKey;

verus! {

pub const DISCRIMINATOR_UNINITIALIZED: u8 = 0;

pub const DISCRIMINATOR_KEY: u8 = 1;

pub const DISCRIMINATOR_STAGING: u8 = 2;

pub const DISCRIMINATOR_OFFSET: usize = 0;

pub const NUM_PUBLIC_INPUTS_OFFSET: usize = 2;

pub const KEY_BUMP_OFFSET: usize = 1;

pub const STAGING_AUTHORITY_OFFSET: usize = 8;

/// The little-endian `u16` stored at `[2..4]`.
pub open spec fn header_n(data: Seq<u8>) -> nat {
    data[NUM_PUBLIC_INPUTS_OFFSET as int] as nat + 256 * (data[NUM_PUBLIC_INPUTS_OFFSET + 1] as nat)
}

/// `n` is stored as a little-endian `u16` (truncated to 16 bits) at `[2..4]`.
pub open spec fn stores_n(data: Seq<u8>, n: nat) -> bool {
    &&& data[NUM_PUBLIC_INPUTS_OFFSET as int] == n % 256
    &&& data[NUM_PUBLIC_INPUTS_OFFSET + 1] == (n / 256) % 256
}

/// The eight header bytes of a key account: discriminator, bump, `n` as a
/// little-endian `u16` (truncated to 16 bits), four reserved zeros.
pub open spec fn key_header_bytes(bump: u8, n: nat) -> Seq<u8> {
    seq![DISCRIMINATOR_KEY, bump, (n % 256) as u8, ((n / 256) % 256) as u8, 0u8, 0u8, 0u8, 0u8]
}

/// The forty header bytes of a staging account: discriminator, a reserved
/// zero, `n` as a little-endian `u16` (truncated), four reserved zeros, the
/// authority.
pub open spec fn staging_header_bytes(n: nat, authority: Seq<u8>) -> Seq<u8> {
    seq![DISCRIMINATOR_STAGING, 0u8, (n % 256) as u8, ((n / 256) % 256) as u8, 0u8, 0u8, 0u8, 0u8]
        + authority
}

/// Bytes `[from, to)` of `data` are zero.
pub open spec fn zero_range(data: Seq<u8>, from: int, to: int) -> bool {
    forall|i: int| from <= i < to ==> #[trigger] data[i] == 0
}

fn read_n(data: &[u8]) -> (n: usize)
    requires
        data@.len() >= 4,
    ensures
        n == header_n(data@),
{
    data[NUM_PUBLIC_INPUTS_OFFSET] as usize + 256 * (data[NUM_PUBLIC_INPUTS_OFFSET + 1] as usize)
}

fn write_n(data: &mut [u8], n: usize)
    requires
        old(data)@.len() >= 4,
    ensures
        final(data)@.len() == old(data)@.len(),
        stores_n(final(data)@, n as nat),
        forall|i: int|
            0 <= i < old(data)@.len() && i != NUM_PUBLIC_INPUTS_OFFSET && i
                != NUM_PUBLIC_INPUTS_OFFSET + 1 ==> #[trigger] final(data)@[i] == old(data)@[i],
{
    data[NUM_PUBLIC_INPUTS_OFFSET] = (n % 256) as u8;
    data[NUM_PUBLIC_INPUTS_OFFSET + 1] = ((n / 256) % 256) as u8;
}

// --- Canonical key account ----------------------------------------------------

/// Parsed header of a canonical key account.
#[derive(Debug, Clone, Copy, PartialEq, Eq, Structural)]
pub struct KeyHeader {
    pub bump: u8,
    pub num_public_inputs: usize,
}

/// What parsing a key account yields: the header fields and the body, or the
/// first failed check.
pub open spec fn spec_read_key_account(data: Seq<u8>) -> Result<(KeyHeader, Seq<u8>), Groth16Error> {
    if data.len() < KEY_HEADER_LEN {
        Err(Groth16Error::InvalidAccountData)
    } else if data[DISCRIMINATOR_OFFSET as int] != DISCRIMINATOR_KEY {
        Err(Groth16Error::WrongDiscriminator)
    } else if header_n(data) > MAX_PUBLIC_INPUTS {
        Err(Groth16Error::TooManyPublicInputs)
    } else if data.len() - KEY_HEADER_LEN != spec_vk_body_len(header_n(data) as int) {
        Err(Groth16Error::InvalidKeyLength)
    } else {
        Ok(
            (
                KeyHeader {
                    bump: data[KEY_BUMP_OFFSET as int],
                    num_public_inputs: header_n(data) as usize,
                },
                data.skip(KEY_HEADER_LEN as int),
            ),
        )
    }
}

/// Parses a canonical key account: checks the discriminator and that the
/// declared `n` matches the data length exactly, then returns the header and
/// a key view over the body.
pub fn read_key_account(data: &[u8]) -> (r: Result<(KeyHeader, VerifyingKey<'_>), Groth16Error>)
    ensures
        match r {
            Ok((header, vk)) => spec_read_key_account(data@) == Ok::<
                (KeyHeader, Seq<u8>),
                Groth16Error,
            >((header, vk.body_bytes())) && vk.public_input_count() == header.num_public_inputs,
            Err(e) => spec_read_key_account(data@) == Err::<(KeyHeader, Seq<u8>), Groth16Error>(
                e,
            ),
        },
{
    if data.len() < KEY_HEADER_LEN {
        return Err(Groth16Error::InvalidAccountData);
    }
    if data[DISCRIMINATOR_OFFSET] != DISCRIMINATOR_KEY {
        return Err(Groth16Error::WrongDiscriminator);
    }
    let n = read_n(data);
    let body = vstd::slice::slice_subrange(data, KEY_HEADER_LEN, data.len());
    let vk = VerifyingKey::from_body_with_len(body, n)?;
    Ok((KeyHeader { bump: data[KEY_BUMP_OFFSET], num_public_inputs: n }, vk))
}

/// Writes a canonical key account header into a freshly allocated account.
/// The caller copies the body into `data[KEY_HEADER_LEN..]`.
pub fn write_key_header(data: &mut [u8], header: KeyHeader)
    requires
        old(data)@.len() >= KEY_HEADER_LEN,
    ensures
        final(data)@ == key_header_bytes(header.bump, header.num_public_inputs as nat) + old(
            data,
        )@.skip(KEY_HEADER_LEN as int),
{
    data[DISCRIMINATOR_OFFSET] = DISCRIMINATOR_KEY;
    data[KEY_BUMP_OFFSET] = header.bump;
    write_n(data, header.num_public_inputs);
    let mut i: usize = 4;
    while i < KEY_HEADER_LEN
        invariant
            4 <= i <= KEY_HEADER_LEN,
            data@.len() == old(data)@.len(),
            data@.len() >= KEY_HEADER_LEN,
            data@[DISCRIMINATOR_OFFSET as int] == DISCRIMINATOR_KEY,
            data@[KEY_BUMP_OFFSET as int] == header.bump,
            stores_n(data@, header.num_public_inputs as nat),
            zero_range(data@, 4, i as int),
            forall|j: int| KEY_HEADER_LEN <= j < data@.len() ==> #[trigger] data@[j] == old(data)@[j],
        decreases KEY_HEADER_LEN - i,
    {
        data[i] = 0;
        i = i + 1;
    }
    assert(data@ =~= key_header_bytes(header.bump, header.num_public_inputs as nat) + old(
        data,
    )@.skip(KEY_HEADER_LEN as int));
}

// --- Staging account -----------------------------------------------------------

/// Parsed header of a staging account.
#[derive(Debug, Clone, Copy, PartialEq, Eq)]
pub struct StagingHeader {
    pub num_public_inputs: usize,
    pub authority: [u8; 32],
}

/// What parsing a staging account yields: `n`, the recorded authority and the
/// body, or the first failed check.
pub open spec fn spec_read_staging_account(data: Seq<u8>) -> Result<
    (nat, Seq<u8>, Seq<u8>),
    Groth16Error,
> {
    if data.len() < STAGING_HEADER_LEN {
        Err(Groth16Error::InvalidAccountData)
    } else if data[DISCRIMINATOR_OFFSET as int] != DISCRIMINATOR_STAGING {
        Err(Groth16Error::WrongDiscriminator)
    } else if header_n(data) > MAX_PUBLIC_INPUTS || data.len() != spec_staging_account_len(
        header_n(data) as int,
    ) {
        Err(Groth16Error::InvalidAccountData)
    } else {
        Ok(
            (
                header_n(data),
                data.subrange(STAGING_AUTHORITY_OFFSET as int, STAGING_HEADER_LEN as int),
                data.skip(STAGING_HEADER_LEN as int),
            ),
        )
    }
}

/// Parses a staging account header and returns it with the body slice.
/// Requires the discriminator and that `n` agrees with the account length.
pub fn read_staging_account(data: &[u8]) -> (r: Result<(StagingHeader, &[u8]), Groth16Error>)
    ensures
        match r {
            Ok((header, body)) => spec_read_staging_account(data@) == Ok::<
                (nat, Seq<u8>, Seq<u8>),
                Groth16Error,
            >((header.num_public_inputs as nat, header.authority@, body@)),
            Err(e) => spec_read_staging_account(data@) == Err::<
                (nat, Seq<u8>, Seq<u8>),
                Groth16Error,
            >(e),
        },
{
    if data.len() < STAGING_HEADER_LEN {
        return Err(Groth16Error::InvalidAccountData);
    }
    if data[DISCRIMINATOR_OFFSET] != DISCRIMINATOR_STAGING {
        return Err(Groth16Error::WrongDiscriminator);
    }
    let n = read_n(data);
    if n > MAX_PUBLIC_INPUTS || data.len() != staging_account_len(n) {
        return Err(Groth16Error::InvalidAccountData);
    }
    let authority: [u8; 32] = fixed(data, STAGING_AUTHORITY_OFFSET);
    let body = vstd::slice::slice_subrange(data, STAGING_HEADER_LEN, data.len());
    Ok((StagingHeader { num_public_inputs: n, authority }, body))
}

/// Initializes a staging header. The account must be blank (discriminator
/// zero) and sized exactly for `n`; the caller checks both.
pub fn write_staging_header(data: &mut [u8], header: StagingHeader)
    requires
        old(data)@.len() >= STAGING_HEADER_LEN,
    ensures
        final(data)@ == staging_header_bytes(header.num_public_inputs as nat, header.authority@)
            + old(data)@.skip(STAGING_HEADER_LEN as int),
{
    data[DISCRIMINATOR_OFFSET] = DISCRIMINATOR_STAGING;
    data[1] = 0;
    write_n(data, header.num_public_inputs);
    let mut i: usize = 4;
    while i < STAGING_HEADER_LEN
        invariant
            4 <= i <= STAGING_HEADER_LEN,
            data@.len() == old(data)@.len(),
            data@.len() >= STAGING_HEADER_LEN,
            data@[DISCRIMINATOR_OFFSET as int] == DISCRIMINATOR_STAGING,
            data@[1] == 0,
            stores_n(data@, header.num_public_inputs as nat),
            zero_range(data@, 4, if i < STAGING_AUTHORITY_OFFSET { i as int } else { STAGING_AUTHORITY_OFFSET as int }),
            forall|j: int| STAGING_AUTHORITY_OFFSET <= j < i ==> #[trigger] data@[j] == header.authority@[j - STAGING_AUTHORITY_OFFSET],
            forall|j: int| STAGING_HEADER_LEN <= j < data@.len() ==> #[trigger] data@[j] == old(data)@[j],
        decreases STAGING_HEADER_LEN - i,
    {
        if i < STAGING_AUTHORITY_OFFSET {
            data[i] = 0;
        } else {
            data[i] = header.authority[i - STAGING_AUTHORITY_OFFSET];
        }
        i = i + 1;
    }
    assert(data@ =~= staging_header_bytes(header.num_public_inputs as nat, header.authority@)
        + old(data)@.skip(STAGING_HEADER_LEN as int));
}

/// std's `<[u8]>::split_at_mut`, keeping the part from `at` on. Trusted:
/// the tail holds the bytes from `at` on, and what is written through it
/// is what the whole slice holds from `at` on afterwards, the front unchanged.
#[verifier::external_body]
fn split_tail_mut(data: &mut [u8], at: usize) -> (tail: &mut [u8])
    requires
        at <= old(data)@.len(),
    ensures
        tail@ == old(data)@.skip(at as int),
        final(data)@ == old(data)@.take(at as int) + final(tail)@,
{
    data.split_at_mut(at).1
}

/// Mutable view of a staging account's body, for `Write`. Checks the
/// discriminator; the `offset + len ≤ body_len` check belongs to the caller,
/// which has the write's parameters.
pub fn staging_body_mut(data: &mut [u8]) -> (r: Result<&mut [u8], Groth16Error>)
    ensures
        match r {
            Ok(body) => {
                &&& old(data)@.len() >= STAGING_HEADER_LEN
                &&& old(data)@[DISCRIMINATOR_OFFSET as int] == DISCRIMINATOR_STAGING
                &&& body@ == old(data)@.skip(STAGING_HEADER_LEN as int)
                &&& final(data)@ == old(data)@.take(STAGING_HEADER_LEN as int) + final(body)@
            },
            Err(e) => {
                &&& final(data)@ == old(data)@
                &&& if old(data)@.len() < STAGING_HEADER_LEN {
                    e == Groth16Error::InvalidAccountData
                } else {
                    old(data)@[DISCRIMINATOR_OFFSET as int] != DISCRIMINATOR_STAGING && e
                        == Groth16Error::WrongDiscriminator
                }
            },
        },
{
    if data.len() < STAGING_HEADER_LEN {
        return Err(Groth16Error::InvalidAccountData);
    }
    if data[DISCRIMINATOR_OFFSET] != DISCRIMINATOR_STAGING {
        return Err(Groth16Error::WrongDiscriminator);
    }
    Ok(split_tail_mut(data, STAGING_HEADER_LEN))
}

/// A key account written as `Publish` writes it reads back as the header it
/// was given and the body that follows.
pub proof fn lemma_key_account_round_trip(bump: u8, n: nat, body: Seq<u8>)
    requires
        n <= MAX_PUBLIC_INPUTS,
        body.len() == spec_vk_body_len(n as int),
    ensures
        spec_read_key_account(key_header_bytes(bump, n) + body) == Ok::<
            (KeyHeader, Seq<u8>),
            Groth16Error,
        >((KeyHeader { bump, num_public_inputs: n as usize }, body)),
{
    let data = key_header_bytes(bump, n) + body;
    assert(header_n(data) == n);
    assert(data.skip(KEY_HEADER_LEN as int) =~= body);
}

/// A staging account whose header is written as `InitializeStaging` writes
/// it reads back as that `n`, that authority and the untouched body.
pub proof fn lemma_staging_account_round_trip(n: nat, authority: Seq<u8>, body: Seq<u8>)
    requires
        n <= MAX_PUBLIC_INPUTS,
        authority.len() == 32,
        body.len() == spec_vk_body_len(n as int),
    ensures
        spec_read_staging_account(staging_header_bytes(n, authority) + body) == Ok::<
            (nat, Seq<u8>, Seq<u8>),
            Groth16Error,
        >((n, authority, body)),
{
    let data = staging_header_bytes(n, authority) + body;
    assert(header_n(data) == n);
    assert(data.subrange(STAGING_AUTHORITY_OFFSET as int, STAGING_HEADER_LEN as int) =~= authority);
    assert(data.skip(STAGING_HEADER_LEN as int) =~= body);
}

} // verus!
