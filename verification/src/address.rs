//! Program-derived addresses and the on-chain SHA-256 they are derived from.
use vstd::prelude::*;

use solana_address::Address;

pub use crate::constants::VK_SEED_PREFIX;

verus! {


/// What `solana_sha256_hasher::hashv` returns for a list of byte strings:
/// the SHA-256 digest of their concatenation.
pub uninterp spec fn solana_hashv(vals: Seq<Seq<u8>>) -> Seq<u8>;

/// What `Address::try_find_program_address` returns for a list of seeds and
/// a program id: the first off-curve address found while trying bumps from
/// 255 down, with that bump, or `None` when there is none.
pub uninterp spec fn pda_search(seeds: Seq<Seq<u8>>, program_id: Seq<u8>) -> Option<(Seq<u8>, u8)>;

/// `solana_sha256_hasher::hashv(&[data])`. Trusted: the digest is the named
/// result of hashing the one-element list `[data]`.
#[verifier::external_body]
pub(crate) fn sha256(data: &[u8]) -> (digest: [u8; 32])
    ensures
        digest@ == solana_hashv(seq![data@]),
{
    solana_sha256_hasher::hashv(&[data]).to_bytes()
}

/// `solana_address::Address::try_find_program_address` on the two seeds
/// `[seed0, seed1]`. Trusted: the result, with addresses as their 32 bytes,
/// is the named result for those seeds and that program id.
#[verifier::external_body]
pub(crate) fn try_find_program_address(seed0: &[u8], seed1: &[u8], program_id: &[u8; 32]) -> (r:
    Option<([u8; 32], u8)>)
    ensures
        match r {
            Some((address, bump)) => pda_search(seq![seed0@, seed1@], program_id@) == Some(
                (address@, bump),
            ),
            None => pda_search(seq![seed0@, seed1@], program_id@) is None,
        },
{
    Address::try_find_program_address(&[seed0, seed1], &Address::new_from_array(*program_id)).map(
        |(address, bump)| (address.to_bytes(), bump),
    )
}

/// The canonical key address and bump for a key hash, if the search finds one.
pub open spec fn key_address_search(program_id: Seq<u8>, vk_hash: Seq<u8>) -> Option<(Seq<u8>, u8)> {
    pda_search(seq![VK_SEED_PREFIX@, vk_hash], program_id)
}

} // verus!
