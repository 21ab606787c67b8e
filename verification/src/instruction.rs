//! Client-side instruction builders and the program's canonical address.
//!
//! Instruction data is `tag ‖ payload`. Account orders match the program's
//! instruction table exactly.
use vstd::prelude::*;

use sha2::{Digest, Sha256};

use crate::address::{key_address_search, solana_hashv, try_find_program_address, VK_SEED_PREFIX};
use crate::constants::{spec_staging_account_len, staging_account_len, FR_SIZE, PROOF_SIZE};
pub use crate::constants::SYSTEM_PROGRAM_ID;
use crate::processor::initialize_staging::le_u16;
use crate::processor::write::{land_write, le_u32, splice};
use crate::constants::STAGING_HEADER_LEN;
use crate::tag::{tag_byte, Tag};

verus! {

/// The program's canonical address, `GrPeAM83MtRfR8NvbW3tMMSBzQ9BsmQrgLjLCQNwZW4P`.
pub const ID: [u8; 32] = [
    0xeb, 0x86, 0x5d, 0x0c, 0x7d, 0xf3, 0xf1, 0x9c, 0xdc, 0x5f, 0xbe, 0xe9, 0x4f, 0x6b, 0xef, 0xb6,
    0x31, 0xa0, 0x1d, 0x9f, 0x3d, 0xaa, 0x20, 0x47, 0x13, 0xda, 0xdc, 0xf0, 0x1c, 0x51, 0x18, 0x98,
];


/// One account of an instruction: its address and how it is used.
#[derive(Debug, Clone, Copy, PartialEq, Eq)]
pub struct AccountMeta {
    pub pubkey: [u8; 32],
    pub is_signer: bool,
    pub is_writable: bool,
}

/// An instruction for a program: its id, its accounts in order, its data.
#[derive(Debug, Clone, PartialEq, Eq)]
pub struct Instruction {
    pub program_id: [u8; 32],
    pub accounts: Vec<AccountMeta>,
    pub data: Vec<u8>,
}

/// The mathematical content of an [`AccountMeta`].
pub open spec fn meta(pubkey: Seq<u8>, is_signer: bool, is_writable: bool) -> (Seq<u8>, bool, bool) {
    (pubkey, is_signer, is_writable)
}

/// The accounts of an instruction as `(address, signer, writable)`.
pub open spec fn metas(accounts: Seq<AccountMeta>) -> Seq<(Seq<u8>, bool, bool)> {
    accounts.map_values(|m: AccountMeta| meta(m.pubkey@, m.is_signer, m.is_writable))
}

/// The `k` low bytes of `x`, least significant first.
pub open spec fn le_bytes(x: nat, k: nat) -> Seq<u8>
    decreases k,
{
    if k == 0 {
        Seq::empty()
    } else {
        seq![(x % 256) as u8] + le_bytes(x / 256, (k - 1) as nat)
    }
}

/// What `sha2::Sha256::digest` returns for a byte string.
pub uninterp spec fn sha2_sha256(data: Seq<u8>) -> Seq<u8>;

/// `sha2::Sha256::digest(data)`. Trusted: the 32-byte digest is the named
/// result for `data`. It is also what `solana_sha256_hasher::hashv` returns
/// for the one-element list `[data]`: both are the SHA-256 digest of `data`
/// (off-chain `hashv` feeds its slices to this same `sha2::Sha256`; on-chain
/// the `sol_sha256` syscall computes SHA-256 of the concatenation).
#[verifier::external_body]
fn sha2_digest(data: &[u8]) -> (digest: [u8; 32])
    ensures
        digest@ == sha2_sha256(data@),
        digest@ == solana_hashv(seq![data@]),
{
    Sha256::digest(data).into()
}

/// `sha256(body)`, the second PDA seed of a canonical key account: the
/// same hash `Publish` derives the key address from.
pub fn vk_hash(body: &[u8]) -> (hash: [u8; 32])
    ensures
        hash@ == sha2_sha256(body@),
        hash@ == solana_hashv(seq![body@]),
{
    sha2_digest(body)
}

/// Derives the canonical key account for a key hash, with the canonical
/// bump: what `Publish` computes on-chain.
pub fn find_key_address(program_id: &[u8; 32], vk_hash: &[u8; 32]) -> (found: ([u8; 32], u8))
    requires
        key_address_search(program_id@, vk_hash@) is Some,
    ensures
        key_address_search(program_id@, vk_hash@) == Some((found.0@, found.1)),
{
    let prefix = VK_SEED_PREFIX;
    match try_find_program_address(prefix.as_slice(), vk_hash.as_slice(), program_id) {
        Some(found) => found,
        None => ([0u8; 32], 0),
    }
}

/// [`find_key_address`] for any hash: `None` in the improbable case that no
/// bump yields an off-curve address.
pub fn try_find_key_address(program_id: &[u8; 32], vk_hash: &[u8; 32]) -> (found: Option<
    ([u8; 32], u8),
>)
    ensures
        match found {
            Some((address, bump)) => key_address_search(program_id@, vk_hash@) == Some(
                (address@, bump),
            ),
            None => key_address_search(program_id@, vk_hash@) is None,
        },
{
    let prefix = VK_SEED_PREFIX;
    match try_find_program_address(prefix.as_slice(), vk_hash.as_slice(), program_id) {
        Some(_) => Some(find_key_address(program_id, vk_hash)),
        None => None,
    }
}

/// Appends the `k` low bytes of `x`, little-endian.
fn push_le(data: &mut Vec<u8>, x: u64, k: usize)
    ensures
        final(data)@ == old(data)@ + le_bytes(x as nat, k as nat),
{
    let mut rest = x;
    let mut i: usize = 0;
    while i < k
        invariant
            0 <= i <= k,
            data@ + le_bytes(rest as nat, (k - i) as nat) == old(data)@ + le_bytes(x as nat, k as nat),
        decreases k - i,
    {
        let ghost before = data@;
        data.push((rest % 256) as u8);
        proof {
            assert(le_bytes(rest as nat, (k - i) as nat) == seq![(rest % 256) as u8] + le_bytes(
                (rest / 256) as nat,
                (k - i - 1) as nat,
            ));
            assert(data@ + le_bytes((rest / 256) as nat, (k - i - 1) as nat) =~= before
                + le_bytes(rest as nat, (k - i) as nat));
        }
        rest = rest / 256;
        i = i + 1;
    }
    assert(data@ =~= data@ + le_bytes(rest as nat, 0));
}

/// Appends `bytes`.
fn push_all(data: &mut Vec<u8>, bytes: &[u8])
    ensures
        final(data)@ == old(data)@ + bytes@,
{
    let len = bytes.len();
    let mut i: usize = 0;
    while i < len
        invariant
            0 <= i <= len,
            len == bytes@.len(),
            data@ == old(data)@ + bytes@.take(i as int),
        decreases len - i,
    {
        data.push(bytes[i]);
        assert(bytes@.take(i + 1) =~= bytes@.take(i as int).push(bytes@[i as int]));
        i = i + 1;
    }
    assert(bytes@.take(len as int) =~= bytes@);
}

/// The data of `InitializeStaging`: `[0, n as u16 LE]`.
pub open spec fn initialize_staging_data(num_public_inputs: u16) -> Seq<u8> {
    seq![tag_byte(Tag::InitializeStaging)] + le_bytes(num_public_inputs as nat, 2)
}

/// Data `[0, n as u16 LE]`. Accounts: authority (s), staging (w).
///
/// Must be placed in the same transaction as the system-program
/// `create_account` that allocates `staging`.
pub fn initialize_staging(
    program_id: &[u8; 32],
    authority: &[u8; 32],
    staging: &[u8; 32],
    num_public_inputs: u16,
) -> (ix: Instruction)
    ensures
        ix.program_id@ == program_id@,
        ix.data@ == initialize_staging_data(num_public_inputs),
        metas(ix.accounts@) == seq![meta(authority@, true, false), meta(staging@, false, true)],
{
    let mut data: Vec<u8> = Vec::new();
    data.push(Tag::InitializeStaging.to_u8());
    push_le(&mut data, num_public_inputs as u64, 2);
    let mut accounts: Vec<AccountMeta> = Vec::new();
    accounts.push(AccountMeta { pubkey: *authority, is_signer: true, is_writable: false });
    accounts.push(AccountMeta { pubkey: *staging, is_signer: false, is_writable: true });
    assert(data@ =~= initialize_staging_data(num_public_inputs));
    assert(metas(accounts@) =~= seq![meta(authority@, true, false), meta(staging@, false, true)]);
    Instruction { program_id: *program_id, accounts, data }
}

/// The data of the system program's `CreateAccount { lamports, space, owner }`.
pub open spec fn create_account_data(lamports: u64, space: nat, owner: Seq<u8>) -> Seq<u8> {
    le_bytes(0, 4) + le_bytes(lamports as nat, 8) + le_bytes(space, 8) + owner
}

/// System-program `CreateAccount` for a staging account sized for `n` public
/// inputs, followed by the `InitializeStaging` that claims it for
/// `authority`. Submit both in one transaction, in this order.
pub fn create_staging(
    program_id: &[u8; 32],
    payer: &[u8; 32],
    authority: &[u8; 32],
    staging: &[u8; 32],
    num_public_inputs: u16,
    lamports: u64,
) -> (ixs: [Instruction; 2])
    ensures
        ixs[0].program_id@ == SYSTEM_PROGRAM_ID@,
        ixs[0].data@ == create_account_data(
            lamports,
            spec_staging_account_len(num_public_inputs as int) as nat,
            program_id@,
        ),
        metas(ixs[0].accounts@) == seq![meta(payer@, true, true), meta(staging@, true, true)],
        ixs[1].program_id@ == program_id@,
        ixs[1].data@ == initialize_staging_data(num_public_inputs),
        metas(ixs[1].accounts@) == seq![meta(authority@, true, false), meta(staging@, false, true)],
{
    let space = staging_account_len(num_public_inputs as usize);
    let mut data: Vec<u8> = Vec::new();
    push_le(&mut data, 0, 4);
    push_le(&mut data, lamports, 8);
    push_le(&mut data, space as u64, 8);
    push_all(&mut data, program_id.as_slice());
    let mut accounts: Vec<AccountMeta> = Vec::new();
    accounts.push(AccountMeta { pubkey: *payer, is_signer: true, is_writable: true });
    accounts.push(AccountMeta { pubkey: *staging, is_signer: true, is_writable: true });
    assert(metas(accounts@) =~= seq![meta(payer@, true, true), meta(staging@, true, true)]);
    let create = Instruction { program_id: SYSTEM_PROGRAM_ID, accounts, data };
    [create, initialize_staging(program_id, authority, staging, num_public_inputs)]
}

/// The data of `Write`: `[1, offset as u32 LE, bytes...]`.
pub open spec fn write_data(offset: u32, bytes: Seq<u8>) -> Seq<u8> {
    seq![tag_byte(Tag::Write)] + le_bytes(offset as nat, 4) + bytes
}

/// Data `[1, offset as u32 LE, bytes...]`, `offset` relative to the body.
/// Accounts: authority (s), staging (w).
pub fn write(
    program_id: &[u8; 32],
    authority: &[u8; 32],
    staging: &[u8; 32],
    offset: u32,
    bytes: &[u8],
) -> (ix: Instruction)
    ensures
        ix.program_id@ == program_id@,
        ix.data@ == write_data(offset, bytes@),
        metas(ix.accounts@) == seq![meta(authority@, true, false), meta(staging@, false, true)],
{
    let mut data: Vec<u8> = Vec::new();
    data.push(Tag::Write.to_u8());
    push_le(&mut data, offset as u64, 4);
    push_all(&mut data, bytes);
    let mut accounts: Vec<AccountMeta> = Vec::new();
    accounts.push(AccountMeta { pubkey: *authority, is_signer: true, is_writable: false });
    accounts.push(AccountMeta { pubkey: *staging, is_signer: false, is_writable: true });
    assert(data@ =~= write_data(offset, bytes@));
    assert(metas(accounts@) =~= seq![meta(authority@, true, false), meta(staging@, false, true)]);
    Instruction { program_id: *program_id, accounts, data }
}

/// The `i`-th piece when `body` is cut into `chunk`-byte pieces.
pub open spec fn body_piece(body: Seq<u8>, chunk: nat, i: int) -> Seq<u8> {
    body.subrange(
        i * chunk,
        if (i + 1) * chunk <= body.len() {
            (i + 1) * chunk
        } else {
            body.len() as int
        },
    )
}

/// The number of `chunk`-byte pieces a body is cut into.
pub open spec fn piece_count(len: nat, chunk: nat) -> nat {
    if len % chunk == 0 {
        len / chunk
    } else {
        len / chunk + 1
    }
}

/// Any piece that starts inside the body is one of the counted pieces.
proof fn lemma_piece_counted(len: nat, chunk: nat, i: nat)
    requires
        chunk > 0,
        i * chunk < len,
    ensures
        i < piece_count(len, chunk),
        i < len,
        (i + 1) * chunk == i * chunk + chunk,
{
    let q = len / chunk;
    let r = len % chunk;
    assert(len == q * chunk + r && 0 <= r < chunk) by (nonlinear_arith)
        requires
            chunk > 0,
            q == len / chunk,
            r == len % chunk,
    ;
    if i >= piece_count(len, chunk) {
        assert(i * chunk >= piece_count(len, chunk) * chunk) by (nonlinear_arith)
            requires
                i >= piece_count(len, chunk),
                chunk > 0,
        ;
        if r == 0 {
            assert(piece_count(len, chunk) == q);
        } else {
            assert(piece_count(len, chunk) == q + 1);
            assert((q + 1) * chunk == q * chunk + chunk) by (nonlinear_arith);
        }
    }
    assert(i <= i * chunk) by (nonlinear_arith)
        requires
            chunk > 0,
    ;
    assert((i + 1) * chunk == i * chunk + chunk) by (nonlinear_arith);
}

/// The piece that reaches the end of the body is the last counted one.
proof fn lemma_last_piece(len: nat, chunk: nat, i: nat)
    requires
        chunk > 0,
        i * chunk < len,
        len <= i * chunk + chunk,
    ensures
        piece_count(len, chunk) == i + 1,
{
    let q = len / chunk;
    let r = len % chunk;
    assert(len == q * chunk + r && 0 <= r < chunk) by (nonlinear_arith)
        requires
            chunk > 0,
            q == len / chunk,
            r == len % chunk,
    ;
    if r == 0 {
        assert(q == i + 1) by (nonlinear_arith)
            requires
                len == q * chunk,
                i * chunk < len,
                len <= i * chunk + chunk,
                chunk > 0,
        ;
    } else {
        assert(q == i) by (nonlinear_arith)
            requires
                len == q * chunk + r,
                0 < r < chunk,
                i * chunk < len,
                len <= i * chunk + chunk,
                chunk > 0,
        ;
    }
}

/// The `Write`s that upload a whole key body into a staging account, in
/// `chunk`-byte pieces at ascending offsets (offsets as `u32`, truncated).
pub fn write_body(
    program_id: &[u8; 32],
    authority: &[u8; 32],
    staging: &[u8; 32],
    body: &[u8],
    chunk: usize,
) -> (ixs: Vec<Instruction>)
    requires
        chunk > 0,
    ensures
        ixs@.len() == piece_count(body@.len(), chunk as nat),
        forall|i: int|
            0 <= i < ixs@.len() ==> {
                &&& (#[trigger] ixs@[i]).program_id@ == program_id@
                &&& ixs@[i].data@ == write_data(
                    ((i * chunk) % 0x1_0000_0000) as u32,
                    body_piece(body@, chunk as nat, i),
                )
                &&& metas(ixs@[i].accounts@) == seq![
                    meta(authority@, true, false),
                    meta(staging@, false, true),
                ]
            },
{
    let len = body.len();
    let mut ixs: Vec<Instruction> = Vec::new();
    let mut start: usize = 0;
    let mut i: usize = 0;
    proof {
        if len > 0 {
            lemma_piece_counted(len as nat, chunk as nat, 0);
        } else {
            assert(piece_count(0, chunk as nat) == 0);
        }
    }
    while start < len
        invariant
            len == body@.len(),
            chunk > 0,
            start <= len,
            start < len ==> start == i * chunk,
            ixs@.len() == i,
            start < len ==> i < piece_count(len as nat, chunk as nat),
            start >= len ==> i == piece_count(len as nat, chunk as nat),
            forall|j: int|
                0 <= j < i ==> {
                    &&& (#[trigger] ixs@[j]).program_id@ == program_id@
                    &&& ixs@[j].data@ == write_data(
                        ((j * chunk) % 0x1_0000_0000) as u32,
                        body_piece(body@, chunk as nat, j),
                    )
                    &&& metas(ixs@[j].accounts@) == seq![
                        meta(authority@, true, false),
                        meta(staging@, false, true),
                    ]
                },
        decreases len - start,
    {
        proof {
            lemma_piece_counted(len as nat, chunk as nat, i as nat);
        }
        let end = if len - start > chunk {
            start + chunk
        } else {
            len
        };
        let piece = vstd::slice::slice_subrange(body, start, end);
        let offset = ((start as u64) % 0x1_0000_0000) as u32;
        let ix = write(program_id, authority, staging, offset, piece);
        ixs.push(ix);
        proof {
            assert(piece@ == body_piece(body@, chunk as nat, i as int));
            if end < len {
                lemma_piece_counted(len as nat, chunk as nat, (i + 1) as nat);
            } else {
                lemma_last_piece(len as nat, chunk as nat, i as nat);
            }
        }
        start = end;
        i = i + 1;
    }
    ixs
}

/// The data of `Publish`: `[2]`.
pub open spec fn publish_data() -> Seq<u8> {
    seq![tag_byte(Tag::Publish)]
}

/// Data `[2]`. Accounts: authority (s,w), payer (s,w), staging (w), key PDA
/// (w), system program. `key` must be the canonical key address of the
/// staged body; the program recomputes it and rejects anything else.
pub fn publish(
    program_id: &[u8; 32],
    authority: &[u8; 32],
    payer: &[u8; 32],
    staging: &[u8; 32],
    key: &[u8; 32],
) -> (ix: Instruction)
    ensures
        ix.program_id@ == program_id@,
        ix.data@ == publish_data(),
        metas(ix.accounts@) == seq![
            meta(authority@, true, true),
            meta(payer@, true, true),
            meta(staging@, false, true),
            meta(key@, false, true),
            meta(SYSTEM_PROGRAM_ID@, false, false),
        ],
{
    let mut data: Vec<u8> = Vec::new();
    data.push(Tag::Publish.to_u8());
    let mut accounts: Vec<AccountMeta> = Vec::new();
    accounts.push(AccountMeta { pubkey: *authority, is_signer: true, is_writable: true });
    accounts.push(AccountMeta { pubkey: *payer, is_signer: true, is_writable: true });
    accounts.push(AccountMeta { pubkey: *staging, is_signer: false, is_writable: true });
    accounts.push(AccountMeta { pubkey: *key, is_signer: false, is_writable: true });
    accounts.push(AccountMeta { pubkey: SYSTEM_PROGRAM_ID, is_signer: false, is_writable: false });
    assert(data@ =~= publish_data());
    assert(metas(accounts@) =~= seq![
        meta(authority@, true, true),
        meta(payer@, true, true),
        meta(staging@, false, true),
        meta(key@, false, true),
        meta(SYSTEM_PROGRAM_ID@, false, false),
    ]);
    Instruction { program_id: *program_id, accounts, data }
}

/// The public inputs concatenated in order.
pub open spec fn concat_inputs(inputs: Seq<[u8; FR_SIZE]>) -> Seq<u8>
    decreases inputs.len(),
{
    if inputs.len() == 0 {
        Seq::empty()
    } else {
        concat_inputs(inputs.drop_last()) + inputs.last()@
    }
}

/// The data of `Verify`: `[3, proof (256), public_inputs (32·n)]`.
pub open spec fn verify_data(proof: Seq<u8>, inputs: Seq<[u8; FR_SIZE]>) -> Seq<u8> {
    seq![tag_byte(Tag::Verify)] + proof + concat_inputs(inputs)
}

/// Data `[3, proof (256), public_inputs (32·n)]`. Accounts: key PDA (r).
pub fn verify(
    program_id: &[u8; 32],
    key: &[u8; 32],
    proof: &[u8; PROOF_SIZE],
    public_inputs: &[[u8; FR_SIZE]],
) -> (ix: Instruction)
    ensures
        ix.program_id@ == program_id@,
        ix.data@ == verify_data(proof@, public_inputs@),
        metas(ix.accounts@) == seq![meta(key@, false, false)],
{
    let mut data: Vec<u8> = Vec::new();
    data.push(Tag::Verify.to_u8());
    push_all(&mut data, proof.as_slice());
    let n = public_inputs.len();
    let mut i: usize = 0;
    while i < n
        invariant
            0 <= i <= n,
            n == public_inputs@.len(),
            data@ == seq![tag_byte(Tag::Verify)] + proof@ + concat_inputs(
                public_inputs@.take(i as int),
            ),
        decreases n - i,
    {
        push_all(&mut data, public_inputs[i].as_slice());
        assert(public_inputs@.take(i + 1).drop_last() =~= public_inputs@.take(i as int));
        i = i + 1;
    }
    assert(public_inputs@.take(n as int) =~= public_inputs@);
    let mut accounts: Vec<AccountMeta> = Vec::new();
    accounts.push(AccountMeta { pubkey: *key, is_signer: false, is_writable: false });
    assert(metas(accounts@) =~= seq![meta(key@, false, false)]);
    Instruction { program_id: *program_id, accounts, data }
}

/// The data of `CloseStaging`: `[4]`.
pub open spec fn close_staging_data() -> Seq<u8> {
    seq![tag_byte(Tag::CloseStaging)]
}

/// Data `[4]`. Accounts: authority (s,w), staging (w).
pub fn close_staging(program_id: &[u8; 32], authority: &[u8; 32], staging: &[u8; 32]) -> (ix:
    Instruction)
    ensures
        ix.program_id@ == program_id@,
        ix.data@ == close_staging_data(),
        metas(ix.accounts@) == seq![meta(authority@, true, true), meta(staging@, false, true)],
{
    let mut data: Vec<u8> = Vec::new();
    data.push(Tag::CloseStaging.to_u8());
    let mut accounts: Vec<AccountMeta> = Vec::new();
    accounts.push(AccountMeta { pubkey: *authority, is_signer: true, is_writable: true });
    accounts.push(AccountMeta { pubkey: *staging, is_signer: false, is_writable: true });
    assert(data@ =~= close_staging_data());
    assert(metas(accounts@) =~= seq![meta(authority@, true, true), meta(staging@, false, true)]);
    Instruction { program_id: *program_id, accounts, data }
}

/// The public inputs take 32 bytes each.
pub proof fn lemma_concat_inputs_len(inputs: Seq<[u8; FR_SIZE]>)
    ensures
        concat_inputs(inputs).len() == FR_SIZE * inputs.len(),
    decreases inputs.len(),
{
    if inputs.len() > 0 {
        lemma_concat_inputs_len(inputs.drop_last());
    }
}

/// A `Write`'s data decodes to its offset and its bytes.
pub proof fn lemma_write_data_decodes(offset: u32, bytes: Seq<u8>)
    ensures
        write_data(offset, bytes).skip(1).len() >= 4,
        le_u32(write_data(offset, bytes).skip(1)) == offset,
        write_data(offset, bytes).skip(1).skip(4) == bytes,
{
    reveal_with_fuel(le_bytes, 5);
    let o = offset as nat;
    assert(le_bytes(o, 4) =~= seq![
        (o % 256) as u8,
        ((o / 256) % 256) as u8,
        ((o / 256 / 256) % 256) as u8,
        ((o / 256 / 256 / 256) % 256) as u8,
    ]);
    let w = write_data(offset, bytes);
    assert(w.skip(1) =~= le_bytes(o, 4) + bytes);
    assert(w.skip(1).skip(4) =~= bytes);
    assert(le_u32(le_bytes(o, 4)) == o) by (nonlinear_arith)
        requires
            o < 0x1_0000_0000,
            le_bytes(o, 4) =~= seq![
                (o % 256) as u8,
                ((o / 256) % 256) as u8,
                ((o / 256 / 256) % 256) as u8,
                ((o / 256 / 256 / 256) % 256) as u8,
            ],
    ;
}

/// Each builder's data decodes, as the program splits and parses it, to the
/// builder's own instruction and arguments.
pub proof fn lemma_instruction_data_decodes(
    num_public_inputs: u16,
    offset: u32,
    bytes: Seq<u8>,
    proof: Seq<u8>,
    inputs: Seq<[u8; FR_SIZE]>,
)
    requires
        proof.len() == PROOF_SIZE,
    ensures
        initialize_staging_data(num_public_inputs)[0] == tag_byte(Tag::InitializeStaging),
        initialize_staging_data(num_public_inputs).skip(1).len() == 2,
        le_u16(initialize_staging_data(num_public_inputs).skip(1)) == num_public_inputs,
        write_data(offset, bytes)[0] == tag_byte(Tag::Write),
        write_data(offset, bytes).skip(1).len() >= 4,
        le_u32(write_data(offset, bytes).skip(1)) == offset,
        write_data(offset, bytes).skip(1).skip(4) == bytes,
        publish_data()[0] == tag_byte(Tag::Publish),
        publish_data().skip(1).len() == 0,
        verify_data(proof, inputs)[0] == tag_byte(Tag::Verify),
        verify_data(proof, inputs).skip(1).take(PROOF_SIZE as int) == proof,
        verify_data(proof, inputs).skip(1).skip(PROOF_SIZE as int) == concat_inputs(inputs),
        close_staging_data()[0] == tag_byte(Tag::CloseStaging),
        close_staging_data().skip(1).len() == 0,
{
    reveal_with_fuel(le_bytes, 5);
    let n = num_public_inputs as nat;
    let d = initialize_staging_data(num_public_inputs);
    assert(le_bytes(n, 2) =~= seq![(n % 256) as u8, ((n / 256) % 256) as u8]);
    assert(d.skip(1) =~= le_bytes(n, 2));
    lemma_write_data_decodes(offset, bytes);
    let v = verify_data(proof, inputs);
    assert(v.skip(1).take(PROOF_SIZE as int) =~= proof);
    assert(v.skip(1).skip(PROOF_SIZE as int) =~= concat_inputs(inputs));
    assert(publish_data().skip(1) =~= Seq::<u8>::empty());
    assert(close_staging_data().skip(1) =~= Seq::<u8>::empty());
}

/// Where the first `k` pieces end: `k·chunk`, or the body's end.
pub open spec fn pieces_end(len: nat, chunk: nat, k: nat) -> int {
    if k * chunk <= len {
        (k * chunk) as int
    } else {
        len as int
    }
}

/// A staging account's data after the first `k` writes of [`write_body`]
/// land, each piece at its offset past the header.
pub open spec fn apply_pieces(data: Seq<u8>, body: Seq<u8>, chunk: nat, k: nat) -> Seq<u8>
    decreases k,
{
    if k == 0 {
        data
    } else {
        splice(
            apply_pieces(data, body, chunk, (k - 1) as nat),
            STAGING_HEADER_LEN + (k - 1) * chunk,
            body_piece(body, chunk, k - 1),
        )
    }
}

proof fn lemma_apply_pieces_prefix(data: Seq<u8>, body: Seq<u8>, chunk: nat, k: nat)
    requires
        chunk > 0,
        data.len() == STAGING_HEADER_LEN + body.len(),
        k <= piece_count(body.len(), chunk),
    ensures
        apply_pieces(data, body, chunk, k) == data.take(STAGING_HEADER_LEN as int) + body.take(
            pieces_end(body.len(), chunk, k),
        ) + data.skip(STAGING_HEADER_LEN + pieces_end(body.len(), chunk, k)),
    decreases k,
{
    let len = body.len();
    if k == 0 {
        assert(0 * chunk == 0);
        assert(pieces_end(len, chunk, 0) == 0);
        assert(body.take(0) =~= Seq::<u8>::empty());
        assert(data =~= data.take(STAGING_HEADER_LEN as int) + body.take(0) + data.skip(
            STAGING_HEADER_LEN as int,
        ));
    } else {
        let j = (k - 1) as nat;
        lemma_apply_pieces_prefix(data, body, chunk, j);
        assert(j * chunk < len) by {
            if j * chunk >= len {
                assert(k * chunk == j * chunk + chunk) by (nonlinear_arith)
                    requires
                        k == j + 1,
                ;
                let q = len / chunk;
                let r = len % chunk;
                assert(len == q * chunk + r && 0 <= r < chunk) by (nonlinear_arith)
                    requires
                        chunk > 0,
                        q == len / chunk,
                        r == len % chunk,
                ;
                assert(j >= piece_count(len, chunk)) by (nonlinear_arith)
                    requires
                        j * chunk >= len,
                        len == q * chunk + r,
                        0 <= r < chunk,
                        chunk > 0,
                        piece_count(len, chunk) == if r == 0 {
                            q
                        } else {
                            q + 1
                        },
                ;
            }
        }
        assert(j * chunk <= len);
        assert(pieces_end(len, chunk, j) == j * chunk);
        assert(k * chunk == j * chunk + chunk) by (nonlinear_arith)
            requires
                k == j + 1,
        ;
        let prev = apply_pieces(data, body, chunk, j);
        let piece = body_piece(body, chunk, j as int);
        let at = STAGING_HEADER_LEN + j * chunk;
        let e = pieces_end(len, chunk, k);
        assert(apply_pieces(data, body, chunk, k) == splice(prev, at, piece));
        assert(piece =~= body.subrange((j * chunk) as int, e));
        assert(splice(prev, at, piece) =~= data.take(STAGING_HEADER_LEN as int) + body.take(e)
            + data.skip(STAGING_HEADER_LEN + e));
    }
}

/// Landing every write of [`write_body`] in order puts exactly the body
/// behind the staging header: the pieces cover it without gap or overlap.
pub proof fn lemma_write_body_covers_body(data: Seq<u8>, body: Seq<u8>, chunk: nat)
    requires
        chunk > 0,
        data.len() == STAGING_HEADER_LEN + body.len(),
    ensures
        apply_pieces(data, body, chunk, piece_count(body.len(), chunk)) == data.take(
            STAGING_HEADER_LEN as int,
        ) + body,
{
    let len = body.len();
    let pc = piece_count(len, chunk);
    lemma_apply_pieces_prefix(data, body, chunk, pc);
    let q = len / chunk;
    let r = len % chunk;
    assert(len == q * chunk + r && 0 <= r < chunk) by (nonlinear_arith)
        requires
            chunk > 0,
            q == len / chunk,
            r == len % chunk,
    ;
    assert(pc * chunk >= len) by (nonlinear_arith)
        requires
            len == q * chunk + r,
            0 <= r < chunk,
            pc == if r == 0 {
                q
            } else {
                q + 1
            },
    ;
    assert(pieces_end(len, chunk, pc) == len);
    assert(body.take(len as int) =~= body);
    assert(data.skip(STAGING_HEADER_LEN + len) =~= Seq::<u8>::empty());
    assert(data.take(STAGING_HEADER_LEN as int) + body + Seq::<u8>::empty() =~= data.take(
        STAGING_HEADER_LEN as int,
    ) + body);
}

/// The payload (the data past the tag) of the `i`-th `Write` of
/// [`write_body`].
pub open spec fn write_body_payload(body: Seq<u8>, chunk: nat, i: int) -> Seq<u8> {
    write_data(((i * chunk) % 0x1_0000_0000) as u32, body_piece(body, chunk, i)).skip(1)
}

/// The piece of [`write_body`] that body byte `p` belongs to.
pub open spec fn piece_of(chunk: nat, p: int) -> int {
    p / (chunk as int)
}

/// Whether the `i`-th `Write` of [`write_body`] lands on body byte `p`.
pub open spec fn lands_on(body: Seq<u8>, chunk: nat, i: int, p: int) -> bool {
    let payload = write_body_payload(body, chunk, i);
    le_u32(payload) <= p < le_u32(payload) + payload.skip(4).len()
}

/// A staging account's data after the `Write`s of [`write_body`] numbered
/// `order[0]`, `order[1]`, … land, in that order, as the `Write` instruction
/// lands them.
pub open spec fn land_writes(data: Seq<u8>, body: Seq<u8>, chunk: nat, order: Seq<int>) -> Seq<
    u8,
>
    decreases order.len(),
{
    if order.len() == 0 {
        data
    } else {
        land_write(
            land_writes(data, body, chunk, order.drop_last()),
            write_body_payload(body, chunk, order.last()),
        )
    }
}

/// `p` lies in the `chunk`-wide slot `i` exactly when `p / chunk == i`.
proof fn lemma_slot(chunk: nat, p: int, i: int)
    requires
        chunk > 0,
        p >= 0,
        i >= 0,
    ensures
        (i * chunk <= p && p < i * chunk + chunk) <==> piece_of(chunk, p) == i,
        piece_of(chunk, p) >= 0,
        piece_of(chunk, p) * chunk <= p,
{
    let c = chunk as int;
    let q = p / c;
    let r = p % c;
    assert(p == q * c + r && 0 <= r < c) by (nonlinear_arith)
        requires
            c > 0,
            q == p / c,
            r == p % c,
    ;
    assert(q >= 0) by (nonlinear_arith)
        requires
            p == q * c + r,
            0 <= r < c,
            p >= 0,
    ;
    if i * chunk <= p && p < i * chunk + chunk {
        assert(q == i) by (nonlinear_arith)
            requires
                p == q * c + r,
                0 <= r < c,
                i * c <= p,
                p < i * c + c,
        ;
    }
}

/// Every counted piece starts inside the body.
proof fn lemma_piece_starts_inside(len: nat, chunk: nat, i: int)
    requires
        chunk > 0,
        0 <= i < piece_count(len, chunk),
    ensures
        0 <= i * chunk < len,
        (i + 1) * chunk == i * chunk + chunk,
{
    let q = len / chunk;
    let r = len % chunk;
    assert(len == q * chunk + r && 0 <= r < chunk) by (nonlinear_arith)
        requires
            chunk > 0,
            q == len / chunk,
            r == len % chunk,
    ;
    assert(0 <= i * chunk) by (nonlinear_arith)
        requires
            i >= 0,
    ;
    if r == 0 {
        assert(i * chunk < len) by (nonlinear_arith)
            requires
                len == q * chunk,
                i < q,
                chunk > 0,
        ;
    } else {
        assert(i * chunk < len) by (nonlinear_arith)
            requires
                len == q * chunk + r,
                0 < r,
                i < q + 1,
                chunk > 0,
        ;
    }
    assert((i + 1) * chunk == i * chunk + chunk) by (nonlinear_arith);
}

/// What the `i`-th `Write` of [`write_body`] carries: offset `i·chunk`, the
/// `i`-th piece, inside the body, on the bytes `p` with `p / chunk == i`.
proof fn lemma_write_body_piece(body: Seq<u8>, chunk: nat, i: int)
    requires
        chunk > 0,
        body.len() <= u32::MAX,
        0 <= i < piece_count(body.len(), chunk),
    ensures
        le_u32(write_body_payload(body, chunk, i)) == i * chunk,
        write_body_payload(body, chunk, i).skip(4) == body_piece(body, chunk, i),
        body_piece(body, chunk, i).len() > 0,
        i * chunk + body_piece(body, chunk, i).len() <= body.len(),
        forall|p: int|
            0 <= p < body.len() ==> (lands_on(body, chunk, i, p) <==> piece_of(chunk, p) == i),
{
    let len = body.len();
    lemma_piece_starts_inside(len, chunk, i);
    let off = i * chunk;
    assert((off % 0x1_0000_0000) as u32 == off);
    lemma_write_data_decodes(off as u32, body_piece(body, chunk, i));
    let piece = body_piece(body, chunk, i);
    let end = if (i + 1) * chunk <= len {
        (i + 1) * chunk
    } else {
        len as int
    };
    assert(piece.len() == end - off);
    assert forall|p: int| 0 <= p < len implies (lands_on(body, chunk, i, p) <==> piece_of(
        chunk,
        p,
    ) == i) by {
        lemma_slot(chunk, p, i);
    }
}

/// The `Write`s of [`write_body`] split the body: each passes the `Write`
/// bounds check (it lands inside the body, at offset `i·chunk`, carrying the
/// `i`-th piece), and every body byte is landed on by exactly one of them, the
/// one numbered `p / chunk`. So they touch disjoint ranges that together
/// cover the body.
pub proof fn lemma_write_body_partitions_body(body: Seq<u8>, chunk: nat)
    requires
        chunk > 0,
        body.len() <= u32::MAX,
    ensures
        forall|i: int|
            0 <= i < piece_count(body.len(), chunk) ==> {
                &&& le_u32(#[trigger] write_body_payload(body, chunk, i)) == i * chunk
                &&& write_body_payload(body, chunk, i).skip(4) == body_piece(body, chunk, i)
                &&& le_u32(write_body_payload(body, chunk, i)) + write_body_payload(
                    body,
                    chunk,
                    i,
                ).skip(4).len() <= body.len()
            },
        forall|p: int|
            0 <= p < body.len() ==> 0 <= #[trigger] piece_of(chunk, p) < piece_count(
                body.len(),
                chunk,
            ),
        forall|i: int, p: int|
            0 <= i < piece_count(body.len(), chunk) && 0 <= p < body.len() ==> (
            #[trigger] lands_on(body, chunk, i, p) <==> piece_of(chunk, p) == i),
{
    let len = body.len();
    assert forall|i: int| 0 <= i < piece_count(len, chunk) implies {
        &&& le_u32(#[trigger] write_body_payload(body, chunk, i)) == i * chunk
        &&& write_body_payload(body, chunk, i).skip(4) == body_piece(body, chunk, i)
        &&& le_u32(write_body_payload(body, chunk, i)) + write_body_payload(
            body,
            chunk,
            i,
        ).skip(4).len() <= len
    } by {
        lemma_write_body_piece(body, chunk, i);
    }
    assert forall|p: int| 0 <= p < len implies 0 <= #[trigger] piece_of(chunk, p)
        < piece_count(len, chunk) by {
        lemma_slot(chunk, p, 0);
        let k = piece_of(chunk, p);
        lemma_piece_counted(len, chunk, k as nat);
    }
    assert forall|i: int, p: int|
        0 <= i < piece_count(len, chunk) && 0 <= p < len implies (#[trigger] lands_on(
        body,
        chunk,
        i,
        p,
    ) <==> piece_of(chunk, p) == i) by {
        lemma_write_body_piece(body, chunk, i);
    }
}

/// The staging data after some of the `Write`s of [`write_body`] land: the
/// header untouched, each body byte from the body if its `Write` has landed,
/// else as it was.
proof fn lemma_land_writes_bytes(data: Seq<u8>, body: Seq<u8>, chunk: nat, order: Seq<int>)
    requires
        chunk > 0,
        body.len() <= u32::MAX,
        data.len() == STAGING_HEADER_LEN + body.len(),
        forall|k: int| 0 <= k < order.len() ==> 0 <= #[trigger] order[k] < piece_count(
            body.len(),
            chunk,
        ),
    ensures
        land_writes(data, body, chunk, order) == data.take(STAGING_HEADER_LEN as int) + Seq::new(
            body.len(),
            |p: int|
                if order.contains(piece_of(chunk, p)) {
                    body[p]
                } else {
                    data[STAGING_HEADER_LEN + p]
                },
        ),
    decreases order.len(),
{
    let h = STAGING_HEADER_LEN as int;
    let len = body.len();
    let staged = |o: Seq<int>|
        data.take(h) + Seq::new(
            len,
            |p: int|
                if o.contains(piece_of(chunk, p)) {
                    body[p]
                } else {
                    data[h + p]
                },
        );
    if order.len() == 0 {
        assert(data =~= staged(order)) by {
            assert forall|q: int| 0 <= q < data.len() implies data[q] == staged(order)[q] by {
                if q >= h {
                    assert(!order.contains(piece_of(chunk, q - h)));
                }
            }
        }
    } else {
        let prev_order = order.drop_last();
        assert forall|k: int| 0 <= k < prev_order.len() implies 0 <= #[trigger] prev_order[k]
            < piece_count(len, chunk) by {
            assert(prev_order[k] == order[k]);
        }
        lemma_land_writes_bytes(data, body, chunk, prev_order);
        let prev = land_writes(data, body, chunk, prev_order);
        let i = order.last();
        assert(0 <= i < piece_count(len, chunk)) by {
            assert(order[order.len() - 1] == i);
        }
        lemma_write_body_piece(body, chunk, i);
        let payload = write_body_payload(body, chunk, i);
        let piece = body_piece(body, chunk, i);
        let at = h + i * chunk;
        let cur = land_writes(data, body, chunk, order);
        assert(cur == splice(prev, at, piece));
        assert(cur =~= staged(order)) by {
            assert forall|q: int| 0 <= q < data.len() implies cur[q] == staged(order)[q] by {
                if q >= h {
                    let p = q - h;
                    let x = piece_of(chunk, p);
                    assert(order.contains(x) <==> prev_order.contains(x) || x == i) by {
                        if prev_order.contains(x) {
                            let k = choose|k: int| 0 <= k < prev_order.len() && prev_order[k] == x;
                            assert(order[k] == x);
                        }
                        if x == i {
                            assert(order[order.len() - 1] == x);
                        }
                        if order.contains(x) {
                            let k = choose|k: int| 0 <= k < order.len() && order[k] == x;
                            if k < order.len() - 1 {
                                assert(prev_order[k] == x);
                            }
                        }
                    }
                    assert(lands_on(body, chunk, i, p) <==> x == i);
                    if x == i {
                        assert(lands_on(body, chunk, i, p));
                        assert(i * chunk <= p < i * chunk + piece.len());
                        lemma_piece_starts_inside(len, chunk, i);
                        let end = if (i + 1) * chunk <= len {
                            (i + 1) * chunk
                        } else {
                            len as int
                        };
                        assert(piece == body.subrange(i * chunk, end));
                        assert(piece[p - i * chunk] == body[i * chunk + (p - i * chunk)]);
                    }
                }
            }
        }
    }
}

/// `Write`s land in any order: once every `Write` of [`write_body`] has
/// landed, each at least once and in whatever order (`order` lists the
/// `Write`s by number as they land), the staging account holds exactly the
/// body behind its untouched header.
pub proof fn lemma_write_body_any_order(data: Seq<u8>, body: Seq<u8>, chunk: nat, order: Seq<int>)
    requires
        chunk > 0,
        body.len() <= u32::MAX,
        data.len() == STAGING_HEADER_LEN + body.len(),
        forall|k: int| 0 <= k < order.len() ==> 0 <= #[trigger] order[k] < piece_count(
            body.len(),
            chunk,
        ),
        forall|i: int| 0 <= i < piece_count(body.len(), chunk) ==> #[trigger] order.contains(i),
    ensures
        land_writes(data, body, chunk, order) == data.take(STAGING_HEADER_LEN as int) + body,
{
    let len = body.len();
    lemma_land_writes_bytes(data, body, chunk, order);
    lemma_write_body_partitions_body(body, chunk);
    let staged = Seq::new(
        len,
        |p: int|
            if order.contains(piece_of(chunk, p)) {
                body[p]
            } else {
                data[STAGING_HEADER_LEN + p]
            },
    );
    assert forall|p: int| 0 <= p < len implies staged[p] == body[p] by {
        assert(0 <= piece_of(chunk, p) < piece_count(len, chunk));
        assert(order.contains(piece_of(chunk, p)));
    }
    assert(staged =~= body);
}

} // verus!
