use solana_address::Address;
use solana_groth16_verify::constants::{staging_account_len, PROOF_SIZE};
use solana_groth16_verify::instruction::{
    close_staging, create_staging, find_key_address, initialize_staging, publish,
    try_find_key_address, verify, vk_hash, write_body, AccountMeta, ID, SYSTEM_PROGRAM_ID,
};
use solana_groth16_verify::Tag;

const PROGRAM: [u8; 32] = ID;
const AUTHORITY: [u8; 32] = [1u8; 32];
const PAYER: [u8; 32] = [2u8; 32];
const STAGING: [u8; 32] = [3u8; 32];
const KEY: [u8; 32] = [4u8; 32];

fn meta(pubkey: [u8; 32], is_signer: bool, is_writable: bool) -> AccountMeta {
    AccountMeta { pubkey, is_signer, is_writable }
}

#[test]
fn program_id_is_the_declared_address() {
    assert_eq!(ID[..4], [0xeb, 0x86, 0x5d, 0x0c]);
    assert_ne!(ID, SYSTEM_PROGRAM_ID);
    assert_eq!(SYSTEM_PROGRAM_ID, [0u8; 32]);
}

#[test]
fn vk_hash_is_sha256() {
    assert_eq!(
        vk_hash(b""),
        [
            0xe3, 0xb0, 0xc4, 0x42, 0x98, 0xfc, 0x1c, 0x14, 0x9a, 0xfb, 0xf4, 0xc8, 0x99, 0x6f,
            0xb9, 0x24, 0x27, 0xae, 0x41, 0xe4, 0x64, 0x9b, 0x93, 0x4c, 0xa4, 0x95, 0x99, 0x1b,
            0x78, 0x52, 0xb8, 0x55
        ]
    );
    assert_eq!(
        vk_hash(b"abc")[..4],
        [0xba, 0x78, 0x16, 0xbf]
    );
}

#[test]
fn key_address_matches_the_runtime_derivation() {
    let hash = vk_hash(&[5u8; 512]);
    let (address, bump) = find_key_address(&PROGRAM, &hash);
    let (expected, expected_bump) =
        Address::find_program_address(&[b"vk", &hash], &Address::new_from_array(PROGRAM));
    assert_eq!(address, expected.to_bytes());
    assert_eq!(bump, expected_bump);
    assert_ne!(address, hash);
    assert_eq!(try_find_key_address(&PROGRAM, &hash), Some((address, bump)));
    // A different key body, a different address.
    let (other, _) = find_key_address(&PROGRAM, &vk_hash(&[6u8; 512]));
    assert_ne!(other, address);
}

#[test]
fn builders_lay_out_data_and_accounts() {
    let init = initialize_staging(&PROGRAM, &AUTHORITY, &STAGING, 0x0102);
    assert_eq!(init.program_id, PROGRAM);
    assert_eq!(init.data, vec![Tag::InitializeStaging.to_u8(), 0x02, 0x01]);
    assert_eq!(init.accounts, vec![meta(AUTHORITY, true, false), meta(STAGING, false, true)]);

    let w = solana_groth16_verify::instruction::write(&PROGRAM, &AUTHORITY, &STAGING, 0x0a0b0c0d, &[9, 8]);
    assert_eq!(w.data, vec![1, 0x0d, 0x0c, 0x0b, 0x0a, 9, 8]);
    assert_eq!(w.accounts, vec![meta(AUTHORITY, true, false), meta(STAGING, false, true)]);

    let p = publish(&PROGRAM, &AUTHORITY, &PAYER, &STAGING, &KEY);
    assert_eq!(p.data, vec![2]);
    assert_eq!(
        p.accounts,
        vec![
            meta(AUTHORITY, true, true),
            meta(PAYER, true, true),
            meta(STAGING, false, true),
            meta(KEY, false, true),
            meta(SYSTEM_PROGRAM_ID, false, false),
        ]
    );

    let proof = [7u8; PROOF_SIZE];
    let v = verify(&PROGRAM, &KEY, &proof, &[[1u8; 32], [2u8; 32]]);
    assert_eq!(v.data.len(), 1 + PROOF_SIZE + 64);
    assert_eq!(v.data[0], 3);
    assert_eq!(&v.data[1..1 + PROOF_SIZE], &proof[..]);
    assert_eq!(&v.data[1 + PROOF_SIZE..1 + PROOF_SIZE + 32], &[1u8; 32]);
    assert_eq!(&v.data[1 + PROOF_SIZE + 32..], &[2u8; 32]);
    assert_eq!(v.accounts, vec![meta(KEY, false, false)]);

    let c = close_staging(&PROGRAM, &AUTHORITY, &STAGING);
    assert_eq!(c.data, vec![4]);
    assert_eq!(c.accounts, vec![meta(AUTHORITY, true, true), meta(STAGING, false, true)]);
}

#[test]
fn create_staging_pairs_create_account_with_initialize() {
    let [create, init] = create_staging(&PROGRAM, &PAYER, &AUTHORITY, &STAGING, 3, 0x1122);
    assert_eq!(create.program_id, SYSTEM_PROGRAM_ID);
    let mut expected = vec![0u8, 0, 0, 0];
    expected.extend_from_slice(&0x1122u64.to_le_bytes());
    expected.extend_from_slice(&(staging_account_len(3) as u64).to_le_bytes());
    expected.extend_from_slice(&PROGRAM);
    assert_eq!(create.data, expected);
    assert_eq!(create.accounts, vec![meta(PAYER, true, true), meta(STAGING, true, true)]);
    assert_eq!(init, initialize_staging(&PROGRAM, &AUTHORITY, &STAGING, 3));
}

#[test]
fn write_body_cuts_the_body_in_order() {
    let body: Vec<u8> = (0..250u16).map(|i| i as u8).collect();
    let writes = write_body(&PROGRAM, &AUTHORITY, &STAGING, &body, 100);
    assert_eq!(writes.len(), 3);
    let mut rebuilt = vec![0u8; body.len()];
    for w in &writes {
        assert_eq!(w.data[0], 1);
        let offset = u32::from_le_bytes(w.data[1..5].try_into().unwrap()) as usize;
        let piece = &w.data[5..];
        rebuilt[offset..offset + piece.len()].copy_from_slice(piece);
    }
    assert_eq!(rebuilt, body);
    assert_eq!(writes[2].data.len(), 5 + 50);
    assert!(write_body(&PROGRAM, &AUTHORITY, &STAGING, &[], 10).is_empty());
    assert_eq!(write_body(&PROGRAM, &AUTHORITY, &STAGING, &body, 250).len(), 1);
}

#[test]
fn tags_round_trip() {
    for byte in 0u8..=4 {
        assert_eq!(Tag::from_u8(byte).unwrap().to_u8(), byte);
    }
    assert_eq!(Tag::from_u8(5), None);
    assert_eq!(Tag::from_u8(3), Some(Tag::Verify));
}

#[test]
fn vk_hash_is_the_on_chain_hash() {
    for body in [&b""[..], &b"abc"[..], &[5u8; 512][..]] {
        assert_eq!(vk_hash(body), solana_sha256_hasher::hashv(&[body]).to_bytes());
    }
}
