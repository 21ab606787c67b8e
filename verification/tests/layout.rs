use solana_groth16_verify::constants::{
    key_account_len, staging_account_len, vk_body_len, FR_MODULUS, FR_SIZE, G1_SIZE, G2_SIZE,
    MAX_PUBLIC_INPUTS, PROOF_SIZE, VK_FIXED_SIZE, VK_IC_OFFSET,
};
use solana_groth16_verify::scalar::{is_canonical, is_one, is_zero};
use solana_groth16_verify::state::{
    read_key_account, read_staging_account, staging_body_mut, write_key_header,
    write_staging_header, KeyHeader, StagingHeader, DISCRIMINATOR_STAGING,
};
use solana_groth16_verify::{Groth16Error, Proof, VerifyingKey};

fn set_n(data: &mut [u8], n: usize) {
    data[2..4].copy_from_slice(&(n as u16).to_le_bytes());
}

#[test]
fn views_alias_the_expected_ranges() {
    let bytes: Vec<u8> = (0..PROOF_SIZE as u16).map(|i| i as u8).collect();
    let proof = Proof::from_bytes(&bytes).unwrap();
    assert_eq!(&proof.a()[..], &bytes[..G1_SIZE]);
    assert_eq!(&proof.b()[..], &bytes[G1_SIZE..G1_SIZE + G2_SIZE]);
    assert_eq!(&proof.c()[..], &bytes[G1_SIZE + G2_SIZE..]);
    assert_eq!(&proof.a_b()[..], &bytes[..G1_SIZE + G2_SIZE]);
    assert_eq!(proof.as_bytes().len(), PROOF_SIZE);
}

#[test]
fn length_is_exact_and_split_returns_the_rest() {
    assert_eq!(
        Proof::from_bytes(&[0u8; PROOF_SIZE - 1]).err(),
        Some(Groth16Error::InvalidProofLength)
    );
    assert_eq!(
        Proof::from_bytes(&[0u8; PROOF_SIZE + 1]).err(),
        Some(Groth16Error::InvalidProofLength)
    );
    let mut bytes = vec![0u8; PROOF_SIZE + 3];
    bytes[PROOF_SIZE..].copy_from_slice(&[7, 8, 9]);
    let (_, rest) = Proof::split_from(&bytes).unwrap();
    assert_eq!(rest, &[7, 8, 9]);
    assert_eq!(
        Proof::split_from(&bytes[..PROOF_SIZE - 1]).err(),
        Some(Groth16Error::InvalidProofLength)
    );
}

#[test]
fn split_keeps_the_proof_bytes() {
    let bytes: Vec<u8> = (0..PROOF_SIZE as u16 + 5).map(|i| (i * 3) as u8).collect();
    let (proof, rest) = Proof::split_from(&bytes).unwrap();
    assert_eq!(&proof.as_bytes()[..], &bytes[..PROOF_SIZE]);
    assert_eq!(rest.len(), 5);
    let (_, empty) = Proof::split_from(&bytes[..PROOF_SIZE]).unwrap();
    assert!(empty.is_empty());
}

#[test]
fn modulus_boundary() {
    assert!(!is_canonical(&FR_MODULUS));
    let mut below = FR_MODULUS;
    below[FR_SIZE - 1] -= 1;
    assert!(is_canonical(&below));
    assert!(is_canonical(&[0u8; FR_SIZE]));
    assert!(!is_canonical(&[0xff; FR_SIZE]));
}

#[test]
fn canonical_order_is_decided_at_the_first_differing_byte() {
    // Larger in a late byte but smaller in an earlier one: still below r.
    let mut s = FR_MODULUS;
    s[0] -= 1;
    s[31] = 0xff;
    assert!(is_canonical(&s));
    // Equal prefix, larger later byte: above r.
    let mut t = FR_MODULUS;
    t[20] += 1;
    assert!(!is_canonical(&t));
}

#[test]
fn zero_and_one() {
    let zero = [0u8; FR_SIZE];
    let mut one = [0u8; FR_SIZE];
    one[FR_SIZE - 1] = 1;
    let mut two = one;
    two[FR_SIZE - 1] = 2;
    let mut high_one = [0u8; FR_SIZE];
    high_one[0] = 1;
    assert!(is_zero(&zero) && !is_one(&zero));
    assert!(is_one(&one) && !is_zero(&one));
    assert!(!is_one(&two) && !is_one(&high_one));
}

#[test]
fn is_zero_on_points() {
    assert!(is_zero(&[0u8; G1_SIZE]));
    assert!(is_zero(&[0u8; G2_SIZE]));
    let mut p = [0u8; G2_SIZE];
    p[G2_SIZE - 1] = 1;
    assert!(!is_zero(&p));
}

#[test]
fn key_header_round_trip() {
    let n = 3;
    let mut data = vec![0u8; key_account_len(n)];
    write_key_header(
        &mut data,
        KeyHeader {
            bump: 254,
            num_public_inputs: n,
        },
    );
    let (h, vk) = read_key_account(&data).unwrap();
    assert_eq!(h.bump, 254);
    assert_eq!(h.num_public_inputs, n);
    assert_eq!(vk.num_public_inputs(), n);

    // Declared n disagreeing with the length is rejected.
    set_n(&mut data, n + 1);
    assert_eq!(
        read_key_account(&data).err(),
        Some(Groth16Error::InvalidKeyLength)
    );

    // Wrong discriminator.
    set_n(&mut data, n);
    data[0] = DISCRIMINATOR_STAGING;
    assert_eq!(
        read_key_account(&data).err(),
        Some(Groth16Error::WrongDiscriminator)
    );
}

#[test]
fn key_account_errors() {
    assert_eq!(
        read_key_account(&[1u8; 7]).err(),
        Some(Groth16Error::InvalidAccountData)
    );
    let mut data = vec![0u8; key_account_len(1)];
    write_key_header(&mut data, KeyHeader { bump: 1, num_public_inputs: 1 });
    set_n(&mut data, MAX_PUBLIC_INPUTS + 1);
    assert_eq!(
        read_key_account(&data).err(),
        Some(Groth16Error::TooManyPublicInputs)
    );
    // The header bytes written are exactly disc, bump, n LE, zeros.
    let mut fresh = vec![0xaau8; key_account_len(2)];
    write_key_header(&mut fresh, KeyHeader { bump: 7, num_public_inputs: 258 });
    assert_eq!(&fresh[..8], &[1, 7, 2, 1, 0, 0, 0, 0]);
    assert!(fresh[8..].iter().all(|&b| b == 0xaa));
}

#[test]
fn staging_header_round_trip() {
    let n = 5;
    let mut data = vec![0u8; staging_account_len(n)];
    let authority = [7u8; 32];
    write_staging_header(
        &mut data,
        StagingHeader {
            num_public_inputs: n,
            authority,
        },
    );
    let (h, body) = read_staging_account(&data).unwrap();
    assert_eq!(h.authority, authority);
    assert_eq!(h.num_public_inputs, n);
    assert_eq!(body.len(), vk_body_len(n));
    assert_eq!(staging_body_mut(&mut data).unwrap().len(), vk_body_len(n));

    let mut short = data.clone();
    short.pop();
    assert_eq!(
        read_staging_account(&short).err(),
        Some(Groth16Error::InvalidAccountData)
    );
}

#[test]
fn staging_account_errors_and_body_writes() {
    assert_eq!(
        read_staging_account(&[2u8; 39]).err(),
        Some(Groth16Error::InvalidAccountData)
    );
    let mut data = vec![0u8; staging_account_len(0)];
    assert_eq!(
        read_staging_account(&data).err(),
        Some(Groth16Error::WrongDiscriminator)
    );
    assert_eq!(
        staging_body_mut(&mut data).err(),
        Some(Groth16Error::WrongDiscriminator)
    );
    assert_eq!(
        staging_body_mut(&mut [0u8; 10]).err(),
        Some(Groth16Error::InvalidAccountData)
    );
    write_staging_header(&mut data, StagingHeader { num_public_inputs: 0, authority: [9u8; 32] });
    {
        let body = staging_body_mut(&mut data).unwrap();
        body[0] = 0x55;
    }
    assert_eq!(data[40], 0x55);
    assert_eq!(data[0], 2);
    assert_eq!(&data[8..40], &[9u8; 32]);
}

#[test]
fn length_inference() {
    for n in [0usize, 1, 7, MAX_PUBLIC_INPUTS] {
        let body = alloc_body(n);
        let vk = VerifyingKey::from_body(&body).unwrap();
        assert_eq!(vk.num_public_inputs(), n);
        assert_eq!(vk.ic_table().len(), G1_SIZE * (n + 1));
        VerifyingKey::from_body_with_len(&body, n).unwrap();
        assert_eq!(
            VerifyingKey::from_body_with_len(&body, n + 1).err(),
            Some(if n + 1 > MAX_PUBLIC_INPUTS {
                Groth16Error::TooManyPublicInputs
            } else {
                Groth16Error::InvalidKeyLength
            })
        );
    }
    // No IC₀ at all.
    assert_eq!(
        VerifyingKey::from_body(&[0u8; VK_FIXED_SIZE]).err(),
        Some(Groth16Error::InvalidKeyLength)
    );
    // Off by one.
    assert_eq!(
        VerifyingKey::from_body(&alloc_body(1)[..vk_body_len(1) - 1]).err(),
        Some(Groth16Error::InvalidKeyLength)
    );
    // One past the maximum.
    assert_eq!(
        VerifyingKey::from_body(&alloc_body(MAX_PUBLIC_INPUTS + 1)).err(),
        Some(Groth16Error::InvalidKeyLength)
    );
}

#[test]
fn slot_views_alias_the_body() {
    let mut body = alloc_body(2);
    for (i, b) in body.iter_mut().enumerate() {
        *b = i as u8;
    }
    let vk = VerifyingKey::from_body(&body).unwrap();
    assert_eq!(&vk.alpha_neg_beta()[..G1_SIZE], &vk.alpha()[..]);
    assert_eq!(&vk.alpha_neg_beta()[G1_SIZE..], &vk.neg_beta()[..]);
    assert_eq!(&vk.ic(0)[..], &body[VK_IC_OFFSET..VK_IC_OFFSET + G1_SIZE]);
    assert_eq!(
        &vk.ic(2)[..],
        &body[VK_IC_OFFSET + 2 * G1_SIZE..VK_IC_OFFSET + 3 * G1_SIZE]
    );
}

#[test]
fn account_sizes() {
    assert_eq!(vk_body_len(0), 512);
    assert_eq!(key_account_len(1), 456 + 64 * 2);
    assert_eq!(staging_account_len(1), 40 + 448 + 128);
    // The largest key still fits the 10,240-byte growth limit; one more does not.
    assert_eq!(key_account_len(MAX_PUBLIC_INPUTS), 10_184);
    assert!(key_account_len(MAX_PUBLIC_INPUTS) <= 10_240);
    assert!(key_account_len(MAX_PUBLIC_INPUTS + 1) > 10_240);
}

fn alloc_body(n: usize) -> Vec<u8> {
    vec![0u8; vk_body_len(n)]
}
