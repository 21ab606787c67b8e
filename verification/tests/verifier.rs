//! The identity cases on the host path: the G1 operations encode the
//! identity as all-zero bytes; each case pins that the MSM and the pairing
//! handle it where it can arise. Plus full verifications of proofs built from
//! known discrete logarithms.
use ark_bn254::{Fq, Fr, G1Affine, G2Affine};
use ark_ec::{AffineRepr, CurveGroup};
use ark_ff::{BigInteger, PrimeField};
use solana_groth16_verify::constants::{g1_identity, G1_SIZE, PROOF_SIZE};
use solana_groth16_verify::groth16_verifier::{
    assemble_pairing_input, check_pairing, prepare_inputs, verify,
};
use solana_groth16_verify::{Groth16Error, Proof, VerifyingKey};

fn fq_be(x: &Fq) -> [u8; 32] {
    x.into_bigint().to_bytes_be().try_into().unwrap()
}

fn g1_to_bytes(p: &G1Affine) -> [u8; 64] {
    let mut out = [0u8; 64];
    if p.is_zero() {
        return out;
    }
    out[..32].copy_from_slice(&fq_be(&p.x));
    out[32..].copy_from_slice(&fq_be(&p.y));
    out
}

fn g2_to_bytes(p: &G2Affine) -> [u8; 128] {
    let mut out = [0u8; 128];
    if p.is_zero() {
        return out;
    }
    out[..32].copy_from_slice(&fq_be(&p.x.c1));
    out[32..64].copy_from_slice(&fq_be(&p.x.c0));
    out[64..96].copy_from_slice(&fq_be(&p.y.c1));
    out[96..].copy_from_slice(&fq_be(&p.y.c0));
    out
}

fn fr_to_bytes(s: &Fr) -> [u8; 32] {
    s.into_bigint().to_bytes_be().try_into().unwrap()
}

fn g1(k: u64) -> G1Affine {
    G1Affine::generator().mul_bigint([k]).into_affine()
}

fn g2(k: u64) -> G2Affine {
    G2Affine::generator().mul_bigint([k]).into_affine()
}

/// A key body `α ‖ −β ‖ −γ ‖ −δ ‖ IC…`.
fn key_body(alpha: &G1Affine, beta: &G2Affine, gamma: &G2Affine, delta: &G2Affine, ic: &[G1Affine]) -> Vec<u8> {
    let mut body = Vec::new();
    body.extend_from_slice(&g1_to_bytes(alpha));
    body.extend_from_slice(&g2_to_bytes(&-*beta));
    body.extend_from_slice(&g2_to_bytes(&-*gamma));
    body.extend_from_slice(&g2_to_bytes(&-*delta));
    for p in ic {
        body.extend_from_slice(&g1_to_bytes(p));
    }
    body
}

/// A key with fixed non-identity `α, β, γ, δ` and the given `IC` table.
fn make_key(ic: &[G1Affine]) -> Vec<u8> {
    key_body(&g1(3), &g2(5), &g2(7), &g2(11), ic)
}

fn proof_bytes(a: &G1Affine, b: &G2Affine, c: &G1Affine) -> [u8; PROOF_SIZE] {
    let mut out = [0u8; PROOF_SIZE];
    out[..64].copy_from_slice(&g1_to_bytes(a));
    out[64..192].copy_from_slice(&g2_to_bytes(b));
    out[192..].copy_from_slice(&g1_to_bytes(c));
    out
}

fn inputs(scalars: &[u64]) -> Vec<u8> {
    scalars
        .iter()
        .flat_map(|&s| fr_to_bytes(&Fr::from(s)))
        .collect()
}

fn l(key: &[u8], scalars: &[u64]) -> [u8; G1_SIZE] {
    let vk = VerifyingKey::from_body(key).unwrap();
    prepare_inputs(&vk, &inputs(scalars)).unwrap()
}

#[test]
fn final_l_is_identity_by_cancellation() {
    // IC₀ = P, IC₁ = Q, IC₂ = −(P+Q); inputs 1, 1 → L = O.
    let p = g1(2);
    let q = g1(9);
    let neg_sum = -(p + q).into_affine();
    let key = make_key(&[p, q, neg_sum]);
    assert_eq!(l(&key, &[1, 1]), g1_identity());
    // Same with a real multiplication in the way: IC₁ = Q with input 2,
    // IC₂ = −(P+2Q) with input 1.
    let key = make_key(&[p, q, -(p + q + q).into_affine()]);
    assert_eq!(l(&key, &[2, 1]), g1_identity());
}

#[test]
fn final_l_is_identity_from_identity_ic0_and_zero_inputs() {
    let key = make_key(&[G1Affine::identity(), g1(4), g1(6)]);
    assert_eq!(l(&key, &[0, 0]), g1_identity());
    // And with IC₀ = O but nonzero inputs, L is the plain sum.
    assert_eq!(l(&key, &[1, 1]), g1_to_bytes(&(g1(4) + g1(6)).into_affine()));
}

#[test]
fn intermediate_identity_with_nonzero_final_l() {
    // IC₀ = P, IC₁ = −P, IC₂ = Q; inputs 1, 1: the accumulator passes
    // through O after the first add and must come out as Q.
    let p = g1(13);
    let q = g1(17);
    let key = make_key(&[p, -p, q]);
    assert_eq!(l(&key, &[1, 1]), g1_to_bytes(&q));
}

#[test]
fn identity_ic_terms_are_skipped_or_added_harmlessly() {
    // An identity ICᵢ contributes nothing whatever its input; the
    // multiplication must accept the identity as a base point.
    let p = g1(21);
    let key = make_key(&[p, G1Affine::identity()]);
    assert_eq!(l(&key, &[1]), g1_to_bytes(&p));
    assert_eq!(l(&key, &[5]), g1_to_bytes(&p));
}

#[test]
fn pairing_accepts_an_identity_l_and_rejects_the_proof() {
    // With L = O the equation cannot hold for a random proof, but the
    // failure must be ProofInvalid — the pairing decoded the identity in
    // slot 2 — not InvalidPoint.
    let key = make_key(&[G1Affine::identity(), g1(4)]);
    let vk = VerifyingKey::from_body(&key).unwrap();
    let proof_bytes = proof_bytes(&g1(23), &g2(29), &g1(31));
    let proof = Proof::from_bytes(&proof_bytes).unwrap();
    assert_eq!(
        verify(&vk, &proof, &inputs(&[0])),
        Err(Groth16Error::ProofInvalid)
    );
    // Sanity: the same proof with L ≠ O fails the same way, and an
    // off-curve A fails differently.
    assert_eq!(
        verify(&vk, &proof, &inputs(&[1])),
        Err(Groth16Error::ProofInvalid)
    );
    let mut bad = proof_bytes;
    bad[63] ^= 1;
    assert_eq!(
        verify(&vk, &Proof::from_bytes(&bad).unwrap(), &inputs(&[0])),
        Err(Groth16Error::InvalidPoint)
    );
}

/// A key and a proof that satisfy `e(A,B) = e(α,β)·e(L,γ)·e(C,δ)` for the
/// given inputs, built from known discrete logarithms.
pub fn satisfied_instance(xs: &[u64]) -> (Vec<u8>, [u8; PROOF_SIZE]) {
    let (a, b, c, d) = (Fr::from(3u64), Fr::from(5u64), Fr::from(7u64), Fr::from(11u64));
    let us: Vec<Fr> = (0..=xs.len()).map(|i| Fr::from(100u64 + 13 * i as u64)).collect();
    let ic: Vec<G1Affine> = us
        .iter()
        .map(|u| (G1Affine::generator() * u).into_affine())
        .collect();
    let mut lsc = us[0];
    for (i, x) in xs.iter().enumerate() {
        lsc += Fr::from(*x) * us[i + 1];
    }
    let cc = Fr::from(17u64);
    // A·1 = a·b + l·c + cc·d with B = the G2 generator.
    let a_scalar = a * b + lsc * c + cc * d;
    let gen1 = G1Affine::generator();
    let gen2 = G2Affine::generator();
    let body = key_body(
        &(gen1 * a).into_affine(),
        &(gen2 * b).into_affine(),
        &(gen2 * c).into_affine(),
        &(gen2 * d).into_affine(),
        &ic,
    );
    let proof = proof_bytes(&(gen1 * a_scalar).into_affine(), &gen2, &(gen1 * cc).into_affine());
    (body, proof)
}

#[test]
fn a_satisfied_equation_verifies_and_wrong_inputs_do_not() {
    let xs = [0u64, 1, 2, 123456789];
    let (body, proof_bytes) = satisfied_instance(&xs);
    let vk = VerifyingKey::from_body(&body).unwrap();
    let proof = Proof::from_bytes(&proof_bytes).unwrap();
    assert_eq!(verify(&vk, &proof, &inputs(&xs)), Ok(()));
    assert_eq!(vk.validate_for_publish(), Ok(()));
    // Staged the same way by hand.
    let l = prepare_inputs(&vk, &inputs(&xs)).unwrap();
    let input = assemble_pairing_input(&vk, &proof, &l);
    assert_eq!(&input[..192], &proof_bytes[..192]);
    assert_eq!(&input[192..384], &body[..192]);
    assert_eq!(&input[384..448], &l[..]);
    assert_eq!(check_pairing(&input), Ok(()));
    // Any other input vector fails the equation.
    assert_eq!(
        verify(&vk, &proof, &inputs(&[0, 1, 2, 123456788])),
        Err(Groth16Error::ProofInvalid)
    );
}

#[test]
fn input_errors_come_before_any_group_operation() {
    let (body, proof_bytes) = satisfied_instance(&[1, 2]);
    let vk = VerifyingKey::from_body(&body).unwrap();
    let proof = Proof::from_bytes(&proof_bytes).unwrap();
    assert_eq!(
        verify(&vk, &proof, &inputs(&[1])),
        Err(Groth16Error::PublicInputCountMismatch)
    );
    let mut bad = inputs(&[1, 2]);
    bad[32..].copy_from_slice(&solana_groth16_verify::constants::FR_MODULUS);
    assert_eq!(
        verify(&vk, &proof, &bad),
        Err(Groth16Error::NonCanonicalScalar)
    );
}

#[test]
fn validation_rejects_identity_key_elements_and_bad_points() {
    let (body, _) = satisfied_instance(&[1]);
    let mut no_gamma = body.clone();
    no_gamma[192..320].fill(0);
    let vk = VerifyingKey::from_body(&no_gamma).unwrap();
    assert_eq!(vk.validate_for_publish(), Err(Groth16Error::IdentityKeyElement));
    // An identity IC is accepted.
    let mut zero_ic = body.clone();
    zero_ic[448..512].fill(0);
    assert_eq!(VerifyingKey::from_body(&zero_ic).unwrap().validate_for_publish(), Ok(()));
    // An off-curve IC₁ is not.
    let mut off = body.clone();
    off[575] ^= 1;
    assert_eq!(
        VerifyingKey::from_body(&off).unwrap().validate_for_publish(),
        Err(Groth16Error::InvalidPoint)
    );
}
