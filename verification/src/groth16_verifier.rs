//! The verification itself, split into stages: public-input preparation (the
//! MSM), pairing-input assembly, and the pairing check. [`verify`] runs all
//! three.
//!
//! The equation checked is
//!
//! ```text
//! e(A, B) · e(α, −β) · e(L, −γ) · e(C, −δ) = 1,    L = IC₀ + Σᵢ aᵢ·ICᵢ
//! ```
//!
//! with the G2 negations pre-applied in the key, so this module performs no
//! field arithmetic of its own — only the group operations and byte copies.
use vstd::prelude::*;

use crate::constants::{
    FR_SIZE, G1_SIZE, G2_SIZE, PAIRING_ELEMENT_SIZE, PAIRING_INPUT_SIZE, PAIRING_SLOT_AB_OFFSET,
    PAIRING_SLOT_ALPHA_BETA_OFFSET, PAIRING_SLOT_C_OFFSET, PAIRING_SLOT_DELTA_OFFSET,
    PAIRING_SLOT_GAMMA_OFFSET, PAIRING_SLOT_L_OFFSET, VK_FIXED_SIZE, VK_NEG_DELTA_OFFSET,
    VK_NEG_GAMMA_OFFSET,
};
use crate::error::Groth16Error;
use crate::groth16_proof::{fixed, Proof};
use crate::scalar::{
    all_zero, be_nat, is_be_one, is_canonical, is_one, is_zero, lemma_all_zero_is_zero,
    lemma_be_one_is_one, spec_is_canonical,
};
use crate::syscall::{
    bn254_pairing, copy_into, g1_add, g1_mul, pairing_is_one, spec_g1_add, spec_g1_mul,
};
use crate::verifying_key::{ic_point, VerifyingKey};

verus! {

/// The `i`-th 32-byte public input.
pub open spec fn input_scalar(inputs: Seq<u8>, i: int) -> Seq<u8> {
    inputs.subrange(FR_SIZE * i, FR_SIZE * (i + 1))
}

/// One accumulation step of `L`: a zero input contributes nothing, an input
/// of one adds `ICᵢ` directly, any other input adds `aᵢ·ICᵢ`.
pub open spec fn msm_step(acc: Option<Seq<u8>>, ic: Seq<u8>, s: Seq<u8>) -> Option<Seq<u8>> {
    match acc {
        None => None,
        Some(a) => if all_zero(s) {
            Some(a)
        } else if is_be_one(s) {
            spec_g1_add(a, ic)
        } else {
            match spec_g1_mul(ic, s) {
                None => None,
                Some(t) => spec_g1_add(a, t),
            }
        },
    }
}

/// `IC₀ + Σ_{i<k} aᵢ·IC_{i+1}`, accumulated in input order; `None` once a
/// group operation fails.
pub open spec fn linear_combination(body: Seq<u8>, inputs: Seq<u8>, k: nat) -> Option<Seq<u8>>
    decreases k,
{
    if k == 0 {
        Some(ic_point(body, 0))
    } else {
        msm_step(
            linear_combination(body, inputs, (k - 1) as nat),
            ic_point(body, k as int),
            input_scalar(inputs, k - 1),
        )
    }
}

/// Every one of the first `n` inputs is below the modulus.
pub open spec fn all_canonical(inputs: Seq<u8>, n: nat) -> bool {
    forall|i: int| 0 <= i < n ==> #[trigger] spec_is_canonical(input_scalar(inputs, i))
}

/// What preparing the public inputs yields for a key body with `n` inputs.
pub open spec fn spec_prepare_inputs(body: Seq<u8>, n: nat, inputs: Seq<u8>) -> Result<
    Seq<u8>,
    Groth16Error,
> {
    if inputs.len() != n * FR_SIZE {
        Err(Groth16Error::PublicInputCountMismatch)
    } else if !all_canonical(inputs, n) {
        Err(Groth16Error::NonCanonicalScalar)
    } else {
        match linear_combination(body, inputs, n) {
            Some(l) => Ok(l),
            None => Err(Groth16Error::InvalidPoint),
        }
    }
}

/// The four pairing slots: `A ‖ B`, `α ‖ −β`, `L ‖ −γ`, `C ‖ −δ`.
pub open spec fn pairing_layout(body: Seq<u8>, proof: Seq<u8>, l: Seq<u8>) -> Seq<u8> {
    proof.subrange(0, PAIRING_ELEMENT_SIZE as int) + body.subrange(
        0,
        PAIRING_ELEMENT_SIZE as int,
    ) + l + body.subrange(VK_NEG_GAMMA_OFFSET as int, VK_NEG_GAMMA_OFFSET + G2_SIZE)
        + proof.subrange(PAIRING_ELEMENT_SIZE as int, PAIRING_ELEMENT_SIZE + G1_SIZE)
        + body.subrange(VK_NEG_DELTA_OFFSET as int, VK_NEG_DELTA_OFFSET + G2_SIZE)
}

/// The outcome of the pairing check on an assembled input.
pub open spec fn spec_check_pairing(input: Seq<u8>) -> Result<(), Groth16Error> {
    match bn254_pairing(input) {
        None => Err(Groth16Error::InvalidPoint),
        Some(out) => if is_be_one(out) {
            Ok(())
        } else {
            Err(Groth16Error::ProofInvalid)
        },
    }
}

/// The outcome of verifying `proof` for `inputs` against a key body.
pub open spec fn spec_verify(body: Seq<u8>, n: nat, proof: Seq<u8>, inputs: Seq<u8>) -> Result<
    (),
    Groth16Error,
> {
    match spec_prepare_inputs(body, n, inputs) {
        Err(e) => Err(e),
        Ok(l) => spec_check_pairing(pairing_layout(body, proof, l)),
    }
}

/// Once the accumulation has failed it stays failed.
proof fn lemma_failure_persists(body: Seq<u8>, inputs: Seq<u8>, k: nat, n: nat)
    requires
        k <= n,
        linear_combination(body, inputs, k) is None,
    ensures
        linear_combination(body, inputs, n) is None,
    decreases n - k,
{
    if k < n {
        lemma_failure_persists(body, inputs, k + 1, n);
    }
}

/// Verifies `proof` against `vk` for `public_inputs` (`n × 32` big-endian
/// canonical scalars, no leading constant-one term). `Ok(())` means the proof
/// verifies.
pub fn verify(vk: &VerifyingKey, proof: &Proof, public_inputs: &[u8]) -> (r: Result<
    (),
    Groth16Error,
>)
    ensures
        r == spec_verify(vk.body_bytes(), vk.public_input_count(), proof@, public_inputs@),
{
    let l = prepare_inputs(vk, public_inputs)?;
    let input = assemble_pairing_input(vk, proof, &l);
    check_pairing(&input)
}

/// Stage 1: `L = IC₀ + Σᵢ aᵢ·ICᵢ`.
///
/// Checks the input count and every scalar's canonicity before any group
/// operation. Inputs equal to `0` are skipped entirely; inputs equal to `1`
/// skip the multiplication.
pub fn prepare_inputs(vk: &VerifyingKey, public_inputs: &[u8]) -> (r: Result<
    [u8; G1_SIZE],
    Groth16Error,
>)
    ensures
        match r {
            Ok(l) => spec_prepare_inputs(vk.body_bytes(), vk.public_input_count(), public_inputs@)
                == Ok::<Seq<u8>, Groth16Error>(l@),
            Err(e) => spec_prepare_inputs(vk.body_bytes(), vk.public_input_count(), public_inputs@)
                == Err::<Seq<u8>, Groth16Error>(e),
        },
{
    let n = vk.num_public_inputs();
    let ghost body = vk.body_bytes();
    let ghost inputs = public_inputs@;
    if public_inputs.len() != n * FR_SIZE {
        return Err(Groth16Error::PublicInputCountMismatch);
    }
    // Reject any bad scalar before spending a group operation on the ones
    // before it.
    let mut i: usize = 0;
    while i < n
        invariant
            0 <= i <= n,
            n <= 151,
            n == vk.public_input_count(),
            body == vk.body_bytes(),
            inputs == public_inputs@,
            inputs.len() == n * FR_SIZE,
            forall|j: int| 0 <= j < i ==> #[trigger] spec_is_canonical(input_scalar(inputs, j)),
        decreases n - i,
    {
        let s: [u8; FR_SIZE] = fixed(public_inputs, FR_SIZE * i);
        if !is_canonical(&s) {
            assert(!all_canonical(inputs, n as nat)) by {
                assert(!spec_is_canonical(input_scalar(inputs, i as int)));
            }
            return Err(Groth16Error::NonCanonicalScalar);
        }
        i = i + 1;
    }
    assert(all_canonical(inputs, n as nat));

    let mut acc = vk.ic(0);
    let mut i: usize = 0;
    while i < n
        invariant
            0 <= i <= n,
            n <= 151,
            n == vk.public_input_count(),
            body == vk.body_bytes(),
            inputs == public_inputs@,
            inputs.len() == n * FR_SIZE,
            all_canonical(inputs, n as nat),
            linear_combination(body, inputs, i as nat) == Some(acc@),
        decreases n - i,
    {
        let s: [u8; FR_SIZE] = fixed(public_inputs, FR_SIZE * i);
        assert(s@ == input_scalar(inputs, i as int));
        if !is_zero(&s) {
            let ic = vk.ic(i + 1);
            if is_one(&s) {
                match g1_add(&acc, &ic) {
                    Ok(sum) => {
                        acc = sum;
                    },
                    Err(e) => {
                        proof {
                            lemma_failure_persists(body, inputs, (i + 1) as nat, n as nat);
                        }
                        return Err(e);
                    },
                }
            } else {
                match g1_mul(&ic, &s) {
                    Ok(term) => match g1_add(&acc, &term) {
                        Ok(sum) => {
                            acc = sum;
                        },
                        Err(e) => {
                            proof {
                                lemma_failure_persists(body, inputs, (i + 1) as nat, n as nat);
                            }
                            return Err(e);
                        },
                    },
                    Err(e) => {
                        proof {
                            lemma_failure_persists(body, inputs, (i + 1) as nat, n as nat);
                        }
                        return Err(e);
                    },
                }
            }
        }
        i = i + 1;
    }
    Ok(acc)
}

/// Stage 2: lay out the four pairs. Pure copying; cannot fail.
pub fn assemble_pairing_input(vk: &VerifyingKey, proof: &Proof, l: &[u8; G1_SIZE]) -> (input: [u8;
    PAIRING_INPUT_SIZE])
    ensures
        input@ == pairing_layout(vk.body_bytes(), proof@, l@),
{
    let mut input = [0u8; PAIRING_INPUT_SIZE];
    write_pairing_input(&mut input, vk, proof, l);
    input
}

/// [`assemble_pairing_input`] into a caller-provided buffer.
pub fn write_pairing_input(
    input: &mut [u8; PAIRING_INPUT_SIZE],
    vk: &VerifyingKey,
    proof: &Proof,
    l: &[u8; G1_SIZE],
)
    ensures
        final(input)@ == pairing_layout(vk.body_bytes(), proof@, l@),
{
    let a_b = proof.a_b();
    let alpha_beta = vk.alpha_neg_beta();
    let neg_gamma = vk.neg_gamma();
    let c = proof.c();
    let neg_delta = vk.neg_delta();

    copy_into(input, PAIRING_SLOT_AB_OFFSET, a_b.as_slice());
    copy_into(input, PAIRING_SLOT_ALPHA_BETA_OFFSET, alpha_beta.as_slice());
    copy_into(input, PAIRING_SLOT_L_OFFSET, l.as_slice());
    copy_into(input, PAIRING_SLOT_GAMMA_OFFSET, neg_gamma.as_slice());
    copy_into(input, PAIRING_SLOT_C_OFFSET, c.as_slice());
    copy_into(input, PAIRING_SLOT_DELTA_OFFSET, neg_delta.as_slice());
    assert(input@ =~= pairing_layout(vk.body_bytes(), proof@, l@));
}

/// Stage 3: the 4-pair check.
pub fn check_pairing(input: &[u8; PAIRING_INPUT_SIZE]) -> (r: Result<(), Groth16Error>)
    ensures
        r == spec_check_pairing(input@),
{
    if pairing_is_one(input)? {
        Ok(())
    } else {
        Err(Groth16Error::ProofInvalid)
    }
}

/// How `L` accumulates, by the numeric value `v` of each public input `s`:
/// `L` starts at `IC₀`, and input `i` (once every earlier step succeeded)
/// contributes nothing when `v = 0`, adds `IC_{i+1}` itself, with no
/// multiplication, exactly when `v = 1`, and adds the group multiple
/// `s·IC_{i+1}` for every other value.
pub proof fn lemma_linear_combination_by_value(body: Seq<u8>, inputs: Seq<u8>, k: nat)
    requires
        k >= 1,
        inputs.len() >= FR_SIZE * k,
    ensures
        linear_combination(body, inputs, 0) == Some(ic_point(body, 0)),
        linear_combination(body, inputs, (k - 1) as nat) is None ==> linear_combination(
            body,
            inputs,
            k,
        ) is None,
        linear_combination(body, inputs, (k - 1) as nat) matches Some(acc) ==> {
            let s = input_scalar(inputs, k - 1);
            let ic = ic_point(body, k as int);
            &&& be_nat(s) == 0 ==> linear_combination(body, inputs, k) == Some(acc)
            &&& be_nat(s) == 1 ==> linear_combination(body, inputs, k) == spec_g1_add(acc, ic)
            &&& be_nat(s) != 0 && be_nat(s) != 1 ==> linear_combination(body, inputs, k) == match spec_g1_mul(ic, s) {
                None => None,
                Some(t) => spec_g1_add(acc, t),
            }
        },
{
    let s = input_scalar(inputs, k - 1);
    assert(FR_SIZE * (k - 1) + FR_SIZE == FR_SIZE * k) by (nonlinear_arith);
    assert(0 <= FR_SIZE * (k - 1)) by (nonlinear_arith)
        requires
            k >= 1,
    ;
    assert(s.len() == FR_SIZE);
    lemma_all_zero_is_zero(s);
    lemma_be_one_is_one(s);
}

} // verus!
