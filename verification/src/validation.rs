//! Explicit key validation, shared by registration and host clients.
use vstd::prelude::*;

use crate::constants::{
    G1_SIZE, G2_SIZE, PAIRING_ELEMENT_SIZE, VK_ALPHA_OFFSET, VK_NEG_BETA_OFFSET,
    VK_NEG_DELTA_OFFSET, VK_NEG_GAMMA_OFFSET,
};
use crate::error::Groth16Error;
use crate::scalar::{all_zero, is_zero};
use crate::syscall::{bn254_pairing, copy_into, g1_add, pairing_validate_points, spec_g1_add};
use crate::verifying_key::{ic_point, VerifyingKey};

verus! {

/// The G1 element `α` of a key body.
pub open spec fn key_alpha(body: Seq<u8>) -> Seq<u8> {
    body.subrange(VK_ALPHA_OFFSET as int, VK_ALPHA_OFFSET + G1_SIZE)
}

/// The G2 element `−β` of a key body.
pub open spec fn key_neg_beta(body: Seq<u8>) -> Seq<u8> {
    body.subrange(VK_NEG_BETA_OFFSET as int, VK_NEG_BETA_OFFSET + G2_SIZE)
}

/// The G2 element `−γ` of a key body.
pub open spec fn key_neg_gamma(body: Seq<u8>) -> Seq<u8> {
    body.subrange(VK_NEG_GAMMA_OFFSET as int, VK_NEG_GAMMA_OFFSET + G2_SIZE)
}

/// The G2 element `−δ` of a key body.
pub open spec fn key_neg_delta(body: Seq<u8>) -> Seq<u8> {
    body.subrange(VK_NEG_DELTA_OFFSET as int, VK_NEG_DELTA_OFFSET + G2_SIZE)
}

/// One of `α`, `−β`, `−γ`, `−δ` is the identity (all-zero bytes).
pub open spec fn has_identity_key_element(body: Seq<u8>) -> bool {
    all_zero(key_alpha(body)) || all_zero(key_neg_beta(body)) || all_zero(key_neg_gamma(body))
        || all_zero(key_neg_delta(body))
}

/// The three pairs `α ‖ −β`, `IC₀ ‖ −γ`, `IC₀ ‖ −δ`, whose deserialization
/// checks every fixed point of the key.
pub open spec fn validation_pairing_input(body: Seq<u8>) -> Seq<u8> {
    body.subrange(VK_ALPHA_OFFSET as int, VK_ALPHA_OFFSET + PAIRING_ELEMENT_SIZE) + ic_point(
        body,
        0,
    ) + key_neg_gamma(body) + ic_point(body, 0) + key_neg_delta(body)
}

/// The addition that checks `ICᵢ` and `ICᵢ₊₁` (or `ICᵢ` twice, for a final
/// odd point) succeeds.
pub open spec fn ic_pair_valid(body: Seq<u8>, n: nat, i: int) -> bool {
    let b = if i < n {
        ic_point(body, i + 1)
    } else {
        ic_point(body, i)
    };
    spec_g1_add(ic_point(body, i), b) is Some
}

/// Every addition over `IC₁..ICₙ`, taken in adjacent pairs, succeeds.
pub open spec fn ic_points_valid(body: Seq<u8>, n: nat) -> bool {
    forall|i: int| 1 <= i <= n && i % 2 == 1 ==> #[trigger] ic_pair_valid(body, n, i)
}

/// The outcome of validating a key body with `n` public inputs.
pub open spec fn spec_validate_for_publish(body: Seq<u8>, n: nat) -> Result<(), Groth16Error> {
    if has_identity_key_element(body) {
        Err(Groth16Error::IdentityKeyElement)
    } else if bn254_pairing(validation_pairing_input(body)) is None {
        Err(Groth16Error::InvalidPoint)
    } else if !ic_points_valid(body, n) {
        Err(Groth16Error::InvalidPoint)
    } else {
        Ok(())
    }
}

/// Validates every key point through an operation that performs the full
/// check: one 3-pair pairing call covers `α`, `IC₀` and the three G2 points;
/// `IC₁..ICₙ` go through G1 addition in adjacent pairs, an odd final point
/// added to itself. Every result is ignored. `α`, `−β`, `−γ`, `−δ` must not
/// be the identity, while any `ICᵢ` may be.
pub fn validate_for_publish(vk: &VerifyingKey) -> (r: Result<(), Groth16Error>)
    ensures
        r == spec_validate_for_publish(vk.body_bytes(), vk.public_input_count()),
{
    let n = vk.num_public_inputs();
    let ghost body = vk.body_bytes();
    let alpha = vk.alpha();
    let ic0 = vk.ic(0);
    let neg_beta = vk.neg_beta();
    let neg_gamma = vk.neg_gamma();
    let neg_delta = vk.neg_delta();
    if is_zero(&alpha) || is_zero(&neg_beta) || is_zero(&neg_gamma) || is_zero(&neg_delta) {
        return Err(Groth16Error::IdentityKeyElement);
    }
    let mut input = [0u8; 576];
    let alpha_neg_beta = vk.alpha_neg_beta();
    copy_into(&mut input, 0, alpha_neg_beta.as_slice());
    copy_into(&mut input, PAIRING_ELEMENT_SIZE, ic0.as_slice());
    copy_into(&mut input, PAIRING_ELEMENT_SIZE + G1_SIZE, neg_gamma.as_slice());
    copy_into(&mut input, 2 * PAIRING_ELEMENT_SIZE, ic0.as_slice());
    copy_into(&mut input, 2 * PAIRING_ELEMENT_SIZE + G1_SIZE, neg_delta.as_slice());
    assert(input@ =~= validation_pairing_input(body));
    pairing_validate_points(&input)?;

    let mut i: usize = 1;
    while i <= n
        invariant
            1 <= i <= n + 2,
            i % 2 == 1,
            n <= 151,
            n == vk.public_input_count(),
            body == vk.body_bytes(),
            !has_identity_key_element(body),
            bn254_pairing(validation_pairing_input(body)) is Some,
            forall|j: int| 1 <= j < i && j % 2 == 1 ==> #[trigger] ic_pair_valid(body, n as nat, j),
        decreases n + 2 - i,
    {
        let a = vk.ic(i);
        let b = if i < n {
            vk.ic(i + 1)
        } else {
            a
        };
        if let Err(e) = g1_add(&a, &b) {
            assert(!ic_pair_valid(body, n as nat, i as int));
            return Err(e);
        }
        i = i + 2;
    }
    Ok(())
}

/// A key whose `α` (body bytes `0..64`), `−β` (`64..192`), `−γ`
/// (`192..320`) or `−δ` (`320..448`) is the identity, encoded as all zeros,
/// is refused with `IdentityKeyElement`, whatever else it holds.
pub proof fn lemma_identity_key_element_refused(body: Seq<u8>, n: nat, start: int, end: int)
    requires
        body.len() >= 448,
        (start == 0 && end == 64) || (start == 64 && end == 192) || (start == 192 && end == 320)
            || (start == 320 && end == 448),
        forall|j: int| start <= j < end ==> body[j] == 0,
    ensures
        spec_validate_for_publish(body, n) == Err::<(), Groth16Error>(
            Groth16Error::IdentityKeyElement,
        ),
{
    let part = body.subrange(start, end);
    assert(all_zero(part)) by {
        assert forall|i: int| 0 <= i < part.len() implies #[trigger] part[i] == 0 by {
            assert(part[i] == body[start + i]);
        }
    }
    if start == 0 {
        assert(part == key_alpha(body));
    } else if start == 64 {
        assert(part == key_neg_beta(body));
    } else if start == 192 {
        assert(part == key_neg_gamma(body));
    } else {
        assert(part == key_neg_delta(body));
    }
}

} // verus!
