//! View over a verifying-key body, `α ‖ −β ‖ −γ ‖ −δ ‖ IC₀..ICₙ`.
//!
//! `β`, `γ` and `δ` are stored *negated* so that the pairing input is built by
//! copying alone.
use vstd::prelude::*;

use crate::constants::{
    spec_vk_body_len, vk_body_len, G1_SIZE, G2_SIZE, MAX_PUBLIC_INPUTS, PAIRING_ELEMENT_SIZE,
    VK_ALPHA_OFFSET, VK_FIXED_SIZE, VK_IC_OFFSET, VK_NEG_BETA_OFFSET, VK_NEG_DELTA_OFFSET,
    VK_NEG_GAMMA_OFFSET,
};
use crate::error::Groth16Error;
use crate::groth16_proof::fixed;
use crate::validation::{spec_validate_for_publish, validate_for_publish};

verus! {

/// `ICᵢ` inside a key body.
pub open spec fn ic_point(body: Seq<u8>, i: int) -> Seq<u8> {
    body.subrange(VK_IC_OFFSET + G1_SIZE * i, VK_IC_OFFSET + G1_SIZE * (i + 1))
}

/// A body length is `448 + 64·(n+1)` for some `n ≤ MAX_PUBLIC_INPUTS`.
pub open spec fn admissible_body_len(len: int) -> bool {
    &&& len >= VK_FIXED_SIZE + G1_SIZE
    &&& (len - VK_FIXED_SIZE) % (G1_SIZE as int) == 0
    &&& (len - VK_FIXED_SIZE) / (G1_SIZE as int) - 1 <= MAX_PUBLIC_INPUTS
}

/// Length inference inverts the layout: the body length for `n ≤ 151`
/// inputs is admissible and gives back exactly `n`, and no other length is
/// admissible.
pub proof fn lemma_body_len_inference(n: nat, len: int)
    ensures
        n <= MAX_PUBLIC_INPUTS ==> admissible_body_len(spec_vk_body_len(n as int)) && (
        spec_vk_body_len(n as int) - VK_FIXED_SIZE) / (G1_SIZE as int) - 1 == n,
        admissible_body_len(len) ==> exists|m: nat|
            m <= MAX_PUBLIC_INPUTS && #[trigger] spec_vk_body_len(m as int) == len,
{
    if admissible_body_len(len) {
        let m = ((len - VK_FIXED_SIZE) / (G1_SIZE as int) - 1) as nat;
        assert(spec_vk_body_len(m as int) == len);
    }
}

/// A borrowed verifying key in the on-chain wire format.
#[derive(Debug, Clone, Copy)]
pub struct VerifyingKey<'a> {
    body: &'a [u8],
    num_public_inputs: usize,
}

impl<'a> VerifyingKey<'a> {
    #[verifier::type_invariant]
    spec fn layout_matches(self) -> bool {
        &&& self.num_public_inputs <= MAX_PUBLIC_INPUTS
        &&& self.body@.len() == spec_vk_body_len(self.num_public_inputs as int)
    }

    /// The key body.
    pub closed spec fn body_bytes(self) -> Seq<u8> {
        self.body@
    }

    /// The number `n` of public inputs the key expects.
    pub closed spec fn public_input_count(self) -> nat {
        self.num_public_inputs as nat
    }

    /// Interprets `body` as a key, deriving `n` from its length. Rejects any
    /// length that is not `448 + 64·(n+1)` for some `n ≤ MAX_PUBLIC_INPUTS`.
    /// Layout only: the points are not checked.
    pub fn from_body(body: &'a [u8]) -> (r: Result<Self, Groth16Error>)
        ensures
            match r {
                Ok(vk) => {
                    &&& admissible_body_len(body@.len() as int)
                    &&& vk.body_bytes() == body@
                    &&& vk.public_input_count() == (body@.len() - VK_FIXED_SIZE) / (
                    G1_SIZE as int) - 1
                    &&& body@.len() == spec_vk_body_len(vk.public_input_count() as int)
                },
                Err(e) => !admissible_body_len(body@.len() as int) && e
                    == Groth16Error::InvalidKeyLength,
            },
    {
        let len = body.len();
        if len < VK_FIXED_SIZE {
            return Err(Groth16Error::InvalidKeyLength);
        }
        let ic_bytes = len - VK_FIXED_SIZE;
        if ic_bytes % G1_SIZE != 0 {
            return Err(Groth16Error::InvalidKeyLength);
        }
        let points = ic_bytes / G1_SIZE;
        if points < 1 {
            return Err(Groth16Error::InvalidKeyLength);
        }
        let num_public_inputs = points - 1;
        if num_public_inputs > MAX_PUBLIC_INPUTS {
            return Err(Groth16Error::InvalidKeyLength);
        }
        Ok(VerifyingKey { body, num_public_inputs })
    }

    /// Interprets `body` as a key for a *known* `n`, requiring the exact
    /// length. Used where `n` comes from an account header and must agree
    /// with the data.
    pub fn from_body_with_len(body: &'a [u8], num_public_inputs: usize) -> (r: Result<
        Self,
        Groth16Error,
    >)
        ensures
            match r {
                Ok(vk) => {
                    &&& num_public_inputs <= MAX_PUBLIC_INPUTS
                    &&& body@.len() == spec_vk_body_len(num_public_inputs as int)
                    &&& vk.body_bytes() == body@
                    &&& vk.public_input_count() == num_public_inputs
                },
                Err(e) => if num_public_inputs > MAX_PUBLIC_INPUTS {
                    e == Groth16Error::TooManyPublicInputs
                } else {
                    body@.len() != spec_vk_body_len(num_public_inputs as int) && e
                        == Groth16Error::InvalidKeyLength
                },
            },
    {
        if num_public_inputs > MAX_PUBLIC_INPUTS {
            return Err(Groth16Error::TooManyPublicInputs);
        }
        if body.len() != vk_body_len(num_public_inputs) {
            return Err(Groth16Error::InvalidKeyLength);
        }
        Ok(VerifyingKey { body, num_public_inputs })
    }

    /// Checks every point and rejects identity `α`, `−β`, `−γ` and `−δ`,
    /// matching Publish. A well-formedness check: it says the bytes are a
    /// Groth16 key for which the verifier is sound, not that they are the key
    /// for any particular circuit.
    pub fn validate_for_publish(&self) -> (r: Result<(), Groth16Error>)
        ensures
            r == spec_validate_for_publish(self.body_bytes(), self.public_input_count()),
    {
        validate_for_publish(self)
    }

    /// The whole body.
    pub fn body(&self) -> (r: &'a [u8])
        ensures
            r@ == self.body_bytes(),
            r@.len() == spec_vk_body_len(self.public_input_count() as int),
    {
        proof {
            use_type_invariant(self);
        }
        self.body
    }

    /// `n`, the number of public inputs.
    pub fn num_public_inputs(&self) -> (n: usize)
        ensures
            n == self.public_input_count(),
            n <= MAX_PUBLIC_INPUTS,
            self.body_bytes().len() == spec_vk_body_len(n as int),
    {
        proof {
            use_type_invariant(self);
        }
        self.num_public_inputs
    }

    /// `α`.
    pub fn alpha(&self) -> (r: [u8; G1_SIZE])
        ensures
            r@ == self.body_bytes().subrange(VK_ALPHA_OFFSET as int, VK_ALPHA_OFFSET + G1_SIZE),
    {
        proof {
            use_type_invariant(self);
        }
        fixed(self.body, VK_ALPHA_OFFSET)
    }

    /// `−β`.
    pub fn neg_beta(&self) -> (r: [u8; G2_SIZE])
        ensures
            r@ == self.body_bytes().subrange(
                VK_NEG_BETA_OFFSET as int,
                VK_NEG_BETA_OFFSET + G2_SIZE,
            ),
    {
        proof {
            use_type_invariant(self);
        }
        fixed(self.body, VK_NEG_BETA_OFFSET)
    }

    /// `−γ`.
    pub fn neg_gamma(&self) -> (r: [u8; G2_SIZE])
        ensures
            r@ == self.body_bytes().subrange(
                VK_NEG_GAMMA_OFFSET as int,
                VK_NEG_GAMMA_OFFSET + G2_SIZE,
            ),
    {
        proof {
            use_type_invariant(self);
        }
        fixed(self.body, VK_NEG_GAMMA_OFFSET)
    }

    /// `−δ`.
    pub fn neg_delta(&self) -> (r: [u8; G2_SIZE])
        ensures
            r@ == self.body_bytes().subrange(
                VK_NEG_DELTA_OFFSET as int,
                VK_NEG_DELTA_OFFSET + G2_SIZE,
            ),
    {
        proof {
            use_type_invariant(self);
        }
        fixed(self.body, VK_NEG_DELTA_OFFSET)
    }

    /// `α ‖ −β`, already in pairing-slot order.
    pub fn alpha_neg_beta(&self) -> (r: [u8; PAIRING_ELEMENT_SIZE])
        ensures
            r@ == self.body_bytes().subrange(
                VK_ALPHA_OFFSET as int,
                VK_ALPHA_OFFSET + PAIRING_ELEMENT_SIZE,
            ),
    {
        proof {
            use_type_invariant(self);
        }
        fixed(self.body, VK_ALPHA_OFFSET)
    }

    /// `ICᵢ` for `0 ≤ i ≤ n`.
    pub fn ic(&self, i: usize) -> (r: [u8; G1_SIZE])
        requires
            i <= self.public_input_count(),
        ensures
            r@ == ic_point(self.body_bytes(), i as int),
    {
        proof {
            use_type_invariant(self);
        }
        fixed(self.body, VK_IC_OFFSET + i * G1_SIZE)
    }

    /// The whole `IC₀..ICₙ` table.
    pub fn ic_table(&self) -> (r: &'a [u8])
        ensures
            r@ == self.body_bytes().skip(VK_IC_OFFSET as int),
            r@.len() == G1_SIZE * (self.public_input_count() + 1),
    {
        proof {
            use_type_invariant(self);
        }
        vstd::slice::slice_subrange(self.body, VK_IC_OFFSET, self.body.len())
    }
}

} // verus!
