//! A serialized proof, `A ‖ B ‖ C`.
use vstd::prelude::*;

use crate::constants::{
    G1_SIZE, G2_SIZE, PAIRING_ELEMENT_SIZE, PROOF_A_OFFSET, PROOF_B_OFFSET, PROOF_C_OFFSET,
    PROOF_SIZE,
};
use crate::error::Groth16Error;

verus! {

/// A proof in the on-chain wire format. Construction checks only the length;
/// point validity is established by the pairing syscall.
#[derive(Debug, Clone, Copy)]
pub struct Proof {
    bytes: [u8; PROOF_SIZE],
}

impl View for Proof {
    type V = Seq<u8>;

    closed spec fn view(&self) -> Seq<u8> {
        self.bytes@
    }
}

impl Proof {
    /// Takes exactly 256 bytes as a proof.
    pub fn from_bytes(bytes: &[u8]) -> (r: Result<Proof, Groth16Error>)
        ensures
            match r {
                Ok(proof) => bytes@.len() == PROOF_SIZE && proof@ == bytes@,
                Err(e) => bytes@.len() != PROOF_SIZE && e == Groth16Error::InvalidProofLength,
            },
    {
        if bytes.len() != PROOF_SIZE {
            return Err(Groth16Error::InvalidProofLength);
        }
        let fixed_bytes: [u8; PROOF_SIZE] = fixed(bytes, 0);
        assert(bytes@.subrange(0, PROOF_SIZE as int) =~= bytes@);
        Ok(Proof { bytes: fixed_bytes })
    }

    /// Splits `A ‖ B ‖ C` off the front of `bytes`, returning the proof and
    /// whatever follows it (the public inputs, in the `Verify` instruction).
    pub fn split_from(bytes: &[u8]) -> (r: Result<(Proof, &[u8]), Groth16Error>)
        ensures
            match r {
                Ok((proof, rest)) => {
                    &&& bytes@.len() >= PROOF_SIZE
                    &&& proof@ == bytes@.take(PROOF_SIZE as int)
                    &&& rest@ == bytes@.skip(PROOF_SIZE as int)
                },
                Err(e) => bytes@.len() < PROOF_SIZE && e == Groth16Error::InvalidProofLength,
            },
    {
        if bytes.len() < PROOF_SIZE {
            return Err(Groth16Error::InvalidProofLength);
        }
        let head = vstd::slice::slice_subrange(bytes, 0, PROOF_SIZE);
        let rest = vstd::slice::slice_subrange(bytes, PROOF_SIZE, bytes.len());
        let proof = Proof::from_bytes(head)?;
        Ok((proof, rest))
    }

    /// The whole proof.
    pub fn as_bytes(&self) -> (r: &[u8; PROOF_SIZE])
        ensures
            r@ == self@,
    {
        &self.bytes
    }

    /// `A`.
    pub fn a(&self) -> (r: [u8; G1_SIZE])
        ensures
            r@ == self@.subrange(PROOF_A_OFFSET as int, PROOF_A_OFFSET + G1_SIZE),
    {
        fixed(self.bytes.as_slice(), PROOF_A_OFFSET)
    }

    /// `B`.
    pub fn b(&self) -> (r: [u8; G2_SIZE])
        ensures
            r@ == self@.subrange(PROOF_B_OFFSET as int, PROOF_B_OFFSET + G2_SIZE),
    {
        fixed(self.bytes.as_slice(), PROOF_B_OFFSET)
    }

    /// `C`.
    pub fn c(&self) -> (r: [u8; G1_SIZE])
        ensures
            r@ == self@.subrange(PROOF_C_OFFSET as int, PROOF_C_OFFSET + G1_SIZE),
    {
        fixed(self.bytes.as_slice(), PROOF_C_OFFSET)
    }

    /// `A ‖ B`, already in pairing-slot order.
    pub fn a_b(&self) -> (r: [u8; PAIRING_ELEMENT_SIZE])
        ensures
            r@ == self@.subrange(PROOF_A_OFFSET as int, PROOF_A_OFFSET + PAIRING_ELEMENT_SIZE),
    {
        fixed(self.bytes.as_slice(), PROOF_A_OFFSET)
    }
}

/// Copies the `N` bytes at `offset` into a fixed-size array.
pub(crate) fn fixed<const N: usize>(bytes: &[u8], offset: usize) -> (out: [u8; N])
    requires
        offset + N <= bytes@.len(),
    ensures
        out@ == bytes@.subrange(offset as int, offset + N),
{
    let mut out = [0u8; N];
    let len = bytes.len();
    let mut i: usize = 0;
    while i < N
        invariant
            0 <= i <= N,
            len == bytes@.len(),
            offset + N <= bytes@.len(),
            out@.len() == N,
            forall|j: int| 0 <= j < i ==> out@[j] == bytes@[offset + j],
        decreases N - i,
    {
        out[i] = bytes[offset + i];
        i = i + 1;
    }
    assert(out@ =~= bytes@.subrange(offset as int, offset + N));
    out
}

} // verus!
