//! The three `alt_bn128` group operations the verifier needs, through
//! `solana-bn254` (the `sol_alt_bn128_group_op` syscall on-chain, the same
//! arithmetic on the host). Every failure of an operation — an operand off the
//! curve or outside the prime-order subgroup — surfaces as
//! [`Groth16Error::InvalidPoint`].
use vstd::prelude::*;

use solana_bn254::prelude::{
    alt_bn128_g1_addition_be, alt_bn128_g1_multiplication_be, alt_bn128_pairing_be,
};

use crate::constants::{
    FR_SIZE, G1_ADD_INPUT_SIZE, G1_MUL_INPUT_SIZE, G1_SIZE, PAIRING_ELEMENT_SIZE,
    PAIRING_INPUT_SIZE, PAIRING_OUTPUT_SIZE,
};
use crate::error::Groth16Error;
use crate::scalar::{is_be_one, is_one};

verus! {

/// What `alt_bn128_g1_addition_be` returns for an input: the big-endian
/// encoding of the sum of the two G1 points, or `None` where it fails.
pub uninterp spec fn bn254_g1_addition(input: Seq<u8>) -> Option<Seq<u8>>;

/// What `alt_bn128_g1_multiplication_be` returns for an input `P ‖ s`: the
/// big-endian encoding of `s·P`, or `None` where it fails.
pub uninterp spec fn bn254_g1_multiplication(input: Seq<u8>) -> Option<Seq<u8>>;

/// What `alt_bn128_pairing_be` returns for a sequence of `(G1, G2)` pairs:
/// 32 big-endian bytes, one when the product of pairings is the identity of
/// the target group, or `None` where it fails.
pub uninterp spec fn bn254_pairing(input: Seq<u8>) -> Option<Seq<u8>>;

/// `solana_bn254::prelude::alt_bn128_g1_addition_be` on a 128-byte `P ‖ Q`.
/// Trusted: its result is the named result of the call; every error it
/// returns becomes `InvalidPoint`; a success is 64 bytes (the crate writes a
/// 64-byte point).
#[verifier::external_body]
fn bn254_g1_addition_call(input: &[u8; G1_ADD_INPUT_SIZE]) -> (r: Result<[u8; G1_SIZE], Groth16Error>)
    ensures
        match r {
            Ok(p) => bn254_g1_addition(input@) == Some(p@),
            Err(e) => bn254_g1_addition(input@) is None && e == Groth16Error::InvalidPoint,
        },
{
    let out = alt_bn128_g1_addition_be(input).map_err(|_| Groth16Error::InvalidPoint)?;
    let mut p = [0u8; G1_SIZE];
    p.copy_from_slice(&out);
    Ok(p)
}

/// `solana_bn254::prelude::alt_bn128_g1_multiplication_be` on a 96-byte
/// `P ‖ s`. Trusted: its result is the named result of the call; every error
/// becomes `InvalidPoint`; a success is 64 bytes.
#[verifier::external_body]
fn bn254_g1_multiplication_call(input: &[u8; G1_MUL_INPUT_SIZE]) -> (r: Result<
    [u8; G1_SIZE],
    Groth16Error,
>)
    ensures
        match r {
            Ok(p) => bn254_g1_multiplication(input@) == Some(p@),
            Err(e) => bn254_g1_multiplication(input@) is None && e == Groth16Error::InvalidPoint,
        },
{
    let out = alt_bn128_g1_multiplication_be(input).map_err(|_| Groth16Error::InvalidPoint)?;
    let mut p = [0u8; G1_SIZE];
    p.copy_from_slice(&out);
    Ok(p)
}

/// `solana_bn254::prelude::alt_bn128_pairing_be` on a whole number of
/// 192-byte pairs. Trusted: its result is the named result of the call; every
/// error becomes `InvalidPoint`; a success is 32 bytes.
#[verifier::external_body]
fn bn254_pairing_call(input: &[u8]) -> (r: Result<[u8; PAIRING_OUTPUT_SIZE], Groth16Error>)
    requires
        input@.len() % (PAIRING_ELEMENT_SIZE as nat) == 0,
    ensures
        match r {
            Ok(out) => bn254_pairing(input@) == Some(out@),
            Err(e) => bn254_pairing(input@) is None && e == Groth16Error::InvalidPoint,
        },
{
    let out = alt_bn128_pairing_be(input).map_err(|_| Groth16Error::InvalidPoint)?;
    let mut res = [0u8; PAIRING_OUTPUT_SIZE];
    res.copy_from_slice(&out);
    Ok(res)
}

/// The G1 sum `a + b` as the group operation computes it.
pub open spec fn spec_g1_add(a: Seq<u8>, b: Seq<u8>) -> Option<Seq<u8>> {
    bn254_g1_addition(a + b)
}

/// The G1 multiple `s·p` as the group operation computes it.
pub open spec fn spec_g1_mul(p: Seq<u8>, s: Seq<u8>) -> Option<Seq<u8>> {
    bn254_g1_multiplication(p + s)
}

/// Copies `src` into `dst` at `offset`.
pub(crate) fn copy_into<const N: usize>(dst: &mut [u8; N], offset: usize, src: &[u8])
    requires
        offset + src@.len() <= N,
    ensures
        final(dst)@.len() == N,
        forall|j: int| 0 <= j < offset ==> #[trigger] final(dst)@[j] == old(dst)@[j],
        forall|j: int|
            offset <= j < offset + src@.len() ==> #[trigger] final(dst)@[j] == src@[j - offset],
        forall|j: int| offset + src@.len() <= j < N ==> #[trigger] final(dst)@[j] == old(dst)@[j],
{
    let ghost start = dst@;
    let len = src.len();
    let mut i: usize = 0;
    while i < len
        invariant
            0 <= i <= len,
            len == src@.len(),
            offset + len <= N,
            dst@.len() == N,
            start.len() == N,
            forall|j: int| 0 <= j < offset ==> dst@[j] == start[j],
            forall|j: int| 0 <= j < i ==> dst@[offset + j] == src@[j],
            forall|j: int| offset + i <= j < N ==> dst@[j] == start[j],
        decreases len - i,
    {
        dst[offset + i] = src[i];
        i = i + 1;
    }
}

/// `a + b` in G1.
pub fn g1_add(a: &[u8; G1_SIZE], b: &[u8; G1_SIZE]) -> (r: Result<[u8; G1_SIZE], Groth16Error>)
    ensures
        match r {
            Ok(p) => spec_g1_add(a@, b@) == Some(p@),
            Err(e) => spec_g1_add(a@, b@) is None && e == Groth16Error::InvalidPoint,
        },
{
    let mut input = [0u8; G1_ADD_INPUT_SIZE];
    copy_into(&mut input, 0, a.as_slice());
    copy_into(&mut input, G1_SIZE, b.as_slice());
    assert(input@ =~= a@ + b@);
    bn254_g1_addition_call(&input)
}

/// `s·p` in G1, `s` a 32-byte big-endian scalar.
pub fn g1_mul(p: &[u8; G1_SIZE], s: &[u8; FR_SIZE]) -> (r: Result<[u8; G1_SIZE], Groth16Error>)
    ensures
        match r {
            Ok(q) => spec_g1_mul(p@, s@) == Some(q@),
            Err(e) => spec_g1_mul(p@, s@) is None && e == Groth16Error::InvalidPoint,
        },
{
    let mut input = [0u8; G1_MUL_INPUT_SIZE];
    copy_into(&mut input, 0, p.as_slice());
    copy_into(&mut input, G1_SIZE, s.as_slice());
    assert(input@ =~= p@ + s@);
    bn254_g1_multiplication_call(&input)
}

/// The pairing check: `Ok(true)` exactly when the product of the four
/// pairings is one.
pub fn pairing_is_one(input: &[u8; PAIRING_INPUT_SIZE]) -> (r: Result<bool, Groth16Error>)
    ensures
        match r {
            Ok(one) => bn254_pairing(input@) matches Some(out) && one == is_be_one(out),
            Err(e) => bn254_pairing(input@) is None && e == Groth16Error::InvalidPoint,
        },
{
    let out = bn254_pairing_call(input.as_slice())?;
    Ok(is_one(&out))
}

/// Runs the pairing only for the point validation it performs while
/// deserializing; the product itself is ignored.
pub fn pairing_validate_points(input: &[u8; 576]) -> (r: Result<(), Groth16Error>)
    ensures
        match r {
            Ok(()) => bn254_pairing(input@) is Some,
            Err(e) => bn254_pairing(input@) is None && e == Groth16Error::InvalidPoint,
        },
{
    let _ = bn254_pairing_call(input.as_slice())?;
    Ok(())
}

} // verus!
