//! Sizes, offsets and syscall opcodes shared by the verifier, the program and
//! the client-side builders. Everything here is in the on-chain wire format:
//! uncompressed, big-endian, exactly as `sol_alt_bn128_group_op` consumes it.
use vstd::prelude::*;

verus! {

/// Size of a base-field element `Fq`.
pub const FQ_SIZE: usize = 32;

/// Size of a scalar-field element `Fr`.
pub const FR_SIZE: usize = 32;

/// Size of an uncompressed G1 point, `x ‖ y`.
pub const G1_SIZE: usize = 64;

/// Size of an uncompressed G2 point, `x ‖ y` with each `Fq2` as `c1 ‖ c0`.
pub const G2_SIZE: usize = 128;

/// The BN254 scalar-field modulus `r`, big-endian. Public inputs must be `< r`.
pub const FR_MODULUS: [u8; 32] = [
    0x30, 0x64, 0x4e, 0x72, 0xe1, 0x31, 0xa0, 0x29, 0xb8, 0x50, 0x45, 0xb6, 0x81, 0x81, 0x58, 0x5d,
    0x28, 0x33, 0xe8, 0x48, 0x79, 0xb9, 0x70, 0x91, 0x43, 0xe1, 0xf5, 0x93, 0xf0, 0x00, 0x00, 0x01,
];

/// PDA seed prefix for canonical key accounts: `[b"vk", sha256(body)]`.
pub const VK_SEED_PREFIX: [u8; 2] = [0x76, 0x6b];

/// The system program, spelled out: all zeros.
pub const SYSTEM_PROGRAM_ID: [u8; 32] = [
    0u8, 0u8, 0u8, 0u8, 0u8, 0u8, 0u8, 0u8, 0u8, 0u8, 0u8, 0u8, 0u8, 0u8, 0u8, 0u8,
    0u8, 0u8, 0u8, 0u8, 0u8, 0u8, 0u8, 0u8, 0u8, 0u8, 0u8, 0u8, 0u8, 0u8, 0u8, 0u8,
];

/// The syscall encoding of the G1 identity: all zeros.
pub fn g1_identity() -> (id: [u8; 64])
    ensures
        forall|i: int| 0 <= i < 64 ==> id[i] == 0,
{
    [0u8; 64]
}

// --- Proof: `A ‖ B ‖ C` -------------------------------------------------------

pub const PROOF_A_OFFSET: usize = 0;

pub const PROOF_B_OFFSET: usize = PROOF_A_OFFSET + G1_SIZE;

pub const PROOF_C_OFFSET: usize = PROOF_B_OFFSET + G2_SIZE;

/// Total proof size, 256 bytes.
pub const PROOF_SIZE: usize = PROOF_C_OFFSET + G1_SIZE;

// --- Verifying-key body: `α ‖ −β ‖ −γ ‖ −δ ‖ IC₀..ICₙ` ------------------------

pub const VK_ALPHA_OFFSET: usize = 0;

pub const VK_NEG_BETA_OFFSET: usize = VK_ALPHA_OFFSET + G1_SIZE;

pub const VK_NEG_GAMMA_OFFSET: usize = VK_NEG_BETA_OFFSET + G2_SIZE;

pub const VK_NEG_DELTA_OFFSET: usize = VK_NEG_GAMMA_OFFSET + G2_SIZE;

pub const VK_IC_OFFSET: usize = VK_NEG_DELTA_OFFSET + G2_SIZE;

/// Body size before the `IC` table: 448 bytes.
pub const VK_FIXED_SIZE: usize = VK_IC_OFFSET;

/// Largest `n` for which the canonical key account can be created in a single
/// CPI: `456 + 64·(n+1) ≤ MAX_PERMITTED_DATA_INCREASE (10,240)`.
pub const MAX_PUBLIC_INPUTS: usize = 151;

/// Length of a verifying-key body with `n` public inputs, as a number.
pub open spec fn spec_vk_body_len(num_public_inputs: int) -> int {
    VK_FIXED_SIZE + G1_SIZE * (num_public_inputs + 1)
}

/// Length of a verifying-key body with `n` public inputs (`n + 1` IC points).
pub fn vk_body_len(num_public_inputs: usize) -> (len: usize)
    requires
        spec_vk_body_len(num_public_inputs as int) <= usize::MAX,
    ensures
        len == spec_vk_body_len(num_public_inputs as int),
{
    VK_FIXED_SIZE + G1_SIZE * (num_public_inputs + 1)
}

// --- Account sizes ------------------------------------------------------------

/// Header of a canonical key account: discriminator, bump, `n`, reserved.
pub const KEY_HEADER_LEN: usize = 8;

/// Header of a staging account: discriminator, reserved, `n`, reserved,
/// 32-byte authority.
pub const STAGING_HEADER_LEN: usize = 40;

/// Total length of a canonical key account for `n` public inputs, as a number.
pub open spec fn spec_key_account_len(num_public_inputs: int) -> int {
    KEY_HEADER_LEN + spec_vk_body_len(num_public_inputs)
}

/// Total length of a staging account for `n` public inputs, as a number.
pub open spec fn spec_staging_account_len(num_public_inputs: int) -> int {
    STAGING_HEADER_LEN + spec_vk_body_len(num_public_inputs)
}

/// Total length of a canonical key account for `n` public inputs.
pub fn key_account_len(num_public_inputs: usize) -> (len: usize)
    requires
        spec_key_account_len(num_public_inputs as int) <= usize::MAX,
    ensures
        len == spec_key_account_len(num_public_inputs as int),
{
    KEY_HEADER_LEN + vk_body_len(num_public_inputs)
}

/// Total length of a staging account for `n` public inputs.
pub fn staging_account_len(num_public_inputs: usize) -> (len: usize)
    requires
        spec_staging_account_len(num_public_inputs as int) <= usize::MAX,
    ensures
        len == spec_staging_account_len(num_public_inputs as int),
{
    STAGING_HEADER_LEN + vk_body_len(num_public_inputs)
}

// --- Pairing input ------------------------------------------------------------

/// One `(G1, G2)` pair as the pairing syscall consumes it.
pub const PAIRING_ELEMENT_SIZE: usize = G1_SIZE + G2_SIZE;

/// Groth16 is a 4-pair check.
pub const PAIRING_NUM_PAIRS: usize = 4;

/// 768 bytes.
pub const PAIRING_INPUT_SIZE: usize = PAIRING_ELEMENT_SIZE * PAIRING_NUM_PAIRS;

/// The pairing syscall writes a 32-byte big-endian `0` or `1`.
pub const PAIRING_OUTPUT_SIZE: usize = 32;

/// Slot layout inside the pairing input.
pub const PAIRING_SLOT_AB_OFFSET: usize = 0;

pub const PAIRING_SLOT_ALPHA_BETA_OFFSET: usize = PAIRING_ELEMENT_SIZE;

pub const PAIRING_SLOT_L_OFFSET: usize = 2 * PAIRING_ELEMENT_SIZE;

pub const PAIRING_SLOT_GAMMA_OFFSET: usize = PAIRING_SLOT_L_OFFSET + G1_SIZE;

pub const PAIRING_SLOT_C_OFFSET: usize = 3 * PAIRING_ELEMENT_SIZE;

pub const PAIRING_SLOT_DELTA_OFFSET: usize = PAIRING_SLOT_C_OFFSET + G1_SIZE;

// --- `sol_alt_bn128_group_op` opcodes (big-endian variants) -------------------

pub const ALT_BN128_G1_ADD_BE: u64 = 0;

pub const ALT_BN128_G1_MUL_BE: u64 = 2;

pub const ALT_BN128_PAIRING_BE: u64 = 3;

/// `G1 ‖ G1`.
pub const G1_ADD_INPUT_SIZE: usize = 2 * G1_SIZE;

/// `G1 ‖ Fr`.
pub const G1_MUL_INPUT_SIZE: usize = G1_SIZE + FR_SIZE;

} // verus!
