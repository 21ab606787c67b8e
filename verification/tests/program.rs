use ark_bn254::{Fq, Fr, G1Affine, G2Affine};
use ark_ec::{AffineRepr, CurveGroup};
use ark_ff::{BigInteger, PrimeField};
use solana_groth16_verify::constants::{key_account_len, staging_account_len, PROOF_SIZE};
use solana_groth16_verify::instruction as ix;
use solana_groth16_verify::processor::publish::{complete, funding_shortfall};
use solana_groth16_verify::processor::{process_instruction, Account, Outcome};
use solana_groth16_verify::program_error::{map_groth16, Groth16ProgramError, ProgramError};
use solana_groth16_verify::Groth16Error;

fn fq_be(x: &Fq) -> [u8; 32] {
    x.into_bigint().to_bytes_be().try_into().unwrap()
}

fn g1_bytes(p: &G1Affine) -> Vec<u8> {
    [fq_be(&p.x), fq_be(&p.y)].concat()
}

fn g2_bytes(p: &G2Affine) -> Vec<u8> {
    [fq_be(&p.x.c1), fq_be(&p.x.c0), fq_be(&p.y.c1), fq_be(&p.y.c0)].concat()
}

fn fr_bytes(s: u64) -> [u8; 32] {
    Fr::from(s).into_bigint().to_bytes_be().try_into().unwrap()
}

/// A key body and a proof that verifies for `xs`, from known discrete logs.
fn instance(xs: &[u64]) -> (Vec<u8>, [u8; PROOF_SIZE]) {
    let (a, b, c, d) = (Fr::from(3u64), Fr::from(5u64), Fr::from(7u64), Fr::from(11u64));
    let us: Vec<Fr> = (0..=xs.len()).map(|i| Fr::from(40u64 + 9 * i as u64)).collect();
    let mut lsc = us[0];
    for (i, x) in xs.iter().enumerate() {
        lsc += Fr::from(*x) * us[i + 1];
    }
    let cc = Fr::from(19u64);
    let a_scalar = a * b + lsc * c + cc * d;
    let g = G1Affine::generator();
    let h = G2Affine::generator();
    let mut body = g1_bytes(&(g * a).into_affine());
    body.extend(g2_bytes(&(-(h * b)).into_affine()));
    body.extend(g2_bytes(&(-(h * c)).into_affine()));
    body.extend(g2_bytes(&(-(h * d)).into_affine()));
    for u in &us {
        body.extend(g1_bytes(&(g * u).into_affine()));
    }
    let mut proof = [0u8; PROOF_SIZE];
    proof[..64].copy_from_slice(&g1_bytes(&(g * a_scalar).into_affine()));
    proof[64..192].copy_from_slice(&g2_bytes(&h));
    proof[192..].copy_from_slice(&g1_bytes(&(g * cc).into_affine()));
    (body, proof)
}

fn account(address: [u8; 32], owner: [u8; 32], lamports: u64, data: Vec<u8>, signer: bool, writable: bool) -> Account {
    Account { address, owner, lamports, data, is_signer: signer, is_writable: writable }
}

const PROGRAM: [u8; 32] = ix::ID;
const AUTHORITY: [u8; 32] = [1u8; 32];
const PAYER: [u8; 32] = [2u8; 32];
const STAGING: [u8; 32] = [3u8; 32];

fn staging_pair(n: usize) -> Vec<Account> {
    vec![
        account(AUTHORITY, [0u8; 32], 1_000, vec![], true, true),
        account(STAGING, PROGRAM, 500, vec![0u8; staging_account_len(n)], false, true),
    ]
}

fn run(accounts: &mut Vec<Account>, data: &[u8]) -> Result<Outcome, ProgramError> {
    process_instruction(&PROGRAM, accounts, data)
}

fn custom(e: Groth16ProgramError) -> ProgramError {
    ProgramError::from(e)
}

#[test]
fn verifier_errors_map_to_their_stable_codes() {
    let table = [
        (Groth16Error::InvalidProofLength, 0),
        (Groth16Error::InvalidKeyLength, 1),
        (Groth16Error::TooManyPublicInputs, 2),
        (Groth16Error::PublicInputCountMismatch, 3),
        (Groth16Error::NonCanonicalScalar, 4),
        (Groth16Error::InvalidPoint, 5),
        (Groth16Error::ProofInvalid, 6),
        (Groth16Error::InvalidAccountData, 7),
        (Groth16Error::WrongDiscriminator, 8),
        (Groth16Error::IdentityKeyElement, 104),
    ];
    for (error, code) in table {
        assert_eq!(map_groth16(error), ProgramError::Custom(code), "{error:?}");
    }
}

#[test]
fn registry_codes_are_stable() {
    assert_eq!(Groth16ProgramError::KeyAddressMismatch.code(), 100);
    assert_eq!(Groth16ProgramError::KeyAlreadyPublished.code(), 101);
    assert_eq!(Groth16ProgramError::StagingSizeMismatch.code(), 102);
    assert_eq!(Groth16ProgramError::WriteOutOfBounds.code(), 103);
    assert_eq!(custom(Groth16ProgramError::IdentityKeyElement), ProgramError::Custom(104));
}

/// The whole registration flow, then verification against the published key.
#[test]
fn register_publish_and_verify() {
    let xs = [7u64, 0, 1];
    let n = xs.len();
    let (body, proof) = instance(&xs);

    // InitializeStaging through the builder's data.
    let mut accounts = staging_pair(n);
    let init = ix::initialize_staging(&PROGRAM, &AUTHORITY, &STAGING, n as u16);
    run(&mut accounts, &init.data).unwrap_err_free();
    assert_eq!(accounts[1].data[0], 2);
    assert_eq!(&accounts[1].data[8..40], &AUTHORITY);

    // A second InitializeStaging is refused.
    assert_eq!(run(&mut accounts, &init.data).err(), Some(ProgramError::AccountAlreadyInitialized));

    // Upload the body in 100-byte pieces.
    let writes = ix::write_body(&PROGRAM, &AUTHORITY, &STAGING, &body, 100);
    assert_eq!(writes.len(), (body.len() + 99) / 100);
    for w in &writes {
        run(&mut accounts, &w.data).unwrap();
    }
    assert_eq!(&accounts[1].data[40..], &body[..]);

    // The same writes, landed in reverse order and one of them twice, on a
    // fresh staging account give the same body.
    let mut reversed = staging_pair(n);
    run(&mut reversed, &init.data).unwrap_err_free();
    for w in writes.iter().rev() {
        run(&mut reversed, &w.data).unwrap();
    }
    run(&mut reversed, &writes[1].data).unwrap();
    assert_eq!(reversed[1].data, accounts[1].data);

    // Publish: the key address is the canonical address of the body's hash.
    let hash = ix::vk_hash(&body);
    let (key_address, bump) = ix::find_key_address(&PROGRAM, &hash);
    let mut publish_accounts = vec![
        accounts[0].clone_account(),
        account(PAYER, [0u8; 32], 10_000_000, vec![], true, true),
        accounts[1].clone_account(),
        account(key_address, [0u8; 32], 1, vec![], false, true),
        account([0u8; 32], [0u8; 32], 1, vec![], false, false),
    ];
    let publish = ix::publish(&PROGRAM, &AUTHORITY, &PAYER, &STAGING, &key_address);
    let plan = match run(&mut publish_accounts, &publish.data).unwrap() {
        Outcome::CreateKeyAccount(plan) => plan,
        Outcome::Done => panic!("publish must create the key account"),
    };
    assert_eq!(plan.hash, hash);
    assert_eq!(plan.bump, bump);
    assert_eq!(plan.space, key_account_len(n));
    assert_eq!(funding_shortfall(5_000, 1), 4_999);
    assert_eq!(funding_shortfall(5_000, 6_000), 0);
    // What the system program does for Publish: allocate and assign.
    publish_accounts[3].data = vec![0u8; plan.space];
    publish_accounts[3].owner = PROGRAM;
    complete(&mut publish_accounts, &plan).unwrap();
    assert_eq!(&publish_accounts[3].data[..2], &[1, bump]);
    assert_eq!(&publish_accounts[3].data[8..], &body[..]);
    assert_eq!(publish_accounts[0].lamports, 1_000 + 500);
    assert_eq!(publish_accounts[2].lamports, 0);
    assert!(publish_accounts[2].data.is_empty());

    // Republishing the same key is refused.
    let mut again = vec![
        account(AUTHORITY, [0u8; 32], 10, vec![], true, true),
        account(PAYER, [0u8; 32], 10, vec![], true, true),
        {
            let mut s = staging_pair(n).remove(1);
            s.data[0] = 2;
            s.data[2] = n as u8;
            s.data[8..40].copy_from_slice(&AUTHORITY);
            s.data[40..].copy_from_slice(&body);
            s
        },
        publish_accounts[3].clone_account(),
        account([0u8; 32], [0u8; 32], 1, vec![], false, false),
    ];
    assert_eq!(
        run(&mut again, &publish.data).err(),
        Some(custom(Groth16ProgramError::KeyAlreadyPublished))
    );

    // Verify against the published account.
    let key = publish_accounts[3].clone_account();
    let inputs: Vec<[u8; 32]> = xs.iter().map(|&x| fr_bytes(x)).collect();
    let verify = ix::verify(&PROGRAM, &key_address, &proof, &inputs);
    let mut verify_accounts = vec![key.clone_account()];
    assert!(matches!(run(&mut verify_accounts, &verify.data), Ok(Outcome::Done)));

    // A wrong input: well-formed but does not verify.
    let wrong: Vec<[u8; 32]> = [8u64, 0, 1].iter().map(|&x| fr_bytes(x)).collect();
    let verify_wrong = ix::verify(&PROGRAM, &key_address, &proof, &wrong);
    assert_eq!(run(&mut verify_accounts, &verify_wrong.data).err(), Some(ProgramError::Custom(6)));

    // Wrong input count and short proof.
    let verify_short = ix::verify(&PROGRAM, &key_address, &proof, &inputs[..2]);
    assert_eq!(run(&mut verify_accounts, &verify_short.data).err(), Some(ProgramError::Custom(3)));
    assert_eq!(run(&mut verify_accounts, &[3u8; 100]).err(), Some(ProgramError::Custom(0)));

    // A key account not owned by the program.
    let mut foreign = vec![key.clone_account()];
    foreign[0].owner = [9u8; 32];
    assert_eq!(run(&mut foreign, &verify.data).err(), Some(ProgramError::InvalidAccountOwner));
}

trait CloneAccount {
    fn clone_account(&self) -> Account;
}

impl CloneAccount for Account {
    fn clone_account(&self) -> Account {
        Account {
            address: self.address,
            owner: self.owner,
            lamports: self.lamports,
            data: self.data.clone(),
            is_signer: self.is_signer,
            is_writable: self.is_writable,
        }
    }
}

trait UnitOk {
    fn unwrap_err_free(self);
}

impl UnitOk for Result<Outcome, ProgramError> {
    fn unwrap_err_free(self) {
        assert!(matches!(self, Ok(Outcome::Done)), "{:?}", self.err());
    }
}

#[test]
fn publish_rejects_a_wrong_address() {
    let (body, _) = instance(&[1]);
    let mut staging = staging_pair(1);
    run(&mut staging, &ix::initialize_staging(&PROGRAM, &AUTHORITY, &STAGING, 1).data).unwrap();
    run(&mut staging, &ix::write(&PROGRAM, &AUTHORITY, &STAGING, 0, &body).data).unwrap();
    let mut accounts = vec![
        staging[0].clone_account(),
        account(PAYER, [0u8; 32], 10, vec![], true, true),
        staging[1].clone_account(),
        account([8u8; 32], [0u8; 32], 0, vec![], false, true),
        account([0u8; 32], [0u8; 32], 1, vec![], false, false),
    ];
    let data = ix::publish(&PROGRAM, &AUTHORITY, &PAYER, &STAGING, &[8u8; 32]).data;
    assert_eq!(run(&mut accounts, &data).err(), Some(custom(Groth16ProgramError::KeyAddressMismatch)));
    // Without the system program last.
    accounts[4].address = [5u8; 32];
    assert_eq!(run(&mut accounts, &data).err(), Some(ProgramError::IncorrectProgramId));
    // Payer must sign.
    accounts[1].is_signer = false;
    assert_eq!(run(&mut accounts, &data).err(), Some(ProgramError::MissingRequiredSignature));
}

#[test]
fn publish_rejects_identity_key_elements() {
    let (mut body, _) = instance(&[1]);
    body[64..192].fill(0);
    let mut staging = staging_pair(1);
    run(&mut staging, &ix::initialize_staging(&PROGRAM, &AUTHORITY, &STAGING, 1).data).unwrap();
    run(&mut staging, &ix::write(&PROGRAM, &AUTHORITY, &STAGING, 0, &body).data).unwrap();
    let (key, _) = ix::find_key_address(&PROGRAM, &ix::vk_hash(&body));
    let mut accounts = vec![
        staging[0].clone_account(),
        account(PAYER, [0u8; 32], 10, vec![], true, true),
        staging[1].clone_account(),
        account(key, [0u8; 32], 0, vec![], false, true),
        account([0u8; 32], [0u8; 32], 1, vec![], false, false),
    ];
    let data = ix::publish(&PROGRAM, &AUTHORITY, &PAYER, &STAGING, &key).data;
    assert_eq!(run(&mut accounts, &data).err(), Some(ProgramError::Custom(104)));
}

#[test]
fn staging_instructions_check_their_accounts() {
    // Unknown tag and empty data.
    let mut accounts = staging_pair(0);
    assert_eq!(run(&mut accounts, &[]).err(), Some(ProgramError::InvalidInstructionData));
    assert_eq!(run(&mut accounts, &[9]).err(), Some(ProgramError::InvalidInstructionData));
    // n = 152 is refused up front; a mis-sized account is refused.
    assert_eq!(run(&mut accounts, &[0, 152, 0]).err(), Some(ProgramError::Custom(2)));
    assert_eq!(run(&mut accounts, &[0, 1, 0]).err(), Some(ProgramError::Custom(102)));
    assert_eq!(run(&mut accounts, &[0, 0]).err(), Some(ProgramError::InvalidInstructionData));
    // The staging account as its own authority.
    let mut own = staging_pair(0);
    own[0].address = STAGING;
    assert_eq!(run(&mut own, &[0, 0, 0]).err(), Some(ProgramError::InvalidArgument));
    assert_eq!(run(&mut own, &[4]).err(), Some(ProgramError::InvalidArgument));
    // Missing signature, wrong owner, read-only staging, wrong count.
    let mut unsigned = staging_pair(0);
    unsigned[0].is_signer = false;
    assert_eq!(run(&mut unsigned, &[0, 0, 0]).err(), Some(ProgramError::MissingRequiredSignature));
    let mut foreign = staging_pair(0);
    foreign[1].owner = [7u8; 32];
    assert_eq!(run(&mut foreign, &[0, 0, 0]).err(), Some(ProgramError::InvalidAccountOwner));
    let mut readonly = staging_pair(0);
    readonly[1].is_writable = false;
    assert_eq!(run(&mut readonly, &[0, 0, 0]).err(), Some(ProgramError::InvalidArgument));
    let mut one = staging_pair(0);
    one.pop();
    assert_eq!(run(&mut one, &[0, 0, 0]).err(), Some(ProgramError::InvalidArgument));

    // Initialized: writes are bounded and authority-gated.
    run(&mut accounts, &[0, 0, 0]).unwrap();
    let body_len = accounts[1].data.len() - 40;
    let at_end = ix::write(&PROGRAM, &AUTHORITY, &STAGING, body_len as u32, &[1]).data;
    assert_eq!(run(&mut accounts, &at_end).err(), Some(ProgramError::Custom(103)));
    let far = ix::write(&PROGRAM, &AUTHORITY, &STAGING, u32::MAX, &[1]).data;
    assert_eq!(run(&mut accounts, &far).err(), Some(ProgramError::Custom(103)));
    let last = ix::write(&PROGRAM, &AUTHORITY, &STAGING, body_len as u32 - 1, &[0xee]).data;
    run(&mut accounts, &last).unwrap();
    assert_eq!(accounts[1].data[40 + body_len - 1], 0xee);
    assert_eq!(run(&mut accounts, &[1, 0, 0]).err(), Some(ProgramError::InvalidInstructionData));
    let mut stranger = vec![
        account([6u8; 32], [0u8; 32], 0, vec![], true, true),
        accounts[1].clone_account(),
    ];
    assert_eq!(run(&mut stranger, &[1, 0, 0, 0, 0, 5]).err(), Some(ProgramError::IncorrectAuthority));
    assert_eq!(run(&mut stranger, &[4]).err(), Some(ProgramError::IncorrectAuthority));

    // Uninitialized staging cannot be written.
    let mut blank = staging_pair(0);
    assert_eq!(run(&mut blank, &[1, 0, 0, 0, 0, 5]).err(), Some(ProgramError::Custom(8)));

    // CloseStaging refunds the authority and closes the account.
    assert_eq!(run(&mut accounts, &[4, 0]).err(), Some(ProgramError::InvalidInstructionData));
    run(&mut accounts, &ix::close_staging(&PROGRAM, &AUTHORITY, &STAGING).data).unwrap();
    assert_eq!(accounts[0].lamports, 1_500);
    assert_eq!(accounts[1].lamports, 0);
    assert_eq!(accounts[1].owner, [0u8; 32]);
    assert!(accounts[1].data.is_empty());
}

#[test]
fn a_published_key_is_refused_by_every_staging_instruction() {
    let (body, _) = instance(&[2]);
    let mut key_data = vec![1u8, 254, 1, 0, 0, 0, 0, 0];
    key_data.extend_from_slice(&body);
    let key = account([4u8; 32], PROGRAM, 77, key_data.clone(), false, true);
    let authority = account(AUTHORITY, [0u8; 32], 10, vec![], true, true);
    for data in [vec![0u8, 1, 0], vec![1u8, 0, 0, 0, 0, 9, 9], vec![4u8]] {
        let mut accounts = vec![authority.clone_account(), key.clone_account()];
        let result = run(&mut accounts, &data);
        assert!(result.is_err(), "{data:?}");
        assert_eq!(accounts[1].data, key_data);
        assert_eq!(accounts[1].lamports, 77);
    }
    // Handed to InitializeStaging: not sized as a staging account; to
    // CloseStaging: not carrying the staging discriminator.
    let mut accounts = vec![authority.clone_account(), key.clone_account()];
    assert_eq!(
        run(&mut accounts, &[0, 1, 0]).err(),
        Some(ProgramError::Custom(102))
    );
    assert_eq!(run(&mut accounts, &[4]).err(), Some(ProgramError::Custom(8)));
}
