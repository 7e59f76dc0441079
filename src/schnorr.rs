//! Schnorr signatures over G1 of BLS12-381 (the Fiat-Shamir transform of the
//! Schnorr identification protocol), with BLAKE2s as the challenge hash.
use vstd::prelude::*;

use crate::error::PpssError;
use crate::field::{le_nat, order, scalar_from_le_bytes_mod_order, scalar_mul, scalar_sub, Scalar};
use crate::group::{g1_add, g1_generator, g1_generator_bytes, g1_mul, point_add, point_mul, Point};
use crate::hashing::{append_bytes, blake2s, blake2s_digest, encode_byte_string, serialize_byte_string};

verus! {

/// The scheme; all of its operations are associated functions.
pub struct Schnorr {}

/// Public parameters: the generator, and a salt that starts every challenge
/// input where there is one.
#[derive(Clone, Copy, Debug)]
pub struct Parameters {
    pub generator: Point,
    pub salt: Option<[u8; 32]>,
}

/// A signature: the response scalar and the 32-byte challenge digest.
#[derive(Clone, Copy, Debug)]
pub struct Signature {
    pub prover_response: Scalar,
    pub verifier_challenge: [u8; 32],
}

pub open spec fn salt_bytes(salt: Option<[u8; 32]>) -> Seq<u8> {
    match salt {
        Some(s) => s@,
        None => seq![],
    }
}

/// What the challenge hashes: the salt, the public key, the commitment and the
/// length-prefixed message.
pub open spec fn challenge_input(
    salt: Option<[u8; 32]>,
    public_key: Seq<u8>,
    commitment: Seq<u8>,
    message: Seq<u8>,
) -> Seq<u8> {
    salt_bytes(salt) + public_key + commitment + encode_byte_string(message)
}

/// The challenge digest reduced into the scalar field.
pub open spec fn challenge_scalar(challenge: Seq<u8>) -> int {
    le_nat(challenge) as int % order()
}

/// The commitment that verification recomputes: `s·G + e·pk`.
pub open spec fn claimed_commitment(
    generator: Seq<u8>,
    public_key: Seq<u8>,
    response: int,
    challenge: Seq<u8>,
) -> Option<Seq<u8>> {
    match (g1_mul(generator, response), g1_mul(public_key, challenge_scalar(challenge))) {
        (Some(a), Some(b)) => g1_add(a, b),
        _ => None,
    }
}

fn challenge(params: &Parameters, public_key: &Point, commitment: &Point, message: &[u8]) -> (r: Result<
    [u8; 32],
    PpssError,
>)
    ensures
        r matches Ok(e) && e@ == blake2s(
            challenge_input(params.salt, public_key.bytes@, commitment.bytes@, message@),
        ),
{
    let mut hash_input: Vec<u8> = Vec::new();
    match &params.salt {
        Some(salt) => append_bytes(&mut hash_input, salt),
        None => {},
    }
    append_bytes(&mut hash_input, &public_key.bytes);
    append_bytes(&mut hash_input, &commitment.bytes);
    let encoded = serialize_byte_string(message);
    append_bytes(&mut hash_input, encoded.as_slice());
    assert(hash_input@ =~= challenge_input(
        params.salt,
        public_key.bytes@,
        commitment.bytes@,
        message@,
    ));
    let digest = blake2s_digest(hash_input.as_slice());
    if digest.len() < 32 {
        return Err(PpssError::SerializationError);
    }
    let mut e = [0u8; 32];
    let mut i: usize = 0;
    while i < 32
        invariant
            i <= 32,
            digest@.len() == 32,
            forall|j: int| 0 <= j < i ==> e@[j] == digest@[j],
        decreases 32 - i,
    {
        e[i] = digest[i];
        i = i + 1;
    }
    assert(e@ =~= digest@);
    Ok(e)
}

fn digests_equal(a: &[u8; 32], b: &[u8; 32]) -> (r: bool)
    ensures
        r == (a@ == b@),
{
    let mut i: usize = 0;
    while i < 32
        invariant
            i <= 32,
            forall|j: int| 0 <= j < i ==> a@[j] == b@[j],
        decreases 32 - i,
    {
        if a[i] != b[i] {
            return false;
        }
        i = i + 1;
    }
    assert(a@ =~= b@);
    true
}

impl Schnorr {
    /// The parameters: the generator of G1 and no salt.
    pub fn setup() -> (r: Parameters)
        ensures
            r.generator.bytes@ == g1_generator_bytes(),
            r.salt is None,
    {
        Parameters { generator: g1_generator(), salt: None }
    }

    /// The key pair of `secret_key` (a uniformly random scalar): the public key
    /// is the generator times it.
    pub fn keygen(parameters: &Parameters, secret_key: Scalar) -> (r: Result<(Point, Scalar), PpssError>)
        ensures
            r is Ok <==> g1_mul(parameters.generator.bytes@, secret_key.elem()) is Some,
            r matches Err(e) ==> e == PpssError::SerializationError,
            r matches Ok((pk, sk)) ==> sk == secret_key && g1_mul(
                parameters.generator.bytes@,
                secret_key.elem(),
            ) == Some(pk.bytes@),
    {
        match point_mul(&parameters.generator, &secret_key) {
            Some(public_key) => Ok((public_key, secret_key)),
            None => Err(PpssError::SerializationError),
        }
    }

    /// Signs `message` with nonce `random_scalar` (fresh and uniformly random
    /// for every signature): `R = k·G`, `e = H(salt || pk || R || m)`, and
    /// `s = k - e·sk`.
    pub fn sign(parameters: &Parameters, sk: &Scalar, message: &[u8], random_scalar: &Scalar) -> (r:
        Result<Signature, PpssError>)
        ensures
            ({
                let commitment = g1_mul(parameters.generator.bytes@, random_scalar.elem());
                let public_key = g1_mul(parameters.generator.bytes@, sk.elem());
                &&& r is Ok <==> (commitment is Some && public_key is Some)
                &&& r matches Err(e) ==> e == PpssError::SerializationError
                &&& r matches Ok(sig) ==> {
                    &&& sig.verifier_challenge@ == blake2s(
                        challenge_input(
                            parameters.salt,
                            public_key->Some_0,
                            commitment->Some_0,
                            message@,
                        ),
                    )
                    &&& sig.prover_response.is_canonical_of(
                        (random_scalar.val() - (challenge_scalar(sig.verifier_challenge@)
                            * sk.val()) % order()) % order(),
                    )
                }
            }),
    {
        let prover_commitment = match point_mul(&parameters.generator, random_scalar) {
            Some(p) => p,
            None => return Err(PpssError::SerializationError),
        };
        let public_key = match point_mul(&parameters.generator, sk) {
            Some(p) => p,
            None => return Err(PpssError::SerializationError),
        };
        let verifier_challenge = challenge(parameters, &public_key, &prover_commitment, message)?;
        let verifier_challenge_fe = scalar_from_le_bytes_mod_order(&verifier_challenge);
        let product = scalar_mul(&verifier_challenge_fe, sk);
        let prover_response = scalar_sub(random_scalar, &product);
        Ok(Signature { prover_response, verifier_challenge })
    }

    /// Verifies a signature: recomputes `R' = s·G + e·pk` and accepts exactly
    /// when `H(salt || pk || R' || m)` is the signature's challenge.
    pub fn verify(parameters: &Parameters, pk: &Point, message: &[u8], signature: &Signature) -> (r:
        Result<bool, PpssError>)
        ensures
            ({
                let commitment = claimed_commitment(
                    parameters.generator.bytes@,
                    pk.bytes@,
                    signature.prover_response.elem(),
                    signature.verifier_challenge@,
                );
                &&& r is Ok <==> commitment is Some
                &&& r matches Err(e) ==> e == PpssError::SerializationError
                &&& r matches Ok(b) ==> b == (signature.verifier_challenge@ == blake2s(
                    challenge_input(parameters.salt, pk.bytes@, commitment->Some_0, message@),
                ))
            }),
    {
        let verifier_challenge_fe = scalar_from_le_bytes_mod_order(&signature.verifier_challenge);
        proof {
            vstd::arithmetic::div_mod::lemma_small_mod(
                verifier_challenge_fe.val() as nat,
                order() as nat,
            );
        }
        let s_g = match point_mul(&parameters.generator, &signature.prover_response) {
            Some(p) => p,
            None => return Err(PpssError::SerializationError),
        };
        let e_y = match point_mul(pk, &verifier_challenge_fe) {
            Some(p) => p,
            None => return Err(PpssError::SerializationError),
        };
        let claimed_prover_commitment = match point_add(&s_g, &e_y) {
            Some(p) => p,
            None => return Err(PpssError::SerializationError),
        };
        let obtained = challenge(parameters, pk, &claimed_prover_commitment, message)?;
        Ok(digests_equal(&obtained, &signature.verifier_challenge))
    }
}

} // verus!
