use ark_bls12_381::{Fr, G1Affine};
use ark_ec::{AffineRepr, CurveGroup};
use ark_ff::PrimeField;
use ark_serialize::CanonicalDeserialize;
use bedrock_ppss::field::Scalar;
use bedrock_ppss::schnorr::Schnorr;

fn sc(v: u64) -> Scalar {
    let mut bytes = [0u8; 32];
    bytes[..8].copy_from_slice(&v.to_le_bytes());
    Scalar { bytes }
}

#[test]
fn schnorr_keygen_is_generator_times_secret() {
    let params = Schnorr::setup();
    assert!(params.salt.is_none());
    let (pk, sk) = Schnorr::keygen(&params, sc(424242)).unwrap();
    assert_eq!(sk.bytes, sc(424242).bytes);
    let expected = (G1Affine::generator() * Fr::from(424242u64)).into_affine();
    assert_eq!(G1Affine::deserialize_compressed(&pk.bytes[..]).unwrap(), expected);
}

#[test]
fn schnorr_sign_then_verify() {
    let params = Schnorr::setup();
    for (secret, nonce, msg) in [(7u64, 11u64, &b"hello"[..]), (123456, 654321, &b""[..]), (1, 2, &b"vault"[..])] {
        let (pk, sk) = Schnorr::keygen(&params, sc(secret)).unwrap();
        let sig = Schnorr::sign(&params, &sk, msg, &sc(nonce)).unwrap();
        assert!(Schnorr::verify(&params, &pk, msg, &sig).unwrap());
    }
}

#[test]
fn schnorr_response_is_nonce_minus_challenge_times_key() {
    let params = Schnorr::setup();
    let (_pk, sk) = Schnorr::keygen(&params, sc(99)).unwrap();
    let sig = Schnorr::sign(&params, &sk, b"m", &sc(1234)).unwrap();
    let e = Fr::from_le_bytes_mod_order(&sig.verifier_challenge);
    let s = Fr::from(1234u64) - e * Fr::from(99u64);
    assert_eq!(Fr::from_le_bytes_mod_order(&sig.prover_response.bytes), s);
}

#[test]
fn schnorr_rejects_changed_message_or_signature() {
    let params = Schnorr::setup();
    let (pk, sk) = Schnorr::keygen(&params, sc(31)).unwrap();
    let msg = b"attack at dawn".to_vec();
    let sig = Schnorr::sign(&params, &sk, &msg, &sc(17)).unwrap();
    for i in 0..msg.len() {
        let mut m = msg.clone();
        m[i] ^= 0x01;
        assert!(!Schnorr::verify(&params, &pk, &m, &sig).unwrap());
    }
    for i in 0..32 {
        let mut bad = sig;
        bad.verifier_challenge[i] ^= 0x80;
        assert!(!Schnorr::verify(&params, &pk, &msg, &bad).unwrap());
        let mut bad = sig;
        bad.prover_response.bytes[i % 31] ^= 0x01;
        assert!(!Schnorr::verify(&params, &pk, &msg, &bad).unwrap());
    }
}

#[test]
fn schnorr_rejects_other_public_key() {
    let params = Schnorr::setup();
    let (_pk, sk) = Schnorr::keygen(&params, sc(31)).unwrap();
    let (other, _) = Schnorr::keygen(&params, sc(32)).unwrap();
    let sig = Schnorr::sign(&params, &sk, b"m", &sc(5)).unwrap();
    assert!(!Schnorr::verify(&params, &other, b"m", &sig).unwrap());
}

#[test]
fn schnorr_salted_sign_then_verify() {
    let mut params = Schnorr::setup();
    params.salt = Some([9u8; 32]);
    let (pk, sk) = Schnorr::keygen(&params, sc(8)).unwrap();
    let sig = Schnorr::sign(&params, &sk, b"salted", &sc(3)).unwrap();
    assert!(Schnorr::verify(&params, &pk, b"salted", &sig).unwrap());
    let unsalted = Schnorr::setup();
    assert!(!Schnorr::verify(&unsalted, &pk, b"salted", &sig).unwrap());
}
