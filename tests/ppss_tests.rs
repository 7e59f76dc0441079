use ark_bls12_381::{Fr, G1Affine};
use ark_ec::{AffineRepr, CurveGroup};
use ark_ff::{Field, PrimeField};
use ark_serialize::{CanonicalDeserialize, CanonicalSerialize};
use blake2::Digest;
use bedrock_ppss::error::PpssError;
use bedrock_ppss::field::Scalar;
use bedrock_ppss::group::Point;
use bedrock_ppss::hashing::{hash_to_fr, HashDomainSeparator};
use bedrock_ppss::ppss::{
    evaluate_prf, fr_to_32bytes, hash_to_g1point, oprf_input, Ciphertext, ClientState,
    Parameters, PrfOutput, PublicKey, SecretKey, JKKX16,
};

fn sc(v: u64) -> Scalar {
    let mut bytes = [0u8; 32];
    bytes[..8].copy_from_slice(&v.to_le_bytes());
    Scalar { bytes }
}

fn to_fr(s: &Scalar) -> Fr {
    Fr::from_le_bytes_mod_order(&s.bytes)
}

fn to_affine(p: &Point) -> G1Affine {
    G1Affine::deserialize_compressed(&p.bytes[..]).unwrap()
}

const SEEDS: [[u8; 32]; 3] = [[1u8; 32], [2u8; 32], [3u8; 32]];

fn responses(
    pp: &Parameters,
    client_id: &[u8],
    input: &bedrock_ppss::ppss::PrfInput,
) -> Vec<(PublicKey, PrfOutput)> {
    SEEDS
        .iter()
        .map(|seed| JKKX16::server_process_keygen_request(pp, seed, client_id, input).unwrap())
        .collect()
}

fn register(password: &[u8]) -> (SecretKey, Ciphertext) {
    let pp = JKKX16::setup();
    let (state, input) =
        JKKX16::client_generate_keygen_request(&pp, b"alice", password, sc(987_654_321)).unwrap();
    let resp = responses(&pp, b"alice", &input);
    JKKX16::client_keygen(&pp, &state, &resp, 3, 2, &sc(0x5eed_5eed), &vec![sc(4242)]).unwrap()
}

fn reconstruct(password: &[u8], ct: &Ciphertext) -> Result<SecretKey, PpssError> {
    let pp = JKKX16::setup();
    let (state, input) =
        JKKX16::client_generate_reconstruct_request(&pp, b"alice", password, sc(13_579)).unwrap();
    let resp: Vec<(PublicKey, PrfOutput)> = SEEDS
        .iter()
        .map(|seed| {
            let out =
                JKKX16::server_process_reconstruct_request(&pp, seed, b"alice", &input).unwrap();
            (pp.generator, out)
        })
        .collect();
    JKKX16::client_reconstruct(&pp, &state, &resp, ct)
}

#[test]
fn jkkx16_round_trip() {
    let (key, ct) = register(b"123456");
    assert_eq!(ct.encrypted_shares.len(), 3);
    assert_eq!(reconstruct(b"123456", &ct).unwrap(), key);
}

#[test]
fn jkkx16_wrong_password_fails_check() {
    let (_key, ct) = register(b"123456");
    assert_eq!(reconstruct(b"000000", &ct).unwrap_err(), PpssError::IntegrityCheckFailed);
}

#[test]
fn jkkx16_tampered_share_fails_check() {
    let (_key, ct) = register(b"123456");
    for share in 0..3 {
        for bit in [0usize, 9, 100, 250] {
            let mut bad = ct.clone();
            bad.encrypted_shares[share].1.bytes[bit / 8] ^= 1 << (bit % 8);
            assert_eq!(reconstruct(b"123456", &bad).unwrap_err(), PpssError::IntegrityCheckFailed);
        }
    }
}

#[test]
fn jkkx16_tampered_check_value_fails_check() {
    let (_key, ct) = register(b"123456");
    for bit in [0usize, 64, 200] {
        let mut bad = ct.clone();
        bad.hash.bytes[bit / 8] ^= 1 << (bit % 8);
        assert_eq!(reconstruct(b"123456", &bad).unwrap_err(), PpssError::IntegrityCheckFailed);
    }
}

#[test]
fn jkkx16_reordered_servers_fail_check() {
    let (_key, mut ct) = register(b"123456");
    ct.encrypted_shares.swap(0, 1);
    assert_eq!(reconstruct(b"123456", &ct).unwrap_err(), PpssError::IntegrityCheckFailed);
}

#[test]
fn client_keygen_rejects_wrong_response_count() {
    let pp = JKKX16::setup();
    let (state, input) =
        JKKX16::client_generate_keygen_request(&pp, b"bob", b"123456", sc(5)).unwrap();
    let resp = responses(&pp, b"bob", &input);
    let err = JKKX16::client_keygen(&pp, &state, &resp, 4, 2, &sc(1), &vec![sc(2)]).unwrap_err();
    assert_eq!(err, PpssError::InvalidParameters);
    let err = JKKX16::client_keygen(&pp, &state, &resp, 3, 4, &sc(1), &vec![sc(2); 3]).unwrap_err();
    assert_eq!(err, PpssError::InvalidParameters);
}

#[test]
fn client_keygen_rejects_zero_blind() {
    let pp = JKKX16::setup();
    let (_state, input) =
        JKKX16::client_generate_keygen_request(&pp, b"bob", b"123456", sc(5)).unwrap();
    let resp = responses(&pp, b"bob", &input);
    let state = ClientState { blind_scalar: sc(0), client_id: b"bob".to_vec(), password: b"123456".to_vec() };
    let err = JKKX16::client_keygen(&pp, &state, &resp, 3, 2, &sc(1), &vec![sc(2)]).unwrap_err();
    assert_eq!(err, PpssError::InvalidParameters);
}

#[test]
fn client_reconstruct_rejects_wrong_response_count() {
    let (_key, ct) = register(b"123456");
    let pp = JKKX16::setup();
    let (state, input) =
        JKKX16::client_generate_reconstruct_request(&pp, b"alice", b"123456", sc(3)).unwrap();
    let mut resp = responses(&pp, b"alice", &input);
    resp.pop();
    let err = JKKX16::client_reconstruct(&pp, &state, &resp, &ct).unwrap_err();
    assert_eq!(err, PpssError::InvalidParameters);
}

#[test]
fn invalid_point_encoding_is_a_serialization_error() {
    let pp = JKKX16::setup();
    let (_state, mut input) =
        JKKX16::client_generate_keygen_request(&pp, b"bob", b"123456", sc(5)).unwrap();
    input.blinded_prf_input.bytes = [0u8; 48];
    let err = JKKX16::server_process_keygen_request(&pp, &SEEDS[0], b"bob", &input).unwrap_err();
    assert_eq!(err, PpssError::SerializationError);
}

#[test]
fn setup_uses_the_g1_generator() {
    let pp = JKKX16::setup();
    assert_eq!(to_affine(&pp.generator), G1Affine::generator());
}

#[test]
fn oprf_blinding_invariance() {
    let pp = JKKX16::setup();
    let (b1, in1) = oprf_input(b"carol", b"123456", sc(1111)).unwrap();
    let (b2, in2) = oprf_input(b"carol", b"123456", sc(2222)).unwrap();
    assert_ne!(in1.blinded_prf_input.bytes, in2.blinded_prf_input.bytes);
    let (pk, out1) = evaluate_prf(&pp, &SEEDS[0], b"carol", &in1).unwrap();
    let (_, out2) = evaluate_prf(&pp, &SEEDS[0], b"carol", &in2).unwrap();
    let u1 = (to_affine(&out1.blinded_prf_output) * to_fr(&b1).inverse().unwrap()).into_affine();
    let u2 = (to_affine(&out2.blinded_prf_output) * to_fr(&b2).inverse().unwrap()).into_affine();
    assert_eq!(u1, u2);
    let sk = hash_to_fr(
        HashDomainSeparator::ServerKeyDerivation,
        &vec![],
        &vec![],
        &vec![SEEDS[0].to_vec(), b"carol".to_vec()],
    )
    .unwrap();
    let h = hash_to_g1point(&b"123456".to_vec()).unwrap();
    assert_eq!(u1, (to_affine(&h) * to_fr(&sk)).into_affine());
    assert_eq!(to_affine(&pk), (G1Affine::generator() * to_fr(&sk)).into_affine());
}

#[test]
fn hash_to_curve_is_deterministic() {
    let a = hash_to_g1point(&b"123456".to_vec()).unwrap();
    let b = hash_to_g1point(&b"123456".to_vec()).unwrap();
    let c = hash_to_g1point(&b"123457".to_vec()).unwrap();
    assert_eq!(a.bytes, b.bytes);
    assert_ne!(a.bytes, c.bytes);
    let p = to_affine(&a);
    assert!(p.is_on_curve() && p.is_in_correct_subgroup_assuming_on_curve());
}

#[test]
fn hash_to_fr_matches_its_definition() {
    let point = hash_to_g1point(&b"pw".to_vec()).unwrap();
    let got = hash_to_fr(
        HashDomainSeparator::MaskDerivation,
        &vec![point],
        &vec![sc(7)],
        &vec![b"abc".to_vec()],
    )
    .unwrap();
    let mut input = vec![1u8];
    input.extend_from_slice(&point.bytes);
    input.extend_from_slice(&sc(7).bytes);
    input.extend_from_slice(&3u64.to_le_bytes());
    input.extend_from_slice(b"abc");
    let digest = blake2::Blake2s256::digest(&input);
    let expected = Fr::from_le_bytes_mod_order(&digest);
    let mut expected_bytes = [0u8; 32];
    expected.serialize_compressed(&mut expected_bytes[..]).unwrap();
    assert_eq!(got.bytes, expected_bytes);
    assert_eq!(fr_to_32bytes(&got), expected_bytes);
}

#[test]
fn hash_to_fr_tags_are_separated() {
    let tags = [
        HashDomainSeparator::ServerKeyDerivation,
        HashDomainSeparator::MaskDerivation,
        HashDomainSeparator::DataKeyDerivation,
        HashDomainSeparator::ReconstructionCheckDerivation,
    ];
    let outs: Vec<[u8; 32]> = tags
        .iter()
        .map(|t| hash_to_fr(*t, &vec![], &vec![], &vec![b"x".to_vec()]).unwrap().bytes)
        .collect();
    for i in 0..4 {
        assert_eq!(tags[i].tag(), i as u8);
        for j in 0..i {
            assert_ne!(outs[i], outs[j]);
        }
    }
}

#[test]
fn setup_generator_has_the_standard_encoding() {
    let expected: [u8; 48] = [
        0x97, 0xf1, 0xd3, 0xa7, 0x31, 0x97, 0xd7, 0x94, 0x26, 0x95, 0x63, 0x8c, 0x4f, 0xa9, 0xac,
        0x0f, 0xc3, 0x68, 0x8c, 0x4f, 0x97, 0x74, 0xb9, 0x05, 0xa1, 0x4e, 0x3a, 0x3f, 0x17, 0x1b,
        0xac, 0x58, 0x6c, 0x55, 0xe8, 0x3f, 0xf9, 0x7a, 0x1a, 0xef, 0xfb, 0x3a, 0xf0, 0x0a, 0xdb,
        0x22, 0xc6, 0xbb,
    ];
    assert_eq!(JKKX16::setup().generator.bytes, expected);
    assert_eq!(bedrock_ppss::schnorr::Schnorr::setup().generator.bytes, expected);
}

#[test]
fn jkkx16_round_trip_with_unreduced_secret() {
    let pp = JKKX16::setup();
    let (state, input) =
        JKKX16::client_generate_keygen_request(&pp, b"alice", b"123456", sc(77)).unwrap();
    let resp = responses(&pp, b"alice", &input);
    let secret = Scalar { bytes: [0xffu8; 32] };
    let (key, ct) = JKKX16::client_keygen(&pp, &state, &resp, 3, 2, &secret, &vec![sc(9)]).unwrap();
    assert_eq!(reconstruct(b"123456", &ct).unwrap(), key);
}
