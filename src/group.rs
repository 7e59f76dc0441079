//! Points of the G1 group of BLS12-381, held as their 48-byte compressed
//! encoding; the group law is computed by `ark_ec`.
use ark_bls12_381::{Fr, G1Affine, G1Projective};
use ark_ec::hashing::curve_maps::wb::WBMap;
use ark_ec::hashing::map_to_curve_hasher::MapToCurveBasedHasher;
use ark_ec::hashing::HashToCurve;
use ark_ec::{AffineRepr, CurveGroup};
use ark_ff::field_hashers::DefaultFieldHasher;
use ark_ff::PrimeField;
use ark_serialize::{CanonicalDeserialize, CanonicalSerialize};
use sha2::Sha256;
use vstd::prelude::*;

use crate::field::Scalar;

verus! {

/// A G1 point, as its compressed encoding.
#[derive(Clone, Copy, Debug)]
pub struct Point {
    pub bytes: [u8; 48],
}

/// The encoding of a point, where there is one.
pub open spec fn opt_bytes(p: Option<Point>) -> Option<Seq<u8>> {
    match p {
        Some(q) => Some(q.bytes@),
        None => None,
    }
}

/// The compressed encoding of `k` times the point encoded by `p`; `None` where
/// `p` is no valid encoding of a subgroup point.
pub uninterp spec fn g1_mul(p: Seq<u8>, k: int) -> Option<Seq<u8>>;

/// The compressed encoding of the sum of the points encoded by `p` and `q`.
pub uninterp spec fn g1_add(p: Seq<u8>, q: Seq<u8>) -> Option<Seq<u8>>;

/// The compressed encoding of the hash-to-curve of `msg` under tag `dst`
/// (SSWU with a SHA-256 field hasher, random-oracle variant).
pub uninterp spec fn hash_to_curve(dst: Seq<u8>, msg: Seq<u8>) -> Option<Seq<u8>>;

/// The compressed encoding of the standard generator of G1: its x-coordinate
/// in big-endian order, with the compression flag set in the top bit.
pub open spec fn g1_generator_bytes() -> Seq<u8> {
    seq![
        0x97, 0xf1, 0xd3, 0xa7, 0x31, 0x97, 0xd7, 0x94,
        0x26, 0x95, 0x63, 0x8c, 0x4f, 0xa9, 0xac, 0x0f,
        0xc3, 0x68, 0x8c, 0x4f, 0x97, 0x74, 0xb9, 0x05,
        0xa1, 0x4e, 0x3a, 0x3f, 0x17, 0x1b, 0xac, 0x58,
        0x6c, 0x55, 0xe8, 0x3f, 0xf9, 0x7a, 0x1a, 0xef,
        0xfb, 0x3a, 0xf0, 0x0a, 0xdb, 0x22, 0xc6, 0xbb,
    ]
}

/// Relies on `AffineRepr::generator` for G1 (the point `G1_GENERATOR_X`,
/// `G1_GENERATOR_Y`) and its compressed serialization.
#[verifier::external_body]
pub(crate) fn g1_generator() -> (r: Point)
    ensures
        r.bytes@ == g1_generator_bytes(),
{
    let mut bytes = [0u8; 48];
    G1Affine::generator().serialize_compressed(&mut bytes[..]).unwrap();
    Point { bytes }
}

/// Relies on `CanonicalDeserialize` for G1 (with subgroup validation), scalar
/// multiplication, and compressed serialization.
#[verifier::external_body]
pub(crate) fn point_mul(p: &Point, k: &Scalar) -> (r: Option<Point>)
    ensures
        opt_bytes(r) == g1_mul(p.bytes@, k.elem()),
{
    let a = G1Affine::deserialize_compressed(&p.bytes[..]).ok()?;
    let q: G1Affine = (a * Fr::from_le_bytes_mod_order(&k.bytes)).into_affine();
    let mut bytes = [0u8; 48];
    q.serialize_compressed(&mut bytes[..]).ok()?;
    Some(Point { bytes })
}

/// Relies on `CanonicalDeserialize` for G1 (with subgroup validation), point
/// addition, and compressed serialization.
#[verifier::external_body]
pub(crate) fn point_add(p: &Point, q: &Point) -> (r: Option<Point>)
    ensures
        opt_bytes(r) == g1_add(p.bytes@, q.bytes@),
{
    let a = G1Affine::deserialize_compressed(&p.bytes[..]).ok()?;
    let b = G1Affine::deserialize_compressed(&q.bytes[..]).ok()?;
    let s: G1Affine = (G1Projective::from(a) + b).into_affine();
    let mut bytes = [0u8; 48];
    s.serialize_compressed(&mut bytes[..]).ok()?;
    Some(Point { bytes })
}

/// Relies on `MapToCurveBasedHasher` with `DefaultFieldHasher<Sha256, 128>`
/// and `WBMap` for G1: a deterministic map from `msg` to a subgroup point.
#[verifier::external_body]
pub(crate) fn hash_to_curve_point(dst: &[u8], msg: &[u8]) -> (r: Option<Point>)
    ensures
        opt_bytes(r) == hash_to_curve(dst@, msg@),
{
    let mapper = MapToCurveBasedHasher::<
        G1Projective,
        DefaultFieldHasher<Sha256, 128>,
        WBMap<ark_bls12_381::g1::Config>,
    >::new(dst).ok()?;
    let q: G1Affine = mapper.hash(msg).ok()?;
    let mut bytes = [0u8; 48];
    q.serialize_compressed(&mut bytes[..]).ok()?;
    Some(Point { bytes })
}

} // verus!
