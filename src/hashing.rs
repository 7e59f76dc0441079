//! Domain-separated hashing of points, scalars and byte strings into the
//! scalar field.
use ark_serialize::CanonicalSerialize;
use blake2::Blake2s256;
use digest::Digest;
use vstd::prelude::*;

use crate::error::PpssError;
use crate::field::{le_bytes, le_nat, order, scalar_from_le_bytes_mod_order, Scalar};
use crate::group::Point;

verus! {

/// The BLAKE2s-256 digest of `m`.
pub uninterp spec fn blake2s(m: Seq<u8>) -> Seq<u8>;

/// Relies on `Blake2s256::digest`: a 32-byte digest of the input alone.
#[verifier::external_body]
pub(crate) fn blake2s_digest(m: &[u8]) -> (r: Vec<u8>)
    ensures
        r@ == blake2s(m@),
        r@.len() == 32,
{
    Blake2s256::digest(m).to_vec()
}

/// The canonical encoding of a byte string: its length as 8 little-endian
/// bytes, then the bytes.
pub open spec fn encode_byte_string(b: Seq<u8>) -> Seq<u8> {
    le_bytes(b.len(), 8) + b
}

/// Relies on `CanonicalSerialize` for byte slices: a `u64` length prefix in
/// little-endian order, then each byte.
#[verifier::external_body]
pub(crate) fn serialize_byte_string(b: &[u8]) -> (r: Vec<u8>)
    ensures
        r@ == encode_byte_string(b@),
{
    let mut out = Vec::new();
    b.serialize_compressed(&mut out).unwrap();
    out
}

/// The four uses of the hash, each with its own tag.
#[derive(Clone, Copy, Debug, PartialEq, Eq, Structural)]
pub enum HashDomainSeparator {
    ServerKeyDerivation,
    MaskDerivation,
    DataKeyDerivation,
    ReconstructionCheckDerivation,
}

impl HashDomainSeparator {
    pub open spec fn spec_tag(self) -> u8 {
        match self {
            HashDomainSeparator::ServerKeyDerivation => 0,
            HashDomainSeparator::MaskDerivation => 1,
            HashDomainSeparator::DataKeyDerivation => 2,
            HashDomainSeparator::ReconstructionCheckDerivation => 3,
        }
    }

    /// The one-byte tag that starts the hash input.
    pub fn tag(self) -> (r: u8)
        ensures
            r == self.spec_tag(),
    {
        match self {
            HashDomainSeparator::ServerKeyDerivation => 0,
            HashDomainSeparator::MaskDerivation => 1,
            HashDomainSeparator::DataKeyDerivation => 2,
            HashDomainSeparator::ReconstructionCheckDerivation => 3,
        }
    }
}

pub open spec fn points_view(ps: Seq<Point>) -> Seq<Seq<u8>> {
    ps.map_values(|p: Point| p.bytes@)
}

pub open spec fn scalars_view(ss: Seq<Scalar>) -> Seq<Seq<u8>> {
    ss.map_values(|s: Scalar| s.bytes@)
}

pub open spec fn byte_strings_view(bs: Seq<Vec<u8>>) -> Seq<Seq<u8>> {
    bs.map_values(|b: Vec<u8>| b@)
}

/// The bytes that are hashed: the tag, each point, each scalar, then each
/// byte string with its length prefix.
pub open spec fn hash_input(
    tag: u8,
    points: Seq<Seq<u8>>,
    scalars: Seq<Seq<u8>>,
    strings: Seq<Seq<u8>>,
) -> Seq<u8> {
    seq![tag] + points.flatten() + scalars.flatten() + strings.map_values(
        |b: Seq<u8>| encode_byte_string(b),
    ).flatten()
}

/// The field element that the hash of a tagged tuple reduces to.
pub open spec fn derived_scalar(
    tag: u8,
    points: Seq<Seq<u8>>,
    scalars: Seq<Seq<u8>>,
    strings: Seq<Seq<u8>>,
) -> int {
    le_nat(blake2s(hash_input(tag, points, scalars, strings))) as int % order()
}

/// Appends `b` to `buf`.
pub fn append_bytes(buf: &mut Vec<u8>, b: &[u8])
    ensures
        final(buf)@ == old(buf)@ + b@,
{
    let mut i: usize = 0;
    while i < b.len()
        invariant
            i <= b@.len(),
            buf@ == old(buf)@ + b@.subrange(0, i as int),
        decreases b@.len() - i,
    {
        buf.push(b[i]);
        i = i + 1;
        assert(buf@ =~= old(buf)@ + b@.subrange(0, i as int));
    }
    assert(b@.subrange(0, b@.len() as int) =~= b@);
}

/// Hashes the tag, the points, the scalars and the byte strings, in that
/// order, and reduces the digest modulo the field order.
pub fn hash_to_fr(
    domain_separator: HashDomainSeparator,
    affine_inputs: &Vec<Point>,
    scalar_inputs: &Vec<Scalar>,
    bytearray_inputs: &Vec<Vec<u8>>,
) -> (r: Result<Scalar, PpssError>)
    ensures
        r matches Ok(s) && s.is_canonical_of(
            derived_scalar(
                domain_separator.spec_tag(),
                points_view(affine_inputs@),
                scalars_view(scalar_inputs@),
                byte_strings_view(bytearray_inputs@),
            ),
        ),
{
    let ghost pts = points_view(affine_inputs@);
    let ghost scs = scalars_view(scalar_inputs@);
    let ghost bss = byte_strings_view(bytearray_inputs@).map_values(
        |b: Seq<u8>| encode_byte_string(b),
    );
    let mut hash_input_bytes: Vec<u8> = Vec::new();
    hash_input_bytes.push(domain_separator.tag());
    let ghost start = hash_input_bytes@;
    let mut i: usize = 0;
    while i < affine_inputs.len()
        invariant
            i <= affine_inputs@.len(),
            pts == points_view(affine_inputs@),
            hash_input_bytes@ == start + pts.take(i as int).flatten(),
        decreases affine_inputs@.len() - i,
    {
        append_bytes(&mut hash_input_bytes, &affine_inputs[i].bytes);
        proof {
            assert(pts.take(i + 1) =~= pts.take(i as int).push(pts[i as int]));
            pts.take(i as int).lemma_flatten_push(pts[i as int]);
        }
        i = i + 1;
    }
    assert(pts.take(i as int) =~= pts);
    let ghost mid = hash_input_bytes@;
    let mut i: usize = 0;
    while i < scalar_inputs.len()
        invariant
            i <= scalar_inputs@.len(),
            scs == scalars_view(scalar_inputs@),
            hash_input_bytes@ == mid + scs.take(i as int).flatten(),
        decreases scalar_inputs@.len() - i,
    {
        append_bytes(&mut hash_input_bytes, &scalar_inputs[i].bytes);
        proof {
            assert(scs.take(i + 1) =~= scs.take(i as int).push(scs[i as int]));
            scs.take(i as int).lemma_flatten_push(scs[i as int]);
        }
        i = i + 1;
    }
    assert(scs.take(i as int) =~= scs);
    let ghost last = hash_input_bytes@;
    let mut i: usize = 0;
    while i < bytearray_inputs.len()
        invariant
            i <= bytearray_inputs@.len(),
            bss == byte_strings_view(bytearray_inputs@).map_values(
                |b: Seq<u8>| encode_byte_string(b),
            ),
            hash_input_bytes@ == last + bss.take(i as int).flatten(),
        decreases bytearray_inputs@.len() - i,
    {
        let encoded = serialize_byte_string(bytearray_inputs[i].as_slice());
        append_bytes(&mut hash_input_bytes, encoded.as_slice());
        proof {
            assert(bss.take(i + 1) =~= bss.take(i as int).push(bss[i as int]));
            bss.take(i as int).lemma_flatten_push(bss[i as int]);
        }
        i = i + 1;
    }
    assert(bss.take(i as int) =~= bss);
    assert(hash_input_bytes@ =~= hash_input(
        domain_separator.spec_tag(),
        pts,
        scs,
        byte_strings_view(bytearray_inputs@),
    ));
    let digest = blake2s_digest(hash_input_bytes.as_slice());
    if digest.len() < 32 {
        return Err(PpssError::SerializationError);
    }
    Ok(scalar_from_le_bytes_mod_order(digest.as_slice()))
}

} // verus!
