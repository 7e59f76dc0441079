//! Elements of the scalar field of BLS12-381, held as their canonical 32-byte
//! little-endian encoding; all arithmetic is done by `ark_ff`.
use ark_bls12_381::Fr;
use ark_ff::{Field, PrimeField};
use ark_serialize::CanonicalSerialize;
use vstd::prelude::*;

verus! {

/// The order of the scalar field (the prime order of the G1 subgroup).
pub open spec fn order() -> int {
    0x73eda753299d7d48int * 0x1000000000000000000000000000000000000000000000000int
        + 0x3339d80809a1d805int * 0x100000000000000000000000000000000int
        + 0x53bda402fffe5bfeint * 0x10000000000000000int
        + 0xffffffff00000001int
}

/// The integer whose little-endian encoding is `b`.
pub open spec fn le_nat(b: Seq<u8>) -> nat
    decreases b.len(),
{
    if b.len() == 0 {
        0
    } else {
        b[0] as nat + 256 * le_nat(b.drop_first())
    }
}

/// The `len`-byte little-endian encoding of `n`.
pub open spec fn le_bytes(n: nat, len: nat) -> Seq<u8>
    decreases len,
{
    if len == 0 {
        Seq::empty()
    } else {
        seq![(n % 256) as u8] + le_bytes(n / 256, (len - 1) as nat)
    }
}

/// The multiplicative inverse of `a` in the scalar field.
pub open spec fn field_inv(a: int) -> int {
    choose|b: int| 0 <= b < order() && #[trigger] (a * b) % order() == 1
}

/// A scalar field element, as 32 little-endian bytes.
#[derive(Clone, Copy, Debug)]
pub struct Scalar {
    pub bytes: [u8; 32],
}

impl Scalar {
    /// The integer that the bytes encode.
    pub open spec fn val(&self) -> int {
        le_nat(self.bytes@) as int
    }

    /// The field element that the bytes stand for.
    pub open spec fn elem(&self) -> int {
        self.val() % order()
    }

    /// Canonical: the encoding of an integer below the field order.
    pub open spec fn wf(&self) -> bool {
        self.val() < order()
    }

    /// The canonical scalar of field element `v`.
    pub open spec fn is_canonical_of(&self, v: int) -> bool {
        0 <= v < order() && self.val() == v && self.bytes@ == le_bytes(v as nat, 32)
    }
}

/// Relies on `PrimeField::from_le_bytes_mod_order`: reads `b` as a little-endian
/// integer and reduces it modulo the field order.
#[verifier::external_body]
pub(crate) fn scalar_from_le_bytes_mod_order(b: &[u8]) -> (r: Scalar)
    ensures
        r.is_canonical_of(le_nat(b@) as int % order()),
{
    let f = Fr::from_le_bytes_mod_order(b);
    let mut bytes = [0u8; 32];
    f.serialize_compressed(&mut bytes[..]).unwrap();
    Scalar { bytes }
}

/// Relies on `From<u64> for Fr`: the field element of a small integer.
#[verifier::external_body]
pub(crate) fn scalar_from_u64(v: u64) -> (r: Scalar)
    ensures
        r.is_canonical_of(v as int),
{
    let f = Fr::from(v);
    let mut bytes = [0u8; 32];
    f.serialize_compressed(&mut bytes[..]).unwrap();
    Scalar { bytes }
}

/// Relies on `Add for Fr`: addition modulo the field order.
#[verifier::external_body]
pub(crate) fn scalar_add(a: &Scalar, b: &Scalar) -> (r: Scalar)
    ensures
        r.is_canonical_of((a.val() + b.val()) % order()),
{
    let f = Fr::from_le_bytes_mod_order(&a.bytes) + Fr::from_le_bytes_mod_order(&b.bytes);
    let mut bytes = [0u8; 32];
    f.serialize_compressed(&mut bytes[..]).unwrap();
    Scalar { bytes }
}

/// Relies on `Sub for Fr`: subtraction modulo the field order.
#[verifier::external_body]
pub(crate) fn scalar_sub(a: &Scalar, b: &Scalar) -> (r: Scalar)
    ensures
        r.is_canonical_of((a.val() - b.val()) % order()),
{
    let f = Fr::from_le_bytes_mod_order(&a.bytes) - Fr::from_le_bytes_mod_order(&b.bytes);
    let mut bytes = [0u8; 32];
    f.serialize_compressed(&mut bytes[..]).unwrap();
    Scalar { bytes }
}

/// Relies on `Mul for Fr`: multiplication modulo the field order.
#[verifier::external_body]
pub(crate) fn scalar_mul(a: &Scalar, b: &Scalar) -> (r: Scalar)
    ensures
        r.is_canonical_of((a.val() * b.val()) % order()),
{
    let f = Fr::from_le_bytes_mod_order(&a.bytes) * Fr::from_le_bytes_mod_order(&b.bytes);
    let mut bytes = [0u8; 32];
    f.serialize_compressed(&mut bytes[..]).unwrap();
    Scalar { bytes }
}

/// Relies on `Field::inverse`: `None` for zero, else the inverse.
#[verifier::external_body]
pub(crate) fn scalar_inverse(a: &Scalar) -> (r: Option<Scalar>)
    ensures
        r is None <==> a.elem() == 0,
        r matches Some(x) ==> x.is_canonical_of(field_inv(a.elem())),
{
    let f = Fr::from_le_bytes_mod_order(&a.bytes).inverse()?;
    let mut bytes = [0u8; 32];
    f.serialize_compressed(&mut bytes[..]).unwrap();
    Some(Scalar { bytes })
}

/// Whether two scalars have the same encoding (for canonical scalars: the same
/// field element).
pub fn scalar_eq(a: &Scalar, b: &Scalar) -> (r: bool)
    ensures
        r == (a.bytes@ == b.bytes@),
        a.wf() && b.wf() ==> r == (a.val() == b.val()),
{
    let mut i: usize = 0;
    while i < 32
        invariant
            i <= 32,
            forall|j: int| 0 <= j < i ==> a.bytes@[j] == b.bytes@[j],
        decreases 32 - i,
    {
        if a.bytes[i] != b.bytes[i] {
            proof {
                lemma_le_nat_injective(a.bytes@, b.bytes@);
            }
            return false;
        }
        i = i + 1;
    }
    assert(a.bytes@ =~= b.bytes@);
    true
}

/// Two encodings of one length with the same value are the same bytes.
pub proof fn lemma_le_nat_injective(a: Seq<u8>, b: Seq<u8>)
    requires
        a.len() == b.len(),
    ensures
        le_nat(a) == le_nat(b) ==> a == b,
    decreases a.len(),
{
    if a.len() > 0 {
        lemma_le_nat_injective(a.drop_first(), b.drop_first());
        if le_nat(a) == le_nat(b) {
            assert(a[0] as nat == b[0] as nat) by (nonlinear_arith)
                requires
                    a[0] as nat + 256 * le_nat(a.drop_first()) == b[0] as nat + 256 * le_nat(
                        b.drop_first(),
                    ),
                    a[0] < 256,
                    b[0] < 256,
            ;
            assert(a =~= seq![a[0]] + a.drop_first());
            assert(b =~= seq![b[0]] + b.drop_first());
        }
    }
}

} // verus!
