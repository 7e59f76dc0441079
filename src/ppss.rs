//! The threshold oblivious-PRF password-protected secret-sharing scheme of
//! Jarecki, Kiayias, Krawczyk and Xu (2016), over G1 of BLS12-381.
//!
//! The client blinds the hash of its password, each server evaluates its PRF
//! on the blinded point, and the client unblinds every answer into a mask for
//! one Shamir share of a fresh secret. The masked shares and a check value form
//! the ciphertext; the key is derived from the secret.
use vstd::prelude::*;
use vstd::string::StringSliceAdditionalSpecFns;

use crate::error::PpssError;
use crate::field::{
    field_inv, le_bytes, order, scalar_add, scalar_from_le_bytes_mod_order, scalar_eq, scalar_inverse, scalar_sub, Scalar,
};
use crate::group::{g1_generator, g1_generator_bytes, g1_mul, hash_to_curve, hash_to_curve_point, point_mul, Point};
use crate::hashing::{
    append_bytes, derived_scalar, hash_to_fr, scalars_view, HashDomainSeparator,
};
use crate::shamir::{
    share_ys, has_duplicate_index, lagrange_at_zero, poly_coeffs, poly_eval, recover, share, share_xs,
};

verus! {

/// The domain-separation tag of the password's hash to the curve.
pub const DST_G1: &'static str = "BLS_SIG_BLS12381G1_XMD:SHA-256_SSWU_RO_POP_";

/// The scheme; all of its operations are associated functions.
pub struct JKKX16 {}

/// Public parameters of the scheme.
#[derive(Clone, Copy, Debug)]
pub struct Parameters {
    pub generator: Point,
}

/// A server's public key for one client.
pub type PublicKey = Point;

/// The key that registration and reconstruction derive.
pub type SecretKey = [u8; 16];

/// The masked shares, one per server and in the servers' order, and the
/// reconstruction check value.
#[derive(Clone, Debug)]
pub struct Ciphertext {
    pub encrypted_shares: Vec<(Scalar, Scalar)>,
    pub hash: Scalar,
}

/// A blinded PRF query.
#[derive(Clone, Debug)]
pub struct PrfInput {
    pub blinded_prf_input: Point,
    pub client_id: Vec<u8>,
}

/// A server's PRF evaluation on a blinded query.
#[derive(Clone, Debug)]
pub struct PrfOutput {
    pub blinded_prf_output: Point,
}

/// What the client keeps between its request and its finalization.
#[derive(Clone, Debug)]
pub struct ClientState {
    pub blind_scalar: Scalar,
    pub client_id: Vec<u8>,
    pub password: Vec<u8>,
}

pub open spec fn dst_g1() -> Seq<u8> {
    DST_G1.spec_bytes()
}

/// The password hashed to the curve.
pub open spec fn password_point(password: Seq<u8>) -> Option<Seq<u8>> {
    hash_to_curve(dst_g1(), password)
}

/// The PRF key that a server derives for a client from its seed.
pub open spec fn server_secret(seed: Seq<u8>, client_id: Seq<u8>) -> int {
    derived_scalar(
        HashDomainSeparator::ServerKeyDerivation.spec_tag(),
        seq![],
        seq![],
        seq![seed, client_id],
    )
}

/// The mask that a blinded PRF output gives: the output unblinded, hashed with
/// the password.
pub open spec fn prf_mask(output: Seq<u8>, blind: int, password: Seq<u8>) -> Option<int> {
    match g1_mul(output, field_inv(blind % order())) {
        Some(p) => Some(
            derived_scalar(
                HashDomainSeparator::MaskDerivation.spec_tag(),
                seq![p],
                seq![],
                seq![password],
            ),
        ),
        None => None,
    }
}

/// The masks of all responses, in order.
pub open spec fn response_masks(
    responses: Seq<(Point, PrfOutput)>,
    blind: Scalar,
    password: Seq<u8>,
) -> Seq<Option<int>> {
    responses.map_values(
        |r: (Point, PrfOutput)| prf_mask(r.1.blinded_prf_output.bytes@, blind.val(), password),
    )
}

pub open spec fn all_defined(ms: Seq<Option<int>>) -> bool {
    forall|i: int| 0 <= i < ms.len() ==> (#[trigger] ms[i]) is Some
}

pub open spec fn opt_val(m: Option<int>) -> int {
    match m {
        Some(v) => v,
        None => 0,
    }
}

/// The 32 bytes that the data-key hash of a secret's encoding gives; the first
/// half is the check salt, the second half the key.
pub open spec fn data_key_hash(secret: Seq<u8>) -> Seq<u8> {
    le_bytes(
        derived_scalar(
            HashDomainSeparator::DataKeyDerivation.spec_tag(),
            seq![],
            seq![secret],
            seq![],
        ) as nat,
        32,
    )
}

/// The reconstruction check value.
pub open spec fn check_value(
    masked_ys: Seq<Seq<u8>>,
    raw_ys: Seq<Seq<u8>>,
    password: Seq<u8>,
    salt: Seq<u8>,
) -> int {
    derived_scalar(
        HashDomainSeparator::ReconstructionCheckDerivation.spec_tag(),
        seq![],
        masked_ys + raw_ys,
        seq![password, salt],
    )
}

pub open spec fn second_of(shares: Seq<(Scalar, Scalar)>) -> Seq<Scalar> {
    shares.map_values(|s: (Scalar, Scalar)| s.1)
}

/// The canonical encodings of field elements.
pub open spec fn encodings(vs: Seq<int>) -> Seq<Seq<u8>> {
    vs.map_values(|v: int| le_bytes(v as nat, 32))
}

/// The share values that reconstruction recovers: masked value minus mask.
pub open spec fn unmasked_ys(shares: Seq<(Scalar, Scalar)>, masks: Seq<Option<int>>) -> Seq<int> {
    Seq::new(shares.len(), |i: int| (shares[i].1.val() - opt_val(masks[i])) % order())
}

/// The share values of registration: the polynomial at `1..=n`.
pub open spec fn polynomial_ys(secret: Scalar, coefficients: Seq<Scalar>, n: int) -> Seq<int> {
    Seq::new(n as nat, |i: int| poly_eval(poly_coeffs(secret, coefficients), i + 1) % order())
}

/// The secret that reconstruction interpolates.
pub open spec fn recovered_secret(ct: Ciphertext, masks: Seq<Option<int>>) -> int {
    lagrange_at_zero(
        share_xs(ct.encrypted_shares@),
        unmasked_ys(ct.encrypted_shares@, masks),
        ct.encrypted_shares@.len() as int,
    )
}

/// Whether the check value recomputed from the ciphertext, the masks and the
/// password is the stored one.
pub open spec fn check_passes(ct: Ciphertext, masks: Seq<Option<int>>, password: Seq<u8>) -> bool {
    let s = recovered_secret(ct, masks);
    le_bytes(
        check_value(
            scalars_view(second_of(ct.encrypted_shares@)),
            encodings(unmasked_ys(ct.encrypted_shares@, masks)),
            password,
            data_key_hash(le_bytes(s as nat, 32)).subrange(0, 16),
        ) as nat,
        32,
    ) == ct.hash.bytes@
}

fn copy_bytes(b: &[u8]) -> (r: Vec<u8>)
    ensures
        r@ == b@,
{
    let mut r: Vec<u8> = Vec::new();
    append_bytes(&mut r, b);
    r
}

/// Hashes a message to a G1 point under the scheme's tag.
pub fn hash_to_g1point(msg: &Vec<u8>) -> (r: Result<Point, PpssError>)
    ensures
        r matches Ok(p) ==> password_point(msg@) == Some(p.bytes@),
        r is Err <==> password_point(msg@) is None,
        r matches Err(e) ==> e == PpssError::SerializationError,
{
    match hash_to_curve_point(DST_G1.as_bytes(), msg.as_slice()) {
        Some(p) => Ok(p),
        None => Err(PpssError::SerializationError),
    }
}

/// The encoding of a scalar.
pub fn fr_to_32bytes(fr: &Scalar) -> (r: [u8; 32])
    ensures
        r@ == fr.bytes@,
{
    fr.bytes
}

/// Blinds the password's point with `blind` (a fresh uniformly random scalar).
pub fn oprf_input(client_id: &[u8], password: &[u8], blind: Scalar) -> (r: Result<
    (Scalar, PrfInput),
    PpssError,
>)
    ensures
        r is Ok <==> (password_point(password@) matches Some(h) && g1_mul(h, blind.elem()) is Some),
        r matches Err(e) ==> e == PpssError::SerializationError,
        r matches Ok((b, input)) ==> b == blind && input.client_id@ == client_id@ && g1_mul(
            password_point(password@)->Some_0,
            blind.elem(),
        ) == Some(input.blinded_prf_input.bytes@),
{
    let password_hash = hash_to_g1point(&copy_bytes(password))?;
    match point_mul(&password_hash, &blind) {
        Some(blinded_prf_input) => {
            let input = PrfInput { blinded_prf_input, client_id: copy_bytes(client_id) };
            Ok((blind, input))
        },
        None => Err(PpssError::SerializationError),
    }
}

/// A server's PRF evaluation: derives the client's key from the seed, and
/// returns the matching public key and the blinded input times the key.
pub fn evaluate_prf(pp: &Parameters, seed: &[u8; 32], client_id: &[u8], input: &PrfInput) -> (r:
    Result<(PublicKey, PrfOutput), PpssError>)
    ensures
        r is Ok <==> (g1_mul(pp.generator.bytes@, server_secret(seed@, client_id@)) is Some
            && g1_mul(input.blinded_prf_input.bytes@, server_secret(seed@, client_id@)) is Some),
        r matches Err(e) ==> e == PpssError::SerializationError,
        r matches Ok((pk, out)) ==> g1_mul(pp.generator.bytes@, server_secret(seed@, client_id@))
            == Some(pk.bytes@) && g1_mul(
            input.blinded_prf_input.bytes@,
            server_secret(seed@, client_id@),
        ) == Some(out.blinded_prf_output.bytes@),
{
    let strings = vec![copy_bytes(seed), copy_bytes(client_id)];
    let client_secret_key = hash_to_fr(
        HashDomainSeparator::ServerKeyDerivation,
        &Vec::new(),
        &Vec::new(),
        &strings,
    )?;
    proof {
        assert(seq![seed@, client_id@] =~= crate::hashing::byte_strings_view(strings@));
    }
    assert(client_secret_key.elem() == server_secret(seed@, client_id@)) by {
        vstd::arithmetic::div_mod::lemma_small_mod(
            client_secret_key.val() as nat,
            order() as nat,
        );
        assert(crate::hashing::points_view(Seq::<Point>::empty()) =~= seq![]);
        assert(scalars_view(Seq::<Scalar>::empty()) =~= seq![]);
    }
    let client_public_key = match point_mul(&pp.generator, &client_secret_key) {
        Some(p) => p,
        None => return Err(PpssError::SerializationError),
    };
    match point_mul(&input.blinded_prf_input, &client_secret_key) {
        Some(blinded_prf_output) => Ok((client_public_key, PrfOutput { blinded_prf_output })),
        None => Err(PpssError::SerializationError),
    }
}

/// Unblinds every response with the state's blind and derives its mask.
fn unblind_masks(state: &ClientState, server_responses: &Vec<(PublicKey, PrfOutput)>) -> (r:
    Result<Vec<Scalar>, PpssError>)
    ensures
        r is Ok <==> (state.blind_scalar.elem() != 0 && all_defined(
            response_masks(server_responses@, state.blind_scalar, state.password@),
        )),
        r matches Err(e) ==> (e == PpssError::InvalidParameters <==> state.blind_scalar.elem()
            == 0) && (e == PpssError::InvalidParameters || e == PpssError::SerializationError),
        r matches Ok(ms) ==> ms@.len() == server_responses@.len() && forall|i: int|
            0 <= i < ms@.len() ==> (#[trigger] ms@[i]).is_canonical_of(
                opt_val(response_masks(server_responses@, state.blind_scalar, state.password@)[i]),
            ),
{
    let ghost masks = response_masks(server_responses@, state.blind_scalar, state.password@);
    let inv = match scalar_inverse(&state.blind_scalar) {
        Some(x) => x,
        None => return Err(PpssError::InvalidParameters),
    };
    proof {
        vstd::arithmetic::div_mod::lemma_small_mod(inv.val() as nat, order() as nat);
    }
    let mut ms: Vec<Scalar> = Vec::new();
    let mut i: usize = 0;
    while i < server_responses.len()
        invariant
            masks == response_masks(server_responses@, state.blind_scalar, state.password@),
            inv.elem() == field_inv(state.blind_scalar.val() % order()),
            state.blind_scalar.elem() != 0,
            i <= server_responses@.len(),
            ms@.len() == i,
            forall|j: int| 0 <= j < i ==> (#[trigger] masks[j]) is Some,
            forall|j: int|
                0 <= j < i ==> (#[trigger] ms@[j]).is_canonical_of(opt_val(masks[j])),
        decreases server_responses@.len() - i,
    {
        let prf_output = match point_mul(&server_responses[i].1.blinded_prf_output, &inv) {
            Some(p) => p,
            None => {
                assert(!all_defined(masks)) by {
                    assert(masks[i as int] is None);
                }
                return Err(PpssError::SerializationError);
            },
        };
        let points = vec![prf_output];
        let strings = vec![copy_bytes(state.password.as_slice())];
        let mask = hash_to_fr(HashDomainSeparator::MaskDerivation, &points, &Vec::new(), &strings)?;
        proof {
            assert(crate::hashing::points_view(points@) =~= seq![prf_output.bytes@]);
            assert(scalars_view(Seq::<Scalar>::empty()) =~= seq![]);
            assert(crate::hashing::byte_strings_view(strings@) =~= seq![state.password@]);
        }
        ms.push(mask);
        i = i + 1;
    }
    Ok(ms)
}

/// The check salt and the key that a secret gives.
fn derive_data_key(secret: &Scalar) -> (r: Result<([u8; 16], SecretKey), PpssError>)
    ensures
        r matches Ok((salt, key)) && salt@ == data_key_hash(secret.bytes@).subrange(0, 16)
            && key@ == data_key_hash(secret.bytes@).subrange(16, 32),
{
    let scalars = vec![*secret];
    let h = hash_to_fr(HashDomainSeparator::DataKeyDerivation, &Vec::new(), &scalars, &Vec::new())?;
    proof {
        assert(crate::hashing::points_view(Seq::<Point>::empty()) =~= seq![]);
        assert(scalars_view(scalars@) =~= seq![secret.bytes@]);
        assert(crate::hashing::byte_strings_view(Seq::<Vec<u8>>::empty()) =~= seq![]);
    }
    let hashed_secret = fr_to_32bytes(&h);
    let mut salt = [0u8; 16];
    let mut key = [0u8; 16];
    let mut i: usize = 0;
    while i < 16
        invariant
            i <= 16,
            hashed_secret@ == data_key_hash(secret.bytes@),
            hashed_secret@.len() == 32,
            forall|j: int| 0 <= j < i ==> salt@[j] == hashed_secret@[j],
            forall|j: int| 0 <= j < i ==> key@[j] == hashed_secret@[j + 16],
        decreases 16 - i,
    {
        salt[i] = hashed_secret[i];
        key[i] = hashed_secret[i + 16];
        i = i + 1;
    }
    assert(salt@ =~= hashed_secret@.subrange(0, 16));
    assert(key@ =~= hashed_secret@.subrange(16, 32));
    Ok((salt, key))
}

/// The second components of the shares, in order.
fn share_values(shares: &Vec<(Scalar, Scalar)>) -> (r: Vec<Scalar>)
    ensures
        r@ == second_of(shares@),
{
    let mut r: Vec<Scalar> = Vec::new();
    let mut i: usize = 0;
    while i < shares.len()
        invariant
            i <= shares@.len(),
            r@ == second_of(shares@).take(i as int),
        decreases shares@.len() - i,
    {
        r.push(shares[i].1);
        i = i + 1;
        assert(r@ =~= second_of(shares@).take(i as int));
    }
    assert(second_of(shares@).take(i as int) =~= second_of(shares@));
    r
}

impl JKKX16 {
    /// The public parameters: the generator of G1.
    pub fn setup() -> (r: Parameters)
        ensures
            r.generator.bytes@ == g1_generator_bytes(),
    {
        Parameters { generator: g1_generator() }
    }

    /// Registration, client side: blinds the password's point with `blind` (a
    /// fresh uniformly random scalar) and keeps what finalization needs.
    pub fn client_generate_keygen_request(
        pp: &Parameters,
        client_id: &[u8],
        password: &[u8],
        blind: Scalar,
    ) -> (r: Result<(ClientState, PrfInput), PpssError>)
        ensures
            r is Ok <==> (password_point(password@) matches Some(h) && g1_mul(h, blind.elem()) is Some),
            r matches Err(e) ==> e == PpssError::SerializationError,
            r matches Ok((state, input)) ==> state.blind_scalar == blind && state.client_id@
                == client_id@ && state.password@ == password@ && input.client_id@ == client_id@
                && g1_mul(password_point(password@)->Some_0, blind.elem()) == Some(
                input.blinded_prf_input.bytes@,
            ),
    {
        let (blind_scalar, prf_input) = oprf_input(client_id, password, blind)?;
        let state = ClientState {
            blind_scalar,
            client_id: copy_bytes(client_id),
            password: copy_bytes(password),
        };
        Ok((state, prf_input))
    }

    /// Registration, server side: the server's public key for the client and
    /// its PRF evaluation.
    pub fn server_process_keygen_request(
        pp: &Parameters,
        seed: &[u8; 32],
        client_id: &[u8],
        input: &PrfInput,
    ) -> (r: Result<(PublicKey, PrfOutput), PpssError>)
        ensures
            r is Ok <==> (g1_mul(pp.generator.bytes@, server_secret(seed@, client_id@)) is Some
                && g1_mul(input.blinded_prf_input.bytes@, server_secret(seed@, client_id@)) is Some),
            r matches Err(e) ==> e == PpssError::SerializationError,
            r matches Ok((pk, out)) ==> g1_mul(pp.generator.bytes@, server_secret(seed@, client_id@))
                == Some(pk.bytes@) && g1_mul(
                input.blinded_prf_input.bytes@,
                server_secret(seed@, client_id@),
            ) == Some(out.blinded_prf_output.bytes@),
    {
        evaluate_prf(pp, seed, client_id, input)
    }

    /// Reconstruction, client side: as for registration, with a fresh blind.
    pub fn client_generate_reconstruct_request(
        pp: &Parameters,
        client_id: &[u8],
        password: &[u8],
        blind: Scalar,
    ) -> (r: Result<(ClientState, PrfInput), PpssError>)
        ensures
            r is Ok <==> (password_point(password@) matches Some(h) && g1_mul(h, blind.elem()) is Some),
            r matches Err(e) ==> e == PpssError::SerializationError,
            r matches Ok((state, input)) ==> state.blind_scalar == blind && state.client_id@
                == client_id@ && state.password@ == password@ && input.client_id@ == client_id@
                && g1_mul(password_point(password@)->Some_0, blind.elem()) == Some(
                input.blinded_prf_input.bytes@,
            ),
    {
        let (blind_scalar, prf_input) = oprf_input(client_id, password, blind)?;
        let state = ClientState {
            blind_scalar,
            client_id: copy_bytes(client_id),
            password: copy_bytes(password),
        };
        Ok((state, prf_input))
    }

    /// Reconstruction, server side: the PRF evaluation alone.
    pub fn server_process_reconstruct_request(
        pp: &Parameters,
        seed: &[u8; 32],
        client_id: &[u8],
        input: &PrfInput,
    ) -> (r: Result<PrfOutput, PpssError>)
        ensures
            r is Ok <==> (g1_mul(pp.generator.bytes@, server_secret(seed@, client_id@)) is Some
                && g1_mul(input.blinded_prf_input.bytes@, server_secret(seed@, client_id@)) is Some),
            r matches Err(e) ==> e == PpssError::SerializationError,
            r matches Ok(out) ==> g1_mul(
                input.blinded_prf_input.bytes@,
                server_secret(seed@, client_id@),
            ) == Some(out.blinded_prf_output.bytes@),
    {
        let (_pk, prf_eval) = evaluate_prf(pp, seed, client_id, input)?;
        Ok(prf_eval)
    }

    /// Registration, client side: shares `secret` (uniformly random, with the
    /// uniformly random further coefficients of the sharing polynomial), masks
    /// each share with the PRF output of the server at the same position, derives
    /// the key from the secret, and commits to the masked and raw share values.
    pub fn client_keygen(
        pp: &Parameters,
        state: &ClientState,
        server_responses: &Vec<(PublicKey, PrfOutput)>,
        num_servers: usize,
        threshold: usize,
        secret: &Scalar,
        coefficients: &Vec<Scalar>,
    ) -> (r: Result<(SecretKey, Ciphertext), PpssError>)
        ensures
            ({
                let masks = response_masks(server_responses@, state.blind_scalar, state.password@);
                let params_ok = server_responses@.len() == num_servers && 1 <= threshold <= num_servers
                    && coefficients@.len() + 1 == threshold;
                &&& r is Ok <==> (params_ok && state.blind_scalar.elem() != 0 && all_defined(masks))
                &&& r matches Err(e) ==> (e == PpssError::InvalidParameters <==> (!params_ok
                    || state.blind_scalar.elem() == 0)) && (e == PpssError::InvalidParameters || e
                    == PpssError::SerializationError)
                &&& r matches Ok((key, ct)) ==> {
                    let ys = polynomial_ys(*secret, coefficients@, num_servers as int);
                    &&& key@ == data_key_hash(le_bytes((secret.val() % order()) as nat, 32)).subrange(16, 32)
                    &&& ct.encrypted_shares@.len() == num_servers
                    &&& forall|i: int|
                        0 <= i < num_servers ==> (#[trigger] ct.encrypted_shares@[i]).0.is_canonical_of(
                            i + 1,
                        ) && ct.encrypted_shares@[i].1.is_canonical_of(
                            (ys[i] + opt_val(masks[i])) % order(),
                        )
                    &&& ct.hash.is_canonical_of(
                        check_value(
                            scalars_view(second_of(ct.encrypted_shares@)),
                            encodings(ys),
                            state.password@,
                            data_key_hash(le_bytes((secret.val() % order()) as nat, 32)).subrange(0, 16),
                        ),
                    )
                }
            }),
    {
        if server_responses.len() != num_servers {
            return Err(PpssError::InvalidParameters);
        }
        let shares = share(secret, coefficients, threshold, num_servers)?;
        let masks = unblind_masks(state, server_responses)?;
        let ghost ys = polynomial_ys(*secret, coefficients@, num_servers as int);
        let ghost mask_spec = response_masks(server_responses@, state.blind_scalar, state.password@);
        let mut encrypted_shares: Vec<(Scalar, Scalar)> = Vec::new();
        let mut i: usize = 0;
        while i < num_servers
            invariant
                shares@.len() == num_servers,
                masks@.len() == num_servers,
                ys == polynomial_ys(*secret, coefficients@, num_servers as int),
                forall|j: int|
                    0 <= j < num_servers ==> (#[trigger] shares@[j]).0.is_canonical_of(j + 1)
                        && shares@[j].1.is_canonical_of(ys[j]),
                forall|j: int|
                    0 <= j < num_servers ==> (#[trigger] masks@[j]).is_canonical_of(
                        opt_val(mask_spec[j]),
                    ),
                i <= num_servers,
                encrypted_shares@.len() == i,
                forall|j: int|
                    0 <= j < i ==> (#[trigger] encrypted_shares@[j]).0.is_canonical_of(j + 1)
                        && encrypted_shares@[j].1.is_canonical_of(
                        (ys[j] + opt_val(mask_spec[j])) % order(),
                    ),
            decreases num_servers - i,
        {
            let masked = scalar_add(&shares[i].1, &masks[i]);
            encrypted_shares.push((shares[i].0, masked));
            i = i + 1;
        }
        let reduced = scalar_from_le_bytes_mod_order(&secret.bytes);
    let (salt, key) = derive_data_key(&reduced)?;
        let mut ys_exec = share_values(&encrypted_shares);
        let raw = share_values(&shares);
        let mut j: usize = 0;
        let ghost prefix = ys_exec@;
        while j < raw.len()
            invariant
                ys_exec@ == prefix + raw@.take(j as int),
                j <= raw@.len(),
            decreases raw@.len() - j,
        {
            ys_exec.push(raw[j]);
            j = j + 1;
            assert(ys_exec@ =~= prefix + raw@.take(j as int));
        }
        assert(raw@.take(j as int) =~= raw@);
        let strings = vec![copy_bytes(state.password.as_slice()), copy_bytes(&salt)];
        let c = hash_to_fr(
            HashDomainSeparator::ReconstructionCheckDerivation,
            &Vec::new(),
            &ys_exec,
            &strings,
        )?;
        proof {
            assert(crate::hashing::points_view(Seq::<Point>::empty()) =~= seq![]);
            assert(crate::hashing::byte_strings_view(strings@) =~= seq![
                state.password@,
                data_key_hash(le_bytes((secret.val() % order()) as nat, 32)).subrange(0, 16),
            ]);
            assert(scalars_view(raw@) =~= encodings(ys));
            assert(scalars_view(ys_exec@) =~= scalars_view(second_of(encrypted_shares@))
                + scalars_view(raw@));
        }
        Ok((key, Ciphertext { encrypted_shares, hash: c }))
    }

    /// Reconstruction, client side: unmasks the stored shares with the PRF
    /// outputs of the servers at the same positions, interpolates the secret,
    /// re-derives the key, and returns it only where the recomputed check value is
    /// the stored one. A wrong password, a wrong or reordered server set and a
    /// tampered ciphertext all give `IntegrityCheckFailed`.
    pub fn client_reconstruct(
        pp: &Parameters,
        state: &ClientState,
        server_responses: &Vec<(PublicKey, PrfOutput)>,
        ciphertext: &Ciphertext,
    ) -> (r: Result<SecretKey, PpssError>)
        ensures
            ({
                let masks = response_masks(server_responses@, state.blind_scalar, state.password@);
                let unmasked = server_responses@.len() == ciphertext.encrypted_shares@.len()
                    && state.blind_scalar.elem() != 0 && all_defined(masks);
                let checked = !has_duplicate_index(share_xs(ciphertext.encrypted_shares@))
                    && check_passes(*ciphertext, masks, state.password@);
                &&& r is Ok <==> (unmasked && checked)
                &&& r matches Err(e) ==> (e == PpssError::InvalidParameters <==> (
                server_responses@.len() != ciphertext.encrypted_shares@.len()
                    || state.blind_scalar.elem() == 0)) && (e == PpssError::SerializationError
                    <==> (server_responses@.len() == ciphertext.encrypted_shares@.len()
                    && state.blind_scalar.elem() != 0 && !all_defined(masks))) && (e
                    == PpssError::IntegrityCheckFailed <==> unmasked)
                &&& r matches Ok(key) ==> key@ == data_key_hash(
                    le_bytes(recovered_secret(*ciphertext, masks) as nat, 32),
                ).subrange(16, 32)
            }),
    {
        let ghost mask_spec = response_masks(server_responses@, state.blind_scalar, state.password@);
        let n = ciphertext.encrypted_shares.len();
        if server_responses.len() != n {
            return Err(PpssError::InvalidParameters);
        }
        let masks = unblind_masks(state, server_responses)?;
        let ghost ys = unmasked_ys(ciphertext.encrypted_shares@, mask_spec);
        let mut shares: Vec<(Scalar, Scalar)> = Vec::new();
        let mut i: usize = 0;
        while i < n
            invariant
                n == ciphertext.encrypted_shares@.len(),
                masks@.len() == n,
                ys == unmasked_ys(ciphertext.encrypted_shares@, mask_spec),
                forall|j: int|
                    0 <= j < n ==> (#[trigger] masks@[j]).is_canonical_of(opt_val(mask_spec[j])),
                i <= n,
                shares@.len() == i,
                forall|j: int|
                    0 <= j < i ==> (#[trigger] shares@[j]).0 == ciphertext.encrypted_shares@[j].0
                        && shares@[j].1.is_canonical_of(ys[j]),
            decreases n - i,
        {
            let e = ciphertext.encrypted_shares[i];
            let raw = scalar_sub(&e.1, &masks[i]);
            shares.push((e.0, raw));
            i = i + 1;
        }
        assert(share_xs(shares@) =~= share_xs(ciphertext.encrypted_shares@));
        assert(share_ys(shares@) =~= ys);
        let secret = match recover(&shares) {
            Ok(s) => s,
            Err(_) => return Err(PpssError::IntegrityCheckFailed),
        };
        let (salt, key) = derive_data_key(&secret)?;
        let mut ys_exec = share_values(&ciphertext.encrypted_shares);
        let raw = share_values(&shares);
        let mut j: usize = 0;
        let ghost prefix = ys_exec@;
        while j < raw.len()
            invariant
                ys_exec@ == prefix + raw@.take(j as int),
                j <= raw@.len(),
            decreases raw@.len() - j,
        {
            ys_exec.push(raw[j]);
            j = j + 1;
            assert(ys_exec@ =~= prefix + raw@.take(j as int));
        }
        assert(raw@.take(j as int) =~= raw@);
        let strings = vec![copy_bytes(state.password.as_slice()), copy_bytes(&salt)];
        let c = hash_to_fr(
            HashDomainSeparator::ReconstructionCheckDerivation,
            &Vec::new(),
            &ys_exec,
            &strings,
        )?;
        proof {
            assert(crate::hashing::points_view(Seq::<Point>::empty()) =~= seq![]);
            assert(crate::hashing::byte_strings_view(strings@) =~= seq![
                state.password@,
                data_key_hash(secret.bytes@).subrange(0, 16),
            ]);
            assert(scalars_view(raw@) =~= encodings(ys));
            assert(scalars_view(ys_exec@) =~= scalars_view(second_of(ciphertext.encrypted_shares@))
                + scalars_view(raw@));
        }
        if !scalar_eq(&c, &ciphertext.hash) {
            return Err(PpssError::IntegrityCheckFailed);
        }
        Ok(key)
    }
}

/// Hashing a password to the curve is deterministic: two successful hashes of
/// one message give the same point.
pub proof fn lemma_hash_to_g1point_deterministic(msg: Seq<u8>, p: Point, q: Point)
    requires
        password_point(msg) == Some(p.bytes@),
        password_point(msg) == Some(q.bytes@),
    ensures
        p.bytes@ == q.bytes@,
{
}

/// Changing the stored check value of a ciphertext that passes the check,
/// with the shares, the responses and the password unchanged, makes the check
/// fail.
pub proof fn lemma_tampered_check_value_fails(
    ct: Ciphertext,
    tampered: Ciphertext,
    masks: Seq<Option<int>>,
    password: Seq<u8>,
)
    requires
        check_passes(ct, masks, password),
        tampered.encrypted_shares@ == ct.encrypted_shares@,
        tampered.hash.bytes@ != ct.hash.bytes@,
    ensures
        !check_passes(tampered, masks, password),
{
}

} // verus!
