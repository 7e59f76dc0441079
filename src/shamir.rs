//! Shamir secret sharing over the scalar field: sharing evaluates a polynomial
//! whose constant term is the secret at the indices 1..=n, and recovery
//! interpolates the shares at zero.
use vstd::arithmetic::div_mod::{lemma_add_mod_noop, lemma_mul_mod_noop_left, lemma_small_mod};
use vstd::prelude::*;

use crate::error::PpssError;
use crate::field::{
    field_inv, order, scalar_add, scalar_from_u64, scalar_inverse, scalar_mul, scalar_sub, Scalar,
};

verus! {

/// The value at `x` of the polynomial with coefficients `cs`, lowest first.
pub open spec fn poly_eval(cs: Seq<int>, x: int) -> int
    decreases cs.len(),
{
    if cs.len() == 0 {
        0
    } else {
        cs[0] + x * poly_eval(cs.drop_first(), x)
    }
}

/// The coefficients of the sharing polynomial: the secret, then the others.
pub open spec fn poly_coeffs(secret: Scalar, coefficients: Seq<Scalar>) -> Seq<int> {
    seq![secret.val()] + coefficients.map_values(|c: Scalar| c.val())
}

pub open spec fn share_xs(shares: Seq<(Scalar, Scalar)>) -> Seq<int> {
    shares.map_values(|s: (Scalar, Scalar)| s.0.val())
}

pub open spec fn share_ys(shares: Seq<(Scalar, Scalar)>) -> Seq<int> {
    shares.map_values(|s: (Scalar, Scalar)| s.1.val())
}

/// Two shares with the same index, as field elements.
pub open spec fn has_duplicate_index(xs: Seq<int>) -> bool {
    exists|i: int, j: int|
        0 <= i < xs.len() && 0 <= j < xs.len() && i != j && #[trigger] (xs[i] % order()) == #[trigger] (
        xs[j] % order())
}

/// The Lagrange basis polynomial of index `i` at zero, over the first `m`
/// indices: the product of `x_j / (x_j - x_i)` for `j != i`.
pub open spec fn lagrange_basis(xs: Seq<int>, i: int, m: int) -> int
    decreases m,
{
    if m <= 0 {
        1
    } else if m - 1 == i {
        lagrange_basis(xs, i, m - 1)
    } else {
        (lagrange_basis(xs, i, m - 1) * ((xs[m - 1] * field_inv((xs[m - 1] - xs[i]) % order()))
            % order())) % order()
    }
}

/// The interpolated value at zero of the first `m` shares.
pub open spec fn lagrange_at_zero(xs: Seq<int>, ys: Seq<int>, m: int) -> int
    decreases m,
{
    if m <= 0 {
        0
    } else {
        (lagrange_at_zero(xs, ys, m - 1) + (ys[m - 1] * lagrange_basis(xs, m - 1, xs.len() as int))
            % order()) % order()
    }
}

proof fn lemma_horner_step(p: int, x: int, c: int)
    ensures
        (((p % order()) * x) % order() + c) % order() == (c + x * p) % order(),
{
    let o = order();
    let a = (p % o) * x;
    lemma_small_mod((a % o) as nat, o as nat);
    lemma_add_mod_noop(a % o, c, o);
    lemma_add_mod_noop(a, c, o);
    lemma_mul_mod_noop_left(p, x, o);
    lemma_add_mod_noop(p * x, c, o);
    assert(x * p == p * x) by (nonlinear_arith);
}

fn coefficient(secret: &Scalar, coefficients: &Vec<Scalar>, k: usize) -> (r: Scalar)
    requires
        k <= coefficients@.len(),
    ensures
        r.val() == poly_coeffs(*secret, coefficients@)[k as int],
{
    if k == 0 {
        *secret
    } else {
        coefficients[k - 1]
    }
}

/// The value of the sharing polynomial at `x`.
fn evaluate(secret: &Scalar, coefficients: &Vec<Scalar>, x: &Scalar) -> (r: Scalar)
    requires
        coefficients@.len() < usize::MAX,
    ensures
        r.is_canonical_of(poly_eval(poly_coeffs(*secret, coefficients@), x.val()) % order()),
{
    let ghost cs = poly_coeffs(*secret, coefficients@);
    let mut acc = scalar_from_u64(0);
    let mut k: usize = coefficients.len() + 1;
    assert(cs.subrange(k as int, cs.len() as int) =~= Seq::<int>::empty());
    assert(poly_eval(cs.subrange(k as int, cs.len() as int), x.val()) == 0);
    assert(0int % order() == 0);
    while k > 0
        invariant
            k <= coefficients@.len() + 1,
            cs == poly_coeffs(*secret, coefficients@),
            cs.len() == coefficients@.len() + 1,
            acc.is_canonical_of(poly_eval(cs.subrange(k as int, cs.len() as int), x.val()) % order()),
        decreases k,
    {
        k = k - 1;
        let c = coefficient(secret, coefficients, k);
        let t = scalar_mul(&acc, x);
        acc = scalar_add(&t, &c);
        proof {
            let sub = cs.subrange(k as int, cs.len() as int);
            assert(sub.drop_first() =~= cs.subrange(k + 1, cs.len() as int));
            lemma_horner_step(poly_eval(sub.drop_first(), x.val()), x.val(), c.val());
        }
    }
    assert(cs.subrange(0, cs.len() as int) =~= cs);
    acc
}

/// Splits `secret` into `num_parties` shares `(i, p(i))` for `i` in `1..=n`,
/// where `p` has constant term `secret` and the further coefficients given
/// (uniformly random ones, `threshold - 1` of them), so that any `threshold`
/// of the shares determine the secret.
pub fn share(secret: &Scalar, coefficients: &Vec<Scalar>, threshold: usize, num_parties: usize) -> (r:
    Result<Vec<(Scalar, Scalar)>, PpssError>)
    ensures
        r is Err <==> !(1 <= threshold <= num_parties && coefficients@.len() + 1 == threshold),
        r matches Err(e) ==> e == PpssError::InvalidParameters,
        r matches Ok(shares) ==> shares@.len() == num_parties && forall|i: int|
            0 <= i < num_parties ==> (#[trigger] shares@[i]).0.is_canonical_of(i + 1)
                && shares@[i].1.is_canonical_of(
                poly_eval(poly_coeffs(*secret, coefficients@), i + 1) % order(),
            ),
{
    if threshold < 1 || threshold > num_parties || coefficients.len() != threshold - 1 {
        return Err(PpssError::InvalidParameters);
    }
    let mut shares: Vec<(Scalar, Scalar)> = Vec::new();
    let mut i: usize = 0;
    while i < num_parties
        invariant
            i <= num_parties,
            coefficients@.len() + 1 == threshold,
            shares@.len() == i,
            forall|j: int|
                0 <= j < i ==> (#[trigger] shares@[j]).0.is_canonical_of(j + 1)
                    && shares@[j].1.is_canonical_of(
                    poly_eval(poly_coeffs(*secret, coefficients@), j + 1) % order(),
                ),
        decreases num_parties - i,
    {
        let x = scalar_from_u64(i as u64 + 1);
        let y = evaluate(secret, coefficients, &x);
        shares.push((x, y));
        i = i + 1;
    }
    Ok(shares)
}

/// Interpolates the shares at zero. Fails with `InterpolationError` exactly
/// when two shares have the same index.
pub fn recover(shares: &Vec<(Scalar, Scalar)>) -> (r: Result<Scalar, PpssError>)
    ensures
        r is Err <==> has_duplicate_index(share_xs(shares@)),
        r matches Err(e) ==> e == PpssError::InterpolationError,
        r matches Ok(s) ==> s.is_canonical_of(
            lagrange_at_zero(share_xs(shares@), share_ys(shares@), shares@.len() as int),
        ),
{
    let ghost xs = share_xs(shares@);
    let ghost ys = share_ys(shares@);
    let n = shares.len();
    let mut sum = scalar_from_u64(0);
    let mut i: usize = 0;
    while i < n
        invariant
            n == shares@.len(),
            xs == share_xs(shares@),
            ys == share_ys(shares@),
            i <= n,
            sum.is_canonical_of(lagrange_at_zero(xs, ys, i as int)),
            forall|a: int, b: int|
                0 <= a < i && 0 <= b < n && a != b ==> #[trigger] (xs[a] % order()) != #[trigger] (
                xs[b] % order()),
        decreases n - i,
    {
        let mut basis = scalar_from_u64(1);
        let mut j: usize = 0;
        while j < n
            invariant
                n == shares@.len(),
                xs == share_xs(shares@),
                i < n,
                j <= n,
                basis.is_canonical_of(lagrange_basis(xs, i as int, j as int)),
                forall|b: int|
                    0 <= b < j && b != i ==> (xs[i as int] % order()) != #[trigger] (xs[b]
                        % order()),
            decreases n - j,
        {
            if j != i {
                let d = scalar_sub(&shares[j].0, &shares[i].0);
                proof {
                    lemma_small_mod(d.val() as nat, order() as nat);
                }
                match scalar_inverse(&d) {
                    None => {
                        proof {
                            vstd::arithmetic::div_mod::lemma_sub_mod_noop(
                                xs[j as int],
                                xs[i as int],
                                order(),
                            );
                            lemma_small_mod(0, order() as nat);
                            assert(xs[j as int] % order() == xs[i as int] % order()) by (
                            nonlinear_arith)
                                requires
                                    ((xs[j as int] % order()) - (xs[i as int] % order()))
                                        % order() == 0,
                                    0 <= xs[j as int] % order() < order(),
                                    0 <= xs[i as int] % order() < order(),
                            ;
                            assert(has_duplicate_index(xs)) by {
                                assert(xs[i as int] % order() == xs[j as int] % order());
                            }
                        }
                        return Err(PpssError::InterpolationError);
                    },
                    Some(inv) => {
                        proof {
                            if xs[i as int] % order() == xs[j as int] % order() {
                                vstd::arithmetic::div_mod::lemma_sub_mod_noop(
                                    xs[j as int],
                                    xs[i as int],
                                    order(),
                                );
                                lemma_small_mod(0, order() as nat);
                            }
                        }
                        let t = scalar_mul(&shares[j].0, &inv);
                        basis = scalar_mul(&basis, &t);
                    },
                }
            }
            j = j + 1;
        }
        let term = scalar_mul(&shares[i].1, &basis);
        sum = scalar_add(&sum, &term);
        i = i + 1;
    }
    assert(!has_duplicate_index(xs)) by {
        if has_duplicate_index(xs) {
            let (a, b) = choose|a: int, b: int|
                0 <= a < xs.len() && 0 <= b < xs.len() && a != b && #[trigger] (xs[a] % order())
                    == #[trigger] (xs[b] % order());
            assert(xs[a] % order() != xs[b] % order());
        }
    }
    Ok(sum)
}

} // verus!
