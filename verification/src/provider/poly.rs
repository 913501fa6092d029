//! Polynomials as the commitment scheme uses them.
use crate::algebra::congruence::{
    congruent, lemma_congruent_in_range, lemma_congruent_product, lemma_congruent_reflexive,
    lemma_congruent_residue, lemma_congruent_sum, lemma_congruent_symmetric,
    lemma_congruent_transitive,
};
use crate::algebra::polynomial::{
    coeff, is_quotient_and_remainder, is_trimmed, is_zero_poly, lemma_product_trim,
    lemma_product_update, lemma_product_zero, lemma_trim, product_coeff, trim,
};
use crate::field::{are_random, random_elements, values, PrimeField};
use crate::unipoly::UniPoly;
use rand_core::{CryptoRng, RngCore};
use vstd::prelude::*;

verus! {

/// The polynomials that are committed to.
pub type UVKZGPoly<F> = UniPoly<F>;

/// What is left of a coefficient when a multiple of the divisor is taken away is
/// congruent to the difference of the integers.
proof fn lemma_difference_of_product(a: int, c: int, d: int, m: int)
    requires
        m > 0,
    ensures
        congruent((a - (c * d) % m) % m, a - c * d, m),
{
    lemma_congruent_residue(c * d, m);
    lemma_congruent_reflexive(a, m);
    lemma_congruent_sum(a, a, (c * d) % m, c * d, m);
    lemma_congruent_residue(a - (c * d) % m, m);
    lemma_congruent_transitive((a - (c * d) % m) % m, a - (c * d) % m, a - c * d, m);
}

/// Taking `c` times the divisor off, with `c` the leading coefficient times the
/// inverse of the divisor's, leaves nothing of the leading coefficient.
proof fn lemma_leading_coefficient_vanishes(a: int, d: int, inverse: int, c: int, m: int)
    requires
        m > 1,
        (d * inverse) % m == 1,
        c == (a * inverse) % m,
    ensures
        (a - (c * d) % m) % m == 0,
{
    lemma_congruent_residue(d * inverse, m);
    lemma_congruent_residue(a * inverse, m);
    lemma_congruent_reflexive(d, m);
    lemma_congruent_reflexive(a, m);
    lemma_congruent_product(c, a * inverse, d, d, m);
    lemma_congruent_product(a, a, d * inverse, 1, m);
    assert((a * inverse) * d == a * (d * inverse)) by (nonlinear_arith);
    lemma_congruent_transitive(c * d, a * (d * inverse), a * 1, m);
    lemma_difference_of_product(a, c, d, m);
    lemma_congruent_sum(a, a, c * d, a, m);
    lemma_congruent_transitive((a - (c * d) % m) % m, a - c * d, 0, m);
    lemma_congruent_residue(a - (c * d) % m, m);
    lemma_congruent_in_range((a - (c * d) % m) % m, 0, m);
}

/// One step of long division keeps `p = q * d + r`: it puts `c` into the quotient at
/// `X^t`, where it held zero, and takes `c * X^t * d` off the remainder.
proof fn lemma_division_step(
    p: Seq<int>,
    d: Seq<int>,
    q: Seq<int>,
    r: Seq<int>,
    t: int,
    c: int,
    next: Seq<int>,
    m: int,
)
    requires
        m > 0,
        is_quotient_and_remainder(p, d, q, r, m),
        0 <= t < q.len(),
        q[t] == 0,
        forall|k: int| 0 <= k ==> congruent(#[trigger] coeff(next, k), coeff(r, k) - c * coeff(d, k - t), m),
    ensures
        is_quotient_and_remainder(p, d, q.update(t, c), next, m),
{
    assert forall|k: int| 0 <= k implies congruent(
        #[trigger] coeff(p, k),
        product_coeff(q.update(t, c), d, k) + coeff(next, k),
        m,
    ) by {
        let e = c * coeff(d, k - t);
        lemma_product_update(q, d, t, c, k);
        assert(congruent(coeff(next, k), coeff(r, k) - e, m));
        let u = product_coeff(q, d, k) + e;
        lemma_congruent_reflexive(u, m);
        lemma_congruent_sum(u, u, coeff(next, k), coeff(r, k) - e, m);
        lemma_congruent_symmetric(u + coeff(next, k), product_coeff(q, d, k) + coeff(r, k), m);
        lemma_congruent_transitive(
            coeff(p, k),
            product_coeff(q, d, k) + coeff(r, k),
            u + coeff(next, k),
            m,
        );
    }
}

impl<F: PrimeField> UVKZGPoly<F> {
    /// The zero polynomial.
    pub fn zero() -> (res: Self)
        ensures
            res@ == Seq::<int>::empty(),
    {
        let res = UVKZGPoly::new(Vec::new());
        assert(res@ =~= Seq::<int>::empty());
        res
    }

    /// A polynomial with `degree + 1` coefficients drawn from `rng`, without the leading
    /// ones that happen to be zero.
    pub fn random<R: RngCore + CryptoRng>(degree: usize, rng: &mut R) -> (res: Self)
        requires
            degree < usize::MAX,
        ensures
            exists|states: Seq<R>, calls: Seq<&mut R>, drawn: Seq<F>| #[trigger]
                are_random(states, calls, drawn) && drawn.len() == degree + 1 && states[0] == *old(
                    rng,
                ) && states[degree + 1] == *final(rng) && (forall|i: int|
                    0 <= i <= degree ==> *final(#[trigger] calls[i]) == states[i + 1]) && res@
                    == trim(values(drawn)),
    {
        UVKZGPoly::new(random_elements(rng, degree + 1))
    }

    /// Divide self by another polynomial, and returns the
    /// quotient and remainder.
    pub fn divide_with_q_and_r(&self, divisor: &Self) -> (res: Option<(UVKZGPoly<F>, UVKZGPoly<F>)>)
        requires
            is_zero_poly(self@) || !is_zero_poly(divisor@),
            is_zero_poly(self@) || self@.len() < divisor@.len() || divisor@.last() != 0,
        ensures
            res matches Some((q, r)) && {
                &&& is_quotient_and_remainder(self@, divisor@, q@, r@, F::modulus())
                &&& is_trimmed(q@)
                &&& q@.len() + divisor@.len() <= self@.len() + 1 || q@.len() == 0
                &&& if is_zero_poly(self@) {
                    q@.len() == 0 && r@.len() == 0
                } else if self@.len() < divisor@.len() {
                    q@.len() == 0 && r@ == self@
                } else {
                    r@.len() < divisor@.len() && is_trimmed(r@)
                }
            },
    {
        let ghost m = F::modulus();
        let ghost p = self@;
        let ghost d = divisor@;
        proof {
            F::lemma_modulus();
        }
        if self.is_zero() {
            let q = UVKZGPoly::<F>::zero();
            let r = UVKZGPoly::<F>::zero();
            assert forall|k: int| 0 <= k implies congruent(
                #[trigger] coeff(p, k),
                product_coeff(q@, d, k) + coeff(r@, k),
                m,
            ) by {
                lemma_congruent_reflexive(0, m);
            }
            Some((q, r))
        } else if self.degree() < divisor.degree() {
            let q = UVKZGPoly::<F>::zero();
            let r = self.clone();
            assert forall|k: int| 0 <= k implies congruent(
                #[trigger] coeff(p, k),
                product_coeff(q@, d, k) + coeff(r@, k),
                m,
            ) by {
                lemma_congruent_reflexive(coeff(p, k), m);
            }
            Some((q, r))
        } else {
            let n: usize = self.coeffs.len();
            let size: usize = divisor.coeffs.len();
            let mut quotient: Vec<F> = Vec::new();
            let mut j: usize = 0;
            while j < n - size + 1
                invariant
                    1 <= size <= n,
                    j <= n - size + 1,
                    quotient@.len() == j,
                    forall|i: int| 0 <= i < j ==> (#[trigger] quotient@[i]).value() == 0,
                decreases n - size + 1 - j,
            {
                quotient.push(F::zero());
                j += 1;
            }
            let mut remainder: UVKZGPoly<F> = self.clone();
            let divisor_leading_inv: F = divisor.leading_coefficient().unwrap().invert().unwrap();
            proof {
                assert forall|k: int| 0 <= k implies congruent(
                    #[trigger] coeff(p, k),
                    product_coeff(values(quotient@), d, k) + coeff(remainder@, k),
                    m,
                ) by {
                    lemma_product_zero(values(quotient@), d, k);
                    lemma_congruent_reflexive(coeff(p, k), m);
                }
            }
            while !remainder.is_zero() && remainder.degree() >= divisor.degree()
                invariant
                    m == F::modulus(),
                    m > 1,
                    p == self@,
                    d == divisor@,
                    d.len() == size,
                    1 <= size <= n,
                    !is_zero_poly(p),
                    p.len() == n,
                    (d.last() * divisor_leading_inv.value()) % m == 1,
                    remainder@.len() <= n,
                    quotient@.len() == n - size + 1,
                    remainder@ == p || is_trimmed(remainder@),
                    forall|i: int|
                        0 <= i <= remainder@.len() - size ==> (#[trigger] quotient@[i]).value() == 0,
                    is_quotient_and_remainder(p, d, values(quotient@), remainder@, m),
                decreases remainder@.len(),
            {
                let ghost r0 = remainder@;
                let ghost q0 = values(quotient@);
                let cur_q_coeff: F = remainder.leading_coefficient().unwrap().times(&divisor_leading_inv);
                let cur_q_degree: usize = remainder.degree() - divisor.degree();
                quotient.set(cur_q_degree, cur_q_coeff);
                let ghost t = cur_q_degree as int;
                let ghost c = cur_q_coeff.value();
                let mut i: usize = 0;
                while i < size
                    invariant
                        m == F::modulus(),
                        m > 1,
                        d == divisor@,
                        d.len() == size,
                        t == cur_q_degree,
                        c == cur_q_coeff.value(),
                        i <= size,
                        r0.len() == t + size <= n,
                        remainder@.len() == r0.len(),
                        forall|k: int| 0 <= k < t || t + i <= k < r0.len() ==> #[trigger] remainder@[k] == r0[k],
                        forall|k: int|
                            t <= k < t + i ==> #[trigger] remainder@[k] == (r0[k] - (c * d[k - t]) % m) % m,
                    decreases size - i,
                {
                    let product: F = cur_q_coeff.times(&divisor.coeffs[i]);
                    let ghost before = remainder@;
                    assert(before[t + i] == r0[t + i]);
                    let difference: F = remainder.coeffs[cur_q_degree + i].minus(&product);
                    remainder.coeffs.set(cur_q_degree + i, difference);
                    assert(remainder@ =~= before.update(t + i, difference.value()));
                    i += 1;
                }
                let ghost r1 = remainder@;
                proof {
                    assert(values(quotient@) =~= q0.update(t, c));
                    assert(q0[t] == 0);
                    assert forall|k: int| 0 <= k implies congruent(
                        #[trigger] coeff(r1, k),
                        coeff(r0, k) - c * coeff(d, k - t),
                        m,
                    ) by {
                        if t <= k < t + size {
                            assert(r1[k] == (r0[k] - (c * d[k - t]) % m) % m);
                            lemma_difference_of_product(r0[k], c, d[k - t], m);
                        } else {
                            assert(c * 0 == 0);
                            lemma_congruent_reflexive(coeff(r0, k), m);
                        }
                    }
                    lemma_division_step(p, d, q0, r0, t, c, r1, m);
                    assert(r1[t + size - 1] == (r0[t + size - 1] - (c * d[size - 1]) % m) % m);
                    lemma_leading_coefficient_vanishes(
                        r0.last(),
                        d[size - 1],
                        divisor_leading_inv.value(),
                        c,
                        m,
                    );
                    assert(r1.last() == 0);
                    lemma_trim(r1);
                    lemma_trim(r1.drop_last());
                }
                remainder.truncate_leading_zeros();
                proof {
                    let q1 = values(quotient@);
                    assert forall|k: int| 0 <= k implies congruent(
                        #[trigger] coeff(p, k),
                        product_coeff(q1, d, k) + coeff(remainder@, k),
                        m,
                    ) by {
                        assert(coeff(remainder@, k) == coeff(r1, k));
                    }
                    assert forall|i: int| 0 <= i <= remainder@.len() - size implies (
                    #[trigger] quotient@[i]).value() == 0 by {
                        assert(q1[i] == q0[i]);
                    }
                }
            }
            let ghost full = values(quotient@);
            let q = UVKZGPoly::new(quotient);
            proof {
                lemma_trim(full);
                assert forall|k: int| 0 <= k implies congruent(
                    #[trigger] coeff(p, k),
                    product_coeff(q@, d, k) + coeff(remainder@, k),
                    m,
                ) by {
                    lemma_product_trim(full, d, k);
                }
                if is_zero_poly(remainder@) {
                    lemma_trim(remainder@);
                    if remainder@.len() > 0 {
                        assert(remainder@[remainder@.len() - 1] == 0);
                    }
                }
            }
            Some((q, remainder))
        }
    }
}

} // verus!
