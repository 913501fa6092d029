//! What holds of the commitment scheme as a whole.
use crate::algebra::congruence::{
    congruent, law_inverses_modulo_a_prime, lemma_cancel_unit, lemma_congruent_in_range, lemma_congruent_product,
    lemma_congruent_reflexive, lemma_congruent_residue, lemma_congruent_sum,
    lemma_congruent_symmetric, lemma_congruent_transitive, lemma_residue_in_range,
    lemma_residue_of_congruent,
};
use crate::algebra::division::law_linear_quotient_divides;
use crate::algebra::polynomial::{
    coeff, is_quotient_and_remainder, law_trimming_cuts_zeros, lemma_eval_linear_quotient, lemma_linear_quotient_len,
    lemma_trim, lemma_weighted_sum_of_combination, lemma_weighted_sum_of_one,
    lemma_weighted_sum_of_powers, lemma_weighted_sum_of_prefix, lemma_weighted_sums_differ,
    linear_quotient, poly_eval, trim, weighted_sum,
};
use crate::engine::PairingEngine;
use crate::field::{values, PrimeField};
use crate::provider::keys::{UVKZGProverKey, UVKZGVerifierKey, UVUniversalKZGParam};
use crate::provider::non_hiding_kzg::{
    batch_weights, is_accepted, opening_defect, opening_defects, UVKZGCommitment,
    UVKZGEvaluation, UVKZGProof,
};
use vstd::arithmetic::power::{lemma_pow0, pow};
use vstd::prelude::*;

verus! {

/// A commitment is the value of the polynomial at the secret, times the generator.
pub proof fn law_commitment_is_value_at_secret<E: PairingEngine>(
    pp: UVUniversalKZGParam<E>,
    beta: int,
    g: int,
    h: int,
    size: int,
    pk: UVKZGProverKey<E>,
    vk: UVKZGVerifierKey<E>,
    poly: Seq<int>,
    commitment: UVKZGCommitment<E>,
)
    requires
        pp.is_srs(beta, g, h),
        pp.has_keys(size, pk, vk),
        poly.len() <= pk.powers_of_g@.len(),
        commitment.commits_to(pk, poly),
    ensures
        congruent(commitment.exponent(), g * poly_eval(poly, beta), E::Fr::modulus()),
        congruent(
            E::g1_affine_exponent(commitment.0),
            g * poly_eval(poly, beta),
            E::Fr::modulus(),
        ),
{
    lemma_sum_over_key(pp, beta, g, h, size, pk, vk, poly);
    let m = E::Fr::modulus();
    E::Fr::lemma_modulus();
    let sum = weighted_sum(poly, pk.exponents());
    lemma_congruent_residue(sum, m);
    lemma_congruent_transitive(commitment.exponent(), sum, g * poly_eval(poly, beta), m);
}

/// The keys that `trim` returns are those that the parameters hand out one by one.
pub proof fn law_trim_returns_both_keys<E: PairingEngine>(
    pp: UVUniversalKZGParam<E>,
    size: int,
    pk: UVKZGProverKey<E>,
    vk: UVKZGVerifierKey<E>,
    prover_key: UVKZGProverKey<E>,
    verifier_key: UVKZGVerifierKey<E>,
)
    requires
        pp.has_keys(size, pk, vk),
        pp.has_prover_key(size, prover_key),
        pp.has_verifier_key(verifier_key),
    ensures
        pk.powers_of_g@ == prover_key.powers_of_g@,
        vk == verifier_key,
{
}

/// How far the parameters were trimmed does not matter to a polynomial that fits: its
/// commitment and its proofs are the same under both keys.
pub proof fn law_key_size_does_not_matter<E: PairingEngine>(
    pp: UVUniversalKZGParam<E>,
    size: int,
    pk: UVKZGProverKey<E>,
    other_size: int,
    other_pk: UVKZGProverKey<E>,
    poly: Seq<int>,
    point: int,
    commitment: UVKZGCommitment<E>,
    proof: UVKZGProof<E>,
)
    requires
        pp.has_prover_key(size, pk),
        pp.has_prover_key(other_size, other_pk),
        poly.len() <= pk.powers_of_g@.len(),
        poly.len() <= other_pk.powers_of_g@.len(),
    ensures
        commitment.commits_to(pk, poly) <==> commitment.commits_to(other_pk, poly),
        proof.proves(pk, poly, point) <==> proof.proves(other_pk, poly, point),
{
    let m = E::Fr::modulus();
    E::Fr::lemma_modulus();
    let q = linear_quotient(poly, point, m);
    lemma_linear_quotient_len(poly, point, m);
    lemma_trim(poly);
    assert forall|i: int| 0 <= i < poly.len() implies #[trigger] pk.exponents()[i]
        == other_pk.exponents()[i] by {
        assert(pk.powers_of_g@[i] == pp.powers_of_g@[i]);
        assert(other_pk.powers_of_g@[i] == pp.powers_of_g@[i]);
    }
    lemma_weighted_sum_of_prefix(poly, pk.exponents(), other_pk.exponents());
    lemma_weighted_sum_of_prefix(q, pk.exponents(), other_pk.exponents());
}

/// Commitments are linear: `a` times the commitment to `p` plus `b` times that to `q` is the
/// commitment to any polynomial whose coefficients are those of `a * p + b * q`.
pub proof fn law_commitments_are_linear<E: PairingEngine>(
    pk: UVKZGProverKey<E>,
    a: int,
    p: Seq<int>,
    b: int,
    q: Seq<int>,
    combination: Seq<int>,
    to_p: UVKZGCommitment<E>,
    to_q: UVKZGCommitment<E>,
    to_combination: UVKZGCommitment<E>,
)
    requires
        to_p.commits_to(pk, p),
        to_q.commits_to(pk, q),
        to_combination.commits_to(pk, combination),
        forall|k: int|
            0 <= k ==> congruent(
                #[trigger] coeff(combination, k),
                a * coeff(p, k) + b * coeff(q, k),
                E::Fr::modulus(),
            ),
    ensures
        to_combination.exponent() == (a * to_p.exponent() + b * to_q.exponent())
            % E::Fr::modulus(),
{
    let m = E::Fr::modulus();
    E::Fr::lemma_modulus();
    let n = p.len() + q.len() + combination.len();
    let e = pk.exponents();
    lemma_weighted_sum_of_combination(a, p, b, q, combination, e, n, m);
    let (x, y, z) = (weighted_sum(p, e), weighted_sum(q, e), weighted_sum(combination, e));
    lemma_congruent_residue(x, m);
    lemma_congruent_residue(y, m);
    lemma_congruent_reflexive(a, m);
    lemma_congruent_reflexive(b, m);
    lemma_congruent_product(a, a, x, x % m, m);
    lemma_congruent_product(b, b, y, y % m, m);
    lemma_congruent_sum(a * x, a * (x % m), b * y, b * (y % m), m);
    lemma_congruent_transitive(z, a * x + b * y, a * (x % m) + b * (y % m), m);
    lemma_residue_of_congruent(z, a * (x % m) + b * (y % m), m);
}

/// Weights over the powers in a prover key sum to the value at the secret, times the
/// generator.
proof fn lemma_sum_over_key<E: PairingEngine>(
    pp: UVUniversalKZGParam<E>,
    beta: int,
    g: int,
    h: int,
    size: int,
    pk: UVKZGProverKey<E>,
    vk: UVKZGVerifierKey<E>,
    poly: Seq<int>,
)
    requires
        pp.is_srs(beta, g, h),
        pp.has_keys(size, pk, vk),
        poly.len() <= pk.powers_of_g@.len(),
    ensures
        congruent(
            weighted_sum(poly, pk.exponents()),
            g * poly_eval(poly, beta),
            E::Fr::modulus(),
        ),
{
    let m = E::Fr::modulus();
    E::Fr::lemma_modulus();
    assert forall|i: int| 0 <= i < poly.len() implies congruent(
        #[trigger] pk.exponents()[i],
        g * pow(beta, i as nat),
        m,
    ) by {
        assert(pk.powers_of_g@[i] == pp.powers_of_g@[i]);
        assert(pk.exponents()[i] == pp.exponents()[i]);
    }
    lemma_weighted_sum_of_powers(poly, pk.exponents(), g, beta, m);
}

/// An exponent other than zero can be cancelled from a product.
proof fn lemma_cancel_exponent<E: PairingEngine>(a: int, b: int)
    requires
        a % E::Fr::modulus() != 0,
        congruent(a * b, 0, E::Fr::modulus()),
    ensures
        congruent(b, 0, E::Fr::modulus()),
{
    E::Fr::lemma_prime();
    law_inverses_modulo_a_prime(a, E::Fr::modulus());
    lemma_cancel_unit(a, b, E::Fr::modulus());
}

/// The verifier's equation, with the secret in view: an opening is accepted exactly if the
/// proof times `beta - point` is the commitment less the value times the generator. The
/// element of the second group is not neutral.
pub proof fn law_acceptance_equation<E: PairingEngine>(
    pp: UVUniversalKZGParam<E>,
    beta: int,
    g: int,
    h: int,
    size: int,
    pk: UVKZGProverKey<E>,
    vk: UVKZGVerifierKey<E>,
    commitment: UVKZGCommitment<E>,
    point: int,
    proof: UVKZGProof<E>,
    evaluation: UVKZGEvaluation<E>,
)
    requires
        pp.is_srs(beta, g, h),
        pp.has_keys(size, pk, vk),
        h % E::Fr::modulus() != 0,
    ensures
        is_accepted(vk, commitment, point, proof, evaluation) <==> congruent(
            proof.exponent() * (beta - point),
            commitment.exponent() - g * evaluation.value(),
            E::Fr::modulus(),
        ),
{
    let m = E::Fr::modulus();
    E::Fr::lemma_modulus();
    lemma_defect(pp, beta, g, h, size, pk, vk, commitment, point, proof, evaluation);
    let defect = opening_defect(vk, commitment, point, proof, evaluation);
    let gap = proof.exponent() * (beta - point) - (commitment.exponent() - g * evaluation.value());
    assert(congruent(defect, h * gap, m));
    if is_accepted(vk, commitment, point, proof, evaluation) {
        lemma_congruent_symmetric(defect, h * gap, m);
        lemma_congruent_transitive(h * gap, defect, 0, m);
        lemma_cancel_exponent::<E>(h, gap);
    }
    if congruent(gap, 0, m) {
        lemma_congruent_reflexive(h, m);
        lemma_congruent_product(h, h, gap, 0, m);
        lemma_congruent_transitive(defect, h * gap, h * 0, m);
    }
}

/// By how much an opening misses the pairing equation, with the secret in view.
proof fn lemma_defect<E: PairingEngine>(
    pp: UVUniversalKZGParam<E>,
    beta: int,
    g: int,
    h: int,
    size: int,
    pk: UVKZGProverKey<E>,
    vk: UVKZGVerifierKey<E>,
    commitment: UVKZGCommitment<E>,
    point: int,
    proof: UVKZGProof<E>,
    evaluation: UVKZGEvaluation<E>,
)
    requires
        pp.is_srs(beta, g, h),
        pp.has_keys(size, pk, vk),
    ensures
        congruent(
            opening_defect(vk, commitment, point, proof, evaluation),
            h * (proof.exponent() * (beta - point) - (commitment.exponent() - g
                * evaluation.value())),
            E::Fr::modulus(),
        ),
{
    let m = E::Fr::modulus();
    E::Fr::lemma_modulus();
    let ge = E::g1_affine_exponent(vk.g);
    let he = E::g2_affine_exponent(vk.h);
    let be = E::g2_affine_exponent(vk.beta_h);
    let w = proof.exponent();
    let c = commitment.exponent();
    let v = evaluation.value();
    assert(congruent(ge, g, m)) by {
        assert(pp.exponents()[0] == ge);
        lemma_pow0(beta);
        assert(g * 1 == g);
    }
    lemma_congruent_reflexive(v, m);
    lemma_congruent_reflexive(w, m);
    lemma_congruent_reflexive(w * point + c, m);
    lemma_congruent_product(ge, g, v, v, m);
    lemma_congruent_sum(ge * v, g * v, w * point + c, w * point + c, m);
    let a = ge * v - w * point - c;
    let b = g * v - w * point - c;
    lemma_congruent_product(a, b, he, h, m);
    lemma_congruent_product(w, w, be, h * beta, m);
    lemma_congruent_sum(a * he, b * h, w * be, w * (h * beta), m);
    let gv = g * v;
    assert((gv - w * point - c) * h + w * (h * beta) == h * (w * (beta - point) - (c - gv)))
        by (nonlinear_arith);
}

/// By how much an honest proof with any value misses the pairing equation: by the
/// difference of that value from the true one.
proof fn lemma_honest_defect<E: PairingEngine>(
    pp: UVUniversalKZGParam<E>,
    beta: int,
    g: int,
    h: int,
    size: int,
    pk: UVKZGProverKey<E>,
    vk: UVKZGVerifierKey<E>,
    poly: Seq<int>,
    point: int,
    commitment: UVKZGCommitment<E>,
    proof: UVKZGProof<E>,
    evaluation: UVKZGEvaluation<E>,
)
    requires
        pp.is_srs(beta, g, h),
        pp.has_keys(size, pk, vk),
        poly.len() <= pk.powers_of_g@.len(),
        commitment.commits_to(pk, poly),
        proof.proves(pk, poly, point),
    ensures
        congruent(
            opening_defect(vk, commitment, point, proof, evaluation),
            h * (g * (evaluation.value() - poly_eval(poly, point))),
            E::Fr::modulus(),
        ),
{
    let m = E::Fr::modulus();
    E::Fr::lemma_modulus();
    lemma_defect(pp, beta, g, h, size, pk, vk, commitment, point, proof, evaluation);
    law_commitment_is_value_at_secret(pp, beta, g, h, size, pk, vk, poly, commitment);
    let q = linear_quotient(poly, point, m);
    lemma_linear_quotient_len(poly, point, m);
    lemma_trim(poly);
    lemma_sum_over_key(pp, beta, g, h, size, pk, vk, q);
    let w = proof.exponent();
    let c = commitment.exponent();
    let v = evaluation.value();
    let qb = poly_eval(q, beta);
    let pb = poly_eval(poly, beta);
    let pz = poly_eval(poly, point);
    let sum = weighted_sum(q, pk.exponents());
    lemma_congruent_residue(sum, m);
    lemma_congruent_transitive(w, sum, g * qb, m);
    lemma_eval_linear_quotient(poly, beta, point, m);
    // w * (beta - point) is congruent to g * (p(beta) - p(point))
    let d = beta - point;
    lemma_congruent_reflexive(d, m);
    lemma_congruent_reflexive(g, m);
    lemma_congruent_product(w, g * qb, d, d, m);
    lemma_congruent_product(g, g, d * qb, pb - pz, m);
    assert((g * qb) * d == g * (d * qb)) by (nonlinear_arith);
    lemma_congruent_transitive(w * d, g * (d * qb), g * (pb - pz), m);
    // c - g * v is congruent to g * (p(beta) - v)
    lemma_congruent_reflexive(g * v, m);
    lemma_congruent_sum(c, g * pb, g * v, g * v, m);
    lemma_congruent_sum(w * d, g * (pb - pz), c - g * v, g * pb - g * v, m);
    let gap = w * d - (c - g * v);
    assert(g * (pb - pz) - (g * pb - g * v) == g * (v - pz)) by (nonlinear_arith);
    lemma_congruent_reflexive(h, m);
    lemma_congruent_product(h, h, gap, g * (v - pz), m);
    lemma_congruent_transitive(
        opening_defect(vk, commitment, point, proof, evaluation),
        h * gap,
        h * (g * (v - pz)),
        m,
    );
}

/// What `commit` and `open` return for a polynomial is accepted by `verify`, under the keys
/// to which the same parameters were trimmed.
pub proof fn law_honest_opening_is_accepted<E: PairingEngine>(
    pp: UVUniversalKZGParam<E>,
    beta: int,
    g: int,
    h: int,
    size: int,
    pk: UVKZGProverKey<E>,
    vk: UVKZGVerifierKey<E>,
    poly: Seq<int>,
    point: int,
    commitment: UVKZGCommitment<E>,
    proof: UVKZGProof<E>,
    evaluation: UVKZGEvaluation<E>,
)
    requires
        pp.is_srs(beta, g, h),
        pp.has_keys(size, pk, vk),
        poly.len() <= pk.powers_of_g@.len(),
        commitment.commits_to(pk, poly),
        proof.proves(pk, poly, point),
        evaluation.is_value_of(poly, point),
    ensures
        is_accepted(vk, commitment, point, proof, evaluation),
{
    let m = E::Fr::modulus();
    E::Fr::lemma_modulus();
    lemma_honest_defect(
        pp,
        beta,
        g,
        h,
        size,
        pk,
        vk,
        poly,
        point,
        commitment,
        proof,
        evaluation,
    );
    let pz = poly_eval(poly, point);
    let v = evaluation.value();
    lemma_congruent_residue(pz, m);
    lemma_congruent_reflexive(g, m);
    lemma_congruent_reflexive(h, m);
    assert(congruent(v - pz, 0, m));
    lemma_congruent_product(g, g, v - pz, 0, m);
    lemma_congruent_product(h, h, g * (v - pz), g * 0, m);
    lemma_congruent_transitive(
        opening_defect(vk, commitment, point, proof, evaluation),
        h * (g * (v - pz)),
        h * (g * 0),
        m,
    );
    assert(h * (g * 0) == 0) by (nonlinear_arith);
}

/// With the commitment and the proof of a polynomial, `verify` accepts the value at the
/// point and no other, unless one of the elements that the parameters are made from is
/// neutral.
pub proof fn law_only_the_value_is_accepted<E: PairingEngine>(
    pp: UVUniversalKZGParam<E>,
    beta: int,
    g: int,
    h: int,
    size: int,
    pk: UVKZGProverKey<E>,
    vk: UVKZGVerifierKey<E>,
    poly: Seq<int>,
    point: int,
    commitment: UVKZGCommitment<E>,
    proof: UVKZGProof<E>,
    evaluation: UVKZGEvaluation<E>,
)
    requires
        pp.is_srs(beta, g, h),
        pp.has_keys(size, pk, vk),
        g % E::Fr::modulus() != 0,
        h % E::Fr::modulus() != 0,
        poly.len() <= pk.powers_of_g@.len(),
        commitment.commits_to(pk, poly),
        proof.proves(pk, poly, point),
    ensures
        is_accepted(vk, commitment, point, proof, evaluation) <==> evaluation.is_value_of(
            poly,
            point,
        ),
{
    let m = E::Fr::modulus();
    E::Fr::lemma_modulus();
    let defect = opening_defect(vk, commitment, point, proof, evaluation);
    let pz = poly_eval(poly, point);
    let v = evaluation.value();
    if is_accepted(vk, commitment, point, proof, evaluation) {
        lemma_honest_defect(
            pp,
            beta,
            g,
            h,
            size,
            pk,
            vk,
            poly,
            point,
            commitment,
            proof,
            evaluation,
        );
        lemma_congruent_symmetric(defect, h * (g * (v - pz)), m);
        lemma_congruent_transitive(h * (g * (v - pz)), defect, 0, m);
        lemma_cancel_exponent::<E>(h, g * (v - pz));
        lemma_cancel_exponent::<E>(g, v - pz);
        evaluation.lemma_canonical();
        lemma_residue_of_congruent(v, pz, m);
        lemma_congruent_residue(v, m);
        lemma_congruent_in_range(v % m, v, m);
    }
    if evaluation.is_value_of(poly, point) {
        law_honest_opening_is_accepted(
            pp,
            beta,
            g,
            h,
            size,
            pk,
            vk,
            poly,
            point,
            commitment,
            proof,
            evaluation,
        );
    }
}

/// Whatever the commitment and the proof are, `verify` accepts at most one value for a
/// point, unless an element of the key is neutral.
pub proof fn law_at_most_one_value_is_accepted<E: PairingEngine>(
    vk: UVKZGVerifierKey<E>,
    commitment: UVKZGCommitment<E>,
    point: int,
    proof: UVKZGProof<E>,
    first: UVKZGEvaluation<E>,
    second: UVKZGEvaluation<E>,
)
    requires
        E::g1_affine_exponent(vk.g) % E::Fr::modulus() != 0,
        E::g2_affine_exponent(vk.h) % E::Fr::modulus() != 0,
        is_accepted(vk, commitment, point, proof, first),
        is_accepted(vk, commitment, point, proof, second),
    ensures
        first.value() == second.value(),
{
    let m = E::Fr::modulus();
    E::Fr::lemma_modulus();
    let g = E::g1_affine_exponent(vk.g);
    let h = E::g2_affine_exponent(vk.h);
    let a = opening_defect(vk, commitment, point, proof, first);
    let b = opening_defect(vk, commitment, point, proof, second);
    lemma_congruent_sum(a, 0, b, 0, m);
    let (v, u) = (first.value(), second.value());
    let rest = proof.exponent() * point + commitment.exponent();
    let tail = proof.exponent() * E::g2_affine_exponent(vk.beta_h);
    assert(a - b == h * (g * (v - u))) by (nonlinear_arith)
        requires
            a == (g * v - rest) * h + tail,
            b == (g * u - rest) * h + tail,
    ;
    lemma_cancel_exponent::<E>(h, g * (v - u));
    lemma_cancel_exponent::<E>(g, v - u);
    first.lemma_canonical();
    second.lemma_canonical();
    lemma_congruent_in_range(v, u, m);
}

/// The openings that `batch_commit` and `batch_open` return for as many polynomials as
/// points are accepted one by one, and by `batch_verify` whatever it draws.
pub proof fn law_honest_batch_is_accepted<E: PairingEngine>(
    pp: UVUniversalKZGParam<E>,
    beta: int,
    g: int,
    h: int,
    size: int,
    pk: UVKZGProverKey<E>,
    vk: UVKZGVerifierKey<E>,
    polys: Seq<Seq<int>>,
    points: Seq<E::Fr>,
    commitments: Seq<UVKZGCommitment<E>>,
    proofs: Seq<UVKZGProof<E>>,
    evaluations: Seq<UVKZGEvaluation<E>>,
    weights: Seq<int>,
)
    requires
        pp.is_srs(beta, g, h),
        pp.has_keys(size, pk, vk),
        polys.len() == points.len() == commitments.len() == proofs.len() == evaluations.len()
            == weights.len(),
        forall|i: int|
            0 <= i < polys.len() ==> (#[trigger] polys[i]).len() <= pk.powers_of_g@.len()
                && commitments[i].commits_to(pk, polys[i]) && proofs[i].proves(
                pk,
                polys[i],
                points[i].value(),
            ) && evaluations[i].is_value_of(polys[i], points[i].value()),
    ensures
        forall|i: int|
            0 <= i < polys.len() ==> #[trigger] opening_defects(
                vk,
                commitments,
                points,
                evaluations,
                proofs,
            )[i] % E::Fr::modulus() == 0,
        weighted_sum(weights, opening_defects(vk, commitments, points, evaluations, proofs))
            % E::Fr::modulus() == 0,
{
    let m = E::Fr::modulus();
    E::Fr::lemma_modulus();
    let defects = opening_defects(vk, commitments, points, evaluations, proofs);
    assert forall|i: int| 0 <= i < polys.len() implies #[trigger] defects[i] % m == 0 by {
        let poly = polys[i];
        law_honest_opening_is_accepted(
            pp,
            beta,
            g,
            h,
            size,
            pk,
            vk,
            poly,
            points[i].value(),
            commitments[i],
            proofs[i],
            evaluations[i],
        );
    }
    lemma_weighted_sum_of_one(weights, defects, -1, m);
}

/// A batch whose openings are all accepted is accepted, whatever the weights are.
pub proof fn law_batch_of_accepted_openings<E: PairingEngine>(
    vk: UVKZGVerifierKey<E>,
    points: Seq<E::Fr>,
    commitments: Seq<UVKZGCommitment<E>>,
    proofs: Seq<UVKZGProof<E>>,
    evaluations: Seq<UVKZGEvaluation<E>>,
    weights: Seq<int>,
)
    requires
        points.len() == commitments.len() == proofs.len() == evaluations.len() == weights.len(),
        forall|i: int|
            0 <= i < points.len() ==> is_accepted(
                vk,
                commitments[i],
                (#[trigger] points[i]).value(),
                proofs[i],
                evaluations[i],
            ),
    ensures
        weighted_sum(weights, opening_defects(vk, commitments, points, evaluations, proofs))
            % E::Fr::modulus() == 0,
{
    let m = E::Fr::modulus();
    E::Fr::lemma_modulus();
    let defects = opening_defects(vk, commitments, points, evaluations, proofs);
    assert forall|i: int| 0 <= i < points.len() implies #[trigger] defects[i] % m == 0 by {
        let point = points[i];
    }
    lemma_weighted_sum_of_one(weights, defects, -1, m);
}

/// A batch in which a single opening is not accepted is rejected, unless the number drawn for
/// that opening is zero. Nothing is drawn for the first opening, so a batch that is wrong
/// there alone is always rejected.
pub proof fn law_batch_with_one_rejected_opening<E: PairingEngine>(
    vk: UVKZGVerifierKey<E>,
    points: Seq<E::Fr>,
    commitments: Seq<UVKZGCommitment<E>>,
    proofs: Seq<UVKZGProof<E>>,
    evaluations: Seq<UVKZGEvaluation<E>>,
    drawn: Seq<u128>,
    wrong: int,
)
    requires
        points.len() == commitments.len() == proofs.len() == evaluations.len() == drawn.len(),
        0 <= wrong < points.len(),
        wrong == 0 || drawn[wrong - 1] as int % E::Fr::modulus() != 0,
        forall|i: int|
            0 <= i < points.len() ==> (is_accepted(
                vk,
                commitments[i],
                (#[trigger] points[i]).value(),
                proofs[i],
                evaluations[i],
            ) <==> i != wrong),
    ensures
        weighted_sum(
            batch_weights(drawn, E::Fr::modulus()),
            opening_defects(vk, commitments, points, evaluations, proofs),
        ) % E::Fr::modulus() != 0,
{
    let m = E::Fr::modulus();
    E::Fr::lemma_modulus();
    let weights = batch_weights(drawn, m);
    let defects = opening_defects(vk, commitments, points, evaluations, proofs);
    assert forall|i: int| 0 <= i < points.len() && i != wrong implies #[trigger] defects[i] % m
        == 0 by {
        let point = points[i];
    }
    let point = points[wrong];
    assert(defects[wrong] % m != 0);
    let sum = weighted_sum(weights, defects);
    let term = weights[wrong] * defects[wrong];
    lemma_weighted_sum_of_one(weights, defects, wrong, m);
    lemma_residue_in_range(1, m);
    if wrong > 0 {
        lemma_congruent_residue(drawn[wrong - 1] as int, m);
        lemma_residue_in_range(weights[wrong], m);
    }
    if sum % m == 0 {
        lemma_congruent_symmetric(sum, term, m);
        lemma_congruent_transitive(term, sum, 0, m);
        lemma_cancel_exponent::<E>(weights[wrong], defects[wrong]);
    }
}

/// A prover key reaches the degree that it was asked for: it holds a power for each degree up
/// to that one, and they are those of the parameters.
pub proof fn law_prover_key_reaches_its_degree<E: PairingEngine>(
    pp: UVUniversalKZGParam<E>,
    size: int,
    pk: UVKZGProverKey<E>,
    degree: int,
)
    requires
        pp.has_prover_key(size, pk),
        0 <= degree <= size,
    ensures
        pk.powers_of_g@.len() == size + 1,
        pk.powers_of_g@[degree] == pp.powers_of_g@[degree],
        pk.exponents()[degree] == E::g1_affine_exponent(pp.powers_of_g@[degree]),
{
}

/// Keys are determined by the parameters and the degree.
pub proof fn law_keys_are_determined<E: PairingEngine>(
    pp: UVUniversalKZGParam<E>,
    size: int,
    pk: UVKZGProverKey<E>,
    vk: UVKZGVerifierKey<E>,
)
    ensures
        pp.has_keys(size, pk, vk) <==> {
            &&& 0 <= size < pp.powers_of_g@.len()
            &&& pk.powers_of_g@.len() == size + 1
            &&& forall|i: int|
                0 <= i <= size ==> #[trigger] pk.powers_of_g@[i] == pp.powers_of_g@[i]
            &&& vk.g == pp.powers_of_g@[0]
            &&& vk.h == pp.h
            &&& vk.beta_h == pp.beta_h
        },
{
    if pk.powers_of_g@.len() == size + 1 && 0 <= size < pp.powers_of_g@.len() && forall|i: int|
        0 <= i <= size ==> #[trigger] pk.powers_of_g@[i] == pp.powers_of_g@[i] {
        assert(pk.powers_of_g@ =~= pp.powers_of_g@.take(size + 1));
    }
}

/// The largest degree for which the parameters make a prover key is their degree bound.
pub proof fn law_degree_bound_is_reached<E: PairingEngine>(
    pp: UVUniversalKZGParam<E>,
    size: int,
    pk: UVKZGProverKey<E>,
)
    requires
        pp.has_prover_key(size, pk),
    ensures
        size <= pp.degree_bound(),
        pp.degree_bound() < pp.powers_of_g@.len(),
        pp.powers_of_g@.len() == pp.degree_bound() + 1,
{
}

/// In parameters with the secret `beta`, the first power is the generator, each further one
/// is the `beta`-fold of the one before it, and so is `beta_h` of `h`.
pub proof fn law_powers_follow_from_the_secret<E: PairingEngine>(
    pp: UVUniversalKZGParam<E>,
    beta: int,
    g: int,
    h: int,
    i: int,
)
    requires
        pp.is_srs(beta, g, h),
        0 <= i < pp.powers_of_g@.len(),
    ensures
        congruent(E::g1_affine_exponent(pp.powers_of_g@[0]), g, E::Fr::modulus()),
        i + 1 < pp.powers_of_g@.len() ==> congruent(
            E::g1_affine_exponent(pp.powers_of_g@[i + 1]),
            E::g1_affine_exponent(pp.powers_of_g@[i]) * beta,
            E::Fr::modulus(),
        ),
        congruent(E::g2_affine_exponent(pp.h), h, E::Fr::modulus()),
        congruent(
            E::g2_affine_exponent(pp.beta_h),
            E::g2_affine_exponent(pp.h) * beta,
            E::Fr::modulus(),
        ),
{
    let m = E::Fr::modulus();
    E::Fr::lemma_modulus();
    lemma_pow0(beta);
    assert(g * 1 == g);
    assert(congruent(pp.exponents()[0], g * pow(beta, 0), m));
    lemma_congruent_reflexive(beta, m);
    if i + 1 < pp.powers_of_g@.len() {
        let (x, y) = (pp.exponents()[i], pp.exponents()[i + 1]);
        let e = pow(beta, i as nat);
        assert(pow(beta, (i + 1) as nat) == beta * e) by {
            reveal(pow);
        }
        assert(congruent(x, g * e, m));
        assert(congruent(y, g * (beta * e), m));
        lemma_congruent_product(x, g * e, beta, beta, m);
        assert((g * e) * beta == g * (beta * e)) by (nonlinear_arith);
        lemma_congruent_symmetric(x * beta, (g * e) * beta, m);
        lemma_congruent_transitive(y, g * (beta * e), x * beta, m);
    }
    let (a, b) = (E::g2_affine_exponent(pp.h), E::g2_affine_exponent(pp.beta_h));
    lemma_congruent_product(a, h, beta, beta, m);
    lemma_congruent_symmetric(a * beta, h * beta, m);
    lemma_congruent_transitive(b, h * beta, a * beta, m);
}

/// What is accepted, under any key: the pairing of the commitment, less the value times the
/// generator, plus the point times the proof, with `h` is that of the proof with `beta_h`.
pub proof fn law_acceptance_is_a_pairing_equation<E: PairingEngine>(
    vk: UVKZGVerifierKey<E>,
    commitment: UVKZGCommitment<E>,
    point: int,
    proof: UVKZGProof<E>,
    evaluation: UVKZGEvaluation<E>,
)
    ensures
        is_accepted(vk, commitment, point, proof, evaluation) <==> congruent(
            (E::g1_affine_exponent(commitment.0) - evaluation.value() * E::g1_affine_exponent(vk.g)
                + point * E::g1_affine_exponent(proof.proof)) * E::g2_affine_exponent(vk.h),
            E::g1_affine_exponent(proof.proof) * E::g2_affine_exponent(vk.beta_h),
            E::Fr::modulus(),
        ),
{
    let m = E::Fr::modulus();
    E::Fr::lemma_modulus();
    let g = E::g1_affine_exponent(vk.g);
    let h = E::g2_affine_exponent(vk.h);
    let bh = E::g2_affine_exponent(vk.beta_h);
    let c = E::g1_affine_exponent(commitment.0);
    let w = E::g1_affine_exponent(proof.proof);
    let v = evaluation.value();
    let left = (c - v * g + point * w) * h;
    let right = w * bh;
    let defect = opening_defect(vk, commitment, point, proof, evaluation);
    assert(g * v == v * g && w * point == point * w) by (nonlinear_arith);
    let (gv, wz) = (v * g, point * w);
    assert((gv - wz - c) * h == -((c - gv + wz) * h)) by (nonlinear_arith);
    assert(defect == right - left);
    if defect % m == 0 {
        lemma_congruent_symmetric(right, left, m);
    }
    if congruent(left, right, m) {
        lemma_congruent_symmetric(left, right, m);
    }
}

/// A batch looks at every opening up to the end of the shortest list, and at each as `verify`
/// does.
pub proof fn law_batch_looks_at_every_opening<E: PairingEngine>(
    vk: UVKZGVerifierKey<E>,
    commitments: Seq<UVKZGCommitment<E>>,
    points: Seq<E::Fr>,
    evaluations: Seq<UVKZGEvaluation<E>>,
    proofs: Seq<UVKZGProof<E>>,
    i: int,
)
    requires
        0 <= i < commitments.len(),
        i < points.len(),
        i < evaluations.len(),
        i < proofs.len(),
    ensures
        i < opening_defects(vk, commitments, points, evaluations, proofs).len(),
        opening_defects(vk, commitments, points, evaluations, proofs).len() <= commitments.len(),
        opening_defects(vk, commitments, points, evaluations, proofs).len() <= points.len(),
        opening_defects(vk, commitments, points, evaluations, proofs).len() <= evaluations.len(),
        opening_defects(vk, commitments, points, evaluations, proofs).len() <= proofs.len(),
        opening_defects(vk, commitments, points, evaluations, proofs)[i] % E::Fr::modulus() == 0
            <==> is_accepted(vk, commitments[i], points[i].value(), proofs[i], evaluations[i]),
{
}

/// A batch of no opening, which one of the lists ends at once, has nothing to look at.
pub proof fn law_batch_ends_with_the_shortest_list<E: PairingEngine>(
    vk: UVKZGVerifierKey<E>,
    commitments: Seq<UVKZGCommitment<E>>,
    points: Seq<E::Fr>,
    evaluations: Seq<UVKZGEvaluation<E>>,
    proofs: Seq<UVKZGProof<E>>,
)
    ensures
        ({
            let n = opening_defects(vk, commitments, points, evaluations, proofs).len();
            &&& n <= commitments.len() && n <= points.len()
            &&& n <= evaluations.len() && n <= proofs.len()
            &&& n == commitments.len() || n == points.len() || n == evaluations.len() || n
                == proofs.len()
        }),
{
}

/// The weights of a batch are what was drawn: the first opening counts once, and the number
/// drawn at an index is the weight of the next opening.
pub proof fn law_weights_are_what_was_drawn(drawn: Seq<u128>, m: int, i: int)
    requires
        0 <= i < drawn.len(),
    ensures
        batch_weights(drawn, m).len() == drawn.len(),
        batch_weights(drawn, m)[0] == 1,
        i + 1 < drawn.len() ==> batch_weights(drawn, m)[i + 1] == drawn[i] as int % m,
{
}

/// Whatever else is wrong in a batch, an opening that is not accepted lets it pass for at
/// most one of the numbers that can be drawn for that opening: of two rows of draws that
/// differ there only, modulo the order of the groups, one is rejected.
pub proof fn law_at_most_one_draw_hides_a_wrong_opening<E: PairingEngine>(
    vk: UVKZGVerifierKey<E>,
    points: Seq<E::Fr>,
    commitments: Seq<UVKZGCommitment<E>>,
    proofs: Seq<UVKZGProof<E>>,
    evaluations: Seq<UVKZGEvaluation<E>>,
    drawn: Seq<u128>,
    other: Seq<u128>,
    wrong: int,
)
    requires
        points.len() == commitments.len() == proofs.len() == evaluations.len() == drawn.len()
            == other.len(),
        0 < wrong < points.len(),
        !is_accepted(
            vk,
            commitments[wrong],
            points[wrong].value(),
            proofs[wrong],
            evaluations[wrong],
        ),
        forall|i: int|
            0 <= i < drawn.len() && i != wrong - 1 ==> #[trigger] drawn[i] == other[i],
        drawn[wrong - 1] as int % E::Fr::modulus() != other[wrong - 1] as int % E::Fr::modulus(),
    ensures
        ({
            let defects = opening_defects(vk, commitments, points, evaluations, proofs);
            let m = E::Fr::modulus();
            weighted_sum(batch_weights(drawn, m), defects) % m != 0 || weighted_sum(
                batch_weights(other, m),
                defects,
            ) % m != 0
        }),
{
    let m = E::Fr::modulus();
    E::Fr::lemma_modulus();
    let defects = opening_defects(vk, commitments, points, evaluations, proofs);
    let (a, b) = (batch_weights(drawn, m), batch_weights(other, m));
    assert forall|i: int| 0 <= i < a.len() && i != wrong implies #[trigger] a[i] == b[i] by {
        if i > 0 {
            assert(drawn[i - 1] == other[i - 1]);
        }
    }
    lemma_weighted_sums_differ(a, b, defects, wrong);
    let (x, y) = (weighted_sum(a, defects), weighted_sum(b, defects));
    if x % m == 0 && y % m == 0 {
        lemma_congruent_sum(x, 0, y, 0, m);
        let (u, v) = (a[wrong], b[wrong]);
        lemma_congruent_residue(drawn[wrong - 1] as int, m);
        lemma_congruent_residue(other[wrong - 1] as int, m);
        if (u - v) % m == 0 {
            lemma_congruent_in_range(u, v, m);
        }
        lemma_cancel_exponent::<E>(u - v, defects[wrong]);
    }
}

/// A random polynomial has the degree that was asked for, unless the last number drawn for it
/// is zero, and its coefficients are what was drawn.
pub proof fn law_random_polynomial_keeps_what_was_drawn<F: PrimeField>(drawn: Seq<F>, i: int)
    requires
        0 <= i < drawn.len(),
    ensures
        drawn[drawn.len() - 1].value() != 0 ==> trim(values(drawn)).len() == drawn.len(),
        i < trim(values(drawn)).len() ==> trim(values(drawn))[i] == drawn[i].value(),
        i >= trim(values(drawn)).len() ==> drawn[i].value() == 0,
{
    law_trimming_cuts_zeros(values(drawn));
    assert(values(drawn)[i] == drawn[i].value());
}

/// A proof is the commitment to a quotient: the proof of `poly` at `point` is `g` times the
/// value at the secret of the polynomial `q` with `poly = q * (X - point) + poly(point)`.
pub proof fn law_proof_commits_to_a_quotient<E: PairingEngine>(
    pp: UVUniversalKZGParam<E>,
    beta: int,
    g: int,
    h: int,
    size: int,
    pk: UVKZGProverKey<E>,
    vk: UVKZGVerifierKey<E>,
    poly: Seq<int>,
    point: int,
    proof: UVKZGProof<E>,
) -> (q: Seq<int>)
    requires
        pp.is_srs(beta, g, h),
        pp.has_keys(size, pk, vk),
        poly.len() <= pk.powers_of_g@.len(),
        proof.proves(pk, poly, point),
    ensures
        is_quotient_and_remainder(
            poly,
            seq![-point, 1],
            q,
            seq![poly_eval(poly, point)],
            E::Fr::modulus(),
        ),
        congruent(E::g1_affine_exponent(proof.proof), g * poly_eval(q, beta), E::Fr::modulus()),
{
    let m = E::Fr::modulus();
    E::Fr::lemma_modulus();
    let q = linear_quotient(poly, point, m);
    law_linear_quotient_divides(poly, point, m);
    lemma_linear_quotient_len(poly, point, m);
    lemma_trim(poly);
    lemma_sum_over_key(pp, beta, g, h, size, pk, vk, q);
    let sum = weighted_sum(q, pk.exponents());
    lemma_congruent_residue(sum, m);
    lemma_congruent_transitive(proof.exponent(), sum, g * poly_eval(q, beta), m);
    q
}

/// The value that an opening comes with is congruent to the value of the polynomial, and
/// canonical, so it is determined.
pub proof fn law_value_of_an_opening<E: PairingEngine>(
    evaluation: UVKZGEvaluation<E>,
    poly: Seq<int>,
    point: int,
)
    ensures
        evaluation.is_value_of(poly, point) <==> congruent(
            evaluation.value(),
            poly_eval(poly, point),
            E::Fr::modulus(),
        ),
{
    let m = E::Fr::modulus();
    E::Fr::lemma_modulus();
    let (v, p) = (evaluation.value(), poly_eval(poly, point));
    evaluation.lemma_canonical();
    lemma_congruent_residue(p, m);
    if congruent(v, p, m) {
        lemma_congruent_transitive(v, p, p % m, m);
        lemma_congruent_in_range(v, p % m, m);
    }
}

} // verus!
