//! The KZG polynomial commitment scheme for univariate polynomials.
use crate::algebra::congruence::{
    congruent, lemma_congruent_product, lemma_congruent_reflexive, lemma_congruent_residue,
    lemma_congruent_sum, lemma_congruent_symmetric, lemma_reduced, lemma_residue_in_range,
    lemma_residue_of_congruent,
};
use crate::algebra::polynomial::{
    lemma_linear_quotient, lemma_linear_quotient_len, lemma_trim, lemma_weighted_sum_of_one,
    linear_quotient, poly_eval, trim, weighted_sum,
};
use crate::engine::{g1_exponents, PairingEngine};
use crate::errors::NovaError;
use crate::field::{values, PrimeField};
use crate::parallel::parallel_map;
use crate::randomness::{are_draws, random_u128s};
use rand_core::{CryptoRng, RngCore};
use std::marker::PhantomData;
use vstd::prelude::*;

pub use crate::provider::keys::{UVKZGProverKey, UVKZGVerifierKey, UVUniversalKZGParam};
pub use crate::provider::poly::UVKZGPoly;

verus! {

/// Commitments
#[derive(Clone, Debug, PartialEq, Eq, Default)]
pub struct UVKZGCommitment<E: PairingEngine>(
    /// the actual commitment is an affine point.
    pub E::G1Affine,
);

/// Polynomial Evaluation
pub struct UVKZGEvaluation<E: PairingEngine>(E::Fr);

/// Proofs
#[derive(Clone, Debug, PartialEq, Eq, Default)]
pub struct UVKZGProof<E: PairingEngine> {
    /// proof
    pub proof: E::G1Affine,
}

impl<E: PairingEngine> UVKZGCommitment<E> {
    /// The exponent of the commitment.
    pub open spec fn exponent(&self) -> int {
        E::g1_affine_exponent(self.0)
    }

    /// This is the commitment to `poly` under the key: the coefficients, over the powers of
    /// the generator.
    pub open spec fn commits_to(&self, key: UVKZGProverKey<E>, poly: Seq<int>) -> bool {
        self.exponent() == weighted_sum(poly, key.exponents()) % E::Fr::modulus()
    }
}

impl<E: PairingEngine> UVKZGEvaluation<E> {
    /// The integer that the evaluation stands for.
    pub closed spec fn value(&self) -> int {
        self.0.value()
    }

    /// The integer is the canonical one.
    pub proof fn lemma_canonical(&self)
        ensures
            0 <= self.value() < E::Fr::modulus(),
    {
        self.0.lemma_canonical();
    }

    /// This is the value of `poly` at `point`.
    pub open spec fn is_value_of(&self, poly: Seq<int>, point: int) -> bool {
        self.value() == poly_eval(poly, point) % E::Fr::modulus()
    }
}

impl<E: PairingEngine> UVKZGProof<E> {
    /// The exponent of the proof.
    pub open spec fn exponent(&self) -> int {
        E::g1_affine_exponent(self.proof)
    }

    /// This is the proof for `poly` at `point` under the key: the commitment to the quotient
    /// of `poly` by `X - point`.
    pub open spec fn proves(&self, key: UVKZGProverKey<E>, poly: Seq<int>, point: int) -> bool {
        self.exponent() == weighted_sum(
            linear_quotient(poly, point, E::Fr::modulus()),
            key.exponents(),
        ) % E::Fr::modulus()
    }
}

/// By how much the opening of `commitment` at `point` misses the pairing equation
/// `e(value * g - point * proof - commitment, h) + e(proof, beta_h) = 0`, in exponents.
pub open spec fn opening_defect<E: PairingEngine>(
    key: UVKZGVerifierKey<E>,
    commitment: UVKZGCommitment<E>,
    point: int,
    proof: UVKZGProof<E>,
    evaluation: UVKZGEvaluation<E>,
) -> int {
    let g = E::g1_affine_exponent(key.g);
    let h = E::g2_affine_exponent(key.h);
    let beta_h = E::g2_affine_exponent(key.beta_h);
    (g * evaluation.value() - proof.exponent() * point - commitment.exponent()) * h
        + proof.exponent() * beta_h
}

/// The opening satisfies the pairing equation.
pub open spec fn is_accepted<E: PairingEngine>(
    key: UVKZGVerifierKey<E>,
    commitment: UVKZGCommitment<E>,
    point: int,
    proof: UVKZGProof<E>,
    evaluation: UVKZGEvaluation<E>,
) -> bool {
    opening_defect(key, commitment, point, proof, evaluation) % E::Fr::modulus() == 0
}

/// How many openings a batch holds: lists of different lengths are cut to the shortest.
pub open spec fn batch_size(a: nat, b: nat, c: nat, d: nat) -> nat {
    let x = if a <= b { a } else { b };
    let y = if c <= d { c } else { d };
    if x <= y { x } else { y }
}

/// By how much each opening of a batch misses its pairing equation.
pub open spec fn opening_defects<E: PairingEngine>(
    key: UVKZGVerifierKey<E>,
    commitments: Seq<UVKZGCommitment<E>>,
    points: Seq<E::Fr>,
    evaluations: Seq<UVKZGEvaluation<E>>,
    proofs: Seq<UVKZGProof<E>>,
) -> Seq<int> {
    Seq::new(
        batch_size(commitments.len(), points.len(), evaluations.len(), proofs.len()),
        |i: int| opening_defect(key, commitments[i], points[i].value(), proofs[i], evaluations[i]),
    )
}

/// The weights of a batch, given what was drawn: the first opening counts once, and each
/// later one by the number drawn for it.
pub open spec fn batch_weights(drawn: Seq<u128>, m: int) -> Seq<int> {
    Seq::new(
        drawn.len(),
        |i: int|
            if i == 0 {
                1
            } else {
                drawn[i - 1] as int % m
            },
    )
}

/// `scalars[0] * bases[0] + scalars[1] * bases[1] + ...`
pub fn vartime_multiscalar_mul<E: PairingEngine>(
    scalars: &[E::Fr],
    bases: &[E::G1Affine],
) -> (res: E::G1)
    requires
        scalars@.len() <= bases@.len(),
    ensures
        E::g1_exponent(res) == weighted_sum(values(scalars@), g1_exponents::<E>(bases@))
            % E::Fr::modulus(),
{
    let ghost m = E::Fr::modulus();
    let ghost s = values(scalars@);
    let ghost b = g1_exponents::<E>(bases@);
    let mut acc = E::g1_identity();
    let mut i: usize = 0;
    proof {
        E::Fr::lemma_modulus();
        lemma_residue_in_range(0, m);
    }
    while i < scalars.len()
        invariant
            m == E::Fr::modulus(),
            m > 1,
            s == values(scalars@),
            b == g1_exponents::<E>(bases@),
            i <= scalars@.len() <= bases@.len(),
            E::g1_exponent(acc) == weighted_sum(s.take(i as int), b) % m,
        decreases scalars@.len() - i,
    {
        let base = E::to_curve(&bases[i]);
        let term = E::g1_multiple(&base, &scalars[i]);
        let ghost before = E::g1_exponent(acc);
        acc = E::g1_sum(&acc, &term);
        proof {
            let w = weighted_sum(s.take(i as int), b);
            let t = s[i as int] * b[i as int];
            assert(b[i as int] * s[i as int] == t) by (nonlinear_arith)
                requires
                    t == s[i as int] * b[i as int],
            ;
            lemma_congruent_residue(w, m);
            lemma_congruent_residue(t, m);
            lemma_reduced(before, w, E::g1_exponent(term), t, m);
            assert(s.take(i + 1).drop_last() =~= s.take(i as int));
            assert(s.take(i + 1).last() == s[i as int]);
            lemma_congruent_sum(before, w, E::g1_exponent(term), t, m);
            lemma_residue_of_congruent(before + E::g1_exponent(term), w + t, m);
        }
        i += 1;
    }
    assert(s.take(i as int) =~= s);
    acc
}

/// KZG Polynomial Commitment Scheme on univariate polynomial.
/// Note: this is non-hiding. The type holds nothing; it stands for the scheme over the
/// engine `E`.
#[derive(Debug, PartialEq, Eq, Default)]
pub struct UVKZGPCS<E> {
    phantom: PhantomData<E>,
}

impl<E> Clone for UVKZGPCS<E> {
    fn clone(&self) -> (res: Self)
        ensures
            res == *self,
    {
        UVKZGPCS { phantom: PhantomData }
    }
}

impl<E: PairingEngine> UVKZGPCS<E> {
    /// Generate a commitment for a polynomial
    /// Note that the scheme is not hidding
    pub fn commit(
        prover_param: &UVKZGProverKey<E>,
        poly: &UVKZGPoly<E::Fr>,
    ) -> (res: Result<UVKZGCommitment<E>, NovaError>)
        requires
            poly@.len() != prover_param.powers_of_g@.len() + 1,
        ensures
            match res {
                Ok(commitment) => poly@.len() <= prover_param.powers_of_g@.len()
                    && commitment.commits_to(*prover_param, poly@),
                Err(error) => poly@.len() > prover_param.powers_of_g@.len() && error
                    == NovaError::InvalidIPA,
            },
    {
        if poly.degree() > prover_param.powers_of_g.len() {
            return Err(NovaError::InvalidIPA);
        }
        let c = vartime_multiscalar_mul::<E>(
            poly.coeffs.as_slice(),
            prover_param.powers_of_g.as_slice(),
        );
        Ok(UVKZGCommitment(E::to_affine(&c)))
    }

    /// Generate a commitment for a list of polynomials
    pub fn batch_commit(
        prover_param: &UVKZGProverKey<E>,
        polys: &[UVKZGPoly<E::Fr>],
    ) -> (res: Result<Vec<UVKZGCommitment<E>>, NovaError>)
        requires
            forall|i: int|
                0 <= i < polys@.len() ==> (#[trigger] polys@[i])@.len()
                    != prover_param.powers_of_g@.len() + 1,
        ensures
            match res {
                Ok(commitments) => commitments@.len() == polys@.len() && forall|i: int|
                    0 <= i < polys@.len() ==> (#[trigger] polys@[i])@.len()
                        <= prover_param.powers_of_g@.len() && commitments@[i].commits_to(
                        *prover_param,
                        polys@[i]@,
                    ),
                Err(error) => error == NovaError::InvalidIPA && exists|i: int|
                    0 <= i < polys@.len() && (#[trigger] polys@[i])@.len()
                        > prover_param.powers_of_g@.len(),
            },
    {
        let commit_one = |poly: &UVKZGPoly<E::Fr>| -> (one: Result<UVKZGCommitment<E>, NovaError>)
            requires
                poly@.len() != prover_param.powers_of_g@.len() + 1,
            ensures
                match one {
                    Ok(commitment) => poly@.len() <= prover_param.powers_of_g@.len()
                        && commitment.commits_to(*prover_param, poly@),
                    Err(error) => poly@.len() > prover_param.powers_of_g@.len() && error
                        == NovaError::InvalidIPA,
                },
            { Self::commit(prover_param, poly) };
        let res = parallel_map(polys, commit_one);
        proof {
            if res is Ok {
                let commitments = res->Ok_0;
                assert forall|i: int| 0 <= i < polys@.len() implies (#[trigger] polys@[i])@.len()
                    <= prover_param.powers_of_g@.len() && commitments@[i].commits_to(
                    *prover_param,
                    polys@[i]@,
                ) by {
                    assert(call_ensures(commit_one, (&polys@[i],), Ok(commitments@[i])));
                }
            }
        }
        res
    }

    /// On input a polynomial `p` and a point `point`, outputs a proof for the
    /// same.
    pub fn open(
        prover_param: &UVKZGProverKey<E>,
        polynomial: &UVKZGPoly<E::Fr>,
        point: &E::Fr,
    ) -> (res: Result<(UVKZGProof<E>, UVKZGEvaluation<E>), NovaError>)
        requires
            trim(polynomial@).len() <= prover_param.powers_of_g@.len() + 1,
        ensures
            res matches Ok((proof, evaluation)) && {
                &&& proof.proves(*prover_param, polynomial@, point.value())
                &&& evaluation.is_value_of(polynomial@, point.value())
            },
    {
        let ghost m = E::Fr::modulus();
        let ghost p = polynomial@;
        let ghost z = point.value();
        let mut linear: Vec<E::Fr> = Vec::new();
        linear.push(point.negate());
        linear.push(E::Fr::one());
        let divisor = UVKZGPoly { coeffs: linear };
        proof {
            E::Fr::lemma_modulus();
            assert(divisor@[1] == 1);
        }
        let witness_polynomial = match polynomial.divide_with_q_and_r(&divisor) {
            Some((q, r)) => {
                proof {
                    lemma_congruent_residue(-z, m);
                    assert forall|i: int| 0 <= i < q@.len() implies 0 <= #[trigger] q@[i] < m by {
                        q.coeffs@[i].lemma_canonical();
                    }
                    lemma_trim(p);
                    lemma_linear_quotient(p, z, divisor@, q@, r@, m);
                    lemma_linear_quotient_len(p, z, m);
                }
                q
            },
            None => {
                return Err(NovaError::InvalidIPA);
            },
        };
        let proof = vartime_multiscalar_mul::<E>(
            witness_polynomial.coeffs.as_slice(),
            prover_param.powers_of_g.as_slice(),
        );
        let evaluation = UVKZGEvaluation(polynomial.evaluate(point));
        Ok((UVKZGProof { proof: E::to_affine(&proof) }, evaluation))
    }

    /// Input a list of polynomials, and a same number of points,
    /// compute a multi-opening for all the polynomials.
    pub fn batch_open(
        prover_param: &UVKZGProverKey<E>,
        polynomials: &[UVKZGPoly<E::Fr>],
        points: &[E::Fr],
    ) -> (res: Result<(Vec<UVKZGProof<E>>, Vec<UVKZGEvaluation<E>>), NovaError>)
        requires
            polynomials@.len() == points@.len() ==> forall|i: int|
                0 <= i < polynomials@.len() ==> trim((#[trigger] polynomials@[i])@).len()
                    <= prover_param.powers_of_g@.len() + 1,
        ensures
            match res {
                Ok((proofs, evals)) => {
                    &&& polynomials@.len() == points@.len()
                    &&& proofs@.len() == points@.len()
                    &&& evals@.len() == points@.len()
                    &&& forall|i: int|
                        0 <= i < points@.len() ==> (#[trigger] proofs@[i]).proves(
                            *prover_param,
                            polynomials@[i]@,
                            points@[i].value(),
                        )
                    &&& forall|i: int|
                        0 <= i < points@.len() ==> (#[trigger] evals@[i]).is_value_of(
                            polynomials@[i]@,
                            points@[i].value(),
                        )
                },
                Err(error) => polynomials@.len() != points@.len() && error == NovaError::InvalidIPA,
            },
    {
        if polynomials.len() != points.len() {
            return Err(NovaError::InvalidIPA);
        }
        let mut batch_proof: Vec<UVKZGProof<E>> = Vec::new();
        let mut evals: Vec<UVKZGEvaluation<E>> = Vec::new();
        let mut i: usize = 0;
        while i < polynomials.len()
            invariant
                i <= polynomials@.len(),
                polynomials@.len() == points@.len(),
                forall|j: int|
                    0 <= j < polynomials@.len() ==> trim((#[trigger] polynomials@[j])@).len()
                        <= prover_param.powers_of_g@.len() + 1,
                batch_proof@.len() == i,
                evals@.len() == i,
                forall|j: int|
                    0 <= j < i ==> (#[trigger] batch_proof@[j]).proves(
                        *prover_param,
                        polynomials@[j]@,
                        points@[j].value(),
                    ),
                forall|j: int|
                    0 <= j < i ==> (#[trigger] evals@[j]).is_value_of(
                        polynomials@[j]@,
                        points@[j].value(),
                    ),
            decreases polynomials@.len() - i,
        {
            let (proof, eval) = match Self::open(prover_param, &polynomials[i], &points[i]) {
                Ok(opening) => opening,
                Err(error) => {
                    return Err(error);
                },
            };
            batch_proof.push(proof);
            evals.push(eval);
            i += 1;
        }
        Ok((batch_proof, evals))
    }

    /// Verifies that `value` is the evaluation at `x` of the polynomial
    /// committed inside `comm`.
    pub fn verify(
        verifier_param: &UVKZGVerifierKey<E>,
        commitment: &UVKZGCommitment<E>,
        point: &E::Fr,
        proof: &UVKZGProof<E>,
        evaluation: &UVKZGEvaluation<E>,
    ) -> (res: Result<bool, NovaError>)
        ensures
            res == Ok::<bool, NovaError>(
                is_accepted(*verifier_param, *commitment, point.value(), *proof, *evaluation),
            ),
    {
        let expected = E::g1_multiple(&E::to_curve(&verifier_param.g), &evaluation.0);
        let shift = E::g1_multiple(&E::to_curve(&proof.proof), point);
        let without_shift = E::g1_difference(&expected, &shift);
        let difference = E::g1_difference(&without_shift, &E::to_curve(&commitment.0));
        let mut pairing_inputs: Vec<(E::G1Affine, E::G2Affine)> = Vec::new();
        pairing_inputs.push((E::to_affine(&difference), verifier_param.h));
        pairing_inputs.push((proof.proof, verifier_param.beta_h));
        proof {
            let m = E::Fr::modulus();
            E::Fr::lemma_modulus();
            let g = E::g1_affine_exponent(verifier_param.g);
            let w = proof.exponent();
            let c = commitment.exponent();
            let v = evaluation.value();
            let z = point.value();
            lemma_congruent_residue(g * v, m);
            lemma_congruent_residue(w * z, m);
            lemma_congruent_reflexive(c, m);
            lemma_reduced(E::g1_exponent(expected), g * v, E::g1_exponent(shift), w * z, m);
            lemma_reduced(E::g1_exponent(without_shift), g * v - w * z, c, c, m);
            lemma_pairing_of_two::<E>(pairing_inputs@, g * v - w * z - c, w, m);
        }
        Ok(E::pairings_cancel(pairing_inputs.as_slice()))
    }

    /// Verifies that `value_i` is the evaluation at `x_i` of the polynomial
    /// `poly_i` committed inside `comm`.
    pub fn batch_verify<R: RngCore + CryptoRng>(
        verifier_params: &UVKZGVerifierKey<E>,
        multi_commitment: &[UVKZGCommitment<E>],
        points: &[E::Fr],
        values: &[UVKZGEvaluation<E>],
        batch_proof: &[UVKZGProof<E>],
        rng: &mut R,
    ) -> (res: Result<bool, NovaError>)
        ensures
            ({
                let m = E::Fr::modulus();
                let defects = opening_defects(
                    *verifier_params,
                    multi_commitment@,
                    points@,
                    values@,
                    batch_proof@,
                );
                res matches Ok(accepted) && {
                    &&& exists|states: Seq<R>, calls: Seq<&mut R>, drawn: Seq<u128>| #[trigger]
                        are_draws(states, calls, drawn) && drawn.len() == defects.len()
                            && states[0] == *old(rng) && states[drawn.len() as int] == *final(rng)
                            && (forall|i: int|
                            0 <= i < drawn.len() ==> *final(#[trigger] calls[i]) == states[i + 1])
                            && accepted == (weighted_sum(batch_weights(drawn, m), defects) % m
                            == 0)
                    &&& (forall|i: int| 0 <= i < defects.len() ==> #[trigger] defects[i] % m == 0)
                        ==> accepted
                    &&& defects.len() == 1 ==> accepted == (defects[0] % m == 0)
                    &&& defects.len() == 0 ==> *final(rng) == *old(rng)
                }
            }),
    {
        let ghost m = E::Fr::modulus();
        let n = Self::batch_len(multi_commitment, points, values, batch_proof);
        let drawn = random_u128s(rng, n);
        let randomizers = Self::randomizers(drawn.as_slice());
        proof {
            E::Fr::lemma_modulus();
            let weights = crate::field::values(randomizers@);
            let defects = opening_defects(
                *verifier_params,
                multi_commitment@,
                points@,
                values@,
                batch_proof@,
            );
            assert(weights.take(n as int) =~= weights);
            assert(weights == batch_weights(drawn@, m));
            if forall|i: int| 0 <= i < defects.len() ==> #[trigger] defects[i] % m == 0 {
                lemma_weighted_sum_of_one(weights, defects, -1, m);
            }
            if n == 1 {
                lemma_weighted_sum_of_one(weights, defects, 0, m);
                lemma_residue_of_congruent(weighted_sum(weights, defects), 1 * defects[0], m);
            }
        }
        Self::batch_verify_with_randomizers(
            verifier_params,
            multi_commitment,
            points,
            values,
            batch_proof,
            randomizers.as_slice(),
        )
    }

    /// The randomizers of a batch, given what was drawn: one for the first opening, and for
    /// each later one the number drawn before it.
    // We don't need to sample randomizers from the full field,
    // only from 128-bit strings.
    pub fn randomizers(drawn: &[u128]) -> (res: Vec<E::Fr>)
        ensures
            crate::field::values(res@) == batch_weights(drawn@, E::Fr::modulus()),
            res@.len() == drawn@.len(),
            drawn@.len() > 0 ==> res@[0].value() == 1,
            forall|i: int|
                0 < i < drawn@.len() ==> (#[trigger] res@[i]).value() == drawn@[i - 1] as int
                    % E::Fr::modulus(),
    {
        let mut res: Vec<E::Fr> = Vec::new();
        let mut randomizer = E::Fr::one();
        let mut i: usize = 0;
        while i < drawn.len()
            invariant
                i <= drawn@.len(),
                res@.len() == i,
                forall|j: int|
                    0 <= j < i ==> (#[trigger] res@[j]).value() == batch_weights(
                        drawn@,
                        E::Fr::modulus(),
                    )[j],
                i < drawn@.len() ==> randomizer.value() == batch_weights(
                    drawn@,
                    E::Fr::modulus(),
                )[i as int],
            decreases drawn@.len() - i,
        {
            res.push(randomizer);
            randomizer = E::Fr::from_u128(drawn[i]);
            i += 1;
        }
        assert(crate::field::values(res@) =~= batch_weights(drawn@, E::Fr::modulus()));
        res
    }

    /// Batch verification with given randomizers: the openings, each weighted with its
    /// randomizer, are checked by one equation.
    pub fn batch_verify_with_randomizers(
        verifier_params: &UVKZGVerifierKey<E>,
        multi_commitment: &[UVKZGCommitment<E>],
        points: &[E::Fr],
        values: &[UVKZGEvaluation<E>],
        batch_proof: &[UVKZGProof<E>],
        randomizers: &[E::Fr],
    ) -> (res: Result<bool, NovaError>)
        requires
            batch_size(multi_commitment@.len(), points@.len(), values@.len(), batch_proof@.len())
                <= randomizers@.len(),
        ensures
            ({
                let defects = opening_defects(
                    *verifier_params,
                    multi_commitment@,
                    points@,
                    values@,
                    batch_proof@,
                );
                let weights = crate::field::values(randomizers@).take(defects.len() as int);
                res == Ok::<bool, NovaError>(
                    weighted_sum(weights, defects) % E::Fr::modulus() == 0,
                )
            }),
    {
        let ghost m = E::Fr::modulus();
        let ghost rho = crate::field::values(randomizers@);
        let ghost defects = opening_defects(
            *verifier_params,
            multi_commitment@,
            points@,
            values@,
            batch_proof@,
        );
        let ghost g = E::g1_affine_exponent(verifier_params.g);
        let ghost h = E::g2_affine_exponent(verifier_params.h);
        let ghost bh = E::g2_affine_exponent(verifier_params.beta_h);
        let n = Self::batch_len(multi_commitment, points, values, batch_proof);
        let mut total_c = E::g1_identity();
        let mut total_w = E::g1_identity();
        // Instead of multiplying g in each turn, we simply accumulate its coefficients
        // and perform a final multiplication at the end.
        let mut g_multiplier = E::Fr::zero();
        // the integers that the three totals are congruent to
        let ghost mut tc: int = 0;
        let ghost mut tw: int = 0;
        let ghost mut tg: int = 0;
        let mut i: usize = 0;
        proof {
            E::Fr::lemma_modulus();
            lemma_congruent_reflexive(0, m);
            assert((-0) * bh + (0 - g * 0) * h == 0) by (nonlinear_arith);
        }
        while i < n
            invariant
                m == E::Fr::modulus(),
                m > 1,
                rho == crate::field::values(randomizers@),
                defects == opening_defects(
                    *verifier_params,
                    multi_commitment@,
                    points@,
                    values@,
                    batch_proof@,
                ),
                g == E::g1_affine_exponent(verifier_params.g),
                h == E::g2_affine_exponent(verifier_params.h),
                bh == E::g2_affine_exponent(verifier_params.beta_h),
                n == defects.len(),
                i <= n <= randomizers@.len(),
                n <= multi_commitment@.len(),
                n <= points@.len(),
                n <= values@.len(),
                n <= batch_proof@.len(),
                congruent(E::g1_exponent(total_c), tc, m),
                congruent(E::g1_exponent(total_w), tw, m),
                congruent(g_multiplier.value(), tg, m),
                (-tw) * bh + (tc - g * tg) * h == -weighted_sum(rho.take(i as int), defects),
            decreases n - i,
        {
            let randomizer = randomizers[i];
            let w = E::to_curve(&batch_proof[i].proof);
            let shifted = E::g1_multiple(&w, &points[i]);
            let c = E::g1_sum(&shifted, &E::to_curve(&multi_commitment[i].0));
            let weighted_value = randomizer.times(&values[i].0);
            let weighted_c = E::g1_multiple(&c, &randomizer);
            let weighted_w = E::g1_multiple(&w, &randomizer);
            let ghost (total_c0, total_w0, g_multiplier0) = (total_c, total_w, g_multiplier);
            g_multiplier = g_multiplier.plus(&weighted_value);
            total_c = E::g1_sum(&total_c, &weighted_c);
            total_w = E::g1_sum(&total_w, &weighted_w);
            proof {
                let r = randomizer.value();
                let we = batch_proof@[i as int].exponent();
                let ce = multi_commitment@[i as int].exponent();
                let z = points@[i as int].value();
                let v = values@[i as int].value();
                lemma_congruent_residue(we * z, m);
                lemma_congruent_reflexive(ce, m);
                lemma_reduced(E::g1_exponent(shifted), we * z, ce, ce, m);
                lemma_congruent_reflexive(r, m);
                lemma_reduced(E::g1_exponent(c), we * z + ce, r, r, m);
                lemma_congruent_residue(we * r, m);
                lemma_congruent_residue(r * v, m);
                let (c0, w0) = (E::g1_exponent(total_c0), E::g1_exponent(total_w0));
                lemma_reduced(c0, tc, E::g1_exponent(weighted_c), (we * z + ce) * r, m);
                lemma_reduced(w0, tw, E::g1_exponent(weighted_w), we * r, m);
                lemma_reduced(g_multiplier0.value(), tg, weighted_value.value(), r * v, m);
                lemma_batch_step(tw, tc, tg, r, we, z, ce, v, g, h, bh);
                assert(rho.take(i + 1).drop_last() =~= rho.take(i as int));
                assert(rho.take(i + 1).last() == r);
                assert(defects[i as int] == (g * v - we * z - ce) * h + we * bh);
                tc = tc + (we * z + ce) * r;
                tw = tw + we * r;
                tg = tg + r * v;
            }
            i += 1;
        }
        let multiple_of_g = E::g1_multiple(&E::to_curve(&verifier_params.g), &g_multiplier);
        let ghost total_c0 = total_c;
        total_c = E::g1_difference(&total_c, &multiple_of_g);
        let mut projective_points: Vec<E::G1> = Vec::new();
        projective_points.push(E::g1_negation(&total_w));
        projective_points.push(total_c);
        let affine_points = E::batch_normalize(projective_points.as_slice());
        let mut pairing_inputs: Vec<(E::G1Affine, E::G2Affine)> = Vec::new();
        pairing_inputs.push((affine_points[0], verifier_params.beta_h));
        pairing_inputs.push((affine_points[1], verifier_params.h));
        proof {
            lemma_congruent_reflexive(g, m);
            lemma_reduced(g, g, g_multiplier.value(), tg, m);
            lemma_reduced(E::g1_exponent(total_c0), tc, E::g1_exponent(multiple_of_g), g * tg, m);
            lemma_congruent_reflexive(0, m);
            lemma_reduced(0, 0, E::g1_exponent(total_w), tw, m);
            let (a, p) = (affine_points@, projective_points@);
            assert(E::g1_affine_exponent(a[0]) == E::g1_exponent(p[0]));
            assert(E::g1_affine_exponent(a[1]) == E::g1_exponent(p[1]));
            lemma_pairing_of_two::<E>(pairing_inputs@, -tw, tc - g * tg, m);
            lemma_negation_vanishes(weighted_sum(rho.take(i as int), defects), m);
        }
        Ok(E::pairings_cancel(pairing_inputs.as_slice()))
    }

    /// The number of openings in a batch.
    fn batch_len(
        multi_commitment: &[UVKZGCommitment<E>],
        points: &[E::Fr],
        values: &[UVKZGEvaluation<E>],
        batch_proof: &[UVKZGProof<E>],
    ) -> (res: usize)
        ensures
            res == batch_size(
                multi_commitment@.len(),
                points@.len(),
                values@.len(),
                batch_proof@.len(),
            ),
    {
        let mut n: usize = multi_commitment.len();
        if points.len() < n {
            n = points.len();
        }
        if values.len() < n {
            n = values.len();
        }
        if batch_proof.len() < n {
            n = batch_proof.len();
        }
        n
    }
}

/// Adding one weighted opening to the totals of a batch takes its weighted defect off.
proof fn lemma_batch_step(
    tw: int,
    tc: int,
    tg: int,
    r: int,
    w: int,
    z: int,
    c: int,
    v: int,
    g: int,
    h: int,
    bh: int,
)
    ensures
        (-(tw + w * r)) * bh + ((tc + (w * z + c) * r) - g * (tg + r * v)) * h == ((-tw) * bh + (tc
            - g * tg) * h) - r * ((g * v - w * z - c) * h + w * bh),
{
    assert((-(tw + w * r)) * bh == (-tw) * bh - r * (w * bh)) by (nonlinear_arith);
    let wz = w * z;
    let gv = g * v;
    assert(g * (tg + r * v) == g * tg + r * (g * v)) by (nonlinear_arith);
    assert(((tc + (wz + c) * r) - (g * tg + r * gv)) * h == (tc - g * tg) * h - r * ((gv - wz - c)
        * h)) by (nonlinear_arith);
    let d = (gv - wz - c) * h;
    let e = w * bh;
    assert(r * (d + e) == r * d + r * e) by (nonlinear_arith);
}

/// An integer and its negation are multiples of `m` together.
proof fn lemma_negation_vanishes(a: int, m: int)
    requires
        m > 0,
    ensures
        (-a) % m == 0 <==> a % m == 0,
{
    if a % m == 0 {
        lemma_congruent_symmetric(a, 0, m);
    }
    if (-a) % m == 0 {
        lemma_congruent_symmetric(0, a, m);
    }
}

/// The sum of two pairings, with congruent exponents in the place of those of the first
/// group's elements.
proof fn lemma_pairing_of_two<E: PairingEngine>(
    terms: Seq<(E::G1Affine, E::G2Affine)>,
    x: int,
    y: int,
    m: int,
)
    requires
        m > 0,
        terms.len() == 2,
        congruent(E::g1_affine_exponent(terms[0].0), x, m),
        congruent(E::g1_affine_exponent(terms[1].0), y, m),
    ensures
        weighted_sum(
            Seq::new(terms.len(), |i: int| E::g1_affine_exponent(terms[i].0)),
            Seq::new(terms.len(), |i: int| E::g2_affine_exponent(terms[i].1)),
        ) % m == (x * E::g2_affine_exponent(terms[0].1) + y * E::g2_affine_exponent(terms[1].1))
            % m,
{
    let a = Seq::new(terms.len(), |i: int| E::g1_affine_exponent(terms[i].0));
    let b = Seq::new(terms.len(), |i: int| E::g2_affine_exponent(terms[i].1));
    reveal_with_fuel(weighted_sum, 3);
    assert(weighted_sum(a, b) == a[0] * b[0] + a[1] * b[1]) by {
        assert(a.drop_last().drop_last().len() == 0);
        assert(a.drop_last().last() == a[0]);
    }
    lemma_congruent_reflexive(b[0], m);
    lemma_congruent_reflexive(b[1], m);
    lemma_congruent_product(a[0], x, b[0], b[0], m);
    lemma_congruent_product(a[1], y, b[1], b[1], m);
    lemma_congruent_sum(a[0] * b[0], x * b[0], a[1] * b[1], y * b[1], m);
    lemma_residue_of_congruent(weighted_sum(a, b), x * b[0] + y * b[1], m);
}

} // verus!
