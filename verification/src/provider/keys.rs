//! The universal parameters of the scheme, and the keys of prover and verifier.
use crate::algebra::congruence::{
    congruent, lemma_congruent_product, lemma_congruent_reflexive, lemma_congruent_residue,
    lemma_congruent_transitive,
};
use crate::engine::{g1_exponents, PairingEngine};
use crate::field::PrimeField;
use rand_core::{CryptoRng, RngCore};
use vstd::arithmetic::power::{lemma_pow0, pow};
use vstd::prelude::*;

verus! {

/// `UniversalParams` are the universal parameters for the KZG10 scheme.
#[derive(Clone, Debug, PartialEq, Eq, Default)]
pub struct UVUniversalKZGParam<E: PairingEngine> {
    /// Group elements of the form `{ \beta^i G }`, where `i` ranges from 0 to
    /// `degree`.
    pub powers_of_g: Vec<E::G1Affine>,
    /// The generator of G2.
    pub h: E::G2Affine,
    /// \beta times the above generator of G2.
    pub beta_h: E::G2Affine,
}

/// `UnivariateProverKey` is used to generate a proof
#[derive(Clone, Debug, PartialEq, Eq, Default)]
pub struct UVKZGProverKey<E: PairingEngine> {
    /// generators
    pub powers_of_g: Vec<E::G1Affine>,
}

/// `UVKZGVerifierKey` is used to check evaluation proofs for a given
/// commitment.
#[derive(Clone, Debug, PartialEq, Eq, Default)]
pub struct UVKZGVerifierKey<E: PairingEngine> {
    /// The generator of G1.
    pub g: E::G1Affine,
    /// The generator of G2.
    pub h: E::G2Affine,
    /// \beta times the above generator of G2.
    pub beta_h: E::G2Affine,
}

impl<E: PairingEngine> UVKZGProverKey<E> {
    /// The exponents of the powers of the generator.
    pub open spec fn exponents(&self) -> Seq<int> {
        g1_exponents::<E>(self.powers_of_g@)
    }
}

impl<E: PairingEngine> UVUniversalKZGParam<E> {
    /// The exponents of the powers of the generator.
    pub open spec fn exponents(&self) -> Seq<int> {
        g1_exponents::<E>(self.powers_of_g@)
    }

    /// The parameters hold `beta^i` times an element with exponent `g`, and an element
    /// with exponent `h` of the second group with its `beta`-fold.
    pub open spec fn is_srs(&self, beta: int, g: int, h: int) -> bool {
        let m = E::Fr::modulus();
        &&& forall|i: int|
            0 <= i < self.powers_of_g@.len() ==> congruent(
                #[trigger] self.exponents()[i],
                g * pow(beta, i as nat),
                m,
            )
        &&& congruent(E::g2_affine_exponent(self.h), h, m)
        &&& congruent(E::g2_affine_exponent(self.beta_h), h * beta, m)
    }

    /// The largest degree for which there is a power of the generator; `0` if there is no
    /// power at all.
    pub open spec fn degree_bound(&self) -> int {
        if self.powers_of_g@.len() == 0 {
            0
        } else {
            self.powers_of_g@.len() - 1
        }
    }

    /// The key is the prover's for polynomials up to the degree `size`.
    pub open spec fn has_prover_key(&self, size: int, pk: UVKZGProverKey<E>) -> bool {
        &&& 0 <= size < self.powers_of_g@.len()
        &&& pk.powers_of_g@ == self.powers_of_g@.take(size + 1)
    }

    /// The key is the verifier's.
    pub open spec fn has_verifier_key(&self, vk: UVKZGVerifierKey<E>) -> bool {
        &&& vk.g == self.powers_of_g@[0]
        &&& vk.h == self.h
        &&& vk.beta_h == self.beta_h
    }

    /// The keys are the prover's for polynomials up to the degree `size`, and the
    /// verifier's.
    pub open spec fn has_keys(
        &self,
        size: int,
        pk: UVKZGProverKey<E>,
        vk: UVKZGVerifierKey<E>,
    ) -> bool {
        self.has_prover_key(size, pk) && self.has_verifier_key(vk)
    }

    /// Returns the maximum supported degree
    pub fn max_degree(&self) -> (res: usize)
        ensures
            res == self.degree_bound(),
            self.powers_of_g@.len() > 0 ==> res + 1 == self.powers_of_g@.len(),
            self.powers_of_g@.len() == 0 ==> res == 0,
    {
        if self.powers_of_g.len() == 0 {
            0
        } else {
            self.powers_of_g.len() - 1
        }
    }

    /// Returns the prover parameters
    ///
    /// `supported_size` is at most `self.max_degree()`.
    pub fn extract_prover_key(&self, supported_size: usize) -> (res: UVKZGProverKey<E>)
        requires
            supported_size < self.powers_of_g@.len(),
        ensures
            self.has_prover_key(supported_size as int, res),
            res.powers_of_g@.len() == supported_size + 1,
            forall|i: int|
                0 <= i <= supported_size ==> #[trigger] res.powers_of_g@[i]
                    == self.powers_of_g@[i],
    {
        let mut powers_of_g: Vec<E::G1Affine> = Vec::new();
        let mut i: usize = 0;
        while i <= supported_size
            invariant
                supported_size < self.powers_of_g.len(),
                i <= supported_size + 1,
                powers_of_g@ == self.powers_of_g@.take(i as int),
            decreases supported_size + 1 - i,
        {
            powers_of_g.push(self.powers_of_g[i]);
            assert(self.powers_of_g@.take(i + 1) =~= self.powers_of_g@.take(i as int).push(
                self.powers_of_g@[i as int],
            ));
            i += 1;
        }
        UVKZGProverKey { powers_of_g }
    }

    /// Returns the verifier parameters
    ///
    /// There is at least one power of the generator, and `supported_size` is no larger than
    /// their number.
    pub fn extract_verifier_key(&self, supported_size: usize) -> (res: UVKZGVerifierKey<E>)
        requires
            0 < self.powers_of_g@.len(),
            supported_size <= self.powers_of_g@.len(),
        ensures
            self.has_verifier_key(res),
            res.g == self.powers_of_g@[0],
            res.h == self.h,
            res.beta_h == self.beta_h,
    {
        UVKZGVerifierKey { g: self.powers_of_g[0], h: self.h, beta_h: self.beta_h }
    }

    /// Trim the universal parameters to specialize the public parameters
    /// for univariate polynomials to the given `supported_size`, and
    /// returns prover key and verifier key. `supported_size` should
    /// be in range `1..params.len()`
    pub fn trim(&self, supported_size: usize) -> (res: (UVKZGProverKey<E>, UVKZGVerifierKey<E>))
        requires
            supported_size < self.powers_of_g@.len(),
        ensures
            self.has_keys(supported_size as int, res.0, res.1),
            res.0.powers_of_g@.len() == supported_size + 1,
            forall|i: int|
                0 <= i <= supported_size ==> #[trigger] res.0.powers_of_g@[i]
                    == self.powers_of_g@[i],
            res.1.g == self.powers_of_g@[0],
            res.1.h == self.h,
            res.1.beta_h == self.beta_h,
    {
        let pk = self.extract_prover_key(supported_size);
        let vk = UVKZGVerifierKey { g: self.powers_of_g[0], h: self.h, beta_h: self.beta_h };
        (pk, vk)
    }

    /// The parameters for polynomials up to `max_degree` with the secret `beta` over the
    /// elements `g` and `h`.
    pub fn from_secret(beta: &E::Fr, g: &E::G1, h: &E::G2Affine, max_degree: usize) -> (res: Self)
        requires
            max_degree < usize::MAX,
        ensures
            res.powers_of_g@.len() == max_degree + 1,
            res.is_srs(beta.value(), E::g1_exponent(*g), E::g2_affine_exponent(*h)),
            res.h == *h,
            forall|i: int|
                0 <= i <= max_degree ==> congruent(
                    E::g1_affine_exponent(#[trigger] res.powers_of_g@[i]),
                    E::g1_exponent(*g) * pow(beta.value(), i as nat),
                    E::Fr::modulus(),
                ),
            congruent(
                E::g2_affine_exponent(res.beta_h),
                E::g2_affine_exponent(*h) * beta.value(),
                E::Fr::modulus(),
            ),
    {
        let ghost m = E::Fr::modulus();
        let ghost b = beta.value();
        let ghost e = E::g1_exponent(*g);
        let mut powers_of_g_projective: Vec<E::G1> = Vec::new();
        let mut acc: E::G1 = *g;
        let mut i: usize = 0;
        proof {
            E::Fr::lemma_modulus();
            lemma_pow0(b);
            lemma_congruent_reflexive(e, m);
            assert(e * 1 == e);
        }
        while i <= max_degree
            invariant
                m == E::Fr::modulus(),
                m > 1,
                b == beta.value(),
                max_degree < usize::MAX,
                i <= max_degree + 1,
                powers_of_g_projective@.len() == i,
                congruent(E::g1_exponent(acc), e * pow(b, i as nat), m),
                forall|j: int|
                    0 <= j < i ==> congruent(
                        E::g1_exponent(#[trigger] powers_of_g_projective@[j]),
                        e * pow(b, j as nat),
                        m,
                    ),
            decreases max_degree + 1 - i,
        {
            powers_of_g_projective.push(acc);
            let ghost a = E::g1_exponent(acc);
            acc = E::g1_multiple(&acc, beta);
            proof {
                let p = pow(b, i as nat);
                lemma_congruent_residue(a * b, m);
                lemma_congruent_reflexive(b, m);
                lemma_congruent_product(a, e * p, b, b, m);
                lemma_congruent_transitive(E::g1_exponent(acc), a * b, (e * p) * b, m);
                assert(pow(b, (i + 1) as nat) == b * p) by {
                    reveal(pow);
                }
                assert((e * p) * b == e * (b * p)) by (nonlinear_arith);
            }
            i += 1;
        }
        let powers_of_g = E::batch_normalize(powers_of_g_projective.as_slice());
        let beta_h = E::g2_multiple(h, beta);
        proof {
            let f = E::g2_affine_exponent(*h);
            lemma_congruent_residue(f * b, m);
            lemma_congruent_reflexive(f, m);
        }
        UVUniversalKZGParam { powers_of_g, h: *h, beta_h }
    }

    /// Build SRS for testing.
    /// WARNING: THIS FUNCTION IS FOR TESTING PURPOSE ONLY.
    /// THE OUTPUT SRS SHOULD NOT BE USED IN PRODUCTION.
    pub fn gen_srs_for_testing<R: RngCore + CryptoRng>(rng: &mut R, max_degree: usize) -> (res: Self)
        requires
            max_degree < usize::MAX,
        ensures
            res.powers_of_g@.len() == max_degree + 1,
            res.degree_bound() == max_degree,
            exists|beta: int, g: int, h: int|
                #[trigger] res.is_srs(beta, g, h) && g % E::Fr::modulus() != 0,
            exists|beta: E::Fr, g: E::G1, for_beta: &mut R, for_g: &mut R, for_h: &mut R|
                {
                    &&& *for_beta == *old(rng)
                    &&& #[trigger] call_ensures(E::Fr::random::<R>, (for_beta,), beta)
                    &&& *final(for_beta) == *for_g
                    &&& #[trigger] call_ensures(E::g1_random::<R>, (for_g,), g)
                    &&& *final(for_g) == *for_h
                    &&& #[trigger] call_ensures(E::g2_random::<R>, (for_h,), res.h)
                    &&& *final(for_h) == *final(rng)
                    &&& res.is_srs(
                        beta.value(),
                        E::g1_exponent(g),
                        E::g2_affine_exponent(res.h),
                    )
                },
    {
        let beta = E::Fr::random(rng);
        let g = E::g1_random(rng);
        let h = E::g2_random(rng);
        Self::from_secret(&beta, &g, &h, max_degree)
    }
}

} // verus!
