//! The pairing of Bn256.
use crate::algebra::polynomial::weighted_sum;
use crate::engine::PairingEngine;
use crate::provider::bn256::curve::{g1_exponent_of, in_g1, Affine, G1, G1Affine};
use crate::provider::bn256::scalar::{group_order, Fr};
use crate::provider::bn256::twist::{g2_exponent_of, in_g2, G2Affine, TwistAffine};
use group::Group;
use halo2curves::bn256;
use pairing::MillerLoopResult;
use rand_core::{CryptoRng, RngCore};
use vstd::prelude::*;

verus! {

/// The pairing-friendly curve Bn256.
#[derive(Clone, Copy, Debug, PartialEq, Eq)]
pub struct Bn256;

impl PairingEngine for Bn256 {
    type Fr = Fr;

    type G1 = G1;

    type G1Affine = G1Affine;

    type G2Affine = G2Affine;

    open spec fn g1_exponent(point: G1) -> int {
        g1_exponent_of(point@)
    }

    open spec fn g1_affine_exponent(point: G1Affine) -> int {
        g1_exponent_of(point@)
    }

    open spec fn g2_affine_exponent(point: G2Affine) -> int {
        g2_exponent_of(point@)
    }

    open spec fn is_g1_element(point: G1) -> bool {
        in_g1(point@)
    }

    open spec fn is_g2_element(point: G2Affine) -> bool {
        in_g2(point@)
    }

    fn g1_identity() -> (res: G1)
        ensures
            in_g1(res@),
    {
        G1::identity()
    }

    fn g1_random<R: RngCore + CryptoRng>(rng: &mut R) -> G1 {
        G1::random(rng)
    }

    fn g2_random<R: RngCore + CryptoRng>(rng: &mut R) -> G2Affine {
        G2Affine::random(rng)
    }

    fn g1_sum(a: &G1, b: &G1) -> (res: G1)
        ensures
            in_g1(res@),
    {
        a.plus(b)
    }

    fn g1_difference(a: &G1, b: &G1) -> (res: G1)
        ensures
            in_g1(res@),
    {
        a.minus(b)
    }

    fn g1_negation(a: &G1) -> (res: G1)
        ensures
            in_g1(res@),
    {
        a.negate()
    }

    fn g1_multiple(a: &G1, scalar: &Fr) -> (res: G1)
        ensures
            in_g1(res@),
    {
        a.times(scalar)
    }

    fn g2_multiple(a: &G2Affine, scalar: &Fr) -> (res: G2Affine)
        ensures
            in_g2(res@),
    {
        a.times(scalar)
    }

    fn to_affine(a: &G1) -> (res: G1Affine)
        ensures
            in_g1(res@),
            res@ == a@,
    {
        a.to_affine()
    }

    fn to_curve(a: &G1Affine) -> (res: G1)
        ensures
            in_g1(res@),
            res@ == a@,
    {
        a.to_curve()
    }

    fn batch_normalize(points: &[G1]) -> Vec<G1Affine> {
        G1::batch_normalize(points)
    }

    fn pairings_cancel(terms: &[(G1Affine, G2Affine)]) -> bool {
        let mut coordinates: Vec<[[u8; 32]; 6]> = Vec::new();
        let mut i: usize = 0;
        while i < terms.len()
            invariant
                i <= terms@.len(),
                coordinates@.len() == i,
                forall|j: int|
                    0 <= j < i ==> {
                        &&& first_of(#[trigger] coordinates@[j]).is_element()
                        &&& second_of(coordinates@[j]).is_element()
                        &&& first_of(coordinates@[j]).point() == terms@[j].0@
                        &&& second_of(coordinates@[j]).point() == terms@[j].1@
                    },
            decreases terms@.len() - i,
        {
            let (p, q) = terms[i];
            let (p, q) = (p.affine(), q.affine());
            coordinates.push([p.x, p.y, q.x0, q.x1, q.y0, q.y1]);
            i += 1;
        }
        proof {
            let c = coordinates@;
            assert(Seq::new(c.len(), |i: int| g1_exponent_of(first_of(c[i]).point())) =~= Seq::new(
                terms@.len(),
                |i: int| Self::g1_affine_exponent(terms@[i].0),
            ));
            assert(Seq::new(c.len(), |i: int| g2_exponent_of(second_of(c[i]).point()))
                =~= Seq::new(terms@.len(), |i: int| Self::g2_affine_exponent(terms@[i].1)));
        }
        sum_of_pairings_is_identity(coordinates.as_slice())
    }
}

/// The first group's point of a term, which its first two coordinates give.
spec fn first_of(term: [[u8; 32]; 6]) -> Affine {
    Affine { x: term@[0], y: term@[1] }
}

/// The second group's point of a term, which its last four coordinates give.
spec fn second_of(term: [[u8; 32]; 6]) -> TwistAffine {
    TwistAffine { x0: term@[2], x1: term@[3], y0: term@[4], y1: term@[5] }
}

/// `multi_miller_loop` of `pairing` on the curve Bn256 of `halo2curves`, followed by
/// `final_exponentiation` and `is_identity`: whether the sum of the pairings of all terms is
/// the neutral element. The pairing is bilinear and does not degenerate, so that the number
/// by which the pairing of the generators is multiplied is, for each term, the product of
/// those by which the generators are multiplied.
#[verifier::external_body]
fn sum_of_pairings_is_identity(terms: &[[[u8; 32]; 6]]) -> (res: bool)
    requires
        forall|i: int|
            0 <= i < terms@.len() ==> first_of(#[trigger] terms@[i]).is_element() && second_of(
                terms@[i],
            ).is_element(),
    ensures
        res == (weighted_sum(
            Seq::new(terms@.len(), |i: int| g1_exponent_of(first_of(terms@[i]).point())),
            Seq::new(terms@.len(), |i: int| g2_exponent_of(second_of(terms@[i]).point())),
        ) % group_order() == 0),
{
    let convert = |term: &[[u8; 32]; 6]| {
        let [a, b, c, d, e, f] = term.map(|c| bn256::Fq::from_bytes(&c).unwrap());
        let (x, y) = (bn256::Fq2 { c0: c, c1: d }, bn256::Fq2 { c0: e, c1: f });
        (bn256::G1Affine { x: a, y: b }, bn256::G2Prepared::from_affine(bn256::G2Affine { x, y }))
    };
    let terms: Vec<_> = terms.iter().map(convert).collect();
    let terms: Vec<_> = terms.iter().map(|(p, q)| (p, q)).collect();
    bn256::multi_miller_loop(&terms).final_exponentiation().is_identity().into()
}

} // verus!
