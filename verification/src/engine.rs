//! The groups and the pairing that the commitment scheme is built on.
use crate::algebra::polynomial::weighted_sum;
use crate::field::PrimeField;
use rand_core::{CryptoRng, RngCore};
use vstd::prelude::*;

verus! {

/// Two groups of the same prime order, with a bilinear pairing.
///
/// A group of prime order is cyclic, so each of its elements is a multiple of a fixed
/// generator. The contracts speak of an element by that multiple, its exponent, which
/// counts modulo the order of the group: adding elements adds their exponents, and the
/// pairing multiplies the exponent of one group's element by that of the other's.
pub trait PairingEngine: Sized {
    /// The integers modulo the order of the groups.
    type Fr: PrimeField;

    /// An element of the first group, in the form that is computed with.
    type G1: Copy;

    /// An element of the first group, in its unique form.
    type G1Affine: Copy + Send + Sync;

    /// An element of the second group.
    type G2Affine: Copy + Send + Sync;

    /// The exponent of an element of the first group.
    spec fn g1_exponent(point: Self::G1) -> int;

    /// The exponent of an element of the first group in its unique form.
    spec fn g1_affine_exponent(point: Self::G1Affine) -> int;

    /// The exponent of an element of the second group.
    spec fn g2_affine_exponent(point: Self::G2Affine) -> int;

    /// The value stands for an element of the first group.
    spec fn is_g1_element(point: Self::G1) -> bool;

    /// The value stands for an element of the second group.
    spec fn is_g2_element(point: Self::G2Affine) -> bool;

    /// The neutral element of the first group.
    fn g1_identity() -> (res: Self::G1)
        ensures
            Self::g1_exponent(res) == 0,
    ;

    /// An element of the first group other than the neutral one, drawn with the randomness
    /// of `rng`.
    fn g1_random<R: RngCore + CryptoRng>(rng: &mut R) -> (res: Self::G1)
        ensures
            Self::is_g1_element(res),
            Self::g1_exponent(res) % Self::Fr::modulus() != 0,
    ;

    /// An element of the second group drawn with the randomness of `rng`.
    fn g2_random<R: RngCore + CryptoRng>(rng: &mut R) -> (res: Self::G2Affine)
        ensures
            Self::is_g2_element(res),
    ;

    /// `a + b`.
    fn g1_sum(a: &Self::G1, b: &Self::G1) -> (res: Self::G1)
        ensures
            Self::g1_exponent(res) == (Self::g1_exponent(*a) + Self::g1_exponent(*b))
                % Self::Fr::modulus(),
    ;

    /// `a - b`.
    fn g1_difference(a: &Self::G1, b: &Self::G1) -> (res: Self::G1)
        ensures
            Self::g1_exponent(res) == (Self::g1_exponent(*a) - Self::g1_exponent(*b))
                % Self::Fr::modulus(),
    ;

    /// `-a`.
    fn g1_negation(a: &Self::G1) -> (res: Self::G1)
        ensures
            Self::g1_exponent(res) == (-Self::g1_exponent(*a)) % Self::Fr::modulus(),
    ;

    /// `scalar * a`.
    fn g1_multiple(a: &Self::G1, scalar: &Self::Fr) -> (res: Self::G1)
        ensures
            Self::g1_exponent(res) == (Self::g1_exponent(*a) * scalar.value())
                % Self::Fr::modulus(),
    ;

    /// `scalar * a` in the second group.
    fn g2_multiple(a: &Self::G2Affine, scalar: &Self::Fr) -> (res: Self::G2Affine)
        ensures
            Self::g2_affine_exponent(res) == (Self::g2_affine_exponent(*a) * scalar.value())
                % Self::Fr::modulus(),
    ;

    /// The unique form of an element.
    fn to_affine(a: &Self::G1) -> (res: Self::G1Affine)
        ensures
            Self::g1_affine_exponent(res) == Self::g1_exponent(*a),
    ;

    /// An element given in its unique form.
    fn to_curve(a: &Self::G1Affine) -> (res: Self::G1)
        ensures
            Self::g1_exponent(res) == Self::g1_affine_exponent(*a),
    ;

    /// The unique forms of many elements.
    fn batch_normalize(points: &[Self::G1]) -> (res: Vec<Self::G1Affine>)
        ensures
            res@.len() == points@.len(),
            forall|i: int|
                0 <= i < points@.len() ==> Self::g1_affine_exponent(#[trigger] res@[i])
                    == Self::g1_exponent(points@[i]),
    ;

    /// Whether the sum of the pairings of all `terms` is the neutral element.
    fn pairings_cancel(terms: &[(Self::G1Affine, Self::G2Affine)]) -> (res: bool)
        ensures
            res == (weighted_sum(
                Seq::new(terms@.len(), |i: int| Self::g1_affine_exponent(terms@[i].0)),
                Seq::new(terms@.len(), |i: int| Self::g2_affine_exponent(terms@[i].1)),
            ) % Self::Fr::modulus() == 0),
    ;
}

/// The exponents of a sequence of elements of the first group.
pub open spec fn g1_exponents<E: PairingEngine>(points: Seq<E::G1Affine>) -> Seq<int> {
    Seq::new(points.len(), |i: int| E::g1_affine_exponent(points[i]))
}

/// The exponents of a sequence of elements are those of its elements, one by one.
pub proof fn law_exponents_are_one_by_one<E: PairingEngine>(points: Seq<E::G1Affine>, i: int)
    requires
        0 <= i < points.len(),
    ensures
        g1_exponents::<E>(points).len() == points.len(),
        g1_exponents::<E>(points)[i] == E::g1_affine_exponent(points[i]),
{
}

} // verus!
