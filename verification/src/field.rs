//! The scalars over which polynomials are written.
use crate::algebra::congruence::is_prime;
use rand_core::{CryptoRng, RngCore};
use vstd::prelude::*;

verus! {

/// An element of a prime field: an integer modulo `modulus()`.
pub trait PrimeField: Sized + Copy + Send + Sync {
    /// The number of elements of the field.
    spec fn modulus() -> int;

    /// The integer from `0` to `modulus() - 1` that this element stands for.
    spec fn value(self) -> int;

    /// Zero and one differ.
    proof fn lemma_modulus()
        ensures
            1 < Self::modulus(),
    ;

    /// The number of elements is a prime, so every element but zero has an inverse.
    proof fn lemma_prime()
        ensures
            is_prime(Self::modulus()),
    ;

    /// Every element has its canonical integer.
    proof fn lemma_canonical(self)
        ensures
            0 <= self.value() < Self::modulus(),
    ;

    /// The additive identity.
    fn zero() -> (res: Self)
        ensures
            res.value() == 0,
    ;

    /// The multiplicative identity.
    fn one() -> (res: Self)
        ensures
            res.value() == 1,
    ;

    /// The element congruent to `v`.
    fn from_u128(v: u128) -> (res: Self)
        ensures
            res.value() == v as int % Self::modulus(),
    ;

    /// An element drawn with the randomness of `rng`.
    fn random<R: RngCore + CryptoRng>(rng: &mut R) -> (res: Self);

    /// Whether this is the additive identity.
    fn is_zero(&self) -> (res: bool)
        ensures
            res == (self.value() == 0),
    ;

    /// `self + other`.
    fn plus(&self, other: &Self) -> (res: Self)
        ensures
            res.value() == (self.value() + other.value()) % Self::modulus(),
    ;

    /// `self - other`.
    fn minus(&self, other: &Self) -> (res: Self)
        ensures
            res.value() == (self.value() - other.value()) % Self::modulus(),
    ;

    /// `self * other`.
    fn times(&self, other: &Self) -> (res: Self)
        ensures
            res.value() == (self.value() * other.value()) % Self::modulus(),
    ;

    /// `-self`.
    fn negate(&self) -> (res: Self)
        ensures
            res.value() == (-self.value()) % Self::modulus(),
    ;

    /// The multiplicative inverse, which every element but zero has.
    fn invert(&self) -> (res: Option<Self>)
        ensures
            res is None <==> self.value() == 0,
            res matches Some(inverse) ==> (self.value() * inverse.value()) % Self::modulus() == 1,
    ;
}

/// The integers that a sequence of field elements stands for.
pub open spec fn values<F: PrimeField>(s: Seq<F>) -> Seq<int> {
    Seq::new(s.len(), |i: int| s[i].value())
}

/// The calls for random elements on the generator, in the states that it was in one after
/// the other, returned `drawn`.
pub open spec fn are_random<F: PrimeField, R: RngCore + CryptoRng>(
    states: Seq<R>,
    calls: Seq<&mut R>,
    drawn: Seq<F>,
) -> bool {
    &&& states.len() == drawn.len() + 1
    &&& calls.len() == drawn.len()
    &&& forall|i: int|
        0 <= i < drawn.len() ==> *calls[i] == states[i] && call_ensures(
            F::random::<R>,
            (#[trigger] calls[i],),
            drawn[i],
        )
}

/// Each of a row of random elements is what the call on the generator returned, in the state
/// that is given for it.
pub proof fn law_random_elements_are_calls<F: PrimeField, R: RngCore + CryptoRng>(
    states: Seq<R>,
    calls: Seq<&mut R>,
    drawn: Seq<F>,
    i: int,
)
    requires
        are_random(states, calls, drawn),
        0 <= i < drawn.len(),
    ensures
        i + 1 < states.len(),
        i < calls.len(),
        *calls[i] == states[i],
        call_ensures(F::random::<R>, (calls[i],), drawn[i]),
{
    let call = calls[i];
}

/// The integers of a sequence of elements are those of its elements, one by one.
pub proof fn law_values_are_one_by_one<F: PrimeField>(s: Seq<F>, i: int)
    requires
        0 <= i < s.len(),
    ensures
        values(s).len() == s.len(),
        values(s)[i] == s[i].value(),
{
}

/// As many elements as are asked for, each drawn with the randomness of `rng`.
pub(crate) fn random_elements<F: PrimeField, R: RngCore + CryptoRng>(
    rng: &mut R,
    n: usize,
) -> (res: Vec<F>)
    ensures
        res@.len() == n,
        exists|states: Seq<R>, calls: Seq<&mut R>| #[trigger] are_random(states, calls, res@)
            && states[0] == *old(rng) && states[n as int] == *final(rng) && forall|i: int|
            0 <= i < n ==> *final(#[trigger] calls[i]) == states[i + 1],
{
    let mut res: Vec<F> = Vec::new();
    let mut i: usize = 0;
    proof {
        assert(are_random(seq![*rng], Seq::<&mut R>::empty(), res@));
    }
    while i < n
        invariant
            i <= n,
            res@.len() == i,
            exists|states: Seq<R>, calls: Seq<&mut R>| #[trigger] are_random(states, calls, res@)
                && states[0] == *old(rng) && states[i as int] == *rng && forall|j: int|
                0 <= j < i ==> *final(#[trigger] calls[j]) == states[j + 1],
        decreases n - i,
    {
        let ghost mid = *rng;
        let ghost before = res@;
        let v = F::random(rng);
        res.push(v);
        proof {
            let (states, calls) = choose|states: Seq<R>, calls: Seq<&mut R>| #[trigger]
                are_random(states, calls, before) && states[0] == *old(rng) && states[i as int]
                    == mid && forall|j: int|
                    0 <= j < i ==> *final(#[trigger] calls[j]) == states[j + 1];
            let r = choose|r: &mut R|
                *r == mid && *final(r) == *rng && #[trigger] call_ensures(F::random::<R>, (r,), v);
            assert(are_random(states.push(*rng), calls.push(r), res@));
        }
        i += 1;
    }
    res
}

} // verus!
