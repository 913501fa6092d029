//! Random integers.
use rand::Rng;
use rand_core::{CryptoRng, RngCore};
use vstd::prelude::*;

verus! {

/// The call for a random integer on the generator `r` returned `v`.
pub closed spec fn is_draw<R: RngCore + CryptoRng>(r: &mut R, v: u128) -> bool {
    call_ensures(random_u128::<R>, (r,), v)
}

/// The calls for random integers on the generator, in the states that it was in one after
/// the other, returned `drawn`.
pub open spec fn are_draws<R: RngCore + CryptoRng>(
    states: Seq<R>,
    calls: Seq<&mut R>,
    drawn: Seq<u128>,
) -> bool {
    &&& states.len() == drawn.len() + 1
    &&& calls.len() == drawn.len()
    &&& forall|i: int|
        0 <= i < drawn.len() ==> *calls[i] == states[i] && is_draw(#[trigger] calls[i], drawn[i])
}

/// Each integer of a row of draws is what the call on the generator returned, in the state
/// that is given for it.
pub(crate) proof fn law_draws_are_calls<R: RngCore + CryptoRng>(
    states: Seq<R>,
    calls: Seq<&mut R>,
    drawn: Seq<u128>,
    i: int,
)
    requires
        are_draws(states, calls, drawn),
        0 <= i < drawn.len(),
    ensures
        i + 1 < states.len(),
        i < calls.len(),
        *calls[i] == states[i],
        call_ensures(random_u128::<R>, (calls[i],), drawn[i]),
{
    assert(is_draw(calls[i], drawn[i]));
}

/// One integer drawn with the randomness of `rng`.
fn draw<R: RngCore + CryptoRng>(rng: &mut R) -> (res: u128)
    ensures
        exists|r: &mut R|
            *r == *old(rng) && *final(r) == *final(rng) && #[trigger] is_draw(r, res),
{
    let ghost before = *rng;
    let v = random_u128(rng);
    proof {
        let r = choose|r: &mut R|
            *r == before && *final(r) == *rng && #[trigger] call_ensures(
                random_u128::<R>,
                (r,),
                v,
            );
        assert(is_draw(r, v));
    }
    v
}

/// As many integers as are asked for, each drawn with the randomness of `rng`.
pub(crate) fn random_u128s<R: RngCore + CryptoRng>(rng: &mut R, n: usize) -> (res: Vec<u128>)
    ensures
        res@.len() == n,
        exists|states: Seq<R>, calls: Seq<&mut R>| #[trigger] are_draws(states, calls, res@)
            && states[0] == *old(rng) && states[n as int] == *final(rng) && forall|i: int|
            0 <= i < n ==> *final(#[trigger] calls[i]) == states[i + 1],
{
    let mut res: Vec<u128> = Vec::new();
    let mut i: usize = 0;
    proof {
        let states = seq![*rng];
        let calls = Seq::<&mut R>::empty();
        assert(are_draws(states, calls, res@));
    }
    while i < n
        invariant
            i <= n,
            res@.len() == i,
            exists|states: Seq<R>, calls: Seq<&mut R>| #[trigger] are_draws(states, calls, res@)
                && states[0] == *old(rng) && states[i as int] == *rng && forall|j: int|
                0 <= j < i ==> *final(#[trigger] calls[j]) == states[j + 1],
        decreases n - i,
    {
        let ghost mid = *rng;
        let ghost before = res@;
        let v = draw(rng);
        res.push(v);
        proof {
            let (states, calls) = choose|states: Seq<R>, calls: Seq<&mut R>| #[trigger]
                are_draws(states, calls, before) && states[0] == *old(rng) && states[i as int]
                    == mid && forall|j: int|
                    0 <= j < i ==> *final(#[trigger] calls[j]) == states[j + 1];
            let r = choose|r: &mut R|
                *r == mid && *final(r) == *rng && #[trigger] is_draw(r, v);
            let longer = states.push(*rng);
            let more = calls.push(r);
            assert(are_draws(longer, more, res@));
        }
        i += 1;
    }
    res
}

/// A `u128` drawn with the randomness of `rng`.
///
/// This is `Rng::gen` of `rand`. Its contract claims nothing: every value can come back.
#[verifier::external_body]
pub(crate) fn random_u128<R: RngCore + CryptoRng>(rng: &mut R) -> (res: u128) {
    rng.gen::<u128>()
}

} // verus!
