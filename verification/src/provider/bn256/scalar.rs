//! The integers modulo the order of the groups of Bn256.
use crate::field::PrimeField;
use crate::provider::bn256::order::law_group_order_is_prime;
use halo2curves::bn256;
use rand_core::{CryptoRng, RngCore};
use vstd::prelude::*;

verus! {

/// The order of the groups.
pub open spec fn group_order() -> int {
    0x30644e72e131a029b85045b68181585d2833e84879b9709143e1f593f0000001int
}

/// The integer that bytes stand for, lowest byte first.
pub open spec fn integer_of(bytes: Seq<u8>) -> int
    decreases bytes.len(),
{
    if bytes.len() == 0 {
        0
    } else {
        bytes[0] as int + 256 * integer_of(bytes.skip(1))
    }
}

/// Bytes stand for zero exactly if all of them are zero, and never for less.
pub proof fn lemma_integer_of(bytes: Seq<u8>)
    ensures
        0 <= integer_of(bytes),
        integer_of(bytes) == 0 <==> forall|i: int| 0 <= i < bytes.len() ==> #[trigger] bytes[i] == 0,
    decreases bytes.len(),
{
    if bytes.len() > 0 {
        let tail = bytes.skip(1);
        lemma_integer_of(tail);
        if integer_of(bytes) == 0 {
            assert forall|i: int| 0 <= i < bytes.len() implies #[trigger] bytes[i] == 0 by {
                if i > 0 {
                    assert(tail[i - 1] == 0);
                }
            }
        }
        if forall|i: int| 0 <= i < bytes.len() ==> #[trigger] bytes[i] == 0 {
            assert forall|i: int| 0 <= i < tail.len() implies #[trigger] tail[i] == 0 by {
                assert(bytes[i + 1] == 0);
            }
        }
    }
}

/// A scalar of Bn256, as its canonical bytes, lowest byte first.
#[derive(Clone, Copy, Debug, PartialEq, Eq)]
pub struct Fr {
    repr: [u8; 32],
}

impl Fr {
    #[verifier::type_invariant]
    spec fn is_canonical(self) -> bool {
        integer_of(self.repr@) < group_order()
    }

    /// The bytes of the scalar.
    pub closed spec fn bytes(self) -> Seq<u8> {
        self.repr@
    }

    /// The scalar that the bytes stand for, lowest byte first; `None` if they stand for an
    /// integer that is not below the order of the groups.
    pub fn from_repr(repr: [u8; 32]) -> (res: Option<Fr>)
        ensures
            res is Some <==> integer_of(repr@) < group_order(),
            res matches Some(scalar) ==> scalar.bytes() == repr@ && scalar.value() == integer_of(
                repr@,
            ),
    {
        if is_canonical_repr(&repr) {
            proof {
                lemma_integer_of(repr@);
            }
            Some(Fr { repr })
        } else {
            None
        }
    }

    /// The canonical bytes of the scalar, lowest byte first.
    pub fn to_repr(&self) -> (res: [u8; 32])
        ensures
            res@ == self.bytes(),
            integer_of(res@) == self.value(),
    {
        proof {
            use_type_invariant(self);
            lemma_integer_of(self.repr@);
        }
        self.repr
    }
}

impl PrimeField for Fr {
    open spec fn modulus() -> int {
        group_order()
    }

    open spec fn value(self) -> int {
        integer_of(self.bytes()) % group_order()
    }

    proof fn lemma_modulus() {
    }

    proof fn lemma_prime() {
        law_group_order_is_prime();
    }

    proof fn lemma_canonical(self) {
    }

    fn zero() -> Self {
        let repr: [u8; 32] = [0u8; 32];
        proof {
            lemma_integer_of(repr@);
        }
        Fr { repr }
    }

    fn one() -> Self {
        let mut repr: [u8; 32] = [0u8; 32];
        repr[0] = 1;
        proof {
            lemma_integer_of(repr@.skip(1));
        }
        Fr { repr }
    }

    fn from_u128(v: u128) -> Self {
        Fr { repr: scalar_from_u128(v) }
    }

    fn random<R: RngCore + CryptoRng>(rng: &mut R) -> Self {
        Fr { repr: random_scalar(rng) }
    }

    fn is_zero(&self) -> bool {
        proof {
            use_type_invariant(self);
            lemma_integer_of(self.repr@);
        }
        let mut i: usize = 0;
        while i < 32
            invariant
                i <= 32,
                forall|j: int| 0 <= j < i ==> #[trigger] self.repr@[j] == 0,
                self.value() == 0 <==> forall|j: int|
                    0 <= j < self.repr@.len() ==> #[trigger] self.repr@[j] == 0,
            decreases 32 - i,
        {
            if self.repr[i] != 0 {
                assert(self.repr@[i as int] != 0);
                return false;
            }
            i += 1;
        }
        true
    }

    fn plus(&self, other: &Self) -> Self {
        proof {
            use_type_invariant(self);
            use_type_invariant(other);
            lemma_integer_of(self.repr@);
            lemma_integer_of(other.repr@);
        }
        Fr { repr: sum_of_scalars(&self.repr, &other.repr) }
    }

    fn minus(&self, other: &Self) -> Self {
        proof {
            use_type_invariant(self);
            use_type_invariant(other);
            lemma_integer_of(self.repr@);
            lemma_integer_of(other.repr@);
        }
        Fr { repr: difference_of_scalars(&self.repr, &other.repr) }
    }

    fn times(&self, other: &Self) -> Self {
        proof {
            use_type_invariant(self);
            use_type_invariant(other);
            lemma_integer_of(self.repr@);
            lemma_integer_of(other.repr@);
        }
        Fr { repr: product_of_scalars(&self.repr, &other.repr) }
    }

    fn negate(&self) -> Self {
        proof {
            use_type_invariant(self);
            lemma_integer_of(self.repr@);
        }
        Fr { repr: negation_of_scalar(&self.repr) }
    }

    fn invert(&self) -> Option<Self> {
        proof {
            use_type_invariant(self);
            lemma_integer_of(self.repr@);
        }
        match inverse_of_scalar(&self.repr) {
            Some(repr) => {
                proof {
                    lemma_integer_of(repr@);
                }
                Some(Fr { repr })
            },
            None => None,
        }
    }
}

/// Whether the bytes are accepted by `from_repr` of `ff` on the scalars of `halo2curves`:
/// they are if and only if the integer that they stand for is below the order of the
/// groups.
#[verifier::external_body]
fn is_canonical_repr(repr: &[u8; 32]) -> (res: bool)
    ensures
        res == (integer_of(repr@) < group_order()),
{
    bn256::Fr::from_bytes(repr).is_some().into()
}

/// `from_u128` of `ff` on the scalars of `halo2curves`: the scalar that is the given
/// integer. The order of the groups is larger than any `u128`.
#[verifier::external_body]
fn scalar_from_u128(v: u128) -> (res: [u8; 32])
    ensures
        integer_of(res@) == v,
{
    <bn256::Fr as ff::PrimeField>::from_u128(v).to_bytes()
}

/// `random` of `ff` on the scalars of `halo2curves`: nothing is claimed but that the bytes
/// are those of a scalar.
#[verifier::external_body]
fn random_scalar<R: RngCore + CryptoRng>(rng: &mut R) -> (res: [u8; 32])
    ensures
        integer_of(res@) < group_order(),
{
    <bn256::Fr as ff::Field>::random(rng).to_bytes()
}

/// `+` on the scalars of `halo2curves`: the sum modulo the order of the groups.
#[verifier::external_body]
fn sum_of_scalars(a: &[u8; 32], b: &[u8; 32]) -> (res: [u8; 32])
    requires
        integer_of(a@) < group_order(),
        integer_of(b@) < group_order(),
    ensures
        integer_of(res@) == (integer_of(a@) + integer_of(b@)) % group_order(),
{
    let a = bn256::Fr::from_bytes(a).unwrap();
    let b = bn256::Fr::from_bytes(b).unwrap();
    (a + b).to_bytes()
}

/// `-` on the scalars of `halo2curves`: the difference modulo the order of the groups.
#[verifier::external_body]
fn difference_of_scalars(a: &[u8; 32], b: &[u8; 32]) -> (res: [u8; 32])
    requires
        integer_of(a@) < group_order(),
        integer_of(b@) < group_order(),
    ensures
        integer_of(res@) == (integer_of(a@) - integer_of(b@)) % group_order(),
{
    let a = bn256::Fr::from_bytes(a).unwrap();
    let b = bn256::Fr::from_bytes(b).unwrap();
    (a - b).to_bytes()
}

/// `*` on the scalars of `halo2curves`: the product modulo the order of the groups.
#[verifier::external_body]
fn product_of_scalars(a: &[u8; 32], b: &[u8; 32]) -> (res: [u8; 32])
    requires
        integer_of(a@) < group_order(),
        integer_of(b@) < group_order(),
    ensures
        integer_of(res@) == (integer_of(a@) * integer_of(b@)) % group_order(),
{
    let a = bn256::Fr::from_bytes(a).unwrap();
    let b = bn256::Fr::from_bytes(b).unwrap();
    (a * b).to_bytes()
}

/// Unary `-` on the scalars of `halo2curves`: the negation modulo the order of the groups.
#[verifier::external_body]
fn negation_of_scalar(a: &[u8; 32]) -> (res: [u8; 32])
    requires
        integer_of(a@) < group_order(),
    ensures
        integer_of(res@) == (-integer_of(a@)) % group_order(),
{
    (-bn256::Fr::from_bytes(a).unwrap()).to_bytes()
}

/// `invert` of `ff` on the scalars of `halo2curves`: the inverse modulo the order of the
/// groups, which is a prime, so that only zero has none.
#[verifier::external_body]
fn inverse_of_scalar(a: &[u8; 32]) -> (res: Option<[u8; 32]>)
    requires
        integer_of(a@) < group_order(),
    ensures
        res is None <==> integer_of(a@) == 0,
        res matches Some(inverse) ==> {
            &&& integer_of(inverse@) < group_order()
            &&& (integer_of(a@) * integer_of(inverse@)) % group_order() == 1
        },
{
    let a = bn256::Fr::from_bytes(a).unwrap();
    Option::from(ff::Field::invert(&a)).map(|inverse: bn256::Fr| inverse.to_bytes())
}

} // verus!
