//! The second group of Bn256.
//!
//! It holds points of the twist of the curve, over the quadratic extension of the field of
//! coordinates by a square root of `-1`. A pair of integers `(a, b)` stands for the element
//! `a + b * sqrt(-1)` of the extension.
use crate::field::PrimeField;
use crate::provider::bn256::curve::{field_order, is_coordinate, is_coordinate_repr};
use crate::provider::bn256::scalar::{group_order, integer_of, Fr};
use halo2curves::bn256;
use rand_core::{CryptoRng, RngCore};
use vstd::prelude::*;

verus! {

/// What the scalar multiplication of `halo2curves` returns on a point of the second group.
pub uninterp spec fn g2_multiple(point: ((int, int), (int, int)), scalar: int) -> (
    (int, int),
    (int, int),
);

/// The generator of the second group.
pub open spec fn g2_generator() -> ((int, int), (int, int)) {
    (
        (
            0x1800deef121f1e76426a00665e5c4479674322d4f75edadd46debd5cd992f6edint,
            0x198e9393920d483a7260bfb731fb5d25f1aa493335a9e71297e485b7aef312c2int,
        ),
        (
            0x12c85ea5db8c6deb4aab71808dcb408fe3d1e7690c43d37b4ce6cc0166fa7daaint,
            0x090689d0585ff075ec9e99ad690c3395bc4b313370b38ef355acdadcd122975bint,
        ),
    )
}

/// The multiple of the generator of the second group by `k`.
pub open spec fn g2_power(k: int) -> ((int, int), (int, int)) {
    g2_multiple(g2_generator(), k)
}

/// The point is the multiple of the generator by `k`, and by no other number below the
/// order of the group.
pub open spec fn is_g2_power(point: ((int, int), (int, int)), k: int) -> bool {
    &&& 0 <= k < group_order()
    &&& point == g2_power(k)
    &&& forall|j: int| 0 <= j < group_order() && point == #[trigger] g2_power(j) ==> j == k
}

/// The point belongs to the second group.
pub open spec fn in_g2(point: ((int, int), (int, int))) -> bool {
    exists|k: int| #[trigger] is_g2_power(point, k)
}

/// By which number the generator is multiplied to get the point.
pub open spec fn g2_exponent_of(point: ((int, int), (int, int))) -> int {
    choose|k: int| #[trigger] is_g2_power(point, k)
}

/// The product of two elements of the quadratic extension.
pub open spec fn extension_product(a: (int, int), b: (int, int)) -> (int, int) {
    (a.0 * b.0 - a.1 * b.1, a.0 * b.1 + a.1 * b.0)
}

/// All coordinates are zero, or they satisfy the equation of the twist.
pub open spec fn is_on_twist(point: ((int, int), (int, int))) -> bool {
    let (x, y) = point;
    let y2 = extension_product(y, y);
    let x3 = extension_product(extension_product(x, x), x);
    ||| point == ((0int, 0int), (0int, 0int))
    ||| {
        &&& (y2.0 - x3.0 - 0x2b149d40ceb8aaae81be18991be06ac3b5b4c5e559dbefa33267e6dc24a138e5int)
            % field_order() == 0
        &&& (y2.1 - x3.1 - 0x009713b03af0fed4cd2cafadeed8fdf4a74fa084e52d1852e4a2bd0685c315d2int)
            % field_order() == 0
    }
}

/// Both parts of the first element are congruent to those of the second.
pub open spec fn extension_congruent(a: (int, int), b: (int, int)) -> bool {
    (a.0 - b.0) % field_order() == 0 && (a.1 - b.1) % field_order() == 0
}

/// Both parts are below the order of the field of coordinates.
pub open spec fn is_extension_element(a: (int, int)) -> bool {
    0 <= a.0 < field_order() && 0 <= a.1 < field_order()
}

/// The point has the homogeneous coordinates `x`, `y` and `z`: its own are `x / z` and
/// `y / z`, or zero if `z` is.
pub open spec fn is_g2_affine_form(
    x: (int, int),
    y: (int, int),
    z: (int, int),
    point: ((int, int), (int, int)),
) -> bool {
    if z == (0int, 0int) {
        point == ((0int, 0int), (0int, 0int))
    } else {
        &&& is_extension_element(point.0)
        &&& is_extension_element(point.1)
        &&& extension_congruent(extension_product(point.0, z), x)
        &&& extension_congruent(extension_product(point.1, z), y)
    }
}

/// The point with the given homogeneous coordinates.
pub open spec fn g2_affine_form(x: (int, int), y: (int, int), z: (int, int)) -> (
    (int, int),
    (int, int),
) {
    choose|point: ((int, int), (int, int))| #[trigger] is_g2_affine_form(x, y, z, point)
}

/// Elements of the second group with the same exponent are the same.
pub proof fn law_g2_exponents_tell_elements_apart(
    p: ((int, int), (int, int)),
    q: ((int, int), (int, int)),
)
    requires
        in_g2(p),
        in_g2(q),
        g2_exponent_of(p) == g2_exponent_of(q),
    ensures
        p == q,
{
    assert(is_g2_power(p, g2_exponent_of(p)));
    assert(is_g2_power(q, g2_exponent_of(q)));
}

/// Homogeneous coordinates, one after the other, each as the bytes of its two parts.
struct TwistProjective {
    parts: [[u8; 32]; 6],
}

impl TwistProjective {
    spec fn point(self) -> ((int, int), (int, int)) {
        let parts = self.parts@;
        g2_affine_form(
            (integer_of(parts[0]@), integer_of(parts[1]@)),
            (integer_of(parts[2]@), integer_of(parts[3]@)),
            (integer_of(parts[4]@), integer_of(parts[5]@)),
        )
    }

    spec fn is_element(self) -> bool {
        &&& forall|i: int| 0 <= i < 6 ==> is_coordinate((#[trigger] self.parts@[i])@)
        &&& in_g2(self.point())
    }
}

/// Affine coordinates, each as the bytes of its two parts.
#[derive(Clone, Copy, Debug, PartialEq, Eq)]
pub(crate) struct TwistAffine {
    pub(crate) x0: [u8; 32],
    pub(crate) x1: [u8; 32],
    pub(crate) y0: [u8; 32],
    pub(crate) y1: [u8; 32],
}

impl TwistAffine {
    pub(crate) open spec fn point(self) -> ((int, int), (int, int)) {
        (
            (integer_of(self.x0@), integer_of(self.x1@)),
            (integer_of(self.y0@), integer_of(self.y1@)),
        )
    }

    pub(crate) open spec fn has_coordinates(self) -> bool {
        &&& is_coordinate(self.x0@)
        &&& is_coordinate(self.x1@)
        &&& is_coordinate(self.y0@)
        &&& is_coordinate(self.y1@)
    }

    pub(crate) open spec fn is_element(self) -> bool {
        self.has_coordinates() && in_g2(self.point())
    }
}

/// An element of the second group.
#[derive(Clone, Copy, Debug, PartialEq, Eq)]
pub struct G2Affine {
    coordinates: TwistAffine,
}

impl View for G2Affine {
    type V = ((int, int), (int, int));

    closed spec fn view(&self) -> ((int, int), (int, int)) {
        self.coordinates.point()
    }
}

impl G2Affine {
    #[verifier::type_invariant]
    spec fn is_element(self) -> bool {
        self.coordinates.is_element()
    }

    /// The generator.
    pub fn generator() -> (res: G2Affine)
        ensures
            in_g2(res@),
            res@ == g2_generator(),
            g2_exponent_of(res@) == 1,
    {
        G2Affine { coordinates: generator_of_g2() }
    }

    /// An element drawn with the randomness of `rng`.
    pub fn random<R: RngCore + CryptoRng>(rng: &mut R) -> (res: G2Affine)
        ensures
            in_g2(res@),
            exists|r: &mut R|
                *r == *old(rng) && *final(r) == *final(rng) && #[trigger] is_random_g2(r, res@),
    {
        let ghost before = *rng;
        let drawn = random_g2(rng);
        proof {
            let r = choose|r: &mut R|
                *r == before && *final(r) == *rng && #[trigger] call_ensures(
                    random_g2::<R>,
                    (r,),
                    drawn,
                );
            assert(is_random_g2(r, drawn.point()));
        }
        G2Affine { coordinates: g2_to_affine(&drawn) }
    }

    /// `scalar * self`.
    pub fn times(&self, scalar: &Fr) -> (res: G2Affine)
        ensures
            in_g2(res@),
            res@ == g2_multiple(self@, scalar.value()),
            g2_exponent_of(res@) == (g2_exponent_of(self@) * scalar.value()) % group_order(),
    {
        proof {
            use_type_invariant(self);
        }
        let product = g2_scalar_product(&self.coordinates, &scalar.to_repr());
        G2Affine { coordinates: g2_to_affine(&product) }
    }

    /// The element with the given coordinates; `None` if they are not those of an element.
    pub fn from_coordinates(x: ([u8; 32], [u8; 32]), y: ([u8; 32], [u8; 32])) -> (res: Option<
        G2Affine,
    >)
        ensures
            ({
                let point = (
                    (integer_of(x.0@), integer_of(x.1@)),
                    (integer_of(y.0@), integer_of(y.1@)),
                );
                &&& res is Some <==> is_coordinate(x.0@) && is_coordinate(x.1@) && is_coordinate(
                    y.0@,
                ) && is_coordinate(y.1@) && is_on_twist(point) && in_g2(point)
                &&& res matches Some(element) ==> element@ == point
            }),
    {
        if !is_coordinate_repr(&x.0) || !is_coordinate_repr(&x.1) || !is_coordinate_repr(&y.0)
            || !is_coordinate_repr(&y.1) {
            return None;
        }
        let coordinates = TwistAffine { x0: x.0, x1: x.1, y0: y.0, y1: y.1 };
        if lies_on_twist(&coordinates) && is_torsion_free(&coordinates) {
            Some(G2Affine { coordinates })
        } else {
            None
        }
    }

    /// The coordinates of the element, with what is known of them.
    pub(crate) fn affine(&self) -> (res: TwistAffine)
        ensures
            res.is_element(),
            res.point() == self@,
    {
        proof {
            use_type_invariant(self);
        }
        self.coordinates
    }

    /// The coordinates of the element.
    pub fn coordinates(&self) -> (res: (([u8; 32], [u8; 32]), ([u8; 32], [u8; 32])))
        ensures
            self@ == (
                (integer_of(res.0.0@), integer_of(res.0.1@)),
                (integer_of(res.1.0@), integer_of(res.1.1@)),
            ),
            in_g2(self@),
            is_coordinate(res.0.0@) && is_coordinate(res.0.1@),
            is_coordinate(res.1.0@) && is_coordinate(res.1.1@),
    {
        proof {
            use_type_invariant(self);
        }
        let c = self.coordinates;
        ((c.x0, c.x1), (c.y0, c.y1))
    }
}

/// The call for a random element of the second group on the generator `r` returned `point`.
pub closed spec fn is_random_g2<R: RngCore + CryptoRng>(
    r: &mut R,
    point: ((int, int), (int, int)),
) -> bool {
    exists|p: TwistProjective|
        p.point() == point && #[trigger] call_ensures(random_g2::<R>, (r,), p)
}

/// A random element of the second group is what the call on the generator returned.
proof fn law_random_g2_is_a_call<R: RngCore + CryptoRng>(
    r: &mut R,
    point: ((int, int), (int, int)),
) -> (p: TwistProjective)
    requires
        is_random_g2(r, point),
    ensures
        p.point() == point,
        call_ensures(random_g2::<R>, (r,), p),
{
    choose|p: TwistProjective|
        p.point() == point && #[trigger] call_ensures(random_g2::<R>, (r,), p)
}

/// `generator` of `group` on the second group of `halo2curves`: the fixed point that the
/// exponents of the second group refer to, which is itself times one.
#[verifier::external_body]
fn generator_of_g2() -> (res: TwistAffine)
    ensures
        res.is_element(),
        res.point() == g2_generator(),
        g2_exponent_of(res.point()) == 1,
{
    let p = <bn256::G2Affine as group::prime::PrimeCurveAffine>::generator();
    let (x, y) = (p.x, p.y);
    TwistAffine {
        x0: x.c0.to_bytes(),
        x1: x.c1.to_bytes(),
        y0: y.c0.to_bytes(),
        y1: y.c1.to_bytes(),
    }
}

/// `random` of `group` on the second group of `halo2curves`: an element of the group. Which
/// one is left open, and so is whether it is the neutral one, since a random point of the
/// twist can become that when it is brought into the group.
#[verifier::external_body]
fn random_g2<R: RngCore + CryptoRng>(rng: &mut R) -> (res: TwistProjective)
    ensures
        res.is_element(),
{
    let p = <bn256::G2 as group::Group>::random(rng);
    let parts = [p.x.c0, p.x.c1, p.y.c0, p.y.c1, p.z.c0, p.z.c1].map(|c| c.to_bytes());
    TwistProjective { parts }
}

/// `*` of the second group of `halo2curves` with its scalars. The result has a name; beside
/// that, the number by which the generator is multiplied is multiplied by the scalar modulo
/// the order of the group.
#[verifier::external_body]
fn g2_scalar_product(a: &TwistAffine, scalar: &[u8; 32]) -> (res: TwistProjective)
    requires
        a.is_element(),
        integer_of(scalar@) < group_order(),
    ensures
        res.is_element(),
        res.point() == g2_multiple(a.point(), integer_of(scalar@)),
        g2_exponent_of(res.point()) == (g2_exponent_of(a.point()) * integer_of(scalar@))
            % group_order(),
{
    let [a, b, c, d] = [a.x0, a.x1, a.y0, a.y1].map(|c| bn256::Fq::from_bytes(&c).unwrap());
    let (x, y) = (bn256::Fq2 { c0: a, c1: b }, bn256::Fq2 { c0: c, c1: d });
    let p = bn256::G2Affine { x, y } * bn256::Fr::from_bytes(scalar).unwrap();
    let parts = [p.x.c0, p.x.c1, p.y.c0, p.y.c1, p.z.c0, p.z.c1].map(|c| c.to_bytes());
    TwistProjective { parts }
}

/// `to_affine` of `group` on the second group of `halo2curves`: the point with the given
/// homogeneous coordinates.
#[verifier::external_body]
fn g2_to_affine(p: &TwistProjective) -> (res: TwistAffine)
    requires
        p.is_element(),
    ensures
        res.is_element(),
        res.point() == p.point(),
{
    let [a, b, c, d, e, f] = p.parts.map(|c| bn256::Fq::from_bytes(&c).unwrap());
    let (x, y) = (bn256::Fq2 { c0: a, c1: b }, bn256::Fq2 { c0: c, c1: d });
    let p = group::Curve::to_affine(&bn256::G2 { x, y, z: bn256::Fq2 { c0: e, c1: f } });
    let [x0, x1, y0, y1] = [p.x.c0, p.x.c1, p.y.c0, p.y.c1].map(|c| c.to_bytes());
    TwistAffine { x0, x1, y0, y1 }
}

/// `is_on_curve` of `halo2curves` on its second curve: whether the coordinates satisfy the
/// equation of the twist, or are all zero.
#[verifier::external_body]
fn lies_on_twist(a: &TwistAffine) -> (res: bool)
    requires
        a.has_coordinates(),
    ensures
        res == is_on_twist(a.point()),
{
    let [a, b, c, d] = [a.x0, a.x1, a.y0, a.y1].map(|c| bn256::Fq::from_bytes(&c).unwrap());
    let (x, y) = (bn256::Fq2 { c0: a, c1: b }, bn256::Fq2 { c0: c, c1: d });
    halo2curves::CurveAffine::is_on_curve(&bn256::G2Affine { x, y }).into()
}

/// `is_torsion_free` of `group` on the second group of `halo2curves`: whether the order of
/// the group times the point is the neutral element, which singles out the points of the
/// twist that belong to the group.
#[verifier::external_body]
fn is_torsion_free(a: &TwistAffine) -> (res: bool)
    requires
        a.has_coordinates(),
        is_on_twist(a.point()),
    ensures
        res == in_g2(a.point()),
{
    let [a, b, c, d] = [a.x0, a.x1, a.y0, a.y1].map(|c| bn256::Fq::from_bytes(&c).unwrap());
    let (x, y) = (bn256::Fq2 { c0: a, c1: b }, bn256::Fq2 { c0: c, c1: d });
    let p = bn256::G2::from(bn256::G2Affine { x, y });
    group::cofactor::CofactorGroup::is_torsion_free(&p).into()
}

} // verus!
