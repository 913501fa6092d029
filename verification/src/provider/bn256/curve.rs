//! The first group of Bn256.
//!
//! It holds the points of a curve over a prime field. A point is given by its coordinates,
//! each as its canonical bytes, lowest byte first; both coordinates of the neutral element
//! are zero.
use crate::field::PrimeField;
use crate::provider::bn256::scalar::{group_order, integer_of, Fr};
use halo2curves::bn256;
use rand_core::{CryptoRng, RngCore};
use vstd::prelude::*;

verus! {

/// The order of the field of coordinates.
pub open spec fn field_order() -> int {
    0x30644e72e131a029b85045b68181585d97816a916871ca8d3c208c16d87cfd47int
}

/// The bytes are those of a coordinate.
pub open spec fn is_coordinate(bytes: Seq<u8>) -> bool {
    integer_of(bytes) < field_order()
}

/// What the scalar multiplication of `halo2curves` returns on a point of the first group.
pub uninterp spec fn g1_multiple(point: (int, int), scalar: int) -> (int, int);

/// The point has the homogeneous coordinates `x`, `y` and `z`: its own are `x / z` and
/// `y / z`, or zero if `z` is.
pub open spec fn is_g1_affine_form(x: int, y: int, z: int, point: (int, int)) -> bool {
    if z == 0 {
        point == (0int, 0int)
    } else {
        &&& 0 <= point.0 < field_order()
        &&& 0 <= point.1 < field_order()
        &&& (point.0 * z - x) % field_order() == 0
        &&& (point.1 * z - y) % field_order() == 0
    }
}

/// The point with the given homogeneous coordinates.
pub open spec fn g1_affine_form(x: int, y: int, z: int) -> (int, int) {
    choose|point: (int, int)| #[trigger] is_g1_affine_form(x, y, z, point)
}

/// The multiple of the generator `(1, 2)` of the first group by `k`.
pub open spec fn g1_power(k: int) -> (int, int) {
    g1_multiple((1, 2), k)
}

/// The point is the multiple of the generator by `k`, and by no other number below the
/// order of the group.
pub open spec fn is_g1_power(point: (int, int), k: int) -> bool {
    &&& 0 <= k < group_order()
    &&& point == g1_power(k)
    &&& forall|j: int| 0 <= j < group_order() && point == #[trigger] g1_power(j) ==> j == k
}

/// The point belongs to the first group.
pub open spec fn in_g1(point: (int, int)) -> bool {
    exists|k: int| #[trigger] is_g1_power(point, k)
}

/// By which number the generator is multiplied to get the point.
pub open spec fn g1_exponent_of(point: (int, int)) -> int {
    choose|k: int| #[trigger] is_g1_power(point, k)
}

/// Both coordinates are zero, or they satisfy the equation of the curve.
pub open spec fn is_on_curve(point: (int, int)) -> bool {
    let (x, y) = point;
    point == (0int, 0int) || (y * y - x * x * x - 3) % field_order() == 0
}

/// The homogeneous coordinates satisfy the equation of the curve and are not all zero.
pub open spec fn is_on_projective_curve(x: int, y: int, z: int) -> bool {
    if z == 0 {
        x == 0 && y != 0
    } else {
        (y * y * z - x * x * x - 3 * z * z * z) % field_order() == 0
    }
}

/// Elements of the first group with the same exponent are the same.
pub proof fn law_g1_exponents_tell_elements_apart(p: (int, int), q: (int, int))
    requires
        in_g1(p),
        in_g1(q),
        g1_exponent_of(p) == g1_exponent_of(q),
    ensures
        p == q,
{
    assert(is_g1_power(p, g1_exponent_of(p)));
    assert(is_g1_power(q, g1_exponent_of(q)));
}

/// Homogeneous coordinates.
#[derive(Clone, Copy, Debug)]
struct Projective {
    x: [u8; 32],
    y: [u8; 32],
    z: [u8; 32],
}

/// Affine coordinates.
#[derive(Clone, Copy, Debug, PartialEq, Eq)]
pub(crate) struct Affine {
    pub(crate) x: [u8; 32],
    pub(crate) y: [u8; 32],
}

impl Projective {
    spec fn point(self) -> (int, int) {
        g1_affine_form(integer_of(self.x@), integer_of(self.y@), integer_of(self.z@))
    }

    spec fn is_element(self) -> bool {
        &&& is_coordinate(self.x@)
        &&& is_coordinate(self.y@)
        &&& is_coordinate(self.z@)
        &&& in_g1(self.point())
        &&& is_on_projective_curve(
            integer_of(self.x@),
            integer_of(self.y@),
            integer_of(self.z@),
        )
    }
}

impl Affine {
    pub(crate) open spec fn point(self) -> (int, int) {
        (integer_of(self.x@), integer_of(self.y@))
    }

    pub(crate) open spec fn is_element(self) -> bool {
        &&& is_coordinate(self.x@)
        &&& is_coordinate(self.y@)
        &&& in_g1(self.point())
    }
}

/// An element of the first group, in the form that is computed with.
#[derive(Clone, Copy, Debug)]
pub struct G1 {
    coordinates: Projective,
}

/// An element of the first group, in its unique form.
#[derive(Clone, Copy, Debug, PartialEq, Eq)]
pub struct G1Affine {
    coordinates: Affine,
}

impl G1 {
    #[verifier::type_invariant]
    spec fn is_element(self) -> bool {
        self.coordinates.is_element()
    }
}

impl View for G1 {
    type V = (int, int);

    closed spec fn view(&self) -> (int, int) {
        self.coordinates.point()
    }
}

impl G1Affine {
    #[verifier::type_invariant]
    spec fn is_element(self) -> bool {
        self.coordinates.is_element()
    }
}

impl View for G1Affine {
    type V = (int, int);

    closed spec fn view(&self) -> (int, int) {
        self.coordinates.point()
    }
}

impl G1 {
    /// The neutral element.
    pub fn identity() -> (res: G1)
        ensures
            in_g1(res@),
            g1_exponent_of(res@) == 0,
    {
        G1 { coordinates: g1_identity() }
    }

    /// An element other than the neutral one, drawn with the randomness of `rng`.
    pub fn random<R: RngCore + CryptoRng>(rng: &mut R) -> (res: G1)
        ensures
            in_g1(res@),
            0 < g1_exponent_of(res@) < group_order(),
            exists|r: &mut R|
                *r == *old(rng) && *final(r) == *final(rng) && #[trigger] is_random_g1(r, res@),
    {
        let ghost before = *rng;
        let coordinates = random_g1(rng);
        proof {
            let r = choose|r: &mut R|
                *r == before && *final(r) == *rng && #[trigger] call_ensures(
                    random_g1::<R>,
                    (r,),
                    coordinates,
                );
            assert(is_random_g1(r, coordinates.point()));
        }
        G1 { coordinates }
    }

    /// `self + other`.
    pub fn plus(&self, other: &G1) -> (res: G1)
        ensures
            in_g1(res@),
            g1_exponent_of(res@) == (g1_exponent_of(self@) + g1_exponent_of(other@))
                % group_order(),
    {
        proof {
            use_type_invariant(self);
            use_type_invariant(other);
        }
        G1 { coordinates: g1_sum(&self.coordinates, &other.coordinates) }
    }

    /// `self - other`.
    pub fn minus(&self, other: &G1) -> (res: G1)
        ensures
            in_g1(res@),
            g1_exponent_of(res@) == (g1_exponent_of(self@) - g1_exponent_of(other@))
                % group_order(),
    {
        proof {
            use_type_invariant(self);
            use_type_invariant(other);
        }
        G1 { coordinates: g1_difference(&self.coordinates, &other.coordinates) }
    }

    /// `-self`.
    pub fn negate(&self) -> (res: G1)
        ensures
            in_g1(res@),
            g1_exponent_of(res@) == (-g1_exponent_of(self@)) % group_order(),
    {
        proof {
            use_type_invariant(self);
        }
        G1 { coordinates: g1_negation(&self.coordinates) }
    }

    /// `scalar * self`.
    pub fn times(&self, scalar: &Fr) -> (res: G1)
        ensures
            in_g1(res@),
            res@ == g1_multiple(self@, scalar.value()),
            g1_exponent_of(res@) == (g1_exponent_of(self@) * scalar.value()) % group_order(),
    {
        proof {
            use_type_invariant(self);
        }
        G1 { coordinates: g1_scalar_product(&self.coordinates, &scalar.to_repr()) }
    }

    /// The unique form of the element.
    pub fn to_affine(&self) -> (res: G1Affine)
        ensures
            in_g1(res@),
            res@ == self@,
    {
        proof {
            use_type_invariant(self);
        }
        G1Affine { coordinates: g1_to_affine(&self.coordinates) }
    }

    /// The unique forms of many elements.
    pub fn batch_normalize(points: &[G1]) -> (res: Vec<G1Affine>)
        ensures
            res@.len() == points@.len(),
            forall|i: int|
                0 <= i < points@.len() ==> (#[trigger] res@[i])@ == points@[i]@ && in_g1(res@[i]@),
    {
        let mut projective: Vec<Projective> = Vec::new();
        let mut i: usize = 0;
        while i < points.len()
            invariant
                i <= points@.len(),
                projective@.len() == i,
                forall|j: int|
                    0 <= j < i ==> (#[trigger] projective@[j]).is_element()
                        && projective@[j].point() == points@[j]@,
            decreases points@.len() - i,
        {
            let point = points[i];
            proof {
                use_type_invariant(&point);
            }
            projective.push(point.coordinates);
            i += 1;
        }
        let affine = g1_batch_normalize(projective.as_slice());
        let mut res: Vec<G1Affine> = Vec::new();
        let mut k: usize = 0;
        while k < affine.len()
            invariant
                k <= affine@.len(),
                affine@.len() == projective@.len() == points@.len(),
                forall|j: int|
                    0 <= j < points@.len() ==> (#[trigger] projective@[j]).is_element()
                        && projective@[j].point() == points@[j]@,
                forall|j: int|
                    0 <= j < points@.len() ==> (#[trigger] affine@[j]).is_element()
                        && affine@[j].point() == projective@[j].point(),
                res@.len() == k,
                forall|j: int|
                    0 <= j < k ==> (#[trigger] res@[j])@ == points@[j]@ && in_g1(res@[j]@),
            decreases affine@.len() - k,
        {
            assert(affine@[k as int].point() == projective@[k as int].point());
            res.push(G1Affine { coordinates: affine[k] });
            k += 1;
        }
        res
    }
}

impl G1Affine {
    /// The generator.
    pub fn generator() -> (res: G1Affine)
        ensures
            in_g1(res@),
            res@ == (1int, 2int),
            g1_exponent_of(res@) == 1,
    {
        G1Affine { coordinates: g1_generator() }
    }

    /// The element with the given coordinates; `None` if they are not those of an element.
    pub fn from_coordinates(x: [u8; 32], y: [u8; 32]) -> (res: Option<G1Affine>)
        ensures
            res is Some <==> is_coordinate(x@) && is_coordinate(y@) && is_on_curve(
                (integer_of(x@), integer_of(y@)),
            ),
            res matches Some(point) ==> point@ == (integer_of(x@), integer_of(y@)) && in_g1(point@),
    {
        if !is_coordinate_repr(&x) || !is_coordinate_repr(&y) {
            return None;
        }
        let coordinates = Affine { x, y };
        if lies_on_curve(&coordinates) {
            Some(G1Affine { coordinates })
        } else {
            None
        }
    }

    /// The coordinates of the element.
    pub fn coordinates(&self) -> (res: ([u8; 32], [u8; 32]))
        ensures
            (integer_of(res.0@), integer_of(res.1@)) == self@,
            in_g1(self@),
            is_coordinate(res.0@),
            is_coordinate(res.1@),
    {
        proof {
            use_type_invariant(self);
        }
        (self.coordinates.x, self.coordinates.y)
    }

    /// The coordinates of the element, with what is known of them.
    pub(crate) fn affine(&self) -> (res: Affine)
        ensures
            res.is_element(),
            res.point() == self@,
    {
        proof {
            use_type_invariant(self);
        }
        self.coordinates
    }

    /// The element in the form that is computed with.
    pub fn to_curve(&self) -> (res: G1)
        ensures
            in_g1(res@),
            res@ == self@,
    {
        proof {
            use_type_invariant(self);
        }
        G1 { coordinates: g1_to_curve(&self.coordinates) }
    }
}

/// The call for a random element of the first group on the generator `r` returned `point`.
pub closed spec fn is_random_g1<R: RngCore + CryptoRng>(r: &mut R, point: (int, int)) -> bool {
    exists|p: Projective|
        p.point() == point && #[trigger] call_ensures(random_g1::<R>, (r,), p)
}

/// A random element of the first group is what the call on the generator returned.
proof fn law_random_g1_is_a_call<R: RngCore + CryptoRng>(
    r: &mut R,
    point: (int, int),
) -> (p: Projective)
    requires
        is_random_g1(r, point),
    ensures
        p.point() == point,
        call_ensures(random_g1::<R>, (r,), p),
{
    choose|p: Projective| p.point() == point && #[trigger] call_ensures(random_g1::<R>, (r,), p)
}

/// `generator` of `group` on the first group of `halo2curves`: the point `(1, 2)`, which is
/// itself times one.
#[verifier::external_body]
fn g1_generator() -> (res: Affine)
    ensures
        res.is_element(),
        res.point() == (1int, 2int),
        g1_exponent_of(res.point()) == 1,
{
    let p = <bn256::G1Affine as group::prime::PrimeCurveAffine>::generator();
    Affine { x: p.x.to_bytes(), y: p.y.to_bytes() }
}

/// `identity` of `group` on the first group of `halo2curves`: the generator times zero.
#[verifier::external_body]
fn g1_identity() -> (res: Projective)
    ensures
        res.is_element(),
        g1_exponent_of(res.point()) == 0,
{
    let p = <bn256::G1 as group::Group>::identity();
    Projective { x: p.x.to_bytes(), y: p.y.to_bytes(), z: p.z.to_bytes() }
}

/// `random` of `group` on the first group of `halo2curves`: an element of the group other
/// than the neutral one; which one is left open.
#[verifier::external_body]
fn random_g1<R: RngCore + CryptoRng>(rng: &mut R) -> (res: Projective)
    ensures
        res.is_element(),
        g1_exponent_of(res.point()) != 0,
{
    let p = <bn256::G1 as group::Group>::random(rng);
    Projective { x: p.x.to_bytes(), y: p.y.to_bytes(), z: p.z.to_bytes() }
}

/// `+` on the first group of `halo2curves`: the numbers by which the generator is
/// multiplied add up modulo the order of the group.
#[verifier::external_body]
fn g1_sum(a: &Projective, b: &Projective) -> (res: Projective)
    requires
        a.is_element(),
        b.is_element(),
    ensures
        res.is_element(),
        g1_exponent_of(res.point()) == (g1_exponent_of(a.point()) + g1_exponent_of(b.point()))
            % group_order(),
{
    let [x, y, z] = [a.x, a.y, a.z].map(|c| bn256::Fq::from_bytes(&c).unwrap());
    let a = bn256::G1 { x, y, z };
    let [x, y, z] = [b.x, b.y, b.z].map(|c| bn256::Fq::from_bytes(&c).unwrap());
    let p = a + bn256::G1 { x, y, z };
    Projective { x: p.x.to_bytes(), y: p.y.to_bytes(), z: p.z.to_bytes() }
}

/// `-` on the first group of `halo2curves`: the numbers by which the generator is
/// multiplied are subtracted modulo the order of the group.
#[verifier::external_body]
fn g1_difference(a: &Projective, b: &Projective) -> (res: Projective)
    requires
        a.is_element(),
        b.is_element(),
    ensures
        res.is_element(),
        g1_exponent_of(res.point()) == (g1_exponent_of(a.point()) - g1_exponent_of(b.point()))
            % group_order(),
{
    let [x, y, z] = [a.x, a.y, a.z].map(|c| bn256::Fq::from_bytes(&c).unwrap());
    let a = bn256::G1 { x, y, z };
    let [x, y, z] = [b.x, b.y, b.z].map(|c| bn256::Fq::from_bytes(&c).unwrap());
    let p = a - bn256::G1 { x, y, z };
    Projective { x: p.x.to_bytes(), y: p.y.to_bytes(), z: p.z.to_bytes() }
}

/// Unary `-` on the first group of `halo2curves`: the number by which the generator is
/// multiplied is negated modulo the order of the group.
#[verifier::external_body]
fn g1_negation(a: &Projective) -> (res: Projective)
    requires
        a.is_element(),
    ensures
        res.is_element(),
        g1_exponent_of(res.point()) == (-g1_exponent_of(a.point())) % group_order(),
{
    let [x, y, z] = [a.x, a.y, a.z].map(|c| bn256::Fq::from_bytes(&c).unwrap());
    let p = -bn256::G1 { x, y, z };
    Projective { x: p.x.to_bytes(), y: p.y.to_bytes(), z: p.z.to_bytes() }
}

/// `*` of the first group of `halo2curves` with its scalars. The result has a name; beside
/// that, the number by which the generator is multiplied is multiplied by the scalar modulo
/// the order of the group.
#[verifier::external_body]
fn g1_scalar_product(a: &Projective, scalar: &[u8; 32]) -> (res: Projective)
    requires
        a.is_element(),
        integer_of(scalar@) < group_order(),
    ensures
        res.is_element(),
        res.point() == g1_multiple(a.point(), integer_of(scalar@)),
        g1_exponent_of(res.point()) == (g1_exponent_of(a.point()) * integer_of(scalar@))
            % group_order(),
{
    let [x, y, z] = [a.x, a.y, a.z].map(|c| bn256::Fq::from_bytes(&c).unwrap());
    let p = bn256::G1 { x, y, z } * bn256::Fr::from_bytes(scalar).unwrap();
    Projective { x: p.x.to_bytes(), y: p.y.to_bytes(), z: p.z.to_bytes() }
}

/// `to_affine` of `group` on the first group of `halo2curves`: the point with the given
/// homogeneous coordinates.
#[verifier::external_body]
fn g1_to_affine(a: &Projective) -> (res: Affine)
    requires
        a.is_element(),
    ensures
        res.is_element(),
        res.point() == g1_affine_form(integer_of(a.x@), integer_of(a.y@), integer_of(a.z@)),
{
    let [x, y, z] = [a.x, a.y, a.z].map(|c| bn256::Fq::from_bytes(&c).unwrap());
    let p = group::Curve::to_affine(&bn256::G1 { x, y, z });
    Affine { x: p.x.to_bytes(), y: p.y.to_bytes() }
}

/// `batch_normalize` of `group` on the first group of `halo2curves`: what `to_affine`
/// returns, for every point of a list.
#[verifier::external_body]
fn g1_batch_normalize(points: &[Projective]) -> (res: Vec<Affine>)
    requires
        forall|i: int| 0 <= i < points@.len() ==> (#[trigger] points@[i]).is_element(),
    ensures
        res@.len() == points@.len(),
        forall|i: int|
            0 <= i < points@.len() ==> (#[trigger] res@[i]).is_element() && res@[i].point()
                == points@[i].point(),
{
    let convert = |p: &Projective| {
        let [x, y, z] = [p.x, p.y, p.z].map(|c| bn256::Fq::from_bytes(&c).unwrap());
        bn256::G1 { x, y, z }
    };
    let points: Vec<bn256::G1> = points.iter().map(convert).collect();
    let mut res = vec![bn256::G1Affine::default(); points.len()];
    group::Curve::batch_normalize(&points, &mut res);
    res.iter().map(|p| Affine { x: p.x.to_bytes(), y: p.y.to_bytes() }).collect()
}

/// `to_curve` of `group` on the first group of `halo2curves`: homogeneous coordinates of
/// the same point.
#[verifier::external_body]
fn g1_to_curve(a: &Affine) -> (res: Projective)
    requires
        a.is_element(),
    ensures
        res.is_element(),
        res.point() == a.point(),
{
    let [x, y] = [a.x, a.y].map(|c| bn256::Fq::from_bytes(&c).unwrap());
    let p = group::prime::PrimeCurveAffine::to_curve(&bn256::G1Affine { x, y });
    Projective { x: p.x.to_bytes(), y: p.y.to_bytes(), z: p.z.to_bytes() }
}

/// Whether the bytes are accepted by `from_bytes` of `halo2curves` on its field of
/// coordinates: they are if and only if the integer that they stand for is below the order
/// of that field.
#[verifier::external_body]
pub(crate) fn is_coordinate_repr(bytes: &[u8; 32]) -> (res: bool)
    ensures
        res == is_coordinate(bytes@),
{
    bn256::Fq::from_bytes(bytes).is_some().into()
}

/// `is_on_curve` of `halo2curves`: whether the coordinates satisfy the equation of the
/// curve, or are both zero. All such points make up the first group.
#[verifier::external_body]
fn lies_on_curve(a: &Affine) -> (res: bool)
    requires
        is_coordinate(a.x@),
        is_coordinate(a.y@),
    ensures
        res == is_on_curve(a.point()),
        res ==> in_g1(a.point()),
{
    let [x, y] = [a.x, a.y].map(|c| bn256::Fq::from_bytes(&c).unwrap());
    halo2curves::CurveAffine::is_on_curve(&bn256::G1Affine { x, y }).into()
}

} // verus!
