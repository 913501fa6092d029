use ff::Field;
use group::{Curve, Group};
use halo2curves::{bn256, CurveAffine};
use non_hiding_kzg::engine::PairingEngine;
use non_hiding_kzg::field::PrimeField;
use non_hiding_kzg::provider::bn256::{Bn256, Fr, G1Affine, G2Affine, G1};
use rand::thread_rng;

fn scalar(s: &bn256::Fr) -> Fr {
    Fr::from_repr(s.to_bytes()).unwrap()
}

fn g1(p: &bn256::G1) -> G1 {
    let p = p.to_affine();
    G1Affine::from_coordinates(p.x.to_bytes(), p.y.to_bytes())
        .unwrap()
        .to_curve()
}

fn g2(p: &bn256::G2) -> G2Affine {
    let p = p.to_affine();
    G2Affine::from_coordinates(
        (p.x.c0.to_bytes(), p.x.c1.to_bytes()),
        (p.y.c0.to_bytes(), p.y.c1.to_bytes()),
    )
    .unwrap()
}

#[test]
fn bytes_of_scalars() {
    let mut bytes = [0u8; 32];
    bytes[0] = 5;
    bytes[1] = 1;
    assert_eq!(Fr::from_repr(bytes), Some(Fr::from_u128(261)));
    assert_eq!(Fr::from_u128(261).to_repr(), bytes);
    let mut largest = bn256::Fr::one().neg().to_bytes();
    assert!(Fr::from_repr(largest).is_some());
    // the order of the groups itself
    largest[0] += 1;
    assert_eq!(Fr::from_repr(largest), None);
    assert_eq!(Fr::from_repr([255u8; 32]), None);
}

#[test]
fn scalar_arithmetic() {
    let a = Fr::from_u128(7);
    let b = Fr::from_u128(10);
    assert_eq!(a.plus(&b), Fr::from_u128(17));
    assert_eq!(b.minus(&a), Fr::from_u128(3));
    assert_eq!(a.minus(&b), Fr::from_u128(3).negate());
    assert_eq!(a.times(&b), Fr::from_u128(70));
    assert_eq!(a.negate().plus(&a), Fr::zero());
    assert_eq!(Fr::zero().negate(), Fr::zero());
    assert_eq!(a.invert().unwrap().times(&a), Fr::one());
    assert_eq!(Fr::zero().invert(), None);
    assert!(Fr::zero().is_zero());
    assert!(!Fr::one().is_zero());
    assert!(!Fr::one().negate().is_zero());
    assert_eq!(Fr::one(), Fr::from_u128(1));
    let big = Fr::from_u128(u128::MAX);
    assert_eq!(&big.to_repr()[..16], &[255u8; 16]);
    assert_eq!(&big.to_repr()[16..], &[0u8; 16]);
}

#[test]
fn scalar_arithmetic_on_random_scalars() {
    for _ in 0..20 {
        let (x, y) = (
            bn256::Fr::random(thread_rng()),
            bn256::Fr::random(thread_rng()),
        );
        let (a, b) = (scalar(&x), scalar(&y));
        assert_eq!(a.plus(&b), scalar(&(x + y)));
        assert_eq!(a.minus(&b), scalar(&(x - y)));
        assert_eq!(a.times(&b), scalar(&(x * y)));
        assert_eq!(a.negate(), scalar(&-x));
        assert_eq!(a.invert().unwrap(), scalar(&Field::invert(&x).unwrap()));
    }
    assert_ne!(
        <Fr as PrimeField>::random(&mut thread_rng()),
        <Fr as PrimeField>::random(&mut thread_rng())
    );
}

#[test]
fn coordinates_of_the_first_group() {
    let g = bn256::G1::generator().to_affine();
    let (x, y) = (g.x.to_bytes(), g.y.to_bytes());
    let mine = G1Affine::from_coordinates(x, y).unwrap();
    assert_eq!(mine.coordinates(), (x, y));
    assert_eq!(mine, G1Affine::generator());
    // not on the curve
    assert_eq!(G1Affine::from_coordinates(x, x), None);
    // not canonical
    assert_eq!(G1Affine::from_coordinates(x, [255u8; 32]), None);
    assert_eq!(G1Affine::from_coordinates([255u8; 32], y), None);
    // the neutral element
    let identity = G1Affine::from_coordinates([0u8; 32], [0u8; 32]).unwrap();
    assert_eq!(identity, G1::identity().to_affine());
}

#[test]
fn arithmetic_of_the_first_group() {
    let mut rng = thread_rng();
    for _ in 0..5 {
        let (p, q) = (bn256::G1::random(&mut rng), bn256::G1::random(&mut rng));
        let k = bn256::Fr::random(&mut rng);
        let (a, b) = (g1(&p), g1(&q));
        assert_eq!(a.plus(&b).to_affine(), g1(&(p + q)).to_affine());
        assert_eq!(a.plus(&a).to_affine(), g1(&(p + p)).to_affine());
        assert_eq!(a.minus(&b).to_affine(), g1(&(p - q)).to_affine());
        assert_eq!(a.minus(&a).to_affine(), G1::identity().to_affine());
        assert_eq!(a.negate().to_affine(), g1(&-p).to_affine());
        assert_eq!(a.times(&scalar(&k)).to_affine(), g1(&(p * k)).to_affine());
        assert_eq!(a.plus(&G1::identity()).to_affine(), a.to_affine());
        assert_eq!(a.times(&Fr::zero()).to_affine(), G1::identity().to_affine());
    }
    let (a, b) = (G1::random(&mut rng), G1::random(&mut rng));
    assert_ne!(a.to_affine(), b.to_affine());
    assert_ne!(a.to_affine(), G1::identity().to_affine());
}

#[test]
fn batch_normalize_gives_the_unique_forms() {
    let mut rng = thread_rng();
    let points = vec![
        G1::random(&mut rng).plus(&G1::random(&mut rng)),
        G1::identity(),
        G1::random(&mut rng).times(&Fr::from_u128(12)),
    ];
    let affine = G1::batch_normalize(&points);
    assert_eq!(affine.len(), 3);
    for (p, q) in points.iter().zip(affine.iter()) {
        assert_eq!(p.to_affine(), *q);
    }
    assert!(G1::batch_normalize(&[]).is_empty());
}

#[test]
fn coordinates_of_the_second_group() {
    let h = bn256::G2::generator().to_affine();
    let x = (h.x.c0.to_bytes(), h.x.c1.to_bytes());
    let y = (h.y.c0.to_bytes(), h.y.c1.to_bytes());
    let mine = G2Affine::from_coordinates(x, y).unwrap();
    assert_eq!(mine.coordinates(), (x, y));
    assert_eq!(mine, G2Affine::generator());
    // not on the twist
    assert_eq!(G2Affine::from_coordinates(x, x), None);
    // not canonical
    let high = [255u8; 32];
    assert_eq!(G2Affine::from_coordinates((high, x.1), y), None);
    assert_eq!(G2Affine::from_coordinates((x.0, high), y), None);
    assert_eq!(G2Affine::from_coordinates(x, (high, y.1)), None);
    assert_eq!(G2Affine::from_coordinates(x, (y.0, high)), None);
    // the neutral element
    let zero = ([0u8; 32], [0u8; 32]);
    assert!(G2Affine::from_coordinates(zero, zero).is_some());
}

#[test]
fn points_of_the_twist_outside_the_second_group() {
    let mut found = 0;
    for i in 1..20u64 {
        let x = bn256::Fq2 {
            c0: bn256::Fq::from(i),
            c1: bn256::Fq::zero(),
        };
        let y2 = x * x * x + <bn256::G2Affine as CurveAffine>::b();
        if let Some(y) = Option::<bn256::Fq2>::from(y2.sqrt()) {
            found += 1;
            assert!(bool::from(
                <bn256::G2Affine as CurveAffine>::from_xy(x, y).is_some()
            ));
            let point = G2Affine::from_coordinates(
                (x.c0.to_bytes(), x.c1.to_bytes()),
                (y.c0.to_bytes(), y.c1.to_bytes()),
            );
            assert_eq!(point, None);
        }
    }
    assert!(found > 0);
}

#[test]
fn arithmetic_of_the_second_group() {
    let mut rng = thread_rng();
    let q = bn256::G2::random(&mut rng);
    let k = bn256::Fr::random(&mut rng);
    assert_eq!(g2(&q).times(&scalar(&k)), g2(&(q * k)));
    assert_eq!(g2(&q).times(&Fr::one()), g2(&q));
    assert_ne!(G2Affine::random(&mut rng), G2Affine::random(&mut rng));
}

#[test]
fn pairings_cancel_exactly_if_the_exponents_do() {
    let p = g1(&bn256::G1::generator());
    let q = g2(&bn256::G2::generator());
    let (a, b) = (Fr::from_u128(6), Fr::from_u128(35));
    let ab = Fr::from_u128(210);
    let terms = [
        (p.times(&a).to_affine(), q.times(&b)),
        (p.times(&ab).negate().to_affine(), q),
    ];
    assert!(Bn256::pairings_cancel(&terms));
    assert!(!Bn256::pairings_cancel(&terms[..1]));
    assert!(!Bn256::pairings_cancel(&terms[1..]));
    assert!(Bn256::pairings_cancel(&[]));
    // the neutral element pairs to the neutral element
    assert!(Bn256::pairings_cancel(&[(G1::identity().to_affine(), q)]));
    assert!(Bn256::pairings_cancel(&[(
        p.to_affine(),
        q.times(&Fr::zero())
    )]));
    // 2 * 3 + 4 * 5 - 26 = 0
    let k = |v: u128| Fr::from_u128(v);
    assert!(Bn256::pairings_cancel(&[
        (p.times(&k(2)).to_affine(), q.times(&k(3))),
        (p.times(&k(4)).to_affine(), q.times(&k(5))),
        (p.times(&k(13)).to_affine(), q.times(&k(2).negate())),
    ]));
}
