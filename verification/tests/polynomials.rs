use non_hiding_kzg::field::PrimeField;
use non_hiding_kzg::provider::bn256::Fr;
use non_hiding_kzg::provider::poly::UVKZGPoly;
use rand::thread_rng;

fn fr(v: u128) -> Fr {
    Fr::from_u128(v)
}

fn poly(coeffs: &[u128]) -> UVKZGPoly<Fr> {
    UVKZGPoly {
        coeffs: coeffs.iter().map(|c| fr(*c)).collect(),
    }
}

#[test]
fn new_drops_leading_zeros() {
    let p = UVKZGPoly::new(vec![fr(1), fr(0), fr(2), fr(0), fr(0)]);
    assert_eq!(p.coeffs, vec![fr(1), fr(0), fr(2)]);
    let zero = UVKZGPoly::new(vec![fr(0), fr(0)]);
    assert!(zero.coeffs.is_empty());
}

#[test]
fn degree_and_leading_coefficient() {
    let p = poly(&[4, 5, 6]);
    assert_eq!(p.degree(), 2);
    assert_eq!(p.leading_coefficient(), Some(&fr(6)));
    assert!(!p.is_zero());
    let zero = UVKZGPoly::<Fr>::zero();
    assert_eq!(zero.degree(), 0);
    assert_eq!(zero.leading_coefficient(), None);
    assert!(zero.is_zero());
    assert!(poly(&[0, 0]).is_zero());
}

#[test]
fn evaluate_gives_the_value() {
    // 1 + 2 * 5 + 3 * 25
    assert_eq!(poly(&[1, 2, 3]).evaluate(&fr(5)), fr(86));
    assert_eq!(poly(&[1, 2, 3]).evaluate(&fr(0)), fr(1));
    // 1 - 2 + 3
    assert_eq!(poly(&[1, 2, 3]).evaluate(&fr(1).negate()), fr(2));
    assert_eq!(UVKZGPoly::<Fr>::zero().evaluate(&fr(5)), fr(0));
}

#[test]
fn random_has_at_most_the_degree() {
    for degree in 0..6 {
        let p = UVKZGPoly::<Fr>::random(degree, &mut thread_rng());
        assert!(p.coeffs.len() <= degree + 1);
        assert!(p.is_zero() || !p.leading_coefficient().unwrap().is_zero());
    }
    let a = UVKZGPoly::<Fr>::random(3, &mut thread_rng());
    let b = UVKZGPoly::<Fr>::random(3, &mut thread_rng());
    assert_ne!(a, b);
}

#[test]
fn clone_keeps_the_coefficients() {
    let p = poly(&[7, 8, 0]);
    assert_eq!(p.clone(), p);
}

#[test]
fn division_without_remainder() {
    // 2 + 3 X + X^2 = (2 + X) * (1 + X)
    let (q, r) = poly(&[2, 3, 1]).divide_with_q_and_r(&poly(&[1, 1])).unwrap();
    assert_eq!(q, poly(&[2, 1]));
    assert!(r.coeffs.is_empty());
}

#[test]
fn division_with_remainder() {
    // 4 X^3 + 1 = (2 X - 1) * (2 X^2 + X) + (X + 1)
    let (q, r) = poly(&[1, 0, 0, 4])
        .divide_with_q_and_r(&poly(&[0, 1, 2]))
        .unwrap();
    assert_eq!(q.coeffs, vec![fr(1).negate(), fr(2)]);
    assert_eq!(r, poly(&[1, 1]));
}

#[test]
fn division_by_a_constant() {
    let (q, r) = poly(&[6, 9]).divide_with_q_and_r(&poly(&[3])).unwrap();
    assert_eq!(q, poly(&[2, 3]));
    assert!(r.coeffs.is_empty());
    // the inverse of 2 times 2 is 1
    let (q, _) = poly(&[1]).divide_with_q_and_r(&poly(&[2])).unwrap();
    assert_eq!(q.coeffs[0].times(&fr(2)), fr(1));
    assert_ne!(q.coeffs[0], fr(1));
}

#[test]
fn division_of_a_shorter_polynomial() {
    let p = poly(&[5, 6]);
    let (q, r) = p.divide_with_q_and_r(&poly(&[1, 2, 3])).unwrap();
    assert!(q.coeffs.is_empty());
    assert_eq!(r, p);
}

#[test]
fn division_of_zero() {
    let (q, r) = UVKZGPoly::<Fr>::zero()
        .divide_with_q_and_r(&poly(&[1, 2]))
        .unwrap();
    assert!(q.coeffs.is_empty() && r.coeffs.is_empty());
    let (q, r) = poly(&[0, 0, 0]).divide_with_q_and_r(&poly(&[0])).unwrap();
    assert!(q.coeffs.is_empty() && r.coeffs.is_empty());
}

#[test]
fn division_of_a_polynomial_with_leading_zeros() {
    let (q, r) = poly(&[2, 3, 1, 0, 0])
        .divide_with_q_and_r(&poly(&[1, 1]))
        .unwrap();
    assert_eq!(q, poly(&[2, 1]));
    assert!(r.coeffs.is_empty());
}

#[test]
fn division_is_exact_at_every_point() {
    let p = poly(&[3, 1, 4, 1, 5, 9]);
    let d = poly(&[2, 6, 5]);
    let (q, r) = p.divide_with_q_and_r(&d).unwrap();
    assert!(r.coeffs.len() < d.coeffs.len());
    for x in [0, 1, 2, 1000, u128::MAX] {
        let x = fr(x);
        let value = q.evaluate(&x).times(&d.evaluate(&x)).plus(&r.evaluate(&x));
        assert_eq!(value, p.evaluate(&x));
    }
}

#[test]
fn remainder_by_a_linear_polynomial_is_the_value() {
    let p = poly(&[3, 1, 4, 1, 5, 9]);
    let z = fr(12);
    let linear = UVKZGPoly {
        coeffs: vec![z.negate(), fr(1)],
    };
    let (_, r) = p.divide_with_q_and_r(&linear).unwrap();
    assert_eq!(r.coeffs, vec![p.evaluate(&z)]);
}
