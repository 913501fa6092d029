use group::{Curve, Group};
use halo2curves::bn256;
use non_hiding_kzg::engine::PairingEngine;
use non_hiding_kzg::field::PrimeField;
use non_hiding_kzg::provider::bn256::{Bn256, Fr};
use non_hiding_kzg::provider::keys::UVUniversalKZGParam;
use rand::thread_rng;

type Params = UVUniversalKZGParam<Bn256>;

#[test]
fn generated_parameters_have_the_degree() {
    for degree in 0..5 {
        let pp = Params::gen_srs_for_testing(&mut thread_rng(), degree);
        assert_eq!(pp.powers_of_g.len(), degree + 1);
        assert_eq!(pp.max_degree(), degree);
    }
}

#[test]
fn generated_parameters_are_powers_of_one_secret() {
    let pp = Params::gen_srs_for_testing(&mut thread_rng(), 3);
    // e(beta^(i + 1) * g, h) = e(beta^i * g, beta * h)
    for i in 0..3 {
        let next = pp.powers_of_g[i + 1].to_curve().negate().to_affine();
        assert!(Bn256::pairings_cancel(&[
            (next, pp.h),
            (pp.powers_of_g[i], pp.beta_h)
        ]));
    }
    let other = Params::gen_srs_for_testing(&mut thread_rng(), 3);
    assert_ne!(pp.powers_of_g, other.powers_of_g);
}

#[test]
fn parameters_without_powers_have_degree_zero() {
    let pp = Params::gen_srs_for_testing(&mut thread_rng(), 0);
    let empty = Params {
        powers_of_g: vec![],
        h: pp.h,
        beta_h: pp.beta_h,
    };
    assert_eq!(empty.max_degree(), 0);
}

#[test]
fn parameters_from_a_secret() {
    let mut rng = thread_rng();
    let g = bn256::G1::random(&mut rng);
    let h = bn256::G2::random(&mut rng).to_affine();
    let g_affine = g.to_affine();
    let mine_g = non_hiding_kzg::provider::bn256::G1Affine::from_coordinates(
        g_affine.x.to_bytes(),
        g_affine.y.to_bytes(),
    )
    .unwrap();
    let mine_h = non_hiding_kzg::provider::bn256::G2Affine::from_coordinates(
        (h.x.c0.to_bytes(), h.x.c1.to_bytes()),
        (h.y.c0.to_bytes(), h.y.c1.to_bytes()),
    )
    .unwrap();
    let pp = Params::from_secret(&Fr::from_u128(3), &mine_g.to_curve(), &mine_h, 4);
    assert_eq!(pp.powers_of_g.len(), 5);
    let mut factor = 1;
    for power in pp.powers_of_g.iter() {
        let expected = (g * bn256::Fr::from(factor)).to_affine();
        assert_eq!(
            power.coordinates(),
            (expected.x.to_bytes(), expected.y.to_bytes())
        );
        factor *= 3;
    }
    assert_eq!(pp.h, mine_h);
    let expected = (h * bn256::Fr::from(3)).to_affine();
    assert_eq!(
        pp.beta_h.coordinates(),
        (
            (expected.x.c0.to_bytes(), expected.x.c1.to_bytes()),
            (expected.y.c0.to_bytes(), expected.y.c1.to_bytes())
        )
    );
}

#[test]
fn trim_returns_both_keys() {
    let pp = Params::gen_srs_for_testing(&mut thread_rng(), 5);
    for size in 0..=5 {
        let (pk, vk) = pp.trim(size);
        assert_eq!(pk.powers_of_g, pp.powers_of_g[..=size].to_vec());
        assert_eq!(vk.g, pp.powers_of_g[0]);
        assert_eq!(vk.h, pp.h);
        assert_eq!(vk.beta_h, pp.beta_h);
        assert_eq!(pk, pp.extract_prover_key(size));
        assert_eq!(vk, pp.extract_verifier_key(size));
    }
}

#[test]
fn verifier_key_for_as_many_powers_as_there_are() {
    let pp = Params::gen_srs_for_testing(&mut thread_rng(), 5);
    assert_eq!(pp.extract_verifier_key(6), pp.extract_verifier_key(1));
}
