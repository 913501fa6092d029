use non_hiding_kzg::engine::PairingEngine;
use non_hiding_kzg::errors::NovaError;
use non_hiding_kzg::field::PrimeField;
use non_hiding_kzg::provider::bn256::{Bn256, Fr, G1Affine, G2Affine};
use non_hiding_kzg::provider::keys::{UVKZGProverKey, UVKZGVerifierKey, UVUniversalKZGParam};
use non_hiding_kzg::provider::non_hiding_kzg::{
    vartime_multiscalar_mul, UVKZGCommitment, UVKZGEvaluation, UVKZGProof, UVKZGPCS,
};
use non_hiding_kzg::provider::poly::UVKZGPoly;
use rand::rngs::StdRng;
use rand::{thread_rng, Rng, SeedableRng};

type Kzg = UVKZGPCS<Bn256>;
type Opening = (
    UVKZGCommitment<Bn256>,
    UVKZGProof<Bn256>,
    UVKZGEvaluation<Bn256>,
);

fn fr(v: u128) -> Fr {
    Fr::from_u128(v)
}

fn poly(coeffs: &[u128]) -> UVKZGPoly<Fr> {
    UVKZGPoly {
        coeffs: coeffs.iter().map(|c| fr(*c)).collect(),
    }
}

fn generator() -> G1Affine {
    G1Affine::generator()
}

/// The multiple of the generator by `k`.
fn times_g(k: u128) -> G1Affine {
    Bn256::to_affine(&Bn256::g1_multiple(&generator().to_curve(), &fr(k)))
}

/// Keys for polynomials up to `degree` with the secret `beta` over the generator.
fn keys(beta: u128, degree: usize) -> (UVKZGProverKey<Bn256>, UVKZGVerifierKey<Bn256>) {
    let h = Bn256::g2_random(&mut thread_rng());
    let pp = UVUniversalKZGParam::<Bn256>::from_secret(
        &fr(beta),
        &generator().to_curve(),
        &h,
        degree,
    );
    pp.trim(degree)
}

fn opening(ck: &UVKZGProverKey<Bn256>, p: &UVKZGPoly<Fr>, point: &Fr) -> Opening {
    let comm = Kzg::commit(ck, p).unwrap();
    let (proof, value) = Kzg::open(ck, p, point).unwrap();
    (comm, proof, value)
}

fn end_to_end_test_template<E: PairingEngine>() -> Result<(), NovaError> {
    for _ in 0..100 {
        let rng = &mut thread_rng();
        let degree = rng.gen_range(2..20);

        let pp = UVUniversalKZGParam::<E>::gen_srs_for_testing(rng, degree);
        let (ck, vk) = pp.trim(degree);
        let p = UVKZGPoly::random(degree, rng);
        let comm = UVKZGPCS::<E>::commit(&ck, &p)?;
        let point = E::Fr::random(rng);
        let (proof, value) = UVKZGPCS::<E>::open(&ck, &p, &point)?;
        assert!(
            UVKZGPCS::<E>::verify(&vk, &comm, &point, &proof, &value)?,
            "proof was incorrect for max_degree = {}, polynomial_degree = {}",
            degree,
            p.degree(),
        );
    }
    Ok(())
}

fn batch_check_test_template<E: PairingEngine>() -> Result<(), NovaError> {
    for _ in 0..10 {
        let rng = &mut thread_rng();

        let degree = rng.gen_range(2..20);

        let pp = UVUniversalKZGParam::<E>::gen_srs_for_testing(rng, degree);
        let (ck, vk) = pp.trim(degree);

        let mut comms = Vec::new();
        let mut values = Vec::new();
        let mut points = Vec::new();
        let mut proofs = Vec::new();
        for _ in 0..10 {
            let mut rng = rng.clone();
            let p = UVKZGPoly::random(degree, &mut rng);
            let comm = UVKZGPCS::<E>::commit(&ck, &p)?;
            let point = E::Fr::random(&mut rng);
            let (proof, value) = UVKZGPCS::<E>::open(&ck, &p, &point)?;

            assert!(UVKZGPCS::<E>::verify(&vk, &comm, &point, &proof, &value)?);
            comms.push(comm);
            values.push(value);
            points.push(point);
            proofs.push(proof);
        }
        assert!(UVKZGPCS::<E>::batch_verify(
            &vk, &comms, &points, &values, &proofs, rng
        )?);
    }
    Ok(())
}

#[test]
fn end_to_end_test() {
    end_to_end_test_template::<Bn256>().expect("test failed for Bn256");
}

#[test]
fn batch_check_test() {
    batch_check_test_template::<Bn256>().expect("test failed for Bn256");
}

#[test]
fn multiscalar_mul_is_the_sum_of_the_multiples() {
    let bases = vec![times_g(2), times_g(3), times_g(100)];
    let sum = vartime_multiscalar_mul::<Bn256>(&[fr(5), fr(7)], &bases);
    assert_eq!(Bn256::to_affine(&sum), times_g(31));
    let none = vartime_multiscalar_mul::<Bn256>(&[], &bases);
    assert_eq!(none.to_affine().coordinates(), ([0u8; 32], [0u8; 32]));
}

#[test]
fn commitment_is_the_value_at_the_secret() {
    let (ck, _) = keys(5, 3);
    // 2 + 3 * 5 + 4 * 25
    let comm = Kzg::commit(&ck, &poly(&[2, 3, 4])).unwrap();
    assert_eq!(comm.0, times_g(117));
}

#[test]
fn commitment_to_nothing_is_the_identity() {
    let (ck, _) = keys(5, 3);
    let comm = Kzg::commit(&ck, &UVKZGPoly::zero()).unwrap();
    assert_eq!(comm.0.coordinates(), ([0u8; 32], [0u8; 32]));
    let zeros = Kzg::commit(&ck, &poly(&[0, 0, 0])).unwrap();
    assert_eq!(zeros, comm);
}

#[test]
fn commitment_uses_every_power_of_the_key() {
    let (ck, _) = keys(2, 3);
    let comm = Kzg::commit(&ck, &poly(&[1, 1, 1, 1])).unwrap();
    assert_eq!(comm.0, times_g(15));
}

#[test]
fn commitment_to_a_polynomial_that_is_too_large_fails() {
    let (ck, _) = keys(5, 3);
    let too_large = poly(&[1, 1, 1, 1, 1, 1]);
    assert_eq!(Kzg::commit(&ck, &too_large), Err(NovaError::InvalidIPA));
}

#[test]
fn commitments_are_linear() {
    let (ck, _) = keys(11, 3);
    let a = Kzg::commit(&ck, &poly(&[1, 2, 3])).unwrap().0.to_curve();
    let b = Kzg::commit(&ck, &poly(&[10, 20])).unwrap().0.to_curve();
    let sum = Kzg::commit(&ck, &poly(&[11, 22, 3])).unwrap();
    assert_eq!(sum.0, a.plus(&b).to_affine());
    // 5 * (1 + 2 X + 3 X^2) + 7 * (10 + 20 X)
    let combination = Kzg::commit(&ck, &poly(&[75, 150, 15])).unwrap();
    let combined = a.times(&fr(5)).plus(&b.times(&fr(7)));
    assert_eq!(combination.0, combined.to_affine());
}

#[test]
fn randomizers_are_one_and_what_was_drawn() {
    assert_eq!(Kzg::randomizers(&[5, 6, 7]), vec![fr(1), fr(5), fr(6)]);
    assert_eq!(Kzg::randomizers(&[0]), vec![fr(1)]);
    assert!(Kzg::randomizers(&[]).is_empty());
}

#[test]
fn commitment_does_not_depend_on_the_size_of_the_key() {
    let h = Bn256::g2_random(&mut thread_rng());
    let pp = UVUniversalKZGParam::<Bn256>::from_secret(&fr(9), &generator().to_curve(), &h, 6);
    let p = poly(&[4, 5, 6]);
    let small = pp.extract_prover_key(2);
    let large = pp.extract_prover_key(6);
    assert_eq!(Kzg::commit(&small, &p), Kzg::commit(&large, &p));
    let (a, _) = Kzg::open(&small, &p, &fr(3)).unwrap();
    let (b, _) = Kzg::open(&large, &p, &fr(3)).unwrap();
    assert_eq!(a, b);
}

#[test]
fn batch_commit_commits_to_each() {
    let (ck, _) = keys(7, 4);
    let polys = vec![poly(&[1]), poly(&[0, 1]), poly(&[2, 0, 1]), UVKZGPoly::zero()];
    let comms = Kzg::batch_commit(&ck, &polys).unwrap();
    assert_eq!(comms.len(), 4);
    assert_eq!(comms[0].0, times_g(1));
    assert_eq!(comms[1].0, times_g(7));
    assert_eq!(comms[2].0, times_g(51));
    for (c, p) in comms.iter().zip(polys.iter()) {
        assert_eq!(*c, Kzg::commit(&ck, p).unwrap());
    }
    assert_eq!(Kzg::batch_commit(&ck, &[]), Ok(vec![]));
}

#[test]
fn batch_commit_fails_if_one_is_too_large() {
    let (ck, _) = keys(7, 2);
    let polys = vec![poly(&[1]), poly(&[1, 1, 1, 1, 1]), poly(&[2])];
    assert_eq!(Kzg::batch_commit(&ck, &polys), Err(NovaError::InvalidIPA));
}

#[test]
fn proof_is_the_commitment_to_the_quotient() {
    let (ck, _) = keys(10, 3);
    // X^2 = (X - 2) * (X + 2) + 4
    let (proof, _) = Kzg::open(&ck, &poly(&[0, 0, 1]), &fr(2)).unwrap();
    assert_eq!(proof.proof, times_g(12));
    // a constant leaves no quotient
    let (proof, _) = Kzg::open(&ck, &poly(&[8]), &fr(2)).unwrap();
    assert_eq!(proof.proof.coordinates(), ([0u8; 32], [0u8; 32]));
}

#[test]
fn value_of_an_opening_is_the_evaluation() {
    let (ck, vk) = keys(10, 3);
    let p = poly(&[1, 2, 3]);
    let (comm, proof, value) = opening(&ck, &p, &fr(5));
    assert_eq!(Kzg::verify(&vk, &comm, &fr(5), &proof, &value), Ok(true));
    let (_, _, same) = opening(&ck, &poly(&[86]), &fr(5));
    assert_eq!(Kzg::verify(&vk, &comm, &fr(5), &proof, &same), Ok(true));
    let (_, _, other) = opening(&ck, &poly(&[87]), &fr(5));
    assert_eq!(Kzg::verify(&vk, &comm, &fr(5), &proof, &other), Ok(false));
}

#[test]
fn openings_of_special_polynomials_are_accepted() {
    let (ck, vk) = keys(10, 3);
    let zero = UVKZGPoly::zero();
    let polys = vec![zero, poly(&[0, 0]), poly(&[3]), poly(&[5, 0, 0]), poly(&[1, 1, 1, 1])];
    for p in polys.iter() {
        for point in [fr(0), fr(1), fr(10), fr(3).negate()] {
            let (comm, proof, value) = opening(&ck, p, &point);
            assert_eq!(Kzg::verify(&vk, &comm, &point, &proof, &value), Ok(true));
        }
    }
}

#[test]
fn wrong_openings_are_rejected() {
    let (ck, vk) = keys(123456789, 4);
    let p = poly(&[3, 1, 4, 1, 5]);
    let point = fr(9);
    let (comm, proof, value) = opening(&ck, &p, &point);
    assert_eq!(Kzg::verify(&vk, &comm, &fr(8), &proof, &value), Ok(false));
    let other = UVKZGCommitment(times_g(1));
    assert_eq!(Kzg::verify(&vk, &other, &point, &proof, &value), Ok(false));
    let other = UVKZGProof { proof: times_g(1) };
    assert_eq!(Kzg::verify(&vk, &comm, &point, &other, &value), Ok(false));
    let other = UVKZGVerifierKey {
        g: vk.g,
        h: vk.beta_h,
        beta_h: vk.h,
    };
    assert_eq!(Kzg::verify(&other, &comm, &point, &proof, &value), Ok(false));
}

#[test]
fn acceptance_is_an_equation_of_exponents() {
    let (ck, vk) = keys(10, 2);
    let (_, seven) = Kzg::open(&ck, &poly(&[7]), &fr(4)).unwrap();
    // 5 * (10 - 4) = 37 - 7
    let proof = UVKZGProof { proof: times_g(5) };
    let comm = UVKZGCommitment(times_g(37));
    assert_eq!(Kzg::verify(&vk, &comm, &fr(4), &proof, &seven), Ok(true));
    let comm = UVKZGCommitment(times_g(38));
    assert_eq!(Kzg::verify(&vk, &comm, &fr(4), &proof, &seven), Ok(false));
}

#[test]
fn batch_open_opens_each() {
    let (ck, vk) = keys(31, 4);
    let polys = vec![poly(&[1, 2]), poly(&[3, 4, 5]), UVKZGPoly::zero()];
    let points = vec![fr(6), fr(7), fr(8)];
    let (proofs, values) = Kzg::batch_open(&ck, &polys, &points).unwrap();
    assert_eq!(proofs.len(), 3);
    assert_eq!(values.len(), 3);
    for i in 0..3 {
        let (comm, proof, _) = opening(&ck, &polys[i], &points[i]);
        assert_eq!(proofs[i], proof);
        assert_eq!(Kzg::verify(&vk, &comm, &points[i], &proofs[i], &values[i]), Ok(true));
    }
}

#[test]
fn batch_open_fails_on_lists_of_different_lengths() {
    let (ck, _) = keys(31, 4);
    let polys = vec![poly(&[1, 2]), poly(&[3, 4, 5])];
    let res = Kzg::batch_open(&ck, &polys, &[fr(6)]);
    assert!(matches!(res, Err(NovaError::InvalidIPA)));
    let res = Kzg::batch_open(&ck, &[], &[fr(6)]);
    assert!(matches!(res, Err(NovaError::InvalidIPA)));
    let (proofs, values) = Kzg::batch_open(&ck, &[], &[]).unwrap();
    assert!(proofs.is_empty() && values.is_empty());
}

struct Batch {
    vk: UVKZGVerifierKey<Bn256>,
    comms: Vec<UVKZGCommitment<Bn256>>,
    points: Vec<Fr>,
    values: Vec<UVKZGEvaluation<Bn256>>,
    proofs: Vec<UVKZGProof<Bn256>>,
}

fn batch() -> Batch {
    let (ck, vk) = keys(987654321, 4);
    let polys = vec![poly(&[1, 2]), poly(&[3, 4, 5]), poly(&[6, 7, 8, 9])];
    let points = vec![fr(6), fr(7), fr(8)];
    let comms = Kzg::batch_commit(&ck, &polys).unwrap();
    let (proofs, values) = Kzg::batch_open(&ck, &polys, &points).unwrap();
    Batch {
        vk,
        comms,
        points,
        values,
        proofs,
    }
}

fn check(b: &Batch) -> bool {
    let rng = &mut thread_rng();
    Kzg::batch_verify(&b.vk, &b.comms, &b.points, &b.values, &b.proofs, rng).unwrap()
}

fn check_with(b: &Batch, randomizers: &[Fr]) -> bool {
    Kzg::batch_verify_with_randomizers(
        &b.vk, &b.comms, &b.points, &b.values, &b.proofs, randomizers,
    )
    .unwrap()
}

#[test]
fn honest_batch_is_accepted_for_all_randomizers() {
    let b = batch();
    assert!(check(&b));
    assert!(check_with(&b, &[fr(1), fr(2), fr(3)]));
    assert!(check_with(&b, &[fr(0), fr(0), fr(0)]));
    assert!(check_with(&b, &[fr(7), fr(11).negate(), fr(u128::MAX), fr(5)]));
}

#[test]
fn batch_with_one_wrong_opening_is_rejected() {
    for wrong in 0..3 {
        let mut b = batch();
        b.points[wrong] = fr(1000);
        assert!(!check(&b));
        assert!(!check_with(&b, &[fr(1), fr(2), fr(3)]));
        // the weight zero hides an opening
        let mut randomizers = vec![fr(1), fr(2), fr(3)];
        randomizers[wrong] = fr(0);
        assert!(check_with(&b, &randomizers));
    }
}

#[test]
fn batch_adds_the_weighted_defects() {
    let mut b = batch();
    // one value too small by one, another too large by one
    let (ck, vk) = keys(987654321, 4);
    let (_, five) = Kzg::open(&ck, &poly(&[5]), &fr(0)).unwrap();
    let (_, seven) = Kzg::open(&ck, &poly(&[7]), &fr(0)).unwrap();
    let six = poly(&[6]);
    let comm = Kzg::commit(&ck, &six).unwrap();
    let (proof, _) = Kzg::open(&ck, &six, &fr(0)).unwrap();
    b.vk = vk;
    b.comms = vec![comm.clone(), comm];
    b.points = vec![fr(0), fr(0)];
    b.proofs = vec![proof.clone(), proof];
    b.values = vec![five, seven];
    assert!(check_with(&b, &[fr(1), fr(1)]));
    assert!(!check_with(&b, &[fr(1), fr(2)]));
    assert!(check_with(&b, &[fr(4), fr(4)]));
}

#[test]
fn batch_of_one_is_an_opening() {
    let mut b = batch();
    b.comms.truncate(1);
    assert!(check(&b));
    b.points[0] = fr(99);
    assert!(!check(&b));
    assert_eq!(
        Kzg::verify(&b.vk, &b.comms[0], &b.points[0], &b.proofs[0], &b.values[0]),
        Ok(false)
    );
}

#[test]
fn batch_is_cut_to_the_shortest_list() {
    let mut b = batch();
    b.points[2] = fr(1000);
    assert!(!check(&b));
    b.proofs.truncate(2);
    assert!(check(&b));
    b.values.clear();
    b.points[0] = fr(1000);
    assert!(check(&b));
}

#[test]
fn empty_batch_is_accepted_and_draws_nothing() {
    let vk = UVKZGVerifierKey::<Bn256> {
        g: G1Affine::generator(),
        h: G2Affine::generator(),
        beta_h: G2Affine::generator(),
    };
    let mut rng = StdRng::seed_from_u64(7);
    let before = rng.clone();
    assert_eq!(Kzg::batch_verify(&vk, &[], &[], &[], &[], &mut rng), Ok(true));
    assert_eq!(rng, before);
    // a batch with openings draws
    let b = batch();
    let accepted = Kzg::batch_verify(&b.vk, &b.comms, &b.points, &b.values, &b.proofs, &mut rng);
    assert_eq!(accepted, Ok(true));
    assert_ne!(rng, before);
}
