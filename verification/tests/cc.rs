//! Tests of the commit-carrying proof system.
use lrs_v2::algebra::{fr_mul, fr_one, fr_rand, fr_zero, g1_add, g1_generator, g1_serialize,
    g2_add, g2_generator, g2_serialize, rng_from_seed};
use lrs_v2::cc::generator::{generate_parameters, generate_random_parameters};
use lrs_v2::cc::prover::create_random_proof;
use lrs_v2::cc::structures::Proof;
use lrs_v2::cc::utils::{cc_prove_and_verify, cc_prove_and_verify_1, cc_prove_and_verify_2,
    cc_prove_and_verify_3, test_circuit_1, test_circuit_2};
use lrs_v2::cc::verify::verify_proof;
use lrs_v2::error::Error;
use lrs_v2::r1cs::R1cs;
use lrs_v2::vecs::vec_tail;

#[test]
fn test_cc_prove_and_verify_1() {
    let mut rng = rng_from_seed(11u64);
    assert!(cc_prove_and_verify_1(1, &mut rng));
}

#[test]
fn test_cc_prove_and_verify_2() {
    let mut rng = rng_from_seed(12u64);
    assert!(cc_prove_and_verify_2(1, &mut rng));
}

#[test]
fn test_cc_prove_and_verify_3() {
    let mut rng = rng_from_seed(13u64);
    assert!(cc_prove_and_verify_3(1, &mut rng));
}

fn circuit_1_run(seed: u64) -> (R1cs, Vec<lrs_v2::algebra::Fr>, Vec<lrs_v2::algebra::Fr>) {
    let mut rng = rng_from_seed(seed);
    let r1cs = test_circuit_1();
    let a = fr_rand(&mut rng);
    let b = fr_rand(&mut rng);
    let c = fr_mul(&a, &b);
    let instance = vec![fr_one(), c];
    let witness = vec![a, b];
    (r1cs, instance, witness)
}

#[test]
fn test_mutated_proof_rejected() {
    // Perturbing any single proof element must make verification fail.
    let mut rng = rng_from_seed(21u64);
    let (r1cs, instance, witness) = circuit_1_run(22u64);
    let keys = generate_random_parameters(&r1cs, 1, &mut rng).unwrap();
    let (proof, _committed, _v) =
        create_random_proof(&r1cs, &instance, &witness, &keys.pk, &mut rng).unwrap();
    let public_inputs = vec_tail(&instance);
    assert!(verify_proof(&keys.vk, &proof, &public_inputs));

    let g1 = g1_generator();
    let g2 = g2_generator();
    let bad_a = Proof { a: g1_add(&proof.a, &g1), ..proof };
    assert!(!verify_proof(&keys.vk, &bad_a, &public_inputs));
    let bad_b = Proof { b: g2_add(&proof.b, &g2), ..proof };
    assert!(!verify_proof(&keys.vk, &bad_b, &public_inputs));
    let bad_c = Proof { c: g1_add(&proof.c, &g1), ..proof };
    assert!(!verify_proof(&keys.vk, &bad_c, &public_inputs));
    let bad_d = Proof { d: g1_add(&proof.d, &g1), ..proof };
    assert!(!verify_proof(&keys.vk, &bad_d, &public_inputs));
    let bad_dp = Proof { delta_prime: g2_add(&proof.delta_prime, &g2), ..proof };
    assert!(!verify_proof(&keys.vk, &bad_dp, &public_inputs));
}

#[test]
fn test_rerandomized_proofs_both_verify() {
    // Two proofs over the same assignment with different randomness have
    // different bytes and both verify.
    let mut rng = rng_from_seed(31u64);
    let (r1cs, instance, witness) = circuit_1_run(32u64);
    let keys = generate_random_parameters(&r1cs, 0, &mut rng).unwrap();
    let mut rng_a = rng_from_seed(33u64);
    let mut rng_b = rng_from_seed(34u64);
    let (p1, _, _) = create_random_proof(&r1cs, &instance, &witness, &keys.pk, &mut rng_a).unwrap();
    let (p2, _, _) = create_random_proof(&r1cs, &instance, &witness, &keys.pk, &mut rng_b).unwrap();
    let public_inputs = vec_tail(&instance);
    assert!(verify_proof(&keys.vk, &p1, &public_inputs));
    assert!(verify_proof(&keys.vk, &p2, &public_inputs));
    assert!(g1_serialize(&p1.a) != g1_serialize(&p2.a));
    assert!(g2_serialize(&p1.b) != g2_serialize(&p2.b));
    assert!(g1_serialize(&p1.c) != g1_serialize(&p2.c));
}

#[test]
fn test_minimal_domain_proves() {
    // The two-product system forces the smallest domain that fits its
    // constraint count; proving must still succeed end to end.
    let mut rng = rng_from_seed(41u64);
    let r1cs = test_circuit_2();
    let a = fr_rand(&mut rng);
    let b = fr_rand(&mut rng);
    let e = fr_rand(&mut rng);
    let f = fr_rand(&mut rng);
    let instance = vec![fr_one(), fr_mul(&a, &b), fr_mul(&e, &f)];
    let witness = vec![a, b, e, f];
    assert!(cc_prove_and_verify(&r1cs, &instance, &witness, 0, &mut rng));
}

#[test]
fn test_degree_too_large_error() {
    let mut rng = rng_from_seed(51u64);
    let r1cs = R1cs { num_instance: 300_000_000, num_witness: 0, constraints: Vec::new() };
    let res = generate_random_parameters(&r1cs, 0, &mut rng);
    assert!(matches!(res, Err(Error::DegreeTooLarge)));
}

#[test]
fn test_zero_trapdoor_error() {
    let mut rng = rng_from_seed(52u64);
    let r1cs = test_circuit_1();
    let alpha = fr_rand(&mut rng);
    let beta = fr_rand(&mut rng);
    let delta = fr_rand(&mut rng);
    let eta = fr_rand(&mut rng);
    let gamma = fr_zero();
    let res = generate_parameters(&r1cs, 0, &alpha, &beta, &delta, &eta, &gamma, &mut rng);
    assert!(matches!(res, Err(Error::UnexpectedIdentity)));
}

#[test]
fn test_assignment_missing_error() {
    let mut rng = rng_from_seed(53u64);
    let (r1cs, instance, _witness) = circuit_1_run(54u64);
    let keys = generate_random_parameters(&r1cs, 0, &mut rng).unwrap();
    let short_witness = vec![fr_one()];
    let res = create_random_proof(&r1cs, &instance, &short_witness, &keys.pk, &mut rng);
    assert!(matches!(res, Err(Error::AssignmentMissing)));
}
