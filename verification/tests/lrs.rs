//! End-to-end tests of the signature scheme.
use lrs_v2::algebra::{fr_one, fr_rand, rng_from_seed, Fr};
use lrs_v2::lrs::setup::setup;
use lrs_v2::lrs::sign::sign;
use lrs_v2::lrs::structures::{SignTime, VerifyTime};
use lrs_v2::lrs::verify::verify;
use lrs_v2::r1cs::{Constraint, R1cs, Term};
use lrs_v2::sma::utils::ring_gen;

/// A circuit with one public value `phi`, one committed witness `sk`, and
/// the single constraint `sk * 1 = phi`.
fn identity_circuit() -> R1cs {
    let one = fr_one();
    let a = vec![Term { index: 2, coeff: one }];
    let b = vec![Term { index: 0, coeff: one }];
    let c = vec![Term { index: 1, coeff: one }];
    let constraints = vec![Constraint { a, b, c }];
    R1cs { num_instance: 2, num_witness: 1, constraints }
}

#[test]
fn test_lrs_1() {
    let security_par = "128".to_string();
    let msg = "test message".as_bytes().to_vec();
    let ring_size_max = 1usize << 10;

    let mut rng = rng_from_seed(201u64);
    let r1cs = identity_circuit();
    let sk = fr_rand(&mut rng);
    let instance: Vec<Fr> = vec![sk];
    let witness: Vec<Fr> = vec![sk];

    let lrs_pvkey = setup(security_par, ring_size_max, &r1cs, 1, &mut rng).unwrap();

    let signer_idx = 1usize;
    let mut ring = ring_gen(ring_size_max, signer_idx, &mut rng);
    ring[signer_idx] = witness[0];

    let mut sign_time = SignTime::new();
    let signature = sign(
        &lrs_pvkey,
        &r1cs,
        &instance,
        &witness,
        &ring,
        &msg,
        &mut sign_time,
        &mut rng,
    )
    .unwrap();

    let mut verify_time = VerifyTime::new();
    let result = verify(&lrs_pvkey, &ring, &msg, &signature, &mut verify_time);
    assert!(result, "Signature verification failed");

    // verification is idempotent: a second run on the same signature agrees
    let mut verify_time2 = VerifyTime::new();
    let again = verify(&lrs_pvkey, &ring, &msg, &signature, &mut verify_time2);
    assert_eq!(result, again);
}

#[test]
fn test_lrs_rejects_wrong_message() {
    let msg = "test message".as_bytes().to_vec();
    let other = "another message".as_bytes().to_vec();
    let ring_size_max = 8usize;

    let mut rng = rng_from_seed(202u64);
    let r1cs = identity_circuit();
    let sk = fr_rand(&mut rng);
    let instance: Vec<Fr> = vec![sk];
    let witness: Vec<Fr> = vec![sk];

    let lrs_pvkey = setup("128".to_string(), ring_size_max, &r1cs, 1, &mut rng).unwrap();
    let mut ring = ring_gen(ring_size_max, 1, &mut rng);
    ring[1] = witness[0];

    let mut sign_time = SignTime::new();
    let signature =
        sign(&lrs_pvkey, &r1cs, &instance, &witness, &ring, &msg, &mut sign_time, &mut rng)
            .unwrap();

    let mut verify_time = VerifyTime::new();
    assert!(verify(&lrs_pvkey, &ring, &msg, &signature, &mut verify_time));
    let mut verify_time2 = VerifyTime::new();
    assert!(!verify(&lrs_pvkey, &ring, &other, &signature, &mut verify_time2));
}

#[test]
fn test_time_reports_average() {
    let t = SignTime { sign: 10, sma: 8, cc: 6, link: 4 };
    let avg = t.div(2);
    assert_eq!(avg.sign, 5);
    assert_eq!(avg.sma, 4);
    assert_eq!(avg.cc, 3);
    assert_eq!(avg.link, 2);
    let v = VerifyTime { verify: 9, sma: 6, cc: 3, link: 12 };
    let avg2 = v.div(3);
    assert_eq!(avg2.verify, 3);
    assert_eq!(avg2.sma, 2);
    assert_eq!(avg2.cc, 1);
    assert_eq!(avg2.link, 4);
}
