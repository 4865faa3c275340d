//! Tests of the set-membership argument.
use lrs_v2::algebra::{fr_rand, rng_from_seed};
use lrs_v2::sma::generator::crs_key_gen;
use lrs_v2::sma::prover::set_member_proof_opt;
use lrs_v2::sma::utils::{commit, ring_gen};
use lrs_v2::sma::verify::verify_set_member_proof_opt;

#[test]
fn test_set_member_proof_opt() {
    let mut rng = rng_from_seed(101u64);
    let ring_size_max = 1usize << 6;

    let security_par = "128".to_string();
    let sma_crs = crs_key_gen(security_par, ring_size_max, &mut rng);

    let ring = ring_gen(ring_size_max, 1, &mut rng);
    let sma_comm = commit(&ring, &sma_crs, 1, &mut rng);

    let msg = "test message".as_bytes().to_vec();
    let sma_proof = set_member_proof_opt(&msg, &sma_crs, &sma_comm, &ring, 1, &mut rng);

    assert!(verify_set_member_proof_opt(&msg, &sma_crs, &sma_comm, &ring, &sma_proof));
}

#[test]
fn test_sma_all_indices_small_rings() {
    // For each small ring bound and every valid signer index the round trip
    // verifies; a ring value forged after committing is rejected.
    let mut rng = rng_from_seed(102u64);
    let msg = "test message".as_bytes().to_vec();
    for ring_size_max in [4usize, 8, 16] {
        for signer in 1..=ring_size_max {
            let sma_crs = crs_key_gen("128".to_string(), ring_size_max, &mut rng);
            let ring = ring_gen(ring_size_max, signer, &mut rng);
            let sma_comm = commit(&ring, &sma_crs, signer, &mut rng);
            let sma_proof =
                set_member_proof_opt(&msg, &sma_crs, &sma_comm, &ring, signer, &mut rng);
            assert!(verify_set_member_proof_opt(&msg, &sma_crs, &sma_comm, &ring, &sma_proof));

            let mut forged_ring = ring.clone();
            forged_ring[signer] = fr_rand(&mut rng);
            assert!(!verify_set_member_proof_opt(
                &msg,
                &sma_crs,
                &sma_comm,
                &forged_ring,
                &sma_proof
            ));
        }
    }
}
