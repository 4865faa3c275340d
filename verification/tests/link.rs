//! Tests of the subspace-membership argument.
use lrs_v2::algebra::{fr_from_u64, fr_one, fr_rand, fr_zero, g1_add, g1_generator, g1_mul,
    g1_zero, g2_generator, rng_from_seed};
use lrs_v2::link::matrix::SparseMatrix;
use lrs_v2::link::snark::{PESubspaceSnark, PP};

#[test]
fn test_basic_g2() {
    // Prove knowledge of all `x_i` in `y = sum_i g_i * x_i`.
    let mut rng = rng_from_seed(0u64);
    let g1 = g1_generator();
    let g2 = g2_generator();

    let pp = PP::new(2, 3, &g1, &g2);

    let mut m = SparseMatrix::new(2, 3);
    m.insert_row_slice(0, 0, vec![g1, g1, g1]);
    m.insert_row_slice(1, 0, vec![g1, g1, g1]);

    let x = vec![fr_zero(), fr_one(), fr_zero()];
    let x_bad = vec![fr_one(), fr_one(), fr_one()];

    let y = vec![g1, g1];

    let evk = PESubspaceSnark::keygen(&mut rng, &pp, &m);

    let pi = PESubspaceSnark::prove(&pp, &evk.ek, &x);
    let pi_bad = PESubspaceSnark::prove(&pp, &evk.ek, &x_bad);

    assert!(PESubspaceSnark::verify(&pp, &evk.vk, &y, &pi) == true);
    assert!(PESubspaceSnark::verify(&pp, &evk.vk, &y, &pi_bad) == false);
}

#[test]
fn test_link_random_matrix() {
    // Completeness on a random dense-ish matrix: y = Mx verifies, a
    // perturbed y does not.
    let mut rng = rng_from_seed(7u64);
    let g1 = g1_generator();
    let g2 = g2_generator();
    let nr = 3usize;
    let nc = 5usize;
    let pp = PP::new(nr, nc, &g1, &g2);

    let mut rows = Vec::new();
    for _ in 0..nr {
        let mut row = Vec::new();
        for _ in 0..nc {
            let s = fr_rand(&mut rng);
            row.push(g1_mul(&g1, &s));
        }
        rows.push(row);
    }
    let mut m = SparseMatrix::new(nr, nc);
    for (r, row) in rows.iter().enumerate() {
        m.insert_row_slice(r, 0, row.clone());
    }

    let mut x = Vec::new();
    for _ in 0..nc {
        x.push(fr_rand(&mut rng));
    }
    let mut y = Vec::new();
    for r in 0..nr {
        let mut acc = g1_zero();
        for j in 0..nc {
            acc = g1_add(&acc, &g1_mul(&rows[r][j], &x[j]));
        }
        y.push(acc);
    }

    let evk = PESubspaceSnark::keygen(&mut rng, &pp, &m);
    let pi = PESubspaceSnark::prove(&pp, &evk.ek, &x);
    assert!(PESubspaceSnark::verify(&pp, &evk.vk, &y, &pi));

    let mut y_bad = y.clone();
    y_bad[1] = g1_add(&y_bad[1], &g1_mul(&g1, &fr_from_u64(1)));
    assert!(!PESubspaceSnark::verify(&pp, &evk.vk, &y_bad, &pi));
}
