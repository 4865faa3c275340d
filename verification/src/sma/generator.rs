//! Generation of the argument's structured reference string.
use vstd::prelude::*;
use crate::algebra::{fr_mul, fr_rand, fr_val, g1_generator, g1_mul, g1_val, g1_zero,
    g2_generator, g2_mul, g2_val, pow_mod, q, Fr, G1, G2, Rng};
use crate::arith::{mod_bound, mod_small, pow_mod_bound, qi};
use crate::sma::structures::{crs_rel, crs_wf, SmaCRS};

verus! {

/// Samples the trapdoor `alpha` and builds the reference string: powers of
/// `alpha` over both generators, with position `ring_size_max + 1` of the
/// first-group vector forced to the identity.  The trapdoor leaves no trace
/// but the power structure.
pub fn crs_key_gen(security_par: String, ring_size_max: usize, rng: &mut Rng) -> (r: SmaCRS)
    requires
        1 <= ring_size_max,
        2 * ring_size_max + 1 <= usize::MAX,
    ensures
        r.ring_size_max == ring_size_max,
        crs_wf(r),
        exists|alphav: nat| #[trigger] crs_rel(r, alphav),
{
    let alpha = fr_rand(rng);
    let ghost av = fr_val(alpha);
    let g1_gen = g1_generator();
    let g2_gen = g2_generator();

    let total = 2 * ring_size_max + 1;
    let mut crs_g1s: Vec<G1> = Vec::new();
    let mut pow = crate::algebra::fr_one();
    let mut k: usize = 0;
    while k < total
        invariant
            k <= total,
            av == fr_val(alpha),
            av < q(),
            g1_val(g1_gen) == 1,
            fr_val(pow) == pow_mod(av, k as nat),
            crs_g1s@.len() == k,
            forall|j: int| 0 <= j < k ==> g1_val(#[trigger] crs_g1s@[j]) == pow_mod(av, j as nat),
        decreases total - k,
    {
        let p = g1_mul(&g1_gen, &pow);
        proof {
            pow_mod_bound(av, k as nat);
            mod_small(pow_mod(av, k as nat));
        }
        crs_g1s.push(p);
        let next = fr_mul(&pow, &alpha);
        proof {
            pow_mod_bound(av, k as nat);
            mod_small(pow_mod(av, k as nat));
            vstd::arithmetic::div_mod::lemma_mul_mod_noop(
                fr_val(pow) as int,
                av as int,
                qi(),
            );
            vstd::arithmetic::mul::lemma_mul_is_commutative(fr_val(pow) as int, av as int);
        }
        pow = next;
        k = k + 1;
    }
    let hole = g1_zero();
    crs_g1s.set(ring_size_max + 1, hole);

    let g2_total = ring_size_max + 1;
    let mut crs_g2s: Vec<G2> = Vec::new();
    let mut pow2 = crate::algebra::fr_one();
    let mut j: usize = 0;
    while j < g2_total
        invariant
            j <= g2_total,
            av == fr_val(alpha),
            av < q(),
            g2_val(g2_gen) == 1,
            fr_val(pow2) == pow_mod(av, j as nat),
            crs_g2s@.len() == j,
            forall|i: int| 0 <= i < j ==> g2_val(#[trigger] crs_g2s@[i]) == pow_mod(av, i as nat),
            crate::algebra::g2_ok_seq(crs_g2s@),
        decreases g2_total - j,
    {
        let p = g2_mul(&g2_gen, &pow2);
        proof {
            pow_mod_bound(av, j as nat);
            mod_small(pow_mod(av, j as nat));
            mod_bound((fr_val(pow2) * g2_val(g2_gen)) as int);
        }
        crs_g2s.push(p);
        let next = fr_mul(&pow2, &alpha);
        proof {
            pow_mod_bound(av, j as nat);
            mod_small(pow_mod(av, j as nat));
            vstd::arithmetic::div_mod::lemma_mul_mod_noop(
                fr_val(pow2) as int,
                av as int,
                qi(),
            );
            vstd::arithmetic::mul::lemma_mul_is_commutative(fr_val(pow2) as int, av as int);
        }
        pow2 = next;
        j = j + 1;
    }

    let crs = SmaCRS {
        g1_generator: g1_gen,
        g2_generator: g2_gen,
        crs_g1s,
        crs_g2s,
        ring_size_max,
    };
    proof {
        assert(crs_rel(crs, av));
    }
    crs
}

} // verus!
