//! Ring construction, the two-part commitment, and plain polynomial
//! evaluation.
use vstd::prelude::*;
use crate::algebra::{fr_add, fr_mul, fr_ok_seq, fr_rand, fr_val, fr_zero, g1_add, g1_mul, g1_val,
    g2_add, g2_mul, g2_val, pow_mod, q, vals_fr, Fr, G1};
use crate::arith::{mod_add_noop, mod_add_noop_right, mod_bound, mod_small, qi};
use crate::sma::structures::{comm_wf, crs_wf, ring_wf, SmaCRS, SmaComm};

verus! {

/// Value of the polynomial with the given coefficient representatives at
/// `x`: `sum coeffs[i] * x^i`.
pub open spec fn poly_eval(coeffs: Seq<nat>, x: nat) -> int
    decreases coeffs.len(),
{
    if coeffs.len() == 0 {
        0
    } else {
        poly_eval(coeffs.drop_last(), x) + coeffs.last() * pow_mod(x, (coeffs.len() - 1) as nat)
    }
}

proof fn poly_eval_take_push(coeffs: Seq<nat>, x: nat, i: int)
    requires
        0 <= i < coeffs.len(),
    ensures
        poly_eval(coeffs.take(i + 1), x) == poly_eval(coeffs.take(i), x) + coeffs[i] * pow_mod(
            x,
            i as nat,
        ),
{
    assert(coeffs.take(i + 1).drop_last() =~= coeffs.take(i));
    assert(coeffs.take(i + 1).last() == coeffs[i]);
}

/// A random ring of the given size, with the reserved zero value at
/// position zero.
pub fn ring_gen(ring_size_max: usize, signer_index: usize, rng: &mut Rng) -> (r: Vec<Fr>)
    requires
        ring_size_max + 1 <= usize::MAX,
    ensures
        r@.len() == ring_size_max + 1,
        ring_wf(r@),
{
    let mut ring: Vec<Fr> = Vec::new();
    ring.push(fr_zero());
    let mut i: usize = 0;
    while i < ring_size_max
        invariant
            i <= ring_size_max,
            ring@.len() == i + 1,
            fr_val(ring@[0]) == 0,
            fr_ok_seq(ring@),
        decreases ring_size_max - i,
    {
        ring.push(fr_rand(rng));
        i = i + 1;
    }
    ring
}

use crate::algebra::Rng;

/// Commits the ring value at the signer's index under fresh randomness `r`,
/// and the signer's one-hot selector position under fresh `r_b`.
pub fn commit(ring: &Vec<Fr>, sma_crs: &SmaCRS, signer_index: usize, rng: &mut Rng) -> (c: SmaComm)
    requires
        crs_wf(*sma_crs),
        1 <= signer_index <= sma_crs.ring_size_max,
        signer_index < ring@.len(),
    ensures
        comm_wf(c),
        fr_val(c.r) < q(),
        fr_val(c.r_b) < q(),
        g1_val(c.c_g1) == ((fr_val(c.r) as int) + fr_val(ring@[signer_index as int]) * g1_val(
            sma_crs.crs_g1s@[1],
        )) % qi(),
        g2_val(c.c_b_g2) == ((fr_val(c.r_b) as int) + g2_val(
            sma_crs.crs_g2s@[signer_index as int],
        )) % qi(),
    {
    let r = fr_rand(rng);
    let r_b = fr_rand(rng);

    let blind = g1_mul(&sma_crs.g1_generator, &r);
    let value = g1_mul(&sma_crs.crs_g1s[1], &ring[signer_index]);
    let c_g1 = g1_add(&blind, &value);
    proof {
        mod_small(fr_val(r));
        mod_add_noop_right(
            fr_val(r) as int,
            (fr_val(ring@[signer_index as int]) * g1_val(sma_crs.crs_g1s@[1])) as int,
        );
    }

    let blind2 = g2_mul(&sma_crs.g2_generator, &r_b);
    proof {
        mod_bound((fr_val(r_b) * g2_val(sma_crs.g2_generator)) as int);
    }
    let c_b_g2 = g2_add(&blind2, &sma_crs.crs_g2s[signer_index]);
    proof {
        mod_small(fr_val(r_b));
        mod_add_noop(fr_val(r_b) as int, g2_val(sma_crs.crs_g2s@[signer_index as int]) as int);
        mod_small(g2_val(sma_crs.crs_g2s@[signer_index as int]));
        mod_bound(
            fr_val(r_b) as int + g2_val(sma_crs.crs_g2s@[signer_index as int]) as int,
        );
    }

    SmaComm { c_g1, c_b_g2, r, r_b }
}

/// Evaluates a polynomial, given by its coefficients, at `x`.
pub fn kzg_evaluate(poly: &Vec<Fr>, x: &Fr) -> (r: Fr)
    ensures
        fr_val(r) == poly_eval(vals_fr(poly@), fr_val(*x)) % qi(),
{
    let mut eval = fr_zero();
    let mut temp = crate::algebra::fr_one();
    let mut i: usize = 0;
    proof {
        mod_small(0);
        assert(vals_fr(poly@).take(0) =~= Seq::<nat>::empty());
    }
    while i < poly.len()
        invariant
            i <= poly@.len(),
            fr_val(temp) == pow_mod(fr_val(*x), i as nat),
            fr_val(eval) == poly_eval(vals_fr(poly@).take(i as int), fr_val(*x)) % qi(),
        decreases poly@.len() - i,
    {
        let term = fr_mul(&poly[i], &temp);
        let next_eval = fr_add(&eval, &term);
        let next_temp = fr_mul(&temp, x);
        proof {
            let ii = i as int;
            let xv = fr_val(*x);
            poly_eval_take_push(vals_fr(poly@), xv, ii);
            // the new term: (coeff * (x^i % q)) % q == (coeff * x^i) % q
            crate::arith::pow_mod_bound(xv, i as nat);
            mod_small(pow_mod(xv, i as nat));
            mod_add_noop(
                poly_eval(vals_fr(poly@).take(ii), xv),
                (fr_val(poly@[ii]) * pow_mod(xv, i as nat)) as int,
            );
            // next power
            vstd::arithmetic::div_mod::lemma_mul_mod_noop(fr_val(temp) as int, xv as int, qi());
            vstd::arithmetic::mul::lemma_mul_is_commutative(fr_val(temp) as int, xv as int);
        }
        eval = next_eval;
        temp = next_temp;
        i = i + 1;
    }
    proof {
        assert(vals_fr(poly@).take(poly@.len() as int) =~= vals_fr(poly@));
    }
    eval
}

} // verus!
