//! Verification of a set-membership proof: the verifier rederives the whole
//! challenge transcript, rebuilds the three outsourced polynomials from
//! public data through the same construction the prover used, and checks the
//! two pairing equations; it returns exactly whether both hold.
use vstd::prelude::*;
use crate::algebra::{fr_val, g1_mul, g1_sub, g1_val, g2_mul, g2_sub, g2_val, gt_add, gt_eq,
    gt_neg, gt_val, pairing, pow_mod, q, vals_fr, Fr, G1, G2};
use crate::arith::{mod_bound, mod_small, mod_sub_noop, qi};
use crate::sma::prover::pows;
use crate::sma::structures::{comm_wf, crs_wf, ring_wf, sma_proof_wf, SmaCRS, SmaComm, SmaProof};
use crate::sma::utils::{kzg_evaluate, poly_eval};
use crate::sma::vectors::{build_sma_polys, d_b_of, d_tag_of, derive_s, dg1_of, dg2_of,
    hash_with_fr, hash_with_g1, hash_with_g2, hash_with_len, hash_with_tag, poly1_at, poly2_at,
    poly3_at, powers_of, s_of, t_of, u_of, z_of};
use crate::vecs::{bytes_extend, vec_take};

verus! {

/// The reduced coefficient sequence of the first outsourced polynomial.
pub open spec fn p1_seq(
    n: int,
    nreal: int,
    sval: nat,
    tval: nat,
    ringv: Seq<nat>,
    deq: nat,
    db: nat,
    dov: nat,
    dphi: nat,
) -> Seq<nat> {
    Seq::new(
        (n + 1) as nat,
        |k: int|
            (poly1_at(k, n, nreal, pows(sval, n), pows(tval, n), ringv, deq, db, dov, dphi)
                % qi()) as nat,
    )
}

/// The reduced coefficient sequence of the second outsourced polynomial.
pub open spec fn p2_seq(n: int, uval: nat, dd1: nat) -> Seq<nat> {
    Seq::new((n + 1) as nat, |k: int| (poly2_at(k, n, pows(uval, n), dd1) % qi()) as nat)
}

/// The reduced coefficient sequence of the third outsourced polynomial.
pub open spec fn p3_seq(n: int, tval: nat, deq: nat) -> Seq<nat> {
    Seq::new((n + 1) as nat, |k: int| (poly3_at(k, n, pows(tval, n), deq) % qi()) as nat)
}

/// The verifier's acceptance condition: over the rederived transcript
/// challenges, (1) the batched openings of the three outsourced polynomial
/// commitments at `z` match `pi_kzg` against `crs_g2s[1] - z G2`, and
/// (2) the aggregated relation equation over the commitments, the reference
/// string and `pi` holds.
pub open spec fn sma_accepts(
    msg: Seq<u8>,
    crs: SmaCRS,
    comm: SmaComm,
    ringv: Seq<nat>,
    p: SmaProof,
) -> bool {
    let n = crs.ring_size_max as int;
    let nreal = ringv.len() - 1;
    let cgv = g1_val(comm.c_g1);
    let cbv = g2_val(comm.c_b_g2);
    let csv = g1_val(p.c_s_g1);
    let sval = s_of(msg, cgv, cbv);
    let tval = t_of(msg, cgv, cbv, csv);
    let uval = u_of(msg, cgv, cbv, csv, nreal as u64);
    let deq = d_tag_of(msg, cgv, cbv, csv, 1);
    let db = d_b_of(msg, cgv, cbv, csv);
    let dov = d_tag_of(msg, cgv, cbv, csv, 3);
    let dd2 = d_tag_of(msg, cgv, cbv, csv, 4);
    let dd1 = d_tag_of(msg, cgv, cbv, csv, 5);
    let dphi = d_tag_of(msg, cgv, cbv, csv, 6);
    let zval = z_of(msg, cgv, cbv, csv, g1_val(p.pi));
    let dh = dg1_of(msg, cgv, cbv, csv, g1_val(p.c_h_g1));
    let du = dg2_of(msg, cgv, cbv, csv, g2_val(p.c_u_g2));
    let dt = dg2_of(msg, cgv, cbv, csv, g2_val(p.c_t_g2));
    let e1 = (poly_eval(p1_seq(n, nreal, sval, tval, ringv, deq, db, dov, dphi), zval)
        % qi()) as nat;
    let e2 = (poly_eval(p2_seq(n, uval, dd1), zval) % qi()) as nat;
    let e3 = (poly_eval(p3_seq(n, tval, deq), zval) % qi()) as nat;
    // the batched opening check
    let t1 = (((g1_val(p.c_h_g1) - e1) % qi()) * dh) % qi();
    let t2 = (du * ((g2_val(p.c_u_g2) - e2) % qi())) % qi();
    let t3 = (dt * ((g2_val(p.c_t_g2) - e3) % qi())) % qi();
    let rhs1 = (g1_val(p.pi_kzg) * ((g2_val(crs.crs_g2s@[1]) - zval) % qi())) % qi();
    let check1 = (t1 + t2 + t3) % qi() == rhs1;
    // the aggregated relation check
    let lupv = (((db * csv) % q()) + g1_val(p.c_h_g1)) % q();
    let ld1v = ((((dphi * g2_val(crs.crs_g2s@[n])) % q()) + g2_val(p.c_u_g2)) % q() - ((dd2
        * g2_val(crs.crs_g2s@[n - 1])) % q())) % qi();
    let pa = (lupv * g2_val(p.c_b_g2)) % q();
    let pb = (cgv * ld1v) % qi();
    let pc = (csv * g2_val(p.c_t_g2)) % q();
    let pd = (((dov * g1_val(crs.crs_g1s@[n])) % q()) * g2_val(crs.crs_g2s@[1])) % q();
    let check2 = (pa - (((pb + pc) % qi() + pd) % qi())) % qi() == ((g1_val(p.pi) * 1) as int)
        % qi();
    check1 && check2
}

/// Checks a membership proof; returns exactly whether both pairing
/// equations hold.  A rejected proof is an ordinary `false`, never a panic.
#[verifier::rlimit(100)]
pub fn verify_set_member_proof_opt(
    message: &Vec<u8>,
    sma_crs: &SmaCRS,
    comm: &SmaComm,
    ring: &Vec<Fr>,
    sma_proof: &SmaProof,
) -> (r: bool)
    requires
        crs_wf(*sma_crs),
        comm_wf(*comm),
        sma_proof_wf(*sma_proof),
        ring_wf(ring@),
        2 <= ring@.len(),
        ring@.len() - 1 <= sma_crs.ring_size_max,
    ensures
        r == sma_accepts(message@, *sma_crs, *comm, vals_fr(ring@), *sma_proof),
{
    let n = sma_crs.ring_size_max;
    let nreal = ring.len() - 1;
    let g2_gen = &sma_crs.g2_generator;
    let g1_gen = &sma_crs.g1_generator;

    let (mut common, s) = derive_s(message, &comm.c_g1, &comm.c_b_g2);
    let cs_bytes = crate::algebra::g1_serialize(&sma_proof.c_s_g1);
    bytes_extend(&mut common, &cs_bytes);
    let t = crate::algebra::hash_to_field(&common);
    let u = hash_with_len(&common, nreal as u64);
    let s_pows = powers_of(&s, n);
    let t_pows = powers_of(&t, n);
    let u_pows = powers_of(&u, n);
    proof {
        assert(vals_fr(s_pows@) =~= pows(fr_val(s), n as int));
        assert(vals_fr(t_pows@) =~= pows(fr_val(t), n as int));
        assert(vals_fr(u_pows@) =~= pows(fr_val(u), n as int));
    }

    let d_eq = hash_with_tag(&common, 1);
    let d_b = hash_with_fr(&common, &s);
    let d_o = hash_with_tag(&common, 3);
    let d_d2 = hash_with_tag(&common, 4);
    let d_d1 = hash_with_tag(&common, 5);
    let d_phi = hash_with_tag(&common, 6);

    let (poly_1, poly_2, poly_3) = build_sma_polys(
        ring,
        n,
        nreal,
        &s_pows,
        &t_pows,
        &u_pows,
        &d_eq,
        &d_b,
        &d_o,
        &d_d1,
        &d_phi,
    );
    let ghost nreal_i = nreal as int;
    proof {
        assert(vals_fr(poly_1@) =~= p1_seq(
            n as int,
            nreal_i,
            fr_val(s),
            fr_val(t),
            vals_fr(ring@),
            fr_val(d_eq),
            fr_val(d_b),
            fr_val(d_o),
            fr_val(d_phi),
        ));
        assert(vals_fr(poly_2@) =~= p2_seq(n as int, fr_val(u), fr_val(d_d1)));
        assert(vals_fr(poly_3@) =~= p3_seq(n as int, fr_val(t), fr_val(d_eq)));
    }

    let z = hash_with_g1(&common, &sma_proof.pi);
    let d_h = hash_with_g1(&common, &sma_proof.c_h_g1);
    let d_u = hash_with_g2(&common, &sma_proof.c_u_g2);
    let d_t = hash_with_g2(&common, &sma_proof.c_t_g2);

    let eval_1 = kzg_evaluate(&poly_1, &z);
    let eval_2 = kzg_evaluate(&poly_2, &z);
    let eval_3 = kzg_evaluate(&poly_3, &z);

    // check 1: the batched opening
    let e1_pt = g1_mul(g1_gen, &eval_1);
    let lhs_a_g1 = g1_sub(&sma_proof.c_h_g1, &e1_pt);
    let dh_g2 = g2_mul(g2_gen, &d_h);
    proof {
        mod_small(fr_val(eval_1));
        mod_bound((fr_val(d_h) * g2_val(sma_crs.g2_generator)) as int);
        mod_small(fr_val(d_h));
    }
    let t1 = pairing(&lhs_a_g1, &dh_g2);

    let du_g1 = g1_mul(g1_gen, &d_u);
    let e2_pt = g2_mul(g2_gen, &eval_2);
    proof {
        mod_bound((fr_val(eval_2) * g2_val(sma_crs.g2_generator)) as int);
        mod_small(fr_val(eval_2));
    }
    let rhs_b_g2 = g2_sub(&sma_proof.c_u_g2, &e2_pt);
    proof {
        mod_bound(g2_val(sma_proof.c_u_g2) as int - fr_val(eval_2) as int);
        mod_small(fr_val(d_u));
    }
    let t2 = pairing(&du_g1, &rhs_b_g2);

    let dt_g1 = g1_mul(g1_gen, &d_t);
    let e3_pt = g2_mul(g2_gen, &eval_3);
    proof {
        mod_bound((fr_val(eval_3) * g2_val(sma_crs.g2_generator)) as int);
        mod_small(fr_val(eval_3));
    }
    let rhs_c_g2 = g2_sub(&sma_proof.c_t_g2, &e3_pt);
    proof {
        mod_bound(g2_val(sma_proof.c_t_g2) as int - fr_val(eval_3) as int);
        mod_small(fr_val(d_t));
    }
    let t3 = pairing(&dt_g1, &rhs_c_g2);

    let z_pt = g2_mul(g2_gen, &z);
    proof {
        mod_bound((fr_val(z) * g2_val(sma_crs.g2_generator)) as int);
        mod_small(fr_val(z));
    }
    let kzg_rhs_g2 = g2_sub(&sma_crs.crs_g2s[1], &z_pt);
    proof {
        mod_bound(g2_val(sma_crs.crs_g2s@[1]) as int - fr_val(z) as int);
    }
    let rhs1 = pairing(&sma_proof.pi_kzg, &kzg_rhs_g2);

    let lhs1a = gt_add(&t1, &t2);
    let lhs1 = gt_add(&lhs1a, &t3);
    proof {
        crate::arith::mod_add_noop(gt_val(t1) as int + gt_val(t2) as int, gt_val(t3) as int);
        crate::arith::mod_add_noop(gt_val(t1) as int, gt_val(t2) as int);
        mod_small(gt_val(t3));
        mod_small(gt_val(t1));
        mod_small(gt_val(t2));
    }
    let check1 = gt_eq(&lhs1, &rhs1);

    // check 2: the aggregated relation
    let lup_scaled = g1_mul(&sma_proof.c_s_g1, &d_b);
    let lup = crate::algebra::g1_add(&lup_scaled, &sma_proof.c_h_g1);
    let ld1_a = g2_mul(&sma_crs.crs_g2s[n], &d_phi);
    proof {
        mod_bound((fr_val(d_phi) * g2_val(sma_crs.crs_g2s@[n as int])) as int);
    }
    let ld1_b = crate::algebra::g2_add(&ld1_a, &sma_proof.c_u_g2);
    let ld1_c = g2_mul(&sma_crs.crs_g2s[n - 1], &d_d2);
    proof {
        mod_bound(
            ((fr_val(d_phi) * g2_val(sma_crs.crs_g2s@[n as int])) % q()) as int + g2_val(
                sma_proof.c_u_g2,
            ) as int,
        );
        mod_bound((fr_val(d_d2) * g2_val(sma_crs.crs_g2s@[n - 1])) as int);
    }
    let ld1 = g2_sub(&ld1_b, &ld1_c);
    proof {
        mod_bound(g2_val(ld1_b) as int - g2_val(ld1_c) as int);
    }

    let pa = pairing(&lup, &sma_proof.c_b_g2);
    let pb = pairing(&comm.c_g1, &ld1);
    let pc = pairing(&sma_proof.c_s_g1, &sma_proof.c_t_g2);
    let dov_pt = g1_mul(&sma_crs.crs_g1s[n], &d_o);
    let pd = pairing(&dov_pt, &sma_crs.crs_g2s[1]);

    let inner_a = gt_add(&pb, &pc);
    let inner = gt_add(&inner_a, &pd);
    let neg_inner = gt_neg(&inner);
    proof {
        mod_bound(0 - gt_val(inner) as int);
    }
    let lhs2 = gt_add(&pa, &neg_inner);
    let rhs2 = pairing(&sma_proof.pi, g2_gen);
    let check2 = gt_eq(&lhs2, &rhs2);
    proof {
        // the accumulated left side is `pa - inner` reduced
        crate::arith::mod_add_noop_right(gt_val(pa) as int, 0 - gt_val(inner) as int);
        mod_small(gt_val(pa));
    }

    check1 && check2
}

} // verus!
