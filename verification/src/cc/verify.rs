//! Verification of a commit-carrying proof: one recomputation of the binding
//! challenge, one instance accumulation, and one pairing-product equation.
use vstd::prelude::*;
use crate::algebra::{dot_vals, fr_val, g1_add, g1_mul, g1_val, g2_mul, g2_neg, g2_sub, g2_val,
    gt_add, gt_eq, gt_val, hash_to_field, g1_serialize, g2_serialize, pairing, q, vals_fr,
    vals_g1, Fr, G1};
use crate::arith::{dot_take_all, dot_take_push, mod_add_noop, mod_bound, mod_small, mod_sub_noop,
    qi};
use crate::cc::structures::{cc_challenge, proof_wf, vk_wf, Proof, VerifyingKey};
use crate::vecs::bytes_extend;

verus! {

/// The accumulated instance commitment: the constant term plus the weighted
/// instance query.
pub open spec fn cc_ic_val(query: Seq<G1>, instv: Seq<nat>) -> int {
    (g1_val(query[0]) + dot_vals(instv, vals_g1(query.subrange(1, query.len() as int)))) % qi()
}

/// The verifier's acceptance condition: with `m` the recomputed binding
/// challenge, the pairing product
/// `e(A, B) * e(C, -m delta - delta') * e(D, -gamma) * e(IC, -G2)`
/// equals the key's `e(alpha, beta)`.
pub open spec fn cc_accepts(vk: VerifyingKey, p: Proof, instv: Seq<nat>) -> bool {
    let m = cc_challenge(p);
    let x2 = (m * g2_val(vk.delta_g2_neg_pc) - g2_val(p.delta_prime)) % qi();
    let icv = cc_ic_val(vk.instance_abc_query@, instv);
    let neggen = (0 - g2_val(vk.g2_generator)) % qi();
    let sum = (g1_val(p.a) * g2_val(p.b) + g1_val(p.c) * x2 + g1_val(p.d) * g2_val(
        vk.gamma_g2_neg_pc,
    ) + icv * neggen) % qi();
    sum == gt_val(vk.alpha_beta_gt)
}

/// Checks a proof against the verifying key and the public instance; returns
/// exactly whether the pairing equation holds.  A rejected proof is an
/// ordinary `false`, never a panic.
pub fn verify_proof(vk: &VerifyingKey, proof: &Proof, instance: &Vec<Fr>) -> (r: bool)
    requires
        vk_wf(*vk),
        proof_wf(*proof),
        instance@.len() + 1 == vk.instance_abc_query@.len(),
    ensures
        r == cc_accepts(*vk, *proof, vals_fr(instance@)),
{
    let mut bytes = g1_serialize(&proof.a);
    let b_bytes = g2_serialize(&proof.b);
    let d_bytes = g1_serialize(&proof.d);
    bytes_extend(&mut bytes, &b_bytes);
    bytes_extend(&mut bytes, &d_bytes);
    let m = hash_to_field(&bytes);
    proof {
        assert(fr_val(m) == cc_challenge(*proof));
    }

    let ghost tail = vk.instance_abc_query@.subrange(1, vk.instance_abc_query@.len() as int);
    let ghost q0 = vk.instance_abc_query@[0];
    let z = crate::algebra::g1_zero();
    let mut ic = g1_add(&z, &vk.instance_abc_query[0]);
    let mut i: usize = 0;
    proof {
        assert(vals_fr(instance@).take(0) =~= Seq::<nat>::empty());
    }
    while i < instance.len()
        invariant
            i <= instance@.len(),
            instance@.len() + 1 == vk.instance_abc_query@.len(),
            tail == vk.instance_abc_query@.subrange(1, vk.instance_abc_query@.len() as int),
            q0 == vk.instance_abc_query@[0],
            g1_val(ic) == (g1_val(q0) + dot_vals(
                vals_fr(instance@).take(i as int),
                vals_g1(tail).take(i as int),
            )) % qi(),
        decreases instance@.len() - i,
    {
        let term = g1_mul(&vk.instance_abc_query[1 + i], &instance[i]);
        let next = g1_add(&ic, &term);
        proof {
            let ii = i as int;
            dot_take_push(vals_fr(instance@), vals_g1(tail), ii);
            let pre = g1_val(q0) + dot_vals(
                vals_fr(instance@).take(ii),
                vals_g1(tail).take(ii),
            );
            let t = (fr_val(instance@[ii]) * g1_val(tail[ii])) as int;
            // g1_val(next) == ((pre % q) + (t % q)) % q == (pre + t) % q
            mod_add_noop(pre, t);
            assert(tail[ii] == vk.instance_abc_query@[1 + ii]);
        }
        ic = next;
        i = i + 1;
    }
    proof {
        dot_take_all(vals_fr(instance@), vals_g1(tail));
        assert(vals_fr(instance@).take(instance@.len() as int) =~= vals_fr(instance@));
        assert(vals_g1(tail).take(vals_g1(tail).len() as int) =~= vals_g1(tail));
    }

    let scaled = g2_mul(&vk.delta_g2_neg_pc, &m);
    proof {
        mod_bound((fr_val(m) * g2_val(vk.delta_g2_neg_pc)) as int);
    }
    let x2 = g2_sub(&scaled, &proof.delta_prime);
    proof {
        mod_small(g2_val(proof.delta_prime));
        mod_sub_noop(
            (fr_val(m) * g2_val(vk.delta_g2_neg_pc)) as int,
            g2_val(proof.delta_prime) as int,
        );
        mod_bound(
            (fr_val(m) * g2_val(vk.delta_g2_neg_pc)) as int - g2_val(proof.delta_prime) as int,
        );
    }
    let neggen = g2_neg(&vk.g2_generator);
    proof {
        mod_bound(0 - g2_val(vk.g2_generator) as int);
    }

    let t1 = pairing(&proof.a, &proof.b);
    let t2 = pairing(&proof.c, &x2);
    let t3 = pairing(&proof.d, &vk.gamma_g2_neg_pc);
    let t4 = pairing(&ic, &neggen);
    let s1 = gt_add(&t1, &t2);
    let s2 = gt_add(&s1, &t3);
    let s3 = gt_add(&s2, &t4);
    let result = gt_eq(&s3, &vk.alpha_beta_gt);
    proof {
        let av = g1_val(proof.a) as int;
        let bv = g2_val(proof.b) as int;
        let cv = g1_val(proof.c) as int;
        let dv = g1_val(proof.d) as int;
        let gnv = g2_val(vk.gamma_g2_neg_pc) as int;
        let x2v = g2_val(x2) as int;
        let icv = g1_val(ic) as int;
        let ngv = g2_val(neggen) as int;
        mod_add_noop(av * bv, cv * x2v);
        mod_add_noop(av * bv + cv * x2v, dv * gnv);
        mod_add_noop(av * bv + cv * x2v + dv * gnv, icv * ngv);
        assert(gt_val(s3) == (av * bv + cv * x2v + dv * gnv + icv * ngv) % qi());
    }
    result
}

} // verus!
