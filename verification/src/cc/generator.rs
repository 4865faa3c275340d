//! Key generation for the commit-carrying proof system: from the trapdoor
//! scalars and the QAP evaluations at a hidden sample point, every key
//! element is a stated multiple of the group generators.
use vstd::prelude::*;
use crate::algebra::{dom_size, domain_new, domain_sample_outside, domain_size_for, fr_mul,
    fr_inverse, fr_rand,
    fr_val, g1_generator, g1_mul, g1_val, g2_generator, g2_mul, g2_neg, g2_val, gt_val, is_pow2,
    max_domain_size, pairing, pow_mod, q, Fr, G1, G2, Rng};
use crate::arith::{mod_bound, mod_mul_noop, mod_small, mod_sub_noop, qi};
use crate::cc::r1cs_to_qap::{qap_a_at, qap_b_at, qap_c_at, u_at, R1CStoQAP};
use crate::cc::structures::{pk_shape, vk_wf, CcPVKey, ProvingKey, VerifyingKey};
use crate::error::Error;
use crate::r1cs::R1cs;

verus! {

/// What key generation guarantees: with `u` the Lagrange values at the
/// hidden sample point `tval`, and `ginv`/`dinv` the inverses of `gamma` and
/// `delta`, every key element is the stated combination of the trapdoors and
/// the QAP values.
#[verifier::opaque]
pub open spec fn cc_keys_rel(
    r1cs: R1cs,
    ccount: nat,
    av: nat,
    bv: nat,
    dv: nat,
    ev: nat,
    gv: nat,
    tval: nat,
    dsize: nat,
    ginv: nat,
    dinv: nat,
    keys: CcPVKey,
) -> bool {
    let u = u_at(dsize, tval);
    let ztv = (pow_mod(tval, dsize) - 1) % qi();
    let pk = keys.pk;
    let vk = keys.vk;
    &&& pk_shape(pk, r1cs.num_vars(), r1cs.num_instance as nat, dsize)
    &&& pk.commit_witness_num == ccount
    &&& vk.commit_witness_num == ccount
    &&& vk_wf(vk)
    &&& vk.instance_abc_query@.len() == r1cs.num_instance
    &&& (gv * ginv) % q() == 1
    &&& (dv * dinv) % q() == 1
    &&& g1_val(pk.g1_generator) == 1
    &&& g2_val(pk.g2_generator) == 1
    &&& g1_val(vk.g1_generator) == 1
    &&& g2_val(vk.g2_generator) == 1
    &&& g1_val(pk.alpha_g1) == av % q()
    &&& g1_val(pk.beta_g1) == bv % q()
    &&& g2_val(pk.beta_g2) == bv % q()
    &&& g1_val(pk.delta_g1) == dv % q()
    &&& g2_val(pk.delta_g2) == dv % q()
    &&& g1_val(pk.eta_delta_inv_g1) == (ev * dinv) % q()
    &&& g1_val(pk.eta_gamma_inv_g1) == (ev * ginv) % q()
    &&& forall|v: int|
        0 <= v < r1cs.num_vars() ==> g1_val(#[trigger] pk.a_query@[v]) == qap_a_at(r1cs, u, v)
            % qi()
    &&& forall|v: int|
        0 <= v < r1cs.num_vars() ==> g1_val(#[trigger] pk.b_g1_query@[v]) == qap_b_at(r1cs, u, v)
            % qi()
    &&& forall|v: int|
        0 <= v < r1cs.num_vars() ==> g2_val(#[trigger] pk.b_g2_query@[v]) == qap_b_at(r1cs, u, v)
            % qi()
    &&& forall|i: int|
        0 <= i < dsize - 1 ==> g1_val(#[trigger] pk.h_query@[i]) == (((ztv * dinv) % qi())
            * pow_mod(tval, i as nat)) % qi()
    &&& forall|v: int|
        0 <= v < r1cs.num_instance ==> g1_val(#[trigger] vk.instance_abc_query@[v]) == (bv
            * qap_a_at(r1cs, u, v) + av * qap_b_at(r1cs, u, v) + qap_c_at(r1cs, u, v)) % qi()
    &&& forall|v: int|
        0 <= v < ccount ==> g1_val(#[trigger] pk.comm_wit_abc_query@[v]) == ((bv * qap_a_at(
            r1cs,
            u,
            r1cs.num_instance + v,
        ) + av * qap_b_at(r1cs, u, r1cs.num_instance + v) + qap_c_at(
            r1cs,
            u,
            r1cs.num_instance + v,
        )) % qi()) * ginv % qi()
    &&& forall|v: int|
        0 <= v < r1cs.num_vars() - r1cs.num_instance - ccount ==> g1_val(
            #[trigger] pk.ucomm_wit_abc_query@[v],
        ) == ((bv * qap_a_at(r1cs, u, r1cs.num_instance + ccount + v) + av * qap_b_at(
            r1cs,
            u,
            r1cs.num_instance + ccount + v,
        ) + qap_c_at(r1cs, u, r1cs.num_instance + ccount + v)) % qi()) * ginv0_or(dinv) % qi()
    &&& gt_val(vk.alpha_beta_gt) == (av * bv) % q()
    &&& g2_val(vk.delta_g2_neg_pc) == (0 - dv) % qi()
    &&& g2_val(vk.gamma_g2_neg_pc) == (0 - gv) % qi()
}

/// Identity helper so the uncommitted-range clause reads uniformly.
pub open spec fn ginv0_or(dinv: nat) -> nat {
    dinv
}

/// The sample point is valid for the domain: canonical and outside it.
pub open spec fn sample_ok(tval: nat, dsize: nat) -> bool {
    &&& tval < q()
    &&& (pow_mod(tval, dsize) - 1) % qi() != 0
}

/// Lifts each canonical scalar to the first group over the generator.
fn gen_mul_vec_g1(gen: &G1, vals: &Vec<Fr>) -> (r: Vec<G1>)
    requires
        g1_val(*gen) == 1,
        crate::algebra::fr_ok_seq(vals@),
    ensures
        r@.len() == vals@.len(),
        forall|i: int| 0 <= i < vals@.len() ==> g1_val(#[trigger] r@[i]) == fr_val(vals@[i]),
{
    let mut r: Vec<G1> = Vec::new();
    let mut i: usize = 0;
    while i < vals.len()
        invariant
            i <= vals@.len(),
            g1_val(*gen) == 1,
            crate::algebra::fr_ok_seq(vals@),
            r@.len() == i,
            forall|k: int| 0 <= k < i ==> g1_val(#[trigger] r@[k]) == fr_val(vals@[k]),
        decreases vals@.len() - i,
    {
        let p = g1_mul(gen, &vals[i]);
        proof {
            mod_small(fr_val(vals@[i as int]));
        }
        r.push(p);
        i = i + 1;
    }
    r
}

/// Lifts each canonical scalar to the second group over the generator.
fn gen_mul_vec_g2(gen: &G2, vals: &Vec<Fr>) -> (r: Vec<G2>)
    requires
        g2_val(*gen) == 1,
        crate::algebra::fr_ok_seq(vals@),
    ensures
        r@.len() == vals@.len(),
        forall|i: int| 0 <= i < vals@.len() ==> g2_val(#[trigger] r@[i]) == fr_val(vals@[i]),
        crate::algebra::g2_ok_seq(r@),
{
    let mut r: Vec<G2> = Vec::new();
    let mut i: usize = 0;
    while i < vals.len()
        invariant
            i <= vals@.len(),
            g2_val(*gen) == 1,
            crate::algebra::fr_ok_seq(vals@),
            r@.len() == i,
            forall|k: int| 0 <= k < i ==> g2_val(#[trigger] r@[k]) == fr_val(vals@[k]),
        decreases vals@.len() - i,
    {
        let p = g2_mul(gen, &vals[i]);
        proof {
            mod_small(fr_val(vals@[i as int]));
        }
        r.push(p);
        i = i + 1;
    }
    r
}

/// The combination `beta * a + alpha * b + c` for the variable range
/// `[lo, lo + len)`, optionally scaled by `scale`.
fn abc_range(
    alpha: &Fr,
    beta: &Fr,
    qa: &Vec<Fr>,
    qb: &Vec<Fr>,
    qc: &Vec<Fr>,
    lo: usize,
    len: usize,
    scale: &Fr,
    use_scale: bool,
) -> (r: Vec<Fr>)
    requires
        lo + len <= qa@.len(),
        qa@.len() == qb@.len(),
        qa@.len() == qc@.len(),
        crate::algebra::fr_ok_seq(qc@),
    ensures
        r@.len() == len,
        forall|v: int|
            0 <= v < len ==> fr_val(#[trigger] r@[v]) == if use_scale {
                ((((fr_val(*beta) as int) * fr_val(qa@[lo + v]) + (fr_val(*alpha) as int)
                    * fr_val(qb@[lo + v]) + fr_val(qc@[lo + v])) % qi()) * fr_val(*scale)) % qi()
            } else {
                ((fr_val(*beta) as int) * fr_val(qa@[lo + v]) + (fr_val(*alpha) as int) * fr_val(
                    qb@[lo + v],
                ) + fr_val(qc@[lo + v])) % qi()
            },
        crate::algebra::fr_ok_seq(r@),
{
    let mut r: Vec<Fr> = Vec::new();
    let qalen = qa.len();
    let mut v: usize = 0;
    while v < len
        invariant
            v <= len,
            lo + len <= qalen,
            qa@.len() == qalen,
            lo + len <= qa@.len(),
            qa@.len() == qb@.len(),
            qa@.len() == qc@.len(),
            crate::algebra::fr_ok_seq(qc@),
            r@.len() == v,
            forall|k: int|
                0 <= k < v ==> fr_val(#[trigger] r@[k]) == if use_scale {
                    ((((fr_val(*beta) as int) * fr_val(qa@[lo + k]) + (fr_val(*alpha) as int)
                        * fr_val(qb@[lo + k]) + fr_val(qc@[lo + k])) % qi()) * fr_val(*scale))
                        % qi()
                } else {
                    ((fr_val(*beta) as int) * fr_val(qa@[lo + k]) + (fr_val(*alpha) as int)
                        * fr_val(qb@[lo + k]) + fr_val(qc@[lo + k])) % qi()
                },
        decreases len - v,
    {
        let t1 = fr_mul(beta, &qa[lo + v]);
        let t2 = fr_mul(alpha, &qb[lo + v]);
        let s1 = crate::algebra::fr_add(&t1, &t2);
        let s2 = crate::algebra::fr_add(&s1, &qc[lo + v]);
        proof {
            let k = v as int;
            let x = (fr_val(*beta) as int) * fr_val(qa@[lo + k]);
            let y = (fr_val(*alpha) as int) * fr_val(qb@[lo + k]);
            let z = fr_val(qc@[lo + k]) as int;
            vstd::arithmetic::div_mod::lemma_add_mod_noop(x as int, y as int, qi());
            vstd::arithmetic::div_mod::lemma_add_mod_noop(x + y, z, qi());
            mod_small(fr_val(qc@[lo + k]));
        }
        if use_scale {
            let s3 = fr_mul(&s2, scale);
            r.push(s3);
        } else {
            r.push(s2);
        }
        v = v + 1;
    }
    proof {
        assert forall|k: int| 0 <= k < r@.len() implies fr_val(#[trigger] r@[k]) < q() by {
            if use_scale {
                mod_bound(((((fr_val(*beta) as int) * fr_val(qa@[lo + k]) + (fr_val(*alpha) as int)
                    * fr_val(qb@[lo + k]) + fr_val(qc@[lo + k])) % qi()) * fr_val(*scale)));
            } else {
                mod_bound(((fr_val(*beta) as int) * fr_val(qa@[lo + k]) + (fr_val(*alpha) as int)
                    * fr_val(qb@[lo + k]) + fr_val(qc@[lo + k])));
            }
        }
    }
    r
}

/// Key generation from given trapdoor scalars.  Fails with
/// `DegreeTooLarge` exactly when no evaluation domain fits the constraint
/// count, and with `UnexpectedIdentity` exactly when `gamma` or `delta`
/// is zero.
#[verifier::rlimit(100)]
pub fn generate_parameters(
    r1cs: &R1cs,
    commit_witness_count: usize,
    alpha: &Fr,
    beta: &Fr,
    delta: &Fr,
    eta: &Fr,
    gamma: &Fr,
    rng: &mut Rng,
) -> (r: Result<CcPVKey, Error>)
    requires
        r1cs.wf(),
        commit_witness_count <= r1cs.num_witness,
        r1cs.constraints@.len() + r1cs.num_instance <= usize::MAX,
    ensures
        r is Err ==> (r->Err_0 == Error::DegreeTooLarge || r->Err_0 == Error::UnexpectedIdentity),
        r matches Err(e) && e == Error::DegreeTooLarge <==> r1cs.constraints@.len()
            + r1cs.num_instance > max_domain_size(),
        r matches Err(e) && e == Error::UnexpectedIdentity <==> (r1cs.constraints@.len()
            + r1cs.num_instance <= max_domain_size() && (fr_val(*gamma) == 0 || fr_val(*delta)
            == 0)),
        r is Ok ==> exists|tval: nat, dsize: nat, ginv: nat, dinv: nat|
            dsize == domain_size_for((r1cs.constraints@.len() + r1cs.num_instance) as nat) && dsize
                >= r1cs.constraints@.len() + r1cs.num_instance && is_pow2(dsize) && sample_ok(
                tval,
                dsize,
            ) && cc_keys_rel(
                *r1cs,
                commit_witness_count as nat,
                fr_val(*alpha),
                fr_val(*beta),
                fr_val(*delta),
                fr_val(*eta),
                fr_val(*gamma),
                tval,
                dsize,
                ginv,
                dinv,
                r->Ok_0,
            ),
{
    let domain_size_req = r1cs.constraints.len() + r1cs.num_instance;
    let domain = match domain_new(domain_size_req) {
        Some(d) => d,
        None => {
            return Err(Error::DegreeTooLarge);
        },
    };
    let t = domain_sample_outside(&domain, rng);
    let gamma_inverse = match fr_inverse(gamma) {
        Some(v) => v,
        None => {
            return Err(Error::UnexpectedIdentity);
        },
    };
    let delta_inverse = match fr_inverse(delta) {
        Some(v) => v,
        None => {
            return Err(Error::UnexpectedIdentity);
        },
    };

    let qap = R1CStoQAP::instance_map_with_evaluation(r1cs, &domain, &t);
    let n = crate::algebra::domain_size(&domain);

    let g1_gen = g1_generator();
    let g2_gen = g2_generator();

    let a_query = gen_mul_vec_g1(&g1_gen, &qap.a);
    let b_g1_query = gen_mul_vec_g1(&g1_gen, &qap.b);
    let b_g2_query = gen_mul_vec_g2(&g2_gen, &qap.b);

    // h_query[i] = zt * delta^{-1} * t^i over the generator.
    let zd = fr_mul(&qap.zt, &delta_inverse);
    let mut h_scalars: Vec<Fr> = Vec::new();
    let mut tpow = crate::algebra::fr_one();
    let mut i: usize = 0;
    let hlen = n - 1;
    while i < hlen
        invariant
            i <= hlen,
            fr_val(tpow) == pow_mod(fr_val(t), i as nat),
            h_scalars@.len() == i,
            forall|k: int|
                0 <= k < i ==> fr_val(#[trigger] h_scalars@[k]) == (fr_val(zd) * pow_mod(
                    fr_val(t),
                    k as nat,
                )) % q(),
        decreases hlen - i,
    {
        let coeff = fr_mul(&zd, &tpow);
        h_scalars.push(coeff);
        let next = fr_mul(&tpow, &t);
        proof {
            assert(pow_mod(fr_val(t), (i + 1) as nat) == (fr_val(t) * pow_mod(
                fr_val(t),
                i as nat,
            )) % q());
            crate::arith::pow_mod_bound(fr_val(t), i as nat);
            mod_small(pow_mod(fr_val(t), i as nat));
            vstd::arithmetic::div_mod::lemma_mul_mod_noop(
                fr_val(tpow) as int,
                fr_val(t) as int,
                qi(),
            );
            vstd::arithmetic::mul::lemma_mul_is_commutative(fr_val(tpow) as int, fr_val(t) as int);
        }
        tpow = next;
        i = i + 1;
    }
    proof {
        assert forall|k: int| 0 <= k < h_scalars@.len() implies fr_val(
            #[trigger] h_scalars@[k],
        ) < q() by {
            mod_bound((fr_val(zd) * pow_mod(fr_val(t), k as nat)) as int);
        }
    }
    let h_query = gen_mul_vec_g1(&g1_gen, &h_scalars);

    let one = crate::algebra::fr_one();
    let instance_abc = abc_range(
        alpha,
        beta,
        &qap.a,
        &qap.b,
        &qap.c,
        0,
        r1cs.num_instance,
        &one,
        false,
    );
    let comm_abc = abc_range(
        alpha,
        beta,
        &qap.a,
        &qap.b,
        &qap.c,
        r1cs.num_instance,
        commit_witness_count,
        &gamma_inverse,
        true,
    );
    let ucomm_len = r1cs.num_witness - commit_witness_count;
    let ucomm_abc = abc_range(
        alpha,
        beta,
        &qap.a,
        &qap.b,
        &qap.c,
        r1cs.num_instance + commit_witness_count,
        ucomm_len,
        &delta_inverse,
        true,
    );
    let instance_abc_query = gen_mul_vec_g1(&g1_gen, &instance_abc);
    let comm_wit_abc_query = gen_mul_vec_g1(&g1_gen, &comm_abc);
    let ucomm_wit_abc_query = gen_mul_vec_g1(&g1_gen, &ucomm_abc);

    let alpha_g1 = g1_mul(&g1_gen, alpha);
    let beta_g1 = g1_mul(&g1_gen, beta);
    let beta_g2 = g2_mul(&g2_gen, beta);
    let delta_g1 = g1_mul(&g1_gen, delta);
    let delta_g2 = g2_mul(&g2_gen, delta);
    let gamma_g2 = g2_mul(&g2_gen, gamma);
    let eta_delta_inv = fr_mul(eta, &delta_inverse);
    let eta_gamma_inv = fr_mul(eta, &gamma_inverse);
    let eta_delta_inv_g1 = g1_mul(&g1_gen, &eta_delta_inv);
    let eta_gamma_inv_g1 = g1_mul(&g1_gen, &eta_gamma_inv);
    proof {
        mod_bound((fr_val(*beta) * g2_val(g2_gen)) as int);
        mod_bound((fr_val(*delta) * g2_val(g2_gen)) as int);
        mod_bound((fr_val(*gamma) * g2_val(g2_gen)) as int);
    }
    let alpha_beta_gt = pairing(&alpha_g1, &beta_g2);
    let delta_g2_neg_pc = g2_neg(&delta_g2);
    let gamma_g2_neg_pc = g2_neg(&gamma_g2);

    let pk = ProvingKey {
        g1_generator: g1_gen,
        g2_generator: g2_gen,
        alpha_g1,
        beta_g1,
        beta_g2,
        delta_g1,
        delta_g2,
        eta_delta_inv_g1,
        eta_gamma_inv_g1,
        a_query,
        b_g1_query,
        b_g2_query,
        h_query,
        comm_wit_abc_query,
        ucomm_wit_abc_query,
        commit_witness_num: commit_witness_count,
    };
    let vk = VerifyingKey {
        g1_generator: g1_gen,
        g2_generator: g2_gen,
        alpha_beta_gt,
        delta_g2_neg_pc,
        gamma_g2_neg_pc,
        instance_abc_query,
        commit_witness_num: commit_witness_count,
    };
    let keys = CcPVKey { pk, vk };

    proof {
        let tval = fr_val(t);
        let dsize = dom_size(domain);
        let ginv = fr_val(gamma_inverse);
        let dinv = fr_val(delta_inverse);
        let u = u_at(dsize, tval);
        let avv = fr_val(*alpha);
        let bvv = fr_val(*beta);
        let dvv = fr_val(*delta);
        let evv = fr_val(*eta);
        let gvv = fr_val(*gamma);
        // alpha_beta_gt: ((a % q) * ((b % q) * 1 % q)) % q == (a * b) % q
        mod_mul_noop(avv as int, bvv as int);
        // negations: (0 - (x % q)) % q == (0 - x) % q
        mod_small(0);
        mod_sub_noop(0, dvv as int);
        mod_sub_noop(0, gvv as int);
        // eta products: ((e * inv) % q) % q == (e * inv) % q
        mod_bound((evv * dinv) as int);
        mod_small((evv * dinv) % q());
        mod_bound((evv * ginv) as int);
        mod_small((evv * ginv) % q());
        // the eta anchors: ((e * inv) % q * 1) % q == (e * inv) % q
        assert(g1_val(eta_delta_inv_g1) == (evv * dinv) % q());
        assert(g1_val(eta_gamma_inv_g1) == (evv * ginv) % q());
        // the quotient query entries carry the stated scalars
        assert forall|i2: int| 0 <= i2 < dsize - 1 implies g1_val(#[trigger] keys.pk.h_query@[i2])
            == ((((pow_mod(tval, dsize) - 1) % qi()) * dinv) % qi()) * pow_mod(tval, i2 as nat)
            % qi() by {
            assert(g1_val(keys.pk.h_query@[i2]) == fr_val(h_scalars@[i2]));
        }
        mod_bound((avv * bvv) as int);
        mod_bound(0 - (dvv as int));
        mod_bound(0 - (gvv as int));
        mod_bound(avv as int);
        mod_bound(bvv as int);
        mod_bound(dvv as int);
        assert(pk_shape(keys.pk, r1cs.num_vars(), r1cs.num_instance as nat, dsize));
        assert(vk_wf(keys.vk));
        assert(g1_val(keys.pk.alpha_g1) == avv % q());
        assert(gt_val(keys.vk.alpha_beta_gt) == (avv * bvv) % q());
        assert(g2_val(keys.vk.delta_g2_neg_pc) == (0 - dvv) % qi());
        assert(forall|v2: int|
            0 <= v2 < r1cs.num_vars() ==> g1_val(#[trigger] keys.pk.a_query@[v2]) == qap_a_at(
                *r1cs,
                u,
                v2,
            ) % qi());
        assert forall|v2: int| 0 <= v2 < r1cs.num_instance implies g1_val(
            #[trigger] keys.vk.instance_abc_query@[v2],
        ) == (bvv * qap_a_at(*r1cs, u, v2) + avv * qap_b_at(*r1cs, u, v2) + qap_c_at(*r1cs, u, v2))
            % qi() by {
            abc_norm(bvv, avv, qap_a_at(*r1cs, u, v2), qap_b_at(*r1cs, u, v2), qap_c_at(
                *r1cs,
                u,
                v2,
            ));
        }
        assert forall|v2: int| 0 <= v2 < commit_witness_count implies g1_val(
            #[trigger] keys.pk.comm_wit_abc_query@[v2],
        ) == ((bvv * qap_a_at(*r1cs, u, r1cs.num_instance + v2) + avv * qap_b_at(
            *r1cs,
            u,
            r1cs.num_instance + v2,
        ) + qap_c_at(*r1cs, u, r1cs.num_instance + v2)) % qi()) * ginv % qi() by {
            let w = r1cs.num_instance + v2;
            abc_norm(bvv, avv, qap_a_at(*r1cs, u, w), qap_b_at(*r1cs, u, w), qap_c_at(
                *r1cs,
                u,
                w,
            ));
        }
        assert forall|v2: int| 0 <= v2 < r1cs.num_vars() - r1cs.num_instance
            - commit_witness_count implies g1_val(#[trigger] keys.pk.ucomm_wit_abc_query@[v2]) == (
        (bvv * qap_a_at(*r1cs, u, r1cs.num_instance + commit_witness_count + v2) + avv * qap_b_at(
            *r1cs,
            u,
            r1cs.num_instance + commit_witness_count + v2,
        ) + qap_c_at(*r1cs, u, r1cs.num_instance + commit_witness_count + v2)) % qi()) * ginv0_or(
            dinv,
        ) % qi() by {
            let w = r1cs.num_instance + commit_witness_count + v2;
            abc_norm(bvv, avv, qap_a_at(*r1cs, u, w), qap_b_at(*r1cs, u, w), qap_c_at(
                *r1cs,
                u,
                w,
            ));
        }
        reveal(cc_keys_rel);
        assert(cc_keys_rel(
            *r1cs,
            commit_witness_count as nat,
            avv,
            bvv,
            dvv,
            evv,
            gvv,
            tval,
            dsize,
            ginv,
            dinv,
            keys,
        ));
        assert(dsize >= r1cs.constraints@.len() + r1cs.num_instance && is_pow2(dsize)
            && sample_ok(tval, dsize));
    }
    let result: Result<CcPVKey, Error> = Ok(keys);
    proof {
        assert(result->Ok_0 == keys);
        assert(exists|tv2: nat, ds2: nat, gi2: nat, di2: nat|
            ds2 == domain_size_for((r1cs.constraints@.len() + r1cs.num_instance) as nat) && ds2
                >= r1cs.constraints@.len() + r1cs.num_instance && is_pow2(ds2) && sample_ok(
                tv2,
                ds2,
            ) && cc_keys_rel(
                *r1cs,
                commit_witness_count as nat,
                fr_val(*alpha),
                fr_val(*beta),
                fr_val(*delta),
                fr_val(*eta),
                fr_val(*gamma),
                tv2,
                ds2,
                gi2,
                di2,
                result->Ok_0,
            )) by {
            assert(dom_size(domain) == domain_size_for(
                (r1cs.constraints@.len() + r1cs.num_instance) as nat,
            ) && dom_size(domain) >= r1cs.constraints@.len() + r1cs.num_instance && is_pow2(
                dom_size(domain),
            ) && sample_ok(fr_val(t), dom_size(domain)) && cc_keys_rel(
                *r1cs,
                commit_witness_count as nat,
                fr_val(*alpha),
                fr_val(*beta),
                fr_val(*delta),
                fr_val(*eta),
                fr_val(*gamma),
                fr_val(t),
                dom_size(domain),
                fr_val(gamma_inverse),
                fr_val(delta_inverse),
                result->Ok_0,
            ));
        }
    }
    result
}

/// Key generation with freshly sampled trapdoors.  The trapdoors leave no
/// trace but the key relation; failure with `DegreeTooLarge` happens exactly
/// when no domain fits, and with `UnexpectedIdentity` only on the negligible
/// chance that a sampled trapdoor is zero.
pub fn generate_random_parameters(
    r1cs: &R1cs,
    commit_witness_count: usize,
    rng: &mut Rng,
) -> (r: Result<CcPVKey, Error>)
    requires
        r1cs.wf(),
        commit_witness_count <= r1cs.num_witness,
        r1cs.constraints@.len() + r1cs.num_instance <= usize::MAX,
    ensures
        r is Err ==> (r->Err_0 == Error::DegreeTooLarge || r->Err_0 == Error::UnexpectedIdentity),
        r matches Err(e) && e == Error::DegreeTooLarge <==> r1cs.constraints@.len()
            + r1cs.num_instance > max_domain_size(),
        r is Ok ==> exists|
            av: nat,
            bv: nat,
            dv: nat,
            ev: nat,
            gv: nat,
            tval: nat,
            dsize: nat,
            ginv: nat,
            dinv: nat,
        |
            dsize == domain_size_for((r1cs.constraints@.len() + r1cs.num_instance) as nat) && dsize
                >= r1cs.constraints@.len() + r1cs.num_instance && is_pow2(dsize) && sample_ok(
                tval,
                dsize,
            ) && cc_keys_rel(
                *r1cs,
                commit_witness_count as nat,
                av,
                bv,
                dv,
                ev,
                gv,
                tval,
                dsize,
                ginv,
                dinv,
                r->Ok_0,
            ),
{
    let alpha = fr_rand(rng);
    let beta = fr_rand(rng);
    let delta = fr_rand(rng);
    let eta = fr_rand(rng);
    let gamma = fr_rand(rng);
    generate_parameters(r1cs, commit_witness_count, &alpha, &beta, &delta, &eta, &gamma, rng)
}

/// Reducing each part of `bv*qa + av*qb + qc` before summing does not
/// change the sum's residue.
proof fn abc_norm(bv: nat, av: nat, qa: int, qb: int, qc: int)
    ensures
        ((bv as int) * (qa % qi()) + (av as int) * (qb % qi()) + (qc % qi())) % qi() == ((bv
            as int) * qa + (av as int) * qb + qc) % qi(),
{
    let x1 = (bv as int) * (qa % qi());
    let y1 = (av as int) * (qb % qi());
    let z1 = qc % qi();
    let x = (bv as int) * qa;
    let y = (av as int) * qb;
    vstd::arithmetic::div_mod::lemma_mul_mod_noop_right(bv as int, qa, qi());
    vstd::arithmetic::div_mod::lemma_mul_mod_noop_right(av as int, qb, qi());
    vstd::arithmetic::div_mod::lemma_mod_twice(qc, qi());
    vstd::arithmetic::div_mod::lemma_add_mod_noop(x1, y1, qi());
    vstd::arithmetic::div_mod::lemma_add_mod_noop(x, y, qi());
    vstd::arithmetic::div_mod::lemma_add_mod_noop(x1 + y1, z1, qi());
    vstd::arithmetic::div_mod::lemma_add_mod_noop(x + y, qc, qi());
    vstd::arithmetic::div_mod::lemma_mod_twice(x + y, qi());
    assert((x1 + y1) % qi() == (x + y) % qi());
    assert(((x1 + y1) + z1) % qi() == (((x1 + y1) % qi()) + (z1 % qi())) % qi());
    assert(z1 % qi() == qc % qi());
}

} // verus!
