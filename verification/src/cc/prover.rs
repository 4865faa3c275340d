//! Proving for the commit-carrying proof system: the five proof elements as
//! stated combinations of the proving key, the assignment, the quotient
//! polynomial and the proving randomness, with the binding challenge drawn
//! from the proof's own transcript.
use vstd::prelude::*;
use crate::algebra::{dom_size, domain_new, domain_size_for, dot_vals, fr_add, fr_eq, fr_inverse,
    hash_fr,
    fr_mul, fr_rand, fr_val, fr_zero, g1_add, g1_mul, g1_serialize, g1_sub, g1_val, g2_mul,
    g2_serialize, g2_val, hash_to_field, max_domain_size, msm_g1, msm_g2, pow_mod, q, vals_fr,
    vals_g1, vals_g2, Fr, G1, G2, Rng};
use crate::arith::{inverse_unique, mod_add_noop, mod_add_noop_right, mod_bound, mod_small,
    mod_sub_noop, qi};
use crate::cc::r1cs_to_qap::{a_evals_spec, b_rows, bc_evals_spec, c_rows, h_chain, R1CStoQAP};
use crate::cc::structures::{cc_challenge, cc_transcript, pk_shape, proof_wf, Proof, ProvingKey};
use crate::error::Error;
use crate::link::matrix::scalar_vector_mult;
use crate::r1cs::{fr_concat, R1cs};
use crate::vecs::{bytes_extend, vec_skip, vec_tail, vec_take};
use crate::algebra::coset_offset;

verus! {

/// What a produced proof is, element by element, over the proving key, the
/// assignment representatives, the proving randomness `r_a`, `r_b`, `xi`,
/// `v`, the quotient coefficients `hvals`, and the inverse `invv` of
/// `xi + m` (with `m` the proof's own binding challenge).
pub open spec fn cc_proof_rel(
    pk: ProvingKey,
    instv: Seq<nat>,
    witv: Seq<nat>,
    rav: nat,
    rbv: nat,
    xiv: nat,
    vv: nat,
    p: Proof,
    hvals: Seq<nat>,
    invv: nat,
) -> bool {
    let m = cc_challenge(p);
    let asg = instv.skip(1) + witv;
    let nv = pk.a_query@.len() as int;
    let dpg1 = (xiv * g1_val(pk.delta_g1)) % q();
    let dpg2 = (xiv * g2_val(pk.delta_g2)) % q();
    let a_init = (rav * dpg1) % q();
    let b1_init = (rbv * dpg1) % q();
    let b2_init = (rbv * dpg2) % q();
    let b1v = (b1_init + g1_val(pk.b_g1_query@[0]) + dot_vals(
        asg,
        vals_g1(pk.b_g1_query@.subrange(1, nv)),
    ) + g1_val(pk.beta_g1)) % qi();
    let xmv = (xiv + m) % q();
    let sa = (((xiv * rav) % q()) * invv) % q();
    let sb = (((xiv * rbv) % q()) * invv) % q();
    let hs = Seq::new(hvals.len(), |i: int| (invv * hvals[i]) % q());
    let ucs = Seq::new(
        witv.skip(pk.commit_witness_num as int).len(),
        |i: int| (invv * witv.skip(pk.commit_witness_num as int)[i]) % q(),
    );
    let dterm = (((((sa * sb) % q()) * xmv) % q()) * g1_val(pk.delta_g1)) % q();
    let eterm = (((vv * invv) % q()) * g1_val(pk.eta_delta_inv_g1)) % q();
    &&& g2_val(p.delta_prime) == dpg2
    &&& (xmv * invv) % q() == 1
    &&& g1_val(p.a) == (a_init + g1_val(pk.a_query@[0]) + dot_vals(
        asg,
        vals_g1(pk.a_query@.subrange(1, nv)),
    ) + g1_val(pk.alpha_g1)) % qi()
    &&& g2_val(p.b) == (b2_init + g2_val(pk.b_g2_query@[0]) + dot_vals(
        asg,
        vals_g2(pk.b_g2_query@.subrange(1, nv)),
    ) + g2_val(pk.beta_g2)) % qi()
    &&& g1_val(p.d) == (vv * g1_val(pk.eta_gamma_inv_g1) + dot_vals(
        witv.take(pk.commit_witness_num as int),
        vals_g1(pk.comm_wit_abc_query@),
    )) % qi()
    &&& g1_val(p.c) == (dot_vals(ucs, vals_g1(pk.ucomm_wit_abc_query@)) + dot_vals(
        hs.take(pk.h_query@.len() as int),
        vals_g1(pk.h_query@),
    ) + sb * g1_val(p.a) + sa * b1v - dterm - eterm) % qi()
    &&& proof_wf(p)
}

/// The discrete logarithm of the proof element `A` the prover computes,
/// as a function of the key, the assignment and the randomness.
pub open spec fn cc_a_val(pk: ProvingKey, instv: Seq<nat>, witv: Seq<nat>, rav: nat, xiv: nat)
    -> nat {
    let asg = instv.skip(1) + witv;
    let nv = pk.a_query@.len() as int;
    ((((rav * ((xiv * g1_val(pk.delta_g1)) % q())) % q()) + g1_val(pk.a_query@[0]) + dot_vals(
        asg,
        vals_g1(pk.a_query@.subrange(1, nv)),
    ) + g1_val(pk.alpha_g1)) % qi()) as nat
}

/// The discrete logarithm of the proof element `B` (in the second group).
pub open spec fn cc_b_val(pk: ProvingKey, instv: Seq<nat>, witv: Seq<nat>, rbv: nat, xiv: nat)
    -> nat {
    let asg = instv.skip(1) + witv;
    let nv = pk.b_g2_query@.len() as int;
    ((((rbv * ((xiv * g2_val(pk.delta_g2)) % q())) % q()) + g2_val(pk.b_g2_query@[0]) + dot_vals(
        asg,
        vals_g2(pk.b_g2_query@.subrange(1, nv)),
    ) + g2_val(pk.beta_g2)) % qi()) as nat
}

/// The discrete logarithm of the commitment element `D`.
pub open spec fn cc_d_val(pk: ProvingKey, witv: Seq<nat>, vv: nat) -> nat {
    ((vv * g1_val(pk.eta_gamma_inv_g1) + dot_vals(
        witv.take(pk.commit_witness_num as int),
        vals_g1(pk.comm_wit_abc_query@),
    )) % qi()) as nat
}

/// The binding challenge the prover will derive: the transcript hash over
/// the `A`, `B`, `D` values above.
pub open spec fn cc_m_val(
    pk: ProvingKey,
    instv: Seq<nat>,
    witv: Seq<nat>,
    rav: nat,
    rbv: nat,
    xiv: nat,
    vv: nat,
) -> nat {
    hash_fr(
        cc_transcript(
            cc_a_val(pk, instv, witv, rav, xiv),
            cc_b_val(pk, instv, witv, rbv, xiv),
            cc_d_val(pk, witv, vv),
        ),
    )
}

/// The constraint system fits an evaluation domain.
pub open spec fn cc_sizes_ok(r1cs: R1cs) -> bool {
    r1cs.constraints@.len() + r1cs.num_instance <= max_domain_size()
}

/// The domain size the system is reduced over.
pub open spec fn cc_dsz(r1cs: R1cs) -> nat {
    domain_size_for((r1cs.constraints@.len() + r1cs.num_instance) as nat)
}

/// The coset's constant vanishing value is nonzero for this domain size.
pub open spec fn coset_ok(dsz: nat) -> bool {
    (pow_mod(coset_offset(), dsz) - 1) % qi() != 0
}

/// The residue inverse of the coset's constant vanishing value (the unique
/// one below the modulus, when it exists).
pub open spec fn zc_inv(dsz: nat) -> nat {
    choose|zci: nat|
        zci < q() && #[trigger] ((((pow_mod(coset_offset(), dsz) - 1) % qi()) * zci) % qi())
            == 1
}

/// The quotient coefficients the witness map yields for this instance: a
/// deterministic function of the system and the assignment.
pub open spec fn cc_h_of(r1cs: R1cs, instv: Seq<nat>, witv: Seq<nat>) -> Seq<nat> {
    h_chain(
        cc_dsz(r1cs),
        a_evals_spec(r1cs, instv, instv + witv, cc_dsz(r1cs)),
        bc_evals_spec(b_rows(r1cs.constraints@), instv + witv, cc_dsz(r1cs)),
        bc_evals_spec(c_rows(r1cs.constraints@), instv + witv, cc_dsz(r1cs)),
        zc_inv(cc_dsz(r1cs)),
    )
}

/// The quotient's top coefficient vanishes, as domain sizing demands.
pub open spec fn cc_h_top_zero(r1cs: R1cs, instv: Seq<nat>, witv: Seq<nat>) -> bool {
    cc_h_of(r1cs, instv, witv)[cc_dsz(r1cs) - 1] == 0
}

/// The derived scalar `xi + m` vanishes (the negligible-probability draw on
/// which proving must fail).
pub open spec fn cc_xm_zero(
    pk: ProvingKey,
    instv: Seq<nat>,
    witv: Seq<nat>,
    rav: nat,
    rbv: nat,
    xiv: nat,
    vv: nat,
) -> bool {
    (xiv + cc_m_val(pk, instv, witv, rav, rbv, xiv, vv)) % q() == 0
}

/// One accumulation `initial + query[0] + sum assignment * query[1..] +
/// shift`, in the first group.
#[verifier::rlimit(50)]
fn calculate_coeff(initial: &G1, query: &Vec<G1>, shift: &G1, assignment: &Vec<Fr>) -> (r: G1)
    requires
        query@.len() == assignment@.len() + 1,
    ensures
        g1_val(r) == (g1_val(*initial) + g1_val(query@[0]) + dot_vals(
            vals_fr(assignment@),
            vals_g1(query@.subrange(1, query@.len() as int)),
        ) + g1_val(*shift)) % qi(),
{
    let tail = vec_tail(query);
    let acc = msm_g1(&tail, assignment);
    let s1 = g1_add(initial, &query[0]);
    let s2 = g1_add(&s1, &acc);
    let r = g1_add(&s2, shift);
    proof {
        let iv = g1_val(*initial) as int;
        let q0 = g1_val(query@[0]) as int;
        let d = dot_vals(vals_fr(assignment@), vals_g1(query@.subrange(1, query@.len() as int)));
        mod_add_noop_right(iv + q0, d);
        mod_add_noop_right(g1_val(*shift) as int, iv + q0 + d);
    }
    r
}

/// The same accumulation in the second group, over subgroup elements.
#[verifier::rlimit(50)]
fn calculate_coeff_g2(initial: &G2, query: &Vec<G2>, shift: &G2, assignment: &Vec<Fr>) -> (r: G2)
    requires
        query@.len() == assignment@.len() + 1,
        g2_val(*initial) < q(),
        g2_val(*shift) < q(),
        crate::algebra::g2_ok_seq(query@),
    ensures
        g2_val(r) == (g2_val(*initial) + g2_val(query@[0]) + dot_vals(
            vals_fr(assignment@),
            vals_g2(query@.subrange(1, query@.len() as int)),
        ) + g2_val(*shift)) % qi(),
        g2_val(r) < q(),
{
    let tail = vec_tail(query);
    proof {
        assert(crate::algebra::g2_ok_seq(tail@));
    }
    let acc = msm_g2(&tail, assignment);
    proof {
        crate::arith::dot_nonneg(vals_fr(assignment@), vals_g2(tail@));
        mod_bound(dot_vals(vals_fr(assignment@), vals_g2(tail@)));
    }
    let s1 = crate::algebra::g2_add(initial, &query[0]);
    proof {
        mod_bound((g2_val(*initial) + g2_val(query@[0])) as int);
    }
    let s2 = crate::algebra::g2_add(&s1, &acc);
    proof {
        mod_bound((g2_val(s1) + g2_val(acc)) as int);
    }
    let r = crate::algebra::g2_add(&s2, shift);
    proof {
        let iv = g2_val(*initial) as int;
        let q0 = g2_val(query@[0]) as int;
        let d = dot_vals(vals_fr(assignment@), vals_g2(query@.subrange(1, query@.len() as int)));
        mod_add_noop_right(iv + q0, d);
        mod_add_noop_right(g2_val(*shift) as int, iv + q0 + d);
        mod_bound((iv + q0 + d + g2_val(*shift)) as int);
    }
    r
}

/// Produces a proof from the given proving randomness, together with the
/// raw committed-witness values.  Fails fast, before emitting anything, when
/// the assignment does not match the system, when no domain fits, when a
/// derived scalar has no inverse, or when the quotient's top coefficient
/// does not vanish — each case characterized exactly, so success is owed
/// whenever none applies and the result is a function of the inputs.
#[verifier::rlimit(100)]
pub fn create_proof(
    r1cs: &R1cs,
    instance: &Vec<Fr>,
    witness: &Vec<Fr>,
    pk: &ProvingKey,
    r_a: &Fr,
    r_b: &Fr,
    xi: &Fr,
    v: &Fr,
) -> (r: Result<(Proof, Vec<Fr>), Error>)
    requires
        r1cs.wf(),
        r1cs.constraints@.len() + r1cs.num_instance <= usize::MAX,
        pk_shape(
            *pk,
            r1cs.num_vars(),
            r1cs.num_instance as nat,
            domain_size_for((r1cs.constraints@.len() + r1cs.num_instance) as nat),
        ),
        pk.commit_witness_num <= r1cs.num_witness,
    ensures
        r matches Err(e) && e == Error::AssignmentMissing <==> !(instance@.len()
            == r1cs.num_instance && witness@.len() == r1cs.num_witness),
        r matches Err(e) && e == Error::DegreeTooLarge <==> (instance@.len()
            == r1cs.num_instance && witness@.len() == r1cs.num_witness && !cc_sizes_ok(*r1cs)),
        r matches Err(e) && e == Error::UnexpectedIdentity <==> (instance@.len()
            == r1cs.num_instance && witness@.len() == r1cs.num_witness && cc_sizes_ok(*r1cs) && (
        !coset_ok(cc_dsz(*r1cs)) || (cc_h_top_zero(*r1cs, vals_fr(instance@), vals_fr(witness@))
            && cc_xm_zero(
            *pk,
            vals_fr(instance@),
            vals_fr(witness@),
            fr_val(*r_a),
            fr_val(*r_b),
            fr_val(*xi),
            fr_val(*v),
        )))),
        r matches Err(e) && e == Error::QuotientNotDivisible <==> (instance@.len()
            == r1cs.num_instance && witness@.len() == r1cs.num_witness && cc_sizes_ok(*r1cs)
            && coset_ok(cc_dsz(*r1cs)) && !cc_h_top_zero(
            *r1cs,
            vals_fr(instance@),
            vals_fr(witness@),
        )),
        r is Ok <==> (instance@.len() == r1cs.num_instance && witness@.len()
            == r1cs.num_witness && cc_sizes_ok(*r1cs) && coset_ok(cc_dsz(*r1cs))
            && cc_h_top_zero(*r1cs, vals_fr(instance@), vals_fr(witness@)) && !cc_xm_zero(
            *pk,
            vals_fr(instance@),
            vals_fr(witness@),
            fr_val(*r_a),
            fr_val(*r_b),
            fr_val(*xi),
            fr_val(*v),
        )),
        r is Ok ==> r->Ok_0.1@ == witness@.take(pk.commit_witness_num as int),
        r is Ok ==> exists|zcinv: nat, invv: nat|
            zcinv < q() && #[trigger] cc_proof_rel(
                *pk,
                vals_fr(instance@),
                vals_fr(witness@),
                fr_val(*r_a),
                fr_val(*r_b),
                fr_val(*xi),
                fr_val(*v),
                r->Ok_0.0,
                h_chain(
                    domain_size_for((r1cs.constraints@.len() + r1cs.num_instance) as nat),
                    a_evals_spec(
                        *r1cs,
                        vals_fr(instance@),
                        vals_fr(instance@ + witness@),
                        domain_size_for((r1cs.constraints@.len() + r1cs.num_instance) as nat),
                    ),
                    bc_evals_spec(
                        b_rows(r1cs.constraints@),
                        vals_fr(instance@ + witness@),
                        domain_size_for((r1cs.constraints@.len() + r1cs.num_instance) as nat),
                    ),
                    bc_evals_spec(
                        c_rows(r1cs.constraints@),
                        vals_fr(instance@ + witness@),
                        domain_size_for((r1cs.constraints@.len() + r1cs.num_instance) as nat),
                    ),
                    zcinv,
                ),
                invv,
            ) && (((pow_mod(
                coset_offset(),
                domain_size_for((r1cs.constraints@.len() + r1cs.num_instance) as nat),
            ) - 1) % qi()) * zcinv) % qi() == 1,
{
    if !(instance.len() == r1cs.num_instance && witness.len() == r1cs.num_witness) {
        return Err(Error::AssignmentMissing);
    }
    let dn = r1cs.constraints.len() + r1cs.num_instance;
    let domain = match domain_new(dn) {
        Some(d) => d,
        None => {
            return Err(Error::DegreeTooLarge);
        },
    };
    let n = crate::algebra::domain_size(&domain);
    let h = match R1CStoQAP::witness_map(r1cs, instance, witness, &domain) {
        Ok(h) => h,
        Err(e) => {
            return Err(e);
        },
    };
    let ghost dsz = dom_size(domain);
    let ghost aev = a_evals_spec(*r1cs, vals_fr(instance@), vals_fr(instance@ + witness@), dsz);
    let ghost bev = bc_evals_spec(b_rows(r1cs.constraints@), vals_fr(instance@ + witness@), dsz);
    let ghost cev = bc_evals_spec(c_rows(r1cs.constraints@), vals_fr(instance@ + witness@), dsz);
    let ghost zcw = choose|zc: nat|
        zc < q() && (((pow_mod(coset_offset(), dsz) - 1) % qi()) * zc) % qi() == 1 && vals_fr(h@)
            == h_chain(dsz, aev, bev, cev, zc);
    proof {
        assert(zcw < q() && (((pow_mod(coset_offset(), dsz) - 1) % qi()) * zcw) % qi() == 1
            && vals_fr(h@) == h_chain(dsz, aev, bev, cev, zcw));
        // the chosen inverse is the unique residue inverse, so the computed
        // quotient is the deterministic one
        let zcv = (pow_mod(coset_offset(), dsz) - 1) % qi();
        assert(exists|zci: nat| zci < q() && #[trigger] ((zcv * zci) % qi()) == 1) by {
            assert(zcw < q() && (zcv * zcw) % qi() == 1);
        }
        assert(zc_inv(dsz) < q() && (zcv * zc_inv(dsz)) % qi() == 1);
        inverse_unique(zcv, zc_inv(dsz), zcw);
        assert(vals_fr(instance@ + witness@) =~= vals_fr(instance@) + vals_fr(witness@));
        assert(cc_h_of(*r1cs, vals_fr(instance@), vals_fr(witness@)) == vals_fr(h@));
    }
    let zero = fr_zero();
    if !fr_eq(&h[n - 1], &zero) {
        proof {
            assert(vals_fr(h@)[n - 1] == fr_val(h@[n - 1]));
            assert(!cc_h_top_zero(*r1cs, vals_fr(instance@), vals_fr(witness@)));
        }
        return Err(Error::QuotientNotDivisible);
    }
    proof {
        assert(cc_h_top_zero(*r1cs, vals_fr(instance@), vals_fr(witness@)));
    }

    let ccount = pk.commit_witness_num;
    let committed = vec_take(witness, ccount);
    let uncommitted = vec_skip(witness, ccount);
    let instance_rest = vec_skip(instance, 1);
    let assignment = fr_concat(&instance_rest, witness);
    proof {
        assert(vals_fr(assignment@) =~= vals_fr(instance@).skip(1) + vals_fr(witness@));
        assert(assignment@.len() + 1 == r1cs.num_vars());
    }

    let delta_g1_prime = g1_mul(&pk.delta_g1, xi);
    let delta_g2_prime = g2_mul(&pk.delta_g2, xi);
    proof {
        mod_bound((fr_val(*xi) * g2_val(pk.delta_g2)) as int);
    }

    let a_init = g1_mul(&delta_g1_prime, r_a);
    let g_a = calculate_coeff(&a_init, &pk.a_query, &pk.alpha_g1, &assignment);

    let b1_init = g1_mul(&delta_g1_prime, r_b);
    let g1_b = calculate_coeff(&b1_init, &pk.b_g1_query, &pk.beta_g1, &assignment);

    let b2_init = g2_mul(&delta_g2_prime, r_b);
    proof {
        mod_bound((fr_val(*r_b) * g2_val(delta_g2_prime)) as int);
    }
    let g2_b = calculate_coeff_g2(&b2_init, &pk.b_g2_query, &pk.beta_g2, &assignment);

    let d_blind = g1_mul(&pk.eta_gamma_inv_g1, v);
    let d_comm = msm_g1(&pk.comm_wit_abc_query, &committed);
    let g_d = g1_add(&d_blind, &d_comm);
    proof {
        mod_add_noop(
            (fr_val(*v) * g1_val(pk.eta_gamma_inv_g1)) as int,
            dot_vals(vals_fr(committed@), vals_g1(pk.comm_wit_abc_query@)),
        );
    }

    let ghost instv = vals_fr(instance@);
    let ghost witv = vals_fr(witness@);
    proof {
        assert(g1_val(g_a) == cc_a_val(*pk, instv, witv, fr_val(*r_a), fr_val(*xi)));
        assert(g2_val(g2_b) == cc_b_val(*pk, instv, witv, fr_val(*r_b), fr_val(*xi)));
        assert(vals_fr(committed@) =~= witv.take(pk.commit_witness_num as int));
        assert(g1_val(g_d) == cc_d_val(*pk, witv, fr_val(*v)));
    }

    let mut bytes = g1_serialize(&g_a);
    let b_bytes = g2_serialize(&g2_b);
    let d_bytes = g1_serialize(&g_d);
    bytes_extend(&mut bytes, &b_bytes);
    bytes_extend(&mut bytes, &d_bytes);
    let m_hash = hash_to_field(&bytes);
    proof {
        assert(bytes@ =~= cc_transcript(
            cc_a_val(*pk, instv, witv, fr_val(*r_a), fr_val(*xi)),
            cc_b_val(*pk, instv, witv, fr_val(*r_b), fr_val(*xi)),
            cc_d_val(*pk, witv, fr_val(*v)),
        ));
        assert(fr_val(m_hash) == cc_m_val(
            *pk,
            instv,
            witv,
            fr_val(*r_a),
            fr_val(*r_b),
            fr_val(*xi),
            fr_val(*v),
        ));
    }

    let xm = fr_add(xi, &m_hash);
    let inv = match fr_inverse(&xm) {
        Some(i) => i,
        None => {
            proof {
                assert(cc_xm_zero(
                    *pk,
                    instv,
                    witv,
                    fr_val(*r_a),
                    fr_val(*r_b),
                    fr_val(*xi),
                    fr_val(*v),
                ));
            }
            return Err(Error::UnexpectedIdentity);
        },
    };
    proof {
        assert(!cc_xm_zero(
            *pk,
            instv,
            witv,
            fr_val(*r_a),
            fr_val(*r_b),
            fr_val(*xi),
            fr_val(*v),
        ));
    }
    let s_a = fr_mul(&fr_mul(xi, r_a), &inv);
    let s_b = fr_mul(&fr_mul(xi, r_b), &inv);

    let h_scaled = scalar_vector_mult(&inv, &h, n);
    let h_used = vec_take(&h_scaled, n - 1);
    let h_acc = msm_g1(&pk.h_query, &h_used);

    let uc_scaled = scalar_vector_mult(&inv, &uncommitted, ccount);
    let uc_acc = msm_g1(&pk.ucomm_wit_abc_query, &uc_scaled);

    let s_ab_xm = fr_mul(&fr_mul(&s_a, &s_b), &xm);
    let dterm_pt = g1_mul(&pk.delta_g1, &s_ab_xm);
    let v_inv = fr_mul(v, &inv);
    let eterm_pt = g1_mul(&pk.eta_delta_inv_g1, &v_inv);

    let c1 = g1_add(&uc_acc, &h_acc);
    let c2 = g1_add(&c1, &g1_mul(&g_a, &s_b));
    let c3 = g1_add(&c2, &g1_mul(&g1_b, &s_a));
    let c4 = g1_sub(&c3, &dterm_pt);
    let g_c = g1_sub(&c4, &eterm_pt);

    let proof_out = Proof { a: g_a, b: g2_b, c: g_c, d: g_d, delta_prime: delta_g2_prime };

    proof {
        let instv = vals_fr(instance@);
        let witv = vals_fr(witness@);
        let asg = instv.skip(1) + witv;
        let nv = pk.a_query@.len() as int;
        let invv = fr_val(inv);
        let hvals = vals_fr(h@);
        let sav = fr_val(s_a);
        let sbv = fr_val(s_b);
        let ucd = dot_vals(vals_fr(uc_scaled@), vals_g1(pk.ucomm_wit_abc_query@));
        let hd = dot_vals(vals_fr(h_used@), vals_g1(pk.h_query@));

        assert(vals_fr(committed@) =~= witv.take(ccount as int));
        assert(vals_fr(uncommitted@) =~= witv.skip(ccount as int));
        assert(vals_fr(uc_scaled@) =~= Seq::new(
            witv.skip(ccount as int).len(),
            |i: int| (invv * witv.skip(ccount as int)[i]) % q(),
        ));
        assert(vals_fr(h_used@) =~= Seq::new(hvals.len(), |i: int| (invv * hvals[i]) % q()).take(
            pk.h_query@.len() as int,
        ));

        // the chained C accumulation equals the stated sum
        let t3 = (sbv * g1_val(g_a)) as int;
        let t4 = (sav * g1_val(g1_b)) as int;
        mod_add_noop(ucd, hd);
        mod_add_noop_right(ucd + hd, t3);
        mod_small((t3 % qi()) as nat);
        mod_add_noop(ucd + hd, t3);
        mod_add_noop(ucd + hd + t3, t4);
        mod_small(g1_val(dterm_pt));
        mod_sub_noop(ucd + hd + t3 + t4, g1_val(dterm_pt) as int);
        mod_small(g1_val(eterm_pt));
        mod_sub_noop(ucd + hd + t3 + t4 - g1_val(dterm_pt), g1_val(eterm_pt) as int);

        assert(cc_proof_rel(
            *pk,
            instv,
            witv,
            fr_val(*r_a),
            fr_val(*r_b),
            fr_val(*xi),
            fr_val(*v),
            proof_out,
            hvals,
            invv,
        ));
        assert(#[trigger] cc_proof_rel(
            *pk,
            instv,
            witv,
            fr_val(*r_a),
            fr_val(*r_b),
            fr_val(*xi),
            fr_val(*v),
            proof_out,
            h_chain(dsz, aev, bev, cev, zcw),
            invv,
        ) && (((pow_mod(coset_offset(), dsz) - 1) % qi()) * zcw) % qi() == 1);
        let dn2 = (r1cs.constraints@.len() + r1cs.num_instance) as nat;
        assert(dsz == domain_size_for(dn2));
        assert(exists|zcinv: nat, invv2: nat|
            zcinv < q() && #[trigger] cc_proof_rel(
                *pk,
                vals_fr(instance@),
                vals_fr(witness@),
                fr_val(*r_a),
                fr_val(*r_b),
                fr_val(*xi),
                fr_val(*v),
                proof_out,
                h_chain(
                    domain_size_for(dn2),
                    a_evals_spec(
                        *r1cs,
                        vals_fr(instance@),
                        vals_fr(instance@ + witness@),
                        domain_size_for(dn2),
                    ),
                    bc_evals_spec(
                        b_rows(r1cs.constraints@),
                        vals_fr(instance@ + witness@),
                        domain_size_for(dn2),
                    ),
                    bc_evals_spec(
                        c_rows(r1cs.constraints@),
                        vals_fr(instance@ + witness@),
                        domain_size_for(dn2),
                    ),
                    zcinv,
                ),
                invv2,
            ) && (((pow_mod(coset_offset(), domain_size_for(dn2)) - 1) % qi()) * zcinv) % qi()
                == 1) by {
            assert(aev == a_evals_spec(
                *r1cs,
                vals_fr(instance@),
                vals_fr(instance@ + witness@),
                domain_size_for(dn2),
            ));
            assert(cc_proof_rel(
                *pk,
                vals_fr(instance@),
                vals_fr(witness@),
                fr_val(*r_a),
                fr_val(*r_b),
                fr_val(*xi),
                fr_val(*v),
                proof_out,
                h_chain(domain_size_for(dn2), aev, bev, cev, zcw),
                invv,
            ));
        }
    }
    let res: Result<(Proof, Vec<Fr>), Error> = Ok((proof_out, committed));
    proof {
        assert(res->Ok_0.0 == proof_out);
        assert(exists|zcinv: nat, invv2: nat|
            zcinv < q() && #[trigger] cc_proof_rel(
                *pk,
                vals_fr(instance@),
                vals_fr(witness@),
                fr_val(*r_a),
                fr_val(*r_b),
                fr_val(*xi),
                fr_val(*v),
                res->Ok_0.0,
                h_chain(
                    domain_size_for((r1cs.constraints@.len() + r1cs.num_instance) as nat),
                    a_evals_spec(
                        *r1cs,
                        vals_fr(instance@),
                        vals_fr(instance@ + witness@),
                        domain_size_for((r1cs.constraints@.len() + r1cs.num_instance) as nat),
                    ),
                    bc_evals_spec(
                        b_rows(r1cs.constraints@),
                        vals_fr(instance@ + witness@),
                        domain_size_for((r1cs.constraints@.len() + r1cs.num_instance) as nat),
                    ),
                    bc_evals_spec(
                        c_rows(r1cs.constraints@),
                        vals_fr(instance@ + witness@),
                        domain_size_for((r1cs.constraints@.len() + r1cs.num_instance) as nat),
                    ),
                    zcinv,
                ),
                invv2,
            ) && (((pow_mod(
                coset_offset(),
                domain_size_for((r1cs.constraints@.len() + r1cs.num_instance) as nat),
            ) - 1) % qi()) * zcinv) % qi() == 1);
    }
    res
}

/// Proving with freshly sampled zero-knowledge randomness; beside the proof
/// it hands back the raw committed-witness values and the commitment
/// blinding `v`, which the signature composition needs.
pub fn create_random_proof(
    r1cs: &R1cs,
    instance: &Vec<Fr>,
    witness: &Vec<Fr>,
    pk: &ProvingKey,
    rng: &mut Rng,
) -> (r: Result<(Proof, Vec<Fr>, Fr), Error>)
    requires
        r1cs.wf(),
        r1cs.constraints@.len() + r1cs.num_instance <= usize::MAX,
        pk_shape(
            *pk,
            r1cs.num_vars(),
            r1cs.num_instance as nat,
            domain_size_for((r1cs.constraints@.len() + r1cs.num_instance) as nat),
        ),
        pk.commit_witness_num <= r1cs.num_witness,
    ensures
        r matches Err(e) && e == Error::AssignmentMissing <==> !(instance@.len()
            == r1cs.num_instance && witness@.len() == r1cs.num_witness),
        r matches Err(e) && e == Error::DegreeTooLarge <==> (instance@.len()
            == r1cs.num_instance && witness@.len() == r1cs.num_witness && !cc_sizes_ok(*r1cs)),
        r matches Err(e) && e == Error::QuotientNotDivisible <==> (instance@.len()
            == r1cs.num_instance && witness@.len() == r1cs.num_witness && cc_sizes_ok(*r1cs)
            && coset_ok(cc_dsz(*r1cs)) && !cc_h_top_zero(
            *r1cs,
            vals_fr(instance@),
            vals_fr(witness@),
        )),
        r is Ok ==> (instance@.len() == r1cs.num_instance && witness@.len() == r1cs.num_witness
            && cc_sizes_ok(*r1cs) && coset_ok(cc_dsz(*r1cs)) && cc_h_top_zero(
            *r1cs,
            vals_fr(instance@),
            vals_fr(witness@),
        )),
        (instance@.len() == r1cs.num_instance && witness@.len() == r1cs.num_witness
            && cc_sizes_ok(*r1cs) && coset_ok(cc_dsz(*r1cs)) && cc_h_top_zero(
            *r1cs,
            vals_fr(instance@),
            vals_fr(witness@),
        )) ==> (r is Ok || (r matches Err(e) && e == Error::UnexpectedIdentity)),
        r is Ok ==> r->Ok_0.1@ == witness@.take(pk.commit_witness_num as int),
        r is Ok ==> fr_val(r->Ok_0.2) < q(),
        r is Ok ==> exists|rav: nat, rbv: nat, xiv: nat, zcinv: nat, invv: nat|
            zcinv < q() && (((pow_mod(coset_offset(), cc_dsz(*r1cs)) - 1) % qi()) * zcinv) % qi()
                == 1 && #[trigger] cc_proof_rel(
                *pk,
                vals_fr(instance@),
                vals_fr(witness@),
                rav,
                rbv,
                xiv,
                fr_val(r->Ok_0.2),
                r->Ok_0.0,
                h_chain(
                    domain_size_for((r1cs.constraints@.len() + r1cs.num_instance) as nat),
                    a_evals_spec(
                        *r1cs,
                        vals_fr(instance@),
                        vals_fr(instance@ + witness@),
                        domain_size_for((r1cs.constraints@.len() + r1cs.num_instance) as nat),
                    ),
                    bc_evals_spec(
                        b_rows(r1cs.constraints@),
                        vals_fr(instance@ + witness@),
                        domain_size_for((r1cs.constraints@.len() + r1cs.num_instance) as nat),
                    ),
                    bc_evals_spec(
                        c_rows(r1cs.constraints@),
                        vals_fr(instance@ + witness@),
                        domain_size_for((r1cs.constraints@.len() + r1cs.num_instance) as nat),
                    ),
                    zcinv,
                ),
                invv,
            ),
{
    let r_a = fr_rand(rng);
    let r_b = fr_rand(rng);
    let xi = fr_rand(rng);
    let v = fr_rand(rng);
    let result = create_proof(r1cs, instance, witness, pk, &r_a, &r_b, &xi, &v);
    match result {
        Ok((proof, committed)) => {
            proof {
                let ghost dn2 = (r1cs.constraints@.len() + r1cs.num_instance) as nat;
                let ghost dsz = domain_size_for(dn2);
                let ghost aev = a_evals_spec(
                    *r1cs,
                    vals_fr(instance@),
                    vals_fr(instance@ + witness@),
                    dsz,
                );
                let ghost bev = bc_evals_spec(
                    b_rows(r1cs.constraints@),
                    vals_fr(instance@ + witness@),
                    dsz,
                );
                let ghost cev = bc_evals_spec(
                    c_rows(r1cs.constraints@),
                    vals_fr(instance@ + witness@),
                    dsz,
                );
                let (zcw, invw) = choose|zcinv: nat, invv: nat|
                    zcinv < q() && #[trigger] cc_proof_rel(
                        *pk,
                        vals_fr(instance@),
                        vals_fr(witness@),
                        fr_val(r_a),
                        fr_val(r_b),
                        fr_val(xi),
                        fr_val(v),
                        proof,
                        h_chain(dsz, aev, bev, cev, zcinv),
                        invv,
                    ) && (((pow_mod(coset_offset(), dsz) - 1) % qi()) * zcinv) % qi() == 1;
                assert(zcw < q() && cc_proof_rel(
                    *pk,
                    vals_fr(instance@),
                    vals_fr(witness@),
                    fr_val(r_a),
                    fr_val(r_b),
                    fr_val(xi),
                    fr_val(v),
                    proof,
                    h_chain(dsz, aev, bev, cev, zcw),
                    invw,
                ) && (((pow_mod(coset_offset(), dsz) - 1) % qi()) * zcw) % qi() == 1);
                assert(dsz == cc_dsz(*r1cs));
            }
            let res: Result<(Proof, Vec<Fr>, Fr), Error> = Ok((proof, committed, v));
            proof {
                assert(res->Ok_0.0 == proof);
                assert(res->Ok_0.2 == v);
            }
            res
        },
        Err(e) => Err(e),
    }
}

} // verus!
