//! Signing: one commit-carrying proof over the circuit, one membership
//! commitment and proof over the ring, and one linking proof over the
//! witness vector `committed witnesses ++ [r, v]` that ties the two
//! commitments together.  All randomness comes from the caller's source.
use vstd::prelude::*;
use crate::algebra::{fr_val, now_nanos, q, vals_fr, Fr, Rng};
use crate::arith::qi;
use crate::cc::prover::{cc_dsz, cc_h_top_zero, cc_proof_rel, cc_sizes_ok, coset_ok,
    create_random_proof};
use crate::error::Error;
use crate::link::snark::PESubspaceSnark;
use crate::lrs::structures::{pvkey_wf, signature_wf, LrsPVKey, SignTime, Signature};
use crate::r1cs::R1cs;
use crate::algebra::{coset_offset, dot_vals, g1_val, pow_mod, vals_g1, G1};
use crate::link::snark::p_combined;
use crate::sma::prover::{set_member_proof_opt, sma_prover_rel};
use crate::sma::structures::ring_wf;
use crate::sma::utils::commit;
use crate::vecs::vec_take;

verus! {

/// The signer's fixed position in the ring.
pub open spec fn signer_index() -> int {
    1
}

/// Produces a signature over the message for the ring, with the signer's
/// value standing at the fixed ring position.  Fails exactly when the
/// commit-carrying prover does, with its deterministic failure cases
/// characterized exactly; the commit-carrying proof and the linking proof
/// share one blinding scalar, which ties the commitment `D` to the link
/// witness.  The timing report is filled as a side effect.
pub fn sign(
    lrs_pvkey: &LrsPVKey,
    r1cs: &R1cs,
    instance: &Vec<Fr>,
    witness: &Vec<Fr>,
    ring: &Vec<Fr>,
    message: &Vec<u8>,
    sign_time: &mut SignTime,
    rng: &mut Rng,
) -> (r: Result<Signature, Error>)
    requires
        r1cs.wf(),
        r1cs.constraints@.len() + r1cs.num_instance <= usize::MAX,
        pvkey_wf(
            *lrs_pvkey,
            *r1cs,
            lrs_pvkey.crs_cc.pk.commit_witness_num as nat,
            lrs_pvkey.crs_sma.ring_size_max as nat,
        ),
        lrs_pvkey.crs_cc.pk.commit_witness_num <= r1cs.num_witness,
        ring_wf(ring@),
        2 <= ring@.len(),
        ring@.len() - 1 <= lrs_pvkey.crs_sma.ring_size_max,
        instance@.len() + 1 == r1cs.num_instance,
    ensures
        r matches Err(e) && e == Error::AssignmentMissing <==> !(instance@.len() + 1
            == r1cs.num_instance && witness@.len() == r1cs.num_witness),
        r is Ok ==> signature_wf(r->Ok_0, *lrs_pvkey),
        r is Ok ==> r->Ok_0.instance@ == instance@,
        r is Ok ==> r->Ok_0.sma_proof.c_b_g2 == r->Ok_0.sma_comm.c_b_g2,
        r is Ok ==> sma_prover_rel(
            message@,
            lrs_pvkey.crs_sma,
            r->Ok_0.sma_comm,
            vals_fr(ring@),
            signer_index(),
            fr_val(r->Ok_0.sma_comm.r),
            fr_val(r->Ok_0.sma_comm.r_b),
            r->Ok_0.sma_proof,
        ),
        r is Ok ==> g1_val(r->Ok_0.sma_comm.c_g1) == ((fr_val(r->Ok_0.sma_comm.r) as int)
            + fr_val(ring@[signer_index()]) * g1_val(lrs_pvkey.crs_sma.crs_g1s@[1])) % qi(),
        r matches Err(e) && e == Error::DegreeTooLarge <==> (witness@.len()
            == r1cs.num_witness && !cc_sizes_ok(*r1cs)),
        r matches Err(e) && e == Error::QuotientNotDivisible <==> (witness@.len()
            == r1cs.num_witness && cc_sizes_ok(*r1cs) && coset_ok(cc_dsz(*r1cs))
            && !cc_h_top_zero(*r1cs, seq![1nat] + vals_fr(instance@), vals_fr(witness@))),
        r is Ok ==> (witness@.len() == r1cs.num_witness && cc_sizes_ok(*r1cs) && coset_ok(
            cc_dsz(*r1cs),
        ) && cc_h_top_zero(*r1cs, seq![1nat] + vals_fr(instance@), vals_fr(witness@))),
        (witness@.len() == r1cs.num_witness && cc_sizes_ok(*r1cs) && coset_ok(cc_dsz(*r1cs))
            && cc_h_top_zero(*r1cs, seq![1nat] + vals_fr(instance@), vals_fr(witness@))) ==> (r
            is Ok || (r matches Err(e) && e == Error::UnexpectedIdentity)),
        r is Ok ==> exists|rav: nat, rbv: nat, xiv: nat, vv: nat, zcinv: nat, invv: nat|
            vv < q() && zcinv < q() && (((pow_mod(coset_offset(), cc_dsz(*r1cs)) - 1) % qi())
                * zcinv) % qi() == 1 && #[trigger] cc_proof_rel(
                lrs_pvkey.crs_cc.pk,
                seq![1nat] + vals_fr(instance@),
                vals_fr(witness@),
                rav,
                rbv,
                xiv,
                vv,
                r->Ok_0.cc_proof,
                crate::cc::r1cs_to_qap::h_chain(
                    cc_dsz(*r1cs),
                    crate::cc::r1cs_to_qap::a_evals_spec(
                        *r1cs,
                        seq![1nat] + vals_fr(instance@),
                        (seq![1nat] + vals_fr(instance@)) + vals_fr(witness@),
                        cc_dsz(*r1cs),
                    ),
                    crate::cc::r1cs_to_qap::bc_evals_spec(
                        crate::cc::r1cs_to_qap::b_rows(r1cs.constraints@),
                        (seq![1nat] + vals_fr(instance@)) + vals_fr(witness@),
                        cc_dsz(*r1cs),
                    ),
                    crate::cc::r1cs_to_qap::bc_evals_spec(
                        crate::cc::r1cs_to_qap::c_rows(r1cs.constraints@),
                        (seq![1nat] + vals_fr(instance@)) + vals_fr(witness@),
                        cc_dsz(*r1cs),
                    ),
                    zcinv,
                ),
                invv,
            ) && g1_val(r->Ok_0.link_proof@[0]) == dot_vals(
                vals_fr(witness@.take(lrs_pvkey.crs_cc.pk.commit_witness_num as int)).push(
                    fr_val(r->Ok_0.sma_comm.r),
                ).push(vv),
                p_combined(lrs_pvkey.crs_link.ek, 0),
            ) % qi() && g1_val(r->Ok_0.link_proof@[1]) == dot_vals(
                vals_fr(witness@.take(lrs_pvkey.crs_cc.pk.commit_witness_num as int)).push(
                    fr_val(r->Ok_0.sma_comm.r),
                ).push(vv),
                p_combined(lrs_pvkey.crs_link.ek, 1),
            ) % qi(),
{
    let t_start = now_nanos();

    // the instance the commit-carrying prover takes leads with the constant
    // one
    let one = crate::algebra::fr_one();
    let mut full_instance: Vec<Fr> = Vec::new();
    full_instance.push(one);
    let instance_copy = vec_take(instance, instance.len());
    let mut k: usize = 0;
    while k < instance_copy.len()
        invariant
            k <= instance_copy@.len(),
            instance_copy@ == instance@,
            full_instance@.len() == k + 1,
            full_instance@ == seq![one].add(instance@.take(k as int)),
        decreases instance_copy@.len() - k,
    {
        full_instance.push(instance_copy[k]);
        proof {
            assert(full_instance@ =~= seq![one].add(instance@.take(k + 1)));
        }
        k = k + 1;
    }
    proof {
        assert(full_instance@ =~= seq![one].add(instance@));
        assert(vals_fr(full_instance@) =~= seq![1nat] + vals_fr(instance@));
        assert(vals_fr(full_instance@ + witness@) =~= (seq![1nat] + vals_fr(instance@)) + vals_fr(
            witness@,
        ));
        assert(vals_fr(full_instance@ + witness@) =~= vals_fr(full_instance@) + vals_fr(
            witness@,
        ));
    }

    let t_cc = now_nanos();
    let cc_result = create_random_proof(r1cs, &full_instance, witness, &lrs_pvkey.crs_cc.pk, rng);
    let (cc_proof, mut comm_witness, v) = match cc_result {
        Ok(t) => t,
        Err(e) => {
            return Err(e);
        },
    };
    let t_cc_done = now_nanos();
    sign_time.cc = if t_cc_done >= t_cc {
        t_cc_done - t_cc
    } else {
        0
    };

    let comm = commit(ring, &lrs_pvkey.crs_sma, 1, rng);
    let sma_proof = set_member_proof_opt(message, &lrs_pvkey.crs_sma, &comm, ring, 1, rng);
    let t_sma_done = now_nanos();
    sign_time.sma = if t_sma_done >= t_cc_done {
        t_sma_done - t_cc_done
    } else {
        0
    };

    comm_witness.push(comm.r);
    comm_witness.push(v);
    let link_proof = PESubspaceSnark::prove(
        &lrs_pvkey.crs_link.pp,
        &lrs_pvkey.crs_link.ek,
        &comm_witness,
    );
    let t_link_done = now_nanos();
    sign_time.link = if t_link_done >= t_sma_done {
        t_link_done - t_sma_done
    } else {
        0
    };
    sign_time.sign = if t_link_done >= t_start {
        t_link_done - t_start
    } else {
        0
    };

    let signature = Signature {
        sma_comm: comm,
        sma_proof,
        cc_proof,
        link_proof,
        instance: instance_copy,
    };
    let result: Result<Signature, Error> = Ok(signature);
    proof {
        let sig = result->Ok_0;
        let cc = lrs_pvkey.crs_cc.pk.commit_witness_num as int;
        assert(vals_fr(comm_witness@) =~= vals_fr(witness@.take(cc)).push(fr_val(sig.sma_comm.r))
            .push(fr_val(v)));
        assert(fr_val(v) < q() && g1_val(sig.link_proof@[0]) == dot_vals(
            vals_fr(witness@.take(cc)).push(fr_val(sig.sma_comm.r)).push(fr_val(v)),
            p_combined(lrs_pvkey.crs_link.ek, 0),
        ) % qi() && g1_val(sig.link_proof@[1]) == dot_vals(
            vals_fr(witness@.take(cc)).push(fr_val(sig.sma_comm.r)).push(fr_val(v)),
            p_combined(lrs_pvkey.crs_link.ek, 1),
        ) % qi());
        // the commit-carrying proof relation, with the same blinding that
        // closes the link witness
        let fiv = seq![1nat] + vals_fr(instance@);
        let witv = vals_fr(witness@);
        let dsz = cc_dsz(*r1cs);
        let (raw, rbw, xiw, zcw, invw) = choose|
            rav: nat,
            rbv: nat,
            xiv: nat,
            zcinv: nat,
            invv: nat,
        |
            zcinv < q() && (((pow_mod(coset_offset(), dsz) - 1) % qi()) * zcinv) % qi() == 1
                && #[trigger] cc_proof_rel(
                lrs_pvkey.crs_cc.pk,
                vals_fr(full_instance@),
                witv,
                rav,
                rbv,
                xiv,
                fr_val(v),
                sig.cc_proof,
                crate::cc::r1cs_to_qap::h_chain(
                    dsz,
                    crate::cc::r1cs_to_qap::a_evals_spec(
                        *r1cs,
                        vals_fr(full_instance@),
                        vals_fr(full_instance@ + witness@),
                        dsz,
                    ),
                    crate::cc::r1cs_to_qap::bc_evals_spec(
                        crate::cc::r1cs_to_qap::b_rows(r1cs.constraints@),
                        vals_fr(full_instance@ + witness@),
                        dsz,
                    ),
                    crate::cc::r1cs_to_qap::bc_evals_spec(
                        crate::cc::r1cs_to_qap::c_rows(r1cs.constraints@),
                        vals_fr(full_instance@ + witness@),
                        dsz,
                    ),
                    zcinv,
                ),
                invv,
            );
        assert(zcw < q() && (((pow_mod(coset_offset(), dsz) - 1) % qi()) * zcw) % qi() == 1
            && cc_proof_rel(
            lrs_pvkey.crs_cc.pk,
            fiv,
            witv,
            raw,
            rbw,
            xiw,
            fr_val(v),
            sig.cc_proof,
            crate::cc::r1cs_to_qap::h_chain(
                dsz,
                crate::cc::r1cs_to_qap::a_evals_spec(*r1cs, fiv, fiv + witv, dsz),
                crate::cc::r1cs_to_qap::bc_evals_spec(
                    crate::cc::r1cs_to_qap::b_rows(r1cs.constraints@),
                    fiv + witv,
                    dsz,
                ),
                crate::cc::r1cs_to_qap::bc_evals_spec(
                    crate::cc::r1cs_to_qap::c_rows(r1cs.constraints@),
                    fiv + witv,
                    dsz,
                ),
                zcw,
            ),
            invw,
        ));
    }
    result
}

} // verus!
