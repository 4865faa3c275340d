//! Verification of a signature: the three sub-verifiers run on their shares
//! of the signature and all three must accept; the result is exactly their
//! conjunction, and rejection is an ordinary `false`.
use vstd::prelude::*;
use crate::algebra::{now_nanos, vals_fr, vals_g1, Fr, G1};
use crate::cc::verify::{cc_accepts, verify_proof};
use crate::link::snark::{c_combined, link_accepts, PESubspaceSnark};
use crate::lrs::structures::{pvkey_wf, signature_wf, LrsPVKey, Signature, VerifyTime};
use crate::r1cs::R1cs;
use crate::sma::structures::ring_wf;
use crate::sma::verify::{sma_accepts, verify_set_member_proof_opt};

verus! {

/// Checks a signature over the given ring and message against the long-term
/// key: the commit-carrying proof over the public instance, the membership
/// proof over the ring, and the linking proof over the vector
/// `[comm.c_g1, proof.D]`.  Returns exactly the conjunction of the three
/// sub-verifiers; the timing report is filled as a side effect.
pub fn verify(
    lrs_pvkey: &LrsPVKey,
    ring: &Vec<Fr>,
    message: &Vec<u8>,
    signature: &Signature,
    verify_time: &mut VerifyTime,
) -> (r: bool)
    requires
        exists|r1: R1cs, cc: nat, rs: nat| #[trigger] pvkey_wf(*lrs_pvkey, r1, cc, rs),
        signature_wf(*signature, *lrs_pvkey),
        ring_wf(ring@),
        2 <= ring@.len(),
        ring@.len() - 1 <= lrs_pvkey.crs_sma.ring_size_max,
    ensures
        r == (cc_accepts(lrs_pvkey.crs_cc.vk, signature.cc_proof, vals_fr(signature.instance@))
            && sma_accepts(
            message@,
            lrs_pvkey.crs_sma,
            signature.sma_comm,
            vals_fr(ring@),
            signature.sma_proof,
        ) && link_accepts(
            vals_g1(seq![signature.sma_comm.c_g1, signature.cc_proof.d]),
            c_combined(lrs_pvkey.crs_link.vk),
            crate::algebra::g2_val(lrs_pvkey.crs_link.vk.a@[0]),
            crate::algebra::g2_val(lrs_pvkey.crs_link.vk.a@[1]),
            crate::algebra::g1_val(signature.link_proof@[0]),
            crate::algebra::g1_val(signature.link_proof@[1]),
        )),
{
    let t_start = now_nanos();
    proof {
        let (r1, cc, rs) = choose|r1: R1cs, cc: nat, rs: nat| pvkey_wf(*lrs_pvkey, r1, cc, rs);
        assert(pvkey_wf(*lrs_pvkey, r1, cc, rs));
    }

    let cc_ok = verify_proof(&lrs_pvkey.crs_cc.vk, &signature.cc_proof, &signature.instance);
    let t_cc = now_nanos();
    verify_time.cc = if t_cc >= t_start {
        t_cc - t_start
    } else {
        0
    };

    let sma_ok = verify_set_member_proof_opt(
        message,
        &lrs_pvkey.crs_sma,
        &signature.sma_comm,
        ring,
        &signature.sma_proof,
    );
    let t_sma = now_nanos();
    verify_time.sma = if t_sma >= t_cc {
        t_sma - t_cc
    } else {
        0
    };

    let mut commitments: Vec<G1> = Vec::new();
    commitments.push(signature.sma_comm.c_g1);
    commitments.push(signature.cc_proof.d);
    let link_ok = PESubspaceSnark::verify(
        &lrs_pvkey.crs_link.pp,
        &lrs_pvkey.crs_link.vk,
        &commitments,
        &signature.link_proof,
    );
    let t_link = now_nanos();
    verify_time.link = if t_link >= t_sma {
        t_link - t_sma
    } else {
        0
    };
    verify_time.verify = if t_link >= t_start {
        t_link - t_start
    } else {
        0
    };

    proof {
        assert(commitments@ =~= seq![signature.sma_comm.c_g1, signature.cc_proof.d]);
        assert(vals_g1(commitments@) =~= vals_g1(
            seq![signature.sma_comm.c_g1, signature.cc_proof.d],
        ));
    }
    cc_ok && sma_ok && link_ok
}

} // verus!
