//! Key and proof objects of the commit-carrying proof system.
use vstd::prelude::*;
use crate::algebra::{fr_ok_seq, g1_val, g2_ok_seq, g2_val, gt_val, hash_fr, q, ser_g1, ser_g2, Fr,
    G1, G2, Gt};

verus! {

/// A proof: the commitment `D` to the committed witnesses under blinding
/// `v`, and the re-randomizing `delta_prime = xi * delta * G2`.
pub struct Proof {
    pub a: G1,
    pub b: G2,
    pub c: G1,
    pub d: G1,
    pub delta_prime: G2,
}

impl Clone for Proof {
    fn clone(&self) -> (r: Self)
        ensures
            r == *self,
    {
        Proof {
            a: self.a,
            b: self.b,
            c: self.c,
            d: self.d,
            delta_prime: self.delta_prime,
        }
    }
}

impl Copy for Proof {

}

/// Both second-group elements of a proof lie in the prime-order subgroup;
/// every proof this library produces does, and verification asks it of the
/// proofs it is handed.
pub open spec fn proof_wf(p: Proof) -> bool {
    &&& g2_val(p.b) < q()
    &&& g2_val(p.delta_prime) < q()
}

/// The verifying key.
pub struct VerifyingKey {
    pub g1_generator: G1,
    pub g2_generator: G2,
    pub alpha_beta_gt: Gt,
    pub delta_g2_neg_pc: G2,
    pub gamma_g2_neg_pc: G2,
    pub instance_abc_query: Vec<G1>,
    pub commit_witness_num: usize,
}

/// The second-group elements of the verifying key lie in the prime-order
/// subgroup, and the pairing constant in the pairing's image.
pub open spec fn vk_wf(vk: VerifyingKey) -> bool {
    &&& g2_val(vk.g2_generator) < q()
    &&& g2_val(vk.delta_g2_neg_pc) < q()
    &&& g2_val(vk.gamma_g2_neg_pc) < q()
    &&& gt_val(vk.alpha_beta_gt) < q()
    &&& vk.instance_abc_query@.len() >= 1
}

/// The proving key.
pub struct ProvingKey {
    pub g1_generator: G1,
    pub g2_generator: G2,
    pub alpha_g1: G1,
    pub beta_g1: G1,
    pub beta_g2: G2,
    pub delta_g1: G1,
    pub delta_g2: G2,
    pub eta_delta_inv_g1: G1,
    pub eta_gamma_inv_g1: G1,
    pub a_query: Vec<G1>,
    pub b_g1_query: Vec<G1>,
    pub b_g2_query: Vec<G2>,
    pub h_query: Vec<G1>,
    pub comm_wit_abc_query: Vec<G1>,
    pub ucomm_wit_abc_query: Vec<G1>,
    pub commit_witness_num: usize,
}

/// The proving key fits the given constraint system and domain size: one
/// `A`/`B` query element per variable, `domain_size - 1` quotient elements,
/// and the three disjoint `ABC` ranges; its second-group elements lie in the
/// prime-order subgroup.
pub open spec fn pk_shape(pk: ProvingKey, nvars: nat, ninst: nat, dsize: nat) -> bool {
    &&& pk.a_query@.len() == nvars
    &&& pk.b_g1_query@.len() == nvars
    &&& pk.b_g2_query@.len() == nvars
    &&& dsize >= 1
    &&& pk.h_query@.len() == dsize - 1
    &&& ninst >= 1
    &&& nvars >= ninst + pk.commit_witness_num
    &&& pk.comm_wit_abc_query@.len() == pk.commit_witness_num
    &&& pk.ucomm_wit_abc_query@.len() == nvars - ninst - pk.commit_witness_num
    &&& g2_val(pk.g2_generator) < q()
    &&& g2_val(pk.beta_g2) < q()
    &&& g2_val(pk.delta_g2) < q()
    &&& g2_ok_seq(pk.b_g2_query@)
}

/// The long-term key pair of the proof system.
pub struct CcPVKey {
    pub pk: ProvingKey,
    pub vk: VerifyingKey,
}

/// The byte transcript the binding challenge is derived from: the canonical
/// encodings of the proof elements `A`, `B` and `D`, in that order.
pub open spec fn cc_transcript(av: nat, bv: nat, dv: nat) -> Seq<u8> {
    ser_g1(av) + ser_g2(bv) + ser_g1(dv)
}

/// The binding challenge of a proof: the transcript hash over its own
/// `A`, `B` and `D` elements.
pub open spec fn cc_challenge(p: Proof) -> nat {
    hash_fr(cc_transcript(g1_val(p.a), g2_val(p.b), g1_val(p.d)))
}

/// A full assignment is canonical if every scalar in it is.
pub open spec fn asg_ok(instance: Seq<Fr>, witness: Seq<Fr>) -> bool {
    fr_ok_seq(instance) && fr_ok_seq(witness)
}

} // verus!
