//! Objects of the set-membership argument: the structured reference string
//! with its forced identity hole, the two-part commitment, and the
//! seven-element proof.
use vstd::prelude::*;
use crate::algebra::{fr_val, g1_val, g2_ok_seq, g2_val, pow_mod, q, G1, G2, Fr};

verus! {

/// The reference string: `crs_g1s[k] = alpha^k G1` for `k` up to twice the
/// ring size, with the position `ring_size_max + 1` forced to the identity,
/// and `crs_g2s[k] = alpha^k G2` up to the ring size.
pub struct SmaCRS {
    pub g1_generator: G1,
    pub g2_generator: G2,
    pub crs_g1s: Vec<G1>,
    pub crs_g2s: Vec<G2>,
    pub ring_size_max: usize,
}

/// Shape and subgroup facts of a reference string.
pub open spec fn crs_wf(crs: SmaCRS) -> bool {
    &&& crs.ring_size_max >= 1
    &&& 2 * crs.ring_size_max + 1 <= usize::MAX
    &&& crs.crs_g1s@.len() == 2 * crs.ring_size_max + 1
    &&& crs.crs_g2s@.len() == crs.ring_size_max + 1
    &&& g2_ok_seq(crs.crs_g2s@)
    &&& g1_val(crs.g1_generator) == 1
    &&& g2_val(crs.g2_generator) == 1
}

/// The hidden-exponent structure of a reference string: every element is
/// the stated power of `alpha`, except the forced hole.
pub open spec fn crs_rel(crs: SmaCRS, alphav: nat) -> bool {
    let n = crs.ring_size_max as int;
    &&& alphav < q()
    &&& forall|k: int|
        0 <= k < crs.crs_g1s@.len() && k != n + 1 ==> g1_val(#[trigger] crs.crs_g1s@[k])
            == pow_mod(alphav, k as nat)
    &&& g1_val(crs.crs_g1s@[n + 1]) == 0
    &&& forall|k: int|
        0 <= k < crs.crs_g2s@.len() ==> g2_val(#[trigger] crs.crs_g2s@[k]) == pow_mod(
            alphav,
            k as nat,
        )
}

/// The two-part commitment: `c_g1` commits the chosen ring value under `r`,
/// `c_b_g2` the one-hot selector under `r_b`.  The openings `r` and `r_b`
/// are secret and must be fresh per signature.
pub struct SmaComm {
    pub c_g1: G1,
    pub c_b_g2: G2,
    pub r: Fr,
    pub r_b: Fr,
}

/// The subgroup fact verification needs of a commitment.
pub open spec fn comm_wf(c: SmaComm) -> bool {
    g2_val(c.c_b_g2) < q()
}

/// The seven-element membership proof.
pub struct SmaProof {
    pub c_b_g2: G2,
    pub c_s_g1: G1,
    pub pi: G1,
    pub c_h_g1: G1,
    pub c_u_g2: G2,
    pub c_t_g2: G2,
    pub pi_kzg: G1,
}

/// The subgroup facts verification needs of a proof.
pub open spec fn sma_proof_wf(p: SmaProof) -> bool {
    &&& g2_val(p.c_b_g2) < q()
    &&& g2_val(p.c_u_g2) < q()
    &&& g2_val(p.c_t_g2) < q()
}

/// Every ring entry is canonical and the reserved position zero holds the
/// field identity.
pub open spec fn ring_wf(ring: Seq<Fr>) -> bool {
    &&& ring.len() >= 1
    &&& fr_val(ring[0]) == 0
    &&& crate::algebra::fr_ok_seq(ring)
}

} // verus!
