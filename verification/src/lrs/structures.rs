//! Objects of the signature layer: timing reports, the circuit descriptor
//! the loader fills, the long-term public/verification key aggregate, and
//! the signature itself.
use vstd::prelude::*;
use crate::algebra::{Fr, G1};
use crate::cc::structures::{pk_shape, proof_wf, vk_wf, CcPVKey, Proof};
use crate::link::snark::{ek_wf, vk_wf as link_vk_wf, LinkEVKey};
use crate::r1cs::R1cs;
use crate::sma::structures::{comm_wf, crs_wf, sma_proof_wf, SmaCRS, SmaComm, SmaProof};

verus! {

/// Elapsed nanoseconds of one signing call, split by subsystem.
pub struct SignTime {
    pub sign: u64,
    pub sma: u64,
    pub cc: u64,
    pub link: u64,
}

impl SignTime {
    pub fn new() -> (r: SignTime)
        ensures
            r.sign == 0,
            r.sma == 0,
            r.cc == 0,
            r.link == 0,
    {
        SignTime { sign: 0, sma: 0, cc: 0, link: 0 }
    }

    /// The average over `rhs` runs.
    pub fn div(self, rhs: u32) -> (r: SignTime)
        requires
            rhs > 0,
        ensures
            r.sign == self.sign / rhs as u64,
            r.sma == self.sma / rhs as u64,
            r.cc == self.cc / rhs as u64,
            r.link == self.link / rhs as u64,
    {
        SignTime {
            sign: self.sign / rhs as u64,
            sma: self.sma / rhs as u64,
            cc: self.cc / rhs as u64,
            link: self.link / rhs as u64,
        }
    }
}

/// Elapsed nanoseconds of one verification call, split by subsystem.
pub struct VerifyTime {
    pub verify: u64,
    pub sma: u64,
    pub cc: u64,
    pub link: u64,
}

impl VerifyTime {
    pub fn new() -> (r: VerifyTime)
        ensures
            r.verify == 0,
            r.sma == 0,
            r.cc == 0,
            r.link == 0,
    {
        VerifyTime { verify: 0, sma: 0, cc: 0, link: 0 }
    }

    /// The average over `rhs` runs.
    pub fn div(self, rhs: u32) -> (r: VerifyTime)
        requires
            rhs > 0,
        ensures
            r.verify == self.verify / rhs as u64,
            r.sma == self.sma / rhs as u64,
            r.cc == self.cc / rhs as u64,
            r.link == self.link / rhs as u64,
    {
        VerifyTime {
            verify: self.verify / rhs as u64,
            sma: self.sma / rhs as u64,
            cc: self.cc / rhs as u64,
            link: self.link / rhs as u64,
        }
    }
}

/// What the circuit loader declares about a compiled circuit: the public
/// input count, the committed-witness count (those witnesses stand first),
/// the named signals, and where its files live.
pub struct CircDescriptor {
    pub num_pub_io: usize,
    pub num_commit_witness: usize,
    pub ioputs_name: Vec<String>,
    pub path_prefix: String,
    pub circuit_name: String,
}

/// The long-term public parameters: the linking key, the commit-carrying
/// key pair and the membership reference string.
pub struct LrsPVKey {
    pub crs_link: LinkEVKey,
    pub crs_cc: CcPVKey,
    pub crs_sma: SmaCRS,
}

/// The aggregate key fits the constraint system and ring bound it was set
/// up for: shapes and subgroup facts of all three subsystems, with the
/// linking matrix shape `2 x (committed + 2)`.
pub open spec fn pvkey_wf(k: LrsPVKey, r1cs: R1cs, ccount: nat, ring_size_max: nat) -> bool {
    &&& pk_shape(
        k.crs_cc.pk,
        r1cs.num_vars(),
        r1cs.num_instance as nat,
        crate::algebra::domain_size_for(
            (r1cs.constraints@.len() + r1cs.num_instance) as nat,
        ),
    )
    &&& k.crs_cc.pk.commit_witness_num == ccount
    &&& vk_wf(k.crs_cc.vk)
    &&& k.crs_cc.vk.instance_abc_query@.len() == r1cs.num_instance
    &&& crs_wf(k.crs_sma)
    &&& k.crs_sma.ring_size_max == ring_size_max
    &&& ccount + 2 <= usize::MAX
    &&& k.crs_link.pp.nr == 2
    &&& k.crs_link.pp.nc == ccount + 2
    &&& ek_wf(k.crs_link.ek, ccount + 2)
    &&& link_vk_wf(k.crs_link.vk, 2)
}

/// A linkable ring signature: the two-part membership commitment, the
/// membership proof, the commit-carrying proof, the two-element linking
/// proof, and the public instance values.
pub struct Signature {
    pub sma_comm: SmaComm,
    pub sma_proof: SmaProof,
    pub cc_proof: Proof,
    pub link_proof: Vec<G1>,
    pub instance: Vec<Fr>,
}

/// The shape and subgroup facts a signature carries, against the key it was
/// produced under.
pub open spec fn signature_wf(s: Signature, k: LrsPVKey) -> bool {
    &&& comm_wf(s.sma_comm)
    &&& sma_proof_wf(s.sma_proof)
    &&& proof_wf(s.cc_proof)
    &&& s.link_proof@.len() == 2
    &&& s.instance@.len() + 1 == k.crs_cc.vk.instance_abc_query@.len()
}

} // verus!
