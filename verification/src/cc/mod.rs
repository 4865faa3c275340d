use vstd::prelude::*;

pub mod generator;
pub mod verify;
pub mod prover;
pub mod r1cs_to_qap;
pub mod structures;
pub mod utils;

verus! {

} // verus!
