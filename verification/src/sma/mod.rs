use vstd::prelude::*;

pub mod generator;
pub mod structures;
pub mod vectors;
pub mod prover;
pub mod utils;
pub mod verify;

verus! {

} // verus!
