use vstd::prelude::*;

pub mod laws;
pub mod matrix;
pub mod snark;

verus! {

} // verus!
