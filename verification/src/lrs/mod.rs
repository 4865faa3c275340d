use vstd::prelude::*;

pub mod setup;
pub mod sign;
pub mod structures;
pub mod verify;

verus! {

} // verus!
