//! A linkable ring signature built from three pairing-based argument
//! systems: a commit-carrying proof system that additionally commits to a
//! designated slice of the witness, a subspace-membership argument that ties
//! two independently produced commitments to one hidden vector, and a
//! polynomial-commitment set-membership argument over a ring of field
//! elements.  The signature layer composes the three: setup builds the
//! long-term keys and the linking matrix, signing runs the three provers
//! over one witness, and verification accepts only if all three verifiers
//! do.
//!
//! The algebra itself (field, two curve groups, pairing, evaluation domains,
//! transcript hashing) comes from an outside provider behind the trusted
//! interface in `algebra`; everything above that interface is verified
//! against discrete-logarithm-level contracts.
use vstd::prelude::*;

pub mod algebra;
pub mod arith;
pub mod cc;
pub mod error;
pub mod link;
pub mod lrs;
pub mod r1cs;
pub mod sma;
pub mod vecs;

verus! {

} // verus!
