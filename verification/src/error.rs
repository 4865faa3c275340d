//! The error taxonomy of the library: setup failures (no domain of
//! sufficient size, a non-invertible sampled scalar), a missing assignment
//! from the circuit loader, and a quotient polynomial whose top coefficient
//! does not vanish (a domain-sizing fault caught before a proof is emitted).
//! Verification failures are plain boolean results, never errors.
use vstd::prelude::*;

verus! {

#[derive(Clone, Copy, Debug, PartialEq, Eq, Structural)]
pub enum Error {
    /// No evaluation domain of sufficient size exists for the constraint
    /// system.
    DegreeTooLarge,
    /// A scalar that must be inverted (a sampled trapdoor, or a derived
    /// challenge) turned out to be zero.
    UnexpectedIdentity,
    /// The circuit loader failed to supply a value for a referenced
    /// variable.
    AssignmentMissing,
    /// The quotient polynomial's highest coefficient is not zero, so the
    /// evaluation domain was sized wrongly; proving fails fast instead of
    /// emitting a proof that cannot verify.
    QuotientNotDivisible,
}

} // verus!
