//! The ways in which the operations of this crate fail.

use vstd::prelude::*;

verus! {

/// What went wrong.
#[derive(Clone, Copy, Debug, PartialEq, Eq, Structural)]
pub enum Error {
    /// The circuit size is not a power of two that the field supports.
    InvalidCircuitSize,
    /// There are more public inputs than gates.
    PublicInputTooLong,
    /// The evaluation domain asked for exceeds the two-adicity of the field.
    DomainTooLarge,
    /// A commitment is no point of the group, or a scalar is not canonical.
    MalformedProof,
    /// The vanishing polynomial is zero at the evaluation challenge.
    ZeroDivision,
}

} // verus!
