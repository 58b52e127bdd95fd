//! The coset representatives of the permutation argument.
//!
//! The three wire columns live on the subgroup and on two of its cosets; the
//! constants below multiply the subgroup into those cosets. Each is given by
//! the lowest limb of the scalar; the other limbs are zero.

use vstd::prelude::*;
use crate::scalar::Scalar;

verus! {

/// The representative of the coset of the right wires.
pub const K1: u64 = 7;

/// The representative of the coset of the output wires.
pub const K2: u64 = 13;

/// The representative of a coset for a fourth wire.
pub const K3: u64 = 17;

/// `K1` as a scalar.
pub fn k1() -> (r: Scalar)
    ensures
        r.wf(),
        r@ == K1,
{
    Scalar::from_u64(K1)
}

/// `K2` as a scalar.
pub fn k2() -> (r: Scalar)
    ensures
        r.wf(),
        r@ == K2,
{
    Scalar::from_u64(K2)
}

/// `K3` as a scalar.
pub fn k3() -> (r: Scalar)
    ensures
        r.wf(),
        r@ == K3,
{
    Scalar::from_u64(K3)
}

} // verus!
