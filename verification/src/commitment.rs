//! The values of the KZG10 polynomial commitment scheme that a verifier handles.

use vstd::prelude::*;
use crate::group::{G1Point, G2Point};

verus! {

/// A commitment to a polynomial: a point of G1. The point at infinity stands
/// for the empty commitment.
#[derive(Clone, Copy, Debug, PartialEq, Eq)]
pub struct Commitment(pub G1Point);

impl Commitment {
    /// The encoding of the committed point.
    pub open spec fn view(&self) -> Seq<u8> {
        self.0@
    }

    /// The commitment is a point of the group.
    pub open spec fn wf(&self) -> bool {
        self.0.wf()
    }

    /// The empty commitment.
    pub fn empty() -> (r: Commitment)
        ensures
            r.wf(),
            r@ == crate::backend::g1_identity_encoding(),
    {
        Commitment(G1Point::identity())
    }
}

/// The prover's share of the structured reference string: the powers of
/// the secret of the setup, each as a multiple of the generator of G1.
#[derive(Clone, Debug, PartialEq, Eq)]
pub struct ProverKey {
    pub powers_of_g: Vec<G1Point>,
}

impl ProverKey {
    /// Every power is a point of the group.
    pub open spec fn wf(&self) -> bool {
        crate::util::points_wf(self.powers_of_g@)
    }
}

/// The verifier's share of the structured reference string.
#[derive(Clone, Copy, Debug, PartialEq, Eq)]
pub struct VerifierKey {
    /// The generator of G1.
    pub g: G1Point,
    /// The generator of G2.
    pub h: G2Point,
    /// The generator of G2 multiplied by the secret of the setup.
    pub beta_h: G2Point,
}

impl VerifierKey {
    /// The three points are points of their groups.
    pub open spec fn wf(&self) -> bool {
        self.g.wf() && self.h.wf() && self.beta_h.wf()
    }
}

} // verus!
