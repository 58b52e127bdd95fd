//! Points of the two source groups of the pairing, held in their compressed
//! encodings.

use vstd::prelude::*;
use crate::backend::{g1_decode, g1_identity, g1_valid, g2_decode, g2_valid};

verus! {

/// A point of G1, as the 48 bytes of its compressed encoding.
#[derive(Clone, Copy, Debug, PartialEq, Eq)]
pub struct G1Point {
    pub(crate) bytes: [u8; 48],
}

/// A point of G2, as the 96 bytes of its compressed encoding.
#[derive(Clone, Copy, Debug, PartialEq, Eq)]
pub struct G2Point {
    pub(crate) bytes: [u8; 96],
}

impl G1Point {
    /// The compressed encoding of the point.
    pub closed spec fn view(&self) -> Seq<u8> {
        self.bytes@
    }

    /// The bytes encode a point of the group.
    pub closed spec fn wf(&self) -> bool {
        g1_valid(self.bytes@)
    }

    /// Decodes a compressed point; `None` where the bytes encode none.
    pub fn from_compressed(bytes: &[u8; 48]) -> (r: Option<G1Point>)
        ensures
            r is Some <==> g1_valid(bytes@),
            r matches Some(p) ==> p.wf() && p@ == bytes@,
    {
        g1_decode(bytes)
    }

    /// The compressed encoding of the point.
    pub fn to_compressed(&self) -> (r: [u8; 48])
        ensures
            r@ == self@,
    {
        self.bytes
    }

    /// The point at infinity.
    pub fn identity() -> (r: G1Point)
        ensures
            r.wf(),
            r@ == crate::backend::g1_identity_encoding(),
    {
        g1_identity()
    }
}

impl G2Point {
    /// The compressed encoding of the point.
    pub closed spec fn view(&self) -> Seq<u8> {
        self.bytes@
    }

    /// The bytes encode a point of the group.
    pub closed spec fn wf(&self) -> bool {
        g2_valid(self.bytes@)
    }

    /// Decodes a compressed point; `None` where the bytes encode none.
    pub fn from_compressed(bytes: &[u8; 96]) -> (r: Option<G2Point>)
        ensures
            r is Some <==> g2_valid(bytes@),
            r matches Some(p) ==> p.wf() && p@ == bytes@,
    {
        g2_decode(bytes)
    }

    /// The compressed encoding of the point.
    pub fn to_compressed(&self) -> (r: [u8; 96])
        ensures
            r@ == self@,
    {
        self.bytes
    }
}

} // verus!
