//! Elements of the scalar field, held as four little-endian 64-bit limbs.

use vstd::prelude::*;
use vstd::bytes::{
    lemma_auto_spec_u64_to_from_le_bytes, spec_u64_from_le_bytes, spec_u64_to_le_bytes,
    u64_from_le_bytes, u64_to_le_bytes,
};
use vstd::slice::slice_subrange;
use crate::backend::{
    scalar_add, scalar_invert, scalar_mul, scalar_neg, scalar_pow, scalar_reduce, scalar_square,
    scalar_sub,
};
use crate::field::{fr_add, fr_mul, fr_neg, fr_pow, fr_sub, is_fr, modulus};

verus! {

/// The integer that four little-endian limbs spell.
pub open spec fn limbs_value(l0: u64, l1: u64, l2: u64, l3: u64) -> int {
    l0 as int + l1 as int * 0x1_0000_0000_0000_0000 + l2 as int
        * 0x1_0000_0000_0000_0000_0000_0000_0000_0000int + l3 as int
        * 0x1_0000_0000_0000_0000_0000_0000_0000_0000_0000_0000_0000_0000int
}

/// An element of the scalar field. The limbs spell its canonical residue.
#[derive(Clone, Copy, Debug, PartialEq, Eq, Structural)]
pub struct Scalar {
    pub l0: u64,
    pub l1: u64,
    pub l2: u64,
    pub l3: u64,
}

impl Scalar {
    /// The residue that the element stands for.
    pub open spec fn view(&self) -> int {
        limbs_value(self.l0, self.l1, self.l2, self.l3)
    }

    /// The limbs spell a number below the modulus.
    pub open spec fn wf(&self) -> bool {
        is_fr(self@)
    }

    /// The additive identity.
    pub fn zero() -> (r: Scalar)
        ensures
            r.wf(),
            r@ == 0,
    {
        Scalar { l0: 0, l1: 0, l2: 0, l3: 0 }
    }

    /// The multiplicative identity.
    pub fn one() -> (r: Scalar)
        ensures
            r.wf(),
            r@ == 1,
    {
        Scalar { l0: 1, l1: 0, l2: 0, l3: 0 }
    }

    /// The scalar with the residue `v`.
    pub fn from_u64(v: u64) -> (r: Scalar)
        ensures
            r.wf(),
            r@ == v,
    {
        Scalar { l0: v, l1: 0, l2: 0, l3: 0 }
    }

    /// The element congruent to the 256-bit integer that `limbs` spell.
    pub fn from_raw(limbs: [u64; 4]) -> (r: Scalar)
        ensures
            r.wf(),
            r@ == limbs_value(limbs[0], limbs[1], limbs[2], limbs[3]) % modulus(),
    {
        scalar_reduce(&limbs)
    }

    /// Whether the scalar is zero.
    pub fn is_zero(&self) -> (r: bool)
        ensures
            r == (self@ == 0),
    {
        self.l0 == 0 && self.l1 == 0 && self.l2 == 0 && self.l3 == 0
    }

    /// The sum of two scalars.
    pub fn add(&self, rhs: &Scalar) -> (r: Scalar)
        requires
            self.wf(),
            rhs.wf(),
        ensures
            r.wf(),
            r@ == fr_add(self@, rhs@),
    {
        scalar_add(self, rhs)
    }

    /// The difference of two scalars.
    pub fn sub(&self, rhs: &Scalar) -> (r: Scalar)
        requires
            self.wf(),
            rhs.wf(),
        ensures
            r.wf(),
            r@ == fr_sub(self@, rhs@),
    {
        scalar_sub(self, rhs)
    }

    /// The additive inverse.
    pub fn neg(&self) -> (r: Scalar)
        requires
            self.wf(),
        ensures
            r.wf(),
            r@ == fr_neg(self@),
    {
        scalar_neg(self)
    }

    /// The product of two scalars.
    pub fn mul(&self, rhs: &Scalar) -> (r: Scalar)
        requires
            self.wf(),
            rhs.wf(),
        ensures
            r.wf(),
            r@ == fr_mul(self@, rhs@),
    {
        scalar_mul(self, rhs)
    }

    /// The product of the scalar with itself.
    pub fn square(&self) -> (r: Scalar)
        requires
            self.wf(),
        ensures
            r.wf(),
            r@ == fr_mul(self@, self@),
    {
        scalar_square(self)
    }

    /// `self` to the power that the limbs of `by` spell.
    pub fn pow(&self, by: &[u64; 4]) -> (r: Scalar)
        requires
            self.wf(),
        ensures
            r.wf(),
            r@ == fr_pow(self@, limbs_value(by[0], by[1], by[2], by[3]) as nat),
    {
        scalar_pow(self, by)
    }

    /// The multiplicative inverse; `None` for zero.
    pub fn invert(&self) -> (r: Option<Scalar>)
        requires
            self.wf(),
        ensures
            r is None <==> self@ == 0,
            r matches Some(y) ==> y.wf() && fr_mul(self@, y@) == 1,
    {
        scalar_invert(self)
    }

    /// Whether the limbs spell a number below the modulus.
    pub fn is_canonical(&self) -> (r: bool)
        ensures
            r == self.wf(),
    {
        if self.l3 != 0x73ed_a753_299d_7d48 {
            self.l3 < 0x73ed_a753_299d_7d48
        } else if self.l2 != 0x3339_d808_09a1_d805 {
            self.l2 < 0x3339_d808_09a1_d805
        } else if self.l1 != 0x53bd_a402_fffe_5bfe {
            self.l1 < 0x53bd_a402_fffe_5bfe
        } else {
            self.l0 < 0xffff_ffff_0000_0001
        }
    }

    /// The 32 bytes of the residue, the lowest first.
    pub fn to_bytes(&self) -> (r: Vec<u8>)
        ensures
            r@ == scalar_encoding(*self),
            r.len() == 32,
    {
        proof {
            lemma_auto_spec_u64_to_from_le_bytes();
        }
        let mut out = u64_to_le_bytes(self.l0);
        let mut b1 = u64_to_le_bytes(self.l1);
        let mut b2 = u64_to_le_bytes(self.l2);
        let mut b3 = u64_to_le_bytes(self.l3);
        out.append(&mut b1);
        out.append(&mut b2);
        out.append(&mut b3);
        out
    }

    /// The scalar that 32 bytes spell, the lowest first; `None` where
    /// there are not 32 bytes or they spell no number below the modulus.
    pub fn from_bytes(bytes: &[u8]) -> (r: Option<Scalar>)
        ensures
            r is Some <==> bytes.len() == 32 && scalar_decoding(bytes@).wf(),
            r matches Some(s) ==> s == scalar_decoding(bytes@),
    {
        if bytes.len() != 32 {
            return None;
        }
        let s = Scalar {
            l0: u64_from_le_bytes(slice_subrange(bytes, 0, 8)),
            l1: u64_from_le_bytes(slice_subrange(bytes, 8, 16)),
            l2: u64_from_le_bytes(slice_subrange(bytes, 16, 24)),
            l3: u64_from_le_bytes(slice_subrange(bytes, 24, 32)),
        };
        if s.is_canonical() {
            Some(s)
        } else {
            None
        }
    }
}

/// The encoding of a scalar: each limb in eight bytes, the lowest limb
/// and the lowest byte first.
pub open spec fn scalar_encoding(s: Scalar) -> Seq<u8> {
    spec_u64_to_le_bytes(s.l0) + spec_u64_to_le_bytes(s.l1) + spec_u64_to_le_bytes(s.l2)
        + spec_u64_to_le_bytes(s.l3)
}

/// The limbs that 32 bytes spell.
pub open spec fn scalar_decoding(bytes: Seq<u8>) -> Scalar {
    Scalar {
        l0: spec_u64_from_le_bytes(bytes.subrange(0, 8)),
        l1: spec_u64_from_le_bytes(bytes.subrange(8, 16)),
        l2: spec_u64_from_le_bytes(bytes.subrange(16, 24)),
        l3: spec_u64_from_le_bytes(bytes.subrange(24, 32)),
    }
}

/// Decoding undoes encoding, and encoding undoes decoding.
pub proof fn lemma_scalar_encoding(s: Scalar, bytes: Seq<u8>)
    ensures
        scalar_encoding(s).len() == 32,
        scalar_decoding(scalar_encoding(s)) == s,
        bytes.len() == 32 ==> scalar_encoding(scalar_decoding(bytes)) == bytes,
{
    lemma_auto_spec_u64_to_from_le_bytes();
    let e = scalar_encoding(s);
    assert(e.subrange(0, 8) =~= spec_u64_to_le_bytes(s.l0));
    assert(e.subrange(8, 16) =~= spec_u64_to_le_bytes(s.l1));
    assert(e.subrange(16, 24) =~= spec_u64_to_le_bytes(s.l2));
    assert(e.subrange(24, 32) =~= spec_u64_to_le_bytes(s.l3));
    if bytes.len() == 32 {
        assert(scalar_encoding(scalar_decoding(bytes)) =~= bytes.subrange(0, 8) + bytes.subrange(
            8,
            16,
        ) + bytes.subrange(16, 24) + bytes.subrange(24, 32));
        assert(bytes.subrange(0, 8) + bytes.subrange(8, 16) + bytes.subrange(16, 24)
            + bytes.subrange(24, 32) =~= bytes);
    }
}

impl core::convert::From<u64> for Scalar {
    fn from(v: u64) -> (r: Scalar) {
        Scalar::from_u64(v)
    }
}

impl vstd::std_specs::convert::FromSpecImpl<u64> for Scalar {
    open spec fn obeys_from_spec() -> bool {
        true
    }

    open spec fn from_spec(v: u64) -> Scalar {
        Scalar { l0: v, l1: 0, l2: 0, l3: 0 }
    }
}

} // verus!
