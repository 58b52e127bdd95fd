//! The calls into the `bls12_381` crate.
//!
//! Nothing in this file is proved. Each function states what the curve library
//! is taken to do; the rest of the crate is verified against these statements.
//! Field arithmetic is stated outright, as arithmetic modulo the group order.
//! Group and pairing arithmetic is only named: the same operands give the same
//! result, and no more is said of it.

use vstd::prelude::*;
use crate::field::{fr_add, fr_mul, fr_neg, fr_pow, fr_sub, modulus};
use crate::group::{G1Point, G2Point};
use crate::scalar::{limbs_value, Scalar};

verus! {

/// Whether 48 bytes are accepted by `G1Affine::from_compressed`.
pub uninterp spec fn g1_valid(bytes: Seq<u8>) -> bool;

/// Whether 96 bytes are accepted by `G2Affine::from_compressed`.
pub uninterp spec fn g2_valid(bytes: Seq<u8>) -> bool;

/// The compressed encoding of the sum of two encoded points of G1.
pub uninterp spec fn g1_sum(a: Seq<u8>, b: Seq<u8>) -> Seq<u8>;

/// The compressed encoding of the difference of two encoded points of G1.
pub uninterp spec fn g1_difference(a: Seq<u8>, b: Seq<u8>) -> Seq<u8>;

/// The compressed encoding of an encoded point of G1 multiplied by a scalar.
pub uninterp spec fn g1_product(p: Seq<u8>, s: int) -> Seq<u8>;

/// The value of the pairing on an encoded point of G1 and one of G2, as the
/// coordinates of an element of the target group.
pub uninterp spec fn pairing_value(p: Seq<u8>, q: Seq<u8>) -> Seq<int>;

/// The encoding of the point at infinity: the compression and infinity flags, then zeros.
pub open spec fn g1_identity_encoding() -> Seq<u8> {
    Seq::new(48, |i: int| if i == 0 { 0xc0u8 } else { 0u8 })
}

/// `Scalar::from_raw`: the residue of a 256-bit integer given by its limbs.
#[verifier::external_body]
pub(crate) fn scalar_reduce(l: &[u64; 4]) -> (r: Scalar)
    ensures
        r.wf(),
        r@ == limbs_value(l[0], l[1], l[2], l[3]) % modulus(),
{
    let b = bls12_381::Scalar::from_raw(*l).to_bytes();
    let w = |i: usize| u64::from_le_bytes(b[i..i + 8].try_into().unwrap());
    Scalar { l0: w(0), l1: w(8), l2: w(16), l3: w(24) }
}

/// `Scalar::add`: the sum in the field.
#[verifier::external_body]
pub(crate) fn scalar_add(x: &Scalar, y: &Scalar) -> (r: Scalar)
    requires
        x.wf(),
        y.wf(),
    ensures
        r.wf(),
        r@ == fr_add(x@, y@),
{
    let s = bls12_381::Scalar::from_raw([x.l0, x.l1, x.l2, x.l3])
        + bls12_381::Scalar::from_raw([y.l0, y.l1, y.l2, y.l3]);
    let b = s.to_bytes();
    let w = |i: usize| u64::from_le_bytes(b[i..i + 8].try_into().unwrap());
    Scalar { l0: w(0), l1: w(8), l2: w(16), l3: w(24) }
}

/// `Scalar::sub`: the difference in the field.
#[verifier::external_body]
pub(crate) fn scalar_sub(x: &Scalar, y: &Scalar) -> (r: Scalar)
    requires
        x.wf(),
        y.wf(),
    ensures
        r.wf(),
        r@ == fr_sub(x@, y@),
{
    let s = bls12_381::Scalar::from_raw([x.l0, x.l1, x.l2, x.l3])
        - bls12_381::Scalar::from_raw([y.l0, y.l1, y.l2, y.l3]);
    let b = s.to_bytes();
    let w = |i: usize| u64::from_le_bytes(b[i..i + 8].try_into().unwrap());
    Scalar { l0: w(0), l1: w(8), l2: w(16), l3: w(24) }
}

/// `Scalar::neg`: the additive inverse in the field.
#[verifier::external_body]
pub(crate) fn scalar_neg(x: &Scalar) -> (r: Scalar)
    requires
        x.wf(),
    ensures
        r.wf(),
        r@ == fr_neg(x@),
{
    let s = -bls12_381::Scalar::from_raw([x.l0, x.l1, x.l2, x.l3]);
    let b = s.to_bytes();
    let w = |i: usize| u64::from_le_bytes(b[i..i + 8].try_into().unwrap());
    Scalar { l0: w(0), l1: w(8), l2: w(16), l3: w(24) }
}

/// `Scalar::mul`: the product in the field.
#[verifier::external_body]
pub(crate) fn scalar_mul(x: &Scalar, y: &Scalar) -> (r: Scalar)
    requires
        x.wf(),
        y.wf(),
    ensures
        r.wf(),
        r@ == fr_mul(x@, y@),
{
    let s = bls12_381::Scalar::from_raw([x.l0, x.l1, x.l2, x.l3])
        * bls12_381::Scalar::from_raw([y.l0, y.l1, y.l2, y.l3]);
    let b = s.to_bytes();
    let w = |i: usize| u64::from_le_bytes(b[i..i + 8].try_into().unwrap());
    Scalar { l0: w(0), l1: w(8), l2: w(16), l3: w(24) }
}

/// `Scalar::square`: the product of an element with itself.
#[verifier::external_body]
pub(crate) fn scalar_square(x: &Scalar) -> (r: Scalar)
    requires
        x.wf(),
    ensures
        r.wf(),
        r@ == fr_mul(x@, x@),
{
    let s = bls12_381::Scalar::from_raw([x.l0, x.l1, x.l2, x.l3]).square();
    let b = s.to_bytes();
    let w = |i: usize| u64::from_le_bytes(b[i..i + 8].try_into().unwrap());
    Scalar { l0: w(0), l1: w(8), l2: w(16), l3: w(24) }
}

/// `Scalar::pow`: the power by a 256-bit exponent given by its limbs.
#[verifier::external_body]
pub(crate) fn scalar_pow(x: &Scalar, by: &[u64; 4]) -> (r: Scalar)
    requires
        x.wf(),
    ensures
        r.wf(),
        r@ == fr_pow(x@, limbs_value(by[0], by[1], by[2], by[3]) as nat),
{
    let s = bls12_381::Scalar::from_raw([x.l0, x.l1, x.l2, x.l3]).pow(by);
    let b = s.to_bytes();
    let w = |i: usize| u64::from_le_bytes(b[i..i + 8].try_into().unwrap());
    Scalar { l0: w(0), l1: w(8), l2: w(16), l3: w(24) }
}

/// `Scalar::invert`: fails on zero and on nothing else; what it gives
/// multiplies with the argument to one.
#[verifier::external_body]
pub(crate) fn scalar_invert(x: &Scalar) -> (r: Option<Scalar>)
    requires
        x.wf(),
    ensures
        r is None <==> x@ == 0,
        r matches Some(y) ==> y.wf() && fr_mul(x@, y@) == 1,
{
    let s: Option<bls12_381::Scalar> =
        bls12_381::Scalar::from_raw([x.l0, x.l1, x.l2, x.l3]).invert().into();
    let b = s?.to_bytes();
    let w = |i: usize| u64::from_le_bytes(b[i..i + 8].try_into().unwrap());
    Some(Scalar { l0: w(0), l1: w(8), l2: w(16), l3: w(24) })
}

/// `G1Affine::from_compressed`: the bytes stand for a point exactly when
/// the decoder accepts them.
#[verifier::external_body]
pub(crate) fn g1_decode(bytes: &[u8; 48]) -> (r: Option<G1Point>)
    ensures
        r is Some <==> g1_valid(bytes@),
        r matches Some(p) ==> p@ == bytes@,
{
    let p: Option<bls12_381::G1Affine> = bls12_381::G1Affine::from_compressed(bytes).into();
    Some(G1Point { bytes: p?.to_compressed() })
}

/// `G2Affine::from_compressed`, as for G1.
#[verifier::external_body]
pub(crate) fn g2_decode(bytes: &[u8; 96]) -> (r: Option<G2Point>)
    ensures
        r is Some <==> g2_valid(bytes@),
        r matches Some(p) ==> p@ == bytes@,
{
    let p: Option<bls12_381::G2Affine> = bls12_381::G2Affine::from_compressed(bytes).into();
    Some(G2Point { bytes: p?.to_compressed() })
}

/// `G1Affine::identity`, encoded by `to_compressed`.
#[verifier::external_body]
pub(crate) fn g1_identity() -> (r: G1Point)
    ensures
        r.wf(),
        r@ == g1_identity_encoding(),
{
    G1Point { bytes: bls12_381::G1Affine::identity().to_compressed() }
}

/// Addition of `G1Projective`, on decoded points and encoded again.
#[verifier::external_body]
pub(crate) fn g1_add(a: &G1Point, b: &G1Point) -> (r: G1Point)
    requires
        a.wf(),
        b.wf(),
    ensures
        r.wf(),
        r@ == g1_sum(a@, b@),
{
    let x = bls12_381::G1Affine::from_compressed(&a.bytes).unwrap();
    let y = bls12_381::G1Affine::from_compressed(&b.bytes).unwrap();
    let s = bls12_381::G1Projective::from(x) + bls12_381::G1Projective::from(y);
    G1Point { bytes: bls12_381::G1Affine::from(s).to_compressed() }
}

/// Subtraction of `G1Projective`, on decoded points and encoded again.
#[verifier::external_body]
pub(crate) fn g1_sub(a: &G1Point, b: &G1Point) -> (r: G1Point)
    requires
        a.wf(),
        b.wf(),
    ensures
        r.wf(),
        r@ == g1_difference(a@, b@),
{
    let x = bls12_381::G1Affine::from_compressed(&a.bytes).unwrap();
    let y = bls12_381::G1Affine::from_compressed(&b.bytes).unwrap();
    let s = bls12_381::G1Projective::from(x) - bls12_381::G1Projective::from(y);
    G1Point { bytes: bls12_381::G1Affine::from(s).to_compressed() }
}

/// Multiplication of a `G1Affine` by a `Scalar`, on a decoded point and encoded again.
#[verifier::external_body]
pub(crate) fn g1_mul(p: &G1Point, s: &Scalar) -> (r: G1Point)
    requires
        p.wf(),
        s.wf(),
    ensures
        r.wf(),
        r@ == g1_product(p@, s@),
{
    let x = bls12_381::G1Affine::from_compressed(&p.bytes).unwrap();
    let k = bls12_381::Scalar::from_raw([s.l0, s.l1, s.l2, s.l3]);
    G1Point { bytes: bls12_381::G1Affine::from(x * k).to_compressed() }
}

/// `pairing` on each of two pairs of decoded points, and the comparison of
/// the two results in the target group.
#[verifier::external_body]
pub(crate) fn pairings_agree(p1: &G1Point, q1: &G2Point, p2: &G1Point, q2: &G2Point) -> (r: bool)
    requires
        p1.wf(),
        q1.wf(),
        p2.wf(),
        q2.wf(),
    ensures
        r == (pairing_value(p1@, q1@) == pairing_value(p2@, q2@)),
{
    let a = bls12_381::G1Affine::from_compressed(&p1.bytes).unwrap();
    let b = bls12_381::G2Affine::from_compressed(&q1.bytes).unwrap();
    let c = bls12_381::G1Affine::from_compressed(&p2.bytes).unwrap();
    let d = bls12_381::G2Affine::from_compressed(&q2.bytes).unwrap();
    bls12_381::pairing(&a, &b) == bls12_381::pairing(&c, &d)
}

} // verus!
