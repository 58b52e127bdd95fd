//! Sums and products over sequences of scalars and points.

use vstd::prelude::*;
use crate::backend::{g1_add, g1_identity, g1_identity_encoding, g1_mul, g1_product, g1_sum};
use crate::field::{fr_pow, lemma_pow_succ};
use crate::group::G1Point;
use crate::scalar::Scalar;

verus! {

/// Every scalar of the sequence is canonical.
pub open spec fn scalars_wf(s: Seq<Scalar>) -> bool {
    forall|i: int| 0 <= i < s.len() ==> (#[trigger] s[i]).wf()
}

/// Every point of the sequence is a point of the group.
pub open spec fn points_wf(p: Seq<G1Point>) -> bool {
    forall|i: int| 0 <= i < p.len() ==> (#[trigger] p[i]).wf()
}

/// The residues of a sequence of scalars.
pub open spec fn scalar_values(s: Seq<Scalar>) -> Seq<int> {
    Seq::new(s.len(), |i: int| s[i]@)
}

/// The encodings of a sequence of points.
pub open spec fn point_encodings(p: Seq<G1Point>) -> Seq<Seq<u8>> {
    Seq::new(p.len(), |i: int| p[i]@)
}

/// The points multiplied by the scalars, pair by pair.
pub open spec fn products(scalars: Seq<int>, points: Seq<Seq<u8>>) -> Seq<Seq<u8>> {
    Seq::new(scalars.len(), |i: int| g1_product(points[i], scalars[i]))
}

/// The sum of the points, taken from the left and starting at the point at infinity.
pub open spec fn points_sum(points: Seq<Seq<u8>>) -> Seq<u8>
    decreases points.len(),
{
    if points.len() == 0 {
        g1_identity_encoding()
    } else {
        g1_sum(points_sum(points.drop_last()), points.last())
    }
}

/// The powers `1, x, x^2, ..` of a residue, `n` of them.
pub open spec fn powers(x: int, n: nat) -> Seq<int> {
    Seq::new(n, |i: int| fr_pow(x, i as nat))
}

/// The first `n` powers of `x`, from `x^0` on.
pub fn powers_of(x: &Scalar, n: usize) -> (r: Vec<Scalar>)
    requires
        x.wf(),
    ensures
        scalars_wf(r@),
        scalar_values(r@) == powers(x@, n as nat),
{
    let mut out: Vec<Scalar> = Vec::new();
    let mut cur = Scalar::one();
    let mut i: usize = 0;
    while i < n
        invariant
            i <= n,
            x.wf(),
            cur.wf(),
            cur@ == fr_pow(x@, i as nat),
            out.len() == i,
            scalars_wf(out@),
            forall|j: int| 0 <= j < i ==> (#[trigger] out@[j])@ == fr_pow(x@, j as nat),
        decreases n - i,
    {
        out.push(cur);
        proof {
            lemma_pow_succ(x@, i as nat);
        }
        cur = cur.mul(x);
        i += 1;
    }
    assert(scalar_values(out@) =~= powers(x@, n as nat));
    out
}

/// Multiplies each point by the scalar at the same place.
pub fn multiscalar_mul(scalars: &Vec<Scalar>, points: &Vec<G1Point>) -> (r: Vec<G1Point>)
    requires
        scalars.len() == points.len(),
        scalars_wf(scalars@),
        points_wf(points@),
    ensures
        points_wf(r@),
        point_encodings(r@) == products(scalar_values(scalars@), point_encodings(points@)),
{
    let mut out: Vec<G1Point> = Vec::new();
    let mut i: usize = 0;
    while i < scalars.len()
        invariant
            i <= scalars.len(),
            scalars.len() == points.len(),
            scalars_wf(scalars@),
            points_wf(points@),
            out.len() == i,
            points_wf(out@),
            forall|j: int| 0 <= j < i ==> (#[trigger] out@[j])@ == g1_product(points@[j]@, scalars@[j]@),
        decreases scalars.len() - i,
    {
        let p = g1_mul(&points[i], &scalars[i]);
        out.push(p);
        i += 1;
    }
    assert(point_encodings(out@) =~= products(
        scalar_values(scalars@),
        point_encodings(points@),
    ));
    out
}

/// Adds the points up.
pub fn sum_points(points: &Vec<G1Point>) -> (r: G1Point)
    requires
        points_wf(points@),
    ensures
        r.wf(),
        r@ == points_sum(point_encodings(points@)),
{
    let mut acc = g1_identity();
    let mut i: usize = 0;
    let ghost enc = point_encodings(points@);
    while i < points.len()
        invariant
            i <= points.len(),
            points_wf(points@),
            enc == point_encodings(points@),
            acc.wf(),
            acc@ == points_sum(enc.take(i as int)),
        decreases points.len() - i,
    {
        proof {
            assert(enc.take(i as int + 1).drop_last() =~= enc.take(i as int));
            assert(enc.take(i as int + 1).last() == points@[i as int]@);
        }
        acc = g1_add(&acc, &points[i]);
        i += 1;
    }
    assert(enc.take(points.len() as int) =~= enc);
    acc
}

} // verus!
