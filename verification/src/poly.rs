//! Univariate polynomials over the scalar field as mathematical objects:
//! sequences of residues, the coefficient of `x^i` at place `i`.
//!
//! A sequence is canonical where it is empty or ends in a coefficient other
//! than zero; the operations below give canonical sequences.

use vstd::prelude::*;
use crate::field::{fr_add, fr_mul, fr_neg, fr_pow, fr_sub, is_fr};
use crate::sums::fr_sum;

verus! {

/// The coefficient of `x^i`, zero beyond the sequence.
pub open spec fn coeff(p: Seq<int>, i: int) -> int {
    if 0 <= i < p.len() {
        p[i]
    } else {
        0
    }
}

/// Every coefficient is a canonical residue.
pub open spec fn all_fr(p: Seq<int>) -> bool {
    forall|i: int| 0 <= i < p.len() ==> is_fr(#[trigger] p[i])
}

/// The sequence is empty or its last coefficient is not zero.
pub open spec fn is_canonical(p: Seq<int>) -> bool {
    p.len() == 0 || p.last() != 0
}

/// Every coefficient is zero.
pub open spec fn is_zero_poly(p: Seq<int>) -> bool {
    forall|i: int| 0 <= i < p.len() ==> #[trigger] p[i] == 0
}

/// The sequence without the zeros at its end.
pub open spec fn trim(p: Seq<int>) -> Seq<int>
    decreases p.len(),
{
    if p.len() > 0 && p.last() == 0 {
        trim(p.drop_last())
    } else {
        p
    }
}

/// The degree: one less than the length, and zero for the zero polynomial.
pub open spec fn degree(p: Seq<int>) -> nat {
    if p.len() == 0 {
        0
    } else {
        (p.len() - 1) as nat
    }
}

/// The greater of the two lengths.
pub open spec fn max_len(a: Seq<int>, b: Seq<int>) -> nat {
    if a.len() >= b.len() {
        a.len()
    } else {
        b.len()
    }
}

/// The sum of two polynomials.
pub open spec fn poly_add(a: Seq<int>, b: Seq<int>) -> Seq<int> {
    trim(Seq::new(max_len(a, b), |i: int| fr_add(coeff(a, i), coeff(b, i))))
}

/// The difference of two polynomials.
pub open spec fn poly_sub(a: Seq<int>, b: Seq<int>) -> Seq<int> {
    trim(Seq::new(max_len(a, b), |i: int| fr_sub(coeff(a, i), coeff(b, i))))
}

/// The polynomial with every coefficient negated.
pub open spec fn poly_neg(a: Seq<int>) -> Seq<int> {
    Seq::new(a.len(), |i: int| fr_neg(a[i]))
}

/// The polynomial with every coefficient multiplied by `c`.
pub open spec fn poly_scale(a: Seq<int>, c: int) -> Seq<int> {
    trim(Seq::new(a.len(), |i: int| fr_mul(a[i], c)))
}

/// The constant polynomial `c`.
pub open spec fn poly_const(c: int) -> Seq<int> {
    trim(seq![c])
}

/// The coefficient of `x^k` in the product: the sum of `a_i * b_(k - i)` over `i` from 0 to `k`.
pub open spec fn conv(a: Seq<int>, b: Seq<int>, k: int) -> int {
    if k < 0 {
        0
    } else {
        fr_sum(|i: int| fr_mul(coeff(a, i), coeff(b, k - i)), (k + 1) as nat)
    }
}

/// The product of two polynomials.
pub open spec fn poly_mul(a: Seq<int>, b: Seq<int>) -> Seq<int> {
    if a.len() == 0 || b.len() == 0 {
        Seq::empty()
    } else {
        trim(Seq::new((a.len() + b.len() - 1) as nat, |k: int| conv(a, b, k)))
    }
}

/// The value of the polynomial at `z`: the sum of `p_i * z^i`.
pub open spec fn poly_eval(p: Seq<int>, z: int) -> int {
    fr_sum(|i: int| fr_mul(coeff(p, i), fr_pow(z, i as nat)), p.len())
}

/// The value at `z` by Horner's rule: `p_0 + z (p_1 + z (p_2 + ..))`.
pub open spec fn horner(p: Seq<int>, z: int) -> int
    decreases p.len(),
{
    if p.len() == 0 {
        0
    } else {
        fr_add(p[0], fr_mul(z, horner(p.drop_first(), z)))
    }
}

/// The quotient of `p` by `x - z`, the remainder dropped: its coefficient
/// of `x^i` is `p_(i+1) + p_(i+2) z + p_(i+3) z^2 + ..`.
pub open spec fn ruffini_quotient(p: Seq<int>, z: int) -> Seq<int> {
    if p.len() == 0 {
        Seq::empty()
    } else {
        trim(Seq::new((p.len() - 1) as nat, |i: int| horner(p.subrange(i + 1, p.len() as int), z)))
    }
}

/// The polynomial `x - z`.
pub open spec fn linear_factor(z: int) -> Seq<int> {
    seq![fr_neg(z), 1]
}

/// Trimming leaves every coefficient as it is.
pub proof fn lemma_trim_coeff(p: Seq<int>, i: int)
    ensures
        coeff(trim(p), i) == coeff(p, i),
    decreases p.len(),
{
    if p.len() > 0 && p.last() == 0 {
        lemma_trim_coeff(p.drop_last(), i);
    }
}

/// Trimming gives a canonical sequence, no longer than the one given, with
/// coefficients from it.
pub proof fn lemma_trim_canonical(p: Seq<int>)
    ensures
        is_canonical(trim(p)),
        trim(p).len() <= p.len(),
        all_fr(p) ==> all_fr(trim(p)),
        trim(p) == p.take(trim(p).len() as int),
    decreases p.len(),
{
    if p.len() > 0 && p.last() == 0 {
        lemma_trim_canonical(p.drop_last());
        let q = p.drop_last();
        assert(q.take(trim(q).len() as int) =~= p.take(trim(q).len() as int));
    } else {
        assert(p.take(p.len() as int) =~= p);
    }
}

/// A canonical sequence is its own trimming.
pub proof fn lemma_trim_of_canonical(p: Seq<int>)
    requires
        is_canonical(p),
    ensures
        trim(p) == p,
{
}

/// Trimming stops at the last coefficient that is not zero.
pub proof fn lemma_trim_len(p: Seq<int>, n: int)
    requires
        0 <= n <= p.len(),
        n > 0 ==> p[n - 1] != 0,
        forall|i: int| n <= i < p.len() ==> #[trigger] p[i] == 0,
    ensures
        trim(p) == p.take(n),
    decreases p.len(),
{
    if p.len() > n {
        let q = p.drop_last();
        lemma_trim_len(q, n);
        assert(q.take(n) =~= p.take(n));
    } else {
        assert(p.take(n) =~= p);
    }
}

/// Two canonical sequences with the same coefficients are the same sequence.
pub proof fn lemma_coeff_ext(p: Seq<int>, q: Seq<int>)
    requires
        is_canonical(p),
        is_canonical(q),
        forall|i: int| 0 <= i ==> #[trigger] coeff(p, i) == coeff(q, i),
    ensures
        p == q,
{
    if p.len() < q.len() {
        assert(coeff(p, q.len() - 1) == coeff(q, q.len() - 1));
    }
    if q.len() < p.len() {
        assert(coeff(p, p.len() - 1) == coeff(q, p.len() - 1));
    }
    assert forall|i: int| 0 <= i < p.len() implies p[i] == q[i] by {
        assert(coeff(p, i) == coeff(q, i));
    }
    assert(p =~= q);
}

/// Two sequences with the same coefficients have the same trimming.
pub proof fn lemma_trim_ext(p: Seq<int>, q: Seq<int>)
    requires
        forall|i: int| 0 <= i ==> #[trigger] coeff(p, i) == coeff(q, i),
    ensures
        trim(p) == trim(q),
{
    lemma_trim_canonical(p);
    lemma_trim_canonical(q);
    assert forall|i: int| 0 <= i implies #[trigger] coeff(trim(p), i) == coeff(trim(q), i) by {
        lemma_trim_coeff(p, i);
        lemma_trim_coeff(q, i);
        assert(coeff(p, i) == coeff(q, i));
    }
    lemma_coeff_ext(trim(p), trim(q));
}

} // verus!
