//! The laws of polynomial arithmetic: the polynomials over the scalar field
//! form a commutative ring, and evaluation at a point respects its operations.

use vstd::prelude::*;
use crate::field::{
    fr_add, fr_mul, fr_neg, fr_pow, fr_sub, group_fr_closed, is_fr, lemma_add_assoc,
    lemma_add_comm, lemma_add_neg, lemma_add_zero, lemma_mul_assoc, lemma_mul_comm,
    lemma_mul_distributes, lemma_mul_neg, lemma_mul_one, lemma_mul_zero, lemma_pow_add,
    lemma_pow_succ,
};
use crate::fft::lemma_eval_as_sum;
use crate::poly::{
    all_fr, coeff, conv, degree, horner, is_canonical, is_zero_poly, lemma_coeff_ext,
    lemma_trim_canonical, lemma_trim_coeff, lemma_trim_of_canonical, linear_factor, max_len,
    poly_add, poly_const, poly_eval, poly_mul, poly_neg, poly_scale, poly_sub, ruffini_quotient,
    trim,
};
use crate::sums::{
    fr_sum, lemma_sum_add, lemma_sum_ext, lemma_sum_extend, lemma_sum_first, lemma_sum_is_fr,
    lemma_sum_reverse, lemma_sum_scale, lemma_sum_shift, lemma_sum_single, lemma_sum_swap,
    lemma_sum_zero,
};

verus! {

/// `(a b)(c d) == (a c)(b d)`.
pub proof fn lemma_mul_interchange(a: int, b: int, c: int, d: int)
    ensures
        fr_mul(fr_mul(a, b), fr_mul(c, d)) == fr_mul(fr_mul(a, c), fr_mul(b, d)),
{
    lemma_mul_assoc(a, b, fr_mul(c, d));
    lemma_mul_assoc(b, c, d);
    lemma_mul_comm(b, c);
    lemma_mul_assoc(c, b, d);
    lemma_mul_assoc(a, c, fr_mul(b, d));
}

/// A sequence of zeros trims to nothing.
pub proof fn lemma_trim_zero(p: Seq<int>)
    requires
        is_zero_poly(p),
    ensures
        trim(p) == Seq::<int>::empty(),
    decreases p.len(),
{
    if p.len() > 0 {
        assert(p.last() == p[p.len() - 1]);
        lemma_trim_zero(p.drop_last());
    }
}

/// The terms of the product's coefficient, then zeros.
pub open spec fn conv_term(a: Seq<int>, b: Seq<int>, k: int) -> spec_fn(int) -> int {
    |i: int| fr_mul(coeff(a, i), coeff(b, k - i))
}

/// The coefficient of `x^k` in the product as a sum over any range that
/// reaches `k`: the terms beyond `k` are zero.
pub proof fn lemma_conv_extended(a: Seq<int>, b: Seq<int>, k: int, n: nat)
    requires
        0 <= k < n,
    ensures
        conv(a, b, k) == fr_sum(conv_term(a, b, k), n),
{
    let f = conv_term(a, b, k);
    assert forall|i: int| k + 1 <= i < n implies #[trigger] f(i) == 0 by {
        lemma_mul_zero(coeff(a, i));
    }
    lemma_sum_extend(f, (k + 1) as nat, n);
    lemma_sum_ext(f, |i: int| fr_mul(coeff(a, i), coeff(b, k - i)), (k + 1) as nat);
}

/// Beyond the sum of the degrees the product has no coefficients.
pub proof fn lemma_conv_zero_beyond(a: Seq<int>, b: Seq<int>, k: int)
    requires
        k >= 0,
        k >= a.len() + b.len() - 1,
    ensures
        conv(a, b, k) == 0,
{
    let f = conv_term(a, b, k);
    assert forall|i: int| 0 <= i < k + 1 implies #[trigger] f(i) == 0 by {
        lemma_mul_zero(coeff(a, i));
        lemma_mul_zero(coeff(b, k - i));
    }
    lemma_sum_zero(f, (k + 1) as nat);
    lemma_conv_extended(a, b, k, (k + 1) as nat);
}

/// The product with the zero polynomial has no coefficients.
pub proof fn lemma_conv_of_zero(a: Seq<int>, b: Seq<int>, k: int)
    requires
        is_zero_poly(a) || is_zero_poly(b),
    ensures
        conv(a, b, k) == 0,
{
    if k >= 0 {
        let f = conv_term(a, b, k);
        assert forall|i: int| 0 <= i < k + 1 implies #[trigger] f(i) == 0 by {
            lemma_mul_zero(coeff(a, i));
            lemma_mul_zero(coeff(b, k - i));
        }
        lemma_sum_zero(f, (k + 1) as nat);
        lemma_conv_extended(a, b, k, (k + 1) as nat);
    }
}

/// The coefficients of the product are canonical residues.
pub proof fn lemma_conv_is_fr(a: Seq<int>, b: Seq<int>, k: int)
    ensures
        is_fr(conv(a, b, k)),
{
    if k >= 0 {
        lemma_sum_is_fr(|i: int| fr_mul(coeff(a, i), coeff(b, k - i)), (k + 1) as nat);
    }
}

/// Polynomials with the same coefficients have the same values.
pub proof fn lemma_eval_ext(p: Seq<int>, q: Seq<int>, z: int)
    requires
        forall|i: int| 0 <= i ==> #[trigger] coeff(p, i) == coeff(q, i),
    ensures
        poly_eval(p, z) == poly_eval(q, z),
{
    let m = max_len(p, q);
    let f = |i: int| fr_mul(coeff(p, i), fr_pow(z, i as nat));
    let g = |i: int| fr_mul(coeff(q, i), fr_pow(z, i as nat));
    assert forall|i: int| p.len() <= i < m implies #[trigger] f(i) == 0 by {
        lemma_mul_zero(fr_pow(z, i as nat));
    }
    assert forall|i: int| q.len() <= i < m implies #[trigger] g(i) == 0 by {
        lemma_mul_zero(fr_pow(z, i as nat));
    }
    lemma_sum_extend(f, p.len(), m);
    lemma_sum_extend(g, q.len(), m);
    assert forall|i: int| 0 <= i < m implies #[trigger] f(i) == g(i) by {
        assert(coeff(p, i) == coeff(q, i));
    }
    lemma_sum_ext(f, g, m);
    lemma_eval_as_sum(p, z, f);
    lemma_eval_as_sum(q, z, g);
}

/// Trimming leaves the values as they are.
pub proof fn lemma_eval_trim(p: Seq<int>, z: int)
    ensures
        poly_eval(trim(p), z) == poly_eval(p, z),
{
    assert forall|i: int| 0 <= i implies #[trigger] coeff(trim(p), i) == coeff(p, i) by {
        lemma_trim_coeff(p, i);
    }
    lemma_eval_ext(trim(p), p, z);
}

/// The value of the product is the product of the values, for the
/// product written out to any length that holds it.
pub proof fn lemma_eval_conv(a: Seq<int>, b: Seq<int>, x: int, n: nat)
    requires
        a.len() >= 1,
        b.len() >= 1,
        n >= a.len() + b.len() - 1,
    ensures
        poly_eval(Seq::new(n, |k: int| conv(a, b, k)), x) == fr_mul(
            poly_eval(a, x),
            poly_eval(b, x),
        ),
{
    broadcast use group_fr_closed;

    let c = Seq::new(n, |k: int| conv(a, b, k));
    let pa = |i: int| fr_mul(coeff(a, i), fr_pow(x, i as nat));
    let pb = |i: int| fr_mul(coeff(b, i), fr_pow(x, i as nat));
    let eval_a = poly_eval(a, x);
    let eval_b = poly_eval(b, x);
    lemma_eval_as_sum(a, x, pa);
    lemma_eval_as_sum(b, x, pb);
    let t = |k: int, i: int| fr_mul(fr_mul(coeff(a, i), coeff(b, k - i)), fr_pow(x, k as nat));
    let rows = |k: int| fr_mul(coeff(c, k), fr_pow(x, k as nat));
    let cols = |i: int| fr_mul(pa(i), eval_b);

    assert forall|k: int| 0 <= k < n implies #[trigger] rows(k) == fr_sum(|i: int| t(k, i), n) by {
        let f = conv_term(a, b, k);
        let row = |i: int| t(k, i);
        lemma_conv_extended(a, b, k, n);
        assert forall|i: int| 0 <= i < n implies #[trigger] row(i) == fr_mul(
            fr_pow(x, k as nat),
            f(i),
        ) by {
            lemma_mul_comm(f(i), fr_pow(x, k as nat));
        }
        lemma_sum_scale(f, row, fr_pow(x, k as nat), n);
        lemma_mul_comm(fr_pow(x, k as nat), fr_sum(f, n));
    }
    assert forall|i: int| 0 <= i < n implies #[trigger] cols(i) == fr_sum(|k: int| t(k, i), n) by {
        let col = |k: int| t(k, i);
        if i >= a.len() {
            assert forall|k: int| 0 <= k < n implies #[trigger] col(k) == 0 by {
                lemma_mul_zero(coeff(b, k - i));
                lemma_mul_zero(fr_pow(x, k as nat));
            }
            lemma_sum_zero(col, n);
            lemma_mul_zero(fr_pow(x, i as nat));
            lemma_mul_zero(eval_b);
        } else {
            let shifted = |l: int| fr_mul(pa(i), pb(l));
            assert forall|k: int| 0 <= k < i implies #[trigger] col(k) == 0 by {
                lemma_mul_zero(coeff(a, i));
                lemma_mul_zero(fr_pow(x, k as nat));
            }
            assert forall|l: int| 0 <= l < n - i implies #[trigger] shifted(l) == col(l + i) by {
                lemma_pow_add(x, i as nat, l as nat);
                lemma_mul_interchange(
                    coeff(a, i),
                    coeff(b, l),
                    fr_pow(x, i as nat),
                    fr_pow(x, l as nat),
                );
                assert(l + i - i == l);
            }
            lemma_sum_shift(col, shifted, i as nat, n);
            let m = (n - i) as nat;
            lemma_sum_scale(pb, shifted, pa(i), m);
            assert forall|l: int| b.len() <= l < m implies #[trigger] pb(l) == 0 by {
                lemma_mul_zero(fr_pow(x, l as nat));
            }
            lemma_sum_extend(pb, b.len(), m);
        }
    }
    lemma_sum_swap(t, rows, cols, n, n);
    lemma_eval_as_sum(c, x, rows);
    // the columns add up to the value of `a` times that of `b`
    let scaled = |i: int| fr_mul(eval_b, pa(i));
    assert forall|i: int| 0 <= i < n implies #[trigger] cols(i) == scaled(i) by {
        lemma_mul_comm(pa(i), eval_b);
    }
    lemma_sum_ext(cols, scaled, n);
    lemma_sum_scale(pa, scaled, eval_b, n);
    assert forall|i: int| a.len() <= i < n implies #[trigger] pa(i) == 0 by {
        lemma_mul_zero(fr_pow(x, i as nat));
    }
    lemma_sum_extend(pa, a.len(), n);
    lemma_mul_comm(eval_b, eval_a);
}

/// The coefficients of a sum are the sums of the coefficients.
pub proof fn lemma_add_coeff(a: Seq<int>, b: Seq<int>, i: int)
    ensures
        coeff(poly_add(a, b), i) == fr_add(coeff(a, i), coeff(b, i)),
{
    lemma_trim_coeff(Seq::new(max_len(a, b), |i: int| fr_add(coeff(a, i), coeff(b, i))), i);
    lemma_add_zero(0);
}

/// The coefficients of a product are the sums that define it.
pub proof fn lemma_mul_coeff(a: Seq<int>, b: Seq<int>, k: int)
    ensures
        coeff(poly_mul(a, b), k) == conv(a, b, k),
{
    if a.len() == 0 || b.len() == 0 {
        lemma_conv_of_zero(a, b, k);
    } else {
        lemma_trim_coeff(Seq::new((a.len() + b.len() - 1) as nat, |k: int| conv(a, b, k)), k);
        if k >= a.len() + b.len() - 1 {
            lemma_conv_zero_beyond(a, b, k);
        }
    }
}

/// Sums, differences and products of polynomials are canonical, with
/// canonical residues for coefficients.
pub proof fn lemma_results_canonical(a: Seq<int>, b: Seq<int>)
    ensures
        is_canonical(poly_add(a, b)),
        all_fr(poly_add(a, b)),
        is_canonical(poly_sub(a, b)),
        all_fr(poly_sub(a, b)),
        is_canonical(poly_mul(a, b)),
        all_fr(poly_mul(a, b)),
{
    broadcast use group_fr_closed;

    let s = Seq::new(max_len(a, b), |i: int| fr_add(coeff(a, i), coeff(b, i)));
    lemma_trim_canonical(s);
    let d = Seq::new(max_len(a, b), |i: int| fr_sub(coeff(a, i), coeff(b, i)));
    lemma_trim_canonical(d);
    if a.len() > 0 && b.len() > 0 {
        let c = Seq::new((a.len() + b.len() - 1) as nat, |k: int| conv(a, b, k));
        assert forall|k: int| 0 <= k < c.len() implies is_fr(#[trigger] c[k]) by {
            lemma_conv_is_fr(a, b, k);
        }
        lemma_trim_canonical(c);
    }
}

/// Negating, scaling and dividing by `x - z` give canonical polynomials,
/// with canonical residues for coefficients.
pub proof fn lemma_unary_results_canonical(a: Seq<int>, c: int)
    ensures
        all_fr(poly_neg(a)),
        all_fr(a) && is_canonical(a) ==> is_canonical(poly_neg(a)),
        is_canonical(poly_scale(a, c)),
        all_fr(poly_scale(a, c)),
        is_canonical(poly_const(c)),
        is_fr(c) ==> all_fr(poly_const(c)),
        is_canonical(ruffini_quotient(a, c)),
        all_fr(ruffini_quotient(a, c)),
{
    broadcast use group_fr_closed;

    let n = poly_neg(a);
    if a.len() > 0 && all_fr(a) && is_canonical(a) {
        assert(n.last() == fr_neg(a.last()));
        crate::field::lemma_neg_is_zero(a.last());
    }
    lemma_trim_canonical(Seq::new(a.len(), |i: int| fr_mul(a[i], c)));
    lemma_trim_canonical(seq![c]);
    if a.len() > 0 {
        let q = Seq::new(
            (a.len() - 1) as nat,
            |i: int| horner(a.subrange(i + 1, a.len() as int), c),
        );
        assert forall|i: int| 0 <= i < q.len() implies is_fr(#[trigger] q[i]) by {
            let t = a.subrange(i + 1, a.len() as int);
            if t.len() > 0 {
                assert(horner(t, c) == fr_add(t[0], fr_mul(c, horner(t.drop_first(), c))));
            }
        }
        lemma_trim_canonical(q);
    }
}

/// Addition of polynomials is commutative.
pub proof fn lemma_poly_add_comm(p: Seq<int>, q: Seq<int>)
    ensures
        poly_add(p, q) == poly_add(q, p),
{
    lemma_results_canonical(p, q);
    lemma_results_canonical(q, p);
    assert forall|i: int| 0 <= i implies #[trigger] coeff(poly_add(p, q), i) == coeff(
        poly_add(q, p),
        i,
    ) by {
        lemma_add_coeff(p, q, i);
        lemma_add_coeff(q, p, i);
        lemma_add_comm(coeff(p, i), coeff(q, i));
    }
    lemma_coeff_ext(poly_add(p, q), poly_add(q, p));
}

/// Addition of polynomials is associative.
pub proof fn lemma_poly_add_assoc(p: Seq<int>, q: Seq<int>, r: Seq<int>)
    ensures
        poly_add(poly_add(p, q), r) == poly_add(p, poly_add(q, r)),
{
    let l = poly_add(poly_add(p, q), r);
    let m = poly_add(p, poly_add(q, r));
    lemma_results_canonical(poly_add(p, q), r);
    lemma_results_canonical(p, poly_add(q, r));
    assert forall|i: int| 0 <= i implies #[trigger] coeff(l, i) == coeff(m, i) by {
        lemma_add_coeff(poly_add(p, q), r, i);
        lemma_add_coeff(p, q, i);
        lemma_add_coeff(p, poly_add(q, r), i);
        lemma_add_coeff(q, r, i);
        lemma_add_assoc(coeff(p, i), coeff(q, i), coeff(r, i));
    }
    lemma_coeff_ext(l, m);
}

/// Adding the zero polynomial changes nothing.
pub proof fn lemma_poly_add_zero(p: Seq<int>)
    requires
        all_fr(p),
        is_canonical(p),
    ensures
        poly_add(p, Seq::empty()) == p,
        poly_add(Seq::empty(), p) == p,
{
    let z = Seq::<int>::empty();
    lemma_results_canonical(p, z);
    assert forall|i: int| 0 <= i implies #[trigger] coeff(poly_add(p, z), i) == coeff(p, i) by {
        lemma_add_coeff(p, z, i);
        if i < p.len() {
            lemma_add_zero(p[i]);
        } else {
            lemma_add_zero(0);
        }
    }
    lemma_coeff_ext(poly_add(p, z), p);
    lemma_poly_add_comm(p, z);
}

/// The coefficients of the product do not depend on the order of the factors.
pub proof fn lemma_conv_comm(a: Seq<int>, b: Seq<int>, k: int)
    ensures
        conv(a, b, k) == conv(b, a, k),
{
    if k >= 0 {
        let n = (k + 1) as nat;
        let f = conv_term(a, b, k);
        let g = conv_term(b, a, k);
        assert forall|i: int| 0 <= i < n implies #[trigger] g(i) == f(n - 1 - i) by {
            lemma_mul_comm(coeff(b, i), coeff(a, k - i));
            assert(k - (n - 1 - i) == i);
        }
        lemma_sum_reverse(f, g, n);
        lemma_conv_extended(a, b, k, n);
        lemma_conv_extended(b, a, k, n);
    }
}

/// Multiplication of polynomials is commutative.
pub proof fn lemma_poly_mul_comm(p: Seq<int>, q: Seq<int>)
    ensures
        poly_mul(p, q) == poly_mul(q, p),
{
    lemma_results_canonical(p, q);
    lemma_results_canonical(q, p);
    assert forall|k: int| 0 <= k implies #[trigger] coeff(poly_mul(p, q), k) == coeff(
        poly_mul(q, p),
        k,
    ) by {
        lemma_mul_coeff(p, q, k);
        lemma_mul_coeff(q, p, k);
        lemma_conv_comm(p, q, k);
    }
    lemma_coeff_ext(poly_mul(p, q), poly_mul(q, p));
}

/// The coefficient of `x^k` in a product of three polynomials, taken
/// either way, is the sum of `a_j b_(i - j) c_(k - i)` over all `i` and `j`.
pub proof fn lemma_conv_assoc(a: Seq<int>, b: Seq<int>, c: Seq<int>, k: int)
    requires
        k >= 0,
    ensures
        fr_sum(|i: int| fr_mul(conv(a, b, i), coeff(c, k - i)), (k + 1) as nat) == fr_sum(
            |j: int| fr_mul(coeff(a, j), conv(b, c, k - j)),
            (k + 1) as nat,
        ),
{
    let n = (k + 1) as nat;
    let t = |i: int, j: int| fr_mul(fr_mul(coeff(a, j), coeff(b, i - j)), coeff(c, k - i));
    let rows = |i: int| fr_mul(conv(a, b, i), coeff(c, k - i));
    let cols = |j: int| fr_mul(coeff(a, j), conv(b, c, k - j));
    assert forall|i: int| 0 <= i < n implies #[trigger] rows(i) == fr_sum(|j: int| t(i, j), n) by {
        let f = conv_term(a, b, i);
        let row = |j: int| t(i, j);
        lemma_conv_extended(a, b, i, n);
        assert forall|j: int| 0 <= j < n implies #[trigger] row(j) == fr_mul(
            coeff(c, k - i),
            f(j),
        ) by {
            lemma_mul_comm(f(j), coeff(c, k - i));
        }
        lemma_sum_scale(f, row, coeff(c, k - i), n);
        lemma_mul_comm(coeff(c, k - i), fr_sum(f, n));
    }
    assert forall|j: int| 0 <= j < n implies #[trigger] cols(j) == fr_sum(|i: int| t(i, j), n) by {
        let g = conv_term(b, c, k - j);
        let col = |i: int| t(i, j);
        let shifted = |l: int| fr_mul(coeff(a, j), g(l));
        assert forall|i: int| 0 <= i < j implies #[trigger] col(i) == 0 by {
            lemma_mul_zero(coeff(a, j));
            lemma_mul_zero(coeff(c, k - i));
        }
        assert forall|l: int| 0 <= l < n - j implies #[trigger] shifted(l) == col(l + j) by {
            lemma_mul_assoc(coeff(a, j), coeff(b, l), coeff(c, k - j - l));
            assert(l + j - j == l);
            assert(k - (l + j) == k - j - l);
        }
        lemma_sum_shift(col, shifted, j as nat, n);
        lemma_sum_scale(g, shifted, coeff(a, j), (n - j) as nat);
        lemma_conv_extended(b, c, k - j, (n - j) as nat);
    }
    lemma_sum_swap(t, rows, cols, n, n);
}

/// Multiplication of polynomials is associative.
pub proof fn lemma_poly_mul_assoc(p: Seq<int>, q: Seq<int>, r: Seq<int>)
    ensures
        poly_mul(poly_mul(p, q), r) == poly_mul(p, poly_mul(q, r)),
{
    let pq = poly_mul(p, q);
    let qr = poly_mul(q, r);
    lemma_results_canonical(pq, r);
    lemma_results_canonical(p, qr);
    assert forall|k: int| 0 <= k implies #[trigger] coeff(poly_mul(pq, r), k) == coeff(
        poly_mul(p, qr),
        k,
    ) by {
        let n = (k + 1) as nat;
        lemma_mul_coeff(pq, r, k);
        lemma_mul_coeff(p, qr, k);
        lemma_conv_assoc(p, q, r, k);
        let f = conv_term(pq, r, k);
        let f2 = |i: int| fr_mul(conv(p, q, i), coeff(r, k - i));
        assert forall|i: int| 0 <= i < n implies #[trigger] f(i) == f2(i) by {
            lemma_mul_coeff(p, q, i);
        }
        lemma_sum_ext(f, f2, n);
        lemma_conv_extended(pq, r, k, n);
        let g = conv_term(p, qr, k);
        let g2 = |j: int| fr_mul(coeff(p, j), conv(q, r, k - j));
        assert forall|j: int| 0 <= j < n implies #[trigger] g(j) == g2(j) by {
            lemma_mul_coeff(q, r, k - j);
        }
        lemma_sum_ext(g, g2, n);
        lemma_conv_extended(p, qr, k, n);
        lemma_sum_ext(f2, |i: int| fr_mul(conv(p, q, i), coeff(r, k - i)), n);
        lemma_sum_ext(g2, |j: int| fr_mul(coeff(p, j), conv(q, r, k - j)), n);
    }
    lemma_coeff_ext(poly_mul(pq, r), poly_mul(p, qr));
}

/// Multiplication distributes over addition: `p (q + r) == p q + p r`.
pub proof fn lemma_poly_mul_distributes(p: Seq<int>, q: Seq<int>, r: Seq<int>)
    ensures
        poly_mul(p, poly_add(q, r)) == poly_add(poly_mul(p, q), poly_mul(p, r)),
{
    let s = poly_add(q, r);
    lemma_results_canonical(p, s);
    lemma_results_canonical(poly_mul(p, q), poly_mul(p, r));
    assert forall|k: int| 0 <= k implies #[trigger] coeff(poly_mul(p, s), k) == coeff(
        poly_add(poly_mul(p, q), poly_mul(p, r)),
        k,
    ) by {
        let n = (k + 1) as nat;
        lemma_mul_coeff(p, s, k);
        lemma_add_coeff(poly_mul(p, q), poly_mul(p, r), k);
        lemma_mul_coeff(p, q, k);
        lemma_mul_coeff(p, r, k);
        let f = conv_term(p, q, k);
        let g = conv_term(p, r, k);
        let h = conv_term(p, s, k);
        assert forall|i: int| 0 <= i < n implies #[trigger] h(i) == fr_add(f(i), g(i)) by {
            lemma_add_coeff(q, r, k - i);
            lemma_mul_distributes(coeff(p, i), coeff(q, k - i), coeff(r, k - i));
        }
        lemma_sum_add(f, g, h, n);
        lemma_conv_extended(p, q, k, n);
        lemma_conv_extended(p, r, k, n);
        lemma_conv_extended(p, s, k, n);
    }
    lemma_coeff_ext(poly_mul(p, s), poly_add(poly_mul(p, q), poly_mul(p, r)));
}

/// Multiplying by the constant one changes nothing.
pub proof fn lemma_poly_mul_one(p: Seq<int>)
    requires
        all_fr(p),
        is_canonical(p),
    ensures
        poly_mul(p, seq![1int]) == p,
{
    let one = seq![1int];
    lemma_results_canonical(p, one);
    assert forall|k: int| 0 <= k implies #[trigger] coeff(poly_mul(p, one), k) == coeff(p, k) by {
        let n = (k + 1) as nat;
        lemma_mul_coeff(p, one, k);
        let f = conv_term(p, one, k);
        assert forall|i: int| 0 <= i < n && i != k implies #[trigger] f(i) == 0 by {
            lemma_mul_zero(coeff(p, i));
        }
        broadcast use group_fr_closed;

        if k < p.len() {
            lemma_mul_one(p[k]);
        } else {
            lemma_mul_zero(1);
        }
        lemma_sum_single(f, n, k);
        lemma_conv_extended(p, one, k, n);
    }
    lemma_coeff_ext(poly_mul(p, one), p);
}

/// Multiplying by the zero polynomial gives the zero polynomial.
pub proof fn lemma_poly_mul_zero(p: Seq<int>)
    ensures
        poly_mul(p, Seq::empty()) == Seq::<int>::empty(),
        poly_mul(Seq::empty(), p) == Seq::<int>::empty(),
{
}

/// The degree of a product of polynomials other than zero is the sum of
/// the degrees.
pub proof fn lemma_poly_mul_degree(p: Seq<int>, q: Seq<int>)
    requires
        all_fr(p),
        all_fr(q),
        is_canonical(p),
        is_canonical(q),
        p.len() > 0,
        q.len() > 0,
    ensures
        poly_mul(p, q).len() > 0,
        degree(poly_mul(p, q)) == degree(p) + degree(q),
{
    broadcast use group_fr_closed;

    if fr_mul(p.last(), q.last()) == 0 {
        crate::field::lemma_no_zero_divisors(p.last(), q.last());
    }

    let top = p.len() + q.len() - 2;
    let c = Seq::new((top + 1) as nat, |k: int| conv(p, q, k));
    lemma_trim_canonical(c);
    let f = conv_term(p, q, top);
    let i0 = p.len() - 1;
    assert forall|i: int| 0 <= i < top + 1 && i != i0 implies #[trigger] f(i) == 0 by {
        lemma_mul_zero(coeff(p, i));
        lemma_mul_zero(coeff(q, top - i));
    }
    assert(f(i0) == fr_mul(p.last(), q.last()));
    lemma_sum_single(f, (top + 1) as nat, i0);
    lemma_conv_extended(p, q, top, (top + 1) as nat);
    if fr_mul(p.last(), q.last()) != 0 {
        assert(c.last() == conv(p, q, top));
        lemma_trim_of_canonical(c);
    }
}

/// Evaluation respects addition: `(p + q)(z) == p(z) + q(z)`.
pub proof fn lemma_eval_add(p: Seq<int>, q: Seq<int>, z: int)
    ensures
        poly_eval(poly_add(p, q), z) == fr_add(poly_eval(p, z), poly_eval(q, z)),
{
    let m = max_len(p, q);
    let s = Seq::new(m, |i: int| fr_add(coeff(p, i), coeff(q, i)));
    lemma_eval_trim(s, z);
    let f = |i: int| fr_mul(coeff(p, i), fr_pow(z, i as nat));
    let g = |i: int| fr_mul(coeff(q, i), fr_pow(z, i as nat));
    let h = |i: int| fr_mul(coeff(s, i), fr_pow(z, i as nat));
    assert forall|i: int| 0 <= i < m implies #[trigger] h(i) == fr_add(f(i), g(i)) by {
        lemma_mul_distributes(fr_pow(z, i as nat), coeff(p, i), coeff(q, i));
    }
    lemma_sum_add(f, g, h, m);
    assert forall|i: int| p.len() <= i < m implies #[trigger] f(i) == 0 by {
        lemma_mul_zero(fr_pow(z, i as nat));
    }
    assert forall|i: int| q.len() <= i < m implies #[trigger] g(i) == 0 by {
        lemma_mul_zero(fr_pow(z, i as nat));
    }
    lemma_sum_extend(f, p.len(), m);
    lemma_sum_extend(g, q.len(), m);
    lemma_eval_as_sum(p, z, f);
    lemma_eval_as_sum(q, z, g);
    lemma_eval_as_sum(s, z, h);
}

/// Evaluation respects multiplication: `(p q)(z) == p(z) q(z)`.
pub proof fn lemma_eval_mul(p: Seq<int>, q: Seq<int>, z: int)
    ensures
        poly_eval(poly_mul(p, q), z) == fr_mul(poly_eval(p, z), poly_eval(q, z)),
{
    if p.len() == 0 || q.len() == 0 {
        lemma_mul_zero(poly_eval(p, z));
        lemma_mul_zero(poly_eval(q, z));
    } else {
        let n = (p.len() + q.len() - 1) as nat;
        lemma_eval_conv(p, q, z, n);
        lemma_eval_trim(Seq::new(n, |k: int| conv(p, q, k)), z);
    }
}

/// Horner's rule gives the value of the polynomial.
pub proof fn lemma_horner_is_eval(p: Seq<int>, z: int)
    requires
        all_fr(p),
    ensures
        horner(p, z) == poly_eval(p, z),
    decreases p.len(),
{
    if p.len() > 0 {
        let rest = p.drop_first();
        lemma_horner_is_eval(rest, z);
        let f = |i: int| fr_mul(coeff(p, i), fr_pow(z, i as nat));
        let g = |i: int| fr_mul(coeff(rest, i), fr_pow(z, i as nat));
        let zg = |i: int| fr_mul(z, g(i));
        let m = (p.len() - 1) as nat;
        assert forall|i: int| 0 <= i < m implies #[trigger] zg(i) == f(i + 1) by {
            lemma_pow_succ(z, i as nat);
            let c = p[i + 1];
            let w = fr_pow(z, i as nat);
            // z (c w) == c (z w)
            lemma_mul_assoc(z, c, w);
            lemma_mul_comm(z, c);
            lemma_mul_assoc(c, z, w);
        }
        lemma_sum_first(f, zg, p.len());
        lemma_sum_scale(g, zg, z, m);
        lemma_mul_one(p[0]);
        lemma_eval_as_sum(p, z, f);
        lemma_eval_as_sum(rest, z, g);
    }
}

/// The value of the tail of `p` from place `i` on, by Horner's rule; zero
/// beyond the end.
pub open spec fn tail_value(p: Seq<int>, z: int, i: int) -> int {
    if 0 <= i <= p.len() {
        horner(p.subrange(i, p.len() as int), z)
    } else {
        0
    }
}

/// The coefficients of the quotient by `x - z` are the values of the tails.
pub proof fn lemma_ruffini_coeff(p: Seq<int>, z: int, i: int)
    requires
        i >= 0,
    ensures
        coeff(ruffini_quotient(p, z), i) == tail_value(p, z, i + 1),
{
    if p.len() > 0 {
        let q = Seq::new(
            (p.len() - 1) as nat,
            |i: int| horner(p.subrange(i + 1, p.len() as int), z),
        );
        lemma_trim_coeff(q, i);
        if i == p.len() - 1 {
            assert(p.subrange(i + 1, p.len() as int) =~= Seq::<int>::empty());
        }
    }
}

/// Each tail is its first coefficient plus `z` times the next tail.
pub proof fn lemma_tail_step(p: Seq<int>, z: int, i: int)
    requires
        0 <= i < p.len(),
    ensures
        tail_value(p, z, i) == fr_add(p[i], fr_mul(z, tail_value(p, z, i + 1))),
{
    let t = p.subrange(i, p.len() as int);
    assert(t.drop_first() =~= p.subrange(i + 1, p.len() as int));
}

/// The law of Ruffini's rule: the quotient `q` of `p` by `x - z` satisfies
/// `q (x - z) + p(z) == p`.
pub proof fn lemma_ruffini(p: Seq<int>, z: int)
    requires
        all_fr(p),
        is_canonical(p),
        is_fr(z),
    ensures
        poly_add(poly_mul(ruffini_quotient(p, z), linear_factor(z)), poly_const(poly_eval(p, z)))
            == p,
{
    broadcast use group_fr_closed;

    let q = ruffini_quotient(p, z);
    let lin = linear_factor(z);
    let v = poly_eval(p, z);
    let lhs = poly_add(poly_mul(q, lin), poly_const(v));
    lemma_results_canonical(poly_mul(q, lin), poly_const(v));
    lemma_horner_is_eval(p, z);
    assert(p.subrange(0, p.len() as int) =~= p);
    assert forall|k: int| 0 <= k implies #[trigger] coeff(lhs, k) == coeff(p, k) by {
        let n = (k + 1) as nat;
        lemma_add_coeff(poly_mul(q, lin), poly_const(v), k);
        lemma_mul_coeff(q, lin, k);
        lemma_trim_coeff(seq![v], k);
        let f = conv_term(q, lin, k);
        lemma_conv_extended(q, lin, k, n);
        lemma_ruffini_coeff(p, z, k);
        let hi = tail_value(p, z, k + 1);
        let zh = fr_mul(z, hi);
        lemma_mul_comm(hi, fr_neg(z));
        lemma_mul_neg(z, hi);
        assert(f(k) == fr_neg(zh));
        if k == 0 {
            assert(fr_sum(f, 1) == fr_add(fr_sum(f, 0), f(0)));
            lemma_add_zero(f(0));
            if p.len() > 0 {
                lemma_tail_step(p, z, 0);
                // -(z h) + (p_0 + z h) == p_0
                lemma_add_comm(fr_neg(zh), fr_add(p[0], zh));
                lemma_add_assoc(p[0], zh, fr_neg(zh));
                lemma_add_neg(zh);
                lemma_add_zero(p[0]);
            } else {
                lemma_mul_zero(z);
                crate::field::lemma_neg_zero();
                lemma_add_zero(0);
            }
        } else {
            lemma_ruffini_coeff(p, z, k - 1);
            let lo = tail_value(p, z, k);
            lemma_mul_one(lo);
            assert(f(k - 1) == lo);
            assert forall|i: int| 0 <= i < k - 1 implies #[trigger] f(i) == 0 by {
                lemma_mul_zero(coeff(q, i));
            }
            lemma_sum_zero(f, (k - 1) as nat);
            assert(fr_sum(f, n) == fr_add(fr_sum(f, k as nat), f(k)));
            assert(fr_sum(f, k as nat) == fr_add(fr_sum(f, (k - 1) as nat), f(k - 1)));
            lemma_add_zero(lo);
            lemma_add_zero(fr_add(lo, fr_neg(zh)));
            if k < p.len() {
                lemma_tail_step(p, z, k);
                // (p_k + z h) - z h == p_k
                lemma_add_assoc(p[k], zh, fr_neg(zh));
                lemma_add_neg(zh);
                lemma_add_zero(p[k]);
            } else {
                if k == p.len() {
                    assert(p.subrange(k, p.len() as int) =~= Seq::<int>::empty());
                }
                lemma_mul_zero(z);
                crate::field::lemma_neg_zero();
                lemma_add_zero(0);
            }
        }
    }
    lemma_coeff_ext(lhs, p);
}

/// The zero polynomial divided by any `x - z` is the zero polynomial.
pub proof fn lemma_ruffini_of_zero(z: int)
    ensures
        ruffini_quotient(Seq::empty(), z) == Seq::<int>::empty(),
{
}

} // verus!
