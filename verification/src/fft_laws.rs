//! Why interpolation undoes evaluation: the powers of a root of unity add
//! up to zero, and with that the inverse transform gives the coefficients back.

use vstd::prelude::*;
use vstd::arithmetic::power2::{lemma2_to64, lemma_pow2_adds, pow2};
use crate::domain::{idft, lagrange_coefficient, lemma_group_generator, resized};
use crate::fft::{
    dft, is_primitive_root, lemma_eval_as_sum, lemma_mul_neg_one, lemma_neg_one,
    lemma_pow_of_square, lemma_square_is_primitive,
};
use crate::field::{
    fr_mul, fr_pow, group_fr_closed, is_fr, lemma_add_neg, lemma_add_zero, lemma_mul_assoc,
    lemma_mul_comm, lemma_mul_one, lemma_mul_reduce, lemma_mul_zero, lemma_pow_add,
    lemma_pow_of_mul, lemma_pow_of_one, lemma_pow_pow, modulus,
};
use crate::poly::{all_fr, coeff, conv, lemma_trim_ext, poly_eval, poly_mul, trim};
use crate::poly_laws::{lemma_conv_is_fr, lemma_conv_zero_beyond, lemma_eval_conv, lemma_eval_ext};
use crate::roots::{group_generator, lemma_squarings_is_pow, neg_one};
use crate::sums::{
    fr_sum, lemma_sum_const, lemma_sum_ext, lemma_sum_scale, lemma_sum_single, lemma_sum_split,
    lemma_sum_swap,
};

verus! {

/// The powers of minus one are one and minus one in turn.
pub proof fn lemma_pow_neg_one(d: nat)
    ensures
        fr_pow(neg_one(), d) == if d % 2 == 0 {
            1
        } else {
            neg_one()
        },
    decreases d,
{
    lemma_neg_one();
    if d > 0 {
        lemma_pow_neg_one((d - 1) as nat);
        lemma_mul_one(neg_one());
        lemma_mul_neg_one(neg_one());
        crate::field::lemma_neg_neg(1);
    }
}

/// The powers of a root of unity other than one, taken over the whole
/// group, add up to zero.
pub proof fn lemma_geometric_zero(w: int, log: nat, d: nat)
    requires
        is_primitive_root(w, log),
        0 < d < pow2(log),
    ensures
        fr_sum(|i: int| fr_pow(fr_pow(w, d), i as nat), pow2(log)) == 0,
    decreases log,
{
    broadcast use group_fr_closed;

    lemma2_to64();
    if log == 0 {
        assert(false);
    } else {
        let n = pow2(log);
        let half = pow2((log - 1) as nat);
        lemma_pow2_adds((log - 1) as nat, 1);
        assert(n == half + half) by (nonlinear_arith)
            requires
                n == half * 2,
        ;
        let h = fr_pow(w, d);
        let f = |i: int| fr_pow(h, i as nat);
        let g = |i: int| fr_mul(fr_pow(h, half), f(i));
        assert forall|i: int| 0 <= i < half implies #[trigger] g(i) == f(half + i) by {
            lemma_pow_add(h, half, i as nat);
        }
        lemma_sum_split(f, g, half, half);
        lemma_sum_scale(f, g, fr_pow(h, half), half);
        let s = fr_sum(f, half);
        // h^half == (w^half)^d == (-1)^d
        lemma_pow_pow(w, d, half);
        lemma_pow_pow(w, half, d);
        assert(d * half == half * d) by (nonlinear_arith);
        lemma_squarings_is_pow(w, (log - 1) as nat);
        lemma_pow_neg_one(d);
        if d % 2 == 1 {
            lemma_mul_comm(neg_one(), s);
            lemma_mul_neg_one(s);
            lemma_add_neg(s);
        } else {
            let d2 = (d / 2) as nat;
            assert(d == 2 * d2);
            assert(log >= 2) by {
                if log == 1 {
                    assert(n == 2);
                }
            }
            let w2 = fr_mul(w, w);
            lemma_square_is_primitive(w, log);
            lemma_pow_of_square(w, d2);
            lemma_geometric_zero(w2, (log - 1) as nat, d2);
            lemma_sum_ext(|i: int| fr_pow(fr_pow(w2, d2), i as nat), f, half);
            lemma_mul_zero(1);
            lemma_add_zero(0);
        }
    }
}

/// A power of a root of unity times a power of its inverse is a power of
/// one of the two with the difference of the exponents.
proof fn lemma_mixed_power(w: int, wi: int, k: nat, j: nat)
    requires
        is_fr(w),
        is_fr(wi),
        fr_mul(w, wi) == 1,
    ensures
        k >= j ==> fr_mul(fr_pow(w, k), fr_pow(wi, j)) == fr_pow(w, (k - j) as nat),
        k < j ==> fr_mul(fr_pow(w, k), fr_pow(wi, j)) == fr_pow(wi, (j - k) as nat),
{
    broadcast use group_fr_closed;

    if k >= j {
        let d = (k - j) as nat;
        lemma_pow_add(w, d, j);
        lemma_mul_assoc(fr_pow(w, d), fr_pow(w, j), fr_pow(wi, j));
        lemma_pow_of_mul(w, wi, j);
        lemma_pow_of_one(j);
        lemma_mul_one(fr_pow(w, d));
    } else {
        let d = (j - k) as nat;
        lemma_pow_add(wi, k, d);
        lemma_mul_assoc(fr_pow(w, k), fr_pow(wi, k), fr_pow(wi, d));
        lemma_pow_of_mul(w, wi, k);
        lemma_pow_of_one(k);
        lemma_mul_one(fr_pow(wi, d));
    }
}

/// The heart of the inversion: the values of `c` at the powers of `w`,
/// read as coefficients and evaluated at the `j`-th power of the inverse
/// of `w`, give the `j`-th coefficient of `c` times the length.
pub proof fn lemma_dft_core(c: Seq<int>, w: int, wi: int, log: nat, j: nat)
    requires
        c.len() == pow2(log),
        is_primitive_root(w, log),
        is_primitive_root(wi, log),
        fr_mul(w, wi) == 1,
        j < c.len(),
    ensures
        poly_eval(dft(c, w), fr_pow(wi, j)) == fr_mul(c[j as int], c.len() as int),
{
    broadcast use group_fr_closed;

    let n = c.len();
    let e = dft(c, w);
    let y = fr_pow(wi, j);
    // the term for the value at w^i and the coefficient c_k
    let t = |i: int, k: int| fr_mul(fr_mul(c[k], fr_pow(fr_pow(w, i as nat), k as nat)), fr_pow(y, i as nat));
    let rows = |i: int| fr_mul(coeff(e, i), fr_pow(y, i as nat));
    let cols = |k: int| fr_mul(c[k], if k == j { fr_mul(n as int, 1) } else { 0 });

    assert forall|i: int| 0 <= i < n implies #[trigger] rows(i) == fr_sum(|k: int| t(i, k), n) by {
        let x = fr_pow(w, i as nat);
        let inner = |k: int| fr_mul(coeff(c, k), fr_pow(x, k as nat));
        let scaled = |k: int| t(i, k);
        lemma_eval_as_sum(c, x, inner);
        assert forall|k: int| 0 <= k < n implies #[trigger] scaled(k) == fr_mul(
            fr_pow(y, i as nat),
            inner(k),
        ) by {
            lemma_mul_comm(inner(k), fr_pow(y, i as nat));
        }
        lemma_sum_scale(inner, scaled, fr_pow(y, i as nat), n);
        lemma_mul_comm(fr_pow(y, i as nat), fr_sum(inner, n));
        assert(e[i] == poly_eval(c, x));
    }
    assert forall|k: int| 0 <= k < n implies #[trigger] cols(k) == fr_sum(|i: int| t(i, k), n) by {
        let rho = fr_mul(fr_pow(w, k as nat), y);
        let geo = |i: int| fr_pow(rho, i as nat);
        let col = |i: int| t(i, k);
        assert forall|i: int| 0 <= i < n implies #[trigger] col(i) == fr_mul(c[k], geo(i)) by {
            // (w^i)^k (y^i) == (w^k y)^i
            lemma_pow_pow(w, i as nat, k as nat);
            lemma_pow_pow(w, k as nat, i as nat);
            assert(i * k == k * i) by (nonlinear_arith);
            lemma_pow_of_mul(fr_pow(w, k as nat), y, i as nat);
            lemma_mul_assoc(c[k], fr_pow(fr_pow(w, i as nat), k as nat), fr_pow(y, i as nat));
        }
        lemma_sum_scale(geo, col, c[k], n);
        lemma_mixed_power(w, wi, k as nat, j);
        if k == j {
            assert(rho == 1) by {
                assert(fr_pow(w, 0) == 1);
            }
            assert forall|i: int| 0 <= i < n implies #[trigger] geo(i) == 1 by {
                lemma_pow_of_one(i as nat);
            }
            lemma_sum_const(geo, 1, n);
        } else if k > j {
            lemma_geometric_zero(w, log, (k - j) as nat);
            lemma_sum_ext(|i: int| fr_pow(fr_pow(w, (k - j) as nat), i as nat), geo, n);
        } else {
            lemma_geometric_zero(wi, log, (j - k) as nat);
            lemma_sum_ext(|i: int| fr_pow(fr_pow(wi, (j - k) as nat), i as nat), geo, n);
        }
    }
    lemma_sum_swap(t, rows, cols, n, n);
    lemma_eval_as_sum(e, y, rows);
    assert forall|k: int| 0 <= k < n && k != j implies #[trigger] cols(k) == 0 by {
        lemma_mul_zero(c[k]);
    }
    lemma_sum_single(cols, n, j as int);
    lemma_mul_reduce(n as int, 1);
    reveal(fr_mul);
    assert(fr_mul(n as int, 1) == (n as int) % modulus());
    lemma_mul_reduce(c[j as int], n as int);
}

/// Interpolating the values of a polynomial gives its coefficients back.
pub proof fn lemma_idft_of_dft(c: Seq<int>, w: int, wi: int, n_inv: int, log: nat)
    requires
        c.len() == pow2(log),
        all_fr(c),
        is_primitive_root(w, log),
        is_primitive_root(wi, log),
        fr_mul(w, wi) == 1,
        fr_mul(c.len() as int, n_inv) == 1,
    ensures
        idft(dft(c, w), wi, n_inv) == c,
{
    let r = idft(dft(c, w), wi, n_inv);
    assert forall|j: int| 0 <= j < c.len() implies r[j] == c[j] by {
        lemma_dft_core(c, w, wi, log, j as nat);
        lemma_mul_assoc(c[j], c.len() as int, n_inv);
        lemma_mul_one(c[j]);
    }
    assert(r =~= c);
}

/// Multiplying the values of two polynomials on a group that is large
/// enough, and interpolating, gives the product of the polynomials.
pub proof fn lemma_product_by_transform(
    a: Seq<int>,
    b: Seq<int>,
    w: int,
    wi: int,
    n_inv: int,
    log: nat,
)
    requires
        a.len() >= 1,
        b.len() >= 1,
        a.len() + b.len() <= pow2(log),
        is_primitive_root(w, log),
        is_primitive_root(wi, log),
        fr_mul(w, wi) == 1,
        fr_mul(pow2(log) as int, n_inv) == 1,
    ensures
        ({
            let n = pow2(log);
            let fa = dft(resized(a, n), w);
            let fb = dft(resized(b, n), w);
            trim(idft(Seq::new(n, |i: int| fr_mul(fa[i], fb[i])), wi, n_inv)) == poly_mul(a, b)
        }),
{
    let n = pow2(log);
    let fa = dft(resized(a, n), w);
    let fb = dft(resized(b, n), w);
    let prod = Seq::new(n, |i: int| fr_mul(fa[i], fb[i]));
    let c = Seq::new(n, |k: int| conv(a, b, k));
    assert forall|i: int| 0 <= i < n implies prod[i] == dft(c, w)[i] by {
        let x = fr_pow(w, i as nat);
        lemma_eval_conv(a, b, x, n);
        lemma_eval_ext(resized(a, n), a, x);
        lemma_eval_ext(resized(b, n), b, x);
    }
    assert(prod =~= dft(c, w));
    assert forall|k: int| 0 <= k < c.len() implies is_fr(#[trigger] c[k]) by {
        lemma_conv_is_fr(a, b, k);
    }
    lemma_idft_of_dft(c, w, wi, n_inv, log);
    let short = Seq::new((a.len() + b.len() - 1) as nat, |k: int| conv(a, b, k));
    assert forall|k: int| 0 <= k implies #[trigger] coeff(c, k) == coeff(short, k) by {
        if k >= a.len() + b.len() - 1 {
            lemma_conv_zero_beyond(a, b, k);
        }
    }
    lemma_trim_ext(c, short);
}

/// No power of a generator below the order of its group is one.
pub proof fn lemma_power_not_one(w: int, log: nat, d: nat)
    requires
        is_primitive_root(w, log),
        0 < d < pow2(log),
    ensures
        fr_pow(w, d) != 1,
    decreases log,
{
    lemma2_to64();
    if log == 0 {
        assert(false);
    } else {
        let half = pow2((log - 1) as nat);
        lemma_pow2_adds((log - 1) as nat, 1);
        if d % 2 == 1 {
            // (w^d)^half == (w^half)^d == -1
            lemma_pow_pow(w, d, half);
            lemma_pow_pow(w, half, d);
            assert(d * half == half * d) by (nonlinear_arith);
            lemma_squarings_is_pow(w, (log - 1) as nat);
            lemma_pow_neg_one(d);
            lemma_pow_of_one(half);
        } else {
            let d2 = (d / 2) as nat;
            assert(d == 2 * d2);
            assert(log >= 2) by {
                if log == 1 {
                    assert(pow2(log) == 2);
                }
            }
            assert(d2 < half) by (nonlinear_arith)
                requires
                    2 * d2 < pow2(log),
                    pow2(log) == half * 2,
            ;
            lemma_square_is_primitive(w, log);
            lemma_pow_of_square(w, d2);
            lemma_power_not_one(fr_mul(w, w), (log - 1) as nat, d2);
        }
    }
}

/// The powers of a generator below the order of its group differ from each other.
pub proof fn lemma_powers_distinct(w: int, log: nat, i: nat, j: nat)
    requires
        is_primitive_root(w, log),
        i < j < pow2(log),
    ensures
        fr_pow(w, i) != fr_pow(w, j),
{
    broadcast use group_fr_closed;

    let n = pow2(log);
    // the inverse of w is w^(n - 1)
    let wi = fr_pow(w, (n - 1) as nat);
    assert(log >= 1) by {
        lemma2_to64();
    }
    lemma_squarings_is_pow(w, (log - 1) as nat);
    let half = pow2((log - 1) as nat);
    lemma_pow2_adds((log - 1) as nat, 1);
    lemma2_to64();
    assert(n == half + half) by (nonlinear_arith)
        requires
            n == half * 2,
    ;
    lemma_pow_add(w, half, half);
    lemma_mul_neg_one(neg_one());
    lemma_neg_one();
    crate::field::lemma_neg_neg(1);
    assert(fr_pow(w, n) == 1);
    crate::field::lemma_pow_succ(w, (n - 1) as nat);
    assert(fr_mul(w, wi) == 1);
    lemma_mixed_power(w, wi, j, i);
    lemma_mixed_power(w, wi, i, i);
    assert(fr_pow(w, 0) == 1);
    lemma_power_not_one(w, log, (j - i) as nat);
}

/// On the domain the Lagrange polynomials are one at their own element
/// and zero at the others.
pub proof fn lemma_lagrange_on_domain(log: nat, i: nat, j: nat)
    requires
        log <= 32,
        i < pow2(log),
        j < pow2(log),
    ensures
        lagrange_coefficient(
            group_generator(log),
            pow2(log),
            i,
            fr_pow(group_generator(log), j),
        ) == if i == j {
            1int
        } else {
            0int
        },
{
    reveal(lagrange_coefficient);
    let w = group_generator(log);
    let n = pow2(log);
    lemma_group_generator(log);
    lemma_squarings_is_pow(w, log);
    lemma_pow_pow(w, j, n);
    lemma_pow_pow(w, n, j);
    lemma_pow_of_one(j);
    assert(j * n == n * j) by (nonlinear_arith);
    if i < j {
        lemma_powers_distinct(w, log, i, j);
    }
    if j < i {
        lemma_powers_distinct(w, log, j, i);
    }
}

/// The polynomial that interpolation gives has the values that were
/// interpolated.
pub proof fn lemma_dft_of_idft(e: Seq<int>, w: int, wi: int, n_inv: int, log: nat)
    requires
        e.len() == pow2(log),
        all_fr(e),
        is_primitive_root(w, log),
        is_primitive_root(wi, log),
        fr_mul(w, wi) == 1,
        fr_mul(e.len() as int, n_inv) == 1,
    ensures
        dft(idft(e, wi, n_inv), w) == e,
{
    broadcast use group_fr_closed;

    let n = e.len();
    let t = dft(e, wi);
    let c = idft(e, wi, n_inv);
    let r = dft(c, w);
    assert forall|i: int| 0 <= i < n implies r[i] == e[i] by {
        let x = fr_pow(w, i as nat);
        // c is t scaled by the inverse of the length
        let f = |k: int| fr_mul(coeff(t, k), fr_pow(x, k as nat));
        let g = |k: int| fr_mul(coeff(c, k), fr_pow(x, k as nat));
        assert forall|k: int| 0 <= k < n implies #[trigger] g(k) == fr_mul(n_inv, f(k)) by {
            let p = fr_pow(x, k as nat);
            lemma_mul_comm(t[k], n_inv);
            lemma_mul_assoc(n_inv, t[k], p);
        }
        lemma_sum_scale(f, g, n_inv, n);
        lemma_eval_as_sum(t, x, f);
        lemma_eval_as_sum(c, x, g);
        lemma_mul_comm(w, wi);
        lemma_dft_core(e, wi, w, log, i as nat);
        lemma_mul_comm(n_inv, fr_mul(e[i], n as int));
        lemma_mul_assoc(e[i], n as int, n_inv);
        lemma_mul_one(e[i]);
    }
    assert(r =~= e);
}

} // verus!
