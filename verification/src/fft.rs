//! The fast Fourier transform over the scalar field: the values of a
//! polynomial at all powers of a root of unity of two-power order.

use vstd::prelude::*;
use vstd::arithmetic::power2::{lemma2_to64, lemma_pow2_adds, lemma_pow2_pos, pow2};
use crate::field::{
    fr_add, fr_mul, fr_neg, fr_pow, fr_sub, group_fr_closed, is_fr, lemma_mul_assoc,
    lemma_mul_comm, lemma_mul_neg, lemma_mul_one, lemma_neg_neg, lemma_pow_add, lemma_pow_of_mul,
    lemma_pow_succ, lemma_sub_is_add_neg, modulus,
};
use crate::poly::{coeff, poly_eval};
use crate::roots::{lemma_squarings_add, lemma_squarings_is_pow, neg_one, squarings};
use crate::scalar::Scalar;
use crate::sums::{fr_sum, lemma_sum_by_parity, lemma_sum_ext, lemma_sum_scale};
use crate::util::{scalar_values, scalars_wf};

verus! {

/// The coefficients at the even places.
pub open spec fn evens(a: Seq<int>) -> Seq<int> {
    Seq::new(a.len() / 2, |i: int| a[2 * i])
}

/// The coefficients at the odd places.
pub open spec fn odds(a: Seq<int>) -> Seq<int> {
    Seq::new(a.len() / 2, |i: int| a[2 * i + 1])
}

/// The values of the polynomial `c` at `1, w, w^2, ..`, as many as it has coefficients.
pub open spec fn dft(c: Seq<int>, w: int) -> Seq<int> {
    Seq::new(c.len(), |i: int| poly_eval(c, fr_pow(w, i as nat)))
}

/// `w` generates a group of order `2^log_n`: raised to half that order it is minus one.
pub open spec fn is_primitive_root(w: int, log_n: nat) -> bool {
    is_fr(w) && (log_n >= 1 ==> squarings(w, (log_n - 1) as nat) == neg_one())
}

/// A sum of terms `p_i z^i` is the value of `p` at `z`.
pub proof fn lemma_eval_as_sum(p: Seq<int>, z: int, f: spec_fn(int) -> int)
    requires
        forall|i: int| 0 <= i < p.len() ==> #[trigger] f(i) == fr_mul(coeff(p, i), fr_pow(z, i as nat)),
    ensures
        poly_eval(p, z) == fr_sum(f, p.len()),
{
    lemma_sum_ext(f, |i: int| fr_mul(coeff(p, i), fr_pow(z, i as nat)), p.len());
}

/// The power of a square is the power with twice the exponent.
pub proof fn lemma_pow_of_square(x: int, i: nat)
    ensures
        fr_pow(fr_mul(x, x), i) == fr_pow(x, 2 * i),
{
    lemma_pow_of_mul(x, x, i);
    lemma_pow_add(x, i, i);
}

/// A polynomial of even length is its even part at `x^2` plus `x` times
/// its odd part at `x^2`.
pub proof fn lemma_eval_split(a: Seq<int>, x: int)
    requires
        a.len() % 2 == 0,
    ensures
        poly_eval(a, x) == fr_add(
            poly_eval(evens(a), fr_mul(x, x)),
            fr_mul(x, poly_eval(odds(a), fr_mul(x, x))),
        ),
{
    let m = a.len() / 2;
    let x2 = fr_mul(x, x);
    let f = |j: int| fr_mul(coeff(a, j), fr_pow(x, j as nat));
    let e = |i: int| fr_mul(coeff(evens(a), i), fr_pow(x2, i as nat));
    let o = |i: int| fr_mul(coeff(odds(a), i), fr_pow(x2, i as nat));
    let xo = |i: int| fr_mul(x, o(i));
    assert forall|i: int| 0 <= i < m implies #[trigger] e(i) == f(2 * i) by {
        lemma_pow_of_square(x, i as nat);
    }
    assert forall|i: int| 0 <= i < m implies #[trigger] xo(i) == f(2 * i + 1) by {
        lemma_pow_of_square(x, i as nat);
        let c = a[2 * i + 1];
        let p = fr_pow(x, (2 * i) as nat);
        lemma_pow_succ(x, (2 * i) as nat);
        // x (c p) == c (x p)
        lemma_mul_assoc(x, c, p);
        lemma_mul_comm(x, c);
        lemma_mul_assoc(c, x, p);
    }
    lemma_sum_by_parity(f, e, xo, m);
    lemma_sum_scale(o, xo, x, m);
    lemma_eval_as_sum(a, x, f);
    lemma_eval_as_sum(evens(a), x2, e);
    lemma_eval_as_sum(odds(a), x2, o);
}

/// Minus one is the negation of one.
pub proof fn lemma_neg_one()
    ensures
        neg_one() == fr_neg(1),
        is_fr(neg_one()),
{
    reveal(fr_neg);
    vstd::arithmetic::div_mod::lemma_mod_sub_multiples_vanish(-1, modulus());
    vstd::arithmetic::div_mod::lemma_small_mod((modulus() - 1) as nat, modulus() as nat);
    assert((-1 + modulus()) % modulus() == (-1) % modulus());
}

/// Multiplying by minus one negates.
pub proof fn lemma_mul_neg_one(x: int)
    requires
        is_fr(x),
    ensures
        fr_mul(x, neg_one()) == fr_neg(x),
{
    lemma_neg_one();
    lemma_mul_neg(x, 1);
    lemma_mul_one(x);
}

/// The step of the transform: from the values of the two halves at
/// `(w^2)^i` come the values of the whole at `w^i` and at `w^(i + n/2)`.
pub proof fn lemma_butterfly(a: Seq<int>, w: int, log_n: nat, i: nat)
    requires
        log_n >= 1,
        a.len() == pow2(log_n),
        is_primitive_root(w, log_n),
        i < pow2((log_n - 1) as nat),
    ensures
        ({
            let half = pow2((log_n - 1) as nat);
            let w2 = fr_mul(w, w);
            let e = poly_eval(evens(a), fr_pow(w2, i));
            let t = fr_mul(fr_pow(w, i), poly_eval(odds(a), fr_pow(w2, i)));
            &&& poly_eval(a, fr_pow(w, i)) == fr_add(e, t)
            &&& poly_eval(a, fr_pow(w, i + half)) == fr_sub(e, t)
        }),
{
    broadcast use group_fr_closed;

    let half = pow2((log_n - 1) as nat);
    lemma_pow2_adds((log_n - 1) as nat, 1);
    lemma2_to64();
    assert(a.len() == 2 * half) by (nonlinear_arith)
        requires
            a.len() == half * 2,
    ;
    let w2 = fr_mul(w, w);
    let x = fr_pow(w, i);
    let o = poly_eval(odds(a), fr_pow(w2, i));
    lemma_pow_of_mul(w, w, i);
    assert(fr_pow(w2, i) == fr_mul(x, x));
    lemma_eval_split(a, x);

    // w^(i + half) == -x
    let y = fr_pow(w, i + half);
    lemma_pow_add(w, i, half);
    lemma_squarings_is_pow(w, (log_n - 1) as nat);
    lemma_mul_neg_one(x);
    assert(y == fr_neg(x));
    // (-x)(-x) == x x
    lemma_mul_neg(fr_neg(x), x);
    lemma_mul_neg(x, x);
    lemma_neg_neg(fr_mul(x, x));
    assert(fr_mul(y, y) == fr_mul(x, x));
    lemma_eval_split(a, y);
    lemma_mul_neg(x, o);
    lemma_sub_is_add_neg(poly_eval(evens(a), fr_pow(w2, i)), fr_mul(x, o));
}

/// The square of a generator of the group of order `2^log_n` generates
/// the group of half that order.
pub proof fn lemma_square_is_primitive(w: int, log_n: nat)
    requires
        log_n >= 1,
        is_primitive_root(w, log_n),
    ensures
        is_primitive_root(fr_mul(w, w), (log_n - 1) as nat),
{
    broadcast use group_fr_closed;

    if log_n >= 2 {
        assert(squarings(w, 1) == fr_mul(squarings(w, 0), squarings(w, 0)));
        lemma_squarings_add(w, 1, (log_n - 2) as nat);
    }
}

/// The transform of `a` by the root `omega`: the values of the polynomial
/// with the coefficients `a` at the powers of `omega`.
pub fn fft_recursive(a: &Vec<Scalar>, omega: &Scalar, log_n: u32) -> (r: Vec<Scalar>)
    requires
        log_n <= 32,
        a.len() == pow2(log_n as nat),
        scalars_wf(a@),
        omega.wf(),
        is_primitive_root(omega@, log_n as nat),
    ensures
        r.len() == a.len(),
        scalars_wf(r@),
        scalar_values(r@) == dft(scalar_values(a@), omega@),
    decreases log_n,
{
    let n = a.len();
    let ghost av = scalar_values(a@);
    proof {
        lemma2_to64();
    }
    if log_n == 0 {
        let mut out: Vec<Scalar> = Vec::with_capacity(1);
        out.push(a[0]);
        proof {
            let f = |i: int| fr_mul(coeff(av, i), fr_pow(fr_pow(omega@, 0), i as nat));
            lemma_eval_as_sum(av, fr_pow(omega@, 0), f);
            assert(fr_sum(f, 1) == fr_add(fr_sum(f, 0), f(0)));
            lemma_mul_one(av[0]);
            crate::field::lemma_add_zero(av[0]);
            assert(scalar_values(out@) =~= dft(av, omega@));
        }
        return out;
    }
    let ghost half_n = pow2((log_n - 1) as nat);
    proof {
        lemma_pow2_adds((log_n - 1) as nat, 1);
        lemma_pow2_pos((log_n - 1) as nat);
        assert(n == 2 * half_n) by (nonlinear_arith)
            requires
                n == half_n * 2,
        ;
    }
    let half = n / 2;
    let mut even: Vec<Scalar> = Vec::with_capacity(half);
    let mut odd: Vec<Scalar> = Vec::with_capacity(half);
    let mut i: usize = 0;
    while i < half
        invariant
            i <= half,
            n == 2 * half,
            n == a.len(),
            scalars_wf(a@),
            even.len() == i,
            odd.len() == i,
            scalars_wf(even@),
            scalars_wf(odd@),
            forall|j: int| 0 <= j < i ==> (#[trigger] even@[j]) == a@[2 * j],
            forall|j: int| 0 <= j < i ==> (#[trigger] odd@[j]) == a@[2 * j + 1],
        decreases half - i,
    {
        even.push(a[2 * i]);
        odd.push(a[2 * i + 1]);
        i += 1;
    }
    proof {
        assert(scalar_values(even@) =~= evens(av));
        assert(scalar_values(odd@) =~= odds(av));
        lemma_square_is_primitive(omega@, log_n as nat);
    }
    let omega_sq = omega.square();
    let e = fft_recursive(&even, &omega_sq, log_n - 1);
    let o = fft_recursive(&odd, &omega_sq, log_n - 1);
    let ghost ev = dft(evens(av), omega_sq@);
    let ghost ov = dft(odds(av), omega_sq@);

    let mut lo: Vec<Scalar> = Vec::with_capacity(n);
    let mut hi: Vec<Scalar> = Vec::with_capacity(half);
    let mut w = Scalar::one();
    let mut i: usize = 0;
    while i < half
        invariant
            i <= half,
            half == half_n,
            half_n == pow2((log_n - 1) as nat),
            av.len() == 2 * half,
            log_n >= 1,
            av.len() == pow2(log_n as nat),
            is_primitive_root(omega@, log_n as nat),
            omega.wf(),
            omega_sq@ == fr_mul(omega@, omega@),
            e.len() == half,
            o.len() == half,
            scalars_wf(e@),
            scalars_wf(o@),
            scalar_values(e@) == ev,
            scalar_values(o@) == ov,
            ev == dft(evens(av), omega_sq@),
            ov == dft(odds(av), omega_sq@),
            w.wf(),
            w@ == fr_pow(omega@, i as nat),
            lo.len() == i,
            hi.len() == i,
            scalars_wf(lo@),
            scalars_wf(hi@),
            forall|j: int| 0 <= j < i ==> (#[trigger] lo@[j])@ == poly_eval(av, fr_pow(omega@, j as nat)),
            forall|j: int| 0 <= j < i ==> (#[trigger] hi@[j])@ == poly_eval(av, fr_pow(omega@, (j + half) as nat)),
        decreases half - i,
    {
        proof {
            lemma_butterfly(av, omega@, log_n as nat, i as nat);
            assert(evens(av).len() == half);
            assert(odds(av).len() == half);
            assert(e@[i as int]@ == scalar_values(e@)[i as int]);
            assert(o@[i as int]@ == scalar_values(o@)[i as int]);
            assert(ev[i as int] == poly_eval(evens(av), fr_pow(omega_sq@, i as nat)));
            assert(ov[i as int] == poly_eval(odds(av), fr_pow(omega_sq@, i as nat)));
            lemma_pow_succ(omega@, i as nat);
        }
        let t = w.mul(&o[i]);
        lo.push(e[i].add(&t));
        hi.push(e[i].sub(&t));
        w = w.mul(omega);
        i += 1;
    }
    let mut i: usize = 0;
    while i < half
        invariant
            i <= half,
            n == 2 * half,
            hi.len() == half,
            lo.len() == half + i,
            scalars_wf(lo@),
            scalars_wf(hi@),
            forall|j: int| 0 <= j < half ==> (#[trigger] lo@[j])@ == poly_eval(av, fr_pow(omega@, j as nat)),
            forall|j: int| 0 <= j < half ==> (#[trigger] hi@[j])@ == poly_eval(av, fr_pow(omega@, (j + half) as nat)),
            forall|j: int| half <= j < half + i ==> (#[trigger] lo@[j])@ == poly_eval(av, fr_pow(omega@, j as nat)),
        decreases half - i,
    {
        proof {
            assert(hi@[i as int]@ == poly_eval(av, fr_pow(omega@, (i + half) as nat)));
        }
        lo.push(hi[i]);
        i += 1;
    }
    proof {
        assert(scalar_values(lo@) =~= dft(av, omega@));
    }
    lo
}

} // verus!
