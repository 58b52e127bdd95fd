//! Finite sums in the scalar field, and the ways of rearranging them.

use vstd::prelude::*;
use crate::field::{
    fr_add, fr_mul, group_fr_closed, is_fr, lemma_add_assoc, lemma_add_comm, lemma_add_zero,
    lemma_mul_distributes, lemma_mul_zero, modulus,
};

verus! {

/// `f(0) + f(1) + .. + f(n - 1)` in the field.
pub open spec fn fr_sum(f: spec_fn(int) -> int, n: nat) -> int
    decreases n,
{
    if n == 0 {
        0
    } else {
        fr_add(fr_sum(f, (n - 1) as nat), f(n - 1))
    }
}

pub broadcast proof fn lemma_sum_is_fr(f: spec_fn(int) -> int, n: nat)
    ensures
        is_fr(#[trigger] fr_sum(f, n)),
{
    broadcast use group_fr_closed;

}

/// Sums of terms that agree are equal.
pub proof fn lemma_sum_ext(f: spec_fn(int) -> int, g: spec_fn(int) -> int, n: nat)
    requires
        forall|i: int| 0 <= i < n ==> #[trigger] f(i) == g(i),
    ensures
        fr_sum(f, n) == fr_sum(g, n),
    decreases n,
{
    if n > 0 {
        lemma_sum_ext(f, g, (n - 1) as nat);
    }
}

/// A sum of zeros is zero.
pub proof fn lemma_sum_zero(f: spec_fn(int) -> int, n: nat)
    requires
        forall|i: int| 0 <= i < n ==> #[trigger] f(i) == 0,
    ensures
        fr_sum(f, n) == 0,
    decreases n,
{
    if n > 0 {
        lemma_sum_zero(f, (n - 1) as nat);
        lemma_add_zero(0);
    }
}

/// Zeros at the end of the range add nothing.
pub proof fn lemma_sum_extend(f: spec_fn(int) -> int, n: nat, m: nat)
    requires
        n <= m,
        forall|i: int| n <= i < m ==> #[trigger] f(i) == 0,
    ensures
        fr_sum(f, m) == fr_sum(f, n),
    decreases m,
{
    if m > n {
        lemma_sum_extend(f, n, (m - 1) as nat);
        lemma_sum_is_fr(f, n);
        lemma_add_zero(fr_sum(f, n));
    }
}

/// The sum of sums is the sum of the terms added pairwise.
pub proof fn lemma_sum_add(
    f: spec_fn(int) -> int,
    g: spec_fn(int) -> int,
    h: spec_fn(int) -> int,
    n: nat,
)
    requires
        forall|i: int| 0 <= i < n ==> #[trigger] h(i) == fr_add(f(i), g(i)),
    ensures
        fr_sum(h, n) == fr_add(fr_sum(f, n), fr_sum(g, n)),
    decreases n,
{
    if n == 0 {
        lemma_add_zero(0);
    } else {
        let k = (n - 1) as nat;
        lemma_sum_add(f, g, h, k);
        let sf = fr_sum(f, k);
        let sg = fr_sum(g, k);
        let a = f(n - 1);
        let b = g(n - 1);
        // (sf + sg) + (a + b) == (sf + a) + (sg + b)
        lemma_add_assoc(sf, sg, fr_add(a, b));
        lemma_add_assoc(sg, a, b);
        lemma_add_comm(sg, a);
        lemma_add_assoc(a, sg, b);
        lemma_add_assoc(sf, a, fr_add(sg, b));
    }
}

/// A factor common to all terms can be taken out of the sum.
pub proof fn lemma_sum_scale(f: spec_fn(int) -> int, g: spec_fn(int) -> int, c: int, n: nat)
    requires
        forall|i: int| 0 <= i < n ==> #[trigger] g(i) == fr_mul(c, f(i)),
    ensures
        fr_sum(g, n) == fr_mul(c, fr_sum(f, n)),
    decreases n,
{
    if n == 0 {
        lemma_mul_zero(c);
    } else {
        lemma_sum_scale(f, g, c, (n - 1) as nat);
        lemma_mul_distributes(c, fr_sum(f, (n - 1) as nat), f(n - 1));
    }
}

/// A sum splits at any place into a first and a second part.
pub proof fn lemma_sum_split(f: spec_fn(int) -> int, g: spec_fn(int) -> int, n: nat, m: nat)
    requires
        forall|i: int| 0 <= i < m ==> #[trigger] g(i) == f(n + i),
    ensures
        fr_sum(f, n + m) == fr_add(fr_sum(f, n), fr_sum(g, m)),
    decreases m,
{
    if m == 0 {
        lemma_sum_is_fr(f, n);
        lemma_add_zero(fr_sum(f, n));
    } else {
        let k = (m - 1) as nat;
        lemma_sum_split(f, g, n, k);
        assert(g(m - 1) == f(n + (m - 1)));
        lemma_add_assoc(fr_sum(f, n), fr_sum(g, k), f(n + m - 1));
    }
}

/// Zeros at the start of the range can be left out, and the rest counted from zero.
pub proof fn lemma_sum_shift(f: spec_fn(int) -> int, g: spec_fn(int) -> int, j: nat, n: nat)
    requires
        j <= n,
        forall|i: int| 0 <= i < j ==> #[trigger] f(i) == 0,
        forall|l: int| 0 <= l < n - j ==> #[trigger] g(l) == f(l + j),
    ensures
        fr_sum(f, n) == fr_sum(g, (n - j) as nat),
{
    let m = (n - j) as nat;
    assert forall|i: int| 0 <= i < m implies #[trigger] g(i) == f(j + i) by {
        assert(g(i) == f(i + j));
    }
    lemma_sum_split(f, g, j, m);
    lemma_sum_zero(f, j);
    lemma_sum_is_fr(g, m);
    lemma_add_zero(fr_sum(g, m));
}

/// The first term can be split off.
pub proof fn lemma_sum_first(f: spec_fn(int) -> int, g: spec_fn(int) -> int, n: nat)
    requires
        n > 0,
        forall|i: int| 0 <= i < n - 1 ==> #[trigger] g(i) == f(i + 1),
    ensures
        fr_sum(f, n) == fr_add(f(0), fr_sum(g, (n - 1) as nat)),
{
    let m = (n - 1) as nat;
    assert forall|i: int| 0 <= i < m implies #[trigger] g(i) == f(1 + i) by {
        assert(g(i) == f(i + 1));
    }
    lemma_sum_split(f, g, 1, m);
    assert(fr_sum(f, 1) == fr_add(fr_sum(f, 0), f(0)));
    lemma_add_comm(0, f(0));
    broadcast use group_fr_closed;

    lemma_add_zero(fr_add(f(0), 0));
    lemma_add_assoc(f(0), 0, fr_sum(g, m));
    lemma_sum_is_fr(g, m);
    lemma_add_zero(fr_sum(g, m));
}

/// A sum can be taken from the far end.
pub proof fn lemma_sum_reverse(f: spec_fn(int) -> int, g: spec_fn(int) -> int, n: nat)
    requires
        forall|i: int| 0 <= i < n ==> #[trigger] g(i) == f(n - 1 - i),
    ensures
        fr_sum(f, n) == fr_sum(g, n),
    decreases n,
{
    if n > 0 {
        let m = (n - 1) as nat;
        // g without its first term is the reverse of f without its last
        let g1 = |i: int| g(i + 1);
        assert forall|i: int| 0 <= i < m implies #[trigger] g1(i) == f(m - 1 - i) by {
            assert(g(i + 1) == f(n - 1 - (i + 1)));
        }
        lemma_sum_reverse(f, g1, m);
        lemma_sum_first(g, g1, n);
        assert(g(0) == f(n - 1 - 0));
        lemma_add_comm(g(0), fr_sum(g1, m));
    }
}

/// A sum in which one term alone may differ from zero is that term.
pub proof fn lemma_sum_single(f: spec_fn(int) -> int, n: nat, k: int)
    requires
        0 <= k < n,
        is_fr(f(k)),
        forall|i: int| 0 <= i < n && i != k ==> #[trigger] f(i) == 0,
    ensures
        fr_sum(f, n) == f(k),
{
    lemma_sum_extend(f, (k + 1) as nat, n);
    lemma_sum_zero(f, k as nat);
    lemma_add_zero(f(k));
}

/// The order of two nested sums can be exchanged.
pub proof fn lemma_sum_swap(
    f: spec_fn(int, int) -> int,
    rows: spec_fn(int) -> int,
    cols: spec_fn(int) -> int,
    n: nat,
    m: nat,
)
    requires
        forall|i: int| 0 <= i < n ==> #[trigger] rows(i) == fr_sum(|j: int| f(i, j), m),
        forall|j: int| 0 <= j < m ==> #[trigger] cols(j) == fr_sum(|i: int| f(i, j), n),
    ensures
        fr_sum(rows, n) == fr_sum(cols, m),
    decreases n,
{
    if n == 0 {
        assert forall|j: int| 0 <= j < m implies #[trigger] cols(j) == 0 by {
            assert(fr_sum(|i: int| f(i, j), 0) == 0);
        }
        lemma_sum_zero(cols, m);
    } else {
        let k = (n - 1) as nat;
        let cols1 = |j: int| fr_sum(|i: int| f(i, j), k);
        lemma_sum_swap(f, rows, cols1, k, m);
        let last = |j: int| f(n - 1, j);
        assert forall|j: int| 0 <= j < m implies #[trigger] cols(j) == fr_add(
            cols1(j),
            last(j),
        ) by {
            let col = |i: int| f(i, j);
            assert(fr_sum(col, n) == fr_add(fr_sum(col, k), col(n - 1)));
        }
        lemma_sum_add(cols1, last, cols, m);
        assert(rows(n - 1) == fr_sum(last, m));
    }
}

/// A sum over an even range is the sum over the even places plus that over the odd ones.
pub proof fn lemma_sum_by_parity(
    f: spec_fn(int) -> int,
    even: spec_fn(int) -> int,
    odd: spec_fn(int) -> int,
    m: nat,
)
    requires
        forall|i: int| 0 <= i < m ==> #[trigger] even(i) == f(2 * i),
        forall|i: int| 0 <= i < m ==> #[trigger] odd(i) == f(2 * i + 1),
    ensures
        fr_sum(f, 2 * m) == fr_add(fr_sum(even, m), fr_sum(odd, m)),
    decreases m,
{
    if m == 0 {
        lemma_add_zero(0);
    } else {
        let k = (m - 1) as nat;
        lemma_sum_by_parity(f, even, odd, k);
        let se = fr_sum(even, k);
        let so = fr_sum(odd, k);
        let a = f(2 * (k as int));
        let b = f(2 * (k as int) + 1);
        assert(even(m - 1) == a);
        assert(odd(m - 1) == b);
        assert(fr_sum(f, 2 * m) == fr_add(fr_sum(f, (2 * m - 1) as nat), b));
        assert(fr_sum(f, (2 * m - 1) as nat) == fr_add(fr_sum(f, 2 * k), a));
        // ((se + so) + a) + b == (se + a) + (so + b)
        lemma_add_assoc(se, so, a);
        lemma_add_comm(so, a);
        lemma_add_assoc(se, a, so);
        lemma_add_assoc(fr_add(se, a), so, b);
    }
}

/// A sum of `n` equal terms is `n` times the term.
pub proof fn lemma_sum_const(f: spec_fn(int) -> int, c: int, n: nat)
    requires
        forall|i: int| 0 <= i < n ==> #[trigger] f(i) == c,
    ensures
        fr_sum(f, n) == fr_mul(n as int, c),
    decreases n,
{
    if n == 0 {
        lemma_mul_zero(c);
    } else {
        let k = (n - 1) as nat;
        lemma_sum_const(f, c, k);
        reveal(fr_mul);
        reveal(fr_add);
        vstd::arithmetic::div_mod::lemma_add_mod_noop_right(c, k * c, modulus());
        assert(c + k * c == n * c) by (nonlinear_arith)
            requires
                k == n - 1,
        ;
        assert((k * c) % modulus() + c == c + (k * c) % modulus());
    }
}

} // verus!
