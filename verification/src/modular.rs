//! Arithmetic modulo any number, and Lucas's criterion for a modulus to be
//! prime: if some `g` has the order `m - 1` modulo `m`, every residue but
//! zero has an inverse modulo `m`.

use vstd::prelude::*;
use vstd::arithmetic::div_mod::*;
use vstd::arithmetic::mul::*;
use vstd::set_lib::{lemma_int_range, lemma_map_size, lemma_subset_equality, set_int_range};
use vstd::relations::injective_on;

verus! {

/// The product of `a` and `b` modulo `m`.
#[verifier::opaque]
pub open spec fn mul_mod(a: int, b: int, m: int) -> int {
    (a * b) % m
}

/// `a` to the power `e` modulo `m`.
pub open spec fn pow_mod(a: int, e: nat, m: int) -> int
    decreases e,
{
    if e == 0 {
        1
    } else {
        mul_mod(a, pow_mod(a, (e - 1) as nat, m), m)
    }
}

/// Whether `a` has an inverse modulo `m`.
pub open spec fn has_inverse(a: int, m: int) -> bool {
    exists|s: int| 0 <= s < m && #[trigger] mul_mod(a, s, m) == 1
}

/// Whether every residue modulo `m` but zero has an inverse: `m` is prime.
pub open spec fn all_units(m: int) -> bool {
    m >= 2 && forall|a: int| 0 < a < m ==> #[trigger] has_inverse(a, m)
}

/// The product of the numbers of a sequence.
pub open spec fn product(l: Seq<nat>) -> nat
    decreases l.len(),
{
    if l.len() == 0 {
        1
    } else {
        product(l.drop_last()) * l.last()
    }
}

pub proof fn lemma_mul_mod_range(a: int, b: int, m: int)
    requires
        m >= 2,
    ensures
        0 <= mul_mod(a, b, m) < m,
{
    reveal(mul_mod);
    lemma_mod_bound(a * b, m);
}

pub proof fn lemma_mul_mod_comm(a: int, b: int, m: int)
    ensures
        mul_mod(a, b, m) == mul_mod(b, a, m),
{
    reveal(mul_mod);
    lemma_mul_is_commutative(a, b);
}

pub proof fn lemma_mul_mod_assoc(a: int, b: int, c: int, m: int)
    requires
        m >= 2,
    ensures
        mul_mod(mul_mod(a, b, m), c, m) == mul_mod(a, mul_mod(b, c, m), m),
{
    reveal(mul_mod);
    lemma_mul_mod_noop_left(a * b, c, m);
    lemma_mul_mod_noop_right(a, b * c, m);
    lemma_mul_is_associative(a, b, c);
}

pub proof fn lemma_mul_mod_one(a: int, m: int)
    requires
        m >= 2,
        0 <= a < m,
    ensures
        mul_mod(a, 1, m) == a,
        mul_mod(1, a, m) == a,
{
    reveal(mul_mod);
    lemma_small_mod(a as nat, m as nat);
}

pub proof fn lemma_pow_mod_range(a: int, e: nat, m: int)
    requires
        m >= 2,
    ensures
        0 <= pow_mod(a, e, m) < m,
{
    if e > 0 {
        lemma_mul_mod_range(a, pow_mod(a, (e - 1) as nat, m), m);
    }
}

pub proof fn lemma_pow_mod_add(a: int, j: nat, k: nat, m: int)
    requires
        m >= 2,
    ensures
        pow_mod(a, j + k, m) == mul_mod(pow_mod(a, j, m), pow_mod(a, k, m), m),
    decreases j,
{
    if j == 0 {
        lemma_pow_mod_range(a, k, m);
        lemma_mul_mod_one(pow_mod(a, k, m), m);
    } else {
        let j1 = (j - 1) as nat;
        lemma_pow_mod_add(a, j1, k, m);
        assert(pow_mod(a, j + k, m) == mul_mod(a, pow_mod(a, (j1 + k) as nat, m), m));
        lemma_mul_mod_assoc(a, pow_mod(a, j1, m), pow_mod(a, k, m), m);
    }
}

pub proof fn lemma_pow_mod_of_one(e: nat, m: int)
    requires
        m >= 2,
    ensures
        pow_mod(1, e, m) == 1,
    decreases e,
{
    if e > 0 {
        lemma_pow_mod_of_one((e - 1) as nat, m);
        lemma_mul_mod_one(1, m);
    }
}

pub proof fn lemma_pow_mod_pow(a: int, j: nat, k: nat, m: int)
    requires
        m >= 2,
    ensures
        pow_mod(pow_mod(a, j, m), k, m) == pow_mod(a, j * k, m),
    decreases k,
{
    if k == 0 {
        assert(j * k == 0) by (nonlinear_arith)
            requires
                k == 0,
        ;
    } else {
        let k1 = (k - 1) as nat;
        lemma_pow_mod_pow(a, j, k1, m);
        assert(j * k == j + j * k1) by (nonlinear_arith)
            requires
                k1 == k - 1,
        ;
        lemma_pow_mod_add(a, j, j * k1, m);
    }
}

/// A power of a power, with the exponents multiplied out.
pub proof fn lemma_pow_mod_chain(a: int, j: nat, k: nat, m: int, x: int, y: int)
    requires
        m >= 2,
        pow_mod(a, j, m) == x,
        pow_mod(x, k, m) == y,
    ensures
        pow_mod(a, j * k, m) == y,
{
    lemma_pow_mod_pow(a, j, k, m);
}

/// A root of unity of prime order `r` of which a power with an exponent
/// that `r` does not divide is one, is one itself.
pub proof fn lemma_root_trivial(z: int, r: nat, d: nat, m: int)
    requires
        m >= 2,
        all_units(r as int),
        0 <= z < m,
        pow_mod(z, r, m) == 1,
        pow_mod(z, d, m) == 1,
        d % r != 0,
    ensures
        z == 1,
{
    reveal(mul_mod);
    let a = (d % r) as int;
    lemma_mod_bound(d as int, r as int);
    assert(has_inverse(a, r as int));
    let s = choose|s: int| 0 <= s < r && #[trigger] mul_mod(a, s, r as int) == 1;
    // d s == k r + 1
    lemma_mul_mod_noop_left(d as int, s, r as int);
    let k = (d * s) / (r as int);
    lemma_fundamental_div_mod(d * s, r as int);
    lemma_mul_nonnegative(d as int, s);
    lemma_div_pos_is_pos(d * s, r as int);
    assert(d * s == r * k + 1);
    // z^(d s) == 1
    lemma_pow_mod_pow(z, d, s as nat, m);
    lemma_pow_mod_of_one(s as nat, m);
    // z^(k r + 1) == z
    lemma_pow_mod_pow(z, r, k as nat, m);
    lemma_pow_mod_of_one(k as nat, m);
    lemma_pow_mod_add(z, r * (k as nat), 1, m);
    assert(pow_mod(z, 1, m) == mul_mod(z, pow_mod(z, 0, m), m));
    lemma_mul_mod_one(z, m);
}

/// Leaving out one number divides the product by it.
pub proof fn lemma_product_remove(l: Seq<nat>, i: int)
    requires
        0 <= i < l.len(),
    ensures
        product(l.remove(i)) * l[i] == product(l),
    decreases l.len(),
{
    let last = l.len() - 1;
    if i == last {
        assert(l.remove(i) =~= l.drop_last());
    } else {
        let front = l.drop_last();
        lemma_product_remove(front, i);
        assert(l.remove(i).drop_last() =~= front.remove(i));
        assert(l.remove(i).last() == l.last());
        assert(product(front.remove(i)) * l.last() * l[i] == product(front.remove(i)) * l[i]
            * l.last()) by (nonlinear_arith);
    }
}

/// The product of the first `k + 1` numbers from that of the first `k`.
pub proof fn lemma_product_take(l: Seq<nat>, k: int)
    requires
        0 <= k < l.len(),
    ensures
        product(l.take(k + 1)) == product(l.take(k)) * l[k],
{
    assert(l.take(k + 1).drop_last() =~= l.take(k));
}

/// Where `w` to the product of some primes is one, but `w` to the product
/// of all but any one of them is not, no power of `w` with a lesser
/// positive exponent is one: the product is the order of `w`.
pub proof fn lemma_order(w: int, l: Seq<nat>, m: int, d: nat)
    requires
        m >= 2,
        forall|i: int| 0 <= i < l.len() ==> all_units(#[trigger] l[i] as int),
        pow_mod(w, product(l), m) == 1,
        forall|i: int| 0 <= i < l.len() ==> pow_mod(w, #[trigger] product(l.remove(i)), m) != 1,
        0 < d < product(l),
    ensures
        pow_mod(w, d, m) != 1,
    decreases l.len(),
{
    if l.len() > 0 {
        let r = l.last();
        let front = l.drop_last();
        let p = product(front);
        assert(all_units(l[l.len() - 1] as int));
        assert(l.remove(l.len() - 1) =~= front);
        if d % r != 0 {
            if pow_mod(w, d, m) == 1 {
                let z = pow_mod(w, p, m);
                assert(z == pow_mod(w, product(l.remove(l.len() - 1)), m));
                lemma_pow_mod_range(w, p, m);
                lemma_pow_mod_pow(w, p, r, m);
                lemma_pow_mod_pow(w, p, d, m);
                lemma_pow_mod_pow(w, d, p, m);
                lemma_pow_mod_of_one(p, m);
                assert(p * d == d * p) by (nonlinear_arith);
                lemma_root_trivial(z, r, d, m);
            }
        } else {
            let d2 = (d / r) as nat;
            lemma_fundamental_div_mod(d as int, r as int);
            assert(d == r * d2);
            let w2 = pow_mod(w, r, m);
            lemma_pow_mod_pow(w, r, p, m);
            assert(r * p == p * r) by (nonlinear_arith);
            assert forall|i: int| 0 <= i < front.len() implies pow_mod(
                w2,
                #[trigger] product(front.remove(i)),
                m,
            ) != 1 by {
                let c = product(front.remove(i));
                lemma_pow_mod_pow(w, r, c, m);
                assert(l.remove(i).drop_last() =~= front.remove(i));
                assert(l.remove(i).last() == r);
                assert(product(l.remove(i)) == c * r);
                assert(r * c == c * r) by (nonlinear_arith);
            }
            assert forall|i: int| 0 <= i < front.len() implies all_units(
                #[trigger] front[i] as int,
            ) by {
                assert(front[i] == l[i]);
            }
            assert(0 < d2 < p) by (nonlinear_arith)
                requires
                    0 < d,
                    d == r * d2,
                    d < p * r,
                    r >= 2,
            ;
            lemma_order(w2, front, m, d2);
            lemma_pow_mod_pow(w, r, d2, m);
        }
    }
}

/// Lucas's criterion: where `g` has the order `m - 1` modulo `m`, every
/// residue but zero has an inverse modulo `m`.
pub proof fn lemma_lucas(g: int, l: Seq<nat>, m: int)
    requires
        m >= 2,
        product(l) == m - 1,
        forall|i: int| 0 <= i < l.len() ==> all_units(#[trigger] l[i] as int),
        pow_mod(g, (m - 1) as nat, m) == 1,
        forall|i: int| 0 <= i < l.len() ==> pow_mod(g, #[trigger] product(l.remove(i)), m) != 1,
    ensures
        all_units(m),
{
    let n = (m - 1) as nat;
    let f = |i: int| pow_mod(g, i as nat, m);
    let s = set_int_range(0, n as int);
    let t = set_int_range(1, m);
    let image = s.map(f);
    lemma_int_range(0, n as int);
    lemma_int_range(1, m);
    // a power and the power that completes it to the order multiply to one
    assert forall|i: int| 0 <= i < n implies mul_mod(f(i), #[trigger] f(n - i), m) == 1 by {
        lemma_pow_mod_add(g, i as nat, (n - i) as nat, m);
    }
    assert forall|i: int, j: int| s.contains(i) && s.contains(j) && #[trigger] f(i) == #[trigger] f(
        j,
    ) implies i == j by {
        if i != j {
            let lo = if i < j {
                i
            } else {
                j
            };
            let hi = if i < j {
                j
            } else {
                i
            };
            let d = (hi - lo) as nat;
            // g^d == g^hi g^(n - lo) == g^lo g^(n - lo) == 1
            assert(mul_mod(f(lo), f(n - lo), m) == 1);
            lemma_pow_mod_add(g, hi as nat, (n - lo) as nat, m);
            lemma_pow_mod_add(g, d, n, m);
            lemma_pow_mod_range(g, d, m);
            lemma_mul_mod_one(pow_mod(g, d, m), m);
            assert(hi + (n - lo) == d + n);
            lemma_order(g, l, m, d);
        }
    }
    assert(injective_on(f, s));
    lemma_map_size(s, image, f);
    assert forall|y: int| image.contains(y) implies t.contains(y) by {
        let i = choose|i: int| s.contains(i) && y == f(i);
        assert(0 <= i < n);
        lemma_pow_mod_range(g, i as nat, m);
        assert(mul_mod(f(i), f(n - i), m) == 1);
        if y == 0 {
            reveal(mul_mod);
            assert(0 * f(n - i) == 0);
            lemma_small_mod(0, m as nat);
        }
    }
    lemma_subset_equality(image, t);
    assert forall|a: int| 0 < a < m implies #[trigger] has_inverse(a, m) by {
        assert(t.contains(a));
        assert(image.contains(a));
        let i = choose|i: int| s.contains(i) && a == f(i);
        assert(0 <= i < n);
        assert(mul_mod(f(i), f(n - i), m) == 1);
        lemma_pow_mod_range(g, (n - i) as nat, m);
    }
}

/// Modulo a prime a product is zero only where a factor is.
pub proof fn lemma_no_zero_divisors(a: int, b: int, m: int)
    requires
        all_units(m),
        0 < a < m,
        0 <= b < m,
        mul_mod(a, b, m) == 0,
    ensures
        b == 0,
{
    assert(has_inverse(a, m));
    let s = choose|s: int| 0 <= s < m && #[trigger] mul_mod(a, s, m) == 1;
    lemma_mul_mod_comm(a, s, m);
    lemma_mul_mod_assoc(s, a, b, m);
    lemma_mul_mod_one(b, m);
    reveal(mul_mod);
    assert(s * 0 == 0);
    lemma_small_mod(0, m as nat);
}

/// `x` to the power `k`, as an integer.
pub open spec fn int_pow(x: int, k: nat) -> int
    decreases k,
{
    if k == 0 {
        1
    } else {
        int_pow(x, (k - 1) as nat) * x
    }
}

/// One step of raising to a power four bits at a time: `x^16 a^w` modulo
/// `m`, for `w` below sixteen, with the product written out.
pub open spec fn window(a: int, x: int, w: int, m: int) -> int {
    if w == 0 {
        (x * x * x * x * x * x * x * x * x * x * x * x * x * x * x * x) % m
    } else if w == 1 {
        (x * x * x * x * x * x * x * x * x * x * x * x * x * x * x * x * a) % m
    } else if w == 2 {
        (x * x * x * x * x * x * x * x * x * x * x * x * x * x * x * x * a * a) % m
    } else if w == 3 {
        (x * x * x * x * x * x * x * x * x * x * x * x * x * x * x * x * a * a * a) % m
    } else if w == 4 {
        (x * x * x * x * x * x * x * x * x * x * x * x * x * x * x * x * a * a * a * a) % m
    } else if w == 5 {
        (x * x * x * x * x * x * x * x * x * x * x * x * x * x * x * x * a * a * a * a * a) % m
    } else if w == 6 {
        (x * x * x * x * x * x * x * x * x * x * x * x * x * x * x * x * a * a * a * a * a * a) % m
    } else if w == 7 {
        (x * x * x * x * x * x * x * x * x * x * x * x * x * x * x * x * a * a * a * a * a * a * a) % m
    } else if w == 8 {
        (x * x * x * x * x * x * x * x * x * x * x * x * x * x * x * x * a * a * a * a * a * a * a * a) % m
    } else if w == 9 {
        (x * x * x * x * x * x * x * x * x * x * x * x * x * x * x * x * a * a * a * a * a * a * a * a * a) % m
    } else if w == 10 {
        (x * x * x * x * x * x * x * x * x * x * x * x * x * x * x * x * a * a * a * a * a * a * a * a * a * a) % m
    } else if w == 11 {
        (x * x * x * x * x * x * x * x * x * x * x * x * x * x * x * x * a * a * a * a * a * a * a * a * a * a * a) % m
    } else if w == 12 {
        (x * x * x * x * x * x * x * x * x * x * x * x * x * x * x * x * a * a * a * a * a * a * a * a * a * a * a * a) % m
    } else if w == 13 {
        (x * x * x * x * x * x * x * x * x * x * x * x * x * x * x * x * a * a * a * a * a * a * a * a * a * a * a * a * a) % m
    } else if w == 14 {
        (x * x * x * x * x * x * x * x * x * x * x * x * x * x * x * x * a * a * a * a * a * a * a * a * a * a * a * a * a * a) % m
    } else {
        (x * x * x * x * x * x * x * x * x * x * x * x * x * x * x * x * a * a * a * a * a * a * a * a * a * a * a * a * a * a * a) % m
    }
}

/// The power modulo `m` is the integer power, reduced.
pub proof fn lemma_pow_mod_is_int_pow(x: int, k: nat, m: int)
    requires
        m >= 2,
    ensures
        pow_mod(x, k, m) == int_pow(x, k) % m,
    decreases k,
{
    reveal(mul_mod);
    if k == 0 {
        lemma_small_mod(1, m as nat);
    } else {
        lemma_pow_mod_is_int_pow(x, (k - 1) as nat, m);
        lemma_mul_mod_noop_right(x, int_pow(x, (k - 1) as nat), m);
        lemma_mul_is_commutative(x, int_pow(x, (k - 1) as nat));
    }
}

/// A product with `j` more factors `a`.
proof fn lemma_int_pow_times(p: int, a: int, j: nat)
    ensures
        p * int_pow(a, j + 1) == p * int_pow(a, j) * a,
{
    lemma_mul_is_associative(p, int_pow(a, j), a);
}

/// The product written out is the product of the two powers.
proof fn lemma_window_is_product(a: int, x: int, w: nat, m: int)
    requires
        w < 16,
    ensures
        window(a, x, w as int, m) == (int_pow(x, 16) * int_pow(a, w)) % m,
{
    assert(int_pow(x, 0) == 1);
    assert(int_pow(x, 1) == x);
    assert(int_pow(x, 2) == x * x);
    assert(int_pow(x, 3) == x * x * x);
    assert(int_pow(x, 4) == x * x * x * x);
    assert(int_pow(x, 5) == x * x * x * x * x);
    assert(int_pow(x, 6) == x * x * x * x * x * x);
    assert(int_pow(x, 7) == x * x * x * x * x * x * x);
    assert(int_pow(x, 8) == x * x * x * x * x * x * x * x);
    assert(int_pow(x, 9) == x * x * x * x * x * x * x * x * x);
    assert(int_pow(x, 10) == x * x * x * x * x * x * x * x * x * x);
    assert(int_pow(x, 11) == x * x * x * x * x * x * x * x * x * x * x);
    assert(int_pow(x, 12) == x * x * x * x * x * x * x * x * x * x * x * x);
    assert(int_pow(x, 13) == x * x * x * x * x * x * x * x * x * x * x * x * x);
    assert(int_pow(x, 14) == x * x * x * x * x * x * x * x * x * x * x * x * x * x);
    assert(int_pow(x, 15) == x * x * x * x * x * x * x * x * x * x * x * x * x * x * x);
    assert(int_pow(x, 16) == x * x * x * x * x * x * x * x * x * x * x * x * x * x * x * x);
    let p = int_pow(x, 16);
    assert(int_pow(a, 0) == 1);
    assert(p * int_pow(a, 0) == p);
    lemma_int_pow_times(p, a, 0);
    lemma_int_pow_times(p, a, 1);
    lemma_int_pow_times(p, a, 2);
    lemma_int_pow_times(p, a, 3);
    lemma_int_pow_times(p, a, 4);
    lemma_int_pow_times(p, a, 5);
    lemma_int_pow_times(p, a, 6);
    lemma_int_pow_times(p, a, 7);
    lemma_int_pow_times(p, a, 8);
    lemma_int_pow_times(p, a, 9);
    lemma_int_pow_times(p, a, 10);
    lemma_int_pow_times(p, a, 11);
    lemma_int_pow_times(p, a, 12);
    lemma_int_pow_times(p, a, 13);
    lemma_int_pow_times(p, a, 14);
}

/// Raising to a power four bits at a time: the power with the exponent
/// `16 e + w` from the power `x` with the exponent `e`.
pub proof fn lemma_pow_mod_window(a: int, x: int, e: nat, w: nat, m: int)
    requires
        m >= 2,
        w < 16,
        pow_mod(a, e, m) == x,
    ensures
        pow_mod(a, 16 * e + w, m) == window(a, x, w as int, m),
{
    reveal(mul_mod);
    lemma_window_is_product(a, x, w, m);
    lemma_pow_mod_pow(a, e, 16, m);
    lemma_pow_mod_add(a, e * 16, w, m);
    lemma_pow_mod_is_int_pow(x, 16, m);
    lemma_pow_mod_is_int_pow(a, w, m);
    lemma_mul_mod_noop_general(int_pow(x, 16), int_pow(a, w), m);
}

/// The product of the first `k + 1` numbers from that of the first `k`.
pub proof fn lemma_product_next(l: Seq<nat>, k: int, p: nat, r: nat)
    requires
        0 <= k < l.len(),
        product(l.take(k)) == p,
        l[k] == r,
    ensures
        product(l.take(k + 1)) == p * r,
{
    lemma_product_take(l, k);
}

/// The product of all the numbers but one, where that one is `r`.
pub proof fn lemma_product_without(l: Seq<nat>, i: int, r: nat)
    requires
        0 <= i < l.len(),
        l[i] == r,
    ensures
        product(l.remove(i)) * r == product(l),
{
    lemma_product_remove(l, i);
}

} // verus!
