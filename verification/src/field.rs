//! The scalar field of BLS12-381 as a mathematical object: residues modulo the
//! group order, with the laws that the rest of the crate reasons by.
//!
//! Every operation returns the canonical residue in `[0, modulus())`. The
//! operations are opaque to the solver; proofs go through the lemmas below.
//! That the residues form a field, and not only a ring, rests on the
//! primality of the group order.

use vstd::prelude::*;
use vstd::arithmetic::div_mod::*;
use vstd::arithmetic::mul::*;

verus! {

/// The order of the scalar field.
pub open spec fn modulus() -> int {
    0x73eda753299d7d483339d80809a1d80553bda402fffe5bfeffffffff00000001int
}

/// Whether `a` is a canonical residue.
pub open spec fn is_fr(a: int) -> bool {
    0 <= a < modulus()
}

/// The sum in the field.
#[verifier::opaque]
pub open spec fn fr_add(a: int, b: int) -> int {
    (a + b) % modulus()
}

/// The difference in the field.
#[verifier::opaque]
pub open spec fn fr_sub(a: int, b: int) -> int {
    (a - b) % modulus()
}

/// The additive inverse in the field.
#[verifier::opaque]
pub open spec fn fr_neg(a: int) -> int {
    (-a) % modulus()
}

/// The product in the field.
#[verifier::opaque]
pub open spec fn fr_mul(a: int, b: int) -> int {
    (a * b) % modulus()
}

/// `a` raised to the power `e`.
pub open spec fn fr_pow(a: int, e: nat) -> int
    decreases e,
{
    if e == 0 {
        1
    } else {
        fr_mul(a, fr_pow(a, (e - 1) as nat))
    }
}

/// Every field operation yields a canonical residue.
pub broadcast proof fn lemma_add_is_fr(a: int, b: int)
    ensures
        is_fr(#[trigger] fr_add(a, b)),
{
    reveal(fr_add);
    lemma_mod_bound(a + b, modulus());
}

pub broadcast proof fn lemma_sub_is_fr(a: int, b: int)
    ensures
        is_fr(#[trigger] fr_sub(a, b)),
{
    reveal(fr_sub);
    lemma_mod_bound(a - b, modulus());
}

pub broadcast proof fn lemma_neg_is_fr(a: int)
    ensures
        is_fr(#[trigger] fr_neg(a)),
{
    reveal(fr_neg);
    lemma_mod_bound(-a, modulus());
}

pub broadcast proof fn lemma_mul_is_fr(a: int, b: int)
    ensures
        is_fr(#[trigger] fr_mul(a, b)),
{
    reveal(fr_mul);
    lemma_mod_bound(a * b, modulus());
}

pub broadcast proof fn lemma_pow_is_fr(a: int, e: nat)
    ensures
        is_fr(#[trigger] fr_pow(a, e)),
{
    if e > 0 {
        lemma_mul_is_fr(a, fr_pow(a, (e - 1) as nat));
    }
}

pub broadcast group group_fr_closed {
    lemma_add_is_fr,
    lemma_sub_is_fr,
    lemma_neg_is_fr,
    lemma_mul_is_fr,
    lemma_pow_is_fr,
}

pub proof fn lemma_add_comm(a: int, b: int)
    ensures
        fr_add(a, b) == fr_add(b, a),
{
    reveal(fr_add);
}

pub proof fn lemma_add_assoc(a: int, b: int, c: int)
    ensures
        fr_add(fr_add(a, b), c) == fr_add(a, fr_add(b, c)),
{
    reveal(fr_add);
    let m = modulus();
    lemma_add_mod_noop_right(c, a + b, m);
    lemma_add_mod_noop_right(a, b + c, m);
    assert(c + (a + b) == a + (b + c));
}

pub proof fn lemma_add_zero(a: int)
    requires
        is_fr(a),
    ensures
        fr_add(a, 0) == a,
        fr_add(0, a) == a,
{
    reveal(fr_add);
    lemma_small_mod(a as nat, modulus() as nat);
}

pub proof fn lemma_add_neg(a: int)
    ensures
        fr_add(a, fr_neg(a)) == 0,
        fr_add(fr_neg(a), a) == 0,
{
    reveal(fr_add);
    reveal(fr_neg);
    let m = modulus();
    lemma_add_mod_noop_right(a, -a, m);
    lemma_add_comm(a, fr_neg(a));
}

pub proof fn lemma_sub_is_add_neg(a: int, b: int)
    ensures
        fr_sub(a, b) == fr_add(a, fr_neg(b)),
{
    reveal(fr_add);
    reveal(fr_sub);
    reveal(fr_neg);
    let m = modulus();
    lemma_add_mod_noop_right(a, -b, m);
    assert(a + (-b) == a - b);
}

pub proof fn lemma_neg_neg(a: int)
    requires
        is_fr(a),
    ensures
        fr_neg(fr_neg(a)) == a,
{
    reveal(fr_neg);
    let m = modulus();
    lemma_sub_mod_noop_right(0, -a, m);
    assert(0 - (-a) == a);
    assert(0 - ((-a) % m) == -((-a) % m));
    lemma_small_mod(a as nat, m as nat);
}

pub proof fn lemma_neg_zero()
    ensures
        fr_neg(0) == 0,
{
    reveal(fr_neg);
}

/// Negation keeps zero apart from the rest.
pub proof fn lemma_neg_is_zero(a: int)
    requires
        is_fr(a),
    ensures
        fr_neg(a) == 0 <==> a == 0,
{
    lemma_neg_zero();
    if fr_neg(a) == 0 {
        lemma_neg_neg(a);
    }
}

pub proof fn lemma_mul_comm(a: int, b: int)
    ensures
        fr_mul(a, b) == fr_mul(b, a),
{
    reveal(fr_mul);
    lemma_mul_is_commutative(a, b);
}

pub proof fn lemma_mul_assoc(a: int, b: int, c: int)
    ensures
        fr_mul(fr_mul(a, b), c) == fr_mul(a, fr_mul(b, c)),
{
    reveal(fr_mul);
    let m = modulus();
    lemma_mul_mod_noop_left(a * b, c, m);
    lemma_mul_mod_noop_right(a, b * c, m);
    lemma_mul_is_associative(a, b, c);
}

pub proof fn lemma_mul_one(a: int)
    requires
        is_fr(a),
    ensures
        fr_mul(a, 1) == a,
        fr_mul(1, a) == a,
{
    reveal(fr_mul);
    lemma_small_mod(a as nat, modulus() as nat);
}

pub proof fn lemma_mul_zero(a: int)
    ensures
        fr_mul(a, 0) == 0,
        fr_mul(0, a) == 0,
{
    reveal(fr_mul);
}

pub proof fn lemma_mul_distributes(a: int, b: int, c: int)
    ensures
        fr_mul(a, fr_add(b, c)) == fr_add(fr_mul(a, b), fr_mul(a, c)),
        fr_mul(fr_add(b, c), a) == fr_add(fr_mul(b, a), fr_mul(c, a)),
{
    reveal(fr_mul);
    reveal(fr_add);
    let m = modulus();
    lemma_mul_mod_noop_right(a, b + c, m);
    lemma_mul_is_distributive_add(a, b, c);
    lemma_add_mod_noop(a * b, a * c, m);
    lemma_mul_comm(a, fr_add(b, c));
    lemma_mul_comm(a, b);
    lemma_mul_comm(a, c);
}

pub proof fn lemma_mul_neg(a: int, b: int)
    ensures
        fr_mul(a, fr_neg(b)) == fr_neg(fr_mul(a, b)),
        fr_mul(fr_neg(a), b) == fr_neg(fr_mul(a, b)),
{
    reveal(fr_mul);
    reveal(fr_neg);
    let m = modulus();
    lemma_mul_mod_noop_right(a, -b, m);
    lemma_mul_mod_noop_left(-a, b, m);
    lemma_sub_mod_noop_right(0, a * b, m);
    assert(0 - ((a * b) % m) == -((a * b) % m));
    assert(a * (-b) == 0 - a * b) by (nonlinear_arith);
    assert((-a) * b == 0 - a * b) by (nonlinear_arith);
}

/// Reduces an operand that is not canonical.
pub proof fn lemma_mul_reduce(a: int, b: int)
    ensures
        fr_mul(a % modulus(), b) == fr_mul(a, b),
        fr_mul(a, b % modulus()) == fr_mul(a, b),
{
    reveal(fr_mul);
    lemma_mul_mod_noop_general(a, b, modulus());
}

pub proof fn lemma_sub_then_add(x: int, y: int)
    requires
        is_fr(x),
    ensures
        fr_add(fr_sub(x, y), y) == x,
{
    reveal(fr_add);
    reveal(fr_sub);
    let m = modulus();
    lemma_add_mod_noop_right(y, x - y, m);
    assert(y + (x - y) % m == (x - y) % m + y);
    lemma_small_mod(x as nat, m as nat);
}

pub proof fn lemma_pow_one(a: int)
    requires
        is_fr(a),
    ensures
        fr_pow(a, 1) == a,
{
    assert(fr_pow(a, 1) == fr_mul(a, fr_pow(a, 0)));
    lemma_mul_one(a);
}

pub proof fn lemma_pow_succ(a: int, e: nat)
    ensures
        fr_pow(a, e + 1) == fr_mul(a, fr_pow(a, e)),
        fr_pow(a, e + 1) == fr_mul(fr_pow(a, e), a),
{
    lemma_mul_comm(a, fr_pow(a, e));
}

pub proof fn lemma_pow_add(a: int, m: nat, n: nat)
    ensures
        fr_pow(a, m + n) == fr_mul(fr_pow(a, m), fr_pow(a, n)),
    decreases m,
{
    broadcast use group_fr_closed;

    if m == 0 {
        lemma_mul_one(fr_pow(a, n));
    } else {
        let m1 = (m - 1) as nat;
        lemma_pow_add(a, m1, n);
        assert(fr_pow(a, m + n) == fr_mul(a, fr_pow(a, (m1 + n) as nat)));
        lemma_mul_assoc(a, fr_pow(a, m1), fr_pow(a, n));
    }
}

pub proof fn lemma_pow_of_one(e: nat)
    ensures
        fr_pow(1, e) == 1,
    decreases e,
{
    if e > 0 {
        lemma_pow_of_one((e - 1) as nat);
        lemma_mul_one(1);
    }
}

pub proof fn lemma_pow_of_mul(a: int, b: int, e: nat)
    ensures
        fr_pow(fr_mul(a, b), e) == fr_mul(fr_pow(a, e), fr_pow(b, e)),
    decreases e,
{
    broadcast use group_fr_closed;

    if e == 0 {
        lemma_mul_one(1);
    } else {
        let e1 = (e - 1) as nat;
        lemma_pow_of_mul(a, b, e1);
        let pa = fr_pow(a, e1);
        let pb = fr_pow(b, e1);
        // (a b)(pa pb) == (a pa)(b pb)
        lemma_mul_assoc(a, b, fr_mul(pa, pb));
        lemma_mul_assoc(b, pa, pb);
        lemma_mul_comm(b, pa);
        lemma_mul_assoc(pa, b, pb);
        lemma_mul_assoc(a, pa, fr_mul(b, pb));
    }
}

pub proof fn lemma_pow_pow(a: int, m: nat, n: nat)
    ensures
        fr_pow(fr_pow(a, m), n) == fr_pow(a, m * n),
    decreases n,
{
    if n == 0 {
        assert(m * n == 0) by (nonlinear_arith)
            requires
                n == 0,
        ;
    } else {
        let n1 = (n - 1) as nat;
        lemma_pow_pow(a, m, n1);
        assert(m * n == m + m * n1) by (nonlinear_arith)
            requires
                n1 == n - 1,
        ;
        lemma_pow_add(a, m, m * n1);
    }
}


/// The multiplicative inverse of `a`, where it has one.
pub open spec fn fr_inv(a: int) -> int {
    choose|x: int| is_fr(x) && fr_mul(a, x) == 1
}

/// An element has at most one inverse.
pub proof fn lemma_inv_unique(a: int, x: int, y: int)
    requires
        is_fr(x),
        is_fr(y),
        fr_mul(a, x) == 1,
        fr_mul(a, y) == 1,
    ensures
        x == y,
{
    lemma_mul_one(x);
    lemma_mul_one(y);
    lemma_mul_assoc(x, a, y);
    lemma_mul_comm(x, a);
}

/// Whatever multiplies with `a` to one is the inverse of `a`.
pub proof fn lemma_inv_is(a: int, x: int)
    requires
        is_fr(x),
        fr_mul(a, x) == 1,
    ensures
        fr_inv(a) == x,
{
    lemma_inv_unique(a, x, fr_inv(a));
}

/// The scalar field is a field: a product is zero only where a factor is.
pub proof fn lemma_no_zero_divisors(a: int, b: int)
    requires
        is_fr(a),
        is_fr(b),
        fr_mul(a, b) == 0,
    ensures
        a == 0 || b == 0,
{
    if a != 0 {
        reveal(fr_mul);
        reveal(crate::modular::mul_mod);
        crate::primes::lemma_modulus_prime();
        crate::modular::lemma_no_zero_divisors(a, b, modulus());
    }
}

/// Every element of the scalar field but zero has an inverse.
pub proof fn lemma_inverse_exists(a: int)
    requires
        is_fr(a),
        a != 0,
    ensures
        is_fr(fr_inv(a)),
        fr_mul(a, fr_inv(a)) == 1,
{
    reveal(fr_mul);
    reveal(crate::modular::mul_mod);
    crate::primes::lemma_modulus_prime();
    assert(crate::modular::has_inverse(a, modulus()));
    let s = choose|s: int| 0 <= s < modulus() && #[trigger] crate::modular::mul_mod(a, s, modulus()) == 1;
    assert(is_fr(s) && fr_mul(a, s) == 1);
}

/// The operations of the field are those modulo its order.
pub proof fn lemma_fr_pow_is_pow_mod(a: int, e: nat)
    ensures
        fr_pow(a, e) == crate::modular::pow_mod(a, e, modulus()),
    decreases e,
{
    reveal(fr_mul);
    reveal(crate::modular::mul_mod);
    if e > 0 {
        lemma_fr_pow_is_pow_mod(a, (e - 1) as nat);
    }
}

} // verus!
