//! The primes on which the primality of the order of the scalar field
//! rests, each with the powers of a generator that show it to be one.
//!
//! A number `p` is shown to be prime by a `g` whose power `p - 1` is one
//! modulo `p`, while its powers `(p - 1) / r` are not, for all primes `r`
//! that divide `p - 1`; those primes are shown to be prime in the same way.

use vstd::prelude::*;
use crate::modular::{
    all_units, has_inverse, lemma_lucas, lemma_pow_mod_chain, lemma_pow_mod_window,
    lemma_product_next, lemma_product_without, mul_mod, pow_mod, product, window,
};

verus! {

/// The order of the scalar field.
#[verifier::inline]
spec fn q() -> int {
    0x73eda753299d7d483339d80809a1d80553bda402fffe5bfeffffffff00000001int
}

/// 2 is a prime.
pub proof fn lemma_prime_2()
    ensures
        all_units(2),
{
    reveal(mul_mod);
    assert(mul_mod(1, 1, 2) == 1);
    assert forall|a: int| 0 < a < 2 implies #[trigger] has_inverse(a, 2) by {
        assert(a == 1);
    }
}

/// The power `(3 - 1) / 2` of 2 modulo 3.
proof fn lemma_pow_3_without_2()
    ensures
        pow_mod(2int, 1nat, 3int) == 2int,
{
    lemma_pow_mod_window(2int, 1int, 0nat, 1, 3int);
    assert(window(2int, 1int, 1, 3int) == 2int);
}

/// The power `3 - 1` of 2 modulo 3: the square of the power with half the exponent.
proof fn lemma_pow_3_full()
    ensures
        pow_mod(2int, 2nat, 3int) == 1,
{
    lemma_pow_3_without_2();
    lemma_pow_mod_window(2int, 1, 0, 2, 3int);
    assert(window(2int, 1, 2, 3int) == 1);
    lemma_pow_mod_chain(2int, 1nat, 2, 3int, 2int, 1);
}

/// 3 is a prime.
pub proof fn lemma_prime_3()
    ensures
        all_units(3int),
{
    let l: Seq<nat> = Seq::new(1, |i: int| 2nat);
    lemma_prime_2();
    assert(product(l.take(0)) == 1);
    lemma_product_next(l, 0, 1nat, 2nat);
    assert(product(l.take(1)) == 2nat);
    assert(l.take(1) =~= l);
    lemma_pow_3_full();
    lemma_pow_3_without_2();
    assert forall|i: int| 0 <= i < l.len() implies all_units(#[trigger] l[i] as int) by {
    }
    assert forall|i: int| 0 <= i < l.len() implies pow_mod(
        2int,
        #[trigger] product(l.remove(i)),
        3int,
    ) != 1 by {
        lemma_product_without(l, i, 2nat);
        assert(product(l.remove(i)) == 1nat);
    }
    lemma_lucas(2int, l, 3int);
}

/// The power `(5 - 1) / 2` of 2 modulo 5.
proof fn lemma_pow_5_without_2()
    ensures
        pow_mod(2int, 2nat, 5int) == 4int,
{
    lemma_pow_mod_window(2int, 1int, 0nat, 2, 5int);
    assert(window(2int, 1int, 2, 5int) == 4int);
}

/// The power `5 - 1` of 2 modulo 5: the square of the power with half the exponent.
proof fn lemma_pow_5_full()
    ensures
        pow_mod(2int, 4nat, 5int) == 1,
{
    lemma_pow_5_without_2();
    lemma_pow_mod_window(4int, 1, 0, 2, 5int);
    assert(window(4int, 1, 2, 5int) == 1);
    lemma_pow_mod_chain(2int, 2nat, 2, 5int, 4int, 1);
}

/// 5 is a prime.
pub proof fn lemma_prime_5()
    ensures
        all_units(5int),
{
    let l: Seq<nat> = Seq::new(2, |i: int| 2nat);
    lemma_prime_2();
    assert(product(l.take(0)) == 1);
    lemma_product_next(l, 0, 1nat, 2nat);
    assert(product(l.take(1)) == 2nat);
    lemma_product_next(l, 1, 2nat, 2nat);
    assert(product(l.take(2)) == 4nat);
    assert(l.take(2) =~= l);
    lemma_pow_5_full();
    lemma_pow_5_without_2();
    assert forall|i: int| 0 <= i < l.len() implies all_units(#[trigger] l[i] as int) by {
    }
    assert forall|i: int| 0 <= i < l.len() implies pow_mod(
        2int,
        #[trigger] product(l.remove(i)),
        5int,
    ) != 1 by {
        lemma_product_without(l, i, 2nat);
        assert(product(l.remove(i)) == 2nat);
    }
    lemma_lucas(2int, l, 5int);
}

/// The power `(7 - 1) / 2` of 3 modulo 7.
proof fn lemma_pow_7_without_2()
    ensures
        pow_mod(3int, 3nat, 7int) == 6int,
{
    lemma_pow_mod_window(3int, 1int, 0nat, 3, 7int);
    assert(window(3int, 1int, 3, 7int) == 6int);
}

/// The power `(7 - 1) / 3` of 3 modulo 7.
proof fn lemma_pow_7_without_3()
    ensures
        pow_mod(3int, 2nat, 7int) == 2int,
{
    lemma_pow_mod_window(3int, 1int, 0nat, 2, 7int);
    assert(window(3int, 1int, 2, 7int) == 2int);
}

/// The power `7 - 1` of 3 modulo 7: the square of the power with half the exponent.
proof fn lemma_pow_7_full()
    ensures
        pow_mod(3int, 6nat, 7int) == 1,
{
    lemma_pow_7_without_2();
    lemma_pow_mod_window(6int, 1, 0, 2, 7int);
    assert(window(6int, 1, 2, 7int) == 1);
    lemma_pow_mod_chain(3int, 3nat, 2, 7int, 6int, 1);
}

/// 7 is a prime.
pub proof fn lemma_prime_7()
    ensures
        all_units(7int),
{
    let l: Seq<nat> = Seq::new(2, |i: int| if i < 1 { 2nat } else { 3nat });
    lemma_prime_2();
    lemma_prime_3();
    assert(product(l.take(0)) == 1);
    lemma_product_next(l, 0, 1nat, 2nat);
    assert(product(l.take(1)) == 2nat);
    lemma_product_next(l, 1, 2nat, 3nat);
    assert(product(l.take(2)) == 6nat);
    assert(l.take(2) =~= l);
    lemma_pow_7_full();
    lemma_pow_7_without_2();
    lemma_pow_7_without_3();
    assert forall|i: int| 0 <= i < l.len() implies all_units(#[trigger] l[i] as int) by {
    }
    assert forall|i: int| 0 <= i < l.len() implies pow_mod(
        3int,
        #[trigger] product(l.remove(i)),
        7int,
    ) != 1 by {
        if i < 1 {
            lemma_product_without(l, i, 2nat);
            assert(product(l.remove(i)) == 3nat);
        } else {
            lemma_product_without(l, i, 3nat);
            assert(product(l.remove(i)) == 2nat);
        }
    }
    lemma_lucas(3int, l, 7int);
}

/// The power `(11 - 1) / 2` of 2 modulo 11.
proof fn lemma_pow_11_without_2()
    ensures
        pow_mod(2int, 5nat, 11int) == 10int,
{
    lemma_pow_mod_window(2int, 1int, 0nat, 5, 11int);
    assert(window(2int, 1int, 5, 11int) == 10int);
}

/// The power `(11 - 1) / 5` of 2 modulo 11.
proof fn lemma_pow_11_without_5()
    ensures
        pow_mod(2int, 2nat, 11int) == 4int,
{
    lemma_pow_mod_window(2int, 1int, 0nat, 2, 11int);
    assert(window(2int, 1int, 2, 11int) == 4int);
}

/// The power `11 - 1` of 2 modulo 11: the square of the power with half the exponent.
proof fn lemma_pow_11_full()
    ensures
        pow_mod(2int, 10nat, 11int) == 1,
{
    lemma_pow_11_without_2();
    lemma_pow_mod_window(10int, 1, 0, 2, 11int);
    assert(window(10int, 1, 2, 11int) == 1);
    lemma_pow_mod_chain(2int, 5nat, 2, 11int, 10int, 1);
}

/// 11 is a prime.
pub proof fn lemma_prime_11()
    ensures
        all_units(11int),
{
    let l: Seq<nat> = Seq::new(2, |i: int| if i < 1 { 2nat } else { 5nat });
    lemma_prime_2();
    lemma_prime_5();
    assert(product(l.take(0)) == 1);
    lemma_product_next(l, 0, 1nat, 2nat);
    assert(product(l.take(1)) == 2nat);
    lemma_product_next(l, 1, 2nat, 5nat);
    assert(product(l.take(2)) == 10nat);
    assert(l.take(2) =~= l);
    lemma_pow_11_full();
    lemma_pow_11_without_2();
    lemma_pow_11_without_5();
    assert forall|i: int| 0 <= i < l.len() implies all_units(#[trigger] l[i] as int) by {
    }
    assert forall|i: int| 0 <= i < l.len() implies pow_mod(
        2int,
        #[trigger] product(l.remove(i)),
        11int,
    ) != 1 by {
        if i < 1 {
            lemma_product_without(l, i, 2nat);
            assert(product(l.remove(i)) == 5nat);
        } else {
            lemma_product_without(l, i, 5nat);
            assert(product(l.remove(i)) == 2nat);
        }
    }
    lemma_lucas(2int, l, 11int);
}

/// The power `(13 - 1) / 2` of 2 modulo 13.
proof fn lemma_pow_13_without_2()
    ensures
        pow_mod(2int, 6nat, 13int) == 12int,
{
    lemma_pow_mod_window(2int, 1int, 0nat, 6, 13int);
    assert(window(2int, 1int, 6, 13int) == 12int);
}

/// The power `(13 - 1) / 3` of 2 modulo 13.
proof fn lemma_pow_13_without_3()
    ensures
        pow_mod(2int, 4nat, 13int) == 3int,
{
    lemma_pow_mod_window(2int, 1int, 0nat, 4, 13int);
    assert(window(2int, 1int, 4, 13int) == 3int);
}

/// The power `13 - 1` of 2 modulo 13: the square of the power with half the exponent.
proof fn lemma_pow_13_full()
    ensures
        pow_mod(2int, 12nat, 13int) == 1,
{
    lemma_pow_13_without_2();
    lemma_pow_mod_window(12int, 1, 0, 2, 13int);
    assert(window(12int, 1, 2, 13int) == 1);
    lemma_pow_mod_chain(2int, 6nat, 2, 13int, 12int, 1);
}

/// 13 is a prime.
pub proof fn lemma_prime_13()
    ensures
        all_units(13int),
{
    let l: Seq<nat> = Seq::new(3, |i: int| if i < 2 { 2nat } else { 3nat });
    lemma_prime_2();
    lemma_prime_3();
    assert(product(l.take(0)) == 1);
    lemma_product_next(l, 0, 1nat, 2nat);
    assert(product(l.take(1)) == 2nat);
    lemma_product_next(l, 1, 2nat, 2nat);
    assert(product(l.take(2)) == 4nat);
    lemma_product_next(l, 2, 4nat, 3nat);
    assert(product(l.take(3)) == 12nat);
    assert(l.take(3) =~= l);
    lemma_pow_13_full();
    lemma_pow_13_without_2();
    lemma_pow_13_without_3();
    assert forall|i: int| 0 <= i < l.len() implies all_units(#[trigger] l[i] as int) by {
    }
    assert forall|i: int| 0 <= i < l.len() implies pow_mod(
        2int,
        #[trigger] product(l.remove(i)),
        13int,
    ) != 1 by {
        if i < 2 {
            lemma_product_without(l, i, 2nat);
            assert(product(l.remove(i)) == 6nat);
        } else {
            lemma_product_without(l, i, 3nat);
            assert(product(l.remove(i)) == 4nat);
        }
    }
    lemma_lucas(2int, l, 13int);
}

/// The power `(17 - 1) / 2` of 3 modulo 17.
proof fn lemma_pow_17_without_2()
    ensures
        pow_mod(3int, 8nat, 17int) == 16int,
{
    lemma_pow_mod_window(3int, 1int, 0nat, 8, 17int);
    assert(window(3int, 1int, 8, 17int) == 16int);
}

/// The power `17 - 1` of 3 modulo 17: the square of the power with half the exponent.
proof fn lemma_pow_17_full()
    ensures
        pow_mod(3int, 16nat, 17int) == 1,
{
    lemma_pow_17_without_2();
    lemma_pow_mod_window(16int, 1, 0, 2, 17int);
    assert(window(16int, 1, 2, 17int) == 1);
    lemma_pow_mod_chain(3int, 8nat, 2, 17int, 16int, 1);
}

/// 17 is a prime.
pub proof fn lemma_prime_17()
    ensures
        all_units(17int),
{
    let l: Seq<nat> = Seq::new(4, |i: int| 2nat);
    lemma_prime_2();
    assert(product(l.take(0)) == 1);
    lemma_product_next(l, 0, 1nat, 2nat);
    assert(product(l.take(1)) == 2nat);
    lemma_product_next(l, 1, 2nat, 2nat);
    assert(product(l.take(2)) == 4nat);
    lemma_product_next(l, 2, 4nat, 2nat);
    assert(product(l.take(3)) == 8nat);
    lemma_product_next(l, 3, 8nat, 2nat);
    assert(product(l.take(4)) == 16nat);
    assert(l.take(4) =~= l);
    lemma_pow_17_full();
    lemma_pow_17_without_2();
    assert forall|i: int| 0 <= i < l.len() implies all_units(#[trigger] l[i] as int) by {
    }
    assert forall|i: int| 0 <= i < l.len() implies pow_mod(
        3int,
        #[trigger] product(l.remove(i)),
        17int,
    ) != 1 by {
        lemma_product_without(l, i, 2nat);
        assert(product(l.remove(i)) == 8nat);
    }
    lemma_lucas(3int, l, 17int);
}

/// The power `(19 - 1) / 2` of 2 modulo 19.
proof fn lemma_pow_19_without_2()
    ensures
        pow_mod(2int, 9nat, 19int) == 18int,
{
    lemma_pow_mod_window(2int, 1int, 0nat, 9, 19int);
    assert(window(2int, 1int, 9, 19int) == 18int);
}

/// The power `(19 - 1) / 3` of 2 modulo 19.
proof fn lemma_pow_19_without_3()
    ensures
        pow_mod(2int, 6nat, 19int) == 7int,
{
    lemma_pow_mod_window(2int, 1int, 0nat, 6, 19int);
    assert(window(2int, 1int, 6, 19int) == 7int);
}

/// The power `19 - 1` of 2 modulo 19: the square of the power with half the exponent.
proof fn lemma_pow_19_full()
    ensures
        pow_mod(2int, 18nat, 19int) == 1,
{
    lemma_pow_19_without_2();
    lemma_pow_mod_window(18int, 1, 0, 2, 19int);
    assert(window(18int, 1, 2, 19int) == 1);
    lemma_pow_mod_chain(2int, 9nat, 2, 19int, 18int, 1);
}

/// 19 is a prime.
pub proof fn lemma_prime_19()
    ensures
        all_units(19int),
{
    let l: Seq<nat> = Seq::new(3, |i: int| if i < 1 { 2nat } else { 3nat });
    lemma_prime_2();
    lemma_prime_3();
    assert(product(l.take(0)) == 1);
    lemma_product_next(l, 0, 1nat, 2nat);
    assert(product(l.take(1)) == 2nat);
    lemma_product_next(l, 1, 2nat, 3nat);
    assert(product(l.take(2)) == 6nat);
    lemma_product_next(l, 2, 6nat, 3nat);
    assert(product(l.take(3)) == 18nat);
    assert(l.take(3) =~= l);
    lemma_pow_19_full();
    lemma_pow_19_without_2();
    lemma_pow_19_without_3();
    assert forall|i: int| 0 <= i < l.len() implies all_units(#[trigger] l[i] as int) by {
    }
    assert forall|i: int| 0 <= i < l.len() implies pow_mod(
        2int,
        #[trigger] product(l.remove(i)),
        19int,
    ) != 1 by {
        if i < 1 {
            lemma_product_without(l, i, 2nat);
            assert(product(l.remove(i)) == 9nat);
        } else {
            lemma_product_without(l, i, 3nat);
            assert(product(l.remove(i)) == 6nat);
        }
    }
    lemma_lucas(2int, l, 19int);
}

/// The power `(23 - 1) / 2` of 5 modulo 23.
proof fn lemma_pow_23_without_2()
    ensures
        pow_mod(5int, 11nat, 23int) == 22int,
{
    lemma_pow_mod_window(5int, 1int, 0nat, 11, 23int);
    assert(window(5int, 1int, 11, 23int) == 22int);
}

/// The power `(23 - 1) / 11` of 5 modulo 23.
proof fn lemma_pow_23_without_11()
    ensures
        pow_mod(5int, 2nat, 23int) == 2int,
{
    lemma_pow_mod_window(5int, 1int, 0nat, 2, 23int);
    assert(window(5int, 1int, 2, 23int) == 2int);
}

/// The power `23 - 1` of 5 modulo 23: the square of the power with half the exponent.
proof fn lemma_pow_23_full()
    ensures
        pow_mod(5int, 22nat, 23int) == 1,
{
    lemma_pow_23_without_2();
    lemma_pow_mod_window(22int, 1, 0, 2, 23int);
    assert(window(22int, 1, 2, 23int) == 1);
    lemma_pow_mod_chain(5int, 11nat, 2, 23int, 22int, 1);
}

/// 23 is a prime.
pub proof fn lemma_prime_23()
    ensures
        all_units(23int),
{
    let l: Seq<nat> = Seq::new(2, |i: int| if i < 1 { 2nat } else { 11nat });
    lemma_prime_2();
    lemma_prime_11();
    assert(product(l.take(0)) == 1);
    lemma_product_next(l, 0, 1nat, 2nat);
    assert(product(l.take(1)) == 2nat);
    lemma_product_next(l, 1, 2nat, 11nat);
    assert(product(l.take(2)) == 22nat);
    assert(l.take(2) =~= l);
    lemma_pow_23_full();
    lemma_pow_23_without_2();
    lemma_pow_23_without_11();
    assert forall|i: int| 0 <= i < l.len() implies all_units(#[trigger] l[i] as int) by {
    }
    assert forall|i: int| 0 <= i < l.len() implies pow_mod(
        5int,
        #[trigger] product(l.remove(i)),
        23int,
    ) != 1 by {
        if i < 1 {
            lemma_product_without(l, i, 2nat);
            assert(product(l.remove(i)) == 11nat);
        } else {
            lemma_product_without(l, i, 11nat);
            assert(product(l.remove(i)) == 2nat);
        }
    }
    lemma_lucas(5int, l, 23int);
}

/// The power `(29 - 1) / 2` of 2 modulo 29.
proof fn lemma_pow_29_without_2()
    ensures
        pow_mod(2int, 14nat, 29int) == 28int,
{
    lemma_pow_mod_window(2int, 1int, 0nat, 14, 29int);
    assert(window(2int, 1int, 14, 29int) == 28int);
}

/// The power `(29 - 1) / 7` of 2 modulo 29.
proof fn lemma_pow_29_without_7()
    ensures
        pow_mod(2int, 4nat, 29int) == 16int,
{
    lemma_pow_mod_window(2int, 1int, 0nat, 4, 29int);
    assert(window(2int, 1int, 4, 29int) == 16int);
}

/// The power `29 - 1` of 2 modulo 29: the square of the power with half the exponent.
proof fn lemma_pow_29_full()
    ensures
        pow_mod(2int, 28nat, 29int) == 1,
{
    lemma_pow_29_without_2();
    lemma_pow_mod_window(28int, 1, 0, 2, 29int);
    assert(window(28int, 1, 2, 29int) == 1);
    lemma_pow_mod_chain(2int, 14nat, 2, 29int, 28int, 1);
}

/// 29 is a prime.
pub proof fn lemma_prime_29()
    ensures
        all_units(29int),
{
    let l: Seq<nat> = Seq::new(3, |i: int| if i < 2 { 2nat } else { 7nat });
    lemma_prime_2();
    lemma_prime_7();
    assert(product(l.take(0)) == 1);
    lemma_product_next(l, 0, 1nat, 2nat);
    assert(product(l.take(1)) == 2nat);
    lemma_product_next(l, 1, 2nat, 2nat);
    assert(product(l.take(2)) == 4nat);
    lemma_product_next(l, 2, 4nat, 7nat);
    assert(product(l.take(3)) == 28nat);
    assert(l.take(3) =~= l);
    lemma_pow_29_full();
    lemma_pow_29_without_2();
    lemma_pow_29_without_7();
    assert forall|i: int| 0 <= i < l.len() implies all_units(#[trigger] l[i] as int) by {
    }
    assert forall|i: int| 0 <= i < l.len() implies pow_mod(
        2int,
        #[trigger] product(l.remove(i)),
        29int,
    ) != 1 by {
        if i < 2 {
            lemma_product_without(l, i, 2nat);
            assert(product(l.remove(i)) == 14nat);
        } else {
            lemma_product_without(l, i, 7nat);
            assert(product(l.remove(i)) == 4nat);
        }
    }
    lemma_lucas(2int, l, 29int);
}

/// The power `(43 - 1) / 2` of 3 modulo 43.
proof fn lemma_pow_43_without_2()
    ensures
        pow_mod(3int, 21nat, 43int) == 42int,
{
    lemma_pow_mod_window(3int, 1int, 0nat, 1, 43int);
    assert(window(3int, 1int, 1, 43int) == 3int);
    lemma_pow_mod_window(3int, 3int, 1nat, 5, 43int);
    assert(window(3int, 3int, 5, 43int) == 42int);
}

/// The power `(43 - 1) / 3` of 3 modulo 43.
proof fn lemma_pow_43_without_3()
    ensures
        pow_mod(3int, 14nat, 43int) == 36int,
{
    lemma_pow_mod_window(3int, 1int, 0nat, 14, 43int);
    assert(window(3int, 1int, 14, 43int) == 36int);
}

/// The power `(43 - 1) / 7` of 3 modulo 43.
proof fn lemma_pow_43_without_7()
    ensures
        pow_mod(3int, 6nat, 43int) == 41int,
{
    lemma_pow_mod_window(3int, 1int, 0nat, 6, 43int);
    assert(window(3int, 1int, 6, 43int) == 41int);
}

/// The power `43 - 1` of 3 modulo 43: the square of the power with half the exponent.
proof fn lemma_pow_43_full()
    ensures
        pow_mod(3int, 42nat, 43int) == 1,
{
    lemma_pow_43_without_2();
    lemma_pow_mod_window(42int, 1, 0, 2, 43int);
    assert(window(42int, 1, 2, 43int) == 1);
    lemma_pow_mod_chain(3int, 21nat, 2, 43int, 42int, 1);
}

/// 43 is a prime.
pub proof fn lemma_prime_43()
    ensures
        all_units(43int),
{
    let l: Seq<nat> = Seq::new(3, |i: int| if i < 1 { 2nat } else if i < 2 { 3nat } else { 7nat });
    lemma_prime_2();
    lemma_prime_3();
    lemma_prime_7();
    assert(product(l.take(0)) == 1);
    lemma_product_next(l, 0, 1nat, 2nat);
    assert(product(l.take(1)) == 2nat);
    lemma_product_next(l, 1, 2nat, 3nat);
    assert(product(l.take(2)) == 6nat);
    lemma_product_next(l, 2, 6nat, 7nat);
    assert(product(l.take(3)) == 42nat);
    assert(l.take(3) =~= l);
    lemma_pow_43_full();
    lemma_pow_43_without_2();
    lemma_pow_43_without_3();
    lemma_pow_43_without_7();
    assert forall|i: int| 0 <= i < l.len() implies all_units(#[trigger] l[i] as int) by {
    }
    assert forall|i: int| 0 <= i < l.len() implies pow_mod(
        3int,
        #[trigger] product(l.remove(i)),
        43int,
    ) != 1 by {
        if i < 1 {
            lemma_product_without(l, i, 2nat);
            assert(product(l.remove(i)) == 21nat);
        } else if i < 2 {
            lemma_product_without(l, i, 3nat);
            assert(product(l.remove(i)) == 14nat);
        } else {
            lemma_product_without(l, i, 7nat);
            assert(product(l.remove(i)) == 6nat);
        }
    }
    lemma_lucas(3int, l, 43int);
}

/// The power `(47 - 1) / 2` of 5 modulo 47.
proof fn lemma_pow_47_without_2()
    ensures
        pow_mod(5int, 23nat, 47int) == 46int,
{
    lemma_pow_mod_window(5int, 1int, 0nat, 1, 47int);
    assert(window(5int, 1int, 1, 47int) == 5int);
    lemma_pow_mod_window(5int, 5int, 1nat, 7, 47int);
    assert(window(5int, 5int, 7, 47int) == 46int);
}

/// The power `(47 - 1) / 23` of 5 modulo 47.
proof fn lemma_pow_47_without_23()
    ensures
        pow_mod(5int, 2nat, 47int) == 25int,
{
    lemma_pow_mod_window(5int, 1int, 0nat, 2, 47int);
    assert(window(5int, 1int, 2, 47int) == 25int);
}

/// The power `47 - 1` of 5 modulo 47: the square of the power with half the exponent.
proof fn lemma_pow_47_full()
    ensures
        pow_mod(5int, 46nat, 47int) == 1,
{
    lemma_pow_47_without_2();
    lemma_pow_mod_window(46int, 1, 0, 2, 47int);
    assert(window(46int, 1, 2, 47int) == 1);
    lemma_pow_mod_chain(5int, 23nat, 2, 47int, 46int, 1);
}

/// 47 is a prime.
pub proof fn lemma_prime_47()
    ensures
        all_units(47int),
{
    let l: Seq<nat> = Seq::new(2, |i: int| if i < 1 { 2nat } else { 23nat });
    lemma_prime_2();
    lemma_prime_23();
    assert(product(l.take(0)) == 1);
    lemma_product_next(l, 0, 1nat, 2nat);
    assert(product(l.take(1)) == 2nat);
    lemma_product_next(l, 1, 2nat, 23nat);
    assert(product(l.take(2)) == 46nat);
    assert(l.take(2) =~= l);
    lemma_pow_47_full();
    lemma_pow_47_without_2();
    lemma_pow_47_without_23();
    assert forall|i: int| 0 <= i < l.len() implies all_units(#[trigger] l[i] as int) by {
    }
    assert forall|i: int| 0 <= i < l.len() implies pow_mod(
        5int,
        #[trigger] product(l.remove(i)),
        47int,
    ) != 1 by {
        if i < 1 {
            lemma_product_without(l, i, 2nat);
            assert(product(l.remove(i)) == 23nat);
        } else {
            lemma_product_without(l, i, 23nat);
            assert(product(l.remove(i)) == 2nat);
        }
    }
    lemma_lucas(5int, l, 47int);
}

/// The power `(53 - 1) / 2` of 2 modulo 53.
proof fn lemma_pow_53_without_2()
    ensures
        pow_mod(2int, 26nat, 53int) == 52int,
{
    lemma_pow_mod_window(2int, 1int, 0nat, 1, 53int);
    assert(window(2int, 1int, 1, 53int) == 2int);
    lemma_pow_mod_window(2int, 2int, 1nat, 10, 53int);
    assert(window(2int, 2int, 10, 53int) == 52int);
}

/// The power `(53 - 1) / 13` of 2 modulo 53.
proof fn lemma_pow_53_without_13()
    ensures
        pow_mod(2int, 4nat, 53int) == 16int,
{
    lemma_pow_mod_window(2int, 1int, 0nat, 4, 53int);
    assert(window(2int, 1int, 4, 53int) == 16int);
}

/// The power `53 - 1` of 2 modulo 53: the square of the power with half the exponent.
proof fn lemma_pow_53_full()
    ensures
        pow_mod(2int, 52nat, 53int) == 1,
{
    lemma_pow_53_without_2();
    lemma_pow_mod_window(52int, 1, 0, 2, 53int);
    assert(window(52int, 1, 2, 53int) == 1);
    lemma_pow_mod_chain(2int, 26nat, 2, 53int, 52int, 1);
}

/// 53 is a prime.
pub proof fn lemma_prime_53()
    ensures
        all_units(53int),
{
    let l: Seq<nat> = Seq::new(3, |i: int| if i < 2 { 2nat } else { 13nat });
    lemma_prime_2();
    lemma_prime_13();
    assert(product(l.take(0)) == 1);
    lemma_product_next(l, 0, 1nat, 2nat);
    assert(product(l.take(1)) == 2nat);
    lemma_product_next(l, 1, 2nat, 2nat);
    assert(product(l.take(2)) == 4nat);
    lemma_product_next(l, 2, 4nat, 13nat);
    assert(product(l.take(3)) == 52nat);
    assert(l.take(3) =~= l);
    lemma_pow_53_full();
    lemma_pow_53_without_2();
    lemma_pow_53_without_13();
    assert forall|i: int| 0 <= i < l.len() implies all_units(#[trigger] l[i] as int) by {
    }
    assert forall|i: int| 0 <= i < l.len() implies pow_mod(
        2int,
        #[trigger] product(l.remove(i)),
        53int,
    ) != 1 by {
        if i < 2 {
            lemma_product_without(l, i, 2nat);
            assert(product(l.remove(i)) == 26nat);
        } else {
            lemma_product_without(l, i, 13nat);
            assert(product(l.remove(i)) == 4nat);
        }
    }
    lemma_lucas(2int, l, 53int);
}

/// The power `(73 - 1) / 2` of 5 modulo 73.
proof fn lemma_pow_73_without_2()
    ensures
        pow_mod(5int, 36nat, 73int) == 72int,
{
    lemma_pow_mod_window(5int, 1int, 0nat, 2, 73int);
    assert(window(5int, 1int, 2, 73int) == 25int);
    lemma_pow_mod_window(5int, 25int, 2nat, 4, 73int);
    assert(window(5int, 25int, 4, 73int) == 72int);
}

/// The power `(73 - 1) / 3` of 5 modulo 73.
proof fn lemma_pow_73_without_3()
    ensures
        pow_mod(5int, 24nat, 73int) == 8int,
{
    lemma_pow_mod_window(5int, 1int, 0nat, 1, 73int);
    assert(window(5int, 1int, 1, 73int) == 5int);
    lemma_pow_mod_window(5int, 5int, 1nat, 8, 73int);
    assert(window(5int, 5int, 8, 73int) == 8int);
}

/// The power `73 - 1` of 5 modulo 73: the square of the power with half the exponent.
proof fn lemma_pow_73_full()
    ensures
        pow_mod(5int, 72nat, 73int) == 1,
{
    lemma_pow_73_without_2();
    lemma_pow_mod_window(72int, 1, 0, 2, 73int);
    assert(window(72int, 1, 2, 73int) == 1);
    lemma_pow_mod_chain(5int, 36nat, 2, 73int, 72int, 1);
}

/// 73 is a prime.
pub proof fn lemma_prime_73()
    ensures
        all_units(73int),
{
    let l: Seq<nat> = Seq::new(5, |i: int| if i < 3 { 2nat } else { 3nat });
    lemma_prime_2();
    lemma_prime_3();
    assert(product(l.take(0)) == 1);
    lemma_product_next(l, 0, 1nat, 2nat);
    assert(product(l.take(1)) == 2nat);
    lemma_product_next(l, 1, 2nat, 2nat);
    assert(product(l.take(2)) == 4nat);
    lemma_product_next(l, 2, 4nat, 2nat);
    assert(product(l.take(3)) == 8nat);
    lemma_product_next(l, 3, 8nat, 3nat);
    assert(product(l.take(4)) == 24nat);
    lemma_product_next(l, 4, 24nat, 3nat);
    assert(product(l.take(5)) == 72nat);
    assert(l.take(5) =~= l);
    lemma_pow_73_full();
    lemma_pow_73_without_2();
    lemma_pow_73_without_3();
    assert forall|i: int| 0 <= i < l.len() implies all_units(#[trigger] l[i] as int) by {
    }
    assert forall|i: int| 0 <= i < l.len() implies pow_mod(
        5int,
        #[trigger] product(l.remove(i)),
        73int,
    ) != 1 by {
        if i < 3 {
            lemma_product_without(l, i, 2nat);
            assert(product(l.remove(i)) == 36nat);
        } else {
            lemma_product_without(l, i, 3nat);
            assert(product(l.remove(i)) == 24nat);
        }
    }
    lemma_lucas(5int, l, 73int);
}

/// The power `(79 - 1) / 2` of 3 modulo 79.
proof fn lemma_pow_79_without_2()
    ensures
        pow_mod(3int, 39nat, 79int) == 78int,
{
    lemma_pow_mod_window(3int, 1int, 0nat, 2, 79int);
    assert(window(3int, 1int, 2, 79int) == 9int);
    lemma_pow_mod_window(3int, 9int, 2nat, 7, 79int);
    assert(window(3int, 9int, 7, 79int) == 78int);
}

/// The power `(79 - 1) / 3` of 3 modulo 79.
proof fn lemma_pow_79_without_3()
    ensures
        pow_mod(3int, 26nat, 79int) == 23int,
{
    lemma_pow_mod_window(3int, 1int, 0nat, 1, 79int);
    assert(window(3int, 1int, 1, 79int) == 3int);
    lemma_pow_mod_window(3int, 3int, 1nat, 10, 79int);
    assert(window(3int, 3int, 10, 79int) == 23int);
}

/// The power `(79 - 1) / 13` of 3 modulo 79.
proof fn lemma_pow_79_without_13()
    ensures
        pow_mod(3int, 6nat, 79int) == 18int,
{
    lemma_pow_mod_window(3int, 1int, 0nat, 6, 79int);
    assert(window(3int, 1int, 6, 79int) == 18int);
}

/// The power `79 - 1` of 3 modulo 79: the square of the power with half the exponent.
proof fn lemma_pow_79_full()
    ensures
        pow_mod(3int, 78nat, 79int) == 1,
{
    lemma_pow_79_without_2();
    lemma_pow_mod_window(78int, 1, 0, 2, 79int);
    assert(window(78int, 1, 2, 79int) == 1);
    lemma_pow_mod_chain(3int, 39nat, 2, 79int, 78int, 1);
}

/// 79 is a prime.
pub proof fn lemma_prime_79()
    ensures
        all_units(79int),
{
    let l: Seq<nat> = Seq::new(3, |i: int| if i < 1 { 2nat } else if i < 2 { 3nat } else { 13nat });
    lemma_prime_2();
    lemma_prime_3();
    lemma_prime_13();
    assert(product(l.take(0)) == 1);
    lemma_product_next(l, 0, 1nat, 2nat);
    assert(product(l.take(1)) == 2nat);
    lemma_product_next(l, 1, 2nat, 3nat);
    assert(product(l.take(2)) == 6nat);
    lemma_product_next(l, 2, 6nat, 13nat);
    assert(product(l.take(3)) == 78nat);
    assert(l.take(3) =~= l);
    lemma_pow_79_full();
    lemma_pow_79_without_2();
    lemma_pow_79_without_3();
    lemma_pow_79_without_13();
    assert forall|i: int| 0 <= i < l.len() implies all_units(#[trigger] l[i] as int) by {
    }
    assert forall|i: int| 0 <= i < l.len() implies pow_mod(
        3int,
        #[trigger] product(l.remove(i)),
        79int,
    ) != 1 by {
        if i < 1 {
            lemma_product_without(l, i, 2nat);
            assert(product(l.remove(i)) == 39nat);
        } else if i < 2 {
            lemma_product_without(l, i, 3nat);
            assert(product(l.remove(i)) == 26nat);
        } else {
            lemma_product_without(l, i, 13nat);
            assert(product(l.remove(i)) == 6nat);
        }
    }
    lemma_lucas(3int, l, 79int);
}

/// The power `(89 - 1) / 2` of 3 modulo 89.
proof fn lemma_pow_89_without_2()
    ensures
        pow_mod(3int, 44nat, 89int) == 88int,
{
    lemma_pow_mod_window(3int, 1int, 0nat, 2, 89int);
    assert(window(3int, 1int, 2, 89int) == 9int);
    lemma_pow_mod_window(3int, 9int, 2nat, 12, 89int);
    assert(window(3int, 9int, 12, 89int) == 88int);
}

/// The power `(89 - 1) / 11` of 3 modulo 89.
proof fn lemma_pow_89_without_11()
    ensures
        pow_mod(3int, 8nat, 89int) == 64int,
{
    lemma_pow_mod_window(3int, 1int, 0nat, 8, 89int);
    assert(window(3int, 1int, 8, 89int) == 64int);
}

/// The power `89 - 1` of 3 modulo 89: the square of the power with half the exponent.
proof fn lemma_pow_89_full()
    ensures
        pow_mod(3int, 88nat, 89int) == 1,
{
    lemma_pow_89_without_2();
    lemma_pow_mod_window(88int, 1, 0, 2, 89int);
    assert(window(88int, 1, 2, 89int) == 1);
    lemma_pow_mod_chain(3int, 44nat, 2, 89int, 88int, 1);
}

/// 89 is a prime.
pub proof fn lemma_prime_89()
    ensures
        all_units(89int),
{
    let l: Seq<nat> = Seq::new(4, |i: int| if i < 3 { 2nat } else { 11nat });
    lemma_prime_2();
    lemma_prime_11();
    assert(product(l.take(0)) == 1);
    lemma_product_next(l, 0, 1nat, 2nat);
    assert(product(l.take(1)) == 2nat);
    lemma_product_next(l, 1, 2nat, 2nat);
    assert(product(l.take(2)) == 4nat);
    lemma_product_next(l, 2, 4nat, 2nat);
    assert(product(l.take(3)) == 8nat);
    lemma_product_next(l, 3, 8nat, 11nat);
    assert(product(l.take(4)) == 88nat);
    assert(l.take(4) =~= l);
    lemma_pow_89_full();
    lemma_pow_89_without_2();
    lemma_pow_89_without_11();
    assert forall|i: int| 0 <= i < l.len() implies all_units(#[trigger] l[i] as int) by {
    }
    assert forall|i: int| 0 <= i < l.len() implies pow_mod(
        3int,
        #[trigger] product(l.remove(i)),
        89int,
    ) != 1 by {
        if i < 3 {
            lemma_product_without(l, i, 2nat);
            assert(product(l.remove(i)) == 44nat);
        } else {
            lemma_product_without(l, i, 11nat);
            assert(product(l.remove(i)) == 8nat);
        }
    }
    lemma_lucas(3int, l, 89int);
}

/// The power `(97 - 1) / 2` of 5 modulo 97.
proof fn lemma_pow_97_without_2()
    ensures
        pow_mod(5int, 48nat, 97int) == 96int,
{
    lemma_pow_mod_window(5int, 1int, 0nat, 3, 97int);
    assert(window(5int, 1int, 3, 97int) == 28int);
    lemma_pow_mod_window(5int, 28int, 3nat, 0, 97int);
    assert(window(5int, 28int, 0, 97int) == 96int);
}

/// The power `(97 - 1) / 3` of 5 modulo 97.
proof fn lemma_pow_97_without_3()
    ensures
        pow_mod(5int, 32nat, 97int) == 35int,
{
    lemma_pow_mod_window(5int, 1int, 0nat, 2, 97int);
    assert(window(5int, 1int, 2, 97int) == 25int);
    lemma_pow_mod_window(5int, 25int, 2nat, 0, 97int);
    assert(window(5int, 25int, 0, 97int) == 35int);
}

/// The power `97 - 1` of 5 modulo 97: the square of the power with half the exponent.
proof fn lemma_pow_97_full()
    ensures
        pow_mod(5int, 96nat, 97int) == 1,
{
    lemma_pow_97_without_2();
    lemma_pow_mod_window(96int, 1, 0, 2, 97int);
    assert(window(96int, 1, 2, 97int) == 1);
    lemma_pow_mod_chain(5int, 48nat, 2, 97int, 96int, 1);
}

/// 97 is a prime.
pub proof fn lemma_prime_97()
    ensures
        all_units(97int),
{
    let l: Seq<nat> = Seq::new(6, |i: int| if i < 5 { 2nat } else { 3nat });
    lemma_prime_2();
    lemma_prime_3();
    assert(product(l.take(0)) == 1);
    lemma_product_next(l, 0, 1nat, 2nat);
    assert(product(l.take(1)) == 2nat);
    lemma_product_next(l, 1, 2nat, 2nat);
    assert(product(l.take(2)) == 4nat);
    lemma_product_next(l, 2, 4nat, 2nat);
    assert(product(l.take(3)) == 8nat);
    lemma_product_next(l, 3, 8nat, 2nat);
    assert(product(l.take(4)) == 16nat);
    lemma_product_next(l, 4, 16nat, 2nat);
    assert(product(l.take(5)) == 32nat);
    lemma_product_next(l, 5, 32nat, 3nat);
    assert(product(l.take(6)) == 96nat);
    assert(l.take(6) =~= l);
    lemma_pow_97_full();
    lemma_pow_97_without_2();
    lemma_pow_97_without_3();
    assert forall|i: int| 0 <= i < l.len() implies all_units(#[trigger] l[i] as int) by {
    }
    assert forall|i: int| 0 <= i < l.len() implies pow_mod(
        5int,
        #[trigger] product(l.remove(i)),
        97int,
    ) != 1 by {
        if i < 5 {
            lemma_product_without(l, i, 2nat);
            assert(product(l.remove(i)) == 48nat);
        } else {
            lemma_product_without(l, i, 3nat);
            assert(product(l.remove(i)) == 32nat);
        }
    }
    lemma_lucas(5int, l, 97int);
}

/// The power `(179 - 1) / 2` of 2 modulo 179.
proof fn lemma_pow_179_without_2()
    ensures
        pow_mod(2int, 89nat, 179int) == 178int,
{
    lemma_pow_mod_window(2int, 1int, 0nat, 5, 179int);
    assert(window(2int, 1int, 5, 179int) == 32int);
    lemma_pow_mod_window(2int, 32int, 5nat, 9, 179int);
    assert(window(2int, 32int, 9, 179int) == 178int);
}

/// The power `(179 - 1) / 89` of 2 modulo 179.
proof fn lemma_pow_179_without_89()
    ensures
        pow_mod(2int, 2nat, 179int) == 4int,
{
    lemma_pow_mod_window(2int, 1int, 0nat, 2, 179int);
    assert(window(2int, 1int, 2, 179int) == 4int);
}

/// The power `179 - 1` of 2 modulo 179: the square of the power with half the exponent.
proof fn lemma_pow_179_full()
    ensures
        pow_mod(2int, 178nat, 179int) == 1,
{
    lemma_pow_179_without_2();
    lemma_pow_mod_window(178int, 1, 0, 2, 179int);
    assert(window(178int, 1, 2, 179int) == 1);
    lemma_pow_mod_chain(2int, 89nat, 2, 179int, 178int, 1);
}

/// 179 is a prime.
pub proof fn lemma_prime_179()
    ensures
        all_units(179int),
{
    let l: Seq<nat> = Seq::new(2, |i: int| if i < 1 { 2nat } else { 89nat });
    lemma_prime_2();
    lemma_prime_89();
    assert(product(l.take(0)) == 1);
    lemma_product_next(l, 0, 1nat, 2nat);
    assert(product(l.take(1)) == 2nat);
    lemma_product_next(l, 1, 2nat, 89nat);
    assert(product(l.take(2)) == 178nat);
    assert(l.take(2) =~= l);
    lemma_pow_179_full();
    lemma_pow_179_without_2();
    lemma_pow_179_without_89();
    assert forall|i: int| 0 <= i < l.len() implies all_units(#[trigger] l[i] as int) by {
    }
    assert forall|i: int| 0 <= i < l.len() implies pow_mod(
        2int,
        #[trigger] product(l.remove(i)),
        179int,
    ) != 1 by {
        if i < 1 {
            lemma_product_without(l, i, 2nat);
            assert(product(l.remove(i)) == 89nat);
        } else {
            lemma_product_without(l, i, 89nat);
            assert(product(l.remove(i)) == 2nat);
        }
    }
    lemma_lucas(2int, l, 179int);
}

/// The power `(359 - 1) / 2` of 7 modulo 359.
proof fn lemma_pow_359_without_2()
    ensures
        pow_mod(7int, 179nat, 359int) == 358int,
{
    lemma_pow_mod_window(7int, 1int, 0nat, 11, 359int);
    assert(window(7int, 1int, 11, 359int) == 336int);
    lemma_pow_mod_window(7int, 336int, 11nat, 3, 359int);
    assert(window(7int, 336int, 3, 359int) == 358int);
}

/// The power `(359 - 1) / 179` of 7 modulo 359.
proof fn lemma_pow_359_without_179()
    ensures
        pow_mod(7int, 2nat, 359int) == 49int,
{
    lemma_pow_mod_window(7int, 1int, 0nat, 2, 359int);
    assert(window(7int, 1int, 2, 359int) == 49int);
}

/// The power `359 - 1` of 7 modulo 359: the square of the power with half the exponent.
proof fn lemma_pow_359_full()
    ensures
        pow_mod(7int, 358nat, 359int) == 1,
{
    lemma_pow_359_without_2();
    lemma_pow_mod_window(358int, 1, 0, 2, 359int);
    assert(window(358int, 1, 2, 359int) == 1);
    lemma_pow_mod_chain(7int, 179nat, 2, 359int, 358int, 1);
}

/// 359 is a prime.
pub proof fn lemma_prime_359()
    ensures
        all_units(359int),
{
    let l: Seq<nat> = Seq::new(2, |i: int| if i < 1 { 2nat } else { 179nat });
    lemma_prime_2();
    lemma_prime_179();
    assert(product(l.take(0)) == 1);
    lemma_product_next(l, 0, 1nat, 2nat);
    assert(product(l.take(1)) == 2nat);
    lemma_product_next(l, 1, 2nat, 179nat);
    assert(product(l.take(2)) == 358nat);
    assert(l.take(2) =~= l);
    lemma_pow_359_full();
    lemma_pow_359_without_2();
    lemma_pow_359_without_179();
    assert forall|i: int| 0 <= i < l.len() implies all_units(#[trigger] l[i] as int) by {
    }
    assert forall|i: int| 0 <= i < l.len() implies pow_mod(
        7int,
        #[trigger] product(l.remove(i)),
        359int,
    ) != 1 by {
        if i < 1 {
            lemma_product_without(l, i, 2nat);
            assert(product(l.remove(i)) == 179nat);
        } else {
            lemma_product_without(l, i, 179nat);
            assert(product(l.remove(i)) == 2nat);
        }
    }
    lemma_lucas(7int, l, 359int);
}

/// The power `(449 - 1) / 2` of 3 modulo 449.
proof fn lemma_pow_449_without_2()
    ensures
        pow_mod(3int, 224nat, 449int) == 448int,
{
    lemma_pow_mod_window(3int, 1int, 0nat, 14, 449int);
    assert(window(3int, 1int, 14, 449int) == 221int);
    lemma_pow_mod_window(3int, 221int, 14nat, 0, 449int);
    assert(window(3int, 221int, 0, 449int) == 448int);
}

/// The power `(449 - 1) / 7` of 3 modulo 449.
proof fn lemma_pow_449_without_7()
    ensures
        pow_mod(3int, 64nat, 449int) == 324int,
{
    lemma_pow_mod_window(3int, 1int, 0nat, 4, 449int);
    assert(window(3int, 1int, 4, 449int) == 81int);
    lemma_pow_mod_window(3int, 81int, 4nat, 0, 449int);
    assert(window(3int, 81int, 0, 449int) == 324int);
}

/// The power `449 - 1` of 3 modulo 449: the square of the power with half the exponent.
proof fn lemma_pow_449_full()
    ensures
        pow_mod(3int, 448nat, 449int) == 1,
{
    lemma_pow_449_without_2();
    lemma_pow_mod_window(448int, 1, 0, 2, 449int);
    assert(window(448int, 1, 2, 449int) == 1);
    lemma_pow_mod_chain(3int, 224nat, 2, 449int, 448int, 1);
}

/// 449 is a prime.
pub proof fn lemma_prime_449()
    ensures
        all_units(449int),
{
    let l: Seq<nat> = Seq::new(7, |i: int| if i < 6 { 2nat } else { 7nat });
    lemma_prime_2();
    lemma_prime_7();
    assert(product(l.take(0)) == 1);
    lemma_product_next(l, 0, 1nat, 2nat);
    assert(product(l.take(1)) == 2nat);
    lemma_product_next(l, 1, 2nat, 2nat);
    assert(product(l.take(2)) == 4nat);
    lemma_product_next(l, 2, 4nat, 2nat);
    assert(product(l.take(3)) == 8nat);
    lemma_product_next(l, 3, 8nat, 2nat);
    assert(product(l.take(4)) == 16nat);
    lemma_product_next(l, 4, 16nat, 2nat);
    assert(product(l.take(5)) == 32nat);
    lemma_product_next(l, 5, 32nat, 2nat);
    assert(product(l.take(6)) == 64nat);
    lemma_product_next(l, 6, 64nat, 7nat);
    assert(product(l.take(7)) == 448nat);
    assert(l.take(7) =~= l);
    lemma_pow_449_full();
    lemma_pow_449_without_2();
    lemma_pow_449_without_7();
    assert forall|i: int| 0 <= i < l.len() implies all_units(#[trigger] l[i] as int) by {
    }
    assert forall|i: int| 0 <= i < l.len() implies pow_mod(
        3int,
        #[trigger] product(l.remove(i)),
        449int,
    ) != 1 by {
        if i < 6 {
            lemma_product_without(l, i, 2nat);
            assert(product(l.remove(i)) == 224nat);
        } else {
            lemma_product_without(l, i, 7nat);
            assert(product(l.remove(i)) == 64nat);
        }
    }
    lemma_lucas(3int, l, 449int);
}

/// The power `(523 - 1) / 2` of 2 modulo 523.
proof fn lemma_pow_523_without_2()
    ensures
        pow_mod(2int, 261nat, 523int) == 522int,
{
    lemma_pow_mod_window(2int, 1int, 0nat, 1, 523int);
    assert(window(2int, 1int, 1, 523int) == 2int);
    lemma_pow_mod_window(2int, 2int, 1nat, 0, 523int);
    assert(window(2int, 2int, 0, 523int) == 161int);
    lemma_pow_mod_window(2int, 161int, 16nat, 5, 523int);
    assert(window(2int, 161int, 5, 523int) == 522int);
}

/// The power `(523 - 1) / 3` of 2 modulo 523.
proof fn lemma_pow_523_without_3()
    ensures
        pow_mod(2int, 174nat, 523int) == 462int,
{
    lemma_pow_mod_window(2int, 1int, 0nat, 10, 523int);
    assert(window(2int, 1int, 10, 523int) == 501int);
    lemma_pow_mod_window(2int, 501int, 10nat, 14, 523int);
    assert(window(2int, 501int, 14, 523int) == 462int);
}

/// The power `(523 - 1) / 29` of 2 modulo 523.
proof fn lemma_pow_523_without_29()
    ensures
        pow_mod(2int, 18nat, 523int) == 121int,
{
    lemma_pow_mod_window(2int, 1int, 0nat, 1, 523int);
    assert(window(2int, 1int, 1, 523int) == 2int);
    lemma_pow_mod_window(2int, 2int, 1nat, 2, 523int);
    assert(window(2int, 2int, 2, 523int) == 121int);
}

/// The power `523 - 1` of 2 modulo 523: the square of the power with half the exponent.
proof fn lemma_pow_523_full()
    ensures
        pow_mod(2int, 522nat, 523int) == 1,
{
    lemma_pow_523_without_2();
    lemma_pow_mod_window(522int, 1, 0, 2, 523int);
    assert(window(522int, 1, 2, 523int) == 1);
    lemma_pow_mod_chain(2int, 261nat, 2, 523int, 522int, 1);
}

/// 523 is a prime.
pub proof fn lemma_prime_523()
    ensures
        all_units(523int),
{
    let l: Seq<nat> = Seq::new(4, |i: int| if i < 1 { 2nat } else if i < 3 { 3nat } else { 29nat });
    lemma_prime_2();
    lemma_prime_3();
    lemma_prime_29();
    assert(product(l.take(0)) == 1);
    lemma_product_next(l, 0, 1nat, 2nat);
    assert(product(l.take(1)) == 2nat);
    lemma_product_next(l, 1, 2nat, 3nat);
    assert(product(l.take(2)) == 6nat);
    lemma_product_next(l, 2, 6nat, 3nat);
    assert(product(l.take(3)) == 18nat);
    lemma_product_next(l, 3, 18nat, 29nat);
    assert(product(l.take(4)) == 522nat);
    assert(l.take(4) =~= l);
    lemma_pow_523_full();
    lemma_pow_523_without_2();
    lemma_pow_523_without_3();
    lemma_pow_523_without_29();
    assert forall|i: int| 0 <= i < l.len() implies all_units(#[trigger] l[i] as int) by {
    }
    assert forall|i: int| 0 <= i < l.len() implies pow_mod(
        2int,
        #[trigger] product(l.remove(i)),
        523int,
    ) != 1 by {
        if i < 1 {
            lemma_product_without(l, i, 2nat);
            assert(product(l.remove(i)) == 261nat);
        } else if i < 3 {
            lemma_product_without(l, i, 3nat);
            assert(product(l.remove(i)) == 174nat);
        } else {
            lemma_product_without(l, i, 29nat);
            assert(product(l.remove(i)) == 18nat);
        }
    }
    lemma_lucas(2int, l, 523int);
}

/// The power `(1607 - 1) / 2` of 5 modulo 1607.
proof fn lemma_pow_1607_without_2()
    ensures
        pow_mod(5int, 803nat, 1607int) == 1606int,
{
    lemma_pow_mod_window(5int, 1int, 0nat, 3, 1607int);
    assert(window(5int, 1int, 3, 1607int) == 125int);
    lemma_pow_mod_window(5int, 125int, 3nat, 2, 1607int);
    assert(window(5int, 125int, 2, 1607int) == 937int);
    lemma_pow_mod_window(5int, 937int, 50nat, 3, 1607int);
    assert(window(5int, 937int, 3, 1607int) == 1606int);
}

/// The power `(1607 - 1) / 11` of 5 modulo 1607.
proof fn lemma_pow_1607_without_11()
    ensures
        pow_mod(5int, 146nat, 1607int) == 1522int,
{
    lemma_pow_mod_window(5int, 1int, 0nat, 9, 1607int);
    assert(window(5int, 1int, 9, 1607int) == 620int);
    lemma_pow_mod_window(5int, 620int, 9nat, 2, 1607int);
    assert(window(5int, 620int, 2, 1607int) == 1522int);
}

/// The power `(1607 - 1) / 73` of 5 modulo 1607.
proof fn lemma_pow_1607_without_73()
    ensures
        pow_mod(5int, 22nat, 1607int) == 286int,
{
    lemma_pow_mod_window(5int, 1int, 0nat, 1, 1607int);
    assert(window(5int, 1int, 1, 1607int) == 5int);
    lemma_pow_mod_window(5int, 5int, 1nat, 6, 1607int);
    assert(window(5int, 5int, 6, 1607int) == 286int);
}

/// The power `1607 - 1` of 5 modulo 1607: the square of the power with half the exponent.
proof fn lemma_pow_1607_full()
    ensures
        pow_mod(5int, 1606nat, 1607int) == 1,
{
    lemma_pow_1607_without_2();
    lemma_pow_mod_window(1606int, 1, 0, 2, 1607int);
    assert(window(1606int, 1, 2, 1607int) == 1);
    lemma_pow_mod_chain(5int, 803nat, 2, 1607int, 1606int, 1);
}

/// 1607 is a prime.
pub proof fn lemma_prime_1607()
    ensures
        all_units(1607int),
{
    let l: Seq<nat> = Seq::new(3, |i: int| if i < 1 { 2nat } else if i < 2 { 11nat } else { 73nat });
    lemma_prime_2();
    lemma_prime_11();
    lemma_prime_73();
    assert(product(l.take(0)) == 1);
    lemma_product_next(l, 0, 1nat, 2nat);
    assert(product(l.take(1)) == 2nat);
    lemma_product_next(l, 1, 2nat, 11nat);
    assert(product(l.take(2)) == 22nat);
    lemma_product_next(l, 2, 22nat, 73nat);
    assert(product(l.take(3)) == 1606nat);
    assert(l.take(3) =~= l);
    lemma_pow_1607_full();
    lemma_pow_1607_without_2();
    lemma_pow_1607_without_11();
    lemma_pow_1607_without_73();
    assert forall|i: int| 0 <= i < l.len() implies all_units(#[trigger] l[i] as int) by {
    }
    assert forall|i: int| 0 <= i < l.len() implies pow_mod(
        5int,
        #[trigger] product(l.remove(i)),
        1607int,
    ) != 1 by {
        if i < 1 {
            lemma_product_without(l, i, 2nat);
            assert(product(l.remove(i)) == 803nat);
        } else if i < 2 {
            lemma_product_without(l, i, 11nat);
            assert(product(l.remove(i)) == 146nat);
        } else {
            lemma_product_without(l, i, 73nat);
            assert(product(l.remove(i)) == 22nat);
        }
    }
    lemma_lucas(5int, l, 1607int);
}

/// The power `(10177 - 1) / 2` of 7 modulo 10177.
proof fn lemma_pow_10177_without_2()
    ensures
        pow_mod(7int, 5088nat, 10177int) == 10176int,
{
    lemma_pow_mod_window(7int, 1int, 0nat, 1, 10177int);
    assert(window(7int, 1int, 1, 10177int) == 7int);
    lemma_pow_mod_window(7int, 7int, 1nat, 3, 10177int);
    assert(window(7int, 7int, 3, 10177int) == 5187int);
    lemma_pow_mod_window(7int, 5187int, 19nat, 14, 10177int);
    assert(window(7int, 5187int, 14, 10177int) == 8874int);
    lemma_pow_mod_window(7int, 8874int, 318nat, 0, 10177int);
    assert(window(7int, 8874int, 0, 10177int) == 10176int);
}

/// The power `(10177 - 1) / 3` of 7 modulo 10177.
proof fn lemma_pow_10177_without_3()
    ensures
        pow_mod(7int, 3392nat, 10177int) == 4773int,
{
    lemma_pow_mod_window(7int, 1int, 0nat, 13, 10177int);
    assert(window(7int, 1int, 13, 10177int) == 1377int);
    lemma_pow_mod_window(7int, 1377int, 13nat, 4, 10177int);
    assert(window(7int, 1377int, 4, 10177int) == 10044int);
    lemma_pow_mod_window(7int, 10044int, 212nat, 0, 10177int);
    assert(window(7int, 10044int, 0, 10177int) == 4773int);
}

/// The power `(10177 - 1) / 53` of 7 modulo 10177.
proof fn lemma_pow_10177_without_53()
    ensures
        pow_mod(7int, 192nat, 10177int) == 3616int,
{
    lemma_pow_mod_window(7int, 1int, 0nat, 12, 10177int);
    assert(window(7int, 1int, 12, 10177int) == 7466int);
    lemma_pow_mod_window(7int, 7466int, 12nat, 0, 10177int);
    assert(window(7int, 7466int, 0, 10177int) == 3616int);
}

/// The power `10177 - 1` of 7 modulo 10177: the square of the power with half the exponent.
proof fn lemma_pow_10177_full()
    ensures
        pow_mod(7int, 10176nat, 10177int) == 1,
{
    lemma_pow_10177_without_2();
    lemma_pow_mod_window(10176int, 1, 0, 2, 10177int);
    assert(window(10176int, 1, 2, 10177int) == 1);
    lemma_pow_mod_chain(7int, 5088nat, 2, 10177int, 10176int, 1);
}

/// 10177 is a prime.
pub proof fn lemma_prime_10177()
    ensures
        all_units(10177int),
{
    let l: Seq<nat> = Seq::new(8, |i: int| if i < 6 { 2nat } else if i < 7 { 3nat } else { 53nat });
    lemma_prime_2();
    lemma_prime_3();
    lemma_prime_53();
    assert(product(l.take(0)) == 1);
    lemma_product_next(l, 0, 1nat, 2nat);
    assert(product(l.take(1)) == 2nat);
    lemma_product_next(l, 1, 2nat, 2nat);
    assert(product(l.take(2)) == 4nat);
    lemma_product_next(l, 2, 4nat, 2nat);
    assert(product(l.take(3)) == 8nat);
    lemma_product_next(l, 3, 8nat, 2nat);
    assert(product(l.take(4)) == 16nat);
    lemma_product_next(l, 4, 16nat, 2nat);
    assert(product(l.take(5)) == 32nat);
    lemma_product_next(l, 5, 32nat, 2nat);
    assert(product(l.take(6)) == 64nat);
    lemma_product_next(l, 6, 64nat, 3nat);
    assert(product(l.take(7)) == 192nat);
    lemma_product_next(l, 7, 192nat, 53nat);
    assert(product(l.take(8)) == 10176nat);
    assert(l.take(8) =~= l);
    lemma_pow_10177_full();
    lemma_pow_10177_without_2();
    lemma_pow_10177_without_3();
    lemma_pow_10177_without_53();
    assert forall|i: int| 0 <= i < l.len() implies all_units(#[trigger] l[i] as int) by {
    }
    assert forall|i: int| 0 <= i < l.len() implies pow_mod(
        7int,
        #[trigger] product(l.remove(i)),
        10177int,
    ) != 1 by {
        if i < 6 {
            lemma_product_without(l, i, 2nat);
            assert(product(l.remove(i)) == 5088nat);
        } else if i < 7 {
            lemma_product_without(l, i, 3nat);
            assert(product(l.remove(i)) == 3392nat);
        } else {
            lemma_product_without(l, i, 53nat);
            assert(product(l.remove(i)) == 192nat);
        }
    }
    lemma_lucas(7int, l, 10177int);
}

/// The power `(18329 - 1) / 2` of 3 modulo 18329.
proof fn lemma_pow_18329_without_2()
    ensures
        pow_mod(3int, 9164nat, 18329int) == 18328int,
{
    lemma_pow_mod_window(3int, 1int, 0nat, 2, 18329int);
    assert(window(3int, 1int, 2, 18329int) == 9int);
    lemma_pow_mod_window(3int, 9int, 2nat, 3, 18329int);
    assert(window(3int, 9int, 3, 18329int) == 8808int);
    lemma_pow_mod_window(3int, 8808int, 35nat, 12, 18329int);
    assert(window(3int, 8808int, 12, 18329int) == 5161int);
    lemma_pow_mod_window(3int, 5161int, 572nat, 12, 18329int);
    assert(window(3int, 5161int, 12, 18329int) == 18328int);
}

/// The power `(18329 - 1) / 29` of 3 modulo 18329.
proof fn lemma_pow_18329_without_29()
    ensures
        pow_mod(3int, 632nat, 18329int) == 8708int,
{
    lemma_pow_mod_window(3int, 1int, 0nat, 2, 18329int);
    assert(window(3int, 1int, 2, 18329int) == 9int);
    lemma_pow_mod_window(3int, 9int, 2nat, 7, 18329int);
    assert(window(3int, 9int, 7, 18329int) == 16946int);
    lemma_pow_mod_window(3int, 16946int, 39nat, 8, 18329int);
    assert(window(3int, 16946int, 8, 18329int) == 8708int);
}

/// The power `(18329 - 1) / 79` of 3 modulo 18329.
proof fn lemma_pow_18329_without_79()
    ensures
        pow_mod(3int, 232nat, 18329int) == 16492int,
{
    lemma_pow_mod_window(3int, 1int, 0nat, 14, 18329int);
    assert(window(3int, 1int, 14, 18329int) == 17429int);
    lemma_pow_mod_window(3int, 17429int, 14nat, 8, 18329int);
    assert(window(3int, 17429int, 8, 18329int) == 16492int);
}

/// The power `18329 - 1` of 3 modulo 18329: the square of the power with half the exponent.
proof fn lemma_pow_18329_full()
    ensures
        pow_mod(3int, 18328nat, 18329int) == 1,
{
    lemma_pow_18329_without_2();
    lemma_pow_mod_window(18328int, 1, 0, 2, 18329int);
    assert(window(18328int, 1, 2, 18329int) == 1);
    lemma_pow_mod_chain(3int, 9164nat, 2, 18329int, 18328int, 1);
}

/// 18329 is a prime.
pub proof fn lemma_prime_18329()
    ensures
        all_units(18329int),
{
    let l: Seq<nat> = Seq::new(5, |i: int| if i < 3 { 2nat } else if i < 4 { 29nat } else { 79nat });
    lemma_prime_2();
    lemma_prime_29();
    lemma_prime_79();
    assert(product(l.take(0)) == 1);
    lemma_product_next(l, 0, 1nat, 2nat);
    assert(product(l.take(1)) == 2nat);
    lemma_product_next(l, 1, 2nat, 2nat);
    assert(product(l.take(2)) == 4nat);
    lemma_product_next(l, 2, 4nat, 2nat);
    assert(product(l.take(3)) == 8nat);
    lemma_product_next(l, 3, 8nat, 29nat);
    assert(product(l.take(4)) == 232nat);
    lemma_product_next(l, 4, 232nat, 79nat);
    assert(product(l.take(5)) == 18328nat);
    assert(l.take(5) =~= l);
    lemma_pow_18329_full();
    lemma_pow_18329_without_2();
    lemma_pow_18329_without_29();
    lemma_pow_18329_without_79();
    assert forall|i: int| 0 <= i < l.len() implies all_units(#[trigger] l[i] as int) by {
    }
    assert forall|i: int| 0 <= i < l.len() implies pow_mod(
        3int,
        #[trigger] product(l.remove(i)),
        18329int,
    ) != 1 by {
        if i < 3 {
            lemma_product_without(l, i, 2nat);
            assert(product(l.remove(i)) == 9164nat);
        } else if i < 4 {
            lemma_product_without(l, i, 29nat);
            assert(product(l.remove(i)) == 632nat);
        } else {
            lemma_product_without(l, i, 79nat);
            assert(product(l.remove(i)) == 232nat);
        }
    }
    lemma_lucas(3int, l, 18329int);
}

/// The power `(20921 - 1) / 2` of 3 modulo 20921.
proof fn lemma_pow_20921_without_2()
    ensures
        pow_mod(3int, 10460nat, 20921int) == 20920int,
{
    lemma_pow_mod_window(3int, 1int, 0nat, 2, 20921int);
    assert(window(3int, 1int, 2, 20921int) == 9int);
    lemma_pow_mod_window(3int, 9int, 2nat, 8, 20921int);
    assert(window(3int, 9int, 8, 20921int) == 8962int);
    lemma_pow_mod_window(3int, 8962int, 40nat, 13, 20921int);
    assert(window(3int, 8962int, 13, 20921int) == 16319int);
    lemma_pow_mod_window(3int, 16319int, 653nat, 12, 20921int);
    assert(window(3int, 16319int, 12, 20921int) == 20920int);
}

/// The power `(20921 - 1) / 5` of 3 modulo 20921.
proof fn lemma_pow_20921_without_5()
    ensures
        pow_mod(3int, 4184nat, 20921int) == 5152int,
{
    lemma_pow_mod_window(3int, 1int, 0nat, 1, 20921int);
    assert(window(3int, 1int, 1, 20921int) == 3int);
    lemma_pow_mod_window(3int, 3int, 1nat, 0, 20921int);
    assert(window(3int, 3int, 0, 20921int) == 12224int);
    lemma_pow_mod_window(3int, 12224int, 16nat, 5, 20921int);
    assert(window(3int, 12224int, 5, 20921int) == 20473int);
    lemma_pow_mod_window(3int, 20473int, 261nat, 8, 20921int);
    assert(window(3int, 20473int, 8, 20921int) == 5152int);
}

/// The power `(20921 - 1) / 523` of 3 modulo 20921.
proof fn lemma_pow_20921_without_523()
    ensures
        pow_mod(3int, 40nat, 20921int) == 8962int,
{
    lemma_pow_mod_window(3int, 1int, 0nat, 2, 20921int);
    assert(window(3int, 1int, 2, 20921int) == 9int);
    lemma_pow_mod_window(3int, 9int, 2nat, 8, 20921int);
    assert(window(3int, 9int, 8, 20921int) == 8962int);
}

/// The power `20921 - 1` of 3 modulo 20921: the square of the power with half the exponent.
proof fn lemma_pow_20921_full()
    ensures
        pow_mod(3int, 20920nat, 20921int) == 1,
{
    lemma_pow_20921_without_2();
    lemma_pow_mod_window(20920int, 1, 0, 2, 20921int);
    assert(window(20920int, 1, 2, 20921int) == 1);
    lemma_pow_mod_chain(3int, 10460nat, 2, 20921int, 20920int, 1);
}

/// 20921 is a prime.
pub proof fn lemma_prime_20921()
    ensures
        all_units(20921int),
{
    let l: Seq<nat> = Seq::new(5, |i: int| if i < 3 { 2nat } else if i < 4 { 5nat } else { 523nat });
    lemma_prime_2();
    lemma_prime_5();
    lemma_prime_523();
    assert(product(l.take(0)) == 1);
    lemma_product_next(l, 0, 1nat, 2nat);
    assert(product(l.take(1)) == 2nat);
    lemma_product_next(l, 1, 2nat, 2nat);
    assert(product(l.take(2)) == 4nat);
    lemma_product_next(l, 2, 4nat, 2nat);
    assert(product(l.take(3)) == 8nat);
    lemma_product_next(l, 3, 8nat, 5nat);
    assert(product(l.take(4)) == 40nat);
    lemma_product_next(l, 4, 40nat, 523nat);
    assert(product(l.take(5)) == 20920nat);
    assert(l.take(5) =~= l);
    lemma_pow_20921_full();
    lemma_pow_20921_without_2();
    lemma_pow_20921_without_5();
    lemma_pow_20921_without_523();
    assert forall|i: int| 0 <= i < l.len() implies all_units(#[trigger] l[i] as int) by {
    }
    assert forall|i: int| 0 <= i < l.len() implies pow_mod(
        3int,
        #[trigger] product(l.remove(i)),
        20921int,
    ) != 1 by {
        if i < 3 {
            lemma_product_without(l, i, 2nat);
            assert(product(l.remove(i)) == 10460nat);
        } else if i < 4 {
            lemma_product_without(l, i, 5nat);
            assert(product(l.remove(i)) == 4184nat);
        } else {
            lemma_product_without(l, i, 523nat);
            assert(product(l.remove(i)) == 40nat);
        }
    }
    lemma_lucas(3int, l, 20921int);
}

/// The power `(47737 - 1) / 2` of 5 modulo 47737.
proof fn lemma_pow_47737_without_2()
    ensures
        pow_mod(5int, 23868nat, 47737int) == 47736int,
{
    lemma_pow_mod_window(5int, 1int, 0nat, 5, 47737int);
    assert(window(5int, 1int, 5, 47737int) == 3125int);
    lemma_pow_mod_window(5int, 3125int, 5nat, 13, 47737int);
    assert(window(5int, 3125int, 13, 47737int) == 8338int);
    lemma_pow_mod_window(5int, 8338int, 93nat, 3, 47737int);
    assert(window(5int, 8338int, 3, 47737int) == 5085int);
    lemma_pow_mod_window(5int, 5085int, 1491nat, 12, 47737int);
    assert(window(5int, 5085int, 12, 47737int) == 47736int);
}

/// The power `(47737 - 1) / 3` of 5 modulo 47737.
proof fn lemma_pow_47737_without_3()
    ensures
        pow_mod(5int, 15912nat, 47737int) == 42905int,
{
    lemma_pow_mod_window(5int, 1int, 0nat, 3, 47737int);
    assert(window(5int, 1int, 3, 47737int) == 125int);
    lemma_pow_mod_window(5int, 125int, 3nat, 14, 47737int);
    assert(window(5int, 125int, 14, 47737int) == 7165int);
    lemma_pow_mod_window(5int, 7165int, 62nat, 2, 47737int);
    assert(window(5int, 7165int, 2, 47737int) == 486int);
    lemma_pow_mod_window(5int, 486int, 994nat, 8, 47737int);
    assert(window(5int, 486int, 8, 47737int) == 42905int);
}

/// The power `(47737 - 1) / 13` of 5 modulo 47737.
proof fn lemma_pow_47737_without_13()
    ensures
        pow_mod(5int, 3672nat, 47737int) == 26006int,
{
    lemma_pow_mod_window(5int, 1int, 0nat, 14, 47737int);
    assert(window(5int, 1int, 14, 47737int) == 6016int);
    lemma_pow_mod_window(5int, 6016int, 14nat, 5, 47737int);
    assert(window(5int, 6016int, 5, 47737int) == 40185int);
    lemma_pow_mod_window(5int, 40185int, 229nat, 8, 47737int);
    assert(window(5int, 40185int, 8, 47737int) == 26006int);
}

/// The power `(47737 - 1) / 17` of 5 modulo 47737.
proof fn lemma_pow_47737_without_17()
    ensures
        pow_mod(5int, 2808nat, 47737int) == 23688int,
{
    lemma_pow_mod_window(5int, 1int, 0nat, 10, 47737int);
    assert(window(5int, 1int, 10, 47737int) == 27277int);
    lemma_pow_mod_window(5int, 27277int, 10nat, 15, 47737int);
    assert(window(5int, 27277int, 15, 47737int) == 25971int);
    lemma_pow_mod_window(5int, 25971int, 175nat, 8, 47737int);
    assert(window(5int, 25971int, 8, 47737int) == 23688int);
}

/// The power `47737 - 1` of 5 modulo 47737: the square of the power with half the exponent.
proof fn lemma_pow_47737_full()
    ensures
        pow_mod(5int, 47736nat, 47737int) == 1,
{
    lemma_pow_47737_without_2();
    lemma_pow_mod_window(47736int, 1, 0, 2, 47737int);
    assert(window(47736int, 1, 2, 47737int) == 1);
    lemma_pow_mod_chain(5int, 23868nat, 2, 47737int, 47736int, 1);
}

/// 47737 is a prime.
pub proof fn lemma_prime_47737()
    ensures
        all_units(47737int),
{
    let l: Seq<nat> = Seq::new(8, |i: int| if i < 3 { 2nat } else if i < 6 { 3nat } else if i < 7 { 13nat } else { 17nat });
    lemma_prime_2();
    lemma_prime_3();
    lemma_prime_13();
    lemma_prime_17();
    assert(product(l.take(0)) == 1);
    lemma_product_next(l, 0, 1nat, 2nat);
    assert(product(l.take(1)) == 2nat);
    lemma_product_next(l, 1, 2nat, 2nat);
    assert(product(l.take(2)) == 4nat);
    lemma_product_next(l, 2, 4nat, 2nat);
    assert(product(l.take(3)) == 8nat);
    lemma_product_next(l, 3, 8nat, 3nat);
    assert(product(l.take(4)) == 24nat);
    lemma_product_next(l, 4, 24nat, 3nat);
    assert(product(l.take(5)) == 72nat);
    lemma_product_next(l, 5, 72nat, 3nat);
    assert(product(l.take(6)) == 216nat);
    lemma_product_next(l, 6, 216nat, 13nat);
    assert(product(l.take(7)) == 2808nat);
    lemma_product_next(l, 7, 2808nat, 17nat);
    assert(product(l.take(8)) == 47736nat);
    assert(l.take(8) =~= l);
    lemma_pow_47737_full();
    lemma_pow_47737_without_2();
    lemma_pow_47737_without_3();
    lemma_pow_47737_without_13();
    lemma_pow_47737_without_17();
    assert forall|i: int| 0 <= i < l.len() implies all_units(#[trigger] l[i] as int) by {
    }
    assert forall|i: int| 0 <= i < l.len() implies pow_mod(
        5int,
        #[trigger] product(l.remove(i)),
        47737int,
    ) != 1 by {
        if i < 3 {
            lemma_product_without(l, i, 2nat);
            assert(product(l.remove(i)) == 23868nat);
        } else if i < 6 {
            lemma_product_without(l, i, 3nat);
            assert(product(l.remove(i)) == 15912nat);
        } else if i < 7 {
            lemma_product_without(l, i, 13nat);
            assert(product(l.remove(i)) == 3672nat);
        } else {
            lemma_product_without(l, i, 17nat);
            assert(product(l.remove(i)) == 2808nat);
        }
    }
    lemma_lucas(5int, l, 47737int);
}

/// The power `(110573 - 1) / 2` of 3 modulo 110573.
proof fn lemma_pow_110573_without_2()
    ensures
        pow_mod(3int, 55286nat, 110573int) == 110572int,
{
    lemma_pow_mod_window(3int, 1int, 0nat, 13, 110573int);
    assert(window(3int, 1int, 13, 110573int) == 46301int);
    lemma_pow_mod_window(3int, 46301int, 13nat, 7, 110573int);
    assert(window(3int, 46301int, 7, 110573int) == 85833int);
    lemma_pow_mod_window(3int, 85833int, 215nat, 15, 110573int);
    assert(window(3int, 85833int, 15, 110573int) == 85772int);
    lemma_pow_mod_window(3int, 85772int, 3455nat, 6, 110573int);
    assert(window(3int, 85772int, 6, 110573int) == 110572int);
}

/// The power `(110573 - 1) / 7` of 3 modulo 110573.
proof fn lemma_pow_110573_without_7()
    ensures
        pow_mod(3int, 15796nat, 110573int) == 68842int,
{
    lemma_pow_mod_window(3int, 1int, 0nat, 3, 110573int);
    assert(window(3int, 1int, 3, 110573int) == 27int);
    lemma_pow_mod_window(3int, 27int, 3nat, 13, 110573int);
    assert(window(3int, 27int, 13, 110573int) == 108675int);
    lemma_pow_mod_window(3int, 108675int, 61nat, 11, 110573int);
    assert(window(3int, 108675int, 11, 110573int) == 391int);
    lemma_pow_mod_window(3int, 391int, 987nat, 4, 110573int);
    assert(window(3int, 391int, 4, 110573int) == 68842int);
}

/// The power `(110573 - 1) / 11` of 3 modulo 110573.
proof fn lemma_pow_110573_without_11()
    ensures
        pow_mod(3int, 10052nat, 110573int) == 59068int,
{
    lemma_pow_mod_window(3int, 1int, 0nat, 2, 110573int);
    assert(window(3int, 1int, 2, 110573int) == 9int);
    lemma_pow_mod_window(3int, 9int, 2nat, 7, 110573int);
    assert(window(3int, 9int, 7, 110573int) == 91945int);
    lemma_pow_mod_window(3int, 91945int, 39nat, 4, 110573int);
    assert(window(3int, 91945int, 4, 110573int) == 43280int);
    lemma_pow_mod_window(3int, 43280int, 628nat, 4, 110573int);
    assert(window(3int, 43280int, 4, 110573int) == 59068int);
}

/// The power `(110573 - 1) / 359` of 3 modulo 110573.
proof fn lemma_pow_110573_without_359()
    ensures
        pow_mod(3int, 308nat, 110573int) == 48848int,
{
    lemma_pow_mod_window(3int, 1int, 0nat, 1, 110573int);
    assert(window(3int, 1int, 1, 110573int) == 3int);
    lemma_pow_mod_window(3int, 3int, 1nat, 3, 110573int);
    assert(window(3int, 3int, 3, 110573int) == 28664int);
    lemma_pow_mod_window(3int, 28664int, 19nat, 4, 110573int);
    assert(window(3int, 28664int, 4, 110573int) == 48848int);
}

/// The power `110573 - 1` of 3 modulo 110573: the square of the power with half the exponent.
proof fn lemma_pow_110573_full()
    ensures
        pow_mod(3int, 110572nat, 110573int) == 1,
{
    lemma_pow_110573_without_2();
    lemma_pow_mod_window(110572int, 1, 0, 2, 110573int);
    assert(window(110572int, 1, 2, 110573int) == 1);
    lemma_pow_mod_chain(3int, 55286nat, 2, 110573int, 110572int, 1);
}

/// 110573 is a prime.
pub proof fn lemma_prime_110573()
    ensures
        all_units(110573int),
{
    let l: Seq<nat> = Seq::new(5, |i: int| if i < 2 { 2nat } else if i < 3 { 7nat } else if i < 4 { 11nat } else { 359nat });
    lemma_prime_2();
    lemma_prime_7();
    lemma_prime_11();
    lemma_prime_359();
    assert(product(l.take(0)) == 1);
    lemma_product_next(l, 0, 1nat, 2nat);
    assert(product(l.take(1)) == 2nat);
    lemma_product_next(l, 1, 2nat, 2nat);
    assert(product(l.take(2)) == 4nat);
    lemma_product_next(l, 2, 4nat, 7nat);
    assert(product(l.take(3)) == 28nat);
    lemma_product_next(l, 3, 28nat, 11nat);
    assert(product(l.take(4)) == 308nat);
    lemma_product_next(l, 4, 308nat, 359nat);
    assert(product(l.take(5)) == 110572nat);
    assert(l.take(5) =~= l);
    lemma_pow_110573_full();
    lemma_pow_110573_without_2();
    lemma_pow_110573_without_7();
    lemma_pow_110573_without_11();
    lemma_pow_110573_without_359();
    assert forall|i: int| 0 <= i < l.len() implies all_units(#[trigger] l[i] as int) by {
    }
    assert forall|i: int| 0 <= i < l.len() implies pow_mod(
        3int,
        #[trigger] product(l.remove(i)),
        110573int,
    ) != 1 by {
        if i < 2 {
            lemma_product_without(l, i, 2nat);
            assert(product(l.remove(i)) == 55286nat);
        } else if i < 3 {
            lemma_product_without(l, i, 7nat);
            assert(product(l.remove(i)) == 15796nat);
        } else if i < 4 {
            lemma_product_without(l, i, 11nat);
            assert(product(l.remove(i)) == 10052nat);
        } else {
            lemma_product_without(l, i, 359nat);
            assert(product(l.remove(i)) == 308nat);
        }
    }
    lemma_lucas(3int, l, 110573int);
}

/// The power `(125527 - 1) / 2` of 5 modulo 125527.
proof fn lemma_pow_125527_without_2()
    ensures
        pow_mod(5int, 62763nat, 125527int) == 125526int,
{
    lemma_pow_mod_window(5int, 1int, 0nat, 15, 125527int);
    assert(window(5int, 1int, 15, 125527int) == 81520int);
    lemma_pow_mod_window(5int, 81520int, 15nat, 5, 125527int);
    assert(window(5int, 81520int, 5, 125527int) == 119978int);
    lemma_pow_mod_window(5int, 119978int, 245nat, 2, 125527int);
    assert(window(5int, 119978int, 2, 125527int) == 10826int);
    lemma_pow_mod_window(5int, 10826int, 3922nat, 11, 125527int);
    assert(window(5int, 10826int, 11, 125527int) == 125526int);
}

/// The power `(125527 - 1) / 3` of 5 modulo 125527.
proof fn lemma_pow_125527_without_3()
    ensures
        pow_mod(5int, 41842nat, 125527int) == 5361int,
{
    lemma_pow_mod_window(5int, 1int, 0nat, 10, 125527int);
    assert(window(5int, 1int, 10, 125527int) == 100046int);
    lemma_pow_mod_window(5int, 100046int, 10nat, 3, 125527int);
    assert(window(5int, 100046int, 3, 125527int) == 124410int);
    lemma_pow_mod_window(5int, 124410int, 163nat, 7, 125527int);
    assert(window(5int, 124410int, 7, 125527int) == 112635int);
    lemma_pow_mod_window(5int, 112635int, 2615nat, 2, 125527int);
    assert(window(5int, 112635int, 2, 125527int) == 5361int);
}

/// The power `(125527 - 1) / 20921` of 5 modulo 125527.
proof fn lemma_pow_125527_without_20921()
    ensures
        pow_mod(5int, 6nat, 125527int) == 15625int,
{
    lemma_pow_mod_window(5int, 1int, 0nat, 6, 125527int);
    assert(window(5int, 1int, 6, 125527int) == 15625int);
}

/// The power `125527 - 1` of 5 modulo 125527: the square of the power with half the exponent.
proof fn lemma_pow_125527_full()
    ensures
        pow_mod(5int, 125526nat, 125527int) == 1,
{
    lemma_pow_125527_without_2();
    lemma_pow_mod_window(125526int, 1, 0, 2, 125527int);
    assert(window(125526int, 1, 2, 125527int) == 1);
    lemma_pow_mod_chain(5int, 62763nat, 2, 125527int, 125526int, 1);
}

/// 125527 is a prime.
pub proof fn lemma_prime_125527()
    ensures
        all_units(125527int),
{
    let l: Seq<nat> = Seq::new(3, |i: int| if i < 1 { 2nat } else if i < 2 { 3nat } else { 20921nat });
    lemma_prime_2();
    lemma_prime_3();
    lemma_prime_20921();
    assert(product(l.take(0)) == 1);
    lemma_product_next(l, 0, 1nat, 2nat);
    assert(product(l.take(1)) == 2nat);
    lemma_product_next(l, 1, 2nat, 3nat);
    assert(product(l.take(2)) == 6nat);
    lemma_product_next(l, 2, 6nat, 20921nat);
    assert(product(l.take(3)) == 125526nat);
    assert(l.take(3) =~= l);
    lemma_pow_125527_full();
    lemma_pow_125527_without_2();
    lemma_pow_125527_without_3();
    lemma_pow_125527_without_20921();
    assert forall|i: int| 0 <= i < l.len() implies all_units(#[trigger] l[i] as int) by {
    }
    assert forall|i: int| 0 <= i < l.len() implies pow_mod(
        5int,
        #[trigger] product(l.remove(i)),
        125527int,
    ) != 1 by {
        if i < 1 {
            lemma_product_without(l, i, 2nat);
            assert(product(l.remove(i)) == 62763nat);
        } else if i < 2 {
            lemma_product_without(l, i, 3nat);
            assert(product(l.remove(i)) == 41842nat);
        } else {
            lemma_product_without(l, i, 20921nat);
            assert(product(l.remove(i)) == 6nat);
        }
    }
    lemma_lucas(5int, l, 125527int);
}

/// The power `(609743 - 1) / 2` of 5 modulo 609743.
proof fn lemma_pow_609743_without_2()
    ensures
        pow_mod(5int, 304871nat, 609743int) == 609742int,
{
    lemma_pow_mod_window(5int, 1int, 0nat, 4, 609743int);
    assert(window(5int, 1int, 4, 609743int) == 625int);
    lemma_pow_mod_window(5int, 625int, 4nat, 10, 609743int);
    assert(window(5int, 625int, 10, 609743int) == 177181int);
    lemma_pow_mod_window(5int, 177181int, 74nat, 6, 609743int);
    assert(window(5int, 177181int, 6, 609743int) == 432144int);
    lemma_pow_mod_window(5int, 432144int, 1190nat, 14, 609743int);
    assert(window(5int, 432144int, 14, 609743int) == 466356int);
    lemma_pow_mod_window(5int, 466356int, 19054nat, 7, 609743int);
    assert(window(5int, 466356int, 7, 609743int) == 609742int);
}

/// The power `(609743 - 1) / 7` of 5 modulo 609743.
proof fn lemma_pow_609743_without_7()
    ensures
        pow_mod(5int, 87106nat, 609743int) == 207533int,
{
    lemma_pow_mod_window(5int, 1int, 0nat, 1, 609743int);
    assert(window(5int, 1int, 1, 609743int) == 5int);
    lemma_pow_mod_window(5int, 5int, 1nat, 5, 609743int);
    assert(window(5int, 5int, 5, 609743int) == 275534int);
    lemma_pow_mod_window(5int, 275534int, 21nat, 4, 609743int);
    assert(window(5int, 275534int, 4, 609743int) == 221232int);
    lemma_pow_mod_window(5int, 221232int, 340nat, 4, 609743int);
    assert(window(5int, 221232int, 4, 609743int) == 403128int);
    lemma_pow_mod_window(5int, 403128int, 5444nat, 2, 609743int);
    assert(window(5int, 403128int, 2, 609743int) == 207533int);
}

/// The power `(609743 - 1) / 97` of 5 modulo 609743.
proof fn lemma_pow_609743_without_97()
    ensures
        pow_mod(5int, 6286nat, 609743int) == 544069int,
{
    lemma_pow_mod_window(5int, 1int, 0nat, 1, 609743int);
    assert(window(5int, 1int, 1, 609743int) == 5int);
    lemma_pow_mod_window(5int, 5int, 1nat, 8, 609743int);
    assert(window(5int, 5int, 8, 609743int) == 296142int);
    lemma_pow_mod_window(5int, 296142int, 24nat, 8, 609743int);
    assert(window(5int, 296142int, 8, 609743int) == 464185int);
    lemma_pow_mod_window(5int, 464185int, 392nat, 14, 609743int);
    assert(window(5int, 464185int, 14, 609743int) == 544069int);
}

/// The power `(609743 - 1) / 449` of 5 modulo 609743.
proof fn lemma_pow_609743_without_449()
    ensures
        pow_mod(5int, 1358nat, 609743int) == 475632int,
{
    lemma_pow_mod_window(5int, 1int, 0nat, 5, 609743int);
    assert(window(5int, 1int, 5, 609743int) == 3125int);
    lemma_pow_mod_window(5int, 3125int, 5nat, 4, 609743int);
    assert(window(5int, 3125int, 4, 609743int) == 248450int);
    lemma_pow_mod_window(5int, 248450int, 84nat, 14, 609743int);
    assert(window(5int, 248450int, 14, 609743int) == 475632int);
}

/// The power `609743 - 1` of 5 modulo 609743: the square of the power with half the exponent.
proof fn lemma_pow_609743_full()
    ensures
        pow_mod(5int, 609742nat, 609743int) == 1,
{
    lemma_pow_609743_without_2();
    lemma_pow_mod_window(609742int, 1, 0, 2, 609743int);
    assert(window(609742int, 1, 2, 609743int) == 1);
    lemma_pow_mod_chain(5int, 304871nat, 2, 609743int, 609742int, 1);
}

/// 609743 is a prime.
pub proof fn lemma_prime_609743()
    ensures
        all_units(609743int),
{
    let l: Seq<nat> = Seq::new(4, |i: int| if i < 1 { 2nat } else if i < 2 { 7nat } else if i < 3 { 97nat } else { 449nat });
    lemma_prime_2();
    lemma_prime_7();
    lemma_prime_97();
    lemma_prime_449();
    assert(product(l.take(0)) == 1);
    lemma_product_next(l, 0, 1nat, 2nat);
    assert(product(l.take(1)) == 2nat);
    lemma_product_next(l, 1, 2nat, 7nat);
    assert(product(l.take(2)) == 14nat);
    lemma_product_next(l, 2, 14nat, 97nat);
    assert(product(l.take(3)) == 1358nat);
    lemma_product_next(l, 3, 1358nat, 449nat);
    assert(product(l.take(4)) == 609742nat);
    assert(l.take(4) =~= l);
    lemma_pow_609743_full();
    lemma_pow_609743_without_2();
    lemma_pow_609743_without_7();
    lemma_pow_609743_without_97();
    lemma_pow_609743_without_449();
    assert forall|i: int| 0 <= i < l.len() implies all_units(#[trigger] l[i] as int) by {
    }
    assert forall|i: int| 0 <= i < l.len() implies pow_mod(
        5int,
        #[trigger] product(l.remove(i)),
        609743int,
    ) != 1 by {
        if i < 1 {
            lemma_product_without(l, i, 2nat);
            assert(product(l.remove(i)) == 304871nat);
        } else if i < 2 {
            lemma_product_without(l, i, 7nat);
            assert(product(l.remove(i)) == 87106nat);
        } else if i < 3 {
            lemma_product_without(l, i, 97nat);
            assert(product(l.remove(i)) == 6286nat);
        } else {
            lemma_product_without(l, i, 449nat);
            assert(product(l.remove(i)) == 1358nat);
        }
    }
    lemma_lucas(5int, l, 609743int);
}

/// The power `(859267 - 1) / 2` of 2 modulo 859267.
proof fn lemma_pow_859267_without_2()
    ensures
        pow_mod(2int, 429633nat, 859267int) == 859266int,
{
    lemma_pow_mod_window(2int, 1int, 0nat, 6, 859267int);
    assert(window(2int, 1int, 6, 859267int) == 64int);
    lemma_pow_mod_window(2int, 64int, 6nat, 8, 859267int);
    assert(window(2int, 64int, 8, 859267int) == 618503int);
    lemma_pow_mod_window(2int, 618503int, 104nat, 14, 859267int);
    assert(window(2int, 618503int, 14, 859267int) == 256893int);
    lemma_pow_mod_window(2int, 256893int, 1678nat, 4, 859267int);
    assert(window(2int, 256893int, 4, 859267int) == 321927int);
    lemma_pow_mod_window(2int, 321927int, 26852nat, 1, 859267int);
    assert(window(2int, 321927int, 1, 859267int) == 859266int);
}

/// The power `(859267 - 1) / 3` of 2 modulo 859267.
proof fn lemma_pow_859267_without_3()
    ensures
        pow_mod(2int, 286422nat, 859267int) == 119571int,
{
    lemma_pow_mod_window(2int, 1int, 0nat, 4, 859267int);
    assert(window(2int, 1int, 4, 859267int) == 16int);
    lemma_pow_mod_window(2int, 16int, 4nat, 5, 859267int);
    assert(window(2int, 16int, 5, 859267int) == 489570int);
    lemma_pow_mod_window(2int, 489570int, 69nat, 14, 859267int);
    assert(window(2int, 489570int, 14, 859267int) == 536610int);
    lemma_pow_mod_window(2int, 536610int, 1118nat, 13, 859267int);
    assert(window(2int, 536610int, 13, 859267int) == 83111int);
    lemma_pow_mod_window(2int, 83111int, 17901nat, 6, 859267int);
    assert(window(2int, 83111int, 6, 859267int) == 119571int);
}

/// The power `(859267 - 1) / 47737` of 2 modulo 859267.
proof fn lemma_pow_859267_without_47737()
    ensures
        pow_mod(2int, 18nat, 859267int) == 262144int,
{
    lemma_pow_mod_window(2int, 1int, 0nat, 1, 859267int);
    assert(window(2int, 1int, 1, 859267int) == 2int);
    lemma_pow_mod_window(2int, 2int, 1nat, 2, 859267int);
    assert(window(2int, 2int, 2, 859267int) == 262144int);
}

/// The power `859267 - 1` of 2 modulo 859267: the square of the power with half the exponent.
proof fn lemma_pow_859267_full()
    ensures
        pow_mod(2int, 859266nat, 859267int) == 1,
{
    lemma_pow_859267_without_2();
    lemma_pow_mod_window(859266int, 1, 0, 2, 859267int);
    assert(window(859266int, 1, 2, 859267int) == 1);
    lemma_pow_mod_chain(2int, 429633nat, 2, 859267int, 859266int, 1);
}

/// 859267 is a prime.
pub proof fn lemma_prime_859267()
    ensures
        all_units(859267int),
{
    let l: Seq<nat> = Seq::new(4, |i: int| if i < 1 { 2nat } else if i < 3 { 3nat } else { 47737nat });
    lemma_prime_2();
    lemma_prime_3();
    lemma_prime_47737();
    assert(product(l.take(0)) == 1);
    lemma_product_next(l, 0, 1nat, 2nat);
    assert(product(l.take(1)) == 2nat);
    lemma_product_next(l, 1, 2nat, 3nat);
    assert(product(l.take(2)) == 6nat);
    lemma_product_next(l, 2, 6nat, 3nat);
    assert(product(l.take(3)) == 18nat);
    lemma_product_next(l, 3, 18nat, 47737nat);
    assert(product(l.take(4)) == 859266nat);
    assert(l.take(4) =~= l);
    lemma_pow_859267_full();
    lemma_pow_859267_without_2();
    lemma_pow_859267_without_3();
    lemma_pow_859267_without_47737();
    assert forall|i: int| 0 <= i < l.len() implies all_units(#[trigger] l[i] as int) by {
    }
    assert forall|i: int| 0 <= i < l.len() implies pow_mod(
        2int,
        #[trigger] product(l.remove(i)),
        859267int,
    ) != 1 by {
        if i < 1 {
            lemma_product_without(l, i, 2nat);
            assert(product(l.remove(i)) == 429633nat);
        } else if i < 3 {
            lemma_product_without(l, i, 3nat);
            assert(product(l.remove(i)) == 286422nat);
        } else {
            lemma_product_without(l, i, 47737nat);
            assert(product(l.remove(i)) == 18nat);
        }
    }
    lemma_lucas(2int, l, 859267int);
}

/// The power `(906349 - 1) / 2` of 2 modulo 906349.
proof fn lemma_pow_906349_without_2()
    ensures
        pow_mod(2int, 453174nat, 906349int) == 906348int,
{
    lemma_pow_mod_window(2int, 1int, 0nat, 6, 906349int);
    assert(window(2int, 1int, 6, 906349int) == 64int);
    lemma_pow_mod_window(2int, 64int, 6nat, 14, 906349int);
    assert(window(2int, 64int, 14, 906349int) == 152969int);
    lemma_pow_mod_window(2int, 152969int, 110nat, 10, 906349int);
    assert(window(2int, 152969int, 10, 906349int) == 504104int);
    lemma_pow_mod_window(2int, 504104int, 1770nat, 3, 906349int);
    assert(window(2int, 504104int, 3, 906349int) == 143051int);
    lemma_pow_mod_window(2int, 143051int, 28323nat, 6, 906349int);
    assert(window(2int, 143051int, 6, 906349int) == 906348int);
}

/// The power `(906349 - 1) / 3` of 2 modulo 906349.
proof fn lemma_pow_906349_without_3()
    ensures
        pow_mod(2int, 302116nat, 906349int) == 161246int,
{
    lemma_pow_mod_window(2int, 1int, 0nat, 4, 906349int);
    assert(window(2int, 1int, 4, 906349int) == 16int);
    lemma_pow_mod_window(2int, 16int, 4nat, 9, 906349int);
    assert(window(2int, 16int, 9, 906349int) == 778620int);
    lemma_pow_mod_window(2int, 778620int, 73nat, 12, 906349int);
    assert(window(2int, 778620int, 12, 906349int) == 815382int);
    lemma_pow_mod_window(2int, 815382int, 1180nat, 2, 906349int);
    assert(window(2int, 815382int, 2, 906349int) == 642684int);
    lemma_pow_mod_window(2int, 642684int, 18882nat, 4, 906349int);
    assert(window(2int, 642684int, 4, 906349int) == 161246int);
}

/// The power `(906349 - 1) / 47` of 2 modulo 906349.
proof fn lemma_pow_906349_without_47()
    ensures
        pow_mod(2int, 19284nat, 906349int) == 69344int,
{
    lemma_pow_mod_window(2int, 1int, 0nat, 4, 906349int);
    assert(window(2int, 1int, 4, 906349int) == 16int);
    lemma_pow_mod_window(2int, 16int, 4nat, 11, 906349int);
    assert(window(2int, 16int, 11, 906349int) == 395433int);
    lemma_pow_mod_window(2int, 395433int, 75nat, 5, 906349int);
    assert(window(2int, 395433int, 5, 906349int) == 859167int);
    lemma_pow_mod_window(2int, 859167int, 1205nat, 4, 906349int);
    assert(window(2int, 859167int, 4, 906349int) == 69344int);
}

/// The power `(906349 - 1) / 1607` of 2 modulo 906349.
proof fn lemma_pow_906349_without_1607()
    ensures
        pow_mod(2int, 564nat, 906349int) == 210417int,
{
    lemma_pow_mod_window(2int, 1int, 0nat, 2, 906349int);
    assert(window(2int, 1int, 2, 906349int) == 4int);
    lemma_pow_mod_window(2int, 4int, 2nat, 3, 906349int);
    assert(window(2int, 4int, 3, 906349int) == 47778int);
    lemma_pow_mod_window(2int, 47778int, 35nat, 4, 906349int);
    assert(window(2int, 47778int, 4, 906349int) == 210417int);
}

/// The power `906349 - 1` of 2 modulo 906349: the square of the power with half the exponent.
proof fn lemma_pow_906349_full()
    ensures
        pow_mod(2int, 906348nat, 906349int) == 1,
{
    lemma_pow_906349_without_2();
    lemma_pow_mod_window(906348int, 1, 0, 2, 906349int);
    assert(window(906348int, 1, 2, 906349int) == 1);
    lemma_pow_mod_chain(2int, 453174nat, 2, 906349int, 906348int, 1);
}

/// 906349 is a prime.
pub proof fn lemma_prime_906349()
    ensures
        all_units(906349int),
{
    let l: Seq<nat> = Seq::new(5, |i: int| if i < 2 { 2nat } else if i < 3 { 3nat } else if i < 4 { 47nat } else { 1607nat });
    lemma_prime_2();
    lemma_prime_3();
    lemma_prime_47();
    lemma_prime_1607();
    assert(product(l.take(0)) == 1);
    lemma_product_next(l, 0, 1nat, 2nat);
    assert(product(l.take(1)) == 2nat);
    lemma_product_next(l, 1, 2nat, 2nat);
    assert(product(l.take(2)) == 4nat);
    lemma_product_next(l, 2, 4nat, 3nat);
    assert(product(l.take(3)) == 12nat);
    lemma_product_next(l, 3, 12nat, 47nat);
    assert(product(l.take(4)) == 564nat);
    lemma_product_next(l, 4, 564nat, 1607nat);
    assert(product(l.take(5)) == 906348nat);
    assert(l.take(5) =~= l);
    lemma_pow_906349_full();
    lemma_pow_906349_without_2();
    lemma_pow_906349_without_3();
    lemma_pow_906349_without_47();
    lemma_pow_906349_without_1607();
    assert forall|i: int| 0 <= i < l.len() implies all_units(#[trigger] l[i] as int) by {
    }
    assert forall|i: int| 0 <= i < l.len() implies pow_mod(
        2int,
        #[trigger] product(l.remove(i)),
        906349int,
    ) != 1 by {
        if i < 2 {
            lemma_product_without(l, i, 2nat);
            assert(product(l.remove(i)) == 453174nat);
        } else if i < 3 {
            lemma_product_without(l, i, 3nat);
            assert(product(l.remove(i)) == 302116nat);
        } else if i < 4 {
            lemma_product_without(l, i, 47nat);
            assert(product(l.remove(i)) == 19284nat);
        } else {
            lemma_product_without(l, i, 1607nat);
            assert(product(l.remove(i)) == 564nat);
        }
    }
    lemma_lucas(2int, l, 906349int);
}

/// The power `(2508409 - 1) / 2` of 11 modulo 2508409.
proof fn lemma_pow_2508409_without_2()
    ensures
        pow_mod(11int, 0x13233cnat, 0x264679int) == 0x264678int,
{
    lemma_pow_mod_window(11int, 1int, 0nat, 1, 0x264679int);
    assert(window(11int, 1int, 1, 0x264679int) == 11int);
    lemma_pow_mod_window(11int, 11int, 1nat, 3, 0x264679int);
    assert(window(11int, 11int, 3, 0x264679int) == 0x19f560int);
    lemma_pow_mod_window(11int, 0x19f560int, 19nat, 2, 0x264679int);
    assert(window(11int, 0x19f560int, 2, 0x264679int) == 0x1892a8int);
    lemma_pow_mod_window(11int, 0x1892a8int, 306nat, 3, 0x264679int);
    assert(window(11int, 0x1892a8int, 3, 0x264679int) == 0x10b715int);
    lemma_pow_mod_window(11int, 0x10b715int, 4899nat, 3, 0x264679int);
    assert(window(11int, 0x10b715int, 3, 0x264679int) == 0x15ed28int);
    lemma_pow_mod_window(11int, 0x15ed28int, 78387nat, 12, 0x264679int);
    assert(window(11int, 0x15ed28int, 12, 0x264679int) == 0x264678int);
}

/// The power `(2508409 - 1) / 3` of 11 modulo 2508409.
proof fn lemma_pow_2508409_without_3()
    ensures
        pow_mod(11int, 836136nat, 0x264679int) == 875787int,
{
    lemma_pow_mod_window(11int, 1int, 0nat, 12, 0x264679int);
    assert(window(11int, 1int, 12, 0x264679int) == 0x23f107int);
    lemma_pow_mod_window(11int, 0x23f107int, 12nat, 12, 0x264679int);
    assert(window(11int, 0x23f107int, 12, 0x264679int) == 478547int);
    lemma_pow_mod_window(11int, 478547int, 204nat, 2, 0x264679int);
    assert(window(11int, 478547int, 2, 0x264679int) == 281329int);
    lemma_pow_mod_window(11int, 281329int, 3266nat, 2, 0x264679int);
    assert(window(11int, 281329int, 2, 0x264679int) == 0x19bfb6int);
    lemma_pow_mod_window(11int, 0x19bfb6int, 52258nat, 8, 0x264679int);
    assert(window(11int, 0x19bfb6int, 8, 0x264679int) == 875787int);
}

/// The power `(2508409 - 1) / 7` of 11 modulo 2508409.
proof fn lemma_pow_2508409_without_7()
    ensures
        pow_mod(11int, 358344nat, 0x264679int) == 0x16c3cfint,
{
    lemma_pow_mod_window(11int, 1int, 0nat, 5, 0x264679int);
    assert(window(11int, 1int, 5, 0x264679int) == 161051int);
    lemma_pow_mod_window(11int, 161051int, 5nat, 7, 0x264679int);
    assert(window(11int, 161051int, 7, 0x264679int) == 0x1f2449int);
    lemma_pow_mod_window(11int, 0x1f2449int, 87nat, 7, 0x264679int);
    assert(window(11int, 0x1f2449int, 7, 0x264679int) == 0x1cd55eint);
    lemma_pow_mod_window(11int, 0x1cd55eint, 1399nat, 12, 0x264679int);
    assert(window(11int, 0x1cd55eint, 12, 0x264679int) == 0x2481a3int);
    lemma_pow_mod_window(11int, 0x2481a3int, 22396nat, 8, 0x264679int);
    assert(window(11int, 0x2481a3int, 8, 0x264679int) == 0x16c3cfint);
}

/// The power `(2508409 - 1) / 79` of 11 modulo 2508409.
proof fn lemma_pow_2508409_without_79()
    ensures
        pow_mod(11int, 31752nat, 0x264679int) == 0x225a09int,
{
    lemma_pow_mod_window(11int, 1int, 0nat, 7, 0x264679int);
    assert(window(11int, 1int, 7, 0x264679int) == 0x1d6c74int);
    lemma_pow_mod_window(11int, 0x1d6c74int, 7nat, 12, 0x264679int);
    assert(window(11int, 0x1d6c74int, 12, 0x264679int) == 0x1a19eaint);
    lemma_pow_mod_window(11int, 0x1a19eaint, 124nat, 0, 0x264679int);
    assert(window(11int, 0x1a19eaint, 0, 0x264679int) == 0x145466int);
    lemma_pow_mod_window(11int, 0x145466int, 1984nat, 8, 0x264679int);
    assert(window(11int, 0x145466int, 8, 0x264679int) == 0x225a09int);
}

/// The power `2508409 - 1` of 11 modulo 2508409: the square of the power with half the exponent.
proof fn lemma_pow_2508409_full()
    ensures
        pow_mod(11int, 0x264678nat, 0x264679int) == 1,
{
    lemma_pow_2508409_without_2();
    lemma_pow_mod_window(0x264678int, 1, 0, 2, 0x264679int);
    assert(window(0x264678int, 1, 2, 0x264679int) == 1);
    lemma_pow_mod_chain(11int, 0x13233cnat, 2, 0x264679int, 0x264678int, 1);
}

/// 2508409 is a prime.
pub proof fn lemma_prime_2508409()
    ensures
        all_units(0x264679int),
{
    let l: Seq<nat> = Seq::new(10, |i: int| if i < 3 { 2nat } else if i < 7 { 3nat } else if i < 9 { 7nat } else { 79nat });
    lemma_prime_2();
    lemma_prime_3();
    lemma_prime_7();
    lemma_prime_79();
    assert(product(l.take(0)) == 1);
    lemma_product_next(l, 0, 1nat, 2nat);
    assert(product(l.take(1)) == 2nat);
    lemma_product_next(l, 1, 2nat, 2nat);
    assert(product(l.take(2)) == 4nat);
    lemma_product_next(l, 2, 4nat, 2nat);
    assert(product(l.take(3)) == 8nat);
    lemma_product_next(l, 3, 8nat, 3nat);
    assert(product(l.take(4)) == 24nat);
    lemma_product_next(l, 4, 24nat, 3nat);
    assert(product(l.take(5)) == 72nat);
    lemma_product_next(l, 5, 72nat, 3nat);
    assert(product(l.take(6)) == 216nat);
    lemma_product_next(l, 6, 216nat, 3nat);
    assert(product(l.take(7)) == 648nat);
    lemma_product_next(l, 7, 648nat, 7nat);
    assert(product(l.take(8)) == 4536nat);
    lemma_product_next(l, 8, 4536nat, 7nat);
    assert(product(l.take(9)) == 31752nat);
    lemma_product_next(l, 9, 31752nat, 79nat);
    assert(product(l.take(10)) == 0x264678nat);
    assert(l.take(10) =~= l);
    lemma_pow_2508409_full();
    lemma_pow_2508409_without_2();
    lemma_pow_2508409_without_3();
    lemma_pow_2508409_without_7();
    lemma_pow_2508409_without_79();
    assert forall|i: int| 0 <= i < l.len() implies all_units(#[trigger] l[i] as int) by {
    }
    assert forall|i: int| 0 <= i < l.len() implies pow_mod(
        11int,
        #[trigger] product(l.remove(i)),
        0x264679int,
    ) != 1 by {
        if i < 3 {
            lemma_product_without(l, i, 2nat);
            assert(product(l.remove(i)) == 0x13233cnat);
        } else if i < 7 {
            lemma_product_without(l, i, 3nat);
            assert(product(l.remove(i)) == 836136nat);
        } else if i < 9 {
            lemma_product_without(l, i, 7nat);
            assert(product(l.remove(i)) == 358344nat);
        } else {
            lemma_product_without(l, i, 79nat);
            assert(product(l.remove(i)) == 31752nat);
        }
    }
    lemma_lucas(11int, l, 0x264679int);
}

/// The power `(2529403 - 1) / 2` of 2 modulo 2529403.
proof fn lemma_pow_2529403_without_2()
    ensures
        pow_mod(2int, 0x134c3dnat, 0x26987bint) == 0x26987aint,
{
    lemma_pow_mod_window(2int, 1int, 0nat, 1, 0x26987bint);
    assert(window(2int, 1int, 1, 0x26987bint) == 2int);
    lemma_pow_mod_window(2int, 2int, 1nat, 3, 0x26987bint);
    assert(window(2int, 2int, 3, 0x26987bint) == 524288int);
    lemma_pow_mod_window(2int, 524288int, 19nat, 4, 0x26987bint);
    assert(window(2int, 524288int, 4, 0x26987bint) == 0x11ab70int);
    lemma_pow_mod_window(2int, 0x11ab70int, 308nat, 12, 0x26987bint);
    assert(window(2int, 0x11ab70int, 12, 0x26987bint) == 0x1941adint);
    lemma_pow_mod_window(2int, 0x1941adint, 4940nat, 3, 0x26987bint);
    assert(window(2int, 0x1941adint, 3, 0x26987bint) == 25847int);
    lemma_pow_mod_window(2int, 25847int, 79043nat, 13, 0x26987bint);
    assert(window(2int, 25847int, 13, 0x26987bint) == 0x26987aint);
}

/// The power `(2529403 - 1) / 3` of 2 modulo 2529403.
proof fn lemma_pow_2529403_without_3()
    ensures
        pow_mod(2int, 843134nat, 0x26987bint) == 0x20f400int,
{
    lemma_pow_mod_window(2int, 1int, 0nat, 12, 0x26987bint);
    assert(window(2int, 1int, 12, 0x26987bint) == 4096int);
    lemma_pow_mod_window(2int, 4096int, 12nat, 13, 0x26987bint);
    assert(window(2int, 4096int, 13, 0x26987bint) == 594612int);
    lemma_pow_mod_window(2int, 594612int, 205nat, 13, 0x26987bint);
    assert(window(2int, 594612int, 13, 0x26987bint) == 124439int);
    lemma_pow_mod_window(2int, 124439int, 3293nat, 7, 0x26987bint);
    assert(window(2int, 124439int, 7, 0x26987bint) == 0x191aadint);
    lemma_pow_mod_window(2int, 0x191aadint, 52695nat, 14, 0x26987bint);
    assert(window(2int, 0x191aadint, 14, 0x26987bint) == 0x20f400int);
}

/// The power `(2529403 - 1) / 23` of 2 modulo 2529403.
proof fn lemma_pow_2529403_without_23()
    ensures
        pow_mod(2int, 109974nat, 0x26987bint) == 0x13f391int,
{
    lemma_pow_mod_window(2int, 1int, 0nat, 1, 0x26987bint);
    assert(window(2int, 1int, 1, 0x26987bint) == 2int);
    lemma_pow_mod_window(2int, 2int, 1nat, 10, 0x26987bint);
    assert(window(2int, 2int, 10, 0x26987bint) == 0x148382int);
    lemma_pow_mod_window(2int, 0x148382int, 26nat, 13, 0x26987bint);
    assert(window(2int, 0x148382int, 13, 0x26987bint) == 639272int);
    lemma_pow_mod_window(2int, 639272int, 429nat, 9, 0x26987bint);
    assert(window(2int, 639272int, 9, 0x26987bint) == 0x1f2ebeint);
    lemma_pow_mod_window(2int, 0x1f2ebeint, 6873nat, 6, 0x26987bint);
    assert(window(2int, 0x1f2ebeint, 6, 0x26987bint) == 0x13f391int);
}

/// The power `(2529403 - 1) / 18329` of 2 modulo 2529403.
proof fn lemma_pow_2529403_without_18329()
    ensures
        pow_mod(2int, 138nat, 0x26987bint) == 0x1607e2int,
{
    lemma_pow_mod_window(2int, 1int, 0nat, 8, 0x26987bint);
    assert(window(2int, 1int, 8, 0x26987bint) == 256int);
    lemma_pow_mod_window(2int, 256int, 8nat, 10, 0x26987bint);
    assert(window(2int, 256int, 10, 0x26987bint) == 0x1607e2int);
}

/// The power `2529403 - 1` of 2 modulo 2529403: the square of the power with half the exponent.
proof fn lemma_pow_2529403_full()
    ensures
        pow_mod(2int, 0x26987anat, 0x26987bint) == 1,
{
    lemma_pow_2529403_without_2();
    lemma_pow_mod_window(0x26987aint, 1, 0, 2, 0x26987bint);
    assert(window(0x26987aint, 1, 2, 0x26987bint) == 1);
    lemma_pow_mod_chain(2int, 0x134c3dnat, 2, 0x26987bint, 0x26987aint, 1);
}

/// 2529403 is a prime.
pub proof fn lemma_prime_2529403()
    ensures
        all_units(0x26987bint),
{
    let l: Seq<nat> = Seq::new(4, |i: int| if i < 1 { 2nat } else if i < 2 { 3nat } else if i < 3 { 23nat } else { 18329nat });
    lemma_prime_2();
    lemma_prime_3();
    lemma_prime_23();
    lemma_prime_18329();
    assert(product(l.take(0)) == 1);
    lemma_product_next(l, 0, 1nat, 2nat);
    assert(product(l.take(1)) == 2nat);
    lemma_product_next(l, 1, 2nat, 3nat);
    assert(product(l.take(2)) == 6nat);
    lemma_product_next(l, 2, 6nat, 23nat);
    assert(product(l.take(3)) == 138nat);
    lemma_product_next(l, 3, 138nat, 18329nat);
    assert(product(l.take(4)) == 0x26987anat);
    assert(l.take(4) =~= l);
    lemma_pow_2529403_full();
    lemma_pow_2529403_without_2();
    lemma_pow_2529403_without_3();
    lemma_pow_2529403_without_23();
    lemma_pow_2529403_without_18329();
    assert forall|i: int| 0 <= i < l.len() implies all_units(#[trigger] l[i] as int) by {
    }
    assert forall|i: int| 0 <= i < l.len() implies pow_mod(
        2int,
        #[trigger] product(l.remove(i)),
        0x26987bint,
    ) != 1 by {
        if i < 1 {
            lemma_product_without(l, i, 2nat);
            assert(product(l.remove(i)) == 0x134c3dnat);
        } else if i < 2 {
            lemma_product_without(l, i, 3nat);
            assert(product(l.remove(i)) == 843134nat);
        } else if i < 3 {
            lemma_product_without(l, i, 23nat);
            assert(product(l.remove(i)) == 109974nat);
        } else {
            lemma_product_without(l, i, 18329nat);
            assert(product(l.remove(i)) == 138nat);
        }
    }
    lemma_lucas(2int, l, 0x26987bint);
}

/// The power `(2653753 - 1) / 2` of 5 modulo 2653753.
proof fn lemma_pow_2653753_without_2()
    ensures
        pow_mod(5int, 0x143f1cnat, 0x287e39int) == 0x287e38int,
{
    lemma_pow_mod_window(5int, 1int, 0nat, 1, 0x287e39int);
    assert(window(5int, 1int, 1, 0x287e39int) == 5int);
    lemma_pow_mod_window(5int, 5int, 1nat, 4, 0x287e39int);
    assert(window(5int, 5int, 4, 0x287e39int) == 0xf9fbaint);
    lemma_pow_mod_window(5int, 0xf9fbaint, 20nat, 3, 0x287e39int);
    assert(window(5int, 0xf9fbaint, 3, 0x287e39int) == 0x1af003int);
    lemma_pow_mod_window(5int, 0x1af003int, 323nat, 15, 0x287e39int);
    assert(window(5int, 0x1af003int, 15, 0x287e39int) == 0x242443int);
    lemma_pow_mod_window(5int, 0x242443int, 5183nat, 1, 0x287e39int);
    assert(window(5int, 0x242443int, 1, 0x287e39int) == 768953int);
    lemma_pow_mod_window(5int, 768953int, 82929nat, 12, 0x287e39int);
    assert(window(5int, 768953int, 12, 0x287e39int) == 0x287e38int);
}

/// The power `(2653753 - 1) / 3` of 5 modulo 2653753.
proof fn lemma_pow_2653753_without_3()
    ensures
        pow_mod(5int, 884584nat, 0x287e39int) == 0x1fb037int,
{
    lemma_pow_mod_window(5int, 1int, 0nat, 13, 0x287e39int);
    assert(window(5int, 1int, 13, 0x287e39int) == 0x282362int);
    lemma_pow_mod_window(5int, 0x282362int, 13nat, 7, 0x287e39int);
    assert(window(5int, 0x282362int, 7, 0x287e39int) == 23400int);
    lemma_pow_mod_window(5int, 23400int, 215nat, 15, 0x287e39int);
    assert(window(5int, 23400int, 15, 0x287e39int) == 0x15ecd3int);
    lemma_pow_mod_window(5int, 0x15ecd3int, 3455nat, 6, 0x287e39int);
    assert(window(5int, 0x15ecd3int, 6, 0x287e39int) == 0x18934fint);
    lemma_pow_mod_window(5int, 0x18934fint, 55286nat, 8, 0x287e39int);
    assert(window(5int, 0x18934fint, 8, 0x287e39int) == 0x1fb037int);
}

/// The power `(2653753 - 1) / 110573` of 5 modulo 2653753.
proof fn lemma_pow_2653753_without_110573()
    ensures
        pow_mod(5int, 24nat, 0x287e39int) == 401777int,
{
    lemma_pow_mod_window(5int, 1int, 0nat, 1, 0x287e39int);
    assert(window(5int, 1int, 1, 0x287e39int) == 5int);
    lemma_pow_mod_window(5int, 5int, 1nat, 8, 0x287e39int);
    assert(window(5int, 5int, 8, 0x287e39int) == 401777int);
}

/// The power `2653753 - 1` of 5 modulo 2653753: the square of the power with half the exponent.
proof fn lemma_pow_2653753_full()
    ensures
        pow_mod(5int, 0x287e38nat, 0x287e39int) == 1,
{
    lemma_pow_2653753_without_2();
    lemma_pow_mod_window(0x287e38int, 1, 0, 2, 0x287e39int);
    assert(window(0x287e38int, 1, 2, 0x287e39int) == 1);
    lemma_pow_mod_chain(5int, 0x143f1cnat, 2, 0x287e39int, 0x287e38int, 1);
}

/// 2653753 is a prime.
pub proof fn lemma_prime_2653753()
    ensures
        all_units(0x287e39int),
{
    let l: Seq<nat> = Seq::new(5, |i: int| if i < 3 { 2nat } else if i < 4 { 3nat } else { 110573nat });
    lemma_prime_2();
    lemma_prime_3();
    lemma_prime_110573();
    assert(product(l.take(0)) == 1);
    lemma_product_next(l, 0, 1nat, 2nat);
    assert(product(l.take(1)) == 2nat);
    lemma_product_next(l, 1, 2nat, 2nat);
    assert(product(l.take(2)) == 4nat);
    lemma_product_next(l, 2, 4nat, 2nat);
    assert(product(l.take(3)) == 8nat);
    lemma_product_next(l, 3, 8nat, 3nat);
    assert(product(l.take(4)) == 24nat);
    lemma_product_next(l, 4, 24nat, 110573nat);
    assert(product(l.take(5)) == 0x287e38nat);
    assert(l.take(5) =~= l);
    lemma_pow_2653753_full();
    lemma_pow_2653753_without_2();
    lemma_pow_2653753_without_3();
    lemma_pow_2653753_without_110573();
    assert forall|i: int| 0 <= i < l.len() implies all_units(#[trigger] l[i] as int) by {
    }
    assert forall|i: int| 0 <= i < l.len() implies pow_mod(
        5int,
        #[trigger] product(l.remove(i)),
        0x287e39int,
    ) != 1 by {
        if i < 3 {
            lemma_product_without(l, i, 2nat);
            assert(product(l.remove(i)) == 0x143f1cnat);
        } else if i < 4 {
            lemma_product_without(l, i, 3nat);
            assert(product(l.remove(i)) == 884584nat);
        } else {
            lemma_product_without(l, i, 110573nat);
            assert(product(l.remove(i)) == 24nat);
        }
    }
    lemma_lucas(5int, l, 0x287e39int);
}

/// The power `(52437899 - 1) / 2` of 2 modulo 52437899.
proof fn lemma_pow_52437899_without_2()
    ensures
        pow_mod(2int, 0x19011c5nat, 0x320238bint) == 0x320238aint,
{
    lemma_pow_mod_window(2int, 1int, 0nat, 1, 0x320238bint);
    assert(window(2int, 1int, 1, 0x320238bint) == 2int);
    lemma_pow_mod_window(2int, 2int, 1nat, 9, 0x320238bint);
    assert(window(2int, 2int, 9, 0x320238bint) == 0x2000000int);
    lemma_pow_mod_window(2int, 0x2000000int, 25nat, 0, 0x320238bint);
    assert(window(2int, 0x2000000int, 0, 0x320238bint) == 0x517a20int);
    lemma_pow_mod_window(2int, 0x517a20int, 400nat, 1, 0x320238bint);
    assert(window(2int, 0x517a20int, 1, 0x320238bint) == 0x276bd36int);
    lemma_pow_mod_window(2int, 0x276bd36int, 6401nat, 1, 0x320238bint);
    assert(window(2int, 0x276bd36int, 1, 0x320238bint) == 0x482469int);
    lemma_pow_mod_window(2int, 0x482469int, 102417nat, 12, 0x320238bint);
    assert(window(2int, 0x482469int, 12, 0x320238bint) == 0x1fa9a61int);
    lemma_pow_mod_window(2int, 0x1fa9a61int, 0x19011cnat, 5, 0x320238bint);
    assert(window(2int, 0x1fa9a61int, 5, 0x320238bint) == 0x320238aint);
}

/// The power `(52437899 - 1) / 43` of 2 modulo 52437899.
proof fn lemma_pow_52437899_without_43()
    ensures
        pow_mod(2int, 0x129b9enat, 0x320238bint) == 0xb36ca5int,
{
    lemma_pow_mod_window(2int, 1int, 0nat, 1, 0x320238bint);
    assert(window(2int, 1int, 1, 0x320238bint) == 2int);
    lemma_pow_mod_window(2int, 2int, 1nat, 2, 0x320238bint);
    assert(window(2int, 2int, 2, 0x320238bint) == 262144int);
    lemma_pow_mod_window(2int, 262144int, 18nat, 9, 0x320238bint);
    assert(window(2int, 262144int, 9, 0x320238bint) == 0x29ced9int);
    lemma_pow_mod_window(2int, 0x29ced9int, 297nat, 11, 0x320238bint);
    assert(window(2int, 0x29ced9int, 11, 0x320238bint) == 0x1d8664int);
    lemma_pow_mod_window(2int, 0x1d8664int, 4763nat, 9, 0x320238bint);
    assert(window(2int, 0x1d8664int, 9, 0x320238bint) == 0x2a966caint);
    lemma_pow_mod_window(2int, 0x2a966caint, 76217nat, 14, 0x320238bint);
    assert(window(2int, 0x2a966caint, 14, 0x320238bint) == 0xb36ca5int);
}

/// The power `(52437899 - 1) / 609743` of 2 modulo 52437899.
proof fn lemma_pow_52437899_without_609743()
    ensures
        pow_mod(2int, 86nat, 0x320238bint) == 0x19c81ebint,
{
    lemma_pow_mod_window(2int, 1int, 0nat, 5, 0x320238bint);
    assert(window(2int, 1int, 5, 0x320238bint) == 32int);
    lemma_pow_mod_window(2int, 32int, 5nat, 6, 0x320238bint);
    assert(window(2int, 32int, 6, 0x320238bint) == 0x19c81ebint);
}

/// The power `52437899 - 1` of 2 modulo 52437899: the square of the power with half the exponent.
proof fn lemma_pow_52437899_full()
    ensures
        pow_mod(2int, 0x320238anat, 0x320238bint) == 1,
{
    lemma_pow_52437899_without_2();
    lemma_pow_mod_window(0x320238aint, 1, 0, 2, 0x320238bint);
    assert(window(0x320238aint, 1, 2, 0x320238bint) == 1);
    lemma_pow_mod_chain(2int, 0x19011c5nat, 2, 0x320238bint, 0x320238aint, 1);
}

/// 52437899 is a prime.
pub proof fn lemma_prime_52437899()
    ensures
        all_units(0x320238bint),
{
    let l: Seq<nat> = Seq::new(3, |i: int| if i < 1 { 2nat } else if i < 2 { 43nat } else { 609743nat });
    lemma_prime_2();
    lemma_prime_43();
    lemma_prime_609743();
    assert(product(l.take(0)) == 1);
    lemma_product_next(l, 0, 1nat, 2nat);
    assert(product(l.take(1)) == 2nat);
    lemma_product_next(l, 1, 2nat, 43nat);
    assert(product(l.take(2)) == 86nat);
    lemma_product_next(l, 2, 86nat, 609743nat);
    assert(product(l.take(3)) == 0x320238anat);
    assert(l.take(3) =~= l);
    lemma_pow_52437899_full();
    lemma_pow_52437899_without_2();
    lemma_pow_52437899_without_43();
    lemma_pow_52437899_without_609743();
    assert forall|i: int| 0 <= i < l.len() implies all_units(#[trigger] l[i] as int) by {
    }
    assert forall|i: int| 0 <= i < l.len() implies pow_mod(
        2int,
        #[trigger] product(l.remove(i)),
        0x320238bint,
    ) != 1 by {
        if i < 1 {
            lemma_product_without(l, i, 2nat);
            assert(product(l.remove(i)) == 0x19011c5nat);
        } else if i < 2 {
            lemma_product_without(l, i, 43nat);
            assert(product(l.remove(i)) == 0x129b9enat);
        } else {
            lemma_product_without(l, i, 609743nat);
            assert(product(l.remove(i)) == 86nat);
        }
    }
    lemma_lucas(2int, l, 0x320238bint);
}

/// The power `(63690073 - 1) / 2` of 7 modulo 63690073.
proof fn lemma_pow_63690073_without_2()
    ensures
        pow_mod(7int, 0x1e5eaacnat, 0x3cbd559int) == 0x3cbd558int,
{
    lemma_pow_mod_window(7int, 1int, 0nat, 1, 0x3cbd559int);
    assert(window(7int, 1int, 1, 0x3cbd559int) == 7int);
    lemma_pow_mod_window(7int, 7int, 1nat, 14, 0x3cbd559int);
    assert(window(7int, 7int, 14, 0x3cbd559int) == 0x3730811int);
    lemma_pow_mod_window(7int, 0x3730811int, 30nat, 5, 0x3cbd559int);
    assert(window(7int, 0x3730811int, 5, 0x3cbd559int) == 0x3be7ca8int);
    lemma_pow_mod_window(7int, 0x3be7ca8int, 485nat, 14, 0x3cbd559int);
    assert(window(7int, 0x3be7ca8int, 14, 0x3cbd559int) == 0xa34bb3int);
    lemma_pow_mod_window(7int, 0xa34bb3int, 7774nat, 10, 0x3cbd559int);
    assert(window(7int, 0xa34bb3int, 10, 0x3cbd559int) == 0x15af7f7int);
    lemma_pow_mod_window(7int, 0x15af7f7int, 124394nat, 10, 0x3cbd559int);
    assert(window(7int, 0x15af7f7int, 10, 0x3cbd559int) == 0xc59ec3int);
    lemma_pow_mod_window(7int, 0xc59ec3int, 0x1e5eaanat, 12, 0x3cbd559int);
    assert(window(7int, 0xc59ec3int, 12, 0x3cbd559int) == 0x3cbd558int);
}

/// The power `(63690073 - 1) / 3` of 7 modulo 63690073.
proof fn lemma_pow_63690073_without_3()
    ensures
        pow_mod(7int, 0x143f1c8nat, 0x3cbd559int) == 0x2691f8int,
{
    lemma_pow_mod_window(7int, 1int, 0nat, 1, 0x3cbd559int);
    assert(window(7int, 1int, 1, 0x3cbd559int) == 7int);
    lemma_pow_mod_window(7int, 7int, 1nat, 4, 0x3cbd559int);
    assert(window(7int, 7int, 4, 0x3cbd559int) == 0x1a22e5int);
    lemma_pow_mod_window(7int, 0x1a22e5int, 20nat, 3, 0x3cbd559int);
    assert(window(7int, 0x1a22e5int, 3, 0x3cbd559int) == 0x25e9ddcint);
    lemma_pow_mod_window(7int, 0x25e9ddcint, 323nat, 15, 0x3cbd559int);
    assert(window(7int, 0x25e9ddcint, 15, 0x3cbd559int) == 0x22db9abint);
    lemma_pow_mod_window(7int, 0x22db9abint, 5183nat, 1, 0x3cbd559int);
    assert(window(7int, 0x22db9abint, 1, 0x3cbd559int) == 0x4cca26int);
    lemma_pow_mod_window(7int, 0x4cca26int, 82929nat, 12, 0x3cbd559int);
    assert(window(7int, 0x4cca26int, 12, 0x3cbd559int) == 0x257c8b6int);
    lemma_pow_mod_window(7int, 0x257c8b6int, 0x143f1cnat, 8, 0x3cbd559int);
    assert(window(7int, 0x257c8b6int, 8, 0x3cbd559int) == 0x2691f8int);
}

/// The power `(63690073 - 1) / 2653753` of 7 modulo 63690073.
proof fn lemma_pow_63690073_without_2653753()
    ensures
        pow_mod(7int, 24nat, 0x3cbd559int) == 0x22bef85int,
{
    lemma_pow_mod_window(7int, 1int, 0nat, 1, 0x3cbd559int);
    assert(window(7int, 1int, 1, 0x3cbd559int) == 7int);
    lemma_pow_mod_window(7int, 7int, 1nat, 8, 0x3cbd559int);
    assert(window(7int, 7int, 8, 0x3cbd559int) == 0x22bef85int);
}

/// The power `63690073 - 1` of 7 modulo 63690073: the square of the power with half the exponent.
proof fn lemma_pow_63690073_full()
    ensures
        pow_mod(7int, 0x3cbd558nat, 0x3cbd559int) == 1,
{
    lemma_pow_63690073_without_2();
    lemma_pow_mod_window(0x3cbd558int, 1, 0, 2, 0x3cbd559int);
    assert(window(0x3cbd558int, 1, 2, 0x3cbd559int) == 1);
    lemma_pow_mod_chain(7int, 0x1e5eaacnat, 2, 0x3cbd559int, 0x3cbd558int, 1);
}

/// 63690073 is a prime.
pub proof fn lemma_prime_63690073()
    ensures
        all_units(0x3cbd559int),
{
    let l: Seq<nat> = Seq::new(5, |i: int| if i < 3 { 2nat } else if i < 4 { 3nat } else { 0x287e39nat });
    lemma_prime_2();
    lemma_prime_3();
    lemma_prime_2653753();
    assert(product(l.take(0)) == 1);
    lemma_product_next(l, 0, 1nat, 2nat);
    assert(product(l.take(1)) == 2nat);
    lemma_product_next(l, 1, 2nat, 2nat);
    assert(product(l.take(2)) == 4nat);
    lemma_product_next(l, 2, 4nat, 2nat);
    assert(product(l.take(3)) == 8nat);
    lemma_product_next(l, 3, 8nat, 3nat);
    assert(product(l.take(4)) == 24nat);
    lemma_product_next(l, 4, 24nat, 0x287e39nat);
    assert(product(l.take(5)) == 0x3cbd558nat);
    assert(l.take(5) =~= l);
    lemma_pow_63690073_full();
    lemma_pow_63690073_without_2();
    lemma_pow_63690073_without_3();
    lemma_pow_63690073_without_2653753();
    assert forall|i: int| 0 <= i < l.len() implies all_units(#[trigger] l[i] as int) by {
    }
    assert forall|i: int| 0 <= i < l.len() implies pow_mod(
        7int,
        #[trigger] product(l.remove(i)),
        0x3cbd559int,
    ) != 1 by {
        if i < 3 {
            lemma_product_without(l, i, 2nat);
            assert(product(l.remove(i)) == 0x1e5eaacnat);
        } else if i < 4 {
            lemma_product_without(l, i, 3nat);
            assert(product(l.remove(i)) == 0x143f1c8nat);
        } else {
            lemma_product_without(l, i, 0x287e39nat);
            assert(product(l.remove(i)) == 24nat);
        }
    }
    lemma_lucas(7int, l, 0x3cbd559int);
}

/// The power `(254760293 - 1) / 2` of 2 modulo 254760293.
proof fn lemma_pow_254760293_without_2()
    ensures
        pow_mod(2int, 0x797aab2nat, 0xf2f5565int) == 0xf2f5564int,
{
    lemma_pow_mod_window(2int, 1int, 0nat, 7, 0xf2f5565int);
    assert(window(2int, 1int, 7, 0xf2f5565int) == 128int);
    lemma_pow_mod_window(2int, 128int, 7nat, 9, 0xf2f5565int);
    assert(window(2int, 128int, 9, 0xf2f5565int) == 0x3ead836int);
    lemma_pow_mod_window(2int, 0x3ead836int, 121nat, 7, 0xf2f5565int);
    assert(window(2int, 0x3ead836int, 7, 0xf2f5565int) == 0x7a509eaint);
    lemma_pow_mod_window(2int, 0x7a509eaint, 1943nat, 10, 0xf2f5565int);
    assert(window(2int, 0x7a509eaint, 10, 0xf2f5565int) == 0x96f337fint);
    lemma_pow_mod_window(2int, 0x96f337fint, 31098nat, 10, 0xf2f5565int);
    assert(window(2int, 0x96f337fint, 10, 0xf2f5565int) == 0x8d05c19int);
    lemma_pow_mod_window(2int, 0x8d05c19int, 497578nat, 11, 0xf2f5565int);
    assert(window(2int, 0x8d05c19int, 11, 0xf2f5565int) == 0x952ea92int);
    lemma_pow_mod_window(2int, 0x952ea92int, 0x797aabnat, 2, 0xf2f5565int);
    assert(window(2int, 0x952ea92int, 2, 0xf2f5565int) == 0xf2f5564int);
}

/// The power `(254760293 - 1) / 63690073` of 2 modulo 254760293.
proof fn lemma_pow_254760293_without_63690073()
    ensures
        pow_mod(2int, 4nat, 0xf2f5565int) == 16int,
{
    lemma_pow_mod_window(2int, 1int, 0nat, 4, 0xf2f5565int);
    assert(window(2int, 1int, 4, 0xf2f5565int) == 16int);
}

/// The power `254760293 - 1` of 2 modulo 254760293: the square of the power with half the exponent.
proof fn lemma_pow_254760293_full()
    ensures
        pow_mod(2int, 0xf2f5564nat, 0xf2f5565int) == 1,
{
    lemma_pow_254760293_without_2();
    lemma_pow_mod_window(0xf2f5564int, 1, 0, 2, 0xf2f5565int);
    assert(window(0xf2f5564int, 1, 2, 0xf2f5565int) == 1);
    lemma_pow_mod_chain(2int, 0x797aab2nat, 2, 0xf2f5565int, 0xf2f5564int, 1);
}

/// 254760293 is a prime.
pub proof fn lemma_prime_254760293()
    ensures
        all_units(0xf2f5565int),
{
    let l: Seq<nat> = Seq::new(3, |i: int| if i < 2 { 2nat } else { 0x3cbd559nat });
    lemma_prime_2();
    lemma_prime_63690073();
    assert(product(l.take(0)) == 1);
    lemma_product_next(l, 0, 1nat, 2nat);
    assert(product(l.take(1)) == 2nat);
    lemma_product_next(l, 1, 2nat, 2nat);
    assert(product(l.take(2)) == 4nat);
    lemma_product_next(l, 2, 4nat, 0x3cbd559nat);
    assert(product(l.take(3)) == 0xf2f5564nat);
    assert(l.take(3) =~= l);
    lemma_pow_254760293_full();
    lemma_pow_254760293_without_2();
    lemma_pow_254760293_without_63690073();
    assert forall|i: int| 0 <= i < l.len() implies all_units(#[trigger] l[i] as int) by {
    }
    assert forall|i: int| 0 <= i < l.len() implies pow_mod(
        2int,
        #[trigger] product(l.remove(i)),
        0xf2f5565int,
    ) != 1 by {
        if i < 2 {
            lemma_product_without(l, i, 2nat);
            assert(product(l.remove(i)) == 0x797aab2nat);
        } else {
            lemma_product_without(l, i, 0x3cbd559nat);
            assert(product(l.remove(i)) == 4nat);
        }
    }
    lemma_lucas(2int, l, 0xf2f5565int);
}

/// A part of the way to the next power.
#[verifier::rlimit(60)]
proof fn lemma_pow_modulus_2_31_part_1()
    ensures
        pow_mod(7int, 32768nat, q()) == 0x6804d24ab62aa136ba6e492fb897934ec92eca7707b4b62d29317b82b3379c2eint,
{
    let e0: nat = 0nat;
    let x0: int = 1int;
    lemma_pow_mod_window(7int, x0, e0, 8, q());
    let e1: nat = 16 * e0 + 8;
    let x1: int = window(7int, 1int, 8, q());
    assert(x1 == 0x57f6c1int);
    lemma_pow_mod_window(7int, x1, e1, 0, q());
    let e2: nat = 16 * e1 + 0;
    let x2: int = window(7int, 0x57f6c1int, 0, q());
    assert(x2 == 0x3f658b7688becbdd628a4be1e35a32d3601910de06fe2947626b83cf2f1e7765int);
    lemma_pow_mod_window(7int, x2, e2, 0, q());
    let e3: nat = 16 * e2 + 0;
    let x3: int = window(7int, 0x3f658b7688becbdd628a4be1e35a32d3601910de06fe2947626b83cf2f1e7765int, 0, q());
    assert(x3 == 0x964c3466f7187215b5abad04922d8e2a5a210cae66d3f767faf5a14caca24d4int);
    lemma_pow_mod_window(7int, x3, e3, 0, q());
    let e4: nat = 16 * e3 + 0;
    let x4: int = window(7int, 0x964c3466f7187215b5abad04922d8e2a5a210cae66d3f767faf5a14caca24d4int, 0, q());
    assert(x4 == 0x6804d24ab62aa136ba6e492fb897934ec92eca7707b4b62d29317b82b3379c2eint);
    assert(e4 == 32768nat);
}

/// Seven to the power `2^31`.
#[verifier::rlimit(60)]
proof fn lemma_pow_modulus_2_31()
    ensures
        pow_mod(7int, 0x80000000nat, q()) == 0x46e02401a9194f3106d1137895c1d407deff7dc6ff0f95c4bb188d53056fd0d8int,
{
    lemma_pow_modulus_2_31_part_1();
    let e4: nat = 32768nat;
    let x4: int = 0x6804d24ab62aa136ba6e492fb897934ec92eca7707b4b62d29317b82b3379c2eint;
    lemma_pow_mod_window(7int, x4, e4, 0, q());
    let e5: nat = 16 * e4 + 0;
    let x5: int = window(7int, 0x6804d24ab62aa136ba6e492fb897934ec92eca7707b4b62d29317b82b3379c2eint, 0, q());
    assert(x5 == 0xc2a9a7faa1a1a2ed631f40acb99a21f9ae1ff0ea0334c18c525b6ab4565e752int);
    lemma_pow_mod_window(7int, x5, e5, 0, q());
    let e6: nat = 16 * e5 + 0;
    let x6: int = window(7int, 0xc2a9a7faa1a1a2ed631f40acb99a21f9ae1ff0ea0334c18c525b6ab4565e752int, 0, q());
    assert(x6 == 0x58335464ad9e9cae4e3c072e4a91613482a60243cab735b648512d6f616d5433int);
    lemma_pow_mod_window(7int, x6, e6, 0, q());
    let e7: nat = 16 * e6 + 0;
    let x7: int = window(7int, 0x58335464ad9e9cae4e3c072e4a91613482a60243cab735b648512d6f616d5433int, 0, q());
    assert(x7 == 0x2a98b3de1e8d05396c576a792ed0dd3cafe4f76895ae53bfade986863f8b7153int);
    lemma_pow_mod_window(7int, x7, e7, 0, q());
    let e8: nat = 16 * e7 + 0;
    let x8: int = window(7int, 0x2a98b3de1e8d05396c576a792ed0dd3cafe4f76895ae53bfade986863f8b7153int, 0, q());
    assert(x8 == 0x46e02401a9194f3106d1137895c1d407deff7dc6ff0f95c4bb188d53056fd0d8int);
    assert(e8 == 0x80000000nat);
}

#[verifier::inline]
spec fn c0() -> int {
    0x46e02401a9194f3106d1137895c1d407deff7dc6ff0f95c4bb188d53056fd0d8int
}

/// A part of the way to the next power.
#[verifier::rlimit(60)]
proof fn lemma_pow_modulus_half_step_part_1()
    ensures
        pow_mod(c0(), 29677nat, q()) == 0x71881210b7d49fbda584e949a773725c890d250f853ba76683b092cd1c0febd9int,
{
    let e0: nat = 0nat;
    let x0: int = 1int;
    lemma_pow_mod_window(c0(), x0, e0, 7, q());
    let e1: nat = 16 * e0 + 7;
    let x1: int = window(c0(), 1int, 7, q());
    assert(x1 == 0x3b1058976c25ee9f7e34751245b8bb3453b36ef885b3c2151ef94d0d52aeb2b3int);
    lemma_pow_mod_window(c0(), x1, e1, 3, q());
    let e2: nat = 16 * e1 + 3;
    let x2: int = window(c0(), 0x3b1058976c25ee9f7e34751245b8bb3453b36ef885b3c2151ef94d0d52aeb2b3int, 3, q());
    assert(x2 == 0x4a6afc05565b5d019706436e0a670332918bdb8463010119d3366811db6cdbe9int);
    lemma_pow_mod_window(c0(), x2, e2, 14, q());
    let e3: nat = 16 * e2 + 14;
    let x3: int = window(c0(), 0x4a6afc05565b5d019706436e0a670332918bdb8463010119d3366811db6cdbe9int, 14, q());
    assert(x3 == 0x101da4fa271123bfb5f52c680592166e14ed1c9e30ef9ad172e3f0260d7e4086int);
    lemma_pow_mod_window(c0(), x3, e3, 13, q());
    let e4: nat = 16 * e3 + 13;
    let x4: int = window(c0(), 0x101da4fa271123bfb5f52c680592166e14ed1c9e30ef9ad172e3f0260d7e4086int, 13, q());
    assert(x4 == 0x71881210b7d49fbda584e949a773725c890d250f853ba76683b092cd1c0febd9int);
    assert(e4 == 29677nat);
}

/// A part of the way to the next power.
#[verifier::rlimit(60)]
proof fn lemma_pow_modulus_half_step_part_2()
    ensures
        pow_mod(c0(), 0x73eda753nat, q()) == 0x152bc678856d48e5fc0f047f9dc0484e9986250357be6a554a52293f4bc08a53int,
{
    lemma_pow_modulus_half_step_part_1();
    let e4: nat = 29677nat;
    let x4: int = 0x71881210b7d49fbda584e949a773725c890d250f853ba76683b092cd1c0febd9int;
    lemma_pow_mod_window(c0(), x4, e4, 10, q());
    let e5: nat = 16 * e4 + 10;
    let x5: int = window(c0(), 0x71881210b7d49fbda584e949a773725c890d250f853ba76683b092cd1c0febd9int, 10, q());
    assert(x5 == 0x1c4e1598f51320f9fda9c21d778e5acd5cdb724353ea68cf36fecd1bbca4b0fbint);
    lemma_pow_mod_window(c0(), x5, e5, 7, q());
    let e6: nat = 16 * e5 + 7;
    let x6: int = window(c0(), 0x1c4e1598f51320f9fda9c21d778e5acd5cdb724353ea68cf36fecd1bbca4b0fbint, 7, q());
    assert(x6 == 0x2528fb1de38f997f5492cb796de8b7aa6e706fe3d99521e1038a7832731100c8int);
    lemma_pow_mod_window(c0(), x6, e6, 5, q());
    let e7: nat = 16 * e6 + 5;
    let x7: int = window(c0(), 0x2528fb1de38f997f5492cb796de8b7aa6e706fe3d99521e1038a7832731100c8int, 5, q());
    assert(x7 == 0x53cec48be54c91489e98880ea485b770082295bf982bff8d076940fa06b4e9e5int);
    lemma_pow_mod_window(c0(), x7, e7, 3, q());
    let e8: nat = 16 * e7 + 3;
    let x8: int = window(c0(), 0x53cec48be54c91489e98880ea485b770082295bf982bff8d076940fa06b4e9e5int, 3, q());
    assert(x8 == 0x152bc678856d48e5fc0f047f9dc0484e9986250357be6a554a52293f4bc08a53int);
    assert(e8 == 0x73eda753nat);
}

/// A part of the way to the next power.
#[verifier::rlimit(60)]
proof fn lemma_pow_modulus_half_step_part_3()
    ensures
        pow_mod(c0(), 0x73eda753299dnat, q()) == 0x4a20e8b55c4c1355934bdff2d14f15e31b1c6b8fe53163260755dee53edb63f7int,
{
    lemma_pow_modulus_half_step_part_2();
    let e8: nat = 0x73eda753nat;
    let x8: int = 0x152bc678856d48e5fc0f047f9dc0484e9986250357be6a554a52293f4bc08a53int;
    lemma_pow_mod_window(c0(), x8, e8, 2, q());
    let e9: nat = 16 * e8 + 2;
    let x9: int = window(c0(), 0x152bc678856d48e5fc0f047f9dc0484e9986250357be6a554a52293f4bc08a53int, 2, q());
    assert(x9 == 0x62825c573bd2a79ddd0e7892398eabcaf24f02eb2837388fe28f3c0116d80456int);
    lemma_pow_mod_window(c0(), x9, e9, 9, q());
    let e10: nat = 16 * e9 + 9;
    let x10: int = window(c0(), 0x62825c573bd2a79ddd0e7892398eabcaf24f02eb2837388fe28f3c0116d80456int, 9, q());
    assert(x10 == 0x4dbf261eb89e67f350a4d939701dffb72dfb9b4f5f0c1e5e6bec279a55f28da4int);
    lemma_pow_mod_window(c0(), x10, e10, 9, q());
    let e11: nat = 16 * e10 + 9;
    let x11: int = window(c0(), 0x4dbf261eb89e67f350a4d939701dffb72dfb9b4f5f0c1e5e6bec279a55f28da4int, 9, q());
    assert(x11 == 0x578d0007ccd3e1da58457e22c5b3bfdf7afffb437d80b4200a8e2b722cc297cdint);
    lemma_pow_mod_window(c0(), x11, e11, 13, q());
    let e12: nat = 16 * e11 + 13;
    let x12: int = window(c0(), 0x578d0007ccd3e1da58457e22c5b3bfdf7afffb437d80b4200a8e2b722cc297cdint, 13, q());
    assert(x12 == 0x4a20e8b55c4c1355934bdff2d14f15e31b1c6b8fe53163260755dee53edb63f7int);
    assert(e12 == 0x73eda753299dnat);
}

/// A part of the way to the next power.
#[verifier::rlimit(60)]
proof fn lemma_pow_modulus_half_step_part_4()
    ensures
        pow_mod(c0(), 0x73eda753299d7d48nat, q()) == 0x2dbfbec8019343c6cabec262375e4010b490be99f2cfdd9b1d7cb8a25c2bdfd8int,
{
    lemma_pow_modulus_half_step_part_3();
    let e12: nat = 0x73eda753299dnat;
    let x12: int = 0x4a20e8b55c4c1355934bdff2d14f15e31b1c6b8fe53163260755dee53edb63f7int;
    lemma_pow_mod_window(c0(), x12, e12, 7, q());
    let e13: nat = 16 * e12 + 7;
    let x13: int = window(c0(), 0x4a20e8b55c4c1355934bdff2d14f15e31b1c6b8fe53163260755dee53edb63f7int, 7, q());
    assert(x13 == 0x71c6c6ce607f47f75be411f280569507b36c6e6991df93d8d315adb628622161int);
    lemma_pow_mod_window(c0(), x13, e13, 13, q());
    let e14: nat = 16 * e13 + 13;
    let x14: int = window(c0(), 0x71c6c6ce607f47f75be411f280569507b36c6e6991df93d8d315adb628622161int, 13, q());
    assert(x14 == 0x552810b06804f08434aac9ec35b19722e79a27d98550e7eed55aabdf0ba7b329int);
    lemma_pow_mod_window(c0(), x14, e14, 4, q());
    let e15: nat = 16 * e14 + 4;
    let x15: int = window(c0(), 0x552810b06804f08434aac9ec35b19722e79a27d98550e7eed55aabdf0ba7b329int, 4, q());
    assert(x15 == 0x4186d27cb6d205eb7430dfa6f509ed419bd3822d140f766c5cdb6669d3d96100int);
    lemma_pow_mod_window(c0(), x15, e15, 8, q());
    let e16: nat = 16 * e15 + 8;
    let x16: int = window(c0(), 0x4186d27cb6d205eb7430dfa6f509ed419bd3822d140f766c5cdb6669d3d96100int, 8, q());
    assert(x16 == 0x2dbfbec8019343c6cabec262375e4010b490be99f2cfdd9b1d7cb8a25c2bdfd8int);
    assert(e16 == 0x73eda753299d7d48nat);
}

/// A part of the way to the next power.
#[verifier::rlimit(60)]
proof fn lemma_pow_modulus_half_step_part_5()
    ensures
        pow_mod(c0(), 0x73eda753299d7d483339nat, q()) == 0x29cede46e044a4073efa75b1a7b7717006d9074114fa47f9ded3f9625f4c6979int,
{
    lemma_pow_modulus_half_step_part_4();
    let e16: nat = 0x73eda753299d7d48nat;
    let x16: int = 0x2dbfbec8019343c6cabec262375e4010b490be99f2cfdd9b1d7cb8a25c2bdfd8int;
    lemma_pow_mod_window(c0(), x16, e16, 3, q());
    let e17: nat = 16 * e16 + 3;
    let x17: int = window(c0(), 0x2dbfbec8019343c6cabec262375e4010b490be99f2cfdd9b1d7cb8a25c2bdfd8int, 3, q());
    assert(x17 == 0x2782d9f1217cd7227ad6db443bde9bf73550f6782364bddf7334616a656ba955int);
    lemma_pow_mod_window(c0(), x17, e17, 3, q());
    let e18: nat = 16 * e17 + 3;
    let x18: int = window(c0(), 0x2782d9f1217cd7227ad6db443bde9bf73550f6782364bddf7334616a656ba955int, 3, q());
    assert(x18 == 0x3e74bc190db7958ac6226f1479b2ee17e6db0246c75a20a4e862062803a4f6dbint);
    lemma_pow_mod_window(c0(), x18, e18, 3, q());
    let e19: nat = 16 * e18 + 3;
    let x19: int = window(c0(), 0x3e74bc190db7958ac6226f1479b2ee17e6db0246c75a20a4e862062803a4f6dbint, 3, q());
    assert(x19 == 0x4be5f2d0e583b956d0d3b48a8052b34c33048962a38ecf4ab7c34a5e3d7e8f34int);
    lemma_pow_mod_window(c0(), x19, e19, 9, q());
    let e20: nat = 16 * e19 + 9;
    let x20: int = window(c0(), 0x4be5f2d0e583b956d0d3b48a8052b34c33048962a38ecf4ab7c34a5e3d7e8f34int, 9, q());
    assert(x20 == 0x29cede46e044a4073efa75b1a7b7717006d9074114fa47f9ded3f9625f4c6979int);
    assert(e20 == 0x73eda753299d7d483339nat);
}

/// A part of the way to the next power.
#[verifier::rlimit(60)]
proof fn lemma_pow_modulus_half_step_part_6()
    ensures
        pow_mod(c0(), 0x73eda753299d7d483339d808nat, q()) == 0x47e331c3cca61b7649fa31e65b2254af89a191313d210a7051dde1cbd9e6597bint,
{
    lemma_pow_modulus_half_step_part_5();
    let e20: nat = 0x73eda753299d7d483339nat;
    let x20: int = 0x29cede46e044a4073efa75b1a7b7717006d9074114fa47f9ded3f9625f4c6979int;
    lemma_pow_mod_window(c0(), x20, e20, 13, q());
    let e21: nat = 16 * e20 + 13;
    let x21: int = window(c0(), 0x29cede46e044a4073efa75b1a7b7717006d9074114fa47f9ded3f9625f4c6979int, 13, q());
    assert(x21 == 0xbbd60508c61a659953c29ab05ba1d93f86051f7ac72edd569e9cc0cf7c5f4eaint);
    lemma_pow_mod_window(c0(), x21, e21, 8, q());
    let e22: nat = 16 * e21 + 8;
    let x22: int = window(c0(), 0xbbd60508c61a659953c29ab05ba1d93f86051f7ac72edd569e9cc0cf7c5f4eaint, 8, q());
    assert(x22 == 0x1328473eae9f74ad077cb47c58538c361dea157ac26b63506f3696c35fa57f48int);
    lemma_pow_mod_window(c0(), x22, e22, 0, q());
    let e23: nat = 16 * e22 + 0;
    let x23: int = window(c0(), 0x1328473eae9f74ad077cb47c58538c361dea157ac26b63506f3696c35fa57f48int, 0, q());
    assert(x23 == 0x5830dc418b46d19614ad53675138c56adcb424e50e1bf2269f76824966dfbf72int);
    lemma_pow_mod_window(c0(), x23, e23, 8, q());
    let e24: nat = 16 * e23 + 8;
    let x24: int = window(c0(), 0x5830dc418b46d19614ad53675138c56adcb424e50e1bf2269f76824966dfbf72int, 8, q());
    assert(x24 == 0x47e331c3cca61b7649fa31e65b2254af89a191313d210a7051dde1cbd9e6597bint);
    assert(e24 == 0x73eda753299d7d483339d808nat);
}

/// A part of the way to the next power.
#[verifier::rlimit(60)]
proof fn lemma_pow_modulus_half_step_part_7()
    ensures
        pow_mod(c0(), 0x73eda753299d7d483339d80809a1nat, q()) == 0x476396398658e11e1e6c0533092118979b578a62edf4db19fa419982ea2ecae5int,
{
    lemma_pow_modulus_half_step_part_6();
    let e24: nat = 0x73eda753299d7d483339d808nat;
    let x24: int = 0x47e331c3cca61b7649fa31e65b2254af89a191313d210a7051dde1cbd9e6597bint;
    lemma_pow_mod_window(c0(), x24, e24, 0, q());
    let e25: nat = 16 * e24 + 0;
    let x25: int = window(c0(), 0x47e331c3cca61b7649fa31e65b2254af89a191313d210a7051dde1cbd9e6597bint, 0, q());
    assert(x25 == 0x2ef9a7a367ca25b3ce4c674eae497a6363538eebcb35a0d585fb4ccd5ba5b9ffint);
    lemma_pow_mod_window(c0(), x25, e25, 9, q());
    let e26: nat = 16 * e25 + 9;
    let x26: int = window(c0(), 0x2ef9a7a367ca25b3ce4c674eae497a6363538eebcb35a0d585fb4ccd5ba5b9ffint, 9, q());
    assert(x26 == 0x2360b61f1368eaebc1daebf4f1cbb2a45a380914d4f08fc6d55ad6ecd5b01df5int);
    lemma_pow_mod_window(c0(), x26, e26, 10, q());
    let e27: nat = 16 * e26 + 10;
    let x27: int = window(c0(), 0x2360b61f1368eaebc1daebf4f1cbb2a45a380914d4f08fc6d55ad6ecd5b01df5int, 10, q());
    assert(x27 == 0x3e5ed911b63421cfbac8da6eac341d8eb0aed1f5c31f680b486528d54779feceint);
    lemma_pow_mod_window(c0(), x27, e27, 1, q());
    let e28: nat = 16 * e27 + 1;
    let x28: int = window(c0(), 0x3e5ed911b63421cfbac8da6eac341d8eb0aed1f5c31f680b486528d54779feceint, 1, q());
    assert(x28 == 0x476396398658e11e1e6c0533092118979b578a62edf4db19fa419982ea2ecae5int);
    assert(e28 == 0x73eda753299d7d483339d80809a1nat);
}

/// A part of the way to the next power.
#[verifier::rlimit(60)]
proof fn lemma_pow_modulus_half_step_part_8()
    ensures
        pow_mod(c0(), 0x73eda753299d7d483339d80809a1d805nat, q()) == 0x5193c83d6def7955f5315b9240efea118acfd833fa042db9569b7cbe40214287int,
{
    lemma_pow_modulus_half_step_part_7();
    let e28: nat = 0x73eda753299d7d483339d80809a1nat;
    let x28: int = 0x476396398658e11e1e6c0533092118979b578a62edf4db19fa419982ea2ecae5int;
    lemma_pow_mod_window(c0(), x28, e28, 13, q());
    let e29: nat = 16 * e28 + 13;
    let x29: int = window(c0(), 0x476396398658e11e1e6c0533092118979b578a62edf4db19fa419982ea2ecae5int, 13, q());
    assert(x29 == 0x2e620d45bc29f9b7ec5da8742c6173a1cce44aff6532e4ef79df0a1d75815292int);
    lemma_pow_mod_window(c0(), x29, e29, 8, q());
    let e30: nat = 16 * e29 + 8;
    let x30: int = window(c0(), 0x2e620d45bc29f9b7ec5da8742c6173a1cce44aff6532e4ef79df0a1d75815292int, 8, q());
    assert(x30 == 0x11483b49cd8c9aa2f22c744cb30b66949777d67fafc5bc6043028262e17b4653int);
    lemma_pow_mod_window(c0(), x30, e30, 0, q());
    let e31: nat = 16 * e30 + 0;
    let x31: int = window(c0(), 0x11483b49cd8c9aa2f22c744cb30b66949777d67fafc5bc6043028262e17b4653int, 0, q());
    assert(x31 == 0xf50b7f84144c3ca4bc22d81d2e85babe5b74f764405512232e1c0d1c133a4feint);
    lemma_pow_mod_window(c0(), x31, e31, 5, q());
    let e32: nat = 16 * e31 + 5;
    let x32: int = window(c0(), 0xf50b7f84144c3ca4bc22d81d2e85babe5b74f764405512232e1c0d1c133a4feint, 5, q());
    assert(x32 == 0x5193c83d6def7955f5315b9240efea118acfd833fa042db9569b7cbe40214287int);
    assert(e32 == 0x73eda753299d7d483339d80809a1d805nat);
}

/// A part of the way to the next power.
#[verifier::rlimit(60)]
proof fn lemma_pow_modulus_half_step_part_9()
    ensures
        pow_mod(c0(), 0x73eda753299d7d483339d80809a1d80553bdnat, q()) == 0x137f132f47ae25bb11b215c565cc08e68531351d36ab2c8ef3eba411b04ecf6cint,
{
    lemma_pow_modulus_half_step_part_8();
    let e32: nat = 0x73eda753299d7d483339d80809a1d805nat;
    let x32: int = 0x5193c83d6def7955f5315b9240efea118acfd833fa042db9569b7cbe40214287int;
    lemma_pow_mod_window(c0(), x32, e32, 5, q());
    let e33: nat = 16 * e32 + 5;
    let x33: int = window(c0(), 0x5193c83d6def7955f5315b9240efea118acfd833fa042db9569b7cbe40214287int, 5, q());
    assert(x33 == 0x6f77a7d65d0ba054a3288ef1d402185c45f491a7e2f407232ef8b7752774cbeaint);
    lemma_pow_mod_window(c0(), x33, e33, 3, q());
    let e34: nat = 16 * e33 + 3;
    let x34: int = window(c0(), 0x6f77a7d65d0ba054a3288ef1d402185c45f491a7e2f407232ef8b7752774cbeaint, 3, q());
    assert(x34 == 0x6360b18128326119ac1b1c7387f0c3e94b9f953d7d32aa475cf349fe517c7565int);
    lemma_pow_mod_window(c0(), x34, e34, 11, q());
    let e35: nat = 16 * e34 + 11;
    let x35: int = window(c0(), 0x6360b18128326119ac1b1c7387f0c3e94b9f953d7d32aa475cf349fe517c7565int, 11, q());
    assert(x35 == 0x2d5044cd514a16e2182b9234c5f4c0bd6d49511cea3f7c3a0250cdbb36aad119int);
    lemma_pow_mod_window(c0(), x35, e35, 13, q());
    let e36: nat = 16 * e35 + 13;
    let x36: int = window(c0(), 0x2d5044cd514a16e2182b9234c5f4c0bd6d49511cea3f7c3a0250cdbb36aad119int, 13, q());
    assert(x36 == 0x137f132f47ae25bb11b215c565cc08e68531351d36ab2c8ef3eba411b04ecf6cint);
    assert(e36 == 0x73eda753299d7d483339d80809a1d80553bdnat);
}

/// A part of the way to the next power.
#[verifier::rlimit(60)]
proof fn lemma_pow_modulus_half_step_part_10()
    ensures
        pow_mod(c0(), 0x73eda753299d7d483339d80809a1d80553bda402nat, q()) == 0x6aeb4c26022b31cc18665f0715c6e3ac34c0726c82ef961e523a06bfb7992357int,
{
    lemma_pow_modulus_half_step_part_9();
    let e36: nat = 0x73eda753299d7d483339d80809a1d80553bdnat;
    let x36: int = 0x137f132f47ae25bb11b215c565cc08e68531351d36ab2c8ef3eba411b04ecf6cint;
    lemma_pow_mod_window(c0(), x36, e36, 10, q());
    let e37: nat = 16 * e36 + 10;
    let x37: int = window(c0(), 0x137f132f47ae25bb11b215c565cc08e68531351d36ab2c8ef3eba411b04ecf6cint, 10, q());
    assert(x37 == 0x3e1058c87dc27e044829ccb5fdaac4933fe06efc20e7e74799fc4d7dccabeae6int);
    lemma_pow_mod_window(c0(), x37, e37, 4, q());
    let e38: nat = 16 * e37 + 4;
    let x38: int = window(c0(), 0x3e1058c87dc27e044829ccb5fdaac4933fe06efc20e7e74799fc4d7dccabeae6int, 4, q());
    assert(x38 == 0x48858ce43f632e7a7afe86c67d8f0233121979c5bd64e723bf725f311b69447aint);
    lemma_pow_mod_window(c0(), x38, e38, 0, q());
    let e39: nat = 16 * e38 + 0;
    let x39: int = window(c0(), 0x48858ce43f632e7a7afe86c67d8f0233121979c5bd64e723bf725f311b69447aint, 0, q());
    assert(x39 == 0x3a4114aef0bc74beea5abd6729e1f60f4a5e1bea5157ecd8a395087f3c99b14bint);
    lemma_pow_mod_window(c0(), x39, e39, 2, q());
    let e40: nat = 16 * e39 + 2;
    let x40: int = window(c0(), 0x3a4114aef0bc74beea5abd6729e1f60f4a5e1bea5157ecd8a395087f3c99b14bint, 2, q());
    assert(x40 == 0x6aeb4c26022b31cc18665f0715c6e3ac34c0726c82ef961e523a06bfb7992357int);
    assert(e40 == 0x73eda753299d7d483339d80809a1d80553bda402nat);
}

/// A part of the way to the next power.
#[verifier::rlimit(60)]
proof fn lemma_pow_modulus_half_step_part_11()
    ensures
        pow_mod(c0(), 0x73eda753299d7d483339d80809a1d80553bda402fffenat, q()) == 0x13174a46a49cc2d0bdb3e642395ec937f86683fca4248544565c4031c611b45eint,
{
    lemma_pow_modulus_half_step_part_10();
    let e40: nat = 0x73eda753299d7d483339d80809a1d80553bda402nat;
    let x40: int = 0x6aeb4c26022b31cc18665f0715c6e3ac34c0726c82ef961e523a06bfb7992357int;
    lemma_pow_mod_window(c0(), x40, e40, 15, q());
    let e41: nat = 16 * e40 + 15;
    let x41: int = window(c0(), 0x6aeb4c26022b31cc18665f0715c6e3ac34c0726c82ef961e523a06bfb7992357int, 15, q());
    assert(x41 == 0x231f4b00ea0aa838d9989b3d90965d0a224daa5a37f6f810c343abd9e7e30768int);
    lemma_pow_mod_window(c0(), x41, e41, 15, q());
    let e42: nat = 16 * e41 + 15;
    let x42: int = window(c0(), 0x231f4b00ea0aa838d9989b3d90965d0a224daa5a37f6f810c343abd9e7e30768int, 15, q());
    assert(x42 == 0x5c03d16690a2e960261367ca457b82c01a6942f2cce282f80e3dc78a7f8447f6int);
    lemma_pow_mod_window(c0(), x42, e42, 15, q());
    let e43: nat = 16 * e42 + 15;
    let x43: int = window(c0(), 0x5c03d16690a2e960261367ca457b82c01a6942f2cce282f80e3dc78a7f8447f6int, 15, q());
    assert(x43 == 0x182cc4bc5cd595498dc7cbb3d1993913666ec61b8155ccc8d2317f0929eed42bint);
    lemma_pow_mod_window(c0(), x43, e43, 14, q());
    let e44: nat = 16 * e43 + 14;
    let x44: int = window(c0(), 0x182cc4bc5cd595498dc7cbb3d1993913666ec61b8155ccc8d2317f0929eed42bint, 14, q());
    assert(x44 == 0x13174a46a49cc2d0bdb3e642395ec937f86683fca4248544565c4031c611b45eint);
    assert(e44 == 0x73eda753299d7d483339d80809a1d80553bda402fffenat);
}

/// A part of the way to the next power.
#[verifier::rlimit(60)]
proof fn lemma_pow_modulus_half_step_part_12()
    ensures
        pow_mod(c0(), 0x73eda753299d7d483339d80809a1d80553bda402fffe5bfenat, q()) == 0x7d60b97e0c14821e1f66bdc9d317747afafcea9f6b2eb3a503aaf8d2aa8280eint,
{
    lemma_pow_modulus_half_step_part_11();
    let e44: nat = 0x73eda753299d7d483339d80809a1d80553bda402fffenat;
    let x44: int = 0x13174a46a49cc2d0bdb3e642395ec937f86683fca4248544565c4031c611b45eint;
    lemma_pow_mod_window(c0(), x44, e44, 5, q());
    let e45: nat = 16 * e44 + 5;
    let x45: int = window(c0(), 0x13174a46a49cc2d0bdb3e642395ec937f86683fca4248544565c4031c611b45eint, 5, q());
    assert(x45 == 0x156022b121c3c1da20e470baf1bccba781e96c41dbc2d2f2574b2b508c8126c8int);
    lemma_pow_mod_window(c0(), x45, e45, 11, q());
    let e46: nat = 16 * e45 + 11;
    let x46: int = window(c0(), 0x156022b121c3c1da20e470baf1bccba781e96c41dbc2d2f2574b2b508c8126c8int, 11, q());
    assert(x46 == 0x1fa203b13e42adf55c4eeb3d2a5b0665f84da927b1585092b8b9bbc23753dc83int);
    lemma_pow_mod_window(c0(), x46, e46, 15, q());
    let e47: nat = 16 * e46 + 15;
    let x47: int = window(c0(), 0x1fa203b13e42adf55c4eeb3d2a5b0665f84da927b1585092b8b9bbc23753dc83int, 15, q());
    assert(x47 == 0x3543bc31c50efeb266d02f793f04517c1edc2dbf786ba1300a3e4ab0d01ae85dint);
    lemma_pow_mod_window(c0(), x47, e47, 14, q());
    let e48: nat = 16 * e47 + 14;
    let x48: int = window(c0(), 0x3543bc31c50efeb266d02f793f04517c1edc2dbf786ba1300a3e4ab0d01ae85dint, 14, q());
    assert(x48 == 0x7d60b97e0c14821e1f66bdc9d317747afafcea9f6b2eb3a503aaf8d2aa8280eint);
    assert(e48 == 0x73eda753299d7d483339d80809a1d80553bda402fffe5bfenat);
}

/// A part of the way to the next power.
#[verifier::rlimit(60)]
proof fn lemma_pow_modulus_half_step_part_13()
    ensures
        pow_mod(c0(), 0x73eda753299d7d483339d80809a1d80553bda402fffe5bfeffffnat, q()) == 0x5c745b43e11f7b75b6a9208f6afe5bf7c316ab7e06778deb88d7191b43f797e1int,
{
    lemma_pow_modulus_half_step_part_12();
    let e48: nat = 0x73eda753299d7d483339d80809a1d80553bda402fffe5bfenat;
    let x48: int = 0x7d60b97e0c14821e1f66bdc9d317747afafcea9f6b2eb3a503aaf8d2aa8280eint;
    lemma_pow_mod_window(c0(), x48, e48, 15, q());
    let e49: nat = 16 * e48 + 15;
    let x49: int = window(c0(), 0x7d60b97e0c14821e1f66bdc9d317747afafcea9f6b2eb3a503aaf8d2aa8280eint, 15, q());
    assert(x49 == 0x4754b22627817c44d4b3e8c98b56aa00dadbc4c98bfec69965242e575395c93fint);
    lemma_pow_mod_window(c0(), x49, e49, 15, q());
    let e50: nat = 16 * e49 + 15;
    let x50: int = window(c0(), 0x4754b22627817c44d4b3e8c98b56aa00dadbc4c98bfec69965242e575395c93fint, 15, q());
    assert(x50 == 0x35ee1d93bb339dd8e7fd47c9ccdaab4c7f1b440453cf3c5b4d40b9eb979c331bint);
    lemma_pow_mod_window(c0(), x50, e50, 15, q());
    let e51: nat = 16 * e50 + 15;
    let x51: int = window(c0(), 0x35ee1d93bb339dd8e7fd47c9ccdaab4c7f1b440453cf3c5b4d40b9eb979c331bint, 15, q());
    assert(x51 == 0x528cbce4f2af3dafcc2c7baab5ed210a4bd6a7ad219e1d6cff81378ec257b152int);
    lemma_pow_mod_window(c0(), x51, e51, 15, q());
    let e52: nat = 16 * e51 + 15;
    let x52: int = window(c0(), 0x528cbce4f2af3dafcc2c7baab5ed210a4bd6a7ad219e1d6cff81378ec257b152int, 15, q());
    assert(x52 == 0x5c745b43e11f7b75b6a9208f6afe5bf7c316ab7e06778deb88d7191b43f797e1int);
    assert(e52 == 0x73eda753299d7d483339d80809a1d80553bda402fffe5bfeffffnat);
}

/// The power of the last with the odd part of `modulus() - 1` as the exponent.
#[verifier::rlimit(60)]
proof fn lemma_pow_modulus_half_step()
    ensures
        pow_mod(c0(), 0x73eda753299d7d483339d80809a1d80553bda402fffe5bfeffffffffnat, q()) == 0x73eda753299d7d483339d80809a1d80553bda402fffe5bfeffffffff00000000int,
{
    lemma_pow_modulus_half_step_part_13();
    let e52: nat = 0x73eda753299d7d483339d80809a1d80553bda402fffe5bfeffffnat;
    let x52: int = 0x5c745b43e11f7b75b6a9208f6afe5bf7c316ab7e06778deb88d7191b43f797e1int;
    lemma_pow_mod_window(c0(), x52, e52, 15, q());
    let e53: nat = 16 * e52 + 15;
    let x53: int = window(c0(), 0x5c745b43e11f7b75b6a9208f6afe5bf7c316ab7e06778deb88d7191b43f797e1int, 15, q());
    assert(x53 == 0x37ba578d6fddf1d62436fb9d8642980e5a602f7b62dc6c7a9846a7ab61c68c8bint);
    lemma_pow_mod_window(c0(), x53, e53, 15, q());
    let e54: nat = 16 * e53 + 15;
    let x54: int = window(c0(), 0x37ba578d6fddf1d62436fb9d8642980e5a602f7b62dc6c7a9846a7ab61c68c8bint, 15, q());
    assert(x54 == 0x4948142c71fcdb6479ba9dda517dca657fe4cc9f2ec440e848b96773bc34b68int);
    lemma_pow_mod_window(c0(), x54, e54, 15, q());
    let e55: nat = 16 * e54 + 15;
    let x55: int = window(c0(), 0x4948142c71fcdb6479ba9dda517dca657fe4cc9f2ec440e848b96773bc34b68int, 15, q());
    assert(x55 == 0x2c3aca73082f512368e2e8b32aee16b37576afed51b7a832eed67266950ce1baint);
    lemma_pow_mod_window(c0(), x55, e55, 15, q());
    let e56: nat = 16 * e55 + 15;
    let x56: int = window(c0(), 0x2c3aca73082f512368e2e8b32aee16b37576afed51b7a832eed67266950ce1baint, 15, q());
    assert(x56 == 0x73eda753299d7d483339d80809a1d80553bda402fffe5bfeffffffff00000000int);
    assert(e56 == 0x73eda753299d7d483339d80809a1d80553bda402fffe5bfeffffffffnat);
}

/// Seven to the power of half of `modulus() - 1` is minus one.
proof fn lemma_pow_modulus_without_2()
    ensures
        pow_mod(7, 0x39f6d3a994cebea4199cec0404d0ec02a9ded2017fff2dff7fffffff80000000nat, 0x73eda753299d7d483339d80809a1d80553bda402fffe5bfeffffffff00000001int) == 0x73eda753299d7d483339d80809a1d80553bda402fffe5bfeffffffff00000000int,
{
    lemma_pow_modulus_2_31();
    lemma_pow_modulus_half_step();
    lemma_pow_mod_chain(7, 0x80000000nat, 0x73eda753299d7d483339d80809a1d80553bda402fffe5bfeffffffffnat, 0x73eda753299d7d483339d80809a1d80553bda402fffe5bfeffffffff00000001int, 0x46e02401a9194f3106d1137895c1d407deff7dc6ff0f95c4bb188d53056fd0d8int, 0x73eda753299d7d483339d80809a1d80553bda402fffe5bfeffffffff00000000int);
    assert(0x80000000nat * 0x73eda753299d7d483339d80809a1d80553bda402fffe5bfeffffffffnat == 0x39f6d3a994cebea4199cec0404d0ec02a9ded2017fff2dff7fffffff80000000nat) by (nonlinear_arith);
}

#[verifier::inline]
spec fn c1() -> int {
    0x73eda753299d7d483339d80809a1d80553bda402fffe5bfeffffffff00000000int
}

/// The square of minus one.
#[verifier::rlimit(60)]
proof fn lemma_pow_modulus_minus_one_squared()
    ensures
        pow_mod(c1(), 2nat, q()) == 1int,
{
    let e0: nat = 0nat;
    let x0: int = 1int;
    lemma_pow_mod_window(c1(), x0, e0, 2, q());
    let e1: nat = 16 * e0 + 2;
    let x1: int = window(c1(), 1int, 2, q());
    assert(x1 == 1int);
    assert(e1 == 2nat);
}

/// Seven to the power `modulus() - 1` is one.
proof fn lemma_pow_modulus_full()
    ensures
        pow_mod(7, 0x73eda753299d7d483339d80809a1d80553bda402fffe5bfeffffffff00000000nat, 0x73eda753299d7d483339d80809a1d80553bda402fffe5bfeffffffff00000001int) == 1,
{
    lemma_pow_modulus_without_2();
    lemma_pow_modulus_minus_one_squared();
    lemma_pow_mod_chain(7, 0x39f6d3a994cebea4199cec0404d0ec02a9ded2017fff2dff7fffffff80000000nat, 2, 0x73eda753299d7d483339d80809a1d80553bda402fffe5bfeffffffff00000001int, 0x73eda753299d7d483339d80809a1d80553bda402fffe5bfeffffffff00000000int, 1);
    assert(0x39f6d3a994cebea4199cec0404d0ec02a9ded2017fff2dff7fffffff80000000nat * 2 == 0x73eda753299d7d483339d80809a1d80553bda402fffe5bfeffffffff00000000nat) by (nonlinear_arith);
}

/// A part of the way to the next power.
#[verifier::rlimit(60)]
proof fn lemma_pow_modulus_2_32_part_1()
    ensures
        pow_mod(7int, 4096nat, q()) == 0x5238ba785063e217812b41448426fe8aabb0d6e6b743db253683decc3f41b173int,
{
    let e0: nat = 0nat;
    let x0: int = 1int;
    lemma_pow_mod_window(7int, x0, e0, 1, q());
    let e1: nat = 16 * e0 + 1;
    let x1: int = window(7int, 1int, 1, q());
    assert(x1 == 7int);
    lemma_pow_mod_window(7int, x1, e1, 0, q());
    let e2: nat = 16 * e1 + 0;
    let x2: int = window(7int, 7int, 0, q());
    assert(x2 == 0x1e39a5057d81int);
    lemma_pow_mod_window(7int, x2, e2, 0, q());
    let e3: nat = 16 * e2 + 0;
    let x3: int = window(7int, 0x1e39a5057d81int, 0, q());
    assert(x3 == 0x4a789ea4fdc7ccf2f98a0632d8c6ed8905fb69fe4f4b57717cff0cd340c8e6dint);
    lemma_pow_mod_window(7int, x3, e3, 0, q());
    let e4: nat = 16 * e3 + 0;
    let x4: int = window(7int, 0x4a789ea4fdc7ccf2f98a0632d8c6ed8905fb69fe4f4b57717cff0cd340c8e6dint, 0, q());
    assert(x4 == 0x5238ba785063e217812b41448426fe8aabb0d6e6b743db253683decc3f41b173int);
    assert(e4 == 4096nat);
}

/// A part of the way to the next power.
#[verifier::rlimit(60)]
proof fn lemma_pow_modulus_2_32_part_2()
    ensures
        pow_mod(7int, 0x10000000nat, q()) == 0x689f65808ca09717b3829a115bd0634cb70b4a5ea3e0c94cdcf15f2f4e706efeint,
{
    lemma_pow_modulus_2_32_part_1();
    let e4: nat = 4096nat;
    let x4: int = 0x5238ba785063e217812b41448426fe8aabb0d6e6b743db253683decc3f41b173int;
    lemma_pow_mod_window(7int, x4, e4, 0, q());
    let e5: nat = 16 * e4 + 0;
    let x5: int = window(7int, 0x5238ba785063e217812b41448426fe8aabb0d6e6b743db253683decc3f41b173int, 0, q());
    assert(x5 == 0xeda5c059add22bd06c653a3a30dc6c47b749f3444a3f53ebaf3b58a7efb134fint);
    lemma_pow_mod_window(7int, x5, e5, 0, q());
    let e6: nat = 16 * e5 + 0;
    let x6: int = window(7int, 0xeda5c059add22bd06c653a3a30dc6c47b749f3444a3f53ebaf3b58a7efb134fint, 0, q());
    assert(x6 == 0x628fc184374a1219e85d9e943d57d0c20bad4d8f813859f6121b51c927eaa4dcint);
    lemma_pow_mod_window(7int, x6, e6, 0, q());
    let e7: nat = 16 * e6 + 0;
    let x7: int = window(7int, 0x628fc184374a1219e85d9e943d57d0c20bad4d8f813859f6121b51c927eaa4dcint, 0, q());
    assert(x7 == 0x429265f1d3e7fa86a1fadf67d487e6d964d94839da7a182571aadd3d0c035396int);
    lemma_pow_mod_window(7int, x7, e7, 0, q());
    let e8: nat = 16 * e7 + 0;
    let x8: int = window(7int, 0x429265f1d3e7fa86a1fadf67d487e6d964d94839da7a182571aadd3d0c035396int, 0, q());
    assert(x8 == 0x689f65808ca09717b3829a115bd0634cb70b4a5ea3e0c94cdcf15f2f4e706efeint);
    assert(e8 == 0x10000000nat);
}

/// Seven to the power `2^32`.
#[verifier::rlimit(60)]
proof fn lemma_pow_modulus_2_32()
    ensures
        pow_mod(7int, 0x100000000nat, q()) == 0x8634d0aa021aaf843cab354fabb0062f6502437c6a09c006c083479590189d7int,
{
    lemma_pow_modulus_2_32_part_2();
    let e8: nat = 0x10000000nat;
    let x8: int = 0x689f65808ca09717b3829a115bd0634cb70b4a5ea3e0c94cdcf15f2f4e706efeint;
    lemma_pow_mod_window(7int, x8, e8, 0, q());
    let e9: nat = 16 * e8 + 0;
    let x9: int = window(7int, 0x689f65808ca09717b3829a115bd0634cb70b4a5ea3e0c94cdcf15f2f4e706efeint, 0, q());
    assert(x9 == 0x8634d0aa021aaf843cab354fabb0062f6502437c6a09c006c083479590189d7int);
    assert(e9 == 0x100000000nat);
}

#[verifier::inline]
spec fn c2() -> int {
    0x8634d0aa021aaf843cab354fabb0062f6502437c6a09c006c083479590189d7int
}

/// A part of the way to the next power.
#[verifier::rlimit(60)]
proof fn lemma_pow_modulus_step_1_part_1()
    ensures
        pow_mod(c2(), 40738nat, q()) == 0x7264d0f29eb6a341ea328596447d268ae43fd589ed449b920fbc04944ba70096int,
{
    let e0: nat = 0nat;
    let x0: int = 1int;
    lemma_pow_mod_window(c2(), x0, e0, 9, q());
    let e1: nat = 16 * e0 + 9;
    let x1: int = window(c2(), 1int, 9, q());
    assert(x1 == 0x542cf8850768701f98530097babe5cd93f9dab4b35ad48fb95ba5b4c2a977a5bint);
    lemma_pow_mod_window(c2(), x1, e1, 15, q());
    let e2: nat = 16 * e1 + 15;
    let x2: int = window(c2(), 0x542cf8850768701f98530097babe5cd93f9dab4b35ad48fb95ba5b4c2a977a5bint, 15, q());
    assert(x2 == 0x3c0100f90ef34195f4a3419051942a059a60c565e5e1c653b0e1ed2793ca835bint);
    lemma_pow_mod_window(c2(), x2, e2, 2, q());
    let e3: nat = 16 * e2 + 2;
    let x3: int = window(c2(), 0x3c0100f90ef34195f4a3419051942a059a60c565e5e1c653b0e1ed2793ca835bint, 2, q());
    assert(x3 == 0xb048d7b3226da8dbfeedcc23f52b8644feb73c5d1cc0387cda4f75e22bfef52int);
    lemma_pow_mod_window(c2(), x3, e3, 2, q());
    let e4: nat = 16 * e3 + 2;
    let x4: int = window(c2(), 0xb048d7b3226da8dbfeedcc23f52b8644feb73c5d1cc0387cda4f75e22bfef52int, 2, q());
    assert(x4 == 0x7264d0f29eb6a341ea328596447d268ae43fd589ed449b920fbc04944ba70096int);
    assert(e4 == 40738nat);
}

/// A part of the way to the next power.
#[verifier::rlimit(60)]
proof fn lemma_pow_modulus_step_1_part_2()
    ensures
        pow_mod(c2(), 0x9f227d55nat, q()) == 0x2eedd5ac055048ef4b4068b0409d7c6f18a54b2aa5c5ff4ae489cab6c1823006int,
{
    lemma_pow_modulus_step_1_part_1();
    let e4: nat = 40738nat;
    let x4: int = 0x7264d0f29eb6a341ea328596447d268ae43fd589ed449b920fbc04944ba70096int;
    lemma_pow_mod_window(c2(), x4, e4, 7, q());
    let e5: nat = 16 * e4 + 7;
    let x5: int = window(c2(), 0x7264d0f29eb6a341ea328596447d268ae43fd589ed449b920fbc04944ba70096int, 7, q());
    assert(x5 == 0x278292e80153fe2e624b195dc0432e8d5bac0d941c2f8b259833e6eeddeb7633int);
    lemma_pow_mod_window(c2(), x5, e5, 13, q());
    let e6: nat = 16 * e5 + 13;
    let x6: int = window(c2(), 0x278292e80153fe2e624b195dc0432e8d5bac0d941c2f8b259833e6eeddeb7633int, 13, q());
    assert(x6 == 0x21efac2d3fe9740e66063db83d968eaa4d0b79e880b6a326ebb33707567e4e61int);
    lemma_pow_mod_window(c2(), x6, e6, 5, q());
    let e7: nat = 16 * e6 + 5;
    let x7: int = window(c2(), 0x21efac2d3fe9740e66063db83d968eaa4d0b79e880b6a326ebb33707567e4e61int, 5, q());
    assert(x7 == 0x148d732cd6047d91104ba611a7dd89b907ceddb4fab8dfb5d1a8c4dd4c738bcaint);
    lemma_pow_mod_window(c2(), x7, e7, 5, q());
    let e8: nat = 16 * e7 + 5;
    let x8: int = window(c2(), 0x148d732cd6047d91104ba611a7dd89b907ceddb4fab8dfb5d1a8c4dd4c738bcaint, 5, q());
    assert(x8 == 0x2eedd5ac055048ef4b4068b0409d7c6f18a54b2aa5c5ff4ae489cab6c1823006int);
    assert(e8 == 0x9f227d55nat);
}

/// A part of the way to the next power.
#[verifier::rlimit(60)]
proof fn lemma_pow_modulus_step_1_part_3()
    ensures
        pow_mod(c2(), 0x9f227d55b590nat, q()) == 0x1ea3724d0ed7faecbcab0a1c59646e58f081081ef46ee3475b0fe6192e74bc0cint,
{
    lemma_pow_modulus_step_1_part_2();
    let e8: nat = 0x9f227d55nat;
    let x8: int = 0x2eedd5ac055048ef4b4068b0409d7c6f18a54b2aa5c5ff4ae489cab6c1823006int;
    lemma_pow_mod_window(c2(), x8, e8, 11, q());
    let e9: nat = 16 * e8 + 11;
    let x9: int = window(c2(), 0x2eedd5ac055048ef4b4068b0409d7c6f18a54b2aa5c5ff4ae489cab6c1823006int, 11, q());
    assert(x9 == 0x3f272f90286fe50f294331220cd7ac512e393db756a2fa1e70ed0ee22321a098int);
    lemma_pow_mod_window(c2(), x9, e9, 5, q());
    let e10: nat = 16 * e9 + 5;
    let x10: int = window(c2(), 0x3f272f90286fe50f294331220cd7ac512e393db756a2fa1e70ed0ee22321a098int, 5, q());
    assert(x10 == 0x6d26187917ff0761091f1fbc8f5e81686f888d5fad976063babc4600853b4382int);
    lemma_pow_mod_window(c2(), x10, e10, 9, q());
    let e11: nat = 16 * e10 + 9;
    let x11: int = window(c2(), 0x6d26187917ff0761091f1fbc8f5e81686f888d5fad976063babc4600853b4382int, 9, q());
    assert(x11 == 0x1718689ea03aa6cccf4eae519acc6d78794f60dc9ccef38c079a0470cf0f2babint);
    lemma_pow_mod_window(c2(), x11, e11, 0, q());
    let e12: nat = 16 * e11 + 0;
    let x12: int = window(c2(), 0x1718689ea03aa6cccf4eae519acc6d78794f60dc9ccef38c079a0470cf0f2babint, 0, q());
    assert(x12 == 0x1ea3724d0ed7faecbcab0a1c59646e58f081081ef46ee3475b0fe6192e74bc0cint);
    assert(e12 == 0x9f227d55b590nat);
}

/// A part of the way to the next power.
#[verifier::rlimit(60)]
proof fn lemma_pow_modulus_step_1_part_4()
    ensures
        pow_mod(c2(), 0x9f227d55b5907e9anat, q()) == 0x45dde35b9ccdbe67a3d86ae185cb9dd41445d311476c23ec43496c37c833f83dint,
{
    lemma_pow_modulus_step_1_part_3();
    let e12: nat = 0x9f227d55b590nat;
    let x12: int = 0x1ea3724d0ed7faecbcab0a1c59646e58f081081ef46ee3475b0fe6192e74bc0cint;
    lemma_pow_mod_window(c2(), x12, e12, 7, q());
    let e13: nat = 16 * e12 + 7;
    let x13: int = window(c2(), 0x1ea3724d0ed7faecbcab0a1c59646e58f081081ef46ee3475b0fe6192e74bc0cint, 7, q());
    assert(x13 == 0x57c3aa7303e9dca05fae73af468289c1b4dcc281d68037411db415a2ce97de75int);
    lemma_pow_mod_window(c2(), x13, e13, 14, q());
    let e14: nat = 16 * e13 + 14;
    let x14: int = window(c2(), 0x57c3aa7303e9dca05fae73af468289c1b4dcc281d68037411db415a2ce97de75int, 14, q());
    assert(x14 == 0x327eb5583f8a41b6b405816aea08eca09ae7fd310778c4b5f3b75c6c0d684fa7int);
    lemma_pow_mod_window(c2(), x14, e14, 9, q());
    let e15: nat = 16 * e14 + 9;
    let x15: int = window(c2(), 0x327eb5583f8a41b6b405816aea08eca09ae7fd310778c4b5f3b75c6c0d684fa7int, 9, q());
    assert(x15 == 0x713bbfc750cf9e94d180074da6b83d4dc31420ec3b5a90ef795ab4cbcb78c2f0int);
    lemma_pow_mod_window(c2(), x15, e15, 10, q());
    let e16: nat = 16 * e15 + 10;
    let x16: int = window(c2(), 0x713bbfc750cf9e94d180074da6b83d4dc31420ec3b5a90ef795ab4cbcb78c2f0int, 10, q());
    assert(x16 == 0x45dde35b9ccdbe67a3d86ae185cb9dd41445d311476c23ec43496c37c833f83dint);
    assert(e16 == 0x9f227d55b5907e9anat);
}

/// A part of the way to the next power.
#[verifier::rlimit(60)]
proof fn lemma_pow_modulus_step_1_part_5()
    ensures
        pow_mod(c2(), 0x9f227d55b5907e9a126fnat, q()) == 0x30b9cd88675b9deb89a3b0d48a1b6cd09a3247fcae9c776df3ca3ca90312b1d3int,
{
    lemma_pow_modulus_step_1_part_4();
    let e16: nat = 0x9f227d55b5907e9anat;
    let x16: int = 0x45dde35b9ccdbe67a3d86ae185cb9dd41445d311476c23ec43496c37c833f83dint;
    lemma_pow_mod_window(c2(), x16, e16, 1, q());
    let e17: nat = 16 * e16 + 1;
    let x17: int = window(c2(), 0x45dde35b9ccdbe67a3d86ae185cb9dd41445d311476c23ec43496c37c833f83dint, 1, q());
    assert(x17 == 0x32e6fed910c1a485894bbcfea2b6bdf35dbb79a27e40147ae2c73579f75f5cbbint);
    lemma_pow_mod_window(c2(), x17, e17, 2, q());
    let e18: nat = 16 * e17 + 2;
    let x18: int = window(c2(), 0x32e6fed910c1a485894bbcfea2b6bdf35dbb79a27e40147ae2c73579f75f5cbbint, 2, q());
    assert(x18 == 0x10136b65e07d7fc3a93b0d2b82dacef74933f66856322da82b761e0012f568c1int);
    lemma_pow_mod_window(c2(), x18, e18, 6, q());
    let e19: nat = 16 * e18 + 6;
    let x19: int = window(c2(), 0x10136b65e07d7fc3a93b0d2b82dacef74933f66856322da82b761e0012f568c1int, 6, q());
    assert(x19 == 0x3e53120f3751b4adbfa5db77a98d1ddabe2b4bfcb84fb6b6514e6d9c1d8bc630int);
    lemma_pow_mod_window(c2(), x19, e19, 15, q());
    let e20: nat = 16 * e19 + 15;
    let x20: int = window(c2(), 0x3e53120f3751b4adbfa5db77a98d1ddabe2b4bfcb84fb6b6514e6d9c1d8bc630int, 15, q());
    assert(x20 == 0x30b9cd88675b9deb89a3b0d48a1b6cd09a3247fcae9c776df3ca3ca90312b1d3int);
    assert(e20 == 0x9f227d55b5907e9a126fnat);
}

/// A part of the way to the next power.
#[verifier::rlimit(60)]
proof fn lemma_pow_modulus_step_1_part_6()
    ensures
        pow_mod(c2(), 0x9f227d55b5907e9a126f51e2nat, q()) == 0x2ec5936297a9dd8debc9bbb71c39bd652b7a9b2983fc028fc1995c8f9684516int,
{
    lemma_pow_modulus_step_1_part_5();
    let e20: nat = 0x9f227d55b5907e9a126fnat;
    let x20: int = 0x30b9cd88675b9deb89a3b0d48a1b6cd09a3247fcae9c776df3ca3ca90312b1d3int;
    lemma_pow_mod_window(c2(), x20, e20, 5, q());
    let e21: nat = 16 * e20 + 5;
    let x21: int = window(c2(), 0x30b9cd88675b9deb89a3b0d48a1b6cd09a3247fcae9c776df3ca3ca90312b1d3int, 5, q());
    assert(x21 == 0x591dafa6d8a2f9d52eedc58c081ef48f117a1bd2da78267587df3afc1e527905int);
    lemma_pow_mod_window(c2(), x21, e21, 1, q());
    let e22: nat = 16 * e21 + 1;
    let x22: int = window(c2(), 0x591dafa6d8a2f9d52eedc58c081ef48f117a1bd2da78267587df3afc1e527905int, 1, q());
    assert(x22 == 0x116fb959dd9339744715653875b5a79f6b50ef98005b1407e7200c240e55ffb1int);
    lemma_pow_mod_window(c2(), x22, e22, 14, q());
    let e23: nat = 16 * e22 + 14;
    let x23: int = window(c2(), 0x116fb959dd9339744715653875b5a79f6b50ef98005b1407e7200c240e55ffb1int, 14, q());
    assert(x23 == 0x1f89609bf7f8e1a1c015dbadb8840f117bf7b88b7e112e78b1a5048d597ad2c8int);
    lemma_pow_mod_window(c2(), x23, e23, 2, q());
    let e24: nat = 16 * e23 + 2;
    let x24: int = window(c2(), 0x1f89609bf7f8e1a1c015dbadb8840f117bf7b88b7e112e78b1a5048d597ad2c8int, 2, q());
    assert(x24 == 0x2ec5936297a9dd8debc9bbb71c39bd652b7a9b2983fc028fc1995c8f9684516int);
    assert(e24 == 0x9f227d55b5907e9a126f51e2nat);
}

/// A part of the way to the next power.
#[verifier::rlimit(60)]
proof fn lemma_pow_modulus_step_1_part_7()
    ensures
        pow_mod(c2(), 0x9f227d55b5907e9a126f51e2e36dnat, q()) == 0x2df917f17a8de577f4642f506d7cede4fe075795ce35f9eec466c1f2580fe5a4int,
{
    lemma_pow_modulus_step_1_part_6();
    let e24: nat = 0x9f227d55b5907e9a126f51e2nat;
    let x24: int = 0x2ec5936297a9dd8debc9bbb71c39bd652b7a9b2983fc028fc1995c8f9684516int;
    lemma_pow_mod_window(c2(), x24, e24, 14, q());
    let e25: nat = 16 * e24 + 14;
    let x25: int = window(c2(), 0x2ec5936297a9dd8debc9bbb71c39bd652b7a9b2983fc028fc1995c8f9684516int, 14, q());
    assert(x25 == 0x632ad11243e11403c54c6d83870d21a0517f1b5fd63e50df6fd5aaa3d16f6e9fint);
    lemma_pow_mod_window(c2(), x25, e25, 3, q());
    let e26: nat = 16 * e25 + 3;
    let x26: int = window(c2(), 0x632ad11243e11403c54c6d83870d21a0517f1b5fd63e50df6fd5aaa3d16f6e9fint, 3, q());
    assert(x26 == 0x59b78112e35b7235b41c15e1269943b67400fc541d53d1ecef0d1045b8f6620int);
    lemma_pow_mod_window(c2(), x26, e26, 6, q());
    let e27: nat = 16 * e26 + 6;
    let x27: int = window(c2(), 0x59b78112e35b7235b41c15e1269943b67400fc541d53d1ecef0d1045b8f6620int, 6, q());
    assert(x27 == 0x1b33d7e4c86d2ed595cab466499cf635de04fe485b3c335e350486d90a399140int);
    lemma_pow_mod_window(c2(), x27, e27, 13, q());
    let e28: nat = 16 * e27 + 13;
    let x28: int = window(c2(), 0x1b33d7e4c86d2ed595cab466499cf635de04fe485b3c335e350486d90a399140int, 13, q());
    assert(x28 == 0x2df917f17a8de577f4642f506d7cede4fe075795ce35f9eec466c1f2580fe5a4int);
    assert(e28 == 0x9f227d55b5907e9a126f51e2e36dnat);
}

/// A part of the way to the next power.
#[verifier::rlimit(60)]
proof fn lemma_pow_modulus_step_1_part_8()
    ensures
        pow_mod(c2(), 0x9f227d55b5907e9a126f51e2e36d657dnat, q()) == 0x366ce3ff46235ffc2a3f68c994b9e419be96472de332a81d1549d546bd2d2d35int,
{
    lemma_pow_modulus_step_1_part_7();
    let e28: nat = 0x9f227d55b5907e9a126f51e2e36dnat;
    let x28: int = 0x2df917f17a8de577f4642f506d7cede4fe075795ce35f9eec466c1f2580fe5a4int;
    lemma_pow_mod_window(c2(), x28, e28, 6, q());
    let e29: nat = 16 * e28 + 6;
    let x29: int = window(c2(), 0x2df917f17a8de577f4642f506d7cede4fe075795ce35f9eec466c1f2580fe5a4int, 6, q());
    assert(x29 == 0x67ab59d3d220dbf0e3e7d8ae760fbe38d83cb34e14c2535f7a8db77a626a4df6int);
    lemma_pow_mod_window(c2(), x29, e29, 5, q());
    let e30: nat = 16 * e29 + 5;
    let x30: int = window(c2(), 0x67ab59d3d220dbf0e3e7d8ae760fbe38d83cb34e14c2535f7a8db77a626a4df6int, 5, q());
    assert(x30 == 0x44b5e6bf0aaa9aab17e7bb20d3ffe5ab570b821b6b70f4cfe4dcabaa94004449int);
    lemma_pow_mod_window(c2(), x30, e30, 7, q());
    let e31: nat = 16 * e30 + 7;
    let x31: int = window(c2(), 0x44b5e6bf0aaa9aab17e7bb20d3ffe5ab570b821b6b70f4cfe4dcabaa94004449int, 7, q());
    assert(x31 == 0x35b46d5c119f736a0791973a4598b28c4e77a44e23877848cdf8c96c7d55a603int);
    lemma_pow_mod_window(c2(), x31, e31, 13, q());
    let e32: nat = 16 * e31 + 13;
    let x32: int = window(c2(), 0x35b46d5c119f736a0791973a4598b28c4e77a44e23877848cdf8c96c7d55a603int, 13, q());
    assert(x32 == 0x366ce3ff46235ffc2a3f68c994b9e419be96472de332a81d1549d546bd2d2d35int);
    assert(e32 == 0x9f227d55b5907e9a126f51e2e36d657dnat);
}

/// A part of the way to the next power.
#[verifier::rlimit(60)]
proof fn lemma_pow_modulus_step_1_part_9()
    ensures
        pow_mod(c2(), 0x9f227d55b5907e9a126f51e2e36d657d8d5fnat, q()) == 0x3eaf4322495438ff4c6f4a788126c26fef81c7a92793eeb7cf885c49bd0bdd04int,
{
    lemma_pow_modulus_step_1_part_8();
    let e32: nat = 0x9f227d55b5907e9a126f51e2e36d657dnat;
    let x32: int = 0x366ce3ff46235ffc2a3f68c994b9e419be96472de332a81d1549d546bd2d2d35int;
    lemma_pow_mod_window(c2(), x32, e32, 8, q());
    let e33: nat = 16 * e32 + 8;
    let x33: int = window(c2(), 0x366ce3ff46235ffc2a3f68c994b9e419be96472de332a81d1549d546bd2d2d35int, 8, q());
    assert(x33 == 0x543eb9724612156b4f1a54d4a16d4e936c89b4ae08f86f7c7e88df61b1d47a47int);
    lemma_pow_mod_window(c2(), x33, e33, 13, q());
    let e34: nat = 16 * e33 + 13;
    let x34: int = window(c2(), 0x543eb9724612156b4f1a54d4a16d4e936c89b4ae08f86f7c7e88df61b1d47a47int, 13, q());
    assert(x34 == 0x1b319fb14dce78bdcb29e4b2c2e8025d529fdce35c492245e8186b8d7e56c847int);
    lemma_pow_mod_window(c2(), x34, e34, 5, q());
    let e35: nat = 16 * e34 + 5;
    let x35: int = window(c2(), 0x1b319fb14dce78bdcb29e4b2c2e8025d529fdce35c492245e8186b8d7e56c847int, 5, q());
    assert(x35 == 0x2125b412e1eed7c2b52fe2f32af36f399165b203d71a9721c68a01d948f04bd1int);
    lemma_pow_mod_window(c2(), x35, e35, 15, q());
    let e36: nat = 16 * e35 + 15;
    let x36: int = window(c2(), 0x2125b412e1eed7c2b52fe2f32af36f399165b203d71a9721c68a01d948f04bd1int, 15, q());
    assert(x36 == 0x3eaf4322495438ff4c6f4a788126c26fef81c7a92793eeb7cf885c49bd0bdd04int);
    assert(e36 == 0x9f227d55b5907e9a126f51e2e36d657d8d5fnat);
}

/// A part of the way to the next power.
#[verifier::rlimit(60)]
proof fn lemma_pow_modulus_step_1_part_10()
    ensures
        pow_mod(c2(), 0x9f227d55b5907e9a126f51e2e36d657d8d5f4371nat, q()) == 0x240423a30f064e58a13e933ffc21957352a91d19934cb26de00ecec6db9dcfb9int,
{
    lemma_pow_modulus_step_1_part_9();
    let e36: nat = 0x9f227d55b5907e9a126f51e2e36d657d8d5fnat;
    let x36: int = 0x3eaf4322495438ff4c6f4a788126c26fef81c7a92793eeb7cf885c49bd0bdd04int;
    lemma_pow_mod_window(c2(), x36, e36, 4, q());
    let e37: nat = 16 * e36 + 4;
    let x37: int = window(c2(), 0x3eaf4322495438ff4c6f4a788126c26fef81c7a92793eeb7cf885c49bd0bdd04int, 4, q());
    assert(x37 == 0x2f325e629cd5aafb98abe57d8d0e99a88e0db1f37d0942f55a92782028b1278int);
    lemma_pow_mod_window(c2(), x37, e37, 3, q());
    let e38: nat = 16 * e37 + 3;
    let x38: int = window(c2(), 0x2f325e629cd5aafb98abe57d8d0e99a88e0db1f37d0942f55a92782028b1278int, 3, q());
    assert(x38 == 0x57d1cdde8306841dff2e57e9a74867846a9e07e45425ff4d373801a55bb90f02int);
    lemma_pow_mod_window(c2(), x38, e38, 7, q());
    let e39: nat = 16 * e38 + 7;
    let x39: int = window(c2(), 0x57d1cdde8306841dff2e57e9a74867846a9e07e45425ff4d373801a55bb90f02int, 7, q());
    assert(x39 == 0x3a7a182493356add974902aed1cae0b2fdb5800da9d41cda8a06bc2b1dc49e8bint);
    lemma_pow_mod_window(c2(), x39, e39, 1, q());
    let e40: nat = 16 * e39 + 1;
    let x40: int = window(c2(), 0x3a7a182493356add974902aed1cae0b2fdb5800da9d41cda8a06bc2b1dc49e8bint, 1, q());
    assert(x40 == 0x240423a30f064e58a13e933ffc21957352a91d19934cb26de00ecec6db9dcfb9int);
    assert(e40 == 0x9f227d55b5907e9a126f51e2e36d657d8d5f4371nat);
}

/// A part of the way to the next power.
#[verifier::rlimit(60)]
proof fn lemma_pow_modulus_step_1_part_11()
    ensures
        pow_mod(c2(), 0x9f227d55b5907e9a126f51e2e36d657d8d5f437171e4nat, q()) == 0xc099fcc0d4f02ce9d0ffacef7b2127aa229567d0bc86bda330bf3d313d41d3cint,
{
    lemma_pow_modulus_step_1_part_10();
    let e40: nat = 0x9f227d55b5907e9a126f51e2e36d657d8d5f4371nat;
    let x40: int = 0x240423a30f064e58a13e933ffc21957352a91d19934cb26de00ecec6db9dcfb9int;
    lemma_pow_mod_window(c2(), x40, e40, 7, q());
    let e41: nat = 16 * e40 + 7;
    let x41: int = window(c2(), 0x240423a30f064e58a13e933ffc21957352a91d19934cb26de00ecec6db9dcfb9int, 7, q());
    assert(x41 == 0x4a0fcdd33445fe235c9801ca7a9ccd68661805c8d4069302ab23230987859401int);
    lemma_pow_mod_window(c2(), x41, e41, 1, q());
    let e42: nat = 16 * e41 + 1;
    let x42: int = window(c2(), 0x4a0fcdd33445fe235c9801ca7a9ccd68661805c8d4069302ab23230987859401int, 1, q());
    assert(x42 == 0x542328ff24929370bbbf9691c56495845cc39d77cd5fde22769825b621c6ef92int);
    lemma_pow_mod_window(c2(), x42, e42, 14, q());
    let e43: nat = 16 * e42 + 14;
    let x43: int = window(c2(), 0x542328ff24929370bbbf9691c56495845cc39d77cd5fde22769825b621c6ef92int, 14, q());
    assert(x43 == 0x1b2285f08692ffeb34adf0eb8ba680d929069fc33dd1bb6c3bbfa34842eea6b5int);
    lemma_pow_mod_window(c2(), x43, e43, 4, q());
    let e44: nat = 16 * e43 + 4;
    let x44: int = window(c2(), 0x1b2285f08692ffeb34adf0eb8ba680d929069fc33dd1bb6c3bbfa34842eea6b5int, 4, q());
    assert(x44 == 0xc099fcc0d4f02ce9d0ffacef7b2127aa229567d0bc86bda330bf3d313d41d3cint);
    assert(e44 == 0x9f227d55b5907e9a126f51e2e36d657d8d5f437171e4nat);
}

/// A power of a power of seven.
#[verifier::rlimit(60)]
proof fn lemma_pow_modulus_step_1()
    ensures
        pow_mod(c2(), 0x9f227d55b5907e9a126f51e2e36d657d8d5f437171e483nat, q()) == 0x737d73bdd3e2a2daed29f942451db67de71dddb0caf71bd72cef988545c0937dint,
{
    lemma_pow_modulus_step_1_part_11();
    let e44: nat = 0x9f227d55b5907e9a126f51e2e36d657d8d5f437171e4nat;
    let x44: int = 0xc099fcc0d4f02ce9d0ffacef7b2127aa229567d0bc86bda330bf3d313d41d3cint;
    lemma_pow_mod_window(c2(), x44, e44, 8, q());
    let e45: nat = 16 * e44 + 8;
    let x45: int = window(c2(), 0xc099fcc0d4f02ce9d0ffacef7b2127aa229567d0bc86bda330bf3d313d41d3cint, 8, q());
    assert(x45 == 0x2e9e239c3b3dce9c1ca395541dcba164b9c865bedd2e6c719a598d2e683f84f1int);
    lemma_pow_mod_window(c2(), x45, e45, 3, q());
    let e46: nat = 16 * e45 + 3;
    let x46: int = window(c2(), 0x2e9e239c3b3dce9c1ca395541dcba164b9c865bedd2e6c719a598d2e683f84f1int, 3, q());
    assert(x46 == 0x737d73bdd3e2a2daed29f942451db67de71dddb0caf71bd72cef988545c0937dint);
    assert(e46 == 0x9f227d55b5907e9a126f51e2e36d657d8d5f437171e483nat);
}

/// A power of seven on the way to the powers `(modulus() - 1) / r`.
proof fn lemma_pow_modulus_part_2()
    ensures
        pow_mod(7, 0x9f227d55b5907e9a126f51e2e36d657d8d5f437171e48300000000nat, 0x73eda753299d7d483339d80809a1d80553bda402fffe5bfeffffffff00000001int) == 0x737d73bdd3e2a2daed29f942451db67de71dddb0caf71bd72cef988545c0937dint,
{
    lemma_pow_modulus_2_32();
    lemma_pow_modulus_step_1();
    lemma_pow_mod_chain(7, 0x100000000nat, 0x9f227d55b5907e9a126f51e2e36d657d8d5f437171e483nat, 0x73eda753299d7d483339d80809a1d80553bda402fffe5bfeffffffff00000001int, 0x8634d0aa021aaf843cab354fabb0062f6502437c6a09c006c083479590189d7int, 0x737d73bdd3e2a2daed29f942451db67de71dddb0caf71bd72cef988545c0937dint);
    assert(0x100000000nat * 0x9f227d55b5907e9a126f51e2e36d657d8d5f437171e483nat == 0x9f227d55b5907e9a126f51e2e36d657d8d5f437171e48300000000nat) by (nonlinear_arith);
}

#[verifier::inline]
spec fn c3() -> int {
    0x737d73bdd3e2a2daed29f942451db67de71dddb0caf71bd72cef988545c0937dint
}

/// A part of the way to the next power.
#[verifier::rlimit(60)]
proof fn lemma_pow_modulus_step_3_part_1()
    ensures
        pow_mod(c3(), 23147nat, q()) == 0xc8d631847132a606ca33ace82dc8d2d0677f84e113a4f4d6f10a520fbda09f3int,
{
    let e0: nat = 0nat;
    let x0: int = 1int;
    lemma_pow_mod_window(c3(), x0, e0, 5, q());
    let e1: nat = 16 * e0 + 5;
    let x1: int = window(c3(), 1int, 5, q());
    assert(x1 == 0x595913d596d030a428cab89d89a7dd053fb51ae50a8479da9df56397b1d58c89int);
    lemma_pow_mod_window(c3(), x1, e1, 10, q());
    let e2: nat = 16 * e1 + 10;
    let x2: int = window(c3(), 0x595913d596d030a428cab89d89a7dd053fb51ae50a8479da9df56397b1d58c89int, 10, q());
    assert(x2 == 0x5705538c6de8ce8e7aeaebabbd637d15c612af44b22a795c95a34d20016f7673int);
    lemma_pow_mod_window(c3(), x2, e2, 6, q());
    let e3: nat = 16 * e2 + 6;
    let x3: int = window(c3(), 0x5705538c6de8ce8e7aeaebabbd637d15c612af44b22a795c95a34d20016f7673int, 6, q());
    assert(x3 == 0x7101e5814f2b9c5ecadbdec14689022217566c0f1f2067b49e38696dfd56a035int);
    lemma_pow_mod_window(c3(), x3, e3, 11, q());
    let e4: nat = 16 * e3 + 11;
    let x4: int = window(c3(), 0x7101e5814f2b9c5ecadbdec14689022217566c0f1f2067b49e38696dfd56a035int, 11, q());
    assert(x4 == 0xc8d631847132a606ca33ace82dc8d2d0677f84e113a4f4d6f10a520fbda09f3int);
    assert(e4 == 23147nat);
}

/// A part of the way to the next power.
#[verifier::rlimit(60)]
proof fn lemma_pow_modulus_step_3_part_2()
    ensures
        pow_mod(c3(), 0x5a6bd8f3nat, q()) == 0x4d7ba3f8dd54476c6bd27032fc394f40890eb9822aa8c2cb0ae6804742acd72cint,
{
    lemma_pow_modulus_step_3_part_1();
    let e4: nat = 23147nat;
    let x4: int = 0xc8d631847132a606ca33ace82dc8d2d0677f84e113a4f4d6f10a520fbda09f3int;
    lemma_pow_mod_window(c3(), x4, e4, 13, q());
    let e5: nat = 16 * e4 + 13;
    let x5: int = window(c3(), 0xc8d631847132a606ca33ace82dc8d2d0677f84e113a4f4d6f10a520fbda09f3int, 13, q());
    assert(x5 == 0x307b213c372f40db2aec481e4a1bb92d9a2d715c110cd6bfa3da533336c7607cint);
    lemma_pow_mod_window(c3(), x5, e5, 8, q());
    let e6: nat = 16 * e5 + 8;
    let x6: int = window(c3(), 0x307b213c372f40db2aec481e4a1bb92d9a2d715c110cd6bfa3da533336c7607cint, 8, q());
    assert(x6 == 0x64583888d942fa9a035caede483b843dc72c4e272bf17a24b963061d4367d7aeint);
    lemma_pow_mod_window(c3(), x6, e6, 15, q());
    let e7: nat = 16 * e6 + 15;
    let x7: int = window(c3(), 0x64583888d942fa9a035caede483b843dc72c4e272bf17a24b963061d4367d7aeint, 15, q());
    assert(x7 == 0x70a8f955a8d4e04da9411383ec304da0033205598975c726e3d9081bcf3eb20aint);
    lemma_pow_mod_window(c3(), x7, e7, 3, q());
    let e8: nat = 16 * e7 + 3;
    let x8: int = window(c3(), 0x70a8f955a8d4e04da9411383ec304da0033205598975c726e3d9081bcf3eb20aint, 3, q());
    assert(x8 == 0x4d7ba3f8dd54476c6bd27032fc394f40890eb9822aa8c2cb0ae6804742acd72cint);
    assert(e8 == 0x5a6bd8f3nat);
}

/// A power of a power of seven.
#[verifier::rlimit(60)]
proof fn lemma_pow_modulus_step_3()
    ensures
        pow_mod(c3(), 0x5a6bd8f35nat, q()) == 0x39b9f3636addbaad4c3e77a1ccc930a330f6ae57ec841d8d42157f00df63d988int,
{
    lemma_pow_modulus_step_3_part_2();
    let e8: nat = 0x5a6bd8f3nat;
    let x8: int = 0x4d7ba3f8dd54476c6bd27032fc394f40890eb9822aa8c2cb0ae6804742acd72cint;
    lemma_pow_mod_window(c3(), x8, e8, 5, q());
    let e9: nat = 16 * e8 + 5;
    let x9: int = window(c3(), 0x4d7ba3f8dd54476c6bd27032fc394f40890eb9822aa8c2cb0ae6804742acd72cint, 5, q());
    assert(x9 == 0x39b9f3636addbaad4c3e77a1ccc930a330f6ae57ec841d8d42157f00df63d988int);
    assert(e9 == 0x5a6bd8f35nat);
}

/// A power of seven on the way to the powers `(modulus() - 1) / r`.
proof fn lemma_pow_modulus_part_4()
    ensures
        pow_mod(7, 0x38352a56dddfc09f20982aae904e7840a4b909b3e0f7726c1f07c1f00000000nat, 0x73eda753299d7d483339d80809a1d80553bda402fffe5bfeffffffff00000001int) == 0x39b9f3636addbaad4c3e77a1ccc930a330f6ae57ec841d8d42157f00df63d988int,
{
    lemma_pow_modulus_part_2();
    lemma_pow_modulus_step_3();
    lemma_pow_mod_chain(7, 0x9f227d55b5907e9a126f51e2e36d657d8d5f437171e48300000000nat, 0x5a6bd8f35nat, 0x73eda753299d7d483339d80809a1d80553bda402fffe5bfeffffffff00000001int, 0x737d73bdd3e2a2daed29f942451db67de71dddb0caf71bd72cef988545c0937dint, 0x39b9f3636addbaad4c3e77a1ccc930a330f6ae57ec841d8d42157f00df63d988int);
    assert(0x9f227d55b5907e9a126f51e2e36d657d8d5f437171e48300000000nat * 0x5a6bd8f35nat == 0x38352a56dddfc09f20982aae904e7840a4b909b3e0f7726c1f07c1f00000000nat) by (nonlinear_arith);
}

#[verifier::inline]
spec fn c4() -> int {
    0x39b9f3636addbaad4c3e77a1ccc930a330f6ae57ec841d8d42157f00df63d988int
}

/// A power of a power of seven.
#[verifier::rlimit(60)]
proof fn lemma_pow_modulus_step_5()
    ensures
        pow_mod(c4(), 11nat, q()) == 0xac45a4010001a40200000000ffffffffint,
{
    let e0: nat = 0nat;
    let x0: int = 1int;
    lemma_pow_mod_window(c4(), x0, e0, 11, q());
    let e1: nat = 16 * e0 + 11;
    let x1: int = window(c4(), 1int, 11, q());
    assert(x1 == 0xac45a4010001a40200000000ffffffffint);
    assert(e1 == 11nat);
}

/// A power of seven on the way to the powers `(modulus() - 1) / r`.
proof fn lemma_pow_modulus_part_6()
    ensures
        pow_mod(7, 0x26a48d1bb889d46d66689d580335f2ac713f36abaaaa1eaa5555555500000000nat, 0x73eda753299d7d483339d80809a1d80553bda402fffe5bfeffffffff00000001int) == 0xac45a4010001a40200000000ffffffffint,
{
    lemma_pow_modulus_part_4();
    lemma_pow_modulus_step_5();
    lemma_pow_mod_chain(7, 0x38352a56dddfc09f20982aae904e7840a4b909b3e0f7726c1f07c1f00000000nat, 11nat, 0x73eda753299d7d483339d80809a1d80553bda402fffe5bfeffffffff00000001int, 0x39b9f3636addbaad4c3e77a1ccc930a330f6ae57ec841d8d42157f00df63d988int, 0xac45a4010001a40200000000ffffffffint);
    assert(0x38352a56dddfc09f20982aae904e7840a4b909b3e0f7726c1f07c1f00000000nat * 11nat == 0x26a48d1bb889d46d66689d580335f2ac713f36abaaaa1eaa5555555500000000nat) by (nonlinear_arith);
}

/// Seven to the power `(modulus() - 1) / 3`.
proof fn lemma_pow_modulus_without_3()
    ensures
        pow_mod(7, 0x26a48d1bb889d46d66689d580335f2ac713f36abaaaa1eaa5555555500000000nat, 0x73eda753299d7d483339d80809a1d80553bda402fffe5bfeffffffff00000001int) == 0xac45a4010001a40200000000ffffffffint,
{
    lemma_pow_modulus_part_6();
}

/// A power of a power of seven.
#[verifier::rlimit(60)]
proof fn lemma_pow_modulus_step_7()
    ensures
        pow_mod(c4(), 3nat, q()) == 0x32e3ee16442ae00d0ade6607de0a05957900e657e09c952e618a16c99985bcdaint,
{
    let e0: nat = 0nat;
    let x0: int = 1int;
    lemma_pow_mod_window(c4(), x0, e0, 3, q());
    let e1: nat = 16 * e0 + 3;
    let x1: int = window(c4(), 1int, 3, q());
    assert(x1 == 0x32e3ee16442ae00d0ade6607de0a05957900e657e09c952e618a16c99985bcdaint);
    assert(e1 == 3nat);
}

/// A power of seven on the way to the powers `(modulus() - 1) / r`.
proof fn lemma_pow_modulus_part_8()
    ensures
        pow_mod(7, 0xa89f7f04999f41dd61c8800bb0eb68c1ee2b1d1ba2e657445d1745d00000000nat, 0x73eda753299d7d483339d80809a1d80553bda402fffe5bfeffffffff00000001int) == 0x32e3ee16442ae00d0ade6607de0a05957900e657e09c952e618a16c99985bcdaint,
{
    lemma_pow_modulus_part_4();
    lemma_pow_modulus_step_7();
    lemma_pow_mod_chain(7, 0x38352a56dddfc09f20982aae904e7840a4b909b3e0f7726c1f07c1f00000000nat, 3nat, 0x73eda753299d7d483339d80809a1d80553bda402fffe5bfeffffffff00000001int, 0x39b9f3636addbaad4c3e77a1ccc930a330f6ae57ec841d8d42157f00df63d988int, 0x32e3ee16442ae00d0ade6607de0a05957900e657e09c952e618a16c99985bcdaint);
    assert(0x38352a56dddfc09f20982aae904e7840a4b909b3e0f7726c1f07c1f00000000nat * 3nat == 0xa89f7f04999f41dd61c8800bb0eb68c1ee2b1d1ba2e657445d1745d00000000nat) by (nonlinear_arith);
}

/// Seven to the power `(modulus() - 1) / 11`.
proof fn lemma_pow_modulus_without_11()
    ensures
        pow_mod(7, 0xa89f7f04999f41dd61c8800bb0eb68c1ee2b1d1ba2e657445d1745d00000000nat, 0x73eda753299d7d483339d80809a1d80553bda402fffe5bfeffffffff00000001int) == 0x32e3ee16442ae00d0ade6607de0a05957900e657e09c952e618a16c99985bcdaint,
{
    lemma_pow_modulus_part_8();
}

/// A power of a power of seven.
#[verifier::rlimit(60)]
proof fn lemma_pow_modulus_step_9()
    ensures
        pow_mod(c3(), 33nat, q()) == 0x6a913e21dcd68e58f6f097f5895ea60fbb62b844065b1baf7b154ca52851ddf2int,
{
    let e0: nat = 0nat;
    let x0: int = 1int;
    lemma_pow_mod_window(c3(), x0, e0, 2, q());
    let e1: nat = 16 * e0 + 2;
    let x1: int = window(c3(), 1int, 2, q());
    assert(x1 == 0x1f6529cbfad060d2500d5a3ea51014146946dba0f97fb1fac3f9c9ce483acd38int);
    lemma_pow_mod_window(c3(), x1, e1, 1, q());
    let e2: nat = 16 * e1 + 1;
    let x2: int = window(c3(), 0x1f6529cbfad060d2500d5a3ea51014146946dba0f97fb1fac3f9c9ce483acd38int, 1, q());
    assert(x2 == 0x6a913e21dcd68e58f6f097f5895ea60fbb62b844065b1baf7b154ca52851ddf2int);
    assert(e2 == 33nat);
}

/// A power of seven on the way to the powers `(modulus() - 1) / r`.
proof fn lemma_pow_modulus_part_10()
    ensures
        pow_mod(7, 0x148372280c67a051dc60598e3f511a152f3947b19fae74e300000000nat, 0x73eda753299d7d483339d80809a1d80553bda402fffe5bfeffffffff00000001int) == 0x6a913e21dcd68e58f6f097f5895ea60fbb62b844065b1baf7b154ca52851ddf2int,
{
    lemma_pow_modulus_part_2();
    lemma_pow_modulus_step_9();
    lemma_pow_mod_chain(7, 0x9f227d55b5907e9a126f51e2e36d657d8d5f437171e48300000000nat, 33nat, 0x73eda753299d7d483339d80809a1d80553bda402fffe5bfeffffffff00000001int, 0x737d73bdd3e2a2daed29f942451db67de71dddb0caf71bd72cef988545c0937dint, 0x6a913e21dcd68e58f6f097f5895ea60fbb62b844065b1baf7b154ca52851ddf2int);
    assert(0x9f227d55b5907e9a126f51e2e36d657d8d5f437171e48300000000nat * 33nat == 0x148372280c67a051dc60598e3f511a152f3947b19fae74e300000000nat) by (nonlinear_arith);
}

#[verifier::inline]
spec fn c5() -> int {
    0x6a913e21dcd68e58f6f097f5895ea60fbb62b844065b1baf7b154ca52851ddf2int
}

/// A part of the way to the next power.
#[verifier::rlimit(60)]
proof fn lemma_pow_modulus_step_11_part_1()
    ensures
        pow_mod(c5(), 19492nat, q()) == 0x19bd434ac314f2997dc2a729b5bde64e35140f6a239cb2309694ed6356ca92eaint,
{
    let e0: nat = 0nat;
    let x0: int = 1int;
    lemma_pow_mod_window(c5(), x0, e0, 4, q());
    let e1: nat = 16 * e0 + 4;
    let x1: int = window(c5(), 1int, 4, q());
    assert(x1 == 0x64a0eaf1362ab3c135dadee57973bb1d5d1ccb17ca3b3120dad67513fe9e8e9int);
    lemma_pow_mod_window(c5(), x1, e1, 12, q());
    let e2: nat = 16 * e1 + 12;
    let x2: int = window(c5(), 0x64a0eaf1362ab3c135dadee57973bb1d5d1ccb17ca3b3120dad67513fe9e8e9int, 12, q());
    assert(x2 == 0x14b3b4099d72605f2bd274550ba579fe0411e0545f87706cb227116b2d82aca2int);
    lemma_pow_mod_window(c5(), x2, e2, 2, q());
    let e3: nat = 16 * e2 + 2;
    let x3: int = window(c5(), 0x14b3b4099d72605f2bd274550ba579fe0411e0545f87706cb227116b2d82aca2int, 2, q());
    assert(x3 == 0x5fccb2e453e1a06c44126911bceceef8cef03c90d2836a6b99a4c7752b7b74f5int);
    lemma_pow_mod_window(c5(), x3, e3, 4, q());
    let e4: nat = 16 * e3 + 4;
    let x4: int = window(c5(), 0x5fccb2e453e1a06c44126911bceceef8cef03c90d2836a6b99a4c7752b7b74f5int, 4, q());
    assert(x4 == 0x19bd434ac314f2997dc2a729b5bde64e35140f6a239cb2309694ed6356ca92eaint);
    assert(e4 == 19492nat);
}

/// A power of a power of seven.
#[verifier::rlimit(60)]
proof fn lemma_pow_modulus_step_11()
    ensures
        pow_mod(c5(), 0x4c24ec97nat, q()) == 0x4b11569521af839931a5fb948d45c34bf87b7fc14f41215b554781951820e40eint,
{
    lemma_pow_modulus_step_11_part_1();
    let e4: nat = 19492nat;
    let x4: int = 0x19bd434ac314f2997dc2a729b5bde64e35140f6a239cb2309694ed6356ca92eaint;
    lemma_pow_mod_window(c5(), x4, e4, 14, q());
    let e5: nat = 16 * e4 + 14;
    let x5: int = window(c5(), 0x19bd434ac314f2997dc2a729b5bde64e35140f6a239cb2309694ed6356ca92eaint, 14, q());
    assert(x5 == 0x3e85c0da1cf3aa74e5f4aa5d5a045e1d805282e1a57216826212ad8d7ac2c116int);
    lemma_pow_mod_window(c5(), x5, e5, 12, q());
    let e6: nat = 16 * e5 + 12;
    let x6: int = window(c5(), 0x3e85c0da1cf3aa74e5f4aa5d5a045e1d805282e1a57216826212ad8d7ac2c116int, 12, q());
    assert(x6 == 0x72906cbaf5a88502cadfe5acf4823c2335ede01ab1d39af49ebec344bc13f06fint);
    lemma_pow_mod_window(c5(), x6, e6, 9, q());
    let e7: nat = 16 * e6 + 9;
    let x7: int = window(c5(), 0x72906cbaf5a88502cadfe5acf4823c2335ede01ab1d39af49ebec344bc13f06fint, 9, q());
    assert(x7 == 0x55b248fbf6e3b2a3c71e257cbca4fd53ff56a7bf98c9f678d63dcbfa657c694cint);
    lemma_pow_mod_window(c5(), x7, e7, 7, q());
    let e8: nat = 16 * e7 + 7;
    let x8: int = window(c5(), 0x55b248fbf6e3b2a3c71e257cbca4fd53ff56a7bf98c9f678d63dcbfa657c694cint, 7, q());
    assert(x8 == 0x4b11569521af839931a5fb948d45c34bf87b7fc14f41215b554781951820e40eint);
    assert(e8 == 0x4c24ec97nat);
}

/// A power of seven on the way to the powers `(modulus() - 1) / r`.
proof fn lemma_pow_modulus_part_12()
    ensures
        pow_mod(7, 0x619fb553815c339b1da9f94a230f06c11e18f5e79434835d79435e500000000nat, 0x73eda753299d7d483339d80809a1d80553bda402fffe5bfeffffffff00000001int) == 0x4b11569521af839931a5fb948d45c34bf87b7fc14f41215b554781951820e40eint,
{
    lemma_pow_modulus_part_10();
    lemma_pow_modulus_step_11();
    lemma_pow_mod_chain(7, 0x148372280c67a051dc60598e3f511a152f3947b19fae74e300000000nat, 0x4c24ec97nat, 0x73eda753299d7d483339d80809a1d80553bda402fffe5bfeffffffff00000001int, 0x6a913e21dcd68e58f6f097f5895ea60fbb62b844065b1baf7b154ca52851ddf2int, 0x4b11569521af839931a5fb948d45c34bf87b7fc14f41215b554781951820e40eint);
    assert(0x148372280c67a051dc60598e3f511a152f3947b19fae74e300000000nat * 0x4c24ec97nat == 0x619fb553815c339b1da9f94a230f06c11e18f5e79434835d79435e500000000nat) by (nonlinear_arith);
}

/// Seven to the power `(modulus() - 1) / 19`.
proof fn lemma_pow_modulus_without_19()
    ensures
        pow_mod(7, 0x619fb553815c339b1da9f94a230f06c11e18f5e79434835d79435e500000000nat, 0x73eda753299d7d483339d80809a1d80553bda402fffe5bfeffffffff00000001int) == 0x4b11569521af839931a5fb948d45c34bf87b7fc14f41215b554781951820e40eint,
{
    lemma_pow_modulus_part_12();
}

/// A power of a power of seven.
#[verifier::rlimit(60)]
proof fn lemma_pow_modulus_step_13()
    ensures
        pow_mod(c5(), 19nat, q()) == 0x2a2a3b692db23b482f3b22579c63dc49d2fca4bbe02b66d913a6657e815b8517int,
{
    let e0: nat = 0nat;
    let x0: int = 1int;
    lemma_pow_mod_window(c5(), x0, e0, 1, q());
    let e1: nat = 16 * e0 + 1;
    let x1: int = window(c5(), 1int, 1, q());
    assert(x1 == 0x6a913e21dcd68e58f6f097f5895ea60fbb62b844065b1baf7b154ca52851ddf2int);
    lemma_pow_mod_window(c5(), x1, e1, 3, q());
    let e2: nat = 16 * e1 + 3;
    let x2: int = window(c5(), 0x6a913e21dcd68e58f6f097f5895ea60fbb62b844065b1baf7b154ca52851ddf2int, 3, q());
    assert(x2 == 0x2a2a3b692db23b482f3b22579c63dc49d2fca4bbe02b66d913a6657e815b8517int);
    assert(e2 == 19nat);
}

/// A power of seven on the way to the powers `(modulus() - 1) / r`.
proof fn lemma_pow_modulus_part_14()
    ensures
        pow_mod(7, 0x185c178f8ebb0e6135b26a58eb304ef928140522ed9f2acd900000000nat, 0x73eda753299d7d483339d80809a1d80553bda402fffe5bfeffffffff00000001int) == 0x2a2a3b692db23b482f3b22579c63dc49d2fca4bbe02b66d913a6657e815b8517int,
{
    lemma_pow_modulus_part_10();
    lemma_pow_modulus_step_13();
    lemma_pow_mod_chain(7, 0x148372280c67a051dc60598e3f511a152f3947b19fae74e300000000nat, 19nat, 0x73eda753299d7d483339d80809a1d80553bda402fffe5bfeffffffff00000001int, 0x6a913e21dcd68e58f6f097f5895ea60fbb62b844065b1baf7b154ca52851ddf2int, 0x2a2a3b692db23b482f3b22579c63dc49d2fca4bbe02b66d913a6657e815b8517int);
    assert(0x148372280c67a051dc60598e3f511a152f3947b19fae74e300000000nat * 19nat == 0x185c178f8ebb0e6135b26a58eb304ef928140522ed9f2acd900000000nat) by (nonlinear_arith);
}

#[verifier::inline]
spec fn c6() -> int {
    0x2a2a3b692db23b482f3b22579c63dc49d2fca4bbe02b66d913a6657e815b8517int
}

/// A part of the way to the next power.
#[verifier::rlimit(60)]
proof fn lemma_pow_modulus_step_15_part_1()
    ensures
        pow_mod(c6(), 7845nat, q()) == 0x21819531af22f71def5a9e45212ba687fb0449c505c07b4d4da3fd3a7dccf64int,
{
    let e0: nat = 0nat;
    let x0: int = 1int;
    lemma_pow_mod_window(c6(), x0, e0, 1, q());
    let e1: nat = 16 * e0 + 1;
    let x1: int = window(c6(), 1int, 1, q());
    assert(x1 == 0x2a2a3b692db23b482f3b22579c63dc49d2fca4bbe02b66d913a6657e815b8517int);
    lemma_pow_mod_window(c6(), x1, e1, 14, q());
    let e2: nat = 16 * e1 + 14;
    let x2: int = window(c6(), 0x2a2a3b692db23b482f3b22579c63dc49d2fca4bbe02b66d913a6657e815b8517int, 14, q());
    assert(x2 == 0x41af70076e4d69336fcce9713cc9d2a81a1d62f9974db7fd712fc19f2c8ee724int);
    lemma_pow_mod_window(c6(), x2, e2, 10, q());
    let e3: nat = 16 * e2 + 10;
    let x3: int = window(c6(), 0x41af70076e4d69336fcce9713cc9d2a81a1d62f9974db7fd712fc19f2c8ee724int, 10, q());
    assert(x3 == 0x288d69f420efc952b4f3f551c4d96b995874c09eb870a2851fe9d60e00c8b619int);
    lemma_pow_mod_window(c6(), x3, e3, 5, q());
    let e4: nat = 16 * e3 + 5;
    let x4: int = window(c6(), 0x288d69f420efc952b4f3f551c4d96b995874c09eb870a2851fe9d60e00c8b619int, 5, q());
    assert(x4 == 0x21819531af22f71def5a9e45212ba687fb0449c505c07b4d4da3fd3a7dccf64int);
    assert(e4 == 7845nat);
}

/// A power of a power of seven.
#[verifier::rlimit(60)]
proof fn lemma_pow_modulus_step_15()
    ensures
        pow_mod(c6(), 125527nat, q()) == 0x1cba928b731970571e9595239f325fced6538e1240ff7965553667549739ebb9int,
{
    lemma_pow_modulus_step_15_part_1();
    let e4: nat = 7845nat;
    let x4: int = 0x21819531af22f71def5a9e45212ba687fb0449c505c07b4d4da3fd3a7dccf64int;
    lemma_pow_mod_window(c6(), x4, e4, 7, q());
    let e5: nat = 16 * e4 + 7;
    let x5: int = window(c6(), 0x21819531af22f71def5a9e45212ba687fb0449c505c07b4d4da3fd3a7dccf64int, 7, q());
    assert(x5 == 0x1cba928b731970571e9595239f325fced6538e1240ff7965553667549739ebb9int);
    assert(e5 == 125527nat);
}

/// A power of seven on the way to the powers `(modulus() - 1) / r`.
proof fn lemma_pow_modulus_part_16()
    ensures
        pow_mod(7, 0x2ea88c64c8fb8b17f3d0bf3056626493bd62f0a299b16905017bf00000000nat, 0x73eda753299d7d483339d80809a1d80553bda402fffe5bfeffffffff00000001int) == 0x1cba928b731970571e9595239f325fced6538e1240ff7965553667549739ebb9int,
{
    lemma_pow_modulus_part_14();
    lemma_pow_modulus_step_15();
    lemma_pow_mod_chain(7, 0x185c178f8ebb0e6135b26a58eb304ef928140522ed9f2acd900000000nat, 125527nat, 0x73eda753299d7d483339d80809a1d80553bda402fffe5bfeffffffff00000001int, 0x2a2a3b692db23b482f3b22579c63dc49d2fca4bbe02b66d913a6657e815b8517int, 0x1cba928b731970571e9595239f325fced6538e1240ff7965553667549739ebb9int);
    assert(0x185c178f8ebb0e6135b26a58eb304ef928140522ed9f2acd900000000nat * 125527nat == 0x2ea88c64c8fb8b17f3d0bf3056626493bd62f0a299b16905017bf00000000nat) by (nonlinear_arith);
}

/// Seven to the power `(modulus() - 1) / 10177`.
proof fn lemma_pow_modulus_without_10177()
    ensures
        pow_mod(7, 0x2ea88c64c8fb8b17f3d0bf3056626493bd62f0a299b16905017bf00000000nat, 0x73eda753299d7d483339d80809a1d80553bda402fffe5bfeffffffff00000001int) == 0x1cba928b731970571e9595239f325fced6538e1240ff7965553667549739ebb9int,
{
    lemma_pow_modulus_part_16();
}

/// A power of a power of seven.
#[verifier::rlimit(60)]
proof fn lemma_pow_modulus_step_17()
    ensures
        pow_mod(c6(), 10177nat, q()) == 0x3dd479f5454967ce0dcb2b172ac73d5ce93d58a856569621c247fb7ed7f91c4fint,
{
    let e0: nat = 0nat;
    let x0: int = 1int;
    lemma_pow_mod_window(c6(), x0, e0, 2, q());
    let e1: nat = 16 * e0 + 2;
    let x1: int = window(c6(), 1int, 2, q());
    assert(x1 == 0x1cf58578902a5eda7006228ba5ff64091339bd05126fda31c34f6fe66232d3f2int);
    lemma_pow_mod_window(c6(), x1, e1, 7, q());
    let e2: nat = 16 * e1 + 7;
    let x2: int = window(c6(), 0x1cf58578902a5eda7006228ba5ff64091339bd05126fda31c34f6fe66232d3f2int, 7, q());
    assert(x2 == 0x27162334aeb33f510e1afe89d502127298926c066a654db438488e1f5dac2f70int);
    lemma_pow_mod_window(c6(), x2, e2, 12, q());
    let e3: nat = 16 * e2 + 12;
    let x3: int = window(c6(), 0x27162334aeb33f510e1afe89d502127298926c066a654db438488e1f5dac2f70int, 12, q());
    assert(x3 == 0x264385832730263db4d4035de91ff00fc758b875cace6783b121d4fba1bf827bint);
    lemma_pow_mod_window(c6(), x3, e3, 1, q());
    let e4: nat = 16 * e3 + 1;
    let x4: int = window(c6(), 0x264385832730263db4d4035de91ff00fc758b875cace6783b121d4fba1bf827bint, 1, q());
    assert(x4 == 0x3dd479f5454967ce0dcb2b172ac73d5ce93d58a856569621c247fb7ed7f91c4fint);
    assert(e4 == 10177nat);
}

/// A power of seven on the way to the powers `(modulus() - 1) / r`.
proof fn lemma_pow_modulus_part_18()
    ensures
        pow_mod(7, 0x3c86504a1f91a36a677a9b5b8ddab737ef243e03188648495e9900000000nat, 0x73eda753299d7d483339d80809a1d80553bda402fffe5bfeffffffff00000001int) == 0x3dd479f5454967ce0dcb2b172ac73d5ce93d58a856569621c247fb7ed7f91c4fint,
{
    lemma_pow_modulus_part_14();
    lemma_pow_modulus_step_17();
    lemma_pow_mod_chain(7, 0x185c178f8ebb0e6135b26a58eb304ef928140522ed9f2acd900000000nat, 10177nat, 0x73eda753299d7d483339d80809a1d80553bda402fffe5bfeffffffff00000001int, 0x2a2a3b692db23b482f3b22579c63dc49d2fca4bbe02b66d913a6657e815b8517int, 0x3dd479f5454967ce0dcb2b172ac73d5ce93d58a856569621c247fb7ed7f91c4fint);
    assert(0x185c178f8ebb0e6135b26a58eb304ef928140522ed9f2acd900000000nat * 10177nat == 0x3c86504a1f91a36a677a9b5b8ddab737ef243e03188648495e9900000000nat) by (nonlinear_arith);
}

/// Seven to the power `(modulus() - 1) / 125527`.
proof fn lemma_pow_modulus_without_125527()
    ensures
        pow_mod(7, 0x3c86504a1f91a36a677a9b5b8ddab737ef243e03188648495e9900000000nat, 0x73eda753299d7d483339d80809a1d80553bda402fffe5bfeffffffff00000001int) == 0x3dd479f5454967ce0dcb2b172ac73d5ce93d58a856569621c247fb7ed7f91c4fint,
{
    lemma_pow_modulus_part_18();
}

/// A part of the way to the next power.
#[verifier::rlimit(60)]
proof fn lemma_pow_modulus_step_19_part_1()
    ensures
        pow_mod(c2(), 47742nat, q()) == 0x35d928ca2c65456be60391af63627b60f4763f06ae0b4b05f951652fea895faaint,
{
    let e0: nat = 0nat;
    let x0: int = 1int;
    lemma_pow_mod_window(c2(), x0, e0, 11, q());
    let e1: nat = 16 * e0 + 11;
    let x1: int = window(c2(), 1int, 11, q());
    assert(x1 == 0x27d4ab30cbfbc5084d0ed6c47720e414e47027e1669892d4084f7668569267e7int);
    lemma_pow_mod_window(c2(), x1, e1, 10, q());
    let e2: nat = 16 * e1 + 10;
    let x2: int = window(c2(), 0x27d4ab30cbfbc5084d0ed6c47720e414e47027e1669892d4084f7668569267e7int, 10, q());
    assert(x2 == 0x37caceba25b1aebaf7f88b0c1ecb69a719109b3e19113ce0963c41e291a3f734int);
    lemma_pow_mod_window(c2(), x2, e2, 7, q());
    let e3: nat = 16 * e2 + 7;
    let x3: int = window(c2(), 0x37caceba25b1aebaf7f88b0c1ecb69a719109b3e19113ce0963c41e291a3f734int, 7, q());
    assert(x3 == 0x5e9ad385d485d9204fbcc052bf90011cb535dd3519e866ddec538eae77e9e70cint);
    lemma_pow_mod_window(c2(), x3, e3, 14, q());
    let e4: nat = 16 * e3 + 14;
    let x4: int = window(c2(), 0x5e9ad385d485d9204fbcc052bf90011cb535dd3519e866ddec538eae77e9e70cint, 14, q());
    assert(x4 == 0x35d928ca2c65456be60391af63627b60f4763f06ae0b4b05f951652fea895faaint);
    assert(e4 == 47742nat);
}

/// A part of the way to the next power.
#[verifier::rlimit(60)]
proof fn lemma_pow_modulus_step_19_part_2()
    ensures
        pow_mod(c2(), 0xba7e6f75nat, q()) == 0x50f18f7cb8c86396f6e2bf8fabc96dcf5ffb5005924781113fb6066aadef5862int,
{
    lemma_pow_modulus_step_19_part_1();
    let e4: nat = 47742nat;
    let x4: int = 0x35d928ca2c65456be60391af63627b60f4763f06ae0b4b05f951652fea895faaint;
    lemma_pow_mod_window(c2(), x4, e4, 6, q());
    let e5: nat = 16 * e4 + 6;
    let x5: int = window(c2(), 0x35d928ca2c65456be60391af63627b60f4763f06ae0b4b05f951652fea895faaint, 6, q());
    assert(x5 == 0x94b572a1650fa45799cf221885b24d03d8385c598d8329ee8198ba5f7e4801dint);
    lemma_pow_mod_window(c2(), x5, e5, 15, q());
    let e6: nat = 16 * e5 + 15;
    let x6: int = window(c2(), 0x94b572a1650fa45799cf221885b24d03d8385c598d8329ee8198ba5f7e4801dint, 15, q());
    assert(x6 == 0x2a25af630b25198ccec35f1d366b3741f7f73937852103f8e3852cde8bf7e3b5int);
    lemma_pow_mod_window(c2(), x6, e6, 7, q());
    let e7: nat = 16 * e6 + 7;
    let x7: int = window(c2(), 0x2a25af630b25198ccec35f1d366b3741f7f73937852103f8e3852cde8bf7e3b5int, 7, q());
    assert(x7 == 0x126ee351e62ef5b606d63c78fa691c98a9b8ed7eeaa598c9958991f9e384fb79int);
    lemma_pow_mod_window(c2(), x7, e7, 5, q());
    let e8: nat = 16 * e7 + 5;
    let x8: int = window(c2(), 0x126ee351e62ef5b606d63c78fa691c98a9b8ed7eeaa598c9958991f9e384fb79int, 5, q());
    assert(x8 == 0x50f18f7cb8c86396f6e2bf8fabc96dcf5ffb5005924781113fb6066aadef5862int);
    assert(e8 == 0xba7e6f75nat);
}

/// A power of a power of seven.
#[verifier::rlimit(60)]
proof fn lemma_pow_modulus_step_19()
    ensures
        pow_mod(c2(), 0xba7e6f75d5nat, q()) == 0x5ea0c14d97beffde1b221b1880a5c077c1a1ad1bad9184ffc0f5ec71e3b52a90int,
{
    lemma_pow_modulus_step_19_part_2();
    let e8: nat = 0xba7e6f75nat;
    let x8: int = 0x50f18f7cb8c86396f6e2bf8fabc96dcf5ffb5005924781113fb6066aadef5862int;
    lemma_pow_mod_window(c2(), x8, e8, 13, q());
    let e9: nat = 16 * e8 + 13;
    let x9: int = window(c2(), 0x50f18f7cb8c86396f6e2bf8fabc96dcf5ffb5005924781113fb6066aadef5862int, 13, q());
    assert(x9 == 0x6719df669f7ae324ea40cfb9143d0659015408100fe75df482b544ab9f455e71int);
    lemma_pow_mod_window(c2(), x9, e9, 5, q());
    let e10: nat = 16 * e9 + 5;
    let x10: int = window(c2(), 0x6719df669f7ae324ea40cfb9143d0659015408100fe75df482b544ab9f455e71int, 5, q());
    assert(x10 == 0x5ea0c14d97beffde1b221b1880a5c077c1a1ad1bad9184ffc0f5ec71e3b52a90int);
    assert(e10 == 0xba7e6f75d5nat);
}

/// A power of seven on the way to the powers `(modulus() - 1) / r`.
proof fn lemma_pow_modulus_part_20()
    ensures
        pow_mod(7, 0xba7e6f75d500000000nat, 0x73eda753299d7d483339d80809a1d80553bda402fffe5bfeffffffff00000001int) == 0x5ea0c14d97beffde1b221b1880a5c077c1a1ad1bad9184ffc0f5ec71e3b52a90int,
{
    lemma_pow_modulus_2_32();
    lemma_pow_modulus_step_19();
    lemma_pow_mod_chain(7, 0x100000000nat, 0xba7e6f75d5nat, 0x73eda753299d7d483339d80809a1d80553bda402fffe5bfeffffffff00000001int, 0x8634d0aa021aaf843cab354fabb0062f6502437c6a09c006c083479590189d7int, 0x5ea0c14d97beffde1b221b1880a5c077c1a1ad1bad9184ffc0f5ec71e3b52a90int);
    assert(0x100000000nat * 0xba7e6f75d5nat == 0xba7e6f75d500000000nat) by (nonlinear_arith);
}

#[verifier::inline]
spec fn c7() -> int {
    0x5ea0c14d97beffde1b221b1880a5c077c1a1ad1bad9184ffc0f5ec71e3b52a90int
}

/// A part of the way to the next power.
#[verifier::rlimit(60)]
proof fn lemma_pow_modulus_step_21_part_1()
    ensures
        pow_mod(c7(), 27815nat, q()) == 0x560456ba36bf89307ccdafd653c4ac5438554d7a40ff446d8e0956b2b258f38fint,
{
    let e0: nat = 0nat;
    let x0: int = 1int;
    lemma_pow_mod_window(c7(), x0, e0, 6, q());
    let e1: nat = 16 * e0 + 6;
    let x1: int = window(c7(), 1int, 6, q());
    assert(x1 == 0x3e6c0a09d4651da25863fc4b689b3ab5ac13c69a70bb0e42341c21aff58f72b7int);
    lemma_pow_mod_window(c7(), x1, e1, 12, q());
    let e2: nat = 16 * e1 + 12;
    let x2: int = window(c7(), 0x3e6c0a09d4651da25863fc4b689b3ab5ac13c69a70bb0e42341c21aff58f72b7int, 12, q());
    assert(x2 == 0x6ec6bc264eaa7e9589b10a36008df662c48400574987d0b231e8ee8f4ecd8195int);
    lemma_pow_mod_window(c7(), x2, e2, 10, q());
    let e3: nat = 16 * e2 + 10;
    let x3: int = window(c7(), 0x6ec6bc264eaa7e9589b10a36008df662c48400574987d0b231e8ee8f4ecd8195int, 10, q());
    assert(x3 == 0x4a7247308132320e3000cd61c77cc954fbf3c378b9963221a0dc9b5708e71c9int);
    lemma_pow_mod_window(c7(), x3, e3, 7, q());
    let e4: nat = 16 * e3 + 7;
    let x4: int = window(c7(), 0x4a7247308132320e3000cd61c77cc954fbf3c378b9963221a0dc9b5708e71c9int, 7, q());
    assert(x4 == 0x560456ba36bf89307ccdafd653c4ac5438554d7a40ff446d8e0956b2b258f38fint);
    assert(e4 == 27815nat);
}

/// A part of the way to the next power.
#[verifier::rlimit(60)]
proof fn lemma_pow_modulus_step_21_part_2()
    ensures
        pow_mod(c7(), 0x6ca784f3nat, q()) == 0x589eaaf4d1e8568bb2750825c8a0c711c1d314f9bfbdeac7a2fa1937d66c4dfint,
{
    lemma_pow_modulus_step_21_part_1();
    let e4: nat = 27815nat;
    let x4: int = 0x560456ba36bf89307ccdafd653c4ac5438554d7a40ff446d8e0956b2b258f38fint;
    lemma_pow_mod_window(c7(), x4, e4, 8, q());
    let e5: nat = 16 * e4 + 8;
    let x5: int = window(c7(), 0x560456ba36bf89307ccdafd653c4ac5438554d7a40ff446d8e0956b2b258f38fint, 8, q());
    assert(x5 == 0x63f156840a4979cb468d411e50bfd9c7c906794e55fb7462255fef668e14c73cint);
    lemma_pow_mod_window(c7(), x5, e5, 4, q());
    let e6: nat = 16 * e5 + 4;
    let x6: int = window(c7(), 0x63f156840a4979cb468d411e50bfd9c7c906794e55fb7462255fef668e14c73cint, 4, q());
    assert(x6 == 0x46351a06b60f6d849eea632cc8a267342863a437a74afcaa9733b11edd8a1aa5int);
    lemma_pow_mod_window(c7(), x6, e6, 15, q());
    let e7: nat = 16 * e6 + 15;
    let x7: int = window(c7(), 0x46351a06b60f6d849eea632cc8a267342863a437a74afcaa9733b11edd8a1aa5int, 15, q());
    assert(x7 == 0x37919cf7b5c8393ba92ccb0b9b07885641e0510d6f9e66bd38cc7955c7ec6c8aint);
    lemma_pow_mod_window(c7(), x7, e7, 3, q());
    let e8: nat = 16 * e7 + 3;
    let x8: int = window(c7(), 0x37919cf7b5c8393ba92ccb0b9b07885641e0510d6f9e66bd38cc7955c7ec6c8aint, 3, q());
    assert(x8 == 0x589eaaf4d1e8568bb2750825c8a0c711c1d314f9bfbdeac7a2fa1937d66c4dfint);
    assert(e8 == 0x6ca784f3nat);
}

/// A part of the way to the next power.
#[verifier::rlimit(60)]
proof fn lemma_pow_modulus_step_21_part_3()
    ensures
        pow_mod(c7(), 0x6ca784f37ac6nat, q()) == 0x5b57cc62a8f7201bd13e357d7e93f7ef8f4b94509acbfa79e7dd474cfa29af2eint,
{
    lemma_pow_modulus_step_21_part_2();
    let e8: nat = 0x6ca784f3nat;
    let x8: int = 0x589eaaf4d1e8568bb2750825c8a0c711c1d314f9bfbdeac7a2fa1937d66c4dfint;
    lemma_pow_mod_window(c7(), x8, e8, 7, q());
    let e9: nat = 16 * e8 + 7;
    let x9: int = window(c7(), 0x589eaaf4d1e8568bb2750825c8a0c711c1d314f9bfbdeac7a2fa1937d66c4dfint, 7, q());
    assert(x9 == 0x8a6a7550994486b84b2a80180ca29636f4927ed07a8ef7617117bb8731a4a68int);
    lemma_pow_mod_window(c7(), x9, e9, 10, q());
    let e10: nat = 16 * e9 + 10;
    let x10: int = window(c7(), 0x8a6a7550994486b84b2a80180ca29636f4927ed07a8ef7617117bb8731a4a68int, 10, q());
    assert(x10 == 0x4dd8c6e26a9b1bb134e9d70b4b8012b36d24c7a2b800f20e5741613f2bf2f95eint);
    lemma_pow_mod_window(c7(), x10, e10, 12, q());
    let e11: nat = 16 * e10 + 12;
    let x11: int = window(c7(), 0x4dd8c6e26a9b1bb134e9d70b4b8012b36d24c7a2b800f20e5741613f2bf2f95eint, 12, q());
    assert(x11 == 0x4255a240cf9b9bb31ce6024a3072d29084ce2eea1f765e9d5c5cae098f38bb9dint);
    lemma_pow_mod_window(c7(), x11, e11, 6, q());
    let e12: nat = 16 * e11 + 6;
    let x12: int = window(c7(), 0x4255a240cf9b9bb31ce6024a3072d29084ce2eea1f765e9d5c5cae098f38bb9dint, 6, q());
    assert(x12 == 0x5b57cc62a8f7201bd13e357d7e93f7ef8f4b94509acbfa79e7dd474cfa29af2eint);
    assert(e12 == 0x6ca784f37ac6nat);
}

/// A part of the way to the next power.
#[verifier::rlimit(60)]
proof fn lemma_pow_modulus_step_21_part_4()
    ensures
        pow_mod(c7(), 0x6ca784f37ac601d7nat, q()) == 0x182f9ecd06434372bc89ef1ea6c0c96f310bdf0bf21988047e7026b70c24960eint,
{
    lemma_pow_modulus_step_21_part_3();
    let e12: nat = 0x6ca784f37ac6nat;
    let x12: int = 0x5b57cc62a8f7201bd13e357d7e93f7ef8f4b94509acbfa79e7dd474cfa29af2eint;
    lemma_pow_mod_window(c7(), x12, e12, 0, q());
    let e13: nat = 16 * e12 + 0;
    let x13: int = window(c7(), 0x5b57cc62a8f7201bd13e357d7e93f7ef8f4b94509acbfa79e7dd474cfa29af2eint, 0, q());
    assert(x13 == 0x5d84bbd41e534d93d2e8651ece4841a1094cd90a59de549ed9a727eed3ca2babint);
    lemma_pow_mod_window(c7(), x13, e13, 1, q());
    let e14: nat = 16 * e13 + 1;
    let x14: int = window(c7(), 0x5d84bbd41e534d93d2e8651ece4841a1094cd90a59de549ed9a727eed3ca2babint, 1, q());
    assert(x14 == 0x54bd04577ec74ee1f37ffc49242cc0ebc46678a3c51230867042aa0c133febd2int);
    lemma_pow_mod_window(c7(), x14, e14, 13, q());
    let e15: nat = 16 * e14 + 13;
    let x15: int = window(c7(), 0x54bd04577ec74ee1f37ffc49242cc0ebc46678a3c51230867042aa0c133febd2int, 13, q());
    assert(x15 == 0x6d454eadc751e8d8861bf0f7f3a826d5e8db044736040a48a157a043e4dca98fint);
    lemma_pow_mod_window(c7(), x15, e15, 7, q());
    let e16: nat = 16 * e15 + 7;
    let x16: int = window(c7(), 0x6d454eadc751e8d8861bf0f7f3a826d5e8db044736040a48a157a043e4dca98fint, 7, q());
    assert(x16 == 0x182f9ecd06434372bc89ef1ea6c0c96f310bdf0bf21988047e7026b70c24960eint);
    assert(e16 == 0x6ca784f37ac601d7nat);
}

/// A part of the way to the next power.
#[verifier::rlimit(60)]
proof fn lemma_pow_modulus_step_21_part_5()
    ensures
        pow_mod(c7(), 0x6ca784f37ac601d76a17nat, q()) == 0x556ecbc242472a217cd5cd1c37b26b34829522ab0d4deb41f98c673fd3035b41int,
{
    lemma_pow_modulus_step_21_part_4();
    let e16: nat = 0x6ca784f37ac601d7nat;
    let x16: int = 0x182f9ecd06434372bc89ef1ea6c0c96f310bdf0bf21988047e7026b70c24960eint;
    lemma_pow_mod_window(c7(), x16, e16, 6, q());
    let e17: nat = 16 * e16 + 6;
    let x17: int = window(c7(), 0x182f9ecd06434372bc89ef1ea6c0c96f310bdf0bf21988047e7026b70c24960eint, 6, q());
    assert(x17 == 0x6ae889083073fd270d1dd804c9e748987186d6ee2fa02f4598adccea7c38d728int);
    lemma_pow_mod_window(c7(), x17, e17, 10, q());
    let e18: nat = 16 * e17 + 10;
    let x18: int = window(c7(), 0x6ae889083073fd270d1dd804c9e748987186d6ee2fa02f4598adccea7c38d728int, 10, q());
    assert(x18 == 0x72cdfba3e2129df009dedaeb501b0c932d7f45f2c0d0b8044de475e83508339eint);
    lemma_pow_mod_window(c7(), x18, e18, 1, q());
    let e19: nat = 16 * e18 + 1;
    let x19: int = window(c7(), 0x72cdfba3e2129df009dedaeb501b0c932d7f45f2c0d0b8044de475e83508339eint, 1, q());
    assert(x19 == 0x39276614af7f5db9deb0254277a59674df69d0883c0a7bd7c6def8a352ffc001int);
    lemma_pow_mod_window(c7(), x19, e19, 7, q());
    let e20: nat = 16 * e19 + 7;
    let x20: int = window(c7(), 0x39276614af7f5db9deb0254277a59674df69d0883c0a7bd7c6def8a352ffc001int, 7, q());
    assert(x20 == 0x556ecbc242472a217cd5cd1c37b26b34829522ab0d4deb41f98c673fd3035b41int);
    assert(e20 == 0x6ca784f37ac601d76a17nat);
}

/// A part of the way to the next power.
#[verifier::rlimit(60)]
proof fn lemma_pow_modulus_step_21_part_6()
    ensures
        pow_mod(c7(), 0x6ca784f37ac601d76a17facenat, q()) == 0x1e871f817f72677bba7c80fe2a682440aa8fc74b3a1666558037c278004cb449int,
{
    lemma_pow_modulus_step_21_part_5();
    let e20: nat = 0x6ca784f37ac601d76a17nat;
    let x20: int = 0x556ecbc242472a217cd5cd1c37b26b34829522ab0d4deb41f98c673fd3035b41int;
    lemma_pow_mod_window(c7(), x20, e20, 15, q());
    let e21: nat = 16 * e20 + 15;
    let x21: int = window(c7(), 0x556ecbc242472a217cd5cd1c37b26b34829522ab0d4deb41f98c673fd3035b41int, 15, q());
    assert(x21 == 0x4fa6933c685c84c4742df478a6ced11713731246bbc3b2e008b07d60830f0c21int);
    lemma_pow_mod_window(c7(), x21, e21, 10, q());
    let e22: nat = 16 * e21 + 10;
    let x22: int = window(c7(), 0x4fa6933c685c84c4742df478a6ced11713731246bbc3b2e008b07d60830f0c21int, 10, q());
    assert(x22 == 0x5af14a342d7dc615908392930083590b911e62887a769a192885cedb610d3a9aint);
    lemma_pow_mod_window(c7(), x22, e22, 12, q());
    let e23: nat = 16 * e22 + 12;
    let x23: int = window(c7(), 0x5af14a342d7dc615908392930083590b911e62887a769a192885cedb610d3a9aint, 12, q());
    assert(x23 == 0x3c48039fe239f0a23cdb754953a2daf750bda0e49547e3c8bf7b8727065ce6f9int);
    lemma_pow_mod_window(c7(), x23, e23, 14, q());
    let e24: nat = 16 * e23 + 14;
    let x24: int = window(c7(), 0x3c48039fe239f0a23cdb754953a2daf750bda0e49547e3c8bf7b8727065ce6f9int, 14, q());
    assert(x24 == 0x1e871f817f72677bba7c80fe2a682440aa8fc74b3a1666558037c278004cb449int);
    assert(e24 == 0x6ca784f37ac601d76a17facenat);
}

/// A power of a power of seven.
#[verifier::rlimit(60)]
proof fn lemma_pow_modulus_step_21()
    ensures
        pow_mod(c7(), 0x6ca784f37ac601d76a17face61nat, q()) == 0x49614fd2937e262eeb7ad28e7c380be90ec3d86abb1935d26aea6d107f789a7aint,
{
    lemma_pow_modulus_step_21_part_6();
    let e24: nat = 0x6ca784f37ac601d76a17facenat;
    let x24: int = 0x1e871f817f72677bba7c80fe2a682440aa8fc74b3a1666558037c278004cb449int;
    lemma_pow_mod_window(c7(), x24, e24, 6, q());
    let e25: nat = 16 * e24 + 6;
    let x25: int = window(c7(), 0x1e871f817f72677bba7c80fe2a682440aa8fc74b3a1666558037c278004cb449int, 6, q());
    assert(x25 == 0x5e847d9bbc486e591b0ae3661cc6c2072221672e63081751fe73e876500ae9ccint);
    lemma_pow_mod_window(c7(), x25, e25, 1, q());
    let e26: nat = 16 * e25 + 1;
    let x26: int = window(c7(), 0x5e847d9bbc486e591b0ae3661cc6c2072221672e63081751fe73e876500ae9ccint, 1, q());
    assert(x26 == 0x49614fd2937e262eeb7ad28e7c380be90ec3d86abb1935d26aea6d107f789a7aint);
    assert(e26 == 0x6ca784f37ac601d76a17face61nat);
}

/// A power of seven on the way to the powers `(modulus() - 1) / r`.
proof fn lemma_pow_modulus_part_22()
    ensures
        pow_mod(7, 0x4f27605afca701ecf78da2038208ce0f0bb500000000nat, 0x73eda753299d7d483339d80809a1d80553bda402fffe5bfeffffffff00000001int) == 0x49614fd2937e262eeb7ad28e7c380be90ec3d86abb1935d26aea6d107f789a7aint,
{
    lemma_pow_modulus_part_20();
    lemma_pow_modulus_step_21();
    lemma_pow_mod_chain(7, 0xba7e6f75d500000000nat, 0x6ca784f37ac601d76a17face61nat, 0x73eda753299d7d483339d80809a1d80553bda402fffe5bfeffffffff00000001int, 0x5ea0c14d97beffde1b221b1880a5c077c1a1ad1bad9184ffc0f5ec71e3b52a90int, 0x49614fd2937e262eeb7ad28e7c380be90ec3d86abb1935d26aea6d107f789a7aint);
    assert(0xba7e6f75d500000000nat * 0x6ca784f37ac601d76a17face61nat == 0x4f27605afca701ecf78da2038208ce0f0bb500000000nat) by (nonlinear_arith);
}

#[verifier::inline]
spec fn c8() -> int {
    0x49614fd2937e262eeb7ad28e7c380be90ec3d86abb1935d26aea6d107f789a7aint
}

/// A part of the way to the next power.
#[verifier::rlimit(60)]
proof fn lemma_pow_modulus_step_23_part_1()
    ensures
        pow_mod(c8(), 7320nat, q()) == 0x4c5a7ca4fcc6495f28efe67d0edf1603e33143645b3e699af0fbbc57a1f66264int,
{
    let e0: nat = 0nat;
    let x0: int = 1int;
    lemma_pow_mod_window(c8(), x0, e0, 1, q());
    let e1: nat = 16 * e0 + 1;
    let x1: int = window(c8(), 1int, 1, q());
    assert(x1 == 0x49614fd2937e262eeb7ad28e7c380be90ec3d86abb1935d26aea6d107f789a7aint);
    lemma_pow_mod_window(c8(), x1, e1, 12, q());
    let e2: nat = 16 * e1 + 12;
    let x2: int = window(c8(), 0x49614fd2937e262eeb7ad28e7c380be90ec3d86abb1935d26aea6d107f789a7aint, 12, q());
    assert(x2 == 0x305143a9a34e891d6bcb8d93eebdbba9c1f9eee2ab0ea12a8fa56d21f0baccbbint);
    lemma_pow_mod_window(c8(), x2, e2, 9, q());
    let e3: nat = 16 * e2 + 9;
    let x3: int = window(c8(), 0x305143a9a34e891d6bcb8d93eebdbba9c1f9eee2ab0ea12a8fa56d21f0baccbbint, 9, q());
    assert(x3 == 0x1c4dd122e0acafb0db59d98a2c044737b7de4ef3eddba947cbb3287cc177e393int);
    lemma_pow_mod_window(c8(), x3, e3, 8, q());
    let e4: nat = 16 * e3 + 8;
    let x4: int = window(c8(), 0x1c4dd122e0acafb0db59d98a2c044737b7de4ef3eddba947cbb3287cc177e393int, 8, q());
    assert(x4 == 0x4c5a7ca4fcc6495f28efe67d0edf1603e33143645b3e699af0fbbc57a1f66264int);
    assert(e4 == 7320nat);
}

/// A part of the way to the next power.
#[verifier::rlimit(60)]
proof fn lemma_pow_modulus_step_23_part_2()
    ensures
        pow_mod(c8(), 0x1c98a5afnat, q()) == 0x172745b4938faaa27453088777afe87105deb79f2c802b1ae5fd011a7b92d90bint,
{
    lemma_pow_modulus_step_23_part_1();
    let e4: nat = 7320nat;
    let x4: int = 0x4c5a7ca4fcc6495f28efe67d0edf1603e33143645b3e699af0fbbc57a1f66264int;
    lemma_pow_mod_window(c8(), x4, e4, 10, q());
    let e5: nat = 16 * e4 + 10;
    let x5: int = window(c8(), 0x4c5a7ca4fcc6495f28efe67d0edf1603e33143645b3e699af0fbbc57a1f66264int, 10, q());
    assert(x5 == 0x3c263feb3fca51c2c4b9de88c476259d43187fe90d3fbeba1cc21e970d825caeint);
    lemma_pow_mod_window(c8(), x5, e5, 5, q());
    let e6: nat = 16 * e5 + 5;
    let x6: int = window(c8(), 0x3c263feb3fca51c2c4b9de88c476259d43187fe90d3fbeba1cc21e970d825caeint, 5, q());
    assert(x6 == 0x70f0ed9de123c46523f03ae077879f1d720ccd79dcc9175a16ea7c932614bdint);
    lemma_pow_mod_window(c8(), x6, e6, 10, q());
    let e7: nat = 16 * e6 + 10;
    let x7: int = window(c8(), 0x70f0ed9de123c46523f03ae077879f1d720ccd79dcc9175a16ea7c932614bdint, 10, q());
    assert(x7 == 0x685633d6e1ecd38e1bd11583786c986bc617089bb52c142dddea4ef9eb2002ddint);
    lemma_pow_mod_window(c8(), x7, e7, 15, q());
    let e8: nat = 16 * e7 + 15;
    let x8: int = window(c8(), 0x685633d6e1ecd38e1bd11583786c986bc617089bb52c142dddea4ef9eb2002ddint, 15, q());
    assert(x8 == 0x172745b4938faaa27453088777afe87105deb79f2c802b1ae5fd011a7b92d90bint);
    assert(e8 == 0x1c98a5afnat);
}

/// A part of the way to the next power.
#[verifier::rlimit(60)]
proof fn lemma_pow_modulus_step_23_part_3()
    ensures
        pow_mod(c8(), 0x1c98a5af9d72nat, q()) == 0x66771b99a4aef8d86d0c3ff7a43985cd4f800bb6ec36bb22a20f92f2494c7794int,
{
    lemma_pow_modulus_step_23_part_2();
    let e8: nat = 0x1c98a5afnat;
    let x8: int = 0x172745b4938faaa27453088777afe87105deb79f2c802b1ae5fd011a7b92d90bint;
    lemma_pow_mod_window(c8(), x8, e8, 9, q());
    let e9: nat = 16 * e8 + 9;
    let x9: int = window(c8(), 0x172745b4938faaa27453088777afe87105deb79f2c802b1ae5fd011a7b92d90bint, 9, q());
    assert(x9 == 0x7cb3e1a2603e17ccaea166845a31c01b29a9594324362f0cf46ad3205b99d01int);
    lemma_pow_mod_window(c8(), x9, e9, 13, q());
    let e10: nat = 16 * e9 + 13;
    let x10: int = window(c8(), 0x7cb3e1a2603e17ccaea166845a31c01b29a9594324362f0cf46ad3205b99d01int, 13, q());
    assert(x10 == 0x4d4702cdb92e56026d9b8f3ff18fa120e3a0cde038373f8b2f20b8bb42bde1dint);
    lemma_pow_mod_window(c8(), x10, e10, 7, q());
    let e11: nat = 16 * e10 + 7;
    let x11: int = window(c8(), 0x4d4702cdb92e56026d9b8f3ff18fa120e3a0cde038373f8b2f20b8bb42bde1dint, 7, q());
    assert(x11 == 0x53b65ea925c1a3d5c359e58dcf457df00dd256802000c85109cb937deb7c2530int);
    lemma_pow_mod_window(c8(), x11, e11, 2, q());
    let e12: nat = 16 * e11 + 2;
    let x12: int = window(c8(), 0x53b65ea925c1a3d5c359e58dcf457df00dd256802000c85109cb937deb7c2530int, 2, q());
    assert(x12 == 0x66771b99a4aef8d86d0c3ff7a43985cd4f800bb6ec36bb22a20f92f2494c7794int);
    assert(e12 == 0x1c98a5af9d72nat);
}

/// A power of a power of seven.
#[verifier::rlimit(60)]
proof fn lemma_pow_modulus_step_23()
    ensures
        pow_mod(c8(), 0x1c98a5af9d72eda1nat, q()) == 0x672315bde95b3660335e8a5dcace029b6404f0331eae7401fa8c8374cd50438dint,
{
    lemma_pow_modulus_step_23_part_3();
    let e12: nat = 0x1c98a5af9d72nat;
    let x12: int = 0x66771b99a4aef8d86d0c3ff7a43985cd4f800bb6ec36bb22a20f92f2494c7794int;
    lemma_pow_mod_window(c8(), x12, e12, 14, q());
    let e13: nat = 16 * e12 + 14;
    let x13: int = window(c8(), 0x66771b99a4aef8d86d0c3ff7a43985cd4f800bb6ec36bb22a20f92f2494c7794int, 14, q());
    assert(x13 == 0x6fcfe5ecd1e85eee30ba67701582035571ac244a8ca6bde4cfb91a893a059d2cint);
    lemma_pow_mod_window(c8(), x13, e13, 13, q());
    let e14: nat = 16 * e13 + 13;
    let x14: int = window(c8(), 0x6fcfe5ecd1e85eee30ba67701582035571ac244a8ca6bde4cfb91a893a059d2cint, 13, q());
    assert(x14 == 0x42e72ba9fe0d63e46ec313254e09da7993538135c9636698f99d75d0c75d7258int);
    lemma_pow_mod_window(c8(), x14, e14, 10, q());
    let e15: nat = 16 * e14 + 10;
    let x15: int = window(c8(), 0x42e72ba9fe0d63e46ec313254e09da7993538135c9636698f99d75d0c75d7258int, 10, q());
    assert(x15 == 0x1910442b27d1711a103bb88a57b701eab9ea57b692d6b7c16a03370db661f0b5int);
    lemma_pow_mod_window(c8(), x15, e15, 1, q());
    let e16: nat = 16 * e15 + 1;
    let x16: int = window(c8(), 0x1910442b27d1711a103bb88a57b701eab9ea57b692d6b7c16a03370db661f0b5int, 1, q());
    assert(x16 == 0x672315bde95b3660335e8a5dcace029b6404f0331eae7401fa8c8374cd50438dint);
    assert(e16 == 0x1c98a5af9d72eda1nat);
}

/// A power of seven on the way to the powers `(modulus() - 1) / r`.
proof fn lemma_pow_modulus_part_24()
    ensures
        pow_mod(7, 0x8d78125d75c79835b9d4a08c8b4df9daa6ac02e94e9bce6edd500000000nat, 0x73eda753299d7d483339d80809a1d80553bda402fffe5bfeffffffff00000001int) == 0x672315bde95b3660335e8a5dcace029b6404f0331eae7401fa8c8374cd50438dint,
{
    lemma_pow_modulus_part_22();
    lemma_pow_modulus_step_23();
    lemma_pow_mod_chain(7, 0x4f27605afca701ecf78da2038208ce0f0bb500000000nat, 0x1c98a5af9d72eda1nat, 0x73eda753299d7d483339d80809a1d80553bda402fffe5bfeffffffff00000001int, 0x49614fd2937e262eeb7ad28e7c380be90ec3d86abb1935d26aea6d107f789a7aint, 0x672315bde95b3660335e8a5dcace029b6404f0331eae7401fa8c8374cd50438dint);
    assert(0x4f27605afca701ecf78da2038208ce0f0bb500000000nat * 0x1c98a5af9d72eda1nat == 0x8d78125d75c79835b9d4a08c8b4df9daa6ac02e94e9bce6edd500000000nat) by (nonlinear_arith);
}

/// Seven to the power `(modulus() - 1) / 859267`.
proof fn lemma_pow_modulus_without_859267()
    ensures
        pow_mod(7, 0x8d78125d75c79835b9d4a08c8b4df9daa6ac02e94e9bce6edd500000000nat, 0x73eda753299d7d483339d80809a1d80553bda402fffe5bfeffffffff00000001int) == 0x672315bde95b3660335e8a5dcace029b6404f0331eae7401fa8c8374cd50438dint,
{
    lemma_pow_modulus_part_24();
}

/// A part of the way to the next power.
#[verifier::rlimit(60)]
proof fn lemma_pow_modulus_step_25_part_1()
    ensures
        pow_mod(c8(), 53704nat, q()) == 0x402d2177b4623d28975a15ade55f30d765733fb73d0c25e3c7e01742b5801c7fint,
{
    let e0: nat = 0nat;
    let x0: int = 1int;
    lemma_pow_mod_window(c8(), x0, e0, 13, q());
    let e1: nat = 16 * e0 + 13;
    let x1: int = window(c8(), 1int, 13, q());
    assert(x1 == 0x6f4963080c547adbe486306b5f16d6f075bcc59ceab4046407bf9698b7634f3cint);
    lemma_pow_mod_window(c8(), x1, e1, 1, q());
    let e2: nat = 16 * e1 + 1;
    let x2: int = window(c8(), 0x6f4963080c547adbe486306b5f16d6f075bcc59ceab4046407bf9698b7634f3cint, 1, q());
    assert(x2 == 0x2189213fb2bdbfef6bc12e1fcd02bc06b9b91c68053bcac3692f318427198bbdint);
    lemma_pow_mod_window(c8(), x2, e2, 12, q());
    let e3: nat = 16 * e2 + 12;
    let x3: int = window(c8(), 0x2189213fb2bdbfef6bc12e1fcd02bc06b9b91c68053bcac3692f318427198bbdint, 12, q());
    assert(x3 == 0x159bf588701e69e6f9901e80a4e9997a04d82ebe97609dccadf11342acbed8eint);
    lemma_pow_mod_window(c8(), x3, e3, 8, q());
    let e4: nat = 16 * e3 + 8;
    let x4: int = window(c8(), 0x159bf588701e69e6f9901e80a4e9997a04d82ebe97609dccadf11342acbed8eint, 8, q());
    assert(x4 == 0x402d2177b4623d28975a15ade55f30d765733fb73d0c25e3c7e01742b5801c7fint);
    assert(e4 == 53704nat);
}

/// A power of a power of seven.
#[verifier::rlimit(60)]
proof fn lemma_pow_modulus_step_25()
    ensures
        pow_mod(c8(), 859267nat, q()) == 0x5c43735f86f528bc363c82613a3a5deb0065be448b50f6b07f98fc35793d2286int,
{
    lemma_pow_modulus_step_25_part_1();
    let e4: nat = 53704nat;
    let x4: int = 0x402d2177b4623d28975a15ade55f30d765733fb73d0c25e3c7e01742b5801c7fint;
    lemma_pow_mod_window(c8(), x4, e4, 3, q());
    let e5: nat = 16 * e4 + 3;
    let x5: int = window(c8(), 0x402d2177b4623d28975a15ade55f30d765733fb73d0c25e3c7e01742b5801c7fint, 3, q());
    assert(x5 == 0x5c43735f86f528bc363c82613a3a5deb0065be448b50f6b07f98fc35793d2286int);
    assert(e5 == 859267nat);
}

/// A power of seven on the way to the powers `(modulus() - 1) / r`.
proof fn lemma_pow_modulus_part_26()
    ensures
        pow_mod(7, 0x40dd0b44f16aca6b47987655fe476f7ceaf2bc99f00000000nat, 0x73eda753299d7d483339d80809a1d80553bda402fffe5bfeffffffff00000001int) == 0x5c43735f86f528bc363c82613a3a5deb0065be448b50f6b07f98fc35793d2286int,
{
    lemma_pow_modulus_part_22();
    lemma_pow_modulus_step_25();
    lemma_pow_mod_chain(7, 0x4f27605afca701ecf78da2038208ce0f0bb500000000nat, 859267nat, 0x73eda753299d7d483339d80809a1d80553bda402fffe5bfeffffffff00000001int, 0x49614fd2937e262eeb7ad28e7c380be90ec3d86abb1935d26aea6d107f789a7aint, 0x5c43735f86f528bc363c82613a3a5deb0065be448b50f6b07f98fc35793d2286int);
    assert(0x4f27605afca701ecf78da2038208ce0f0bb500000000nat * 859267nat == 0x40dd0b44f16aca6b47987655fe476f7ceaf2bc99f00000000nat) by (nonlinear_arith);
}

#[verifier::inline]
spec fn c9() -> int {
    0x5c43735f86f528bc363c82613a3a5deb0065be448b50f6b07f98fc35793d2286int
}

/// A part of the way to the next power.
#[verifier::rlimit(60)]
proof fn lemma_pow_modulus_step_27_part_1()
    ensures
        pow_mod(c9(), 9798nat, q()) == 0x244e27a6f009802a8a753dc51ea61e523049e509e9c1a2b767b925766616390fint,
{
    let e0: nat = 0nat;
    let x0: int = 1int;
    lemma_pow_mod_window(c9(), x0, e0, 2, q());
    let e1: nat = 16 * e0 + 2;
    let x1: int = window(c9(), 1int, 2, q());
    assert(x1 == 0x54b25a630986e354f8f3daad615601df12de1e79d2f3b19453fb7764a06b4a36int);
    lemma_pow_mod_window(c9(), x1, e1, 6, q());
    let e2: nat = 16 * e1 + 6;
    let x2: int = window(c9(), 0x54b25a630986e354f8f3daad615601df12de1e79d2f3b19453fb7764a06b4a36int, 6, q());
    assert(x2 == 0x3f41185c66fd3245779102647227e6e16c9d817de1992fd7e51a9e22116670f1int);
    lemma_pow_mod_window(c9(), x2, e2, 4, q());
    let e3: nat = 16 * e2 + 4;
    let x3: int = window(c9(), 0x3f41185c66fd3245779102647227e6e16c9d817de1992fd7e51a9e22116670f1int, 4, q());
    assert(x3 == 0x1838f09c0517afd1e06b6b6e35f75f43d0f3ed54c342b8b564a33fb98c9ba117int);
    lemma_pow_mod_window(c9(), x3, e3, 6, q());
    let e4: nat = 16 * e3 + 6;
    let x4: int = window(c9(), 0x1838f09c0517afd1e06b6b6e35f75f43d0f3ed54c342b8b564a33fb98c9ba117int, 6, q());
    assert(x4 == 0x244e27a6f009802a8a753dc51ea61e523049e509e9c1a2b767b925766616390fint);
    assert(e4 == 9798nat);
}

/// A power of a power of seven.
#[verifier::rlimit(60)]
proof fn lemma_pow_modulus_step_27()
    ensures
        pow_mod(c9(), 0x264679nat, q()) == 0x280062eda106a93b65a1a160c5966bfc3a73c23ea38424170b3b5f6ed82f9752int,
{
    lemma_pow_modulus_step_27_part_1();
    let e4: nat = 9798nat;
    let x4: int = 0x244e27a6f009802a8a753dc51ea61e523049e509e9c1a2b767b925766616390fint;
    lemma_pow_mod_window(c9(), x4, e4, 7, q());
    let e5: nat = 16 * e4 + 7;
    let x5: int = window(c9(), 0x244e27a6f009802a8a753dc51ea61e523049e509e9c1a2b767b925766616390fint, 7, q());
    assert(x5 == 0x1037245e4e9ee826aec16f89c955d701a306eeec10452220615b220b7f9b3e5cint);
    lemma_pow_mod_window(c9(), x5, e5, 9, q());
    let e6: nat = 16 * e5 + 9;
    let x6: int = window(c9(), 0x1037245e4e9ee826aec16f89c955d701a306eeec10452220615b220b7f9b3e5cint, 9, q());
    assert(x6 == 0x280062eda106a93b65a1a160c5966bfc3a73c23ea38424170b3b5f6ed82f9752int);
    assert(e6 == 0x264679nat);
}

/// A power of seven on the way to the powers `(modulus() - 1) / r`.
proof fn lemma_pow_modulus_part_28()
    ensures
        pow_mod(7, 0x9b2aac5cb03735abfa2ea182f30c744caba516b26dc62700000000nat, 0x73eda753299d7d483339d80809a1d80553bda402fffe5bfeffffffff00000001int) == 0x280062eda106a93b65a1a160c5966bfc3a73c23ea38424170b3b5f6ed82f9752int,
{
    lemma_pow_modulus_part_26();
    lemma_pow_modulus_step_27();
    lemma_pow_mod_chain(7, 0x40dd0b44f16aca6b47987655fe476f7ceaf2bc99f00000000nat, 0x264679nat, 0x73eda753299d7d483339d80809a1d80553bda402fffe5bfeffffffff00000001int, 0x5c43735f86f528bc363c82613a3a5deb0065be448b50f6b07f98fc35793d2286int, 0x280062eda106a93b65a1a160c5966bfc3a73c23ea38424170b3b5f6ed82f9752int);
    assert(0x40dd0b44f16aca6b47987655fe476f7ceaf2bc99f00000000nat * 0x264679nat == 0x9b2aac5cb03735abfa2ea182f30c744caba516b26dc62700000000nat) by (nonlinear_arith);
}

#[verifier::inline]
spec fn c10() -> int {
    0x280062eda106a93b65a1a160c5966bfc3a73c23ea38424170b3b5f6ed82f9752int
}

/// A part of the way to the next power.
#[verifier::rlimit(60)]
proof fn lemma_pow_modulus_step_29_part_1()
    ensures
        pow_mod(c10(), 56646nat, q()) == 0x89b86230f41f9d89ffe6ba5b263ff18659c18a79a1e163f4926ab8def070ec5int,
{
    let e0: nat = 0nat;
    let x0: int = 1int;
    lemma_pow_mod_window(c10(), x0, e0, 13, q());
    let e1: nat = 16 * e0 + 13;
    let x1: int = window(c10(), 1int, 13, q());
    assert(x1 == 0x31774a3f273bfb6e884d139b27e676d97e2769631ff883afe899c4aa9d4c7d01int);
    lemma_pow_mod_window(c10(), x1, e1, 13, q());
    let e2: nat = 16 * e1 + 13;
    let x2: int = window(c10(), 0x31774a3f273bfb6e884d139b27e676d97e2769631ff883afe899c4aa9d4c7d01int, 13, q());
    assert(x2 == 0x17d5c0036b8656ed6072845d983f35a39a1dd7e00d01d3a313c3cace1e951170int);
    lemma_pow_mod_window(c10(), x2, e2, 4, q());
    let e3: nat = 16 * e2 + 4;
    let x3: int = window(c10(), 0x17d5c0036b8656ed6072845d983f35a39a1dd7e00d01d3a313c3cace1e951170int, 4, q());
    assert(x3 == 0x3ca6211350f1a5555c55d80c02ed8bbbaa6b3f8e8b3c19e426c60c8737a89601int);
    lemma_pow_mod_window(c10(), x3, e3, 6, q());
    let e4: nat = 16 * e3 + 6;
    let x4: int = window(c10(), 0x3ca6211350f1a5555c55d80c02ed8bbbaa6b3f8e8b3c19e426c60c8737a89601int, 6, q());
    assert(x4 == 0x89b86230f41f9d89ffe6ba5b263ff18659c18a79a1e163f4926ab8def070ec5int);
    assert(e4 == 56646nat);
}

/// A power of a power of seven.
#[verifier::rlimit(60)]
proof fn lemma_pow_modulus_step_29()
    ensures
        pow_mod(c10(), 906349nat, q()) == 0x67ee5d1f3b069511cd89744d5897256537cb1d8475a21d7924a57ba2b69a4d76int,
{
    lemma_pow_modulus_step_29_part_1();
    let e4: nat = 56646nat;
    let x4: int = 0x89b86230f41f9d89ffe6ba5b263ff18659c18a79a1e163f4926ab8def070ec5int;
    lemma_pow_mod_window(c10(), x4, e4, 13, q());
    let e5: nat = 16 * e4 + 13;
    let x5: int = window(c10(), 0x89b86230f41f9d89ffe6ba5b263ff18659c18a79a1e163f4926ab8def070ec5int, 13, q());
    assert(x5 == 0x67ee5d1f3b069511cd89744d5897256537cb1d8475a21d7924a57ba2b69a4d76int);
    assert(e5 == 906349nat);
}

/// Seven to the power `(modulus() - 1) / 906349`.
proof fn lemma_pow_modulus_without_906349()
    ensures
        pow_mod(7, 0x861ec289d183279aff9c657418da9b481ba2bf325fff0d0aa9b00000000nat, 0x73eda753299d7d483339d80809a1d80553bda402fffe5bfeffffffff00000001int) == 0x67ee5d1f3b069511cd89744d5897256537cb1d8475a21d7924a57ba2b69a4d76int,
{
    lemma_pow_modulus_part_28();
    lemma_pow_modulus_step_29();
    lemma_pow_mod_chain(7, 0x9b2aac5cb03735abfa2ea182f30c744caba516b26dc62700000000nat, 906349nat, 0x73eda753299d7d483339d80809a1d80553bda402fffe5bfeffffffff00000001int, 0x280062eda106a93b65a1a160c5966bfc3a73c23ea38424170b3b5f6ed82f9752int, 0x67ee5d1f3b069511cd89744d5897256537cb1d8475a21d7924a57ba2b69a4d76int);
    assert(0x9b2aac5cb03735abfa2ea182f30c744caba516b26dc62700000000nat * 906349nat == 0x861ec289d183279aff9c657418da9b481ba2bf325fff0d0aa9b00000000nat) by (nonlinear_arith);
}

/// A part of the way to the next power.
#[verifier::rlimit(60)]
proof fn lemma_pow_modulus_step_30_part_1()
    ensures
        pow_mod(c9(), 48963nat, q()) == 0x6fef0f766f7c7dcda5a3e784b9c7066f7daf004af03ffe981440581614d874d1int,
{
    let e0: nat = 0nat;
    let x0: int = 1int;
    lemma_pow_mod_window(c9(), x0, e0, 11, q());
    let e1: nat = 16 * e0 + 11;
    let x1: int = window(c9(), 1int, 11, q());
    assert(x1 == 0x617fb53dcdd5c29548e0f6813273b26344ba027e9ba90a739316733e71bb93a8int);
    lemma_pow_mod_window(c9(), x1, e1, 15, q());
    let e2: nat = 16 * e1 + 15;
    let x2: int = window(c9(), 0x617fb53dcdd5c29548e0f6813273b26344ba027e9ba90a739316733e71bb93a8int, 15, q());
    assert(x2 == 0x6c0f629e81b9d7036c9f92f13b0f1bb138c5801005754583d7f69bccda653ae7int);
    lemma_pow_mod_window(c9(), x2, e2, 4, q());
    let e3: nat = 16 * e2 + 4;
    let x3: int = window(c9(), 0x6c0f629e81b9d7036c9f92f13b0f1bb138c5801005754583d7f69bccda653ae7int, 4, q());
    assert(x3 == 0x3cba7bbf43709b8f791991a385f22c3ff2d31a7a425e13d4414fa365b5349509int);
    lemma_pow_mod_window(c9(), x3, e3, 3, q());
    let e4: nat = 16 * e3 + 3;
    let x4: int = window(c9(), 0x3cba7bbf43709b8f791991a385f22c3ff2d31a7a425e13d4414fa365b5349509int, 3, q());
    assert(x4 == 0x6fef0f766f7c7dcda5a3e784b9c7066f7daf004af03ffe981440581614d874d1int);
    assert(e4 == 48963nat);
}

/// A part of the way to the next power.
#[verifier::rlimit(60)]
proof fn lemma_pow_modulus_step_30_part_2()
    ensures
        pow_mod(c9(), 0xbf4356b6nat, q()) == 0x62c4d612db1b6c214031a99ea32db4f271ded65d317fee3fb813586755a84be0int,
{
    lemma_pow_modulus_step_30_part_1();
    let e4: nat = 48963nat;
    let x4: int = 0x6fef0f766f7c7dcda5a3e784b9c7066f7daf004af03ffe981440581614d874d1int;
    lemma_pow_mod_window(c9(), x4, e4, 5, q());
    let e5: nat = 16 * e4 + 5;
    let x5: int = window(c9(), 0x6fef0f766f7c7dcda5a3e784b9c7066f7daf004af03ffe981440581614d874d1int, 5, q());
    assert(x5 == 0x1a8ae7d369f99d52ad72d1adfb6371ee47f1b0b88aa31b2af6402ab6d65f89b9int);
    lemma_pow_mod_window(c9(), x5, e5, 6, q());
    let e6: nat = 16 * e5 + 6;
    let x6: int = window(c9(), 0x1a8ae7d369f99d52ad72d1adfb6371ee47f1b0b88aa31b2af6402ab6d65f89b9int, 6, q());
    assert(x6 == 0x2b06a67020eb4fb49e6e1da14fa276aea80a426b70a3597bd8d26aa2670ba0feint);
    lemma_pow_mod_window(c9(), x6, e6, 11, q());
    let e7: nat = 16 * e6 + 11;
    let x7: int = window(c9(), 0x2b06a67020eb4fb49e6e1da14fa276aea80a426b70a3597bd8d26aa2670ba0feint, 11, q());
    assert(x7 == 0x6e608426e0b78717ed1646afd8e70a25e9c14f3c5c4831697e7ef1afb8d28b09int);
    lemma_pow_mod_window(c9(), x7, e7, 6, q());
    let e8: nat = 16 * e7 + 6;
    let x8: int = window(c9(), 0x6e608426e0b78717ed1646afd8e70a25e9c14f3c5c4831697e7ef1afb8d28b09int, 6, q());
    assert(x8 == 0x62c4d612db1b6c214031a99ea32db4f271ded65d317fee3fb813586755a84be0int);
    assert(e8 == 0xbf4356b6nat);
}

/// A power of a power of seven.
#[verifier::rlimit(60)]
proof fn lemma_pow_modulus_step_30()
    ensures
        pow_mod(c9(), 0xbf4356b669nat, q()) == 0x86fb27a35f67dd3f695a1e882f5bdb7c92d2f844520e02c83a6bcd031849292int,
{
    lemma_pow_modulus_step_30_part_2();
    let e8: nat = 0xbf4356b6nat;
    let x8: int = 0x62c4d612db1b6c214031a99ea32db4f271ded65d317fee3fb813586755a84be0int;
    lemma_pow_mod_window(c9(), x8, e8, 6, q());
    let e9: nat = 16 * e8 + 6;
    let x9: int = window(c9(), 0x62c4d612db1b6c214031a99ea32db4f271ded65d317fee3fb813586755a84be0int, 6, q());
    assert(x9 == 0x55e5d05543d8eed6cf22bf3b7f5b456de2a0bb85c9df5c1e4cb6162a0655d044int);
    lemma_pow_mod_window(c9(), x9, e9, 9, q());
    let e10: nat = 16 * e9 + 9;
    let x10: int = window(c9(), 0x55e5d05543d8eed6cf22bf3b7f5b456de2a0bb85c9df5c1e4cb6162a0655d044int, 9, q());
    assert(x10 == 0x86fb27a35f67dd3f695a1e882f5bdb7c92d2f844520e02c83a6bcd031849292int);
    assert(e10 == 0xbf4356b669nat);
}

/// A power of seven on the way to the powers `(modulus() - 1) / r`.
proof fn lemma_pow_modulus_part_31()
    ensures
        pow_mod(7, 0x3075fb3adcb3b1b5cd6f3c893fbb65f86c851eb506a52b6bc3700000000nat, 0x73eda753299d7d483339d80809a1d80553bda402fffe5bfeffffffff00000001int) == 0x86fb27a35f67dd3f695a1e882f5bdb7c92d2f844520e02c83a6bcd031849292int,
{
    lemma_pow_modulus_part_26();
    lemma_pow_modulus_step_30();
    lemma_pow_mod_chain(7, 0x40dd0b44f16aca6b47987655fe476f7ceaf2bc99f00000000nat, 0xbf4356b669nat, 0x73eda753299d7d483339d80809a1d80553bda402fffe5bfeffffffff00000001int, 0x5c43735f86f528bc363c82613a3a5deb0065be448b50f6b07f98fc35793d2286int, 0x86fb27a35f67dd3f695a1e882f5bdb7c92d2f844520e02c83a6bcd031849292int);
    assert(0x40dd0b44f16aca6b47987655fe476f7ceaf2bc99f00000000nat * 0xbf4356b669nat == 0x3075fb3adcb3b1b5cd6f3c893fbb65f86c851eb506a52b6bc3700000000nat) by (nonlinear_arith);
}

/// Seven to the power `(modulus() - 1) / 2508409`.
proof fn lemma_pow_modulus_without_2508409()
    ensures
        pow_mod(7, 0x3075fb3adcb3b1b5cd6f3c893fbb65f86c851eb506a52b6bc3700000000nat, 0x73eda753299d7d483339d80809a1d80553bda402fffe5bfeffffffff00000001int) == 0x86fb27a35f67dd3f695a1e882f5bdb7c92d2f844520e02c83a6bcd031849292int,
{
    lemma_pow_modulus_part_31();
}

/// A part of the way to the next power.
#[verifier::rlimit(60)]
proof fn lemma_pow_modulus_step_32_part_1()
    ensures
        pow_mod(c7(), 5998nat, q()) == 0x2e8c7e7a767d4ad7e415701c934581ca5026efe1d1455f3a99589ece2de03446int,
{
    let e0: nat = 0nat;
    let x0: int = 1int;
    lemma_pow_mod_window(c7(), x0, e0, 1, q());
    let e1: nat = 16 * e0 + 1;
    let x1: int = window(c7(), 1int, 1, q());
    assert(x1 == 0x5ea0c14d97beffde1b221b1880a5c077c1a1ad1bad9184ffc0f5ec71e3b52a90int);
    lemma_pow_mod_window(c7(), x1, e1, 7, q());
    let e2: nat = 16 * e1 + 7;
    let x2: int = window(c7(), 0x5ea0c14d97beffde1b221b1880a5c077c1a1ad1bad9184ffc0f5ec71e3b52a90int, 7, q());
    assert(x2 == 0xe0f5e2c762cbd20cf261bc5e5231a9847c4c265a23a53cb080d6524c2c32ba4int);
    lemma_pow_mod_window(c7(), x2, e2, 6, q());
    let e3: nat = 16 * e2 + 6;
    let x3: int = window(c7(), 0xe0f5e2c762cbd20cf261bc5e5231a9847c4c265a23a53cb080d6524c2c32ba4int, 6, q());
    assert(x3 == 0x61ecbb9af9e928a0c756c6bd94a7e366e12052372d5c13b0936ae8cbf89ec14dint);
    lemma_pow_mod_window(c7(), x3, e3, 14, q());
    let e4: nat = 16 * e3 + 14;
    let x4: int = window(c7(), 0x61ecbb9af9e928a0c756c6bd94a7e366e12052372d5c13b0936ae8cbf89ec14dint, 14, q());
    assert(x4 == 0x2e8c7e7a767d4ad7e415701c934581ca5026efe1d1455f3a99589ece2de03446int);
    assert(e4 == 5998nat);
}

/// A part of the way to the next power.
#[verifier::rlimit(60)]
proof fn lemma_pow_modulus_step_32_part_2()
    ensures
        pow_mod(c7(), 0x176efbe2nat, q()) == 0x31ffe15620d3378bd1dc7c35b7bd5b926072a748de88608f2b02cd9644bbefa2int,
{
    lemma_pow_modulus_step_32_part_1();
    let e4: nat = 5998nat;
    let x4: int = 0x2e8c7e7a767d4ad7e415701c934581ca5026efe1d1455f3a99589ece2de03446int;
    lemma_pow_mod_window(c7(), x4, e4, 15, q());
    let e5: nat = 16 * e4 + 15;
    let x5: int = window(c7(), 0x2e8c7e7a767d4ad7e415701c934581ca5026efe1d1455f3a99589ece2de03446int, 15, q());
    assert(x5 == 0x5ac26fd479c321a1660f5c8a45d4791eb14e87165e5bc35eecbc4059f917c4a4int);
    lemma_pow_mod_window(c7(), x5, e5, 11, q());
    let e6: nat = 16 * e5 + 11;
    let x6: int = window(c7(), 0x5ac26fd479c321a1660f5c8a45d4791eb14e87165e5bc35eecbc4059f917c4a4int, 11, q());
    assert(x6 == 0x55654922ba81462e2a3fe53e5bcf8b35ed79c8d0b76edb062b5706f56423f94eint);
    lemma_pow_mod_window(c7(), x6, e6, 14, q());
    let e7: nat = 16 * e6 + 14;
    let x7: int = window(c7(), 0x55654922ba81462e2a3fe53e5bcf8b35ed79c8d0b76edb062b5706f56423f94eint, 14, q());
    assert(x7 == 0x542148e8507699adcfc8696123632ba027288bdc5287cfd2e348f5b736ed65f9int);
    lemma_pow_mod_window(c7(), x7, e7, 2, q());
    let e8: nat = 16 * e7 + 2;
    let x8: int = window(c7(), 0x542148e8507699adcfc8696123632ba027288bdc5287cfd2e348f5b736ed65f9int, 2, q());
    assert(x8 == 0x31ffe15620d3378bd1dc7c35b7bd5b926072a748de88608f2b02cd9644bbefa2int);
    assert(e8 == 0x176efbe2nat);
}

/// A part of the way to the next power.
#[verifier::rlimit(60)]
proof fn lemma_pow_modulus_step_32_part_3()
    ensures
        pow_mod(c7(), 0x176efbe26fcenat, q()) == 0x37bdb5f7b934fbb7e51033c930b098fdb5d8a7f515c2e3efe63358dd3139309aint,
{
    lemma_pow_modulus_step_32_part_2();
    let e8: nat = 0x176efbe2nat;
    let x8: int = 0x31ffe15620d3378bd1dc7c35b7bd5b926072a748de88608f2b02cd9644bbefa2int;
    lemma_pow_mod_window(c7(), x8, e8, 6, q());
    let e9: nat = 16 * e8 + 6;
    let x9: int = window(c7(), 0x31ffe15620d3378bd1dc7c35b7bd5b926072a748de88608f2b02cd9644bbefa2int, 6, q());
    assert(x9 == 0x10252fb5d826f2276829d3284c81da6ba0ceb80c546e93fab2eb9379156067d7int);
    lemma_pow_mod_window(c7(), x9, e9, 15, q());
    let e10: nat = 16 * e9 + 15;
    let x10: int = window(c7(), 0x10252fb5d826f2276829d3284c81da6ba0ceb80c546e93fab2eb9379156067d7int, 15, q());
    assert(x10 == 0x5d97d049c45ef7d4620a54bc1efbc602a4f353fdf7eff11c00d75f9dc213cca9int);
    lemma_pow_mod_window(c7(), x10, e10, 12, q());
    let e11: nat = 16 * e10 + 12;
    let x11: int = window(c7(), 0x5d97d049c45ef7d4620a54bc1efbc602a4f353fdf7eff11c00d75f9dc213cca9int, 12, q());
    assert(x11 == 0x2928798d967770b92cddc67d0aa42b4452be33208d8f1496dbabf4fae9d8ed71int);
    lemma_pow_mod_window(c7(), x11, e11, 14, q());
    let e12: nat = 16 * e11 + 14;
    let x12: int = window(c7(), 0x2928798d967770b92cddc67d0aa42b4452be33208d8f1496dbabf4fae9d8ed71int, 14, q());
    assert(x12 == 0x37bdb5f7b934fbb7e51033c930b098fdb5d8a7f515c2e3efe63358dd3139309aint);
    assert(e12 == 0x176efbe26fcenat);
}

/// A part of the way to the next power.
#[verifier::rlimit(60)]
proof fn lemma_pow_modulus_step_32_part_4()
    ensures
        pow_mod(c7(), 0x176efbe26fcec34fnat, q()) == 0x4fff2169bd8055b3520c0cf49bea189e95fcfbccbbd01c1045af2cf52721c114int,
{
    lemma_pow_modulus_step_32_part_3();
    let e12: nat = 0x176efbe26fcenat;
    let x12: int = 0x37bdb5f7b934fbb7e51033c930b098fdb5d8a7f515c2e3efe63358dd3139309aint;
    lemma_pow_mod_window(c7(), x12, e12, 12, q());
    let e13: nat = 16 * e12 + 12;
    let x13: int = window(c7(), 0x37bdb5f7b934fbb7e51033c930b098fdb5d8a7f515c2e3efe63358dd3139309aint, 12, q());
    assert(x13 == 0x235e39f3614066943498c04000e29d63a7a276031f2386824d702fa3f6c51329int);
    lemma_pow_mod_window(c7(), x13, e13, 3, q());
    let e14: nat = 16 * e13 + 3;
    let x14: int = window(c7(), 0x235e39f3614066943498c04000e29d63a7a276031f2386824d702fa3f6c51329int, 3, q());
    assert(x14 == 0x1d2ba37fc8554876911433544e7b45f6ff73f7f17b6700b4bf71032a9ced7ba9int);
    lemma_pow_mod_window(c7(), x14, e14, 4, q());
    let e15: nat = 16 * e14 + 4;
    let x15: int = window(c7(), 0x1d2ba37fc8554876911433544e7b45f6ff73f7f17b6700b4bf71032a9ced7ba9int, 4, q());
    assert(x15 == 0x3cb255fb8063552fb78f975bcc07e0bb6d470efd4094471b8f537a970eed9c7fint);
    lemma_pow_mod_window(c7(), x15, e15, 15, q());
    let e16: nat = 16 * e15 + 15;
    let x16: int = window(c7(), 0x3cb255fb8063552fb78f975bcc07e0bb6d470efd4094471b8f537a970eed9c7fint, 15, q());
    assert(x16 == 0x4fff2169bd8055b3520c0cf49bea189e95fcfbccbbd01c1045af2cf52721c114int);
    assert(e16 == 0x176efbe26fcec34fnat);
}

/// A part of the way to the next power.
#[verifier::rlimit(60)]
proof fn lemma_pow_modulus_step_32_part_5()
    ensures
        pow_mod(c7(), 0x176efbe26fcec34fa356nat, q()) == 0x8ee81b5787395f6a2e09661a8435cb44daa1928c33d1895e341de751de5aa13int,
{
    lemma_pow_modulus_step_32_part_4();
    let e16: nat = 0x176efbe26fcec34fnat;
    let x16: int = 0x4fff2169bd8055b3520c0cf49bea189e95fcfbccbbd01c1045af2cf52721c114int;
    lemma_pow_mod_window(c7(), x16, e16, 10, q());
    let e17: nat = 16 * e16 + 10;
    let x17: int = window(c7(), 0x4fff2169bd8055b3520c0cf49bea189e95fcfbccbbd01c1045af2cf52721c114int, 10, q());
    assert(x17 == 0x15691f0d856d23d413d0fe5986737bda08b5a6726cd40ec7b723ef1323d387c7int);
    lemma_pow_mod_window(c7(), x17, e17, 3, q());
    let e18: nat = 16 * e17 + 3;
    let x18: int = window(c7(), 0x15691f0d856d23d413d0fe5986737bda08b5a6726cd40ec7b723ef1323d387c7int, 3, q());
    assert(x18 == 0x13f9a0fb90fd5aefcc3414c18b2bd370477df074c76d57333604fe70ca07dfa7int);
    lemma_pow_mod_window(c7(), x18, e18, 5, q());
    let e19: nat = 16 * e18 + 5;
    let x19: int = window(c7(), 0x13f9a0fb90fd5aefcc3414c18b2bd370477df074c76d57333604fe70ca07dfa7int, 5, q());
    assert(x19 == 0x6c1bfafca60a69b871ccccf30d5b3191e1954466846648d8151f82c3942e93a5int);
    lemma_pow_mod_window(c7(), x19, e19, 6, q());
    let e20: nat = 16 * e19 + 6;
    let x20: int = window(c7(), 0x6c1bfafca60a69b871ccccf30d5b3191e1954466846648d8151f82c3942e93a5int, 6, q());
    assert(x20 == 0x8ee81b5787395f6a2e09661a8435cb44daa1928c33d1895e341de751de5aa13int);
    assert(e20 == 0x176efbe26fcec34fa356nat);
}

/// A power of a power of seven.
#[verifier::rlimit(60)]
proof fn lemma_pow_modulus_step_32()
    ensures
        pow_mod(c7(), 0x176efbe26fcec34fa3563nat, q()) == 0x62df1aa89244a482424e370fb0892d4518c249ad4f1045765573b2f47046b27dint,
{
    lemma_pow_modulus_step_32_part_5();
    let e20: nat = 0x176efbe26fcec34fa356nat;
    let x20: int = 0x8ee81b5787395f6a2e09661a8435cb44daa1928c33d1895e341de751de5aa13int;
    lemma_pow_mod_window(c7(), x20, e20, 3, q());
    let e21: nat = 16 * e20 + 3;
    let x21: int = window(c7(), 0x8ee81b5787395f6a2e09661a8435cb44daa1928c33d1895e341de751de5aa13int, 3, q());
    assert(x21 == 0x62df1aa89244a482424e370fb0892d4518c249ad4f1045765573b2f47046b27dint);
    assert(e21 == 0x176efbe26fcec34fa3563nat);
}

/// A power of seven on the way to the powers `(modulus() - 1) / r`.
proof fn lemma_pow_modulus_part_33()
    ensures
        pow_mod(7, 0x111235d6671ee6372514d704e81aa5f00000000nat, 0x73eda753299d7d483339d80809a1d80553bda402fffe5bfeffffffff00000001int) == 0x62df1aa89244a482424e370fb0892d4518c249ad4f1045765573b2f47046b27dint,
{
    lemma_pow_modulus_part_20();
    lemma_pow_modulus_step_32();
    lemma_pow_mod_chain(7, 0xba7e6f75d500000000nat, 0x176efbe26fcec34fa3563nat, 0x73eda753299d7d483339d80809a1d80553bda402fffe5bfeffffffff00000001int, 0x5ea0c14d97beffde1b221b1880a5c077c1a1ad1bad9184ffc0f5ec71e3b52a90int, 0x62df1aa89244a482424e370fb0892d4518c249ad4f1045765573b2f47046b27dint);
    assert(0xba7e6f75d500000000nat * 0x176efbe26fcec34fa3563nat == 0x111235d6671ee6372514d704e81aa5f00000000nat) by (nonlinear_arith);
}

#[verifier::inline]
spec fn c11() -> int {
    0x62df1aa89244a482424e370fb0892d4518c249ad4f1045765573b2f47046b27dint
}

/// A part of the way to the next power.
#[verifier::rlimit(60)]
proof fn lemma_pow_modulus_step_34_part_1()
    ensures
        pow_mod(c11(), 11531nat, q()) == 0x16aea98ac675022a1ddc275d991b6b5694fb8e51304940613eed0a01ffa943a8int,
{
    let e0: nat = 0nat;
    let x0: int = 1int;
    lemma_pow_mod_window(c11(), x0, e0, 2, q());
    let e1: nat = 16 * e0 + 2;
    let x1: int = window(c11(), 1int, 2, q());
    assert(x1 == 0x625a39908b4223cb2edbc3f9de6575ef363d14d371c139d7bb632c8b1bfb0e33int);
    lemma_pow_mod_window(c11(), x1, e1, 13, q());
    let e2: nat = 16 * e1 + 13;
    let x2: int = window(c11(), 0x625a39908b4223cb2edbc3f9de6575ef363d14d371c139d7bb632c8b1bfb0e33int, 13, q());
    assert(x2 == 0x6d6e181397bfc17ec1b56514c3cff9b9161126d72954e4139aca517088bf7059int);
    lemma_pow_mod_window(c11(), x2, e2, 0, q());
    let e3: nat = 16 * e2 + 0;
    let x3: int = window(c11(), 0x6d6e181397bfc17ec1b56514c3cff9b9161126d72954e4139aca517088bf7059int, 0, q());
    assert(x3 == 0x4aeb5b66331790a3e4044c6f21f991301a53cb6fdbef5ee32032950eac958dbcint);
    lemma_pow_mod_window(c11(), x3, e3, 11, q());
    let e4: nat = 16 * e3 + 11;
    let x4: int = window(c11(), 0x4aeb5b66331790a3e4044c6f21f991301a53cb6fdbef5ee32032950eac958dbcint, 11, q());
    assert(x4 == 0x16aea98ac675022a1ddc275d991b6b5694fb8e51304940613eed0a01ffa943a8int);
    assert(e4 == 11531nat);
}

/// A part of the way to the next power.
#[verifier::rlimit(60)]
proof fn lemma_pow_modulus_step_34_part_2()
    ensures
        pow_mod(c11(), 0x2d0b0e2bnat, q()) == 0x3317e33e9372bb8166313bfcd3d26de4e92ec867f61fca0696aae8e451c7b422int,
{
    lemma_pow_modulus_step_34_part_1();
    let e4: nat = 11531nat;
    let x4: int = 0x16aea98ac675022a1ddc275d991b6b5694fb8e51304940613eed0a01ffa943a8int;
    lemma_pow_mod_window(c11(), x4, e4, 0, q());
    let e5: nat = 16 * e4 + 0;
    let x5: int = window(c11(), 0x16aea98ac675022a1ddc275d991b6b5694fb8e51304940613eed0a01ffa943a8int, 0, q());
    assert(x5 == 0x526094588407397de844c1cd6d206ca373d6228c901fdfb4660e69d0fa7c825aint);
    lemma_pow_mod_window(c11(), x5, e5, 14, q());
    let e6: nat = 16 * e5 + 14;
    let x6: int = window(c11(), 0x526094588407397de844c1cd6d206ca373d6228c901fdfb4660e69d0fa7c825aint, 14, q());
    assert(x6 == 0x40bd64d86e7d5b6402f88fe7387287b7d87f33aa2ce86080ff22bde43e5e7111int);
    lemma_pow_mod_window(c11(), x6, e6, 2, q());
    let e7: nat = 16 * e6 + 2;
    let x7: int = window(c11(), 0x40bd64d86e7d5b6402f88fe7387287b7d87f33aa2ce86080ff22bde43e5e7111int, 2, q());
    assert(x7 == 0x7135eb597de09630d9b0a22978301740ef4db55b6b1b71d3de0197b31343de3bint);
    lemma_pow_mod_window(c11(), x7, e7, 11, q());
    let e8: nat = 16 * e7 + 11;
    let x8: int = window(c11(), 0x7135eb597de09630d9b0a22978301740ef4db55b6b1b71d3de0197b31343de3bint, 11, q());
    assert(x8 == 0x3317e33e9372bb8166313bfcd3d26de4e92ec867f61fca0696aae8e451c7b422int);
    assert(e8 == 0x2d0b0e2bnat);
}

/// A part of the way to the next power.
#[verifier::rlimit(60)]
proof fn lemma_pow_modulus_step_34_part_3()
    ensures
        pow_mod(c11(), 0x2d0b0e2bbbf0nat, q()) == 0x69e986033c1b8ca552dcbad5d20e860aed59374f631963b144f66e7dcc279dbdint,
{
    lemma_pow_modulus_step_34_part_2();
    let e8: nat = 0x2d0b0e2bnat;
    let x8: int = 0x3317e33e9372bb8166313bfcd3d26de4e92ec867f61fca0696aae8e451c7b422int;
    lemma_pow_mod_window(c11(), x8, e8, 11, q());
    let e9: nat = 16 * e8 + 11;
    let x9: int = window(c11(), 0x3317e33e9372bb8166313bfcd3d26de4e92ec867f61fca0696aae8e451c7b422int, 11, q());
    assert(x9 == 0x519f9126322db43714b700c992d31c7e57abbff86d2bcf483a5964fa96ac3de0int);
    lemma_pow_mod_window(c11(), x9, e9, 11, q());
    let e10: nat = 16 * e9 + 11;
    let x10: int = window(c11(), 0x519f9126322db43714b700c992d31c7e57abbff86d2bcf483a5964fa96ac3de0int, 11, q());
    assert(x10 == 0x1c9eb124cdbdcc4b43d9c9eb910a98817757b12f240066d87d2a2a0e68295cf2int);
    lemma_pow_mod_window(c11(), x10, e10, 15, q());
    let e11: nat = 16 * e10 + 15;
    let x11: int = window(c11(), 0x1c9eb124cdbdcc4b43d9c9eb910a98817757b12f240066d87d2a2a0e68295cf2int, 15, q());
    assert(x11 == 0x3916ae7f3f20a7f1bf5d75230c3075ceb32903ad53464be64ea9f70162a0881dint);
    lemma_pow_mod_window(c11(), x11, e11, 0, q());
    let e12: nat = 16 * e11 + 0;
    let x12: int = window(c11(), 0x3916ae7f3f20a7f1bf5d75230c3075ceb32903ad53464be64ea9f70162a0881dint, 0, q());
    assert(x12 == 0x69e986033c1b8ca552dcbad5d20e860aed59374f631963b144f66e7dcc279dbdint);
    assert(e12 == 0x2d0b0e2bbbf0nat);
}

/// A part of the way to the next power.
#[verifier::rlimit(60)]
proof fn lemma_pow_modulus_step_34_part_4()
    ensures
        pow_mod(c11(), 0x2d0b0e2bbbf0fe26nat, q()) == 0x4a06e9a59cc59180dfe9112e2b9951f5b9664bc6baa36fff4a4e8f948ab6a80bint,
{
    lemma_pow_modulus_step_34_part_3();
    let e12: nat = 0x2d0b0e2bbbf0nat;
    let x12: int = 0x69e986033c1b8ca552dcbad5d20e860aed59374f631963b144f66e7dcc279dbdint;
    lemma_pow_mod_window(c11(), x12, e12, 15, q());
    let e13: nat = 16 * e12 + 15;
    let x13: int = window(c11(), 0x69e986033c1b8ca552dcbad5d20e860aed59374f631963b144f66e7dcc279dbdint, 15, q());
    assert(x13 == 0x65a7ef83c70c1978b17c405c55db132ccc5769dac213f6654861f5d355f298d1int);
    lemma_pow_mod_window(c11(), x13, e13, 14, q());
    let e14: nat = 16 * e13 + 14;
    let x14: int = window(c11(), 0x65a7ef83c70c1978b17c405c55db132ccc5769dac213f6654861f5d355f298d1int, 14, q());
    assert(x14 == 0x578fd9c8d95e9253df5fb5a263b67705748c73369842d0ae70857e3bdaf3032eint);
    lemma_pow_mod_window(c11(), x14, e14, 2, q());
    let e15: nat = 16 * e14 + 2;
    let x15: int = window(c11(), 0x578fd9c8d95e9253df5fb5a263b67705748c73369842d0ae70857e3bdaf3032eint, 2, q());
    assert(x15 == 0x4f0e361ca32837a8ec0130ff88a083cca7e1ef63c0d214b017b9ddb5481161ddint);
    lemma_pow_mod_window(c11(), x15, e15, 6, q());
    let e16: nat = 16 * e15 + 6;
    let x16: int = window(c11(), 0x4f0e361ca32837a8ec0130ff88a083cca7e1ef63c0d214b017b9ddb5481161ddint, 6, q());
    assert(x16 == 0x4a06e9a59cc59180dfe9112e2b9951f5b9664bc6baa36fff4a4e8f948ab6a80bint);
    assert(e16 == 0x2d0b0e2bbbf0fe26nat);
}

/// A part of the way to the next power.
#[verifier::rlimit(60)]
proof fn lemma_pow_modulus_step_34_part_5()
    ensures
        pow_mod(c11(), 0x2d0b0e2bbbf0fe26e13dnat, q()) == 0x3df40ce2e12f48c16686acc178fcf98dced633f5c33ad1f934faf5ad0b9454b5int,
{
    lemma_pow_modulus_step_34_part_4();
    let e16: nat = 0x2d0b0e2bbbf0fe26nat;
    let x16: int = 0x4a06e9a59cc59180dfe9112e2b9951f5b9664bc6baa36fff4a4e8f948ab6a80bint;
    lemma_pow_mod_window(c11(), x16, e16, 14, q());
    let e17: nat = 16 * e16 + 14;
    let x17: int = window(c11(), 0x4a06e9a59cc59180dfe9112e2b9951f5b9664bc6baa36fff4a4e8f948ab6a80bint, 14, q());
    assert(x17 == 0x8923d5456e7921fdd4ac7efa4ab7951719b1cdbaed8db5a82e3aed0aadb2b3int);
    lemma_pow_mod_window(c11(), x17, e17, 1, q());
    let e18: nat = 16 * e17 + 1;
    let x18: int = window(c11(), 0x8923d5456e7921fdd4ac7efa4ab7951719b1cdbaed8db5a82e3aed0aadb2b3int, 1, q());
    assert(x18 == 0x5effdee2cba312caba2f6e70c1740c2c97034505f5a92d13156af524f25a5cfaint);
    lemma_pow_mod_window(c11(), x18, e18, 3, q());
    let e19: nat = 16 * e18 + 3;
    let x19: int = window(c11(), 0x5effdee2cba312caba2f6e70c1740c2c97034505f5a92d13156af524f25a5cfaint, 3, q());
    assert(x19 == 0x300bd10416183945738512090057ac9803ff395bb5149539d9de44e84a84b264int);
    lemma_pow_mod_window(c11(), x19, e19, 13, q());
    let e20: nat = 16 * e19 + 13;
    let x20: int = window(c11(), 0x300bd10416183945738512090057ac9803ff395bb5149539d9de44e84a84b264int, 13, q());
    assert(x20 == 0x3df40ce2e12f48c16686acc178fcf98dced633f5c33ad1f934faf5ad0b9454b5int);
    assert(e20 == 0x2d0b0e2bbbf0fe26e13dnat);
}

/// A power of a power of seven.
#[verifier::rlimit(60)]
proof fn lemma_pow_modulus_step_34()
    ensures
        pow_mod(c11(), 0x2d0b0e2bbbf0fe26e13d3nat, q()) == 0x6d8ceec08003f0a44f6c0b36a44ab7b7576b0589fa20719fc0b3e86b24aeeacfint,
{
    lemma_pow_modulus_step_34_part_5();
    let e20: nat = 0x2d0b0e2bbbf0fe26e13dnat;
    let x20: int = 0x3df40ce2e12f48c16686acc178fcf98dced633f5c33ad1f934faf5ad0b9454b5int;
    lemma_pow_mod_window(c11(), x20, e20, 3, q());
    let e21: nat = 16 * e20 + 3;
    let x21: int = window(c11(), 0x3df40ce2e12f48c16686acc178fcf98dced633f5c33ad1f934faf5ad0b9454b5int, 3, q());
    assert(x21 == 0x6d8ceec08003f0a44f6c0b36a44ab7b7576b0589fa20719fc0b3e86b24aeeacfint);
    assert(e21 == 0x2d0b0e2bbbf0fe26e13d3nat);
}

/// A power of seven on the way to the powers `(modulus() - 1) / r`.
proof fn lemma_pow_modulus_part_35()
    ensures
        pow_mod(7, 0x300f030e9e000cb5822fe1d39dfd8723956566d3a146756794d00000000nat, 0x73eda753299d7d483339d80809a1d80553bda402fffe5bfeffffffff00000001int) == 0x6d8ceec08003f0a44f6c0b36a44ab7b7576b0589fa20719fc0b3e86b24aeeacfint,
{
    lemma_pow_modulus_part_33();
    lemma_pow_modulus_step_34();
    lemma_pow_mod_chain(7, 0x111235d6671ee6372514d704e81aa5f00000000nat, 0x2d0b0e2bbbf0fe26e13d3nat, 0x73eda753299d7d483339d80809a1d80553bda402fffe5bfeffffffff00000001int, 0x62df1aa89244a482424e370fb0892d4518c249ad4f1045765573b2f47046b27dint, 0x6d8ceec08003f0a44f6c0b36a44ab7b7576b0589fa20719fc0b3e86b24aeeacfint);
    assert(0x111235d6671ee6372514d704e81aa5f00000000nat * 0x2d0b0e2bbbf0fe26e13d3nat == 0x300f030e9e000cb5822fe1d39dfd8723956566d3a146756794d00000000nat) by (nonlinear_arith);
}

/// Seven to the power `(modulus() - 1) / 2529403`.
proof fn lemma_pow_modulus_without_2529403()
    ensures
        pow_mod(7, 0x300f030e9e000cb5822fe1d39dfd8723956566d3a146756794d00000000nat, 0x73eda753299d7d483339d80809a1d80553bda402fffe5bfeffffffff00000001int) == 0x6d8ceec08003f0a44f6c0b36a44ab7b7576b0589fa20719fc0b3e86b24aeeacfint,
{
    lemma_pow_modulus_part_35();
}

/// A part of the way to the next power.
#[verifier::rlimit(60)]
proof fn lemma_pow_modulus_step_36_part_1()
    ensures
        pow_mod(c11(), 9880nat, q()) == 0x2c0a5688ce47cb9a8b299b79bc577c87fbd137e029b46cd99d6d36bfb1c2aa05int,
{
    let e0: nat = 0nat;
    let x0: int = 1int;
    lemma_pow_mod_window(c11(), x0, e0, 2, q());
    let e1: nat = 16 * e0 + 2;
    let x1: int = window(c11(), 1int, 2, q());
    assert(x1 == 0x625a39908b4223cb2edbc3f9de6575ef363d14d371c139d7bb632c8b1bfb0e33int);
    lemma_pow_mod_window(c11(), x1, e1, 6, q());
    let e2: nat = 16 * e1 + 6;
    let x2: int = window(c11(), 0x625a39908b4223cb2edbc3f9de6575ef363d14d371c139d7bb632c8b1bfb0e33int, 6, q());
    assert(x2 == 0xa295d3af729dafdbd0fe77d8dbd40f7c5fe3812d1bbe1de9b222ec43578ad7cint);
    lemma_pow_mod_window(c11(), x2, e2, 9, q());
    let e3: nat = 16 * e2 + 9;
    let x3: int = window(c11(), 0xa295d3af729dafdbd0fe77d8dbd40f7c5fe3812d1bbe1de9b222ec43578ad7cint, 9, q());
    assert(x3 == 0x243dab7767af8c58bfead755b48b2ac402bfe374928915ad6f9b5f134c533447int);
    lemma_pow_mod_window(c11(), x3, e3, 8, q());
    let e4: nat = 16 * e3 + 8;
    let x4: int = window(c11(), 0x243dab7767af8c58bfead755b48b2ac402bfe374928915ad6f9b5f134c533447int, 8, q());
    assert(x4 == 0x2c0a5688ce47cb9a8b299b79bc577c87fbd137e029b46cd99d6d36bfb1c2aa05int);
    assert(e4 == 9880nat);
}

/// A power of a power of seven.
#[verifier::rlimit(60)]
proof fn lemma_pow_modulus_step_36()
    ensures
        pow_mod(c11(), 0x26987bnat, q()) == 0x4a63f1b786e9747ef7625b40280c49758e95924795e512eb6a5753516a561901int,
{
    lemma_pow_modulus_step_36_part_1();
    let e4: nat = 9880nat;
    let x4: int = 0x2c0a5688ce47cb9a8b299b79bc577c87fbd137e029b46cd99d6d36bfb1c2aa05int;
    lemma_pow_mod_window(c11(), x4, e4, 7, q());
    let e5: nat = 16 * e4 + 7;
    let x5: int = window(c11(), 0x2c0a5688ce47cb9a8b299b79bc577c87fbd137e029b46cd99d6d36bfb1c2aa05int, 7, q());
    assert(x5 == 0x53b84410e827fd14201833f808406d566ffa1d2f9af538860713ff745ab9420dint);
    lemma_pow_mod_window(c11(), x5, e5, 11, q());
    let e6: nat = 16 * e5 + 11;
    let x6: int = window(c11(), 0x53b84410e827fd14201833f808406d566ffa1d2f9af538860713ff745ab9420dint, 11, q());
    assert(x6 == 0x4a63f1b786e9747ef7625b40280c49758e95924795e512eb6a5753516a561901int);
    assert(e6 == 0x26987bnat);
}

/// A power of seven on the way to the powers `(modulus() - 1) / r`.
proof fn lemma_pow_modulus_part_37()
    ensures
        pow_mod(7, 0x292df018a79d410b8db9b1b68ad1ff8f43a500000000nat, 0x73eda753299d7d483339d80809a1d80553bda402fffe5bfeffffffff00000001int) == 0x4a63f1b786e9747ef7625b40280c49758e95924795e512eb6a5753516a561901int,
{
    lemma_pow_modulus_part_33();
    lemma_pow_modulus_step_36();
    lemma_pow_mod_chain(7, 0x111235d6671ee6372514d704e81aa5f00000000nat, 0x26987bnat, 0x73eda753299d7d483339d80809a1d80553bda402fffe5bfeffffffff00000001int, 0x62df1aa89244a482424e370fb0892d4518c249ad4f1045765573b2f47046b27dint, 0x4a63f1b786e9747ef7625b40280c49758e95924795e512eb6a5753516a561901int);
    assert(0x111235d6671ee6372514d704e81aa5f00000000nat * 0x26987bnat == 0x292df018a79d410b8db9b1b68ad1ff8f43a500000000nat) by (nonlinear_arith);
}

#[verifier::inline]
spec fn c12() -> int {
    0x4a63f1b786e9747ef7625b40280c49758e95924795e512eb6a5753516a561901int
}

/// A part of the way to the next power.
#[verifier::rlimit(60)]
proof fn lemma_pow_modulus_step_38_part_1()
    ensures
        pow_mod(c12(), 59028nat, q()) == 0x400d4193a39725927f0dc53800769f7031f2bd4655988257390a6f48cff5286int,
{
    let e0: nat = 0nat;
    let x0: int = 1int;
    lemma_pow_mod_window(c12(), x0, e0, 14, q());
    let e1: nat = 16 * e0 + 14;
    let x1: int = window(c12(), 1int, 14, q());
    assert(x1 == 0x6983573192199af2ebd1e12f30014962a573082f2b799eecaffa17955a53d532int);
    lemma_pow_mod_window(c12(), x1, e1, 6, q());
    let e2: nat = 16 * e1 + 6;
    let x2: int = window(c12(), 0x6983573192199af2ebd1e12f30014962a573082f2b799eecaffa17955a53d532int, 6, q());
    assert(x2 == 0x1a48e8e9e9b0d4f244e69d07da1a69be1b0f9e222a018c65556918bd8949618dint);
    lemma_pow_mod_window(c12(), x2, e2, 9, q());
    let e3: nat = 16 * e2 + 9;
    let x3: int = window(c12(), 0x1a48e8e9e9b0d4f244e69d07da1a69be1b0f9e222a018c65556918bd8949618dint, 9, q());
    assert(x3 == 0x1ce7033f15717cdf539f2cc4fa61687185919e46a2d3a344ad614b5ac0529ea8int);
    lemma_pow_mod_window(c12(), x3, e3, 4, q());
    let e4: nat = 16 * e3 + 4;
    let x4: int = window(c12(), 0x1ce7033f15717cdf539f2cc4fa61687185919e46a2d3a344ad614b5ac0529ea8int, 4, q());
    assert(x4 == 0x400d4193a39725927f0dc53800769f7031f2bd4655988257390a6f48cff5286int);
    assert(e4 == 59028nat);
}

/// A part of the way to the next power.
#[verifier::rlimit(60)]
proof fn lemma_pow_modulus_step_38_part_2()
    ensures
        pow_mod(c12(), 0xe694c24dnat, q()) == 0x380c98a88aba4d83f904bcd43e368ebfaed4643e6384cd06693a38ea0a3a78a5int,
{
    lemma_pow_modulus_step_38_part_1();
    let e4: nat = 59028nat;
    let x4: int = 0x400d4193a39725927f0dc53800769f7031f2bd4655988257390a6f48cff5286int;
    lemma_pow_mod_window(c12(), x4, e4, 12, q());
    let e5: nat = 16 * e4 + 12;
    let x5: int = window(c12(), 0x400d4193a39725927f0dc53800769f7031f2bd4655988257390a6f48cff5286int, 12, q());
    assert(x5 == 0x20eb72e3d37c6781c58ea9f9836802ce9e91105aeeee2fa767f419a8b52db386int);
    lemma_pow_mod_window(c12(), x5, e5, 2, q());
    let e6: nat = 16 * e5 + 2;
    let x6: int = window(c12(), 0x20eb72e3d37c6781c58ea9f9836802ce9e91105aeeee2fa767f419a8b52db386int, 2, q());
    assert(x6 == 0x46a5eb540abd40107fe488e421246a5158469bc740d084c9694a3ac0ccfc7bdcint);
    lemma_pow_mod_window(c12(), x6, e6, 4, q());
    let e7: nat = 16 * e6 + 4;
    let x7: int = window(c12(), 0x46a5eb540abd40107fe488e421246a5158469bc740d084c9694a3ac0ccfc7bdcint, 4, q());
    assert(x7 == 0x24afc4780db126ec0b6f602bdf08185e02c35b35dfcbc396cf79424dac1b5e56int);
    lemma_pow_mod_window(c12(), x7, e7, 13, q());
    let e8: nat = 16 * e7 + 13;
    let x8: int = window(c12(), 0x24afc4780db126ec0b6f602bdf08185e02c35b35dfcbc396cf79424dac1b5e56int, 13, q());
    assert(x8 == 0x380c98a88aba4d83f904bcd43e368ebfaed4643e6384cd06693a38ea0a3a78a5int);
    assert(e8 == 0xe694c24dnat);
}

/// A part of the way to the next power.
#[verifier::rlimit(60)]
proof fn lemma_pow_modulus_step_38_part_3()
    ensures
        pow_mod(c12(), 0xe694c24d9239nat, q()) == 0x21b6bedb76d12681b6c22cdb3602909c0ed21e16cfeebd9eff3a0c819b115df6int,
{
    lemma_pow_modulus_step_38_part_2();
    let e8: nat = 0xe694c24dnat;
    let x8: int = 0x380c98a88aba4d83f904bcd43e368ebfaed4643e6384cd06693a38ea0a3a78a5int;
    lemma_pow_mod_window(c12(), x8, e8, 9, q());
    let e9: nat = 16 * e8 + 9;
    let x9: int = window(c12(), 0x380c98a88aba4d83f904bcd43e368ebfaed4643e6384cd06693a38ea0a3a78a5int, 9, q());
    assert(x9 == 0x21fba7aaa4f14aba8ff9056ac5d611f4e6d9fa52782c1e89f9388638cc02935eint);
    lemma_pow_mod_window(c12(), x9, e9, 2, q());
    let e10: nat = 16 * e9 + 2;
    let x10: int = window(c12(), 0x21fba7aaa4f14aba8ff9056ac5d611f4e6d9fa52782c1e89f9388638cc02935eint, 2, q());
    assert(x10 == 0x3962931ca98aeef848ded012ceda497164fadedb180a084ea6d0ff9cbb62a54aint);
    lemma_pow_mod_window(c12(), x10, e10, 3, q());
    let e11: nat = 16 * e10 + 3;
    let x11: int = window(c12(), 0x3962931ca98aeef848ded012ceda497164fadedb180a084ea6d0ff9cbb62a54aint, 3, q());
    assert(x11 == 0x3430a86dc89e25df05157d5b77bcf4589a124f8a88cb1e785c1e8760528fc40dint);
    lemma_pow_mod_window(c12(), x11, e11, 9, q());
    let e12: nat = 16 * e11 + 9;
    let x12: int = window(c12(), 0x3430a86dc89e25df05157d5b77bcf4589a124f8a88cb1e785c1e8760528fc40dint, 9, q());
    assert(x12 == 0x21b6bedb76d12681b6c22cdb3602909c0ed21e16cfeebd9eff3a0c819b115df6int);
    assert(e12 == 0xe694c24d9239nat);
}

/// A power of a power of seven.
#[verifier::rlimit(60)]
proof fn lemma_pow_modulus_step_38()
    ensures
        pow_mod(c12(), 0xe694c24d9239d9nat, q()) == 0x3e39ee7633914a22fac6ea2b1dcd35740df1759a75ebe390042407c065689b64int,
{
    lemma_pow_modulus_step_38_part_3();
    let e12: nat = 0xe694c24d9239nat;
    let x12: int = 0x21b6bedb76d12681b6c22cdb3602909c0ed21e16cfeebd9eff3a0c819b115df6int;
    lemma_pow_mod_window(c12(), x12, e12, 13, q());
    let e13: nat = 16 * e12 + 13;
    let x13: int = window(c12(), 0x21b6bedb76d12681b6c22cdb3602909c0ed21e16cfeebd9eff3a0c819b115df6int, 13, q());
    assert(x13 == 0x230d2f004ec8a88342d1ab21d66acd153dc9ca58c0ad69b0e5f121c84392acffint);
    lemma_pow_mod_window(c12(), x13, e13, 9, q());
    let e14: nat = 16 * e13 + 9;
    let x14: int = window(c12(), 0x230d2f004ec8a88342d1ab21d66acd153dc9ca58c0ad69b0e5f121c84392acffint, 9, q());
    assert(x14 == 0x3e39ee7633914a22fac6ea2b1dcd35740df1759a75ebe390042407c065689b64int);
    assert(e14 == 0xe694c24d9239d9nat);
}

/// A power of seven on the way to the powers `(modulus() - 1) / r`.
proof fn lemma_pow_modulus_part_39()
    ensures
        pow_mod(7, 0x251733863f2196da0733fe157650f6f26ee230ebffbb9a13dd00000000nat, 0x73eda753299d7d483339d80809a1d80553bda402fffe5bfeffffffff00000001int) == 0x3e39ee7633914a22fac6ea2b1dcd35740df1759a75ebe390042407c065689b64int,
{
    lemma_pow_modulus_part_37();
    lemma_pow_modulus_step_38();
    lemma_pow_mod_chain(7, 0x292df018a79d410b8db9b1b68ad1ff8f43a500000000nat, 0xe694c24d9239d9nat, 0x73eda753299d7d483339d80809a1d80553bda402fffe5bfeffffffff00000001int, 0x4a63f1b786e9747ef7625b40280c49758e95924795e512eb6a5753516a561901int, 0x3e39ee7633914a22fac6ea2b1dcd35740df1759a75ebe390042407c065689b64int);
    assert(0x292df018a79d410b8db9b1b68ad1ff8f43a500000000nat * 0xe694c24d9239d9nat == 0x251733863f2196da0733fe157650f6f26ee230ebffbb9a13dd00000000nat) by (nonlinear_arith);
}

/// Seven to the power `(modulus() - 1) / 52437899`.
proof fn lemma_pow_modulus_without_52437899()
    ensures
        pow_mod(7, 0x251733863f2196da0733fe157650f6f26ee230ebffbb9a13dd00000000nat, 0x73eda753299d7d483339d80809a1d80553bda402fffe5bfeffffffff00000001int) == 0x3e39ee7633914a22fac6ea2b1dcd35740df1759a75ebe390042407c065689b64int,
{
    lemma_pow_modulus_part_39();
}

/// A part of the way to the next power.
#[verifier::rlimit(60)]
proof fn lemma_pow_modulus_step_40_part_1()
    ensures
        pow_mod(c12(), 12802nat, q()) == 0x6dd903d8e8d5f90a13c572bac97a1fbd5d5391c166cd79e3e291f5e6107fd2a3int,
{
    let e0: nat = 0nat;
    let x0: int = 1int;
    lemma_pow_mod_window(c12(), x0, e0, 3, q());
    let e1: nat = 16 * e0 + 3;
    let x1: int = window(c12(), 1int, 3, q());
    assert(x1 == 0x49af6e8da92c43cef4c4b6739e937c0c9d965703ff24321ebb1e7d2c2d1388ebint);
    lemma_pow_mod_window(c12(), x1, e1, 2, q());
    let e2: nat = 16 * e1 + 2;
    let x2: int = window(c12(), 0x49af6e8da92c43cef4c4b6739e937c0c9d965703ff24321ebb1e7d2c2d1388ebint, 2, q());
    assert(x2 == 0x3f6b1f1b9621a5380e728b629eee40fc4e764bec5e4ff7ff35ed2941fa8f8ebint);
    lemma_pow_mod_window(c12(), x2, e2, 0, q());
    let e3: nat = 16 * e2 + 0;
    let x3: int = window(c12(), 0x3f6b1f1b9621a5380e728b629eee40fc4e764bec5e4ff7ff35ed2941fa8f8ebint, 0, q());
    assert(x3 == 0x1ce107163af257b756b28f181db4e1b62d4e62e11b6417682677a012a2666466int);
    lemma_pow_mod_window(c12(), x3, e3, 2, q());
    let e4: nat = 16 * e3 + 2;
    let x4: int = window(c12(), 0x1ce107163af257b756b28f181db4e1b62d4e62e11b6417682677a012a2666466int, 2, q());
    assert(x4 == 0x6dd903d8e8d5f90a13c572bac97a1fbd5d5391c166cd79e3e291f5e6107fd2a3int);
    assert(e4 == 12802nat);
}

/// A power of a power of seven.
#[verifier::rlimit(60)]
proof fn lemma_pow_modulus_step_40()
    ensures
        pow_mod(c12(), 0x320238bnat, q()) == 0x349e06806ce9bcdd4fb75eda7fa689a5f400be5c8532b364c3bcb599da258460int,
{
    lemma_pow_modulus_step_40_part_1();
    let e4: nat = 12802nat;
    let x4: int = 0x6dd903d8e8d5f90a13c572bac97a1fbd5d5391c166cd79e3e291f5e6107fd2a3int;
    lemma_pow_mod_window(c12(), x4, e4, 3, q());
    let e5: nat = 16 * e4 + 3;
    let x5: int = window(c12(), 0x6dd903d8e8d5f90a13c572bac97a1fbd5d5391c166cd79e3e291f5e6107fd2a3int, 3, q());
    assert(x5 == 0x72528d64459c473db8b04c3420cfef5283d18922242759a56e00bfb97330e07bint);
    lemma_pow_mod_window(c12(), x5, e5, 8, q());
    let e6: nat = 16 * e5 + 8;
    let x6: int = window(c12(), 0x72528d64459c473db8b04c3420cfef5283d18922242759a56e00bfb97330e07bint, 8, q());
    assert(x6 == 0x4a28927be366393045799d347e5417fe985d8dcba9a10e012b5b5506bf6df186int);
    lemma_pow_mod_window(c12(), x6, e6, 11, q());
    let e7: nat = 16 * e6 + 11;
    let x7: int = window(c12(), 0x4a28927be366393045799d347e5417fe985d8dcba9a10e012b5b5506bf6df186int, 11, q());
    assert(x7 == 0x349e06806ce9bcdd4fb75eda7fa689a5f400be5c8532b364c3bcb599da258460int);
    assert(e7 == 0x320238bnat);
}

/// A power of seven on the way to the powers `(modulus() - 1) / r`.
proof fn lemma_pow_modulus_part_41()
    ensures
        pow_mod(7, 0x80b545f0d087b8c661c9f1b1914356b5a9bca9499700000000nat, 0x73eda753299d7d483339d80809a1d80553bda402fffe5bfeffffffff00000001int) == 0x349e06806ce9bcdd4fb75eda7fa689a5f400be5c8532b364c3bcb599da258460int,
{
    lemma_pow_modulus_part_37();
    lemma_pow_modulus_step_40();
    lemma_pow_mod_chain(7, 0x292df018a79d410b8db9b1b68ad1ff8f43a500000000nat, 0x320238bnat, 0x73eda753299d7d483339d80809a1d80553bda402fffe5bfeffffffff00000001int, 0x4a63f1b786e9747ef7625b40280c49758e95924795e512eb6a5753516a561901int, 0x349e06806ce9bcdd4fb75eda7fa689a5f400be5c8532b364c3bcb599da258460int);
    assert(0x292df018a79d410b8db9b1b68ad1ff8f43a500000000nat * 0x320238bnat == 0x80b545f0d087b8c661c9f1b1914356b5a9bca9499700000000nat) by (nonlinear_arith);
}

#[verifier::inline]
spec fn c13() -> int {
    0x349e06806ce9bcdd4fb75eda7fa689a5f400be5c8532b364c3bcb599da258460int
}

/// A part of the way to the next power.
#[verifier::rlimit(60)]
proof fn lemma_pow_modulus_step_42_part_1()
    ensures
        pow_mod(c13(), 62197nat, q()) == 0x2e417f09afe9f08fffaa343740202b357bb76978ac1da1a63dbf3659cbcd3c29int,
{
    let e0: nat = 0nat;
    let x0: int = 1int;
    lemma_pow_mod_window(c13(), x0, e0, 15, q());
    let e1: nat = 16 * e0 + 15;
    let x1: int = window(c13(), 1int, 15, q());
    assert(x1 == 0x1a1ef689b49c0d2fdb6e818ac6a2a111c0bd0c863e33f77adb83f3286d9807f5int);
    lemma_pow_mod_window(c13(), x1, e1, 2, q());
    let e2: nat = 16 * e1 + 2;
    let x2: int = window(c13(), 0x1a1ef689b49c0d2fdb6e818ac6a2a111c0bd0c863e33f77adb83f3286d9807f5int, 2, q());
    assert(x2 == 0x37d16f5df616205394f00f2b63063fb20774140e56429f5b1d63a0dbd3281c3fint);
    lemma_pow_mod_window(c13(), x2, e2, 15, q());
    let e3: nat = 16 * e2 + 15;
    let x3: int = window(c13(), 0x37d16f5df616205394f00f2b63063fb20774140e56429f5b1d63a0dbd3281c3fint, 15, q());
    assert(x3 == 0x2b6a4e8083d419cac9a11f8d7309c5ae8a7d0f308832a0b105478dcc4dd7c223int);
    lemma_pow_mod_window(c13(), x3, e3, 5, q());
    let e4: nat = 16 * e3 + 5;
    let x4: int = window(c13(), 0x2b6a4e8083d419cac9a11f8d7309c5ae8a7d0f308832a0b105478dcc4dd7c223int, 5, q());
    assert(x4 == 0x2e417f09afe9f08fffaa343740202b357bb76978ac1da1a63dbf3659cbcd3c29int);
    assert(e4 == 62197nat);
}

/// A power of a power of seven.
#[verifier::rlimit(60)]
proof fn lemma_pow_modulus_step_42()
    ensures
        pow_mod(c13(), 0xf2f5565nat, q()) == 0x4a7a5acf5dc0e762414782ae22b4119ca76fee9d4c748ed263a7435fa7fde54fint,
{
    lemma_pow_modulus_step_42_part_1();
    let e4: nat = 62197nat;
    let x4: int = 0x2e417f09afe9f08fffaa343740202b357bb76978ac1da1a63dbf3659cbcd3c29int;
    lemma_pow_mod_window(c13(), x4, e4, 5, q());
    let e5: nat = 16 * e4 + 5;
    let x5: int = window(c13(), 0x2e417f09afe9f08fffaa343740202b357bb76978ac1da1a63dbf3659cbcd3c29int, 5, q());
    assert(x5 == 0x670251e32fce94b91b37f1dd86a6172f88f0e2c94c96f3b166b1ad8e30e09f7eint);
    lemma_pow_mod_window(c13(), x5, e5, 6, q());
    let e6: nat = 16 * e5 + 6;
    let x6: int = window(c13(), 0x670251e32fce94b91b37f1dd86a6172f88f0e2c94c96f3b166b1ad8e30e09f7eint, 6, q());
    assert(x6 == 0x4d6995b8a5d3589d338e80e689f87c7ee6abb4097193b6a9aabfd45f12c43e67int);
    lemma_pow_mod_window(c13(), x6, e6, 5, q());
    let e7: nat = 16 * e6 + 5;
    let x7: int = window(c13(), 0x4d6995b8a5d3589d338e80e689f87c7ee6abb4097193b6a9aabfd45f12c43e67int, 5, q());
    assert(x7 == 0x4a7a5acf5dc0e762414782ae22b4119ca76fee9d4c748ed263a7435fa7fde54fint);
    assert(e7 == 0xf2f5565nat);
}

/// Seven to the power `(modulus() - 1) / 254760293`.
proof fn lemma_pow_modulus_without_254760293()
    ensures
        pow_mod(7, 0x7a26b4feb2bc9fde20c8df96908edbb3ba7be95fffff22b9300000000nat, 0x73eda753299d7d483339d80809a1d80553bda402fffe5bfeffffffff00000001int) == 0x4a7a5acf5dc0e762414782ae22b4119ca76fee9d4c748ed263a7435fa7fde54fint,
{
    lemma_pow_modulus_part_41();
    lemma_pow_modulus_step_42();
    lemma_pow_mod_chain(7, 0x80b545f0d087b8c661c9f1b1914356b5a9bca9499700000000nat, 0xf2f5565nat, 0x73eda753299d7d483339d80809a1d80553bda402fffe5bfeffffffff00000001int, 0x349e06806ce9bcdd4fb75eda7fa689a5f400be5c8532b364c3bcb599da258460int, 0x4a7a5acf5dc0e762414782ae22b4119ca76fee9d4c748ed263a7435fa7fde54fint);
    assert(0x80b545f0d087b8c661c9f1b1914356b5a9bca9499700000000nat * 0xf2f5565nat == 0x7a26b4feb2bc9fde20c8df96908edbb3ba7be95fffff22b9300000000nat) by (nonlinear_arith);
}

/// The order of the scalar field is a prime: every residue but zero has an inverse.
pub proof fn lemma_modulus_prime()
    ensures
        all_units(0x73eda753299d7d483339d80809a1d80553bda402fffe5bfeffffffff00000001int),
{
    let l: Seq<nat> = Seq::new(45, |i: int| if i < 32 { 2nat } else if i < 33 { 3nat } else if i < 34 { 11nat } else if i < 35 { 19nat } else if i < 36 { 10177nat } else if i < 37 { 125527nat } else if i < 38 { 859267nat } else if i < 40 { 906349nat } else if i < 41 { 0x264679nat } else if i < 42 { 0x26987bnat } else if i < 43 { 0x320238bnat } else { 0xf2f5565nat });
    lemma_prime_2();
    lemma_prime_3();
    lemma_prime_11();
    lemma_prime_19();
    lemma_prime_10177();
    lemma_prime_125527();
    lemma_prime_859267();
    lemma_prime_906349();
    lemma_prime_2508409();
    lemma_prime_2529403();
    lemma_prime_52437899();
    lemma_prime_254760293();
    assert(product(l.take(0)) == 1);
    lemma_product_next(l, 0, 1nat, 2nat);
    assert(product(l.take(1)) == 2nat);
    lemma_product_next(l, 1, 2nat, 2nat);
    assert(product(l.take(2)) == 4nat);
    lemma_product_next(l, 2, 4nat, 2nat);
    assert(product(l.take(3)) == 8nat);
    lemma_product_next(l, 3, 8nat, 2nat);
    assert(product(l.take(4)) == 16nat);
    lemma_product_next(l, 4, 16nat, 2nat);
    assert(product(l.take(5)) == 32nat);
    lemma_product_next(l, 5, 32nat, 2nat);
    assert(product(l.take(6)) == 64nat);
    lemma_product_next(l, 6, 64nat, 2nat);
    assert(product(l.take(7)) == 128nat);
    lemma_product_next(l, 7, 128nat, 2nat);
    assert(product(l.take(8)) == 256nat);
    lemma_product_next(l, 8, 256nat, 2nat);
    assert(product(l.take(9)) == 512nat);
    lemma_product_next(l, 9, 512nat, 2nat);
    assert(product(l.take(10)) == 1024nat);
    lemma_product_next(l, 10, 1024nat, 2nat);
    assert(product(l.take(11)) == 2048nat);
    lemma_product_next(l, 11, 2048nat, 2nat);
    assert(product(l.take(12)) == 4096nat);
    lemma_product_next(l, 12, 4096nat, 2nat);
    assert(product(l.take(13)) == 8192nat);
    lemma_product_next(l, 13, 8192nat, 2nat);
    assert(product(l.take(14)) == 16384nat);
    lemma_product_next(l, 14, 16384nat, 2nat);
    assert(product(l.take(15)) == 32768nat);
    lemma_product_next(l, 15, 32768nat, 2nat);
    assert(product(l.take(16)) == 65536nat);
    lemma_product_next(l, 16, 65536nat, 2nat);
    assert(product(l.take(17)) == 131072nat);
    lemma_product_next(l, 17, 131072nat, 2nat);
    assert(product(l.take(18)) == 262144nat);
    lemma_product_next(l, 18, 262144nat, 2nat);
    assert(product(l.take(19)) == 524288nat);
    lemma_product_next(l, 19, 524288nat, 2nat);
    assert(product(l.take(20)) == 0x100000nat);
    lemma_product_next(l, 20, 0x100000nat, 2nat);
    assert(product(l.take(21)) == 0x200000nat);
    lemma_product_next(l, 21, 0x200000nat, 2nat);
    assert(product(l.take(22)) == 0x400000nat);
    lemma_product_next(l, 22, 0x400000nat, 2nat);
    assert(product(l.take(23)) == 0x800000nat);
    lemma_product_next(l, 23, 0x800000nat, 2nat);
    assert(product(l.take(24)) == 0x1000000nat);
    lemma_product_next(l, 24, 0x1000000nat, 2nat);
    assert(product(l.take(25)) == 0x2000000nat);
    lemma_product_next(l, 25, 0x2000000nat, 2nat);
    assert(product(l.take(26)) == 0x4000000nat);
    lemma_product_next(l, 26, 0x4000000nat, 2nat);
    assert(product(l.take(27)) == 0x8000000nat);
    lemma_product_next(l, 27, 0x8000000nat, 2nat);
    assert(product(l.take(28)) == 0x10000000nat);
    lemma_product_next(l, 28, 0x10000000nat, 2nat);
    assert(product(l.take(29)) == 0x20000000nat);
    lemma_product_next(l, 29, 0x20000000nat, 2nat);
    assert(product(l.take(30)) == 0x40000000nat);
    lemma_product_next(l, 30, 0x40000000nat, 2nat);
    assert(product(l.take(31)) == 0x80000000nat);
    lemma_product_next(l, 31, 0x80000000nat, 2nat);
    assert(product(l.take(32)) == 0x100000000nat);
    lemma_product_next(l, 32, 0x100000000nat, 3nat);
    assert(product(l.take(33)) == 0x300000000nat);
    lemma_product_next(l, 33, 0x300000000nat, 11nat);
    assert(product(l.take(34)) == 0x2100000000nat);
    lemma_product_next(l, 34, 0x2100000000nat, 19nat);
    assert(product(l.take(35)) == 0x27300000000nat);
    lemma_product_next(l, 35, 0x27300000000nat, 10177nat);
    assert(product(l.take(36)) == 0x615db300000000nat);
    lemma_product_next(l, 36, 0x615db300000000nat, 125527nat);
    assert(product(l.take(37)) == 0xba7e6f75d500000000nat);
    lemma_product_next(l, 37, 0xba7e6f75d500000000nat, 859267nat);
    assert(product(l.take(38)) == 0x98d30ebdfbd97ff00000000nat);
    lemma_product_next(l, 38, 0x98d30ebdfbd97ff00000000nat, 906349nat);
    assert(product(l.take(39)) == 0x8418799b8657fd8be39300000000nat);
    lemma_product_next(l, 39, 0x8418799b8657fd8be39300000000nat, 906349nat);
    assert(product(l.take(40)) == 0x722dab00664f0f1895b7ca19700000000nat);
    lemma_product_next(l, 40, 0x722dab00664f0f1895b7ca19700000000nat, 0x264679nat);
    assert(product(l.take(41)) == 0x111235d6671ee6372514d704e81aa5f00000000nat);
    lemma_product_next(l, 41, 0x111235d6671ee6372514d704e81aa5f00000000nat, 0x26987bnat);
    assert(product(l.take(42)) == 0x292df018a79d410b8db9b1b68ad1ff8f43a500000000nat);
    lemma_product_next(l, 42, 0x292df018a79d410b8db9b1b68ad1ff8f43a500000000nat, 0x320238bnat);
    assert(product(l.take(43)) == 0x80b545f0d087b8c661c9f1b1914356b5a9bca9499700000000nat);
    lemma_product_next(l, 43, 0x80b545f0d087b8c661c9f1b1914356b5a9bca9499700000000nat, 0xf2f5565nat);
    assert(product(l.take(44)) == 0x7a26b4feb2bc9fde20c8df96908edbb3ba7be95fffff22b9300000000nat);
    lemma_product_next(l, 44, 0x7a26b4feb2bc9fde20c8df96908edbb3ba7be95fffff22b9300000000nat, 0xf2f5565nat);
    assert(product(l.take(45)) == 0x73eda753299d7d483339d80809a1d80553bda402fffe5bfeffffffff00000000nat);
    assert(l.take(45) =~= l);
    lemma_pow_modulus_full();
    lemma_pow_modulus_without_2();
    lemma_pow_modulus_without_3();
    lemma_pow_modulus_without_11();
    lemma_pow_modulus_without_19();
    lemma_pow_modulus_without_10177();
    lemma_pow_modulus_without_125527();
    lemma_pow_modulus_without_859267();
    lemma_pow_modulus_without_906349();
    lemma_pow_modulus_without_2508409();
    lemma_pow_modulus_without_2529403();
    lemma_pow_modulus_without_52437899();
    lemma_pow_modulus_without_254760293();
    assert forall|i: int| 0 <= i < l.len() implies all_units(#[trigger] l[i] as int) by {
    }
    assert forall|i: int| 0 <= i < l.len() implies pow_mod(
        7int,
        #[trigger] product(l.remove(i)),
        0x73eda753299d7d483339d80809a1d80553bda402fffe5bfeffffffff00000001int,
    ) != 1 by {
        if i < 32 {
            lemma_product_without(l, i, 2nat);
            assert(product(l.remove(i)) == 0x39f6d3a994cebea4199cec0404d0ec02a9ded2017fff2dff7fffffff80000000nat);
        } else if i < 33 {
            lemma_product_without(l, i, 3nat);
            assert(product(l.remove(i)) == 0x26a48d1bb889d46d66689d580335f2ac713f36abaaaa1eaa5555555500000000nat);
        } else if i < 34 {
            lemma_product_without(l, i, 11nat);
            assert(product(l.remove(i)) == 0xa89f7f04999f41dd61c8800bb0eb68c1ee2b1d1ba2e657445d1745d00000000nat);
        } else if i < 35 {
            lemma_product_without(l, i, 19nat);
            assert(product(l.remove(i)) == 0x619fb553815c339b1da9f94a230f06c11e18f5e79434835d79435e500000000nat);
        } else if i < 36 {
            lemma_product_without(l, i, 10177nat);
            assert(product(l.remove(i)) == 0x2ea88c64c8fb8b17f3d0bf3056626493bd62f0a299b16905017bf00000000nat);
        } else if i < 37 {
            lemma_product_without(l, i, 125527nat);
            assert(product(l.remove(i)) == 0x3c86504a1f91a36a677a9b5b8ddab737ef243e03188648495e9900000000nat);
        } else if i < 38 {
            lemma_product_without(l, i, 859267nat);
            assert(product(l.remove(i)) == 0x8d78125d75c79835b9d4a08c8b4df9daa6ac02e94e9bce6edd500000000nat);
        } else if i < 40 {
            lemma_product_without(l, i, 906349nat);
            assert(product(l.remove(i)) == 0x861ec289d183279aff9c657418da9b481ba2bf325fff0d0aa9b00000000nat);
        } else if i < 41 {
            lemma_product_without(l, i, 0x264679nat);
            assert(product(l.remove(i)) == 0x3075fb3adcb3b1b5cd6f3c893fbb65f86c851eb506a52b6bc3700000000nat);
        } else if i < 42 {
            lemma_product_without(l, i, 0x26987bnat);
            assert(product(l.remove(i)) == 0x300f030e9e000cb5822fe1d39dfd8723956566d3a146756794d00000000nat);
        } else if i < 43 {
            lemma_product_without(l, i, 0x320238bnat);
            assert(product(l.remove(i)) == 0x251733863f2196da0733fe157650f6f26ee230ebffbb9a13dd00000000nat);
        } else {
            lemma_product_without(l, i, 0xf2f5565nat);
            assert(product(l.remove(i)) == 0x7a26b4feb2bc9fde20c8df96908edbb3ba7be95fffff22b9300000000nat);
        }
    }
    lemma_lucas(7int, l, 0x73eda753299d7d483339d80809a1d80553bda402fffe5bfeffffffff00000001int);
}

} // verus!
