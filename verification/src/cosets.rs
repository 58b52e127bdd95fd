//! The cosets of the permutation argument are apart.
//!
//! The left wires live on the evaluation domain, the right wires on the
//! domain multiplied by `K1`, the output wires on the domain multiplied by
//! `K2`. No element lies in two of these sets: none of `K1`, `K2`, `K3`,
//! nor a ratio of two of them, is an element of a domain.

use vstd::prelude::*;
use vstd::arithmetic::power2::{lemma2_to64, lemma_pow2_adds, pow2};
use crate::constants::{K1, K2, K3};
use crate::domain::lemma_group_generator;
use crate::field::{
    fr_mul, fr_pow, group_fr_closed, lemma_fr_pow_is_pow_mod, lemma_mul_one, lemma_pow_of_mul,
    lemma_pow_of_one, lemma_pow_pow,
};
use crate::modular::{lemma_pow_mod_window, window};
use crate::roots::{group_generator, lemma_squarings_is_pow};

verus! {

/// The order of the scalar field.
#[verifier::inline]
spec fn q() -> int {
    0x73eda753299d7d483339d80809a1d80553bda402fffe5bfeffffffff00000001int
}

/// The order of the largest domain, `2^32`.
pub open spec fn largest_domain() -> nat {
    0x1_0000_0000
}

/// `K1` to the power of the order of the largest domain.
pub open spec fn k1_to_largest_domain() -> int {
    0x8634d0aa021aaf843cab354fabb0062f6502437c6a09c006c083479590189d7int
}

/// `K2` to the power of the order of the largest domain.
pub open spec fn k2_to_largest_domain() -> int {
    0x8f20886c807dfdd90175ab91378a6332306a2e935396ff00cc385372055eae3int
}

/// `K3` to the power of the order of the largest domain.
pub open spec fn k3_to_largest_domain() -> int {
    0x2fc36a287db40c9b8e9f9f14fa82b84e00c02475d46f8948212532c06a16adafint
}

/// The power of `K1`.
#[verifier::rlimit(60)]
proof fn lemma_k1_to_largest_domain()
    ensures
        fr_pow(K1 as int, largest_domain()) == k1_to_largest_domain(),
{
    let e0: nat = 0;
    let x0: int = 1;
    lemma_pow_mod_window(7int, x0, e0, 1, q());
    let e1: nat = 16 * e0 + 1;
    let x1: int = window(7int, 1int, 1, q());
    assert(x1 == 7int);
    lemma_pow_mod_window(7int, x1, e1, 0, q());
    let e2: nat = 16 * e1 + 0;
    let x2: int = window(7int, 7int, 0, q());
    assert(x2 == 0x1e39a5057d81int);
    lemma_pow_mod_window(7int, x2, e2, 0, q());
    let e3: nat = 16 * e2 + 0;
    let x3: int = window(7int, 0x1e39a5057d81int, 0, q());
    assert(x3 == 0x4a789ea4fdc7ccf2f98a0632d8c6ed8905fb69fe4f4b57717cff0cd340c8e6dint);
    lemma_pow_mod_window(7int, x3, e3, 0, q());
    let e4: nat = 16 * e3 + 0;
    let x4: int = window(7int, 0x4a789ea4fdc7ccf2f98a0632d8c6ed8905fb69fe4f4b57717cff0cd340c8e6dint, 0, q());
    assert(x4 == 0x5238ba785063e217812b41448426fe8aabb0d6e6b743db253683decc3f41b173int);
    lemma_pow_mod_window(7int, x4, e4, 0, q());
    let e5: nat = 16 * e4 + 0;
    let x5: int = window(7int, 0x5238ba785063e217812b41448426fe8aabb0d6e6b743db253683decc3f41b173int, 0, q());
    assert(x5 == 0xeda5c059add22bd06c653a3a30dc6c47b749f3444a3f53ebaf3b58a7efb134fint);
    lemma_pow_mod_window(7int, x5, e5, 0, q());
    let e6: nat = 16 * e5 + 0;
    let x6: int = window(7int, 0xeda5c059add22bd06c653a3a30dc6c47b749f3444a3f53ebaf3b58a7efb134fint, 0, q());
    assert(x6 == 0x628fc184374a1219e85d9e943d57d0c20bad4d8f813859f6121b51c927eaa4dcint);
    lemma_pow_mod_window(7int, x6, e6, 0, q());
    let e7: nat = 16 * e6 + 0;
    let x7: int = window(7int, 0x628fc184374a1219e85d9e943d57d0c20bad4d8f813859f6121b51c927eaa4dcint, 0, q());
    assert(x7 == 0x429265f1d3e7fa86a1fadf67d487e6d964d94839da7a182571aadd3d0c035396int);
    lemma_pow_mod_window(7int, x7, e7, 0, q());
    let e8: nat = 16 * e7 + 0;
    let x8: int = window(7int, 0x429265f1d3e7fa86a1fadf67d487e6d964d94839da7a182571aadd3d0c035396int, 0, q());
    assert(x8 == 0x689f65808ca09717b3829a115bd0634cb70b4a5ea3e0c94cdcf15f2f4e706efeint);
    lemma_pow_mod_window(7int, x8, e8, 0, q());
    let e9: nat = 16 * e8 + 0;
    let x9: int = window(7int, 0x689f65808ca09717b3829a115bd0634cb70b4a5ea3e0c94cdcf15f2f4e706efeint, 0, q());
    assert(x9 == 0x8634d0aa021aaf843cab354fabb0062f6502437c6a09c006c083479590189d7int);
    assert(e9 == largest_domain());
    lemma_fr_pow_is_pow_mod(7int, largest_domain());
}

/// The power of `K2`.
#[verifier::rlimit(60)]
proof fn lemma_k2_to_largest_domain()
    ensures
        fr_pow(K2 as int, largest_domain()) == k2_to_largest_domain(),
{
    let e0: nat = 0;
    let x0: int = 1;
    lemma_pow_mod_window(13int, x0, e0, 1, q());
    let e1: nat = 16 * e0 + 1;
    let x1: int = window(13int, 1int, 1, q());
    assert(x1 == 13int);
    lemma_pow_mod_window(13int, x1, e1, 0, q());
    let e2: nat = 16 * e1 + 0;
    let x2: int = window(13int, 13int, 0, q());
    assert(x2 == 0x93c08e16a022441int);
    lemma_pow_mod_window(13int, x2, e2, 0, q());
    let e3: nat = 16 * e2 + 0;
    let x3: int = window(13int, 0x93c08e16a022441int, 0, q());
    assert(x3 == 0x70ee3af3c0739bc749439caded656ef9ef0fa39c5d3139be6ee73b25d3338663int);
    lemma_pow_mod_window(13int, x3, e3, 0, q());
    let e4: nat = 16 * e3 + 0;
    let x4: int = window(13int, 0x70ee3af3c0739bc749439caded656ef9ef0fa39c5d3139be6ee73b25d3338663int, 0, q());
    assert(x4 == 0x29c58fbc5e829e123a556568ac4bf8531549739d2c7b5d66b0b2196caeb9dff2int);
    lemma_pow_mod_window(13int, x4, e4, 0, q());
    let e5: nat = 16 * e4 + 0;
    let x5: int = window(13int, 0x29c58fbc5e829e123a556568ac4bf8531549739d2c7b5d66b0b2196caeb9dff2int, 0, q());
    assert(x5 == 0x13d80923f6348ae291d1154419e18afc8b930f8e50be08be52c5dd9361f34fc5int);
    lemma_pow_mod_window(13int, x5, e5, 0, q());
    let e6: nat = 16 * e5 + 0;
    let x6: int = window(13int, 0x13d80923f6348ae291d1154419e18afc8b930f8e50be08be52c5dd9361f34fc5int, 0, q());
    assert(x6 == 0x26800eea8ed1555ee8c51cb59da5c62f242ff4d65b3b4a8e794923e4f4d2ece1int);
    lemma_pow_mod_window(13int, x6, e6, 0, q());
    let e7: nat = 16 * e6 + 0;
    let x7: int = window(13int, 0x26800eea8ed1555ee8c51cb59da5c62f242ff4d65b3b4a8e794923e4f4d2ece1int, 0, q());
    assert(x7 == 0x28b7a132cc63c05c9aab3c206885681222f367a92470039844a172e855289af3int);
    lemma_pow_mod_window(13int, x7, e7, 0, q());
    let e8: nat = 16 * e7 + 0;
    let x8: int = window(13int, 0x28b7a132cc63c05c9aab3c206885681222f367a92470039844a172e855289af3int, 0, q());
    assert(x8 == 0x499498656805f1b69e2b945b9fffd1310af0427ba99591d2b8af6e880d6fd511int);
    lemma_pow_mod_window(13int, x8, e8, 0, q());
    let e9: nat = 16 * e8 + 0;
    let x9: int = window(13int, 0x499498656805f1b69e2b945b9fffd1310af0427ba99591d2b8af6e880d6fd511int, 0, q());
    assert(x9 == 0x8f20886c807dfdd90175ab91378a6332306a2e935396ff00cc385372055eae3int);
    assert(e9 == largest_domain());
    lemma_fr_pow_is_pow_mod(13int, largest_domain());
}

/// The power of `K3`.
#[verifier::rlimit(60)]
proof fn lemma_k3_to_largest_domain()
    ensures
        fr_pow(K3 as int, largest_domain()) == k3_to_largest_domain(),
{
    let e0: nat = 0;
    let x0: int = 1;
    lemma_pow_mod_window(17int, x0, e0, 1, q());
    let e1: nat = 16 * e0 + 1;
    let x1: int = window(17int, 1int, 1, q());
    assert(x1 == 17int);
    lemma_pow_mod_window(17int, x1, e1, 0, q());
    let e2: nat = 16 * e1 + 0;
    let x2: int = window(17int, 17int, 0, q());
    assert(x2 == 0x2a34f4831603f7901int);
    lemma_pow_mod_window(17int, x2, e2, 0, q());
    let e3: nat = 16 * e2 + 0;
    let x3: int = window(17int, 0x2a34f4831603f7901int, 0, q());
    assert(x3 == 0x139826aa8a7e57f9a436a9103f98ebd3d009207e7b3f01df2bf2cf1d5d1a7682int);
    lemma_pow_mod_window(17int, x3, e3, 0, q());
    let e4: nat = 16 * e3 + 0;
    let x4: int = window(17int, 0x139826aa8a7e57f9a436a9103f98ebd3d009207e7b3f01df2bf2cf1d5d1a7682int, 0, q());
    assert(x4 == 0x1c3355de9e9bf4bedb0abd72a0042135527cf57c2aea6d2079edc92519e85e98int);
    lemma_pow_mod_window(17int, x4, e4, 0, q());
    let e5: nat = 16 * e4 + 0;
    let x5: int = window(17int, 0x1c3355de9e9bf4bedb0abd72a0042135527cf57c2aea6d2079edc92519e85e98int, 0, q());
    assert(x5 == 0x6e138c12eacfa8d0eae7d82d73c47ae4f361f3eb64a1643149471c3b29ca0bffint);
    lemma_pow_mod_window(17int, x5, e5, 0, q());
    let e6: nat = 16 * e5 + 0;
    let x6: int = window(17int, 0x6e138c12eacfa8d0eae7d82d73c47ae4f361f3eb64a1643149471c3b29ca0bffint, 0, q());
    assert(x6 == 0x1ef0e58107aa67eda8fdd4e09e54e8874226bf847f0f4e31118905bb8f594d33int);
    lemma_pow_mod_window(17int, x6, e6, 0, q());
    let e7: nat = 16 * e6 + 0;
    let x7: int = window(17int, 0x1ef0e58107aa67eda8fdd4e09e54e8874226bf847f0f4e31118905bb8f594d33int, 0, q());
    assert(x7 == 0x5166a734b57211d6d57b7dee0bc5b7298f01add393db1b504e92c0a644cb2e1dint);
    lemma_pow_mod_window(17int, x7, e7, 0, q());
    let e8: nat = 16 * e7 + 0;
    let x8: int = window(17int, 0x5166a734b57211d6d57b7dee0bc5b7298f01add393db1b504e92c0a644cb2e1dint, 0, q());
    assert(x8 == 0x1be581bc262445d4a744c1c5b105e5206cee777c40f505827ffeabcb6093fdc3int);
    lemma_pow_mod_window(17int, x8, e8, 0, q());
    let e9: nat = 16 * e8 + 0;
    let x9: int = window(17int, 0x1be581bc262445d4a744c1c5b105e5206cee777c40f505827ffeabcb6093fdc3int, 0, q());
    assert(x9 == 0x2fc36a287db40c9b8e9f9f14fa82b84e00c02475d46f8948212532c06a16adafint);
    assert(e9 == largest_domain());
    lemma_fr_pow_is_pow_mod(17int, largest_domain());
}

/// Every element of a domain, raised to the order of the largest domain, is one.
pub proof fn lemma_domain_element_power(log: nat, i: nat)
    requires
        log <= 32,
    ensures
        fr_pow(fr_pow(group_generator(log), i), largest_domain()) == 1,
{
    let w = group_generator(log);
    let n = pow2(log);
    lemma_group_generator(log);
    lemma_squarings_is_pow(w, log);
    // 2^32 == 2^log 2^(32 - log)
    lemma_pow2_adds(log, (32 - log) as nat);
    lemma2_to64();
    let rest = pow2((32 - log) as nat);
    lemma_pow_pow(w, n, rest);
    lemma_pow_of_one(rest);
    assert(fr_pow(w, largest_domain()) == 1);
    lemma_pow_pow(w, i, largest_domain());
    lemma_pow_pow(w, largest_domain(), i);
    lemma_pow_of_one(i);
    assert(i * largest_domain() == largest_domain() * i) by (nonlinear_arith);
}

/// An element of a coset, raised to the order of the largest domain, is
/// the representative of the coset raised to that order.
pub proof fn lemma_coset_element_power(k: int, log: nat, i: nat)
    requires
        log <= 32,
    ensures
        fr_pow(fr_mul(k, fr_pow(group_generator(log), i)), largest_domain()) == fr_pow(
            k,
            largest_domain(),
        ),
{
    broadcast use group_fr_closed;

    lemma_domain_element_power(log, i);
    lemma_pow_of_mul(k, fr_pow(group_generator(log), i), largest_domain());
    lemma_mul_one(fr_pow(k, largest_domain()));
}

/// The domain and its cosets by `K1`, `K2` and `K3` have no element in common.
pub proof fn lemma_cosets_disjoint(log: nat, i: nat, j: nat)
    requires
        log <= 32,
    ensures
        ({
            let x = fr_pow(group_generator(log), i);
            let y = fr_pow(group_generator(log), j);
            &&& x != fr_mul(K1 as int, y)
            &&& x != fr_mul(K2 as int, y)
            &&& x != fr_mul(K3 as int, y)
            &&& fr_mul(K1 as int, x) != fr_mul(K2 as int, y)
            &&& fr_mul(K1 as int, x) != fr_mul(K3 as int, y)
            &&& fr_mul(K2 as int, x) != fr_mul(K3 as int, y)
        }),
{
    lemma_k1_to_largest_domain();
    lemma_k2_to_largest_domain();
    lemma_k3_to_largest_domain();
    lemma_domain_element_power(log, i);
    lemma_coset_element_power(K1 as int, log, i);
    lemma_coset_element_power(K2 as int, log, i);
    lemma_coset_element_power(K1 as int, log, j);
    lemma_coset_element_power(K2 as int, log, j);
    lemma_coset_element_power(K3 as int, log, j);
}

} // verus!
