//! The roots of unity of two-power order in the scalar field.
//!
//! The multiplicative group of the field has a subgroup of order `2^32`.
//! `root_of_unity()` generates it; squaring it `32 - k` times gives a
//! generator of the subgroup of order `2^k`.

use vstd::prelude::*;
use vstd::arithmetic::power2::{lemma2_to64, lemma_pow2_adds, pow2};
use crate::field::{fr_mul, fr_pow, is_fr, lemma_pow_add, lemma_pow_one, modulus};

verus! {

/// The largest `k` such that the field has a subgroup of order `2^k`.
pub const TWO_ADICITY: u32 = 32;

/// A generator of the subgroup of order `2^32`: seven to the power of the
/// odd part of `modulus() - 1`.
pub open spec fn root_of_unity() -> int {
    0x16a2a19edfe81f20d09b681922c813b4b63683508c2280b93829971f439f0d2bint
}

/// `x` squared `k` times.
pub open spec fn squarings(x: int, k: nat) -> int
    decreases k,
{
    if k == 0 {
        x
    } else {
        fr_mul(squarings(x, (k - 1) as nat), squarings(x, (k - 1) as nat))
    }
}

/// The generator of the subgroup of order `2^log_size` that evaluation
/// domains use.
pub open spec fn group_generator(log_size: nat) -> int
    recommends
        log_size <= 32,
{
    squarings(root_of_unity(), (32 - log_size) as nat)
}

/// Minus one, as a canonical residue.
pub open spec fn neg_one() -> int {
    modulus() - 1
}

/// Squaring `k` times raises to the power `2^k`.
pub proof fn lemma_squarings_is_pow(x: int, k: nat)
    requires
        is_fr(x),
    ensures
        squarings(x, k) == fr_pow(x, pow2(k)),
    decreases k,
{
    lemma2_to64();
    if k == 0 {
        lemma_pow_one(x);
    } else {
        let j = (k - 1) as nat;
        lemma_squarings_is_pow(x, j);
        lemma_pow_add(x, pow2(j), pow2(j));
        lemma_pow2_adds(j, 1);
        assert(pow2(k) == pow2(j) + pow2(j)) by (nonlinear_arith)
            requires
                pow2(k) == pow2(j) * pow2(1),
                pow2(1) == 2,
        ;
    }
}

/// Squarings add up.
pub proof fn lemma_squarings_add(x: int, j: nat, k: nat)
    ensures
        squarings(squarings(x, j), k) == squarings(x, j + k),
    decreases k,
{
    if k > 0 {
        lemma_squarings_add(x, j, (k - 1) as nat);
    }
}

/// The root of unity, squared 31 times, is minus one.
pub proof fn lemma_root_of_unity_order()
    ensures
        squarings(root_of_unity(), 31) == neg_one(),
{
    reveal(fr_mul);
    let r = root_of_unity();
    assert(squarings(r, 0) == r);
    assert(fr_mul(0x16a2a19edfe81f20d09b681922c813b4b63683508c2280b93829971f439f0d2bint, 0x16a2a19edfe81f20d09b681922c813b4b63683508c2280b93829971f439f0d2bint)
        == 0x4b5371495990693fad1715b02e5713b5f070bb00e28a193d63e7cb4906ffc93fint);
    assert(squarings(r, 1) == 0x4b5371495990693fad1715b02e5713b5f070bb00e28a193d63e7cb4906ffc93fint);
    assert(fr_mul(0x4b5371495990693fad1715b02e5713b5f070bb00e28a193d63e7cb4906ffc93fint, 0x4b5371495990693fad1715b02e5713b5f070bb00e28a193d63e7cb4906ffc93fint)
        == 0x2c6d4e4511657e1e1339a815da8b398fed3a181fabb30adc694341f608c9dd56int);
    assert(squarings(r, 2) == 0x2c6d4e4511657e1e1339a815da8b398fed3a181fabb30adc694341f608c9dd56int);
    assert(fr_mul(0x2c6d4e4511657e1e1339a815da8b398fed3a181fabb30adc694341f608c9dd56int, 0x2c6d4e4511657e1e1339a815da8b398fed3a181fabb30adc694341f608c9dd56int)
        == 0xc83ea7744bf1bee8da40c1ef2bb459884d37b826214abc6474650359d8e211bint);
    assert(squarings(r, 3) == 0xc83ea7744bf1bee8da40c1ef2bb459884d37b826214abc6474650359d8e211bint);
    assert(fr_mul(0xc83ea7744bf1bee8da40c1ef2bb459884d37b826214abc6474650359d8e211bint, 0xc83ea7744bf1bee8da40c1ef2bb459884d37b826214abc6474650359d8e211bint)
        == 0x52dd465e2f09425699e276b571905a7d6558e9e3f6ac7b41d7b688830a4f2089int);
    assert(squarings(r, 4) == 0x52dd465e2f09425699e276b571905a7d6558e9e3f6ac7b41d7b688830a4f2089int);
    assert(fr_mul(0x52dd465e2f09425699e276b571905a7d6558e9e3f6ac7b41d7b688830a4f2089int, 0x52dd465e2f09425699e276b571905a7d6558e9e3f6ac7b41d7b688830a4f2089int)
        == 0x23397a9300f8f98bece8ea224f31d25db94f1101b1d7a628e2d0a7869f0319edint);
    assert(squarings(r, 5) == 0x23397a9300f8f98bece8ea224f31d25db94f1101b1d7a628e2d0a7869f0319edint);
    assert(fr_mul(0x23397a9300f8f98bece8ea224f31d25db94f1101b1d7a628e2d0a7869f0319edint, 0x23397a9300f8f98bece8ea224f31d25db94f1101b1d7a628e2d0a7869f0319edint)
        == 0xa0a77a3b1980c0d116168bffbedc11d02c8118402867ddc531a11a0d2d75182int);
    assert(squarings(r, 6) == 0xa0a77a3b1980c0d116168bffbedc11d02c8118402867ddc531a11a0d2d75182int);
    assert(fr_mul(0xa0a77a3b1980c0d116168bffbedc11d02c8118402867ddc531a11a0d2d75182int, 0xa0a77a3b1980c0d116168bffbedc11d02c8118402867ddc531a11a0d2d75182int)
        == 0x19fe632fd3287390454dc1edc61a1a3c0ba12bb3da64ca5ce32ef844e11a51eint);
    assert(squarings(r, 7) == 0x19fe632fd3287390454dc1edc61a1a3c0ba12bb3da64ca5ce32ef844e11a51eint);
    assert(fr_mul(0x19fe632fd3287390454dc1edc61a1a3c0ba12bb3da64ca5ce32ef844e11a51eint, 0x19fe632fd3287390454dc1edc61a1a3c0ba12bb3da64ca5ce32ef844e11a51eint)
        == 0x291cf6d68823e6876e0bcd91ee76273072cf6a8029b7d7bc92cf4deb77bd779cint);
    assert(squarings(r, 8) == 0x291cf6d68823e6876e0bcd91ee76273072cf6a8029b7d7bc92cf4deb77bd779cint);
    assert(fr_mul(0x291cf6d68823e6876e0bcd91ee76273072cf6a8029b7d7bc92cf4deb77bd779cint, 0x291cf6d68823e6876e0bcd91ee76273072cf6a8029b7d7bc92cf4deb77bd779cint)
        == 0x73560252aa0655b25121af06a3b51e3cc631ffb2585a72db5616c57de0ec9eaeint);
    assert(squarings(r, 9) == 0x73560252aa0655b25121af06a3b51e3cc631ffb2585a72db5616c57de0ec9eaeint);
    assert(fr_mul(0x73560252aa0655b25121af06a3b51e3cc631ffb2585a72db5616c57de0ec9eaeint, 0x73560252aa0655b25121af06a3b51e3cc631ffb2585a72db5616c57de0ec9eaeint)
        == 0xabe6a5e5abcaa32f2d38f10fbb8d1bbe08fec7c86389beec6e7a6ffb08e3363int);
    assert(squarings(r, 10) == 0xabe6a5e5abcaa32f2d38f10fbb8d1bbe08fec7c86389beec6e7a6ffb08e3363int);
    assert(fr_mul(0xabe6a5e5abcaa32f2d38f10fbb8d1bbe08fec7c86389beec6e7a6ffb08e3363int, 0xabe6a5e5abcaa32f2d38f10fbb8d1bbe08fec7c86389beec6e7a6ffb08e3363int)
        == 0x47c8b5817018af4fc70d0874b0691d4e46b3105f04db5844cd3979122d3ea03aint);
    assert(squarings(r, 11) == 0x47c8b5817018af4fc70d0874b0691d4e46b3105f04db5844cd3979122d3ea03aint);
    assert(fr_mul(0x47c8b5817018af4fc70d0874b0691d4e46b3105f04db5844cd3979122d3ea03aint, 0x47c8b5817018af4fc70d0874b0691d4e46b3105f04db5844cd3979122d3ea03aint)
        == 0x3e1c54bcb947035a57a6e07cb98de4a2f69e02d265e09d9fece7e0e39898d4bint);
    assert(squarings(r, 12) == 0x3e1c54bcb947035a57a6e07cb98de4a2f69e02d265e09d9fece7e0e39898d4bint);
    assert(fr_mul(0x3e1c54bcb947035a57a6e07cb98de4a2f69e02d265e09d9fece7e0e39898d4bint, 0x3e1c54bcb947035a57a6e07cb98de4a2f69e02d265e09d9fece7e0e39898d4bint)
        == 0x520e587a724a6955df625e80d0adef90ad8e16e84419c750194e8c62ecb38d9dint);
    assert(squarings(r, 13) == 0x520e587a724a6955df625e80d0adef90ad8e16e84419c750194e8c62ecb38d9dint);
    assert(fr_mul(0x520e587a724a6955df625e80d0adef90ad8e16e84419c750194e8c62ecb38d9dint, 0x520e587a724a6955df625e80d0adef90ad8e16e84419c750194e8c62ecb38d9dint)
        == 0x2d3056a530794f01652f717ae1c34bb0bb97a3bf30ce40fd6f421a7d8ef674fbint);
    assert(squarings(r, 14) == 0x2d3056a530794f01652f717ae1c34bb0bb97a3bf30ce40fd6f421a7d8ef674fbint);
    assert(fr_mul(0x2d3056a530794f01652f717ae1c34bb0bb97a3bf30ce40fd6f421a7d8ef674fbint, 0x2d3056a530794f01652f717ae1c34bb0bb97a3bf30ce40fd6f421a7d8ef674fbint)
        == 0x224262332d8acbf4473a2eef772c33d6cd7f2bd6d0711b7d08692405f3b70f10int);
    assert(squarings(r, 15) == 0x224262332d8acbf4473a2eef772c33d6cd7f2bd6d0711b7d08692405f3b70f10int);
    assert(fr_mul(0x224262332d8acbf4473a2eef772c33d6cd7f2bd6d0711b7d08692405f3b70f10int, 0x224262332d8acbf4473a2eef772c33d6cd7f2bd6d0711b7d08692405f3b70f10int)
        == 0x2155379d12180caa88f39a78f1aeb57867a665ae1fcadc91d7118f85cd96b8adint);
    assert(squarings(r, 16) == 0x2155379d12180caa88f39a78f1aeb57867a665ae1fcadc91d7118f85cd96b8adint);
    assert(fr_mul(0x2155379d12180caa88f39a78f1aeb57867a665ae1fcadc91d7118f85cd96b8adint, 0x2155379d12180caa88f39a78f1aeb57867a665ae1fcadc91d7118f85cd96b8adint)
        == 0x3291357ee558b50d483405417a0cbe39c8d5f51db3f32699fbd047e11279bb6eint);
    assert(squarings(r, 17) == 0x3291357ee558b50d483405417a0cbe39c8d5f51db3f32699fbd047e11279bb6eint);
    assert(fr_mul(0x3291357ee558b50d483405417a0cbe39c8d5f51db3f32699fbd047e11279bb6eint, 0x3291357ee558b50d483405417a0cbe39c8d5f51db3f32699fbd047e11279bb6eint)
        == 0x56624634b500a166dc86b01c0d477fa6ae4622f6a9152435034d2ff22a5ad9e1int);
    assert(squarings(r, 18) == 0x56624634b500a166dc86b01c0d477fa6ae4622f6a9152435034d2ff22a5ad9e1int);
    assert(fr_mul(0x56624634b500a166dc86b01c0d477fa6ae4622f6a9152435034d2ff22a5ad9e1int, 0x56624634b500a166dc86b01c0d477fa6ae4622f6a9152435034d2ff22a5ad9e1int)
        == 0x485d512737b1da3d2ccddea2972e89ed146b58bc434906ac6fdd00bfc78c8967int);
    assert(squarings(r, 19) == 0x485d512737b1da3d2ccddea2972e89ed146b58bc434906ac6fdd00bfc78c8967int);
    assert(fr_mul(0x485d512737b1da3d2ccddea2972e89ed146b58bc434906ac6fdd00bfc78c8967int, 0x485d512737b1da3d2ccddea2972e89ed146b58bc434906ac6fdd00bfc78c8967int)
        == 0x564c0a11a0f704f4fc3e8acfe0f8245f0ad1347b378fbf96e206da11a5d36306int);
    assert(squarings(r, 20) == 0x564c0a11a0f704f4fc3e8acfe0f8245f0ad1347b378fbf96e206da11a5d36306int);
    assert(fr_mul(0x564c0a11a0f704f4fc3e8acfe0f8245f0ad1347b378fbf96e206da11a5d36306int, 0x564c0a11a0f704f4fc3e8acfe0f8245f0ad1347b378fbf96e206da11a5d36306int)
        == 0x6d031f1b5c49c83409f1ca610a08f16655ea6811be9c622d4a838b5d59cd79e5int);
    assert(squarings(r, 21) == 0x6d031f1b5c49c83409f1ca610a08f16655ea6811be9c622d4a838b5d59cd79e5int);
    assert(fr_mul(0x6d031f1b5c49c83409f1ca610a08f16655ea6811be9c622d4a838b5d59cd79e5int, 0x6d031f1b5c49c83409f1ca610a08f16655ea6811be9c622d4a838b5d59cd79e5int)
        == 0x325db5c3debf77a18f4de02c0f776af3ea437f9626fc085e3c28d666a5c2d854int);
    assert(squarings(r, 22) == 0x325db5c3debf77a18f4de02c0f776af3ea437f9626fc085e3c28d666a5c2d854int);
    assert(fr_mul(0x325db5c3debf77a18f4de02c0f776af3ea437f9626fc085e3c28d666a5c2d854int, 0x325db5c3debf77a18f4de02c0f776af3ea437f9626fc085e3c28d666a5c2d854int)
        == 0x95166525526a65439feec240d80689fd697168a3a6000fe4541b8ff2ee0434eint);
    assert(squarings(r, 23) == 0x95166525526a65439feec240d80689fd697168a3a6000fe4541b8ff2ee0434eint);
    assert(fr_mul(0x95166525526a65439feec240d80689fd697168a3a6000fe4541b8ff2ee0434eint, 0x95166525526a65439feec240d80689fd697168a3a6000fe4541b8ff2ee0434eint)
        == 0x4f9b4098e2e9f12e6b368121ac0cf4ad0a0865a899e8deff4935bd2f817f694bint);
    assert(squarings(r, 24) == 0x4f9b4098e2e9f12e6b368121ac0cf4ad0a0865a899e8deff4935bd2f817f694bint);
    assert(fr_mul(0x4f9b4098e2e9f12e6b368121ac0cf4ad0a0865a899e8deff4935bd2f817f694bint, 0x4f9b4098e2e9f12e6b368121ac0cf4ad0a0865a899e8deff4935bd2f817f694bint)
        == 0x6898111413588742b7c68b4d7fdd60d098d0caac87f5713c5130c2c1660125beint);
    assert(squarings(r, 25) == 0x6898111413588742b7c68b4d7fdd60d098d0caac87f5713c5130c2c1660125beint);
    assert(fr_mul(0x6898111413588742b7c68b4d7fdd60d098d0caac87f5713c5130c2c1660125beint, 0x6898111413588742b7c68b4d7fdd60d098d0caac87f5713c5130c2c1660125beint)
        == 0x45af6345ec055e4d14a1e27164d8fdbd2d967f4be2f951558140d032f0a9ee53int);
    assert(squarings(r, 26) == 0x45af6345ec055e4d14a1e27164d8fdbd2d967f4be2f951558140d032f0a9ee53int);
    assert(fr_mul(0x45af6345ec055e4d14a1e27164d8fdbd2d967f4be2f951558140d032f0a9ee53int, 0x45af6345ec055e4d14a1e27164d8fdbd2d967f4be2f951558140d032f0a9ee53int)
        == 0x50e0903a157988bab4bcd40e22f55448bf6e88fb4c38fb8a360c60997369df4eint);
    assert(squarings(r, 27) == 0x50e0903a157988bab4bcd40e22f55448bf6e88fb4c38fb8a360c60997369df4eint);
    assert(fr_mul(0x50e0903a157988bab4bcd40e22f55448bf6e88fb4c38fb8a360c60997369df4eint, 0x50e0903a157988bab4bcd40e22f55448bf6e88fb4c38fb8a360c60997369df4eint)
        == 0x20b1ce9140267af9dd1c0af834cec32c17beb312f20b6f7653ea61d87742bcceint);
    assert(squarings(r, 28) == 0x20b1ce9140267af9dd1c0af834cec32c17beb312f20b6f7653ea61d87742bcceint);
    assert(fr_mul(0x20b1ce9140267af9dd1c0af834cec32c17beb312f20b6f7653ea61d87742bcceint, 0x20b1ce9140267af9dd1c0af834cec32c17beb312f20b6f7653ea61d87742bcceint)
        == 0x345766f603fa66e78c0625cd70d77ce2b38b21c28713b7007228fd3397743f7aint);
    assert(squarings(r, 29) == 0x345766f603fa66e78c0625cd70d77ce2b38b21c28713b7007228fd3397743f7aint);
    assert(fr_mul(0x345766f603fa66e78c0625cd70d77ce2b38b21c28713b7007228fd3397743f7aint, 0x345766f603fa66e78c0625cd70d77ce2b38b21c28713b7007228fd3397743f7aint)
        == 0x8d51ccce760304d0ec030002760300000001000000000000int);
    assert(squarings(r, 30) == 0x8d51ccce760304d0ec030002760300000001000000000000int);
    assert(fr_mul(0x8d51ccce760304d0ec030002760300000001000000000000int, 0x8d51ccce760304d0ec030002760300000001000000000000int)
        == 0x73eda753299d7d483339d80809a1d80553bda402fffe5bfeffffffff00000000int);
    assert(squarings(r, 31) == 0x73eda753299d7d483339d80809a1d80553bda402fffe5bfeffffffff00000000int);
}

} // verus!
