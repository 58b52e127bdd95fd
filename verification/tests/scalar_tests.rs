use plonk::scalar::Scalar;

fn modulus_minus_one() -> Scalar {
    Scalar {
        l0: 0xffff_ffff_0000_0000,
        l1: 0x53bd_a402_fffe_5bfe,
        l2: 0x3339_d808_09a1_d805,
        l3: 0x73ed_a753_299d_7d48,
    }
}

#[test]
fn scalar_add_small_values() {
    let a = Scalar::from_u64(4);
    let b = Scalar::from_u64(9);
    assert_eq!(a.add(&b), Scalar::from_u64(13));
    assert_eq!(a.sub(&b).add(&b), a);
    assert_eq!(b.sub(&a), Scalar::from_u64(5));
}

#[test]
fn scalar_neg_wraps_at_modulus() {
    let one = Scalar::one();
    let minus_one = one.neg();
    assert_eq!(minus_one, modulus_minus_one());
    assert_eq!(minus_one.add(&one), Scalar::zero());
    assert_eq!(Scalar::zero().neg(), Scalar::zero());
    assert_eq!(Scalar::zero().sub(&one), minus_one);
}

#[test]
fn scalar_mul_and_square() {
    let a = Scalar::from_u64(1 << 40);
    let sq = a.square();
    assert_eq!(sq, Scalar { l0: 0, l1: 1 << 16, l2: 0, l3: 0 });
    assert_eq!(a.mul(&a), sq);
    assert_eq!(modulus_minus_one().square(), Scalar::one());
    assert_eq!(Scalar::from_u64(6).mul(&Scalar::from_u64(7)), Scalar::from_u64(42));
}

#[test]
fn scalar_invert_zero_is_none() {
    assert!(Scalar::zero().invert().is_none());
    let seven = Scalar::from_u64(7);
    let inv = seven.invert().unwrap();
    assert_eq!(seven.mul(&inv), Scalar::one());
    assert_eq!(Scalar::one().invert(), Some(Scalar::one()));
}

#[test]
fn scalar_pow_by_limbs() {
    let three = Scalar::from_u64(3);
    assert_eq!(three.pow(&[0, 0, 0, 0]), Scalar::one());
    assert_eq!(three.pow(&[1, 0, 0, 0]), three);
    assert_eq!(three.pow(&[5, 0, 0, 0]), Scalar::from_u64(243));
    // 2^(2^64) by the second limb
    let two = Scalar::from_u64(2);
    let mut expected = two;
    for _ in 0..64 {
        expected = expected.square();
    }
    assert_eq!(two.pow(&[0, 1, 0, 0]), expected);
    // Fermat: x^(q - 1) = 1
    let m = modulus_minus_one();
    assert_eq!(three.pow(&[m.l0, m.l1, m.l2, m.l3]), Scalar::one());
}

#[test]
fn scalar_from_raw_reduces() {
    assert_eq!(Scalar::from_raw([7, 0, 0, 0]), Scalar::from_u64(7));
    // the modulus itself is zero
    let m = modulus_minus_one();
    assert_eq!(Scalar::from_raw([m.l0 + 1, m.l1, m.l2, m.l3]), Scalar::zero());
    assert_eq!(Scalar::from_raw([m.l0 + 3, m.l1, m.l2, m.l3]), Scalar::from_u64(2));
    // 2^256 - 1 = 2 q + (2^256 - 1 - 2 q)
    let all = Scalar::from_raw([u64::MAX; 4]);
    assert_eq!(
        all,
        Scalar {
            l0: 0x0000_0001_ffff_fffd,
            l1: 0x5884_b7fa_0003_4802,
            l2: 0x998c_4fef_ecbc_4ff5,
            l3: 0x1824_b159_acc5_056f,
        }
    );
}

#[test]
fn scalar_is_zero_and_constants() {
    assert!(Scalar::zero().is_zero());
    assert!(!Scalar::one().is_zero());
    assert!(!Scalar { l0: 0, l1: 0, l2: 0, l3: 1 }.is_zero());
    assert_eq!(Scalar::one(), Scalar::from_u64(1));
}

#[test]
fn scalar_from_u64() {
    assert_eq!(Scalar::from(4), Scalar { l0: 4, l1: 0, l2: 0, l3: 0 });
    assert_eq!(Scalar::from(u64::MAX), Scalar::from_u64(u64::MAX));
    assert_eq!(Scalar::from(u64::MAX).add(&Scalar::one()), Scalar { l0: 0, l1: 1, l2: 0, l3: 0 });
}
