use plonk::error::Error;
use plonk::polynomial::Polynomial;
use plonk::scalar::Scalar;

fn s(v: u64) -> Scalar {
    Scalar::from_u64(v)
}

fn poly(c: &[u64]) -> Polynomial {
    Polynomial::from_coefficients_vec(c.iter().map(|v| s(*v)).collect())
}

#[test]
fn test_ruffini() {
    // X^2 + 4X + 4
    let quadratic = Polynomial::from_coefficients_vec(vec![
        Scalar::from(4),
        Scalar::from(4),
        Scalar::one(),
    ]);
    // Divides X^2 + 4X + 4 by X+2
    let quotient = quadratic.ruffini(Scalar::from(2).neg());
    // X+2
    let expected_quotient =
        Polynomial::from_coefficients_vec(vec![Scalar::from(2), Scalar::one()]);
    assert_eq!(quotient, expected_quotient);
}

#[test]
fn test_ruffini_zero() {
    // (1) Zero polynomial in the divided
    let zero = Polynomial::zero();
    // Quotient is invariant under any argument we pass
    let quotient = zero.ruffini(Scalar::from(2).neg());
    assert_eq!(quotient, Polynomial::zero());
    // (2) X^2 + X divided by X
    let p =
        Polynomial::from_coefficients_vec(vec![Scalar::zero(), Scalar::one(), Scalar::one()]);
    let quotient = p.ruffini(Scalar::zero());
    // X + 1
    let expected_quotient =
        Polynomial::from_coefficients_vec(vec![Scalar::one(), Scalar::one()]);
    assert_eq!(quotient, expected_quotient);
}

#[test]
fn ruffini_drops_the_remainder() {
    // x^2 + 1 = (x - 1)(x + 1) + 2
    let p = poly(&[1, 0, 1]);
    assert_eq!(p.ruffini(s(1)), poly(&[1, 1]));
    // q (x - z) + p(z) = p
    let q = p.ruffini(s(1));
    let x_minus_z = Polynomial::from_coefficients_vec(vec![s(1).neg(), s(1)]);
    let back = q.mul(&x_minus_z).unwrap().add_scalar(&p.evaluate(&s(1)));
    assert_eq!(back, p);
}

#[test]
fn from_coefficients_strips_trailing_zeros() {
    let p = poly(&[1, 2, 0, 0]);
    assert_eq!(p.coeffs.len(), 2);
    assert_eq!(p.degree(), 1);
    assert!(poly(&[0, 0, 0]).is_zero());
    assert_eq!(poly(&[0, 0, 0]).coeffs.len(), 0);
    assert_eq!(Polynomial::zero().degree(), 0);
    assert_eq!(Polynomial::from_coefficients_slice(&[s(3), s(0)]), poly(&[3]));
}

#[test]
fn evaluate_sums_powers() {
    // 3 + 2x + x^2 at 5 is 3 + 10 + 25
    assert_eq!(poly(&[3, 2, 1]).evaluate(&s(5)), s(38));
    assert_eq!(Polynomial::zero().evaluate(&s(5)), s(0));
}

#[test]
fn add_recanonicalises_when_leading_terms_cancel() {
    let p = poly(&[1, 2, 3]);
    let q = Polynomial::from_coefficients_vec(vec![s(5), s(1), s(3).neg()]);
    let sum = p.add(&q);
    assert_eq!(sum, poly(&[6, 3]));
    assert_eq!(Polynomial::iter_add(&p, &q), poly(&[6, 3]));
    let mut r = poly(&[1, 2, 3]);
    r.add_assign(&q);
    assert_eq!(r, poly(&[6, 3]));
}

#[test]
fn add_zero_is_identity() {
    let p = poly(&[7, 0, 9]);
    assert_eq!(p.add(&Polynomial::zero()), p);
    assert_eq!(Polynomial::zero().add(&p), p);
}

#[test]
fn sub_and_neg() {
    let p = poly(&[5, 7]);
    let q = poly(&[1, 2, 3]);
    let d = p.sub(&q);
    assert_eq!(d, Polynomial::from_coefficients_vec(vec![s(4), s(5), s(3).neg()]));
    assert_eq!(p.sub(&p), Polynomial::zero());
    let mut r = poly(&[5, 7]);
    r.sub_assign(&q);
    assert_eq!(r, d);
    assert_eq!(q.clone().neg().add(&q), Polynomial::zero());
    // in the other order
    assert_eq!(q.sub(&p), d.neg());
}

#[test]
fn scalar_operations() {
    let p = poly(&[1, 2, 3]);
    assert_eq!(p.mul_scalar(&s(2)), poly(&[2, 4, 6]));
    assert_eq!(p.mul_scalar(&s(0)), Polynomial::zero());
    assert_eq!(p.add_scalar(&s(4)), poly(&[5, 2, 3]));
    assert_eq!(p.sub_scalar(&s(1)), poly(&[0, 2, 3]));
    assert_eq!(Polynomial::zero().add_scalar(&s(4)), poly(&[4]));
    // the constant coefficient cancels and nothing is left
    assert_eq!(poly(&[4]).sub_scalar(&s(4)), Polynomial::zero());
    let mut r = poly(&[1, 1]);
    r.add_assign_scaled(s(3), &poly(&[1, 2, 3]));
    assert_eq!(r, poly(&[4, 7, 9]));
}

#[test]
fn mul_small_polynomials() {
    // (1 + x)(1 + 2x + x^2) = 1 + 3x + 3x^2 + x^3
    let p = poly(&[1, 1]);
    let q = poly(&[1, 2, 1]);
    assert_eq!(p.mul(&q), Ok(poly(&[1, 3, 3, 1])));
    assert_eq!(q.mul(&p), Ok(poly(&[1, 3, 3, 1])));
    assert_eq!(p.mul(&Polynomial::zero()), Ok(Polynomial::zero()));
    assert_eq!(p.mul(&poly(&[1])), Ok(p.clone()));
    assert_eq!(p.mul(&q).unwrap().degree(), p.degree() + q.degree());
}

#[test]
fn mul_respects_evaluation_and_distributes() {
    let p = poly(&[3, 0, 5, 7]);
    let q = poly(&[2, 9]);
    let r = poly(&[11, 1, 1]);
    let z = s(12345);
    let pq = p.mul(&q).unwrap();
    assert_eq!(pq.evaluate(&z), p.evaluate(&z).mul(&q.evaluate(&z)));
    assert_eq!(p.add(&q).evaluate(&z), p.evaluate(&z).add(&q.evaluate(&z)));
    assert_eq!(p.mul(&q.add(&r)).unwrap(), pq.add(&p.mul(&r).unwrap()));
    assert_eq!(pq.mul(&r).unwrap(), p.mul(&q.mul(&r).unwrap()).unwrap());
}

#[test]
fn sum_folds_addition() {
    let ps = vec![poly(&[1]), poly(&[0, 1]), poly(&[1, 1, 1])];
    assert_eq!(Polynomial::sum(&ps), poly(&[2, 2, 1]));
    assert_eq!(Polynomial::sum(&Vec::new()), Polynomial::zero());
}

#[test]
fn leading_coefficient_and_index() {
    let p = poly(&[4, 5, 6]);
    assert_eq!(p.leading_coefficient(), Some(&s(6)));
    assert_eq!(Polynomial::zero().leading_coefficient(), None);
    assert_eq!(p.iter_with_index(), vec![(0, s(4)), (1, s(5)), (2, s(6))]);
}

#[test]
fn error_is_comparable() {
    assert_ne!(Error::DomainTooLarge, Error::InvalidCircuitSize);
}

#[test]
fn addition_and_multiplication_commute_and_associate() {
    let p = poly(&[3, 0, 5, 7]);
    let q = poly(&[2, 9]);
    let r = poly(&[11, 1, 1, 0, 4]);
    assert_eq!(p.add(&q), q.add(&p));
    assert_eq!(p.add(&q).add(&r), p.add(&q.add(&r)));
    assert_eq!(p.mul(&q), q.mul(&p));
    assert_eq!(p.mul(&q).unwrap().mul(&r), p.mul(&q.mul(&r).unwrap()));
    assert_eq!(
        p.mul(&q).unwrap().degree(),
        p.degree() + q.degree()
    );
}

#[test]
fn ruffini_identity_holds_off_the_roots() {
    // q (x - z) + p(z) = p for a z that is no root of p
    let p = poly(&[5, 0, 0, 2, 1]);
    for z in [s(0), s(1), s(7), s(3).neg()] {
        let q = p.ruffini(z);
        let x_minus_z = Polynomial::from_coefficients_vec(vec![z.neg(), s(1)]);
        assert_eq!(q.mul(&x_minus_z).unwrap().add_scalar(&p.evaluate(&z)), p);
        assert_eq!(q.degree(), p.degree() - 1);
    }
    // a constant has the quotient zero
    assert_eq!(poly(&[9]).ruffini(s(4)), Polynomial::zero());
}

#[test]
fn from_raw_coefficients_reduces_and_trims() {
    let p = Polynomial::from_raw_coefficients(&vec![
        [5, 0, 0, 0],
        // the modulus, which is zero in the field
        [0xffff_ffff_0000_0001, 0x53bd_a402_fffe_5bfe, 0x3339_d808_09a1_d805, 0x73ed_a753_299d_7d48],
        // the modulus and two
        [0xffff_ffff_0000_0003, 0x53bd_a402_fffe_5bfe, 0x3339_d808_09a1_d805, 0x73ed_a753_299d_7d48],
        [0, 0, 0, 0],
    ]);
    assert_eq!(p, poly(&[5, 0, 2]));
    assert_eq!(Polynomial::from_raw_coefficients(&vec![]), Polynomial::zero());
}
