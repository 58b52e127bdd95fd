use plonk::constants::{k1, k2, k3, K1, K2, K3};
use plonk::domain::{EvaluationDomain, Evaluations};
use plonk::error::Error;
use plonk::polynomial::Polynomial;
use plonk::scalar::Scalar;
use plonk::util::powers_of;

fn s(v: u64) -> Scalar {
    Scalar::from_u64(v)
}

fn legendre_symbol(scalar: &Scalar) -> bool {
    let min_one_half = [
        9223372034707292160u64,
        12240451741123816959u64,
        1845609449319885826u64,
        4176758429732224676u64,
    ];

    let min_one = Scalar::one().neg();
    scalar.pow(&min_one_half).eq(&min_one) ^ true
}

#[test]
fn legendre_symbol_test() {
    let a = Scalar::from(7u64);
    assert!(!legendre_symbol(&a));
    let a = Scalar::from(6u64);
    assert!(legendre_symbol(&a));
}

#[test]
fn coset_constants() {
    assert_eq!((K1, K2, K3), (7, 13, 17));
    assert_eq!(k1(), s(7));
    assert_eq!(k2(), s(13));
    assert_eq!(k3(), s(17));
    // the cosets of the three wires are apart: no constant, and no ratio
    // of two of them, lies in a domain
    let d = EvaluationDomain::new(1 << 10).unwrap();
    let ratios = [
        k1(),
        k2(),
        k1().mul(&k2().invert().unwrap()),
        k2().mul(&k1().invert().unwrap()),
    ];
    for r in ratios {
        assert_ne!(d.evaluate_vanishing_polynomial(r), s(0));
    }
}

#[test]
fn domain_size_is_next_power_of_two() {
    for (asked, size, log) in [(0usize, 1u64, 0u32), (1, 1, 0), (2, 2, 1), (3, 4, 2), (4, 4, 2), (5, 8, 3), (1000, 1024, 10)]
    {
        let d = EvaluationDomain::new(asked).unwrap();
        assert_eq!(d.size, size);
        assert_eq!(d.log_size_of_group, log);
        assert_eq!(d.size(), size as usize);
        assert_eq!(d.size_as_field_element, s(size));
        assert_eq!(d.size_as_field_element.mul(&d.size_inv), s(1));
        assert_eq!(d.group_gen.mul(&d.group_gen_inv), s(1));
    }
}

#[test]
fn domain_too_large_is_refused() {
    assert_eq!(EvaluationDomain::new((1usize << 32) + 1), Err(Error::DomainTooLarge));
    assert_eq!(EvaluationDomain::new(usize::MAX), Err(Error::DomainTooLarge));
    assert!(EvaluationDomain::new(1usize << 32).is_ok());
}

#[test]
fn group_generator_has_the_order_of_the_domain() {
    let d = EvaluationDomain::new(8).unwrap();
    let w = d.group_gen;
    assert_eq!(w.pow(&[8, 0, 0, 0]), s(1));
    assert_eq!(w.pow(&[4, 0, 0, 0]), s(1).neg());
    assert_ne!(w.pow(&[2, 0, 0, 0]), s(1));
    // the generator of the largest domain is the fixed root of unity
    let top = EvaluationDomain::new(1usize << 32).unwrap();
    assert_eq!(
        top.group_gen,
        Scalar {
            l0: 0x3829971f439f0d2b,
            l1: 0xb63683508c2280b9,
            l2: 0xd09b681922c813b4,
            l3: 0x16a2a19edfe81f20,
        }
    );
    // which is seven to the power of the odd part of the group order
    let odd_part = [0xfffe5bfeffffffff, 0x09a1d80553bda402, 0x299d7d483339d808, 0x73eda753];
    assert_eq!(s(7).pow(&odd_part), top.group_gen);
}

#[test]
fn fft_evaluates_at_powers_of_the_generator() {
    let d = EvaluationDomain::new(4).unwrap();
    let coeffs = vec![s(3), s(1), s(4), s(1)];
    let p = Polynomial::from_coefficients_vec(coeffs.clone());
    let evals = d.fft(&coeffs);
    let elements = powers_of(&d.group_gen, 4);
    assert_eq!(evals.len(), 4);
    for i in 0..4 {
        assert_eq!(evals[i], p.evaluate(&elements[i]));
    }
    // at one the value is the sum of the coefficients
    assert_eq!(evals[0], s(9));
}

#[test]
fn fft_pads_and_cuts_to_the_domain() {
    let d = EvaluationDomain::new(4).unwrap();
    assert_eq!(d.fft(&vec![s(5)]), vec![s(5); 4]);
    assert_eq!(d.fft(&vec![]), vec![s(0); 4]);
    let long = vec![s(1), s(2), s(3), s(4), s(5), s(6)];
    assert_eq!(d.fft(&long), d.fft(&long[..4].to_vec()));
    assert_eq!(d.ifft(&long), d.ifft(&long[..4].to_vec()));
}

#[test]
fn ifft_inverts_fft() {
    let d = EvaluationDomain::new(8).unwrap();
    let coeffs: Vec<Scalar> = (1..=8).map(|v| s(v * v + 1)).collect();
    assert_eq!(d.ifft(&d.fft(&coeffs)), coeffs);
    assert_eq!(d.fft(&d.ifft(&coeffs)), coeffs);
    // a single element
    let one = EvaluationDomain::new(1).unwrap();
    assert_eq!(one.fft(&vec![s(42)]), vec![s(42)]);
    assert_eq!(one.ifft(&vec![s(42)]), vec![s(42)]);
}

#[test]
fn ifft_of_constant_values_is_constant_polynomial() {
    let d = EvaluationDomain::new(4).unwrap();
    assert_eq!(d.ifft(&vec![s(6); 4]), vec![s(6), s(0), s(0), s(0)]);
}

#[test]
fn evaluations_multiply_and_interpolate() {
    let d = EvaluationDomain::new(4).unwrap();
    // (1 + x)(2 + x) = 2 + 3x + x^2
    let mut a = Evaluations::from_vec_and_domain(d.fft(&vec![s(1), s(1)]), d);
    let b = Evaluations::from_vec_and_domain(d.fft(&vec![s(2), s(1)]), d);
    a.mul_assign(&b);
    assert_eq!(a.interpolate(), Polynomial::from_coefficients_vec(vec![s(2), s(3), s(1)]));
}

#[test]
fn vanishing_polynomial_is_power_minus_one() {
    let d = EvaluationDomain::new(4).unwrap();
    assert_eq!(d.evaluate_vanishing_polynomial(s(2)), s(15));
    assert_eq!(d.evaluate_vanishing_polynomial(s(3)), s(80));
    assert_eq!(d.evaluate_vanishing_polynomial(s(0)), s(1).neg());
    for x in powers_of(&d.group_gen, 4) {
        assert_eq!(d.evaluate_vanishing_polynomial(x), s(0));
    }
}

#[test]
fn lagrange_coefficients_on_the_domain() {
    let d = EvaluationDomain::new(8).unwrap();
    let elements = powers_of(&d.group_gen, 8);
    for j in 0..8 {
        let l = d.evaluate_all_lagrange_coefficients(elements[j]);
        assert_eq!(l.len(), 8);
        for i in 0..8 {
            assert_eq!(l[i], if i == j { s(1) } else { s(0) });
        }
    }
}

#[test]
fn lagrange_coefficients_off_the_domain() {
    let d = EvaluationDomain::new(4).unwrap();
    let z = s(5);
    let l = d.evaluate_all_lagrange_coefficients(z);
    assert_eq!(l.len(), 4);
    // L_0(z) = (z^4 - 1) / (4 (z - 1)) = 624 / 16 = 39
    assert_eq!(l[0], s(39));
    // each one is the value at z of the polynomial that is one at its element
    for i in 0..4 {
        let mut values = vec![s(0); 4];
        values[i] = s(1);
        let basis = Polynomial::from_coefficients_vec(d.ifft(&values));
        assert_eq!(l[i], basis.evaluate(&z));
    }
    // they add up to one
    let total = l.iter().fold(s(0), |acc, x| acc.add(x));
    assert_eq!(total, s(1));
}

#[test]
fn powers_of_counts_from_one() {
    assert_eq!(powers_of(&s(3), 5), vec![s(1), s(3), s(9), s(27), s(81)]);
    assert_eq!(powers_of(&s(3), 0), vec![]);
}
