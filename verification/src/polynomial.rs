//! Polynomials in coefficient form: the coefficient of `x^i` is stored at
//! place `i` of a vector.

use vstd::prelude::*;
use crate::field::{
    fr_add, fr_mul, fr_neg, fr_pow, fr_sub, lemma_add_zero, lemma_mul_comm, lemma_mul_zero,
    lemma_neg_is_zero, modulus,
};
use crate::poly::{
    coeff, conv, degree, horner, is_canonical, is_zero_poly, lemma_trim_ext, max_len, poly_add,
    poly_const, poly_eval, poly_mul, poly_neg, poly_scale, poly_sub, ruffini_quotient, trim,
};
use crate::domain::{max_domain_size, resized, EvaluationDomain, Evaluations};
use crate::error::Error;
use crate::fft::dft;
use crate::fft_laws::lemma_product_by_transform;
use crate::poly_laws::{lemma_conv_of_zero, lemma_trim_zero};
use crate::scalar::{limbs_value, Scalar};
use crate::sums::{fr_sum, lemma_sum_ext, lemma_sum_zero};
use crate::util::{powers_of, scalar_values, scalars_wf};

verus! {

/// A polynomial in coefficient form.
#[derive(Debug, Eq, PartialEq, Clone)]
pub struct Polynomial {
    /// The coefficient of `x^i` is stored at place `i`.
    pub coeffs: Vec<Scalar>,
}

impl Polynomial {
    /// The residues of the coefficients.
    pub open spec fn view(&self) -> Seq<int> {
        scalar_values(self.coeffs@)
    }

    /// The coefficients are canonical residues, and the last of them, if
    /// there is any, is not zero.
    pub open spec fn wf(&self) -> bool {
        scalars_wf(self.coeffs@) && is_canonical(self@)
    }

    /// Returns the zero polynomial.
    pub fn zero() -> (r: Self)
        ensures
            r.wf(),
            r@ == Seq::<int>::empty(),
    {
        let r = Polynomial { coeffs: Vec::new() };
        assert(r@ =~= Seq::<int>::empty());
        r
    }

    /// Checks whether every coefficient is zero.
    pub fn is_zero(&self) -> (r: bool)
        ensures
            r == is_zero_poly(self@),
    {
        let mut i: usize = 0;
        while i < self.coeffs.len()
            invariant
                i <= self.coeffs.len(),
                forall|j: int| 0 <= j < i ==> #[trigger] self@[j] == 0,
            decreases self.coeffs.len() - i,
        {
            if !self.coeffs[i].is_zero() {
                assert(self@[i as int] != 0);
                return false;
            }
            i += 1;
        }
        true
    }

    /// Constructs a polynomial from a list of coefficients, lowest first.
    pub fn from_coefficients_slice(coeffs: &[Scalar]) -> (r: Self)
        requires
            scalars_wf(coeffs@),
        ensures
            r.wf(),
            r@ == trim(scalar_values(coeffs@)),
    {
        let mut v: Vec<Scalar> = Vec::with_capacity(coeffs.len());
        let mut i: usize = 0;
        while i < coeffs.len()
            invariant
                i <= coeffs.len(),
                v.len() == i,
                forall|j: int| 0 <= j < i ==> #[trigger] v@[j] == coeffs@[j],
            decreases coeffs.len() - i,
        {
            v.push(coeffs[i]);
            i += 1;
        }
        assert(v@ =~= coeffs@);
        Self::from_coefficients_vec(v)
    }

    /// Constructs a polynomial from a list of coefficients, lowest first.
    /// Zeros at the end of the list are dropped.
    pub fn from_coefficients_vec(coeffs: Vec<Scalar>) -> (r: Self)
        requires
            scalars_wf(coeffs@),
        ensures
            r.wf(),
            r@ == trim(scalar_values(coeffs@)),
    {
        let mut result = Polynomial { coeffs };
        result.truncate_leading_zeros();
        result
    }

    /// Returns the degree of the polynomial, zero for the zero polynomial.
    pub fn degree(&self) -> (r: usize)
        requires
            self.wf(),
        ensures
            r == degree(self@),
    {
        if self.coeffs.len() == 0 {
            0
        } else {
            self.coeffs.len() - 1
        }
    }

    /// Drops the zeros at the end of the coefficient vector.
    pub fn truncate_leading_zeros(&mut self)
        requires
            scalars_wf(old(self).coeffs@),
        ensures
            final(self).wf(),
            final(self)@ == trim(old(self)@),
    {
        while self.coeffs.len() > 0 && self.coeffs[self.coeffs.len() - 1].is_zero()
            invariant
                scalars_wf(self.coeffs@),
                trim(self@) == trim(old(self)@),
            decreases self.coeffs.len(),
        {
            let ghost before = self@;
            self.coeffs.pop();
            assert(self@ =~= before.drop_last());
        }
    }

    /// The coefficient of `x^i`, zero beyond the degree.
    pub fn coefficient(&self, i: usize) -> (r: Scalar)
        requires
            scalars_wf(self.coeffs@),
        ensures
            r.wf(),
            r@ == coeff(self@, i as int),
    {
        if i < self.coeffs.len() {
            self.coeffs[i]
        } else {
            Scalar::zero()
        }
    }

    /// Evaluates the polynomial at `point`.
    pub fn evaluate(&self, point: &Scalar) -> (r: Scalar)
        requires
            scalars_wf(self.coeffs@),
            point.wf(),
        ensures
            r.wf(),
            r@ == poly_eval(self@, point@),
    {
        let ghost term = |i: int| fr_mul(coeff(self@, i), fr_pow(point@, i as nat));
        if self.is_zero() {
            proof {
                assert forall|i: int| 0 <= i < self@.len() implies #[trigger] term(i) == 0 by {
                    assert(self@[i] == 0);
                    lemma_mul_zero(fr_pow(point@, i as nat));
                }
                lemma_sum_zero(term, self@.len());
                lemma_sum_ext(
                    term,
                    |i: int| fr_mul(coeff(self@, i), fr_pow(point@, i as nat)),
                    self@.len(),
                );
            }
            return Scalar::zero();
        }
        // Compute powers of points
        let powers = powers_of(point, self.coeffs.len());
        proof {
            let pv = scalar_values(powers@);
            assert(pv.len() == self.coeffs.len());
            assert forall|j: int| 0 <= j < powers.len() implies (#[trigger] powers@[j])@ == fr_pow(
                point@,
                j as nat,
            ) by {
                assert(pv[j] == powers@[j]@);
            }
        }

        let mut sum = Scalar::zero();
        let mut i: usize = 0;
        while i < self.coeffs.len()
            invariant
                i <= self.coeffs.len(),
                scalars_wf(self.coeffs@),
                scalars_wf(powers@),
                powers.len() == self.coeffs.len(),
                forall|j: int| 0 <= j < powers.len() ==> (#[trigger] powers@[j])@ == fr_pow(point@, j as nat),
                term == |i: int| fr_mul(coeff(self@, i), fr_pow(point@, i as nat)),
                sum.wf(),
                sum@ == fr_sum(term, i as nat),
            decreases self.coeffs.len() - i,
        {
            let eval = powers[i].mul(&self.coeffs[i]);
            proof {
                lemma_mul_comm(powers@[i as int]@, self.coeffs@[i as int]@);
                assert(eval@ == term(i as int));
            }
            sum = sum.add(&eval);
            i += 1;
        }
        proof {
            lemma_sum_ext(
                term,
                |i: int| fr_mul(coeff(self@, i), fr_pow(point@, i as nat)),
                self@.len(),
            );
        }
        sum
    }
}

/// The sum of a sequence of polynomials, taken from the left and starting at zero.
pub open spec fn poly_sum(ps: Seq<Seq<int>>) -> Seq<int>
    decreases ps.len(),
{
    if ps.len() == 0 {
        Seq::empty()
    } else {
        poly_add(poly_sum(ps.drop_last()), ps.last())
    }
}

/// The views of a sequence of polynomials.
pub open spec fn poly_views(ps: Seq<Polynomial>) -> Seq<Seq<int>> {
    Seq::new(ps.len(), |i: int| ps[i]@)
}

impl Polynomial {
    /// The coefficients are canonical residues.
    pub open spec fn coeffs_wf(&self) -> bool {
        scalars_wf(self.coeffs@)
    }

    /// The sum of the polynomials, zero for none.
    pub fn sum(polys: &Vec<Polynomial>) -> (r: Polynomial)
        requires
            forall|i: int| 0 <= i < polys.len() ==> (#[trigger] polys@[i]).coeffs_wf(),
        ensures
            r.wf(),
            r@ == poly_sum(poly_views(polys@)),
    {
        let mut res = Polynomial::zero();
        let ghost views = poly_views(polys@);
        let mut i: usize = 0;
        while i < polys.len()
            invariant
                i <= polys.len(),
                forall|i: int| 0 <= i < polys.len() ==> (#[trigger] polys@[i]).coeffs_wf(),
                views == poly_views(polys@),
                res.wf(),
                res@ == poly_sum(views.take(i as int)),
            decreases polys.len() - i,
        {
            proof {
                assert(views.take(i as int + 1).drop_last() =~= views.take(i as int));
                assert(views.take(i as int + 1).last() == polys@[i as int]@);
            }
            res = res.add(&polys[i]);
            i += 1;
        }
        assert(views.take(polys.len() as int) =~= views);
        res
    }

    /// The sum of two polynomials.
    pub fn add(&self, other: &Polynomial) -> (r: Polynomial)
        requires
            self.coeffs_wf(),
            other.coeffs_wf(),
        ensures
            r.wf(),
            r@ == poly_add(self@, other@),
    {
        let n = if self.coeffs.len() >= other.coeffs.len() {
            self.coeffs.len()
        } else {
            other.coeffs.len()
        };
        let mut data: Vec<Scalar> = Vec::with_capacity(n);
        let mut i: usize = 0;
        while i < n
            invariant
                i <= n,
                n == max_len(self@, other@),
                self.coeffs_wf(),
                other.coeffs_wf(),
                data.len() == i,
                scalars_wf(data@),
                forall|j: int| 0 <= j < i ==> (#[trigger] data@[j])@ == fr_add(coeff(self@, j), coeff(other@, j)),
            decreases n - i,
        {
            data.push(self.coefficient(i).add(&other.coefficient(i)));
            i += 1;
        }
        assert(scalar_values(data@) =~= Seq::new(
            max_len(self@, other@),
            |i: int| fr_add(coeff(self@, i), coeff(other@, i)),
        ));
        Polynomial::from_coefficients_vec(data)
    }

    /// The sum of two polynomials: the places that both have are added
    /// first, then the rest of the longer one is taken over.
    pub fn iter_add(poly_a: &Polynomial, poly_b: &Polynomial) -> (r: Polynomial)
        requires
            poly_a.coeffs_wf(),
            poly_b.coeffs_wf(),
        ensures
            r.wf(),
            r@ == poly_add(poly_a@, poly_b@),
    {
        let a_len = poly_a.coeffs.len();
        let b_len = poly_b.coeffs.len();
        let max_len = if a_len >= b_len {
            a_len
        } else {
            b_len
        };
        let min_len = if a_len >= b_len {
            b_len
        } else {
            a_len
        };
        let mut data: Vec<Scalar> = Vec::with_capacity(max_len);
        let ghost target = |j: int| fr_add(coeff(poly_a@, j), coeff(poly_b@, j));

        let mut i: usize = 0;
        while i < min_len
            invariant
                i <= min_len,
                min_len <= a_len,
                min_len <= b_len,
                a_len == poly_a.coeffs.len(),
                b_len == poly_b.coeffs.len(),
                poly_a.coeffs_wf(),
                poly_b.coeffs_wf(),
                data.len() == i,
                scalars_wf(data@),
                target == |j: int| fr_add(coeff(poly_a@, j), coeff(poly_b@, j)),
                forall|j: int| 0 <= j < i ==> (#[trigger] data@[j])@ == target(j),
            decreases min_len - i,
        {
            data.push(poly_a.coeffs[i].add(&poly_b.coeffs[i]));
            i += 1;
        }
        while i < a_len
            invariant
                min_len <= i,
                i <= max_len,
                a_len <= max_len,
                a_len == poly_a.coeffs.len(),
                b_len == poly_b.coeffs.len(),
                min_len == b_len || a_len == min_len,
                poly_a.coeffs_wf(),
                data.len() == i,
                scalars_wf(data@),
                target == |j: int| fr_add(coeff(poly_a@, j), coeff(poly_b@, j)),
                forall|j: int| 0 <= j < i ==> (#[trigger] data@[j])@ == target(j),
            decreases a_len - i,
        {
            proof {
                lemma_add_zero(poly_a@[i as int]);
            }
            data.push(poly_a.coeffs[i]);
            i += 1;
        }
        while i < b_len
            invariant
                min_len <= i,
                i <= max_len,
                a_len <= i,
                b_len <= max_len,
                a_len == poly_a.coeffs.len(),
                b_len == poly_b.coeffs.len(),
                poly_b.coeffs_wf(),
                data.len() == i,
                scalars_wf(data@),
                target == |j: int| fr_add(coeff(poly_a@, j), coeff(poly_b@, j)),
                forall|j: int| 0 <= j < i ==> (#[trigger] data@[j])@ == target(j),
            decreases b_len - i,
        {
            proof {
                lemma_add_zero(poly_b@[i as int]);
            }
            data.push(poly_b.coeffs[i]);
            i += 1;
        }
        assert(scalar_values(data@) =~= Seq::new(
            max_len as nat,
            |i: int| fr_add(coeff(poly_a@, i), coeff(poly_b@, i)),
        ));
        Polynomial::from_coefficients_vec(data)
    }

    /// Adds `other` to `self` in place.
    pub fn add_assign(&mut self, other: &Polynomial)
        requires
            old(self).coeffs_wf(),
            other.coeffs_wf(),
        ensures
            final(self).wf(),
            final(self)@ == poly_add(old(self)@, other@),
    {
        // Add the necessary number of zero coefficients.
        while self.coeffs.len() < other.coeffs.len()
            invariant
                self.coeffs_wf(),
                old(self).coeffs.len() <= self.coeffs.len(),
                self.coeffs.len() <= max_len(old(self)@, other@),
                forall|j: int| 0 <= j < self.coeffs.len() ==> (#[trigger] self.coeffs@[j])@ == coeff(old(self)@, j),
            decreases other.coeffs.len() - self.coeffs.len(),
        {
            self.coeffs.push(Scalar::zero());
        }
        let mut i: usize = 0;
        while i < other.coeffs.len()
            invariant
                i <= other.coeffs.len(),
                other.coeffs.len() <= self.coeffs.len(),
                self.coeffs.len() == max_len(old(self)@, other@),
                self.coeffs_wf(),
                other.coeffs_wf(),
                forall|j: int| 0 <= j < i ==> (#[trigger] self.coeffs@[j])@ == fr_add(coeff(old(self)@, j), coeff(other@, j)),
                forall|j: int| i <= j < self.coeffs.len() ==> (#[trigger] self.coeffs@[j])@ == coeff(old(self)@, j),
            decreases other.coeffs.len() - i,
        {
            let s = self.coeffs[i].add(&other.coeffs[i]);
            self.coeffs.set(i, s);
            i += 1;
        }
        proof {
            assert forall|j: int| 0 <= j < self@.len() implies #[trigger] self@[j] == fr_add(
                coeff(old(self)@, j),
                coeff(other@, j),
            ) by {
                assert(self@[j] == self.coeffs@[j]@);
                if j >= i {
                    lemma_add_zero(self@[j]);
                }
            }
            assert(self@ =~= Seq::new(
                max_len(old(self)@, other@),
                |i: int| fr_add(coeff(old(self)@, i), coeff(other@, i)),
            ));
        }
        self.truncate_leading_zeros();
    }

    /// Adds `f` times `other` to `self` in place.
    pub fn add_assign_scaled(&mut self, f: Scalar, other: &Polynomial)
        requires
            old(self).coeffs_wf(),
            other.coeffs_wf(),
            f.wf(),
        ensures
            final(self).wf(),
            final(self)@ == poly_add(old(self)@, poly_scale(other@, f@)),
    {
        // Add the necessary number of zero coefficients.
        while self.coeffs.len() < other.coeffs.len()
            invariant
                self.coeffs_wf(),
                old(self).coeffs.len() <= self.coeffs.len(),
                self.coeffs.len() <= max_len(old(self)@, other@),
                forall|j: int| 0 <= j < self.coeffs.len() ==> (#[trigger] self.coeffs@[j])@ == coeff(old(self)@, j),
            decreases other.coeffs.len() - self.coeffs.len(),
        {
            self.coeffs.push(Scalar::zero());
        }
        let mut i: usize = 0;
        while i < other.coeffs.len()
            invariant
                i <= other.coeffs.len(),
                other.coeffs.len() <= self.coeffs.len(),
                self.coeffs.len() == max_len(old(self)@, other@),
                self.coeffs_wf(),
                other.coeffs_wf(),
                f.wf(),
                forall|j: int| 0 <= j < i ==> (#[trigger] self.coeffs@[j])@ == fr_add(coeff(old(self)@, j), fr_mul(f@, coeff(other@, j))),
                forall|j: int| i <= j < self.coeffs.len() ==> (#[trigger] self.coeffs@[j])@ == coeff(old(self)@, j),
            decreases other.coeffs.len() - i,
        {
            let s = self.coeffs[i].add(&f.mul(&other.coeffs[i]));
            self.coeffs.set(i, s);
            i += 1;
        }
        proof {
            let sum = self@;
            let scaled = Seq::new(other@.len(), |i: int| fr_mul(other@[i], f@));
            assert forall|j: int| 0 <= j implies #[trigger] coeff(sum, j) == coeff(
                Seq::new(
                    max_len(old(self)@, poly_scale(other@, f@)),
                    |i: int| fr_add(coeff(old(self)@, i), coeff(poly_scale(other@, f@), i)),
                ),
                j,
            ) by {
                crate::poly::lemma_trim_coeff(scaled, j);
                crate::poly::lemma_trim_canonical(scaled);
                lemma_mul_zero(f@);
                if j < sum.len() {
                    assert(sum[j] == self.coeffs@[j]@);
                }
                if j < other@.len() {
                    lemma_mul_comm(f@, other@[j]);
                }
                if j < old(self)@.len() {
                    lemma_add_zero(old(self)@[j]);
                } else {
                    lemma_add_zero(0);
                }
            }
            lemma_trim_ext(
                sum,
                Seq::new(
                    max_len(old(self)@, poly_scale(other@, f@)),
                    |i: int| fr_add(coeff(old(self)@, i), coeff(poly_scale(other@, f@), i)),
                ),
            );
        }
        self.truncate_leading_zeros();
    }

    /// The polynomial with every coefficient negated.
    pub fn neg(self) -> (r: Polynomial)
        requires
            self.coeffs_wf(),
        ensures
            r.coeffs_wf(),
            r@ == poly_neg(self@),
            self.wf() ==> r.wf(),
    {
        let mut out = self;
        let ghost before = out@;
        let mut i: usize = 0;
        while i < out.coeffs.len()
            invariant
                i <= out.coeffs.len(),
                out.coeffs.len() == before.len(),
                out.coeffs_wf(),
                forall|j: int| 0 <= j < i ==> (#[trigger] out.coeffs@[j])@ == fr_neg(before[j]),
                forall|j: int| i <= j < before.len() ==> (#[trigger] out.coeffs@[j])@ == before[j],
            decreases out.coeffs.len() - i,
        {
            let c = out.coeffs[i].neg();
            out.coeffs.set(i, c);
            i += 1;
        }
        proof {
            assert(out@ =~= poly_neg(before));
            if before.len() > 0 {
                assert(before.last() == before[before.len() - 1]);
                lemma_neg_is_zero(before.last());
            }
        }
        out
    }

    /// The difference of two polynomials.
    pub fn sub(&self, other: &Polynomial) -> (r: Polynomial)
        requires
            self.coeffs_wf(),
            other.coeffs_wf(),
        ensures
            r.wf(),
            r@ == poly_sub(self@, other@),
    {
        let n = if self.coeffs.len() >= other.coeffs.len() {
            self.coeffs.len()
        } else {
            other.coeffs.len()
        };
        let mut data: Vec<Scalar> = Vec::with_capacity(n);
        let mut i: usize = 0;
        while i < n
            invariant
                i <= n,
                n == max_len(self@, other@),
                self.coeffs_wf(),
                other.coeffs_wf(),
                data.len() == i,
                scalars_wf(data@),
                forall|j: int| 0 <= j < i ==> (#[trigger] data@[j])@ == fr_sub(coeff(self@, j), coeff(other@, j)),
            decreases n - i,
        {
            data.push(self.coefficient(i).sub(&other.coefficient(i)));
            i += 1;
        }
        assert(scalar_values(data@) =~= Seq::new(
            max_len(self@, other@),
            |i: int| fr_sub(coeff(self@, i), coeff(other@, i)),
        ));
        Polynomial::from_coefficients_vec(data)
    }

    /// Subtracts `other` from `self` in place.
    pub fn sub_assign(&mut self, other: &Polynomial)
        requires
            old(self).coeffs_wf(),
            other.coeffs_wf(),
        ensures
            final(self).wf(),
            final(self)@ == poly_sub(old(self)@, other@),
    {
        // Add the necessary number of zero coefficients.
        while self.coeffs.len() < other.coeffs.len()
            invariant
                self.coeffs_wf(),
                old(self).coeffs.len() <= self.coeffs.len(),
                self.coeffs.len() <= max_len(old(self)@, other@),
                forall|j: int| 0 <= j < self.coeffs.len() ==> (#[trigger] self.coeffs@[j])@ == coeff(old(self)@, j),
            decreases other.coeffs.len() - self.coeffs.len(),
        {
            self.coeffs.push(Scalar::zero());
        }
        let mut i: usize = 0;
        while i < other.coeffs.len()
            invariant
                i <= other.coeffs.len(),
                other.coeffs.len() <= self.coeffs.len(),
                self.coeffs.len() == max_len(old(self)@, other@),
                self.coeffs_wf(),
                other.coeffs_wf(),
                forall|j: int| 0 <= j < i ==> (#[trigger] self.coeffs@[j])@ == fr_sub(coeff(old(self)@, j), coeff(other@, j)),
                forall|j: int| i <= j < self.coeffs.len() ==> (#[trigger] self.coeffs@[j])@ == coeff(old(self)@, j),
            decreases other.coeffs.len() - i,
        {
            let s = self.coeffs[i].sub(&other.coeffs[i]);
            self.coeffs.set(i, s);
            i += 1;
        }
        proof {
            assert forall|j: int| 0 <= j < self@.len() implies #[trigger] self@[j] == fr_sub(
                coeff(old(self)@, j),
                coeff(other@, j),
            ) by {
                assert(self@[j] == self.coeffs@[j]@);
                if j >= i {
                    crate::field::lemma_sub_is_add_neg(self@[j], 0);
                    crate::field::lemma_neg_zero();
                    lemma_add_zero(self@[j]);
                }
            }
            assert(self@ =~= Seq::new(
                max_len(old(self)@, other@),
                |i: int| fr_sub(coeff(old(self)@, i), coeff(other@, i)),
            ));
        }
        self.truncate_leading_zeros();
    }

    /// The coefficient of the highest power, where there is one.
    pub fn leading_coefficient(&self) -> (r: Option<&Scalar>)
        ensures
            self.coeffs.len() == 0 ==> r is None,
            self.coeffs.len() > 0 ==> r == Some(&self.coeffs@[self.coeffs.len() - 1]),
    {
        if self.coeffs.len() == 0 {
            None
        } else {
            Some(&self.coeffs[self.coeffs.len() - 1])
        }
    }

    /// The coefficients, each with its place.
    pub fn iter_with_index(&self) -> (r: Vec<(usize, Scalar)>)
        ensures
            r.len() == self.coeffs.len(),
            forall|i: int| 0 <= i < r.len() ==> #[trigger] r@[i] == (i as usize, self.coeffs@[i]),
    {
        let mut out: Vec<(usize, Scalar)> = Vec::with_capacity(self.coeffs.len());
        let mut i: usize = 0;
        while i < self.coeffs.len()
            invariant
                i <= self.coeffs.len(),
                out.len() == i,
                forall|j: int| 0 <= j < i ==> #[trigger] out@[j] == (j as usize, self.coeffs@[j]),
            decreases self.coeffs.len() - i,
        {
            out.push((i, self.coeffs[i]));
            i += 1;
        }
        out
    }

    /// The polynomial with every coefficient multiplied by `constant`.
    pub fn mul_scalar(&self, constant: &Scalar) -> (r: Polynomial)
        requires
            self.coeffs_wf(),
            constant.wf(),
        ensures
            r.wf(),
            r@ == poly_scale(self@, constant@),
    {
        let mut scaled_coeffs: Vec<Scalar> = Vec::with_capacity(self.coeffs.len());
        let mut i: usize = 0;
        while i < self.coeffs.len()
            invariant
                i <= self.coeffs.len(),
                self.coeffs_wf(),
                constant.wf(),
                scaled_coeffs.len() == i,
                scalars_wf(scaled_coeffs@),
                forall|j: int| 0 <= j < i ==> (#[trigger] scaled_coeffs@[j])@ == fr_mul(self@[j], constant@),
            decreases self.coeffs.len() - i,
        {
            scaled_coeffs.push(self.coeffs[i].mul(constant));
            i += 1;
        }
        assert(scalar_values(scaled_coeffs@) =~= Seq::new(
            self@.len(),
            |i: int| fr_mul(self@[i], constant@),
        ));
        Polynomial::from_coefficients_vec(scaled_coeffs)
    }

    /// The polynomial with `constant` added to its constant coefficient.
    pub fn add_scalar(&self, constant: &Scalar) -> (r: Polynomial)
        requires
            self.coeffs_wf(),
            constant.wf(),
        ensures
            r.wf(),
            r@ == poly_add(self@, poly_const(constant@)),
    {
        let mut v: Vec<Scalar> = Vec::with_capacity(1);
        v.push(*constant);
        assert(scalar_values(v@) =~= seq![constant@]);
        let c = Polynomial::from_coefficients_vec(v);
        self.add(&c)
    }

    /// The polynomial with `constant` subtracted from its constant coefficient.
    pub fn sub_scalar(&self, constant: &Scalar) -> (r: Polynomial)
        requires
            self.coeffs_wf(),
            constant.wf(),
        ensures
            r.wf(),
            r@ == poly_add(self@, poly_const(fr_neg(constant@))),
    {
        let negated_constant = constant.neg();
        self.add_scalar(&negated_constant)
    }

    /// Divides the polynomial by `x - z` with Ruffini's rule, and drops the remainder.
    pub fn ruffini(&self, z: Scalar) -> (r: Polynomial)
        requires
            self.coeffs_wf(),
            z.wf(),
        ensures
            r.wf(),
            r@ == ruffini_quotient(self@, z@),
    {
        let len = self.coeffs.len();
        let mut quotient: Vec<Scalar> = Vec::with_capacity(len);
        let mut k = Scalar::zero();
        let ghost p = self@;
        proof {
            lemma_mul_zero(z@);
            assert(p.subrange(len as int, len as int) =~= Seq::<int>::empty());
        }

        // The rule starts at the leading coefficient, which is the last of the vector.
        let mut i: usize = len;
        while i > 0
            invariant
                i <= len,
                len == self.coeffs.len(),
                p == self@,
                self.coeffs_wf(),
                z.wf(),
                k.wf(),
                k@ == fr_mul(z@, horner(p.subrange(i as int, len as int), z@)),
                quotient.len() == len - i,
                scalars_wf(quotient@),
                forall|j: int| 0 <= j < quotient.len() ==> (#[trigger] quotient@[j])@ == horner(
                    p.subrange(len - 1 - j, len as int),
                    z@,
                ),
            decreases i,
        {
            i -= 1;
            let t = self.coeffs[i].add(&k);
            proof {
                let tail = p.subrange(i as int, len as int);
                assert(tail.drop_first() =~= p.subrange(i as int + 1, len as int));
                assert(tail[0] == p[i as int]);
            }
            quotient.push(t);
            k = z.mul(&t);
        }
        // The last element is the remainder.
        quotient.pop();

        // Reverse the results: the leading coefficient is stored last.
        let m = quotient.len();
        let mut reversed: Vec<Scalar> = Vec::with_capacity(m);
        let mut j: usize = 0;
        while j < m
            invariant
                j <= m,
                m == quotient.len(),
                len > 0 ==> m == len - 1,
                len == 0 ==> m == 0,
                scalars_wf(quotient@),
                reversed.len() == j,
                scalars_wf(reversed@),
                forall|l: int| 0 <= l < m ==> (#[trigger] quotient@[l])@ == horner(
                    p.subrange(len - 1 - l, len as int),
                    z@,
                ),
                forall|l: int| 0 <= l < j ==> (#[trigger] reversed@[l])@ == horner(
                    p.subrange(l + 1, len as int),
                    z@,
                ),
            decreases m - j,
        {
            reversed.push(quotient[m - 1 - j]);
            j += 1;
        }
        proof {
            if len > 0 {
                assert(scalar_values(reversed@) =~= Seq::new(
                    (len - 1) as nat,
                    |i: int| horner(p.subrange(i + 1, len as int), z@),
                ));
            } else {
                assert(scalar_values(reversed@) =~= Seq::<int>::empty());
            }
        }
        Polynomial::from_coefficients_vec(reversed)
    }

    /// The product of two polynomials, by way of their values on an
    /// evaluation domain that holds the product. Fails where no domain
    /// is large enough.
    pub fn mul(&self, other: &Polynomial) -> (r: Result<Polynomial, Error>)
        requires
            self.coeffs_wf(),
            other.coeffs_wf(),
        ensures
            r is Err <==> !is_zero_poly(self@) && !is_zero_poly(other@) && self@.len()
                + other@.len() > max_domain_size(),
            r matches Ok(p) ==> p.wf() && p@ == poly_mul(self@, other@),
            r matches Err(e) ==> e == Error::DomainTooLarge,
    {
        if self.is_zero() || other.is_zero() {
            proof {
                if self@.len() > 0 && other@.len() > 0 {
                    let c = Seq::new(
                        (self@.len() + other@.len() - 1) as nat,
                        |k: int| conv(self@, other@, k),
                    );
                    assert forall|k: int| 0 <= k < c.len() implies #[trigger] c[k] == 0 by {
                        lemma_conv_of_zero(self@, other@, k);
                    }
                    lemma_trim_zero(c);
                }
            }
            return Ok(Polynomial::zero());
        }
        let a_len = self.coeffs.len();
        let b_len = other.coeffs.len();
        if a_len > usize::MAX - b_len {
            return Err(Error::DomainTooLarge);
        }
        let domain = match EvaluationDomain::new(a_len + b_len) {
            Ok(d) => d,
            Err(e) => {
                return Err(e);
            },
        };
        let mut self_evals = Evaluations::from_vec_and_domain(domain.fft(&self.coeffs), domain);
        let other_evals = Evaluations::from_vec_and_domain(domain.fft(&other.coeffs), domain);
        self_evals.mul_assign(&other_evals);
        proof {
            let log = domain.log_size_of_group as nat;
            crate::domain::lemma_group_generator(log);
            crate::domain::lemma_inverse_is_primitive(
                domain.group_gen@,
                domain.group_gen_inv@,
                log,
            );
            lemma_product_by_transform(
                self@,
                other@,
                domain.group_gen@,
                domain.group_gen_inv@,
                domain.size_inv@,
                log,
            );
            let n = domain.size as nat;
            let fa = dft(resized(self@, n), domain.group_gen@);
            let fb = dft(resized(other@, n), domain.group_gen@);
            assert(self_evals@ =~= Seq::new(n, |i: int| fr_mul(fa[i], fb[i])));
        }
        Ok(self_evals.interpolate())
    }

    /// The polynomial whose coefficients are the residues of 256-bit
    /// numbers, each given by its four limbs, the lowest first.
    pub fn from_raw_coefficients(limbs: &Vec<[u64; 4]>) -> (r: Polynomial)
        ensures
            r.wf(),
            r@ == trim(
                Seq::new(
                    limbs@.len(),
                    |i: int|
                        limbs_value(limbs@[i][0], limbs@[i][1], limbs@[i][2], limbs@[i][3])
                            % modulus(),
                ),
            ),
    {
        let mut coeffs: Vec<Scalar> = Vec::with_capacity(limbs.len());
        let mut i: usize = 0;
        while i < limbs.len()
            invariant
                i <= limbs.len(),
                coeffs.len() == i,
                scalars_wf(coeffs@),
                forall|j: int|
                    0 <= j < i ==> (#[trigger] coeffs@[j])@ == limbs_value(
                        limbs@[j][0],
                        limbs@[j][1],
                        limbs@[j][2],
                        limbs@[j][3],
                    ) % modulus(),
            decreases limbs.len() - i,
        {
            coeffs.push(Scalar::from_raw(limbs[i]));
            i += 1;
        }
        assert(scalar_values(coeffs@) =~= Seq::new(
            limbs@.len(),
            |i: int|
                limbs_value(limbs@[i][0], limbs@[i][1], limbs@[i][2], limbs@[i][3]) % modulus(),
        ));
        Polynomial::from_coefficients_vec(coeffs)
    }
}

} // verus!
