//! Evaluation domains: the subgroups of two-power order of the scalar
//! field, over which polynomials are evaluated and interpolated.

use vstd::prelude::*;
use vstd::arithmetic::power2::{lemma2_to64, lemma2_to64_rest, lemma_pow2_adds, lemma_pow2_pos, lemma_pow2_strictly_increases, pow2};
use crate::error::Error;
use crate::fft::{dft, fft_recursive, is_primitive_root, lemma_mul_neg_one, lemma_neg_one};
use crate::field::{
    fr_inv, fr_mul, fr_pow, fr_sub, group_fr_closed, is_fr, lemma_inv_is, lemma_mul_assoc,
    lemma_mul_comm, lemma_mul_one, lemma_mul_zero, lemma_neg_neg, lemma_pow_of_mul,
    lemma_pow_of_one, lemma_pow_pow, lemma_pow_succ, lemma_sub_then_add, lemma_add_zero,
};
use crate::poly::{coeff, poly_eval};
use crate::polynomial::Polynomial;
use crate::roots::{
    group_generator, lemma_root_of_unity_order, lemma_squarings_add, lemma_squarings_is_pow,
    neg_one, root_of_unity, squarings, TWO_ADICITY,
};
use crate::scalar::Scalar;
use crate::util::{scalar_values, scalars_wf};

verus! {

/// The largest domain that can be built: `2^32` where a vector can be
/// that long, half of it elsewhere.
pub open spec fn max_domain_size() -> nat {
    if usize::MAX >= 0x1_0000_0000 {
        0x1_0000_0000
    } else {
        0x8000_0000
    }
}

/// The sequence cut or filled with zeros to the length `n`.
pub open spec fn resized(v: Seq<int>, n: nat) -> Seq<int> {
    Seq::new(n, |i: int| coeff(v, i))
}

/// The coefficients of the polynomial of degree below `e.len()` that has
/// the values `e` at the powers of the inverse of `w_inv`; `n_inv` is the
/// inverse of the length.
pub open spec fn idft(e: Seq<int>, w_inv: int, n_inv: int) -> Seq<int> {
    Seq::new(e.len(), |j: int| fr_mul(poly_eval(e, fr_pow(w_inv, j as nat)), n_inv))
}

/// The `i`-th Lagrange polynomial of the group of order `n` that `w`
/// generates, at `z`: `(z^n - 1) w^i / (n (z - w^i))` away from the group,
/// and one or zero on it.
#[verifier::opaque]
pub open spec fn lagrange_coefficient(w: int, n: nat, i: nat, z: int) -> int {
    if fr_pow(z, n) == 1 {
        if fr_pow(w, i) == z {
            1
        } else {
            0
        }
    } else {
        fr_mul(
            fr_mul(fr_mul(fr_sub(fr_pow(z, n), 1), fr_inv(n as int)), fr_pow(w, i)),
            fr_inv(fr_sub(z, fr_pow(w, i))),
        )
    }
}

/// A multiplicative subgroup of the scalar field of order `size`, a power of two.
#[derive(Clone, Copy, Debug, PartialEq, Eq)]
pub struct EvaluationDomain {
    /// The order of the group.
    pub size: u64,
    /// The logarithm of the order to the base two.
    pub log_size_of_group: u32,
    /// The order as an element of the field.
    pub size_as_field_element: Scalar,
    /// The inverse of the order in the field.
    pub size_inv: Scalar,
    /// A generator of the group.
    pub group_gen: Scalar,
    /// The inverse of the generator.
    pub group_gen_inv: Scalar,
}

/// Squaring zero gives zero.
proof fn lemma_squarings_of_zero(k: nat)
    ensures
        squarings(0, k) == 0,
    decreases k,
{
    if k > 0 {
        lemma_squarings_of_zero((k - 1) as nat);
        lemma_mul_zero(0);
    }
}

/// The generator of the group of order `2^log` is a root of that order and not zero.
pub proof fn lemma_group_generator(log: nat)
    requires
        log <= 32,
    ensures
        is_primitive_root(group_generator(log), log),
        squarings(group_generator(log), log) == 1,
        group_generator(log) != 0,
{
    broadcast use group_fr_closed;

    let r = root_of_unity();
    let g = group_generator(log);
    lemma_root_of_unity_order();
    lemma_neg_one();
    lemma_mul_neg_one(neg_one());
    lemma_neg_neg(1);
    assert(squarings(r, 32) == fr_mul(squarings(r, 31), squarings(r, 31)));
    assert(squarings(r, 32) == 1);
    lemma_squarings_add(r, (32 - log) as nat, log);
    if log >= 1 {
        lemma_squarings_add(r, (32 - log) as nat, (log - 1) as nat);
    }
    if g == 0 {
        lemma_squarings_of_zero(log);
    }
    if log == 32 {
        assert(is_fr(r));
    }
}

/// The inverse of a root of unity is a root of the same order.
pub proof fn lemma_inverse_is_primitive(w: int, w_inv: int, log: nat)
    requires
        is_primitive_root(w, log),
        is_fr(w_inv),
        fr_mul(w, w_inv) == 1,
    ensures
        is_primitive_root(w_inv, log),
{
    broadcast use group_fr_closed;

    if log >= 1 {
        let h = pow2((log - 1) as nat);
        lemma_squarings_is_pow(w, (log - 1) as nat);
        lemma_squarings_is_pow(w_inv, (log - 1) as nat);
        let p = fr_pow(w_inv, h);
        lemma_pow_of_mul(w, w_inv, h);
        lemma_pow_of_one(h);
        // 1 == (-1) p == -p
        lemma_mul_comm(neg_one(), p);
        lemma_mul_neg_one(p);
        lemma_neg_neg(p);
        lemma_neg_one();
    }
}

impl EvaluationDomain {
    /// The order is the power of two that the logarithm says, the
    /// generator is the one of that order, and the inverses are inverses.
    pub open spec fn wf(&self) -> bool {
        &&& self.log_size_of_group <= 32
        &&& self.size == pow2(self.log_size_of_group as nat)
        &&& self.size <= usize::MAX
        &&& self.size_as_field_element.wf()
        &&& self.size_as_field_element@ == self.size
        &&& self.size_inv.wf()
        &&& fr_mul(self.size as int, self.size_inv@) == 1
        &&& self.group_gen.wf()
        &&& self.group_gen@ == group_generator(self.log_size_of_group as nat)
        &&& self.group_gen_inv.wf()
        &&& fr_mul(self.group_gen@, self.group_gen_inv@) == 1
    }

    /// The domain of the least order that is a power of two and not below
    /// `num_coeffs`. Fails where that order is above the largest that can
    /// be built.
    pub fn new(num_coeffs: usize) -> (r: Result<EvaluationDomain, Error>)
        ensures
            r is Ok <==> num_coeffs <= max_domain_size(),
            r matches Ok(d) ==> {
                &&& d.wf()
                &&& d.size >= num_coeffs
                &&& (d.log_size_of_group > 0 ==> pow2((d.log_size_of_group - 1) as nat)
                    < num_coeffs)
            },
            r matches Err(e) ==> e == Error::DomainTooLarge,
    {
        proof {
            lemma2_to64();
            lemma2_to64_rest();
        }
        // Compute the size of our evaluation domain
        let mut size: u64 = 1;
        let mut log_size_of_group: u32 = 0;
        while size < num_coeffs as u64
            invariant
                log_size_of_group <= 32,
                size == pow2(log_size_of_group as nat),
                size <= 0x1_0000_0000,
                log_size_of_group > 0 ==> pow2((log_size_of_group - 1) as nat) < num_coeffs,
            decreases 32 - log_size_of_group,
        {
            proof {
                lemma2_to64();
            }
            if log_size_of_group >= TWO_ADICITY {
                return Err(Error::DomainTooLarge);
            }
            proof {
                lemma_pow2_adds(log_size_of_group as nat, 1);
                if log_size_of_group < 31 {
                    lemma_pow2_strictly_increases((log_size_of_group + 1) as nat, 32);
                }
            }
            size = size * 2;
            log_size_of_group = log_size_of_group + 1;
        }
        if size > usize::MAX as u64 {
            return Err(Error::DomainTooLarge);
        }
        proof {
            if log_size_of_group < 32 {
                lemma_pow2_strictly_increases(log_size_of_group as nat, 32);
            }
            if log_size_of_group < 31 {
                lemma_pow2_strictly_increases(log_size_of_group as nat, 31);
            }
        }

        // Compute the generator for the multiplicative subgroup.
        // It should be the 2^(log_size_of_group) root of unity.
        let mut group_gen = Scalar {
            l0: 0x3829971f439f0d2b,
            l1: 0xb63683508c2280b9,
            l2: 0xd09b681922c813b4,
            l3: 0x16a2a19edfe81f20,
        };
        assert(group_gen@ == root_of_unity());
        let mut k: u32 = log_size_of_group;
        while k < TWO_ADICITY
            invariant
                log_size_of_group <= k <= 32,
                group_gen.wf(),
                group_gen@ == squarings(root_of_unity(), (k - log_size_of_group) as nat),
            decreases 32 - k,
        {
            group_gen = group_gen.square();
            k = k + 1;
        }
        let size_as_field_element = Scalar::from_u64(size);
        proof {
            lemma_pow2_pos(log_size_of_group as nat);
            lemma_group_generator(log_size_of_group as nat);
        }
        let size_inv = size_as_field_element.invert().unwrap();
        let group_gen_inv = group_gen.invert().unwrap();

        Ok(
            EvaluationDomain {
                size,
                log_size_of_group,
                size_as_field_element,
                size_inv,
                group_gen,
                group_gen_inv,
            },
        )
    }

    /// The number of elements of the domain.
    pub fn size(&self) -> (r: usize)
        requires
            self.wf(),
        ensures
            r == self.size,
    {
        self.size as usize
    }

    /// The vector cut or filled with zeros to the size of the domain.
    fn resize(&self, v: &Vec<Scalar>) -> (r: Vec<Scalar>)
        requires
            self.wf(),
            scalars_wf(v@),
        ensures
            r.len() == self.size,
            scalars_wf(r@),
            scalar_values(r@) == resized(scalar_values(v@), self.size as nat),
    {
        let n = self.size as usize;
        let mut out: Vec<Scalar> = Vec::with_capacity(n);
        let mut i: usize = 0;
        while i < n
            invariant
                i <= n,
                scalars_wf(v@),
                out.len() == i,
                scalars_wf(out@),
                forall|j: int| 0 <= j < i ==> (#[trigger] out@[j])@ == coeff(scalar_values(v@), j),
            decreases n - i,
        {
            if i < v.len() {
                out.push(v[i]);
            } else {
                out.push(Scalar::zero());
            }
            i += 1;
        }
        assert(scalar_values(out@) =~= resized(scalar_values(v@), self.size as nat));
        out
    }

    /// The values at the elements of the domain, in the order of the
    /// powers of the generator, of the polynomial with the coefficients
    /// `coeffs`, which are cut or filled with zeros to the size of the domain.
    pub fn fft(&self, coeffs: &Vec<Scalar>) -> (r: Vec<Scalar>)
        requires
            self.wf(),
            scalars_wf(coeffs@),
        ensures
            r.len() == self.size,
            scalars_wf(r@),
            scalar_values(r@) == dft(
                resized(scalar_values(coeffs@), self.size as nat),
                self.group_gen@,
            ),
    {
        let padded = self.resize(coeffs);
        proof {
            lemma_group_generator(self.log_size_of_group as nat);
        }
        fft_recursive(&padded, &self.group_gen, self.log_size_of_group)
    }

    /// The coefficients of the polynomial of degree below the size of the
    /// domain that has the values `evals` at its elements; the values are
    /// cut or filled with zeros to the size of the domain.
    pub fn ifft(&self, evals: &Vec<Scalar>) -> (r: Vec<Scalar>)
        requires
            self.wf(),
            scalars_wf(evals@),
        ensures
            r.len() == self.size,
            scalars_wf(r@),
            scalar_values(r@) == idft(
                resized(scalar_values(evals@), self.size as nat),
                self.group_gen_inv@,
                self.size_inv@,
            ),
    {
        let padded = self.resize(evals);
        proof {
            lemma_group_generator(self.log_size_of_group as nat);
            lemma_inverse_is_primitive(
                self.group_gen@,
                self.group_gen_inv@,
                self.log_size_of_group as nat,
            );
        }
        let mut out = fft_recursive(&padded, &self.group_gen_inv, self.log_size_of_group);
        let ghost e = scalar_values(padded@);
        let ghost t = scalar_values(out@);
        let mut i: usize = 0;
        while i < out.len()
            invariant
                i <= out.len(),
                out.len() == self.size,
                t.len() == self.size,
                e.len() == self.size,
                t == dft(e, self.group_gen_inv@),
                self.size_inv.wf(),
                scalars_wf(out@),
                forall|j: int| 0 <= j < i ==> (#[trigger] out@[j])@ == fr_mul(t[j], self.size_inv@),
                forall|j: int| i <= j < out.len() ==> (#[trigger] out@[j])@ == t[j],
            decreases out.len() - i,
        {
            let v = out[i].mul(&self.size_inv);
            out.set(i, v);
            i += 1;
        }
        assert(scalar_values(out@) =~= idft(e, self.group_gen_inv@, self.size_inv@));
        out
    }

    /// The vanishing polynomial of the domain at `tau`: `tau^size - 1`.
    pub fn evaluate_vanishing_polynomial(&self, tau: Scalar) -> (r: Scalar)
        requires
            tau.wf(),
        ensures
            r.wf(),
            r@ == fr_sub(fr_pow(tau@, self.size as nat), 1),
    {
        tau.pow(&[self.size, 0, 0, 0]).sub(&Scalar::one())
    }

    /// The Lagrange polynomials of the domain at `tau`, one for each element.
    pub fn evaluate_all_lagrange_coefficients(&self, tau: Scalar) -> (r: Vec<Scalar>)
        requires
            self.wf(),
            tau.wf(),
        ensures
            r.len() == self.size,
            scalars_wf(r@),
            forall|i: int| 0 <= i < r.len() ==> (#[trigger] r@[i])@ == lagrange_coefficient(
                self.group_gen@,
                self.size as nat,
                i as nat,
                tau@,
            ),
    {
        let size = self.size as usize;
        let t_size = tau.pow(&[self.size, 0, 0, 0]);
        let one = Scalar::one();
        let ghost w = self.group_gen@;
        let ghost n = self.size as nat;
        let mut u: Vec<Scalar> = Vec::with_capacity(size);
        if t_size == one {
            let mut omega_i = one;
            let mut i: usize = 0;
            while i < size
                invariant
                    i <= size,
                    self.group_gen.wf(),
                    tau.wf(),
                    w == self.group_gen@,
                    fr_pow(tau@, n) == 1,
                    omega_i.wf(),
                    omega_i@ == fr_pow(w, i as nat),
                    u.len() == i,
                    scalars_wf(u@),
                    forall|j: int| 0 <= j < i ==> (#[trigger] u@[j])@ == lagrange_coefficient(w, n, j as nat, tau@),
                decreases size - i,
            {
                if omega_i == tau {
                    u.push(Scalar::one());
                } else {
                    u.push(Scalar::zero());
                }
                proof {
                    lemma_lagrange_on(w, n, i as nat, tau@);
                    lemma_pow_succ(w, i as nat);
                }
                omega_i = omega_i.mul(&self.group_gen);
                i += 1;
            }
        } else {
            let l0 = t_size.sub(&one).mul(&self.size_inv);
            let mut l = l0;
            let mut r = one;
            proof {
                lemma_inv_is(n as int, self.size_inv@);
                lemma_mul_one(l0@);
                lemma_group_generator(self.log_size_of_group as nat);
                lemma_squarings_is_pow(w, self.log_size_of_group as nat);
            }
            let mut i: usize = 0;
            while i < size
                invariant
                    i <= size,
                    self.group_gen.wf(),
                    tau.wf(),
                    w == self.group_gen@,
                    fr_pow(tau@, n) != 1,
                    fr_pow(w, n) == 1,
                    l0@ == fr_mul(fr_sub(fr_pow(tau@, n), 1), fr_inv(n as int)),
                    l.wf(),
                    l@ == fr_mul(l0@, fr_pow(w, i as nat)),
                    r.wf(),
                    r@ == fr_pow(w, i as nat),
                    u.len() == i,
                    scalars_wf(u@),
                    forall|j: int| 0 <= j < i ==> (#[trigger] u@[j])@ == lagrange_coefficient(w, n, j as nat, tau@),
                decreases size - i,
            {
                let d = tau.sub(&r);
                proof {
                    lemma_off_the_group(w, n, i as nat, tau@);
                }
                let d_inv = d.invert().unwrap();
                let v = l.mul(&d_inv);
                proof {
                    lemma_lagrange_off(w, n, i as nat, tau@, d_inv@);
                    lemma_pow_succ(w, i as nat);
                    lemma_mul_assoc(l0@, fr_pow(w, i as nat), w);
                }
                u.push(v);
                l = l.mul(&self.group_gen);
                r = r.mul(&self.group_gen);
                i += 1;
            }
        }
        u
    }
}

/// The Lagrange polynomials at a point of which the power by the order
/// of the group is one.
pub proof fn lemma_lagrange_on(w: int, n: nat, i: nat, z: int)
    requires
        fr_pow(z, n) == 1,
    ensures
        lagrange_coefficient(w, n, i, z) == if fr_pow(w, i) == z {
            1int
        } else {
            0int
        },
{
    reveal(lagrange_coefficient);
}

/// The Lagrange polynomials at a point of which the power by the order
/// of the group is not one, from the inverse of the distance of the point
/// to the element of the group.
pub proof fn lemma_lagrange_off(w: int, n: nat, i: nat, z: int, d_inv: int)
    requires
        fr_pow(z, n) != 1,
        is_fr(d_inv),
        fr_mul(fr_sub(z, fr_pow(w, i)), d_inv) == 1,
    ensures
        lagrange_coefficient(w, n, i, z) == fr_mul(
            fr_mul(fr_mul(fr_sub(fr_pow(z, n), 1), fr_inv(n as int)), fr_pow(w, i)),
            d_inv,
        ),
{
    reveal(lagrange_coefficient);
    lemma_inv_is(fr_sub(z, fr_pow(w, i)), d_inv);
}

/// A point whose power by the order of the group is not one differs
/// from every element of the group.
pub proof fn lemma_off_the_group(w: int, n: nat, i: nat, z: int)
    requires
        is_fr(z),
        fr_pow(w, n) == 1,
        fr_pow(z, n) != 1,
    ensures
        fr_sub(z, fr_pow(w, i)) != 0,
{
    broadcast use group_fr_closed;

    let r = fr_pow(w, i);
    if fr_sub(z, r) == 0 {
        lemma_sub_then_add(z, r);
        lemma_add_zero(r);
        lemma_pow_pow(w, i, n);
        lemma_pow_pow(w, n, i);
        lemma_pow_of_one(i);
        assert(i * n == n * i) by (nonlinear_arith);
    }
}

/// The values of a polynomial at the elements of a domain.
#[derive(Clone, Debug, PartialEq, Eq)]
pub struct Evaluations {
    /// The values, in the order of the powers of the generator.
    pub evals: Vec<Scalar>,
    pub domain: EvaluationDomain,
}

impl Evaluations {
    /// The residues of the values.
    pub open spec fn view(&self) -> Seq<int> {
        scalar_values(self.evals@)
    }

    /// There is a canonical value for each element of the domain.
    pub open spec fn wf(&self) -> bool {
        &&& self.domain.wf()
        &&& scalars_wf(self.evals@)
        &&& self.evals.len() == self.domain.size
    }

    /// Puts values and their domain together.
    pub fn from_vec_and_domain(evals: Vec<Scalar>, domain: EvaluationDomain) -> (r: Evaluations)
        ensures
            r.evals == evals,
            r.domain == domain,
    {
        Evaluations { evals, domain }
    }

    /// Multiplies each value by the value of `other` at the same element.
    pub fn mul_assign(&mut self, other: &Evaluations)
        requires
            old(self).wf(),
            other.wf(),
            old(self).domain == other.domain,
        ensures
            final(self).wf(),
            final(self).domain == old(self).domain,
            final(self)@ == Seq::new(old(self)@.len(), |i: int| fr_mul(old(self)@[i], other@[i])),
    {
        let mut i: usize = 0;
        let ghost before = self@;
        while i < self.evals.len()
            invariant
                i <= self.evals.len(),
                self.wf(),
                other.wf(),
                self.domain == old(self).domain,
                self.domain == other.domain,
                before == old(self)@,
                forall|j: int| 0 <= j < i ==> (#[trigger] self.evals@[j])@ == fr_mul(before[j], other@[j]),
                forall|j: int| i <= j < self.evals.len() ==> (#[trigger] self.evals@[j])@ == before[j],
            decreases self.evals.len() - i,
        {
            let v = self.evals[i].mul(&other.evals[i]);
            self.evals.set(i, v);
            i += 1;
        }
        assert(self@ =~= Seq::new(before.len(), |i: int| fr_mul(before[i], other@[i])));
    }

    /// The polynomial of degree below the size of the domain that has
    /// these values.
    pub fn interpolate(self) -> (r: Polynomial)
        requires
            self.wf(),
        ensures
            r.wf(),
            r@ == crate::poly::trim(
                idft(self@, self.domain.group_gen_inv@, self.domain.size_inv@),
            ),
    {
        let coeffs = self.domain.ifft(&self.evals);
        assert(resized(self@, self.domain.size as nat) =~= self@);
        Polynomial::from_coefficients_vec(coeffs)
    }
}

/// Whether `n` is a power of two.
pub open spec fn is_power_of_two(n: nat) -> bool {
    exists|k: nat| pow2(k) == n
}

/// The logarithm to the base two of a power of two.
pub open spec fn log2_of(n: nat) -> nat {
    choose|k: nat| pow2(k) == n
}

/// The generator of the group of order `n`, a power of two up to `2^32`.
pub open spec fn domain_generator(n: nat) -> int {
    group_generator(log2_of(n))
}

/// Different exponents give different powers of two.
pub proof fn lemma_pow2_injective(j: nat, k: nat)
    requires
        pow2(j) == pow2(k),
    ensures
        j == k,
{
    if j < k {
        lemma_pow2_strictly_increases(j, k);
    }
    if k < j {
        lemma_pow2_strictly_increases(k, j);
    }
}

/// What the fields of a domain of order `n` hold.
pub proof fn lemma_domain_values(d: EvaluationDomain)
    requires
        d.wf(),
    ensures
        is_power_of_two(d.size as nat),
        log2_of(d.size as nat) == d.log_size_of_group,
        d.group_gen@ == domain_generator(d.size as nat),
        d.group_gen_inv@ == fr_inv(d.group_gen@),
        d.size_inv@ == fr_inv(d.size as int),
        1 <= d.size <= 0x1_0000_0000,
{
    lemma_pow2_pos(d.log_size_of_group as nat);
    let n = d.size as nat;
    let k = d.log_size_of_group as nat;
    assert(pow2(k) == n);
    lemma_pow2_injective(log2_of(n), k);
    lemma_inv_is(d.group_gen@, d.group_gen_inv@);
    lemma_inv_is(d.size as int, d.size_inv@);
    lemma2_to64();
    if k < 32 {
        lemma_pow2_strictly_increases(k, 32);
    }
}

/// The domain that `EvaluationDomain::new` builds for `n` has exactly `n`
/// elements where `n` is a power of two, and more elsewhere.
pub proof fn lemma_domain_size_exact(d: EvaluationDomain, n: nat)
    requires
        d.wf(),
        d.size >= n,
        d.log_size_of_group > 0 ==> pow2((d.log_size_of_group - 1) as nat) < n,
    ensures
        d.size == n <==> is_power_of_two(n),
{
    if is_power_of_two(n) {
        let k = log2_of(n);
        let log = d.log_size_of_group as nat;
        assert(pow2(k) == n);
        if k < log {
            if k < log - 1 {
                lemma_pow2_strictly_increases(k, (log - 1) as nat);
            }
        }
        if k > log {
            lemma_pow2_strictly_increases(log, k);
        }
    }
}

} // verus!
