//! A PLONK proof and its verification.

use vstd::prelude::*;
use crate::backend::{
    g1_add, g1_difference, g1_mul, g1_product, g1_sub, g1_sum, pairing_value, pairings_agree,
};
use crate::domain::{
    domain_generator, idft, is_power_of_two, lagrange_coefficient, lemma_domain_size_exact,
    lemma_domain_values, max_domain_size, resized, EvaluationDomain,
};
use crate::poly::poly_eval;
use crate::poly_laws::lemma_eval_trim;
use crate::polynomial::Polynomial;
use crate::replay::{
    alpha_challenge, beta_challenge, entries_after_evaluation_challenge, entries_at_end,
    evaluation_challenge, gamma_challenge, opening_challenge, separation_challenge,
};
use crate::transcript::{TranscriptEntry, TranscriptProtocol};
use crate::circuit::PreProcessedCircuit;
use crate::commitment::{Commitment, VerifierKey};
use crate::constants::{k1, k2, K1, K2};
use crate::error::Error;
use crate::field::{
    fr_add, fr_inv, fr_mul, fr_neg, fr_pow, fr_sub, lemma_inv_is, lemma_pow_add,
};
use crate::group::G1Point;
use crate::scalar::Scalar;
use crate::util::{
    multiscalar_mul, point_encodings, points_sum, products, scalar_values, scalars_wf, sum_points,
};

verus! {

/// The openings that the prover claims at the evaluation challenge.
#[derive(Clone, Copy, Debug, PartialEq, Eq)]
pub struct ProofEvaluations {
    /// The left wire polynomial at `z`.
    pub a_eval: Scalar,
    /// The right wire polynomial at `z`.
    pub b_eval: Scalar,
    /// The output wire polynomial at `z`.
    pub c_eval: Scalar,
    /// The left permutation polynomial at `z`.
    pub left_sigma_eval: Scalar,
    /// The right permutation polynomial at `z`.
    pub right_sigma_eval: Scalar,
    /// The linearisation polynomial at `z`.
    pub lin_poly_eval: Scalar,
    /// The permutation accumulator at `z` times the group generator.
    pub perm_eval: Scalar,
}

impl ProofEvaluations {
    /// Every opening is a canonical residue.
    pub open spec fn wf(&self) -> bool {
        &&& self.a_eval.wf()
        &&& self.b_eval.wf()
        &&& self.c_eval.wf()
        &&& self.left_sigma_eval.wf()
        &&& self.right_sigma_eval.wf()
        &&& self.lin_poly_eval.wf()
        &&& self.perm_eval.wf()
    }
}

/// Nine commitments and seven openings.
#[derive(Clone, Copy, Debug, PartialEq, Eq)]
pub struct Proof {
    /// Commitment to the witness polynomial of the left wires.
    pub a_comm: Commitment,
    /// Commitment to the witness polynomial of the right wires.
    pub b_comm: Commitment,
    /// Commitment to the witness polynomial of the output wires.
    pub c_comm: Commitment,
    /// Commitment to the permutation accumulator.
    pub z_comm: Commitment,
    /// Commitments to the three parts of the quotient polynomial.
    pub t_lo_comm: Commitment,
    pub t_mid_comm: Commitment,
    pub t_hi_comm: Commitment,
    /// Commitment to the opening polynomial.
    pub w_z_comm: Commitment,
    /// Commitment to the shifted opening polynomial.
    pub w_zw_comm: Commitment,
    pub evaluations: ProofEvaluations,
}

impl Proof {
    /// Every commitment is a point of the group, and every opening a
    /// canonical residue.
    pub open spec fn wf(&self) -> bool {
        &&& self.a_comm.wf()
        &&& self.b_comm.wf()
        &&& self.c_comm.wf()
        &&& self.z_comm.wf()
        &&& self.t_lo_comm.wf()
        &&& self.t_mid_comm.wf()
        &&& self.t_hi_comm.wf()
        &&& self.w_z_comm.wf()
        &&& self.w_zw_comm.wf()
        &&& self.evaluations.wf()
    }

    /// The proof whose commitments are all empty and whose openings are all zero.
    pub fn empty() -> (r: Proof)
        ensures
            r.wf(),
            r.a_comm@ == crate::backend::g1_identity_encoding(),
            r.b_comm == r.a_comm,
            r.c_comm == r.a_comm,
            r.z_comm == r.a_comm,
            r.t_lo_comm == r.a_comm,
            r.t_mid_comm == r.a_comm,
            r.t_hi_comm == r.a_comm,
            r.w_z_comm == r.a_comm,
            r.w_zw_comm == r.a_comm,
            r.evaluations.a_eval@ == 0,
            r.evaluations.b_eval@ == 0,
            r.evaluations.c_eval@ == 0,
            r.evaluations.left_sigma_eval@ == 0,
            r.evaluations.right_sigma_eval@ == 0,
            r.evaluations.lin_poly_eval@ == 0,
            r.evaluations.perm_eval@ == 0,
    {
        let e = Commitment::empty();
        Proof {
            a_comm: e,
            b_comm: e,
            c_comm: e,
            z_comm: e,
            t_lo_comm: e,
            t_mid_comm: e,
            t_hi_comm: e,
            w_z_comm: e,
            w_zw_comm: e,
            evaluations: ProofEvaluations {
                a_eval: Scalar::zero(),
                b_eval: Scalar::zero(),
                c_eval: Scalar::zero(),
                left_sigma_eval: Scalar::zero(),
                right_sigma_eval: Scalar::zero(),
                lin_poly_eval: Scalar::zero(),
                perm_eval: Scalar::zero(),
            },
        }
    }

    /// Puts the commitments to the three witness polynomials into the proof.
    pub fn set_witness_poly_commitments(
        &mut self,
        a_comm: &Commitment,
        b_comm: &Commitment,
        c_comm: &Commitment,
    )
        ensures
            final(self).a_comm == *a_comm,
            final(self).b_comm == *b_comm,
            final(self).c_comm == *c_comm,
            final(self).z_comm == old(self).z_comm,
            final(self).t_lo_comm == old(self).t_lo_comm,
            final(self).t_mid_comm == old(self).t_mid_comm,
            final(self).t_hi_comm == old(self).t_hi_comm,
            final(self).w_z_comm == old(self).w_z_comm,
            final(self).w_zw_comm == old(self).w_zw_comm,
            final(self).evaluations == old(self).evaluations,
    {
        self.a_comm = *a_comm;
        self.b_comm = *b_comm;
        self.c_comm = *c_comm;
    }
    /// Verifies the proof against a compiled circuit and its public inputs.
    ///
    /// Replays the prover's transcript to get the challenges, rebuilds the
    /// quotient evaluation and the commitments `D`, `F` and `E`, and checks
    /// the pairing equation. Gives `Ok(true)` where the equation holds and
    /// `Ok(false)` where it does not, or where the evaluation challenge
    /// falls into the domain. Fails, with the transcript untouched, where
    /// the circuit size is not a power of two that a domain can have, or
    /// where there are more public inputs than gates.
    pub fn verify<T: TranscriptProtocol>(
        &self,
        preprocessed_circuit: &PreProcessedCircuit,
        transcript: &mut T,
        verifier_key: &VerifierKey,
        pub_inputs: &Vec<Scalar>,
    ) -> (r: Result<bool, Error>)
        requires
            self.wf(),
            preprocessed_circuit.wf(),
            verifier_key.wf(),
            scalars_wf(pub_inputs@),
        ensures
            !valid_circuit_size(preprocessed_circuit.n as nat) ==> r == Err::<bool, Error>(
                Error::InvalidCircuitSize,
            ),
            valid_circuit_size(preprocessed_circuit.n as nat) && pub_inputs.len()
                > preprocessed_circuit.n ==> r == Err::<bool, Error>(Error::PublicInputTooLong),
            r is Err ==> final(transcript).entries() == old(transcript).entries(),
            valid_circuit_size(preprocessed_circuit.n as nat) && pub_inputs.len()
                <= preprocessed_circuit.n ==> {
                &&& r == Ok::<bool, Error>(
                    verification::<T>(
                        *self,
                        *preprocessed_circuit,
                        *verifier_key,
                        old(transcript).entries(),
                        scalar_values(pub_inputs@),
                    ),
                )
                &&& final(transcript).entries() == entries_after_verification::<T>(
                    *self,
                    *preprocessed_circuit,
                    old(transcript).entries(),
                    scalar_values(pub_inputs@),
                )
            },
    {
        let domain = match EvaluationDomain::new(preprocessed_circuit.n) {
            Ok(d) => d,
            Err(_) => {
                return Err(Error::InvalidCircuitSize);
            },
        };
        proof {
            lemma_domain_size_exact(domain, preprocessed_circuit.n as nat);
            lemma_domain_values(domain);
        }
        if domain.size != preprocessed_circuit.n as u64 {
            return Err(Error::InvalidCircuitSize);
        }
        if pub_inputs.len() > preprocessed_circuit.n {
            return Err(Error::PublicInputTooLong);
        }
        let ghost e0 = transcript.entries();
        let ghost n = preprocessed_circuit.n as nat;

        let (beta, gamma, alpha, z_challenge) = self.draw_round_challenges(transcript);

        // Compute zero polynomial evaluated at `z_challenge`
        let z_h_eval = domain.evaluate_vanishing_polynomial(z_challenge);

        // Compute first lagrange polynomial evaluated at `z_challenge`
        let lagrange = domain.evaluate_all_lagrange_coefficients(z_challenge);
        let l1_eval = lagrange[0];

        // Compute the public input polynomial evaluated at `z_challenge`
        let pi_poly = Polynomial::from_coefficients_vec(domain.ifft(pub_inputs));
        let pi_eval = pi_poly.evaluate(&z_challenge);
        proof {
            lemma_eval_trim(
                idft(resized(scalar_values(pub_inputs@), n), domain.group_gen_inv@, domain.size_inv@),
                z_challenge@,
            );
        }
        // Compute quotient polynomial evaluated at `z_challenge`
        let t_eval = match self.compute_quotient_evaluation(
            pi_eval,
            alpha,
            beta,
            gamma,
            l1_eval,
            z_h_eval,
            self.evaluations.perm_eval,
        ) {
            Ok(t) => t,
            Err(_) => {
                return Ok(false);
            },
        };

        let (v, u) = self.draw_opening_challenges(transcript, &t_eval);

        Ok(
            self.check_opening(
                preprocessed_circuit,
                verifier_key,
                &domain,
                alpha,
                beta,
                gamma,
                z_challenge,
                u,
                v,
                l1_eval,
                t_eval,
            ),
        )
    }

    /// Checks the batched opening for given challenges: rebuilds the
    /// commitments `D`, `F` and `E` and compares the two pairings.
    pub fn check_opening(
        &self,
        preprocessed_circuit: &PreProcessedCircuit,
        verifier_key: &VerifierKey,
        domain: &EvaluationDomain,
        alpha: Scalar,
        beta: Scalar,
        gamma: Scalar,
        z_challenge: Scalar,
        u: Scalar,
        v: Scalar,
        l1_eval: Scalar,
        t_eval: Scalar,
    ) -> (r: bool)
        requires
            self.wf(),
            preprocessed_circuit.wf(),
            verifier_key.wf(),
            domain.wf(),
            alpha.wf(),
            beta.wf(),
            gamma.wf(),
            z_challenge.wf(),
            u.wf(),
            v.wf(),
            l1_eval.wf(),
            t_eval.wf(),
        ensures
            r == opening_holds(
                *self,
                *preprocessed_circuit,
                *verifier_key,
                domain.group_gen@,
                alpha@,
                beta@,
                gamma@,
                z_challenge@,
                u@,
                v@,
                l1_eval@,
                t_eval@,
            ),
    {
        proof {
            reveal(opening_holds);
        }
        // Compute Partial Opening commitment
        let d_comm = self.compute_partial_opening_commitment(
            alpha,
            beta,
            gamma,
            z_challenge,
            u,
            v,
            l1_eval,
            preprocessed_circuit,
        );

        // Compute batch opening commitment
        let f_comm = self.compute_batch_opening_commitment(
            z_challenge,
            v,
            d_comm,
            preprocessed_circuit,
        );

        // Compute batch evaluation commitment
        let e_comm = self.compute_batch_evaluation_commitment(u, v, t_eval, verifier_key);

        // Validate
        let lhs = g1_add(&self.w_z_comm.0, &g1_mul(&self.w_zw_comm.0, &u));

        let k_0 = g1_mul(&self.w_z_comm.0, &z_challenge);
        let u_z_root = u.mul(&z_challenge).mul(&domain.group_gen);
        let k_1 = g1_mul(&self.w_zw_comm.0, &u_z_root);
        let inner = g1_sub(&g1_add(&g1_add(&k_0, &k_1), &f_comm), &e_comm);

        pairings_agree(&lhs, &verifier_key.beta_h, &inner, &verifier_key.h)
    }

    /// The quotient polynomial at the evaluation challenge, recovered from
    /// the openings: `(a - b - c) / z_h`. Fails where `z_h` is zero, that is,
    /// where the challenge lies in the evaluation domain.
    pub fn compute_quotient_evaluation(
        &self,
        pi_eval: Scalar,
        alpha: Scalar,
        beta: Scalar,
        gamma: Scalar,
        l1_eval: Scalar,
        z_h_eval: Scalar,
        z_hat_eval: Scalar,
    ) -> (r: Result<Scalar, Error>)
        requires
            self.evaluations.wf(),
            pi_eval.wf(),
            alpha.wf(),
            beta.wf(),
            gamma.wf(),
            l1_eval.wf(),
            z_h_eval.wf(),
            z_hat_eval.wf(),
        ensures
            z_h_eval@ == 0 ==> r == Err::<Scalar, Error>(Error::ZeroDivision),
            z_h_eval@ != 0 ==> (r matches Ok(t) && t.wf() && t@ == quotient_evaluation(
                self.evaluations,
                pi_eval@,
                alpha@,
                beta@,
                gamma@,
                l1_eval@,
                z_h_eval@,
                z_hat_eval@,
            )),
    {
        proof {
            reveal(quotient_evaluation);
        }
        let alpha_sq = alpha.square();
        let alpha_cu = alpha_sq.mul(&alpha);

        // r + PI(z) * alpha
        let a = self.evaluations.lin_poly_eval.add(&pi_eval.mul(&alpha));

        // a + beta * sigma_1 + gamma
        let beta_sig1 = beta.mul(&self.evaluations.left_sigma_eval);
        let b_0 = self.evaluations.a_eval.add(&beta_sig1).add(&gamma);

        // b + beta * sigma_2 + gamma
        let beta_sig2 = beta.mul(&self.evaluations.right_sigma_eval);
        let b_1 = self.evaluations.b_eval.add(&beta_sig2).add(&gamma);

        // ((c + gamma) * z_hat) * alpha^2
        let b_2 = self.evaluations.c_eval.add(&gamma).mul(&z_hat_eval).mul(&alpha_sq);

        let b = b_0.mul(&b_1).mul(&b_2);

        // l_1(z) * alpha^3
        let c = l1_eval.mul(&alpha_cu);

        match z_h_eval.invert() {
            None => Err(Error::ZeroDivision),
            Some(z_h_inv) => {
                proof {
                    lemma_inv_is(z_h_eval@, z_h_inv@);
                }
                Ok(a.sub(&b).sub(&c).mul(&z_h_inv))
            },
        }
    }

    /// The commitment `D` to the part of the linearisation polynomial that
    /// the verifier can rebuild: seven points, each multiplied by its scalar, and summed.
    pub fn compute_partial_opening_commitment(
        &self,
        alpha: Scalar,
        beta: Scalar,
        gamma: Scalar,
        z_challenge: Scalar,
        u: Scalar,
        v: Scalar,
        l1_eval: Scalar,
        preprocessed_circuit: &PreProcessedCircuit,
    ) -> (r: G1Point)
        requires
            self.wf(),
            preprocessed_circuit.wf(),
            alpha.wf(),
            beta.wf(),
            gamma.wf(),
            z_challenge.wf(),
            u.wf(),
            v.wf(),
            l1_eval.wf(),
        ensures
            r.wf(),
            r@ == points_sum(
                products(
                    partial_opening_scalars(
                        self.evaluations,
                        alpha@,
                        beta@,
                        gamma@,
                        z_challenge@,
                        u@,
                        v@,
                        l1_eval@,
                    ),
                    partial_opening_points(*self, *preprocessed_circuit),
                ),
            ),
    {
        let mut scalars: Vec<Scalar> = Vec::with_capacity(7);
        let mut points: Vec<G1Point> = Vec::with_capacity(7);
        let e = &self.evaluations;

        scalars.push(e.a_eval.mul(&e.b_eval).mul(&alpha).mul(&v));
        points.push(preprocessed_circuit.qm_comm().0);

        scalars.push(e.a_eval.mul(&alpha).mul(&v));
        points.push(preprocessed_circuit.ql_comm().0);

        scalars.push(e.b_eval.mul(&alpha).mul(&v));
        points.push(preprocessed_circuit.qr_comm().0);

        scalars.push(e.c_eval.mul(&alpha).mul(&v));
        points.push(preprocessed_circuit.qo_comm().0);

        scalars.push(alpha.mul(&v));
        points.push(preprocessed_circuit.qc_comm().0);

        // (a_eval + beta * z + gamma)(b_eval + beta * z * k1 + gamma)(c_eval + beta * k2 * z + gamma) * alpha^2 * v
        let beta_z = beta.mul(&z_challenge);
        let x_0 = e.a_eval.add(&beta_z).add(&gamma);

        let beta_k1_z = beta.mul(&k1()).mul(&z_challenge);
        let x_1 = e.b_eval.add(&beta_k1_z).add(&gamma);

        let beta_k2_z = beta.mul(&k2()).mul(&z_challenge);
        let x_2 = e.c_eval.add(&beta_k2_z).add(&gamma).mul(&alpha).mul(&alpha).mul(&v);

        let x = x_0.mul(&x_1).mul(&x_2);

        // l1(z) * alpha^3 * v
        let r = l1_eval.mul(&alpha.pow(&[3, 0, 0, 0])).mul(&v);
        // v^7 * u
        let s = v.pow(&[7, 0, 0, 0]).mul(&u);

        scalars.push(x.add(&r).add(&s));
        points.push(self.z_comm.0);

        // (a_eval + beta * sigma_1_eval + gamma)(b_eval + beta * sigma_2_eval + gamma) * beta * z_eval * alpha^2 * v
        let beta_sigma_1 = beta.mul(&e.left_sigma_eval);
        let y_0 = e.a_eval.add(&beta_sigma_1).add(&gamma);

        let beta_sigma_2 = beta.mul(&e.right_sigma_eval);
        let y_1 = e.b_eval.add(&beta_sigma_2).add(&gamma);

        let y_2 = beta.mul(&e.perm_eval).mul(&alpha).mul(&alpha).mul(&v);

        let y = y_0.mul(&y_1).mul(&y_2);
        scalars.push(y.neg());
        points.push(preprocessed_circuit.out_sigma_comm().0);

        proof {
            assert(scalar_values(scalars@) =~= partial_opening_scalars(
                self.evaluations,
                alpha@,
                beta@,
                gamma@,
                z_challenge@,
                u@,
                v@,
                l1_eval@,
            ));
            assert(point_encodings(points@) =~= partial_opening_points(
                *self,
                *preprocessed_circuit,
            ));
        }
        let terms = multiscalar_mul(&scalars, &points);
        sum_points(&terms)
    }

    /// The commitment `F` that batches the openings at the evaluation
    /// challenge: nine points, each multiplied by its scalar, and summed.
    pub fn compute_batch_opening_commitment(
        &self,
        z_challenge: Scalar,
        v: Scalar,
        d_comm: G1Point,
        preprocessed_circuit: &PreProcessedCircuit,
    ) -> (r: G1Point)
        requires
            self.wf(),
            preprocessed_circuit.wf(),
            z_challenge.wf(),
            v.wf(),
            d_comm.wf(),
        ensures
            r.wf(),
            r@ == points_sum(
                products(
                    batch_opening_scalars(z_challenge@, v@, preprocessed_circuit.n as nat),
                    batch_opening_points(*self, d_comm@, *preprocessed_circuit),
                ),
            ),
    {
        let mut scalars: Vec<Scalar> = Vec::with_capacity(9);
        let mut points: Vec<G1Point> = Vec::with_capacity(9);
        let n = preprocessed_circuit.n;

        let z_n = z_challenge.pow(&[n as u64, 0, 0, 0]);
        let z_two_n = z_n.square();
        proof {
            lemma_pow_add(z_challenge@, n as nat, n as nat);
        }

        scalars.push(Scalar::one());
        points.push(self.t_lo_comm.0);

        scalars.push(z_n);
        points.push(self.t_mid_comm.0);

        scalars.push(z_two_n);
        points.push(self.t_hi_comm.0);

        scalars.push(Scalar::one());
        points.push(d_comm);

        scalars.push(v.pow(&[2, 0, 0, 0]));
        points.push(self.a_comm.0);

        scalars.push(v.pow(&[3, 0, 0, 0]));
        points.push(self.b_comm.0);

        scalars.push(v.pow(&[4, 0, 0, 0]));
        points.push(self.c_comm.0);

        scalars.push(v.pow(&[5, 0, 0, 0]));
        points.push(preprocessed_circuit.left_sigma_comm().0);

        scalars.push(v.pow(&[6, 0, 0, 0]));
        points.push(preprocessed_circuit.right_sigma_comm().0);

        proof {
            assert(scalar_values(scalars@) =~= batch_opening_scalars(
                z_challenge@,
                v@,
                preprocessed_circuit.n as nat,
            ));
            assert(point_encodings(points@) =~= batch_opening_points(
                *self,
                d_comm@,
                *preprocessed_circuit,
            ));
        }
        let terms = multiscalar_mul(&scalars, &points);
        sum_points(&terms)
    }

    /// The commitment `E` to the batched evaluations: the generator of G1
    /// multiplied by the sum of the eight weighted openings.
    pub fn compute_batch_evaluation_commitment(
        &self,
        u: Scalar,
        v: Scalar,
        t_eval: Scalar,
        vk: &VerifierKey,
    ) -> (r: G1Point)
        requires
            self.evaluations.wf(),
            u.wf(),
            v.wf(),
            t_eval.wf(),
            vk.wf(),
        ensures
            r.wf(),
            r@ == g1_product(vk.g@, batch_evaluation(self.evaluations, u@, v@, t_eval@)),
    {
        let e = &self.evaluations;
        let x: Vec<(Scalar, Scalar)> = vec![
            (Scalar::one(), t_eval),
            (v, e.lin_poly_eval),
            (v.pow(&[2, 0, 0, 0]), e.a_eval),
            (v.pow(&[3, 0, 0, 0]), e.b_eval),
            (v.pow(&[4, 0, 0, 0]), e.c_eval),
            (v.pow(&[5, 0, 0, 0]), e.left_sigma_eval),
            (v.pow(&[6, 0, 0, 0]), e.right_sigma_eval),
            (v.pow(&[7, 0, 0, 0]), u.mul(&e.perm_eval)),
        ];
        let ghost pairs = batch_evaluation_pairs(self.evaluations, u@, v@, t_eval@);

        let mut result = Scalar::zero();
        let mut k: usize = 0;
        while k < x.len()
            invariant
                k <= x.len(),
                x.len() == 8,
                pairs.len() == 8,
                result.wf(),
                forall|j: int| 0 <= j < 8 ==> (#[trigger] x@[j]).0.wf() && x@[j].1.wf(),
                forall|j: int| 0 <= j < 8 ==> (#[trigger] x@[j]).0@ == pairs[j].0 && x@[j].1@ == pairs[j].1,
                result@ == weighted_sum(pairs.take(k as int)),
            decreases x.len() - k,
        {
            proof {
                assert(pairs.take(k as int + 1).drop_last() =~= pairs.take(k as int));
            }
            let term = x[k].0.mul(&x[k].1);
            result = result.add(&term);
            k += 1;
        }
        proof {
            assert(pairs.take(8) =~= pairs);
        }
        g1_mul(&vk.g, &result)
    }
}

/// The quotient polynomial at the evaluation challenge:
/// `(a - b - c) / z_h`, where `a = r + pi * alpha`,
/// `b = (a + beta * sigma_1 + gamma) (b + beta * sigma_2 + gamma) (c + gamma) z_hat * alpha^2`
/// and `c = l_1 * alpha^3`.
#[verifier::opaque]
pub open spec fn quotient_evaluation(
    e: ProofEvaluations,
    pi_eval: int,
    alpha: int,
    beta: int,
    gamma: int,
    l1_eval: int,
    z_h_eval: int,
    z_hat_eval: int,
) -> int {
    let alpha_sq = fr_mul(alpha, alpha);
    let alpha_cu = fr_mul(alpha_sq, alpha);
    let a = fr_add(e.lin_poly_eval@, fr_mul(pi_eval, alpha));
    let b_0 = fr_add(fr_add(e.a_eval@, fr_mul(beta, e.left_sigma_eval@)), gamma);
    let b_1 = fr_add(fr_add(e.b_eval@, fr_mul(beta, e.right_sigma_eval@)), gamma);
    let b_2 = fr_mul(fr_mul(fr_add(e.c_eval@, gamma), z_hat_eval), alpha_sq);
    let b = fr_mul(fr_mul(b_0, b_1), b_2);
    let c = fr_mul(l1_eval, alpha_cu);
    fr_mul(fr_sub(fr_sub(a, b), c), fr_inv(z_h_eval))
}

/// The scalar that multiplies the commitment to the permutation accumulator
/// in `D`: `X + R + S`.
pub open spec fn accumulator_scalar(
    e: ProofEvaluations,
    alpha: int,
    beta: int,
    gamma: int,
    z: int,
    u: int,
    v: int,
    l1_eval: int,
) -> int {
    let x_0 = fr_add(fr_add(e.a_eval@, fr_mul(beta, z)), gamma);
    let x_1 = fr_add(fr_add(e.b_eval@, fr_mul(fr_mul(beta, K1 as int), z)), gamma);
    let x_2 = fr_mul(
        fr_mul(
            fr_mul(fr_add(fr_add(e.c_eval@, fr_mul(fr_mul(beta, K2 as int), z)), gamma), alpha),
            alpha,
        ),
        v,
    );
    let x = fr_mul(fr_mul(x_0, x_1), x_2);
    let r = fr_mul(fr_mul(l1_eval, fr_pow(alpha, 3)), v);
    let s = fr_mul(fr_pow(v, 7), u);
    fr_add(fr_add(x, r), s)
}

/// The scalar `Y` whose negative multiplies the commitment to the
/// permutation polynomial of the output wires in `D`.
pub open spec fn sigma_scalar(e: ProofEvaluations, alpha: int, beta: int, gamma: int, v: int) -> int {
    let y_0 = fr_add(fr_add(e.a_eval@, fr_mul(beta, e.left_sigma_eval@)), gamma);
    let y_1 = fr_add(fr_add(e.b_eval@, fr_mul(beta, e.right_sigma_eval@)), gamma);
    let y_2 = fr_mul(fr_mul(fr_mul(fr_mul(beta, e.perm_eval@), alpha), alpha), v);
    fr_mul(fr_mul(y_0, y_1), y_2)
}

/// The seven scalars of `D`, in the order of its points.
pub open spec fn partial_opening_scalars(
    e: ProofEvaluations,
    alpha: int,
    beta: int,
    gamma: int,
    z: int,
    u: int,
    v: int,
    l1_eval: int,
) -> Seq<int> {
    seq![
        fr_mul(fr_mul(fr_mul(e.a_eval@, e.b_eval@), alpha), v),
        fr_mul(fr_mul(e.a_eval@, alpha), v),
        fr_mul(fr_mul(e.b_eval@, alpha), v),
        fr_mul(fr_mul(e.c_eval@, alpha), v),
        fr_mul(alpha, v),
        accumulator_scalar(e, alpha, beta, gamma, z, u, v, l1_eval),
        fr_neg(sigma_scalar(e, alpha, beta, gamma, v)),
    ]
}

/// The seven points of `D`: the five selector commitments, the commitment
/// to the accumulator and that to the output permutation.
pub open spec fn partial_opening_points(p: Proof, c: PreProcessedCircuit) -> Seq<Seq<u8>> {
    seq![c.qm@, c.ql@, c.qr@, c.qo@, c.qc@, p.z_comm@, c.out_sigma@]
}

/// The nine scalars of `F`: `1, z^n, z^2n, 1, v^2, .., v^6`.
pub open spec fn batch_opening_scalars(z: int, v: int, n: nat) -> Seq<int> {
    seq![
        1,
        fr_pow(z, n),
        fr_pow(z, 2 * n),
        1,
        fr_pow(v, 2),
        fr_pow(v, 3),
        fr_pow(v, 4),
        fr_pow(v, 5),
        fr_pow(v, 6),
    ]
}

/// The nine points of `F`: the quotient commitments, `D`, the wire
/// commitments and the left and right permutation commitments.
pub open spec fn batch_opening_points(p: Proof, d: Seq<u8>, c: PreProcessedCircuit) -> Seq<
    Seq<u8>,
> {
    seq![
        p.t_lo_comm@,
        p.t_mid_comm@,
        p.t_hi_comm@,
        d,
        p.a_comm@,
        p.b_comm@,
        p.c_comm@,
        c.left_sigma@,
        c.right_sigma@,
    ]
}

/// The weights and openings that `E` sums up.
pub open spec fn batch_evaluation_pairs(e: ProofEvaluations, u: int, v: int, t_eval: int) -> Seq<
    (int, int),
> {
    seq![
        (1, t_eval),
        (v, e.lin_poly_eval@),
        (fr_pow(v, 2), e.a_eval@),
        (fr_pow(v, 3), e.b_eval@),
        (fr_pow(v, 4), e.c_eval@),
        (fr_pow(v, 5), e.left_sigma_eval@),
        (fr_pow(v, 6), e.right_sigma_eval@),
        (fr_pow(v, 7), fr_mul(u, e.perm_eval@)),
    ]
}

/// The sum of the products of the pairs, taken from the left.
pub open spec fn weighted_sum(pairs: Seq<(int, int)>) -> int
    decreases pairs.len(),
{
    if pairs.len() == 0 {
        0
    } else {
        fr_add(weighted_sum(pairs.drop_last()), fr_mul(pairs.last().0, pairs.last().1))
    }
}

/// The scalar of `E`.
pub open spec fn batch_evaluation(e: ProofEvaluations, u: int, v: int, t_eval: int) -> int {
    weighted_sum(batch_evaluation_pairs(e, u, v, t_eval))
}

/// The circuit sizes that the verifier takes: the powers of two that an
/// evaluation domain can have.
pub open spec fn valid_circuit_size(n: nat) -> bool {
    is_power_of_two(n) && n <= max_domain_size()
}

/// The polynomial that takes the public inputs, filled with zeros to
/// the size of the domain, as its values on the domain, at `z`.
pub open spec fn public_input_evaluation(pub_inputs: Seq<int>, n: nat, z: int) -> int {
    poly_eval(
        idft(resized(pub_inputs, n), fr_inv(domain_generator(n)), fr_inv(n as int)),
        z,
    )
}

/// The commitment `D`.
pub open spec fn partial_opening_commitment(
    p: Proof,
    c: PreProcessedCircuit,
    alpha: int,
    beta: int,
    gamma: int,
    z: int,
    u: int,
    v: int,
    l1_eval: int,
) -> Seq<u8> {
    points_sum(
        products(
            partial_opening_scalars(p.evaluations, alpha, beta, gamma, z, u, v, l1_eval),
            partial_opening_points(p, c),
        ),
    )
}

/// The commitment `F`, given `D`.
pub open spec fn batch_opening_commitment(
    p: Proof,
    c: PreProcessedCircuit,
    d: Seq<u8>,
    z: int,
    v: int,
) -> Seq<u8> {
    points_sum(products(batch_opening_scalars(z, v, c.n as nat), batch_opening_points(p, d, c)))
}

/// The pairing equation:
/// `e(W_z + u W_zw, beta h) == e(z W_z + (u z w) W_zw + F - E, h)`,
/// where `w` generates the evaluation domain.
#[verifier::opaque]
pub open spec fn opening_holds(
    p: Proof,
    c: PreProcessedCircuit,
    vk: VerifierKey,
    w: int,
    alpha: int,
    beta: int,
    gamma: int,
    z: int,
    u: int,
    v: int,
    l1_eval: int,
    t_eval: int,
) -> bool {
    let d = partial_opening_commitment(p, c, alpha, beta, gamma, z, u, v, l1_eval);
    let f = batch_opening_commitment(p, c, d, z, v);
    let e = g1_product(vk.g@, batch_evaluation(p.evaluations, u, v, t_eval));
    let lhs = g1_sum(p.w_z_comm@, g1_product(p.w_zw_comm@, u));
    let k_0 = g1_product(p.w_z_comm@, z);
    let k_1 = g1_product(p.w_zw_comm@, fr_mul(fr_mul(u, z), w));
    let inner = g1_difference(g1_sum(g1_sum(k_0, k_1), f), e);
    pairing_value(lhs, vk.beta_h@) == pairing_value(inner, vk.h@)
}

/// The vanishing polynomial of the domain of the circuit at the
/// evaluation challenge that the transcript gives.
pub open spec fn vanishing_evaluation<T: TranscriptProtocol>(
    p: Proof,
    c: PreProcessedCircuit,
    e0: Seq<TranscriptEntry>,
) -> int {
    fr_sub(fr_pow(evaluation_challenge::<T>(p, e0), c.n as nat), 1)
}

/// The quotient evaluation that the verifier derives from the proof, the
/// public inputs and the challenges that the transcript gives.
pub open spec fn derived_quotient_evaluation<T: TranscriptProtocol>(
    p: Proof,
    c: PreProcessedCircuit,
    e0: Seq<TranscriptEntry>,
    pub_inputs: Seq<int>,
) -> int {
    let n = c.n as nat;
    let z = evaluation_challenge::<T>(p, e0);
    quotient_evaluation(
        p.evaluations,
        public_input_evaluation(pub_inputs, n, z),
        alpha_challenge::<T>(p, e0),
        beta_challenge::<T>(p, e0),
        gamma_challenge::<T>(p, e0),
        lagrange_coefficient(domain_generator(n), n, 0, z),
        vanishing_evaluation::<T>(p, c, e0),
        p.evaluations.perm_eval@,
    )
}

/// Whether the verifier accepts: the evaluation challenge lies outside
/// the domain, and the pairing equation holds for the challenges that the
/// transcript gives.
pub open spec fn verification<T: TranscriptProtocol>(
    p: Proof,
    c: PreProcessedCircuit,
    vk: VerifierKey,
    e0: Seq<TranscriptEntry>,
    pub_inputs: Seq<int>,
) -> bool {
    let n = c.n as nat;
    let z = evaluation_challenge::<T>(p, e0);
    let e5 = entries_after_evaluation_challenge::<T>(p, e0);
    let t_eval = derived_quotient_evaluation::<T>(p, c, e0, pub_inputs);
    vanishing_evaluation::<T>(p, c, e0) != 0 && opening_holds(
        p,
        c,
        vk,
        domain_generator(n),
        alpha_challenge::<T>(p, e0),
        beta_challenge::<T>(p, e0),
        gamma_challenge::<T>(p, e0),
        z,
        separation_challenge::<T>(p, e5, t_eval),
        opening_challenge::<T>(p, e5, t_eval),
        lagrange_coefficient(domain_generator(n), n, 0, z),
        t_eval,
    )
}

/// The transcript after a verification: it stops after the evaluation
/// challenge where that lies in the domain, and runs to the end elsewhere.
pub open spec fn entries_after_verification<T: TranscriptProtocol>(
    p: Proof,
    c: PreProcessedCircuit,
    e0: Seq<TranscriptEntry>,
    pub_inputs: Seq<int>,
) -> Seq<TranscriptEntry> {
    let e5 = entries_after_evaluation_challenge::<T>(p, e0);
    if vanishing_evaluation::<T>(p, c, e0) == 0 {
        e5
    } else {
        entries_at_end(p, e5, derived_quotient_evaluation::<T>(p, c, e0, pub_inputs))
    }
}

/// Verification is a function of its inputs: the same proof, circuit,
/// key, public inputs and transcript give the same verdict and leave the
/// same transcript behind.
pub proof fn lemma_verification_deterministic<T: TranscriptProtocol>(
    p1: Proof,
    p2: Proof,
    c1: PreProcessedCircuit,
    c2: PreProcessedCircuit,
    vk1: VerifierKey,
    vk2: VerifierKey,
    e1: Seq<TranscriptEntry>,
    e2: Seq<TranscriptEntry>,
    pi1: Seq<int>,
    pi2: Seq<int>,
)
    requires
        p1 == p2,
        c1 == c2,
        vk1 == vk2,
        e1 == e2,
        pi1 == pi2,
    ensures
        verification::<T>(p1, c1, vk1, e1, pi1) == verification::<T>(p2, c2, vk2, e2, pi2),
        entries_after_verification::<T>(p1, c1, e1, pi1) == entries_after_verification::<T>(
            p2,
            c2,
            e2,
            pi2,
        ),
{
}

} // verus!
