//! The verifier's side of the transcript: what it appends, in which
//! order and under which labels, and the challenges that it draws.

use vstd::prelude::*;
use vstd::string::StringSliceAdditionalSpecFns;
use crate::commitment::Commitment;
use crate::scalar::Scalar;
use crate::snark::Proof;
use crate::transcript::{TranscriptEntry, TranscriptProtocol};

verus! {

/// The entry for a commitment appended under `label`.
pub open spec fn commitment_entry(label: &str, c: Commitment) -> TranscriptEntry {
    TranscriptEntry::Commitment { label: label.spec_bytes(), point: c@ }
}

/// The entry for a scalar appended under `label`.
pub open spec fn scalar_entry(label: &str, value: int) -> TranscriptEntry {
    TranscriptEntry::Scalar { label: label.spec_bytes(), value }
}

/// The entry for a challenge drawn under `label`.
pub open spec fn challenge_entry(label: &str) -> TranscriptEntry {
    TranscriptEntry::Challenge { label: label.spec_bytes() }
}

/// The transcript after the commitments to the wire polynomials.
pub open spec fn entries_after_wires(p: Proof, e: Seq<TranscriptEntry>) -> Seq<TranscriptEntry> {
    e.push(commitment_entry("w_l", p.a_comm)).push(commitment_entry("w_r", p.b_comm)).push(
        commitment_entry("w_o", p.c_comm),
    )
}

/// The first permutation challenge.
pub open spec fn beta_challenge<T: TranscriptProtocol>(p: Proof, e: Seq<TranscriptEntry>) -> int {
    T::challenge(entries_after_wires(p, e), "beta".spec_bytes())
}

/// The transcript after `beta` was drawn and appended again under its own label.
pub open spec fn entries_after_beta<T: TranscriptProtocol>(
    p: Proof,
    e: Seq<TranscriptEntry>,
) -> Seq<TranscriptEntry> {
    entries_after_wires(p, e).push(challenge_entry("beta")).push(
        scalar_entry("beta", beta_challenge::<T>(p, e)),
    )
}

/// The second permutation challenge.
pub open spec fn gamma_challenge<T: TranscriptProtocol>(p: Proof, e: Seq<TranscriptEntry>) -> int {
    T::challenge(entries_after_beta::<T>(p, e), "gamma".spec_bytes())
}

/// The transcript after the commitment to the permutation accumulator.
pub open spec fn entries_after_accumulator<T: TranscriptProtocol>(
    p: Proof,
    e: Seq<TranscriptEntry>,
) -> Seq<TranscriptEntry> {
    entries_after_beta::<T>(p, e).push(challenge_entry("gamma")).push(
        commitment_entry("z", p.z_comm),
    )
}

/// The quotient challenge.
pub open spec fn alpha_challenge<T: TranscriptProtocol>(p: Proof, e: Seq<TranscriptEntry>) -> int {
    T::challenge(entries_after_accumulator::<T>(p, e), "alpha".spec_bytes())
}

/// The transcript after the commitments to the parts of the quotient.
pub open spec fn entries_after_quotient<T: TranscriptProtocol>(
    p: Proof,
    e: Seq<TranscriptEntry>,
) -> Seq<TranscriptEntry> {
    entries_after_accumulator::<T>(p, e).push(challenge_entry("alpha")).push(
        commitment_entry("t_lo", p.t_lo_comm),
    ).push(commitment_entry("t_mid", p.t_mid_comm)).push(commitment_entry("t_hi", p.t_hi_comm))
}

/// The evaluation challenge.
pub open spec fn evaluation_challenge<T: TranscriptProtocol>(
    p: Proof,
    e: Seq<TranscriptEntry>,
) -> int {
    T::challenge(entries_after_quotient::<T>(p, e), "z".spec_bytes())
}

/// The transcript after the evaluation challenge was drawn.
pub open spec fn entries_after_evaluation_challenge<T: TranscriptProtocol>(
    p: Proof,
    e: Seq<TranscriptEntry>,
) -> Seq<TranscriptEntry> {
    entries_after_quotient::<T>(p, e).push(challenge_entry("z"))
}

/// The transcript `e` after the openings, the quotient evaluation among them.
pub open spec fn entries_after_evaluations(
    p: Proof,
    e: Seq<TranscriptEntry>,
    t_eval: int,
) -> Seq<TranscriptEntry> {
    e.push(scalar_entry("a_eval", p.evaluations.a_eval@)).push(
        scalar_entry("b_eval", p.evaluations.b_eval@),
    ).push(scalar_entry("c_eval", p.evaluations.c_eval@)).push(
        scalar_entry("left_sig_eval", p.evaluations.left_sigma_eval@),
    ).push(scalar_entry("right_sig_eval", p.evaluations.right_sigma_eval@)).push(
        scalar_entry("perm_eval", p.evaluations.perm_eval@),
    ).push(scalar_entry("t_eval", t_eval)).push(
        scalar_entry("r_eval", p.evaluations.lin_poly_eval@),
    )
}

/// The challenge that batches the openings.
pub open spec fn opening_challenge<T: TranscriptProtocol>(
    p: Proof,
    e: Seq<TranscriptEntry>,
    t_eval: int,
) -> int {
    T::challenge(entries_after_evaluations(p, e, t_eval), "v".spec_bytes())
}

/// The transcript `e` after the commitments to the two opening polynomials.
pub open spec fn entries_after_openings(
    p: Proof,
    e: Seq<TranscriptEntry>,
    t_eval: int,
) -> Seq<TranscriptEntry> {
    entries_after_evaluations(p, e, t_eval).push(challenge_entry("v")).push(
        commitment_entry("w_z", p.w_z_comm),
    ).push(commitment_entry("w_z_w", p.w_zw_comm))
}

/// The challenge that separates the two evaluation points.
pub open spec fn separation_challenge<T: TranscriptProtocol>(
    p: Proof,
    e: Seq<TranscriptEntry>,
    t_eval: int,
) -> int {
    T::challenge(entries_after_openings(p, e, t_eval), "u".spec_bytes())
}

/// The transcript `e` at the end of a verification.
pub open spec fn entries_at_end(
    p: Proof,
    e: Seq<TranscriptEntry>,
    t_eval: int,
) -> Seq<TranscriptEntry> {
    entries_after_openings(p, e, t_eval).push(challenge_entry("u"))
}

impl Proof {
    /// Appends the commitments of the first three rounds and draws
    /// `beta`, `gamma`, `alpha` and the evaluation challenge, in this order.
    pub fn draw_round_challenges<T: TranscriptProtocol>(&self, transcript: &mut T) -> (r: (
        Scalar,
        Scalar,
        Scalar,
        Scalar,
    ))
        requires
            self.wf(),
        ensures
            r.0.wf() && r.1.wf() && r.2.wf() && r.3.wf(),
            r.0@ == beta_challenge::<T>(*self, old(transcript).entries()),
            r.1@ == gamma_challenge::<T>(*self, old(transcript).entries()),
            r.2@ == alpha_challenge::<T>(*self, old(transcript).entries()),
            r.3@ == evaluation_challenge::<T>(*self, old(transcript).entries()),
            final(transcript).entries() == entries_after_evaluation_challenge::<T>(
                *self,
                old(transcript).entries(),
            ),
    {
        // Add witness polynomials to transcript
        transcript.append_commitment("w_l".as_bytes(), &self.a_comm);
        transcript.append_commitment("w_r".as_bytes(), &self.b_comm);
        transcript.append_commitment("w_o".as_bytes(), &self.c_comm);

        // Compute beta and gamma
        let beta = transcript.challenge_scalar("beta".as_bytes());
        transcript.append_scalar("beta".as_bytes(), &beta);
        let gamma = transcript.challenge_scalar("gamma".as_bytes());
        // Add commitment to permutation polynomial to transcript
        transcript.append_commitment("z".as_bytes(), &self.z_comm);
        // Compute quotient challenge
        let alpha = transcript.challenge_scalar("alpha".as_bytes());
        // Add commitment to quotient polynomial to transcript
        transcript.append_commitment("t_lo".as_bytes(), &self.t_lo_comm);
        transcript.append_commitment("t_mid".as_bytes(), &self.t_mid_comm);
        transcript.append_commitment("t_hi".as_bytes(), &self.t_hi_comm);
        // Compute evaluation challenge
        let z_challenge = transcript.challenge_scalar("z".as_bytes());
        (beta, gamma, alpha, z_challenge)
    }

    /// Appends the openings and the commitments to the opening
    /// polynomials, and draws `v` and `u`, in this order.
    pub fn draw_opening_challenges<T: TranscriptProtocol>(
        &self,
        transcript: &mut T,
        t_eval: &Scalar,
    ) -> (r: (Scalar, Scalar))
        requires
            self.wf(),
            t_eval.wf(),
        ensures
            r.0.wf() && r.1.wf(),
            r.0@ == opening_challenge::<T>(*self, old(transcript).entries(), t_eval@),
            r.1@ == separation_challenge::<T>(*self, old(transcript).entries(), t_eval@),
            final(transcript).entries() == entries_at_end(
                *self,
                old(transcript).entries(),
                t_eval@,
            ),
    {
        // Add evaluations to transcript
        transcript.append_scalar("a_eval".as_bytes(), &self.evaluations.a_eval);
        transcript.append_scalar("b_eval".as_bytes(), &self.evaluations.b_eval);
        transcript.append_scalar("c_eval".as_bytes(), &self.evaluations.c_eval);
        transcript.append_scalar("left_sig_eval".as_bytes(), &self.evaluations.left_sigma_eval);
        transcript.append_scalar("right_sig_eval".as_bytes(), &self.evaluations.right_sigma_eval);
        transcript.append_scalar("perm_eval".as_bytes(), &self.evaluations.perm_eval);
        transcript.append_scalar("t_eval".as_bytes(), t_eval);
        transcript.append_scalar("r_eval".as_bytes(), &self.evaluations.lin_poly_eval);

        // Compute opening challenge
        let v = transcript.challenge_scalar("v".as_bytes());
        // Add commitment to openings to transcript
        transcript.append_commitment("w_z".as_bytes(), &self.w_z_comm);
        transcript.append_commitment("w_z_w".as_bytes(), &self.w_zw_comm);

        // Compute multi-point separation challenge
        let u = transcript.challenge_scalar("u".as_bytes());
        (v, u)
    }
}

} // verus!
