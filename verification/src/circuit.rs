//! What a verifier knows of a compiled circuit, and the interface of the
//! composer that compiles and proves it.

use vstd::prelude::*;
use crate::commitment::{Commitment, ProverKey};
use crate::domain::EvaluationDomain;
use crate::snark::Proof;
use crate::transcript::TranscriptProtocol;

verus! {

/// The public parameters of a compiled circuit: its size and the
/// commitments to its selector and permutation polynomials.
#[derive(Clone, Copy, Debug, PartialEq, Eq)]
pub struct PreProcessedCircuit {
    /// The number of gates.
    pub n: usize,
    /// Commitments to the selector polynomials `q_m, q_l, q_r, q_o, q_c`.
    pub qm: Commitment,
    pub ql: Commitment,
    pub qr: Commitment,
    pub qo: Commitment,
    pub qc: Commitment,
    /// Commitments to the permutation polynomials of the three wires.
    pub left_sigma: Commitment,
    pub right_sigma: Commitment,
    pub out_sigma: Commitment,
}

impl PreProcessedCircuit {
    /// Every commitment is a point of the group.
    pub open spec fn wf(&self) -> bool {
        &&& self.qm.wf()
        &&& self.ql.wf()
        &&& self.qr.wf()
        &&& self.qo.wf()
        &&& self.qc.wf()
        &&& self.left_sigma.wf()
        &&& self.right_sigma.wf()
        &&& self.out_sigma.wf()
    }

    /// The commitment to the multiplication selector.
    pub fn qm_comm(&self) -> (r: &Commitment)
        ensures
            *r == self.qm,
    {
        &self.qm
    }

    /// The commitment to the left selector.
    pub fn ql_comm(&self) -> (r: &Commitment)
        ensures
            *r == self.ql,
    {
        &self.ql
    }

    /// The commitment to the right selector.
    pub fn qr_comm(&self) -> (r: &Commitment)
        ensures
            *r == self.qr,
    {
        &self.qr
    }

    /// The commitment to the output selector.
    pub fn qo_comm(&self) -> (r: &Commitment)
        ensures
            *r == self.qo,
    {
        &self.qo
    }

    /// The commitment to the constant selector.
    pub fn qc_comm(&self) -> (r: &Commitment)
        ensures
            *r == self.qc,
    {
        &self.qc
    }

    /// The commitment to the permutation polynomial of the left wires.
    pub fn left_sigma_comm(&self) -> (r: &Commitment)
        ensures
            *r == self.left_sigma,
    {
        &self.left_sigma
    }

    /// The commitment to the permutation polynomial of the right wires.
    pub fn right_sigma_comm(&self) -> (r: &Commitment)
        ensures
            *r == self.right_sigma,
    {
        &self.right_sigma
    }

    /// The commitment to the permutation polynomial of the output wires.
    pub fn out_sigma_comm(&self) -> (r: &Commitment)
        ensures
            *r == self.out_sigma,
    {
        &self.out_sigma
    }
}

/// A circuit under construction, which can be compiled and proved.
///
/// The verifier of this crate takes what a composer gives; of how a
/// composer arrives at it nothing is asked here.
pub trait Composer {
    /// The number of gates in the circuit.
    fn circuit_size(&self) -> usize;

    /// Compiles the circuit into its public parameters.
    fn preprocess<T: TranscriptProtocol>(
        &mut self,
        commit_key: &ProverKey,
        transcript: &mut T,
        domain: &EvaluationDomain,
    ) -> PreProcessedCircuit;

    /// Proves that the circuit is satisfied.
    fn prove<T: TranscriptProtocol>(
        &mut self,
        commit_key: &ProverKey,
        preprocessed_circuit: &PreProcessedCircuit,
        transcript: &mut T,
    ) -> Proof;
}

} // verus!
