//! The serialisation of proofs: the nine commitments in 48 bytes each,
//! then the seven openings in 32 bytes each.

use vstd::prelude::*;
use vstd::slice::slice_subrange;
use crate::backend::g1_valid;
use crate::commitment::Commitment;
use crate::error::Error;
use crate::group::G1Point;
use crate::scalar::{lemma_scalar_encoding, scalar_decoding, scalar_encoding, Scalar};
use crate::snark::{Proof, ProofEvaluations};

verus! {

/// The length of an encoded commitment.
pub const COMMITMENT_SIZE: usize = 48;

/// The length of an encoded scalar.
pub const SCALAR_SIZE: usize = 32;

/// The length of an encoded proof.
pub const PROOF_SIZE: usize = 656;

/// The place of the `k`-th commitment in an encoded proof.
pub open spec fn commitment_bytes(bytes: Seq<u8>, k: int) -> Seq<u8> {
    bytes.subrange(48 * k, 48 * k + 48)
}

/// The place of the `k`-th opening in an encoded proof.
pub open spec fn evaluation_bytes(bytes: Seq<u8>, k: int) -> Seq<u8> {
    bytes.subrange(432 + 32 * k, 432 + 32 * k + 32)
}

/// The encoding of the nine commitments.
pub open spec fn commitments_encoding(p: Proof) -> Seq<u8> {
    p.a_comm@ + p.b_comm@ + p.c_comm@ + p.z_comm@ + p.t_lo_comm@ + p.t_mid_comm@ + p.t_hi_comm@
        + p.w_z_comm@ + p.w_zw_comm@
}

/// The encoding of the seven openings.
pub open spec fn evaluations_encoding(e: ProofEvaluations) -> Seq<u8> {
    scalar_encoding(e.a_eval) + scalar_encoding(e.b_eval) + scalar_encoding(e.c_eval)
        + scalar_encoding(e.left_sigma_eval) + scalar_encoding(e.right_sigma_eval)
        + scalar_encoding(e.perm_eval) + scalar_encoding(e.lin_poly_eval)
}

/// The encoding of a proof.
pub open spec fn proof_encoding(p: Proof) -> Seq<u8> {
    commitments_encoding(p) + evaluations_encoding(p.evaluations)
}

/// Whether bytes encode a proof: they have the length of one, each
/// commitment is a point of the group, and each opening is canonical.
pub open spec fn is_proof_encoding(bytes: Seq<u8>) -> bool {
    &&& bytes.len() == 656
    &&& forall|k: int| 0 <= k < 9 ==> g1_valid(#[trigger] commitment_bytes(bytes, k))
    &&& forall|k: int| 0 <= k < 7 ==> scalar_decoding(#[trigger] evaluation_bytes(bytes, k)).wf()
}

/// Appends `bytes` to `out`.
fn push_all(out: &mut Vec<u8>, bytes: &[u8])
    ensures
        final(out)@ == old(out)@ + bytes@,
{
    let mut i: usize = 0;
    while i < bytes.len()
        invariant
            i <= bytes.len(),
            out@ == old(out)@ + bytes@.take(i as int),
        decreases bytes.len() - i,
    {
        out.push(bytes[i]);
        assert(bytes@.take(i as int + 1) =~= bytes@.take(i as int).push(bytes@[i as int]));
        i += 1;
    }
    assert(bytes@.take(bytes.len() as int) =~= bytes@);
}

/// Reads the commitment at place `k` of an encoded proof.
fn read_commitment(bytes: &[u8], k: usize) -> (r: Option<Commitment>)
    requires
        bytes.len() == 656,
        k < 9,
    ensures
        r is Some <==> g1_valid(commitment_bytes(bytes@, k as int)),
        r matches Some(c) ==> c.wf() && c@ == commitment_bytes(bytes@, k as int),
{
    let mut raw = [0u8; 48];
    let mut i: usize = 0;
    while i < 48
        invariant
            i <= 48,
            k < 9,
            bytes.len() == 656,
            forall|j: int| 0 <= j < i ==> #[trigger] raw@[j] == bytes@[48 * k + j],
        decreases 48 - i,
    {
        raw[i] = bytes[48 * k + i];
        i += 1;
    }
    assert(raw@ =~= commitment_bytes(bytes@, k as int));
    match G1Point::from_compressed(&raw) {
        Some(p) => Some(Commitment(p)),
        None => None,
    }
}

/// Reads the opening at place `k` of an encoded proof.
fn read_evaluation(bytes: &[u8], k: usize) -> (r: Option<Scalar>)
    requires
        bytes.len() == 656,
        k < 7,
    ensures
        r is Some <==> scalar_decoding(evaluation_bytes(bytes@, k as int)).wf(),
        r matches Some(s) ==> s == scalar_decoding(evaluation_bytes(bytes@, k as int)),
{
    Scalar::from_bytes(slice_subrange(bytes, 432 + 32 * k, 432 + 32 * k + 32))
}

impl Proof {
    /// The proof as bytes.
    pub fn to_bytes(&self) -> (r: Vec<u8>)
        ensures
            r@ == proof_encoding(*self),
            r.len() == 656,
    {
        let e = &self.evaluations;
        proof {
            lemma_scalar_encoding(e.a_eval, Seq::empty());
            lemma_scalar_encoding(e.b_eval, Seq::empty());
            lemma_scalar_encoding(e.c_eval, Seq::empty());
            lemma_scalar_encoding(e.left_sigma_eval, Seq::empty());
            lemma_scalar_encoding(e.right_sigma_eval, Seq::empty());
            lemma_scalar_encoding(e.perm_eval, Seq::empty());
            lemma_scalar_encoding(e.lin_poly_eval, Seq::empty());
        }
        let mut out: Vec<u8> = Vec::with_capacity(PROOF_SIZE);
        push_all(&mut out, self.a_comm.0.to_compressed().as_slice());
        push_all(&mut out, self.b_comm.0.to_compressed().as_slice());
        push_all(&mut out, self.c_comm.0.to_compressed().as_slice());
        push_all(&mut out, self.z_comm.0.to_compressed().as_slice());
        push_all(&mut out, self.t_lo_comm.0.to_compressed().as_slice());
        push_all(&mut out, self.t_mid_comm.0.to_compressed().as_slice());
        push_all(&mut out, self.t_hi_comm.0.to_compressed().as_slice());
        push_all(&mut out, self.w_z_comm.0.to_compressed().as_slice());
        push_all(&mut out, self.w_zw_comm.0.to_compressed().as_slice());
        assert(out@ =~= commitments_encoding(*self));
        push_all(&mut out, e.a_eval.to_bytes().as_slice());
        push_all(&mut out, e.b_eval.to_bytes().as_slice());
        push_all(&mut out, e.c_eval.to_bytes().as_slice());
        push_all(&mut out, e.left_sigma_eval.to_bytes().as_slice());
        push_all(&mut out, e.right_sigma_eval.to_bytes().as_slice());
        push_all(&mut out, e.perm_eval.to_bytes().as_slice());
        push_all(&mut out, e.lin_poly_eval.to_bytes().as_slice());
        assert(out@ =~= proof_encoding(*self));
        out
    }

    /// The proof that bytes encode. Fails where the bytes do not have the
    /// length of a proof, where a commitment is no point of the group,
    /// and where an opening is not below the modulus.
    pub fn from_bytes(bytes: &[u8]) -> (r: Result<Proof, Error>)
        ensures
            r is Ok <==> is_proof_encoding(bytes@),
            r matches Ok(p) ==> p.wf() && proof_encoding(p) == bytes@,
            r matches Err(e) ==> e == Error::MalformedProof,
    {
        if bytes.len() != PROOF_SIZE {
            return Err(Error::MalformedProof);
        }
        let a_comm = match read_commitment(bytes, 0) {
            Some(c) => c,
            None => {
                return Err(Error::MalformedProof);
            },
        };
        let b_comm = match read_commitment(bytes, 1) {
            Some(c) => c,
            None => {
                return Err(Error::MalformedProof);
            },
        };
        let c_comm = match read_commitment(bytes, 2) {
            Some(c) => c,
            None => {
                return Err(Error::MalformedProof);
            },
        };
        let z_comm = match read_commitment(bytes, 3) {
            Some(c) => c,
            None => {
                return Err(Error::MalformedProof);
            },
        };
        let t_lo_comm = match read_commitment(bytes, 4) {
            Some(c) => c,
            None => {
                return Err(Error::MalformedProof);
            },
        };
        let t_mid_comm = match read_commitment(bytes, 5) {
            Some(c) => c,
            None => {
                return Err(Error::MalformedProof);
            },
        };
        let t_hi_comm = match read_commitment(bytes, 6) {
            Some(c) => c,
            None => {
                return Err(Error::MalformedProof);
            },
        };
        let w_z_comm = match read_commitment(bytes, 7) {
            Some(c) => c,
            None => {
                return Err(Error::MalformedProof);
            },
        };
        let w_zw_comm = match read_commitment(bytes, 8) {
            Some(c) => c,
            None => {
                return Err(Error::MalformedProof);
            },
        };
        let a_eval = match read_evaluation(bytes, 0) {
            Some(s) => s,
            None => {
                return Err(Error::MalformedProof);
            },
        };
        let b_eval = match read_evaluation(bytes, 1) {
            Some(s) => s,
            None => {
                return Err(Error::MalformedProof);
            },
        };
        let c_eval = match read_evaluation(bytes, 2) {
            Some(s) => s,
            None => {
                return Err(Error::MalformedProof);
            },
        };
        let left_sigma_eval = match read_evaluation(bytes, 3) {
            Some(s) => s,
            None => {
                return Err(Error::MalformedProof);
            },
        };
        let right_sigma_eval = match read_evaluation(bytes, 4) {
            Some(s) => s,
            None => {
                return Err(Error::MalformedProof);
            },
        };
        let perm_eval = match read_evaluation(bytes, 5) {
            Some(s) => s,
            None => {
                return Err(Error::MalformedProof);
            },
        };
        let lin_poly_eval = match read_evaluation(bytes, 6) {
            Some(s) => s,
            None => {
                return Err(Error::MalformedProof);
            },
        };
        let proof = Proof {
            a_comm,
            b_comm,
            c_comm,
            z_comm,
            t_lo_comm,
            t_mid_comm,
            t_hi_comm,
            w_z_comm,
            w_zw_comm,
            evaluations: ProofEvaluations {
                a_eval,
                b_eval,
                c_eval,
                left_sigma_eval,
                right_sigma_eval,
                lin_poly_eval,
                perm_eval,
            },
        };
        proof {
            let b = bytes@;
            assert forall|k: int| 0 <= k < 9 implies g1_valid(#[trigger] commitment_bytes(b, k)) by {
                if k == 0 {
                } else if k == 1 {
                } else if k == 2 {
                } else if k == 3 {
                } else if k == 4 {
                } else if k == 5 {
                } else if k == 6 {
                } else if k == 7 {
                } else {
                    assert(k == 8);
                }
            }
            assert forall|k: int| 0 <= k < 7 implies scalar_decoding(
                #[trigger] evaluation_bytes(b, k),
            ).wf() by {
                if k == 0 {
                } else if k == 1 {
                } else if k == 2 {
                } else if k == 3 {
                } else if k == 4 {
                } else if k == 5 {
                } else {
                    assert(k == 6);
                }
            }
            assert(commitments_encoding(proof) =~= b.subrange(0, 432));
            lemma_scalar_encoding(a_eval, evaluation_bytes(b, 0));
            lemma_scalar_encoding(a_eval, evaluation_bytes(b, 1));
            lemma_scalar_encoding(a_eval, evaluation_bytes(b, 2));
            lemma_scalar_encoding(a_eval, evaluation_bytes(b, 3));
            lemma_scalar_encoding(a_eval, evaluation_bytes(b, 4));
            lemma_scalar_encoding(a_eval, evaluation_bytes(b, 5));
            lemma_scalar_encoding(a_eval, evaluation_bytes(b, 6));
            assert(evaluations_encoding(proof.evaluations) =~= b.subrange(432, 656));
            assert(b.subrange(0, 432) + b.subrange(432, 656) =~= b);
        }
        Ok(proof)
    }
}

} // verus!
