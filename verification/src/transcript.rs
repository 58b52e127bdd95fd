//! The Fiat-Shamir transcript: what prover and verifier both write into,
//! and draw their challenges from.

use vstd::prelude::*;
use crate::commitment::Commitment;
use crate::scalar::Scalar;

verus! {

/// One operation on a transcript.
pub enum TranscriptEntry {
    /// A commitment was appended under a label.
    Commitment { label: Seq<u8>, point: Seq<u8> },
    /// A scalar was appended under a label.
    Scalar { label: Seq<u8>, value: int },
    /// A challenge was drawn under a label.
    Challenge { label: Seq<u8> },
}

/// The history of a transcript: its operations, the oldest first.
pub type Entries = Seq<TranscriptEntry>;

/// The bytes of a label.
pub type Label = Seq<u8>;

/// A challenge, as a residue of the scalar field.
pub type Residue = int;

/// A transcript of labelled messages from which challenges are drawn.
///
/// A challenge is a function of the operations made before it and of its
/// label, and of nothing else: two transcripts of one type that went
/// through the same operations give the same challenge.
///
/// `entries` and `challenge` say what a transcript is in contracts and are
/// never run. An implementation in unverified code gives them a body
/// that does not return.
pub trait TranscriptProtocol {
    /// The operations made so far.
    spec fn entries(&self) -> Entries;

    /// The challenge that a transcript with the given history gives under `label`.
    spec fn challenge(entries: Entries, label: Label) -> Residue;

    /// Appends a commitment under `label`.
    fn append_commitment(&mut self, label: &[u8], comm: &Commitment)
        requires
            comm.wf(),
        ensures
            final(self).entries() == old(self).entries().push(
                TranscriptEntry::Commitment { label: label@, point: comm@ },
            ),
    ;

    /// Appends a scalar under `label`.
    fn append_scalar(&mut self, label: &[u8], s: &Scalar)
        requires
            s.wf(),
        ensures
            final(self).entries() == old(self).entries().push(
                TranscriptEntry::Scalar { label: label@, value: s@ },
            ),
    ;

    /// Draws a challenge under `label`.
    fn challenge_scalar(&mut self, label: &[u8]) -> (r: Scalar)
        ensures
            r.wf(),
            r@ == Self::challenge(old(self).entries(), label@),
            final(self).entries() == old(self).entries().push(
                TranscriptEntry::Challenge { label: label@ },
            ),
    ;
}

} // verus!
