use vstd::prelude::*;

verus! {

/// Every way in which a signing session can fail.
#[derive(Clone, Copy, Debug, PartialEq, Eq, Structural)]
pub enum SignError {
    /// A payload without the delimiter, or with a tag that is not one of the four.
    MalformedPayload,
    /// A payload whose tag is not the one that the current round collects.
    UnexpectedPayload,
    /// A second, different value from a peer that already contributed to the round.
    InconsistentPayload,
    /// A peer index outside `1..=capacity`.
    PeerOutOfRange,
    /// The peer index was bound before.
    AlreadyRegistered,
    /// Outside work was handed in that the current state did not ask for.
    NotRequested,
    /// The opening of some peer does not match the commitment it sent earlier.
    CommitmentMismatch,
    /// The session was asked to finish before all partial signatures arrived.
    NotDone,
    /// The aggregated signature does not verify under the aggregated key.
    InvalidSignature,
    /// The relay answered with an error that is not a request to try again.
    RelayError,
    /// The relay aborted the session.
    Aborted,
    /// A round did not gather all contributions within the allowed attempts.
    RoundTimeout,
}

} // verus!
