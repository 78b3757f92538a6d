//! The mediator between a session and its peer: it hands inbound payloads to
//! the peer and asks it for the next outbound one.

use crate::accumulator::PeerId;
use crate::error::SignError;
use crate::peer::{Peer, Step};
use crate::peer_model::PeerModel;
use crate::request::{CryptoRequest, CryptoResult};
use vstd::prelude::*;

verus! {

/// A peer behind the two operations that a session needs. It has no state
/// beyond the peer's.
#[derive(Debug)]
pub struct ProtocolDataManager {
    peer: Peer,
}

impl View for ProtocolDataManager {
    type V = PeerModel;

    closed spec fn view(&self) -> PeerModel {
        self.peer@
    }
}

impl ProtocolDataManager {
    /// The peer is sound.
    pub closed spec fn inv(&self) -> bool {
        self.peer.wf()
    }

    /// Well-formedness: the protocol's invariant holds of the peer.
    pub open spec fn wf(&self) -> bool {
        &&& self.inv()
        &&& self@.wf()
    }

    /// A manager for `peer`.
    pub fn new(peer: Peer) -> (manager: ProtocolDataManager)
        requires
            peer.wf(),
        ensures
            manager.wf(),
            manager@ == peer@,
    {
        ProtocolDataManager { peer }
    }

    /// The peer.
    pub fn peer(&self) -> (peer: &Peer)
        requires
            self.wf(),
        ensures
            peer.wf(),
            peer@ == self@,
    {
        &self.peer
    }

    /// Registers the peer under `peer_id` and returns the first outbound payload.
    pub fn initialize(&mut self, peer_id: PeerId) -> (res: Result<String, SignError>)
        requires
            old(self).wf(),
        ensures
            final(self).wf(),
            match old(self)@.registered(peer_id as int) {
                Ok((next, text)) => res is Ok && res.unwrap()@ == text && final(self)@ == next,
                Err(e) => res == Err::<String, SignError>(e) && final(self)@ == old(self)@,
            },
    {
        self.peer.zero_step(peer_id)
    }

    /// Hands the payload `text` of peer `from` to the peer and lets it step.
    /// A payload that the peer rejects leaves it as it was.
    pub fn get_next(&mut self, from: PeerId, text: &str) -> (res: Result<Step, SignError>)
        requires
            old(self).wf(),
        ensures
            final(self).wf(),
            match old(self)@.advanced(from as int, text@) {
                Ok((next, step)) => res is Ok && res.unwrap()@ == step && final(self)@ == next,
                Err(e) => res == Err::<Step, SignError>(e) && final(self)@ == old(self)@,
            },
    {
        match self.peer.update_data(from, text) {
            Ok(()) => Ok(self.peer.do_step()),
            Err(e) => Err(e),
        }
    }

    /// Hands the result of requested work to the peer and returns the
    /// payload with which the next round begins. Fails with `NotRequested`
    /// where the peer did not wait for such a result.
    pub fn resume(&mut self, result: CryptoResult) -> (res: Result<String, SignError>)
        requires
            old(self).wf(),
        ensures
            final(self).wf(),
            match old(self)@.resumed(result@) {
                Ok((next, text)) => res is Ok && res.unwrap()@ == text && final(self)@ == next,
                Err(e) => res == Err::<String, SignError>(e) && final(self)@ == old(self)@,
            },
    {
        match result {
            CryptoResult::Committed { ephemeral, commitment, opening } => self.peer.commit_step(
                ephemeral,
                commitment,
                opening,
            ),
            CryptoResult::Signed { openings_match, signature } => self.peer.sign_step(
                &openings_match,
                signature.as_str(),
            ),
            CryptoResult::Verified { valid } => Err(SignError::NotRequested),
        }
    }

    /// The work that closes the session, once every partial signature is in.
    pub fn finalize_request(&self) -> (res: Result<CryptoRequest, SignError>)
        requires
            self.wf(),
        ensures
            match res {
                Ok(request) => self@.done() && self@.peer_id is Some && request@
                    == self@.verify_request(),
                Err(e) => e == SignError::NotDone && !(self@.done() && self@.peer_id is Some),
            },
    {
        self.peer.finalize_request()
    }

    /// The verdict on the session, given whether the combined signature verifies.
    pub fn finalize(&self, valid: bool) -> (res: Result<(), SignError>)
        requires
            self.wf(),
        ensures
            res == self@.finalized(valid),
    {
        self.peer.finalize(valid)
    }
}

} // verus!
