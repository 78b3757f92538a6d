//! The session client: it registers with the relay, wraps each payload of
//! its peer into a relay envelope, and turns each message of the relay into
//! the next action.

use crate::accumulator::PeerId;
use crate::action::Action;
use crate::error::SignError;
use crate::manager::ProtocolDataManager;
use crate::message::{
    copy_ids, is_retry, ClientMessage, RelayMessage, ServerMessage, ServerMessageKind, ServerResponse,
};
use crate::peer::{Peer, Step};
use crate::peer_model::PeerModel;
use crate::request::CryptoResult;
use crate::session_model::{
    destinations_of, lemma_on_register_wf, lemma_on_relay_wf, lemma_on_result_wf, SessionModel,
    SETTLE_TIMEOUT,
};
use vstd::prelude::*;

verus! {

/// A signing session at one peer.
#[derive(Debug)]
pub struct Session {
    protocol_id: u32,
    manager: ProtocolDataManager,
    destinations: Vec<PeerId>,
    last_outbound: Option<ClientMessage>,
    settle_timeout: u64,
}

impl View for Session {
    type V = SessionModel;

    closed spec fn view(&self) -> SessionModel {
        SessionModel {
            protocol_id: self.protocol_id,
            peer: self.manager@,
            destinations: self.destinations@,
            last_outbound: match self.last_outbound {
                Some(message) => Some(message@),
                None => None,
            },
            settle_timeout: self.settle_timeout,
        }
    }
}

/// All peers of `1..=capacity` but `id`, in increasing order.
fn destinations_for(capacity: u32, id: PeerId) -> (destinations: Vec<PeerId>)
    requires
        1 <= id <= capacity,
    ensures
        destinations@ == destinations_of(capacity as nat, id as int),
{
    let ghost all = destinations_of(capacity as nat, id as int);
    let mut destinations: Vec<PeerId> = Vec::new();
    let mut k: u32 = 0;
    while k < capacity
        invariant
            k <= capacity,
            1 <= id <= capacity,
            all == destinations_of(capacity as nat, id as int),
            destinations.len() == if k < id {
                k as int
            } else {
                k - 1
            },
            forall|j: int| 0 <= j < destinations.len() ==> destinations[j] == all[j],
        decreases capacity - k,
    {
        k += 1;
        if k != id {
            destinations.push(k);
        }
    }
    assert(destinations@ =~= all);
    destinations
}

impl Session {
    /// The manager is sound.
    pub closed spec fn inv(&self) -> bool {
        self.manager.wf()
    }

    /// Well-formedness: the session's invariant holds.
    pub open spec fn wf(&self) -> bool {
        &&& self.inv()
        &&& self@.wf()
    }

    /// A session that runs `protocol_id` among `capacity` peers to sign
    /// `message` with `keypair`, whose public half is `public_key`. It uses
    /// the usual settle timeout; nothing has been sent yet.
    pub fn new(
        protocol_id: u32,
        capacity: u32,
        message: Vec<u8>,
        keypair: String,
        public_key: String,
    ) -> (session: Session)
        ensures
            session.wf(),
            session@ == SessionModel::fresh(
                protocol_id,
                PeerModel::fresh(capacity as nat, message@, keypair@, public_key@),
                SETTLE_TIMEOUT,
            ),
    {
        Session {
            protocol_id,
            manager: ProtocolDataManager::new(Peer::new(capacity, message, keypair, public_key)),
            destinations: Vec::new(),
            last_outbound: None,
            settle_timeout: SETTLE_TIMEOUT,
        }
    }

    /// Sets the delay, in milliseconds, after registration and before a repeat.
    pub fn set_settle_timeout(&mut self, settle_timeout: u64)
        requires
            old(self).wf(),
        ensures
            final(self).wf(),
            final(self)@ == (SessionModel { settle_timeout, ..old(self)@ }),
    {
        self.settle_timeout = settle_timeout;
    }

    /// The peer of the session.
    pub fn peer(&self) -> (peer: &Peer)
        requires
            self.wf(),
        ensures
            peer.wf(),
            peer@ == self@.peer,
    {
        self.manager.peer()
    }

    /// The peers that receive this peer's payloads.
    pub fn destinations(&self) -> (destinations: &Vec<PeerId>)
        ensures
            destinations@ == self@.destinations,
    {
        &self.destinations
    }

    /// A copy of the message sent last, if any was sent.
    pub fn last_outbound(&self) -> (message: Option<ClientMessage>)
        ensures
            match message {
                Some(message) => self@.last_outbound == Some(message@),
                None => self@.last_outbound is None,
            },
    {
        match &self.last_outbound {
            Some(message) => Some(message.duplicate()),
            None => None,
        }
    }

    /// The request to join the session. It becomes the message to repeat.
    pub fn generate_register_message(&mut self) -> (message: ClientMessage)
        requires
            old(self).wf(),
        ensures
            final(self).wf(),
            final(self)@ == old(self)@.started(),
            message@ == old(self)@.register_message(),
    {
        let capacity = self.manager.peer().capacity();
        self.last_outbound = Some(ClientMessage::Register { protocol_id: self.protocol_id, capacity });
        ClientMessage::Register { protocol_id: self.protocol_id, capacity }
    }

    /// Wraps the payload `text` into its envelope, keeps the envelope for a
    /// repeat and returns the action that sends it after `delay` milliseconds.
    fn send(&mut self, text: String, delay: u64) -> (action: Action)
        requires
            old(self).wf(),
            old(self)@.peer.peer_id is Some,
        ensures
            final(self).wf(),
            final(self)@ == old(self)@.sending(text@, delay).0,
            action@ == old(self)@.sending(text@, delay).1,
    {
        let from = self.manager.peer().peer_id().unwrap();
        let message = ClientMessage::Relay(
            RelayMessage {
                from,
                protocol: self.protocol_id,
                to: copy_ids(&self.destinations),
                body: text,
            },
        );
        self.last_outbound = Some(message.duplicate());
        Action::Send { delay, message }
    }

    /// Registers under the index `peer_id` that the relay assigned. The
    /// peer's public key goes out after the settle timeout, to all other
    /// peers. Fails, and changes nothing, where the peer is registered
    /// already or `peer_id` is no index of the session.
    pub fn handle_register_response(&mut self, peer_id: PeerId) -> (res: Result<Action, SignError>)
        requires
            old(self).wf(),
        ensures
            final(self).wf(),
            match old(self)@.on_register(peer_id as int) {
                Ok((next, action)) => res is Ok && res.unwrap()@ == action && final(self)@ == next,
                Err(e) => res == Err::<Action, SignError>(e) && final(self)@ == old(self)@,
            },
    {
        let text = match self.manager.initialize(peer_id) {
            Ok(text) => text,
            Err(e) => {
                return Err(e);
            },
        };
        proof {
            lemma_on_register_wf(old(self)@, peer_id as int);
        }
        self.destinations = destinations_for(self.manager.peer().capacity(), peer_id);
        Ok(self.send(text, self.settle_timeout))
    }

    /// Answers an error of the relay. `NOT_YOUR_TURN` and
    /// `STATE_NOT_INITIALIZED` ask for the message sent last to be sent again
    /// after the settle timeout, unchanged; the session stays as it is. Any
    /// other error, or a request to repeat when nothing was sent, fails with
    /// `RelayError`.
    pub fn handle_error_response(&self, code: &String) -> (res: Result<Action, SignError>)
        requires
            self.wf(),
        ensures
            match self@.on_error(code@) {
                Ok((next, action)) => res is Ok && res.unwrap()@ == action && next == self@,
                Err(e) => res == Err::<Action, SignError>(e),
            },
    {
        if !is_retry(code) {
            return Err(SignError::RelayError);
        }
        match &self.last_outbound {
            Some(message) => Ok(
                Action::Send { delay: self.settle_timeout, message: message.duplicate() },
            ),
            None => Err(SignError::RelayError),
        }
    }

    /// Turns a step of the peer into the next action.
    fn act_on(&mut self, step: Step) -> (action: Action)
        requires
            old(self).wf(),
            old(self)@.peer.peer_id is Some,
            step is Finished ==> old(self)@.peer.done(),
        ensures
            final(self).wf(),
            final(self)@ == old(self)@.after_step(step@).0,
            action@ == old(self)@.after_step(step@).1,
    {
        match step {
            Step::Waiting => Action::Idle,
            Step::Emit(text) => self.send(text, 0),
            Step::Needs(request) => Action::Compute(request),
            Step::Finished => {
                let request = self.manager.finalize_request();
                Action::Compute(request.unwrap())
            },
        }
    }

    /// Delivers the payload `text` of peer `from`. Where it completes a
    /// round, the action sends the next payload or asks for the work that
    /// the next payload needs; otherwise nothing follows. A payload that the
    /// peer rejects fails with the peer's error and changes nothing.
    pub fn deliver(&mut self, from: PeerId, text: &str) -> (res: Result<Action, SignError>)
        requires
            old(self).wf(),
        ensures
            final(self).wf(),
            match old(self)@.on_relay(from as int, text@) {
                Ok((next, action)) => res is Ok && res.unwrap()@ == action && final(self)@ == next,
                Err(e) => res == Err::<Action, SignError>(e) && final(self)@ == old(self)@,
            },
    {
        let step = match self.manager.get_next(from, text) {
            Ok(step) => step,
            Err(e) => {
                return Err(e);
            },
        };
        proof {
            lemma_on_relay_wf(old(self)@, from as int, text@);
        }
        Ok(self.act_on(step))
    }

    /// Delivers the payload that a relay message carries, as `deliver` does.
    pub fn handle_relay_message(&mut self, message: &RelayMessage) -> (res: Result<
        Action,
        SignError,
    >)
        requires
            old(self).wf(),
        ensures
            final(self).wf(),
            match old(self)@.on_relay(message.from as int, message.body@) {
                Ok((next, action)) => res is Ok && res.unwrap()@ == action && final(self)@ == next,
                Err(e) => res == Err::<Action, SignError>(e) && final(self)@ == old(self)@,
            },
    {
        self.deliver(message.from, message.body.as_str())
    }

    /// Takes up the result of requested work. The result of a commitment or
    /// of a signing ends a round, and the round's payload goes out; the
    /// verdict on the combined signature ends the session, with `NotDone`
    /// where signatures are missing and `InvalidSignature` where it is
    /// negative. A failure changes nothing.
    pub fn handle_crypto_result(&mut self, result: CryptoResult) -> (res: Result<Action, SignError>)
        requires
            old(self).wf(),
        ensures
            final(self).wf(),
            match old(self)@.on_result(result@) {
                Ok((next, action)) => res is Ok && res.unwrap()@ == action && final(self)@ == next,
                Err(e) => res == Err::<Action, SignError>(e) && final(self)@ == old(self)@,
            },
    {
        if let CryptoResult::Verified { valid } = result {
            return match self.manager.finalize(valid) {
                Ok(()) => Ok(Action::Finished),
                Err(e) => Err(e),
            };
        }
        let text = match self.manager.resume(result) {
            Ok(text) => text,
            Err(e) => {
                return Err(e);
            },
        };
        proof {
            lemma_on_result_wf(old(self)@, result@);
        }
        Ok(self.send(text, 0))
    }

    /// Answers a message of the relay: a registration, an error, a payload
    /// of another peer or an abort. An abort fails with `Aborted`; a message
    /// with no part set asks for nothing.
    pub fn generate_client_answer(&mut self, message: ServerMessage) -> (res: Result<
        Action,
        SignError,
    >)
        requires
            old(self).wf(),
        ensures
            final(self).wf(),
            match old(self)@.on_message(message@) {
                Ok((next, action)) => res is Ok && res.unwrap()@ == action && final(self)@ == next,
                Err(e) => res == Err::<Action, SignError>(e) && final(self)@ == old(self)@,
            },
    {
        match message.kind() {
            ServerMessageKind::Response => match message.response.unwrap() {
                ServerResponse::Register(peer_id) => self.handle_register_response(peer_id),
                ServerResponse::ErrorResponse(code) => self.handle_error_response(&code),
            },
            ServerMessageKind::RelayMessage => {
                let relayed = message.relay_message.unwrap();
                self.handle_relay_message(&relayed)
            },
            ServerMessageKind::Abort => Err(SignError::Aborted),
            ServerMessageKind::Undefined => Ok(Action::Idle),
        }
    }
}

} // verus!
