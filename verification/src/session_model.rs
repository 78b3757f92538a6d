//! The session client as a mathematical state machine: registration, the
//! envelope around each payload, and what each message of the relay leads to.

use crate::accumulator::PeerId;
use crate::action::ActionModel;
use crate::error::SignError;
use crate::message::{
    is_retry_code, ClientModel, RelayModel, ResponseModel, ServerMessageKind, ServerModel,
};
use crate::peer_model::{lemma_advanced_wf, lemma_registered_wf, lemma_resumed_wf, PeerModel, StepModel};
use crate::request::ResultModel;
use vstd::prelude::*;

verus! {

/// The time, in milliseconds, that a session lets pass after registration
/// and before it repeats a message, unless told otherwise.
pub const SETTLE_TIMEOUT: u64 = 5000;

/// The peers that receive what peer `id` sends: all of `1..=capacity` but
/// `id` itself, in increasing order.
pub open spec fn destinations_of(capacity: nat, id: int) -> Seq<PeerId> {
    Seq::new(
        (capacity - 1) as nat,
        |j: int|
            if j + 1 < id {
                (j + 1) as PeerId
            } else {
                (j + 2) as PeerId
            },
    )
}

/// The destinations of a peer are the other peers, each once, in increasing order.
pub proof fn lemma_destinations(capacity: nat, id: int)
    requires
        1 <= id <= capacity <= u32::MAX,
    ensures
        destinations_of(capacity, id).len() == capacity - 1,
        forall|k: PeerId|
            destinations_of(capacity, id).contains(k) <==> 1 <= k <= capacity && k != id,
        forall|i: int, j: int|
            0 <= i < j < capacity - 1 ==> destinations_of(capacity, id)[i] < destinations_of(
                capacity,
                id,
            )[j],
{
    let dests = destinations_of(capacity, id);
    assert forall|k: PeerId| 1 <= k <= capacity && k != id implies dests.contains(k) by {
        if k < id {
            assert(dests[k - 1] == k);
        } else {
            assert(dests[k - 2] == k);
        }
    }
}

/// Everything a session holds.
#[verifier::ext_equal]
pub struct SessionModel {
    /// The protocol that the session runs.
    pub protocol_id: u32,
    /// The peer that signs.
    pub peer: PeerModel,
    /// The peers that receive this peer's payloads; empty before registration.
    pub destinations: Seq<PeerId>,
    /// The message sent last, kept to be sent again on request.
    pub last_outbound: Option<ClientModel>,
    /// The delay, in milliseconds, after registration and before a repeat.
    pub settle_timeout: u64,
}

impl SessionModel {
    /// A session that has sent nothing yet.
    pub open spec fn fresh(protocol_id: u32, peer: PeerModel, settle_timeout: u64) -> SessionModel {
        SessionModel {
            protocol_id,
            peer,
            destinations: Seq::empty(),
            last_outbound: None,
            settle_timeout,
        }
    }

    /// What holds of a session at every moment.
    pub open spec fn wf(self) -> bool {
        &&& self.peer.wf()
        &&& self.peer.capacity <= u32::MAX
        &&& match self.peer.peer_id {
            Some(id) => self.destinations == destinations_of(self.peer.capacity, id),
            None => self.destinations == Seq::<PeerId>::empty(),
        }
    }

    /// The request to join the session.
    pub open spec fn register_message(self) -> ClientModel {
        ClientModel::Register {
            protocol_id: self.protocol_id,
            capacity: self.peer.capacity as u32,
        }
    }

    /// The state after the request to join went out: the request is the
    /// message to repeat.
    pub open spec fn started(self) -> SessionModel {
        SessionModel { last_outbound: Some(self.register_message()), ..self }
    }

    /// The relay envelope around the payload `text`: from this peer, to all others.
    pub open spec fn envelope(self, text: Seq<char>) -> ClientModel {
        ClientModel::Relay(
            RelayModel {
                from: self.peer.peer_id.unwrap() as PeerId,
                protocol: self.protocol_id,
                to: self.destinations,
                body: text,
            },
        )
    }

    /// The state after `text` went out in its envelope, and the action that sends it.
    pub open spec fn sending(self, text: Seq<char>, delay: u64) -> (SessionModel, ActionModel) {
        let message = self.envelope(text);
        (
            SessionModel { last_outbound: Some(message), ..self },
            ActionModel::Send { delay, message },
        )
    }

    /// The relay assigned the index `id`: the peer registers, the other peers
    /// become the destinations, and after the settle timeout the peer's
    /// public key goes out.
    pub open spec fn on_register(self, id: int) -> Result<(SessionModel, ActionModel), SignError> {
        match self.peer.registered(id) {
            Err(e) => Err(e),
            Ok((peer, text)) => Ok(
                SessionModel {
                    peer,
                    destinations: destinations_of(self.peer.capacity, id),
                    ..self
                }.sending(text, self.settle_timeout),
            ),
        }
    }

    /// The relay answered with the error `code`: where it asks to try again
    /// and something was sent before, the same message goes out again after
    /// the settle timeout, and the session stays as it is. Every other error
    /// ends the session.
    pub open spec fn on_error(self, code: Seq<char>) -> Result<
        (SessionModel, ActionModel),
        SignError,
    > {
        if is_retry_code(code) && self.last_outbound is Some {
            Ok(
                (
                    self,
                    ActionModel::Send {
                        delay: self.settle_timeout,
                        message: self.last_outbound.unwrap(),
                    },
                ),
            )
        } else {
            Err(SignError::RelayError)
        }
    }

    /// What a step of the peer means for the session: a payload goes out at
    /// once, requested work is passed on, and at the end of the last round
    /// the verification of the combined signature is asked for.
    pub open spec fn after_step(self, step: StepModel) -> (SessionModel, ActionModel) {
        match step {
            StepModel::Waiting => (self, ActionModel::Idle),
            StepModel::Emit(text) => self.sending(text, 0),
            StepModel::Needs(request) => (self, ActionModel::Compute(request)),
            StepModel::Finished => (self, ActionModel::Compute(self.peer.verify_request())),
        }
    }

    /// A payload `text` of peer `from` arrived.
    pub open spec fn on_relay(self, from: int, text: Seq<char>) -> Result<
        (SessionModel, ActionModel),
        SignError,
    > {
        match self.peer.advanced(from, text) {
            Err(e) => Err(e),
            Ok((peer, step)) => Ok(SessionModel { peer, ..self }.after_step(step)),
        }
    }

    /// The result of requested work arrived: a round ends and its payload
    /// goes out, or, for the verdict on the combined signature, the session
    /// ends.
    pub open spec fn on_result(self, result: ResultModel) -> Result<
        (SessionModel, ActionModel),
        SignError,
    > {
        match result {
            ResultModel::Verified { valid } => match self.peer.finalized(valid) {
                Err(e) => Err(e),
                Ok(()) => Ok((self, ActionModel::Finished)),
            },
            _ => match self.peer.resumed(result) {
                Err(e) => Err(e),
                Ok((peer, text)) => Ok(SessionModel { peer, ..self }.sending(text, 0)),
            },
        }
    }

    /// A message of the relay arrived.
    pub open spec fn on_message(self, message: ServerModel) -> Result<
        (SessionModel, ActionModel),
        SignError,
    > {
        match message.kind() {
            ServerMessageKind::Response => match message.response.unwrap() {
                ResponseModel::Register(id) => self.on_register(id as int),
                ResponseModel::ErrorResponse(code) => self.on_error(code),
            },
            ServerMessageKind::RelayMessage => self.on_relay(
                message.relay_message.unwrap().from as int,
                message.relay_message.unwrap().body,
            ),
            ServerMessageKind::Abort => Err(SignError::Aborted),
            ServerMessageKind::Undefined => Ok((self, ActionModel::Idle)),
        }
    }
}

/// Registration keeps the session well-formed.
pub proof fn lemma_on_register_wf(state: SessionModel, id: int)
    requires
        state.wf(),
        state.on_register(id) is Ok,
    ensures
        state.on_register(id).unwrap().0.wf(),
{
    lemma_registered_wf(state.peer, id);
}

/// A payload taken in keeps the session well-formed.
pub proof fn lemma_on_relay_wf(state: SessionModel, from: int, text: Seq<char>)
    requires
        state.wf(),
        state.on_relay(from, text) is Ok,
    ensures
        state.on_relay(from, text).unwrap().0.wf(),
        state.on_relay(from, text).unwrap().0.peer == state.peer.advanced(from, text).unwrap().0,
{
    lemma_advanced_wf(state.peer, from, text);
}

/// A result taken up keeps the session well-formed.
pub proof fn lemma_on_result_wf(state: SessionModel, result: ResultModel)
    requires
        state.wf(),
        state.on_result(result) is Ok,
    ensures
        state.on_result(result).unwrap().0.wf(),
{
    if !(result is Verified) {
        lemma_resumed_wf(state.peer, result);
    }
}

/// No message of the relay breaks the session's invariant.
pub proof fn lemma_on_message_wf(state: SessionModel, message: ServerModel)
    requires
        state.wf(),
        state.on_message(message) is Ok,
    ensures
        state.on_message(message).unwrap().0.wf(),
{
    match message.kind() {
        ServerMessageKind::Response => match message.response.unwrap() {
            ResponseModel::Register(id) => lemma_on_register_wf(state, id as int),
            ResponseModel::ErrorResponse(code) => {},
        },
        ServerMessageKind::RelayMessage => lemma_on_relay_wf(
            state,
            message.relay_message.unwrap().from as int,
            message.relay_message.unwrap().body,
        ),
        ServerMessageKind::Abort => {},
        ServerMessageKind::Undefined => {},
    }
}

/// A request to try again changes nothing and repeats the message sent
/// last: however often the relay asks, what goes out is the same message,
/// equal in every byte to the one sent first.
pub proof fn lemma_resend_is_identical(state: SessionModel, first: Seq<char>, second: Seq<char>)
    requires
        state.last_outbound is Some,
        is_retry_code(first),
        is_retry_code(second),
    ensures
        state.on_error(first) is Ok,
        state.on_error(first).unwrap().0 == state,
        state.on_error(first).unwrap().1 == (ActionModel::Send {
            delay: state.settle_timeout,
            message: state.last_outbound.unwrap(),
        }),
        state.on_error(first).unwrap().0.on_error(second) == state.on_error(first),
{
}

/// What a session sends is what it keeps for a repeat: after any payload
/// went out, a request to try again sends that very envelope.
pub proof fn lemma_resend_follows_send(state: SessionModel, text: Seq<char>, delay: u64, code: Seq<char>)
    requires
        is_retry_code(code),
    ensures
        state.sending(text, delay).0.on_error(code) is Ok,
        state.sending(text, delay).0.on_error(code).unwrap().1 == (ActionModel::Send {
            delay: state.settle_timeout,
            message: state.envelope(text),
        }),
        state.sending(text, delay).1 == (ActionModel::Send { delay, message: state.envelope(text) }),
{
}

} // verus!
