//! What travels between a client and the relay.

use crate::accumulator::PeerId;
use vstd::prelude::*;
use vstd::string::*;

verus! {

/// A payload on its way from one peer to others.
#[derive(Debug, PartialEq, Eq)]
pub struct RelayMessage {
    /// The index of the sender.
    pub from: PeerId,
    /// The protocol that the session runs.
    pub protocol: u32,
    /// The indices of the peers that are to receive it.
    pub to: Vec<PeerId>,
    /// The payload.
    pub body: String,
}

/// A relay message as a mathematical value.
pub struct RelayModel {
    pub from: PeerId,
    pub protocol: u32,
    pub to: Seq<PeerId>,
    pub body: Seq<char>,
}

impl View for RelayMessage {
    type V = RelayModel;

    open spec fn view(&self) -> RelayModel {
        RelayModel { from: self.from, protocol: self.protocol, to: self.to@, body: self.body@ }
    }
}

/// A copy of `ids`.
pub(crate) fn copy_ids(ids: &Vec<PeerId>) -> (copy: Vec<PeerId>)
    ensures
        copy@ == ids@,
{
    let copy = ids.clone();
    assert(copy@ =~= ids@);
    copy
}

impl RelayMessage {
    /// A copy that is equal field by field.
    pub fn duplicate(&self) -> (copy: RelayMessage)
        ensures
            copy@ == self@,
    {
        RelayMessage {
            from: self.from,
            protocol: self.protocol,
            to: copy_ids(&self.to),
            body: self.body.clone(),
        }
    }
}

/// What a client sends to the relay.
#[derive(Debug, PartialEq, Eq)]
pub enum ClientMessage {
    /// The request to join a session of `capacity` peers that runs `protocol_id`.
    Register { protocol_id: u32, capacity: u32 },
    /// A payload for other peers.
    Relay(RelayMessage),
}

/// A client message as a mathematical value.
pub enum ClientModel {
    Register { protocol_id: u32, capacity: u32 },
    Relay(RelayModel),
}

impl View for ClientMessage {
    type V = ClientModel;

    open spec fn view(&self) -> ClientModel {
        match self {
            ClientMessage::Register { protocol_id, capacity } => ClientModel::Register {
                protocol_id: *protocol_id,
                capacity: *capacity,
            },
            ClientMessage::Relay(message) => ClientModel::Relay(message@),
        }
    }
}

impl ClientMessage {
    /// A copy that is equal field by field.
    pub fn duplicate(&self) -> (copy: ClientMessage)
        ensures
            copy@ == self@,
    {
        match self {
            ClientMessage::Register { protocol_id, capacity } => ClientMessage::Register {
                protocol_id: *protocol_id,
                capacity: *capacity,
            },
            ClientMessage::Relay(message) => ClientMessage::Relay(message.duplicate()),
        }
    }
}

/// The relay's direct answer to a client.
#[derive(Debug, PartialEq, Eq)]
pub enum ServerResponse {
    /// The client is registered under this index.
    Register(PeerId),
    /// The relay refused what the client sent, for the reason given.
    ErrorResponse(String),
}

/// A server response as a mathematical value.
pub enum ResponseModel {
    Register(PeerId),
    ErrorResponse(Seq<char>),
}

impl View for ServerResponse {
    type V = ResponseModel;

    open spec fn view(&self) -> ResponseModel {
        match self {
            ServerResponse::Register(id) => ResponseModel::Register(*id),
            ServerResponse::ErrorResponse(code) => ResponseModel::ErrorResponse(code@),
        }
    }
}

/// What the relay sends to a client: at most one of the three parts is set.
#[derive(Debug, PartialEq, Eq)]
pub struct ServerMessage {
    pub response: Option<ServerResponse>,
    pub relay_message: Option<RelayMessage>,
    pub abort: bool,
}

/// A server message as a mathematical value.
pub struct ServerModel {
    pub response: Option<ResponseModel>,
    pub relay_message: Option<RelayModel>,
    pub abort: bool,
}

impl View for ServerMessage {
    type V = ServerModel;

    open spec fn view(&self) -> ServerModel {
        ServerModel {
            response: match self.response {
                Some(response) => Some(response@),
                None => None,
            },
            relay_message: match self.relay_message {
                Some(message) => Some(message@),
                None => None,
            },
            abort: self.abort,
        }
    }
}

/// What a server message is, by the first part that is set.
#[derive(Clone, Copy, Debug, PartialEq, Eq, Structural)]
pub enum ServerMessageKind {
    Response,
    RelayMessage,
    Abort,
    /// No part is set; such a message asks for nothing.
    Undefined,
}

impl ServerModel {
    /// The kind of the message: a response before a relay message before an abort.
    pub open spec fn kind(self) -> ServerMessageKind {
        if self.response is Some {
            ServerMessageKind::Response
        } else if self.relay_message is Some {
            ServerMessageKind::RelayMessage
        } else if self.abort {
            ServerMessageKind::Abort
        } else {
            ServerMessageKind::Undefined
        }
    }
}

impl ServerMessage {
    /// The kind of the message.
    pub fn kind(&self) -> (kind: ServerMessageKind)
        ensures
            kind == self@.kind(),
    {
        if self.response.is_some() {
            ServerMessageKind::Response
        } else if self.relay_message.is_some() {
            ServerMessageKind::RelayMessage
        } else if self.abort {
            ServerMessageKind::Abort
        } else {
            ServerMessageKind::Undefined
        }
    }
}

/// Whether the relay's error `code` asks the client to send the same message
/// again after a while: `NOT_YOUR_TURN` and `STATE_NOT_INITIALIZED` do.
pub open spec fn is_retry_code(code: Seq<char>) -> bool {
    code == "NOT_YOUR_TURN"@ || code == "STATE_NOT_INITIALIZED"@
}

/// Whether the relay's error `code` asks the client to try again.
pub fn is_retry(code: &String) -> (retry: bool)
    ensures
        retry == is_retry_code(code@),
{
    *code == String::from_str("NOT_YOUR_TURN") || *code == String::from_str(
        "STATE_NOT_INITIALIZED",
    )
}

} // verus!
