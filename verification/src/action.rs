//! What the state machines ask their host to do next.

use crate::message::{ClientMessage, ClientModel};
use crate::procedure::{Operation, OperationModel};
use crate::request::{CryptoRequest, RequestModel};
use vstd::prelude::*;

verus! {

/// What follows from an event at a session.
#[derive(Debug, PartialEq, Eq)]
pub enum Action {
    /// Nothing follows.
    Idle,
    /// Wait for `delay` milliseconds, then send `message` to the relay.
    Send { delay: u64, message: ClientMessage },
    /// Have this cryptographic work done and hand back its result.
    Compute(CryptoRequest),
    /// The signature is complete and verified; the session is over.
    Finished,
}

/// An action as a mathematical value.
pub enum ActionModel {
    Idle,
    Send { delay: u64, message: ClientModel },
    Compute(RequestModel),
    Finished,
}

impl View for Action {
    type V = ActionModel;

    open spec fn view(&self) -> ActionModel {
        match self {
            Action::Idle => ActionModel::Idle,
            Action::Send { delay, message } => ActionModel::Send {
                delay: *delay,
                message: message@,
            },
            Action::Compute(request) => ActionModel::Compute(request@),
            Action::Finished => ActionModel::Finished,
        }
    }
}

/// The next thing for the host of a round loop to do. The host performs it
/// and reports what came of it: the relay's response to a message sent, the
/// messages that a poll brought, or what an operation returned.
#[derive(Debug, PartialEq, Eq)]
pub enum Command {
    /// Wait for `delay` milliseconds, then send `message` to the relay.
    Send { delay: u64, message: ClientMessage },
    /// Wait for `delay` milliseconds, then ask the relay for new messages.
    Poll { delay: u64 },
    /// Perform this operation of the curve library.
    Perform(Operation),
    /// The signature is complete and verified; the session is over.
    Finished,
}

/// A command as a mathematical value.
pub enum CommandModel {
    Send { delay: u64, message: ClientModel },
    Poll { delay: u64 },
    Perform(OperationModel),
    Finished,
}

impl View for Command {
    type V = CommandModel;

    open spec fn view(&self) -> CommandModel {
        match self {
            Command::Send { delay, message } => CommandModel::Send {
                delay: *delay,
                message: message@,
            },
            Command::Poll { delay } => CommandModel::Poll { delay: *delay },
            Command::Perform(operation) => CommandModel::Perform(operation@),
            Command::Finished => CommandModel::Finished,
        }
    }
}

} // verus!
