//! The client side of an n-of-n aggregated Ed25519 signing session that
//! runs through a relay.
//!
//! Each of `n` peers holds a long-term key pair. In four rounds the peers
//! exchange public keys, commitments to ephemeral keys, the openings of the
//! commitments and partial signatures; the partial signatures combine into
//! one signature under the aggregate of all public keys.
//!
//! The crate holds the decisions of a peer. The connection to the relay
//! and the operations of the curve library are its host's: the crate is a
//! state machine that is told what happened and answers what to do next,
//! which is to send a message to the relay, to poll the relay, or to
//! perform one operation of the curve library. The host does that and
//! reports back.
//!
//! * [`payload`]: the text form of what peers exchange.
//! * [`accumulator`]: what one round has gathered.
//! * [`peer`], [`peer_model`]: the four rounds at one peer.
//! * [`manager`]: the peer behind the two operations that a session needs.
//! * [`message`], [`session`], [`session_model`]: registration, envelopes
//!   and the answers to the relay.
//! * [`request`], [`procedure`]: the cryptographic work of a round and the
//!   order of its operations.
//! * [`action`], [`driver`], [`driver_model`]: the round loop with its
//!   bounded attempts.
//! * [`input`], [`report`]: the message as the user names it, and the names
//!   of the files of a run.

pub mod accumulator;
pub mod action;
pub mod driver;
pub mod driver_model;
pub mod error;
pub mod input;
pub mod manager;
pub mod message;
pub mod payload;
pub mod peer;
pub mod peer_model;
pub mod procedure;
pub mod report;
pub mod request;
pub mod session;
pub mod session_model;
