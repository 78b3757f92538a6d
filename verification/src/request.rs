//! Work that the state machine cannot do itself and asks its host for: the
//! operations of the curve library. The host performs a request and hands the
//! result back; the state machine decides what follows from it.

use vstd::prelude::*;

verus! {

/// One piece of cryptographic work. All keys, commitments, openings and
/// signatures travel in the cryptographic library's own serialization.
#[derive(Debug, PartialEq, Eq)]
pub enum CryptoRequest {
    /// Create an ephemeral key for `message` under `keypair` and commit to it.
    Commit { keypair: String, message: Vec<u8> },
    /// Check every opening against the commitment of the same peer, aggregate
    /// `public_keys` for the signer at position `index`, combine the nonces of
    /// the openings, derive the challenge and sign `message` partially.
    /// The three lists are arranged by peer index, peer 1 first.
    Sign {
        keypair: String,
        message: Vec<u8>,
        ephemeral: String,
        index: usize,
        public_keys: Vec<String>,
        commitments: Vec<String>,
        openings: Vec<String>,
    },
    /// Combine `signatures` and verify the result against `message` under the
    /// aggregate of `public_keys`. Both lists are arranged by peer index.
    Verify { message: Vec<u8>, index: usize, public_keys: Vec<String>, signatures: Vec<String> },
}

/// A request as a mathematical value.
pub enum RequestModel {
    Commit { keypair: Seq<char>, message: Seq<u8> },
    Sign {
        keypair: Seq<char>,
        message: Seq<u8>,
        ephemeral: Seq<char>,
        index: nat,
        public_keys: Seq<Seq<char>>,
        commitments: Seq<Seq<char>>,
        openings: Seq<Seq<char>>,
    },
    Verify {
        message: Seq<u8>,
        index: nat,
        public_keys: Seq<Seq<char>>,
        signatures: Seq<Seq<char>>,
    },
}

impl View for CryptoRequest {
    type V = RequestModel;

    open spec fn view(&self) -> RequestModel {
        match self {
            CryptoRequest::Commit { keypair, message } => RequestModel::Commit {
                keypair: keypair@,
                message: message@,
            },
            CryptoRequest::Sign {
                keypair,
                message,
                ephemeral,
                index,
                public_keys,
                commitments,
                openings,
            } => RequestModel::Sign {
                keypair: keypair@,
                message: message@,
                ephemeral: ephemeral@,
                index: *index as nat,
                public_keys: public_keys.deep_view(),
                commitments: commitments.deep_view(),
                openings: openings.deep_view(),
            },
            CryptoRequest::Verify { message, index, public_keys, signatures } => RequestModel::Verify {
                message: message@,
                index: *index as nat,
                public_keys: public_keys.deep_view(),
                signatures: signatures.deep_view(),
            },
        }
    }
}

/// The result of a request, as the host hands it back.
#[derive(Debug, PartialEq, Eq)]
pub enum CryptoResult {
    /// The ephemeral key, the commitment to it and the opening of the commitment.
    Committed { ephemeral: String, commitment: String, opening: String },
    /// For each peer, in order of index, whether its opening matches its
    /// commitment; and this peer's partial signature.
    Signed { openings_match: Vec<bool>, signature: String },
    /// Whether the combined signature verifies.
    Verified { valid: bool },
}

/// A result as a mathematical value.
pub enum ResultModel {
    Committed { ephemeral: Seq<char>, commitment: Seq<char>, opening: Seq<char> },
    Signed { openings_match: Seq<bool>, signature: Seq<char> },
    Verified { valid: bool },
}

impl View for CryptoResult {
    type V = ResultModel;

    open spec fn view(&self) -> ResultModel {
        match self {
            CryptoResult::Committed { ephemeral, commitment, opening } => ResultModel::Committed {
                ephemeral: ephemeral@,
                commitment: commitment@,
                opening: opening@,
            },
            CryptoResult::Signed { openings_match, signature } => ResultModel::Signed {
                openings_match: openings_match@,
                signature: signature@,
            },
            CryptoResult::Verified { valid } => ResultModel::Verified { valid: *valid },
        }
    }
}

} // verus!
