//! The peer's part of the signing protocol as a mathematical state machine:
//! what a peer holds, and what each operation makes of it.

use crate::accumulator::{
    entries_within, in_order, inserted, is_quorum, lemma_inserted_commutes, lemma_inserted_grows,
    Entries,
};
use crate::error::SignError;
use crate::payload::{decoded, encoded, PayloadKind};
use crate::request::{RequestModel, ResultModel};
use vstd::prelude::*;

verus! {

/// The number of the state after the last round.
pub const DONE: u32 = 4;

/// Everything a peer holds.
#[verifier::ext_equal]
pub struct PeerModel {
    /// The number of signers.
    pub capacity: nat,
    /// The bytes to sign.
    pub message: Seq<u8>,
    /// The long-term key pair, serialized.
    pub keypair: Seq<char>,
    /// The public half of the key pair, serialized.
    pub public_key: Seq<char>,
    /// The index that the relay assigned, once it has.
    pub peer_id: Option<int>,
    /// The current round: 0 to 3, or 4 when all rounds are complete.
    pub round: nat,
    /// What round 0 gathers.
    pub public_keys: Entries,
    /// What round 1 gathers.
    pub commitments: Entries,
    /// What round 2 gathers.
    pub openings: Entries,
    /// What round 3 gathers.
    pub signatures: Entries,
    /// The ephemeral key, serialized, from the end of round 0 on.
    pub ephemeral: Option<Seq<char>>,
}

/// What a step of the peer yields.
pub enum StepModel {
    /// The current round still lacks contributions, or all rounds are over.
    Waiting,
    /// The next round began with this payload to send.
    Emit(Seq<char>),
    /// The last round is complete; nothing is left to send.
    Finished,
    /// The round is complete, and the next begins once this work is done.
    Needs(RequestModel),
}

impl PeerModel {
    /// A peer before registration.
    pub open spec fn fresh(
        capacity: nat,
        message: Seq<u8>,
        keypair: Seq<char>,
        public_key: Seq<char>,
    ) -> PeerModel {
        PeerModel {
            capacity,
            message,
            keypair,
            public_key,
            peer_id: None,
            round: 0,
            public_keys: Entries::empty(),
            commitments: Entries::empty(),
            openings: Entries::empty(),
            signatures: Entries::empty(),
            ephemeral: None,
        }
    }

    /// What holds of a peer at every moment.
    pub open spec fn wf(self) -> bool {
        &&& self.round <= DONE
        &&& entries_within(self.public_keys, self.capacity)
        &&& entries_within(self.commitments, self.capacity)
        &&& entries_within(self.openings, self.capacity)
        &&& entries_within(self.signatures, self.capacity)
        &&& forall|r: nat| r < self.round ==> is_quorum(#[trigger] self.gathered(r), self.capacity)
        &&& (self.ephemeral is Some <==> self.round >= 1)
        &&& match self.peer_id {
            Some(id) => {
                &&& 1 <= id <= self.capacity
                &&& self.public_keys.contains_key(id)
                &&& self.public_keys[id] == self.public_key
                &&& self.round >= 1 ==> self.commitments.contains_key(id)
                    && self.openings.contains_key(id)
            },
            None => self.round == 0 && self.public_keys == Entries::empty(),
        }
        &&& self.round == 0 ==> self.commitments == Entries::empty() && self.openings
            == Entries::empty()
        &&& self.round <= 1 ==> forall|id: int| #[trigger]
            self.openings.contains_key(id) ==> self.peer_id == Some(id)
        &&& self.round <= 2 ==> self.signatures == Entries::empty()
    }

    /// What round `round` gathers.
    pub open spec fn gathered(self, round: nat) -> Entries {
        if round == 0 {
            self.public_keys
        } else if round == 1 {
            self.commitments
        } else if round == 2 {
            self.openings
        } else {
            self.signatures
        }
    }

    /// The state with `entries` in place of what round `round` gathers.
    pub open spec fn with_gathered(self, round: nat, entries: Entries) -> PeerModel {
        if round == 0 {
            PeerModel { public_keys: entries, ..self }
        } else if round == 1 {
            PeerModel { commitments: entries, ..self }
        } else if round == 2 {
            PeerModel { openings: entries, ..self }
        } else {
            PeerModel { signatures: entries, ..self }
        }
    }

    /// The kind of payload that the peer takes in now: that of the current
    /// round, and none before registration or after the last round.
    pub open spec fn expected(self) -> Option<PayloadKind> {
        if self.peer_id is None {
            None
        } else {
            PayloadKind::of_round(self.round)
        }
    }

    /// Whether the current round has a contribution of every peer.
    pub open spec fn ready(self) -> bool {
        &&& self.peer_id is Some
        &&& self.round < DONE
        &&& is_quorum(self.gathered(self.round), self.capacity)
    }

    /// Whether every partial signature has arrived.
    pub open spec fn done(self) -> bool {
        is_quorum(self.signatures, self.capacity)
    }

    /// Registration under the index `id`: the peer's own public key becomes the
    /// first contribution of round 0 and goes out as the first payload.
    pub open spec fn registered(self, id: int) -> Result<(PeerModel, Seq<char>), SignError> {
        if self.peer_id is Some {
            Err(SignError::AlreadyRegistered)
        } else if !(1 <= id <= self.capacity) {
            Err(SignError::PeerOutOfRange)
        } else {
            Ok(
                (
                    PeerModel {
                        peer_id: Some(id),
                        public_keys: self.public_keys.insert(id, self.public_key),
                        ..self
                    },
                    encoded(PayloadKind::PublicKey, self.public_key),
                ),
            )
        }
    }

    /// Taking in the payload `text` of peer `from`.
    pub open spec fn updated(self, from: int, text: Seq<char>) -> Result<PeerModel, SignError> {
        match decoded(text) {
            None => Err(SignError::MalformedPayload),
            Some((kind, body)) => {
                if self.expected() != Some(kind) {
                    Err(SignError::UnexpectedPayload)
                } else {
                    match inserted(self.gathered(self.round), self.capacity, from, body) {
                        Err(e) => Err(e),
                        Ok(entries) => Ok(self.with_gathered(self.round, entries)),
                    }
                }
            },
        }
    }

    /// The work that ends round 0.
    pub open spec fn commit_request(self) -> RequestModel {
        RequestModel::Commit { keypair: self.keypair, message: self.message }
    }

    /// The position of this peer among the signers, counted from 0.
    pub open spec fn index(self) -> nat {
        (self.peer_id.unwrap() - 1) as nat
    }

    /// The work that ends round 2. Keys, commitments and openings are
    /// arranged by peer index, so that every peer of a session asks for the
    /// same aggregation.
    pub open spec fn sign_request(self) -> RequestModel {
        RequestModel::Sign {
            keypair: self.keypair,
            message: self.message,
            ephemeral: self.ephemeral.unwrap(),
            index: self.index(),
            public_keys: in_order(self.public_keys, self.capacity),
            commitments: in_order(self.commitments, self.capacity),
            openings: in_order(self.openings, self.capacity),
        }
    }

    /// The work that closes the session.
    pub open spec fn verify_request(self) -> RequestModel {
        RequestModel::Verify {
            message: self.message,
            index: self.index(),
            public_keys: in_order(self.public_keys, self.capacity),
            signatures: in_order(self.signatures, self.capacity),
        }
    }

    /// A step: nothing while the round is incomplete; otherwise the next
    /// round, or the request for the work that must come first.
    pub open spec fn stepped(self) -> (PeerModel, StepModel) {
        if !self.ready() {
            (self, StepModel::Waiting)
        } else if self.round == 0 {
            (self, StepModel::Needs(self.commit_request()))
        } else if self.round == 1 {
            (
                PeerModel { round: 2, ..self },
                StepModel::Emit(encoded(PayloadKind::Nonce, self.openings[self.peer_id.unwrap()])),
            )
        } else if self.round == 2 {
            (self, StepModel::Needs(self.sign_request()))
        } else {
            (PeerModel { round: DONE as nat, ..self }, StepModel::Finished)
        }
    }

    /// The end of round 0, given a fresh ephemeral key with its commitment
    /// and opening: both become the peer's own contributions to the rounds to
    /// come, and the commitment goes out.
    pub open spec fn committed(
        self,
        ephemeral: Seq<char>,
        commitment: Seq<char>,
        opening: Seq<char>,
    ) -> Result<(PeerModel, Seq<char>), SignError> {
        if !(self.ready() && self.round == 0) {
            Err(SignError::NotRequested)
        } else {
            let id = self.peer_id.unwrap();
            Ok(
                (
                    PeerModel {
                        round: 1,
                        ephemeral: Some(ephemeral),
                        commitments: self.commitments.insert(id, commitment),
                        openings: self.openings.insert(id, opening),
                        ..self
                    },
                    encoded(PayloadKind::Commitment, commitment),
                ),
            )
        }
    }

    /// Whether the opening of each of `capacity` peers was found to match.
    pub open spec fn all_match(openings_match: Seq<bool>, capacity: nat) -> bool {
        &&& openings_match.len() == capacity
        &&& forall|j: int| 0 <= j < openings_match.len() ==> openings_match[j]
    }

    /// The end of round 2, given the outcome of the opening checks and the
    /// partial signature: one opening that does not match ends the session,
    /// otherwise the partial signature goes out.
    pub open spec fn signed(self, openings_match: Seq<bool>, signature: Seq<char>) -> Result<
        (PeerModel, Seq<char>),
        SignError,
    > {
        if !(self.ready() && self.round == 2) {
            Err(SignError::NotRequested)
        } else if !Self::all_match(openings_match, self.capacity) {
            Err(SignError::CommitmentMismatch)
        } else {
            Ok((PeerModel { round: 3, ..self }, encoded(PayloadKind::Signature, signature)))
        }
    }

    /// The verdict on the session, given whether the combined signature verifies.
    pub open spec fn finalized(self, valid: bool) -> Result<(), SignError> {
        if !self.done() {
            Err(SignError::NotDone)
        } else if !valid {
            Err(SignError::InvalidSignature)
        } else {
            Ok(())
        }
    }

    /// Taking in a payload and then stepping: what the peer emits next,
    /// where the payload completed the round.
    pub open spec fn advanced(self, from: int, text: Seq<char>) -> Result<
        (PeerModel, StepModel),
        SignError,
    > {
        match self.updated(from, text) {
            Err(e) => Err(e),
            Ok(next) => Ok(next.stepped()),
        }
    }

    /// Taking up the result of requested work: the round that waited for it
    /// ends, and the payload of the next goes out. A verdict on the combined
    /// signature ends no round.
    pub open spec fn resumed(self, result: ResultModel) -> Result<(PeerModel, Seq<char>), SignError> {
        match result {
            ResultModel::Committed { ephemeral, commitment, opening } => self.committed(
                ephemeral,
                commitment,
                opening,
            ),
            ResultModel::Signed { openings_match, signature } => self.signed(
                openings_match,
                signature,
            ),
            ResultModel::Verified { valid } => Err(SignError::NotRequested),
        }
    }

    /// Whether `next` is what one operation can make of this state.
    pub open spec fn moves_to(self, next: PeerModel) -> bool {
        ||| next == self
        ||| exists|id: int| #[trigger] self.registered(id) is Ok && self.registered(id).unwrap().0 == next
        ||| exists|from: int, text: Seq<char>| #[trigger]
            self.updated(from, text) == Ok::<PeerModel, SignError>(next)
        ||| self.stepped().0 == next
        ||| exists|ephemeral: Seq<char>, commitment: Seq<char>, opening: Seq<char>|
            {
                &&& #[trigger] self.committed(ephemeral, commitment, opening) is Ok
                &&& self.committed(ephemeral, commitment, opening).unwrap().0 == next
            }
        ||| exists|openings_match: Seq<bool>, signature: Seq<char>|
            {
                &&& #[trigger] self.signed(openings_match, signature) is Ok
                &&& self.signed(openings_match, signature).unwrap().0 == next
            }
    }
}

/// A peer before registration is well-formed and in round 0.
pub proof fn lemma_fresh_wf(
    capacity: nat,
    message: Seq<u8>,
    keypair: Seq<char>,
    public_key: Seq<char>,
)
    ensures
        PeerModel::fresh(capacity, message, keypair, public_key).wf(),
        PeerModel::fresh(capacity, message, keypair, public_key).round == 0,
{
}

/// Registration keeps the peer well-formed and in its round.
pub proof fn lemma_registered_wf(state: PeerModel, id: int)
    requires
        state.wf(),
        state.registered(id) is Ok,
    ensures
        state.registered(id).unwrap().0.wf(),
        state.registered(id).unwrap().0.round == state.round,
{
    let next = state.registered(id).unwrap().0;
    lemma_inserted_grows(state.public_keys, state.capacity, id, state.public_key);
    assert forall|r: nat| r < next.round implies is_quorum(
        #[trigger] next.gathered(r),
        next.capacity,
    ) by {}
}

/// A payload taken in keeps the peer well-formed and in its round, and adds
/// to what the round has gathered without touching the other rounds.
pub proof fn lemma_updated_wf(state: PeerModel, from: int, text: Seq<char>)
    requires
        state.wf(),
        state.updated(from, text) is Ok,
    ensures
        state.updated(from, text).unwrap().wf(),
        state.updated(from, text).unwrap().round == state.round,
        state.round < DONE,
        forall|r: nat|
            r < DONE && r != state.round ==> state.updated(from, text).unwrap().gathered(r)
                == #[trigger] state.gathered(r),
        state.gathered(state.round).submap_of(
            state.updated(from, text).unwrap().gathered(state.round),
        ),
{
    let next = state.updated(from, text).unwrap();
    let body = decoded(text).unwrap().1;
    let before = state.gathered(state.round);
    lemma_inserted_grows(before, state.capacity, from, body);
    assert(next.gathered(state.round) == before.insert(from, body));
    assert forall|r: nat| r < next.round implies is_quorum(
        #[trigger] next.gathered(r),
        next.capacity,
    ) by {
        assert(next.gathered(r) == state.gathered(r));
    }
    if state.round == 0 {
        assert(next.public_keys == state.public_keys.insert(from, body));
    }
}

/// A step keeps the peer well-formed and moves it on by one round at most.
pub proof fn lemma_stepped_wf(state: PeerModel)
    requires
        state.wf(),
    ensures
        state.stepped().0.wf(),
        state.stepped().0.round == state.round || state.stepped().0.round == state.round + 1,
{
    let next = state.stepped().0;
    assert forall|r: nat| r < next.round implies is_quorum(
        #[trigger] next.gathered(r),
        next.capacity,
    ) by {
        assert(next.gathered(r) == state.gathered(r));
        if r == state.round {
            assert(state.ready());
        }
    }
}

/// The end of round 0 keeps the peer well-formed and moves it to round 1.
pub proof fn lemma_committed_wf(
    state: PeerModel,
    ephemeral: Seq<char>,
    commitment: Seq<char>,
    opening: Seq<char>,
)
    requires
        state.wf(),
        state.committed(ephemeral, commitment, opening) is Ok,
    ensures
        state.committed(ephemeral, commitment, opening).unwrap().0.wf(),
        state.round == 0,
        state.committed(ephemeral, commitment, opening).unwrap().0.round == 1,
{
    let next = state.committed(ephemeral, commitment, opening).unwrap().0;
    let id = state.peer_id.unwrap();
    lemma_inserted_grows(state.commitments, state.capacity, id, commitment);
    lemma_inserted_grows(state.openings, state.capacity, id, opening);
    assert forall|r: nat| r < next.round implies is_quorum(
        #[trigger] next.gathered(r),
        next.capacity,
    ) by {
        assert(next.gathered(0) == state.gathered(0));
        assert(state.ready());
    }
}

/// The end of round 2 keeps the peer well-formed and moves it to round 3.
pub proof fn lemma_signed_wf(state: PeerModel, openings_match: Seq<bool>, signature: Seq<char>)
    requires
        state.wf(),
        state.signed(openings_match, signature) is Ok,
    ensures
        state.signed(openings_match, signature).unwrap().0.wf(),
        state.round == 2,
        state.signed(openings_match, signature).unwrap().0.round == 3,
{
    let next = state.signed(openings_match, signature).unwrap().0;
    assert forall|r: nat| r < next.round implies is_quorum(
        #[trigger] next.gathered(r),
        next.capacity,
    ) by {
        assert(next.gathered(r) == state.gathered(r));
        if r == 2 {
            assert(state.ready());
        }
    }
}

/// Taking in a payload and stepping keeps the peer well-formed and moves it
/// on by one round at most.
pub proof fn lemma_advanced_wf(state: PeerModel, from: int, text: Seq<char>)
    requires
        state.wf(),
        state.advanced(from, text) is Ok,
    ensures
        state.advanced(from, text).unwrap().0.wf(),
        state.advanced(from, text).unwrap().0.round == state.round || state.advanced(
            from,
            text,
        ).unwrap().0.round == state.round + 1,
{
    lemma_updated_wf(state, from, text);
    lemma_stepped_wf(state.updated(from, text).unwrap());
}

/// Taking up a result keeps the peer well-formed and moves it on by one round.
pub proof fn lemma_resumed_wf(state: PeerModel, result: ResultModel)
    requires
        state.wf(),
        state.resumed(result) is Ok,
    ensures
        state.resumed(result).unwrap().0.wf(),
        state.resumed(result).unwrap().0.round == state.round + 1,
{
    match result {
        ResultModel::Committed { ephemeral, commitment, opening } => {
            lemma_committed_wf(state, ephemeral, commitment, opening);
        },
        ResultModel::Signed { openings_match, signature } => {
            lemma_signed_wf(state, openings_match, signature);
        },
        ResultModel::Verified { valid } => {},
    }
}

/// No operation breaks the peer's invariant, takes the round back or skips one.
pub proof fn lemma_moves_in_order(state: PeerModel, next: PeerModel)
    requires
        state.wf(),
        state.moves_to(next),
    ensures
        next.wf(),
        next.round == state.round || next.round == state.round + 1,
{
    if next == state {
    } else if exists|id: int| #[trigger]
        state.registered(id) is Ok && state.registered(id).unwrap().0 == next {
        let id = choose|id: int| #[trigger]
            state.registered(id) is Ok && state.registered(id).unwrap().0 == next;
        lemma_registered_wf(state, id);
    } else if exists|from: int, text: Seq<char>| #[trigger]
        state.updated(from, text) == Ok::<PeerModel, SignError>(next) {
        let (from, text) = choose|from: int, text: Seq<char>| #[trigger]
            state.updated(from, text) == Ok::<PeerModel, SignError>(next);
        lemma_updated_wf(state, from, text);
    } else if state.stepped().0 == next {
        lemma_stepped_wf(state);
    } else if exists|ephemeral: Seq<char>, commitment: Seq<char>, opening: Seq<char>|
        {
            &&& #[trigger] state.committed(ephemeral, commitment, opening) is Ok
            &&& state.committed(ephemeral, commitment, opening).unwrap().0 == next
        } {
        let (ephemeral, commitment, opening) = choose|
            ephemeral: Seq<char>,
            commitment: Seq<char>,
            opening: Seq<char>,
        |
            {
                &&& #[trigger] state.committed(ephemeral, commitment, opening) is Ok
                &&& state.committed(ephemeral, commitment, opening).unwrap().0 == next
            };
        lemma_committed_wf(state, ephemeral, commitment, opening);
    } else {
        let (openings_match, signature) = choose|openings_match: Seq<bool>, signature: Seq<char>|
            {
                &&& #[trigger] state.signed(openings_match, signature) is Ok
                &&& state.signed(openings_match, signature).unwrap().0 == next
            };
        lemma_signed_wf(state, openings_match, signature);
    }
}

/// Whether each state of `history` follows from the one before by one
/// operation, the first being a peer before registration.
pub open spec fn is_history(history: Seq<PeerModel>) -> bool {
    &&& history.len() > 0
    &&& history[0].wf()
    &&& history[0].round == 0
    &&& forall|i: int| 0 <= i < history.len() - 1 ==> (#[trigger] history[i]).moves_to(history[i + 1])
}

/// Over any history of a peer the round starts at 0, never exceeds 4, never
/// falls and never skips: what an observer sees is a prefix of 0, 1, 2, 3, 4,
/// each value held for a while.
pub proof fn lemma_rounds_in_order(history: Seq<PeerModel>)
    requires
        is_history(history),
    ensures
        forall|i: int| 0 <= i < history.len() ==> (#[trigger] history[i]).wf(),
        forall|i: int| 0 <= i < history.len() ==> (#[trigger] history[i]).round <= DONE,
        forall|i: int|
            0 <= i < history.len() - 1 ==> {
                ||| history[i + 1].round == (#[trigger] history[i]).round
                ||| history[i + 1].round == history[i].round + 1
            },
        forall|i: int, j: int|
            0 <= i <= j < history.len() ==> (#[trigger] history[i]).round <= (
            #[trigger] history[j]).round,
    decreases history.len(),
{
    if history.len() > 1 {
        let earlier = history.drop_last();
        let last = history.len() - 1;
        assert forall|i: int| 0 <= i < earlier.len() - 1 implies (#[trigger] earlier[i]).moves_to(
            earlier[i + 1],
        ) by {
            assert(history[i].moves_to(history[i + 1]));
        }
        lemma_rounds_in_order(earlier);
        assert(history[last - 1] == earlier[last - 1]);
        assert(history[last - 1].moves_to(history[last]));
        lemma_moves_in_order(history[last - 1], history[last]);
        assert forall|i: int| 0 <= i < history.len() implies (#[trigger] history[i]).wf() by {
            if i < last {
                assert(history[i] == earlier[i]);
            }
        }
        assert forall|i: int| 0 <= i < history.len() - 1 implies {
            ||| history[i + 1].round == (#[trigger] history[i]).round
            ||| history[i + 1].round == history[i].round + 1
        } by {
            if i < last - 1 {
                assert(history[i] == earlier[i]);
                assert(history[i + 1] == earlier[i + 1]);
            }
        }
        assert forall|i: int, j: int| 0 <= i <= j < history.len() implies (
        #[trigger] history[i]).round <= (#[trigger] history[j]).round by {
            if i < last {
                assert(history[i] == earlier[i]);
                assert(earlier[i].round <= earlier[last - 1].round);
                if j < last {
                    assert(history[j] == earlier[j]);
                }
            }
        }
    }
}

/// A registered peer that has rounds left steps exactly when the current
/// round has a contribution of every peer; until then a step yields
/// nothing and changes nothing.
pub proof fn lemma_step_on_quorum(state: PeerModel)
    requires
        state.wf(),
        state.peer_id is Some,
        state.round < DONE,
    ensures
        state.stepped().1 is Waiting <==> !is_quorum(state.gathered(state.round), state.capacity),
        state.stepped().1 is Waiting ==> state.stepped().0 == state,
{
}

/// No payload of a round leaves the peer before the round before it has a
/// contribution of every peer: neither a step nor the result of requested
/// work produces one, or ends a round, without that.
pub proof fn lemma_payload_needs_quorum(state: PeerModel, result: ResultModel)
    requires
        state.wf(),
    ensures
        !(state.stepped().1 is Waiting) ==> is_quorum(state.gathered(state.round), state.capacity),
        state.stepped().0.round != state.round ==> is_quorum(
            state.gathered(state.round),
            state.capacity,
        ),
        state.resumed(result) is Ok ==> is_quorum(state.gathered(state.round), state.capacity),
{
}

/// A peer registers once: whatever index a second registration names, it fails.
pub proof fn lemma_registers_once(state: PeerModel, first: int, second: int)
    requires
        state.registered(first) is Ok,
    ensures
        state.registered(first).unwrap().0.registered(second) == Err::<
            (PeerModel, Seq<char>),
            SignError,
        >(SignError::AlreadyRegistered),
{
}

/// After registration the peer's own public key stays in what round 0 has
/// gathered, whatever else is taken in.
pub proof fn lemma_own_key_stays(state: PeerModel, next: PeerModel)
    requires
        state.wf(),
        state.peer_id is Some,
        state.moves_to(next),
    ensures
        next.peer_id == state.peer_id,
        next.public_keys.contains_key(state.peer_id.unwrap()),
        next.public_keys[state.peer_id.unwrap()] == state.public_key,
        next.public_key == state.public_key,
{
    lemma_moves_in_order(state, next);
    if exists|from: int, text: Seq<char>| #[trigger]
        state.updated(from, text) == Ok::<PeerModel, SignError>(next) {
        let (from, text) = choose|from: int, text: Seq<char>| #[trigger]
            state.updated(from, text) == Ok::<PeerModel, SignError>(next);
        assert(next.peer_id == state.peer_id);
        assert(next.public_key == state.public_key);
    }
}

/// Payloads of different peers can be taken in in either order: the state
/// that results is the same.
pub proof fn lemma_updates_commute(
    state: PeerModel,
    a: int,
    x: Seq<char>,
    b: int,
    y: Seq<char>,
)
    requires
        a != b,
        state.updated(a, x) is Ok,
        state.updated(b, y) is Ok,
    ensures
        state.updated(a, x).unwrap().updated(b, y) is Ok,
        state.updated(a, x).unwrap().updated(b, y) == state.updated(b, y).unwrap().updated(a, x),
{
    let round = state.round;
    let bx = decoded(x).unwrap().1;
    let by = decoded(y).unwrap().1;
    lemma_inserted_commutes(state.gathered(round), state.capacity, a, bx, b, by);
    let sa = state.updated(a, x).unwrap();
    let sb = state.updated(b, y).unwrap();
    assert(sa.gathered(round) == state.gathered(round).insert(a, bx));
    assert(sb.gathered(round) == state.gathered(round).insert(b, by));
    assert(sa.updated(b, y).unwrap() =~= sb.updated(a, x).unwrap());
}

/// The keys that two peers of one session hand to the aggregation are the
/// same list in the same order once both have gathered the same public keys,
/// whichever of the peers asks and in whatever order the keys arrived.
pub proof fn lemma_same_keys_same_order(one: PeerModel, other: PeerModel)
    requires
        one.capacity == other.capacity,
        one.public_keys == other.public_keys,
    ensures
        one.sign_request()->Sign_public_keys == other.sign_request()->Sign_public_keys,
        one.verify_request()->Verify_public_keys == other.verify_request()->Verify_public_keys,
        one.sign_request()->Sign_public_keys == one.verify_request()->Verify_public_keys,
        forall|id: int|
            1 <= id <= one.capacity ==> one.sign_request()->Sign_public_keys[id - 1]
                == one.public_keys[id],
{
}

} // verus!
