//! The peer state machine: it gathers the contributions of each round and
//! produces this peer's own payload for the next.

use crate::accumulator::{is_quorum, Accumulator, PeerId};
use crate::error::SignError;
use crate::payload::{decode, encode, PayloadKind};
use crate::peer_model::{
    lemma_committed_wf, lemma_registered_wf, lemma_signed_wf, lemma_stepped_wf, lemma_updated_wf,
    PeerModel, StepModel, DONE,
};
use crate::request::CryptoRequest;
use vstd::prelude::*;

verus! {

/// What a step of the peer yields.
#[derive(Debug, PartialEq, Eq)]
pub enum Step {
    /// The current round still lacks contributions, or all rounds are over.
    Waiting,
    /// The next round began with this payload to send.
    Emit(String),
    /// The last round is complete; nothing is left to send.
    Finished,
    /// The round is complete, and the next begins once this work is done.
    Needs(CryptoRequest),
}

impl View for Step {
    type V = StepModel;

    open spec fn view(&self) -> StepModel {
        match self {
            Step::Waiting => StepModel::Waiting,
            Step::Emit(text) => StepModel::Emit(text@),
            Step::Finished => StepModel::Finished,
            Step::Needs(request) => StepModel::Needs(request@),
        }
    }
}

/// One signer of a session.
#[derive(Debug)]
pub struct Peer {
    capacity: u32,
    message: Vec<u8>,
    keypair: String,
    public_key: String,
    peer_id: Option<PeerId>,
    round: u32,
    public_keys: Accumulator,
    commitments: Accumulator,
    openings: Accumulator,
    signatures: Accumulator,
    ephemeral: Option<String>,
}

impl View for Peer {
    type V = PeerModel;

    closed spec fn view(&self) -> PeerModel {
        PeerModel {
            capacity: self.capacity as nat,
            message: self.message@,
            keypair: self.keypair@,
            public_key: self.public_key@,
            peer_id: match self.peer_id {
                Some(id) => Some(id as int),
                None => None,
            },
            round: self.round as nat,
            public_keys: self.public_keys@,
            commitments: self.commitments@,
            openings: self.openings@,
            signatures: self.signatures@,
            ephemeral: match self.ephemeral {
                Some(key) => Some(key@),
                None => None,
            },
        }
    }
}

/// A copy of `bytes`.
fn copy_bytes(bytes: &Vec<u8>) -> (copy: Vec<u8>)
    ensures
        copy@ == bytes@,
{
    let copy = bytes.clone();
    assert(copy@ =~= bytes@);
    copy
}

/// Whether every flag is set.
fn all_true(flags: &Vec<bool>) -> (all: bool)
    ensures
        all == (forall|j: int| 0 <= j < flags.len() ==> flags[j]),
{
    let mut j: usize = 0;
    while j < flags.len()
        invariant
            j <= flags.len(),
            forall|i: int| 0 <= i < j ==> flags[i],
        decreases flags.len() - j,
    {
        if !flags[j] {
            return false;
        }
        j += 1;
    }
    true
}

impl Peer {
    /// The four accumulators are sound and sized for this session.
    pub closed spec fn inv(&self) -> bool {
        &&& self.public_keys.wf()
        &&& self.commitments.wf()
        &&& self.openings.wf()
        &&& self.signatures.wf()
        &&& self.public_keys.capacity() == self.capacity
        &&& self.commitments.capacity() == self.capacity
        &&& self.openings.capacity() == self.capacity
        &&& self.signatures.capacity() == self.capacity
    }

    /// Well-formedness: the protocol's invariant holds of this peer.
    pub open spec fn wf(&self) -> bool {
        &&& self.inv()
        &&& self@.wf()
    }

    /// A peer of a session of `capacity` signers that will sign `message`
    /// with `keypair`, whose public half is `public_key`. It is in round 0
    /// and not registered.
    pub fn new(capacity: u32, message: Vec<u8>, keypair: String, public_key: String) -> (peer: Peer)
        ensures
            peer.wf(),
            peer@ == PeerModel::fresh(capacity as nat, message@, keypair@, public_key@),
    {
        Peer {
            capacity,
            message,
            keypair,
            public_key,
            peer_id: None,
            round: 0,
            public_keys: Accumulator::new(capacity),
            commitments: Accumulator::new(capacity),
            openings: Accumulator::new(capacity),
            signatures: Accumulator::new(capacity),
            ephemeral: None,
        }
    }

    /// The number of signers.
    pub fn capacity(&self) -> (capacity: u32)
        ensures
            capacity == self@.capacity,
    {
        self.capacity
    }

    /// The current round, 4 when all rounds are complete.
    pub fn current_round(&self) -> (round: u32)
        ensures
            round == self@.round,
    {
        self.round
    }

    /// The index that the relay assigned, once it has.
    pub fn peer_id(&self) -> (id: Option<PeerId>)
        ensures
            match id {
                Some(id) => self@.peer_id == Some(id as int),
                None => self@.peer_id is None,
            },
    {
        self.peer_id
    }

    /// The kind of payload that the peer takes in now.
    pub fn expected_kind(&self) -> (kind: Option<PayloadKind>)
        ensures
            kind == self@.expected(),
    {
        if self.peer_id.is_none() {
            None
        } else {
            PayloadKind::for_round(self.round)
        }
    }

    /// What round `round` has gathered. Rounds past the last have no
    /// accumulator of their own; they read that of the last.
    fn accumulator(&self, round: u32) -> (acc: &Accumulator)
        requires
            self.wf(),
        ensures
            acc.wf(),
            acc.capacity() == self@.capacity,
            acc@ == self@.gathered(round as nat),
    {
        if round == 0 {
            &self.public_keys
        } else if round == 1 {
            &self.commitments
        } else if round == 2 {
            &self.openings
        } else {
            &self.signatures
        }
    }

    /// What peer `id` contributed to the round that gathers `kind`, if anything.
    pub fn contribution(&self, kind: PayloadKind, id: PeerId) -> (body: Option<String>)
        requires
            self.wf(),
        ensures
            body is Some <==> self@.gathered(kind.round()).contains_key(id as int),
            body is Some ==> body.unwrap()@ == self@.gathered(kind.round())[id as int],
    {
        match self.accumulator(kind.round_index()).get(id) {
            Some(body) => Some(body.clone()),
            None => None,
        }
    }

    /// Whether the current round has a contribution of every peer.
    pub fn is_step_done(&self) -> (ready: bool)
        requires
            self.wf(),
        ensures
            ready == self@.ready(),
    {
        self.peer_id.is_some() && self.round < DONE && self.accumulator(self.round).is_full()
    }

    /// Whether every partial signature has arrived.
    pub fn is_done(&self) -> (done: bool)
        requires
            self.wf(),
        ensures
            done == self@.done(),
    {
        self.signatures.is_full()
    }

    /// Binds the index that the relay assigned and returns the first payload,
    /// the peer's public key. Fails with `AlreadyRegistered` on any later
    /// call, and with `PeerOutOfRange` for an index outside `1..=capacity`.
    pub fn zero_step(&mut self, peer_id: PeerId) -> (res: Result<String, SignError>)
        requires
            old(self).wf(),
        ensures
            final(self).wf(),
            match old(self)@.registered(peer_id as int) {
                Ok((next, text)) => res is Ok && res.unwrap()@ == text && final(self)@ == next,
                Err(e) => res == Err::<String, SignError>(e) && final(self)@ == old(self)@,
            },
    {
        if self.peer_id.is_some() {
            return Err(SignError::AlreadyRegistered);
        }
        if peer_id == 0 || peer_id > self.capacity {
            return Err(SignError::PeerOutOfRange);
        }
        proof {
            lemma_registered_wf(self@, peer_id as int);
        }
        let inserted = self.public_keys.insert(peer_id, self.public_key.clone());
        assert(inserted is Ok);
        self.peer_id = Some(peer_id);
        Ok(encode(PayloadKind::PublicKey, self.public_key.as_str()))
    }

    /// Takes in the payload `text` that peer `from` sent. Fails with
    /// `MalformedPayload` where the text does not decode, `UnexpectedPayload`
    /// where its tag is not that of the current round, `PeerOutOfRange` where
    /// `from` is no peer of the session, and `InconsistentPayload` where
    /// `from` contributed another value to this round before. A failure
    /// leaves the peer as it was.
    pub fn update_data(&mut self, from: PeerId, text: &str) -> (res: Result<(), SignError>)
        requires
            old(self).wf(),
        ensures
            final(self).wf(),
            match old(self)@.updated(from as int, text@) {
                Ok(next) => res is Ok && final(self)@ == next,
                Err(e) => res == Err::<(), SignError>(e) && final(self)@ == old(self)@,
            },
    {
        let payload = match decode(text) {
            Ok(payload) => payload,
            Err(e) => {
                return Err(e);
            },
        };
        match self.expected_kind() {
            Some(kind) => {
                if kind != payload.kind {
                    return Err(SignError::UnexpectedPayload);
                }
            },
            None => {
                return Err(SignError::UnexpectedPayload);
            },
        }
        proof {
            if old(self)@.updated(from as int, text@) is Ok {
                lemma_updated_wf(self@, from as int, text@);
            }
        }
        match payload.kind {
            PayloadKind::PublicKey => self.public_keys.insert(from, payload.body),
            PayloadKind::Commitment => self.commitments.insert(from, payload.body),
            PayloadKind::Nonce => self.openings.insert(from, payload.body),
            PayloadKind::Signature => self.signatures.insert(from, payload.body),
        }
    }

    /// The work that ends round 2, with every list arranged by peer index.
    fn sign_request(&self) -> (request: CryptoRequest)
        requires
            self.wf(),
            self@.ready(),
            self@.round == 2,
        ensures
            request@ == self@.sign_request(),
    {
        let id = self.peer_id.unwrap();
        assert(is_quorum(self@.gathered(0), self@.capacity));
        assert(is_quorum(self@.gathered(1), self@.capacity));
        let public_keys = self.public_keys.ordered().unwrap();
        let commitments = self.commitments.ordered().unwrap();
        let openings = self.openings.ordered().unwrap();
        let ephemeral = self.ephemeral.as_ref().unwrap().clone();
        CryptoRequest::Sign {
            keypair: self.keypair.clone(),
            message: copy_bytes(&self.message),
            ephemeral,
            index: (id - 1) as usize,
            public_keys,
            commitments,
            openings,
        }
    }

    /// Moves on where the current round is complete. From round 1 the peer
    /// goes to round 2 and emits its opening; from round 3 it goes to the
    /// final state and emits nothing. At the end of rounds 0 and 2 it asks
    /// for the work without which the next payload cannot be made, and stays
    /// in its round until `commit_step` or `sign_step` brings the result.
    pub fn do_step(&mut self) -> (step: Step)
        requires
            old(self).wf(),
        ensures
            final(self).wf(),
            final(self)@ == old(self)@.stepped().0,
            step@ == old(self)@.stepped().1,
            step is Waiting <==> !old(self)@.ready(),
    {
        if !self.is_step_done() {
            return Step::Waiting;
        }
        proof {
            lemma_stepped_wf(self@);
        }
        if self.round == 0 {
            Step::Needs(
                CryptoRequest::Commit {
                    keypair: self.keypair.clone(),
                    message: copy_bytes(&self.message),
                },
            )
        } else if self.round == 1 {
            let id = self.peer_id.unwrap();
            let text = encode(PayloadKind::Nonce, self.openings.get(id).unwrap().as_str());
            self.round = 2;
            Step::Emit(text)
        } else if self.round == 2 {
            Step::Needs(self.sign_request())
        } else {
            self.round = DONE;
            Step::Finished
        }
    }

    /// Ends round 0 with a fresh ephemeral key, the commitment to it and the
    /// opening of the commitment: the peer keeps the key, records commitment
    /// and opening as its own contributions to rounds 1 and 2, enters round 1
    /// and returns the commitment payload. Fails with `NotRequested`, and
    /// changes nothing, unless the peer is in round 0 with every public key.
    pub fn commit_step(&mut self, ephemeral: String, commitment: String, opening: String) -> (res:
        Result<String, SignError>)
        requires
            old(self).wf(),
        ensures
            final(self).wf(),
            match old(self)@.committed(ephemeral@, commitment@, opening@) {
                Ok((next, text)) => res is Ok && res.unwrap()@ == text && final(self)@ == next,
                Err(e) => res == Err::<String, SignError>(e) && final(self)@ == old(self)@,
            },
    {
        if !(self.is_step_done() && self.round == 0) {
            return Err(SignError::NotRequested);
        }
        proof {
            lemma_committed_wf(self@, ephemeral@, commitment@, opening@);
        }
        let id = self.peer_id.unwrap();
        let text = encode(PayloadKind::Commitment, commitment.as_str());
        let kept = self.commitments.insert(id, commitment);
        assert(kept is Ok);
        let kept = self.openings.insert(id, opening);
        assert(kept is Ok);
        self.ephemeral = Some(ephemeral);
        self.round = 1;
        Ok(text)
    }

    /// Ends round 2 with the outcome of the opening checks, one per peer in
    /// order of index, and this peer's partial signature. Fails with
    /// `NotRequested` unless the peer is in round 2 with every opening, and
    /// with `CommitmentMismatch` unless all `capacity` checks passed; a
    /// failure changes nothing and the signature is dropped. Otherwise the
    /// peer enters round 3 and returns the signature payload.
    pub fn sign_step(&mut self, openings_match: &Vec<bool>, signature: &str) -> (res: Result<
        String,
        SignError,
    >)
        requires
            old(self).wf(),
        ensures
            final(self).wf(),
            match old(self)@.signed(openings_match@, signature@) {
                Ok((next, text)) => res is Ok && res.unwrap()@ == text && final(self)@ == next,
                Err(e) => res == Err::<String, SignError>(e) && final(self)@ == old(self)@,
            },
    {
        if !(self.is_step_done() && self.round == 2) {
            return Err(SignError::NotRequested);
        }
        if openings_match.len() != self.capacity as usize || !all_true(openings_match) {
            return Err(SignError::CommitmentMismatch);
        }
        proof {
            lemma_signed_wf(self@, openings_match@, signature@);
        }
        self.round = 3;
        Ok(encode(PayloadKind::Signature, signature))
    }

    /// The work that closes the session: combining the partial signatures
    /// and verifying the result. Fails with `NotDone` while a partial
    /// signature is missing.
    pub fn finalize_request(&self) -> (res: Result<CryptoRequest, SignError>)
        requires
            self.wf(),
        ensures
            match res {
                Ok(request) => self@.done() && self@.peer_id is Some && request@
                    == self@.verify_request(),
                Err(e) => e == SignError::NotDone && !(self@.done() && self@.peer_id is Some),
            },
    {
        let id = match self.peer_id {
            Some(id) => id,
            None => {
                return Err(SignError::NotDone);
            },
        };
        let signatures = match self.signatures.ordered() {
            Some(signatures) => signatures,
            None => {
                return Err(SignError::NotDone);
            },
        };
        assert(self@.round >= 3);
        assert(is_quorum(self@.gathered(0), self@.capacity));
        let public_keys = self.public_keys.ordered().unwrap();
        Ok(
            CryptoRequest::Verify {
                message: copy_bytes(&self.message),
                index: (id - 1) as usize,
                public_keys,
                signatures,
            },
        )
    }

    /// The verdict on the session, given whether the combined signature
    /// verifies under the aggregated key: `NotDone` while a partial signature
    /// is missing, `InvalidSignature` where it does not verify.
    pub fn finalize(&self, valid: bool) -> (res: Result<(), SignError>)
        requires
            self.wf(),
        ensures
            res == self@.finalized(valid),
    {
        if !self.is_done() {
            Err(SignError::NotDone)
        } else if !valid {
            Err(SignError::InvalidSignature)
        } else {
            Ok(())
        }
    }
}

} // verus!
