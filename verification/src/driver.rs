//! The round loop: it keeps what polls bring until a round's messages are
//! complete, hands them to the session, and bounds the attempts of a round.
//! The host performs each action and reports back what came of it.

use crate::accumulator::{entries_within, lemma_quorum_covers, Accumulator, PeerId};
use crate::action::{Action, Command};
use crate::driver_model::{
    fed, lemma_commanded_wf, lemma_fed_wf, lemma_on_outcome_wf, lemma_on_poll_wf,
    lemma_on_response_wf, lemma_proceeding_wf, lemma_stored_within, stored, stored_all, Buckets,
    DriverModel, MAX_RETRY, RETRY_TIMEOUT, ROUNDS,
};
use crate::error::SignError;
use crate::message::{copy_ids, RelayMessage, RelayModel, ServerMessage, ServerMessageKind};
use crate::payload::{decode, PayloadKind};
use crate::peer_model::DONE;
use crate::procedure::{Outcome, Procedure, Progress};
use crate::session::Session;
use crate::session_model::{lemma_destinations, lemma_on_relay_wf};
use vstd::prelude::*;

verus! {

/// The messages that arrived, kept by round and sender.
#[derive(Debug)]
pub struct MessageStore {
    public_keys: Accumulator,
    commitments: Accumulator,
    openings: Accumulator,
    signatures: Accumulator,
}

impl View for MessageStore {
    type V = Buckets;

    closed spec fn view(&self) -> Buckets {
        seq![self.public_keys@, self.commitments@, self.openings@, self.signatures@]
    }
}

impl MessageStore {
    /// The number of peers in the session.
    pub closed spec fn capacity(&self) -> nat {
        self.public_keys.capacity()
    }

    /// The four buckets are sound and sized alike.
    pub closed spec fn inv(&self) -> bool {
        &&& self.public_keys.wf()
        &&& self.commitments.wf()
        &&& self.openings.wf()
        &&& self.signatures.wf()
        &&& self.commitments.capacity() == self.public_keys.capacity()
        &&& self.openings.capacity() == self.public_keys.capacity()
        &&& self.signatures.capacity() == self.public_keys.capacity()
    }

    /// Well-formedness: four buckets, each within the session.
    pub open spec fn wf(&self) -> bool {
        &&& self.inv()
        &&& self@.len() == ROUNDS
        &&& forall|r: int| 0 <= r < ROUNDS ==> entries_within(#[trigger] self@[r], self.capacity())
    }

    /// An empty store for a session of `capacity` peers.
    pub fn new(capacity: u32) -> (store: MessageStore)
        ensures
            store.wf(),
            store.capacity() == capacity,
            store@ == Seq::new(ROUNDS as nat, |r: int| Map::<int, Seq<char>>::empty()),
    {
        let store = MessageStore {
            public_keys: Accumulator::new(capacity),
            commitments: Accumulator::new(capacity),
            openings: Accumulator::new(capacity),
            signatures: Accumulator::new(capacity),
        };
        assert(store@ =~= Seq::new(ROUNDS as nat, |r: int| Map::<int, Seq<char>>::empty()));
        store
    }

    /// The bucket of round `round`.
    fn bucket(&self, round: u32) -> (bucket: &Accumulator)
        requires
            self.wf(),
            round < ROUNDS,
        ensures
            bucket.wf(),
            bucket.capacity() == self.capacity(),
            bucket@ == self@[round as int],
    {
        if round == 0 {
            &self.public_keys
        } else if round == 1 {
            &self.commitments
        } else if round == 2 {
            &self.openings
        } else {
            &self.signatures
        }
    }

    /// The number of messages kept for round `round`; none for a round
    /// that the protocol does not have.
    pub fn count(&self, round: u32) -> (count: usize)
        requires
            self.wf(),
        ensures
            count == if round < ROUNDS {
                self@[round as int].len()
            } else {
                0
            },
    {
        if round < ROUNDS {
            self.bucket(round).len()
        } else {
            0
        }
    }

    /// Keeps the payload `text` of peer `from` for the round that its tag
    /// names. Fails, and changes nothing, where the text does not decode,
    /// `from` is no peer of the session, or another text of `from` is kept
    /// for that round.
    pub fn put(&mut self, from: PeerId, text: &str) -> (res: Result<(), SignError>)
        requires
            old(self).wf(),
        ensures
            final(self).wf(),
            final(self).capacity() == old(self).capacity(),
            match stored(old(self)@, old(self).capacity(), from as int, text@) {
                Ok(buckets) => res is Ok && final(self)@ == buckets,
                Err(e) => res == Err::<(), SignError>(e) && final(self)@ == old(self)@,
            },
    {
        let kind = match decode(text) {
            Ok(payload) => payload.kind,
            Err(e) => {
                return Err(e);
            },
        };
        proof {
            if stored(self@, self.capacity(), from as int, text@) is Ok {
                lemma_stored_within(self@, self.capacity(), from as int, text@);
            }
        }
        let kept = String::from_str(text);
        let res = match kind {
            PayloadKind::PublicKey => self.public_keys.insert(from, kept),
            PayloadKind::Commitment => self.commitments.insert(from, kept),
            PayloadKind::Nonce => self.openings.insert(from, kept),
            PayloadKind::Signature => self.signatures.insert(from, kept),
        };
        proof {
            if res is Ok {
                assert(self@ =~= stored(old(self)@, old(self).capacity(), from as int, text@).unwrap());
            } else {
                assert(self@ =~= old(self)@);
            }
        }
        res
    }
}

/// The relay messages of `messages` as mathematical values.
pub open spec fn relay_models(messages: Seq<RelayMessage>) -> Seq<RelayModel> {
    Seq::new(messages.len(), |i: int| messages[i]@)
}

/// The round loop of one session.
#[derive(Debug)]
pub struct RoundDriver {
    session: Session,
    store: MessageStore,
    attempts: u32,
    procedure: Option<Procedure>,
}

impl View for RoundDriver {
    type V = DriverModel;

    closed spec fn view(&self) -> DriverModel {
        DriverModel {
            session: self.session@,
            buckets: self.store@,
            attempts: self.attempts as nat,
            procedure: match self.procedure {
                Some(procedure) => Some(procedure@),
                None => None,
            },
        }
    }
}

impl RoundDriver {
    /// Session and store are sound and of one size.
    pub closed spec fn inv(&self) -> bool {
        &&& self.session.wf()
        &&& self.store.wf()
        &&& self.store.capacity() == self.session@.peer.capacity
    }

    /// Well-formedness: the round loop's invariant holds.
    pub open spec fn wf(&self) -> bool {
        &&& self.inv()
        &&& self@.wf()
    }

    /// A round loop around `session`, with nothing kept and no attempt made.
    pub fn new(session: Session) -> (driver: RoundDriver)
        requires
            session.wf(),
        ensures
            driver.wf(),
            driver@ == DriverModel::fresh(session@),
    {
        let capacity = session.peer().capacity();
        RoundDriver { session, store: MessageStore::new(capacity), attempts: 0, procedure: None }
    }

    /// The session.
    pub fn session(&self) -> (session: &Session)
        requires
            self.wf(),
        ensures
            session.wf(),
            session@ == self@.session,
    {
        &self.session
    }

    /// The attempts made in the current round.
    pub fn attempts(&self) -> (attempts: u32)
        ensures
            attempts == self@.attempts,
    {
        self.attempts
    }

    /// The number of messages kept for round `round`; none for a round
    /// that the protocol does not have.
    pub fn stored_messages(&self, round: u32) -> (count: usize)
        requires
            self.wf(),
        ensures
            count == if round < ROUNDS {
                self@.buckets[round as int].len()
            } else {
                0
            },
    {
        self.store.count(round)
    }

    /// Whether cryptographic work is in progress.
    pub fn is_computing(&self) -> (computing: bool)
        ensures
            computing == self@.procedure is Some,
    {
        self.procedure.is_some()
    }

    /// Starts the session: the request to join goes out at once.
    pub fn start(&mut self) -> (command: Command)
        requires
            old(self).wf(),
        ensures
            final(self).wf(),
            final(self)@ == old(self)@.started().0,
            command@ == old(self)@.started().1,
    {
        let message = self.session.generate_register_message();
        Command::Send { delay: 0, message }
    }

    /// One more attempt of the current round, or `RoundTimeout`.
    fn poll(&mut self) -> (res: Result<Command, SignError>)
        requires
            old(self).wf(),
        ensures
            final(self).wf(),
            final(self)@ == old(self)@.polling().0,
            match old(self)@.polling().1 {
                Ok(command) => res is Ok && res.unwrap()@ == command,
                Err(e) => res == Err::<Command, SignError>(e),
            },
    {
        if self.attempts >= MAX_RETRY {
            return Err(SignError::RoundTimeout);
        }
        let delay = if self.attempts == 0 {
            0
        } else {
            RETRY_TIMEOUT
        };
        self.attempts = self.attempts + 1;
        Ok(Command::Poll { delay })
    }

    /// Carries out what the session asks for.
    fn command(&mut self, action: Action) -> (res: Result<Command, SignError>)
        requires
            old(self).wf(),
        ensures
            final(self).wf(),
            final(self)@ == old(self)@.commanded(action@).0,
            match old(self)@.commanded(action@).1 {
                Ok(command) => res is Ok && res.unwrap()@ == command,
                Err(e) => res == Err::<Command, SignError>(e),
            },
    {
        proof {
            lemma_commanded_wf(self@, action@);
        }
        match action {
            Action::Idle => self.poll(),
            Action::Send { delay, message } => Ok(Command::Send { delay, message }),
            Action::Compute(request) => match Procedure::begin(request) {
                Err(e) => Err(e),
                Ok(procedure) => {
                    let operation = procedure.operation();
                    self.procedure = Some(procedure);
                    Ok(Command::Perform(operation))
                },
            },
            Action::Finished => Ok(Command::Finished),
        }
    }

    /// Delivers the kept messages of round `round` to the session: this
    /// peer's own first, then those of the other peers by increasing index,
    /// up to the first that has a consequence.
    fn feed(&mut self, round: u32, own: PeerId) -> (res: Result<Action, SignError>)
        requires
            old(self).wf(),
            old(self)@.round_arrived(),
            round == old(self)@.session.peer.round,
            old(self)@.session.peer.peer_id == Some(own as int),
        ensures
            final(self).inv(),
            final(self)@.session.wf(),
            final(self)@.session == fed(
                old(self)@.session,
                old(self)@.buckets[round as int],
                old(self)@.feeding_order(),
            ).0,
            final(self)@.buckets == old(self)@.buckets,
            final(self)@.attempts == old(self)@.attempts,
            final(self)@.procedure == old(self)@.procedure,
            match fed(
                old(self)@.session,
                old(self)@.buckets[round as int],
                old(self)@.feeding_order(),
            ).1 {
                Ok(action) => res is Ok && res.unwrap()@ == action,
                Err(e) => res == Err::<Action, SignError>(e),
            },
    {
        let ghost bucket = self@.buckets[round as int];
        let ghost order = self@.feeding_order();
        let ghost capacity = self@.session.peer.capacity;
        let others = copy_ids(self.session.destinations());
        proof {
            lemma_quorum_covers(bucket, capacity);
            lemma_destinations(capacity, own as int);
            lemma_fed_wf(self@.session, bucket, order);
            assert(order.drop_first() =~= others@);
            assert forall|j: int| 0 <= j < others.len() implies bucket.contains_key(
                others[j] as int,
            ) by {
                assert(others@.contains(others[j]));
            }
        }
        let text = self.store.bucket(round).get(own).unwrap();
        match self.session.deliver(own, text.as_str()) {
            Err(e) => {
                return Err(e);
            },
            Ok(action) => {
                if !is_idle(&action) {
                    return Ok(action);
                }
            },
        }
        proof {
            lemma_on_relay_wf(old(self)@.session, own as int, bucket[own as int]);
            assert(order[0] == own);
            assert(others@.subrange(0, others.len() as int) =~= others@);
        }
        let mut i: usize = 0;
        while i < others.len()
            invariant
                i <= others.len(),
                round < ROUNDS,
                self.inv(),
                self@.session.wf(),
                self@.session.peer.capacity == capacity,
                self@.buckets == old(self)@.buckets,
                self@.attempts == old(self)@.attempts,
                self@.procedure == old(self)@.procedure,
                bucket == old(self)@.buckets[round as int],
                order == old(self)@.feeding_order(),
                forall|j: int| 0 <= j < others.len() ==> bucket.contains_key(others[j] as int),
                fed(old(self)@.session, bucket, order) == fed(
                    self@.session,
                    bucket,
                    others@.subrange(i as int, others.len() as int),
                ),
            decreases others.len() - i,
        {
            let ghost rest = others@.subrange(i as int, others.len() as int);
            let ghost before = self@.session;
            let id = others[i];
            assert(rest[0] == id);
            assert(rest.drop_first() =~= others@.subrange(i + 1, others.len() as int));
            let text = self.store.bucket(round).get(id).unwrap();
            match self.session.deliver(id, text.as_str()) {
                Err(e) => {
                    return Err(e);
                },
                Ok(action) => {
                    proof {
                        lemma_on_relay_wf(before, id as int, bucket[id as int]);
                    }
                    if !is_idle(&action) {
                        return Ok(action);
                    }
                },
            }
            i += 1;
        }
        Ok(Action::Idle)
    }

    /// Decides what is to be done now: verify after the last round, hand a
    /// complete round to the session, or poll again.
    fn proceed(&mut self) -> (res: Result<Command, SignError>)
        requires
            old(self).wf(),
        ensures
            final(self).wf(),
            final(self)@ == old(self)@.proceeding().0,
            match old(self)@.proceeding().1 {
                Ok(command) => res is Ok && res.unwrap()@ == command,
                Err(e) => res == Err::<Command, SignError>(e),
            },
    {
        proof {
            lemma_proceeding_wf(self@);
        }
        let round = self.session.peer().current_round();
        if round >= DONE {
            let request = self.session.peer().finalize_request();
            assert(self@.session.peer.gathered(3) == self@.session.peer.signatures);
            return self.command(Action::Compute(request.unwrap()));
        }
        let own = match self.session.peer().peer_id() {
            Some(own) => own,
            None => {
                return self.poll();
            },
        };
        if !self.store.bucket(round).is_full() {
            return self.poll();
        }
        match self.feed(round, own) {
            Err(e) => Err(e),
            Ok(action) => {
                self.attempts = 0;
                self.command(action)
            },
        }
    }

    /// Takes the relay's response to a message that was sent. A payload of
    /// another peer is kept for its round; a registration sends the first
    /// payload; a request to try again repeats the last message and counts
    /// as an attempt of the round. Where nothing is to be sent, the round
    /// loop proceeds as after a poll.
    pub fn on_response(&mut self, message: ServerMessage) -> (res: Result<Command, SignError>)
        requires
            old(self).wf(),
        ensures
            final(self).wf(),
            final(self)@ == old(self)@.on_response(message@).0,
            match old(self)@.on_response(message@).1 {
                Ok(command) => res is Ok && res.unwrap()@ == command,
                Err(e) => res == Err::<Command, SignError>(e),
            },
    {
        proof {
            lemma_on_response_wf(self@, message@);
        }
        if message.kind() == ServerMessageKind::RelayMessage {
            let relayed = message.relay_message.unwrap();
            return match self.store.put(relayed.from, relayed.body.as_str()) {
                Err(e) => Err(e),
                Ok(()) => self.proceed(),
            };
        }
        let registered = self.session.peer().peer_id().is_some();
        match self.session.generate_client_answer(message) {
            Err(e) => Err(e),
            Ok(action) => {
                if is_idle(&action) {
                    self.proceed()
                } else if registered != self.session.peer().peer_id().is_some() {
                    self.attempts = 0;
                    self.command(action)
                } else if self.attempts >= MAX_RETRY {
                    Err(SignError::RoundTimeout)
                } else {
                    self.attempts = self.attempts + 1;
                    self.command(action)
                }
            },
        }
    }

    /// Takes the messages that a poll brought: each is kept for its round,
    /// up to the first that is rejected. Then a round whose messages are
    /// all there is handed to the session; otherwise the relay is polled
    /// again, or the round fails with `RoundTimeout` after `MAX_RETRY`
    /// attempts.
    pub fn on_poll(&mut self, messages: &Vec<RelayMessage>) -> (res: Result<Command, SignError>)
        requires
            old(self).wf(),
        ensures
            final(self).wf(),
            final(self)@ == old(self)@.on_poll(relay_models(messages@)).0,
            match old(self)@.on_poll(relay_models(messages@)).1 {
                Ok(command) => res is Ok && res.unwrap()@ == command,
                Err(e) => res == Err::<Command, SignError>(e),
            },
    {
        let ghost models = relay_models(messages@);
        let ghost capacity = self@.session.peer.capacity;
        proof {
            lemma_on_poll_wf(self@, models);
            assert(models.subrange(0, models.len() as int) =~= models);
        }
        let mut i: usize = 0;
        while i < messages.len()
            invariant
                i <= messages.len(),
                self.wf(),
                models == relay_models(messages@),
                capacity == self@.session.peer.capacity,
                self@.session == old(self)@.session,
                self@.attempts == old(self)@.attempts,
                self@.procedure == old(self)@.procedure,
                stored_all(old(self)@.buckets, capacity, models) == stored_all(
                    self@.buckets,
                    capacity,
                    models.subrange(i as int, models.len() as int),
                ),
            decreases messages.len() - i,
        {
            let ghost rest = models.subrange(i as int, models.len() as int);
            assert(rest[0] == messages[i as int]@);
            assert(rest.drop_first() =~= models.subrange(i + 1, models.len() as int));
            match self.store.put(messages[i].from, messages[i].body.as_str()) {
                Err(e) => {
                    return Err(e);
                },
                Ok(()) => {},
            }
            i += 1;
        }
        self.proceed()
    }

    /// Takes what the operation that was due returned. The procedure names
    /// the next operation, or it is complete: then the session takes up its
    /// result, and the payload of the next round goes out or the session is
    /// over. Fails with `NotRequested` where no operation was due or another
    /// one was, and with `CommitmentMismatch` on an opening that does not
    /// match; a failure ends the work in progress.
    pub fn on_outcome(&mut self, outcome: Outcome) -> (res: Result<Command, SignError>)
        requires
            old(self).wf(),
        ensures
            final(self).wf(),
            final(self)@ == old(self)@.on_outcome(outcome@).0,
            match old(self)@.on_outcome(outcome@).1 {
                Ok(command) => res is Ok && res.unwrap()@ == command,
                Err(e) => res == Err::<Command, SignError>(e),
            },
    {
        proof {
            lemma_on_outcome_wf(self@, outcome@);
        }
        let procedure = match self.procedure.take() {
            Some(procedure) => procedure,
            None => {
                return Err(SignError::NotRequested);
            },
        };
        match procedure.advance(outcome) {
            Err(e) => Err(e),
            Ok(Progress::Next(next)) => {
                let operation = next.operation();
                self.procedure = Some(next);
                Ok(Command::Perform(operation))
            },
            Ok(Progress::Complete(result)) => match self.session.handle_crypto_result(result) {
                Err(e) => Err(e),
                Ok(action) => {
                    self.attempts = 0;
                    self.command(action)
                },
            },
        }
    }
}

/// Whether `action` asks for nothing.
fn is_idle(action: &Action) -> (idle: bool)
    ensures
        idle == (action@ is Idle),
{
    match action {
        Action::Idle => true,
        _ => false,
    }
}

} // verus!
