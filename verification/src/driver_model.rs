//! The round loop as a mathematical state machine: what is kept of the
//! messages that polls bring, when a round's messages are handed to the
//! session, and when a round is given up.

use crate::accumulator::{
    entries_within, inserted, is_quorum, lemma_inserted_grows, lemma_quorum_covers, Entries, PeerId,
};
use crate::action::{ActionModel, CommandModel};
use crate::error::SignError;
use crate::message::{RelayModel, ServerMessageKind, ServerModel};
use crate::payload::decoded;
use crate::peer_model::{lemma_updated_wf, DONE};
use crate::procedure::{
    lemma_begun_wf, lemma_procedure_advances, OutcomeModel, ProcedureModel, ProgressModel,
};
use crate::session_model::{
    lemma_destinations, lemma_on_message_wf, lemma_on_relay_wf, lemma_on_result_wf, SessionModel,
};
use vstd::prelude::*;

verus! {

/// The number of times that a round may ask the relay, by a poll or by a
/// repeated message, before it is given up. The count is inclusive: the
/// round fails when one more attempt would be the 513th.
pub const MAX_RETRY: u32 = 512;

/// The time, in milliseconds, between two polls of a round.
pub const RETRY_TIMEOUT: u64 = 200;

/// The number of rounds.
pub const ROUNDS: u32 = 4;

/// The messages kept for each of the four rounds: for each round, the
/// payload text of each sender.
pub type Buckets = Seq<Entries>;

/// The buckets with the payload `text` of peer `from` added to the round
/// that its tag names. A text that does not decode is rejected, and so are a
/// sender outside the session and a second, different text of one sender
/// for one round.
pub open spec fn stored(buckets: Buckets, capacity: nat, from: int, text: Seq<char>) -> Result<
    Buckets,
    SignError,
> {
    match decoded(text) {
        None => Err(SignError::MalformedPayload),
        Some((kind, body)) => match inserted(buckets[kind.round() as int], capacity, from, text) {
            Err(e) => Err(e),
            Ok(entries) => Ok(buckets.update(kind.round() as int, entries)),
        },
    }
}

/// The buckets after each of `messages` was stored in turn, up to the first
/// that is rejected, and the error of that one.
pub open spec fn stored_all(buckets: Buckets, capacity: nat, messages: Seq<RelayModel>) -> (
    Buckets,
    Result<(), SignError>,
)
    decreases messages.len(),
{
    if messages.len() == 0 {
        (buckets, Ok(()))
    } else {
        match stored(buckets, capacity, messages[0].from as int, messages[0].body) {
            Err(e) => (buckets, Err(e)),
            Ok(next) => stored_all(next, capacity, messages.drop_first()),
        }
    }
}

/// The session after the texts that `bucket` holds of the peers `senders`
/// were delivered in turn, up to the first that has a consequence: an error,
/// or an action other than `Idle`.
pub open spec fn fed(session: SessionModel, bucket: Entries, senders: Seq<PeerId>) -> (
    SessionModel,
    Result<ActionModel, SignError>,
)
    decreases senders.len(),
{
    if senders.len() == 0 {
        (session, Ok(ActionModel::Idle))
    } else {
        match session.on_relay(senders[0] as int, bucket[senders[0] as int]) {
            Err(e) => (session, Err(e)),
            Ok((next, action)) => if action is Idle {
                fed(next, bucket, senders.drop_first())
            } else {
                (next, Ok(action))
            },
        }
    }
}

/// Everything the round loop holds.
#[verifier::ext_equal]
pub struct DriverModel {
    /// The session.
    pub session: SessionModel,
    /// The messages that arrived, by round and sender.
    pub buckets: Buckets,
    /// The attempts made in the current round.
    pub attempts: nat,
    /// The cryptographic work in progress, if any.
    pub procedure: Option<ProcedureModel>,
}

impl DriverModel {
    /// A round loop around a session that has sent nothing yet.
    pub open spec fn fresh(session: SessionModel) -> DriverModel {
        DriverModel {
            session,
            buckets: Seq::new(ROUNDS as nat, |r: int| Entries::empty()),
            attempts: 0,
            procedure: None,
        }
    }

    /// What holds of a round loop at every moment.
    pub open spec fn wf(self) -> bool {
        &&& self.session.wf()
        &&& self.buckets.len() == ROUNDS
        &&& forall|r: int|
            0 <= r < ROUNDS ==> entries_within(#[trigger] self.buckets[r], self.session.peer.capacity)
        &&& self.attempts <= MAX_RETRY
        &&& self.procedure matches Some(procedure) ==> procedure.wf()
    }

    /// The order in which a round's messages are delivered: this peer's own
    /// first, then those of the other peers by increasing index. A peer that
    /// holds its own contribution before the round begins would, in any
    /// other order, complete the round before its own message is delivered,
    /// and then meet that message in the wrong round.
    pub open spec fn feeding_order(self) -> Seq<PeerId> {
        seq![self.session.peer.peer_id.unwrap() as PeerId] + self.session.destinations
    }

    /// Whether the messages of the current round are all there.
    pub open spec fn round_arrived(self) -> bool {
        &&& self.session.peer.peer_id is Some
        &&& self.session.peer.round < DONE
        &&& is_quorum(self.buckets[self.session.peer.round as int], self.session.peer.capacity)
    }

    /// One more attempt of the current round, if one is left: a poll, at
    /// once for the first attempt and after the retry timeout for the others.
    pub open spec fn polling(self) -> (DriverModel, Result<CommandModel, SignError>) {
        if self.attempts >= MAX_RETRY {
            (self, Err(SignError::RoundTimeout))
        } else {
            (
                DriverModel { attempts: self.attempts + 1, ..self },
                Ok(
                    CommandModel::Poll {
                        delay: if self.attempts == 0 {
                            0
                        } else {
                            RETRY_TIMEOUT
                        },
                    },
                ),
            )
        }
    }

    /// The command that carries out what the session asks for. A message
    /// is sent; cryptographic work begins as a procedure, whose first
    /// operation is to be performed; where the session asks for nothing, the
    /// relay is polled.
    pub open spec fn commanded(self, action: ActionModel) -> (
        DriverModel,
        Result<CommandModel, SignError>,
    ) {
        match action {
            ActionModel::Idle => self.polling(),
            ActionModel::Send { delay, message } => (self, Ok(CommandModel::Send { delay, message })),
            ActionModel::Compute(request) => match ProcedureModel::begun(request) {
                Err(e) => (self, Err(e)),
                Ok(procedure) => (
                    DriverModel { procedure: Some(procedure), ..self },
                    Ok(CommandModel::Perform(procedure.operation())),
                ),
            },
            ActionModel::Finished => (self, Ok(CommandModel::Finished)),
        }
    }

    /// What is to be done now. After the last round the combined signature
    /// is to be verified. A round whose messages have all arrived is handed
    /// to the session, and what the session makes of it is carried out (by
    /// `lemma_complete_round_moves` it never asks for nothing); the count of
    /// attempts starts anew. Otherwise the relay is polled again, unless the
    /// attempts of the round are used up.
    pub open spec fn proceeding(self) -> (DriverModel, Result<CommandModel, SignError>) {
        if self.session.peer.round >= DONE {
            self.commanded(ActionModel::Compute(self.session.peer.verify_request()))
        } else if self.round_arrived() {
            let (session, outcome) = fed(
                self.session,
                self.buckets[self.session.peer.round as int],
                self.feeding_order(),
            );
            let next = DriverModel { session, ..self };
            match outcome {
                Err(e) => (next, Err(e)),
                Ok(action) => DriverModel { attempts: 0, ..next }.commanded(action),
            }
        } else {
            self.polling()
        }
    }

    /// The start: the request to join the session goes out.
    pub open spec fn started(self) -> (DriverModel, CommandModel) {
        (
            DriverModel { session: self.session.started(), ..self },
            CommandModel::Send { delay: 0, message: self.session.register_message() },
        )
    }

    /// The relay answered a message that was sent. A payload of another
    /// peer is kept for its round. A registration starts the count of
    /// attempts anew and sends the first payload; a request to try again
    /// counts as an attempt and repeats the last message. Where nothing is
    /// to be sent, the round loop proceeds.
    pub open spec fn on_response(self, message: ServerModel) -> (
        DriverModel,
        Result<CommandModel, SignError>,
    ) {
        if message.kind() == ServerMessageKind::RelayMessage {
            match stored(
                self.buckets,
                self.session.peer.capacity,
                message.relay_message.unwrap().from as int,
                message.relay_message.unwrap().body,
            ) {
                Err(e) => (self, Err(e)),
                Ok(buckets) => DriverModel { buckets, ..self }.proceeding(),
            }
        } else {
            match self.session.on_message(message) {
                Err(e) => (self, Err(e)),
                Ok((session, action)) => {
                    let next = DriverModel { session, ..self };
                    if action is Idle {
                        next.proceeding()
                    } else if session.peer.peer_id != self.session.peer.peer_id {
                        DriverModel { attempts: 0, ..next }.commanded(action)
                    } else if self.attempts >= MAX_RETRY {
                        (self, Err(SignError::RoundTimeout))
                    } else {
                        DriverModel { attempts: self.attempts + 1, ..next }.commanded(action)
                    }
                },
            }
        }
    }

    /// A poll brought `messages`: each is kept for its round, and the round
    /// loop proceeds.
    pub open spec fn on_poll(self, messages: Seq<RelayModel>) -> (
        DriverModel,
        Result<CommandModel, SignError>,
    ) {
        let (buckets, outcome) = stored_all(self.buckets, self.session.peer.capacity, messages);
        let next = DriverModel { buckets, ..self };
        match outcome {
            Err(e) => (next, Err(e)),
            Ok(()) => next.proceeding(),
        }
    }

    /// The operation that was due returned `outcome`. The procedure takes
    /// it and names the next operation; once it is complete, the session
    /// takes up its result, the count of attempts starts anew, and what the
    /// session asks for is carried out. A failure ends the procedure.
    pub open spec fn on_outcome(self, outcome: OutcomeModel) -> (
        DriverModel,
        Result<CommandModel, SignError>,
    ) {
        match self.procedure {
            None => (self, Err(SignError::NotRequested)),
            Some(procedure) => {
                let idle = DriverModel { procedure: None, ..self };
                match procedure.advanced(outcome) {
                    Err(e) => (idle, Err(e)),
                    Ok(ProgressModel::Next(next)) => (
                        DriverModel { procedure: Some(next), ..self },
                        Ok(CommandModel::Perform(next.operation())),
                    ),
                    Ok(ProgressModel::Complete(result)) => match self.session.on_result(result) {
                        Err(e) => (idle, Err(e)),
                        Ok((session, action)) => DriverModel { session, attempts: 0, ..idle }.commanded(
                            action,
                        ),
                    },
                }
            },
        }
    }
}

/// Storing a message keeps the buckets within the session.
pub proof fn lemma_stored_within(buckets: Buckets, capacity: nat, from: int, text: Seq<char>)
    requires
        buckets.len() == ROUNDS,
        forall|r: int| 0 <= r < ROUNDS ==> entries_within(#[trigger] buckets[r], capacity),
        stored(buckets, capacity, from, text) is Ok,
    ensures
        stored(buckets, capacity, from, text).unwrap().len() == ROUNDS,
        forall|r: int|
            0 <= r < ROUNDS ==> entries_within(
                #[trigger] stored(buckets, capacity, from, text).unwrap()[r],
                capacity,
            ),
{
    let round = decoded(text).unwrap().0.round() as int;
    lemma_inserted_grows(buckets[round], capacity, from, text);
}

/// Storing messages keeps the buckets within the session, whether or not
/// one of them is rejected.
pub proof fn lemma_stored_all_within(buckets: Buckets, capacity: nat, messages: Seq<RelayModel>)
    requires
        buckets.len() == ROUNDS,
        forall|r: int| 0 <= r < ROUNDS ==> entries_within(#[trigger] buckets[r], capacity),
    ensures
        stored_all(buckets, capacity, messages).0.len() == ROUNDS,
        forall|r: int|
            0 <= r < ROUNDS ==> entries_within(
                #[trigger] stored_all(buckets, capacity, messages).0[r],
                capacity,
            ),
    decreases messages.len(),
{
    if messages.len() > 0 {
        let first = stored(buckets, capacity, messages[0].from as int, messages[0].body);
        if first is Ok {
            lemma_stored_within(buckets, capacity, messages[0].from as int, messages[0].body);
            lemma_stored_all_within(first.unwrap(), capacity, messages.drop_first());
        }
    }
}

/// Delivering messages keeps the session well-formed and in its session:
/// capacity and registration stay.
pub proof fn lemma_fed_wf(session: SessionModel, bucket: Entries, senders: Seq<PeerId>)
    requires
        session.wf(),
    ensures
        fed(session, bucket, senders).0.wf(),
        fed(session, bucket, senders).0.peer.capacity == session.peer.capacity,
    decreases senders.len(),
{
    if senders.len() > 0 {
        let first = session.on_relay(senders[0] as int, bucket[senders[0] as int]);
        if first is Ok {
            lemma_on_relay_wf(session, senders[0] as int, bucket[senders[0] as int]);
            if first.unwrap().1 is Idle {
                lemma_fed_wf(first.unwrap().0, bucket, senders.drop_first());
            }
        }
    }
}

/// Where delivering messages had no consequence, the peer is still in its
/// round, holds a contribution of every sender, and lacks one of some peer.
pub proof fn lemma_fed_idle(session: SessionModel, bucket: Entries, senders: Seq<PeerId>)
    requires
        session.wf(),
        session.peer.peer_id is Some,
        session.peer.round < DONE,
        fed(session, bucket, senders).1 == Ok::<ActionModel, SignError>(ActionModel::Idle),
    ensures
        fed(session, bucket, senders).0.peer.round == session.peer.round,
        fed(session, bucket, senders).0.peer.peer_id == session.peer.peer_id,
        forall|j: int|
            0 <= j < senders.len() ==> fed(session, bucket, senders).0.peer.gathered(
                session.peer.round,
            ).contains_key(#[trigger] senders[j] as int),
        senders.len() > 0 ==> !fed(session, bucket, senders).0.peer.ready(),
    decreases senders.len(),
{
    if senders.len() > 0 {
        let round = session.peer.round;
        let from = senders[0] as int;
        let text = bucket[from];
        let rest = senders.drop_first();
        let (next, action) = session.on_relay(from, text).unwrap();
        lemma_on_relay_wf(session, from, text);
        lemma_updated_wf(session.peer, from, text);
        let taken = session.peer.updated(from, text).unwrap();
        assert(taken.stepped().1 is Waiting);
        assert(next.peer == taken);
        assert(taken.gathered(round).contains_key(from));
        lemma_fed_idle(next, bucket, rest);
        let end = fed(session, bucket, senders).0;
        assert(end == fed(next, bucket, rest).0);
        lemma_fed_grows(next, bucket, rest);
        assert forall|j: int| 0 <= j < senders.len() implies end.peer.gathered(round).contains_key(
            #[trigger] senders[j] as int,
        ) by {
            if j > 0 {
                assert(rest[j - 1] == senders[j]);
            }
        }
    }
}

/// Delivering messages without consequence takes nothing away from what
/// the round has gathered.
pub proof fn lemma_fed_grows(session: SessionModel, bucket: Entries, senders: Seq<PeerId>)
    requires
        session.wf(),
        session.peer.round < DONE,
        fed(session, bucket, senders).1 == Ok::<ActionModel, SignError>(ActionModel::Idle),
    ensures
        fed(session, bucket, senders).0.peer.round == session.peer.round,
        session.peer.gathered(session.peer.round).submap_of(
            fed(session, bucket, senders).0.peer.gathered(session.peer.round),
        ),
    decreases senders.len(),
{
    if senders.len() > 0 {
        let from = senders[0] as int;
        let text = bucket[from];
        let (next, action) = session.on_relay(from, text).unwrap();
        lemma_on_relay_wf(session, from, text);
        lemma_updated_wf(session.peer, from, text);
        let taken = session.peer.updated(from, text).unwrap();
        assert(taken.stepped().1 is Waiting);
        assert(next.peer == taken);
        lemma_fed_grows(next, bucket, senders.drop_first());
        let round = session.peer.round;
        let before = session.peer.gathered(round);
        let end = fed(session, bucket, senders).0.peer.gathered(round);
        assert forall|id: int| before.contains_key(id) implies #[trigger] end.contains_key(id)
            && end[id] == before[id] by {
            assert(taken.gathered(round).contains_key(id));
        }
    }
}

/// A round whose messages are handed to the session in the feeding order
/// never ends without consequence: the session fails, sends the next
/// payload or asks for the work that comes first. With the peer's own
/// message first, the round is complete once the last message is in, and
/// not before a contribution of every peer was seen.
pub proof fn lemma_complete_round_moves(state: DriverModel)
    requires
        state.wf(),
        state.session.peer.peer_id is Some,
        state.session.peer.round < DONE,
    ensures
        fed(
            state.session,
            state.buckets[state.session.peer.round as int],
            state.feeding_order(),
        ).1 != Ok::<ActionModel, SignError>(ActionModel::Idle),
{
    let session = state.session;
    let round = session.peer.round;
    let bucket = state.buckets[round as int];
    let order = state.feeding_order();
    let own = session.peer.peer_id.unwrap();
    let capacity = session.peer.capacity;
    if fed(session, bucket, order).1 == Ok::<ActionModel, SignError>(ActionModel::Idle) {
        lemma_fed_idle(session, bucket, order);
        lemma_fed_wf(session, bucket, order);
        lemma_destinations(capacity, own);
        let end = fed(session, bucket, order).0.peer;
        assert forall|id: int| 1 <= id <= capacity implies end.gathered(round).contains_key(id) by {
            if id == own {
                assert(order[0] == own as PeerId);
            } else {
                let k = id as PeerId;
                assert(session.destinations.contains(k));
                let j = choose|j: int| 0 <= j < session.destinations.len() && session.destinations[j] == k;
                assert(order[j + 1] == k);
            }
        }
        lemma_quorum_covers(end.gathered(round), capacity);
        assert(end.ready());
    }
}

/// Carrying out an action keeps the round loop well-formed.
pub proof fn lemma_commanded_wf(state: DriverModel, action: ActionModel)
    requires
        state.wf(),
    ensures
        state.commanded(action).0.wf(),
{
    if let ActionModel::Compute(request) = action {
        if ProcedureModel::begun(request) is Ok {
            lemma_begun_wf(request);
        }
    }
}

/// Proceeding keeps the round loop well-formed.
pub proof fn lemma_proceeding_wf(state: DriverModel)
    requires
        state.wf(),
    ensures
        state.proceeding().0.wf(),
{
    if state.session.peer.round >= DONE {
        lemma_commanded_wf(state, ActionModel::Compute(state.session.peer.verify_request()));
    } else if state.round_arrived() {
        let bucket = state.buckets[state.session.peer.round as int];
        lemma_fed_wf(state.session, bucket, state.feeding_order());
        let (session, outcome) = fed(state.session, bucket, state.feeding_order());
        if outcome is Ok {
            lemma_commanded_wf(DriverModel { session, attempts: 0, ..state }, outcome.unwrap());
        }
    }
}

/// A response keeps the round loop well-formed.
pub proof fn lemma_on_response_wf(state: DriverModel, message: ServerModel)
    requires
        state.wf(),
    ensures
        state.on_response(message).0.wf(),
{
    if message.kind() == ServerMessageKind::RelayMessage {
        let from = message.relay_message.unwrap().from as int;
        let text = message.relay_message.unwrap().body;
        let capacity = state.session.peer.capacity;
        if stored(state.buckets, capacity, from, text) is Ok {
            lemma_stored_within(state.buckets, capacity, from, text);
            lemma_proceeding_wf(
                DriverModel { buckets: stored(state.buckets, capacity, from, text).unwrap(), ..state },
            );
        }
    } else if state.session.on_message(message) is Ok {
        lemma_on_message_wf(state.session, message);
        let (session, action) = state.session.on_message(message).unwrap();
        assert(session.peer.capacity == state.session.peer.capacity);
        let next = DriverModel { session, ..state };
        lemma_proceeding_wf(next);
        lemma_commanded_wf(DriverModel { attempts: 0, ..next }, action);
        if state.attempts < MAX_RETRY {
            lemma_commanded_wf(DriverModel { attempts: state.attempts + 1, ..next }, action);
        }
    }
}

/// A poll keeps the round loop well-formed.
pub proof fn lemma_on_poll_wf(state: DriverModel, messages: Seq<RelayModel>)
    requires
        state.wf(),
    ensures
        state.on_poll(messages).0.wf(),
{
    lemma_stored_all_within(state.buckets, state.session.peer.capacity, messages);
    let (buckets, outcome) = stored_all(state.buckets, state.session.peer.capacity, messages);
    lemma_proceeding_wf(DriverModel { buckets, ..state });
}

/// An outcome keeps the round loop well-formed.
pub proof fn lemma_on_outcome_wf(state: DriverModel, outcome: OutcomeModel)
    requires
        state.wf(),
    ensures
        state.on_outcome(outcome).0.wf(),
{
    if let Some(procedure) = state.procedure {
        if procedure.advanced(outcome) is Ok {
            lemma_procedure_advances(procedure, outcome);
            if let ProgressModel::Complete(result) = procedure.advanced(outcome).unwrap() {
                if state.session.on_result(result) is Ok {
                    lemma_on_result_wf(state.session, result);
                    let (session, action) = state.session.on_result(result).unwrap();
                    lemma_commanded_wf(
                        DriverModel { session, attempts: 0, procedure: None, ..state },
                        action,
                    );
                }
            }
        }
    }
}

/// A round is given up only when its attempts are used up, and never asks
/// for more than `MAX_RETRY` of them.
pub proof fn lemma_attempts_bounded(state: DriverModel)
    requires
        state.wf(),
    ensures
        state.polling().1 is Err <==> state.attempts == MAX_RETRY,
        state.polling().1 is Err ==> state.polling().1 == Err::<CommandModel, SignError>(
            SignError::RoundTimeout,
        ),
        state.polling().1 is Ok ==> state.polling().0.attempts == state.attempts + 1,
        state.polling().0.attempts <= MAX_RETRY,
{
}

} // verus!
