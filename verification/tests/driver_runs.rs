use mmpc_client::action::Command;
use mmpc_client::driver::RoundDriver;
use mmpc_client::error::SignError;
use mmpc_client::input::message_bytes;
use mmpc_client::message::{ClientMessage, RelayMessage, ServerMessage, ServerResponse};
use mmpc_client::procedure::{Operation, Outcome};
use mmpc_client::session::Session;

// A stand-in for the curve library: values are texts, a commitment is its
// opening in brackets, and every other value spells out what it was made of.

fn opening_of(keypair: &str) -> String {
    format!("R[{}]:blind[{}]", keypair, keypair)
}

fn commitment_to(opening: &str) -> String {
    format!("H({})", opening)
}

fn challenge_of(nonce: &str, key: &str, message: &[u8]) -> String {
    format!("k<{}|{}|{:?}>", nonce, key, message)
}

fn partial_signature(keypair: &str, ephemeral: &str, challenge: &str, weight: &str, nonce: &str) -> String {
    format!("s<{}|{}|{}|{}|{}>", keypair, ephemeral, challenge, weight, nonce)
}

/// The combined signature of the honest peers `1..=n` on `message`.
fn combined_signature(n: usize, message: &[u8]) -> String {
    let keys: Vec<String> = (1..=n).map(|j| format!("P{}", j)).collect();
    let openings: Vec<String> = (1..=n).map(|j| opening_of(&format!("sk{}", j))).collect();
    let key = keys.join("+");
    let nonce = openings.join("+");
    let challenge = challenge_of(&nonce, &key, message);
    let parts: Vec<String> = (1..=n)
        .map(|j| {
            let keypair = format!("sk{}", j);
            let ephemeral = format!("eph[{}]", keypair);
            partial_signature(&keypair, &ephemeral, &challenge, &format!("w{}", j - 1), &nonce)
        })
        .collect();
    parts.join("&")
}

fn perform(operation: &Operation) -> Outcome {
    match operation {
        Operation::CreateEphemeralAndCommit { keypair, .. } => {
            let opening = opening_of(keypair);
            Outcome::Committed {
                ephemeral: format!("eph[{}]", keypair),
                commitment: commitment_to(&opening),
                opening,
            }
        }
        Operation::TestCommit { opening, commitment } => {
            Outcome::Flag(commitment_to(opening) == *commitment)
        }
        Operation::AggregateKeys { public_keys, index } => Outcome::Aggregated {
            key: public_keys.join("+"),
            weight: format!("w{}", index),
        },
        Operation::CombineNonces { openings } => Outcome::Value(openings.join("+")),
        Operation::Challenge { nonce, aggregate_key, message } => {
            Outcome::Value(challenge_of(nonce, aggregate_key, message))
        }
        Operation::PartialSign { ephemeral, keypair, challenge, weight, nonce } => {
            Outcome::Value(partial_signature(keypair, ephemeral, challenge, weight, nonce))
        }
        Operation::CombineSignatures { signatures } => Outcome::Value(signatures.join("&")),
        Operation::Verify { signature, message, aggregate_key } => {
            let n = aggregate_key.split('+').count();
            let keys: Vec<String> = (1..=n).map(|j| format!("P{}", j)).collect();
            Outcome::Flag(*aggregate_key == keys.join("+") && *signature == combined_signature(n, message))
        }
    }
}

// A stand-in for the relay: it numbers the peers as they register, keeps
// every payload and hands all of them to whoever polls.

struct Relay {
    registered: u32,
    kept: Vec<RelayMessage>,
    refusals: Vec<(u32, u32)>,
    refused: Vec<ClientMessage>,
}

fn nothing() -> ServerMessage {
    ServerMessage { response: None, relay_message: None, abort: false }
}

impl Relay {
    fn new() -> Relay {
        Relay { registered: 0, kept: vec![], refusals: vec![], refused: vec![] }
    }

    /// The relay will answer the next `times` payloads of `peer` with `NOT_YOUR_TURN`.
    fn refuse(&mut self, peer: u32, times: u32) {
        self.refusals.push((peer, times));
    }

    fn send(&mut self, message: ClientMessage) -> ServerMessage {
        match message {
            ClientMessage::Register { .. } => {
                self.registered += 1;
                ServerMessage {
                    response: Some(ServerResponse::Register(self.registered)),
                    relay_message: None,
                    abort: false,
                }
            }
            ClientMessage::Relay(relayed) => {
                for entry in self.refusals.iter_mut() {
                    if entry.0 == relayed.from && entry.1 > 0 {
                        entry.1 -= 1;
                        self.refused.push(ClientMessage::Relay(relayed));
                        return ServerMessage {
                            response: Some(ServerResponse::ErrorResponse("NOT_YOUR_TURN".to_string())),
                            relay_message: None,
                            abort: false,
                        };
                    }
                }
                self.kept.push(relayed);
                nothing()
            }
        }
    }

    fn query(&self) -> Vec<RelayMessage> {
        self.kept.iter().map(|m| m.duplicate()).collect()
    }
}

fn driver_of(capacity: u32, index: u32, message: &str) -> RoundDriver {
    RoundDriver::new(Session::new(
        1,
        capacity,
        message_bytes(message),
        format!("sk{}", index),
        format!("P{}", index),
    ))
}

/// What became of one peer: how its run ended, the payloads it sent and how
/// often it polled.
struct Run {
    end: Result<(), SignError>,
    sent: Vec<String>,
    polls: u32,
    operations: u32,
    rounds: Vec<u32>,
}

/// Runs the peers in lockstep, one action each per turn, until all have ended.
fn run(mut drivers: Vec<RoundDriver>, relay: &mut Relay, tamper: fn(u32, Outcome) -> Outcome) -> Vec<Run> {
    let n = drivers.len();
    let mut pending: Vec<Option<Result<Command, SignError>>> =
        drivers.iter_mut().map(|d| Some(Ok(d.start()))).collect();
    let mut outcomes: Vec<Run> = (0..n)
        .map(|_| Run { end: Ok(()), sent: vec![], polls: 0, operations: 0, rounds: vec![0] })
        .collect();
    let mut turns = 0;
    while pending.iter().any(|p| p.is_some()) {
        turns += 1;
        assert!(turns < 10_000, "the run does not end");
        for k in 0..n {
            let action = match pending[k].take() {
                None => continue,
                Some(action) => action,
            };
            let next = match action {
                Err(e) => {
                    outcomes[k].end = Err(e);
                    None
                }
                Ok(Command::Finished) => None,
                Ok(Command::Send { message, .. }) => {
                    if let ClientMessage::Relay(relayed) = &message {
                        outcomes[k].sent.push(relayed.body.clone());
                    }
                    let response = relay.send(message);
                    Some(drivers[k].on_response(response))
                }
                Ok(Command::Poll { .. }) => {
                    outcomes[k].polls += 1;
                    let messages = relay.query();
                    Some(drivers[k].on_poll(&messages))
                }
                Ok(Command::Perform(operation)) => {
                    outcomes[k].operations += 1;
                    let outcome = tamper(k as u32 + 1, perform(&operation));
                    Some(drivers[k].on_outcome(outcome))
                }
            };
            let round = drivers[k].session().peer().current_round();
            if *outcomes[k].rounds.last().unwrap() != round {
                outcomes[k].rounds.push(round);
            }
            pending[k] = next;
        }
    }
    outcomes
}

fn honest(_peer: u32, outcome: Outcome) -> Outcome {
    outcome
}

fn payloads_of(index: u32, n: usize, message: &[u8]) -> Vec<String> {
    let keypair = format!("sk{}", index);
    let keys: Vec<String> = (1..=n).map(|j| format!("P{}", j)).collect();
    let openings: Vec<String> = (1..=n).map(|j| opening_of(&format!("sk{}", j))).collect();
    let nonce = openings.join("+");
    let challenge = challenge_of(&nonce, &keys.join("+"), message);
    let signature = partial_signature(
        &keypair,
        &format!("eph[{}]", keypair),
        &challenge,
        &format!("w{}", index - 1),
        &nonce,
    );
    vec![
        format!("pk|P{}", index),
        format!("commitment|{}", commitment_to(&opening_of(&keypair))),
        format!("R|{}", opening_of(&keypair)),
        format!("signature|{}", signature),
    ]
}

#[test]
fn two_peers_sign_a_hex_message() {
    let mut relay = Relay::new();
    let drivers = vec![driver_of(2, 1, "4f4d4552"), driver_of(2, 2, "4f4d4552")];
    let outcomes = run(drivers, &mut relay, honest);
    for (k, outcome) in outcomes.iter().enumerate() {
        assert_eq!(outcome.end, Ok(()));
        assert_eq!(outcome.sent, payloads_of(k as u32 + 1, 2, b"OMER"));
        assert_eq!(outcome.rounds, vec![0, 1, 2, 3, 4]);
    }
    // four payloads of each peer went through the relay, each to the other peer
    assert_eq!(relay.kept.len(), 8);
    for message in &relay.kept {
        assert_eq!(message.to, vec![3 - message.from]);
        assert_eq!(message.protocol, 1);
    }
}

#[test]
fn three_peers_sign_a_plain_message() {
    let mut relay = Relay::new();
    let drivers = vec![driver_of(3, 1, "hello"), driver_of(3, 2, "hello"), driver_of(3, 3, "hello")];
    let outcomes = run(drivers, &mut relay, honest);
    for (k, outcome) in outcomes.iter().enumerate() {
        assert_eq!(outcome.end, Ok(()));
        assert_eq!(
            outcome.sent,
            payloads_of(k as u32 + 1, 3, &[104, 101, 108, 108, 111])
        );
        assert_eq!(outcome.rounds, vec![0, 1, 2, 3, 4]);
    }
    assert_eq!(relay.kept.len(), 12);
}

#[test]
fn five_peers_agree_whatever_their_index() {
    let mut relay = Relay::new();
    let drivers = (1..=5).map(|k| driver_of(5, k, "message")).collect();
    let outcomes = run(drivers, &mut relay, honest);
    for outcome in &outcomes {
        assert_eq!(outcome.end, Ok(()));
        assert_eq!(outcome.rounds, vec![0, 1, 2, 3, 4]);
    }
}

#[test]
fn a_single_peer_signs_alone() {
    let mut relay = Relay::new();
    let outcomes = run(vec![driver_of(1, 1, "00ff")], &mut relay, honest);
    assert_eq!(outcomes[0].end, Ok(()));
    assert_eq!(outcomes[0].sent, payloads_of(1, 1, &[0, 255]));
}

#[test]
fn peers_that_sign_different_messages_fail_to_verify() {
    let mut relay = Relay::new();
    let drivers = vec![driver_of(2, 1, "4f4d4552"), driver_of(2, 2, "hello")];
    let outcomes = run(drivers, &mut relay, honest);
    assert_eq!(outcomes[0].end, Err(SignError::InvalidSignature));
    assert_eq!(outcomes[1].end, Err(SignError::InvalidSignature));
    assert_eq!(outcomes[0].rounds, vec![0, 1, 2, 3, 4]);
}

fn forge_opening_of_peer_two(peer: u32, outcome: Outcome) -> Outcome {
    match outcome {
        Outcome::Committed { ephemeral, commitment, .. } if peer == 2 => Outcome::Committed {
            ephemeral,
            commitment,
            opening: "R[forged]:blind[forged]".to_string(),
        },
        other => other,
    }
}

#[test]
fn a_tampered_commitment_stops_the_session_before_any_signature() {
    let mut relay = Relay::new();
    let drivers = vec![driver_of(2, 1, "4f4d4552"), driver_of(2, 2, "4f4d4552")];
    let outcomes = run(drivers, &mut relay, forge_opening_of_peer_two);
    assert_eq!(outcomes[0].end, Err(SignError::CommitmentMismatch));
    assert_eq!(outcomes[0].rounds, vec![0, 1, 2]);
    assert_eq!(outcomes[0].sent.len(), 3);
    assert!(relay.kept.iter().all(|m| !m.body.starts_with("signature")));
}

#[test]
fn a_refused_payload_is_sent_again_unchanged() {
    let mut relay = Relay::new();
    relay.refuse(1, 10);
    let drivers = vec![driver_of(2, 1, "4f4d4552"), driver_of(2, 2, "4f4d4552")];
    let outcomes = run(drivers, &mut relay, honest);
    assert_eq!(outcomes[0].end, Ok(()));
    assert_eq!(outcomes[1].end, Ok(()));
    // ten refusals, then the payload went through: eleven identical sends
    assert_eq!(relay.refused.len(), 10);
    let first = payloads_of(1, 2, b"OMER");
    let expected = ClientMessage::Relay(RelayMessage {
        from: 1,
        protocol: 1,
        to: vec![2],
        body: first[0].clone(),
    });
    for refused in &relay.refused {
        assert_eq!(*refused, expected);
    }
    assert_eq!(outcomes[0].sent[..11], vec![first[0].clone(); 11][..]);
    assert_eq!(outcomes[0].sent[11..], first[1..]);
    assert_eq!(outcomes[0].rounds, vec![0, 1, 2, 3, 4]);
}

#[test]
fn a_relay_that_refuses_for_ever_times_the_round_out() {
    let mut relay = Relay::new();
    relay.refuse(1, u32::MAX);
    let outcomes = run(vec![driver_of(2, 1, "aa")], &mut relay, honest);
    assert_eq!(outcomes[0].end, Err(SignError::RoundTimeout));
    // the first send and 512 repeats
    assert_eq!(outcomes[0].sent.len(), 513);
    assert_eq!(outcomes[0].polls, 0);
}

#[test]
fn a_round_without_quorum_times_out_after_512_polls() {
    let mut relay = Relay::new();
    let outcomes = run(vec![driver_of(2, 1, "aa")], &mut relay, honest);
    assert_eq!(outcomes[0].end, Err(SignError::RoundTimeout));
    assert_eq!(outcomes[0].polls, 512);
    assert_eq!(outcomes[0].sent, vec!["pk|P1".to_string()]);
    assert_eq!(outcomes[0].rounds, vec![0]);
}

#[test]
fn polls_wait_for_the_retry_timeout_except_the_first() {
    let mut driver = driver_of(2, 1, "aa");
    let register = driver.start();
    assert_eq!(
        register,
        Command::Send { delay: 0, message: ClientMessage::Register { protocol_id: 1, capacity: 2 } }
    );
    let registered = ServerMessage {
        response: Some(ServerResponse::Register(1)),
        relay_message: None,
        abort: false,
    };
    let first = driver.on_response(registered).unwrap();
    assert!(matches!(first, Command::Send { delay: 5000, .. }));
    assert_eq!(driver.attempts(), 0);
    assert_eq!(driver.on_response(nothing()), Ok(Command::Poll { delay: 0 }));
    assert_eq!(driver.attempts(), 1);
    assert_eq!(driver.on_poll(&vec![]), Ok(Command::Poll { delay: 200 }));
    assert_eq!(driver.on_poll(&vec![]), Ok(Command::Poll { delay: 200 }));
    assert_eq!(driver.attempts(), 3);
}

#[test]
fn a_wrong_tag_is_kept_for_its_own_round() {
    // a signature that arrives in round 0 waits in the buffer of round 3
    let mut driver = driver_of(2, 1, "aa");
    let _ = driver.start();
    let registered = ServerMessage {
        response: Some(ServerResponse::Register(1)),
        relay_message: None,
        abort: false,
    };
    driver.on_response(registered).unwrap();
    let early = RelayMessage { from: 2, protocol: 1, to: vec![1], body: "signature|s2".to_string() };
    assert_eq!(driver.on_poll(&vec![early]), Ok(Command::Poll { delay: 0 }));
    assert_eq!(driver.stored_messages(0), 0);
    assert_eq!(driver.stored_messages(3), 1);
    assert_eq!(driver.session().peer().current_round(), 0);
}

#[test]
fn a_poll_keeps_messages_up_to_the_first_bad_one() {
    let mut driver = driver_of(3, 1, "aa");
    let _ = driver.start();
    let good = RelayMessage { from: 2, protocol: 1, to: vec![1], body: "pk|P2".to_string() };
    let bad = RelayMessage { from: 2, protocol: 1, to: vec![1], body: "garbage".to_string() };
    let late = RelayMessage { from: 3, protocol: 1, to: vec![1], body: "pk|P3".to_string() };
    assert_eq!(driver.on_poll(&vec![good, bad, late]), Err(SignError::MalformedPayload));
    assert_eq!(driver.stored_messages(0), 1);
    let stranger = RelayMessage { from: 4, protocol: 1, to: vec![1], body: "pk|P4".to_string() };
    assert_eq!(driver.on_poll(&vec![stranger]), Err(SignError::PeerOutOfRange));
    let changed = RelayMessage { from: 2, protocol: 1, to: vec![1], body: "pk|Q2".to_string() };
    assert_eq!(driver.on_poll(&vec![changed]), Err(SignError::InconsistentPayload));
    assert_eq!(driver.stored_messages(0), 1);
}

#[test]
fn an_abort_ends_the_round_loop() {
    let mut driver = driver_of(2, 1, "aa");
    let _ = driver.start();
    let abort = ServerMessage { response: None, relay_message: None, abort: true };
    assert_eq!(driver.on_response(abort), Err(SignError::Aborted));
}

#[test]
fn a_relay_error_ends_the_round_loop() {
    let mut driver = driver_of(2, 1, "aa");
    let _ = driver.start();
    let broken = ServerMessage {
        response: Some(ServerResponse::ErrorResponse("NO_SUCH_PROTOCOL".to_string())),
        relay_message: None,
        abort: false,
    };
    assert_eq!(driver.on_response(broken), Err(SignError::RelayError));
}

#[test]
fn a_round_is_fed_with_the_own_message_first() {
    // peer 2 of 2 holds its own key; with the messages of round 0 in the
    // buffer, the key of peer 1 completes the round whichever came first
    let mut driver = driver_of(2, 2, "aa");
    let _ = driver.start();
    let registered = ServerMessage {
        response: Some(ServerResponse::Register(2)),
        relay_message: None,
        abort: false,
    };
    driver.on_response(registered).unwrap();
    let one = RelayMessage { from: 1, protocol: 1, to: vec![2], body: "pk|P1".to_string() };
    let two = RelayMessage { from: 2, protocol: 1, to: vec![1], body: "pk|P2".to_string() };
    let action = driver.on_poll(&vec![one, two]).unwrap();
    assert_eq!(
        action,
        Command::Perform(Operation::CreateEphemeralAndCommit {
            keypair: "sk2".to_string(),
            message: vec![0xaa],
        })
    );
    assert_eq!(driver.attempts(), 0);
    assert!(driver.is_computing());
}

#[test]
fn a_response_that_carries_a_payload_is_kept_like_a_polled_one() {
    let mut driver = driver_of(2, 1, "aa");
    let _ = driver.start();
    let registered = ServerMessage {
        response: Some(ServerResponse::Register(1)),
        relay_message: None,
        abort: false,
    };
    driver.on_response(registered).unwrap();
    let carried = ServerMessage {
        response: None,
        relay_message: Some(RelayMessage {
            from: 2,
            protocol: 1,
            to: vec![1],
            body: "pk|P2".to_string(),
        }),
        abort: false,
    };
    assert_eq!(driver.on_response(carried), Ok(Command::Poll { delay: 0 }));
    assert_eq!(driver.stored_messages(0), 1);
    // the payload was kept, not yet delivered
    assert!(!driver.session().peer().is_step_done());
}

#[test]
fn every_round_costs_the_operations_that_it_needs() {
    for n in 1..=4u32 {
        let mut relay = Relay::new();
        let drivers = (1..=n).map(|k| driver_of(n, k, "aa")).collect();
        let outcomes = run(drivers, &mut relay, honest);
        for outcome in &outcomes {
            assert_eq!(outcome.end, Ok(()));
            // one to commit; a test of each opening and four more to sign; three to verify
            assert_eq!(outcome.operations, 1 + (n + 4) + 3);
        }
    }
}

#[test]
fn an_outcome_that_nothing_asked_for_is_rejected() {
    let mut driver = driver_of(2, 1, "aa");
    let _ = driver.start();
    assert!(!driver.is_computing());
    assert_eq!(driver.on_outcome(Outcome::Flag(true)), Err(SignError::NotRequested));
    assert_eq!(
        driver.on_outcome(Outcome::Value("s".to_string())),
        Err(SignError::NotRequested)
    );
}

#[test]
fn an_outcome_of_another_operation_ends_the_work() {
    let mut driver = driver_of(1, 1, "aa");
    let _ = driver.start();
    let registered = ServerMessage {
        response: Some(ServerResponse::Register(1)),
        relay_message: None,
        abort: false,
    };
    driver.on_response(registered).unwrap();
    let own = RelayMessage { from: 1, protocol: 1, to: vec![], body: "pk|P1".to_string() };
    let command = driver.on_poll(&vec![own]).unwrap();
    assert!(matches!(command, Command::Perform(Operation::CreateEphemeralAndCommit { .. })));
    assert!(driver.is_computing());
    assert_eq!(driver.on_outcome(Outcome::Flag(true)), Err(SignError::NotRequested));
    assert!(!driver.is_computing());
    assert_eq!(driver.session().peer().current_round(), 0);
}
