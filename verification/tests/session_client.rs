use mmpc_client::action::Action;
use mmpc_client::error::SignError;
use mmpc_client::message::{
    is_retry, ClientMessage, RelayMessage, ServerMessage, ServerMessageKind, ServerResponse,
};
use mmpc_client::request::{CryptoRequest, CryptoResult};
use mmpc_client::session::Session;

fn session_of(capacity: u32, index: u32) -> Session {
    Session::new(7, capacity, b"OMER".to_vec(), format!("sk{}", index), format!("P{}", index))
}

fn envelope(from: u32, to: Vec<u32>, body: &str) -> ClientMessage {
    ClientMessage::Relay(RelayMessage { from, protocol: 7, to, body: body.to_string() })
}

fn relayed(from: u32, body: &str) -> RelayMessage {
    RelayMessage { from, protocol: 7, to: vec![], body: body.to_string() }
}

fn error(code: &str) -> ServerMessage {
    ServerMessage {
        response: Some(ServerResponse::ErrorResponse(code.to_string())),
        relay_message: None,
        abort: false,
    }
}

#[test]
fn a_new_session_has_sent_nothing() {
    let session = session_of(3, 1);
    assert_eq!(session.last_outbound(), None);
    assert_eq!(session.destinations(), &Vec::<u32>::new());
    assert_eq!(session.peer().peer_id(), None);
    assert_eq!(session.peer().capacity(), 3);
}

#[test]
fn the_register_message_names_protocol_and_capacity() {
    let mut session = session_of(3, 1);
    let message = session.generate_register_message();
    assert_eq!(message, ClientMessage::Register { protocol_id: 7, capacity: 3 });
    assert_eq!(session.last_outbound(), Some(ClientMessage::Register { protocol_id: 7, capacity: 3 }));
}

#[test]
fn registration_sends_the_public_key_to_all_others() {
    let mut session = session_of(4, 2);
    let action = session.handle_register_response(2).unwrap();
    let expected = envelope(2, vec![1, 3, 4], "pk|P2");
    assert_eq!(action, Action::Send { delay: 5000, message: envelope(2, vec![1, 3, 4], "pk|P2") });
    assert_eq!(session.destinations(), &vec![1, 3, 4]);
    assert_eq!(session.last_outbound(), Some(expected));
    assert_eq!(session.peer().peer_id(), Some(2));
}

#[test]
fn destinations_leave_out_the_peer_itself() {
    let cases: Vec<(u32, u32, Vec<u32>)> = vec![
        (1, 1, vec![]),
        (2, 1, vec![2]),
        (2, 2, vec![1]),
        (3, 1, vec![2, 3]),
        (3, 2, vec![1, 3]),
        (3, 3, vec![1, 2]),
        (5, 4, vec![1, 2, 3, 5]),
    ];
    for (capacity, id, expected) in cases {
        let mut session = session_of(capacity, id);
        session.handle_register_response(id).unwrap();
        assert_eq!(session.destinations(), &expected);
    }
}

#[test]
fn registration_waits_for_the_settle_timeout_that_was_set() {
    let mut session = session_of(2, 1);
    session.set_settle_timeout(12);
    let action = session.handle_register_response(1).unwrap();
    assert_eq!(action, Action::Send { delay: 12, message: envelope(1, vec![2], "pk|P1") });
}

#[test]
fn a_second_registration_fails() {
    let mut session = session_of(3, 1);
    session.handle_register_response(1).unwrap();
    assert_eq!(session.handle_register_response(1), Err(SignError::AlreadyRegistered));
    assert_eq!(session.handle_register_response(2), Err(SignError::AlreadyRegistered));
    assert_eq!(session.destinations(), &vec![2, 3]);
    assert_eq!(session.last_outbound(), Some(envelope(1, vec![2, 3], "pk|P1")));
}

#[test]
fn a_registration_outside_the_session_fails() {
    let mut session = session_of(3, 1);
    assert_eq!(session.handle_register_response(4), Err(SignError::PeerOutOfRange));
    assert_eq!(session.handle_register_response(0), Err(SignError::PeerOutOfRange));
    assert_eq!(session.destinations(), &Vec::<u32>::new());
    assert_eq!(session.last_outbound(), None);
}

#[test]
fn only_two_codes_ask_to_try_again() {
    assert!(is_retry(&"NOT_YOUR_TURN".to_string()));
    assert!(is_retry(&"STATE_NOT_INITIALIZED".to_string()));
    assert!(!is_retry(&"".to_string()));
    assert!(!is_retry(&"not_your_turn".to_string()));
    assert!(!is_retry(&"NOT_YOUR_TURN ".to_string()));
    assert!(!is_retry(&"INTERNAL".to_string()));
}

#[test]
fn resending_after_not_your_turn_is_byte_identical() {
    let mut session = session_of(3, 2);
    let first = match session.handle_register_response(2).unwrap() {
        Action::Send { message, .. } => message,
        other => panic!("unexpected action {:?}", other),
    };
    for code in ["NOT_YOUR_TURN", "STATE_NOT_INITIALIZED", "NOT_YOUR_TURN"] {
        let again = session.handle_error_response(&code.to_string()).unwrap();
        match again {
            Action::Send { delay, message } => {
                assert_eq!(delay, 5000);
                assert_eq!(message, first);
                assert_eq!(format!("{:?}", message), format!("{:?}", first));
            }
            other => panic!("unexpected action {:?}", other),
        }
        assert_eq!(session.last_outbound().as_ref(), Some(&first));
    }
    let by_message = session.generate_client_answer(error("NOT_YOUR_TURN")).unwrap();
    assert_eq!(by_message, Action::Send { delay: 5000, message: envelope(2, vec![1, 3], "pk|P2") });
}

#[test]
fn the_register_message_is_repeated_on_request() {
    let mut session = session_of(2, 1);
    let register = session.generate_register_message();
    let again = session.generate_client_answer(error("STATE_NOT_INITIALIZED")).unwrap();
    assert_eq!(again, Action::Send { delay: 5000, message: register });
}

#[test]
fn any_other_error_of_the_relay_is_fatal() {
    let mut session = session_of(2, 1);
    session.handle_register_response(1).unwrap();
    assert_eq!(session.handle_error_response(&"BROKEN".to_string()), Err(SignError::RelayError));
    assert_eq!(session.handle_error_response(&"".to_string()), Err(SignError::RelayError));
    assert_eq!(session.generate_client_answer(error("WRONG_PROTOCOL")), Err(SignError::RelayError));
    assert_eq!(session.last_outbound(), Some(envelope(1, vec![2], "pk|P1")));
}

#[test]
fn a_repeat_with_nothing_sent_is_an_error() {
    let session = session_of(2, 1);
    assert_eq!(
        session.handle_error_response(&"NOT_YOUR_TURN".to_string()),
        Err(SignError::RelayError)
    );
}

#[test]
fn an_abort_ends_the_session() {
    let mut session = session_of(2, 1);
    let abort = ServerMessage { response: None, relay_message: None, abort: true };
    assert_eq!(abort.kind(), ServerMessageKind::Abort);
    assert_eq!(session.generate_client_answer(abort), Err(SignError::Aborted));
}

#[test]
fn a_message_with_nothing_set_asks_for_nothing() {
    let mut session = session_of(2, 1);
    session.handle_register_response(1).unwrap();
    let empty = ServerMessage { response: None, relay_message: None, abort: false };
    assert_eq!(empty.kind(), ServerMessageKind::Undefined);
    assert_eq!(session.generate_client_answer(empty), Ok(Action::Idle));
    assert_eq!(session.last_outbound(), Some(envelope(1, vec![2], "pk|P1")));
    assert_eq!(session.peer().current_round(), 0);
}

#[test]
fn a_server_message_goes_by_its_first_part() {
    let all = ServerMessage {
        response: Some(ServerResponse::Register(1)),
        relay_message: Some(relayed(2, "pk|P2")),
        abort: true,
    };
    assert_eq!(all.kind(), ServerMessageKind::Response);
    let two = ServerMessage { response: None, relay_message: Some(relayed(2, "pk|P2")), abort: true };
    assert_eq!(two.kind(), ServerMessageKind::RelayMessage);
    let mut session = session_of(2, 1);
    let action = session.generate_client_answer(all).unwrap();
    assert_eq!(action, Action::Send { delay: 5000, message: envelope(1, vec![2], "pk|P1") });
    // the relay message of that server message was not delivered
    assert!(!session.peer().is_step_done());
}

#[test]
fn a_payload_that_completes_round_zero_asks_for_the_commitment() {
    let mut session = session_of(3, 1);
    session.handle_register_response(1).unwrap();
    assert_eq!(session.handle_relay_message(&relayed(3, "pk|P3")), Ok(Action::Idle));
    let message =
        ServerMessage { response: None, relay_message: Some(relayed(2, "pk|P2")), abort: false };
    assert_eq!(
        session.generate_client_answer(message),
        Ok(Action::Compute(CryptoRequest::Commit {
            keypair: "sk1".to_string(),
            message: b"OMER".to_vec(),
        }))
    );
    // still the public key is what a repeat would send
    assert_eq!(session.last_outbound(), Some(envelope(1, vec![2, 3], "pk|P1")));
}

#[test]
fn a_rejected_payload_changes_nothing() {
    let mut session = session_of(2, 1);
    session.handle_register_response(1).unwrap();
    assert_eq!(
        session.handle_relay_message(&relayed(2, "signature|s2")),
        Err(SignError::UnexpectedPayload)
    );
    assert_eq!(session.deliver(2, "nothing"), Err(SignError::MalformedPayload));
    assert_eq!(session.deliver(5, "pk|P5"), Err(SignError::PeerOutOfRange));
    assert_eq!(session.deliver(1, "pk|other"), Err(SignError::InconsistentPayload));
    assert!(!session.peer().is_step_done());
    assert_eq!(session.last_outbound(), Some(envelope(1, vec![2], "pk|P1")));
}

#[test]
fn each_round_sends_its_payload_in_an_envelope() {
    let mut session = session_of(2, 2);
    session.handle_register_response(2).unwrap();
    assert!(matches!(session.deliver(1, "pk|P1"), Ok(Action::Compute(CryptoRequest::Commit { .. }))));
    let committed = CryptoResult::Committed {
        ephemeral: "e2".to_string(),
        commitment: "c2".to_string(),
        opening: "o2".to_string(),
    };
    let action = session.handle_crypto_result(committed).unwrap();
    assert_eq!(action, Action::Send { delay: 0, message: envelope(2, vec![1], "commitment|c2") });
    assert_eq!(session.last_outbound(), Some(envelope(2, vec![1], "commitment|c2")));
    let action = session.deliver(1, "commitment|c1").unwrap();
    assert_eq!(action, Action::Send { delay: 0, message: envelope(2, vec![1], "R|o2") });
    assert_eq!(session.last_outbound(), Some(envelope(2, vec![1], "R|o2")));
    let action = session.deliver(1, "R|o1").unwrap();
    assert_eq!(
        action,
        Action::Compute(CryptoRequest::Sign {
            keypair: "sk2".to_string(),
            message: b"OMER".to_vec(),
            ephemeral: "e2".to_string(),
            index: 1,
            public_keys: vec!["P1".to_string(), "P2".to_string()],
            commitments: vec!["c1".to_string(), "c2".to_string()],
            openings: vec!["o1".to_string(), "o2".to_string()],
        })
    );
    let signed = CryptoResult::Signed { openings_match: vec![true, true], signature: "s2".to_string() };
    let action = session.handle_crypto_result(signed).unwrap();
    assert_eq!(action, Action::Send { delay: 0, message: envelope(2, vec![1], "signature|s2") });
    assert_eq!(session.deliver(2, "signature|s2"), Ok(Action::Idle));
    let action = session.deliver(1, "signature|s1").unwrap();
    assert_eq!(
        action,
        Action::Compute(CryptoRequest::Verify {
            message: b"OMER".to_vec(),
            index: 1,
            public_keys: vec!["P1".to_string(), "P2".to_string()],
            signatures: vec!["s1".to_string(), "s2".to_string()],
        })
    );
    // the last round sends nothing: the signature payload is still the last outbound
    assert_eq!(session.last_outbound(), Some(envelope(2, vec![1], "signature|s2")));
    assert_eq!(session.handle_crypto_result(CryptoResult::Verified { valid: true }), Ok(Action::Finished));
}

#[test]
fn a_negative_verdict_is_an_invalid_signature() {
    let mut session = session_of(1, 1);
    session.handle_register_response(1).unwrap();
    assert_eq!(
        session.handle_crypto_result(CryptoResult::Verified { valid: true }),
        Err(SignError::NotDone)
    );
    let committed = CryptoResult::Committed {
        ephemeral: "e".to_string(),
        commitment: "c".to_string(),
        opening: "o".to_string(),
    };
    session.handle_crypto_result(committed).unwrap();
    session.deliver(1, "commitment|c").unwrap();
    session.deliver(1, "R|o").unwrap();
    let signed = CryptoResult::Signed { openings_match: vec![true], signature: "s".to_string() };
    session.handle_crypto_result(signed).unwrap();
    assert!(matches!(
        session.deliver(1, "signature|s"),
        Ok(Action::Compute(CryptoRequest::Verify { .. }))
    ));
    assert_eq!(
        session.handle_crypto_result(CryptoResult::Verified { valid: false }),
        Err(SignError::InvalidSignature)
    );
}

#[test]
fn a_result_that_was_not_asked_for_is_rejected() {
    let mut session = session_of(2, 1);
    session.handle_register_response(1).unwrap();
    let committed = CryptoResult::Committed {
        ephemeral: "e".to_string(),
        commitment: "c".to_string(),
        opening: "o".to_string(),
    };
    assert_eq!(session.handle_crypto_result(committed), Err(SignError::NotRequested));
    let signed = CryptoResult::Signed { openings_match: vec![true, true], signature: "s".to_string() };
    assert_eq!(session.handle_crypto_result(signed), Err(SignError::NotRequested));
    assert_eq!(session.last_outbound(), Some(envelope(1, vec![2], "pk|P1")));
    assert_eq!(session.peer().current_round(), 0);
}

#[test]
fn a_mismatched_opening_aborts_at_the_session_too() {
    let mut session = session_of(2, 1);
    session.handle_register_response(1).unwrap();
    session.deliver(2, "pk|P2").unwrap();
    let committed = CryptoResult::Committed {
        ephemeral: "e1".to_string(),
        commitment: "c1".to_string(),
        opening: "o1".to_string(),
    };
    session.handle_crypto_result(committed).unwrap();
    session.deliver(2, "commitment|c2").unwrap();
    session.deliver(2, "R|forged").unwrap();
    let signed = CryptoResult::Signed { openings_match: vec![true, false], signature: "s1".to_string() };
    assert_eq!(session.handle_crypto_result(signed), Err(SignError::CommitmentMismatch));
    assert_eq!(session.peer().current_round(), 2);
    assert_eq!(session.last_outbound(), Some(envelope(1, vec![2], "R|o1")));
}
