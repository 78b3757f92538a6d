use mmpc_client::error::SignError;
use mmpc_client::procedure::{Operation, Outcome, Procedure, Progress};
use mmpc_client::request::{CryptoRequest, CryptoResult};

fn texts(items: &[&str]) -> Vec<String> {
    items.iter().map(|s| s.to_string()).collect()
}

fn sign_request(commitments: &[&str], openings: &[&str]) -> CryptoRequest {
    CryptoRequest::Sign {
        keypair: "sk2".to_string(),
        message: b"hello".to_vec(),
        ephemeral: "e2".to_string(),
        index: 1,
        public_keys: texts(&["P1", "P2", "P3"]),
        commitments: texts(commitments),
        openings: texts(openings),
    }
}

fn next(progress: Result<Progress, SignError>) -> Procedure {
    match progress {
        Ok(Progress::Next(procedure)) => procedure,
        other => panic!("the procedure should go on, not {:?}", other),
    }
}

fn value(text: &str) -> Outcome {
    Outcome::Value(text.to_string())
}

#[test]
fn committing_is_one_operation() {
    let request = CryptoRequest::Commit { keypair: "sk1".to_string(), message: b"OMER".to_vec() };
    let procedure = Procedure::begin(request).unwrap();
    assert_eq!(
        procedure.operation(),
        Operation::CreateEphemeralAndCommit { keypair: "sk1".to_string(), message: b"OMER".to_vec() }
    );
    let outcome = Outcome::Committed {
        ephemeral: "e".to_string(),
        commitment: "c".to_string(),
        opening: "o".to_string(),
    };
    assert_eq!(
        procedure.advance(outcome),
        Ok(Progress::Complete(CryptoResult::Committed {
            ephemeral: "e".to_string(),
            commitment: "c".to_string(),
            opening: "o".to_string(),
        }))
    );
}

#[test]
fn signing_tests_every_opening_and_then_signs() {
    let procedure = Procedure::begin(sign_request(&["c1", "c2", "c3"], &["o1", "o2", "o3"])).unwrap();
    assert_eq!(
        procedure.operation(),
        Operation::TestCommit { opening: "o1".to_string(), commitment: "c1".to_string() }
    );
    let procedure = next(procedure.advance(Outcome::Flag(true)));
    assert_eq!(
        procedure.operation(),
        Operation::TestCommit { opening: "o2".to_string(), commitment: "c2".to_string() }
    );
    let procedure = next(procedure.advance(Outcome::Flag(true)));
    assert_eq!(
        procedure.operation(),
        Operation::TestCommit { opening: "o3".to_string(), commitment: "c3".to_string() }
    );
    let procedure = next(procedure.advance(Outcome::Flag(true)));
    assert_eq!(
        procedure.operation(),
        Operation::AggregateKeys { public_keys: texts(&["P1", "P2", "P3"]), index: 1 }
    );
    let aggregated = Outcome::Aggregated { key: "apk".to_string(), weight: "w".to_string() };
    let procedure = next(procedure.advance(aggregated));
    assert_eq!(procedure.operation(), Operation::CombineNonces { openings: texts(&["o1", "o2", "o3"]) });
    let procedure = next(procedure.advance(value("Rtot")));
    assert_eq!(
        procedure.operation(),
        Operation::Challenge {
            nonce: "Rtot".to_string(),
            aggregate_key: "apk".to_string(),
            message: b"hello".to_vec(),
        }
    );
    let procedure = next(procedure.advance(value("k")));
    assert_eq!(
        procedure.operation(),
        Operation::PartialSign {
            ephemeral: "e2".to_string(),
            keypair: "sk2".to_string(),
            challenge: "k".to_string(),
            weight: "w".to_string(),
            nonce: "Rtot".to_string(),
        }
    );
    assert_eq!(
        procedure.advance(value("s2")),
        Ok(Progress::Complete(CryptoResult::Signed {
            openings_match: vec![true, true, true],
            signature: "s2".to_string(),
        }))
    );
}

#[test]
fn an_opening_that_does_not_match_ends_the_signing() {
    let procedure = Procedure::begin(sign_request(&["c1", "c2", "c3"], &["o1", "o2", "o3"])).unwrap();
    assert_eq!(procedure.advance(Outcome::Flag(false)), Err(SignError::CommitmentMismatch));
    let procedure = Procedure::begin(sign_request(&["c1", "c2", "c3"], &["o1", "o2", "o3"])).unwrap();
    let procedure = next(procedure.advance(Outcome::Flag(true)));
    let procedure = next(procedure.advance(Outcome::Flag(true)));
    assert_eq!(procedure.advance(Outcome::Flag(false)), Err(SignError::CommitmentMismatch));
}

#[test]
fn an_opening_without_commitment_cannot_match() {
    assert_eq!(
        Procedure::begin(sign_request(&["c1", "c2"], &["o1", "o2", "o3"])),
        Err(SignError::CommitmentMismatch)
    );
    assert_eq!(
        Procedure::begin(sign_request(&["c1", "c2", "c3"], &["o1"])),
        Err(SignError::CommitmentMismatch)
    );
}

#[test]
fn signing_for_nobody_has_nothing_to_test() {
    let procedure = Procedure::begin(sign_request(&[], &[])).unwrap();
    assert!(matches!(procedure.operation(), Operation::AggregateKeys { .. }));
}

#[test]
fn verifying_combines_aggregates_and_verifies() {
    let request = CryptoRequest::Verify {
        message: b"OMER".to_vec(),
        index: 0,
        public_keys: texts(&["P1", "P2"]),
        signatures: texts(&["s1", "s2"]),
    };
    let procedure = Procedure::begin(request).unwrap();
    assert_eq!(
        procedure.operation(),
        Operation::CombineSignatures { signatures: texts(&["s1", "s2"]) }
    );
    let procedure = next(procedure.advance(value("sigma")));
    assert_eq!(
        procedure.operation(),
        Operation::AggregateKeys { public_keys: texts(&["P1", "P2"]), index: 0 }
    );
    let aggregated = Outcome::Aggregated { key: "apk".to_string(), weight: "w".to_string() };
    let procedure = next(procedure.advance(aggregated));
    assert_eq!(
        procedure.operation(),
        Operation::Verify {
            signature: "sigma".to_string(),
            message: b"OMER".to_vec(),
            aggregate_key: "apk".to_string(),
        }
    );
    assert_eq!(
        procedure.advance(Outcome::Flag(false)),
        Ok(Progress::Complete(CryptoResult::Verified { valid: false }))
    );
}

#[test]
fn an_outcome_of_the_wrong_kind_is_not_requested() {
    let commit = || {
        Procedure::begin(CryptoRequest::Commit { keypair: "sk".to_string(), message: vec![] }).unwrap()
    };
    assert_eq!(commit().advance(Outcome::Flag(true)), Err(SignError::NotRequested));
    assert_eq!(commit().advance(value("x")), Err(SignError::NotRequested));
    let aggregated = Outcome::Aggregated { key: "apk".to_string(), weight: "w".to_string() };
    assert_eq!(commit().advance(aggregated), Err(SignError::NotRequested));
    let sign = || Procedure::begin(sign_request(&["c1"], &["o1"])).unwrap();
    assert_eq!(sign().advance(value("x")), Err(SignError::NotRequested));
    let after_tests = next(sign().advance(Outcome::Flag(true)));
    assert_eq!(after_tests.advance(Outcome::Flag(true)), Err(SignError::NotRequested));
    let verify = Procedure::begin(CryptoRequest::Verify {
        message: vec![],
        index: 0,
        public_keys: vec![],
        signatures: vec![],
    })
    .unwrap();
    assert_eq!(verify.advance(Outcome::Flag(true)), Err(SignError::NotRequested));
}
