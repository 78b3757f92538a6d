use mmpc_client::driver::MessageStore;
use mmpc_client::error::SignError;
use mmpc_client::manager::ProtocolDataManager;
use mmpc_client::peer::{Peer, Step};
use mmpc_client::request::{CryptoRequest, CryptoResult};

fn manager_of(capacity: u32, index: u32) -> ProtocolDataManager {
    ProtocolDataManager::new(Peer::new(
        capacity,
        b"hello".to_vec(),
        format!("sk{}", index),
        format!("P{}", index),
    ))
}

#[test]
fn initialize_returns_the_first_outbound() {
    let mut manager = manager_of(2, 1);
    assert_eq!(manager.initialize(1), Ok("pk|P1".to_string()));
    assert_eq!(manager.peer().peer_id(), Some(1));
    assert_eq!(manager.initialize(1), Err(SignError::AlreadyRegistered));
    let mut manager = manager_of(2, 1);
    assert_eq!(manager.initialize(3), Err(SignError::PeerOutOfRange));
    assert_eq!(manager.peer().peer_id(), None);
}

#[test]
fn get_next_updates_and_steps() {
    let mut manager = manager_of(3, 1);
    manager.initialize(1).unwrap();
    assert_eq!(manager.get_next(2, "pk|P2"), Ok(Step::Waiting));
    assert_eq!(
        manager.get_next(3, "pk|P3"),
        Ok(Step::Needs(CryptoRequest::Commit {
            keypair: "sk1".to_string(),
            message: b"hello".to_vec(),
        }))
    );
    let committed = CryptoResult::Committed {
        ephemeral: "e1".to_string(),
        commitment: "c1".to_string(),
        opening: "o1".to_string(),
    };
    assert_eq!(manager.resume(committed), Ok("commitment|c1".to_string()));
    assert_eq!(manager.get_next(2, "commitment|c2"), Ok(Step::Waiting));
    assert_eq!(manager.get_next(3, "commitment|c3"), Ok(Step::Emit("R|o1".to_string())));
    assert_eq!(manager.peer().current_round(), 2);
}

#[test]
fn get_next_does_not_step_on_a_rejected_payload() {
    let mut manager = manager_of(2, 1);
    manager.initialize(1).unwrap();
    assert_eq!(manager.get_next(2, "R|o2"), Err(SignError::UnexpectedPayload));
    assert_eq!(manager.get_next(2, "pk"), Err(SignError::MalformedPayload));
    assert_eq!(manager.get_next(9, "pk|P9"), Err(SignError::PeerOutOfRange));
    assert_eq!(manager.get_next(1, "pk|Q1"), Err(SignError::InconsistentPayload));
    assert_eq!(manager.peer().current_round(), 0);
    assert!(!manager.peer().is_step_done());
}

#[test]
fn resume_takes_no_verdict() {
    let mut manager = manager_of(1, 1);
    manager.initialize(1).unwrap();
    assert_eq!(
        manager.resume(CryptoResult::Verified { valid: true }),
        Err(SignError::NotRequested)
    );
    assert_eq!(manager.finalize_request(), Err(SignError::NotDone));
    assert_eq!(manager.finalize(true), Err(SignError::NotDone));
}

#[test]
fn the_store_keeps_each_payload_for_the_round_of_its_tag() {
    let mut store = MessageStore::new(2);
    for round in 0..6 {
        assert_eq!(store.count(round), 0);
    }
    assert_eq!(store.put(1, "pk|P1"), Ok(()));
    assert_eq!(store.put(2, "pk|P2"), Ok(()));
    assert_eq!(store.put(2, "R|o2"), Ok(()));
    assert_eq!(store.put(1, "signature|s1"), Ok(()));
    assert_eq!(store.put(1, "signature|s1"), Ok(()));
    assert_eq!(store.count(0), 2);
    assert_eq!(store.count(1), 0);
    assert_eq!(store.count(2), 1);
    assert_eq!(store.count(3), 1);
    assert_eq!(store.count(4), 0);
}

#[test]
fn the_store_rejects_what_a_round_could_not_take() {
    let mut store = MessageStore::new(2);
    assert_eq!(store.put(1, "pk|P1"), Ok(()));
    assert_eq!(store.put(1, "pk|Q1"), Err(SignError::InconsistentPayload));
    assert_eq!(store.put(3, "pk|P3"), Err(SignError::PeerOutOfRange));
    assert_eq!(store.put(0, "pk|P0"), Err(SignError::PeerOutOfRange));
    assert_eq!(store.put(2, "pk"), Err(SignError::MalformedPayload));
    assert_eq!(store.put(2, "hello|P2"), Err(SignError::MalformedPayload));
    assert_eq!(store.count(0), 1);
}
