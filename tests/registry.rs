use frachter::protocol::{receive_claim, wait_subscribe, ReceiveError, SendTransfer, SendTransferError, WaitTransferError};
use frachter::jwt::{TransferClaims, TransferRole};
use frachter::transfer::Transfers;

fn sender_claims(id: u128) -> TransferClaims {
    TransferClaims::new_at(TransferRole::Sender, id, 1_000, 600)
}

#[test]
fn unknown_id_fails_everywhere() {
    let mut transfers = Transfers::new();
    transfers.new_transfer("a.txt".to_string(), "text/plain".to_string());
    let unknown: u128 = 42;
    assert!(transfers.receiver_rx(unknown).is_none());
    assert!(matches!(wait_subscribe(&transfers, unknown), Err(WaitTransferError::NoTransfer)));
    assert!(matches!(receive_claim(&mut transfers, unknown), Err(ReceiveError::NoTransfer)));
    let claims = sender_claims(unknown);
    assert!(matches!(
        SendTransfer::from_claims(&mut transfers, Some(&claims)),
        Err(SendTransferError::NoTransfer)
    ));
    assert!(transfers.take_sender(unknown).is_none());
}

#[test]
fn claim_succeeds_once() {
    let mut transfers = Transfers::new();
    let id = transfers.new_transfer("a.txt".to_string(), "text/plain".to_string());
    let info = transfers.receive(id, 1).expect("first claim");
    assert_eq!(info.filename, "a.txt");
    assert_eq!(info.content_type, "text/plain");
    assert!(transfers.receive(id, 1).is_none());
    assert!(matches!(receive_claim(&mut transfers, id), Err(ReceiveError::NoTransfer)));
    assert!(transfers.receiver_rx(id).is_none());
}

#[test]
fn extract_succeeds_once() {
    let mut transfers = Transfers::new();
    let id = transfers.new_transfer("a.txt".to_string(), "text/plain".to_string());
    assert!(transfers.take_sender(id).is_none());
    let _info = transfers.receive(id, 1).expect("claim");
    assert!(transfers.take_sender(id).is_some());
    assert!(transfers.take_sender(id).is_none());
    let claims = sender_claims(id);
    assert!(matches!(
        SendTransfer::from_claims(&mut transfers, Some(&claims)),
        Err(SendTransferError::NoTransfer)
    ));
}

#[test]
fn claim_wakes_readiness() {
    let mut transfers = Transfers::new();
    let id = transfers.new_transfer("a.txt".to_string(), "text/plain".to_string());
    let rx = transfers.receiver_rx(id).expect("waiting for receiver");
    assert!(!*rx.borrow());
    let _info = transfers.receive(id, 1).expect("claim");
    assert!(*rx.borrow());
}

#[test]
fn readiness_closes_on_eviction() {
    let mut transfers = Transfers::new();
    let id = transfers.new_transfer("a.txt".to_string(), "text/plain".to_string());
    let rx = transfers.receiver_rx(id).expect("waiting for receiver");
    transfers.evict(id);
    assert!(rx.has_changed().is_err());
    assert!(transfers.receiver_rx(id).is_none());
}

#[test]
fn send_checks_role_and_request_info() {
    let mut transfers = Transfers::new();
    let id = transfers.new_transfer("a.txt".to_string(), "text/plain".to_string());
    let _info = transfers.receive(id, 1).expect("claim");
    let receiver = TransferClaims::new_at(TransferRole::Receiver, id, 0, 600);
    assert!(matches!(
        SendTransfer::from_claims(&mut transfers, Some(&receiver)),
        Err(SendTransferError::BadToken)
    ));
    assert!(matches!(
        SendTransfer::from_claims(&mut transfers, None),
        Err(SendTransferError::NoRequestInfo)
    ));
    let claims = sender_claims(id);
    assert!(SendTransfer::from_claims(&mut transfers, Some(&claims)).is_ok());
}

#[test]
fn new_ids_differ() {
    let mut transfers = Transfers::new();
    let a = transfers.new_transfer("a".to_string(), "text/plain".to_string());
    let b = transfers.new_transfer("b".to_string(), "text/plain".to_string());
    assert_ne!(a, b);
}

#[test]
fn created_ids_are_fresh() {
    let mut transfers = Transfers::new();
    let mut ids = Vec::new();
    for i in 0..50 {
        let id = transfers.new_transfer(format!("f{}", i), "text/plain".to_string());
        assert!(!ids.contains(&id));
        ids.push(id);
    }
    // Every transfer is still there, waiting for its receiver.
    for id in &ids {
        assert!(transfers.receiver_rx(*id).is_some());
    }
}
