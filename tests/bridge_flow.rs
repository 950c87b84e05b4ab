use bytes::Bytes;
use frachter::bridge;
use frachter::cleanup::Cleanup;
use frachter::protocol::{
    create_transfer, finish_send, parse_content_length, receive_claim, receive_length, send_start, send_step,
    wait_outcome, wait_subscribe, SendAction, SendError, SendEvent, SendTransfer, WaitEvent, WaitTransferError,
};
use frachter::transfer::Transfers;
use tokio::sync::mpsc::error::{TryRecvError, TrySendError};

#[test]
fn chunks_arrive_in_order_within_capacity() {
    let (producer, mut consumer) = bridge::new(4);
    let chunks: Vec<Bytes> = (0u8..4).map(|i| Bytes::from(vec![i, i + 1, 255 - i])).collect();
    for c in &chunks {
        producer.tx.try_send(c.clone()).expect("room in the bridge");
    }
    for c in &chunks {
        assert_eq!(consumer.rx.try_recv().unwrap(), *c);
    }
}

#[test]
fn chunks_arrive_in_order_under_backpressure() {
    let (producer, mut consumer) = bridge::new(1);
    let chunks: Vec<Bytes> = (0u8..10).map(|i| Bytes::from(vec![i; (i as usize) + 1])).collect();
    let mut received = Vec::new();
    for c in &chunks {
        match producer.tx.try_send(c.clone()) {
            Ok(()) => {}
            Err(TrySendError::Full(back)) => {
                assert_eq!(back, *c);
                received.push(consumer.rx.try_recv().unwrap());
                producer.tx.try_send(back).expect("room after a read");
            }
            Err(TrySendError::Closed(_)) => panic!("consumer still alive"),
        }
    }
    drop(producer);
    while let Ok(c) = consumer.rx.try_recv() {
        received.push(c);
    }
    assert_eq!(received, chunks);
}

#[test]
fn dropped_consumer_returns_chunk() {
    let (producer, consumer) = bridge::new(1);
    drop(consumer);
    let chunk = Bytes::from_static(b"payload");
    match producer.tx.try_send(chunk.clone()) {
        Err(TrySendError::Closed(back)) => assert_eq!(back, chunk),
        _ => panic!("the send must fail"),
    }
    let runtime = tokio::runtime::Builder::new_current_thread().build().unwrap();
    let result = runtime.block_on(producer.tx.send(chunk.clone()));
    assert_eq!(result.unwrap_err().0, chunk);
}

#[test]
fn dropped_producer_ends_stream_cleanly() {
    let (producer, mut consumer) = bridge::new(1);
    producer.tx.try_send(Bytes::from_static(b"last")).unwrap();
    drop(producer);
    assert_eq!(consumer.rx.try_recv().unwrap(), Bytes::from_static(b"last"));
    assert_eq!(consumer.rx.try_recv(), Err(TryRecvError::Disconnected));
}

#[test]
fn hello_transfer_end_to_end() {
    let mut transfers = Transfers::new();
    let mut cleanup = Cleanup::new();
    let created = create_transfer(&mut transfers, &mut cleanup, "a.txt".to_string(), "text/plain".to_string(), 0);
    let id = created.id;
    let mut receiver = receive_claim(&mut transfers, id).expect("claim");
    assert_eq!(receiver.filename, "a.txt");
    assert_eq!(receiver.content_type, "text/plain");
    // The receiver waits for the length.
    assert!(receiver.content_length_rx.try_recv().is_err());

    let SendTransfer(info) = SendTransfer::from_claims(&mut transfers, Some(&created.claims)).expect("extract");
    let delivered = info.content_length_tx.send(parse_content_length(Some(b"5"))).is_ok();
    assert_eq!(send_start(delivered), None);
    let declared = receiver.content_length_rx.try_recv().ok();
    assert_eq!(receive_length(declared), Ok(Some(5)));

    let sent = info.sender.tx.try_send(Bytes::from_static(b"hello"));
    assert!(matches!(send_step(if sent.is_ok() { SendEvent::Delivered } else { SendEvent::ReceiverGone }), SendAction::Continue));
    drop(info.sender);
    let mut body = Vec::new();
    while let Ok(c) = receiver.body.rx.try_recv() {
        body.extend_from_slice(&c);
    }
    assert_eq!(body, b"hello");
    match send_step(SendEvent::BodyEnded) {
        SendAction::Finish { succeeded, response } => {
            assert_eq!(response, Ok(()));
            finish_send(&mut cleanup, id, succeeded, 1_000);
        }
        SendAction::Continue => panic!("the body ended"),
    }
    assert_eq!(cleanup.get_status(id), Some(true));
}

#[test]
fn wait_times_out_without_side_effects() {
    let mut transfers = Transfers::new();
    let mut cleanup = Cleanup::new();
    let created = create_transfer(&mut transfers, &mut cleanup, "a.txt".to_string(), "text/plain".to_string(), 0);
    for _ in 0..3 {
        let rx = wait_subscribe(&transfers, created.id).expect("still waiting");
        assert!(!*rx.borrow());
        assert_eq!(wait_outcome(WaitEvent::Elapsed), Err(WaitTransferError::Timeout));
    }
    // The transfer can still be claimed after the waits.
    assert!(receive_claim(&mut transfers, created.id).is_ok());
    assert!(matches!(wait_subscribe(&transfers, created.id), Err(WaitTransferError::NoTransfer)));
}

#[test]
fn receiver_disconnect_fails_send() {
    let mut transfers = Transfers::new();
    let mut cleanup = Cleanup::new();
    let created = create_transfer(&mut transfers, &mut cleanup, "a.txt".to_string(), "text/plain".to_string(), 0);
    let mut receiver = receive_claim(&mut transfers, created.id).expect("claim");
    let SendTransfer(info) = SendTransfer::from_claims(&mut transfers, Some(&created.claims)).expect("extract");
    assert_eq!(send_start(info.content_length_tx.send(None).is_ok()), None);
    assert_eq!(receiver.content_length_rx.try_recv(), Ok(None));
    // The receiver goes away mid-stream.
    drop(receiver);
    let event = match info.sender.tx.try_send(Bytes::from_static(b"chunk")) {
        Ok(()) => SendEvent::Delivered,
        Err(_) => SendEvent::ReceiverGone,
    };
    match send_step(event) {
        SendAction::Finish { succeeded, response } => {
            assert_eq!(response, Err(SendError::ReceiverDisconnected));
            finish_send(&mut cleanup, created.id, succeeded, 2_000);
        }
        SendAction::Continue => panic!("the receiver is gone"),
    }
    assert_eq!(cleanup.get_status(created.id), Some(false));
}

#[test]
fn receiver_gone_before_length() {
    let mut transfers = Transfers::new();
    let mut cleanup = Cleanup::new();
    let created = create_transfer(&mut transfers, &mut cleanup, "a.txt".to_string(), "text/plain".to_string(), 0);
    let receiver = receive_claim(&mut transfers, created.id).expect("claim");
    drop(receiver);
    let SendTransfer(info) = SendTransfer::from_claims(&mut transfers, Some(&created.claims)).expect("extract");
    let delivered = info.content_length_tx.send(Some(5)).is_ok();
    assert_eq!(send_start(delivered), Some(SendError::ReceiverDisconnected));
}

#[test]
fn bridge_has_requested_capacity() {
    for size in [1usize, 3, 16] {
        let (producer, _consumer) = bridge::new(size);
        assert_eq!(producer.tx.max_capacity(), size);
        assert_eq!(producer.tx.capacity(), size);
    }
}
