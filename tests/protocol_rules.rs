use frachter::jwt::{TransferClaims, TransferRole};
use frachter::middleware::{bytes_equal, claims_verdict, JwtDecodeError, RequireToken, RequireTokenError, RequireTokenMiddleware};
use frachter::protocol::{
    parse_content_length, receive_length, send_start, send_step, wait_outcome, ReceiveError,
    SendAction, SendError, SendEvent, WaitEvent, WaitTransferError,
};
use std::sync::Arc;

#[test]
fn content_length_parsing() {
    assert_eq!(parse_content_length(Some(b"5")), Some(5));
    assert_eq!(parse_content_length(Some(b"+7")), Some(7));
    assert_eq!(parse_content_length(Some(b"0012")), Some(12));
    assert_eq!(parse_content_length(None), None);
    assert_eq!(parse_content_length(Some(b"")), None);
    assert_eq!(parse_content_length(Some(b"+")), None);
    assert_eq!(parse_content_length(Some(b"12a")), None);
    assert_eq!(parse_content_length(Some(b"-1")), None);
    assert_eq!(parse_content_length(Some(b" 5")), None);
    let max = usize::MAX.to_string();
    assert_eq!(parse_content_length(Some(max.as_bytes())), Some(usize::MAX));
    let over = format!("{}0", usize::MAX);
    assert_eq!(parse_content_length(Some(over.as_bytes())), None);
}

#[test]
fn wait_outcomes() {
    assert_eq!(wait_outcome(WaitEvent::Changed(true)), Ok(()));
    assert_eq!(wait_outcome(WaitEvent::Changed(false)), Err(WaitTransferError::Timeout));
    assert_eq!(wait_outcome(WaitEvent::Closed), Err(WaitTransferError::TransferClosed));
    assert_eq!(wait_outcome(WaitEvent::Elapsed), Err(WaitTransferError::Timeout));
}

#[test]
fn receive_length_outcomes() {
    assert_eq!(receive_length(Some(Some(5))), Ok(Some(5)));
    assert_eq!(receive_length(Some(None)), Ok(None));
    assert_eq!(receive_length(None), Err(ReceiveError::SenderDisconnected));
}

#[test]
fn send_steps() {
    assert!(matches!(send_step(SendEvent::Delivered), SendAction::Continue));
    assert!(matches!(
        send_step(SendEvent::ReceiverGone),
        SendAction::Finish { succeeded: false, response: Err(SendError::ReceiverDisconnected) }
    ));
    assert!(matches!(
        send_step(SendEvent::PayloadFailed),
        SendAction::Finish { succeeded: false, response: Err(SendError::PayloadError) }
    ));
    assert!(matches!(send_step(SendEvent::BodyEnded), SendAction::Finish { succeeded: true, response: Ok(()) }));
    assert!(matches!(
        send_step(SendEvent::TimedOut),
        SendAction::Finish { succeeded: false, response: Err(SendError::Timeout) }
    ));
    assert_eq!(send_start(true), None);
    assert_eq!(send_start(false), Some(SendError::ReceiverDisconnected));
}

#[test]
fn static_secret_check() {
    let guard = RequireToken(Arc::new(b"s3cret".to_vec()));
    assert_eq!(guard.check(None), Err(RequireTokenError::NoToken));
    assert_eq!(guard.check(Some(b"wrong")), Err(RequireTokenError::BadToken));
    assert_eq!(guard.check(Some(b"s3cre")), Err(RequireTokenError::BadToken));
    assert_eq!(guard.check(Some(b"s3cret")), Ok(()));
    let mw = RequireTokenMiddleware { service: (), token: Arc::new(b"s3cret".to_vec()) };
    assert_eq!(mw.check(Some(b"s3cret")), Ok(()));
    assert_eq!(mw.check(Some(b"S3cret")), Err(RequireTokenError::BadToken));
    assert!(bytes_equal(b"", b""));
    assert!(!bytes_equal(b"a", b""));
}

#[test]
fn claims_cookie_verdicts() {
    let claims = TransferClaims::new_at(TransferRole::Sender, 1, 0, 600);
    assert_eq!(claims_verdict(false, Some(claims)), Err(JwtDecodeError::NoToken));
    assert_eq!(claims_verdict::<TransferClaims>(true, None), Err(JwtDecodeError::BadToken));
    assert_eq!(claims_verdict(true, Some(claims)), Ok(claims));
}

#[test]
fn claims_expiry() {
    let c = TransferClaims::new_at(TransferRole::Sender, 7, 1_700_000_000, 600);
    assert_eq!(c.exp, 1_700_000_600);
    assert_eq!(c.role, TransferRole::Sender);
    assert_eq!(c.id, 7);
    assert_eq!(TransferClaims::new_at(TransferRole::Receiver, 7, i64::MAX - 1, 600).exp, i64::MAX);
    assert_eq!(TransferClaims::new_at(TransferRole::Receiver, 7, i64::MIN + 1, -600).exp, i64::MIN);
    let s = TransferClaims::sender(9, 600);
    assert_eq!(s.role, TransferRole::Sender);
    assert_eq!(s.id, 9);
    assert!(s.exp > 1_600_000_000);
}
