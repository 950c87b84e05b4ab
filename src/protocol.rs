//! The four transfer operations (create, wait, receive, send) as decisions
//! over the registry and the scheduler. The caller performs the waiting and
//! the streaming and hands back what happened.
use crate::cleanup::Cleanup;
use crate::jwt::{TransferClaims, TransferRole};
use crate::transfer::{can_claim, can_extract, ReceiverInfo, SenderInfo, TransferState, Transfers};
use vstd::prelude::*;

verus! {

/// How long a sender token, and the transfer it names, stays valid.
pub const TOKEN_DURATION_SECS: i64 = 600;

/// How long one `wait` call waits for a receiver.
pub const WAIT_TIMEOUT_MS: u64 = 60_000;

/// How long a receiver waits for the sender to declare the body length.
pub const RECEIVE_TIMEOUT_MS: u64 = 300_000;

/// The time budget of a whole upload, counted once from the moment sending
/// starts and never extended per chunk: an upload that takes longer fails,
/// however steadily its chunks arrive.
pub const SEND_BUDGET_MS: u64 = 10_000;

/// How many chunks the bridge of a transfer holds in flight.
pub const BRIDGE_CHUNKS: usize = 1;

#[derive(Debug, Clone, Copy, PartialEq, Eq, Structural)]
pub enum SendTransferError {
    BadToken,
    NoTransfer,
    NoRequestInfo,
}


#[derive(Debug, Clone, Copy, PartialEq, Eq, Structural)]
pub enum WaitTransferError {
    NoTransfer,
    Timeout,
    TransferClosed,
}


#[derive(Debug, Clone, Copy, PartialEq, Eq, Structural)]
pub enum ReceiveError {
    NoTransfer,
    SenderDisconnected,
}


#[derive(Debug, Clone, Copy, PartialEq, Eq, Structural)]
pub enum SendError {
    ReceiverDisconnected,
    PayloadError,
    Timeout,
}


/// A freshly created transfer.
pub struct CreatedTransfer {
    pub id: u128,
    /// The claims to sign into the sender's token.
    pub claims: TransferClaims,
    /// The pause for which to arm the pending timer, if it is idle.
    pub timer: Option<u64>,
}

/// Creates a transfer, tracks it for eviction and makes the sender's claims.
pub fn create_transfer(
    transfers: &mut Transfers,
    cleanup: &mut Cleanup,
    filename: String,
    content_type: String,
    now: u64,
) -> (r: CreatedTransfer)
    requires
        old(cleanup).wf(),
        old(cleanup).clock() <= now <= crate::cleanup::MAX_TIME_MS,
    ensures
        !old(transfers)@.contains_key(r.id),
        final(transfers)@ == old(transfers)@.insert(
            r.id,
            TransferState::WaitingForReceiver { filename: filename@, content_type: content_type@ },
        ),
        final(cleanup).wf(),
        final(cleanup).pending_entries() == old(cleanup).pending_entries().push(
            crate::cleanup::PendingEntry { id: r.id, start: now },
        ),
        final(cleanup).status_entries() == old(cleanup).status_entries(),
        final(cleanup).clock() == now,
        final(cleanup).status_timer() == old(cleanup).status_timer(),
        old(cleanup).pending_timer() is None ==> r.timer == Some(crate::cleanup::TRANSFER_DURATION_MS)
            && final(cleanup).pending_timer() == Some((now + crate::cleanup::TRANSFER_DURATION_MS) as u64),
        old(cleanup).pending_timer() is Some ==> r.timer is None && final(cleanup).pending_timer() == old(
            cleanup,
        ).pending_timer(),
        r.claims.role == TransferRole::Sender,
        r.claims.id == r.id,
{
    let id = transfers.new_transfer(filename, content_type);
    let timer = cleanup.track(id, now);
    let claims = TransferClaims::sender(id, TOKEN_DURATION_SECS);
    CreatedTransfer { id, claims, timer }
}

/// Starts a `wait`: a handle on the readiness of a transfer that still
/// waits for its receiver.
pub fn wait_subscribe(transfers: &Transfers, id: u128) -> (r: Result<
    tokio::sync::watch::Receiver<bool>,
    WaitTransferError,
>)
    ensures
        r is Ok <==> can_claim(transfers@, id),
        r is Err ==> r == Err::<tokio::sync::watch::Receiver<bool>, WaitTransferError>(
            WaitTransferError::NoTransfer,
        ),
{
    match transfers.receiver_rx(id) {
        Some(rx) => Ok(rx),
        None => Err(WaitTransferError::NoTransfer),
    }
}

/// What a `wait` saw of the readiness signal.
#[derive(Debug, Clone, Copy, PartialEq, Eq, Structural)]
pub enum WaitEvent {
    /// The signal changed; its value now.
    Changed(bool),
    /// The transfer was dropped before a receiver came.
    Closed,
    /// The wait ran out.
    Elapsed,
}

/// Ends a `wait`.
pub fn wait_outcome(event: WaitEvent) -> (r: Result<(), WaitTransferError>)
    ensures
        r == (match event {
            WaitEvent::Changed(true) => Ok(()),
            WaitEvent::Changed(false) => Err(WaitTransferError::Timeout),
            WaitEvent::Closed => Err(WaitTransferError::TransferClosed),
            WaitEvent::Elapsed => Err(WaitTransferError::Timeout),
        }),
{
    match event {
        WaitEvent::Changed(ready) => if ready {
            Ok(())
        } else {
            Err(WaitTransferError::Timeout)
        },
        WaitEvent::Closed => Err(WaitTransferError::TransferClosed),
        WaitEvent::Elapsed => Err(WaitTransferError::Timeout),
    }
}

/// Starts a `receive`: claims the transfer for its receiver.
pub fn receive_claim(transfers: &mut Transfers, id: u128) -> (r: Result<ReceiverInfo, ReceiveError>)
    ensures
        can_claim(old(transfers)@, id) ==> {
            &&& r matches Ok(info)
            &&& old(transfers)@[id] == (TransferState::WaitingForReceiver {
                filename: info.filename@,
                content_type: info.content_type@,
            })
            &&& final(transfers)@ == old(transfers)@.insert(id, TransferState::WaitingForSender)
        },
        !can_claim(old(transfers)@, id) ==> final(transfers)@ == old(transfers)@ && r matches Err(
            ReceiveError::NoTransfer,
        ),
{
    match transfers.receive(id, BRIDGE_CHUNKS) {
        Some(info) => Ok(info),
        None => Err(ReceiveError::NoTransfer),
    }
}

/// Ends the wait of a `receive` for the body length: `Some(length)` when the
/// sender declared one (itself absent when unknown), `None` when the sender
/// went away or the wait ran out.
pub fn receive_length(declared: Option<Option<usize>>) -> (r: Result<Option<usize>, ReceiveError>)
    ensures
        r == (match declared {
            Some(length) => Ok(length),
            None => Err(ReceiveError::SenderDisconnected),
        }),
{
    match declared {
        Some(length) => Ok(length),
        None => Err(ReceiveError::SenderDisconnected),
    }
}

/// The sender's extracted transfer.
pub struct SendTransfer(pub SenderInfo);

impl SendTransfer {
    /// Starts a `send`: checks the request's claims and takes the transfer
    /// they name out of the registry.
    pub fn from_claims(transfers: &mut Transfers, claims: Option<&TransferClaims>) -> (r: Result<
        SendTransfer,
        SendTransferError,
    >)
        ensures
            match claims {
                None => final(transfers)@ == old(transfers)@ && r matches Err(
                    SendTransferError::NoRequestInfo,
                ),
                Some(c) => if c.role != TransferRole::Sender {
                    final(transfers)@ == old(transfers)@ && r matches Err(SendTransferError::BadToken)
                } else if can_extract(old(transfers)@, c.id) {
                    final(transfers)@ == old(transfers)@.remove(c.id) && r is Ok
                } else {
                    final(transfers)@ == old(transfers)@ && r matches Err(SendTransferError::NoTransfer)
                },
            },
    {
        match claims {
            None => Err(SendTransferError::NoRequestInfo),
            Some(c) => if c.role != TransferRole::Sender {
                Err(SendTransferError::BadToken)
            } else {
                match transfers.take_sender(c.id) {
                    Some(info) => Ok(SendTransfer(info)),
                    None => Err(SendTransferError::NoTransfer),
                }
            },
        }
    }
}

pub open spec fn is_digit(b: u8) -> bool {
    48 <= b <= 57
}

/// The number that a string of decimal digits spells.
pub open spec fn digits_value(s: Seq<u8>) -> int
    decreases s.len(),
{
    if s.len() == 0 {
        0
    } else {
        digits_value(s.drop_last()) * 10 + (s.last() - 48)
    }
}

/// The digits of a `Content-Length` value, after an optional `+`.
pub open spec fn length_digits(h: Seq<u8>) -> Seq<u8> {
    if h.len() > 0 && h[0] == 43 {
        h.drop_first()
    } else {
        h
    }
}

/// The body length that a `Content-Length` value declares: one or more
/// decimal digits, after an optional `+`, whose number fits in `usize`.
pub open spec fn declared_length(h: Seq<u8>) -> Option<usize> {
    let d = length_digits(h);
    if d.len() > 0 && (forall|i: int| 0 <= i < d.len() ==> is_digit(#[trigger] d[i])) && digits_value(d)
        <= usize::MAX {
        Some(digits_value(d) as usize)
    } else {
        None
    }
}

proof fn lemma_digits_value_prefix(s: Seq<u8>, j: int)
    requires
        0 <= j <= s.len(),
        forall|i: int| 0 <= i < s.len() ==> is_digit(#[trigger] s[i]),
    ensures
        0 <= digits_value(s.subrange(0, j)) <= digits_value(s),
    decreases s.len(),
{
    if s.len() > 0 {
        let t = s.drop_last();
        assert forall|i: int| 0 <= i < t.len() implies is_digit(#[trigger] t[i]) by {
            assert(t[i] == s[i]);
        }
        lemma_digits_value_prefix(t, if j < s.len() { j } else { t.len() as int });
        let x = digits_value(t);
        assert(x <= x * 10 + (s.last() - 48)) by (nonlinear_arith)
            requires
                x >= 0,
                s.last() >= 48,
        ;
        if j < s.len() {
            assert(t.subrange(0, j) =~= s.subrange(0, j));
        } else {
            assert(s.subrange(0, j) =~= s);
        }
    } else {
        assert(s.subrange(0, j) =~= s);
    }
}

/// Reads the body length that the sender declares in its `Content-Length`
/// header, if it declares one that can be read.
pub fn parse_content_length(header: Option<&[u8]>) -> (r: Option<usize>)
    ensures
        r == (match header {
            Some(h) => declared_length(h@),
            None => None,
        }),
{
    let h = match header {
        Some(h) => h,
        None => return None,
    };
    let start: usize = if h.len() > 0 && h[0] == 43 { 1 } else { 0 };
    let ghost d = length_digits(h@);
    assert(d =~= h@.subrange(start as int, h@.len() as int));
    if start >= h.len() {
        return None;
    }
    let mut value: usize = 0;
    let mut i: usize = start;
    while i < h.len()
        invariant
            start <= i <= h@.len(),
            d =~= h@.subrange(start as int, h@.len() as int),
            d == length_digits(h@),
            header == Some(h),
            forall|k: int| 0 <= k < i - start ==> is_digit(#[trigger] d[k]),
            value == digits_value(d.subrange(0, i - start)),
        decreases h@.len() - i,
    {
        let b = h[i];
        assert(d[i - start] == b);
        assert(d.subrange(0, i - start + 1).drop_last() =~= d.subrange(0, i - start));
        assert(d.subrange(0, i - start + 1).last() == b);
        if b < 48 || b > 57 {
            assert(!is_digit(d[i - start]));
            return None;
        }
        let next = match value.checked_mul(10) {
            Some(v) => v.checked_add((b - 48) as usize),
            None => None,
        };
        match next {
            Some(v) => {
                value = v;
            },
            None => {
                proof {
                    let k: int = i - start + 1;
                    assert(digits_value(d.subrange(0, k)) == value * 10 + (b - 48));
                    assert(value * 10 + (b - 48) > usize::MAX);
                    assert(digits_value(d.subrange(0, k)) > usize::MAX);
                    if forall|m: int| 0 <= m < d.len() ==> is_digit(#[trigger] d[m]) {
                        lemma_digits_value_prefix(d, k);
                    }
                }
                return None;
            },
        }
        i = i + 1;
    }
    assert(d.subrange(0, d.len() as int) =~= d);
    Some(value)
}

/// The first decision of a `send`: whether the receiver still listens when
/// the body length is handed to it.
pub fn send_start(length_delivered: bool) -> (r: Option<SendError>)
    ensures
        r == (if length_delivered {
            None
        } else {
            Some(SendError::ReceiverDisconnected)
        }),
{
    if length_delivered {
        None
    } else {
        Some(SendError::ReceiverDisconnected)
    }
}

/// What happened in one round of the upload pump.
#[derive(Debug, Clone, Copy, PartialEq, Eq, Structural)]
pub enum SendEvent {
    /// A chunk was read and handed to the bridge.
    Delivered,
    /// A chunk was read, and the bridge refused it: the receiver is gone.
    ReceiverGone,
    /// Reading the request body failed.
    PayloadFailed,
    /// The request body ended.
    BodyEnded,
    /// The upload budget ran out.
    TimedOut,
}

/// What the upload pump does next.
#[derive(Debug, Clone, Copy)]
pub enum SendAction {
    /// Read the next chunk.
    Continue,
    /// Stop: record `succeeded` as the transfer's status and answer the
    /// sender with `response`.
    Finish { succeeded: bool, response: Result<(), SendError> },
}

/// One decision of the upload pump.
pub fn send_step(event: SendEvent) -> (r: SendAction)
    ensures
        r == (match event {
            SendEvent::Delivered => SendAction::Continue,
            SendEvent::ReceiverGone => SendAction::Finish {
                succeeded: false,
                response: Err(SendError::ReceiverDisconnected),
            },
            SendEvent::PayloadFailed => SendAction::Finish {
                succeeded: false,
                response: Err(SendError::PayloadError),
            },
            SendEvent::BodyEnded => SendAction::Finish { succeeded: true, response: Ok(()) },
            SendEvent::TimedOut => SendAction::Finish { succeeded: false, response: Err(SendError::Timeout) },
        }),
{
    match event {
        SendEvent::Delivered => SendAction::Continue,
        SendEvent::ReceiverGone => SendAction::Finish {
            succeeded: false,
            response: Err(SendError::ReceiverDisconnected),
        },
        SendEvent::PayloadFailed => SendAction::Finish { succeeded: false, response: Err(SendError::PayloadError) },
        SendEvent::BodyEnded => SendAction::Finish { succeeded: true, response: Ok(()) },
        SendEvent::TimedOut => SendAction::Finish { succeeded: false, response: Err(SendError::Timeout) },
    }
}

/// Records how a send ended. Returns the pause for which to arm the status
/// timer, if it is idle.
pub fn finish_send(cleanup: &mut Cleanup, id: u128, succeeded: bool, now: u64) -> (r: Option<u64>)
    requires
        old(cleanup).wf(),
        old(cleanup).clock() <= now <= crate::cleanup::MAX_TIME_MS,
    ensures
        final(cleanup).wf(),
        final(cleanup).clock() == now,
        final(cleanup).status_entries() == old(cleanup).status_entries().push(
            crate::cleanup::StatusEntry { id, recorded_at: now, succeeded },
        ),
        final(cleanup).statuses() == old(cleanup).statuses().insert(
            id,
            crate::cleanup::StatusEntry { id, recorded_at: now, succeeded },
        ),
        final(cleanup).pending_entries() == old(cleanup).pending_entries(),
        final(cleanup).pending_timer() == old(cleanup).pending_timer(),
        old(cleanup).status_timer() is None ==> r == Some(crate::cleanup::STATUS_DURATION_MS)
            && final(cleanup).status_timer() == Some((now + crate::cleanup::STATUS_DURATION_MS) as u64),
        old(cleanup).status_timer() is Some ==> r is None && final(cleanup).status_timer() == old(
            cleanup,
        ).status_timer(),
{
    cleanup.put_status(id, succeeded, now)
}

} // verus!
