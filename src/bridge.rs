//! The bounded channel that carries body chunks from the sender's upload to
//! the receiver's download. The queue itself is tokio's `mpsc` channel; this
//! module only fixes how it is built and how its ends are handed out.
use vstd::prelude::*;

verus! {

#[verifier::external_type_specification]
#[verifier::external_body]
pub struct ExBytes(bytes::Bytes);

#[verifier::external_type_specification]
#[verifier::external_body]
#[verifier::reject_recursive_types(T)]
pub struct ExMpscSender<T>(tokio::sync::mpsc::Sender<T>);

#[verifier::external_type_specification]
#[verifier::external_body]
#[verifier::reject_recursive_types(T)]
pub struct ExMpscReceiver<T>(tokio::sync::mpsc::Receiver<T>);

/// The largest bridge built here: `usize::MAX >> 3` on a 32-bit target,
/// which tokio's channel accepts on every target.
pub const MAX_CAPACITY: usize = 0x1FFF_FFFF;

/// The producer end: the sender's upload pump writes chunks into it.
pub struct Producer {
    pub tx: tokio::sync::mpsc::Sender<bytes::Bytes>,
}

/// The consumer end: the receiver's response body reads chunks from it.
pub struct Consumer {
    pub rx: tokio::sync::mpsc::Receiver<bytes::Bytes>,
}

/// The bound of the channel behind a producer: what tokio's
/// `Sender::max_capacity` reports.
pub uninterp spec fn mpsc_bound(tx: tokio::sync::mpsc::Sender<bytes::Bytes>) -> nat;

/// Relies on tokio::sync::mpsc::channel: a FIFO queue holding at most
/// `capacity` chunks; it panics on a capacity of zero or above
/// `usize::MAX >> 3`.
#[verifier::external_body]
fn mpsc_channel(capacity: usize) -> (r: (
    tokio::sync::mpsc::Sender<bytes::Bytes>,
    tokio::sync::mpsc::Receiver<bytes::Bytes>,
))
    requires
        0 < capacity <= MAX_CAPACITY,
    ensures
        mpsc_bound(r.0) == capacity,
{
    tokio::sync::mpsc::channel(capacity)
}

/// A bridge that holds at most `size` chunks in flight.
pub fn new(size: usize) -> (r: (Producer, Consumer))
    requires
        0 < size <= MAX_CAPACITY,
    ensures
        mpsc_bound(r.0.tx) == size,
{
    let (tx, rx) = mpsc_channel(size);
    (Producer { tx }, Consumer { rx })
}

} // verus!
