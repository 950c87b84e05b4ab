//! The transfer registry: transfer id to transfer state, with the one legal
//! transition (waiting for a receiver, then waiting for the sender) and the
//! one-shot extraction of the sender's end of the bridge.
use crate::bridge;
use std::collections::HashMap;
use vstd::prelude::*;
use vstd::set_lib::lemma_len_subset;

verus! {

#[verifier::external_type_specification]
#[verifier::external_body]
#[verifier::reject_recursive_types(T)]
pub struct ExWatchSender<T>(tokio::sync::watch::Sender<T>);

#[verifier::external_type_specification]
#[verifier::external_body]
#[verifier::reject_recursive_types(T)]
pub struct ExWatchReceiver<T>(tokio::sync::watch::Receiver<T>);

#[verifier::external_type_specification]
#[verifier::external_body]
#[verifier::reject_recursive_types(T)]
pub struct ExOneshotSender<T>(tokio::sync::oneshot::Sender<T>);

#[verifier::external_type_specification]
#[verifier::external_body]
#[verifier::reject_recursive_types(T)]
pub struct ExOneshotReceiver<T>(tokio::sync::oneshot::Receiver<T>);

// What awaiting a `oneshot::Receiver` fails with; Verus asks for it because
// that receiver is a future.
#[verifier::external_type_specification]
#[verifier::external_body]
pub struct ExOneshotRecvError(tokio::sync::oneshot::error::RecvError);

/// Relies on uuid::Uuid::new_v4: a random version-4 id, as its 128 bits. It
/// panics only when the system's random source fails.
#[verifier::external_body]
fn random_id() -> (r: u128) {
    uuid::Uuid::new_v4().as_u128()
}

/// Relies on tokio::sync::watch::channel: a latest-value cell starting at
/// `initial`, readable by any number of subscribers.
#[verifier::external_body]
fn readiness_channel(initial: bool) -> (r: (
    tokio::sync::watch::Sender<bool>,
    tokio::sync::watch::Receiver<bool>,
))
{
    tokio::sync::watch::channel(initial)
}

/// Relies on tokio::sync::watch::Receiver::clone: a new subscriber to the
/// same cell.
#[verifier::external_body]
fn subscribe(rx: &tokio::sync::watch::Receiver<bool>) -> (r: tokio::sync::watch::Receiver<bool>) {
    rx.clone()
}

/// Relies on tokio::sync::watch::Sender::send_replace: stores `value` and
/// wakes every subscriber, whether or not one is listening.
#[verifier::external_body]
fn signal_ready(tx: &tokio::sync::watch::Sender<bool>, value: bool) {
    tx.send_replace(value);
}

/// Relies on tokio::sync::oneshot::channel: a slot that is filled once.
#[verifier::external_body]
fn length_slot() -> (r: (
    tokio::sync::oneshot::Sender<Option<usize>>,
    tokio::sync::oneshot::Receiver<Option<usize>>,
))
{
    tokio::sync::oneshot::channel()
}

/// What the registry knows of a transfer, as its contracts see it.
pub enum TransferState {
    WaitingForReceiver { filename: Seq<char>, content_type: Seq<char> },
    WaitingForSender,
}

pub enum TransferInfo {
    WaitingForReceiver {
        filename: String,
        content_type: String,
        receiver_tx: tokio::sync::watch::Sender<bool>,
        receiver_rx: tokio::sync::watch::Receiver<bool>,
    },
    WaitingForSender {
        sender: bridge::Producer,
        content_length_tx: tokio::sync::oneshot::Sender<Option<usize>>,
    },
}

impl TransferInfo {
    pub open spec fn state(&self) -> TransferState {
        match self {
            TransferInfo::WaitingForReceiver { filename, content_type, .. } => {
                TransferState::WaitingForReceiver { filename: filename@, content_type: content_type@ }
            },
            TransferInfo::WaitingForSender { .. } => TransferState::WaitingForSender,
        }
    }
}

/// What a receiver gets when it claims a transfer.
pub struct ReceiverInfo {
    pub filename: String,
    pub content_type: String,
    pub content_length_rx: tokio::sync::oneshot::Receiver<Option<usize>>,
    pub body: bridge::Consumer,
}

/// What the sender gets when it extracts a claimed transfer.
pub struct SenderInfo {
    pub sender: bridge::Producer,
    pub content_length_tx: tokio::sync::oneshot::Sender<Option<usize>>,
}

/// A transfer can be claimed (and its readiness watched) while it waits for
/// a receiver.
pub open spec fn can_claim(m: Map<u128, TransferState>, id: u128) -> bool {
    m.contains_key(id) && m[id] is WaitingForReceiver
}

/// A transfer can be extracted once a receiver has claimed it.
pub open spec fn can_extract(m: Map<u128, TransferState>, id: u128) -> bool {
    m.contains_key(id) && m[id] is WaitingForSender
}

pub struct Transfers {
    map: HashMap<u128, TransferInfo>,
}

impl View for Transfers {
    type V = Map<u128, TransferState>;

    closed spec fn view(&self) -> Map<u128, TransferState> {
        Map::new(|k: u128| self.map@.contains_key(k), |k: u128| self.map@[k].state())
    }
}

impl Transfers {
    pub fn new() -> (r: Self)
        ensures
            r@ == Map::<u128, TransferState>::empty(),
    {
        let r = Transfers { map: HashMap::new() };
        assert(r@ =~= Map::<u128, TransferState>::empty());
        r
    }

    /// An id that no transfer holds: a random one, or, should that one be
    /// taken, the smallest free one.
    fn fresh_id(&self) -> (id: u128)
        ensures
            !self@.contains_key(id),
    {
        let first = random_id();
        if !self.map.contains_key(&first) {
            return first;
        }
        let n = self.map.len();
        let ghost dom = self.map@.dom();
        let ghost mut tried: Set<u128> = Set::empty();
        let mut k: u128 = 0;
        while self.map.contains_key(&k)
            invariant
                dom == self.map@.dom(),
                dom.finite(),
                dom.len() == n,
                tried.finite(),
                tried.len() == k,
                tried.subset_of(dom),
                forall|x: u128| tried.contains(x) ==> x < k,
                k <= n,
            decreases n - k,
        {
            proof {
                let next = tried.insert(k);
                assert(!tried.contains(k));
                lemma_len_subset(next, dom);
                tried = next;
            }
            k = k + 1;
        }
        k
    }

    /// Registers a new transfer waiting for its receiver, under an id that
    /// no transfer holds.
    pub fn new_transfer(&mut self, filename: String, content_type: String) -> (id: u128)
        ensures
            !old(self)@.contains_key(id),
            final(self)@ == old(self)@.insert(
                id,
                TransferState::WaitingForReceiver { filename: filename@, content_type: content_type@ },
            ),
    {
        let id = self.fresh_id();
        let (receiver_tx, receiver_rx) = readiness_channel(false);
        let ghost st = TransferState::WaitingForReceiver { filename: filename@, content_type: content_type@ };
        self.map.insert(
            id,
            TransferInfo::WaitingForReceiver { filename, content_type, receiver_tx, receiver_rx },
        );
        assert(self@ =~= old(self)@.insert(id, st));
        id
    }

    /// A handle on the readiness signal of a transfer that still waits for
    /// its receiver.
    pub fn receiver_rx(&self, id: u128) -> (r: Option<tokio::sync::watch::Receiver<bool>>)
        ensures
            r.is_some() <==> can_claim(self@, id),
    {
        match self.map.get(&id) {
            Some(TransferInfo::WaitingForReceiver { receiver_rx, .. }) => Some(subscribe(receiver_rx)),
            _ => None,
        }
    }

    /// Claims a transfer for its receiver: builds a bridge of `n_buffers`
    /// chunks, moves the transfer to waiting for the sender and wakes any
    /// sender that waits for the receiver.
    pub fn receive(&mut self, id: u128, n_buffers: usize) -> (r: Option<ReceiverInfo>)
        requires
            0 < n_buffers <= bridge::MAX_CAPACITY,
        ensures
            can_claim(old(self)@, id) ==> {
                &&& r matches Some(info)
                &&& old(self)@[id] == (TransferState::WaitingForReceiver {
                    filename: info.filename@,
                    content_type: info.content_type@,
                })
                &&& final(self)@ == old(self)@.insert(id, TransferState::WaitingForSender)
            },
            !can_claim(old(self)@, id) ==> r is None && final(self)@ == old(self)@,
    {
        match self.map.get(&id) {
            Some(TransferInfo::WaitingForReceiver { .. }) => {},
            _ => return None,
        }
        let (sender, body) = bridge::new(n_buffers);
        let (content_length_tx, content_length_rx) = length_slot();
        let old_info = self.map.insert(id, TransferInfo::WaitingForSender { sender, content_length_tx });
        assert(self@ =~= old(self)@.insert(id, TransferState::WaitingForSender));
        match old_info {
            Some(TransferInfo::WaitingForReceiver { filename, content_type, receiver_tx, .. }) => {
                signal_ready(&receiver_tx, true);
                Some(ReceiverInfo { filename, content_type, content_length_rx, body })
            },
            _ => {
                assert(false);
                None
            },
        }
    }

    /// Takes the sender's end of a claimed transfer, removing the transfer.
    pub fn take_sender(&mut self, id: u128) -> (r: Option<SenderInfo>)
        ensures
            can_extract(old(self)@, id) ==> r is Some && final(self)@ == old(self)@.remove(id),
            !can_extract(old(self)@, id) ==> r is None && final(self)@ == old(self)@,
    {
        match self.map.get(&id) {
            Some(TransferInfo::WaitingForSender { .. }) => {},
            _ => return None,
        }
        let removed = self.map.remove(&id);
        assert(self@ =~= old(self)@.remove(id));
        match removed {
            Some(TransferInfo::WaitingForSender { sender, content_length_tx }) => {
                Some(SenderInfo { sender, content_length_tx })
            },
            _ => {
                assert(false);
                None
            },
        }
    }

    /// Drops a transfer whatever its state: an abandoned transfer.
    pub fn evict(&mut self, id: u128)
        ensures
            final(self)@ == old(self)@.remove(id),
    {
        self.map.remove(&id);
        assert(self@ =~= old(self)@.remove(id));
    }
}

/// One operation on the registry, as its contracts describe it.
pub enum RegistryOp {
    Create { id: u128, filename: Seq<char>, content_type: Seq<char> },
    Claim { id: u128 },
    Extract { id: u128 },
    Evict { id: u128 },
}

/// The registry after one operation: `new_transfer`, `receive`,
/// `take_sender` and `evict` each change it as stated here.
pub open spec fn apply(m: Map<u128, TransferState>, op: RegistryOp) -> Map<u128, TransferState> {
    match op {
        RegistryOp::Create { id, filename, content_type } => m.insert(
            id,
            TransferState::WaitingForReceiver { filename, content_type },
        ),
        RegistryOp::Claim { id } => if can_claim(m, id) {
            m.insert(id, TransferState::WaitingForSender)
        } else {
            m
        },
        RegistryOp::Extract { id } => if can_extract(m, id) {
            m.remove(id)
        } else {
            m
        },
        RegistryOp::Evict { id } => m.remove(id),
    }
}

/// The registry after a sequence of operations.
pub open spec fn run(m: Map<u128, TransferState>, ops: Seq<RegistryOp>) -> Map<u128, TransferState>
    decreases ops.len(),
{
    if ops.len() == 0 {
        m
    } else {
        run(apply(m, ops[0]), ops.drop_first())
    }
}

/// No operation in `ops` creates a transfer under `id`.
pub open spec fn never_creates(ops: Seq<RegistryOp>, id: u128) -> bool {
    forall|i: int| 0 <= i < ops.len() ==> !(#[trigger] ops[i] matches RegistryOp::Create { id: c, .. } && c == id)
}

/// How many claims of `id` succeed along `ops`.
pub open spec fn claims_won(m: Map<u128, TransferState>, ops: Seq<RegistryOp>, id: u128) -> nat
    decreases ops.len(),
{
    if ops.len() == 0 {
        0
    } else {
        (if ops[0] == (RegistryOp::Claim { id }) && can_claim(m, id) { 1nat } else { 0nat })
            + claims_won(apply(m, ops[0]), ops.drop_first(), id)
    }
}

/// How many extractions of `id` succeed along `ops`.
pub open spec fn extractions_won(m: Map<u128, TransferState>, ops: Seq<RegistryOp>, id: u128) -> nat
    decreases ops.len(),
{
    if ops.len() == 0 {
        0
    } else {
        (if ops[0] == (RegistryOp::Extract { id }) && can_extract(m, id) { 1nat } else { 0nat })
            + extractions_won(apply(m, ops[0]), ops.drop_first(), id)
    }
}

proof fn lemma_never_creates_rest(ops: Seq<RegistryOp>, id: u128)
    requires
        ops.len() > 0,
        never_creates(ops, id),
    ensures
        never_creates(ops.drop_first(), id),
        !(ops[0] matches RegistryOp::Create { id: c, .. } && c == id),
{
    assert forall|i: int| 0 <= i < ops.drop_first().len() implies !(
    #[trigger] ops.drop_first()[i] matches RegistryOp::Create { id: c, .. } && c == id) by {
        assert(ops.drop_first()[i] == ops[i + 1]);
    }
    assert(!(ops[0] matches RegistryOp::Create { id: c, .. } && c == id));
}

/// An id that was never created stays unknown whatever else happens, so
/// watching its readiness, claiming it and extracting it all fail.
pub proof fn lemma_unknown_id_fails(m: Map<u128, TransferState>, ops: Seq<RegistryOp>, id: u128)
    requires
        !m.contains_key(id),
        never_creates(ops, id),
    ensures
        !run(m, ops).contains_key(id),
        !can_claim(run(m, ops), id),
        !can_extract(run(m, ops), id),
    decreases ops.len(),
{
    if ops.len() > 0 {
        lemma_never_creates_rest(ops, id);
        lemma_unknown_id_fails(apply(m, ops[0]), ops.drop_first(), id);
    }
}

/// A transfer that cannot be claimed now (absent, or already claimed) is
/// claimed by no later operation unless it is created anew; one that can be
/// claimed is claimed at most once.
pub proof fn lemma_claims_bound(m: Map<u128, TransferState>, ops: Seq<RegistryOp>, id: u128)
    requires
        never_creates(ops, id),
    ensures
        claims_won(m, ops, id) <= (if can_claim(m, id) { 1nat } else { 0nat }),
    decreases ops.len(),
{
    if ops.len() > 0 {
        lemma_never_creates_rest(ops, id);
        lemma_claims_bound(apply(m, ops[0]), ops.drop_first(), id);
        if !can_claim(m, id) {
            assert(!can_claim(apply(m, ops[0]), id));
        }
    }
}

/// Among any sequence of operations that does not create `id` anew, at most
/// one claim of `id` succeeds: the first moves the transfer out of the only
/// state a claim accepts, and no operation moves it back.
pub proof fn lemma_claim_at_most_once(m: Map<u128, TransferState>, ops: Seq<RegistryOp>, id: u128)
    requires
        never_creates(ops, id),
    ensures
        claims_won(m, ops, id) <= 1,
{
    lemma_claims_bound(m, ops, id);
}

/// A transfer that is absent now (never created, extracted or evicted) is
/// extracted by no later operation unless it is created anew; one that is
/// present is extracted at most once.
pub proof fn lemma_extractions_bound(m: Map<u128, TransferState>, ops: Seq<RegistryOp>, id: u128)
    requires
        never_creates(ops, id),
    ensures
        extractions_won(m, ops, id) <= (if m.contains_key(id) { 1nat } else { 0nat }),
    decreases ops.len(),
{
    if ops.len() > 0 {
        lemma_never_creates_rest(ops, id);
        lemma_extractions_bound(apply(m, ops[0]), ops.drop_first(), id);
        if !m.contains_key(id) {
            assert(!apply(m, ops[0]).contains_key(id));
        }
        if ops[0] == (RegistryOp::Extract { id }) && can_extract(m, id) {
            assert(!apply(m, ops[0]).contains_key(id));
        }
    }
}

/// Among any sequence of operations that does not create `id` anew, at most
/// one extraction of `id` succeeds: the first removes the transfer.
pub proof fn lemma_extract_at_most_once(m: Map<u128, TransferState>, ops: Seq<RegistryOp>, id: u128)
    requires
        never_creates(ops, id),
    ensures
        extractions_won(m, ops, id) <= 1,
{
    lemma_extractions_bound(m, ops, id);
}

} // verus!
