//! The expiry scheduler. It keeps two queues: transfers waiting for their
//! deadline, and the outcomes of finished sends, each kept for a short
//! retention window. It is driven from outside: each method takes the time
//! now, in milliseconds of a monotonic clock, and says for how long to arm a
//! timer, if one must be armed; when that timer fires the matching
//! `process_*` method is called.
use crate::transfer::Transfers;
use vstd::prelude::*;

verus! {

/// How long a transfer may stay in the registry after its creation.
pub const TRANSFER_DURATION_MS: u64 = 600_000;

/// How long the outcome of a send stays queryable.
pub const STATUS_DURATION_MS: u64 = 60_000;

/// The shortest pause between two sweeps of the pending queue, and the
/// longest between two sweeps of the statuses.
pub const RECHECK_MS: u64 = 1_000;

/// The latest time the scheduler accepts, far beyond any process lifetime;
/// it keeps every deadline within `u64`.
pub const MAX_TIME_MS: u64 = 0x4000_0000_0000_0000;

#[derive(Clone, Copy)]
pub struct PendingEntry {
    pub id: u128,
    pub start: u64,
}

#[derive(Clone, Copy)]
pub struct StatusEntry {
    pub id: u128,
    pub recorded_at: u64,
    pub succeeded: bool,
}

/// A pending transfer is evicted once it is strictly older than its deadline.
pub open spec fn pending_expired(e: PendingEntry, now: u64) -> bool {
    now - e.start > TRANSFER_DURATION_MS
}

/// A status is dropped once it has been kept for the whole retention window.
pub open spec fn status_expired(e: StatusEntry, now: u64) -> bool {
    now - e.recorded_at >= STATUS_DURATION_MS
}

/// Whether a pending entry is still within its deadline at `now`.
pub open spec fn still_pending(now: u64) -> spec_fn(PendingEntry) -> bool {
    |e: PendingEntry| !pending_expired(e, now)
}

/// Whether a status is still within its retention window at `now`.
pub open spec fn still_recorded(now: u64) -> spec_fn(StatusEntry) -> bool {
    |e: StatusEntry| !status_expired(e, now)
}

/// The statuses by transfer id; a later record of an id hides an earlier one.
pub open spec fn status_map(s: Seq<StatusEntry>) -> Map<u128, StatusEntry>
    decreases s.len(),
{
    if s.len() == 0 {
        Map::empty()
    } else {
        status_map(s.drop_last()).insert(s.last().id, s.last())
    }
}

/// The statuses that a sweep at `now` keeps.
pub open spec fn sweep_statuses(m: Map<u128, StatusEntry>, now: u64) -> Map<u128, StatusEntry> {
    Map::new(|k: u128| m.contains_key(k) && !status_expired(m[k], now), |k: u128| m[k])
}

/// The pause before the next sweep of the statuses: until the earliest
/// expiry, and never more than the re-check interval.
pub open spec fn next_status_check(kept: Seq<StatusEntry>, now: u64) -> Option<u64> {
    if kept.len() == 0 {
        None
    } else {
        Some(min_int(RECHECK_MS as int, kept[0].recorded_at + STATUS_DURATION_MS - now) as u64)
    }
}

proof fn lemma_status_map_from(s: Seq<StatusEntry>, k: u128)
    requires
        status_map(s).contains_key(k),
    ensures
        exists|j: int| 0 <= j < s.len() && s[j] == status_map(s)[k],
    decreases s.len(),
{
    if s.last().id != k {
        lemma_status_map_from(s.drop_last(), k);
        let j = choose|j: int| 0 <= j < s.drop_last().len() && s.drop_last()[j] == status_map(s.drop_last())[k];
        assert(s[j] == s.drop_last()[j]);
    } else {
        assert(s[s.len() - 1] == status_map(s)[k]);
    }
}

/// The ids of the pending entries that have expired at `now`.
pub open spec fn expired_ids(s: Seq<PendingEntry>, now: u64) -> Set<u128> {
    Set::new(|id: u128| exists|j: int| 0 <= j < s.len() && s[j].id == id && pending_expired(s[j], now))
}

pub open spec fn max_int(a: int, b: int) -> int {
    if a >= b { a } else { b }
}

pub open spec fn min_int(a: int, b: int) -> int {
    if a <= b { a } else { b }
}

/// The pause before the next sweep of the pending queue: until the earliest
/// deadline, and never less than the re-check interval.
pub open spec fn next_pending_check(kept: Seq<PendingEntry>, now: u64) -> Option<u64> {
    if kept.len() == 0 {
        None
    } else {
        Some(max_int(RECHECK_MS as int, kept[0].start + TRANSFER_DURATION_MS - now) as u64)
    }
}

pub struct Cleanup {
    pending: Vec<PendingEntry>,
    statuses: Vec<StatusEntry>,
    pending_due: Option<u64>,
    status_due: Option<u64>,
    clock: u64,
}

impl Cleanup {
    /// The pending transfers, oldest first.
    pub closed spec fn pending_entries(&self) -> Seq<PendingEntry> {
        self.pending@
    }

    /// The recorded statuses, oldest first.
    pub closed spec fn status_entries(&self) -> Seq<StatusEntry> {
        self.statuses@
    }

    /// When the armed timer of the pending queue fires, if one is armed.
    pub closed spec fn pending_timer(&self) -> Option<u64> {
        self.pending_due
    }

    /// When the armed timer of the statuses fires, if one is armed.
    pub closed spec fn status_timer(&self) -> Option<u64> {
        self.status_due
    }

    /// The latest time the scheduler has been told.
    pub closed spec fn clock(&self) -> u64 {
        self.clock
    }

    pub open spec fn wf(&self) -> bool {
        let p = self.pending_entries();
        let s = self.status_entries();
        &&& self.clock() <= MAX_TIME_MS
        &&& forall|i: int| #![trigger p[i]] 0 <= i < p.len() ==> p[i].start <= self.clock()
        &&& forall|i: int, j: int| #![trigger p[i], p[j]] 0 <= i < j < p.len() ==> p[i].start <= p[j].start
        &&& p.len() > 0 ==> self.pending_timer() is Some
        &&& self.pending_timer() matches Some(d) ==> {
            &&& d <= self.clock() + TRANSFER_DURATION_MS + RECHECK_MS
            &&& forall|i: int| #![trigger p[i]] 0 <= i < p.len() ==> d <= p[i].start + TRANSFER_DURATION_MS + RECHECK_MS
        }
        &&& forall|i: int| #![trigger s[i]] 0 <= i < s.len() ==> s[i].recorded_at <= self.clock()
        &&& forall|i: int, j: int| #![trigger s[i], s[j]] 0 <= i < j < s.len() ==> s[i].recorded_at <= s[j].recorded_at
        &&& s.len() > 0 ==> self.status_timer() is Some
        &&& self.status_timer() matches Some(d) ==> {
            &&& d <= self.clock() + STATUS_DURATION_MS
            &&& forall|i: int| #![trigger s[i]] 0 <= i < s.len() ==> d <= s[i].recorded_at + STATUS_DURATION_MS
        }
    }

    pub fn new() -> (r: Self)
        ensures
            r.wf(),
            r.pending_entries() == Seq::<PendingEntry>::empty(),
            r.status_entries() == Seq::<StatusEntry>::empty(),
            r.pending_timer() is None,
            r.status_timer() is None,
            r.clock() == 0,
    {
        Cleanup { pending: Vec::new(), statuses: Vec::new(), pending_due: None, status_due: None, clock: 0 }
    }

    /// The latest time the scheduler has been told, in milliseconds.
    pub fn clock_ms(&self) -> (r: u64)
        ensures
            r == self.clock(),
    {
        self.clock
    }

    /// Starts tracking a new transfer for eviction. Returns the pause for
    /// which to arm the pending timer when none is armed yet.
    pub fn track(&mut self, id: u128, now: u64) -> (delay: Option<u64>)
        requires
            old(self).wf(),
            old(self).clock() <= now <= MAX_TIME_MS,
        ensures
            final(self).wf(),
            final(self).clock() == now,
            final(self).pending_entries() == old(self).pending_entries().push(PendingEntry { id, start: now }),
            final(self).status_entries() == old(self).status_entries(),
            final(self).status_timer() == old(self).status_timer(),
            old(self).pending_timer() is None ==> delay == Some(TRANSFER_DURATION_MS)
                && final(self).pending_timer() == Some((now + TRANSFER_DURATION_MS) as u64),
            old(self).pending_timer() is Some ==> delay is None
                && final(self).pending_timer() == old(self).pending_timer(),
    {
        assert(forall|i: int| 0 <= i < self.pending@.len() ==> self.pending@[i].start <= self.clock);
        let delay = if self.pending_due.is_none() {
            self.pending_due = Some(now + TRANSFER_DURATION_MS);
            Some(TRANSFER_DURATION_MS)
        } else {
            None
        };
        self.pending.push(PendingEntry { id, start: now });
        self.clock = now;
        proof {
            let p = self.pending@;
            assert forall|i: int| 0 <= i < p.len() - 1 implies p[i] == old(self).pending@[i] by {}
            assert(p[p.len() - 1].start == now);
            assert forall|i: int| 0 <= i < p.len() implies p[i].start <= self.clock by {
                if i < p.len() - 1 {
                    assert(old(self).pending@[i].start <= old(self).clock);
                }
            }
            let st = self.statuses@;
            assert forall|i: int| 0 <= i < st.len() implies st[i].recorded_at <= self.clock by {
                assert(old(self).statuses@[i].recorded_at <= old(self).clock);
            }
        }
        delay
    }

    /// Sweeps the pending queue: every transfer older than its deadline
    /// leaves the queue and the registry. Returns the pause for which to arm
    /// the next sweep while transfers remain.
    pub fn process_pending(&mut self, transfers: &mut Transfers, now: u64) -> (delay: Option<u64>)
        requires
            old(self).wf(),
            old(self).clock() <= now <= MAX_TIME_MS,
        ensures
            final(self).wf(),
            final(self).clock() == now,
            final(self).pending_entries() == old(self).pending_entries().filter(still_pending(now)),
            forall|e: PendingEntry| #[trigger] final(self).pending_entries().contains(e) <==> (old(
                self,
            ).pending_entries().contains(e) && !pending_expired(e, now)),
            final(transfers)@ == old(transfers)@.remove_keys(expired_ids(old(self).pending_entries(), now)),
            delay == next_pending_check(final(self).pending_entries(), now),
            final(self).pending_timer() == (match delay {
                Some(d) => Some((now + d) as u64),
                None => None,
            }),
            final(self).status_entries() == old(self).status_entries(),
            final(self).status_timer() == old(self).status_timer(),
    {
        let ghost old_p = self.pending@;
        let ghost old_t = transfers@;
        let ghost pred = still_pending(now);
        let mut kept: Vec<PendingEntry> = Vec::new();
        let mut i: usize = 0;
        while i < self.pending.len()
            invariant
                self.pending@ == old_p,
                pred == still_pending(now),
                old_t == old(transfers)@,
                old_p == old(self).pending_entries(),
                old(self).wf(),
                old(self).clock() <= now <= MAX_TIME_MS,
                0 <= i <= old_p.len(),
                kept@ == old_p.subrange(0, i as int).filter(pred),
                transfers@ == old_t.remove_keys(expired_ids(old_p.subrange(0, i as int), now)),
                forall|j: int| #![trigger kept@[j]] 0 <= j < kept@.len() ==> {
                    &&& kept@[j].start <= old(self).clock()
                    &&& !pending_expired(kept@[j], now)
                    &&& forall|k: int| i <= k < old_p.len() ==> kept@[j].start <= #[trigger] old_p[k].start
                },
                forall|j: int, k: int| #![trigger kept@[j], kept@[k]] 0 <= j < k < kept@.len()
                    ==> kept@[j].start <= kept@[k].start,
            decreases old_p.len() - i,
        {
            let e = self.pending[i];
            assert(old_p[i as int] == e);
            let ghost prefix = old_p.subrange(0, i as int);
            let ghost next = old_p.subrange(0, i as int + 1);
            assert(next.drop_last() =~= prefix);
            assert(next.last() == e);
            proof {
                reveal(Seq::filter);
            }
            if now - e.start > TRANSFER_DURATION_MS {
                transfers.evict(e.id);
                assert(expired_ids(next, now) =~= expired_ids(prefix, now).insert(e.id)) by {
                    assert forall|id: u128| expired_ids(next, now).contains(id) implies
                        expired_ids(prefix, now).insert(e.id).contains(id) by {
                        let j = choose|j: int| 0 <= j < next.len() && next[j].id == id && pending_expired(next[j], now);
                        if j < i {
                            assert(prefix[j] == next[j]);
                        }
                    }
                    assert forall|id: u128| expired_ids(prefix, now).insert(e.id).contains(id) implies
                        expired_ids(next, now).contains(id) by {
                        if id == e.id {
                            assert(next[i as int] == e);
                        } else {
                            let j = choose|j: int| 0 <= j < prefix.len() && prefix[j].id == id && pending_expired(prefix[j], now);
                            assert(next[j] == prefix[j]);
                        }
                    }
                }
                assert(transfers@ =~= old_t.remove_keys(expired_ids(next, now)));
                assert(pending_expired(e, now));
                assert(!pred(e));
                assert(next.filter(pred) == prefix.filter(pred));
            } else {
                kept.push(e);
                assert(!pending_expired(e, now));
                assert(pred(e));
                assert(next.filter(pred) == prefix.filter(pred).push(e));
                assert(expired_ids(next, now) =~= expired_ids(prefix, now)) by {
                    assert forall|id: u128| expired_ids(next, now).contains(id) implies
                        expired_ids(prefix, now).contains(id) by {
                        let j = choose|j: int| 0 <= j < next.len() && next[j].id == id && pending_expired(next[j], now);
                        assert(j != i);
                        assert(prefix[j] == next[j]);
                    }
                    assert forall|id: u128| expired_ids(prefix, now).contains(id) implies
                        expired_ids(next, now).contains(id) by {
                        let j = choose|j: int| 0 <= j < prefix.len() && prefix[j].id == id && pending_expired(prefix[j], now);
                        assert(next[j] == prefix[j]);
                    }
                }
            }
            assert forall|j: int, k: int| #![trigger kept@[j], old_p[k]] i + 1 <= k < old_p.len() && 0 <= j < kept@.len() implies
                kept@[j].start <= old_p[k].start by {
                assert(old_p[i as int].start <= old_p[k].start);
            }
            i = i + 1;
        }
        assert(old_p.subrange(0, old_p.len() as int) =~= old_p);
        proof {
            broadcast use vstd::seq_lib::group_filter_ensures;

            assert forall|e: PendingEntry| #[trigger] kept@.contains(e) <==> (old_p.contains(e) && !pending_expired(e, now)) by {
                if old_p.contains(e) && !pending_expired(e, now) {
                    let j = choose|j: int| 0 <= j < old_p.len() && old_p[j] == e;
                    old_p.lemma_filter_contains(pred, j);
                }
                if kept@.contains(e) {
                    old_p.lemma_filter_contains_rev(pred, e);
                    let j = choose|j: int| 0 <= j < kept@.len() && kept@[j] == e;
                    old_p.lemma_filter_pred(pred, j);
                }
            }
        }
        let delay = if kept.len() == 0 {
            None
        } else {
            let first = kept[0].start;
            let until = first + TRANSFER_DURATION_MS - now;
            if until >= RECHECK_MS {
                Some(until)
            } else {
                Some(RECHECK_MS)
            }
        };
        self.pending = kept;
        self.clock = now;
        self.pending_due = match delay {
            Some(d) => Some(now + d),
            None => None,
        };
        proof {
            let p = self.pending_entries();
            let st = self.status_entries();
            assert(st == old(self).status_entries());
            assert forall|j: int| 0 <= j < st.len() implies st[j].recorded_at <= now by {
                assert(old(self).status_entries()[j].recorded_at <= old(self).clock());
            }
            if p.len() > 0 {
                assert forall|j: int| 0 <= j < p.len() implies
                    self.pending_due.unwrap() <= p[j].start + TRANSFER_DURATION_MS + RECHECK_MS by {
                    assert(p[0].start <= p[j].start);
                }
            }
        }
        delay
    }

    /// The statuses by transfer id.
    pub open spec fn statuses(&self) -> Map<u128, StatusEntry> {
        status_map(self.status_entries())
    }

    /// Records the outcome of a send. Returns the pause for which to arm the
    /// status timer when none is armed yet.
    pub fn put_status(&mut self, id: u128, succeeded: bool, now: u64) -> (delay: Option<u64>)
        requires
            old(self).wf(),
            old(self).clock() <= now <= MAX_TIME_MS,
        ensures
            final(self).wf(),
            final(self).clock() == now,
            final(self).status_entries() == old(self).status_entries().push(
                StatusEntry { id, recorded_at: now, succeeded },
            ),
            final(self).statuses() == old(self).statuses().insert(
                id,
                StatusEntry { id, recorded_at: now, succeeded },
            ),
            final(self).pending_entries() == old(self).pending_entries(),
            final(self).pending_timer() == old(self).pending_timer(),
            old(self).status_timer() is None ==> delay == Some(STATUS_DURATION_MS)
                && final(self).status_timer() == Some((now + STATUS_DURATION_MS) as u64),
            old(self).status_timer() is Some ==> delay is None
                && final(self).status_timer() == old(self).status_timer(),
    {
        assert(forall|i: int| 0 <= i < self.statuses@.len() ==> self.statuses@[i].recorded_at <= self.clock);
        assert(forall|i: int| 0 <= i < self.pending@.len() ==> self.pending@[i].start <= self.clock);
        let delay = if self.status_due.is_none() {
            self.status_due = Some(now + STATUS_DURATION_MS);
            Some(STATUS_DURATION_MS)
        } else {
            None
        };
        let entry = StatusEntry { id, recorded_at: now, succeeded };
        self.statuses.push(entry);
        self.clock = now;
        proof {
            let st = self.statuses@;
            assert(st.drop_last() =~= old(self).statuses@);
            assert forall|i: int| 0 <= i < st.len() - 1 implies st[i] == old(self).statuses@[i] by {}
            assert(st[st.len() - 1] == entry);
            assert forall|i: int| 0 <= i < st.len() implies st[i].recorded_at <= now by {
                if i < st.len() - 1 {
                    assert(old(self).status_entries()[i].recorded_at <= old(self).clock());
                }
            }
            assert forall|i: int, j: int| 0 <= i < j < st.len() implies st[i].recorded_at
                <= st[j].recorded_at by {
                if j < st.len() - 1 {
                    assert(old(self).status_entries()[i].recorded_at <= old(self).status_entries()[j].recorded_at);
                } else {
                    assert(old(self).status_entries()[i].recorded_at <= old(self).clock());
                }
            }
            if let Some(d) = self.status_due {
                assert forall|i: int| 0 <= i < st.len() implies d <= st[i].recorded_at + STATUS_DURATION_MS by {
                    if i < st.len() - 1 && old(self).status_due.is_some() {
                        assert(d <= old(self).status_entries()[i].recorded_at + STATUS_DURATION_MS);
                    }
                }
            }
            let p = self.pending_entries();
            assert(p == old(self).pending_entries());
            assert forall|i: int| 0 <= i < p.len() implies p[i].start <= now by {
                assert(old(self).pending_entries()[i].start <= old(self).clock());
            }
        }
        delay
    }

    /// The outcome recorded for a transfer, while it is kept.
    pub fn get_status(&self, id: u128) -> (r: Option<bool>)
        ensures
            r == (if self.statuses().contains_key(id) {
                Some(self.statuses()[id].succeeded)
            } else {
                None
            }),
    {
        let ghost s = self.statuses@;
        let mut found: Option<bool> = None;
        let mut i: usize = 0;
        while i < self.statuses.len()
            invariant
                s == self.statuses@,
                0 <= i <= s.len(),
                found == (if status_map(s.subrange(0, i as int)).contains_key(id) {
                    Some(status_map(s.subrange(0, i as int))[id].succeeded)
                } else {
                    None
                }),
            decreases s.len() - i,
        {
            assert(s.subrange(0, i as int + 1).drop_last() =~= s.subrange(0, i as int));
            assert(s.subrange(0, i as int + 1).last() == s[i as int]);
            if self.statuses[i].id == id {
                found = Some(self.statuses[i].succeeded);
            }
            i = i + 1;
        }
        assert(s.subrange(0, s.len() as int) =~= s);
        found
    }

    /// Sweeps the statuses: every status kept for its whole retention
    /// window is dropped. Returns the pause for which to arm the next sweep
    /// while statuses remain.
    pub fn process_statuses(&mut self, now: u64) -> (delay: Option<u64>)
        requires
            old(self).wf(),
            old(self).clock() <= now <= MAX_TIME_MS,
        ensures
            final(self).wf(),
            final(self).clock() == now,
            final(self).status_entries() == old(self).status_entries().filter(still_recorded(now)),
            forall|e: StatusEntry| #[trigger] final(self).status_entries().contains(e) <==> (old(
                self,
            ).status_entries().contains(e) && !status_expired(e, now)),
            final(self).statuses() == sweep_statuses(old(self).statuses(), now),
            delay == next_status_check(final(self).status_entries(), now),
            final(self).status_timer() == (match delay {
                Some(d) => Some((now + d) as u64),
                None => None,
            }),
            final(self).pending_entries() == old(self).pending_entries(),
            final(self).pending_timer() == old(self).pending_timer(),
    {
        let ghost old_s = self.statuses@;
        let ghost pred = still_recorded(now);
        let mut kept: Vec<StatusEntry> = Vec::new();
        let mut i: usize = 0;
        while i < self.statuses.len()
            invariant
                self.statuses@ == old_s,
                pred == still_recorded(now),
                old_s == old(self).status_entries(),
                old(self).wf(),
                old(self).clock() <= now <= MAX_TIME_MS,
                0 <= i <= old_s.len(),
                kept@ == old_s.subrange(0, i as int).filter(pred),
                status_map(kept@) == sweep_statuses(status_map(old_s.subrange(0, i as int)), now),
                forall|j: int| #![trigger kept@[j]] 0 <= j < kept@.len() ==> {
                    &&& kept@[j].recorded_at <= old(self).clock()
                    &&& !status_expired(kept@[j], now)
                    &&& forall|k: int| i <= k < old_s.len() ==> kept@[j].recorded_at <= #[trigger] old_s[k].recorded_at
                },
                forall|j: int, k: int| #![trigger kept@[j], kept@[k]] 0 <= j < k < kept@.len()
                    ==> kept@[j].recorded_at <= kept@[k].recorded_at,
            decreases old_s.len() - i,
        {
            let e = self.statuses[i];
            assert(old_s[i as int] == e);
            assert(old(self).status_entries()[i as int].recorded_at <= old(self).clock());
            let ghost prefix = old_s.subrange(0, i as int);
            let ghost next = old_s.subrange(0, i as int + 1);
            assert(next.drop_last() =~= prefix);
            assert(next.last() == e);
            proof {
                reveal(Seq::filter);
            }
            if now - e.recorded_at >= STATUS_DURATION_MS {
                assert(status_expired(e, now));
                assert(!pred(e));
                assert(next.filter(pred) == prefix.filter(pred));
                let ghost m = status_map(prefix);
                assert(sweep_statuses(m.insert(e.id, e), now) =~= sweep_statuses(m, now)) by {
                    if m.contains_key(e.id) {
                        lemma_status_map_from(prefix, e.id);
                        let j = choose|j: int| 0 <= j < prefix.len() && prefix[j] == m[e.id];
                        assert(old_s[j] == prefix[j]);
                        assert(old(self).status_entries()[j].recorded_at <= old(self).status_entries()[i as int].recorded_at);
                    }
                }
            } else {
                let ghost before = kept@;
                kept.push(e);
                assert(kept@.drop_last() =~= before);
                assert(!status_expired(e, now));
                assert(pred(e));
                assert(next.filter(pred) == prefix.filter(pred).push(e));
                let ghost m = status_map(prefix);
                assert(sweep_statuses(m.insert(e.id, e), now) =~= sweep_statuses(m, now).insert(e.id, e));
            }
            assert forall|j: int, k: int| #![trigger kept@[j], old_s[k]] i + 1 <= k < old_s.len() && 0 <= j < kept@.len() implies
                kept@[j].recorded_at <= old_s[k].recorded_at by {
                assert(old(self).status_entries()[i as int].recorded_at <= old(self).status_entries()[k].recorded_at);
            }
            i = i + 1;
        }
        assert(old_s.subrange(0, old_s.len() as int) =~= old_s);
        proof {
            broadcast use vstd::seq_lib::group_filter_ensures;

            assert forall|e: StatusEntry| #[trigger] kept@.contains(e) <==> (old_s.contains(e) && !status_expired(e, now)) by {
                if old_s.contains(e) && !status_expired(e, now) {
                    let j = choose|j: int| 0 <= j < old_s.len() && old_s[j] == e;
                    old_s.lemma_filter_contains(pred, j);
                }
                if kept@.contains(e) {
                    old_s.lemma_filter_contains_rev(pred, e);
                    let j = choose|j: int| 0 <= j < kept@.len() && kept@[j] == e;
                    old_s.lemma_filter_pred(pred, j);
                }
            }
        }
        let delay = if kept.len() == 0 {
            None
        } else {
            let until = kept[0].recorded_at + STATUS_DURATION_MS - now;
            if until <= RECHECK_MS {
                Some(until)
            } else {
                Some(RECHECK_MS)
            }
        };
        self.statuses = kept;
        self.clock = now;
        self.status_due = match delay {
            Some(d) => Some(now + d),
            None => None,
        };
        proof {
            let p = self.pending_entries();
            assert(p == old(self).pending_entries());
            assert forall|j: int| 0 <= j < p.len() implies p[j].start <= now by {
                assert(old(self).pending_entries()[j].start <= old(self).clock());
            }
            let st = self.status_entries();
            if st.len() > 0 {
                assert forall|j: int| 0 <= j < st.len() implies
                    self.status_due.unwrap() <= st[j].recorded_at + STATUS_DURATION_MS by {
                    assert(st[0].recorded_at <= st[j].recorded_at);
                }
            }
        }
        delay
    }
}

/// A tracked transfer leaves the pending queue, and with it the registry, at
/// the first sweep after its deadline and at none before it; and while it is
/// tracked a sweep is armed for no later than its deadline plus one
/// re-check interval.
pub proof fn lemma_pending_eviction_window(c: Cleanup, j: int, now: u64)
    requires
        c.wf(),
        0 <= j < c.pending_entries().len(),
    ensures
        c.pending_timer() matches Some(d)
            && d <= c.pending_entries()[j].start + TRANSFER_DURATION_MS + RECHECK_MS,
        now <= c.pending_entries()[j].start + TRANSFER_DURATION_MS ==> c.pending_entries().filter(
            still_pending(now),
        ).contains(c.pending_entries()[j]),
        now > c.pending_entries()[j].start + TRANSFER_DURATION_MS ==> expired_ids(
            c.pending_entries(),
            now,
        ).contains(c.pending_entries()[j].id),
{
    let p = c.pending_entries();
    if now <= p[j].start + TRANSFER_DURATION_MS {
        p.lemma_filter_contains(still_pending(now), j);
    }
}

/// A recorded status stays queryable through every sweep during its
/// retention window and is gone from any sweep after it; while it is kept a
/// sweep is armed for no later than the end of its window.
pub proof fn lemma_status_retention(c: Cleanup, id: u128, now: u64)
    requires
        c.wf(),
        c.statuses().contains_key(id),
    ensures
        c.status_timer() matches Some(d) && d <= c.statuses()[id].recorded_at + STATUS_DURATION_MS,
        now < c.statuses()[id].recorded_at + STATUS_DURATION_MS ==> sweep_statuses(c.statuses(), now).contains_key(id)
            && sweep_statuses(c.statuses(), now)[id] == c.statuses()[id],
        now >= c.statuses()[id].recorded_at + STATUS_DURATION_MS ==> !sweep_statuses(
            c.statuses(),
            now,
        ).contains_key(id),
{
    lemma_status_map_from(c.status_entries(), id);
    let s = c.status_entries();
    let j = choose|j: int| 0 <= j < s.len() && s[j] == status_map(s)[id];
    assert(s[j] == c.statuses()[id]);
}

} // verus!
