//! The control node's registry of connected workers, keyed by stable id, with
//! liveness timestamps and the outbound queue of each worker.
//!
//! Times are milliseconds on a monotonic clock that the caller reads.
use vstd::prelude::*;
use crate::messages::{CortexToNeuron, NeuronDescriptor};

verus! {

/// Outbound queue of one worker's session.
#[verifier::external_type_specification]
#[verifier::external_body]
#[verifier::reject_recursive_types(T)]
pub struct ExUnboundedSender<T>(tokio::sync::mpsc::UnboundedSender<T>);

/// Relies on tokio's `UnboundedSender::send`: it never blocks, and returns an
/// error only when the receiving half has been closed or dropped.
#[verifier::external_body]
fn enqueue(tx: &tokio::sync::mpsc::UnboundedSender<CortexToNeuron>, msg: CortexToNeuron) -> (r:
    bool) {
    tx.send(msg).is_ok()
}

/// The control node's record of one live session.
pub struct ConnectedNeuron {
    pub descriptor: NeuronDescriptor,
    /// When the last heartbeat (or registration) arrived.
    pub last_heartbeat: u64,
    /// Queue towards the worker, once its writer runs.
    pub outbound_tx: Option<tokio::sync::mpsc::UnboundedSender<CortexToNeuron>>,
}

/// A worker as listed with its liveness.
pub struct NeuronView {
    pub descriptor: NeuronDescriptor,
    /// Milliseconds since the last heartbeat.
    pub last_heartbeat_age: u64,
}

/// Why a message could not be handed to a worker.
pub enum SendError {
    /// No record exists for the id.
    UnknownNeuron,
    /// The record exists but its writer is not attached yet.
    NoSender,
    /// The worker's queue has been closed.
    Closed,
}

/// Registry of connected workers.
pub struct NeuronRegistry {
    neurons: Vec<ConnectedNeuron>,
}

/// The key of a stable id as a sequence of characters.
pub open spec fn key_of(id: Option<String>) -> Option<Seq<char>> {
    match id {
        Some(s) => Some(s@),
        None => None,
    }
}

/// The key a record is filed under.
pub open spec fn record_key(n: ConnectedNeuron) -> Option<Seq<char>> {
    key_of(n.descriptor.node_id)
}

/// Whether some record is filed under `k`.
pub open spec fn has_key(s: Seq<ConnectedNeuron>, k: Option<Seq<char>>) -> bool {
    exists|i: int| 0 <= i < s.len() && record_key(#[trigger] s[i]) == k
}

/// The position of the record filed under `k` (meaningful when `has_key`).
pub open spec fn index_of(s: Seq<ConnectedNeuron>, k: Option<Seq<char>>) -> int {
    choose|i: int| 0 <= i < s.len() && record_key(#[trigger] s[i]) == k
}

/// At most one record per key.
pub open spec fn keys_unique(s: Seq<ConnectedNeuron>) -> bool {
    forall|i: int, j: int|
        0 <= i < s.len() && 0 <= j < s.len() && i != j ==> record_key(#[trigger] s[i])
            != record_key(#[trigger] s[j])
}

/// Time since `last`, zero if the clock reads earlier.
pub open spec fn elapsed(now: u64, last: u64) -> u64 {
    if now >= last {
        (now - last) as u64
    } else {
        0
    }
}

/// Whether a record outlives a prune at `now` with `timeout`.
pub open spec fn is_fresh(n: ConnectedNeuron, timeout: u64, now: u64) -> bool {
    elapsed(now, n.last_heartbeat) <= timeout
}

/// The records after an upsert of `d` at `now`.
pub open spec fn upsert_spec(s: Seq<ConnectedNeuron>, d: NeuronDescriptor, now: u64) -> Seq<
    ConnectedNeuron,
> {
    let k = key_of(d.node_id);
    if has_key(s, k) {
        let i = index_of(s, k);
        s.update(
            i,
            ConnectedNeuron { descriptor: d, last_heartbeat: now, outbound_tx: s[i].outbound_tx },
        )
    } else {
        s.push(ConnectedNeuron { descriptor: d, last_heartbeat: now, outbound_tx: None })
    }
}

/// The records after a heartbeat of the worker filed under `k` at `now`.
pub open spec fn heartbeat_spec(s: Seq<ConnectedNeuron>, k: Option<Seq<char>>, now: u64) -> Seq<
    ConnectedNeuron,
> {
    if has_key(s, k) {
        let i = index_of(s, k);
        s.update(
            i,
            ConnectedNeuron {
                descriptor: s[i].descriptor,
                last_heartbeat: now,
                outbound_tx: s[i].outbound_tx,
            },
        )
    } else {
        s
    }
}

/// The records after upserting `ds[0]` at `nows[0]`, then `ds[1]` at
/// `nows[1]`, and so on.
pub open spec fn upsert_all(
    s: Seq<ConnectedNeuron>,
    ds: Seq<NeuronDescriptor>,
    nows: Seq<u64>,
) -> Seq<ConnectedNeuron>
    decreases ds.len(),
{
    if ds.len() == 0 || nows.len() != ds.len() {
        s
    } else {
        upsert_spec(upsert_all(s, ds.drop_last(), nows.drop_last()), ds.last(), nows.last())
    }
}

/// The records that a prune keeps, in order.
pub open spec fn prune_spec(s: Seq<ConnectedNeuron>, timeout: u64, now: u64) -> Seq<
    ConnectedNeuron,
>
    decreases s.len(),
{
    if s.len() == 0 {
        s
    } else {
        let p = prune_spec(s.drop_last(), timeout, now);
        if is_fresh(s.last(), timeout, now) {
            p.push(s.last())
        } else {
            p
        }
    }
}

/// The descriptors of the records that a prune removes, in order.
pub open spec fn pruned_spec(s: Seq<ConnectedNeuron>, timeout: u64, now: u64) -> Seq<
    NeuronDescriptor,
>
    decreases s.len(),
{
    if s.len() == 0 {
        Seq::empty()
    } else {
        let p = pruned_spec(s.drop_last(), timeout, now);
        if is_fresh(s.last(), timeout, now) {
            p
        } else {
            p.push(s.last().descriptor)
        }
    }
}

/// A prune keeps exactly the fresh records.
pub proof fn lemma_prune_members(s: Seq<ConnectedNeuron>, timeout: u64, now: u64)
    ensures
        forall|x: ConnectedNeuron|
            prune_spec(s, timeout, now).contains(x) <==> (s.contains(x) && is_fresh(
                x,
                timeout,
                now,
            )),
        prune_spec(s, timeout, now).len() <= s.len(),
    decreases s.len(),
{
    if s.len() > 0 {
        lemma_prune_members(s.drop_last(), timeout, now);
        assert forall|x: ConnectedNeuron| s.contains(x) <==> (s.drop_last().contains(x) || x
            == s.last()) by {
            if s.contains(x) {
                let i = choose|i: int| 0 <= i < s.len() && s[i] == x;
                if i < s.len() - 1 {
                    assert(s.drop_last()[i] == x);
                }
            }
            if s.drop_last().contains(x) {
                let i = choose|i: int| 0 <= i < s.drop_last().len() && s.drop_last()[i] == x;
                assert(s[i] == x);
            }
            if x == s.last() {
                assert(s[s.len() - 1] == x);
            }
        }
        let p = prune_spec(s.drop_last(), timeout, now);
        assert forall|x: ConnectedNeuron| p.push(s.last()).contains(x) <==> (p.contains(x) || x
            == s.last()) by {
            if p.push(s.last()).contains(x) {
                let i = choose|i: int|
                    0 <= i < p.push(s.last()).len() && p.push(s.last())[i] == x;
                if i < p.len() {
                    assert(p[i] == x);
                }
            }
            if p.contains(x) {
                let i = choose|i: int| 0 <= i < p.len() && p[i] == x;
                assert(p.push(s.last())[i] == x);
            }
            if x == s.last() {
                assert(p.push(s.last())[p.len() as int] == x);
            }
        }
    }
}

/// A prune keeps the kept records' keys unique.
pub proof fn lemma_prune_keeps_unique(s: Seq<ConnectedNeuron>, timeout: u64, now: u64)
    requires
        keys_unique(s),
    ensures
        keys_unique(prune_spec(s, timeout, now)),
    decreases s.len(),
{
    if s.len() > 0 {
        let d = s.drop_last();
        assert(keys_unique(d)) by {
            assert forall|i: int, j: int|
                0 <= i < d.len() && 0 <= j < d.len() && i != j implies record_key(#[trigger] d[i])
                != record_key(#[trigger] d[j]) by {
                assert(d[i] == s[i] && d[j] == s[j]);
            }
        }
        lemma_prune_keeps_unique(d, timeout, now);
        lemma_prune_members(d, timeout, now);
        let q = prune_spec(d, timeout, now);
        let last = s.last();
        if is_fresh(last, timeout, now) {
            let p = q.push(last);
            assert forall|i: int, j: int|
                0 <= i < p.len() && 0 <= j < p.len() && i != j implies record_key(#[trigger] p[i])
                != record_key(#[trigger] p[j]) by {
                if i < q.len() && j < q.len() {
                    assert(p[i] == q[i] && p[j] == q[j]);
                } else {
                    let o = if i < q.len() { i } else { j };
                    assert(p[o] == q[o]);
                    assert(q.contains(q[o]));
                    assert(d.contains(q[o]));
                    let w = choose|w: int| 0 <= w < d.len() && d[w] == q[o];
                    assert(s[w] == q[o]);
                    assert(s[s.len() - 1] == last);
                    assert(record_key(s[w]) != record_key(s[s.len() - 1]));
                }
            }
        }
    }
}

/// An upsert keeps one record per key and files `d`, with heartbeat `now`,
/// under its key.
pub proof fn lemma_upsert_spec(s: Seq<ConnectedNeuron>, d: NeuronDescriptor, now: u64)
    requires
        keys_unique(s),
    ensures
        keys_unique(upsert_spec(s, d, now)),
        has_key(upsert_spec(s, d, now), key_of(d.node_id)),
        upsert_spec(s, d, now)[index_of(upsert_spec(s, d, now), key_of(d.node_id))].descriptor
            == d,
        upsert_spec(s, d, now)[index_of(
            upsert_spec(s, d, now),
            key_of(d.node_id),
        )].last_heartbeat == now,
{
    let k = key_of(d.node_id);
    let r = upsert_spec(s, d, now);
    let i = if has_key(s, k) {
        index_of(s, k)
    } else {
        s.len() as int
    };
    if has_key(s, k) {
        assert(record_key(s[i]) == k);
    }
    assert(record_key(r[i]) == k);
    assert forall|a: int, b: int|
        0 <= a < r.len() && 0 <= b < r.len() && a != b implies record_key(#[trigger] r[a])
        != record_key(#[trigger] r[b]) by {
        if a != i && b != i {
            assert(r[a] == s[a] && r[b] == s[b]);
        } else if a == i {
            assert(r[b] == s[b]);
            if !has_key(s, k) {
                assert(record_key(s[b]) != k);
            }
        } else {
            assert(r[a] == s[a]);
            if !has_key(s, k) {
                assert(record_key(s[a]) != k);
            }
        }
    }
    let c = index_of(r, k);
    if c != i {
        assert(record_key(r[c]) != record_key(r[i]));
    }
}

/// Any sequence of upserts that all carry the same stable id leaves exactly
/// one record for that id, holding the last descriptor upserted and the time
/// of the last upsert as its heartbeat.
pub proof fn lemma_upserts_with_same_id(
    s: Seq<ConnectedNeuron>,
    ds: Seq<NeuronDescriptor>,
    nows: Seq<u64>,
    id: Seq<char>,
)
    requires
        keys_unique(s),
        ds.len() > 0,
        nows.len() == ds.len(),
        forall|i: int| 0 <= i < ds.len() ==> key_of(#[trigger] ds[i].node_id) == Some(id),
    ensures
        keys_unique(upsert_all(s, ds, nows)),
        has_key(upsert_all(s, ds, nows), Some(id)),
        forall|j: int|
            0 <= j < upsert_all(s, ds, nows).len() && record_key(
                #[trigger] upsert_all(s, ds, nows)[j],
            ) == Some(id) ==> j == index_of(upsert_all(s, ds, nows), Some(id)),
        upsert_all(s, ds, nows)[index_of(upsert_all(s, ds, nows), Some(id))].descriptor
            == ds.last(),
        upsert_all(s, ds, nows)[index_of(
            upsert_all(s, ds, nows),
            Some(id),
        )].last_heartbeat == nows.last(),
    decreases ds.len(),
{
    let prev = upsert_all(s, ds.drop_last(), nows.drop_last());
    if ds.len() > 1 {
        assert forall|i: int| 0 <= i < ds.drop_last().len() implies key_of(
            #[trigger] ds.drop_last()[i].node_id,
        ) == Some(id) by {
            assert(ds.drop_last()[i] == ds[i]);
        }
        lemma_upserts_with_same_id(s, ds.drop_last(), nows.drop_last(), id);
    } else {
        assert(prev == s);
    }
    assert(key_of(ds[ds.len() - 1].node_id) == Some(id));
    lemma_upsert_spec(prev, ds.last(), nows.last());
    let r = upsert_all(s, ds, nows);
    assert forall|j: int|
        0 <= j < r.len() && record_key(#[trigger] r[j]) == Some(id) implies j == index_of(
        r,
        Some(id),
    ) by {
        let c = index_of(r, Some(id));
        if j != c {
            assert(record_key(r[j]) != record_key(r[c]));
        }
    }
}

/// A worker whose last heartbeat came at `t0` survives every prune at a time
/// `t` no later than `h` after it, for any `h` below the timeout: a worker
/// that heartbeats every `h < timeout` is never pruned. A prune removes a
/// worker exactly when its time since the last heartbeat exceeds the timeout.
pub proof fn lemma_heartbeating_worker_survives(
    s: Seq<ConnectedNeuron>,
    id: Seq<char>,
    t0: u64,
    t: u64,
    timeout: u64,
    h: u64,
)
    requires
        keys_unique(s),
        has_key(s, Some(id)),
        t0 <= t,
        t - t0 <= h,
        h < timeout,
    ensures
        has_key(prune_spec(heartbeat_spec(s, Some(id), t0), timeout, t), Some(id)),
        forall|x: ConnectedNeuron|
            s.contains(x) ==> (prune_spec(s, timeout, t).contains(x) <==> elapsed(
                t,
                x.last_heartbeat,
            ) <= timeout),
{
    let k = Some(id);
    let hb = heartbeat_spec(s, k, t0);
    let i = index_of(s, k);
    assert(record_key(hb[i]) == k);
    assert(hb.contains(hb[i]));
    lemma_prune_members(hb, timeout, t);
    lemma_prune_members(s, timeout, t);
    let p = prune_spec(hb, timeout, t);
    assert(p.contains(hb[i]));
    let w = choose|w: int| 0 <= w < p.len() && p[w] == hb[i];
    assert(record_key(p[w]) == k);
}

impl NeuronRegistry {
    /// The records, in insertion order.
    pub closed spec fn records(&self) -> Seq<ConnectedNeuron> {
        self.neurons@
    }

    /// At most one record per stable id.
    pub open spec fn well_formed(&self) -> bool {
        keys_unique(self.records())
    }

    /// An empty registry.
    pub fn new() -> (r: Self)
        ensures
            r.records().len() == 0,
            r.well_formed(),
    {
        NeuronRegistry { neurons: Vec::new() }
    }

    /// Number of records.
    pub fn len(&self) -> (r: usize)
        ensures
            r == self.records().len(),
    {
        self.neurons.len()
    }

    /// Position of the record filed under `key`, if any.
    fn position(&self, key: &Option<String>) -> (r: Option<usize>)
        requires
            self.well_formed(),
        ensures
            match r {
                Some(i) => i < self.records().len() && record_key(self.records()[i as int])
                    == key_of(*key) && i == index_of(self.records(), key_of(*key)),
                None => !has_key(self.records(), key_of(*key)),
            },
    {
        let mut i: usize = 0;
        while i < self.neurons.len()
            invariant
                i <= self.neurons@.len(),
                self.well_formed(),
                forall|j: int| 0 <= j < i ==> record_key(#[trigger] self.neurons@[j]) != key_of(
                    *key,
                ),
            decreases self.neurons@.len() - i,
        {
            let same = match (&self.neurons[i].descriptor.node_id, key) {
                (Some(a), Some(b)) => *a == *b,
                (None, None) => true,
                _ => false,
            };
            if same {
                proof {
                    let s = self.neurons@;
                    let k = key_of(*key);
                    assert(record_key(s[i as int]) == k);
                    let c = index_of(s, k);
                    assert(record_key(s[c]) == k);
                    assert(keys_unique(s));
                    if c != i {
                        assert(record_key(s[c]) != record_key(s[i as int]));
                    }
                }
                return Some(i);
            }
            i = i + 1;
        }
        None
    }

    /// Inserts a worker with heartbeat `now`, or replaces the descriptor of
    /// the record with the same stable id and refreshes its heartbeat.
    pub fn upsert_neuron(&mut self, descriptor: NeuronDescriptor, now: u64)
        requires
            old(self).well_formed(),
        ensures
            final(self).well_formed(),
            final(self).records() == upsert_spec(old(self).records(), descriptor, now),
    {
        let key = crate::protocol::clone_opt_string(&descriptor.node_id);
        match self.position(&key) {
            Some(i) => {
                let old_rec = self.neurons.remove(i);
                let rec = ConnectedNeuron {
                    descriptor,
                    last_heartbeat: now,
                    outbound_tx: old_rec.outbound_tx,
                };
                self.neurons.insert(i, rec);
                proof {
                    let s = old(self).neurons@;
                    assert(self.neurons@ =~= s.update(i as int, rec));
                    assert forall|a: int, b: int|
                        0 <= a < self.neurons@.len() && 0 <= b < self.neurons@.len() && a
                            != b implies record_key(#[trigger] self.neurons@[a]) != record_key(
                        #[trigger] self.neurons@[b],
                    ) by {
                        assert(record_key(self.neurons@[i as int]) == record_key(s[i as int]));
                        if a != i && b != i {
                            assert(self.neurons@[a] == s[a]);
                        }
                    }
                }
            },
            None => {
                let rec = ConnectedNeuron { descriptor, last_heartbeat: now, outbound_tx: None };
                self.neurons.push(rec);
                proof {
                    let s = old(self).neurons@;
                    assert forall|a: int, b: int|
                        0 <= a < self.neurons@.len() && 0 <= b < self.neurons@.len() && a
                            != b implies record_key(#[trigger] self.neurons@[a]) != record_key(
                        #[trigger] self.neurons@[b],
                    ) by {
                        if a < s.len() && b < s.len() {
                            assert(self.neurons@[a] == s[a]);
                        } else if a < s.len() {
                            assert(self.neurons@[a] == s[a]);
                        } else {
                            assert(self.neurons@[b] == s[b]);
                        }
                    }
                }
            },
        }
    }

    /// Attaches the outbound queue of the worker `neuron_id`; no effect when
    /// no such record exists.
    pub fn set_sender_for_neuron(
        &mut self,
        neuron_id: &str,
        tx: tokio::sync::mpsc::UnboundedSender<CortexToNeuron>,
    )
        requires
            old(self).well_formed(),
        ensures
            final(self).well_formed(),
            ({
                let s = old(self).records();
                let k = Some(neuron_id@);
                if has_key(s, k) {
                    let i = index_of(s, k);
                    final(self).records() == s.update(
                        i,
                        ConnectedNeuron {
                            descriptor: s[i].descriptor,
                            last_heartbeat: s[i].last_heartbeat,
                            outbound_tx: Some(tx),
                        },
                    )
                } else {
                    final(self).records() == s
                }
            }),
    {
        let key = Some(String::from_str(neuron_id));
        match self.position(&key) {
            Some(i) => {
                let old_rec = self.neurons.remove(i);
                let rec = ConnectedNeuron {
                    descriptor: old_rec.descriptor,
                    last_heartbeat: old_rec.last_heartbeat,
                    outbound_tx: Some(tx),
                };
                self.neurons.insert(i, rec);
                proof {
                    let s = old(self).neurons@;
                    assert(self.neurons@ =~= s.update(i as int, rec));
                    assert forall|a: int, b: int|
                        0 <= a < self.neurons@.len() && 0 <= b < self.neurons@.len() && a
                            != b implies record_key(#[trigger] self.neurons@[a]) != record_key(
                        #[trigger] self.neurons@[b],
                    ) by {
                        assert(record_key(self.neurons@[i as int]) == record_key(s[i as int]));
                        if a != i && b != i {
                            assert(self.neurons@[a] == s[a]);
                        }
                    }
                }
            },
            None => {},
        }
    }

    /// Hands `msg` to the queue of worker `neuron_id`. Fails with
    /// `UnknownNeuron` when no record exists, with `NoSender` when the record
    /// has no queue yet, and with `Closed` when the queue refuses the message.
    pub fn send_to_neuron(&self, neuron_id: &str, msg: CortexToNeuron) -> (r: Result<
        (),
        SendError,
    >)
        requires
            self.well_formed(),
        ensures
            !has_key(self.records(), Some(neuron_id@)) <==> r == Err::<(), SendError>(
                SendError::UnknownNeuron,
            ),
            has_key(self.records(), Some(neuron_id@)) && self.records()[index_of(
                self.records(),
                Some(neuron_id@),
            )].outbound_tx is None <==> r == Err::<(), SendError>(SendError::NoSender),
    {
        let key = Some(String::from_str(neuron_id));
        match self.position(&key) {
            Some(i) => match &self.neurons[i].outbound_tx {
                Some(tx) => {
                    if enqueue(tx, msg) {
                        Ok(())
                    } else {
                        Err(SendError::Closed)
                    }
                },
                None => Err(SendError::NoSender),
            },
            None => Err(SendError::UnknownNeuron),
        }
    }

    /// Refreshes the heartbeat of worker `neuron_id` to `now`; no effect when
    /// no such record exists. The metrics are not kept.
    pub fn update_heartbeat(&mut self, neuron_id: &str, metrics: serde_json::Value, now: u64)
        requires
            old(self).well_formed(),
        ensures
            final(self).well_formed(),
            final(self).records() == heartbeat_spec(old(self).records(), Some(neuron_id@), now),
    {
        let key = Some(String::from_str(neuron_id));
        match self.position(&key) {
            Some(i) => {
                let old_rec = self.neurons.remove(i);
                let rec = ConnectedNeuron {
                    descriptor: old_rec.descriptor,
                    last_heartbeat: now,
                    outbound_tx: old_rec.outbound_tx,
                };
                self.neurons.insert(i, rec);
                proof {
                    let s = old(self).neurons@;
                    assert(self.neurons@ =~= s.update(i as int, rec));
                    assert forall|a: int, b: int|
                        0 <= a < self.neurons@.len() && 0 <= b < self.neurons@.len() && a
                            != b implies record_key(#[trigger] self.neurons@[a]) != record_key(
                        #[trigger] self.neurons@[b],
                    ) by {
                        assert(record_key(self.neurons@[i as int]) == record_key(s[i as int]));
                        if a != i && b != i {
                            assert(self.neurons@[a] == s[a]);
                        }
                    }
                }
            },
            None => {},
        }
    }

    /// Removes every worker whose time since its last heartbeat exceeds
    /// `timeout`, keeping the order of the others; returns the descriptors
    /// of the removed workers.
    pub fn prune_stale(&mut self, timeout: u64, now: u64) -> (r: Vec<NeuronDescriptor>)
        requires
            old(self).well_formed(),
        ensures
            final(self).well_formed(),
            final(self).records() == prune_spec(old(self).records(), timeout, now),
            r@ == pruned_spec(old(self).records(), timeout, now),
    {
        let mut rest: Vec<ConnectedNeuron> = Vec::new();
        core::mem::swap(&mut self.neurons, &mut rest);
        let ghost s = rest@;
        let total = rest.len();
        let mut removed: Vec<NeuronDescriptor> = Vec::new();
        let mut i: usize = 0;
        while rest.len() > 0
            invariant
                i + rest@.len() == s.len(),
                s.len() == total,
                rest@ == s.subrange(i as int, s.len() as int),
                self.neurons@ == prune_spec(s.subrange(0, i as int), timeout, now),
                removed@ == pruned_spec(s.subrange(0, i as int), timeout, now),
            decreases rest@.len(),
        {
            let n = rest.remove(0);
            proof {
                assert(n == s[i as int]);
                assert(s.subrange(0, i + 1).drop_last() =~= s.subrange(0, i as int));
                assert(s.subrange(0, i + 1).last() == n);
            }
            let fresh = if now >= n.last_heartbeat {
                now - n.last_heartbeat <= timeout
            } else {
                true
            };
            if fresh {
                self.neurons.push(n);
            } else {
                removed.push(n.descriptor);
            }
            i = i + 1;
            proof {
                assert(rest@ =~= s.subrange(i as int, s.len() as int));
            }
        }
        proof {
            assert(s.subrange(0, i as int) =~= s);
            lemma_prune_keeps_unique(s, timeout, now);
        }
        removed
    }

    /// Removes the worker `neuron_id`; returns whether a record existed.
    pub fn remove_neuron(&mut self, neuron_id: &str) -> (r: bool)
        requires
            old(self).well_formed(),
        ensures
            final(self).well_formed(),
            r == has_key(old(self).records(), Some(neuron_id@)),
            r ==> final(self).records() == old(self).records().remove(
                index_of(old(self).records(), Some(neuron_id@)),
            ),
            !r ==> final(self).records() == old(self).records(),
    {
        let key = Some(String::from_str(neuron_id));
        match self.position(&key) {
            Some(i) => {
                let _gone = self.neurons.remove(i);
                proof {
                    let s = old(self).neurons@;
                    assert forall|a: int, b: int|
                        0 <= a < self.neurons@.len() && 0 <= b < self.neurons@.len() && a
                            != b implies record_key(#[trigger] self.neurons@[a]) != record_key(
                        #[trigger] self.neurons@[b],
                    ) by {
                        let oa = if a < i { a } else { a + 1 };
                        let ob = if b < i { b } else { b + 1 };
                        assert(self.neurons@[a] == s[oa]);
                        assert(self.neurons@[b] == s[ob]);
                    }
                }
                true
            },
            None => false,
        }
    }

    /// The descriptors of all workers, in insertion order.
    pub fn list(&self) -> (r: Vec<NeuronDescriptor>)
        ensures
            r@.len() == self.records().len(),
            forall|i: int| 0 <= i < r@.len() ==> r@[i] == #[trigger] self.records()[i].descriptor,
    {
        let mut out: Vec<NeuronDescriptor> = Vec::new();
        let mut i: usize = 0;
        while i < self.neurons.len()
            invariant
                i <= self.neurons@.len(),
                out@.len() == i,
                forall|j: int| 0 <= j < i ==> out@[j] == #[trigger] self.neurons@[j].descriptor,
            decreases self.neurons@.len() - i,
        {
            out.push(self.neurons[i].descriptor.clone());
            i = i + 1;
        }
        out
    }

    /// Every worker with the time since its last heartbeat at `now`.
    pub fn list_with_health(&self, now: u64) -> (r: Vec<NeuronView>)
        ensures
            r@.len() == self.records().len(),
            forall|i: int|
                0 <= i < r@.len() ==> (#[trigger] r@[i]).descriptor == self.records()[i].descriptor
                    && r@[i].last_heartbeat_age == elapsed(now, self.records()[i].last_heartbeat),
    {
        let mut out: Vec<NeuronView> = Vec::new();
        let mut i: usize = 0;
        while i < self.neurons.len()
            invariant
                i <= self.neurons@.len(),
                out@.len() == i,
                forall|j: int|
                    0 <= j < i ==> (#[trigger] out@[j]).descriptor == self.neurons@[j].descriptor
                        && out@[j].last_heartbeat_age == elapsed(
                        now,
                        self.neurons@[j].last_heartbeat,
                    ),
            decreases self.neurons@.len() - i,
        {
            let n = &self.neurons[i];
            let age = if now >= n.last_heartbeat {
                now - n.last_heartbeat
            } else {
                0
            };
            out.push(NeuronView { descriptor: n.descriptor.clone(), last_heartbeat_age: age });
            i = i + 1;
        }
        out
    }
}

} // verus!
