//! The best-effort snapshot of the fleet that a control node keeps across
//! restarts: only workers that were online and have a stable id, with their
//! model states. Live traffic always supersedes it.
use vstd::prelude::*;
use crate::fleet::{upsert_all, NeuronRegistry, NeuronView};
use crate::messages::NeuronDescriptor;
use crate::status::{lists_statuses, statuses_map, ModelProvisioningStatus, ModelProvisioningStore};

verus! {

/// A worker as cached.
pub struct CachedNeuron {
    pub descriptor: NeuronDescriptor,
    /// Milliseconds between its last heartbeat and the snapshot.
    pub last_heartbeat_age: u64,
}

/// What a control node caches.
pub struct CachedCortexState {
    /// Online workers as of the snapshot.
    pub neurons: Vec<CachedNeuron>,
    /// Model states per worker id, for cached workers with any.
    pub models_by_neuron: Vec<(String, Vec<ModelProvisioningStatus>)>,
}

/// Heartbeat age (milliseconds) above which a worker counts as offline and
/// is not cached.
pub const PERSIST_THRESHOLD_MS: u64 = 300000;

impl CachedCortexState {
    /// Name of the cache store.
    pub fn store_name() -> (r: &'static str)
        ensures
            r@ == "cortex-state"@,
    {
        "cortex-state"
    }
}

/// Whether a listed worker is cached: it has a stable id and heartbeated
/// within the threshold.
pub open spec fn is_cached(v: NeuronView) -> bool {
    v.descriptor.node_id is Some && v.last_heartbeat_age <= PERSIST_THRESHOLD_MS
}

/// The listed workers that are cached, in order.
pub open spec fn cached_views(vs: Seq<NeuronView>) -> Seq<NeuronView>
    decreases vs.len(),
{
    if vs.len() == 0 {
        Seq::empty()
    } else if is_cached(vs.last()) {
        cached_views(vs.drop_last()).push(vs.last())
    } else {
        cached_views(vs.drop_last())
    }
}

/// The ids of the cached workers that have model states, in order.
pub open spec fn ids_with_models(vs: Seq<NeuronView>, store: ModelProvisioningStore) -> Seq<
    Seq<char>,
>
    decreases vs.len(),
{
    if vs.len() == 0 {
        Seq::empty()
    } else {
        let p = ids_with_models(vs.drop_last(), store);
        let v = vs.last();
        match v.descriptor.node_id {
            Some(id) => if is_cached(v) && store.statuses(id@).len() > 0 {
                p.push(id@)
            } else {
                p
            },
            None => p,
        }
    }
}

/// The snapshot to cache of the listed workers `views`.
pub fn snapshot_for_cache(views: Vec<NeuronView>, store: &ModelProvisioningStore) -> (r:
    CachedCortexState)
    requires
        store.well_formed(),
    ensures
        r.neurons@.len() == cached_views(views@).len(),
        forall|i: int|
            0 <= i < r.neurons@.len() ==> (#[trigger] r.neurons@[i]).descriptor == cached_views(
                views@,
            )[i].descriptor && r.neurons@[i].last_heartbeat_age == cached_views(
                views@,
            )[i].last_heartbeat_age,
        r.models_by_neuron@.len() == ids_with_models(views@, *store).len(),
        forall|i: int|
            0 <= i < r.models_by_neuron@.len() ==> (#[trigger] r.models_by_neuron@[i]).0@
                == ids_with_models(views@, *store)[i] && lists_statuses(
                r.models_by_neuron@[i].1@,
                store.statuses(r.models_by_neuron@[i].0@),
            ),
{
    let ghost vs = views@;
    let mut rest = views;
    let total = rest.len();
    let mut neurons: Vec<CachedNeuron> = Vec::new();
    let mut models_by_neuron: Vec<(String, Vec<ModelProvisioningStatus>)> = Vec::new();
    let mut i: usize = 0;
    while rest.len() > 0
        invariant
            i + rest@.len() == vs.len(),
            vs.len() == total,
            rest@ == vs.subrange(i as int, vs.len() as int),
            store.well_formed(),
            neurons@.len() == cached_views(vs.subrange(0, i as int)).len(),
            forall|j: int|
                0 <= j < neurons@.len() ==> (#[trigger] neurons@[j]).descriptor == cached_views(
                    vs.subrange(0, i as int),
                )[j].descriptor && neurons@[j].last_heartbeat_age == cached_views(
                    vs.subrange(0, i as int),
                )[j].last_heartbeat_age,
            models_by_neuron@.len() == ids_with_models(vs.subrange(0, i as int), *store).len(),
            forall|j: int|
                0 <= j < models_by_neuron@.len() ==> (#[trigger] models_by_neuron@[j]).0@
                    == ids_with_models(vs.subrange(0, i as int), *store)[j] && lists_statuses(
                    models_by_neuron@[j].1@,
                    store.statuses(models_by_neuron@[j].0@),
                ),
        decreases rest@.len(),
    {
        let view = rest.remove(0);
        proof {
            assert(view == vs[i as int]);
            assert(vs.subrange(0, i + 1).drop_last() =~= vs.subrange(0, i as int));
            assert(vs.subrange(0, i + 1).last() == view);
        }
        if view.last_heartbeat_age <= PERSIST_THRESHOLD_MS {
            match &view.descriptor.node_id {
                Some(id) => {
                    let models = store.list_for_neuron(id.as_str());
                    if models.len() > 0 {
                        models_by_neuron.push((id.clone(), models));
                    }
                    neurons.push(
                        CachedNeuron {
                            descriptor: view.descriptor,
                            last_heartbeat_age: view.last_heartbeat_age,
                        },
                    );
                },
                None => {},
            }
        }
        i = i + 1;
        proof {
            assert(rest@ =~= vs.subrange(i as int, vs.len() as int));
        }
    }
    proof {
        assert(vs.subrange(0, i as int) =~= vs);
    }
    CachedCortexState { neurons, models_by_neuron }
}

/// The model states that restoring `entries` leaves for worker `n`: those of
/// the last entry for `n`, if any.
pub open spec fn restored_for(entries: Seq<(String, Vec<ModelProvisioningStatus>)>, n: Seq<char>) -> Option<
    Seq<ModelProvisioningStatus>,
>
    decreases entries.len(),
{
    if entries.len() == 0 {
        None
    } else if entries.last().0@ == n {
        Some(entries.last().1@)
    } else {
        restored_for(entries.drop_last(), n)
    }
}

/// The descriptors of cached workers, in order.
pub open spec fn cached_descriptors(ns: Seq<CachedNeuron>) -> Seq<NeuronDescriptor> {
    Seq::new(ns.len(), |i: int| ns[i].descriptor)
}

/// Seeds the registry and the status store from a cached snapshot: each
/// cached worker is upserted as if it had just registered at `now`, and each
/// worker's cached model states replace what the store knew of it.
pub fn restore_from_cache(
    state: CachedCortexState,
    registry: &mut NeuronRegistry,
    store: &mut ModelProvisioningStore,
    now: u64,
)
    requires
        old(registry).well_formed(),
        old(store).well_formed(),
    ensures
        final(registry).well_formed(),
        final(store).well_formed(),
        final(registry).records() == upsert_all(
            old(registry).records(),
            cached_descriptors(state.neurons@),
            Seq::new(state.neurons@.len(), |i: int| now),
        ),
        forall|n: Seq<char>|
            #[trigger] final(store).statuses(n) == match restored_for(
                state.models_by_neuron@,
                n,
            ) {
                Some(models) => statuses_map(models),
                None => old(store).statuses(n),
            },
{
    let ghost ns = state.neurons@;
    let ghost es = state.models_by_neuron@;
    let mut neurons = state.neurons;
    let total = neurons.len();
    let mut i: usize = 0;
    while neurons.len() > 0
        invariant
            i + neurons@.len() == ns.len(),
            ns.len() == total,
            neurons@ == ns.subrange(i as int, ns.len() as int),
            registry.well_formed(),
            registry.records() == upsert_all(
                old(registry).records(),
                cached_descriptors(ns.subrange(0, i as int)),
                Seq::new(i as nat, |j: int| now),
            ),
        decreases neurons@.len(),
    {
        let c = neurons.remove(0);
        proof {
            assert(c == ns[i as int]);
            let d1 = cached_descriptors(ns.subrange(0, i + 1));
            let d0 = cached_descriptors(ns.subrange(0, i as int));
            assert(d1.drop_last() =~= d0);
            assert(d1.last() == c.descriptor);
            let t1 = Seq::new((i + 1) as nat, |j: int| now);
            let t0 = Seq::new(i as nat, |j: int| now);
            assert(t1.drop_last() =~= t0);
        }
        registry.upsert_neuron(c.descriptor, now);
        i = i + 1;
        proof {
            assert(neurons@ =~= ns.subrange(i as int, ns.len() as int));
        }
    }
    proof {
        assert(ns.subrange(0, i as int) =~= ns);
    }
    let mut entries = state.models_by_neuron;
    let etotal = entries.len();
    let mut k: usize = 0;
    while entries.len() > 0
        invariant
            k + entries@.len() == es.len(),
            es.len() == etotal,
            entries@ == es.subrange(k as int, es.len() as int),
            store.well_formed(),
            forall|n: Seq<char>|
                #[trigger] store.statuses(n) == match restored_for(es.subrange(0, k as int), n) {
                    Some(models) => statuses_map(models),
                    None => old(store).statuses(n),
                },
        decreases entries@.len(),
    {
        let (id, models) = entries.remove(0);
        proof {
            assert(es.subrange(0, k + 1).drop_last() =~= es.subrange(0, k as int));
            assert(es.subrange(0, k + 1).last() == (id, models));
        }
        store.restore_statuses_for_neuron(id.as_str(), models);
        k = k + 1;
        proof {
            assert(entries@ =~= es.subrange(k as int, es.len() as int));
        }
    }
    proof {
        assert(es.subrange(0, k as int) =~= es);
    }
}

} // verus!
