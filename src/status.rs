//! The control node's last known provisioning state of each model on each
//! worker, keyed by worker id and model id.
use vstd::prelude::*;
use crate::protocol::{ModelId, ProvisioningResponse};
use crate::table::Table;

verus! {

/// Last known state of one model on one worker.
pub struct ModelProvisioningStatus {
    pub model_id: ModelId,
    /// The last response the worker sent about the model.
    pub last_response: ProvisioningResponse,
}

impl Clone for ModelProvisioningStatus {
    fn clone(&self) -> (r: Self)
        ensures
            r == *self,
    {
        ModelProvisioningStatus {
            model_id: self.model_id.clone(),
            last_response: self.last_response.clone(),
        }
    }
}

/// The map that a list of statuses restores: a later entry for the same
/// model wins.
pub open spec fn statuses_map(models: Seq<ModelProvisioningStatus>) -> Map<
    Seq<char>,
    ProvisioningResponse,
>
    decreases models.len(),
{
    if models.len() == 0 {
        Map::empty()
    } else {
        statuses_map(models.drop_last()).insert(
            models.last().model_id.0@,
            models.last().last_response,
        )
    }
}

/// Whether `list` holds exactly the statuses of `m`, one per model.
pub open spec fn lists_statuses(
    list: Seq<ModelProvisioningStatus>,
    m: Map<Seq<char>, ProvisioningResponse>,
) -> bool {
    &&& list.len() == m.len()
    &&& forall|i: int|
        0 <= i < list.len() ==> m.contains_key((#[trigger] list[i]).model_id.0@)
            && m[list[i].model_id.0@] == list[i].last_response
    &&& forall|i: int, j: int|
        0 <= i < list.len() && 0 <= j < list.len() && i != j ==> (#[trigger] list[i]).model_id.0@
            != (#[trigger] list[j]).model_id.0@
}

/// Per-worker provisioning states.
pub struct ModelProvisioningStore {
    by_neuron: Table<Table<ProvisioningResponse>>,
}

impl ModelProvisioningStore {
    /// The last response of model `m` on worker `n`, if any.
    pub closed spec fn status(&self, n: Seq<char>, m: Seq<char>) -> Option<ProvisioningResponse> {
        if self.by_neuron@.contains_key(n) && self.by_neuron@[n]@.contains_key(m) {
            Some(self.by_neuron@[n]@[m])
        } else {
            None
        }
    }

    /// The statuses known for worker `n`, by model id.
    pub closed spec fn statuses(&self, n: Seq<char>) -> Map<Seq<char>, ProvisioningResponse> {
        if self.by_neuron@.contains_key(n) {
            self.by_neuron@[n]@
        } else {
            Map::empty()
        }
    }

    /// Keys are unique at both levels.
    pub closed spec fn well_formed(&self) -> bool {
        &&& self.by_neuron.well_formed()
        &&& forall|n: Seq<char>| #[trigger]
            self.by_neuron@.contains_key(n) ==> self.by_neuron@[n].well_formed()
    }

    /// Nothing known yet.
    pub fn new() -> (r: Self)
        ensures
            r.well_formed(),
            forall|n: Seq<char>, m: Seq<char>| #[trigger] r.status(n, m) is None,
            forall|n: Seq<char>| #[trigger] r.statuses(n) == Map::<
                Seq<char>,
                ProvisioningResponse,
            >::empty(),
    {
        ModelProvisioningStore { by_neuron: Table::new() }
    }

    /// Remembers `response` as the last state of its model on worker
    /// `neuron_id`.
    pub fn record_response(&mut self, neuron_id: &str, response: ProvisioningResponse)
        requires
            old(self).well_formed(),
        ensures
            final(self).well_formed(),
            final(self).statuses(neuron_id@) == old(self).statuses(neuron_id@).insert(
                response.spec_model_id().0@,
                response,
            ),
            forall|n: Seq<char>|
                n != neuron_id@ ==> #[trigger] final(self).statuses(n) == old(self).statuses(n),
    {
        let model_key = response.model_id().0.clone();
        let mut inner = match self.by_neuron.remove(neuron_id) {
            Some(t) => t,
            None => Table::new(),
        };
        inner.insert(model_key, response);
        self.by_neuron.insert(String::from_str(neuron_id), inner);
        proof {
            assert forall|n: Seq<char>| n != neuron_id@ implies #[trigger] self.statuses(n)
                == old(self).statuses(n) by {}
            assert forall|n: Seq<char>| #[trigger]
                self.by_neuron@.contains_key(n) implies self.by_neuron@[n].well_formed() by {
                if n != neuron_id@ {
                    assert(old(self).by_neuron@.contains_key(n));
                }
            }
        }
    }

    /// Replaces what is known of worker `neuron_id` with `models`.
    pub fn restore_statuses_for_neuron(
        &mut self,
        neuron_id: &str,
        models: Vec<ModelProvisioningStatus>,
    )
        requires
            old(self).well_formed(),
        ensures
            final(self).well_formed(),
            final(self).statuses(neuron_id@) == statuses_map(models@),
            forall|n: Seq<char>|
                n != neuron_id@ ==> #[trigger] final(self).statuses(n) == old(self).statuses(n),
    {
        let mut inner: Table<ProvisioningResponse> = Table::new();
        let mut i: usize = 0;
        let ghost ms = models@;
        let mut rest = models;
        let total = rest.len();
        while rest.len() > 0
            invariant
                inner.well_formed(),
                i + rest@.len() == ms.len(),
                ms.len() == total,
                rest@ == ms.subrange(i as int, ms.len() as int),
                inner@ == statuses_map(ms.subrange(0, i as int)),
            decreases rest@.len(),
        {
            let st = rest.remove(0);
            proof {
                assert(st == ms[i as int]);
                assert(ms.subrange(0, i + 1).drop_last() =~= ms.subrange(0, i as int));
                assert(ms.subrange(0, i + 1).last() == st);
            }
            inner.insert(st.model_id.0, st.last_response);
            i = i + 1;
            proof {
                assert(rest@ =~= ms.subrange(i as int, ms.len() as int));
            }
        }
        proof {
            assert(ms.subrange(0, i as int) =~= ms);
        }
        let _old = self.by_neuron.remove(neuron_id);
        self.by_neuron.insert(String::from_str(neuron_id), inner);
        proof {
            assert forall|n: Seq<char>| #[trigger]
                self.by_neuron@.contains_key(n) implies self.by_neuron@[n].well_formed() by {
                if n != neuron_id@ {
                    assert(old(self).by_neuron@.contains_key(n));
                }
            }
        }
    }

    /// The statuses known for worker `neuron_id`, one per model, in the
    /// order the models were first reported.
    pub fn list_for_neuron(&self, neuron_id: &str) -> (r: Vec<ModelProvisioningStatus>)
        requires
            self.well_formed(),
        ensures
            lists_statuses(r@, self.statuses(neuron_id@)),
    {
        let mut out: Vec<ModelProvisioningStatus> = Vec::new();
        match self.by_neuron.get(neuron_id) {
            Some(inner) => {
                proof {
                    inner.lemma_view();
                }
                let mut i: usize = 0;
                while i < inner.len()
                    invariant
                        i <= inner.items().len(),
                        keys_distinct_items(inner.items()),
                        out@.len() == i,
                        forall|j: int|
                            0 <= j < i ==> (#[trigger] out@[j]).model_id.0 == inner.items()[j].0
                                && out@[j].last_response == inner.items()[j].1,
                    decreases inner.items().len() - i,
                {
                    let st = ModelProvisioningStatus {
                        model_id: ModelId(inner.key_at(i).clone()),
                        last_response: inner.value_at(i).clone(),
                    };
                    out.push(st);
                    i = i + 1;
                }
                proof {
                    let s = inner.items();
                    assert forall|a: int, b: int|
                        0 <= a < out@.len() && 0 <= b < out@.len() && a != b implies (
                        #[trigger] out@[a]).model_id.0@ != (#[trigger] out@[b]).model_id.0@ by {
                        assert(s[a].0@ != s[b].0@);
                    }
                }
            },
            None => {
                proof {
                    assert(self.statuses(neuron_id@) =~= Map::<
                        Seq<char>,
                        ProvisioningResponse,
                    >::empty());
                }
            },
        }
        out
    }
}

/// No key twice in a list of items.
pub open spec fn keys_distinct_items<V>(s: Seq<(String, V)>) -> bool {
    crate::table::keys_distinct(s)
}

} // verus!
