//! The control node's side of a worker session: the registration handshake,
//! the handling of each later message, and the commands it pushes to a
//! worker. Each function updates the registry and the status store and
//! returns the events to publish; the transport is the caller's part.
use vstd::prelude::*;
use crate::fleet::{
    has_key, heartbeat_spec, index_of, prune_spec, pruned_spec, upsert_spec, NeuronRegistry,
    SendError,
};
use crate::messages::{CortexToNeuron, NeuronDescriptor, NeuronToCortex};
use crate::observe::{ObserveBus, ObserveEvent};
use crate::protocol::{ModelConfig, ProvisioningCommand};
use crate::status::{lists_statuses, ModelProvisioningStore};

verus! {

/// How often the control node prunes silent workers, in milliseconds.
pub const PRUNE_INTERVAL_MS: u64 = 30000;

/// Heartbeat age (milliseconds) past which a worker is pruned.
pub const HEARTBEAT_TIMEOUT_MS: u64 = 90000;

/// The first message of a session was not a registration.
pub enum ProtocolError {
    ExpectedRegister,
}

/// The id a session is known by: the worker's stable id, or one made from
/// its peer address.
pub open spec fn session_id(d: NeuronDescriptor, peer: Seq<char>) -> Seq<char> {
    match d.node_id {
        Some(id) => id@,
        None => "peer-"@ + peer,
    }
}

/// Handles the first message of a session. A registration files the worker
/// (heartbeat `now`) and yields the session id and a `NeuronRegistered`
/// event; anything else is a protocol violation that ends the session and
/// changes nothing.
pub fn accept_registration(
    registry: &mut NeuronRegistry,
    msg: NeuronToCortex,
    peer: &str,
    now: u64,
) -> (r: Result<(String, ObserveEvent), ProtocolError>)
    requires
        old(registry).well_formed(),
    ensures
        final(registry).well_formed(),
        match msg {
            NeuronToCortex::Register { neuron } => {
                &&& final(registry).records() == upsert_spec(old(registry).records(), neuron, now)
                &&& r matches Ok((id, ObserveEvent::NeuronRegistered { neuron: ev })) && id@
                    == session_id(neuron, peer@) && ev == neuron
            },
            _ => r is Err && final(registry).records() == old(registry).records(),
        },
{
    match msg {
        NeuronToCortex::Register { neuron } => {
            let id = match &neuron.node_id {
                Some(id) => id.clone(),
                None => {
                    let mut s = String::from_str("peer-");
                    s.append(peer);
                    s
                },
            };
            registry.upsert_neuron(neuron.clone(), now);
            Ok((id, ObserveEvent::NeuronRegistered { neuron }))
        },
        _ => Err(ProtocolError::ExpectedRegister),
    }
}

/// Handles a message of an active session. A second registration refreshes
/// the descriptor (no event); a heartbeat refreshes liveness and is
/// republished; a provisioning response updates the model states and is
/// republished with the worker's new model states; a shutdown notice
/// removes the worker and publishes its removal.
pub fn handle_neuron_message(
    registry: &mut NeuronRegistry,
    store: &mut ModelProvisioningStore,
    msg: NeuronToCortex,
    now: u64,
) -> (r: Vec<ObserveEvent>)
    requires
        old(registry).well_formed(),
        old(store).well_formed(),
    ensures
        final(registry).well_formed(),
        final(store).well_formed(),
        match msg {
            NeuronToCortex::Register { neuron } => {
                &&& final(registry).records() == upsert_spec(old(registry).records(), neuron, now)
                &&& *final(store) == *old(store)
                &&& r@.len() == 0
            },
            NeuronToCortex::Heartbeat { neuron_id, metrics } => {
                &&& final(registry).records() == heartbeat_spec(
                    old(registry).records(),
                    Some(neuron_id@),
                    now,
                )
                &&& *final(store) == *old(store)
                &&& r@.len() == 1
                &&& r@[0] matches ObserveEvent::NeuronHeartbeat { neuron_id: n, metrics: m } && n
                    == neuron_id && m == metrics
            },
            NeuronToCortex::ProvisioningResponse { neuron_id, response } => {
                &&& final(registry).records() == old(registry).records()
                &&& final(store).statuses(neuron_id@) == old(store).statuses(neuron_id@).insert(
                    response.spec_model_id().0@,
                    response,
                )
                &&& forall|n: Seq<char>|
                    n != neuron_id@ ==> #[trigger] final(store).statuses(n) == old(store).statuses(
                        n,
                    )
                &&& r@.len() == 2
                &&& r@[0] matches ObserveEvent::ProvisioningResponse {
                    neuron_id: n,
                    response: resp,
                } && n == neuron_id && resp == response
                &&& r@[1] matches ObserveEvent::ModelStateChanged { neuron_id: n, models } && n
                    == neuron_id && lists_statuses(models@, final(store).statuses(neuron_id@))
            },
            NeuronToCortex::Shutdown { neuron_id, reason } => {
                &&& *final(store) == *old(store)
                &&& if has_key(old(registry).records(), Some(neuron_id@)) {
                    &&& final(registry).records() == old(registry).records().remove(
                        index_of(old(registry).records(), Some(neuron_id@)),
                    )
                    &&& r@.len() == 1
                    &&& r@[0] matches ObserveEvent::NeuronRemoved { neuron_id: n } && n
                        == neuron_id
                } else {
                    &&& final(registry).records() == old(registry).records()
                    &&& r@.len() == 0
                }
            },
        },
{
    let mut events: Vec<ObserveEvent> = Vec::new();
    match msg {
        NeuronToCortex::Register { neuron } => {
            registry.upsert_neuron(neuron, now);
        },
        NeuronToCortex::Heartbeat { neuron_id, metrics } => {
            registry.update_heartbeat(neuron_id.as_str(), metrics.clone(), now);
            events.push(ObserveEvent::NeuronHeartbeat { neuron_id, metrics });
        },
        NeuronToCortex::ProvisioningResponse { neuron_id, response } => {
            store.record_response(neuron_id.as_str(), response.clone());
            let models = store.list_for_neuron(neuron_id.as_str());
            events.push(
                ObserveEvent::ProvisioningResponse { neuron_id: neuron_id.clone(), response },
            );
            events.push(ObserveEvent::ModelStateChanged { neuron_id, models });
        },
        NeuronToCortex::Shutdown { neuron_id, reason: _ } => {
            if registry.remove_neuron(neuron_id.as_str()) {
                events.push(ObserveEvent::NeuronRemoved { neuron_id });
            }
        },
    }
    events
}

/// The event announcing that `cmd` goes to worker `neuron_id`, and the
/// message that carries it.
pub fn provisioning_notice(neuron_id: &str, cmd: ProvisioningCommand) -> (r: (
    ObserveEvent,
    CortexToNeuron,
))
    ensures
        r.0 matches ObserveEvent::ProvisioningSent { neuron_id: n, cmd: c } && n@ == neuron_id@
            && c.same_command(cmd),
        r.1 matches CortexToNeuron::Provisioning { cmd: c } && c == cmd,
{
    let event = ObserveEvent::ProvisioningSent {
        neuron_id: String::from_str(neuron_id),
        cmd: cmd.clone(),
    };
    (event, CortexToNeuron::Provisioning { cmd })
}

/// Sends a provisioning command to worker `neuron_id`: publishes the
/// `ProvisioningSent` event of `provisioning_notice` on `bus`, then hands its
/// message to `NeuronRegistry::send_to_neuron`, whose result it returns.
pub fn send_provisioning_to_neuron(
    registry: &NeuronRegistry,
    neuron_id: &str,
    cmd: ProvisioningCommand,
    bus: &ObserveBus,
) -> (r: Result<(), SendError>)
    requires
        registry.well_formed(),
    ensures
        !has_key(registry.records(), Some(neuron_id@)) <==> r == Err::<(), SendError>(
            SendError::UnknownNeuron,
        ),
        has_key(registry.records(), Some(neuron_id@)) && registry.records()[index_of(
            registry.records(),
            Some(neuron_id@),
        )].outbound_tx is None <==> r == Err::<(), SendError>(SendError::NoSender),
{
    let (event, msg) = provisioning_notice(neuron_id, cmd);
    let _reached = bus.publish(event);
    registry.send_to_neuron(neuron_id, msg)
}

/// Removes the workers whose heartbeat is older than `timeout` at `now` and
/// returns a `NeuronRemoved` event for each removed worker with a stable
/// id, in registry order.
pub fn prune_and_report(registry: &mut NeuronRegistry, timeout: u64, now: u64) -> (r: Vec<
    ObserveEvent,
>)
    requires
        old(registry).well_formed(),
    ensures
        final(registry).well_formed(),
        final(registry).records() == prune_spec(old(registry).records(), timeout, now),
        r@.len() == removed_ids(pruned_spec(old(registry).records(), timeout, now)).len(),
        forall|i: int|
            0 <= i < r@.len() ==> is_removal_of(
                #[trigger] r@[i],
                removed_ids(pruned_spec(old(registry).records(), timeout, now))[i],
            ),
{
    let removed = registry.prune_stale(timeout, now);
    let ghost ds = removed@;
    let mut events: Vec<ObserveEvent> = Vec::new();
    let mut i: usize = 0;
    while i < removed.len()
        invariant
            i <= ds.len(),
            removed@ == ds,
            events@.len() == removed_ids(ds.subrange(0, i as int)).len(),
            forall|j: int|
                0 <= j < events@.len() ==> is_removal_of(
                    #[trigger] events@[j],
                    removed_ids(ds.subrange(0, i as int))[j],
                ),
        decreases ds.len() - i,
    {
        proof {
            assert(ds.subrange(0, i + 1).drop_last() =~= ds.subrange(0, i as int));
            assert(ds.subrange(0, i + 1).last() == ds[i as int]);
        }
        match &removed[i].node_id {
            Some(id) => {
                events.push(ObserveEvent::NeuronRemoved { neuron_id: id.clone() });
            },
            None => {},
        }
        i = i + 1;
    }
    proof {
        assert(ds.subrange(0, i as int) =~= ds);
    }
    events
}

/// Whether `e` announces the removal of worker `id`.
pub open spec fn is_removal_of(e: ObserveEvent, id: Seq<char>) -> bool {
    e matches ObserveEvent::NeuronRemoved { neuron_id } && neuron_id@ == id
}

/// The stable ids among `ds`, in order.
pub open spec fn removed_ids(ds: Seq<NeuronDescriptor>) -> Seq<Seq<char>>
    decreases ds.len(),
{
    if ds.len() == 0 {
        Seq::empty()
    } else {
        match ds.last().node_id {
            Some(id) => removed_ids(ds.drop_last()).push(id@),
            None => removed_ids(ds.drop_last()),
        }
    }
}

/// The commands that configure a new worker with `configs`: one
/// `UpsertModelConfig` per configuration, in order.
pub fn bootstrap_commands(configs: &Vec<ModelConfig>) -> (r: Vec<CortexToNeuron>)
    ensures
        r@.len() == configs@.len(),
        forall|i: int|
            0 <= i < r@.len() ==> is_upsert_of(#[trigger] r@[i], configs@[i]),
{
    let mut out: Vec<CortexToNeuron> = Vec::new();
    let mut i: usize = 0;
    while i < configs.len()
        invariant
            i <= configs@.len(),
            out@.len() == i,
            forall|j: int| 0 <= j < i ==> is_upsert_of(#[trigger] out@[j], configs@[j]),
        decreases configs@.len() - i,
    {
        let cmd = ProvisioningCommand::UpsertModelConfig(configs[i].clone());
        out.push(CortexToNeuron::Provisioning { cmd });
        i = i + 1;
    }
    out
}

/// Whether `m` carries an `UpsertModelConfig` with the recipe of `cfg`.
pub open spec fn is_upsert_of(m: CortexToNeuron, cfg: ModelConfig) -> bool {
    m matches CortexToNeuron::Provisioning { cmd: ProvisioningCommand::UpsertModelConfig(c) }
        && c.same_recipe(cfg)
}

/// Configures a newly registered worker: hands the messages of
/// `bootstrap_commands(configs)` to `NeuronRegistry::send_to_neuron` one by
/// one, in order, and stops at the first that cannot be sent. Returns how
/// many were sent.
pub fn bootstrap_upsert_for_neuron(
    neuron_id: &str,
    registry: &NeuronRegistry,
    configs: &Vec<ModelConfig>,
) -> (r: Result<usize, SendError>)
    requires
        registry.well_formed(),
    ensures
        configs@.len() == 0 ==> r == Ok::<usize, SendError>(0),
        r matches Ok(n) ==> n == configs@.len(),
        configs@.len() > 0 && !has_key(registry.records(), Some(neuron_id@)) <==> r
            == Err::<usize, SendError>(SendError::UnknownNeuron),
        configs@.len() > 0 && has_key(registry.records(), Some(neuron_id@))
            && registry.records()[index_of(
            registry.records(),
            Some(neuron_id@),
        )].outbound_tx is None <==> r == Err::<usize, SendError>(SendError::NoSender),
{
    let commands = bootstrap_commands(configs);
    let ghost cs = commands@;
    let mut rest = commands;
    let total = rest.len();
    let mut i: usize = 0;
    while rest.len() > 0
        invariant
            i + rest@.len() == cs.len(),
            cs.len() == total,
            rest@ == cs.subrange(i as int, cs.len() as int),
            cs.len() == configs@.len(),
            registry.well_formed(),
            i > 0 ==> has_key(registry.records(), Some(neuron_id@)) && registry.records()[index_of(
                registry.records(),
                Some(neuron_id@),
            )].outbound_tx is Some,
        decreases rest@.len(),
    {
        let msg = rest.remove(0);
        match registry.send_to_neuron(neuron_id, msg) {
            Ok(()) => {},
            Err(e) => {
                return Err(e);
            },
        }
        i = i + 1;
        proof {
            assert(rest@ =~= cs.subrange(i as int, cs.len() as int));
        }
    }
    Ok(i)
}

} // verus!
