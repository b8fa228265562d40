//! What monitoring clients see: fleet events on a broadcast bus, and a
//! snapshot of the fleet with liveness classes and model states.
use vstd::prelude::*;
use crate::fleet::NeuronView;
use crate::messages::NeuronDescriptor;
use crate::protocol::{ProvisioningCommand, ProvisioningResponse};
use crate::status::{lists_statuses, ModelProvisioningStatus, ModelProvisioningStore};

verus! {

/// A fact published to monitors.
pub enum ObserveEvent {
    NeuronRegistered { neuron: NeuronDescriptor },
    /// The worker left: pruned for missing heartbeats or shut down.
    NeuronRemoved { neuron_id: String },
    NeuronHeartbeat { neuron_id: String, metrics: serde_json::Value },
    ProvisioningSent { neuron_id: String, cmd: ProvisioningCommand },
    ProvisioningResponse { neuron_id: String, response: ProvisioningResponse },
    /// The control node's view of a worker's models changed.
    ModelStateChanged { neuron_id: String, models: Vec<ModelProvisioningStatus> },
}

/// Same event: same variant and fields; a command compared as a directive,
/// a list of model states by its contents.
pub open spec fn same_event(a: ObserveEvent, b: ObserveEvent) -> bool {
    match (a, b) {
        (ObserveEvent::NeuronRegistered { neuron: x }, ObserveEvent::NeuronRegistered {
            neuron: y,
        }) => x == y,
        (ObserveEvent::NeuronRemoved { neuron_id: x }, ObserveEvent::NeuronRemoved {
            neuron_id: y,
        }) => x == y,
        (
            ObserveEvent::NeuronHeartbeat { neuron_id: x, metrics: m },
            ObserveEvent::NeuronHeartbeat { neuron_id: y, metrics: n },
        ) => x == y && m == n,
        (
            ObserveEvent::ProvisioningSent { neuron_id: x, cmd: c },
            ObserveEvent::ProvisioningSent { neuron_id: y, cmd: d },
        ) => x == y && c.same_command(d),
        (
            ObserveEvent::ProvisioningResponse { neuron_id: x, response: r },
            ObserveEvent::ProvisioningResponse { neuron_id: y, response: q },
        ) => x == y && r == q,
        (
            ObserveEvent::ModelStateChanged { neuron_id: x, models: m },
            ObserveEvent::ModelStateChanged { neuron_id: y, models: n },
        ) => x == y && m@ == n@,
        _ => false,
    }
}

/// Copies a list of model states element for element.
pub fn clone_statuses(v: &Vec<ModelProvisioningStatus>) -> (r: Vec<ModelProvisioningStatus>)
    ensures
        r@ == v@,
{
    let mut out: Vec<ModelProvisioningStatus> = Vec::new();
    let mut i: usize = 0;
    while i < v.len()
        invariant
            i <= v.len(),
            out@ == v@.subrange(0, i as int),
        decreases v.len() - i,
    {
        out.push(v[i].clone());
        proof {
            assert(v@.subrange(0, i + 1) == v@.subrange(0, i as int).push(v@[i as int]));
        }
        i = i + 1;
    }
    proof {
        assert(v@.subrange(0, v@.len() as int) == v@);
    }
    out
}

impl Clone for ObserveEvent {
    fn clone(&self) -> (r: Self)
        ensures
            same_event(r, *self),
    {
        match self {
            ObserveEvent::NeuronRegistered { neuron } => ObserveEvent::NeuronRegistered {
                neuron: neuron.clone(),
            },
            ObserveEvent::NeuronRemoved { neuron_id } => ObserveEvent::NeuronRemoved {
                neuron_id: neuron_id.clone(),
            },
            ObserveEvent::NeuronHeartbeat { neuron_id, metrics } => ObserveEvent::NeuronHeartbeat {
                neuron_id: neuron_id.clone(),
                metrics: metrics.clone(),
            },
            ObserveEvent::ProvisioningSent { neuron_id, cmd } => ObserveEvent::ProvisioningSent {
                neuron_id: neuron_id.clone(),
                cmd: cmd.clone(),
            },
            ObserveEvent::ProvisioningResponse { neuron_id, response } =>
                ObserveEvent::ProvisioningResponse {
                neuron_id: neuron_id.clone(),
                response: response.clone(),
            },
            ObserveEvent::ModelStateChanged { neuron_id, models } =>
                ObserveEvent::ModelStateChanged {
                neuron_id: neuron_id.clone(),
                models: clone_statuses(models),
            },
        }
    }
}

/// Liveness class of a worker.
pub enum Health {
    /// Heartbeat at most a minute old.
    Healthy,
    /// Heartbeat at most five minutes old.
    Degraded,
    /// Anything older.
    Stale,
}

/// Heartbeat age (milliseconds) up to which a worker is healthy.
pub const HEALTHY_THRESHOLD_MS: u64 = 60000;

/// Heartbeat age (milliseconds) up to which a worker is degraded.
pub const DEGRADED_THRESHOLD_MS: u64 = 300000;

/// The liveness class of a heartbeat age in milliseconds.
pub open spec fn health_of(age: u64) -> Health {
    if age <= HEALTHY_THRESHOLD_MS {
        Health::Healthy
    } else if age <= DEGRADED_THRESHOLD_MS {
        Health::Degraded
    } else {
        Health::Stale
    }
}

impl Health {
    /// Classifies a heartbeat age in milliseconds.
    pub fn classify(age: u64) -> (r: Health)
        ensures
            r == health_of(age),
    {
        if age <= HEALTHY_THRESHOLD_MS {
            Health::Healthy
        } else if age <= DEGRADED_THRESHOLD_MS {
            Health::Degraded
        } else {
            Health::Stale
        }
    }

    /// The class's name on the wire.
    pub fn as_str(&self) -> (r: &'static str)
        ensures
            r@ == match *self {
                Health::Healthy => "healthy"@,
                Health::Degraded => "degraded"@,
                Health::Stale => "stale"@,
            },
    {
        match self {
            Health::Healthy => "healthy",
            Health::Degraded => "degraded",
            Health::Stale => "stale",
        }
    }
}

/// A worker as a monitor sees it.
pub struct ObserveNeuron {
    pub descriptor: NeuronDescriptor,
    /// Milliseconds since the last heartbeat.
    pub last_heartbeat_age: u64,
    pub health: Health,
    /// Whether the worker is known to be gone; listed workers are online.
    pub offline: bool,
    pub models: Vec<ModelProvisioningStatus>,
}

/// The fleet at one moment.
pub struct ObserveSnapshot {
    pub neurons: Vec<ObserveNeuron>,
}

/// What a monitor receives: first one snapshot, then events.
pub enum ObserveMessage {
    Snapshot { snapshot: ObserveSnapshot },
    Event { event: ObserveEvent },
}

/// The id under which a worker's model states are looked up.
pub open spec fn status_key(d: NeuronDescriptor) -> Seq<char> {
    match d.node_id {
        Some(id) => id@,
        None => "unknown"@,
    }
}

/// The fleet view for a new monitor: each listed worker with its liveness
/// class and the model states known for it, in listing order.
pub fn build_snapshot(views: Vec<NeuronView>, store: &ModelProvisioningStore) -> (r:
    ObserveSnapshot)
    requires
        store.well_formed(),
    ensures
        r.neurons@.len() == views@.len(),
        forall|i: int|
            0 <= i < views@.len() ==> {
                let n = #[trigger] r.neurons@[i];
                &&& n.descriptor == views@[i].descriptor
                &&& n.last_heartbeat_age == views@[i].last_heartbeat_age
                &&& n.health == health_of(views@[i].last_heartbeat_age)
                &&& !n.offline
                &&& lists_statuses(n.models@, store.statuses(status_key(views@[i].descriptor)))
            },
{
    let ghost vs = views@;
    let mut rest = views;
    let total = rest.len();
    let mut out: Vec<ObserveNeuron> = Vec::new();
    let mut i: usize = 0;
    while rest.len() > 0
        invariant
            i + rest@.len() == vs.len(),
            vs.len() == total,
            rest@ == vs.subrange(i as int, vs.len() as int),
            store.well_formed(),
            out@.len() == i,
            forall|j: int|
                0 <= j < i ==> {
                    let n = #[trigger] out@[j];
                    &&& n.descriptor == vs[j].descriptor
                    &&& n.last_heartbeat_age == vs[j].last_heartbeat_age
                    &&& n.health == health_of(vs[j].last_heartbeat_age)
                    &&& !n.offline
                    &&& lists_statuses(n.models@, store.statuses(status_key(vs[j].descriptor)))
                },
        decreases rest@.len(),
    {
        let view = rest.remove(0);
        proof {
            assert(view == vs[i as int]);
        }
        let models = match &view.descriptor.node_id {
            Some(id) => store.list_for_neuron(id.as_str()),
            None => {
                proof {
                    reveal_strlit("unknown");
                }
                store.list_for_neuron("unknown")
            },
        };
        let health = Health::classify(view.last_heartbeat_age);
        out.push(
            ObserveNeuron {
                descriptor: view.descriptor,
                last_heartbeat_age: view.last_heartbeat_age,
                health,
                offline: false,
                models,
            },
        );
        i = i + 1;
        proof {
            assert(rest@ =~= vs.subrange(i as int, vs.len() as int));
        }
    }
    ObserveSnapshot { neurons: out }
}

/// What a monitor's session sees next.
pub enum MonitorInput {
    /// The bus delivered an event.
    Event(ObserveEvent),
    /// The monitor fell behind and this many events were dropped.
    Lagged(u64),
    /// The bus has no publisher left.
    BusClosed,
    /// The client closed the connection, the stream ended, or it failed.
    ClientGone,
    /// The client sent a frame; monitors are read-only.
    ClientFrame,
}

/// What a monitor's session does next.
pub enum MonitorAction {
    /// Send this message to the client and go on.
    Send(ObserveMessage),
    /// Nothing to send; go on.
    Continue,
    /// End the session.
    Stop,
}

/// One step of a monitor's session after its snapshot: forward each event,
/// survive a lag (the dropped events are lost, later ones still come),
/// ignore what the client sends, and stop when the bus or the client is
/// gone.
pub fn monitor_step(input: MonitorInput) -> (r: MonitorAction)
    ensures
        match input {
            MonitorInput::Event(e) => r matches MonitorAction::Send(
                ObserveMessage::Event { event },
            ) && event == e,
            MonitorInput::Lagged(_) => r is Continue,
            MonitorInput::ClientFrame => r is Continue,
            MonitorInput::BusClosed => r is Stop,
            MonitorInput::ClientGone => r is Stop,
        },
{
    match input {
        MonitorInput::Event(event) => MonitorAction::Send(ObserveMessage::Event { event }),
        MonitorInput::Lagged(_) => MonitorAction::Continue,
        MonitorInput::ClientFrame => MonitorAction::Continue,
        MonitorInput::BusClosed => MonitorAction::Stop,
        MonitorInput::ClientGone => MonitorAction::Stop,
    }
}

/// Sending half of the fleet-event channel.
#[verifier::external_type_specification]
#[verifier::external_body]
#[verifier::reject_recursive_types(T)]
pub struct ExBroadcastSender<T>(tokio::sync::broadcast::Sender<T>);

/// One monitor's receiving half of the fleet-event channel.
#[verifier::external_type_specification]
#[verifier::external_body]
#[verifier::reject_recursive_types(T)]
pub struct ExBroadcastReceiver<T>(tokio::sync::broadcast::Receiver<T>);

/// Relies on tokio's `broadcast::channel`: a fan-out channel that keeps the
/// last `capacity` events for lagging receivers; it panics on a capacity of
/// zero or above `usize::MAX / 2`.
#[verifier::external_body]
fn open_channel(capacity: usize) -> (r: tokio::sync::broadcast::Sender<ObserveEvent>)
    requires
        0 < capacity <= usize::MAX / 2,
{
    tokio::sync::broadcast::channel(capacity).0
}

/// Relies on tokio's `broadcast::Sender::clone`: another handle on the same
/// channel.
#[verifier::external_body]
fn share_sender(tx: &tokio::sync::broadcast::Sender<ObserveEvent>) -> (r:
    tokio::sync::broadcast::Sender<ObserveEvent>) {
    tx.clone()
}

/// Relies on tokio's `broadcast::Sender::subscribe`: a receiver of every
/// event sent after this call.
#[verifier::external_body]
fn subscribe_to(tx: &tokio::sync::broadcast::Sender<ObserveEvent>) -> (r:
    tokio::sync::broadcast::Receiver<ObserveEvent>) {
    tx.subscribe()
}

/// Relies on tokio's `broadcast::Sender::send`: it fails only when no
/// receiver is subscribed, and otherwise returns how many receivers the
/// event was handed to.
#[verifier::external_body]
fn broadcast(tx: &tokio::sync::broadcast::Sender<ObserveEvent>, event: ObserveEvent) -> (r: Option<
    usize,
>)
    ensures
        r matches Some(n) ==> n >= 1,
{
    tx.send(event).ok()
}

/// Publish/subscribe bus of fleet events.
pub struct ObserveBus {
    tx: tokio::sync::broadcast::Sender<ObserveEvent>,
}

impl ObserveBus {
    /// A bus that keeps up to `capacity` events for each lagging subscriber.
    pub fn new(capacity: usize) -> (r: Self)
        requires
            0 < capacity <= usize::MAX / 2,
    {
        ObserveBus { tx: open_channel(capacity) }
    }

    /// A handle that publishes on this bus.
    pub fn publisher(&self) -> (r: tokio::sync::broadcast::Sender<ObserveEvent>) {
        share_sender(&self.tx)
    }

    /// A receiver of every event published from now on.
    pub fn subscribe(&self) -> (r: tokio::sync::broadcast::Receiver<ObserveEvent>) {
        subscribe_to(&self.tx)
    }

    /// Publishes `event`; returns how many subscribers it reached (none is
    /// not an error).
    pub fn publish(&self, event: ObserveEvent) -> (r: usize) {
        match broadcast(&self.tx, event) {
            Some(n) => n,
            None => 0,
        }
    }
}

} // verus!
