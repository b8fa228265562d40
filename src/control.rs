//! The worker's provisioning state machine: configure, load and unload
//! models against the configuration store, the process table and the
//! runtime-handle registry.
//!
//! Loading runs in two steps around the start of the backend process, which
//! is the caller's part: `handle_load_model` decides and returns what to
//! start, `complete_load` records the outcome and produces the response.
use vstd::prelude::*;
use crate::messages::{CortexToNeuron, NeuronDescriptor, NeuronToCortex};
use crate::process::{
    lemma_without_model, pids_of_model, track_spec, without_model, without_pid, SpawnRequest,
    WorkerHandle,
};
use crate::protocol::{
    clone_opt_string, ModelConfig, ModelId, ProvisioningCommand, ProvisioningResponse,
};
use crate::runtime::{
    backend_kind_of, decimal, decimal_string, endpoint_error_text, endpoint_result,
    lemma_decimal_nonempty, loopback_url, next_port, takes_port, ModelEntry, RuntimeManager,
    PORT_LIMIT,
};

verus! {

/// How often a worker sends a heartbeat, in milliseconds.
pub const HEARTBEAT_INTERVAL_MS: u64 = 15000;

/// Text of the response to a configuration update.
pub open spec fn config_updated_text() -> Seq<char> {
    "configuration updated"@
}

/// Text of the response to a load without configuration.
pub open spec fn no_config_text() -> Seq<char> {
    "no configuration found for model; send UpsertModelConfig first"@
}

/// Text of the response to a load whose configuration names no command.
pub open spec fn no_command_text() -> Seq<char> {
    "missing command in ModelConfig; cortex must supply it"@
}

/// Text of the response to an unload.
pub open spec fn unloaded_text() -> Seq<char> {
    "unload requested; backend workers terminated and model unregistered"@
}

/// Text of the response to a load whose endpoint could not be derived.
pub open spec fn endpoint_failed_text(reason: Seq<char>) -> Seq<char> {
    "failed to derive listen endpoint: "@ + reason
}

/// Text of the response to a load whose backend did not start.
pub open spec fn spawn_failed_text(reason: Seq<char>) -> Seq<char> {
    "failed to spawn backend process: "@ + reason
}

/// Text of the response to a load whose backend started.
pub open spec fn loaded_text(endpoint: Seq<char>) -> Seq<char> {
    "model loaded and serving at "@ + endpoint
}

/// A load that waits for its backend process.
pub struct PendingLoad {
    pub model_id: ModelId,
    /// Base URL the backend will listen on.
    pub endpoint: String,
    /// What to start.
    pub request: SpawnRequest,
}

/// What a provisioning command asks of the caller.
pub enum ProvisioningStep {
    /// Send this response; nothing else to do.
    Reply(ProvisioningResponse),
    /// Start this process, then hand the outcome to `complete_load`.
    Spawn(PendingLoad),
    /// Kill these processes (their bookkeeping is already gone), then send
    /// the response.
    Terminate { pids: Vec<u32>, response: ProvisioningResponse },
}

/// Whether `r` is a success about `id` with message `m`.
pub open spec fn is_success(r: ProvisioningResponse, id: ModelId, m: Seq<char>) -> bool {
    r matches ProvisioningResponse::Success { model_id, message: Some(text) } && model_id == id
        && text@ == m
}

/// Whether `r` is an error about `id` with text `m`.
pub open spec fn is_error(r: ProvisioningResponse, id: ModelId, m: Seq<char>) -> bool {
    r matches ProvisioningResponse::Error { model_id, error } && model_id == id && error@ == m
}

/// Equal runtime state apart from the port allocator.
pub open spec fn same_but_port(a: RuntimeManager, b: RuntimeManager) -> bool {
    &&& a.registry == b.registry
    &&& a.process_manager == b.process_manager
    &&& a.model_configs == b.model_configs
    &&& a.model_config_store == b.model_config_store
    &&& a.node_id == b.node_id
    &&& a.cortex_control_endpoint == b.cortex_control_endpoint
}

/// Outcome of a configuration update `cfg` taking state `a` to `b`.
pub open spec fn upsert_post(
    a: RuntimeManager,
    b: RuntimeManager,
    cfg: ModelConfig,
    r: ProvisioningResponse,
) -> bool {
    &&& b.model_configs.well_formed()
    &&& b.model_configs@ == a.model_configs@.insert(cfg.id.0@, cfg)
    &&& b.registry == a.registry
    &&& b.process_manager == a.process_manager
    &&& b.next_backend_port == a.next_backend_port
    &&& b.node_id == a.node_id
    &&& is_success(r, cfg.id, config_updated_text())
}

/// Outcome of a load request for `id` taking state `a` to `b`.
pub open spec fn load_post(a: RuntimeManager, b: RuntimeManager, id: ModelId, r: ProvisioningStep) -> bool {
    let k = id.0@;
    if !a.model_configs@.contains_key(k) {
        &&& b == a
        &&& r matches ProvisioningStep::Reply(resp) && is_error(resp, id, no_config_text())
    } else {
        let cfg = a.model_configs@[k];
        &&& same_but_port(a, b)
        &&& b.next_backend_port == if takes_port(cfg, a.next_backend_port) {
            next_port(a.next_backend_port)
        } else {
            a.next_backend_port
        }
        &&& match endpoint_result(cfg, a.next_backend_port) {
            Err(e) => r matches ProvisioningStep::Reply(resp) && is_error(
                resp,
                id,
                endpoint_failed_text(endpoint_error_text(e)),
            ),
            Ok(endpoint) => match cfg.command {
                None => r matches ProvisioningStep::Reply(resp) && is_error(
                    resp,
                    id,
                    no_command_text(),
                ),
                Some(program) => r matches ProvisioningStep::Spawn(p) && p.model_id == id
                    && p.endpoint@ == endpoint && p.request.model_id == cfg.id.0
                    && p.request.model_id@ == id.0@
                    && p.request.program == program && p.request.args@ == cfg.args@
                    && p.request.env@.len() == cfg.env@.len() && forall|i: int|
                    0 <= i < p.request.env@.len() ==> (#[trigger] p.request.env@[i]) == (
                        cfg.env@[i].key,
                        cfg.env@[i].value,
                    ),
            },
        }
    }
}

/// Outcome of an unload of `id` taking state `a` to `b`: every process of the
/// model is forgotten (and handed out to be killed), its runtime handle is
/// dropped, and the response is a success whatever the state was.
pub open spec fn unload_post(a: RuntimeManager, b: RuntimeManager, id: ModelId, r: ProvisioningStep) -> bool {
    let k = id.0@;
    &&& b.process_manager.well_formed()
    &&& b.process_manager.handles() == without_model(a.process_manager.handles(), k)
    &&& b.registry.well_formed()
    &&& b.registry.entries@ == a.registry.entries@.remove(k)
    &&& b.registry.models_dir == a.registry.models_dir
    &&& b.model_configs == a.model_configs
    &&& b.next_backend_port == a.next_backend_port
    &&& b.node_id == a.node_id
    &&& r matches ProvisioningStep::Terminate { pids, response } && pids@ == pids_of_model(
        a.process_manager.handles(),
        k,
    ) && is_success(response, id, unloaded_text())
}

/// Outcome of provisioning command `cmd` taking state `a` to `b`.
pub open spec fn provisioning_post(
    a: RuntimeManager,
    b: RuntimeManager,
    cmd: ProvisioningCommand,
    r: ProvisioningStep,
) -> bool {
    match cmd {
        ProvisioningCommand::UpsertModelConfig(cfg) => r matches ProvisioningStep::Reply(resp)
            && upsert_post(a, b, cfg, resp),
        ProvisioningCommand::LoadModel { model_id } => load_post(a, b, model_id, r),
        ProvisioningCommand::UnloadModel { model_id } => unload_post(a, b, model_id, r),
    }
}

/// A worker's handler of provisioning commands.
pub struct NeuronControlImpl {
    pub runtime: RuntimeManager,
}

impl NeuronControlImpl {
    /// A handler over `runtime`.
    pub fn new(runtime: RuntimeManager) -> (r: Self)
        ensures
            r.runtime == runtime,
    {
        NeuronControlImpl { runtime }
    }

    /// Records `cfg`, replacing any configuration with the same id; always a
    /// success.
    pub fn handle_upsert_model_config(&mut self, cfg: ModelConfig) -> (r: ProvisioningResponse)
        requires
            old(self).runtime.well_formed(),
        ensures
            final(self).runtime.well_formed(),
            upsert_post(old(self).runtime, final(self).runtime, cfg, r),
            final(self).runtime.model_config_store == old(self).runtime.model_config_store,
            final(self).runtime.cortex_control_endpoint == old(self).runtime.cortex_control_endpoint,
    {
        let model_id = cfg.id.clone();
        self.runtime.model_configs.upsert(cfg);
        ProvisioningResponse::Success {
            model_id,
            message: Some(String::from_str("configuration updated")),
        }
    }

    /// First step of a load: looks up the configuration, derives the listen
    /// endpoint (taking a port when the worker places the backend), and says
    /// what to start; or answers with an error when the model has no
    /// configuration, no endpoint can be derived, or no command is given.
    pub fn handle_load_model(&mut self, model_id: ModelId) -> (r: ProvisioningStep)
        requires
            old(self).runtime.well_formed(),
        ensures
            final(self).runtime.well_formed(),
            load_post(old(self).runtime, final(self).runtime, model_id, r),
    {
        let cfg = match self.runtime.model_configs.get(&model_id) {
            Some(c) => c.clone(),
            None => {
                return ProvisioningStep::Reply(
                    ProvisioningResponse::Error {
                        model_id,
                        error: String::from_str(
                            "no configuration found for model; send UpsertModelConfig first",
                        ),
                    },
                );
            },
        };
        let listen = match self.runtime.derive_listen_endpoint(&cfg) {
            Ok(url) => url,
            Err(e) => {
                let mut error = String::from_str("failed to derive listen endpoint: ");
                let reason = e.message();
                error.append(reason.as_str());
                return ProvisioningStep::Reply(ProvisioningResponse::Error { model_id, error });
            },
        };
        match &cfg.command {
            Some(program) => {
                let request = SpawnRequest::for_config(&cfg, program);
                ProvisioningStep::Spawn(PendingLoad { model_id, endpoint: listen, request })
            },
            None => ProvisioningStep::Reply(
                ProvisioningResponse::Error {
                    model_id,
                    error: String::from_str(
                        "missing command in ModelConfig; cortex must supply it",
                    ),
                },
            ),
        }
    }

    /// Second step of a load: with the started process id, records the
    /// process under the model, binds the model to its endpoint and answers
    /// with a success that names the endpoint; with a start failure, changes
    /// nothing and answers with an error.
    pub fn complete_load(&mut self, pending: PendingLoad, outcome: Result<u32, String>) -> (r:
        ProvisioningResponse)
        requires
            old(self).runtime.well_formed(),
        ensures
            final(self).runtime.well_formed(),
            match outcome {
                Ok(pid) => {
                    &&& final(self).runtime.process_manager.handles() == track_spec(
                        old(self).runtime.process_manager.handles(),
                        WorkerHandle { model_id: pending.model_id.0, pid },
                    )
                    &&& final(self).runtime.registry.entries@.dom() == old(
                        self,
                    ).runtime.registry.entries@.dom().insert(pending.model_id.0@)
                    &&& final(self).runtime.registry.entries@[pending.model_id.0@].base_url
                        == pending.endpoint
                    &&& final(self).runtime.registry.entries@[pending.model_id.0@].worker_id
                        matches Some(w) && w@ == decimal(pid as nat)
                    &&& final(self).runtime.model_configs == old(self).runtime.model_configs
                    &&& final(self).runtime.next_backend_port == old(
                        self,
                    ).runtime.next_backend_port
                    &&& is_success(r, pending.model_id, loaded_text(pending.endpoint@))
                },
                Err(e) => {
                    &&& final(self).runtime == old(self).runtime
                    &&& is_error(r, pending.model_id, spawn_failed_text(e@))
                },
            },
    {
        match outcome {
            Ok(pid) => {
                let id_text = pending.model_id.0.clone();
                let _handle = self.runtime.process_manager.track_worker(id_text, pid);
                let worker_id = decimal_string(pid as u64);
                self.runtime.registry.register_chat_model(
                    pending.model_id.0.clone(),
                    pending.endpoint.clone(),
                    Some(worker_id),
                );
                let mut message = String::from_str("model loaded and serving at ");
                message.append(pending.endpoint.as_str());
                ProvisioningResponse::Success { model_id: pending.model_id, message: Some(message) }
            },
            Err(e) => {
                let mut error = String::from_str("failed to spawn backend process: ");
                error.append(e.as_str());
                ProvisioningResponse::Error { model_id: pending.model_id, error }
            },
        }
    }

    /// Forgets every process of the model and its runtime handle, whether or
    /// not it was loaded, and answers with a success.
    pub fn handle_unload_model(&mut self, model_id: ModelId) -> (r: ProvisioningStep)
        requires
            old(self).runtime.well_formed(),
        ensures
            final(self).runtime.well_formed(),
            unload_post(old(self).runtime, final(self).runtime, model_id, r),
    {
        let pids = self.runtime.process_manager.terminate_workers_for_model(model_id.0.as_str());
        let _was_bound = self.runtime.registry.unregister_chat_model(model_id.0.as_str());
        ProvisioningStep::Terminate {
            pids,
            response: ProvisioningResponse::Success {
                model_id,
                message: Some(
                    String::from_str(
                        "unload requested; backend workers terminated and model unregistered",
                    ),
                ),
            },
        }
    }

    /// Applies one provisioning command.
    pub fn apply_provisioning(&mut self, cmd: ProvisioningCommand) -> (r: ProvisioningStep)
        requires
            old(self).runtime.well_formed(),
        ensures
            final(self).runtime.well_formed(),
            provisioning_post(old(self).runtime, final(self).runtime, cmd, r),
    {
        match cmd {
            ProvisioningCommand::UpsertModelConfig(cfg) => ProvisioningStep::Reply(
                self.handle_upsert_model_config(cfg),
            ),
            ProvisioningCommand::LoadModel { model_id } => self.handle_load_model(model_id),
            ProvisioningCommand::UnloadModel { model_id } => self.handle_unload_model(model_id),
        }
    }

    /// Handles one message from the control node: a provisioning command
    /// gives a step; a capabilities request and a shutdown notice need no
    /// action (the worker keeps serving and reconnects on its own).
    pub fn on_cortex_message(&mut self, msg: CortexToNeuron) -> (r: Option<ProvisioningStep>)
        requires
            old(self).runtime.well_formed(),
        ensures
            final(self).runtime.well_formed(),
            match msg {
                CortexToNeuron::Provisioning { cmd } => r matches Some(step) && provisioning_post(
                    old(self).runtime,
                    final(self).runtime,
                    cmd,
                    step,
                ),
                _ => r is None && final(self).runtime == old(self).runtime,
            },
    {
        match msg {
            CortexToNeuron::Provisioning { cmd } => Some(self.apply_provisioning(cmd)),
            CortexToNeuron::RequestCapabilities => None,
            CortexToNeuron::ShutdownNotice { reason: _ } => None,
        }
    }

    /// The id this worker reports in heartbeats and responses.
    pub fn neuron_id(&self) -> (r: String)
        ensures
            r@ == reported_id(self.runtime.node_id),
    {
        match &self.runtime.node_id {
            Some(id) => id.clone(),
            None => String::from_str("anonymous-neuron"),
        }
    }

    /// The registration that opens a session: the stable id doubles as the
    /// label.
    pub fn register_message(&self, metadata: serde_json::Value) -> (r: NeuronToCortex)
        ensures
            r matches NeuronToCortex::Register { neuron } && neuron.node_id == self.runtime.node_id
                && neuron.label == self.runtime.node_id && neuron.metadata == metadata,
    {
        NeuronToCortex::Register {
            neuron: NeuronDescriptor {
                node_id: clone_opt_string(&self.runtime.node_id),
                label: clone_opt_string(&self.runtime.node_id),
                metadata,
            },
        }
    }
}

/// The id a worker reports: its stable id, or `anonymous-neuron`.
pub open spec fn reported_id(node_id: Option<String>) -> Seq<char> {
    match node_id {
        Some(id) => id@,
        None => "anonymous-neuron"@,
    }
}

/// Dropping one model's processes twice is the same as once.
pub proof fn lemma_without_model_idempotent(s: Seq<WorkerHandle>, m: Seq<char>)
    ensures
        without_model(without_model(s, m), m) == without_model(s, m),
    decreases s.len(),
{
    if s.len() > 0 {
        lemma_without_model_idempotent(s.drop_last(), m);
        let q = without_model(s.drop_last(), m);
        if s.last().model_id@ != m {
            let p = q.push(s.last());
            assert(p.drop_last() =~= q);
            assert(p.last() == s.last());
        }
    }
}

/// Recording a process never adds to the count of another model and adds one
/// to the count of its own.
pub proof fn lemma_track_count(s: Seq<WorkerHandle>, w: WorkerHandle)
    ensures
        pids_of_model(track_spec(s, w), w.model_id@).len() <= pids_of_model(s, w.model_id@).len()
            + 1,
        pids_of_model(track_spec(s, w), w.model_id@).len() >= 1,
{
    let m = w.model_id@;
    lemma_without_pid_count(s, w.pid, m);
    let t = track_spec(s, w);
    assert(t.drop_last() =~= without_pid(s, w.pid));
    assert(t.last() == w);
}

/// Dropping a process never adds to any model's count.
pub proof fn lemma_without_pid_count(s: Seq<WorkerHandle>, pid: u32, m: Seq<char>)
    ensures
        pids_of_model(without_pid(s, pid), m).len() <= pids_of_model(s, m).len(),
    decreases s.len(),
{
    if s.len() > 0 {
        lemma_without_pid_count(s.drop_last(), pid, m);
        let q = without_pid(s.drop_last(), pid);
        if s.last().pid != pid {
            let p = q.push(s.last());
            assert(p.drop_last() =~= q);
            assert(p.last() == s.last());
        }
    }
}

/// A model configured with a command, and either an explicit non-empty
/// endpoint or a backend kind the worker can place on a port, loads: once
/// configured, the load derives a non-empty endpoint and asks for its
/// backend, and once that process has started, the process table holds
/// exactly one process for the model (when it held none before). A worker
/// that must pick the port needs one left to hand out.
pub proof fn lemma_load_after_configure(s: RuntimeManager, cfg: ModelConfig, pid: u32)
    requires
        s.well_formed(),
        cfg.command is Some,
        match cfg.listen_endpoint {
            Some(e) => e@.len() > 0,
            None => backend_kind_of(cfg.backend_kind@) is Some && s.next_backend_port
                < PORT_LIMIT,
        },
        pids_of_model(s.process_manager.handles(), cfg.id.0@).len() == 0,
    ensures
        s.model_configs@.insert(cfg.id.0@, cfg).contains_key(cfg.id.0@),
        s.model_configs@.insert(cfg.id.0@, cfg)[cfg.id.0@] == cfg,
        endpoint_result(cfg, s.next_backend_port) matches Ok(e) && e.len() > 0,
        pids_of_model(
            track_spec(s.process_manager.handles(), WorkerHandle { model_id: cfg.id.0, pid }),
            cfg.id.0@,
        ).len() == 1,
{
    reveal_strlit("http://127.0.0.1:");
    if cfg.listen_endpoint is None {
        lemma_decimal_nonempty((s.next_backend_port as u16) as nat);
        assert(loopback_url(s.next_backend_port as u16).len() > 0);
    }
    lemma_track_count(s.process_manager.handles(), WorkerHandle { model_id: cfg.id.0, pid });
}

/// After an unload no process and no runtime handle remains for the model,
/// and unloading it again changes nothing, terminates nothing and again
/// succeeds.
pub proof fn lemma_unload_clears_model(
    handles: Seq<WorkerHandle>,
    entries: Map<Seq<char>, ModelEntry>,
    id: Seq<char>,
)
    ensures
        pids_of_model(without_model(handles, id), id).len() == 0,
        !entries.remove(id).contains_key(id),
        without_model(without_model(handles, id), id) == without_model(handles, id),
        entries.remove(id).remove(id) == entries.remove(id),
{
    lemma_without_model(handles, id);
    lemma_without_model_idempotent(handles, id);
    assert(entries.remove(id).remove(id) =~= entries.remove(id));
}

} // verus!
