//! A worker's runtime state: model configurations as learned from the control
//! node, the runtime handles of loaded models, the started backend processes
//! and the allocator of backend ports.
use vstd::prelude::*;
use crate::cache::JsonStore;
use crate::process::ProcessManager;
use crate::protocol::{ModelConfig, ModelId};
use crate::table::Table;

verus! {

/// Character of a decimal digit.
pub open spec fn digit_char(d: nat) -> char {
    if d == 0 {
        '0'
    } else if d == 1 {
        '1'
    } else if d == 2 {
        '2'
    } else if d == 3 {
        '3'
    } else if d == 4 {
        '4'
    } else if d == 5 {
        '5'
    } else if d == 6 {
        '6'
    } else if d == 7 {
        '7'
    } else if d == 8 {
        '8'
    } else {
        '9'
    }
}

/// Decimal notation of `n`, without leading zeros.
pub open spec fn decimal(n: nat) -> Seq<char>
    decreases n,
{
    if n < 10 {
        seq![digit_char(n)]
    } else {
        decimal(n / 10) + seq![digit_char(n % 10)]
    }
}

fn digit_str(d: u64) -> (r: &'static str)
    requires
        d < 10,
    ensures
        r@ == seq![digit_char(d as nat)],
{
    if d == 0 {
        proof {
            reveal_strlit("0");
        }
        "0"
    } else if d == 1 {
        proof {
            reveal_strlit("1");
        }
        "1"
    } else if d == 2 {
        proof {
            reveal_strlit("2");
        }
        "2"
    } else if d == 3 {
        proof {
            reveal_strlit("3");
        }
        "3"
    } else if d == 4 {
        proof {
            reveal_strlit("4");
        }
        "4"
    } else if d == 5 {
        proof {
            reveal_strlit("5");
        }
        "5"
    } else if d == 6 {
        proof {
            reveal_strlit("6");
        }
        "6"
    } else if d == 7 {
        proof {
            reveal_strlit("7");
        }
        "7"
    } else if d == 8 {
        proof {
            reveal_strlit("8");
        }
        "8"
    } else {
        proof {
            reveal_strlit("9");
        }
        "9"
    }
}

/// Decimal notation of `n`.
pub fn decimal_string(n: u64) -> (r: String)
    ensures
        r@ == decimal(n as nat),
    decreases n,
{
    if n < 10 {
        String::from_str(digit_str(n))
    } else {
        let mut s = decimal_string(n / 10);
        s.append(digit_str(n % 10));
        s
    }
}

/// Decimal notation is never empty.
pub proof fn lemma_decimal_nonempty(n: nat)
    ensures
        decimal(n).len() > 0,
    decreases n,
{
    if n >= 10 {
        lemma_decimal_nonempty(n / 10);
    }
}

/// Backends whose listen address the worker chooses itself.
pub enum BackendKind {
    /// vLLM's OpenAI-compatible server.
    Vllm,
    /// llama.cpp's `llama-server`.
    LlamaCpp,
}

/// The backend kind a tag names, if it is one the worker can place on a port.
pub open spec fn backend_kind_of(tag: Seq<char>) -> Option<BackendKind> {
    if tag == "vllm"@ {
        Some(BackendKind::Vllm)
    } else if tag == "llama_cpp"@ {
        Some(BackendKind::LlamaCpp)
    } else {
        None
    }
}

impl BackendKind {
    /// Reads a backend kind tag; unknown tags give `None`.
    pub fn parse(tag: &str) -> (r: Option<BackendKind>)
        ensures
            r == backend_kind_of(tag@),
    {
        let t = String::from_str(tag);
        if t == String::from_str("vllm") {
            Some(BackendKind::Vllm)
        } else if t == String::from_str("llama_cpp") {
            Some(BackendKind::LlamaCpp)
        } else {
            None
        }
    }
}

/// Why no listen endpoint could be derived for a configuration.
pub enum EndpointError {
    /// The configuration names no command (for the model with this id).
    MissingCommand(String),
    /// The backend kind (this tag) is not one the worker can place on a port.
    UnsupportedBackend(String),
    /// Every port has been handed out.
    PortsExhausted,
}

/// Text of an endpoint error.
pub open spec fn endpoint_error_text(e: EndpointError) -> Seq<char> {
    match e {
        EndpointError::MissingCommand(id) => "missing command in ModelConfig for model "@ + id@,
        EndpointError::UnsupportedBackend(tag) => "unsupported backend_kind "@ + tag@
            + " for deriving listen endpoint"@,
        EndpointError::PortsExhausted => "no backend port left to allocate"@,
    }
}

impl EndpointError {
    /// Human-readable text of the error.
    pub fn message(&self) -> (r: String)
        ensures
            r@ == endpoint_error_text(*self),
    {
        match self {
            EndpointError::MissingCommand(id) => {
                let mut s = String::from_str("missing command in ModelConfig for model ");
                s.append(id.as_str());
                s
            },
            EndpointError::UnsupportedBackend(tag) => {
                let mut s = String::from_str("unsupported backend_kind ");
                s.append(tag.as_str());
                s.append(" for deriving listen endpoint");
                s
            },
            EndpointError::PortsExhausted => String::from_str("no backend port left to allocate"),
        }
    }
}

/// Base URL of a backend on the loopback host at `port`.
pub open spec fn loopback_url(port: u16) -> Seq<char> {
    "http://127.0.0.1:"@ + decimal(port as nat)
}

/// One past the highest port: the allocator standing here has none left.
pub const PORT_LIMIT: u32 = 65536;

/// The allocator's position after handing out `p`: one more, never below
/// 1024; it stays put once every port is used up.
pub open spec fn next_port(p: u32) -> u32 {
    if p >= PORT_LIMIT {
        p
    } else if p + 1 < 1024 {
        1024
    } else {
        (p + 1) as u32
    }
}

/// Ports handed out one after another strictly increase, so none repeats
/// within a worker's lifetime.
pub proof fn lemma_ports_increase(p: u32)
    requires
        p < PORT_LIMIT,
    ensures
        next_port(p) > p,
        next_port(p) <= PORT_LIMIT,
{
}

/// Whether deriving an endpoint for `cfg` takes a port from an allocator
/// standing at `port`.
pub open spec fn takes_port(cfg: ModelConfig, port: u32) -> bool {
    &&& cfg.listen_endpoint is None
    &&& cfg.command is Some
    &&& backend_kind_of(cfg.backend_kind@) is Some
    &&& port < PORT_LIMIT
}

/// The endpoint derived for `cfg` when the allocator stands at `port`.
pub open spec fn endpoint_result(cfg: ModelConfig, port: u32) -> Result<Seq<char>, EndpointError> {
    match cfg.listen_endpoint {
        Some(e) => Ok(e@),
        None => if cfg.command is None {
            Err(EndpointError::MissingCommand(cfg.id.0))
        } else if backend_kind_of(cfg.backend_kind@) is Some {
            if port < PORT_LIMIT {
                Ok(loopback_url(port as u16))
            } else {
                Err(EndpointError::PortsExhausted)
            }
        } else {
            Err(EndpointError::UnsupportedBackend(cfg.backend_kind))
        },
    }
}

/// A worker's known model configurations, by model id.
pub struct ModelConfigState {
    pub configs: Table<ModelConfig>,
}

impl View for ModelConfigState {
    type V = Map<Seq<char>, ModelConfig>;

    open spec fn view(&self) -> Map<Seq<char>, ModelConfig> {
        self.configs@
    }
}

impl ModelConfigState {
    /// No model id twice, and each configuration filed under its own id.
    pub open spec fn well_formed(&self) -> bool {
        &&& self.configs.well_formed()
        &&& forall|k: Seq<char>| #[trigger] self@.contains_key(k) ==> self@[k].id.0@ == k
    }

    /// No configuration yet.
    pub fn new() -> (r: Self)
        ensures
            r.well_formed(),
            r@ == Map::<Seq<char>, ModelConfig>::empty(),
    {
        let r = ModelConfigState { configs: Table::new() };
        proof {
            assert(r@ == Map::<Seq<char>, ModelConfig>::empty());
        }
        r
    }

    fn key_for(model_id: &ModelId) -> (r: String)
        ensures
            r@ == model_id.0@,
    {
        model_id.0.clone()
    }

    /// Records `cfg`, replacing any configuration with the same id.
    pub fn upsert(&mut self, cfg: ModelConfig)
        requires
            old(self).well_formed(),
        ensures
            final(self).well_formed(),
            final(self)@ == old(self)@.insert(cfg.id.0@, cfg),
    {
        let key = Self::key_for(&cfg.id);
        self.configs.insert(key, cfg);
    }

    /// The configuration of `model_id`.
    pub fn get(&self, model_id: &ModelId) -> (r: Option<&ModelConfig>)
        requires
            self.well_formed(),
        ensures
            r is Some <==> self@.contains_key(model_id.0@),
            r is Some ==> *r.unwrap() == self@[model_id.0@],
    {
        self.configs.get(model_id.0.as_str())
    }

    /// Forgets the configuration of `model_id`.
    pub fn remove(&mut self, model_id: &ModelId)
        requires
            old(self).well_formed(),
        ensures
            final(self).well_formed(),
            final(self)@ == old(self)@.remove(model_id.0@),
    {
        let _gone = self.configs.remove(model_id.0.as_str());
    }
}

/// Where a loaded model is served.
pub struct ModelEntry {
    /// Base URL of the backend's OpenAI-style API.
    pub base_url: String,
    /// Model name to send to the backend.
    pub model_name: String,
    /// Process id of the backend, as text.
    pub worker_id: Option<String>,
}

/// A model id was looked up that has no runtime.
pub enum RegistryError {
    NotRegistered(String),
}

/// Runtime handles of the models a worker serves.
pub struct ModelRegistry {
    pub models_dir: Option<String>,
    pub entries: Table<ModelEntry>,
}

impl ModelRegistry {
    /// No key twice.
    pub open spec fn well_formed(&self) -> bool {
        self.entries.well_formed()
    }

    /// An empty registry.
    pub fn new(models_dir: Option<String>) -> (r: Self)
        ensures
            r.well_formed(),
            r.entries@ == Map::<Seq<char>, ModelEntry>::empty(),
            r.models_dir == models_dir,
    {
        ModelRegistry { models_dir, entries: Table::new() }
    }

    /// Binds `model_id` to the backend at `base_url`, replacing an earlier
    /// binding.
    pub fn register_chat_model(
        &mut self,
        model_id: String,
        base_url: String,
        worker_id: Option<String>,
    )
        requires
            old(self).well_formed(),
        ensures
            final(self).well_formed(),
            final(self).models_dir == old(self).models_dir,
            final(self).entries@.dom() == old(self).entries@.dom().insert(model_id@),
            final(self).entries@[model_id@].base_url == base_url,
            final(self).entries@[model_id@].model_name@ == model_id@,
            final(self).entries@[model_id@].worker_id == worker_id,
            forall|k: Seq<char>|
                k != model_id@ && old(self).entries@.contains_key(k) ==> #[trigger] final(self).entries@[k]
                    == old(self).entries@[k],
    {
        let entry = ModelEntry { base_url, model_name: model_id.clone(), worker_id };
        self.entries.insert(model_id, entry);
    }

    /// Drops the binding of `model_id`; returns whether there was one.
    pub fn unregister_chat_model(&mut self, model_id: &str) -> (r: bool)
        requires
            old(self).well_formed(),
        ensures
            final(self).well_formed(),
            final(self).models_dir == old(self).models_dir,
            final(self).entries@ == old(self).entries@.remove(model_id@),
            r == old(self).entries@.contains_key(model_id@),
    {
        self.entries.remove(model_id).is_some()
    }

    /// The runtime bound to `model_id`.
    pub fn get_runtime_for_model(&self, model_id: &str) -> (r: Result<&ModelEntry, RegistryError>)
        requires
            self.well_formed(),
        ensures
            r is Ok <==> self.entries@.contains_key(model_id@),
            r matches Ok(e) ==> *e == self.entries@[model_id@],
            r matches Err(RegistryError::NotRegistered(m)) ==> m@ == model_id@,
    {
        match self.entries.get(model_id) {
            Some(e) => Ok(e),
            None => Err(RegistryError::NotRegistered(String::from_str(model_id))),
        }
    }
}

/// First port handed to a backend.
pub const FIRST_BACKEND_PORT: u32 = 9100;

/// A worker's runtime state.
pub struct RuntimeManager {
    pub registry: ModelRegistry,
    pub process_manager: ProcessManager,
    /// Where the configurations are persisted.
    pub model_config_store: JsonStore,
    pub model_configs: ModelConfigState,
    /// The next port to hand out; `PORT_LIMIT` once all are used up.
    pub next_backend_port: u32,
    pub node_id: Option<String>,
    pub cortex_control_endpoint: String,
}

impl RuntimeManager {
    /// The parts keep their own invariants.
    pub open spec fn well_formed(&self) -> bool {
        &&& self.registry.well_formed()
        &&& self.process_manager.well_formed()
        &&& self.model_configs.well_formed()
    }

    /// Runtime state hydrated with `initial_state`; ports start at 9100.
    pub fn new(
        registry: ModelRegistry,
        process_manager: ProcessManager,
        node_id: Option<String>,
        cortex_control_endpoint: String,
        model_config_store: JsonStore,
        initial_state: ModelConfigState,
    ) -> (r: Self)
        requires
            registry.well_formed(),
            process_manager.well_formed(),
            initial_state.well_formed(),
        ensures
            r.well_formed(),
            r.next_backend_port == FIRST_BACKEND_PORT,
            r.model_configs == initial_state,
            r.registry == registry,
            r.process_manager == process_manager,
            r.node_id == node_id,
            r.cortex_control_endpoint == cortex_control_endpoint,
    {
        RuntimeManager {
            registry,
            process_manager,
            model_config_store,
            model_configs: initial_state,
            next_backend_port: FIRST_BACKEND_PORT,
            node_id,
            cortex_control_endpoint,
        }
    }

    /// The process table.
    pub fn process_manager(&self) -> (r: &ProcessManager)
        ensures
            *r == self.process_manager,
    {
        &self.process_manager
    }

    /// The control node's session endpoint.
    pub fn cortex_control_endpoint(&self) -> (r: &str)
        ensures
            r@ == self.cortex_control_endpoint@,
    {
        self.cortex_control_endpoint.as_str()
    }

    /// This worker's stable id, if it has one.
    pub fn node_id(&self) -> (r: &Option<String>)
        ensures
            *r == self.node_id,
    {
        &self.node_id
    }

    /// The runtime handles.
    pub fn registry(&self) -> (r: &ModelRegistry)
        ensures
            *r == self.registry,
    {
        &self.registry
    }

    /// Where configurations are persisted.
    pub fn model_config_store(&self) -> (r: &JsonStore)
        ensures
            *r == self.model_config_store,
    {
        &self.model_config_store
    }

    /// The known configurations.
    pub fn model_configs(&self) -> (r: &ModelConfigState)
        ensures
            *r == self.model_configs,
    {
        &self.model_configs
    }

    /// Hands out the next backend port, or `None` once every port has been
    /// handed out; the counter is monotonic, so no port is handed out twice.
    pub fn allocate_backend_port(&mut self) -> (r: Option<u16>)
        ensures
            old(self).next_backend_port < PORT_LIMIT ==> r == Some(
                old(self).next_backend_port as u16,
            ),
            old(self).next_backend_port >= PORT_LIMIT ==> r is None,
            final(self).next_backend_port == next_port(old(self).next_backend_port),
            final(self).registry == old(self).registry,
            final(self).process_manager == old(self).process_manager,
            final(self).model_configs == old(self).model_configs,
            final(self).model_config_store == old(self).model_config_store,
            final(self).node_id == old(self).node_id,
            final(self).cortex_control_endpoint == old(self).cortex_control_endpoint,
    {
        let port = self.next_backend_port;
        if port >= PORT_LIMIT {
            return None;
        }
        let bumped = port + 1;
        self.next_backend_port = if bumped < 1024 {
            1024
        } else {
            bumped
        };
        Some(port as u16)
    }

    /// The base URL a backend for `cfg` listens on: the explicit endpoint if
    /// the configuration has one; otherwise, for a backend kind the worker
    /// can place, the loopback host with the next port.
    pub fn derive_listen_endpoint(&mut self, cfg: &ModelConfig) -> (r: Result<String, EndpointError>)
        ensures
            match (r, endpoint_result(*cfg, old(self).next_backend_port)) {
                (Ok(s), Ok(e)) => s@ == e,
                (Err(a), Err(b)) => a == b,
                _ => false,
            },
            final(self).next_backend_port == if takes_port(*cfg, old(self).next_backend_port) {
                next_port(old(self).next_backend_port)
            } else {
                old(self).next_backend_port
            },
            final(self).registry == old(self).registry,
            final(self).process_manager == old(self).process_manager,
            final(self).model_configs == old(self).model_configs,
            final(self).model_config_store == old(self).model_config_store,
            final(self).node_id == old(self).node_id,
            final(self).cortex_control_endpoint == old(self).cortex_control_endpoint,
    {
        match &cfg.listen_endpoint {
            Some(explicit) => {
                return Ok(explicit.clone());
            },
            None => {},
        }
        if cfg.command.is_none() {
            return Err(EndpointError::MissingCommand(cfg.id.0.clone()));
        }
        match BackendKind::parse(cfg.backend_kind.as_str()) {
            Some(_kind) => {
                match self.allocate_backend_port() {
                    Some(port) => {
                        let mut url = String::from_str("http://127.0.0.1:");
                        let digits = decimal_string(port as u64);
                        url.append(digits.as_str());
                        Ok(url)
                    },
                    None => Err(EndpointError::PortsExhausted),
                }
            },
            None => Err(EndpointError::UnsupportedBackend(cfg.backend_kind.clone())),
        }
    }
}

} // verus!
