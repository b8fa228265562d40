//! Shared vocabulary of the control plane: model identifiers, model run
//! recipes, provisioning commands and their acknowledgements.
use vstd::prelude::*;

verus! {

/// Opaque structured data (object, array or scalar tree) carried through the
/// protocol without interpretation.
#[verifier::external_type_specification]
#[verifier::external_body]
pub struct ExJsonValue(serde_json::Value);

/// Relies on the `Clone` that serde_json derives for `Value`: the copy is the
/// same JSON tree.
pub assume_specification[ <serde_json::Value as Clone>::clone ](v: &serde_json::Value) -> (r:
    serde_json::Value)
    ensures
        r == *v,
;

/// Copies a list of strings element for element.
pub fn clone_strings(v: &Vec<String>) -> (r: Vec<String>)
    ensures
        r@ == v@,
{
    let mut out: Vec<String> = Vec::new();
    let mut i: usize = 0;
    while i < v.len()
        invariant
            i <= v.len(),
            out@ == v@.subrange(0, i as int),
        decreases v.len() - i,
    {
        out.push(v[i].clone());
        proof {
            assert(v@.subrange(0, i + 1) == v@.subrange(0, i as int).push(v@[i as int]));
        }
        i = i + 1;
    }
    proof {
        assert(v@.subrange(0, v@.len() as int) == v@);
    }
    out
}

/// Copies an optional string.
pub fn clone_opt_string(v: &Option<String>) -> (r: Option<String>)
    ensures
        r == *v,
{
    match v {
        Some(s) => Some(s.clone()),
        None => None,
    }
}

/// Logical identifier of a model.
pub struct ModelId(pub String);

impl Clone for ModelId {
    fn clone(&self) -> (r: Self)
        ensures
            r == *self,
    {
        ModelId(self.0.clone())
    }
}

/// One environment override for a backend process.
pub struct EnvVar {
    pub key: String,
    pub value: String,
}

impl Clone for EnvVar {
    fn clone(&self) -> (r: Self)
        ensures
            r == *self,
    {
        EnvVar { key: self.key.clone(), value: self.value.clone() }
    }
}

/// Copies a list of environment overrides.
pub fn clone_env(v: &Vec<EnvVar>) -> (r: Vec<EnvVar>)
    ensures
        r@ == v@,
{
    let mut out: Vec<EnvVar> = Vec::new();
    let mut i: usize = 0;
    while i < v.len()
        invariant
            i <= v.len(),
            out@ == v@.subrange(0, i as int),
        decreases v.len() - i,
    {
        out.push(v[i].clone());
        proof {
            assert(v@.subrange(0, i + 1) == v@.subrange(0, i as int).push(v@[i as int]));
        }
        i = i + 1;
    }
    proof {
        assert(v@.subrange(0, v@.len() as int) == v@);
    }
    out
}

/// Run recipe of a model as a worker understands it.
pub struct ModelConfig {
    /// Logical model identifier.
    pub id: ModelId,
    /// Name shown to operators.
    pub display_name: Option<String>,
    /// Backend kind tag (`"vllm"`, `"llama_cpp"`, ...).
    pub backend_kind: String,
    /// Program that serves the model.
    pub command: Option<String>,
    /// Arguments handed to the program.
    pub args: Vec<String>,
    /// Environment overrides for the program.
    pub env: Vec<EnvVar>,
    /// Base URL the backend listens on, when fixed by the operator.
    pub listen_endpoint: Option<String>,
    /// Free-form extension data.
    pub metadata: serde_json::Value,
}

impl ModelConfig {
    /// Same recipe: equal fields, lists compared by their contents.
    pub open spec fn same_recipe(self, o: ModelConfig) -> bool {
        &&& self.id == o.id
        &&& self.display_name == o.display_name
        &&& self.backend_kind == o.backend_kind
        &&& self.command == o.command
        &&& self.args@ == o.args@
        &&& self.env@ == o.env@
        &&& self.listen_endpoint == o.listen_endpoint
        &&& self.metadata == o.metadata
    }
}

impl Clone for ModelConfig {
    fn clone(&self) -> (r: Self)
        ensures
            r.same_recipe(*self),
    {
        ModelConfig {
            id: self.id.clone(),
            display_name: clone_opt_string(&self.display_name),
            backend_kind: self.backend_kind.clone(),
            command: clone_opt_string(&self.command),
            args: clone_strings(&self.args),
            env: clone_env(&self.env),
            listen_endpoint: clone_opt_string(&self.listen_endpoint),
            metadata: self.metadata.clone(),
        }
    }
}

/// Workload classification used when routing requests.
pub enum WorkloadClass {
    ChatInteractive,
    ChatBulk,
    Embedding,
    VisionCaption,
    Other(String),
}

/// What a model can do.
pub struct ModelCapability {
    pub id: ModelId,
    pub supports_chat: bool,
    pub supports_embeddings: bool,
    pub supports_vision: bool,
    pub max_context_tokens: u32,
}

/// A node that a routing decision points at.
pub struct RouteTarget {
    pub node_id: String,
    pub operator: Option<String>,
}

/// Outcome of scheduling one workload.
pub struct RoutingDecision {
    pub model: ModelId,
    pub target_neurons: Vec<RouteTarget>,
}

/// The model that serves a workload class when no better choice is known.
pub open spec fn default_model_for(w: WorkloadClass) -> Seq<char> {
    match w {
        WorkloadClass::ChatInteractive => "default-chat"@,
        WorkloadClass::ChatBulk => "bulk-chat"@,
        WorkloadClass::Embedding => "default-embedding"@,
        WorkloadClass::VisionCaption => "default-vision"@,
        WorkloadClass::Other(s) => s@,
    }
}

impl RoutingDecision {
    /// Fixed routing: a default model per workload class and no target yet.
    pub fn default_for(workload: WorkloadClass) -> (r: Self)
        ensures
            r.model.0@ == default_model_for(workload),
            r.target_neurons@.len() == 0,
    {
        let name = match workload {
            WorkloadClass::ChatInteractive => String::from_str("default-chat"),
            WorkloadClass::ChatBulk => String::from_str("bulk-chat"),
            WorkloadClass::Embedding => String::from_str("default-embedding"),
            WorkloadClass::VisionCaption => String::from_str("default-vision"),
            WorkloadClass::Other(s) => s,
        };
        RoutingDecision { model: ModelId(name), target_neurons: Vec::new() }
    }
}

/// Directive from the control node to a worker.
pub enum ProvisioningCommand {
    /// Make a configuration known; replaces any earlier one with the same id.
    UpsertModelConfig(ModelConfig),
    /// Start serving a configured model.
    LoadModel { model_id: ModelId },
    /// Stop serving a model; its configuration stays.
    UnloadModel { model_id: ModelId },
}

impl ProvisioningCommand {
    /// Same directive: same variant, same model, and for a configuration the
    /// same recipe.
    pub open spec fn same_command(self, o: ProvisioningCommand) -> bool {
        match (self, o) {
            (
                ProvisioningCommand::UpsertModelConfig(a),
                ProvisioningCommand::UpsertModelConfig(b),
            ) => a.same_recipe(b),
            (
                ProvisioningCommand::LoadModel { model_id: a },
                ProvisioningCommand::LoadModel { model_id: b },
            ) => a == b,
            (
                ProvisioningCommand::UnloadModel { model_id: a },
                ProvisioningCommand::UnloadModel { model_id: b },
            ) => a == b,
            _ => false,
        }
    }
}

impl Clone for ProvisioningCommand {
    fn clone(&self) -> (r: Self)
        ensures
            r.same_command(*self),
    {
        match self {
            ProvisioningCommand::UpsertModelConfig(c) => ProvisioningCommand::UpsertModelConfig(
                c.clone(),
            ),
            ProvisioningCommand::LoadModel { model_id } => ProvisioningCommand::LoadModel {
                model_id: model_id.clone(),
            },
            ProvisioningCommand::UnloadModel { model_id } => ProvisioningCommand::UnloadModel {
                model_id: model_id.clone(),
            },
        }
    }
}

/// Acknowledgement of one provisioning command.
pub enum ProvisioningResponse {
    Success { model_id: ModelId, message: Option<String> },
    Error { model_id: ModelId, error: String },
}

impl ProvisioningResponse {
    /// The model the response is about.
    pub open spec fn spec_model_id(self) -> ModelId {
        match self {
            ProvisioningResponse::Success { model_id, .. } => model_id,
            ProvisioningResponse::Error { model_id, .. } => model_id,
        }
    }

    /// The model the response is about.
    pub fn model_id(&self) -> (r: &ModelId)
        ensures
            *r == self.spec_model_id(),
    {
        match self {
            ProvisioningResponse::Success { model_id, .. } => model_id,
            ProvisioningResponse::Error { model_id, .. } => model_id,
        }
    }

    /// Whether the command succeeded.
    pub fn is_ok(&self) -> (r: bool)
        ensures
            r == (*self is Success),
    {
        match self {
            ProvisioningResponse::Success { .. } => true,
            ProvisioningResponse::Error { .. } => false,
        }
    }
}

impl Clone for ProvisioningResponse {
    fn clone(&self) -> (r: Self)
        ensures
            r == *self,
    {
        match self {
            ProvisioningResponse::Success { model_id, message } => ProvisioningResponse::Success {
                model_id: model_id.clone(),
                message: clone_opt_string(message),
            },
            ProvisioningResponse::Error { model_id, error } => ProvisioningResponse::Error {
                model_id: model_id.clone(),
                error: error.clone(),
            },
        }
    }
}

} // verus!
