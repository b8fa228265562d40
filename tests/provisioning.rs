use helexa::cache::JsonStore;
use helexa::control::{NeuronControlImpl, ProvisioningStep};
use helexa::messages::{CortexToNeuron, NeuronToCortex};
use helexa::process::ProcessManager;
use helexa::protocol::{EnvVar, ModelConfig, ModelId, ProvisioningCommand, ProvisioningResponse};
use helexa::runtime::{decimal_string, BackendKind, ModelConfigState, ModelRegistry, RuntimeManager};

fn control(node_id: Option<&str>) -> NeuronControlImpl {
    let runtime = RuntimeManager::new(
        ModelRegistry::new(None),
        ProcessManager::new(),
        node_id.map(|s| s.to_string()),
        "ws://127.0.0.1:9000/neuron".to_string(),
        JsonStore::with_root("/tmp/cache", "neuron-model-configs"),
        ModelConfigState::new(),
    );
    NeuronControlImpl::new(runtime)
}

fn config(id: &str, kind: &str, command: Option<&str>, listen: Option<&str>) -> ModelConfig {
    ModelConfig {
        id: ModelId(id.to_string()),
        display_name: None,
        backend_kind: kind.to_string(),
        command: command.map(|s| s.to_string()),
        args: vec!["-m".to_string(), "model.gguf".to_string()],
        env: vec![EnvVar { key: "CUDA_VISIBLE_DEVICES".to_string(), value: "0".to_string() }],
        listen_endpoint: listen.map(|s| s.to_string()),
        metadata: serde_json::Value::Null,
    }
}

fn reply(step: ProvisioningStep) -> ProvisioningResponse {
    match step {
        ProvisioningStep::Reply(r) => r,
        _ => panic!("expected a reply"),
    }
}

fn success_message(r: &ProvisioningResponse) -> String {
    match r {
        ProvisioningResponse::Success { message: Some(m), .. } => m.clone(),
        _ => panic!("expected a success with a message"),
    }
}

fn error_text(r: &ProvisioningResponse) -> String {
    match r {
        ProvisioningResponse::Error { error, .. } => error.clone(),
        _ => panic!("expected an error"),
    }
}

#[test]
fn load_before_configuration_is_an_error() {
    let mut c = control(Some("w1"));
    let r = reply(c.apply_provisioning(ProvisioningCommand::LoadModel {
        model_id: ModelId("m1".to_string()),
    }));
    assert_eq!(r.model_id().0, "m1");
    assert_eq!(
        error_text(&r),
        "no configuration found for model; send UpsertModelConfig first"
    );
    assert!(c.runtime.process_manager.pids_for_model("m1").is_empty());
}

#[test]
fn configure_then_load_tracks_one_process_and_names_the_endpoint() {
    let mut c = control(Some("w1"));
    let r = reply(c.apply_provisioning(ProvisioningCommand::UpsertModelConfig(config(
        "m1",
        "llama_cpp",
        Some("llama-server"),
        None,
    ))));
    assert!(r.is_ok());
    assert_eq!(success_message(&r), "configuration updated");
    let pending = match c.apply_provisioning(ProvisioningCommand::LoadModel {
        model_id: ModelId("m1".to_string()),
    }) {
        ProvisioningStep::Spawn(p) => p,
        _ => panic!("expected a spawn"),
    };
    assert_eq!(pending.endpoint, "http://127.0.0.1:9100");
    assert_eq!(pending.request.program, "llama-server");
    assert_eq!(pending.request.args, vec!["-m".to_string(), "model.gguf".to_string()]);
    assert_eq!(
        pending.request.env,
        vec![("CUDA_VISIBLE_DEVICES".to_string(), "0".to_string())]
    );
    let r = c.complete_load(pending, Ok(4242));
    assert_eq!(r.model_id().0, "m1");
    let msg = success_message(&r);
    assert!(!msg.is_empty());
    assert!(msg.contains("http://127.0.0.1:9100"));
    assert_eq!(c.runtime.process_manager.pids_for_model("m1"), vec![4242]);
    let entry = match c.runtime.registry.get_runtime_for_model("m1") {
        Ok(e) => e,
        Err(_) => panic!("expected a runtime"),
    };
    assert_eq!(entry.base_url, "http://127.0.0.1:9100");
    assert_eq!(entry.worker_id.as_deref(), Some("4242"));
    assert_eq!(c.runtime.next_backend_port, 9101);
}

#[test]
fn each_derived_endpoint_takes_the_next_port() {
    let mut c = control(None);
    c.apply_provisioning(ProvisioningCommand::UpsertModelConfig(config(
        "a",
        "vllm",
        Some("uvx"),
        None,
    )));
    let first = match c.apply_provisioning(ProvisioningCommand::LoadModel {
        model_id: ModelId("a".to_string()),
    }) {
        ProvisioningStep::Spawn(p) => p.endpoint,
        _ => panic!("expected a spawn"),
    };
    let second = match c.apply_provisioning(ProvisioningCommand::LoadModel {
        model_id: ModelId("a".to_string()),
    }) {
        ProvisioningStep::Spawn(p) => p.endpoint,
        _ => panic!("expected a spawn"),
    };
    assert_eq!(first, "http://127.0.0.1:9100");
    assert_eq!(second, "http://127.0.0.1:9101");
}

#[test]
fn explicit_endpoint_is_used_verbatim_without_a_port() {
    let mut c = control(None);
    c.apply_provisioning(ProvisioningCommand::UpsertModelConfig(config(
        "m2",
        "openai_proxy",
        Some("proxy"),
        Some("http://10.0.0.5:8000"),
    )));
    match c.apply_provisioning(ProvisioningCommand::LoadModel {
        model_id: ModelId("m2".to_string()),
    }) {
        ProvisioningStep::Spawn(p) => assert_eq!(p.endpoint, "http://10.0.0.5:8000"),
        _ => panic!("expected a spawn"),
    }
    assert_eq!(c.runtime.next_backend_port, 9100);
}

#[test]
fn unsupported_backend_kind_fails_the_load() {
    let mut c = control(None);
    c.apply_provisioning(ProvisioningCommand::UpsertModelConfig(config(
        "m3",
        "mystery",
        Some("run"),
        None,
    )));
    let r = reply(c.apply_provisioning(ProvisioningCommand::LoadModel {
        model_id: ModelId("m3".to_string()),
    }));
    assert_eq!(
        error_text(&r),
        "failed to derive listen endpoint: unsupported backend_kind mystery for deriving listen endpoint"
    );
    assert_eq!(c.runtime.next_backend_port, 9100);
}

#[test]
fn missing_command_fails_the_load() {
    let mut c = control(None);
    c.apply_provisioning(ProvisioningCommand::UpsertModelConfig(config("m4", "vllm", None, None)));
    let r = reply(c.apply_provisioning(ProvisioningCommand::LoadModel {
        model_id: ModelId("m4".to_string()),
    }));
    assert_eq!(
        error_text(&r),
        "failed to derive listen endpoint: missing command in ModelConfig for model m4"
    );
    c.apply_provisioning(ProvisioningCommand::UpsertModelConfig(config(
        "m5",
        "vllm",
        None,
        Some("http://h:1"),
    )));
    let r = reply(c.apply_provisioning(ProvisioningCommand::LoadModel {
        model_id: ModelId("m5".to_string()),
    }));
    assert_eq!(error_text(&r), "missing command in ModelConfig; cortex must supply it");
}

#[test]
fn spawn_failure_leaves_nothing_tracked() {
    let mut c = control(None);
    c.apply_provisioning(ProvisioningCommand::UpsertModelConfig(config(
        "m1",
        "llama_cpp",
        Some("llama-server"),
        None,
    )));
    let pending = match c.apply_provisioning(ProvisioningCommand::LoadModel {
        model_id: ModelId("m1".to_string()),
    }) {
        ProvisioningStep::Spawn(p) => p,
        _ => panic!("expected a spawn"),
    };
    let r = c.complete_load(pending, Err("No such file or directory".to_string()));
    assert_eq!(
        error_text(&r),
        "failed to spawn backend process: No such file or directory"
    );
    assert!(c.runtime.process_manager.pids_for_model("m1").is_empty());
    assert!(c.runtime.registry.get_runtime_for_model("m1").is_err());
}

#[test]
fn unload_after_load_clears_processes_and_handle_and_repeats_as_noop() {
    let mut c = control(None);
    c.apply_provisioning(ProvisioningCommand::UpsertModelConfig(config(
        "m1",
        "llama_cpp",
        Some("llama-server"),
        None,
    )));
    let pending = match c.apply_provisioning(ProvisioningCommand::LoadModel {
        model_id: ModelId("m1".to_string()),
    }) {
        ProvisioningStep::Spawn(p) => p,
        _ => panic!("expected a spawn"),
    };
    c.complete_load(pending, Ok(77));
    for expected in [vec![77u32], vec![]] {
        match c.apply_provisioning(ProvisioningCommand::UnloadModel {
            model_id: ModelId("m1".to_string()),
        }) {
            ProvisioningStep::Terminate { pids, response } => {
                assert_eq!(pids, expected);
                assert_eq!(
                    success_message(&response),
                    "unload requested; backend workers terminated and model unregistered"
                );
            }
            _ => panic!("expected a termination"),
        }
        assert!(c.runtime.process_manager.pids_for_model("m1").is_empty());
        assert!(c.runtime.registry.get_runtime_for_model("m1").is_err());
    }
    assert!(c.runtime.model_configs.get(&ModelId("m1".to_string())).is_some());
}

#[test]
fn reconfiguring_replaces_the_recipe() {
    let mut c = control(None);
    c.apply_provisioning(ProvisioningCommand::UpsertModelConfig(config(
        "m1",
        "vllm",
        Some("old"),
        None,
    )));
    c.apply_provisioning(ProvisioningCommand::UpsertModelConfig(config(
        "m1",
        "vllm",
        Some("new"),
        None,
    )));
    let cfg = c.runtime.model_configs.get(&ModelId("m1".to_string())).unwrap();
    assert_eq!(cfg.command.as_deref(), Some("new"));
    assert_eq!(c.runtime.model_configs.configs.len(), 1);
}

#[test]
fn cortex_messages_other_than_provisioning_need_no_action() {
    let mut c = control(Some("w1"));
    assert!(c.on_cortex_message(CortexToNeuron::RequestCapabilities).is_none());
    assert!(c
        .on_cortex_message(CortexToNeuron::ShutdownNotice { reason: None })
        .is_none());
    assert!(c
        .on_cortex_message(CortexToNeuron::Provisioning {
            cmd: ProvisioningCommand::UnloadModel { model_id: ModelId("x".to_string()) },
        })
        .is_some());
}

#[test]
fn worker_reports_its_id_or_anonymous() {
    assert_eq!(control(Some("w1")).neuron_id(), "w1");
    assert_eq!(control(None).neuron_id(), "anonymous-neuron");
    match control(Some("w1")).register_message(serde_json::Value::Bool(true)) {
        NeuronToCortex::Register { neuron } => {
            assert_eq!(neuron.node_id.as_deref(), Some("w1"));
            assert_eq!(neuron.label.as_deref(), Some("w1"));
            assert_eq!(neuron.metadata, serde_json::Value::Bool(true));
        }
        _ => panic!("expected a registration"),
    }
}

#[test]
fn port_allocation_never_repeats_and_never_goes_below_1024() {
    let mut c = control(None);
    c.runtime.next_backend_port = 65535;
    assert_eq!(c.runtime.allocate_backend_port(), Some(65535));
    assert_eq!(c.runtime.allocate_backend_port(), None);
    assert_eq!(c.runtime.allocate_backend_port(), None);
    c.runtime.next_backend_port = 80;
    assert_eq!(c.runtime.allocate_backend_port(), Some(80));
    assert_eq!(c.runtime.allocate_backend_port(), Some(1024));
}

#[test]
fn load_fails_once_every_port_is_used() {
    let mut c = control(None);
    c.apply_provisioning(ProvisioningCommand::UpsertModelConfig(config(
        "m1",
        "vllm",
        Some("uvx"),
        None,
    )));
    c.runtime.next_backend_port = 65536;
    let r = reply(c.apply_provisioning(ProvisioningCommand::LoadModel {
        model_id: ModelId("m1".to_string()),
    }));
    assert_eq!(r.model_id().0, "m1");
    assert_eq!(
        error_text(&r),
        "failed to derive listen endpoint: no backend port left to allocate"
    );
    assert_eq!(c.runtime.next_backend_port, 65536);
}

#[test]
fn decimal_notation_and_backend_kinds() {
    assert_eq!(decimal_string(0), "0");
    assert_eq!(decimal_string(9), "9");
    assert_eq!(decimal_string(10), "10");
    assert_eq!(decimal_string(65535), "65535");
    assert!(matches!(BackendKind::parse("vllm"), Some(BackendKind::Vllm)));
    assert!(matches!(BackendKind::parse("llama_cpp"), Some(BackendKind::LlamaCpp)));
    assert!(BackendKind::parse("VLLM").is_none());
}
