use helexa::cache::JsonStore;
use helexa::cache_state::{restore_from_cache, snapshot_for_cache};
use helexa::control::{NeuronControlImpl, ProvisioningStep};
use helexa::fleet::NeuronRegistry;
use helexa::messages::{CortexToNeuron, NeuronDescriptor, NeuronToCortex};
use helexa::observe::{build_snapshot, Health, ObserveBus, ObserveEvent};
use helexa::process::ProcessManager;
use helexa::protocol::{ModelConfig, ModelId, ProvisioningCommand, ProvisioningResponse};
use helexa::runtime::{ModelConfigState, ModelRegistry, RuntimeManager};
use helexa::session::{
    accept_registration, bootstrap_commands, bootstrap_upsert_for_neuron, provisioning_notice, handle_neuron_message, prune_and_report,
    send_provisioning_to_neuron, ProtocolError,
};
use helexa::status::ModelProvisioningStore;

fn worker(id: &str) -> NeuronControlImpl {
    NeuronControlImpl::new(RuntimeManager::new(
        ModelRegistry::new(None),
        ProcessManager::new(),
        Some(id.to_string()),
        "ws://cortex/neuron".to_string(),
        JsonStore::with_root("/tmp/cache", "neuron-model-configs"),
        ModelConfigState::new(),
    ))
}

fn m1_config() -> ModelConfig {
    ModelConfig {
        id: ModelId("m1".to_string()),
        display_name: None,
        backend_kind: "llama_cpp".to_string(),
        command: Some("llama-server".to_string()),
        args: vec!["--model".to_string(), "m1.gguf".to_string()],
        env: Vec::new(),
        listen_endpoint: None,
        metadata: serde_json::Value::Null,
    }
}

fn deliver(
    rx: &mut tokio::sync::mpsc::UnboundedReceiver<CortexToNeuron>,
    w: &mut NeuronControlImpl,
) -> ProvisioningResponse {
    let msg = rx.try_recv().expect("a queued command");
    match w.on_cortex_message(msg) {
        Some(ProvisioningStep::Reply(r)) => r,
        Some(ProvisioningStep::Spawn(p)) => w.complete_load(p, Ok(31337)),
        Some(ProvisioningStep::Terminate { response, .. }) => response,
        None => panic!("expected a provisioning step"),
    }
}

#[test]
fn register_configure_load_and_observe_a_worker() {
    let mut registry = NeuronRegistry::new();
    let mut store = ModelProvisioningStore::new();
    let bus = ObserveBus::new(64);
    let mut events = bus.subscribe();
    let mut w = worker("w1");

    let register = NeuronToCortex::Register {
        neuron: NeuronDescriptor {
            node_id: Some("w1".to_string()),
            label: Some("gpu-box-1".to_string()),
            metadata: serde_json::Value::Null,
        },
    };
    let (id, ev) = match accept_registration(&mut registry, register, "10.0.0.2:5000", 1_000) {
        Ok(x) => x,
        Err(_) => panic!("registration refused"),
    };
    assert_eq!(id, "w1");
    bus.publish(ev);
    let listed = registry.list();
    assert_eq!(listed.len(), 1);
    assert_eq!(listed[0].node_id.as_deref(), Some("w1"));
    assert_eq!(listed[0].label.as_deref(), Some("gpu-box-1"));

    let (tx, mut rx) = tokio::sync::mpsc::unbounded_channel();
    registry.set_sender_for_neuron("w1", tx);

    assert!(send_provisioning_to_neuron(
        &registry,
        "w1",
        ProvisioningCommand::UpsertModelConfig(m1_config()),
        &bus
    )
    .is_ok());
    let r = deliver(&mut rx, &mut w);
    assert!(r.is_ok());
    assert_eq!(r.model_id().0, "m1");
    for e in handle_neuron_message(
        &mut registry,
        &mut store,
        NeuronToCortex::ProvisioningResponse { neuron_id: "w1".to_string(), response: r },
        2_000,
    ) {
        bus.publish(e);
    }

    assert!(send_provisioning_to_neuron(
        &registry,
        "w1",
        ProvisioningCommand::LoadModel { model_id: ModelId("m1".to_string()) },
        &bus
    )
    .is_ok());
    let r = deliver(&mut rx, &mut w);
    match &r {
        ProvisioningResponse::Success { model_id, message: Some(m) } => {
            assert_eq!(model_id.0, "m1");
            assert!(m.contains("http://127.0.0.1:"));
        }
        _ => panic!("expected the load to succeed"),
    }
    assert_eq!(w.runtime.process_manager.pids_for_model("m1"), vec![31337]);
    for e in handle_neuron_message(
        &mut registry,
        &mut store,
        NeuronToCortex::ProvisioningResponse { neuron_id: "w1".to_string(), response: r },
        3_000,
    ) {
        bus.publish(e);
    }

    let snap = build_snapshot(registry.list_with_health(4_000), &store);
    assert_eq!(snap.neurons.len(), 1);
    assert_eq!(snap.neurons[0].descriptor.node_id.as_deref(), Some("w1"));
    assert!(matches!(snap.neurons[0].health, Health::Healthy));
    assert_eq!(snap.neurons[0].models.len(), 1);
    assert_eq!(snap.neurons[0].models[0].model_id.0, "m1");
    assert!(snap.neurons[0].models[0].last_response.is_ok());

    let mut kinds: Vec<&'static str> = Vec::new();
    while let Ok(e) = events.try_recv() {
        kinds.push(match e {
            ObserveEvent::NeuronRegistered { .. } => "registered",
            ObserveEvent::ProvisioningSent { .. } => "sent",
            ObserveEvent::ProvisioningResponse { .. } => "response",
            ObserveEvent::ModelStateChanged { .. } => "models",
            ObserveEvent::NeuronRemoved { .. } => "removed",
            ObserveEvent::NeuronHeartbeat { .. } => "heartbeat",
        });
    }
    assert_eq!(
        kinds,
        vec!["registered", "sent", "response", "models", "sent", "response", "models"]
    );
}

#[test]
fn silent_worker_is_pruned_and_its_removal_published() {
    let mut registry = NeuronRegistry::new();
    let mut store = ModelProvisioningStore::new();
    let bus = ObserveBus::new(16);
    let mut events = bus.subscribe();
    let register = NeuronToCortex::Register {
        neuron: NeuronDescriptor {
            node_id: Some("w1".to_string()),
            label: Some("gpu-box-1".to_string()),
            metadata: serde_json::Value::Null,
        },
    };
    assert!(accept_registration(&mut registry, register, "peer", 0).is_ok());
    let hb = handle_neuron_message(
        &mut registry,
        &mut store,
        NeuronToCortex::Heartbeat { neuron_id: "w1".to_string(), metrics: serde_json::Value::Null },
        15_000,
    );
    assert_eq!(hb.len(), 1);
    assert!(prune_and_report(&mut registry, 90_000, 100_000).is_empty());
    assert_eq!(registry.len(), 1);
    for e in prune_and_report(&mut registry, 90_000, 105_001) {
        bus.publish(e);
    }
    assert_eq!(registry.len(), 0);
    match events.try_recv() {
        Ok(ObserveEvent::NeuronRemoved { neuron_id }) => assert_eq!(neuron_id, "w1"),
        _ => panic!("expected a removal event"),
    }
}

#[test]
fn first_message_must_be_a_registration() {
    let mut registry = NeuronRegistry::new();
    let hb = NeuronToCortex::Heartbeat { neuron_id: "w1".to_string(), metrics: serde_json::Value::Null };
    assert!(matches!(
        accept_registration(&mut registry, hb, "peer", 0),
        Err(ProtocolError::ExpectedRegister)
    ));
    assert_eq!(registry.len(), 0);
}

#[test]
fn anonymous_registration_is_named_after_its_peer() {
    let mut registry = NeuronRegistry::new();
    let register = NeuronToCortex::Register {
        neuron: NeuronDescriptor { node_id: None, label: None, metadata: serde_json::Value::Null },
    };
    match accept_registration(&mut registry, register, "10.1.2.3:4567", 0) {
        Ok((id, _)) => assert_eq!(id, "peer-10.1.2.3:4567"),
        Err(_) => panic!("registration refused"),
    }
}

#[test]
fn reregistration_refreshes_and_shutdown_removes() {
    let mut registry = NeuronRegistry::new();
    let mut store = ModelProvisioningStore::new();
    let d = |label: &str| NeuronDescriptor {
        node_id: Some("w1".to_string()),
        label: Some(label.to_string()),
        metadata: serde_json::Value::Null,
    };
    assert!(accept_registration(&mut registry, NeuronToCortex::Register { neuron: d("a") }, "p", 0).is_ok());
    let ev = handle_neuron_message(&mut registry, &mut store, NeuronToCortex::Register { neuron: d("b") }, 5);
    assert!(ev.is_empty());
    assert_eq!(registry.len(), 1);
    assert_eq!(registry.list()[0].label.as_deref(), Some("b"));
    let ev = handle_neuron_message(
        &mut registry,
        &mut store,
        NeuronToCortex::Shutdown { neuron_id: "w1".to_string(), reason: None },
        6,
    );
    assert_eq!(ev.len(), 1);
    assert!(matches!(&ev[0], ObserveEvent::NeuronRemoved { neuron_id } if neuron_id == "w1"));
    assert_eq!(registry.len(), 0);
    let ev = handle_neuron_message(
        &mut registry,
        &mut store,
        NeuronToCortex::Shutdown { neuron_id: "w1".to_string(), reason: None },
        7,
    );
    assert!(ev.is_empty());
}

#[test]
fn bootstrap_pushes_each_configuration_in_order() {
    let mut registry = NeuronRegistry::new();
    let configs = vec![m1_config(), {
        let mut c = m1_config();
        c.id = ModelId("m2".to_string());
        c
    }];
    assert!(bootstrap_upsert_for_neuron("w1", &registry, &Vec::new()).is_ok());
    assert!(bootstrap_upsert_for_neuron("w1", &registry, &configs).is_err());
    let register = NeuronToCortex::Register {
        neuron: NeuronDescriptor { node_id: Some("w1".to_string()), label: None, metadata: serde_json::Value::Null },
    };
    assert!(accept_registration(&mut registry, register, "p", 0).is_ok());
    let (tx, mut rx) = tokio::sync::mpsc::unbounded_channel();
    registry.set_sender_for_neuron("w1", tx);
    assert_eq!(bootstrap_upsert_for_neuron("w1", &registry, &configs).ok(), Some(2));
    let mut ids: Vec<String> = Vec::new();
    while let Ok(CortexToNeuron::Provisioning { cmd: ProvisioningCommand::UpsertModelConfig(c) }) = rx.try_recv() {
        ids.push(c.id.0);
    }
    assert_eq!(ids, vec!["m1".to_string(), "m2".to_string()]);
}

#[test]
fn cache_keeps_only_recent_workers_with_ids_and_restores_them() {
    let mut registry = NeuronRegistry::new();
    let mut store = ModelProvisioningStore::new();
    let mk = |id: Option<&str>| NeuronDescriptor {
        node_id: id.map(|s| s.to_string()),
        label: None,
        metadata: serde_json::Value::Null,
    };
    registry.upsert_neuron(mk(Some("fresh")), 1_000_000);
    registry.upsert_neuron(mk(Some("old")), 0);
    registry.upsert_neuron(mk(None), 1_000_000);
    registry.upsert_neuron(mk(Some("idle")), 1_000_000);
    store.record_response(
        "fresh",
        ProvisioningResponse::Success { model_id: ModelId("m1".to_string()), message: None },
    );
    store.record_response(
        "old",
        ProvisioningResponse::Success { model_id: ModelId("m9".to_string()), message: None },
    );
    let cached = snapshot_for_cache(registry.list_with_health(1_200_000), &store);
    let ids: Vec<Option<String>> = cached.neurons.iter().map(|n| n.descriptor.node_id.clone()).collect();
    assert_eq!(ids, vec![Some("fresh".to_string()), Some("idle".to_string())]);
    assert_eq!(cached.neurons[0].last_heartbeat_age, 200_000);
    assert_eq!(cached.models_by_neuron.len(), 1);
    assert_eq!(cached.models_by_neuron[0].0, "fresh");

    let mut registry2 = NeuronRegistry::new();
    let mut store2 = ModelProvisioningStore::new();
    restore_from_cache(cached, &mut registry2, &mut store2, 5);
    assert_eq!(registry2.len(), 2);
    assert_eq!(registry2.list_with_health(10)[0].last_heartbeat_age, 5);
    assert_eq!(store2.list_for_neuron("fresh").len(), 1);
    assert!(store2.list_for_neuron("old").is_empty());
}

#[test]
fn provisioning_notice_names_the_worker_and_carries_the_command() {
    let (ev, msg) = provisioning_notice(
        "w9",
        ProvisioningCommand::LoadModel { model_id: ModelId("m7".to_string()) },
    );
    match ev {
        ObserveEvent::ProvisioningSent { neuron_id, cmd: ProvisioningCommand::LoadModel { model_id } } => {
            assert_eq!(neuron_id, "w9");
            assert_eq!(model_id.0, "m7");
        }
        _ => panic!("expected a ProvisioningSent event"),
    }
    assert!(matches!(
        msg,
        CortexToNeuron::Provisioning { cmd: ProvisioningCommand::LoadModel { model_id } } if model_id.0 == "m7"
    ));
}

#[test]
fn sending_a_command_publishes_it_and_queues_it() {
    let mut registry = NeuronRegistry::new();
    let bus = ObserveBus::new(8);
    let mut events = bus.subscribe();
    let register = NeuronToCortex::Register {
        neuron: NeuronDescriptor { node_id: Some("w1".to_string()), label: None, metadata: serde_json::Value::Null },
    };
    assert!(accept_registration(&mut registry, register, "p", 0).is_ok());
    assert!(send_provisioning_to_neuron(
        &registry,
        "w1",
        ProvisioningCommand::UnloadModel { model_id: ModelId("m1".to_string()) },
        &bus
    )
    .is_err());
    let (tx, mut rx) = tokio::sync::mpsc::unbounded_channel();
    registry.set_sender_for_neuron("w1", tx);
    assert!(send_provisioning_to_neuron(
        &registry,
        "w1",
        ProvisioningCommand::UnloadModel { model_id: ModelId("m2".to_string()) },
        &bus
    )
    .is_ok());
    let mut sent: Vec<String> = Vec::new();
    while let Ok(ObserveEvent::ProvisioningSent { neuron_id, cmd: ProvisioningCommand::UnloadModel { model_id } }) = events.try_recv() {
        assert_eq!(neuron_id, "w1");
        sent.push(model_id.0);
    }
    assert_eq!(sent, vec!["m1".to_string(), "m2".to_string()]);
    assert!(matches!(
        rx.try_recv(),
        Ok(CortexToNeuron::Provisioning { cmd: ProvisioningCommand::UnloadModel { model_id } }) if model_id.0 == "m2"
    ));
    assert!(rx.try_recv().is_err());
}

#[test]
fn bootstrap_commands_upsert_each_config_in_order() {
    let mut second = m1_config();
    second.id = ModelId("m2".to_string());
    let cmds = bootstrap_commands(&vec![m1_config(), second]);
    let ids: Vec<String> = cmds
        .into_iter()
        .map(|c| match c {
            CortexToNeuron::Provisioning { cmd: ProvisioningCommand::UpsertModelConfig(cfg) } => cfg.id.0,
            _ => panic!("expected an UpsertModelConfig"),
        })
        .collect();
    assert_eq!(ids, vec!["m1".to_string(), "m2".to_string()]);
    assert!(bootstrap_commands(&Vec::new()).is_empty());
}

#[test]
fn bootstrap_without_a_queue_reports_no_sender() {
    let mut registry = NeuronRegistry::new();
    let register = NeuronToCortex::Register {
        neuron: NeuronDescriptor { node_id: Some("w1".to_string()), label: None, metadata: serde_json::Value::Null },
    };
    assert!(accept_registration(&mut registry, register, "p", 0).is_ok());
    assert!(matches!(
        bootstrap_upsert_for_neuron("w1", &registry, &vec![m1_config()]),
        Err(helexa::fleet::SendError::NoSender)
    ));
}
