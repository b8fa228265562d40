use helexa::fleet::NeuronView;
use helexa::messages::NeuronDescriptor;
use helexa::observe::{
    build_snapshot, monitor_step, Health, MonitorAction, MonitorInput, ObserveBus, ObserveEvent,
    ObserveMessage,
};
use helexa::protocol::{ModelId, ProvisioningResponse};
use helexa::status::ModelProvisioningStore;
use tokio::sync::broadcast::error::TryRecvError;

fn removed(id: &str) -> ObserveEvent {
    ObserveEvent::NeuronRemoved { neuron_id: id.to_string() }
}

#[test]
fn subscriber_receives_every_later_event_in_order() {
    let bus = ObserveBus::new(16);
    assert_eq!(bus.publish(removed("before")), 0);
    let mut rx = bus.subscribe();
    let n: usize = 10;
    for i in 0..n {
        assert_eq!(bus.publish(removed(&format!("w{i}"))), 1);
    }
    let mut received: Vec<String> = Vec::new();
    while let Ok(ev) = rx.try_recv() {
        match ev {
            ObserveEvent::NeuronRemoved { neuron_id } => received.push(neuron_id),
            _ => panic!("unexpected event"),
        }
    }
    assert_eq!(received.len(), n);
    let expected: Vec<String> = (0..n).map(|i| format!("w{i}")).collect();
    assert_eq!(received, expected);
}

#[test]
fn publisher_handle_reaches_subscribers() {
    let bus = ObserveBus::new(4);
    let mut rx = bus.subscribe();
    let publisher = bus.publisher();
    assert_eq!(publisher.send(removed("w1")).ok(), Some(1));
    assert!(matches!(rx.try_recv(), Ok(ObserveEvent::NeuronRemoved { .. })));
}

#[test]
fn lagging_subscriber_is_told_events_were_dropped_and_resumes() {
    let bus = ObserveBus::new(2);
    let mut rx = bus.subscribe();
    for i in 0..5 {
        bus.publish(removed(&format!("w{i}")));
    }
    assert!(matches!(rx.try_recv(), Err(TryRecvError::Lagged(3))));
    match rx.try_recv() {
        Ok(ObserveEvent::NeuronRemoved { neuron_id }) => assert_eq!(neuron_id, "w3"),
        _ => panic!("expected the next available event"),
    }
}

#[test]
fn health_classes_follow_the_thresholds() {
    assert!(matches!(Health::classify(0), Health::Healthy));
    assert!(matches!(Health::classify(60_000), Health::Healthy));
    assert!(matches!(Health::classify(60_001), Health::Degraded));
    assert!(matches!(Health::classify(300_000), Health::Degraded));
    assert!(matches!(Health::classify(300_001), Health::Stale));
    assert_eq!(Health::Healthy.as_str(), "healthy");
    assert_eq!(Health::Degraded.as_str(), "degraded");
    assert_eq!(Health::Stale.as_str(), "stale");
}

#[test]
fn snapshot_lists_workers_with_health_and_model_states() {
    let mut store = ModelProvisioningStore::new();
    store.record_response(
        "w1",
        ProvisioningResponse::Success { model_id: ModelId("m1".to_string()), message: None },
    );
    store.record_response(
        "unknown",
        ProvisioningResponse::Error { model_id: ModelId("x".to_string()), error: "e".to_string() },
    );
    let views = vec![
        NeuronView {
            descriptor: NeuronDescriptor {
                node_id: Some("w1".to_string()),
                label: None,
                metadata: serde_json::Value::Null,
            },
            last_heartbeat_age: 1_000,
        },
        NeuronView {
            descriptor: NeuronDescriptor { node_id: None, label: None, metadata: serde_json::Value::Null },
            last_heartbeat_age: 400_000,
        },
    ];
    let snap = build_snapshot(views, &store);
    assert_eq!(snap.neurons.len(), 2);
    assert!(matches!(snap.neurons[0].health, Health::Healthy));
    assert!(!snap.neurons[0].offline);
    assert_eq!(snap.neurons[0].models.len(), 1);
    assert_eq!(snap.neurons[0].models[0].model_id.0, "m1");
    assert!(snap.neurons[0].models[0].last_response.is_ok());
    assert!(matches!(snap.neurons[1].health, Health::Stale));
    assert_eq!(snap.neurons[1].models.len(), 1);
    assert_eq!(snap.neurons[1].models[0].model_id.0, "x");
}

#[test]
fn status_store_keeps_the_last_response_per_model_and_restores() {
    let mut store = ModelProvisioningStore::new();
    store.record_response(
        "w1",
        ProvisioningResponse::Error { model_id: ModelId("m1".to_string()), error: "e".to_string() },
    );
    store.record_response(
        "w1",
        ProvisioningResponse::Success { model_id: ModelId("m2".to_string()), message: None },
    );
    store.record_response(
        "w1",
        ProvisioningResponse::Success { model_id: ModelId("m1".to_string()), message: None },
    );
    let list = store.list_for_neuron("w1");
    assert_eq!(list.len(), 2);
    assert_eq!(list[0].model_id.0, "m1");
    assert!(list[0].last_response.is_ok());
    assert_eq!(list[1].model_id.0, "m2");
    assert!(store.list_for_neuron("w2").is_empty());
    store.restore_statuses_for_neuron("w1", Vec::new());
    assert!(store.list_for_neuron("w1").is_empty());
}

#[test]
fn monitor_forwards_events_survives_lag_and_stops_when_either_side_goes() {
    match monitor_step(MonitorInput::Event(removed("w1"))) {
        MonitorAction::Send(ObserveMessage::Event { event: ObserveEvent::NeuronRemoved { neuron_id } }) => {
            assert_eq!(neuron_id, "w1")
        }
        _ => panic!("expected the event to be forwarded"),
    }
    assert!(matches!(monitor_step(MonitorInput::Lagged(7)), MonitorAction::Continue));
    assert!(matches!(monitor_step(MonitorInput::ClientFrame), MonitorAction::Continue));
    assert!(matches!(monitor_step(MonitorInput::BusClosed), MonitorAction::Stop));
    assert!(matches!(monitor_step(MonitorInput::ClientGone), MonitorAction::Stop));
}

#[test]
fn cloned_event_keeps_its_model_states() {
    let ev = ObserveEvent::ModelStateChanged {
        neuron_id: "w1".to_string(),
        models: vec![helexa::status::ModelProvisioningStatus {
            model_id: ModelId("m1".to_string()),
            last_response: ProvisioningResponse::Success { model_id: ModelId("m1".to_string()), message: None },
        }],
    };
    match ev.clone() {
        ObserveEvent::ModelStateChanged { neuron_id, models } => {
            assert_eq!(neuron_id, "w1");
            assert_eq!(models.len(), 1);
            assert_eq!(models[0].model_id.0, "m1");
        }
        _ => panic!("expected the same variant"),
    }
}
