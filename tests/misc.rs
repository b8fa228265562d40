use helexa::cache::{helexa_cache_root, CacheError, JsonStore};
use helexa::cache_state::CachedCortexState;
use helexa::chat::{chat_completions_url, ChatMessage, ChatResponse, ChatRole};
use helexa::config::load_from_file;
use helexa::demand::DemandStore;
use helexa::mesh::{start_mesh, MeshHandle};
use helexa::orchestrator::{BasicScheduler, Scheduler};
use helexa::process::{ProcessError, ProcessManager};
use helexa::protocol::{RoutingDecision, WorkloadClass};
use helexa::table::Table;

#[test]
fn store_paths_live_under_the_cache_root() {
    assert_eq!(helexa_cache_root(Some("/home/u")).ok().as_deref(), Some("/home/u/.cache/helexa"));
    assert!(matches!(helexa_cache_root(None), Err(CacheError::NoCacheDir)));
    let s = match JsonStore::new(Some("/home/u"), "state") {
        Ok(s) => s,
        Err(_) => panic!("expected a store"),
    };
    assert_eq!(s.path(), "/home/u/.cache/helexa/state.json");
    assert_eq!(s.temp_path(), "/home/u/.cache/helexa/state.json.tmp");
    assert!(JsonStore::new(None, "state").is_err());
    assert_eq!(JsonStore::with_root("/r", "x").path(), "/r/x.json");
    match DemandStore::new(Some("/h")) {
        Ok(d) => assert_eq!(d.store.path(), "/h/.cache/helexa/cortex-model-demand.json"),
        Err(_) => panic!("expected a store"),
    }
    assert_eq!(CachedCortexState::store_name(), "cortex-state");
}

#[test]
fn chat_url_and_roles() {
    assert_eq!(chat_completions_url("http://127.0.0.1:9100"), "http://127.0.0.1:9100/v1/chat/completions");
    assert_eq!(chat_completions_url("http://h:1//"), "http://h:1/v1/chat/completions");
    assert_eq!(chat_completions_url(""), "/v1/chat/completions");
    assert_eq!(ChatRole::System.as_str(), "system");
    assert_eq!(ChatRole::User.as_str(), "user");
    assert_eq!(ChatRole::Assistant.as_str(), "assistant");
    let m = ChatMessage { role: ChatRole::User, content: "hi".to_string() };
    assert_eq!(m.content, "hi");
    let r = ChatResponse { content: "hello".to_string() };
    assert_eq!(r.content, "hello");
}

#[test]
fn default_routing_per_workload_class() {
    let cases = vec![
        (WorkloadClass::ChatInteractive, "default-chat"),
        (WorkloadClass::ChatBulk, "bulk-chat"),
        (WorkloadClass::Embedding, "default-embedding"),
        (WorkloadClass::VisionCaption, "default-vision"),
        (WorkloadClass::Other("custom".to_string()), "custom"),
    ];
    for (w, expected) in cases {
        let d = RoutingDecision::default_for(w);
        assert_eq!(d.model.0, expected);
        assert!(d.target_neurons.is_empty());
    }
    let s = BasicScheduler::new(MeshHandle::new("c1".to_string()));
    assert_eq!(s.schedule(WorkloadClass::ChatBulk).model.0, "bulk-chat");
}

#[test]
fn mesh_and_config_defaults() {
    assert_eq!(start_mesh(None).node_id(), "anonymous-cortex");
    assert_eq!(start_mesh(Some("c7".to_string())).node_id(), "c7");
    assert!(load_from_file("/etc/helexa.toml").node_id.is_none());
}

#[test]
fn process_table_indexes_by_pid_and_by_model() {
    let mut p = ProcessManager::new();
    let h = p.track_worker("a".to_string(), 10);
    assert_eq!(h.pid, 10);
    assert_eq!(h.model_id, "a");
    p.track_worker("b".to_string(), 11);
    p.track_worker("a".to_string(), 12);
    assert_eq!(p.pids_for_model("a"), vec![10, 12]);
    assert!(p.terminate_worker_by_pid(10));
    assert!(!p.terminate_worker_by_pid(10));
    assert_eq!(p.pids_for_model("a"), vec![12]);
    p.track_worker("b".to_string(), 12);
    assert!(p.pids_for_model("a").is_empty());
    assert_eq!(p.pids_for_model("b"), vec![11, 12]);
    assert_eq!(p.terminate_workers_for_model("b"), vec![11, 12]);
    assert!(p.terminate_workers_for_model("b").is_empty());
    assert!(p.terminate_workers_for_model("never").is_empty());
    let e = ProcessError::Spawn("denied".to_string());
    assert!(matches!(e, ProcessError::Spawn(ref m) if m == "denied"));
}

#[test]
fn table_keeps_insertion_order_and_replaces_in_place() {
    let mut t: Table<u32> = Table::new();
    t.insert("x".to_string(), 1);
    t.insert("y".to_string(), 2);
    t.insert("x".to_string(), 3);
    assert_eq!(t.len(), 2);
    assert_eq!(t.key_at(0), "x");
    assert_eq!(*t.value_at(0), 3);
    assert_eq!(t.get("y"), Some(&2));
    assert!(t.contains_key("x"));
    assert_eq!(t.remove("x"), Some(3));
    assert_eq!(t.remove("x"), None);
    assert_eq!(t.key_at(0), "y");
}
