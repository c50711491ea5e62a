use mcp_zero::agent::{generate_agent_id, Agent, AgentConfig, AgentStatus, HardwareConstraints};
use mcp_zero::json::JsonValue;
use mcp_zero::kernel::{KernelError, MCPKernel};
use mcp_zero::plugin::{Plugin, PluginCapabilities, PluginMetadata};
use mcp_zero::trace::TraceStatus;

fn config(name: &str, entry: Option<&str>, intents: &[&str]) -> AgentConfig {
    AgentConfig {
        name: name.to_string(),
        entry: entry.map(|e| e.to_string()),
        intents: intents.iter().map(|s| s.to_string()).collect(),
        hm: HardwareConstraints::default(),
        metadata: Vec::new(),
    }
}

fn is_agent_id(id: &str) -> bool {
    id.len() == 22
        && id.starts_with("agent_")
        && id[6..].chars().all(|c| c.is_ascii_digit() || ('a'..='f').contains(&c))
}

fn plugin(id: &str, external_access: bool) -> Plugin {
    let mut caps = PluginCapabilities::default();
    caps.external_access = external_access;
    Plugin::new(id.to_string(), caps, PluginMetadata::default())
}

#[test]
fn test_agent_id_generation() {
    let config = AgentConfig {
        name: "test_agent".to_string(),
        entry: Some("test_plugin".to_string()),
        intents: vec!["greet".to_string()],
        hm: HardwareConstraints::default(),
        metadata: Vec::new(),
    };

    let id = generate_agent_id(&config);
    assert!(id.starts_with("agent_"));
    assert_eq!(id.len(), 22);
}

#[test]
fn test_kernel_init() {
    let kernel = MCPKernel::new();
    assert_eq!(kernel.agent_count(), 0);
}

#[test]
fn spawn_registers_agent_with_digest_id() {
    let mut kernel = MCPKernel::new();
    let id = kernel.spawn_agent(config("test_agent", None, &["greet"])).unwrap();
    assert!(is_agent_id(&id), "{}", id);
    assert_eq!(kernel.agent_count(), 1);
    assert!(kernel.is_registered(&id));
}

#[test]
fn spawn_id_is_deterministic() {
    let mut kernel = MCPKernel::new();
    let a = kernel.spawn_agent(config("test_agent", None, &["greet"])).unwrap();
    let b = kernel.spawn_agent(config("test_agent", None, &["greet"])).unwrap();
    assert_eq!(a, b);
    assert_eq!(a, generate_agent_id(&config("test_agent", None, &["greet"])));
    assert_eq!(kernel.agent_count(), 1);
    let c = generate_agent_id(&config("other_agent", None, &["greet"]));
    assert_ne!(a, c);
}

#[test]
fn malicious_spawn_is_rejected_without_effects() {
    let mut kernel = MCPKernel::new();
    let r = kernel.spawn_agent(config("malware_agent", None, &["harm"]));
    assert!(matches!(r, Err(KernelError::EthicalConstraintViolated(_))));
    assert_eq!(kernel.agent_count(), 0);
    assert_eq!(kernel.tracer_ref().traces().len(), 0);
}

#[test]
fn intent_outside_the_list_fails_without_successful_end() {
    let mut kernel = MCPKernel::new();
    let id = kernel.spawn_agent(config("helper", Some("echo"), &["greet"])).unwrap();
    let r = kernel.execute(&id, "dance");
    assert!(matches!(r, Err(KernelError::ExecutionError(_))));
    for t in kernel.tracer_ref().traces() {
        for e in &t.entries {
            if e.event_type == "trace.end" {
                assert!(!String::from_utf8(e.data.encode()).unwrap().contains("\"success\":true"));
            }
        }
    }
}

#[test]
fn unknown_agent_is_reported() {
    let mut kernel = MCPKernel::new();
    assert!(matches!(kernel.execute("agent_nope", "greet"), Err(KernelError::AgentNotFound(_))));
    assert!(matches!(kernel.attach_plugin("agent_nope", "echo"), Err(KernelError::AgentNotFound(_))));
    assert!(matches!(kernel.snapshot("agent_nope"), Err(KernelError::AgentNotFound(_))));
}

#[test]
fn prohibited_intent_is_rejected_before_tracing() {
    let mut kernel = MCPKernel::new();
    let id = kernel.spawn_agent(config("cleaner", Some("echo"), &["wipe_disk"])).unwrap();
    let before = kernel.tracer_ref().traces().len();
    let r = kernel.execute(&id, "wipe_disk");
    assert!(matches!(r, Err(KernelError::EthicalConstraintViolated(_))));
    assert_eq!(kernel.tracer_ref().traces().len(), before);
}

#[test]
fn attach_needs_cached_plugin_and_is_idempotent() {
    let mut kernel = MCPKernel::new();
    let id = kernel.spawn_agent(config("helper", Some("echo"), &["greet"])).unwrap();
    assert!(matches!(kernel.attach_plugin(&id, "echo"), Err(KernelError::PluginNotFound(_))));
    kernel.register_plugin(plugin("echo", false));
    kernel.attach_plugin(&id, "echo").unwrap();
    kernel.attach_plugin(&id, "echo").unwrap();
    let (status, plugins) = kernel.agent_summary(&id).unwrap();
    assert_eq!(status, AgentStatus::Active);
    assert_eq!(plugins, vec!["echo".to_string()]);
}

#[test]
fn execution_round_trip_ends_trace() {
    let mut kernel = MCPKernel::new();
    let id = kernel.spawn_agent(config("helper", Some("echo"), &["greet"])).unwrap();
    kernel.register_plugin(plugin("echo", false));
    kernel.attach_plugin(&id, "echo").unwrap();
    let exec = kernel.execute(&id, "greet").unwrap();
    assert_eq!(exec.plugin_id, "echo");
    let trace_id = exec.trace_id.clone();
    let out = kernel
        .finish_execution(exec, Ok(JsonValue::Str("hello".to_string())))
        .unwrap();
    assert_eq!(String::from_utf8(out.encode()).unwrap(), "\"hello\"");
    let t = kernel
        .tracer_ref()
        .traces()
        .iter()
        .find(|t| t.id == trace_id)
        .unwrap();
    assert_eq!(t.status, TraceStatus::Completed);
    assert_eq!(t.entries.last().unwrap().event_type, "trace.end");
}

#[test]
fn failed_plugin_call_gives_execution_error() {
    let mut kernel = MCPKernel::new();
    let id = kernel.spawn_agent(config("helper", Some("echo"), &["greet"])).unwrap();
    kernel.register_plugin(plugin("echo", false));
    kernel.attach_plugin(&id, "echo").unwrap();
    let exec = kernel.execute(&id, "greet").unwrap();
    let r = kernel.finish_execution(exec, Err("trap".to_string()));
    assert!(matches!(r, Err(KernelError::ExecutionError(_))));
}

#[test]
fn missing_entry_plugin_fails_and_ends_trace_as_failed() {
    let mut kernel = MCPKernel::new();
    let id = kernel.spawn_agent(config("helper", Some("echo"), &["greet"])).unwrap();
    let r = kernel.execute(&id, "greet");
    assert!(matches!(r, Err(KernelError::ExecutionError(_))));
    let failed = kernel
        .tracer_ref()
        .traces()
        .iter()
        .filter(|t| t.intent == "greet")
        .all(|t| t.status == TraceStatus::Failed);
    assert!(failed);
}

#[test]
fn recover_of_registered_agent_is_active() {
    let mut kernel = MCPKernel::new();
    let id = kernel.spawn_agent(config("helper", None, &["greet"])).unwrap();
    assert_eq!(kernel.recover(&id, None).unwrap(), AgentStatus::Active);
    assert_eq!(kernel.agent_count(), 1);
}

#[test]
fn recover_without_stored_agent_is_storage_error() {
    let mut kernel = MCPKernel::new();
    assert!(matches!(kernel.recover("agent_0000000000000000", None), Err(KernelError::StorageError(_))));
    assert_eq!(kernel.agent_count(), 0);
}

#[test]
fn recover_registers_stored_agent_as_recovered() {
    let mut kernel = MCPKernel::new();
    let stored = Agent::from_parts(
        "agent_0123456789abcdef".to_string(),
        config("helper", None, &["greet"]),
        AgentStatus::Active,
        Vec::new(),
        vec![("k".to_string(), JsonValue::Int(5))],
        11,
        12,
    );
    let r = kernel.recover("agent_0123456789abcdef", Some(stored)).unwrap();
    assert_eq!(r, AgentStatus::Recovered);
    let (status, _) = kernel.agent_summary("agent_0123456789abcdef").unwrap();
    assert_eq!(status, AgentStatus::Recovered);
    let blob = String::from_utf8(kernel.snapshot("agent_0123456789abcdef").unwrap()).unwrap();
    assert!(blob.contains("\"state\":{\"k\":5},\"created_at\":11"));
}

#[test]
fn agent_encoding_is_exact() {
    let agent = Agent::from_parts(
        "agent_x".to_string(),
        config("n", Some("e"), &["a", "b"]),
        AgentStatus::Paused,
        Vec::new(),
        Vec::new(),
        1,
        2,
    );
    assert_eq!(
        String::from_utf8(agent.encode()).unwrap(),
        "{\"id\":\"agent_x\",\"config\":{\"name\":\"n\",\"entry\":\"e\",\"intents\":[\"a\",\"b\"],\"hm\":{\"cpu\":1000,\"ram\":100},\"metadata\":{}},\"status\":\"Paused\",\"state\":{},\"created_at\":1,\"updated_at\":2}"
    );
}

#[test]
fn attaching_a_freshly_loaded_plugin_caches_it() {
    let mut kernel = MCPKernel::new();
    let id = kernel.spawn_agent(config("helper", Some("relay"), &["greet"])).unwrap();
    assert!(matches!(kernel.attach_new_plugin("agent_missing", plugin("relay", true)), Err(KernelError::AgentNotFound(_))));
    assert!(kernel.plugin_manager().get("relay").is_none());
    kernel.attach_new_plugin(&id, plugin("relay", true)).unwrap();
    assert!(kernel.plugin_manager().get("relay").is_some());
    let (_, plugins) = kernel.agent_summary(&id).unwrap();
    assert_eq!(plugins, vec!["relay".to_string()]);
    assert!(kernel.execute(&id, "greet").is_ok());
}

#[test]
fn snapshot_then_recover_on_fresh_kernel_keeps_agent() {
    let mut kernel = MCPKernel::new();
    let id = kernel.spawn_agent(config("keeper", None, &["greet"])).unwrap();
    let blob = kernel.snapshot(&id).unwrap();
    kernel.snapshot_saved(&id).unwrap();
    let text = String::from_utf8(blob).unwrap();
    assert!(text.starts_with(&format!("{{\"id\":\"{}\",\"config\":{{\"name\":\"keeper\"", id)));
    let mut fresh = MCPKernel::new();
    let stored = Agent::from_parts(id.clone(), config("keeper", None, &["greet"]), AgentStatus::Active, Vec::new(), Vec::new(), 5, 5);
    assert_eq!(fresh.recover(&id, Some(stored)).unwrap(), AgentStatus::Recovered);
    let again = String::from_utf8(fresh.snapshot(&id).unwrap()).unwrap();
    assert!(again.contains("\"config\":{\"name\":\"keeper\""));
    assert!(again.contains("\"status\":\"Recovered\""));
}

#[test]
fn state_writes_replace_by_key() {
    let mut agent = Agent::new_at("agent_s".to_string(), config("s", None, &[]), 1);
    agent.set_state_at("a", JsonValue::Int(1), 2);
    agent.set_state_at("b", JsonValue::Int(2), 3);
    agent.set_state_at("a", JsonValue::Int(3), 4);
    let keys: Vec<&str> = agent.state().iter().map(|(k, _)| k.as_str()).collect();
    assert_eq!(keys, vec!["b", "a"]);
    assert!(matches!(agent.state()[1].1, JsonValue::Int(3)));
    assert_eq!(agent.updated_at(), 4);
    assert_eq!(agent.created_at(), 1);
}

#[test]
fn agent_ids_list_every_agent() {
    let mut kernel = MCPKernel::new();
    let a = kernel.spawn_agent(config("one", None, &["greet"])).unwrap();
    let b = kernel.spawn_agent(config("two", None, &["greet"])).unwrap();
    let mut ids = kernel.agent_ids();
    ids.sort();
    let mut expected = vec![a, b];
    expected.sort();
    assert_eq!(ids, expected);
}

#[test]
fn traced_payloads_name_plugin_and_outcome() {
    let mut kernel = MCPKernel::new();
    let id = kernel.spawn_agent(config("helper", Some("echo"), &["greet"])).unwrap();
    kernel.register_plugin(plugin("echo", false));
    kernel.attach_plugin(&id, "echo").unwrap();
    let attach = kernel
        .tracer_ref()
        .traces()
        .iter()
        .filter(|t| t.agent_id == id)
        .flat_map(|t| t.entries.iter())
        .find(|e| e.event_type == "agent.attach_plugin")
        .unwrap();
    assert!(String::from_utf8(attach.data.encode()).unwrap().starts_with("{\"plugin_id\":\"echo\""));
    let exec = kernel.execute(&id, "greet").unwrap();
    let trace_id = exec.trace_id.clone();
    kernel.finish_execution(exec, Err("trap".to_string())).unwrap_err();
    let t = kernel.tracer_ref().traces().iter().find(|t| t.id == trace_id).unwrap();
    let end = String::from_utf8(t.entries.last().unwrap().data.encode()).unwrap();
    assert!(end.starts_with("{\"success\":false,\"duration_ms\":"));
    assert!(end.ends_with(",\"result\":{\"error\":\"trap\"}}"));
    let begin = String::from_utf8(t.entries[0].data.encode()).unwrap();
    assert!(begin.starts_with("{\"intent\":\"greet\",\"timestamp\":"));
}
