use mcp_zero::duration::format_duration;
use mcp_zero::alert::{Alert, AlertLevel, AlertManager, FileAlertHandler};
use mcp_zero::config::KernelConfig;
use mcp_zero::json::JsonValue;
use mcp_zero::plugin::{artifact_name, manifest_name, memory_range, result_or_default, PluginManager, Plugin};
use mcp_zero::resource::ResourceType;
use mcp_zero::storage::StorageManager;

#[test]
fn alert_line_and_level_filter() {
    let alert = Alert::new_at(AlertLevel::Warning, ResourceType::CPU, "cpu high", 2450, 2400, 0);
    assert_eq!(alert.file_line("1970-01-01T00:00:00+00:00"), "1970-01-01T00:00:00+00:00 [WARNING] cpu high\n");
    let m = AlertManager::new(AlertLevel::Critical);
    assert!(!m.should_emit(&alert));
    assert!(AlertLevel::Fatal.meets(AlertLevel::Critical));
    assert!(!AlertLevel::Info.meets(AlertLevel::Warning));
    assert_eq!(FileAlertHandler::new("mcp-hm.log").path(), "mcp-hm.log");
}

#[test]
fn host_call_ranges() {
    assert_eq!(memory_range(10, 5, 15), Some((10, 15)));
    assert_eq!(memory_range(10, 6, 15), None);
    assert_eq!(memory_range(u32::MAX, u32::MAX, 100), None);
}

#[test]
fn default_plugin_result() {
    let v = result_or_default(None);
    assert_eq!(String::from_utf8(v.encode()).unwrap(), "{\"status\":\"executed\",\"result\":null}");
    let v = result_or_default(Some(JsonValue::Int(3)));
    assert_eq!(String::from_utf8(v.encode()).unwrap(), "3");
}

#[test]
fn plugin_files_and_cache() {
    assert_eq!(artifact_name("echo"), "echo.wasm");
    assert_eq!(manifest_name("echo"), "echo.cap.yaml");
    let mut m = PluginManager::new("./plugins".to_string());
    assert!(m.get("echo").is_none());
    m.cache(Plugin::placeholder("echo"));
    assert!(m.get("echo").is_some());
    assert!(!m.get("echo").unwrap().is_loaded());
}

#[test]
fn storage_layout() {
    let s = StorageManager::new("./storage");
    assert_eq!(s.agent_file("agent_1"), "./storage/agent_1/agent.json");
}

#[test]
fn kernel_config_defaults() {
    let c = KernelConfig::default();
    assert_eq!(c.max_agents, 100);
    assert_eq!(c.max_plugins_per_agent, 10);
    assert_eq!(c.hardware.max_memory, 800);
}

#[test]
fn durations_are_formatted() {
    assert_eq!(format_duration(0), "0s");
    assert_eq!(format_duration(59), "59s");
    assert_eq!(format_duration(61), "1m 1s");
    assert_eq!(format_duration(3600), "1h 0m 0s");
    assert_eq!(format_duration(3725), "1h 2m 5s");
}
