use mcp_zero::agent::{AgentConfig, HardwareConstraints};
use mcp_zero::ethical::{lower_names_harm, prohibited_action, prohibited_term, Decision, EthicalBinaryTree};
use mcp_zero::json::JsonValue;
use mcp_zero::plugin::{Plugin, PluginCapabilities, PluginMetadata};

fn object(members: Vec<(&str, JsonValue)>) -> JsonValue {
    JsonValue::Object(members.into_iter().map(|(k, v)| (k.to_string(), v)).collect())
}

#[test]
fn test_ethical_tree() {
    let tree = EthicalBinaryTree::new();

    let allow_result = tree.evaluate("test", &object(vec![("action", JsonValue::Str("benign".to_string()))]));
    assert_eq!(allow_result, Decision::Allow);

    let config = AgentConfig {
        name: "test_agent".to_string(),
        entry: None,
        intents: vec!["greet".to_string()],
        hm: Default::default(),
        metadata: Default::default(),
    };

    assert!(tree.validate_spawn(&config).is_ok());

    let malicious_config = AgentConfig {
        name: "malware_agent".to_string(),
        entry: None,
        intents: vec!["harm".to_string()],
        hm: Default::default(),
        metadata: Default::default(),
    };

    assert!(tree.validate_spawn(&malicious_config).is_err());
}

#[test]
fn prohibited_names_ignore_case() {
    let tree = EthicalBinaryTree::new();
    let config = AgentConfig {
        name: "SuperHACKer".to_string(),
        entry: None,
        intents: vec![],
        hm: HardwareConstraints::default(),
        metadata: Vec::new(),
    };
    assert!(tree.validate_spawn(&config).is_err());
}

#[test]
fn harmful_intents_pass_default_tree() {
    let tree = EthicalBinaryTree::new();
    let data = object(vec![("intents", JsonValue::Array(vec![JsonValue::Str("Attack".to_string())]))]);
    assert_eq!(tree.evaluate("agent_spawn", &data), Decision::Allow);
}

#[test]
fn grafted_leaf_decides() {
    let mut tree = EthicalBinaryTree::new();
    tree.add_rule("root", "custom", "custom", Some(Decision::Deny)).unwrap();
    assert_eq!(tree.evaluate("test", &JsonValue::Null), Decision::Deny);
    assert!(tree.add_rule("missing", "x", "x", None).is_err());
}

#[test]
fn grafted_rule_without_children_allows_on_false() {
    let mut tree = EthicalBinaryTree::new();
    tree.add_rule("root", "custom", "unknown_rule", None).unwrap();
    assert_eq!(tree.evaluate("test", &JsonValue::Null), Decision::Allow);
}

#[test]
fn grafting_under_a_grafted_node_extends_the_path() {
    let mut tree = EthicalBinaryTree::new();
    tree.add_rule("root", "a", "unknown_rule", None).unwrap();
    tree.add_rule("a", "b", "b", Some(Decision::Deny)).unwrap();
    assert_eq!(tree.evaluate("test", &JsonValue::Null), Decision::Deny);
}

#[test]
fn execution_filter() {
    let tree = EthicalBinaryTree::new();
    assert!(tree.validate_execution("agent_a", "DELETE_ALL_files").is_err());
    assert!(tree.validate_execution("agent_a", "reformat").is_err());
    assert!(tree.validate_execution("agent_a", "greet").is_ok());
    assert!(tree.validate_recovery("agent_a").is_ok());
}

#[test]
fn plugins_pass_default_tree() {
    let tree = EthicalBinaryTree::new();
    let mut caps = PluginCapabilities::default();
    caps.external_access = true;
    let p = Plugin::new("net".to_string(), caps, PluginMetadata::default());
    assert!(tree.validate_plugin(&p).is_ok());
}

#[test]
fn checks_on_lower_case_text() {
    assert_eq!(prohibited_term("superhacker"), Some("hack"));
    assert_eq!(prohibited_term("virus_exploit"), Some("exploit"));
    assert_eq!(prohibited_term("helper"), None);
    assert_eq!(prohibited_term("HACK"), None);
    assert_eq!(prohibited_action("wipe_and_format"), Some("format"));
    assert_eq!(prohibited_action("greet"), None);
    assert!(lower_names_harm("do_no_harm"));
    assert!(!lower_names_harm("ATTACK"));
}
