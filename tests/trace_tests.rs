use mcp_zero::json::JsonValue;
use mcp_zero::trace::{PoseidonTracer, TraceStatus};

fn object(members: Vec<(&str, JsonValue)>) -> JsonValue {
    JsonValue::Object(members.into_iter().map(|(k, v)| (k.to_string(), v)).collect())
}

fn text(s: &str) -> JsonValue {
    JsonValue::Str(s.to_string())
}

#[test]
fn test_trace_lifecycle() {
    let mut tracer = PoseidonTracer::new();
    let agent_id = "test_agent".to_string();

    let trace_id = tracer.begin_trace(&agent_id, "test_intent").unwrap();

    tracer
        .record_event(&agent_id, "test_event", object(vec![("data", text("test"))]))
        .unwrap();

    tracer
        .end_trace(&trace_id, true, Some(object(vec![("result", text("success"))])))
        .unwrap();

    let proof = tracer.export_zk_proof(&trace_id).unwrap();
    assert_eq!(proof.trace_id, trace_id);
    assert_eq!(proof.agent_id, agent_id);
    assert_eq!(proof.entries, 3);
}

#[test]
fn proof_counts_begin_two_events_and_end() {
    let mut tracer = PoseidonTracer::new();
    let id = tracer.begin_trace_at("agent_x", "work", 100).unwrap();
    tracer.record_event_at("agent_x", "step.one", object(vec![("n", JsonValue::Int(1))]), 101).unwrap();
    tracer.record_event_at("agent_x", "step.two", object(vec![("n", JsonValue::Int(2))]), 102).unwrap();
    tracer.end_trace_at(&id, true, None, 103).unwrap();
    let proof = tracer.export_zk_proof_at(&id, 104).unwrap();
    assert_eq!(proof.entries, 4);
    let entries = &tracer.traces()[0].entries;
    assert_eq!(entries.len(), 4);
    assert_eq!(proof.root_hash, entries[3].hash);
    assert_eq!(entries[3].event_type, "trace.end");
    assert_eq!(proof.timestamp, 104);
    assert_eq!(tracer.traces()[0].status, TraceStatus::Completed);
}

#[test]
fn trace_id_and_first_hash_come_from_sha3() {
    let mut tracer = PoseidonTracer::new();
    let id = tracer.begin_trace_at("test_agent", "test_intent", 0).unwrap();
    assert_eq!(id, "trace_1c847c74d6acc951");
    let first = &tracer.traces()[0].entries[0];
    assert_eq!(first.hash, "1c847c74d6acc95199794e0c33143e7a0a5e4317f8cbfd78fdcd62b2df3c7631");
    assert_eq!(first.event_type, "trace.begin");
    assert!(first.prev_hash.is_none());
}

#[test]
fn event_hash_chains_on_previous_hash() {
    let mut tracer = PoseidonTracer::new();
    tracer.begin_trace_at("test_agent", "test_intent", 0).unwrap();
    tracer
        .record_event_at("test_agent", "test_event", object(vec![("data", text("test"))]), 5)
        .unwrap();
    let entries = &tracer.traces()[0].entries;
    assert_eq!(entries[1].prev_hash.as_deref(), Some(entries[0].hash.as_str()));
    assert_eq!(entries[1].hash, "71919732e7dd5f9a9649d23b8a48d3caf80b9fa6b81382780fab81c5886cb3fc");
}

#[test]
fn event_without_active_trace_begins_a_general_one() {
    let mut tracer = PoseidonTracer::new();
    tracer.record_event_at("solo", "ping", JsonValue::Null, 7).unwrap();
    let t = &tracer.traces()[0];
    assert_eq!(t.intent, "general");
    assert_eq!(t.entries.len(), 2);
    assert_eq!(t.status, TraceStatus::Active);
}

#[test]
fn ending_unknown_or_ended_trace_fails() {
    let mut tracer = PoseidonTracer::new();
    assert!(tracer.end_trace_at("trace_missing", true, None, 1).is_err());
    let id = tracer.begin_trace_at("a", "i", 1).unwrap();
    tracer.end_trace_at(&id, false, None, 2).unwrap();
    assert_eq!(tracer.traces()[0].status, TraceStatus::Failed);
    assert!(tracer.end_trace_at(&id, true, None, 3).is_err());
    assert_eq!(tracer.traces()[0].entries.len(), 2);
}

#[test]
fn export_of_unknown_trace_fails() {
    let tracer = PoseidonTracer::new();
    assert!(tracer.export_zk_proof_at("trace_none", 1).is_err());
}

#[test]
fn end_entry_records_duration_in_ms() {
    let mut tracer = PoseidonTracer::new();
    let id = tracer.begin_trace_at("a", "i", 10).unwrap();
    tracer.end_trace_at(&id, true, None, 13).unwrap();
    let end = &tracer.traces()[0].entries[1];
    assert_eq!(
        String::from_utf8(end.data.encode()).unwrap(),
        "{\"success\":true,\"duration_ms\":3000}"
    );
}
