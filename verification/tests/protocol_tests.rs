use sairgent_kernel::protocol::{normalize_worker_output, WORKER_PROTOCOL_V1};
use serde_json::Value;

fn parse(text: &str) -> Value {
    serde_json::from_str(text).unwrap()
}

#[test]
fn normalize_legacy_worker_output_adds_protocol_metadata() {
    let normalized = normalize_worker_output(
        "execute_triage",
        "agent-1",
        parse(r#"{"triage": {"action": "ANSWER_DIRECTLY", "reasoning": "done", "direct_answer": "answer"}}"#),
    );

    assert_eq!(normalized["protocol_version"], Value::String(WORKER_PROTOCOL_V1.to_string()));
    assert_eq!(normalized["mode"], Value::String("execute_triage".to_string()));
    assert_eq!(normalized["agent_id"], Value::String("agent-1".to_string()));
    assert_eq!(normalized["status"], Value::String("COMPLETED".to_string()));
    assert_eq!(normalized["artifacts"], parse("[]"));
}

#[test]
fn normalize_error_payload_marks_worker_run_failed() {
    let normalized = normalize_worker_output("chat_mode", "agent-2", parse(r#"{"error": "boom"}"#));

    assert_eq!(normalized["status"], Value::String("FAILED".to_string()));
    assert_eq!(normalized["error"], Value::String("boom".to_string()));
}

#[test]
fn normalizing_twice_changes_nothing() {
    for text in [
        r#"{"error": "boom"}"#,
        r#"{"status": "BLOCKED", "blocked_reason": "waiting"}"#,
        r#"[1, 2]"#,
        r#"{"triage": {"action": "DELEGATE"}}"#,
    ] {
        let once = normalize_worker_output("execute_triage", "agent-1", parse(text));
        let twice = normalize_worker_output("execute_triage", "agent-1", once.clone());
        assert_eq!(once, twice);
    }
}

#[test]
fn non_object_output_becomes_failed_report() {
    let normalized = normalize_worker_output("chat_mode", "agent-3", parse("\"hello\""));
    assert_eq!(normalized["status"], Value::String("FAILED".to_string()));
    assert_eq!(
        normalized["error"],
        Value::String("Worker returned non-object JSON".to_string())
    );
    assert_eq!(
        normalized["side_effects"],
        parse(r#"{"managed_work_count":0,"artifact_count":0,"innovation_count":0,"hire_request_count":0,"dispatch_count":0}"#)
    );
}

#[test]
fn blocked_error_keeps_its_status() {
    let normalized = normalize_worker_output(
        "execute_triage",
        "agent-1",
        parse(r#"{"error": "x", "blocked_reason": "y", "status": "BLOCKED"}"#),
    );
    assert_eq!(normalized["status"], Value::String("BLOCKED".to_string()));
}
