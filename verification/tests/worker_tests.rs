use sairgent_kernel::worker::allowed_dispatch_ids;
use sairgent_kernel::worker::{classify_stderr_line, StderrLine};
use sairgent_kernel::kernel::Secrets;
use sairgent_kernel::manifest::{AgentManifestV1, CapabilityGrant};
use sairgent_kernel::orchestrator::Orchestrator;
use sairgent_kernel::registry::AgentIdentity;
use sairgent_kernel::worker::{
    can_hire_flag, dispatch_verdict, final_run_status, finished_run_label, heartbeat_in_order,
    heartbeat_write_due, innovation_report_fits, innovation_review_payload, innovation_source,
    normalize_queued_managed_work, normalize_reported_managed_work, search_provider_status,
    sidechannel_gate, truncate_persona, worker_tool_list, DispatchVerdict, ManagedWorkRequest,
    SidechannelGate, SidechannelKind,
};
use sairgent_kernel::audit::TaintLabel;

fn agent() -> AgentIdentity {
    AgentIdentity {
        id: "agent-1".to_string(),
        name: "Felicity".to_string(),
        parent_id: Some("perry".to_string()),
        role: "CTO".to_string(),
        persona_prompt: "Build".to_string(),
        raison_detre: "Ship".to_string(),
        default_provider: "mock".to_string(),
        default_model: "mock".to_string(),
        cron_interval_seconds: Some(60),
        triage_model: None,
        execution_model: None,
    }
}

#[test]
fn sidechannel_messages_need_their_capability() {
    let least = AgentManifestV1::least_privilege_for_agent(&agent());
    let full = AgentManifestV1::default_for_agent(&agent());
    let dispatch = SidechannelKind::parse("dispatch_swo");
    match sidechannel_gate(&dispatch, &least, "execute_triage") {
        SidechannelGate::Deny { audit_event } => assert_eq!(audit_event, "capability_denied_dispatch_swo"),
        _ => panic!("dispatch must be denied without the grant"),
    }
    assert!(matches!(sidechannel_gate(&dispatch, &full, "execute_triage"), SidechannelGate::Process));
    let hire = SidechannelKind::parse("hire_subordinate");
    assert!(matches!(sidechannel_gate(&hire, &full, "execute_triage"), SidechannelGate::Process));
    assert!(matches!(sidechannel_gate(&hire, &full, "execute_ideation"), SidechannelGate::Deny { .. }));
    let shell = SidechannelKind::parse("shell_exec");
    match sidechannel_gate(&shell, &full, "execute_triage") {
        SidechannelGate::RecordToolExecution { audit_event } => {
            assert_eq!(audit_event, "capability_violation_reported_shell_exec")
        }
        _ => panic!("shell execution is only recorded"),
    }
    assert!(matches!(
        sidechannel_gate(&SidechannelKind::parse("heartbeat"), &least, "chat_mode"),
        SidechannelGate::Process
    ));
    assert!(matches!(
        sidechannel_gate(&SidechannelKind::parse("mystery"), &full, "chat_mode"),
        SidechannelGate::Unhandled
    ));
}

#[test]
fn heartbeats_keep_order_and_pace() {
    assert!(heartbeat_in_order(5, 4));
    assert!(!heartbeat_in_order(4, 4));
    assert!(heartbeat_write_due(2_000, 1_000));
    assert!(!heartbeat_write_due(1_999, 1_000));
}

#[test]
fn dispatches_go_only_to_listed_reports_within_size() {
    let allowed = vec!["sub-1".to_string()];
    assert!(matches!(dispatch_verdict("sub-2", &allowed, "x"), DispatchVerdict::Unauthorized));
    assert!(matches!(dispatch_verdict("sub-1", &allowed, "x"), DispatchVerdict::Accepted));
    let big = "y".repeat(8193);
    assert!(matches!(dispatch_verdict("sub-1", &allowed, &big), DispatchVerdict::TooLarge));
    assert!(matches!(dispatch_verdict("sub-1", &allowed, &big[..8192]), DispatchVerdict::Accepted));
}

#[test]
fn innovation_reports() {
    assert!(innovation_report_fits(&"a".repeat(4096)));
    assert!(!innovation_report_fits(&"a".repeat(4097)));
    assert_eq!(innovation_source("execute_ideation"), "HEARTBEAT");
    assert_eq!(innovation_source("execute_triage"), "HSM");
    let report: serde_json::Value = serde_json::from_str(r#"{"context": "ctx", "estimated_impact": "big"}"#).unwrap();
    assert_eq!(
        innovation_review_payload(&report),
        "Innovation review: Innovation Proposal\nContext: ctx\nProposed solution: \nEstimated impact: big"
    );
}

fn request(payload: &str, policy: &str, assignee: Option<&str>) -> ManagedWorkRequest {
    ManagedWorkRequest {
        payload: payload.to_string(),
        requested_assignee_agent_id: assignee.map(|a| a.to_string()),
        requested_assignee_name: None,
        routing_policy: policy.to_string(),
        user_visible_summary: None,
    }
}

#[test]
fn managed_work_requests_are_normalized() {
    assert!(normalize_queued_managed_work(request("   ", "NONE", None)).is_none());
    let r = normalize_queued_managed_work(request("  do it ", " hard_route ", Some("a1"))).unwrap();
    assert_eq!(r.payload, "do it");
    assert_eq!(r.routing_policy, "HARD_ROUTE");
    let r = normalize_queued_managed_work(request("x", "sideways", Some("a1"))).unwrap();
    assert_eq!(r.routing_policy, "NONE");
    let r = normalize_queued_managed_work(request("x", "PREFERENCE", None)).unwrap();
    assert_eq!(r.routing_policy, "NONE");
    let r = normalize_reported_managed_work(request(" y ", "whatever", None)).unwrap();
    assert_eq!((r.payload.as_str(), r.routing_policy.as_str()), ("y", "whatever"));
}

#[test]
fn run_outcomes() {
    assert_eq!(final_run_status(true, true), "FAILED");
    assert_eq!(final_run_status(false, true), "BLOCKED");
    assert_eq!(final_run_status(false, false), "COMPLETED");
    assert!(matches!(finished_run_label(true), TaintLabel::UntrustedModelOutput));
    assert!(matches!(finished_run_label(false), TaintLabel::TrustedSystem));
    let full = AgentManifestV1::default_for_agent(&agent());
    assert_eq!(can_hire_flag(&full, "execute_triage"), "1");
    assert_eq!(can_hire_flag(&full, "execute_ideation"), "0");
    assert_eq!(search_provider_status(Some("brave"), Some(" key ")), "configured");
    assert_eq!(search_provider_status(Some("brave"), Some("  ")), "missing_credential");
    assert_eq!(search_provider_status(Some("brave"), None), "missing_credential");
    assert_eq!(search_provider_status(None, Some("key")), "missing_binding");
    assert_eq!(truncate_persona(&"p".repeat(5000)).chars().count(), 4096);
    assert_eq!(truncate_persona("short"), "short");
}

#[test]
fn stdout_success_is_read_from_the_last_json_line() {
    assert!(Orchestrator::stdout_has_success_status("noise\n{\"status\": \"COMPLETED\"}\n"));
    assert!(!Orchestrator::stdout_has_success_status("{\"status\": \"COMPLETED\"}\n{\"status\": \"FAILED\"}\n"));
    assert!(Orchestrator::stdout_has_success_status("  {\"triage\": {}}  \n"));
    assert!(Orchestrator::stdout_has_success_status("{\n\"status\":\"BLOCKED\"\n}"));
    assert!(!Orchestrator::stdout_has_success_status("all went wrong"));
}

#[test]
fn llm_keys_resolve_by_normalized_provider() {
    let orchestrator = Orchestrator::new(
        "worker",
        Secrets {
            default_llm_api_key: "default".to_string(),
            llm_api_keys_by_provider: vec![("openai".to_string(), "sk-1".to_string())],
            tool_api_keys_by_slug: vec![],
            sidechannel_token: "tok".to_string(),
        },
        None,
    );
    assert_eq!(orchestrator.resolve_llm_api_key("  OpenAI "), "sk-1");
    assert_eq!(orchestrator.resolve_llm_api_key("anthropic"), "default");
}

#[test]
fn worker_tools_are_sorted_and_unique() {
    let mut manifest = AgentManifestV1::default_for_agent(&agent());
    manifest.capabilities.push(CapabilityGrant::WebSearch);
    let tools = worker_tool_list(&manifest, "execute_triage", true);
    let mut sorted = tools.clone();
    sorted.sort();
    sorted.dedup();
    assert_eq!(tools, sorted);
    assert!(tools.contains(&"web_search".to_string()));
    assert!(tools.contains(&"load_skill".to_string()));
    assert!(tools.contains(&"hire_subordinate_internal".to_string()));
    let none = worker_tool_list(&manifest, "format_swo", false);
    assert!(none.is_empty());
}

#[test]
fn stderr_lines_are_sorted_into_deltas_sidechannel_and_plain_output() {
    let delta = r#"{"__sairgent_delta": true, "message_id": "m1", "delta": "Hel", "agent_id": "a1"}"#;
    match classify_stderr_line(delta, "tok") {
        StderrLine::Delta { message_id, delta, is_final, agent_id } => {
            assert_eq!(message_id, "m1");
            assert_eq!(delta, "Hel");
            assert!(!is_final);
            assert_eq!(agent_id, Some("a1".to_string()));
        }
        _ => panic!("expected a delta"),
    }
    let hb = r#"{"__sairgent_sidechannel": "heartbeat", "token": "tok", "run_id": "r", "seq": 1, "status": "IDLE"}"#;
    match classify_stderr_line(hb, "tok") {
        StderrLine::Sidechannel { kind, message } => {
            assert!(matches!(kind, SidechannelKind::Heartbeat));
            assert_eq!(message["run_id"], "r");
        }
        _ => panic!("expected a side-channel message"),
    }
    assert!(matches!(classify_stderr_line(hb, "other"), StderrLine::Plain));
    let unknown = r#"{"__sairgent_sidechannel": "telepathy", "token": "tok"}"#;
    assert!(matches!(classify_stderr_line(unknown, "tok"), StderrLine::Plain));
    let no_token = r#"{"__sairgent_sidechannel": "shell_exec"}"#;
    assert!(matches!(
        classify_stderr_line(no_token, ""),
        StderrLine::Sidechannel { kind: SidechannelKind::ShellExec, .. }
    ));
    assert!(matches!(classify_stderr_line("Traceback (most recent call last):", "tok"), StderrLine::Plain));
    assert!(matches!(
        classify_stderr_line(r#"{"__sairgent_delta": false, "message_id": "m", "delta": "d"}"#, "tok"),
        StderrLine::Plain
    ));
}

#[test]
fn dispatch_whitelist_comes_from_subordinate_ids() {
    let ids = allowed_dispatch_ids(r#"[{"id":"a","name":"A"},{"name":"no id"},{"id":7},{"id":"b"}]"#);
    assert_eq!(ids, vec!["a".to_string(), "b".to_string()]);
    assert!(allowed_dispatch_ids("not json").is_empty());
    assert!(allowed_dispatch_ids(r#"{"id":"a"}"#).is_empty());
    assert!(allowed_dispatch_ids("[]").is_empty());
}
