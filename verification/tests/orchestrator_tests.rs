use sairgent_kernel::orchestrator::{classify_synthesis_action, Orchestrator};
use sairgent_kernel::registry::RecurringWorkOrderScheduleRecord;
use sairgent_kernel::sairgent::SairgentRuntimeSnapshot;
use sairgent_kernel::worker::{redact_run_token, redact_sidechannel_token};

#[test]
fn test_secret_redaction_in_status_events() {
    let sidechannel_token = "super_secret_sidechannel_token".to_string();
    let run_token = "mock_run_token_123".to_string();

    let stdout_line = format!(
        "Sending heartbeat with token: {} and data",
        sidechannel_token
    );
    let redacted_stdout = redact_sidechannel_token(&stdout_line, &sidechannel_token);
    assert!(!redacted_stdout.contains("super_secret"));
    assert!(redacted_stdout.contains("[REDACTED_SIDECHANNEL_TOKEN]"));

    let log_line = format!(
        "JSON from python: {{\"token\": \"{}\", \"status\": \"WORKING\"}}",
        run_token
    );
    let redacted_log = redact_run_token(&log_line, &run_token);
    assert!(!redacted_log.contains("mock_run_token"));
    assert!(redacted_log.contains("[REDACTED_RUN_TOKEN]"));
}

#[test]
fn test_worker_stall_reason_mentions_inactivity_not_wall_clock_timeout() {
    let message = Orchestrator::worker_stall_reason();
    assert!(message.contains("stopped heartbeating or emitting output"));
    assert!(message.contains("120 seconds"));
}

#[test]
fn compute_next_recurring_run_at_supports_daily_and_weekly_templates() {
    let daily = Orchestrator::compute_next_recurring_run_at(
        &RecurringWorkOrderScheduleRecord {
            cadence: "daily".to_string(),
            interval: 1,
            timezone: "UTC".to_string(),
            days_of_week: None,
            day_of_month: None,
            hour: Some(9),
            minute: Some(30),
            cron_expression: None,
        },
        1_710_000_000,
    )
    .unwrap();
    let weekly = Orchestrator::compute_next_recurring_run_at(
        &RecurringWorkOrderScheduleRecord {
            cadence: "weekly".to_string(),
            interval: 1,
            timezone: "UTC".to_string(),
            days_of_week: Some(vec![1]),
            day_of_month: None,
            hour: Some(14),
            minute: Some(0),
            cron_expression: None,
        },
        1_710_000_000,
    )
    .unwrap();

    assert!(daily.contains("09:30:00"));
    assert!(weekly.contains("14:00:00"));
    assert_eq!(daily.len(), 19);
    assert_eq!(weekly.len(), 19);
}

fn sample_snapshot() -> SairgentRuntimeSnapshot {
    SairgentRuntimeSnapshot {
        company_name: "Sairgent".to_string(),
        company_summary: Some("Event-driven operator console".to_string()),
        operating_principles: vec![],
        non_goals: vec![],
        active_projects: 3,
        paused_projects: 1,
        archived_projects: 0,
        open_swos: 7,
        approvals_waiting: 2,
        agent_count: 6,
        ready_agents: 4,
        degraded_agents: 1,
        highlights: vec!["Project proj-1 -> ACTIVE".to_string()],
        current_project: None,
        current_swo: None,
        default_provider: "openai".to_string(),
        default_model: "gpt-4.1-mini".to_string(),
    }
}

#[test]
fn infer_sairgent_tool_calls_creates_project_proposal() {
    let calls = Orchestrator::infer_sairgent_tool_calls(
        "Create project \"Operator UX Hardening\" for the desktop panel",
        &sample_snapshot(),
        [7; 16],
    );

    assert_eq!(calls.len(), 1);
    assert_eq!(calls[0].tool_name, "create_project");
    assert!(calls[0].arguments_json.contains("Operator UX Hardening"));
}

#[test]
fn compose_sairgent_reply_mentions_governed_actions() {
    let snapshot = sample_snapshot();
    let calls = Orchestrator::infer_sairgent_tool_calls(
        "Create work order \"Close PM workflow gaps\"",
        &snapshot,
        [7; 16],
    );
    let reply = Orchestrator::compose_sairgent_reply(&snapshot, 1, &calls);

    assert!(reply.contains("1 attachment"), "reply should mention attachment count: {}", reply);
    assert!(reply.contains("drafted an action"), "reply should mention drafted action: {}", reply);
}

#[test]
fn classify_new_three_way() {
    assert_eq!(classify_synthesis_action("ACCEPT_AND_COMPLETE"), "accept_complete");
    assert_eq!(classify_synthesis_action("ACCEPT_AND_CONTINUE"), "accept_continue");
    assert_eq!(classify_synthesis_action("REJECT_AND_REVISE"), "reject");
}

#[test]
fn classify_legacy_alias() {
    assert_eq!(classify_synthesis_action("APPROVE_AND_REPLY"), "accept_complete");
}

#[test]
fn classify_unknown_defaults_to_complete() {
    assert_eq!(classify_synthesis_action(""), "accept_complete");
    assert_eq!(classify_synthesis_action("BOGUS"), "accept_complete");
}
