use sairgent_kernel::chat::merge_tool_proposals;
use sairgent_kernel::chat::use_rule_based_chat;
use sairgent_kernel::manifest::ProviderProtocolFamily;
use sairgent_kernel::orchestrator::{Orchestrator, SairgentToolProposal};
use sairgent_kernel::sairgent::SairgentRuntimeSnapshot;
use serde_json::Value;

fn parse(text: &str) -> Value {
    serde_json::from_str(text).unwrap()
}

fn snapshot() -> SairgentRuntimeSnapshot {
    SairgentRuntimeSnapshot {
        company_name: "Sairgent".to_string(),
        company_summary: None,
        operating_principles: vec![],
        non_goals: vec![],
        active_projects: 0,
        paused_projects: 0,
        archived_projects: 0,
        open_swos: 0,
        approvals_waiting: 0,
        agent_count: 1,
        ready_agents: 1,
        degraded_agents: 0,
        highlights: vec![],
        current_project: None,
        current_swo: None,
        default_provider: "openai".to_string(),
        default_model: "gpt".to_string(),
    }
}

fn proposal(tool: &str) -> SairgentToolProposal {
    SairgentToolProposal {
        call_id: "id".to_string(),
        tool_name: tool.to_string(),
        summary: String::new(),
        arguments_json: "{}".to_string(),
        requires_confirmation: true,
    }
}

#[test]
fn json_replies_render_as_text() {
    let text = Orchestrator::render_json_reply_as_text(
        r#"{"title": "Plan", "score_card": {"b_value": 2, "a_note": "ok"}, "next_steps": ["one", 2], "empty": [], "blank": ""}"#,
    )
    .unwrap();
    assert_eq!(
        text,
        "**title:** Plan\n**score card:**\n- a note: ok\n- b value: 2\n**next steps:**\n- one\n- 2"
    );
    assert_eq!(Orchestrator::render_json_reply_as_text("not json"), None);
    assert_eq!(Orchestrator::render_json_reply_as_text("[1, 2]"), None);
    assert_eq!(Orchestrator::render_json_reply_as_text(r#"{"blank": "", "flag": true}"#), None);
    assert_eq!(
        Orchestrator::render_json_reply_as_text(r#"{"count": 7}"#),
        Some("**count:** 7".to_string())
    );
}

#[test]
fn trailing_json_artifacts_are_stripped() {
    assert_eq!(
        Orchestrator::strip_trailing_json_artifacts("Done.\n- {\"change\":\"moved\"}\n{\"x\":1}"),
        "Done."
    );
    assert_eq!(
        Orchestrator::strip_trailing_json_artifacts("{\"a\":1}\nkept\n- - {\"b\":2}\r\n"),
        "{\"a\":1}\nkept"
    );
    assert_eq!(Orchestrator::strip_trailing_json_artifacts("{\"only\":1}"), "{\"only\":1}");
    assert_eq!(Orchestrator::strip_trailing_json_artifacts("plain"), "plain");
}

#[test]
fn chat_reply_comes_from_the_first_place_that_has_one() {
    assert_eq!(Orchestrator::extract_chat_reply(&parse(r#"{"reply": "hello"}"#)), "hello");
    assert_eq!(
        Orchestrator::extract_chat_reply(&parse(r#"{"reply": "", "synthesis": {"final_response": "done"}}"#)),
        "done"
    );
    assert_eq!(
        Orchestrator::extract_chat_reply(&parse(r#"{"blocked_reason": "waiting"}"#)),
        "waiting"
    );
    assert_eq!(
        Orchestrator::extract_chat_reply(&parse(r#"{"status": "COMPLETED"}"#)),
        "I processed your request."
    );
    assert_eq!(Orchestrator::cook_chat_reply("  {\"summary\": \"ok\"}"), "**summary:** ok");
    assert_eq!(Orchestrator::cook_chat_reply("fine\n{\"x\":1}"), "fine");
}

#[test]
fn proposals_merge_by_tool_name() {
    let merged = merge_tool_proposals(
        vec![proposal("create_project")],
        vec![proposal("create_project"), proposal("create_agent"), proposal("create_agent")],
    );
    let names: Vec<&str> = merged.iter().map(|p| p.tool_name.as_str()).collect();
    assert_eq!(names, vec!["create_project", "create_agent"]);
}

#[test]
fn rule_based_chat_without_key_or_local_provider() {
    assert!(use_rule_based_chat("  ", &ProviderProtocolFamily::OpenAiCompatible));
    assert!(!use_rule_based_chat("sk-1", &ProviderProtocolFamily::OpenAiCompatible));
    assert!(!use_rule_based_chat("", &ProviderProtocolFamily::OauthCodexStyle));
    let result = Orchestrator::rule_based_chat("Create project \"Atlas\"", &snapshot(), 0, [0; 16]);
    assert_eq!(result.tool_calls.len(), 1);
    assert_eq!(result.tool_calls[0].tool_name, "create_project");
    assert!(result.reply.contains("drafted an action"));
}

#[test]
fn finished_chat_keeps_worker_proposals_first() {
    let result = Orchestrator::finish_sairgent_chat(
        "Create project \"Atlas\"",
        &snapshot(),
        &parse(r#"{"reply": "Sure.\n{\"tool\":1}"}"#),
        vec![proposal("create_work_order")],
        [1; 16],
        [2; 16],
    );
    assert_eq!(result.reply, "Sure.");
    let names: Vec<&str> = result.tool_calls.iter().map(|p| p.tool_name.as_str()).collect();
    assert_eq!(names, vec!["create_work_order", "create_project"]);
}

#[test]
fn finished_work_order_messages() {
    assert_eq!(
        Orchestrator::final_reply_text(&parse(r#"{"synthesis": {"final_response": "all done"}}"#)),
        "all done"
    );
    assert_eq!(
        Orchestrator::final_reply_text(&parse(r#"{"terminal_status": "CLOSED_FAILED", "reason": "no", "review_failure_count": 3}"#)),
        "Closed failed after 3 review-gate attempts. no"
    );
    assert_eq!(
        Orchestrator::final_reply_text(&parse(r#"{"terminal_status": "CLOSED_FAILED"}"#)),
        "Closed failed after 0 review-gate attempts. No reason supplied."
    );
    assert_eq!(Orchestrator::final_reply_text(&parse(r#"{"x":1}"#)), "{\"x\":1}");
}

#[test]
fn formatter_results() {
    assert_eq!(
        Orchestrator::formatted_swo_from(&parse(r#"{"formatted_swo": "  Do X  "}"#)),
        Ok("Do X".to_string())
    );
    assert!(Orchestrator::formatted_swo_from(&parse(r#"{"formatted_swo": "   "}"#)).is_err());
    let payload = Orchestrator::formatter_payload("t1", "Cat", "CMO", "hi", "not json");
    assert_eq!(
        payload,
        parse(r#"{"target_subordinate": {"id": "t1", "name": "Cat", "role": "CMO"}, "user_message": "hi", "recent_context": []}"#)
    );
}

#[test]
fn chat_acknowledgements_replace_the_reply() {
    let result = parse(r#"{"reply": "orig"}"#);
    let acks = vec!["a".to_string(), "b".to_string()];
    let updated = Orchestrator::chat_result_with_acks(result.clone(), &acks);
    assert_eq!(updated["queued_work_count"], parse("2"));
    assert_eq!(updated["reply"], Value::String("a\n\nb".to_string()));
    assert_eq!(Orchestrator::chat_result_with_acks(result.clone(), &vec![]), result);
    let from_null = Orchestrator::chat_result_with_acks(Value::Null, &vec!["c".to_string()]);
    assert_eq!(from_null, parse(r#"{"queued_work_count": 1, "reply": "c"}"#));
}
