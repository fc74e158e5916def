use sairgent_kernel::commands::{
    check_review_applicable, check_revision_request, inbox_card_summary, parse_project_create,
    parse_review_decision, review_response, validate_agent_id, validate_command_id,
    validate_work_order_submission, ReviewDecision,
};

#[test]
fn agent_ids_are_system_or_uuids() {
    assert!(validate_agent_id("SYSTEM").is_ok());
    assert!(validate_agent_id("67e55044-10b1-426f-9247-bb680e5fe0c8").is_ok());
    assert_eq!(
        validate_agent_id("../etc"),
        Err("agent_id must be SYSTEM or a valid UUID.".to_string())
    );
}

#[test]
fn command_ids_are_short_and_plain() {
    assert!(validate_command_id("cmd-1_A").is_ok());
    assert_eq!(validate_command_id(""), Err("commandId '' is invalid".to_string()));
    assert_eq!(validate_command_id("a b"), Err("commandId 'a b' is invalid".to_string()));
    assert!(validate_command_id(&"a".repeat(128)).is_ok());
    assert!(validate_command_id(&"a".repeat(129)).is_err());
}

#[test]
fn work_order_submissions_are_checked_and_trimmed() {
    assert_eq!(
        validate_work_order_submission("  ", "x", None, "", None).err(),
        Some("Title and requested outcome are required.".to_string())
    );
    let w = validate_work_order_submission(" T ", " O ", Some("  "), " urgent ", Some(" p1 ")).unwrap();
    assert_eq!(w.title, "T");
    assert_eq!(w.outcome, "O");
    assert_eq!(w.constraints, None);
    assert_eq!(w.priority_class, "URGENT");
    assert_eq!(w.project_id, Some("p1".to_string()));
    let w = validate_work_order_submission("T", "O", Some(" c "), "   ", None).unwrap();
    assert_eq!(w.priority_class, "CORE");
    assert_eq!(w.constraints, Some("c".to_string()));
}

#[test]
fn review_decisions() {
    let d = parse_review_decision(" Approve ", "c1", "r1", "ui").unwrap();
    assert!(matches!(d, ReviewDecision::Approve));
    assert_eq!((d.review_action(), d.next_status()), ("APPROVE_AND_REPLY", "COMPLETED"));
    let d = parse_review_decision("revise", "c1", "r1", "ui").unwrap();
    assert_eq!((d.review_action(), d.next_status()), ("REJECTED_ROUTE_CONTRACT", "FAILED"));
    assert_eq!(
        parse_review_decision("maybe", "c1", "r1", "ui").err(),
        Some("Decision must be approve, reject, or revise.".to_string())
    );
    assert_eq!(
        parse_review_decision("reject", " ", "r1", "ui").err(),
        Some("Command metadata requires commandId, correlationId, and source.".to_string())
    );
    assert_eq!(
        check_review_applicable(7, "COMPLETED", "why"),
        Err("SWO 7 is already terminal with status COMPLETED.".to_string())
    );
    assert_eq!(
        check_review_applicable(7, "IN_PROGRESS", "  "),
        Err("Review reasoning is required.".to_string())
    );
    assert_eq!(check_review_applicable(7, "IN_PROGRESS", " why "), Ok("why".to_string()));
}

#[test]
fn revision_requests() {
    assert_eq!(
        check_revision_request(3, "COMPLETED", " "),
        Err("Revision feedback is required.".to_string())
    );
    assert_eq!(
        check_revision_request(3, "FAILED", "more"),
        Err("SWO 3 must be COMPLETED to request a revision (current status: FAILED).".to_string())
    );
    assert_eq!(check_revision_request(3, "COMPLETED", " more "), Ok("more".to_string()));
}

#[test]
fn inbox_summaries_are_cut_at_497_bytes() {
    assert_eq!(inbox_card_summary("short"), "short");
    let long = "z".repeat(600);
    let s = inbox_card_summary(&long);
    assert_eq!(s.len(), 500);
    assert!(s.ends_with("..."));
    let exactly = "q".repeat(500);
    assert_eq!(inbox_card_summary(&exactly), exactly);
}

#[test]
fn review_responses_prefer_reviews_then_results() {
    let reviews = vec![Some("first".to_string()), Some("  ".to_string()), None];
    assert_eq!(review_response(&reviews, None), Some("first".to_string()));
    assert_eq!(
        review_response(&vec![], Some(r#"{"synthesis": {"final_response": "synth"}, "reply": "r"}"#)),
        Some("synth".to_string())
    );
    assert_eq!(
        review_response(&vec![], Some(r#"{"triage": {"action": "DELEGATE", "reasoning": " busy "}}"#)),
        Some("_Agent decided: **DELEGATE**_\n\n**Reasoning:** busy".to_string())
    );
    assert_eq!(review_response(&vec![], Some("not json")), None);
    assert_eq!(review_response(&vec![None], None), None);
}

#[test]
fn project_create_payloads() {
    let payload: serde_json::Value = serde_json::from_str(
        r#"{"name": "Atlas", "leadAgentId": "a1", "tags": ["x", 3, "y"]}"#,
    )
    .unwrap();
    let c = parse_project_create(&payload).unwrap();
    assert_eq!(c.name, "Atlas");
    assert_eq!(c.owner, "a1");
    assert_eq!(c.priority, "NORMAL");
    assert_eq!(c.tags, vec!["x".to_string(), "y".to_string()]);
    assert_eq!(c.summary, None);
    let missing: serde_json::Value = serde_json::from_str(r#"{"owner": "a"}"#).unwrap();
    assert_eq!(parse_project_create(&missing).err(), Some("Missing name".to_string()));
    let bad_owner: serde_json::Value = serde_json::from_str(r#"{"name": "n", "owner": 5, "leadAgentId": "a"}"#).unwrap();
    assert_eq!(
        parse_project_create(&bad_owner).err(),
        Some("Missing owner or leadAgentId".to_string())
    );
}
