use sairgent_kernel::hsm::{fit_reason, manager_rejection, revision_dispatches_of, RejectionCause};
use sairgent_kernel::hsm::{
    synthesis_loop_start_state, synthesis_loop_step, SynthesisAction, SynthesisEvent, SynthesisLoopState,
    SynthesisPhase,
};
use sairgent_kernel::hsm::{
    child_title, children_review_kind, delegation_loops, hard_route_outcome, rank_qualified_candidates,
    resolve_delegation_target, resolve_work_order_parties, review_reasoning, revision_step,
    self_execution_decision, synthesis_step, triage_action, triage_mode, triage_outcome,
    DelegationDecision, HardRouteOutcome, RevisionStep, SubordinateRef, SynthesisStep, TriageOutcome,
};
use sairgent_kernel::orchestrator::Orchestrator;
use serde_json::Value;

fn parse(text: &str) -> Value {
    serde_json::from_str(text).unwrap()
}

#[test]
fn reportable_results_follow_the_review_gate() {
    assert!(Orchestrator::result_is_reportable_upward(&parse(r#"{"terminal_status": "CLOSED_FAILED"}"#)));
    assert!(Orchestrator::result_is_reportable_upward(&parse(r#"{"synthesis": {"action": "ACCEPT_AND_COMPLETE"}}"#)));
    assert!(!Orchestrator::result_is_reportable_upward(&parse(r#"{"synthesis": {"action": "REJECT_AND_REVISE"}}"#)));
    assert!(Orchestrator::result_is_reportable_upward(&parse(r#"{"triage": {"action": "ANSWER_DIRECTLY"}}"#)));
    assert!(!Orchestrator::result_is_reportable_upward(&parse(r#"{"triage": {"action": "DELEGATE"}}"#)));
    assert!(Orchestrator::result_is_reportable_upward(&parse(r#"{"reply": "hi"}"#)));
    assert!(Orchestrator::result_is_reportable_upward(&parse(r#"{"formatted_swo": "do it"}"#)));
    assert!(!Orchestrator::result_is_reportable_upward(&parse(r#"{"status": "COMPLETED"}"#)));
}

#[test]
fn review_gate_reasons_name_the_blocking_verdict() {
    assert_eq!(
        Orchestrator::result_review_gate_reason(&parse(r#"{"synthesis": {"action": "REJECT_AND_REVISE", "reasoning": "thin"}}"#)),
        "Synthesis returned REJECT_AND_REVISE: thin"
    );
    assert_eq!(
        Orchestrator::result_review_gate_reason(&parse(r#"{"synthesis": {"action": "REJECT_AND_REVISE"}}"#)),
        "Synthesis returned REJECT_AND_REVISE: no reasoning supplied"
    );
    assert_eq!(
        Orchestrator::result_review_gate_reason(&parse(r#"{"triage": {"action": "EXCEPTION"}}"#)),
        "Triage returned unsupported terminal action EXCEPTION"
    );
    assert_eq!(
        Orchestrator::result_review_gate_reason(&parse(r#"{"triage": {"action": "DELEGATE"}}"#)),
        "Result was not upward-reportable."
    );
}

#[test]
fn closed_failed_payload_is_reportable() {
    let payload = Orchestrator::closed_failed_payload("out of retries", 3);
    assert_eq!(payload, parse(r#"{"terminal_status": "CLOSED_FAILED", "reason": "out of retries", "review_failure_count": 3}"#));
    assert!(Orchestrator::result_is_reportable_upward(&payload));
}

#[test]
fn triage_action_defaults_to_direct_answer() {
    assert_eq!(triage_action(&parse(r#"{"triage": {"action": "DELEGATE"}}"#)), "DELEGATE");
    assert_eq!(triage_action(&parse(r#"{"reply": "x"}"#)), "ANSWER_DIRECTLY");
}

#[test]
fn triage_outcomes_enforce_routing_and_delegation_policy() {
    assert!(matches!(
        triage_outcome("DELEGATE", false, "NONE", false, true, true, None),
        TriageOutcome::ProceedToDelegation
    ));
    assert!(matches!(
        triage_outcome("ANSWER_DIRECTLY", false, "NONE", false, false, false, None),
        TriageOutcome::MissingDirectAnswer
    ));
    assert!(matches!(
        triage_outcome("ANSWER_DIRECTLY", true, "HARD_ROUTE", true, false, false, None),
        TriageOutcome::HardRouteAnsweredDirectly
    ));
    assert!(matches!(
        triage_outcome("ANSWER_DIRECTLY", true, "NONE", false, true, true, None),
        TriageOutcome::ManagerPolicyViolation
    ));
    assert!(matches!(
        triage_outcome("ANSWER_DIRECTLY", true, "NONE", false, true, true, Some("URGENT_DIRECT_RESPONSE")),
        TriageOutcome::AnswerDirectly
    ));
    assert!(matches!(
        triage_outcome("ANSWER_DIRECTLY", true, "NONE", false, true, true, Some("MADE_UP")),
        TriageOutcome::ManagerPolicyViolation
    ));
    assert!(matches!(
        triage_outcome("ANSWER_DIRECTLY", true, "PREFERENCE", true, true, false, None),
        TriageOutcome::AnswerDirectly
    ));
}

#[test]
fn self_execution_decisions() {
    let none: Vec<String> = vec![];
    let strategic = vec!["quarterly".to_string(), "strategy".to_string()];
    assert_eq!(self_execution_decision(true, &none, None).as_str(), "SELF_EXECUTE");
    assert_eq!(self_execution_decision(false, &strategic, None).as_str(), "SELF_EXECUTE");
    assert_eq!(
        self_execution_decision(false, &none, Some("TEAM_GAP_PENDING_HIRE")).as_str(),
        "HIRE_THEN_DELEGATE"
    );
    assert_eq!(self_execution_decision(false, &none, None).as_str(), "ESCALATE_TEAM_GAP");
    assert_eq!(DelegationDecision::Delegate.as_str(), "DELEGATE");
}

#[test]
fn hard_routes_require_the_named_report() {
    let delegated = vec!["a".to_string(), "b".to_string()];
    assert!(matches!(hard_route_outcome("HARD_ROUTE", Some("b"), &delegated, false), HardRouteOutcome::Satisfied));
    assert!(matches!(hard_route_outcome("HARD_ROUTE", Some("c"), &delegated, false), HardRouteOutcome::Violation));
    assert!(matches!(hard_route_outcome("HARD_ROUTE", Some("c"), &delegated, true), HardRouteOutcome::Excepted));
    assert!(matches!(hard_route_outcome("PREFERENCE", Some("c"), &delegated, false), HardRouteOutcome::Satisfied));
    assert!(matches!(hard_route_outcome("HARD_ROUTE", None, &delegated, false), HardRouteOutcome::Satisfied));
}

#[test]
fn delegation_loops_are_caught() {
    let lineage = vec!["root".to_string(), "mid".to_string()];
    assert!(delegation_loops("me", "me", &lineage));
    assert!(delegation_loops("mid", "me", &lineage));
    assert!(!delegation_loops("leaf", "me", &lineage));
}

#[test]
fn synthesis_and_revision_steps() {
    assert!(matches!(synthesis_step("ACCEPT_AND_COMPLETE", false), SynthesisStep::MissingFinalResponse));
    assert!(matches!(synthesis_step("APPROVE_AND_REPLY", true), SynthesisStep::Complete));
    assert!(matches!(synthesis_step("ACCEPT_AND_CONTINUE", false), SynthesisStep::Complete));
    assert!(matches!(synthesis_step("REJECT_AND_REVISE", false), SynthesisStep::Reject));
    assert!(matches!(revision_step(3, true), RevisionStep::CloseFailed));
    assert!(matches!(revision_step(1, false), RevisionStep::Fail));
    assert!(matches!(revision_step(2, true), RevisionStep::Revise));
    assert_eq!(children_review_kind(3), "CLOSED_FAILED");
    assert_eq!(children_review_kind(1), "CHILDREN_INCOMPLETE");
}

#[test]
fn review_reasoning_notes_the_next_step() {
    assert_eq!(review_reasoning("ACCEPT_AND_CONTINUE", "ok", "ship it"), "ok [next_step_brief: ship it]");
    assert_eq!(review_reasoning("ACCEPT_AND_CONTINUE", "ok", ""), "ok");
    assert_eq!(review_reasoning("ACCEPT_AND_COMPLETE", "ok", "ship it"), "ok");
}

#[test]
fn first_pass_mode_and_parties() {
    assert_eq!(triage_mode(true, true), "write_briefs");
    assert_eq!(triage_mode(true, false), "execute_triage");
    assert_eq!(triage_mode(false, true), "execute_triage");
    let (owner, creator) = resolve_work_order_parties("agent", Some("mgr"), None, None);
    assert_eq!((owner.as_str(), creator.as_str()), ("mgr", "mgr"));
    let (owner, creator) = resolve_work_order_parties("agent", None, None, None);
    assert_eq!((owner.as_str(), creator.as_str()), ("agent", "agent"));
    let (owner, creator) = resolve_work_order_parties("agent", None, Some("own"), Some("who"));
    assert_eq!((owner.as_str(), creator.as_str()), ("own", "who"));
}

fn subs() -> Vec<SubordinateRef> {
    vec![
        SubordinateRef { id: "1111-aaaa".to_string(), name: "Cat".to_string() },
        SubordinateRef { id: "2222-bbbb".to_string(), name: "Lucy".to_string() },
        SubordinateRef { id: "2299-cccc".to_string(), name: "Lou".to_string() },
    ]
}

#[test]
fn delegation_targets_resolve_only_to_direct_reports() {
    assert_eq!(resolve_delegation_target("2222-bbbb", &subs()), Some("2222-bbbb".to_string()));
    assert_eq!(resolve_delegation_target("cat", &subs()), Some("1111-aaaa".to_string()));
    assert_eq!(resolve_delegation_target("1111", &subs()), Some("1111-aaaa".to_string()));
    assert_eq!(resolve_delegation_target("22", &subs()), None);
    assert_eq!(resolve_delegation_target("nobody", &subs()), None);
}

#[test]
fn candidates_rank_by_score_then_name() {
    let ranked = rank_qualified_candidates(vec![
        ("a".to_string(), "Zed".to_string(), 5),
        ("b".to_string(), "Amy".to_string(), 9),
        ("c".to_string(), "Bob".to_string(), 3),
        ("d".to_string(), "Abe".to_string(), 5),
    ]);
    let ids: Vec<&str> = ranked.iter().map(|c| c.0.as_str()).collect();
    assert_eq!(ids, vec!["b", "d", "a"]);
}

#[test]
fn child_titles_take_the_first_sentence_and_stay_short() {
    assert_eq!(child_title("  Write the report. Then mail it.  "), "Write the report");
    assert_eq!(child_title("No full stop here"), "No full stop here");
    let long = "x".repeat(150);
    let title = child_title(&long);
    assert_eq!(title.len(), 100);
    assert!(title.ends_with("..."));
    assert_eq!(&title[..97], &long[..97]);
    let wide = "é".repeat(60);
    let title = child_title(&wide);
    assert!(title.len() <= 100);
    assert_eq!(title, format!("{}...", "é".repeat(48)));
}

#[test]
fn policy_rejections_record_verdict_reasoning_and_error() {
    let r = manager_rejection(&RejectionCause::QualifiedReportPassedOver { best_candidate: "Lucy".to_string() });
    assert_eq!(r.verdict, "REJECTED_MANAGER_POLICY");
    assert_eq!(
        r.reasoning,
        "Manager self-execution rejected. Qualified direct report 'Lucy' exists and no valid structured exception was supplied."
    );
    assert_eq!(
        r.error,
        "Manager policy violation: qualified direct report 'Lucy' exists. Record a valid structured exception or delegate."
    );
    let e = manager_rejection(&RejectionCause::RouteExcepted {
        required: "Cat".to_string(),
        code: None,
        reason: Some("on leave".to_string()),
        user_message: None,
    });
    assert_eq!(e.verdict, "ROUTING_EXCEPTION");
    assert_eq!(e.reasoning, "Hard-route exception for 'Cat': UNSPECIFIED (on leave)");
    assert_eq!(e.error, "Requested subordinate is unavailable for hard-routed work.");
    let l = manager_rejection(&RejectionCause::DelegationLoop { target: "a1".to_string() });
    assert_eq!(l.error, "Delegation loop blocked for agent a1.");
    let m = manager_rejection(&RejectionCause::MissingDirectAnswer);
    assert_eq!(m.verdict, "CLOSED_FAILED");
    assert_eq!(fit_reason("Bob", 7), "Best-fit qualified report: Bob (score 7).");
    assert_eq!(fit_reason("Amy", -1), "Best-fit qualified report: Amy (score -1).");
}

#[test]
fn revisions_go_only_to_direct_reports() {
    let subs = vec![
        SubordinateRef { id: "a1b2".to_string(), name: "Ann".to_string() },
        SubordinateRef { id: "c3d4".to_string(), name: "Bob".to_string() },
    ];
    let swos = parse(r#"{"a1b2": "fix it", "bob": "redo", "zzz": "x", "c3d4": "", "a1b2-x": 3}"#);
    assert_eq!(
        revision_dispatches_of(&swos, &subs),
        vec![("a1b2".to_string(), "fix it".to_string()), ("c3d4".to_string(), "redo".to_string())]
    );
    assert!(revision_dispatches_of(&parse("[1]"), &subs).is_empty());
    assert!(revision_dispatches_of(&parse(r#"{"outsider": "do it"}"#), &subs).is_empty());
}

fn synthesized(action: &str, final_response: bool) -> SynthesisEvent {
    SynthesisEvent::Synthesized { raw_action: action.to_string(), has_final_response: final_response }
}

#[test]
fn synthesis_loop_revises_then_completes() {
    let s = synthesis_loop_start_state();
    let (s, a) = synthesis_loop_step(s, &synthesized("REJECT_AND_REVISE", false));
    assert_eq!(a, SynthesisAction::CountRetry);
    let (s, a) = synthesis_loop_step(s, &SynthesisEvent::RetryCounted { attempts: Some(1), has_revisions: true });
    assert_eq!(a, SynthesisAction::DispatchRevisions);
    let (s, a) = synthesis_loop_step(s, &SynthesisEvent::RevisionsDone);
    assert_eq!(a, SynthesisAction::RunSynthesis);
    assert_eq!(s.passes, 2);
    let (s, a) = synthesis_loop_step(s, &synthesized("ACCEPT_AND_COMPLETE", true));
    assert_eq!(a, SynthesisAction::Complete);
    assert_eq!(s.phase, SynthesisPhase::Done);
    let (_, a) = synthesis_loop_step(s, &synthesized("REJECT_AND_REVISE", false));
    assert_eq!(a, SynthesisAction::Wait);
}

#[test]
fn synthesis_loop_closes_failed_and_gives_up() {
    let counting = SynthesisLoopState { phase: SynthesisPhase::CountingRetry, passes: 2 };
    let (_, a) = synthesis_loop_step(counting, &SynthesisEvent::RetryCounted { attempts: Some(3), has_revisions: true });
    assert_eq!(a, SynthesisAction::CloseFailed);
    let (_, a) = synthesis_loop_step(counting, &SynthesisEvent::RetryCounted { attempts: None, has_revisions: true });
    assert_eq!(a, SynthesisAction::CloseFailed);
    let (_, a) = synthesis_loop_step(counting, &SynthesisEvent::RetryCounted { attempts: Some(1), has_revisions: false });
    assert_eq!(a, SynthesisAction::Fail);
    let last = SynthesisLoopState { phase: SynthesisPhase::Revising, passes: 3 };
    assert_eq!(synthesis_loop_step(last, &SynthesisEvent::RevisionsDone).1, SynthesisAction::GiveUp);
    let start = synthesis_loop_start_state();
    assert_eq!(synthesis_loop_step(start, &synthesized("ACCEPT_AND_COMPLETE", false)).1, SynthesisAction::FailMissingFinalResponse);
    assert_eq!(synthesis_loop_step(start, &SynthesisEvent::RevisionsDone).1, SynthesisAction::Wait);
}
