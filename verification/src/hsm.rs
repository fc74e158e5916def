//! Decisions of the hierarchical work-order loop: what becomes of a triage
//! result, which delegation targets stand, and when a manager's review of
//! child work completes, revises or fails a work order.

use vstd::prelude::*;
use vstd::multiset::Multiset;
use vstd::utf8::encode_utf8;
use crate::json::{
    JsonView, entries_of, json_object_entries, json_as_str, json_empty_object, json_field, json_i64_value, json_object_insert,
    json_string_value, json_view, view_field, view_str,
};
use crate::orchestrator::{
    MAX_REVIEW_FAILURES, Orchestrator, classify_synthesis_action, self_execute_exceptions,
    synthesis_class, synthesis_keywords,
};
use crate::commands::{uuid_is_valid, uuid_parses};
use crate::error::KernelError;
use crate::workspace::{char_utf8_len, lemma_utf8_len_push, utf8_len};
use crate::text::{
    ascii_lowercase, ascii_lowercase_str, chars_of, concat2, has_in, has_prefix, int_text, lex_le,
    lemma_lex_le_total, lemma_lex_le_transitive, owned, segment_before, segment_before_chars,
    str_equals, str_lex_le, str_starts_with, string_of, trim, trim_chars, i64_text,
};

verus! {

/// The synthesis verdict a worker result carries, if any.
pub open spec fn synthesis_action_of(v: JsonView) -> Option<Seq<char>> {
    view_str(view_field(view_field(v, "synthesis"@), "action"@))
}

/// The triage action a worker result carries, if any.
pub open spec fn triage_action_of(v: JsonView) -> Option<Seq<char>> {
    view_str(view_field(view_field(v, "triage"@), "action"@))
}

/// Whether a child's result may go up to its manager's synthesis: a closed
/// failure always does; otherwise a synthesis that did not reject, a triage
/// that answered directly, or a plain reply or formatted work order.
pub open spec fn reportable_upward(v: JsonView) -> bool {
    if view_str(view_field(v, "terminal_status"@)) == Some("CLOSED_FAILED"@) {
        true
    } else {
        match synthesis_action_of(v) {
            Some(a) => synthesis_class(a) != "reject"@,
            None => match triage_action_of(v) {
                Some(a) => a == "ANSWER_DIRECTLY"@,
                None => view_str(view_field(v, "reply"@)) is Some || view_str(
                    view_field(v, "formatted_swo"@),
                ) is Some,
            },
        }
    }
}

/// Why a child's result was held back from synthesis.
pub open spec fn review_gate_reason(v: JsonView) -> Seq<char> {
    let fallback = "Result was not upward-reportable."@;
    let triage_part = match triage_action_of(v) {
        Some(a) => if a != "ANSWER_DIRECTLY"@ && a != "DELEGATE"@ {
            "Triage returned unsupported terminal action "@ + a
        } else {
            fallback
        },
        None => fallback,
    };
    match synthesis_action_of(v) {
        Some(a) => if synthesis_class(a) == "reject"@ {
            "Synthesis returned "@ + a + ": "@ + match view_str(
                view_field(view_field(v, "synthesis"@), "reasoning"@),
            ) {
                Some(r) => r,
                None => "no reasoning supplied"@,
            }
        } else {
            triage_part
        },
        None => triage_part,
    }
}

/// The result recorded when a work order is closed as failed.
pub open spec fn closed_failed_view(reason: Seq<char>, attempts: int) -> JsonView {
    JsonView::Object(
        Map::<Seq<char>, JsonView>::empty().insert(
            "terminal_status"@,
            JsonView::Str("CLOSED_FAILED"@),
        ).insert("reason"@, JsonView::Str(reason)).insert(
            "review_failure_count"@,
            JsonView::Number(int_text(attempts)),
        ),
    )
}

/// Whether `code` is one of the exceptions under which a manager may do
/// work itself.
pub open spec fn is_self_execute_exception(code: Option<Seq<char>>) -> bool {
    match code {
        Some(c) => self_execute_exceptions().contains(c),
        None => false,
    }
}

/// What becomes of a work order once triage has answered.
pub enum TriageOutcome {
    /// The agent answered directly but gave no answer.
    MissingDirectAnswer,
    /// The work was hard-routed to a subordinate, and the manager answered itself.
    HardRouteAnsweredDirectly,
    /// A qualified direct report exists and no valid exception was given.
    ManagerPolicyViolation,
    /// The direct answer stands and completes the work order.
    AnswerDirectly,
    /// The action was not a direct answer: delegation handling follows.
    ProceedToDelegation,
}

pub open spec fn triage_outcome_spec(
    action: Seq<char>,
    has_direct_answer: bool,
    routing_policy: Seq<char>,
    has_requested_route: bool,
    requires_delegation: bool,
    has_qualified_candidate: bool,
    exception_code: Option<Seq<char>>,
) -> TriageOutcome {
    if action != "ANSWER_DIRECTLY"@ {
        TriageOutcome::ProceedToDelegation
    } else if !has_direct_answer {
        TriageOutcome::MissingDirectAnswer
    } else if routing_policy == "HARD_ROUTE"@ && has_requested_route {
        TriageOutcome::HardRouteAnsweredDirectly
    } else if requires_delegation && has_qualified_candidate && !is_self_execute_exception(
        exception_code,
    ) {
        TriageOutcome::ManagerPolicyViolation
    } else {
        TriageOutcome::AnswerDirectly
    }
}

/// The decision a manager's self-execution or delegation is recorded under.
pub enum DelegationDecision {
    SelfExecute,
    HireThenDelegate,
    EscalateTeamGap,
    Delegate,
}

impl DelegationDecision {
    pub open spec fn label(self) -> Seq<char> {
        match self {
            DelegationDecision::SelfExecute => "SELF_EXECUTE"@,
            DelegationDecision::HireThenDelegate => "HIRE_THEN_DELEGATE"@,
            DelegationDecision::EscalateTeamGap => "ESCALATE_TEAM_GAP"@,
            DelegationDecision::Delegate => "DELEGATE"@,
        }
    }

    /// The decision's stored name.
    pub fn as_str(&self) -> (r: &'static str)
        ensures
            r@ == self.label(),
    {
        match self {
            DelegationDecision::SelfExecute => "SELF_EXECUTE",
            DelegationDecision::HireThenDelegate => "HIRE_THEN_DELEGATE",
            DelegationDecision::EscalateTeamGap => "ESCALATE_TEAM_GAP",
            DelegationDecision::Delegate => "DELEGATE",
        }
    }
}

pub open spec fn self_execution_decision_spec(
    has_qualified_candidate: bool,
    cross_function: bool,
    exception_code: Option<Seq<char>>,
) -> DelegationDecision {
    if has_qualified_candidate || cross_function {
        DelegationDecision::SelfExecute
    } else if exception_code == Some("TEAM_GAP_PENDING_HIRE"@) {
        DelegationDecision::HireThenDelegate
    } else {
        DelegationDecision::EscalateTeamGap
    }
}

/// How a hard-routed work order's delegation is judged.
pub enum HardRouteOutcome {
    /// No hard route applies, or the required subordinate was delegated to.
    Satisfied,
    /// The required subordinate was passed over without an exception.
    Violation,
    /// The required subordinate was passed over with a complete exception.
    Excepted,
}

pub open spec fn delegated_to(delegated: Seq<String>, id: Seq<char>) -> bool {
    exists|i: int| 0 <= i < delegated.len() && #[trigger] delegated[i]@ == id
}

pub open spec fn hard_route_outcome_spec(
    routing_policy: Seq<char>,
    required: Option<Seq<char>>,
    delegated: Seq<String>,
    exception_complete: bool,
) -> HardRouteOutcome {
    match required {
        Some(r) => if routing_policy == "HARD_ROUTE"@ && !delegated_to(delegated, r) {
            if exception_complete {
                HardRouteOutcome::Excepted
            } else {
                HardRouteOutcome::Violation
            }
        } else {
            HardRouteOutcome::Satisfied
        },
        None => HardRouteOutcome::Satisfied,
    }
}

/// What a manager's synthesis pass leads to.
pub enum SynthesisStep {
    /// Approval without the final response it owes.
    MissingFinalResponse,
    /// The work order completes.
    Complete,
    /// The child work was rejected.
    Reject,
}

pub open spec fn synthesis_step_spec(raw_action: Seq<char>, has_final_response: bool) -> SynthesisStep {
    let c = synthesis_class(raw_action);
    if c == "accept_complete"@ && !has_final_response {
        SynthesisStep::MissingFinalResponse
    } else if c == "reject"@ {
        SynthesisStep::Reject
    } else {
        SynthesisStep::Complete
    }
}

/// What a rejection leads to, once the retry count has been raised.
pub enum RevisionStep {
    /// The retry budget is spent: escalate and close as failed.
    CloseFailed,
    /// No revision work orders were given: fail.
    Fail,
    /// Dispatch the revision work orders and synthesize again.
    Revise,
}

pub open spec fn revision_step_spec(attempts: int, has_revisions: bool) -> RevisionStep {
    if attempts >= MAX_REVIEW_FAILURES {
        RevisionStep::CloseFailed
    } else if !has_revisions {
        RevisionStep::Fail
    } else {
        RevisionStep::Revise
    }
}

pub open spec fn review_reasoning_spec(
    raw_action: Seq<char>,
    base: Seq<char>,
    next_step: Seq<char>,
) -> Seq<char> {
    if synthesis_class(raw_action) == "accept_continue"@ && next_step.len() > 0 {
        base + " [next_step_brief: "@ + next_step + "]"@
    } else {
        base
    }
}

/// The review kind recorded when child work is held back: closed as failed
/// once the retry budget is spent, otherwise incomplete.
pub open spec fn children_review_kind_spec(attempts: int) -> Seq<char> {
    if attempts >= MAX_REVIEW_FAILURES {
        "CLOSED_FAILED"@
    } else {
        "CHILDREN_INCOMPLETE"@
    }
}

/// The mode of the first worker pass: managers that must delegate and have
/// reports write briefs; everyone else triages.
pub open spec fn triage_mode_spec(requires_delegation: bool, has_subordinates: bool) -> Seq<char> {
    if requires_delegation && has_subordinates {
        "write_briefs"@
    } else {
        "execute_triage"@
    }
}

/// Whether handing work to `target` would loop: it is the manager itself,
/// or already in the work order's lineage.
pub open spec fn delegation_loops_spec(target: Seq<char>, manager: Seq<char>, lineage: Seq<String>) -> bool {
    target == manager || delegated_to(lineage, target)
}

impl Orchestrator {
    /// Whether a child's result may go up to its manager's synthesis.
    pub fn result_is_reportable_upward(result: &serde_json::Value) -> (r: bool)
        ensures
            r == reportable_upward(json_view(*result)),
    {
        let status = json_field(result, "terminal_status");
        if let Some(s) = json_as_str(&status) {
            if str_equals(s.as_str(), "CLOSED_FAILED") {
                return true;
            }
        }
        let synthesis = json_field(result, "synthesis");
        let synthesis_action = json_field(&synthesis, "action");
        if let Some(a) = json_as_str(&synthesis_action) {
            return !str_equals(classify_synthesis_action(a.as_str()), "reject");
        }
        let triage = json_field(result, "triage");
        let triage_action = json_field(&triage, "action");
        if let Some(a) = json_as_str(&triage_action) {
            return str_equals(a.as_str(), "ANSWER_DIRECTLY");
        }
        let reply = json_field(result, "reply");
        let formatted = json_field(result, "formatted_swo");
        json_as_str(&reply).is_some() || json_as_str(&formatted).is_some()
    }

    /// Why a child's result was held back from synthesis.
    pub fn result_review_gate_reason(result: &serde_json::Value) -> (r: String)
        ensures
            r@ == review_gate_reason(json_view(*result)),
    {
        let synthesis = json_field(result, "synthesis");
        let synthesis_action = json_field(&synthesis, "action");
        if let Some(a) = json_as_str(&synthesis_action) {
            if str_equals(classify_synthesis_action(a.as_str()), "reject") {
                let reasoning_value = json_field(&synthesis, "reasoning");
                let reasoning = match json_as_str(&reasoning_value) {
                    Some(t) => t,
                    None => owned("no reasoning supplied"),
                };
                let mut r = owned("Synthesis returned ");
                r.append(a.as_str());
                r.append(": ");
                r.append(reasoning.as_str());
                return r;
            }
        }
        let triage = json_field(result, "triage");
        let triage_action = json_field(&triage, "action");
        if let Some(a) = json_as_str(&triage_action) {
            if !str_equals(a.as_str(), "ANSWER_DIRECTLY") && !str_equals(a.as_str(), "DELEGATE") {
                return concat2("Triage returned unsupported terminal action ", a.as_str());
            }
        }
        owned("Result was not upward-reportable.")
    }

    /// The result recorded when a work order is closed as failed.
    pub fn closed_failed_payload(reason: &str, attempts: i32) -> (r: serde_json::Value)
        ensures
            json_view(r) == closed_failed_view(reason@, attempts as int),
    {
        let mut v = json_empty_object();
        json_object_insert(&mut v, "terminal_status", json_string_value("CLOSED_FAILED"));
        json_object_insert(&mut v, "reason", json_string_value(reason));
        json_object_insert(&mut v, "review_failure_count", json_i64_value(attempts as i64));
        v
    }
}

/// The triage action of a worker result; a result without one counts as a
/// direct answer.
pub fn triage_action(result: &serde_json::Value) -> (r: String)
    ensures
        r@ == match triage_action_of(json_view(*result)) {
            Some(a) => a,
            None => "ANSWER_DIRECTLY"@,
        },
{
    let triage = json_field(result, "triage");
    let action = json_field(&triage, "action");
    match json_as_str(&action) {
        Some(a) => a,
        None => owned("ANSWER_DIRECTLY"),
    }
}

/// What becomes of a work order once triage has answered.
pub fn triage_outcome(
    action: &str,
    has_direct_answer: bool,
    routing_policy: &str,
    has_requested_route: bool,
    requires_delegation: bool,
    has_qualified_candidate: bool,
    exception_code: Option<&str>,
) -> (r: TriageOutcome)
    ensures
        r == triage_outcome_spec(
            action@,
            has_direct_answer,
            routing_policy@,
            has_requested_route,
            requires_delegation,
            has_qualified_candidate,
            crate::orchestrator::opt_view(exception_code),
        ),
{
    if !str_equals(action, "ANSWER_DIRECTLY") {
        TriageOutcome::ProceedToDelegation
    } else if !has_direct_answer {
        TriageOutcome::MissingDirectAnswer
    } else if str_equals(routing_policy, "HARD_ROUTE") && has_requested_route {
        TriageOutcome::HardRouteAnsweredDirectly
    } else if requires_delegation && has_qualified_candidate
        && !Orchestrator::valid_self_execute_exception(exception_code) {
        TriageOutcome::ManagerPolicyViolation
    } else {
        TriageOutcome::AnswerDirectly
    }
}

/// The decision recorded when a manager that must delegate executes a work
/// order itself.
pub fn self_execution_decision(
    has_qualified_candidate: bool,
    payload_keywords: &Vec<String>,
    exception_code: Option<&str>,
) -> (r: DelegationDecision)
    ensures
        r == self_execution_decision_spec(
            has_qualified_candidate,
            exists|i: int|
                0 <= i < payload_keywords@.len() && synthesis_keywords().contains(
                    #[trigger] payload_keywords@[i]@,
                ),
            crate::orchestrator::opt_view(exception_code),
        ),
{
    if has_qualified_candidate || Orchestrator::is_cross_function_synthesis(payload_keywords) {
        DelegationDecision::SelfExecute
    } else {
        let hire = match exception_code {
            Some(c) => str_equals(c, "TEAM_GAP_PENDING_HIRE"),
            None => false,
        };
        if hire {
            DelegationDecision::HireThenDelegate
        } else {
            DelegationDecision::EscalateTeamGap
        }
    }
}

fn contains_id(ids: &Vec<String>, id: &str) -> (r: bool)
    ensures
        r == delegated_to(ids@, id@),
{
    let mut i: usize = 0;
    while i < ids.len()
        invariant
            i <= ids.len(),
            forall|j: int| 0 <= j < i ==> #[trigger] ids@[j]@ != id@,
        decreases ids.len() - i,
    {
        if str_equals(ids[i].as_str(), id) {
            return true;
        }
        i = i + 1;
    }
    false
}

/// How a hard-routed work order's delegation is judged.
pub fn hard_route_outcome(
    routing_policy: &str,
    required: Option<&str>,
    delegated_ids: &Vec<String>,
    exception_complete: bool,
) -> (r: HardRouteOutcome)
    ensures
        r == hard_route_outcome_spec(
            routing_policy@,
            crate::orchestrator::opt_view(required),
            delegated_ids@,
            exception_complete,
        ),
{
    match required {
        Some(req) => {
            if str_equals(routing_policy, "HARD_ROUTE") && !contains_id(delegated_ids, req) {
                if exception_complete {
                    HardRouteOutcome::Excepted
                } else {
                    HardRouteOutcome::Violation
                }
            } else {
                HardRouteOutcome::Satisfied
            }
        },
        None => HardRouteOutcome::Satisfied,
    }
}

/// Whether handing work to `target` would loop back into the lineage.
pub fn delegation_loops(target: &str, manager_id: &str, lineage: &Vec<String>) -> (r: bool)
    ensures
        r == delegation_loops_spec(target@, manager_id@, lineage@),
{
    str_equals(target, manager_id) || contains_id(lineage, target)
}

/// What a manager's synthesis pass leads to.
pub fn synthesis_step(raw_action: &str, has_final_response: bool) -> (r: SynthesisStep)
    ensures
        r == synthesis_step_spec(raw_action@, has_final_response),
{
    let c = classify_synthesis_action(raw_action);
    if str_equals(c, "accept_complete") && !has_final_response {
        SynthesisStep::MissingFinalResponse
    } else if str_equals(c, "reject") {
        SynthesisStep::Reject
    } else {
        SynthesisStep::Complete
    }
}

/// What a rejection leads to, given the raised retry count.
pub fn revision_step(attempts: i32, has_revisions: bool) -> (r: RevisionStep)
    ensures
        r == revision_step_spec(attempts as int, has_revisions),
{
    if attempts >= MAX_REVIEW_FAILURES {
        RevisionStep::CloseFailed
    } else if !has_revisions {
        RevisionStep::Fail
    } else {
        RevisionStep::Revise
    }
}

/// The reasoning recorded with a synthesis review: a continuation notes its
/// next step.
pub fn review_reasoning(raw_action: &str, base: &str, next_step: &str) -> (r: String)
    ensures
        r@ == review_reasoning_spec(raw_action@, base@, next_step@),
{
    let c = classify_synthesis_action(raw_action);
    if str_equals(c, "accept_continue") && next_step.unicode_len() > 0 {
        let mut r = owned(base);
        r.append(" [next_step_brief: ");
        r.append(next_step);
        r.append("]");
        r
    } else {
        owned(base)
    }
}

/// The review kind recorded when child work is held back.
pub fn children_review_kind(attempts: i32) -> (r: &'static str)
    ensures
        r@ == children_review_kind_spec(attempts as int),
{
    if attempts >= MAX_REVIEW_FAILURES {
        "CLOSED_FAILED"
    } else {
        "CHILDREN_INCOMPLETE"
    }
}

/// The mode of the first worker pass.
pub fn triage_mode(requires_delegation: bool, has_subordinates: bool) -> (r: &'static str)
    ensures
        r@ == triage_mode_spec(requires_delegation, has_subordinates),
{
    if requires_delegation && has_subordinates {
        "write_briefs"
    } else {
        "execute_triage"
    }
}

/// The owner and creator of a new work order: the owner defaults to the
/// manager, then the assignee; the creator to the manager, then the owner.
pub fn resolve_work_order_parties(
    agent_id: &str,
    manager_id: Option<&str>,
    owner_agent_id: Option<&str>,
    created_by_agent_id: Option<&str>,
) -> (r: (String, String))
    ensures
        r.0@ == match owner_agent_id {
            Some(o) => o@,
            None => match manager_id {
                Some(m) => m@,
                None => agent_id@,
            },
        },
        r.1@ == match created_by_agent_id {
            Some(c) => c@,
            None => match manager_id {
                Some(m) => m@,
                None => r.0@,
            },
        },
{
    let owner = match owner_agent_id {
        Some(o) => owned(o),
        None => match manager_id {
            Some(m) => owned(m),
            None => owned(agent_id),
        },
    };
    let creator = match created_by_agent_id {
        Some(c) => owned(c),
        None => match manager_id {
            Some(m) => owned(m),
            None => owned(owner.as_str()),
        },
    };
    (owner, creator)
}

/// A direct report that delegated work may name: its id and its name.
pub struct SubordinateRef {
    pub id: String,
    pub name: String,
}

/// A report matches a delegation key loosely when its name equals the key
/// up to ASCII case, or its id starts with the key.
pub open spec fn matches_loosely(s: SubordinateRef, key: Seq<char>) -> bool {
    ascii_lowercase(s.name@) == ascii_lowercase(key) || has_prefix(s.id@, key)
}

pub open spec fn only_loose_match(subs: Seq<SubordinateRef>, key: Seq<char>, j: int) -> bool {
    &&& 0 <= j < subs.len()
    &&& matches_loosely(subs[j], key)
    &&& forall|k: int| 0 <= k < subs.len() && #[trigger] matches_loosely(subs[k], key) ==> k == j
}

/// The report a delegation key names: an exact id, else the one report that
/// matches loosely; none when nothing or more than one report matches.
pub open spec fn resolved_target(subs: Seq<SubordinateRef>, key: Seq<char>) -> Option<Seq<char>> {
    if exists|i: int| 0 <= i < subs.len() && #[trigger] subs[i].id@ == key {
        Some(key)
    } else if exists|j: int| only_loose_match(subs, key, j) {
        Some(subs[choose|j: int| only_loose_match(subs, key, j)].id@)
    } else {
        None
    }
}

/// Resolves the key a triage result delegates to against the manager's
/// direct reports.  Models often get names right and ids wrong, so a unique
/// loose match is accepted; anything else is dropped.
pub fn resolve_delegation_target(key: &str, subs: &Vec<SubordinateRef>) -> (r: Option<String>)
    ensures
        match resolved_target(subs@, key@) {
            Some(t) => r matches Some(x) && x@ == t,
            None => r is None,
        },
{
    let mut i: usize = 0;
    while i < subs.len()
        invariant
            i <= subs.len(),
            forall|j: int| 0 <= j < i ==> #[trigger] subs@[j].id@ != key@,
        decreases subs.len() - i,
    {
        if str_equals(subs[i].id.as_str(), key) {
            return Some(owned(key));
        }
        i = i + 1;
    }
    let key_lower = ascii_lowercase_str(key);
    let mut found: Option<usize> = None;
    let mut several = false;
    let mut k: usize = 0;
    while k < subs.len()
        invariant
            k <= subs.len(),
            key_lower@ == ascii_lowercase(key@),
            match found {
                None => forall|j: int| 0 <= j < k ==> !#[trigger] matches_loosely(subs@[j], key@),
                Some(f) => f < k && matches_loosely(subs@[f as int], key@),
            },
            several ==> found is Some && exists|j: int|
                0 <= j < k && j != found->0 && #[trigger] matches_loosely(subs@[j], key@),
            !several && found is Some ==> forall|j: int|
                0 <= j < k && #[trigger] matches_loosely(subs@[j], key@) ==> j == found->0,
        decreases subs.len() - k,
    {
        let name_lower = ascii_lowercase_str(subs[k].name.as_str());
        let m = str_equals(name_lower.as_str(), key_lower.as_str()) || str_starts_with(
            subs[k].id.as_str(),
            key,
        );
        assert(m == matches_loosely(subs@[k as int], key@));
        if m {
            if found.is_none() {
                found = Some(k);
            } else {
                several = true;
            }
        }
        k = k + 1;
    }
    if several {
        proof {
            let j = choose|j: int| 0 <= j < subs@.len() && j != found->0 && #[trigger] matches_loosely(subs@[j], key@);
            assert forall|x: int| !only_loose_match(subs@, key@, x) by {
                if only_loose_match(subs@, key@, x) {
                    assert(matches_loosely(subs@[j], key@));
                    assert(matches_loosely(subs@[found->0 as int], key@));
                }
            }
        }
        None
    } else {
        match found {
            Some(f) => {
                proof {
                    assert(only_loose_match(subs@, key@, f as int));
                    let c = choose|j: int| only_loose_match(subs@, key@, j);
                    assert(c == f);
                }
                Some(owned(subs[f].id.as_str()))
            },
            None => {
                proof {
                    assert forall|x: int| !only_loose_match(subs@, key@, x) by {
                        if only_loose_match(subs@, key@, x) {
                            assert(matches_loosely(subs@[x], key@));
                        }
                    }
                }
                None
            },
        }
    }
}

/// Fit score a direct report must reach to count as qualified.
pub const QUALIFYING_FIT_SCORE: i32 = 4;

/// Candidate order: higher score first, then by name.
pub open spec fn ranks_before(a: (String, String, i32), b: (String, String, i32)) -> bool {
    a.2 > b.2 || (a.2 == b.2 && lex_le(a.1@, b.1@))
}

pub open spec fn ranked(list: Seq<(String, String, i32)>) -> bool {
    forall|a: int, b: int| 0 <= a < b < list.len() ==> ranks_before(#[trigger] list[a], #[trigger] list[b])
}

/// The scored reports that reach the qualifying score, in their given order.
pub open spec fn qualified(list: Seq<(String, String, i32)>) -> Seq<(String, String, i32)>
    decreases list.len(),
{
    if list.len() == 0 {
        Seq::empty()
    } else if list.last().2 >= QUALIFYING_FIT_SCORE {
        qualified(list.drop_last()).push(list.last())
    } else {
        qualified(list.drop_last())
    }
}

proof fn lemma_ranks_total(a: (String, String, i32), b: (String, String, i32))
    ensures
        ranks_before(a, b) || ranks_before(b, a),
{
    lemma_lex_le_total(a.1@, b.1@);
}

proof fn lemma_ranks_transitive(
    a: (String, String, i32),
    b: (String, String, i32),
    c: (String, String, i32),
)
    requires
        ranks_before(a, b),
        ranks_before(b, c),
    ensures
        ranks_before(a, c),
{
    if a.2 == b.2 && b.2 == c.2 {
        lemma_lex_le_transitive(a.1@, b.1@, c.1@);
    }
}

fn ranks_before_exec(a: &(String, String, i32), b: &(String, String, i32)) -> (r: bool)
    ensures
        r == ranks_before(*a, *b),
{
    a.2 > b.2 || (a.2 == b.2 && str_lex_le(a.1.as_str(), b.1.as_str()))
}

fn insert_ranked(out: &mut Vec<(String, String, i32)>, c: (String, String, i32))
    requires
        ranked(old(out)@),
    ensures
        ranked(final(out)@),
        final(out)@.to_multiset() == old(out)@.to_multiset().insert(c),
{
    let ghost before = out@;
    let mut p: usize = 0;
    while p < out.len() && ranks_before_exec(&out[p], &c)
        invariant
            p <= out@.len(),
            out@ == before,
            forall|j: int| 0 <= j < p ==> ranks_before(#[trigger] before[j], c),
        decreases out.len() - p,
    {
        p = p + 1;
    }
    proof {
        if p < before.len() {
            lemma_ranks_total(before[p as int], c);
        }
        vstd::seq_lib::to_multiset_insert(before, p as int, c);
    }
    out.insert(p, c);
    proof {
        let after = out@;
        assert forall|a: int, b: int| 0 <= a < b < after.len() implies ranks_before(
            after[a],
            after[b],
        ) by {
            if b < p {
                assert(after[a] == before[a] && after[b] == before[b]);
            } else if b == p {
                assert(after[a] == before[a]);
            } else if a < p {
                assert(after[a] == before[a] && after[b] == before[b - 1]);
                lemma_ranks_total(before[p as int], c);
                if p < b - 1 {
                    lemma_ranks_transitive(c, before[p as int], before[b - 1]);
                }
                lemma_ranks_transitive(before[a], c, before[b - 1]);
            } else if a == p {
                assert(after[b] == before[b - 1]);
                lemma_ranks_total(before[p as int], c);
                if p < b - 1 {
                    lemma_ranks_transitive(c, before[p as int], before[b - 1]);
                }
            } else {
                assert(after[a] == before[a - 1] && after[b] == before[b - 1]);
            }
        }
    }
}

/// The qualified direct reports, best fit first and then by name: those
/// whose fit score reaches `QUALIFYING_FIT_SCORE`.
pub fn rank_qualified_candidates(scored: Vec<(String, String, i32)>) -> (r: Vec<
    (String, String, i32),
>)
    ensures
        ranked(r@),
        r@.to_multiset() == qualified(scored@).to_multiset(),
        forall|i: int| 0 <= i < r@.len() ==> #[trigger] r@[i].2 >= QUALIFYING_FIT_SCORE,
{
    let mut out: Vec<(String, String, i32)> = Vec::new();
    let mut scored = scored;
    let ghost all = scored@;
    let mut rest: Vec<(String, String, i32)> = Vec::new();
    // Walk the list from the back so that each step removes its last item.
    let mut n: usize = scored.len();
    assert(all.subrange(n as int, all.len() as int).len() == 0);
    proof {
        broadcast use vstd::seq_lib::group_to_multiset_ensures;
        assert(all.subrange(0, n as int) =~= all);
        assert(out@.to_multiset() =~= Multiset::<(String, String, i32)>::empty());
        assert(out@.to_multiset().add(qualified(all).to_multiset()) =~= qualified(all).to_multiset());
    }
    while n > 0
        invariant
            n <= all.len(),
            scored@ == all.subrange(0, n as int),
            ranked(out@),
            out@.to_multiset().add(qualified(all.subrange(0, n as int)).to_multiset())
                == qualified(all).to_multiset(),
        decreases n,
    {
        let c = scored.pop().unwrap();
        let ghost pre = all.subrange(0, n as int);
        proof {
            assert(pre.drop_last() =~= all.subrange(0, n - 1));
            assert(pre.last() == c);
        }
        if c.2 >= QUALIFYING_FIT_SCORE {
            proof {
                vstd::seq_lib::to_multiset_build(qualified(pre.drop_last()), c);
            }
            insert_ranked(&mut out, c);
            proof {
                assert(out@.to_multiset().add(qualified(pre.drop_last()).to_multiset())
                    =~= qualified(all).to_multiset());
            }
        }
        n = n - 1;
    }
    proof {
        broadcast use vstd::seq_lib::group_to_multiset_ensures;
        assert(all.subrange(0, 0) =~= Seq::<(String, String, i32)>::empty());
        assert(qualified(all.subrange(0, 0)).to_multiset() =~= Multiset::<(String, String, i32)>::empty());
        assert(out@.to_multiset() =~= qualified(all).to_multiset());
        lemma_qualified_scores(all);
        assert forall|i: int| 0 <= i < out@.len() implies #[trigger] out@[i].2 >= QUALIFYING_FIT_SCORE by {
            assert(out@.to_multiset().count(out@[i]) > 0);
            assert(qualified(all).to_multiset().count(out@[i]) > 0);
            assert(qualified(all).contains(out@[i]));
        }
    }
    out
}

/// Every qualified candidate reaches the qualifying score.
pub proof fn lemma_qualified_scores(list: Seq<(String, String, i32)>)
    ensures
        forall|i: int| 0 <= i < qualified(list).len() ==> #[trigger] qualified(list)[i].2
            >= QUALIFYING_FIT_SCORE,
    decreases list.len(),
{
    if list.len() > 0 {
        let q = qualified(list.drop_last());
        lemma_qualified_scores(list.drop_last());
        if list.last().2 >= QUALIFYING_FIT_SCORE {
            assert forall|i: int| 0 <= i < qualified(list).len() implies #[trigger] qualified(
                list,
            )[i].2 >= QUALIFYING_FIT_SCORE by {
                if i < q.len() {
                    assert(qualified(list)[i] == q[i]);
                }
            }
        }
    }
}

/// The first sentence of a brief: the trimmed brief up to its first `.`,
/// trimmed again; the whole trimmed brief when it has no `.`.
pub open spec fn first_sentence(brief: Seq<char>) -> Seq<char> {
    let b = trim(brief);
    if has_in(b, seq!['.'], 0) {
        trim(segment_before(b, seq!['.']))
    } else {
        b
    }
}

/// Byte budget of a shortened child title, before its `...`.
pub const TITLE_CUT_BYTES: u64 = 97;

/// Longest title, in bytes, kept whole.
pub const TITLE_MAX_BYTES: u64 = 100;

/// `k` characters of `s` make the longest proper prefix of at most
/// `TITLE_CUT_BYTES` bytes.
pub open spec fn title_cut(s: Seq<char>, k: int) -> bool {
    &&& 0 <= k < s.len()
    &&& utf8_len(s.take(k)) <= TITLE_CUT_BYTES
    &&& (k + 1 == s.len() || utf8_len(s.take(k + 1)) > TITLE_CUT_BYTES)
}

/// Title of a delegated child work order: the brief's first sentence; one
/// over `TITLE_MAX_BYTES` bytes is cut to its longest prefix of at most
/// `TITLE_CUT_BYTES` bytes and ends in `...`.
pub open spec fn child_title_spec(brief: Seq<char>) -> Seq<char> {
    let f = first_sentence(brief);
    if utf8_len(f) > TITLE_MAX_BYTES {
        f.take(choose|k: int| title_cut(f, k)) + "..."@
    } else {
        f
    }
}

proof fn lemma_utf8_len_take_step(s: Seq<char>, k: int)
    requires
        0 <= k < s.len(),
    ensures
        utf8_len(s.take(k + 1)) == utf8_len(s.take(k)) + char_utf8_len(s[k]),
{
    assert(s.take(k + 1) =~= s.take(k).push(s[k]));
    lemma_utf8_len_push(s.take(k), s[k]);
}

proof fn lemma_utf8_len_monotone(s: Seq<char>, a: int, b: int)
    requires
        0 <= a <= b <= s.len(),
    ensures
        utf8_len(s.take(a)) <= utf8_len(s.take(b)),
    decreases b - a,
{
    if a < b {
        lemma_utf8_len_monotone(s, a, b - 1);
        lemma_utf8_len_take_step(s, b - 1);
    }
}

fn char_utf8_width(c: char) -> (r: u64)
    ensures
        r == char_utf8_len(c),
{
    let u = c as u32;
    if u < 0x80 {
        1
    } else if u < 0x800 {
        2
    } else if u < 0x10000 {
        3
    } else {
        4
    }
}

/// The title of a delegated child work order, derived from its brief.
pub fn child_title(brief: &str) -> (r: String)
    ensures
        r@ == child_title_spec(brief@),
{
    let v = chars_of(brief);
    let b = trim_chars(&v);
    let dot = vec!['.'];
    assert(dot@ =~= seq!['.']);
    let f = match crate::text::find_first_in(&b, &dot, 0) {
        Some(p) => {
            assert(dot@.contains(b@[p as int]));
            assert(has_in(b@, dot@, 0));
            let seg = segment_before_chars(&b, &dot);
            trim_chars(&seg)
        },
        None => b,
    };
    assert(f@ == first_sentence(brief@));
    let ghost fs = f@;
    // Total bytes, stopping once past the budget for keeping the title whole.
    let mut total: u64 = 0;
    let mut i: usize = 0;
    while i < f.len() && total <= TITLE_MAX_BYTES
        invariant
            i <= f@.len(),
            f@ == fs,
            total == utf8_len(fs.take(i as int)),
        decreases f.len() - i,
    {
        proof {
            lemma_utf8_len_take_step(fs, i as int);
        }
        total = total + char_utf8_width(f[i]);
        i = i + 1;
    }
    if total <= TITLE_MAX_BYTES {
        assert(fs.take(i as int) =~= fs);
        return string_of(&f);
    }
    proof {
        lemma_utf8_len_monotone(fs, i as int, fs.len() as int);
        assert(fs.take(fs.len() as int) =~= fs);
    }
    let mut k: usize = 0;
    let mut used: u64 = 0;
    while k + 1 < f.len() && used + char_utf8_width(f[k]) <= TITLE_CUT_BYTES
        invariant
            k < f@.len(),
            f@ == fs,
            used == utf8_len(fs.take(k as int)),
            used <= TITLE_CUT_BYTES,
        decreases f.len() - k,
    {
        proof {
            lemma_utf8_len_take_step(fs, k as int);
        }
        used = used + char_utf8_width(f[k]);
        k = k + 1;
    }
    proof {
        if k + 1 < fs.len() {
            lemma_utf8_len_take_step(fs, k as int);
        }
        assert(title_cut(fs, k as int));
        let c = choose|j: int| title_cut(fs, j);
        if c < k {
            lemma_utf8_len_monotone(fs, c + 1, k as int);
        } else if c > k {
            lemma_utf8_len_monotone(fs, k + 1, c);
        }
        assert(c == k);
    }
    let head = crate::text::slice_vec(&f, 0, k);
    let mut r = string_of(&head);
    r.append("...");
    proof {
        reveal_strlit("...");
        assert(head@ =~= fs.take(k as int));
    }
    r
}

/// A triage answer stands only when it is a direct answer that carries its
/// answer, was not hard-routed to a subordinate, and — for a manager that
/// must delegate and has a qualified report — names a valid exception.
pub proof fn lemma_direct_answer_respects_policy(
    action: Seq<char>,
    has_direct_answer: bool,
    routing_policy: Seq<char>,
    has_requested_route: bool,
    requires_delegation: bool,
    has_qualified_candidate: bool,
    exception_code: Option<Seq<char>>,
)
    requires
        triage_outcome_spec(
            action,
            has_direct_answer,
            routing_policy,
            has_requested_route,
            requires_delegation,
            has_qualified_candidate,
            exception_code,
        ) == TriageOutcome::AnswerDirectly,
    ensures
        action == "ANSWER_DIRECTLY"@,
        has_direct_answer,
        !(routing_policy == "HARD_ROUTE"@ && has_requested_route),
        requires_delegation && has_qualified_candidate ==> is_self_execute_exception(exception_code),
{
}

/// A work order closed as failed is always passed up to its manager.
pub proof fn lemma_closed_failed_is_reportable(reason: Seq<char>, attempts: int)
    ensures
        reportable_upward(closed_failed_view(reason, attempts)),
{
    reveal_strlit("terminal_status");
    reveal_strlit("reason");
    reveal_strlit("review_failure_count");
    assert("terminal_status"@ != "reason"@) by {
        assert("terminal_status"@[0] != "reason"@[0]);
    }
    assert("terminal_status"@ != "review_failure_count"@) by {
        assert("terminal_status"@[0] != "review_failure_count"@[0]);
    }
}

/// A delegation key only ever resolves to the id of one of the manager's
/// direct reports.
pub proof fn lemma_resolved_target_is_report(subs: Seq<SubordinateRef>, key: Seq<char>)
    ensures
        resolved_target(subs, key) matches Some(t) ==> exists|i: int|
            0 <= i < subs.len() && #[trigger] subs[i].id@ == t,
{
    if !(exists|i: int| 0 <= i < subs.len() && #[trigger] subs[i].id@ == key) {
        if exists|j: int| only_loose_match(subs, key, j) {
            let j = choose|j: int| only_loose_match(subs, key, j);
            assert(subs[j].id@ == subs[j].id@);
        }
    }
}

/// Under a hard route, a satisfied delegation includes the required report.
pub proof fn lemma_hard_route_delegates_required(
    routing_policy: Seq<char>,
    required: Seq<char>,
    delegated: Seq<String>,
    exception_complete: bool,
)
    requires
        routing_policy == "HARD_ROUTE"@,
        hard_route_outcome_spec(routing_policy, Some(required), delegated, exception_complete)
            == HardRouteOutcome::Satisfied,
    ensures
        delegated_to(delegated, required),
{
}

proof fn lemma_utf8_len_concat(s: Seq<char>, t: Seq<char>)
    ensures
        utf8_len(s + t) == utf8_len(s) + utf8_len(t),
    decreases t.len(),
{
    if t.len() > 0 {
        assert(s + t =~= (s + t.drop_last()).push(t.last()));
        assert(t =~= t.drop_last().push(t.last()));
        lemma_utf8_len_concat(s, t.drop_last());
        lemma_utf8_len_push(s + t.drop_last(), t.last());
        lemma_utf8_len_push(t.drop_last(), t.last());
    } else {
        assert(s + t =~= s);
        assert(encode_utf8(t) =~= Seq::<u8>::empty());
    }
}

proof fn lemma_title_cut_exists(s: Seq<char>, k: int)
    requires
        0 <= k < s.len(),
        utf8_len(s.take(k)) <= TITLE_CUT_BYTES,
    ensures
        exists|j: int| title_cut(s, j),
    decreases s.len() - k,
{
    if k + 1 < s.len() && utf8_len(s.take(k + 1)) <= TITLE_CUT_BYTES {
        lemma_title_cut_exists(s, k + 1);
    } else {
        assert(title_cut(s, k));
    }
}

/// A child title never takes more than `TITLE_MAX_BYTES` bytes.
pub proof fn lemma_child_title_bounded(brief: Seq<char>)
    ensures
        utf8_len(child_title_spec(brief)) <= TITLE_MAX_BYTES,
{
    let f = first_sentence(brief);
    if utf8_len(f) > TITLE_MAX_BYTES {
        assert(f.len() > 0);
        assert(f.take(0) =~= Seq::<char>::empty());
        lemma_title_cut_exists(f, 0);
        let k = choose|k: int| title_cut(f, k);
        reveal_strlit("...");
        lemma_utf8_len_concat(f.take(k), "..."@);
        assert(utf8_len("..."@) == 3) by {
            let d = "..."@;
            assert(d.len() == 3 && d[0] == '.' && d[1] == '.' && d[2] == '.');
            let e0 = Seq::<char>::empty();
            assert(encode_utf8(e0) =~= Seq::<u8>::empty());
            assert(('.' as u32) < 0x80);
            lemma_utf8_len_push(e0, '.');
            lemma_utf8_len_push(e0.push('.'), '.');
            lemma_utf8_len_push(e0.push('.').push('.'), '.');
            assert(d =~= e0.push('.').push('.').push('.'));
        }
    }
}

/// Why a manager's work order is failed by policy.
pub enum RejectionCause {
    /// The manager answered directly but gave no answer.
    MissingDirectAnswer,
    /// Hard-routed work answered by the manager itself; `requested` names
    /// the subordinate it was routed to.
    HardRouteAnsweredDirectly { requested: String },
    /// The manager executed itself while a qualified report existed.
    QualifiedReportPassedOver { best_candidate: String },
    /// Hard-routed work delegated, but not to the required subordinate.
    RequiredReportPassedOver { required: String },
    /// Hard-routed work passed over with the manager's exception.
    RouteExcepted {
        required: String,
        code: Option<String>,
        reason: Option<String>,
        user_message: Option<String>,
    },
    /// A delegation that opened no child work order.
    NoChildWorkOrders,
    /// A delegation back into the work order's own lineage.
    DelegationLoop { target: String },
}

/// The review the kernel records when it fails a manager's work order by
/// policy, and the error the loop returns.
pub struct ManagerRejection {
    pub verdict: String,
    pub reasoning: String,
    pub error: String,
}

pub open spec fn opt_text_or(o: Option<String>, fallback: Seq<char>) -> Seq<char> {
    match o {
        Some(s) => s@,
        None => fallback,
    }
}

/// Verdict, reasoning and error of each policy rejection.
pub open spec fn rejection_spec(cause: RejectionCause) -> (Seq<char>, Seq<char>, Seq<char>) {
    match cause {
        RejectionCause::MissingDirectAnswer => (
            "CLOSED_FAILED"@,
            "Manager direct execution returned no final response."@,
            "Manager direct execution returned no final response."@,
        ),
        RejectionCause::HardRouteAnsweredDirectly { requested } => (
            "REJECTED_ROUTE_CONTRACT"@,
            "Hard-route contract violation. Requested subordinate '"@ + requested@
                + "' was not delegated and no approved exception was supplied."@,
            "Hard-route contract violation: manager answered directly instead of delegating."@,
        ),
        RejectionCause::QualifiedReportPassedOver { best_candidate } => (
            "REJECTED_MANAGER_POLICY"@,
            "Manager self-execution rejected. Qualified direct report '"@ + best_candidate@
                + "' exists and no valid structured exception was supplied."@,
            "Manager policy violation: qualified direct report '"@ + best_candidate@
                + "' exists. Record a valid structured exception or delegate."@,
        ),
        RejectionCause::RequiredReportPassedOver { required } => (
            "REJECTED_ROUTE_CONTRACT"@,
            "Hard-route contract violation. Required subordinate '"@ + required@
                + "' was not delegated and no exception was supplied."@,
            "Hard-route contract violation: requested subordinate was not delegated."@,
        ),
        RejectionCause::RouteExcepted { required, code, reason, user_message } => (
            "ROUTING_EXCEPTION"@,
            "Hard-route exception for '"@ + required@ + "': "@ + opt_text_or(code, "UNSPECIFIED"@)
                + " ("@ + opt_text_or(reason, Seq::empty()) + ")"@,
            opt_text_or(user_message, "Requested subordinate is unavailable for hard-routed work."@),
        ),
        RejectionCause::NoChildWorkOrders => (
            "REJECTED_MANAGER_POLICY"@,
            "Delegation action returned no immediate child SWOs. Queued narration is not treated as delivery."@,
            "Delegation action returned no immediate child SWOs."@,
        ),
        RejectionCause::DelegationLoop { target } => (
            "REJECTED_MANAGER_POLICY"@,
            "Delegation loop blocked. '"@ + target@ + "' is already present in the current SWO lineage."@,
            "Delegation loop blocked for agent "@ + target@ + "."@,
        ),
    }
}

fn text_or(o: &Option<String>, fallback: &str) -> (r: String)
    ensures
        r@ == opt_text_or(*o, fallback@),
{
    match o {
        Some(s) => s.clone(),
        None => owned(fallback),
    }
}

fn joined3(a: &str, b: &str, c: &str) -> (r: String)
    ensures
        r@ == a@ + b@ + c@,
{
    let mut r = owned(a);
    r.append(b);
    r.append(c);
    r
}

/// The review recorded for a policy rejection, and the error returned.
pub fn manager_rejection(cause: &RejectionCause) -> (r: ManagerRejection)
    ensures
        (r.verdict@, r.reasoning@, r.error@) == rejection_spec(*cause),
{
    match cause {
        RejectionCause::MissingDirectAnswer => ManagerRejection {
            verdict: owned("CLOSED_FAILED"),
            reasoning: owned("Manager direct execution returned no final response."),
            error: owned("Manager direct execution returned no final response."),
        },
        RejectionCause::HardRouteAnsweredDirectly { requested } => ManagerRejection {
            verdict: owned("REJECTED_ROUTE_CONTRACT"),
            reasoning: joined3(
                "Hard-route contract violation. Requested subordinate '",
                requested.as_str(),
                "' was not delegated and no approved exception was supplied.",
            ),
            error: owned(
                "Hard-route contract violation: manager answered directly instead of delegating.",
            ),
        },
        RejectionCause::QualifiedReportPassedOver { best_candidate } => ManagerRejection {
            verdict: owned("REJECTED_MANAGER_POLICY"),
            reasoning: joined3(
                "Manager self-execution rejected. Qualified direct report '",
                best_candidate.as_str(),
                "' exists and no valid structured exception was supplied.",
            ),
            error: joined3(
                "Manager policy violation: qualified direct report '",
                best_candidate.as_str(),
                "' exists. Record a valid structured exception or delegate.",
            ),
        },
        RejectionCause::RequiredReportPassedOver { required } => ManagerRejection {
            verdict: owned("REJECTED_ROUTE_CONTRACT"),
            reasoning: joined3(
                "Hard-route contract violation. Required subordinate '",
                required.as_str(),
                "' was not delegated and no exception was supplied.",
            ),
            error: owned("Hard-route contract violation: requested subordinate was not delegated."),
        },
        RejectionCause::RouteExcepted { required, code, reason, user_message } => {
            let mut reasoning = joined3("Hard-route exception for '", required.as_str(), "': ");
            reasoning.append(text_or(code, "UNSPECIFIED").as_str());
            reasoning.append(" (");
            reasoning.append(text_or(reason, "").as_str());
            reasoning.append(")");
            proof {
                reveal_strlit("");
            }
            ManagerRejection {
                verdict: owned("ROUTING_EXCEPTION"),
                reasoning,
                error: text_or(user_message, "Requested subordinate is unavailable for hard-routed work."),
            }
        },
        RejectionCause::NoChildWorkOrders => ManagerRejection {
            verdict: owned("REJECTED_MANAGER_POLICY"),
            reasoning: owned(
                "Delegation action returned no immediate child SWOs. Queued narration is not treated as delivery.",
            ),
            error: owned("Delegation action returned no immediate child SWOs."),
        },
        RejectionCause::DelegationLoop { target } => ManagerRejection {
            verdict: owned("REJECTED_MANAGER_POLICY"),
            reasoning: joined3(
                "Delegation loop blocked. '",
                target.as_str(),
                "' is already present in the current SWO lineage.",
            ),
            error: joined3("Delegation loop blocked for agent ", target.as_str(), "."),
        },
    }
}

/// The fit reason recorded with a delegation decision.
pub fn fit_reason(name: &str, score: i32) -> (r: String)
    ensures
        r@ == "Best-fit qualified report: "@ + name@ + " (score "@ + int_text(score as int) + ")."@,
{
    let mut r = owned("Best-fit qualified report: ");
    r.append(name);
    r.append(" (score ");
    r.append(i64_text(score as i64).as_str());
    r.append(").");
    r
}

/// The agent id the work-order loop runs for must be a UUID, so that it
/// cannot lead out of the storage directory.
pub fn hsm_agent_id_check(agent_id: &str) -> (r: Result<(), KernelError>)
    ensures
        r is Ok <==> uuid_parses(agent_id@),
        r matches Err(KernelError::Internal(m)) ==> m@
            == "Invalid agent_id format, potential path traversal detected: "@ + agent_id@,
        r matches Err(e) ==> e is Internal,
{
    if uuid_is_valid(agent_id) {
        Ok(())
    } else {
        Err(KernelError::Internal(concat2("Invalid agent_id format, potential path traversal detected: ", agent_id)))
    }
}

/// The steps a run of rejected reviews leads to: each rejection raises the
/// work order's retry count by one (from `start`), and `revisions[k]` tells
/// whether the k-th rejection came with revision work orders.  The run
/// stops at the first step that is not a revision.
pub open spec fn rejection_run(start: int, revisions: Seq<bool>) -> Seq<RevisionStep>
    decreases revisions.len(),
{
    if revisions.len() == 0 {
        Seq::empty()
    } else {
        let step = revision_step_spec(start + 1, revisions[0]);
        if step == RevisionStep::Revise {
            seq![step] + rejection_run(start + 1, revisions.drop_first())
        } else {
            seq![step]
        }
    }
}

/// A work order fails after at most `MAX_REVIEW_FAILURES` rejected reviews:
/// from a retry count of `start`, every rejection but the last of a run is
/// a revision, at most `MAX_REVIEW_FAILURES - 1 - start` of them come, and
/// a run that reaches the retry budget ends closed as failed.
pub proof fn lemma_rejections_bounded(start: int, revisions: Seq<bool>)
    requires
        0 <= start,
    ensures
        rejection_run(start, revisions).len() <= revisions.len(),
        rejection_run(start, revisions).len() <= (if MAX_REVIEW_FAILURES - start >= 1 {
            MAX_REVIEW_FAILURES - start
        } else {
            1
        }),
        forall|k: int|
            0 <= k < rejection_run(start, revisions).len() - 1 ==> #[trigger] rejection_run(
                start,
                revisions,
            )[k] == RevisionStep::Revise,
        rejection_run(start, revisions).len() > 0 && start + rejection_run(start, revisions).len()
            >= MAX_REVIEW_FAILURES ==> rejection_run(start, revisions).last()
            == RevisionStep::CloseFailed,
    decreases revisions.len(),
{
    if revisions.len() > 0 {
        let step = revision_step_spec(start + 1, revisions[0]);
        if step == RevisionStep::Revise {
            lemma_rejections_bounded(start + 1, revisions.drop_first());
            let rest = rejection_run(start + 1, revisions.drop_first());
            let all = seq![step] + rest;
            assert(rejection_run(start, revisions) == all);
            assert forall|k: int| 0 <= k < all.len() - 1 implies #[trigger] all[k] == RevisionStep::Revise by {
                if k > 0 {
                    assert(all[k] == rest[k - 1]);
                }
            }
            if rest.len() > 0 {
                assert(all.last() == rest.last());
            }
        }
    }
}


/// The members of an object as (key, value) views, in the order given.
pub open spec fn member_views(entries: Seq<(String, serde_json::Value)>) -> Seq<(Seq<char>, JsonView)> {
    entries.map_values(|e: (String, serde_json::Value)| (e.0@, json_view(e.1)))
}

/// The revision work orders a rejecting synthesis dispatches from its
/// `revision_swos` members, in member order: a member whose key resolves to
/// a direct report (as delegation keys do) and whose payload is non-empty
/// text goes to that report; any other member is dropped, so no revision
/// reaches an agent that is not a direct report.
pub open spec fn revision_dispatches_spec(
    members: Seq<(Seq<char>, JsonView)>,
    subs: Seq<SubordinateRef>,
) -> Seq<(Seq<char>, Seq<char>)>
    decreases members.len(),
{
    if members.len() == 0 {
        Seq::empty()
    } else {
        let rest = revision_dispatches_spec(members.drop_last(), subs);
        let (k, v) = members.last();
        match (resolved_target(subs, k), view_str(v)) {
            (Some(t), Some(p)) => if p.len() > 0 {
                rest.push((t, p))
            } else {
                rest
            },
            _ => rest,
        }
    }
}

/// `id` is the id of one of the direct reports `subs`.
pub open spec fn is_report_id(subs: Seq<SubordinateRef>, id: Seq<char>) -> bool {
    exists|j: int| 0 <= j < subs.len() && #[trigger] subs[j].id@ == id
}

proof fn lemma_revision_dispatches_to_reports(
    members: Seq<(Seq<char>, JsonView)>,
    subs: Seq<SubordinateRef>,
)
    ensures
        forall|i: int|
            0 <= i < revision_dispatches_spec(members, subs).len() ==> is_report_id(
                subs,
                #[trigger] revision_dispatches_spec(members, subs)[i].0,
            ),
    decreases members.len(),
{
    if members.len() > 0 {
        let rest = revision_dispatches_spec(members.drop_last(), subs);
        let d = revision_dispatches_spec(members, subs);
        lemma_revision_dispatches_to_reports(members.drop_last(), subs);
        lemma_resolved_target_is_report(subs, members.last().0);
        assert forall|i: int| 0 <= i < d.len() implies is_report_id(subs, #[trigger] d[i].0) by {
            if i < rest.len() {
                assert(d[i] == rest[i]);
                assert(is_report_id(subs, rest[i].0));
            }
        }
    }
}

/// The revision work orders to dispatch from the members of a rejecting
/// synthesis's `revision_swos`, as (target report id, payload).
pub fn revision_dispatches(members: &Vec<(String, serde_json::Value)>, subs: &Vec<SubordinateRef>) -> (r:
    Vec<(String, String)>)
    ensures
        r@.map_values(|d: (String, String)| (d.0@, d.1@)) == revision_dispatches_spec(
            member_views(members@),
            subs@,
        ),
        forall|i: int| 0 <= i < r@.len() ==> is_report_id(subs@, (#[trigger] r@[i]).0@),
{
    let mut r: Vec<(String, String)> = Vec::new();
    let mut i: usize = 0;
    while i < members.len()
        invariant
            i <= members@.len(),
            r@.map_values(|d: (String, String)| (d.0@, d.1@)) == revision_dispatches_spec(
                member_views(members@.subrange(0, i as int)),
                subs@,
            ),
        decreases members.len() - i,
    {
        let ghost prefix = member_views(members@.subrange(0, i as int));
        let ghost next = member_views(members@.subrange(0, i + 1));
        proof {
            assert(next.drop_last() =~= prefix);
            assert(next.last() == (members@[i as int].0@, json_view(members@[i as int].1)));
        }
        let target = resolve_delegation_target(members[i].0.as_str(), subs);
        let payload = json_as_str(&members[i].1);
        match (target, payload) {
            (Some(t), Some(p)) => {
                if p.unicode_len() > 0 {
                    r.push((t, p));
                    proof {
                        assert(r@.map_values(|d: (String, String)| (d.0@, d.1@)) =~= revision_dispatches_spec(
                            prefix,
                            subs@,
                        ).push((r@.last().0@, r@.last().1@)));
                    }
                }
            },
            _ => {},
        }
        i = i + 1;
    }
    proof {
        assert(members@.subrange(0, members@.len() as int) =~= members@);
        lemma_revision_dispatches_to_reports(member_views(members@), subs@);
        assert forall|i: int| 0 <= i < r@.len() implies is_report_id(subs@, (#[trigger] r@[i]).0@) by {
            let d = r@.map_values(|d: (String, String)| (d.0@, d.1@));
            let spec = revision_dispatches_spec(member_views(members@), subs@);
            assert(d[i] == (r@[i].0@, r@[i].1@));
            assert(d[i] == spec[i]);
            assert(is_report_id(subs@, spec[i].0));
        }
    }
    r
}

/// The revision work orders a rejecting synthesis asks for: the members of
/// its `revision_swos` object (none when it is not an object), in key order,
/// narrowed as `revision_dispatches` does.
pub fn revision_dispatches_of(revision_swos: &serde_json::Value, subs: &Vec<SubordinateRef>) -> (r: Vec<
    (String, String),
>)
    ensures
        match json_view(*revision_swos) {
            JsonView::Object(m) => exists|es: Seq<(String, serde_json::Value)>|
                entries_of(es, m) && r@.map_values(|d: (String, String)| (d.0@, d.1@))
                    == revision_dispatches_spec(member_views(es), subs@),
            _ => r@.len() == 0,
        },
        forall|i: int| 0 <= i < r@.len() ==> is_report_id(subs@, (#[trigger] r@[i]).0@),
{
    match json_object_entries(revision_swos) {
        Some(members) => revision_dispatches(&members, subs),
        None => Vec::new(),
    }
}


/// Where a manager's synthesis loop stands.
#[derive(PartialEq, Eq, Structural, Clone, Copy, Debug)]
pub enum SynthesisPhase {
    /// A synthesis pass is running.
    Synthesizing,
    /// A rejection is being counted against the work order's retries.
    CountingRetry,
    /// Revision work orders are out.
    Revising,
    /// The loop has ended.
    Done,
}

/// The synthesis loop's state: its phase and how many synthesis passes
/// have been started.
#[derive(PartialEq, Eq, Structural, Clone, Copy, Debug)]
pub struct SynthesisLoopState {
    pub phase: SynthesisPhase,
    pub passes: u32,
}

/// What the outside world reports to the synthesis loop.
pub enum SynthesisEvent {
    /// A synthesis pass returned its verdict (`ACCEPT_AND_COMPLETE` when it
    /// gave none) and whether it carries a final response.
    Synthesized { raw_action: String, has_final_response: bool },
    /// The rejection was counted: the work order's new retry count (none
    /// when the registry could not raise it), and whether the synthesis
    /// named any revision work orders.
    RetryCounted { attempts: Option<i32>, has_revisions: bool },
    /// The revision work orders have all come back.
    RevisionsDone,
}

/// What the synthesis loop asks the outside world to do next.
#[derive(PartialEq, Eq, Structural, Clone, Copy, Debug)]
pub enum SynthesisAction {
    /// Run another synthesis pass.
    RunSynthesis,
    /// Approval came without a final response: close as failed with an error.
    FailMissingFinalResponse,
    /// The work order completes.
    Complete,
    /// Count the rejection against the work order's retries.
    CountRetry,
    /// The retry budget is spent: escalate and close as failed.
    CloseFailed,
    /// No revision work orders were named: fail the work order.
    Fail,
    /// Dispatch the revision work orders (`revision_dispatches_of`).
    DispatchRevisions,
    /// Every synthesis pass was used without approval: fail the work order.
    GiveUp,
    /// The event does not fit the phase: nothing to do.
    Wait,
}

/// The state right after the loop's first synthesis pass was started.
pub open spec fn synthesis_loop_start() -> SynthesisLoopState {
    SynthesisLoopState { phase: SynthesisPhase::Synthesizing, passes: 1 }
}

/// One step of the synthesis loop.
pub open spec fn synthesis_loop_step_spec(s: SynthesisLoopState, e: SynthesisEvent) -> (
    SynthesisLoopState,
    SynthesisAction,
) {
    let done = SynthesisLoopState { phase: SynthesisPhase::Done, passes: s.passes };
    match e {
        SynthesisEvent::Synthesized { raw_action, has_final_response } => if s.phase
            == SynthesisPhase::Synthesizing {
            match synthesis_step_spec(raw_action@, has_final_response) {
                SynthesisStep::MissingFinalResponse => (done, SynthesisAction::FailMissingFinalResponse),
                SynthesisStep::Complete => (done, SynthesisAction::Complete),
                SynthesisStep::Reject => (
                    SynthesisLoopState { phase: SynthesisPhase::CountingRetry, passes: s.passes },
                    SynthesisAction::CountRetry,
                ),
            }
        } else {
            (s, SynthesisAction::Wait)
        },
        SynthesisEvent::RetryCounted { attempts, has_revisions } => if s.phase
            == SynthesisPhase::CountingRetry {
            let counted = match attempts {
                Some(a) => a as int,
                None => MAX_REVIEW_FAILURES as int,
            };
            match revision_step_spec(counted, has_revisions) {
                RevisionStep::CloseFailed => (done, SynthesisAction::CloseFailed),
                RevisionStep::Fail => (done, SynthesisAction::Fail),
                RevisionStep::Revise => (
                    SynthesisLoopState { phase: SynthesisPhase::Revising, passes: s.passes },
                    SynthesisAction::DispatchRevisions,
                ),
            }
        } else {
            (s, SynthesisAction::Wait)
        },
        SynthesisEvent::RevisionsDone => if s.phase == SynthesisPhase::Revising {
            if s.passes < MAX_REVIEW_FAILURES {
                (
                    SynthesisLoopState { phase: SynthesisPhase::Synthesizing, passes: (s.passes + 1) as u32 },
                    SynthesisAction::RunSynthesis,
                )
            } else {
                (done, SynthesisAction::GiveUp)
            }
        } else {
            (s, SynthesisAction::Wait)
        },
    }
}

/// The first state of a manager's synthesis loop, once its first pass has
/// been started.
pub fn synthesis_loop_start_state() -> (r: SynthesisLoopState)
    ensures
        r == synthesis_loop_start(),
{
    SynthesisLoopState { phase: SynthesisPhase::Synthesizing, passes: 1 }
}

/// One step of a manager's synthesis loop: what the loop does with an
/// event, and the state it moves to.
pub fn synthesis_loop_step(s: SynthesisLoopState, e: &SynthesisEvent) -> (r: (
    SynthesisLoopState,
    SynthesisAction,
))
    ensures
        r == synthesis_loop_step_spec(s, *e),
{
    let done = SynthesisLoopState { phase: SynthesisPhase::Done, passes: s.passes };
    match e {
        SynthesisEvent::Synthesized { raw_action, has_final_response } => {
            if s.phase == SynthesisPhase::Synthesizing {
                match synthesis_step(raw_action.as_str(), *has_final_response) {
                    SynthesisStep::MissingFinalResponse => (done, SynthesisAction::FailMissingFinalResponse),
                    SynthesisStep::Complete => (done, SynthesisAction::Complete),
                    SynthesisStep::Reject => (
                        SynthesisLoopState { phase: SynthesisPhase::CountingRetry, passes: s.passes },
                        SynthesisAction::CountRetry,
                    ),
                }
            } else {
                (s, SynthesisAction::Wait)
            }
        },
        SynthesisEvent::RetryCounted { attempts, has_revisions } => {
            if s.phase == SynthesisPhase::CountingRetry {
                let counted = match attempts {
                    Some(a) => *a,
                    None => MAX_REVIEW_FAILURES,
                };
                match revision_step(counted, *has_revisions) {
                    RevisionStep::CloseFailed => (done, SynthesisAction::CloseFailed),
                    RevisionStep::Fail => (done, SynthesisAction::Fail),
                    RevisionStep::Revise => (
                        SynthesisLoopState { phase: SynthesisPhase::Revising, passes: s.passes },
                        SynthesisAction::DispatchRevisions,
                    ),
                }
            } else {
                (s, SynthesisAction::Wait)
            }
        },
        SynthesisEvent::RevisionsDone => {
            if s.phase == SynthesisPhase::Revising {
                if s.passes < MAX_REVIEW_FAILURES as u32 {
                    (
                        SynthesisLoopState { phase: SynthesisPhase::Synthesizing, passes: s.passes + 1 },
                        SynthesisAction::RunSynthesis,
                    )
                } else {
                    (done, SynthesisAction::GiveUp)
                }
            } else {
                (s, SynthesisAction::Wait)
            }
        },
    }
}

/// The state and the actions a run of events leads to from `s`.
pub open spec fn synthesis_loop_run(s: SynthesisLoopState, events: Seq<SynthesisEvent>) -> (
    SynthesisLoopState,
    Seq<SynthesisAction>,
)
    decreases events.len(),
{
    if events.len() == 0 {
        (s, Seq::empty())
    } else {
        let (before, acts) = synthesis_loop_run(s, events.drop_last());
        let (after, a) = synthesis_loop_step_spec(before, events.last());
        (after, acts.push(a))
    }
}

/// How many of `acts` start a synthesis pass.
pub open spec fn synthesis_passes_started(acts: Seq<SynthesisAction>) -> nat
    decreases acts.len(),
{
    if acts.len() == 0 {
        0
    } else {
        synthesis_passes_started(acts.drop_last()) + if acts.last() == SynthesisAction::RunSynthesis {
            1nat
        } else {
            0nat
        }
    }
}

/// A terminal action: the work order completes or fails.
pub open spec fn ends_loop(a: SynthesisAction) -> bool {
    a == SynthesisAction::FailMissingFinalResponse || a == SynthesisAction::Complete || a
        == SynthesisAction::CloseFailed || a == SynthesisAction::Fail || a == SynthesisAction::GiveUp
}

/// What holds of a run of the synthesis loop from its start: the passes
/// started, the first one included, number at most `MAX_REVIEW_FAILURES`;
/// the loop has ended exactly when a terminal action came; and after a
/// terminal action every event is answered with `Wait`.
pub open spec fn synthesis_run_ok(s: SynthesisLoopState, acts: Seq<SynthesisAction>) -> bool {
    &&& 1 <= s.passes <= MAX_REVIEW_FAILURES
    &&& s.passes == 1 + synthesis_passes_started(acts)
    &&& (s.phase == SynthesisPhase::Done <==> exists|k: int|
        0 <= k < acts.len() && ends_loop(#[trigger] acts[k]))
    &&& forall|k: int, j: int|
        0 <= k < j < acts.len() && ends_loop(#[trigger] acts[k]) ==> #[trigger] acts[j]
            == SynthesisAction::Wait
}

/// A manager's synthesis loop, whatever the synthesis passes, retry counts
/// and revisions report, starts at most `MAX_REVIEW_FAILURES` synthesis
/// passes (the first included), and once it has completed or failed the
/// work order it does nothing more.
pub proof fn lemma_synthesis_loop_bounded(events: Seq<SynthesisEvent>)
    ensures
        synthesis_run_ok(
            synthesis_loop_run(synthesis_loop_start(), events).0,
            synthesis_loop_run(synthesis_loop_start(), events).1,
        ),
    decreases events.len(),
{
    if events.len() > 0 {
        lemma_synthesis_loop_bounded(events.drop_last());
        let (before, acts) = synthesis_loop_run(synthesis_loop_start(), events.drop_last());
        let (after, a) = synthesis_loop_step_spec(before, events.last());
        let all = acts.push(a);
        assert(synthesis_loop_run(synthesis_loop_start(), events) == (after, all));
        assert(all.drop_last() =~= acts);
        assert forall|k: int| 0 <= k < acts.len() implies #[trigger] all[k] == acts[k] by {}
        if before.phase == SynthesisPhase::Done {
            assert(a == SynthesisAction::Wait && after == before);
            let k0 = choose|k: int| 0 <= k < acts.len() && ends_loop(#[trigger] acts[k]);
            assert(all[k0] == acts[k0]);
        } else {
            assert(after.phase == SynthesisPhase::Done <==> ends_loop(a));
            assert forall|k: int| 0 <= k < all.len() && ends_loop(#[trigger] all[k]) implies k
                == acts.len() by {
                if k < acts.len() {
                    assert(all[k] == acts[k]);
                }
            }
            if ends_loop(a) {
                assert(ends_loop(all[acts.len() as int]));
            }
        }
        assert forall|k: int, j: int|
            0 <= k < j < all.len() && ends_loop(#[trigger] all[k]) implies #[trigger] all[j]
            == SynthesisAction::Wait by {
            assert(all[k] == acts[k]);
            if j < acts.len() {
                assert(all[j] == acts[j]);
            } else {
                assert(before.phase == SynthesisPhase::Done);
            }
        }
    }
}

/// A rejection counted at or past the retry budget closes the work order
/// as failed, whether or not revision work orders were named.
pub proof fn lemma_retry_budget_closes(s: SynthesisLoopState, attempts: i32, has_revisions: bool)
    requires
        s.phase == SynthesisPhase::CountingRetry,
        attempts >= MAX_REVIEW_FAILURES,
    ensures
        synthesis_loop_step_spec(
            s,
            SynthesisEvent::RetryCounted { attempts: Some(attempts), has_revisions },
        ).1 == SynthesisAction::CloseFailed,
{
}


/// A child result carrying a synthesis verdict is held back from its
/// manager's synthesis only when the verdict is `REJECT_AND_REVISE` and the
/// result is not a closed failure: accepted results (continued ones
/// included) and verdicts the kernel does not know all go up.
pub proof fn lemma_only_rejected_synthesis_is_held_back(v: JsonView, a: Seq<char>)
    requires
        synthesis_action_of(v) == Some(a),
    ensures
        reportable_upward(v) <==> (a != "REJECT_AND_REVISE"@ || view_str(
            view_field(v, "terminal_status"@),
        ) == Some("CLOSED_FAILED"@)),
{
    reveal_strlit("ACCEPT_AND_COMPLETE");
    reveal_strlit("APPROVE_AND_REPLY");
    reveal_strlit("ACCEPT_AND_CONTINUE");
    reveal_strlit("REJECT_AND_REVISE");
    reveal_strlit("accept_complete");
    reveal_strlit("accept_continue");
    reveal_strlit("reject");
    assert("REJECT_AND_REVISE"@ != "ACCEPT_AND_COMPLETE"@) by {
        assert("REJECT_AND_REVISE"@[0] != "ACCEPT_AND_COMPLETE"@[0]);
    }
    assert("REJECT_AND_REVISE"@ != "APPROVE_AND_REPLY"@) by {
        assert("REJECT_AND_REVISE"@[0] != "APPROVE_AND_REPLY"@[0]);
    }
    assert("REJECT_AND_REVISE"@ != "ACCEPT_AND_CONTINUE"@) by {
        assert("REJECT_AND_REVISE"@[0] != "ACCEPT_AND_CONTINUE"@[0]);
    }
    assert("accept_complete"@ != "reject"@) by {
        assert("accept_complete"@[0] != "reject"@[0]);
    }
    assert("accept_continue"@ != "reject"@) by {
        assert("accept_continue"@[0] != "reject"@[0]);
    }
}

/// A word that marks a request as cross-functional synthesis.
pub open spec fn is_cross_function_word(w: Seq<char>) -> bool {
    w == "synthesize"@ || w == "strategy"@ || w == "strategic"@ || w == "coordinate"@ || w
        == "coordination"@ || w == "review"@ || w == "plan"@ || w == "planning"@ || w
        == "alignment"@
}

/// The synthesis keywords are exactly synthesize, strategy, strategic,
/// coordinate, coordination, review, plan, planning and alignment; a manager
/// that must delegate executes a request naming any of them itself,
/// whatever its team and exception say.
pub proof fn lemma_cross_function_requests_self_execute(
    kws: Seq<String>,
    i: int,
    has_qualified_candidate: bool,
    exception_code: Option<Seq<char>>,
    w: Seq<char>,
)
    ensures
        synthesis_keywords().contains(w) <==> is_cross_function_word(w),
        0 <= i < kws.len() && is_cross_function_word(kws[i]@) ==> self_execution_decision_spec(
            has_qualified_candidate,
            exists|j: int| 0 <= j < kws.len() && synthesis_keywords().contains(#[trigger] kws[j]@),
            exception_code,
        ) == DelegationDecision::SelfExecute,
{
    let ks = synthesis_keywords();
    assert(ks[0] == "synthesize"@ && ks[1] == "strategy"@ && ks[2] == "strategic"@ && ks[3]
        == "coordinate"@ && ks[4] == "coordination"@ && ks[5] == "review"@ && ks[6] == "plan"@
        && ks[7] == "planning"@ && ks[8] == "alignment"@ && ks.len() == 9);
    if is_cross_function_word(w) {
        if w == "synthesize"@ {
            assert(ks[0] == w);
        } else if w == "strategy"@ {
            assert(ks[1] == w);
        } else if w == "strategic"@ {
            assert(ks[2] == w);
        } else if w == "coordinate"@ {
            assert(ks[3] == w);
        } else if w == "coordination"@ {
            assert(ks[4] == w);
        } else if w == "review"@ {
            assert(ks[5] == w);
        } else if w == "plan"@ {
            assert(ks[6] == w);
        } else if w == "planning"@ {
            assert(ks[7] == w);
        } else {
            assert(ks[8] == w);
        }
    }
    if 0 <= i < kws.len() && is_cross_function_word(kws[i]@) {
        let x = kws[i]@;
        if x == "synthesize"@ {
            assert(ks[0] == x);
        } else if x == "strategy"@ {
            assert(ks[1] == x);
        } else if x == "strategic"@ {
            assert(ks[2] == x);
        } else if x == "coordinate"@ {
            assert(ks[3] == x);
        } else if x == "coordination"@ {
            assert(ks[4] == x);
        } else if x == "review"@ {
            assert(ks[5] == x);
        } else if x == "plan"@ {
            assert(ks[6] == x);
        } else if x == "planning"@ {
            assert(ks[7] == x);
        } else {
            assert(ks[8] == x);
        }
        assert(synthesis_keywords().contains(kws[i]@));
    }
}

} // verus!
