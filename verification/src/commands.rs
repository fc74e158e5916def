//! Checks the workspace applies to operator commands before it acts on
//! them: work-order submissions, review decisions, revision requests and
//! runtime commands.

use vstd::prelude::*;
use crate::json::{
    JsonView, has_member, json_array_items, json_as_str, json_field, json_has_key, json_parse,
    json_parse_result, json_view, view_field, view_str,
};
use crate::text::{
    chars_of, i64_text, int_text, join, join_strings, owned, str_equals, to_lowercase,
    to_uppercase, trim, trim_str, unicode_lowercase, unicode_uppercase,
};
use crate::workspace::{lemma_utf8_len_push, utf8_len};

verus! {

/// Whether a text is a UUID as `Uuid::parse_str` accepts it.
pub uninterp spec fn uuid_parses(s: Seq<char>) -> bool;

/// Wrapper of `Uuid::parse_str`: whether the text parses as a UUID.  The
/// accepted forms are the uuid crate's and are not restated.
#[verifier::external_body]
pub(crate) fn uuid_is_valid(s: &str) -> (r: bool)
    ensures
        r == uuid_parses(s@),
{
    uuid::Uuid::parse_str(s).is_ok()
}

/// An agent id the workspace accepts: `SYSTEM` or a UUID.
pub fn validate_agent_id(agent_id: &str) -> (r: Result<(), String>)
    ensures
        r is Ok <==> (agent_id@ == "SYSTEM"@ || uuid_parses(agent_id@)),
        r matches Err(e) ==> e@ == "agent_id must be SYSTEM or a valid UUID."@,
{
    if str_equals(agent_id, "SYSTEM") {
        return Ok(());
    }
    if uuid_is_valid(agent_id) {
        Ok(())
    } else {
        Err(owned("agent_id must be SYSTEM or a valid UUID."))
    }
}

/// Longest command id, in bytes.
pub const MAX_COMMAND_ID_BYTES: usize = 128;

pub open spec fn command_id_char(c: char) -> bool {
    ('a' <= c && c <= 'z') || ('A' <= c && c <= 'Z') || ('0' <= c && c <= '9') || c == '-' || c
        == '_'
}

/// A command id: non-empty, at most 128 bytes of ASCII letters, digits, `-`
/// and `_`.
pub open spec fn command_id_ok(id: Seq<char>) -> bool {
    &&& id.len() > 0
    &&& utf8_len(id) <= MAX_COMMAND_ID_BYTES
    &&& forall|i: int| 0 <= i < id.len() ==> command_id_char(#[trigger] id[i])
}

/// Checks a runtime command's id before it is deduplicated.
pub fn validate_command_id(command_id: &str) -> (r: Result<(), String>)
    ensures
        r is Ok <==> command_id_ok(command_id@),
        r matches Err(e) ==> e@ == "commandId '"@ + command_id@ + "' is invalid"@,
{
    let v = chars_of(command_id);
    let mut ok = v.len() > 0 && command_id.as_bytes().len() <= MAX_COMMAND_ID_BYTES;
    let mut i: usize = 0;
    while i < v.len()
        invariant
            i <= v.len(),
            v@ == command_id@,
            ok == (command_id@.len() > 0 && utf8_len(command_id@) <= MAX_COMMAND_ID_BYTES
                && forall|j: int| 0 <= j < i ==> command_id_char(#[trigger] command_id@[j])),
        decreases v.len() - i,
    {
        let c = v[i];
        let good = ('a' <= c && c <= 'z') || ('A' <= c && c <= 'Z') || ('0' <= c && c <= '9') || c
            == '-' || c == '_';
        if !good {
            ok = false;
        }
        i = i + 1;
    }
    if ok {
        Ok(())
    } else {
        let mut m = owned("commandId '");
        m.append(command_id);
        m.append("' is invalid");
        Err(m)
    }
}

/// A work order as the operator submitted it, checked and trimmed.
pub struct WorkOrderSubmission {
    pub title: String,
    pub outcome: String,
    pub constraints: Option<String>,
    pub priority_class: String,
    pub project_id: Option<String>,
}

pub open spec fn trimmed_nonblank(v: Option<Seq<char>>) -> Option<Seq<char>> {
    match v {
        Some(s) => if trim(s).len() > 0 {
            Some(trim(s))
        } else {
            None
        },
        None => None,
    }
}

pub open spec fn opt_string_view(o: Option<String>) -> Option<Seq<char>> {
    match o {
        Some(s) => Some(s@),
        None => None,
    }
}

fn trimmed_nonblank_exec(v: Option<&str>) -> (r: Option<String>)
    ensures
        opt_string_view(r) == trimmed_nonblank(crate::orchestrator::opt_view(v)),
{
    match v {
        Some(s) => {
            let t = trim_str(s);
            if t.unicode_len() > 0 {
                Some(t)
            } else {
                None
            }
        },
        None => None,
    }
}

/// Checks a work-order submission: title and outcome are required; the
/// priority is uppercased and defaults to `CORE`; blank constraints and
/// project ids count as absent.
pub fn validate_work_order_submission(
    title: &str,
    outcome: &str,
    constraints: Option<&str>,
    priority: &str,
    project_id: Option<&str>,
) -> (r: Result<WorkOrderSubmission, String>)
    ensures
        (trim(title@).len() == 0 || trim(outcome@).len() == 0) <==> r is Err,
        r matches Err(e) ==> e@ == "Title and requested outcome are required."@,
        r matches Ok(w) ==> {
            &&& w.title@ == trim(title@)
            &&& w.outcome@ == trim(outcome@)
            &&& opt_string_view(w.constraints) == trimmed_nonblank(
                crate::orchestrator::opt_view(constraints),
            )
            &&& w.priority_class@ == (if trim(priority@).len() == 0 {
                "CORE"@
            } else {
                unicode_uppercase(trim(priority@))
            })
            &&& opt_string_view(w.project_id) == trimmed_nonblank(
                crate::orchestrator::opt_view(project_id),
            )
        },
{
    let t = trim_str(title);
    let o = trim_str(outcome);
    if t.unicode_len() == 0 || o.unicode_len() == 0 {
        return Err(owned("Title and requested outcome are required."));
    }
    let tp = trim_str(priority);
    let priority_class = if tp.unicode_len() == 0 {
        owned("CORE")
    } else {
        to_uppercase(tp.as_str())
    };
    Ok(
        WorkOrderSubmission {
            title: t,
            outcome: o,
            constraints: trimmed_nonblank_exec(constraints),
            priority_class,
            project_id: trimmed_nonblank_exec(project_id),
        },
    )
}

/// A work order's statuses after which no decision can be taken.
pub open spec fn is_terminal_status(status: Seq<char>) -> bool {
    status == "COMPLETED"@ || status == "FAILED"@ || status == "CANCELLED"@
}

/// A review decision the operator may take.
pub enum ReviewDecision {
    Approve,
    Reject,
    Revise,
}

impl ReviewDecision {
    /// The review recorded and the status a work order moves to.
    pub open spec fn outcome(self) -> (Seq<char>, Seq<char>) {
        match self {
            ReviewDecision::Approve => ("APPROVE_AND_REPLY"@, "COMPLETED"@),
            ReviewDecision::Reject => ("CLOSED_FAILED"@, "FAILED"@),
            ReviewDecision::Revise => ("REJECTED_ROUTE_CONTRACT"@, "FAILED"@),
        }
    }

    /// The review action recorded for this decision.
    pub fn review_action(&self) -> (r: &'static str)
        ensures
            r@ == self.outcome().0,
    {
        match self {
            ReviewDecision::Approve => "APPROVE_AND_REPLY",
            ReviewDecision::Reject => "CLOSED_FAILED",
            ReviewDecision::Revise => "REJECTED_ROUTE_CONTRACT",
        }
    }

    /// The status a work order moves to under this decision.
    pub fn next_status(&self) -> (r: &'static str)
        ensures
            r@ == self.outcome().1,
    {
        match self {
            ReviewDecision::Approve => "COMPLETED",
            ReviewDecision::Reject => "FAILED",
            ReviewDecision::Revise => "FAILED",
        }
    }
}

pub open spec fn decision_named(name: Seq<char>) -> Option<ReviewDecision> {
    let d = unicode_lowercase(trim(name));
    if d == "approve"@ {
        Some(ReviewDecision::Approve)
    } else if d == "reject"@ {
        Some(ReviewDecision::Reject)
    } else if d == "revise"@ {
        Some(ReviewDecision::Revise)
    } else {
        None
    }
}

/// Checks a review decision command: a known decision, and command
/// metadata with a command id, a correlation id and a source.
pub fn parse_review_decision(
    decision: &str,
    command_id: &str,
    correlation_id: &str,
    source: &str,
) -> (r: Result<ReviewDecision, String>)
    ensures
        decision_named(decision@) is None ==> (r matches Err(e) && e@
            == "Decision must be approve, reject, or revise."@),
        decision_named(decision@) is Some && (trim(command_id@).len() == 0 || trim(
            correlation_id@,
        ).len() == 0 || trim(source@).len() == 0) ==> (r matches Err(e) && e@
            == "Command metadata requires commandId, correlationId, and source."@),
        decision_named(decision@) is Some && trim(command_id@).len() > 0 && trim(
            correlation_id@,
        ).len() > 0 && trim(source@).len() > 0 ==> r == Ok::<ReviewDecision, String>(
            decision_named(decision@)->0,
        ),
{
    let d = to_lowercase(trim_str(decision).as_str());
    let parsed = if str_equals(d.as_str(), "approve") {
        ReviewDecision::Approve
    } else if str_equals(d.as_str(), "reject") {
        ReviewDecision::Reject
    } else if str_equals(d.as_str(), "revise") {
        ReviewDecision::Revise
    } else {
        return Err(owned("Decision must be approve, reject, or revise."));
    };
    if trim_str(command_id).unicode_len() == 0 || trim_str(correlation_id).unicode_len() == 0
        || trim_str(source).unicode_len() == 0 {
        return Err(owned("Command metadata requires commandId, correlationId, and source."));
    }
    Ok(parsed)
}

/// Checks that a decision may be taken on a work order in `status` with the
/// given reasoning; the trimmed reasoning is what gets recorded.
pub fn check_review_applicable(swo_id: i64, status: &str, reasoning: &str) -> (r: Result<
    String,
    String,
>)
    ensures
        is_terminal_status(status@) ==> (r matches Err(e) && e@ == "SWO "@ + int_text(
            swo_id as int,
        ) + " is already terminal with status "@ + status@ + "."@),
        !is_terminal_status(status@) && trim(reasoning@).len() == 0 ==> (r matches Err(e) && e@
            == "Review reasoning is required."@),
        !is_terminal_status(status@) && trim(reasoning@).len() > 0 ==> (r matches Ok(t) && t@
            == trim(reasoning@)),
{
    if str_equals(status, "COMPLETED") || str_equals(status, "FAILED") || str_equals(
        status,
        "CANCELLED",
    ) {
        let mut m = owned("SWO ");
        m.append(i64_text(swo_id).as_str());
        m.append(" is already terminal with status ");
        m.append(status);
        m.append(".");
        return Err(m);
    }
    let t = trim_str(reasoning);
    if t.unicode_len() == 0 {
        return Err(owned("Review reasoning is required."));
    }
    Ok(t)
}

/// Checks a revision request: the feedback (trimmed) is required, and only
/// a completed work order can be revised.
pub fn check_revision_request(swo_id: i64, status: &str, feedback: &str) -> (r: Result<
    String,
    String,
>)
    ensures
        trim(feedback@).len() == 0 ==> (r matches Err(e) && e@
            == "Revision feedback is required."@),
        trim(feedback@).len() > 0 && status@ != "COMPLETED"@ ==> (r matches Err(e) && e@ == "SWO "@
            + int_text(swo_id as int) + " must be COMPLETED to request a revision (current status: "@
            + status@ + ")."@),
        trim(feedback@).len() > 0 && status@ == "COMPLETED"@ ==> (r matches Ok(t) && t@ == trim(
            feedback@,
        )),
{
    let f = trim_str(feedback);
    if f.unicode_len() == 0 {
        return Err(owned("Revision feedback is required."));
    }
    if !str_equals(status, "COMPLETED") {
        let mut m = owned("SWO ");
        m.append(i64_text(swo_id).as_str());
        m.append(" must be COMPLETED to request a revision (current status: ");
        m.append(status);
        m.append(").");
        return Err(m);
    }
    Ok(f)
}

/// Longest deliverable summary on an inbox card, in bytes.
pub const INBOX_SUMMARY_MAX_BYTES: usize = 500;

/// The summary on an inbox card: the response, or, past 500 bytes, its
/// first 497 bytes and `...`.
pub open spec fn inbox_summary(response: Seq<char>, cut: int) -> Seq<char> {
    if utf8_len(response) > INBOX_SUMMARY_MAX_BYTES {
        response.take(cut) + "..."@
    } else {
        response
    }
}

/// The inbox card summary of a deliverable.  The response is cut at byte
/// 497, which must fall between two characters.
pub fn inbox_card_summary(response: &str) -> (r: String)
    requires
        utf8_len(response@) > INBOX_SUMMARY_MAX_BYTES ==> exists|k: int|
            0 <= k <= response@.len() && utf8_len(#[trigger] response@.take(k)) == 497,
    ensures
        utf8_len(response@) > INBOX_SUMMARY_MAX_BYTES ==> exists|k: int|
            0 <= k <= response@.len() && utf8_len(#[trigger] response@.take(k)) == 497 && r@
                == response@.take(k) + "..."@,
        utf8_len(response@) <= INBOX_SUMMARY_MAX_BYTES ==> r@ == response@,
{
    if response.as_bytes().len() <= 500 {
        return owned(response);
    }
    let v = chars_of(response);
    let mut k: usize = 0;
    let mut used: usize = 0;
    assert(response@.take(0) =~= Seq::<char>::empty());
    assert(vstd::utf8::encode_utf8(Seq::<char>::empty()) =~= Seq::<u8>::empty());
    while used < 497 && k < v.len()
        invariant
            k <= v.len(),
            v@ == response@,
            used == utf8_len(response@.take(k as int)),
            used <= 500,
            k > 0 ==> utf8_len(response@.take(k - 1)) < 497,
            exists|j: int| 0 <= j <= response@.len() && utf8_len(#[trigger] response@.take(j)) == 497,
            forall|j: int| 0 <= j < k ==> utf8_len(#[trigger] response@.take(j)) < 497,
        decreases v.len() - k,
    {
        proof {
            assert(response@.take(k + 1) =~= response@.take(k as int).push(response@[k as int]));
            lemma_utf8_len_push(response@.take(k as int), response@[k as int]);
        }
        let c = v[k];
        let w: usize = if (c as u32) < 0x80 {
            1
        } else if (c as u32) < 0x800 {
            2
        } else if (c as u32) < 0x10000 {
            3
        } else {
            4
        };
        used = used + w;
        k = k + 1;
    }
    proof {
        let j = choose|j: int| 0 <= j <= response@.len() && utf8_len(#[trigger] response@.take(j)) == 497;
        if used < 497 {
            assert(k == v.len());
            lemma_take_len_monotone(response@, j, k as int);
        } else if used > 497 {
            if j < k {
                assert(utf8_len(response@.take(j)) < 497);
            } else {
                lemma_take_len_monotone(response@, k as int, j);
            }
        }
        assert(used == 497);
    }
    let head = crate::text::slice_vec(&v, 0, k);
    let mut r = crate::text::string_of(&head);
    r.append("...");
    assert(head@ =~= response@.take(k as int));
    r
}

proof fn lemma_take_len_monotone(s: Seq<char>, a: int, b: int)
    requires
        0 <= a <= b <= s.len(),
    ensures
        utf8_len(s.take(a)) <= utf8_len(s.take(b)),
    decreases b - a,
{
    if a < b {
        assert(s.take(b) =~= s.take(b - 1).push(s[b - 1]));
        lemma_utf8_len_push(s.take(b - 1), s[b - 1]);
        lemma_take_len_monotone(s, a, b - 1);
    }
}

/// The last review response that is not blank.
pub open spec fn last_nonblank_review(rs: Seq<Option<String>>) -> Option<Seq<char>>
    decreases rs.len(),
{
    if rs.len() == 0 {
        None
    } else {
        match rs.last() {
            Some(r) => if trim(r@).len() > 0 {
                Some(r@)
            } else {
                last_nonblank_review(rs.drop_last())
            },
            None => last_nonblank_review(rs.drop_last()),
        }
    }
}

/// A string member that is not blank.
pub open spec fn nonblank_text(v: JsonView) -> Option<Seq<char>> {
    match view_str(v) {
        Some(s) => if trim(s).len() > 0 {
            Some(s)
        } else {
            None
        },
        None => None,
    }
}

pub open spec fn text_or_empty(v: JsonView) -> Seq<char> {
    match view_str(v) {
        Some(s) => s,
        None => Seq::empty(),
    }
}

/// What a triage decided and why, when it left no answer: the action, the
/// reasoning, the exception and the message, each when present.
pub open spec fn triage_summary(v: JsonView) -> Option<Seq<char>> {
    let t = view_field(v, "triage"@);
    let action = text_or_empty(view_field(t, "action"@));
    let reasoning = trim(text_or_empty(view_field(t, "reasoning"@)));
    let exception = trim(text_or_empty(view_field(t, "exception_reason"@)));
    let message = trim(text_or_empty(view_field(t, "user_message"@)));
    if reasoning.len() > 0 || exception.len() > 0 || message.len() > 0 {
        let parts = (if action.len() > 0 {
            seq!["_Agent decided: **"@ + action + "**_"@]
        } else {
            Seq::empty()
        }) + (if reasoning.len() > 0 {
            seq!["**Reasoning:** "@ + reasoning]
        } else {
            Seq::empty()
        }) + (if exception.len() > 0 {
            seq!["**Exception:** "@ + exception]
        } else {
            Seq::empty()
        }) + (if message.len() > 0 {
            seq!["**Message:** "@ + message]
        } else {
            Seq::empty()
        });
        Some(join(parts, "\n\n"@))
    } else {
        None
    }
}

/// The deliverable text a stored worker result carries.
pub open spec fn result_response(v: JsonView) -> Option<Seq<char>> {
    match nonblank_text(view_field(view_field(v, "triage"@), "direct_answer"@)) {
        Some(s) => Some(s),
        None => match nonblank_text(view_field(view_field(v, "synthesis"@), "final_response"@)) {
            Some(s) => Some(s),
            None => match nonblank_text(view_field(v, "direct_answer"@)) {
                Some(s) => Some(s),
                None => match nonblank_text(view_field(v, "response"@)) {
                    Some(s) => Some(s),
                    None => match nonblank_text(view_field(v, "content"@)) {
                        Some(s) => Some(s),
                        None => match nonblank_text(view_field(v, "reply"@)) {
                            Some(s) => Some(s),
                            None => triage_summary(v),
                        },
                    },
                },
            },
        },
    }
}

/// The response a work order shows: the latest non-blank review response,
/// else what its latest stored result carries.
pub open spec fn review_response_spec(
    final_responses: Seq<Option<String>>,
    last_result_json: Option<Seq<char>>,
) -> Option<Seq<char>> {
    match last_nonblank_review(final_responses) {
        Some(r) => Some(r),
        None => match last_result_json {
            Some(j) => match json_parse_result(j) {
                Some(v) => result_response(v),
                None => None,
            },
            None => None,
        },
    }
}

fn nonblank_member(v: &serde_json::Value, key: &str) -> (r: Option<String>)
    ensures
        opt_string_view(r) == nonblank_text(view_field(json_view(*v), key@)),
{
    match json_as_str(&json_field(v, key)) {
        Some(s) => if trim_str(s.as_str()).unicode_len() > 0 {
            Some(s)
        } else {
            None
        },
        None => None,
    }
}

fn member_text(v: &serde_json::Value, key: &str) -> (r: String)
    ensures
        r@ == text_or_empty(view_field(json_view(*v), key@)),
{
    match json_as_str(&json_field(v, key)) {
        Some(s) => s,
        None => String::new(),
    }
}

fn triage_summary_exec(v: &serde_json::Value) -> (r: Option<String>)
    ensures
        opt_string_view(r) == triage_summary(json_view(*v)),
{
    let t = json_field(v, "triage");
    let action = member_text(&t, "action");
    let reasoning = trim_str(member_text(&t, "reasoning").as_str());
    let exception = trim_str(member_text(&t, "exception_reason").as_str());
    let message = trim_str(member_text(&t, "user_message").as_str());
    if reasoning.unicode_len() == 0 && exception.unicode_len() == 0 && message.unicode_len() == 0 {
        return None;
    }
    let mut parts: Vec<String> = Vec::new();
    let ghost mut expect: Seq<Seq<char>> = Seq::empty();
    if action.unicode_len() > 0 {
        let mut p = owned("_Agent decided: **");
        p.append(action.as_str());
        p.append("**_");
        parts.push(p);
    }
    let ghost p1 = parts.deep_view();
    assert(p1 =~= (if action@.len() > 0 {
        seq!["_Agent decided: **"@ + action@ + "**_"@]
    } else {
        Seq::<Seq<char>>::empty()
    }));
    if reasoning.unicode_len() > 0 {
        let mut p = owned("**Reasoning:** ");
        p.append(reasoning.as_str());
        parts.push(p);
    }
    let ghost p2 = parts.deep_view();
    assert(p2 =~= p1 + (if reasoning@.len() > 0 {
        seq!["**Reasoning:** "@ + reasoning@]
    } else {
        Seq::<Seq<char>>::empty()
    }));
    if exception.unicode_len() > 0 {
        let mut p = owned("**Exception:** ");
        p.append(exception.as_str());
        parts.push(p);
    }
    let ghost p3 = parts.deep_view();
    assert(p3 =~= p2 + (if exception@.len() > 0 {
        seq!["**Exception:** "@ + exception@]
    } else {
        Seq::<Seq<char>>::empty()
    }));
    if message.unicode_len() > 0 {
        let mut p = owned("**Message:** ");
        p.append(message.as_str());
        parts.push(p);
    }
    assert(parts.deep_view() =~= p3 + (if message@.len() > 0 {
        seq!["**Message:** "@ + message@]
    } else {
        Seq::<Seq<char>>::empty()
    }));
    Some(join_strings(&parts, "\n\n"))
}

/// The response a work order shows: the latest review response that is not
/// blank; else the deliverable in its latest stored result (a triage's
/// direct answer, a synthesis's final response, a flat answer, response,
/// content or reply, or a summary of what the triage decided).
pub fn review_response(final_responses: &Vec<Option<String>>, last_result_json: Option<&str>) -> (r:
    Option<String>)
    ensures
        opt_string_view(r) == review_response_spec(
            final_responses@,
            crate::orchestrator::opt_view(last_result_json),
        ),
{
    let mut n: usize = final_responses.len();
    let ghost all = final_responses@;
    assert(all.take(n as int) =~= all);
    while n > 0
        invariant
            n <= final_responses.len(),
            final_responses@ == all,
            last_nonblank_review(all) == last_nonblank_review(all.take(n as int)),
        decreases n,
    {
        proof {
            assert(all.take(n as int).drop_last() =~= all.take(n - 1));
            assert(all.take(n as int).last() == all[n - 1]);
        }
        match &final_responses[n - 1] {
            Some(resp) => {
                if trim_str(resp.as_str()).unicode_len() > 0 {
                    return Some(owned(resp.as_str()));
                }
            },
            None => {},
        }
        n = n - 1;
    }
    assert(all.take(0) =~= Seq::<Option<String>>::empty());
    let text = match last_result_json {
        Some(t) => t,
        None => return None,
    };
    let v = match json_parse(text) {
        Some(v) => v,
        None => return None,
    };
    let triage = json_field(&v, "triage");
    if let Some(s) = nonblank_member(&triage, "direct_answer") {
        return Some(s);
    }
    let synthesis = json_field(&v, "synthesis");
    if let Some(s) = nonblank_member(&synthesis, "final_response") {
        return Some(s);
    }
    if let Some(s) = nonblank_member(&v, "direct_answer") {
        return Some(s);
    }
    if let Some(s) = nonblank_member(&v, "response") {
        return Some(s);
    }
    if let Some(s) = nonblank_member(&v, "content") {
        return Some(s);
    }
    if let Some(s) = nonblank_member(&v, "reply") {
        return Some(s);
    }
    triage_summary_exec(&v)
}

/// A `project.create` runtime command, read from its payload.
pub struct ProjectCreateCommand {
    pub name: String,
    pub summary: Option<String>,
    pub owner: String,
    pub priority: String,
    pub target_outcome: Option<String>,
    pub tags: Vec<String>,
}

/// The texts of the string items, in order (other items are skipped).
pub open spec fn string_texts(items: Seq<JsonView>) -> Seq<Seq<char>>
    decreases items.len(),
{
    if items.len() == 0 {
        Seq::empty()
    } else {
        let prev = string_texts(items.drop_last());
        match items.last() {
            JsonView::Str(s) => prev.push(s),
            _ => prev,
        }
    }
}

/// The string items of an array member, in order (others are skipped).
pub open spec fn string_items(v: JsonView) -> Seq<Seq<char>> {
    match v {
        JsonView::Array(items) => string_texts(items),
        _ => Seq::empty(),
    }
}

/// The owner a `project.create` payload names: `owner` when that member is
/// present, else `leadAgentId`.
pub open spec fn project_owner(payload: JsonView) -> Option<Seq<char>> {
    if has_member(payload, "owner"@) {
        view_str(view_field(payload, "owner"@))
    } else {
        view_str(view_field(payload, "leadAgentId"@))
    }
}

/// Reads a `project.create` payload: a name and an owner are required; the
/// priority defaults to `NORMAL`; tags are the string items of `tags`.
pub fn parse_project_create(payload: &serde_json::Value) -> (r: Result<ProjectCreateCommand, String>)
    ensures
        view_str(view_field(json_view(*payload), "name"@)) is None ==> (r matches Err(e) && e@
            == "Missing name"@),
        view_str(view_field(json_view(*payload), "name"@)) is Some && project_owner(
            json_view(*payload),
        ) is None ==> (r matches Err(e) && e@ == "Missing owner or leadAgentId"@),
        r matches Ok(c) ==> {
            let p = json_view(*payload);
            &&& Some(c.name@) == view_str(view_field(p, "name"@))
            &&& Some(c.owner@) == project_owner(p)
            &&& opt_string_view(c.summary) == view_str(view_field(p, "summary"@))
            &&& c.priority@ == match view_str(view_field(p, "priority"@)) {
                Some(s) => s,
                None => "NORMAL"@,
            }
            &&& opt_string_view(c.target_outcome) == view_str(view_field(p, "targetOutcome"@))
            &&& c.tags.deep_view() == string_items(view_field(p, "tags"@))
        },
        view_str(view_field(json_view(*payload), "name"@)) is Some && project_owner(
            json_view(*payload),
        ) is Some ==> r is Ok,
{
    let name = match json_as_str(&json_field(payload, "name")) {
        Some(n) => n,
        None => return Err(owned("Missing name")),
    };
    let owner_value = if json_has_key(payload, "owner") {
        json_field(payload, "owner")
    } else {
        json_field(payload, "leadAgentId")
    };
    let owner = match json_as_str(&owner_value) {
        Some(o) => o,
        None => return Err(owned("Missing owner or leadAgentId")),
    };
    let summary = json_as_str(&json_field(payload, "summary"));
    let priority = match json_as_str(&json_field(payload, "priority")) {
        Some(p) => p,
        None => owned("NORMAL"),
    };
    let target_outcome = json_as_str(&json_field(payload, "targetOutcome"));
    let tags_value = json_field(payload, "tags");
    let mut tags: Vec<String> = Vec::new();
    match json_array_items(&tags_value) {
        Some(items) => {
            let ghost iv = json_view(tags_value)->Array_0;
            let mut i: usize = 0;
            assert(iv.take(0) =~= Seq::<JsonView>::empty());
            while i < items.len()
                invariant
                    i <= items.len(),
                    items@.len() == iv.len(),
                    forall|x: int| 0 <= x < iv.len() ==> json_view(#[trigger] items@[x]) == iv[x],
                    tags.deep_view() == string_texts(iv.take(i as int)),
                decreases items.len() - i,
            {
                let ghost prev = tags.deep_view();
                proof {
                    assert(iv.take(i + 1).drop_last() =~= iv.take(i as int));
                    assert(iv.take(i + 1).last() == iv[i as int]);
                }
                match json_as_str(&items[i]) {
                    Some(t) => {
                        tags.push(t);
                        proof {
                            assert(tags.deep_view() =~= prev.push(t@));
                        }
                    },
                    None => {},
                }
                i = i + 1;
            }
            assert(iv.take(iv.len() as int) =~= iv);
        },
        None => {},
    }
    Ok(ProjectCreateCommand { name, summary, owner, priority, target_outcome, tags })
}

} // verus!
