//! The orchestrator's decision helpers: synthesis classification, worker
//! backends, work-order text and acknowledgements, attachment handling.

use vstd::prelude::*;
use vstd::string::*;
use crate::error::KernelError;
use crate::kernel::Secrets;
use crate::manifest::ProviderProtocolFamily;
use crate::paths::{
    bare_file_name, file_name_extension, last_segment, path_extension, portable_file_path,
};
use crate::registry::RecurringWorkOrderScheduleRecord;
use crate::schedule::{
    from_broken_down_error, next_run, schedule_arithmetic_fits, to_broken_down_error,
};
use crate::calendar::{
    FIRST_FOUR_DIGIT_SECOND, LAST_FOUR_DIGIT_SECOND, MAX_TIMESTAMP, timestamp_text,
};
use crate::text::{
    ascii_lowercase, ascii_lowercase_str, concat2, int_text, i64_text, nat_text, owned,
    str_equals, trim, u64_text, unicode_lowercase,
};

verus! {

/// Normalized synthesis verdicts.
pub open spec fn synthesis_class(raw: Seq<char>) -> Seq<char> {
    if raw == "ACCEPT_AND_COMPLETE"@ || raw == "APPROVE_AND_REPLY"@ {
        "accept_complete"@
    } else if raw == "ACCEPT_AND_CONTINUE"@ {
        "accept_continue"@
    } else if raw == "REJECT_AND_REVISE"@ {
        "reject"@
    } else {
        "accept_complete"@
    }
}

/// Normalizes legacy and current synthesis actions to `accept_complete`,
/// `accept_continue` or `reject`; `APPROVE_AND_REPLY` and unknown values
/// count as `accept_complete`.
pub fn classify_synthesis_action(raw: &str) -> (r: &'static str)
    ensures
        r@ == synthesis_class(raw@),
{
    if str_equals(raw, "ACCEPT_AND_COMPLETE") || str_equals(raw, "APPROVE_AND_REPLY") {
        "accept_complete"
    } else if str_equals(raw, "ACCEPT_AND_CONTINUE") {
        "accept_continue"
    } else if str_equals(raw, "REJECT_AND_REVISE") {
        "reject"
    } else {
        "accept_complete"
    }
}

/// Content type of an attachment with the given (optional) file extension.
pub open spec fn attachment_content_type(ext: Option<Seq<char>>) -> Seq<char> {
    match ext {
        Some(e) => {
            let l = ascii_lowercase(e);
            if l == "md"@ {
                "text/markdown"@
            } else if l == "txt"@ {
                "text/plain"@
            } else if l == "json"@ {
                "application/json"@
            } else if l == "csv"@ {
                "text/csv"@
            } else if l == "html"@ {
                "text/html"@
            } else if l == "png"@ {
                "image/png"@
            } else if l == "jpg"@ || l == "jpeg"@ {
                "image/jpeg"@
            } else if l == "pdf"@ {
                "application/pdf"@
            } else {
                "application/octet-stream"@
            }
        },
        None => "application/octet-stream"@,
    }
}

pub fn attachment_content_type_for(ext: Option<&str>) -> (r: String)
    ensures
        r@ == attachment_content_type(
            match ext {
                Some(e) => Some(e@),
                None => None,
            },
        ),
{
    match ext {
        Some(e) => {
            let l = ascii_lowercase_str(e);
            let l = l.as_str();
            if str_equals(l, "md") {
                owned("text/markdown")
            } else if str_equals(l, "txt") {
                owned("text/plain")
            } else if str_equals(l, "json") {
                owned("application/json")
            } else if str_equals(l, "csv") {
                owned("text/csv")
            } else if str_equals(l, "html") {
                owned("text/html")
            } else if str_equals(l, "png") {
                owned("image/png")
            } else if str_equals(l, "jpg") || str_equals(l, "jpeg") {
                owned("image/jpeg")
            } else if str_equals(l, "pdf") {
                owned("application/pdf")
            } else {
                owned("application/octet-stream")
            }
        },
        None => owned("application/octet-stream"),
    }
}

/// Content type of an attachment, by the extension of its path.
pub fn infer_attachment_content_type(path: &str) -> (r: String)
    ensures
        exists|ext: Option<Seq<char>>| r@ == attachment_content_type(ext),
        bare_file_name(path@) ==> r@ == attachment_content_type(file_name_extension(path@)),
        portable_file_path(path@) ==> r@ == attachment_content_type(file_name_extension(last_segment(path@))),
{
    let ext = path_extension(path);
    match ext {
        Some(e) => attachment_content_type_for(Some(e.as_str())),
        None => attachment_content_type_for(None),
    }
}

/// Events the orchestrator reports to the workspace.
#[allow(inconsistent_fields)]
pub enum KernelEvent {
    Status(String),
    ChatMessage { content: String, message_kind: String },
    Error(String),
    SwoTerminal { swo_id: i64 },
    ArtifactRegistered { swo_id: i64 },
    StreamingDelta { message_id: String, delta: String, is_final: bool, agent_id: Option<String> },
    SwoCreated { swo_id: i64, assigned_agent_id: String, parent_swo_id: Option<i64> },
    SwoStatusChanged { swo_id: i64, new_status: String },
    DelegationStarted { parent_swo_id: i64, child_swo_ids: Vec<i64>, to_agent_ids: Vec<String> },
    AgentPresenceChanged { agent_id: String, presence: String },
    /// A new agent was hired at run time.
    AgentCreated {
        agent_id: String,
        name: String,
        role: String,
        parent_id: Option<String>,
        reason: String,
    },
}

pub struct AttachmentSpec {
    pub attachment_id: String,
    pub source_kind: String,
    pub display_name: String,
    pub original_path: String,
    pub content_type: String,
    pub size_bytes: i64,
    pub originating_swo_id: Option<i64>,
    pub originating_artifact_id: Option<i64>,
}

pub struct SairgentToolProposal {
    pub call_id: String,
    pub tool_name: String,
    pub summary: String,
    pub arguments_json: String,
    pub requires_confirmation: bool,
}

pub struct SairgentChatResult {
    pub reply: String,
    pub tool_calls: Vec<SairgentToolProposal>,
}

pub struct DeliveredAttachmentContext {
    pub attachment_id: String,
    pub source_kind: String,
    pub display_name: String,
    pub original_path: String,
    pub workspace_path: String,
    pub workspace_ref: String,
    pub content_type: String,
    pub size_bytes: i64,
    pub originating_swo_id: Option<i64>,
    pub originating_artifact_id: Option<i64>,
}

/// The orchestrator's configuration: the worker binary it launches, the
/// secrets it hands to workers and where agent home directories live.
pub struct Orchestrator {
    pub worker_cmd_binary: String,
    pub secrets: Secrets,
    pub agent_home_root_override: Option<String>,
}

/// Seconds of worker silence after which a run counts as stalled.
pub const WORKER_STALL_TIMEOUT_SECS: u64 = 120;

/// Seconds between two stall checks.
pub const WORKER_STALL_CHECK_INTERVAL_SECS: u64 = 15;

/// Review failures after which a delegated result is closed as failed.
pub const MAX_REVIEW_FAILURES: i32 = 3;

pub open spec fn stall_reason_text() -> Seq<char> {
    "Worker stopped heartbeating or emitting output for "@ + nat_text(
        WORKER_STALL_TIMEOUT_SECS as nat,
    ) + " seconds"@
}

pub open spec fn backend_for_mode(mode: Seq<char>, family: ProviderProtocolFamily) -> Seq<char> {
    if family == ProviderProtocolFamily::OauthCodexStyle {
        "codex_cli"@
    } else if mode == "chat_mode"@ || mode == "format_swo"@ || mode == "execute_triage"@ || mode
        == "write_briefs"@ || mode == "execute_synthesis"@ || mode == "execute_ideation"@ || mode
        == "sairgent_chat"@ {
        "pydantic_ai"@
    } else {
        "codex_cli"@
    }
}

pub open spec fn work_order_payload(
    title: Seq<char>,
    outcome: Seq<char>,
    constraints: Option<Seq<char>>,
) -> Seq<char> {
    match constraints {
        Some(c) if trim(c).len() > 0 => "WORK ORDER\nTitle: "@ + title + "\nRequested outcome: "@
            + outcome + "\nConstraints: "@ + c,
        _ => "WORK ORDER\nTitle: "@ + title + "\nRequested outcome: "@ + outcome,
    }
}

pub open spec fn managed_work_ack(
    manager: Seq<char>,
    assignee: Option<Seq<char>>,
    routing_policy: Seq<char>,
    summary: Option<Seq<char>>,
) -> Seq<char> {
    let s = match summary {
        Some(v) => v,
        None => "The requested work"@,
    };
    match assignee {
        Some(name) => if routing_policy == "HARD_ROUTE"@ {
            s + " has been queued under "@ + manager + " for "@ + name
                + "-led execution. I will confirm once the delegation SWO is actually opened."@
        } else if routing_policy == "PREFERENCE"@ {
            s + " has been queued under "@ + manager + " with a routing preference for "@ + name
                + ". I will confirm the actual assignee once delegation is opened."@
        } else {
            s + " has been queued under "@ + manager + " with "@ + name
                + " noted as the likely execution lead."@
        },
        None => s + " has been queued under "@ + manager + " for manager-led execution."@,
    }
}

/// Exception codes under which a manager may execute work itself.
pub open spec fn self_execute_exceptions() -> Seq<Seq<char>> {
    seq![
        "NO_QUALIFIED_REPORT"@,
        "NO_REQUIRED_TOOLING"@,
        "URGENT_DIRECT_RESPONSE"@,
        "CROSS_FUNCTION_SYNTHESIS_REQUIRED"@,
        "TEAM_GAP_PENDING_HIRE"@,
    ]
}

/// Keywords that mark a request as cross-functional synthesis.
pub open spec fn synthesis_keywords() -> Seq<Seq<char>> {
    seq![
        "synthesize"@,
        "strategy"@,
        "strategic"@,
        "coordinate"@,
        "coordination"@,
        "review"@,
        "plan"@,
        "planning"@,
        "alignment"@,
    ]
}

pub open spec fn opt_view(o: Option<&str>) -> Option<Seq<char>> {
    match o {
        Some(v) => Some(v@),
        None => None,
    }
}

fn any_equal(value: &str, options: &Vec<&'static str>) -> (r: bool)
    ensures
        r == exists|i: int| 0 <= i < options@.len() && #[trigger] options@[i]@ == value@,
{
    let mut i: usize = 0;
    while i < options.len()
        invariant
            i <= options.len(),
            forall|j: int| 0 <= j < i ==> #[trigger] options@[j]@ != value@,
        decreases options.len() - i,
    {
        if str_equals(options[i], value) {
            return true;
        }
        i = i + 1;
    }
    false
}

impl Orchestrator {
    pub fn new(worker_binary: &str, secrets: Secrets, agent_home_root_override: Option<String>) -> (r:
        Self)
        ensures
            r.worker_cmd_binary@ == worker_binary@,
            r.secrets == secrets,
            r.agent_home_root_override == agent_home_root_override,
    {
        Orchestrator { worker_cmd_binary: owned(worker_binary), secrets, agent_home_root_override }
    }

    pub fn worker_stall_reason() -> (r: String)
        ensures
            r@ == stall_reason_text(),
    {
        let mut r = owned("Worker stopped heartbeating or emitting output for ");
        let secs = u64_text(WORKER_STALL_TIMEOUT_SECS);
        r.append(secs.as_str());
        r.append(" seconds");
        r
    }

    pub fn worker_backend_for_mode(mode: &str, protocol_family: &ProviderProtocolFamily) -> (r:
        &'static str)
        ensures
            r@ == backend_for_mode(mode@, *protocol_family),
    {
        match protocol_family {
            ProviderProtocolFamily::OauthCodexStyle => "codex_cli",
            _ => {
                if str_equals(mode, "chat_mode") || str_equals(mode, "format_swo") || str_equals(
                    mode,
                    "execute_triage",
                ) || str_equals(mode, "write_briefs") || str_equals(mode, "execute_synthesis")
                    || str_equals(mode, "execute_ideation") || str_equals(mode, "sairgent_chat") {
                    "pydantic_ai"
                } else {
                    "codex_cli"
                }
            },
        }
    }

    pub fn build_work_order_payload(title: &str, outcome: &str, constraints: Option<&str>) -> (r:
        String)
        ensures
            r@ == work_order_payload(title@, outcome@, opt_view(constraints)),
    {
        let mut r = owned("WORK ORDER\nTitle: ");
        r.append(title);
        r.append("\nRequested outcome: ");
        r.append(outcome);
        match constraints {
            Some(c) => {
                let t = crate::text::trim_str(c);
                if t.unicode_len() > 0 {
                    r.append("\nConstraints: ");
                    r.append(c);
                }
            },
            None => {},
        }
        r
    }

    /// Title of run number `run_number` of a recurring template titled `template_title`.
    pub fn recurring_run_title(template_title: &str, run_number: i64) -> (r: String)
        ensures
            r@ == template_title@ + " (Run #"@ + int_text(run_number as int) + ")"@,
    {
        let mut r = owned(template_title);
        r.append(" (Run #");
        let n = i64_text(run_number);
        r.append(n.as_str());
        r.append(")");
        r
    }

    /// The next run of a recurring work order, as `YYYY-MM-DD HH:MM:SS` UTC.
    pub fn compute_next_recurring_run_at(
        schedule: &RecurringWorkOrderScheduleRecord,
        from_unix_secs: i64,
    ) -> (r: Result<String, KernelError>)
        requires
            schedule_arithmetic_fits(schedule, from_unix_secs as int),
            schedule.cadence@ == "hourly"@ ==> FIRST_FOUR_DIGIT_SECOND <= next_run(
                schedule,
                from_unix_secs as int,
            ),
        ensures
            r is Ok <==> (from_unix_secs <= MAX_TIMESTAMP && (0 <= from_unix_secs
                || schedule.cadence@ == "hourly"@) && next_run(schedule, from_unix_secs as int)
                <= MAX_TIMESTAMP),
            r matches Ok(s) ==> s@ == timestamp_text(next_run(schedule, from_unix_secs as int)),
            r matches Ok(s) ==> (next_run(schedule, from_unix_secs as int) <= LAST_FOUR_DIGIT_SECOND
                ==> s@.len() == 19),
            r matches Err(e) ==> (e matches KernelError::Internal(m) && (m@ == to_broken_down_error()
                || m@ == from_broken_down_error())),
    {
        crate::schedule::compute_next_recurring_run_at(schedule, from_unix_secs)
    }

    pub fn format_managed_work_ack(
        manager_name: &str,
        assignee_name: Option<&str>,
        routing_policy: &str,
        user_visible_summary: Option<&str>,
    ) -> (r: String)
        ensures
            r@ == managed_work_ack(
                manager_name@,
                opt_view(assignee_name),
                routing_policy@,
                opt_view(user_visible_summary),
            ),
    {
        let mut r = match user_visible_summary {
            Some(s) => owned(s),
            None => owned("The requested work"),
        };
        r.append(" has been queued under ");
        r.append(manager_name);
        match assignee_name {
            Some(name) => {
                if str_equals(routing_policy, "HARD_ROUTE") {
                    r.append(" for ");
                    r.append(name);
                    r.append(
                        "-led execution. I will confirm once the delegation SWO is actually opened.",
                    );
                } else if str_equals(routing_policy, "PREFERENCE") {
                    r.append(" with a routing preference for ");
                    r.append(name);
                    r.append(". I will confirm the actual assignee once delegation is opened.");
                } else {
                    r.append(" with ");
                    r.append(name);
                    r.append(" noted as the likely execution lead.");
                }
            },
            None => {
                r.append(" for manager-led execution.");
            },
        }
        r
    }

    pub fn valid_self_execute_exception(code: Option<&str>) -> (r: bool)
        ensures
            r == match code {
                Some(c) => self_execute_exceptions().contains(c@),
                None => false,
            },
    {
        match code {
            Some(c) => {
                let options = vec![
                    "NO_QUALIFIED_REPORT",
                    "NO_REQUIRED_TOOLING",
                    "URGENT_DIRECT_RESPONSE",
                    "CROSS_FUNCTION_SYNTHESIS_REQUIRED",
                    "TEAM_GAP_PENDING_HIRE",
                ];
                let found = any_equal(c, &options);
                proof {
                    let views = self_execute_exceptions();
                    if found {
                        let i = choose|i: int| 0 <= i < options@.len() && #[trigger] options@[i]@ == c@;
                        assert(views[i] == c@);
                    } else {
                        assert forall|i: int| 0 <= i < views.len() implies views[i] != c@ by {
                            assert(options@[i]@ == views[i]);
                        }
                    }
                }
                found
            },
            None => false,
        }
    }

    pub fn is_cross_function_synthesis(payload_keywords: &Vec<String>) -> (r: bool)
        ensures
            r == exists|i: int|
                0 <= i < payload_keywords@.len() && synthesis_keywords().contains(
                    #[trigger] payload_keywords@[i]@,
                ),
    {
        let options = vec![
            "synthesize",
            "strategy",
            "strategic",
            "coordinate",
            "coordination",
            "review",
            "plan",
            "planning",
            "alignment",
        ];
        let ghost views = synthesis_keywords();
        assert forall|s: Seq<char>| views.contains(s) <==> (exists|i: int|
            0 <= i < options@.len() && #[trigger] options@[i]@ == s) by {
            if views.contains(s) {
                let i = choose|i: int| 0 <= i < views.len() && views[i] == s;
                assert(options@[i]@ == s);
            }
            if exists|i: int| 0 <= i < options@.len() && #[trigger] options@[i]@ == s {
                let i = choose|i: int| 0 <= i < options@.len() && #[trigger] options@[i]@ == s;
                assert(views[i] == s);
            }
        }
        let mut k: usize = 0;
        while k < payload_keywords.len()
            invariant
                k <= payload_keywords.len(),
                forall|s: Seq<char>| views.contains(s) <==> (exists|i: int|
                    0 <= i < options@.len() && #[trigger] options@[i]@ == s),
                views == synthesis_keywords(),
                forall|j: int|
                    0 <= j < k ==> !synthesis_keywords().contains(#[trigger] payload_keywords@[j]@),
            decreases payload_keywords.len() - k,
        {
            if any_equal(payload_keywords[k].as_str(), &options) {
                return true;
            }
            k = k + 1;
        }
        false
    }
}

/// A synthesis rejects child work exactly when its verdict is
/// `REJECT_AND_REVISE`; every other verdict, unknown ones included, accepts.
pub proof fn lemma_only_explicit_rejection_rejects(raw: Seq<char>)
    ensures
        (synthesis_class(raw) == "reject"@) <==> (raw == "REJECT_AND_REVISE"@),
{
    reveal_strlit("reject");
    reveal_strlit("accept_complete");
    reveal_strlit("accept_continue");
    reveal_strlit("REJECT_AND_REVISE");
    reveal_strlit("ACCEPT_AND_COMPLETE");
    reveal_strlit("APPROVE_AND_REPLY");
    reveal_strlit("ACCEPT_AND_CONTINUE");
    assert("reject"@ != "accept_complete"@) by { assert("reject"@[0] != "accept_complete"@[0]); }
    assert("reject"@ != "accept_continue"@) by { assert("reject"@[0] != "accept_continue"@[0]); }
    assert("REJECT_AND_REVISE"@ != "ACCEPT_AND_COMPLETE"@) by {
        assert("REJECT_AND_REVISE"@[0] != "ACCEPT_AND_COMPLETE"@[0]);
    }
    assert("REJECT_AND_REVISE"@ != "APPROVE_AND_REPLY"@) by {
        assert("REJECT_AND_REVISE"@[0] != "APPROVE_AND_REPLY"@[0]);
    }
    assert("REJECT_AND_REVISE"@ != "ACCEPT_AND_CONTINUE"@) by {
        assert("REJECT_AND_REVISE"@[0] != "ACCEPT_AND_CONTINUE"@[0]);
    }
}

} // verus!
