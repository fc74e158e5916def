//! Decisions taken around one worker run: which tools the worker gets,
//! which of its side-channel messages are honoured, and how its output is
//! judged when it exits.

use vstd::prelude::*;
use vstd::utf8::encode_utf8;
use crate::audit::TaintLabel;
use crate::json::{
    JsonView, has_member, json_array_items, json_as_bool, json_as_str, json_field, json_has_key,
    json_parse, json_parse_result, json_view, view_field, view_str,
};
use crate::manifest::{AgentManifestV1, CapabilityGrant, all_tools, exposed_names};
use crate::orchestrator::Orchestrator;
use crate::text::{
    contains_sub, lemma_lex_le_antisymmetric, lemma_lex_le_total, lemma_lex_le_transitive, lex_le,
    lines_of, owned, str_contains, str_equals, str_lex_le, strictly_sorted, take_chars, text_lines,
    to_lowercase,
    to_uppercase, trim, trim_str, unicode_lowercase, unicode_uppercase,
};

verus! {

/// The kinds of side-channel message a worker may send on stderr.
pub enum SidechannelKind {
    Heartbeat,
    InnovationSwo,
    DispatchSwo,
    QueueManagedWork,
    HireSubordinate,
    AppendPulseJournal,
    OutboxArtifact,
    SairgentProposal,
    ShellExec,
    FileMutation,
    GitOperation,
    Unknown,
}

pub open spec fn sidechannel_kind_of(name: Seq<char>) -> SidechannelKind {
    if name == "heartbeat"@ {
        SidechannelKind::Heartbeat
    } else if name == "innovation_swo"@ {
        SidechannelKind::InnovationSwo
    } else if name == "dispatch_swo"@ {
        SidechannelKind::DispatchSwo
    } else if name == "queue_managed_work"@ {
        SidechannelKind::QueueManagedWork
    } else if name == "hire_subordinate"@ {
        SidechannelKind::HireSubordinate
    } else if name == "append_pulse_journal"@ {
        SidechannelKind::AppendPulseJournal
    } else if name == "outbox_artifact"@ {
        SidechannelKind::OutboxArtifact
    } else if name == "sairgent_proposal"@ {
        SidechannelKind::SairgentProposal
    } else if name == "shell_exec"@ {
        SidechannelKind::ShellExec
    } else if name == "file_mutation"@ {
        SidechannelKind::FileMutation
    } else if name == "git_operation"@ {
        SidechannelKind::GitOperation
    } else {
        SidechannelKind::Unknown
    }
}

impl SidechannelKind {
    /// The kind a side-channel message names.
    pub fn parse(name: &str) -> (r: SidechannelKind)
        ensures
            r == sidechannel_kind_of(name@),
    {
        if str_equals(name, "heartbeat") {
            SidechannelKind::Heartbeat
        } else if str_equals(name, "innovation_swo") {
            SidechannelKind::InnovationSwo
        } else if str_equals(name, "dispatch_swo") {
            SidechannelKind::DispatchSwo
        } else if str_equals(name, "queue_managed_work") {
            SidechannelKind::QueueManagedWork
        } else if str_equals(name, "hire_subordinate") {
            SidechannelKind::HireSubordinate
        } else if str_equals(name, "append_pulse_journal") {
            SidechannelKind::AppendPulseJournal
        } else if str_equals(name, "outbox_artifact") {
            SidechannelKind::OutboxArtifact
        } else if str_equals(name, "sairgent_proposal") {
            SidechannelKind::SairgentProposal
        } else if str_equals(name, "shell_exec") {
            SidechannelKind::ShellExec
        } else if str_equals(name, "file_mutation") {
            SidechannelKind::FileMutation
        } else if str_equals(name, "git_operation") {
            SidechannelKind::GitOperation
        } else {
            SidechannelKind::Unknown
        }
    }
}

/// What the kernel does with an authenticated side-channel message.
pub enum SidechannelGate {
    /// Act on the message.
    Process,
    /// Refuse it, recording the named audit event.
    Deny { audit_event: &'static str },
    /// The tool already ran in the harness: only record the named audit
    /// event, under the tool-execution label.
    RecordToolExecution { audit_event: &'static str },
    /// Not a side-channel message the kernel knows.
    Unhandled,
}

/// The capability a message kind needs before the kernel acts on it.
pub open spec fn required_capability(kind: SidechannelKind) -> Option<CapabilityGrant> {
    match kind {
        SidechannelKind::InnovationSwo => Some(CapabilityGrant::SubmitInnovationSwo),
        SidechannelKind::DispatchSwo => Some(CapabilityGrant::DispatchSwo),
        SidechannelKind::QueueManagedWork => Some(CapabilityGrant::QueueManagedWork),
        SidechannelKind::HireSubordinate => Some(CapabilityGrant::HireSubordinate),
        SidechannelKind::OutboxArtifact => Some(CapabilityGrant::WriteOutbox),
        SidechannelKind::ShellExec => Some(CapabilityGrant::ShellExec),
        SidechannelKind::FileMutation => Some(CapabilityGrant::FileWrite),
        SidechannelKind::GitOperation => Some(CapabilityGrant::GitOps),
        _ => None,
    }
}

/// A mode in which a worker may hire directly: every mode but ideation.
pub open spec fn allows_direct_hire(mode: Seq<char>) -> bool {
    mode != "execute_ideation"@
}

pub open spec fn sidechannel_gate_spec(
    kind: SidechannelKind,
    caps: Seq<CapabilityGrant>,
    allow_direct_hire: bool,
) -> (SidechannelGate, Seq<char>) {
    let allowed = match required_capability(kind) {
        Some(c) => caps.contains(c),
        None => true,
    };
    match kind {
        SidechannelKind::Heartbeat => (SidechannelGate::Process, Seq::empty()),
        SidechannelKind::AppendPulseJournal => (SidechannelGate::Process, Seq::empty()),
        SidechannelKind::SairgentProposal => (SidechannelGate::Process, Seq::empty()),
        SidechannelKind::InnovationSwo => if allowed {
            (SidechannelGate::Process, Seq::empty())
        } else {
            (SidechannelGate::Deny { audit_event: "" }, "capability_denied_innovation_swo"@)
        },
        SidechannelKind::DispatchSwo => if allowed {
            (SidechannelGate::Process, Seq::empty())
        } else {
            (SidechannelGate::Deny { audit_event: "" }, "capability_denied_dispatch_swo"@)
        },
        SidechannelKind::QueueManagedWork => if allowed {
            (SidechannelGate::Process, Seq::empty())
        } else {
            (SidechannelGate::Deny { audit_event: "" }, "capability_denied_queue_managed_work"@)
        },
        SidechannelKind::HireSubordinate => if allowed && allow_direct_hire {
            (SidechannelGate::Process, Seq::empty())
        } else {
            (SidechannelGate::Deny { audit_event: "" }, "capability_denied_hire_subordinate"@)
        },
        SidechannelKind::OutboxArtifact => if allowed {
            (SidechannelGate::Process, Seq::empty())
        } else {
            (SidechannelGate::Deny { audit_event: "" }, "capability_denied_outbox_artifact"@)
        },
        SidechannelKind::ShellExec => if allowed {
            (SidechannelGate::RecordToolExecution { audit_event: "" }, "shell_exec"@)
        } else {
            (
                SidechannelGate::RecordToolExecution { audit_event: "" },
                "capability_violation_reported_shell_exec"@,
            )
        },
        SidechannelKind::FileMutation => if allowed {
            (SidechannelGate::RecordToolExecution { audit_event: "" }, "file_mutation"@)
        } else {
            (
                SidechannelGate::RecordToolExecution { audit_event: "" },
                "capability_violation_reported_file_mutation"@,
            )
        },
        SidechannelKind::GitOperation => if allowed {
            (SidechannelGate::RecordToolExecution { audit_event: "" }, "git_operation"@)
        } else {
            (
                SidechannelGate::RecordToolExecution { audit_event: "" },
                "capability_violation_reported_git_operation"@,
            )
        },
        SidechannelKind::Unknown => (SidechannelGate::Unhandled, Seq::empty()),
    }
}

/// Which kind of decision it is, its audit event name aside.
pub open spec fn gate_shape(g: SidechannelGate) -> int {
    match g {
        SidechannelGate::Process => 0,
        SidechannelGate::Deny { .. } => 1,
        SidechannelGate::RecordToolExecution { .. } => 2,
        SidechannelGate::Unhandled => 3,
    }
}

/// The audit event name a gate verdict carries (empty for the others).
pub open spec fn gate_event(g: SidechannelGate) -> Seq<char> {
    match g {
        SidechannelGate::Deny { audit_event } => audit_event@,
        SidechannelGate::RecordToolExecution { audit_event } => audit_event@,
        _ => Seq::empty(),
    }
}

/// Whether the kernel acts on a side-channel message of `kind` from a worker
/// whose manifest grants `manifest.capabilities`, and what it records.
pub fn sidechannel_gate(kind: &SidechannelKind, manifest: &AgentManifestV1, mode: &str) -> (r:
    SidechannelGate)
    ensures
        gate_shape(r) == gate_shape(
            sidechannel_gate_spec(*kind, manifest.capabilities@, allows_direct_hire(mode@)).0,
        ),
        gate_event(r) == sidechannel_gate_spec(
            *kind,
            manifest.capabilities@,
            allows_direct_hire(mode@),
        ).1,
{
    let allow_hire = !str_equals(mode, "execute_ideation");
    match kind {
        SidechannelKind::Heartbeat => SidechannelGate::Process,
        SidechannelKind::AppendPulseJournal => SidechannelGate::Process,
        SidechannelKind::SairgentProposal => SidechannelGate::Process,
        SidechannelKind::InnovationSwo => {
            if manifest.has_capability(&CapabilityGrant::SubmitInnovationSwo) {
                SidechannelGate::Process
            } else {
                SidechannelGate::Deny { audit_event: "capability_denied_innovation_swo" }
            }
        },
        SidechannelKind::DispatchSwo => {
            if manifest.has_capability(&CapabilityGrant::DispatchSwo) {
                SidechannelGate::Process
            } else {
                SidechannelGate::Deny { audit_event: "capability_denied_dispatch_swo" }
            }
        },
        SidechannelKind::QueueManagedWork => {
            if manifest.has_capability(&CapabilityGrant::QueueManagedWork) {
                SidechannelGate::Process
            } else {
                SidechannelGate::Deny { audit_event: "capability_denied_queue_managed_work" }
            }
        },
        SidechannelKind::HireSubordinate => {
            if manifest.has_capability(&CapabilityGrant::HireSubordinate) && allow_hire {
                SidechannelGate::Process
            } else {
                SidechannelGate::Deny { audit_event: "capability_denied_hire_subordinate" }
            }
        },
        SidechannelKind::OutboxArtifact => {
            if manifest.has_capability(&CapabilityGrant::WriteOutbox) {
                SidechannelGate::Process
            } else {
                SidechannelGate::Deny { audit_event: "capability_denied_outbox_artifact" }
            }
        },
        SidechannelKind::ShellExec => {
            if manifest.has_capability(&CapabilityGrant::ShellExec) {
                SidechannelGate::RecordToolExecution { audit_event: "shell_exec" }
            } else {
                SidechannelGate::RecordToolExecution {
                    audit_event: "capability_violation_reported_shell_exec",
                }
            }
        },
        SidechannelKind::FileMutation => {
            if manifest.has_capability(&CapabilityGrant::FileWrite) {
                SidechannelGate::RecordToolExecution { audit_event: "file_mutation" }
            } else {
                SidechannelGate::RecordToolExecution {
                    audit_event: "capability_violation_reported_file_mutation",
                }
            }
        },
        SidechannelKind::GitOperation => {
            if manifest.has_capability(&CapabilityGrant::GitOps) {
                SidechannelGate::RecordToolExecution { audit_event: "git_operation" }
            } else {
                SidechannelGate::RecordToolExecution {
                    audit_event: "capability_violation_reported_git_operation",
                }
            }
        },
        SidechannelKind::Unknown => SidechannelGate::Unhandled,
    }
}

/// The kernel acts on a capability-gated message only when the manifest
/// grants the capability, and on a hire only in a mode that allows hiring.
pub proof fn lemma_gate_requires_capability(
    kind: SidechannelKind,
    caps: Seq<CapabilityGrant>,
    allow_direct_hire: bool,
)
    requires
        gate_shape(sidechannel_gate_spec(kind, caps, allow_direct_hire).0) == 0,
    ensures
        required_capability(kind) matches Some(c) ==> caps.contains(c),
        kind == SidechannelKind::HireSubordinate ==> allow_direct_hire,
{
}

/// A heartbeat counts only when its sequence number is past the last one seen.
pub open spec fn heartbeat_in_order_spec(seq: int, last_seq: int) -> bool {
    seq > last_seq
}

pub fn heartbeat_in_order(seq: i64, last_seq: i64) -> (r: bool)
    ensures
        r == heartbeat_in_order_spec(seq as int, last_seq as int),
{
    seq > last_seq
}

/// Milliseconds between two heartbeat writes to the registry.
pub const HEARTBEAT_WRITE_INTERVAL_MS: i64 = 1000;

/// Whether a heartbeat is written through: at least a second since the last write.
pub fn heartbeat_write_due(now_ms: i64, last_write_ms: i64) -> (r: bool)
    ensures
        r == (now_ms - last_write_ms >= HEARTBEAT_WRITE_INTERVAL_MS),
{
    (now_ms as i128) - (last_write_ms as i128) >= (HEARTBEAT_WRITE_INTERVAL_MS as i128)
}

/// A heartbeat a worker sends on its side channel.
pub struct HeartbeatPayload {
    pub token: String,
    pub run_id: String,
    pub status: String,
    pub seq: i64,
}

/// What becomes of a `dispatch_swo` message.
pub enum DispatchVerdict {
    /// The target is not one of the worker's direct reports.
    Unauthorized,
    /// The payload is over `MAX_DISPATCH_PAYLOAD_BYTES`.
    TooLarge,
    Accepted,
}

/// Largest dispatch payload, in bytes.
pub const MAX_DISPATCH_PAYLOAD_BYTES: usize = 8192;

/// Largest innovation report, in bytes of its JSON text.
pub const MAX_INNOVATION_REPORT_BYTES: usize = 4096;

pub open spec fn listed(ids: Seq<String>, id: Seq<char>) -> bool {
    exists|i: int| 0 <= i < ids.len() && #[trigger] ids[i]@ == id
}

pub open spec fn dispatch_verdict_spec(target: Seq<char>, allowed: Seq<String>, payload: Seq<char>) -> DispatchVerdict {
    if !listed(allowed, target) {
        DispatchVerdict::Unauthorized
    } else if encode_utf8(payload).len() > MAX_DISPATCH_PAYLOAD_BYTES {
        DispatchVerdict::TooLarge
    } else {
        DispatchVerdict::Accepted
    }
}

/// Whether a dispatch to `target_id` is accepted: only to a listed direct
/// report, and only with a payload of at most `MAX_DISPATCH_PAYLOAD_BYTES`.
pub fn dispatch_verdict(target_id: &str, allowed_ids: &Vec<String>, payload: &str) -> (r:
    DispatchVerdict)
    ensures
        r == dispatch_verdict_spec(target_id@, allowed_ids@, payload@),
{
    let mut i: usize = 0;
    let mut found = false;
    while i < allowed_ids.len() && !found
        invariant
            i <= allowed_ids.len(),
            found ==> listed(allowed_ids@, target_id@),
            !found ==> forall|j: int| 0 <= j < i ==> #[trigger] allowed_ids@[j]@ != target_id@,
        decreases allowed_ids.len() - i,
    {
        if str_equals(allowed_ids[i].as_str(), target_id) {
            found = true;
        }
        i = i + 1;
    }
    if !found {
        DispatchVerdict::Unauthorized
    } else if payload.as_bytes().len() > MAX_DISPATCH_PAYLOAD_BYTES {
        DispatchVerdict::TooLarge
    } else {
        DispatchVerdict::Accepted
    }
}

/// Whether an innovation report's JSON text is small enough to act on.
pub fn innovation_report_fits(report_json: &str) -> (r: bool)
    ensures
        r == (encode_utf8(report_json@).len() <= MAX_INNOVATION_REPORT_BYTES),
{
    report_json.as_bytes().len() <= MAX_INNOVATION_REPORT_BYTES
}

/// The source recorded on an innovation review: `HEARTBEAT` when it came
/// from ideation, `HSM` otherwise.
pub fn innovation_source(mode: &str) -> (r: &'static str)
    ensures
        r@ == (if mode@ == "execute_ideation"@ {
            "HEARTBEAT"@
        } else {
            "HSM"@
        }),
{
    if str_equals(mode, "execute_ideation") {
        "HEARTBEAT"
    } else {
        "HSM"
    }
}

pub open spec fn str_member_or(v: JsonView, key: Seq<char>, fallback: Seq<char>) -> Seq<char> {
    match view_str(view_field(v, key)) {
        Some(s) => s,
        None => fallback,
    }
}

pub open spec fn innovation_review_text(report: JsonView) -> Seq<char> {
    "Innovation review: "@ + str_member_or(report, "title"@, "Innovation Proposal"@)
        + "\nContext: "@ + str_member_or(report, "context"@, ""@) + "\nProposed solution: "@
        + str_member_or(report, "proposed_solution"@, ""@) + "\nEstimated impact: "@
        + str_member_or(report, "estimated_impact"@, ""@)
}

fn str_member(v: &serde_json::Value, key: &str, fallback: &str) -> (r: String)
    ensures
        r@ == str_member_or(json_view(*v), key@, fallback@),
{
    let f = json_field(v, key);
    match json_as_str(&f) {
        Some(s) => s,
        None => owned(fallback),
    }
}

/// The payload of the innovation review opened for a worker's manager.
pub fn innovation_review_payload(report: &serde_json::Value) -> (r: String)
    ensures
        r@ == innovation_review_text(json_view(*report)),
{
    let mut r = owned("Innovation review: ");
    r.append(str_member(report, "title", "Innovation Proposal").as_str());
    r.append("\nContext: ");
    r.append(str_member(report, "context", "").as_str());
    r.append("\nProposed solution: ");
    r.append(str_member(report, "proposed_solution", "").as_str());
    r.append("\nEstimated impact: ");
    r.append(str_member(report, "estimated_impact", "").as_str());
    proof {
        reveal_strlit("");
    }
    r
}

/// Work a worker asks its manager to queue.
pub struct ManagedWorkRequest {
    pub payload: String,
    pub requested_assignee_agent_id: Option<String>,
    pub requested_assignee_name: Option<String>,
    pub routing_policy: String,
    pub user_visible_summary: Option<String>,
}

/// The routing policy a queued request keeps: its trimmed, uppercased
/// policy when that is a known one and an assignee is named, else `NONE`.
pub open spec fn queued_routing_policy(
    policy: Seq<char>,
    has_assignee: bool,
) -> Seq<char> {
    let u = unicode_uppercase(trim(policy));
    if !has_assignee {
        "NONE"@
    } else if u == "HARD_ROUTE"@ || u == "PREFERENCE"@ || u == "NONE"@ {
        u
    } else {
        "NONE"@
    }
}

/// A `queue_managed_work` request as the kernel records it: payload
/// trimmed, routing policy normalized; none when the payload is blank.
pub fn normalize_queued_managed_work(req: ManagedWorkRequest) -> (r: Option<ManagedWorkRequest>)
    ensures
        trim(req.payload@).len() == 0 ==> r is None,
        trim(req.payload@).len() > 0 ==> (r matches Some(n) && n.payload@ == trim(req.payload@)
            && n.routing_policy@ == queued_routing_policy(
            req.routing_policy@,
            req.requested_assignee_agent_id is Some || req.requested_assignee_name is Some,
        ) && n.requested_assignee_agent_id == req.requested_assignee_agent_id
            && n.requested_assignee_name == req.requested_assignee_name
            && n.user_visible_summary == req.user_visible_summary),
{
    let payload = trim_str(req.payload.as_str());
    if payload.unicode_len() == 0 {
        return None;
    }
    let t = trim_str(req.routing_policy.as_str());
    let u = to_uppercase(t.as_str());
    let has_assignee = req.requested_assignee_agent_id.is_some()
        || req.requested_assignee_name.is_some();
    let routing = if !has_assignee {
        owned("NONE")
    } else if str_equals(u.as_str(), "HARD_ROUTE") || str_equals(u.as_str(), "PREFERENCE")
        || str_equals(u.as_str(), "NONE") {
        u
    } else {
        owned("NONE")
    };
    Some(
        ManagedWorkRequest {
            payload,
            requested_assignee_agent_id: req.requested_assignee_agent_id,
            requested_assignee_name: req.requested_assignee_name,
            routing_policy: routing,
            user_visible_summary: req.user_visible_summary,
        },
    )
}

/// A managed-work request listed in a worker's final output: payload
/// trimmed; none when it is blank.
pub fn normalize_reported_managed_work(req: ManagedWorkRequest) -> (r: Option<ManagedWorkRequest>)
    ensures
        trim(req.payload@).len() == 0 ==> r is None,
        trim(req.payload@).len() > 0 ==> (r matches Some(n) && n.payload@ == trim(req.payload@)
            && n.routing_policy == req.routing_policy && n.requested_assignee_agent_id
            == req.requested_assignee_agent_id && n.requested_assignee_name
            == req.requested_assignee_name && n.user_visible_summary == req.user_visible_summary),
{
    let payload = trim_str(req.payload.as_str());
    if payload.unicode_len() == 0 {
        return None;
    }
    Some(
        ManagedWorkRequest {
            payload,
            requested_assignee_agent_id: req.requested_assignee_agent_id,
            requested_assignee_name: req.requested_assignee_name,
            routing_policy: req.routing_policy,
            user_visible_summary: req.user_visible_summary,
        },
    )
}

/// The status a finished run is recorded with: an error fails it, a
/// blocked reason blocks it, otherwise it completed.
pub fn final_run_status(has_failure: bool, has_blocked_reason: bool) -> (r: &'static str)
    ensures
        r@ == (if has_failure {
            "FAILED"@
        } else if has_blocked_reason {
            "BLOCKED"@
        } else {
            "COMPLETED"@
        }),
{
    if has_failure {
        "FAILED"
    } else if has_blocked_reason {
        "BLOCKED"
    } else {
        "COMPLETED"
    }
}

/// The label of a run's finishing audit event: a failure reported by the
/// worker is its own claim; anything else is the kernel's.
pub fn finished_run_label(has_failure: bool) -> (r: TaintLabel)
    ensures
        r == (if has_failure {
            TaintLabel::UntrustedModelOutput
        } else {
            TaintLabel::TrustedSystem
        }),
{
    if has_failure {
        TaintLabel::UntrustedModelOutput
    } else {
        TaintLabel::TrustedSystem
    }
}

/// Whether the worker is told it may hire: a mode that allows hiring and a
/// manifest that grants it.
pub fn can_hire_flag(manifest: &AgentManifestV1, mode: &str) -> (r: &'static str)
    ensures
        r@ == (if allows_direct_hire(mode@) && manifest.capabilities@.contains(
            CapabilityGrant::HireSubordinate,
        ) {
            "1"@
        } else {
            "0"@
        }),
{
    if !str_equals(mode, "execute_ideation") && manifest.has_capability(
        &CapabilityGrant::HireSubordinate,
    ) {
        "1"
    } else {
        "0"
    }
}

/// How the worker's web search stands: `configured` when a provider is
/// bound and its key is not blank, `missing_credential` when the key is
/// absent or blank, `missing_binding` when no provider is bound.
pub fn search_provider_status(active_provider: Option<&str>, provider_key: Option<&str>) -> (r:
    &'static str)
    ensures
        r@ == match active_provider {
            Some(_) => match provider_key {
                Some(k) if trim(k@).len() > 0 => "configured"@,
                _ => "missing_credential"@,
            },
            None => "missing_binding"@,
        },
{
    match active_provider {
        Some(_) => match provider_key {
            Some(k) => {
                if trim_str(k).unicode_len() > 0 {
                    "configured"
                } else {
                    "missing_credential"
                }
            },
            None => "missing_credential",
        },
        None => "missing_binding",
    }
}

/// Longest persona prompt or reason for being handed to a worker, in characters.
pub const MAX_PERSONA_CHARS: usize = 4096;

/// A persona text cut to its first `MAX_PERSONA_CHARS` characters.
pub fn truncate_persona(text: &str) -> (r: String)
    ensures
        r@ == take_chars(text@, MAX_PERSONA_CHARS as int),
{
    let v = crate::text::chars_of(text);
    let t = crate::text::take_chars_vec(&v, MAX_PERSONA_CHARS);
    crate::text::string_of(&t)
}

/// What one stdout line says of the run's success, if anything: a line
/// that is a JSON object with a string `status` says whether that status
/// is `COMPLETED` or `BLOCKED`; one with a `triage` or `synthesis` member
/// says it succeeded.
pub open spec fn line_success_verdict(line: Seq<char>) -> Option<bool> {
    let t = trim(line);
    if t.len() > 0 && t[0] == '{' {
        match json_parse_result(t) {
            Some(v) => match view_str(view_field(v, "status"@)) {
                Some(st) => Some(st == "COMPLETED"@ || st == "BLOCKED"@),
                None => if has_member(v, "triage"@) || has_member(v, "synthesis"@) {
                    Some(true)
                } else {
                    None
                },
            },
            None => None,
        }
    } else {
        None
    }
}

/// The verdict of the last line that gives one.
pub open spec fn last_line_verdict(lines: Seq<Seq<char>>) -> Option<bool>
    decreases lines.len(),
{
    if lines.len() == 0 {
        None
    } else {
        match line_success_verdict(lines.last()) {
            Some(b) => Some(b),
            None => last_line_verdict(lines.drop_last()),
        }
    }
}

/// Whether a worker's stdout reports success although it exited non-zero:
/// the last line with a verdict decides; without one, any of the status
/// texts `COMPLETED` or `BLOCKED` in JSON form anywhere in the output.
pub open spec fn stdout_success_spec(stdout: Seq<char>) -> bool {
    match last_line_verdict(lines_of(stdout)) {
        Some(b) => b,
        None => contains_sub(stdout, "\"status\": \"COMPLETED\""@) || contains_sub(
            stdout,
            "\"status\":\"COMPLETED\""@,
        ) || contains_sub(stdout, "\"status\": \"BLOCKED\""@) || contains_sub(
            stdout,
            "\"status\":\"BLOCKED\""@,
        ),
    }
}

fn line_verdict(line: &str) -> (r: Option<bool>)
    ensures
        r == line_success_verdict(line@),
{
    let t = trim_str(line);
    if t.unicode_len() > 0 && t.as_str().get_char(0) == '{' {
        match json_parse(t.as_str()) {
            Some(v) => {
                let status = json_field(&v, "status");
                match json_as_str(&status) {
                    Some(st) => Some(str_equals(st.as_str(), "COMPLETED") || str_equals(
                        st.as_str(),
                        "BLOCKED",
                    )),
                    None => {
                        if json_has_key(&v, "triage") || json_has_key(&v, "synthesis") {
                            Some(true)
                        } else {
                            None
                        }
                    },
                }
            },
            None => None,
        }
    } else {
        None
    }
}

impl Orchestrator {
    /// Whether a worker's stdout reports a completed or blocked run despite
    /// a non-zero exit, as when harness clean-up fails after valid output.
    pub fn stdout_has_success_status(stdout: &str) -> (r: bool)
        ensures
            r == stdout_success_spec(stdout@),
    {
        let lines = text_lines(stdout);
        let ghost all = lines.deep_view();
        let mut n: usize = lines.len();
        assert(all.subrange(0, n as int) =~= all);
        while n > 0
            invariant
                n <= lines.len(),
                lines.deep_view() == all,
                all == lines_of(stdout@),
                last_line_verdict(all) == last_line_verdict(all.subrange(0, n as int)),
            decreases n,
        {
            let ghost pre = all.subrange(0, n as int);
            proof {
                assert(pre.drop_last() =~= all.subrange(0, n - 1));
                assert(pre.last() == lines@[n - 1]@);
            }
            match line_verdict(lines[n - 1].as_str()) {
                Some(b) => {
                    return b;
                },
                None => {},
            }
            n = n - 1;
        }
        proof {
            assert(all.subrange(0, 0) =~= Seq::<Seq<char>>::empty());
        }
        str_contains(stdout, "\"status\": \"COMPLETED\"") || str_contains(
            stdout,
            "\"status\":\"COMPLETED\"",
        ) || str_contains(stdout, "\"status\": \"BLOCKED\"") || str_contains(
            stdout,
            "\"status\":\"BLOCKED\"",
        )
    }

    /// The LLM key for a provider: the key stored under its trimmed,
    /// lowercased name, else the default key.
    pub fn resolve_llm_api_key(&self, provider: &str) -> (r: String)
        ensures
            r@ == key_for_provider(
                self.secrets.llm_api_keys_by_provider@,
                unicode_lowercase(trim(provider@)),
                self.secrets.default_llm_api_key@,
            ),
    {
        let t = trim_str(provider);
        let normalized = to_lowercase(t.as_str());
        let keys = &self.secrets.llm_api_keys_by_provider;
        let mut i: usize = 0;
        while i < keys.len()
            invariant
                i <= keys.len(),
                keys@ == self.secrets.llm_api_keys_by_provider@,
                normalized@ == unicode_lowercase(trim(provider@)),
                forall|j: int| 0 <= j < i ==> #[trigger] keys@[j].0@ != normalized@,
            decreases keys.len() - i,
        {
            if str_equals(keys[i].0.as_str(), normalized.as_str()) {
                proof {
                    assert(first_key_index(keys@, normalized@, i as int));
                    let c = choose|k: int| first_key_index(keys@, normalized@, k);
                    if c < i {
                        assert(keys@[c].0@ != normalized@);
                    }
                    if i < c {
                        assert(keys@[i as int].0@ != normalized@);
                    }
                    assert(c == i);
                }
                return owned(keys[i].1.as_str());
            }
            i = i + 1;
        }
        owned(self.secrets.default_llm_api_key.as_str())
    }
}

/// `k` is the first entry of `entries` stored under `name`.
pub open spec fn first_key_index(entries: Seq<(String, String)>, name: Seq<char>, k: int) -> bool {
    0 <= k < entries.len() && entries[k].0@ == name && forall|j: int|
        0 <= j < k ==> #[trigger] entries[j].0@ != name
}

/// The value stored under `name` (the first such entry), or `fallback`.
pub open spec fn key_for_provider(
    entries: Seq<(String, String)>,
    name: Seq<char>,
    fallback: Seq<char>,
) -> Seq<char> {
    if exists|k: int| first_key_index(entries, name, k) {
        entries[choose|k: int| first_key_index(entries, name, k)].1@
    } else {
        fallback
    }
}


fn insert_sorted_unique(out: &mut Vec<String>, s: String)
    requires
        strictly_sorted(old(out).deep_view()),
    ensures
        strictly_sorted(final(out).deep_view()),
        forall|x: Seq<char>|
            #[trigger] final(out).deep_view().contains(x) <==> (old(out).deep_view().contains(x)
                || x == s@),
{
    let ghost before = out.deep_view();
    let mut p: usize = 0;
    while p < out.len() && str_lex_le(out[p].as_str(), s.as_str())
        invariant
            p <= out.len(),
            out.deep_view() == before,
            strictly_sorted(before),
            forall|j: int| 0 <= j < p ==> lex_le(#[trigger] before[j], s@) && before[j] != s@,
        decreases out.len() - p,
    {
        if str_equals(out[p].as_str(), s.as_str()) {
            proof {
                assert(before[p as int] == s@);
                assert forall|x: Seq<char>| #[trigger] before.contains(x) <==> (before.contains(x)
                    || x == s@) by {
                    if x == s@ {
                        assert(before[p as int] == x);
                    }
                }
            }
            return;
        }
        p = p + 1;
    }
    proof {
        if p < before.len() {
            lemma_lex_le_total(before[p as int], s@);
        }
    }
    let ghost sv = s@;
    out.insert(p, s);
    proof {
        let after = out.deep_view();
        assert(after =~= before.insert(p as int, sv));
        assert forall|a: int, b: int| 0 <= a < b < after.len() implies lex_le(
            #[trigger] after[a],
            #[trigger] after[b],
        ) && after[a] != after[b] by {
            if b < p {
                assert(after[a] == before[a] && after[b] == before[b]);
            } else if b == p {
                assert(after[a] == before[a]);
            } else if a < p {
                assert(after[a] == before[a] && after[b] == before[b - 1]);
                lemma_lex_le_total(before[p as int], sv);
                if p < b - 1 {
                    lemma_lex_le_transitive(sv, before[p as int], before[b - 1]);
                }
                lemma_lex_le_transitive(before[a], sv, before[b - 1]);
                if before[a] == before[b - 1] {
                    lemma_lex_le_antisymmetric(before[a], sv);
                }
            } else if a == p {
                assert(after[b] == before[b - 1]);
                lemma_lex_le_total(before[p as int], sv);
                if p < b - 1 {
                    lemma_lex_le_transitive(sv, before[p as int], before[b - 1]);
                    if sv == before[b - 1] {
                        lemma_lex_le_antisymmetric(sv, before[p as int]);
                    }
                }
            } else {
                assert(after[a] == before[a - 1] && after[b] == before[b - 1]);
            }
        }
        assert forall|x: Seq<char>| #[trigger] after.contains(x) <==> (before.contains(x) || x
            == sv) by {
            if after.contains(x) {
                let k = choose|k: int| 0 <= k < after.len() && after[k] == x;
                if k < p {
                    assert(before[k] == x);
                } else if k > p {
                    assert(before[k - 1] == x);
                }
            }
            if before.contains(x) {
                let k = choose|k: int| 0 <= k < before.len() && before[k] == x;
                if k < p {
                    assert(after[k] == x);
                } else {
                    assert(after[k + 1] == x);
                }
            }
            if x == sv {
                assert(after[p as int] == x);
            }
        }
    }
}

/// A tool name the worker gets: one its manifest exposes in this mode, web
/// search when granted (outside `format_swo`), and the skill tools when
/// skills are on offer.
pub open spec fn worker_tool_wanted(
    caps: Seq<CapabilityGrant>,
    mode: Seq<char>,
    has_skills: bool,
    name: Seq<char>,
) -> bool {
    ||| exposed_names(all_tools(), caps, mode, allows_direct_hire(mode)).contains(name)
    ||| caps.contains(CapabilityGrant::WebSearch) && mode != "format_swo"@ && name == "web_search"@
    ||| has_skills && (name == "list_available_skills"@ || name == "load_skill"@)
}

/// The tool names handed to a worker, sorted and without repeats.
pub fn worker_tool_list(manifest: &AgentManifestV1, mode: &str, has_skills: bool) -> (r: Vec<
    String,
>)
    ensures
        strictly_sorted(r.deep_view()),
        forall|x: Seq<char>| #[trigger]
            r.deep_view().contains(x) <==> worker_tool_wanted(
                manifest.capabilities@,
                mode@,
                has_skills,
                x,
            ),
{
    let allow_hire = !str_equals(mode, "execute_ideation");
    let exposed = manifest.allowed_worker_tools_for_mode(mode, allow_hire);
    let ghost names = exposed.deep_view();
    let mut out: Vec<String> = Vec::new();
    let mut i: usize = 0;
    while i < exposed.len()
        invariant
            i <= exposed.len(),
            exposed.deep_view() == names,
            strictly_sorted(out.deep_view()),
            forall|x: Seq<char>| #[trigger]
                out.deep_view().contains(x) <==> names.subrange(0, i as int).contains(x),
        decreases exposed.len() - i,
    {
        let ghost prev = names.subrange(0, i as int);
        insert_sorted_unique(&mut out, owned(exposed[i].as_str()));
        proof {
            let next = names.subrange(0, i + 1);
            assert(next =~= prev.push(names[i as int]));
            assert forall|x: Seq<char>| next.contains(x) <==> (prev.contains(x) || x == names[i as int]) by {
                if next.contains(x) {
                    let k = choose|k: int| 0 <= k < next.len() && next[k] == x;
                    if k < i {
                        assert(prev[k] == x);
                    }
                }
                if prev.contains(x) {
                    let k = choose|k: int| 0 <= k < prev.len() && prev[k] == x;
                    assert(next[k] == x);
                }
                if x == names[i as int] {
                    assert(next[i as int] == x);
                }
            }
        }
        i = i + 1;
    }
    assert(names.subrange(0, names.len() as int) =~= names);
    let web = manifest.has_capability(&CapabilityGrant::WebSearch) && !str_equals(mode, "format_swo");
    if web {
        insert_sorted_unique(&mut out, owned("web_search"));
    }
    if has_skills {
        insert_sorted_unique(&mut out, owned("list_available_skills"));
        insert_sorted_unique(&mut out, owned("load_skill"));
    }
    out
}

/// What stands in a status line for the kernel's side-channel token.
pub const SIDECHANNEL_TOKEN_MARKER: &'static str = "[REDACTED_SIDECHANNEL_TOKEN]";

/// What stands in a status line for a run's own token.
pub const RUN_TOKEN_MARKER: &'static str = "[REDACTED_RUN_TOKEN]";

/// A worker's output line with every copy of the side-channel token masked.
pub fn redact_sidechannel_token(line: &str, token: &str) -> (r: String)
    ensures
        r@ == crate::text::replaced(line@, token@, SIDECHANNEL_TOKEN_MARKER@),
{
    crate::text::replace_all(line, token, SIDECHANNEL_TOKEN_MARKER)
}

/// A heartbeat line with every copy of its run token masked.
pub fn redact_run_token(line: &str, token: &str) -> (r: String)
    ensures
        r@ == crate::text::replaced(line@, token@, RUN_TOKEN_MARKER@),
{
    crate::text::replace_all(line, token, RUN_TOKEN_MARKER)
}

/// What a line of worker stderr carries.
pub enum StderrLine {
    /// A piece of streamed reply text.
    Delta { message_id: String, delta: String, is_final: bool, agent_id: Option<String> },
    /// A side-channel message of a known kind, sent with the run's token.
    Sidechannel { kind: SidechannelKind, message: serde_json::Value },
    /// Anything else: shown as worker output.
    Plain,
}

/// The streamed delta a line carries: a JSON object marked
/// `"__sairgent_delta": true` with string `message_id` and `delta`.
pub open spec fn delta_of(line: Seq<char>) -> Option<(Seq<char>, Seq<char>, bool, Option<Seq<char>>)> {
    if contains_sub(line, "\"__sairgent_delta\":"@) && json_parse_result(line) is Some {
        let v = json_parse_result(line)->0;
        if view_field(v, "__sairgent_delta"@) == JsonView::Bool(true) && view_str(
            view_field(v, "message_id"@),
        ) is Some && view_str(view_field(v, "delta"@)) is Some {
            Some(
                (
                    view_str(view_field(v, "message_id"@))->0,
                    view_str(view_field(v, "delta"@))->0,
                    view_field(v, "is_final"@) == JsonView::Bool(true),
                    view_str(view_field(v, "agent_id"@)),
                ),
            )
        } else {
            None
        }
    } else {
        None
    }
}

/// The side-channel message a line carries: a JSON object holding the
/// side-channel marker, sent with the run's token (a missing token counts
/// as empty), naming a known kind.
pub open spec fn sidechannel_of(line: Seq<char>, run_token: Seq<char>) -> Option<(SidechannelKind, JsonView)> {
    if contains_sub(line, "\"__sairgent_sidechannel\":"@) && json_parse_result(line) is Some {
        let v = json_parse_result(line)->0;
        let token = match view_str(view_field(v, "token"@)) {
            Some(t) => t,
            None => Seq::empty(),
        };
        let kind = match view_str(view_field(v, "__sairgent_sidechannel"@)) {
            Some(n) => sidechannel_kind_of(n),
            None => SidechannelKind::Unknown,
        };
        if token == run_token && kind != SidechannelKind::Unknown {
            Some((kind, v))
        } else {
            None
        }
    } else {
        None
    }
}

pub open spec fn opt_string_view(o: Option<String>) -> Option<Seq<char>> {
    match o {
        Some(s) => Some(s@),
        None => None,
    }
}

/// Sorts a line of worker stderr: a streamed delta first, then a
/// side-channel message, else plain output.
pub fn classify_stderr_line(line: &str, run_token: &str) -> (r: StderrLine)
    ensures
        match r {
            StderrLine::Delta { message_id, delta, is_final, agent_id } => delta_of(line@) == Some(
                (message_id@, delta@, is_final, opt_string_view(agent_id)),
            ),
            StderrLine::Sidechannel { kind, message } => delta_of(line@) is None && sidechannel_of(
                line@,
                run_token@,
            ) == Some((kind, json_view(message))),
            StderrLine::Plain => delta_of(line@) is None && sidechannel_of(line@, run_token@) is None,
        },
{
    if str_contains(line, "\"__sairgent_delta\":") {
        match json_parse(line) {
            Some(v) => {
                let marker = json_field(&v, "__sairgent_delta");
                let flag = json_as_bool(&marker);
                let id = json_as_str(&json_field(&v, "message_id"));
                let text = json_as_str(&json_field(&v, "delta"));
                if flag == Some(true) {
                    match (id, text) {
                        (Some(message_id), Some(delta)) => {
                            let is_final = match json_as_bool(&json_field(&v, "is_final")) {
                                Some(b) => b,
                                None => false,
                            };
                            let agent_id = json_as_str(&json_field(&v, "agent_id"));
                            return StderrLine::Delta { message_id, delta, is_final, agent_id };
                        },
                        _ => {},
                    }
                }
            },
            None => {},
        }
    }
    if str_contains(line, "\"__sairgent_sidechannel\":") {
        match json_parse(line) {
            Some(v) => {
                let token = match json_as_str(&json_field(&v, "token")) {
                    Some(t) => t,
                    None => String::new(),
                };
                let kind = match json_as_str(&json_field(&v, "__sairgent_sidechannel")) {
                    Some(n) => SidechannelKind::parse(n.as_str()),
                    None => SidechannelKind::Unknown,
                };
                let known = match kind {
                    SidechannelKind::Unknown => false,
                    _ => true,
                };
                if str_equals(token.as_str(), run_token) && known {
                    return StderrLine::Sidechannel { kind, message: v };
                }
            },
            None => {},
        }
    }
    StderrLine::Plain
}

/// An id the subordinate list names: the `id` text of one of its items.
pub open spec fn names_subordinate(subordinates: Option<JsonView>, id: Seq<char>) -> bool {
    subordinates matches Some(JsonView::Array(items)) && exists|i: int|
        0 <= i < items.len() && view_str(view_field(#[trigger] items[i], "id"@)) == Some(id)
}

/// The ids a worker may dispatch work to: those of the subordinate list it
/// was given (none when the list is not a JSON array).
pub fn allowed_dispatch_ids(subordinates_json: &str) -> (r: Vec<String>)
    ensures
        forall|id: Seq<char>|
            #![trigger listed(r@, id)]
            listed(r@, id) <==> names_subordinate(json_parse_result(subordinates_json@), id),
{
    let mut out: Vec<String> = Vec::new();
    let parsed = json_parse(subordinates_json);
    let items = match &parsed {
        Some(v) => json_array_items(v),
        None => None,
    };
    match items {
        Some(xs) => {
            let ghost views = match json_parse_result(subordinates_json@) {
                Some(JsonView::Array(items)) => items,
                _ => Seq::empty(),
            };
            let mut i: usize = 0;
            while i < xs.len()
                invariant
                    i <= xs@.len(),
                    xs@.len() == views.len(),
                    forall|k: int| 0 <= k < views.len() ==> json_view(#[trigger] xs@[k]) == views[k],
                    forall|id: Seq<char>|
                        #![trigger listed(out@, id)]
                        listed(out@, id) <==> exists|k: int|
                            0 <= k < i && view_str(view_field(#[trigger] views[k], "id"@)) == Some(id),
                decreases xs.len() - i,
            {
                let ghost before = out@;
                match json_as_str(&json_field(&xs[i], "id")) {
                    Some(id) => {
                        out.push(id);
                    },
                    None => {},
                }
                proof {
                    assert(json_view(xs@[i as int]) == views[i as int]);
                    assert forall|id: Seq<char>|
                        listed(out@, id) <==> exists|k: int|
                            0 <= k < i + 1 && view_str(view_field(#[trigger] views[k], "id"@))
                                == Some(id) by {
                        if listed(out@, id) {
                            let j = choose|j: int| 0 <= j < out@.len() && #[trigger] out@[j]@ == id;
                            if j < before.len() {
                                assert(before[j]@ == id);
                                assert(listed(before, id));
                            } else {
                                assert(view_str(view_field(views[i as int], "id"@)) == Some(id));
                            }
                        }
                        if exists|k: int|
                            0 <= k < i + 1 && view_str(view_field(#[trigger] views[k], "id"@))
                                == Some(id) {
                            let k = choose|k: int|
                                0 <= k < i + 1 && view_str(view_field(#[trigger] views[k], "id"@))
                                    == Some(id);
                            if k < i {
                                assert(view_str(view_field(views[k], "id"@)) == Some(id));
                                assert(listed(before, id));
                                let j = choose|j: int| 0 <= j < before.len() && #[trigger] before[j]@ == id;
                                assert(out@[j] == before[j]);
                            } else {
                                assert(out@[out@.len() - 1]@ == id);
                            }
                        }
                    }
                }
                i = i + 1;
            }
        },
        None => {
            proof {
                assert forall|id: Seq<char>| !names_subordinate(json_parse_result(subordinates_json@), id) by {}
            }
        },
    }
    out
}

/// Whether a running worker is stalled: no progress for
/// `WORKER_STALL_TIMEOUT_SECS` seconds (times in milliseconds).
pub fn worker_stalled(now_ms: i64, last_progress_ms: i64) -> (r: bool)
    ensures
        r == (now_ms - last_progress_ms >= crate::orchestrator::WORKER_STALL_TIMEOUT_SECS * 1000),
{
    (now_ms as i128) - (last_progress_ms as i128) >= 120_000i128
}

} // verus!
