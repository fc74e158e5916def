//! The desktop workspace's data views and the pure decisions behind them:
//! artifact previews, runtime principals and status, approval items.

use vstd::prelude::*;
use vstd::string::*;
use crate::paths::{
    bare_file_name, file_name_extension, last_segment, path_extension, portable_file_path,
};
use crate::text::{
    ascii_lowercase, ascii_lowercase_str, chars_of, contains_sub, has_prefix, int_text, i64_text,
    join, join_strings, nat_text, owned, slice_vec, str_contains, str_equals, str_starts_with,
    string_of, to_lowercase, trim, trim_str, u64_text, unicode_lowercase,
};
use vstd::utf8::{encode_scalar, encode_utf8};

verus! {

pub struct RuntimePrincipalView {
    pub kind: String,
    pub id: Option<String>,
    pub display_name: Option<String>,
}

pub struct RuntimeEnvelopeView {
    pub id: String,
    pub correlation_id: String,
    pub source: String,
    pub principal: RuntimePrincipalView,
    pub audience: String,
    pub redaction_class: String,
    pub occurred_at: i64,
    pub cursor: String,
}

pub struct RuntimeCursorView {
    pub value: String,
}

pub struct RuntimeBootstrapView {
    pub cursor: RuntimeCursorView,
    pub hsm_status: String,
    pub runtime_context: Option<RuntimeContextView>,
    pub queue: Vec<SwoRecordView>,
    pub roster: Vec<AgentTreeNodeView>,
    pub approvals: Vec<ApprovalQueueItemView>,
    pub recent_artifacts: Vec<OutboxArtifactView>,
    pub attention_summary: InboxAttentionSummaryView,
    pub projects: Vec<ProjectView>,
    pub inbox_items: Vec<InboxItemView>,
}

pub struct RuntimeContextView {
    pub company_name: Option<String>,
    pub profile_id: Option<String>,
    pub company_charter_source: Option<String>,
    pub company_summary: Option<String>,
    pub autonomous_hiring_mode: Option<String>,
    pub active_seed_spec_path: Option<String>,
    pub last_archive_path: Option<String>,
    pub sairgent_agent_id: Option<String>,
}

pub struct SwoRecordView {
    pub id: i64,
    pub assignee: String,
    pub owner: String,
    pub created_by: String,
    pub status: String,
    pub kind: String,
    pub source: String,
    pub work_order_title: Option<String>,
    pub work_order_outcome: Option<String>,
    pub work_order_constraints: Option<String>,
    pub requested_owner: Option<String>,
    pub requested_assignee: Option<String>,
    pub routing_policy: String,
    pub initiative_id: Option<String>,
    pub initiative_name: Option<String>,
    pub initiative_owner: Option<String>,
    pub priority_class: Option<String>,
    pub payload: String,
    pub created_at: String,
    pub retry_count: i32,
    pub actual_child_assignees: Vec<String>,
    pub child_swo_count: usize,
    pub review_status: String,
    pub mismatch_flags: Vec<String>,
    pub parent_swo_id: Option<i64>,
    pub review_response: Option<String>,
}

pub struct ApprovalQueueItemView {
    pub id: String,
    pub swo_id: i64,
    pub title: String,
    pub reason: String,
    pub owner: String,
    pub status: String,
}

pub struct OutboxArtifactView {
    pub id: i64,
    pub agent: String,
    pub agent_id: Option<String>,
    pub swo_id: Option<i64>,
    pub parent_swo_id: Option<i64>,
    pub project_id: Option<String>,
    pub project_name: Option<String>,
    pub source_work_order_title: Option<String>,
    pub source_work_order_outcome: Option<String>,
    pub source_status: Option<String>,
    pub absolute_path: String,
    pub filename: String,
    pub created_at: String,
}

pub struct InboxItemView {
    pub id: String,
    pub kind: String,
    pub status: String,
    pub priority: String,
    pub title: String,
    pub summary: String,
    pub created_at: String,
    pub updated_at: String,
    pub project_id: Option<String>,
    pub project_name: Option<String>,
    pub swo_id: Option<i64>,
    pub artifact_id: Option<i64>,
    pub agent_id: Option<String>,
}

pub struct InboxAttentionSummaryView {
    pub open_inbox_items: i64,
    pub open_approval_items: i64,
    pub open_deliverable_items: i64,
    pub open_blocked_items: i64,
}

pub struct ProjectView {
    pub project_id: String,
    pub name: String,
    pub summary: String,
    pub status: String,
    pub owner: String,
    pub priority: String,
    pub target_outcome: String,
    pub tags: Vec<String>,
    pub created_at: String,
    pub updated_at: String,
}

pub struct AgentSummaryView {
    pub id: String,
    pub name: String,
    pub role: String,
}

pub struct AgentOrgProfileView {
    pub agent_id: String,
    pub org_class: String,
    pub team_goal_ids: Vec<String>,
    pub delegation_policy: String,
    pub review_policy: String,
    pub managed_domains: Vec<String>,
    pub quality_rubric: String,
    pub max_delegation_depth: i64,
    pub max_parallel_delegates: i64,
    pub manager_can_hire: bool,
    pub manager_can_restructure: bool,
    pub updated_at: String,
}

pub struct AgentTreeNodeView {
    pub id: String,
    pub name: String,
    pub role: String,
    pub manager: Option<AgentSummaryView>,
    pub org_profile: AgentOrgProfileView,
    pub depth: usize,
    pub is_direct_report: bool,
    pub direct_report_count: usize,
    pub descendant_count: usize,
    pub cron_enabled: bool,
    pub presence: String,
    pub last_seen_unix_ms: Option<i64>,
    pub last_seen_age_ms: Option<i64>,
    pub last_cron_fired_at: Option<String>,
    pub children: Vec<AgentTreeNodeView>,
    pub default_provider: String,
    pub model: String,
    pub triage_model: Option<String>,
    pub execution_model: Option<String>,
    pub raison_detre: String,
    pub persona_prompt: String,
}

pub struct HeartbeatEventView {
    pub run_id: String,
    pub status: String,
    pub last_seen_unix_ms: i64,
    pub last_seen_age_ms: i64,
    pub seq: i64,
}

pub struct DirectReportSummaryView {
    pub id: String,
    pub name: String,
    pub role: String,
    pub cron_enabled: bool,
    pub presence: String,
    pub last_seen_unix_ms: Option<i64>,
    pub last_seen_age_ms: Option<i64>,
}

pub struct TeamGoalView {
    pub goal_id: String,
    pub team_owner_agent_id: String,
    pub title: String,
    pub summary: String,
    pub status: String,
    pub priority: String,
    pub success_criteria: String,
    pub managed_domain_tags: Vec<String>,
    pub created_at: String,
    pub updated_at: String,
    pub archived_at: Option<String>,
}

pub struct DelegationDecisionRecordView {
    pub id: String,
    pub swo_id: i64,
    pub manager_agent_id: String,
    pub decision: String,
    pub candidate_assignees: Vec<String>,
    pub selected_agent_id: Option<String>,
    pub fit_reason: Option<String>,
    pub exception_code: Option<String>,
    pub exception_reason: Option<String>,
    pub team_gap_code: Option<String>,
    pub created_at: String,
}

pub struct TeamGapRecordView {
    pub id: String,
    pub swo_id: i64,
    pub manager_agent_id: String,
    pub gap_code: String,
    pub summary: String,
    pub recommended_action: String,
    pub created_at: String,
}

pub struct SkillBindingView {
    pub id: String,
    pub name: String,
    pub slug: String,
    pub summary: String,
    pub tags: Vec<String>,
    pub trigger_hints: Vec<String>,
    pub source_uri: Option<String>,
    pub current_version: i64,
    pub priority: i64,
    pub binding_status: String,
    pub preselected: bool,
    pub runtime_path: Option<String>,
}

pub struct AgentToolBindingView {
    pub slug: String,
    pub name: String,
    pub summary: String,
    pub tool_kind: String,
    pub provider_slug: String,
    pub required_capability: String,
    pub binding_status: String,
}

pub struct AgentMcpBindingView {
    pub connector_id: String,
    pub connector_slug: String,
    pub connector_name: String,
    pub transport: String,
    pub binding_status: String,
}

pub struct AgentManifestView {
    pub version: String,
    pub name: String,
    pub role: String,
    pub mission: String,
    pub persona_prompt: String,
    pub provider_name: String,
    pub model: String,
    pub protocol_family: String,
    pub capabilities: Vec<String>,
    pub cron_interval_seconds: Option<i64>,
    pub autonomous_heartbeat: bool,
}

pub struct CharterSettingsView {
    pub raison_detre: String,
    pub provider: String,
    pub model: String,
    pub cron_interval_seconds: Option<i64>,
}

pub struct AgentDetailView {
    pub id: String,
    pub name: String,
    pub role: String,
    pub manager: Option<AgentSummaryView>,
    pub org_profile: AgentOrgProfileView,
    pub team_goals: Vec<TeamGoalView>,
    pub delegation_decisions: Vec<DelegationDecisionRecordView>,
    pub team_gaps: Vec<TeamGapRecordView>,
    pub direct_reports: Vec<DirectReportSummaryView>,
    pub persona_prompt: String,
    pub raison_detre: String,
    pub provider: String,
    pub model: String,
    pub triage_model: Option<String>,
    pub execution_model: Option<String>,
    pub cron_interval_seconds: Option<i64>,
    pub presence: String,
    pub last_seen_unix_ms: Option<i64>,
    pub last_seen_age_ms: Option<i64>,
    pub last_cron_fired_at: Option<String>,
    pub heartbeat_timeline: Vec<HeartbeatEventView>,
    pub assigned_swos: Vec<SwoRecordView>,
    pub owned_swos: Vec<SwoRecordView>,
    pub created_swos: Vec<SwoRecordView>,
    pub charter_settings: CharterSettingsView,
    pub manifest: AgentManifestView,
    pub bound_skills: Vec<SkillBindingView>,
    pub bound_tools: Vec<AgentToolBindingView>,
    pub mcp_bindings: Vec<AgentMcpBindingView>,
}

pub struct ArtifactPreviewView {
    pub artifact_id: i64,
    pub filename: String,
    pub content_type: String,
    pub render_mode: String,
    pub content: String,
    pub size_bytes: i64,
    pub truncated: bool,
}

/// Largest artifact prefix shown in a preview, in bytes.
pub const MAX_ARTIFACT_PREVIEW_BYTES: u64 = 262144;

/// Content type of a workspace artifact by file extension.
pub open spec fn artifact_content_type(ext: Option<Seq<char>>) -> Seq<char> {
    match ext {
        Some(e) => {
            let l = ascii_lowercase(e);
            if l == "md"@ || l == "markdown"@ {
                "text/markdown"@
            } else if l == "txt"@ || l == "log"@ {
                "text/plain"@
            } else if l == "json"@ {
                "application/json"@
            } else if l == "csv"@ {
                "text/csv"@
            } else if l == "yaml"@ || l == "yml"@ {
                "application/yaml"@
            } else if l == "html"@ || l == "htm"@ {
                "text/html"@
            } else if l == "rs"@ || l == "ts"@ || l == "tsx"@ || l == "js"@ || l == "jsx"@ || l
                == "py"@ || l == "go"@ {
                "text/plain"@
            } else if l == "png"@ {
                "image/png"@
            } else if l == "jpg"@ || l == "jpeg"@ {
                "image/jpeg"@
            } else if l == "pdf"@ {
                "application/pdf"@
            } else {
                "application/octet-stream"@
            }
        },
        None => "application/octet-stream"@,
    }
}

pub fn artifact_content_type_for(ext: Option<&str>) -> (r: String)
    ensures
        r@ == artifact_content_type(
            match ext {
                Some(e) => Some(e@),
                None => None,
            },
        ),
{
    match ext {
        Some(e) => {
            let l = ascii_lowercase_str(e);
            let l = l.as_str();
            if str_equals(l, "md") || str_equals(l, "markdown") {
                owned("text/markdown")
            } else if str_equals(l, "txt") || str_equals(l, "log") {
                owned("text/plain")
            } else if str_equals(l, "json") {
                owned("application/json")
            } else if str_equals(l, "csv") {
                owned("text/csv")
            } else if str_equals(l, "yaml") || str_equals(l, "yml") {
                owned("application/yaml")
            } else if str_equals(l, "html") || str_equals(l, "htm") {
                owned("text/html")
            } else if str_equals(l, "rs") || str_equals(l, "ts") || str_equals(l, "tsx")
                || str_equals(l, "js") || str_equals(l, "jsx") || str_equals(l, "py") || str_equals(
                l,
                "go",
            ) {
                owned("text/plain")
            } else if str_equals(l, "png") {
                owned("image/png")
            } else if str_equals(l, "jpg") || str_equals(l, "jpeg") {
                owned("image/jpeg")
            } else if str_equals(l, "pdf") {
                owned("application/pdf")
            } else {
                owned("application/octet-stream")
            }
        },
        None => owned("application/octet-stream"),
    }
}

/// Content type of an artifact at `path`.
pub fn infer_artifact_content_type(path: &str) -> (r: String)
    ensures
        exists|ext: Option<Seq<char>>| r@ == artifact_content_type(ext),
        bare_file_name(path@) ==> r@ == artifact_content_type(file_name_extension(path@)),
        portable_file_path(path@) ==> r@ == artifact_content_type(file_name_extension(last_segment(path@))),
{
    match path_extension(path) {
        Some(e) => artifact_content_type_for(Some(e.as_str())),
        None => artifact_content_type_for(None),
    }
}

pub open spec fn spec_text_previewable(content_type: Seq<char>) -> bool {
    has_prefix(content_type, "text/"@) || content_type == "application/json"@ || content_type
        == "application/yaml"@
}

pub fn is_text_previewable(content_type: &str) -> (r: bool)
    ensures
        r == spec_text_previewable(content_type@),
{
    str_starts_with(content_type, "text/") || str_equals(content_type, "application/json")
        || str_equals(content_type, "application/yaml")
}

pub open spec fn render_mode(content_type: Seq<char>) -> Seq<char> {
    if contains_sub(content_type, "markdown"@) {
        "markdown"@
    } else if contains_sub(content_type, "json"@) {
        "json"@
    } else if has_prefix(content_type, "text/"@) {
        "text"@
    } else {
        "binary"@
    }
}

pub fn artifact_render_mode(content_type: &str) -> (r: &'static str)
    ensures
        r@ == render_mode(content_type@),
{
    if str_contains(content_type, "markdown") {
        return "markdown";
    }
    if str_contains(content_type, "json") {
        return "json";
    }
    if str_starts_with(content_type, "text/") {
        return "text";
    }
    "binary"
}

#[derive(Clone, Copy, PartialEq, Eq, Structural)]
pub enum RuntimeAudienceValue {
    Desktop,
    Operator,
    Internal,
    ExternalAdapter,
}

impl RuntimeAudienceValue {
    pub fn as_str(self) -> (r: &'static str)
        ensures
            r@ == match self {
                RuntimeAudienceValue::Desktop => "desktop"@,
                RuntimeAudienceValue::Operator => "operator"@,
                RuntimeAudienceValue::Internal => "internal"@,
                RuntimeAudienceValue::ExternalAdapter => "external_adapter"@,
            },
    {
        match self {
            RuntimeAudienceValue::Desktop => "desktop",
            RuntimeAudienceValue::Operator => "operator",
            RuntimeAudienceValue::Internal => "internal",
            RuntimeAudienceValue::ExternalAdapter => "external_adapter",
        }
    }
}

#[derive(Clone, Copy, PartialEq, Eq, Structural)]
pub enum RuntimeRedactionClassValue {
    OperatorSafe,
    InternalOnly,
    SecretAdjacent,
}

impl RuntimeRedactionClassValue {
    pub fn as_str(self) -> (r: &'static str)
        ensures
            r@ == match self {
                RuntimeRedactionClassValue::OperatorSafe => "operator_safe"@,
                RuntimeRedactionClassValue::InternalOnly => "internal_only"@,
                RuntimeRedactionClassValue::SecretAdjacent => "secret_adjacent"@,
            },
    {
        match self {
            RuntimeRedactionClassValue::OperatorSafe => "operator_safe",
            RuntimeRedactionClassValue::InternalOnly => "internal_only",
            RuntimeRedactionClassValue::SecretAdjacent => "secret_adjacent",
        }
    }
}

/// The operator at the desktop workspace.
pub fn workspace_operator_principal() -> (r: RuntimePrincipalView)
    ensures
        r.kind@ == "operator"@,
        r.id matches Some(id) && id@ == "workspace-operator"@,
        r.display_name matches Some(n) && n@ == "Workspace Operator"@,
{
    RuntimePrincipalView {
        kind: owned("operator"),
        id: Some(owned("workspace-operator")),
        display_name: Some(owned("Workspace Operator")),
    }
}

/// The runtime itself, as the source of system signals.
pub fn system_runtime_principal() -> (r: RuntimePrincipalView)
    ensures
        r.kind@ == "system"@,
        r.id is None,
        r.display_name matches Some(n) && n@ == "Sairgent Runtime"@,
{
    RuntimePrincipalView {
        kind: owned("system"),
        id: None,
        display_name: Some(owned("Sairgent Runtime")),
    }
}

/// Operator-facing runtime status: internal detail is dropped, known states
/// pass through, and in-flight states are summarized.
pub open spec fn sanitized_status(status: Seq<char>) -> Option<Seq<char>> {
    let t = trim(status);
    if t.len() == 0 {
        None
    } else if contains_sub(t, "stdout:"@) || contains_sub(t, "stderr:"@) {
        None
    } else if t == "READY"@ || t == "THINKING"@ || t == "ERROR"@ {
        Some(t)
    } else if contains_sub(t, "DELEGATING"@) {
        Some("DELEGATING"@)
    } else if contains_sub(t, "SYNTHESIZING"@) {
        Some("SYNTHESIZING"@)
    } else if contains_sub(t, "IN_PROGRESS"@) {
        Some("WORKING"@)
    } else {
        None
    }
}

pub fn sanitize_runtime_status(status: &str) -> (r: Option<String>)
    ensures
        match r {
            Some(s) => sanitized_status(status@) == Some(s@),
            None => sanitized_status(status@) is None,
        },
{
    let trimmed = trim_str(status);
    let t = trimmed.as_str();
    if t.unicode_len() == 0 {
        return None;
    }
    if str_contains(t, "stdout:") || str_contains(t, "stderr:") {
        return None;
    }
    if str_equals(t, "READY") || str_equals(t, "THINKING") || str_equals(t, "ERROR") {
        return Some(owned(t));
    }
    if str_contains(t, "DELEGATING") {
        return Some(owned("DELEGATING"));
    }
    if str_contains(t, "SYNTHESIZING") {
        return Some(owned("SYNTHESIZING"));
    }
    if str_contains(t, "IN_PROGRESS") {
        return Some(owned("WORKING"));
    }
    None
}

/// Replaces every `_` with a space.
pub open spec fn underscores_to_spaces(s: Seq<char>) -> Seq<char> {
    s.map_values(|c: char| if c == '_' { ' ' } else { c })
}

pub fn underscores_to_spaces_str(s: &str) -> (r: String)
    ensures
        r@ == underscores_to_spaces(s@),
{
    let v = chars_of(s);
    let mut out: Vec<char> = Vec::new();
    let mut i: usize = 0;
    while i < v.len()
        invariant
            i <= v.len(),
            v@ == s@,
            out@ == underscores_to_spaces(v@.subrange(0, i as int)),
        decreases v.len() - i,
    {
        let c = v[i];
        out.push(if c == '_' { ' ' } else { c });
        assert(underscores_to_spaces(v@.subrange(0, i + 1)) =~= underscores_to_spaces(
            v@.subrange(0, i as int),
        ).push(if c == '_' { ' ' } else { c }));
        i = i + 1;
    }
    assert(v@.subrange(0, v.len() as int) =~= v@);
    string_of(&out)
}

/// A work order needs operator review when it has a review status, a
/// mismatch flag, or priority class `REVIEW`.
pub open spec fn needs_review(record: &SwoRecordView) -> bool {
    record.review_status@ != "NO_REVIEW"@ || record.mismatch_flags@.len() > 0
        || (record.priority_class matches Some(p) && p@ == "REVIEW"@)
}

pub open spec fn approval_reason(record: &SwoRecordView) -> Seq<char> {
    if record.mismatch_flags@.len() > 0 {
        underscores_to_spaces(join(record.mismatch_flags.deep_view(), ", "@))
    } else if record.review_status@ != "NO_REVIEW"@ {
        underscores_to_spaces(record.review_status@)
    } else {
        "Review required"@
    }
}

pub fn build_approval_queue_item(record: &SwoRecordView) -> (r: Option<ApprovalQueueItemView>)
    ensures
        r is Some <==> needs_review(record),
        r matches Some(item) ==> {
            &&& item.id@ == "approval-"@ + int_text(record.id as int)
            &&& item.swo_id == record.id
            &&& item.title@ == match record.work_order_title {
                Some(t) => t@,
                None => "Work order #"@ + int_text(record.id as int),
            }
            &&& item.reason@ == approval_reason(record)
            &&& item.owner@ == record.owner@
            &&& item.status@ == record.status@
        },
{
    let no_review = str_equals(record.review_status.as_str(), "NO_REVIEW");
    let review_priority = match &record.priority_class {
        Some(p) => str_equals(p.as_str(), "REVIEW"),
        None => false,
    };
    let needs = !no_review || record.mismatch_flags.len() > 0 || review_priority;
    if !needs {
        return None;
    }
    let reason = if record.mismatch_flags.len() > 0 {
        let joined = join_strings(&record.mismatch_flags, ", ");
        underscores_to_spaces_str(joined.as_str())
    } else if !no_review {
        underscores_to_spaces_str(record.review_status.as_str())
    } else {
        owned("Review required")
    };
    let mut id = owned("approval-");
    let n = i64_text(record.id);
    id.append(n.as_str());
    let title = match &record.work_order_title {
        Some(t) => t.clone(),
        None => {
            let mut t = owned("Work order #");
            t.append(n.as_str());
            t
        },
    };
    Some(
        ApprovalQueueItemView {
            id,
            swo_id: record.id,
            title,
            reason,
            owner: record.owner.clone(),
            status: record.status.clone(),
        },
    )
}


/// Value of a string of decimal digits.
pub open spec fn digits_value(s: Seq<char>) -> int
    decreases s.len(),
{
    if s.len() == 0 {
        0
    } else {
        digits_value(s.drop_last()) * 10 + (s.last() as int - 48)
    }
}

pub open spec fn is_digit(c: char) -> bool {
    '0' <= c <= '9'
}

pub open spec fn all_digits(s: Seq<char>) -> bool {
    forall|i: int| 0 <= i < s.len() ==> is_digit(#[trigger] s[i])
}

/// `u64::from_str`: an optional `+`, then one or more decimal digits whose
/// value fits in 64 bits.
pub open spec fn parse_u64(s: Seq<char>) -> Option<u64> {
    let d = if s.len() > 0 && s[0] == '+' {
        s.drop_first()
    } else {
        s
    };
    if d.len() > 0 && all_digits(d) && digits_value(d) <= u64::MAX {
        Some(digits_value(d) as u64)
    } else {
        None
    }
}

proof fn lemma_digits_value_nonneg(s: Seq<char>)
    requires
        all_digits(s),
    ensures
        digits_value(s) >= 0,
    decreases s.len(),
{
    if s.len() > 0 {
        lemma_digits_value_nonneg(s.drop_last());
    }
}

proof fn lemma_digits_value_prefix(s: Seq<char>, i: int)
    requires
        all_digits(s),
        0 <= i <= s.len(),
    ensures
        digits_value(s.subrange(0, i)) <= digits_value(s),
    decreases s.len() - i,
{
    if i < s.len() {
        lemma_digits_value_prefix(s, i + 1);
        let p = s.subrange(0, i + 1);
        assert(p.drop_last() =~= s.subrange(0, i));
        lemma_digits_value_nonneg(s.subrange(0, i));
    } else {
        assert(s.subrange(0, i) =~= s);
    }
}

/// Parses decimal text as `u64::from_str` does.
pub fn parse_u64_text(s: &str) -> (r: Option<u64>)
    ensures
        r == parse_u64(s@),
{
    let v = chars_of(s);
    let start: usize = if v.len() > 0 && v[0] == '+' {
        1
    } else {
        0
    };
    let ghost d = if v@.len() > 0 && v@[0] == '+' {
        v@.drop_first()
    } else {
        v@
    };
    assert(d =~= v@.subrange(start as int, v.len() as int));
    assert(parse_u64(v@) == (if d.len() > 0 && all_digits(d) && digits_value(d) <= u64::MAX {
        Some(digits_value(d) as u64)
    } else {
        None
    }));
    if start >= v.len() {
        return None;
    }
    let mut value: u64 = 0;
    let mut i: usize = start;
    while i < v.len()
        invariant
            start <= i <= v.len(),
            v@ == s@,
            d == v@.subrange(start as int, v.len() as int),
            parse_u64(v@) == (if d.len() > 0 && all_digits(d) && digits_value(d) <= u64::MAX {
                Some(digits_value(d) as u64)
            } else {
                None
            }),
            all_digits(v@.subrange(start as int, i as int)),
            value == digits_value(v@.subrange(start as int, i as int)),
        decreases v.len() - i,
    {
        let c = v[i];
        let ghost pre = v@.subrange(start as int, i + 1);
        assert(pre.drop_last() =~= v@.subrange(start as int, i as int));
        if !('0' <= c && c <= '9') {
            assert(!is_digit(d[i - start]));
            assert(!all_digits(d));
            assert(parse_u64(v@) is None);
            return None;
        }
        let k: u64 = (c as u32 - 48) as u64;
        match value.checked_mul(10) {
            None => {
                proof {
                    assert(all_digits(pre));
                    assert(digits_value(pre) == value * 10 + (c as int - 48));
                    assert(value * 10 > u64::MAX);
                    if all_digits(d) {
                        assert(d.subrange(0, i + 1 - start) =~= pre);
                        lemma_digits_value_prefix(d, i + 1 - start);
                        assert(digits_value(d) > u64::MAX);
                    }
                    assert(parse_u64(v@) is None);
                }
                return None;
            },
            Some(m) => match m.checked_add(k) {
                None => {
                    proof {
                        assert(all_digits(pre));
                        assert(digits_value(pre) == m + k);
                        if all_digits(d) {
                            assert(d.subrange(0, i + 1 - start) =~= pre);
                            lemma_digits_value_prefix(d, i + 1 - start);
                            assert(digits_value(d) > u64::MAX);
                        }
                    }
                    return None;
                },
                Some(n) => {
                    value = n;
                },
            },
        }
        i = i + 1;
    }
    Some(value)
}

/// The number in a `runtime-<n>` replay cursor.
pub open spec fn cursor_number(cursor: Option<Seq<char>>) -> Option<u64> {
    match cursor {
        Some(c) => if has_prefix(c, "runtime-"@) {
            parse_u64(c.subrange(8, c.len() as int))
        } else {
            None
        },
        None => None,
    }
}

pub fn parse_runtime_cursor(cursor: Option<&str>) -> (r: Option<u64>)
    ensures
        r == cursor_number(
            match cursor {
                Some(c) => Some(c@),
                None => None,
            },
        ),
{
    match cursor {
        None => None,
        Some(c) => {
            if !str_starts_with(c, "runtime-") {
                return None;
            }
            proof {
                reveal_strlit("runtime-");
            }
            let v = chars_of(c);
            let rest = slice_vec(&v, 8, v.len());
            let text = string_of(&rest);
            parse_u64_text(text.as_str())
        },
    }
}

/// The replay cursor text for sequence number `n`.
pub open spec fn cursor_text(n: nat) -> Seq<char> {
    "runtime-"@ + nat_text(n)
}

/// The runtime event bus: the last cursor handed out and the most recent
/// signals, oldest first.
pub struct RuntimeBusState<S> {
    pub next_cursor: u64,
    pub event_log: Vec<S>,
}

/// Most signals the bus keeps for replay.
pub const RUNTIME_EVENT_LOG_LIMIT: usize = 512;

/// The last `n` items of `s` (all of them if there are fewer).
pub open spec fn keep_last<S>(s: Seq<S>, n: int) -> Seq<S> {
    if s.len() <= n {
        s
    } else {
        s.subrange(s.len() - n, s.len() as int)
    }
}

impl<S> RuntimeBusState<S> {
    pub fn new() -> (r: Self)
        ensures
            r.next_cursor == 0,
            r.event_log@.len() == 0,
    {
        RuntimeBusState { next_cursor: 0, event_log: Vec::new() }
    }

    /// Hands out the next replay cursor.
    pub fn next_runtime_cursor(&mut self) -> (r: String)
        requires
            old(self).next_cursor < u64::MAX,
        ensures
            final(self).next_cursor == old(self).next_cursor + 1,
            final(self).event_log@ == old(self).event_log@,
            r@ == cursor_text(final(self).next_cursor as nat),
    {
        self.next_cursor = self.next_cursor + 1;
        let mut r = owned("runtime-");
        let n = u64_text(self.next_cursor);
        r.append(n.as_str());
        r
    }

    /// Appends a signal, keeping only the newest `RUNTIME_EVENT_LOG_LIMIT`.
    pub fn remember_runtime_signal(&mut self, signal: S)
        ensures
            final(self).event_log@ == keep_last(
                old(self).event_log@.push(signal),
                RUNTIME_EVENT_LOG_LIMIT as int,
            ),
            final(self).next_cursor == old(self).next_cursor,
    {
        let ghost all = self.event_log@.push(signal);
        self.event_log.push(signal);
        if self.event_log.len() > RUNTIME_EVENT_LOG_LIMIT {
            let drop_count = self.event_log.len() - RUNTIME_EVENT_LOG_LIMIT;
            let tail = self.event_log.split_off(drop_count);
            self.event_log = tail;
        }
    }
}

/// `char::is_control`: general category Cc.
pub open spec fn is_control(c: char) -> bool {
    (c as u32) <= 0x1f || (0x7f <= (c as u32) && (c as u32) <= 0x9f)
}

pub fn char_is_control(c: char) -> (r: bool)
    ensures
        r == is_control(c),
{
    let u = c as u32;
    u <= 0x1f || (0x7f <= u && u <= 0x9f)
}

pub open spec fn has_control(s: Seq<char>) -> bool {
    exists|i: int| 0 <= i < s.len() && is_control(#[trigger] s[i])
}

fn has_control_exec(s: &str) -> (r: bool)
    ensures
        r == has_control(s@),
{
    let v = chars_of(s);
    let mut i: usize = 0;
    while i < v.len()
        invariant
            i <= v.len(),
            v@ == s@,
            forall|j: int| 0 <= j < i ==> !is_control(#[trigger] v@[j]),
        decreases v.len() - i,
    {
        if char_is_control(v[i]) {
            return true;
        }
        i = i + 1;
    }
    false
}

/// Length of a string in UTF-8 bytes.
pub open spec fn utf8_len(s: Seq<char>) -> int {
    encode_utf8(s).len() as int
}

/// Bytes a character takes in UTF-8.
pub open spec fn char_utf8_len(c: char) -> nat {
    if (c as u32) < 0x80 {
        1
    } else if (c as u32) < 0x800 {
        2
    } else if (c as u32) < 0x10000 {
        3
    } else {
        4
    }
}

proof fn lemma_encode_utf8_push(s: Seq<char>, c: char)
    ensures
        encode_utf8(s.push(c)) == encode_utf8(s) + encode_scalar(c as u32),
    decreases s.len(),
{
    if s.len() == 0 {
        assert(s.push(c).drop_first() =~= Seq::<char>::empty());
        assert(encode_utf8(s.push(c)) =~= encode_scalar(c as u32) + encode_utf8(Seq::<char>::empty()));
        assert(encode_utf8(s) =~= Seq::<u8>::empty());
        assert(encode_utf8(s.push(c)) =~= encode_utf8(s) + encode_scalar(c as u32));
    } else {
        assert(s.push(c).drop_first() =~= s.drop_first().push(c));
        assert(s.push(c)[0] == s[0]);
        lemma_encode_utf8_push(s.drop_first(), c);
        assert(encode_utf8(s.push(c)) =~= encode_utf8(s) + encode_scalar(c as u32));
    }
}

/// The UTF-8 length of a text grows by a character's width as it is appended.
pub proof fn lemma_utf8_len_push(s: Seq<char>, c: char)
    ensures
        utf8_len(s.push(c)) == utf8_len(s) + char_utf8_len(c),
{
    lemma_encode_utf8_push(s, c);
    vstd::utf8::char_is_scalar(c);
}

pub open spec fn secret_check(label: Seq<char>, value: Seq<char>, max_len: nat) -> Result<(), Seq<char>> {
    let t = trim(value);
    if t.len() == 0 {
        Err(label + " cannot be empty."@)
    } else if utf8_len(t) > max_len {
        Err(label + " exceeds maximum length of "@ + nat_text(max_len) + " bytes."@)
    } else if has_control(t) {
        Err(label + " contains invalid control characters."@)
    } else {
        Ok(())
    }
}

pub open spec fn result_view<T>(r: Result<T, String>) -> Result<T, Seq<char>> {
    match r {
        Ok(v) => Ok(v),
        Err(e) => Err(e@),
    }
}

pub open spec fn text_result_view(r: Result<String, String>) -> Result<Seq<char>, Seq<char>> {
    match r {
        Ok(v) => Ok(v@),
        Err(e) => Err(e@),
    }
}

fn message(label: &str, tail: &str) -> (r: String)
    ensures
        r@ == label@ + tail@,
{
    let mut r = owned(label);
    r.append(tail);
    r
}

/// Checks a secret: non-blank, at most `max_len` bytes once trimmed, and
/// free of control characters.
pub fn validate_secret(label: &str, value: &str, max_len: usize) -> (r: Result<(), String>)
    ensures
        result_view(r) == secret_check(label@, value@, max_len as nat),
{
    let trimmed = trim_str(value);
    let t = trimmed.as_str();
    if t.unicode_len() == 0 {
        return Err(message(label, " cannot be empty."));
    }
    if t.as_bytes().len() > max_len {
        let mut e = message(label, " exceeds maximum length of ");
        let n = u64_text(max_len as u64);
        e.append(n.as_str());
        e.append(" bytes.");
        return Err(e);
    }
    if has_control_exec(t) {
        return Err(message(label, " contains invalid control characters."));
    }
    Ok(())
}

pub open spec fn is_slug_char(c: char) -> bool {
    ('a' <= c <= 'z') || ('0' <= c <= '9') || c == '-' || c == '_'
}

pub open spec fn is_env_var_char(c: char) -> bool {
    ('A' <= c <= 'Z') || ('0' <= c <= '9') || c == '_'
}

pub open spec fn all_slug_chars(s: Seq<char>) -> bool {
    forall|i: int| 0 <= i < s.len() ==> is_slug_char(#[trigger] s[i])
}

pub open spec fn all_env_var_chars(s: Seq<char>) -> bool {
    forall|i: int| 0 <= i < s.len() ==> is_env_var_char(#[trigger] s[i])
}

fn all_slug_chars_exec(s: &str) -> (r: bool)
    ensures
        r == all_slug_chars(s@),
{
    let v = chars_of(s);
    let mut i: usize = 0;
    while i < v.len()
        invariant
            i <= v.len(),
            v@ == s@,
            forall|j: int| 0 <= j < i ==> is_slug_char(#[trigger] v@[j]),
        decreases v.len() - i,
    {
        let c = v[i];
        if !(('a' <= c && c <= 'z') || ('0' <= c && c <= '9') || c == '-' || c == '_') {
            return false;
        }
        i = i + 1;
    }
    true
}

fn all_env_var_chars_exec(s: &str) -> (r: bool)
    ensures
        r == all_env_var_chars(s@),
{
    let v = chars_of(s);
    let mut i: usize = 0;
    while i < v.len()
        invariant
            i <= v.len(),
            v@ == s@,
            forall|j: int| 0 <= j < i ==> is_env_var_char(#[trigger] v@[j]),
        decreases v.len() - i,
    {
        let c = v[i];
        if !(('A' <= c && c <= 'Z') || ('0' <= c && c <= '9') || c == '_') {
            return false;
        }
        i = i + 1;
    }
    true
}

pub const MAX_API_KEY_LEN: usize = 4096;
pub const MAX_SIDECHANNEL_TOKEN_LEN: usize = 1024;
pub const MAX_SLUG_LEN: usize = 64;
pub const MAX_LABEL_LEN: usize = 80;
pub const MAX_ENV_VAR_LEN: usize = 80;

pub open spec fn slug_check(label: Seq<char>, value: Seq<char>) -> Result<Seq<char>, Seq<char>> {
    let t = unicode_lowercase(trim(value));
    if t.len() == 0 {
        Err(label + " slug cannot be empty."@)
    } else if utf8_len(t) > MAX_SLUG_LEN {
        Err(label + " slug exceeds 64 characters."@)
    } else if !all_slug_chars(t) {
        Err(label + " slug must only contain lowercase letters, numbers, '-' or '_'."@)
    } else {
        Ok(t)
    }
}

/// A service slug: trimmed, lowercased, at most 64 bytes of `[a-z0-9_-]`.
pub fn validate_slug(label: &str, value: &str) -> (r: Result<String, String>)
    ensures
        text_result_view(r) == slug_check(label@, value@),
{
    let trimmed = trim_str(value);
    let lowered = to_lowercase(trimmed.as_str());
    let t = lowered.as_str();
    if t.unicode_len() == 0 {
        return Err(message(label, " slug cannot be empty."));
    }
    if t.as_bytes().len() > MAX_SLUG_LEN {
        return Err(message(label, " slug exceeds 64 characters."));
    }
    if !all_slug_chars_exec(t) {
        return Err(
            message(label, " slug must only contain lowercase letters, numbers, '-' or '_'."),
        );
    }
    Ok(lowered)
}

pub open spec fn label_check(label: Seq<char>, value: Seq<char>) -> Result<Seq<char>, Seq<char>> {
    let t = trim(value);
    if t.len() == 0 {
        Err(label + " label cannot be empty."@)
    } else if utf8_len(t) > MAX_LABEL_LEN {
        Err(label + " label exceeds 80 characters."@)
    } else if has_control(t) {
        Err(label + " label contains invalid control characters."@)
    } else {
        Ok(t)
    }
}

/// A display label: trimmed, non-blank, at most 80 bytes, no control characters.
pub fn validate_label(label: &str, value: &str) -> (r: Result<String, String>)
    ensures
        text_result_view(r) == label_check(label@, value@),
{
    let trimmed = trim_str(value);
    let t = trimmed.as_str();
    if t.unicode_len() == 0 {
        return Err(message(label, " label cannot be empty."));
    }
    if t.as_bytes().len() > MAX_LABEL_LEN {
        return Err(message(label, " label exceeds 80 characters."));
    }
    if has_control_exec(t) {
        return Err(message(label, " label contains invalid control characters."));
    }
    Ok(trimmed)
}

pub open spec fn env_var_check(label: Seq<char>, value: Seq<char>) -> Result<Seq<char>, Seq<char>> {
    let t = trim(value);
    if t.len() == 0 {
        Err(label + " env var cannot be empty."@)
    } else if utf8_len(t) > MAX_ENV_VAR_LEN {
        Err(label + " env var exceeds 80 characters."@)
    } else if !all_env_var_chars(t) {
        Err(label + " env var must only contain uppercase letters, numbers, and underscores."@)
    } else {
        Ok(t)
    }
}

/// An environment variable name: trimmed, at most 80 bytes of `[A-Z0-9_]`.
pub fn validate_env_var(label: &str, value: &str) -> (r: Result<String, String>)
    ensures
        text_result_view(r) == env_var_check(label@, value@),
{
    let trimmed = trim_str(value);
    let t = trimmed.as_str();
    if t.unicode_len() == 0 {
        return Err(message(label, " env var cannot be empty."));
    }
    if t.as_bytes().len() > MAX_ENV_VAR_LEN {
        return Err(message(label, " env var exceeds 80 characters."));
    }
    if !all_env_var_chars_exec(t) {
        return Err(
            message(
                label,
                " env var must only contain uppercase letters, numbers, and underscores.",
            ),
        );
    }
    Ok(trimmed)
}

/// Keychain account under which an LLM provider's key is stored.
pub fn keyring_account_for_llm_provider(slug: &str) -> (r: String)
    ensures
        r@ == "llm_provider::"@ + unicode_lowercase(trim(slug@)),
{
    let t = trim_str(slug);
    let l = to_lowercase(t.as_str());
    let mut r = owned("llm_provider::");
    r.append(l.as_str());
    r
}

/// Keychain account under which a tool provider's key is stored.
pub fn keyring_account_for_tool(slug: &str) -> (r: String)
    ensures
        r@ == "tool_provider::"@ + unicode_lowercase(trim(slug@)),
{
    let t = trim_str(slug);
    let l = to_lowercase(t.as_str());
    let mut r = owned("tool_provider::");
    r.append(l.as_str());
    r
}

proof fn lemma_digit_char_value(k: int)
    requires
        0 <= k <= 9,
    ensures
        crate::text::digit_char(k) as int == 48 + k,
        is_digit(crate::text::digit_char(k)),
{
    let c = crate::text::digit_char(k);
    assert(c as int == 48 + k) by {
        assert((48 + k) as u32 as char == c);
        vstd::utf8::char_u32_cast(c, c as u32);
    }
}

proof fn lemma_nat_text_digits(n: nat)
    ensures
        nat_text(n).len() > 0,
        all_digits(nat_text(n)),
        digits_value(nat_text(n)) == n,
    decreases n,
{
    lemma_digit_char_value((n % 10) as int);
    if n < 10 {
        let t = nat_text(n);
        assert(t =~= seq![crate::text::digit_char(n as int)]);
        assert(t.drop_last() =~= Seq::<char>::empty());
        assert(digits_value(Seq::<char>::empty()) == 0);
        assert(t.last() == crate::text::digit_char(n as int));
        assert(n % 10 == n);
        assert(digits_value(t) == digits_value(t.drop_last()) * 10 + (t.last() as int - 48));
    } else {
        lemma_nat_text_digits(n / 10);
        let t = nat_text(n);
        let p = nat_text(n / 10);
        assert(t == p.push(crate::text::digit_char((n % 10) as int)));
        assert(t.drop_last() =~= p);
        assert(t.last() == crate::text::digit_char((n % 10) as int));
        assert(digits_value(t) == digits_value(p) * 10 + (t.last() as int - 48));
        assert((n / 10) * 10 + n % 10 == n);
        assert forall|i: int| 0 <= i < t.len() implies is_digit(#[trigger] t[i]) by {
            if i < p.len() {
                assert(t[i] == p[i]);
            }
        }
    }
}

/// Reading back a cursor the bus handed out gives its number.
pub proof fn lemma_cursor_roundtrip(n: u64)
    ensures
        cursor_number(Some(cursor_text(n as nat))) == Some(n),
{
    reveal_strlit("runtime-");
    lemma_nat_text_digits(n as nat);
    let c = cursor_text(n as nat);
    let t = nat_text(n as nat);
    assert(c.subrange(0, 8) =~= "runtime-"@);
    assert(c.subrange(8, c.len() as int) =~= t);
    assert(t[0] != '+') by {
        assert(is_digit(t[0]));
    }
}

/// The bus never keeps more than `RUNTIME_EVENT_LOG_LIMIT` signals, and
/// what it keeps is the newest of them, in order.
pub proof fn lemma_event_log_bounded<S>(log: Seq<S>)
    ensures
        keep_last(log, RUNTIME_EVENT_LOG_LIMIT as int).len() <= RUNTIME_EVENT_LOG_LIMIT,
        keep_last(log, RUNTIME_EVENT_LOG_LIMIT as int) =~= log.subrange(
            log.len() - keep_last(log, RUNTIME_EVENT_LOG_LIMIT as int).len(),
            log.len() as int,
        ),
{
}

} // verus!
