//! Agent manifests: provider families, capability grants and the worker tools
//! that each execution mode may expose.

use vstd::prelude::*;
use vstd::string::*;
use crate::registry::AgentIdentity;
use crate::text::{contains_sub, str_contains, str_equals, to_lowercase, trim, trim_str, unicode_lowercase};

verus! {

#[derive(Clone, Copy, Debug, PartialEq, Eq, Structural)]
pub enum ProviderProtocolFamily {
    OpenAiCompatible,
    AnthropicCompatible,
    OauthCodexStyle,
    Unknown,
}

/// Family of an already trimmed and lowercased provider name.
pub open spec fn family_of_normalized(name: Seq<char>) -> ProviderProtocolFamily {
    if name == "openai"@ || name == "openrouter"@ || name == "groq"@ || name == "ollama"@
        || name == "lmstudio"@ || name == "xai"@ || name == "deepseek"@ {
        ProviderProtocolFamily::OpenAiCompatible
    } else if name == "anthropic"@ {
        ProviderProtocolFamily::AnthropicCompatible
    } else if name == "codex"@ || name == "openai_codex"@ {
        ProviderProtocolFamily::OauthCodexStyle
    } else {
        ProviderProtocolFamily::Unknown
    }
}

/// Family of a provider name as typed by an operator.
pub open spec fn family_of_provider(provider: Seq<char>) -> ProviderProtocolFamily {
    family_of_normalized(unicode_lowercase(trim(provider)))
}

impl ProviderProtocolFamily {
    /// Classifies a provider name that has already been trimmed and lowercased.
    pub fn from_normalized_name(name: &str) -> (r: Self)
        ensures
            r == family_of_normalized(name@),
    {
        if str_equals(name, "openai") || str_equals(name, "openrouter") || str_equals(name, "groq")
            || str_equals(name, "ollama") || str_equals(name, "lmstudio") || str_equals(name, "xai")
            || str_equals(name, "deepseek") {
            ProviderProtocolFamily::OpenAiCompatible
        } else if str_equals(name, "anthropic") {
            ProviderProtocolFamily::AnthropicCompatible
        } else if str_equals(name, "codex") || str_equals(name, "openai_codex") {
            ProviderProtocolFamily::OauthCodexStyle
        } else {
            ProviderProtocolFamily::Unknown
        }
    }

    pub fn from_provider_name(provider: &str) -> (r: Self)
        ensures
            r == family_of_provider(provider@),
    {
        let trimmed = trim_str(provider);
        let lowered = to_lowercase(trimmed.as_str());
        Self::from_normalized_name(lowered.as_str())
    }
}

/// The worker-side tools that capability grants can unlock.
#[derive(Clone, Copy, Debug, PartialEq, Eq, Structural)]
pub enum WorkerTool {
    DispatchSwoInternal,
    GetSwoQueueStatus,
    HireSubordinateInternal,
    QueueManagedWork,
    ReadAgentFile,
    SubmitInnovationSwo,
    WriteArtifactFile,
}

pub open spec fn tool_name(t: WorkerTool) -> Seq<char> {
    match t {
        WorkerTool::DispatchSwoInternal => "dispatch_swo_internal"@,
        WorkerTool::GetSwoQueueStatus => "get_swo_queue_status"@,
        WorkerTool::HireSubordinateInternal => "hire_subordinate_internal"@,
        WorkerTool::QueueManagedWork => "queue_managed_work"@,
        WorkerTool::ReadAgentFile => "read_agent_file"@,
        WorkerTool::SubmitInnovationSwo => "submit_innovation_swo"@,
        WorkerTool::WriteArtifactFile => "write_artifact_file"@,
    }
}

/// All worker tools, in ascending order of their names.
pub open spec fn all_tools() -> Seq<WorkerTool> {
    seq![
        WorkerTool::DispatchSwoInternal,
        WorkerTool::GetSwoQueueStatus,
        WorkerTool::HireSubordinateInternal,
        WorkerTool::QueueManagedWork,
        WorkerTool::ReadAgentFile,
        WorkerTool::SubmitInnovationSwo,
        WorkerTool::WriteArtifactFile,
    ]
}

impl WorkerTool {
    pub fn name(&self) -> (r: &'static str)
        ensures
            r@ == tool_name(*self),
    {
        match self {
            WorkerTool::DispatchSwoInternal => "dispatch_swo_internal",
            WorkerTool::GetSwoQueueStatus => "get_swo_queue_status",
            WorkerTool::HireSubordinateInternal => "hire_subordinate_internal",
            WorkerTool::QueueManagedWork => "queue_managed_work",
            WorkerTool::ReadAgentFile => "read_agent_file",
            WorkerTool::SubmitInnovationSwo => "submit_innovation_swo",
            WorkerTool::WriteArtifactFile => "write_artifact_file",
        }
    }
}

#[derive(Clone, Copy, Debug, PartialEq, Eq, Hash, Structural)]
pub enum CapabilityGrant {
    QueueManagedWork,
    InspectManagedWork,
    DispatchSwo,
    SubmitInnovationSwo,
    WebSearch,
    ReadInbox,
    WriteOutbox,
    HireSubordinate,
    WorkflowCompile,
    WorkflowLaunch,
    HeartbeatReview,
    McpClient,
    A2AIngress,
    A2AEgress,
    /// Read any file in the agent's workspace tree.
    FileRead,
    /// Create, edit, or delete files in the agent's workspace tree.
    FileWrite,
    /// Run sandboxed shell commands within the agent workspace.
    ShellExec,
    /// Git operations (clone, commit, push) scoped to the agent workspace.
    GitOps,
}

/// The worker tool that a grant unlocks, if any.
pub open spec fn grant_tool(g: CapabilityGrant) -> Option<WorkerTool> {
    match g {
        CapabilityGrant::QueueManagedWork => Some(WorkerTool::QueueManagedWork),
        CapabilityGrant::InspectManagedWork => Some(WorkerTool::GetSwoQueueStatus),
        CapabilityGrant::SubmitInnovationSwo => Some(WorkerTool::SubmitInnovationSwo),
        CapabilityGrant::ReadInbox => Some(WorkerTool::ReadAgentFile),
        CapabilityGrant::WriteOutbox => Some(WorkerTool::WriteArtifactFile),
        CapabilityGrant::HireSubordinate => Some(WorkerTool::HireSubordinateInternal),
        CapabilityGrant::DispatchSwo => Some(WorkerTool::DispatchSwoInternal),
        _ => None,
    }
}

impl CapabilityGrant {
    pub fn worker_tool(&self) -> (r: Option<WorkerTool>)
        ensures
            r == grant_tool(*self),
    {
        match self {
            CapabilityGrant::QueueManagedWork => Some(WorkerTool::QueueManagedWork),
            CapabilityGrant::InspectManagedWork => Some(WorkerTool::GetSwoQueueStatus),
            CapabilityGrant::SubmitInnovationSwo => Some(WorkerTool::SubmitInnovationSwo),
            CapabilityGrant::ReadInbox => Some(WorkerTool::ReadAgentFile),
            CapabilityGrant::WriteOutbox => Some(WorkerTool::WriteArtifactFile),
            CapabilityGrant::HireSubordinate => Some(WorkerTool::HireSubordinateInternal),
            CapabilityGrant::DispatchSwo => Some(WorkerTool::DispatchSwoInternal),
            _ => None,
        }
    }

    pub fn worker_tool_name(&self) -> (r: Option<&'static str>)
        ensures
            r is Some == grant_tool(*self) is Some,
            r matches Some(n) ==> n@ == tool_name(grant_tool(*self)->0),
    {
        match self.worker_tool() {
            Some(t) => Some(t.name()),
            None => None,
        }
    }
}

pub struct Guardrail {
    pub code: String,
    pub description: String,
}

pub struct ScheduleSpec {
    pub cron_interval_seconds: Option<i64>,
    pub autonomous_heartbeat: bool,
}

pub struct ProviderConfigV1 {
    pub provider_name: String,
    pub model: String,
    pub protocol_family: ProviderProtocolFamily,
    pub triage_model: Option<String>,
    pub execution_model: Option<String>,
}

pub struct AgentManifestV1 {
    pub version: String,
    pub agent_id: Option<String>,
    pub name: String,
    pub role: String,
    pub mission: String,
    pub persona_prompt: String,
    pub provider: ProviderConfigV1,
    pub capabilities: Vec<CapabilityGrant>,
    pub guardrails: Vec<Guardrail>,
    pub schedule: ScheduleSpec,
}

/// Grants every agent receives by default.
pub open spec fn base_capabilities() -> Seq<CapabilityGrant> {
    seq![
        CapabilityGrant::QueueManagedWork,
        CapabilityGrant::InspectManagedWork,
        CapabilityGrant::DispatchSwo,
        CapabilityGrant::SubmitInnovationSwo,
        CapabilityGrant::ReadInbox,
        CapabilityGrant::WriteOutbox,
        CapabilityGrant::HireSubordinate,
        CapabilityGrant::WorkflowCompile,
        CapabilityGrant::WorkflowLaunch,
        CapabilityGrant::HeartbeatReview,
        CapabilityGrant::FileRead,
        CapabilityGrant::FileWrite,
    ]
}

/// Root agents (and Perry) also talk to external MCP and A2A peers.
pub open spec fn is_root_like(agent: &AgentIdentity) -> bool {
    agent.parent_id is None || agent.name@ == "Perry"@
}

/// Lois and research roles may search the web.
pub open spec fn is_researcher(agent: &AgentIdentity) -> bool {
    agent.name@ == "Lois"@ || contains_sub(unicode_lowercase(agent.role@), "research"@)
}

pub open spec fn default_capabilities(agent: &AgentIdentity) -> Seq<CapabilityGrant> {
    base_capabilities() + (if is_root_like(agent) {
        seq![CapabilityGrant::McpClient, CapabilityGrant::A2AIngress, CapabilityGrant::A2AEgress]
    } else {
        Seq::empty()
    }) + (if is_researcher(agent) {
        seq![CapabilityGrant::WebSearch]
    } else {
        Seq::empty()
    })
}

pub open spec fn least_privilege_capabilities() -> Seq<CapabilityGrant> {
    seq![
        CapabilityGrant::QueueManagedWork,
        CapabilityGrant::ReadInbox,
        CapabilityGrant::WriteOutbox,
    ]
}

/// The four standard guardrails, as (code, description) pairs.
pub open spec fn standard_guardrail_text() -> Seq<(Seq<char>, Seq<char>)> {
    seq![
        ("manager_review_required"@,
        "Subordinate work must return through manager review and synthesis."@),
        ("artifact_paths_must_be_outbox_scoped"@,
        "Artifacts may only be registered from the agent artifacts workspace."@),
        ("direct_report_dispatch_only"@,
        "Delegation targets must be validated as direct reports in Rust."@),
        ("web_research_requires_citations"@,
        "When web research is authorized and used, factual claims must include attributable sources."@),
    ]
}

pub open spec fn guardrails_text(g: Seq<Guardrail>) -> Seq<(Seq<char>, Seq<char>)> {
    g.map_values(|x: Guardrail| (x.code@, x.description@))
}

/// Everything in a manifest that is copied from the agent's registry record.
pub open spec fn copies_identity(m: AgentManifestV1, agent: &AgentIdentity) -> bool {
    &&& m.version@ == "agent-manifest-v1"@
    &&& m.agent_id matches Some(id) && id@ == agent.id@
    &&& m.name@ == agent.name@
    &&& m.role@ == agent.role@
    &&& m.mission@ == agent.raison_detre@
    &&& m.persona_prompt@ == agent.persona_prompt@
    &&& m.provider.provider_name@ == agent.default_provider@
    &&& m.provider.model@ == agent.default_model@
    &&& m.provider.protocol_family == family_of_provider(agent.default_provider@)
    &&& m.provider.triage_model == agent.triage_model
    &&& m.provider.execution_model == agent.execution_model
    &&& guardrails_text(m.guardrails@) == standard_guardrail_text()
    &&& m.schedule.cron_interval_seconds == agent.cron_interval_seconds
    &&& m.schedule.autonomous_heartbeat == (agent.cron_interval_seconds is Some)
}

/// Whether execution mode `mode` may expose tool `t`.
pub open spec fn mode_allows(mode: Seq<char>, t: WorkerTool) -> bool {
    if mode == "chat_mode"@ {
        t == WorkerTool::QueueManagedWork || t == WorkerTool::GetSwoQueueStatus || t
            == WorkerTool::ReadAgentFile || t == WorkerTool::WriteArtifactFile
    } else if mode == "format_swo"@ {
        false
    } else if mode == "execute_triage"@ || mode == "execute_synthesis"@ {
        t == WorkerTool::SubmitInnovationSwo || t == WorkerTool::ReadAgentFile || t
            == WorkerTool::WriteArtifactFile || t == WorkerTool::HireSubordinateInternal || t
            == WorkerTool::DispatchSwoInternal
    } else if mode == "execute_ideation"@ {
        t == WorkerTool::SubmitInnovationSwo || t == WorkerTool::ReadAgentFile || t
            == WorkerTool::WriteArtifactFile
    } else {
        true
    }
}

/// Some grant in `caps` unlocks tool `t`.
pub open spec fn grants_tool(caps: Seq<CapabilityGrant>, t: WorkerTool) -> bool {
    exists|i: int| 0 <= i < caps.len() && #[trigger] grant_tool(caps[i]) == Some(t)
}

/// Tool `t` is exposed to a worker running in `mode`.
pub open spec fn tool_exposed(
    caps: Seq<CapabilityGrant>,
    mode: Seq<char>,
    can_hire: bool,
    t: WorkerTool,
) -> bool {
    grants_tool(caps, t) && mode_allows(mode, t) && (can_hire || t
        != WorkerTool::HireSubordinateInternal)
}

/// Names of the exposed tools among `ts`, in the order of `ts`.
pub open spec fn exposed_names(
    ts: Seq<WorkerTool>,
    caps: Seq<CapabilityGrant>,
    mode: Seq<char>,
    can_hire: bool,
) -> Seq<Seq<char>>
    decreases ts.len(),
{
    if ts.len() == 0 {
        Seq::empty()
    } else {
        let rest = exposed_names(ts.drop_last(), caps, mode, can_hire);
        if tool_exposed(caps, mode, can_hire, ts.last()) {
            rest.push(tool_name(ts.last()))
        } else {
            rest
        }
    }
}

fn mode_allows_exec(mode: &str, t: WorkerTool) -> (r: bool)
    ensures
        r == mode_allows(mode@, t),
{
    if str_equals(mode, "chat_mode") {
        t == WorkerTool::QueueManagedWork || t == WorkerTool::GetSwoQueueStatus || t
            == WorkerTool::ReadAgentFile || t == WorkerTool::WriteArtifactFile
    } else if str_equals(mode, "format_swo") {
        false
    } else if str_equals(mode, "execute_triage") || str_equals(mode, "execute_synthesis") {
        t == WorkerTool::SubmitInnovationSwo || t == WorkerTool::ReadAgentFile || t
            == WorkerTool::WriteArtifactFile || t == WorkerTool::HireSubordinateInternal || t
            == WorkerTool::DispatchSwoInternal
    } else if str_equals(mode, "execute_ideation") {
        t == WorkerTool::SubmitInnovationSwo || t == WorkerTool::ReadAgentFile || t
            == WorkerTool::WriteArtifactFile
    } else {
        true
    }
}

fn all_tools_vec() -> (r: Vec<WorkerTool>)
    ensures
        r@ == all_tools(),
{
    let r = vec![
        WorkerTool::DispatchSwoInternal,
        WorkerTool::GetSwoQueueStatus,
        WorkerTool::HireSubordinateInternal,
        WorkerTool::QueueManagedWork,
        WorkerTool::ReadAgentFile,
        WorkerTool::SubmitInnovationSwo,
        WorkerTool::WriteArtifactFile,
    ];
    assert(r@ =~= all_tools());
    r
}

fn new_string(s: &str) -> (r: String)
    ensures
        r@ == s@,
{
    s.to_owned()
}

impl AgentManifestV1 {
    fn standard_guardrails() -> (r: Vec<Guardrail>)
        ensures
            guardrails_text(r@) == standard_guardrail_text(),
    {
        let mut r: Vec<Guardrail> = Vec::new();
        r.push(
            Guardrail {
                code: new_string("manager_review_required"),
                description: new_string(
                    "Subordinate work must return through manager review and synthesis.",
                ),
            },
        );
        r.push(
            Guardrail {
                code: new_string("artifact_paths_must_be_outbox_scoped"),
                description: new_string(
                    "Artifacts may only be registered from the agent artifacts workspace.",
                ),
            },
        );
        r.push(
            Guardrail {
                code: new_string("direct_report_dispatch_only"),
                description: new_string(
                    "Delegation targets must be validated as direct reports in Rust.",
                ),
            },
        );
        r.push(
            Guardrail {
                code: new_string("web_research_requires_citations"),
                description: new_string(
                    "When web research is authorized and used, factual claims must include attributable sources.",
                ),
            },
        );
        assert(guardrails_text(r@) =~= standard_guardrail_text());
        r
    }

    fn from_agent_with(agent: &AgentIdentity, capabilities: Vec<CapabilityGrant>) -> (r: Self)
        ensures
            copies_identity(r, agent),
            r.capabilities@ == capabilities@,
    {
        let protocol_family = ProviderProtocolFamily::from_provider_name(
            agent.default_provider.as_str(),
        );
        AgentManifestV1 {
            version: new_string("agent-manifest-v1"),
            agent_id: Some(agent.id.clone()),
            name: agent.name.clone(),
            role: agent.role.clone(),
            mission: agent.raison_detre.clone(),
            persona_prompt: agent.persona_prompt.clone(),
            provider: ProviderConfigV1 {
                provider_name: agent.default_provider.clone(),
                model: agent.default_model.clone(),
                protocol_family,
                triage_model: agent.triage_model.clone(),
                execution_model: agent.execution_model.clone(),
            },
            capabilities,
            guardrails: Self::standard_guardrails(),
            schedule: ScheduleSpec {
                cron_interval_seconds: agent.cron_interval_seconds,
                autonomous_heartbeat: agent.cron_interval_seconds.is_some(),
            },
        }
    }

    pub fn default_for_agent(agent: &AgentIdentity) -> (r: Self)
        ensures
            copies_identity(r, agent),
            r.capabilities@ == default_capabilities(agent),
    {
        let mut capabilities = vec![
            CapabilityGrant::QueueManagedWork,
            CapabilityGrant::InspectManagedWork,
            CapabilityGrant::DispatchSwo,
            CapabilityGrant::SubmitInnovationSwo,
            CapabilityGrant::ReadInbox,
            CapabilityGrant::WriteOutbox,
            CapabilityGrant::HireSubordinate,
            CapabilityGrant::WorkflowCompile,
            CapabilityGrant::WorkflowLaunch,
            CapabilityGrant::HeartbeatReview,
            CapabilityGrant::FileRead,
            CapabilityGrant::FileWrite,
        ];
        assert(capabilities@ =~= base_capabilities());
        let root_like = agent.parent_id.is_none() || str_equals(agent.name.as_str(), "Perry");
        if root_like {
            capabilities.push(CapabilityGrant::McpClient);
            capabilities.push(CapabilityGrant::A2AIngress);
            capabilities.push(CapabilityGrant::A2AEgress);
        }
        let ghost after_root = capabilities@;
        assert(after_root =~= base_capabilities() + (if is_root_like(agent) {
            seq![CapabilityGrant::McpClient, CapabilityGrant::A2AIngress, CapabilityGrant::A2AEgress]
        } else {
            Seq::empty()
        }));
        let lowered_role = to_lowercase(agent.role.as_str());
        let researcher = str_equals(agent.name.as_str(), "Lois") || str_contains(
            lowered_role.as_str(),
            "research",
        );
        if researcher {
            capabilities.push(CapabilityGrant::WebSearch);
        }
        assert(capabilities@ =~= default_capabilities(agent));
        Self::from_agent_with(agent, capabilities)
    }

    pub fn least_privilege_for_agent(agent: &AgentIdentity) -> (r: Self)
        ensures
            copies_identity(r, agent),
            r.capabilities@ == least_privilege_capabilities(),
    {
        let capabilities = vec![
            CapabilityGrant::QueueManagedWork,
            CapabilityGrant::ReadInbox,
            CapabilityGrant::WriteOutbox,
        ];
        assert(capabilities@ =~= least_privilege_capabilities());
        Self::from_agent_with(agent, capabilities)
    }

    pub fn has_capability(&self, capability: &CapabilityGrant) -> (r: bool)
        ensures
            r == self.capabilities@.contains(*capability),
    {
        let mut i: usize = 0;
        while i < self.capabilities.len()
            invariant
                i <= self.capabilities.len(),
                forall|j: int| 0 <= j < i ==> self.capabilities@[j] != *capability,
            decreases self.capabilities.len() - i,
        {
            if self.capabilities[i] == *capability {
                return true;
            }
            i = i + 1;
        }
        false
    }

    fn unlocks(&self, t: WorkerTool) -> (r: bool)
        ensures
            r == grants_tool(self.capabilities@, t),
    {
        let mut i: usize = 0;
        while i < self.capabilities.len()
            invariant
                i <= self.capabilities.len(),
                forall|j: int| 0 <= j < i ==> grant_tool(#[trigger] self.capabilities@[j]) != Some(
                    t,
                ),
            decreases self.capabilities.len() - i,
        {
            if self.capabilities[i].worker_tool() == Some(t) {
                return true;
            }
            i = i + 1;
        }
        false
    }

    /// The worker tools exposed in `mode`, sorted by name and without repeats.
    pub fn allowed_worker_tools_for_mode(&self, mode: &str, can_autonomously_hire: bool) -> (r:
        Vec<String>)
        ensures
            r.deep_view() == exposed_names(
                all_tools(),
                self.capabilities@,
                mode@,
                can_autonomously_hire,
            ),
    {
        let tools = all_tools_vec();
        let mut r: Vec<String> = Vec::new();
        let mut i: usize = 0;
        while i < tools.len()
            invariant
                tools@ == all_tools(),
                i <= tools.len(),
                r.deep_view() == exposed_names(
                    tools@.subrange(0, i as int),
                    self.capabilities@,
                    mode@,
                    can_autonomously_hire,
                ),
            decreases tools.len() - i,
        {
            let t = tools[i];
            let ghost prefix = tools@.subrange(0, i + 1);
            assert(prefix.drop_last() =~= tools@.subrange(0, i as int));
            assert(prefix.last() == t);
            if self.unlocks(t) && mode_allows_exec(mode, t) && (can_autonomously_hire || t
                != WorkerTool::HireSubordinateInternal) {
                r.push(new_string(t.name()));
                assert(r.deep_view() =~= exposed_names(
                    tools@.subrange(0, i as int),
                    self.capabilities@,
                    mode@,
                    can_autonomously_hire,
                ).push(tool_name(t)));
            }
            i = i + 1;
        }
        assert(tools@.subrange(0, tools.len() as int) =~= tools@);
        r
    }

    pub fn standard_workspace_directories() -> (r: &'static [&'static str])
        ensures
            r@.len() == 2,
            r@[0]@ == "context"@,
            r@[1]@ == "artifacts"@,
    {
        &["context", "artifacts"]
    }

    pub fn standard_workspace_files() -> (r: &'static [&'static str])
        ensures
            r@.len() == 0,
    {
        &[]
    }
}

proof fn lemma_tool_name_first_chars()
    ensures
        forall|i: int, j: int|
            0 <= i < j < all_tools().len() ==> (tool_name(all_tools()[i])[0] as u32) < (tool_name(
                all_tools()[j],
            )[0] as u32),
        forall|i: int| 0 <= i < all_tools().len() ==> tool_name(#[trigger] all_tools()[i]).len() > 0,
{
    reveal_strlit("dispatch_swo_internal");
    reveal_strlit("get_swo_queue_status");
    reveal_strlit("hire_subordinate_internal");
    reveal_strlit("queue_managed_work");
    reveal_strlit("read_agent_file");
    reveal_strlit("submit_innovation_swo");
    reveal_strlit("write_artifact_file");
    assert(('d' as u32) < ('g' as u32) && ('g' as u32) < ('h' as u32) && ('h' as u32) < ('q' as u32)
        && ('q' as u32) < ('r' as u32) && ('r' as u32) < ('s' as u32) && ('s' as u32) < ('w' as u32));
}

spec fn tool_initial(t: WorkerTool) -> char {
    match t {
        WorkerTool::DispatchSwoInternal => 'd',
        WorkerTool::GetSwoQueueStatus => 'g',
        WorkerTool::HireSubordinateInternal => 'h',
        WorkerTool::QueueManagedWork => 'q',
        WorkerTool::ReadAgentFile => 'r',
        WorkerTool::SubmitInnovationSwo => 's',
        WorkerTool::WriteArtifactFile => 'w',
    }
}

proof fn lemma_tool_initial(t: WorkerTool)
    ensures
        tool_name(t).len() > 0 && tool_name(t)[0] == tool_initial(t),
{
    reveal_strlit("dispatch_swo_internal");
    reveal_strlit("get_swo_queue_status");
    reveal_strlit("hire_subordinate_internal");
    reveal_strlit("queue_managed_work");
    reveal_strlit("read_agent_file");
    reveal_strlit("submit_innovation_swo");
    reveal_strlit("write_artifact_file");
}

proof fn lemma_tool_name_injective(a: WorkerTool, b: WorkerTool)
    requires
        tool_name(a) == tool_name(b),
    ensures
        a == b,
{
    lemma_tool_initial(a);
    lemma_tool_initial(b);
    assert(tool_initial(a) == tool_initial(b));
    match a {
        WorkerTool::DispatchSwoInternal => assert(b == WorkerTool::DispatchSwoInternal),
        WorkerTool::GetSwoQueueStatus => assert(b == WorkerTool::GetSwoQueueStatus),
        WorkerTool::HireSubordinateInternal => assert(b == WorkerTool::HireSubordinateInternal),
        WorkerTool::QueueManagedWork => assert(b == WorkerTool::QueueManagedWork),
        WorkerTool::ReadAgentFile => assert(b == WorkerTool::ReadAgentFile),
        WorkerTool::SubmitInnovationSwo => assert(b == WorkerTool::SubmitInnovationSwo),
        WorkerTool::WriteArtifactFile => assert(b == WorkerTool::WriteArtifactFile),
    }
}

/// Every exposed name is the name of an exposed tool of `ts`, and every
/// exposed tool of `ts` has its name listed.
pub proof fn lemma_exposed_names_members(
    ts: Seq<WorkerTool>,
    caps: Seq<CapabilityGrant>,
    mode: Seq<char>,
    can_hire: bool,
)
    ensures
        forall|k: int|
            0 <= k < exposed_names(ts, caps, mode, can_hire).len() ==> exists|i: int|
                0 <= i < ts.len() && tool_exposed(caps, mode, can_hire, ts[i]) && #[trigger] exposed_names(
                    ts,
                    caps,
                    mode,
                    can_hire,
                )[k] == tool_name(ts[i]),
        forall|i: int|
            0 <= i < ts.len() && tool_exposed(caps, mode, can_hire, #[trigger] ts[i]) ==> exposed_names(
                ts,
                caps,
                mode,
                can_hire,
            ).contains(tool_name(ts[i])),
    decreases ts.len(),
{
    if ts.len() > 0 {
        let rest = ts.drop_last();
        lemma_exposed_names_members(rest, caps, mode, can_hire);
        let e = exposed_names(ts, caps, mode, can_hire);
        let er = exposed_names(rest, caps, mode, can_hire);
        assert forall|k: int| 0 <= k < e.len() implies exists|i: int|
            0 <= i < ts.len() && tool_exposed(caps, mode, can_hire, ts[i]) && #[trigger] e[k]
                == tool_name(ts[i]) by {
            if k < er.len() {
                assert(e[k] == er[k]);
                let i = choose|i: int|
                    0 <= i < rest.len() && tool_exposed(caps, mode, can_hire, rest[i]) && #[trigger] er[k]
                        == tool_name(rest[i]);
                assert(ts[i] == rest[i]);
            } else {
                assert(e[k] == tool_name(ts.last()));
                assert(ts[ts.len() - 1] == ts.last());
            }
        }
        assert forall|i: int| 0 <= i < ts.len() && tool_exposed(caps, mode, can_hire, #[trigger] ts[i])
            implies e.contains(tool_name(ts[i])) by {
            if i < rest.len() {
                assert(rest[i] == ts[i]);
                assert(er.contains(tool_name(rest[i])));
                let k = choose|k: int| 0 <= k < er.len() && er[k] == tool_name(rest[i]);
                assert(e[k] == er[k]);
            } else {
                assert(e[e.len() - 1] == tool_name(ts.last()));
            }
        }
    }
}

/// In ideation no worker is ever given the direct-hiring tool, whatever it
/// is granted.
pub proof fn lemma_ideation_never_exposes_hiring(caps: Seq<CapabilityGrant>, can_hire: bool)
    ensures
        !exposed_names(all_tools(), caps, "execute_ideation"@, can_hire).contains(
            tool_name(WorkerTool::HireSubordinateInternal),
        ),
{
    lemma_exposed_names_members(all_tools(), caps, "execute_ideation"@, can_hire);
    let e = exposed_names(all_tools(), caps, "execute_ideation"@, can_hire);
    if e.contains(tool_name(WorkerTool::HireSubordinateInternal)) {
        let k = choose|k: int| 0 <= k < e.len() && e[k] == tool_name(WorkerTool::HireSubordinateInternal);
        let i = choose|i: int|
            0 <= i < all_tools().len() && tool_exposed(caps, "execute_ideation"@, can_hire, all_tools()[i])
                && #[trigger] e[k] == tool_name(all_tools()[i]);
        lemma_tool_name_injective(all_tools()[i], WorkerTool::HireSubordinateInternal);
        reveal_strlit("execute_ideation");
        reveal_strlit("chat_mode");
        reveal_strlit("format_swo");
        reveal_strlit("execute_triage");
        reveal_strlit("execute_synthesis");
        assert("execute_ideation"@ != "chat_mode"@) by { assert("execute_ideation"@[0] != "chat_mode"@[0]); }
        assert("execute_ideation"@ != "format_swo"@) by { assert("execute_ideation"@[0] != "format_swo"@[0]); }
        assert("execute_ideation"@ != "execute_triage"@) by { assert("execute_ideation"@[8] != "execute_triage"@[8]); }
        assert("execute_ideation"@ != "execute_synthesis"@) by { assert("execute_ideation"@[8] != "execute_synthesis"@[8]); }
    }
}

/// Triage and synthesis workers get the direct-hiring tool exactly when the
/// manifest grants hiring and hiring is allowed.
pub proof fn lemma_triage_hiring_follows_grant(caps: Seq<CapabilityGrant>, can_hire: bool)
    ensures
        exposed_names(all_tools(), caps, "execute_triage"@, can_hire).contains(
            tool_name(WorkerTool::HireSubordinateInternal),
        ) <==> (caps.contains(CapabilityGrant::HireSubordinate) && can_hire),
{
    lemma_exposed_names_members(all_tools(), caps, "execute_triage"@, can_hire);
    let e = exposed_names(all_tools(), caps, "execute_triage"@, can_hire);
    let hire = WorkerTool::HireSubordinateInternal;
    assert(all_tools()[2] == hire);
    if caps.contains(CapabilityGrant::HireSubordinate) && can_hire {
        let j = choose|j: int| 0 <= j < caps.len() && caps[j] == CapabilityGrant::HireSubordinate;
        assert(grant_tool(caps[j]) == Some(hire));
        reveal_strlit("execute_triage");
        reveal_strlit("chat_mode");
        reveal_strlit("format_swo");
        assert("execute_triage"@ != "chat_mode"@) by { assert("execute_triage"@[0] != "chat_mode"@[0]); }
        assert("execute_triage"@ != "format_swo"@) by { assert("execute_triage"@[0] != "format_swo"@[0]); }
        assert(mode_allows("execute_triage"@, hire));
        assert(grants_tool(caps, hire));
        assert(tool_exposed(caps, "execute_triage"@, can_hire, all_tools()[2]));
    }
    if e.contains(tool_name(hire)) {
        let k = choose|k: int| 0 <= k < e.len() && e[k] == tool_name(hire);
        let i = choose|i: int|
            0 <= i < all_tools().len() && tool_exposed(caps, "execute_triage"@, can_hire, all_tools()[i])
                && #[trigger] e[k] == tool_name(all_tools()[i]);
        lemma_tool_name_injective(all_tools()[i], hire);
        let j = choose|j: int| 0 <= j < caps.len() && #[trigger] grant_tool(caps[j]) == Some(hire);
        assert(caps[j] == CapabilityGrant::HireSubordinate);
    }
}

/// The tool names exposed to a worker come sorted and without repeats.
pub proof fn lemma_exposed_names_sorted(caps: Seq<CapabilityGrant>, mode: Seq<char>, can_hire: bool)
    ensures
        crate::text::strictly_sorted(exposed_names(all_tools(), caps, mode, can_hire)),
{
    lemma_tool_name_first_chars();
    lemma_exposed_prefix_sorted(all_tools().len() as int, caps, mode, can_hire);
    assert(all_tools().take(all_tools().len() as int) =~= all_tools());
}

proof fn lemma_exposed_prefix_sorted(n: int, caps: Seq<CapabilityGrant>, mode: Seq<char>, can_hire: bool)
    requires
        0 <= n <= all_tools().len(),
        forall|i: int, j: int|
            0 <= i < j < all_tools().len() ==> (tool_name(all_tools()[i])[0] as u32) < (tool_name(
                all_tools()[j],
            )[0] as u32),
        forall|i: int| 0 <= i < all_tools().len() ==> tool_name(#[trigger] all_tools()[i]).len() > 0,
    ensures
        crate::text::strictly_sorted(exposed_names(all_tools().take(n), caps, mode, can_hire)),
        forall|k: int|
            0 <= k < exposed_names(all_tools().take(n), caps, mode, can_hire).len() ==> exists|i: int|
                0 <= i < n && #[trigger] exposed_names(all_tools().take(n), caps, mode, can_hire)[k]
                    == tool_name(all_tools()[i]),
    decreases n,
{
    let ts = all_tools().take(n);
    let e = exposed_names(ts, caps, mode, can_hire);
    if n > 0 {
        lemma_exposed_prefix_sorted(n - 1, caps, mode, can_hire);
        assert(ts.drop_last() =~= all_tools().take(n - 1));
        let er = exposed_names(all_tools().take(n - 1), caps, mode, can_hire);
        let last = tool_name(all_tools()[n - 1]);
        assert(ts.last() == all_tools()[n - 1]);
        assert forall|k: int| 0 <= k < e.len() implies exists|i: int|
            0 <= i < n && #[trigger] e[k] == tool_name(all_tools()[i]) by {
            if k < er.len() {
                assert(e[k] == er[k]);
                let i = choose|i: int| 0 <= i < n - 1 && #[trigger] er[k] == tool_name(all_tools()[i]);
                assert(e[k] == tool_name(all_tools()[i]));
            } else {
                assert(e[k] == last);
            }
        }
        assert forall|a: int, b: int| 0 <= a < b < e.len() implies crate::text::lex_le(
            #[trigger] e[a],
            #[trigger] e[b],
        ) && e[a] != e[b] by {
            if b < er.len() {
                assert(e[a] == er[a] && e[b] == er[b]);
            } else {
                assert(e[b] == last);
                assert(e[a] == er[a]);
                let i = choose|i: int| 0 <= i < n - 1 && #[trigger] er[a] == tool_name(all_tools()[i]);
                let x = tool_name(all_tools()[i]);
                assert((x[0] as u32) < (last[0] as u32));
                assert(x.len() > 0 && last.len() > 0);
                assert(crate::text::lex_le(x, last));
                assert(x[0] != last[0]);
            }
        }
    } else {
        assert(e =~= Seq::<Seq<char>>::empty());
    }
}

/// Every agent's default grants include reading and writing inside its
/// sandbox, and never shell execution or git operations.
pub proof fn lemma_default_grants_stay_in_sandbox(agent: &AgentIdentity)
    ensures
        default_capabilities(agent).contains(CapabilityGrant::FileRead),
        default_capabilities(agent).contains(CapabilityGrant::FileWrite),
        !default_capabilities(agent).contains(CapabilityGrant::ShellExec),
        !default_capabilities(agent).contains(CapabilityGrant::GitOps),
{
    let d = default_capabilities(agent);
    assert(d[10] == CapabilityGrant::FileRead);
    assert(d[11] == CapabilityGrant::FileWrite);
}

/// The least-privilege grants are a subset of every agent's default grants
/// and hold none of the builder-only or sandbox-effect grants.
pub proof fn lemma_least_privilege_within_default(agent: &AgentIdentity)
    ensures
        forall|c: CapabilityGrant|
            #[trigger] least_privilege_capabilities().contains(c) ==> default_capabilities(agent).contains(c),
        !least_privilege_capabilities().contains(CapabilityGrant::HireSubordinate),
        !least_privilege_capabilities().contains(CapabilityGrant::DispatchSwo),
        !least_privilege_capabilities().contains(CapabilityGrant::WorkflowLaunch),
        !least_privilege_capabilities().contains(CapabilityGrant::FileRead),
        !least_privilege_capabilities().contains(CapabilityGrant::FileWrite),
        !least_privilege_capabilities().contains(CapabilityGrant::ShellExec),
        !least_privilege_capabilities().contains(CapabilityGrant::GitOps),
{
    let d = default_capabilities(agent);
    assert forall|c: CapabilityGrant| #[trigger] least_privilege_capabilities().contains(c) implies d.contains(c) by {
        let l = least_privilege_capabilities();
        let i = choose|i: int| 0 <= i < l.len() && l[i] == c;
        if i == 0 {
            assert(d[0] == c);
        } else if i == 1 {
            assert(d[4] == c);
        } else {
            assert(d[5] == c);
        }
    }
}

/// The sandbox-effect grants unlock no worker tool: the harness checks them
/// itself.
pub proof fn lemma_dark_factory_grants_unlock_no_tool()
    ensures
        grant_tool(CapabilityGrant::FileRead) is None,
        grant_tool(CapabilityGrant::FileWrite) is None,
        grant_tool(CapabilityGrant::ShellExec) is None,
        grant_tool(CapabilityGrant::GitOps) is None,
{
}

/// The name a grant is stored and sent under (serde's snake case of the variant).
pub open spec fn grant_wire_name(g: CapabilityGrant) -> Seq<char> {
    match g {
        CapabilityGrant::QueueManagedWork => "queue_managed_work"@,
        CapabilityGrant::InspectManagedWork => "inspect_managed_work"@,
        CapabilityGrant::DispatchSwo => "dispatch_swo"@,
        CapabilityGrant::SubmitInnovationSwo => "submit_innovation_swo"@,
        CapabilityGrant::WebSearch => "web_search"@,
        CapabilityGrant::ReadInbox => "read_inbox"@,
        CapabilityGrant::WriteOutbox => "write_outbox"@,
        CapabilityGrant::HireSubordinate => "hire_subordinate"@,
        CapabilityGrant::WorkflowCompile => "workflow_compile"@,
        CapabilityGrant::WorkflowLaunch => "workflow_launch"@,
        CapabilityGrant::HeartbeatReview => "heartbeat_review"@,
        CapabilityGrant::McpClient => "mcp_client"@,
        CapabilityGrant::A2AIngress => "a2_a_ingress"@,
        CapabilityGrant::A2AEgress => "a2_a_egress"@,
        CapabilityGrant::FileRead => "file_read"@,
        CapabilityGrant::FileWrite => "file_write"@,
        CapabilityGrant::ShellExec => "shell_exec"@,
        CapabilityGrant::GitOps => "git_ops"@,
    }
}

spec fn grant_key(g: CapabilityGrant) -> (char, char, nat) {
    match g {
        CapabilityGrant::QueueManagedWork => ('q', 'u', 18),
        CapabilityGrant::InspectManagedWork => ('i', 'n', 20),
        CapabilityGrant::DispatchSwo => ('d', 'i', 12),
        CapabilityGrant::SubmitInnovationSwo => ('s', 'u', 21),
        CapabilityGrant::WebSearch => ('w', 'e', 10),
        CapabilityGrant::ReadInbox => ('r', 'e', 10),
        CapabilityGrant::WriteOutbox => ('w', 'r', 12),
        CapabilityGrant::HireSubordinate => ('h', 'i', 16),
        CapabilityGrant::WorkflowCompile => ('w', 'o', 16),
        CapabilityGrant::WorkflowLaunch => ('w', 'o', 15),
        CapabilityGrant::HeartbeatReview => ('h', 'e', 16),
        CapabilityGrant::McpClient => ('m', 'c', 10),
        CapabilityGrant::A2AIngress => ('a', '2', 12),
        CapabilityGrant::A2AEgress => ('a', '2', 11),
        CapabilityGrant::FileRead => ('f', 'i', 9),
        CapabilityGrant::FileWrite => ('f', 'i', 10),
        CapabilityGrant::ShellExec => ('s', 'h', 10),
        CapabilityGrant::GitOps => ('g', 'i', 7),
    }
}

proof fn lemma_grant_key(g: CapabilityGrant)
    ensures
        grant_wire_name(g).len() == grant_key(g).2,
        grant_wire_name(g)[0] == grant_key(g).0,
        grant_wire_name(g)[1] == grant_key(g).1,
{
    reveal_strlit("queue_managed_work");
    reveal_strlit("inspect_managed_work");
    reveal_strlit("dispatch_swo");
    reveal_strlit("submit_innovation_swo");
    reveal_strlit("web_search");
    reveal_strlit("read_inbox");
    reveal_strlit("write_outbox");
    reveal_strlit("hire_subordinate");
    reveal_strlit("workflow_compile");
    reveal_strlit("workflow_launch");
    reveal_strlit("heartbeat_review");
    reveal_strlit("mcp_client");
    reveal_strlit("a2_a_ingress");
    reveal_strlit("a2_a_egress");
    reveal_strlit("file_read");
    reveal_strlit("file_write");
    reveal_strlit("shell_exec");
    reveal_strlit("git_ops");
}

/// No two grants share a stored name, so reading a grant back from its
/// stored name gives the same grant.
pub proof fn lemma_grant_wire_name_injective(a: CapabilityGrant, b: CapabilityGrant)
    requires
        grant_wire_name(a) == grant_wire_name(b),
    ensures
        a == b,
{
    lemma_grant_key(a);
    lemma_grant_key(b);
    assert(grant_key(a) == grant_key(b));
    match a {
        CapabilityGrant::QueueManagedWork => assert(b == CapabilityGrant::QueueManagedWork),
        CapabilityGrant::InspectManagedWork => assert(b == CapabilityGrant::InspectManagedWork),
        CapabilityGrant::DispatchSwo => assert(b == CapabilityGrant::DispatchSwo),
        CapabilityGrant::SubmitInnovationSwo => assert(b == CapabilityGrant::SubmitInnovationSwo),
        CapabilityGrant::WebSearch => assert(b == CapabilityGrant::WebSearch),
        CapabilityGrant::ReadInbox => assert(b == CapabilityGrant::ReadInbox),
        CapabilityGrant::WriteOutbox => assert(b == CapabilityGrant::WriteOutbox),
        CapabilityGrant::HireSubordinate => assert(b == CapabilityGrant::HireSubordinate),
        CapabilityGrant::WorkflowCompile => assert(b == CapabilityGrant::WorkflowCompile),
        CapabilityGrant::WorkflowLaunch => assert(b == CapabilityGrant::WorkflowLaunch),
        CapabilityGrant::HeartbeatReview => assert(b == CapabilityGrant::HeartbeatReview),
        CapabilityGrant::McpClient => assert(b == CapabilityGrant::McpClient),
        CapabilityGrant::A2AIngress => assert(b == CapabilityGrant::A2AIngress),
        CapabilityGrant::A2AEgress => assert(b == CapabilityGrant::A2AEgress),
        CapabilityGrant::FileRead => assert(b == CapabilityGrant::FileRead),
        CapabilityGrant::FileWrite => assert(b == CapabilityGrant::FileWrite),
        CapabilityGrant::ShellExec => assert(b == CapabilityGrant::ShellExec),
        CapabilityGrant::GitOps => assert(b == CapabilityGrant::GitOps),
    }
}

/// Every grant, in declaration order.
pub open spec fn all_grants() -> Seq<CapabilityGrant> {
    seq![
        CapabilityGrant::QueueManagedWork,
        CapabilityGrant::InspectManagedWork,
        CapabilityGrant::DispatchSwo,
        CapabilityGrant::SubmitInnovationSwo,
        CapabilityGrant::WebSearch,
        CapabilityGrant::ReadInbox,
        CapabilityGrant::WriteOutbox,
        CapabilityGrant::HireSubordinate,
        CapabilityGrant::WorkflowCompile,
        CapabilityGrant::WorkflowLaunch,
        CapabilityGrant::HeartbeatReview,
        CapabilityGrant::McpClient,
        CapabilityGrant::A2AIngress,
        CapabilityGrant::A2AEgress,
        CapabilityGrant::FileRead,
        CapabilityGrant::FileWrite,
        CapabilityGrant::ShellExec,
        CapabilityGrant::GitOps,
    ]
}

impl CapabilityGrant {
    /// The name the grant is stored and sent under.
    pub fn wire_name(&self) -> (r: &'static str)
        ensures
            r@ == grant_wire_name(*self),
    {
        match self {
            CapabilityGrant::QueueManagedWork => "queue_managed_work",
            CapabilityGrant::InspectManagedWork => "inspect_managed_work",
            CapabilityGrant::DispatchSwo => "dispatch_swo",
            CapabilityGrant::SubmitInnovationSwo => "submit_innovation_swo",
            CapabilityGrant::WebSearch => "web_search",
            CapabilityGrant::ReadInbox => "read_inbox",
            CapabilityGrant::WriteOutbox => "write_outbox",
            CapabilityGrant::HireSubordinate => "hire_subordinate",
            CapabilityGrant::WorkflowCompile => "workflow_compile",
            CapabilityGrant::WorkflowLaunch => "workflow_launch",
            CapabilityGrant::HeartbeatReview => "heartbeat_review",
            CapabilityGrant::McpClient => "mcp_client",
            CapabilityGrant::A2AIngress => "a2_a_ingress",
            CapabilityGrant::A2AEgress => "a2_a_egress",
            CapabilityGrant::FileRead => "file_read",
            CapabilityGrant::FileWrite => "file_write",
            CapabilityGrant::ShellExec => "shell_exec",
            CapabilityGrant::GitOps => "git_ops",
        }
    }

    /// The grant stored under `name`, if any.
    pub fn from_wire_name(name: &str) -> (r: Option<CapabilityGrant>)
        ensures
            match r {
                Some(g) => grant_wire_name(g) == name@,
                None => forall|g: CapabilityGrant| grant_wire_name(g) != name@,
            },
    {
        let grants = vec![
            CapabilityGrant::QueueManagedWork,
        CapabilityGrant::InspectManagedWork,
        CapabilityGrant::DispatchSwo,
        CapabilityGrant::SubmitInnovationSwo,
        CapabilityGrant::WebSearch,
        CapabilityGrant::ReadInbox,
        CapabilityGrant::WriteOutbox,
        CapabilityGrant::HireSubordinate,
        CapabilityGrant::WorkflowCompile,
        CapabilityGrant::WorkflowLaunch,
        CapabilityGrant::HeartbeatReview,
        CapabilityGrant::McpClient,
        CapabilityGrant::A2AIngress,
        CapabilityGrant::A2AEgress,
        CapabilityGrant::FileRead,
        CapabilityGrant::FileWrite,
        CapabilityGrant::ShellExec,
        CapabilityGrant::GitOps,
        ];
        assert(grants@ == all_grants());
        let mut i: usize = 0;
        while i < grants.len()
            invariant
                i <= grants.len(),
                grants@ == all_grants(),
                forall|j: int| 0 <= j < i ==> grant_wire_name(#[trigger] grants@[j]) != name@,
            decreases grants.len() - i,
        {
            if str_equals(grants[i].wire_name(), name) {
                return Some(grants[i]);
            }
            i = i + 1;
        }
        proof {
            assert forall|g: CapabilityGrant| grant_wire_name(g) != name@ by {
                let k: int = match g {
                    CapabilityGrant::QueueManagedWork => 0,
                    CapabilityGrant::InspectManagedWork => 1,
                    CapabilityGrant::DispatchSwo => 2,
                    CapabilityGrant::SubmitInnovationSwo => 3,
                    CapabilityGrant::WebSearch => 4,
                    CapabilityGrant::ReadInbox => 5,
                    CapabilityGrant::WriteOutbox => 6,
                    CapabilityGrant::HireSubordinate => 7,
                    CapabilityGrant::WorkflowCompile => 8,
                    CapabilityGrant::WorkflowLaunch => 9,
                    CapabilityGrant::HeartbeatReview => 10,
                    CapabilityGrant::McpClient => 11,
                    CapabilityGrant::A2AIngress => 12,
                    CapabilityGrant::A2AEgress => 13,
                    CapabilityGrant::FileRead => 14,
                    CapabilityGrant::FileWrite => 15,
                    CapabilityGrant::ShellExec => 16,
                    CapabilityGrant::GitOps => 17,
                };
                assert(grants@[k] == g);
            }
        }
        None
    }
}


/// A worker in chat mode is shown exactly the granted tools among queueing
/// managed work, reading the work-order queue status, reading agent files
/// and writing artifacts; no other tool, whatever is granted.
pub proof fn lemma_chat_mode_tools(caps: Seq<CapabilityGrant>, can_hire: bool, t: WorkerTool)
    ensures
        exposed_names(all_tools(), caps, "chat_mode"@, can_hire).contains(tool_name(t)) <==> (
        grants_tool(caps, t) && (t == WorkerTool::QueueManagedWork || t
            == WorkerTool::GetSwoQueueStatus || t == WorkerTool::ReadAgentFile || t
            == WorkerTool::WriteArtifactFile)),
{
    lemma_exposed_names_members(all_tools(), caps, "chat_mode"@, can_hire);
    let e = exposed_names(all_tools(), caps, "chat_mode"@, can_hire);
    let i: int = match t {
        WorkerTool::DispatchSwoInternal => 0,
        WorkerTool::GetSwoQueueStatus => 1,
        WorkerTool::HireSubordinateInternal => 2,
        WorkerTool::QueueManagedWork => 3,
        WorkerTool::ReadAgentFile => 4,
        WorkerTool::SubmitInnovationSwo => 5,
        WorkerTool::WriteArtifactFile => 6,
    };
    assert(all_tools()[i] == t);
    if e.contains(tool_name(t)) {
        let k = choose|k: int| 0 <= k < e.len() && e[k] == tool_name(t);
        let j = choose|j: int|
            0 <= j < all_tools().len() && tool_exposed(caps, "chat_mode"@, can_hire, all_tools()[j])
                && #[trigger] e[k] == tool_name(all_tools()[j]);
        lemma_tool_name_injective(all_tools()[j], t);
    }
    if grants_tool(caps, t) && (t == WorkerTool::QueueManagedWork || t
        == WorkerTool::GetSwoQueueStatus || t == WorkerTool::ReadAgentFile || t
        == WorkerTool::WriteArtifactFile) {
        assert(tool_exposed(caps, "chat_mode"@, can_hire, all_tools()[i]));
    }
}

} // verus!
