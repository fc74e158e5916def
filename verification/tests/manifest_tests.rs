use sairgent_kernel::manifest::{AgentManifestV1, CapabilityGrant};
use sairgent_kernel::registry::AgentIdentity;

fn test_agent() -> AgentIdentity {
    AgentIdentity {
        id: "agent-1".to_string(),
        name: "Felicity".to_string(),
        parent_id: Some("perry".to_string()),
        role: "CTO".to_string(),
        persona_prompt: "Build".to_string(),
        raison_detre: "Ship".to_string(),
        default_provider: "mock".to_string(),
        default_model: "mock".to_string(),
        cron_interval_seconds: Some(60),
        triage_model: None,
        execution_model: None,
    }
}

#[test]
fn default_manifest_preserves_hiring_for_manager_reviewed_work() {
    let manifest = AgentManifestV1::default_for_agent(&test_agent());
    assert!(manifest.has_capability(&CapabilityGrant::HireSubordinate));
    assert!(manifest
        .allowed_worker_tools_for_mode("execute_triage", true)
        .contains(&"hire_subordinate_internal".to_string()));
}

#[test]
fn ideation_mode_never_exposes_direct_hiring() {
    let manifest = AgentManifestV1::default_for_agent(&test_agent());
    assert!(!manifest
        .allowed_worker_tools_for_mode("execute_ideation", true)
        .contains(&"hire_subordinate_internal".to_string()));
}

#[test]
fn least_privilege_manifest_excludes_builder_only_capabilities() {
    let manifest = AgentManifestV1::least_privilege_for_agent(&test_agent());
    assert!(manifest.has_capability(&CapabilityGrant::QueueManagedWork));
    assert!(manifest.has_capability(&CapabilityGrant::ReadInbox));
    assert!(manifest.has_capability(&CapabilityGrant::WriteOutbox));
    assert!(!manifest.has_capability(&CapabilityGrant::HireSubordinate));
    assert!(!manifest.has_capability(&CapabilityGrant::DispatchSwo));
    assert!(!manifest.has_capability(&CapabilityGrant::WorkflowLaunch));
}

#[test]
fn workspace_surface_only_keeps_file_exchange_dirs() {
    assert_eq!(
        AgentManifestV1::standard_workspace_directories(),
        ["context", "artifacts"]
    );
    assert!(AgentManifestV1::standard_workspace_files().is_empty());
}

#[test]
fn dark_factory_grants_serialize_as_snake_case() {
    assert_eq!(
        serde_json::to_string(CapabilityGrant::FileRead.wire_name()).unwrap(),
        "\"file_read\""
    );
    assert_eq!(
        serde_json::to_string(CapabilityGrant::FileWrite.wire_name()).unwrap(),
        "\"file_write\""
    );
    assert_eq!(
        serde_json::to_string(CapabilityGrant::ShellExec.wire_name()).unwrap(),
        "\"shell_exec\""
    );
    assert_eq!(
        serde_json::to_string(CapabilityGrant::GitOps.wire_name()).unwrap(),
        "\"git_ops\""
    );
}

#[test]
fn dark_factory_grants_deserialize_roundtrip() {
    for grant in [
        CapabilityGrant::FileRead,
        CapabilityGrant::FileWrite,
        CapabilityGrant::ShellExec,
        CapabilityGrant::GitOps,
    ] {
        let serialized = serde_json::to_string(grant.wire_name()).unwrap();
        let name: String = serde_json::from_str(&serialized).unwrap();
        let deserialized = CapabilityGrant::from_wire_name(&name).unwrap();
        assert_eq!(grant, deserialized);
    }
}

#[test]
fn default_grants_include_in_sandbox_io() {
    let manifest = AgentManifestV1::default_for_agent(&test_agent());
    assert!(manifest.has_capability(&CapabilityGrant::FileRead));
    assert!(manifest.has_capability(&CapabilityGrant::FileWrite));
}

#[test]
fn default_grants_exclude_out_of_sandbox_effects() {
    let manifest = AgentManifestV1::default_for_agent(&test_agent());
    assert!(!manifest.has_capability(&CapabilityGrant::ShellExec));
    assert!(!manifest.has_capability(&CapabilityGrant::GitOps));
}

#[test]
fn dark_factory_grants_not_in_least_privilege_manifest() {
    let manifest = AgentManifestV1::least_privilege_for_agent(&test_agent());
    assert!(!manifest.has_capability(&CapabilityGrant::FileRead));
    assert!(!manifest.has_capability(&CapabilityGrant::FileWrite));
    assert!(!manifest.has_capability(&CapabilityGrant::ShellExec));
    assert!(!manifest.has_capability(&CapabilityGrant::GitOps));
}

#[test]
fn dark_factory_grants_can_be_assigned_and_checked() {
    let mut manifest = AgentManifestV1::least_privilege_for_agent(&test_agent());
    assert!(!manifest.has_capability(&CapabilityGrant::ShellExec));
    manifest.capabilities.push(CapabilityGrant::ShellExec);
    assert!(manifest.has_capability(&CapabilityGrant::ShellExec));
}

#[test]
fn dark_factory_grants_have_no_worker_tool_name() {
    assert_eq!(CapabilityGrant::FileRead.worker_tool_name(), None);
    assert_eq!(CapabilityGrant::FileWrite.worker_tool_name(), None);
    assert_eq!(CapabilityGrant::ShellExec.worker_tool_name(), None);
    assert_eq!(CapabilityGrant::GitOps.worker_tool_name(), None);
}

#[test]
fn exposed_tool_names_come_sorted_without_repeats() {
    let manifest = AgentManifestV1::default_for_agent(&test_agent());
    for mode in ["chat_mode", "execute_triage", "execute_ideation", "sairgent_chat", "format_swo"] {
        let tools = manifest.allowed_worker_tools_for_mode(mode, true);
        let mut sorted = tools.clone();
        sorted.sort();
        sorted.dedup();
        assert_eq!(tools, sorted);
    }
    assert!(manifest.allowed_worker_tools_for_mode("format_swo", true).is_empty());
}

#[test]
fn triage_hiring_needs_permission_to_hire() {
    let manifest = AgentManifestV1::default_for_agent(&test_agent());
    assert!(!manifest
        .allowed_worker_tools_for_mode("execute_triage", false)
        .contains(&"hire_subordinate_internal".to_string()));
    let least = AgentManifestV1::least_privilege_for_agent(&test_agent());
    assert!(!least
        .allowed_worker_tools_for_mode("execute_triage", true)
        .contains(&"hire_subordinate_internal".to_string()));
}

#[test]
fn grant_wire_names_follow_snake_case_and_read_back() {
    assert_eq!(CapabilityGrant::A2AIngress.wire_name(), "a2_a_ingress");
    assert_eq!(CapabilityGrant::QueueManagedWork.wire_name(), "queue_managed_work");
    assert_eq!(CapabilityGrant::from_wire_name("a2_a_egress"), Some(CapabilityGrant::A2AEgress));
    assert_eq!(CapabilityGrant::from_wire_name("not_a_grant"), None);
}
