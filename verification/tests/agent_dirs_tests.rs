use sairgent_kernel::agent_dirs::relative_workspace_ref;
use sairgent_kernel::agent_dirs::{
    attachment_delivery, copied_attachment_name, directory_binding_ok, is_agent_directory_entry,
    plan_agent_directory, AttachmentDelivery, DirectoryPlan,
};
use sairgent_kernel::error::KernelError;
use sairgent_kernel::orchestrator::{DeliveredAttachmentContext, Orchestrator};

#[test]
fn agent_directory_names_are_sanitized() {
    assert_eq!(
        Orchestrator::sanitize_agent_directory_name("  Dr. Who/Ops  "),
        Ok("Dr_ Who_Ops".to_string())
    );
    assert_eq!(
        Orchestrator::sanitize_agent_directory_name("__ok__"),
        Ok("ok".to_string())
    );
    assert_eq!(
        Orchestrator::sanitize_agent_directory_name("///"),
        Err(KernelError::Internal(
            "Agent name '///' produces an empty sanitized directory name".to_string()
        ))
    );
    let long = "a".repeat(80);
    assert_eq!(Orchestrator::sanitize_agent_directory_name(&long), Ok("a".repeat(64)));
    assert_eq!(
        Orchestrator::conflict_safe_agent_directory_name("Cat", "0123456789abcdef"),
        Ok("Cat-01234567".to_string())
    );
}

#[test]
fn attachment_file_names_are_sanitized() {
    assert_eq!(Orchestrator::sanitize_attachment_filename("a/b:c\u{7}.txt"), "a_b_c_.txt");
    assert_eq!(Orchestrator::sanitize_attachment_filename("  my   report . "), "my report ");
    assert_eq!(Orchestrator::sanitize_attachment_filename("..."), "attachment");
    assert_eq!(copied_attachment_name("att-1", Some("x/y.md")), "att-1__x_y.md");
    assert_eq!(copied_attachment_name("att-1", None), "att-1__attachment");
}

#[test]
fn attachment_context_lists_each_attachment() {
    let attachments = vec![DeliveredAttachmentContext {
        attachment_id: "a1".to_string(),
        source_kind: "upload".to_string(),
        display_name: "notes.md".to_string(),
        original_path: "/home/u/notes.md".to_string(),
        workspace_path: "/agents/cat/context/attachments/a1__notes.md".to_string(),
        workspace_ref: "context/attachments/a1__notes.md".to_string(),
        content_type: "text/markdown".to_string(),
        size_bytes: 42,
        originating_swo_id: None,
        originating_artifact_id: None,
    }];
    let text = Orchestrator::render_attachment_context("Do it", &attachments);
    assert_eq!(
        text,
        "Do it\n\nATTACHMENTS PROVIDED:\nReview the attached files before deciding whether delegation is necessary.\nUse read_agent_file with the workspace-relative paths below when you need the file contents.\n1. notes.md [upload] path=context/attachments/a1__notes.md source=/home/u/notes.md size=42 content_type=text/markdown"
    );
    assert_eq!(Orchestrator::render_attachment_context("Do it", &vec![]), "Do it");
}

#[test]
fn home_directory_plans() {
    assert!(matches!(plan_agent_directory(true, false, None, "id"), DirectoryPlan::MigrateLegacy));
    assert!(matches!(plan_agent_directory(true, true, Some("other"), "id"), DirectoryPlan::UseFallback));
    assert!(matches!(plan_agent_directory(false, true, Some("id"), "id"), DirectoryPlan::UsePreferred));
    assert!(matches!(plan_agent_directory(false, true, None, "id"), DirectoryPlan::UsePreferred));
    assert!(matches!(plan_agent_directory(false, false, None, "id"), DirectoryPlan::UsePreferred));
    assert!(directory_binding_ok(None, "id"));
    assert!(directory_binding_ok(Some("id"), "id"));
    assert!(!directory_binding_ok(Some("x"), "id"));
    assert!(is_agent_directory_entry("Cat", "Cat"));
    assert!(is_agent_directory_entry("Cat-01234567", "Cat"));
    assert!(!is_agent_directory_entry("Catherine", "Cat"));
}

#[test]
fn attachments_are_referenced_in_place_only_when_owned() {
    assert!(matches!(attachment_delivery(true, None, "a"), AttachmentDelivery::Referenced));
    assert!(matches!(attachment_delivery(true, Some("a"), "a"), AttachmentDelivery::Referenced));
    assert!(matches!(attachment_delivery(true, Some("b"), "a"), AttachmentDelivery::Copied));
    assert!(matches!(attachment_delivery(false, None, "a"), AttachmentDelivery::Copied));
}

#[test]
fn workspace_refs_are_relative_to_the_agent_root() {
    assert_eq!(
        relative_workspace_ref("/home/u/Sairgent_Agents/Ann", "/home/u/Sairgent_Agents/Ann/context/attachments/a.md"),
        Ok("context/attachments/a.md".to_string())
    );
    assert_eq!(relative_workspace_ref("/a/b", "/a/b"), Ok(String::new()));
    assert_eq!(relative_workspace_ref("agents/Ann", "agents/Ann/outbox/r_1"), Ok("outbox/r_1".to_string()));
    assert_eq!(
        relative_workspace_ref("/a/b", "/a/c/x.md"),
        Err(KernelError::Internal("Path '/a/c/x.md' is outside agent workspace '/a/b'".to_string()))
    );
    assert_eq!(
        relative_workspace_ref("/srv/agent-1", "/srv/agent-1/outbox/report.v2.md"),
        Ok("outbox/report.v2.md".to_string())
    );
    assert_eq!(
        relative_workspace_ref("/srv/agent-1", "/srv/agent-10/notes.md"),
        Err(KernelError::Internal("Path '/srv/agent-10/notes.md' is outside agent workspace '/srv/agent-1'".to_string()))
    );
}
