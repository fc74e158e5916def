use sairgent_kernel::error::KernelError;
use sairgent_kernel::hsm::hsm_agent_id_check;
use sairgent_kernel::worker::worker_stalled;
use sairgent_kernel::fit::{manager_requires_delegation, qualified_direct_reports, DirectReportFit};
use sairgent_kernel::orchestrator::Orchestrator;

fn strings(items: &[&str]) -> Vec<String> {
    items.iter().map(|s| s.to_string()).collect()
}

fn report(id: &str, name: &str, role: &str, domains: &[&str], presence: &str) -> DirectReportFit {
    DirectReportFit {
        id: id.to_string(),
        name: name.to_string(),
        role: role.to_string(),
        managed_domains: strings(domains),
        skill_names: vec![],
        tool_names: vec![],
        team_goal_text: vec![],
        presence: presence.to_string(),
    }
}

#[test]
fn payload_keywords_split_lowercase_and_drop_short_words() {
    assert_eq!(
        Orchestrator::payload_keywords("Prepare a PaaS report, Q3-plan!"),
        strings(&["prepare", "paas", "report", "plan"])
    );
    assert_eq!(Orchestrator::payload_keywords(""), Vec::<String>::new());
    assert_eq!(Orchestrator::payload_keywords("ab cd"), Vec::<String>::new());
    assert_eq!(Orchestrator::payload_keywords("Éco"), strings(&["éco"]));
}

#[test]
fn fit_score_weights_each_source() {
    let kws = strings(&["security", "audit"]);
    let score = Orchestrator::direct_report_fit_score(
        &kws,
        "Security Engineer",
        &strings(&["Infra", "SECURITY"]),
        &strings(&["audit-log"]),
        &strings(&["scanner"]),
        &strings(&["Pass the SOC2 audit"]),
        "READY",
    );
    // security: role 3 + domain 4; audit: skill 2 + goal 2
    assert_eq!(score, 11);
    let offline = Orchestrator::direct_report_fit_score(
        &kws,
        "Security Engineer",
        &strings(&["Infra", "SECURITY"]),
        &strings(&["audit-log"]),
        &strings(&["scanner"]),
        &strings(&["Pass the SOC2 audit"]),
        "OFFLINE",
    );
    assert_eq!(offline, 10);
    let none = Orchestrator::direct_report_fit_score(&vec![], "x", &vec![], &vec![], &vec![], &vec![], "STALE");
    assert_eq!(none, -1);
}

#[test]
fn qualified_reports_are_ranked_best_first() {
    let reports = vec![
        report("r1", "Zed", "Marketing lead", &["marketing"], "READY"),
        report("r2", "Amy", "Security lead", &["security"], "OFFLINE"),
        report("r3", "Bob", "Security analyst", &["security"], "READY"),
        report("r4", "Cy", "Chef", &[], "READY"),
    ];
    let ranked = qualified_direct_reports("Run a security review", &reports);
    assert_eq!(
        ranked,
        vec![
            ("r3".to_string(), "Bob".to_string(), 7),
            ("r2".to_string(), "Amy".to_string(), 6),
        ]
    );
}

#[test]
fn only_managers_with_strict_policy_must_delegate() {
    assert!(manager_requires_delegation("manager", "must_delegate_when_fit_exists"));
    assert!(!manager_requires_delegation("individual", "must_delegate_when_fit_exists"));
    assert!(!manager_requires_delegation("manager", "may_self_execute"));
}

#[test]
fn hsm_agent_ids_must_be_uuids() {
    assert_eq!(hsm_agent_id_check("7f1c2a9e-1b2c-4d3e-8f90-123456789abc"), Ok(()));
    assert_eq!(
        hsm_agent_id_check("../etc"),
        Err(KernelError::Internal("Invalid agent_id format, potential path traversal detected: ../etc".to_string()))
    );
}

#[test]
fn workers_stall_after_two_minutes_without_progress() {
    assert!(!worker_stalled(119_999, 0));
    assert!(worker_stalled(120_000, 0));
    assert!(worker_stalled(i64::MAX, i64::MIN));
}
