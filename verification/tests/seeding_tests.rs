use sairgent_kernel::error::KernelError;
use sairgent_kernel::seeding::{resolve_starter_parties, seed_creation_order};
use sairgent_kernel::string_map::StringMap;

fn agent(name: &str, manager: Option<&str>) -> (String, Option<String>) {
    (name.to_string(), manager.map(|m| m.to_string()))
}

fn internal(e: KernelError) -> String {
    match e {
        KernelError::Internal(m) => m,
        other => panic!("expected an internal error, got {:?}", other),
    }
}

#[test]
fn managers_are_hired_before_their_reports_in_passes() {
    let agents = vec![
        agent("Worker", Some("Perry")),
        agent("Perry", None),
        agent("Lead", Some("Perry")),
        agent("Intern", Some("Worker")),
    ];
    assert_eq!(seed_creation_order(&agents).unwrap(), vec![1, 2, 0, 3]);
}

#[test]
fn a_manager_hired_earlier_in_the_same_pass_counts() {
    let agents = vec![agent("Perry", None), agent("Lead", Some("Perry")), agent("Worker", Some("Lead"))];
    assert_eq!(seed_creation_order(&agents).unwrap(), vec![0, 1, 2]);
}

#[test]
fn an_empty_spec_hires_nobody() {
    assert_eq!(seed_creation_order(&Vec::new()).unwrap(), Vec::<usize>::new());
}

#[test]
fn an_unknown_manager_is_refused() {
    let agents = vec![agent("Perry", None), agent("Scout", Some("Ghost"))];
    assert_eq!(
        internal(seed_creation_order(&agents).unwrap_err()),
        "Seed spec contains unresolved manager references"
    );
}

#[test]
fn a_manager_cycle_is_refused() {
    let agents = vec![agent("A", Some("B")), agent("B", Some("A"))];
    assert_eq!(
        internal(seed_creation_order(&agents).unwrap_err()),
        "Seed spec contains unresolved manager references"
    );
}

#[test]
fn a_repeated_agent_name_is_refused() {
    let agents = vec![agent("Perry", None), agent("Perry", None)];
    assert_eq!(
        internal(seed_creation_order(&agents).unwrap_err()),
        "Seed spec contains unresolved manager references"
    );
}

fn hired() -> StringMap {
    let mut m = StringMap::new();
    m.insert("Perry".to_string(), "id-perry".to_string());
    m.insert("Worker".to_string(), "id-worker".to_string());
    m
}

#[test]
fn starter_parties_resolve_to_hired_ids() {
    let p = resolve_starter_parties(&hired(), "Worker", "Perry", "Perry", None, Some("Perry")).unwrap();
    assert_eq!(p.assigned_agent_id, "id-worker");
    assert_eq!(p.owner_agent_id, "id-perry");
    assert_eq!(p.created_by_agent_id, "id-perry");
    assert_eq!(p.initiative_owner_agent_id, Some("id-perry".to_string()));
}

#[test]
fn the_work_orders_own_initiative_owner_wins_and_unknown_ones_are_dropped() {
    let own = resolve_starter_parties(&hired(), "Worker", "Perry", "Perry", Some("Worker"), Some("Perry")).unwrap();
    assert_eq!(own.initiative_owner_agent_id, Some("id-worker".to_string()));
    let unknown = resolve_starter_parties(&hired(), "Worker", "Perry", "Perry", Some("Ghost"), Some("Perry")).unwrap();
    assert_eq!(unknown.initiative_owner_agent_id, None);
    let none = resolve_starter_parties(&hired(), "Worker", "Perry", "Perry", None, None).unwrap();
    assert_eq!(none.initiative_owner_agent_id, None);
}

#[test]
fn unknown_starter_parties_are_reported_assignee_first() {
    let e = resolve_starter_parties(&hired(), "Ghost", "Nobody", "Perry", None, None).err().unwrap();
    assert_eq!(internal(e), "Starter SWO references unknown assignee Ghost");
    let e = resolve_starter_parties(&hired(), "Worker", "Nobody", "Ghost", None, None).err().unwrap();
    assert_eq!(internal(e), "Starter SWO references unknown owner Nobody");
    let e = resolve_starter_parties(&hired(), "Worker", "Perry", "Ghost", None, None).err().unwrap();
    assert_eq!(internal(e), "Starter SWO references unknown creator Ghost");
}
