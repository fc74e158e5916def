use sairgent_kernel::audit::{chain_hash_of_text, compute_chain_hash, lower_hex_string, TaintLabel};
use sairgent_kernel::calendar::{days_in_month, format_utc_timestamp, is_leap_year};
use sairgent_kernel::cron::{
    cron_run_starts, cron_work, CronWork,
    ideation_prompt, stale_work_order_action, CronState, CronVerdict, StaleAction,
};
use sairgent_kernel::kernel::{snapshot_id, Kernel, SeedAction, Secrets};
use sairgent_kernel::text::{replace_all, text_lines};
use sha2::{Digest, Sha256};

fn secrets() -> Secrets {
    Secrets {
        default_llm_api_key: "key".to_string(),
        llm_api_keys_by_provider: vec![],
        tool_api_keys_by_slug: vec![],
        sidechannel_token: "token".to_string(),
    }
}

fn hex(bytes: &[u8]) -> String {
    bytes.iter().map(|b| format!("{:02x}", b)).collect()
}

#[test]
fn cron_fires_new_agent_then_waits_for_interval() {
    let mut cron = CronState::new();
    assert!(matches!(cron.tick_agent("a", Some(60), 1000), CronVerdict::Fire));
    assert!(matches!(cron.tick_agent("a", Some(60), 1030), CronVerdict::NotDue));
    assert!(matches!(cron.tick_agent("a", Some(60), 1059), CronVerdict::NotDue));
    assert!(matches!(cron.tick_agent("a", Some(60), 1060), CronVerdict::Fire));
}

#[test]
fn cron_skips_agents_without_interval() {
    let mut cron = CronState::new();
    assert!(matches!(cron.tick_agent("a", None, 1000), CronVerdict::NoInterval));
    assert!(matches!(cron.tick_agent("a", Some(0), 1000), CronVerdict::NoInterval));
    assert!(matches!(cron.tick_agent("a", Some(-5), 1000), CronVerdict::NoInterval));
}

#[test]
fn cron_holds_back_agent_in_flight() {
    let mut cron = CronState::new();
    assert!(matches!(cron.tick_agent("a", Some(10), 100), CronVerdict::Fire));
    cron.mark_in_flight("a");
    assert!(matches!(cron.tick_agent("a", Some(10), 200), CronVerdict::InFlight));
    assert!(matches!(cron.tick_agent("b", Some(10), 200), CronVerdict::Fire));
    cron.clear_in_flight("a");
    assert!(matches!(cron.tick_agent("a", Some(10), 201), CronVerdict::Fire));
}

#[test]
fn stale_work_orders_fail_after_three_retries() {
    assert!(matches!(stale_work_order_action(0), StaleAction::Requeue));
    assert!(matches!(stale_work_order_action(2), StaleAction::Requeue));
    assert!(matches!(stale_work_order_action(3), StaleAction::Fail));
    assert!(matches!(stale_work_order_action(7), StaleAction::Fail));
}

#[test]
fn reap_orphaned_swos_counts_requeued_and_failed() {
    let stale = vec![
        (1, "swo-1".to_string(), 0),
        (2, "swo-2".to_string(), 3),
        (3, "swo-3".to_string(), 2),
    ];
    let (actions, requeued, failed) = Kernel::reap_orphaned_swos(&stale);
    assert_eq!(actions.len(), 3);
    assert!(matches!(actions[0], StaleAction::Requeue));
    assert!(matches!(actions[1], StaleAction::Fail));
    assert!(matches!(actions[2], StaleAction::Requeue));
    assert_eq!(requeued, 2);
    assert_eq!(failed, 1);
}

#[test]
fn ideation_prompt_names_agent_and_mission() {
    let p = ideation_prompt("Felicity", "CTO", "Ship it");
    assert!(p.starts_with("AUTONOMOUS IDEATION CYCLE\nAgent: Felicity (CTO)\nMission: Ship it\nTask: "));
    assert!(p.ends_with("in the decision log."));
}

#[test]
fn runtime_seeding_decisions() {
    assert!(matches!(Kernel::ensure_runtime_seeded(0, Some("p"), "p"), SeedAction::SeedFresh));
    assert!(matches!(Kernel::ensure_runtime_seeded(4, Some("p"), "p"), SeedAction::KeepExisting));
    assert!(matches!(Kernel::ensure_runtime_seeded(4, Some("q"), "p"), SeedAction::ArchiveAndReseed));
    assert!(matches!(Kernel::ensure_runtime_seeded(4, None, "p"), SeedAction::ArchiveAndReseed));
}

#[test]
fn archive_root_sits_beside_database() {
    let k = Kernel::new("/var/lib/sairgent/registry.db", "worker", secrets());
    assert_eq!(k.archive_root(), "/var/lib/sairgent/runtime_archives");
    assert_eq!(k.db_path, "/var/lib/sairgent/registry.db");
    assert_eq!(k.orchestrator.worker_cmd_binary, "worker");
    let bare = Kernel::new("registry.db", "worker", secrets());
    assert_eq!(bare.archive_root(), "runtime_archives");
    let top = Kernel::new("/registry.db", "worker", secrets());
    assert_eq!(top.archive_root(), "/runtime_archives");
}

#[test]
fn snapshot_ids_carry_the_time() {
    assert_eq!(snapshot_id(1700000000000), "runtime-1700000000000");
    assert_eq!(snapshot_id(0), "runtime-0");
}

#[test]
fn chain_hash_starts_from_genesis() {
    let got = chain_hash_of_text(None, "swo.created", &TaintLabel::TrustedSystem, "{\"a\":1}");
    let want = hex(&Sha256::digest("GENESIS|swo.created|TrustedSystem|{\"a\":1}".as_bytes()));
    assert_eq!(got, want);
    assert_eq!(got.len(), 64);
}

#[test]
fn chain_hash_links_to_previous_hash() {
    let first = chain_hash_of_text(None, "k", &TaintLabel::UserInput, "null");
    let second = chain_hash_of_text(Some(first.as_str()), "k", &TaintLabel::UserInput, "null");
    let want = hex(&Sha256::digest(format!("{}|k|UserInput|null", first).as_bytes()));
    assert_eq!(second, want);
    assert_ne!(first, second);
}

#[test]
fn chain_hash_of_json_payload_uses_compact_text() {
    let payload: serde_json::Value = serde_json::from_str("{\"b\":[1,2],\"a\":\"x\"}").unwrap();
    let got = compute_chain_hash(Some("abc"), "tool", &TaintLabel::ToolExecution, &payload);
    let text = serde_json::to_string(&payload).unwrap();
    let want = hex(&Sha256::digest(format!("abc|tool|ToolExecution|{}", text).as_bytes()));
    assert_eq!(got, want);
}

#[test]
fn lower_hex_pads_each_byte() {
    assert_eq!(lower_hex_string(&vec![0, 15, 16, 255]), "000f10ff");
    assert_eq!(lower_hex_string(&vec![]), "");
}

#[test]
fn replace_all_matches_std() {
    for (s, f, t) in [
        ("aabbaa", "aa", "x"),
        ("aaa", "aa", "b"),
        ("ab", "", "-"),
        ("", "", "z"),
        ("hello", "xyz", "q"),
        ("a.b.c", ".", "::"),
    ] {
        assert_eq!(replace_all(s, f, t), s.replace(f, t), "{:?}", (s, f, t));
    }
}

#[test]
fn text_lines_matches_std() {
    for s in ["", "a", "a\n", "a\r\nb", "\n\nx", "one\ntwo\r\n", "x\r"] {
        let want: Vec<String> = s.lines().map(|l| l.to_string()).collect();
        assert_eq!(text_lines(s), want, "{:?}", s);
    }
}

#[test]
fn calendar_basics() {
    assert!(is_leap_year(2000));
    assert!(!is_leap_year(1900));
    assert!(is_leap_year(2024));
    assert_eq!(days_in_month(2024, 1), 29);
    assert_eq!(days_in_month(2023, 1), 28);
    assert_eq!(days_in_month(2023, 11), 31);
    assert_eq!(format_utc_timestamp(0), "1970-01-01 00:00:00");
    assert_eq!(format_utc_timestamp(951782400), "2000-02-29 00:00:00");
    assert_eq!(format_utc_timestamp(253402300799), "9999-12-31 23:59:59");
    assert_eq!(format_utc_timestamp(-1), "1969-12-31 23:59:59");
    assert_eq!(format_utc_timestamp(-86400), "1969-12-31 00:00:00");
    assert_eq!(format_utc_timestamp(-30610224000), "1000-01-01 00:00:00");
}

#[test]
fn cron_fires_run_pending_work_or_ideate() {
    assert_eq!(cron_work(Ok(Some(42))), CronWork::ClaimAndRun { swo_id: 42 });
    assert_eq!(cron_work(Ok(None)), CronWork::Ideate);
    assert_eq!(cron_work(Err("db locked".to_string())), CronWork::Nothing);
    assert!(cron_run_starts(&CronWork::Ideate, None));
    assert!(cron_run_starts(&CronWork::ClaimAndRun { swo_id: 42 }, Some(1)));
    assert!(!cron_run_starts(&CronWork::ClaimAndRun { swo_id: 42 }, Some(0)));
    assert!(!cron_run_starts(&CronWork::ClaimAndRun { swo_id: 42 }, None));
    assert!(!cron_run_starts(&CronWork::Nothing, Some(1)));
}
