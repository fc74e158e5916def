use sairgent_kernel::credentials::{
    bound_tool_providers, configured_sidechannel_token, default_llm_provider,
    default_provider_bootable, llm_credential_has_secret, runtime_llm_keys,
};
use sairgent_kernel::settings::normalize_secure_bundle;
use sairgent_kernel::error::KernelError;
use sairgent_kernel::recurring::{
    check_template_runnable, plan_recurring_run, prior_artifact_attachment, recurring_run_status,
};
use sairgent_kernel::run_context::{manual_review_payload, run_context_text, SkillIndexLine};
use sairgent_kernel::settings::{
    bundle_value_for_account, store_bundle_value_for_account, SecureSettingsBundle,
};
use sairgent_kernel::string_map::StringMap;
use sairgent_kernel::webhook::{
    constant_time_equals, telegram_admission, telegram_early_response, webhook_conversation_id,
    TelegramAdmission, TelegramChat, TelegramMessage, TelegramUser, TelegramWebhook,
};
use sairgent_kernel::workspace::{
    keyring_account_for_llm_provider, keyring_account_for_tool, parse_runtime_cursor,
    sanitize_runtime_status, underscores_to_spaces_str, validate_slug, RuntimeBusState,
    RUNTIME_EVENT_LOG_LIMIT,
};

fn update(text: Option<&str>, chat: i64, user: Option<i64>) -> TelegramWebhook {
    TelegramWebhook {
        update_id: Some(77),
        message: Some(TelegramMessage {
            message_id: Some(5),
            text: text.map(|t| t.to_string()),
            chat: TelegramChat { id: chat },
            from: user.map(|id| TelegramUser { id }),
        }),
    }
}

#[test]
fn retired_templates_are_not_runnable() {
    assert_eq!(check_template_runnable("t1", "ACTIVE"), Ok(()));
    assert_eq!(
        check_template_runnable("t1", "CANCELLED"),
        Err(KernelError::Internal(
            "Recurring template t1 is not runnable in status CANCELLED".to_string()
        ))
    );
    assert!(check_template_runnable("t2", "ARCHIVED").is_err());
}

#[test]
fn recurring_run_plan_numbers_the_title_and_falls_back_to_owner() {
    let plan = plan_recurring_run("Weekly report", "A report", None, None, "owner-1", 4);
    assert_eq!(plan.run_title, "Weekly report (Run #4)");
    assert_eq!(plan.assignee_agent_id, "owner-1");
    assert!(plan.payload.contains("Weekly report (Run #4)"));
    let assigned = plan_recurring_run("T", "O", Some("c"), Some("worker-2"), "owner-1", 1);
    assert_eq!(assigned.assignee_agent_id, "worker-2");
    assert_eq!(recurring_run_status(1), "RUNNING");
    assert_eq!(recurring_run_status(0), "QUEUED");
}

#[test]
fn prior_artifact_becomes_attachment() {
    let a = prior_artifact_attachment("run-9", 12, "notes.md", "/tmp/out/notes.md", 40, 3);
    assert_eq!(a.attachment_id, "run-9-artifact-12");
    assert_eq!(a.source_kind, "outbox_artifact");
    assert_eq!(a.display_name, "notes.md");
    assert_eq!(a.size_bytes, 40);
    assert_eq!(a.originating_swo_id, Some(3));
    assert_eq!(a.originating_artifact_id, Some(12));
}

#[test]
fn run_context_lists_skills() {
    let skills = vec![
        SkillIndexLine {
            name: "search".to_string(),
            summary: "Web search".to_string(),
            preselected: true,
            runtime_path: Some("/skills/search".to_string()),
        },
        SkillIndexLine {
            name: "draw".to_string(),
            summary: "Diagrams".to_string(),
            preselected: false,
            runtime_path: None,
        },
    ];
    let text = run_context_text("Ann", "CEO", "work", "Grow", &skills);
    assert_eq!(
        text,
        "# Run Context\n\nName: Ann\nRole: CEO\nMode: work\nMission: Grow\n\nThis bundle is derived from the kernel DB for the current run only.\n\n## Skills\n- search [preselected] :: Web search (path: /skills/search)\n- draw [available] :: Diagrams\n"
    );
    let empty = run_context_text("Ann", "CEO", "work", "Grow", &vec![]);
    assert!(empty.ends_with("## Skills\n- none\n"));
    assert!(manual_review_payload("Ann", "CEO", "Grow")
        .starts_with("MANUAL PROACTIVE REVIEW\nAgent: Ann (CEO)\nMission: Grow\n"));
}

#[test]
fn runtime_cursor_round_trips() {
    let mut bus: RuntimeBusState<u32> = RuntimeBusState::new();
    let c1 = bus.next_runtime_cursor();
    let c2 = bus.next_runtime_cursor();
    assert_eq!(c1, "runtime-1");
    assert_eq!(c2, "runtime-2");
    assert_eq!(parse_runtime_cursor(Some(c2.as_str())), Some(2));
    assert_eq!(parse_runtime_cursor(Some("runtime-42")), Some(42));
    assert_eq!(parse_runtime_cursor(Some("cursor-42")), None);
    assert_eq!(parse_runtime_cursor(Some("runtime-")), None);
    assert_eq!(parse_runtime_cursor(None), None);
}

#[test]
fn runtime_event_log_keeps_newest_signals() {
    let mut bus: RuntimeBusState<usize> = RuntimeBusState::new();
    for i in 0..(RUNTIME_EVENT_LOG_LIMIT + 10) {
        bus.remember_runtime_signal(i);
    }
    assert_eq!(bus.event_log.len(), RUNTIME_EVENT_LOG_LIMIT);
    assert_eq!(bus.event_log[0], 10);
    assert_eq!(*bus.event_log.last().unwrap(), RUNTIME_EVENT_LOG_LIMIT + 9);
}

#[test]
fn runtime_status_sanitizing() {
    assert_eq!(sanitize_runtime_status(" READY "), Some("READY".to_string()));
    assert_eq!(sanitize_runtime_status("BUSY_DELEGATING"), Some("DELEGATING".to_string()));
    assert_eq!(sanitize_runtime_status("IN_PROGRESS"), Some("WORKING".to_string()));
    assert_eq!(sanitize_runtime_status("stdout: READY"), None);
    assert_eq!(sanitize_runtime_status("   "), None);
    assert_eq!(underscores_to_spaces_str("a_b_c"), "a b c");
}

#[test]
fn slugs_and_keyring_accounts() {
    assert_eq!(keyring_account_for_llm_provider(" OpenAI "), "llm_provider::openai");
    assert_eq!(keyring_account_for_tool("Brave"), "tool_provider::brave");
    assert!(validate_slug("Provider", "  ").is_err());
}

#[test]
fn settings_bundle_stores_and_reads_accounts() {
    let mut b = SecureSettingsBundle::new();
    assert!(store_bundle_value_for_account(&mut b, "api_key", "  sk-1  "));
    assert_eq!(bundle_value_for_account(&b, "api_key"), Some("sk-1".to_string()));
    assert!(store_bundle_value_for_account(&mut b, "llm_provider::openai", "sk-2"));
    assert_eq!(bundle_value_for_account(&b, "llm_provider::openai"), Some("sk-2".to_string()));
    assert!(store_bundle_value_for_account(&mut b, "llm_provider::openai", "   "));
    assert_eq!(bundle_value_for_account(&b, "llm_provider::openai"), None);
    assert!(store_bundle_value_for_account(&mut b, "tool_provider::brave", "t"));
    assert_eq!(bundle_value_for_account(&b, "tool_provider::brave"), Some("t".to_string()));
    assert!(!store_bundle_value_for_account(&mut b, "other", "x"));
    assert_eq!(bundle_value_for_account(&b, "other"), None);
}

#[test]
fn string_map_insert_get_remove() {
    let mut m = StringMap::new();
    m.insert("a".to_string(), "1".to_string());
    m.insert("b".to_string(), "2".to_string());
    m.insert("a".to_string(), "3".to_string());
    assert_eq!(m.get("a"), Some("3".to_string()));
    assert_eq!(m.pairs().len(), 2);
    m.remove("a");
    assert_eq!(m.get("a"), None);
    assert_eq!(m.get("b"), Some("2".to_string()));
}

#[test]
fn constant_time_equality() {
    assert!(constant_time_equals("secret", "secret"));
    assert!(!constant_time_equals("secret", "secreT"));
    assert!(!constant_time_equals("secret", "secret-longer"));
    assert!(constant_time_equals("", ""));
}

#[test]
fn webhook_conversation_ids() {
    assert_eq!(
        webhook_conversation_id("a1", " Telegram ", Some("42"), Some("7")),
        "sairgent-a1-telegram-42-7"
    );
    assert_eq!(webhook_conversation_id("a1", "Slack", None, None), "sairgent-a1-slack-global-operator");
}

#[test]
fn telegram_admission_paths() {
    let u = update(Some("hello"), 42, Some(7));
    let unauthorized = telegram_admission(Some("s"), "x", true, &u, Some("42"), Some("7"));
    assert!(matches!(unauthorized, TelegramAdmission::Unauthorized));
    assert_eq!(
        telegram_early_response(&unauthorized).unwrap().err(),
        Some("Unauthorized webhook secret".to_string())
    );
    assert!(matches!(
        telegram_admission(None, "", true, &u, Some("42"), Some("7")),
        TelegramAdmission::Unauthorized
    ));
    let ignored = telegram_admission(Some("s"), "s", false, &u, Some("42"), Some("7"));
    assert!(matches!(ignored, TelegramAdmission::Ignored));
    assert_eq!(telegram_early_response(&ignored).unwrap().unwrap().status, "ignored");
    let blank = update(Some("   "), 42, Some(7));
    assert!(matches!(
        telegram_admission(Some("s"), "s", true, &blank, Some("42"), Some("7")),
        TelegramAdmission::Ignored
    ));
    let rejected = telegram_admission(Some("s"), "s", true, &u, Some("43"), Some("7"));
    match &rejected {
        TelegramAdmission::Rejected { external_chat_id, external_user_id, external_message_id, text_preview } => {
            assert_eq!(external_chat_id, "42");
            assert_eq!(external_user_id.as_deref(), Some("7"));
            assert_eq!(external_message_id.as_deref(), Some("5"));
            assert_eq!(text_preview, "hello");
        }
        _ => panic!("expected a rejection"),
    }
    let resp = telegram_early_response(&rejected).unwrap().unwrap();
    assert_eq!(resp.status, "rejected");
    assert_eq!(resp.reply, Some("Not authorized.".to_string()));
    let accepted = telegram_admission(Some("s"), "s", true, &u, Some("42"), Some("7"));
    match &accepted {
        TelegramAdmission::Accepted { text, external_chat_id, .. } => {
            assert_eq!(text, "hello");
            assert_eq!(external_chat_id, "42");
        }
        _ => panic!("expected acceptance"),
    }
    assert!(telegram_early_response(&accepted).is_none());
    let anonymous = update(Some("hi"), 42, None);
    assert!(matches!(
        telegram_admission(Some("s"), "s", true, &anonymous, Some("42"), Some("7")),
        TelegramAdmission::Rejected { .. }
    ));
}

#[test]
fn secure_bundle_normalizing_trims_and_drops_blank_entries() {
    let mut b = SecureSettingsBundle::new();
    b.legacy_api_key = "  sk  ".to_string();
    b.sidechannel_token = "\ttok\n".to_string();
    b.llm_api_keys_by_provider.insert(" OpenAI ".to_string(), " k1 ".to_string());
    b.llm_api_keys_by_provider.insert("blank".to_string(), "   ".to_string());
    b.llm_api_keys_by_provider.insert("  ".to_string(), "k3".to_string());
    b.tool_api_keys_by_slug.insert("Brave".to_string(), "t".to_string());
    let n = normalize_secure_bundle(b);
    assert_eq!(n.legacy_api_key, "sk");
    assert_eq!(n.sidechannel_token, "tok");
    assert_eq!(n.llm_api_keys_by_provider.get("openai"), Some("k1".to_string()));
    assert_eq!(n.llm_api_keys_by_provider.get("blank"), None);
    assert_eq!(n.llm_api_keys_by_provider.pairs().len(), 1);
    assert_eq!(n.tool_api_keys_by_slug.get("brave"), Some("t".to_string()));
}

#[test]
fn default_provider_and_secret_presence() {
    assert_eq!(default_llm_provider("   "), "anthropic");
    assert_eq!(default_llm_provider(" OpenAI "), "openai");
    assert!(llm_credential_has_secret("anthropic", None, Some("legacy"), ""));
    assert!(llm_credential_has_secret("anthropic", None, None, " key "));
    assert!(!llm_credential_has_secret("anthropic", Some("  "), None, ""));
    assert!(!llm_credential_has_secret("openai", None, Some("legacy"), "key"));
    assert!(llm_credential_has_secret("openai", Some("sk"), None, ""));
    let slots = vec![("anthropic".to_string(), false), ("openai".to_string(), true)];
    assert!(default_provider_bootable(&slots, "openai"));
    assert!(!default_provider_bootable(&slots, "anthropic"));
    assert!(!default_provider_bootable(&slots, "gemini"));
}

#[test]
fn runtime_llm_keys_pick_the_default_key() {
    let loaded = vec![
        ("anthropic".to_string(), None),
        ("openai".to_string(), Some("sk-openai".to_string())),
        ("gemini".to_string(), Some("   ".to_string())),
    ];
    let k = runtime_llm_keys(&loaded, "", Some("sk-legacy"), "").unwrap();
    // the legacy key stands in for the default provider
    assert_eq!(k.default_key, "sk-legacy");
    let mut keys = k.keys_by_provider.clone();
    keys.sort();
    assert_eq!(
        keys,
        vec![
            ("anthropic".to_string(), "sk-legacy".to_string()),
            ("openai".to_string(), "sk-openai".to_string()),
        ]
    );
    let k2 = runtime_llm_keys(&loaded, " cfg-key ", None, "OpenAI").unwrap();
    assert_eq!(k2.default_key, "sk-openai");
    let k3 = runtime_llm_keys(&loaded, "", None, "gemini").unwrap();
    assert_eq!(k3.default_key, "sk-openai");
    assert_eq!(
        runtime_llm_keys(&vec![], "", None, "").err(),
        Some("No usable LLM provider is configured for the default provider.".to_string())
    );
}

#[test]
fn sidechannel_token_and_bound_tools() {
    assert_eq!(configured_sidechannel_token(Some(" stored "), "cfg"), Some(" stored ".to_string()));
    assert_eq!(configured_sidechannel_token(Some("  "), " cfg "), Some("cfg".to_string()));
    assert_eq!(configured_sidechannel_token(None, "  "), None);
    let slugs: Vec<String> = ["brave", " ", "serp", "brave", ""].iter().map(|s| s.to_string()).collect();
    assert_eq!(bound_tool_providers(&slugs), vec!["brave".to_string(), "serp".to_string()]);
}

#[test]
fn content_types_follow_the_file_extension() {
    assert_eq!(sairgent_kernel::orchestrator::infer_attachment_content_type("notes.MD"), "text/markdown");
    assert_eq!(sairgent_kernel::orchestrator::infer_attachment_content_type(".env"), "application/octet-stream");
    assert_eq!(sairgent_kernel::orchestrator::infer_attachment_content_type("a.tar.json"), "application/json");
    assert_eq!(sairgent_kernel::workspace::infer_artifact_content_type("main.rs"), "text/plain");
    assert_eq!(sairgent_kernel::workspace::infer_artifact_content_type("README"), "application/octet-stream");
    assert_eq!(sairgent_kernel::workspace::infer_artifact_content_type("/out/plan.yml"), "application/yaml");
    assert_eq!(sairgent_kernel::workspace::infer_artifact_content_type("out.d/README"), "application/octet-stream");
    assert_eq!(sairgent_kernel::orchestrator::infer_attachment_content_type("a/b/.env"), "application/octet-stream");
    assert_eq!(sairgent_kernel::orchestrator::infer_attachment_content_type("x/report.PDF"), "application/pdf");
}
