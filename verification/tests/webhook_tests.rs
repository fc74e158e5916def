use sairgent_kernel::calendar::format_iso_timestamp_ms;
use sairgent_kernel::webhook::{
    make_sairgent_message, telegram_chat_outcome, webhook_channel, webhook_reply, telegram_duplicate_outcome, telegram_received_record,
    SairgentWebhookToolCall,
};

fn call(id: &str, status: &str, confirm: bool) -> SairgentWebhookToolCall {
    SairgentWebhookToolCall {
        call_id: id.to_string(),
        tool_name: "create_project".to_string(),
        summary: "Create".to_string(),
        arguments_json: "{}".to_string(),
        status: status.to_string(),
        requires_confirmation: confirm,
        result_summary: None,
        error_message: Some("none".to_string()),
    }
}

#[test]
fn message_singles_out_first_pending_call() {
    let calls = vec![
        call("c1", "executed", true),
        call("c2", "proposed", false),
        call("c3", "pending_confirmation", true),
        call("c4", "proposed", true),
    ];
    let m = make_sairgent_message(
        "assistant",
        "Hello".to_string(),
        "  Telegram ",
        "conv-1".to_string(),
        calls,
        "2024-01-01T00:00:00.000Z".to_string(),
        [0xab; 16],
    );
    assert_eq!(m.id, "abababab-abab-4bab-abab-abababababab");
    assert_eq!(m.channel, "telegram");
    assert_eq!(m.role, "assistant");
    assert_eq!(m.content, "Hello");
    assert_eq!(m.conversation_id, "conv-1");
    assert_eq!(m.created_at, "2024-01-01T00:00:00.000Z");
    assert_eq!(m.tool_calls.len(), 4);
    let pending = m.pending_tool_call.expect("a pending call");
    assert_eq!(pending.call_id, "c3");
    assert_eq!(pending.error_message, Some("none".to_string()));
    assert!(m.related_project_id.is_none());
    assert!(m.related_swo_id.is_none());
}

#[test]
fn message_without_pending_calls() {
    let m = make_sairgent_message("user", "x".to_string(), "slack", "c".to_string(), vec![], "t".to_string(), [0; 16]);
    assert_eq!(m.id, "00000000-0000-4000-8000-000000000000");
    assert!(m.pending_tool_call.is_none());
}

#[test]
fn iso_timestamps_with_millis() {
    assert_eq!(format_iso_timestamp_ms(0), "1970-01-01T00:00:00.000Z");
    assert_eq!(format_iso_timestamp_ms(1700000000123), "2023-11-14T22:13:20.123Z");
    assert_eq!(format_iso_timestamp_ms(951782400007), "2000-02-29T00:00:00.007Z");
}

#[test]
fn telegram_outcomes_and_delivery_records() {
    let (resp, rec) = telegram_duplicate_outcome();
    assert_eq!(resp.status, "ignored");
    assert!(resp.reply.is_none());
    assert_eq!((rec.direction.as_str(), rec.status.as_str()), ("inbound", "duplicate"));
    let rec = telegram_received_record();
    assert_eq!(rec.status, "received");
    let (ok, rec) = telegram_chat_outcome(Ok("Hi".to_string()));
    assert_eq!(ok.status, "success");
    assert_eq!(ok.reply, Some("Hi".to_string()));
    assert_eq!(rec.status, "delivered");
    let (err, rec) = telegram_chat_outcome(Err("boom".to_string()));
    assert_eq!(err.status, "error");
    assert_eq!(err.reply, Some("boom".to_string()));
    assert_eq!((rec.direction.as_str(), rec.status.as_str(), rec.detail.as_str()), ("outbound", "failed", "boom"));
}

#[test]
fn generic_webhook_channel_and_reply() {
    assert_eq!(webhook_channel(None), "system");
    assert_eq!(webhook_channel(Some("slack".to_string())), "slack");
    let ok = webhook_reply(Ok("done".to_string()));
    assert_eq!((ok.status.as_str(), ok.reply.as_deref()), ("success", Some("done")));
    let err = webhook_reply(Err("no agent".to_string()));
    assert_eq!((err.status.as_str(), err.reply.as_deref()), ("error", Some("no agent")));
}
