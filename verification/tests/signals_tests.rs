use sairgent_kernel::signals::{
    publish_runtime_signal, replay_signals, runtime_envelope, signal_status, signal_swo_id,
    RuntimeSignalView,
};
use sairgent_kernel::workspace::{system_runtime_principal, RuntimeBusState};

fn json(text: &str) -> serde_json::Value {
    serde_json::from_str(text).unwrap()
}

#[test]
fn envelopes_take_successive_cursors() {
    let mut bus: RuntimeBusState<u8> = RuntimeBusState::new();
    let first = runtime_envelope(
        &mut bus,
        "kernel",
        system_runtime_principal(),
        "desktop",
        "operator_safe",
        Some("corr-1".to_string()),
        1234,
        [0x11; 16],
        [0x22; 16],
    );
    assert_eq!(first.cursor, "runtime-1");
    assert_eq!(first.correlation_id, "corr-1");
    assert_eq!(first.id.len(), 36);
    assert_eq!(first.source, "kernel");
    assert_eq!(first.audience, "desktop");
    assert_eq!(first.redaction_class, "operator_safe");
    assert_eq!(first.occurred_at, 1234);
    let second = runtime_envelope(
        &mut bus,
        "kernel",
        system_runtime_principal(),
        "desktop",
        "operator_safe",
        None,
        1235,
        [0x33; 16],
        [0xff; 16],
    );
    assert_eq!(second.cursor, "runtime-2");
    assert_eq!(second.correlation_id.len(), 36);
    assert_ne!(first.id, second.id);
    assert_eq!(first.id, "11111111-1111-4111-9111-111111111111");
    assert_eq!(second.correlation_id, "ffffffff-ffff-4fff-bfff-ffffffffffff");
}

#[test]
fn status_comes_only_from_status_signals() {
    let payload = json(r#"{"status":"THINKING"}"#);
    assert_eq!(signal_status("runtime.status.changed", &payload), Some("THINKING".to_string()));
    assert_eq!(signal_status("swo.updated", &payload), None);
    assert_eq!(signal_status("runtime.status.changed", &json(r#"{"status":3}"#)), None);
}

#[test]
fn swo_id_is_read_from_payload() {
    assert_eq!(signal_swo_id(&json(r#"{"swo":{"id":42}}"#)), Some(42));
    assert_eq!(signal_swo_id(&json(r#"{"swo":{"id":"42"}}"#)), None);
    assert_eq!(signal_swo_id(&json(r#"{"other":1}"#)), None);
    assert_eq!(signal_swo_id(&json("[1,2]")), None);
}

fn publish(bus: &mut RuntimeBusState<RuntimeSignalView>, kind: &str, audience: &str, redaction: &str) -> RuntimeSignalView {
    publish_runtime_signal(
        bus,
        kind,
        json(r#"{"n":1}"#),
        "kernel",
        system_runtime_principal(),
        audience,
        redaction,
        None,
        99,
        [0x44; 16],
        [0x55; 16],
    )
}

#[test]
fn published_signals_are_replayed_after_cursor() {
    let mut bus: RuntimeBusState<RuntimeSignalView> = RuntimeBusState::new();
    let a = publish(&mut bus, "a", "desktop", "operator_safe");
    let _b = publish(&mut bus, "b", "desktop", "internal_only");
    let _c = publish(&mut bus, "c", "external_adapter", "operator_safe");
    let d = publish(&mut bus, "d", "operator", "operator_safe");
    assert_eq!(a.envelope.cursor, "runtime-1");
    assert_eq!(d.envelope.cursor, "runtime-4");
    assert_eq!(bus.event_log.len(), 4);
    let all = replay_signals(&bus.event_log, None, None);
    let kinds: Vec<&str> = all.iter().map(|s| s.kind.as_str()).collect();
    assert_eq!(kinds, vec!["a", "d"]);
    let after = replay_signals(&bus.event_log, Some("runtime-3"), None);
    assert_eq!(after.len(), 1);
    assert_eq!(after[0].kind, "d");
    assert_eq!(after[0].payload, json(r#"{"n":1}"#));
    let limited = replay_signals(&bus.event_log, None, Some(0));
    assert_eq!(limited.len(), 1);
    assert_eq!(limited[0].kind, "a");
    assert!(replay_signals(&bus.event_log, Some("runtime-4"), Some(10)).is_empty());
}

#[test]
fn replay_is_capped_at_five_hundred() {
    let mut bus: RuntimeBusState<RuntimeSignalView> = RuntimeBusState::new();
    for _ in 0..600 {
        publish(&mut bus, "k", "desktop", "operator_safe");
    }
    assert_eq!(bus.event_log.len(), 512);
    assert_eq!(replay_signals(&bus.event_log, None, Some(10_000)).len(), 500);
    assert_eq!(replay_signals(&bus.event_log, None, None).len(), 200);
    assert_eq!(replay_signals(&bus.event_log, Some("runtime-590"), None).len(), 10);
}
