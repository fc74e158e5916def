//! Runtime signals: the envelope each one is published in, and what the
//! kernel reads back from a signal's payload.

use vstd::prelude::*;
use crate::ids::{new_uuid_v4, uuid_v4_text};
use crate::json::{
    JsonView, json_as_i64, json_as_str, json_clone, json_field, json_view, view_field, view_str,
};
use crate::text::{int_text, owned, str_equals};
use crate::workspace::{
    RUNTIME_EVENT_LOG_LIMIT, RuntimeBusState, RuntimeEnvelopeView, RuntimePrincipalView,
    cursor_number, cursor_text, keep_last, lemma_cursor_roundtrip, parse_runtime_cursor,
};

verus! {

/// The envelope of a signal about to be published: a fresh id made from
/// `id_random`, the caller's correlation id (a fresh one made from
/// `correlation_random` when it has none), and the bus's next replay cursor.
pub fn runtime_envelope<S>(
    bus: &mut RuntimeBusState<S>,
    source: &str,
    principal: RuntimePrincipalView,
    audience: &str,
    redaction_class: &str,
    correlation_id: Option<String>,
    occurred_at: i64,
    id_random: [u8; 16],
    correlation_random: [u8; 16],
) -> (r: RuntimeEnvelopeView)
    requires
        old(bus).next_cursor < u64::MAX,
    ensures
        final(bus).next_cursor == old(bus).next_cursor + 1,
        final(bus).event_log@ == old(bus).event_log@,
        r.cursor@ == cursor_text(final(bus).next_cursor as nat),
        r.id@ == uuid_v4_text(id_random@),
        match correlation_id {
            Some(c) => r.correlation_id@ == c@,
            None => r.correlation_id@ == uuid_v4_text(correlation_random@),
        },
        r.source@ == source@,
        r.principal == principal,
        r.audience@ == audience@,
        r.redaction_class@ == redaction_class@,
        r.occurred_at == occurred_at,
{
    let id = new_uuid_v4(id_random);
    let correlation_id = match correlation_id {
        Some(c) => c,
        None => new_uuid_v4(correlation_random),
    };
    let cursor = bus.next_runtime_cursor();
    RuntimeEnvelopeView {
        id,
        correlation_id,
        source: owned(source),
        principal,
        audience: owned(audience),
        redaction_class: owned(redaction_class),
        occurred_at,
        cursor,
    }
}

/// The runtime status a signal reports: the `status` text of a
/// `runtime.status.changed` payload.
pub open spec fn reported_status(kind: Seq<char>, payload: JsonView) -> Option<Seq<char>> {
    if kind == "runtime.status.changed"@ {
        view_str(view_field(payload, "status"@))
    } else {
        None
    }
}

pub fn signal_status(kind: &str, payload: &serde_json::Value) -> (r: Option<String>)
    ensures
        match reported_status(kind@, json_view(*payload)) {
            Some(s) => r matches Some(t) && t@ == s,
            None => r is None,
        },
{
    if str_equals(kind, "runtime.status.changed") {
        let status = json_field(payload, "status");
        json_as_str(&status)
    } else {
        None
    }
}

/// The work order a signal's payload is about: the integer at `swo.id`.
pub fn signal_swo_id(payload: &serde_json::Value) -> (r: Option<i64>)
    ensures
        ({
            let id = view_field(view_field(json_view(*payload), "swo"@), "id"@);
            match r {
                Some(n) => id == JsonView::Number(int_text(n as int)),
                None => forall|n: i64| id != JsonView::Number(int_text(n as int)),
            }
        }),
{
    let swo = json_field(payload, "swo");
    let id = json_field(&swo, "id");
    json_as_i64(&id)
}

/// A signal on the runtime bus.
pub struct RuntimeSignalView {
    pub envelope: RuntimeEnvelopeView,
    pub kind: String,
    pub payload: serde_json::Value,
}

/// Two signals carry the same envelope, kind and payload contents.
pub open spec fn same_signal(a: RuntimeSignalView, b: RuntimeSignalView) -> bool {
    a.envelope == b.envelope && a.kind == b.kind && json_view(a.payload) == json_view(b.payload)
}

fn copy_opt_text(o: &Option<String>) -> (r: Option<String>)
    ensures
        r == *o,
{
    match o {
        Some(s) => Some(s.clone()),
        None => None,
    }
}

fn copy_principal(p: &RuntimePrincipalView) -> (r: RuntimePrincipalView)
    ensures
        r == *p,
{
    RuntimePrincipalView {
        kind: p.kind.clone(),
        id: copy_opt_text(&p.id),
        display_name: copy_opt_text(&p.display_name),
    }
}

fn copy_envelope(e: &RuntimeEnvelopeView) -> (r: RuntimeEnvelopeView)
    ensures
        r == *e,
{
    RuntimeEnvelopeView {
        id: e.id.clone(),
        correlation_id: e.correlation_id.clone(),
        source: e.source.clone(),
        principal: copy_principal(&e.principal),
        audience: e.audience.clone(),
        redaction_class: e.redaction_class.clone(),
        occurred_at: e.occurred_at,
        cursor: e.cursor.clone(),
    }
}

/// A copy of a signal.
pub fn copy_signal(s: &RuntimeSignalView) -> (r: RuntimeSignalView)
    ensures
        same_signal(r, *s),
{
    RuntimeSignalView {
        envelope: copy_envelope(&s.envelope),
        kind: s.kind.clone(),
        payload: json_clone(&s.payload),
    }
}

/// The replay number of a signal: the number in its cursor, 0 when the
/// cursor does not parse.
pub open spec fn signal_cursor(s: RuntimeSignalView) -> u64 {
    match cursor_number(Some(s.envelope.cursor@)) {
        Some(n) => n,
        None => 0,
    }
}

/// Signals the bus holds in publishing order: replay numbers rise and none
/// exceeds the last cursor handed out.
pub open spec fn cursors_ordered(log: Seq<RuntimeSignalView>, next_cursor: u64) -> bool {
    &&& forall|i: int, j: int|
        0 <= i < j < log.len() ==> signal_cursor(#[trigger] log[i]) < signal_cursor(#[trigger] log[j])
    &&& forall|i: int| 0 <= i < log.len() ==> signal_cursor(#[trigger] log[i]) <= next_cursor
}

/// Publishes a signal: it gets the next envelope (its ids made from the
/// given random bytes) and is remembered for
/// replay, the log keeping its newest `RUNTIME_EVENT_LOG_LIMIT` signals.
/// A copy is handed back for delivery.
pub fn publish_runtime_signal(
    bus: &mut RuntimeBusState<RuntimeSignalView>,
    kind: &str,
    payload: serde_json::Value,
    source: &str,
    principal: RuntimePrincipalView,
    audience: &str,
    redaction_class: &str,
    correlation_id: Option<String>,
    occurred_at: i64,
    id_random: [u8; 16],
    correlation_random: [u8; 16],
) -> (r: RuntimeSignalView)
    requires
        old(bus).next_cursor < u64::MAX,
    ensures
        final(bus).next_cursor == old(bus).next_cursor + 1,
        final(bus).event_log@.len() > 0,
        final(bus).event_log@ == keep_last(
            old(bus).event_log@.push(final(bus).event_log@.last()),
            RUNTIME_EVENT_LOG_LIMIT as int,
        ),
        same_signal(r, final(bus).event_log@.last()),
        r.kind@ == kind@,
        json_view(r.payload) == json_view(payload),
        r.envelope.cursor@ == cursor_text(final(bus).next_cursor as nat),
        signal_cursor(r) == final(bus).next_cursor,
        r.envelope.id@ == uuid_v4_text(id_random@),
        match correlation_id {
            Some(c) => r.envelope.correlation_id@ == c@,
            None => r.envelope.correlation_id@ == uuid_v4_text(correlation_random@),
        },
        r.envelope.source@ == source@,
        r.envelope.principal == principal,
        r.envelope.audience@ == audience@,
        r.envelope.redaction_class@ == redaction_class@,
        r.envelope.occurred_at == occurred_at,
        cursors_ordered(old(bus).event_log@, old(bus).next_cursor) ==> cursors_ordered(
            final(bus).event_log@,
            final(bus).next_cursor,
        ),
{
    let envelope = runtime_envelope(
        bus,
        source,
        principal,
        audience,
        redaction_class,
        correlation_id,
        occurred_at,
        id_random,
        correlation_random,
    );
    let signal = RuntimeSignalView { envelope, kind: owned(kind), payload };
    let out = copy_signal(&signal);
    let ghost before = bus.event_log@;
    let ghost next = bus.next_cursor;
    proof {
        lemma_cursor_roundtrip(next);
    }
    bus.remember_runtime_signal(signal);
    proof {
        let all = before.push(signal);
        assert(all.last() == signal);
        if all.len() <= RUNTIME_EVENT_LOG_LIMIT {
            assert(bus.event_log@ == all);
        } else {
            assert(bus.event_log@ == all.subrange(all.len() - RUNTIME_EVENT_LOG_LIMIT, all.len() as int));
        }
        assert(bus.event_log@.last() == signal);
        if cursors_ordered(before, (next - 1) as u64) {
            assert(cursors_ordered(all, next)) by {
                assert forall|i: int, j: int| 0 <= i < j < all.len() implies signal_cursor(
                    #[trigger] all[i],
                ) < signal_cursor(#[trigger] all[j]) by {
                    if j == all.len() - 1 {
                        assert(all[i] == before[i]);
                    } else {
                        assert(all[i] == before[i] && all[j] == before[j]);
                    }
                }
                assert forall|i: int| 0 <= i < all.len() implies signal_cursor(#[trigger] all[i])
                    <= next by {
                    if i < before.len() {
                        assert(all[i] == before[i]);
                    }
                }
            }
            let kept = bus.event_log@;
            if all.len() > RUNTIME_EVENT_LOG_LIMIT {
                let off = all.len() - RUNTIME_EVENT_LOG_LIMIT;
                assert forall|i: int, j: int| 0 <= i < j < kept.len() implies signal_cursor(
                    #[trigger] kept[i],
                ) < signal_cursor(#[trigger] kept[j]) by {
                    assert(kept[i] == all[i + off] && kept[j] == all[j + off]);
                }
                assert forall|i: int| 0 <= i < kept.len() implies signal_cursor(#[trigger] kept[i])
                    <= next by {
                    assert(kept[i] == all[i + off]);
                }
            }
        }
    }
    out
}

/// Whether replay hands a signal out: it comes after the cursor (every
/// signal when there is none), it is operator-safe, and it is not meant for
/// external adapters.
pub open spec fn replay_keeps(s: RuntimeSignalView, after: Option<u64>) -> bool {
    &&& match after {
        Some(c) => signal_cursor(s) > c,
        None => true,
    }
    &&& s.envelope.redaction_class@ == "operator_safe"@
    &&& s.envelope.audience@ != "external_adapter"@
}

/// The signals replay hands out, in log order.
pub open spec fn replayed(log: Seq<RuntimeSignalView>, after: Option<u64>) -> Seq<RuntimeSignalView>
    decreases log.len(),
{
    if log.len() == 0 {
        Seq::empty()
    } else if replay_keeps(log.last(), after) {
        replayed(log.drop_last(), after).push(log.last())
    } else {
        replayed(log.drop_last(), after)
    }
}

/// Most signals one replay hands out.
pub const MAX_REPLAY_SIGNALS: usize = 500;

/// Signals one replay hands out when the caller names no limit.
pub const DEFAULT_REPLAY_SIGNALS: usize = 200;

/// The number of signals a replay hands out at most: the requested limit
/// (`DEFAULT_REPLAY_SIGNALS` when none) clamped to 1..=`MAX_REPLAY_SIGNALS`.
pub open spec fn replay_limit(limit: Option<usize>) -> int {
    let l = match limit {
        Some(n) => n as int,
        None => DEFAULT_REPLAY_SIGNALS as int,
    };
    if l < 1 {
        1
    } else if l > MAX_REPLAY_SIGNALS {
        MAX_REPLAY_SIGNALS as int
    } else {
        l
    }
}

/// The signals replayed after `cursor`: those `replayed` keeps, the first
/// `replay_limit(limit)` of them.
pub fn replay_signals(log: &Vec<RuntimeSignalView>, cursor: Option<&str>, limit: Option<usize>) -> (r:
    Vec<RuntimeSignalView>)
    ensures
        ({
            let after = cursor_number(
                match cursor {
                    Some(c) => Some(c@),
                    None => None,
                },
            );
            let want = replayed(log@, after);
            let n = if want.len() < replay_limit(limit) {
                want.len() as int
            } else {
                replay_limit(limit)
            };
            &&& r@.len() == n
            &&& forall|i: int| 0 <= i < n ==> same_signal(#[trigger] r@[i], want[i])
        }),
{
    let after = parse_runtime_cursor(cursor);
    let cap: usize = match limit {
        Some(n) => if n < 1 {
            1
        } else if n > MAX_REPLAY_SIGNALS {
            MAX_REPLAY_SIGNALS
        } else {
            n
        },
        None => DEFAULT_REPLAY_SIGNALS,
    };
    let ghost want = replayed(log@, after);
    let mut out: Vec<RuntimeSignalView> = Vec::new();
    let mut i: usize = 0;
    while i < log.len() && out.len() < cap
        invariant
            i <= log@.len(),
            cap == replay_limit(limit),
            out@.len() <= cap,
            out@.len() == replayed(log@.take(i as int), after).len(),
            forall|k: int| 0 <= k < out@.len() ==> same_signal(#[trigger] out@[k], replayed(log@.take(i as int), after)[k]),
            want == replayed(log@, after),
        decreases log.len() - i,
    {
        let s = &log[i];
        let cursor_n: u64 = match parse_runtime_cursor(Some(s.envelope.cursor.as_str())) {
            Some(n) => n,
            None => 0,
        };
        let after_ok = match after {
            Some(c) => cursor_n > c,
            None => true,
        };
        let keep = after_ok && str_equals(s.envelope.redaction_class.as_str(), "operator_safe")
            && !str_equals(s.envelope.audience.as_str(), "external_adapter");
        proof {
            assert(log@.take(i + 1).drop_last() =~= log@.take(i as int));
            assert(log@.take(i + 1).last() == log@[i as int]);
            assert(keep == replay_keeps(log@[i as int], after));
        }
        if keep {
            let c = copy_signal(s);
            out.push(c);
        }
        i = i + 1;
    }
    proof {
        lemma_replayed_prefix(log@, i as int, after);
        if i == log.len() {
            assert(log@.take(i as int) =~= log@);
        }
        let n = if want.len() < replay_limit(limit) {
            want.len() as int
        } else {
            replay_limit(limit)
        };
        assert(out@.len() == n);
        assert forall|k: int| 0 <= k < n implies same_signal(#[trigger] out@[k], want[k]) by {
            assert(replayed(log@.take(i as int), after)[k] == want[k]);
        }
    }
    out
}

/// Replaying a prefix of the log gives a prefix of the full replay.
pub proof fn lemma_replayed_prefix(log: Seq<RuntimeSignalView>, i: int, after: Option<u64>)
    requires
        0 <= i <= log.len(),
    ensures
        replayed(log.take(i), after).len() <= replayed(log, after).len(),
        forall|k: int|
            0 <= k < replayed(log.take(i), after).len() ==> #[trigger] replayed(log.take(i), after)[k]
                == replayed(log, after)[k],
    decreases log.len() - i,
{
    if i == log.len() {
        assert(log.take(i) =~= log);
    } else {
        lemma_replayed_prefix(log, i + 1, after);
        assert(log.take(i + 1).drop_last() =~= log.take(i));
        assert(log.take(i + 1).last() == log[i]);
        let short = replayed(log.take(i), after);
        let long = replayed(log.take(i + 1), after);
        assert forall|k: int| 0 <= k < short.len() implies #[trigger] short[k] == long[k] by {}
    }
}

/// Replay gives back a published signal: replaying from the cursor that
/// came before it hands out exactly that signal, when it is operator-safe
/// and not meant for external adapters.
pub proof fn lemma_replay_returns_published(log: Seq<RuntimeSignalView>, next_cursor: u64)
    requires
        log.len() > 0,
        cursors_ordered(log, next_cursor),
        signal_cursor(log.last()) == next_cursor,
        next_cursor > 0,
        log.last().envelope.redaction_class@ == "operator_safe"@,
        log.last().envelope.audience@ != "external_adapter"@,
    ensures
        replayed(log, Some((next_cursor - 1) as u64)) == seq![log.last()],
{
    let after = Some((next_cursor - 1) as u64);
    lemma_none_replayed(log.drop_last(), after, next_cursor);
    assert(replay_keeps(log.last(), after));
}

proof fn lemma_none_replayed(log: Seq<RuntimeSignalView>, after: Option<u64>, next_cursor: u64)
    requires
        after == Some((next_cursor - 1) as u64),
        next_cursor > 0,
        forall|i: int| 0 <= i < log.len() ==> signal_cursor(#[trigger] log[i]) < next_cursor,
    ensures
        replayed(log, after) == Seq::<RuntimeSignalView>::empty(),
    decreases log.len(),
{
    if log.len() > 0 {
        assert(signal_cursor(log[log.len() - 1]) < next_cursor);
        lemma_none_replayed(log.drop_last(), after, next_cursor);
    }
}

} // verus!
