//! The worker protocol: what a worker run reports back, and how legacy or
//! partial worker output is brought to the current protocol.

use vstd::prelude::*;
use crate::json::{
    JsonView, view_field, json_empty_array, json_empty_object, json_has_key, json_is_object,
    json_object_insert, json_string_value, json_u64_value, json_view,
};
use crate::text::nat_text;

verus! {

/// Protocol version stamped on normalized worker output.
pub const WORKER_PROTOCOL_V1: &'static str = "worker-protocol-v1";

/// A file a worker run produced.
pub struct WorkerArtifact {
    pub filename: String,
    pub absolute_path: String,
}

/// Counts of the side effects a worker run requested.
pub struct WorkerSideEffectsReport {
    pub managed_work_count: usize,
    pub artifact_count: usize,
    pub innovation_count: usize,
    pub hire_request_count: usize,
    pub dispatch_count: usize,
}

/// A worker's report in the current protocol.
pub struct WorkerProtocolV1 {
    pub protocol_version: String,
    pub mode: String,
    pub agent_id: String,
    pub status: String,
    pub triage: Option<serde_json::Value>,
    pub synthesis: Option<serde_json::Value>,
    pub reply: Option<String>,
    pub formatted_swo: Option<String>,
    pub ideation_summary: Option<String>,
    pub blocked_reason: Option<String>,
    pub error: Option<String>,
    pub artifacts: Vec<WorkerArtifact>,
    pub side_effects: WorkerSideEffectsReport,
}

impl WorkerSideEffectsReport {
    pub fn new() -> (r: Self)
        ensures
            r.managed_work_count == 0,
            r.artifact_count == 0,
            r.innovation_count == 0,
            r.hire_request_count == 0,
            r.dispatch_count == 0,
    {
        WorkerSideEffectsReport {
            managed_work_count: 0,
            artifact_count: 0,
            innovation_count: 0,
            hire_request_count: 0,
            dispatch_count: 0,
        }
    }
}

/// JSON form of a side-effects report with every count at zero.
pub open spec fn empty_side_effects_view() -> JsonView {
    JsonView::Object(
        Map::<Seq<char>, JsonView>::empty().insert(
            "managed_work_count"@,
            JsonView::Number(nat_text(0)),
        ).insert("artifact_count"@, JsonView::Number(nat_text(0))).insert(
            "innovation_count"@,
            JsonView::Number(nat_text(0)),
        ).insert("hire_request_count"@, JsonView::Number(nat_text(0))).insert(
            "dispatch_count"@,
            JsonView::Number(nat_text(0)),
        ),
    )
}

/// `m` with `key` set to `value` unless it is already present.
pub open spec fn with_default(
    m: Map<Seq<char>, JsonView>,
    key: Seq<char>,
    value: JsonView,
) -> Map<Seq<char>, JsonView> {
    if m.contains_key(key) {
        m
    } else {
        m.insert(key, value)
    }
}

/// An object's fields after the protocol defaults are filled in.
pub open spec fn with_protocol_defaults(
    m: Map<Seq<char>, JsonView>,
    mode: Seq<char>,
    agent_id: Seq<char>,
) -> Map<Seq<char>, JsonView> {
    let m1 = with_default(m, "protocol_version"@, JsonView::Str("worker-protocol-v1"@));
    let m2 = with_default(m1, "mode"@, JsonView::Str(mode));
    let m3 = with_default(m2, "agent_id"@, JsonView::Str(agent_id));
    let m4 = with_default(m3, "status"@, JsonView::Str("COMPLETED"@));
    let m5 = with_default(m4, "artifacts"@, JsonView::Array(Seq::empty()));
    with_default(m5, "side_effects"@, empty_side_effects_view())
}

/// Worker output brought to the current protocol: defaults filled in, and
/// an error without a blocked reason marks the run `FAILED`.  Output that is
/// not a JSON object becomes a failed report.
pub open spec fn normalized_output(mode: Seq<char>, agent_id: Seq<char>, v: JsonView) -> JsonView {
    match v {
        JsonView::Object(m) => {
            let filled = with_protocol_defaults(m, mode, agent_id);
            if filled.contains_key("error"@) && !filled.contains_key("blocked_reason"@) {
                JsonView::Object(filled.insert("status"@, JsonView::Str("FAILED"@)))
            } else {
                JsonView::Object(filled)
            }
        },
        _ => JsonView::Object(
            Map::<Seq<char>, JsonView>::empty().insert(
                "protocol_version"@,
                JsonView::Str("worker-protocol-v1"@),
            ).insert("mode"@, JsonView::Str(mode)).insert(
                "agent_id"@,
                JsonView::Str(agent_id),
            ).insert("status"@, JsonView::Str("FAILED"@)).insert(
                "error"@,
                JsonView::Str("Worker returned non-object JSON"@),
            ).insert("artifacts"@, JsonView::Array(Seq::empty())).insert(
                "side_effects"@,
                empty_side_effects_view(),
            ),
        ),
    }
}

fn empty_side_effects_json() -> (r: serde_json::Value)
    ensures
        json_view(r) == empty_side_effects_view(),
{
    let mut v = json_empty_object();
    json_object_insert(&mut v, "managed_work_count", json_u64_value(0));
    json_object_insert(&mut v, "artifact_count", json_u64_value(0));
    json_object_insert(&mut v, "innovation_count", json_u64_value(0));
    json_object_insert(&mut v, "hire_request_count", json_u64_value(0));
    json_object_insert(&mut v, "dispatch_count", json_u64_value(0));
    v
}

fn insert_default(v: &mut serde_json::Value, key: &str, value: serde_json::Value)
    requires
        json_view(*old(v)) is Object,
    ensures
        json_view(*final(v)) == JsonView::Object(
            with_default(json_view(*old(v))->Object_0, key@, json_view(value)),
        ),
{
    if !json_has_key(v, key) {
        json_object_insert(v, key, value);
    }
}

/// Brings worker output to the current protocol.
pub fn normalize_worker_output(mode: &str, agent_id: &str, parsed: serde_json::Value) -> (r:
    serde_json::Value)
    ensures
        json_view(r) == normalized_output(mode@, agent_id@, json_view(parsed)),
{
    let mut parsed = parsed;
    if !json_is_object(&parsed) {
        let mut out = json_empty_object();
        json_object_insert(&mut out, "protocol_version", json_string_value(WORKER_PROTOCOL_V1));
        json_object_insert(&mut out, "mode", json_string_value(mode));
        json_object_insert(&mut out, "agent_id", json_string_value(agent_id));
        json_object_insert(&mut out, "status", json_string_value("FAILED"));
        json_object_insert(
            &mut out,
            "error",
            json_string_value("Worker returned non-object JSON"),
        );
        json_object_insert(&mut out, "artifacts", json_empty_array());
        json_object_insert(&mut out, "side_effects", empty_side_effects_json());
        return out;
    }
    insert_default(&mut parsed, "protocol_version", json_string_value(WORKER_PROTOCOL_V1));
    insert_default(&mut parsed, "mode", json_string_value(mode));
    insert_default(&mut parsed, "agent_id", json_string_value(agent_id));
    insert_default(&mut parsed, "status", json_string_value("COMPLETED"));
    insert_default(&mut parsed, "artifacts", json_empty_array());
    insert_default(&mut parsed, "side_effects", empty_side_effects_json());
    if json_has_key(&parsed, "error") && !json_has_key(&parsed, "blocked_reason") {
        json_object_insert(&mut parsed, "status", json_string_value("FAILED"));
    }
    parsed
}

/// Normalizing worker output a second time changes nothing.
pub proof fn lemma_normalize_idempotent(mode: Seq<char>, agent_id: Seq<char>, v: JsonView)
    ensures
        normalized_output(mode, agent_id, normalized_output(mode, agent_id, v))
            == normalized_output(mode, agent_id, v),
{
    reveal_strlit("status");
    reveal_strlit("error");
    reveal_strlit("blocked_reason");
    reveal_strlit("protocol_version");
    reveal_strlit("mode");
    reveal_strlit("agent_id");
    reveal_strlit("artifacts");
    reveal_strlit("side_effects");
    assert("status"@ != "error"@) by { assert("status"@[0] != "error"@[0]); }
    assert("status"@ != "blocked_reason"@) by { assert("status"@[0] != "blocked_reason"@[0]); }
    assert("error"@ != "blocked_reason"@) by { assert("error"@[0] != "blocked_reason"@[0]); }
    assert("protocol_version"@ != "blocked_reason"@) by {
        assert("protocol_version"@[0] != "blocked_reason"@[0]);
    }
    assert("mode"@ != "blocked_reason"@) by { assert("mode"@[0] != "blocked_reason"@[0]); }
    assert("agent_id"@ != "blocked_reason"@) by { assert("agent_id"@[0] != "blocked_reason"@[0]); }
    assert("artifacts"@ != "blocked_reason"@) by {
        assert("artifacts"@.len() != "blocked_reason"@.len());
    }
    assert("side_effects"@ != "blocked_reason"@) by {
        assert("side_effects"@[0] != "blocked_reason"@[0]);
    }
    let once = normalized_output(mode, agent_id, v);
    let f1 = once->Object_0;
    assert(f1.contains_key("protocol_version"@) && f1.contains_key("mode"@) && f1.contains_key(
        "agent_id"@,
    ) && f1.contains_key("status"@) && f1.contains_key("artifacts"@) && f1.contains_key(
        "side_effects"@,
    ));
    assert(with_protocol_defaults(f1, mode, agent_id) == f1);
    match v {
        JsonView::Object(m) => {
            let filled = with_protocol_defaults(m, mode, agent_id);
            assert(f1.contains_key("error"@) == filled.contains_key("error"@));
            assert(f1.contains_key("blocked_reason"@) == filled.contains_key("blocked_reason"@));
            if filled.contains_key("error"@) && !filled.contains_key("blocked_reason"@) {
                assert(f1.insert("status"@, JsonView::Str("FAILED"@)) =~= f1);
            }
        },
        _ => {
            assert(f1.contains_key("error"@));
            assert(!f1.contains_key("blocked_reason"@));
            assert("status"@ != "artifacts"@) by { assert("status"@[0] != "artifacts"@[0]); }
            assert("status"@ != "side_effects"@) by {
                assert("status"@.len() != "side_effects"@.len());
            }
            assert(f1["status"@] == JsonView::Str("FAILED"@));
            assert(f1.insert("status"@, JsonView::Str("FAILED"@)) =~= f1);
        },
    }
}

/// Normalized output always carries every protocol field.
pub proof fn lemma_normalized_has_protocol_fields(mode: Seq<char>, agent_id: Seq<char>, v: JsonView)
    ensures
        normalized_output(mode, agent_id, v) matches JsonView::Object(m) && m.contains_key(
            "protocol_version"@,
        ) && m.contains_key("mode"@) && m.contains_key("agent_id"@) && m.contains_key(
            "status"@,
        ) && m.contains_key("artifacts"@) && m.contains_key("side_effects"@),
{
}


/// A worker that reports an error without a blocked reason has failed: the
/// normalized status is `FAILED`, whatever status the worker gave.  Without
/// an error, a status the worker gave is kept, and every field the worker
/// gave other than the status comes through unchanged.
pub proof fn lemma_error_marks_run_failed(
    mode: Seq<char>,
    agent_id: Seq<char>,
    m: Map<Seq<char>, JsonView>,
    key: Seq<char>,
)
    ensures
        m.contains_key("error"@) && !m.contains_key("blocked_reason"@) ==> view_field(
            normalized_output(mode, agent_id, JsonView::Object(m)),
            "status"@,
        ) == JsonView::Str("FAILED"@),
        !m.contains_key("error"@) && m.contains_key("status"@) ==> view_field(
            normalized_output(mode, agent_id, JsonView::Object(m)),
            "status"@,
        ) == m["status"@],
        m.contains_key(key) && key != "status"@ ==> view_field(
            normalized_output(mode, agent_id, JsonView::Object(m)),
            key,
        ) == m[key],
{
    reveal_strlit("status");
    reveal_strlit("error");
    reveal_strlit("blocked_reason");
    reveal_strlit("protocol_version");
    reveal_strlit("mode");
    reveal_strlit("agent_id");
    reveal_strlit("artifacts");
    reveal_strlit("side_effects");
    assert("status"@ != "error"@) by { assert("status"@[0] != "error"@[0]); }
    assert("error"@ != "protocol_version"@) by { assert("error"@[0] != "protocol_version"@[0]); }
    assert("error"@ != "mode"@) by { assert("error"@[0] != "mode"@[0]); }
    assert("error"@ != "agent_id"@) by { assert("error"@[0] != "agent_id"@[0]); }
    assert("error"@ != "artifacts"@) by { assert("error"@[0] != "artifacts"@[0]); }
    assert("error"@ != "side_effects"@) by { assert("error"@[0] != "side_effects"@[0]); }
    assert("status"@ != "blocked_reason"@) by { assert("status"@[0] != "blocked_reason"@[0]); }
    assert("protocol_version"@ != "blocked_reason"@) by {
        assert("protocol_version"@[0] != "blocked_reason"@[0]);
    }
    assert("mode"@ != "blocked_reason"@) by { assert("mode"@[0] != "blocked_reason"@[0]); }
    assert("agent_id"@ != "blocked_reason"@) by { assert("agent_id"@[0] != "blocked_reason"@[0]); }
    assert("artifacts"@ != "blocked_reason"@) by {
        assert("artifacts"@.len() != "blocked_reason"@.len());
    }
    assert("side_effects"@ != "blocked_reason"@) by {
        assert("side_effects"@[0] != "blocked_reason"@[0]);
    }
    let filled = with_protocol_defaults(m, mode, agent_id);
    if m.contains_key("error"@) && !m.contains_key("blocked_reason"@) {
        assert(filled.contains_key("error"@) && !filled.contains_key("blocked_reason"@));
    }
}

} // verus!
