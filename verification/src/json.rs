//! JSON values handled through `serde_json`, and the text it produces.

use vstd::prelude::*;

verus! {

/// Contents of a JSON value: numbers are kept as their JSON text.
pub enum JsonView {
    Null,
    Bool(bool),
    Number(Seq<char>),
    Str(Seq<char>),
    Array(Seq<JsonView>),
    Object(Map<Seq<char>, JsonView>),
}

#[verifier::external_type_specification]
#[verifier::external_body]
pub struct ExJsonValue(serde_json::Value);

/// The member `key` of an object, or `Null` when the value is not an
/// object or has no such member: what indexing a value by a key gives.
pub open spec fn view_field(v: JsonView, key: Seq<char>) -> JsonView {
    match v {
        JsonView::Object(m) => if m.contains_key(key) {
            m[key]
        } else {
            JsonView::Null
        },
        _ => JsonView::Null,
    }
}

/// The text of a string value.
pub open spec fn view_str(v: JsonView) -> Option<Seq<char>> {
    match v {
        JsonView::Str(s) => Some(s),
        _ => None,
    }
}

/// Contents of a `serde_json::Value`.
pub uninterp spec fn json_view(v: serde_json::Value) -> JsonView;

/// What `serde_json::from_str::<Value>` makes of a text: the contents of the
/// value it parses, or none when the text is not one JSON value.
pub uninterp spec fn json_parse_result(text: Seq<char>) -> Option<JsonView>;

/// Wrapper of `serde_json::from_str::<Value>`, its error dropped.  The JSON
/// grammar it applies is serde_json's and is not restated.
#[verifier::external_body]
pub(crate) fn json_parse(text: &str) -> (r: Option<serde_json::Value>)
    ensures
        match json_parse_result(text@) {
            Some(j) => r matches Some(v) && json_view(v) == j,
            None => r is None,
        },
{
    serde_json::from_str::<serde_json::Value>(text).ok()
}

/// An object value that has the member `key`.
pub open spec fn has_member(v: JsonView, key: Seq<char>) -> bool {
    v matches JsonView::Object(m) && m.contains_key(key)
}

/// `entries` lists the members of `m` once each, keys strictly increasing.
pub open spec fn entries_of(entries: Seq<(String, serde_json::Value)>, m: Map<Seq<char>, JsonView>) -> bool {
    &&& crate::text::strictly_sorted(entries.map_values(|e: (String, serde_json::Value)| e.0@))
    &&& forall|k: Seq<char>| #[trigger] m.contains_key(k) <==> exists|i: int|
        0 <= i < entries.len() && #[trigger] entries[i].0@ == k
    &&& forall|i: int| 0 <= i < entries.len() ==> m[#[trigger] entries[i].0@] == json_view(entries[i].1)
}

/// Wrapper of walking an object's map (`as_object`, then its iterator): the
/// members in the order serde_json's default map, a `BTreeMap`, keeps
/// them, which is by increasing key.  None for a value that is not an object.
#[verifier::external_body]
pub(crate) fn json_object_entries(v: &serde_json::Value) -> (r: Option<Vec<(String, serde_json::Value)>>)
    ensures
        match json_view(*v) {
            JsonView::Object(m) => r matches Some(es) && entries_of(es@, m),
            _ => r is None,
        },
{
    match v.as_object() {
        Some(map) => {
            let mut out = Vec::new();
            for (k, x) in map {
                out.push((k.clone(), x.clone()));
            }
            Some(out)
        },
        None => None,
    }
}

/// Wrapper of `Value::as_array`, its items cloned: none for a value that is
/// not an array.
#[verifier::external_body]
pub(crate) fn json_array_items(v: &serde_json::Value) -> (r: Option<Vec<serde_json::Value>>)
    ensures
        match json_view(*v) {
            JsonView::Array(items) => r matches Some(xs) && xs@.len() == items.len() && forall|i: int|
                0 <= i < items.len() ==> json_view(#[trigger] xs@[i]) == items[i],
            _ => r is None,
        },
{
    v.as_array().map(|a| a.clone())
}

/// Wrapper of `Value::as_i64`: the value of an integer number that fits in
/// an `i64`.
#[verifier::external_body]
pub(crate) fn json_as_i64(v: &serde_json::Value) -> (r: Option<i64>)
    ensures
        match r {
            Some(n) => json_view(*v) == JsonView::Number(crate::text::int_text(n as int)),
            None => forall|n: i64| json_view(*v) != JsonView::Number(crate::text::int_text(n as int)),
        },
{
    v.as_i64()
}

/// Wrapper of `Value::is_number`.
#[verifier::external_body]
pub(crate) fn json_is_number(v: &serde_json::Value) -> (r: bool)
    ensures
        r == (json_view(*v) is Number),
{
    v.is_number()
}

/// Wrapper of `Value::is_object`.
#[verifier::external_body]
pub(crate) fn json_is_object(v: &serde_json::Value) -> (r: bool)
    ensures
        r == (json_view(*v) is Object),
{
    v.is_object()
}

/// Wrapper of `Value::get` with a key: whether `v` is an object holding `key`.
#[verifier::external_body]
pub(crate) fn json_has_key(v: &serde_json::Value, key: &str) -> (r: bool)
    ensures
        r == (json_view(*v) matches JsonView::Object(m) && m.contains_key(key@)),
{
    v.get(key).is_some()
}

/// Wrapper of `Map::insert` on the map of an object value: sets `key` to
/// `value`; a value that is not an object is left as it is.
#[verifier::external_body]
pub(crate) fn json_object_insert(v: &mut serde_json::Value, key: &str, value: serde_json::Value)
    ensures
        match json_view(*old(v)) {
            JsonView::Object(m) => json_view(*final(v)) == JsonView::Object(
                m.insert(key@, json_view(value)),
            ),
            _ => json_view(*final(v)) == json_view(*old(v)),
        },
{
    if let Some(map) = v.as_object_mut() {
        map.insert(key.to_owned(), value);
    }
}

/// Wrapper of indexing a `Value` by a string key (`v[key]`), cloned.
#[verifier::external_body]
pub(crate) fn json_field(v: &serde_json::Value, key: &str) -> (r: serde_json::Value)
    ensures
        json_view(r) == view_field(json_view(*v), key@),
{
    v[key].clone()
}

/// Wrapper of `Value::clone`: a value with the same contents.
#[verifier::external_body]
pub(crate) fn json_clone(v: &serde_json::Value) -> (r: serde_json::Value)
    ensures
        json_view(r) == json_view(*v),
{
    v.clone()
}

/// Wrapper of `Value::as_bool`: the value of a boolean.
#[verifier::external_body]
pub(crate) fn json_as_bool(v: &serde_json::Value) -> (r: Option<bool>)
    ensures
        match json_view(*v) {
            JsonView::Bool(b) => r == Some(b),
            _ => r is None,
        },
{
    v.as_bool()
}

/// Wrapper of `Value::as_str`: the text of a string value.
#[verifier::external_body]
pub(crate) fn json_as_str(v: &serde_json::Value) -> (r: Option<String>)
    ensures
        match view_str(json_view(*v)) {
            Some(s) => r matches Some(t) && t@ == s,
            None => r is None,
        },
{
    v.as_str().map(|s| s.to_string())
}

/// A JSON string value (`Value::String`).
#[verifier::external_body]
pub(crate) fn json_string_value(s: &str) -> (r: serde_json::Value)
    ensures
        json_view(r) == JsonView::Str(s@),
{
    serde_json::Value::String(s.to_owned())
}

/// JSON `null` (`Value::Null`).
#[verifier::external_body]
pub(crate) fn json_null() -> (r: serde_json::Value)
    ensures
        json_view(r) == JsonView::Null,
{
    serde_json::Value::Null
}

/// A JSON array holding one value (`Value::Array`).
#[verifier::external_body]
pub(crate) fn json_array_of_one(item: serde_json::Value) -> (r: serde_json::Value)
    ensures
        json_view(r) == JsonView::Array(seq![json_view(item)]),
{
    serde_json::Value::Array(vec![item])
}

/// An empty JSON array (`Value::Array`).
#[verifier::external_body]
pub(crate) fn json_empty_array() -> (r: serde_json::Value)
    ensures
        json_view(r) == JsonView::Array(Seq::empty()),
{
    serde_json::Value::Array(Vec::new())
}

/// An empty JSON object (`Value::Object` with `Map::new`).
#[verifier::external_body]
pub(crate) fn json_empty_object() -> (r: serde_json::Value)
    ensures
        json_view(r) == JsonView::Object(Map::empty()),
{
    serde_json::Value::Object(serde_json::Map::new())
}

/// A JSON number from an unsigned integer (`Value::from`), which prints in decimal.
#[verifier::external_body]
pub(crate) fn json_u64_value(n: u64) -> (r: serde_json::Value)
    ensures
        json_view(r) == JsonView::Number(crate::text::nat_text(n as nat)),
{
    serde_json::Value::from(n)
}

/// The compact JSON text that `serde_json` writes for a value.  Object keys
/// come out in sorted order (the map is a `BTreeMap`), so the text is a
/// function of the contents.
pub uninterp spec fn json_compact_text(v: JsonView) -> Seq<char>;

/// A JSON number from a signed integer (`Value::from`), which prints in decimal.
#[verifier::external_body]
pub(crate) fn json_i64_value(n: i64) -> (r: serde_json::Value)
    ensures
        json_view(r) == JsonView::Number(crate::text::int_text(n as int)),
{
    serde_json::Value::from(n)
}

/// Wrapper of `Value`'s `Display` (`to_string`): the compact JSON text of a
/// value.  The text itself is serde_json's and is not restated.
#[verifier::external_body]
pub(crate) fn json_text(v: &serde_json::Value) -> (r: String)
    ensures
        r@ == json_compact_text(json_view(*v)),
{
    v.to_string()
}

} // verus!
