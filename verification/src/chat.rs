//! The operator chat: turning a worker's answer into the reply shown to the
//! operator, and the rule-based fallback when no model can be reached.

use vstd::prelude::*;
use crate::error::KernelError;
use crate::json::{
    JsonView, entries_of, json_array_items, json_as_i64, json_as_str, json_compact_text,
    json_empty_array, json_empty_object, json_field, json_is_number, json_is_object,
    json_object_entries, json_object_insert, json_parse, json_parse_result, json_string_value,
    json_text, json_u64_value, json_view, view_field, view_str,
};
use crate::manifest::ProviderProtocolFamily;
use crate::orchestrator::{Orchestrator, SairgentChatResult, SairgentToolProposal};
use crate::sairgent::{SairgentRuntimeSnapshot, drafted_action, reply_sections};
use crate::text::{
    chars_of, int_text, i64_text, join, join_strings, nat_text, lemma_strictly_sorted_unique, lines_of, owned, replace_all,
    replaced, str_equals, strictly_sorted, string_of, text_lines, trim, trim_start, trim_str,
};

verus! {

/// The keys of a map in increasing order.
pub open spec fn sorted_keys(m: Map<Seq<char>, JsonView>) -> Seq<Seq<char>> {
    choose|ks: Seq<Seq<char>>|
        strictly_sorted(ks) && forall|k: Seq<char>| ks.contains(k) <==> m.contains_key(k)
}

/// A key as a label: underscores become spaces.
pub open spec fn label_of(key: Seq<char>) -> Seq<char> {
    replaced(key, "_"@, " "@)
}

/// A value as reply text: a string's own text, anything else its JSON text.
pub open spec fn value_text(v: JsonView) -> Seq<char> {
    match v {
        JsonView::Str(s) => s,
        _ => json_compact_text(v),
    }
}

/// Header lines for the non-empty string and the number members, in key order.
pub open spec fn scalar_lines(ks: Seq<Seq<char>>, m: Map<Seq<char>, JsonView>) -> Seq<Seq<char>>
    decreases ks.len(),
{
    if ks.len() == 0 {
        Seq::empty()
    } else {
        let k = ks.last();
        scalar_lines(ks.drop_last(), m) + match m[k] {
            JsonView::Str(s) => if s.len() > 0 {
                seq!["**"@ + label_of(k) + ":** "@ + s]
            } else {
                Seq::empty()
            },
            JsonView::Number(_) => seq!["**"@ + label_of(k) + ":** "@ + json_compact_text(m[k])],
            _ => Seq::empty(),
        }
    }
}

/// Bullet lines for the members of an inner object, in key order.
pub open spec fn member_lines(ks: Seq<Seq<char>>, inner: Map<Seq<char>, JsonView>) -> Seq<
    Seq<char>,
>
    decreases ks.len(),
{
    if ks.len() == 0 {
        Seq::empty()
    } else {
        member_lines(ks.drop_last(), inner) + seq![
            "- "@ + label_of(ks.last()) + ": "@ + value_text(inner[ks.last()]),
        ]
    }
}

/// A header and bullet list for each object member, in key order.
pub open spec fn object_lines(ks: Seq<Seq<char>>, m: Map<Seq<char>, JsonView>) -> Seq<Seq<char>>
    decreases ks.len(),
{
    if ks.len() == 0 {
        Seq::empty()
    } else {
        let k = ks.last();
        object_lines(ks.drop_last(), m) + match m[k] {
            JsonView::Object(inner) => seq!["**"@ + label_of(k) + ":**"@] + member_lines(
                sorted_keys(inner),
                inner,
            ),
            _ => Seq::empty(),
        }
    }
}

/// Bullet lines for the items of an array.
pub open spec fn item_lines(items: Seq<JsonView>) -> Seq<Seq<char>>
    decreases items.len(),
{
    if items.len() == 0 {
        Seq::empty()
    } else {
        item_lines(items.drop_last()) + seq!["- "@ + value_text(items.last())]
    }
}

/// A header and bullet list for each non-empty array member, in key order.
pub open spec fn array_lines(ks: Seq<Seq<char>>, m: Map<Seq<char>, JsonView>) -> Seq<Seq<char>>
    decreases ks.len(),
{
    if ks.len() == 0 {
        Seq::empty()
    } else {
        let k = ks.last();
        array_lines(ks.drop_last(), m) + match m[k] {
            JsonView::Array(items) => if items.len() > 0 {
                seq!["**"@ + label_of(k) + ":**"@] + item_lines(items)
            } else {
                Seq::empty()
            },
            _ => Seq::empty(),
        }
    }
}

/// Readable text for a JSON object reply: its scalar members, then its
/// object members, then its array members; none when the text is not a JSON
/// object or nothing in it renders.
pub open spec fn json_reply_text(raw: Seq<char>) -> Option<Seq<char>> {
    match json_parse_result(raw) {
        Some(JsonView::Object(m)) => {
            let ks = sorted_keys(m);
            let sections = scalar_lines(ks, m) + object_lines(ks, m) + array_lines(ks, m);
            if sections.len() == 0 {
                None
            } else {
                Some(join(sections, "\n"@))
            }
        },
        _ => None,
    }
}

pub open spec fn entry_keys(es: Seq<(String, serde_json::Value)>) -> Seq<Seq<char>> {
    es.map_values(|e: (String, serde_json::Value)| e.0@)
}

proof fn lemma_entries_sorted_keys(es: Seq<(String, serde_json::Value)>, m: Map<Seq<char>, JsonView>)
    requires
        entries_of(es, m),
    ensures
        sorted_keys(m) == entry_keys(es),
{
    let keys = entry_keys(es);
    assert forall|k: Seq<char>| keys.contains(k) <==> m.contains_key(k) by {
        if keys.contains(k) {
            let i = choose|i: int| 0 <= i < keys.len() && keys[i] == k;
            assert(es[i].0@ == k);
        }
        if m.contains_key(k) {
            let i = choose|i: int| 0 <= i < es.len() && #[trigger] es[i].0@ == k;
            assert(keys[i] == k);
        }
    }
    let ks = sorted_keys(m);
    assert(strictly_sorted(ks) && forall|k: Seq<char>| ks.contains(k) <==> m.contains_key(k));
    lemma_strictly_sorted_unique(ks, keys);
}

fn label(key: &str) -> (r: String)
    ensures
        r@ == label_of(key@),
{
    replace_all(key, "_", " ")
}

fn value_string(v: &serde_json::Value) -> (r: String)
    ensures
        r@ == value_text(json_view(*v)),
{
    match json_as_str(v) {
        Some(s) => s,
        None => json_text(v),
    }
}

fn push_line(sections: &mut Vec<String>, line: String)
    ensures
        final(sections).deep_view() == old(sections).deep_view().push(line@),
{
    let ghost prev = sections.deep_view();
    sections.push(line);
    assert(sections.deep_view() =~= prev.push(line@));
}

fn push_header(sections: &mut Vec<String>, key: &str, rest: &str)
    ensures
        final(sections).deep_view() == old(sections).deep_view().push(
            "**"@ + label_of(key@) + rest@,
        ),
{
    let mut line = owned("**");
    line.append(label(key).as_str());
    line.append(rest);
    proof {
        reveal_strlit("**");
    }
    push_line(sections, line);
}

fn push_members(sections: &mut Vec<String>, inner: &Vec<(String, serde_json::Value)>, Ghost(
    m,
): Ghost<Map<Seq<char>, JsonView>>)
    requires
        entries_of(inner@, m),
    ensures
        final(sections).deep_view() == old(sections).deep_view() + member_lines(
            entry_keys(inner@),
            m,
        ),
{
    let ghost start = sections.deep_view();
    let ghost keys = entry_keys(inner@);
    let mut j: usize = 0;
    assert(keys.take(0) =~= Seq::<Seq<char>>::empty());
    assert(start + member_lines(keys.take(0), m) =~= start);
    while j < inner.len()
        invariant
            j <= inner.len(),
            keys == entry_keys(inner@),
            entries_of(inner@, m),
            sections.deep_view() == start + member_lines(keys.take(j as int), m),
        decreases inner.len() - j,
    {
        let mut line = owned("- ");
        line.append(label(inner[j].0.as_str()).as_str());
        line.append(": ");
        line.append(value_string(&inner[j].1).as_str());
        proof {
            reveal_strlit("- ");
            reveal_strlit(": ");
            assert(keys.take(j + 1).drop_last() =~= keys.take(j as int));
            assert(keys.take(j + 1).last() == inner@[j as int].0@);
            assert(m[inner@[j as int].0@] == json_view(inner@[j as int].1));
        }
        push_line(sections, line);
        proof {
            assert(sections.deep_view() =~= start + member_lines(keys.take(j + 1), m));
        }
        j = j + 1;
    }
    assert(keys.take(inner.len() as int) =~= keys);
}

impl Orchestrator {
    /// Best-effort rendering of a JSON object reply as readable text: a
    /// header line for each non-empty string or number member, then a
    /// header and bullets for each object member, then for each non-empty
    /// array member; none when the text is not a JSON object or nothing in
    /// it renders.
    pub fn render_json_reply_as_text(raw: &str) -> (r: Option<String>)
        ensures
            match json_reply_text(raw@) {
                Some(t) => r matches Some(x) && x@ == t,
                None => r is None,
            },
    {
        let parsed = match json_parse(raw) {
            Some(p) => p,
            None => return None,
        };
        let entries = match json_object_entries(&parsed) {
            Some(e) => e,
            None => return None,
        };
        let ghost m = json_view(parsed)->Object_0;
        let ghost keys = entry_keys(entries@);
        proof {
            lemma_entries_sorted_keys(entries@, m);
            assert(keys.take(0) =~= Seq::<Seq<char>>::empty());
        }
        let mut sections: Vec<String> = Vec::new();
        let mut i: usize = 0;
        while i < entries.len()
            invariant
                i <= entries.len(),
                keys == entry_keys(entries@),
                entries_of(entries@, m),
                sections.deep_view() == scalar_lines(keys.take(i as int), m),
            decreases entries.len() - i,
        {
            let key = entries[i].0.as_str();
            let value = &entries[i].1;
            proof {
                assert(keys.take(i + 1).drop_last() =~= keys.take(i as int));
                assert(keys.take(i + 1).last() == entries@[i as int].0@);
                assert(m[entries@[i as int].0@] == json_view(entries@[i as int].1));
            }
            match json_as_str(value) {
                Some(s) => {
                    if s.unicode_len() > 0 {
                        let mut line = owned("**");
                        line.append(label(key).as_str());
                        line.append(":** ");
                        line.append(s.as_str());
                        proof {
                            reveal_strlit("**");
                            reveal_strlit(":** ");
                        }
                        push_line(&mut sections, line);
                    }
                },
                None => {
                    if json_is_number(value) {
                        let mut line = owned("**");
                        line.append(label(key).as_str());
                        line.append(":** ");
                        line.append(json_text(value).as_str());
                        proof {
                            reveal_strlit("**");
                            reveal_strlit(":** ");
                        }
                        push_line(&mut sections, line);
                    }
                },
            }
            proof {
                assert(sections.deep_view() =~= scalar_lines(keys.take(i + 1), m));
            }
            i = i + 1;
        }
        assert(keys.take(entries.len() as int) =~= keys);
        let ghost after_scalars = sections.deep_view();
        let mut i: usize = 0;
        assert(after_scalars + object_lines(keys.take(0), m) =~= after_scalars);
        while i < entries.len()
            invariant
                i <= entries.len(),
                keys == entry_keys(entries@),
                entries_of(entries@, m),
                sections.deep_view() == after_scalars + object_lines(keys.take(i as int), m),
            decreases entries.len() - i,
        {
            let key = entries[i].0.as_str();
            let value = &entries[i].1;
            proof {
                assert(keys.take(i + 1).drop_last() =~= keys.take(i as int));
                assert(keys.take(i + 1).last() == entries@[i as int].0@);
                assert(m[entries@[i as int].0@] == json_view(entries@[i as int].1));
            }
            let ghost before = sections.deep_view();
            match json_object_entries(value) {
                Some(inner) => {
                    let ghost im = json_view(*value)->Object_0;
                    proof {
                        lemma_entries_sorted_keys(inner@, im);
                        reveal_strlit(":**");
                    }
                    push_header(&mut sections, key, ":**");
                    push_members(&mut sections, &inner, Ghost(im));
                    proof {
                        assert(sections.deep_view() =~= before + (seq![
                            "**"@ + label_of(key@) + ":**"@,
                        ] + member_lines(sorted_keys(im), im)));
                    }
                },
                None => {},
            }
            proof {
                assert(sections.deep_view() =~= after_scalars + object_lines(keys.take(i + 1), m));
            }
            i = i + 1;
        }
        let ghost after_objects = sections.deep_view();
        let mut i: usize = 0;
        assert(after_objects + array_lines(keys.take(0), m) =~= after_objects);
        while i < entries.len()
            invariant
                i <= entries.len(),
                keys == entry_keys(entries@),
                entries_of(entries@, m),
                sections.deep_view() == after_objects + array_lines(keys.take(i as int), m),
            decreases entries.len() - i,
        {
            let key = entries[i].0.as_str();
            let value = &entries[i].1;
            proof {
                assert(keys.take(i + 1).drop_last() =~= keys.take(i as int));
                assert(keys.take(i + 1).last() == entries@[i as int].0@);
                assert(m[entries@[i as int].0@] == json_view(entries@[i as int].1));
            }
            let ghost before = sections.deep_view();
            match json_array_items(value) {
                Some(items) => {
                    if items.len() > 0 {
                        let ghost iv = json_view(*value)->Array_0;
                        proof {
                            reveal_strlit(":**");
                        }
                        push_header(&mut sections, key, ":**");
                        let ghost head = sections.deep_view();
                        let mut j: usize = 0;
                        assert(head + item_lines(iv.take(0)) =~= head);
                        while j < items.len()
                            invariant
                                j <= items.len(),
                                items@.len() == iv.len(),
                                forall|x: int| 0 <= x < iv.len() ==> json_view(#[trigger] items@[x]) == iv[x],
                                sections.deep_view() == head + item_lines(iv.take(j as int)),
                            decreases items.len() - j,
                        {
                            let mut line = owned("- ");
                            line.append(value_string(&items[j]).as_str());
                            proof {
                                reveal_strlit("- ");
                                assert(iv.take(j + 1).drop_last() =~= iv.take(j as int));
                                assert(iv.take(j + 1).last() == iv[j as int]);
                                assert(json_view(items@[j as int]) == iv[j as int]);
                            }
                            push_line(&mut sections, line);
                            proof {
                                assert(sections.deep_view() =~= head + item_lines(iv.take(j + 1)));
                            }
                            j = j + 1;
                        }
                        proof {
                            assert(iv.take(iv.len() as int) =~= iv);
                            assert(sections.deep_view() =~= before + (seq![
                                "**"@ + label_of(key@) + ":**"@,
                            ] + item_lines(iv)));
                        }
                    }
                },
                None => {},
            }
            proof {
                assert(sections.deep_view() =~= after_objects + array_lines(keys.take(i + 1), m));
            }
            i = i + 1;
        }
        proof {
            assert(sections.deep_view() =~= scalar_lines(keys, m) + object_lines(keys, m)
                + array_lines(keys, m));
        }
        if sections.len() == 0 {
            return None;
        }
        Some(join_strings(&sections, "\n"))
    }
}

/// A line without any leading `- ` markers (`trim_start_matches("- ")`).
pub open spec fn dash_stripped(s: Seq<char>) -> Seq<char>
    decreases s.len(),
{
    if s.len() >= 2 && s[0] == '-' && s[1] == ' ' {
        dash_stripped(s.skip(2))
    } else {
        s
    }
}

/// A line that is a raw JSON object, possibly behind `- ` bullets.
pub open spec fn is_json_artifact(line: Seq<char>) -> bool {
    let t = trim(dash_stripped(trim(line)));
    t.len() > 0 && t[0] == '{' && t.last() == '}'
}

/// Index of the last line that is not a JSON artifact.
pub open spec fn last_kept_line(lines: Seq<Seq<char>>) -> Option<int>
    decreases lines.len(),
{
    if lines.len() == 0 {
        None
    } else if !is_json_artifact(lines.last()) {
        Some(lines.len() - 1)
    } else {
        last_kept_line(lines.drop_last())
    }
}

/// A reply without its trailing JSON-artifact lines (all lines are kept
/// when every line is one), lines joined by `\n`.
pub open spec fn stripped_reply(text: Seq<char>) -> Seq<char> {
    let ls = lines_of(text);
    let keep = match last_kept_line(ls) {
        Some(i) => i + 1,
        None => ls.len() as int,
    };
    join(ls.take(keep), "\n"@)
}

fn dash_stripped_exec(v: &Vec<char>) -> (r: Vec<char>)
    ensures
        r@ == dash_stripped(v@),
{
    let mut i: usize = 0;
    assert(v@.skip(0) =~= v@);
    while i < v.len() && i + 1 < v.len() && v[i] == '-' && v[i + 1] == ' '
        invariant
            i <= v.len(),
            dash_stripped(v@) == dash_stripped(v@.skip(i as int)),
        decreases v.len() - i,
    {
        assert(v@.skip(i as int).skip(2) =~= v@.skip(i + 2));
        i = i + 2;
    }
    crate::text::slice_vec(v, i, v.len())
}

fn is_json_artifact_exec(line: &str) -> (r: bool)
    ensures
        r == is_json_artifact(line@),
{
    let v = chars_of(line);
    let t1 = crate::text::trim_chars(&v);
    let d = dash_stripped_exec(&t1);
    let t = crate::text::trim_chars(&d);
    t.len() > 0 && t[0] == '{' && t[t.len() - 1] == '}'
}

/// The first non-empty string among the places a reply may sit.
pub open spec fn nonempty_str(v: JsonView) -> Option<Seq<char>> {
    match view_str(v) {
        Some(s) => if s.len() > 0 {
            Some(s)
        } else {
            None
        },
        None => None,
    }
}

/// The reply a worker's chat result carries: `reply`, then the synthesis's
/// final response, a top-level final response, the triage's direct answer, a
/// top-level direct answer, the blocked reason; a stock text when none is
/// a non-empty string.
pub open spec fn chat_reply_of(r: JsonView) -> Seq<char> {
    let candidates = seq![
        nonempty_str(view_field(r, "reply"@)),
        nonempty_str(view_field(view_field(r, "synthesis"@), "final_response"@)),
        nonempty_str(view_field(r, "final_response"@)),
        nonempty_str(view_field(view_field(r, "triage"@), "direct_answer"@)),
        nonempty_str(view_field(r, "direct_answer"@)),
        nonempty_str(view_field(r, "blocked_reason"@)),
    ];
    first_present(candidates, "I processed your request."@)
}

pub open spec fn first_present(cs: Seq<Option<Seq<char>>>, fallback: Seq<char>) -> Seq<char>
    decreases cs.len(),
{
    if cs.len() == 0 {
        fallback
    } else {
        match cs[0] {
            Some(s) => s,
            None => first_present(cs.drop_first(), fallback),
        }
    }
}

fn nonempty_member(v: &serde_json::Value) -> (r: Option<String>)
    ensures
        match nonempty_str(json_view(*v)) {
            Some(s) => r matches Some(x) && x@ == s,
            None => r is None,
        },
{
    match json_as_str(v) {
        Some(s) => if s.unicode_len() > 0 {
            Some(s)
        } else {
            None
        },
        None => None,
    }
}

/// The reply text shown once JSON replies are rendered and trailing JSON
/// artifacts are stripped.
pub open spec fn cooked_reply(raw: Seq<char>) -> Seq<char> {
    let t = trim_start(raw);
    let cooked = if t.len() > 0 && t[0] == '{' {
        match json_reply_text(raw) {
            Some(x) => x,
            None => raw,
        }
    } else {
        raw
    };
    stripped_reply(cooked)
}

/// What a proposal is apart from its random call id.
pub open spec fn proposal_core(p: SairgentToolProposal) -> (Seq<char>, Seq<char>, Seq<char>, bool) {
    (p.tool_name@, p.summary@, p.arguments_json@, p.requires_confirmation)
}

pub open spec fn cores(ps: Seq<SairgentToolProposal>) -> Seq<(Seq<char>, Seq<char>, Seq<char>, bool)> {
    ps.map_values(|p: SairgentToolProposal| proposal_core(p))
}

/// The proposal a message drafts, as `infer_sairgent_tool_calls` makes it.
pub open spec fn drafted_core(message: Seq<char>, snapshot: &SairgentRuntimeSnapshot) -> Seq<
    (Seq<char>, Seq<char>, Seq<char>, bool),
> {
    match drafted_action(message, snapshot) {
        Some((tool, summary, args)) => seq![(tool, summary, args, true)],
        None => Seq::empty(),
    }
}

/// Proposals appended in order, each only when no proposal for the same
/// tool is there already.
pub open spec fn merged_cores(
    existing: Seq<(Seq<char>, Seq<char>, Seq<char>, bool)>,
    added: Seq<(Seq<char>, Seq<char>, Seq<char>, bool)>,
) -> Seq<(Seq<char>, Seq<char>, Seq<char>, bool)>
    decreases added.len(),
{
    if added.len() == 0 {
        existing
    } else {
        let prev = merged_cores(existing, added.drop_last());
        if exists|i: int| 0 <= i < prev.len() && #[trigger] prev[i].0 == added.last().0 {
            prev
        } else {
            prev.push(added.last())
        }
    }
}

/// Appends the proposals of `added` whose tool has no proposal yet.
pub fn merge_tool_proposals(existing: Vec<SairgentToolProposal>, added: Vec<SairgentToolProposal>) -> (r:
    Vec<SairgentToolProposal>)
    ensures
        cores(r@) == merged_cores(cores(existing@), cores(added@)),
        forall|i: int| 0 <= i < existing@.len() ==> #[trigger] r@[i] == existing@[i],
{
    let ghost all = added@;
    let mut out = existing;
    let mut added = added;
    let mut k: usize = 0;
    assert(all.len() == added.len());
    assert(all.take(0) =~= Seq::<SairgentToolProposal>::empty());
    assert(cores(all.take(0)) =~= Seq::<(Seq<char>, Seq<char>, Seq<char>, bool)>::empty());
    while added.len() > 0
        invariant
            k + added@.len() == all.len(),
            all.len() <= usize::MAX,
            added@ == all.skip(k as int),
            cores(out@) == merged_cores(cores(existing@), cores(all.take(k as int))),
            existing@.len() <= out@.len(),
            forall|i: int| 0 <= i < existing@.len() ==> #[trigger] out@[i] == existing@[i],
        decreases added.len(),
    {
        let p = added.remove(0);
        proof {
            assert(p == all[k as int]);
            assert(added@ =~= all.skip(k + 1));
            assert(all.take(k + 1).drop_last() =~= all.take(k as int));
            assert(cores(all.take(k + 1)) =~= cores(all.take(k as int)).push(proposal_core(p)));
            assert(cores(all.take(k + 1)).drop_last() =~= cores(all.take(k as int)));
        }
        let mut present = false;
        let mut j: usize = 0;
        while j < out.len()
            invariant
                j <= out.len(),
                present == exists|x: int| 0 <= x < j && #[trigger] out@[x].tool_name@ == p.tool_name@,
            decreases out.len() - j,
        {
            if str_equals(out[j].tool_name.as_str(), p.tool_name.as_str()) {
                present = true;
            }
            j = j + 1;
        }
        let ghost prev = cores(out@);
        proof {
            if present {
                let x = choose|x: int| 0 <= x < out@.len() && #[trigger] out@[x].tool_name@ == p.tool_name@;
                assert(prev[x].0 == p.tool_name@);
            } else {
                assert forall|x: int| 0 <= x < prev.len() implies #[trigger] prev[x].0 != p.tool_name@ by {
                    assert(prev[x].0 == out@[x].tool_name@);
                }
            }
        }
        if !present {
            out.push(p);
            proof {
                assert(cores(out@) =~= prev.push(proposal_core(p)));
            }
        }
        k = k + 1;
    }
    assert(all.take(k as int) =~= all);
    out
}

/// Whether the chat runs on rules alone: no LLM key and a provider that is
/// not a local command-line one.
pub fn use_rule_based_chat(api_key: &str, family: &ProviderProtocolFamily) -> (r: bool)
    ensures
        r == (trim(api_key@).len() == 0 && *family != ProviderProtocolFamily::OauthCodexStyle),
{
    let has_key = trim_str(api_key).unicode_len() > 0;
    let is_local = match family {
        ProviderProtocolFamily::OauthCodexStyle => true,
        _ => false,
    };
    !has_key && !is_local
}

impl Orchestrator {
    /// A reply without its trailing raw JSON lines, such as tool-call output
    /// that bled into the model's text.
    pub fn strip_trailing_json_artifacts(text: &str) -> (r: String)
        ensures
            r@ == stripped_reply(text@),
    {
        let lines = text_lines(text);
        let ghost ls = lines.deep_view();
        let mut n: usize = lines.len();
        let mut keep: usize = lines.len();
        assert(ls.take(n as int) =~= ls);
        while n > 0 && is_json_artifact_exec(lines[n - 1].as_str())
            invariant
                n <= lines.len(),
                keep == lines.len(),
                lines.deep_view() == ls,
                last_kept_line(ls) == last_kept_line(ls.take(n as int)),
            decreases n,
        {
            proof {
                assert(ls.take(n as int).drop_last() =~= ls.take(n - 1));
                assert(ls.take(n as int).last() == ls[n - 1]);
            }
            n = n - 1;
        }
        proof {
            if n > 0 {
                assert(ls.take(n as int).last() == ls[n - 1]);
                assert(ls[n - 1] == lines@[n - 1]@);
            }
        }
        if n > 0 {
            keep = n;
        }
        proof {
            if n == 0 {
                assert(ls.take(0) =~= Seq::<Seq<char>>::empty());
            }
        }
        let mut kept: Vec<String> = Vec::new();
        let mut i: usize = 0;
        while i < keep
            invariant
                i <= keep <= lines.len(),
                lines.deep_view() == ls,
                kept.deep_view() == ls.take(i as int),
            decreases keep - i,
        {
            let ghost prev = kept.deep_view();
            kept.push(owned(lines[i].as_str()));
            proof {
                assert(ls[i as int] == lines@[i as int]@);
                assert(kept.deep_view() =~= prev.push(ls[i as int]));
                assert(kept.deep_view() =~= ls.take(i + 1));
            }
            i = i + 1;
        }
        join_strings(&kept, "\n")
    }

    /// The reply a worker's chat result carries.
    pub fn extract_chat_reply(result: &serde_json::Value) -> (r: String)
        ensures
            r@ == chat_reply_of(json_view(*result)),
    {
        let synthesis = json_field(result, "synthesis");
        let triage = json_field(result, "triage");
        let candidates = [
            json_field(result, "reply"),
            json_field(&synthesis, "final_response"),
            json_field(result, "final_response"),
            json_field(&triage, "direct_answer"),
            json_field(result, "direct_answer"),
            json_field(result, "blocked_reason"),
        ];
        let ghost views = seq![
            nonempty_str(view_field(json_view(*result), "reply"@)),
            nonempty_str(view_field(view_field(json_view(*result), "synthesis"@), "final_response"@)),
            nonempty_str(view_field(json_view(*result), "final_response"@)),
            nonempty_str(view_field(view_field(json_view(*result), "triage"@), "direct_answer"@)),
            nonempty_str(view_field(json_view(*result), "direct_answer"@)),
            nonempty_str(view_field(json_view(*result), "blocked_reason"@)),
        ];
        let mut i: usize = 0;
        assert(views.skip(0) =~= views);
        assert(first_present(views, "I processed your request."@) == chat_reply_of(json_view(*result)));
        while i < 6
            invariant
                i <= 6,
                views.len() == 6,
                first_present(views, "I processed your request."@) == chat_reply_of(json_view(*result)),
                forall|x: int| 0 <= x < 6 ==> nonempty_str(json_view(#[trigger] candidates@[x])) == views[x],
                first_present(views, "I processed your request."@) == first_present(
                    views.skip(i as int),
                    "I processed your request."@,
                ),
            decreases 6 - i,
        {
            assert(views.skip(i as int).drop_first() =~= views.skip(i + 1));
            assert(views.skip(i as int)[0] == views[i as int]);
            match nonempty_member(&candidates[i]) {
                Some(s) => {
                    return s;
                },
                None => {},
            }
            i = i + 1;
        }
        owned("I processed your request.")
    }

    /// The reply shown to the operator: a JSON reply rendered as text, then
    /// trailing JSON artifacts stripped.
    pub fn cook_chat_reply(raw: &str) -> (r: String)
        ensures
            r@ == cooked_reply(raw@),
    {
        let v = chars_of(raw);
        let lead = crate::text::leading_ws_len(&v);
        proof {
            crate::text::lemma_leading_ws_bound(raw@);
        }
        let starts_brace = lead < v.len() && v[lead] == '{';
        proof {
            let t = trim_start(raw@);
            if lead < v.len() {
                assert(t[0] == raw@[lead as int]);
            }
        }
        let cooked = if starts_brace {
            match Self::render_json_reply_as_text(raw) {
                Some(x) => x,
                None => owned(raw),
            }
        } else {
            owned(raw)
        };
        Self::strip_trailing_json_artifacts(cooked.as_str())
    }

    /// The offline answer: the actions the message drafts (a draft's call id
    /// made from `call_id_random`), and a reply that lists them.
    pub fn rule_based_chat(
        message: &str,
        snapshot: &SairgentRuntimeSnapshot,
        attachment_count: usize,
        call_id_random: [u8; 16],
    ) -> (r: SairgentChatResult)
        ensures
            cores(r.tool_calls@) == drafted_core(message@, snapshot),
            r.reply@ == join(
                reply_sections(snapshot, attachment_count as nat, r.tool_calls@),
                "\n\n"@,
            ),
    {
        let tool_calls = Self::infer_sairgent_tool_calls(message, snapshot, call_id_random);
        let reply = Self::compose_sairgent_reply(snapshot, attachment_count, &tool_calls);
        proof {
            if tool_calls@.len() == 1 {
                assert(cores(tool_calls@) =~= drafted_core(message@, snapshot));
            } else {
                assert(cores(tool_calls@) =~= drafted_core(message@, snapshot));
            }
        }
        SairgentChatResult { reply, tool_calls }
    }

    /// The chat result once a worker has answered: its reply cooked for
    /// display, its proposals first, then any action the operator's
    /// message or the reply drafts for a tool not proposed yet (their call
    /// ids made from `message_call_id_random` and `reply_call_id_random`).
    pub fn finish_sairgent_chat(
        message: &str,
        snapshot: &SairgentRuntimeSnapshot,
        result: &serde_json::Value,
        proposals: Vec<SairgentToolProposal>,
        message_call_id_random: [u8; 16],
        reply_call_id_random: [u8; 16],
    ) -> (r: SairgentChatResult)
        ensures
            r.reply@ == cooked_reply(chat_reply_of(json_view(*result))),
            cores(r.tool_calls@) == merged_cores(
                merged_cores(cores(proposals@), drafted_core(message@, snapshot)),
                drafted_core(cooked_reply(chat_reply_of(json_view(*result))), snapshot),
            ),
    {
        let raw = Self::extract_chat_reply(result);
        let reply = Self::cook_chat_reply(raw.as_str());
        let from_message = Self::infer_sairgent_tool_calls(message, snapshot, message_call_id_random);
        proof {
            assert(cores(from_message@) =~= drafted_core(message@, snapshot));
        }
        let merged = merge_tool_proposals(proposals, from_message);
        let from_reply = Self::infer_sairgent_tool_calls(
            reply.as_str(),
            snapshot,
            reply_call_id_random,
        );
        proof {
            assert(cores(from_reply@) =~= drafted_core(reply@, snapshot));
        }
        let tool_calls = merge_tool_proposals(merged, from_reply);
        SairgentChatResult { reply, tool_calls }
    }
}

/// The text of a closed failure as shown in chat.
pub open spec fn closed_failed_text(v: JsonView) -> Seq<char> {
    let count = match view_field(v, "review_failure_count"@) {
        JsonView::Number(t) => if exists|n: i64| t == int_text(n as int) {
            t
        } else {
            "0"@
        },
        _ => "0"@,
    };
    "Closed failed after "@ + count + " review-gate attempts. "@ + match view_str(
        view_field(v, "reason"@),
    ) {
        Some(r) => r,
        None => "No reason supplied."@,
    }
}

/// The chat message that reports a finished work order: the synthesis's
/// final response, the triage's direct answer, the reply, or the closed
/// failure, whichever comes first; the result's JSON text otherwise.
pub open spec fn final_reply_text(v: JsonView) -> Seq<char> {
    match view_str(view_field(view_field(v, "synthesis"@), "final_response"@)) {
        Some(t) => t,
        None => match view_str(view_field(view_field(v, "triage"@), "direct_answer"@)) {
            Some(t) => t,
            None => match view_str(view_field(v, "reply"@)) {
                Some(t) => t,
                None => if view_str(view_field(v, "terminal_status"@)) == Some("CLOSED_FAILED"@) {
                    closed_failed_text(v)
                } else {
                    json_compact_text(v)
                },
            },
        },
    }
}

/// The formatter's work order: its `formatted_swo`, trimmed, when that is
/// a non-blank string.
pub open spec fn formatted_swo_of(v: JsonView) -> Option<Seq<char>> {
    match view_str(view_field(v, "formatted_swo"@)) {
        Some(t) => if trim(t).len() > 0 {
            Some(trim(t))
        } else {
            None
        },
        None => None,
    }
}

impl Orchestrator {
    /// The chat message that reports a finished work order.
    pub fn final_reply_text(result: &serde_json::Value) -> (r: String)
        ensures
            r@ == final_reply_text(json_view(*result)),
    {
        let synthesis = json_field(result, "synthesis");
        if let Some(t) = json_as_str(&json_field(&synthesis, "final_response")) {
            return t;
        }
        let triage = json_field(result, "triage");
        if let Some(t) = json_as_str(&json_field(&triage, "direct_answer")) {
            return t;
        }
        if let Some(t) = json_as_str(&json_field(result, "reply")) {
            return t;
        }
        let closed = match json_as_str(&json_field(result, "terminal_status")) {
            Some(s) => str_equals(s.as_str(), "CLOSED_FAILED"),
            None => false,
        };
        if closed {
            let count_value = json_field(result, "review_failure_count");
            let count = match json_as_i64(&count_value) {
                Some(n) => i64_text(n),
                None => owned("0"),
            };
            let reason = match json_as_str(&json_field(result, "reason")) {
                Some(t) => t,
                None => owned("No reason supplied."),
            };
            let mut r = owned("Closed failed after ");
            r.append(count.as_str());
            r.append(" review-gate attempts. ");
            r.append(reason.as_str());
            proof {
                reveal_strlit("0");
                let cv = view_field(json_view(*result), "review_failure_count"@);
                if let JsonView::Number(t) = cv {
                    if exists|n: i64| t == int_text(n as int) {
                        let n = choose|n: i64| t == int_text(n as int);
                        assert(json_view(count_value) != JsonView::Number(int_text(n as int)) ==> false);
                    }
                }
            }
            return r;
        }
        json_text(result)
    }

    /// The work order a formatter produced, or an error when it came back blank.
    pub fn formatted_swo_from(result: &serde_json::Value) -> (r: Result<String, KernelError>)
        ensures
            match formatted_swo_of(json_view(*result)) {
                Some(t) => r matches Ok(s) && s@ == t,
                None => r matches Err(KernelError::Internal(m)) && m@
                    == "SWO formatter returned an empty payload"@,
            },
    {
        if let Some(t) = json_as_str(&json_field(result, "formatted_swo")) {
            let trimmed = trim_str(t.as_str());
            if trimmed.unicode_len() > 0 {
                return Ok(trimmed);
            }
        }
        Err(KernelError::Internal(owned("SWO formatter returned an empty payload")))
    }

    /// The members of a chat result that acknowledgements are added to: those
    /// of an object, none for `null` (which indexing turns into an object).
    pub open spec fn result_members(v: JsonView) -> Map<Seq<char>, JsonView> {
        match v {
            JsonView::Object(m) => m,
            _ => Map::empty(),
        }
    }

    /// A chat result that queued work: the count of queued requests and
    /// their acknowledgements, joined by blank lines, as the reply.  The
    /// result is an object or `null`; indexing any other value panics.
    pub fn chat_result_with_acks(result: serde_json::Value, acks: &Vec<String>) -> (r:
        serde_json::Value)
        requires
            json_view(result) is Object || json_view(result) is Null,
        ensures
            acks.len() == 0 ==> r == result,
            acks.len() > 0 ==> json_view(r) == JsonView::Object(
                Self::result_members(json_view(result)).insert(
                    "queued_work_count"@,
                    JsonView::Number(nat_text(acks.len() as nat)),
                ).insert("reply"@, JsonView::Str(join(acks.deep_view(), "\n\n"@))),
            ),
    {
        if acks.len() == 0 {
            return result;
        }
        let mut r = if json_is_object(&result) {
            result
        } else {
            json_empty_object()
        };
        json_object_insert(&mut r, "queued_work_count", json_u64_value(acks.len() as u64));
        let joined = join_strings(acks, "\n\n");
        json_object_insert(&mut r, "reply", json_string_value(joined.as_str()));
        r
    }

    /// The payload a formatter run gets: the target report, the operator's
    /// message and the recent context (an empty list when that is not JSON).
    pub fn formatter_payload(
        target_id: &str,
        target_name: &str,
        target_role: &str,
        user_message: &str,
        recent_context_json: &str,
    ) -> (r: serde_json::Value)
        ensures
            json_view(r) == JsonView::Object(
                Map::<Seq<char>, JsonView>::empty().insert(
                    "target_subordinate"@,
                    JsonView::Object(
                        Map::<Seq<char>, JsonView>::empty().insert(
                            "id"@,
                            JsonView::Str(target_id@),
                        ).insert("name"@, JsonView::Str(target_name@)).insert(
                            "role"@,
                            JsonView::Str(target_role@),
                        ),
                    ),
                ).insert("user_message"@, JsonView::Str(user_message@)).insert(
                    "recent_context"@,
                    match json_parse_result(recent_context_json@) {
                        Some(c) => c,
                        None => JsonView::Array(Seq::empty()),
                    },
                ),
            ),
    {
        let mut target = json_empty_object();
        json_object_insert(&mut target, "id", json_string_value(target_id));
        json_object_insert(&mut target, "name", json_string_value(target_name));
        json_object_insert(&mut target, "role", json_string_value(target_role));
        let context = match json_parse(recent_context_json) {
            Some(c) => c,
            None => json_empty_array(),
        };
        let mut r = json_empty_object();
        json_object_insert(&mut r, "target_subordinate", target);
        json_object_insert(&mut r, "user_message", json_string_value(user_message));
        json_object_insert(&mut r, "recent_context", context);
        r
    }
}

} // verus!
