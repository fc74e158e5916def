//! The Sairgent operator agent's rule-based fallback: reading an operator
//! message, drafting a governed action from it, and composing a reply.

use vstd::prelude::*;
use vstd::string::*;
use crate::orchestrator::{Orchestrator, SairgentToolProposal};
use crate::json::{
    JsonView, json_array_of_one, json_compact_text, json_empty_object, json_null,
    json_object_insert, json_string_value, json_text,
};
use crate::ids::{new_uuid_v4, uuid_v4_text};
use crate::text::{
    ascii_lowercase, ascii_lowercase_chars, chars_of, contains_sub, find_first_in, find_sub,
    first_in, first_occurrence, has_in, is_first_in, is_ws, lemma_first_in_unique, owned,
    segment_before, segment_before_chars, slice_vec, string_of, take_chars, take_chars_vec, trim,
    trim_chars, trim_start_char, trim_start_char_chars, char_is_whitespace, push_char, join,
    join_strings, int_text, nat_text, i64_text, u64_text,
};

verus! {

/// The characters that open a quotation.
pub open spec fn quote_chars() -> Seq<char> {
    seq!['"', '\'']
}

/// The first non-blank quotation in `s`: text between the first quote
/// character and the next occurrence of that same character, trimmed.
pub open spec fn quoted_text(s: Seq<char>) -> Option<Seq<char>> {
    if has_in(s, quote_chars(), 0) {
        let i = first_in(s, quote_chars(), 0);
        let q = seq![s[i]];
        if has_in(s, q, i + 1) {
            let c = trim(s.subrange(i + 1, first_in(s, q, i + 1)));
            if c.len() > 0 {
                Some(c)
            } else {
                None
            }
        } else {
            None
        }
    } else {
        None
    }
}

/// Sentence delimiters that end a name typed after a phrase.
pub open spec fn name_delimiters() -> Seq<char> {
    seq!['.', '\n', '!', '?', ';']
}

/// Index of the first occurrence of `t` in `s`.
pub open spec fn first_index(s: Seq<char>, t: Seq<char>) -> int {
    choose|i: int| first_occurrence(s, t, i)
}

/// A position that is the first occurrence is what `first_index` names.
pub proof fn lemma_first_index_unique(s: Seq<char>, t: Seq<char>, i: int)
    requires
        first_occurrence(s, t, i),
    ensures
        contains_sub(s, t),
        first_index(s, t) == i,
{
    let k = first_index(s, t);
    assert(first_occurrence(s, t, k));
    if k < i {
        assert(!crate::text::occurs_at(s, t, k));
    }
    if i < k {
        assert(!crate::text::occurs_at(s, t, i));
    }
}

/// The name typed after `phrase` (matched ignoring ASCII case): the rest of
/// the sentence, trimmed and with leading colons removed.
pub open spec fn name_after(message: Seq<char>, phrase: Seq<char>) -> Option<Seq<char>> {
    let lowered = ascii_lowercase(message);
    let needle = ascii_lowercase(phrase);
    if contains_sub(lowered, needle) {
        let start = first_index(lowered, needle);
        let raw = trim(message.subrange(start + phrase.len(), message.len() as int));
        let candidate = trim(trim_start_char(trim(segment_before(raw, name_delimiters())), ':'));
        if candidate.len() == 0 {
            None
        } else {
            Some(candidate)
        }
    } else {
        None
    }
}

/// The first of `phrases` after which a name is found.
pub open spec fn name_after_any(message: Seq<char>, phrases: Seq<Seq<char>>) -> Option<Seq<char>>
    decreases phrases.len(),
{
    if phrases.len() == 0 {
        None
    } else {
        match name_after(message, phrases[0]) {
            Some(n) => Some(n),
            None => name_after_any(message, phrases.drop_first()),
        }
    }
}

/// State after folding `split_whitespace().join(" ")` over `s`: the text so
/// far and whether a gap is pending before the next word.
pub open spec fn single_line_state(s: Seq<char>) -> (Seq<char>, bool)
    decreases s.len(),
{
    if s.len() == 0 {
        (Seq::empty(), false)
    } else {
        let (out, gap) = single_line_state(s.drop_last());
        let c = s.last();
        if is_ws(c) {
            (out, out.len() > 0)
        } else if gap {
            (out.push(' ').push(c), false)
        } else {
            (out.push(c), false)
        }
    }
}

/// The words of `s` joined by single spaces.
pub open spec fn single_line(s: Seq<char>) -> Seq<char> {
    single_line_state(s).0
}

/// One-line summary of at most 140 characters (plus an ellipsis when cut).
pub open spec fn request_summary(input: Seq<char>, fallback: Seq<char>) -> Seq<char> {
    let n = single_line(input);
    if n.len() == 0 {
        fallback
    } else if n.len() > 140 {
        take_chars(n, 140) + "..."@
    } else {
        n
    }
}

fn quote_set() -> (r: Vec<char>)
    ensures
        r@ == quote_chars(),
{
    let r = vec!['"', '\''];
    assert(r@ =~= quote_chars());
    r
}

fn delimiter_set() -> (r: Vec<char>)
    ensures
        r@ == name_delimiters(),
{
    let r = vec!['.', '\n', '!', '?', ';'];
    assert(r@ =~= name_delimiters());
    r
}

impl Orchestrator {
    pub fn extract_quoted_text(message: &str) -> (r: Option<String>)
        ensures
            match r {
                Some(t) => quoted_text(message@) == Some(t@),
                None => quoted_text(message@) is None,
            },
    {
        let v = chars_of(message);
        let quotes = quote_set();
        match find_first_in(&v, &quotes, 0) {
            None => None,
            Some(i) => {
                assert(i < v.len());
                let close = vec![v[i]];
                assert(close@ =~= seq![v@[i as int]]);
                match find_first_in(&v, &close, i + 1) {
                    None => None,
                    Some(j) => {
                        let inner = slice_vec(&v, i + 1, j);
                        let c = trim_chars(&inner);
                        if c.len() > 0 {
                            Some(string_of(&c))
                        } else {
                            None
                        }
                    },
                }
            },
        }
    }

    fn name_after_phrase(message: &Vec<char>, lowered: &Vec<char>, phrase: &str) -> (r: Option<
        String,
    >)
        requires
            lowered@ == ascii_lowercase(message@),
        ensures
            match r {
                Some(t) => name_after(message@, phrase@) == Some(t@),
                None => name_after(message@, phrase@) is None,
            },
    {
        let p = chars_of(phrase);
        let needle = ascii_lowercase_chars(&p);
        match find_sub(lowered, &needle) {
            None => None,
            Some(start) => {
                proof {
                    lemma_first_index_unique(lowered@, needle@, start as int);
                    assert(crate::text::occurs_at(lowered@, needle@, start as int));
                    assert(needle@.len() == p@.len());
                    assert(lowered@.len() == message@.len());
                    assert(start + p@.len() <= message@.len());
                }
                let plen = p.len();
                assert(start + plen <= message.len());
                let end = start + plen;
                let rest = slice_vec(message, end, message.len());
                let raw = trim_chars(&rest);
                let delims = delimiter_set();
                let seg = segment_before_chars(&raw, &delims);
                let a = trim_chars(&seg);
                let b = trim_start_char_chars(&a, ':');
                let candidate = trim_chars(&b);
                if candidate.len() == 0 {
                    None
                } else {
                    Some(string_of(&candidate))
                }
            },
        }
    }

    pub fn extract_name_after_phrase(message: &str, phrases: &Vec<&str>) -> (r: Option<String>)
        ensures
            match r {
                Some(t) => name_after_any(message@, phrases@.map_values(|p: &str| p@)) == Some(
                    t@,
                ),
                None => name_after_any(message@, phrases@.map_values(|p: &str| p@)) is None,
            },
    {
        let v = chars_of(message);
        let lowered = ascii_lowercase_chars(&v);
        let ghost views = phrases@.map_values(|p: &str| p@);
        let mut i: usize = 0;
        assert(views.subrange(0, views.len() as int) =~= views);
        while i < phrases.len()
            invariant
                i <= phrases.len(),
                v@ == message@,
                lowered@ == ascii_lowercase(v@),
                views == phrases@.map_values(|p: &str| p@),
                name_after_any(message@, views) == name_after_any(
                    message@,
                    views.subrange(i as int, views.len() as int),
                ),
            decreases phrases.len() - i,
        {
            let ghost rest = views.subrange(i as int, views.len() as int);
            assert(rest[0] == phrases@[i as int]@);
            assert(rest.drop_first() =~= views.subrange(i + 1, views.len() as int));
            match Self::name_after_phrase(&v, &lowered, phrases[i]) {
                Some(n) => {
                    return Some(n);
                },
                None => {},
            }
            i = i + 1;
        }
        None
    }

    pub fn normalize_single_line(input: &str) -> (r: String)
        ensures
            r@ == single_line(input@),
    {
        let v = chars_of(input);
        let mut out: Vec<char> = Vec::new();
        let mut gap = false;
        let mut i: usize = 0;
        assert(v@.subrange(0, 0) =~= Seq::<char>::empty());
        while i < v.len()
            invariant
                i <= v.len(),
                v@ == input@,
                (out@, gap) == single_line_state(v@.subrange(0, i as int)),
            decreases v.len() - i,
        {
            let c = v[i];
            let ghost pre = v@.subrange(0, i + 1);
            assert(pre.drop_last() =~= v@.subrange(0, i as int));
            if char_is_whitespace(c) {
                gap = out.len() > 0;
            } else if gap {
                out.push(' ');
                out.push(c);
                gap = false;
            } else {
                out.push(c);
            }
            i = i + 1;
        }
        assert(v@.subrange(0, v.len() as int) =~= v@);
        string_of(&out)
    }

    pub fn summarize_request(input: &str, fallback: &str) -> (r: String)
        ensures
            r@ == request_summary(input@, fallback@),
    {
        let normalized = Self::normalize_single_line(input);
        let n = chars_of(normalized.as_str());
        if n.len() == 0 {
            return owned(fallback);
        }
        let truncated = take_chars_vec(&n, 140);
        let mut r = string_of(&truncated);
        if n.len() > 140 {
            r.append("...");
        }
        r
    }
}


/// A project the operator is looking at.
pub struct SairgentProjectContext {
    pub id: String,
    pub name: String,
    pub status: String,
    pub lead: Option<String>,
}

/// A work order the operator is looking at.
pub struct SairgentSwoContext {
    pub id: i64,
    pub title: String,
    pub status: String,
    pub assignee: String,
}

/// What the operator agent knows about the runtime when it answers.
pub struct SairgentRuntimeSnapshot {
    pub company_name: String,
    pub company_summary: Option<String>,
    pub operating_principles: Vec<String>,
    pub non_goals: Vec<String>,
    pub active_projects: usize,
    pub paused_projects: usize,
    pub archived_projects: usize,
    pub open_swos: usize,
    pub approvals_waiting: usize,
    pub agent_count: usize,
    pub ready_agents: usize,
    pub degraded_agents: usize,
    pub highlights: Vec<String>,
    pub current_project: Option<SairgentProjectContext>,
    pub current_swo: Option<SairgentSwoContext>,
    pub default_provider: String,
    pub default_model: String,
}

pub open spec fn project_phrases() -> Seq<Seq<char>> {
    seq!["create project"@, "new project"@, "start project"@]
}

pub open spec fn work_order_phrases() -> Seq<Seq<char>> {
    seq!["create work order"@, "new work order"@, "create swo"@, "new swo"@, "draft work order"@]
}

pub open spec fn agent_phrases() -> Seq<Seq<char>> {
    seq!["create agent"@, "new agent"@, "add agent"@, "hire agent"@]
}

/// The message mentions one of `phrases` (ignoring ASCII case).
pub open spec fn mentions_any(message: Seq<char>, phrases: Seq<Seq<char>>) -> bool {
    exists|i: int|
        0 <= i < phrases.len() && contains_sub(ascii_lowercase(message), #[trigger] phrases[i])
}

/// The quoted name, or else the name after one of the phrases.
pub open spec fn requested_name(message: Seq<char>, phrases: Seq<Seq<char>>) -> Option<Seq<char>> {
    match quoted_text(message) {
        Some(q) => Some(q),
        None => name_after_any(message, phrases),
    }
}

/// The arguments of a drafted project, as JSON contents.
pub open spec fn project_arguments_view(name: Seq<char>, outcome: Seq<char>) -> JsonView {
    JsonView::Object(
        Map::empty().insert("leadAgentId"@, JsonView::Null).insert("name"@, JsonView::Str(name)).insert(
            "priority"@,
            JsonView::Str("NORMAL"@),
        ).insert("summary"@, JsonView::Str("Requested from Sairgent Agent: "@ + outcome)).insert(
            "tags"@,
            JsonView::Array(seq![JsonView::Str("sairgent-agent"@)]),
        ).insert("targetOutcome"@, JsonView::Str(outcome)),
    )
}

/// The arguments of a drafted project, as the JSON text serde_json writes.
pub open spec fn project_arguments(name: Seq<char>, outcome: Seq<char>) -> Seq<char> {
    json_compact_text(project_arguments_view(name, outcome))
}

/// The arguments of a drafted work order, as JSON contents.
pub open spec fn work_order_arguments_view(
    title: Seq<char>,
    outcome: Seq<char>,
    project_id: Option<Seq<char>>,
) -> JsonView {
    JsonView::Object(
        Map::empty().insert(
            "constraints"@,
            JsonView::Str(
                "Review before ship. Route through the standard audited work-order path."@,
            ),
        ).insert("outcome"@, JsonView::Str(outcome)).insert("priority"@, JsonView::Str("NORMAL"@)).insert(
            "projectId"@,
            match project_id {
                Some(id) => JsonView::Str(id),
                None => JsonView::Null,
            },
        ).insert("title"@, JsonView::Str(title)),
    )
}

/// The arguments of a drafted work order, as the JSON text serde_json writes.
pub open spec fn work_order_arguments(
    title: Seq<char>,
    outcome: Seq<char>,
    project_id: Option<Seq<char>>,
) -> Seq<char> {
    json_compact_text(work_order_arguments_view(title, outcome, project_id))
}

/// The arguments of a drafted agent, as JSON contents.
pub open spec fn agent_arguments_view(
    name: Seq<char>,
    role: Seq<char>,
    mission: Seq<char>,
    provider: Seq<char>,
    model: Seq<char>,
) -> JsonView {
    JsonView::Object(
        Map::empty().insert("managerAgentId"@, JsonView::Null).insert("mission"@, JsonView::Str(mission)).insert(
            "model"@,
            JsonView::Str(model),
        ).insert("name"@, JsonView::Str(name)).insert("provider"@, JsonView::Str(provider)).insert(
            "role"@,
            JsonView::Str(role),
        ),
    )
}

/// The arguments of a drafted agent, as the JSON text serde_json writes.
pub open spec fn agent_arguments(
    name: Seq<char>,
    role: Seq<char>,
    mission: Seq<char>,
    provider: Seq<char>,
    model: Seq<char>,
) -> Seq<char> {
    json_compact_text(agent_arguments_view(name, role, mission, provider, model))
}

/// Role requested with "... as <role>", up to the end of the sentence.
pub open spec fn requested_role(message: Seq<char>) -> Seq<char> {
    if contains_sub(message, " as "@) {
        let tail = message.subrange(first_index(message, " as "@) + 4, message.len() as int);
        let role = trim(segment_before(tail, name_delimiters()));
        if role.len() > 0 {
            role
        } else {
            "Operator Support"@
        }
    } else {
        "Operator Support"@
    }
}

/// The governed action drafted from an operator message, as
/// (tool name, summary, JSON arguments).
pub open spec fn drafted_action(message: Seq<char>, snapshot: &SairgentRuntimeSnapshot) -> Option<
    (Seq<char>, Seq<char>, Seq<char>),
> {
    if mentions_any(message, project_phrases()) && requested_name(message, project_phrases()) is Some {
        let name = requested_name(message, project_phrases())->0;
        let outcome = request_summary(
            message,
            "Create a new project from the Sairgent desktop panel."@,
        );
        Some(("create_project"@, "Create project "@ + name, project_arguments(name, outcome)))
    } else if mentions_any(message, work_order_phrases()) && requested_name(
        message,
        work_order_phrases(),
    ) is Some {
        let title = requested_name(message, work_order_phrases())->0;
        let outcome = request_summary(
            message,
            "Create a new governed work order from the Sairgent panel."@,
        );
        let project_id = match snapshot.current_project {
            Some(p) => Some(p.id@),
            None => None,
        };
        Some(
            (
                "create_work_order"@,
                "Create work order "@ + title,
                work_order_arguments(title, outcome, project_id),
            ),
        )
    } else if mentions_any(message, agent_phrases()) && requested_name(message, agent_phrases()) is Some {
        let name = requested_name(message, agent_phrases())->0;
        let mission = "Support "@ + snapshot.company_name@ + " with "@ + request_summary(
            message,
            "operator support"@,
        ) + "."@;
        Some(
            (
                "create_agent"@,
                "Create least-privilege agent "@ + name,
                agent_arguments(
                    name,
                    requested_role(message),
                    mission,
                    snapshot.default_provider@,
                    snapshot.default_model@,
                ),
            ),
        )
    } else {
        None
    }
}

fn mentions_any_exec(lowered: &str, phrases: &Vec<&str>) -> (r: bool)
    ensures
        r == exists|i: int|
            0 <= i < phrases@.len() && contains_sub(lowered@, #[trigger] phrases@[i]@),
{
    let mut i: usize = 0;
    while i < phrases.len()
        invariant
            i <= phrases.len(),
            forall|j: int| 0 <= j < i ==> !contains_sub(lowered@, #[trigger] phrases@[j]@),
        decreases phrases.len() - i,
    {
        if crate::text::str_contains(lowered, phrases[i]) {
            return true;
        }
        i = i + 1;
    }
    false
}

fn phrase_vec(which: u8) -> (r: Vec<&'static str>)
    requires
        which <= 2,
    ensures
        r@.map_values(|p: &str| p@) == if which == 0 {
            project_phrases()
        } else if which == 1 {
            work_order_phrases()
        } else {
            agent_phrases()
        },
{
    if which == 0 {
        let r = vec!["create project", "new project", "start project"];
        assert(r@.map_values(|p: &str| p@) =~= project_phrases());
        r
    } else if which == 1 {
        let r = vec![
            "create work order",
            "new work order",
            "create swo",
            "new swo",
            "draft work order",
        ];
        assert(r@.map_values(|p: &str| p@) =~= work_order_phrases());
        r
    } else {
        let r = vec!["create agent", "new agent", "add agent", "hire agent"];
        assert(r@.map_values(|p: &str| p@) =~= agent_phrases());
        r
    }
}

fn mentions_phrases(lowered: &str, message: &str, phrases: &Vec<&str>) -> (r: bool)
    requires
        lowered@ == ascii_lowercase(message@),
    ensures
        r == mentions_any(message@, phrases@.map_values(|p: &str| p@)),
{
    let r = mentions_any_exec(lowered, phrases);
    let ghost views = phrases@.map_values(|p: &str| p@);
    proof {
        if r {
            let i = choose|i: int|
                0 <= i < phrases@.len() && contains_sub(lowered@, #[trigger] phrases@[i]@);
            assert(contains_sub(ascii_lowercase(message@), views[i]));
        } else {
            assert forall|i: int| 0 <= i < views.len() implies !contains_sub(
                ascii_lowercase(message@),
                #[trigger] views[i],
            ) by {
                assert(views[i] == phrases@[i]@);
            }
        }
    }
    r
}

fn requested_name_exec(message: &str, phrases: &Vec<&str>) -> (r: Option<String>)
    ensures
        match r {
            Some(t) => requested_name(message@, phrases@.map_values(|p: &str| p@)) == Some(t@),
            None => requested_name(message@, phrases@.map_values(|p: &str| p@)) is None,
        },
{
    match Orchestrator::extract_quoted_text(message) {
        Some(q) => Some(q),
        None => Orchestrator::extract_name_after_phrase(message, phrases),
    }
}

fn requested_role_exec(message: &str) -> (r: String)
    ensures
        r@ == requested_role(message@),
{
    let v = chars_of(message);
    let sep = chars_of(" as ");
    match find_sub(&v, &sep) {
        None => owned("Operator Support"),
        Some(at) => {
            proof {
                lemma_first_index_unique(v@, sep@, at as int);
                assert(crate::text::occurs_at(v@, sep@, at as int));
                reveal_strlit(" as ");
                assert(sep@.len() == 4);
            }
            let seplen = sep.len();
            assert(at + seplen <= v.len());
            let tail = slice_vec(&v, at + seplen, v.len());
            let delims = delimiter_set();
            let seg = segment_before_chars(&tail, &delims);
            let role = trim_chars(&seg);
            if role.len() > 0 {
                string_of(&role)
            } else {
                owned("Operator Support")
            }
        },
    }
}

fn proposal(tool_name: &str, summary: String, arguments_json: String, call_id_random: [u8; 16]) -> (r:
    SairgentToolProposal)
    ensures
        r.tool_name@ == tool_name@,
        r.summary@ == summary@,
        r.arguments_json@ == arguments_json@,
        r.requires_confirmation,
        r.call_id@ == uuid_v4_text(call_id_random@),
{
    SairgentToolProposal {
        call_id: new_uuid_v4(call_id_random),
        tool_name: owned(tool_name),
        summary,
        arguments_json,
        requires_confirmation: true,
    }
}

impl Orchestrator {
    /// Drafts at most one governed action (create a project, a work order or
    /// an agent) from an operator message; every draft needs confirmation,
    /// and its call id is made from `call_id_random`.
    pub fn infer_sairgent_tool_calls(
        message: &str,
        snapshot: &SairgentRuntimeSnapshot,
        call_id_random: [u8; 16],
    ) -> (r: Vec<SairgentToolProposal>)
        ensures
            r@.len() <= 1,
            r@.len() == 1 <==> drafted_action(message@, snapshot) is Some,
            r@.len() == 1 ==> ({
                let (tool, summary, args) = drafted_action(message@, snapshot)->0;
                &&& r@[0].tool_name@ == tool
                &&& r@[0].summary@ == summary
                &&& r@[0].arguments_json@ == args
                &&& r@[0].requires_confirmation
                &&& r@[0].call_id@ == uuid_v4_text(call_id_random@)
            }),
    {
        let lowered = crate::text::ascii_lowercase_str(message);
        let project = phrase_vec(0);
        if mentions_phrases(lowered.as_str(), message, &project) {
            match requested_name_exec(message, &project) {
                Some(name) => {
                    let outcome = Self::summarize_request(
                        message,
                        "Create a new project from the Sairgent desktop panel.",
                    );
                    let mut summary_text = owned("Requested from Sairgent Agent: ");
                    summary_text.append(outcome.as_str());
                    let mut obj = json_empty_object();
                    json_object_insert(&mut obj, "leadAgentId", json_null());
                    json_object_insert(&mut obj, "name", json_string_value(name.as_str()));
                    json_object_insert(&mut obj, "priority", json_string_value("NORMAL"));
                    json_object_insert(&mut obj, "summary", json_string_value(summary_text.as_str()));
                    json_object_insert(
                        &mut obj,
                        "tags",
                        json_array_of_one(json_string_value("sairgent-agent")),
                    );
                    json_object_insert(&mut obj, "targetOutcome", json_string_value(outcome.as_str()));
                    let args = json_text(&obj);
                    let mut summary = owned("Create project ");
                    summary.append(name.as_str());
                    let p = proposal("create_project", summary, args, call_id_random);
                    return vec![p];
                },
                None => {},
            }
        }
        let work_order = phrase_vec(1);
        if mentions_phrases(lowered.as_str(), message, &work_order) {
            match requested_name_exec(message, &work_order) {
                Some(title) => {
                    let outcome = Self::summarize_request(
                        message,
                        "Create a new governed work order from the Sairgent panel.",
                    );
                    let mut obj = json_empty_object();
                    json_object_insert(
                        &mut obj,
                        "constraints",
                        json_string_value(
                            "Review before ship. Route through the standard audited work-order path.",
                        ),
                    );
                    json_object_insert(&mut obj, "outcome", json_string_value(outcome.as_str()));
                    json_object_insert(&mut obj, "priority", json_string_value("NORMAL"));
                    let project_id = match &snapshot.current_project {
                        Some(p) => json_string_value(p.id.as_str()),
                        None => json_null(),
                    };
                    json_object_insert(&mut obj, "projectId", project_id);
                    json_object_insert(&mut obj, "title", json_string_value(title.as_str()));
                    let args = json_text(&obj);
                    let mut summary = owned("Create work order ");
                    summary.append(title.as_str());
                    let p = proposal("create_work_order", summary, args, call_id_random);
                    return vec![p];
                },
                None => {},
            }
        }
        let agent = phrase_vec(2);
        if mentions_phrases(lowered.as_str(), message, &agent) {
            match requested_name_exec(message, &agent) {
                Some(name) => {
                    let role = requested_role_exec(message);
                    let mut mission = owned("Support ");
                    mission.append(snapshot.company_name.as_str());
                    mission.append(" with ");
                    let s = Self::summarize_request(message, "operator support");
                    mission.append(s.as_str());
                    mission.append(".");
                    let mut obj = json_empty_object();
                    json_object_insert(&mut obj, "managerAgentId", json_null());
                    json_object_insert(&mut obj, "mission", json_string_value(mission.as_str()));
                    json_object_insert(
                        &mut obj,
                        "model",
                        json_string_value(snapshot.default_model.as_str()),
                    );
                    json_object_insert(&mut obj, "name", json_string_value(name.as_str()));
                    json_object_insert(
                        &mut obj,
                        "provider",
                        json_string_value(snapshot.default_provider.as_str()),
                    );
                    json_object_insert(&mut obj, "role", json_string_value(role.as_str()));
                    let args = json_text(&obj);
                    let mut summary = owned("Create least-privilege agent ");
                    summary.append(name.as_str());
                    let p = proposal("create_agent", summary, args, call_id_random);
                    return vec![p];
                },
                None => {},
            }
        }
        Vec::new()
    }
}


pub open spec fn reply_sections(
    snapshot: &SairgentRuntimeSnapshot,
    attachment_count: nat,
    tool_calls: Seq<SairgentToolProposal>,
) -> Seq<Seq<char>> {
    let greeting = seq![
        "Hey! I'm running in offline mode right now (no LLM API key configured). I can still help with basic actions."@,
    ];
    let project = match snapshot.current_project {
        Some(p) => seq!["You're in the **"@ + p.name@ + "** project (status: "@ + p.status@ + ")."@],
        None => Seq::empty(),
    };
    let swo = match snapshot.current_swo {
        Some(w) => seq![
            "Current task: **"@ + w.title@ + "** (#"@ + int_text(w.id as int) + ", "@ + w.status@
                + ")."@,
        ],
        None => Seq::empty(),
    };
    let activity = if snapshot.highlights@.len() > 0 {
        seq!["Recent activity: "@ + join(snapshot.highlights.deep_view(), ", "@) + "."@]
    } else {
        Seq::empty()
    };
    let attachments = if attachment_count > 0 {
        seq![
            "I see "@ + nat_text(attachment_count) + " attachment"@
                + (if attachment_count == 1 {
                ""@
            } else {
                "s"@
            }) + "."@,
        ]
    } else {
        Seq::empty()
    };
    let action = if tool_calls.len() > 0 {
        seq![
            "I've drafted an action: **"@ + tool_calls[0].summary@
                + "**. Confirm it below to proceed."@,
        ]
    } else {
        seq![
            "To unlock full capabilities, add an API key in **Settings**. I'll be able to research, write, analyze, and delegate to specialist agents."@,
        ]
    };
    greeting + project + swo + activity + attachments + action
}

pub open spec fn context_sections(snapshot: &SairgentRuntimeSnapshot) -> Seq<Seq<char>> {
    let project = match snapshot.current_project {
        Some(p) => seq!["Current project: "@ + p.name@ + " (status: "@ + p.status@ + ")"@],
        None => Seq::empty(),
    };
    let swo = match snapshot.current_swo {
        Some(w) => seq![
            "Current task: #"@ + int_text(w.id as int) + " — "@ + w.title@ + " (status: "@
                + w.status@ + ")"@,
        ],
        None => Seq::empty(),
    };
    let activity = if snapshot.highlights@.len() > 0 {
        seq!["Recent activity: "@ + join(snapshot.highlights.deep_view(), ", "@)]
    } else {
        Seq::empty()
    };
    project + swo + activity
}

impl Orchestrator {
    /// The offline reply: context the operator is in, any drafted action, and
    /// otherwise a pointer to configuring an API key.
    pub fn compose_sairgent_reply(
        snapshot: &SairgentRuntimeSnapshot,
        attachment_count: usize,
        tool_calls: &Vec<SairgentToolProposal>,
    ) -> (r: String)
        ensures
            r@ == join(
                reply_sections(snapshot, attachment_count as nat, tool_calls@),
                "\n\n"@,
            ),
    {
        let mut sections: Vec<String> = Vec::new();
        sections.push(
            owned(
                "Hey! I'm running in offline mode right now (no LLM API key configured). I can still help with basic actions.",
            ),
        );
        let ghost greeting = seq![
            "Hey! I'm running in offline mode right now (no LLM API key configured). I can still help with basic actions."@,
        ];
        assert(sections.deep_view() =~= greeting);
        match &snapshot.current_project {
            Some(p) => {
                let mut s = owned("You're in the **");
                s.append(p.name.as_str());
                s.append("** project (status: ");
                s.append(p.status.as_str());
                s.append(").");
                sections.push(s);
            },
            None => {},
        }
        let ghost after_project = sections.deep_view();
        match &snapshot.current_swo {
            Some(w) => {
                let mut s = owned("Current task: **");
                s.append(w.title.as_str());
                s.append("** (#");
                let id = i64_text(w.id);
                s.append(id.as_str());
                s.append(", ");
                s.append(w.status.as_str());
                s.append(").");
                sections.push(s);
            },
            None => {},
        }
        let ghost after_swo = sections.deep_view();
        if snapshot.highlights.len() > 0 {
            let mut s = owned("Recent activity: ");
            let h = join_strings(&snapshot.highlights, ", ");
            s.append(h.as_str());
            s.append(".");
            sections.push(s);
        }
        let ghost after_activity = sections.deep_view();
        if attachment_count > 0 {
            let mut s = owned("I see ");
            let n = u64_text(attachment_count as u64);
            s.append(n.as_str());
            s.append(" attachment");
            if attachment_count != 1 {
                s.append("s");
            } else {
                proof {
                    reveal_strlit("");
                }
                assert(s@ =~= s@ + ""@);
            }
            s.append(".");
            sections.push(s);
        }
        let ghost after_attachments = sections.deep_view();
        if tool_calls.len() > 0 {
            let mut s = owned("I've drafted an action: **");
            s.append(tool_calls[0].summary.as_str());
            s.append("**. Confirm it below to proceed.");
            sections.push(s);
        } else {
            sections.push(
                owned(
                    "To unlock full capabilities, add an API key in **Settings**. I'll be able to research, write, analyze, and delegate to specialist agents.",
                ),
            );
        }
        proof {
            let spec = reply_sections(snapshot, attachment_count as nat, tool_calls@);
            let project = match &snapshot.current_project {
                Some(p) => seq!["You're in the **"@ + p.name@ + "** project (status: "@ + p.status@ + ")."@],
                None => Seq::<Seq<char>>::empty(),
            };
            assert(after_project =~= greeting + project);
            let swo = match &snapshot.current_swo {
                Some(w) => seq![
                    "Current task: **"@ + w.title@ + "** (#"@ + int_text(w.id as int) + ", "@ + w.status@
                        + ")."@,
                ],
                None => Seq::<Seq<char>>::empty(),
            };
            assert(after_swo =~= greeting + project + swo);
            let activity = if snapshot.highlights@.len() > 0 {
                seq!["Recent activity: "@ + join(snapshot.highlights.deep_view(), ", "@) + "."@]
            } else {
                Seq::<Seq<char>>::empty()
            };
            assert(after_activity =~= greeting + project + swo + activity);
            let attachments = if attachment_count > 0 {
                seq![
                    "I see "@ + nat_text(attachment_count as nat) + " attachment"@ + (if attachment_count == 1 {
                        ""@
                    } else {
                        "s"@
                    }) + "."@,
                ]
            } else {
                Seq::<Seq<char>>::empty()
            };
            assert(after_attachments =~= greeting + project + swo + activity + attachments);
            assert(sections.deep_view() =~= spec);
        }
        join_strings(&sections, "\n\n")
    }

    /// Context handed to the worker: current project, current task and recent activity.
    pub fn format_sairgent_system_context(snapshot: &SairgentRuntimeSnapshot) -> (r: String)
        ensures
            r@ == join(context_sections(snapshot), "\n"@),
    {
        let mut sections: Vec<String> = Vec::new();
        match &snapshot.current_project {
            Some(p) => {
                let mut s = owned("Current project: ");
                s.append(p.name.as_str());
                s.append(" (status: ");
                s.append(p.status.as_str());
                s.append(")");
                sections.push(s);
            },
            None => {},
        }
        match &snapshot.current_swo {
            Some(w) => {
                let mut s = owned("Current task: #");
                let id = i64_text(w.id);
                s.append(id.as_str());
                s.append(" — ");
                s.append(w.title.as_str());
                s.append(" (status: ");
                s.append(w.status.as_str());
                s.append(")");
                sections.push(s);
            },
            None => {},
        }
        if snapshot.highlights.len() > 0 {
            let mut s = owned("Recent activity: ");
            let h = join_strings(&snapshot.highlights, ", ");
            s.append(h.as_str());
            sections.push(s);
        }
        assert(sections.deep_view() =~= context_sections(snapshot));
        join_strings(&sections, "\n")
    }
}

} // verus!
