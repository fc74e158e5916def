//! Workspace settings: the secure credential bundle and service credential
//! configurations.

use vstd::prelude::*;
use vstd::string::*;
use crate::string_map::StringMap;
use crate::text::{
    has_prefix, lemma_trim_idempotent, owned, str_equals, str_starts_with, trim, trim_str,
    chars_of, slice_vec, string_of, lex_le, str_lex_le, lemma_lex_le_total,
    lemma_lex_le_transitive, nat_text, to_lowercase, unicode_lowercase,
};
use crate::workspace::{
    validate_env_var, validate_label, validate_secret, validate_slug, slug_check, label_check,
    env_var_check, secret_check, MAX_API_KEY_LEN,
};

verus! {

/// Keychain account of the legacy single API key.
pub const KEY_API_KEY: &'static str = "api_key";

/// Keychain account of the sidechannel token.
pub const KEY_SIDECHANNEL_TOKEN: &'static str = "sidechannel_token";

/// Secrets kept together in one keychain entry (or file).
pub struct SecureSettingsBundle {
    pub legacy_api_key: String,
    pub llm_api_keys_by_provider: StringMap,
    pub tool_api_keys_by_slug: StringMap,
    pub sidechannel_token: String,
}

impl SecureSettingsBundle {
    pub open spec fn wf(self) -> bool {
        self.llm_api_keys_by_provider.wf() && self.tool_api_keys_by_slug.wf()
    }

    pub fn new() -> (r: Self)
        ensures
            r.wf(),
            r.legacy_api_key@.len() == 0,
            r.sidechannel_token@.len() == 0,
            r.llm_api_keys_by_provider@ == Map::<Seq<char>, Seq<char>>::empty(),
            r.tool_api_keys_by_slug@ == Map::<Seq<char>, Seq<char>>::empty(),
    {
        SecureSettingsBundle {
            legacy_api_key: String::new(),
            llm_api_keys_by_provider: StringMap::new(),
            tool_api_keys_by_slug: StringMap::new(),
            sidechannel_token: String::new(),
        }
    }
}

pub open spec fn non_blank_entry(m: Map<Seq<char>, Seq<char>>, slug: Seq<char>) -> Option<Seq<char>> {
    if m.contains_key(slug) && trim(m[slug]).len() > 0 {
        Some(m[slug])
    } else {
        None
    }
}

/// The secret that `account` names in the bundle, if it is set.
pub open spec fn bundle_value(b: &SecureSettingsBundle, account: Seq<char>) -> Option<Seq<char>> {
    if account == "api_key"@ {
        if b.legacy_api_key@.len() > 0 {
            Some(b.legacy_api_key@)
        } else {
            None
        }
    } else if account == "sidechannel_token"@ {
        if b.sidechannel_token@.len() > 0 {
            Some(b.sidechannel_token@)
        } else {
            None
        }
    } else if has_prefix(account, "llm_provider::"@) {
        non_blank_entry(b.llm_api_keys_by_provider@, account.subrange(14, account.len() as int))
    } else if has_prefix(account, "tool_provider::"@) {
        non_blank_entry(b.tool_api_keys_by_slug@, account.subrange(15, account.len() as int))
    } else {
        None
    }
}

/// Accounts that the bundle holds.
pub open spec fn bundle_account(account: Seq<char>) -> bool {
    account == "api_key"@ || account == "sidechannel_token"@ || has_prefix(
        account,
        "llm_provider::"@,
    ) || has_prefix(account, "tool_provider::"@)
}

/// The map entry after storing `value` (blank removes it).
pub open spec fn stored_entry(m: Map<Seq<char>, Seq<char>>, slug: Seq<char>, value: Seq<char>) -> Map<
    Seq<char>,
    Seq<char>,
> {
    if trim(value).len() == 0 {
        m.remove(slug)
    } else {
        m.insert(slug, trim(value))
    }
}

fn suffix_after(s: &str, n: usize) -> (r: String)
    requires
        n <= s@.len(),
    ensures
        r@ == s@.subrange(n as int, s@.len() as int),
{
    let v = chars_of(s);
    let t = slice_vec(&v, n, v.len());
    string_of(&t)
}

fn non_blank(v: Option<String>) -> (r: Option<String>)
    ensures
        match v {
            Some(s) => if trim(s@).len() > 0 {
                r == Some(s)
            } else {
                r is None
            },
            None => r is None,
        },
{
    match v {
        Some(s) => {
            let t = trim_str(s.as_str());
            if t.unicode_len() > 0 {
                Some(s)
            } else {
                None
            }
        },
        None => None,
    }
}

/// Reads the secret stored for `account`.
pub fn bundle_value_for_account(bundle: &SecureSettingsBundle, account: &str) -> (r: Option<String>)
    requires
        bundle.wf(),
    ensures
        match r {
            Some(v) => bundle_value(bundle, account@) == Some(v@),
            None => bundle_value(bundle, account@) is None,
        },
{
    if str_equals(account, "api_key") {
        return if bundle.legacy_api_key.unicode_len() > 0 {
            Some(bundle.legacy_api_key.clone())
        } else {
            None
        };
    }
    if str_equals(account, "sidechannel_token") {
        return if bundle.sidechannel_token.unicode_len() > 0 {
            Some(bundle.sidechannel_token.clone())
        } else {
            None
        };
    }
    proof {
        reveal_strlit("llm_provider::");
        reveal_strlit("tool_provider::");
    }
    if str_starts_with(account, "llm_provider::") {
        let slug = suffix_after(account, 14);
        return non_blank(bundle.llm_api_keys_by_provider.get(slug.as_str()));
    }
    if str_starts_with(account, "tool_provider::") {
        let slug = suffix_after(account, 15);
        return non_blank(bundle.tool_api_keys_by_slug.get(slug.as_str()));
    }
    None
}

/// How storing `value` for `account` changes the bundle: the named field
/// (or keyed entry) takes the trimmed value and everything else stays.
pub open spec fn store_effect(
    before: SecureSettingsBundle,
    after: SecureSettingsBundle,
    account: Seq<char>,
    value: Seq<char>,
) -> bool {
    let same_llm = after.llm_api_keys_by_provider@ == before.llm_api_keys_by_provider@;
    let same_tool = after.tool_api_keys_by_slug@ == before.tool_api_keys_by_slug@;
    let same_legacy = after.legacy_api_key == before.legacy_api_key;
    let same_token = after.sidechannel_token == before.sidechannel_token;
    if account == "api_key"@ {
        after.legacy_api_key@ == trim(value) && same_token && same_llm && same_tool
    } else if account == "sidechannel_token"@ {
        after.sidechannel_token@ == trim(value) && same_legacy && same_llm && same_tool
    } else if has_prefix(account, "llm_provider::"@) {
        after.llm_api_keys_by_provider@ == stored_entry(
            before.llm_api_keys_by_provider@,
            account.subrange(14, account.len() as int),
            value,
        ) && same_tool && same_legacy && same_token
    } else if has_prefix(account, "tool_provider::"@) {
        after.tool_api_keys_by_slug@ == stored_entry(
            before.tool_api_keys_by_slug@,
            account.subrange(15, account.len() as int),
            value,
        ) && same_llm && same_legacy && same_token
    } else {
        same_llm && same_tool && same_legacy && same_token
    }
}

/// Stores `value` (trimmed) for `account`; blank values clear keyed
/// entries.  Returns whether the bundle holds that account.
pub fn store_bundle_value_for_account(
    bundle: &mut SecureSettingsBundle,
    account: &str,
    value: &str,
) -> (r: bool)
    requires
        old(bundle).wf(),
    ensures
        final(bundle).wf(),
        r == bundle_account(account@),
        store_effect(*old(bundle), *final(bundle), account@, value@),
{
    let trimmed = trim_str(value);
    if str_equals(account, "api_key") {
        bundle.legacy_api_key = trimmed;
        return true;
    }
    if str_equals(account, "sidechannel_token") {
        bundle.sidechannel_token = trimmed;
        return true;
    }
    proof {
        reveal_strlit("llm_provider::");
        reveal_strlit("tool_provider::");
    }
    if str_starts_with(account, "llm_provider::") {
        let slug = suffix_after(account, 14);
        if trimmed.unicode_len() == 0 {
            bundle.llm_api_keys_by_provider.remove(slug.as_str());
        } else {
            bundle.llm_api_keys_by_provider.insert(slug, trimmed);
        }
        return true;
    }
    if str_starts_with(account, "tool_provider::") {
        let slug = suffix_after(account, 15);
        if trimmed.unicode_len() == 0 {
            bundle.tool_api_keys_by_slug.remove(slug.as_str());
        } else {
            bundle.tool_api_keys_by_slug.insert(slug, trimmed);
        }
        return true;
    }
    false
}

/// Reading an account back after storing a value gives the trimmed value,
/// or nothing when the value was blank.
pub proof fn lemma_store_then_read(
    before: SecureSettingsBundle,
    after: SecureSettingsBundle,
    account: Seq<char>,
    value: Seq<char>,
)
    requires
        bundle_account(account),
        store_effect(before, after, account, value),
    ensures
        bundle_value(&after, account) == if trim(value).len() > 0 {
            Some(trim(value))
        } else {
            None
        },
{
    lemma_trim_idempotent(value);
}

/// A provider slug as the bundle keys it: trimmed and lowercased.
pub open spec fn normalized_slug(slug: Seq<char>) -> Seq<char> {
    unicode_lowercase(trim(slug))
}

/// An entry survives normalizing: neither its slug nor its value is blank.
pub open spec fn entry_kept(slug: Seq<char>, value: Seq<char>) -> bool {
    normalized_slug(slug).len() > 0 && trim(value).len() > 0
}

/// `after` holds the keyed secrets of `before` normalized: slugs trimmed
/// and lowercased, values trimmed, blank entries dropped.  Where two slugs
/// normalize alike, the value of one of them stands.
pub open spec fn normalized_entries(
    before: Map<Seq<char>, Seq<char>>,
    after: Map<Seq<char>, Seq<char>>,
) -> bool {
    &&& forall|nk: Seq<char>|
        #[trigger] after.contains_key(nk) <==> exists|k: Seq<char>|
            before.contains_key(k) && entry_kept(k, before[k]) && #[trigger] normalized_slug(k) == nk
    &&& forall|nk: Seq<char>|
        #[trigger] after.contains_key(nk) ==> exists|k: Seq<char>|
            before.contains_key(k) && entry_kept(k, before[k]) && #[trigger] normalized_slug(k) == nk
                && after[nk] == trim(before[k])
}

fn normalize_entries(m: &StringMap) -> (r: StringMap)
    requires
        m.wf(),
    ensures
        r.wf(),
        normalized_entries(m@, r@),
{
    let pairs = m.pairs();
    let mut out = StringMap::new();
    let mut i: usize = 0;
    while i < pairs.len()
        invariant
            out.wf(),
            i <= pairs@.len(),
            forall|nk: Seq<char>|
                #[trigger] out@.contains_key(nk) <==> exists|j: int|
                    0 <= j < i && entry_kept(pairs@[j].0@, pairs@[j].1@) && #[trigger] normalized_slug(
                        pairs@[j].0@,
                    ) == nk,
            forall|nk: Seq<char>|
                #[trigger] out@.contains_key(nk) ==> exists|j: int|
                    0 <= j < i && entry_kept(pairs@[j].0@, pairs@[j].1@) && #[trigger] normalized_slug(
                        pairs@[j].0@,
                    ) == nk && out@[nk] == trim(pairs@[j].1@),
        decreases pairs.len() - i,
    {
        let t = trim_str(pairs[i].0.as_str());
        let ns = to_lowercase(t.as_str());
        let nv = trim_str(pairs[i].1.as_str());
        let ghost before = out@;
        let ghost p = pairs@[i as int];
        if ns.unicode_len() > 0 && nv.unicode_len() > 0 {
            out.insert(ns, nv);
            proof {
                assert(entry_kept(p.0@, p.1@));
                assert forall|nk: Seq<char>| #[trigger] out@.contains_key(nk) implies exists|j: int|
                    0 <= j < i + 1 && entry_kept(pairs@[j].0@, pairs@[j].1@)
                        && #[trigger] normalized_slug(pairs@[j].0@) == nk && out@[nk] == trim(
                        pairs@[j].1@,
                    ) by {
                    if nk == normalized_slug(p.0@) {
                        assert(normalized_slug(pairs@[i as int].0@) == nk);
                    } else {
                        assert(before.contains_key(nk));
                    }
                }
                assert forall|nk: Seq<char>|
                    (exists|j: int|
                        0 <= j < i + 1 && entry_kept(pairs@[j].0@, pairs@[j].1@)
                            && #[trigger] normalized_slug(pairs@[j].0@) == nk) implies #[trigger] out@.contains_key(
                        nk,
                    ) by {
                    let j = choose|j: int|
                        0 <= j < i + 1 && entry_kept(pairs@[j].0@, pairs@[j].1@)
                            && #[trigger] normalized_slug(pairs@[j].0@) == nk;
                    if j < i {
                        assert(before.contains_key(nk));
                    }
                }
            }
        } else {
            proof {
                assert(!entry_kept(p.0@, p.1@));
                assert forall|nk: Seq<char>|
                    (exists|j: int|
                        0 <= j < i + 1 && entry_kept(pairs@[j].0@, pairs@[j].1@)
                            && #[trigger] normalized_slug(pairs@[j].0@) == nk) implies #[trigger] out@.contains_key(
                        nk,
                    ) by {
                    let j = choose|j: int|
                        0 <= j < i + 1 && entry_kept(pairs@[j].0@, pairs@[j].1@)
                            && #[trigger] normalized_slug(pairs@[j].0@) == nk;
                    assert(j < i);
                }
                assert forall|nk: Seq<char>| #[trigger] out@.contains_key(nk) implies exists|j: int|
                    0 <= j < i + 1 && entry_kept(pairs@[j].0@, pairs@[j].1@)
                        && #[trigger] normalized_slug(pairs@[j].0@) == nk && out@[nk] == trim(
                        pairs@[j].1@,
                    ) by {
                    let j = choose|j: int|
                        0 <= j < i && entry_kept(pairs@[j].0@, pairs@[j].1@)
                            && #[trigger] normalized_slug(pairs@[j].0@) == nk && out@[nk] == trim(
                            pairs@[j].1@,
                        );
                    assert(0 <= j < i + 1);
                }
            }
        }
        i = i + 1;
    }
    proof {
        assert forall|nk: Seq<char>| #[trigger] out@.contains_key(nk) <==> exists|k: Seq<char>|
            m@.contains_key(k) && entry_kept(k, m@[k]) && #[trigger] normalized_slug(k) == nk by {
            if out@.contains_key(nk) {
                let j = choose|j: int|
                    0 <= j < pairs@.len() && entry_kept(pairs@[j].0@, pairs@[j].1@)
                        && #[trigger] normalized_slug(pairs@[j].0@) == nk;
                let k = pairs@[j].0@;
                assert(m@.contains_key(k) && m@[k] == pairs@[j].1@);
                assert(normalized_slug(k) == nk);
            }
            if exists|k: Seq<char>|
                m@.contains_key(k) && entry_kept(k, m@[k]) && #[trigger] normalized_slug(k) == nk {
                let k = choose|k: Seq<char>|
                    m@.contains_key(k) && entry_kept(k, m@[k]) && #[trigger] normalized_slug(k) == nk;
                let j = choose|j: int| 0 <= j < pairs@.len() && pairs@[j].0@ == k;
                assert(m@.contains_key(pairs@[j].0@));
                assert(normalized_slug(pairs@[j].0@) == nk);
            }
        }
        assert forall|nk: Seq<char>| #[trigger] out@.contains_key(nk) implies exists|k: Seq<char>|
            m@.contains_key(k) && entry_kept(k, m@[k]) && #[trigger] normalized_slug(k) == nk
                && out@[nk] == trim(m@[k]) by {
            let j = choose|j: int|
                0 <= j < pairs@.len() && entry_kept(pairs@[j].0@, pairs@[j].1@)
                    && #[trigger] normalized_slug(pairs@[j].0@) == nk && out@[nk] == trim(
                    pairs@[j].1@,
                );
            let k = pairs@[j].0@;
            assert(m@.contains_key(k) && m@[k] == pairs@[j].1@);
            assert(normalized_slug(k) == nk);
        }
    }
    out
}

/// The bundle as it is stored: the single secrets trimmed, the keyed ones
/// normalized.
pub fn normalize_secure_bundle(bundle: SecureSettingsBundle) -> (r: SecureSettingsBundle)
    requires
        bundle.wf(),
    ensures
        r.wf(),
        r.legacy_api_key@ == trim(bundle.legacy_api_key@),
        r.sidechannel_token@ == trim(bundle.sidechannel_token@),
        normalized_entries(bundle.llm_api_keys_by_provider@, r.llm_api_keys_by_provider@),
        normalized_entries(bundle.tool_api_keys_by_slug@, r.tool_api_keys_by_slug@),
{
    SecureSettingsBundle {
        legacy_api_key: trim_str(bundle.legacy_api_key.as_str()),
        llm_api_keys_by_provider: normalize_entries(&bundle.llm_api_keys_by_provider),
        tool_api_keys_by_slug: normalize_entries(&bundle.tool_api_keys_by_slug),
        sidechannel_token: trim_str(bundle.sidechannel_token.as_str()),
    }
}


/// A service credential slot shown in settings.
pub struct ServiceCredentialConfig {
    pub slug: String,
    pub label: String,
    pub env_var: String,
    pub enabled: bool,
}

/// A service credential as submitted from the settings form.
pub struct ServiceCredentialInput {
    pub slug: String,
    pub label: String,
    pub env_var: String,
    pub enabled: bool,
    pub api_key: Option<String>,
}

fn config(slug: &str, label: &str, env_var: &str, enabled: bool) -> (r: ServiceCredentialConfig)
    ensures
        r.slug@ == slug@,
        r.label@ == label@,
        r.env_var@ == env_var@,
        r.enabled == enabled,
{
    ServiceCredentialConfig {
        slug: owned(slug),
        label: owned(label),
        env_var: owned(env_var),
        enabled,
    }
}

pub open spec fn config_text(c: ServiceCredentialConfig) -> (Seq<char>, Seq<char>, Seq<char>, bool) {
    (c.slug@, c.label@, c.env_var@, c.enabled)
}

/// The LLM providers offered by default; only OpenAI starts enabled.
pub fn default_llm_credential_configs() -> (r: Vec<ServiceCredentialConfig>)
    ensures
        r@.map_values(|c: ServiceCredentialConfig| config_text(c)) == seq![
            ("openai"@, "OpenAI"@, "OPENAI_API_KEY"@, true),
            ("anthropic"@, "Anthropic"@, "ANTHROPIC_API_KEY"@, false),
            ("openrouter"@, "OpenRouter"@, "OPENROUTER_API_KEY"@, false),
            ("groq"@, "Groq"@, "GROQ_API_KEY"@, false),
        ],
{
    let mut r = Vec::new();
    r.push(config("openai", "OpenAI", "OPENAI_API_KEY", true));
    r.push(config("anthropic", "Anthropic", "ANTHROPIC_API_KEY", false));
    r.push(config("openrouter", "OpenRouter", "OPENROUTER_API_KEY", false));
    r.push(config("groq", "Groq", "GROQ_API_KEY", false));
    assert(r@.map_values(|c: ServiceCredentialConfig| config_text(c)) =~= seq![
        ("openai"@, "OpenAI"@, "OPENAI_API_KEY"@, true),
        ("anthropic"@, "Anthropic"@, "ANTHROPIC_API_KEY"@, false),
        ("openrouter"@, "OpenRouter"@, "OPENROUTER_API_KEY"@, false),
        ("groq"@, "Groq"@, "GROQ_API_KEY"@, false),
    ]);
    r
}

/// The tool providers offered by default, all disabled.
pub fn default_tool_credential_configs() -> (r: Vec<ServiceCredentialConfig>)
    ensures
        r@.map_values(|c: ServiceCredentialConfig| config_text(c)) == seq![
            ("tavily"@, "Tavily Search"@, "TAVILY_API_KEY"@, false),
            ("exa"@, "Exa Search"@, "EXA_API_KEY"@, false),
            ("firecrawl"@, "Firecrawl"@, "FIRECRAWL_API_KEY"@, false),
            ("replicate"@, "Replicate"@, "REPLICATE_API_TOKEN"@, false),
        ],
{
    let mut r = Vec::new();
    r.push(config("tavily", "Tavily Search", "TAVILY_API_KEY", false));
    r.push(config("exa", "Exa Search", "EXA_API_KEY", false));
    r.push(config("firecrawl", "Firecrawl", "FIRECRAWL_API_KEY", false));
    r.push(config("replicate", "Replicate", "REPLICATE_API_TOKEN", false));
    assert(r@.map_values(|c: ServiceCredentialConfig| config_text(c)) =~= seq![
        ("tavily"@, "Tavily Search"@, "TAVILY_API_KEY"@, false),
        ("exa"@, "Exa Search"@, "EXA_API_KEY"@, false),
        ("firecrawl"@, "Firecrawl"@, "FIRECRAWL_API_KEY"@, false),
        ("replicate"@, "Replicate"@, "REPLICATE_API_TOKEN"@, false),
    ]);
    r
}

fn copy_config(c: &ServiceCredentialConfig) -> (r: ServiceCredentialConfig)
    ensures
        r == *c,
{
    ServiceCredentialConfig {
        slug: c.slug.clone(),
        label: c.label.clone(),
        env_var: c.env_var.clone(),
        enabled: c.enabled,
    }
}

pub open spec fn slug_at(list: Seq<ServiceCredentialConfig>, slug: Seq<char>) -> bool {
    exists|i: int| 0 <= i < list.len() && #[trigger] list[i].slug@ == slug
}

pub open spec fn slugs_distinct(list: Seq<ServiceCredentialConfig>) -> bool {
    forall|i: int, j: int| 0 <= i < j < list.len() ==> list[i].slug@ != list[j].slug@
}

/// Replaces the entry with `c`'s slug by `c`, or appends `c`.
pub open spec fn upsert_config(list: Seq<ServiceCredentialConfig>, c: ServiceCredentialConfig) -> Seq<
    ServiceCredentialConfig,
> {
    if slug_at(list, c.slug@) {
        list.update(choose|i: int| 0 <= i < list.len() && #[trigger] list[i].slug@ == c.slug@, c)
    } else {
        list.push(c)
    }
}

/// Entries keyed by slug, later ones replacing earlier ones.
pub open spec fn merge_by_slug(items: Seq<ServiceCredentialConfig>) -> Seq<ServiceCredentialConfig>
    decreases items.len(),
{
    if items.len() == 0 {
        Seq::empty()
    } else {
        upsert_config(merge_by_slug(items.drop_last()), items.last())
    }
}

/// Entries are in non-decreasing order of label.
pub open spec fn sorted_by_label(list: Seq<ServiceCredentialConfig>) -> bool {
    forall|i: int, j: int| 0 <= i < j < list.len() ==> lex_le(list[i].label@, list[j].label@)
}

fn find_slug(list: &Vec<ServiceCredentialConfig>, slug: &String) -> (r: Option<usize>)
    ensures
        match r {
            Some(i) => i < list@.len() && list@[i as int].slug@ == slug@,
            None => !slug_at(list@, slug@),
        },
{
    let mut i: usize = 0;
    while i < list.len()
        invariant
            i <= list@.len(),
            forall|j: int| 0 <= j < i ==> #[trigger] list@[j].slug@ != slug@,
        decreases list.len() - i,
    {
        if list[i].slug == *slug {
            return Some(i);
        }
        i = i + 1;
    }
    None
}

fn upsert_exec(list: &mut Vec<ServiceCredentialConfig>, c: ServiceCredentialConfig)
    requires
        slugs_distinct(old(list)@),
    ensures
        slugs_distinct(final(list)@),
        final(list)@ == upsert_config(old(list)@, c),
{
    let ghost before = list@;
    match find_slug(list, &c.slug) {
        Some(i) => {
            proof {
                assert(slug_at(before, c.slug@));
                let k = choose|k: int| 0 <= k < before.len() && #[trigger] before[k].slug@ == c.slug@;
                if k != i {
                    if k < i {
                        assert(before[k].slug@ != before[i as int].slug@);
                    } else {
                        assert(before[i as int].slug@ != before[k].slug@);
                    }
                }
                assert(upsert_config(before, c) == before.update(i as int, c));
            }
            list.set(i, c);
            assert forall|a: int, b: int| 0 <= a < b < list@.len() implies list@[a].slug@
                != list@[b].slug@ by {
                if a != i && b != i {
                } else if a == i {
                    assert(before[a].slug@ != before[b].slug@);
                } else {
                    assert(before[a].slug@ != before[b].slug@);
                }
            }
        },
        None => {
            list.push(c);
        },
    }
}

fn insert_sorted(out: &mut Vec<ServiceCredentialConfig>, c: ServiceCredentialConfig)
    requires
        sorted_by_label(old(out)@),
    ensures
        sorted_by_label(final(out)@),
        final(out)@.to_multiset() == old(out)@.to_multiset().insert(c),
{
    let ghost before = out@;
    let mut p: usize = 0;
    while p < out.len() && str_lex_le(out[p].label.as_str(), c.label.as_str())
        invariant
            p <= out@.len(),
            out@ == before,
            forall|j: int| 0 <= j < p ==> lex_le(#[trigger] before[j].label@, c.label@),
        decreases out.len() - p,
    {
        p = p + 1;
    }
    proof {
        if p < before.len() {
            lemma_lex_le_total(before[p as int].label@, c.label@);
        }
        vstd::seq_lib::to_multiset_insert(before, p as int, c);
    }
    out.insert(p, c);
    proof {
        let after = out@;
        assert forall|a: int, b: int| 0 <= a < b < after.len() implies lex_le(
            after[a].label@,
            after[b].label@,
        ) by {
            if b < p {
                assert(after[a] == before[a] && after[b] == before[b]);
            } else if b == p {
                assert(after[a] == before[a]);
            } else if a < p {
                assert(after[a] == before[a] && after[b] == before[b - 1]);
                lemma_lex_le_total(before[p as int].label@, c.label@);
                if p < b - 1 {
                    lemma_lex_le_transitive(c.label@, before[p as int].label@, before[b - 1].label@);
                }
                lemma_lex_le_transitive(before[a].label@, c.label@, before[b - 1].label@);
            } else if a == p {
                assert(after[b] == before[b - 1]);
                lemma_lex_le_total(before[p as int].label@, c.label@);
                if p < b - 1 {
                    lemma_lex_le_transitive(c.label@, before[p as int].label@, before[b - 1].label@);
                }
            } else {
                assert(after[a] == before[a - 1] && after[b] == before[b - 1]);
            }
        }
    }
}

/// The settings list: defaults overridden slug by slug by the configured
/// entries, ordered by label.  Entries with equal labels may come in any order.
pub fn merge_service_configs(
    configured: &Vec<ServiceCredentialConfig>,
    defaults: Vec<ServiceCredentialConfig>,
) -> (r: Vec<ServiceCredentialConfig>)
    ensures
        sorted_by_label(r@),
        r@.to_multiset() == merge_by_slug(defaults@ + configured@).to_multiset(),
{
    let ghost items = defaults@ + configured@;
    let mut merged: Vec<ServiceCredentialConfig> = Vec::new();
    let mut i: usize = 0;
    assert(items.subrange(0, 0) =~= Seq::<ServiceCredentialConfig>::empty());
    while i < defaults.len()
        invariant
            i <= defaults@.len(),
            items == defaults@ + configured@,
            slugs_distinct(merged@),
            merged@ == merge_by_slug(items.subrange(0, i as int)),
        decreases defaults.len() - i,
    {
        let ghost pre = items.subrange(0, i + 1);
        assert(pre.drop_last() =~= items.subrange(0, i as int));
        assert(pre.last() == defaults@[i as int]);
        upsert_exec(&mut merged, copy_config(&defaults[i]));
        i = i + 1;
    }
    let n = defaults.len();
    let mut k: usize = 0;
    while k < configured.len()
        invariant
            k <= configured@.len(),
            n == defaults@.len(),
            items == defaults@ + configured@,
            slugs_distinct(merged@),
            merged@ == merge_by_slug(items.subrange(0, n + k)),
        decreases configured.len() - k,
    {
        let ghost pre = items.subrange(0, n + k + 1);
        assert(pre.drop_last() =~= items.subrange(0, n + k));
        assert(pre.last() == configured@[k as int]);
        upsert_exec(&mut merged, copy_config(&configured[k]));
        k = k + 1;
    }
    assert(items.subrange(0, items.len() as int) =~= items);
    let mut out: Vec<ServiceCredentialConfig> = Vec::new();
    let mut j: usize = 0;
    assert(merged@.subrange(0, 0) =~= out@);
    while j < merged.len()
        invariant
            j <= merged@.len(),
            sorted_by_label(out@),
            out@.to_multiset() == merged@.subrange(0, j as int).to_multiset(),
        decreases merged.len() - j,
    {
        let ghost pre = merged@.subrange(0, j + 1);
        assert(pre =~= merged@.subrange(0, j as int).push(merged@[j as int]));
        proof {
            vstd::seq_lib::to_multiset_build(merged@.subrange(0, j as int), merged@[j as int]);
        }
        insert_sorted(&mut out, copy_config(&merged[j]));
        j = j + 1;
    }
    assert(merged@.subrange(0, merged.len() as int) =~= merged@);
    out
}

/// Result of validating a credential input, as text.
pub open spec fn normalized_config(label_prefix: Seq<char>, input: ServiceCredentialInput) -> Result<
    (Seq<char>, Seq<char>, Seq<char>, bool),
    Seq<char>,
> {
    match slug_check(label_prefix, input.slug@) {
        Err(e) => Err(e),
        Ok(slug) => match label_check(label_prefix, input.label@) {
            Err(e) => Err(e),
            Ok(label) => match env_var_check(label_prefix, input.env_var@) {
                Err(e) => Err(e),
                Ok(env_var) => match input.api_key {
                    Some(k) => match secret_check(
                        label_prefix + " API key"@,
                        k@,
                        MAX_API_KEY_LEN as nat,
                    ) {
                        Err(e) => Err(e),
                        Ok(_) => Ok((slug, label, env_var, input.enabled)),
                    },
                    None => Ok((slug, label, env_var, input.enabled)),
                },
            },
        },
    }
}

/// Validates a submitted credential and turns it into a settings entry.
pub fn normalize_service_config(label_prefix: &str, input: &ServiceCredentialInput) -> (r: Result<
    ServiceCredentialConfig,
    String,
>)
    ensures
        match r {
            Ok(c) => normalized_config(label_prefix@, *input) == Ok::<
                (Seq<char>, Seq<char>, Seq<char>, bool),
                Seq<char>,
            >(config_text(c)),
            Err(e) => normalized_config(label_prefix@, *input) == Err::<
                (Seq<char>, Seq<char>, Seq<char>, bool),
                Seq<char>,
            >(e@),
        },
{
    let slug = match validate_slug(label_prefix, input.slug.as_str()) {
        Ok(s) => s,
        Err(e) => {
            return Err(e);
        },
    };
    let label = match validate_label(label_prefix, input.label.as_str()) {
        Ok(s) => s,
        Err(e) => {
            return Err(e);
        },
    };
    let env_var = match validate_env_var(label_prefix, input.env_var.as_str()) {
        Ok(s) => s,
        Err(e) => {
            return Err(e);
        },
    };
    match &input.api_key {
        Some(secret) => {
            let mut secret_label = owned(label_prefix);
            secret_label.append(" API key");
            match validate_secret(secret_label.as_str(), secret.as_str(), MAX_API_KEY_LEN) {
                Ok(()) => {},
                Err(e) => {
                    return Err(e);
                },
            }
        },
        None => {},
    }
    Ok(ServiceCredentialConfig { slug, label, env_var, enabled: input.enabled })
}

} // verus!
