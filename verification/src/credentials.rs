//! Which credentials the kernel boots with: the default provider, whether
//! it has a usable secret, and the provider keys and sidechannel token the
//! stored secrets give.

use vstd::prelude::*;
use crate::string_map::StringMap;
use crate::text::{owned, str_equals, to_lowercase, trim, trim_str, unicode_lowercase};

verus! {

/// The provider used when the settings name none.
pub const DEFAULT_LLM_PROVIDER: &'static str = "anthropic";

/// `s` holds more than whitespace.
pub open spec fn nonblank(s: Seq<char>) -> bool {
    trim(s).len() > 0
}

pub open spec fn opt_nonblank(s: Option<Seq<char>>) -> bool {
    s matches Some(v) && nonblank(v)
}

pub open spec fn opt_str(s: Option<&str>) -> Option<Seq<char>> {
    match s {
        Some(v) => Some(v@),
        None => None,
    }
}

fn opt_nonblank_exec(s: Option<&str>) -> (r: bool)
    ensures
        r == opt_nonblank(opt_str(s)),
{
    match s {
        Some(v) => trim_str(v).unicode_len() > 0,
        None => false,
    }
}

/// The default provider a setting names: trimmed and lowercased, or
/// `DEFAULT_LLM_PROVIDER` when blank.
pub open spec fn default_provider_of(setting: Seq<char>) -> Seq<char> {
    if trim(setting).len() == 0 {
        "anthropic"@
    } else {
        unicode_lowercase(trim(setting))
    }
}

pub fn default_llm_provider(setting: &str) -> (r: String)
    ensures
        r@ == default_provider_of(setting@),
{
    let t = trim_str(setting);
    if t.unicode_len() == 0 {
        owned(DEFAULT_LLM_PROVIDER)
    } else {
        to_lowercase(t.as_str())
    }
}

/// Whether an LLM credential slot has a usable secret: its own stored
/// secret, or for the default provider also the legacy key or the key
/// written in the configuration.
pub open spec fn llm_slot_has_secret(
    slug: Seq<char>,
    provider_secret: Option<Seq<char>>,
    legacy_secret: Option<Seq<char>>,
    config_api_key: Seq<char>,
) -> bool {
    if slug == "anthropic"@ {
        opt_nonblank(provider_secret) || opt_nonblank(legacy_secret) || nonblank(config_api_key)
    } else {
        opt_nonblank(provider_secret)
    }
}

pub fn llm_credential_has_secret(
    slug: &str,
    provider_secret: Option<&str>,
    legacy_secret: Option<&str>,
    config_api_key: &str,
) -> (r: bool)
    ensures
        r == llm_slot_has_secret(slug@, opt_str(provider_secret), opt_str(legacy_secret), config_api_key@),
{
    if str_equals(slug, DEFAULT_LLM_PROVIDER) {
        opt_nonblank_exec(provider_secret) || opt_nonblank_exec(legacy_secret) || trim_str(
            config_api_key,
        ).unicode_len() > 0
    } else {
        opt_nonblank_exec(provider_secret)
    }
}

/// Whether the kernel can boot: the default provider's slot has a secret.
pub fn default_provider_bootable(slots: &Vec<(String, bool)>, default_provider: &str) -> (r: bool)
    ensures
        r == exists|i: int| 0 <= i < slots@.len() && #[trigger] slots@[i].0@ == default_provider@ && slots@[i].1,
{
    let mut i: usize = 0;
    while i < slots.len()
        invariant
            i <= slots@.len(),
            forall|j: int|
                0 <= j < i ==> !(#[trigger] slots@[j].0@ == default_provider@ && slots@[j].1),
        decreases slots.len() - i,
    {
        if slots[i].1 && str_equals(slots[i].0.as_str(), default_provider) {
            return true;
        }
        i = i + 1;
    }
    false
}

/// Provider keys from the stored secrets, in slot order: each slot whose
/// secret is not blank, a later slot of the same slug overriding.
pub open spec fn loaded_keys(loaded: Seq<(String, Option<String>)>) -> Map<Seq<char>, Seq<char>>
    decreases loaded.len(),
{
    if loaded.len() == 0 {
        Map::empty()
    } else {
        let m = loaded_keys(loaded.drop_last());
        let (slug, secret) = loaded.last();
        match secret {
            Some(s) => if nonblank(s@) {
                m.insert(slug@, s@)
            } else {
                m
            },
            None => m,
        }
    }
}

/// The legacy key: the configuration's own key, trimmed, when it has one;
/// else the stored legacy secret.
pub open spec fn legacy_key(config_api_key: Seq<char>, stored_legacy: Option<Seq<char>>) -> Option<
    Seq<char>,
> {
    if nonblank(config_api_key) {
        Some(trim(config_api_key))
    } else {
        stored_legacy
    }
}

/// The provider keys the kernel gets: the loaded ones, and the legacy key
/// for the default provider unless it has its own.
pub open spec fn runtime_keys(
    loaded: Seq<(String, Option<String>)>,
    legacy: Option<Seq<char>>,
) -> Map<Seq<char>, Seq<char>> {
    let m = loaded_keys(loaded);
    match legacy {
        Some(l) => if nonblank(l) && !m.contains_key("anthropic"@) {
            m.insert("anthropic"@, l)
        } else {
            m
        },
        None => m,
    }
}

/// `pairs` lists the entries of `m`, each key once.
pub open spec fn lists_map(pairs: Seq<(String, String)>, m: Map<Seq<char>, Seq<char>>) -> bool {
    &&& forall|i: int|
        0 <= i < pairs.len() ==> m.contains_key(#[trigger] pairs[i].0@) && m[pairs[i].0@]
            == pairs[i].1@
    &&& forall|i: int, j: int| 0 <= i < j < pairs.len() ==> #[trigger] pairs[i].0@ != #[trigger] pairs[j].0@
    &&& forall|k: Seq<char>|
        #[trigger] m.contains_key(k) ==> exists|i: int| 0 <= i < pairs.len() && pairs[i].0@ == k
}

/// The LLM credentials a kernel boots with.
pub struct RuntimeLlmKeys {
    pub keys_by_provider: Vec<(String, String)>,
    pub default_key: String,
}

pub open spec fn opt_string(s: Option<String>) -> Option<Seq<char>> {
    match s {
        Some(v) => Some(v@),
        None => None,
    }
}

/// The provider keys and the default key from the secrets loaded for each
/// LLM slot.  The default key is the default provider's, else the legacy
/// key, else the key of some provider; with none of these there is no
/// usable provider.
pub fn runtime_llm_keys(
    loaded: &Vec<(String, Option<String>)>,
    config_api_key: &str,
    stored_legacy: Option<&str>,
    default_setting: &str,
) -> (r: Result<RuntimeLlmKeys, String>)
    ensures
        ({
            let legacy = legacy_key(config_api_key@, opt_str(stored_legacy));
            let m = runtime_keys(loaded@, legacy);
            let dp = default_provider_of(default_setting@);
            &&& (r is Err) <==> (legacy is None && m.dom() == Set::<Seq<char>>::empty())
            &&& r matches Err(e) ==> e@
                == "No usable LLM provider is configured for the default provider."@
            &&& r matches Ok(k) ==> {
                &&& lists_map(k.keys_by_provider@, m)
                &&& if m.contains_key(dp) {
                    k.default_key@ == m[dp]
                } else if legacy is Some {
                    k.default_key@ == legacy->0
                } else {
                    exists|key: Seq<char>| m.contains_key(key) && k.default_key@ == m[key]
                }
            }
        }),
{
    let mut keys = StringMap::new();
    let mut i: usize = 0;
    while i < loaded.len()
        invariant
            i <= loaded@.len(),
            keys.wf(),
            keys@ == loaded_keys(loaded@.take(i as int)),
        decreases loaded.len() - i,
    {
        proof {
            assert(loaded@.take(i + 1).drop_last() =~= loaded@.take(i as int));
            assert(loaded@.take(i + 1).last() == loaded@[i as int]);
        }
        match &loaded[i].1 {
            Some(secret) => {
                if trim_str(secret.as_str()).unicode_len() > 0 {
                    keys.insert(loaded[i].0.clone(), secret.clone());
                }
            },
            None => {},
        }
        i = i + 1;
    }
    proof {
        assert(loaded@.take(i as int) =~= loaded@);
    }
    let legacy: Option<String> = {
        let t = trim_str(config_api_key);
        if t.unicode_len() > 0 {
            Some(t)
        } else {
            match stored_legacy {
                Some(s) => Some(owned(s)),
                None => None,
            }
        }
    };
    let ghost legacy_view = legacy_key(config_api_key@, opt_str(stored_legacy));
    assert(opt_string(legacy) == legacy_view);
    proof {
        reveal_strlit("anthropic");
    }
    match &legacy {
        Some(l) => {
            if trim_str(l.as_str()).unicode_len() > 0 {
                match keys.get(DEFAULT_LLM_PROVIDER) {
                    Some(_) => {},
                    None => keys.insert(owned(DEFAULT_LLM_PROVIDER), l.clone()),
                }
            }
        },
        None => {},
    }
    let ghost m = runtime_keys(loaded@, legacy_view);
    assert(keys@ == m);
    let dp = default_llm_provider(default_setting);
    let pairs = keys.pairs();
    let default_key = match keys.get(dp.as_str()) {
        Some(k) => k,
        None => match legacy {
            Some(l) => l,
            None => {
                if pairs.len() == 0 {
                    proof {
                        assert forall|k: Seq<char>| !m.contains_key(k) by {
                            if m.contains_key(k) {
                                let i = choose|i: int| 0 <= i < pairs@.len() && pairs@[i].0@ == k;
                            }
                        }
                        assert(m.dom() =~= Set::<Seq<char>>::empty());
                    }
                    return Err(owned("No usable LLM provider is configured for the default provider."));
                }
                proof {
                    assert(m.contains_key(pairs@[0].0@));
                }
                pairs[0].1.clone()
            },
        },
    };
    proof {
        if legacy_view is None {
            assert(m.dom() != Set::<Seq<char>>::empty()) by {
                if m.contains_key(dp@) {
                    assert(m.dom().contains(dp@));
                } else {
                    assert(m.dom().contains(pairs@[0].0@));
                }
            }
        }
    }
    Ok(RuntimeLlmKeys { keys_by_provider: pairs, default_key })
}

/// The sidechannel token from storage or the configuration; none when both
/// are blank and a fresh one must be made.
pub fn configured_sidechannel_token(stored: Option<&str>, config_token: &str) -> (r: Option<String>)
    ensures
        match stored {
            Some(t) if nonblank(t@) => r matches Some(v) && v@ == t@,
            _ => if nonblank(config_token@) {
                r matches Some(v) && v@ == trim(config_token@)
            } else {
                r is None
            },
        },
{
    match stored {
        Some(t) => {
            if trim_str(t).unicode_len() > 0 {
                return Some(owned(t));
            }
        },
        None => {},
    }
    let c = trim_str(config_token);
    if c.unicode_len() > 0 {
        Some(c)
    } else {
        None
    }
}

/// `x` is the view of one of the strings.
pub open spec fn listed(s: Seq<String>, x: Seq<char>) -> bool {
    exists|i: int| 0 <= i < s.len() && #[trigger] s[i]@ == x
}

/// `x` is a non-blank slug among the first `n`.
pub open spec fn bound_before(slugs: Seq<String>, n: int, x: Seq<char>) -> bool {
    nonblank(x) && exists|k: int| 0 <= k < n && #[trigger] slugs[k]@ == x
}

/// The tool providers agents are bound to: each non-blank slug once, in the
/// order first met.
pub fn bound_tool_providers(slugs: &Vec<String>) -> (r: Vec<String>)
    ensures
        forall|a: int, b: int| 0 <= a < b < r@.len() ==> #[trigger] r@[a]@ != #[trigger] r@[b]@,
        forall|x: Seq<char>|
            #![trigger listed(r@, x)]
            #![trigger bound_before(slugs@, slugs@.len() as int, x)]
            listed(r@, x) <==> bound_before(slugs@, slugs@.len() as int, x),
{
    let mut out: Vec<String> = Vec::new();
    let mut j: usize = 0;
    while j < slugs.len()
        invariant
            j <= slugs@.len(),
            forall|a: int, b: int| 0 <= a < b < out@.len() ==> #[trigger] out@[a]@ != #[trigger] out@[b]@,
            forall|x: Seq<char>|
                #![trigger listed(out@, x)]
                #![trigger bound_before(slugs@, j as int, x)]
                listed(out@, x) <==> bound_before(slugs@, j as int, x),
        decreases slugs.len() - j,
    {
        let s = &slugs[j];
        let ghost before = out@;
        if trim_str(s.as_str()).unicode_len() > 0 {
            let mut seen = false;
            let mut i: usize = 0;
            while i < out.len()
                invariant
                    i <= out@.len(),
                    out@ == before,
                    seen <==> exists|p: int| 0 <= p < i && #[trigger] out@[p]@ == s@,
                decreases out.len() - i,
            {
                if str_equals(out[i].as_str(), s.as_str()) {
                    seen = true;
                }
                i = i + 1;
            }
            if !seen {
                out.push(s.clone());
                proof {
                    assert forall|a: int, b: int| 0 <= a < b < out@.len() implies #[trigger] out@[a]@
                        != #[trigger] out@[b]@ by {
                        if b == out@.len() - 1 {
                            assert(out@[a] == before[a]);
                        } else {
                            assert(out@[a] == before[a] && out@[b] == before[b]);
                        }
                    }
                }
            }
            proof {
                assert forall|x: Seq<char>|
                    listed(out@, x) <==> bound_before(slugs@, j + 1, x) by {
                    if listed(out@, x) {
                        let i = choose|i: int| 0 <= i < out@.len() && #[trigger] out@[i]@ == x;
                        if i < before.len() {
                            assert(before[i]@ == x);
                            assert(listed(before, x));
                        } else {
                            assert(slugs@[j as int]@ == x);
                        }
                    }
                    if bound_before(slugs@, j + 1, x) {
                        let k = choose|k: int| 0 <= k < j + 1 && #[trigger] slugs@[k]@ == x;
                        if k < j {
                            assert(bound_before(slugs@, j as int, x));
                            let i = choose|i: int| 0 <= i < before.len() && #[trigger] before[i]@ == x;
                            assert(out@[i] == before[i]);
                        } else if seen {
                            let p = choose|p: int| 0 <= p < before.len() && #[trigger] before[p]@ == s@;
                            assert(out@[p] == before[p]);
                        } else {
                            assert(out@[out@.len() - 1]@ == x);
                        }
                    }
                }
            }
        } else {
            proof {
                assert forall|x: Seq<char>|
                    listed(out@, x) <==> bound_before(slugs@, j + 1, x) by {
                    if bound_before(slugs@, j + 1, x) {
                        let k = choose|k: int| 0 <= k < j + 1 && #[trigger] slugs@[k]@ == x;
                        assert(k < j);
                        assert(bound_before(slugs@, j as int, x));
                    }
                }
            }
        }
        j = j + 1;
    }
    out
}

} // verus!
