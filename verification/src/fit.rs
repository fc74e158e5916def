//! How well a direct report fits a work order: the order's keywords matched
//! against the report's role, managed domains, skills, tools and team goals.

use vstd::prelude::*;
use crate::hsm::{qualified, rank_qualified_candidates, ranked};
use crate::orchestrator::Orchestrator;
use crate::text::{
    chars_of, contains_sub, str_contains, str_equals, string_of, to_lowercase, trim, trim_str,
    unicode_lowercase,
};
use crate::workspace::utf8_len;

verus! {

/// The Unicode `Alphabetic`-or-`Numeric` test of `char::is_alphanumeric`.
pub uninterp spec fn unicode_alphanumeric(c: char) -> bool;

/// Wrapper of `char::is_alphanumeric`: the result is named
/// `unicode_alphanumeric` of the char; the Unicode tables are not restated.
#[verifier::external_body]
fn is_alphanumeric(c: char) -> (r: bool)
    ensures
        r == unicode_alphanumeric(c),
{
    c.is_alphanumeric()
}

/// What a finished run of alphanumeric chars contributes: its trimmed,
/// lowercased form, when that takes at least 3 bytes of UTF-8.
pub open spec fn keyword_of(word: Seq<char>) -> Seq<Seq<char>> {
    let l = unicode_lowercase(trim(word));
    if utf8_len(l) >= 3 {
        seq![l]
    } else {
        Seq::empty()
    }
}

/// The keywords of `s` when the run `word` stands just before it: `s` is
/// split at every char that is not alphanumeric.
pub open spec fn keywords_after(word: Seq<char>, s: Seq<char>) -> Seq<Seq<char>>
    decreases s.len(),
{
    if s.len() == 0 {
        keyword_of(word)
    } else if unicode_alphanumeric(s[0]) {
        keywords_after(word.push(s[0]), s.drop_first())
    } else {
        keyword_of(word) + keywords_after(Seq::empty(), s.drop_first())
    }
}

/// The keywords of a work order's payload.
pub open spec fn payload_keywords_of(s: Seq<char>) -> Seq<Seq<char>> {
    keywords_after(Seq::empty(), s)
}

/// Each split point yields at most one keyword.
pub proof fn lemma_keyword_count(word: Seq<char>, s: Seq<char>)
    ensures
        keywords_after(word, s).len() <= s.len() + 1,
    decreases s.len(),
{
    if s.len() > 0 {
        if unicode_alphanumeric(s[0]) {
            lemma_keyword_count(word.push(s[0]), s.drop_first());
        } else {
            lemma_keyword_count(Seq::empty(), s.drop_first());
        }
    }
}

fn push_keyword(out: &mut Vec<String>, word: &Vec<char>)
    ensures
        final(out).deep_view() == old(out).deep_view() + keyword_of(word@),
{
    let w = string_of(word);
    let t = trim_str(w.as_str());
    let l = to_lowercase(t.as_str());
    if l.as_str().as_bytes().len() >= 3 {
        let ghost before = out.deep_view();
        out.push(l);
        proof {
            assert(out.deep_view() =~= before + keyword_of(word@));
        }
    } else {
        proof {
            assert(out.deep_view() =~= out.deep_view() + keyword_of(word@));
        }
    }
}

/// At least one item of `items`, lowercased, contains `kw`.
pub open spec fn any_contains(items: Seq<String>, kw: Seq<char>) -> bool {
    exists|j: int| 0 <= j < items.len() && contains_sub(unicode_lowercase(#[trigger] items[j]@), kw)
}

/// Points one keyword earns: 3 for the role, 4 for a managed domain, 2 for
/// a skill, 1 for a tool and 2 for a team goal.
pub open spec fn keyword_points(
    kw: Seq<char>,
    role_lower: Seq<char>,
    domains: Seq<String>,
    skills: Seq<String>,
    tools: Seq<String>,
    goals: Seq<String>,
) -> int {
    (if contains_sub(role_lower, kw) {
        3int
    } else {
        0
    }) + (if any_contains(domains, kw) {
        4int
    } else {
        0
    }) + (if any_contains(skills, kw) {
        2int
    } else {
        0
    }) + (if any_contains(tools, kw) {
        1int
    } else {
        0
    }) + (if any_contains(goals, kw) {
        2int
    } else {
        0
    })
}

pub open spec fn points_sum(
    kws: Seq<Seq<char>>,
    role_lower: Seq<char>,
    domains: Seq<String>,
    skills: Seq<String>,
    tools: Seq<String>,
    goals: Seq<String>,
) -> int
    decreases kws.len(),
{
    if kws.len() == 0 {
        0
    } else {
        points_sum(kws.drop_last(), role_lower, domains, skills, tools, goals) + keyword_points(
            kws.last(),
            role_lower,
            domains,
            skills,
            tools,
            goals,
        )
    }
}

/// A report's fit for a work order: the points its keywords earn, less one
/// when the report is offline or stale.
pub open spec fn fit_score(
    kws: Seq<Seq<char>>,
    role: Seq<char>,
    domains: Seq<String>,
    skills: Seq<String>,
    tools: Seq<String>,
    goals: Seq<String>,
    presence: Seq<char>,
) -> int {
    (if presence == "OFFLINE"@ || presence == "STALE"@ {
        -1int
    } else {
        0
    }) + points_sum(kws, unicode_lowercase(role), domains, skills, tools, goals)
}

proof fn lemma_points_bounds(
    kws: Seq<Seq<char>>,
    role_lower: Seq<char>,
    domains: Seq<String>,
    skills: Seq<String>,
    tools: Seq<String>,
    goals: Seq<String>,
)
    ensures
        0 <= points_sum(kws, role_lower, domains, skills, tools, goals) <= 12 * kws.len(),
    decreases kws.len(),
{
    if kws.len() > 0 {
        lemma_points_bounds(kws.drop_last(), role_lower, domains, skills, tools, goals);
    }
}

fn any_contains_exec(items: &Vec<String>, kw: &str) -> (r: bool)
    ensures
        r == any_contains(items@, kw@),
{
    let mut j: usize = 0;
    while j < items.len()
        invariant
            j <= items.len(),
            forall|k: int|
                0 <= k < j ==> !contains_sub(unicode_lowercase(#[trigger] items@[k]@), kw@),
        decreases items.len() - j,
    {
        let lowered = to_lowercase(items[j].as_str());
        if str_contains(lowered.as_str(), kw) {
            return true;
        }
        j = j + 1;
    }
    false
}

/// A direct report as the fit score sees it.
pub struct DirectReportFit {
    pub id: String,
    pub name: String,
    pub role: String,
    pub managed_domains: Vec<String>,
    pub skill_names: Vec<String>,
    pub tool_names: Vec<String>,
    pub team_goal_text: Vec<String>,
    pub presence: String,
}

/// Most keywords a fit score is computed over.
pub const MAX_FIT_KEYWORDS: usize = 100_000_000;

impl Orchestrator {
    /// The keywords of a work order's payload: its runs of alphanumeric
    /// chars, trimmed and lowercased, that take at least 3 bytes.
    pub fn payload_keywords(payload: &str) -> (r: Vec<String>)
        ensures
            r.deep_view() == payload_keywords_of(payload@),
    {
        let v = chars_of(payload);
        let mut out: Vec<String> = Vec::new();
        let mut word: Vec<char> = Vec::new();
        let mut i: usize = 0;
        proof {
            assert(v@.skip(0) =~= v@);
            assert(out.deep_view() + keywords_after(word@, v@.skip(0)) =~= payload_keywords_of(
                payload@,
            ));
        }
        while i < v.len()
            invariant
                i <= v.len(),
                v@ == payload@,
                out.deep_view() + keywords_after(word@, v@.skip(i as int)) == payload_keywords_of(
                    payload@,
                ),
            decreases v.len() - i,
        {
            let c = v[i];
            let ghost rest = v@.skip(i as int);
            proof {
                assert(rest[0] == c);
                assert(rest.drop_first() =~= v@.skip(i + 1));
            }
            if is_alphanumeric(c) {
                word.push(c);
            } else {
                let ghost before = out.deep_view();
                let ghost w = word@;
                push_keyword(&mut out, &word);
                word = Vec::new();
                proof {
                    assert(keywords_after(w, rest) == keyword_of(w) + keywords_after(
                        Seq::empty(),
                        rest.drop_first(),
                    ));
                    assert(out.deep_view() + keywords_after(word@, v@.skip(i + 1)) =~= before
                        + keywords_after(w, rest));
                }
            }
            i = i + 1;
        }
        proof {
            assert(v@.skip(i as int).len() == 0);
        }
        let ghost before = out.deep_view();
        push_keyword(&mut out, &word);
        proof {
            assert(out.deep_view() =~= before + keywords_after(word@, v@.skip(i as int)));
        }
        out
    }

    /// How well a direct report fits a work order with the given keywords.
    pub fn direct_report_fit_score(
        payload_keywords: &Vec<String>,
        report_role: &str,
        managed_domains: &Vec<String>,
        skill_names: &Vec<String>,
        tool_names: &Vec<String>,
        team_goal_text: &Vec<String>,
        presence: &str,
    ) -> (r: i32)
        requires
            payload_keywords@.len() <= MAX_FIT_KEYWORDS,
        ensures
            r == fit_score(
                payload_keywords.deep_view(),
                report_role@,
                managed_domains@,
                skill_names@,
                tool_names@,
                team_goal_text@,
                presence@,
            ),
    {
        let role = to_lowercase(report_role);
        let ghost kws = payload_keywords.deep_view();
        let mut score: i32 = 0;
        if str_equals(presence, "OFFLINE") || str_equals(presence, "STALE") {
            score = -1;
        }
        let ghost base: int = score as int;
        let mut i: usize = 0;
        while i < payload_keywords.len()
            invariant
                i <= payload_keywords@.len(),
                payload_keywords@.len() <= MAX_FIT_KEYWORDS,
                kws == payload_keywords.deep_view(),
                -1 <= base <= 0,
                score == base + points_sum(
                    kws.take(i as int),
                    role@,
                    managed_domains@,
                    skill_names@,
                    tool_names@,
                    team_goal_text@,
                ),
            decreases payload_keywords.len() - i,
        {
            let kw = payload_keywords[i].as_str();
            proof {
                lemma_points_bounds(
                    kws.take(i as int),
                    role@,
                    managed_domains@,
                    skill_names@,
                    tool_names@,
                    team_goal_text@,
                );
                assert(kws.take(i + 1).drop_last() =~= kws.take(i as int));
                assert(kws[i as int] == kw@);
            }
            if str_contains(role.as_str(), kw) {
                score = score + 3;
            }
            if any_contains_exec(managed_domains, kw) {
                score = score + 4;
            }
            if any_contains_exec(skill_names, kw) {
                score = score + 2;
            }
            if any_contains_exec(tool_names, kw) {
                score = score + 1;
            }
            if any_contains_exec(team_goal_text, kw) {
                score = score + 2;
            }
            i = i + 1;
        }
        proof {
            assert(kws.take(i as int) =~= kws);
        }
        score
    }
}

/// A report as the ranking sees it: its id, its name and its fit score.
pub open spec fn scored_report(kws: Seq<Seq<char>>, rep: DirectReportFit) -> (String, String, i32) {
    (
        rep.id,
        rep.name,
        fit_score(
            kws,
            rep.role@,
            rep.managed_domains@,
            rep.skill_names@,
            rep.tool_names@,
            rep.team_goal_text@,
            rep.presence@,
        ) as i32,
    )
}

/// The direct reports qualified for a work order with this payload, best
/// fit first and then by name.
pub fn qualified_direct_reports(payload: &str, reports: &Vec<DirectReportFit>) -> (r: Vec<
    (String, String, i32),
>)
    requires
        payload@.len() < MAX_FIT_KEYWORDS,
    ensures
        ranked(r@),
        r@.to_multiset() == qualified(
            reports@.map_values(|rep: DirectReportFit| scored_report(payload_keywords_of(payload@), rep)),
        ).to_multiset(),
{
    let keywords = Orchestrator::payload_keywords(payload);
    let ghost kws = keywords.deep_view();
    proof {
        lemma_keyword_count(Seq::empty(), payload@);
    }
    let mut scored: Vec<(String, String, i32)> = Vec::new();
    let mut i: usize = 0;
    while i < reports.len()
        invariant
            i <= reports@.len(),
            kws == keywords.deep_view(),
            kws == payload_keywords_of(payload@),
            keywords@.len() <= MAX_FIT_KEYWORDS,
            scored@ == reports@.take(i as int).map_values(
                |rep: DirectReportFit| scored_report(kws, rep),
            ),
        decreases reports.len() - i,
    {
        let rep = &reports[i];
        let score = Orchestrator::direct_report_fit_score(
            &keywords,
            rep.role.as_str(),
            &rep.managed_domains,
            &rep.skill_names,
            &rep.tool_names,
            &rep.team_goal_text,
            rep.presence.as_str(),
        );
        let ghost before = scored@;
        scored.push((rep.id.clone(), rep.name.clone(), score));
        proof {
            assert(scored_report(kws, *rep) == (rep.id, rep.name, score));
            assert(reports@.take(i + 1) =~= reports@.take(i as int).push(*rep));
            assert(scored@ =~= reports@.take(i + 1).map_values(
                |rep: DirectReportFit| scored_report(kws, rep),
            ));
        }
        i = i + 1;
    }
    proof {
        assert(reports@.take(i as int) =~= reports@);
    }
    rank_qualified_candidates(scored)
}

proof fn lemma_keyword_of_long(word: Seq<char>)
    ensures
        forall|k: int|
            0 <= k < keyword_of(word).len() ==> utf8_len(#[trigger] keyword_of(word)[k]) >= 3,
{
    let l = unicode_lowercase(trim(word));
    if utf8_len(l) >= 3 {
        assert(keyword_of(word) =~= seq![l]);
    } else {
        assert(keyword_of(word).len() == 0);
    }
}

/// Every keyword takes at least 3 bytes of UTF-8.
pub proof fn lemma_keywords_long(word: Seq<char>, s: Seq<char>)
    ensures
        forall|k: int|
            0 <= k < keywords_after(word, s).len() ==> utf8_len(
                #[trigger] keywords_after(word, s)[k],
            ) >= 3,
    decreases s.len(),
{
    if s.len() == 0 {
        lemma_keyword_of_long(word);
        assert(keywords_after(word, s) == keyword_of(word));
    } else {
        if unicode_alphanumeric(s[0]) {
            lemma_keywords_long(word.push(s[0]), s.drop_first());
            assert(keywords_after(word, s) == keywords_after(word.push(s[0]), s.drop_first()));
        } else {
            lemma_keywords_long(Seq::empty(), s.drop_first());
            lemma_keyword_of_long(word);
            let a = keyword_of(word);
            let b = keywords_after(Seq::empty(), s.drop_first());
            assert forall|k: int| 0 <= k < (a + b).len() implies utf8_len(#[trigger] (a + b)[k]) >= 3 by {
                if k >= a.len() {
                    assert((a + b)[k] == b[k - a.len()]);
                } else {
                    assert((a + b)[k] == a[k]);
                }
            }
            assert(keywords_after(word, s) == a + b);
        }
    }
}

/// Presence only breaks ties: an offline or stale report scores exactly one
/// point less than the same report online.
pub proof fn lemma_presence_tiebreak(
    kws: Seq<Seq<char>>,
    role: Seq<char>,
    domains: Seq<String>,
    skills: Seq<String>,
    tools: Seq<String>,
    goals: Seq<String>,
    presence: Seq<char>,
)
    requires
        presence == "OFFLINE"@ || presence == "STALE"@,
    ensures
        fit_score(kws, role, domains, skills, tools, goals, presence) == fit_score(
            kws,
            role,
            domains,
            skills,
            tools,
            goals,
            "READY"@,
        ) - 1,
{
    reveal_strlit("READY");
    reveal_strlit("OFFLINE");
    reveal_strlit("STALE");
    assert("READY"@ != "OFFLINE"@) by {
        assert("READY"@.len() != "OFFLINE"@.len());
    }
    assert("READY"@ != "STALE"@) by {
        assert("READY"@[0] != "STALE"@[0]);
    }
}

/// Whether a manager must hand work to a direct report that fits it.
pub fn manager_requires_delegation(org_class: &str, delegation_policy: &str) -> (r: bool)
    ensures
        r == (org_class@ == "manager"@ && delegation_policy@ == "must_delegate_when_fit_exists"@),
{
    str_equals(org_class, "manager") && str_equals(delegation_policy, "must_delegate_when_fit_exists")
}


/// How many of the keywords occur (case-insensitively) in some tool name.
pub open spec fn tool_hits(kws: Seq<Seq<char>>, tools: Seq<String>) -> int
    decreases kws.len(),
{
    if kws.len() == 0 {
        0
    } else {
        tool_hits(kws.drop_last(), tools) + if any_contains(tools, kws.last()) {
            1int
        } else {
            0
        }
    }
}

/// Tool names earn one point for every keyword that occurs in one of them,
/// on top of what the role, domains, skills and goals earn: a report's fit
/// is its fit without tools plus the keywords its tools match.
pub proof fn lemma_tool_points(
    kws: Seq<Seq<char>>,
    role: Seq<char>,
    domains: Seq<String>,
    skills: Seq<String>,
    tools: Seq<String>,
    goals: Seq<String>,
    presence: Seq<char>,
)
    ensures
        fit_score(kws, role, domains, skills, tools, goals, presence) == fit_score(
            kws,
            role,
            domains,
            skills,
            Seq::empty(),
            goals,
            presence,
        ) + tool_hits(kws, tools),
    decreases kws.len(),
{
    lemma_tool_points_sum(kws, unicode_lowercase(role), domains, skills, tools, goals);
}

proof fn lemma_tool_points_sum(
    kws: Seq<Seq<char>>,
    role_lower: Seq<char>,
    domains: Seq<String>,
    skills: Seq<String>,
    tools: Seq<String>,
    goals: Seq<String>,
)
    ensures
        points_sum(kws, role_lower, domains, skills, tools, goals) == points_sum(
            kws,
            role_lower,
            domains,
            skills,
            Seq::empty(),
            goals,
        ) + tool_hits(kws, tools),
    decreases kws.len(),
{
    if kws.len() > 0 {
        lemma_tool_points_sum(kws.drop_last(), role_lower, domains, skills, tools, goals);
        assert(!any_contains(Seq::<String>::empty(), kws.last()));
    }
}

} // verus!
