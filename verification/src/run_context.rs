//! Texts handed to a worker run: the run context written into its runtime
//! bundle, and the payload of a manual proactive review.

use vstd::prelude::*;
use crate::text::{join, join_strings, owned};

verus! {

/// One skill offered to a run: its name and summary, whether it was
/// preselected, and where its text was written for the run, if it was.
pub struct SkillIndexLine {
    pub name: String,
    pub summary: String,
    pub preselected: bool,
    pub runtime_path: Option<String>,
}

/// How a skill is listed in the run context.
pub open spec fn skill_line(s: SkillIndexLine) -> Seq<char> {
    let marker = if s.preselected {
        "preselected"@
    } else {
        "available"@
    };
    match s.runtime_path {
        Some(p) => "- "@ + s.name@ + " ["@ + marker + "] :: "@ + s.summary@ + " (path: "@ + p@ + ")"@,
        None => "- "@ + s.name@ + " ["@ + marker + "] :: "@ + s.summary@,
    }
}

/// The skills section: one line per skill, or `- none`.
pub open spec fn skill_lines(skills: Seq<SkillIndexLine>) -> Seq<char> {
    if skills.len() == 0 {
        "- none"@
    } else {
        join(skills.map_values(|s: SkillIndexLine| skill_line(s)), "\n"@)
    }
}

/// The `RUN_CONTEXT.md` text of a run.
pub open spec fn run_context_spec(
    name: Seq<char>,
    role: Seq<char>,
    mode: Seq<char>,
    mission: Seq<char>,
    skills: Seq<SkillIndexLine>,
) -> Seq<char> {
    "# Run Context\n\nName: "@ + name + "\nRole: "@ + role + "\nMode: "@ + mode + "\nMission: "@
        + mission
        + "\n\nThis bundle is derived from the kernel DB for the current run only.\n\n## Skills\n"@
        + skill_lines(skills) + "\n"@
}

fn skill_line_exec(s: &SkillIndexLine) -> (r: String)
    ensures
        r@ == skill_line(*s),
{
    let mut r = owned("- ");
    r.append(s.name.as_str());
    r.append(" [");
    if s.preselected {
        r.append("preselected");
    } else {
        r.append("available");
    }
    r.append("] :: ");
    r.append(s.summary.as_str());
    match &s.runtime_path {
        Some(p) => {
            r.append(" (path: ");
            r.append(p.as_str());
            r.append(")");
        },
        None => {},
    }
    r
}

/// The `RUN_CONTEXT.md` text of a run: who runs, in which mode, on which
/// mission, and the skills on offer.
pub fn run_context_text(
    name: &str,
    role: &str,
    mode: &str,
    mission: &str,
    skills: &Vec<SkillIndexLine>,
) -> (r: String)
    ensures
        r@ == run_context_spec(name@, role@, mode@, mission@, skills@),
{
    let lines = if skills.len() == 0 {
        owned("- none")
    } else {
        let mut parts: Vec<String> = Vec::new();
        let mut i: usize = 0;
        while i < skills.len()
            invariant
                i <= skills.len(),
                parts.deep_view() == skills@.take(i as int).map_values(
                    |s: SkillIndexLine| skill_line(s),
                ),
            decreases skills.len() - i,
        {
            let ghost prev = parts.deep_view();
            let line = skill_line_exec(&skills[i]);
            parts.push(line);
            proof {
                assert(parts.deep_view() =~= prev.push(line@));
                assert(line@ == skill_line(skills@[i as int]));
                assert(skills@.take(i + 1) =~= skills@.take(i as int).push(skills@[i as int]));
                assert(parts.deep_view() =~= skills@.take(i + 1).map_values(
                    |s: SkillIndexLine| skill_line(s),
                ));
            }
            i = i + 1;
        }
        assert(skills@.take(skills.len() as int) =~= skills@);
        join_strings(&parts, "\n")
    };
    let mut r = owned("# Run Context\n\nName: ");
    r.append(name);
    r.append("\nRole: ");
    r.append(role);
    r.append("\nMode: ");
    r.append(mode);
    r.append("\nMission: ");
    r.append(mission);
    r.append("\n\nThis bundle is derived from the kernel DB for the current run only.\n\n## Skills\n");
    r.append(lines.as_str());
    r.append("\n");
    r
}

/// The payload of a manual proactive review of an agent.
pub fn manual_review_payload(name: &str, role: &str, raison_detre: &str) -> (r: String)
    ensures
        r@ == "MANUAL PROACTIVE REVIEW\nAgent: "@ + name@ + " ("@ + role@ + ")\nMission: "@
            + raison_detre@
            + "\nTask: Review your mission, current queue, and likely blind spots. Produce a concrete review result. If you identify a worthwhile systemic opportunity, raise it through the proper typed channel rather than roleplaying completion."@,
{
    let mut r = owned("MANUAL PROACTIVE REVIEW\nAgent: ");
    r.append(name);
    r.append(" (");
    r.append(role);
    r.append(")\nMission: ");
    r.append(raison_detre);
    r.append(
        "\nTask: Review your mission, current queue, and likely blind spots. Produce a concrete review result. If you identify a worthwhile systemic opportunity, raise it through the proper typed channel rather than roleplaying completion.",
    );
    r
}

} // verus!
