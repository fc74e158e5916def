//! Seeding a runtime from its spec: the order in which the spec's agents are
//! hired (in passes over the spec, each agent once its manager is hired), and
//! the hired agents that a starter work order names.

use vstd::prelude::*;
use crate::error::KernelError;
use crate::string_map::StringMap;
use crate::text::{owned, str_equals};

verus! {

/// The name of the agent hired `j`-th.
pub open spec fn hired_name(agents: Seq<(String, Option<String>)>, order: Seq<usize>, j: int) -> Seq<
    char,
> {
    agents[order[j] as int].0@
}

/// Some agent hired so far is called `name`.
pub open spec fn is_hired(agents: Seq<(String, Option<String>)>, order: Seq<usize>, name: Seq<char>) -> bool {
    exists|j: int| 0 <= j < order.len() && #[trigger] hired_name(agents, order, j) == name
}

/// Agent `i` can be hired now: no agent of its name is hired yet, and its
/// manager, if it names one, is.
pub open spec fn can_hire(agents: Seq<(String, Option<String>)>, order: Seq<usize>, i: int) -> bool {
    &&& !is_hired(agents, order, agents[i].0@)
    &&& match agents[i].1 {
        Some(m) => is_hired(agents, order, m@),
        None => true,
    }
}

/// One pass over the spec from agent `i` on; an agent hired in this pass
/// already counts as a manager for the agents after it.
pub open spec fn hiring_pass(agents: Seq<(String, Option<String>)>, i: nat, order: Seq<usize>) -> Seq<
    usize,
>
    decreases agents.len() - i,
{
    if i >= agents.len() {
        order
    } else if can_hire(agents, order, i as int) {
        hiring_pass(agents, i + 1, order.push(i as usize))
    } else {
        hiring_pass(agents, i + 1, order)
    }
}

/// Passes go on until as many agents are hired as the spec lists; a pass
/// that hires nobody ends them without an order.  Every pass that goes on
/// hires someone, so one pass per agent is always enough.
pub open spec fn hiring_passes(agents: Seq<(String, Option<String>)>, order: Seq<usize>, passes: nat) -> Option<
    Seq<usize>,
>
    decreases passes,
{
    if order.len() >= agents.len() {
        Some(order)
    } else if passes == 0 {
        None
    } else {
        let next = hiring_pass(agents, 0, order);
        if next.len() == order.len() {
            None
        } else {
            hiring_passes(agents, next, (passes - 1) as nat)
        }
    }
}

/// The order in which the spec's agents are hired, if all of them can be.
pub open spec fn hiring_order(agents: Seq<(String, Option<String>)>) -> Option<Seq<usize>> {
    hiring_passes(agents, Seq::empty(), agents.len())
}

/// A hiring order: agent indices, no two hired agents sharing a name, each
/// hired after its manager.
pub open spec fn hiring_sound(agents: Seq<(String, Option<String>)>, order: Seq<usize>) -> bool {
    &&& forall|j: int| 0 <= j < order.len() ==> #[trigger] order[j] < agents.len()
    &&& forall|a: int, b: int|
        0 <= a < b < order.len() ==> hired_name(agents, order, a) != hired_name(agents, order, b)
    &&& forall|p: int|
        0 <= p < order.len() ==> (#[trigger] agents[order[p] as int].1 matches Some(m) ==> exists|
            q: int,
        | 0 <= q < p && #[trigger] hired_name(agents, order, q) == m@)
}

/// Error when some agents of the spec can never be hired.
pub open spec fn unresolved_managers_error() -> Seq<char> {
    "Seed spec contains unresolved manager references"@
}

proof fn lemma_pass_sound(agents: Seq<(String, Option<String>)>, i: nat, order: Seq<usize>)
    requires
        agents.len() <= usize::MAX,
        hiring_sound(agents, order),
    ensures
        hiring_sound(agents, hiring_pass(agents, i, order)),
        hiring_pass(agents, i, order).len() >= order.len(),
    decreases agents.len() - i,
{
    if i < agents.len() {
        if can_hire(agents, order, i as int) {
            let next = order.push(i as usize);
            assert forall|j: int| 0 <= j < order.len() implies hired_name(agents, next, j)
                == hired_name(agents, order, j) by {}
            assert(hired_name(agents, next, order.len() as int) == agents[i as int].0@);
            assert forall|a: int, b: int| 0 <= a < b < next.len() implies hired_name(agents, next, a)
                != hired_name(agents, next, b) by {
                if b == order.len() {
                    assert(hired_name(agents, next, a) == hired_name(agents, order, a));
                }
            }
            assert forall|p: int| 0 <= p < next.len() implies (#[trigger] agents[next[p] as int].1 matches Some(
                m,
            ) ==> exists|q: int| 0 <= q < p && #[trigger] hired_name(agents, next, q) == m@) by {
                if let Some(m) = agents[next[p] as int].1 {
                    if p < order.len() {
                        let q = choose|q: int| 0 <= q < p && #[trigger] hired_name(agents, order, q) == m@;
                        assert(hired_name(agents, next, q) == m@);
                    } else {
                        let q = choose|q: int|
                            0 <= q < order.len() && #[trigger] hired_name(agents, order, q) == m@;
                        assert(hired_name(agents, next, q) == m@);
                    }
                }
            }
            lemma_pass_sound(agents, i + 1, next);
        } else {
            lemma_pass_sound(agents, i + 1, order);
        }
    }
}

proof fn lemma_passes_sound(agents: Seq<(String, Option<String>)>, order: Seq<usize>, passes: nat)
    requires
        agents.len() <= usize::MAX,
        hiring_sound(agents, order),
    ensures
        hiring_passes(agents, order, passes) matches Some(o) ==> hiring_sound(agents, o),
    decreases passes,
{
    if order.len() < agents.len() && passes > 0 {
        let next = hiring_pass(agents, 0, order);
        lemma_pass_sound(agents, 0, order);
        lemma_passes_sound(agents, next, (passes - 1) as nat);
    }
}

/// No more agents are hired than the spec lists: hired names differ, so
/// hired indices do.
proof fn lemma_sound_order_len(agents: Seq<(String, Option<String>)>, order: Seq<usize>)
    requires
        hiring_sound(agents, order),
    ensures
        order.len() <= agents.len(),
        order.no_duplicates(),
{
    let idx = order.map_values(|x: usize| x as int);
    assert forall|a: int, b: int| 0 <= a < idx.len() && 0 <= b < idx.len() && a != b implies idx[a]
        != idx[b] by {
        if a < b {
            assert(hired_name(agents, order, a) != hired_name(agents, order, b));
        } else {
            assert(hired_name(agents, order, b) != hired_name(agents, order, a));
        }
    }
    assert(idx.no_duplicates());
    idx.unique_seq_to_set();
    vstd::set_lib::lemma_int_range(0, agents.len() as int);
    assert(idx.to_set().subset_of(vstd::set_lib::set_int_range(0, agents.len() as int))) by {
        assert forall|x: int| idx.to_set().contains(x) implies vstd::set_lib::set_int_range(
            0,
            agents.len() as int,
        ).contains(x) by {
            let j = choose|j: int| 0 <= j < idx.len() && idx[j] == x;
            assert(order[j] < agents.len());
        }
    }
    vstd::set_lib::lemma_len_subset(idx.to_set(), vstd::set_lib::set_int_range(0, agents.len() as int));
    assert forall|a: int, b: int| 0 <= a < order.len() && 0 <= b < order.len() && a != b implies order[a]
        != order[b] by {
        assert(idx[a] != idx[b]);
    }
}

proof fn lemma_pass_len(agents: Seq<(String, Option<String>)>, i: nat, order: Seq<usize>)
    ensures
        hiring_pass(agents, i, order).len() >= order.len(),
    decreases agents.len() - i,
{
    if i < agents.len() {
        if can_hire(agents, order, i as int) {
            lemma_pass_len(agents, i + 1, order.push(i as usize));
        } else {
            lemma_pass_len(agents, i + 1, order);
        }
    }
}

/// A pass that reaches an agent it can hire hires someone.
proof fn lemma_pass_hires(agents: Seq<(String, Option<String>)>, i: nat, order: Seq<usize>, a: int)
    requires
        i <= a < agents.len(),
        can_hire(agents, order, a),
    ensures
        hiring_pass(agents, i, order).len() > order.len(),
    decreases agents.len() - i,
{
    if can_hire(agents, order, i as int) {
        lemma_pass_len(agents, i + 1, order.push(i as usize));
    } else {
        lemma_pass_hires(agents, i + 1, order, a);
    }
}

/// While fewer agents are hired than a full sound order lists, one of
/// that order's names is not hired yet.
proof fn lemma_some_name_unhired(
    agents: Seq<(String, Option<String>)>,
    w: Seq<usize>,
    order: Seq<usize>,
)
    requires
        hiring_sound(agents, w),
        w.len() == agents.len(),
        order.len() < agents.len(),
    ensures
        exists|r: int| 0 <= r < w.len() && !is_hired(agents, order, #[trigger] hired_name(agents, w, r)),
{
    broadcast use vstd::seq_lib::seq_to_set_is_finite;

    let wn = Seq::new(w.len(), |r: int| hired_name(agents, w, r));
    let on = Seq::new(order.len(), |j: int| hired_name(agents, order, j));
    if forall|r: int| 0 <= r < w.len() ==> is_hired(agents, order, #[trigger] hired_name(agents, w, r)) {
        assert(wn.no_duplicates()) by {
            assert forall|a: int, b: int| 0 <= a < wn.len() && 0 <= b < wn.len() && a != b implies wn[a]
                != wn[b] by {
                if a < b {
                    assert(hired_name(agents, w, a) != hired_name(agents, w, b));
                } else {
                    assert(hired_name(agents, w, b) != hired_name(agents, w, a));
                }
            }
        }
        wn.unique_seq_to_set();
        on.lemma_cardinality_of_set();
        assert(wn.to_set().subset_of(on.to_set())) by {
            assert forall|x: Seq<char>| wn.to_set().contains(x) implies on.to_set().contains(x) by {
                let r = choose|r: int| 0 <= r < wn.len() && wn[r] == x;
                assert(is_hired(agents, order, hired_name(agents, w, r)));
                let j = choose|j: int|
                    0 <= j < order.len() && #[trigger] hired_name(agents, order, j) == x;
                assert(on[j] == x);
            }
        }
        vstd::set_lib::lemma_len_subset(wn.to_set(), on.to_set());
        assert(false);
    }
}

/// The first name of a full sound order that is not hired yet.
proof fn lemma_first_unhired(
    agents: Seq<(String, Option<String>)>,
    w: Seq<usize>,
    order: Seq<usize>,
    j: int,
) -> (p: int)
    requires
        0 <= j <= w.len(),
        forall|q: int| 0 <= q < j ==> is_hired(agents, order, #[trigger] hired_name(agents, w, q)),
        exists|r: int| j <= r < w.len() && !is_hired(agents, order, #[trigger] hired_name(agents, w, r)),
    ensures
        0 <= p < w.len(),
        !is_hired(agents, order, hired_name(agents, w, p)),
        forall|q: int| 0 <= q < p ==> is_hired(agents, order, #[trigger] hired_name(agents, w, q)),
    decreases w.len() - j,
{
    let r = choose|r: int| j <= r < w.len() && !is_hired(agents, order, #[trigger] hired_name(agents, w, r));
    if !is_hired(agents, order, hired_name(agents, w, j)) {
        j
    } else {
        assert(r != j);
        lemma_first_unhired(agents, w, order, j + 1)
    }
}

/// While agents remain, a pass hires at least one when a full sound order
/// exists: the first agent of that order not hired yet has its manager
/// hired already.
proof fn lemma_pass_progress(agents: Seq<(String, Option<String>)>, w: Seq<usize>, order: Seq<usize>)
    requires
        hiring_sound(agents, w),
        w.len() == agents.len(),
        order.len() < agents.len(),
    ensures
        hiring_pass(agents, 0, order).len() > order.len(),
{
    lemma_some_name_unhired(agents, w, order);
    let p = lemma_first_unhired(agents, w, order, 0);
    let a = w[p] as int;
    assert(a < agents.len());
    if let Some(m) = agents[a].1 {
        assert(agents[w[p] as int].1 matches Some(mm) && mm == m);
        let q = choose|q: int| 0 <= q < p && #[trigger] hired_name(agents, w, q) == m@;
        assert(is_hired(agents, order, hired_name(agents, w, q)));
    }
    assert(can_hire(agents, order, a));
    lemma_pass_hires(agents, 0, order, a);
}

proof fn lemma_passes_complete(
    agents: Seq<(String, Option<String>)>,
    w: Seq<usize>,
    order: Seq<usize>,
    passes: nat,
)
    requires
        hiring_sound(agents, w),
        w.len() == agents.len(),
        passes + order.len() >= agents.len(),
    ensures
        hiring_passes(agents, order, passes) is Some,
    decreases passes,
{
    if order.len() < agents.len() {
        lemma_pass_progress(agents, w, order);
        let next = hiring_pass(agents, 0, order);
        lemma_passes_complete(agents, w, next, (passes - 1) as nat);
    }
}

/// Seeding fails only when it must: if the spec's agents can be put in an
/// order that lists each once under a name of its own, every agent after
/// its manager, the passes hire them all.
pub proof fn lemma_hiring_complete(agents: Seq<(String, Option<String>)>, w: Seq<usize>)
    requires
        hiring_sound(agents, w),
        w.len() == agents.len(),
    ensures
        hiring_order(agents) is Some,
{
    lemma_passes_complete(agents, w, Seq::empty(), agents.len());
}

fn is_hired_exec(agents: &Vec<(String, Option<String>)>, order: &Vec<usize>, name: &str) -> (r: bool)
    requires
        forall|j: int| 0 <= j < order@.len() ==> #[trigger] order@[j] < agents@.len(),
    ensures
        r == is_hired(agents@, order@, name@),
{
    let mut j: usize = 0;
    while j < order.len()
        invariant
            j <= order@.len(),
            forall|q: int| 0 <= q < order@.len() ==> #[trigger] order@[q] < agents@.len(),
            forall|q: int| 0 <= q < j ==> #[trigger] hired_name(agents@, order@, q) != name@,
        decreases order.len() - j,
    {
        let k = order[j];
        if str_equals(agents[k].0.as_str(), name) {
            assert(hired_name(agents@, order@, j as int) == name@);
            return true;
        }
        j = j + 1;
    }
    false
}

fn hiring_pass_exec(agents: &Vec<(String, Option<String>)>, order: &mut Vec<usize>)
    requires
        forall|j: int| 0 <= j < old(order)@.len() ==> #[trigger] old(order)@[j] < agents@.len(),
    ensures
        final(order)@ == hiring_pass(agents@, 0, old(order)@),
        forall|j: int| 0 <= j < final(order)@.len() ==> #[trigger] final(order)@[j] < agents@.len(),
{
    let mut i: usize = 0;
    while i < agents.len()
        invariant
            i <= agents@.len(),
            hiring_pass(agents@, i as nat, order@) == hiring_pass(agents@, 0, old(order)@),
            forall|j: int| 0 <= j < order@.len() ==> #[trigger] order@[j] < agents@.len(),
        decreases agents.len() - i,
    {
        let free = !is_hired_exec(agents, order, agents[i].0.as_str());
        let managed = match &agents[i].1 {
            Some(m) => is_hired_exec(agents, order, m.as_str()),
            None => true,
        };
        if free && managed {
            order.push(i);
        }
        i = i + 1;
    }
}

/// The order in which a seed spec's agents are hired, given each agent's
/// name and manager's name: passes over the spec hire every agent whose name
/// is new and whose manager is already hired, until all are; a pass that
/// hires nobody fails.
pub fn seed_creation_order(agents: &Vec<(String, Option<String>)>) -> (r: Result<
    Vec<usize>,
    KernelError,
>)
    ensures
        r is Ok <==> hiring_order(agents@) is Some,
        r matches Ok(v) ==> hiring_order(agents@) == Some(v@),
        r matches Err(e) ==> (e matches KernelError::Internal(m) && m@
            == unresolved_managers_error()),
        r matches Ok(v) ==> (v@.len() == agents@.len() && v@.no_duplicates() && hiring_sound(
            agents@,
            v@,
        )),
{
    let mut order: Vec<usize> = Vec::new();
    let count: usize = agents.len();
    let ghost mut passes: nat = agents@.len();
    proof {
        lemma_passes_sound(agents@, order@, passes);
    }
    while order.len() < count
        invariant
            count == agents@.len(),
            hiring_passes(agents@, order@, passes) == hiring_order(agents@),
            passes + order@.len() >= agents@.len(),
            forall|j: int| 0 <= j < order@.len() ==> #[trigger] order@[j] < agents@.len(),
            hiring_order(agents@) matches Some(o) ==> hiring_sound(agents@, o),
            hiring_sound(agents@, order@),
        decreases passes,
    {
        let before = order.len();
        proof {
            lemma_pass_sound(agents@, 0, order@);
        }
        hiring_pass_exec(agents, &mut order);
        if order.len() == before {
            return Err(
                KernelError::Internal(owned("Seed spec contains unresolved manager references")),
            );
        }
        proof {
            passes = (passes - 1) as nat;
        }
    }
    proof {
        lemma_sound_order_len(agents@, order@);
    }
    Ok(order)
}

/// The hired agents that a starter work order names.
pub struct StarterParties {
    pub assigned_agent_id: String,
    pub owner_agent_id: String,
    pub created_by_agent_id: String,
    pub initiative_owner_agent_id: Option<String>,
}

/// Error when a starter work order names an agent that was not hired;
/// `role` is `assignee`, `owner` or `creator`.
pub open spec fn unknown_party_error(role: Seq<char>, name: Seq<char>) -> Seq<char> {
    "Starter SWO references unknown "@ + role + " "@ + name
}

fn unknown_party(role: &str, name: &str) -> (r: KernelError)
    ensures
        r matches KernelError::Internal(m) && m@ == unknown_party_error(role@, name@),
{
    let mut m = owned("Starter SWO references unknown ");
    m.append(role);
    m.append(" ");
    m.append(name);
    KernelError::Internal(m)
}

/// Looks up the agents a starter work order names among the hired ones
/// (`hired` maps an agent's name to its id): the assignee, the owner and the
/// creator must be hired, checked in that order; the initiative owner is
/// the work order's own or else the spec's default, and is left out when
/// it names nobody hired.
pub fn resolve_starter_parties(
    hired: &StringMap,
    assignee: &str,
    owner: &str,
    creator: &str,
    initiative_owner: Option<&str>,
    default_initiative_owner: Option<&str>,
) -> (r: Result<StarterParties, KernelError>)
    requires
        hired.wf(),
    ensures
        !hired@.contains_key(assignee@) ==> (r matches Err(e) && e matches KernelError::Internal(m)
            && m@ == unknown_party_error("assignee"@, assignee@)),
        hired@.contains_key(assignee@) && !hired@.contains_key(owner@) ==> (r matches Err(e)
            && e matches KernelError::Internal(m) && m@ == unknown_party_error("owner"@, owner@)),
        hired@.contains_key(assignee@) && hired@.contains_key(owner@) && !hired@.contains_key(
            creator@,
        ) ==> (r matches Err(e) && e matches KernelError::Internal(m) && m@ == unknown_party_error(
            "creator"@,
            creator@,
        )),
        r is Ok <==> (hired@.contains_key(assignee@) && hired@.contains_key(owner@)
            && hired@.contains_key(creator@)),
        r matches Ok(p) ==> {
            &&& p.assigned_agent_id@ == hired@[assignee@]
            &&& p.owner_agent_id@ == hired@[owner@]
            &&& p.created_by_agent_id@ == hired@[creator@]
            &&& match (if initiative_owner is Some {
                initiative_owner
            } else {
                default_initiative_owner
            }) {
                Some(n) => if hired@.contains_key(n@) {
                    p.initiative_owner_agent_id matches Some(id) && id@ == hired@[n@]
                } else {
                    p.initiative_owner_agent_id is None
                },
                None => p.initiative_owner_agent_id is None,
            }
        },
{
    let assigned_agent_id = match hired.get(assignee) {
        Some(id) => id,
        None => {
            return Err(unknown_party("assignee", assignee));
        },
    };
    let owner_agent_id = match hired.get(owner) {
        Some(id) => id,
        None => {
            return Err(unknown_party("owner", owner));
        },
    };
    let created_by_agent_id = match hired.get(creator) {
        Some(id) => id,
        None => {
            return Err(unknown_party("creator", creator));
        },
    };
    let name = match initiative_owner {
        Some(n) => Some(n),
        None => default_initiative_owner,
    };
    let initiative_owner_agent_id = match name {
        Some(n) => hired.get(n),
        None => None,
    };
    Ok(StarterParties { assigned_agent_id, owner_agent_id, created_by_agent_id, initiative_owner_agent_id })
}

} // verus!
