//! Runtime secrets, and what the kernel decides as it starts: whether to
//! seed, keep or reseed the runtime, and what becomes of orphaned work.

use vstd::prelude::*;
use crate::cron::{MAX_STALE_RETRIES, StaleAction, stale_work_order_action};
use crate::orchestrator::Orchestrator;
use crate::paths::{
    has_suffix, is_plain_component, joined_path, path_join, path_parent, portable_parent,
    portable_path, portable_text, last_slash,
};
use crate::text::{i64_text, int_text, owned, str_equals};

verus! {

/// Credentials that the kernel hands to workers.  Keyed credentials are held
/// as (key, secret) pairs; the first pair with a key wins.
pub struct Secrets {
    pub default_llm_api_key: String,
    pub llm_api_keys_by_provider: Vec<(String, String)>,
    pub tool_api_keys_by_slug: Vec<(String, String)>,
    pub sidechannel_token: String,
}

/// The kernel as the library sees it: where its registry database lives and
/// the orchestrator it runs.  Opening the database and the vault is the
/// caller's work.
pub struct Kernel {
    pub db_path: String,
    pub orchestrator: Orchestrator,
}

/// What starting the kernel does with the runtime it finds.
pub enum SeedAction {
    /// No agents yet: seed the runtime from the spec.
    SeedFresh,
    /// The runtime was seeded from this spec's profile: keep it.
    KeepExisting,
    /// The runtime comes from another profile: archive it and reseed.
    ArchiveAndReseed,
}

impl Kernel {
    /// A kernel over the registry at `db_path` whose workers run `worker_binary`.
    pub fn new(db_path: &str, worker_binary: &str, secrets: Secrets) -> (r: Self)
        ensures
            r.db_path@ == db_path@,
            r.orchestrator.worker_cmd_binary@ == worker_binary@,
            r.orchestrator.secrets == secrets,
            r.orchestrator.agent_home_root_override is None,
    {
        Self::new_with_agent_home_root(db_path, worker_binary, secrets, None)
    }

    /// A kernel whose agent home directories live under the given root
    /// instead of the user's home.
    pub fn new_with_agent_home_root(
        db_path: &str,
        worker_binary: &str,
        secrets: Secrets,
        agent_home_root_override: Option<String>,
    ) -> (r: Self)
        ensures
            r.db_path@ == db_path@,
            r.orchestrator.worker_cmd_binary@ == worker_binary@,
            r.orchestrator.secrets == secrets,
            r.orchestrator.agent_home_root_override == agent_home_root_override,
    {
        Kernel {
            db_path: owned(db_path),
            orchestrator: Orchestrator::new(worker_binary, secrets, agent_home_root_override),
        }
    }

    /// Where runtime snapshots are archived: `runtime_archives` beside the
    /// registry database (in the working directory when the path has no
    /// parent; the parent of a bare file name is the empty path).
    pub fn archive_root(&self) -> (r: String)
        ensures
            has_suffix(r@, "runtime_archives"@),
            portable_path(self.db_path@) ==> (r@ == joined_path(
                portable_parent(self.db_path@),
                "runtime_archives"@,
                '/',
            ) || r@ == joined_path(portable_parent(self.db_path@), "runtime_archives"@, '\\')),
    {
        let base = match path_parent(self.db_path.as_str()) {
            Some(p) => p,
            None => owned("."),
        };
        proof {
            reveal_strlit("runtime_archives");
            assert(is_plain_component("runtime_archives"@));
            let db = self.db_path@;
            if portable_path(db) {
                assert(base@ == portable_parent(db));
                assert(portable_text(base@)) by {
                    if exists|i: int| last_slash(db, i) {
                        let i = choose|i: int| last_slash(db, i);
                        if i > 0 {
                            assert forall|k: int| 0 <= k < base@.len() implies #[trigger] base@[k]
                                != '\\' && base@[k] != ':' by {
                                assert(base@[k] == db[k]);
                            }
                            if base@.len() >= 2 {
                                assert(base@[0] == db[0] && base@[1] == db[1]);
                            }
                        }
                    }
                }
            }
        }
        path_join(base.as_str(), "runtime_archives")
    }

    /// How the runtime is brought to the seed spec's profile: seeded when it
    /// has no agents, kept when it was seeded from the same profile, archived
    /// and reseeded otherwise.
    pub fn ensure_runtime_seeded(agent_count: u64, current_profile: Option<&str>, spec_profile: &str) -> (r:
        SeedAction)
        ensures
            r == seed_action(agent_count as int, opt_str_view(current_profile), spec_profile@),
    {
        seeding_decision(agent_count, current_profile, spec_profile)
    }

    /// What becomes of the work orders found in progress at start-up.
    pub fn reap_orphaned_swos(stale: &Vec<(i64, String, i32)>) -> (r: (Vec<StaleAction>, usize, usize))
        ensures
            r.0@.len() == stale@.len(),
            forall|i: int| 0 <= i < stale@.len() ==> #[trigger] r.0@[i] == (if stale@[i].2
                >= MAX_STALE_RETRIES {
                StaleAction::Fail
            } else {
                StaleAction::Requeue
            }),
            r.1 + r.2 == stale@.len(),
            r.2 == count_failing(stale@),
    {
        reap_plan(stale)
    }
}

pub open spec fn opt_str_view(o: Option<&str>) -> Option<Seq<char>> {
    match o {
        Some(s) => Some(s@),
        None => None,
    }
}

/// What starting the kernel does with a runtime of `agent_count` agents
/// seeded from profile `current`, given a spec of profile `spec`.
pub open spec fn seed_action(agent_count: int, current: Option<Seq<char>>, spec: Seq<char>) -> SeedAction {
    if agent_count == 0 {
        SeedAction::SeedFresh
    } else if current == Some(spec) {
        SeedAction::KeepExisting
    } else {
        SeedAction::ArchiveAndReseed
    }
}

/// Seeding is done once: a runtime seeded from a spec (it then has agents
/// and records the spec's profile) is kept when the kernel starts again
/// with the same spec, and archived and reseeded for another profile.
pub proof fn lemma_seeding_twice_keeps_runtime(agent_count: int, spec: Seq<char>, other: Seq<char>)
    requires
        agent_count > 0,
    ensures
        seed_action(agent_count, Some(spec), spec) == SeedAction::KeepExisting,
        other != spec ==> seed_action(agent_count, Some(spec), other)
            == SeedAction::ArchiveAndReseed,
{
}

/// How the runtime is brought to the seed spec's profile.
fn seeding_decision(agent_count: u64, current_profile: Option<&str>, spec_profile: &str) -> (r:
    SeedAction)
    ensures
        r == seed_action(agent_count as int, opt_str_view(current_profile), spec_profile@),
{
    if agent_count == 0 {
        return SeedAction::SeedFresh;
    }
    let same = match current_profile {
        Some(p) => str_equals(p, spec_profile),
        None => false,
    };
    if same {
        SeedAction::KeepExisting
    } else {
        SeedAction::ArchiveAndReseed
    }
}

/// The id of a runtime snapshot taken at `now_ms`.
pub fn snapshot_id(now_ms: i64) -> (r: String)
    ensures
        r@ == "runtime-"@ + int_text(now_ms as int),
{
    let mut r = owned("runtime-");
    r.append(i64_text(now_ms).as_str());
    r
}

/// Work orders found in progress when the kernel starts (no worker survives
/// a restart): those out of retries are failed, the others requeued.
fn reap_plan(stale: &Vec<(i64, String, i32)>) -> (r: (Vec<StaleAction>, usize, usize))
    ensures
        r.0@.len() == stale@.len(),
        forall|i: int| 0 <= i < stale@.len() ==> #[trigger] r.0@[i] == (if stale@[i].2
            >= MAX_STALE_RETRIES {
            StaleAction::Fail
        } else {
            StaleAction::Requeue
        }),
        r.1 + r.2 == stale@.len(),
        r.2 == count_failing(stale@),
{
    let mut actions: Vec<StaleAction> = Vec::new();
    let mut reset: usize = 0;
    let mut failed: usize = 0;
    let mut i: usize = 0;
    while i < stale.len()
        invariant
            i <= stale.len(),
            actions@.len() == i,
            forall|j: int| 0 <= j < i ==> #[trigger] actions@[j] == (if stale@[j].2
                >= MAX_STALE_RETRIES {
                StaleAction::Fail
            } else {
                StaleAction::Requeue
            }),
            reset + failed == i,
            failed == count_failing(stale@.take(i as int)),
        decreases stale.len() - i,
    {
        let a = stale_work_order_action(stale[i].2);
        proof {
            assert(stale@.take(i + 1).drop_last() =~= stale@.take(i as int));
        }
        match a {
            StaleAction::Fail => {
                failed = failed + 1;
            },
            StaleAction::Requeue => {
                reset = reset + 1;
            },
        }
        actions.push(a);
        i = i + 1;
    }
    assert(stale@.take(stale.len() as int) =~= stale@);
    (actions, reset, failed)
}

/// How many stale work orders are out of retries.
pub open spec fn count_failing(stale: Seq<(i64, String, i32)>) -> nat
    decreases stale.len(),
{
    if stale.len() == 0 {
        0
    } else {
        count_failing(stale.drop_last()) + if stale.last().2 >= MAX_STALE_RETRIES {
            1nat
        } else {
            0nat
        }
    }
}

} // verus!
