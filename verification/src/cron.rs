//! The agent cron: when an agent's interval has come round it is woken,
//! unless a run of it is still going; stale work orders are requeued or
//! failed.

use vstd::prelude::*;
use vstd::multiset::Multiset;
use crate::text::{owned, str_equals};

verus! {

/// What the cron does with an agent on one tick.
pub enum CronVerdict {
    /// The agent has no positive interval.
    NoInterval,
    /// Its interval has not passed since it last fired.
    NotDue,
    /// It is due, but a run of it is still in flight.
    InFlight,
    /// It fires now.
    Fire,
}

/// The cron's memory: when each agent last fired, and which agents have a
/// run in flight.
pub struct CronState {
    last_fired: Vec<(String, i64)>,
    in_flight: Vec<String>,
}

pub open spec fn keys_distinct(entries: Seq<(String, i64)>) -> bool {
    forall|a: int, b: int|
        0 <= a < b < entries.len() ==> #[trigger] entries[a].0@ != #[trigger] entries[b].0@
}

pub open spec fn names_distinct(names: Seq<String>) -> bool {
    forall|a: int, b: int| 0 <= a < b < names.len() ==> #[trigger] names[a]@ != #[trigger] names[b]@
}

pub open spec fn entries_map(entries: Seq<(String, i64)>) -> Map<Seq<char>, i64>
    decreases entries.len(),
{
    if entries.len() == 0 {
        Map::empty()
    } else {
        entries_map(entries.drop_last()).insert(entries.last().0@, entries.last().1)
    }
}

pub open spec fn names_set(names: Seq<String>) -> Set<Seq<char>> {
    Set::new(|n: Seq<char>| exists|i: int| 0 <= i < names.len() && #[trigger] names[i]@ == n)
}

/// The cron's memory as a map of last firing times and a set of agents in flight.
pub struct CronView {
    pub last_fired: Map<Seq<char>, i64>,
    pub in_flight: Set<Seq<char>>,
}

/// One tick for one agent: the verdict, and the memory after it.  An agent
/// seen for the first time counts as having fired one second more than an
/// interval ago, so it is due at once.
pub open spec fn tick_spec(s: CronView, agent: Seq<char>, interval: Option<i64>, now: i64) -> (
    CronVerdict,
    CronView,
) {
    match interval {
        Some(i) if i > 0 => {
            let last = if s.last_fired.contains_key(agent) {
                s.last_fired[agent]
            } else {
                (now - i - 1) as i64
            };
            let seen = CronView { last_fired: s.last_fired.insert(agent, last), in_flight: s.in_flight };
            if now - last < i {
                (CronVerdict::NotDue, seen)
            } else if s.in_flight.contains(agent) {
                (CronVerdict::InFlight, seen)
            } else {
                (
                    CronVerdict::Fire,
                    CronView { last_fired: s.last_fired.insert(agent, now), in_flight: s.in_flight },
                )
            }
        },
        _ => (CronVerdict::NoInterval, s),
    }
}

impl CronState {
    pub closed spec fn wf(&self) -> bool {
        keys_distinct(self.last_fired@) && names_distinct(self.in_flight@)
    }

    pub closed spec fn view(&self) -> CronView {
        CronView { last_fired: entries_map(self.last_fired@), in_flight: names_set(self.in_flight@) }
    }

    /// An empty cron memory.
    pub fn new() -> (r: Self)
        ensures
            r.wf(),
            r.view().last_fired == Map::<Seq<char>, i64>::empty(),
            r.view().in_flight == Set::<Seq<char>>::empty(),
    {
        let r = CronState { last_fired: Vec::new(), in_flight: Vec::new() };
        assert(r.view().in_flight =~= Set::<Seq<char>>::empty());
        r
    }

    proof fn lemma_map_index(entries: Seq<(String, i64)>, k: int)
        requires
            keys_distinct(entries),
            0 <= k < entries.len(),
        ensures
            entries_map(entries).contains_key(entries[k].0@),
            entries_map(entries)[entries[k].0@] == entries[k].1,
        decreases entries.len(),
    {
        if k < entries.len() - 1 {
            Self::lemma_map_index(entries.drop_last(), k);
        }
    }

    proof fn lemma_map_absent(entries: Seq<(String, i64)>, key: Seq<char>)
        requires
            forall|j: int| 0 <= j < entries.len() ==> #[trigger] entries[j].0@ != key,
        ensures
            !entries_map(entries).contains_key(key),
        decreases entries.len(),
    {
        if entries.len() > 0 {
            Self::lemma_map_absent(entries.drop_last(), key);
        }
    }

    fn find_entry(&self, agent: &str) -> (r: Option<usize>)
        requires
            self.wf(),
        ensures
            match r {
                Some(k) => k < self.last_fired@.len() && self.last_fired@[k as int].0@ == agent@,
                None => forall|j: int|
                    0 <= j < self.last_fired@.len() ==> #[trigger] self.last_fired@[j].0@ != agent@,
            },
    {
        let mut i: usize = 0;
        while i < self.last_fired.len()
            invariant
                i <= self.last_fired.len(),
                forall|j: int| 0 <= j < i ==> #[trigger] self.last_fired@[j].0@ != agent@,
            decreases self.last_fired.len() - i,
        {
            if str_equals(self.last_fired[i].0.as_str(), agent) {
                return Some(i);
            }
            i = i + 1;
        }
        None
    }

    fn set_entry(&mut self, agent: &str, value: i64)
        requires
            old(self).wf(),
        ensures
            final(self).wf(),
            final(self).view().last_fired == old(self).view().last_fired.insert(agent@, value),
            final(self).view().in_flight == old(self).view().in_flight,
    {
        match self.find_entry(agent) {
            Some(k) => {
                let ghost before = self.last_fired@;
                let key = owned(self.last_fired[k].0.as_str());
                self.last_fired.set(k, (key, value));
                proof {
                    Self::lemma_map_update_views(before, self.last_fired@, k as int, value);
                }
            },
            None => {
                let ghost before = self.last_fired@;
                self.last_fired.push((owned(agent), value));
                proof {
                    assert(self.last_fired@.drop_last() =~= before);
                    assert forall|a: int, b: int|
                        0 <= a < b < self.last_fired@.len() implies #[trigger] self.last_fired@[a].0@
                        != #[trigger] self.last_fired@[b].0@ by {
                        if b == self.last_fired@.len() - 1 {
                            assert(self.last_fired@[a] == before[a]);
                        } else {
                            assert(self.last_fired@[a] == before[a] && self.last_fired@[b] == before[b]);
                        }
                    }
                }
            },
        }
    }

    proof fn lemma_map_update_views(before: Seq<(String, i64)>, after: Seq<(String, i64)>, k: int, v: i64)
        requires
            keys_distinct(before),
            0 <= k < before.len(),
            after.len() == before.len(),
            after[k].0@ == before[k].0@,
            after[k].1 == v,
            forall|j: int| 0 <= j < before.len() && j != k ==> after[j] == before[j],
        ensures
            keys_distinct(after),
            entries_map(after) == entries_map(before).insert(before[k].0@, v),
        decreases before.len(),
    {
        if k == before.len() - 1 {
            assert(after.drop_last() =~= before.drop_last());
            assert(entries_map(after) =~= entries_map(before).insert(before[k].0@, v));
        } else {
            Self::lemma_map_update_views(before.drop_last(), after.drop_last(), k, v);
            assert(after.last() == before.last());
            assert(entries_map(after) =~= entries_map(before).insert(before[k].0@, v));
        }
    }

    fn in_flight_contains(&self, agent: &str) -> (r: bool)
        ensures
            r == self.view().in_flight.contains(agent@),
    {
        let mut i: usize = 0;
        while i < self.in_flight.len()
            invariant
                i <= self.in_flight.len(),
                forall|j: int| 0 <= j < i ==> #[trigger] self.in_flight@[j]@ != agent@,
            decreases self.in_flight.len() - i,
        {
            if str_equals(self.in_flight[i].as_str(), agent) {
                assert(self.in_flight@[i as int]@ == agent@);
                return true;
            }
            i = i + 1;
        }
        false
    }

    /// One cron tick for one agent.
    pub fn tick_agent(&mut self, agent_id: &str, interval_secs: Option<i64>, now_unix: i64) -> (r:
        CronVerdict)
        requires
            old(self).wf(),
            (interval_secs matches Some(i) && i > 0) ==> now_unix - interval_secs->0 - 1 >= i64::MIN,
        ensures
            final(self).wf(),
            (r, final(self).view()) == tick_spec(old(self).view(), agent_id@, interval_secs, now_unix),
    {
        let interval = match interval_secs {
            Some(i) => {
                if i > 0 {
                    i
                } else {
                    return CronVerdict::NoInterval;
                }
            },
            None => return CronVerdict::NoInterval,
        };
        let last = match self.find_entry(agent_id) {
            Some(k) => {
                proof {
                    Self::lemma_map_index(self.last_fired@, k as int);
                }
                self.last_fired[k].1
            },
            None => {
                proof {
                    Self::lemma_map_absent(self.last_fired@, agent_id@);
                }
                now_unix - interval - 1
            },
        };
        self.set_entry(agent_id, last);
        if (now_unix as i128) - (last as i128) < (interval as i128) {
            return CronVerdict::NotDue;
        }
        if self.in_flight_contains(agent_id) {
            return CronVerdict::InFlight;
        }
        self.set_entry(agent_id, now_unix);
        proof {
            assert(self.view().last_fired =~= old(self).view().last_fired.insert(agent_id@, now_unix));
        }
        CronVerdict::Fire
    }

    /// Records that a run of `agent_id` has started.
    pub fn mark_in_flight(&mut self, agent_id: &str)
        requires
            old(self).wf(),
        ensures
            final(self).wf(),
            final(self).view().in_flight == old(self).view().in_flight.insert(agent_id@),
            final(self).view().last_fired == old(self).view().last_fired,
    {
        if self.in_flight_contains(agent_id) {
            proof {
                assert(self.view().in_flight =~= self.view().in_flight.insert(agent_id@));
            }
            return;
        }
        let ghost before = self.in_flight@;
        self.in_flight.push(owned(agent_id));
        proof {
            assert forall|a: int, b: int|
                0 <= a < b < self.in_flight@.len() implies #[trigger] self.in_flight@[a]@
                != #[trigger] self.in_flight@[b]@ by {
                if b == before.len() {
                    assert(self.in_flight@[a] == before[a]);
                    assert(!names_set(before).contains(agent_id@));
                } else {
                    assert(self.in_flight@[a] == before[a] && self.in_flight@[b] == before[b]);
                }
            }
            assert forall|n: Seq<char>| names_set(self.in_flight@).contains(n) <==> names_set(
                before,
            ).insert(agent_id@).contains(n) by {
                if names_set(self.in_flight@).contains(n) {
                    let i = choose|i: int| 0 <= i < self.in_flight@.len() && #[trigger] self.in_flight@[i]@ == n;
                    if i < before.len() {
                        assert(before[i]@ == n);
                    }
                }
                if names_set(before).contains(n) {
                    let i = choose|i: int| 0 <= i < before.len() && #[trigger] before[i]@ == n;
                    assert(self.in_flight@[i]@ == n);
                }
                if n == agent_id@ {
                    assert(self.in_flight@[before.len() as int]@ == n);
                }
            }
            assert(self.view().in_flight =~= old(self).view().in_flight.insert(agent_id@));
        }
    }

    /// Records that the run of `agent_id` has ended.
    pub fn clear_in_flight(&mut self, agent_id: &str)
        requires
            old(self).wf(),
        ensures
            final(self).wf(),
            final(self).view().in_flight == old(self).view().in_flight.remove(agent_id@),
            final(self).view().last_fired == old(self).view().last_fired,
    {
        let ghost before = self.in_flight@;
        let mut i: usize = 0;
        while i < self.in_flight.len() && !str_equals(self.in_flight[i].as_str(), agent_id)
            invariant
                i <= self.in_flight.len(),
                self.in_flight@ == before,
                forall|j: int| 0 <= j < i ==> #[trigger] before[j]@ != agent_id@,
            decreases self.in_flight.len() - i,
        {
            i = i + 1;
        }
        if i < self.in_flight.len() {
            let ghost k = i as int;
            assert(before[k]@ == agent_id@);
            self.in_flight.remove(i);
            proof {
                let after = self.in_flight@;
                assert(after =~= before.remove(k));
                assert forall|a: int, b: int| 0 <= a < b < after.len() implies #[trigger] after[a]@
                    != #[trigger] after[b]@ by {
                    let a0 = if a < k { a } else { a + 1 };
                    let b0 = if b < k { b } else { b + 1 };
                    assert(after[a] == before[a0] && after[b] == before[b0]);
                }
                assert forall|n: Seq<char>| names_set(after).contains(n) <==> names_set(before).remove(
                    agent_id@,
                ).contains(n) by {
                    if names_set(after).contains(n) {
                        let x = choose|x: int| 0 <= x < after.len() && #[trigger] after[x]@ == n;
                        let x0 = if x < k { x } else { x + 1 };
                        assert(before[x0]@ == n);
                        assert(x0 != k);
                    }
                    if names_set(before).contains(n) && n != agent_id@ {
                        let x = choose|x: int| 0 <= x < before.len() && #[trigger] before[x]@ == n;
                        assert(x != k);
                        if x < k {
                            assert(after[x]@ == n);
                        } else {
                            assert(after[x - 1]@ == n);
                        }
                    }
                }
                assert(self.view().in_flight =~= old(self).view().in_flight.remove(agent_id@));
            }
        } else {
            proof {
                assert(!names_set(before).contains(agent_id@));
                assert(self.view().in_flight =~= old(self).view().in_flight.remove(agent_id@));
            }
        }
    }
}

/// An agent whose run is in flight is never fired again.
pub proof fn lemma_no_fire_while_in_flight(
    s: CronView,
    agent: Seq<char>,
    interval: Option<i64>,
    now: i64,
)
    requires
        s.in_flight.contains(agent),
    ensures
        tick_spec(s, agent, interval, now).0 != CronVerdict::Fire,
{
}

/// After an agent fires, it is not due again before its interval has passed.
pub proof fn lemma_fires_once_per_interval(
    s: CronView,
    agent: Seq<char>,
    interval: i64,
    now: i64,
    later: i64,
)
    requires
        interval > 0,
        tick_spec(s, agent, Some(interval), now).0 == CronVerdict::Fire,
        now <= later < now + interval,
    ensures
        tick_spec(tick_spec(s, agent, Some(interval), now).1, agent, Some(interval), later).0
            == CronVerdict::NotDue,
{
}

/// One thing the cron loop does: a tick for an agent (`starts_run` tells
/// whether a fire went on to start a run, as `cron_run_starts` decides),
/// or the end of an agent's cron run.
pub enum CronEvent {
    Tick { agent: Seq<char>, interval: Option<i64>, now: i64, starts_run: bool },
    RunEnds { agent: Seq<char> },
}

/// The cron loop as a whole: the cron's memory and the cron runs going on,
/// counted per agent.
pub struct CronLoopState {
    pub cron: CronView,
    pub running: Multiset<Seq<char>>,
}

/// One step of the loop: a tick (`tick_agent`), then, when a fire starts a
/// run, `mark_in_flight`; at the end of a run, `clear_in_flight`.
pub open spec fn cron_step(s: CronLoopState, e: CronEvent) -> CronLoopState {
    match e {
        CronEvent::Tick { agent, interval, now, starts_run } => {
            let (v, c) = tick_spec(s.cron, agent, interval, now);
            if v == CronVerdict::Fire && starts_run {
                CronLoopState {
                    cron: CronView { last_fired: c.last_fired, in_flight: c.in_flight.insert(agent) },
                    running: s.running.insert(agent),
                }
            } else {
                CronLoopState { cron: c, running: s.running }
            }
        },
        CronEvent::RunEnds { agent } => if s.running.count(agent) > 0 {
            CronLoopState {
                cron: CronView { last_fired: s.cron.last_fired, in_flight: s.cron.in_flight.remove(agent) },
                running: s.running.remove(agent),
            }
        } else {
            s
        },
    }
}

/// The loop's state after a sequence of events.
pub open spec fn cron_run(start: CronLoopState, events: Seq<CronEvent>) -> CronLoopState
    decreases events.len(),
{
    if events.len() == 0 {
        start
    } else {
        cron_step(cron_run(start, events.drop_last()), events.last())
    }
}

/// Each agent has at most one cron run going, and is in flight exactly
/// while it has one.
pub open spec fn one_run_per_agent(s: CronLoopState) -> bool {
    forall|a: Seq<char>|
        #![trigger s.running.count(a)]
        #![trigger s.cron.in_flight.contains(a)]
        s.running.count(a) <= 1 && (s.running.count(a) == 1 <==> s.cron.in_flight.contains(a))
}

proof fn lemma_step_keeps_one_run(s: CronLoopState, e: CronEvent)
    requires
        one_run_per_agent(s),
    ensures
        one_run_per_agent(cron_step(s, e)),
{
    let t = cron_step(s, e);
    match e {
        CronEvent::Tick { agent, interval, now, starts_run } => {
            let (v, c) = tick_spec(s.cron, agent, interval, now);
            assert(c.in_flight == s.cron.in_flight);
            if v == CronVerdict::Fire && starts_run {
                assert(!s.cron.in_flight.contains(agent));
                assert(s.running.count(agent) == 0);
                assert forall|a: Seq<char>|
                    t.running.count(a) <= 1 && (t.running.count(a) == 1 <==> t.cron.in_flight.contains(
                        a,
                    )) by {
                    assert(s.running.count(a) <= 1);
                    assert(s.running.count(a) == 1 <==> s.cron.in_flight.contains(a));
                }
            } else {
                assert forall|a: Seq<char>|
                    t.running.count(a) <= 1 && (t.running.count(a) == 1 <==> t.cron.in_flight.contains(
                        a,
                    )) by {
                    assert(s.running.count(a) <= 1);
                    assert(s.running.count(a) == 1 <==> s.cron.in_flight.contains(a));
                }
            }
        },
        CronEvent::RunEnds { agent } => {
            assert forall|a: Seq<char>|
                t.running.count(a) <= 1 && (t.running.count(a) == 1 <==> t.cron.in_flight.contains(a)) by {
                assert(s.running.count(a) <= 1);
                assert(s.running.count(a) == 1 <==> s.cron.in_flight.contains(a));
            }
        },
    }
}

/// No agent ever has two cron runs going at once: from an empty memory,
/// whatever ticks, starts and ends of runs follow, each agent has at most
/// one cron run going, and is marked in flight exactly while it has one.
pub proof fn lemma_one_cron_run_per_agent(events: Seq<CronEvent>)
    ensures
        one_run_per_agent(
            cron_run(
                CronLoopState {
                    cron: CronView {
                        last_fired: Map::empty(),
                        in_flight: Set::empty(),
                    },
                    running: Multiset::empty(),
                },
                events,
            ),
        ),
    decreases events.len(),
{
    let start = CronLoopState {
        cron: CronView { last_fired: Map::empty(), in_flight: Set::empty() },
        running: Multiset::empty(),
    };
    if events.len() == 0 {
        assert forall|a: Seq<char>|
            start.running.count(a) <= 1 && (start.running.count(a) == 1 <==> start.cron.in_flight.contains(a)) by {}
    } else {
        lemma_one_cron_run_per_agent(events.drop_last());
        lemma_step_keeps_one_run(cron_run(start, events.drop_last()), events.last());
    }
}

/// What a cron fire does once the agent's queue has been read.
#[derive(PartialEq, Eq, Structural, Debug)]
pub enum CronWork {
    /// Claim the agent's next pending work order and run it.
    ClaimAndRun { swo_id: i64 },
    /// The agent has no pending work: run an ideation cycle.
    Ideate,
    /// The queue could not be read: nothing runs this tick.
    Nothing,
}

/// The work of a fire: the agent's next pending work order when it has one,
/// ideation when it has none, nothing when reading the queue failed.
pub fn cron_work(next_pending: Result<Option<i64>, String>) -> (r: CronWork)
    ensures
        r == (match next_pending {
            Ok(Some(id)) => CronWork::ClaimAndRun { swo_id: id },
            Ok(None) => CronWork::Ideate,
            Err(_) => CronWork::Nothing,
        }),
{
    match next_pending {
        Ok(Some(id)) => CronWork::ClaimAndRun { swo_id: id },
        Ok(None) => CronWork::Ideate,
        Err(_) => CronWork::Nothing,
    }
}

/// Whether a fire starts a cron run (the `starts_run` of a tick): an
/// ideation cycle always does; a work order does once its claim took a row
/// (`claimed_rows` is none when the claim failed).
pub fn cron_run_starts(work: &CronWork, claimed_rows: Option<usize>) -> (r: bool)
    ensures
        r == (*work == CronWork::Ideate || (work is ClaimAndRun && (claimed_rows matches Some(n)
            && n > 0))),
{
    match work {
        CronWork::Ideate => true,
        CronWork::ClaimAndRun { .. } => match claimed_rows {
            Some(n) => n > 0,
            None => false,
        },
        CronWork::Nothing => false,
    }
}

/// What the reconciler does with a work order whose worker went silent.
pub enum StaleAction {
    /// Out of retries: mark it failed.
    Fail,
    /// Put it back in the queue.
    Requeue,
}

/// Retries a stale work order gets before it is failed.
pub const MAX_STALE_RETRIES: i32 = 3;

pub fn stale_work_order_action(retry_count: i32) -> (r: StaleAction)
    ensures
        r == (if retry_count >= MAX_STALE_RETRIES {
            StaleAction::Fail
        } else {
            StaleAction::Requeue
        }),
{
    if retry_count >= MAX_STALE_RETRIES {
        StaleAction::Fail
    } else {
        StaleAction::Requeue
    }
}

/// The prompt of an agent's autonomous ideation cycle.
pub fn ideation_prompt(name: &str, role: &str, raison_detre: &str) -> (r: String)
    ensures
        r@ == "AUTONOMOUS IDEATION CYCLE\nAgent: "@ + name@ + " ("@ + role@ + ")\nMission: "@
            + raison_detre@
            + "\nTask: Review your mission, recent runtime state, and prior decision memory. Generate 1-3 concrete proactive ideas at most, raise only worthwhile innovation SWOs, and record the key lesson from this cycle in the decision log."@,
{
    let mut r = owned("AUTONOMOUS IDEATION CYCLE\nAgent: ");
    r.append(name);
    r.append(" (");
    r.append(role);
    r.append(")\nMission: ");
    r.append(raison_detre);
    r.append(
        "\nTask: Review your mission, recent runtime state, and prior decision memory. Generate 1-3 concrete proactive ideas at most, raise only worthwhile innovation SWOs, and record the key lesson from this cycle in the decision log.",
    );
    r
}

} // verus!
