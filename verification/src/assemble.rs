//! Turns raw `gc`/`bd` payloads into the normalized `model::*` views,
//! computing health signals along the way. This is the join point: a bead's
//! `assignee` (e.g. "gastown__polecat-cc-hc0y") matches an agent's
//! `runtime_session_name` exactly, which is how we know what a given agent
//! is actually working on right now.
//!
//! Each view has a pure builder that takes everything it needs as
//! arguments and has an exact contract; the functions that fetch through
//! the adapters state what holds whatever the adapters answered.
use crate::health::{
    age_secs, age_spec, agent_health, agent_health_spec, bead_health, bead_health_spec,
    Thresholds, UnixTime, worst_of, worst_spec,
};
use crate::model::{
    AgentView, BeadRef, BeadStage, CityView, DagNode, DagView, Health, QueueSummary, QueueView,
    RigView,
};
use crate::sources::bd::{self, opt_str, BeadRaw};
use crate::sources::adapters::{arg_view, Adapters, BdAdapter, GcAdapter, GitAdapter};
use crate::sources::resolve_outcome;
use crate::sources::gc;
use vstd::prelude::*;

verus! {

// ---------------------------------------------------------------------------
// Searching sequences
// ---------------------------------------------------------------------------

/// Index of the first element satisfying `p`.
pub open spec fn first_where<T>(s: Seq<T>, p: spec_fn(T) -> bool) -> Option<int>
    decreases s.len(),
{
    if s.len() == 0 {
        None
    } else if p(s[0]) {
        Some(0)
    } else {
        match first_where(s.drop_first(), p) {
            Some(i) => Some(i + 1),
            None => None,
        }
    }
}

/// `o` shifted by `k`.
pub open spec fn shift(o: Option<int>, k: int) -> Option<int> {
    match o {
        Some(i) => Some(i + k),
        None => None,
    }
}

/// The first match found from position `i` on is the first match overall,
/// once nothing before `i` matched; one step of a left-to-right search.
pub proof fn lemma_first_where_step<T>(s: Seq<T>, p: spec_fn(T) -> bool, i: int)
    requires
        0 <= i < s.len(),
    ensures
        first_where(s.skip(i), p) == (if p(s[i]) {
            Some(0int)
        } else {
            shift(first_where(s.skip(i + 1), p), 1)
        }),
{
    assert(s.skip(i).drop_first() =~= s.skip(i + 1));
    assert(s.skip(i)[0] == s[i]);
}

proof fn lemma_skip_all<T>(s: Seq<T>)
    ensures
        s.skip(s.len() as int) =~= Seq::<T>::empty(),
        s.skip(0) =~= s,
{
}

/// Copy of an optional string.
pub fn clone_opt(o: &Option<String>) -> (r: Option<String>)
    ensures
        r == *o,
{
    match o {
        Some(s) => Some(s.clone()),
        None => None,
    }
}

/// Copy of a list of strings.
pub fn clone_strings(v: &Vec<String>) -> (r: Vec<String>)
    ensures
        r@ == v@,
{
    let mut out: Vec<String> = Vec::new();
    let mut i: usize = 0;
    while i < v.len()
        invariant
            i <= v.len(),
            out@ == v@.take(i as int),
        decreases v.len() - i,
    {
        out.push(v[i].clone());
        assert(v@.take(i + 1) =~= v@.take(i as int).push(v@[i as int]));
        i += 1;
    }
    assert(v@.take(v.len() as int) =~= v@);
    out
}

// ---------------------------------------------------------------------------
// Beads
// ---------------------------------------------------------------------------

/// The normalized view of a raw bead, aged against `now`.
pub open spec fn bead_ref_spec(raw: BeadRaw, now: UnixTime, stale_after: i64) -> BeadRef {
    let age = age_spec(opt_str(raw.updated_at), now);
    BeadRef {
        id: raw.id,
        title: raw.title,
        status: raw.status,
        priority: raw.priority,
        assignee: raw.assignee,
        started_at: raw.started_at,
        updated_at: raw.updated_at,
        age_secs: age,
        health: bead_health_spec(raw.status@, age, stale_after),
    }
}

/// Age in seconds of an optional timestamp.
fn age_of(ts: &Option<String>, now: UnixTime) -> (r: Option<i64>)
    ensures
        r == age_spec(opt_str(*ts), now),
{
    match ts {
        Some(t) => age_secs(Some(t.as_str()), now),
        None => age_secs(None, now),
    }
}

pub fn bead_ref(raw: &BeadRaw, now: UnixTime, thresholds: &Thresholds) -> (r: BeadRef)
    ensures
        r == bead_ref_spec(*raw, now, thresholds.stale_after_secs),
{
    let age = age_of(&raw.updated_at, now);
    BeadRef {
        id: raw.id.clone(),
        title: raw.title.clone(),
        status: raw.status.clone(),
        priority: raw.priority,
        assignee: clone_opt(&raw.assignee),
        started_at: clone_opt(&raw.started_at),
        updated_at: clone_opt(&raw.updated_at),
        age_secs: age,
        health: bead_health(raw.status.as_str(), age, thresholds),
    }
}

// ---------------------------------------------------------------------------
// City
// ---------------------------------------------------------------------------

/// The part of `s` before its first `/`, if it has one.
pub open spec fn before_slash(s: Seq<char>) -> Option<Seq<char>>
    decreases s.len(),
{
    if s.len() == 0 {
        None
    } else if s[0] == '/' {
        Some(Seq::empty())
    } else {
        match before_slash(s.drop_first()) {
            Some(p) => Some(seq![s[0]] + p),
            None => None,
        }
    }
}

/// `s.split_once('/')`'s first half.
pub fn prefix_before_slash(s: &str) -> (r: Option<String>)
    ensures
        opt_str(r) == before_slash(s@),
{
    let v = crate::text::to_chars(s);
    let mut i: usize = 0;
    assert(v@.skip(0) =~= v@);
    while i < v.len()
        invariant
            i <= v.len(),
            v@ == s@,
            forall|k: int| 0 <= k < i ==> v@[k] != '/',
            before_slash(v@) == (match before_slash(v@.skip(i as int)) {
                Some(p) => Some(v@.take(i as int) + p),
                None => None::<Seq<char>>,
            }),
        decreases v.len() - i,
    {
        assert(v@.skip(i as int).drop_first() =~= v@.skip(i + 1));
        assert(v@.skip(i as int)[0] == v@[i as int]);
        if v[i] == '/' {
            let mut head: Vec<char> = Vec::new();
            let mut k: usize = 0;
            while k < i
                invariant
                    k <= i < v.len(),
                    head@ == v@.take(k as int),
                decreases i - k,
            {
                head.push(v[k]);
                assert(v@.take(k + 1) =~= v@.take(k as int).push(v@[k as int]));
                k += 1;
            }
            assert(v@.take(i as int) + Seq::<char>::empty() =~= v@.take(i as int));
            return Some(crate::text::from_chars(&head));
        }
        assert(v@.take(i + 1) =~= v@.take(i as int) + seq![v@[i as int]]);
        assert forall|p: Seq<char>| true implies v@.take(i as int) + (seq![v@[i as int]] + p) =~= v@.take(
            i + 1,
        ) + p by {}
        i += 1;
    }
    assert(v@.skip(v.len() as int) =~= Seq::<char>::empty());
    None
}

/// A rig-scoped agent that is running, not suspended, and whose qualified
/// name is `<rig_name>/...`.
pub open spec fn agent_keeps_rig_alive(a: gc::AgentRaw, rig_name: Seq<char>) -> bool {
    &&& a.scope@ == "rig"@
    &&& a.running
    &&& !a.suspended
    &&& before_slash(a.qualified_name@) == Some(rig_name)
}

/// Does the rig have any live, non-suspended, rig-scoped agent?
pub open spec fn rig_has_live_agent(agents: Seq<gc::AgentRaw>, rig_name: Seq<char>) -> bool {
    exists|i: int| 0 <= i < agents.len() && agent_keeps_rig_alive(#[trigger] agents[i], rig_name)
}

fn has_live_agent(agents: &Vec<gc::AgentRaw>, rig_name: &str) -> (r: bool)
    ensures
        r == rig_has_live_agent(agents@, rig_name@),
{
    let mut i: usize = 0;
    while i < agents.len()
        invariant
            i <= agents.len(),
            forall|k: int| 0 <= k < i ==> !agent_keeps_rig_alive(#[trigger] agents@[k], rig_name@),
        decreases agents.len() - i,
    {
        let a = &agents[i];
        if crate::text::str_eq(a.scope.as_str(), "rig") && a.running && !a.suspended {
            match prefix_before_slash(a.qualified_name.as_str()) {
                Some(p) => {
                    if crate::text::str_eq(p.as_str(), rig_name) {
                        assert(agent_keeps_rig_alive(agents@[i as int], rig_name@));
                        return true;
                    }
                },
                None => {},
            }
        }
        i += 1;
    }
    false
}

/// Bead counts as shown, from `bd status`'s summary.
pub open spec fn queue_summary_of(s: bd::StatusSummary) -> QueueSummary {
    QueueSummary {
        total: s.total_issues,
        ready: s.ready_issues,
        in_progress: s.in_progress_issues,
        blocked: s.blocked_issues,
        deferred: s.deferred_issues,
        closed: s.closed_issues,
    }
}

pub fn summary_from(s: &bd::StatusSummary) -> (r: QueueSummary)
    ensures
        r == queue_summary_of(*s),
{
    QueueSummary {
        total: s.total_issues,
        ready: s.ready_issues,
        in_progress: s.in_progress_issues,
        blocked: s.blocked_issues,
        deferred: s.deferred_issues,
        closed: s.closed_issues,
    }
}

/// A rig's view: suspended, else healthy when it has a live agent, else
/// dead; `bead_summary` is whatever was fetched for it.
pub open spec fn rig_view_spec(
    r: gc::RigRaw,
    agents: Seq<gc::AgentRaw>,
    bead_summary: Option<QueueSummary>,
) -> RigView {
    let running = rig_has_live_agent(agents, r.name@);
    RigView {
        name: r.name,
        path: r.path,
        prefix: r.prefix,
        running: running,
        suspended: r.suspended,
        health: if r.suspended {
            Health::Suspended
        } else if running {
            Health::Healthy
        } else {
            Health::Dead
        },
        bead_summary: bead_summary,
    }
}

/// The city's overall signal: degraded or unusable is dead, a partial
/// probe is unknown, anything else healthy.
pub open spec fn city_health_spec(raw: gc::StatusResult) -> Health {
    if raw.health.degraded || !raw.health.usable {
        Health::Dead
    } else if raw.partial {
        Health::Unknown
    } else {
        Health::Healthy
    }
}

/// A negative count reads as zero.
pub open spec fn count_of(n: i64) -> usize {
    (if n > 0 {
        n
    } else {
        0
    }) as usize
}

/// `v` is the city view of `raw`, each rig carrying the bead summary it
/// holds.
pub open spec fn city_view_of(raw: gc::StatusResult, v: CityView) -> bool {
    &&& v.city_name == raw.city_name
    &&& v.city_path == raw.city_path
    &&& v.city_running == raw.running
    &&& v.controller_running == raw.controller.running
    &&& v.controller_pid == raw.controller.pid
    &&& v.controller_mode == raw.controller.mode
    &&& v.controller_status == raw.controller.status
    &&& v.suspended == raw.suspended
    &&& v.usable == raw.health.usable
    &&& v.degraded == raw.health.degraded
    &&& v.signals@ == raw.health.signals@
    &&& v.partial == raw.partial
    &&& v.partial_errors@ == raw.partial_errors@
    &&& v.rigs@.len() == raw.rigs@.len()
    &&& forall|i: int|
        0 <= i < raw.rigs@.len() ==> #[trigger] v.rigs@[i] == rig_view_spec(
            raw.rigs@[i],
            raw.agents@,
            v.rigs@[i].bead_summary,
        )
    &&& v.total_agents == count_of(raw.summary.total_agents)
    &&& v.running_agents == count_of(raw.summary.running_agents)
    &&& v.health == city_health_spec(raw)
}

fn count(n: i64) -> (r: usize)
    ensures
        r == count_of(n),
{
    let m: i64 = if n > 0 {
        n
    } else {
        0
    };
    m as usize
}

/// Builds the city view from `gc status` and the bead summary fetched for
/// each of its rigs (in the same order).
pub fn assemble_city_view(raw: gc::StatusResult, bead_summaries: Vec<Option<QueueSummary>>) -> (v:
    CityView)
    requires
        bead_summaries@.len() == raw.rigs@.len(),
    ensures
        city_view_of(raw, v),
        forall|i: int| 0 <= i < raw.rigs@.len() ==> #[trigger] v.rigs@[i].bead_summary == bead_summaries@[i],
{
    let mut rigs: Vec<RigView> = Vec::new();
    let mut i: usize = 0;
    while i < raw.rigs.len()
        invariant
            i <= raw.rigs@.len(),
            bead_summaries@.len() == raw.rigs@.len(),
            rigs@.len() == i,
            forall|k: int|
                0 <= k < i ==> #[trigger] rigs@[k] == rig_view_spec(
                    raw.rigs@[k],
                    raw.agents@,
                    bead_summaries@[k],
                ),
        decreases raw.rigs@.len() - i,
    {
        let r = &raw.rigs[i];
        let running = has_live_agent(&raw.agents, r.name.as_str());
        let health = if r.suspended {
            Health::Suspended
        } else if running {
            Health::Healthy
        } else {
            Health::Dead
        };
        rigs.push(
            RigView {
                name: r.name.clone(),
                path: r.path.clone(),
                prefix: clone_opt(&r.prefix),
                running,
                suspended: r.suspended,
                health,
                bead_summary: bead_summaries[i],
            },
        );
        i += 1;
    }
    let overall = if raw.health.degraded || !raw.health.usable {
        Health::Dead
    } else if raw.partial {
        Health::Unknown
    } else {
        Health::Healthy
    };
    let total_agents = count(raw.summary.total_agents);
    let running_agents = count(raw.summary.running_agents);
    CityView {
        city_name: raw.city_name,
        city_path: raw.city_path,
        city_running: raw.running,
        controller_running: raw.controller.running,
        controller_pid: raw.controller.pid,
        controller_mode: raw.controller.mode,
        controller_status: raw.controller.status,
        suspended: raw.suspended,
        usable: raw.health.usable,
        degraded: raw.health.degraded,
        signals: raw.health.signals,
        partial: raw.partial,
        partial_errors: raw.partial_errors,
        rigs,
        total_agents,
        running_agents,
        health: overall,
    }
}

/// A rig's bead counts from its `bd status` answer: none when the request
/// failed.
pub open spec fn summary_of_answer(ans: Result<bd::StatusResult, String>) -> Option<QueueSummary> {
    match ans {
        Ok(st) => Some(queue_summary_of(st.summary)),
        Err(_) => None,
    }
}

/// A rig's bead counts from its `bd status` answer, or none when the
/// request failed.
pub fn summary_of_status(ans: &Result<bd::StatusResult, String>) -> (r: Option<QueueSummary>)
    ensures
        r == summary_of_answer(*ans),
{
    match ans {
        Ok(st) => Some(summary_from(&st.summary)),
        Err(_) => None,
    }
}

/// `s` is the bead summary made of some answer `bd` may give to `bd
/// status` in `dir`.
pub open spec fn summary_fetched<B: BdAdapter>(bd: B, dir: Seq<char>, s: Option<QueueSummary>) -> bool {
    exists|ans: Result<bd::StatusResult, String>|
        #[trigger] bd.status_answer(dir, ans) && s == summary_of_answer(ans)
}

/// City view for `gc status`'s answer, fetching one `bd status` per
/// non-suspended rig, in its directory. Suspended rigs never trigger the
/// extra call and carry no bead summary; an active rig carries the counts
/// its call answered, or none when the call failed.
pub fn city_view<G: GcAdapter, B: BdAdapter, T: GitAdapter>(
    adapters: &Adapters<G, B, T>,
    raw: gc::StatusResult,
) -> (v: CityView)
    ensures
        city_view_of(raw, v),
        forall|i: int|
            0 <= i < raw.rigs@.len() && raw.rigs@[i].suspended ==> (#[trigger] v.rigs@[i]).bead_summary
                is None,
        forall|i: int|
            0 <= i < raw.rigs@.len() && !raw.rigs@[i].suspended ==> summary_fetched(
                adapters.bd,
                raw.rigs@[i].path@,
                (#[trigger] v.rigs@[i]).bead_summary,
            ),
{
    let mut summaries: Vec<Option<QueueSummary>> = Vec::new();
    let mut i: usize = 0;
    while i < raw.rigs.len()
        invariant
            i <= raw.rigs@.len(),
            summaries@.len() == i,
            forall|k: int| 0 <= k < i && raw.rigs@[k].suspended ==> (#[trigger] summaries@[k]) is None,
            forall|k: int|
                0 <= k < i && !raw.rigs@[k].suspended ==> summary_fetched(
                    adapters.bd,
                    raw.rigs@[k].path@,
                    #[trigger] summaries@[k],
                ),
        decreases raw.rigs@.len() - i,
    {
        let r = &raw.rigs[i];
        if r.suspended {
            summaries.push(None);
        } else {
            let ans = adapters.bd.status(r.path.as_str());
            let s = summary_of_status(&ans);
            assert(summary_fetched(adapters.bd, r.path@, s));
            summaries.push(s);
        }
        i += 1;
    }
    let ghost s = summaries@;
    let v = assemble_city_view(raw, summaries);
    assert forall|i: int| 0 <= i < raw.rigs@.len() && raw.rigs@[i].suspended implies (
    #[trigger] v.rigs@[i]).bead_summary is None by {
        assert(v.rigs@[i].bead_summary == s[i]);
    }
    assert forall|i: int| 0 <= i < raw.rigs@.len() && !raw.rigs@[i].suspended implies summary_fetched(
        adapters.bd,
        raw.rigs@[i].path@,
        (#[trigger] v.rigs@[i]).bead_summary,
    ) by {
        assert(v.rigs@[i].bead_summary == s[i]);
    }
    v
}

// ---------------------------------------------------------------------------
// Queue
// ---------------------------------------------------------------------------

/// The healths of a list of beads.
pub open spec fn bead_healths(beads: Seq<BeadRef>) -> Seq<Health> {
    beads.map_values(|b: BeadRef| b.health)
}

/// Build the queue view for a rig from `bd status` + the in-progress bead
/// list (the only list needed in full detail; other buckets are counts).
/// The rig's signal is the worst of its in-progress beads'.
pub fn queue_view(
    rig_name: &str,
    rig_path: &str,
    rig_running: Option<bool>,
    status: bd::StatusResult,
    in_progress_raw: Vec<BeadRaw>,
    now: UnixTime,
    thresholds: &Thresholds,
) -> (v: QueueView)
    ensures
        v.rig_name@ == rig_name@,
        v.rig_path@ == rig_path@,
        v.rig_running == rig_running,
        v.summary == queue_summary_of(status.summary),
        v.in_progress@.len() == in_progress_raw@.len(),
        forall|i: int|
            0 <= i < in_progress_raw@.len() ==> #[trigger] v.in_progress@[i] == bead_ref_spec(
                in_progress_raw@[i],
                now,
                thresholds.stale_after_secs,
            ),
        v.health == worst_spec(bead_healths(v.in_progress@)),
{
    let mut beads: Vec<BeadRef> = Vec::new();
    let mut healths: Vec<Health> = Vec::new();
    let mut i: usize = 0;
    while i < in_progress_raw.len()
        invariant
            i <= in_progress_raw@.len(),
            beads@.len() == i,
            healths@ == bead_healths(beads@),
            forall|k: int|
                0 <= k < i ==> #[trigger] beads@[k] == bead_ref_spec(
                    in_progress_raw@[k],
                    now,
                    thresholds.stale_after_secs,
                ),
        decreases in_progress_raw@.len() - i,
    {
        let b = bead_ref(&in_progress_raw[i], now, thresholds);
        healths.push(b.health);
        beads.push(b);
        assert(healths@ =~= bead_healths(beads@));
        i += 1;
    }
    let health = worst_of(healths.as_slice());
    QueueView {
        rig_name: crate::text::owned(rig_name),
        rig_path: crate::text::owned(rig_path),
        rig_running,
        summary: summary_from(&status.summary),
        in_progress: beads,
        health,
    }
}

// ---------------------------------------------------------------------------
// Sessions and agents
// ---------------------------------------------------------------------------

/// The last peeked activity line per session id, carried between
/// refreshes.
pub struct ActivityLines {
    entries: Vec<(String, String)>,
}

/// No key occurs twice.
pub open spec fn keys_distinct(e: Seq<(String, String)>) -> bool {
    forall|i: int, j: int|
        0 <= i < e.len() && 0 <= j < e.len() && i != j ==> (#[trigger] e[i]).0@ != (#[trigger] e[j]).0@
}

/// The entries as a map from session id to line.
pub open spec fn entries_map(e: Seq<(String, String)>) -> Map<Seq<char>, Seq<char>> {
    Map::new(
        |k: Seq<char>| exists|i: int| 0 <= i < e.len() && (#[trigger] e[i]).0@ == k,
        |k: Seq<char>| e[choose|i: int| 0 <= i < e.len() && (#[trigger] e[i]).0@ == k].1@,
    )
}

impl View for ActivityLines {
    type V = Map<Seq<char>, Seq<char>>;

    closed spec fn view(&self) -> Map<Seq<char>, Seq<char>> {
        entries_map(self.entries@)
    }
}

impl ActivityLines {
    #[verifier::type_invariant]
    spec fn wf(self) -> bool {
        keys_distinct(self.entries@)
    }

    /// No cached lines.
    pub fn new() -> (r: ActivityLines)
        ensures
            r@ == Map::<Seq<char>, Seq<char>>::empty(),
    {
        let r = ActivityLines { entries: Vec::new() };
        assert(r@ =~= Map::<Seq<char>, Seq<char>>::empty());
        r
    }

    fn index_of(&self, id: &str) -> (r: Option<usize>)
        ensures
            r matches Some(i) ==> i < self.entries@.len() && self.entries@[i as int].0@ == id@,
            r is None ==> forall|j: int| 0 <= j < self.entries@.len() ==> (#[trigger] self.entries@[j]).0@ != id@,
    {
        let mut i: usize = 0;
        while i < self.entries.len()
            invariant
                i <= self.entries@.len(),
                forall|j: int| 0 <= j < i ==> (#[trigger] self.entries@[j]).0@ != id@,
            decreases self.entries@.len() - i,
        {
            if crate::text::str_eq(self.entries[i].0.as_str(), id) {
                return Some(i);
            }
            i += 1;
        }
        None
    }

    /// The cached line for session `id`.
    pub fn get(&self, id: &str) -> (r: Option<String>)
        ensures
            opt_str(r) == (if self@.contains_key(id@) {
                Some(self@[id@])
            } else {
                None
            }),
    {
        proof {
            use_type_invariant(self);
        }
        match self.index_of(id) {
            Some(i) => {
                assert(self@.contains_key(id@));
                let ghost j = choose|j: int|
                    0 <= j < self.entries@.len() && (#[trigger] self.entries@[j]).0@ == id@;
                assert(j == i);
                Some(self.entries[i].1.clone())
            },
            None => None,
        }
    }

    /// Caches `line` for session `id`, replacing any earlier line.
    pub fn insert(&mut self, id: String, line: String)
        ensures
            final(self)@ == old(self)@.insert(id@, line@),
    {
        proof {
            use_type_invariant(&*self);
        }
        let ghost old_e = self.entries@;
        match self.index_of(id.as_str()) {
            Some(i) => {
                let mut e: Vec<(String, String)> = Vec::new();
                std::mem::swap(&mut e, &mut self.entries);
                e.set(i, (id, line));
                let ghost ne = e@;
                assert(keys_distinct(ne));
                self.entries = e;
                assert(self@ =~= entries_map(old_e).insert(ne[i as int].0@, line@)) by {
                    assert forall|k: Seq<char>| #[trigger] self@.contains_key(k) implies self@[k]
                        == entries_map(old_e).insert(ne[i as int].0@, line@)[k] by {
                        let j = choose|j: int| 0 <= j < ne.len() && (#[trigger] ne[j]).0@ == k;
                        if j != i {
                            let j2 = choose|j2: int|
                                0 <= j2 < old_e.len() && (#[trigger] old_e[j2]).0@ == k;
                            assert(old_e[j].0@ == k);
                        }
                    }
                    assert forall|k: Seq<char>|
                        #[trigger] entries_map(old_e).insert(ne[i as int].0@, line@).contains_key(
                            k,
                        ) implies self@.contains_key(k) by {
                        if k != ne[i as int].0@ {
                            let j = choose|j: int| 0 <= j < old_e.len() && (#[trigger] old_e[j]).0@ == k;
                            assert(ne[j].0@ == k);
                        }
                    }
                }
            },
            None => {
                let mut e: Vec<(String, String)> = Vec::new();
                std::mem::swap(&mut e, &mut self.entries);
                let ghost idv = id@;
                e.push((id, line));
                let ghost ne = e@;
                assert(keys_distinct(ne));
                self.entries = e;
                assert(self@ =~= entries_map(old_e).insert(idv, line@)) by {
                    assert forall|k: Seq<char>| #[trigger] self@.contains_key(k) implies self@[k]
                        == entries_map(old_e).insert(idv, line@)[k] by {
                        let j = choose|j: int| 0 <= j < ne.len() && (#[trigger] ne[j]).0@ == k;
                        if k != idv {
                            assert(j < old_e.len());
                            assert(old_e[j].0@ == k);
                        }
                    }
                    assert forall|k: Seq<char>|
                        #[trigger] entries_map(old_e).insert(idv, line@).contains_key(
                            k,
                        ) implies self@.contains_key(k) by {
                        if k != idv {
                            let j = choose|j: int| 0 <= j < old_e.len() && (#[trigger] old_e[j]).0@ == k;
                            assert(ne[j].0@ == k);
                        } else {
                            assert(ne[old_e.len() as int].0@ == k);
                        }
                    }
                }
            },
        }
    }

    /// Drops the lines of every session not in `live_ids`.
    pub fn retain_ids(&mut self, live_ids: &Vec<String>)
        ensures
            final(self)@ == old(self)@.restrict(
                Set::new(|k: Seq<char>| exists|i: int| 0 <= i < live_ids@.len() && (#[trigger] live_ids@[i])@ == k),
            ),
    {
        proof {
            use_type_invariant(&*self);
        }
        let ghost live = Set::new(|k: Seq<char>| exists|i: int| 0 <= i < live_ids@.len() && (#[trigger] live_ids@[i])@ == k);
        let ghost old_e = self.entries@;
        let mut old_entries: Vec<(String, String)> = Vec::new();
        std::mem::swap(&mut old_entries, &mut self.entries);
        let mut kept: Vec<(String, String)> = Vec::new();
        let ghost mut src: Seq<int> = Seq::empty();
        let mut i: usize = 0;
        while i < old_entries.len()
            invariant
                i <= old_entries@.len(),
                old_entries@ == old_e,
                keys_distinct(old_e),
                live == Set::new(|k: Seq<char>| exists|i: int| 0 <= i < live_ids@.len() && (#[trigger] live_ids@[i])@ == k),
                src.len() == kept@.len(),
                forall|j: int| 0 <= j < src.len() ==> 0 <= #[trigger] src[j] < i,
                forall|a: int, b: int| 0 <= a < b < src.len() ==> src[a] < src[b],
                forall|j: int| 0 <= j < src.len() ==> kept@[j] == old_e[#[trigger] src[j]] && live.contains(old_e[src[j]].0@),
                forall|m: int| 0 <= m < i && live.contains(#[trigger] old_e[m].0@) ==> exists|j: int| 0 <= j < src.len() && src[j] == m,
            decreases old_entries@.len() - i,
        {
            let mut found = false;
            let mut k: usize = 0;
            while k < live_ids.len()
                invariant
                    k <= live_ids@.len(),
                    i < old_entries@.len(),
                    found == exists|m: int| 0 <= m < k && (#[trigger] live_ids@[m])@ == old_entries@[i as int].0@,
                decreases live_ids@.len() - k,
            {
                if crate::text::str_eq(live_ids[k].as_str(), old_entries[i].0.as_str()) {
                    found = true;
                }
                k += 1;
            }
            if found {
                kept.push((old_entries[i].0.clone(), old_entries[i].1.clone()));
                proof {
                    let old_src = src;
                    src = src.push(i as int);
                    assert forall|m: int| 0 <= m < i + 1 && live.contains(#[trigger] old_e[m].0@) implies exists|j: int| 0 <= j < src.len() && src[j] == m by {
                        if m < i {
                            let j = choose|j: int| 0 <= j < old_src.len() && old_src[j] == m;
                            assert(src[j] == m);
                        } else {
                            assert(src[src.len() - 1] == m);
                        }
                    }
                }
            } else {
                assert(!live.contains(old_e[i as int].0@));
            }
            i += 1;
        }
        let ghost ke = kept@;
        assert(keys_distinct(ke)) by {
            assert forall|a: int, b: int| 0 <= a < ke.len() && 0 <= b < ke.len() && a != b implies (#[trigger] ke[a]).0@ != (#[trigger] ke[b]).0@ by {
                assert(ke[a] == old_e[src[a]]);
                assert(ke[b] == old_e[src[b]]);
                assert(src[a] != src[b]);
            }
        }
        self.entries = kept;
        assert(self@ =~= entries_map(old_e).restrict(live)) by {
            assert forall|key: Seq<char>| #[trigger] self@.contains_key(key) implies entries_map(old_e).restrict(live).contains_key(key) && self@[key] == entries_map(old_e).restrict(live)[key] by {
                let j = choose|j: int| 0 <= j < ke.len() && (#[trigger] ke[j]).0@ == key;
                let m = src[j];
                assert(ke[j] == old_e[m]);
                let m2 = choose|m2: int| 0 <= m2 < old_e.len() && (#[trigger] old_e[m2]).0@ == key;
                assert(m2 == m);
            }
            assert forall|key: Seq<char>| #[trigger] entries_map(old_e).restrict(live).contains_key(key) implies self@.contains_key(key) by {
                let m = choose|m: int| 0 <= m < old_e.len() && (#[trigger] old_e[m]).0@ == key;
                let j = choose|j: int| 0 <= j < src.len() && src[j] == m;
                assert(ke[j] == old_e[src[j]]);
                assert(ke[j].0@ == key);
            }
        }
    }
}

/// Session liveness as shown: how long ago the session last showed real
/// activity and the last activity line peeked from it, if any.
#[derive(Debug, Clone)]
pub struct SessionSignal {
    pub session_id: String,
    pub last_active_secs: Option<i64>,
    pub activity_line: Option<String>,
}

/// The zero-value timestamp `gc` reports for a session that has never been
/// active.
pub open spec fn never_active_sentinel() -> Seq<char> {
    "0001-01-01T00:00:00Z"@
}

/// Seconds since a session's `last_active`, with the never-active sentinel
/// (and a missing or unparsable timestamp) read as unknown.
pub open spec fn heartbeat_age(last_active: Option<String>, now: UnixTime) -> Option<i64> {
    match last_active {
        None => None,
        Some(t) => if t@ == never_active_sentinel() {
            None
        } else {
            age_spec(Some(t@), now)
        },
    }
}

fn heartbeat_age_of(last_active: &Option<String>, now: UnixTime) -> (r: Option<i64>)
    ensures
        r == heartbeat_age(*last_active, now),
{
    match last_active {
        None => None,
        Some(t) => if crate::text::str_eq(t.as_str(), "0001-01-01T00:00:00Z") {
            None
        } else {
            age_secs(Some(t.as_str()), now)
        },
    }
}

/// The signal shown for one session.
pub open spec fn session_signal_of(
    s: gc::SessionRaw,
    lines: Map<Seq<char>, Seq<char>>,
    now: UnixTime,
    sig: SessionSignal,
) -> bool {
    &&& sig.session_id == s.id
    &&& sig.last_active_secs == heartbeat_age(s.last_active, now)
    &&& opt_str(sig.activity_line) == (if lines.contains_key(s.id@) {
        Some(lines[s.id@])
    } else {
        None
    })
}

/// One signal per listed session, in order: its heartbeat age and its
/// cached activity line.
pub fn session_signals(
    session_list: &gc::SessionListResult,
    activity_lines: &ActivityLines,
    now: UnixTime,
) -> (r: Vec<SessionSignal>)
    ensures
        r@.len() == session_list.sessions@.len(),
        forall|i: int|
            0 <= i < r@.len() ==> session_signal_of(
                session_list.sessions@[i],
                activity_lines@,
                now,
                #[trigger] r@[i],
            ),
{
    let mut out: Vec<SessionSignal> = Vec::new();
    let mut i: usize = 0;
    while i < session_list.sessions.len()
        invariant
            i <= session_list.sessions@.len(),
            out@.len() == i,
            forall|k: int|
                0 <= k < i ==> session_signal_of(
                    session_list.sessions@[k],
                    activity_lines@,
                    now,
                    #[trigger] out@[k],
                ),
        decreases session_list.sessions@.len() - i,
    {
        let s = &session_list.sessions[i];
        out.push(
            SessionSignal {
                session_id: s.id.clone(),
                last_active_secs: heartbeat_age_of(&s.last_active, now),
                activity_line: activity_lines.get(s.id.as_str()),
            },
        );
        i += 1;
    }
    out
}

/// Is the bead assigned to `session`?
pub open spec fn assigned_to(session: Seq<char>) -> spec_fn(BeadRaw) -> bool {
    |b: BeadRaw| opt_str(b.assignee) == Some(session)
}

/// The in-progress bead an agent is working on: the first bead assigned to
/// the agent's runtime session name.
pub open spec fn current_bead_spec(
    a: gc::RigAgentRaw,
    beads: Seq<BeadRaw>,
    now: UnixTime,
    stale_after: i64,
) -> Option<BeadRef> {
    match a.runtime_session_name {
        None => None,
        Some(s) => match first_where(beads, assigned_to(s@)) {
            Some(i) => Some(bead_ref_spec(beads[i], now, stale_after)),
            None => None,
        },
    }
}

/// Does the signal belong to session `id`?
pub open spec fn signal_of_session(id: Seq<char>) -> spec_fn(SessionSignal) -> bool {
    |g: SessionSignal| g.session_id@ == id
}

/// The session signal of an agent: the first one for its session id.
pub open spec fn signal_for(a: gc::RigAgentRaw, sessions: Seq<SessionSignal>) -> Option<
    SessionSignal,
> {
    match a.session_id {
        None => None,
        Some(id) => match first_where(sessions, signal_of_session(id@)) {
            Some(i) => Some(sessions[i]),
            None => None,
        },
    }
}

/// How long ago the agent last showed activity: its session's heartbeat
/// when there is one, else the age of the bead it is working on.
pub open spec fn activity_age(last_active: Option<i64>, current: Option<BeadRef>) -> Option<i64> {
    match last_active {
        Some(x) => Some(x),
        None => match current {
            Some(b) => b.age_secs,
            None => None,
        },
    }
}

/// `v` is the view of agent `a`.
pub open spec fn agent_view_of(
    a: gc::RigAgentRaw,
    beads: Seq<BeadRaw>,
    sessions: Seq<SessionSignal>,
    now: UnixTime,
    stale_after: i64,
    v: AgentView,
) -> bool {
    let cb = current_bead_spec(a, beads, now, stale_after);
    let sig = signal_for(a, sessions);
    let last_active = match sig {
        Some(g) => g.last_active_secs,
        None => None,
    };
    &&& v.name == a.name
    &&& v.qualified_name == a.qualified_name
    &&& v.scope@ == "rig"@
    &&& v.running == a.running
    &&& v.suspended == a.suspended
    &&& v.draining == a.draining
    &&& v.raw_status == a.status
    &&& v.session_id == a.session_id
    &&& v.runtime_session_name == a.runtime_session_name
    &&& v.current_bead == cb
    &&& v.last_active_secs == last_active
    &&& v.activity_line == (match sig {
        Some(g) => g.activity_line,
        None => None,
    })
    &&& v.health == agent_health_spec(
        a.running,
        a.suspended,
        a.draining,
        activity_age(last_active, cb),
        stale_after,
    )
}

fn find_current_bead(session: &str, beads: &[BeadRaw], now: UnixTime, thresholds: &Thresholds) -> (r:
    Option<BeadRef>)
    ensures
        r == (match first_where(beads@, assigned_to(session@)) {
            Some(i) => Some(bead_ref_spec(beads@[i], now, thresholds.stale_after_secs)),
            None => None,
        }),
{
    let mut i: usize = 0;
    proof {
        lemma_skip_all(beads@);
    }
    while i < beads.len()
        invariant
            i <= beads@.len(),
            first_where(beads@, assigned_to(session@)) == shift(
                first_where(beads@.skip(i as int), assigned_to(session@)),
                i as int,
            ),
        decreases beads@.len() - i,
    {
        proof {
            lemma_first_where_step(beads@, assigned_to(session@), i as int);
        }
        let hit = match &beads[i].assignee {
            Some(a) => crate::text::str_eq(a.as_str(), session),
            None => false,
        };
        if hit {
            return Some(bead_ref(&beads[i], now, thresholds));
        }
        i += 1;
    }
    proof {
        lemma_skip_all(beads@);
    }
    None
}

fn find_signal(id: &str, sessions: &[SessionSignal]) -> (r: Option<usize>)
    ensures
        r matches Some(i) ==> i < sessions@.len() && first_where(sessions@, signal_of_session(id@))
            == Some(i as int),
        r is None ==> first_where(sessions@, signal_of_session(id@)) is None,
{
    let mut i: usize = 0;
    proof {
        lemma_skip_all(sessions@);
    }
    while i < sessions.len()
        invariant
            i <= sessions@.len(),
            first_where(sessions@, signal_of_session(id@)) == shift(
                first_where(sessions@.skip(i as int), signal_of_session(id@)),
                i as int,
            ),
        decreases sessions@.len() - i,
    {
        proof {
            lemma_first_where_step(sessions@, signal_of_session(id@), i as int);
        }
        if crate::text::str_eq(sessions[i].session_id.as_str(), id) {
            return Some(i);
        }
        i += 1;
    }
    proof {
        lemma_skip_all(sessions@);
    }
    None
}

/// Join the rig's agents against in-progress beads by `assignee ==
/// runtime_session_name` to show what each agent is doing, and against the
/// session signals by session id to show when it last did anything.
pub fn agent_views(
    agents_raw: Vec<gc::RigAgentRaw>,
    in_progress_raw: &[BeadRaw],
    sessions: &[SessionSignal],
    now: UnixTime,
    thresholds: &Thresholds,
) -> (r: Vec<AgentView>)
    ensures
        r@.len() == agents_raw@.len(),
        forall|i: int|
            0 <= i < r@.len() ==> agent_view_of(
                agents_raw@[i],
                in_progress_raw@,
                sessions@,
                now,
                thresholds.stale_after_secs,
                #[trigger] r@[i],
            ),
{
    let mut out: Vec<AgentView> = Vec::new();
    let mut i: usize = 0;
    while i < agents_raw.len()
        invariant
            i <= agents_raw@.len(),
            out@.len() == i,
            forall|k: int|
                0 <= k < i ==> agent_view_of(
                    agents_raw@[k],
                    in_progress_raw@,
                    sessions@,
                    now,
                    thresholds.stale_after_secs,
                    #[trigger] out@[k],
                ),
        decreases agents_raw@.len() - i,
    {
        let a = &agents_raw[i];
        let current_bead = match &a.runtime_session_name {
            Some(s) => find_current_bead(s.as_str(), in_progress_raw, now, thresholds),
            None => None,
        };
        let (last_active_secs, activity_line) = match &a.session_id {
            Some(id) => match find_signal(id.as_str(), sessions) {
                Some(k) => (sessions[k].last_active_secs, clone_opt(&sessions[k].activity_line)),
                None => (None, None),
            },
            None => (None, None),
        };
        let activity = match last_active_secs {
            Some(x) => Some(x),
            None => match &current_bead {
                Some(b) => b.age_secs,
                None => None,
            },
        };
        let health = agent_health(a.running, a.suspended, a.draining, activity, thresholds);
        out.push(
            AgentView {
                name: a.name.clone(),
                qualified_name: a.qualified_name.clone(),
                scope: crate::text::owned("rig"),
                running: a.running,
                suspended: a.suspended,
                draining: a.draining,
                raw_status: clone_opt(&a.status),
                session_id: clone_opt(&a.session_id),
                runtime_session_name: clone_opt(&a.runtime_session_name),
                current_bead,
                last_active_secs,
                activity_line,
                health,
            },
        );
        i += 1;
    }
    out
}

/// `qv` holds the beads of `beads`, aged at `now`, in order, and their
/// worst signal.
pub open spec fn queue_from_beads(qv: QueueView, beads: Seq<BeadRaw>, now: UnixTime, stale_after: i64) -> bool {
    &&& qv.in_progress@.len() == beads.len()
    &&& forall|i: int|
        0 <= i < beads.len() ==> #[trigger] qv.in_progress@[i] == bead_ref_spec(beads[i], now, stale_after)
    &&& qv.health == worst_spec(bead_healths(qv.in_progress@))
}

/// `views` are the views of `agents`, in order, joined against `beads` and
/// `sessions` at `now`.
pub open spec fn agents_from(
    views: Seq<AgentView>,
    agents: Seq<gc::RigAgentRaw>,
    beads: Seq<BeadRaw>,
    sessions: Seq<SessionSignal>,
    now: UnixTime,
    stale_after: i64,
) -> bool {
    &&& views.len() == agents.len()
    &&& forall|i: int|
        0 <= i < agents.len() ==> agent_view_of(agents[i], beads, sessions, now, stale_after, #[trigger] views[i])
}

/// `sessions` are the signals of the listed sessions, in order, with the
/// cached lines `lines`, at `now`.
pub open spec fn signals_from(
    sessions: Seq<SessionSignal>,
    listed: Seq<gc::SessionRaw>,
    lines: Map<Seq<char>, Seq<char>>,
    now: UnixTime,
) -> bool {
    &&& sessions.len() == listed.len()
    &&& forall|i: int| 0 <= i < listed.len() ==> session_signal_of(listed[i], lines, now, #[trigger] sessions[i])
}

/// `v` is the queue view of rig `x` from its `bd status` counts `st` and
/// its in-progress beads, aged at `now`.
pub open spec fn queue_of(
    v: QueueView,
    x: gc::RigRaw,
    st: bd::StatusResult,
    beads: Seq<BeadRaw>,
    now: UnixTime,
    stale_after: i64,
) -> bool {
    &&& v.rig_name@ == x.name@
    &&& v.rig_path@ == x.path@
    &&& v.rig_running == x.running
    &&& v.summary == queue_summary_of(st.summary)
    &&& queue_from_beads(v, beads, now, stale_after)
}

/// `r` is what the queue of rig `x` comes to from the answers to its two
/// requests: the counts' error first, then the list's, else the view.
pub open spec fn queue_answered(
    r: Result<QueueView, String>,
    x: gc::RigRaw,
    st: Result<bd::StatusResult, String>,
    listed: Result<Vec<BeadRaw>, String>,
    now: UnixTime,
    stale_after: i64,
) -> bool {
    match st {
        Err(e) => r == Err::<QueueView, String>(e),
        Ok(counts) => match listed {
            Err(e) => r == Err::<QueueView, String>(e),
            Ok(beads) => r matches Ok(v) && queue_of(v, x, counts, beads@, now, stale_after),
        },
    }
}

/// `r` is the queue of rig `x` for some answers `bd` may give to `bd
/// status` and to `bd list` of the in-progress beads, both in the rig's
/// directory.
pub open spec fn queue_fetched<B: BdAdapter>(
    bd: B,
    x: gc::RigRaw,
    now: UnixTime,
    stale_after: i64,
    r: Result<QueueView, String>,
) -> bool {
    exists|st: Result<bd::StatusResult, String>, listed: Result<Vec<BeadRaw>, String>|
        #![trigger bd.status_answer(x.path@, st), bd.list_answer(x.path@, "in_progress"@, listed)]
        bd.status_answer(x.path@, st) && bd.list_answer(x.path@, "in_progress"@, listed)
            && queue_answered(r, x, st, listed, now, stale_after)
}

/// The `queue` view of rig `rig` at time `now`: the rig resolved, its bead
/// counts and in-progress beads fetched (both, before either answer is
/// looked at), then `queue_view`. The first error among the resolution and
/// the two fetches is returned as it came.
pub fn rig_queue<G: GcAdapter, B: BdAdapter, T: GitAdapter>(
    adapters: &Adapters<G, B, T>,
    city: Option<&str>,
    rig: &str,
    now: UnixTime,
    thresholds: &Thresholds,
) -> (r: Result<QueueView, String>)
    ensures
        exists|res: Result<gc::RigRaw, String>|
            #[trigger] resolve_outcome(adapters.gc, arg_view(city), rig@, res) && match res {
                Err(e) => r == Err::<QueueView, String>(e),
                Ok(x) => queue_fetched(adapters.bd, x, now, thresholds.stale_after_secs, r),
            },
        r matches Ok(v) ==> v.rig_name@ == rig@,
{
    let resolved = adapters.resolve_rig(city, rig);
    let resolved = match resolved {
        Ok(x) => x,
        Err(e) => return Err(e),
    };
    let bd_status = adapters.bd.status(resolved.path.as_str());
    let in_progress = adapters.bd.list(resolved.path.as_str(), "in_progress");
    let ghost st = bd_status;
    let ghost listed = in_progress;
    let bd_status = match bd_status {
        Ok(s) => s,
        Err(e) => {
            assert(queue_answered(Err(e), resolved, st, listed, now, thresholds.stale_after_secs));
            return Err(e);
        },
    };
    let in_progress = match in_progress {
        Ok(l) => l,
        Err(e) => {
            assert(queue_answered(Err(e), resolved, st, listed, now, thresholds.stale_after_secs));
            return Err(e);
        },
    };
    let ghost beads = in_progress@;
    let v = queue_view(
        resolved.name.as_str(),
        resolved.path.as_str(),
        resolved.running,
        bd_status,
        in_progress,
        now,
        thresholds,
    );
    assert(queue_from_beads(v, beads, now, thresholds.stale_after_secs));
    assert(queue_answered(Ok(v), resolved, st, listed, now, thresholds.stale_after_secs));
    Ok(v)
}

/// `r` is what the agents of rig `x` come to from the answers to its three
/// requests (in-progress beads, rig status, session list), the first error
/// among them returned as it came: else the rig's name, the views of the
/// rig's agents joined against the beads and the listed sessions' signals
/// (with no cached activity lines), and whether the rig is suspended.
pub open spec fn agents_answered(
    r: Result<(String, Vec<AgentView>, bool), String>,
    x: gc::RigRaw,
    listed: Result<Vec<BeadRaw>, String>,
    status: Result<gc::RigStatusResult, String>,
    session_list: Result<gc::SessionListResult, String>,
    now: UnixTime,
    stale_after: i64,
) -> bool {
    match listed {
        Err(e) => r == Err::<(String, Vec<AgentView>, bool), String>(e),
        Ok(beads) => match status {
            Err(e) => r == Err::<(String, Vec<AgentView>, bool), String>(e),
            Ok(rs) => match session_list {
                Err(e) => r == Err::<(String, Vec<AgentView>, bool), String>(e),
                Ok(sl) => r matches Ok(out) && out.0@ == x.name@ && out.2 == rs.rig.suspended
                    && exists|sessions: Seq<SessionSignal>|
                    #![trigger agents_from(out.1@, rs.agents@, beads@, sessions, now, stale_after)]
                    agents_from(out.1@, rs.agents@, beads@, sessions, now, stale_after)
                        && signals_from(
                        sessions,
                        sl.sessions@,
                        Map::<Seq<char>, Seq<char>>::empty(),
                        now,
                    ),
            },
        },
    }
}

/// `r` is the agents of rig `x` for some answers the adapters may give to
/// `bd list` of the in-progress beads in the rig's directory, to `gc rig
/// status` for `rig` and to `gc session list`, both in `city`.
pub open spec fn agents_fetched<G: GcAdapter, B: BdAdapter>(
    gc: G,
    bd: B,
    city: Option<Seq<char>>,
    rig: Seq<char>,
    x: gc::RigRaw,
    now: UnixTime,
    stale_after: i64,
    r: Result<(String, Vec<AgentView>, bool), String>,
) -> bool {
    exists|
        listed: Result<Vec<BeadRaw>, String>,
        status: Result<gc::RigStatusResult, String>,
        session_list: Result<gc::SessionListResult, String>,
    |
        #![trigger bd.list_answer(x.path@, "in_progress"@, listed), gc.rig_status_answer(city, rig, status), gc.session_list_answer(city, session_list)]
        bd.list_answer(x.path@, "in_progress"@, listed) && gc.rig_status_answer(city, rig, status)
            && gc.session_list_answer(city, session_list) && agents_answered(
            r,
            x,
            listed,
            status,
            session_list,
            now,
            stale_after,
        )
}

/// The `agents` view of rig `rig` at time `now`: the rig resolved, then its
/// in-progress beads, its agents and the city's sessions fetched (all three
/// before any answer is looked at), then `agent_views` with no cached
/// activity lines. Gives the resolved rig's name, the views, and whether
/// the rig is suspended; the first error is returned as it came.
pub fn rig_agents<G: GcAdapter, B: BdAdapter, T: GitAdapter>(
    adapters: &Adapters<G, B, T>,
    city: Option<&str>,
    rig: &str,
    now: UnixTime,
    thresholds: &Thresholds,
) -> (r: Result<(String, Vec<AgentView>, bool), String>)
    ensures
        exists|res: Result<gc::RigRaw, String>|
            #[trigger] resolve_outcome(adapters.gc, arg_view(city), rig@, res) && match res {
                Err(e) => r == Err::<(String, Vec<AgentView>, bool), String>(e),
                Ok(x) => agents_fetched(
                    adapters.gc,
                    adapters.bd,
                    arg_view(city),
                    rig@,
                    x,
                    now,
                    thresholds.stale_after_secs,
                    r,
                ),
            },
        r matches Ok(x) ==> x.0@ == rig@,
{
    let resolved = adapters.resolve_rig(city, rig);
    let resolved = match resolved {
        Ok(x) => x,
        Err(e) => return Err(e),
    };
    let in_progress = adapters.bd.list(resolved.path.as_str(), "in_progress");
    let rig_status = adapters.gc.rig_status(city, rig);
    let session_list = adapters.gc.session_list(city);
    let ghost a1 = in_progress;
    let ghost a2 = rig_status;
    let ghost a3 = session_list;
    let stale = thresholds.stale_after_secs;
    let in_progress = match in_progress {
        Ok(l) => l,
        Err(e) => {
            assert(agents_answered(Err(e), resolved, a1, a2, a3, now, stale));
            return Err(e);
        },
    };
    let rig_status = match rig_status {
        Ok(s) => s,
        Err(e) => {
            assert(agents_answered(Err(e), resolved, a1, a2, a3, now, stale));
            return Err(e);
        },
    };
    let session_list = match session_list {
        Ok(s) => s,
        Err(e) => {
            assert(agents_answered(Err(e), resolved, a1, a2, a3, now, stale));
            return Err(e);
        },
    };
    let suspended = rig_status.rig.suspended;
    let ghost agents = rig_status.agents@;
    let no_lines = ActivityLines::new();
    let sessions = session_signals(&session_list, &no_lines, now);
    let views = agent_views(rig_status.agents, in_progress.as_slice(), sessions.as_slice(), now, thresholds);
    assert(agents_from(views@, agents, in_progress@, sessions@, now, stale));
    assert(signals_from(sessions@, session_list.sessions@, Map::<Seq<char>, Seq<char>>::empty(), now));
    let ghost x = resolved;
    let out = (resolved.name, views, suspended);
    assert(a1 == Ok::<Vec<BeadRaw>, String>(in_progress));
    assert(a3 == Ok::<gc::SessionListResult, String>(session_list));
    assert(a2 matches Ok(rs) && rs.agents@ == agents && rs.rig.suspended == suspended);
    assert(agents_from(out.1@, agents, in_progress@, sessions@, now, stale));
    assert(agents_answered(Ok(out), x, a1, a2, a3, now, stale));
    Ok(out)
}

/// A session `gc` calls active whose heartbeat is stale or has never
/// fired -- the case `gc session prune` can't reach, since prune only ages
/// out sessions already labelled suspended/asleep/drained.
pub open spec fn is_zombie(s: gc::SessionRaw, now: UnixTime, stale_after: i64) -> bool {
    s.state@ == "active"@ && match heartbeat_age(s.last_active, now) {
        None => true,
        Some(age) => age > stale_after,
    }
}

/// The zombie sessions among `sessions`, in order.
pub open spec fn zombie_sources(sessions: Seq<gc::SessionRaw>, now: UnixTime, stale_after: i64) -> Seq<
    gc::SessionRaw,
>
    decreases sessions.len(),
{
    if sessions.len() == 0 {
        Seq::empty()
    } else {
        let rest = zombie_sources(sessions.drop_last(), now, stale_after);
        if is_zombie(sessions.last(), now, stale_after) {
            rest.push(sessions.last())
        } else {
            rest
        }
    }
}

/// The report entry for zombie session `s`: its identity, heartbeat age,
/// and the commands a person could run to clear it.
pub open spec fn zombie_of(s: gc::SessionRaw, now: UnixTime, z: crate::model::ZombieSession) -> bool {
    &&& z.id == s.id
    &&& z.name == s.name
    &&& z.rig == s.rig
    &&& z.last_active_secs == heartbeat_age(s.last_active, now)
    &&& crate::sources::proc::views(z.suggested_commands@) == seq![
        "gc session kill "@ + s.id@,
        "gc session close "@ + s.id@,
    ]
}

/// Scan the session list for sessions `gc` still calls active whose real
/// activity heartbeat is stale or missing. Nothing is killed or closed:
/// each zombie carries the commands for a person to run.
pub fn zombie_sessions(session_list: &gc::SessionListResult, now: UnixTime, thresholds: &Thresholds) -> (r:
    crate::model::SessionsReport)
    ensures
        r.total_sessions == session_list.sessions@.len(),
        r.zombies@.len() == zombie_sources(
            session_list.sessions@,
            now,
            thresholds.stale_after_secs,
        ).len(),
        forall|i: int|
            0 <= i < r.zombies@.len() ==> zombie_of(
                zombie_sources(session_list.sessions@, now, thresholds.stale_after_secs)[i],
                now,
                #[trigger] r.zombies@[i],
            ),
{
    let ghost ss = session_list.sessions@;
    let ghost stale = thresholds.stale_after_secs;
    let mut zombies: Vec<crate::model::ZombieSession> = Vec::new();
    let mut i: usize = 0;
    while i < session_list.sessions.len()
        invariant
            i <= ss.len(),
            ss == session_list.sessions@,
            stale == thresholds.stale_after_secs,
            zombies@.len() == zombie_sources(ss.take(i as int), now, stale).len(),
            forall|k: int|
                0 <= k < zombies@.len() ==> zombie_of(
                    zombie_sources(ss.take(i as int), now, stale)[k],
                    now,
                    #[trigger] zombies@[k],
                ),
        decreases ss.len() - i,
    {
        let s = &session_list.sessions[i];
        assert(ss.take(i + 1).drop_last() =~= ss.take(i as int));
        assert(ss.take(i + 1).last() == ss[i as int]);
        let age = heartbeat_age_of(&s.last_active, now);
        let stale_or_silent = match age {
            None => true,
            Some(a) => a > thresholds.stale_after_secs,
        };
        if crate::text::str_eq(s.state.as_str(), "active") && stale_or_silent {
            let mut cmds: Vec<String> = Vec::new();
            cmds.push(crate::text::concat("gc session kill ", s.id.as_str()));
            cmds.push(crate::text::concat("gc session close ", s.id.as_str()));
            assert(crate::sources::proc::views(cmds@) =~= seq![
                "gc session kill "@ + s.id@,
                "gc session close "@ + s.id@,
            ]);
            zombies.push(
                crate::model::ZombieSession {
                    id: s.id.clone(),
                    name: s.name.clone(),
                    rig: clone_opt(&s.rig),
                    last_active_secs: age,
                    suggested_commands: cmds,
                },
            );
        }
        i += 1;
    }
    assert(ss.take(ss.len() as int) =~= ss);
    crate::model::SessionsReport { total_sessions: session_list.sessions.len(), zombies }
}

/// The sessions of `sessions` that belong to rig `rig`, in order.
pub open spec fn sessions_on_rig_spec(sessions: Seq<gc::SessionRaw>, rig: Seq<char>) -> Seq<gc::SessionRaw>
    decreases sessions.len(),
{
    if sessions.len() == 0 {
        Seq::empty()
    } else {
        let rest = sessions_on_rig_spec(sessions.drop_last(), rig);
        if opt_str(sessions.last().rig) == Some(rig) {
            rest.push(sessions.last())
        } else {
            rest
        }
    }
}

fn copy_session(s: &gc::SessionRaw) -> (c: gc::SessionRaw)
    ensures
        c == *s,
{
    gc::SessionRaw {
        id: s.id.clone(),
        name: s.name.clone(),
        rig: clone_opt(&s.rig),
        state: s.state.clone(),
        last_active: clone_opt(&s.last_active),
        attached: s.attached,
        closed: s.closed,
    }
}

/// The session list a zombie scan looks at: every session, or only those
/// of rig `rig` when one is named.
pub fn sessions_on_rig(list: gc::SessionListResult, rig: Option<&str>) -> (r: gc::SessionListResult)
    ensures
        rig is None ==> r.sessions@ == list.sessions@,
        rig matches Some(name) ==> r.sessions@ == sessions_on_rig_spec(list.sessions@, name@),
{
    let name = match rig {
        None => return list,
        Some(n) => n,
    };
    let mut out: Vec<gc::SessionRaw> = Vec::new();
    let mut i: usize = 0;
    while i < list.sessions.len()
        invariant
            i <= list.sessions@.len(),
            rig == Some(name),
            out@ == sessions_on_rig_spec(list.sessions@.take(i as int), name@),
        decreases list.sessions@.len() - i,
    {
        assert(list.sessions@.take(i + 1).drop_last() =~= list.sessions@.take(i as int));
        assert(list.sessions@.take(i + 1).last() == list.sessions@[i as int]);
        let s = &list.sessions[i];
        let on_rig = match &s.rig {
            Some(r) => crate::text::str_eq(r.as_str(), name),
            None => false,
        };
        if on_rig {
            out.push(copy_session(s));
        }
        i += 1;
    }
    assert(list.sessions@.take(list.sessions@.len() as int) =~= list.sessions@);
    gc::SessionListResult { sessions: out }
}

// ---------------------------------------------------------------------------
// DAG
// ---------------------------------------------------------------------------

/// Git is asked about a bead only when it is in progress and records both
/// its work branch and the branch it should land on.
pub open spec fn git_check_applies(b: BeadRaw) -> bool {
    &&& BeadStage::stage_of(b.status@) == BeadStage::Active
    &&& bd::lookup(b.metadata@, "branch"@) is Some
    &&& bd::lookup(b.metadata@, "gc.work_branch"@) is Some
}

/// `n` is the DAG node for bead `b`, except that whether its branch has
/// landed is only constrained to need a git check.
pub open spec fn dag_node_of(b: BeadRaw, now: UnixTime, n: DagNode) -> bool {
    &&& n.id == b.id
    &&& n.title == b.title
    &&& n.status == b.status
    &&& n.priority == b.priority
    &&& n.assignee == b.assignee
    &&& n.parent == b.parent
    &&& crate::sources::proc::views(n.blocked_by@) == bd::blockers(b.dependencies@)
    &&& n.age_secs == age_spec(opt_str(b.updated_at), now)
    &&& n.stage == BeadStage::stage_of(b.status@)
    &&& (n.landed_unmerged ==> git_check_applies(b))
}

/// Only an in-progress bead is ever flagged "landed, not closed": a DAG
/// node whose bead has any other status -- closed, open, blocked, ... --
/// never carries the flag, whatever git answered.
pub proof fn law_only_in_progress_beads_land(b: BeadRaw, now: UnixTime, n: DagNode)
    requires
        dag_node_of(b, now, n),
        b.status@ != "in_progress"@,
    ensures
        !n.landed_unmerged,
{
}

/// Git is asked about a bead only when it is in progress.
pub proof fn law_git_checks_only_in_progress_beads(b: BeadRaw)
    ensures
        git_check_applies(b) ==> b.status@ == "in_progress"@,
{
}

/// The DAG node for one bead, given whether git reports its branch as
/// already merged into its target.
pub fn dag_node(b: &BeadRaw, now: UnixTime, merged: bool) -> (n: DagNode)
    ensures
        dag_node_of(*b, now, n),
        n.landed_unmerged == (merged && git_check_applies(*b)),
{
    let age = age_of(&b.updated_at, now);
    let stage = BeadStage::from_status(b.status.as_str());
    let applies = stage == BeadStage::Active && b.branch().is_some()
        && b.work_branch().is_some();
    DagNode {
        id: b.id.clone(),
        title: b.title.clone(),
        status: b.status.clone(),
        priority: b.priority,
        assignee: clone_opt(&b.assignee),
        parent: clone_opt(&b.parent),
        blocked_by: b.blocked_by(),
        age_secs: age,
        stage,
        landed_unmerged: merged && applies,
    }
}

/// Whether bead `b`'s node reads "landed but not closed": for a bead git
/// is asked about, some answer the git adapter may give to whether its work
/// branch landed on its target branch in the repository at `repo`; for any
/// other bead, no.
pub open spec fn landed_fetched<T: GitAdapter>(git: T, repo: Seq<char>, b: BeadRaw, landed: bool) -> bool {
    if git_check_applies(b) {
        exists|merged: bool|
            #[trigger] git.is_merged_answer(
                repo,
                bd::lookup(b.metadata@, "branch"@)->Some_0,
                bd::lookup(b.metadata@, "gc.work_branch"@)->Some_0,
                merged,
            ) && landed == merged
    } else {
        !landed
    }
}

/// `nodes` are the DAG nodes of `beads`, in order, aged at `now`, each
/// one's landed flag as git answered for the rig's repository `repo`.
pub open spec fn nodes_from<T: GitAdapter>(
    git: T,
    repo: Seq<char>,
    nodes: Seq<DagNode>,
    beads: Seq<BeadRaw>,
    now: UnixTime,
) -> bool {
    &&& nodes.len() == beads.len()
    &&& forall|i: int|
        0 <= i < beads.len() ==> dag_node_of(beads[i], now, #[trigger] nodes[i]) && landed_fetched(
            git,
            repo,
            beads[i],
            nodes[i].landed_unmerged,
        )
}

/// Same as `dag_view`, but takes an already-fetched bead list instead of
/// fetching it. Git is asked, in the rig's directory, per in-progress bead
/// with branch metadata, whether its branch already landed on its target.
pub fn dag_view_from_beads<G: GcAdapter, B: BdAdapter, T: GitAdapter>(
    adapters: &Adapters<G, B, T>,
    rig: &gc::RigRaw,
    beads: &[BeadRaw],
    now: UnixTime,
) -> (v: DagView)
    ensures
        v.rig_name == rig.name,
        v.rig_path == rig.path,
        nodes_from(adapters.git, rig.path@, v.nodes@, beads@, now),
{
    let mut nodes: Vec<DagNode> = Vec::new();
    let mut i: usize = 0;
    while i < beads.len()
        invariant
            i <= beads@.len(),
            nodes@.len() == i,
            forall|k: int|
                0 <= k < i ==> dag_node_of(beads@[k], now, #[trigger] nodes@[k]) && landed_fetched(
                    adapters.git,
                    rig.path@,
                    beads@[k],
                    nodes@[k].landed_unmerged,
                ),
        decreases beads@.len() - i,
    {
        let b = &beads[i];
        let merged = if BeadStage::from_status(b.status.as_str()) == BeadStage::Active {
            match (b.branch(), b.work_branch()) {
                (Some(branch), Some(target)) => {
                    let m = adapters.git.is_merged(rig.path.as_str(), branch.as_str(), target.as_str());
                    assert(bd::lookup(b.metadata@, "branch"@)->Some_0 == branch@);
                    assert(bd::lookup(b.metadata@, "gc.work_branch"@)->Some_0 == target@);
                    m
                },
                _ => false,
            }
        } else {
            false
        };
        let n = dag_node(b, now, merged);
        assert(landed_fetched(adapters.git, rig.path@, *b, n.landed_unmerged));
        nodes.push(n);
        i += 1;
    }
    DagView { rig_name: rig.name.clone(), rig_path: rig.path.clone(), nodes }
}

/// The statuses a DAG lists: every one but closed, unless closed beads
/// are included.
pub open spec fn dag_statuses(include_closed: bool) -> Seq<char> {
    if include_closed {
        "open,in_progress,blocked,deferred,closed"@
    } else {
        "open,in_progress,blocked,deferred"@
    }
}

/// The status filter handed to `bd list` for a DAG.
pub fn dag_status_filter(include_closed: bool) -> (r: &'static str)
    ensures
        r@ == dag_statuses(include_closed),
{
    if include_closed {
        "open,in_progress,blocked,deferred,closed"
    } else {
        "open,in_progress,blocked,deferred"
    }
}

/// `r` is the DAG of `rig` at `now` for some answer `bd` may give to `bd
/// list` in the rig's directory for `dag_statuses(include_closed)`: that
/// answer's error as it came, or the nodes of the listed beads.
pub open spec fn dag_fetched<B: BdAdapter, T: GitAdapter>(
    bd: B,
    git: T,
    rig: gc::RigRaw,
    include_closed: bool,
    now: UnixTime,
    r: Result<DagView, String>,
) -> bool {
    exists|listed: Result<Vec<BeadRaw>, String>|
        #[trigger] bd.list_answer(rig.path@, dag_statuses(include_closed), listed) && match listed {
            Err(e) => r == Err::<DagView, String>(e),
            Ok(beads) => r matches Ok(v) && v.rig_name == rig.name && v.rig_path == rig.path
                && nodes_from(git, rig.path@, v.nodes@, beads@, now),
        }
}

/// Build the DAG view for a rig: every non-closed bead (plus closed ones,
/// if `include_closed`) as a node, tagged with its lifecycle stage and
/// whether it's "landed but not closed".
pub fn dag_view<G: GcAdapter, B: BdAdapter, T: GitAdapter>(
    adapters: &Adapters<G, B, T>,
    rig: &gc::RigRaw,
    include_closed: bool,
    now: UnixTime,
) -> (r: Result<DagView, String>)
    ensures
        dag_fetched(adapters.bd, adapters.git, *rig, include_closed, now, r),
{
    let statuses = dag_status_filter(include_closed);
    let listed = adapters.bd.list(rig.path.as_str(), statuses);
    let ghost answer = listed;
    let beads = match listed {
        Ok(b) => b,
        Err(e) => return Err(e),
    };
    let v = dag_view_from_beads(adapters, rig, beads.as_slice(), now);
    assert(answer == Ok::<Vec<BeadRaw>, String>(beads));
    Ok(v)
}

// ---------------------------------------------------------------------------
// Handoff gaps
// ---------------------------------------------------------------------------

/// Prefix of the per-bead work branches (`polecat/<bead-id>`).
pub open spec fn polecat_prefix() -> Seq<char> {
    "polecat/"@
}

/// Does the bead have id `id`?
pub open spec fn has_id(id: Seq<char>) -> spec_fn(BeadRaw) -> bool {
    |b: BeadRaw| b.id@ == id
}

/// An unmerged `polecat/<id>` branch is a handoff gap when bd has no record
/// of bead `<id>`, or shows it pending (open/blocked/deferred) with no
/// assignee.
pub open spec fn is_gap(branch: Seq<char>, beads: Seq<BeadRaw>) -> bool {
    crate::text::has_prefix(branch, polecat_prefix()) && {
        let id = branch.skip(polecat_prefix().len() as int);
        match first_where(beads, has_id(id)) {
            Some(i) => BeadStage::stage_of(beads[i].status@) == BeadStage::Pending
                && beads[i].assignee is None,
            None => true,
        }
    }
}

/// `g` reports the gap for `branch`: the bead id behind it and what bd
/// says of that bead.
pub open spec fn gap_of(branch: Seq<char>, beads: Seq<BeadRaw>, g: crate::model::HandoffGap) -> bool {
    let id = branch.skip(polecat_prefix().len() as int);
    &&& is_gap(branch, beads)
    &&& g.bead_id@ == id
    &&& g.branch@ == branch
    &&& g.bead_assignee is None
    &&& opt_str(g.bead_status) == (match first_where(beads, has_id(id)) {
        Some(i) => Some(beads[i].status@),
        None => None,
    })
}

/// `first_where` finds the first element satisfying `p`, and finds none
/// only when no element does.
pub proof fn lemma_first_where_is_first<T>(s: Seq<T>, p: spec_fn(T) -> bool)
    ensures
        match first_where(s, p) {
            Some(i) => 0 <= i < s.len() && p(s[i]) && forall|j: int| 0 <= j < i ==> !p(#[trigger] s[j]),
            None => forall|j: int| 0 <= j < s.len() ==> !p(#[trigger] s[j]),
        },
    decreases s.len(),
{
    if s.len() > 0 && !p(s[0]) {
        lemma_first_where_is_first(s.drop_first(), p);
        match first_where(s.drop_first(), p) {
            Some(i) => {
                assert forall|j: int| 0 <= j < i + 1 implies !p(#[trigger] s[j]) by {
                    if j > 0 {
                        assert(s[j] == s.drop_first()[j - 1]);
                    }
                }
            },
            None => {
                assert forall|j: int| 0 <= j < s.len() implies !p(#[trigger] s[j]) by {
                    if j > 0 {
                        assert(s[j] == s.drop_first()[j - 1]);
                    }
                }
            },
        }
    }
}

/// The first bead of `beads` with id `id`, when there is one, is bead `i`.
pub open spec fn first_bead_with_id(beads: Seq<BeadRaw>, id: Seq<char>, i: int) -> bool {
    &&& 0 <= i < beads.len()
    &&& beads[i].id@ == id
    &&& forall|j: int| 0 <= j < i ==> (#[trigger] beads[j]).id@ != id
}

/// The handoff-gap rule: the origin branch `polecat/<id>` is a gap exactly
/// when bd has no bead `<id>` at all, or the first bead `<id>` it lists is
/// still pending -- neither in progress nor closed, which covers open,
/// blocked and deferred -- and has no assignee.
pub proof fn law_handoff_gap_rule(id: Seq<char>, beads: Seq<BeadRaw>)
    ensures
        is_gap(polecat_prefix() + id, beads) <==> (
        (forall|j: int| 0 <= j < beads.len() ==> (#[trigger] beads[j]).id@ != id)
            || exists|i: int|
            #[trigger] first_bead_with_id(beads, id, i) && beads[i].status@ != "in_progress"@
                && beads[i].status@ != "closed"@ && beads[i].assignee is None),
{
    let branch = polecat_prefix() + id;
    assert(branch.take(polecat_prefix().len() as int) =~= polecat_prefix());
    assert(branch.skip(polecat_prefix().len() as int) =~= id);
    assert(crate::text::has_prefix(branch, polecat_prefix()));
    lemma_first_where_is_first(beads, has_id(id));
    match first_where(beads, has_id(id)) {
        Some(i) => {
            assert forall|j: int| 0 <= j < i implies (#[trigger] beads[j]).id@ != id by {
                assert(!has_id(id)(beads[j]));
            }
            assert(first_bead_with_id(beads, id, i));
            assert(!(forall|j: int| 0 <= j < beads.len() ==> (#[trigger] beads[j]).id@ != id)) by {
                assert(beads[i].id@ == id);
            }
            assert forall|k: int| #[trigger] first_bead_with_id(beads, id, k) implies k == i by {
                if k < i {
                    assert(!has_id(id)(beads[k]));
                }
                if i < k {
                    assert(beads[i].id@ != id);
                }
            }
        },
        None => {
            assert forall|j: int| 0 <= j < beads.len() implies (#[trigger] beads[j]).id@ != id by {
                assert(!has_id(id)(beads[j]));
            }
        },
    }
}

/// In particular, an unassigned bead that bd shows open, blocked or
/// deferred makes its `polecat/<id>` branch a gap: all three count as
/// pending, not only open.
pub proof fn law_blocked_or_deferred_unassigned_is_gap(id: Seq<char>, beads: Seq<BeadRaw>, i: int)
    requires
        first_bead_with_id(beads, id, i),
        beads[i].status@ == "open"@ || beads[i].status@ == "blocked"@ || beads[i].status@
            == "deferred"@,
        beads[i].assignee is None,
    ensures
        is_gap(polecat_prefix() + id, beads),
{
    reveal_strlit("open");
    reveal_strlit("blocked");
    reveal_strlit("deferred");
    reveal_strlit("in_progress");
    reveal_strlit("closed");
    assert("open"@.len() != "in_progress"@.len() && "blocked"@[0] != "in_progress"@[0]
        && "deferred"@.len() != "in_progress"@.len());
    assert("open"@.len() != "closed"@.len() && "blocked"@[0] != "closed"@[0]
        && "deferred"@.len() != "closed"@.len());
    assert(beads[i].status@ != "in_progress"@ && beads[i].status@ != "closed"@);
    assert(first_bead_with_id(beads, id, i));
    law_handoff_gap_rule(id, beads);
}

/// The gap for one origin branch, given whether it already landed on the
/// base branch: none for a landed branch or one that isn't a gap.
pub fn handoff_gap_for(branch: &str, merged: bool, beads: &[BeadRaw]) -> (r: Option<
    crate::model::HandoffGap,
>)
    ensures
        r is Some <==> (!merged && is_gap(branch@, beads@)),
        r matches Some(g) ==> gap_of(branch@, beads@, g),
{
    if merged {
        return None;
    }
    let bead_id = match crate::text::strip_prefix(branch, "polecat/") {
        Some(id) => id,
        None => return None,
    };
    let ghost id = bead_id@;
    let mut i: usize = 0;
    proof {
        lemma_skip_all(beads@);
    }
    while i < beads.len()
        invariant
            i <= beads@.len(),
            id == bead_id@,
            !merged,
            crate::text::has_prefix(branch@, polecat_prefix()),
            id == branch@.skip(polecat_prefix().len() as int),
            first_where(beads@, has_id(id)) == shift(first_where(beads@.skip(i as int), has_id(id)), i as int),
        decreases beads@.len() - i,
    {
        proof {
            lemma_first_where_step(beads@, has_id(id), i as int);
        }
        if crate::text::str_eq(beads[i].id.as_str(), bead_id.as_str()) {
            let b = &beads[i];
            if BeadStage::from_status(b.status.as_str()) == BeadStage::Pending && b.assignee.is_none() {
                return Some(
                    crate::model::HandoffGap {
                        bead_id,
                        branch: crate::text::owned(branch),
                        bead_status: Some(b.status.clone()),
                        bead_assignee: None,
                    },
                );
            } else {
                return None;
            }
        }
        i += 1;
    }
    proof {
        lemma_skip_all(beads@);
    }
    Some(
        crate::model::HandoffGap {
            bead_id,
            branch: crate::text::owned(branch),
            bead_status: None,
            bead_assignee: None,
        },
    )
}

/// The gap branches among `branches`, in order: those not landed (per
/// `landed`, position by position) that are gaps.
pub open spec fn gap_branches(branches: Seq<Seq<char>>, landed: Seq<bool>, beads: Seq<BeadRaw>) -> Seq<
    Seq<char>,
>
    decreases branches.len(),
{
    if branches.len() == 0 || landed.len() != branches.len() {
        Seq::empty()
    } else {
        let rest = gap_branches(branches.drop_last(), landed.drop_last(), beads);
        if !landed.last() && is_gap(branches.last(), beads) {
            rest.push(branches.last())
        } else {
            rest
        }
    }
}

/// The gaps among origin's branches, given for each whether it already
/// landed on the base branch.
pub fn gaps_among(branches: &Vec<String>, landed: &Vec<bool>, beads: &[BeadRaw]) -> (r: Vec<
    crate::model::HandoffGap,
>)
    requires
        landed@.len() == branches@.len(),
    ensures
        r@.len() == gap_branches(branches@.map_values(|b: String| b@), landed@, beads@).len(),
        forall|i: int|
            0 <= i < r@.len() ==> (#[trigger] r@[i]).branch@ == gap_branches(
                branches@.map_values(|b: String| b@),
                landed@,
                beads@,
            )[i] && gap_of(r@[i].branch@, beads@, r@[i]),
{
    let ghost bv = branches@.map_values(|b: String| b@);
    let mut gaps: Vec<crate::model::HandoffGap> = Vec::new();
    let mut i: usize = 0;
    while i < branches.len()
        invariant
            i <= branches@.len(),
            landed@.len() == branches@.len(),
            bv == branches@.map_values(|b: String| b@),
            gaps@.len() == gap_branches(bv.take(i as int), landed@.take(i as int), beads@).len(),
            forall|k: int|
                0 <= k < gaps@.len() ==> (#[trigger] gaps@[k]).branch@ == gap_branches(
                    bv.take(i as int),
                    landed@.take(i as int),
                    beads@,
                )[k] && gap_of(gaps@[k].branch@, beads@, gaps@[k]),
        decreases branches@.len() - i,
    {
        assert(bv.take(i + 1).drop_last() =~= bv.take(i as int));
        assert(landed@.take(i + 1).drop_last() =~= landed@.take(i as int));
        assert(bv.take(i + 1).last() == branches@[i as int]@);
        assert(landed@.take(i + 1).last() == landed@[i as int]);
        match handoff_gap_for(branches[i].as_str(), landed[i], beads) {
            Some(g) => gaps.push(g),
            None => {},
        }
        i += 1;
    }
    assert(bv.take(branches@.len() as int) =~= bv);
    assert(landed@.take(branches@.len() as int) =~= landed@);
    gaps
}

/// `gaps` are the gaps among origin's branches `branches` (as text), given
/// for each whether it landed on the base branch: in order, one per gap
/// branch, each reporting what bd says of its bead.
pub open spec fn gaps_are(
    gaps: Seq<crate::model::HandoffGap>,
    branches: Seq<Seq<char>>,
    landed: Seq<bool>,
    beads: Seq<BeadRaw>,
) -> bool {
    &&& gaps.len() == gap_branches(branches, landed, beads).len()
    &&& forall|i: int|
        0 <= i < gaps.len() ==> (#[trigger] gaps[i]).branch@ == gap_branches(branches, landed, beads)[i]
            && gap_of(gaps[i].branch@, beads, gaps[i])
}

/// `landed` holds, per branch of `branches`, what git answered to whether
/// it landed on `base` in the repository at `repo` -- asked only for
/// `polecat/` branches; any other branch reads as not landed.
pub open spec fn landed_answers<T: GitAdapter>(
    git: T,
    repo: Seq<char>,
    branches: Seq<String>,
    base: Seq<char>,
    landed: Seq<bool>,
) -> bool {
    &&& landed.len() == branches.len()
    &&& forall|i: int|
        0 <= i < branches.len() ==> if crate::text::has_prefix(branches[i]@, polecat_prefix()) {
            git.is_merged_answer(repo, branches[i]@, base, #[trigger] landed[i])
        } else {
            !landed[i]
        }
}

/// `r` is the handoff-gap scan of `rig` against `beads` for some answers
/// the git adapter may give, all in the rig's directory: the base branch is
/// origin's default as answered (none: no gaps, and nothing more asked);
/// with one, the gaps among the `polecat/` branches answered, given what
/// was answered of each one's landing on the base.
pub open spec fn gaps_fetched<T: GitAdapter>(
    git: T,
    rig: gc::RigRaw,
    beads: Seq<BeadRaw>,
    r: crate::model::RigHandoffGaps,
) -> bool {
    &&& r.rig_name == rig.name
    &&& r.rig_path == rig.path
    &&& r.error is None
    &&& git.default_branch_answer(rig.path@, r.base_branch)
    &&& match r.base_branch {
        None => r.gaps@.len() == 0,
        Some(base) => exists|branches: Seq<String>, landed: Seq<bool>|
            #![trigger git.remote_branches_answer(rig.path@, polecat_prefix(), branches), landed_answers(git, rig.path@, branches, base@, landed)]
            git.remote_branches_answer(rig.path@, polecat_prefix(), branches) && landed_answers(
                git,
                rig.path@,
                branches,
                base@,
                landed,
            ) && gaps_are(r.gaps@, branches.map_values(|b: String| b@), landed, beads),
    }
}

/// Cross-reference one rig's `polecat/*` branches on origin against bd's
/// view of the beads behind them.
///
/// A session pushes `polecat/<bead-id>` with finished work, then updates bd,
/// then hands the bead over -- as separate, independently interruptible
/// steps. If it dies between the push and the bd update, the branch
/// survives on origin while the bead reverts to open/unassigned with no
/// signal anything is wrong. Branches are enumerated from git, not from
/// any bead's metadata, and the base branch is origin's own default: bd
/// can't be the source of truth for what exists on origin. A branch already
/// merged into the base is not a gap; with no determinable base branch no
/// gaps are reported (read that alongside `base_branch: None`).
pub fn rig_handoff_gaps<G: GcAdapter, B: BdAdapter, T: GitAdapter>(
    adapters: &Adapters<G, B, T>,
    rig: &gc::RigRaw,
    beads: &[BeadRaw],
) -> (r: crate::model::RigHandoffGaps)
    ensures
        gaps_fetched(adapters.git, *rig, beads@, r),
{
    let base_branch = adapters.git.default_branch(rig.path.as_str());
    let gaps = match &base_branch {
        None => Vec::new(),
        Some(base) => {
            let branches = adapters.git.remote_branches(rig.path.as_str(), "polecat/");
            let mut landed: Vec<bool> = Vec::new();
            let mut i: usize = 0;
            while i < branches.len()
                invariant
                    i <= branches@.len(),
                    landed@.len() == i,
                    forall|k: int|
                        0 <= k < i ==> if crate::text::has_prefix(branches@[k]@, polecat_prefix()) {
                            adapters.git.is_merged_answer(rig.path@, branches@[k]@, base@, #[trigger] landed@[k])
                        } else {
                            !landed@[k]
                        },
                decreases branches@.len() - i,
            {
                let on_base = if crate::text::strip_prefix(branches[i].as_str(), "polecat/").is_some() {
                    adapters.git.is_merged(rig.path.as_str(), branches[i].as_str(), base.as_str())
                } else {
                    false
                };
                landed.push(on_base);
                i += 1;
            }
            let gaps = gaps_among(&branches, &landed, beads);
            assert(landed_answers(adapters.git, rig.path@, branches@, base@, landed@));
            assert(gaps_are(gaps@, branches@.map_values(|b: String| b@), landed@, beads@));
            gaps
        },
    };
    crate::model::RigHandoffGaps {
        rig_name: rig.name.clone(),
        rig_path: rig.path.clone(),
        base_branch,
        gaps,
        error: None,
    }
}

/// No rig has a gap.
pub open spec fn no_gaps(rigs: Seq<crate::model::RigHandoffGaps>) -> bool {
    forall|i: int| 0 <= i < rigs.len() ==> (#[trigger] rigs[i]).gaps@.len() == 0
}

/// The rigs of a rig list that aren't suspended, in order.
pub open spec fn unsuspended_spec(rigs: Seq<gc::RigRaw>) -> Seq<gc::RigRaw>
    decreases rigs.len(),
{
    if rigs.len() == 0 {
        Seq::empty()
    } else {
        let rest = unsuspended_spec(rigs.drop_last());
        if rigs.last().suspended {
            rest
        } else {
            rest.push(rigs.last())
        }
    }
}

fn copy_rig(r: &gc::RigRaw) -> (c: gc::RigRaw)
    ensures
        c == *r,
{
    gc::RigRaw {
        name: r.name.clone(),
        path: r.path.clone(),
        prefix: clone_opt(&r.prefix),
        suspended: r.suspended,
        running: r.running,
    }
}

/// The rigs a rig-less scan covers: every one that isn't suspended.
pub fn unsuspended(rigs: &Vec<gc::RigRaw>) -> (r: Vec<gc::RigRaw>)
    ensures
        r@ == unsuspended_spec(rigs@),
{
    let mut out: Vec<gc::RigRaw> = Vec::new();
    let mut i: usize = 0;
    while i < rigs.len()
        invariant
            i <= rigs@.len(),
            out@ == unsuspended_spec(rigs@.take(i as int)),
        decreases rigs@.len() - i,
    {
        assert(rigs@.take(i + 1).drop_last() =~= rigs@.take(i as int));
        assert(rigs@.take(i + 1).last() == rigs@[i as int]);
        if !rigs[i].suspended {
            out.push(copy_rig(&rigs[i]));
        }
        i += 1;
    }
    assert(rigs@.take(rigs@.len() as int) =~= rigs@);
    out
}

/// The statuses whose beads a handoff scan lists: all of them.
pub open spec fn handoff_statuses() -> Seq<char> {
    "open,in_progress,blocked,deferred,closed"@
}

/// `s` is the scan of `rig` given what its bead list request answered:
/// the request's error recorded with no base branch and no gaps, or the
/// rig's gaps against the listed beads.
pub open spec fn scan_of<T: GitAdapter>(
    git: T,
    rig: gc::RigRaw,
    listed: Result<Vec<BeadRaw>, String>,
    s: crate::model::RigHandoffGaps,
) -> bool {
    match listed {
        Err(e) => s.rig_name == rig.name && s.rig_path == rig.path && s.error == Some(e)
            && s.base_branch is None && s.gaps@.len() == 0,
        Ok(beads) => gaps_fetched(git, rig, beads@, s),
    }
}

/// One rig's scan, given what its bead list fetch answered: the fetch
/// error recorded with no base branch and no gaps, or the rig's gaps.
pub fn rig_scan<G: GcAdapter, B: BdAdapter, T: GitAdapter>(
    adapters: &Adapters<G, B, T>,
    rig: &gc::RigRaw,
    listed: Result<Vec<BeadRaw>, String>,
) -> (r: crate::model::RigHandoffGaps)
    ensures
        scan_of(adapters.git, *rig, listed, r),
{
    match listed {
        Ok(beads) => rig_handoff_gaps(adapters, rig, beads.as_slice()),
        Err(e) => crate::model::RigHandoffGaps {
            rig_name: rig.name.clone(),
            rig_path: rig.path.clone(),
            base_branch: None,
            gaps: Vec::new(),
            error: Some(e),
        },
    }
}

/// `s` is the scan of `rig` for some answer `bd` may give to `bd list` in
/// the rig's directory for every status.
pub open spec fn rig_scanned<B: BdAdapter, T: GitAdapter>(
    bd: B,
    git: T,
    rig: gc::RigRaw,
    s: crate::model::RigHandoffGaps,
) -> bool {
    exists|listed: Result<Vec<BeadRaw>, String>|
        #[trigger] bd.list_answer(rig.path@, handoff_statuses(), listed) && scan_of(git, rig, listed, s)
}

/// `r` is a report on `rigs`: one scan per rig, in order, and `ok` exactly
/// when no rig has a gap (a rig whose beads could not be listed does not
/// count against it).
pub open spec fn report_on<B: BdAdapter, T: GitAdapter>(
    bd: B,
    git: T,
    rigs: Seq<gc::RigRaw>,
    r: Result<crate::model::HandoffGapReport, String>,
) -> bool {
    r matches Ok(rep) && rep.rigs@.len() == rigs.len() && rep.ok == no_gaps(rep.rigs@) && forall|i: int|
        0 <= i < rigs.len() ==> rig_scanned(bd, git, rigs[i], #[trigger] rep.rigs@[i])
}

/// The report for the one rig `rig` resolves to, or the resolution's
/// error.
pub open spec fn handoff_named<G: GcAdapter, B: BdAdapter, T: GitAdapter>(
    gc: G,
    bd: B,
    git: T,
    city: Option<Seq<char>>,
    rig: Seq<char>,
    r: Result<crate::model::HandoffGapReport, String>,
) -> bool {
    exists|res: Result<gc::RigRaw, String>|
        #[trigger] resolve_outcome(gc, city, rig, res) && match res {
            Err(e) => r == Err::<crate::model::HandoffGapReport, String>(e),
            Ok(x) => report_on(bd, git, seq![x], r),
        }
}

/// The report on every rig that isn't suspended, for some answer `gc`
/// may give to the rig list request for `city`, or that request's error.
pub open spec fn handoff_all<G: GcAdapter, B: BdAdapter, T: GitAdapter>(
    gc: G,
    bd: B,
    git: T,
    city: Option<Seq<char>>,
    r: Result<crate::model::HandoffGapReport, String>,
) -> bool {
    exists|listed: Result<gc::RigListResult, String>|
        #[trigger] gc.rig_list_answer(city, listed) && match listed {
            Err(e) => r == Err::<crate::model::HandoffGapReport, String>(e),
            Ok(l) => report_on(bd, git, unsuspended_spec(l.rigs@), r),
        }
}

/// City-wide (or single-rig, if `rig` is given) handoff-gap scan -- see
/// `rig_handoff_gaps`. A rig-less call scans every non-suspended rig, in
/// the rig list's order. A rig whose bead list can't be fetched records
/// the error and the rest of the rigs are still checked; such an error
/// alone doesn't make the report fail.
pub fn handoff_gap_report<G: GcAdapter, B: BdAdapter, T: GitAdapter>(
    adapters: &Adapters<G, B, T>,
    city: Option<&str>,
    rig: Option<&str>,
) -> (r: Result<crate::model::HandoffGapReport, String>)
    ensures
        rig matches Some(name) ==> handoff_named(
            adapters.gc,
            adapters.bd,
            adapters.git,
            arg_view(city),
            name@,
            r,
        ),
        rig is None ==> handoff_all(adapters.gc, adapters.bd, adapters.git, arg_view(city), r),
{
    let rigs: Vec<gc::RigRaw> = match rig {
        Some(name) => {
            let resolved = adapters.resolve_rig(city, name);
            let ghost res = resolved;
            let resolved = match resolved {
                Ok(x) => x,
                Err(e) => {
                    assert(resolve_outcome(adapters.gc, arg_view(city), name@, res));
                    return Err(e);
                },
            };
            let mut v: Vec<gc::RigRaw> = Vec::new();
            v.push(resolved);
            v
        },
        None => {
            let listed = adapters.gc.rig_list(city);
            let ghost answer = listed;
            let listed = match listed {
                Ok(l) => l,
                Err(e) => {
                    assert(adapters.gc.rig_list_answer(arg_view(city), answer));
                    return Err(e);
                },
            };
            unsuspended(&listed.rigs)
        },
    };
    let r = scan_rigs(adapters, &rigs);
    proof {
        match rig {
            Some(name) => {
                assert(rigs@ =~= seq![rigs@[0]]);
            },
            None => {},
        }
    }
    r
}

/// The report on `rigs`: one bead list per rig, then its scan.
fn scan_rigs<G: GcAdapter, B: BdAdapter, T: GitAdapter>(
    adapters: &Adapters<G, B, T>,
    rigs: &Vec<gc::RigRaw>,
) -> (r: Result<crate::model::HandoffGapReport, String>)
    ensures
        report_on(adapters.bd, adapters.git, rigs@, r),
{
    let mut out: Vec<crate::model::RigHandoffGaps> = Vec::new();
    let mut all_clear = true;
    let mut i: usize = 0;
    while i < rigs.len()
        invariant
            i <= rigs@.len(),
            out@.len() == i,
            all_clear == no_gaps(out@),
            forall|k: int| 0 <= k < i ==> rig_scanned(adapters.bd, adapters.git, rigs@[k], #[trigger] out@[k]),
        decreases rigs@.len() - i,
    {
        let r = &rigs[i];
        let statuses = "open,in_progress,blocked,deferred,closed";
        assert(statuses@ == handoff_statuses());
        let listed = adapters.bd.list(r.path.as_str(), statuses);
        let scanned = rig_scan(adapters, r, listed);
        assert(rig_scanned(adapters.bd, adapters.git, *r, scanned));
        if scanned.gaps.len() > 0 {
            all_clear = false;
        }
        let ghost before = out@;
        out.push(scanned);
        assert(no_gaps(out@) == (no_gaps(before) && out@[i as int].gaps@.len() == 0)) by {
            if no_gaps(before) && out@[i as int].gaps@.len() == 0 {
                assert forall|k: int| 0 <= k < out@.len() implies (#[trigger] out@[k]).gaps@.len() == 0 by {
                    if k < i {
                        assert(out@[k] == before[k]);
                    }
                }
            }
            if !no_gaps(before) {
                let k = choose|k: int| 0 <= k < before.len() && (#[trigger] before[k]).gaps@.len() != 0;
                assert(out@[k] == before[k]);
            }
        }
        assert forall|k: int| 0 <= k < i + 1 implies rig_scanned(adapters.bd, adapters.git, rigs@[k], #[trigger] out@[k]) by {
            if k < i {
                assert(out@[k] == before[k]);
            }
        }
        i += 1;
    }
    Ok(crate::model::HandoffGapReport { rigs: out, ok: all_clear })
}

// ---------------------------------------------------------------------------
// Health check
// ---------------------------------------------------------------------------

/// A check issue as character sequences.
pub struct IssueView {
    pub scope: Seq<char>,
    pub health: Health,
    pub message: Seq<char>,
}

pub open spec fn issue_view(i: crate::model::CheckIssue) -> IssueView {
    IssueView { scope: i.scope@, health: i.health, message: i.message@ }
}

pub open spec fn issue_views(s: Seq<crate::model::CheckIssue>) -> Seq<IssueView> {
    s.map_values(|i: crate::model::CheckIssue| issue_view(i))
}

/// The city-wide issue, if the city's own signal is a problem.
pub open spec fn city_issues(cv: CityView) -> Seq<IssueView> {
    if crate::health::is_problem_spec(cv.health) {
        seq![
            IssueView {
                scope: "city"@,
                health: cv.health,
                message: if cv.degraded {
                    "city degraded: "@ + crate::text::join(crate::sources::proc::views(cv.signals@), "; "@)
                } else {
                    "city unusable"@
                },
            },
        ]
    } else {
        Seq::empty()
    }
}

/// One issue per active rig without a live agent, in order.
pub open spec fn rig_issues(rigs: Seq<RigView>) -> Seq<IssueView>
    decreases rigs.len(),
{
    if rigs.len() == 0 {
        Seq::empty()
    } else {
        let rest = rig_issues(rigs.drop_last());
        let r = rigs.last();
        if crate::health::is_problem_spec(r.health) {
            rest.push(
                IssueView {
                    scope: "rig:"@ + r.name@,
                    health: r.health,
                    message: "rig is active but has no live agents"@,
                },
            )
        } else {
            rest
        }
    }
}

/// One issue per stale in-progress bead, in order.
pub open spec fn bead_issues(beads: Seq<BeadRef>) -> Seq<IssueView>
    decreases beads.len(),
{
    if beads.len() == 0 {
        Seq::empty()
    } else {
        let rest = bead_issues(beads.drop_last());
        let b = beads.last();
        if crate::health::is_problem_spec(b.health) {
            rest.push(
                IssueView {
                    scope: "bead:"@ + b.id@,
                    health: b.health,
                    message: "in_progress but stale: "@ + b.title@,
                },
            )
        } else {
            rest
        }
    }
}

/// One issue per dead or stuck agent, in order.
pub open spec fn agent_issues(agents: Seq<AgentView>) -> Seq<IssueView>
    decreases agents.len(),
{
    if agents.len() == 0 {
        Seq::empty()
    } else {
        let rest = agent_issues(agents.drop_last());
        let a = agents.last();
        if crate::health::is_problem_spec(a.health) {
            rest.push(
                IssueView {
                    scope: "agent:"@ + a.qualified_name@,
                    health: a.health,
                    message: if a.health == Health::Dead {
                        "agent is not running"@
                    } else {
                        "agent is running but stuck on stale work"@
                    },
                },
            )
        } else {
            rest
        }
    }
}

/// The issues a check reports: the city's, then its rigs', then -- for a
/// checked rig -- its stale in-progress beads' and its agents'.
pub open spec fn check_issues(
    cv: CityView,
    rig_part: Option<(Seq<BeadRef>, Seq<AgentView>)>,
) -> Seq<IssueView> {
    city_issues(cv) + rig_issues(cv.rigs@) + match rig_part {
        Some((beads, agents)) => bead_issues(beads) + agent_issues(agents),
        None => Seq::empty(),
    }
}

proof fn lemma_rig_issues(rigs: Seq<RigView>)
    ensures
        forall|i: int| 0 <= i < rig_issues(rigs).len() ==> crate::health::is_problem_spec(#[trigger] rig_issues(rigs)[i].health),
        rig_issues(rigs).len() == 0 <==> forall|k: int| 0 <= k < rigs.len() ==> !crate::health::is_problem_spec(#[trigger] rigs[k].health),
    decreases rigs.len(),
{
    if rigs.len() > 0 {
        lemma_rig_issues(rigs.drop_last());
        assert(forall|k: int| 0 <= k < rigs.len() - 1 ==> rigs.drop_last()[k] == #[trigger] rigs[k]);
        if rig_issues(rigs).len() == 0 {
            assert forall|k: int| 0 <= k < rigs.len() implies !crate::health::is_problem_spec(#[trigger] rigs[k].health) by {
                if k < rigs.len() - 1 {
                    assert(rigs.drop_last()[k] == rigs[k]);
                }
            }
        }
    }
}

proof fn lemma_bead_issues(beads: Seq<BeadRef>)
    ensures
        forall|i: int| 0 <= i < bead_issues(beads).len() ==> crate::health::is_problem_spec(#[trigger] bead_issues(beads)[i].health),
        bead_issues(beads).len() == 0 <==> forall|k: int| 0 <= k < beads.len() ==> !crate::health::is_problem_spec(#[trigger] beads[k].health),
    decreases beads.len(),
{
    if beads.len() > 0 {
        lemma_bead_issues(beads.drop_last());
        assert(forall|k: int| 0 <= k < beads.len() - 1 ==> beads.drop_last()[k] == #[trigger] beads[k]);
        if bead_issues(beads).len() == 0 {
            assert forall|k: int| 0 <= k < beads.len() implies !crate::health::is_problem_spec(#[trigger] beads[k].health) by {
                if k < beads.len() - 1 {
                    assert(beads.drop_last()[k] == beads[k]);
                }
            }
        }
    }
}

proof fn lemma_agent_issues(agents: Seq<AgentView>)
    ensures
        forall|i: int| 0 <= i < agent_issues(agents).len() ==> crate::health::is_problem_spec(#[trigger] agent_issues(agents)[i].health),
        agent_issues(agents).len() == 0 <==> forall|k: int| 0 <= k < agents.len() ==> !crate::health::is_problem_spec(#[trigger] agents[k].health),
    decreases agents.len(),
{
    if agents.len() > 0 {
        lemma_agent_issues(agents.drop_last());
        assert(forall|k: int| 0 <= k < agents.len() - 1 ==> agents.drop_last()[k] == #[trigger] agents[k]);
        if agent_issues(agents).len() == 0 {
            assert forall|k: int| 0 <= k < agents.len() implies !crate::health::is_problem_spec(#[trigger] agents[k].health) by {
                if k < agents.len() - 1 {
                    assert(agents.drop_last()[k] == agents[k]);
                }
            }
        }
    }
}

/// The check is a pass/fail gate on dead and stale things only: every issue
/// it reports is dead or stale, and it passes exactly when neither the
/// city, nor any of its rigs, nor -- for a checked rig -- any in-progress
/// bead or agent is dead or stale.
pub proof fn law_check_passes_iff_nothing_is_dead_or_stale(
    cv: CityView,
    rig_part: Option<(Seq<BeadRef>, Seq<AgentView>)>,
    rep: crate::model::CheckReport,
)
    requires
        report_of(cv, rig_part, rep),
    ensures
        forall|i: int| 0 <= i < rep.issues@.len() ==> crate::health::is_problem_spec(#[trigger] rep.issues@[i].health),
        rep.ok <==> (!crate::health::is_problem_spec(cv.health)
            && (forall|k: int| 0 <= k < cv.rigs@.len() ==> !crate::health::is_problem_spec(#[trigger] cv.rigs@[k].health))
            && match rig_part {
                Some((beads, agents)) => (forall|k: int| 0 <= k < beads.len() ==> !crate::health::is_problem_spec(#[trigger] beads[k].health))
                    && (forall|k: int| 0 <= k < agents.len() ==> !crate::health::is_problem_spec(#[trigger] agents[k].health)),
                None => true,
            }),
{
    lemma_rig_issues(cv.rigs@);
    let all = check_issues(cv, rig_part);
    assert(issue_views(rep.issues@) == all);
    let c = city_issues(cv);
    let r = rig_issues(cv.rigs@);
    let tail = match rig_part {
        Some((beads, agents)) => bead_issues(beads) + agent_issues(agents),
        None => Seq::empty(),
    };
    assert(all == c + r + tail);
    assert(rep.issues@.len() == all.len());
    assert forall|k: int| 0 <= k < tail.len() implies crate::health::is_problem_spec(#[trigger] tail[k].health) by {
        match rig_part {
            Some((beads, agents)) => {
                lemma_bead_issues(beads);
                lemma_agent_issues(agents);
                let b = bead_issues(beads);
                if k < b.len() {
                    assert(tail[k] == b[k]);
                } else {
                    assert(tail[k] == agent_issues(agents)[k - b.len()]);
                }
            },
            None => {},
        }
    }
    assert forall|i: int| 0 <= i < rep.issues@.len() implies crate::health::is_problem_spec(#[trigger] rep.issues@[i].health) by {
        assert(issue_views(rep.issues@)[i] == issue_view(rep.issues@[i]));
        assert(all[i].health == rep.issues@[i].health);
        if i < c.len() {
            assert(all[i] == c[i]);
            assert(c[i].health == cv.health);
        } else if i < c.len() + r.len() {
            assert(all[i] == r[i - c.len()]);
            assert(crate::health::is_problem_spec(r[i - c.len()].health));
        } else {
            assert(all[i] == tail[i - c.len() - r.len()]);
            assert(crate::health::is_problem_spec(tail[i - c.len() - r.len()].health));
        }
    }
    match rig_part {
        Some((beads, agents)) => {
            lemma_bead_issues(beads);
            lemma_agent_issues(agents);
        },
        None => {},
    }
}

fn push_issue(out: &mut Vec<crate::model::CheckIssue>, scope: String, health: Health, message: String)
    ensures
        issue_views(final(out)@) == issue_views(old(out)@).push(
            IssueView { scope: scope@, health: health, message: message@ },
        ),
{
    out.push(crate::model::CheckIssue { scope, health, message });
    assert(issue_views(out@) =~= issue_views(old(out)@).push(
        IssueView { scope: scope@, health: health, message: message@ },
    ));
}

fn city_issue_into(cv: &CityView, out: &mut Vec<crate::model::CheckIssue>)
    ensures
        issue_views(final(out)@) == issue_views(old(out)@) + city_issues(*cv),
{
    if crate::health::is_problem(cv.health) {
        let message = if cv.degraded {
            let joined = crate::text::join_strings(&cv.signals, "; ");
            crate::text::concat("city degraded: ", joined.as_str())
        } else {
            crate::text::owned("city unusable")
        };
        push_issue(out, crate::text::owned("city"), cv.health, message);
    }
    assert(issue_views(out@) =~= issue_views(old(out)@) + city_issues(*cv));
}

fn rig_issues_into(rigs: &Vec<RigView>, out: &mut Vec<crate::model::CheckIssue>)
    ensures
        issue_views(final(out)@) == issue_views(old(out)@) + rig_issues(rigs@),
{
    let ghost start = issue_views(out@);
    let mut i: usize = 0;
    while i < rigs.len()
        invariant
            i <= rigs@.len(),
            issue_views(out@) == start + rig_issues(rigs@.take(i as int)),
        decreases rigs@.len() - i,
    {
        assert(rigs@.take(i + 1).drop_last() =~= rigs@.take(i as int));
        assert(rigs@.take(i + 1).last() == rigs@[i as int]);
        let r = &rigs[i];
        if crate::health::is_problem(r.health) {
            push_issue(
                out,
                crate::text::concat("rig:", r.name.as_str()),
                r.health,
                crate::text::owned("rig is active but has no live agents"),
            );
        }
        assert(issue_views(out@) =~= start + rig_issues(rigs@.take(i + 1)));
        i += 1;
    }
    assert(rigs@.take(rigs@.len() as int) =~= rigs@);
}

fn bead_issues_into(beads: &Vec<BeadRef>, out: &mut Vec<crate::model::CheckIssue>)
    ensures
        issue_views(final(out)@) == issue_views(old(out)@) + bead_issues(beads@),
{
    let ghost start = issue_views(out@);
    let mut i: usize = 0;
    while i < beads.len()
        invariant
            i <= beads@.len(),
            issue_views(out@) == start + bead_issues(beads@.take(i as int)),
        decreases beads@.len() - i,
    {
        assert(beads@.take(i + 1).drop_last() =~= beads@.take(i as int));
        assert(beads@.take(i + 1).last() == beads@[i as int]);
        let b = &beads[i];
        if crate::health::is_problem(b.health) {
            push_issue(
                out,
                crate::text::concat("bead:", b.id.as_str()),
                b.health,
                crate::text::concat("in_progress but stale: ", b.title.as_str()),
            );
        }
        assert(issue_views(out@) =~= start + bead_issues(beads@.take(i + 1)));
        i += 1;
    }
    assert(beads@.take(beads@.len() as int) =~= beads@);
}

fn agent_issues_into(agents: &Vec<AgentView>, out: &mut Vec<crate::model::CheckIssue>)
    ensures
        issue_views(final(out)@) == issue_views(old(out)@) + agent_issues(agents@),
{
    let ghost start = issue_views(out@);
    let mut i: usize = 0;
    while i < agents.len()
        invariant
            i <= agents@.len(),
            issue_views(out@) == start + agent_issues(agents@.take(i as int)),
        decreases agents@.len() - i,
    {
        assert(agents@.take(i + 1).drop_last() =~= agents@.take(i as int));
        assert(agents@.take(i + 1).last() == agents@[i as int]);
        let a = &agents[i];
        if crate::health::is_problem(a.health) {
            let message = if a.health == Health::Dead {
                crate::text::owned("agent is not running")
            } else {
                crate::text::owned("agent is running but stuck on stale work")
            };
            push_issue(out, crate::text::concat("agent:", a.qualified_name.as_str()), a.health, message);
        }
        assert(issue_views(out@) =~= start + agent_issues(agents@.take(i + 1)));
        i += 1;
    }
    assert(agents@.take(agents@.len() as int) =~= agents@);
}

/// `rep` is the verdict for city view `cv` and, when a rig was checked, its
/// in-progress beads and agents: the issues in order, and `ok` exactly
/// when there are none.
pub open spec fn report_of(
    cv: CityView,
    rig_part: Option<(Seq<BeadRef>, Seq<AgentView>)>,
    rep: crate::model::CheckReport,
) -> bool {
    &&& issue_views(rep.issues@) == check_issues(cv, rig_part)
    &&& rep.ok == (rep.issues@.len() == 0)
}

/// The health-check verdict from the city view and, if a rig was checked,
/// its queue view and agent views. Only `Dead`/`Stale` count as problems.
pub fn check_report(cv: &CityView, rig_part: Option<(&QueueView, &Vec<AgentView>)>) -> (rep:
    crate::model::CheckReport)
    ensures
        report_of(
            *cv,
            match rig_part {
                Some((q, a)) => Some((q.in_progress@, a@)),
                None => None,
            },
            rep,
        ),
{
    let mut issues: Vec<crate::model::CheckIssue> = Vec::new();
    assert(issue_views(issues@) =~= Seq::<IssueView>::empty());
    city_issue_into(cv, &mut issues);
    rig_issues_into(&cv.rigs, &mut issues);
    match rig_part {
        Some((q, a)) => {
            bead_issues_into(&q.in_progress, &mut issues);
            agent_issues_into(a, &mut issues);
            assert(issue_views(issues@) =~= check_issues(*cv, Some((q.in_progress@, a@))));
        },
        None => {
            assert(issue_views(issues@) =~= check_issues(*cv, None));
        },
    }
    let ok = issues.len() == 0;
    crate::model::CheckReport { ok, issues }
}

/// `v` is the city view of `raw` with each active rig's bead summary made
/// of an answer `bd` may give to `bd status` in the rig's directory.
pub open spec fn city_fetched<B: BdAdapter>(bd: B, raw: gc::StatusResult, v: CityView) -> bool {
    &&& city_view_of(raw, v)
    &&& forall|i: int|
        0 <= i < raw.rigs@.len() && raw.rigs@[i].suspended ==> (#[trigger] v.rigs@[i]).bead_summary
            is None
    &&& forall|i: int|
        0 <= i < raw.rigs@.len() && !raw.rigs@[i].suspended ==> summary_fetched(
            bd,
            raw.rigs@[i].path@,
            (#[trigger] v.rigs@[i]).bead_summary,
        )
}

/// The in-progress beads as the check sees them at `now`.
pub open spec fn bead_refs_of(beads: Seq<BeadRaw>, now: UnixTime, stale_after: i64) -> Seq<BeadRef> {
    beads.map_values(|b: BeadRaw| bead_ref_spec(b, now, stale_after))
}

/// `rep` is the verdict for city view `cv` and a checked rig with
/// in-progress beads `beads` and the agents of its status `rs` (joined
/// against the beads, with no session signals).
pub open spec fn rig_verdict(
    rep: crate::model::CheckReport,
    cv: CityView,
    beads: Seq<BeadRaw>,
    rs: gc::RigStatusResult,
    now: UnixTime,
    stale_after: i64,
) -> bool {
    exists|views: Seq<AgentView>|
        #[trigger] agents_from(views, rs.agents@, beads, Seq::<SessionSignal>::empty(), now, stale_after)
            && report_of(cv, Some((bead_refs_of(beads, now, stale_after), views)), rep)
}

/// After the rig's bead list answered `beads`: `r` is the verdict for some
/// answer to `gc rig status` for `rig`, or that request's error.
pub open spec fn check_after_list<G: GcAdapter>(
    gc: G,
    city: Option<Seq<char>>,
    rig: Seq<char>,
    cv: CityView,
    beads: Seq<BeadRaw>,
    now: UnixTime,
    stale_after: i64,
    r: Result<crate::model::CheckReport, String>,
) -> bool {
    exists|status: Result<gc::RigStatusResult, String>|
        #[trigger] gc.rig_status_answer(city, rig, status) && match status {
            Err(e) => r == Err::<crate::model::CheckReport, String>(e),
            Ok(rs) => r matches Ok(rep) && rig_verdict(rep, cv, beads, rs, now, stale_after),
        }
}

/// After the rig resolved to `x` and its `bd status` answered: `r` follows
/// some answer to `bd list` of the in-progress beads in the rig's
/// directory, or is that request's error.
pub open spec fn check_after_counts<G: GcAdapter, B: BdAdapter>(
    gc: G,
    bd: B,
    city: Option<Seq<char>>,
    rig: Seq<char>,
    x: gc::RigRaw,
    cv: CityView,
    now: UnixTime,
    stale_after: i64,
    r: Result<crate::model::CheckReport, String>,
) -> bool {
    exists|listed: Result<Vec<BeadRaw>, String>|
        #[trigger] bd.list_answer(x.path@, "in_progress"@, listed) && match listed {
            Err(e) => r == Err::<crate::model::CheckReport, String>(e),
            Ok(beads) => check_after_list(gc, city, rig, cv, beads@, now, stale_after, r),
        }
}

/// After the rig resolved to `x`: `r` follows some answer to `bd status` in
/// the rig's directory, or is that request's error.
pub open spec fn check_rig<G: GcAdapter, B: BdAdapter>(
    gc: G,
    bd: B,
    city: Option<Seq<char>>,
    rig: Seq<char>,
    x: gc::RigRaw,
    cv: CityView,
    now: UnixTime,
    stale_after: i64,
    r: Result<crate::model::CheckReport, String>,
) -> bool {
    exists|counts: Result<bd::StatusResult, String>|
        #[trigger] bd.status_answer(x.path@, counts) && match counts {
            Err(e) => r == Err::<crate::model::CheckReport, String>(e),
            Ok(_) => check_after_counts(gc, bd, city, rig, x, cv, now, stale_after, r),
        }
}

/// With the city view `cv` built: no rig asked for, `r` is the city-wide
/// verdict; else the rig resolves (or its error is `r`) and is checked.
pub open spec fn check_with_city<G: GcAdapter, B: BdAdapter>(
    gc: G,
    bd: B,
    city: Option<Seq<char>>,
    rig: Option<Seq<char>>,
    cv: CityView,
    now: UnixTime,
    stale_after: i64,
    r: Result<crate::model::CheckReport, String>,
) -> bool {
    match rig {
        None => r matches Ok(rep) && report_of(cv, None, rep),
        Some(name) => check_named_rig(gc, bd, city, name, cv, now, stale_after, r),
    }
}

/// Rig `rig` resolves (or its error is `r`) and is checked.
pub open spec fn check_named_rig<G: GcAdapter, B: BdAdapter>(
    gc: G,
    bd: B,
    city: Option<Seq<char>>,
    rig: Seq<char>,
    cv: CityView,
    now: UnixTime,
    stale_after: i64,
    r: Result<crate::model::CheckReport, String>,
) -> bool {
    exists|res: Result<gc::RigRaw, String>|
        #[trigger] resolve_outcome(gc, city, rig, res) && match res {
            Err(e) => r == Err::<crate::model::CheckReport, String>(e),
            Ok(x) => check_rig(gc, bd, city, rig, x, cv, now, stale_after, r),
        }
}

/// `r` is the health check of `city` (and of `rig`, if given) at `now` for
/// some answers the adapters may give: `gc status` for the city (its error
/// returned as it came), one `bd status` per active rig for the city view,
/// then, for a rig, its resolution, `bd status` and `bd list` of the
/// in-progress beads in its directory and `gc rig status` for it.
pub open spec fn check_outcome<G: GcAdapter, B: BdAdapter>(
    gc: G,
    bd: B,
    city: Option<Seq<char>>,
    rig: Option<Seq<char>>,
    now: UnixTime,
    stale_after: i64,
    r: Result<crate::model::CheckReport, String>,
) -> bool {
    exists|status: Result<gc::StatusResult, String>|
        #[trigger] gc.status_answer(city, status) && match status {
            Err(e) => r == Err::<crate::model::CheckReport, String>(e),
            Ok(raw) => exists|cv: CityView|
                #[trigger] city_fetched(bd, raw, cv) && check_with_city(
                    gc,
                    bd,
                    city,
                    rig,
                    cv,
                    now,
                    stale_after,
                    r,
                ),
        }
}

/// Health-check verdict at time `now`: city-wide signals always, plus one
/// rig's in-progress beads and agents if given. A failed fetch is an
/// error; otherwise the report is the verdict for what was fetched.
pub fn check_at<G: GcAdapter, B: BdAdapter, T: GitAdapter>(
    adapters: &Adapters<G, B, T>,
    city: Option<&str>,
    rig: Option<&str>,
    thresholds: &Thresholds,
    now: UnixTime,
) -> (r: Result<crate::model::CheckReport, String>)
    ensures
        check_outcome(
            adapters.gc,
            adapters.bd,
            arg_view(city),
            arg_view(rig),
            now,
            thresholds.stale_after_secs,
            r,
        ),
{
    let status = adapters.gc.status(city);
    let raw = match status {
        Ok(s) => s,
        Err(e) => return Err(e),
    };
    let ghost raw0 = raw;
    let cview = city_view(adapters, raw);
    assert(city_fetched(adapters.bd, raw0, cview));
    let r = check_city(adapters, city, rig, thresholds, now, &cview);
    r
}

/// The check once the city view is built; see `check_at`.
fn check_city<G: GcAdapter, B: BdAdapter, T: GitAdapter>(
    adapters: &Adapters<G, B, T>,
    city: Option<&str>,
    rig: Option<&str>,
    thresholds: &Thresholds,
    now: UnixTime,
    cview: &CityView,
) -> (r: Result<crate::model::CheckReport, String>)
    ensures
        check_with_city(
            adapters.gc,
            adapters.bd,
            arg_view(city),
            arg_view(rig),
            *cview,
            now,
            thresholds.stale_after_secs,
            r,
        ),
{
    let stale = thresholds.stale_after_secs;
    let rig_name = match rig {
        None => {
            let rep = check_report(cview, None);
            return Ok(rep);
        },
        Some(n) => n,
    };
    let resolved = adapters.resolve_rig(city, rig_name);
    let resolved = match resolved {
        Ok(x) => x,
        Err(e) => {
            assert(check_named_rig(adapters.gc, adapters.bd, arg_view(city), rig_name@, *cview, now, stale, Err(e)));
            return Err(e);
        },
    };
    let counts = adapters.bd.status(resolved.path.as_str());
    let ghost c = counts;
    let bd_status = match counts {
        Ok(s) => s,
        Err(e) => {
            assert(check_rig(adapters.gc, adapters.bd, arg_view(city), rig_name@, resolved, *cview, now, stale, Err(e)));
            assert(check_named_rig(adapters.gc, adapters.bd, arg_view(city), rig_name@, *cview, now, stale, Err(e)));
            return Err(e);
        },
    };
    let listed = adapters.bd.list(resolved.path.as_str(), "in_progress");
    let ghost l = listed;
    let in_progress = match listed {
        Ok(b) => b,
        Err(e) => {
            assert(check_after_counts(adapters.gc, adapters.bd, arg_view(city), rig_name@, resolved, *cview, now, stale, Err(e)));
            assert(check_rig(adapters.gc, adapters.bd, arg_view(city), rig_name@, resolved, *cview, now, stale, Err(e)));
            assert(check_named_rig(adapters.gc, adapters.bd, arg_view(city), rig_name@, *cview, now, stale, Err(e)));
            return Err(e);
        },
    };
    let ghost beads = in_progress@;
    let rstatus = adapters.gc.rig_status(city, rig_name);
    let ghost rsv = rstatus;
    let rig_status = match rstatus {
        Ok(s) => s,
        Err(e) => {
            assert(check_after_list(adapters.gc, arg_view(city), rig_name@, *cview, beads, now, stale, Err(e)));
            assert(check_after_counts(adapters.gc, adapters.bd, arg_view(city), rig_name@, resolved, *cview, now, stale, Err(e)));
            return Err(e);
        },
    };
    let ghost agents = rig_status.agents@;
    let no_sessions: Vec<SessionSignal> = Vec::new();
    let views = agent_views(rig_status.agents, in_progress.as_slice(), no_sessions.as_slice(), now, thresholds);
    assert(no_sessions@ =~= Seq::<SessionSignal>::empty());
    let qview = queue_view(
        resolved.name.as_str(),
        resolved.path.as_str(),
        resolved.running,
        bd_status,
        in_progress,
        now,
        thresholds,
    );
    assert(qview.in_progress@ =~= bead_refs_of(beads, now, stale));
    let rep = check_report(cview, Some((&qview, &views)));
    assert(agents_from(views@, agents, beads, Seq::<SessionSignal>::empty(), now, stale));
    assert(rig_verdict(rep, *cview, beads, rsv->Ok_0, now, stale));
    assert(check_after_list(adapters.gc, arg_view(city), rig_name@, *cview, beads, now, stale, Ok(rep)));
    assert(check_after_counts(adapters.gc, adapters.bd, arg_view(city), rig_name@, resolved, *cview, now, stale, Ok(rep)));
    Ok(rep)
}

/// Health-check verdict now: see `check_at`. The clock's reading is not
/// stated, so the verdict is that of `check_at` at some time.
pub fn check<G: GcAdapter, B: BdAdapter, T: GitAdapter>(
    adapters: &Adapters<G, B, T>,
    city: Option<&str>,
    rig: Option<&str>,
    thresholds: &Thresholds,
) -> (r: Result<crate::model::CheckReport, String>)
    ensures
        exists|now: UnixTime|
            #[trigger] check_outcome(
                adapters.gc,
                adapters.bd,
                arg_view(city),
                arg_view(rig),
                now,
                thresholds.stale_after_secs,
                r,
            ),
{
    let now = crate::clock::now();
    let r = check_at(adapters, city, rig, thresholds, now);
    r
}

} // verus!
