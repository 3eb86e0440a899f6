//! Domain types shared between data sources and renderers.
//! These are the normalized, tool-agnostic views the library displays --
//! kept separate from the raw `gc`/`bd` payload shapes in `sources::*`.
use vstd::prelude::*;

verus! {

#[derive(Debug, Clone, Copy, PartialEq, Eq, Structural)]
pub enum Health {
    /// Actively progressing: running agent with recently-updated work, or a
    /// fresh in-progress bead.
    Healthy,
    /// Waiting on something upstream (open/blocked/no assigned work) -- not
    /// itself a problem.
    Idle,
    /// Should be moving but hasn't updated within the staleness threshold.
    Stale,
    /// Expected to be running/usable but isn't.
    Dead,
    /// Intentionally paused.
    Suspended,
    /// Finished.
    Done,
    /// Not enough data to judge.
    Unknown,
}

impl Health {
    /// The lower-case name of each signal.
    pub open spec fn label_spec(self) -> Seq<char> {
        match self {
            Health::Healthy => "healthy"@,
            Health::Idle => "idle"@,
            Health::Stale => "stale"@,
            Health::Dead => "dead"@,
            Health::Suspended => "suspended"@,
            Health::Done => "done"@,
            Health::Unknown => "unknown"@,
        }
    }

    pub fn label(self) -> (r: &'static str)
        ensures
            r@ == self.label_spec(),
    {
        match self {
            Health::Healthy => "healthy",
            Health::Idle => "idle",
            Health::Stale => "stale",
            Health::Dead => "dead",
            Health::Suspended => "suspended",
            Health::Done => "done",
            Health::Unknown => "unknown",
        }
    }
}

/// Every health signal has its own label: two signals with the same label
/// are the same signal.
pub proof fn lemma_label_injective(a: Health, b: Health)
    ensures
        a.label_spec() == b.label_spec() ==> a == b,
{
    reveal_strlit("healthy");
    reveal_strlit("idle");
    reveal_strlit("stale");
    reveal_strlit("dead");
    reveal_strlit("suspended");
    reveal_strlit("done");
    reveal_strlit("unknown");
    if a.label_spec() == b.label_spec() && a != b {
        let la = a.label_spec();
        let lb = b.label_spec();
        assert(la.len() == lb.len());
        assert(la[0] == lb[0]);
        assert(la[1] == lb[1]);
    }
}

#[derive(Debug, Clone)]
pub struct BeadRef {
    pub id: String,
    pub title: String,
    pub status: String,
    pub priority: Option<i64>,
    pub assignee: Option<String>,
    pub started_at: Option<String>,
    pub updated_at: Option<String>,
    /// Seconds since `updated_at`, at assembly time.
    pub age_secs: Option<i64>,
    pub health: Health,
}

#[derive(Debug, Clone)]
pub struct AgentView {
    pub name: String,
    pub qualified_name: String,
    pub scope: String,
    pub running: bool,
    pub suspended: bool,
    pub draining: bool,
    /// Raw status text from `gc rig status` (e.g. "running", "stopped"),
    /// shown verbatim when it carries more nuance than the booleans do.
    pub raw_status: Option<String>,
    pub session_id: Option<String>,
    pub runtime_session_name: Option<String>,
    pub current_bead: Option<BeadRef>,
    /// Seconds since this agent's session last showed real activity (the
    /// session list's `last_active`). `None` when no matching session (or
    /// heartbeat) was found.
    pub last_active_secs: Option<i64>,
    /// Last meaningful line of the agent's live pane, when one was fetched.
    pub activity_line: Option<String>,
    pub health: Health,
}

#[derive(Debug, Clone)]
pub struct RigView {
    pub name: String,
    pub path: String,
    pub prefix: Option<String>,
    pub running: bool,
    pub suspended: bool,
    pub health: Health,
    /// Bead counts for this rig. `None` for suspended rigs (skipped) or if
    /// the `bd status` call for this rig's path failed.
    pub bead_summary: Option<QueueSummary>,
}

#[derive(Debug, Clone)]
pub struct CityView {
    pub city_name: String,
    pub city_path: String,
    pub city_running: bool,
    pub controller_running: bool,
    pub controller_pid: Option<i64>,
    pub controller_mode: Option<String>,
    pub controller_status: Option<String>,
    pub suspended: bool,
    pub usable: bool,
    pub degraded: bool,
    pub signals: Vec<String>,
    pub partial: bool,
    pub partial_errors: Vec<String>,
    pub rigs: Vec<RigView>,
    pub total_agents: usize,
    pub running_agents: usize,
    pub health: Health,
}

#[derive(Debug, Clone, Copy, PartialEq, Eq, Structural)]
pub struct QueueSummary {
    pub total: i64,
    pub ready: i64,
    pub in_progress: i64,
    pub blocked: i64,
    pub deferred: i64,
    pub closed: i64,
}

#[derive(Debug, Clone)]
pub struct QueueView {
    pub rig_name: String,
    pub rig_path: String,
    pub rig_running: Option<bool>,
    pub summary: QueueSummary,
    pub in_progress: Vec<BeadRef>,
    pub health: Health,
}

/// Bead-lifecycle stage for the DAG view's red -> yellow -> green coloring.
/// Deliberately separate from `Health` (staleness) -- this is "where is it
/// in the pipeline," not "is it stuck."
#[derive(Debug, Clone, Copy, PartialEq, Eq, Structural)]
pub enum BeadStage {
    /// open / blocked / deferred -- not started yet.
    Pending,
    /// in_progress -- being worked on right now.
    Active,
    /// closed -- landed.
    Merged,
}

impl BeadStage {
    /// `in_progress` is active, `closed` is merged, every other status
    /// (open, blocked, deferred, anything unrecognised) is still pending.
    pub open spec fn stage_of(status: Seq<char>) -> BeadStage {
        if status == "in_progress"@ {
            BeadStage::Active
        } else if status == "closed"@ {
            BeadStage::Merged
        } else {
            BeadStage::Pending
        }
    }

    pub fn from_status(status: &str) -> (r: BeadStage)
        ensures
            r == BeadStage::stage_of(status@),
    {
        if crate::text::str_eq(status, "in_progress") {
            BeadStage::Active
        } else if crate::text::str_eq(status, "closed") {
            BeadStage::Merged
        } else {
            BeadStage::Pending
        }
    }
}

/// A bead's stage follows its status: in progress is active, closed is
/// merged, and open, blocked and deferred are all pending.
pub proof fn law_stage_follows_status(status: Seq<char>)
    ensures
        (BeadStage::stage_of(status) == BeadStage::Active) <==> status == "in_progress"@,
        (BeadStage::stage_of(status) == BeadStage::Merged) <==> status == "closed"@,
        status == "open"@ || status == "blocked"@ || status == "deferred"@ ==> BeadStage::stage_of(
            status,
        ) == BeadStage::Pending,
{
    reveal_strlit("in_progress");
    reveal_strlit("closed");
    reveal_strlit("open");
    reveal_strlit("blocked");
    reveal_strlit("deferred");
    assert("open"@.len() != "in_progress"@.len() && "blocked"@[0] != "in_progress"@[0]
        && "deferred"@.len() != "in_progress"@.len());
    assert("open"@.len() != "closed"@.len() && "blocked"@[0] != "closed"@[0]
        && "deferred"@.len() != "closed"@.len());
}

#[derive(Debug, Clone)]
pub struct DagNode {
    pub id: String,
    pub title: String,
    pub status: String,
    pub priority: Option<i64>,
    pub assignee: Option<String>,
    pub parent: Option<String>,
    pub blocked_by: Vec<String>,
    pub age_secs: Option<i64>,
    pub stage: BeadStage,
    /// True when bd still reports `in_progress` but the bead's branch has
    /// already landed on its target in git.
    pub landed_unmerged: bool,
}

#[derive(Debug, Clone)]
pub struct DagView {
    pub rig_name: String,
    pub rig_path: String,
    pub nodes: Vec<DagNode>,
}

/// One concrete problem found by a health check -- only `Dead`/`Stale`
/// signals are surfaced here (see `health::is_problem`).
#[derive(Debug, Clone)]
pub struct CheckIssue {
    /// e.g. "city", "rig:luminate", "agent:luminate/gastown.nux",
    /// "bead:luminate-2vr.2"
    pub scope: String,
    pub health: Health,
    pub message: String,
}

#[derive(Debug, Clone)]
pub struct CheckReport {
    pub ok: bool,
    pub issues: Vec<CheckIssue>,
}

/// A session `gc` itself still calls active, but whose real activity
/// heartbeat (`last_active`) is stale (or has never fired at all).
#[derive(Debug, Clone)]
pub struct ZombieSession {
    pub id: String,
    pub name: String,
    pub rig: Option<String>,
    /// `None` means the session has never shown any activity at all.
    pub last_active_secs: Option<i64>,
    /// `gc session kill`/`gc session close` -- printed for a human to run,
    /// never executed automatically.
    pub suggested_commands: Vec<String>,
}

#[derive(Debug, Clone)]
pub struct SessionsReport {
    pub total_sessions: usize,
    pub zombies: Vec<ZombieSession>,
}

/// A `polecat/<bead-id>` branch on origin, not yet landed on the base
/// branch, whose bead bd doesn't show as assigned work.
#[derive(Debug, Clone)]
pub struct HandoffGap {
    pub bead_id: String,
    pub branch: String,
    /// `None` when bd has no record of the bead at all.
    pub bead_status: Option<String>,
    pub bead_assignee: Option<String>,
}

/// One rig's handoff-gap scan.
#[derive(Debug, Clone)]
pub struct RigHandoffGaps {
    pub rig_name: String,
    pub rig_path: String,
    /// Origin's default branch; `None` when it couldn't be determined (no
    /// gaps are reported then).
    pub base_branch: Option<String>,
    pub gaps: Vec<HandoffGap>,
    /// Set when this rig's bead list couldn't be fetched.
    pub error: Option<String>,
}

#[derive(Debug, Clone)]
pub struct HandoffGapReport {
    pub rigs: Vec<RigHandoffGaps>,
    /// True when no rig has a gap.
    pub ok: bool,
}

} // verus!
