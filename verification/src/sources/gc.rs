//! The `gc` (Gas City) command line: what to run, and the shapes of the
//! `--json` answers of `gc status`, `gc rig list`, `gc rig status`, `gc
//! session list` and `gc session peek`.
use super::proc::{push_arg, views, Invocation};
use vstd::prelude::*;

verus! {

#[derive(Debug, Clone)]
pub struct StatusResult {
    pub city_name: String,
    pub city_path: String,
    pub controller: Controller,
    pub running: bool,
    pub suspended: bool,
    pub health: HealthBlock,
    pub agents: Vec<AgentRaw>,
    pub rigs: Vec<RigRaw>,
    pub summary: SummaryBlock,
    pub partial: bool,
    pub partial_errors: Vec<String>,
}

#[derive(Debug, Clone)]
pub struct Controller {
    pub running: bool,
    pub pid: Option<i64>,
    pub mode: Option<String>,
    pub status: Option<String>,
}

impl Default for Controller {
    fn default() -> (r: Self)
        ensures
            !r.running,
            r.pid is None,
            r.mode is None,
            r.status is None,
    {
        Controller { running: false, pid: None, mode: None, status: None }
    }
}

#[derive(Debug, Clone)]
pub struct HealthBlock {
    pub usable: bool,
    pub degraded: bool,
    pub signals: Vec<String>,
}

impl Default for HealthBlock {
    fn default() -> (r: Self)
        ensures
            !r.usable,
            !r.degraded,
            r.signals@.len() == 0,
    {
        HealthBlock { usable: false, degraded: false, signals: Vec::new() }
    }
}

#[derive(Debug, Clone, Copy)]
pub struct SummaryBlock {
    pub total_agents: i64,
    pub running_agents: i64,
}

impl Default for SummaryBlock {
    fn default() -> (r: Self)
        ensures
            r.total_agents == 0,
            r.running_agents == 0,
    {
        SummaryBlock { total_agents: 0, running_agents: 0 }
    }
}

#[derive(Debug, Clone)]
pub struct AgentRaw {
    pub qualified_name: String,
    pub scope: String,
    pub running: bool,
    pub suspended: bool,
}

#[derive(Debug, Clone)]
pub struct RigRaw {
    pub name: String,
    pub path: String,
    pub prefix: Option<String>,
    pub suspended: bool,
    /// Only present on `gc rig list`, not `gc status`.
    pub running: Option<bool>,
}

impl Default for RigRaw {
    fn default() -> (r: Self)
        ensures
            r.name@.len() == 0,
            r.path@.len() == 0,
            r.prefix is None,
            !r.suspended,
            r.running is None,
    {
        RigRaw {
            name: String::new(),
            path: String::new(),
            prefix: None,
            suspended: false,
            running: None,
        }
    }
}

#[derive(Debug, Clone)]
pub struct RigListResult {
    pub rigs: Vec<RigRaw>,
}

#[derive(Debug, Clone)]
pub struct RigStatusResult {
    pub rig: RigRaw,
    pub agents: Vec<RigAgentRaw>,
}

#[derive(Debug, Clone)]
pub struct RigAgentRaw {
    pub name: String,
    pub qualified_name: String,
    pub runtime_session_name: Option<String>,
    pub session_id: Option<String>,
    pub running: bool,
    pub suspended: bool,
    pub draining: bool,
    pub status: Option<String>,
}

/// One entry of `gc session list --json`: `last_active` is a real
/// per-session heartbeat timestamp, not an inference from when a bead last
/// got touched. It comes back as the zero-value RFC 3339 sentinel
/// (`0001-01-01T00:00:00Z`) for a session that has never been active.
#[derive(Debug, Clone)]
pub struct SessionRaw {
    pub id: String,
    pub name: String,
    pub rig: Option<String>,
    pub state: String,
    pub last_active: Option<String>,
    pub attached: bool,
    pub closed: bool,
}

#[derive(Debug, Clone)]
pub struct SessionListResult {
    pub sessions: Vec<SessionRaw>,
}

impl Default for SessionListResult {
    fn default() -> (r: Self)
        ensures
            r.sessions@.len() == 0,
    {
        SessionListResult { sessions: Vec::new() }
    }
}

/// Result of `gc session peek`: the tail of the session's live pane output.
#[derive(Debug, Clone)]
pub struct PeekResult {
    pub output: String,
}

impl Default for PeekResult {
    fn default() -> (r: Self)
        ensures
            r.output@.len() == 0,
    {
        PeekResult { output: String::new() }
    }
}

/// `--city <path>` when a city is given, nothing otherwise.
pub open spec fn city_argv(city: Option<&str>) -> Seq<Seq<char>> {
    match city {
        Some(c) => seq!["--city"@, c@],
        None => Seq::empty(),
    }
}

fn city_args(city: Option<&str>, base: &mut Vec<String>)
    ensures
        views(final(base)@) == views(old(base)@) + city_argv(city),
{
    match city {
        Some(c) => {
            push_arg(base, "--city");
            push_arg(base, c);
            assert(views(base@) =~= views(old(base)@) + city_argv(city));
        },
        None => {
            assert(views(base@) =~= views(old(base)@) + city_argv(city));
        },
    }
}

fn gc_call(mut args: Vec<String>, city: Option<&str>) -> (r: Invocation)
    ensures
        r.bin@ == "gc"@,
        r.argv() == views(args@) + city_argv(city),
{
    city_args(city, &mut args);
    Invocation { bin: crate::text::owned("gc"), args }
}

/// `gc status --json [--city <path>]`.
pub fn status(city: Option<&str>) -> (r: Invocation)
    ensures
        r.bin@ == "gc"@,
        r.argv() == seq!["status"@, "--json"@] + city_argv(city),
{
    let mut args: Vec<String> = Vec::new();
    push_arg(&mut args, "status");
    push_arg(&mut args, "--json");
    assert(views(args@) =~= seq!["status"@, "--json"@]);
    gc_call(args, city)
}

/// `gc rig list --json [--city <path>]`.
pub fn rig_list(city: Option<&str>) -> (r: Invocation)
    ensures
        r.bin@ == "gc"@,
        r.argv() == seq!["rig"@, "list"@, "--json"@] + city_argv(city),
{
    let mut args: Vec<String> = Vec::new();
    push_arg(&mut args, "rig");
    push_arg(&mut args, "list");
    push_arg(&mut args, "--json");
    assert(views(args@) =~= seq!["rig"@, "list"@, "--json"@]);
    gc_call(args, city)
}

/// `gc rig status --rig <rig> --json [--city <path>]`.
pub fn rig_status(city: Option<&str>, rig: &str) -> (r: Invocation)
    ensures
        r.bin@ == "gc"@,
        r.argv() == seq!["rig"@, "status"@, "--rig"@, rig@, "--json"@] + city_argv(city),
{
    let mut args: Vec<String> = Vec::new();
    push_arg(&mut args, "rig");
    push_arg(&mut args, "status");
    push_arg(&mut args, "--rig");
    push_arg(&mut args, rig);
    push_arg(&mut args, "--json");
    assert(views(args@) =~= seq!["rig"@, "status"@, "--rig"@, rig@, "--json"@]);
    gc_call(args, city)
}

/// `gc session list --json [--city <path>]`: every session known to the
/// city, the per-session liveness source.
pub fn session_list(city: Option<&str>) -> (r: Invocation)
    ensures
        r.bin@ == "gc"@,
        r.argv() == seq!["session"@, "list"@, "--json"@] + city_argv(city),
{
    let mut args: Vec<String> = Vec::new();
    push_arg(&mut args, "session");
    push_arg(&mut args, "list");
    push_arg(&mut args, "--json");
    assert(views(args@) =~= seq!["session"@, "list"@, "--json"@]);
    gc_call(args, city)
}

/// `gc session peek <id> --lines <n> --json [--city <path>]`: the tail of
/// a session's live pane without attaching. Fails when the session isn't
/// currently active.
pub fn session_peek(city: Option<&str>, session_id: &str, lines: usize) -> (r: Invocation)
    ensures
        r.bin@ == "gc"@,
        r.argv() == seq![
            "session"@,
            "peek"@,
            session_id@,
            "--lines"@,
            crate::text::nat_decimal(lines as nat),
            "--json"@,
        ] + city_argv(city),
{
    let lines_str = crate::text::usize_to_string(lines);
    let mut args: Vec<String> = Vec::new();
    push_arg(&mut args, "session");
    push_arg(&mut args, "peek");
    push_arg(&mut args, session_id);
    push_arg(&mut args, "--lines");
    push_arg(&mut args, lines_str.as_str());
    push_arg(&mut args, "--json");
    assert(views(args@) =~= seq![
        "session"@,
        "peek"@,
        session_id@,
        "--lines"@,
        crate::text::nat_decimal(lines as nat),
        "--json"@,
    ]);
    gc_call(args, city)
}

} // verus!
