use oil_cop::assemble::{
    agent_views, check_at, city_view, dag_view, handoff_gap_report, queue_view, rig_handoff_gaps,
    session_signals, zombie_sessions, ActivityLines, SessionSignal,
};
use oil_cop::health::{Thresholds, UnixTime};
use oil_cop::model::{BeadStage, Health};
use oil_cop::sources::adapters::Adapters;
use oil_cop::sources::bd::{self, BeadRaw, DependencyRaw};
use oil_cop::sources::gc;
use oil_cop::sources::mocks::{MockBd, MockGc, MockGit};

const ALL_STATUSES_INCL_CLOSED: &str = "open,in_progress,blocked,deferred,closed";

/// 2026-01-01T12:00:00Z.
fn now() -> UnixTime {
    UnixTime::at(1767268800)
}

fn rfc3339(secs: i64) -> String {
    chrono::DateTime::from_timestamp(secs, 0)
        .unwrap()
        .to_rfc3339_opts(chrono::SecondsFormat::Secs, true)
}

fn thresholds() -> Thresholds {
    Thresholds { stale_after_secs: 1800 }
}

fn bead(id: &str, status: &str) -> BeadRaw {
    BeadRaw {
        id: id.to_string(),
        title: format!("title for {id}"),
        status: status.to_string(),
        priority: Some(1),
        assignee: None,
        updated_at: None,
        started_at: None,
        parent: None,
        dependencies: vec![],
        metadata: vec![],
    }
}

fn city_status_raw() -> gc::StatusResult {
    gc::StatusResult {
        city_name: "testcity".to_string(),
        city_path: "/fake/testcity".to_string(),
        controller: gc::Controller {
            running: true,
            pid: Some(1),
            mode: Some("supervisor".to_string()),
            status: None,
        },
        running: true,
        suspended: false,
        health: gc::HealthBlock { usable: true, degraded: false, signals: vec![] },
        agents: vec![],
        rigs: vec![],
        summary: gc::SummaryBlock { total_agents: 0, running_agents: 0 },
        partial: false,
        partial_errors: vec![],
    }
}

fn rig_agent(qualified_name: &str, scope: &str, running: bool, suspended: bool) -> gc::AgentRaw {
    gc::AgentRaw {
        qualified_name: qualified_name.to_string(),
        scope: scope.to_string(),
        running,
        suspended,
    }
}

fn rig_raw(name: &str, suspended: bool) -> gc::RigRaw {
    gc::RigRaw {
        name: name.to_string(),
        path: format!("/fake/{name}"),
        prefix: None,
        suspended,
        running: None,
    }
}

fn no_adapters() -> Adapters<MockGc, MockBd, MockGit> {
    Adapters { gc: MockGc::default(), bd: MockBd::default(), git: MockGit::default() }
}

// -- city_view -----------------------------------------------------

#[test]
fn city_view_marks_a_rig_healthy_only_with_a_live_non_suspended_rig_scoped_agent() {
    let mut raw = city_status_raw();
    raw.rigs = vec![rig_raw("alive", false), rig_raw("nobody-home", false)];
    raw.agents = vec![
        rig_agent("alive/gastown.polecat", "rig", true, false),
        rig_agent("alive/gastown.other", "rig", true, true),
        rig_agent("city-scope-thing", "city", true, false),
    ];
    let adapters = Adapters {
        gc: MockGc::default(),
        bd: MockBd {
            status: vec![
                ("/fake/alive".to_string(), bd::StatusResult::default()),
                ("/fake/nobody-home".to_string(), bd::StatusResult::default()),
            ],
            ..MockBd::default()
        },
        git: MockGit::default(),
    };
    let view = city_view(&adapters, raw);
    let alive = view.rigs.iter().find(|r| r.name == "alive").unwrap();
    assert!(alive.running);
    assert_eq!(alive.health, Health::Healthy);
    let nobody_home = view.rigs.iter().find(|r| r.name == "nobody-home").unwrap();
    assert!(!nobody_home.running);
    assert_eq!(nobody_home.health, Health::Dead);
}

#[test]
fn city_view_skips_bead_summary_for_suspended_rigs_but_fetches_it_for_active_ones() {
    let mut raw = city_status_raw();
    raw.rigs = vec![rig_raw("active", false), rig_raw("sleeping", true)];
    let adapters = Adapters {
        gc: MockGc::default(),
        bd: MockBd {
            status: vec![("/fake/active".to_string(), bd::StatusResult::default())],
            ..MockBd::default()
        },
        git: MockGit::default(),
    };
    let view = city_view(&adapters, raw);
    let active = view.rigs.iter().find(|r| r.name == "active").unwrap();
    assert!(active.bead_summary.is_some());
    let sleeping = view.rigs.iter().find(|r| r.name == "sleeping").unwrap();
    assert_eq!(sleeping.health, Health::Suspended);
    assert!(sleeping.bead_summary.is_none(), "suspended rigs must never trigger the extra bd status call");
}

#[test]
fn city_view_overall_health_reflects_degraded_partial_and_healthy_cases() {
    let adapters = no_adapters();
    let mut degraded = city_status_raw();
    degraded.health.degraded = true;
    assert_eq!(city_view(&adapters, degraded).health, Health::Dead);
    let mut unusable = city_status_raw();
    unusable.health.usable = false;
    assert_eq!(city_view(&adapters, unusable).health, Health::Dead);
    let mut partial = city_status_raw();
    partial.partial = true;
    assert_eq!(city_view(&adapters, partial).health, Health::Unknown);
    assert_eq!(city_view(&adapters, city_status_raw()).health, Health::Healthy);
}

#[test]
fn city_view_copies_the_controller_and_counts() {
    let mut raw = city_status_raw();
    raw.summary = gc::SummaryBlock { total_agents: 3, running_agents: 2 };
    raw.controller.running = false;
    let v = city_view(&no_adapters(), raw);
    assert_eq!(v.city_name, "testcity");
    assert_eq!(v.total_agents, 3);
    assert_eq!(v.running_agents, 2);
    assert!(!v.controller_running);
    assert_eq!(v.controller_pid, Some(1));
    assert_eq!(v.health, Health::Healthy, "a down controller alone doesn't change the city's signal");
}

// -- queue_view ------------------------------------------------------

#[test]
fn queue_view_health_is_the_worst_of_its_in_progress_beads() {
    let t = thresholds();
    let n = now();
    let mut fresh = bead("fresh-1", "in_progress");
    fresh.updated_at = Some(rfc3339(n.secs - 5 * 60));
    let mut stale = bead("stale-1", "in_progress");
    stale.updated_at = Some(rfc3339(n.secs - 2 * 3600));
    let view = queue_view("rig", "/fake/rig", Some(true), bd::StatusResult::default(), vec![fresh, stale], n, &t);
    assert_eq!(view.health, Health::Stale);
    assert_eq!(view.in_progress.len(), 2);
}

#[test]
fn queue_view_is_healthy_when_all_in_progress_beads_are_fresh() {
    let t = thresholds();
    let n = now();
    let mut fresh = bead("fresh-1", "in_progress");
    fresh.updated_at = Some(rfc3339(n.secs - 60));
    let view = queue_view("rig", "/fake/rig", Some(true), bd::StatusResult::default(), vec![fresh], n, &t);
    assert_eq!(view.health, Health::Healthy);
    assert_eq!(view.in_progress[0].age_secs, Some(60));
}

#[test]
fn queue_view_counts_come_from_bd_status() {
    let status = bd::StatusResult {
        summary: bd::StatusSummary {
            total_issues: 9,
            ready_issues: 1,
            in_progress_issues: 2,
            blocked_issues: 3,
            deferred_issues: 0,
            closed_issues: 3,
        },
    };
    let view = queue_view("rig", "/p", None, status, vec![], now(), &thresholds());
    assert_eq!(view.summary.total, 9);
    assert_eq!(view.summary.blocked, 3);
    assert_eq!(view.summary.closed, 3);
    assert_eq!(view.health, Health::Done);
}

// -- agent_views -----------------------------------------------------

fn rig_agent_raw(
    qualified_name: &str,
    runtime_session_name: Option<&str>,
    running: bool,
    suspended: bool,
    draining: bool,
) -> gc::RigAgentRaw {
    gc::RigAgentRaw {
        name: qualified_name.to_string(),
        qualified_name: qualified_name.to_string(),
        runtime_session_name: runtime_session_name.map(String::from),
        session_id: None,
        running,
        suspended,
        draining,
        status: None,
    }
}

#[test]
fn agent_views_joins_current_bead_by_runtime_session_name() {
    let t = thresholds();
    let n = now();
    let mut in_progress_bead = bead("bead-1", "in_progress");
    in_progress_bead.assignee = Some("session-a".to_string());
    in_progress_bead.updated_at = Some(rfc3339(n.secs - 60));
    let agents = vec![
        rig_agent_raw("rig/agent-a", Some("session-a"), true, false, false),
        rig_agent_raw("rig/agent-b", Some("session-b"), true, false, false),
        rig_agent_raw("rig/agent-c", None, true, false, false),
    ];
    let views = agent_views(agents, &[in_progress_bead], &[], n, &t);
    let a = views.iter().find(|v| v.qualified_name == "rig/agent-a").unwrap();
    assert_eq!(a.current_bead.as_ref().unwrap().id, "bead-1");
    assert_eq!(a.health, Health::Healthy);
    let b = views.iter().find(|v| v.qualified_name == "rig/agent-b").unwrap();
    assert!(b.current_bead.is_none());
    assert_eq!(b.health, Health::Idle);
    let c = views.iter().find(|v| v.qualified_name == "rig/agent-c").unwrap();
    assert!(c.current_bead.is_none());
}

#[test]
fn agent_views_health_priority_suspended_beats_dead_beats_work_state() {
    let t = thresholds();
    let n = now();
    let dead = agent_views(vec![rig_agent_raw("rig/a", None, false, false, false)], &[], &[], n, &t);
    assert_eq!(dead[0].health, Health::Dead);
    let suspended = agent_views(vec![rig_agent_raw("rig/a", None, false, true, false)], &[], &[], n, &t);
    assert_eq!(suspended[0].health, Health::Suspended);
    let draining = agent_views(vec![rig_agent_raw("rig/a", None, true, false, true)], &[], &[], n, &t);
    assert_eq!(draining[0].health, Health::Idle);
}

#[test]
fn agent_views_prefer_the_session_heartbeat_over_the_bead_age() {
    let t = thresholds();
    let n = now();
    let mut b = bead("bead-1", "in_progress");
    b.assignee = Some("session-a".to_string());
    b.updated_at = Some(rfc3339(n.secs - 60));
    let mut agent = rig_agent_raw("rig/a", Some("session-a"), true, false, false);
    agent.session_id = Some("cc-1".to_string());
    let signals = vec![SessionSignal {
        session_id: "cc-1".to_string(),
        last_active_secs: Some(4000),
        activity_line: Some("doing things".to_string()),
    }];
    let views = agent_views(vec![agent], &[b], &signals, n, &t);
    assert_eq!(views[0].last_active_secs, Some(4000));
    assert_eq!(views[0].activity_line.as_deref(), Some("doing things"));
    assert_eq!(views[0].health, Health::Stale);
}

// -- sessions ----------------------------------------------------------

fn session(id: &str, state: &str, last_active: Option<&str>, rig: Option<&str>) -> gc::SessionRaw {
    gc::SessionRaw {
        id: id.to_string(),
        name: format!("name-{id}"),
        rig: rig.map(String::from),
        state: state.to_string(),
        last_active: last_active.map(String::from),
        attached: false,
        closed: false,
    }
}

#[test]
fn zombie_sessions_flags_active_sessions_with_a_stale_or_missing_heartbeat() {
    let n = now();
    let list = gc::SessionListResult {
        sessions: vec![
            session("fresh", "active", Some(&rfc3339(n.secs - 60)), Some("lum")),
            session("stale", "active", Some(&rfc3339(n.secs - 9000)), Some("lum")),
            session("never", "active", Some("0001-01-01T00:00:00Z"), None),
            session("asleep", "asleep", Some(&rfc3339(n.secs - 9000)), Some("lum")),
        ],
    };
    let report = zombie_sessions(&list, n, &thresholds());
    assert_eq!(report.total_sessions, 4);
    let ids: Vec<&str> = report.zombies.iter().map(|z| z.id.as_str()).collect();
    assert_eq!(ids, vec!["stale", "never"]);
    assert_eq!(report.zombies[0].last_active_secs, Some(9000));
    assert_eq!(report.zombies[1].last_active_secs, None);
    assert_eq!(
        report.zombies[0].suggested_commands,
        vec!["gc session kill stale".to_string(), "gc session close stale".to_string()]
    );
}

#[test]
fn session_signals_carry_heartbeat_age_and_cached_line() {
    let n = now();
    let list = gc::SessionListResult {
        sessions: vec![
            session("a", "active", Some(&rfc3339(n.secs - 30)), None),
            session("b", "active", Some("0001-01-01T00:00:00Z"), None),
        ],
    };
    let mut cache = ActivityLines::new();
    cache.insert("a".to_string(), "line a".to_string());
    let s = session_signals(&list, &cache, n);
    assert_eq!(s.len(), 2);
    assert_eq!(s[0].last_active_secs, Some(30));
    assert_eq!(s[0].activity_line.as_deref(), Some("line a"));
    assert_eq!(s[1].last_active_secs, None);
    assert_eq!(s[1].activity_line, None);
}

#[test]
fn activity_lines_insert_replace_and_retain() {
    let mut cache = ActivityLines::new();
    assert_eq!(cache.get("x"), None);
    cache.insert("x".to_string(), "one".to_string());
    cache.insert("y".to_string(), "two".to_string());
    cache.insert("x".to_string(), "three".to_string());
    assert_eq!(cache.get("x").as_deref(), Some("three"));
    assert_eq!(cache.get("y").as_deref(), Some("two"));
    cache.retain_ids(&vec!["y".to_string(), "z".to_string()]);
    assert_eq!(cache.get("x"), None);
    assert_eq!(cache.get("y").as_deref(), Some("two"));
}

// -- dag_view ---------------------------------------------------------

fn adapters_for_dag(
    beads_by_filter: Vec<(&str, &str, Vec<BeadRaw>)>,
    git: MockGit,
) -> Adapters<MockGc, MockBd, MockGit> {
    let list = beads_by_filter
        .into_iter()
        .map(|(dir, filter, beads)| ((dir.to_string(), filter.to_string()), beads))
        .collect();
    Adapters { gc: MockGc::default(), bd: MockBd { list, ..MockBd::default() }, git }
}

#[test]
fn dag_view_classifies_stage_by_status() {
    let rig = rig_raw("rig", false);
    let beads = vec![
        bead("open-1", "open"),
        bead("blocked-1", "blocked"),
        bead("deferred-1", "deferred"),
        bead("active-1", "in_progress"),
        bead("merged-1", "closed"),
    ];
    let adapters = adapters_for_dag(vec![("/fake/rig", "open,in_progress,blocked,deferred,closed", beads)], MockGit::default());
    let view = dag_view(&adapters, &rig, true, now()).unwrap();
    let stage_of = |id: &str| view.nodes.iter().find(|n| n.id == id).unwrap().stage;
    assert_eq!(stage_of("open-1"), BeadStage::Pending);
    assert_eq!(stage_of("blocked-1"), BeadStage::Pending);
    assert_eq!(stage_of("deferred-1"), BeadStage::Pending);
    assert_eq!(stage_of("active-1"), BeadStage::Active);
    assert_eq!(stage_of("merged-1"), BeadStage::Merged);
}

#[test]
fn dag_view_excludes_closed_unless_include_closed() {
    let rig = rig_raw("rig", false);
    let beads = vec![bead("open-1", "open")];
    let adapters = adapters_for_dag(vec![("/fake/rig", "open,in_progress,blocked,deferred", beads)], MockGit::default());
    let view = dag_view(&adapters, &rig, false, now()).unwrap();
    assert_eq!(view.nodes.len(), 1);
}

#[test]
fn dag_view_extracts_blocked_by_from_blocks_dependencies_only() {
    let rig = rig_raw("rig", false);
    let mut blocked = bead("blocked-1", "blocked");
    blocked.dependencies = vec![
        DependencyRaw { depends_on_id: "parent-1".to_string(), dep_type: "parent-child".to_string() },
        DependencyRaw { depends_on_id: "blocker-1".to_string(), dep_type: "blocks".to_string() },
    ];
    let adapters = adapters_for_dag(vec![("/fake/rig", "open,in_progress,blocked,deferred", vec![blocked])], MockGit::default());
    let view = dag_view(&adapters, &rig, false, now()).unwrap();
    assert_eq!(view.nodes[0].blocked_by, vec!["blocker-1"]);
}

#[test]
fn dag_view_landed_unmerged_requires_branch_and_target_and_git_confirmation() {
    let rig = rig_raw("rig", false);
    let mut has_both_and_merged = bead("landed-1", "in_progress");
    has_both_and_merged.metadata = vec![
        ("branch".to_string(), "polecat/landed-1".to_string()),
        ("gc.work_branch".to_string(), "master".to_string()),
    ];
    let mut has_both_not_merged = bead("stuck-1", "in_progress");
    has_both_not_merged.metadata = vec![
        ("branch".to_string(), "polecat/stuck-1".to_string()),
        ("gc.work_branch".to_string(), "master".to_string()),
    ];
    let mut no_branch_metadata = bead("direct-commit-1", "in_progress");
    no_branch_metadata.metadata = vec![];
    let mut git = MockGit::default();
    git.merged.push((("/fake/rig".to_string(), "polecat/landed-1".to_string(), "master".to_string()), true));
    let adapters = adapters_for_dag(
        vec![("/fake/rig", "open,in_progress,blocked,deferred", vec![has_both_and_merged, has_both_not_merged, no_branch_metadata])],
        git,
    );
    let view = dag_view(&adapters, &rig, false, now()).unwrap();
    let by_id = |id: &str| view.nodes.iter().find(|n| n.id == id).unwrap();
    assert!(by_id("landed-1").landed_unmerged);
    assert!(!by_id("stuck-1").landed_unmerged);
    assert!(!by_id("direct-commit-1").landed_unmerged, "no branch metadata (direct-commit model) must never claim landed_unmerged");
}

#[test]
fn dag_view_fails_when_the_bead_list_cannot_be_fetched() {
    let rig = rig_raw("rig", false);
    let adapters = adapters_for_dag(vec![], MockGit::default());
    let err = dag_view(&adapters, &rig, false, now()).unwrap_err();
    assert!(err.contains("mock: no bd list configured"));
}

// -- rig_handoff_gaps / handoff_gap_report ----------------------------

fn adapters_for_handoff(
    rigs: Vec<gc::RigRaw>,
    beads_by_dir: Vec<(&str, Vec<BeadRaw>)>,
    git: MockGit,
) -> Adapters<MockGc, MockBd, MockGit> {
    let list = beads_by_dir
        .into_iter()
        .map(|(dir, beads)| ((dir.to_string(), ALL_STATUSES_INCL_CLOSED.to_string()), beads))
        .collect();
    Adapters {
        gc: MockGc {
            rig_list: Some(gc::RigListResult { rigs: rigs.clone() }),
            rig_status: rigs
                .into_iter()
                .map(|r| (r.name.clone(), gc::RigStatusResult { agents: vec![], rig: r }))
                .collect(),
            ..MockGc::default()
        },
        bd: MockBd { list, ..MockBd::default() },
        git,
    }
}

fn git_with(
    default_branch: Vec<(&str, &str)>,
    remote_branches: Vec<((&str, &str), Vec<&str>)>,
    merged: Vec<((&str, &str, &str), bool)>,
) -> MockGit {
    MockGit {
        default_branch: default_branch.into_iter().map(|(dir, b)| (dir.to_string(), b.to_string())).collect(),
        remote_branches: remote_branches
            .into_iter()
            .map(|((dir, prefix), branches)| ((dir.to_string(), prefix.to_string()), branches.into_iter().map(String::from).collect()))
            .collect(),
        merged: merged
            .into_iter()
            .map(|((dir, b, t), v)| ((dir.to_string(), b.to_string(), t.to_string()), v))
            .collect(),
    }
}

#[test]
fn rig_handoff_gaps_flags_an_open_unassigned_bead_with_a_real_unmerged_pushed_branch() {
    let rig = rig_raw("luminate", false);
    let mut orphaned = bead("luminate-bgb.2", "open");
    orphaned.assignee = None;
    let git = git_with(
        vec![("/fake/luminate", "master")],
        vec![(("/fake/luminate", "polecat/"), vec!["polecat/luminate-bgb.2"])],
        vec![],
    );
    let adapters = adapters_for_handoff(vec![rig.clone()], vec![], git);
    let view = rig_handoff_gaps(&adapters, &rig, &[orphaned]);
    assert_eq!(view.base_branch.as_deref(), Some("master"));
    assert_eq!(view.gaps.len(), 1);
    assert_eq!(view.gaps[0].bead_id, "luminate-bgb.2");
    assert_eq!(view.gaps[0].branch, "polecat/luminate-bgb.2");
    assert_eq!(view.gaps[0].bead_status.as_deref(), Some("open"));
    assert_eq!(view.gaps[0].bead_assignee, None);
}

#[test]
fn rig_handoff_gaps_ignores_a_branch_that_already_landed_on_the_base_branch() {
    let rig = rig_raw("luminate", false);
    let landed = bead("luminate-1", "open");
    let git = git_with(
        vec![("/fake/luminate", "master")],
        vec![(("/fake/luminate", "polecat/"), vec!["polecat/luminate-1"])],
        vec![(("/fake/luminate", "polecat/luminate-1", "master"), true)],
    );
    let adapters = adapters_for_handoff(vec![rig.clone()], vec![], git);
    let view = rig_handoff_gaps(&adapters, &rig, &[landed]);
    assert!(view.gaps.is_empty());
}

#[test]
fn rig_handoff_gaps_ignores_a_bead_that_is_in_progress_and_assigned() {
    let rig = rig_raw("luminate", false);
    let mut active = bead("luminate-1", "in_progress");
    active.assignee = Some("gastown__polecat-cc-abcd".to_string());
    let git = git_with(
        vec![("/fake/luminate", "master")],
        vec![(("/fake/luminate", "polecat/"), vec!["polecat/luminate-1"])],
        vec![],
    );
    let adapters = adapters_for_handoff(vec![rig.clone()], vec![], git);
    let view = rig_handoff_gaps(&adapters, &rig, &[active]);
    assert!(view.gaps.is_empty());
}

#[test]
fn rig_handoff_gaps_ignores_a_pending_bead_that_is_still_assigned() {
    let rig = rig_raw("luminate", false);
    let mut blocked = bead("luminate-1", "blocked");
    blocked.assignee = Some("gastown__polecat-cc-abcd".to_string());
    let git = git_with(
        vec![("/fake/luminate", "master")],
        vec![(("/fake/luminate", "polecat/"), vec!["polecat/luminate-1"])],
        vec![],
    );
    let adapters = adapters_for_handoff(vec![rig.clone()], vec![], git);
    let view = rig_handoff_gaps(&adapters, &rig, &[blocked]);
    assert!(view.gaps.is_empty());
}

#[test]
fn rig_handoff_gaps_flags_a_branch_with_no_matching_bd_record_at_all() {
    let rig = rig_raw("luminate", false);
    let git = git_with(
        vec![("/fake/luminate", "master")],
        vec![(("/fake/luminate", "polecat/"), vec!["polecat/luminate-ghost"])],
        vec![],
    );
    let adapters = adapters_for_handoff(vec![rig.clone()], vec![], git);
    let view = rig_handoff_gaps(&adapters, &rig, &[]);
    assert_eq!(view.gaps.len(), 1);
    assert_eq!(view.gaps[0].bead_id, "luminate-ghost");
    assert_eq!(view.gaps[0].bead_status, None);
    assert_eq!(view.gaps[0].bead_assignee, None);
}

#[test]
fn rig_handoff_gaps_reports_no_gaps_when_the_base_branch_cannot_be_determined() {
    let rig = rig_raw("luminate", false);
    let orphaned = bead("luminate-bgb.2", "open");
    let git = git_with(vec![], vec![(("/fake/luminate", "polecat/"), vec!["polecat/luminate-bgb.2"])], vec![]);
    let adapters = adapters_for_handoff(vec![rig.clone()], vec![], git);
    let view = rig_handoff_gaps(&adapters, &rig, &[orphaned]);
    assert_eq!(view.base_branch, None);
    assert!(view.gaps.is_empty());
}

#[test]
fn handoff_gap_report_scans_every_non_suspended_rig_when_no_rig_is_given() {
    let active_rig = rig_raw("luminate", false);
    let sleepy_rig = rig_raw("sleepyrig", true);
    let mut orphaned = bead("luminate-bgb.2", "open");
    orphaned.assignee = None;
    let git = git_with(
        vec![("/fake/luminate", "master")],
        vec![(("/fake/luminate", "polecat/"), vec!["polecat/luminate-bgb.2"])],
        vec![],
    );
    let adapters = adapters_for_handoff(vec![active_rig, sleepy_rig], vec![("/fake/luminate", vec![orphaned])], git);
    let report = handoff_gap_report(&adapters, None, None).unwrap();
    assert_eq!(report.rigs.len(), 1, "suspended rigs must be skipped");
    assert_eq!(report.rigs[0].rig_name, "luminate");
    assert_eq!(report.rigs[0].gaps.len(), 1);
    assert!(!report.ok);
}

#[test]
fn handoff_gap_report_scopes_to_a_single_named_rig() {
    let rig = rig_raw("luminate", false);
    let git = git_with(vec![("/fake/luminate", "master")], vec![], vec![]);
    let adapters = adapters_for_handoff(vec![rig], vec![("/fake/luminate", vec![])], git);
    let report = handoff_gap_report(&adapters, None, Some("luminate")).unwrap();
    assert_eq!(report.rigs.len(), 1);
    assert!(report.ok);
}

#[test]
fn handoff_gap_report_errors_clearly_for_an_unknown_named_rig() {
    let adapters = adapters_for_handoff(vec![], vec![], MockGit::default());
    let err = handoff_gap_report(&adapters, None, Some("not-a-real-rig")).unwrap_err();
    assert!(err.to_string().contains("no rig named"));
}

#[test]
fn handoff_gap_report_records_a_per_rig_error_without_aborting_other_rigs() {
    let broken_rig = rig_raw("broken", false);
    let healthy_rig = rig_raw("healthy", false);
    let git = git_with(vec![("/fake/healthy", "master")], vec![], vec![]);
    let adapters = adapters_for_handoff(vec![broken_rig, healthy_rig], vec![("/fake/healthy", vec![])], git);
    let report = handoff_gap_report(&adapters, None, None).unwrap();
    let broken = report.rigs.iter().find(|r| r.rig_name == "broken").unwrap();
    assert!(broken.error.is_some());
    assert!(broken.gaps.is_empty());
    let healthy = report.rigs.iter().find(|r| r.rig_name == "healthy").unwrap();
    assert!(healthy.error.is_none());
    assert!(report.ok, "a per-rig fetch error alone must not flip ok to false");
}

// -- check -------------------------------------------------------------

fn adapters_for_check(
    city_status: gc::StatusResult,
    rig_list: Vec<gc::RigRaw>,
    bd_status: bd::StatusResult,
    in_progress: Vec<BeadRaw>,
    rig_agents: Vec<gc::RigAgentRaw>,
) -> Adapters<MockGc, MockBd, MockGit> {
    let rig_path = rig_list.first().map(|r| r.path.clone()).unwrap_or_default();
    Adapters {
        gc: MockGc {
            status: Some(city_status),
            rig_list: Some(gc::RigListResult { rigs: rig_list.clone() }),
            rig_status: rig_list
                .into_iter()
                .map(|r| (r.name.clone(), gc::RigStatusResult { agents: rig_agents.clone(), rig: r }))
                .collect(),
            ..MockGc::default()
        },
        bd: MockBd {
            status: vec![(rig_path.clone(), bd_status)],
            list: vec![((rig_path, "in_progress".to_string()), in_progress)],
        },
        git: MockGit::default(),
    }
}

#[test]
fn check_is_ok_when_everything_is_healthy() {
    let adapters = adapters_for_check(city_status_raw(), vec![], bd::StatusResult::default(), vec![], vec![]);
    let report = check_at(&adapters, None, None, &thresholds(), now()).unwrap();
    assert!(report.ok);
    assert!(report.issues.is_empty());
}

#[test]
fn check_flags_a_degraded_city() {
    let mut raw = city_status_raw();
    raw.health.degraded = true;
    raw.health.signals = vec!["dolt is unhappy".to_string()];
    let adapters = adapters_for_check(raw, vec![], bd::StatusResult::default(), vec![], vec![]);
    let report = check_at(&adapters, None, None, &thresholds(), now()).unwrap();
    assert!(!report.ok);
    assert!(report.issues[0].message.contains("dolt is unhappy"));
}

#[test]
fn check_flags_a_stale_in_progress_bead_and_a_dead_agent_for_the_given_rig() {
    let mut stale_bead = bead("stale-1", "in_progress");
    stale_bead.updated_at = Some(rfc3339(now().secs - 2 * 3600));
    stale_bead.assignee = Some("session-a".to_string());
    let dead_agent = rig_agent_raw("rig/dead-agent", None, false, false, false);
    let adapters = adapters_for_check(
        city_status_raw(),
        vec![rig_raw("rig", false)],
        bd::StatusResult::default(),
        vec![stale_bead],
        vec![dead_agent],
    );
    let report = check_at(&adapters, None, Some("rig"), &thresholds(), now()).unwrap();
    assert!(!report.ok);
    assert!(report.issues.iter().any(|i| i.scope == "bead:stale-1"));
    assert!(report.issues.iter().any(|i| i.scope == "agent:rig/dead-agent" && i.message.contains("not running")));
}

#[test]
fn check_fails_when_the_city_status_cannot_be_fetched() {
    let err = check_at(&no_adapters(), None, None, &thresholds(), now()).unwrap_err();
    assert_eq!(err, "mock: no status configured");
}

#[test]
fn sessions_on_rig_keeps_only_that_rigs_sessions() {
    let list = gc::SessionListResult {
        sessions: vec![
            session("a", "active", None, Some("lum")),
            session("b", "active", None, Some("other")),
            session("c", "active", None, None),
            session("d", "asleep", None, Some("lum")),
        ],
    };
    let all = oil_cop::assemble::sessions_on_rig(list.clone(), None);
    assert_eq!(all.sessions.len(), 4);
    let lum = oil_cop::assemble::sessions_on_rig(list, Some("lum"));
    let ids: Vec<&str> = lum.sessions.iter().map(|s| s.id.as_str()).collect();
    assert_eq!(ids, vec!["a", "d"]);
}
