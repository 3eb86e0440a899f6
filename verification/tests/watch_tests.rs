use oil_cop::assemble::ActivityLines;
use oil_cop::health::{Thresholds, UnixTime};
use oil_cop::render::watch::{
    apply_peek, error_line, frame_header, last_meaningful_line, live_session_ids, next_tick,
    pause_secs, peek_targets, render_rig,
};
use oil_cop::sources::adapters::Adapters;
use oil_cop::sources::bd::{self, BeadRaw};
use oil_cop::sources::gc;
use oil_cop::sources::mocks::{MockBd, MockGc, MockGit};

/// 2020-01-01T00:10:00Z.
const NOW: UnixTime = UnixTime { secs: 1577837400, nanos: 0 };

fn thresholds() -> Thresholds {
    Thresholds { stale_after_secs: 1800 }
}

fn bead(id: &str, status: &str, assignee: Option<&str>) -> BeadRaw {
    BeadRaw {
        id: id.to_string(),
        title: format!("title for {id}"),
        status: status.to_string(),
        priority: Some(1),
        assignee: assignee.map(str::to_string),
        updated_at: Some("2020-01-01T00:00:00Z".to_string()),
        started_at: None,
        parent: None,
        dependencies: vec![],
        metadata: vec![],
    }
}

fn rig_raw(rig_path: &str) -> gc::RigRaw {
    gc::RigRaw { name: "luminate".to_string(), path: rig_path.to_string(), prefix: None, suspended: false, running: Some(true) }
}

fn rig_status_for(rig: &gc::RigRaw) -> Vec<(String, gc::RigStatusResult)> {
    vec![(
        "luminate".to_string(),
        gc::RigStatusResult {
            rig: rig.clone(),
            agents: vec![gc::RigAgentRaw {
                name: "nux".to_string(),
                qualified_name: "luminate/nux".to_string(),
                runtime_session_name: Some("session-a".to_string()),
                session_id: Some("cc-abcd".to_string()),
                running: true,
                suspended: false,
                draining: false,
                status: Some("running".to_string()),
            }],
        },
    )]
}

fn mock_gc_for_rig(rig: &gc::RigRaw, rig_status: Vec<(String, gc::RigStatusResult)>) -> MockGc {
    MockGc {
        status: None,
        rig_list: Some(gc::RigListResult { rigs: vec![rig.clone()] }),
        rig_status,
        session_list: Some(gc::SessionListResult {
            sessions: vec![gc::SessionRaw {
                id: "cc-abcd".to_string(),
                name: "luminate/nux".to_string(),
                rig: Some("luminate".to_string()),
                state: "active".to_string(),
                last_active: Some("2020-01-01T00:09:30Z".to_string()),
                attached: false,
                closed: false,
            }],
        }),
        session_peek: vec![(
            "cc-abcd".to_string(),
            gc::PeekResult { output: "\n  Running 1 shell command…\n".to_string() },
        )],
    }
}

fn adapters_for_rig(rig_path: &str) -> Adapters<MockGc, MockBd, MockGit> {
    let rig = rig_raw(rig_path);
    let status_by_dir = vec![(
        rig_path.to_string(),
        bd::StatusResult {
            summary: bd::StatusSummary {
                total_issues: 2,
                ready_issues: 0,
                in_progress_issues: 1,
                blocked_issues: 0,
                deferred_issues: 0,
                closed_issues: 1,
            },
        },
    )];
    let list_by_key = vec![(
        (rig_path.to_string(), "in_progress".to_string()),
        vec![bead("luminate-1", "in_progress", Some("session-a"))],
    )];
    Adapters {
        gc: mock_gc_for_rig(&rig, rig_status_for(&rig)),
        bd: MockBd { status: status_by_dir, list: list_by_key },
        git: MockGit::default(),
    }
}

#[test]
fn render_rig_assembles_queue_and_truthful_agents_sections() {
    colored::control::set_override(false);
    let adapters = adapters_for_rig("/fake/luminate");
    let mut activity_lines = ActivityLines::new();
    let out = render_rig(&adapters, None, "luminate", NOW, &thresholds(), 0, &mut activity_lines)
        .expect("render_rig should succeed against fully-configured mocks");
    assert!(out.contains("luminate"));
    assert!(out.contains("2 total"));
    assert!(out.contains("nux"));
    assert!(out.contains("luminate-1"));
    assert!(out.contains("title for luminate-1"));
    assert!(out.contains("Running 1 shell command"));
    assert!(!out.contains("active (flashes in watch)"));
    assert_eq!(activity_lines.get("cc-abcd").as_deref(), Some("Running 1 shell command…"));
}

#[test]
fn render_rig_surfaces_an_unknown_rig_as_an_error_not_a_panic() {
    let adapters = adapters_for_rig("/fake/luminate");
    let mut activity_lines = ActivityLines::new();
    let result = render_rig(&adapters, None, "not-a-real-rig", NOW, &thresholds(), 0, &mut activity_lines);
    assert!(result.is_err());
}

#[test]
fn render_rig_skips_the_peek_sweep_off_ticks_but_keeps_the_cached_line() {
    colored::control::set_override(false);
    let adapters = adapters_for_rig("/fake/luminate");
    let mut activity_lines = ActivityLines::new();
    activity_lines.insert("cc-abcd".to_string(), "stale line".to_string());
    let out = render_rig(&adapters, None, "luminate", NOW, &thresholds(), 1, &mut activity_lines).unwrap();
    assert!(out.contains("stale line"));
    assert_eq!(
        activity_lines.get("cc-abcd").as_deref(),
        Some("stale line"),
        "off-tick render must not overwrite the cached line"
    );
}

#[test]
fn render_rig_prunes_cached_lines_for_sessions_no_longer_on_the_rig() {
    let adapters = adapters_for_rig("/fake/luminate");
    let mut activity_lines = ActivityLines::new();
    activity_lines.insert("some-old-session-id".to_string(), "orphaned line".to_string());
    render_rig(&adapters, None, "luminate", NOW, &thresholds(), 1, &mut activity_lines).unwrap();
    assert_eq!(activity_lines.get("some-old-session-id"), None);
}

#[test]
fn render_rig_leaves_the_cache_untouched_when_peek_fails() {
    colored::control::set_override(false);
    let rig_path = "/fake/luminate";
    let mut adapters = adapters_for_rig(rig_path);
    let rig = rig_raw(rig_path);
    adapters.gc = MockGc { session_peek: vec![], ..mock_gc_for_rig(&rig, rig_status_for(&rig)) };
    let mut activity_lines = ActivityLines::new();
    let out = render_rig(&adapters, None, "luminate", NOW, &thresholds(), 0, &mut activity_lines).unwrap();
    assert_eq!(activity_lines.get("cc-abcd"), None);
    assert!(!out.contains("└"));
}

#[test]
fn render_rig_returns_the_first_fetch_error() {
    let rig_path = "/fake/luminate";
    let mut adapters = adapters_for_rig(rig_path);
    adapters.bd = MockBd::default();
    let mut activity_lines = ActivityLines::new();
    activity_lines.insert("cc-abcd".to_string(), "kept".to_string());
    let err = render_rig(&adapters, None, "luminate", NOW, &thresholds(), 0, &mut activity_lines).unwrap_err();
    assert_eq!(err, "mock: no bd status configured for '/fake/luminate'");
    assert_eq!(activity_lines.get("cc-abcd").as_deref(), Some("kept"));
}

#[test]
fn last_meaningful_line_finds_the_last_non_blank_non_separator_line() {
    let output = "─────────────\n  Ran 1 shell command\n\n   \n";
    assert_eq!(last_meaningful_line(output).as_deref(), Some("Ran 1 shell command"));
}

#[test]
fn last_meaningful_line_skips_the_prompt_and_permission_toggle_chrome() {
    let output = "\n✻ Crunched for 24s\n\n────────────────────\n❯ \n────────────────────\n  ● Run gc hook --claim --json now  ctx 0%\n  ⏵⏵ bypass permissions on (shift+tab to cycle)\n";
    assert_eq!(last_meaningful_line(output).as_deref(), Some("● Run gc hook --claim --json now  ctx 0%"));
}

#[test]
fn last_meaningful_line_is_none_for_blank_or_separator_only_output() {
    assert_eq!(last_meaningful_line(""), None);
    assert_eq!(last_meaningful_line("\n\n   \n"), None);
    assert_eq!(last_meaningful_line("────────\n────\n"), None);
}

#[test]
fn last_meaningful_line_truncates_a_long_line_with_an_ellipsis() {
    let long_line = "x".repeat(200);
    let got = last_meaningful_line(&long_line).unwrap();
    assert_eq!(got.chars().count(), 81);
    assert!(got.ends_with('…'));
}

#[test]
fn last_meaningful_line_handles_crlf_and_mixed_separators() {
    assert_eq!(last_meaningful_line("work done\r\n-=-=-\r\n").as_deref(), Some("work done"));
    assert_eq!(last_meaningful_line(&"y".repeat(80)).map(|l| l.chars().count()), Some(80));
}

fn agent(session: Option<&str>, running: bool) -> gc::RigAgentRaw {
    gc::RigAgentRaw {
        name: "a".to_string(),
        qualified_name: "r/a".to_string(),
        runtime_session_name: None,
        session_id: session.map(String::from),
        running,
        suspended: false,
        draining: false,
        status: None,
    }
}

fn sess(id: &str, state: &str) -> gc::SessionRaw {
    gc::SessionRaw {
        id: id.to_string(),
        name: id.to_string(),
        rig: None,
        state: state.to_string(),
        last_active: None,
        attached: false,
        closed: false,
    }
}

#[test]
fn peek_targets_are_running_agents_with_active_sessions() {
    let agents = vec![agent(Some("s1"), true), agent(Some("s2"), true), agent(Some("s3"), false), agent(None, true)];
    let sessions = vec![sess("s1", "active"), sess("s2", "asleep"), sess("s3", "active")];
    assert_eq!(peek_targets(&agents, &sessions), vec!["s1".to_string()]);
    assert_eq!(live_session_ids(&agents), vec!["s1".to_string(), "s2".to_string(), "s3".to_string()]);
}

#[test]
fn a_peek_answer_replaces_the_line_only_when_it_holds_one() {
    let mut cache = ActivityLines::new();
    cache.insert("s".to_string(), "old".to_string());
    apply_peek(&mut cache, "s", Err("asleep".to_string()));
    assert_eq!(cache.get("s").as_deref(), Some("old"));
    apply_peek(&mut cache, "s", Ok(gc::PeekResult { output: "────\n".to_string() }));
    assert_eq!(cache.get("s").as_deref(), Some("old"));
    apply_peek(&mut cache, "s", Ok(gc::PeekResult { output: "new work\n❯ \n".to_string() }));
    assert_eq!(cache.get("s").as_deref(), Some("new work"));
}

#[test]
fn frame_header_and_error_line_without_color() {
    colored::control::set_override(false);
    assert_eq!(
        frame_header("2026-01-01 12:00:00 UTC", 5),
        "oil-cop watch 2026-01-01 12:00:00 UTC  (every 5s, ctrl-c to exit)\n\n"
    );
    assert_eq!(error_line("status", "boom"), "error status: boom\n");
}

#[test]
fn status_section_shows_the_city_or_the_error_line() {
    colored::control::set_override(false);
    let adapters = adapters_for_rig("/fake/luminate");
    assert_eq!(
        oil_cop::render::watch::status_section(&adapters, None, 0),
        "error status: mock: no status configured\n"
    );
    let raw = gc::StatusResult {
        city_name: "c".to_string(),
        city_path: "/c".to_string(),
        controller: gc::Controller { running: true, pid: None, mode: None, status: None },
        running: true,
        suspended: false,
        health: gc::HealthBlock { usable: true, degraded: false, signals: vec![] },
        agents: vec![],
        rigs: vec![],
        summary: gc::SummaryBlock { total_agents: 0, running_agents: 0 },
        partial: false,
        partial_errors: vec![],
    };
    let out = oil_cop::render::watch::status_section_from(&adapters, Ok(raw), 0);
    assert!(out.starts_with("⠋ c  /c\n  controller: running\n  agents: 0/0 running\n"));
}

#[test]
fn rig_queue_and_rig_agents_for_a_known_and_an_unknown_rig() {
    let adapters = adapters_for_rig("/fake/luminate");
    let q = oil_cop::assemble::rig_queue(&adapters, None, "luminate", NOW, &thresholds()).unwrap();
    assert_eq!(q.rig_path, "/fake/luminate");
    assert_eq!(q.summary.total, 2);
    assert_eq!(q.in_progress.len(), 1);
    assert_eq!(q.in_progress[0].age_secs, Some(600));
    assert!(oil_cop::assemble::rig_queue(&adapters, None, "not-a-real-rig", NOW, &thresholds()).is_err());
    let (name, views, suspended) =
        oil_cop::assemble::rig_agents(&adapters, None, "luminate", NOW, &thresholds()).unwrap();
    assert_eq!(name, "luminate");
    assert!(!suspended);
    assert_eq!(views.len(), 1);
    assert_eq!(views[0].current_bead.as_ref().unwrap().id, "luminate-1");
    assert_eq!(views[0].last_active_secs, Some(30));
    assert_eq!(views[0].activity_line, None);
    assert!(oil_cop::assemble::rig_agents(&adapters, None, "not-a-real-rig", NOW, &thresholds()).is_err());
}

#[test]
fn a_zero_interval_still_pauses_one_second() {
    assert_eq!(pause_secs(0), 1);
    assert_eq!(pause_secs(1), 1);
    assert_eq!(pause_secs(5), 5);
}

#[test]
fn the_tick_count_wraps_after_the_largest() {
    assert_eq!(next_tick(0), 1);
    assert_eq!(next_tick(41), 42);
    assert_eq!(next_tick(u64::MAX), 0);
}
