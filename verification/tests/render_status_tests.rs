use oil_cop::model::{CityView, Health, QueueSummary, RigView};
use oil_cop::render::status::render;

fn base_view() -> CityView {
    CityView {
        city_name: "testcity".to_string(),
        city_path: "/fake/testcity".to_string(),
        city_running: true,
        controller_running: true,
        controller_pid: Some(42),
        controller_mode: Some("supervisor".to_string()),
        controller_status: None,
        suspended: false,
        usable: true,
        degraded: false,
        signals: vec![],
        partial: false,
        partial_errors: vec![],
        rigs: vec![],
        total_agents: 3,
        running_agents: 2,
        health: Health::Healthy,
    }
}

fn render_to_string(view: &CityView, tick: Option<u64>) -> String {
    colored::control::set_override(false);
    render(view, tick)
}

#[test]
fn renders_city_name_path_and_controller_detail() {
    let out = render_to_string(&base_view(), None);
    assert!(out.contains("testcity"));
    assert!(out.contains("/fake/testcity"));
    assert!(out.contains("pid 42"));
    assert!(out.contains("mode supervisor"));
    assert!(out.contains("agents: 2/3 running"));
}

#[test]
fn shows_suspended_tag_when_city_is_suspended() {
    let mut view = base_view();
    view.suspended = true;
    let out = render_to_string(&view, None);
    assert!(out.contains("(suspended)"));
}

#[test]
fn flags_city_running_false_despite_controller_up_as_a_mismatch() {
    let mut view = base_view();
    view.city_running = false;
    let out = render_to_string(&view, None);
    assert!(out.contains("city reports not running despite controller being up"));
}

#[test]
fn shows_partial_status_and_its_errors() {
    let mut view = base_view();
    view.partial = true;
    view.partial_errors = vec!["probe timed out".to_string()];
    let out = render_to_string(&view, None);
    assert!(out.contains("partial status"));
    assert!(out.contains("probe timed out"));
}

#[test]
fn shows_degraded_signals() {
    let mut view = base_view();
    view.degraded = true;
    view.signals = vec!["dolt is unhappy".to_string()];
    let out = render_to_string(&view, None);
    assert!(out.contains("dolt is unhappy"));
}

#[test]
fn rig_table_shows_bead_counts_when_present_and_dashes_when_absent() {
    let mut view = base_view();
    view.rigs = vec![
        RigView {
            name: "active-rig".to_string(),
            path: "/fake/active-rig".to_string(),
            prefix: None,
            running: true,
            suspended: false,
            health: Health::Healthy,
            bead_summary: Some(QueueSummary { total: 10, ready: 3, in_progress: 2, blocked: 1, deferred: 0, closed: 4 }),
        },
        RigView {
            name: "sleepy-rig".to_string(),
            path: "/fake/sleepy-rig".to_string(),
            prefix: None,
            running: false,
            suspended: true,
            health: Health::Suspended,
            bead_summary: None,
        },
        RigView {
            name: "inactive-rig".to_string(),
            path: "/fake/inactive-rig".to_string(),
            prefix: None,
            running: false,
            suspended: false,
            health: Health::Dead,
            bead_summary: None,
        },
    ];
    let out = render_to_string(&view, Some(0));
    assert!(out.contains("active-rig"));
    assert!(out.contains("3"));
    assert!(out.contains("sleepy-rig"));
    assert!(out.contains("suspended"));
    assert!(out.contains("inactive-rig"));
    assert!(out.contains("-"));
}

#[test]
fn status_view_exact_layout_without_color() {
    let mut view = base_view();
    view.controller_running = false;
    view.controller_status = Some("degraded".to_string());
    view.rigs = vec![RigView {
        name: "lum".to_string(),
        path: "/p".to_string(),
        prefix: None,
        running: true,
        suspended: false,
        health: Health::Healthy,
        bead_summary: Some(QueueSummary { total: 1, ready: 2, in_progress: 3, blocked: 4, deferred: 0, closed: 0 }),
    }];
    let out = render_to_string(&view, Some(1));
    let expected = format!(
        "⠙ testcity  /fake/testcity\n  controller: down (pid 42, mode supervisor, degraded)\n  agents: 2/3 running\n\n     RIG                STATE     READY  WIP  BLOCKED HEALTH\n  ⠙ {:<18} {:<9} {:<6} {:<4} {:<6} healthy\n",
        "lum", "active", "2", "3", "4"
    );
    assert_eq!(out, expected);
}
