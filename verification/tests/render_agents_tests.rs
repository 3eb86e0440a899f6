use oil_cop::model::{AgentView, BeadRef, Health};
use oil_cop::render::agents::render;

fn render_to_string(rig_name: &str, agents: &[AgentView], suspended: bool) -> String {
    colored::control::set_override(false);
    render(rig_name, agents, suspended, None)
}

fn agent(name: &str, health: Health, running: bool, current_bead: Option<BeadRef>) -> AgentView {
    AgentView {
        name: name.to_string(),
        qualified_name: name.to_string(),
        scope: "rig".to_string(),
        running,
        suspended: false,
        draining: false,
        raw_status: if running { Some("running".to_string()) } else { None },
        session_id: None,
        runtime_session_name: None,
        current_bead,
        last_active_secs: None,
        activity_line: None,
        health,
    }
}

#[test]
fn renders_header_and_rig_name() {
    let out = render_to_string("luminate", &[], false);
    assert!(out.contains("luminate agents"));
    assert!(out.contains("AGENT"));
    assert!(out.contains("STATE"));
    assert!(out.contains("WORKING ON"));
}

#[test]
fn renders_suspended_tag_when_rig_is_suspended() {
    let out = render_to_string("luminate", &[], true);
    assert!(out.contains("(suspended)"));
}

#[test]
fn omits_suspended_tag_when_not_suspended() {
    let out = render_to_string("luminate", &[], false);
    assert!(!out.contains("(suspended)"));
}

#[test]
fn renders_a_healthy_running_agent_with_its_bead() {
    let bead = BeadRef {
        id: "luminate-1".to_string(),
        title: "fix the thing".to_string(),
        status: "in_progress".to_string(),
        priority: Some(1),
        assignee: None,
        started_at: None,
        updated_at: None,
        age_secs: Some(30),
        health: Health::Healthy,
    };
    let agents = [agent("nux", Health::Healthy, true, Some(bead))];
    let out = render_to_string("luminate", &agents, false);
    assert!(out.contains("nux"));
    assert!(out.contains("luminate-1"));
    assert!(out.contains("fix the thing"));
    assert!(out.contains("30s ago"));
}

#[test]
fn renders_a_dead_agent_with_no_current_bead_as_a_dash() {
    let agents = [agent("nux", Health::Dead, false, None)];
    let out = render_to_string("luminate", &agents, false);
    assert!(out.contains("nux"));
    assert!(out.contains(" - "));
    assert!(out.contains("—"));
}

#[test]
fn draining_agent_shows_draining_state_regardless_of_running() {
    let mut a = agent("nux", Health::Idle, true, None);
    a.draining = true;
    let out = render_to_string("luminate", &[a], false);
    assert!(out.contains("draining"));
}

#[test]
fn suspended_agent_shows_suspended_state() {
    let mut a = agent("nux", Health::Suspended, true, None);
    a.suspended = true;
    let out = render_to_string("luminate", &[a], false);
    assert!(out.contains("suspended"));
}

#[test]
fn long_titles_are_truncated_with_an_ellipsis() {
    let bead = BeadRef {
        id: "luminate-1".to_string(),
        title: "a".repeat(80),
        status: "in_progress".to_string(),
        priority: None,
        assignee: None,
        started_at: None,
        updated_at: None,
        age_secs: Some(5),
        health: Health::Healthy,
    };
    let agents = [agent("nux", Health::Healthy, true, Some(bead))];
    let out = render_to_string("luminate", &agents, false);
    assert!(out.contains(&format!("{}...", "a".repeat(47))));
    assert!(!out.contains(&"a".repeat(48)));
}

#[test]
fn legend_lists_all_five_non_terminal_health_labels() {
    let out = render_to_string("luminate", &[], false);
    assert!(out.contains("legend:"));
    assert!(out.contains("healthy"));
    assert!(out.contains("idle"));
    assert!(out.contains("stale"));
    assert!(out.contains("dead"));
    assert!(out.contains("suspended"));
}

#[test]
fn agents_view_exact_layout_without_color() {
    let mut a = agent("nux", Health::Dead, false, None);
    a.activity_line = Some("Ran 1 shell command".to_string());
    let out = render_to_string("lum", &[a], false);
    let expected = format!(
        "lum agents\n{}\n  ✕ {:<28} {:<11} {:<14} {:<9} \n      └ Ran 1 shell command\n\n  legend:  ● healthy  ◇ idle  ▲ stale  ✕ dead  ‖ suspended\n",
        "            AGENT                        STATE       BEAD           AGE       WORKING ON",
        "nux",
        "stopped",
        "-",
        "—"
    );
    assert_eq!(out, expected);
}
