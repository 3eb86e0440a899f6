use oil_cop::model::{BeadRef, Health, QueueSummary, QueueView};
use oil_cop::render::queue::{render, stale_first};

fn render_to_string(view: &QueueView, limit: usize) -> String {
    colored::control::set_override(false);
    render(view, None, limit)
}

fn bead(id: &str, title: &str, health: Health, age_secs: Option<i64>) -> BeadRef {
    BeadRef {
        id: id.to_string(),
        title: title.to_string(),
        status: "in_progress".to_string(),
        priority: Some(1),
        assignee: None,
        started_at: None,
        updated_at: None,
        age_secs,
        health,
    }
}

fn empty_summary() -> QueueSummary {
    QueueSummary { total: 0, ready: 0, in_progress: 0, blocked: 0, deferred: 0, closed: 0 }
}

fn view_with(running: Option<bool>, summary: QueueSummary, beads: Vec<BeadRef>, health: Health) -> QueueView {
    QueueView {
        rig_name: "luminate".to_string(),
        rig_path: "/repo/luminate".to_string(),
        rig_running: running,
        summary,
        in_progress: beads,
        health,
    }
}

#[test]
fn renders_rig_header_and_running_tag() {
    let view = view_with(Some(true), empty_summary(), vec![], Health::Idle);
    let out = render_to_string(&view, 15);
    assert!(out.contains("luminate"));
    assert!(out.contains("(running)"));
    assert!(out.contains("/repo/luminate"));
}

#[test]
fn not_running_tag_when_rig_running_is_false() {
    let view = view_with(Some(false), empty_summary(), vec![], Health::Idle);
    let out = render_to_string(&view, 15);
    assert!(out.contains("(not running)"));
}

#[test]
fn no_running_tag_when_rig_running_is_unknown() {
    let view = view_with(None, empty_summary(), vec![], Health::Idle);
    let out = render_to_string(&view, 15);
    assert!(!out.contains("(running)"));
    assert!(!out.contains("(not running)"));
}

#[test]
fn empty_in_progress_shows_nothing_in_progress() {
    let summary = QueueSummary { total: 5, ready: 5, in_progress: 0, blocked: 0, deferred: 0, closed: 0 };
    let view = view_with(Some(true), summary, vec![], Health::Idle);
    let out = render_to_string(&view, 15);
    assert!(out.contains("5 total"));
    assert!(out.contains("(nothing in progress)"));
}

#[test]
fn stale_beads_sort_before_healthy_ones() {
    let summary = QueueSummary { total: 2, ready: 0, in_progress: 2, blocked: 0, deferred: 0, closed: 0 };
    let view = view_with(
        Some(true),
        summary,
        vec![
            bead("b-healthy", "healthy one", Health::Healthy, Some(10)),
            bead("b-stale", "stale one", Health::Stale, Some(9999)),
        ],
        Health::Stale,
    );
    let out = render_to_string(&view, 15);
    let stale_pos = out.find("b-stale").unwrap();
    let healthy_pos = out.find("b-healthy").unwrap();
    assert!(stale_pos < healthy_pos);
}

#[test]
fn limit_truncates_and_reports_how_many_more() {
    let beads: Vec<BeadRef> = (0..5).map(|i| bead(&format!("b-{i}"), "a bead", Health::Healthy, Some(i))).collect();
    let summary = QueueSummary { total: 5, ready: 0, in_progress: 5, blocked: 0, deferred: 0, closed: 0 };
    let view = view_with(Some(true), summary, beads, Health::Healthy);
    let out = render_to_string(&view, 2);
    assert!(out.contains("... 3 more in progress not shown (--limit 2)"));
}

#[test]
fn long_titles_are_truncated() {
    let summary = QueueSummary { total: 1, ready: 0, in_progress: 1, blocked: 0, deferred: 0, closed: 0 };
    let view = view_with(Some(true), summary, vec![bead("b-1", &"x".repeat(80), Health::Healthy, Some(1))], Health::Healthy);
    let out = render_to_string(&view, 15);
    assert!(out.contains(&format!("{}...", "x".repeat(57))));
    assert!(!out.contains(&"x".repeat(58)));
}

#[test]
fn unassigned_bead_shows_placeholder() {
    let summary = QueueSummary { total: 1, ready: 0, in_progress: 1, blocked: 0, deferred: 0, closed: 0 };
    let view = view_with(Some(true), summary, vec![bead("b-1", "a bead", Health::Healthy, Some(1))], Health::Healthy);
    let out = render_to_string(&view, 15);
    assert!(out.contains("(unassigned)"));
}

#[test]
fn listing_order_is_stale_then_unknown_then_the_rest_oldest_first_and_stable() {
    let beads = vec![
        bead("h-young", "", Health::Healthy, Some(5)),
        bead("u-1", "", Health::Unknown, None),
        bead("s-young", "", Health::Stale, Some(4000)),
        bead("h-old", "", Health::Healthy, Some(500)),
        bead("s-old", "", Health::Stale, Some(9000)),
        bead("u-2", "", Health::Unknown, Some(1)),
        bead("h-tie", "", Health::Healthy, Some(5)),
    ];
    let order = stale_first(&beads);
    let ids: Vec<&str> = order.iter().map(|&k| beads[k].id.as_str()).collect();
    assert_eq!(ids, vec!["s-old", "s-young", "u-1", "u-2", "h-old", "h-young", "h-tie"]);
}

#[test]
fn queue_view_exact_layout_without_color() {
    let summary = QueueSummary { total: 3, ready: 1, in_progress: 1, blocked: 1, deferred: 0, closed: 0 };
    let mut b = bead("lum-1", "fix it", Health::Healthy, Some(90));
    b.assignee = Some("nux".to_string());
    let view = view_with(None, summary, vec![b], Health::Healthy);
    let out = render_to_string(&view, 15);
    let expected = format!(
        "● luminate  /repo/luminate\n\n  3 total  1 ready  1 in_progress  1 blocked  0 deferred  0 closed\n\n  P   ID             AGE       ASSIGNEE                 TITLE\n  ● {:<3} {:<14} {:<9} {:<24} fix it\n",
        "P1", "lum-1", "1m ago", "nux"
    );
    assert_eq!(out, expected);
}
