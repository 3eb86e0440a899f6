use oil_cop::model::{
    BeadStage, CheckIssue, CheckReport, DagNode, DagView, HandoffGap, HandoffGapReport, Health,
    RigHandoffGaps, SessionsReport, ZombieSession,
};
use oil_cop::render::{check, dag, handoff, sessions};

fn no_color() {
    colored::control::set_override(false);
}

// -- sessions ------------------------------------------------------------

#[test]
fn renders_all_clear_when_no_zombies() {
    no_color();
    let out = sessions::render(&SessionsReport { total_sessions: 3, zombies: vec![] });
    assert!(out.contains("all clear"));
    assert!(out.contains("3 total"));
}

#[test]
fn renders_a_zombie_with_its_suggested_fix_commands() {
    no_color();
    let out = sessions::render(&SessionsReport {
        total_sessions: 2,
        zombies: vec![ZombieSession {
            id: "cc-abcd".to_string(),
            name: "luminate/gastown.nux".to_string(),
            rig: Some("luminate".to_string()),
            last_active_secs: Some(9000),
            suggested_commands: vec!["gc session kill cc-abcd".to_string(), "gc session close cc-abcd".to_string()],
        }],
    });
    assert!(out.contains("cc-abcd"));
    assert!(out.contains("luminate/gastown.nux"));
    assert!(out.contains("rig:luminate"));
    assert!(out.contains("2h30m ago"));
    assert!(out.contains("gc session kill cc-abcd"));
    assert!(out.contains("gc session close cc-abcd"));
    assert!(out.contains("1 zombie session(s) found out of 2 total"));
}

#[test]
fn renders_a_dash_for_zombie_with_no_known_rig() {
    no_color();
    let out = sessions::render(&SessionsReport {
        total_sessions: 1,
        zombies: vec![ZombieSession {
            id: "do-1".to_string(),
            name: "some-session".to_string(),
            rig: None,
            last_active_secs: None,
            suggested_commands: vec!["gc session kill do-1".to_string()],
        }],
    });
    assert!(out.contains("rig:-"));
    assert!(out.contains("—"));
}

#[test]
fn sessions_report_exact_layout_without_color() {
    no_color();
    let out = sessions::render(&SessionsReport {
        total_sessions: 4,
        zombies: vec![ZombieSession {
            id: "x".to_string(),
            name: "n".to_string(),
            rig: None,
            last_active_secs: Some(45),
            suggested_commands: vec!["gc session kill x".to_string()],
        }],
    });
    assert_eq!(out, "✕ x n rig:- last seen 45s ago\n    -> gc session kill x\n\n1 zombie session(s) found out of 4 total\n");
}

// -- handoff ---------------------------------------------------------------

fn rig_gaps(name: &str, base: Option<&str>, gaps: Vec<HandoffGap>, error: Option<&str>) -> RigHandoffGaps {
    RigHandoffGaps {
        rig_name: name.to_string(),
        rig_path: format!("/repo/{name}"),
        base_branch: base.map(String::from),
        gaps,
        error: error.map(String::from),
    }
}

#[test]
fn renders_no_rigs_placeholder() {
    no_color();
    let out = handoff::render(&HandoffGapReport { rigs: vec![], ok: true });
    assert!(out.contains("(no rigs to check)"));
}

#[test]
fn renders_all_clear_when_no_rig_has_gaps() {
    no_color();
    let report = HandoffGapReport { rigs: vec![rig_gaps("luminate", Some("master"), vec![], None)], ok: true };
    let out = handoff::render(&report);
    assert!(out.contains("luminate"));
    assert!(out.contains("(base: master)"));
    assert!(out.contains("no handoff gaps"));
    assert!(out.contains("all clear"));
}

#[test]
fn renders_a_gap_with_bead_status_and_assignee() {
    no_color();
    let report = HandoffGapReport {
        rigs: vec![rig_gaps(
            "luminate",
            Some("master"),
            vec![HandoffGap {
                bead_id: "luminate-bgb.2".to_string(),
                branch: "polecat/luminate-bgb.2".to_string(),
                bead_status: Some("open".to_string()),
                bead_assignee: None,
            }],
            None,
        )],
        ok: false,
    };
    let out = handoff::render(&report);
    assert!(out.contains("luminate-bgb.2"));
    assert!(out.contains("open"));
    assert!(out.contains("(unassigned)"));
    assert!(out.contains("polecat/luminate-bgb.2"));
    assert!(out.contains("1 handoff gap(s) found"));
}

#[test]
fn renders_missing_bd_record_placeholder() {
    no_color();
    let report = HandoffGapReport {
        rigs: vec![rig_gaps(
            "luminate",
            Some("master"),
            vec![HandoffGap {
                bead_id: "luminate-ghost".to_string(),
                branch: "polecat/luminate-ghost".to_string(),
                bead_status: None,
                bead_assignee: None,
            }],
            None,
        )],
        ok: false,
    };
    let out = handoff::render(&report);
    assert!(out.contains("(no bd record)"));
}

#[test]
fn renders_skip_reason_when_base_branch_is_unknown() {
    no_color();
    let report = HandoffGapReport { rigs: vec![rig_gaps("luminate", None, vec![], None)], ok: true };
    let out = handoff::render(&report);
    assert!(out.contains("couldn't determine origin's default branch"));
    assert!(out.contains("all clear"));
}

#[test]
fn renders_a_per_rig_fetch_error() {
    no_color();
    let report = HandoffGapReport {
        rigs: vec![rig_gaps("broken", None, vec![], Some("mock: no bd list configured"))],
        ok: true,
    };
    let out = handoff::render(&report);
    assert!(out.contains("skipped:"));
    assert!(out.contains("mock: no bd list configured"));
}

#[test]
fn handoff_report_exact_layout_without_color() {
    no_color();
    let report = HandoffGapReport {
        rigs: vec![
            rig_gaps(
                "lum",
                Some("main"),
                vec![HandoffGap {
                    bead_id: "lum-1".to_string(),
                    branch: "polecat/lum-1".to_string(),
                    bead_status: Some("open".to_string()),
                    bead_assignee: Some("nux".to_string()),
                }],
                None,
            ),
            rig_gaps("other", None, vec![], Some("boom")),
        ],
        ok: false,
    };
    let out = handoff::render(&report);
    let expected = format!(
        "lum (base: main)\n  BEAD               STATUS       ASSIGNEE                     BRANCH\n  ✕ {:<18} {:<12} {:<28} polecat/lum-1\n\nother  skipped: boom\n\n1 handoff gap(s) found -- real pushed work with no matching bd assignment\n",
        "lum-1", "open", "nux"
    );
    assert_eq!(out, expected);
}

// -- check -----------------------------------------------------------------

#[test]
fn check_report_all_clear_and_issues() {
    no_color();
    assert_eq!(check::render(&CheckReport { ok: true, issues: vec![] }), "● all clear -- nothing stale or dead\n");
    let out = check::render(&CheckReport {
        ok: false,
        issues: vec![
            CheckIssue { scope: "city".to_string(), health: Health::Dead, message: "degraded: x".to_string() },
            CheckIssue { scope: "bead:b-1".to_string(), health: Health::Stale, message: "in_progress but stale: t".to_string() },
        ],
    });
    assert_eq!(out, "✕ city degraded: x\n▲ bead:b-1 in_progress but stale: t\n\n2 issue(s) found\n");
}

// -- dag -------------------------------------------------------------------

fn node(id: &str, parent: Option<&str>, stage: BeadStage) -> DagNode {
    DagNode {
        id: id.to_string(),
        title: format!("t-{id}"),
        status: "open".to_string(),
        priority: Some(2),
        assignee: None,
        parent: parent.map(String::from),
        blocked_by: vec![],
        age_secs: None,
        stage,
        landed_unmerged: false,
    }
}

#[test]
fn dag_view_draws_a_tree_with_annotations() {
    no_color();
    let mut child2 = node("c2", Some("root"), BeadStage::Pending);
    child2.blocked_by = vec!["x".to_string(), "y".to_string()];
    child2.priority = None;
    let mut grandchild = node("g1", Some("c1"), BeadStage::Active);
    grandchild.landed_unmerged = true;
    let view = DagView {
        rig_name: "lum".to_string(),
        rig_path: "/p".to_string(),
        nodes: vec![
            node("root", None, BeadStage::Active),
            node("c1", Some("root"), BeadStage::Merged),
            child2,
            grandchild,
            node("orphan", Some("missing"), BeadStage::Pending),
        ],
    };
    let out = dag::render(&view, None);
    let expected = "lum /p\n\n\
◐ root P2  t-root\n\
│   ├── ✓ c1 P2  t-c1\n\
│   │   └── ◐ g1 P2  t-g1 [landed, not closed]\n\
│   └── ○ c2 --  t-c2 (blocked by x, y)\n\
○ orphan P2  t-orphan\n\
\n  legend:  ○ pending  ◐ active (flashes in watch)  ✓ merged\n";
    assert_eq!(out, expected);
}

#[test]
fn dag_view_with_no_beads() {
    no_color();
    let view = DagView { rig_name: "lum".to_string(), rig_path: "/p".to_string(), nodes: vec![] };
    assert_eq!(dag::render(&view, None), "lum /p\n\n  (no beads)\n");
}
