use oil_cop::assemble::{dag_status_filter, summary_of_status};
use oil_cop::model::QueueSummary;
use oil_cop::sources::bd::{StatusResult, StatusSummary};

#[test]
fn a_bead_status_answer_gives_its_counts() {
    let answer: Result<StatusResult, String> = Ok(StatusResult {
        summary: StatusSummary {
            total_issues: 9,
            ready_issues: 4,
            in_progress_issues: 2,
            blocked_issues: 1,
            deferred_issues: 0,
            closed_issues: 2,
        },
    });
    assert_eq!(
        summary_of_status(&answer),
        Some(QueueSummary { total: 9, ready: 4, in_progress: 2, blocked: 1, deferred: 0, closed: 2 })
    );
}

#[test]
fn a_failed_bead_status_gives_no_counts() {
    let answer: Result<StatusResult, String> = Err("bd: not a beads directory".to_string());
    assert_eq!(summary_of_status(&answer), None);
}

#[test]
fn the_dag_lists_closed_beads_only_when_asked() {
    assert_eq!(dag_status_filter(false), "open,in_progress,blocked,deferred");
    assert_eq!(dag_status_filter(true), "open,in_progress,blocked,deferred,closed");
}
