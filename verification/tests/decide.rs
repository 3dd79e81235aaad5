use fetch_rs::git::Timestamp;
use fetch_rs::rebuild::{
    after_dates, after_workflow, command_outcome, rebuild_outcome, should_rebuild,
    workflow_status, Outcome, Step, WorkflowStatus,
};
use fetch_rs::util::ExitCode;

fn t(secs: i64) -> Timestamp {
    Timestamp { secs, nanos: 0 }
}

#[test]
fn conclusions_are_read_after_trimming() {
    assert_eq!(workflow_status("success"), WorkflowStatus::Success);
    assert_eq!(workflow_status(" success\n"), WorkflowStatus::Success);
    assert_eq!(workflow_status("failure"), WorkflowStatus::Failure);
    assert_eq!(workflow_status("cancelled"), WorkflowStatus::Unknown);
    assert_eq!(workflow_status("Success"), WorkflowStatus::Unknown);
    assert_eq!(workflow_status(""), WorkflowStatus::Unknown);
}

#[test]
fn on_followed_branch_only_strictly_newer_rebuilds() {
    assert!(should_rebuild("main", "main", t(11), t(10)));
    assert!(!should_rebuild("main", "main", t(10), t(10)));
    assert!(!should_rebuild("main", "main", t(9), t(10)));
}

#[test]
fn on_other_branch_as_new_rebuilds() {
    assert!(should_rebuild("feature", "main", t(11), t(10)));
    assert!(should_rebuild("feature", "main", t(10), t(10)));
    assert!(!should_rebuild("feature", "main", t(9), t(10)));
}

#[test]
fn nanoseconds_count_in_the_comparison() {
    let a = Timestamp { secs: 10, nanos: 1 };
    let b = Timestamp { secs: 10, nanos: 2 };
    assert!(should_rebuild("main", "main", b, a));
    assert!(!should_rebuild("main", "main", a, b));
}

#[test]
fn successful_run_goes_on_to_compare() {
    assert_eq!(after_workflow(WorkflowStatus::Success), Step::CompareDates);
}

#[test]
fn failed_or_unknown_run_stops_with_noop() {
    assert_eq!(after_workflow(WorkflowStatus::Failure), Step::Stop(ExitCode::NoOp));
    assert_eq!(after_workflow(WorkflowStatus::Unknown), Step::Stop(ExitCode::NoOp));
}

#[test]
fn dates_decide_between_proceeding_and_stopping() {
    assert_eq!(after_dates(true), Step::Proceed);
    assert_eq!(after_dates(false), Step::Stop(ExitCode::NoOp));
}

#[test]
fn whole_run_exits_zero_only_to_rebuild() {
    let step = match after_workflow(workflow_status("success")) {
        Step::CompareDates => after_dates(should_rebuild("main", "main", t(5), t(5))),
        other => other,
    };
    assert_eq!(step, Step::Stop(ExitCode::NoOp));
    assert!(ExitCode::NoOp.code() > 0);
}

#[test]
fn git_step_outcomes() {
    assert_eq!(command_outcome(true, true), Outcome { notify: false, exit: None });
    assert_eq!(
        command_outcome(false, true),
        Outcome { notify: true, exit: Some(ExitCode::Failure) }
    );
    assert_eq!(
        command_outcome(false, false),
        Outcome { notify: false, exit: Some(ExitCode::Failure) }
    );
}

#[test]
fn rebuild_outcomes() {
    assert_eq!(rebuild_outcome(Some(0), true), Outcome { notify: false, exit: None });
    assert_eq!(
        rebuild_outcome(Some(256), true),
        Outcome { notify: true, exit: Some(ExitCode::Failure) }
    );
    assert_eq!(
        rebuild_outcome(Some(1), false),
        Outcome { notify: false, exit: Some(ExitCode::Failure) }
    );
    assert_eq!(rebuild_outcome(None, true), Outcome { notify: true, exit: None });
    assert_eq!(rebuild_outcome(None, false), Outcome { notify: false, exit: None });
}
