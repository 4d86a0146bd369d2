use komodo_core::procedure::{
    begin_procedure_update, finish_procedure_update, procedure_outcome, stage_success,
    StageOutcome,
};
use komodo_core::update::{Log, Operation, ResourceKind, Update, UpdateStatus};

fn fresh_update(now: i64) -> Update {
    Update::new(
        ResourceKind::Stack,
        "stack-1".to_string(),
        Operation::DeployStack,
        "user-1".to_string(),
        now,
    )
}

#[test]
fn finalized_update_times_are_ordered() {
    let mut u = fresh_update(100);
    u.in_progress();
    u.push_simple_log("step one", "did one".to_string(), 150);
    u.push_simple_log("step two", "did two".to_string(), 180);
    u.finalize(200);
    assert_eq!(u.status, UpdateStatus::Complete);
    assert!(u.end_ts >= u.start_ts);
    for log in &u.logs {
        assert!(log.end_ts <= u.end_ts);
    }
}

#[test]
fn success_means_every_log_succeeded() {
    let mut u = fresh_update(100);
    u.push_simple_log("fine", "all good".to_string(), 110);
    u.finalize(120);
    assert!(u.success);

    let mut bad = fresh_update(100);
    bad.push_simple_log("fine", "all good".to_string(), 110);
    bad.push_error_log("broke", "it failed".to_string(), 115);
    bad.finalize(120);
    assert!(!bad.success);
}

#[test]
fn log_append_order_is_record_order() {
    let mut u = fresh_update(0);
    u.push_simple_log("a", String::new(), 1);
    u.push_simple_log("b", String::new(), 2);
    u.push_simple_log("c", String::new(), 3);
    let stages: Vec<&str> = u.logs.iter().map(|l| l.stage.as_str()).collect();
    assert_eq!(stages, vec!["a", "b", "c"]);
}

#[test]
fn janitor_finalises_stale_update_as_failed() {
    let mut u = fresh_update(100);
    u.in_progress();
    u.finalize_stale(500);
    assert_eq!(u.status, UpdateStatus::Complete);
    assert!(!u.success);
    assert_eq!(u.logs.last().unwrap().stdout, "core restart while in-progress");
}

#[test]
fn simple_and_error_logs_carry_their_text() {
    let ok = Log::simple("stage", "out".to_string(), 5);
    assert!(ok.success);
    assert_eq!(ok.stdout, "out");
    assert_eq!(ok.start_ts, 5);
    assert_eq!(ok.end_ts, 5);
    let bad = Log::error("stage", "oops".to_string(), 6);
    assert!(!bad.success);
    assert_eq!(bad.stderr, "oops");
}

#[test]
fn procedure_update_opens_and_closes_with_its_lines() {
    let mut u = begin_procedure_update(
        "proc-1".to_string(),
        "nightly",
        "user-1".to_string(),
        50,
    );
    assert_eq!(u.status, UpdateStatus::InProgress);
    assert_eq!(u.logs[0].stdout, "Executing procedure: nightly");
    finish_procedure_update(&mut u, None, 90);
    assert_eq!(u.status, UpdateStatus::Complete);
    assert!(u.success);
    assert_eq!(u.logs.last().unwrap().stdout, "the procedure has completed with no errors");
}

#[test]
fn failed_procedure_closes_with_the_error() {
    let mut u = begin_procedure_update("proc-1".to_string(), "nightly", "u".to_string(), 50);
    finish_procedure_update(&mut u, Some("stage two failed".to_string()), 90);
    assert!(!u.success);
    let last = u.logs.last().unwrap();
    assert_eq!(last.stage, "execution error");
    assert_eq!(last.stderr, "stage two failed");
}

#[test]
fn stage_succeeds_only_when_all_children_do() {
    assert!(stage_success(&vec![true, true, true]));
    assert!(!stage_success(&vec![true, false, true]));
    assert!(stage_success(&vec![]));
}

#[test]
fn procedure_stops_at_first_fatal_stage() {
    let stages = vec![
        StageOutcome { success: true, continue_on_error: false },
        StageOutcome { success: false, continue_on_error: false },
        StageOutcome { success: true, continue_on_error: false },
    ];
    let (executed, ok) = procedure_outcome(&stages);
    assert_eq!(executed, 2);
    assert!(!ok);
}

#[test]
fn continue_on_error_lets_the_run_finish() {
    let stages = vec![
        StageOutcome { success: false, continue_on_error: true },
        StageOutcome { success: true, continue_on_error: false },
    ];
    let (executed, ok) = procedure_outcome(&stages);
    assert_eq!(executed, 2);
    assert!(!ok);
}

#[test]
fn clean_run_executes_everything_successfully() {
    let stages = vec![
        StageOutcome { success: true, continue_on_error: false },
        StageOutcome { success: true, continue_on_error: false },
    ];
    let (executed, ok) = procedure_outcome(&stages);
    assert_eq!(executed, 2);
    assert!(ok);
}
