use m87_client::deploy::{
    check_all_units_failing, check_rollback_on_observe_failure, is_past_stabilization_period,
    mark_reported, merge_log_tails, record_observe_failure, record_observe_success,
    retry_after_failure, retry_attempts, LocalRunState, ObserveKind, OnFailure, RetrySpec,
    RollbackCheck, RollbackPolicy, RollbackTrigger, StepsRun, UndoMode,
};
use m87_client::events::{event_file_name, event_temp_name, is_event_file, new_event_file_name, oldest_event};
use m87_client::units::{
    finish_unit_run, get_workspace_path, mark_dirty, reconcile_action, reconcile_failure_report,
    removes_workspace, revision_unchanged, rollback_outcome, step_report, step_result,
    CommandFailure, Outcome, ReconcileAction, RunType, UnitRef, WorkdirMode, WorkdirSpec,
};

fn unit(id: &str, hash: &str) -> UnitRef {
    UnitRef {
        id: id.to_string(),
        hash: hash.to_string(),
    }
}

#[test]
fn observe_success_resets_failures_and_reports_first_time() {
    let mut st = LocalRunState::new();
    st.consecutive_alive_failures = 4;
    let d = record_observe_success(&mut st, ObserveKind::Liveness);
    assert!(d.needs_send);
    assert!(!d.is_failure);
    assert_eq!(st.consecutive_alive_failures, 0);
    assert!(st.last_alive);
    mark_reported(&mut st);
    let d = record_observe_success(&mut st, ObserveKind::Liveness);
    assert!(!d.needs_send);
}

#[test]
fn health_success_marks_alive_too() {
    let mut st = LocalRunState::new();
    let d = record_observe_success(&mut st, ObserveKind::Health);
    assert!(d.needs_send);
    assert!(st.last_health && st.last_alive);
}

#[test]
fn failures_count_every_fails_after() {
    let mut st = LocalRunState::new();
    st.reported_once = true;
    st.last_alive = true;
    let d1 = record_observe_failure(&mut st, ObserveKind::Liveness, Some(3));
    assert!(!d1.is_failure);
    assert_eq!(d1.consecutive, 0);
    let _ = record_observe_failure(&mut st, ObserveKind::Liveness, Some(3));
    let d3 = record_observe_failure(&mut st, ObserveKind::Liveness, Some(3));
    assert!(d3.is_failure);
    assert_eq!(d3.consecutive, 1);
    assert_eq!(st.consecutive_alive_failures, 3);
    assert!(!st.last_alive);
}

#[test]
fn default_fails_after_is_one() {
    let mut st = LocalRunState::new();
    let d = record_observe_failure(&mut st, ObserveKind::Health, None);
    assert!(d.is_failure);
    assert!(d.needs_send);
    assert_eq!(d.consecutive, 1);
    assert_eq!(ObserveKind::Health.default_timeout(), 5);
}

#[test]
fn runstate_events_by_kind() {
    let e = ObserveKind::Liveness.build_runstate_event("u", "r", true, Some("x".into()), 7);
    assert_eq!((e.healthy, e.alive), (None, Some(true)));
    assert_eq!(e.log_tail, None);
    let e = ObserveKind::Liveness.build_runstate_event("u", "r", false, Some("x".into()), 7);
    assert_eq!((e.healthy, e.alive), (Some(false), Some(false)));
    assert_eq!(e.log_tail, Some("x".to_string()));
    let e = ObserveKind::Health.build_runstate_event("u", "r", false, None, 9);
    assert_eq!((e.healthy, e.alive), (Some(false), None));
    assert_eq!(e.report_time, 9);
    let e = ObserveKind::Health.build_runstate_event("u", "r", true, None, 9);
    assert_eq!((e.healthy, e.alive), (Some(true), Some(true)));
}

#[test]
fn log_tails_merge_with_newline() {
    assert_eq!(
        merge_log_tails(Some("a".into()), Some("b".into())),
        Some("a\nb".to_string())
    );
    assert_eq!(merge_log_tails(None, Some("b".into())), Some("b".to_string()));
    assert_eq!(merge_log_tails(Some("a".into()), None), Some("a".to_string()));
    assert_eq!(merge_log_tails(None, None), None);
}

fn policy(trigger: RollbackTrigger) -> RollbackPolicy {
    RollbackPolicy {
        on_health_failure: trigger,
        on_liveness_failure: RollbackTrigger::Never,
        stabilization_period_secs: 60,
    }
}

#[test]
fn rollback_triggers() {
    let p = Some(policy(RollbackTrigger::Consecutive(3)));
    assert_eq!(
        check_rollback_on_observe_failure(&p, ObserveKind::Health, Some(100), Some(2)),
        RollbackCheck::Keep
    );
    assert_eq!(
        check_rollback_on_observe_failure(&p, ObserveKind::Health, Some(100), Some(3)),
        RollbackCheck::Rollback
    );
    // still stabilizing
    assert_eq!(
        check_rollback_on_observe_failure(&p, ObserveKind::Health, Some(59), Some(9)),
        RollbackCheck::Keep
    );
    assert_eq!(
        check_rollback_on_observe_failure(&p, ObserveKind::Liveness, Some(100), Some(9)),
        RollbackCheck::Keep
    );
    let any = Some(policy(RollbackTrigger::Any));
    assert_eq!(
        check_rollback_on_observe_failure(&any, ObserveKind::Health, None, Some(1)),
        RollbackCheck::Rollback
    );
    assert_eq!(
        check_rollback_on_observe_failure(&any, ObserveKind::Health, None, None),
        RollbackCheck::Keep
    );
    let all = Some(policy(RollbackTrigger::All));
    assert_eq!(
        check_rollback_on_observe_failure(&all, ObserveKind::Health, None, Some(1)),
        RollbackCheck::CheckAllUnits
    );
    assert_eq!(
        check_rollback_on_observe_failure(&None, ObserveKind::Health, None, Some(5)),
        RollbackCheck::Keep
    );
    assert!(is_past_stabilization_period(&policy(RollbackTrigger::Any), Some(60)));
    assert!(!is_past_stabilization_period(&policy(RollbackTrigger::Any), Some(59)));
}

#[test]
fn all_units_failing() {
    let mut failing = LocalRunState::new();
    failing.consecutive_health_failures = 2;
    let healthy = LocalRunState::new();
    assert!(!check_all_units_failing(&vec![]));
    assert!(check_all_units_failing(&vec![Some(failing), None]));
    assert!(!check_all_units_failing(&vec![Some(failing), Some(healthy)]));
}

#[test]
fn steps_undo_latest_first_and_stop() {
    let policy = OnFailure {
        undo: UndoMode::ExecutedSteps,
        continue_on_failure: false,
    };
    let has_undo = vec![true, false, true, true];
    let mut run = StepsRun::new();
    let a = run.on_step_result(&policy, &has_undo, true);
    assert!(a.undo.is_empty() && !a.stop);
    let _ = run.on_step_result(&policy, &has_undo, true);
    let _ = run.on_step_result(&policy, &has_undo, true);
    let a = run.on_step_result(&policy, &has_undo, false);
    assert_eq!(a.undo, vec![2, 0]);
    assert!(a.stop);
    assert_eq!(run.executed, vec![0, 1, 2]);
}

#[test]
fn steps_continue_without_undo() {
    let policy = OnFailure::default_policy();
    assert_eq!(policy.undo, UndoMode::Nothing);
    let cont = OnFailure {
        undo: UndoMode::Nothing,
        continue_on_failure: true,
    };
    let mut run = StepsRun::new();
    let a = run.on_step_result(&cont, &vec![true, true], false);
    assert!(a.undo.is_empty() && !a.stop);
    let a = run.on_step_result(&cont, &vec![true, true], true);
    assert!(!a.stop);
    assert_eq!(run.executed, vec![1]);
}

#[test]
fn retries() {
    assert_eq!(retry_attempts(&None), 1);
    assert_eq!(retry_attempts(&Some(RetrySpec { attempts: 0, backoff_ms: 5 })), 1);
    assert_eq!(retry_attempts(&Some(RetrySpec { attempts: 3, backoff_ms: 5 })), 3);
    assert!(retry_after_failure(0, 3));
    assert!(retry_after_failure(1, 3));
    assert!(!retry_after_failure(2, 3));
}

#[test]
fn dirty_units_after_revision_change() {
    let mut dirty: Vec<String> = vec!["h0".to_string()];
    let new_units = vec![unit("a", "ha2"), unit("b", "hb"), unit("c", "hc")];
    let old_units = vec![unit("a", "ha1"), unit("b", "hb"), unit("d", "hd")];
    // a: kept but never completed; b: kept and completed; c: new; d: removed
    mark_dirty(&mut dirty, &new_units, &vec![false, true, true], &old_units);
    let mut got = dirty.clone();
    got.sort();
    assert_eq!(got, vec!["h0", "ha2", "hc", "hd"]);
    // marking again adds nothing twice
    mark_dirty(&mut dirty, &new_units, &vec![false, true, true], &old_units);
    assert_eq!(dirty.len(), 4);
}

#[test]
fn revision_hash_unchanged() {
    assert!(revision_unchanged(&Some("x".into()), &"x".to_string()));
    assert!(!revision_unchanged(&Some("x".into()), &"y".to_string()));
    assert!(!revision_unchanged(&None, &"x".to_string()));
}

#[test]
fn reconcile_actions() {
    assert_eq!(reconcile_action(None, Some(RunType::Service)), ReconcileAction::StopRemoved);
    assert_eq!(reconcile_action(None, Some(RunType::Job)), ReconcileAction::KeepDirty);
    assert_eq!(reconcile_action(None, None), ReconcileAction::KeepDirty);
    assert_eq!(reconcile_action(Some((RunType::Observe, true)), None), ReconcileAction::Settle);
    assert_eq!(reconcile_action(Some((RunType::Job, true)), None), ReconcileAction::RunSteps);
    assert_eq!(reconcile_action(Some((RunType::Job, false)), None), ReconcileAction::Settle);
    assert_eq!(reconcile_action(Some((RunType::Service, true)), None), ReconcileAction::RunSteps);
    assert_eq!(
        reconcile_action(Some((RunType::Service, false)), None),
        ReconcileAction::StopService
    );
}

#[test]
fn workspace_paths() {
    assert_eq!(get_workspace_path("/data/m87", "u1", "h1", &None), "/data/m87/jobs/u1");
    let eph = Some(WorkdirSpec {
        mode: WorkdirMode::Ephemeral,
        path: Some("/custom".to_string()),
    });
    assert_eq!(get_workspace_path("/data/m87", "u1", "h1", &eph), "/data/m87/tmp/jobs/h1");
    assert!(removes_workspace(&eph));
    let custom = Some(WorkdirSpec {
        mode: WorkdirMode::Persistent,
        path: Some("/custom".to_string()),
    });
    assert_eq!(get_workspace_path("/data/m87", "u1", "h1", &custom), "/custom");
    assert!(!removes_workspace(&custom));
    assert!(!removes_workspace(&None));
}

#[test]
fn unit_run_report_marks_ran() {
    let mut st = LocalRunState::new();
    let r = finish_unit_run(&mut st, "u", "rev", Some("boom".to_string()));
    assert!(st.ran_successful);
    assert_eq!(r.outcome, Outcome::Failed);
    assert_eq!(r.error, Some("boom".to_string()));
    let r = finish_unit_run(&mut st, "u", "rev", None);
    assert_eq!(r.outcome, Outcome::Success);
}

#[test]
fn step_reports_and_messages() {
    let ok: Result<String, CommandFailure> = Ok("tail".to_string());
    let r = step_report("u", "rev", &Some("build".into()), 2, false, &ok, 99);
    assert!(r.success);
    assert_eq!(r.attempts, 3);
    assert_eq!(r.log_tail, "tail");
    assert!(step_result(&r).is_ok());
    let failed: Result<String, CommandFailure> = Err(CommandFailure {
        combined_tail: "t".to_string(),
        exit_code: Some(2),
        error: Some("exit 2".to_string()),
    });
    let r = step_report("u", "rev", &Some("build".into()), 0, true, &failed, 99);
    assert_eq!(r.attempts, 0);
    assert!(r.is_undo && !r.success);
    assert_eq!(r.exit_code, Some(2));
    assert_eq!(step_result(&r), Err("Step build failed: exit 2".to_string()));
    let r = step_report("u", "rev", &None, 0, false, &Err(CommandFailure {
        combined_tail: String::new(),
        exit_code: None,
        error: None,
    }), 1);
    assert_eq!(
        step_result(&r),
        Err("Step unknown step failed: unknown error".to_string())
    );
}

#[test]
fn rollback_and_failure_reports() {
    let (report, res) = rollback_outcome("rev1", false);
    assert!(!report.success);
    assert_eq!(report.error, Some("No previous configuration available".to_string()));
    assert!(res.is_err());
    let (report, res) = rollback_outcome("rev1", true);
    assert!(report.success && res.is_ok());
    let f = reconcile_failure_report("rev2", "disk full");
    assert_eq!(f.error, Some("reconcile error: disk full".to_string()));
    assert!(f.dirty);
}

#[test]
fn event_names_and_order() {
    assert_eq!(event_file_name(1700000000000, 42), "1700000000000-42.json");
    assert_eq!(event_file_name(-5, 0), "-5-0.json");
    assert_eq!(event_temp_name("1-2.json"), "1-2.json.tmp");
    assert!(is_event_file("1-2.json"));
    assert!(!is_event_file(".json"));
    assert!(!is_event_file("1-2.json.tmp"));
    let n = new_event_file_name();
    assert!(n.ends_with(".json"));
    let names: Vec<String> = vec![
        "200-1.json".into(),
        "100-9.json.tmp".into(),
        "150-3.json".into(),
        "notes.txt".into(),
    ];
    assert_eq!(oldest_event(&names), Some(2));
    assert_eq!(oldest_event(&vec!["a.tmp".to_string()]), None);
}

#[test]
fn reapplying_completed_units_marks_nothing() {
    let units = vec![unit("a", "ha"), unit("b", "hb")];
    let mut dirty: Vec<String> = Vec::new();
    mark_dirty(&mut dirty, &units, &vec![true, true], &units);
    assert!(dirty.is_empty());
    mark_dirty(&mut dirty, &units, &vec![true, false], &units);
    assert_eq!(dirty, vec!["hb".to_string()]);
}

#[test]
fn observe_schedule() {
    use_schedule();
}

fn use_schedule() {
    let mut s = m87_client::schedule::ObserveSchedule::new();
    let id = "u1".to_string();
    assert!(s.poll(&id, 1_000, 500));
    assert!(!s.poll(&id, 1_499, 500));
    assert!(s.poll(&id, 1_500, 500));
    assert!(s.poll(&"u2".to_string(), 1_500, 10));
    assert!(!s.poll(&id, 1_999, 500));
    assert!(m87_client::schedule::is_observed(true, true));
    assert!(!m87_client::schedule::is_observed(false, true));
}

#[test]
fn snapshot_keeps_lines_until_a_bound() {
    let out: Vec<String> = vec!["aaaa", "bb", "c", "dddd"].into_iter().map(String::from).collect();
    // Two lines at most.
    assert_eq!(m87_client::logs::snapshot_of(&out, 2, 1000), vec!["aaaa".to_string(), "bb".to_string()]);
    // "aaaa\n" is 5 bytes, "bb\n" brings it to 8 >= 8: that line is kept.
    assert_eq!(m87_client::logs::snapshot_of(&out, 100, 8), vec!["aaaa".to_string(), "bb".to_string()]);
    // No bound reached: everything.
    assert_eq!(m87_client::logs::snapshot_of(&out, 100, 1000), out);
    // A zero line bound still keeps the first line read.
    assert_eq!(m87_client::logs::snapshot_of(&out, 0, 1000), vec!["aaaa".to_string()]);
    assert_eq!(m87_client::logs::snapshot_of(&Vec::new(), 2, 10), Vec::<String>::new());
}

#[test]
fn desired_units_change_only_with_the_hash() {
    let u = |id: &str, h: &str| m87_client::units::UnitRef { id: id.to_string(), hash: h.to_string() };
    let mut d = m87_client::units::DesiredUnits { hash: Some("r1".to_string()), dirty: vec![], rollback: None, started_at: None };
    assert!(!d.set_desired_units(&"r1".to_string(), &vec![u("a", "ha2")], &vec![false], &vec![u("a", "ha")], None, 5));
    assert!(d.dirty.is_empty());
    assert_eq!(d.started_at, None);
    assert!(d.set_desired_units(
        &"r2".to_string(),
        &vec![u("a", "ha2"), u("b", "hb")],
        &vec![true, false],
        &vec![u("a", "ha"), u("c", "hc")],
        None,
        7
    ));
    let mut got = d.dirty.clone();
    got.sort();
    assert_eq!(got, vec!["hb".to_string(), "hc".to_string()]);
    assert_eq!(d.hash, Some("r2".to_string()));
    assert_eq!(d.started_at, Some(7));
}
