use pdu_automation::processors::ProcessorResult;
use pdu_automation::unit_state::{
    accept_task_failure, ensure_task_entries_at, record_processor_result, record_processor_results, TaskStateSeed,
    UnitState,
};

fn outcome(state: &str, code: u8, fingerprint: Option<&str>) -> ProcessorResult {
    ProcessorResult {
        state: state.to_string(),
        code,
        message: format!("{state} outcome"),
        log: Vec::new(),
        report_path: None,
        print_report_path: None,
        failure: None,
        source_csv_path: Some("STEP14.csv".to_string()),
        csv_fingerprint: fingerprint.map(|f| f.to_string()),
    }
}

fn seed(task_id: &str, state: &str) -> TaskStateSeed {
    TaskStateSeed { task_id: task_id.to_string(), state: state.to_string(), source_csv_path: None, csv_fingerprint: None }
}

#[test]
fn ensuring_task_entries_twice_changes_nothing_the_second_time() {
    let mut state = UnitState::default();
    let seeds = vec![seed("208v-transformer", "detected"), seed("system-burn-in", "off")];
    assert!(ensure_task_entries_at(&mut state, &seeds, "t1"));
    let first = state.tasks.get("208v-transformer").unwrap().audit_log.len();
    assert!(!ensure_task_entries_at(&mut state, &seeds, "t2"));
    assert_eq!(state.tasks.get("208v-transformer").unwrap().audit_log.len(), first);
    assert_eq!(state.tasks.get("208v-transformer").unwrap().state, "detected");
}

#[test]
fn reprocessing_clears_an_accepted_failure() {
    let mut state = UnitState::default();
    record_processor_result(&mut state, "208v-transformer", &outcome("fail", 1, Some("f1")), "t1");
    accept_task_failure(&mut state, "208v-transformer", "Sean", "known offset", "t2").unwrap();
    assert!(state.tasks.get("208v-transformer").unwrap().is_print_ready());
    assert_eq!(state.tasks.get("208v-transformer").unwrap().already_processed_fingerprint(), None);
    record_processor_result(&mut state, "208v-transformer", &outcome("fail", 1, Some("f2")), "t3");
    let entry = state.tasks.get("208v-transformer").unwrap();
    assert!(!entry.accepted.accepted);
    assert!(!entry.is_print_ready());
}

#[test]
fn recorded_outcomes_leave_other_tasks_and_keep_the_last() {
    let mut state = UnitState::default();
    record_processor_result(&mut state, "system-burn-in", &outcome("waiting", 2, None), "t0");
    let untouched_state = state.tasks.get("system-burn-in").unwrap().state.clone();
    let untouched_log = state.tasks.get("system-burn-in").unwrap().audit_log.len();
    let results = vec![
        ("208v-transformer".to_string(), outcome("fail", 1, Some("a"))),
        ("208v-transformer".to_string(), outcome("pass", 0, Some("b"))),
    ];
    record_processor_results(&mut state, &results, "t1");
    let entry = state.tasks.get("208v-transformer").unwrap();
    assert_eq!(entry.state, "pass");
    assert_eq!(entry.code, Some(0));
    assert_eq!(entry.csv_fingerprint.as_deref(), Some("b"));
    assert_eq!(state.tasks.get("system-burn-in").unwrap().state, untouched_state);
    assert_eq!(state.tasks.get("system-burn-in").unwrap().audit_log.len(), untouched_log);
}

#[test]
fn seeding_from_a_scan_keeps_print_readiness() {
    let mut state = UnitState::default();
    record_processor_result(&mut state, "208v-transformer", &outcome("pass", 0, Some("p")), "t0");
    let seeds = vec![seed("208v-transformer", "detected"), seed("system-burn-in", "detected")];
    ensure_task_entries_at(&mut state, &seeds, "t1");
    assert!(state.tasks.get("208v-transformer").unwrap().is_print_ready());
    assert_eq!(state.tasks.get("208v-transformer").unwrap().state, "pass");
    assert!(!state.tasks.get("system-burn-in").unwrap().is_print_ready());
}

#[test]
fn blockers_name_exactly_the_unready_tasks() {
    let tasks = pdu_automation::tasks::automation_tasks();
    let mut state = UnitState::default();
    record_processor_result(&mut state, "208v-transformer", &outcome("pass", 0, Some("p")), "t0");
    record_processor_result(&mut state, "system-burn-in", &outcome("fail", 1, Some("f")), "t0");
    let r = pdu_automation::printing::print_readiness(true, &tasks, &state);
    assert!(!r.ready);
    assert_eq!(r.blocking_issues.len(), 64);
    assert!(r.blocking_issues.iter().all(|b| b.task_id.as_deref() != Some("208v-transformer")));
    let burn_in = r.blocking_issues.iter().find(|b| b.task_id.as_deref() == Some("system-burn-in")).unwrap();
    assert_eq!(burn_in.code, "task_fail");
    assert_ne!(r.message, "Ready to print.");
}
