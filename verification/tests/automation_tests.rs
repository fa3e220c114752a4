use pdu_automation::automation::AutomationCommandError;
use pdu_automation::csv_data::{excel_col_to_index, CsvDataError};
use pdu_automation::io_error::{IoFailure, IoKind};
use pdu_automation::patterns::wildcard_pattern_to_regex;
use pdu_automation::profile::LayoutProfileError;
use pdu_automation::readiness::{evaluate_task_readiness, TaskCsvMatch, TaskWaitPhase};
use pdu_automation::reports::ReportError;
use pdu_automation::scan::{CsvScanEntry, CsvScanIndex};
use pdu_automation::tasks::find_task;
use pdu_automation::unit_state::{
    ensure_task_entries, now_string, TaskAcceptance, TaskStateSeed, UnitState, UnitTaskState,
};

fn sharing_violation() -> IoFailure {
    IoFailure::new(IoKind::Other, Some(32), "The process cannot access the file (os error 32)".to_string())
}

#[test]
fn excel_columns_are_zero_based() {
    assert_eq!(excel_col_to_index("A").unwrap(), 0);
    assert_eq!(excel_col_to_index("Z").unwrap(), 25);
    assert_eq!(excel_col_to_index("AA").unwrap(), 26);
    assert_eq!(excel_col_to_index("EG").unwrap(), 136);
}

#[test]
fn sharing_violation_is_transient_file_access() {
    let error = CsvDataError::Io(sharing_violation());

    assert!(error.is_transient_file_access());
}

#[test]
fn would_block_is_transient_file_access() {
    let error = CsvDataError::Io(IoFailure::new(IoKind::WouldBlock, None, "operation would block".to_string()));

    assert!(error.is_transient_file_access());
}

#[test]
fn malformed_values_are_not_transient_file_access() {
    let error = CsvDataError::NonnumericValue {
        file: "sample.csv".to_string(),
        label: "Current".to_string(),
        column: "A".to_string(),
        value: "bad".to_string(),
    };

    assert!(!error.is_transient_file_access());
}

#[test]
fn wildcard_patterns_match_case_insensitively() {
    let pattern = wildcard_pattern_to_regex("*STEP14*TRANSFORMER_TEST_DATA_AVG*.csv")
        .expect("pattern should compile");

    assert!(pattern.is_match("unit_step14_transformer_test_data_avg.csv"));
    assert!(!pattern.is_match("unit_STEP15_TRANSFORMER_TEST_DATA_AVG.csv"));
}

fn scan_entry(step: u16, file_name: &str, created_ms: u64, readable: bool) -> CsvScanEntry {
    CsvScanEntry {
        path: file_name.to_string(),
        step: Some(step),
        file_name: file_name.to_string(),
        file_name_upper: file_name.to_ascii_uppercase(),
        modified: created_ms as i128 * 1_000_000,
        created_ms: Some(created_ms),
        readable,
    }
}

#[test]
fn generic_readiness_keeps_the_csv_creation_deadline_across_rescans() {
    let task = find_task("208v-transformer").expect("transformer task");
    let csv_match = TaskCsvMatch {
        path: Some("STEP14.csv".to_string()),
        created_ms: Some(1_000),
        processable: true,
        reason: "test CSV".to_string(),
    };
    let empty_index = CsvScanIndex { entries: Vec::new() };

    let first = evaluate_task_readiness(&task, &empty_index, &csv_match, 2_000);
    let rescanned = evaluate_task_readiness(&task, &empty_index, &csv_match, 5_000);

    assert_eq!(first.phase_deadline_ms, Some(61_000));
    assert_eq!(rescanned.phase_deadline_ms, first.phase_deadline_ms);
    assert_eq!(rescanned.wait_phase, TaskWaitPhase::Timing);
    assert!(!rescanned.process_ready);
}

#[test]
fn burn_in_requires_step72_after_the_two_hour_soak() {
    let index = CsvScanIndex { entries: vec![scan_entry(71, "UNIT_STEP71_SYSTEM.csv", 1_000, true)] };
    let task = find_task("system-burn-in").expect("burn-in task");
    let csv_match = TaskCsvMatch {
        path: None,
        created_ms: None,
        processable: false,
        reason: "STEP72 missing".to_string(),
    };

    let readiness = evaluate_task_readiness(&task, &index, &csv_match, 7_202_000);

    assert_eq!(readiness.wait_phase, TaskWaitPhase::WaitingStep72);
    assert_eq!(readiness.phase_deadline_ms, None);
    assert_eq!(readiness.pending_duration_seconds, 60);
    assert!(!readiness.process_ready);
}

#[test]
fn burn_in_waits_for_both_the_step71_soak_and_step72_capture() {
    let index = CsvScanIndex {
        entries: vec![
            scan_entry(71, "UNIT_STEP71_SYSTEM.csv", 1_000, true),
            scan_entry(72, "UNIT_STEP72_SYSTEM_ACCURACY_TEST_DATA_AVG.csv", 7_191_000, true),
        ],
    };
    let task = find_task("system-burn-in").expect("burn-in task");
    let csv_match = TaskCsvMatch {
        path: None,
        created_ms: None,
        processable: false,
        reason: "test match".to_string(),
    };

    let readiness = evaluate_task_readiness(&task, &index, &csv_match, 7_205_000);

    assert_eq!(readiness.wait_phase, TaskWaitPhase::Capturing);
    assert_eq!(readiness.phase_deadline_ms, Some(7_251_000));
    assert!(!readiness.process_ready);
}

#[test]
fn transformer_setup_maps_report_errors_to_stable_codes() {
    let locked = AutomationCommandError::from_report_error(ReportError::Io(sharing_violation()));
    assert_eq!(locked.code, "workbook_locked");

    let missing = AutomationCommandError::from_report_error(ReportError::MainReportMissing(
        "C:/PDU500/262343000072".to_string(),
    ));
    assert_eq!(missing.code, "main_report_missing");

    let missing_sheet =
        AutomationCommandError::from_report_error(ReportError::SheetMissing("Test Summary".to_string()));
    assert_eq!(missing_sheet.code, "report_sheet_missing");
    assert!(missing_sheet.message.contains("Test Summary"));
}

#[test]
fn layout_profile_errors_map_to_stable_codes() {
    let read_failed = AutomationCommandError::from_layout_profile_error(LayoutProfileError::ReadFailed {
        path: "C:/PDU500/config/report-layouts/missing.json".to_string(),
        message: "missing".to_string(),
    });
    assert_eq!(read_failed.code, "layout_profile_read_failed");
    assert!(read_failed.message.contains("layout profile"));

    let parse_error = serde_json::from_str::<serde_json::Value>("{not valid json").expect_err("invalid JSON");
    let invalid_json = AutomationCommandError::from_layout_profile_error(LayoutProfileError::InvalidJson {
        path: "inline layout profile".to_string(),
        message: parse_error.to_string(),
    });
    assert_eq!(invalid_json.code, "layout_profile_invalid_json");

    let invalid_profile =
        AutomationCommandError::from_layout_profile_error(LayoutProfileError::InvalidProfile {
            path: "C:/PDU500/config/report-layouts/pdu500.rev02.layout.json".to_string(),
            details: "unsupported schema_version".to_string(),
        });
    assert_eq!(invalid_profile.code, "layout_profile_invalid");
    assert!(invalid_profile
        .details
        .as_deref()
        .is_some_and(|details| details.contains("unsupported schema_version")));
}

#[test]
fn final_operator_name_locked_workbook_maps_to_clear_error() {
    let locked = AutomationCommandError::from_print_report_error(ReportError::Io(sharing_violation()));

    assert_eq!(locked.code, "workbook_locked");
    assert!(locked.message.contains("print report workbook is locked"));
}

fn task_state(task_id: &str, state: &str) -> UnitTaskState {
    UnitTaskState {
        task_id: task_id.to_string(),
        state: state.to_string(),
        code: Some(0),
        source_csv_path: None,
        csv_fingerprint: None,
        processed_at: Some(now_string()),
        result: Some("test result".to_string()),
        accepted: TaskAcceptance::default(),
        audit_log: Vec::new(),
    }
}

#[test]
fn persisted_waiting_is_refreshed_from_readable_scan() {
    let mut state = UnitState::default();
    state.tasks.insert("208v-transformer".to_string(), task_state("208v-transformer", "waiting"));

    let changed = ensure_task_entries(
        &mut state,
        &[TaskStateSeed {
            task_id: "208v-transformer".to_string(),
            state: "detected".to_string(),
            source_csv_path: Some("STEP14.csv".to_string()),
            csv_fingerprint: None,
        }],
    );

    assert!(changed);
    assert_eq!(state.tasks.get("208v-transformer").unwrap().state, "detected");
    assert_eq!(state.tasks.get("208v-transformer").unwrap().code, None);
}
