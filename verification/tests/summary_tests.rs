use pdu_automation::automation::AutomationError;
use pdu_automation::csv_data::{CsvDataError, CsvTable};
use pdu_automation::mapped::{
    check_has_mappings, check_transform, find_latest_file_by_pattern, is_optional_source_error,
    mapped_error_from_csv, mapped_error_result, mapped_success, mapped_updates, mapping_source_value,
    require_csv_by_pattern, resolve_workbook_path, select_row, MappedProcessorError, MappingOutcome,
};
use pdu_automation::plans::transformer_plan;
use pdu_automation::processors::{checked_outcome, verification_messages, CsvSource, VerificationIssue};
use pdu_automation::profile::{
    parse_and_validate_profile, LayoutProfileError, MappingDefinition, MappingRow, MappingSource,
    MappingTarget, ReportLayoutProfile, ReportTemplates, StepNumber, TaskDefinition, TaskGroup,
    TransformDefinition, WorkbookDefinition,
};
use pdu_automation::report_paths::{already_processed_result, idempotent_source, validate_report_path, PathModel};
use pdu_automation::reports::CellUpdate;
use pdu_automation::scan::{CsvScanIndex, ScannedFile};
use pdu_automation::str_map::StrMap;
use pdu_automation::summary::{build_summary_with_profile, merged_summary_state, summary_seeds};
use pdu_automation::tasks::{automation_tasks, VoltageSet};
use pdu_automation::unit_state::{TaskAcceptance, UnitState, UnitTaskState};

fn file(path: &str, name: &str, modified: i128) -> ScannedFile {
    ScannedFile { path: path.to_string(), file_name: Some(name.to_string()), modified, created_ms: Some(1_000), readable: true }
}

fn profile() -> ReportLayoutProfile {
    let mut workbooks = StrMap::new();
    workbooks.insert("main".to_string(), WorkbookDefinition { file_pattern: "*_Rev02_SN*.xlsx".to_string() });
    workbooks.insert("print".to_string(), WorkbookDefinition { file_pattern: "PDUD500442AA088*.xlsx".to_string() });
    ReportLayoutProfile {
        schema_version: 1,
        profile_id: "p".to_string(),
        display_name: "P".to_string(),
        status: None,
        templates: ReportTemplates {
            default_template_root: "C:/PDU500/00_Template".to_string(),
            main_report_template: "main.xlsx".to_string(),
            print_report_template: "print.xlsx".to_string(),
        },
        workbooks,
        serial_number: None,
        task_groups: vec![TaskGroup {
            id: "xfmr".to_string(),
            label: "Transformer".to_string(),
            tasks: vec![TaskDefinition {
                id: "208v-transformer".to_string(),
                label: "208V Transformer Check".to_string(),
                step: StepNumber::Number(14),
                detection_steps: vec![14],
                processor: Some("transformer".to_string()),
                csv_pattern: "*STEP14*.csv".to_string(),
                notes: Vec::new(),
                mappings: Vec::new(),
            }],
        }],
    }
}

fn entry(state: &str, accepted: bool) -> UnitTaskState {
    UnitTaskState {
        task_id: "208v-transformer".to_string(),
        state: state.to_string(),
        code: None,
        source_csv_path: Some("a.csv".to_string()),
        csv_fingerprint: Some("fp".to_string()),
        processed_at: None,
        result: None,
        accepted: TaskAcceptance { accepted, accepted_at: None, accepted_by: None, reason: None },
        audit_log: Vec::new(),
    }
}

#[test]
fn summary_state_prefers_acceptance_then_outcomes() {
    assert_eq!(merged_summary_state(&entry("fail", true), "off"), "pass");
    assert_eq!(merged_summary_state(&entry("warning", false), "detected"), "warning");
    assert_eq!(merged_summary_state(&entry("detected", false), "off"), "off");
}

#[test]
fn summary_counts_detected_tasks_and_keeps_persisted_state() {
    let index = CsvScanIndex::from_files(vec![
        file("u/UNIT_STEP14_TRANSFORMER_TEST_DATA_AVG.csv", "UNIT_STEP14_TRANSFORMER_TEST_DATA_AVG.csv", 5),
        file("u/UNIT_STEP15_SYSTEM_ACCURACY_TEST_DATA_AVG.csv", "UNIT_STEP15_SYSTEM_ACCURACY_TEST_DATA_AVG.csv", 6),
    ]);
    let mut state = UnitState::default();
    state.tasks.insert("208v-transformer".to_string(), entry("pass", false));
    let summary = build_summary_with_profile(
        "u".to_string(),
        Some("262343000072".to_string()),
        None,
        None,
        vec!["w".to_string()],
        &profile(),
        &index,
        &state,
        10_000_000,
    );
    assert_eq!(summary.tasks.len(), 65);
    assert_eq!(summary.detected_count, 2);
    assert_eq!(summary.tasks[0].state, "pass");
    assert_eq!(summary.tasks[0].detected_steps, vec![14]);
    assert_eq!(summary.tasks[0].csv_fingerprint.as_deref(), Some("fp"));
    assert_eq!(summary.tasks[1].state, "detected");
    assert_eq!(summary.tasks[2].state, "off");
    assert_eq!(summary.warnings, vec!["w".to_string()]);

    let seeds = summary_seeds(&automation_tasks(), &profile(), &index);
    assert_eq!(seeds.len(), 65);
    assert_eq!(seeds[0].state, "detected");
    assert_eq!(seeds[0].source_csv_path.as_deref(), Some("u/UNIT_STEP14_TRANSFORMER_TEST_DATA_AVG.csv"));
    assert_eq!(seeds[3].state, "off");
}

fn path(display: &str, parts: &[&str], ext: Option<&str>) -> PathModel {
    PathModel {
        display: display.to_string(),
        components: parts.iter().map(|p| p.to_string()).collect(),
        extension: ext.map(|e| e.to_string()),
    }
}

#[test]
fn report_paths_must_be_workbooks_inside_the_unit_folder() {
    let unit = || Ok(path("/u", &["/", "u"], None));
    let ok = validate_report_path(unit(), Ok(path("/u/r.XLSX", &["/", "u", "r.XLSX"], Some("XLSX"))), true, true);
    assert_eq!(ok.unwrap(), "/u/r.XLSX");
    match validate_report_path(unit(), Ok(path("/o/r.xlsx", &["/", "o", "r.xlsx"], Some("xlsx"))), true, true) {
        Err(AutomationError::OpenReport(m)) => assert!(m.contains("outside the selected unit folder")),
        _ => panic!("expected an outside-folder error"),
    }
    match validate_report_path(unit(), Ok(path("/u/r.csv", &["/", "u", "r.csv"], Some("csv"))), true, true) {
        Err(AutomationError::OpenReport(m)) => assert_eq!(m, "report file must be an Excel workbook: /u/r.csv"),
        _ => panic!("expected an extension error"),
    }
    match validate_report_path(unit(), Ok(path("/u/r.xlsx", &["/", "u", "r.xlsx"], Some("xlsx"))), false, true) {
        Err(AutomationError::OpenReport(m)) => assert_eq!(m, "unit folder does not exist: /u"),
        _ => panic!("expected a missing folder error"),
    }
    match validate_report_path(Err("No such file".to_string()), Ok(path("x", &[], None)), true, true) {
        Err(AutomationError::OpenReport(m)) => assert_eq!(m, "No such file"),
        _ => panic!("expected the canonicalize error"),
    }
}

#[test]
fn already_processed_needs_the_same_fingerprint() {
    let mut state = UnitState::default();
    state.tasks.insert("208v-transformer".to_string(), entry("pass", false));
    let (fp, source) = idempotent_source(&state, "208v-transformer").unwrap();
    assert_eq!((fp.as_str(), source.as_str()), ("fp", "a.csv"));
    assert!(idempotent_source(&state, "other").is_none());
    let r = already_processed_result("T", "/u/a.csv", "fp", Some("fp".to_string())).unwrap();
    assert_eq!(r.message, "T already processed from the same CSV; no workbook changes were applied");
    assert_eq!(r.log, vec!["[idempotent] T already processed from /u/a.csv (fp)".to_string()]);
    assert!(already_processed_result("T", "/u/a.csv", "fp", Some("other".to_string())).is_none());
    assert!(already_processed_result("T", "/u/a.csv", "fp", None).is_none());
}

#[test]
fn checked_outcome_passes_or_lists_every_issue() {
    let source = || CsvSource { path: "a.csv".to_string(), fingerprint: "fp".to_string() };
    let pass = checked_outcome("208V Full Load", "system", &Vec::new(), vec!["x".to_string()], "r.xlsx".to_string(), source(), Vec::new());
    assert_eq!(pass.result.state, "pass");
    assert_eq!(pass.result.message, "208V Full Load processed successfully");
    assert_eq!(pass.result.log, vec!["x".to_string(), "[system] Verification Result: PASS".to_string()]);
    let issues = vec![VerificationIssue::new("V low", "S", "E11"), VerificationIssue::new("I high", "S", "E12")];
    assert_eq!(verification_messages(&issues), "V low; I high");
    let fail = checked_outcome("208V Full Load", "system", &issues, Vec::new(), "r.xlsx".to_string(), source(), Vec::new());
    assert_eq!(fail.result.state, "fail");
    assert_eq!(fail.result.code, 1);
    assert_eq!(fail.result.message, "208V Full Load verification failed: V low; I high");
    let failure = fail.result.failure.unwrap();
    assert_eq!(failure.title, "Accuracy Check Failed");
    let location = failure.location.unwrap();
    assert_eq!((location.sheet.as_str(), location.cell.as_str()), ("S", "E11"));
    assert_eq!(fail.result.log, vec!["[system] V low".to_string(), "[system] I high".to_string()]);
}

#[test]
fn transformer_plan_reads_four_values() {
    let plan = transformer_plan(VoltageSet::V415);
    assert_eq!(plan.step, 43);
    assert_eq!(plan.sheet, "XFMR Check_415VAC");
    let labels: Vec<&str> = plan.reads.iter().map(|r| r.label.as_str()).collect();
    assert_eq!(labels, vec!["Usum B9", "fU1 B10", "Usum B11", "fU1 B12"]);
    assert_eq!(plan.reads[1].column, 31);
    assert_eq!(plan.reads[3].target.row, 12);
}

#[test]
fn profile_parse_keeps_valid_profiles_and_joins_errors() {
    assert!(parse_and_validate_profile("p.json".to_string(), Ok(profile())).is_ok());
    let mut broken = profile();
    broken.schema_version = 2;
    broken.display_name = " ".to_string();
    match parse_and_validate_profile("p.json".to_string(), Ok(broken)) {
        Err(LayoutProfileError::InvalidProfile { path, details }) => {
            assert_eq!(path, "p.json");
            assert_eq!(details, "profile 'p' uses unsupported schema_version 2; display_name must not be empty");
        }
        _ => panic!("expected an invalid profile"),
    }
    let summary = profile().to_load_summary();
    assert_eq!(summary.task_count, 1);
    assert!(summary.validation.is_valid());
}

fn mapping(label: &str, column: &str, row: MappingRow, required: bool) -> MappingDefinition {
    MappingDefinition {
        label: label.to_string(),
        source: Some(MappingSource { column: column.to_string(), row, required }),
        transform: Some(TransformDefinition { scale_by_is_zero: false, round: Some(2) }),
        target: MappingTarget { workbook: "main".to_string(), sheet: "S".to_string(), cell: "B9".to_string(), number_format: None },
    }
}

fn table() -> CsvTable {
    let rows = vec![
        vec!["h1".to_string(), "h2".to_string()],
        vec!["1,200.5".to_string(), "".to_string()],
        vec!["x".to_string(), "7".to_string()],
    ];
    CsvTable::from_rows("t.csv".to_string(), rows)
}

#[test]
fn mapping_sources_follow_row_rules() {
    let t = table();
    let first = mapping("A", "A", MappingRow::Selector("first_data_after_header".to_string()), true);
    assert_eq!(mapping_source_value(&first, &t).unwrap().unwrap().into_iter().collect::<String>(), "1200.5");
    let numeric = mapping("B", "B", MappingRow::Selector("last_numeric".to_string()), true);
    assert_eq!(mapping_source_value(&numeric, &t).unwrap().unwrap().into_iter().collect::<String>(), "7");
    let blank_optional = mapping("B", "B", MappingRow::Index(2), false);
    assert!(mapping_source_value(&blank_optional, &t).unwrap().is_none());
    let blank_required = mapping("B", "B", MappingRow::Index(2), true);
    match mapping_source_value(&blank_required, &t) {
        Err(MappedProcessorError::Csv(CsvDataError::BlankValue { .. })) => {}
        _ => panic!("expected a blank value"),
    }
    match select_row(&t, &MappingRow::Selector("middle".to_string()), "A") {
        Err(CsvDataError::Empty(m)) => assert_eq!(m, "t.csv uses unsupported row selector 'middle'"),
        _ => panic!("expected an unsupported selector"),
    }
    let mut no_source = first.clone();
    no_source.source = None;
    match mapping_source_value(&no_source, &t) {
        Err(MappedProcessorError::Config(m)) => assert_eq!(m, "mapping 'A' has no source rule"),
        _ => panic!("expected a configuration error"),
    }
}

#[test]
fn mapped_errors_and_outcomes() {
    assert!(is_optional_source_error(&CsvDataError::Empty("x".to_string())));
    assert!(!is_optional_source_error(&CsvDataError::Unstable("x".to_string())));
    match mapped_error_from_csv(CsvDataError::Unstable("x.csv".to_string())) {
        MappedProcessorError::CsvNotReady(m) => assert!(m.starts_with("CSV is still being written by ATS")),
        _ => panic!("expected a wait"),
    }
    let failed = mapped_error_result(MappedProcessorError::Config("bad".to_string()));
    assert_eq!((failed.state.as_str(), failed.code), ("fail", 1));
    assert_eq!(failed.failure.unwrap().title, "Mapped Processing Error");
    let missing = mapped_error_result(MappedProcessorError::MissingCsv("none".to_string()));
    assert_eq!((missing.state.as_str(), missing.code), ("warning", 3));

    let mut task = profile().task_groups[0].tasks[0].clone();
    assert!(check_has_mappings(&task).is_err());
    task.mappings = vec![mapping("A", "A", MappingRow::Index(2), true), mapping("B", "B", MappingRow::Index(2), false)];
    assert!(check_has_mappings(&task).is_ok());
    let mut zero = task.mappings[0].clone();
    zero.transform = Some(TransformDefinition { scale_by_is_zero: true, round: None });
    assert!(check_transform(&zero).is_err());

    let outcomes: Vec<MappingOutcome> = vec![
        Ok(Some((CellUpdate::number("S".to_string(), "B9".to_string(), "1.5".to_string()), "1.50".to_string()))),
        Ok(None),
    ];
    let (log, groups) = mapped_updates("t", &task.mappings, outcomes).unwrap();
    assert_eq!(log, vec!["[mapped]   S!B9 <- A = 1.50".to_string(), "[mapped]   B skipped because optional source was blank".to_string()]);
    assert_eq!(groups.len(), 1);
    assert_eq!(groups[0].0, "main");
    match mapped_updates("t", &task.mappings, vec![Ok(None), Ok(None)]) {
        Err(MappedProcessorError::Config(m)) => assert_eq!(m, "task 't' produced no workbook updates"),
        _ => panic!("expected no updates"),
    }
}

#[test]
fn latest_files_match_patterns_and_resolve_workbooks() {
    let files = vec![
        file("u/a_Rev02_SN1.xlsx", "a_Rev02_SN1.xlsx", 5),
        file("u/b_Rev02_SN1.xlsx", "b_Rev02_SN1.xlsx", 5),
        file("u/unit_step14_x.csv", "unit_step14_x.csv", 1),
    ];
    assert_eq!(find_latest_file_by_pattern(&files, "*_rev02_sn*.XLSX").as_deref(), Some("u/b_Rev02_SN1.xlsx"));
    assert_eq!(find_latest_file_by_pattern(&files, "  "), None);
    assert_eq!(require_csv_by_pattern(&files, "*STEP14*.csv", "T", "u").unwrap(), "u/unit_step14_x.csv");
    match require_csv_by_pattern(&files, "*STEP15*.csv", "T", "u") {
        Err(MappedProcessorError::MissingCsv(m)) => assert_eq!(m, "T: no matching CSV '*STEP15*.csv' found under u"),
        _ => panic!("expected a missing CSV"),
    }
    assert_eq!(resolve_workbook_path(&profile(), &files, "u", "main").unwrap(), "u/b_Rev02_SN1.xlsx");
    match resolve_workbook_path(&profile(), &files, "u", "print") {
        Err(MappedProcessorError::Config(m)) => assert!(m.starts_with("workbook 'print' matching")),
        _ => panic!("expected a missing workbook"),
    }
    match resolve_workbook_path(&profile(), &files, "u", "other") {
        Err(MappedProcessorError::Config(m)) => assert_eq!(m, "unknown workbook 'other'"),
        _ => panic!("expected an unknown workbook"),
    }
    let mut paths = StrMap::new();
    paths.insert("print".to_string(), "p.xlsx".to_string());
    let r = mapped_success("ok".to_string(), Vec::new(), &paths, None);
    assert_eq!(r.report_path, None);
    assert_eq!(r.print_report_path.as_deref(), Some("p.xlsx"));
}
