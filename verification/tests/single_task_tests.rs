use pdu_automation::automation::AutomationError;
use pdu_automation::commands::open_report_location;
use pdu_automation::mapped::{single_task_needs_commit, single_task_result};
use pdu_automation::patterns::regex_escape;
use pdu_automation::processors::{ProcessorResult, ProcessorTaskOutput};
use pdu_automation::reports::{CellUpdate, ReportError, WorkbookPatch};

fn output(state: &str, with_patch: bool) -> ProcessorTaskOutput {
    let result = ProcessorResult {
        state: state.to_string(),
        code: if state == "pass" { 0 } else { 1 },
        message: "m".to_string(),
        log: Vec::new(),
        report_path: None,
        print_report_path: None,
        failure: None,
        source_csv_path: None,
        csv_fingerprint: None,
    };
    let patches = if with_patch {
        vec![WorkbookPatch::new("r.xlsx".to_string(), vec![CellUpdate::number("S".to_string(), "A1".to_string(), "1".to_string())])]
    } else {
        Vec::new()
    };
    ProcessorTaskOutput { result, patches }
}

#[test]
fn only_passing_mapped_output_is_written() {
    assert!(single_task_needs_commit(true, &output("pass", true)));
    assert!(!single_task_needs_commit(true, &output("fail", true)));
    assert!(single_task_needs_commit(false, &output("fail", true)));
    assert!(!single_task_needs_commit(false, &output("pass", false)));
}

#[test]
fn failed_write_of_a_mapped_task_becomes_its_failure() {
    let error = ReportError::SheetMissing("S".to_string());
    let r = single_task_result(true, output("pass", true), Some(Err(error.clone()))).unwrap();
    assert_eq!(r.state, "fail");
    assert_eq!(r.code, 1);
    assert_eq!(r.failure.unwrap().title, "Mapped Processing Error");
    assert!(matches!(single_task_result(false, output("pass", true), Some(Err(error))), Err(ReportError::SheetMissing(_))));
    assert_eq!(single_task_result(false, output("pass", true), Some(Ok(()))).unwrap().state, "pass");
}

#[test]
fn refused_report_location_is_an_open_report_error() {
    match open_report_location("Bad:Name", "B12") {
        Err(AutomationError::OpenReport(m)) => assert_eq!(m, "invalid Excel sheet name: Bad:Name"),
        _ => panic!("expected an OpenReport error"),
    }
    match open_report_location("Test Summary", "12B") {
        Err(AutomationError::OpenReport(m)) => assert_eq!(m, "invalid Excel cell reference: 12B"),
        _ => panic!("expected an OpenReport error"),
    }
    assert!(open_report_location("Test Summary", "B12").is_ok());
}

#[test]
fn regex_escape_escapes_meta_characters() {
    assert_eq!(regex_escape("a.b*c(d)"), "a\\.b\\*c\\(d\\)");
    assert_eq!(regex_escape("STEP14-x"), "STEP14\\-x");
    assert_eq!(regex_escape("plain"), "plain");
}
