use pdu_automation::automation::to_task_process_result;
use pdu_automation::batch::{BatchAction, BatchStep, TaskBatch, TaskEvaluation};
use pdu_automation::processors::{FailureDetail, ProcessorResult, ProcessorTaskOutput};
use pdu_automation::reports::{CellUpdate, ReportError, WorkbookPatch};

const FIFTY: &str = "208v-system-50% Load";
const TWENTY: &str = "208v-system-20% Load";

fn result(state: &str, code: u8, failure: Option<&str>) -> ProcessorResult {
    ProcessorResult {
        state: state.to_string(),
        code,
        message: format!("{state} result"),
        log: Vec::new(),
        report_path: None,
        print_report_path: None,
        failure: failure.map(|title| FailureDetail { title: title.to_string(), message: "m".to_string(), location: None }),
        source_csv_path: None,
        csv_fingerprint: None,
    }
}

fn output(state: &str, code: u8, failure: Option<&str>, cell: &str) -> ProcessorTaskOutput {
    let patch = WorkbookPatch::new(
        "report.xlsx".to_string(),
        vec![CellUpdate::number("System Test - 480_208".to_string(), cell.to_string(), "1".to_string())],
    );
    ProcessorTaskOutput { result: result(state, code, failure), patches: vec![patch] }
}

fn ids(list: &[&str]) -> Vec<String> {
    list.iter().map(|s| s.to_string()).collect()
}

fn evaluated_id(step: &BatchStep) -> String {
    match &step.action {
        BatchAction::Evaluate(task) => task.id.clone(),
        _ => panic!("expected an evaluation"),
    }
}

#[test]
fn failed_commit_records_no_tentative_pass() {
    let mut batch = TaskBatch::new("unit".to_string(), ids(&[FIFTY, TWENTY]));
    let step = batch.start();
    assert_eq!(evaluated_id(&step), FIFTY);
    let step = batch.on_evaluated(TaskEvaluation::Output(output("pass", 0, None, "G57")));
    assert_eq!(evaluated_id(&step), TWENTY);
    let step = batch.on_evaluated(TaskEvaluation::Output(output("pass", 0, None, "G37")));
    assert!(matches!(step.action, BatchAction::Commit(ref p) if p.len() == 2));
    let step = batch.on_committed(Err(ReportError::SheetMissing("gone".to_string())));
    match &step.action {
        BatchAction::Record(records) => {
            assert_eq!(records.len(), 1);
            assert_eq!(records[0].0, FIFTY);
            assert_eq!(records[0].1.state, "fail");
            assert!(records[0].1.message.starts_with("Report commit failed: "));
        }
        _ => panic!("expected the failed commit to be recorded"),
    }
    let step = batch.on_recorded();
    assert_eq!(step.progress.len(), 1);
    assert_eq!(step.progress[0].total, 2);
    match step.action {
        BatchAction::Finish(b) => {
            assert_eq!(b.results.len(), 1);
            assert!(!b.committed);
            assert_eq!(b.committed_count, 0);
            assert_eq!(b.stopped_task_id.as_deref(), Some(FIFTY));
            assert_eq!(b.results[0].state, "fail");
            assert!(b.results[0].message.contains("Report commit failed"));
        }
        _ => panic!("expected the batch to end"),
    }
}

#[test]
fn task_not_ready_stops_the_batch_unrecorded() {
    let mut batch = TaskBatch::new("unit".to_string(), ids(&["system-burn-in", FIFTY]));
    let step = batch.start();
    assert_eq!(evaluated_id(&step), "system-burn-in");
    let waiting = to_task_process_result("system-burn-in".to_string(), result("waiting", 2, None));
    let step = batch.on_evaluated(TaskEvaluation::Waiting(waiting));
    assert_eq!(step.progress.len(), 1);
    match step.action {
        BatchAction::Finish(b) => {
            assert_eq!(b.results.len(), 1);
            assert_eq!(b.results[0].state, "waiting");
            assert_eq!(b.results[0].code, 2);
            assert_eq!(b.committed_count, 0);
            assert!(b.committed);
            assert_eq!(b.stopped_task_id.as_deref(), Some("system-burn-in"));
        }
        _ => panic!("expected the batch to stop without a record"),
    }
}

#[test]
fn verification_failure_with_values_is_committed_and_the_batch_goes_on() {
    let mut batch = TaskBatch::new("unit".to_string(), ids(&[TWENTY, FIFTY]));
    let mut progress = Vec::new();
    let step = batch.start();
    progress.extend(step.progress.clone());
    let step = batch.on_evaluated(TaskEvaluation::Output(output("fail", 1, Some("Accuracy Check Failed"), "G37")));
    progress.extend(step.progress.clone());
    assert_eq!(evaluated_id(&step), FIFTY);
    let step = batch.on_evaluated(TaskEvaluation::Output(output("pass", 0, None, "G57")));
    assert!(matches!(step.action, BatchAction::Commit(ref p) if p.len() == 2));
    let step = batch.on_committed(Ok(()));
    assert!(matches!(step.action, BatchAction::Record(ref r) if r.len() == 2));
    let step = batch.on_recorded();
    progress.extend(step.progress.clone());
    match step.action {
        BatchAction::Finish(b) => {
            assert_eq!(b.results.len(), 2);
            assert!(b.committed);
            assert_eq!(b.committed_count, 1);
            assert_eq!(b.stopped_task_id, None);
            assert_eq!(b.results[0].state, "fail");
            assert!(b.results[0].continue_sequence);
            assert_eq!(b.results[1].state, "pass");
            assert!(!b.results[1].continue_sequence);
            assert!(b.message.contains("1 failed"));
        }
        _ => panic!("expected the batch to end"),
    }
    let order: Vec<(String, String)> = progress.iter().map(|p| (p.task_id.clone(), p.state.clone())).collect();
    let processing_fifty = order.iter().position(|e| e.0 == FIFTY && e.1 == "processing").unwrap();
    let failed_twenty = order.iter().position(|e| e.0 == TWENTY && e.1 == "fail").unwrap();
    assert!(processing_fifty < failed_twenty);
    assert!(progress.iter().all(|p| p.total == 2));
}
