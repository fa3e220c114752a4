use vstd::prelude::*;

use crate::io_error::{IoFailure, IoKind};
use crate::processors::{FailureDetail, ProcessorResult, ACCURACY_CHECK_FAILURE_TITLE};
use crate::profile::{layout_error_text, LayoutProfileError};
use crate::readiness::TaskWaitPhase;
use crate::reports::{is_locked_file_error, locked_io, report_error_text, ReportError};
use crate::text::{concat, opt_view, push_str, str_eq};

verus! {

/// What a command reports to the operator when it fails: a stable code, a message and, where
/// there is one, the underlying error's text.
#[derive(Debug, Clone)]
pub struct AutomationCommandError {
    pub code: String,
    pub message: String,
    pub details: Option<String>,
}

#[derive(Debug, Clone)]
pub struct UnitFolderSummary {
    pub unit_folder: String,
    pub serial_number: Option<String>,
    pub report_path: Option<String>,
    pub print_report_path: Option<String>,
    pub detected_count: usize,
    pub tasks: Vec<TaskStatus>,
    pub warnings: Vec<String>,
}

/// One task as a scan of the unit folder shows it.
#[derive(Debug, Clone)]
pub struct TaskStatus {
    pub task_id: String,
    pub label: String,
    pub step: String,
    pub state: String,
    pub detected_steps: Vec<u16>,
    pub latest_csv: Option<String>,
    pub latest_csv_created_ms: Option<u64>,
    pub latest_csv_readable: Option<bool>,
    pub timer_start_ms: Option<u64>,
    pub processable: bool,
    pub process_ready: bool,
    pub wait_phase: TaskWaitPhase,
    pub phase_deadline_ms: Option<u64>,
    pub pending_duration_seconds: u64,
    pub nominal_duration_seconds: u64,
    pub match_reason: String,
    pub source_csv_path: Option<String>,
    pub csv_fingerprint: Option<String>,
    pub processed_at: Option<String>,
    pub result: Option<String>,
    pub accepted: bool,
}

/// The outcome of processing one task.
#[derive(Debug, Clone)]
pub struct TaskProcessResult {
    pub task_id: String,
    pub state: String,
    pub code: u8,
    pub continue_sequence: bool,
    pub message: String,
    pub log: Vec<String>,
    pub report_path: Option<String>,
    pub print_report_path: Option<String>,
    pub failure: Option<FailureDetail>,
    pub source_csv_path: Option<String>,
    pub csv_fingerprint: Option<String>,
}

#[derive(Debug, Clone)]
pub struct TaskBatchProcessResult {
    pub results: Vec<TaskProcessResult>,
    pub committed: bool,
    pub committed_count: usize,
    pub stopped_task_id: Option<String>,
    pub message: String,
}

#[derive(Debug, Clone)]
pub struct TaskBatchProgress {
    pub unit_folder: String,
    pub task_id: String,
    pub state: String,
    pub message: String,
    pub index: usize,
    pub total: usize,
}

#[derive(Debug, Clone)]
pub struct CloseReportWorkbookResult {
    pub closed: bool,
    pub path: String,
    pub message: String,
}

#[derive(Debug, Clone)]
pub struct PrintReadinessResult {
    pub ready: bool,
    pub message: String,
    pub blocking_issues: Vec<PrintReadinessBlocker>,
}

#[derive(Debug, Clone)]
pub struct PrintReadinessBlocker {
    pub task_id: Option<String>,
    pub label: Option<String>,
    pub code: String,
    pub reason: String,
}

/// A result lets a batch go on past it when it is a failed accuracy check: the values were
/// written and the operator decides later.
pub open spec fn continues_sequence(r: ProcessorResult) -> bool {
    r.state@ == "fail"@ && match r.failure {
        Some(f) => f.title@ == ACCURACY_CHECK_FAILURE_TITLE@,
        None => false,
    }
}

pub fn processor_result_continues_sequence(result: &ProcessorResult) -> (b: bool)
    ensures
        b == continues_sequence(*result),
{
    str_eq(result.state.as_str(), "fail") && match &result.failure {
        Some(f) => str_eq(f.title.as_str(), ACCURACY_CHECK_FAILURE_TITLE),
        None => false,
    }
}

/// The result of a task as the commands report it.
pub fn to_task_process_result(task_id: String, result: ProcessorResult) -> (r: TaskProcessResult)
    ensures
        r.task_id == task_id,
        r.state == result.state,
        r.code == result.code,
        r.continue_sequence == continues_sequence(result),
        r.message == result.message,
        r.log == result.log,
        r.report_path == result.report_path,
        r.print_report_path == result.print_report_path,
        r.failure == result.failure,
        r.source_csv_path == result.source_csv_path,
        r.csv_fingerprint == result.csv_fingerprint,
{
    let continue_sequence = processor_result_continues_sequence(&result);
    TaskProcessResult {
        task_id,
        state: result.state,
        code: result.code,
        continue_sequence,
        message: result.message,
        log: result.log,
        report_path: result.report_path,
        print_report_path: result.print_report_path,
        failure: result.failure,
        source_csv_path: result.source_csv_path,
        csv_fingerprint: result.csv_fingerprint,
    }
}

/// Why an automation command failed.
#[derive(Debug, Clone)]
pub enum AutomationError {
    Report(ReportError),
    UnitState(IoFailure),
    LayoutProfile(LayoutProfileError),
    UnknownTask(String),
    TaskAcceptance(String),
    OpenReport(String),
}

pub open spec fn automation_error_text(e: AutomationError) -> Seq<char> {
    match e {
        AutomationError::Report(r) => report_error_text(r),
        AutomationError::UnitState(io) => "unit state could not be read or written: "@ + io.message@,
        AutomationError::LayoutProfile(l) => layout_error_text(l),
        AutomationError::UnknownTask(id) => "unknown automation task id: "@ + id@,
        AutomationError::TaskAcceptance(m) => m@,
        AutomationError::OpenReport(m) => m@,
    }
}

impl AutomationError {
    pub fn message(&self) -> (m: String)
        ensures
            m@ == automation_error_text(*self),
    {
        match self {
            AutomationError::Report(r) => r.message(),
            AutomationError::UnitState(io) => concat(
                "unit state could not be read or written: ",
                io.message.as_str(),
            ),
            AutomationError::LayoutProfile(l) => l.message(),
            AutomationError::UnknownTask(id) => concat("unknown automation task id: ", id.as_str()),
            AutomationError::TaskAcceptance(m) => m.clone(),
            AutomationError::OpenReport(m) => m.clone(),
        }
    }
}

/// The command error's parts as texts.
pub open spec fn command_error_is(
    e: AutomationCommandError,
    code: Seq<char>,
    message: Seq<char>,
    details: Option<Seq<char>>,
) -> bool {
    e.code@ == code && e.message@ == message && opt_view(e.details) == details
}

impl AutomationCommandError {
    /// An error in what the operator entered: no details.
    pub fn validation(code: &str, message: &str) -> (e: Self)
        ensures
            command_error_is(e, code@, message@, None),
    {
        AutomationCommandError { code: code.to_owned(), message: message.to_owned(), details: None }
    }

    /// An error of the report or the files, with the underlying error's text.
    pub fn report(code: &str, message: &str, details: String) -> (e: Self)
        ensures
            command_error_is(e, code@, message@, Some(details@)),
    {
        AutomationCommandError {
            code: code.to_owned(),
            message: message.to_owned(),
            details: Some(details),
        }
    }

    /// The print dialog could not be opened.
    pub fn print_dialog(message: &str, details: String) -> (e: Self)
        ensures
            command_error_is(e, "print_dialog_failed"@, message@, Some(details@)),
    {
        AutomationCommandError {
            code: "print_dialog_failed".to_owned(),
            message: message.to_owned(),
            details: Some(details),
        }
    }

    /// The report is not ready to print: the readiness message, with the blockers as JSON
    /// (`details`, serialized by the caller) where that succeeded.
    pub fn print_readiness(readiness: &PrintReadinessResult, details: Option<String>) -> (e: Self)
        ensures
            e.code@ == "print_validation_failed"@,
            e.message == readiness.message,
            e.details == details,
    {
        AutomationCommandError {
            code: "print_validation_failed".to_owned(),
            message: readiness.message.clone(),
            details,
        }
    }
}

/// The code and message for a main-report error.
pub open spec fn main_report_error_parts(e: ReportError) -> (Seq<char>, Seq<char>) {
    match e {
        ReportError::Io(io) => if locked_io(io) {
            (
                "workbook_locked"@,
                "The main report workbook is locked or open in another program. Close Excel or ATS access to the report and try again."@,
            )
        } else {
            ("report_io_failed"@, "The report workbook could not be read or written."@)
        },
        ReportError::WorkbookLocked(_) => (
            "workbook_busy"@,
            "The main report workbook is locked by another app operation. Wait for the current write to finish and try again."@,
        ),
        ReportError::Zip { io: Some(io), .. } if locked_io(io) => (
            "workbook_locked"@,
            "The main report workbook is locked or open in another program. Close Excel or ATS access to the report and try again."@,
        ),
        ReportError::MainReportMissing(_) => (
            "main_report_missing"@,
            "The main report workbook was not found. Check the selected unit folder and report template setup."@,
        ),
        ReportError::SheetMissing(sheet) => (
            "report_sheet_missing"@,
            "The main report workbook is missing the required sheet '"@ + sheet@ + "'."@,
        ),
        ReportError::InvalidCell(cell) => (
            "report_cell_invalid"@,
            "The required report cell '"@ + cell@ + "' is invalid."@,
        ),
        ReportError::UnitFolderMissing(_) => (
            "unit_folder_missing"@,
            "The selected unit folder does not exist."@,
        ),
        _ => (
            "report_write_failed"@,
            "The Transformer SN could not be written to the report workbook."@,
        ),
    }
}

fn zip_locked(e: &ReportError) -> (b: bool)
    ensures
        b == (*e matches ReportError::Zip { io: Some(io), .. } && locked_io(io)),
{
    match e {
        ReportError::Zip { io: Some(io), .. } => is_locked_file_error(io),
        _ => false,
    }
}

/// Builds `head + middle + tail`.
fn join3(head: &str, middle: &str, tail: &str) -> (s: String)
    ensures
        s@ == head@ + middle@ + tail@,
{
    let mut s = String::new();
    push_str(&mut s, head);
    push_str(&mut s, middle);
    push_str(&mut s, tail);
    s
}

impl AutomationCommandError {
    /// The command error for a failure on the main report.
    pub fn from_report_error(error: ReportError) -> (e: Self)
        ensures
            command_error_is(
                e,
                main_report_error_parts(error).0,
                main_report_error_parts(error).1,
                Some(report_error_text(error)),
            ),
    {
        let details = error.message();
        if zip_locked(&error) {
            return Self::report(
                "workbook_locked",
                "The main report workbook is locked or open in another program. Close Excel or ATS access to the report and try again.",
                details,
            );
        }
        match &error {
            ReportError::Io(io) => if is_locked_file_error(io) {
                Self::report(
                    "workbook_locked",
                    "The main report workbook is locked or open in another program. Close Excel or ATS access to the report and try again.",
                    details,
                )
            } else {
                Self::report(
                    "report_io_failed",
                    "The report workbook could not be read or written.",
                    details,
                )
            },
            ReportError::WorkbookLocked(_) => Self::report(
                "workbook_busy",
                "The main report workbook is locked by another app operation. Wait for the current write to finish and try again.",
                details,
            ),
            ReportError::MainReportMissing(_) => Self::report(
                "main_report_missing",
                "The main report workbook was not found. Check the selected unit folder and report template setup.",
                details,
            ),
            ReportError::SheetMissing(sheet) => {
                let message = join3(
                    "The main report workbook is missing the required sheet '",
                    sheet.as_str(),
                    "'.",
                );
                Self::report("report_sheet_missing", message.as_str(), details)
            },
            ReportError::InvalidCell(cell) => {
                let message = join3("The required report cell '", cell.as_str(), "' is invalid.");
                Self::report("report_cell_invalid", message.as_str(), details)
            },
            ReportError::UnitFolderMissing(_) => Self::report(
                "unit_folder_missing",
                "The selected unit folder does not exist.",
                details,
            ),
            _ => Self::report(
                "report_write_failed",
                "The Transformer SN could not be written to the report workbook.",
                details,
            ),
        }
    }
}

/// The code and message for a print-report error.
pub open spec fn print_report_error_parts(e: ReportError) -> (Seq<char>, Seq<char>) {
    match e {
        ReportError::Io(io) => if locked_io(io) {
            (
                "workbook_locked"@,
                "The print report workbook is locked or open in another program. Close Excel or ATS access to the report and try again."@,
            )
        } else {
            ("report_io_failed"@, "The print report workbook could not be read or written."@)
        },
        ReportError::WorkbookLocked(_) => (
            "workbook_busy"@,
            "The print report workbook is locked by another app operation. Wait for the current write to finish and try again."@,
        ),
        ReportError::Zip { io: Some(io), .. } if locked_io(io) => (
            "workbook_locked"@,
            "The print report workbook is locked or open in another program. Close Excel or ATS access to the report and try again."@,
        ),
        ReportError::PrintReportMissing(_) => (
            "print_report_missing"@,
            "The print report workbook was not found. Check the selected unit folder and report template setup."@,
        ),
        ReportError::MainReportMissing(_) => (
            "main_report_missing"@,
            "The main report workbook was not found. Check the selected unit folder and report template setup."@,
        ),
        ReportError::SheetMissing(sheet) => (
            "report_sheet_missing"@,
            "The print report workbook is missing the required sheet '"@ + sheet@ + "'."@,
        ),
        ReportError::InvalidCell(cell) => (
            "report_cell_invalid"@,
            "The required print report cell '"@ + cell@ + "' is invalid."@,
        ),
        ReportError::UnitFolderMissing(_) => (
            "unit_folder_missing"@,
            "The selected unit folder does not exist."@,
        ),
        _ => (
            "print_report_write_failed"@,
            "The final operator name could not be written to the print report workbook."@,
        ),
    }
}

impl AutomationCommandError {
    /// The command error for a failure on the print report.
    pub fn from_print_report_error(error: ReportError) -> (e: Self)
        ensures
            command_error_is(
                e,
                print_report_error_parts(error).0,
                print_report_error_parts(error).1,
                Some(report_error_text(error)),
            ),
    {
        let details = error.message();
        if zip_locked(&error) {
            return Self::report(
                "workbook_locked",
                "The print report workbook is locked or open in another program. Close Excel or ATS access to the report and try again.",
                details,
            );
        }
        match &error {
            ReportError::Io(io) => if is_locked_file_error(io) {
                Self::report(
                    "workbook_locked",
                    "The print report workbook is locked or open in another program. Close Excel or ATS access to the report and try again.",
                    details,
                )
            } else {
                Self::report(
                    "report_io_failed",
                    "The print report workbook could not be read or written.",
                    details,
                )
            },
            ReportError::WorkbookLocked(_) => Self::report(
                "workbook_busy",
                "The print report workbook is locked by another app operation. Wait for the current write to finish and try again.",
                details,
            ),
            ReportError::PrintReportMissing(_) => Self::report(
                "print_report_missing",
                "The print report workbook was not found. Check the selected unit folder and report template setup.",
                details,
            ),
            ReportError::MainReportMissing(_) => Self::report(
                "main_report_missing",
                "The main report workbook was not found. Check the selected unit folder and report template setup.",
                details,
            ),
            ReportError::SheetMissing(sheet) => {
                let message = join3(
                    "The print report workbook is missing the required sheet '",
                    sheet.as_str(),
                    "'.",
                );
                Self::report("report_sheet_missing", message.as_str(), details)
            },
            ReportError::InvalidCell(cell) => {
                let message = join3(
                    "The required print report cell '",
                    cell.as_str(),
                    "' is invalid.",
                );
                Self::report("report_cell_invalid", message.as_str(), details)
            },
            ReportError::UnitFolderMissing(_) => Self::report(
                "unit_folder_missing",
                "The selected unit folder does not exist.",
                details,
            ),
            _ => Self::report(
                "print_report_write_failed",
                "The final operator name could not be written to the print report workbook.",
                details,
            ),
        }
    }
}

/// Another write of this library holds the unit state: sharing, lock or mapped-section
/// violations, or a would-block.
pub open spec fn unit_state_locked(e: IoFailure) -> bool {
    e.raw_os_error == Some(32i32) || e.raw_os_error == Some(33i32) || e.raw_os_error == Some(1224i32)
        || e.kind == IoKind::WouldBlock
}

pub open spec fn unit_state_error_parts(e: IoFailure) -> (Seq<char>, Seq<char>) {
    if e.kind == IoKind::InvalidData {
        (
            "unit_state_corrupt"@,
            "The saved unit state is corrupt and cannot be used. Stop and repair unit_state.json before continuing."@,
        )
    } else if unit_state_locked(e) {
        (
            "unit_state_locked"@,
            "The saved unit state is locked by another app operation. Wait for the current state write to finish and try again."@,
        )
    } else if e.kind == IoKind::PermissionDenied {
        (
            "unit_state_unreadable"@,
            "The saved unit state could not be read or written because Windows denied access."@,
        )
    } else {
        ("unit_state_io_failed"@, "The saved unit state could not be read or written."@)
    }
}

impl AutomationCommandError {
    /// The command error for a failure on the unit state file.
    pub fn from_unit_state_error(error: IoFailure) -> (e: Self)
        ensures
            command_error_is(
                e,
                unit_state_error_parts(error).0,
                unit_state_error_parts(error).1,
                Some(error.message@),
            ),
    {
        let locked = match error.raw_os_error {
            Some(c) => c == 32 || c == 33 || c == 1224,
            None => false,
        } || matches!(error.kind, IoKind::WouldBlock);
        if matches!(error.kind, IoKind::InvalidData) {
            Self::report(
                "unit_state_corrupt",
                "The saved unit state is corrupt and cannot be used. Stop and repair unit_state.json before continuing.",
                error.message,
            )
        } else if locked {
            Self::report(
                "unit_state_locked",
                "The saved unit state is locked by another app operation. Wait for the current state write to finish and try again.",
                error.message,
            )
        } else if matches!(error.kind, IoKind::PermissionDenied) {
            Self::report(
                "unit_state_unreadable",
                "The saved unit state could not be read or written because Windows denied access.",
                error.message,
            )
        } else {
            Self::report(
                "unit_state_io_failed",
                "The saved unit state could not be read or written.",
                error.message,
            )
        }
    }

    /// The command error for a layout profile that could not be loaded.
    pub fn from_layout_profile_error(error: LayoutProfileError) -> (e: Self)
        ensures
            command_error_is(
                e,
                match error {
                    LayoutProfileError::ReadFailed { .. } => "layout_profile_read_failed"@,
                    LayoutProfileError::InvalidJson { .. } => "layout_profile_invalid_json"@,
                    LayoutProfileError::InvalidProfile { .. } => "layout_profile_invalid"@,
                },
                "The report layout profile could not be loaded. Fix the configured layout profile before continuing."@,
                Some(layout_error_text(error)),
            ),
    {
        let code = match &error {
            LayoutProfileError::ReadFailed { .. } => "layout_profile_read_failed",
            LayoutProfileError::InvalidJson { .. } => "layout_profile_invalid_json",
            LayoutProfileError::InvalidProfile { .. } => "layout_profile_invalid",
        };
        Self::report(
            code,
            "The report layout profile could not be loaded. Fix the configured layout profile before continuing.",
            error.message(),
        )
    }

    /// The command error for any automation failure.
    pub fn from_automation_error(error: AutomationError) -> (e: Self)
        ensures
            match error {
                AutomationError::Report(r) => command_error_is(
                    e,
                    main_report_error_parts(r).0,
                    main_report_error_parts(r).1,
                    Some(report_error_text(r)),
                ),
                AutomationError::UnitState(io) => command_error_is(
                    e,
                    unit_state_error_parts(io).0,
                    unit_state_error_parts(io).1,
                    Some(io.message@),
                ),
                AutomationError::LayoutProfile(l) => e.code@ == match l {
                    LayoutProfileError::ReadFailed { .. } => "layout_profile_read_failed"@,
                    LayoutProfileError::InvalidJson { .. } => "layout_profile_invalid_json"@,
                    LayoutProfileError::InvalidProfile { .. } => "layout_profile_invalid"@,
                } && opt_view(e.details) == Some(layout_error_text(l)),
                AutomationError::UnknownTask(id) => command_error_is(
                    e,
                    "unknown_task"@,
                    "Unknown automation task id: "@ + id@,
                    None,
                ),
                AutomationError::TaskAcceptance(m) => command_error_is(
                    e,
                    "task_not_acceptable"@,
                    m@,
                    None,
                ),
                AutomationError::OpenReport(m) => command_error_is(
                    e,
                    "automation_failed"@,
                    "The requested automation action could not be completed."@,
                    Some(m@),
                ),
            },
    {
        match error {
            AutomationError::Report(r) => Self::from_report_error(r),
            AutomationError::UnitState(io) => Self::from_unit_state_error(io),
            AutomationError::LayoutProfile(l) => Self::from_layout_profile_error(l),
            AutomationError::UnknownTask(id) => {
                let message = concat("Unknown automation task id: ", id.as_str());
                Self::validation("unknown_task", message.as_str())
            },
            AutomationError::TaskAcceptance(m) => Self::validation("task_not_acceptable", m.as_str()),
            AutomationError::OpenReport(m) => Self::report(
                "automation_failed",
                "The requested automation action could not be completed.",
                m,
            ),
        }
    }
}

} // verus!
