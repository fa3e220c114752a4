use vstd::prelude::*;

use crate::csv_data::{csv_error_is_transient, csv_error_text, CsvDataError};
use crate::reports::{report_error_text, ReportError, WorkbookPatch};
use crate::text::{clone_opt, concat, decimal, decimal_string, opt_view, push_str};

verus! {

pub const ACCURACY_CHECK_FAILURE_TITLE: &'static str = "Accuracy Check Failed";

#[derive(Debug, Clone)]
pub struct FailureLocation {
    pub workbook_path: String,
    pub sheet: String,
    pub cell: String,
}

#[derive(Debug, Clone)]
pub struct FailureDetail {
    pub title: String,
    pub message: String,
    pub location: Option<FailureLocation>,
}

#[derive(Debug, Clone)]
pub struct ProcessorResult {
    pub state: String,
    pub code: u8,
    pub message: String,
    pub log: Vec<String>,
    pub report_path: Option<String>,
    pub print_report_path: Option<String>,
    pub failure: Option<FailureDetail>,
    pub source_csv_path: Option<String>,
    pub csv_fingerprint: Option<String>,
}

#[derive(Debug, Clone)]
pub struct ProcessorTaskOutput {
    pub result: ProcessorResult,
    pub patches: Vec<WorkbookPatch>,
}

impl ProcessorTaskOutput {
    pub fn new(result: ProcessorResult, patches: Vec<WorkbookPatch>) -> (o: Self)
        ensures
            o.result == result,
            o.patches == patches,
    {
        ProcessorTaskOutput { result, patches }
    }

    /// An output with no workbook changes.
    pub fn result_only(result: ProcessorResult) -> (o: Self)
        ensures
            o.result == result,
            o.patches@.len() == 0,
    {
        ProcessorTaskOutput { result, patches: Vec::new() }
    }
}

/// A copy of a list of texts.
pub fn copy_strings(v: &Vec<String>) -> (r: Vec<String>)
    ensures
        r@ == v@,
{
    let mut r: Vec<String> = Vec::new();
    for i in 0..v.len()
        invariant
            r@ == v@.take(i as int),
    {
        r.push(v[i].clone());
        proof {
            assert(r@ =~= v@.take(i + 1));
        }
    }
    assert(v@.take(v@.len() as int) =~= v@);
    r
}

impl FailureLocation {
    pub fn duplicate(&self) -> (r: Self)
        ensures
            r == *self,
    {
        FailureLocation {
            workbook_path: self.workbook_path.clone(),
            sheet: self.sheet.clone(),
            cell: self.cell.clone(),
        }
    }
}

impl FailureDetail {
    pub fn duplicate(&self) -> (r: Self)
        ensures
            r == *self,
    {
        FailureDetail {
            title: self.title.clone(),
            message: self.message.clone(),
            location: match &self.location {
                Some(l) => Some(l.duplicate()),
                None => None,
            },
        }
    }
}

/// Two results that agree in every field, their logs line by line.
pub open spec fn same_result(a: ProcessorResult, b: ProcessorResult) -> bool {
    &&& a.state == b.state
    &&& a.code == b.code
    &&& a.message == b.message
    &&& a.log@ == b.log@
    &&& a.report_path == b.report_path
    &&& a.print_report_path == b.print_report_path
    &&& a.failure == b.failure
    &&& a.source_csv_path == b.source_csv_path
    &&& a.csv_fingerprint == b.csv_fingerprint
}

impl ProcessorResult {
    pub fn duplicate(&self) -> (r: Self)
        ensures
            same_result(r, *self),
    {
        ProcessorResult {
            state: self.state.clone(),
            code: self.code,
            message: self.message.clone(),
            log: copy_strings(&self.log),
            report_path: clone_opt(&self.report_path),
            print_report_path: clone_opt(&self.print_report_path),
            failure: match &self.failure {
                Some(f) => Some(f.duplicate()),
                None => None,
            },
            source_csv_path: clone_opt(&self.source_csv_path),
            csv_fingerprint: clone_opt(&self.csv_fingerprint),
        }
    }
}

/// The export a task was processed from, with its fingerprint.
#[derive(Debug, Clone)]
pub struct CsvSource {
    pub path: String,
    pub fingerprint: String,
}

/// A passing result: the reports written and the export read.
pub open spec fn is_success(
    r: ProcessorResult,
    message: Seq<char>,
    log: Seq<String>,
    report_path: Option<String>,
    print_report_path: Option<String>,
    source: Option<CsvSource>,
) -> bool {
    &&& r.state@ == "pass"@
    &&& r.code == 0
    &&& r.message@ == message
    &&& r.log@ == log
    &&& r.report_path == report_path
    &&& r.print_report_path == print_report_path
    &&& r.failure is None
    &&& r.source_csv_path == match source {
        Some(s) => Some(s.path),
        None => None,
    }
    &&& r.csv_fingerprint == match source {
        Some(s) => Some(s.fingerprint),
        None => None,
    }
}

pub fn success(
    message: String,
    log: Vec<String>,
    report_path: Option<String>,
    print_report_path: Option<String>,
    csv_source: Option<CsvSource>,
) -> (r: ProcessorResult)
    ensures
        is_success(r, message@, log@, report_path, print_report_path, csv_source),
{
    let (source_csv_path, csv_fingerprint) = match csv_source {
        Some(s) => (Some(s.path), Some(s.fingerprint)),
        None => (None, None),
    };
    ProcessorResult {
        state: "pass".to_owned(),
        code: 0,
        message,
        log,
        report_path,
        print_report_path,
        failure: None,
        source_csv_path,
        csv_fingerprint,
    }
}

/// A failed result: the values were written, the accuracy limits were not met.
pub fn failed(
    message: String,
    log: Vec<String>,
    report_path: Option<String>,
    print_report_path: Option<String>,
    failure: FailureDetail,
    csv_source: Option<CsvSource>,
) -> (r: ProcessorResult)
    ensures
        r.state@ == "fail"@,
        r.code == 1,
        r.message == message,
        r.log@ == log@,
        r.report_path == report_path,
        r.print_report_path == print_report_path,
        r.failure == Some(failure),
        r.source_csv_path == match csv_source {
            Some(s) => Some(s.path),
            None => None,
        },
        r.csv_fingerprint == match csv_source {
            Some(s) => Some(s.fingerprint),
            None => None,
        },
{
    let (source_csv_path, csv_fingerprint) = match csv_source {
        Some(s) => (Some(s.path), Some(s.fingerprint)),
        None => (None, None),
    };
    ProcessorResult {
        state: "fail".to_owned(),
        code: 1,
        message,
        log,
        report_path,
        print_report_path,
        failure: Some(failure),
        source_csv_path,
        csv_fingerprint,
    }
}

/// `<label> already processed from the same CSV; no workbook changes were applied`.
pub open spec fn already_processed_text(label: Seq<char>) -> Seq<char> {
    label + " already processed from the same CSV; no workbook changes were applied"@
}

/// `[idempotent] <label> already processed from <path> (<fingerprint>)`.
pub open spec fn idempotent_log_text(label: Seq<char>, path: Seq<char>, fingerprint: Seq<char>) -> Seq<char> {
    "[idempotent] "@ + label + " already processed from "@ + path + " ("@ + fingerprint + ")"@
}

/// A task whose export has the fingerprint it passed with before is done again without any
/// workbook change: a pass from the same export. `None` where the fingerprint differs or the
/// task had not passed.
pub fn idempotent_success(task_label: &str, csv_source: &CsvSource, already_processed_fingerprint: Option<
    &str,
>) -> (r: Option<ProcessorResult>)
    ensures
        match r {
            Some(res) => already_processed_fingerprint matches Some(f) && f@
                == csv_source.fingerprint@ && res.state@ == "pass"@ && res.code == 0
                && res.message@ == already_processed_text(task_label@) && res.log@.len() == 1
                && res.log@[0]@ == idempotent_log_text(
                task_label@,
                csv_source.path@,
                csv_source.fingerprint@,
            ) && res.report_path is None && res.print_report_path is None && res.failure is None
                && res.source_csv_path == Some(csv_source.path) && res.csv_fingerprint == Some(
                csv_source.fingerprint,
            ),
            None => !(already_processed_fingerprint matches Some(f) && f@ == csv_source.fingerprint@),
        },
{
    let same = match already_processed_fingerprint {
        Some(f) => crate::text::str_eq(f, csv_source.fingerprint.as_str()),
        None => false,
    };
    if !same {
        return None;
    }
    let message = concat(
        task_label,
        " already processed from the same CSV; no workbook changes were applied",
    );
    let mut line = String::new();
    push_str(&mut line, "[idempotent] ");
    push_str(&mut line, task_label);
    push_str(&mut line, " already processed from ");
    push_str(&mut line, csv_source.path.as_str());
    push_str(&mut line, " (");
    push_str(&mut line, csv_source.fingerprint.as_str());
    push_str(&mut line, ")");
    let source = CsvSource {
        path: csv_source.path.clone(),
        fingerprint: csv_source.fingerprint.clone(),
    };
    Some(success(message, vec![line], None, None, Some(source)))
}

/// The failure detail of a check: where the first failing value sits, if it is known.
pub fn failure_detail(title: &str, message: &str, workbook_path: &str, issue: Option<(&str, &str)>) -> (d:
    FailureDetail)
    ensures
        d.title@ == title@,
        d.message@ == message@,
        match issue {
            Some((sheet, cell)) => d.location matches Some(l) && l.workbook_path@ == workbook_path@
                && l.sheet@ == sheet@ && l.cell@ == cell@,
            None => d.location is None,
        },
{
    FailureDetail {
        title: title.to_owned(),
        message: message.to_owned(),
        location: match issue {
            Some((sheet, cell)) => Some(
                FailureLocation {
                    workbook_path: workbook_path.to_owned(),
                    sheet: sheet.to_owned(),
                    cell: cell.to_owned(),
                },
            ),
            None => None,
        },
    }
}

/// The texts joined with `; `.
pub open spec fn joined(parts: Seq<Seq<char>>, sep: Seq<char>) -> Seq<char>
    decreases parts.len(),
{
    if parts.len() == 0 {
        Seq::empty()
    } else if parts.len() == 1 {
        parts[0]
    } else {
        joined(parts.drop_last(), sep) + sep + parts.last()
    }
}

pub fn join_texts(parts: &Vec<String>, sep: &str) -> (s: String)
    ensures
        s@ == joined(crate::text::views(parts@), sep@),
{
    let ghost vs = crate::text::views(parts@);
    let mut s = String::new();
    for i in 0..parts.len()
        invariant
            vs == crate::text::views(parts@),
            s@ == joined(vs.take(i as int), sep@),
    {
        proof {
            assert(vs.take(i + 1).drop_last() =~= vs.take(i as int));
            assert(vs.take(i + 1).last() == parts@[i as int]@);
        }
        if i > 0 {
            push_str(&mut s, sep);
        } else {
            assert(vs.take(0) =~= Seq::<Seq<char>>::empty());
        }
        push_str(&mut s, parts[i].as_str());
        proof {
            if i == 0 {
                assert(s@ =~= joined(vs.take(1), sep@));
            }
        }
    }
    assert(vs.take(vs.len() as int) =~= vs);
    s
}

/// Why a task's processing did not get as far as the workbook.
#[derive(Debug, Clone)]
pub enum ProcessorError {
    Csv(CsvDataError),
    CsvNotReady(String),
    Config(String),
    Report(ReportError),
    MissingCsv(String),
}

pub open spec fn processor_error_text(e: ProcessorError) -> Seq<char> {
    match e {
        ProcessorError::Csv(c) => csv_error_text(c),
        ProcessorError::CsvNotReady(m) => m@,
        ProcessorError::Config(m) => m@,
        ProcessorError::Report(r) => report_error_text(r),
        ProcessorError::MissingCsv(m) => m@,
    }
}

/// An export problem: a busy export means waiting for it; anything else is a CSV error.
pub fn processor_error_from_csv(error: CsvDataError) -> (e: ProcessorError)
    ensures
        csv_error_is_transient(error) ==> (e matches ProcessorError::CsvNotReady(m) && m@
            == "CSV is still being written by ATS; waiting for it to unlock. "@ + csv_error_text(
            error,
        )),
        !csv_error_is_transient(error) ==> e == ProcessorError::Csv(error),
{
    if error.is_transient_file_access() {
        let text = error.message();
        ProcessorError::CsvNotReady(
            concat("CSV is still being written by ATS; waiting for it to unlock. ", text.as_str()),
        )
    } else {
        ProcessorError::Csv(error)
    }
}

impl ProcessorError {
    pub fn message(&self) -> (m: String)
        ensures
            m@ == processor_error_text(*self),
    {
        match self {
            ProcessorError::Csv(c) => c.message(),
            ProcessorError::CsvNotReady(m) => m.clone(),
            ProcessorError::Config(m) => m.clone(),
            ProcessorError::Report(r) => r.message(),
            ProcessorError::MissingCsv(m) => m.clone(),
        }
    }
}

/// The result a processing error leaves: waiting for a busy export (code 2), a warning for a
/// missing export (code 3), else a failure (code 1); never a pass.
pub open spec fn error_result_of(error: ProcessorError, r: ProcessorResult) -> bool {
    &&& r.log@.len() == 0
    &&& r.report_path is None && r.print_report_path is None
    &&& r.source_csv_path is None && r.csv_fingerprint is None
    &&& r.message@ == processor_error_text(error)
    &&& match error {
        ProcessorError::CsvNotReady(_) => r.state@ == "waiting"@ && r.code == 2 && r.failure is None,
        ProcessorError::MissingCsv(m) => r.state@ == "warning"@ && r.code == 3 && (r.failure matches Some(
            f,
        ) && f.title@ == "CSV Not Found"@ && f.message@ == m@ && f.location is None),
        _ => r.state@ == "fail"@ && r.code == 1 && (r.failure matches Some(f) && f.title@
            == "Processing Error"@ && f.message@ == processor_error_text(error) && f.location is None),
    }
}

pub fn processor_error_result(error: ProcessorError) -> (r: ProcessorResult)
    ensures
        error_result_of(error, r),
{
    let message = error.message();
    let (state, code, failure) = match &error {
        ProcessorError::CsvNotReady(_) => ("waiting", 2u8, None),
        ProcessorError::MissingCsv(m) => (
            "warning",
            3u8,
            Some(FailureDetail { title: "CSV Not Found".to_owned(), message: m.clone(), location: None }),
        ),
        _ => (
            "fail",
            1u8,
            Some(
                FailureDetail {
                    title: "Processing Error".to_owned(),
                    message: message.clone(),
                    location: None,
                },
            ),
        ),
    };
    ProcessorResult {
        state: state.to_owned(),
        code,
        message,
        log: Vec::new(),
        report_path: None,
        print_report_path: None,
        failure,
        source_csv_path: None,
        csv_fingerprint: None,
    }
}

/// `<label>: no matching STEP<n> CSV found under <folder>`.
pub fn missing_csv_error(task_label: &str, step: u16, unit_folder: &str) -> (e: ProcessorError)
    ensures
        e matches ProcessorError::MissingCsv(m) && m@ == task_label@ + ": no matching STEP"@
            + decimal(step as nat) + " CSV found under "@ + unit_folder@,
{
    let mut m = String::new();
    push_str(&mut m, task_label);
    push_str(&mut m, ": no matching STEP");
    let d = decimal_string(step as u128);
    push_str(&mut m, d.as_str());
    push_str(&mut m, " CSV found under ");
    push_str(&mut m, unit_folder);
    ProcessorError::MissingCsv(m)
}

/// What a task's computation gives back: a report error stops it; any other error becomes the
/// task's result, with no workbook changes.
pub fn compute_outcome(attempt: Result<ProcessorTaskOutput, ProcessorError>) -> (r: Result<
    ProcessorTaskOutput,
    ReportError,
>)
    ensures
        match attempt {
            Ok(o) => r == Ok::<ProcessorTaskOutput, ReportError>(o),
            Err(ProcessorError::Report(e)) => r == Err::<ProcessorTaskOutput, ReportError>(e),
            Err(e) => r matches Ok(o) && o.patches@.len() == 0 && error_result_of(e, o.result),
        },
{
    match attempt {
        Ok(o) => Ok(o),
        Err(ProcessorError::Report(e)) => Err(e),
        Err(e) => Ok(ProcessorTaskOutput::result_only(processor_error_result(e))),
    }
}

/// A value that missed its accuracy limit, and the report cell it was written to.
#[derive(Debug, Clone)]
pub struct VerificationIssue {
    pub message: String,
    pub sheet: String,
    pub cell: String,
}

impl VerificationIssue {
    pub fn new(message: &str, sheet: &str, cell: &str) -> (i: Self)
        ensures
            i.message@ == message@,
            i.sheet@ == sheet@,
            i.cell@ == cell@,
    {
        VerificationIssue { message: message.to_owned(), sheet: sheet.to_owned(), cell: cell.to_owned() }
    }
}

pub open spec fn issue_messages(issues: Seq<VerificationIssue>) -> Seq<Seq<char>> {
    issues.map_values(|i: VerificationIssue| i.message@)
}

/// The issues' messages joined with `; `.
pub fn verification_messages(issues: &Vec<VerificationIssue>) -> (s: String)
    ensures
        s@ == joined(issue_messages(issues@), "; "@),
{
    let mut parts: Vec<String> = Vec::new();
    for i in 0..issues.len()
        invariant
            crate::text::views(parts@) == issue_messages(issues@.take(i as int)),
    {
        let ghost before = parts@;
        parts.push(issues[i].message.clone());
        proof {
            assert(crate::text::views(parts@) =~= crate::text::views(before).push(issues@[i as int].message@));
            assert(issue_messages(issues@.take(i + 1)) =~= issue_messages(issues@.take(i as int)).push(
                issues@[i as int].message@,
            ));
        }
    }
    assert(issues@.take(issues@.len() as int) =~= issues@);
    join_texts(&parts, "; ")
}

/// `<subject> verification failed: <messages>`.
pub open spec fn verification_failed_text(subject: Seq<char>, issues: Seq<VerificationIssue>) -> Seq<char> {
    subject + " verification failed: "@ + joined(issue_messages(issues), "; "@)
}

/// The outcome of a checked task once its values are written: a pass when no value missed its
/// limit, else a failure that lists every issue and points at the first one's cell. Either way
/// the workbook changes are kept, and the log gains the verdict (`[tag] Verification Result:
/// PASS`) or one `[tag] <issue>` line per issue.
pub fn checked_outcome(
    subject: &str,
    tag: &str,
    issues: &Vec<VerificationIssue>,
    log: Vec<String>,
    report_path: String,
    csv_source: CsvSource,
    patches: Vec<WorkbookPatch>,
) -> (o: ProcessorTaskOutput)
    ensures
        o.patches == patches,
        o.result.report_path == Some(report_path),
        o.result.print_report_path is None,
        o.result.source_csv_path == Some(csv_source.path),
        o.result.csv_fingerprint == Some(csv_source.fingerprint),
        issues@.len() == 0 ==> {
            &&& o.result.state@ == "pass"@
            &&& o.result.code == 0
            &&& o.result.failure is None
            &&& o.result.message@ == subject@ + " processed successfully"@
            &&& crate::text::views(o.result.log@) == crate::text::views(log@).push(
                "["@ + tag@ + "] Verification Result: PASS"@,
            )
        },
        issues@.len() > 0 ==> {
            &&& o.result.state@ == "fail"@
            &&& o.result.code == 1
            &&& o.result.message@ == verification_failed_text(subject@, issues@)
            &&& o.result.failure is Some
            &&& o.result.failure->0.title@ == "Accuracy Check Failed"@
            &&& o.result.failure->0.message@ == verification_failed_text(subject@, issues@)
            &&& o.result.failure->0.location is Some
            &&& o.result.failure->0.location->0.workbook_path@ == report_path@
            &&& o.result.failure->0.location->0.sheet@ == issues@[0].sheet@
            &&& o.result.failure->0.location->0.cell@ == issues@[0].cell@
            &&& crate::text::views(o.result.log@) == crate::text::views(log@) + issues@.map_values(
                |i: VerificationIssue| "["@ + tag@ + "] "@ + i.message@,
            )
        },
{
    let mut log = log;
    if issues.len() == 0 {
        let ghost before = log@;
        let mut line = String::new();
        push_str(&mut line, "[");
        push_str(&mut line, tag);
        push_str(&mut line, "] Verification Result: PASS");
        log.push(line);
        proof {
            assert(crate::text::views(log@) =~= crate::text::views(before).push(
                "["@ + tag@ + "] Verification Result: PASS"@,
            ));
        }
        let message = concat(subject, " processed successfully");
        return ProcessorTaskOutput::new(
            success(message, log, Some(report_path), None, Some(csv_source)),
            patches,
        );
    }
    let ghost log0 = log@;
    for i in 0..issues.len()
        invariant
            crate::text::views(log@) == crate::text::views(log0) + issues@.take(i as int).map_values(
                |x: VerificationIssue| "["@ + tag@ + "] "@ + x.message@,
            ),
    {
        let ghost before = log@;
        let mut line = String::new();
        push_str(&mut line, "[");
        push_str(&mut line, tag);
        push_str(&mut line, "] ");
        push_str(&mut line, issues[i].message.as_str());
        log.push(line);
        proof {
            assert(crate::text::views(log@) =~= crate::text::views(before).push(line@));
            assert(issues@.take(i + 1).map_values(|x: VerificationIssue| "["@ + tag@ + "] "@ + x.message@)
                =~= issues@.take(i as int).map_values(
                |x: VerificationIssue| "["@ + tag@ + "] "@ + x.message@,
            ).push(line@));
        }
    }
    assert(issues@.take(issues@.len() as int) =~= issues@);
    let text = verification_messages(issues);
    let mut message = String::new();
    push_str(&mut message, subject);
    push_str(&mut message, " verification failed: ");
    push_str(&mut message, text.as_str());
    let first = &issues[0];
    let failure = failure_detail(
        ACCURACY_CHECK_FAILURE_TITLE,
        message.as_str(),
        report_path.as_str(),
        Some((first.sheet.as_str(), first.cell.as_str())),
    );
    proof {
        reveal_strlit("Accuracy Check Failed");
    }
    ProcessorTaskOutput::new(
        failed(message, log, Some(report_path), None, failure, Some(csv_source)),
        patches,
    )
}

} // verus!
