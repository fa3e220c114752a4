use vstd::prelude::*;

use crate::automation::AutomationError;
use crate::processors::{already_processed_text, idempotent_log_text, ProcessorResult};
use crate::text::{chars_of, concat, push_str, str_eq, views};
use crate::unit_state::{processed_fingerprint, tasks_view, UnitState};

verus! {

/// A canonical path as the checks read it: how it is shown, its components in order, and its
/// extension where it has one in UTF-8.
#[derive(Debug, Clone)]
pub struct PathModel {
    pub display: String,
    pub components: Vec<String>,
    pub extension: Option<String>,
}

pub open spec fn ascii_lower(c: char) -> char {
    if 'A' <= c <= 'Z' {
        ((c as u32) + 32) as char
    } else {
        c
    }
}

/// The text with its ASCII letters in lower case, as `str::to_ascii_lowercase` gives it.
pub open spec fn lower(s: Seq<char>) -> Seq<char> {
    s.map_values(|c: char| ascii_lower(c))
}

/// An Excel workbook's extension: `xlsx`, `xlsm` or `xls`, in any case.
pub open spec fn excel_extension(ext: Option<String>) -> bool {
    match ext {
        Some(e) => lower(e@) == "xlsx"@ || lower(e@) == "xlsm"@ || lower(e@) == "xls"@,
        None => false,
    }
}

/// The folder's components begin the path's, one for one.
pub open spec fn starts_with_components(path: Seq<Seq<char>>, folder: Seq<Seq<char>>) -> bool {
    folder.len() <= path.len() && path.take(folder.len() as int) == folder
}

fn lower_text(s: &str) -> (out: String)
    ensures
        out@ == lower(s@),
{
    let cs = chars_of(s);
    let mut out = String::new();
    for i in 0..cs.len()
        invariant
            cs@ == s@,
            out@ == lower(s@.take(i as int)),
    {
        let c = cs[i];
        let l = if 'A' <= c && c <= 'Z' {
            ((c as u32) + 32) as u8 as char
        } else {
            c
        };
        out.push(l);
        proof {
            assert(lower(s@.take(i + 1)) =~= lower(s@.take(i as int)).push(ascii_lower(s@[i as int])));
        }
    }
    assert(s@.take(s@.len() as int) =~= s@);
    out
}

fn is_excel_extension(ext: &Option<String>) -> (b: bool)
    ensures
        b == excel_extension(*ext),
{
    match ext {
        Some(e) => {
            let l = lower_text(e.as_str());
            str_eq(l.as_str(), "xlsx") || str_eq(l.as_str(), "xlsm") || str_eq(l.as_str(), "xls")
        },
        None => false,
    }
}

fn starts_with_path(path: &Vec<String>, folder: &Vec<String>) -> (b: bool)
    ensures
        b == starts_with_components(views(path@), views(folder@)),
{
    if folder.len() > path.len() {
        return false;
    }
    for i in 0..folder.len()
        invariant
            folder@.len() <= path@.len(),
            forall|k: int| 0 <= k < i ==> path@[k]@ == folder@[k]@,
    {
        if !str_eq(path[i].as_str(), folder[i].as_str()) {
            assert(views(path@).take(folder@.len() as int)[i as int] != views(folder@)[i as int]);
            return false;
        }
    }
    assert(views(path@).take(folder@.len() as int) =~= views(folder@));
    true
}

pub open spec fn open_report_error(e: AutomationError, text: Seq<char>) -> bool {
    e matches AutomationError::OpenReport(m) && m@ == text
}

/// The validation before a report is opened or closed: both paths canonical (an error there is
/// passed on as its text), the unit folder a folder (`unit_is_dir`), the report a file
/// (`report_is_file`) inside the folder, and an Excel workbook by its extension. Gives the
/// report's canonical path.
pub fn validate_report_path(
    unit_folder: Result<PathModel, String>,
    report: Result<PathModel, String>,
    unit_is_dir: bool,
    report_is_file: bool,
) -> (r: Result<String, AutomationError>)
    ensures
        match (unit_folder, report) {
            (Err(e), _) => r matches Err(x) && open_report_error(x, e@),
            (Ok(_), Err(e)) => r matches Err(x) && open_report_error(x, e@),
            (Ok(u), Ok(p)) => if !unit_is_dir {
                r matches Err(x) && open_report_error(
                    x,
                    "unit folder does not exist: "@ + u.display@,
                )
            } else if !report_is_file {
                r matches Err(x) && open_report_error(
                    x,
                    "report file does not exist: "@ + p.display@,
                )
            } else if !starts_with_components(views(p.components@), views(u.components@)) {
                r matches Err(x) && open_report_error(
                    x,
                    "report is outside the selected unit folder: "@ + p.display@,
                )
            } else if !excel_extension(p.extension) {
                r matches Err(x) && open_report_error(
                    x,
                    "report file must be an Excel workbook: "@ + p.display@,
                )
            } else {
                r matches Ok(s) && s@ == p.display@
            },
        },
{
    let unit = match unit_folder {
        Ok(u) => u,
        Err(e) => {
            return Err(AutomationError::OpenReport(e));
        },
    };
    let path = match report {
        Ok(p) => p,
        Err(e) => {
            return Err(AutomationError::OpenReport(e));
        },
    };
    if !unit_is_dir {
        return Err(
            AutomationError::OpenReport(concat("unit folder does not exist: ", unit.display.as_str())),
        );
    }
    if !report_is_file {
        return Err(
            AutomationError::OpenReport(concat("report file does not exist: ", path.display.as_str())),
        );
    }
    if !starts_with_path(&path.components, &unit.components) {
        return Err(
            AutomationError::OpenReport(
                concat("report is outside the selected unit folder: ", path.display.as_str()),
            ),
        );
    }
    if !is_excel_extension(&path.extension) {
        return Err(
            AutomationError::OpenReport(
                concat("report file must be an Excel workbook: ", path.display.as_str()),
            ),
        );
    }
    Ok(path.display)
}

/// What the unit state offers for skipping a task: the fingerprint of the export it passed with
/// and the path that export was recorded at.
pub open spec fn idempotent_source_spec(state: UnitState, task_id: Seq<char>) -> Option<
    (Seq<char>, Seq<char>),
> {
    let tasks = tasks_view(state.tasks@);
    if tasks.contains_key(task_id) {
        let e = tasks[task_id];
        match (processed_fingerprint(e), e.source_csv_path) {
            (Some(f), Some(p)) => Some((f, p)),
            _ => None,
        }
    } else {
        None
    }
}

pub fn idempotent_source(state: &UnitState, task_id: &str) -> (r: Option<(String, String)>)
    ensures
        match r {
            Some((f, p)) => idempotent_source_spec(*state, task_id@) == Some((f@, p@)),
            None => idempotent_source_spec(*state, task_id@) is None,
        },
{
    let entry = match state.tasks.get(task_id) {
        Some(e) => e,
        None => {
            return None;
        },
    };
    let fingerprint = match entry.already_processed_fingerprint() {
        Some(f) => f,
        None => {
            return None;
        },
    };
    match &entry.source_csv_path {
        Some(p) => Some((fingerprint.to_owned(), p.clone())),
        None => None,
    }
}

/// A task whose recorded export still has the fingerprint it passed with is reported as done
/// without touching the workbooks. `current_fingerprint` is that export's fingerprint now
/// (`None` where the export could not be found or read under the unit folder).
pub fn already_processed_result(
    task_label: &str,
    source_path: &str,
    expected_fingerprint: &str,
    current_fingerprint: Option<String>,
) -> (r: Option<ProcessorResult>)
    ensures
        match r {
            Some(res) => {
                &&& current_fingerprint is Some
                &&& current_fingerprint->0@ == expected_fingerprint@
                &&& res.state@ == "pass"@
                &&& res.code == 0
                &&& res.message@ == already_processed_text(task_label@)
                &&& res.log@.len() == 1
                &&& res.log@[0]@ == idempotent_log_text(task_label@, source_path@, expected_fingerprint@)
                &&& res.report_path is None
                &&& res.print_report_path is None
                &&& res.failure is None
                &&& res.source_csv_path is Some
                &&& res.source_csv_path->0@ == source_path@
                &&& res.csv_fingerprint is Some
                &&& res.csv_fingerprint->0@ == expected_fingerprint@
            },
            None => !(current_fingerprint matches Some(c) && c@ == expected_fingerprint@),
        },
{
    let current = match current_fingerprint {
        Some(c) => c,
        None => {
            return None;
        },
    };
    if !str_eq(current.as_str(), expected_fingerprint) {
        return None;
    }
    let message = concat(
        task_label,
        " already processed from the same CSV; no workbook changes were applied",
    );
    let mut line = String::new();
    push_str(&mut line, "[idempotent] ");
    push_str(&mut line, task_label);
    push_str(&mut line, " already processed from ");
    push_str(&mut line, source_path);
    push_str(&mut line, " (");
    push_str(&mut line, current.as_str());
    push_str(&mut line, ")");
    Some(
        ProcessorResult {
            state: "pass".to_owned(),
            code: 0,
            message,
            log: vec![line],
            report_path: None,
            print_report_path: None,
            failure: None,
            source_csv_path: Some(source_path.to_owned()),
            csv_fingerprint: Some(current),
        },
    )
}

} // verus!
