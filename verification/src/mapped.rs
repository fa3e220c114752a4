use vstd::prelude::*;

use crate::csv_data::{
    column_value, csv_error_is_transient, csv_error_text, first_data_row_from, float_syntax,
    is_numeric_at, last_data_row_from, no_data_row_from, numeral_of, required_number, row_view,
    valid_column_name, CsvDataError, CsvTable,
};
use crate::patterns::{regex_match_result, wildcard_pattern_to_regex, wildcard_regex};
use crate::processors::{joined, CsvSource, FailureDetail, ProcessorResult, ProcessorTaskOutput};
use crate::profile::{MappingDefinition, MappingRow, ReportLayoutProfile};
use crate::reports::{report_error_text, CellUpdate, ReportError};
use crate::scan::ScannedFile;
use crate::select::{last_max, last_max_index};
use crate::str_map::StrMap;
use crate::text::{concat, is_blank, push_str, str_eq, trim};

verus! {

/// What can stop a task that is processed through its profile mappings.
#[derive(Debug)]
pub enum MappedProcessorError {
    Csv(CsvDataError),
    CsvNotReady(String),
    Config(String),
    MissingCsv(String),
    Report(ReportError),
}

pub open spec fn mapped_error_text(e: MappedProcessorError) -> Seq<char> {
    match e {
        MappedProcessorError::Csv(c) => csv_error_text(c),
        MappedProcessorError::CsvNotReady(m) => m@,
        MappedProcessorError::Config(m) => m@,
        MappedProcessorError::MissingCsv(m) => m@,
        MappedProcessorError::Report(r) => report_error_text(r),
    }
}

impl MappedProcessorError {
    pub fn message(&self) -> (m: String)
        ensures
            m@ == mapped_error_text(*self),
    {
        match self {
            MappedProcessorError::Csv(c) => c.message(),
            MappedProcessorError::CsvNotReady(m) => m.clone(),
            MappedProcessorError::Config(m) => m.clone(),
            MappedProcessorError::MissingCsv(m) => m.clone(),
            MappedProcessorError::Report(r) => r.message(),
        }
    }
}

/// An export problem: a busy export means waiting for it; anything else is a CSV error.
pub open spec fn mapped_from_csv(e: CsvDataError, m: MappedProcessorError) -> bool {
    if csv_error_is_transient(e) {
        m matches MappedProcessorError::CsvNotReady(t) && t@
            == "CSV is still being written by ATS; waiting for it to unlock. "@ + csv_error_text(e)
    } else {
        m == MappedProcessorError::Csv(e)
    }
}

pub fn mapped_error_from_csv(error: CsvDataError) -> (m: MappedProcessorError)
    ensures
        mapped_from_csv(error, m),
{
    if error.is_transient_file_access() {
        let text = error.message();
        MappedProcessorError::CsvNotReady(
            concat("CSV is still being written by ATS; waiting for it to unlock. ", text.as_str()),
        )
    } else {
        MappedProcessorError::Csv(error)
    }
}

/// The result a mapped-processing error leaves: waiting for a busy export (code 2), a warning
/// for a missing export (code 3), else a failure (code 1).
pub open spec fn mapped_error_result_of(error: MappedProcessorError, r: ProcessorResult) -> bool {
    &&& r.log@.len() == 0
    &&& r.report_path is None && r.print_report_path is None
    &&& r.source_csv_path is None && r.csv_fingerprint is None
    &&& r.message@ == mapped_error_text(error)
    &&& match error {
        MappedProcessorError::CsvNotReady(_) => r.state@ == "waiting"@ && r.code == 2 && r.failure is None,
        MappedProcessorError::MissingCsv(m) => r.state@ == "warning"@ && r.code == 3 && (r.failure matches Some(
            f,
        ) && f.title@ == "CSV Not Found"@ && f.message@ == m@ && f.location is None),
        _ => r.state@ == "fail"@ && r.code == 1 && (r.failure matches Some(f) && f.title@
            == "Mapped Processing Error"@ && f.message@ == mapped_error_text(error) && f.location is None),
    }
}

pub fn mapped_error_result(error: MappedProcessorError) -> (r: ProcessorResult)
    ensures
        mapped_error_result_of(error, r),
{
    let message = error.message();
    let (state, code, failure) = match &error {
        MappedProcessorError::CsvNotReady(_) => ("waiting", 2u8, None),
        MappedProcessorError::MissingCsv(m) => (
            "warning",
            3u8,
            Some(FailureDetail { title: "CSV Not Found".to_owned(), message: m.clone(), location: None }),
        ),
        _ => (
            "fail",
            1u8,
            Some(
                FailureDetail {
                    title: "Mapped Processing Error".to_owned(),
                    message: message.clone(),
                    location: None,
                },
            ),
        ),
    };
    ProcessorResult {
        state: state.to_owned(),
        code,
        message,
        log: Vec::new(),
        report_path: None,
        print_report_path: None,
        failure,
        source_csv_path: None,
        csv_fingerprint: None,
    }
}

/// A source problem that an optional mapping skips: a blank, missing or non-numeric value, or
/// no row to read.
pub open spec fn optional_source_error(e: CsvDataError) -> bool {
    e is BlankValue || e is MissingColumn || e is NonnumericValue || e is Empty
}

pub fn is_optional_source_error(error: &CsvDataError) -> (b: bool)
    ensures
        b == optional_source_error(*error),
{
    match error {
        CsvDataError::BlankValue { .. } | CsvDataError::MissingColumn { .. }
        | CsvDataError::NonnumericValue { .. } | CsvDataError::Empty(_) => true,
        _ => false,
    }
}

/// The row a mapping reads, as the table's row methods pick it for each selector; an unknown
/// selector is an error naming the file.
pub open spec fn selection_result(
    t: CsvTable,
    row: MappingRow,
    column: Seq<char>,
    r: Result<Seq<Seq<char>>, CsvDataError>,
) -> bool {
    let rows = t.rows();
    let path = t.path_view();
    match row {
        MappingRow::Index(i) => match r {
            Ok(x) => 1 <= i <= rows.len() && x == rows[i - 1],
            Err(e) => !(1 <= i <= rows.len()) && (e matches CsvDataError::Empty(p) && p@ == path),
        },
        MappingRow::Selector(s) => if s@ == "first_data_after_header"@ {
            match r {
                Ok(x) => exists|i: int| first_data_row_from(rows, 1, i) && #[trigger] rows[i] == x,
                Err(e) => no_data_row_from(rows, 1) && (e matches CsvDataError::Empty(p) && p@ == path),
            }
        } else if s@ == "last_data_after_header"@ {
            match r {
                Ok(x) => exists|i: int| last_data_row_from(rows, 1, i) && #[trigger] rows[i] == x,
                Err(e) => no_data_row_from(rows, 1) && (e matches CsvDataError::Empty(p) && p@ == path),
            }
        } else if s@ == "last_data"@ {
            match r {
                Ok(x) => exists|i: int| last_data_row_from(rows, 0, i) && #[trigger] rows[i] == x,
                Err(e) => no_data_row_from(rows, 0) && (e matches CsvDataError::Empty(p) && p@ == path),
            }
        } else if s@ == "last_numeric"@ {
            let c = column_value(trim(column)) - 1;
            match r {
                Ok(x) => valid_column_name(column) && exists|i: int|
                    1 <= i < rows.len() && #[trigger] rows[i] == x && is_numeric_at(x, c) && forall|k: int|
                        i < k < rows.len() ==> !is_numeric_at(#[trigger] rows[k], c),
                Err(e) => match e {
                    CsvDataError::InvalidColumn(x) => !valid_column_name(column) && x@ == column,
                    CsvDataError::Empty(p) => valid_column_name(column) && p@ == path && forall|k: int|
                        1 <= k < rows.len() ==> !is_numeric_at(#[trigger] rows[k], c),
                    _ => false,
                },
            }
        } else {
            r matches Err(CsvDataError::Empty(m)) && m@ == path + " uses unsupported row selector '"@
                + s@ + "'"@
        },
    }
}

pub open spec fn selection_view(r: Result<&[String], CsvDataError>) -> Result<Seq<Seq<char>>, CsvDataError> {
    match r {
        Ok(x) => Ok(row_view(x@)),
        Err(e) => Err(e),
    }
}

/// The row of the table that a mapping reads.
pub fn select_row<'a>(table: &'a CsvTable, row: &MappingRow, source_column: &str) -> (r: Result<
    &'a [String],
    CsvDataError,
>)
    ensures
        selection_result(*table, *row, source_column@, selection_view(r)),
{
    proof {
        reveal_strlit("first_data_after_header");
        reveal_strlit("last_data_after_header");
        reveal_strlit("last_data");
        reveal_strlit("last_numeric");
    }
    match row {
        MappingRow::Index(index) => table.row_at(*index),
        MappingRow::Selector(selector) => {
            let s = selector.as_str();
            if str_eq(s, "first_data_after_header") {
                table.first_data_row_after_header()
            } else if str_eq(s, "last_data_after_header") {
                table.last_data_row_after_header()
            } else if str_eq(s, "last_data") {
                table.last_data_row()
            } else if str_eq(s, "last_numeric") {
                table.last_numeric_row_after_header(source_column)
            } else {
                let mut m = String::new();
                push_str(&mut m, table.path());
                push_str(&mut m, " uses unsupported row selector '");
                push_str(&mut m, s);
                push_str(&mut m, "'");
                Err(CsvDataError::Empty(m))
            }
        },
    }
}

/// What reading the numeral in column `column` of a row gives, as `required_number` states it.
pub open spec fn number_result(
    row: Seq<Seq<char>>,
    column: Seq<char>,
    file: Seq<char>,
    label: Seq<char>,
    r: Result<Seq<char>, CsvDataError>,
) -> bool {
    let i = column_value(trim(column)) - 1;
    match r {
        Ok(numeral) => valid_column_name(column) && 0 <= i < row.len() && !is_blank(row[i])
            && numeral == numeral_of(row[i]) && float_syntax(numeral),
        Err(e) => match e {
            CsvDataError::InvalidColumn(c) => !valid_column_name(column) && c@ == column,
            CsvDataError::MissingColumn { file: f, label: l, column: c } => valid_column_name(column)
                && i >= row.len() && f@ == file && l@ == label && c@ == column,
            CsvDataError::BlankValue { file: f, label: l, column: c } => valid_column_name(column) && i
                < row.len() && is_blank(row[i]) && f@ == file && l@ == label && c@ == column,
            CsvDataError::NonnumericValue { file: f, label: l, column: c, value: v } => {
                &&& valid_column_name(column)
                &&& 0 <= i < row.len()
                &&& !is_blank(row[i])
                &&& !float_syntax(numeral_of(row[i]))
                &&& v@ == trim(row[i])
                &&& f@ == file && l@ == label && c@ == column
            },
            _ => false,
        },
    }
}

pub open spec fn number_view(r: Result<Vec<char>, CsvDataError>) -> Result<Seq<char>, CsvDataError> {
    match r {
        Ok(v) => Ok(v@),
        Err(e) => Err(e),
    }
}

/// What a source error does to a mapping: an optional mapping skips the problems listed by
/// `optional_source_error`; anything else stops the task.
pub open spec fn source_failure(required: bool, e: CsvDataError, r: Result<Option<Vec<char>>, MappedProcessorError>) -> bool {
    if !required && optional_source_error(e) {
        r matches Ok(None)
    } else {
        r matches Err(m) && mapped_from_csv(e, m)
    }
}

/// The numeral a mapping reads from the table: its source row (by its row rule) and column.
/// `None` where an optional mapping's source is blank, missing, not numeric or has no row.
pub fn mapping_source_value(mapping: &MappingDefinition, table: &CsvTable) -> (r: Result<
    Option<Vec<char>>,
    MappedProcessorError,
>)
    ensures
        match mapping.source {
            None => r matches Err(MappedProcessorError::Config(m)) && m@ == "mapping '"@ + mapping.label@
                + "' has no source rule"@,
            Some(src) => exists|sel: Result<Seq<Seq<char>>, CsvDataError>|
                selection_result(*table, src.row, src.column@, sel) && match sel {
                    Err(e) => source_failure(src.required, e, r),
                    Ok(row) => exists|n: Result<Seq<char>, CsvDataError>|
                        number_result(row, src.column@, table.path_view(), mapping.label@, n) && match n {
                            Err(e) => source_failure(src.required, e, r),
                            Ok(numeral) => r matches Ok(Some(v)) && v@ == numeral,
                        },
                },
        },
{
    let source = match &mapping.source {
        Some(s) => s,
        None => {
            let mut m = String::new();
            push_str(&mut m, "mapping '");
            push_str(&mut m, mapping.label.as_str());
            push_str(&mut m, "' has no source rule");
            return Err(MappedProcessorError::Config(m));
        },
    };
    let selected = select_row(table, &source.row, source.column.as_str());
    let ghost sel = selection_view(selected);
    let row = match selected {
        Ok(row) => row,
        Err(error) => {
            if !source.required && is_optional_source_error(&error) {
                return Ok(None);
            }
            return Err(mapped_error_from_csv(error));
        },
    };
    let file = table.path();
    let read = required_number(row, source.column.as_str(), file, mapping.label.as_str());
    let ghost n = number_view(read);
    proof {
        let i = column_value(trim(source.column@)) - 1;
        assert(row_view(row@).len() == row@.len());
        assert(file@ == table.path_view());
        if valid_column_name(source.column@) {
            crate::csv_data::lemma_column_value_bound(trim(source.column@));
        }
        if 0 <= i < row@.len() {
            assert(row_view(row@)[i] == row@[i]@);
        }
        assert(number_result(row_view(row@), source.column@, table.path_view(), mapping.label@, n));
        assert(selection_result(*table, source.row, source.column@, sel));
        assert(sel == Ok::<Seq<Seq<char>>, CsvDataError>(row_view(row@)));
    }
    match read {
        Ok(v) => Ok(Some(v)),
        Err(error) => {
            if !source.required && is_optional_source_error(&error) {
                return Ok(None);
            }
            Err(mapped_error_from_csv(error))
        },
    }
}

/// The modification times of the files whose name matches the wildcard pattern.
pub open spec fn pattern_file_keys(files: Seq<ScannedFile>, pattern: Seq<char>) -> Seq<Option<i128>> {
    files.map_values(
        |f: ScannedFile|
            if f.file_name is Some && regex_match_result(wildcard_regex(pattern), f.file_name->0@) {
                Some(f.modified)
            } else {
                None
            },
    )
}

/// The newest file under a folder whose name matches the wildcard pattern (in any case); the
/// later one in walk order on a tie. `None` for a blank or invalid pattern or no match.
pub open spec fn latest_file_spec(files: Seq<ScannedFile>, pattern: Seq<char>) -> Option<int> {
    if is_blank(pattern) || !crate::patterns::regex_compiles(wildcard_regex(pattern)) {
        None
    } else {
        last_max(pattern_file_keys(files, pattern))
    }
}

pub fn find_latest_file_by_pattern(files: &Vec<ScannedFile>, pattern: &str) -> (r: Option<String>)
    ensures
        match latest_file_spec(files@, pattern@) {
            Some(i) => r == Some(files@[i].path),
            None => r is None,
        },
{
    let re = match wildcard_pattern_to_regex(pattern) {
        Some(re) => re,
        None => {
            return None;
        },
    };
    let mut keys: Vec<Option<i128>> = Vec::new();
    for i in 0..files.len()
        invariant
            re.source_view() == wildcard_regex(pattern@),
            keys@ == pattern_file_keys(files@, pattern@).take(i as int),
    {
        let f = &files[i];
        let matched = match &f.file_name {
            Some(name) => re.is_match(name.as_str()),
            None => false,
        };
        keys.push(if matched { Some(f.modified) } else { None });
        proof {
            assert(keys@ =~= pattern_file_keys(files@, pattern@).take(i + 1));
        }
    }
    assert(keys@ =~= pattern_file_keys(files@, pattern@));
    match last_max_index(&keys) {
        Some(k) => Some(files[k].path.clone()),
        None => None,
    }
}

/// The export a mapped task reads: the newest file matching its pattern; a missing one is a
/// warning naming the task, the pattern and the folder.
pub fn require_csv_by_pattern(files: &Vec<ScannedFile>, csv_pattern: &str, task_label: &str, unit_folder: &str) -> (r:
    Result<String, MappedProcessorError>)
    ensures
        match latest_file_spec(files@, csv_pattern@) {
            Some(i) => r matches Ok(p) && p == files@[i].path,
            None => r matches Err(MappedProcessorError::MissingCsv(m)) && m@ == task_label@
                + ": no matching CSV '"@ + csv_pattern@ + "' found under "@ + unit_folder@,
        },
{
    match find_latest_file_by_pattern(files, csv_pattern) {
        Some(p) => Ok(p),
        None => {
            let mut m = String::new();
            push_str(&mut m, task_label);
            push_str(&mut m, ": no matching CSV '");
            push_str(&mut m, csv_pattern);
            push_str(&mut m, "' found under ");
            push_str(&mut m, unit_folder);
            Err(MappedProcessorError::MissingCsv(m))
        },
    }
}

/// The file of a workbook the profile names: the newest file matching its pattern. An unknown
/// workbook, or one with no file, is a configuration error.
pub fn resolve_workbook_path(
    profile: &ReportLayoutProfile,
    files: &Vec<ScannedFile>,
    unit_folder: &str,
    workbook: &str,
) -> (r: Result<String, MappedProcessorError>)
    ensures
        if !profile.workbooks@.contains_key(workbook@) {
            r matches Err(MappedProcessorError::Config(m)) && m@ == "unknown workbook '"@ + workbook@
                + "'"@
        } else {
            let pattern = profile.workbooks@[workbook@].file_pattern@;
            match latest_file_spec(files@, pattern) {
                Some(i) => r matches Ok(p) && p == files@[i].path,
                None => r matches Err(MappedProcessorError::Config(m)) && m@ == "workbook '"@ + workbook@
                    + "' matching '"@ + pattern + "' was not found under "@ + unit_folder@,
            }
        },
{
    let definition = match profile.workbooks.get(workbook) {
        Some(d) => d,
        None => {
            let mut m = String::new();
            push_str(&mut m, "unknown workbook '");
            push_str(&mut m, workbook);
            push_str(&mut m, "'");
            return Err(MappedProcessorError::Config(m));
        },
    };
    match find_latest_file_by_pattern(files, definition.file_pattern.as_str()) {
        Some(p) => Ok(p),
        None => {
            let mut m = String::new();
            push_str(&mut m, "workbook '");
            push_str(&mut m, workbook);
            push_str(&mut m, "' matching '");
            push_str(&mut m, definition.file_pattern.as_str());
            push_str(&mut m, "' was not found under ");
            push_str(&mut m, unit_folder);
            Err(MappedProcessorError::Config(m))
        },
    }
}

/// A passing mapped result: the main and print reports are the workbooks named `main` and
/// `print` among those written.
pub fn mapped_success(
    message: String,
    log: Vec<String>,
    paths_by_workbook: &StrMap<String>,
    csv_source: Option<CsvSource>,
) -> (r: ProcessorResult)
    ensures
        crate::processors::is_success(
            r,
            message@,
            log@,
            if paths_by_workbook@.contains_key("main"@) {
                Some(paths_by_workbook@["main"@])
            } else {
                None
            },
            if paths_by_workbook@.contains_key("print"@) {
                Some(paths_by_workbook@["print"@])
            } else {
                None
            },
            csv_source,
        ),
{
    let report_path = match paths_by_workbook.get("main") {
        Some(p) => Some(p.clone()),
        None => None,
    };
    let print_path = match paths_by_workbook.get("print") {
        Some(p) => Some(p.clone()),
        None => None,
    };
    crate::processors::success(message, log, report_path, print_path, csv_source)
}

/// A task processed through its mappings must have some.
pub fn check_has_mappings(task: &crate::profile::TaskDefinition) -> (r: Result<(), MappedProcessorError>)
    ensures
        task.mappings@.len() > 0 ==> r is Ok,
        task.mappings@.len() == 0 ==> (r matches Err(MappedProcessorError::Config(m)) && m@ == "task '"@
            + task.id@ + "' has no mappings to execute"@),
{
    if task.mappings.len() == 0 {
        let mut m = String::new();
        push_str(&mut m, "task '");
        push_str(&mut m, task.id.as_str());
        push_str(&mut m, "' has no mappings to execute");
        return Err(MappedProcessorError::Config(m));
    }
    Ok(())
}

/// A transform that divides by zero is refused.
pub fn check_transform(mapping: &MappingDefinition) -> (r: Result<(), MappedProcessorError>)
    ensures
        (mapping.transform matches Some(t) && t.scale_by_is_zero) ==> (r matches Err(
            MappedProcessorError::Config(m),
        ) && m@ == "mapping transform.scale_by must not be zero"@),
        !(mapping.transform matches Some(t) && t.scale_by_is_zero) ==> r is Ok,
{
    match &mapping.transform {
        Some(t) => {
            if t.scale_by_is_zero {
                return Err(MappedProcessorError::Config("mapping transform.scale_by must not be zero".to_owned()));
            }
            Ok(())
        },
        None => Ok(()),
    }
}

/// What one mapping gave: the cell update with the value as logged, nothing for a skipped
/// optional source, or the error that stops the task.
pub type MappingOutcome = Result<Option<(CellUpdate, String)>, MappedProcessorError>;

/// The first mapping whose outcome is an error.
pub open spec fn first_error(o: Seq<MappingOutcome>, i: int) -> Option<int>
    decreases o.len() - i,
{
    if i < 0 || i >= o.len() {
        None
    } else if o[i] is Err {
        Some(i)
    } else {
        first_error(o, i + 1)
    }
}

/// The log line of a mapping's outcome.
pub open spec fn outcome_log(m: MappingDefinition, o: MappingOutcome) -> Seq<char> {
    match o {
        Ok(Some((u, v))) => "[mapped]   "@ + u.sheet@ + "!"@ + u.cell@ + " <- "@ + m.label@ + " = "@ + v@,
        _ => "[mapped]   "@ + m.label@ + " skipped because optional source was blank"@,
    }
}

pub open spec fn outcome_logs(ms: Seq<MappingDefinition>, o: Seq<MappingOutcome>, n: int) -> Seq<Seq<char>>
    decreases n,
{
    if n <= 0 {
        seq![]
    } else {
        outcome_logs(ms, o, n - 1).push(outcome_log(ms[n - 1], o[n - 1]))
    }
}

/// The first group at or after `k` for the workbook.
pub open spec fn workbook_group(g: Seq<(Seq<char>, Seq<CellUpdate>)>, w: Seq<char>, k: int) -> Option<int>
    decreases g.len() - k,
{
    if k < 0 || k >= g.len() {
        None
    } else if g[k].0 == w {
        Some(k)
    } else {
        workbook_group(g, w, k + 1)
    }
}

/// The updates of the first `n` mappings grouped by their target workbook, each workbook once in
/// the order it first occurs.
pub open spec fn outcome_groups(ms: Seq<MappingDefinition>, o: Seq<MappingOutcome>, n: int) -> Seq<(Seq<char>, Seq<CellUpdate>)>
    decreases n,
{
    if n <= 0 {
        seq![]
    } else {
        let g = outcome_groups(ms, o, n - 1);
        match o[n - 1] {
            Ok(Some((u, _))) => {
                let w = ms[n - 1].target.workbook@;
                match workbook_group(g, w, 0) {
                    Some(k) => g.update(k, (g[k].0, g[k].1.push(u))),
                    None => g.push((w, seq![u])),
                }
            },
            _ => g,
        }
    }
}

pub open spec fn update_groups_view(g: Seq<(String, Vec<CellUpdate>)>) -> Seq<(Seq<char>, Seq<CellUpdate>)> {
    g.map_values(|x: (String, Vec<CellUpdate>)| (x.0@, x.1@))
}

proof fn lemma_workbook_group(g: Seq<(Seq<char>, Seq<CellUpdate>)>, w: Seq<char>, k: int)
    requires
        0 <= k,
    ensures
        match workbook_group(g, w, k) {
            Some(j) => k <= j < g.len() && g[j].0 == w,
            None => forall|j: int| k <= j < g.len() ==> g[j].0 != w,
        },
    decreases g.len() - k,
{
    if k < g.len() && g[k].0 != w {
        lemma_workbook_group(g, w, k + 1);
    }
}

/// The log lines and the updates by workbook of a mapped task, from its mappings' outcomes;
/// the first error stops the task, and a task whose mappings wrote nothing is a configuration
/// error.
pub fn mapped_updates(task_id: &str, mappings: &Vec<MappingDefinition>, outcomes: Vec<MappingOutcome>) -> (r: Result<
    (Vec<String>, Vec<(String, Vec<CellUpdate>)>),
    MappedProcessorError,
>)
    requires
        outcomes@.len() == mappings@.len(),
    ensures
        match first_error(outcomes@, 0) {
            Some(k) => r matches Err(e) && outcomes@[k] == Err::<Option<(CellUpdate, String)>, MappedProcessorError>(e),
            None => {
                let n = outcomes@.len() as int;
                if outcome_groups(mappings@, outcomes@, n).len() == 0 {
                    r matches Err(MappedProcessorError::Config(m)) && m@ == "task '"@ + task_id@
                        + "' produced no workbook updates"@
                } else {
                    r matches Ok((log, groups)) && crate::text::views(log@) == outcome_logs(mappings@, outcomes@, n)
                        && update_groups_view(groups@) == outcome_groups(mappings@, outcomes@, n)
                }
            },
        },
{
    let ghost all = outcomes@;
    let total = outcomes.len();
    let mut rest = outcomes;
    let mut log: Vec<String> = Vec::new();
    let mut groups: Vec<(String, Vec<CellUpdate>)> = Vec::new();
    let mut i: usize = 0;
    while rest.len() > 0
        invariant
            all == outcomes@,
            all.len() == mappings@.len(),
            all.len() == total,
            i + rest@.len() == all.len(),
            rest@ == all.skip(i as int),
            first_error(all, 0) == first_error(all, i as int),
            crate::text::views(log@) == outcome_logs(mappings@, all, i as int),
            update_groups_view(groups@) == outcome_groups(mappings@, all, i as int),
        decreases rest.len(),
    {
        let o = rest.remove(0);
        proof {
            assert(all[i as int] == o);
            assert(rest@ =~= all.skip(i + 1));
        }
        let mapping = &mappings[i];
        let ghost glog = log@;
        let ghost gg = groups@;
        let ghost og = o;
        match o {
            Err(e) => {
                assert(first_error(all, i as int) == Some(i as int));
                assert(og == Err::<Option<(CellUpdate, String)>, MappedProcessorError>(e));
                assert(all[i as int] == og);
                return Err(e);
            },
            Ok(None) => {
                let mut line = String::new();
                push_str(&mut line, "[mapped]   ");
                push_str(&mut line, mapping.label.as_str());
                push_str(&mut line, " skipped because optional source was blank");
                log.push(line);
                proof {
                    assert(crate::text::views(log@) =~= crate::text::views(glog).push(
                        outcome_log(mappings@[i as int], all[i as int]),
                    ));
                }
            },
            Ok(Some((update, value))) => {
                let mut line = String::new();
                push_str(&mut line, "[mapped]   ");
                push_str(&mut line, update.sheet.as_str());
                push_str(&mut line, "!");
                push_str(&mut line, update.cell.as_str());
                push_str(&mut line, " <- ");
                push_str(&mut line, mapping.label.as_str());
                push_str(&mut line, " = ");
                push_str(&mut line, value.as_str());
                log.push(line);
                proof {
                    assert(crate::text::views(log@) =~= crate::text::views(glog).push(
                        outcome_log(mappings@[i as int], all[i as int]),
                    ));
                    lemma_workbook_group(update_groups_view(gg), mapping.target.workbook@, 0);
                }
                let ghost gv = update_groups_view(groups@);
                let mut k: usize = 0;
                while k < groups.len() && !str_eq(groups[k].0.as_str(), mapping.target.workbook.as_str())
                    invariant
                        k <= groups@.len(),
                        gv == update_groups_view(groups@),
                        workbook_group(gv, mapping.target.workbook@, 0) == workbook_group(
                            gv,
                            mapping.target.workbook@,
                            k as int,
                        ),
                    decreases groups.len() - k,
                {
                    assert(gv[k as int].0 == groups@[k as int].0@);
                    k += 1;
                }
                let ghost u = update;
                if k < groups.len() {
                    assert(gv[k as int].0 == mapping.target.workbook@);
                    let mut entry = groups.remove(k);
                    entry.1.push(update);
                    groups.insert(k, entry);
                    proof {
                        assert(update_groups_view(groups@) =~= gv.update(k as int, (gv[k as int].0, gv[k as int].1.push(u))));
                    }
                } else {
                    let mut ups: Vec<CellUpdate> = Vec::new();
                    ups.push(update);
                    groups.push((mapping.target.workbook.clone(), ups));
                    proof {
                        assert(update_groups_view(groups@) =~= gv.push((mapping.target.workbook@, seq![u])));
                    }
                }
            },
        }
        i += 1;
    }
    assert(first_error(all, i as int) is None);
    if groups.len() == 0 {
        let mut m = String::new();
        push_str(&mut m, "task '");
        push_str(&mut m, task_id);
        push_str(&mut m, "' produced no workbook updates");
        return Err(MappedProcessorError::Config(m));
    }
    Ok((log, groups))
}

/// Whether the output of a single task is written to the reports: a mapped task's only when it
/// passed, a built-in task's whenever it has values.
pub open spec fn needs_commit(mapped: bool, o: ProcessorTaskOutput) -> bool {
    o.patches@.len() > 0 && (!mapped || o.result.state@ == "pass"@)
}

pub fn single_task_needs_commit(mapped: bool, output: &ProcessorTaskOutput) -> (b: bool)
    ensures
        b == needs_commit(mapped, *output),
{
    output.patches.len() > 0 && (!mapped || crate::text::str_eq(output.result.state.as_str(), "pass"))
}

/// The result of a single task once its values were written (`commit`, where they were): the
/// output's result; where the write failed, a mapped task's result becomes the mapped failure
/// of that report error, and a built-in task's run fails with the error.
pub fn single_task_result(
    mapped: bool,
    output: ProcessorTaskOutput,
    commit: Option<Result<(), ReportError>>,
) -> (r: Result<ProcessorResult, ReportError>)
    ensures
        match commit {
            Some(Err(e)) => if mapped {
                r is Ok && mapped_error_result_of(MappedProcessorError::Report(e), r->Ok_0)
            } else {
                r == Err::<ProcessorResult, ReportError>(e)
            },
            _ => r == Ok::<ProcessorResult, ReportError>(output.result),
        },
{
    match commit {
        Some(Err(e)) => if mapped {
            Ok(mapped_error_result(MappedProcessorError::Report(e)))
        } else {
            Err(e)
        },
        _ => Ok(output.result),
    }
}

} // verus!
