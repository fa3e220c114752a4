use vstd::prelude::*;

use crate::candidates::MetadataFile;
use crate::io_error::{IoFailure, IoKind};
use crate::patterns::{
    long_digits_pattern, metadata_serial_pattern, path_serial_pattern, regex_captures,
    serial_date_pattern, CompiledRegex,
};
use crate::select::{first_max, first_max_index, is_first_max, lemma_first_max_exists};
use crate::text::{all_digits, trim, trim_str, chars_of, clone_opt, concat, ends_with_str, occurs_at, opt_view, push_str, starts_with_str, views};

verus! {

/// A value to write into a worksheet cell. Numbers are held as the numeral written into the
/// sheet XML (the shortest text that reads back as the same number).
#[derive(Debug, Clone)]
pub enum CellValue {
    Number(String),
    Text(String),
}

#[derive(Debug, Clone)]
pub struct CellUpdate {
    pub sheet: String,
    pub cell: String,
    pub value: CellValue,
}

/// The cell updates meant for one workbook file.
#[derive(Debug, Clone)]
pub struct WorkbookPatch {
    pub path: String,
    pub updates: Vec<CellUpdate>,
}

impl CellUpdate {
    pub fn number(sheet: String, cell: String, numeral: String) -> (u: Self)
        ensures
            u.sheet == sheet,
            u.cell == cell,
            u.value == CellValue::Number(numeral),
    {
        CellUpdate { sheet, cell, value: CellValue::Number(numeral) }
    }

    pub fn text(sheet: String, cell: String, value: String) -> (u: Self)
        ensures
            u.sheet == sheet,
            u.cell == cell,
            u.value == CellValue::Text(value),
    {
        CellUpdate { sheet, cell, value: CellValue::Text(value) }
    }
}

impl WorkbookPatch {
    pub fn new(path: String, updates: Vec<CellUpdate>) -> (p: Self)
        ensures
            p.path == path,
            p.updates == updates,
    {
        WorkbookPatch { path, updates }
    }
}

/// What went wrong with a report workbook. `Zip` carries the file error underneath a failed
/// archive operation, where there was one.
#[derive(Debug, Clone)]
pub enum ReportError {
    Io(IoFailure),
    Zip { io: Option<IoFailure>, message: String },
    UnitFolderMissing(String),
    MainReportMissing(String),
    PrintReportMissing(String),
    TemplateFolderMissing(String),
    TemplateMissing(String),
    WorkbookPartMissing(String),
    SheetMissing(String),
    InvalidCell(String),
    SheetDataMissing(String),
    InvalidUtf8(String),
    /// Another write of this library holds the workbook.
    WorkbookLocked(String),
}

pub open spec fn report_error_text(e: ReportError) -> Seq<char> {
    match e {
        ReportError::Io(io) => "report I/O failed: "@ + io.message@,
        ReportError::Zip { message, .. } => "xlsx zip operation failed: "@ + message@,
        ReportError::UnitFolderMissing(p) => "unit folder does not exist: "@ + p@,
        ReportError::MainReportMissing(p) => "no main report workbook found under "@ + p@,
        ReportError::PrintReportMissing(p) => "no print report workbook found under "@ + p@,
        ReportError::TemplateFolderMissing(p) => "template folder does not exist: "@ + p@,
        ReportError::TemplateMissing(p) => "template file does not exist: "@ + p@,
        ReportError::WorkbookPartMissing(p) => "workbook is missing required internal file: "@
            + p@,
        ReportError::SheetMissing(p) => "workbook sheet not found: "@ + p@,
        ReportError::InvalidCell(p) => "invalid cell reference: "@ + p@,
        ReportError::SheetDataMissing(p) => "worksheet XML is missing sheetData for sheet: "@ + p@,
        ReportError::InvalidUtf8(p) => "workbook XML could not be decoded as UTF-8: "@ + p@,
        ReportError::WorkbookLocked(p) => "workbook is locked by another write: "@ + p@,
    }
}

impl ReportError {
    /// The text that describes the error.
    pub fn message(&self) -> (m: String)
        ensures
            m@ == report_error_text(*self),
    {
        let mut m = String::new();
        let (head, tail): (&str, &str) = match self {
            ReportError::Io(io) => ("report I/O failed: ", io.message.as_str()),
            ReportError::Zip { message, .. } => ("xlsx zip operation failed: ", message.as_str()),
            ReportError::UnitFolderMissing(p) => ("unit folder does not exist: ", p.as_str()),
            ReportError::MainReportMissing(p) => ("no main report workbook found under ", p.as_str()),
            ReportError::PrintReportMissing(p) => (
                "no print report workbook found under ",
                p.as_str(),
            ),
            ReportError::TemplateFolderMissing(p) => ("template folder does not exist: ", p.as_str()),
            ReportError::TemplateMissing(p) => ("template file does not exist: ", p.as_str()),
            ReportError::WorkbookPartMissing(p) => (
                "workbook is missing required internal file: ",
                p.as_str(),
            ),
            ReportError::SheetMissing(p) => ("workbook sheet not found: ", p.as_str()),
            ReportError::InvalidCell(p) => ("invalid cell reference: ", p.as_str()),
            ReportError::SheetDataMissing(p) => (
                "worksheet XML is missing sheetData for sheet: ",
                p.as_str(),
            ),
            ReportError::InvalidUtf8(p) => ("workbook XML could not be decoded as UTF-8: ", p.as_str()),
            ReportError::WorkbookLocked(p) => ("workbook is locked by another write: ", p.as_str()),
        };
        push_str(&mut m, head);
        push_str(&mut m, tail);
        m
    }
}

/// Windows' sharing (32), lock (33) and user-mapped-section (1224) violations, a denied access
/// or a would-block: the file is held by another program.
pub open spec fn locked_io(e: IoFailure) -> bool {
    e.raw_os_error == Some(32i32) || e.raw_os_error == Some(33i32) || e.raw_os_error == Some(1224i32)
        || e.kind == IoKind::PermissionDenied || e.kind == IoKind::WouldBlock
}

pub fn is_locked_file_error(error: &IoFailure) -> (b: bool)
    ensures
        b == locked_io(*error),
{
    let code = match error.raw_os_error {
        Some(c) => c == 32 || c == 33 || c == 1224,
        None => false,
    };
    code || matches!(error.kind, IoKind::PermissionDenied) || matches!(error.kind, IoKind::WouldBlock)
}

/// The workbook is held open by another program (as opposed to this library's own lock).
pub open spec fn external_lock(e: ReportError) -> bool {
    match e {
        ReportError::Io(io) => locked_io(io),
        ReportError::Zip { io: Some(io), .. } => locked_io(io),
        _ => false,
    }
}

pub fn is_external_workbook_lock_error(error: &ReportError) -> (b: bool)
    ensures
        b == external_lock(*error),
{
    match error {
        ReportError::Io(io) => is_locked_file_error(io),
        ReportError::Zip { io: Some(io), .. } => is_locked_file_error(io),
        _ => false,
    }
}

pub const TEMPLATE_DIR: &'static str = "C:/PDU500/00_Template";

pub const MAIN_TEMPLATE_NAME: &'static str = "PDUD500442AM088_Test Report_0.2CT_Rev02_SN##.xlsx";

pub const PRINT_TEMPLATE_NAME: &'static str = "PDUD500442AA088_0.2CT Test Report Print.xlsx";

pub const MAIN_REPORT_PREFIX: &'static str = "PDUD500442AM088_Test Report_0.2CT_Rev02_";

pub const MAIN_REPORT_SN_PREFIX: &'static str = "PDUD500442AM088_Test Report_0.2CT_Rev02_SN";

pub const PRINT_REPORT_PREFIX: &'static str = "PDUD500442AA088";

pub const FINAL_OPERATOR_SHEET: &'static str = "Test Report #2";

pub const FINAL_OPERATOR_CELL: &'static str = "E39";

/// A file met while walking a unit folder for its report workbooks: its name where that is
/// valid UTF-8, and its modification time (nanoseconds from the Unix epoch) where it could be
/// read.
#[derive(Debug, Clone)]
pub struct ReportFile {
    pub path: String,
    pub file_name: Option<String>,
    pub modified: Option<i128>,
}

/// The report workbooks found in a unit folder.
#[derive(Debug, Clone)]
pub struct ReportDiscovery {
    pub main_report: Option<String>,
    pub print_report: Option<String>,
}

/// What setting up or inspecting a unit folder's reports found.
#[derive(Debug, Clone)]
pub struct ReportSetup {
    pub serial_number: Option<String>,
    pub report_path: Option<String>,
    pub print_report_path: Option<String>,
    pub warnings: Vec<String>,
}

pub open spec fn starts(s: Seq<char>, prefix: Seq<char>) -> bool {
    occurs_at(s, prefix, 0)
}

pub open spec fn is_xlsx(name: Seq<char>) -> bool {
    ".xlsx"@.len() <= name.len() && occurs_at(name, ".xlsx"@, name.len() - ".xlsx"@.len())
}

/// The kinds of report file, by name: a main report named with its serial number (0), another
/// main report with the revision prefix (1), any other main report (2), and a print report (3).
pub open spec fn in_kind(name: Seq<char>, kind: int) -> bool {
    let sn = starts(name, "PDUD500442AM088_Test Report_0.2CT_Rev02_SN"@);
    let rev = starts(name, "PDUD500442AM088_Test Report_0.2CT_Rev02_"@);
    let any = starts(name, "PDUD500442AM088"@);
    if kind == 0 {
        sn
    } else if kind == 1 {
        !sn && rev
    } else if kind == 2 {
        !sn && !rev && any
    } else {
        starts(name, "PDUD500442AA088"@)
    }
}

/// A file's place among the reports of a kind: its modification time where it is a workbook of
/// that kind whose time could be read.
pub open spec fn report_key(f: ReportFile, kind: int) -> Option<i128> {
    if f.file_name is Some && is_xlsx(f.file_name->0@) && f.modified is Some && in_kind(
        f.file_name->0@,
        kind,
    ) {
        f.modified
    } else {
        None
    }
}

pub open spec fn kind_keys(files: Seq<ReportFile>, kind: int) -> Seq<Option<i128>> {
    files.map_values(|f: ReportFile| report_key(f, kind))
}

/// The newest report of a kind, the first found on a tie.
pub open spec fn newest_of_kind(files: Seq<ReportFile>, kind: int) -> Option<Seq<char>> {
    match first_max(kind_keys(files, kind)) {
        Some(j) => Some(files[j].path@),
        None => None,
    }
}

/// The main report: the newest one named with its serial number, else the newest with the
/// revision prefix, else the newest other main report.
pub open spec fn main_report_of(files: Seq<ReportFile>) -> Option<Seq<char>> {
    match newest_of_kind(files, 0) {
        Some(p) => Some(p),
        None => match newest_of_kind(files, 1) {
            Some(p) => Some(p),
            None => newest_of_kind(files, 2),
        },
    }
}

pub open spec fn print_report_of(files: Seq<ReportFile>) -> Option<Seq<char>> {
    newest_of_kind(files, 3)
}

fn newest_index(keys: &Vec<Option<i128>>, files: &Vec<ReportFile>, Ghost(kind): Ghost<int>) -> (r: Option<String>)
    requires
        keys@ == kind_keys(files@, kind),
    ensures
        opt_view(r) == newest_of_kind(files@, kind),
{
    match first_max_index(keys) {
        Some(j) => Some(files[j].path.clone()),
        None => None,
    }
}

pub fn discover_reports(files: &Vec<ReportFile>) -> (d: ReportDiscovery)
    ensures
        opt_view(d.main_report) == main_report_of(files@),
        opt_view(d.print_report) == print_report_of(files@),
{
    let mut sn_keys: Vec<Option<i128>> = Vec::new();
    let mut rev_keys: Vec<Option<i128>> = Vec::new();
    let mut any_keys: Vec<Option<i128>> = Vec::new();
    let mut print_keys: Vec<Option<i128>> = Vec::new();
    for i in 0..files.len()
        invariant
            sn_keys@ == kind_keys(files@.take(i as int), 0),
            rev_keys@ == kind_keys(files@.take(i as int), 1),
            any_keys@ == kind_keys(files@.take(i as int), 2),
            print_keys@ == kind_keys(files@.take(i as int), 3),
    {
        let f = &files[i];
        let mut keys: (Option<i128>, Option<i128>, Option<i128>, Option<i128>) = (None, None, None, None);
        match (&f.file_name, f.modified) {
            (Some(name), Some(m)) => {
                if ends_with_str(name.as_str(), ".xlsx") {
                    let sn = starts_with_str(name.as_str(), MAIN_REPORT_SN_PREFIX);
                    let rev = starts_with_str(name.as_str(), MAIN_REPORT_PREFIX);
                    let any = starts_with_str(name.as_str(), "PDUD500442AM088");
                    let print = starts_with_str(name.as_str(), PRINT_REPORT_PREFIX);
                    keys = (
                        if sn { Some(m) } else { None },
                        if !sn && rev { Some(m) } else { None },
                        if !sn && !rev && any { Some(m) } else { None },
                        if print { Some(m) } else { None },
                    );
                }
            },
            _ => {},
        }
        proof {
            reveal_strlit(".xlsx");
        }
        assert(keys.0 == report_key(*f, 0));
        assert(keys.1 == report_key(*f, 1));
        assert(keys.2 == report_key(*f, 2));
        assert(keys.3 == report_key(*f, 3));
        sn_keys.push(keys.0);
        rev_keys.push(keys.1);
        any_keys.push(keys.2);
        print_keys.push(keys.3);
        assert(files@.take(i + 1) =~= files@.take(i as int).push(*f));
        assert(sn_keys@ =~= kind_keys(files@.take(i + 1), 0));
        assert(rev_keys@ =~= kind_keys(files@.take(i + 1), 1));
        assert(any_keys@ =~= kind_keys(files@.take(i + 1), 2));
        assert(print_keys@ =~= kind_keys(files@.take(i + 1), 3));
    }
    assert(files@.take(files@.len() as int) =~= files@);
    let main_report = match newest_index(&sn_keys, files, Ghost(0)) {
        Some(p) => Some(p),
        None => match newest_index(&rev_keys, files, Ghost(1)) {
            Some(p) => Some(p),
            None => newest_index(&any_keys, files, Ghost(2)),
        },
    };
    let print_report = newest_index(&print_keys, files, Ghost(3));
    ReportDiscovery { main_report, print_report }
}

/// The main report, or the error that names the unit folder where there is none.
pub fn require_main_report(unit_folder: &str, files: &Vec<ReportFile>) -> (r: Result<String, ReportError>)
    ensures
        match main_report_of(files@) {
            Some(p) => r is Ok && r->Ok_0@ == p,
            None => r is Err && r->Err_0 is MainReportMissing && r->Err_0->MainReportMissing_0@
                == unit_folder@,
        },
{
    match discover_reports(files).main_report {
        Some(p) => Ok(p),
        None => Err(ReportError::MainReportMissing(unit_folder.to_owned())),
    }
}
/// The print report, or the error that names the unit folder where there is none.
pub fn require_print_report(unit_folder: &str, files: &Vec<ReportFile>) -> (r: Result<String, ReportError>)
    ensures
        match print_report_of(files@) {
            Some(p) => r is Ok && r->Ok_0@ == p,
            None => r is Err && r->Err_0 is PrintReportMissing && r->Err_0->PrintReportMissing_0@
                == unit_folder@,
        },
{
    match discover_reports(files).print_report {
        Some(p) => Ok(p),
        None => Err(ReportError::PrintReportMissing(unit_folder.to_owned())),
    }
}

/// What a unit folder shows of its serial number: its own name (invalid UTF-8 replaced), the
/// usual metadata files under it (`SN.txt`, `serial_number.txt`, `info.txt`, `metadata.txt`,
/// in that order; the text of those that are files that could be read), its path as shown,
/// and the names met walking it two levels deep, in walk order (the folder itself first).
#[derive(Debug, Clone)]
pub struct SerialEvidence {
    pub folder_name: Option<String>,
    pub metadata_files: Vec<MetadataFile>,
    pub path_text: String,
    pub walk_names: Vec<String>,
}

/// The first group of a match, where the match and the group are there.
pub open spec fn group_one(c: Option<Seq<Option<Seq<char>>>>) -> Option<Seq<char>> {
    match c {
        Some(g) => if g.len() > 1 {
            g[1]
        } else {
            None
        },
        None => None,
    }
}

/// The first metadata file, from `i` on, whose text the metadata pattern matches.
pub open spec fn first_metadata_match(files: Seq<MetadataFile>, i: int) -> Option<int>
    decreases files.len() - i,
{
    if i < 0 || i >= files.len() {
        None
    } else if files[i].content is Some && regex_captures(
        metadata_serial_pattern(),
        files[i].content->0@,
    ) is Some {
        Some(i)
    } else {
        first_metadata_match(files, i + 1)
    }
}

pub open spec fn name_has_serial(name: Seq<char>) -> bool {
    regex_captures(path_serial_pattern(), name) is Some || regex_captures(long_digits_pattern(), name)
        is Some
}

/// The serial number a walked name gives: after `SN`, else its first long run of digits.
pub open spec fn name_serial(name: Seq<char>) -> Option<Seq<char>> {
    if regex_captures(path_serial_pattern(), name) is Some {
        group_one(regex_captures(path_serial_pattern(), name))
    } else {
        group_one(regex_captures(long_digits_pattern(), name))
    }
}

/// The first walked name, from `i` on, that gives a serial number.
pub open spec fn first_serial_name(names: Seq<Seq<char>>, i: int) -> Option<int>
    decreases names.len() - i,
{
    if i < 0 || i >= names.len() {
        None
    } else if name_has_serial(names[i]) {
        Some(i)
    } else {
        first_serial_name(names, i + 1)
    }
}

/// The serial number of a unit folder: from a `<serial>_<date>` folder name; the folder name
/// itself where it is six or more digits; the first metadata file that states one; `SN`
/// followed by digits in its path; then the first walked name after `SN` or with eight or more
/// digits. Nothing where the folder has no name.
pub open spec fn extracted_serial(e: SerialEvidence) -> Option<Seq<char>> {
    match e.folder_name {
        None => None,
        Some(name) => {
            if regex_captures(serial_date_pattern(), name@) is Some {
                group_one(regex_captures(serial_date_pattern(), name@))
            } else if all_digits(name@) && name@.len() >= 6 {
                Some(name@)
            } else {
                later_serial(e)
            }
        },
    }
}

/// The serial number from the metadata files, the path and the walked names, in that order.
pub open spec fn later_serial(e: SerialEvidence) -> Option<Seq<char>> {
    match first_metadata_match(e.metadata_files@, 0) {
        Some(i) => group_one(regex_captures(metadata_serial_pattern(), e.metadata_files@[i].content->0@)),
        None => {
            if regex_captures(path_serial_pattern(), e.path_text@) is Some {
                group_one(regex_captures(path_serial_pattern(), e.path_text@))
            } else {
                match first_serial_name(views(e.walk_names@), 0) {
                    Some(i) => name_serial(e.walk_names@[i]@),
                    None => None,
                }
            }
        },
    }
}

fn capture_one(re: &CompiledRegex, text: &str) -> (r: Option<Option<String>>)
    ensures
        match regex_captures(re.source_view(), text@) {
            Some(g) => r is Some && opt_view(r->0) == group_one(Some(g)),
            None => r is None,
        },
{
    match re.captures(text, "") {
        Some((groups, _)) => {
            proof {
                if groups@.len() > 1 {
                    assert(crate::patterns::opt_views(groups@)[1] == opt_view(groups@[1]));
                }
            }
            if groups.len() > 1 {
                Some(clone_opt(&groups[1]))
            } else {
                Some(None)
            }
        },
        None => None,
    }
}

fn all_digit_chars(s: &str) -> (b: bool)
    ensures
        b == all_digits(s@),
{
    let cs = chars_of(s);
    let mut ok = true;
    for i in 0..cs.len()
        invariant
            cs@ == s@,
            ok == (forall|j: int| 0 <= j < i ==> crate::text::is_digit(#[trigger] s@[j])),
    {
        if !('0' <= cs[i] && cs[i] <= '9') {
            ok = false;
        }
    }
    ok
}

pub fn extract_serial_number(evidence: &SerialEvidence) -> (r: Option<String>)
    ensures
        opt_view(r) == extracted_serial(*evidence),
{
    let name = match &evidence.folder_name {
        Some(n) => n,
        None => {
            return None;
        },
    };
    let folder_date = match CompiledRegex::compile("^(\\d{6,})_(\\d{8})$") {
        Some(re) => re,
        None => {
            return None;
        },
    };
    match capture_one(&folder_date, name.as_str()) {
        Some(g) => {
            return g;
        },
        None => {},
    }
    if all_digit_chars(name.as_str()) && chars_of(name.as_str()).len() >= 6 {
        return Some(name.clone());
    }
    let metadata_re = match CompiledRegex::compile("(?i)(?:sn|serial\\s*number)[:\\s=]*(\\d{6,})") {
        Some(re) => re,
        None => {
            return None;
        },
    };
    let files = &evidence.metadata_files;
    for i in 0..files.len()
        invariant
            metadata_re.source_view() == metadata_serial_pattern(),
            first_metadata_match(files@, 0) == first_metadata_match(files@, i as int),
            files == &evidence.metadata_files,
            extracted_serial(*evidence) == later_serial(*evidence),
    {
        match &files[i].content {
            Some(content) => {
                match capture_one(&metadata_re, content.as_str()) {
                    Some(g) => {
                        return g;
                    },
                    None => {},
                }
            },
            None => {},
        }
    }
    let path_re = match CompiledRegex::compile("SN(\\d{6,})") {
        Some(re) => re,
        None => {
            return None;
        },
    };
    match capture_one(&path_re, evidence.path_text.as_str()) {
        Some(g) => {
            return g;
        },
        None => {},
    }
    let digits_re = match CompiledRegex::compile("(\\d{8,})") {
        Some(re) => re,
        None => {
            return None;
        },
    };
    let names = &evidence.walk_names;
    for i in 0..names.len()
        invariant
            path_re.source_view() == path_serial_pattern(),
            digits_re.source_view() == long_digits_pattern(),
            first_serial_name(views(names@), 0) == first_serial_name(views(names@), i as int),
            names == &evidence.walk_names,
            extracted_serial(*evidence) == match first_serial_name(views(evidence.walk_names@), 0) {
                Some(j) => name_serial(evidence.walk_names@[j]@),
                None => None,
            },
    {
        let n = names[i].as_str();
        assert(views(names@)[i as int] == n@);
        match capture_one(&path_re, n) {
            Some(g) => {
                return g;
            },
            None => {},
        }
        match capture_one(&digits_re, n) {
            Some(g) => {
                return g;
            },
            None => {},
        }
    }
    None
}

/// The report setup of a folder as it stands: its serial number and reports, with no warning;
/// an error where the folder does not exist.
pub fn inspect_reports(
    unit_folder: &str,
    folder_exists: bool,
    evidence: &SerialEvidence,
    files: &Vec<ReportFile>,
) -> (r: Result<ReportSetup, ReportError>)
    ensures
        !folder_exists ==> r is Err && r->Err_0 is UnitFolderMissing && r->Err_0->UnitFolderMissing_0@
            == unit_folder@,
        folder_exists ==> r is Ok && opt_view(r->Ok_0.serial_number) == extracted_serial(*evidence)
            && opt_view(r->Ok_0.report_path) == main_report_of(files@) && opt_view(
            r->Ok_0.print_report_path,
        ) == print_report_of(files@) && r->Ok_0.warnings@.len() == 0,
{
    if !folder_exists {
        return Err(ReportError::UnitFolderMissing(unit_folder.to_owned()));
    }
    let reports = discover_reports(files);
    Ok(
        ReportSetup {
            serial_number: extract_serial_number(evidence),
            report_path: reports.main_report,
            print_report_path: reports.print_report,
            warnings: Vec::new(),
        },
    )
}

/// The cell update that writes a text into a sheet.
pub open spec fn text_update(u: CellUpdate, sheet: Seq<char>, cell: Seq<char>, value: Seq<char>) -> bool {
    u.sheet@ == sheet && u.cell@ == cell && u.value is Text && u.value->Text_0@ == value
}

/// The write of the transformer serial number into the main report: `Test Summary!D1`, as
/// text.
pub fn transformer_serial_patch(
    unit_folder: &str,
    files: &Vec<ReportFile>,
    transformer_serial_number: &str,
) -> (r: Result<WorkbookPatch, ReportError>)
    ensures
        match main_report_of(files@) {
            Some(p) => r is Ok && r->Ok_0.path@ == p && r->Ok_0.updates@.len() == 1 && text_update(
                r->Ok_0.updates@[0],
                "Test Summary"@,
                "D1"@,
                transformer_serial_number@,
            ),
            None => r is Err && r->Err_0 is MainReportMissing && r->Err_0->MainReportMissing_0@
                == unit_folder@,
        },
{
    let path = match require_main_report(unit_folder, files) {
        Ok(p) => p,
        Err(e) => {
            return Err(e);
        },
    };
    let update = CellUpdate::text(
        "Test Summary".to_owned(),
        "D1".to_owned(),
        transformer_serial_number.to_owned(),
    );
    Ok(WorkbookPatch::new(path, vec![update]))
}

/// The write of the operator's name into the print report: `Test Report #2!E39`, as text; an
/// error where the folder does not exist or has no print report.
pub fn final_operator_patch(
    unit_folder: &str,
    folder_exists: bool,
    files: &Vec<ReportFile>,
    operator_name: &str,
) -> (r: Result<WorkbookPatch, ReportError>)
    ensures
        !folder_exists ==> r is Err && r->Err_0 is UnitFolderMissing && r->Err_0->UnitFolderMissing_0@
            == unit_folder@,
        folder_exists ==> match print_report_of(files@) {
            Some(p) => r is Ok && r->Ok_0.path@ == p && r->Ok_0.updates@.len() == 1 && text_update(
                r->Ok_0.updates@[0],
                "Test Report #2"@,
                "E39"@,
                operator_name@,
            ),
            None => r is Err && r->Err_0 is PrintReportMissing && r->Err_0->PrintReportMissing_0@
                == unit_folder@,
        },
{
    if !folder_exists {
        return Err(ReportError::UnitFolderMissing(unit_folder.to_owned()));
    }
    let path = match require_print_report(unit_folder, files) {
        Ok(p) => p,
        Err(e) => {
            return Err(e);
        },
    };
    let update = CellUpdate::text(
        FINAL_OPERATOR_SHEET.to_owned(),
        FINAL_OPERATOR_CELL.to_owned(),
        operator_name.to_owned(),
    );
    Ok(WorkbookPatch::new(path, vec![update]))
}
/// The serial number a setup works with: the given one, trimmed, where it is not blank;
/// else the one the folder shows.
pub open spec fn chosen_serial(given: Option<Seq<char>>, e: SerialEvidence) -> Option<Seq<char>> {
    match given {
        Some(g) => if trim(g).len() > 0 {
            Some(trim(g))
        } else {
            extracted_serial(e)
        },
        None => extracted_serial(e),
    }
}

pub fn choose_serial_number(serial_number_override: Option<&str>, evidence: &SerialEvidence) -> (r:
    Option<String>)
    ensures
        opt_view(r) == chosen_serial(
            match serial_number_override {
                Some(o) => Some(o@),
                None => None,
            },
            *evidence,
        ),
{
    match serial_number_override {
        Some(o) => {
            let t = trim_str(o);
            if !t.as_str().is_empty() {
                return Some(t);
            }
            extract_serial_number(evidence)
        },
        None => extract_serial_number(evidence),
    }
}

/// The main report's file name: named with the serial number where there is one, else the
/// template's own name.
pub open spec fn main_report_name_of(serial: Option<Seq<char>>) -> Seq<char> {
    match serial {
        Some(s) => "PDUD500442AM088_Test Report_0.2CT_Rev02_"@ + "SN"@ + s + ".xlsx"@,
        None => "PDUD500442AM088_Test Report_0.2CT_Rev02_SN##.xlsx"@,
    }
}

pub fn main_report_name(serial: Option<&str>) -> (name: String)
    ensures
        name@ == main_report_name_of(
            match serial {
                Some(s) => Some(s@),
                None => None,
            },
        ),
{
    match serial {
        Some(s) => {
            let mut name = concat(MAIN_REPORT_PREFIX, "SN");
            push_str(&mut name, s);
            push_str(&mut name, ".xlsx");
            name
        },
        None => MAIN_TEMPLATE_NAME.to_owned(),
    }
}

/// What the template folder holds: whether it is a folder, and the two templates' paths (as
/// shown) with whether each is a file.
#[derive(Debug, Clone)]
pub struct TemplateState {
    pub root_is_dir: bool,
    pub main_template: String,
    pub main_template_is_file: bool,
    pub print_template: String,
    pub print_template_is_file: bool,
}

/// A template to copy into the unit folder under a file name, with the serial number to
/// write into the copy's `Test Summary!B2` where there is one.
#[derive(Debug, Clone)]
pub struct TemplateCopy {
    pub template: String,
    pub target_name: String,
    pub serial_patch: Option<String>,
}

#[derive(Debug, Clone)]
pub struct TemplatePlan {
    pub copies: Vec<TemplateCopy>,
    pub warnings: Vec<String>,
}

pub open spec fn copy_view(c: TemplateCopy) -> (Seq<char>, Seq<char>, Option<Seq<char>>) {
    (c.template@, c.target_name@, opt_view(c.serial_patch))
}

/// The templates to copy: each one that is a file, where the folder lacks a report of its kind.
pub open spec fn planned_copies(t: TemplateState, reports: ReportDiscovery, serial: Option<Seq<char>>) -> Seq<
    (Seq<char>, Seq<char>, Option<Seq<char>>),
> {
    if !t.root_is_dir {
        seq![]
    } else {
        (if t.main_template_is_file && reports.main_report is None {
            seq![(t.main_template@, main_report_name_of(serial), serial)]
        } else {
            seq![]
        }) + (if t.print_template_is_file && reports.print_report is None {
            seq![(t.print_template@, "PDUD500442AA088_0.2CT Test Report Print.xlsx"@, None)]
        } else {
            seq![]
        })
    }
}

/// A warning for a missing template folder, or for each missing template.
pub open spec fn planned_warnings(t: TemplateState) -> Seq<Seq<char>> {
    if !t.root_is_dir {
        seq!["template folder not found: "@ + "C:/PDU500/00_Template"@]
    } else {
        (if !t.main_template_is_file {
            seq!["main report template missing: "@ + t.main_template@]
        } else {
            seq![]
        }) + (if !t.print_template_is_file {
            seq!["print report template missing: "@ + t.print_template@]
        } else {
            seq![]
        })
    }
}

pub fn plan_template_copies(templates: &TemplateState, reports: &ReportDiscovery, serial: Option<&str>) -> (p:
    TemplatePlan)
    ensures
        p.copies@.map_values(|c: TemplateCopy| copy_view(c)) == planned_copies(
            *templates,
            *reports,
            match serial {
                Some(s) => Some(s@),
                None => None,
            },
        ),
        views(p.warnings@) == planned_warnings(*templates),
{
    let ghost sv = match serial {
        Some(s) => Some(s@),
        None => None,
    };
    let mut copies: Vec<TemplateCopy> = Vec::new();
    let mut warnings: Vec<String> = Vec::new();
    if !templates.root_is_dir {
        warnings.push(concat("template folder not found: ", TEMPLATE_DIR));
        assert(views(warnings@) =~= planned_warnings(*templates));
        assert(copies@.map_values(|c: TemplateCopy| copy_view(c)) =~= planned_copies(*templates, *reports, sv));
        return TemplatePlan { copies, warnings };
    }
    if !templates.main_template_is_file {
        warnings.push(concat("main report template missing: ", templates.main_template.as_str()));
    } else if reports.main_report.is_none() {
        let serial_patch: Option<String> = match serial {
            Some(s) => Some(s.to_owned()),
            None => None,
        };
        copies.push(
            TemplateCopy {
                template: templates.main_template.clone(),
                target_name: main_report_name(serial),
                serial_patch,
            },
        );
    }
    let ghost first_copies = copies@.map_values(|c: TemplateCopy| copy_view(c));
    let ghost first_warnings = views(warnings@);
    if !templates.print_template_is_file {
        warnings.push(concat("print report template missing: ", templates.print_template.as_str()));
    } else if reports.print_report.is_none() {
        copies.push(
            TemplateCopy {
                template: templates.print_template.clone(),
                target_name: PRINT_TEMPLATE_NAME.to_owned(),
                serial_patch: None,
            },
        );
    }
    assert(copies@.map_values(|c: TemplateCopy| copy_view(c)) =~= planned_copies(*templates, *reports, sv));
    assert(views(warnings@) =~= planned_warnings(*templates));
    TemplatePlan { copies, warnings }
}

/// A path joined with a further part, as `std::path::Path::join` gives it (shown as text).
pub uninterp spec fn joined_path(base: Seq<char>, part: Seq<char>) -> Seq<char>;

/// Whether two paths are equal as `std::path::Path` compares them (by components).
pub uninterp spec fn paths_equal(a: Seq<char>, b: Seq<char>) -> bool;

/// `std::path::Path::join`, shown with `Path::display`. The contract names the result: the
/// joined path is a function of the two texts alone.
#[verifier::external_body]
pub(crate) fn join_path(base: &str, part: &str) -> (r: String)
    ensures
        r@ == joined_path(base@, part@),
{
    std::path::Path::new(base).join(part).display().to_string()
}

/// `==` on `std::path::Path`. The contract names the result: it depends on the two texts
/// alone.
#[verifier::external_body]
pub(crate) fn same_path(a: &str, b: &str) -> (r: bool)
    ensures
        r == paths_equal(a@, b@),
{
    std::path::Path::new(a) == std::path::Path::new(b)
}

/// What naming the main report after the serial number takes.
#[derive(Debug, Clone)]
pub enum NamingStep {
    /// Nothing to do.
    Keep,
    /// The report could not be named; the text says why.
    Warn(String),
    /// Copy the source to the target and write the serial number into its `Test Summary!B2`.
    CopyAndPatch { source: String, target: String, serial: String },
}

/// Naming the main report: where there is a serial number and no report of that name yet,
/// the main report (else the template's copy in the folder) is copied to that name, unless it
/// already is that file; a warning where there is neither.
pub open spec fn naming_step_of(
    unit_folder: Seq<char>,
    serial: Option<Seq<char>>,
    target_exists: bool,
    main_report: Option<Seq<char>>,
    template_copy_exists: bool,
    step: NamingStep,
) -> bool {
    match serial {
        None => step is Keep,
        Some(s) => {
            let target = joined_path(unit_folder, main_report_name_of(Some(s)));
            let copy = joined_path(unit_folder, "PDUD500442AM088_Test Report_0.2CT_Rev02_SN##.xlsx"@);
            let source = match main_report {
                Some(m) => Some(m),
                None => if template_copy_exists {
                    Some(copy)
                } else {
                    None
                },
            };
            if target_exists {
                step is Keep
            } else {
                match source {
                    None => step is Warn && step->Warn_0@
                        == "main report was not found and could not be named for serial "@ + s,
                    Some(src) => if paths_equal(src, target) {
                        step is Keep
                    } else {
                        step is CopyAndPatch && step->source@ == src && step->target@ == target
                            && step->serial@ == s
                    },
                }
            }
        },
    }
}

/// The path the main report is named to for a serial number.
pub fn report_target(unit_folder: &str, serial: &str) -> (p: String)
    ensures
        p@ == joined_path(unit_folder@, main_report_name_of(Some(serial@))),
{
    let name = main_report_name(Some(serial));
    join_path(unit_folder, name.as_str())
}

/// The path of the main template's copy in the unit folder.
pub fn template_copy_path(unit_folder: &str) -> (p: String)
    ensures
        p@ == joined_path(unit_folder@, "PDUD500442AM088_Test Report_0.2CT_Rev02_SN##.xlsx"@),
{
    join_path(unit_folder, MAIN_TEMPLATE_NAME)
}

pub fn plan_report_naming(
    unit_folder: &str,
    serial: Option<&str>,
    target_exists: bool,
    main_report: Option<&str>,
    template_copy_exists: bool,
) -> (step: NamingStep)
    ensures
        naming_step_of(
            unit_folder@,
            match serial {
                Some(s) => Some(s@),
                None => None,
            },
            target_exists,
            match main_report {
                Some(m) => Some(m@),
                None => None,
            },
            template_copy_exists,
            step,
        ),
{
    let s = match serial {
        Some(s) => s,
        None => {
            return NamingStep::Keep;
        },
    };
    let target = report_target(unit_folder, s);
    if target_exists {
        return NamingStep::Keep;
    }
    let source = match main_report {
        Some(m) => m.to_owned(),
        None => {
            if template_copy_exists {
                template_copy_path(unit_folder)
            } else {
                let mut w = "main report was not found and could not be named for serial ".to_owned();
                push_str(&mut w, s);
                return NamingStep::Warn(w);
            }
        },
    };
    if same_path(source.as_str(), target.as_str()) {
        return NamingStep::Keep;
    }
    NamingStep::CopyAndPatch { source, target, serial: s.to_owned() }
}

/// The report setup once the templates are in place: the serial number worked with, the
/// reports the folder now holds, and the warnings met on the way.
pub fn finish_setup(serial_number: Option<String>, warnings: Vec<String>, files: &Vec<ReportFile>) -> (r:
    ReportSetup)
    ensures
        r.serial_number == serial_number,
        r.warnings == warnings,
        opt_view(r.report_path) == main_report_of(files@),
        opt_view(r.print_report_path) == print_report_of(files@),
{
    let reports = discover_reports(files);
    ReportSetup {
        serial_number,
        report_path: reports.main_report,
        print_report_path: reports.print_report,
        warnings,
    }
}
/// A main report named with its serial number wins: where the folder holds one (a workbook
/// whose time could be read), the main report is the newest such one.
pub proof fn law_serial_named_report_is_preferred(files: Seq<ReportFile>, i: int)
    requires
        0 <= i < files.len(),
        report_key(files[i], 0) is Some,
    ensures
        main_report_of(files) is Some,
        main_report_of(files) == newest_of_kind(files, 0),
{
    let keys = kind_keys(files, 0);
    assert(keys[i] is Some);
    lemma_first_max_exists(keys);
}

/// The reports found are workbooks of their kind found in the folder: the main report is a
/// `.xlsx` file named as a main report, the print report one named as a print report.
pub proof fn law_found_reports_are_workbooks_of_their_kind(files: Seq<ReportFile>)
    ensures
        main_report_of(files) matches Some(p) ==> exists|k: int|
            0 <= k < files.len() && files[k].path@ == p && files[k].file_name is Some && is_xlsx(
                files[k].file_name->0@,
            ) && #[trigger] starts(files[k].file_name->0@, "PDUD500442AM088"@),
        print_report_of(files) matches Some(p) ==> exists|k: int|
            0 <= k < files.len() && files[k].path@ == p && files[k].file_name is Some && is_xlsx(
                files[k].file_name->0@,
            ) && #[trigger] starts(files[k].file_name->0@, "PDUD500442AA088"@),
{
    assert forall|kind: int, k: int| 0 <= kind < 3 && 0 <= k < files.len() && #[trigger] report_key(files[k], kind) is Some implies starts(
        files[k].file_name->0@,
        "PDUD500442AM088"@,
    ) by {
        let n = files[k].file_name->0@;
        reveal_strlit("PDUD500442AM088");
        reveal_strlit("PDUD500442AM088_Test Report_0.2CT_Rev02_SN");
        reveal_strlit("PDUD500442AM088_Test Report_0.2CT_Rev02_");
        let q = "PDUD500442AM088"@;
        if kind == 0 || kind == 1 {
            let p = if kind == 0 {
                "PDUD500442AM088_Test Report_0.2CT_Rev02_SN"@
            } else {
                "PDUD500442AM088_Test Report_0.2CT_Rev02_"@
            };
            assert(starts(n, p));
            assert(n.subrange(0, p.len() as int) == p);
            assert(p.subrange(0, 15) =~= q);
            assert(n.subrange(0, 15) =~= n.subrange(0, p.len() as int).subrange(0, 15));
            assert(occurs_at(n, q, 0));
        }
    }
    assert forall|kind: int| 0 <= kind < 4 && #[trigger] newest_of_kind(files, kind) is Some implies exists|k: int|
        0 <= k < files.len() && files[k].path@ == newest_of_kind(files, kind)->0 && report_key(files[k], kind) is Some by {
        let j = first_max(kind_keys(files, kind))->0;
        let c = choose|i: int| is_first_max(kind_keys(files, kind), i);
        assert(is_first_max(kind_keys(files, kind), j));
        assert(kind_keys(files, kind)[j] is Some);
    }
    if main_report_of(files) is Some {
        let kind: int = if newest_of_kind(files, 0) is Some {
            0
        } else if newest_of_kind(files, 1) is Some {
            1
        } else {
            2
        };
        assert(newest_of_kind(files, kind) is Some);
        let k = choose|k: int|
            0 <= k < files.len() && files[k].path@ == newest_of_kind(files, kind)->0 && report_key(files[k], kind) is Some;
        assert(starts(files[k].file_name->0@, "PDUD500442AM088"@));
    }
    if print_report_of(files) is Some {
        assert(newest_of_kind(files, 3) is Some);
        let k = choose|k: int|
            0 <= k < files.len() && files[k].path@ == newest_of_kind(files, 3)->0 && report_key(files[k], 3) is Some;
        assert(starts(files[k].file_name->0@, "PDUD500442AA088"@));
    }
}

/// Law: setting up never copies a template over a report the folder already has. Each planned
/// copy is the main template, named as the main report, where the folder has no main report, or
/// the print template, named as the print report, where it has no print report; a folder that
/// has both gets no copy.
pub proof fn law_setup_never_overwrites_a_report(
    t: TemplateState,
    reports: ReportDiscovery,
    serial: Option<Seq<char>>,
)
    ensures
        forall|i: int|
            0 <= i < planned_copies(t, reports, serial).len() ==> ({
                let c = #[trigger] planned_copies(t, reports, serial)[i];
                ||| (c.0 == t.main_template@ && c.1 == main_report_name_of(serial) && reports.main_report is None
                    && t.main_template_is_file)
                ||| (c.0 == t.print_template@ && c.1 == "PDUD500442AA088_0.2CT Test Report Print.xlsx"@
                    && reports.print_report is None && t.print_template_is_file)
            }),
        reports.main_report is Some && reports.print_report is Some ==> planned_copies(t, reports, serial).len()
            == 0,
        planned_copies(t, reports, serial).len() <= 2,
{
    let p = planned_copies(t, reports, serial);
    if t.root_is_dir {
        let m: Seq<(Seq<char>, Seq<char>, Option<Seq<char>>)> = if t.main_template_is_file && reports.main_report is None {
            seq![(t.main_template@, main_report_name_of(serial), serial)]
        } else {
            seq![]
        };
        assert forall|i: int| 0 <= i < p.len() implies ({
            let c = #[trigger] p[i];
            ||| (c.0 == t.main_template@ && c.1 == main_report_name_of(serial) && reports.main_report is None
                && t.main_template_is_file)
            ||| (c.0 == t.print_template@ && c.1 == "PDUD500442AA088_0.2CT Test Report Print.xlsx"@
                && reports.print_report is None && t.print_template_is_file)
        }) by {
            if i < m.len() {
                assert(p[i] == m[i]);
            } else {
                assert(p[i] == p.skip(m.len() as int)[i - m.len()]);
            }
        }
    }
}

} // verus!
