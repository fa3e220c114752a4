use vstd::prelude::*;

use crate::automation::{
    command_error_is, AutomationCommandError, AutomationError, CloseReportWorkbookResult, PrintReadinessResult,
};
use crate::reports::{
    final_operator_patch, main_report_of, print_report_of, require_main_report, require_print_report,
    text_update, transformer_serial_patch, ReportError, ReportFile, WorkbookPatch,
};
use crate::patterns::{cell_pattern, cell_reference_syntax, CompiledRegex};
use crate::text::{concat, is_blank, is_blank_str, lead_ws, opt_view, push_str, trim, trim_str};

verus! {

/// `unit folder does not exist: <folder>`.
pub open spec fn missing_folder_text(folder: Seq<char>) -> Seq<char> {
    "unit folder does not exist: "@ + folder
}

/// The checks on the selected unit folder that come first in every report command: it must be
/// chosen, and it must exist.
pub open spec fn folder_check(
    e: AutomationCommandError,
    unit_folder: Seq<char>,
    exists: bool,
    blank_message: Seq<char>,
) -> bool {
    if is_blank(unit_folder) {
        command_error_is(e, "unit_folder_missing"@, blank_message, None)
    } else {
        !exists && command_error_is(
            e,
            "unit_folder_missing"@,
            "The selected unit folder does not exist."@,
            Some(missing_folder_text(unit_folder)),
        )
    }
}

fn check_unit_folder(unit_folder: &str, exists: bool, blank_message: &str) -> (r: Result<
    (),
    AutomationCommandError,
>)
    ensures
        match r {
            Ok(()) => !is_blank(unit_folder@) && exists,
            Err(e) => folder_check(e, unit_folder@, exists, blank_message@),
        },
{
    if is_blank_str(unit_folder) {
        return Err(AutomationCommandError::validation("unit_folder_missing", blank_message));
    }
    if !exists {
        return Err(
            AutomationCommandError::report(
                "unit_folder_missing",
                "The selected unit folder does not exist.",
                concat("unit folder does not exist: ", unit_folder),
            ),
        );
    }
    Ok(())
}

/// Why a transformer serial number is not saved before the report is looked at: no unit
/// folder chosen, a blank serial number, or a folder that does not exist.
pub open spec fn transformer_sn_refused(e: AutomationCommandError, unit_folder: Seq<char>, sn: Seq<char>, exists: bool) -> bool {
    if is_blank(unit_folder) {
        command_error_is(e, "unit_folder_missing"@, "Select Test Unit before saving Transformer SN."@, None)
    } else if is_blank(sn) {
        command_error_is(e, "blank_transformer_sn"@, "Transformer SN is required before it can be saved."@, None)
    } else {
        folder_check(e, unit_folder, exists, Seq::empty())
    }
}

/// The checks before the transformer's serial number is saved: a unit folder must be chosen,
/// the serial number must not be blank, and the folder must exist (`unit_folder_exists`). Gives
/// the trimmed serial number to write.
pub fn save_transformer_sn(unit_folder: &str, transformer_sn: &str, unit_folder_exists: bool) -> (r:
    Result<String, AutomationCommandError>)
    ensures
        match r {
            Ok(sn) => !is_blank(unit_folder@) && !is_blank(transformer_sn@) && unit_folder_exists
                && sn@ == trim(transformer_sn@),
            Err(e) => transformer_sn_refused(e, unit_folder@, transformer_sn@, unit_folder_exists),
        },
{
    if is_blank_str(unit_folder) {
        return Err(
            AutomationCommandError::validation(
                "unit_folder_missing",
                "Select Test Unit before saving Transformer SN.",
            ),
        );
    }
    if is_blank_str(transformer_sn) {
        return Err(
            AutomationCommandError::validation(
                "blank_transformer_sn",
                "Transformer SN is required before it can be saved.",
            ),
        );
    }
    check_unit_folder(unit_folder, unit_folder_exists, "")?;
    Ok(trim_str(transformer_sn))
}

/// The checks before a unit folder is set up with the transformer's serial number: the serial
/// number must not be blank. Gives it trimmed, with the unit's serial number trimmed (and
/// dropped where blank).
pub fn setup_unit_folder_with_transformer_sn(unit_serial_number: Option<&str>, transformer_sn: &str) -> (r:
    Result<(String, Option<String>), AutomationCommandError>)
    ensures
        match r {
            Ok((sn, serial)) => !is_blank(transformer_sn@) && sn@ == trim(transformer_sn@) && match unit_serial_number {
                Some(s) => if is_blank(s@) {
                    serial is None
                } else {
                    opt_view(serial) == Some(trim(s@))
                },
                None => serial is None,
            },
            Err(e) => is_blank(transformer_sn@) && command_error_is(
                e,
                "blank_transformer_sn"@,
                "Transformer SN is required before setup can continue."@,
                None,
            ),
        },
{
    if is_blank_str(transformer_sn) {
        return Err(
            AutomationCommandError::validation(
                "blank_transformer_sn",
                "Transformer SN is required before setup can continue.",
            ),
        );
    }
    let serial = match unit_serial_number {
        Some(s) => if is_blank_str(s) {
            None
        } else {
            Some(trim_str(s))
        },
        None => None,
    };
    Ok((trim_str(transformer_sn), serial))
}

/// Why a final operator name is not written before the readiness is looked at: no unit folder
/// chosen, or a blank name.
pub open spec fn operator_name_refused(e: AutomationCommandError, unit_folder: Seq<char>, name: Seq<char>) -> bool {
    if is_blank(unit_folder) {
        command_error_is(e, "unit_folder_missing"@, "Select Test Unit before printing the report."@, None)
    } else {
        is_blank(name) && command_error_is(
            e,
            "blank_operator_name"@,
            "Operator name is required before printing the report."@,
            None,
        )
    }
}

/// The checks before the final operator's name is written: a unit folder must be chosen and the
/// name must not be blank. Gives the trimmed name.
pub fn save_final_operator_name(unit_folder: &str, operator_name: &str) -> (r: Result<
    String,
    AutomationCommandError,
>)
    ensures
        match r {
            Ok(name) => !is_blank(unit_folder@) && !is_blank(operator_name@) && name@ == trim(
                operator_name@,
            ),
            Err(e) => operator_name_refused(e, unit_folder@, operator_name@),
        },
{
    if is_blank_str(unit_folder) {
        return Err(
            AutomationCommandError::validation(
                "unit_folder_missing",
                "Select Test Unit before printing the report.",
            ),
        );
    }
    if is_blank_str(operator_name) {
        return Err(
            AutomationCommandError::validation(
                "blank_operator_name",
                "Operator name is required before printing the report.",
            ),
        );
    }
    Ok(trim_str(operator_name))
}

/// The checks before the print dialog opens: a unit folder must be chosen and must exist.
pub fn open_print_report_dialog(unit_folder: &str, unit_folder_exists: bool) -> (r: Result<
    (),
    AutomationCommandError,
>)
    ensures
        match r {
            Ok(()) => !is_blank(unit_folder@) && unit_folder_exists,
            Err(e) => folder_check(
                e,
                unit_folder@,
                unit_folder_exists,
                "Select Test Unit before printing the report."@,
            ),
        },
{
    check_unit_folder(unit_folder, unit_folder_exists, "Select Test Unit before printing the report.")
}

/// The checks before the print readiness is computed: a unit folder must be chosen and must
/// exist.
pub fn validate_ready_for_print(unit_folder: &str, unit_folder_exists: bool) -> (r: Result<
    (),
    AutomationCommandError,
>)
    ensures
        match r {
            Ok(()) => !is_blank(unit_folder@) && unit_folder_exists,
            Err(e) => folder_check(
                e,
                unit_folder@,
                unit_folder_exists,
                "Select Test Unit before printing the report."@,
            ),
        },
{
    check_unit_folder(unit_folder, unit_folder_exists, "Select Test Unit before printing the report.")
}

/// The answer to closing a report workbook.
pub fn close_report_workbook(closed: bool, path: String) -> (r: CloseReportWorkbookResult)
    ensures
        r.closed == closed,
        r.path == path,
        r.message@ == if closed {
            "The report workbook was saved and closed."@
        } else {
            "The report workbook was already closed."@
        },
{
    CloseReportWorkbookResult {
        closed,
        path,
        message: if closed {
            "The report workbook was saved and closed.".to_owned()
        } else {
            "The report workbook was already closed.".to_owned()
        },
    }
}

/// The refusal of a report command on a unit that is not ready to print: the readiness's
/// message, no details.
pub open spec fn not_ready_refusal(e: AutomationCommandError, readiness: PrintReadinessResult) -> bool {
    e.code@ == "print_validation_failed"@ && e.message == readiness.message && e.details is None
}

/// The patch that saves the transformer's serial number: after the checks of
/// `save_transformer_sn`, the trimmed number goes to `Test Summary!D1` of the unit's main report;
/// a folder without a main report is refused with `main_report_missing`.
pub fn transformer_sn_patch(
    unit_folder: &str,
    transformer_sn: &str,
    unit_folder_exists: bool,
    files: &Vec<ReportFile>,
) -> (r: Result<WorkbookPatch, AutomationCommandError>)
    ensures
        is_blank(unit_folder@) || is_blank(transformer_sn@) || !unit_folder_exists ==> r is Err
            && transformer_sn_refused(r->Err_0, unit_folder@, transformer_sn@, unit_folder_exists),
        !is_blank(unit_folder@) && !is_blank(transformer_sn@) && unit_folder_exists ==> match main_report_of(
            files@,
        ) {
            Some(p) => r is Ok && r->Ok_0.path@ == p && r->Ok_0.updates@.len() == 1 && text_update(
                r->Ok_0.updates@[0],
                "Test Summary"@,
                "D1"@,
                trim(transformer_sn@),
            ),
            None => r is Err && command_error_is(
                r->Err_0,
                "main_report_missing"@,
                "The main report workbook was not found. Check the selected unit folder and report template setup."@,
                Some("no main report workbook found under "@ + unit_folder@),
            ),
        },
{
    let sn = save_transformer_sn(unit_folder, transformer_sn, unit_folder_exists)?;
    match transformer_serial_patch(unit_folder, files, sn.as_str()) {
        Ok(patch) => Ok(patch),
        Err(e) => Err(AutomationCommandError::from_report_error(e)),
    }
}

/// The patch that writes the final operator's name: after the checks of
/// `save_final_operator_name`, a unit that is not ready to print is refused with its
/// readiness's message; then the trimmed name goes to `Test Report #2!E39` of the print report,
/// which the folder must exist and hold.
pub fn final_operator_name_patch(
    unit_folder: &str,
    operator_name: &str,
    readiness: &PrintReadinessResult,
    unit_folder_exists: bool,
    files: &Vec<ReportFile>,
) -> (r: Result<WorkbookPatch, AutomationCommandError>)
    ensures
        is_blank(unit_folder@) || is_blank(operator_name@) ==> r is Err && operator_name_refused(
            r->Err_0,
            unit_folder@,
            operator_name@,
        ),
        !is_blank(unit_folder@) && !is_blank(operator_name@) && !readiness.ready ==> r is Err
            && not_ready_refusal(r->Err_0, *readiness),
        !is_blank(unit_folder@) && !is_blank(operator_name@) && readiness.ready && !unit_folder_exists ==> r is Err
            && command_error_is(
            r->Err_0,
            "unit_folder_missing"@,
            "The selected unit folder does not exist."@,
            Some("unit folder does not exist: "@ + unit_folder@),
        ),
        !is_blank(unit_folder@) && !is_blank(operator_name@) && readiness.ready && unit_folder_exists ==> match print_report_of(
            files@,
        ) {
            Some(p) => r is Ok && r->Ok_0.path@ == p && r->Ok_0.updates@.len() == 1 && text_update(
                r->Ok_0.updates@[0],
                "Test Report #2"@,
                "E39"@,
                trim(operator_name@),
            ),
            None => r is Err && command_error_is(
                r->Err_0,
                "print_report_missing"@,
                "The print report workbook was not found. Check the selected unit folder and report template setup."@,
                Some("no print report workbook found under "@ + unit_folder@),
            ),
        },
{
    let name = save_final_operator_name(unit_folder, operator_name)?;
    if !readiness.ready {
        return Err(AutomationCommandError::print_readiness(readiness, None));
    }
    match final_operator_patch(unit_folder, unit_folder_exists, files, name.as_str()) {
        Ok(patch) => Ok(patch),
        Err(e) => Err(AutomationCommandError::from_print_report_error(e)),
    }
}

/// The print report whose print dialog is to open: after the checks of
/// `open_print_report_dialog`, a unit that is not ready to print is refused with its
/// readiness's message, and a folder without a print report with `print_report_missing`.
pub fn print_dialog_report(
    unit_folder: &str,
    unit_folder_exists: bool,
    readiness: &PrintReadinessResult,
    files: &Vec<ReportFile>,
) -> (r: Result<String, AutomationCommandError>)
    ensures
        is_blank(unit_folder@) || !unit_folder_exists ==> r is Err && folder_check(
            r->Err_0,
            unit_folder@,
            unit_folder_exists,
            "Select Test Unit before printing the report."@,
        ),
        !is_blank(unit_folder@) && unit_folder_exists && !readiness.ready ==> r is Err && not_ready_refusal(
            r->Err_0,
            *readiness,
        ),
        !is_blank(unit_folder@) && unit_folder_exists && readiness.ready ==> match print_report_of(files@) {
            Some(p) => r is Ok && r->Ok_0@ == p,
            None => r is Err && command_error_is(
                r->Err_0,
                "print_report_missing"@,
                "The print report workbook was not found. Check the selected unit folder and report template setup."@,
                Some("no print report workbook found under "@ + unit_folder@),
            ),
        },
{
    open_print_report_dialog(unit_folder, unit_folder_exists)?;
    if !readiness.ready {
        return Err(AutomationCommandError::print_readiness(readiness, None));
    }
    match require_print_report(unit_folder, files) {
        Ok(p) => Ok(p),
        Err(e) => Err(AutomationCommandError::from_print_report_error(e)),
    }
}

/// The workbook that closing a report names: the path given, or, where it is blank, the unit
/// folder's main report; a folder without one is refused with `main_report_missing`.
pub fn close_report_target(unit_folder: &str, path: &str, files: &Vec<ReportFile>) -> (r: Result<
    String,
    AutomationCommandError,
>)
    ensures
        !is_blank(path@) ==> r is Ok && r->Ok_0@ == path@,
        is_blank(path@) ==> match main_report_of(files@) {
            Some(p) => r is Ok && r->Ok_0@ == p,
            None => r is Err && command_error_is(
                r->Err_0,
                "main_report_missing"@,
                "The main report workbook was not found. Check the selected unit folder and report template setup."@,
                Some("no main report workbook found under "@ + unit_folder@),
            ),
        },
{
    if !is_blank_str(path) {
        return Ok(path.to_owned());
    }
    match require_main_report(unit_folder, files) {
        Ok(p) => Ok(p),
        Err(e) => Err(AutomationCommandError::from_report_error(e)),
    }
}

/// Characters Excel refuses in a sheet name.
pub open spec fn bad_sheet_char(c: char) -> bool {
    c == '[' || c == ']' || c == ':' || c == '*' || c == '?' || c == '/' || c == '\\'
}

/// A sheet name Excel accepts: once trimmed, 1 to 31 bytes of UTF-8, none of them one of
/// `[ ] : * ? / \\`.
pub open spec fn valid_sheet_name(sheet: Seq<char>, trimmed_bytes: nat) -> bool {
    let t = trim(sheet);
    &&& t.len() > 0
    &&& trimmed_bytes <= 31
    &&& forall|i: int| 0 <= i < t.len() ==> !bad_sheet_char(#[trigger] t[i])
}

/// The number of bytes the character takes in UTF-8.
pub open spec fn utf8_len(c: char) -> nat {
    let u = c as u32;
    if u < 0x80 {
        1
    } else if u < 0x800 {
        2
    } else if u < 0x10000 {
        3
    } else {
        4
    }
}

pub open spec fn utf8_total(s: Seq<char>) -> nat
    decreases s.len(),
{
    if s.len() == 0 {
        0
    } else {
        utf8_total(s.drop_last()) + utf8_len(s.last())
    }
}

/// Checks a sheet name before a report is opened at it.
pub fn validate_sheet_name(sheet: &str) -> (r: Result<(), AutomationError>)
    ensures
        match r {
            Ok(()) => valid_sheet_name(sheet@, utf8_total(trim(sheet@))),
            Err(e) => !valid_sheet_name(sheet@, utf8_total(trim(sheet@))) && (
            e matches AutomationError::OpenReport(m) && m@ == "invalid Excel sheet name: "@
                + sheet@),
        },
{
    let trimmed = trim_str(sheet);
    let cs = crate::text::chars_of(trimmed.as_str());
    let mut bytes: usize = 0;
    let mut ok = cs.len() > 0;
    let mut i: usize = 0;
    while i < cs.len()
        invariant
            cs@ == trim(sheet@),
            0 <= i <= cs@.len(),
            bytes == utf8_total(cs@.take(i as int)) || bytes > 31,
            bytes > 31 ==> utf8_total(cs@.take(i as int)) > 31,
            bytes <= 32,
            ok ==> (cs@.len() > 0 && forall|k: int| 0 <= k < i ==> !bad_sheet_char(#[trigger] cs@[k])),
            !ok ==> (cs@.len() == 0 || exists|k: int| 0 <= k < i && bad_sheet_char(#[trigger] cs@[k])),
        decreases cs.len() - i,
    {
        let c = cs[i];
        proof {
            assert(cs@.take(i + 1).drop_last() =~= cs@.take(i as int));
        }
        let u = c as u32;
        let w: usize = if u < 0x80 {
            1
        } else if u < 0x800 {
            2
        } else if u < 0x10000 {
            3
        } else {
            4
        };
        if bytes <= 31 {
            bytes = bytes + w;
            if bytes > 31 {
                bytes = 32;
            }
        }
        if c == '[' || c == ']' || c == ':' || c == '*' || c == '?' || c == '/' || c == '\\' {
            assert(bad_sheet_char(cs@[i as int]));
            ok = false;
        }
        i += 1;
    }
    assert(cs@.take(cs@.len() as int) =~= cs@);
    if ok && bytes <= 31 {
        Ok(())
    } else {
        Err(AutomationError::OpenReport(concat("invalid Excel sheet name: ", sheet)))
    }
}

/// Checks a cell reference (such as `B12`) before a report is opened at it, with the regular
/// expression `^[A-Z]{1,3}[1-9][0-9]{0,6}$` on the trimmed text.
pub fn validate_cell_reference(cell: &str) -> (r: Result<(), AutomationError>)
    ensures
        match r {
            Ok(()) => cell_reference_syntax(trim(cell@)),
            Err(e) => !cell_reference_syntax(trim(cell@)) && (e matches AutomationError::OpenReport(
                m,
            ) && m@ == "invalid Excel cell reference: "@ + cell@),
        },
{
    let pattern = "^[A-Z]{1,3}[1-9][0-9]{0,6}$";
    proof {
        reveal_strlit("^[A-Z]{1,3}[1-9][0-9]{0,6}$");
        assert(pattern@ =~= cell_pattern());
    }
    let regex = match CompiledRegex::compile(pattern) {
        Some(r) => r,
        None => {
            proof {
                assert(false);
            }
            return Err(AutomationError::OpenReport(concat("invalid Excel cell reference: ", cell)));
        },
    };
    let trimmed = trim_str(cell);
    if regex.is_match(trimmed.as_str()) {
        Ok(())
    } else {
        Err(AutomationError::OpenReport(concat("invalid Excel cell reference: ", cell)))
    }
}

/// The checks before a report is opened at a sheet and cell.
pub fn open_report_location(sheet: &str, cell: &str) -> (r: Result<(), AutomationError>)
    ensures
        r is Ok <==> valid_sheet_name(sheet@, utf8_total(trim(sheet@))) && cell_reference_syntax(
            trim(cell@),
        ),
        !valid_sheet_name(sheet@, utf8_total(trim(sheet@))) ==> (r matches Err(AutomationError::OpenReport(m))
            && m@ == "invalid Excel sheet name: "@ + sheet@),
        valid_sheet_name(sheet@, utf8_total(trim(sheet@))) && !cell_reference_syntax(trim(cell@)) ==> (r matches Err(
            AutomationError::OpenReport(m),
        ) && m@ == "invalid Excel cell reference: "@ + cell@),
{
    validate_sheet_name(sheet)?;
    validate_cell_reference(cell)
}

} // verus!
