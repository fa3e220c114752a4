use pdu_automation::automation::AutomationError;
use pdu_automation::excel::{
    close_helper_outcome, location_helper_outcome, print_dialog_failure, CLOSE_EXCEL_WORKBOOK_SCRIPT,
    OPEN_EXCEL_AT_LOCATION_SCRIPT, OPEN_PRINT_DIALOG_SCRIPT,
};

#[test]
fn excel_location_launcher_uses_shell_owned_excel_session() {
    assert!(OPEN_EXCEL_AT_LOCATION_SCRIPT.contains("AccessibleObjectFromWindow"));
    assert!(OPEN_EXCEL_AT_LOCATION_SCRIPT.contains("FindExcelDocumentWindows"));
    assert!(OPEN_EXCEL_AT_LOCATION_SCRIPT.contains("Start-Process -FilePath $path"));
    assert!(OPEN_EXCEL_AT_LOCATION_SCRIPT.contains("Get-ExcelWorkbookBinding $path"));
    assert!(OPEN_EXCEL_AT_LOCATION_SCRIPT.contains("$workbookToFocus.Activate()"));
    assert!(OPEN_EXCEL_AT_LOCATION_SCRIPT.contains("function Test-ReportLocation"));
    assert!(OPEN_EXCEL_AT_LOCATION_SCRIPT
        .contains("if (-not (Test-ReportLocation $excel $path $sheet $cell))"));
    assert!(OPEN_EXCEL_AT_LOCATION_SCRIPT.contains("Goto($rangeToFocus, $false)"));
    assert!(OPEN_EXCEL_AT_LOCATION_SCRIPT.contains("VisibleRange.Rows.Count"));
    assert!(OPEN_EXCEL_AT_LOCATION_SCRIPT.contains("$excel.WindowState = $targetWindowState"));
    assert!(
        OPEN_EXCEL_AT_LOCATION_SCRIPT.contains("return [System.IO.Path]::GetFullPath($value)")
    );
    assert!(OPEN_EXCEL_AT_LOCATION_SCRIPT.contains("return $value"));
    assert!(!OPEN_EXCEL_AT_LOCATION_SCRIPT.contains("ShowWindow"));
    assert!(!OPEN_EXCEL_AT_LOCATION_SCRIPT.contains("for ($attempt"));
    assert!(!OPEN_EXCEL_AT_LOCATION_SCRIPT.contains("GetActiveObject"));
    assert!(!OPEN_EXCEL_AT_LOCATION_SCRIPT.contains("BindToMoniker"));
    assert!(!OPEN_EXCEL_AT_LOCATION_SCRIPT.contains("New-Object -ComObject Excel.Application"));
    assert!(!OPEN_EXCEL_AT_LOCATION_SCRIPT.contains("$excel.Quit()"));
    assert!(!OPEN_EXCEL_AT_LOCATION_SCRIPT.contains("while ($true)"));
    assert!(OPEN_EXCEL_AT_LOCATION_SCRIPT.contains("Write-LocationStatus 'ok'"));
    assert!(OPEN_EXCEL_AT_LOCATION_SCRIPT.contains("FinalReleaseComObject($value)"));
    assert!(OPEN_EXCEL_AT_LOCATION_SCRIPT.contains("Release-PduComObject $excel"));
    assert!(OPEN_EXCEL_AT_LOCATION_SCRIPT.contains("SetForegroundWindow"));
}

#[test]
fn excel_workbook_close_targets_only_the_matching_workbook() {
    assert!(CLOSE_EXCEL_WORKBOOK_SCRIPT.contains("AccessibleObjectFromWindow"));
    assert!(CLOSE_EXCEL_WORKBOOK_SCRIPT.contains("FindExcelDocumentWindows"));
    assert!(CLOSE_EXCEL_WORKBOOK_SCRIPT.contains("$candidate.Close($true)"));
    assert!(CLOSE_EXCEL_WORKBOOK_SCRIPT.contains("[int]$excel.Workbooks.Count -eq 0"));
    assert!(CLOSE_EXCEL_WORKBOOK_SCRIPT.contains("$excel.Quit()"));
    assert!(CLOSE_EXCEL_WORKBOOK_SCRIPT.contains("$candidate.FullName"));
    assert!(CLOSE_EXCEL_WORKBOOK_SCRIPT.contains("OrdinalIgnoreCase"));
    assert!(!CLOSE_EXCEL_WORKBOOK_SCRIPT.contains("GetActiveObject"));
    assert!(!CLOSE_EXCEL_WORKBOOK_SCRIPT.contains("BindToMoniker"));
}

#[test]
fn print_dialog_script_targets_the_report_path() {
    assert!(OPEN_PRINT_DIALOG_SCRIPT.contains("$env:PDU_REPORT_PATH"));
}

#[test]
fn close_helper_reports_closed_after_bom_and_blank_lines() {
    let r = close_helper_outcome("\u{feff}starting\r\nclosed\r\n\r\n", "C:/u/report.xlsx");
    assert!(matches!(r, Ok(true)));
}

#[test]
fn close_helper_reports_not_open() {
    let r = close_helper_outcome("not-open\n", "C:/u/report.xlsx");
    assert!(matches!(r, Ok(false)));
}

#[test]
fn close_helper_rejects_unknown_status() {
    match close_helper_outcome("  busy  ", "C:/u/report.xlsx") {
        Err(AutomationError::OpenReport(m)) => assert_eq!(
            m,
            "Excel workbook close helper returned an unexpected status for C:/u/report.xlsx: busy"
        ),
        _ => panic!("expected an open-report error"),
    }
    match close_helper_outcome("", "r.xlsx") {
        Err(AutomationError::OpenReport(m)) => {
            assert_eq!(m, "Excel workbook close helper returned an unexpected status for r.xlsx: ")
        }
        _ => panic!("expected an open-report error"),
    }
}

#[test]
fn location_helper_accepts_ok_status() {
    assert!(location_helper_outcome("\u{feff}ok\r\n", "Test Summary", "B7", "r.xlsx").is_ok());
}

#[test]
fn location_helper_strips_error_prefix() {
    match location_helper_outcome("error:sheet not found\n", "Data", "A1", "r.xlsx") {
        Err(AutomationError::OpenReport(m)) => {
            assert_eq!(m, "failed to open Excel location Data!A1 in r.xlsx: sheet not found")
        }
        _ => panic!("expected an open-report error"),
    }
    match location_helper_outcome("odd", "Data", "A1", "r.xlsx") {
        Err(AutomationError::OpenReport(m)) => {
            assert_eq!(m, "failed to open Excel location Data!A1 in r.xlsx: odd")
        }
        _ => panic!("expected an open-report error"),
    }
}

#[test]
fn print_dialog_failure_prefers_error_output() {
    match print_dialog_failure("r.xlsx", "  boom \n", "ignored") {
        AutomationError::OpenReport(m) => assert_eq!(m, "failed to open Excel print dialog for r.xlsx: boom"),
        _ => panic!("expected an open-report error"),
    }
    match print_dialog_failure("r.xlsx", " ", "out") {
        AutomationError::OpenReport(m) => assert_eq!(m, "failed to open Excel print dialog for r.xlsx: out"),
        _ => panic!("expected an open-report error"),
    }
    match print_dialog_failure("r.xlsx", "", "") {
        AutomationError::OpenReport(m) => assert_eq!(m, "failed to open Excel print dialog for r.xlsx"),
        _ => panic!("expected an open-report error"),
    }
}
