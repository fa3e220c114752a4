use vstd::prelude::*;

use crate::automation::AutomationError;
use crate::text::{chars_of, push_str, split_chars, split_on, str_eq, string_of, string_of_range, trim, trim_str};

verus! {

/// The PowerShell helper that brings a report workbook up in the user's own Excel session and
/// selects a sheet and cell. It reads `PDU_REPORT_PATH`, `PDU_REPORT_SHEET`, `PDU_REPORT_CELL`
/// and writes `ok` or `error:<detail>` to the file named by `PDU_REPORT_STATUS_PATH`.
pub const OPEN_EXCEL_AT_LOCATION_SCRIPT: &'static str = r#"
$ErrorActionPreference = 'Stop'
$rawPath = $env:PDU_REPORT_PATH
$sheet = $env:PDU_REPORT_SHEET
$cell = $env:PDU_REPORT_CELL
$statusPath = $env:PDU_REPORT_STATUS_PATH
$launchedExcel = $false
$excel = $null
$workbook = $null
$windowStateBefore = $null
$targetWindowState = -4137

Add-Type -TypeDefinition @"
using System;
using System.Collections.Generic;
using System.Runtime.InteropServices;
using System.Text;
public static class PduExcelLocationFocus {
  public delegate bool EnumWindowProc(IntPtr hWnd, IntPtr parameter);
  [DllImport("user32.dll")] private static extern bool EnumWindows(EnumWindowProc callback, IntPtr parameter);
  [DllImport("user32.dll")] private static extern bool EnumChildWindows(IntPtr parent, EnumWindowProc callback, IntPtr parameter);
  [DllImport("user32.dll", CharSet = CharSet.Unicode)] private static extern int GetClassName(IntPtr hWnd, StringBuilder className, int maxCount);
  [DllImport("oleacc.dll")] public static extern int AccessibleObjectFromWindow(IntPtr hWnd, uint objectId, ref Guid interfaceId, [MarshalAs(UnmanagedType.Interface)] out object nativeObject);
  [DllImport("user32.dll")] public static extern bool BringWindowToTop(IntPtr hWnd);
  [DllImport("user32.dll")] public static extern bool SetForegroundWindow(IntPtr hWnd);

  private static string WindowClassName(IntPtr hWnd) {
    var className = new StringBuilder(256);
    GetClassName(hWnd, className, className.Capacity);
    return className.ToString();
  }

  public static IntPtr[] FindExcelDocumentWindows() {
    var documentWindows = new List<IntPtr>();
    EnumWindows((topLevelWindow, parameter) => {
      if (!string.Equals(WindowClassName(topLevelWindow), "XLMAIN", StringComparison.OrdinalIgnoreCase)) {
        return true;
      }

      EnumChildWindows(topLevelWindow, (childWindow, childParameter) => {
        if (string.Equals(WindowClassName(childWindow), "EXCEL7", StringComparison.OrdinalIgnoreCase)) {
          documentWindows.Add(childWindow);
        }
        return true;
      }, IntPtr.Zero);
      return true;
    }, IntPtr.Zero);
    return documentWindows.ToArray();
  }
}
"@

function Write-LocationStatus([string]$value) {
  [System.IO.File]::WriteAllText($statusPath, $value, [System.Text.Encoding]::UTF8)
}

function Normalize-PduPath([string]$value) {
  if ([string]::IsNullOrWhiteSpace($value)) {
    return $value
  }
  if ($value.StartsWith('\\?\UNC\', [System.StringComparison]::OrdinalIgnoreCase)) {
    return '\\' + $value.Substring(8)
  }
  if ($value.StartsWith('\\?\', [System.StringComparison]::OrdinalIgnoreCase)) {
    return $value.Substring(4)
  }
  try {
    return [System.IO.Path]::GetFullPath($value)
  } catch {
    return $value
  }
}

function Release-PduComObject($value) {
  if ($null -eq $value -or -not [Runtime.InteropServices.Marshal]::IsComObject($value)) {
    return
  }

  try {
    [void][Runtime.InteropServices.Marshal]::FinalReleaseComObject($value)
  } catch {
  }
}

function Get-ExcelWorkbookBinding([string]$targetPath) {
  $interfaceId = [Guid]'00020400-0000-0000-C000-000000000046'
  $nativeObjectId = [uint32]4294967280

  foreach ($documentWindowHandle in [PduExcelLocationFocus]::FindExcelDocumentWindows()) {
    $nativeWindow = $null
    $excelApplication = $null
    $candidate = $null

    try {
      $result = [PduExcelLocationFocus]::AccessibleObjectFromWindow(
        $documentWindowHandle,
        $nativeObjectId,
        [ref]$interfaceId,
        [ref]$nativeWindow
      )

      if ($result -eq 0 -and $null -ne $nativeWindow) {
        $excelApplication = $nativeWindow.Application
        for ($index = 1; $index -le $excelApplication.Workbooks.Count; $index += 1) {
          $candidate = $excelApplication.Workbooks.Item($index)
          $candidatePath = Normalize-PduPath $candidate.FullName
          if ([string]::Equals($candidatePath, $targetPath, [System.StringComparison]::OrdinalIgnoreCase)) {
            return [PSCustomObject]@{
              Excel = $excelApplication
              Workbook = $candidate
              NativeWindow = $nativeWindow
            }
          }

          Release-PduComObject $candidate
          $candidate = $null
        }
      }
    } catch {
    }

    Release-PduComObject $candidate
    Release-PduComObject $excelApplication
    Release-PduComObject $nativeWindow
  }

  return $null
}

function Focus-ExcelWindow($excelApplication) {
  try {
    $hwnd = [IntPtr]$excelApplication.Hwnd
    if ($hwnd -ne [IntPtr]::Zero) {
      [void][PduExcelLocationFocus]::BringWindowToTop($hwnd)
      [void][PduExcelLocationFocus]::SetForegroundWindow($hwnd)
    }
  } catch {
  }
}

$path = Normalize-PduPath $rawPath

function Select-ReportLocation($excelApplication, $workbookToFocus, [string]$sheetName, [string]$cellReference) {
  [void]$workbookToFocus.Activate()
  try {
    [void]$workbookToFocus.Windows.Item(1).Activate()
  } catch {
  }
  $worksheetToFocus = $workbookToFocus.Worksheets.Item($sheetName)
  [void]$worksheetToFocus.Activate()
  $rangeToFocus = $worksheetToFocus.Range($cellReference)
  [void]$excelApplication.Goto($rangeToFocus, $false)
  try {
    $activeWindow = $excelApplication.ActiveWindow
    if ($null -ne $activeWindow) {
      $visibleRows = [int]$activeWindow.VisibleRange.Rows.Count
      $visibleColumns = [int]$activeWindow.VisibleRange.Columns.Count
      $rowOffset = [int][Math]::Floor($visibleRows / 2)
      $columnOffset = [int][Math]::Floor($visibleColumns / 2)
      $activeWindow.ScrollRow = [Math]::Max(1, [int]$rangeToFocus.Row - $rowOffset)
      $activeWindow.ScrollColumn = [Math]::Max(1, [int]$rangeToFocus.Column - $columnOffset)
    }
  } catch {
  }
}

function Test-ReportLocation($excelApplication, [string]$targetPath, [string]$sheetName, [string]$cellReference) {
  try {
    if ($null -eq $excelApplication.ActiveWorkbook -or
        $null -eq $excelApplication.ActiveSheet -or
        $null -eq $excelApplication.Selection) {
      return $false
    }

    $activeWorkbookPath = Normalize-PduPath $excelApplication.ActiveWorkbook.FullName
    $activeSheetName = [string]$excelApplication.ActiveSheet.Name
    $activeCellAddress = [string]$excelApplication.Selection.Address($false, $false)

    return [string]::Equals($activeWorkbookPath, $targetPath, [System.StringComparison]::OrdinalIgnoreCase) -and
      [string]::Equals($activeSheetName, $sheetName, [System.StringComparison]::OrdinalIgnoreCase) -and
      [string]::Equals($activeCellAddress, $cellReference, [System.StringComparison]::OrdinalIgnoreCase)
  } catch {
    return $false
  }
}

try {
  $binding = Get-ExcelWorkbookBinding $path
  if ($null -eq $binding) {
    Start-Process -FilePath $path | Out-Null
    $launchedExcel = $true
    $launchDeadline = [DateTime]::UtcNow.AddSeconds(20)

    while ($null -eq $binding -and [DateTime]::UtcNow -lt $launchDeadline) {
      Start-Sleep -Milliseconds 250
      $binding = Get-ExcelWorkbookBinding $path
    }
  }

  if ($null -eq $binding) {
    throw "Excel did not expose the requested workbook window for cell selection."
  }

  $excel = $binding.Excel
  $workbook = $binding.Workbook
  $nativeWindow = $binding.NativeWindow
  try {
    $windowStateBefore = [int]$excel.WindowState
  } catch {
  }

  $excel.Visible = $true
  if (-not $launchedExcel -and $null -ne $windowStateBefore -and $windowStateBefore -ne -4140) {
    $targetWindowState = $windowStateBefore
  }
  try {
    $excel.WindowState = $targetWindowState
  } catch {
  }
  $sheet = $sheet.Trim()
  $cell = $cell.Trim().ToUpperInvariant()

  $readyDeadline = [DateTime]::UtcNow.AddSeconds(15)
  while (-not $excel.Ready -and [DateTime]::UtcNow -lt $readyDeadline) {
    Start-Sleep -Milliseconds 250
  }

  Start-Sleep -Milliseconds 250
  if (-not (Test-ReportLocation $excel $path $sheet $cell)) {
    Select-ReportLocation $excel $workbook $sheet $cell
    Start-Sleep -Milliseconds 250
  }

  if (-not (Test-ReportLocation $excel $path $sheet $cell)) {
    Start-Sleep -Milliseconds 500
    Select-ReportLocation $excel $workbook $sheet $cell
    Start-Sleep -Milliseconds 250
  }

  if (-not (Test-ReportLocation $excel $path $sheet $cell)) {
    throw "Excel opened the workbook but did not stay focused on $sheet!$cell."
  }

  try {
    if ([int]$excel.WindowState -ne $targetWindowState) {
      $excel.WindowState = $targetWindowState
    }
  } catch {
  }
  Focus-ExcelWindow $excel
  Write-LocationStatus 'ok'
  Release-PduComObject $workbook
  Release-PduComObject $nativeWindow
  Release-PduComObject $excel
} catch {
  Write-LocationStatus ("error:" + $_.Exception.Message)
  Release-PduComObject $workbook
  Release-PduComObject $nativeWindow
  Release-PduComObject $excel
  exit 1
}
"#;

/// The PowerShell helper that closes the workbook at `PDU_REPORT_PATH` in whichever Excel
/// session holds it, saving it first; it prints `closed` or `not-open`.
pub const CLOSE_EXCEL_WORKBOOK_SCRIPT: &'static str = r#"
$ErrorActionPreference = 'Stop'
$rawPath = $env:PDU_REPORT_PATH

Add-Type -TypeDefinition @"
using System;
using System.Collections.Generic;
using System.Runtime.InteropServices;
using System.Text;
public static class PduExcelWorkbookClose {
  public delegate bool EnumWindowProc(IntPtr hWnd, IntPtr parameter);
  [DllImport("user32.dll")] private static extern bool EnumWindows(EnumWindowProc callback, IntPtr parameter);
  [DllImport("user32.dll")] private static extern bool EnumChildWindows(IntPtr parent, EnumWindowProc callback, IntPtr parameter);
  [DllImport("user32.dll", CharSet = CharSet.Unicode)] private static extern int GetClassName(IntPtr hWnd, StringBuilder className, int maxCount);
  [DllImport("oleacc.dll")] public static extern int AccessibleObjectFromWindow(IntPtr hWnd, uint objectId, ref Guid interfaceId, [MarshalAs(UnmanagedType.Interface)] out object nativeObject);

  private static string WindowClassName(IntPtr hWnd) {
    var className = new StringBuilder(256);
    GetClassName(hWnd, className, className.Capacity);
    return className.ToString();
  }

  public static IntPtr[] FindExcelDocumentWindows() {
    var documentWindows = new List<IntPtr>();
    EnumWindows((topLevelWindow, parameter) => {
      if (!string.Equals(WindowClassName(topLevelWindow), "XLMAIN", StringComparison.OrdinalIgnoreCase)) {
        return true;
      }

      EnumChildWindows(topLevelWindow, (childWindow, childParameter) => {
        if (string.Equals(WindowClassName(childWindow), "EXCEL7", StringComparison.OrdinalIgnoreCase)) {
          documentWindows.Add(childWindow);
        }
        return true;
      }, IntPtr.Zero);
      return true;
    }, IntPtr.Zero);
    return documentWindows.ToArray();
  }
}
"@

function Normalize-PduPath([string]$value) {
  if ([string]::IsNullOrWhiteSpace($value)) {
    return $value
  }
  if ($value.StartsWith('\\?\UNC\', [System.StringComparison]::OrdinalIgnoreCase)) {
    return '\\' + $value.Substring(8)
  }
  if ($value.StartsWith('\\?\', [System.StringComparison]::OrdinalIgnoreCase)) {
    return $value.Substring(4)
  }
  try {
    return [System.IO.Path]::GetFullPath($value)
  } catch {
    return $value
  }
}

function Release-PduComObject($value) {
  if ($null -eq $value -or -not [Runtime.InteropServices.Marshal]::IsComObject($value)) {
    return
  }

  try {
    [void][Runtime.InteropServices.Marshal]::FinalReleaseComObject($value)
  } catch {
  }
}

$path = Normalize-PduPath $rawPath
$interfaceId = [Guid]'00020400-0000-0000-C000-000000000046'
$nativeObjectId = [uint32]4294967280
$closed = $false

foreach ($documentWindowHandle in [PduExcelWorkbookClose]::FindExcelDocumentWindows()) {
  $nativeWindow = $null
  $excel = $null
  $candidate = $null

  try {
    $result = [PduExcelWorkbookClose]::AccessibleObjectFromWindow(
      $documentWindowHandle,
      $nativeObjectId,
      [ref]$interfaceId,
      [ref]$nativeWindow
    )

    if ($result -eq 0 -and $null -ne $nativeWindow) {
      $excel = $nativeWindow.Application
      for ($index = 1; $index -le $excel.Workbooks.Count; $index += 1) {
        $candidate = $excel.Workbooks.Item($index)
        $candidatePath = Normalize-PduPath $candidate.FullName
        if ([string]::Equals($candidatePath, $path, [System.StringComparison]::OrdinalIgnoreCase)) {
          $displayAlertsBefore = [bool]$excel.DisplayAlerts
          try {
            $excel.DisplayAlerts = $false
            [void]$candidate.Close($true)
            $closed = $true
            if ([int]$excel.Workbooks.Count -eq 0) {
              $excel.Quit()
            }
          } finally {
            try {
              $excel.DisplayAlerts = $displayAlertsBefore
            } catch {
            }
          }
          break
        }

        Release-PduComObject $candidate
        $candidate = $null
      }
    }
  } finally {
    Release-PduComObject $candidate
    Release-PduComObject $excel
    Release-PduComObject $nativeWindow
  }

  if ($closed) {
    break
  }
}

if ($closed) {
  Write-Output 'closed'
} else {
  Write-Output 'not-open'
}
"#;

/// The PowerShell helper that opens the workbook at `PDU_REPORT_PATH` and shows Excel's print
/// dialog for it.
pub const OPEN_PRINT_DIALOG_SCRIPT: &'static str = r#"
$ErrorActionPreference = 'Stop'
$path = $env:PDU_REPORT_PATH
Add-Type -TypeDefinition @"
using System;
using System.Runtime.InteropServices;
public static class PduExcelWindowFocus {
  [DllImport("user32.dll")] public static extern bool ShowWindow(IntPtr hWnd, int nCmdShow);
  [DllImport("user32.dll")] public static extern bool BringWindowToTop(IntPtr hWnd);
  [DllImport("user32.dll")] public static extern bool SetForegroundWindow(IntPtr hWnd);
}
"@
try {
  $excel = [Runtime.InteropServices.Marshal]::GetActiveObject('Excel.Application')
} catch {
  $excel = New-Object -ComObject Excel.Application
}
$excel.Visible = $true
$workbook = $null
foreach ($candidate in @($excel.Workbooks)) {
  if ([string]::Equals($candidate.FullName, $path, [System.StringComparison]::OrdinalIgnoreCase)) {
    $workbook = $candidate
    break
  }
}
if ($null -eq $workbook) {
  $workbook = $excel.Workbooks.Open($path)
}
$workbook.Activate()
try {
  $workbook.Windows.Item(1).Activate()
} catch {
  Write-Output ("Activating workbook window failed: " + $_.Exception.Message)
}

function Focus-ExcelWindow {
  try {
    $hwnd = [IntPtr]$excel.Hwnd
    if ($hwnd -ne [IntPtr]::Zero) {
      [void][PduExcelWindowFocus]::ShowWindow($hwnd, 9)
      [void][PduExcelWindowFocus]::BringWindowToTop($hwnd)
      [void][PduExcelWindowFocus]::SetForegroundWindow($hwnd)
    }
  } catch {
    Write-Output ("Focusing Excel window failed: " + $_.Exception.Message)
  }
}

try {
  $activeSheetSelected = $false
  foreach ($worksheet in @($workbook.Worksheets)) {
    if ($worksheet.Visible -eq -1) {
      if (-not $activeSheetSelected) {
        $worksheet.Select($true)
        $activeSheetSelected = $true
      } else {
        $worksheet.Select($false)
      }
    }
  }

  if (-not $activeSheetSelected) {
    throw 'The workbook has no visible worksheets to print.'
  }
} catch {
  Write-Output ("Selecting all worksheets failed: " + $_.Exception.Message)
}

$executeMsoError = $null
try {
  Focus-ExcelWindow
  $excel.CommandBars.ExecuteMso('PrintPreviewAndPrint')
  Start-Sleep -Milliseconds 200
  Focus-ExcelWindow
  exit 0
} catch {
  $executeMsoError = $_.Exception.Message
}

$missing = [Type]::Missing
try {
  Focus-ExcelWindow
  [void]$workbook.PrintOut($missing, $missing, $missing, $true, $missing, $false, $true, $missing, $false)
  Start-Sleep -Milliseconds 200
  Focus-ExcelWindow
  exit 0
} catch {
  throw ("PrintPreviewAndPrint failed: " + $executeMsoError + "; workbook print preview failed: " + $_.Exception.Message)
}
"#;

/// The number of byte-order marks at the start of a helper's output.
pub open spec fn lead_bom(s: Seq<char>) -> nat
    decreases s.len(),
{
    if s.len() > 0 && s[0] == '\u{feff}' {
        1 + lead_bom(s.drop_first())
    } else {
        0
    }
}

/// A helper's output without its leading byte-order marks, trimmed.
pub open spec fn helper_text(s: Seq<char>) -> Seq<char> {
    trim(s.skip(lead_bom(s) as int))
}

/// The last line of the close helper's output, trimmed: the status it reports.
pub open spec fn close_status_line(s: Seq<char>) -> Seq<char> {
    trim(split_on(helper_text(s), '\n').last())
}

proof fn lemma_lead_bom_bound(s: Seq<char>)
    ensures
        lead_bom(s) <= s.len(),
        forall|k: int| 0 <= k < lead_bom(s) ==> s[k] == '\u{feff}',
        lead_bom(s) < s.len() ==> s[lead_bom(s) as int] != '\u{feff}',
    decreases s.len(),
{
    if s.len() > 0 && s[0] == '\u{feff}' {
        lemma_lead_bom_bound(s.drop_first());
        assert forall|k: int| 0 <= k < lead_bom(s) implies s[k] == '\u{feff}' by {
            if k > 0 {
                assert(s[k] == s.drop_first()[k - 1]);
            }
        }
    }
}

fn helper_text_of(out: &str) -> (t: String)
    ensures
        t@ == helper_text(out@),
{
    let cs = chars_of(out);
    let mut i: usize = 0;
    assert(out@.skip(0) =~= out@);
    while i < cs.len() && cs[i] == '\u{feff}'
        invariant
            cs@ == out@,
            i <= cs.len(),
            lead_bom(out@) == i + lead_bom(out@.skip(i as int)),
        decreases cs.len() - i,
    {
        proof {
            assert(out@.skip(i as int).drop_first() =~= out@.skip(i + 1));
        }
        i = i + 1;
    }
    proof {
        assert(lead_bom(out@.skip(i as int)) == 0);
    }
    let rest = string_of_range(cs.as_slice(), i, cs.len());
    assert(rest@ =~= out@.skip(i as int));
    trim_str(rest.as_str())
}

/// What the close helper's output says: `Ok(true)` when it closed the workbook, `Ok(false)` when
/// the workbook was not open, and an error naming the workbook and the status otherwise.
pub fn close_helper_outcome(stdout: &str, path: &str) -> (r: Result<bool, AutomationError>)
    ensures
        close_status_line(stdout@) == "closed"@ ==> r == Ok::<bool, AutomationError>(true),
        close_status_line(stdout@) == "not-open"@ ==> r == Ok::<bool, AutomationError>(false),
        close_status_line(stdout@) != "closed"@ && close_status_line(stdout@) != "not-open"@ ==> (
        r matches Err(AutomationError::OpenReport(m))
            && m@ == "Excel workbook close helper returned an unexpected status for "@ + path@
            + ": "@ + close_status_line(stdout@)),
{
    let text = helper_text_of(stdout);
    let cs = chars_of(text.as_str());
    let lines = split_chars(cs.as_slice(), '\n');
    proof {
        crate::text::lemma_split_nonempty(text@, '\n');
    }
    let last = string_of(lines[lines.len() - 1].as_slice());
    let status = trim_str(last.as_str());
    proof {
        reveal_strlit("closed");
        reveal_strlit("not-open");
        assert(lines@[lines@.len() - 1]@ == split_on(text@, '\n').last());
        assert(status@ == close_status_line(stdout@));
        assert("closed"@.len() != "not-open"@.len());
    }
    if str_eq(status.as_str(), "closed") {
        Ok(true)
    } else if str_eq(status.as_str(), "not-open") {
        Ok(false)
    } else {
        let mut m = String::new();
        push_str(&mut m, "Excel workbook close helper returned an unexpected status for ");
        push_str(&mut m, path);
        push_str(&mut m, ": ");
        push_str(&mut m, status.as_str());
        Err(AutomationError::OpenReport(m))
    }
}

/// The detail of a failed selection: the status without its `error:` prefix.
pub open spec fn location_detail(status: Seq<char>) -> Seq<char> {
    if status.len() >= 6 && status.take(6) == "error:"@ {
        status.skip(6)
    } else {
        status
    }
}

/// What the status file of the location helper says: success on `ok`, and otherwise an error
/// naming the sheet, the cell, the workbook and the helper's detail.
pub fn location_helper_outcome(status: &str, sheet: &str, cell: &str, path: &str) -> (r: Result<
    (),
    AutomationError,
>)
    ensures
        helper_text(status@) == "ok"@ ==> r is Ok,
        helper_text(status@) != "ok"@ ==> (r matches Err(AutomationError::OpenReport(m)) && m@
            == "failed to open Excel location "@ + sheet@ + "!"@ + cell@ + " in "@ + path@ + ": "@
            + location_detail(helper_text(status@))),
{
    let text = helper_text_of(status);
    if str_eq(text.as_str(), "ok") {
        return Ok(());
    }
    let cs = chars_of(text.as_str());
    proof {
        reveal_strlit("error:");
    }
    let detail = if cs.len() >= 6 && cs[0] == 'e' && cs[1] == 'r' && cs[2] == 'r' && cs[3] == 'o'
        && cs[4] == 'r' && cs[5] == ':' {
        proof {
            assert(text@.take(6) =~= "error:"@);
        }
        string_of_range(cs.as_slice(), 6, cs.len())
    } else {
        proof {
            if text@.len() >= 6 && text@.take(6) == "error:"@ {
                assert(text@[0] == text@.take(6)[0]);
                assert(text@[1] == text@.take(6)[1]);
                assert(text@[2] == text@.take(6)[2]);
                assert(text@[3] == text@.take(6)[3]);
                assert(text@[4] == text@.take(6)[4]);
                assert(text@[5] == text@.take(6)[5]);
            }
        }
        text.clone()
    };
    let mut m = String::new();
    push_str(&mut m, "failed to open Excel location ");
    push_str(&mut m, sheet);
    push_str(&mut m, "!");
    push_str(&mut m, cell);
    push_str(&mut m, " in ");
    push_str(&mut m, path);
    push_str(&mut m, ": ");
    push_str(&mut m, detail.as_str());
    Err(AutomationError::OpenReport(m))
}

/// The error of a print dialog helper that failed: its error output when there is any, else its
/// standard output, each trimmed.
pub fn print_dialog_failure(path: &str, stderr: &str, stdout: &str) -> (e: AutomationError)
    ensures
        e matches AutomationError::OpenReport(m) && m@ == "failed to open Excel print dialog for "@
            + path@ + (if trim(stderr@).len() > 0 {
            ": "@ + trim(stderr@)
        } else if trim(stdout@).len() > 0 {
            ": "@ + trim(stdout@)
        } else {
            Seq::empty()
        }),
{
    let err = trim_str(stderr);
    let out = trim_str(stdout);
    let mut m = String::new();
    push_str(&mut m, "failed to open Excel print dialog for ");
    push_str(&mut m, path);
    let detail = if !err.as_str().is_empty() {
        err
    } else {
        out
    };
    if !detail.as_str().is_empty() {
        push_str(&mut m, ": ");
        push_str(&mut m, detail.as_str());
    }
    AutomationError::OpenReport(m)
}

} // verus!
