use std::io::Write;

use pdu_automation::package::{patch_workbook, repair_workbook, workbook_entries};
use pdu_automation::reports::{CellUpdate, ReportError};
use pdu_automation::workbook::workbook_cell_text;

fn zipped(parts: &[(&str, &str)]) -> Vec<u8> {
    let mut writer = zip::ZipWriter::new(std::io::Cursor::new(Vec::new()));
    let options = zip::write::SimpleFileOptions::default().compression_method(zip::CompressionMethod::Deflated);
    for (name, text) in parts {
        writer.start_file(*name, options).unwrap();
        writer.write_all(text.as_bytes()).unwrap();
    }
    writer.finish().unwrap().into_inner()
}

fn workbook_package() -> Vec<u8> {
    zipped(&[
        ("[Content_Types].xml", r#"<Types><Override PartName="/xl/calcChain.xml" ContentType="c"/></Types>"#),
        ("xl/workbook.xml", r#"<workbook><sheets><sheet name="Test Summary" sheetId="1" r:id="rId1"/></sheets><calcPr calcId="1"/></workbook>"#),
        ("xl/_rels/workbook.xml.rels", r#"<Relationships><Relationship Id="rId1" Type="t" Target="worksheets/sheet1.xml"/><Relationship Id="rId3" Type="x/calcChain" Target="calcChain.xml"/></Relationships>"#),
        ("xl/worksheets/sheet1.xml", r#"<worksheet><sheetData><row r="1"><c r="D1"><v>0</v></c></row></sheetData></worksheet>"#),
        ("xl/calcChain.xml", "<calcChain/>"),
    ])
}

#[test]
fn patched_package_reads_back_the_written_text() {
    let updates = vec![CellUpdate::text("Test Summary".to_string(), "D1".to_string(), "TX-77".to_string())];
    let patched = patch_workbook(&workbook_package(), &updates).unwrap();
    let entries = workbook_entries(&patched).unwrap();
    assert_eq!(workbook_cell_text(&entries, "Test Summary", "D1").unwrap().as_deref(), Some("TX-77"));
    assert!(entries.iter().all(|e| e.name != "xl/calcChain.xml"));
    let names: Vec<&str> = entries.iter().map(|e| e.name.as_str()).collect();
    assert_eq!(names, vec!["[Content_Types].xml", "xl/workbook.xml", "xl/_rels/workbook.xml.rels", "xl/worksheets/sheet1.xml"]);
}

#[test]
fn package_without_updates_is_left_as_it_is() {
    let original = workbook_package();
    assert_eq!(patch_workbook(&original, &Vec::new()).unwrap(), original);
}

#[test]
fn bytes_that_are_not_a_package_are_a_zip_error() {
    let updates = vec![CellUpdate::text("Test Summary".to_string(), "D1".to_string(), "X".to_string())];
    assert!(matches!(patch_workbook(b"not an xlsx zip", &updates), Err(ReportError::Zip { .. })));
    assert!(matches!(workbook_entries(b"not an xlsx zip"), Err(ReportError::Zip { .. })));
}

#[test]
fn repaired_package_drops_the_calculation_chain() {
    let repaired = repair_workbook(&workbook_package()).unwrap();
    let entries = workbook_entries(&repaired).unwrap();
    assert!(entries.iter().all(|e| e.name != "xl/calcChain.xml"));
    let workbook = entries.iter().find(|e| e.name == "xl/workbook.xml").unwrap();
    assert!(String::from_utf8(workbook.data.clone()).unwrap().contains("fullCalcOnLoad=\"1\""));
}

#[test]
fn missing_sheet_fails_the_patch() {
    let updates = vec![CellUpdate::text("Nope".to_string(), "D1".to_string(), "X".to_string())];
    assert!(matches!(patch_workbook(&workbook_package(), &updates), Err(ReportError::SheetMissing(_))));
}
