use pdu_automation::reports::{CellUpdate, CellValue, ReportError};
use pdu_automation::sheet_xml::{patch_cell_xml, sheet_cell_text};
use pdu_automation::workbook::{entry_text, group_updates, workbook_cell_text, workbook_rewrite, ZipEntry};

fn entry(name: &str, text: &str) -> ZipEntry {
    ZipEntry { name: name.to_string(), is_dir: false, data: text.as_bytes().to_vec() }
}

fn package() -> Vec<ZipEntry> {
    vec![
        entry("[Content_Types].xml", r#"<Types><Override PartName="/xl/calcChain.xml" ContentType="c"/><Override PartName="/xl/workbook.xml" ContentType="x"/></Types>"#),
        entry("xl/workbook.xml", r#"<workbook><sheets><sheet name="Test Summary" sheetId="1" r:id="rId1"/><sheet name="Other" sheetId="2" r:id="rId2"/></sheets><calcPr calcId="1"/></workbook>"#),
        entry("xl/_rels/workbook.xml.rels", r#"<Relationships><Relationship Id="rId1" Type="t" Target="worksheets/sheet1.xml"/><Relationship Id="rId2" Type="t" Target="worksheets/sheet2.xml"/><Relationship Id="rId3" Type="x/calcChain" Target="calcChain.xml"/></Relationships>"#),
        entry("xl/worksheets/sheet1.xml", r#"<worksheet><sheetData><row r="2"><c r="B2"><v>0</v></c></row></sheetData></worksheet>"#),
        entry("xl/worksheets/sheet2.xml", r#"<worksheet><sheetData></sheetData></worksheet>"#),
        entry("xl/calcChain.xml", "<calcChain/>"),
    ]
}

fn text_update(sheet: &str, cell: &str, value: &str) -> CellUpdate {
    CellUpdate::text(sheet.to_string(), cell.to_string(), value.to_string())
}

#[test]
fn entry_text_reads_parts_and_reports_missing_or_binary_ones() {
    let mut entries = package();
    assert!(entry_text(&entries, "xl/workbook.xml").unwrap().starts_with("<workbook>"));
    match entry_text(&entries, "xl/missing.xml") {
        Err(ReportError::WorkbookPartMissing(name)) => assert_eq!(name, "xl/missing.xml"),
        _ => panic!("expected a missing part"),
    }
    entries.push(ZipEntry { name: "bin".to_string(), is_dir: false, data: vec![0xff, 0xfe] });
    match entry_text(&entries, "bin") {
        Err(ReportError::InvalidUtf8(name)) => assert_eq!(name, "bin"),
        _ => panic!("expected invalid UTF-8"),
    }
}

#[test]
fn updates_are_grouped_by_sheet_in_first_seen_order() {
    let updates = vec![
        text_update("A", "A1", "1"),
        text_update("B", "A1", "2"),
        text_update("A", "A2", "3"),
    ];
    let groups = group_updates(&updates);
    assert_eq!(groups.len(), 2);
    assert_eq!(groups[0].0, "A");
    assert_eq!(groups[0].1, vec![0, 2]);
    assert_eq!(groups[1].0, "B");
    assert_eq!(groups[1].1, vec![1]);
}

#[test]
fn rewrite_patches_updated_sheets_and_drops_the_calc_chain() {
    let updates = vec![text_update("Test Summary", "B2", "SN1"), CellUpdate::number("Test Summary".to_string(), "C2".to_string(), "4.5".to_string())];
    let rewrite = workbook_rewrite(&package(), &updates, false).unwrap();
    let sheet = rewrite.replacements.get("xl/worksheets/sheet1.xml").unwrap();
    assert!(sheet.contains(r#"<c r="B2" t="inlineStr"><is><t>SN1</t></is></c>"#));
    assert!(sheet.contains(r#"<c r="C2"><v>4.5</v></c>"#));
    assert!(rewrite.replacements.get("xl/worksheets/sheet2.xml").is_none());
    assert!(rewrite.replacements.get("xl/workbook.xml").unwrap().contains(r#"fullCalcOnLoad="1""#));
    assert!(!rewrite.replacements.get("xl/_rels/workbook.xml.rels").unwrap().contains("calcChain"));
    assert!(!rewrite.replacements.get("[Content_Types].xml").unwrap().contains("calcChain"));
    assert_eq!(rewrite.removed, vec!["xl/calcChain.xml".to_string()]);
}

#[test]
fn repair_rewrites_every_sheet() {
    let rewrite = workbook_rewrite(&package(), &Vec::new(), true).unwrap();
    assert!(rewrite.replacements.get("xl/worksheets/sheet1.xml").is_some());
    assert!(rewrite.replacements.get("xl/worksheets/sheet2.xml").is_some());
}

#[test]
fn rewrite_reports_unknown_sheets_and_missing_parts() {
    match workbook_rewrite(&package(), &vec![text_update("Nope", "A1", "x")], false) {
        Err(ReportError::SheetMissing(name)) => assert_eq!(name, "Nope"),
        _ => panic!("expected a missing sheet"),
    }
    let without_workbook: Vec<ZipEntry> = package().into_iter().filter(|e| e.name != "xl/workbook.xml").collect();
    match workbook_rewrite(&without_workbook, &Vec::new(), false) {
        Err(ReportError::WorkbookPartMissing(name)) => assert_eq!(name, "xl/workbook.xml"),
        _ => panic!("expected a missing workbook part"),
    }
    match workbook_rewrite(&package(), &vec![text_update("Test Summary", "1A", "x")], false) {
        Err(ReportError::InvalidCell(cell)) => assert_eq!(cell, "1A"),
        _ => panic!("expected an invalid cell"),
    }
}

#[test]
fn text_written_to_a_cell_reads_back() {
    let xml = r#"<worksheet><sheetData><row r="1"><c r="A1"><v>1</v></c></row></sheetData></worksheet>"#;
    let patched = patch_cell_xml(xml, "Test Summary", "D1", &CellValue::Text("TX <9> & \"co\"".to_string())).unwrap();
    assert_eq!(sheet_cell_text(&patched, "D1").unwrap().as_deref(), Some("TX <9> & \"co\""));
    assert_eq!(sheet_cell_text(&patched, "A1").unwrap(), None);
    assert_eq!(sheet_cell_text(&patched, "Z9").unwrap(), None);
    assert!(matches!(sheet_cell_text(&patched, "9"), Err(ReportError::InvalidCell(_))));
}

#[test]
fn workbook_cell_text_finds_the_sheet_by_name() {
    let mut entries = package();
    let rewrite = workbook_rewrite(&entries, &vec![text_update("Test Summary", "D1", "TX-1")], false).unwrap();
    for entry in entries.iter_mut() {
        if let Some(text) = rewrite.replacements.get(&entry.name) {
            entry.data = text.as_bytes().to_vec();
        }
    }
    assert_eq!(workbook_cell_text(&entries, "Test Summary", "D1").unwrap().as_deref(), Some("TX-1"));
    assert_eq!(workbook_cell_text(&entries, "Test Summary", "B2").unwrap(), None);
    assert!(matches!(workbook_cell_text(&entries, "Missing", "D1"), Err(ReportError::SheetMissing(_))));
}

#[test]
fn text_overwritten_in_a_held_cell_reads_back() {
    let xml = r#"<worksheet><sheetData><row r="2"><c r="B2" s="4"><v>7</v></c><c r="C2"><v>8</v></c></row></sheetData></worksheet>"#;
    let patched = patch_cell_xml(xml, "Test Summary", "B2", &CellValue::Text("SN-42 & <x>".to_string())).unwrap();
    assert_eq!(sheet_cell_text(&patched, "B2").unwrap().as_deref(), Some("SN-42 & <x>"));
    assert!(patched.contains(r#"<c r="B2" s="4" t="inlineStr">"#));
    assert!(patched.contains(r#"<c r="C2"><v>8</v></c>"#));
}

#[test]
fn text_written_into_an_empty_row_reads_back() {
    let xml = r#"<worksheet><sheetData><row r="1"><c r="A1"><v>1</v></c></row><row r="3"/></sheetData></worksheet>"#;
    let patched = patch_cell_xml(xml, "Test Summary", "E3", &CellValue::Text("Operator".to_string())).unwrap();
    assert_eq!(sheet_cell_text(&patched, "E3").unwrap().as_deref(), Some("Operator"));
    assert!(patched.contains(r#"<row r="3"><c r="E3" t="inlineStr"><is><t>Operator</t></is></c></row>"#));
}
