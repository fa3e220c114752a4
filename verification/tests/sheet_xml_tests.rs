use pdu_automation::reports::{CellValue, ReportError};
use pdu_automation::sheet_xml::{
    decode_xml_attr, escape_xml_attr, escape_xml_text, expand_shared_formulas, extract_attr,
    force_full_recalculation, patch_cell_xml, remove_calc_chain_content_type,
    remove_calc_chain_relationship, render_cell, replace_text, set_xml_attr, sheet_paths_by_name,
    shift_formula_reference, split_cell_reference, translate_shared_formula,
};

fn number(text: &str) -> CellValue {
    CellValue::Number(text.to_string())
}

#[test]
fn split_cell_reference_parses_column_and_row() {
    assert_eq!(split_cell_reference("B12").unwrap(), ("B".to_string(), 12));
    assert_eq!(split_cell_reference("AA1").unwrap(), ("AA".to_string(), 1));
    assert!(split_cell_reference("12").is_err());
}

#[test]
fn patch_cell_replaces_existing_cell_and_preserves_style() {
    let xml = r#"<worksheet><sheetData><row r="9"><c r="B9" s="2"><v>1</v></c></row></sheetData></worksheet>"#;
    let patched = patch_cell_xml(xml, "Sheet1", "B9", &number("2.5")).unwrap();

    assert!(patched.contains(r#"<c r="B9" s="2"><v>2.5</v></c>"#));
    assert!(!patched.contains("<v>1</v>"));
}

#[test]
fn patch_cell_inserts_missing_row() {
    let xml = r#"<worksheet><sheetData></sheetData></worksheet>"#;
    let patched =
        patch_cell_xml(xml, "Sheet1", "C3", &CellValue::Text("SN123".to_string())).unwrap();

    assert!(patched.contains(r#"<row r="3""#));
    assert!(patched.contains("SN123"));
}

#[test]
fn patch_cell_inserts_missing_cell_in_column_order() {
    let xml = r#"<worksheet><sheetData><row r="1"><c r="A1"><v>1</v></c><c r="D1"><v>4</v></c></row></sheetData></worksheet>"#;
    let patched = patch_cell_xml(xml, "Sheet1", "B1", &number("2")).unwrap();

    let a = patched.find(r#"r="A1""#).unwrap();
    let b = patched.find(r#"r="B1""#).unwrap();
    let d = patched.find(r#"r="D1""#).unwrap();

    assert!(a < b);
    assert!(b < d);
}

#[test]
fn workbook_recalculation_flags_are_forced() {
    let xml = r#"<workbook><calcPr calcId="191028"/></workbook>"#;
    let patched = force_full_recalculation(xml);

    assert!(patched.contains(r#"calcMode="auto""#));
    assert!(patched.contains(r#"fullCalcOnLoad="1""#));
    assert!(patched.contains(r#"forceFullCalc="1""#));
}

#[test]
fn calc_chain_package_parts_are_removed() {
    let rels = r#"<Relationships><Relationship Id="rId4" Type="http://schemas.openxmlformats.org/officeDocument/2006/relationships/calcChain" Target="calcChain.xml"/><Relationship Id="rId1" Type="x" Target="worksheets/sheet1.xml"/></Relationships>"#;
    let content_types = r#"<Types><Override PartName="/xl/calcChain.xml" ContentType="application/vnd.openxmlformats-officedocument.spreadsheetml.calcChain+xml"/><Override PartName="/xl/workbook.xml" ContentType="x"/></Types>"#;

    let patched_rels = remove_calc_chain_relationship(rels);
    let patched_content_types = remove_calc_chain_content_type(content_types);

    assert!(!patched_rels.contains("calcChain"));
    assert!(patched_rels.contains("sheet1.xml"));
    assert!(!patched_content_types.contains("calcChain"));
    assert!(patched_content_types.contains("workbook.xml"));
}

#[test]
fn shared_formulas_are_expanded_before_cell_replacement() {
    let xml = r#"<worksheet><sheetData><row r="11"><c r="I11"><f t="shared" ref="I11:I12" si="1">(G11-H11)/H11*100</f><v>0</v></c></row><row r="12"><c r="I12"><f t="shared" si="1"/><v>0</v></c></row></sheetData></worksheet>"#;
    let expanded = expand_shared_formulas(xml);

    assert!(expanded.contains(r#"<f>(G11-H11)/H11*100</f>"#));
    assert!(expanded.contains(r#"<f>(G12-H12)/H12*100</f>"#));
    assert!(!expanded.contains(r#"t="shared""#));
    assert!(!expanded.contains(r#"si="1""#));
}

#[test]
fn orphan_shared_formulas_are_removed() {
    let xml = r#"<worksheet><sheetData><row r="12"><c r="I12"><f t="shared" si="1"/><v>4.2</v></c></row></sheetData></worksheet>"#;
    let expanded = expand_shared_formulas(xml);

    assert!(expanded.contains(r#"<c r="I12"><v>4.2</v></c>"#));
    assert!(!expanded.contains("<f"));
    assert!(!expanded.contains(r#"t="shared""#));
}

#[test]
fn shared_formula_translation_respects_absolute_references() {
    let formula = "SUM($G11,H$11,$J$11,LOG10(A1))";
    let translated = translate_shared_formula(formula, "I11", "L13");

    assert_eq!(translated, "SUM($G13,K$11,$J$11,LOG10(D3))");
}

#[test]
fn patch_cell_fills_a_self_closing_row() {
    let xml = r#"<sheetData><row r="4"/></sheetData>"#;
    let patched = patch_cell_xml(xml, "S", "C4", &number("7")).unwrap();
    assert_eq!(patched, r#"<sheetData><row r="4"><c r="C4"><v>7</v></c></row></sheetData>"#);
}

#[test]
fn patch_cell_inserts_rows_in_row_order() {
    let xml = r#"<sheetData><row r="2"><c r="A2"/></row><row r="9"></row></sheetData>"#;
    let patched = patch_cell_xml(xml, "S", "B5", &number("1")).unwrap();
    assert_eq!(
        patched,
        r#"<sheetData><row r="2"><c r="A2"/></row><row r="5" spans="B:B"><c r="B5"><v>1</v></c></row><row r="9"></row></sheetData>"#
    );
}

#[test]
fn patch_cell_reports_missing_sheet_data_and_bad_cells() {
    match patch_cell_xml("<worksheet/>", "Data", "A1", &number("1")) {
        Err(ReportError::SheetDataMissing(name)) => assert_eq!(name, "Data"),
        _ => panic!("expected missing sheetData"),
    }
    match patch_cell_xml("<sheetData></sheetData>", "Data", "A0", &number("1")) {
        Err(ReportError::InvalidCell(cell)) => assert_eq!(cell, "A0"),
        _ => panic!("expected an invalid cell"),
    }
}

#[test]
fn text_cells_are_escaped_inline_strings() {
    let rendered = render_cell("D1", Some(" "), &CellValue::Text("a<b & c".to_string()));
    assert_eq!(rendered, r#"<c r="D1" t="inlineStr"><is><t>a&lt;b &amp; c</t></is></c>"#);
    let styled = render_cell("D1", Some("5"), &number("3"));
    assert_eq!(styled, r#"<c r="D1" s="5"><v>3</v></c>"#);
}

#[test]
fn xml_escapes_and_decoding() {
    assert_eq!(escape_xml_attr(r#"a"&<>"#), "a&quot;&amp;&lt;&gt;");
    assert_eq!(escape_xml_text(r#"a"&<>"#), "a\"&amp;&lt;&gt;");
    assert_eq!(decode_xml_attr("Test &amp; Summary &lt;1&gt; &quot;x&quot; &apos;y&apos;"), "Test & Summary <1> \"x\" 'y'");
    assert_eq!(decode_xml_attr("&amp;lt;"), "&lt;");
    assert_eq!(replace_text("aaa", "aa", "b"), "ba");
}

#[test]
fn attributes_are_read_and_set() {
    assert_eq!(extract_attr(r#"<c r="B9" s="2">"#, "s").as_deref(), Some("2"));
    assert_eq!(extract_attr(r#"<c r="B9">"#, "s"), None);
    assert_eq!(set_xml_attr(r#"<calcPr calcMode="manual"/>"#, "calcMode", "auto"), r#"<calcPr calcMode="auto"/>"#);
    assert_eq!(set_xml_attr(r#"<calcPr/>"#, "fullCalcOnLoad", "1"), r#"<calcPr fullCalcOnLoad="1"/>"#);
    assert_eq!(set_xml_attr(r#"<calcPr>"#, "x", "1"), r#"<calcPr x="1">"#);
    assert_eq!(set_xml_attr("plain", "x", "1"), "plain");
}

#[test]
fn recalculation_properties_are_added_when_missing() {
    assert_eq!(
        force_full_recalculation("<workbook><sheets/></workbook>"),
        r#"<workbook><sheets/><calcPr calcMode="auto" fullCalcOnLoad="1" forceFullCalc="1"/></workbook>"#
    );
    assert_eq!(force_full_recalculation("<other/>"), "<other/>");
}

#[test]
fn references_shift_unless_anchored_or_out_of_range() {
    assert_eq!(shift_formula_reference("B2", 1, 1).as_deref(), Some("C3"));
    assert_eq!(shift_formula_reference("$B2", 1, 1).as_deref(), Some("$B3"));
    assert_eq!(shift_formula_reference("B$2", 1, 1).as_deref(), Some("C$2"));
    assert_eq!(shift_formula_reference("Z9", 1, 0).as_deref(), Some("AA9"));
    assert_eq!(shift_formula_reference("A1", -1, 0), None);
    assert_eq!(shift_formula_reference("A1x", 0, 0), None);
}

#[test]
fn sheet_paths_follow_relationships() {
    let workbook = r#"<sheets><sheet name="Test &amp; Summary" sheetId="1" r:id="rId1"/><sheet name="Data" sheetId="2" r:id="rId2"/><sheet name="Gone" sheetId="3" r:id="rId9"/></sheets>"#;
    let rels = r#"<Relationships><Relationship Id="rId1" Type="t" Target="worksheets/sheet1.xml"/><Relationship Id="rId2" Type="t" Target="/xl/worksheets/sheet2.xml"/></Relationships>"#;
    let paths = sheet_paths_by_name(workbook, rels);
    assert_eq!(paths.get("Test & Summary").map(|s| s.as_str()), Some("xl/worksheets/sheet1.xml"));
    assert_eq!(paths.get("Data").map(|s| s.as_str()), Some("xl/worksheets/sheet2.xml"));
    assert!(paths.get("Gone").is_none());
}

#[test]
fn escaped_values_decode_back() {
    for value in ["plain", "a & b < c > d", "\"quoted\" 'single'", "&amp; already", "&quot;&apos;"] {
        assert_eq!(decode_xml_attr(&escape_xml_text(value)), value);
        assert_eq!(decode_xml_attr(&escape_xml_attr(value)), value);
    }
}
