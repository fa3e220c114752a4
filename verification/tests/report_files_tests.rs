use std::path::PathBuf;

use pdu_automation::candidates::MetadataFile;
use pdu_automation::reports::{
    choose_serial_number, discover_reports, extract_serial_number, final_operator_patch, finish_setup,
    inspect_reports, main_report_name, plan_report_naming, plan_template_copies, report_target,
    require_main_report, template_copy_path, transformer_serial_patch, CellValue, NamingStep,
    ReportDiscovery, ReportError, ReportFile, SerialEvidence, TemplateState, MAIN_TEMPLATE_NAME,
    PRINT_TEMPLATE_NAME,
};
use pdu_automation::resource_paths::report_layout_candidate_paths_for;

fn report(path: &str, modified: Option<i128>) -> ReportFile {
    let name = path.rsplit('/').next().map(str::to_string);
    ReportFile { path: path.to_string(), file_name: name, modified }
}

fn evidence(name: Option<&str>, path: &str) -> SerialEvidence {
    SerialEvidence {
        folder_name: name.map(str::to_string),
        metadata_files: ["SN.txt", "serial_number.txt", "info.txt", "metadata.txt"]
            .iter()
            .map(|f| MetadataFile { path: format!("{path}/{f}"), content: None })
            .collect(),
        path_text: path.to_string(),
        walk_names: name.map(|n| vec![n.to_string()]).unwrap_or_default(),
    }
}

#[test]
fn bundled_report_layout_paths_are_first() {
    let resource_dir = PathBuf::from("C:/app/resources");
    let paths = report_layout_candidate_paths_for("pdu500.rev02.layout.json", Some("C:/app/resources"), None);

    assert_eq!(
        paths.first(),
        Some(
            &resource_dir
                .join("_up_")
                .join("config")
                .join("report-layouts")
                .join("pdu500.rev02.layout.json")
                .display()
                .to_string()
        )
    );
}

#[test]
fn layout_paths_are_listed_once_in_search_order() {
    let paths = report_layout_candidate_paths_for("p.json", Some("/r"), Some("/r"));

    assert_eq!(
        paths,
        vec![
            "/r/_up_/config/report-layouts/p.json".to_string(),
            "/r/config/report-layouts/p.json".to_string(),
            "/r/report-layouts/p.json".to_string(),
            "/r/p.json".to_string(),
            "/r/../config/report-layouts/p.json".to_string(),
            "C:/PDU500/config/report-layouts/p.json".to_string(),
        ]
    );
}

#[test]
fn serial_named_main_report_wins_over_newer_prefixed_one() {
    let files = vec![
        report("/u/PDUD500442AM088_Test Report_0.2CT_Rev02_SN262343000071.xlsx", Some(10)),
        report("/u/PDUD500442AM088_Test Report_0.2CT_Rev02_copy.xlsx", Some(50)),
        report("/u/PDUD500442AA088_old.xlsx", Some(5)),
        report("/u/PDUD500442AA088_new.xlsx", Some(9)),
        report("/u/PDUD500442AA088_newest.xlsx", None),
        report("/u/PDUD500442AA088_notes.txt", Some(99)),
    ];

    let found = discover_reports(&files);

    assert_eq!(
        found.main_report.as_deref(),
        Some("/u/PDUD500442AM088_Test Report_0.2CT_Rev02_SN262343000071.xlsx")
    );
    assert_eq!(found.print_report.as_deref(), Some("/u/PDUD500442AA088_new.xlsx"));
}

#[test]
fn main_report_falls_back_to_any_main_workbook_and_keeps_first_on_ties() {
    let files = vec![
        report("/u/a/PDUD500442AM088 first.xlsx", Some(7)),
        report("/u/b/PDUD500442AM088 second.xlsx", Some(7)),
    ];

    let found = discover_reports(&files);

    assert_eq!(found.main_report.as_deref(), Some("/u/a/PDUD500442AM088 first.xlsx"));
    assert!(found.print_report.is_none());
}

#[test]
fn missing_main_report_names_the_folder() {
    match require_main_report("/u", &Vec::new()) {
        Err(ReportError::MainReportMissing(folder)) => assert_eq!(folder, "/u"),
        other => panic!("unexpected {other:?}"),
    }
}

#[test]
fn serial_comes_from_serial_and_date_folder_name() {
    assert_eq!(
        extract_serial_number(&evidence(Some("262343000071_20240102"), "/u/262343000071_20240102")).as_deref(),
        Some("262343000071")
    );
    assert_eq!(extract_serial_number(&evidence(Some("123456"), "/u/123456")).as_deref(), Some("123456"));
}

#[test]
fn serial_comes_from_metadata_then_path_then_walked_names() {
    let mut e = evidence(Some("unit"), "/u/unit");
    e.metadata_files[2].content = Some("Serial number = 7654321".to_string());
    assert_eq!(extract_serial_number(&e).as_deref(), Some("7654321"));

    let e = evidence(Some("unit"), "/u/SN1234567/unit");
    assert_eq!(extract_serial_number(&e).as_deref(), Some("1234567"));

    let mut e = evidence(Some("unit"), "/u/unit");
    e.walk_names.push("log 987654321.csv".to_string());
    assert_eq!(extract_serial_number(&e).as_deref(), Some("987654321"));

    assert_eq!(extract_serial_number(&evidence(Some("unit"), "/u/unit")), None);
    assert_eq!(extract_serial_number(&evidence(None, "/")), None);
}

#[test]
fn inspection_requires_the_folder() {
    let e = evidence(Some("123456"), "/u/123456");
    match inspect_reports("/u/123456", false, &e, &Vec::new()) {
        Err(ReportError::UnitFolderMissing(folder)) => assert_eq!(folder, "/u/123456"),
        other => panic!("unexpected {other:?}"),
    }
    let setup = inspect_reports("/u/123456", true, &e, &Vec::new()).expect("setup");
    assert_eq!(setup.serial_number.as_deref(), Some("123456"));
    assert!(setup.report_path.is_none());
    assert!(setup.warnings.is_empty());
}

#[test]
fn serial_and_operator_writes_target_their_cells() {
    let files = vec![
        report("/u/PDUD500442AM088_Test Report_0.2CT_Rev02_SN1.xlsx", Some(1)),
        report("/u/PDUD500442AA088_print.xlsx", Some(1)),
    ];
    let patch = transformer_serial_patch("/u", &files, "TX-9").expect("patch");
    assert_eq!(patch.path, "/u/PDUD500442AM088_Test Report_0.2CT_Rev02_SN1.xlsx");
    assert_eq!(patch.updates.len(), 1);
    assert_eq!(patch.updates[0].sheet, "Test Summary");
    assert_eq!(patch.updates[0].cell, "D1");
    assert!(matches!(&patch.updates[0].value, CellValue::Text(v) if v == "TX-9"));

    let patch = final_operator_patch("/u", true, &files, "Ana").expect("patch");
    assert_eq!(patch.path, "/u/PDUD500442AA088_print.xlsx");
    assert_eq!(patch.updates[0].sheet, "Test Report #2");
    assert_eq!(patch.updates[0].cell, "E39");

    assert!(matches!(final_operator_patch("/u", true, &Vec::new(), "Ana"), Err(ReportError::PrintReportMissing(_))));
    assert!(matches!(final_operator_patch("/u", false, &files, "Ana"), Err(ReportError::UnitFolderMissing(_))));
}

#[test]
fn given_serial_is_trimmed_and_blank_falls_back_to_the_folder() {
    let e = evidence(Some("123456"), "/u/123456");
    assert_eq!(choose_serial_number(Some("  42 "), &e).as_deref(), Some("42"));
    assert_eq!(choose_serial_number(Some("   "), &e).as_deref(), Some("123456"));
    assert_eq!(choose_serial_number(None, &e).as_deref(), Some("123456"));
}

#[test]
fn main_report_is_named_with_the_serial() {
    assert_eq!(main_report_name(Some("262343000071")), "PDUD500442AM088_Test Report_0.2CT_Rev02_SN262343000071.xlsx");
    assert_eq!(main_report_name(None), MAIN_TEMPLATE_NAME);
}

#[test]
fn template_plan_copies_missing_reports_and_warns_for_missing_templates() {
    let state = TemplateState {
        root_is_dir: true,
        main_template: "/t/main.xlsx".to_string(),
        main_template_is_file: true,
        print_template: "/t/print.xlsx".to_string(),
        print_template_is_file: false,
    };
    let none = ReportDiscovery { main_report: None, print_report: None };
    let plan = plan_template_copies(&state, &none, Some("77"));
    assert_eq!(plan.copies.len(), 1);
    assert_eq!(plan.copies[0].template, "/t/main.xlsx");
    assert_eq!(plan.copies[0].target_name, "PDUD500442AM088_Test Report_0.2CT_Rev02_SN77.xlsx");
    assert_eq!(plan.copies[0].serial_patch.as_deref(), Some("77"));
    assert_eq!(plan.warnings, vec!["print report template missing: /t/print.xlsx".to_string()]);

    let mut state = state;
    state.print_template_is_file = true;
    let plan = plan_template_copies(&state, &none, None);
    assert_eq!(plan.copies.len(), 2);
    assert_eq!(plan.copies[0].target_name, MAIN_TEMPLATE_NAME);
    assert_eq!(plan.copies[1].target_name, PRINT_TEMPLATE_NAME);

    state.root_is_dir = false;
    let plan = plan_template_copies(&state, &none, None);
    assert!(plan.copies.is_empty());
    assert_eq!(plan.warnings, vec!["template folder not found: C:/PDU500/00_Template".to_string()]);
}

#[test]
fn report_naming_copies_the_report_to_its_serial_name() {
    let target = report_target("/u", "77");
    assert_eq!(target, "/u/PDUD500442AM088_Test Report_0.2CT_Rev02_SN77.xlsx");
    assert!(matches!(plan_report_naming("/u", None, false, None, false), NamingStep::Keep));
    assert!(matches!(plan_report_naming("/u", Some("77"), true, None, true), NamingStep::Keep));
    match plan_report_naming("/u", Some("77"), false, Some("/u/old.xlsx"), false) {
        NamingStep::CopyAndPatch { source, target, serial } => {
            assert_eq!(source, "/u/old.xlsx");
            assert_eq!(target, "/u/PDUD500442AM088_Test Report_0.2CT_Rev02_SN77.xlsx");
            assert_eq!(serial, "77");
        }
        other => panic!("unexpected {other:?}"),
    }
    match plan_report_naming("/u", Some("77"), false, None, true) {
        NamingStep::CopyAndPatch { source, .. } => assert_eq!(source, template_copy_path("/u")),
        other => panic!("unexpected {other:?}"),
    }
    match plan_report_naming("/u", Some("77"), false, None, false) {
        NamingStep::Warn(w) => assert_eq!(w, "main report was not found and could not be named for serial 77"),
        other => panic!("unexpected {other:?}"),
    }
    assert!(matches!(
        plan_report_naming("/u", Some("77"), false, Some("/u/PDUD500442AM088_Test Report_0.2CT_Rev02_SN77.xlsx"), false),
        NamingStep::Keep
    ));
}

#[test]
fn finished_setup_reports_what_the_folder_now_holds() {
    let files = vec![report("/u/PDUD500442AA088_print.xlsx", Some(3))];
    let setup = finish_setup(Some("9".to_string()), vec!["w".to_string()], &files);
    assert_eq!(setup.serial_number.as_deref(), Some("9"));
    assert_eq!(setup.print_report_path.as_deref(), Some("/u/PDUD500442AA088_print.xlsx"));
    assert!(setup.report_path.is_none());
    assert_eq!(setup.warnings, vec!["w".to_string()]);
}
