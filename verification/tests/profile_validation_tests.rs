use pdu_automation::profile::{
    MappingDefinition, MappingRow, MappingSource, MappingTarget, ReportLayoutProfile, ReportTemplates,
    StepNumber, TaskDefinition, TaskGroup, TransformDefinition, WorkbookDefinition,
};
use pdu_automation::str_map::StrMap;

fn task(id: &str, step: StepNumber, mappings: Vec<MappingDefinition>) -> TaskDefinition {
    TaskDefinition {
        id: id.to_string(),
        label: format!("{id} label"),
        step,
        detection_steps: Vec::new(),
        processor: None,
        csv_pattern: "*STEP*.csv".to_string(),
        notes: Vec::new(),
        mappings,
    }
}

/// A profile shaped like the shipped example: marked example-only, with a pending step.
fn parse_example_profile_fixture() -> Result<ReportLayoutProfile, String> {
    let mut workbooks = StrMap::new();
    workbooks.insert("main".to_string(), WorkbookDefinition { file_pattern: "*_Rev02_SN*.xlsx".to_string() });
    workbooks.insert("print".to_string(), WorkbookDefinition { file_pattern: "PDUD500442AA088*.xlsx".to_string() });
    let mapping = MappingDefinition {
        label: "Input voltage".to_string(),
        source: Some(MappingSource { column: "C".to_string(), row: MappingRow::Index(1), required: true }),
        transform: Some(TransformDefinition { scale_by_is_zero: false, round: Some(2) }),
        target: MappingTarget {
            workbook: "main".to_string(),
            sheet: "Test Summary".to_string(),
            cell: "C12".to_string(),
            number_format: None,
        },
    };
    Ok(ReportLayoutProfile {
        schema_version: 1,
        profile_id: "pdu500-example".to_string(),
        display_name: "PDU500 example".to_string(),
        status: Some("example_only".to_string()),
        templates: ReportTemplates {
            default_template_root: "C:/PDU500/00_Template".to_string(),
            main_report_template: "main.xlsx".to_string(),
            print_report_template: "print.xlsx".to_string(),
        },
        workbooks,
        serial_number: None,
        task_groups: vec![TaskGroup {
            id: "electrical".to_string(),
            label: "Electrical".to_string(),
            tasks: vec![
                task("input-voltage", StepNumber::Number(14), vec![mapping]),
                task("insulation", StepNumber::Pending("TBD".to_string()), Vec::new()),
            ],
        }],
    })
}

#[test]
fn example_shaped_profile_is_valid_while_marked_example_only() {
    let profile = parse_example_profile_fixture().expect("example profile should parse");

    let validation = profile.validate();

    assert!(validation.is_valid(), "{:?}", validation.errors);
}

#[test]
fn duplicate_task_ids_are_rejected() {
    let mut profile = parse_example_profile_fixture().expect("example profile should parse");
    profile.task_groups[0].tasks[1].id = profile.task_groups[0].tasks[0].id.clone();

    let validation = profile.validate();

    assert!(!validation.is_valid());
    assert!(validation.errors.iter().any(|error| error.contains("duplicate task id")));
}

#[test]
fn unknown_workbook_references_are_rejected() {
    let mut profile = parse_example_profile_fixture().expect("example profile should parse");
    profile.task_groups[0].tasks[0].mappings[0].target.workbook = "missing".to_string();

    let validation = profile.validate();

    assert!(!validation.is_valid());
    assert!(validation.errors.iter().any(|error| error.contains("unknown workbook")));
}

#[test]
fn main_and_print_workbooks_are_required() {
    let mut profile = parse_example_profile_fixture().expect("example profile should parse");
    profile.workbooks.remove("print");

    let validation = profile.validate();

    assert!(!validation.is_valid());
    assert!(validation.errors.iter().any(|error| error.contains("workbooks must define 'print'")));
}

#[test]
fn production_profiles_cannot_keep_pending_steps() {
    let mut profile = parse_example_profile_fixture().expect("example profile should parse");
    profile.status = None;

    let validation = profile.validate();

    assert!(!validation.is_valid());
    assert!(validation.errors.iter().any(|error| error.contains("must use a numeric step")));
}
