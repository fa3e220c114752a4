use pdu_automation::candidates::{
    candidate_roots, dedupe_paths, detect_serial_from_metadata, folder_sort_time, is_ignored_folder,
    latest_unit_candidate_in_roots, profile_load_failure, system_time_millis, FolderTimes,
    MetadataFile, RootListing, RootScan, SerialDetectionRules, UnitFolderScan,
};
use pdu_automation::profile::{ReportLayoutProfile, ReportTemplates, SerialNumberRules, WorkbookDefinition};
use pdu_automation::str_map::StrMap;

fn folder(root: &str, name: &str, time: i128, metadata: Vec<MetadataFile>) -> UnitFolderScan {
    UnitFolderScan {
        path: format!("{root}/{name}"),
        name: Some(name.to_string()),
        is_dir: true,
        metadata_files: metadata,
        times: Some(FolderTimes { created: Some(time), modified: None }),
    }
}

fn no_metadata() -> Vec<MetadataFile> {
    ["SN.txt", "serial_number.txt", "info.txt", "metadata.txt"]
        .iter()
        .map(|f| MetadataFile { path: format!("/units/x/{f}"), content: None })
        .collect()
}

fn profile_with_template_root(template_root: &str) -> ReportLayoutProfile {
    let mut workbooks = StrMap::new();
    workbooks.insert("main".to_string(), WorkbookDefinition { file_pattern: "main*.xlsx".to_string() });
    workbooks.insert("print".to_string(), WorkbookDefinition { file_pattern: "print*.xlsx".to_string() });
    ReportLayoutProfile {
        schema_version: 1,
        profile_id: "test".to_string(),
        display_name: "Test".to_string(),
        status: None,
        templates: ReportTemplates {
            default_template_root: template_root.to_string(),
            main_report_template: "main.xlsx".to_string(),
            print_report_template: "print.xlsx".to_string(),
        },
        workbooks,
        serial_number: None,
        task_groups: Vec::new(),
    }
}

#[test]
fn latest_candidate_prefers_newest_valid_unit_folder() {
    let root = "/units";
    let older = folder(root, "262343000071", 1_000_000_000, no_metadata());
    let newer = folder(root, "262343000072", 1_025_000_000, no_metadata());
    let template = folder(root, "00_Template", 1_050_000_000, no_metadata());
    let roots = vec![RootScan { path: root.to_string(), listing: RootListing::Entries(vec![older, newer, template]) }];
    let rules = SerialDetectionRules::fallback();

    let result = latest_unit_candidate_in_roots(&roots, &rules, vec![]);
    let candidate = result.candidate.expect("candidate should be found");

    assert_eq!(candidate.serial_number, "262343000072");
    assert_eq!(candidate.unit_folder, "/units/262343000072");
    assert!(candidate.detection_reason.contains("serial_number.folder_pattern"));
    assert_eq!(candidate.serial_label, "SN 262343000072");
    assert_eq!(candidate.timestamp_ms, Some(1_025));
}

#[test]
fn latest_candidate_can_use_metadata_file_when_folder_name_does_not_match() {
    let mut metadata = no_metadata();
    metadata[0] = MetadataFile {
        path: "/units/active-unit/SN.txt".to_string(),
        content: Some("Serial Number: 262343000073".to_string()),
    };
    let unit = folder("/units", "active-unit", 5, metadata);
    let roots = vec![RootScan { path: "/units".to_string(), listing: RootListing::Entries(vec![unit]) }];
    let rules = SerialDetectionRules::fallback();

    let result = latest_unit_candidate_in_roots(&roots, &rules, vec![]);
    let candidate = result.candidate.expect("candidate should be found");

    assert_eq!(candidate.serial_number, "262343000073");
    assert!(candidate.detection_reason.contains("serial_number.metadata_files"));
    assert_eq!(candidate.detection_source, "/units/active-unit/SN.txt");
}

#[test]
fn latest_candidate_returns_none_without_valid_units() {
    let template = folder("/units", "00_Template", 5, no_metadata());
    let roots = vec![RootScan { path: "/units".to_string(), listing: RootListing::Entries(vec![template]) }];
    let rules = SerialDetectionRules::fallback();

    let result = latest_unit_candidate_in_roots(&roots, &rules, vec![]);

    assert!(result.candidate.is_none());
    assert_eq!(result.searched_roots, vec!["/units".to_string()]);
}

#[test]
fn candidate_roots_follow_profile_template_root_parent() {
    let profile = profile_with_template_root("/tmp/units/Configured_Template");

    assert_eq!(candidate_roots(&profile), vec!["/tmp/units".to_string()]);
}

#[test]
fn latest_candidate_warns_for_missing_and_unreadable_roots() {
    let roots = vec![
        RootScan { path: "/gone".to_string(), listing: RootListing::Missing },
        RootScan { path: "/locked".to_string(), listing: RootListing::Unreadable },
    ];
    let rules = SerialDetectionRules::fallback();

    let result = latest_unit_candidate_in_roots(&roots, &rules, vec!["earlier".to_string()]);

    assert!(result.candidate.is_none());
    assert_eq!(result.searched_roots, vec!["/gone".to_string(), "/locked".to_string()]);
    assert_eq!(
        result.warnings,
        vec![
            "earlier".to_string(),
            "unit suggestion root not found: /gone".to_string(),
            "unit suggestion root could not be read: /locked".to_string(),
        ]
    );
}

#[test]
fn latest_candidate_keeps_the_first_on_equal_times_and_skips_files() {
    let first = folder("/a", "262343000001", 7, no_metadata());
    let second = folder("/b", "262343000002", 7, no_metadata());
    let mut file = folder("/b", "262343000003", 9, no_metadata());
    file.is_dir = false;
    let roots = vec![
        RootScan { path: "/a".to_string(), listing: RootListing::Entries(vec![first]) },
        RootScan { path: "/b".to_string(), listing: RootListing::Entries(vec![second, file]) },
    ];
    let rules = SerialDetectionRules::fallback();

    let result = latest_unit_candidate_in_roots(&roots, &rules, vec![]);

    assert_eq!(result.candidate.expect("candidate").serial_number, "262343000001");
}

#[test]
fn folder_pattern_from_profile_uses_serial_group() {
    let mut profile = profile_with_template_root("/tmp/units/T");
    profile.serial_number = Some(SerialNumberRules {
        folder_pattern: r"^UNIT-(?<serial>\d+)-X$".to_string(),
        metadata_files: Vec::new(),
    });
    let rules = SerialDetectionRules::from_profile(Some(&profile));
    assert_eq!(rules.metadata_files.len(), 4);
    let unit = folder("/u", "UNIT-4711-X", 3, no_metadata());
    let roots = vec![RootScan { path: "/u".to_string(), listing: RootListing::Entries(vec![unit]) }];

    let candidate = latest_unit_candidate_in_roots(&roots, &rules, vec![]).candidate.expect("candidate");

    assert_eq!(candidate.serial_number, "4711");
    assert_eq!(candidate.detection_source, "UNIT-4711-X");
}

#[test]
fn metadata_detection_takes_first_file_with_a_serial() {
    let files = vec![
        MetadataFile { path: "a".to_string(), content: Some("no serial here".to_string()) },
        MetadataFile { path: "b".to_string(), content: Some("SN=1234567".to_string()) },
        MetadataFile { path: "c".to_string(), content: Some("sn: 7654321".to_string()) },
    ];
    let found = detect_serial_from_metadata(&files).expect("serial");
    assert_eq!(found.serial_number, "1234567");
    assert_eq!(found.detection_source, "b");
}

#[test]
fn ignored_folders_cover_hidden_templates_and_shared() {
    assert!(is_ignored_folder(Some(".git")));
    assert!(is_ignored_folder(Some("00_Template")));
    assert!(is_ignored_folder(Some("00_old")));
    assert!(is_ignored_folder(Some("archive")));
    assert!(is_ignored_folder(Some("Release-Support")));
    assert!(is_ignored_folder(None));
    assert!(!is_ignored_folder(Some("262343000071")));
}

#[test]
fn paths_dedupe_without_regard_to_case() {
    let out = dedupe_paths(vec!["C:/Units".to_string(), "c:/units".to_string(), "D:/x".to_string()]);
    assert_eq!(out, vec!["C:/Units".to_string(), "D:/x".to_string()]);
}

#[test]
fn times_order_by_the_later_and_convert_to_millis() {
    assert_eq!(folder_sort_time(Some(5), Some(9)), Some(9));
    assert_eq!(folder_sort_time(None, Some(9)), Some(9));
    assert_eq!(folder_sort_time(None, None), None);
    assert_eq!(system_time_millis(2_999_999), Some(2));
    assert_eq!(system_time_millis(-1), None);
}

#[test]
fn profile_failure_reports_the_error() {
    let r = profile_load_failure("bad json");
    assert!(r.candidate.is_none());
    assert!(r.searched_roots.is_empty());
    assert_eq!(r.warnings, vec!["layout profile could not be loaded for unit suggestion: bad json".to_string()]);
}
