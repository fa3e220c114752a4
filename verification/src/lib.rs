use vstd::prelude::*;

pub mod automation;
pub mod batch;
pub mod candidates;
pub mod cells;
pub mod commands;
pub mod excel;
pub mod csv_data;
pub mod io_error;
pub mod mapped;
pub mod package;
pub mod patterns;
pub mod plans;
pub mod printing;
pub mod processors;
pub mod profile;
pub mod read_back;
pub mod readiness;
pub mod report_paths;
pub mod resource_paths;
pub mod reports;
pub mod scan;
pub mod select;
pub mod sheet_xml;
pub mod str_map;
pub mod summary;
pub mod tasks;
pub mod text;
pub mod unit_state;
pub mod workbook;
pub mod xml_text;

verus! {

} // verus!
