use vstd::prelude::*;
use vstd::compute::RangeAll;

use crate::cells::{cell_text, CellRef};
use crate::tasks::{load_index, LoadLevel, VoltageSet};
use crate::text::{decimal, decimal_string, push_str};

verus! {

/// The four groups of values a system test reads: the input and output meters, and the input
/// and output detections.
#[derive(Debug, Clone, Copy, PartialEq, Eq, Structural)]
pub enum SystemGroup {
    InputMeter,
    OutputMeter,
    InputDetect,
    OutputDetect,
}

pub open spec fn group_index(g: SystemGroup) -> int {
    match g {
        SystemGroup::InputMeter => 0,
        SystemGroup::OutputMeter => 1,
        SystemGroup::InputDetect => 2,
        SystemGroup::OutputDetect => 3,
    }
}

/// The CSV column (as a column number) of each of a group's ten values: frequency, active
/// power, apparent power, power factor, then voltage and current of phases A, B and C.
pub open spec fn group_column(g: int, i: int) -> u32 {
    let table = seq![
        seq![32u32, 29, 30, 31, 33, 7, 34, 14, 35, 21],
        seq![72u32, 69, 70, 71, 46, 47, 53, 54, 60, 61],
        seq![112u32, 109, 110, 111, 86, 87, 93, 94, 100, 101],
        seq![145u32, 142, 143, 144, 119, 120, 126, 127, 133, 134],
    ];
    table[g][i]
}

/// Powers are read in watts and written in kilowatts.
pub open spec fn group_scale(i: int) -> u32 {
    if i == 1 || i == 2 {
        1000
    } else {
        1
    }
}

/// The rows a load's values are written to lie this far below the full-load rows.
pub open spec fn load_row_shift(load: LoadLevel) -> int {
    load_index(load) * 20
}

/// The report cell a group's value goes to: the four summary values down one column (`E` for
/// the meters, `F` for the detections) from row 11 (inputs) or 20 (outputs); the phase values
/// in pairs of rows (voltage, then current) from row 17 or 26, in columns `E`/`H`/`K` for the
/// meters and `F`/`I`/`L` for the detections.
pub open spec fn group_target(g: int, shift: int, i: int) -> (int, int) {
    let summary_column = if g == 0 || g == 1 {
        5int
    } else {
        6int
    };
    let summary_row = if g == 0 || g == 2 {
        11int
    } else {
        20int
    };
    let phase_row = if g == 0 || g == 2 {
        17int
    } else {
        26int
    };
    if i < 4 {
        (summary_column, summary_row + shift + i)
    } else {
        (summary_column + 3 * ((i - 4) / 2), phase_row + shift + (i - 4) % 2)
    }
}

/// The numeric part of the system burn-in points: CSV column, main report cell, print report
/// cell and divisor, for the input meter, output meter, input detection and output detection
/// values in turn.
pub open spec fn burn_in_numbers() -> Seq<(u32, CellRef, CellRef, u32)> {
    seq![
        (32u32, CellRef { column: 5, row: 11 }, CellRef { column: 6, row: 30 }, 1u32),
        (29u32, CellRef { column: 5, row: 12 }, CellRef { column: 6, row: 31 }, 1000u32),
        (30u32, CellRef { column: 5, row: 13 }, CellRef { column: 6, row: 32 }, 1000u32),
        (31u32, CellRef { column: 5, row: 14 }, CellRef { column: 6, row: 33 }, 1u32),
        (33u32, CellRef { column: 5, row: 17 }, CellRef { column: 6, row: 36 }, 1u32),
        (7u32, CellRef { column: 5, row: 18 }, CellRef { column: 6, row: 37 }, 1u32),
        (34u32, CellRef { column: 8, row: 17 }, CellRef { column: 9, row: 36 }, 1u32),
        (14u32, CellRef { column: 8, row: 18 }, CellRef { column: 9, row: 37 }, 1u32),
        (35u32, CellRef { column: 11, row: 17 }, CellRef { column: 12, row: 36 }, 1u32),
        (21u32, CellRef { column: 11, row: 18 }, CellRef { column: 12, row: 37 }, 1u32),
        (72u32, CellRef { column: 5, row: 20 }, CellRef { column: 6, row: 39 }, 1u32),
        (69u32, CellRef { column: 5, row: 21 }, CellRef { column: 6, row: 40 }, 1000u32),
        (70u32, CellRef { column: 5, row: 22 }, CellRef { column: 6, row: 41 }, 1000u32),
        (71u32, CellRef { column: 5, row: 23 }, CellRef { column: 6, row: 42 }, 1u32),
        (46u32, CellRef { column: 5, row: 26 }, CellRef { column: 6, row: 45 }, 1u32),
        (47u32, CellRef { column: 5, row: 27 }, CellRef { column: 6, row: 46 }, 1u32),
        (53u32, CellRef { column: 8, row: 26 }, CellRef { column: 9, row: 45 }, 1u32),
        (54u32, CellRef { column: 8, row: 27 }, CellRef { column: 9, row: 46 }, 1u32),
        (60u32, CellRef { column: 11, row: 26 }, CellRef { column: 12, row: 45 }, 1u32),
        (61u32, CellRef { column: 11, row: 27 }, CellRef { column: 12, row: 46 }, 1u32),
        (112u32, CellRef { column: 6, row: 11 }, CellRef { column: 7, row: 30 }, 1u32),
        (109u32, CellRef { column: 6, row: 12 }, CellRef { column: 7, row: 31 }, 1000u32),
        (110u32, CellRef { column: 6, row: 13 }, CellRef { column: 7, row: 32 }, 1000u32),
        (111u32, CellRef { column: 6, row: 14 }, CellRef { column: 7, row: 33 }, 1u32),
        (86u32, CellRef { column: 6, row: 17 }, CellRef { column: 7, row: 36 }, 1u32),
        (87u32, CellRef { column: 6, row: 18 }, CellRef { column: 7, row: 37 }, 1u32),
        (93u32, CellRef { column: 9, row: 17 }, CellRef { column: 10, row: 36 }, 1u32),
        (94u32, CellRef { column: 9, row: 18 }, CellRef { column: 10, row: 37 }, 1u32),
        (100u32, CellRef { column: 12, row: 17 }, CellRef { column: 13, row: 36 }, 1u32),
        (101u32, CellRef { column: 12, row: 18 }, CellRef { column: 13, row: 37 }, 1u32),
        (145u32, CellRef { column: 6, row: 20 }, CellRef { column: 7, row: 39 }, 1u32),
        (142u32, CellRef { column: 6, row: 21 }, CellRef { column: 7, row: 40 }, 1000u32),
        (143u32, CellRef { column: 6, row: 22 }, CellRef { column: 7, row: 41 }, 1000u32),
        (144u32, CellRef { column: 6, row: 23 }, CellRef { column: 7, row: 42 }, 1u32),
        (119u32, CellRef { column: 6, row: 26 }, CellRef { column: 7, row: 45 }, 1u32),
        (120u32, CellRef { column: 6, row: 27 }, CellRef { column: 7, row: 46 }, 1u32),
        (126u32, CellRef { column: 9, row: 26 }, CellRef { column: 10, row: 45 }, 1u32),
        (127u32, CellRef { column: 9, row: 27 }, CellRef { column: 10, row: 46 }, 1u32),
        (133u32, CellRef { column: 12, row: 26 }, CellRef { column: 13, row: 45 }, 1u32),
        (134u32, CellRef { column: 12, row: 27 }, CellRef { column: 13, row: 46 }, 1u32),
    ]
}

/// What the burn-in point `k` should be, by the system test's layout.
pub open spec fn burn_in_expected(k: int) -> bool {
    let (column, main, print, scale) = burn_in_numbers()[k];
    let (target_column, target_row) = group_target(k / 10, 0, k % 10);
    &&& column == group_column(k / 10, k % 10)
    &&& main.column == target_column && main.row == target_row
    &&& print.column == main.column + 1 && print.row == main.row + 19
    &&& scale == group_scale(k % 10)
}

/// Law: the system burn-in reads each value from the same CSV column, and writes it to the same
/// main-report cell, as the full-load system test does; the print report takes each value one
/// column to the right and nineteen rows down.
pub proof fn law_burn_in_points_follow_the_system_layout()
    ensures
        burn_in_numbers().len() == 40,
        forall|k: int| 0 <= k < 40 ==> burn_in_expected(k),
{
    let expected = |k: int| burn_in_expected(k);
    assert((0..40int).all_spec(expected)) by {
        reveal_with_fuel(vstd::compute::range_all_spec_rec, 41);
    }
    vstd::compute::all_spec_ensures(0..40int, expected);
    assert forall|k: int| 0 <= k < 40 implies burn_in_expected(k) by {
        assert(expected(k));
    }
}

/// One value the system burn-in reads: where it comes from in the CSV, where it goes in the
/// main and print reports, and what it is divided by.
#[derive(Debug, Clone)]
pub struct BurnInPoint {
    pub description: String,
    pub column: u32,
    pub main_cell: CellRef,
    pub print_cell: CellRef,
    pub scale_by: u32,
}

/// The short names of a group's values, as the burn-in describes them.
pub open spec fn burn_in_label(i: int) -> Seq<char> {
    if i == 0 {
        "Freq"@
    } else if i == 1 {
        "Active Power"@
    } else if i == 2 {
        "Apparent Power"@
    } else if i == 3 {
        "Power Factor"@
    } else if i == 4 {
        "Voltage A"@
    } else if i == 5 {
        "Current A"@
    } else if i == 6 {
        "Voltage B"@
    } else if i == 7 {
        "Current B"@
    } else if i == 8 {
        "Voltage C"@
    } else {
        "Current C"@
    }
}

fn burn_in_label_text(i: usize) -> (s: &'static str)
    ensures
        s@ == burn_in_label(i as int),
{
    if i == 0 {
        "Freq"
    } else if i == 1 {
        "Active Power"
    } else if i == 2 {
        "Apparent Power"
    } else if i == 3 {
        "Power Factor"
    } else if i == 4 {
        "Voltage A"
    } else if i == 5 {
        "Current A"
    } else if i == 6 {
        "Voltage B"
    } else if i == 7 {
        "Current B"
    } else if i == 8 {
        "Voltage C"
    } else {
        "Current C"
    }
}

fn burn_in_number_table() -> (v: Vec<(u32, CellRef, CellRef, u32)>)
    ensures
        v@ == burn_in_numbers(),
{
    let v = vec![
        (32u32, CellRef { column: 5, row: 11 }, CellRef { column: 6, row: 30 }, 1u32),
        (29u32, CellRef { column: 5, row: 12 }, CellRef { column: 6, row: 31 }, 1000u32),
        (30u32, CellRef { column: 5, row: 13 }, CellRef { column: 6, row: 32 }, 1000u32),
        (31u32, CellRef { column: 5, row: 14 }, CellRef { column: 6, row: 33 }, 1u32),
        (33u32, CellRef { column: 5, row: 17 }, CellRef { column: 6, row: 36 }, 1u32),
        (7u32, CellRef { column: 5, row: 18 }, CellRef { column: 6, row: 37 }, 1u32),
        (34u32, CellRef { column: 8, row: 17 }, CellRef { column: 9, row: 36 }, 1u32),
        (14u32, CellRef { column: 8, row: 18 }, CellRef { column: 9, row: 37 }, 1u32),
        (35u32, CellRef { column: 11, row: 17 }, CellRef { column: 12, row: 36 }, 1u32),
        (21u32, CellRef { column: 11, row: 18 }, CellRef { column: 12, row: 37 }, 1u32),
        (72u32, CellRef { column: 5, row: 20 }, CellRef { column: 6, row: 39 }, 1u32),
        (69u32, CellRef { column: 5, row: 21 }, CellRef { column: 6, row: 40 }, 1000u32),
        (70u32, CellRef { column: 5, row: 22 }, CellRef { column: 6, row: 41 }, 1000u32),
        (71u32, CellRef { column: 5, row: 23 }, CellRef { column: 6, row: 42 }, 1u32),
        (46u32, CellRef { column: 5, row: 26 }, CellRef { column: 6, row: 45 }, 1u32),
        (47u32, CellRef { column: 5, row: 27 }, CellRef { column: 6, row: 46 }, 1u32),
        (53u32, CellRef { column: 8, row: 26 }, CellRef { column: 9, row: 45 }, 1u32),
        (54u32, CellRef { column: 8, row: 27 }, CellRef { column: 9, row: 46 }, 1u32),
        (60u32, CellRef { column: 11, row: 26 }, CellRef { column: 12, row: 45 }, 1u32),
        (61u32, CellRef { column: 11, row: 27 }, CellRef { column: 12, row: 46 }, 1u32),
        (112u32, CellRef { column: 6, row: 11 }, CellRef { column: 7, row: 30 }, 1u32),
        (109u32, CellRef { column: 6, row: 12 }, CellRef { column: 7, row: 31 }, 1000u32),
        (110u32, CellRef { column: 6, row: 13 }, CellRef { column: 7, row: 32 }, 1000u32),
        (111u32, CellRef { column: 6, row: 14 }, CellRef { column: 7, row: 33 }, 1u32),
        (86u32, CellRef { column: 6, row: 17 }, CellRef { column: 7, row: 36 }, 1u32),
        (87u32, CellRef { column: 6, row: 18 }, CellRef { column: 7, row: 37 }, 1u32),
        (93u32, CellRef { column: 9, row: 17 }, CellRef { column: 10, row: 36 }, 1u32),
        (94u32, CellRef { column: 9, row: 18 }, CellRef { column: 10, row: 37 }, 1u32),
        (100u32, CellRef { column: 12, row: 17 }, CellRef { column: 13, row: 36 }, 1u32),
        (101u32, CellRef { column: 12, row: 18 }, CellRef { column: 13, row: 37 }, 1u32),
        (145u32, CellRef { column: 6, row: 20 }, CellRef { column: 7, row: 39 }, 1u32),
        (142u32, CellRef { column: 6, row: 21 }, CellRef { column: 7, row: 40 }, 1000u32),
        (143u32, CellRef { column: 6, row: 22 }, CellRef { column: 7, row: 41 }, 1000u32),
        (144u32, CellRef { column: 6, row: 23 }, CellRef { column: 7, row: 42 }, 1u32),
        (119u32, CellRef { column: 6, row: 26 }, CellRef { column: 7, row: 45 }, 1u32),
        (120u32, CellRef { column: 6, row: 27 }, CellRef { column: 7, row: 46 }, 1u32),
        (126u32, CellRef { column: 9, row: 26 }, CellRef { column: 10, row: 45 }, 1u32),
        (127u32, CellRef { column: 9, row: 27 }, CellRef { column: 10, row: 46 }, 1u32),
        (133u32, CellRef { column: 12, row: 26 }, CellRef { column: 13, row: 45 }, 1u32),
        (134u32, CellRef { column: 12, row: 27 }, CellRef { column: 13, row: 46 }, 1u32),
    ];
    assert(v@ =~= burn_in_numbers());
    v
}

/// The values the system burn-in reads, in order: for the input meter, output meter, input
/// detection and output detection (`G1` to `G4`), the frequency, active and apparent power,
/// power factor, and the voltage and current of each phase.
pub fn system_burn_in_points() -> (points: Vec<BurnInPoint>)
    ensures
        points@.len() == 40,
        forall|k: int|
            0 <= k < 40 ==> {
                let p = #[trigger] points@[k];
                &&& (p.column, p.main_cell, p.print_cell, p.scale_by) == burn_in_numbers()[k]
                &&& p.description@ == burn_in_label(k % 10) + " G"@ + decimal((k / 10 + 1) as nat)
            },
{
    proof {
        law_burn_in_points_follow_the_system_layout();
    }
    let numbers = burn_in_number_table();
    let mut points: Vec<BurnInPoint> = Vec::new();
    for k in 0..40usize
        invariant
            numbers@ == burn_in_numbers(),
            points@.len() == k,
            forall|j: int|
                0 <= j < k ==> {
                    let p = #[trigger] points@[j];
                    &&& (p.column, p.main_cell, p.print_cell, p.scale_by) == burn_in_numbers()[j]
                    &&& p.description@ == burn_in_label(j % 10) + " G"@ + decimal(
                        (j / 10 + 1) as nat,
                    )
                },
    {
        let (column, main_cell, print_cell, scale_by) = numbers[k];
        let mut description = String::new();
        push_str(&mut description, burn_in_label_text(k % 10));
        push_str(&mut description, " G");
        let g = decimal_string((k / 10 + 1) as u128);
        push_str(&mut description, g.as_str());
        points.push(BurnInPoint { description, column, main_cell, print_cell, scale_by });
    }
    points
}

fn group_columns(g: usize) -> (a: [u32; 10])
    requires
        g < 4,
    ensures
        forall|i: int| 0 <= i < 10 ==> #[trigger] a@[i] == group_column(g as int, i),
{
    if g == 0 {
        let a = [32u32, 29, 30, 31, 33, 7, 34, 14, 35, 21];
        assert(a@ =~= seq![32u32, 29, 30, 31, 33, 7, 34, 14, 35, 21]);
        a
    } else if g == 1 {
        let a = [72u32, 69, 70, 71, 46, 47, 53, 54, 60, 61];
        assert(a@ =~= seq![72u32, 69, 70, 71, 46, 47, 53, 54, 60, 61]);
        a
    } else if g == 2 {
        let a = [112u32, 109, 110, 111, 86, 87, 93, 94, 100, 101];
        assert(a@ =~= seq![112u32, 109, 110, 111, 86, 87, 93, 94, 100, 101]);
        a
    } else {
        let a = [145u32, 142, 143, 144, 119, 120, 126, 127, 133, 134];
        assert(a@ =~= seq![145u32, 142, 143, 144, 119, 120, 126, 127, 133, 134]);
        a
    }
}

/// The full names of a group's values.
pub open spec fn group_label(i: int) -> Seq<char> {
    if i == 0 {
        "Frequency"@
    } else {
        burn_in_label(i)
    }
}

/// A value to read from a CSV row into a report cell, divided by `scale`.
#[derive(Debug, Clone)]
pub struct ValueRead {
    pub label: String,
    pub column: u32,
    pub target: CellRef,
    pub scale: u32,
}

pub open spec fn target_cell(g: int, shift: int, i: int) -> CellRef {
    CellRef { column: group_target(g, shift, i).0 as u32, row: group_target(g, shift, i).1 as u32 }
}

/// The ten values a system test reads for a group at a load: each from its CSV column into its
/// report cell (shifted down for the lower loads), labelled with its name and cell.
pub fn system_group_reads(group: SystemGroup, load: LoadLevel) -> (reads: Vec<ValueRead>)
    ensures
        reads@.len() == 10,
        forall|i: int|
            0 <= i < 10 ==> {
                let r = #[trigger] reads@[i];
                &&& r.column == group_column(group_index(group), i)
                &&& r.target == target_cell(group_index(group), load_row_shift(load), i)
                &&& r.scale == group_scale(i)
                &&& r.label@ == group_label(i) + " "@ + cell_text(r.target)
            },
{
    let g: usize = match group {
        SystemGroup::InputMeter => 0,
        SystemGroup::OutputMeter => 1,
        SystemGroup::InputDetect => 2,
        SystemGroup::OutputDetect => 3,
    };
    let shift: u32 = match load {
        LoadLevel::Full => 0,
        LoadLevel::Half => 20,
        LoadLevel::Low => 40,
    };
    let columns = group_columns(g);
    let summary_column: u32 = if g == 0 || g == 1 {
        5
    } else {
        6
    };
    let summary_row: u32 = if g == 0 || g == 2 {
        11
    } else {
        20
    };
    let phase_row: u32 = if g == 0 || g == 2 {
        17
    } else {
        26
    };
    let mut reads: Vec<ValueRead> = Vec::new();
    for i in 0..10usize
        invariant
            g == group_index(group),
            shift == load_row_shift(load),
            forall|j: int| 0 <= j < 10 ==> #[trigger] columns@[j] == group_column(g as int, j),
            summary_column == (if g == 0 || g == 1 { 5u32 } else { 6u32 }),
            summary_row == (if g == 0 || g == 2 { 11u32 } else { 20u32 }),
            phase_row == (if g == 0 || g == 2 { 17u32 } else { 26u32 }),
            reads@.len() == i,
            forall|j: int|
                0 <= j < i ==> {
                    let r = #[trigger] reads@[j];
                    &&& r.column == group_column(group_index(group), j)
                    &&& r.target == target_cell(group_index(group), load_row_shift(load), j)
                    &&& r.scale == group_scale(j)
                    &&& r.label@ == group_label(j) + " "@ + cell_text(r.target)
                },
    {
        let target = if i < 4 {
            CellRef { column: summary_column, row: summary_row + shift + (i as u32) }
        } else {
            CellRef {
                column: summary_column + 3 * (((i - 4) / 2) as u32),
                row: phase_row + shift + (((i - 4) % 2) as u32),
            }
        };
        let scale: u32 = if i == 1 || i == 2 {
            1000
        } else {
            1
        };
        let mut label = String::new();
        let name = if i == 0 {
            "Frequency"
        } else {
            burn_in_label_text(i)
        };
        push_str(&mut label, name);
        push_str(&mut label, " ");
        let cell = target.text();
        push_str(&mut label, cell.as_str());
        reads.push(ValueRead { label, column: columns[i], target, scale });
    }
    reads
}

/// Which threshold an accuracy check is held to.
#[derive(Debug, Clone, Copy, PartialEq, Eq, Structural)]
pub enum Metric {
    Voltage,
    Current,
    ActivePower,
    ApparentPower,
    PowerFactor,
}

/// One accuracy a system test checks: detection against meter, written to the accuracy cell.
#[derive(Debug, Clone)]
pub struct SystemAccuracyEntry {
    pub label: String,
    pub detect_cell: CellRef,
    pub meter_cell: CellRef,
    pub accuracy_cell: CellRef,
    pub metric: Metric,
    pub is_power_factor: bool,
}

pub open spec fn summary_check_label(k: int) -> Seq<char> {
    if k == 0 {
        "Active Power in"@
    } else if k == 1 {
        "Apparent Power in"@
    } else if k == 2 {
        "Power Factor in"@
    } else if k == 3 {
        "Active Power out"@
    } else if k == 4 {
        "Apparent Power out"@
    } else {
        "Power Factor out"@
    }
}

pub open spec fn summary_check_metric(k: int) -> Metric {
    if k % 3 == 0 {
        Metric::ActivePower
    } else if k % 3 == 1 {
        Metric::ApparentPower
    } else {
        Metric::PowerFactor
    }
}

pub open spec fn phase_check_label(r: int) -> Seq<char> {
    if r == 0 {
        "Voltage in"@
    } else if r == 1 {
        "Current in"@
    } else if r == 2 {
        "Voltage out"@
    } else {
        "Current out"@
    }
}

pub open spec fn phase_name(p: int) -> Seq<char> {
    if p == 0 {
        "A"@
    } else if p == 1 {
        "B"@
    } else {
        "C"@
    }
}

/// The accuracy check `k` of a system test at a load: six checks of the summary rows (active
/// power, apparent power and power factor, in then out), then the voltage and current of each
/// phase, in then out. Each compares columns `E` (detection) and `F` (meter) and writes `G`,
/// or the next three columns for phases B and C.
pub open spec fn accuracy_entry_is(e: SystemAccuracyEntry, load: LoadLevel, k: int) -> bool {
    let shift = load_row_shift(load);
    if k < 6 {
        let row = (if k < 3 {
            12 + k
        } else {
            18 + k
        }) + shift;
        &&& e.label@ == summary_check_label(k)
        &&& e.detect_cell == CellRef { column: 5, row: row as u32 }
        &&& e.meter_cell == CellRef { column: 6, row: row as u32 }
        &&& e.accuracy_cell == CellRef { column: 7, row: row as u32 }
        &&& e.metric == summary_check_metric(k)
        &&& e.is_power_factor == (k % 3 == 2)
    } else {
        let r = (k - 6) / 3;
        let p = (k - 6) % 3;
        let row = (if r == 0 {
            17int
        } else if r == 1 {
            18int
        } else if r == 2 {
            26int
        } else {
            27int
        }) + shift;
        &&& e.label@ == phase_check_label(r) + " "@ + phase_name(p)
        &&& e.detect_cell == CellRef { column: (5 + 3 * p) as u32, row: row as u32 }
        &&& e.meter_cell == CellRef { column: (6 + 3 * p) as u32, row: row as u32 }
        &&& e.accuracy_cell == CellRef { column: (7 + 3 * p) as u32, row: row as u32 }
        &&& e.metric == if r % 2 == 0 {
            Metric::Voltage
        } else {
            Metric::Current
        }
        &&& !e.is_power_factor
    }
}

fn summary_check_label_text(k: usize) -> (s: &'static str)
    ensures
        s@ == summary_check_label(k as int),
{
    if k == 0 {
        "Active Power in"
    } else if k == 1 {
        "Apparent Power in"
    } else if k == 2 {
        "Power Factor in"
    } else if k == 3 {
        "Active Power out"
    } else if k == 4 {
        "Apparent Power out"
    } else {
        "Power Factor out"
    }
}

fn phase_check_label_text(r: usize) -> (s: &'static str)
    ensures
        s@ == phase_check_label(r as int),
{
    if r == 0 {
        "Voltage in"
    } else if r == 1 {
        "Current in"
    } else if r == 2 {
        "Voltage out"
    } else {
        "Current out"
    }
}

fn phase_name_text(p: usize) -> (s: &'static str)
    ensures
        s@ == phase_name(p as int),
{
    if p == 0 {
        "A"
    } else if p == 1 {
        "B"
    } else {
        "C"
    }
}

/// The eighteen accuracy checks of a system test at a load.
pub fn system_accuracy_entries(load: LoadLevel) -> (entries: Vec<SystemAccuracyEntry>)
    ensures
        entries@.len() == 18,
        forall|k: int| 0 <= k < 18 ==> accuracy_entry_is(#[trigger] entries@[k], load, k),
{
    let shift: u32 = match load {
        LoadLevel::Full => 0,
        LoadLevel::Half => 20,
        LoadLevel::Low => 40,
    };
    let mut entries: Vec<SystemAccuracyEntry> = Vec::new();
    for k in 0..18usize
        invariant
            shift == load_row_shift(load),
            entries@.len() == k,
            forall|j: int| 0 <= j < k ==> accuracy_entry_is(#[trigger] entries@[j], load, j),
    {
        if k < 6 {
            let row: u32 = (if k < 3 {
                12 + k as u32
            } else {
                18 + k as u32
            }) + shift;
            let metric = if k % 3 == 0 {
                Metric::ActivePower
            } else if k % 3 == 1 {
                Metric::ApparentPower
            } else {
                Metric::PowerFactor
            };
            entries.push(
                SystemAccuracyEntry {
                    label: summary_check_label_text(k).to_owned(),
                    detect_cell: CellRef { column: 5, row },
                    meter_cell: CellRef { column: 6, row },
                    accuracy_cell: CellRef { column: 7, row },
                    metric,
                    is_power_factor: k % 3 == 2,
                },
            );
        } else {
            let r = (k - 6) / 3;
            let p = (k - 6) % 3;
            let row: u32 = (if r == 0 {
                17u32
            } else if r == 1 {
                18u32
            } else if r == 2 {
                26u32
            } else {
                27u32
            }) + shift;
            let mut label = String::new();
            push_str(&mut label, phase_check_label_text(r));
            push_str(&mut label, " ");
            push_str(&mut label, phase_name_text(p));
            let metric = if r % 2 == 0 {
                Metric::Voltage
            } else {
                Metric::Current
            };
            entries.push(
                SystemAccuracyEntry {
                    label,
                    detect_cell: CellRef { column: 5 + 3 * p as u32, row },
                    meter_cell: CellRef { column: 6 + 3 * p as u32, row },
                    accuracy_cell: CellRef { column: 7 + 3 * p as u32, row },
                    metric,
                    is_power_factor: false,
                },
            );
        }
    }
    entries
}

/// The CSV columns of the six correction factors a full-load system test copies (`AK` `AL`
/// `AM`, then `BY` `BZ` `CA`).
pub open spec fn cf_column(k: int) -> u32 {
    if k < 3 {
        (37 + k) as u32
    } else {
        (74 + k) as u32
    }
}

/// Where correction factor `k` goes on the `CF` sheet: columns `B`-`D` (208 V) or `H`-`J`
/// (415 V), row 15 then 16.
pub open spec fn cf_target(voltage: VoltageSet, k: int) -> CellRef {
    let base = match voltage {
        VoltageSet::V208 => 2int,
        VoltageSet::V415 => 8int,
    };
    CellRef { column: (base + k % 3) as u32, row: (15 + k / 3) as u32 }
}

/// The correction factors of a full-load system test: CSV column and `CF` cell.
pub fn system_cf_targets(voltage: VoltageSet) -> (targets: Vec<(u32, CellRef)>)
    ensures
        targets@.len() == 6,
        forall|k: int|
            0 <= k < 6 ==> #[trigger] targets@[k] == (cf_column(k), cf_target(voltage, k)),
{
    let base: u32 = match voltage {
        VoltageSet::V208 => 2,
        VoltageSet::V415 => 8,
    };
    let mut targets: Vec<(u32, CellRef)> = Vec::new();
    for k in 0..6u32
        invariant
            base == match voltage {
                VoltageSet::V208 => 2u32,
                VoltageSet::V415 => 8u32,
            },
            targets@.len() == k,
            forall|j: int|
                0 <= j < k ==> #[trigger] targets@[j] == (cf_column(j), cf_target(voltage, j)),
    {
        let column = if k < 3 {
            37 + k
        } else {
            74 + k
        };
        targets.push((column, CellRef { column: base + k % 3, row: 15 + k / 3 }));
    }
    targets
}

/// The rows a breaker's values start from at a load.
pub open spec fn breaker_base_row_spec(load: LoadLevel) -> u32 {
    match load {
        LoadLevel::Full => 11,
        LoadLevel::Half => 15,
        LoadLevel::Low => 19,
    }
}

pub fn breaker_base_row(load: LoadLevel) -> (row: u32)
    ensures
        row == breaker_base_row_spec(load),
{
    match load {
        LoadLevel::Full => 11,
        LoadLevel::Half => 15,
        LoadLevel::Low => 19,
    }
}

/// A breaker's four metrics, in order: voltage, current, active power, power factor.
pub open spec fn breaker_metric(m: int) -> Metric {
    if m == 0 {
        Metric::Voltage
    } else if m == 1 {
        Metric::Current
    } else if m == 2 {
        Metric::ActivePower
    } else {
        Metric::PowerFactor
    }
}

/// The CSV columns of a breaker's meter and detection values, per metric and phase.
pub open spec fn breaker_meter_column(m: int, p: int) -> u32 {
    let table = seq![
        seq![46u32, 53, 60],
        seq![47u32, 54, 61],
        seq![48u32, 55, 62],
        seq![50u32, 57, 64],
    ];
    table[m][p]
}

pub open spec fn breaker_detect_column(m: int, p: int) -> u32 {
    let table = seq![
        seq![119u32, 126, 133],
        seq![120u32, 127, 134],
        seq![121u32, 128, 135],
        seq![123u32, 130, 137],
    ];
    table[m][p]
}

/// Law: a breaker's voltage and current are read from the same CSV columns, phase by phase, as
/// the system test's output meter and output detection.
pub proof fn law_breaker_columns_match_system_outputs()
    ensures
        forall|p: int|
            0 <= p < 3 ==> #[trigger] breaker_meter_column(0, p) == group_column(1, 4 + 2 * p)
                && breaker_meter_column(1, p) == group_column(1, 5 + 2 * p) && breaker_detect_column(
                0,
                p,
            ) == group_column(3, 4 + 2 * p) && breaker_detect_column(1, p) == group_column(
                3,
                5 + 2 * p,
            ),
{
    assert forall|p: int| 0 <= p < 3 implies #[trigger] breaker_meter_column(0, p) == group_column(
        1,
        4 + 2 * p,
    ) && breaker_meter_column(1, p) == group_column(1, 5 + 2 * p) && breaker_detect_column(0, p)
        == group_column(3, 4 + 2 * p) && breaker_detect_column(1, p) == group_column(3, 5 + 2 * p) by {
        if p == 0 {
        } else if p == 1 {
        } else {
        }
    }
}

/// One value pair a breaker test reads: meter and detection of a metric and phase, with the
/// report cells of the meter, detection and accuracy.
#[derive(Debug, Clone, Copy)]
pub struct BreakerRead {
    pub metric: Metric,
    pub phase: u32,
    pub meter_column: u32,
    pub detect_column: u32,
    pub meter_cell: CellRef,
    pub detect_cell: CellRef,
    pub accuracy_cell: CellRef,
    pub scale: u32,
}

/// The row of a breaker's metric at a load: twelve rows per breaker.
pub open spec fn breaker_row(breaker: int, load: LoadLevel, m: int) -> int {
    breaker_base_row_spec(load) + (breaker - 1) * 12 + m
}

pub open spec fn breaker_read_is(r: BreakerRead, breaker: int, load: LoadLevel, k: int) -> bool {
    let m = k / 3;
    let p = k % 3;
    let row = breaker_row(breaker, load, m) as u32;
    &&& r.metric == breaker_metric(m)
    &&& r.phase == p
    &&& r.meter_column == breaker_meter_column(m, p)
    &&& r.detect_column == breaker_detect_column(m, p)
    &&& r.meter_cell == CellRef { column: (7 + 3 * p) as u32, row }
    &&& r.detect_cell == CellRef { column: (8 + 3 * p) as u32, row }
    &&& r.accuracy_cell == CellRef { column: (9 + 3 * p) as u32, row }
    &&& r.scale == if m == 2 {
        1000u32
    } else {
        1u32
    }
}

fn breaker_columns(m: usize) -> (r: ([u32; 3], [u32; 3]))
    requires
        m < 4,
    ensures
        forall|p: int|
            0 <= p < 3 ==> #[trigger] r.0@[p] == breaker_meter_column(m as int, p) && r.1@[p]
                == breaker_detect_column(m as int, p),
{
    if m == 0 {
        let r = ([46u32, 53, 60], [119u32, 126, 133]);
        assert(r.0@ =~= seq![46u32, 53, 60] && r.1@ =~= seq![119u32, 126, 133]);
        r
    } else if m == 1 {
        let r = ([47u32, 54, 61], [120u32, 127, 134]);
        assert(r.0@ =~= seq![47u32, 54, 61] && r.1@ =~= seq![120u32, 127, 134]);
        r
    } else if m == 2 {
        let r = ([48u32, 55, 62], [121u32, 128, 135]);
        assert(r.0@ =~= seq![48u32, 55, 62] && r.1@ =~= seq![121u32, 128, 135]);
        r
    } else {
        let r = ([50u32, 57, 64], [123u32, 130, 137]);
        assert(r.0@ =~= seq![50u32, 57, 64] && r.1@ =~= seq![123u32, 130, 137]);
        r
    }
}

/// The twelve value pairs a breaker test reads at a load: the four metrics, each for phases
/// A, B and C; powers are divided by 1000.
pub fn breaker_load_reads(breaker: u8, load: LoadLevel) -> (reads: Vec<BreakerRead>)
    requires
        1 <= breaker <= 8,
    ensures
        reads@.len() == 12,
        forall|k: int| 0 <= k < 12 ==> breaker_read_is(#[trigger] reads@[k], breaker as int, load, k),
{
    let base = breaker_base_row(load) + (breaker as u32 - 1) * 12;
    let mut reads: Vec<BreakerRead> = Vec::new();
    for k in 0..12usize
        invariant
            1 <= breaker <= 8,
            base == breaker_base_row_spec(load) + (breaker - 1) * 12,
            reads@.len() == k,
            forall|j: int| 0 <= j < k ==> breaker_read_is(#[trigger] reads@[j], breaker as int, load, j),
    {
        let m = k / 3;
        let p = k % 3;
        let (meters, detects) = breaker_columns(m);
        let row = base + m as u32;
        let metric = if m == 0 {
            Metric::Voltage
        } else if m == 1 {
            Metric::Current
        } else if m == 2 {
            Metric::ActivePower
        } else {
            Metric::PowerFactor
        };
        reads.push(
            BreakerRead {
                metric,
                phase: p as u32,
                meter_column: meters[p],
                detect_column: detects[p],
                meter_cell: CellRef { column: 7 + 3 * p as u32, row },
                detect_cell: CellRef { column: 8 + 3 * p as u32, row },
                accuracy_cell: CellRef { column: 9 + 3 * p as u32, row },
                scale: if m == 2 {
                    1000
                } else {
                    1
                },
            },
        );
    }
    reads
}

/// One value pair a breaker burn-in reads, with its cells in the main and print reports.
#[derive(Debug, Clone, Copy)]
pub struct BreakerBurnInRead {
    pub metric: Metric,
    pub phase: u32,
    pub meter_column: u32,
    pub detect_column: u32,
    pub main_meter_cell: CellRef,
    pub main_detect_cell: CellRef,
    pub print_meter_cell: CellRef,
    pub print_detect_cell: CellRef,
    pub scale: u32,
}

pub open spec fn burn_in_read_is(r: BreakerBurnInRead, breaker: int, k: int) -> bool {
    let m = k / 3;
    let p = k % 3;
    let main_row = (11 + (breaker - 1) * 4 + m) as u32;
    let print_row = (6 + (breaker - 1) * 4 + m) as u32;
    &&& r.metric == breaker_metric(m)
    &&& r.phase == p
    &&& r.meter_column == breaker_meter_column(m, p)
    &&& r.detect_column == breaker_detect_column(m, p)
    &&& r.main_meter_cell == CellRef { column: (7 + 3 * p) as u32, row: main_row }
    &&& r.main_detect_cell == CellRef { column: (8 + 3 * p) as u32, row: main_row }
    &&& r.print_meter_cell == CellRef { column: (8 + 3 * p) as u32, row: print_row }
    &&& r.print_detect_cell == CellRef { column: (9 + 3 * p) as u32, row: print_row }
    &&& r.scale == if m == 2 {
        1000u32
    } else {
        1u32
    }
}

/// The twelve value pairs a breaker burn-in reads: four rows per breaker in both reports.
pub fn breaker_burn_in_reads(breaker: u8) -> (reads: Vec<BreakerBurnInRead>)
    requires
        1 <= breaker <= 8,
    ensures
        reads@.len() == 12,
        forall|k: int| 0 <= k < 12 ==> burn_in_read_is(#[trigger] reads@[k], breaker as int, k),
{
    let main_base: u32 = 11 + (breaker as u32 - 1) * 4;
    let print_base: u32 = 6 + (breaker as u32 - 1) * 4;
    let mut reads: Vec<BreakerBurnInRead> = Vec::new();
    for k in 0..12usize
        invariant
            1 <= breaker <= 8,
            main_base == 11 + (breaker - 1) * 4,
            print_base == 6 + (breaker - 1) * 4,
            reads@.len() == k,
            forall|j: int| 0 <= j < k ==> burn_in_read_is(#[trigger] reads@[j], breaker as int, j),
    {
        let m = k / 3;
        let p = k % 3;
        let (meters, detects) = breaker_columns(m);
        let metric = if m == 0 {
            Metric::Voltage
        } else if m == 1 {
            Metric::Current
        } else if m == 2 {
            Metric::ActivePower
        } else {
            Metric::PowerFactor
        };
        let main_row = main_base + m as u32;
        let print_row = print_base + m as u32;
        reads.push(
            BreakerBurnInRead {
                metric,
                phase: p as u32,
                meter_column: meters[p],
                detect_column: detects[p],
                main_meter_cell: CellRef { column: 7 + 3 * p as u32, row: main_row },
                main_detect_cell: CellRef { column: 8 + 3 * p as u32, row: main_row },
                print_meter_cell: CellRef { column: 8 + 3 * p as u32, row: print_row },
                print_detect_cell: CellRef { column: 9 + 3 * p as u32, row: print_row },
                scale: if m == 2 {
                    1000
                } else {
                    1
                },
            },
        );
    }
    reads
}

/// The correction factors a breaker's full-load export gives: `BY` `BZ` `CA` into the `CF`
/// sheet's row for the breaker, columns `B`-`D` (208 V) or `H`-`J` (415 V).
pub fn breaker_cf_targets(voltage: VoltageSet, breaker: u8) -> (targets: Vec<(u32, CellRef)>)
    requires
        1 <= breaker <= 8,
    ensures
        targets@.len() == 3,
        forall|k: int|
            0 <= k < 3 ==> #[trigger] targets@[k] == (
                (77 + k) as u32,
                CellRef { column: (cf_target(voltage, k).column) as u32, row: (7 + breaker - 1) as u32 },
            ),
{
    let base: u32 = match voltage {
        VoltageSet::V208 => 2,
        VoltageSet::V415 => 8,
    };
    let row: u32 = 7 + breaker as u32 - 1;
    let mut targets: Vec<(u32, CellRef)> = Vec::new();
    for k in 0..3u32
        invariant
            base == match voltage {
                VoltageSet::V208 => 2u32,
                VoltageSet::V415 => 8u32,
            },
            row == 7 + breaker - 1,
            targets@.len() == k,
            forall|j: int|
                0 <= j < k ==> #[trigger] targets@[j] == (
                    (77 + j) as u32,
                    CellRef { column: (cf_target(voltage, j).column) as u32, row: (7 + breaker - 1) as u32 },
                ),
    {
        targets.push((77 + k, CellRef { column: base + k, row }));
    }
    targets
}

/// Where a transformer check reads and writes: its step, its sheet, and the four values (the
/// summed voltage and the frequency of each winding) with their CSV columns and cells.
pub struct TransformerPlan {
    pub step: u16,
    pub sheet: String,
    pub reads: Vec<ValueRead>,
}

pub open spec fn transformer_step(v: VoltageSet) -> u16 {
    match v {
        VoltageSet::V208 => 14,
        VoltageSet::V415 => 43,
    }
}

pub open spec fn transformer_sheet(v: VoltageSet) -> Seq<char> {
    match v {
        VoltageSet::V208 => "XFMR Check_208VAC"@,
        VoltageSet::V415 => "XFMR Check_415VAC"@,
    }
}

/// Columns `Z`, `AE`, `BG`, `BL`, in order.
pub open spec fn transformer_column(i: int) -> u32 {
    seq![26u32, 31, 59, 64][i]
}

pub open spec fn transformer_label(i: int) -> Seq<char> {
    seq!["Usum B9"@, "fU1 B10"@, "Usum B11"@, "fU1 B12"@][i]
}

pub fn transformer_plan(voltage: VoltageSet) -> (p: TransformerPlan)
    ensures
        p.step == transformer_step(voltage),
        p.sheet@ == transformer_sheet(voltage),
        p.reads@.len() == 4,
        forall|i: int|
            0 <= i < 4 ==> {
                let r = #[trigger] p.reads@[i];
                &&& r.column == transformer_column(i)
                &&& r.target == (CellRef { column: 2, row: (9 + i) as u32 })
                &&& r.scale == 1
                &&& r.label@ == transformer_label(i)
            },
{
    let (step, sheet) = match voltage {
        VoltageSet::V208 => (14u16, "XFMR Check_208VAC"),
        VoltageSet::V415 => (43u16, "XFMR Check_415VAC"),
    };
    let reads = vec![
        ValueRead { label: "Usum B9".to_owned(), column: 26, target: CellRef { column: 2, row: 9 }, scale: 1 },
        ValueRead { label: "fU1 B10".to_owned(), column: 31, target: CellRef { column: 2, row: 10 }, scale: 1 },
        ValueRead { label: "Usum B11".to_owned(), column: 59, target: CellRef { column: 2, row: 11 }, scale: 1 },
        ValueRead { label: "fU1 B12".to_owned(), column: 64, target: CellRef { column: 2, row: 12 }, scale: 1 },
    ];
    TransformerPlan { step, sheet: sheet.to_owned(), reads }
}

} // verus!
