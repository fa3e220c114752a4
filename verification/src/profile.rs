use vstd::prelude::*;

use crate::processors::{join_texts, joined};
use crate::str_map::StrMap;
use crate::text::{concat, decimal, decimal_string, is_blank, is_blank_str, push_str, str_eq, trim, views};

verus! {

/// The report layout: which workbooks the reports are, where their templates lie, how a unit's
/// serial number is found, and the tasks with the cells their CSV values go to.
pub struct ReportLayoutProfile {
    pub schema_version: u16,
    pub profile_id: String,
    pub display_name: String,
    pub status: Option<String>,
    pub templates: ReportTemplates,
    pub workbooks: StrMap<WorkbookDefinition>,
    pub serial_number: Option<SerialNumberRules>,
    pub task_groups: Vec<TaskGroup>,
}

#[derive(Debug, Clone)]
pub struct ReportTemplates {
    pub default_template_root: String,
    pub main_report_template: String,
    pub print_report_template: String,
}

#[derive(Debug, Clone)]
pub struct WorkbookDefinition {
    pub file_pattern: String,
}

#[derive(Debug, Clone)]
pub struct SerialNumberRules {
    pub folder_pattern: String,
    pub metadata_files: Vec<String>,
}

#[derive(Debug, Clone)]
pub struct TaskGroup {
    pub id: String,
    pub label: String,
    pub tasks: Vec<TaskDefinition>,
}

#[derive(Debug, Clone)]
pub struct TaskDefinition {
    pub id: String,
    pub label: String,
    pub step: StepNumber,
    pub detection_steps: Vec<u16>,
    pub processor: Option<String>,
    pub csv_pattern: String,
    pub notes: Vec<String>,
    pub mappings: Vec<MappingDefinition>,
}

/// A task's step: a number, or a text standing for a step not settled yet.
#[derive(Debug, Clone)]
pub enum StepNumber {
    Number(u16),
    Pending(String),
}

#[derive(Debug, Clone)]
pub struct MappingDefinition {
    pub label: String,
    pub source: Option<MappingSource>,
    pub transform: Option<TransformDefinition>,
    pub target: MappingTarget,
}

#[derive(Debug, Clone)]
pub struct MappingSource {
    pub column: String,
    pub row: MappingRow,
    pub required: bool,
}

/// Which CSV row a mapping reads: a one-based row number or a named selector.
#[derive(Debug, Clone)]
pub enum MappingRow {
    Index(u32),
    Selector(String),
}

/// What the validation reads of a mapping's transform: whether its scale factor is zero, and
/// how many decimals the value is rounded to.
#[derive(Debug, Clone, Copy)]
pub struct TransformDefinition {
    pub scale_by_is_zero: bool,
    pub round: Option<u32>,
}

#[derive(Debug, Clone)]
pub struct MappingTarget {
    pub workbook: String,
    pub sheet: String,
    pub cell: String,
    pub number_format: Option<String>,
}

/// The tasks of the groups, in order.
pub open spec fn group_tasks(groups: Seq<TaskGroup>) -> Seq<TaskDefinition>
    decreases groups.len(),
{
    if groups.len() == 0 {
        Seq::empty()
    } else {
        group_tasks(groups.drop_last()) + groups.last().tasks@
    }
}

/// `i` is the first task of the profile with the given id.
pub open spec fn first_task_with_id(tasks: Seq<TaskDefinition>, id: Seq<char>, i: int) -> bool {
    0 <= i < tasks.len() && tasks[i].id@ == id && forall|k: int|
        0 <= k < i ==> (#[trigger] tasks[k]).id@ != id
}

impl ReportLayoutProfile {
    pub open spec fn all_tasks(&self) -> Seq<TaskDefinition> {
        group_tasks(self.task_groups@)
    }

    /// The number of tasks over all groups.
    pub fn task_count(&self) -> (n: usize)
        requires
            self.all_tasks().len() <= usize::MAX,
        ensures
            n == self.all_tasks().len(),
    {
        let mut n: usize = 0;
        for g in 0..self.task_groups.len()
            invariant
                n == group_tasks(self.task_groups@.take(g as int)).len(),
                self.all_tasks().len() <= usize::MAX,
                self.all_tasks() == group_tasks(self.task_groups@),
        {
            proof {
                assert(self.task_groups@.take(g + 1).drop_last() =~= self.task_groups@.take(
                    g as int,
                ));
                lemma_group_tasks_prefix_len(self.task_groups@, g + 1);
            }
            n = n + self.task_groups[g].tasks.len();
        }
        assert(self.task_groups@.take(self.task_groups@.len() as int) =~= self.task_groups@);
        n
    }
}

proof fn lemma_group_tasks_prefix_len(groups: Seq<TaskGroup>, k: int)
    requires
        0 <= k <= groups.len(),
    ensures
        group_tasks(groups.take(k)).len() <= group_tasks(groups).len(),
    decreases groups.len() - k,
{
    if k < groups.len() {
        lemma_group_tasks_prefix_len(groups, k + 1);
        assert(groups.take(k + 1).drop_last() =~= groups.take(k));
    } else {
        assert(groups.take(k) =~= groups);
    }
}

/// The position of the first task with the id.
pub open spec fn task_index(tasks: Seq<TaskDefinition>, id: Seq<char>) -> Option<int> {
    if exists|i: int| first_task_with_id(tasks, id, i) {
        Some(choose|i: int| first_task_with_id(tasks, id, i))
    } else {
        None
    }
}

proof fn lemma_first_task_unique(tasks: Seq<TaskDefinition>, id: Seq<char>, i: int, j: int)
    requires
        first_task_with_id(tasks, id, i),
        first_task_with_id(tasks, id, j),
    ensures
        i == j,
{
    if i < j {
        assert(tasks[i].id@ != id);
    } else if j < i {
        assert(tasks[j].id@ != id);
    }
}

/// No task of the sequence has the id.
pub open spec fn no_task_with_id(tasks: Seq<TaskDefinition>, id: Seq<char>) -> bool {
    forall|i: int| 0 <= i < tasks.len() ==> (#[trigger] tasks[i]).id@ != id
}

/// The first task of the profile with the given id.
pub fn profile_task<'a>(profile: &'a ReportLayoutProfile, task_id: &str) -> (r: Option<
    &'a TaskDefinition,
>)
    ensures
        match task_index(profile.all_tasks(), task_id@) {
            Some(i) => r is Some && *r->0 == profile.all_tasks()[i],
            None => r is None,
        },
{
    let ghost groups = profile.task_groups@;
    let mut g: usize = 0;
    assert(group_tasks(groups.take(0)) =~= Seq::<TaskDefinition>::empty());
    while g < profile.task_groups.len()
        invariant
            groups == profile.task_groups@,
            0 <= g <= groups.len(),
            no_task_with_id(group_tasks(groups.take(g as int)), task_id@),
        decreases groups.len() - g,
    {
        let group = &profile.task_groups[g];
        let ghost before = group_tasks(groups.take(g as int));
        proof {
            assert(groups.take(g + 1).drop_last() =~= groups.take(g as int));
            assert(groups.take(g + 1).last() == groups[g as int]);
            assert(group_tasks(groups.take(g + 1)) == before + group.tasks@);
        }
        let mut t: usize = 0;
        while t < group.tasks.len()
            invariant
                groups == profile.task_groups@,
                0 <= g < groups.len(),
                *group == groups[g as int],
                before == group_tasks(groups.take(g as int)),
                group_tasks(groups.take(g + 1)) == before + group.tasks@,
                no_task_with_id(before, task_id@),
                0 <= t <= group.tasks@.len(),
                forall|i: int| 0 <= i < t ==> (#[trigger] group.tasks@[i]).id@ != task_id@,
            decreases group.tasks@.len() - t,
        {
            if str_eq(group.tasks[t].id.as_str(), task_id) {
                let found = &group.tasks[t];
                proof {
                    lemma_group_tasks_prefix(groups, g as int + 1);
                    let all = group_tasks(groups);
                    let upto = group_tasks(groups.take(g + 1));
                    let i = before.len() + t;
                    assert(upto[i] == group.tasks@[t as int]);
                    assert(all[i] == upto[i]);
                    assert forall|k: int| 0 <= k < i implies (#[trigger] all[k]).id@ != task_id@ by {
                        assert(all[k] == upto[k]);
                        if k < before.len() {
                            assert(upto[k] == before[k]);
                        } else {
                            assert(upto[k] == group.tasks@[k - before.len()]);
                        }
                    }
                    assert(first_task_with_id(all, task_id@, i));
                    assert(*found == group.tasks@[t as int]);
                    assert(profile.all_tasks() == all);
                    assert(profile.all_tasks()[i] == *found);
                    let c = choose|j: int| first_task_with_id(all, task_id@, j);
                    lemma_first_task_unique(all, task_id@, i, c);
                }
                return Some(found);
            }
            t += 1;
        }
        proof {
            let upto = group_tasks(groups.take(g + 1));
            assert forall|i: int| 0 <= i < upto.len() implies (#[trigger] upto[i]).id@ != task_id@ by {
                if i < before.len() {
                    assert(upto[i] == before[i]);
                } else {
                    assert(upto[i] == group.tasks@[i - before.len()]);
                }
            }
        }
        g += 1;
    }
    assert(groups.take(groups.len() as int) =~= groups);
    assert forall|i: int| !first_task_with_id(profile.all_tasks(), task_id@, i) by {
        if 0 <= i < profile.all_tasks().len() {
            assert(profile.all_tasks()[i].id@ != task_id@);
        }
    }
    None
}

/// The tasks of the first `k` groups come first among all tasks.
proof fn lemma_group_tasks_prefix(groups: Seq<TaskGroup>, k: int)
    requires
        0 <= k <= groups.len(),
    ensures
        group_tasks(groups.take(k)).len() <= group_tasks(groups).len(),
        forall|i: int|
            0 <= i < group_tasks(groups.take(k)).len() ==> #[trigger] group_tasks(groups)[i]
                == group_tasks(groups.take(k))[i],
    decreases groups.len() - k,
{
    if k < groups.len() {
        lemma_group_tasks_prefix(groups, k + 1);
        let a = group_tasks(groups.take(k));
        let b = group_tasks(groups.take(k + 1));
        assert(groups.take(k + 1).drop_last() =~= groups.take(k));
        assert(b == a + groups[k].tasks@);
        assert forall|i: int| 0 <= i < a.len() implies #[trigger] group_tasks(groups)[i] == a[i] by {
            assert(b[i] == a[i]);
        }
    } else {
        assert(groups.take(k) =~= groups);
    }
}

/// Why the layout profile could not be used.
#[derive(Debug, Clone)]
pub enum LayoutProfileError {
    ReadFailed { path: String, message: String },
    InvalidJson { path: String, message: String },
    InvalidProfile { path: String, details: String },
}

pub open spec fn layout_error_text(e: LayoutProfileError) -> Seq<char> {
    match e {
        LayoutProfileError::ReadFailed { path, message } => "layout profile could not be read from "@
            + path@ + ": "@ + message@,
        LayoutProfileError::InvalidJson { path, message } => "layout profile JSON is invalid in "@
            + path@ + ": "@ + message@,
        LayoutProfileError::InvalidProfile { path, details } => "layout profile is invalid in "@
            + path@ + ": "@ + details@,
    }
}

impl LayoutProfileError {
    pub fn message(&self) -> (m: String)
        ensures
            m@ == layout_error_text(*self),
    {
        let mut m = String::new();
        let (head, path, tail): (&str, &str, &str) = match self {
            LayoutProfileError::ReadFailed { path, message } => (
                "layout profile could not be read from ",
                path.as_str(),
                message.as_str(),
            ),
            LayoutProfileError::InvalidJson { path, message } => (
                "layout profile JSON is invalid in ",
                path.as_str(),
                message.as_str(),
            ),
            LayoutProfileError::InvalidProfile { path, details } => (
                "layout profile is invalid in ",
                path.as_str(),
                details.as_str(),
            ),
        };
        push_str(&mut m, head);
        push_str(&mut m, path);
        push_str(&mut m, ": ");
        push_str(&mut m, tail);
        m
    }
}

/// The problems found in a layout profile: errors make it unusable, warnings do not.
#[derive(Debug, Clone, PartialEq, Eq)]
pub struct ValidationResult {
    pub warnings: Vec<String>,
    pub errors: Vec<String>,
}

impl ValidationResult {
    pub fn new() -> (r: Self)
        ensures
            r.warnings@.len() == 0,
            r.errors@.len() == 0,
    {
        ValidationResult { warnings: Vec::new(), errors: Vec::new() }
    }

    /// A profile is valid when it has no errors; warnings do not count.
    pub fn is_valid(&self) -> (b: bool)
        ensures
            b == (self.errors@.len() == 0),
    {
        self.errors.len() == 0
    }
}

pub open spec fn template_errors(t: ReportTemplates) -> Seq<Seq<char>> {
    (if is_blank(t.default_template_root@) {
        seq!["templates.default_template_root must not be empty"@]
    } else {
        seq![]
    }) + (if is_blank(t.main_report_template@) {
        seq!["templates.main_report_template must not be empty"@]
    } else {
        seq![]
    }) + (if is_blank(t.print_report_template@) {
        seq!["templates.print_report_template must not be empty"@]
    } else {
        seq![]
    })
}

fn push_error_if(list: &mut Vec<String>, cond: bool, message: String)
    ensures
        final(list)@ == if cond {
            old(list)@.push(message)
        } else {
            old(list)@
        },
{
    if cond {
        list.push(message);
    }
}

fn validate_templates(templates: &ReportTemplates, result: &mut ValidationResult)
    ensures
        views(final(result).errors@) == views(old(result).errors@) + template_errors(*templates),
        final(result).warnings == old(result).warnings,
{
    let ghost e0 = views(result.errors@);
    push_error_if(
        &mut result.errors,
        is_blank_str(templates.default_template_root.as_str()),
        "templates.default_template_root must not be empty".to_owned(),
    );
    push_error_if(
        &mut result.errors,
        is_blank_str(templates.main_report_template.as_str()),
        "templates.main_report_template must not be empty".to_owned(),
    );
    push_error_if(
        &mut result.errors,
        is_blank_str(templates.print_report_template.as_str()),
        "templates.print_report_template must not be empty".to_owned(),
    );
    assert(views(result.errors@) =~= e0 + template_errors(*templates));
}

pub open spec fn workbook_entry_errors(key: Seq<char>, w: WorkbookDefinition) -> Seq<Seq<char>> {
    (if is_blank(key) {
        seq!["workbook keys must not be empty"@]
    } else {
        seq![]
    }) + (if is_blank(w.file_pattern@) {
        seq!["workbook '"@ + key + "' must define file_pattern"@]
    } else {
        seq![]
    })
}

pub open spec fn workbook_entries_errors(entries: Seq<(String, WorkbookDefinition)>) -> Seq<Seq<char>>
    decreases entries.len(),
{
    if entries.len() == 0 {
        seq![]
    } else {
        workbook_entries_errors(entries.drop_last()) + workbook_entry_errors(
            entries.last().0@,
            entries.last().1,
        )
    }
}

/// The workbook errors: none defined, `main` or `print` missing, then each workbook's own, in
/// the order the workbooks are kept.
pub open spec fn workbook_errors(w: StrMap<WorkbookDefinition>) -> Seq<Seq<char>> {
    (if w@.len() == 0 {
        seq!["workbooks must define at least one workbook"@]
    } else {
        seq![]
    }) + (if !w@.contains_key("main"@) {
        seq!["workbooks must define 'main'"@]
    } else {
        seq![]
    }) + (if !w@.contains_key("print"@) {
        seq!["workbooks must define 'print'"@]
    } else {
        seq![]
    }) + workbook_entries_errors(w.entry_seq())
}

fn validate_workbooks(workbooks: &StrMap<WorkbookDefinition>, result: &mut ValidationResult)
    ensures
        views(final(result).errors@) == views(old(result).errors@) + workbook_errors(*workbooks),
        final(result).warnings == old(result).warnings,
{
    let ghost e0 = views(result.errors@);
    push_error_if(
        &mut result.errors,
        workbooks.len() == 0,
        "workbooks must define at least one workbook".to_owned(),
    );
    proof {
        reveal_strlit("main");
        reveal_strlit("print");
    }
    push_error_if(
        &mut result.errors,
        !workbooks.contains_key("main"),
        "workbooks must define 'main'".to_owned(),
    );
    push_error_if(
        &mut result.errors,
        !workbooks.contains_key("print"),
        "workbooks must define 'print'".to_owned(),
    );
    let ghost e1 = views(result.errors@);
    let entries = workbooks.entries();
    for i in 0..entries.len()
        invariant
            entries@ == workbooks.entry_seq(),
            views(result.errors@) == e1 + workbook_entries_errors(entries@.take(i as int)),
            result.warnings == old(result).warnings,
    {
        proof {
            assert(entries@.take(i + 1).drop_last() =~= entries@.take(i as int));
        }
        let key = &entries[i].0;
        let w = &entries[i].1;
        let ghost before = views(result.errors@);
        push_error_if(
            &mut result.errors,
            is_blank_str(key.as_str()),
            "workbook keys must not be empty".to_owned(),
        );
        let mut m = String::new();
        push_str(&mut m, "workbook '");
        push_str(&mut m, key.as_str());
        push_str(&mut m, "' must define file_pattern");
        push_error_if(&mut result.errors, is_blank_str(w.file_pattern.as_str()), m);
        proof {
            assert(views(result.errors@) =~= before + workbook_entry_errors(key@, *w));
        }
    }
    assert(entries@.take(entries@.len() as int) =~= entries@);
    assert(views(result.errors@) =~= e0 + workbook_errors(*workbooks));
}

pub open spec fn serial_warnings(sn: Option<SerialNumberRules>) -> Seq<Seq<char>> {
    if sn is None {
        seq!["serial_number rules are not defined"@]
    } else {
        seq![]
    }
}

pub open spec fn serial_errors(sn: Option<SerialNumberRules>) -> Seq<Seq<char>> {
    match sn {
        None => seq![],
        Some(r) => (if is_blank(r.folder_pattern@) {
            seq!["serial_number.folder_pattern must not be empty"@]
        } else {
            seq![]
        }) + (if exists|i: int|
            0 <= i < r.metadata_files@.len() && is_blank(#[trigger] r.metadata_files@[i]@) {
            seq!["serial_number.metadata_files must not contain empty entries"@]
        } else {
            seq![]
        }),
    }
}

fn validate_serial_number_rules(serial_number: &Option<SerialNumberRules>, result: &mut ValidationResult)
    ensures
        views(final(result).errors@) == views(old(result).errors@) + serial_errors(*serial_number),
        views(final(result).warnings@) == views(old(result).warnings@) + serial_warnings(
            *serial_number,
        ),
{
    let ghost e0 = views(result.errors@);
    let ghost w0 = views(result.warnings@);
    match serial_number {
        None => {
            result.warnings.push("serial_number rules are not defined".to_owned());
            assert(views(result.warnings@) =~= w0 + serial_warnings(*serial_number));
            assert(views(result.errors@) =~= e0 + serial_errors(*serial_number));
        },
        Some(rules) => {
            push_error_if(
                &mut result.errors,
                is_blank_str(rules.folder_pattern.as_str()),
                "serial_number.folder_pattern must not be empty".to_owned(),
            );
            let mut any_blank = false;
            for i in 0..rules.metadata_files.len()
                invariant
                    any_blank == exists|k: int|
                        0 <= k < i && is_blank(#[trigger] rules.metadata_files@[k]@),
            {
                if is_blank_str(rules.metadata_files[i].as_str()) {
                    any_blank = true;
                }
            }
            push_error_if(
                &mut result.errors,
                any_blank,
                "serial_number.metadata_files must not contain empty entries".to_owned(),
            );
            assert(views(result.errors@) =~= e0 + serial_errors(*serial_number));
            assert(views(result.warnings@) =~= w0 + serial_warnings(*serial_number));
        },
    }
}

/// A source column name: one to three upper-case letters, once trimmed.
pub open spec fn valid_column_name_spec(column: Seq<char>) -> bool {
    let t = trim(column);
    1 <= t.len() <= 3 && crate::cells::all_upper(t)
}

pub fn is_valid_column_name(column: &str) -> (b: bool)
    ensures
        b == valid_column_name_spec(column@),
{
    let t = crate::text::trim_str(column);
    let cs = crate::text::chars_of(t.as_str());
    if cs.len() < 1 || cs.len() > 3 {
        return false;
    }
    for i in 0..cs.len()
        invariant
            cs@ == trim(column@),
            forall|k: int| 0 <= k < i ==> crate::cells::is_upper_letter(#[trigger] cs@[k]),
    {
        if !('A' <= cs[i] && cs[i] <= 'Z') {
            assert(!crate::cells::is_upper_letter(cs@[i as int]));
            return false;
        }
    }
    true
}

/// The number of upper-case letters a text starts with.
pub open spec fn leading_upper(s: Seq<char>) -> nat
    decreases s.len(),
{
    if s.len() > 0 && crate::cells::is_upper_letter(s[0]) {
        1 + leading_upper(s.drop_first())
    } else {
        0
    }
}

/// A target cell: one to three upper-case letters, then a row number above zero that fits in
/// `u32`, once trimmed.
pub open spec fn valid_cell_reference_spec(cell: Seq<char>) -> bool {
    let t = trim(cell);
    let k = leading_upper(t);
    &&& 1 <= k <= 3
    &&& k < t.len()
    &&& crate::text::parse_unsigned(t.skip(k as int), u32::MAX as nat) matches Some(v) && v > 0
}

pub fn is_valid_cell_reference(cell: &str) -> (b: bool)
    ensures
        b == valid_cell_reference_spec(cell@),
{
    let t = crate::text::trim_str(cell);
    let cs = crate::text::chars_of(t.as_str());
    let mut k: usize = 0;
    assert(cs@.skip(0) =~= cs@);
    while k < cs.len() && 'A' <= cs[k] && cs[k] <= 'Z'
        invariant
            cs@ == trim(cell@),
            k <= cs@.len(),
            leading_upper(cs@) == k + leading_upper(cs@.skip(k as int)),
        decreases cs.len() - k,
    {
        assert(cs@.skip(k as int).drop_first() =~= cs@.skip(k + 1));
        k += 1;
    }
    assert(leading_upper(cs@.skip(k as int)) == 0);
    if k == 0 || k > 3 || k == cs.len() {
        return false;
    }
    let rest = crate::text::string_of_range(cs.as_slice(), k, cs.len());
    let rc = crate::text::chars_of(rest.as_str());
    assert(rc@ =~= cs@.skip(k as int));
    match crate::text::parse_unsigned_chars(rc.as_slice(), u32::MAX as u128) {
        Some(v) => v > 0,
        None => false,
    }
}

/// The row selectors a mapping may name.
pub open spec fn supported_row_selector(s: Seq<char>) -> bool {
    s == "first_data_after_header"@ || s == "last_data_after_header"@ || s == "last_data"@ || s
        == "last_numeric"@
}

pub fn is_supported_row_selector(selector: &str) -> (b: bool)
    ensures
        b == supported_row_selector(selector@),
{
    str_eq(selector, "first_data_after_header") || str_eq(selector, "last_data_after_header")
        || str_eq(selector, "last_data") || str_eq(selector, "last_numeric")
}

/// `task '<id>' mapping '<label>' ` — how a mapping's messages begin.
pub open spec fn mapping_head(task_id: Seq<char>, label: Seq<char>) -> Seq<char> {
    "task '"@ + task_id + "' mapping '"@ + label + "' "@
}

fn mapping_message(task_id: &str, label: &str, rest: &str) -> (m: String)
    ensures
        m@ == mapping_head(task_id@, label@) + rest@,
{
    let mut m = String::new();
    push_str(&mut m, "task '");
    push_str(&mut m, task_id);
    push_str(&mut m, "' mapping '");
    push_str(&mut m, label);
    push_str(&mut m, "' ");
    push_str(&mut m, rest);
    assert(m@ =~= mapping_head(task_id@, label@) + rest@);
    m
}

fn mapping_message_quoted(task_id: &str, label: &str, before: &str, value: &str, after: &str) -> (m:
    String)
    ensures
        m@ == mapping_head(task_id@, label@) + before@ + "'"@ + value@ + "'"@ + after@,
{
    let mut m = mapping_message(task_id, label, before);
    push_str(&mut m, "'");
    push_str(&mut m, value);
    push_str(&mut m, "'");
    push_str(&mut m, after);
    assert(m@ =~= mapping_head(task_id@, label@) + before@ + "'"@ + value@ + "'"@ + after@);
    m
}

pub open spec fn source_errors(task_id: Seq<char>, label: Seq<char>, src: MappingSource) -> Seq<
    Seq<char>,
> {
    (if !valid_column_name_spec(src.column@) {
        seq![mapping_head(task_id, label) + "source column "@ + "'"@ + src.column@ + "'"@ + " is invalid"@]
    } else {
        seq![]
    }) + match src.row {
        MappingRow::Index(i) => if i == 0 {
            seq![mapping_head(task_id, label) + "source row must be greater than zero"@]
        } else {
            seq![]
        },
        MappingRow::Selector(sel) => if supported_row_selector(sel@) {
            seq![]
        } else {
            seq![
                mapping_head(task_id, label) + "source row selector "@ + "'"@ + sel@ + "'"@
                    + " is not supported"@,
            ]
        },
    }
}

pub open spec fn target_errors(
    task_id: Seq<char>,
    m: MappingDefinition,
    workbooks: Map<Seq<char>, WorkbookDefinition>,
) -> Seq<Seq<char>> {
    let head = mapping_head(task_id, m.label@);
    (if !workbooks.contains_key(m.target.workbook@) {
        seq![head + "references unknown workbook "@ + "'"@ + m.target.workbook@ + "'"@ + ""@]
    } else {
        seq![]
    }) + (if is_blank(m.target.sheet@) {
        seq![head + "target sheet must not be empty"@]
    } else {
        seq![]
    }) + (if !valid_cell_reference_spec(m.target.cell@) {
        seq![head + "target cell "@ + "'"@ + m.target.cell@ + "'"@ + " is invalid"@]
    } else {
        seq![]
    })
}

pub open spec fn target_warnings(task_id: Seq<char>, m: MappingDefinition) -> Seq<Seq<char>> {
    if m.target.number_format matches Some(f) && f@.len() == 0 {
        seq![mapping_head(task_id, m.label@) + "target number_format is empty"@]
    } else {
        seq![]
    }
}

/// A mapping's errors: its source's, a zero scale factor, then its target's.
pub open spec fn mapping_errors(
    task_id: Seq<char>,
    m: MappingDefinition,
    workbooks: Map<Seq<char>, WorkbookDefinition>,
) -> Seq<Seq<char>> {
    (match m.source {
        Some(src) => source_errors(task_id, m.label@, src),
        None => seq![],
    }) + (if m.transform matches Some(t) && t.scale_by_is_zero {
        seq![mapping_head(task_id, m.label@) + "transform.scale_by must not be zero"@]
    } else {
        seq![]
    }) + target_errors(task_id, m, workbooks)
}

/// A mapping's warnings: no label, no source rule, an empty number format.
pub open spec fn mapping_warnings(task_id: Seq<char>, m: MappingDefinition) -> Seq<Seq<char>> {
    (if is_blank(m.label@) {
        seq!["task '"@ + task_id + "' contains a mapping with no label"@]
    } else {
        seq![]
    }) + (if m.source is None {
        seq![mapping_head(task_id, m.label@) + "has no source rule"@]
    } else {
        seq![]
    }) + target_warnings(task_id, m)
}

fn validate_mapping_source(task_id: &str, label: &str, src: &MappingSource, result: &mut ValidationResult)
    ensures
        views(final(result).errors@) == views(old(result).errors@) + source_errors(
            task_id@,
            label@,
            *src,
        ),
        final(result).warnings == old(result).warnings,
{
    let ghost e0 = views(result.errors@);
    push_error_if(
        &mut result.errors,
        !is_valid_column_name(src.column.as_str()),
        mapping_message_quoted(task_id, label, "source column ", src.column.as_str(), " is invalid"),
    );
    match &src.row {
        MappingRow::Index(i) => {
            push_error_if(
                &mut result.errors,
                *i == 0,
                mapping_message(task_id, label, "source row must be greater than zero"),
            );
        },
        MappingRow::Selector(sel) => {
            push_error_if(
                &mut result.errors,
                !is_supported_row_selector(sel.as_str()),
                mapping_message_quoted(
                    task_id,
                    label,
                    "source row selector ",
                    sel.as_str(),
                    " is not supported",
                ),
            );
        },
    }
    assert(views(result.errors@) =~= e0 + source_errors(task_id@, label@, *src));
}

fn validate_mapping_target(
    task_id: &str,
    mapping: &MappingDefinition,
    workbooks: &StrMap<WorkbookDefinition>,
    result: &mut ValidationResult,
)
    ensures
        views(final(result).errors@) == views(old(result).errors@) + target_errors(
            task_id@,
            *mapping,
            workbooks@,
        ),
        views(final(result).warnings@) == views(old(result).warnings@) + target_warnings(
            task_id@,
            *mapping,
        ),
{
    let ghost e0 = views(result.errors@);
    let ghost w0 = views(result.warnings@);
    let label = mapping.label.as_str();
    push_error_if(
        &mut result.errors,
        !workbooks.contains_key(mapping.target.workbook.as_str()),
        mapping_message_quoted(
            task_id,
            label,
            "references unknown workbook ",
            mapping.target.workbook.as_str(),
            "",
        ),
    );
    push_error_if(
        &mut result.errors,
        is_blank_str(mapping.target.sheet.as_str()),
        mapping_message(task_id, label, "target sheet must not be empty"),
    );
    push_error_if(
        &mut result.errors,
        !is_valid_cell_reference(mapping.target.cell.as_str()),
        mapping_message_quoted(task_id, label, "target cell ", mapping.target.cell.as_str(), " is invalid"),
    );
    let empty_format = match &mapping.target.number_format {
        Some(f) => f.as_str().is_empty(),
        None => false,
    };
    push_error_if(
        &mut result.warnings,
        empty_format,
        mapping_message(task_id, label, "target number_format is empty"),
    );
    assert(views(result.errors@) =~= e0 + target_errors(task_id@, *mapping, workbooks@));
    assert(views(result.warnings@) =~= w0 + target_warnings(task_id@, *mapping));
}

fn validate_mapping(
    task: &TaskDefinition,
    mapping: &MappingDefinition,
    workbooks: &StrMap<WorkbookDefinition>,
    result: &mut ValidationResult,
)
    ensures
        views(final(result).errors@) == views(old(result).errors@) + mapping_errors(
            task.id@,
            *mapping,
            workbooks@,
        ),
        views(final(result).warnings@) == views(old(result).warnings@) + mapping_warnings(
            task.id@,
            *mapping,
        ),
{
    let ghost e0 = views(result.errors@);
    let ghost w0 = views(result.warnings@);
    let id = task.id.as_str();
    let label = mapping.label.as_str();
    let mut w1 = String::new();
    push_str(&mut w1, "task '");
    push_str(&mut w1, id);
    push_str(&mut w1, "' contains a mapping with no label");
    push_error_if(&mut result.warnings, is_blank_str(label), w1);
    match &mapping.source {
        Some(src) => {
            validate_mapping_source(id, label, src, result);
        },
        None => {
            result.warnings.push(mapping_message(id, label, "has no source rule"));
        },
    }
    let ghost e1 = views(result.errors@);
    let ghost w1v = views(result.warnings@);
    assert(e1 =~= e0 + match mapping.source {
        Some(src) => source_errors(task.id@, mapping.label@, src),
        None => seq![],
    });
    let zero = match &mapping.transform {
        Some(t) => t.scale_by_is_zero,
        None => false,
    };
    push_error_if(
        &mut result.errors,
        zero,
        mapping_message(id, label, "transform.scale_by must not be zero"),
    );
    let ghost e2 = views(result.errors@);
    assert(e2 =~= e1 + (if mapping.transform matches Some(t) && t.scale_by_is_zero {
        seq![mapping_head(task.id@, mapping.label@) + "transform.scale_by must not be zero"@]
    } else {
        seq![]
    }));
    validate_mapping_target(id, mapping, workbooks, result);
    assert(views(result.errors@) =~= e2 + target_errors(task.id@, *mapping, workbooks@));
    assert(views(result.errors@) =~= e0 + mapping_errors(task.id@, *mapping, workbooks@));
    assert(views(result.warnings@) =~= w0 + mapping_warnings(task.id@, *mapping));
}

pub open spec fn mappings_errors(
    task_id: Seq<char>,
    ms: Seq<MappingDefinition>,
    workbooks: Map<Seq<char>, WorkbookDefinition>,
) -> Seq<Seq<char>>
    decreases ms.len(),
{
    if ms.len() == 0 {
        seq![]
    } else {
        mappings_errors(task_id, ms.drop_last(), workbooks) + mapping_errors(
            task_id,
            ms.last(),
            workbooks,
        )
    }
}

pub open spec fn mappings_warnings(task_id: Seq<char>, ms: Seq<MappingDefinition>) -> Seq<Seq<char>>
    decreases ms.len(),
{
    if ms.len() == 0 {
        seq![]
    } else {
        mappings_warnings(task_id, ms.drop_last()) + mapping_warnings(task_id, ms.last())
    }
}

pub open spec fn has_processor(t: TaskDefinition) -> bool {
    t.processor matches Some(p) && !is_blank(p@)
}

/// `task '<id>' ` + the rest.
pub open spec fn task_text(id: Seq<char>, rest: Seq<char>) -> Seq<char> {
    "task '"@ + id + "' "@ + rest
}

fn task_message(id: &str, rest: &str) -> (m: String)
    ensures
        m@ == task_text(id@, rest@),
{
    let mut m = String::new();
    push_str(&mut m, "task '");
    push_str(&mut m, id);
    push_str(&mut m, "' ");
    push_str(&mut m, rest);
    assert(m@ =~= task_text(id@, rest@));
    m
}

#[verifier::opaque]
pub open spec fn task_head_errors(t: TaskDefinition, seen: bool, example_only: bool) -> Seq<Seq<char>> {
    let id = t.id@;
    (if is_blank(id) {
        seq!["task id must not be empty"@]
    } else if seen {
        seq!["duplicate task id '"@ + id + "'"@]
    } else {
        seq![]
    }) + (if is_blank(t.label@) {
        seq![task_text(id, "label must not be empty"@)]
    } else {
        seq![]
    }) + (match t.step {
        StepNumber::Number(n) => if n == 0 {
            seq![task_text(id, "step must be greater than zero"@)]
        } else {
            seq![]
        },
        StepNumber::Pending(v) => if example_only {
            seq![]
        } else {
            seq![task_text(id, "must use a numeric step before production use, found '"@) + v@ + "'"@]
        },
    })
}

#[verifier::opaque]
pub open spec fn task_tail_errors(t: TaskDefinition) -> Seq<Seq<char>> {
    let id = t.id@;
    (if exists|i: int|
        0 <= i < t.detection_steps@.len() && #[trigger] t.detection_steps@[i] == 0 {
        seq![task_text(id, "detection_steps must be greater than zero"@)]
    } else {
        seq![]
    }) + (if t.processor is Some && !has_processor(t) {
        seq![task_text(id, "processor must not be empty"@)]
    } else {
        seq![]
    }) + (if is_blank(t.csv_pattern@) {
        seq![task_text(id, "csv_pattern must not be empty"@)]
    } else {
        seq![]
    })
}

/// A task's errors: its id (blank or already used), label, step, detection steps, processor and
/// file pattern, then its mappings'.
pub open spec fn task_errors(
    t: TaskDefinition,
    seen: bool,
    example_only: bool,
    workbooks: Map<Seq<char>, WorkbookDefinition>,
) -> Seq<Seq<char>> {
    task_head_errors(t, seen, example_only) + task_tail_errors(t) + mappings_errors(
        t.id@,
        t.mappings@,
        workbooks,
    )
}

#[verifier::opaque]
pub open spec fn task_head_warnings(t: TaskDefinition, example_only: bool) -> Seq<Seq<char>> {
    let id = t.id@;
    (match t.step {
        StepNumber::Pending(v) => if example_only {
            seq![task_text(id, "has unresolved example step '"@) + v@ + "'"@]
        } else {
            seq![]
        },
        _ => seq![],
    }) + (if t.mappings@.len() == 0 && !has_processor(t) {
        seq![task_text(id, "has no report mappings"@)]
    } else {
        seq![]
    })
}

/// A task's warnings: an unresolved example step, no mappings and no processor, then its
/// mappings'.
pub open spec fn task_warnings(t: TaskDefinition, example_only: bool) -> Seq<Seq<char>> {
    task_head_warnings(t, example_only) + mappings_warnings(t.id@, t.mappings@)
}

fn validate_task_head(task: &TaskDefinition, seen: bool, example_only: bool, result: &mut ValidationResult)
    ensures
        views(final(result).errors@) == views(old(result).errors@) + task_head_errors(
            *task,
            seen,
            example_only,
        ),
        views(final(result).warnings@) == views(old(result).warnings@) + (match task.step {
            StepNumber::Pending(v) => if example_only {
                seq![task_text(task.id@, "has unresolved example step '"@) + v@ + "'"@]
            } else {
                seq![]
            },
            _ => seq![],
        }),
{
    proof {
        reveal(task_head_errors);
        reveal(task_head_warnings);
    }
    let ghost e0 = views(result.errors@);
    let ghost w0 = views(result.warnings@);
    let id = task.id.as_str();
    if is_blank_str(id) {
        result.errors.push("task id must not be empty".to_owned());
    } else if seen {
        let mut m = String::new();
        push_str(&mut m, "duplicate task id '");
        push_str(&mut m, id);
        push_str(&mut m, "'");
        result.errors.push(m);
    }
    push_error_if(
        &mut result.errors,
        is_blank_str(task.label.as_str()),
        task_message(id, "label must not be empty"),
    );
    match &task.step {
        StepNumber::Number(n) => {
            push_error_if(&mut result.errors, *n == 0, task_message(id, "step must be greater than zero"));
        },
        StepNumber::Pending(v) => {
            if example_only {
                let mut m = task_message(id, "has unresolved example step '");
                push_str(&mut m, v.as_str());
                push_str(&mut m, "'");
                result.warnings.push(m);
            } else {
                let mut m = task_message(id, "must use a numeric step before production use, found '");
                push_str(&mut m, v.as_str());
                push_str(&mut m, "'");
                result.errors.push(m);
            }
        },
    }
    assert(views(result.errors@) =~= e0 + task_head_errors(*task, seen, example_only));
    assert(views(result.warnings@) =~= w0 + (match task.step {
        StepNumber::Pending(v) => if example_only {
            seq![task_text(task.id@, "has unresolved example step '"@) + v@ + "'"@]
        } else {
            seq![]
        },
        _ => seq![],
    }));
}

fn validate_task_tail(task: &TaskDefinition, result: &mut ValidationResult)
    ensures
        views(final(result).errors@) == views(old(result).errors@) + task_tail_errors(*task),
        views(final(result).warnings@) == views(old(result).warnings@) + (if task.mappings@.len() == 0
            && !has_processor(*task) {
            seq![task_text(task.id@, "has no report mappings"@)]
        } else {
            seq![]
        }),
{
    proof {
        reveal(task_tail_errors);
    }
    let ghost e0 = views(result.errors@);
    let ghost w0 = views(result.warnings@);
    let id = task.id.as_str();
    let mut zero_step = false;
    for i in 0..task.detection_steps.len()
        invariant
            zero_step == exists|k: int| 0 <= k < i && #[trigger] task.detection_steps@[k] == 0,
    {
        if task.detection_steps[i] == 0 {
            zero_step = true;
        }
    }
    push_error_if(
        &mut result.errors,
        zero_step,
        task_message(id, "detection_steps must be greater than zero"),
    );
    let processor_present = match &task.processor {
        Some(p) => !is_blank_str(p.as_str()),
        None => false,
    };
    push_error_if(
        &mut result.errors,
        task.processor.is_some() && !processor_present,
        task_message(id, "processor must not be empty"),
    );
    push_error_if(
        &mut result.errors,
        is_blank_str(task.csv_pattern.as_str()),
        task_message(id, "csv_pattern must not be empty"),
    );
    push_error_if(
        &mut result.warnings,
        task.mappings.len() == 0 && !processor_present,
        task_message(id, "has no report mappings"),
    );
    assert(views(result.errors@) =~= e0 + task_tail_errors(*task));
}

fn validate_task(
    task: &TaskDefinition,
    seen: bool,
    example_only: bool,
    workbooks: &StrMap<WorkbookDefinition>,
    result: &mut ValidationResult,
)
    ensures
        views(final(result).errors@) == views(old(result).errors@) + task_errors(
            *task,
            seen,
            example_only,
            workbooks@,
        ),
        views(final(result).warnings@) == views(old(result).warnings@) + task_warnings(
            *task,
            example_only,
        ),
{
    let ghost e0 = views(result.errors@);
    let ghost w0 = views(result.warnings@);
    validate_task_head(task, seen, example_only, result);
    validate_task_tail(task, result);
    let ghost e1 = views(result.errors@);
    let ghost w1 = views(result.warnings@);
    assert(e1 =~= e0 + task_head_errors(*task, seen, example_only) + task_tail_errors(*task));
    assert(w1 =~= w0 + task_head_warnings(*task, example_only)) by {
        reveal(task_head_warnings);
    }
    for j in 0..task.mappings.len()
        invariant
            views(result.errors@) == e1 + mappings_errors(task.id@, task.mappings@.take(j as int), workbooks@),
            views(result.warnings@) == w1 + mappings_warnings(task.id@, task.mappings@.take(j as int)),
    {
        proof {
            assert(task.mappings@.take(j + 1).drop_last() =~= task.mappings@.take(j as int));
        }
        validate_mapping(task, &task.mappings[j], workbooks, result);
    }
    assert(task.mappings@.take(task.mappings@.len() as int) =~= task.mappings@);
    assert(views(result.errors@) =~= e0 + task_errors(*task, seen, example_only, workbooks@));
    assert(views(result.warnings@) =~= w0 + task_warnings(*task, example_only));
}

/// The id is not blank and one of the earlier ids.
pub open spec fn id_taken(prior: Seq<Seq<char>>, id: Seq<char>) -> bool {
    !is_blank(id) && prior.contains(id)
}

pub open spec fn task_ids(tasks: Seq<TaskDefinition>) -> Seq<Seq<char>> {
    tasks.map_values(|t: TaskDefinition| t.id@)
}

pub open spec fn group_ids(groups: Seq<TaskGroup>) -> Seq<Seq<char>> {
    groups.map_values(|g: TaskGroup| g.id@)
}

pub open spec fn tasks_errors(
    prior: Seq<TaskDefinition>,
    tasks: Seq<TaskDefinition>,
    example_only: bool,
    workbooks: Map<Seq<char>, WorkbookDefinition>,
) -> Seq<Seq<char>>
    decreases tasks.len(),
{
    if tasks.len() == 0 {
        seq![]
    } else {
        tasks_errors(prior, tasks.drop_last(), example_only, workbooks) + task_errors(
            tasks.last(),
            id_taken(task_ids(prior + tasks.drop_last()), tasks.last().id@),
            example_only,
            workbooks,
        )
    }
}

pub open spec fn tasks_warnings(tasks: Seq<TaskDefinition>, example_only: bool) -> Seq<Seq<char>>
    decreases tasks.len(),
{
    if tasks.len() == 0 {
        seq![]
    } else {
        tasks_warnings(tasks.drop_last(), example_only) + task_warnings(tasks.last(), example_only)
    }
}

pub open spec fn group_head_errors(g: TaskGroup, seen: bool) -> Seq<Seq<char>> {
    (if is_blank(g.id@) {
        seq!["task group id must not be empty"@]
    } else if seen {
        seq!["duplicate task group id '"@ + g.id@ + "'"@]
    } else {
        seq![]
    }) + (if is_blank(g.label@) {
        seq!["task group '"@ + g.id@ + "' label must not be empty"@]
    } else {
        seq![]
    })
}

pub open spec fn group_head_warnings(g: TaskGroup) -> Seq<Seq<char>> {
    if g.tasks@.len() == 0 {
        seq!["task group '"@ + g.id@ + "' has no tasks"@]
    } else {
        seq![]
    }
}

/// Each group's errors (its id, blank or already used, and its label), then its tasks'; a task
/// id is a duplicate when any earlier task of any group has it.
#[verifier::opaque]
pub open spec fn groups_errors(
    groups: Seq<TaskGroup>,
    example_only: bool,
    workbooks: Map<Seq<char>, WorkbookDefinition>,
) -> Seq<Seq<char>>
    decreases groups.len(),
{
    if groups.len() == 0 {
        seq![]
    } else {
        let init = groups.drop_last();
        let g = groups.last();
        groups_errors(init, example_only, workbooks) + group_head_errors(
            g,
            id_taken(group_ids(init), g.id@),
        ) + tasks_errors(group_tasks(init), g.tasks@, example_only, workbooks)
    }
}

#[verifier::opaque]
pub open spec fn groups_warnings(groups: Seq<TaskGroup>, example_only: bool) -> Seq<Seq<char>>
    decreases groups.len(),
{
    if groups.len() == 0 {
        seq![]
    } else {
        groups_warnings(groups.drop_last(), example_only) + group_head_warnings(groups.last())
            + tasks_warnings(groups.last().tasks@, example_only)
    }
}

fn contains_text(list: &Vec<String>, x: &str) -> (b: bool)
    ensures
        b == views(list@).contains(x@),
{
    for i in 0..list.len()
        invariant
            forall|k: int| 0 <= k < i ==> list@[k]@ != x@,
    {
        if str_eq(list[i].as_str(), x) {
            assert(views(list@)[i as int] == x@);
            return true;
        }
    }
    assert forall|k: int| 0 <= k < views(list@).len() implies views(list@)[k] != x@ by {
        assert(views(list@)[k] == list@[k]@);
    }
    false
}

fn validate_group_tasks(
    group: &TaskGroup,
    example_only: bool,
    workbooks: &StrMap<WorkbookDefinition>,
    seen_tasks: &mut Vec<String>,
    result: &mut ValidationResult,
    Ghost(prior): Ghost<Seq<TaskDefinition>>,
)
    requires
        views(old(seen_tasks)@) == task_ids(prior),
    ensures
        views(final(seen_tasks)@) == task_ids(prior + group.tasks@),
        views(final(result).errors@) == views(old(result).errors@) + tasks_errors(
            prior,
            group.tasks@,
            example_only,
            workbooks@,
        ),
        views(final(result).warnings@) == views(old(result).warnings@) + tasks_warnings(
            group.tasks@,
            example_only,
        ),
{
    let ghost e0 = views(result.errors@);
    let ghost w0 = views(result.warnings@);
    let ghost tasks = group.tasks@;
    for t in 0..group.tasks.len()
        invariant
            tasks == group.tasks@,
            views(seen_tasks@) == task_ids(prior + tasks.take(t as int)),
            views(result.errors@) == e0 + tasks_errors(prior, tasks.take(t as int), example_only, workbooks@),
            views(result.warnings@) == w0 + tasks_warnings(tasks.take(t as int), example_only),
    {
        let task = &group.tasks[t];
        proof {
            assert(tasks.take(t + 1).drop_last() =~= tasks.take(t as int));
            assert(tasks.take(t + 1).last() == *task);
        }
        let seen = !is_blank_str(task.id.as_str()) && contains_text(seen_tasks, task.id.as_str());
        validate_task(task, seen, example_only, workbooks, result);
        let ghost seen_before = seen_tasks@;
        seen_tasks.push(task.id.clone());
        proof {
            let before = prior + tasks.take(t as int);
            assert(prior + tasks.take(t + 1) =~= before.push(*task));
            assert(views(seen_tasks@) =~= views(seen_before).push(task.id@));
            assert(task_ids(before.push(*task)) =~= task_ids(before).push(task.id@));
        }
    }
    assert(tasks.take(tasks.len() as int) =~= tasks);
}

fn validate_group_head(group: &TaskGroup, seen: bool, result: &mut ValidationResult)
    ensures
        views(final(result).errors@) == views(old(result).errors@) + group_head_errors(*group, seen),
        views(final(result).warnings@) == views(old(result).warnings@) + group_head_warnings(*group),
{
    let ghost e_before = views(result.errors@);
    let ghost w_before = views(result.warnings@);
    let id = group.id.as_str();
    if is_blank_str(id) {
        result.errors.push("task group id must not be empty".to_owned());
    } else if seen {
        let mut m = String::new();
        push_str(&mut m, "duplicate task group id '");
        push_str(&mut m, id);
        push_str(&mut m, "'");
        result.errors.push(m);
    }
    let mut lm = String::new();
    push_str(&mut lm, "task group '");
    push_str(&mut lm, id);
    push_str(&mut lm, "' label must not be empty");
    push_error_if(&mut result.errors, is_blank_str(group.label.as_str()), lm);
    let mut wm = String::new();
    push_str(&mut wm, "task group '");
    push_str(&mut wm, id);
    push_str(&mut wm, "' has no tasks");
    push_error_if(&mut result.warnings, group.tasks.len() == 0, wm);
    assert(views(result.errors@) =~= e_before + group_head_errors(*group, seen));
    assert(views(result.warnings@) =~= w_before + group_head_warnings(*group));
}

proof fn lemma_groups_step(
    groups: Seq<TaskGroup>,
    g: int,
    example_only: bool,
    workbooks: Map<Seq<char>, WorkbookDefinition>,
)
    requires
        0 <= g < groups.len(),
    ensures
        ({
            let init = groups.take(g);
            let group = groups[g];
            &&& groups_errors(groups.take(g + 1), example_only, workbooks) == groups_errors(
                init,
                example_only,
                workbooks,
            ) + group_head_errors(group, id_taken(group_ids(init), group.id@)) + tasks_errors(
                group_tasks(init),
                group.tasks@,
                example_only,
                workbooks,
            )
            &&& groups_warnings(groups.take(g + 1), example_only) == groups_warnings(init, example_only)
                + group_head_warnings(group) + tasks_warnings(group.tasks@, example_only)
            &&& group_tasks(groups.take(g + 1)) == group_tasks(init) + group.tasks@
            &&& group_ids(groups.take(g + 1)) == group_ids(init).push(group.id@)
        }),
{
    let init = groups.take(g);
    reveal(groups_errors);
    reveal(groups_warnings);
    assert(groups.take(g + 1).drop_last() =~= init);
    assert(groups.take(g + 1).last() == groups[g]);
    assert(group_ids(groups.take(g + 1)) =~= group_ids(init).push(groups[g].id@));
}

#[verifier::rlimit(60)]
fn validate_task_groups(profile: &ReportLayoutProfile, example_only: bool, result: &mut ValidationResult)
    ensures
        views(final(result).errors@) == views(old(result).errors@) + (if profile.task_groups@.len() == 0 {
            seq!["task_groups must not be empty"@]
        } else {
            seq![]
        }) + groups_errors(profile.task_groups@, example_only, profile.workbooks@),
        views(final(result).warnings@) == views(old(result).warnings@) + groups_warnings(
            profile.task_groups@,
            example_only,
        ),
{
    let ghost w0 = views(result.warnings@);
    push_error_if(
        &mut result.errors,
        profile.task_groups.len() == 0,
        "task_groups must not be empty".to_owned(),
    );
    let ghost e1 = views(result.errors@);
    let ghost groups = profile.task_groups@;
    let mut seen_groups: Vec<String> = Vec::new();
    let mut seen_tasks: Vec<String> = Vec::new();
    assert(group_ids(groups.take(0)) =~= Seq::<Seq<char>>::empty());
    proof {
        reveal(groups_errors);
        reveal(groups_warnings);
        assert(groups_errors(groups.take(0), example_only, profile.workbooks@) =~= Seq::<Seq<char>>::empty());
        assert(groups_warnings(groups.take(0), example_only) =~= Seq::<Seq<char>>::empty());
    }
    assert(task_ids(group_tasks(groups.take(0))) =~= Seq::<Seq<char>>::empty());
    for g in 0..profile.task_groups.len()
        invariant
            groups == profile.task_groups@,
            views(seen_groups@) == group_ids(groups.take(g as int)),
            views(seen_tasks@) == task_ids(group_tasks(groups.take(g as int))),
            views(result.errors@) == e1 + groups_errors(groups.take(g as int), example_only, profile.workbooks@),
            views(result.warnings@) == w0 + groups_warnings(groups.take(g as int), example_only),
    {
        let group = &profile.task_groups[g];
        proof {
            lemma_groups_step(groups, g as int, example_only, profile.workbooks@);
        }
        let seen = !is_blank_str(group.id.as_str()) && contains_text(&seen_groups, group.id.as_str());
        validate_group_head(group, seen, result);
        let ghost groups_before = seen_groups@;
        seen_groups.push(group.id.clone());
        validate_group_tasks(
            group,
            example_only,
            &profile.workbooks,
            &mut seen_tasks,
            result,
            Ghost(group_tasks(groups.take(g as int))),
        );
        proof {
            assert(views(seen_groups@) =~= views(groups_before).push(group.id@));
        }
    }
    assert(groups.take(groups.len() as int) =~= groups);
}

/// A profile marked as an example may keep pending steps.
pub open spec fn is_example_only(p: ReportLayoutProfile) -> bool {
    p.status matches Some(s) && s@ == "example_only"@
}

pub open spec fn profile_head_errors(p: ReportLayoutProfile) -> Seq<Seq<char>> {
    (if p.schema_version != 1 {
        seq![
            "profile '"@ + p.profile_id@ + "' uses unsupported schema_version "@ + decimal(
                p.schema_version as nat,
            ),
        ]
    } else {
        seq![]
    }) + (if is_blank(p.profile_id@) {
        seq!["profile_id must not be empty"@]
    } else {
        seq![]
    }) + (if is_blank(p.display_name@) {
        seq!["display_name must not be empty"@]
    } else {
        seq![]
    })
}

/// Every error of the profile, in the order they are found.
pub open spec fn profile_errors(p: ReportLayoutProfile) -> Seq<Seq<char>> {
    profile_head_errors(p) + template_errors(p.templates) + workbook_errors(p.workbooks)
        + serial_errors(p.serial_number) + (if p.task_groups@.len() == 0 {
        seq!["task_groups must not be empty"@]
    } else {
        seq![]
    }) + groups_errors(p.task_groups@, is_example_only(p), p.workbooks@)
}

/// Every warning of the profile, in the order they are found.
pub open spec fn profile_warnings(p: ReportLayoutProfile) -> Seq<Seq<char>> {
    serial_warnings(p.serial_number) + groups_warnings(p.task_groups@, is_example_only(p))
}

impl ReportLayoutProfile {
    /// Checks the profile; see `profile_errors` and `profile_warnings` for what is reported.
    pub fn validate(&self) -> (r: ValidationResult)
        ensures
            views(r.errors@) == profile_errors(*self),
            views(r.warnings@) == profile_warnings(*self),
    {
        let mut result = ValidationResult::new();
        let example_only = match &self.status {
            Some(s) => str_eq(s.as_str(), "example_only"),
            None => false,
        };
        if self.schema_version != 1 {
            let mut m = String::new();
            push_str(&mut m, "profile '");
            push_str(&mut m, self.profile_id.as_str());
            push_str(&mut m, "' uses unsupported schema_version ");
            let d = decimal_string(self.schema_version as u128);
            push_str(&mut m, d.as_str());
            result.errors.push(m);
        }
        push_error_if(
            &mut result.errors,
            is_blank_str(self.profile_id.as_str()),
            "profile_id must not be empty".to_owned(),
        );
        push_error_if(
            &mut result.errors,
            is_blank_str(self.display_name.as_str()),
            "display_name must not be empty".to_owned(),
        );
        assert(views(result.errors@) =~= profile_head_errors(*self));
        assert(views(result.warnings@) =~= Seq::<Seq<char>>::empty());
        validate_templates(&self.templates, &mut result);
        validate_workbooks(&self.workbooks, &mut result);
        validate_serial_number_rules(&self.serial_number, &mut result);
        validate_task_groups(self, example_only, &mut result);
        assert(views(result.errors@) =~= profile_errors(*self));
        assert(views(result.warnings@) =~= profile_warnings(*self));
        result
    }
}

/// What the application shows of a loaded profile.
pub struct ProfileLoadSummary {
    pub profile_id: String,
    pub display_name: String,
    pub task_count: usize,
    pub validation: ValidationResult,
}

impl ReportLayoutProfile {
    pub fn to_load_summary(&self) -> (s: ProfileLoadSummary)
        requires
            self.all_tasks().len() <= usize::MAX,
        ensures
            s.profile_id@ == self.profile_id@,
            s.display_name@ == self.display_name@,
            s.task_count == self.all_tasks().len(),
            views(s.validation.errors@) == profile_errors(*self),
            views(s.validation.warnings@) == profile_warnings(*self),
    {
        ProfileLoadSummary {
            profile_id: self.profile_id.clone(),
            display_name: self.display_name.clone(),
            task_count: self.task_count(),
            validation: self.validate(),
        }
    }
}

/// The profile read from `path`, kept only when it validates without errors; otherwise the
/// error lists every validation error, separated by "; ". A read or parse error is passed on.
pub fn parse_and_validate_profile(
    path: String,
    parsed: Result<ReportLayoutProfile, LayoutProfileError>,
) -> (r: Result<ReportLayoutProfile, LayoutProfileError>)
    ensures
        parsed is Err ==> r == parsed,
        parsed matches Ok(p) ==> (profile_errors(p).len() == 0 ==> r == parsed),
        parsed matches Ok(p) ==> (profile_errors(p).len() != 0 ==> (r matches Err(
            LayoutProfileError::InvalidProfile { path: q, details },
        ) && q@ == path@ && details@ == joined(profile_errors(p), "; "@))),
{
    match parsed {
        Err(e) => Err(e),
        Ok(profile) => {
            let validation = profile.validate();
            if validation.is_valid() {
                Ok(profile)
            } else {
                let details = join_texts(&validation.errors, "; ");
                Err(LayoutProfileError::InvalidProfile { path, details })
            }
        },
    }
}

} // verus!
