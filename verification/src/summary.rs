use vstd::prelude::*;

use crate::automation::{TaskStatus, UnitFolderSummary};
use crate::profile::ReportLayoutProfile;
use crate::readiness::{
    evaluate_task_readiness, kind_in_range, matched_path, matched_processable, matched_reason,
    task_csv_match, task_readiness_spec,
};
use crate::scan::{CsvScanEntry, CsvScanIndex};
use crate::select::last_max;
use crate::tasks::{automation_tasks, task_kind_at, task_matches, AutomationTask, TaskKind};
use crate::text::{clone_opt, opt_view, str_eq, views};
use crate::unit_state::{TaskStateSeed, TaskStateV, UnitState, UnitTaskState, tasks_view};

verus! {

/// The steps of the list that some export of the folder carries.
pub open spec fn detected_steps_spec(index: CsvScanIndex, steps: Seq<u16>) -> Seq<u16> {
    steps.filter_map(|s: u16| if index.has_step_spec(s) { Some(s) } else { None })
}

/// `detected` when some step of the task has an export, else `off`.
pub open spec fn detected_text(index: CsvScanIndex, steps: Seq<u16>) -> Seq<char> {
    if detected_steps_spec(index, steps).len() == 0 {
        "off"@
    } else {
        "detected"@
    }
}

/// The state a summary shows for a task the unit state knows: `pass` once a failure was
/// accepted, the recorded outcome where there is one, else what the scan detected.
pub open spec fn merged_state(entry: TaskStateV, detected: Seq<char>) -> Seq<char> {
    if entry.accepted.accepted {
        "pass"@
    } else if entry.state == "pass"@ || entry.state == "fail"@ || entry.state == "waiting"@
        || entry.state == "warning"@ {
        entry.state
    } else {
        detected
    }
}

pub fn merged_summary_state(entry: &UnitTaskState, detected_state: &str) -> (s: String)
    ensures
        s@ == merged_state(entry@, detected_state@),
{
    if entry.accepted.accepted {
        return "pass".to_owned();
    }
    let st = entry.state.as_str();
    if str_eq(st, "pass") || str_eq(st, "fail") || str_eq(st, "waiting") || str_eq(st, "warning") {
        entry.state.clone()
    } else {
        detected_state.to_owned()
    }
}

/// The newest export among the newest of each of the steps.
pub open spec fn latest_entry(index: CsvScanIndex, steps: Seq<u16>) -> Option<CsvScanEntry> {
    match last_max(index.steps_keys(steps)) {
        Some(k) => Some(index.entries@[index.latest_index(steps[k])->0]),
        None => None,
    }
}

/// The summary line of a task: what the scan found of it, how ready it is, and what the unit
/// state recorded of it (`persisted`).
pub open spec fn status_is(
    t: TaskStatus,
    task: AutomationTask,
    profile: &ReportLayoutProfile,
    index: CsvScanIndex,
    persisted: Option<TaskStateV>,
    now_ms: u64,
) -> bool {
    let steps = task.detection_steps@;
    let latest = latest_entry(index, steps);
    let latest_created = match latest {
        Some(e) => e.created_ms,
        None => None,
    };
    let readiness = task_readiness_spec(profile, index, task, now_ms);
    &&& t.task_id == task.id
    &&& t.label == task.label
    &&& t.step == task.step_display
    &&& t.state@ == match persisted {
        Some(e) => merged_state(e, detected_text(index, steps)),
        None => detected_text(index, steps),
    }
    &&& t.detected_steps@ == detected_steps_spec(index, steps)
    &&& t.latest_csv == match latest {
        Some(e) => Some(e.path),
        None => None,
    }
    &&& t.latest_csv_created_ms == latest_created
    &&& t.latest_csv_readable == match latest {
        Some(e) => Some(e.readable),
        None => None,
    }
    &&& t.timer_start_ms == match index.timer_start(steps) {
        Some(c) => Some(c),
        None => latest_created,
    }
    &&& t.processable == matched_processable(profile, index, task)
    &&& t.process_ready == readiness.process_ready
    &&& t.wait_phase == readiness.wait_phase
    &&& t.phase_deadline_ms == readiness.phase_deadline_ms
    &&& t.pending_duration_seconds == readiness.pending_duration_seconds
    &&& t.nominal_duration_seconds == readiness.nominal_duration_seconds
    &&& t.match_reason@ == matched_reason(profile, index, task)
    &&& opt_view(t.source_csv_path) == match persisted {
        Some(e) => e.source_csv_path,
        None => None,
    }
    &&& opt_view(t.csv_fingerprint) == match persisted {
        Some(e) => e.csv_fingerprint,
        None => None,
    }
    &&& opt_view(t.processed_at) == match persisted {
        Some(e) => e.processed_at,
        None => None,
    }
    &&& opt_view(t.result) == match persisted {
        Some(e) => e.result,
        None => None,
    }
    &&& t.accepted == (persisted matches Some(e) && e.accepted.accepted)
}

/// The summary line of one task.
pub fn task_status(
    task: &AutomationTask,
    profile: &ReportLayoutProfile,
    csv_index: &CsvScanIndex,
    persisted: Option<&UnitTaskState>,
    now_ms: u64,
) -> (t: TaskStatus)
    requires
        kind_in_range(task.kind),
    ensures
        status_is(
            t,
            *task,
            profile,
            *csv_index,
            match persisted {
                Some(e) => Some(e@),
                None => None,
            },
            now_ms,
        ),
{
    let detected = csv_index.detected_steps_for_task(task.detection_steps.as_slice());
    let latest = csv_index.latest_for_steps(task.detection_steps.as_slice());
    let (latest_csv, latest_csv_created_ms, latest_csv_readable) = match latest {
        Some(e) => (Some(e.path.clone()), e.created_ms, Some(e.readable)),
        None => (None, None, None),
    };
    let timer_start_ms = match csv_index.timer_start_millis_for_steps(task.detection_steps.as_slice()) {
        Some(c) => Some(c),
        None => latest_csv_created_ms,
    };
    let detected_state = if detected.len() == 0 {
        "off"
    } else {
        "detected"
    };
    proof {
        reveal_strlit("off");
        reveal_strlit("detected");
    }
    let csv_match = task_csv_match(task, profile, csv_index);
    let readiness = evaluate_task_readiness(task, csv_index, &csv_match, now_ms);
    let (state, source_csv_path, csv_fingerprint, processed_at, result, accepted) = match persisted {
        Some(entry) => (
            merged_summary_state(entry, detected_state),
            clone_opt(&entry.source_csv_path),
            clone_opt(&entry.csv_fingerprint),
            clone_opt(&entry.processed_at),
            clone_opt(&entry.result),
            entry.accepted.accepted,
        ),
        None => (detected_state.to_owned(), None, None, None, None, false),
    };
    TaskStatus {
        task_id: task.id.clone(),
        label: task.label.clone(),
        step: task.step_display.clone(),
        state,
        detected_steps: detected,
        latest_csv,
        latest_csv_created_ms,
        latest_csv_readable,
        timer_start_ms,
        processable: csv_match.processable,
        process_ready: readiness.process_ready,
        wait_phase: readiness.wait_phase,
        phase_deadline_ms: readiness.phase_deadline_ms,
        pending_duration_seconds: readiness.pending_duration_seconds,
        nominal_duration_seconds: readiness.nominal_duration_seconds,
        match_reason: csv_match.reason,
        source_csv_path,
        csv_fingerprint,
        processed_at,
        result,
        accepted,
    }
}

/// The seed that a scan gives a task's entry in the unit state: its detected state, and the
/// export it would be processed from.
pub open spec fn seed_is(
    s: TaskStateSeed,
    task: AutomationTask,
    profile: &ReportLayoutProfile,
    index: CsvScanIndex,
) -> bool {
    &&& s.task_id == task.id
    &&& s.state@ == detected_text(index, task.detection_steps@)
    &&& s.source_csv_path == matched_path(profile, index, task)
    &&& s.csv_fingerprint is None
}

pub open spec fn all_in_range(tasks: Seq<AutomationTask>) -> bool {
    forall|i: int| 0 <= i < tasks.len() ==> kind_in_range(#[trigger] tasks[i].kind)
}

/// One seed per task, in order.
pub fn summary_seeds(
    tasks: &Vec<AutomationTask>,
    profile: &ReportLayoutProfile,
    csv_index: &CsvScanIndex,
) -> (seeds: Vec<TaskStateSeed>)
    requires
        all_in_range(tasks@),
    ensures
        seeds@.len() == tasks@.len(),
        forall|i: int|
            0 <= i < tasks@.len() ==> seed_is(#[trigger] seeds@[i], tasks@[i], profile, *csv_index),
{
    let mut seeds: Vec<TaskStateSeed> = Vec::new();
    for i in 0..tasks.len()
        invariant
            all_in_range(tasks@),
            seeds@.len() == i,
            forall|k: int|
                0 <= k < i ==> seed_is(#[trigger] seeds@[k], tasks@[k], profile, *csv_index),
    {
        let task = &tasks[i];
        assert(kind_in_range(tasks@[i as int].kind));
        let detected = csv_index.detected_steps_for_task(task.detection_steps.as_slice());
        proof {
            reveal_strlit("off");
            reveal_strlit("detected");
        }
        let csv_match = task_csv_match(task, profile, csv_index);
        seeds.push(
            TaskStateSeed {
                task_id: task.id.clone(),
                state: if detected.len() == 0 {
                    "off".to_owned()
                } else {
                    "detected".to_owned()
                },
                source_csv_path: csv_match.path,
                csv_fingerprint: None,
            },
        );
    }
    seeds
}

/// The ids of the tasks that the scan detected, each once, in the order they first appear.
pub open spec fn detected_ids(tasks: Seq<AutomationTask>, index: CsvScanIndex) -> Seq<Seq<char>>
    decreases tasks.len(),
{
    if tasks.len() == 0 {
        seq![]
    } else {
        let ids = detected_ids(tasks.drop_last(), index);
        let t = tasks.last();
        if detected_steps_spec(index, t.detection_steps@).len() > 0 && !ids.contains(t.id@) {
            ids.push(t.id@)
        } else {
            ids
        }
    }
}

fn contains_id(ids: &Vec<String>, id: &str) -> (b: bool)
    ensures
        b == views(ids@).contains(id@),
{
    for i in 0..ids.len()
        invariant
            forall|k: int| 0 <= k < i ==> ids@[k]@ != id@,
    {
        if str_eq(ids[i].as_str(), id) {
            assert(views(ids@)[i as int] == id@);
            return true;
        }
    }
    assert forall|k: int| 0 <= k < views(ids@).len() implies views(ids@)[k] != id@ by {
        assert(views(ids@)[k] == ids@[k]@);
    }
    false
}

/// A summary line per task, with what the unit state holds of each, and the number of
/// distinct tasks the scan detected.
pub fn summarize_tasks(
    tasks: &Vec<AutomationTask>,
    profile: &ReportLayoutProfile,
    csv_index: &CsvScanIndex,
    state: &UnitState,
    now_ms: u64,
) -> (r: (Vec<TaskStatus>, usize))
    requires
        all_in_range(tasks@),
    ensures
        r.0@.len() == tasks@.len(),
        forall|i: int|
            0 <= i < tasks@.len() ==> status_is(
                #[trigger] r.0@[i],
                tasks@[i],
                profile,
                *csv_index,
                if tasks_view(state.tasks@).contains_key(tasks@[i].id@) {
                    Some(tasks_view(state.tasks@)[tasks@[i].id@])
                } else {
                    None
                },
                now_ms,
            ),
        r.1 == detected_ids(tasks@, *csv_index).len(),
{
    let mut out: Vec<TaskStatus> = Vec::new();
    let mut ids: Vec<String> = Vec::new();
    for i in 0..tasks.len()
        invariant
            all_in_range(tasks@),
            out@.len() == i,
            forall|k: int|
                0 <= k < i ==> status_is(
                    #[trigger] out@[k],
                    tasks@[k],
                    profile,
                    *csv_index,
                    if tasks_view(state.tasks@).contains_key(tasks@[k].id@) {
                        Some(tasks_view(state.tasks@)[tasks@[k].id@])
                    } else {
                        None
                    },
                    now_ms,
                ),
            views(ids@) == detected_ids(tasks@.take(i as int), *csv_index),
            ids@.len() <= i,
    {
        let task = &tasks[i];
        assert(kind_in_range(tasks@[i as int].kind));
        let persisted = state.tasks.get(task.id.as_str());
        let status = task_status(task, profile, csv_index, persisted, now_ms);
        proof {
            assert(tasks@.take(i + 1).drop_last() =~= tasks@.take(i as int));
            assert(tasks@.take(i + 1).last() == tasks@[i as int]);
        }
        let ghost before = ids@;
        if status.detected_steps.len() > 0 && !contains_id(&ids, task.id.as_str()) {
            ids.push(task.id.clone());
            proof {
                assert(views(ids@) =~= views(before).push(task.id@));
            }
        }
        out.push(status);
    }
    assert(tasks@.take(tasks@.len() as int) =~= tasks@);
    let count = ids.len();
    (out, count)
}

/// The summary of a unit folder: the folder, its reports as set up, and a line per automation
/// task, judged against the folder's exports and the unit state.
pub fn build_summary_with_profile(
    unit_folder: String,
    serial_number: Option<String>,
    report_path: Option<String>,
    print_report_path: Option<String>,
    warnings: Vec<String>,
    profile: &ReportLayoutProfile,
    csv_index: &CsvScanIndex,
    state: &UnitState,
    now_ms: u64,
) -> (s: UnitFolderSummary)
    ensures
        s.unit_folder == unit_folder,
        s.serial_number == serial_number,
        s.report_path == report_path,
        s.print_report_path == print_report_path,
        s.warnings == warnings,
        s.tasks@.len() == 65,
        exists|tasks: Seq<AutomationTask>|
            {
                &&& tasks.len() == 65
                &&& forall|i: int| 0 <= i < 65 ==> task_matches(#[trigger] tasks[i], i)
                &&& s.detected_count == detected_ids(tasks, *csv_index).len()
                &&& forall|i: int|
                    0 <= i < 65 ==> status_is(
                        #[trigger] s.tasks@[i],
                        tasks[i],
                        profile,
                        *csv_index,
                        if tasks_view(state.tasks@).contains_key(tasks[i].id@) {
                            Some(tasks_view(state.tasks@)[tasks[i].id@])
                        } else {
                            None
                        },
                        now_ms,
                    )
            },
{
    let tasks = automation_tasks();
    assert forall|i: int| 0 <= i < tasks@.len() implies kind_in_range(#[trigger] tasks@[i].kind) by {
        assert(task_matches(tasks@[i], i));
    }
    let (statuses, detected_count) = summarize_tasks(&tasks, profile, csv_index, state, now_ms);
    UnitFolderSummary {
        unit_folder,
        serial_number,
        report_path,
        print_report_path,
        detected_count,
        tasks: statuses,
        warnings,
    }
}

/// Law: a task's summary line shows what the unit state holds of it (as after a restart, once
/// the state is read back): a recorded pass, failure, wait or warning as it is, with its CSV
/// fingerprint; an accepted failure as a pass, marked accepted.
pub proof fn law_summary_shows_the_persisted_state(
    t: TaskStatus,
    task: AutomationTask,
    profile: &ReportLayoutProfile,
    index: CsvScanIndex,
    e: TaskStateV,
    now_ms: u64,
)
    requires
        status_is(t, task, profile, index, Some(e), now_ms),
    ensures
        !e.accepted.accepted && (e.state == "pass"@ || e.state == "fail"@ || e.state == "waiting"@ || e.state
            == "warning"@) ==> t.state@ == e.state && !t.accepted,
        e.accepted.accepted ==> t.state@ == "pass"@ && t.accepted,
        opt_view(t.csv_fingerprint) == e.csv_fingerprint,
        opt_view(t.source_csv_path) == e.source_csv_path,
{
}

/// Law: after a task's failure was accepted and the task processed again, its summary line
/// shows the new outcome, not accepted: a new failure shows as a failure.
pub proof fn law_reprocessed_task_shows_its_new_outcome(
    t: TaskStatus,
    task: AutomationTask,
    profile: &ReportLayoutProfile,
    index: CsvScanIndex,
    m: Map<Seq<char>, TaskStateV>,
    r: crate::unit_state::OutcomeV,
    at: Seq<char>,
    now_ms: u64,
)
    requires
        status_is(t, task, profile, index, Some(crate::unit_state::record_outcome(m, task.id@, r, at)[task.id@]), now_ms),
        r.state == "pass"@ || r.state == "fail"@ || r.state == "waiting"@ || r.state == "warning"@,
    ensures
        t.state@ == r.state,
        !t.accepted,
        opt_view(t.csv_fingerprint) == r.csv_fingerprint,
{
    crate::unit_state::law_reprocessing_clears_acceptance(m, task.id@, r, at);
}

} // verus!
