use vstd::prelude::*;

use crate::patterns::{regex_compiles, wildcard_regex};
use crate::profile::{profile_task, task_index, ReportLayoutProfile};
use crate::scan::{CsvScanEntry, CsvScanIndex};
use crate::select::last_max;
use crate::tasks::{
    breaker_step, step_for_breaker, step_for_system, system_step, AutomationTask, TaskKind,
    VoltageSet,
};
use crate::text::{decimal, decimal_string, is_blank, push_str, views};
use crate::automation::TaskProcessResult;

verus! {

/// Where a task stands on its way to being processed.
#[derive(Debug, Clone, Copy, PartialEq, Eq, Structural)]
pub enum TaskWaitPhase {
    AwaitingCsv,
    Timing,
    Soaking,
    WaitingStep72,
    Capturing,
    WaitingUnlock,
    Ready,
}

/// Whether a task may be processed now, and if not, what it waits for and until when.
#[derive(Debug, Clone, Copy, PartialEq, Eq, Structural)]
pub struct TaskReadiness {
    pub process_ready: bool,
    pub wait_phase: TaskWaitPhase,
    pub phase_deadline_ms: Option<u64>,
    pub pending_duration_seconds: u64,
    pub nominal_duration_seconds: u64,
}

/// The CSV export a task would be processed from, and why it was picked.
#[derive(Debug, Clone)]
pub struct TaskCsvMatch {
    pub path: Option<String>,
    pub created_ms: Option<u64>,
    pub processable: bool,
    pub reason: String,
}

pub const TRANSFORMER_DURATION_SECONDS: u64 = 60;

pub const DEFAULT_TASK_DURATION_SECONDS: u64 = 180;

pub const SYSTEM_BURN_IN_SOAK_SECONDS: u64 = 7_200;

pub const SYSTEM_BURN_IN_CAPTURE_SECONDS: u64 = 60;

pub open spec fn sat_add(a: u64, b: u64) -> u64 {
    if a + b > u64::MAX {
        u64::MAX
    } else {
        (a + b) as u64
    }
}

pub open spec fn seconds_to_ms(seconds: u64) -> u64 {
    if seconds * 1000 > u64::MAX {
        u64::MAX
    } else {
        (seconds * 1000) as u64
    }
}

/// Seconds as milliseconds, saturating.
pub fn duration_ms(seconds: u64) -> (ms: u64)
    ensures
        ms == seconds_to_ms(seconds),
{
    if seconds > u64::MAX / 1000 {
        u64::MAX
    } else {
        seconds * 1000
    }
}

pub open spec fn nominal_seconds(kind: TaskKind) -> u64 {
    match kind {
        TaskKind::Transformer { .. } => TRANSFORMER_DURATION_SECONDS,
        TaskKind::SystemBurnIn => (SYSTEM_BURN_IN_SOAK_SECONDS + SYSTEM_BURN_IN_CAPTURE_SECONDS) as u64,
        _ => DEFAULT_TASK_DURATION_SECONDS,
    }
}

/// How long a task's test runs once its export appears.
pub fn task_nominal_duration_seconds(task: &AutomationTask) -> (s: u64)
    ensures
        s == nominal_seconds(task.kind),
{
    match task.kind {
        TaskKind::Transformer { .. } => TRANSFORMER_DURATION_SECONDS,
        TaskKind::SystemBurnIn => SYSTEM_BURN_IN_SOAK_SECONDS + SYSTEM_BURN_IN_CAPTURE_SECONDS,
        _ => DEFAULT_TASK_DURATION_SECONDS,
    }
}

/// A task other than the system burn-in: it waits for its export, then for its nominal
/// duration counted from the export's start, then for the export to be readable.
pub open spec fn generic_readiness_spec(
    kind: TaskKind,
    created_ms: Option<u64>,
    processable: bool,
    now_ms: u64,
) -> TaskReadiness {
    let nominal = nominal_seconds(kind);
    match created_ms {
        None => TaskReadiness {
            process_ready: false,
            wait_phase: TaskWaitPhase::AwaitingCsv,
            phase_deadline_ms: None,
            pending_duration_seconds: nominal,
            nominal_duration_seconds: nominal,
        },
        Some(start) => {
            let deadline = sat_add(start, seconds_to_ms(nominal));
            TaskReadiness {
                process_ready: now_ms >= deadline && processable,
                wait_phase: if now_ms < deadline {
                    TaskWaitPhase::Timing
                } else if !processable {
                    TaskWaitPhase::WaitingUnlock
                } else {
                    TaskWaitPhase::Ready
                },
                phase_deadline_ms: Some(deadline),
                pending_duration_seconds: 0,
                nominal_duration_seconds: nominal,
            }
        },
    }
}

pub fn generic_readiness(task: &AutomationTask, csv_match: &TaskCsvMatch, now_ms: u64) -> (r:
    TaskReadiness)
    ensures
        r == generic_readiness_spec(task.kind, csv_match.created_ms, csv_match.processable, now_ms),
{
    let nominal = task_nominal_duration_seconds(task);
    let start = match csv_match.created_ms {
        Some(s) => s,
        None => {
            return TaskReadiness {
                process_ready: false,
                wait_phase: TaskWaitPhase::AwaitingCsv,
                phase_deadline_ms: None,
                pending_duration_seconds: nominal,
                nominal_duration_seconds: nominal,
            };
        },
    };
    let deadline = start.saturating_add(duration_ms(nominal));
    let (ready, phase) = if now_ms < deadline {
        (false, TaskWaitPhase::Timing)
    } else if !csv_match.processable {
        (false, TaskWaitPhase::WaitingUnlock)
    } else {
        (true, TaskWaitPhase::Ready)
    };
    TaskReadiness {
        process_ready: ready,
        wait_phase: phase,
        phase_deadline_ms: Some(deadline),
        pending_duration_seconds: 0,
        nominal_duration_seconds: nominal,
    }
}

/// The system burn-in: the STEP71 soak must run two hours from the STEP71 export's start, and
/// the STEP72 capture one minute from the STEP72 export's start; then the STEP72 export must
/// be readable. `step71` is the start of the newest STEP71 export (outer `None`: there is
/// none); `step72` the start and readability of the newest STEP72 system accuracy export.
pub open spec fn burn_in_readiness_spec(
    step71: Option<Option<u64>>,
    step72: Option<(Option<u64>, bool)>,
    now_ms: u64,
) -> TaskReadiness {
    let nominal = (SYSTEM_BURN_IN_SOAK_SECONDS + SYSTEM_BURN_IN_CAPTURE_SECONDS) as u64;
    let awaiting = TaskReadiness {
        process_ready: false,
        wait_phase: TaskWaitPhase::AwaitingCsv,
        phase_deadline_ms: None,
        pending_duration_seconds: nominal,
        nominal_duration_seconds: nominal,
    };
    match step71 {
        None => awaiting,
        Some(None) => awaiting,
        Some(Some(start71)) => {
            let soak = sat_add(start71, seconds_to_ms(SYSTEM_BURN_IN_SOAK_SECONDS));
            match step72 {
                None => TaskReadiness {
                    process_ready: false,
                    wait_phase: if now_ms < soak {
                        TaskWaitPhase::Soaking
                    } else {
                        TaskWaitPhase::WaitingStep72
                    },
                    phase_deadline_ms: if now_ms < soak {
                        Some(soak)
                    } else {
                        None
                    },
                    pending_duration_seconds: SYSTEM_BURN_IN_CAPTURE_SECONDS,
                    nominal_duration_seconds: nominal,
                },
                Some((None, _)) => TaskReadiness {
                    process_ready: false,
                    wait_phase: TaskWaitPhase::WaitingStep72,
                    phase_deadline_ms: None,
                    pending_duration_seconds: SYSTEM_BURN_IN_CAPTURE_SECONDS,
                    nominal_duration_seconds: nominal,
                },
                Some((Some(start72), readable)) => {
                    let capture = sat_add(start72, seconds_to_ms(SYSTEM_BURN_IN_CAPTURE_SECONDS));
                    let deadline = if soak >= capture {
                        soak
                    } else {
                        capture
                    };
                    let phase = if now_ms < deadline {
                        if soak >= capture {
                            TaskWaitPhase::Soaking
                        } else {
                            TaskWaitPhase::Capturing
                        }
                    } else if !readable {
                        TaskWaitPhase::WaitingUnlock
                    } else {
                        TaskWaitPhase::Ready
                    };
                    TaskReadiness {
                        process_ready: phase == TaskWaitPhase::Ready,
                        wait_phase: phase,
                        phase_deadline_ms: Some(deadline),
                        pending_duration_seconds: 0,
                        nominal_duration_seconds: nominal,
                    }
                },
            }
        },
    }
}

/// `SYSTEM_ACCURACY_TEST_DATA_AVG`, the fragment every system accuracy export carries.
pub open spec fn system_fragment() -> Seq<char> {
    "SYSTEM_ACCURACY_TEST_DATA_AVG"@
}

/// What the index shows of the newest STEP71 export: its start, if there is one.
pub open spec fn observed_step71(index: CsvScanIndex) -> Option<Option<u64>> {
    match index.latest_index(71) {
        Some(i) => Some(index.entries@[i].created_ms),
        None => None,
    }
}

/// What the index shows of the newest STEP72 system accuracy export.
pub open spec fn observed_step72(index: CsvScanIndex) -> Option<(Option<u64>, bool)> {
    match last_max(index.fragment_keys(72, seq![system_fragment()])) {
        Some(i) => Some((index.entries@[i].created_ms, index.entries@[i].readable)),
        None => None,
    }
}

pub fn burn_in_readiness(csv_index: &CsvScanIndex, now_ms: u64) -> (r: TaskReadiness)
    ensures
        r == burn_in_readiness_spec(observed_step71(*csv_index), observed_step72(*csv_index), now_ms),
{
    let nominal = SYSTEM_BURN_IN_SOAK_SECONDS + SYSTEM_BURN_IN_CAPTURE_SECONDS;
    let awaiting = TaskReadiness {
        process_ready: false,
        wait_phase: TaskWaitPhase::AwaitingCsv,
        phase_deadline_ms: None,
        pending_duration_seconds: nominal,
        nominal_duration_seconds: nominal,
    };
    let step71 = match csv_index.latest_for_step(71) {
        Some(e) => e,
        None => {
            return awaiting;
        },
    };
    let start71 = match step71.created_ms {
        Some(s) => s,
        None => {
            return awaiting;
        },
    };
    let soak = start71.saturating_add(duration_ms(SYSTEM_BURN_IN_SOAK_SECONDS));
    let fragments = vec!["SYSTEM_ACCURACY_TEST_DATA_AVG".to_owned()];
    assert(views(fragments@) =~= seq![system_fragment()]);
    let step72 = match csv_index.latest_for_step_fragments(72, &fragments) {
        Some(e) => e,
        None => {
            return TaskReadiness {
                process_ready: false,
                wait_phase: if now_ms < soak {
                    TaskWaitPhase::Soaking
                } else {
                    TaskWaitPhase::WaitingStep72
                },
                phase_deadline_ms: if now_ms < soak {
                    Some(soak)
                } else {
                    None
                },
                pending_duration_seconds: SYSTEM_BURN_IN_CAPTURE_SECONDS,
                nominal_duration_seconds: nominal,
            };
        },
    };
    let start72 = match step72.created_ms {
        Some(s) => s,
        None => {
            return TaskReadiness {
                process_ready: false,
                wait_phase: TaskWaitPhase::WaitingStep72,
                phase_deadline_ms: None,
                pending_duration_seconds: SYSTEM_BURN_IN_CAPTURE_SECONDS,
                nominal_duration_seconds: nominal,
            };
        },
    };
    let capture = start72.saturating_add(duration_ms(SYSTEM_BURN_IN_CAPTURE_SECONDS));
    let deadline = if soak >= capture {
        soak
    } else {
        capture
    };
    let phase = if now_ms < deadline {
        if soak >= capture {
            TaskWaitPhase::Soaking
        } else {
            TaskWaitPhase::Capturing
        }
    } else if !step72.readable {
        TaskWaitPhase::WaitingUnlock
    } else {
        TaskWaitPhase::Ready
    };
    TaskReadiness {
        process_ready: matches!(phase, TaskWaitPhase::Ready),
        wait_phase: phase,
        phase_deadline_ms: Some(deadline),
        pending_duration_seconds: 0,
        nominal_duration_seconds: nominal,
    }
}

pub open spec fn readiness_spec(
    kind: TaskKind,
    index: CsvScanIndex,
    created_ms: Option<u64>,
    processable: bool,
    now_ms: u64,
) -> TaskReadiness {
    if kind == TaskKind::SystemBurnIn {
        burn_in_readiness_spec(observed_step71(index), observed_step72(index), now_ms)
    } else {
        generic_readiness_spec(kind, created_ms, processable, now_ms)
    }
}

/// The system burn-in is judged by its STEP71 and STEP72 exports; every other task by the
/// export it matched.
pub fn evaluate_task_readiness(
    task: &AutomationTask,
    csv_index: &CsvScanIndex,
    csv_match: &TaskCsvMatch,
    now_ms: u64,
) -> (r: TaskReadiness)
    ensures
        r == readiness_spec(
            task.kind,
            *csv_index,
            csv_match.created_ms,
            csv_match.processable,
            now_ms,
        ),
{
    if matches!(task.kind, TaskKind::SystemBurnIn) {
        burn_in_readiness(csv_index, now_ms)
    } else {
        generic_readiness(task, csv_match, now_ms)
    }
}

/// Law: a task is ready to process exactly when its phase is `Ready`.
pub proof fn law_ready_exactly_in_ready_phase(
    kind: TaskKind,
    index: CsvScanIndex,
    created_ms: Option<u64>,
    processable: bool,
    now_ms: u64,
)
    ensures
        readiness_spec(kind, index, created_ms, processable, now_ms).process_ready <==> readiness_spec(
            kind,
            index,
            created_ms,
            processable,
            now_ms,
        ).wait_phase == TaskWaitPhase::Ready,
{
}

/// Law: a task other than the burn-in is ready only once its export exists, its nominal
/// duration has passed since the export's start, and the export is readable.
pub proof fn law_generic_ready_after_nominal_duration(
    kind: TaskKind,
    created_ms: Option<u64>,
    processable: bool,
    now_ms: u64,
)
    requires
        generic_readiness_spec(kind, created_ms, processable, now_ms).process_ready,
    ensures
        created_ms is Some,
        now_ms >= sat_add(created_ms->0, seconds_to_ms(nominal_seconds(kind))),
        processable,
{
}

/// Law: the deadline of a task other than the burn-in depends on its export's start alone, so
/// a later look at the same export keeps it.
pub proof fn law_generic_deadline_is_fixed_by_the_export(
    kind: TaskKind,
    created_ms: Option<u64>,
    processable: bool,
    first_ms: u64,
    later_ms: u64,
)
    ensures
        generic_readiness_spec(kind, created_ms, processable, first_ms).phase_deadline_ms
            == generic_readiness_spec(kind, created_ms, processable, later_ms).phase_deadline_ms,
{
}

/// Law: the system burn-in is ready only after the two-hour STEP71 soak and the one-minute
/// STEP72 capture have both run, and the STEP72 export is readable.
pub proof fn law_burn_in_ready_after_soak_and_capture(
    step71: Option<Option<u64>>,
    step72: Option<(Option<u64>, bool)>,
    now_ms: u64,
)
    requires
        burn_in_readiness_spec(step71, step72, now_ms).process_ready,
    ensures
        step71 matches Some(Some(start71)) && now_ms >= sat_add(start71, 7_200_000),
        step72 matches Some((Some(start72), readable)) && readable && now_ms >= sat_add(
            start72,
            60_000,
        ),
{
}

/// What a task waiting in the given phase is told.
pub open spec fn wait_message_text(label: Seq<char>, phase: TaskWaitPhase) -> Seq<char> {
    match phase {
        TaskWaitPhase::AwaitingCsv => "Waiting for "@ + label + " CSV."@,
        TaskWaitPhase::Timing => "Waiting for "@ + label + " CSV timer."@,
        TaskWaitPhase::Soaking => "System Burn-In STEP71 soak is still running."@,
        TaskWaitPhase::WaitingStep72 => "STEP71 soak is complete; waiting for matching STEP72 burn-in data."@,
        TaskWaitPhase::Capturing => "STEP72 burn-in capture is stabilizing for one minute."@,
        TaskWaitPhase::WaitingUnlock => "Required CSV is still locked or unreadable."@,
        TaskWaitPhase::Ready => "Ready."@,
    }
}

pub fn readiness_wait_message(task: &AutomationTask, readiness: TaskReadiness) -> (m: String)
    ensures
        m@ == wait_message_text(task.label@, readiness.wait_phase),
{
    let mut m = String::new();
    match readiness.wait_phase {
        TaskWaitPhase::AwaitingCsv => {
            push_str(&mut m, "Waiting for ");
            push_str(&mut m, task.label.as_str());
            push_str(&mut m, " CSV.");
        },
        TaskWaitPhase::Timing => {
            push_str(&mut m, "Waiting for ");
            push_str(&mut m, task.label.as_str());
            push_str(&mut m, " CSV timer.");
        },
        TaskWaitPhase::Soaking => {
            push_str(&mut m, "System Burn-In STEP71 soak is still running.");
        },
        TaskWaitPhase::WaitingStep72 => {
            push_str(&mut m, "STEP71 soak is complete; waiting for matching STEP72 burn-in data.");
        },
        TaskWaitPhase::Capturing => {
            push_str(&mut m, "STEP72 burn-in capture is stabilizing for one minute.");
        },
        TaskWaitPhase::WaitingUnlock => {
            push_str(&mut m, "Required CSV is still locked or unreadable.");
        },
        TaskWaitPhase::Ready => {
            push_str(&mut m, "Ready.");
        },
    }
    assert(m@ =~= wait_message_text(task.label@, readiness.wait_phase));
    m
}

/// A breaker number as two digits, zero-padded (`{:02}`).
pub open spec fn two_digits(n: u8) -> Seq<char> {
    if n < 10 {
        seq!['0'] + decimal(n as nat)
    } else {
        decimal(n as nat)
    }
}

pub fn two_digit_string(n: u8) -> (s: String)
    ensures
        s@ == two_digits(n),
{
    let mut s = String::new();
    if n < 10 {
        s.push('0');
    }
    let d = decimal_string(n as u128);
    push_str(&mut s, d.as_str());
    assert(s@ =~= two_digits(n));
    s
}

/// `SUB_FEED_<nn>_ACCURACY_TEST_DATA_AVG`: the fragment a breaker's accuracy export carries.
pub open spec fn breaker_fragment(breaker: u8) -> Seq<char> {
    "SUB_FEED_"@ + two_digits(breaker) + "_ACCURACY_TEST_DATA_AVG"@
}

pub fn breaker_fragment_string(breaker: u8) -> (s: String)
    ensures
        s@ == breaker_fragment(breaker),
{
    let mut s = String::new();
    push_str(&mut s, "SUB_FEED_");
    let d = two_digit_string(breaker);
    push_str(&mut s, d.as_str());
    push_str(&mut s, "_ACCURACY_TEST_DATA_AVG");
    s
}

/// The step whose export a task's built-in processor reads.
pub open spec fn requirement_step(kind: TaskKind) -> int {
    match kind {
        TaskKind::Transformer { voltage } => match voltage {
            VoltageSet::V208 => 14,
            VoltageSet::V415 => 43,
        },
        TaskKind::System { voltage, load } => system_step(voltage, load),
        TaskKind::Breaker { voltage, breaker, load } => breaker_step(voltage, breaker as int, load),
        TaskKind::SystemBurnIn => 72,
        TaskKind::BreakerBurnIn { breaker } => 72 + breaker,
    }
}

/// The name fragment that export must carry.
pub open spec fn requirement_fragment(kind: TaskKind) -> Seq<char> {
    match kind {
        TaskKind::Transformer { .. } => "TRANSFORMER_TEST_DATA_AVG"@,
        TaskKind::System { .. } => system_fragment(),
        TaskKind::Breaker { breaker, .. } => breaker_fragment(breaker),
        TaskKind::SystemBurnIn => system_fragment(),
        TaskKind::BreakerBurnIn { breaker } => breaker_fragment(breaker),
    }
}

/// The kinds of task the list holds: breakers 1 to 8.
pub open spec fn kind_in_range(kind: TaskKind) -> bool {
    match kind {
        TaskKind::Breaker { breaker, .. } => 1 <= breaker <= 8,
        TaskKind::BreakerBurnIn { breaker } => 1 <= breaker <= 8,
        _ => true,
    }
}

/// The step and name fragments of the export that a task's built-in processor reads. Every
/// kind of task has one.
pub fn built_in_csv_requirement(task: &AutomationTask) -> (r: Option<(u16, Vec<String>)>)
    requires
        kind_in_range(task.kind),
    ensures
        r matches Some((step, fragments)) && step == requirement_step(task.kind) && views(
            fragments@,
        ) == seq![requirement_fragment(task.kind)],
{
    let (step, fragment) = match task.kind {
        TaskKind::Transformer { voltage } => (
            match voltage {
                VoltageSet::V208 => 14u16,
                VoltageSet::V415 => 43u16,
            },
            "TRANSFORMER_TEST_DATA_AVG".to_owned(),
        ),
        TaskKind::System { voltage, load } => (
            step_for_system(voltage, load),
            "SYSTEM_ACCURACY_TEST_DATA_AVG".to_owned(),
        ),
        TaskKind::Breaker { voltage, breaker, load } => (
            step_for_breaker(voltage, breaker, load),
            breaker_fragment_string(breaker),
        ),
        TaskKind::SystemBurnIn => (72u16, "SYSTEM_ACCURACY_TEST_DATA_AVG".to_owned()),
        TaskKind::BreakerBurnIn { breaker } => (
            72 + (breaker as u16),
            breaker_fragment_string(breaker),
        ),
    };
    let fragments = vec![fragment];
    assert(views(fragments@) =~= seq![requirement_fragment(task.kind)]);
    Some((step, fragments))
}

/// The export found through the profile: a task with report mappings names a file pattern,
/// and the newest export whose name matches it is the one.
pub open spec fn mapped_entry(
    profile: &ReportLayoutProfile,
    index: CsvScanIndex,
    task_id: Seq<char>,
) -> Option<int> {
    match task_index(profile.all_tasks(), task_id) {
        Some(t) => {
            let def = profile.all_tasks()[t];
            let pattern = def.csv_pattern@;
            if def.mappings@.len() > 0 && !is_blank(pattern) && regex_compiles(
                wildcard_regex(pattern),
            ) {
                last_max(index.pattern_keys(wildcard_regex(pattern)))
            } else {
                None
            }
        },
        None => None,
    }
}

/// The export the built-in processor would read.
pub open spec fn built_in_entry(index: CsvScanIndex, kind: TaskKind) -> Option<int> {
    last_max(index.fragment_keys(requirement_step(kind) as u16, seq![requirement_fragment(kind)]))
}

pub open spec fn match_reason_text(mapped: bool, step: int, e: CsvScanEntry) -> Seq<char> {
    if mapped {
        if e.readable {
            "matched configured CSV pattern: "@ + e.path@
        } else {
            "configured CSV is not readable yet: "@ + e.path@
        }
    } else if e.readable {
        "matched required STEP"@ + decimal(step as nat) + " CSV: "@ + e.path@
    } else {
        "required STEP"@ + decimal(step as nat) + " CSV is not readable yet: "@ + e.path@
    }
}

/// The match is that of the given export.
pub open spec fn matches_entry(m: TaskCsvMatch, e: CsvScanEntry, mapped: bool, step: int) -> bool {
    &&& m.path == Some(e.path)
    &&& m.created_ms == e.created_ms
    &&& m.processable == e.readable
    &&& m.reason@ == match_reason_text(mapped, step, e)
}

fn entry_match(e: &CsvScanEntry, mapped: bool, step: u16) -> (m: TaskCsvMatch)
    ensures
        matches_entry(m, *e, mapped, step as int),
{
    let mut reason = String::new();
    if mapped {
        if e.readable {
            push_str(&mut reason, "matched configured CSV pattern: ");
        } else {
            push_str(&mut reason, "configured CSV is not readable yet: ");
        }
    } else {
        if e.readable {
            push_str(&mut reason, "matched required STEP");
        } else {
            push_str(&mut reason, "required STEP");
        }
        let d = decimal_string(step as u128);
        push_str(&mut reason, d.as_str());
        if e.readable {
            push_str(&mut reason, " CSV: ");
        } else {
            push_str(&mut reason, " CSV is not readable yet: ");
        }
    }
    push_str(&mut reason, e.path.as_str());
    assert(reason@ =~= match_reason_text(mapped, step as int, *e));
    TaskCsvMatch {
        path: Some(e.path.clone()),
        created_ms: e.created_ms,
        processable: e.readable,
        reason,
    }
}

/// The export a task is matched with, and whether it came through the profile.
pub open spec fn matched_entry(
    profile: &ReportLayoutProfile,
    index: CsvScanIndex,
    task: AutomationTask,
) -> Option<(int, bool)> {
    match mapped_entry(profile, index, task.id@) {
        Some(e) => Some((e, true)),
        None => match built_in_entry(index, task.kind) {
            Some(e) => Some((e, false)),
            None => None,
        },
    }
}

pub open spec fn matched_created_ms(
    profile: &ReportLayoutProfile,
    index: CsvScanIndex,
    task: AutomationTask,
) -> Option<u64> {
    match matched_entry(profile, index, task) {
        Some((e, _)) => index.entries@[e].created_ms,
        None => None,
    }
}

pub open spec fn matched_processable(
    profile: &ReportLayoutProfile,
    index: CsvScanIndex,
    task: AutomationTask,
) -> bool {
    match matched_entry(profile, index, task) {
        Some((e, _)) => index.entries@[e].readable,
        None => false,
    }
}

pub open spec fn matched_path(
    profile: &ReportLayoutProfile,
    index: CsvScanIndex,
    task: AutomationTask,
) -> Option<String> {
    match matched_entry(profile, index, task) {
        Some((e, _)) => Some(index.entries@[e].path),
        None => None,
    }
}

/// Why the task was matched with its export, or why it was matched with none.
pub open spec fn matched_reason(
    profile: &ReportLayoutProfile,
    index: CsvScanIndex,
    task: AutomationTask,
) -> Seq<char> {
    match matched_entry(profile, index, task) {
        Some((e, mapped)) => match_reason_text(mapped, requirement_step(task.kind), index.entries@[e]),
        None => "no processable STEP"@ + decimal(requirement_step(task.kind) as nat)
            + " CSV found with required fragment(s): "@ + requirement_fragment(task.kind),
    }
}

/// The readiness of a task against what the index shows.
pub open spec fn task_readiness_spec(
    profile: &ReportLayoutProfile,
    index: CsvScanIndex,
    task: AutomationTask,
    now_ms: u64,
) -> TaskReadiness {
    readiness_spec(
        task.kind,
        index,
        matched_created_ms(profile, index, task),
        matched_processable(profile, index, task),
        now_ms,
    )
}

/// Which export a task would be processed from: the one its profile mapping names, else the
/// newest export of the step its built-in processor reads; with the reason, for the operator.
pub fn task_csv_match(task: &AutomationTask, profile: &ReportLayoutProfile, csv_index: &CsvScanIndex) -> (m:
    TaskCsvMatch)
    requires
        kind_in_range(task.kind),
    ensures
        match mapped_entry(profile, *csv_index, task.id@) {
            Some(e) => matches_entry(m, csv_index.entries@[e], true, requirement_step(task.kind)),
            None => match built_in_entry(*csv_index, task.kind) {
                Some(e) => matches_entry(
                    m,
                    csv_index.entries@[e],
                    false,
                    requirement_step(task.kind),
                ),
                None => m.path is None && m.created_ms is None && !m.processable && m.reason@ == "no processable STEP"@
                    + decimal(requirement_step(task.kind) as nat)
                    + " CSV found with required fragment(s): "@ + requirement_fragment(task.kind),
            },
        },
        m.path == matched_path(profile, *csv_index, *task),
        m.created_ms == matched_created_ms(profile, *csv_index, *task),
        m.processable == matched_processable(profile, *csv_index, *task),
        m.reason@ == matched_reason(profile, *csv_index, *task),
{
    match profile_task(profile, task.id.as_str()) {
        Some(def) => {
            if def.mappings.len() > 0 {
                match csv_index.latest_by_pattern(def.csv_pattern.as_str()) {
                    Some(e) => {
                        return entry_match(e, true, 0);
                    },
                    None => {},
                }
            }
        },
        None => {},
    }
    let (step, fragments) = match built_in_csv_requirement(task) {
        Some(r) => r,
        None => {
            return TaskCsvMatch {
                path: None,
                created_ms: None,
                processable: false,
                reason: "task has no CSV processor requirement".to_owned(),
            };
        },
    };
    match csv_index.latest_for_step_fragments(step, &fragments) {
        Some(e) => entry_match(e, false, step),
        None => {
            let mut reason = String::new();
            push_str(&mut reason, "no processable STEP");
            let d = decimal_string(step as u128);
            push_str(&mut reason, d.as_str());
            push_str(&mut reason, " CSV found with required fragment(s): ");
            push_str(&mut reason, fragments[0].as_str());
            assert(fragments@[0]@ == views(fragments@)[0]);
            TaskCsvMatch { path: None, created_ms: None, processable: false, reason }
        },
    }
}

/// The preflight of a task: `None` when it is ready to process; else the waiting result it
/// reports instead, carrying the wait's message and the export it matched.
pub fn process_preflight(
    task: &AutomationTask,
    profile: &ReportLayoutProfile,
    csv_index: &CsvScanIndex,
    now_ms: u64,
) -> (r: Option<TaskProcessResult>)
    requires
        kind_in_range(task.kind),
    ensures
        match r {
            None => task_readiness_spec(profile, *csv_index, *task, now_ms).process_ready,
            Some(w) => {
                let readiness = task_readiness_spec(profile, *csv_index, *task, now_ms);
                &&& !readiness.process_ready
                &&& w.task_id == task.id
                &&& w.state@ == "waiting"@
                &&& w.code == 2
                &&& !w.continue_sequence
                &&& w.message@ == wait_message_text(task.label@, readiness.wait_phase)
                &&& w.log@.len() == 1
                &&& w.report_path is None && w.print_report_path is None
                &&& w.failure is None && w.csv_fingerprint is None
                &&& w.source_csv_path == matched_path(profile, *csv_index, *task)
            },
        },
{
    let csv_match = task_csv_match(task, profile, csv_index);
    let readiness = evaluate_task_readiness(task, csv_index, &csv_match, now_ms);
    if readiness.process_ready {
        return None;
    }
    let message = readiness_wait_message(task, readiness);
    let source = csv_match.path.clone();
    Some(
        TaskProcessResult {
            task_id: task.id.clone(),
            state: "waiting".to_owned(),
            code: 2,
            continue_sequence: false,
            message,
            log: vec![csv_match.reason],
            report_path: None,
            print_report_path: None,
            failure: None,
            source_csv_path: source,
            csv_fingerprint: None,
        },
    )
}

/// Law: the fragment a breaker's accuracy export carries names the breaker with two digits,
/// zero-padded (`SUB_FEED_03_...` for breaker 3), between `SUB_FEED_` and
/// `_ACCURACY_TEST_DATA_AVG`, for every breaker number below 100.
pub proof fn law_breaker_fragment_is_zero_padded(breaker: u8)
    requires
        breaker < 100,
    ensures
        breaker_fragment(breaker).len() == 34,
        breaker_fragment(breaker).take(9) == "SUB_FEED_"@,
        breaker_fragment(breaker)[9] == crate::text::digit_char(breaker as int / 10),
        breaker_fragment(breaker)[10] == crate::text::digit_char(breaker as int % 10),
        breaker_fragment(breaker).skip(11) == "_ACCURACY_TEST_DATA_AVG"@,
{
    reveal_strlit("SUB_FEED_");
    reveal_strlit("_ACCURACY_TEST_DATA_AVG");
    let n = breaker as nat;
    let digits = seq![crate::text::digit_char(breaker as int / 10), crate::text::digit_char(breaker as int % 10)];
    if n < 10 {
        assert(decimal(n) == seq![crate::text::digit_char(n as int)]);
        assert(two_digits(breaker) =~= digits);
    } else {
        assert(decimal(n / 10) == seq![crate::text::digit_char((n / 10) as int)]);
        assert(decimal(n) == decimal(n / 10).push(crate::text::digit_char((n % 10) as int)));
        assert(two_digits(breaker) =~= digits);
    }
    let f = breaker_fragment(breaker);
    assert(f == "SUB_FEED_"@ + digits + "_ACCURACY_TEST_DATA_AVG"@);
    assert(f.take(9) =~= "SUB_FEED_"@);
    assert(f.skip(11) =~= "_ACCURACY_TEST_DATA_AVG"@);
}

} // verus!
