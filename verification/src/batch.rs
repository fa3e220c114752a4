use vstd::prelude::*;

use crate::automation::{
    continues_sequence, processor_result_continues_sequence, to_task_process_result,
    TaskBatchProcessResult, TaskBatchProgress, TaskProcessResult,
};
use crate::processors::{
    same_result, FailureDetail, ProcessorResult, ProcessorTaskOutput,
};
use crate::reports::{external_lock, is_external_workbook_lock_error, report_error_text, ReportError, WorkbookPatch};
use crate::tasks::{find_task, kind_id, task_kind_at, task_matches, AutomationTask};
use crate::text::{clone_opt, decimal, decimal_string, push_str, str_eq};

verus! {

/// A task's output held back until the workbook patches queued with it are committed.
pub struct PendingTaskOutput {
    pub task_id: String,
    pub result: ProcessorResult,
    pub has_patches: bool,
}

/// What evaluating a task gave.
pub enum TaskEvaluation {
    /// Its output: the values computed (or the result of an export already processed).
    Output(ProcessorTaskOutput),
    /// It is not ready yet: the waiting result of its preflight.
    Waiting(TaskProcessResult),
}

/// What the batch asks to be done next.
pub enum BatchAction {
    /// Report progress for the task, evaluate it and answer with `on_evaluated`.
    Evaluate(AutomationTask),
    /// Write these workbook patches in one transaction and answer with `on_committed`.
    Commit(Vec<WorkbookPatch>),
    /// Record these results in the unit state and answer with `on_recorded`.
    Record(Vec<(String, ProcessorResult)>),
    /// The batch is over.
    Finish(TaskBatchProcessResult),
    /// The batch stops: no task has this id.
    UnknownTask(String),
    /// The batch stops: the report workbook is held open by another program.
    WorkbookLocked(ReportError),
}

/// Progress to report, then the action to take.
pub struct BatchStep {
    pub progress: Vec<TaskBatchProgress>,
    pub action: BatchAction,
}

/// What to do once the queued outputs have been committed and recorded.
pub enum AfterFlush {
    /// The task list is done.
    Finish,
    /// End at the given task; its output is among those queued.
    StopAt(String),
    /// Record the given task's result (it came with no patches); the batch ends there.
    RecordAndStop(String, ProcessorResult),
    /// Report the given task's waiting result, unrecorded; the batch ends there.
    WaitAndStop(String, TaskProcessResult),
}

/// The answer the batch waits for.
pub enum Awaiting {
    Start,
    Evaluation(String),
    Commit(AfterFlush),
    RecordPending(AfterFlush),
    RecordPrior { failed_index: usize, failure: ProcessorResult },
    RecordFailed { task_id: String, failure: ProcessorResult },
    RecordSingle(String, ProcessorResult),
    Done,
}

/// Processing a list of tasks for one unit folder: outputs that pass are queued and committed
/// together; the batch stops at the first task that is not ready, or whose output neither
/// passes nor is a failed accuracy check with values to write.
pub struct TaskBatch {
    pub unit_folder: String,
    pub task_ids: Vec<String>,
    pub next: usize,
    pub results: Vec<TaskProcessResult>,
    pub pending: Vec<PendingTaskOutput>,
    pub patches: Vec<WorkbookPatch>,
    pub stopped_task_id: Option<String>,
    pub committed: bool,
    pub awaiting: Awaiting,
    /// Every progress event the batch has handed out, in order.
    pub trace: Ghost<Seq<TaskBatchProgress>>,
    /// Where in the trace the "processing" event of each task reached stands.
    pub reached: Ghost<Seq<int>>,
}

/// How many results are in the given state.
pub open spec fn count_state(results: Seq<TaskProcessResult>, state: Seq<char>) -> nat
    decreases results.len(),
{
    if results.len() == 0 {
        0
    } else {
        count_state(results.drop_last(), state) + if results.last().state@ == state {
            1nat
        } else {
            0nat
        }
    }
}

fn count_results(results: &Vec<TaskProcessResult>, state: &str) -> (n: usize)
    ensures
        n == count_state(results@, state@),
{
    let mut n: usize = 0;
    for i in 0..results.len()
        invariant
            n == count_state(results@.take(i as int), state@),
            n <= i,
    {
        proof {
            assert(results@.take(i + 1).drop_last() =~= results@.take(i as int));
        }
        if str_eq(results[i].state.as_str(), state) {
            n += 1;
        }
    }
    assert(results@.take(results@.len() as int) =~= results@);
    n
}

pub open spec fn plural(n: nat) -> Seq<char> {
    if n == 1 {
        Seq::empty()
    } else {
        seq!['s']
    }
}

/// The message that closes a batch.
pub open spec fn batch_message_text(results: Seq<TaskProcessResult>, stopped: Option<String>) -> Seq<
    char,
> {
    let passed = count_state(results, "pass"@);
    let failed = count_state(results, "fail"@);
    match stopped {
        Some(id) => "Batch stopped at "@ + id@ + " after finalizing "@ + decimal(passed) + " task"@
            + plural(passed) + "."@,
        None => if failed > 0 {
            "Batch processed "@ + decimal(results.len()) + " tasks ("@ + decimal(passed)
                + " passed, "@ + decimal(failed) + " failed)."@
        } else {
            "Batch processed "@ + decimal(passed) + " task"@ + plural(passed) + "."@
        },
    }
}

pub fn batch_message(results: &Vec<TaskProcessResult>, stopped: &Option<String>) -> (m: String)
    ensures
        m@ == batch_message_text(results@, *stopped),
{
    let passed = count_results(results, "pass");
    let failed = count_results(results, "fail");
    let mut m = String::new();
    match stopped {
        Some(id) => {
            push_str(&mut m, "Batch stopped at ");
            push_str(&mut m, id.as_str());
            push_str(&mut m, " after finalizing ");
            let d = decimal_string(passed as u128);
            push_str(&mut m, d.as_str());
            push_str(&mut m, " task");
            if passed != 1 {
                m.push('s');
            }
            push_str(&mut m, ".");
        },
        None => {
            if failed > 0 {
                push_str(&mut m, "Batch processed ");
                let d = decimal_string(results.len() as u128);
                push_str(&mut m, d.as_str());
                push_str(&mut m, " tasks (");
                let p = decimal_string(passed as u128);
                push_str(&mut m, p.as_str());
                push_str(&mut m, " passed, ");
                let f = decimal_string(failed as u128);
                push_str(&mut m, f.as_str());
                push_str(&mut m, " failed).");
            } else {
                push_str(&mut m, "Batch processed ");
                let d = decimal_string(passed as u128);
                push_str(&mut m, d.as_str());
                push_str(&mut m, " task");
                if passed != 1 {
                    m.push('s');
                }
                push_str(&mut m, ".");
            }
        },
    }
    proof {
        reveal_strlit(".");
        reveal_strlit(" task");
    }
    assert(m@ =~= batch_message_text(results@, *stopped));
    m
}

/// The result that stands for a task whose patches could not be committed.
pub open spec fn commit_failure(attempted: ProcessorResult, error: ReportError, r: ProcessorResult) -> bool {
    let message = "Report commit failed: "@ + report_error_text(error);
    &&& r.state@ == "fail"@
    &&& r.code == 1
    &&& r.message@ == message
    &&& r.log@.len() == 1 && r.log@[0]@ == "[commit] "@ + message
    &&& r.report_path == attempted.report_path
    &&& r.print_report_path == attempted.print_report_path
    &&& r.failure matches Some(f) && f.title@ == "Report Commit Failed"@ && f.message@ == message
        && f.location is None
    &&& r.source_csv_path == attempted.source_csv_path
    &&& r.csv_fingerprint == attempted.csv_fingerprint
}

pub fn report_commit_failure_result(attempted: &ProcessorResult, error: &ReportError) -> (r:
    ProcessorResult)
    ensures
        commit_failure(*attempted, *error, r),
{
    let mut message = String::new();
    push_str(&mut message, "Report commit failed: ");
    let text = error.message();
    push_str(&mut message, text.as_str());
    let mut line = String::new();
    push_str(&mut line, "[commit] ");
    push_str(&mut line, message.as_str());
    ProcessorResult {
        state: "fail".to_owned(),
        code: 1,
        message: message.clone(),
        log: vec![line],
        report_path: clone_opt(&attempted.report_path),
        print_report_path: clone_opt(&attempted.print_report_path),
        failure: Some(
            FailureDetail { title: "Report Commit Failed".to_owned(), message, location: None },
        ),
        source_csv_path: clone_opt(&attempted.source_csv_path),
        csv_fingerprint: clone_opt(&attempted.csv_fingerprint),
    }
}

/// The position of the first queued output with patches, or 0 where none has any: the output
/// blamed when a commit fails.
pub open spec fn failed_position(pending: Seq<PendingTaskOutput>) -> int {
    if exists|i: int| 0 <= i < pending.len() && #[trigger] pending[i].has_patches {
        choose|i: int|
            0 <= i < pending.len() && #[trigger] pending[i].has_patches && forall|k: int|
                0 <= k < i ==> !pending[k].has_patches
    } else {
        0
    }
}

/// The records to make of queued outputs: each task id with a copy of its result.
pub open spec fn records_of(pending: Seq<PendingTaskOutput>, records: Seq<(String, ProcessorResult)>) -> bool {
    &&& records.len() == pending.len()
    &&& forall|i: int|
        0 <= i < pending.len() ==> (#[trigger] records[i]).0 == pending[i].task_id && same_result(
            records[i].1,
            pending[i].result,
        )
}

/// The task of the list that an id names: the first one whose id it is.
pub open spec fn listed_task(id: Seq<char>, task: AutomationTask) -> bool {
    exists|i: int|
        0 <= i < 65 && #[trigger] task_matches(task, i) && task.id@ == id && (forall|j: int|
            0 <= j < i ==> kind_id(task_kind_at(j)) != id)
}

/// No task of the list has the id.
pub open spec fn no_listed_task(id: Seq<char>) -> bool {
    forall|i: int| 0 <= i < 65 ==> kind_id(#[trigger] task_kind_at(i)) != id
}

/// The batch `b` is `a` closed, with the given stop and results: they are handed out in the
/// action that ends it.
pub open spec fn closed_with(
    a: TaskBatch,
    stopped: Option<String>,
    results: Seq<TaskProcessResult>,
    b: TaskBatch,
    action: BatchAction,
) -> bool {
    &&& b.awaiting is Done
    &&& b.results@.len() == 0
    &&& b.unit_folder == a.unit_folder
    &&& b.task_ids == a.task_ids
    &&& b.next == a.next
    &&& b.pending == a.pending
    &&& b.patches == a.patches
    &&& b.stopped_task_id == stopped
    &&& b.committed == a.committed
    &&& action is Finish
    &&& action->Finish_0.results@ == results
    &&& action->Finish_0.committed == a.committed
    &&& action->Finish_0.stopped_task_id == stopped
    &&& action->Finish_0.committed_count == count_state(results, "pass"@)
    &&& action->Finish_0.message@ == batch_message_text(results, stopped)
}

/// The batch `b` is `a` closed: its results handed out in the action that ends it.
pub open spec fn finished_from(a: TaskBatch, b: TaskBatch, action: BatchAction) -> bool {
    closed_with(a, a.stopped_task_id, a.results@, b, action)
}

/// The number that a progress event gives the result reported after `n` others.
pub open spec fn next_index(n: nat) -> nat {
    if n < usize::MAX {
        n + 1
    } else {
        usize::MAX as nat
    }
}

/// `t` is the result reported for the task `id` from the processor's result `r`.
pub open spec fn reported(id: String, r: ProcessorResult, t: TaskProcessResult) -> bool {
    &&& t.task_id == id
    &&& t.state == r.state
    &&& t.code == r.code
    &&& t.continue_sequence == continues_sequence(r)
    &&& t.message == r.message
    &&& t.log@ == r.log@
    &&& t.report_path == r.report_path
    &&& t.print_report_path == r.print_report_path
    &&& t.failure == r.failure
    &&& t.source_csv_path == r.source_csv_path
    &&& t.csv_fingerprint == r.csv_fingerprint
}

/// The progress event `p` reports the result `t` as the `index`th of `total`.
pub open spec fn reports_result(p: TaskBatchProgress, unit_folder: String, t: TaskProcessResult, index: nat, total: nat) -> bool {
    &&& p.unit_folder@ == unit_folder@
    &&& p.task_id == t.task_id
    &&& p.state == t.state
    &&& p.message == t.message
    &&& p.index == index
    &&& p.total == total
}

/// `after` is `before` followed by the results reported for the queued outputs `queued`, in
/// their order.
pub open spec fn extended_by(
    before: Seq<TaskProcessResult>,
    queued: Seq<PendingTaskOutput>,
    after: Seq<TaskProcessResult>,
) -> bool {
    &&& after.len() == before.len() + queued.len()
    &&& after.take(before.len() as int) == before
    &&& forall|k: int|
        0 <= k < queued.len() ==> reported(queued[k].task_id, queued[k].result, #[trigger] after[before.len() + k])
}

/// `progress` reports each result of `results` from position `from` on, in order, numbered
/// from `from + 1`, out of `total`.
pub open spec fn reports_each(
    progress: Seq<TaskBatchProgress>,
    unit_folder: String,
    results: Seq<TaskProcessResult>,
    from: int,
    total: nat,
) -> bool {
    &&& progress.len() == results.len() - from
    &&& forall|k: int|
        0 <= k < progress.len() ==> reports_result(
            #[trigger] progress[k],
            unit_folder,
            results[from + k],
            next_index((from + k) as nat),
            total,
        )
}

/// What a finished batch hands out, for the ids it was given: one result per id reached, in
/// the order of the ids; the count of passes as the count committed; a batch that did not stop
/// has a result for every id and was committed; a stop names the last result; and a batch that
/// was not committed stopped.
pub open spec fn batch_result_fits(ids: Seq<String>, r: TaskBatchProcessResult) -> bool {
    &&& r.committed_count == count_state(r.results@, "pass"@)
    &&& r.results@.len() <= ids.len()
    &&& forall|i: int| 0 <= i < r.results@.len() ==> (#[trigger] r.results@[i]).task_id@ == ids[i]@
    &&& r.stopped_task_id is None ==> r.committed && r.results@.len() == ids.len()
    &&& r.stopped_task_id is Some ==> r.results@.len() > 0 && r.stopped_task_id->0@
        == r.results@.last().task_id@
    &&& !r.committed ==> r.stopped_task_id is Some
    &&& r.message@ == batch_message_text(r.results@, r.stopped_task_id)
}

/// The batch `b` is `a` with the output of the task `id` queued: its result held back, its
/// patches added to those to commit.
pub open spec fn queued(a: TaskBatch, b: TaskBatch, id: String, o: ProcessorTaskOutput) -> bool {
    &&& b.pending@ == a.pending@.push(
        PendingTaskOutput { task_id: id, result: o.result, has_patches: o.patches@.len() > 0 },
    )
    &&& b.patches@ == a.patches@ + o.patches@
    &&& b.unit_folder == a.unit_folder
    &&& b.task_ids == a.task_ids
    &&& b.results == a.results
    &&& b.stopped_task_id == a.stopped_task_id
    &&& b.committed == a.committed
    &&& b.awaiting == a.awaiting
}

/// The batch `b` is `a` after its queued patches are sent to be committed (or, with none
/// queued, after what was to follow is done), with `then` to follow.
pub open spec fn flushed(a: TaskBatch, b: TaskBatch, step: BatchStep, then: AfterFlush) -> bool {
    if a.pending@.len() > 0 {
        &&& step.action is Commit
        &&& step.action->Commit_0@ == a.patches@
        &&& step.progress@.len() == 0
        &&& b.awaiting == Awaiting::Commit(then)
        &&& b.patches@.len() == 0
        &&& b.unit_folder == a.unit_folder
        &&& b.task_ids == a.task_ids
        &&& b.next == a.next
        &&& b.results == a.results
        &&& b.pending == a.pending
        &&& b.stopped_task_id == a.stopped_task_id
        &&& b.committed == a.committed
    } else {
        applied(a, b, step, then)
    }
}

/// The batch `b` is `a` after what was to follow a flush is done: the end; a stop at a task; the
/// record of a task's result before the stop there; or the stop at a task that is not ready,
/// its waiting result reported and not recorded.
pub open spec fn applied(a: TaskBatch, b: TaskBatch, step: BatchStep, then: AfterFlush) -> bool {
    match then {
        AfterFlush::Finish => step.progress@.len() == 0 && closed_with(
            a,
            a.stopped_task_id,
            a.results@,
            b,
            step.action,
        ),
        AfterFlush::StopAt(id) => step.progress@.len() == 0 && closed_with(
            a,
            Some(id),
            a.results@,
            b,
            step.action,
        ),
        AfterFlush::RecordAndStop(id, r) => {
            &&& step.progress@.len() == 0
            &&& step.action is Record
            &&& step.action->Record_0@.len() == 1
            &&& step.action->Record_0@[0].0 == id
            &&& same_result(step.action->Record_0@[0].1, r)
            &&& b.awaiting == Awaiting::RecordSingle(id, r)
            &&& b.unit_folder == a.unit_folder
            &&& b.task_ids == a.task_ids
            &&& b.next == a.next
            &&& b.results == a.results
            &&& b.pending == a.pending
            &&& b.patches == a.patches
            &&& b.stopped_task_id == a.stopped_task_id
            &&& b.committed == a.committed
        },
        AfterFlush::WaitAndStop(id, w) => {
            &&& step.progress@.len() == 1
            &&& reports_result(
                step.progress@[0],
                a.unit_folder,
                w,
                next_index(a.results@.len()),
                a.task_ids@.len(),
            )
            &&& closed_with(a, Some(id), a.results@.push(w), b, step.action)
        },
    }
}

/// The batch `b` is `a` moved on by one step, and `step` what it hands out: the next task of
/// the list to evaluate, with its progress reported, or the stop at an unknown task id; past
/// the end of the list, the commit of the queued patches, or, with nothing queued, the end.
pub open spec fn advanced(a: TaskBatch, b: TaskBatch, step: BatchStep) -> bool {
    if a.next < a.task_ids@.len() {
        let id = a.task_ids@[a.next as int]@;
        &&& b.unit_folder == a.unit_folder
        &&& b.task_ids == a.task_ids
        &&& b.next == a.next
        &&& b.results == a.results
        &&& b.pending == a.pending
        &&& b.patches == a.patches
        &&& b.stopped_task_id == a.stopped_task_id
        &&& b.committed == a.committed
        &&& match step.action {
            BatchAction::Evaluate(task) => {
                &&& listed_task(id, task)
                &&& b.awaiting is Evaluation
                &&& b.awaiting->Evaluation_0@ == id
                &&& step.progress@.len() == 1
                &&& step.progress@[0].unit_folder@ == a.unit_folder@
                &&& step.progress@[0].task_id@ == id
                &&& step.progress@[0].state@ == "processing"@
                &&& step.progress@[0].message@ == "Processing "@ + task.label@
                &&& step.progress@[0].index == a.next + 1
                &&& step.progress@[0].total == a.task_ids@.len()
            },
            BatchAction::UnknownTask(u) => {
                &&& no_listed_task(id)
                &&& u@ == id
                &&& b.awaiting is Done
                &&& step.progress@.len() == 0
            },
            _ => false,
        }
    } else {
        flushed(a, b, step, AfterFlush::Finish)
    }
}

/// Results that follow the ids, extended by queued outputs that follow them too, still follow
/// the ids.
pub proof fn lemma_extended_follows(
    before: Seq<TaskProcessResult>,
    queued: Seq<PendingTaskOutput>,
    after: Seq<TaskProcessResult>,
    ids: Seq<String>,
)
    requires
        extended_by(before, queued, after),
        after.len() <= ids.len(),
        forall|i: int| 0 <= i < before.len() ==> (#[trigger] before[i]).task_id@ == ids[i]@,
        forall|k: int| 0 <= k < queued.len() ==> (#[trigger] queued[k]).task_id@ == ids[before.len() + k]@,
    ensures
        forall|i: int| 0 <= i < after.len() ==> (#[trigger] after[i]).task_id@ == ids[i]@,
{
    assert forall|i: int| 0 <= i < after.len() implies (#[trigger] after[i]).task_id@ == ids[i]@ by {
        if i < before.len() {
            assert(after[i] == after.take(before.len() as int)[i]);
        } else {
            let k = i - before.len();
            assert(reported(queued[k].task_id, queued[k].result, after[before.len() + k]));
        }
    }
}

/// Every event counts out of `total`, for the unit folder.
pub open spec fn events_fit(trace: Seq<TaskBatchProgress>, unit_folder: String, total: nat) -> bool {
    forall|k: int|
        0 <= k < trace.len() ==> (#[trigger] trace[k]).total == total && trace[k].unit_folder@ == unit_folder@
}

/// An event of the trace reports the result as the `index`th.
pub open spec fn reported_in(
    trace: Seq<TaskBatchProgress>,
    unit_folder: String,
    t: TaskProcessResult,
    index: nat,
    total: nat,
) -> bool {
    exists|p: int| 0 <= p < trace.len() && #[trigger] reports_result(trace[p], unit_folder, t, index, total)
}

/// Each result was reported by an event of the trace, numbered by its position.
pub open spec fn results_reported(
    trace: Seq<TaskBatchProgress>,
    unit_folder: String,
    results: Seq<TaskProcessResult>,
    total: nat,
) -> bool {
    forall|j: int|
        0 <= j < results.len() ==> #[trigger] reported_in(trace, unit_folder, results[j], next_index(j as nat), total)
}

/// The "processing" events of the tasks reached: the `i`th stands at `reached[i]`, names the
/// `i`th id, is numbered `i + 1`, and they come in the order of the ids.
pub open spec fn tasks_reached(trace: Seq<TaskBatchProgress>, ids: Seq<String>, reached: Seq<int>) -> bool {
    &&& reached.len() <= ids.len()
    &&& forall|i: int|
        0 <= i < reached.len() ==> 0 <= #[trigger] reached[i] < trace.len() && trace[reached[i]].task_id@
            == ids[i]@ && trace[reached[i]].state@ == "processing"@ && trace[reached[i]].index == i + 1
    &&& forall|i: int, j: int| 0 <= i < j < reached.len() ==> #[trigger] reached[i] < #[trigger] reached[j]
}

proof fn lemma_events_extend(t0: Seq<TaskBatchProgress>, prog: Seq<TaskBatchProgress>, unit_folder: String, total: nat)
    requires
        events_fit(t0, unit_folder, total),
        forall|k: int|
            0 <= k < prog.len() ==> (#[trigger] prog[k]).total == total && prog[k].unit_folder@ == unit_folder@,
    ensures
        events_fit(t0 + prog, unit_folder, total),
{
    assert forall|k: int| 0 <= k < (t0 + prog).len() implies (#[trigger] (t0 + prog)[k]).total == total
        && (t0 + prog)[k].unit_folder@ == unit_folder@ by {
        if k >= t0.len() {
            assert((t0 + prog)[k] == prog[k - t0.len()]);
        }
    }
}

proof fn lemma_results_extend(
    t0: Seq<TaskBatchProgress>,
    prog: Seq<TaskBatchProgress>,
    unit_folder: String,
    r0: Seq<TaskProcessResult>,
    r1: Seq<TaskProcessResult>,
    total: nat,
)
    requires
        results_reported(t0, unit_folder, r0, total),
        r0.len() <= r1.len(),
        r1.take(r0.len() as int) == r0,
        forall|j: int|
            r0.len() <= j < r1.len() ==> #[trigger] reported_in(prog, unit_folder, r1[j], next_index(j as nat), total),
    ensures
        results_reported(t0 + prog, unit_folder, r1, total),
{
    let t1 = t0 + prog;
    assert forall|j: int| 0 <= j < r1.len() implies #[trigger] reported_in(t1, unit_folder, r1[j], next_index(j as nat), total) by {
        if j < r0.len() {
            assert(r1[j] == r1.take(r0.len() as int)[j]);
            assert(reported_in(t0, unit_folder, r0[j], next_index(j as nat), total));
            let p = choose|p: int|
                0 <= p < t0.len() && #[trigger] reports_result(t0[p], unit_folder, r0[j], next_index(j as nat), total);
            assert(t1[p] == t0[p]);
            assert(reports_result(t1[p], unit_folder, r1[j], next_index(j as nat), total));
        } else {
            assert(reported_in(prog, unit_folder, r1[j], next_index(j as nat), total));
            let q = choose|q: int|
                0 <= q < prog.len() && #[trigger] reports_result(prog[q], unit_folder, r1[j], next_index(j as nat), total);
            assert(t1[t0.len() + q] == prog[q]);
            assert(reports_result(t1[t0.len() + q], unit_folder, r1[j], next_index(j as nat), total));
        }
    }
}

proof fn lemma_reached_extend(t0: Seq<TaskBatchProgress>, prog: Seq<TaskBatchProgress>, ids: Seq<String>, m0: Seq<int>)
    requires
        tasks_reached(t0, ids, m0),
    ensures
        tasks_reached(t0 + prog, ids, m0),
{
    assert forall|i: int| 0 <= i < m0.len() implies (t0 + prog)[m0[i]] == t0[m0[i]] by {}
}

proof fn lemma_reached_mark(t0: Seq<TaskBatchProgress>, prog: Seq<TaskBatchProgress>, ids: Seq<String>, m0: Seq<int>)
    requires
        tasks_reached(t0, ids, m0),
        m0.len() < ids.len(),
        prog.len() > 0,
        prog[0].task_id@ == ids[m0.len() as int]@,
        prog[0].state@ == "processing"@,
        prog[0].index == m0.len() + 1,
    ensures
        tasks_reached(t0 + prog, ids, m0.push(t0.len() as int)),
{
    let t1 = t0 + prog;
    let m1 = m0.push(t0.len() as int);
    assert(t1[t0.len() as int] == prog[0]);
    assert forall|i: int| 0 <= i < m1.len() implies 0 <= #[trigger] m1[i] < t1.len() && t1[m1[i]].task_id@
        == ids[i]@ && t1[m1[i]].state@ == "processing"@ && t1[m1[i]].index == i + 1 by {
        if i < m0.len() {
            assert(m1[i] == m0[i]);
            assert(t1[m0[i]] == t0[m0[i]]);
        }
    }
    assert forall|i: int, j: int| 0 <= i < j < m1.len() implies #[trigger] m1[i] < #[trigger] m1[j] by {
        if j < m0.len() {
            assert(m1[i] == m0[i] && m1[j] == m0[j]);
        } else {
            assert(m1[i] == m0[i]);
        }
    }
}

/// `r1` is `r0` followed by results each reported by an event of `prog`, numbered by position.
pub open spec fn step_reports(
    prog: Seq<TaskBatchProgress>,
    unit_folder: String,
    r0: Seq<TaskProcessResult>,
    r1: Seq<TaskProcessResult>,
    total: nat,
) -> bool {
    &&& r0.len() <= r1.len()
    &&& r1.take(r0.len() as int) == r0
    &&& forall|j: int|
        r0.len() <= j < r1.len() ==> #[trigger] reported_in(prog, unit_folder, r1[j], next_index(j as nat), total)
}

proof fn lemma_each_reported(
    prog: Seq<TaskBatchProgress>,
    part: Seq<TaskBatchProgress>,
    unit_folder: String,
    results: Seq<TaskProcessResult>,
    from: int,
    total: nat,
)
    requires
        reports_each(part, unit_folder, results, from, total),
        part.len() <= prog.len(),
        forall|k: int| 0 <= k < part.len() ==> prog[k] == part[k],
        0 <= from,
    ensures
        forall|j: int|
            from <= j < results.len() ==> #[trigger] reported_in(prog, unit_folder, results[j], next_index(j as nat), total),
{
    assert forall|j: int| from <= j < results.len() implies #[trigger] reported_in(
        prog,
        unit_folder,
        results[j],
        next_index(j as nat),
        total,
    ) by {
        let k = j - from;
        assert(reports_result(part[k], unit_folder, results[from + k], next_index((from + k) as nat), total));
        assert(prog[k] == part[k]);
        assert(reports_result(prog[k], unit_folder, results[j], next_index(j as nat), total));
    }
}

/// Law: over a run of a batch (from `new`, each step adding the events it hands out to the
/// trace), every event counts out of the number of ids and names the batch's unit folder; the
/// batch reported "processing" for each task it reached, in the order of the ids and numbered by
/// position; and each result it holds was reported by an event numbered by its position. The
/// results a finished batch hands out were reported the same way (the `Finish` clause of each
/// step).
pub proof fn law_progress_over_a_run(b: TaskBatch)
    requires
        b.progress_fits(),
    ensures
        events_fit(b.trace@, b.unit_folder, b.task_ids@.len()),
        tasks_reached(b.trace@, b.task_ids@, b.reached@),
        results_reported(b.trace@, b.unit_folder, b.results@, b.task_ids@.len()),
{
}

impl TaskBatch {
    /// A batch over the given task ids, not started yet.
    pub fn new(unit_folder: String, task_ids: Vec<String>) -> (b: Self)
        ensures
            b.unit_folder == unit_folder,
            b.task_ids == task_ids,
            b.next == 0,
            b.results@.len() == 0,
            b.pending@.len() == 0,
            b.patches@.len() == 0,
            b.stopped_task_id is None,
            b.committed,
            b.awaiting is Start,
            b.well_formed(),
            b.trace@.len() == 0,
            b.progress_fits(),
    {
        TaskBatch {
            unit_folder,
            task_ids,
            next: 0,
            results: Vec::new(),
            pending: Vec::new(),
            patches: Vec::new(),
            stopped_task_id: None,
            committed: true,
            awaiting: Awaiting::Start,
            trace: Ghost(Seq::empty()),
            reached: Ghost(Seq::empty()),
        }
    }

    pub open spec fn waits_for_start(&self) -> bool {
        self.awaiting is Start
    }

    pub open spec fn waits_for_evaluation(&self) -> bool {
        self.awaiting is Evaluation
    }

    pub open spec fn waits_for_commit(&self) -> bool {
        self.awaiting is Commit && self.pending@.len() > 0
    }

    pub open spec fn waits_for_record(&self) -> bool {
        match self.awaiting {
            Awaiting::RecordPending(_) => true,
            Awaiting::RecordPrior { failed_index, .. } => 0 < failed_index < self.pending@.len(),
            Awaiting::RecordFailed { .. } => true,
            Awaiting::RecordSingle(..) => true,
            _ => false,
        }
    }

    /// The results so far are those of the first ids, in order.
    pub open spec fn results_follow_ids(&self) -> bool {
        &&& self.results@.len() <= self.task_ids@.len()
        &&& forall|i: int|
            0 <= i < self.results@.len() ==> (#[trigger] self.results@[i]).task_id@ == self.task_ids@[i]@
    }

    /// The queued outputs are those of the ids that follow the results, in order.
    pub open spec fn queue_follows_ids(&self) -> bool {
        &&& self.results@.len() + self.pending@.len() <= self.task_ids@.len()
        &&& forall|k: int|
            0 <= k < self.pending@.len() ==> (#[trigger] self.pending@[k]).task_id@
                == self.task_ids@[self.results@.len() + k]@
    }

    /// What is to follow a flush fits the results and the queue: the end once every id has an
    /// output; a stop at the last queued output; or a record or a wait at the id after them.
    pub open spec fn fits_after_flush(&self, then: AfterFlush) -> bool {
        let n = self.results@.len() + self.pending@.len();
        match then {
            AfterFlush::Finish => n == self.task_ids@.len(),
            AfterFlush::StopAt(id) => self.pending@.len() > 0 && id@ == self.task_ids@[n - 1]@,
            AfterFlush::RecordAndStop(id, _) => n < self.task_ids@.len() && id@ == self.task_ids@[n as int]@,
            AfterFlush::WaitAndStop(id, w) => n < self.task_ids@.len() && id@ == self.task_ids@[n as int]@
                && w.task_id@ == id@,
        }
    }

    /// The invariant of a batch, in each state it waits in. Until it ends it is committed and
    /// not stopped; the answer it waits for concerns the id after its results and queue.
    pub open spec fn well_formed(&self) -> bool {
        &&& self.results_follow_ids()
        &&& self.next <= self.task_ids@.len()
        &&& match self.awaiting {
            Awaiting::Start => self.next == 0 && self.results@.len() == 0 && self.pending@.len() == 0
                && self.committed && self.stopped_task_id is None,
            Awaiting::Evaluation(id) => {
                &&& self.next < self.task_ids@.len()
                &&& id@ == self.task_ids@[self.next as int]@
                &&& self.results@.len() + self.pending@.len() == self.next
                &&& self.queue_follows_ids()
                &&& self.committed
                &&& self.stopped_task_id is None
            },
            Awaiting::Commit(then) => {
                &&& self.pending@.len() > 0
                &&& self.queue_follows_ids()
                &&& self.fits_after_flush(then)
                &&& self.committed
                &&& self.stopped_task_id is None
            },
            Awaiting::RecordPending(then) => {
                &&& self.queue_follows_ids()
                &&& self.fits_after_flush(then)
                &&& self.committed
                &&& self.stopped_task_id is None
            },
            Awaiting::RecordPrior { failed_index, .. } => {
                &&& 0 < failed_index < self.pending@.len()
                &&& self.queue_follows_ids()
                &&& self.committed
                &&& self.stopped_task_id is None
            },
            Awaiting::RecordFailed { task_id, .. } => {
                &&& self.results@.len() < self.task_ids@.len()
                &&& task_id@ == self.task_ids@[self.results@.len() as int]@
                &&& self.committed
                &&& self.stopped_task_id is None
            },
            Awaiting::RecordSingle(id, _) => {
                &&& self.results@.len() < self.task_ids@.len()
                &&& id@ == self.task_ids@[self.results@.len() as int]@
                &&& self.committed
                &&& self.stopped_task_id is None
            },
            Awaiting::Done => true,
        }
    }

    /// After a step from `old`, the batch still holds its invariant and its ids, each progress
    /// event counts out of the number of ids, and the batch waits for the answer its action asks
    /// for; a finished batch hands out a result that fits its ids.
    pub open spec fn stepped(old: TaskBatch, new: TaskBatch, step: BatchStep) -> bool {
        &&& new.well_formed()
        &&& new.task_ids == old.task_ids
        &&& new.unit_folder == old.unit_folder
        &&& forall|k: int|
            0 <= k < step.progress@.len() ==> (#[trigger] step.progress@[k]).total == old.task_ids@.len()
                && step.progress@[k].unit_folder@ == old.unit_folder@
        &&& match step.action {
            BatchAction::Evaluate(_) => new.waits_for_evaluation(),
            BatchAction::Commit(_) => new.waits_for_commit(),
            BatchAction::Record(_) => new.waits_for_record(),
            BatchAction::Finish(r) => new.awaiting is Done && batch_result_fits(old.task_ids@, r),
            BatchAction::UnknownTask(_) => new.awaiting is Done,
            BatchAction::WorkbookLocked(_) => new.awaiting is Done,
        }
    }

    pub fn is_waiting_for_evaluation(&self) -> (b: bool)
        ensures
            b == self.waits_for_evaluation(),
    {
        matches!(self.awaiting, Awaiting::Evaluation(_))
    }

    pub fn is_waiting_for_commit(&self) -> (b: bool)
        ensures
            b == self.waits_for_commit(),
    {
        matches!(self.awaiting, Awaiting::Commit(_)) && self.pending.len() > 0
    }

    pub fn is_waiting_for_record(&self) -> (b: bool)
        ensures
            b == self.waits_for_record(),
    {
        match self.awaiting {
            Awaiting::RecordPending(_) => true,
            Awaiting::RecordPrior { failed_index, .. } => 0 < failed_index && failed_index
                < self.pending.len(),
            Awaiting::RecordFailed { .. } => true,
            Awaiting::RecordSingle(..) => true,
            _ => false,
        }
    }

    /// The trace of the batch: every event counts out of the number of ids; the "processing"
    /// events of the tasks reached come in the order of the ids; each result held was reported.
    pub open spec fn progress_fits(&self) -> bool {
        &&& events_fit(self.trace@, self.unit_folder, self.task_ids@.len())
        &&& results_reported(self.trace@, self.unit_folder, self.results@, self.task_ids@.len())
        &&& tasks_reached(self.trace@, self.task_ids@, self.reached@)
        &&& match self.awaiting {
            Awaiting::Start => self.reached@.len() == 0 && self.next == 0,
            Awaiting::Evaluation(_) => self.reached@.len() == self.next + 1,
            _ => true,
        }
    }

    /// Adds the step's events to the trace, and, where the step reached a task, marks its event.
    fn extend_trace(&mut self, t0: Ghost<Seq<TaskBatchProgress>>, m0: Ghost<Seq<int>>, progress: &Vec<TaskBatchProgress>, mark: Ghost<bool>)
        ensures
            final(self).trace@ == t0@ + progress@,
            final(self).reached@ == if mark@ { m0@.push(t0@.len() as int) } else { m0@ },
            final(self).unit_folder == old(self).unit_folder,
            final(self).task_ids == old(self).task_ids,
            final(self).next == old(self).next,
            final(self).results == old(self).results,
            final(self).pending == old(self).pending,
            final(self).patches == old(self).patches,
            final(self).stopped_task_id == old(self).stopped_task_id,
            final(self).committed == old(self).committed,
            final(self).awaiting == old(self).awaiting,
    {
        self.trace = Ghost(t0@ + progress@);
        self.reached = Ghost(if mark@ { m0@.push(t0@.len() as int) } else { m0@ });
    }

    fn push_result(&mut self, r: TaskProcessResult, progress: &mut Vec<TaskBatchProgress>)
        ensures
            final(self).results@ == old(self).results@.push(r),
            final(self).task_ids == old(self).task_ids,
            final(self).next == old(self).next,
            final(self).pending == old(self).pending,
            final(self).patches == old(self).patches,
            final(self).stopped_task_id == old(self).stopped_task_id,
            final(self).committed == old(self).committed,
            final(self).awaiting == old(self).awaiting,
            final(self).unit_folder == old(self).unit_folder,
            final(progress)@.len() == old(progress)@.len() + 1,
            reports_result(
                final(progress)@.last(),
                old(self).unit_folder,
                r,
                next_index(old(self).results@.len()),
                old(self).task_ids@.len(),
            ),
            forall|i: int| 0 <= i < old(progress)@.len() ==> final(progress)@[i] == old(progress)@[i],
    {
        let p = TaskBatchProgress {
            unit_folder: self.unit_folder.clone(),
            task_id: r.task_id.clone(),
            state: r.state.clone(),
            message: r.message.clone(),
            index: if self.results.len() < usize::MAX {
                self.results.len() + 1
            } else {
                usize::MAX
            },
            total: self.task_ids.len(),
        };
        progress.push(p);
        self.results.push(r);
    }

    /// The batch's result, handed out at its end.
    fn finish(&mut self) -> (a: BatchAction)
        ensures
            finished_from(*old(self), *final(self), a),
    {
        let message = batch_message(&self.results, &self.stopped_task_id);
        let passed = count_results(&self.results, "pass");
        let mut results: Vec<TaskProcessResult> = Vec::new();
        std::mem::swap(&mut results, &mut self.results);
        self.awaiting = Awaiting::Done;
        BatchAction::Finish(
            TaskBatchProcessResult {
                results,
                committed: self.committed,
                committed_count: passed,
                stopped_task_id: clone_opt(&self.stopped_task_id),
                message,
            },
        )
    }

    /// Copies of the queued outputs' ids and results, for recording.
    fn pending_records(&self, upto: usize) -> (records: Vec<(String, ProcessorResult)>)
        requires
            upto <= self.pending@.len(),
        ensures
            records_of(self.pending@.take(upto as int), records@),
    {
        let mut records: Vec<(String, ProcessorResult)> = Vec::new();
        for i in 0..upto
            invariant
                upto <= self.pending@.len(),
                records_of(self.pending@.take(i as int), records@),
        {
            let e = &self.pending[i];
            records.push((e.task_id.clone(), e.result.duplicate()));
        }
        records
    }

    /// Commits the queued patches (or, with nothing queued, goes on at once).
    fn flush(&mut self, then: AfterFlush) -> (step: BatchStep)
        ensures
            flushed(*old(self), *final(self), step, then),
    {
        if self.pending.len() > 0 {
            let mut patches: Vec<WorkbookPatch> = Vec::new();
            std::mem::swap(&mut patches, &mut self.patches);
            self.awaiting = Awaiting::Commit(then);
            BatchStep { progress: Vec::new(), action: BatchAction::Commit(patches) }
        } else {
            self.apply(then)
        }
    }

    /// Carries out what was to follow the flush.
    fn apply(&mut self, then: AfterFlush) -> (step: BatchStep)
        ensures
            applied(*old(self), *final(self), step, then),
    {
        match then {
            AfterFlush::Finish => BatchStep { progress: Vec::new(), action: self.finish() },
            AfterFlush::StopAt(id) => {
                self.stopped_task_id = Some(id);
                BatchStep { progress: Vec::new(), action: self.finish() }
            },
            AfterFlush::RecordAndStop(id, r) => {
                let record = (id.clone(), r.duplicate());
                self.awaiting = Awaiting::RecordSingle(id, r);
                BatchStep { progress: Vec::new(), action: BatchAction::Record(vec![record]) }
            },
            AfterFlush::WaitAndStop(id, w) => {
                self.stopped_task_id = Some(id);
                let mut progress: Vec<TaskBatchProgress> = Vec::new();
                self.push_result(w, &mut progress);
                BatchStep { progress, action: self.finish() }
            },
        }
    }

    /// Moves on to the next task of the list, or, past its end, to the final commit.
    fn advance(&mut self) -> (step: BatchStep)
        ensures
            advanced(*old(self), *final(self), step),
    {
        if self.next < self.task_ids.len() {
            let id = self.task_ids[self.next].clone();
            match find_task(id.as_str()) {
                Some(task) => {
                    let mut message = String::new();
                    push_str(&mut message, "Processing ");
                    push_str(&mut message, task.label.as_str());
                    let p = TaskBatchProgress {
                        unit_folder: self.unit_folder.clone(),
                        task_id: id.clone(),
                        state: "processing".to_owned(),
                        message,
                        index: self.next + 1,
                        total: self.task_ids.len(),
                    };
                    self.awaiting = Awaiting::Evaluation(id);
                    BatchStep { progress: vec![p], action: BatchAction::Evaluate(task) }
                },
                None => {
                    self.awaiting = Awaiting::Done;
                    BatchStep { progress: Vec::new(), action: BatchAction::UnknownTask(id) }
                },
            }
        } else {
            self.flush(AfterFlush::Finish)
        }
    }

    /// Starts the batch.
    pub fn start(&mut self) -> (step: BatchStep)
        requires
            old(self).waits_for_start(),
            old(self).well_formed(),
            old(self).progress_fits(),
        ensures
            !(step.action is Record),
            advanced(*old(self), *final(self), step),
            TaskBatch::stepped(*old(self), *final(self), step),
            final(self).trace@ == old(self).trace@ + step.progress@,
            final(self).progress_fits(),
            step.action matches BatchAction::Finish(r) ==> results_reported(
                final(self).trace@,
                old(self).unit_folder,
                r.results@,
                old(self).task_ids@.len(),
            ),
    {
        let ghost t0 = self.trace@;
        let ghost m0 = self.reached@;
        let ghost before = *self;
        let step = self.advance();
        let ghost mid = *self;
        self.extend_trace(Ghost(t0), Ghost(m0), &step.progress, Ghost(step.action is Evaluate));
        proof {
            let uf = before.unit_folder;
            let total = before.task_ids@.len();
            lemma_events_extend(t0, step.progress@, uf, total);
            if step.action is Evaluate {
                lemma_reached_mark(t0, step.progress@, before.task_ids@, m0);
            } else {
                lemma_reached_extend(t0, step.progress@, before.task_ids@, m0);
            }
            assert(self.results@ == before.results@ || self.results@.len() == 0);
            if self.results@ == before.results@ {
                assert(before.results@.take(before.results@.len() as int) =~= before.results@);
                lemma_results_extend(t0, step.progress@, uf, before.results@, self.results@, total);
            }
        }
        step
    }

    /// Takes in the evaluation of the task the batch asked for. A passing output is queued
    /// (never recorded before its patches are committed); so is a failed accuracy check that
    /// has values to write, and the batch goes on; any other output stops the batch after the
    /// queue is committed. A task that is not ready stops the batch, and its waiting result is
    /// reported without being recorded.
    pub fn on_evaluated(&mut self, evaluation: TaskEvaluation) -> (step: BatchStep)
        requires
            old(self).waits_for_evaluation(),
            old(self).well_formed(),
            evaluation matches TaskEvaluation::Waiting(w) ==> w.task_id@ == old(self).awaiting->Evaluation_0@,
            old(self).progress_fits(),
        ensures
            TaskBatch::stepped(*old(self), *final(self), step),
            final(self).trace@ == old(self).trace@ + step.progress@,
            final(self).progress_fits(),
            step.action matches BatchAction::Finish(r) ==> results_reported(
                final(self).trace@,
                old(self).unit_folder,
                r.results@,
                old(self).task_ids@.len(),
            ),
            match evaluation {
                TaskEvaluation::Waiting(w) => flushed(
                    *old(self),
                    *final(self),
                    step,
                    AfterFlush::WaitAndStop(old(self).awaiting->Evaluation_0, w),
                ),
                TaskEvaluation::Output(o) => if o.result.state@ == "pass"@ || o.patches@.len() > 0 {
                    exists|mid: TaskBatch|
                        #[trigger] queued(*old(self), mid, old(self).awaiting->Evaluation_0, o) && if o.result.state@
                            == "pass"@ || continues_sequence(o.result) {
                            mid.next == old(self).next + 1 && advanced(mid, *final(self), step)
                        } else {
                            mid.next == old(self).next && flushed(
                                mid,
                                *final(self),
                                step,
                                AfterFlush::StopAt(old(self).awaiting->Evaluation_0),
                            )
                        }
                } else {
                    flushed(
                        *old(self),
                        *final(self),
                        step,
                        AfterFlush::RecordAndStop(old(self).awaiting->Evaluation_0, o.result),
                    )
                },
            },
    {
        let ghost t0 = self.trace@;
        let ghost m0 = self.reached@;
        let ghost before = *self;
        let id = match &self.awaiting {
            Awaiting::Evaluation(id) => id.clone(),
            _ => String::new(),
        };
        let step = match evaluation {
            TaskEvaluation::Waiting(w) => {
                assert(id == old(self).awaiting->Evaluation_0);
                self.flush(AfterFlush::WaitAndStop(id, w))
            },
            TaskEvaluation::Output(output) => {
                let total = self.task_ids.len();
                assert(self.next < total);
                let ghost o = output;
                assert(id == old(self).awaiting->Evaluation_0);
                let cont = processor_result_continues_sequence(&output.result);
                let pass = str_eq(output.result.state.as_str(), "pass");
                let has_patches = output.patches.len() > 0;
                if pass || has_patches {
                    let mut patches = output.patches;
                    self.patches.append(&mut patches);
                    self.pending.push(
                        PendingTaskOutput { task_id: id.clone(), result: output.result, has_patches },
                    );
                    if pass || cont {
                        if self.next < usize::MAX {
                            self.next = self.next + 1;
                        }
                        let ghost mid = *self;
                        assert(queued(*old(self), mid, id, o));
                        let step = self.advance();
                        assert(advanced(mid, *self, step));
                        assert(queued(*old(self), mid, id, o) && mid.next == old(self).next + 1 && advanced(mid, *self, step));
                        step
                    } else {
                        let ghost mid = *self;
                        assert(queued(*old(self), mid, id, o));
                        let step = self.flush(AfterFlush::StopAt(id));
                        assert(flushed(mid, *self, step, AfterFlush::StopAt(id)));
                        assert(queued(*old(self), mid, id, o) && mid.next == old(self).next && flushed(mid, *self, step, AfterFlush::StopAt(id)));
                        step
                    }
                } else {
                    self.flush(AfterFlush::RecordAndStop(id, output.result))
                }
            },
        };
        let ghost after = *self;
        self.extend_trace(Ghost(t0), Ghost(m0), &step.progress, Ghost(step.action is Evaluate));
        proof {
            let uf = before.unit_folder;
            let total = before.task_ids@.len();
            let prog = step.progress@;
            lemma_events_extend(t0, prog, uf, total);
            if step.action is Evaluate {
                lemma_reached_mark(t0, prog, before.task_ids@, m0);
            } else {
                lemma_reached_extend(t0, prog, before.task_ids@, m0);
            }
            if after.results@ == before.results@ {
                assert(before.results@.take(before.results@.len() as int) =~= before.results@);
                lemma_results_extend(t0, prog, uf, before.results@, after.results@, total);
            }
            if step.action is Finish {
                let rr = step.action->Finish_0.results@;
                if rr.len() > before.results@.len() {
                    assert(reports_result(prog[0], uf, rr[before.results@.len() as int], next_index(before.results@.len()), total));
                    assert(reported_in(prog, uf, rr[before.results@.len() as int], next_index(before.results@.len()), total));
                }
                assert(rr.take(before.results@.len() as int) =~= before.results@);
                lemma_results_extend(t0, prog, uf, before.results@, rr, total);
            }
        }
        step
    }

    /// The first queued output with patches (or the first one, where none has any).
    fn failed_index(&self) -> (i: usize)
        requires
            self.pending@.len() > 0,
        ensures
            i == failed_position(self.pending@),
            i < self.pending@.len(),
    {
        let mut i: usize = 0;
        while i < self.pending.len()
            invariant
                0 <= i <= self.pending@.len(),
                forall|k: int| 0 <= k < i ==> !(#[trigger] self.pending@[k]).has_patches,
            decreases self.pending.len() - i,
        {
            if self.pending[i].has_patches {
                proof {
                    let c = choose|j: int|
                        0 <= j < self.pending@.len() && #[trigger] self.pending@[j].has_patches
                            && forall|k: int| 0 <= k < j ==> !self.pending@[k].has_patches;
                    if c < i {
                        assert(!self.pending@[c].has_patches);
                    } else if i < c {
                        assert(!self.pending@[i as int].has_patches);
                    }
                }
                return i;
            }
            i += 1;
        }
        0
    }

    /// Takes in the outcome of the commit. After a success every queued result is recorded.
    /// A workbook held open by another program stops the batch. Any other failure blames the
    /// first queued output with patches: the results queued before it are recorded as they
    /// are, it is recorded as a failed commit, and nothing queued after it is recorded.
    pub fn on_committed(&mut self, outcome: Result<(), ReportError>) -> (step: BatchStep)
        requires
            old(self).waits_for_commit(),
            old(self).well_formed(),
            old(self).progress_fits(),
        ensures
            TaskBatch::stepped(*old(self), *final(self), step),
            final(self).trace@ == old(self).trace@,
            final(self).progress_fits(),
            step.progress@.len() == 0,
            final(self).results == old(self).results,
            final(self).pending == old(self).pending,
            final(self).stopped_task_id == old(self).stopped_task_id,
            final(self).committed == old(self).committed,
            match outcome {
                Ok(()) => step.action matches BatchAction::Record(recs) && records_of(
                    old(self).pending@,
                    recs@,
                ) && final(self).awaiting == Awaiting::RecordPending(old(self).awaiting->Commit_0),
                Err(e) => if external_lock(e) {
                    step.action == BatchAction::WorkbookLocked(e) && final(self).awaiting is Done
                } else {
                    let fp = failed_position(old(self).pending@);
                    if fp > 0 {
                        step.action matches BatchAction::Record(recs) && records_of(
                            old(self).pending@.take(fp),
                            recs@,
                        ) && (final(self).awaiting matches Awaiting::RecordPrior { failed_index, failure }
                            && failed_index == fp && commit_failure(old(self).pending@[fp].result, e, failure))
                    } else {
                        step.action matches BatchAction::Record(recs) && recs@.len() == 1
                            && recs@[0].0 == old(self).pending@[0].task_id && commit_failure(
                            old(self).pending@[0].result,
                            e,
                            recs@[0].1,
                        ) && (final(self).awaiting matches Awaiting::RecordFailed { task_id, failure }
                            && task_id == old(self).pending@[0].task_id && same_result(failure, recs@[0].1))
                    }
                },
            },
    {
        let ghost t0 = self.trace@;
        let ghost m0 = self.reached@;
        let mut awaiting = Awaiting::Done;
        std::mem::swap(&mut awaiting, &mut self.awaiting);
        let then = match awaiting {
            Awaiting::Commit(then) => then,
            _ => AfterFlush::Finish,
        };
        let step = match outcome {
            Ok(()) => {
                let recs = self.pending_records(self.pending.len());
                assert(self.pending@.take(self.pending@.len() as int) =~= self.pending@);
                self.awaiting = Awaiting::RecordPending(then);
                BatchStep { progress: Vec::new(), action: BatchAction::Record(recs) }
            },
            Err(e) => {
                if is_external_workbook_lock_error(&e) {
                    self.awaiting = Awaiting::Done;
                    BatchStep { progress: Vec::new(), action: BatchAction::WorkbookLocked(e) }
                } else {
                let fp = self.failed_index();
                let failure = report_commit_failure_result(&self.pending[fp].result, &e);
                if fp > 0 {
                    let recs = self.pending_records(fp);
                    self.awaiting = Awaiting::RecordPrior { failed_index: fp, failure };
                    BatchStep { progress: Vec::new(), action: BatchAction::Record(recs) }
                } else {
                    let id = self.pending[0].task_id.clone();
                    let record = (id.clone(), failure.duplicate());
                    proof {
                        assert(same_result(record.1, failure));
                    }
                    self.awaiting = Awaiting::RecordFailed { task_id: id, failure };
                    BatchStep { progress: Vec::new(), action: BatchAction::Record(vec![record]) }
                }
                }
            },
        };
        self.extend_trace(Ghost(t0), Ghost(m0), &step.progress, Ghost(false));
        proof {
            assert(t0 + step.progress@ =~= t0);
        }
        step
    }

    /// Reports the queued results from `from` up to `upto`, in order.
    fn push_pending(&mut self, from: usize, upto: usize, progress: &mut Vec<TaskBatchProgress>)
        requires
            from <= upto <= old(self).pending@.len(),
        ensures
            extended_by(old(self).results@, old(self).pending@.subrange(from as int, upto as int), final(self).results@),
            final(progress)@.len() == old(progress)@.len() + (upto - from),
            forall|k: int| 0 <= k < old(progress)@.len() ==> final(progress)@[k] == old(progress)@[k],
            reports_each(
                final(progress)@.skip(old(progress)@.len() as int),
                old(self).unit_folder,
                final(self).results@,
                old(self).results@.len() as int,
                old(self).task_ids@.len(),
            ),
            final(self).pending == old(self).pending,
            final(self).patches == old(self).patches,
            final(self).next == old(self).next,
            final(self).unit_folder == old(self).unit_folder,
            final(self).task_ids == old(self).task_ids,
            final(self).stopped_task_id == old(self).stopped_task_id,
            final(self).committed == old(self).committed,
            final(self).awaiting == old(self).awaiting,
    {
        let ghost r0 = old(self).results@;
        let ghost p0 = old(progress)@;
        assert(self.results@.take(r0.len() as int) =~= r0);
        assert(progress@.skip(p0.len() as int) =~= Seq::<TaskBatchProgress>::empty());
        let mut i = from;
        while i < upto
            invariant
                from <= i <= upto <= self.pending@.len(),
                self.pending == old(self).pending,
                self.patches == old(self).patches,
                self.next == old(self).next,
                self.unit_folder == old(self).unit_folder,
                self.task_ids == old(self).task_ids,
                self.stopped_task_id == old(self).stopped_task_id,
                self.committed == old(self).committed,
                self.awaiting == old(self).awaiting,
                r0 == old(self).results@,
                p0 == old(progress)@,
                extended_by(r0, self.pending@.subrange(from as int, i as int), self.results@),
                progress@.len() == p0.len() + (i - from),
                forall|k: int| 0 <= k < p0.len() ==> progress@[k] == p0[k],
                reports_each(progress@.skip(p0.len() as int), self.unit_folder, self.results@, r0.len() as int, self.task_ids@.len()),
            decreases upto - i,
        {
            let id = self.pending[i].task_id.clone();
            let r = self.pending[i].result.duplicate();
            let t = to_task_process_result(id, r);
            let ghost before = self.results@;
            let ghost pbefore = progress@;
            self.push_result(t, progress);
            proof {
                let q = self.pending@.subrange(from as int, i + 1);
                assert(q.drop_last() =~= self.pending@.subrange(from as int, i as int));
                assert(self.results@.take(r0.len() as int) =~= r0) by {
                    assert(before.take(r0.len() as int) =~= r0);
                }
                assert forall|k: int| 0 <= k < q.len() implies reported(
                    q[k].task_id,
                    q[k].result,
                    #[trigger] self.results@[r0.len() + k],
                ) by {
                    if k < q.len() - 1 {
                        assert(self.results@[r0.len() + k] == before[r0.len() + k]);
                        assert(q[k] == self.pending@.subrange(from as int, i as int)[k]);
                    }
                }
                let ps = progress@.skip(p0.len() as int);
                assert forall|k: int| 0 <= k < ps.len() implies reports_result(
                    #[trigger] ps[k],
                    self.unit_folder,
                    self.results@[r0.len() + k],
                    next_index((r0.len() + k) as nat),
                    self.task_ids@.len(),
                ) by {
                    if k < ps.len() - 1 {
                        assert(ps[k] == pbefore.skip(p0.len() as int)[k]);
                        assert(self.results@[r0.len() + k] == before[r0.len() + k]);
                    } else {
                        assert(ps[k] == progress@.last());
                    }
                }
            }
            i += 1;
        }
    }

    /// Takes in that the results asked for were recorded, and goes on. After the queue was
    /// recorded, its results join the batch's, each reported, and what was to follow the flush
    /// is done. After the outputs before a failed commit were recorded, their results join, and
    /// the failed one is recorded. After that, or after a single record, its result joins and
    /// the batch stops there.
    pub fn on_recorded(&mut self) -> (step: BatchStep)
        requires
            old(self).waits_for_record(),
            old(self).well_formed(),
            old(self).progress_fits(),
        ensures
            TaskBatch::stepped(*old(self), *final(self), step),
            final(self).trace@ == old(self).trace@ + step.progress@,
            final(self).progress_fits(),
            step.action matches BatchAction::Finish(r) ==> results_reported(
                final(self).trace@,
                old(self).unit_folder,
                r.results@,
                old(self).task_ids@.len(),
            ),
            match old(self).awaiting {
                Awaiting::RecordPending(then) => exists|mid: TaskBatch, rest: BatchStep|
                    #[trigger] applied(mid, *final(self), rest, then) && extended_by(
                        old(self).results@,
                        old(self).pending@,
                        mid.results@,
                    ) && mid.pending@.len() == 0 && mid.unit_folder == old(self).unit_folder && mid.task_ids
                        == old(self).task_ids && mid.next == old(self).next && mid.patches == old(self).patches
                        && mid.stopped_task_id == old(self).stopped_task_id && mid.committed == old(
                        self,
                    ).committed && step.action == rest.action && step.progress@ == step.progress@.take(
                        old(self).pending@.len() as int,
                    ) + rest.progress@ && reports_each(
                        step.progress@.take(old(self).pending@.len() as int),
                        old(self).unit_folder,
                        mid.results@,
                        old(self).results@.len() as int,
                        old(self).task_ids@.len(),
                    ),
                Awaiting::RecordPrior { failed_index, failure } => {
                    &&& extended_by(
                        old(self).results@,
                        old(self).pending@.take(failed_index as int),
                        final(self).results@,
                    )
                    &&& reports_each(
                        step.progress@,
                        old(self).unit_folder,
                        final(self).results@,
                        old(self).results@.len() as int,
                        old(self).task_ids@.len(),
                    )
                    &&& step.action is Record
                    &&& step.action->Record_0@.len() == 1
                    &&& step.action->Record_0@[0].0 == old(self).pending@[failed_index as int].task_id
                    &&& same_result(step.action->Record_0@[0].1, failure)
                    &&& final(self).awaiting == Awaiting::RecordFailed {
                        task_id: old(self).pending@[failed_index as int].task_id,
                        failure,
                    }
                    &&& final(self).pending == old(self).pending
                    &&& final(self).stopped_task_id == old(self).stopped_task_id
                    &&& final(self).committed == old(self).committed
                },
                Awaiting::RecordFailed { task_id, failure } => {
                    &&& step.action is Finish
                    &&& step.action->Finish_0.results@.len() == old(self).results@.len() + 1
                    &&& step.action->Finish_0.results@.take(old(self).results@.len() as int) == old(self).results@
                    &&& reported(task_id, failure, step.action->Finish_0.results@.last())
                    &&& !step.action->Finish_0.committed
                    &&& step.action->Finish_0.stopped_task_id == Some(task_id)
                    &&& step.progress@.len() == 1
                    &&& reports_result(
                        step.progress@[0],
                        old(self).unit_folder,
                        step.action->Finish_0.results@.last(),
                        next_index(old(self).results@.len()),
                        old(self).task_ids@.len(),
                    )
                    &&& final(self).pending@.len() == 0
                    &&& final(self).patches@.len() == 0
                    &&& final(self).stopped_task_id == Some(task_id)
                    &&& !final(self).committed
                },
                Awaiting::RecordSingle(id, r) => {
                    &&& step.action is Finish
                    &&& step.action->Finish_0.results@.len() == old(self).results@.len() + 1
                    &&& step.action->Finish_0.results@.take(old(self).results@.len() as int) == old(self).results@
                    &&& reported(id, r, step.action->Finish_0.results@.last())
                    &&& step.action->Finish_0.committed == old(self).committed
                    &&& step.action->Finish_0.stopped_task_id == Some(id)
                    &&& step.progress@.len() == 1
                    &&& reports_result(
                        step.progress@[0],
                        old(self).unit_folder,
                        step.action->Finish_0.results@.last(),
                        next_index(old(self).results@.len()),
                        old(self).task_ids@.len(),
                    )
                    &&& final(self).stopped_task_id == Some(id)
                },
                _ => true,
            },
    {
        let ghost t0 = self.trace@;
        let ghost m0 = self.reached@;
        let ghost before = *self;
        let ghost uf = self.unit_folder;
        let ghost total = self.task_ids@.len();
        let ghost mut wmid: TaskBatch = before;
        let ghost mut wrest: BatchStep = vstd::pervasive::arbitrary();
        let mut awaiting = Awaiting::Done;
        std::mem::swap(&mut awaiting, &mut self.awaiting);
        let mut progress: Vec<TaskBatchProgress> = Vec::new();
        let step = match awaiting {
            Awaiting::RecordPending(then) => {
                let n = self.pending.len();
                self.push_pending(0, n, &mut progress);
                assert(old(self).pending@.subrange(0, n as int) =~= old(self).pending@);
                proof {
                    lemma_extended_follows(old(self).results@, old(self).pending@, self.results@, self.task_ids@);
                }
                self.pending = Vec::new();
                let ghost mid = *self;
                let ghost recorded = progress@;
                let step = self.apply(then);
                assert(applied(mid, *self, step, then));
                let ghost rest_step = step;
                let mut all = progress;
                let mut rest = step.progress;
                let ghost rest_progress = rest@;
                all.append(&mut rest);
                assert(all@.take(n as int) =~= recorded);
                proof {
                    assert forall|k: int| 0 <= k < all@.len() implies (#[trigger] all@[k]).total
                        == old(self).task_ids@.len() && all@[k].unit_folder@ == old(self).unit_folder@ by {
                        if k < n {
                            assert(all@[k] == recorded[k]);
                            assert(recorded == recorded.skip(0));
                        } else {
                            assert(all@[k] == rest_progress[k - n]);
                        }
                    }
                }
                let out = BatchStep { progress: all, action: step.action };
                proof {
                    wmid = mid;
                    wrest = rest_step;
                    assert(recorded.skip(0) =~= recorded);
                    assert(out.progress@ =~= out.progress@.take(n as int) + rest_step.progress@);
                    assert(applied(mid, *self, rest_step, then) && extended_by(
                        old(self).results@,
                        old(self).pending@,
                        mid.results@,
                    ) && mid.pending@.len() == 0 && out.action == rest_step.action && reports_each(
                        out.progress@.take(n as int),
                        old(self).unit_folder,
                        mid.results@,
                        old(self).results@.len() as int,
                        old(self).task_ids@.len(),
                    ));
                    lemma_each_reported(out.progress@, recorded, uf, mid.results@, before.results@.len() as int, total);
                    assert(mid.results@.take(before.results@.len() as int) =~= before.results@);
                    assert(step_reports(out.progress@, uf, before.results@, mid.results@, total));
                    if then is WaitAndStop {
                        let rr = out.action->Finish_0.results@;
                        assert(out.progress@[n as int] == rest_progress[0]);
                        assert(reports_result(out.progress@[n as int], uf, rr[mid.results@.len() as int], next_index(mid.results@.len()), total));
                        assert(reported_in(out.progress@, uf, rr[mid.results@.len() as int], next_index(mid.results@.len()), total));
                        assert(rr.take(mid.results@.len() as int) =~= mid.results@);
                        assert(rr.take(before.results@.len() as int) =~= before.results@);
                        assert forall|j: int| before.results@.len() <= j < rr.len() implies #[trigger] reported_in(
                            out.progress@,
                            uf,
                            rr[j],
                            next_index(j as nat),
                            total,
                        ) by {
                            if j < mid.results@.len() {
                                assert(rr[j] == mid.results@[j]);
                            }
                        }
                        assert(step_reports(out.progress@, uf, before.results@, rr, total));
                    }
                }
                out
            },
            Awaiting::RecordPrior { failed_index, failure } => {
                self.push_pending(0, failed_index, &mut progress);
                assert(old(self).pending@.subrange(0, failed_index as int) =~= old(self).pending@.take(failed_index as int));
                assert(progress@.skip(0) =~= progress@);
                proof {
                    let q = old(self).pending@.take(failed_index as int);
                    assert forall|k: int| 0 <= k < q.len() implies (#[trigger] q[k]).task_id@
                        == self.task_ids@[old(self).results@.len() + k]@ by {
                        assert(q[k] == old(self).pending@[k]);
                    }
                    lemma_extended_follows(old(self).results@, q, self.results@, self.task_ids@);
                }
                let id = self.pending[failed_index].task_id.clone();
                let record = (id.clone(), failure.duplicate());
                self.awaiting = Awaiting::RecordFailed { task_id: id, failure };
                proof {
                    lemma_each_reported(progress@, progress@, uf, self.results@, before.results@.len() as int, total);
                    assert(self.results@.take(before.results@.len() as int) =~= before.results@);
                }
                BatchStep { progress, action: BatchAction::Record(vec![record]) }
            },
            Awaiting::RecordFailed { task_id, failure } => {
                let t = to_task_process_result(task_id.clone(), failure);
                self.push_result(t, &mut progress);
                self.pending = Vec::new();
                self.patches = Vec::new();
                self.stopped_task_id = Some(task_id);
                self.committed = false;
                proof {
                    assert(reported_in(progress@, uf, self.results@[before.results@.len() as int], next_index(before.results@.len()), total)) by {
                        assert(reports_result(progress@[0], uf, self.results@[before.results@.len() as int], next_index(before.results@.len()), total));
                    }
                    assert(self.results@.take(before.results@.len() as int) =~= before.results@);
                    assert(step_reports(progress@, uf, before.results@, self.results@, total));
                }
                BatchStep { progress, action: self.finish() }
            },
            Awaiting::RecordSingle(id, r) => {
                self.stopped_task_id = Some(id.clone());
                let t = to_task_process_result(id, r);
                self.push_result(t, &mut progress);
                proof {
                    assert(reported_in(progress@, uf, self.results@[before.results@.len() as int], next_index(before.results@.len()), total)) by {
                        assert(reports_result(progress@[0], uf, self.results@[before.results@.len() as int], next_index(before.results@.len()), total));
                    }
                    assert(self.results@.take(before.results@.len() as int) =~= before.results@);
                    assert(step_reports(progress@, uf, before.results@, self.results@, total));
                }
                BatchStep { progress, action: self.finish() }
            },
            _ => BatchStep { progress, action: self.finish() },
        };
        let ghost after = *self;
        self.extend_trace(Ghost(t0), Ghost(m0), &step.progress, Ghost(false));
        proof {
            let prog = step.progress@;
            if before.awaiting is RecordPending {
                assert(applied(wmid, *self, wrest, before.awaiting->RecordPending_0));
            }
            lemma_events_extend(t0, prog, uf, total);
            lemma_reached_extend(t0, prog, before.task_ids@, m0);
            if after.results@.len() > 0 {
                assert(step_reports(prog, uf, before.results@, after.results@, total));
                lemma_results_extend(t0, prog, uf, before.results@, after.results@, total);
            }
            if step.action is Finish {
                let rr = step.action->Finish_0.results@;
                assert(step_reports(prog, uf, before.results@, rr, total));
                lemma_results_extend(t0, prog, uf, before.results@, rr, total);
            }
        }
        step
    }
}

} // verus!
