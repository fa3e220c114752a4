use vstd::prelude::*;

use crate::automation::{PrintReadinessBlocker, PrintReadinessResult};
use crate::tasks::AutomationTask;
use crate::text::{concat, decimal, decimal_string, opt_view, push_str, str_eq};
use crate::unit_state::{print_ready, UnitState, UnitTaskState};

verus! {

/// Why a task in the given state keeps the report from printing.
pub open spec fn blocking_reason_text(state: Seq<char>) -> Seq<char> {
    if state == "fail"@ {
        "Task failed and has not been explicitly accepted."@
    } else if state == "waiting"@ {
        "Task is still waiting for stable CSV data."@
    } else if state == "warning"@ {
        "Task has a warning or missing CSV and has not been resolved."@
    } else if state == "detected"@ {
        "Task CSV was detected but has not been processed successfully."@
    } else if state == "off"@ {
        "Task has not been detected or processed successfully."@
    } else {
        "Task is not print-ready (state: "@ + state + ")."@
    }
}

pub fn task_blocking_reason(state: &str) -> (r: String)
    ensures
        r@ == blocking_reason_text(state@),
{
    if str_eq(state, "fail") {
        "Task failed and has not been explicitly accepted.".to_owned()
    } else if str_eq(state, "waiting") {
        "Task is still waiting for stable CSV data.".to_owned()
    } else if str_eq(state, "warning") {
        "Task has a warning or missing CSV and has not been resolved.".to_owned()
    } else if str_eq(state, "detected") {
        "Task CSV was detected but has not been processed successfully.".to_owned()
    } else if str_eq(state, "off") {
        "Task has not been detected or processed successfully.".to_owned()
    } else {
        let mut r = String::new();
        push_str(&mut r, "Task is not print-ready (state: ");
        push_str(&mut r, state);
        push_str(&mut r, ").");
        r
    }
}

/// The blocker a task raises, if any: it has no saved state, or its state is neither a pass
/// nor an accepted failure.
pub open spec fn task_blocks(state: UnitState, task: AutomationTask) -> bool {
    !state.tasks@.contains_key(task.id@) || !print_ready(state.tasks@[task.id@]@)
}

/// The blocker is the one raised by the task.
pub open spec fn blocker_for(b: PrintReadinessBlocker, state: UnitState, task: AutomationTask) -> bool {
    &&& opt_view(b.task_id) == Some(task.id@)
    &&& opt_view(b.label) == Some(task.label@)
    &&& if !state.tasks@.contains_key(task.id@) {
        b.code@ == "task_state_missing"@ && b.reason@ == "Task has no persisted processing state."@
    } else {
        let s = state.tasks@[task.id@].state@;
        b.code@ == "task_"@ + s && b.reason@ == blocking_reason_text(s)
    }
}

/// The tasks, of those given, that block printing, in order.
pub open spec fn blocking_tasks(state: UnitState, tasks: Seq<AutomationTask>) -> Seq<AutomationTask> {
    tasks.filter_map(|t: AutomationTask| if task_blocks(state, t) { Some(t) } else { None })
}

pub open spec fn sn_offset(sn_present: bool) -> int {
    if sn_present {
        0
    } else {
        1
    }
}

pub open spec fn blocker_count(sn_present: bool, state: UnitState, tasks: Seq<AutomationTask>) -> nat {
    (if sn_present {
        0nat
    } else {
        1nat
    }) + blocking_tasks(state, tasks).len()
}

/// `Ready to print.`, or how many blocking issues remain.
pub open spec fn readiness_message_text(n: nat) -> Seq<char> {
    if n == 0 {
        "Ready to print."@
    } else {
        "Report is not ready to print. "@ + decimal(n) + " blocking issue"@ + if n == 1 {
            Seq::<char>::empty()
        } else {
            seq!['s']
        } + " must be resolved."@
    }
}

fn blocker_of(state: &UnitState, task: &AutomationTask, entry: Option<&UnitTaskState>) -> (b:
    PrintReadinessBlocker)
    requires
        match entry {
            Some(e) => state.tasks@.contains_key(task.id@) && *e == state.tasks@[task.id@],
            None => !state.tasks@.contains_key(task.id@),
        },
    ensures
        blocker_for(b, *state, *task),
{
    match entry {
        None => PrintReadinessBlocker {
            task_id: Some(task.id.clone()),
            label: Some(task.label.clone()),
            code: "task_state_missing".to_owned(),
            reason: "Task has no persisted processing state.".to_owned(),
        },
        Some(e) => PrintReadinessBlocker {
            task_id: Some(task.id.clone()),
            label: Some(task.label.clone()),
            code: concat("task_", e.state.as_str()),
            reason: task_blocking_reason(e.state.as_str()),
        },
    }
}

/// Whether the report may print: the main report must hold the transformer's serial number and
/// every task must have passed or have had its failure accepted. The blocking issues come in
/// order: the missing serial number first, then the tasks in the order given.
pub fn print_readiness(
    transformer_sn_present: bool,
    tasks: &Vec<AutomationTask>,
    state: &UnitState,
) -> (r: PrintReadinessResult)
    ensures
        r.blocking_issues@.len() == blocker_count(transformer_sn_present, *state, tasks@),
        !transformer_sn_present ==> r.blocking_issues@[0].code@ == "transformer_sn_missing"@
            && r.blocking_issues@[0].task_id is None,
        forall|j: int|
            sn_offset(transformer_sn_present) <= j < r.blocking_issues@.len() ==> blocker_for(
                #[trigger] r.blocking_issues@[j],
                *state,
                blocking_tasks(*state, tasks@)[j - sn_offset(transformer_sn_present)],
            ),
        r.ready == (blocker_count(transformer_sn_present, *state, tasks@) == 0),
        r.message@ == readiness_message_text(blocker_count(transformer_sn_present, *state, tasks@)),
{
    let mut issues: Vec<PrintReadinessBlocker> = Vec::new();
    let offset: usize = if transformer_sn_present {
        0
    } else {
        1
    };
    if !transformer_sn_present {
        issues.push(
            PrintReadinessBlocker {
                task_id: None,
                label: None,
                code: "transformer_sn_missing".to_owned(),
                reason: "Transformer SN is missing from the saved main report.".to_owned(),
            },
        );
    }
    for i in 0..tasks.len()
        invariant
            offset == sn_offset(transformer_sn_present),
            issues@.len() == offset + blocking_tasks(*state, tasks@.take(i as int)).len(),
            !transformer_sn_present ==> issues@[0].code@ == "transformer_sn_missing"@
                && issues@[0].task_id is None,
            forall|j: int|
                offset <= j < issues@.len() ==> blocker_for(
                    #[trigger] issues@[j],
                    *state,
                    blocking_tasks(*state, tasks@.take(i as int))[j - offset],
                ),
    {
        let task = &tasks[i];
        let ghost before = blocking_tasks(*state, tasks@.take(i as int));
        proof {
            assert(tasks@.take(i + 1).drop_last() =~= tasks@.take(i as int));
            assert(tasks@.take(i + 1).last() == *task);
        }
        let entry = state.tasks.get(task.id.as_str());
        let blocks = match entry {
            None => true,
            Some(e) => !e.is_print_ready(),
        };
        if blocks {
            let b = blocker_of(state, task, entry);
            issues.push(b);
            proof {
                let after = blocking_tasks(*state, tasks@.take(i + 1));
                assert(after == before.push(*task));
                assert forall|j: int| offset <= j < issues@.len() implies blocker_for(
                    #[trigger] issues@[j],
                    *state,
                    after[j - offset],
                ) by {
                    if j - offset < before.len() {
                        assert(after[j - offset] == before[j - offset]);
                    }
                }
            }
        } else {
            proof {
                assert(blocking_tasks(*state, tasks@.take(i + 1)) == before);
            }
        }
    }
    assert(tasks@.take(tasks@.len() as int) =~= tasks@);
    let n = issues.len();
    let ready = n == 0;
    let message = if ready {
        "Ready to print.".to_owned()
    } else {
        let mut m = String::new();
        push_str(&mut m, "Report is not ready to print. ");
        let d = decimal_string(n as u128);
        push_str(&mut m, d.as_str());
        push_str(&mut m, " blocking issue");
        if n != 1 {
            m.push('s');
        }
        push_str(&mut m, " must be resolved.");
        assert(m@ =~= readiness_message_text(n as nat));
        m
    };
    PrintReadinessResult { ready, message, blocking_issues: issues }
}

proof fn lemma_no_blockers(state: UnitState, tasks: Seq<AutomationTask>)
    ensures
        (blocking_tasks(state, tasks).len() == 0) <==> (forall|i: int|
            0 <= i < tasks.len() ==> !task_blocks(state, #[trigger] tasks[i])),
    decreases tasks.len(),
{
    if tasks.len() > 0 {
        let init = tasks.drop_last();
        lemma_no_blockers(state, init);
        let last = tasks.last();
        assert(blocking_tasks(state, tasks) == if task_blocks(state, last) {
            blocking_tasks(state, init).push(last)
        } else {
            blocking_tasks(state, init)
        });
        if blocking_tasks(state, tasks).len() == 0 {
            assert forall|i: int| 0 <= i < tasks.len() implies !task_blocks(
                state,
                #[trigger] tasks[i],
            ) by {
                if i < tasks.len() - 1 {
                    assert(tasks[i] == init[i]);
                }
            }
        } else if !task_blocks(state, last) {
            let j = choose|j: int| 0 <= j < init.len() && task_blocks(state, #[trigger] init[j]);
            assert(init[j] == tasks[j]);
        }
    }
}

/// Law: the report is ready to print exactly when the main report holds the transformer's serial
/// number and every task has passed or had its failure accepted.
pub proof fn law_print_ready_iff_all_tasks_done(
    transformer_sn_present: bool,
    state: UnitState,
    tasks: Seq<AutomationTask>,
)
    ensures
        (blocker_count(transformer_sn_present, state, tasks) == 0) <==> (transformer_sn_present
            && forall|i: int|
            0 <= i < tasks.len() ==> state.tasks@.contains_key(#[trigger] tasks[i].id@)
                && print_ready(state.tasks@[tasks[i].id@]@)),
{
    lemma_no_blockers(state, tasks);
}

proof fn lemma_blocking_tasks_members(state: UnitState, tasks: Seq<AutomationTask>)
    ensures
        forall|i: int| 0 <= i < tasks.len() && task_blocks(state, tasks[i]) ==> blocking_tasks(state, tasks).contains(
            #[trigger] tasks[i],
        ),
        forall|j: int|
            0 <= j < blocking_tasks(state, tasks).len() ==> task_blocks(state, #[trigger] blocking_tasks(state, tasks)[j])
                && tasks.contains(blocking_tasks(state, tasks)[j]),
    decreases tasks.len(),
{
    if tasks.len() > 0 {
        let init = tasks.drop_last();
        lemma_blocking_tasks_members(state, init);
        let last = tasks.last();
        let b = blocking_tasks(state, tasks);
        let bi = blocking_tasks(state, init);
        assert(b == if task_blocks(state, last) {
            bi.push(last)
        } else {
            bi
        });
        assert forall|i: int| 0 <= i < tasks.len() && task_blocks(state, tasks[i]) implies b.contains(
            #[trigger] tasks[i],
        ) by {
            if i < tasks.len() - 1 {
                assert(tasks[i] == init[i]);
                let k = choose|k: int| 0 <= k < bi.len() && bi[k] == init[i];
                assert(b[k] == bi[k]);
            } else {
                assert(b[b.len() - 1] == last);
            }
        }
        assert forall|j: int| 0 <= j < b.len() implies task_blocks(state, #[trigger] b[j]) && tasks.contains(b[j]) by {
            if j < bi.len() {
                assert(b[j] == bi[j]);
                let k = choose|k: int| 0 <= k < init.len() && init[k] == bi[j];
                assert(tasks[k] == init[k]);
            } else {
                assert(b[j] == last);
                assert(tasks[tasks.len() - 1] == last);
            }
        }
    }
}

/// Law: the readiness answer names, among its blockers, exactly the tasks that are not
/// print-ready (each by its own blocker, after the one for a missing serial number); and it says
/// "Ready to print." exactly when nothing blocks.
pub proof fn law_blockers_name_the_unready_tasks(
    transformer_sn_present: bool,
    state: UnitState,
    tasks: Seq<AutomationTask>,
)
    ensures
        forall|i: int|
            0 <= i < tasks.len() ==> (blocking_tasks(state, tasks).contains(#[trigger] tasks[i]) <==> task_blocks(
                state,
                tasks[i],
            )),
        (readiness_message_text(blocker_count(transformer_sn_present, state, tasks)) == "Ready to print."@)
            <==> blocker_count(transformer_sn_present, state, tasks) == 0,
{
    reveal_strlit("Ready to print.");
    reveal_strlit("Report is not ready to print. ");
    lemma_blocking_tasks_members(state, tasks);
    let n = blocker_count(transformer_sn_present, state, tasks);
    if n > 0 {
        let m = readiness_message_text(n);
        assert(m[2] == 'p');
        assert("Ready to print."@[2] == 'a');
    }
}

} // verus!
