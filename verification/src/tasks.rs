use vstd::prelude::*;

use crate::text::{concat, decimal, decimal_string, str_eq};

verus! {

/// The two mains voltages a unit is tested at.
#[derive(Debug, Clone, Copy, PartialEq, Eq, Structural)]
pub enum VoltageSet {
    V208,
    V415,
}

/// The three load levels of a system or breaker accuracy test.
#[derive(Debug, Clone, Copy, PartialEq, Eq, Structural)]
pub enum LoadLevel {
    Full,
    Half,
    Low,
}

#[derive(Debug, Clone, Copy, PartialEq, Eq, Structural)]
pub enum TaskKind {
    Transformer { voltage: VoltageSet },
    System { voltage: VoltageSet, load: LoadLevel },
    Breaker { voltage: VoltageSet, breaker: u8, load: LoadLevel },
    SystemBurnIn,
    BreakerBurnIn { breaker: u8 },
}

#[derive(Debug, Clone, PartialEq, Eq)]
pub struct AutomationTask {
    pub id: String,
    pub label: String,
    pub step_display: String,
    pub detection_steps: Vec<u16>,
    pub kind: TaskKind,
}

pub open spec fn prefix_text(voltage: VoltageSet) -> Seq<char> {
    match voltage {
        VoltageSet::V208 => "208v"@,
        VoltageSet::V415 => "415v"@,
    }
}

pub open spec fn voltage_display_text(voltage: VoltageSet) -> Seq<char> {
    match voltage {
        VoltageSet::V208 => "208V"@,
        VoltageSet::V415 => "415V"@,
    }
}

pub open spec fn load_display_text(load: LoadLevel) -> Seq<char> {
    match load {
        LoadLevel::Full => "100% Load"@,
        LoadLevel::Half => "50% Load"@,
        LoadLevel::Low => "20% Load"@,
    }
}

pub open spec fn load_index(load: LoadLevel) -> int {
    match load {
        LoadLevel::Full => 0,
        LoadLevel::Half => 1,
        LoadLevel::Low => 2,
    }
}

pub open spec fn load_at(index: int) -> LoadLevel {
    if index == 0 {
        LoadLevel::Full
    } else if index == 1 {
        LoadLevel::Half
    } else {
        LoadLevel::Low
    }
}

impl VoltageSet {
    pub fn prefix(self) -> (s: &'static str)
        ensures
            s@ == prefix_text(self),
    {
        match self {
            VoltageSet::V208 => "208v",
            VoltageSet::V415 => "415v",
        }
    }

    pub fn display(self) -> (s: &'static str)
        ensures
            s@ == voltage_display_text(self),
    {
        match self {
            VoltageSet::V208 => "208V",
            VoltageSet::V415 => "415V",
        }
    }
}

impl LoadLevel {
    pub fn display(self) -> (s: &'static str)
        ensures
            s@ == load_display_text(self),
    {
        match self {
            LoadLevel::Full => "100% Load",
            LoadLevel::Half => "50% Load",
            LoadLevel::Low => "20% Load",
        }
    }

    pub fn script_arg(self) -> (s: &'static str)
        ensures
            s@ == (match self {
                LoadLevel::Full => "100%"@,
                LoadLevel::Half => "50%"@,
                LoadLevel::Low => "20%"@,
            }),
    {
        match self {
            LoadLevel::Full => "100%",
            LoadLevel::Half => "50%",
            LoadLevel::Low => "20%",
        }
    }

    pub fn system_test_name(self) -> (s: &'static str)
        ensures
            s@ == (match self {
                LoadLevel::Full => "100% Load Test"@,
                LoadLevel::Half => "50% Load Test"@,
                LoadLevel::Low => "20% Load Test"@,
            }),
    {
        match self {
            LoadLevel::Full => "100% Load Test",
            LoadLevel::Half => "50% Load Test",
            LoadLevel::Low => "20% Load Test",
        }
    }

    pub fn index(self) -> (i: u16)
        ensures
            i == load_index(self),
    {
        match self {
            LoadLevel::Full => 0,
            LoadLevel::Half => 1,
            LoadLevel::Low => 2,
        }
    }
}

/// First STEP number of the system tests at a voltage.
pub open spec fn system_first_step(voltage: VoltageSet) -> int {
    match voltage {
        VoltageSet::V208 => 15,
        VoltageSet::V415 => 44,
    }
}

/// First STEP number of the breaker tests at a voltage.
pub open spec fn breaker_first_step(voltage: VoltageSet) -> int {
    match voltage {
        VoltageSet::V208 => 18,
        VoltageSet::V415 => 47,
    }
}

pub open spec fn system_step(voltage: VoltageSet, load: LoadLevel) -> int {
    system_first_step(voltage) + load_index(load)
}

pub open spec fn breaker_step(voltage: VoltageSet, breaker: int, load: LoadLevel) -> int {
    breaker_first_step(voltage) + (breaker - 1) * 3 + load_index(load)
}

pub fn step_for_system(voltage: VoltageSet, load: LoadLevel) -> (step: u16)
    ensures
        step == system_step(voltage, load),
{
    let start: u16 = match voltage {
        VoltageSet::V208 => 15,
        VoltageSet::V415 => 44,
    };
    start + load.index()
}

/// STEP number of a breaker test; breakers are numbered from 1.
pub fn step_for_breaker(voltage: VoltageSet, breaker: u8, load: LoadLevel) -> (step: u16)
    requires
        1 <= breaker,
    ensures
        step == breaker_step(voltage, breaker as int, load),
{
    let start: u16 = match voltage {
        VoltageSet::V208 => 18,
        VoltageSet::V415 => 47,
    };
    start + ((breaker as u16) - 1) * 3 + load.index()
}

/// The kind of the task at a position of the task list.
pub open spec fn task_kind_at(i: int) -> TaskKind {
    if i == 0 {
        TaskKind::Transformer { voltage: VoltageSet::V208 }
    } else if 1 <= i <= 3 {
        TaskKind::System { voltage: VoltageSet::V208, load: load_at(i - 1) }
    } else if 4 <= i <= 27 {
        TaskKind::Breaker {
            voltage: VoltageSet::V208,
            breaker: ((i - 4) / 3 + 1) as u8,
            load: load_at((i - 4) % 3),
        }
    } else if i == 28 {
        TaskKind::Transformer { voltage: VoltageSet::V415 }
    } else if 29 <= i <= 31 {
        TaskKind::System { voltage: VoltageSet::V415, load: load_at(i - 29) }
    } else if 32 <= i <= 55 {
        TaskKind::Breaker {
            voltage: VoltageSet::V415,
            breaker: ((i - 32) / 3 + 1) as u8,
            load: load_at((i - 32) % 3),
        }
    } else if i == 56 {
        TaskKind::SystemBurnIn
    } else {
        TaskKind::BreakerBurnIn { breaker: (i - 56) as u8 }
    }
}

pub open spec fn kind_id(kind: TaskKind) -> Seq<char> {
    match kind {
        TaskKind::Transformer { voltage } => prefix_text(voltage) + "-transformer"@,
        TaskKind::System { voltage, load } => prefix_text(voltage) + "-system-"@
            + load_display_text(load),
        TaskKind::Breaker { voltage, breaker, load } => prefix_text(voltage) + "-breaker-"@
            + decimal(breaker as nat) + "-"@ + load_display_text(load),
        TaskKind::SystemBurnIn => "system-burn-in"@,
        TaskKind::BreakerBurnIn { breaker } => "breaker-burn-in-"@ + decimal(breaker as nat),
    }
}

pub open spec fn kind_label(kind: TaskKind) -> Seq<char> {
    match kind {
        TaskKind::Transformer { voltage } => voltage_display_text(voltage)
            + " Transformer Check"@,
        TaskKind::System { load, .. } => load_display_text(load),
        TaskKind::Breaker { load, .. } => load_display_text(load),
        TaskKind::SystemBurnIn => "System Burn-In"@,
        TaskKind::BreakerBurnIn { breaker } => "Breaker "@ + decimal(breaker as nat),
    }
}

pub open spec fn kind_steps(kind: TaskKind) -> Seq<u16> {
    match kind {
        TaskKind::Transformer { voltage } => seq![
            match voltage {
                VoltageSet::V208 => 14u16,
                VoltageSet::V415 => 43u16,
            },
        ],
        TaskKind::System { voltage, load } => seq![system_step(voltage, load) as u16],
        TaskKind::Breaker { voltage, breaker, load } => seq![
            breaker_step(voltage, breaker as int, load) as u16,
        ],
        TaskKind::SystemBurnIn => seq![71u16, 72u16],
        TaskKind::BreakerBurnIn { breaker } => seq![(72 + breaker) as u16],
    }
}

pub open spec fn kind_step_display(kind: TaskKind) -> Seq<char> {
    match kind {
        TaskKind::SystemBurnIn => "71/72"@,
        _ => decimal(kind_steps(kind)[0] as nat),
    }
}

/// The task at position `i` of the list agrees with the list's definition.
pub open spec fn task_matches(task: AutomationTask, i: int) -> bool {
    &&& task.kind == task_kind_at(i)
    &&& task.id@ == kind_id(task.kind)
    &&& task.label@ == kind_label(task.kind)
    &&& task.detection_steps@ == kind_steps(task.kind)
    &&& task.step_display@ == kind_step_display(task.kind)
}

/// Builds a task of the given kind, its texts and steps derived from the kind.
fn make_task(kind: TaskKind, id: String, label: String, step: u16) -> (task: AutomationTask)
    requires
        id@ == kind_id(kind),
        label@ == kind_label(kind),
        kind != TaskKind::SystemBurnIn,
        kind_steps(kind) == seq![step],
    ensures
        task.kind == kind,
        task.id@ == kind_id(kind),
        task.label@ == kind_label(kind),
        task.detection_steps@ == kind_steps(kind),
        task.step_display@ == kind_step_display(kind),
{
    let mut steps = Vec::new();
    steps.push(step);
    proof {
        assert(steps@ =~= kind_steps(kind));
    }
    AutomationTask {
        id,
        label,
        step_display: decimal_string(step as u128),
        detection_steps: steps,
        kind,
    }
}

fn add_system_tasks(tasks: &mut Vec<AutomationTask>, voltage: VoltageSet, first_step: u16)
    requires
        first_step == system_first_step(voltage),
    ensures
        final(tasks)@.len() == old(tasks)@.len() + 3,
        forall|i: int| 0 <= i < old(tasks)@.len() ==> final(tasks)@[i] == old(tasks)@[i],
        forall|j: int|
            0 <= j < 3 ==> {
                let t = #[trigger] final(tasks)@[old(tasks)@.len() + j];
                &&& t.kind == (TaskKind::System { voltage, load: load_at(j) })
                &&& t.id@ == kind_id(t.kind)
                &&& t.label@ == kind_label(t.kind)
                &&& t.detection_steps@ == kind_steps(t.kind)
                &&& t.step_display@ == kind_step_display(t.kind)
            },
{
    let ghost start = tasks@.len();
    let loads = [LoadLevel::Full, LoadLevel::Half, LoadLevel::Low];
    for k in 0..3
        invariant
            tasks@.len() == start + k,
            loads@ == seq![LoadLevel::Full, LoadLevel::Half, LoadLevel::Low],
            first_step == system_first_step(voltage),
            forall|i: int| 0 <= i < old(tasks)@.len() ==> tasks@[i] == old(tasks)@[i],
            start == old(tasks)@.len(),
            forall|j: int|
                0 <= j < k ==> {
                    let t = #[trigger] tasks@[start + j];
                    &&& t.kind == (TaskKind::System { voltage, load: load_at(j) })
                    &&& t.id@ == kind_id(t.kind)
                    &&& t.label@ == kind_label(t.kind)
                    &&& t.detection_steps@ == kind_steps(t.kind)
                    &&& t.step_display@ == kind_step_display(t.kind)
                },
    {
        let load = loads[k];
        assert(load == load_at(k as int));
        let step = first_step + load.index();
        let kind = TaskKind::System { voltage, load };
        let id = concat(&concat(voltage.prefix(), "-system-"), load.display());
        let label = concat(load.display(), "");
        proof {
            assert(""@ =~= Seq::<char>::empty()) by {
                reveal_strlit("");
            }
            assert(label@ =~= kind_label(kind));
            assert(kind_steps(kind) =~= seq![step]);
        }
        let task = make_task(kind, id, label, step);
        tasks.push(task);
    }
}

fn add_breaker_tasks(tasks: &mut Vec<AutomationTask>, voltage: VoltageSet, first_step: u16)
    requires
        first_step == breaker_first_step(voltage),
    ensures
        final(tasks)@.len() == old(tasks)@.len() + 24,
        forall|i: int| 0 <= i < old(tasks)@.len() ==> final(tasks)@[i] == old(tasks)@[i],
        forall|j: int|
            0 <= j < 24 ==> {
                let t = #[trigger] final(tasks)@[old(tasks)@.len() + j];
                &&& t.kind == (TaskKind::Breaker {
                    voltage,
                    breaker: (j / 3 + 1) as u8,
                    load: load_at(j % 3),
                })
                &&& t.id@ == kind_id(t.kind)
                &&& t.label@ == kind_label(t.kind)
                &&& t.detection_steps@ == kind_steps(t.kind)
                &&& t.step_display@ == kind_step_display(t.kind)
            },
{
    let ghost start = tasks@.len();
    let loads = [LoadLevel::Full, LoadLevel::Half, LoadLevel::Low];
    let mut breaker: u8 = 1;
    while breaker <= 8
        invariant
            1 <= breaker <= 9,
            tasks@.len() == start + (breaker - 1) * 3,
            loads@ == seq![LoadLevel::Full, LoadLevel::Half, LoadLevel::Low],
            first_step == breaker_first_step(voltage),
            forall|i: int| 0 <= i < old(tasks)@.len() ==> tasks@[i] == old(tasks)@[i],
            start == old(tasks)@.len(),
            forall|j: int|
                0 <= j < (breaker - 1) * 3 ==> {
                    let t = #[trigger] tasks@[start + j];
                    &&& t.kind == (TaskKind::Breaker {
                        voltage,
                        breaker: (j / 3 + 1) as u8,
                        load: load_at(j % 3),
                    })
                    &&& t.id@ == kind_id(t.kind)
                    &&& t.label@ == kind_label(t.kind)
                    &&& t.detection_steps@ == kind_steps(t.kind)
                    &&& t.step_display@ == kind_step_display(t.kind)
                },
        decreases 9 - breaker,
    {
        for k in 0..3
            invariant
                1 <= breaker <= 8,
                tasks@.len() == start + (breaker - 1) * 3 + k,
                loads@ == seq![LoadLevel::Full, LoadLevel::Half, LoadLevel::Low],
                first_step == breaker_first_step(voltage),
                forall|i: int| 0 <= i < old(tasks)@.len() ==> tasks@[i] == old(tasks)@[i],
                start == old(tasks)@.len(),
                forall|j: int|
                    0 <= j < (breaker - 1) * 3 + k ==> {
                        let t = #[trigger] tasks@[start + j];
                        &&& t.kind == (TaskKind::Breaker {
                            voltage,
                            breaker: (j / 3 + 1) as u8,
                            load: load_at(j % 3),
                        })
                        &&& t.id@ == kind_id(t.kind)
                        &&& t.label@ == kind_label(t.kind)
                        &&& t.detection_steps@ == kind_steps(t.kind)
                        &&& t.step_display@ == kind_step_display(t.kind)
                    },
        {
            let load = loads[k];
            assert(load == load_at(k as int));
            let step = first_step + ((breaker as u16) - 1) * 3 + load.index();
            let kind = TaskKind::Breaker { voltage, breaker, load };
            let number = decimal_string(breaker as u128);
            let id = concat(
                &concat(&concat(&concat(voltage.prefix(), "-breaker-"), &number), "-"),
                load.display(),
            );
            let label = concat(load.display(), "");
            proof {
                assert(""@ =~= Seq::<char>::empty()) by {
                    reveal_strlit("");
                }
                assert(label@ =~= kind_label(kind));
                assert(kind_steps(kind) =~= seq![step]);
                let j = (breaker - 1) * 3 + k;
                assert(j / 3 + 1 == breaker);
                assert(j % 3 == k);
            }
            let task = make_task(kind, id, label, step);
            tasks.push(task);
        }
        breaker += 1;
    }
}

/// The 65 automation tasks in floor order, as the legacy task map defines them.
pub fn automation_tasks() -> (tasks: Vec<AutomationTask>)
    ensures
        tasks@.len() == 65,
        forall|i: int| 0 <= i < 65 ==> task_matches(#[trigger] tasks@[i], i),
{
    let mut tasks: Vec<AutomationTask> = Vec::new();
    let t0 = make_task(
        TaskKind::Transformer { voltage: VoltageSet::V208 },
        concat("208v", "-transformer"),
        concat("208V", " Transformer Check"),
        14,
    );
    tasks.push(t0);
    add_system_tasks(&mut tasks, VoltageSet::V208, 15);
    let ghost s2 = tasks@;
    add_breaker_tasks(&mut tasks, VoltageSet::V208, 18);
    let ghost s3 = tasks@;
    let t28 = make_task(
        TaskKind::Transformer { voltage: VoltageSet::V415 },
        concat("415v", "-transformer"),
        concat("415V", " Transformer Check"),
        43,
    );
    tasks.push(t28);
    add_system_tasks(&mut tasks, VoltageSet::V415, 44);
    let ghost s5 = tasks@;
    add_breaker_tasks(&mut tasks, VoltageSet::V415, 47);
    let ghost s6 = tasks@;
    let mut burn_steps = Vec::new();
    burn_steps.push(71u16);
    burn_steps.push(72u16);
    proof {
        assert(burn_steps@ =~= kind_steps(TaskKind::SystemBurnIn));
    }
    tasks.push(
        AutomationTask {
            id: concat("system-burn-in", ""),
            label: concat("System Burn-In", ""),
            step_display: concat("71/72", ""),
            detection_steps: burn_steps,
            kind: TaskKind::SystemBurnIn,
        },
    );
    proof {
        reveal_strlit("");
        assert(tasks@[56].id@ =~= "system-burn-in"@);
        assert(tasks@[56].label@ =~= "System Burn-In"@);
        assert(tasks@[56].step_display@ =~= "71/72"@);
        assert forall|i: int| 0 <= i < 57 implies task_matches(#[trigger] tasks@[i], i) by {
            if 1 <= i <= 3 {
                assert(tasks@[i] == s2[1 + (i - 1)]);
            } else if 4 <= i <= 27 {
                assert(tasks@[i] == s3[4 + (i - 4)]);
            } else if 29 <= i <= 31 {
                assert(tasks@[i] == s5[29 + (i - 29)]);
            } else if 32 <= i <= 55 {
                assert(tasks@[i] == s6[32 + (i - 32)]);
            }
        }
    }
    let mut breaker: u8 = 1;
    while breaker <= 8
        invariant
            1 <= breaker <= 9,
            tasks@.len() == 57 + (breaker - 1),
            forall|i: int| 0 <= i < 57 + (breaker - 1) ==> task_matches(#[trigger] tasks@[i], i),
        decreases 9 - breaker,
    {
        let step: u16 = 72 + (breaker as u16);
        let number = decimal_string(breaker as u128);
        let kind = TaskKind::BreakerBurnIn { breaker };
        let task = make_task(
            kind,
            concat("breaker-burn-in-", &number),
            concat("Breaker ", &number),
            step,
        );
        tasks.push(task);
        breaker += 1;
    }
    tasks
}

/// The STEP number that task `i` is detected by (its first detection step).
pub open spec fn first_step_at(i: int) -> int {
    kind_steps(task_kind_at(i))[0] as int
}

/// The STEP number of the list's task `i`, written as a closed formula of its position.
pub proof fn lemma_first_step_formula(i: int)
    requires
        0 <= i < 65,
    ensures
        i <= 27 ==> first_step_at(i) == 14 + i,
        28 <= i <= 55 ==> first_step_at(i) == 15 + i,
        i == 56 ==> first_step_at(i) == 71 && kind_steps(task_kind_at(i)).len() == 2,
        57 <= i ==> first_step_at(i) == 16 + i,
        i != 56 ==> kind_steps(task_kind_at(i)).len() == 1,
{
    if 4 <= i <= 27 {
        let j = i - 4;
        assert(j == (j / 3) * 3 + j % 3);
    } else if 32 <= i <= 55 {
        let j = i - 32;
        assert(j == (j / 3) * 3 + j % 3);
    }
}

/// Law: the tasks of the list are detected by distinct STEP numbers that rise along the list,
/// so no two tasks ever claim the same CSV step.
pub proof fn law_detection_steps_rise_along_the_list(i: int, j: int)
    requires
        0 <= i < j < 65,
    ensures
        kind_steps(task_kind_at(i)).last() < kind_steps(task_kind_at(j))[0],
{
    lemma_first_step_formula(i);
    lemma_first_step_formula(j);
}

/// Law: a breaker test's STEP lies in its voltage's breaker block, and distinct breaker/load
/// pairs at one voltage get distinct STEPs.
pub proof fn law_breaker_steps_are_distinct(
    voltage: VoltageSet,
    b1: int,
    l1: LoadLevel,
    b2: int,
    l2: LoadLevel,
)
    requires
        1 <= b1 <= 8,
        1 <= b2 <= 8,
        (b1, l1) != (b2, l2),
    ensures
        breaker_step(voltage, b1, l1) != breaker_step(voltage, b2, l2),
        breaker_first_step(voltage) <= breaker_step(voltage, b1, l1) <= breaker_first_step(
            voltage,
        ) + 23,
{
    if b1 == b2 {
        assert(l1 != l2);
        assert(load_index(l1) != load_index(l2));
    }
}

/// The task with the given id, taken from the task list: the first one whose id matches.
pub fn find_task(task_id: &str) -> (found: Option<AutomationTask>)
    ensures
        match found {
            Some(task) => exists|i: int|
                0 <= i < 65 && #[trigger] task_matches(task, i) && task.id@ == task_id@ && (
                forall|j: int| 0 <= j < i ==> kind_id(task_kind_at(j)) != task_id@),
            None => forall|i: int| 0 <= i < 65 ==> kind_id(#[trigger] task_kind_at(i)) != task_id@,
        },
{
    let mut tasks = automation_tasks();
    let ghost all = tasks@;
    let mut i: usize = 0;
    while i < tasks.len()
        invariant
            tasks@ == all,
            all.len() == 65,
            forall|k: int| 0 <= k < 65 ==> task_matches(#[trigger] all[k], k),
            0 <= i <= 65,
            forall|j: int| 0 <= j < i ==> kind_id(task_kind_at(j)) != task_id@,
        decreases 65 - i,
    {
        if str_eq(tasks[i].id.as_str(), task_id) {
            let task = tasks.remove(i);
            assert(task == all[i as int]);
            assert(task_matches(task, i as int));
            return Some(task);
        }
        assert(task_matches(all[i as int], i as int));
        i += 1;
    }
    None
}

/// The kinds the task list holds: breakers numbered 1 to 8.
pub open spec fn listed_kind(k: TaskKind) -> bool {
    match k {
        TaskKind::Breaker { breaker, .. } => 1 <= breaker <= 8,
        TaskKind::BreakerBurnIn { breaker } => 1 <= breaker <= 8,
        _ => true,
    }
}

/// Each position of the task list holds a listed kind, and two positions hold two kinds.
proof fn lemma_task_kinds_distinct(i: int, j: int)
    requires
        0 <= i < j < 65,
    ensures
        listed_kind(task_kind_at(i)),
        listed_kind(task_kind_at(j)),
        task_kind_at(i) != task_kind_at(j),
{
}

proof fn lemma_load_texts(l: LoadLevel)
    ensures
        load_display_text(l).len() > 0,
        load_display_text(l)[0] == match l {
            LoadLevel::Full => '1',
            LoadLevel::Half => '5',
            LoadLevel::Low => '2',
        },
{
    reveal_strlit("100% Load");
    reveal_strlit("50% Load");
    reveal_strlit("20% Load");
}

/// What tells an id apart: its first character, the sixth (after the voltage and its dash),
/// and, for a system test, the tenth (the load) or, for a breaker, the fourteenth and sixteenth
/// (its number and load); for a breaker burn-in the seventeenth (its number).
proof fn lemma_kind_id_chars(k: TaskKind)
    requires
        listed_kind(k),
    ensures
        kind_id(k).len() >= 6,
        kind_id(k)[0] == match k {
            TaskKind::Transformer { voltage } => prefix_text(voltage)[0],
            TaskKind::System { voltage, .. } => prefix_text(voltage)[0],
            TaskKind::Breaker { voltage, .. } => prefix_text(voltage)[0],
            TaskKind::SystemBurnIn => 's',
            TaskKind::BreakerBurnIn { .. } => 'b',
        },
        match k {
            TaskKind::Transformer { .. } => kind_id(k)[5] == 't',
            TaskKind::System { load, .. } => kind_id(k)[5] == 's' && kind_id(k).len() > 12 && kind_id(k)[12]
                == load_display_text(load)[0],
            TaskKind::Breaker { breaker, load, .. } => kind_id(k)[5] == 'b' && kind_id(k).len() > 15
                && kind_id(k)[13] == crate::text::digit_char(breaker as int) && kind_id(k)[15] == load_display_text(load)[0],
            TaskKind::SystemBurnIn => kind_id(k)[1] == 'y',
            TaskKind::BreakerBurnIn { breaker } => kind_id(k)[1] == 'r' && kind_id(k).len() > 16 && kind_id(k)[16]
                == crate::text::digit_char(breaker as int),
        },
{
    reveal_strlit("208v");
    reveal_strlit("415v");
    reveal_strlit("-transformer");
    reveal_strlit("-system-");
    reveal_strlit("-breaker-");
    reveal_strlit("-");
    reveal_strlit("system-burn-in");
    reveal_strlit("breaker-burn-in-");
    match k {
        TaskKind::System { load, .. } => {
            lemma_load_texts(load);
        },
        TaskKind::Breaker { breaker, load, .. } => {
            lemma_load_texts(load);
            assert(crate::text::decimal(breaker as nat) == seq![crate::text::digit_char(breaker as int)]);
        },
        TaskKind::BreakerBurnIn { breaker } => {
            assert(crate::text::decimal(breaker as nat) == seq![crate::text::digit_char(breaker as int)]);
        },
        _ => {},
    }
}

proof fn lemma_kind_ids_differ(a: TaskKind, b: TaskKind)
    requires
        listed_kind(a),
        listed_kind(b),
        a != b,
    ensures
        kind_id(a) != kind_id(b),
{
    reveal_strlit("208v");
    reveal_strlit("415v");
    lemma_kind_id_chars(a);
    lemma_kind_id_chars(b);
    match (a, b) {
        (TaskKind::System { load: la, .. }, TaskKind::System { load: lb, .. }) => {
            lemma_load_texts(la);
            lemma_load_texts(lb);
        },
        (TaskKind::Breaker { load: la, .. }, TaskKind::Breaker { load: lb, .. }) => {
            lemma_load_texts(la);
            lemma_load_texts(lb);
        },
        _ => {},
    }
}

/// Law: no two tasks of the list share an id.
pub proof fn law_task_ids_are_unique(i: int, j: int)
    requires
        0 <= i < j < 65,
    ensures
        kind_id(task_kind_at(i)) != kind_id(task_kind_at(j)),
{
    lemma_task_kinds_distinct(i, j);
    lemma_kind_ids_differ(task_kind_at(i), task_kind_at(j));
}

} // verus!
