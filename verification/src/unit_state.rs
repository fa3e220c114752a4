use vstd::prelude::*;

use crate::processors::ProcessorResult;
use crate::str_map::StrMap;
use crate::text::{clone_opt, concat, contains, contains_str, opt_view, str_eq};

verus! {

pub const UNIT_STATE_FILE: &'static str = "unit_state.json";

pub const UNIT_STATE_LOCK_FILE: &'static str = "unit_state.lock";

/// What `unit_state.json` holds for one unit folder.
pub struct UnitState {
    pub schema_version: u8,
    pub tasks: StrMap<UnitTaskState>,
    pub notification_receipts: NotificationReceipts,
}

pub struct NotificationReceipts {
    pub complete: Option<NotificationReceipt>,
    pub problems: StrMap<NotificationReceipt>,
}

#[derive(Debug)]
pub struct NotificationReceipt {
    pub event_key: String,
    pub accepted_at: String,
}

pub struct UnitTaskState {
    pub task_id: String,
    pub state: String,
    pub code: Option<u8>,
    pub source_csv_path: Option<String>,
    pub csv_fingerprint: Option<String>,
    pub processed_at: Option<String>,
    pub result: Option<String>,
    pub accepted: TaskAcceptance,
    pub audit_log: Vec<UnitAuditEntry>,
}

pub struct TaskAcceptance {
    pub accepted: bool,
    pub accepted_at: Option<String>,
    pub accepted_by: Option<String>,
    pub reason: Option<String>,
}

pub struct UnitAuditEntry {
    pub at: String,
    pub event: String,
    pub message: String,
    pub state: Option<String>,
    pub code: Option<u8>,
    pub source_csv_path: Option<String>,
    pub csv_fingerprint: Option<String>,
}

pub struct TaskStateSeed {
    pub task_id: String,
    pub state: String,
    pub source_csv_path: Option<String>,
    pub csv_fingerprint: Option<String>,
}

pub ghost struct ReceiptV {
    pub event_key: Seq<char>,
    pub accepted_at: Seq<char>,
}

pub ghost struct AuditV {
    pub at: Seq<char>,
    pub event: Seq<char>,
    pub message: Seq<char>,
    pub state: Option<Seq<char>>,
    pub code: Option<u8>,
    pub source_csv_path: Option<Seq<char>>,
    pub csv_fingerprint: Option<Seq<char>>,
}

pub ghost struct AcceptanceV {
    pub accepted: bool,
    pub accepted_at: Option<Seq<char>>,
    pub accepted_by: Option<Seq<char>>,
    pub reason: Option<Seq<char>>,
}

pub ghost struct TaskStateV {
    pub task_id: Seq<char>,
    pub state: Seq<char>,
    pub code: Option<u8>,
    pub source_csv_path: Option<Seq<char>>,
    pub csv_fingerprint: Option<Seq<char>>,
    pub processed_at: Option<Seq<char>>,
    pub result: Option<Seq<char>>,
    pub accepted: AcceptanceV,
    pub audit_log: Seq<AuditV>,
}

pub ghost struct SeedV {
    pub task_id: Seq<char>,
    pub state: Seq<char>,
    pub source_csv_path: Option<Seq<char>>,
    pub csv_fingerprint: Option<Seq<char>>,
}

/// What one processor run reports about a task, as the unit state records it.
pub ghost struct OutcomeV {
    pub state: Seq<char>,
    pub code: u8,
    pub message: Seq<char>,
    pub source_csv_path: Option<Seq<char>>,
    pub csv_fingerprint: Option<Seq<char>>,
}

pub ghost struct UnitStateV {
    pub schema_version: u8,
    pub tasks: Map<Seq<char>, TaskStateV>,
    pub complete: Option<ReceiptV>,
    pub problems: Map<Seq<char>, ReceiptV>,
}

impl View for NotificationReceipt {
    type V = ReceiptV;

    open spec fn view(&self) -> ReceiptV {
        ReceiptV { event_key: self.event_key@, accepted_at: self.accepted_at@ }
    }
}

impl View for UnitAuditEntry {
    type V = AuditV;

    open spec fn view(&self) -> AuditV {
        AuditV {
            at: self.at@,
            event: self.event@,
            message: self.message@,
            state: opt_view(self.state),
            code: self.code,
            source_csv_path: opt_view(self.source_csv_path),
            csv_fingerprint: opt_view(self.csv_fingerprint),
        }
    }
}

impl View for TaskAcceptance {
    type V = AcceptanceV;

    open spec fn view(&self) -> AcceptanceV {
        AcceptanceV {
            accepted: self.accepted,
            accepted_at: opt_view(self.accepted_at),
            accepted_by: opt_view(self.accepted_by),
            reason: opt_view(self.reason),
        }
    }
}

impl View for UnitTaskState {
    type V = TaskStateV;

    open spec fn view(&self) -> TaskStateV {
        TaskStateV {
            task_id: self.task_id@,
            state: self.state@,
            code: self.code,
            source_csv_path: opt_view(self.source_csv_path),
            csv_fingerprint: opt_view(self.csv_fingerprint),
            processed_at: opt_view(self.processed_at),
            result: opt_view(self.result),
            accepted: self.accepted@,
            audit_log: self.audit_log@.map_values(|e: UnitAuditEntry| e@),
        }
    }
}

impl View for TaskStateSeed {
    type V = SeedV;

    open spec fn view(&self) -> SeedV {
        SeedV {
            task_id: self.task_id@,
            state: self.state@,
            source_csv_path: opt_view(self.source_csv_path),
            csv_fingerprint: opt_view(self.csv_fingerprint),
        }
    }
}

pub open spec fn receipts_view(m: Map<Seq<char>, NotificationReceipt>) -> Map<Seq<char>, ReceiptV> {
    m.map_values(|r: NotificationReceipt| r@)
}

pub open spec fn tasks_view(m: Map<Seq<char>, UnitTaskState>) -> Map<Seq<char>, TaskStateV> {
    m.map_values(|t: UnitTaskState| t@)
}

pub open spec fn opt_receipt_view(o: Option<NotificationReceipt>) -> Option<ReceiptV> {
    match o {
        Some(r) => Some(r@),
        None => None,
    }
}

impl View for UnitState {
    type V = UnitStateV;

    open spec fn view(&self) -> UnitStateV {
        UnitStateV {
            schema_version: self.schema_version,
            tasks: tasks_view(self.tasks@),
            complete: opt_receipt_view(self.notification_receipts.complete),
            problems: receipts_view(self.notification_receipts.problems@),
        }
    }
}

pub open spec fn outcome_view(r: ProcessorResult) -> OutcomeV {
    OutcomeV {
        state: r.state@,
        code: r.code,
        message: r.message@,
        source_csv_path: opt_view(r.source_csv_path),
        csv_fingerprint: opt_view(r.csv_fingerprint),
    }
}

pub open spec fn no_acceptance() -> AcceptanceV {
    AcceptanceV { accepted: false, accepted_at: None, accepted_by: None, reason: None }
}

impl Default for TaskAcceptance {
    fn default() -> (a: Self)
        ensures
            a@ == no_acceptance(),
    {
        TaskAcceptance { accepted: false, accepted_at: None, accepted_by: None, reason: None }
    }
}

impl Default for NotificationReceipts {
    fn default() -> (r: Self)
        ensures
            r.complete.is_none(),
            r.problems@ == Map::<Seq<char>, NotificationReceipt>::empty(),
    {
        NotificationReceipts { complete: None, problems: StrMap::new() }
    }
}

impl Default for UnitState {
    fn default() -> (s: Self)
        ensures
            s@ == (UnitStateV {
                schema_version: 1,
                tasks: Map::empty(),
                complete: None,
                problems: Map::empty(),
            }),
    {
        let s = UnitState {
            schema_version: 1,
            tasks: StrMap::new(),
            notification_receipts: NotificationReceipts::default(),
        };
        assert(s@.tasks =~= Map::empty());
        assert(s@.problems =~= Map::empty());
        s
    }
}

impl NotificationReceipt {
    pub fn duplicate(&self) -> (r: Self)
        ensures
            r@ == self@,
    {
        NotificationReceipt { event_key: self.event_key.clone(), accepted_at: self.accepted_at.clone() }
    }
}

pub open spec fn is_pass(state: Seq<char>) -> bool {
    state == "pass"@
}

pub open spec fn print_ready(t: TaskStateV) -> bool {
    is_pass(t.state) || t.accepted.accepted
}

pub open spec fn processed_fingerprint(t: TaskStateV) -> Option<Seq<char>> {
    if is_pass(t.state) {
        t.csv_fingerprint
    } else {
        None
    }
}

impl UnitTaskState {
    /// A passed task, or a failed one the operator accepted, lets the report print.
    pub fn is_print_ready(&self) -> (b: bool)
        ensures
            b == print_ready(self@),
    {
        str_eq(self.state.as_str(), "pass") || self.accepted.accepted
    }

    /// The fingerprint of the CSV a passed task was processed from.
    pub fn already_processed_fingerprint(&self) -> (r: Option<&str>)
        ensures
            match r {
                Some(f) => processed_fingerprint(self@) == Some(f@),
                None => processed_fingerprint(self@).is_none(),
            },
    {
        if str_eq(self.state.as_str(), "pass") {
            match &self.csv_fingerprint {
                Some(f) => Some(f.as_str()),
                None => None,
            }
        } else {
            None
        }
    }
}

/// States a later folder scan may overwrite: the task has not produced a result yet.
pub open spec fn refreshable(state: Seq<char>) -> bool {
    state == "off"@ || state == "detected"@ || state == "waiting"@
}

pub fn should_refresh_from_scan(state: &str) -> (b: bool)
    ensures
        b == refreshable(state@),
{
    str_eq(state, "off") || str_eq(state, "detected") || str_eq(state, "waiting")
}

pub open spec fn initial_entry(seed: SeedV, at: Seq<char>) -> TaskStateV {
    TaskStateV {
        task_id: seed.task_id,
        state: seed.state,
        code: None,
        source_csv_path: seed.source_csv_path,
        csv_fingerprint: seed.csv_fingerprint,
        processed_at: None,
        result: None,
        accepted: no_acceptance(),
        audit_log: seq![
            AuditV {
                at,
                event: "initialized_from_scan"@,
                message: "Initialized task state as '"@ + seed.state + "'"@,
                state: Some(seed.state),
                code: None,
                source_csv_path: seed.source_csv_path,
                csv_fingerprint: seed.csv_fingerprint,
            },
        ],
    }
}

/// The entry after a scan seed met an existing entry.
pub open spec fn seeded_entry(e: TaskStateV, seed: SeedV) -> TaskStateV {
    let restate = refreshable(e.state) && e.state != seed.state;
    TaskStateV {
        state: if restate {
            seed.state
        } else {
            e.state
        },
        code: if restate {
            None
        } else {
            e.code
        },
        source_csv_path: if e.source_csv_path.is_none() && seed.source_csv_path.is_some() {
            seed.source_csv_path
        } else {
            e.source_csv_path
        },
        csv_fingerprint: if e.csv_fingerprint.is_none() && seed.csv_fingerprint.is_some() {
            seed.csv_fingerprint
        } else {
            e.csv_fingerprint
        },
        ..e
    }
}

pub open spec fn seed_changes(e: TaskStateV, seed: SeedV) -> bool {
    (refreshable(e.state) && e.state != seed.state) || (e.source_csv_path.is_none()
        && seed.source_csv_path.is_some()) || (e.csv_fingerprint.is_none()
        && seed.csv_fingerprint.is_some())
}

pub open spec fn apply_seed(m: Map<Seq<char>, TaskStateV>, seed: SeedV, at: Seq<char>) -> (Map<
    Seq<char>,
    TaskStateV,
>, bool) {
    if m.contains_key(seed.task_id) {
        let e = m[seed.task_id];
        (m.insert(seed.task_id, seeded_entry(e, seed)), seed_changes(e, seed))
    } else {
        (m.insert(seed.task_id, initial_entry(seed, at)), true)
    }
}

/// The task map and the "changed" flag after the seeds were applied in order.
pub open spec fn apply_seeds(m: Map<Seq<char>, TaskStateV>, seeds: Seq<SeedV>, at: Seq<char>) -> (Map<
    Seq<char>,
    TaskStateV,
>, bool)
    decreases seeds.len(),
{
    if seeds.len() == 0 {
        (m, false)
    } else {
        let (m1, c1) = apply_seeds(m, seeds.drop_last(), at);
        let (m2, c2) = apply_seed(m1, seeds.last(), at);
        (m2, c1 || c2)
    }
}

pub open spec fn seeds_view(seeds: Seq<TaskStateSeed>) -> Seq<SeedV> {
    seeds.map_values(|s: TaskStateSeed| s@)
}

impl TaskAcceptance {
    pub fn duplicate(&self) -> (r: Self)
        ensures
            r@ == self@,
    {
        TaskAcceptance {
            accepted: self.accepted,
            accepted_at: clone_opt(&self.accepted_at),
            accepted_by: clone_opt(&self.accepted_by),
            reason: clone_opt(&self.reason),
        }
    }
}

fn initial_task_state(seed: &TaskStateSeed, at: &str) -> (e: UnitTaskState)
    ensures
        e@ == initial_entry(seed@, at@),
{
    let message = concat(&concat("Initialized task state as '", seed.state.as_str()), "'");
    let mut audit_log = Vec::new();
    audit_log.push(
        UnitAuditEntry {
            at: at.to_owned(),
            event: concat("initialized_from_scan", ""),
            message,
            state: Some(seed.state.clone()),
            code: None,
            source_csv_path: clone_opt(&seed.source_csv_path),
            csv_fingerprint: clone_opt(&seed.csv_fingerprint),
        },
    );
    let e = UnitTaskState {
        task_id: seed.task_id.clone(),
        state: seed.state.clone(),
        code: None,
        source_csv_path: clone_opt(&seed.source_csv_path),
        csv_fingerprint: clone_opt(&seed.csv_fingerprint),
        processed_at: None,
        result: None,
        accepted: TaskAcceptance::default(),
        audit_log,
    };
    proof {
        reveal_strlit("");
        assert(e@.audit_log =~= initial_entry(seed@, at@).audit_log);
    }
    e
}

/// Applies one seed to the map; true when the map changed.
fn apply_one_seed(tasks: &mut StrMap<UnitTaskState>, seed: &TaskStateSeed, at: &str) -> (changed:
    bool)
    ensures
        (tasks_view(final(tasks)@), changed) == apply_seed(tasks_view(old(tasks)@), seed@, at@),
{
    let ghost before = tasks_view(tasks@);
    match tasks.remove(seed.task_id.as_str()) {
        Some(mut entry) => {
            let ghost e = entry@;
            assert(before[seed@.task_id] == e);
            let mut changed = false;
            if should_refresh_from_scan(entry.state.as_str()) {
                if !str_eq(entry.state.as_str(), seed.state.as_str()) {
                    entry.state = seed.state.clone();
                    entry.code = None;
                    changed = true;
                }
            }
            if entry.source_csv_path.is_none() && seed.source_csv_path.is_some() {
                entry.source_csv_path = clone_opt(&seed.source_csv_path);
                changed = true;
            }
            if entry.csv_fingerprint.is_none() && seed.csv_fingerprint.is_some() {
                entry.csv_fingerprint = clone_opt(&seed.csv_fingerprint);
                changed = true;
            }
            assert(entry@ =~= seeded_entry(e, seed@));
            tasks.insert(seed.task_id.clone(), entry);
            assert(tasks_view(tasks@) =~= before.insert(seed@.task_id, seeded_entry(e, seed@)));
            changed
        },
        None => {
            let entry = initial_task_state(seed, at);
            tasks.insert(seed.task_id.clone(), entry);
            assert(tasks_view(tasks@) =~= before.insert(seed@.task_id, initial_entry(seed@, at@)));
            true
        },
    }
}

/// Adds an entry for each seed's task that has none, and refreshes entries that still wait
/// for a result. True when anything changed.
pub fn ensure_task_entries_at(state: &mut UnitState, seeds: &[TaskStateSeed], at: &str) -> (changed:
    bool)
    ensures
        (final(state)@.tasks, changed) == apply_seeds(old(state)@.tasks, seeds_view(seeds@), at@),
        final(state)@.schema_version == old(state)@.schema_version,
        final(state)@.complete == old(state)@.complete,
        final(state)@.problems == old(state)@.problems,
{
    let mut changed = false;
    for i in 0..seeds.len()
        invariant
            (state@.tasks, changed) == apply_seeds(
                old(state)@.tasks,
                seeds_view(seeds@).take(i as int),
                at@,
            ),
            state@.schema_version == old(state)@.schema_version,
            state@.complete == old(state)@.complete,
            state@.problems == old(state)@.problems,
    {
        let c = apply_one_seed(&mut state.tasks, &seeds[i], at);
        changed = changed || c;
        proof {
            assert(seeds_view(seeds@).take(i + 1).drop_last() =~= seeds_view(seeds@).take(
                i as int,
            ));
        }
    }
    proof {
        assert(seeds_view(seeds@).take(seeds@.len() as int) =~= seeds_view(seeds@));
    }
    changed
}

} // verus!

verus! {

/// Calls `chrono::Local::now` and formats the instant with `DateTime::to_rfc3339`. Nothing is
/// stated of the result: it is the machine's local time when called.
#[verifier::external_body]
pub fn now_string() -> String {
    chrono::Local::now().to_rfc3339()
}

/// `ensure_task_entries_at` stamped with the local time now.
pub fn ensure_task_entries(state: &mut UnitState, seeds: &[TaskStateSeed]) -> (changed: bool)
    ensures
        exists|at: Seq<char>|
            (final(state)@.tasks, changed) == apply_seeds(old(state)@.tasks, seeds_view(seeds@), at),
        final(state)@.schema_version == old(state)@.schema_version,
        final(state)@.complete == old(state)@.complete,
        final(state)@.problems == old(state)@.problems,
{
    let at = now_string();
    ensure_task_entries_at(state, seeds, at.as_str())
}

/// The Complete receipt after recording `event_key`, and whether it changed.
pub open spec fn record_complete_spec(c: Option<ReceiptV>, event_key: Seq<char>, at: Seq<char>) -> (Option<ReceiptV>, bool) {
    if c.is_some() && c.unwrap().event_key == event_key {
        (c, false)
    } else {
        (Some(ReceiptV { event_key, accepted_at: at }), true)
    }
}

/// The Problem receipts after recording `event_key` for a task, and whether they changed.
pub open spec fn record_problem_spec(
    p: Map<Seq<char>, ReceiptV>,
    task_id: Seq<char>,
    event_key: Seq<char>,
    at: Seq<char>,
) -> (Map<Seq<char>, ReceiptV>, bool) {
    if p.contains_key(task_id) && p[task_id].event_key == event_key {
        (p, false)
    } else {
        (p.insert(task_id, ReceiptV { event_key, accepted_at: at }), true)
    }
}

/// The durable receipt of the unit-level Complete notification, if one exists.
pub fn get_complete_notification_receipt(state: &UnitState) -> (r: Option<NotificationReceipt>)
    ensures
        opt_receipt_view(r) == state@.complete,
{
    match &state.notification_receipts.complete {
        Some(receipt) => Some(receipt.duplicate()),
        None => None,
    }
}

/// Records that the Complete event was accepted. True when the state changed; recording the
/// same event key again keeps the first acceptance time and changes nothing.
pub fn record_complete_notification_receipt(
    state: &mut UnitState,
    event_key: &str,
    accepted_at: &str,
) -> (changed: bool)
    ensures
        (final(state)@.complete, changed) == record_complete_spec(
            old(state)@.complete,
            event_key@,
            accepted_at@,
        ),
        final(state)@.tasks == old(state)@.tasks,
        final(state)@.problems == old(state)@.problems,
        final(state)@.schema_version == old(state)@.schema_version,
{
    let same = match &state.notification_receipts.complete {
        Some(receipt) => str_eq(receipt.event_key.as_str(), event_key),
        None => false,
    };
    if same {
        return false;
    }
    state.notification_receipts.complete = Some(
        NotificationReceipt { event_key: event_key.to_owned(), accepted_at: accepted_at.to_owned() },
    );
    true
}

/// The durable Problem receipt of one task, if one exists.
pub fn get_problem_notification_receipt(state: &UnitState, task_id: &str) -> (r: Option<
    NotificationReceipt,
>)
    ensures
        match r {
            Some(receipt) => state@.problems.contains_key(task_id@) && receipt@
                == state@.problems[task_id@],
            None => !state@.problems.contains_key(task_id@),
        },
{
    match state.notification_receipts.problems.get(task_id) {
        Some(receipt) => Some(receipt.duplicate()),
        None => None,
    }
}

/// Records that a task's Problem event was accepted. True when the state changed; recording the
/// same event key for the task again keeps the first acceptance time and changes nothing.
pub fn record_problem_notification_receipt(
    state: &mut UnitState,
    task_id: &str,
    event_key: &str,
    accepted_at: &str,
) -> (changed: bool)
    ensures
        (final(state)@.problems, changed) == record_problem_spec(
            old(state)@.problems,
            task_id@,
            event_key@,
            accepted_at@,
        ),
        final(state)@.tasks == old(state)@.tasks,
        final(state)@.complete == old(state)@.complete,
        final(state)@.schema_version == old(state)@.schema_version,
{
    let same = match state.notification_receipts.problems.get(task_id) {
        Some(receipt) => str_eq(receipt.event_key.as_str(), event_key),
        None => false,
    };
    if same {
        return false;
    }
    let ghost before = state.notification_receipts.problems@;
    state.notification_receipts.problems.insert(
        task_id.to_owned(),
        NotificationReceipt { event_key: event_key.to_owned(), accepted_at: accepted_at.to_owned() },
    );
    proof {
        assert(receipts_view(state.notification_receipts.problems@) =~= receipts_view(before).insert(
            task_id@,
            ReceiptV { event_key: event_key@, accepted_at: accepted_at@ },
        ));
    }
    true
}

/// The keys of a list of task ids.
pub open spec fn id_set(ids: Seq<String>) -> Set<Seq<char>> {
    Set::new(|k: Seq<char>| exists|i: int| 0 <= i < ids.len() && #[trigger] ids[i]@ == k)
}

/// Clears the Problem receipts of tasks seen recovered or passed. True when a receipt was
/// removed; tasks without receipts change nothing.
pub fn clear_problem_notification_receipts(
    state: &mut UnitState,
    recovered_or_passed_task_ids: &[String],
) -> (changed: bool)
    ensures
        final(state)@.problems == old(state)@.problems.remove_keys(
            id_set(recovered_or_passed_task_ids@),
        ),
        changed == exists|k: Seq<char>|
            id_set(recovered_or_passed_task_ids@).contains(k) && old(state)@.problems.contains_key(
                k,
            ),
        final(state)@.tasks == old(state)@.tasks,
        final(state)@.complete == old(state)@.complete,
        final(state)@.schema_version == old(state)@.schema_version,
{
    let ids = recovered_or_passed_task_ids;
    let ghost original = state@.problems;
    let mut changed = false;
    for i in 0..ids.len()
        invariant
            state@.problems == original.remove_keys(id_set(ids@.take(i as int))),
            changed == exists|k: Seq<char>|
                id_set(ids@.take(i as int)).contains(k) && original.contains_key(k),
            state@.tasks == old(state)@.tasks,
            state@.complete == old(state)@.complete,
            state@.schema_version == old(state)@.schema_version,
            original == old(state)@.problems,
    {
        let ghost before = state@.problems;
        let removed = state.notification_receipts.problems.remove(ids[i].as_str());
        let ghost k = ids@[i as int]@;
        proof {
            assert(id_set(ids@.take(i + 1)) =~= id_set(ids@.take(i as int)).insert(k)) by {
                assert forall|x: Seq<char>| id_set(ids@.take(i + 1)).contains(x) implies id_set(
                    ids@.take(i as int),
                ).insert(k).contains(x) by {
                    let j = choose|j: int|
                        0 <= j < ids@.take(i + 1).len() && #[trigger] ids@.take(i + 1)[j]@ == x;
                    if j < i {
                        assert(ids@.take(i as int)[j]@ == x);
                    }
                }
                assert forall|x: Seq<char>| id_set(ids@.take(i as int)).insert(k).contains(
                    x,
                ) implies id_set(ids@.take(i + 1)).contains(x) by {
                    if x == k {
                        assert(ids@.take(i + 1)[i as int]@ == x);
                    } else {
                        let j = choose|j: int|
                            0 <= j < ids@.take(i as int).len() && #[trigger] ids@.take(
                                i as int,
                            )[j]@ == x;
                        assert(ids@.take(i + 1)[j]@ == x);
                    }
                }
            }
            assert(state@.problems =~= before.remove(k));
            assert(state@.problems =~= original.remove_keys(id_set(ids@.take(i + 1))));
            if removed.is_some() {
                assert(before.contains_key(k));
                assert(original.contains_key(k));
                assert(id_set(ids@.take(i + 1)).contains(k));
            }
        }
        changed = changed || removed.is_some();
        proof {
            if changed {
                if removed.is_none() {
                    let x = choose|x: Seq<char>|
                        id_set(ids@.take(i as int)).contains(x) && original.contains_key(x);
                    assert(id_set(ids@.take(i + 1)).contains(x));
                }
            } else {
                assert forall|x: Seq<char>|
                    id_set(ids@.take(i + 1)).contains(x) implies !original.contains_key(x) by {
                    if x != k {
                        assert(id_set(ids@.take(i as int)).contains(x));
                    } else {
                        assert(!before.contains_key(k));
                        assert(!id_set(ids@.take(i as int)).contains(k) || !original.contains_key(
                            k,
                        ));
                    }
                }
            }
        }
    }
    proof {
        assert(ids@.take(ids@.len() as int) =~= ids@);
    }
    changed
}

} // verus!

verus! {

pub open spec fn unseen_entry(task_id: Seq<char>) -> TaskStateV {
    TaskStateV {
        task_id,
        state: "off"@,
        code: None,
        source_csv_path: None,
        csv_fingerprint: None,
        processed_at: None,
        result: None,
        accepted: no_acceptance(),
        audit_log: seq![],
    }
}

pub open spec fn outcome_event(message: Seq<char>) -> Seq<char> {
    if contains(message, "already processed from the same CSV"@) {
        "idempotent_skip"@
    } else {
        "processed"@
    }
}

/// The entry after a processor outcome was recorded. A new result replaces any earlier
/// acceptance of a failure.
pub open spec fn recorded_entry(
    m: Map<Seq<char>, TaskStateV>,
    task_id: Seq<char>,
    r: OutcomeV,
    at: Seq<char>,
) -> TaskStateV {
    let e = if m.contains_key(task_id) {
        m[task_id]
    } else {
        unseen_entry(task_id)
    };
    TaskStateV {
        state: r.state,
        code: Some(r.code),
        source_csv_path: r.source_csv_path,
        csv_fingerprint: r.csv_fingerprint,
        processed_at: Some(at),
        result: Some(r.message),
        accepted: no_acceptance(),
        audit_log: e.audit_log.push(
            AuditV {
                at,
                event: outcome_event(r.message),
                message: r.message,
                state: Some(r.state),
                code: Some(r.code),
                source_csv_path: r.source_csv_path,
                csv_fingerprint: r.csv_fingerprint,
            },
        ),
        ..e
    }
}

pub open spec fn record_outcome(
    m: Map<Seq<char>, TaskStateV>,
    task_id: Seq<char>,
    r: OutcomeV,
    at: Seq<char>,
) -> Map<Seq<char>, TaskStateV> {
    m.insert(task_id, recorded_entry(m, task_id, r, at))
}

/// The task map after the outcomes were recorded in order.
pub open spec fn record_outcomes(
    m: Map<Seq<char>, TaskStateV>,
    results: Seq<(Seq<char>, OutcomeV)>,
    at: Seq<char>,
) -> Map<Seq<char>, TaskStateV>
    decreases results.len(),
{
    if results.len() == 0 {
        m
    } else {
        let m1 = record_outcomes(m, results.drop_last(), at);
        record_outcome(m1, results.last().0, results.last().1, at)
    }
}

pub open spec fn results_view(results: Seq<(String, ProcessorResult)>) -> Seq<(Seq<char>, OutcomeV)> {
    results.map_values(|p: (String, ProcessorResult)| (p.0@, outcome_view(p.1)))
}

impl UnitAuditEntry {
    pub fn duplicate(&self) -> (r: Self)
        ensures
            r@ == self@,
    {
        UnitAuditEntry {
            at: self.at.clone(),
            event: self.event.clone(),
            message: self.message.clone(),
            state: clone_opt(&self.state),
            code: self.code,
            source_csv_path: clone_opt(&self.source_csv_path),
            csv_fingerprint: clone_opt(&self.csv_fingerprint),
        }
    }
}

/// Records one processor outcome for a task at the given time.
pub fn record_processor_result(
    state: &mut UnitState,
    task_id: &str,
    result: &ProcessorResult,
    at: &str,
)
    ensures
        final(state)@.tasks == record_outcome(old(state)@.tasks, task_id@, outcome_view(*result), at@),
        final(state)@.schema_version == old(state)@.schema_version,
        final(state)@.complete == old(state)@.complete,
        final(state)@.problems == old(state)@.problems,
{
    let ghost before = state@.tasks;
    let mut entry = match state.tasks.remove(task_id) {
        Some(e) => e,
        None => {
            let e = UnitTaskState {
                task_id: task_id.to_owned(),
                state: concat("off", ""),
                code: None,
                source_csv_path: None,
                csv_fingerprint: None,
                processed_at: None,
                result: None,
                accepted: TaskAcceptance::default(),
                audit_log: Vec::new(),
            };
            proof {
                reveal_strlit("");
                assert(e@.state =~= "off"@);
                assert(e@.audit_log =~= Seq::<AuditV>::empty());
                assert(e@ == unseen_entry(task_id@));
            }
            e
        },
    };
    let event = if contains_str(result.message.as_str(), "already processed from the same CSV") {
        concat("idempotent_skip", "")
    } else {
        concat("processed", "")
    };
    proof {
        reveal_strlit("");
        assert(event@ == outcome_event(result.message@));
    }
    let ghost prior = entry@;
    assert(prior == (if before.contains_key(task_id@) {
        before[task_id@]
    } else {
        unseen_entry(task_id@)
    }));
    entry.state = result.state.clone();
    entry.code = Some(result.code);
    entry.source_csv_path = clone_opt(&result.source_csv_path);
    entry.csv_fingerprint = clone_opt(&result.csv_fingerprint);
    entry.processed_at = Some(at.to_owned());
    entry.result = Some(result.message.clone());
    entry.accepted = TaskAcceptance::default();
    entry.audit_log.push(
        UnitAuditEntry {
            at: at.to_owned(),
            event,
            message: result.message.clone(),
            state: Some(result.state.clone()),
            code: Some(result.code),
            source_csv_path: clone_opt(&result.source_csv_path),
            csv_fingerprint: clone_opt(&result.csv_fingerprint),
        },
    );
    assert(entry@.audit_log =~= recorded_entry(
        before,
        task_id@,
        outcome_view(*result),
        at@,
    ).audit_log);
    assert(entry@ == recorded_entry(before, task_id@, outcome_view(*result), at@));
    state.tasks.insert(task_id.to_owned(), entry);
    assert(state@.tasks =~= record_outcome(before, task_id@, outcome_view(*result), at@));
}

/// Records processor outcomes in order, all at the given time.
pub fn record_processor_results(
    state: &mut UnitState,
    results: &[(String, ProcessorResult)],
    at: &str,
)
    ensures
        final(state)@.tasks == record_outcomes(old(state)@.tasks, results_view(results@), at@),
        final(state)@.schema_version == old(state)@.schema_version,
        final(state)@.complete == old(state)@.complete,
        final(state)@.problems == old(state)@.problems,
{
    for i in 0..results.len()
        invariant
            state@.tasks == record_outcomes(
                old(state)@.tasks,
                results_view(results@).take(i as int),
                at@,
            ),
            state@.schema_version == old(state)@.schema_version,
            state@.complete == old(state)@.complete,
            state@.problems == old(state)@.problems,
    {
        record_processor_result(state, results[i].0.as_str(), &results[i].1, at);
        proof {
            assert(results_view(results@).take(i + 1).drop_last() =~= results_view(results@).take(
                i as int,
            ));
        }
    }
    proof {
        assert(results_view(results@).take(results@.len() as int) =~= results_view(results@));
    }
}

/// Why an operator's acceptance of a task failure was refused.
#[derive(Debug, Clone, Copy, PartialEq, Eq, Structural)]
pub enum AcceptanceRefusal {
    /// The task has no recorded state.
    TaskStateMissing,
    /// The task's recorded state is not a failure.
    NotFailed,
}

pub open spec fn accepted_entry(e: TaskStateV, accepted_by: Seq<char>, reason: Seq<char>, at: Seq<char>) -> TaskStateV {
    TaskStateV {
        accepted: AcceptanceV {
            accepted: true,
            accepted_at: Some(at),
            accepted_by: Some(accepted_by),
            reason: Some(reason),
        },
        audit_log: e.audit_log.push(
            AuditV {
                at,
                event: "accepted_failure"@,
                message: reason,
                state: Some(e.state),
                code: e.code,
                source_csv_path: e.source_csv_path,
                csv_fingerprint: e.csv_fingerprint,
            },
        ),
        ..e
    }
}

/// Marks a failed task as accepted by the operator, so that it no longer blocks printing.
/// Only a task whose recorded state is "fail" can be accepted.
pub fn accept_task_failure(
    state: &mut UnitState,
    task_id: &str,
    accepted_by: &str,
    reason: &str,
    at: &str,
) -> (r: Result<(), AcceptanceRefusal>)
    ensures
        !old(state)@.tasks.contains_key(task_id@) ==> r == Err::<(), AcceptanceRefusal>(
            AcceptanceRefusal::TaskStateMissing,
        ) && final(state)@ == old(state)@,
        old(state)@.tasks.contains_key(task_id@) && old(state)@.tasks[task_id@].state != "fail"@
            ==> r == Err::<(), AcceptanceRefusal>(AcceptanceRefusal::NotFailed) && final(state)@
            == old(state)@,
        old(state)@.tasks.contains_key(task_id@) && old(state)@.tasks[task_id@].state == "fail"@
            ==> r is Ok && final(state)@.tasks == old(state)@.tasks.insert(
            task_id@,
            accepted_entry(old(state)@.tasks[task_id@], accepted_by@, reason@, at@),
        ),
        final(state)@.schema_version == old(state)@.schema_version,
        final(state)@.complete == old(state)@.complete,
        final(state)@.problems == old(state)@.problems,
{
    let ghost before = state@.tasks;
    let failed = match state.tasks.get(task_id) {
        None => {
            return Err(AcceptanceRefusal::TaskStateMissing);
        },
        Some(entry) => str_eq(entry.state.as_str(), "fail"),
    };
    if !failed {
        return Err(AcceptanceRefusal::NotFailed);
    }
    let mut entry = match state.tasks.remove(task_id) {
        Some(e) => e,
        None => {
            return Err(AcceptanceRefusal::TaskStateMissing);
        },
    };
    let ghost e = entry@;
    entry.accepted = TaskAcceptance {
        accepted: true,
        accepted_at: Some(at.to_owned()),
        accepted_by: Some(accepted_by.to_owned()),
        reason: Some(reason.to_owned()),
    };
    entry.audit_log.push(
        UnitAuditEntry {
            at: at.to_owned(),
            event: concat("accepted_failure", ""),
            message: reason.to_owned(),
            state: Some(entry.state.clone()),
            code: entry.code,
            source_csv_path: clone_opt(&entry.source_csv_path),
            csv_fingerprint: clone_opt(&entry.csv_fingerprint),
        },
    );
    proof {
        reveal_strlit("");
    }
    assert(entry@.audit_log =~= accepted_entry(e, accepted_by@, reason@, at@).audit_log);
    assert(entry@ == accepted_entry(e, accepted_by@, reason@, at@));
    state.tasks.insert(task_id.to_owned(), entry);
    assert(state@.tasks =~= before.insert(task_id@, accepted_entry(e, accepted_by@, reason@, at@)));
    Ok(())
}

/// Law: recording the same Problem event key for a task twice changes nothing the second time,
/// and the first acceptance time is kept.
pub proof fn law_problem_receipt_record_is_idempotent(
    p: Map<Seq<char>, ReceiptV>,
    task_id: Seq<char>,
    event_key: Seq<char>,
    first_at: Seq<char>,
    later_at: Seq<char>,
)
    ensures
        ({
            let (p1, _) = record_problem_spec(p, task_id, event_key, first_at);
            &&& record_problem_spec(p1, task_id, event_key, later_at) == (p1, false)
            &&& p1.contains_key(task_id)
            &&& p1[task_id].event_key == event_key
        }),
{
}

/// Law: recording the same Complete event key twice changes nothing the second time, and the
/// first acceptance time is kept.
pub proof fn law_complete_receipt_record_is_idempotent(
    c: Option<ReceiptV>,
    event_key: Seq<char>,
    first_at: Seq<char>,
    later_at: Seq<char>,
)
    ensures
        ({
            let (c1, _) = record_complete_spec(c, event_key, first_at);
            &&& record_complete_spec(c1, event_key, later_at) == (c1, false)
            &&& c1 is Some && c1.unwrap().event_key == event_key
        }),
{
}

/// Law: after the Problem receipts of some tasks were cleared, none of those tasks keeps a
/// receipt, so clearing them again removes nothing; other tasks keep theirs.
pub proof fn law_cleared_receipts_stay_cleared(p: Map<Seq<char>, ReceiptV>, ids: Set<Seq<char>>)
    ensures
        forall|k: Seq<char>| ids.contains(k) ==> !#[trigger] p.remove_keys(ids).contains_key(k),
        p.remove_keys(ids).remove_keys(ids) == p.remove_keys(ids),
        forall|k: Seq<char>|
            !ids.contains(k) && p.contains_key(k) ==> #[trigger] p.remove_keys(ids).contains_key(k)
                && p.remove_keys(ids)[k] == p[k],
{
    assert(p.remove_keys(ids).remove_keys(ids) =~= p.remove_keys(ids));
}

/// Law: a task whose latest recorded outcome passed is print-ready and reports the outcome's
/// CSV fingerprint as already processed; a recorded failure is not print-ready until accepted.
pub proof fn law_recorded_outcome_decides_print_readiness(
    m: Map<Seq<char>, TaskStateV>,
    task_id: Seq<char>,
    r: OutcomeV,
    at: Seq<char>,
    accepted_by: Seq<char>,
    reason: Seq<char>,
    accepted_at: Seq<char>,
)
    ensures
        ({
            let e = record_outcome(m, task_id, r, at)[task_id];
            &&& is_pass(r.state) ==> print_ready(e) && processed_fingerprint(e) == r.csv_fingerprint
            &&& r.state == "fail"@ ==> !print_ready(e) && print_ready(
                accepted_entry(e, accepted_by, reason, accepted_at),
            )
        }),
{
    reveal_strlit("pass");
    reveal_strlit("fail");
    let e = record_outcome(m, task_id, r, at)[task_id];
    assert(e == recorded_entry(m, task_id, r, at));
    if r.state == "fail"@ {
        assert(r.state[0] == 'f');
        assert("pass"@[0] == 'p');
        assert(!is_pass(e.state));
    }
}

/// Law: recording a new outcome for a task clears any acceptance of an earlier failure.
pub proof fn law_reprocessing_clears_acceptance(
    m: Map<Seq<char>, TaskStateV>,
    task_id: Seq<char>,
    r: OutcomeV,
    at: Seq<char>,
)
    ensures
        !record_outcome(m, task_id, r, at)[task_id].accepted.accepted,
        record_outcome(m, task_id, r, at)[task_id].accepted == no_acceptance(),
{
}

/// Law: accepting a failure does not make the task count as already processed, so a later run
/// processes it again; it only lets the report print.
pub proof fn law_acceptance_does_not_skip_reprocessing(
    e: TaskStateV,
    accepted_by: Seq<char>,
    reason: Seq<char>,
    at: Seq<char>,
)
    requires
        e.state == "fail"@,
    ensures
        processed_fingerprint(accepted_entry(e, accepted_by, reason, at)) is None,
        print_ready(accepted_entry(e, accepted_by, reason, at)),
{
    reveal_strlit("pass");
    reveal_strlit("fail");
    assert(e.state[0] != "pass"@[0]);
}

/// After the seeds were applied, each seed's task has an entry that the seed no longer changes.
proof fn lemma_seeds_settled(m: Map<Seq<char>, TaskStateV>, seeds: Seq<SeedV>, at: Seq<char>)
    requires
        forall|i: int, j: int| 0 <= i < j < seeds.len() ==> seeds[i].task_id != seeds[j].task_id,
    ensures
        forall|i: int|
            0 <= i < seeds.len() ==> apply_seeds(m, seeds, at).0.contains_key(#[trigger] seeds[i].task_id)
                && !seed_changes(apply_seeds(m, seeds, at).0[seeds[i].task_id], seeds[i]),
    decreases seeds.len(),
{
    if seeds.len() > 0 {
        let front = seeds.drop_last();
        lemma_seeds_settled(m, front, at);
        let m1 = apply_seeds(m, front, at).0;
        let s = seeds.last();
        let m2 = apply_seeds(m, seeds, at).0;
        assert(m2 == apply_seed(m1, s, at).0);
        assert forall|i: int| 0 <= i < seeds.len() implies m2.contains_key(#[trigger] seeds[i].task_id)
            && !seed_changes(m2[seeds[i].task_id], seeds[i]) by {
            if i < seeds.len() - 1 {
                assert(seeds[i] == front[i]);
                assert(seeds[i].task_id != s.task_id);
            }
        }
    }
}

/// Seeds that a map already settles leave it as it is.
proof fn lemma_settled_seeds_change_nothing(m: Map<Seq<char>, TaskStateV>, seeds: Seq<SeedV>, at: Seq<char>)
    requires
        forall|i: int|
            0 <= i < seeds.len() ==> m.contains_key(#[trigger] seeds[i].task_id) && !seed_changes(
                m[seeds[i].task_id],
                seeds[i],
            ),
    ensures
        apply_seeds(m, seeds, at) == (m, false),
    decreases seeds.len(),
{
    if seeds.len() > 0 {
        let front = seeds.drop_last();
        assert forall|i: int| 0 <= i < front.len() implies m.contains_key(#[trigger] front[i].task_id)
            && !seed_changes(m[front[i].task_id], front[i]) by {
            assert(front[i] == seeds[i]);
        }
        lemma_settled_seeds_change_nothing(m, front, at);
        let s = seeds.last();
        assert(s == seeds[seeds.len() - 1]);
        let e = m[s.task_id];
        assert(seeded_entry(e, s) == e);
        assert(m.insert(s.task_id, e) =~= m);
    }
}

/// Law: making sure of the task entries a second time, with the same seeds (one per task), changes
/// nothing, at whatever time.
pub proof fn law_ensure_task_entries_is_idempotent(
    m: Map<Seq<char>, TaskStateV>,
    seeds: Seq<SeedV>,
    first_at: Seq<char>,
    later_at: Seq<char>,
)
    requires
        forall|i: int, j: int| 0 <= i < j < seeds.len() ==> seeds[i].task_id != seeds[j].task_id,
    ensures
        apply_seeds(apply_seeds(m, seeds, first_at).0, seeds, later_at) == (apply_seeds(m, seeds, first_at).0, false),
{
    lemma_seeds_settled(m, seeds, first_at);
    lemma_settled_seeds_change_nothing(apply_seeds(m, seeds, first_at).0, seeds, later_at);
}

/// Law: recording outcomes leaves the entries of tasks they do not name as they were, gives
/// each named task an entry, and leaves the task of the last outcome with that outcome's state,
/// code and CSV fingerprint.
pub proof fn law_recorded_outcomes_touch_only_their_tasks(
    m: Map<Seq<char>, TaskStateV>,
    results: Seq<(Seq<char>, OutcomeV)>,
    at: Seq<char>,
)
    ensures
        forall|k: Seq<char>|
            (forall|i: int| 0 <= i < results.len() ==> results[i].0 != k) ==> (#[trigger] record_outcomes(
                m,
                results,
                at,
            ).contains_key(k) == m.contains_key(k) && (m.contains_key(k) ==> record_outcomes(m, results, at)[k]
                == m[k])),
        forall|i: int| 0 <= i < results.len() ==> record_outcomes(m, results, at).contains_key(#[trigger] results[i].0),
        results.len() > 0 ==> ({
            let e = record_outcomes(m, results, at)[results.last().0];
            &&& e.state == results.last().1.state
            &&& e.code == Some(results.last().1.code)
            &&& e.csv_fingerprint == results.last().1.csv_fingerprint
        }),
    decreases results.len(),
{
    if results.len() > 0 {
        let front = results.drop_last();
        law_recorded_outcomes_touch_only_their_tasks(m, front, at);
        assert forall|k: Seq<char>|
            (forall|i: int| 0 <= i < results.len() ==> results[i].0 != k) implies (#[trigger] record_outcomes(
                m,
                results,
                at,
            ).contains_key(k) == m.contains_key(k) && (m.contains_key(k) ==> record_outcomes(m, results, at)[k]
                == m[k])) by {
            assert forall|i: int| 0 <= i < front.len() implies front[i].0 != k by {
                assert(front[i] == results[i]);
            }
            assert(results.last() == results[results.len() - 1]);
        }
        assert forall|i: int| 0 <= i < results.len() implies record_outcomes(m, results, at).contains_key(
            #[trigger] results[i].0,
        ) by {
            if i < results.len() - 1 {
                assert(front[i] == results[i]);
            }
        }
    }
}

/// Law: seeding task entries from a scan never changes whether a task is print-ready, where no
/// seed claims a pass: a task is ready after the seeds exactly when it was before (a new entry is
/// never ready). Only a recorded pass or an accepted failure makes a task ready.
pub proof fn law_seeding_keeps_print_readiness(m: Map<Seq<char>, TaskStateV>, seeds: Seq<SeedV>, at: Seq<char>)
    requires
        forall|i: int| 0 <= i < seeds.len() ==> !is_pass(#[trigger] seeds[i].state),
    ensures
        forall|k: Seq<char>|
            #[trigger] apply_seeds(m, seeds, at).0.contains_key(k) ==> (print_ready(apply_seeds(m, seeds, at).0[k])
                <==> (m.contains_key(k) && print_ready(m[k]))),
        forall|k: Seq<char>| m.contains_key(k) ==> #[trigger] apply_seeds(m, seeds, at).0.contains_key(k),
    decreases seeds.len(),
{
    reveal_strlit("pass");
    reveal_strlit("off");
    reveal_strlit("detected");
    reveal_strlit("waiting");
    if seeds.len() > 0 {
        let front = seeds.drop_last();
        assert forall|i: int| 0 <= i < front.len() implies !is_pass(#[trigger] front[i].state) by {
            assert(front[i] == seeds[i]);
        }
        law_seeding_keeps_print_readiness(m, front, at);
        let s = seeds.last();
        assert(!is_pass(s.state)) by {
            assert(s == seeds[seeds.len() - 1]);
        }
        let m1 = apply_seeds(m, front, at).0;
        if m1.contains_key(s.task_id) {
            let e = m1[s.task_id];
            if is_pass(e.state) {
                assert(!refreshable(e.state)) by {
                    assert(e.state[0] == 'p');
                }
            }
        }
    }
}

/// Law: a failure the operator accepted lets the report print but is not taken as processed;
/// processing the task again records the new outcome, with no acceptance, so a new failure
/// blocks printing again.
pub proof fn law_accepted_failure_is_reprocessed(
    m: Map<Seq<char>, TaskStateV>,
    task_id: Seq<char>,
    accepted_by: Seq<char>,
    reason: Seq<char>,
    accepted_at: Seq<char>,
    r: OutcomeV,
    at: Seq<char>,
)
    requires
        m.contains_key(task_id),
        m[task_id].state == "fail"@,
    ensures
        ({
            let accepted = m.insert(task_id, accepted_entry(m[task_id], accepted_by, reason, accepted_at));
            let again = record_outcome(accepted, task_id, r, at);
            &&& print_ready(accepted[task_id])
            &&& processed_fingerprint(accepted[task_id]) is None
            &&& again[task_id].state == r.state
            &&& !again[task_id].accepted.accepted
            &&& (r.state == "fail"@ ==> !print_ready(again[task_id]))
        }),
{
    reveal_strlit("pass");
    reveal_strlit("fail");
    law_acceptance_does_not_skip_reprocessing(m[task_id], accepted_by, reason, accepted_at);
    if r.state == "fail"@ {
        assert(r.state[0] != "pass"@[0]);
    }
}

/// Law: a recorded Problem receipt is read back for its task, with its event key; the receipts
/// of other tasks are untouched; it changed exactly when the task did not already hold that key.
pub proof fn law_problem_receipt_reads_back(
    p: Map<Seq<char>, ReceiptV>,
    task_id: Seq<char>,
    event_key: Seq<char>,
    at: Seq<char>,
)
    ensures
        ({
            let (p1, changed) = record_problem_spec(p, task_id, event_key, at);
            &&& p1.contains_key(task_id)
            &&& p1[task_id].event_key == event_key
            &&& changed <==> !(p.contains_key(task_id) && p[task_id].event_key == event_key)
            &&& changed ==> p1[task_id].accepted_at == at
            &&& forall|k: Seq<char>| k != task_id ==> (#[trigger] p1.contains_key(k) == p.contains_key(k) && (
                p.contains_key(k) ==> p1[k] == p[k]))
        }),
{
}

/// Law: a recorded Complete receipt is read back with its event key; it changed exactly when the
/// unit did not already hold that key.
pub proof fn law_complete_receipt_reads_back(c: Option<ReceiptV>, event_key: Seq<char>, at: Seq<char>)
    ensures
        ({
            let (c1, changed) = record_complete_spec(c, event_key, at);
            &&& c1 is Some && c1.unwrap().event_key == event_key
            &&& changed <==> !(c is Some && c.unwrap().event_key == event_key)
            &&& changed ==> c1.unwrap().accepted_at == at
        }),
{
}

/// What one seed makes of its task's entry: a new entry from the seed; otherwise the state moves
/// to the seed's only while it is "off", "detected" or "waiting" (its code then cleared), and a
/// CSV path or fingerprint already there is never replaced.
pub open spec fn seed_effect(before: Option<TaskStateV>, seed: SeedV, at: Seq<char>, after: TaskStateV) -> bool {
    match before {
        None => after == initial_entry(seed, at),
        Some(e) => {
            &&& after.state == (if refreshable(e.state) { seed.state } else { e.state })
            &&& after.code == (if refreshable(e.state) && e.state != seed.state { None } else { e.code })
            &&& (e.source_csv_path is Some ==> after.source_csv_path == e.source_csv_path)
            &&& (e.source_csv_path is None ==> after.source_csv_path == seed.source_csv_path)
            &&& (e.csv_fingerprint is Some ==> after.csv_fingerprint == e.csv_fingerprint)
            &&& (e.csv_fingerprint is None ==> after.csv_fingerprint == seed.csv_fingerprint)
            &&& after.accepted == e.accepted
            &&& after.audit_log == e.audit_log
            &&& after.result == e.result
            &&& after.processed_at == e.processed_at
        },
    }
}

/// The seeds applied leave each seeded task as `seed_effect` says and every other entry as it was;
/// the flag says whether anything changed.
proof fn lemma_seeds_effect(m: Map<Seq<char>, TaskStateV>, seeds: Seq<SeedV>, at: Seq<char>)
    requires
        forall|i: int, j: int| 0 <= i < j < seeds.len() ==> seeds[i].task_id != seeds[j].task_id,
    ensures
        forall|i: int|
            0 <= i < seeds.len() ==> apply_seeds(m, seeds, at).0.contains_key(#[trigger] seeds[i].task_id)
                && seed_effect(
                if m.contains_key(seeds[i].task_id) {
                    Some(m[seeds[i].task_id])
                } else {
                    None
                },
                seeds[i],
                at,
                apply_seeds(m, seeds, at).0[seeds[i].task_id],
            ),
        forall|k: Seq<char>|
            (forall|i: int| 0 <= i < seeds.len() ==> seeds[i].task_id != k) ==> (#[trigger] apply_seeds(
                m,
                seeds,
                at,
            ).0.contains_key(k) == m.contains_key(k) && (m.contains_key(k) ==> apply_seeds(m, seeds, at).0[k]
                == m[k])),
        apply_seeds(m, seeds, at).1 <==> apply_seeds(m, seeds, at).0 != m,
    decreases seeds.len(),
{
    reveal_strlit("off");
    reveal_strlit("detected");
    reveal_strlit("waiting");
    if seeds.len() > 0 {
        let front = seeds.drop_last();
        assert forall|i: int, j: int| 0 <= i < j < front.len() implies front[i].task_id != front[j].task_id by {
            assert(front[i] == seeds[i] && front[j] == seeds[j]);
        }
        lemma_seeds_effect(m, front, at);
        let s = seeds.last();
        assert(s == seeds[seeds.len() - 1]);
        let (m1, c1) = apply_seeds(m, front, at);
        let (m2, c2) = apply_seed(m1, s, at);
        assert(apply_seeds(m, seeds, at) == (m2, c1 || c2));
        assert forall|i: int| 0 <= i < front.len() implies front[i].task_id != s.task_id by {
            assert(front[i] == seeds[i]);
        }
        // the last seed's task was untouched by the others
        assert(m1.contains_key(s.task_id) == m.contains_key(s.task_id));
        assert forall|i: int|
            0 <= i < seeds.len() implies m2.contains_key(#[trigger] seeds[i].task_id) && seed_effect(
                if m.contains_key(seeds[i].task_id) {
                    Some(m[seeds[i].task_id])
                } else {
                    None
                },
                seeds[i],
                at,
                m2[seeds[i].task_id],
            ) by {
            if i < seeds.len() - 1 {
                assert(seeds[i] == front[i]);
            }
        }
        assert forall|k: Seq<char>|
            (forall|i: int| 0 <= i < seeds.len() ==> seeds[i].task_id != k) implies (#[trigger] m2.contains_key(k)
                == m.contains_key(k) && (m.contains_key(k) ==> m2[k] == m[k])) by {
            assert forall|i: int| 0 <= i < front.len() implies front[i].task_id != k by {
                assert(front[i] == seeds[i]);
            }
            assert(seeds[seeds.len() - 1].task_id != k);
        }
        // the flag: a change by the last seed shows at its task, which no other seed touched
        if c2 {
            if m1.contains_key(s.task_id) {
                let e = m1[s.task_id];
                assert(m2[s.task_id] == seeded_entry(e, s));
                assert(seeded_entry(e, s) != e);
                if !c1 {
                    assert(m1 == m);
                } else {
                    assert(m1 != m);
                    let w = choose|k: Seq<char>| !(m1.contains_key(k) == m.contains_key(k) && (m.contains_key(k) ==> m1[k] == m[k]));
                    if w == s.task_id {
                    } else {
                        assert(m2.contains_key(w) == m1.contains_key(w));
                    }
                    assert(m2 != m) by {
                        if m2 == m {
                            if w != s.task_id {
                                assert(m1.contains_key(w) == m2.contains_key(w));
                                assert(m1.contains_key(w) ==> m1[w] == m2[w]);
                            }
                        }
                    }
                }
            } else {
                assert(!m.contains_key(s.task_id));
                assert(m2.contains_key(s.task_id));
            }
        } else {
            let e = m1[s.task_id];
            assert(seeded_entry(e, s) == e);
            assert(m2 =~= m1);
        }
    } else {
    }
}

/// Law: making sure of the task entries (with one seed per task) gives every seeded task an entry
/// as `seed_effect` says, leaves the other entries as they were, and reports a change exactly
/// when the entries changed.
pub proof fn law_ensure_task_entries_effect(m: Map<Seq<char>, TaskStateV>, seeds: Seq<SeedV>, at: Seq<char>)
    requires
        forall|i: int, j: int| 0 <= i < j < seeds.len() ==> seeds[i].task_id != seeds[j].task_id,
    ensures
        forall|i: int|
            0 <= i < seeds.len() ==> apply_seeds(m, seeds, at).0.contains_key(#[trigger] seeds[i].task_id)
                && seed_effect(
                if m.contains_key(seeds[i].task_id) {
                    Some(m[seeds[i].task_id])
                } else {
                    None
                },
                seeds[i],
                at,
                apply_seeds(m, seeds, at).0[seeds[i].task_id],
            ),
        forall|k: Seq<char>|
            (forall|i: int| 0 <= i < seeds.len() ==> seeds[i].task_id != k) ==> (#[trigger] apply_seeds(
                m,
                seeds,
                at,
            ).0.contains_key(k) == m.contains_key(k) && (m.contains_key(k) ==> apply_seeds(m, seeds, at).0[k]
                == m[k])),
        apply_seeds(m, seeds, at).1 <==> apply_seeds(m, seeds, at).0 != m,
{
    lemma_seeds_effect(m, seeds, at);
}

} // verus!
