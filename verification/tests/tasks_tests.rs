use pdu_automation::tasks::{automation_tasks, find_task, step_for_breaker, step_for_system, LoadLevel, VoltageSet};

#[test]
fn task_map_matches_legacy_count_and_key_steps() {
    let tasks = automation_tasks();

    assert_eq!(tasks.len(), 65);
    assert_eq!(tasks[0].id, "208v-transformer");
    assert_eq!(tasks[0].detection_steps, vec![14]);
    assert_eq!(tasks[64].id, "breaker-burn-in-8");
    assert_eq!(tasks[64].detection_steps, vec![80]);
    assert_eq!(step_for_breaker(VoltageSet::V415, 8, LoadLevel::Low), 70);
}

#[test]
fn breaker_step_map_matches_legacy() {
    assert_eq!(step_for_breaker(VoltageSet::V208, 1, LoadLevel::Full), 18);
    assert_eq!(step_for_breaker(VoltageSet::V208, 8, LoadLevel::Low), 41);
    assert_eq!(step_for_breaker(VoltageSet::V415, 1, LoadLevel::Full), 47);
    assert_eq!(step_for_breaker(VoltageSet::V415, 8, LoadLevel::Low), 70);
}

#[test]
fn system_steps_follow_each_voltage_block() {
    assert_eq!(step_for_system(VoltageSet::V208, LoadLevel::Full), 15);
    assert_eq!(step_for_system(VoltageSet::V415, LoadLevel::Low), 46);
}

#[test]
fn find_task_returns_the_matching_task() {
    let task = find_task("system-burn-in").expect("burn-in task");
    assert_eq!(task.detection_steps, vec![71, 72]);
    assert_eq!(task.step_display, "71/72");
    assert!(find_task("missing-task").is_none());
}

#[test]
fn task_ids_are_unique() {
    let tasks = pdu_automation::tasks::automation_tasks();
    let mut ids: Vec<&str> = tasks.iter().map(|t| t.id.as_str()).collect();
    assert_eq!(ids.len(), 65);
    ids.sort();
    ids.dedup();
    assert_eq!(ids.len(), 65);
}
