use cli_task_manager::task::Task;
use cli_task_manager::store::{
    load_result, next_save_state, plan_load, start_save, FileState, LoadPlan, SavePaths, SaveState, SaveStep,
    StoreError,
};

fn one_task() -> Vec<Task> {
    vec![Task { id: 4, description: "a".to_string(), completed: true }]
}

fn run(has_dir: bool, outcomes: &[bool]) -> (SaveState, Vec<SaveStep>) {
    let mut state = start_save(has_dir);
    let mut performed = Vec::new();
    for ok in outcomes {
        match state {
            SaveState::Run(step) => {
                performed.push(step);
                state = next_save_state(step, *ok);
            }
            _ => return (state, performed),
        }
    }
    (state, performed)
}

fn paths() -> SavePaths {
    SavePaths {
        dir: Some("/data/app".to_string()),
        target: "/data/app/tasks.json".to_string(),
        temp: "/data/app/tasks.tmp".to_string(),
    }
}

#[test]
fn missing_file_is_the_empty_list() {
    assert_eq!(plan_load(&FileState::Missing), LoadPlan::Empty);
}

#[test]
fn blank_file_is_the_empty_list() {
    assert_eq!(plan_load(&FileState::Text(String::new())), LoadPlan::Empty);
    assert_eq!(plan_load(&FileState::Text(" \n\t \r\n".to_string())), LoadPlan::Empty);
    assert_eq!(plan_load(&FileState::Text("\u{3000}\u{00A0}".to_string())), LoadPlan::Empty);
}

#[test]
fn other_text_is_parsed() {
    assert_eq!(plan_load(&FileState::Text("[]".to_string())), LoadPlan::Parse);
    assert_eq!(plan_load(&FileState::Text("  not json \n".to_string())), LoadPlan::Parse);
    assert_eq!(plan_load(&FileState::Text("\u{200B}".to_string())), LoadPlan::Parse);
}

#[test]
fn unreadable_file_is_a_read_error() {
    assert_eq!(plan_load(&FileState::Unreadable), LoadPlan::ReadFailed);
}

#[test]
fn save_in_which_nothing_fails() {
    let (state, performed) = run(true, &[true; 6]);
    assert_eq!(state, SaveState::Done);
    assert_eq!(
        performed,
        vec![
            SaveStep::CreateDir,
            SaveStep::Serialize,
            SaveStep::CreateTemp,
            SaveStep::WriteTemp,
            SaveStep::SyncTemp,
            SaveStep::Rename,
        ]
    );
}

#[test]
fn save_without_a_directory() {
    assert_eq!(start_save(false), SaveState::Run(SaveStep::Serialize));
    let (state, performed) = run(false, &[true; 5]);
    assert_eq!(state, SaveState::Done);
    assert_eq!(performed.len(), 5);
    assert_eq!(performed[0], SaveStep::Serialize);
    assert_eq!(performed[4], SaveStep::Rename);
}

#[test]
fn save_fails_at_the_step_that_failed() {
    let steps = [
        SaveStep::CreateDir,
        SaveStep::Serialize,
        SaveStep::CreateTemp,
        SaveStep::WriteTemp,
        SaveStep::SyncTemp,
    ];
    for (k, step) in steps.iter().enumerate() {
        let mut outcomes = vec![true; k];
        outcomes.push(false);
        let (state, performed) = run(true, &outcomes);
        assert_eq!(state, SaveState::Failed(*step));
        assert_eq!(performed.len(), k + 1);
        assert!(!performed.contains(&SaveStep::Rename));
    }
}

#[test]
fn failed_rename_removes_the_temporary_file() {
    assert_eq!(
        next_save_state(SaveStep::Rename, false),
        SaveState::Run(SaveStep::RemoveTemp)
    );
    assert_eq!(
        next_save_state(SaveStep::RemoveTemp, true),
        SaveState::Failed(SaveStep::Rename)
    );
    assert_eq!(
        next_save_state(SaveStep::RemoveTemp, false),
        SaveState::Failed(SaveStep::Rename)
    );
    let (state, performed) = run(true, &[true, true, true, true, true, false, false]);
    assert_eq!(state, SaveState::Failed(SaveStep::Rename));
    assert_eq!(performed.len(), 7);
    assert_eq!(performed[6], SaveStep::RemoveTemp);
}

#[test]
fn rename_only_after_sync() {
    assert_eq!(next_save_state(SaveStep::SyncTemp, true), SaveState::Run(SaveStep::Rename));
    assert_eq!(next_save_state(SaveStep::SyncTemp, false), SaveState::Failed(SaveStep::SyncTemp));
    assert_eq!(next_save_state(SaveStep::WriteTemp, true), SaveState::Run(SaveStep::SyncTemp));
    assert_eq!(next_save_state(SaveStep::Rename, true), SaveState::Done);
}

#[test]
fn store_error_messages() {
    assert_eq!(
        StoreError::Read("/d/tasks.json".to_string()).message(),
        "Failed to read tasks file at /d/tasks.json"
    );
    assert_eq!(
        StoreError::Parse("/d/tasks.json".to_string()).message(),
        "Failed to parse tasks file at /d/tasks.json. Ensure it contains valid JSON."
    );
    assert_eq!(
        StoreError::Write(SaveStep::CreateDir, paths()).message(),
        "Failed to create data directory at /data/app"
    );
    assert_eq!(
        StoreError::Write(SaveStep::Serialize, paths()).message(),
        "Failed to serialize tasks to JSON"
    );
    assert_eq!(
        StoreError::Write(SaveStep::CreateTemp, paths()).message(),
        "Failed to create temporary tasks file at /data/app/tasks.tmp"
    );
    assert_eq!(
        StoreError::Write(SaveStep::WriteTemp, paths()).message(),
        "Failed to write tasks to /data/app/tasks.tmp"
    );
    assert_eq!(
        StoreError::Write(SaveStep::SyncTemp, paths()).message(),
        "Failed to flush tasks to /data/app/tasks.tmp"
    );
    assert_eq!(
        StoreError::Write(SaveStep::Rename, paths()).message(),
        "Failed to replace /data/app/tasks.json with /data/app/tasks.tmp"
    );
}

#[test]
fn load_of_nothing_gives_the_empty_list() {
    let plan = plan_load(&FileState::Missing);
    let r = load_result(plan, None, "/d/tasks.json".to_string());
    assert!(matches!(r, Ok(ref tasks) if tasks.is_empty()));
    let plan = plan_load(&FileState::Text("  \n".to_string()));
    let r = load_result(plan, Some(one_task()), "/d/tasks.json".to_string());
    assert!(matches!(r, Ok(ref tasks) if tasks.is_empty()));
}

#[test]
fn load_of_text_that_does_not_parse_is_a_parse_error() {
    let plan = plan_load(&FileState::Text("{ not json".to_string()));
    assert_eq!(plan, LoadPlan::Parse);
    let r = load_result(plan, None, "/d/tasks.json".to_string());
    match r {
        Err(StoreError::Parse(path)) => assert_eq!(path, "/d/tasks.json"),
        _ => panic!("a parse error was expected"),
    }
}

#[test]
fn load_of_text_that_parses_gives_its_list() {
    let plan = plan_load(&FileState::Text("[ ... ]".to_string()));
    let r = load_result(plan, Some(one_task()), "/d/tasks.json".to_string());
    match r {
        Ok(tasks) => {
            assert_eq!(tasks.len(), 1);
            assert!(tasks[0].id == 4 && tasks[0].description == "a" && tasks[0].completed);
        }
        Err(_) => panic!("a list was expected"),
    }
}

#[test]
fn load_of_an_unreadable_file_is_a_read_error() {
    let plan = plan_load(&FileState::Unreadable);
    let r = load_result(plan, None, "/d/tasks.json".to_string());
    match r {
        Err(StoreError::Read(path)) => assert_eq!(path, "/d/tasks.json"),
        _ => panic!("a read error was expected"),
    }
}
