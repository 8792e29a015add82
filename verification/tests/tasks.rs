use chrono::Datelike;
use task_core::error::RepositoryError;
use task_core::models::{Date, DateTime, TaskStatus, Time};
use task_core::tables::TaskTables;

const MISSING_TASK_ID: i64 = 999_999_999;

fn setup() -> TaskTables {
    TaskTables::new()
}

fn date(day_offset: i64) -> Date {
    let d = chrono::NaiveDate::from_ymd_opt(2999, 1, 1).unwrap() + chrono::Duration::days(day_offset);
    Date { year: d.year(), month: d.month(), day: d.day() }
}

fn at(hour: u32, minute: u32, second: u32) -> DateTime {
    DateTime { date: date(0), time: Time { hour, minute, second, nanosecond: 0 } }
}

#[test]
fn create_and_find_task() {
    let mut repo = setup();
    let due = date(1);

    let id = repo.create_task("write tests", 3, due, at(9, 0, 0));

    let task = repo.find_task_by_id(id).expect("task should exist");

    assert_eq!(task.id, id);
    assert_eq!(task.title, "write tests");
    assert_eq!(task.priority, 3);
    assert_eq!(task.due_date, due);
    assert_eq!(task.status, TaskStatus::Pending);

    repo.delete_task(id);
}

#[test]
fn find_task_by_id_returns_none_for_missing_task() {
    let repo = setup();

    let task = repo.find_task_by_id(MISSING_TASK_ID);

    assert!(task.is_none());
}

#[test]
fn list_by_day_returns_only_pending_tasks_for_that_day() {
    let mut repo = setup();
    let due = date(2);

    let pending_id = repo.create_task("due today", 1, due, at(9, 0, 0));
    let done_id = repo.create_task("done today", 1, due, at(9, 0, 1));
    let other_day_id = repo.create_task("due tomorrow", 1, date(3), at(9, 0, 2));

    repo.mark_done(done_id).unwrap();

    let tasks = repo.list_by_day(due);
    let ids: Vec<i64> = tasks.iter().map(|t| t.id).collect();

    assert!(ids.contains(&pending_id));
    assert!(!ids.contains(&done_id));
    assert!(!ids.contains(&other_day_id));

    repo.delete_task(pending_id);
    repo.delete_task(done_id);
    repo.delete_task(other_day_id);
}

#[test]
fn list_all_pending_includes_pending_and_excludes_done() {
    let mut repo = setup();

    let pending_id = repo.create_task("still pending", 1, date(4), at(9, 0, 0));
    let done_id = repo.create_task("finished", 1, date(4), at(9, 0, 1));
    repo.mark_done(done_id).unwrap();

    let tasks = repo.list_all_pending();
    let ids: Vec<i64> = tasks.iter().map(|t| t.id).collect();

    assert!(ids.contains(&pending_id));
    assert!(!ids.contains(&done_id));

    repo.delete_task(pending_id);
    repo.delete_task(done_id);
}

#[test]
fn mark_done_updates_status() {
    let mut repo = setup();
    let id = repo.create_task("finish me", 1, date(5), at(9, 0, 0));

    let task = repo.mark_done(id).expect("mark_done failed");

    assert_eq!(task.id, id);
    assert_eq!(task.status, TaskStatus::Done);

    repo.delete_task(id);
}

#[test]
fn mark_done_missing_task_returns_error() {
    let mut repo = setup();

    let err = repo.mark_done(MISSING_TASK_ID).expect_err("mark_done should fail for a missing task");

    match err {
        RepositoryError::TaskNotFound(id) => assert_eq!(id, MISSING_TASK_ID),
    }
}

#[test]
fn reschedule_updates_due_date() {
    let mut repo = setup();
    let id = repo.create_task("move me", 1, date(6), at(9, 0, 0));
    let new_due = date(7);

    let task = repo.reschedule(id, new_due).expect("task should exist");

    assert_eq!(task.due_date, new_due);

    repo.delete_task(id);
}

#[test]
fn reschedule_missing_task_returns_none() {
    let mut repo = setup();

    let task = repo.reschedule(MISSING_TASK_ID, date(8));

    assert!(task.is_none());
}

#[test]
fn add_note_and_get_task_with_notes() {
    let mut repo = setup();
    let id = repo.create_task("with notes", 1, date(9), at(9, 0, 0));

    repo.add_note(id, "first note", at(9, 1, 0)).unwrap();
    repo.add_note(id, "second note", at(9, 1, 0)).unwrap();

    let (task, notes) = repo.get_task_with_notes(id).expect("task should exist");

    assert_eq!(task.id, id);
    assert_eq!(notes.len(), 2);
    assert_eq!(notes[0].content, "first note");
    assert_eq!(notes[1].content, "second note");
    assert!(notes.iter().all(|n| n.task_id == id));

    repo.delete_task(id);
}

#[test]
fn get_task_with_notes_returns_none_for_missing_task() {
    let repo = setup();

    let result = repo.get_task_with_notes(MISSING_TASK_ID);

    assert!(result.is_none());
}

#[test]
fn delete_task_removes_task_and_cascades_notes() {
    let mut repo = setup();
    let id = repo.create_task("temporary", 1, date(10), at(9, 0, 0));
    repo.add_note(id, "will be deleted too", at(9, 1, 0)).unwrap();

    repo.delete_task(id);

    let task = repo.find_task_by_id(id);
    assert!(task.is_none());

    let with_notes = repo.get_task_with_notes(id);
    assert!(with_notes.is_none());
}
